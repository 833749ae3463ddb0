[package]
name = "webgrid"
version = "0.1.0"
edition = "2021"
publish = false

[dependencies]
ratatui = { version = "*", default-features = false }
web-sys = { version = "*", features = [
    "Window",
    "Document",
    "Element",
    "HtmlElement",
    "Node",
    "Screen",
    "MediaQueryList",
    "KeyboardEvent",
    "EventTarget",
    "console",
] }
