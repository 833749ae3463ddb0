use vstd::prelude::*;
use crate::DocumentMode;

verus! {

/// Terminal color as the renderer understands it: one of the sixteen named
/// ANSI colors, `Unset` (no explicit color chosen), or `Other` for any
/// extended color space the renderer does not map (RGB, indexed, ...).
#[derive(Clone, Copy, PartialEq, Eq, Structural, Debug)]
pub enum Color {
    Unset,
    Black,
    Red,
    Green,
    Yellow,
    Blue,
    Magenta,
    Cyan,
    Gray,
    DarkGray,
    LightRed,
    LightGreen,
    LightYellow,
    LightBlue,
    LightMagenta,
    LightCyan,
    White,
    Other,
}

/// A concrete RGB triple.
#[derive(Clone, Copy, PartialEq, Eq, Structural, Debug)]
pub struct Rgb {
    pub r: u8,
    pub g: u8,
    pub b: u8,
}

/// The resolved paint state of one cell: a concrete foreground color and
/// either a concrete background color or `None` for a fully transparent
/// background.
#[derive(Clone, Copy, PartialEq, Eq, Structural, Debug)]
pub struct CellStyle {
    pub fg: Rgb,
    pub bg: Option<Rgb>,
}

pub open spec fn rgb(r: u8, g: u8, b: u8) -> Rgb {
    Rgb { r, g, b }
}

/// The fixed lookup table from named colors to RGB; `Unset` and extended
/// color spaces map to no color.
pub open spec fn spec_ansi_to_rgb(color: Color) -> Option<Rgb> {
    match color {
        Color::Black => Some(rgb(0, 0, 0)),
        Color::Red => Some(rgb(128, 0, 0)),
        Color::Green => Some(rgb(0, 128, 0)),
        Color::Yellow => Some(rgb(128, 128, 0)),
        Color::Blue => Some(rgb(0, 0, 128)),
        Color::Magenta => Some(rgb(128, 0, 128)),
        Color::Cyan => Some(rgb(0, 128, 128)),
        Color::Gray => Some(rgb(192, 192, 192)),
        Color::DarkGray => Some(rgb(128, 128, 128)),
        Color::LightRed => Some(rgb(255, 0, 0)),
        Color::LightGreen => Some(rgb(0, 255, 0)),
        Color::LightYellow => Some(rgb(255, 255, 0)),
        Color::LightBlue => Some(rgb(0, 0, 255)),
        Color::LightMagenta => Some(rgb(255, 0, 255)),
        Color::LightCyan => Some(rgb(0, 255, 255)),
        Color::White => Some(rgb(255, 255, 255)),
        _ => None,
    }
}

/// Maps a named color to its RGB triple; `Unset` and extended colors yield
/// no color.
pub fn ansi_to_rgb(color: Color) -> (r: Option<Rgb>)
    ensures
        r == spec_ansi_to_rgb(color),
{
    match color {
        Color::Black => Some(Rgb { r: 0, g: 0, b: 0 }),
        Color::Red => Some(Rgb { r: 128, g: 0, b: 0 }),
        Color::Green => Some(Rgb { r: 0, g: 128, b: 0 }),
        Color::Yellow => Some(Rgb { r: 128, g: 128, b: 0 }),
        Color::Blue => Some(Rgb { r: 0, g: 0, b: 128 }),
        Color::Magenta => Some(Rgb { r: 128, g: 0, b: 128 }),
        Color::Cyan => Some(Rgb { r: 0, g: 128, b: 128 }),
        Color::Gray => Some(Rgb { r: 192, g: 192, b: 192 }),
        Color::DarkGray => Some(Rgb { r: 128, g: 128, b: 128 }),
        Color::LightRed => Some(Rgb { r: 255, g: 0, b: 0 }),
        Color::LightGreen => Some(Rgb { r: 0, g: 255, b: 0 }),
        Color::LightYellow => Some(Rgb { r: 255, g: 255, b: 0 }),
        Color::LightBlue => Some(Rgb { r: 0, g: 0, b: 255 }),
        Color::LightMagenta => Some(Rgb { r: 255, g: 0, b: 255 }),
        Color::LightCyan => Some(Rgb { r: 0, g: 255, b: 255 }),
        Color::White => Some(Rgb { r: 255, g: 255, b: 255 }),
        _ => None,
    }
}

/// A foreground with no mapped color falls back to white in dark mode and
/// black in light mode.
pub open spec fn spec_resolve_fg(fg: Color, dark: bool) -> Rgb {
    match spec_ansi_to_rgb(fg) {
        Some(c) => c,
        None => if dark {
            rgb(255, 255, 255)
        } else {
            rgb(0, 0, 0)
        },
    }
}

/// The full style of a cell with foreground `fg` and background `bg` under
/// the given light/dark preference: an unmapped background stays transparent.
pub open spec fn spec_cell_style(fg: Color, bg: Color, dark: bool) -> CellStyle {
    CellStyle { fg: spec_resolve_fg(fg, dark), bg: spec_ansi_to_rgb(bg) }
}

/// Resolves a foreground/background pair to the concrete style that the
/// surface records for the node.
pub fn resolve_style(fg: Color, bg: Color, mode: &DocumentMode) -> (r: CellStyle)
    ensures
        r == spec_cell_style(fg, bg, mode.dark),
{
    let fg_rgb = match ansi_to_rgb(fg) {
        Some(c) => c,
        None => if mode.dark {
            Rgb { r: 255, g: 255, b: 255 }
        } else {
            Rgb { r: 0, g: 0, b: 0 }
        },
    };
    CellStyle { fg: fg_rgb, bg: ansi_to_rgb(bg) }
}

} // verus!
