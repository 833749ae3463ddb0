use vstd::prelude::*;

verus! {

/// Device-class branch: a handheld device is one whose physical screen is
/// narrower than 550 device pixels.
pub fn is_mobile(screen_width: i32) -> (r: bool)
    ensures
        r == (screen_width < 550),
{
    screen_width < 550
}

/// Characters that fit the window: viewport pixels divided by the
/// per-character footprint (10, 20).
pub fn get_window_size(raw_width: u16, raw_height: u16) -> (r: (u16, u16))
    ensures
        r.0 == raw_width / 10,
        r.1 == raw_height / 20,
{
    (raw_width / 10, raw_height / 20)
}

/// Characters that fit the physical screen: screen pixels divided by the
/// per-character footprint (10, 19).
pub fn get_screen_size(raw_width: i32, raw_height: i32) -> (r: (u16, u16))
    requires
        0 <= raw_width <= u16::MAX,
        0 <= raw_height <= u16::MAX,
    ensures
        r.0 == raw_width / 10,
        r.1 == raw_height / 19,
{
    ((raw_width as u16) / 10, (raw_height as u16) / 19)
}

/// Grid dimensions from the ambient device metrics, decided once at
/// backend construction: a handheld device uses the physical screen
/// divided by (10, 19); any other device uses the window viewport divided
/// by (10, 20); if the window metrics cannot be read, the size falls back
/// to a fixed (120, 120) grid.
pub fn grid_dimensions(screen_width: i32, screen_height: i32, window: Option<(u16, u16)>) -> (r: (
    u16,
    u16,
))
    requires
        0 <= screen_width <= u16::MAX,
        0 <= screen_height <= u16::MAX,
    ensures
        screen_width < 550 ==> r.0 == screen_width / 10 && r.1 == screen_height / 19,
        screen_width >= 550 ==> r == (match window {
            Some(m) => ((m.0 / 10) as u16, (m.1 / 20) as u16),
            None => (120u16, 120u16),
        }),
{
    if is_mobile(screen_width) {
        get_screen_size(screen_width, screen_height)
    } else {
        match window {
            Some(m) => get_window_size(m.0, m.1),
            None => (120, 120),
        }
    }
}

} // verus!
