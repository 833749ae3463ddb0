use vstd::prelude::*;

pub mod backend;
pub mod cell;
pub mod color;
pub mod grid;
pub mod pump;
pub mod surface;
pub mod viewport;

verus! {

/// Ambient light/dark preference of the host document, read once per
/// color resolution by the caller and passed in as a plain value.
#[derive(Clone, Copy, PartialEq, Eq, Structural, Debug)]
pub struct DocumentMode {
    pub dark: bool,
    pub light: bool,
}

impl DocumentMode {
    /// A well-formed mode records exactly one of the two preferences.
    pub open spec fn wf(self) -> bool {
        self.light == !self.dark
    }

    /// Builds the mode from the dark-mode preference alone.
    pub fn from_dark(dark: bool) -> (r: DocumentMode)
        ensures
            r.dark == dark,
            r.wf(),
    {
        DocumentMode { dark, light: !dark }
    }
}

} // verus!
