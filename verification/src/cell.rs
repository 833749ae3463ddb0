use vstd::prelude::*;
use vstd::string::StringExecFns;
use crate::color::{spec_cell_style, resolve_style, CellStyle, Color};
use crate::DocumentMode;

verus! {

/// Modifier flag marking a cell as part of an inline hyperlink span.
pub const HYPERLINK: u16 = 2048;

/// One character position's full paint state for a frame.
pub struct Cell {
    pub glyph: String,
    pub fg: Color,
    pub bg: Color,
    pub modifiers: u16,
}

/// Mathematical model of a `Cell`: the glyph as a character sequence plus
/// the plain color and modifier fields.
#[verifier::ext_equal]
pub struct CellV {
    pub glyph: Seq<char>,
    pub fg: Color,
    pub bg: Color,
    pub modifiers: u16,
}

impl View for Cell {
    type V = CellV;

    open spec fn view(&self) -> CellV {
        CellV { glyph: self.glyph@, fg: self.fg, bg: self.bg, modifiers: self.modifiers }
    }
}

impl CellV {
    /// Whether the cell carries the hyperlink modifier.
    pub open spec fn is_link(self) -> bool {
        self.modifiers & HYPERLINK != 0
    }

    /// The resolved style of this cell under the given preference.
    pub open spec fn style(self, dark: bool) -> CellStyle {
        spec_cell_style(self.fg, self.bg, dark)
    }
}

/// The blank cell used to pad lazily written rows: a single space with no
/// colors and no modifiers.
pub open spec fn default_cell() -> CellV {
    CellV { glyph: " "@, fg: Color::Unset, bg: Color::Unset, modifiers: 0 }
}

impl Cell {
    /// Builds a cell from its four paint fields.
    pub fn new(glyph: String, fg: Color, bg: Color, modifiers: u16) -> (r: Cell)
        ensures
            r@ == (CellV { glyph: glyph@, fg, bg, modifiers }),
    {
        Cell { glyph, fg, bg, modifiers }
    }

    /// Whether this cell carries the hyperlink modifier.
    pub fn is_hyperlink(&self) -> (r: bool)
        ensures
            r == self@.is_link(),
    {
        self.modifiers & HYPERLINK != 0
    }

    /// The resolved style of this cell under the ambient preference.
    pub fn style(&self, mode: &DocumentMode) -> (r: CellStyle)
        ensures
            r == self@.style(mode.dark),
    {
        resolve_style(self.fg, self.bg, mode)
    }
}

impl Clone for Cell {
    fn clone(&self) -> (r: Cell)
        ensures
            r@ == self@,
    {
        Cell { glyph: self.glyph.clone(), fg: self.fg, bg: self.bg, modifiers: self.modifiers }
    }
}

impl Default for Cell {
    /// The blank padding cell.
    fn default() -> (r: Cell)
        ensures
            r@ == default_cell(),
    {
        Cell { glyph: String::from_str(" "), fg: Color::Unset, bg: Color::Unset, modifiers: 0 }
    }
}

impl PartialEq for Cell {
    /// Structural equality: two cells count as unchanged exactly when all
    /// four fields compare equal.
    fn eq(&self, other: &Cell) -> (r: bool) {
        let fields_eq = self.glyph == other.glyph && self.fg == other.fg && self.bg == other.bg
            && self.modifiers == other.modifiers;
        proof {
            if fields_eq {
                assert(self@ =~= other@);
            }
        }
        fields_eq
    }
}

impl vstd::std_specs::cmp::PartialEqSpecImpl for Cell {
    open spec fn obeys_eq_spec() -> bool {
        true
    }

    open spec fn eq_spec(&self, other: &Cell) -> bool {
        self@ == other@
    }
}

/// Resolves the style of a cell; the ambient preference is read by the
/// caller and passed in.
pub fn get_cell_color(cell: &Cell, mode: &DocumentMode) -> (r: CellStyle)
    ensures
        r == cell@.style(mode.dark),
{
    cell.style(mode)
}

} // verus!
