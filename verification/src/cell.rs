//! Display cells and the geometry of the character grid.

use vstd::prelude::*;

verus! {

/// Number of columns of the grid.
pub const WIDTH: usize = 80;

/// Number of rows of the grid.
pub const HEIGHT: usize = 25;

/// Number of cells of the grid, `WIDTH * HEIGHT`.
pub const CELLS: usize = 2000;

/// Number of bytes the grid occupies in the device region, two per cell.
pub const FRAME_BYTES: usize = 4000;

/// The attribute byte every written cell carries: light grey on black.
pub const DEFAULT_ATTR: u8 = 0x07;

/// The character code shown in place of a byte that has no glyph of its own.
pub const PLACEHOLDER: u8 = 0xfe;

/// The character code of an empty cell, a space.
pub const SPACE: u8 = 0x20;

/// The byte that ends a line.
pub const LINE_FEED: u8 = 0x0a;

/// One character position of the display: a character code and an attribute
/// byte that encodes foreground and background colour.
#[derive(Clone, Copy, PartialEq, Eq, Structural, Debug)]
pub struct Cell {
    pub code: u8,
    pub attr: u8,
}

/// A byte is printable when it is a space or a visible ASCII character.
pub open spec fn is_printable(b: u8) -> bool {
    0x20 <= b <= 0x7e
}

/// The character code that stands for byte `b` on the display: the byte
/// itself when it is printable, the placeholder otherwise.
pub open spec fn glyph(b: u8) -> u8 {
    if is_printable(b) {
        b
    } else {
        PLACEHOLDER
    }
}

/// The cell an untouched position holds: a space with the default attribute.
pub open spec fn blank() -> Cell {
    Cell { code: SPACE, attr: DEFAULT_ATTR }
}

/// The cell that shows byte `b`.
pub open spec fn cell_for(b: u8) -> Cell {
    Cell { code: glyph(b), attr: DEFAULT_ATTR }
}

impl Cell {
    /// An empty cell.
    pub fn blank() -> (c: Cell)
        ensures
            c == blank(),
    {
        Cell { code: SPACE, attr: DEFAULT_ATTR }
    }

    /// The cell that shows byte `b` with the default attribute. A byte without
    /// a glyph is shown as the placeholder.
    pub fn showing(b: u8) -> (c: Cell)
        ensures
            c == cell_for(b),
    {
        if 0x20 <= b && b <= 0x7e {
            Cell { code: b, attr: DEFAULT_ATTR }
        } else {
            Cell { code: PLACEHOLDER, attr: DEFAULT_ATTR }
        }
    }
}

} // verus!
