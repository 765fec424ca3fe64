//! Display cells: the unit values a grid maps coordinates to.

use vstd::prelude::*;

verus! {

/// The character a freshly constructed grid is filled with.
pub const SCREEN_BLANK_CHAR: char = ' ';

/// How many terminal columns one grid cell occupies by default.
/// A cell is rendered as its glyph repeated this many times, which
/// approximates a square aspect ratio on typical terminal fonts.
pub const SCREEN_PIXEL_WIDTH: usize = 2;

/// One displayable unit: a character together with the number of
/// repeated glyphs it is rendered as. Cells are immutable values,
/// replaced wholesale on mutation.
#[derive(Clone, Copy, PartialEq, Eq, Structural, Debug)]
pub struct Cell {
    pub ch: char,
    pub width: usize,
}

impl Cell {
    /// A cell showing `ch` at the default display width.
    pub fn new(ch: char) -> (r: Cell)
        ensures
            r.ch == ch,
            r.width == SCREEN_PIXEL_WIDTH,
    {
        Cell { ch, width: SCREEN_PIXEL_WIDTH }
    }

    /// A cell showing `ch` repeated `width` times.
    pub fn with_width(ch: char, width: usize) -> (r: Cell)
        ensures
            r.ch == ch,
            r.width == width,
    {
        Cell { ch, width }
    }

    /// The blank cell a grid starts out filled with.
    pub fn blank() -> (r: Cell)
        ensures
            r == blank_cell(),
    {
        Cell { ch: SCREEN_BLANK_CHAR, width: SCREEN_PIXEL_WIDTH }
    }
}

/// The blank cell: the blank character at the default display width.
pub open spec fn blank_cell() -> Cell {
    Cell { ch: SCREEN_BLANK_CHAR, width: SCREEN_PIXEL_WIDTH }
}

/// A coordinate pair together with the character shown there.
#[derive(Clone, Copy, PartialEq, Eq, Structural, Debug)]
pub struct Point {
    pub x: usize,
    pub y: usize,
    pub c: char,
}

impl Point {
    pub fn new(x: usize, y: usize, c: char) -> (r: Point)
        ensures
            r.x == x,
            r.y == y,
            r.c == c,
    {
        Point { x, y, c }
    }
}

} // verus!
