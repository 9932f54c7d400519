//! Screen geometry: rectangles of terminal cells and layout directions.

use vstd::prelude::*;

verus! {

/// A rectangle of terminal cells: its top-left corner and its size.
#[derive(Clone, Copy, Debug, PartialEq, Eq, Structural)]
pub struct Rect {
    pub x: u16,
    pub y: u16,
    pub width: u16,
    pub height: u16,
}

/// The largest coordinate a cell can have.
pub open spec fn coord_max() -> int {
    u16::MAX as int
}

/// `a + b`, saturated at the largest coordinate.
pub open spec fn sat_add(a: int, b: int) -> int {
    if a + b > coord_max() {
        coord_max()
    } else {
        a + b
    }
}

/// `a - b`, saturated at zero.
pub open spec fn sat_sub(a: int, b: int) -> int {
    if a - b < 0 {
        0
    } else {
        a - b
    }
}

impl Rect {
    /// The first column right of the rectangle (saturated).
    pub open spec fn right_spec(self) -> int {
        sat_add(self.x as int, self.width as int)
    }

    /// The first row below the rectangle (saturated).
    pub open spec fn bottom_spec(self) -> int {
        sat_add(self.y as int, self.height as int)
    }

    /// Whether the rectangle holds no cell.
    pub open spec fn is_empty_spec(self) -> bool {
        self.width == 0 || self.height == 0
    }

    /// Whether `inner` lies inside this rectangle, edges included.
    pub open spec fn contains_rect(self, inner: Rect) -> bool {
        &&& self.x <= inner.x
        &&& self.y <= inner.y
        &&& inner.x + inner.width <= self.x + self.width
        &&& inner.y + inner.height <= self.y + self.height
    }

    /// Whether the cell at column `x`, row `y` lies inside this rectangle.
    pub open spec fn contains_cell(self, x: int, y: int) -> bool {
        &&& self.x <= x < self.x + self.width
        &&& self.y <= y < self.y + self.height
    }

    /// The left column.
    pub fn left(self) -> (r: u16)
        ensures
            r == self.x,
    {
        self.x
    }

    /// The first column right of the rectangle, saturated at the largest coordinate.
    pub fn right(self) -> (r: u16)
        ensures
            r == self.right_spec(),
    {
        self.x.saturating_add(self.width)
    }

    /// The top row.
    pub fn top(self) -> (r: u16)
        ensures
            r == self.y,
    {
        self.y
    }

    /// The first row below the rectangle, saturated at the largest coordinate.
    pub fn bottom(self) -> (r: u16)
        ensures
            r == self.bottom_spec(),
    {
        self.y.saturating_add(self.height)
    }

    /// Whether the rectangle holds no cell.
    pub fn is_empty(self) -> (r: bool)
        ensures
            r == self.is_empty_spec(),
    {
        self.width == 0 || self.height == 0
    }
}

/// Whether bars grow from left to right or from bottom to top.
#[derive(Clone, Copy, Debug, PartialEq, Eq, Hash, Structural)]
pub enum Direction {
    Horizontal,
    Vertical,
}

} // verus!
