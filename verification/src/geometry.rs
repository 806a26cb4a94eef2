//! Rectangles of terminal cells.

use vstd::prelude::*;

verus! {

/// A rectangle of cells; `x` and `y` are its top left corner.
#[derive(Clone, Copy, Debug, PartialEq, Eq, Structural)]
pub struct Rect {
    pub x: u16,
    pub y: u16,
    pub width: u16,
    pub height: u16,
}

/// The smaller of two numbers.
pub open spec fn lesser(a: int, b: int) -> int {
    if a <= b {
        a
    } else {
        b
    }
}

/// `a - b`, or zero where `b` is the larger.
pub open spec fn monus(a: int, b: int) -> int {
    if a >= b {
        a - b
    } else {
        0
    }
}

impl Rect {
    /// The column right of the rectangle.
    pub open spec fn right_edge(self) -> int {
        lesser(self.x + self.width, u16::MAX as int)
    }

    /// The row below the rectangle.
    pub open spec fn bottom_edge(self) -> int {
        lesser(self.y + self.height, u16::MAX as int)
    }

    /// Whether both edges fit in `u16`.
    pub open spec fn fits(self) -> bool {
        &&& self.x + self.width <= u16::MAX
        &&& self.y + self.height <= u16::MAX
    }

    /// Whether the cell in column `x` and row `y` lies in the rectangle.
    pub open spec fn holds(self, x: int, y: int) -> bool {
        &&& self.x <= x < self.right_edge()
        &&& self.y <= y < self.bottom_edge()
    }

    /// The rectangle with its size limited so that both edges fit in `u16`.
    pub open spec fn clamped(x: u16, y: u16, width: u16, height: u16) -> Rect {
        Rect {
            x,
            y,
            width: lesser(width as int, u16::MAX - x) as u16,
            height: lesser(height as int, u16::MAX - y) as u16,
        }
    }

    /// A rectangle, its size limited so that both edges fit in `u16`.
    pub fn new(x: u16, y: u16, width: u16, height: u16) -> (r: Rect)
        ensures
            r == Rect::clamped(x, y, width, height),
    {
        let max_width: u16 = u16::MAX - x;
        let max_height: u16 = u16::MAX - y;
        Rect {
            x,
            y,
            width: if width > max_width {
                max_width
            } else {
                width
            },
            height: if height > max_height {
                max_height
            } else {
                height
            },
        }
    }

    /// The first column right of the rectangle.
    pub fn right(&self) -> (r: u16)
        ensures
            r == self.right_edge(),
    {
        self.x.saturating_add(self.width)
    }

    /// The first row below the rectangle.
    pub fn bottom(&self) -> (r: u16)
        ensures
            r == self.bottom_edge(),
    {
        self.y.saturating_add(self.height)
    }
}

} // verus!
