use vstd::prelude::*;

verus! {

/// A position in terminal cells.
#[derive(Clone, Copy, Debug, PartialEq, Eq, Structural, Default)]
pub struct Position {
    pub x: u16,
    pub y: u16,
}

/// A rectangular area of the terminal, in cells.
#[derive(Clone, Copy, Debug, PartialEq, Eq, Structural, Default)]
pub struct Rect {
    pub x: u16,
    pub y: u16,
    pub width: u16,
    pub height: u16,
}

/// `a + b`, saturating at `u16::MAX`.
pub open spec fn sat_add_u16(a: u16, b: u16) -> u16 {
    if a + b > u16::MAX { u16::MAX } else { (a + b) as u16 }
}

/// `a - b`, saturating at zero.
pub open spec fn sat_sub_u16(a: u16, b: u16) -> u16 {
    if a < b { 0 } else { (a - b) as u16 }
}

impl Position {
    pub fn new(x: u16, y: u16) -> (p: Position)
        ensures
            p.x == x,
            p.y == y,
    {
        Position { x, y }
    }
}

impl Rect {
    pub open spec fn spec_right(self) -> u16 {
        sat_add_u16(self.x, self.width)
    }

    pub open spec fn spec_bottom(self) -> u16 {
        sat_add_u16(self.y, self.height)
    }

    /// Whether `p` lies inside the rectangle (right and bottom edges excluded,
    /// and measured with saturating arithmetic).
    pub open spec fn spec_contains(self, p: Position) -> bool {
        &&& p.x >= self.x
        &&& p.x < self.spec_right()
        &&& p.y >= self.y
        &&& p.y < self.spec_bottom()
    }

    pub fn new(x: u16, y: u16, width: u16, height: u16) -> (r: Rect)
        ensures
            r == (Rect { x, y, width, height }),
    {
        Rect { x, y, width, height }
    }

    /// The column just right of the rectangle, saturating at `u16::MAX`.
    pub fn right(self) -> (r: u16)
        ensures
            r == self.spec_right(),
    {
        self.x.saturating_add(self.width)
    }

    /// The row just below the rectangle, saturating at `u16::MAX`.
    pub fn bottom(self) -> (r: u16)
        ensures
            r == self.spec_bottom(),
    {
        self.y.saturating_add(self.height)
    }

    pub fn contains(self, p: Position) -> (b: bool)
        ensures
            b == self.spec_contains(p),
    {
        p.x >= self.x && p.x < self.right() && p.y >= self.y && p.y < self.bottom()
    }

    /// The top-left corner of the rectangle.
    pub fn as_position(self) -> (p: Position)
        ensures
            p.x == self.x,
            p.y == self.y,
    {
        Position { x: self.x, y: self.y }
    }
}

} // verus!
