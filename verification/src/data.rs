use vstd::prelude::*;

verus! {

/// A width/height pair in pixels.
#[derive(Clone, Copy, PartialEq, Eq, Structural, Debug)]
pub struct Size {
    pub width: u32,
    pub height: u32,
}

/// A point on the screen.
#[derive(Clone, Copy, PartialEq, Eq, Structural, Debug)]
pub struct Position {
    pub x: i32,
    pub y: i32,
}

/// A displacement between two positions.
#[derive(Clone, Copy, PartialEq, Eq, Structural, Debug)]
pub struct Vector2D {
    pub x: i32,
    pub y: i32,
}

impl Size {
    pub fn new(width: u32, height: u32) -> (s: Size)
        ensures
            s == (Size { width, height }),
    {
        Size { width, height }
    }

    /// Grows the size by a vector, component by component.
    pub fn add_vec(&self, vec: &Vector2D) -> (s: Size)
        requires
            0 <= vec.x,
            0 <= vec.y,
            self.width + vec.x <= u32::MAX,
            self.height + vec.y <= u32::MAX,
        ensures
            s.width == self.width + vec.x,
            s.height == self.height + vec.y,
    {
        Size { width: self.width + (vec.x as u32), height: self.height + (vec.y as u32) }
    }
}

impl Default for Size {
    /// The zero size.
    fn default() -> (s: Size)
        ensures
            s == (Size { width: 0u32, height: 0u32 }),
    {
        Size { width: 0, height: 0 }
    }
}

impl Position {
    pub fn new(x: i32, y: i32) -> (p: Position)
        ensures
            p == (Position { x, y }),
    {
        Position { x, y }
    }

    /// The displacement that leads from `other` to this position.
    pub fn sub(self, other: Position) -> (v: Vector2D)
        requires
            i32::MIN <= self.x - other.x <= i32::MAX,
            i32::MIN <= self.y - other.y <= i32::MAX,
        ensures
            v.x == self.x - other.x,
            v.y == self.y - other.y,
    {
        Vector2D { x: self.x - other.x, y: self.y - other.y }
    }

    /// The position reached by following the vector from this position.
    pub fn add_vec(&self, vec: &Vector2D) -> (p: Position)
        requires
            i32::MIN <= self.x + vec.x <= i32::MAX,
            i32::MIN <= self.y + vec.y <= i32::MAX,
        ensures
            p.x == self.x + vec.x,
            p.y == self.y + vec.y,
    {
        Position { x: self.x + vec.x, y: self.y + vec.y }
    }
}

impl Default for Position {
    /// The origin.
    fn default() -> (p: Position)
        ensures
            p == (Position { x: 0i32, y: 0i32 }),
    {
        Position { x: 0, y: 0 }
    }
}

impl Vector2D {
    pub fn new(x: i32, y: i32) -> (v: Vector2D)
        ensures
            v == (Vector2D { x, y }),
    {
        Vector2D { x, y }
    }
}

} // verus!
