//! Integer vectors of the playfield.

use vstd::prelude::*;

verus! {

/// A pair of integers, used both for a cell of the board and for a step.
#[derive(Clone, Copy, Debug, PartialEq, Eq, Structural)]
pub struct Vector2 {
    pub x: i32,
    pub y: i32,
}

impl Vector2 {
    /// The step of a resting or moving head: one of the four unit vectors,
    /// or the zero vector.
    pub open spec fn is_direction(self) -> bool {
        ||| (self.x == 0 && -1 <= self.y <= 1)
        ||| (self.y == 0 && -1 <= self.x <= 1)
    }

    /// The vector with these components.
    pub fn new(x: i32, y: i32) -> (v: Vector2)
        ensures
            v == (Vector2 { x, y }),
    {
        Vector2 { x, y }
    }

    /// Equality, component by component.
    pub fn same(&self, other: &Vector2) -> (b: bool)
        ensures
            b == (*self == *other),
    {
        *self == *other
    }
}

} // verus!
