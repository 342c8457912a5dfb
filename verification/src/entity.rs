//! What stands on a cell of the board.

use vstd::prelude::*;
use crate::geometry::Vector2;

verus! {

/// The glyph of every segment of the snake.
pub const SNAKE_BLOCK: char = '■';

/// The glyph of the food.
pub const FOOD_BLOCK: char = '●';

/// A cell's occupant: where it is, which way it last moved, and how it is
/// drawn.
#[derive(Clone, Copy, Debug, PartialEq, Eq, Structural)]
pub struct Entity {
    pub position: Vector2,
    pub direction: Vector2,
    pub glyph: char,
}

impl Entity {
    /// The entity with these parts.
    pub fn new(position: Vector2, direction: Vector2, glyph: char) -> (made: Entity)
        ensures
            made == (Entity { position, direction, glyph }),
    {
        Entity { position, direction, glyph }
    }
}

} // verus!
