//! Rules of a terminal snake game: a snake that trails its head across a
//! wrap-around board, eats, grows and bites itself, together with the input
//! mapping, the game states and the text frame that shows them.

use vstd::prelude::*;

pub mod board;
pub mod dice;
pub mod entity;
pub mod geometry;
pub mod input;
pub mod screen;
pub mod session;
pub mod snake;
pub mod text;

verus! {

/// The number of frames in a second that the driving loop aims at.
pub const FPS: u64 = 30;

/// The pause after every frame at `FPS`, in milliseconds.
pub const FRAME_MILLIS: u64 = 1000 / FPS;

/// The pause after every frame that holds a loop to at most `fps` frames
/// in a second, in whole milliseconds. The pause does not make up for the
/// time that a frame took.
pub fn frame_millis(fps: u64) -> (pause: u64)
    requires
        fps > 0,
    ensures
        pause == 1000int / (fps as int),
        fps == FPS ==> pause == FRAME_MILLIS,
{
    1000 / fps
}

} // verus!
