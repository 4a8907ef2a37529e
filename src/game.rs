use vstd::prelude::*;

use crate::camera::{is_unit_like, FULL_TURN};
use crate::math::{Vector2, LIMIT};

verus! {

/// A direction of movement relative to the heading.
#[derive(Clone, Copy, Debug, PartialEq, Eq, Structural)]
pub enum Direction {
    Forward,
    Backward,
    Left,
    Right,
}

/// One input for a tick.
#[derive(Clone, Copy, Debug, PartialEq, Eq, Structural)]
pub enum Command {
    /// Move by a fixed-point distance in a direction.
    Move(Direction, i64),
    /// Turn by a fixed-point number of degrees; the vector is the cosine and sine of the
    /// heading reached.
    Look(i64, Vector2),
}

impl Command {
    pub open spec fn is_valid(self) -> bool {
        match self {
            Command::Move(_, d) => -LIMIT <= d <= LIMIT,
            Command::Look(delta, facing) => -FULL_TURN <= delta <= FULL_TURN && is_unit_like(facing),
        }
    }
}

} // verus!
