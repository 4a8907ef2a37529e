use vstd::prelude::*;

use crate::math::{Line, Vector2};

verus! {

/// Screen dimensions in pixels.
#[derive(Clone, Copy, Debug, PartialEq, Eq, Structural)]
pub struct Screen {
    pub width: u32,
    pub height: u32,
}

/// Gameplay parameters, in fixed point: speeds per second, the radius in world units.
#[derive(Clone, Copy, Debug, PartialEq, Eq, Structural)]
pub struct Player {
    pub look_speed: i64,
    pub move_speed: i64,
    pub collision_radius: i64,
}

/// Where the camera starts: a position and a heading in fixed-point degrees.
#[derive(Clone, Copy, Debug, PartialEq, Eq, Structural)]
pub struct CameraConfig {
    pub position: Vector2,
    pub angle: i64,
}

/// One wall of a map definition.
#[derive(Clone, Debug)]
pub struct WallConfig {
    pub texture: String,
    pub line: Line,
}

/// A map definition: its walls, in order.
#[derive(Clone, Debug)]
pub struct MapConfig {
    pub walls: Vec<WallConfig>,
}

} // verus!
