use vstd::prelude::*;

pub mod camera;
pub mod config;
pub mod game;
pub mod map;
pub mod math;
pub mod scene;
pub mod texture;

verus! {

} // verus!
