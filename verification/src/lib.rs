//! A 2D physics sandbox core: a particle gravity engine and a rigid square
//! engine, rasterized into an in-memory RGBA pixel buffer.
//!
//! All world coordinates, velocities and forces are fixed-point integers
//! (`FP` sub-units per pixel), so every computation is exact and verified;
//! the windowing, GPU and input layers around this core deal in plain
//! integers and are kept outside the library.

pub mod cell_sim;
pub mod colour;
pub mod falling;
pub mod game;
pub mod gravity_sim;
pub mod inputs;
pub mod intmath;
pub mod particle;
pub mod raster;
pub mod rigid;
pub mod vec2;
pub mod world;

use vstd::prelude::*;

verus! {

/// Fixed-point sub-units per world pixel.
pub const FP: i64 = 65536;

} // verus!
