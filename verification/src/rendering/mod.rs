//! Fractal rendering: work splitting, layers, quality management.
use vstd::prelude::*;

pub mod fractal_visualiser;
pub mod implementation_map;
pub mod layer;
pub mod layer_manager;
pub mod orbit_trap;
pub mod palette;
pub mod reference_orbit;
pub mod render_task;
pub mod video;

verus! {

} // verus!
