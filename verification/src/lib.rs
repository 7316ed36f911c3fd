//! Verified core of a music-driven Mandelbrot visualiser: the integer and
//! decision logic behind audio framing, render scheduling, layer management
//! and video export.
use vstd::prelude::*;

pub mod audio;
pub mod exporting;
pub mod rendering;
pub mod text;
pub mod types;

verus! {

} // verus!
