//! Audio analysis, playback tracking and timing.
use vstd::prelude::*;

pub mod analyzer;
pub mod song_tracker;

verus! {

} // verus!
