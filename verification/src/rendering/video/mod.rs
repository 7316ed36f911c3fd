//! Video rendering driven by audio: mapping audio features to layer effects.
use vstd::prelude::*;

pub mod audio_mapper;

verus! {

} // verus!
