//! Number helpers behind the complex number types.
use vstd::prelude::*;

pub mod complex;

verus! {

} // verus!
