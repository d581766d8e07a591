//! The source of the random samples the integrator draws.

use vstd::prelude::*;

verus! {

pub struct Sampler {}

} // verus!
