//! The interface of a concurrent integrator.

use vstd::prelude::*;
use crate::camera::film::Film;

verus! {

/// An integrator that renders on several threads and can hand out the image
/// rendered so far.
pub trait RunConcurrently<C> {
    fn do_work(&mut self);

    fn output_image(&self) -> Film<C>;
}

} // verus!
