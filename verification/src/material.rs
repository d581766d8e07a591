//! Materials: how a surface reflects or emits light.

pub mod material;

pub use self::material::ReflectionModel;

use vstd::prelude::*;

verus! {

/// A surface that emits light of one colour and reflects none.
#[derive(Default, Clone, Copy, PartialEq)]
pub struct DiffuseLights<C> {
    pub color: C,
}

impl<C: Copy> DiffuseLights<C> {
    pub fn new(color: C) -> (light: DiffuseLights<C>)
        ensures
            light.color == color,
    {
        DiffuseLights { color }
    }

    /// The light the surface emits: its colour.
    pub fn emit(&self) -> (emitted: C)
        ensures
            emitted == self.color,
    {
        self.color
    }

    /// Light arriving at the surface is absorbed, never scattered.
    pub fn scatter<R, H, S>(&self, ray: &R, record: &H) -> (scattered: Option<S>)
        ensures
            scattered is None,
    {
        None
    }
}

} // verus!
