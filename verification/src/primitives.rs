//! The shapes a scene is built from, and the lists that hold them.

pub mod rect;

use vstd::prelude::*;

verus! {

/// A list of the scene's primitives. The shapes themselves are the
/// renderer's; the list keeps them in the order they were added.
#[derive(Clone)]
pub struct Primitives<P> {
    list: Vec<P>,
}

impl<P> View for Primitives<P> {
    type V = Seq<P>;

    closed spec fn view(&self) -> Seq<P> {
        self.list@
    }
}

impl<P: Clone> Primitives<P> {
    pub fn new() -> (primitives: Primitives<P>)
        ensures
            primitives@ == Seq::<P>::empty(),
    {
        Primitives { list: Vec::new() }
    }

    pub fn add(&mut self, new_traceable: P)
        ensures
            final(self)@ == old(self)@.push(new_traceable),
    {
        self.list.push(new_traceable);
    }

    pub fn remove(&mut self, index: usize) -> (removed: P)
        requires
            index < old(self)@.len(),
        ensures
            removed == old(self)@[index as int],
            final(self)@ == old(self)@.remove(index as int),
    {
        self.list.remove(index)
    }

    pub fn get(&self, index: usize) -> (primitive: P)
        requires
            index < self@.len(),
        ensures
            cloned(self@[index as int], primitive),
    {
        self.list[index].clone()
    }

    pub fn len(&self) -> (length: usize)
        ensures
            length == self@.len(),
    {
        self.list.len()
    }

    pub fn empty(&self) -> (is_empty: bool)
        ensures
            is_empty == (self@.len() == 0),
    {
        self.list.len() == 0
    }

    /// Keeps the primitives before `at` and returns the rest.
    pub fn split_off(&mut self, at: usize) -> (rest: Primitives<P>)
        requires
            at <= old(self)@.len(),
        ensures
            final(self)@ == old(self)@.subrange(0, at as int),
            rest@ == old(self)@.subrange(at as int, old(self)@.len() as int),
    {
        Primitives { list: self.list.split_off(at) }
    }
}

/// A list of geometric primitives, the shapes the rasteriser outlines.
#[derive(Clone)]
pub struct GeometricPrimitives<G> {
    list: Vec<G>,
}

impl<G> View for GeometricPrimitives<G> {
    type V = Seq<G>;

    closed spec fn view(&self) -> Seq<G> {
        self.list@
    }
}

impl<G: Clone> GeometricPrimitives<G> {
    pub fn new() -> (primitives: GeometricPrimitives<G>)
        ensures
            primitives@ == Seq::<G>::empty(),
    {
        GeometricPrimitives { list: Vec::new() }
    }

    pub fn add(&mut self, new_traceable: G)
        ensures
            final(self)@ == old(self)@.push(new_traceable),
    {
        self.list.push(new_traceable);
    }

    pub fn remove(&mut self, index: usize) -> (removed: G)
        requires
            index < old(self)@.len(),
        ensures
            removed == old(self)@[index as int],
            final(self)@ == old(self)@.remove(index as int),
    {
        self.list.remove(index)
    }

    pub fn get(&self, index: usize) -> (primitive: G)
        requires
            index < self@.len(),
        ensures
            cloned(self@[index as int], primitive),
    {
        self.list[index].clone()
    }

    pub fn len(&self) -> (length: usize)
        ensures
            length == self@.len(),
    {
        self.list.len()
    }

    pub fn empty(&self) -> (is_empty: bool)
        ensures
            is_empty == (self@.len() == 0),
    {
        self.list.len() == 0
    }

    /// Keeps the primitives before `at` and returns the rest.
    pub fn split_off(&mut self, at: usize) -> (rest: GeometricPrimitives<G>)
        requires
            at <= old(self)@.len(),
        ensures
            final(self)@ == old(self)@.subrange(0, at as int),
            rest@ == old(self)@.subrange(at as int, old(self)@.len() as int),
    {
        GeometricPrimitives { list: self.list.split_off(at) }
    }

    /// The list's items, for whoever needs to go through them.
    pub fn as_slice(&self) -> (items: &[G])
        ensures
            items@ == self@,
    {
        self.list.as_slice()
    }
}

impl<P: Clone> Primitives<P> {
    /// The list's items, for whoever needs to go through them.
    pub fn as_slice(&self) -> (items: &[P])
        ensures
            items@ == self@,
    {
        self.list.as_slice()
    }
}

} // verus!
