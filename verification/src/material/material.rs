//! The reflection models materials are classified by.

use vstd::prelude::*;

verus! {

#[derive(Copy, Clone, PartialEq, Eq, Structural, Debug)]
pub enum ReflectionModel {
    Diffuse,
    Glossy,
    Specular,
}

} // verus!
