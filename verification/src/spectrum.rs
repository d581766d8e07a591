//! Spectral power distributions.

use vstd::prelude::*;

verus! {

/// Whether an RGB colour describes how a surface reflects light or how a
/// light source emits it.
#[derive(Copy, Clone, PartialEq, Eq, Structural, Debug)]
pub enum SpectrumType {
    Reflectance,
    Illuminant,
}

} // verus!
