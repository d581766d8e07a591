//! Choosing which of the rendered images is shown.

use vstd::prelude::*;

verus! {

/// The renderer whose image is shown.
#[derive(Copy, Clone, PartialEq, Eq, Structural, Debug)]
pub enum PrimaryImageType {
    Raster,
    Raytrace,
}

/// The layers a composite image holds.
#[derive(Copy, Clone, PartialEq, Eq, Structural, Debug)]
pub enum ImageLayer {
    Raster,
    Outline,
    Raytrace,
}

/// The layer a composite image shows for the chosen renderer: the raster
/// image, or the ray-traced image once it has a sample, the outline standing
/// in for it until then.
pub fn primary_layer(primary_image: PrimaryImageType, raytrace_samples: usize) -> (layer: ImageLayer)
    ensures
        layer == (match primary_image {
            PrimaryImageType::Raster => ImageLayer::Raster,
            PrimaryImageType::Raytrace => if raytrace_samples == 0 {
                ImageLayer::Outline
            } else {
                ImageLayer::Raytrace
            },
        }),
{
    match primary_image {
        PrimaryImageType::Raster => ImageLayer::Raster,
        PrimaryImageType::Raytrace => {
            if raytrace_samples == 0 {
                ImageLayer::Outline
            } else {
                ImageLayer::Raytrace
            }
        },
    }
}

} // verus!
