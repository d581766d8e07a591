//! State behind the user interface: which windows are open, which renderers
//! run, and the text fields through which the user edits the settings.

pub mod file_drop_down;
pub mod labels;

use vstd::prelude::*;

verus! {

/// Which of the optional windows are open.
pub struct Windows {
    pub settings: bool,
}

/// Which renderers are switched on.
pub struct Renderers {
    pub raytracer: bool,
    pub rasterizer: bool,
}

/// The text the settings fields currently show.
pub struct Labels {
    pub width: String,
    pub height: String,
    pub samples: String,
    pub camera_speed: String,
}

} // verus!
