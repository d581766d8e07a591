//! The changes made to the settings since they were last collected.

use vstd::prelude::*;

verus! {

/// The settings changed since the last collection: `None` where a setting
/// has not changed. `F` is the type the camera speed is measured in.
#[derive(Clone, Copy, Debug)]
pub struct SettingsPatch<F> {
    pub camera_speed: Option<F>,
    pub samples_per_pixel: Option<u32>,
}

impl<F> SettingsPatch<F> {
    /// A patch that changes nothing.
    pub fn new() -> (patch: SettingsPatch<F>)
        ensures
            patch.camera_speed is None,
            patch.samples_per_pixel is None,
    {
        SettingsPatch { camera_speed: None, samples_per_pixel: None }
    }
}

impl<F> Default for SettingsPatch<F> {
    fn default() -> (patch: Self)
        ensures
            patch.camera_speed is None,
            patch.samples_per_pixel is None,
    {
        SettingsPatch::new()
    }
}

} // verus!
