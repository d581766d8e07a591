//! The user's settings: the camera speed, the samples per pixel and the image
//! size, with a record of what changed since the renderer last asked.

use vstd::prelude::*;

use super::settings_patch::SettingsPatch;

verus! {

/// The settings the window edits. `F` is the type the camera speed is
/// measured in.
pub struct Settings<F> {
    pub camera_speed: F,
    pub samples_per_pixel: u32,
    pub image_height: usize,
    pub image_width: usize,
    pub settings_patch: SettingsPatch<F>,
}

impl<F: Copy> Settings<F> {
    /// The starting settings: the given camera speed, 10 samples per pixel, a
    /// 10 by 10 image, and nothing changed yet.
    pub fn new(camera_speed: F) -> (settings: Settings<F>)
        ensures
            settings.camera_speed == camera_speed,
            settings.samples_per_pixel == 10,
            settings.image_height == 10,
            settings.image_width == 10,
            settings.settings_patch.camera_speed is None,
            settings.settings_patch.samples_per_pixel is None,
    {
        Settings {
            camera_speed,
            samples_per_pixel: 10,
            image_height: 10,
            image_width: 10,
            settings_patch: SettingsPatch::new(),
        }
    }

    /// Hands out the changes made since the last call, and starts a new,
    /// empty record of changes. The settings themselves stay as they are.
    pub fn get_patch(&mut self) -> (patch: SettingsPatch<F>)
        ensures
            patch == old(self).settings_patch,
            final(self).settings_patch.camera_speed is None,
            final(self).settings_patch.samples_per_pixel is None,
            final(self).camera_speed == old(self).camera_speed,
            final(self).samples_per_pixel == old(self).samples_per_pixel,
            final(self).image_height == old(self).image_height,
            final(self).image_width == old(self).image_width,
    {
        let mut patch = SettingsPatch::new();
        std::mem::swap(&mut patch, &mut self.settings_patch);
        patch
    }

    /// Sets a new camera speed and records the change. Which speeds are
    /// acceptable is decided by the caller, which knows how to compare them.
    pub fn record_camera_speed(&mut self, new_camera_speed: F)
        ensures
            final(self).camera_speed == new_camera_speed,
            final(self).settings_patch.camera_speed == Some(new_camera_speed),
            final(self).settings_patch.samples_per_pixel == old(self).settings_patch.samples_per_pixel,
            final(self).samples_per_pixel == old(self).samples_per_pixel,
            final(self).image_height == old(self).image_height,
            final(self).image_width == old(self).image_width,
    {
        self.camera_speed = new_camera_speed;
        self.settings_patch.camera_speed = Some(new_camera_speed);
    }

    pub fn get_camera_speed(&self) -> (camera_speed: F)
        ensures
            camera_speed == self.camera_speed,
    {
        self.camera_speed
    }

    /// Sets the samples per pixel and records the change.
    pub fn update_samples_per_pixel(&mut self, new_samples_per_pixel: u32)
        ensures
            final(self).samples_per_pixel == new_samples_per_pixel,
            final(self).settings_patch.samples_per_pixel == Some(new_samples_per_pixel),
            final(self).settings_patch.camera_speed == old(self).settings_patch.camera_speed,
            final(self).camera_speed == old(self).camera_speed,
            final(self).image_height == old(self).image_height,
            final(self).image_width == old(self).image_width,
    {
        self.settings_patch.samples_per_pixel = Some(new_samples_per_pixel);
        self.samples_per_pixel = new_samples_per_pixel;
    }

    pub fn get_samples_per_pixel(&self) -> (samples_per_pixel: u32)
        ensures
            samples_per_pixel == self.samples_per_pixel,
    {
        self.samples_per_pixel
    }

    /// Sets the image height. The renderer is not told of it through the
    /// patch.
    pub fn update_image_height(&mut self, new_image_height: usize)
        ensures
            final(self).image_height == new_image_height,
            final(self).image_width == old(self).image_width,
            final(self).camera_speed == old(self).camera_speed,
            final(self).samples_per_pixel == old(self).samples_per_pixel,
            final(self).settings_patch == old(self).settings_patch,
    {
        self.image_height = new_image_height;
    }

    pub fn get_image_height(&self) -> (image_height: usize)
        ensures
            image_height == self.image_height,
    {
        self.image_height
    }

    /// Takes a new image width. As written, it stores the value as the image
    /// height and leaves the width unchanged.
    pub fn update_image_width(&mut self, new_image_width: usize)
        ensures
            final(self).image_height == new_image_width,
            final(self).image_width == old(self).image_width,
            final(self).camera_speed == old(self).camera_speed,
            final(self).samples_per_pixel == old(self).samples_per_pixel,
            final(self).settings_patch == old(self).settings_patch,
    {
        self.image_height = new_image_width;
    }

    pub fn get_image_width(&self) -> (image_width: usize)
        ensures
            image_width == self.image_width,
    {
        self.image_width
    }
}

} // verus!
