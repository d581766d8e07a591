//! The settings the user edits in the window, and the changes to them that
//! the renderer still has to pick up.

pub mod settings;
pub mod settings_patch;
