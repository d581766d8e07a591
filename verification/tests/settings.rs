use raytracer::settings::settings::Settings;
use raytracer::settings::settings_patch::SettingsPatch;

#[test]
fn settings_start_unchanged() {
    let mut settings: Settings<u32> = Settings::new(3);
    assert_eq!(settings.get_camera_speed(), 3);
    assert_eq!(settings.get_samples_per_pixel(), 10);
    assert_eq!(settings.get_image_height(), 10);
    assert_eq!(settings.get_image_width(), 10);
    let patch = settings.get_patch();
    assert!(patch.camera_speed.is_none());
    assert!(patch.samples_per_pixel.is_none());
}

#[test]
fn settings_patch_records_changes_once() {
    let mut settings: Settings<u32> = Settings::new(1);
    settings.update_samples_per_pixel(250);
    settings.record_camera_speed(7);
    assert_eq!(settings.get_samples_per_pixel(), 250);
    assert_eq!(settings.get_camera_speed(), 7);
    let patch = settings.get_patch();
    assert_eq!(patch.samples_per_pixel, Some(250));
    assert_eq!(patch.camera_speed, Some(7));
    let again = settings.get_patch();
    assert!(again.samples_per_pixel.is_none());
    assert!(again.camera_speed.is_none());
    assert_eq!(settings.get_samples_per_pixel(), 250);
}

#[test]
fn settings_image_size_updates() {
    let mut settings: Settings<u32> = Settings::new(1);
    settings.update_image_height(480);
    assert_eq!(settings.get_image_height(), 480);
    assert_eq!(settings.get_image_width(), 10);
    settings.update_image_width(640);
    assert_eq!(settings.get_image_height(), 640);
    assert_eq!(settings.get_image_width(), 10);
    assert!(settings.get_patch().samples_per_pixel.is_none());
}

#[test]
fn settings_patch_default_is_empty() {
    let patch: SettingsPatch<u32> = SettingsPatch::default();
    assert!(patch.camera_speed.is_none());
    assert!(patch.samples_per_pixel.is_none());
}
