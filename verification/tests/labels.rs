use raytracer::decimal::{format_i32, format_usize, parse_i32, parse_usize};
use raytracer::gui::file_drop_down::FileDropDown;
use raytracer::gui::labels::{
    validate_usize_label, CameraSpeed, ImageHeight, ImageWidth, Label, SamplesPerPixel,
};

#[test]
fn parse_usize_reads_like_str_parse() {
    for text in ["0", "7", "+12", "007", "18446744073709551615", "4294967295", "", "+", "-1", "1 ", "12a", "99999999999999999999"] {
        assert_eq!(parse_usize(text), text.parse::<usize>().ok(), "{text:?}");
    }
}

#[test]
fn parse_i32_reads_like_str_parse() {
    for text in ["0", "-0", "-7", "+7", "2147483647", "2147483648", "-2147483648", "-2147483649", "", "-", "+", "-+3", "+-3", "--1", "4x"] {
        assert_eq!(parse_i32(text), text.parse::<i32>().ok(), "{text:?}");
    }
}

#[test]
fn format_writes_like_to_string() {
    for n in [0usize, 9, 10, 1234, usize::MAX] {
        assert_eq!(format_usize(n), n.to_string());
    }
    for n in [0i32, -1, 42, i32::MIN, i32::MAX] {
        assert_eq!(format_i32(n), n.to_string());
    }
}

#[test]
fn validate_usize_label_accepts_or_resets() {
    let mut label = String::from("640");
    assert_eq!(validate_usize_label(&mut label, 800), Some(640));
    assert_eq!(label, "640");
    let mut label = String::from("six hundred");
    assert_eq!(validate_usize_label(&mut label, 800), None);
    assert_eq!(label, "800");
}

#[test]
fn image_height_label_validation() {
    let mut label = ImageHeight { label_name: String::from("Height"), label_value: String::from("+480"), height: 100 };
    label.ValidateLabelValue();
    assert_eq!(label.height, 480);
    assert_eq!(label.LabelValue(), "+480");
    label.label_value = String::from("-3");
    label.ValidateLabelValue();
    assert_eq!(label.height, 480);
    assert_eq!(label.LabelValue(), "480");
    assert_eq!(label.LabelName(), "Height");
}

#[test]
fn image_width_and_camera_speed_labels() {
    let mut width = ImageWidth { label_name: String::from("Width"), label_value: String::from(""), width: 320 };
    width.ValidateLabelValue();
    assert_eq!(width.width, 320);
    assert_eq!(width.label_value, "320");
    let mut speed = CameraSpeed { label_name: String::from("Speed"), label_value: String::from("3"), speed: 1 };
    speed.ValidateLabelValue();
    assert_eq!(speed.speed, 3);
    assert_eq!(speed.label_value, "3");
}

#[test]
fn samples_per_pixel_label_takes_negative_numbers() {
    let mut samples = SamplesPerPixel { label_name: String::from("Samples"), label_value: String::from("-5"), samples: 10 };
    samples.ValidateLabelValue();
    assert_eq!(samples.samples, -5);
    samples.label_value = String::from("ten");
    samples.ValidateLabelValue();
    assert_eq!(samples.samples, -5);
    assert_eq!(samples.label_value, "-5");
}

#[test]
fn file_drop_down_new() {
    let _menu = FileDropDown::new();
}
