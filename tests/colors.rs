use nordify::codec::ColorError;
use nordify::color::RgbColor;
use nordify::model::{ActivationFunction, Models, NordPreset};

#[test]
fn brightness_of_white_black_and_palette() {
    assert_eq!(RgbColor::new(255, 255, 255).brightness(), 255000);
    assert_eq!(RgbColor::new(0, 0, 0).brightness(), 0);
    assert_eq!(RgbColor::new(46, 52, 64).brightness(), 51574);
}

#[test]
fn grayscale_similarity_of_gray_and_red() {
    assert_eq!(RgbColor::new(90, 90, 90).calculate_grayscale_similarity(), 0);
    assert_eq!(RgbColor::new(255, 0, 0).calculate_grayscale_similarity(), 471404);
}

#[test]
fn color_distance_rounds_down() {
    let black = RgbColor::new(0, 0, 0);
    assert_eq!(black.color_distance((3, 4, 0)), 5);
    assert_eq!(black.color_distance((1, 1, 1)), 1);
    assert_eq!(black.color_distance((255, 255, 255)), 441);
}

#[test]
fn darken_lowers_each_channel_and_clamps() {
    let c = RgbColor::new(200, 100, 30).darken_rgb(50000);
    assert_eq!(c, RgbColor::new(150, 50, 0));
}

#[test]
fn hex_parses_with_and_without_hash() {
    assert_eq!(RgbColor::from_hex("#424242"), Ok(RgbColor::new(66, 66, 66)));
    assert_eq!(RgbColor::from_hex("AbCdEf"), Ok(RgbColor::new(171, 205, 239)));
    assert_eq!(RgbColor::from_hex("##000001"), Ok(RgbColor::new(0, 0, 1)));
}

#[test]
fn hex_rejects_bad_input() {
    assert_eq!(RgbColor::from_hex("12345"), Err(ColorError::InvalidHex));
    assert_eq!(RgbColor::from_hex("#12345g"), Err(ColorError::InvalidHex));
    assert_eq!(RgbColor::from_hex("#1234567"), Err(ColorError::InvalidHex));
    assert_eq!(RgbColor::from_hex(""), Err(ColorError::InvalidHex));
}

#[test]
fn hex_formats_lower_case() {
    assert_eq!(RgbColor::new(255, 0, 16).as_hex(), "#ff0010");
    let c = RgbColor::new(18, 52, 86);
    assert_eq!(RgbColor::from_hex(&c.as_hex()), Ok(c));
}

#[test]
fn model_registry_entries() {
    let m = Models::IsnetGeneral.to_struct();
    assert_eq!(m.id, 2);
    assert_eq!((m.width, m.height), (1024, 1024));
    assert_eq!(m.path, "isnet-general-use.onnx");
    let u = Models::U2net.to_struct();
    assert_eq!((u.id, u.width, u.name.as_str()), (0, 320, "AI General 2"));
    let a = Models::Algorithm.to_struct();
    assert_eq!((a.id, a.path.as_str()), (3, "LOCAL"));
    assert_eq!(Models::IsnetAnime.resolution(), 1024);
}

#[test]
fn model_ids_fall_back_to_algorithm() {
    assert_eq!(Models::from_id(0), Models::U2net);
    assert_eq!(Models::from_id(1), Models::IsnetAnime);
    assert_eq!(Models::from_id(2), Models::IsnetGeneral);
    assert_eq!(Models::from_id(3), Models::Algorithm);
    assert_eq!(Models::from_id(17), Models::Algorithm);
}

#[test]
fn activation_ids_and_names() {
    assert_eq!(ActivationFunction::from_u8(1), Some(ActivationFunction::Sigmoid));
    assert_eq!(ActivationFunction::from_u8(4), Some(ActivationFunction::Softmax));
    assert_eq!(ActivationFunction::from_u8(5), None);
    assert_eq!(ActivationFunction::Tanh.as_str(), "Tanh");
    assert_eq!(ActivationFunction::ReLU.id(), 2);
}

#[test]
fn activation_toggle_cycles() {
    assert_eq!(ActivationFunction::Linear.next(), ActivationFunction::Sigmoid);
    assert_eq!(ActivationFunction::Sigmoid.next(), ActivationFunction::Linear);
}

#[test]
fn sigmoid_cutoffs_and_values() {
    let s = ActivationFunction::Sigmoid;
    for x in 0..=4u8 {
        assert_eq!(s.apply(x), 0);
    }
    for x in 251..=255u8 {
        assert_eq!(s.apply(x), 255);
    }
    assert_eq!(s.apply(5), 2);
    assert_eq!(s.apply(100), 64);
    assert_eq!(s.apply(128), 128);
    assert_eq!(s.apply(200), 240);
    assert_eq!(s.apply(250), 252);
}

#[test]
fn sigmoid_never_decreases() {
    let s = ActivationFunction::Sigmoid;
    for x in 0..255u8 {
        assert!(s.apply(x) <= s.apply(x + 1));
    }
}

#[test]
fn linear_activation_passes_through() {
    for x in [0u8, 3, 128, 251, 255] {
        assert_eq!(ActivationFunction::Linear.apply(x), x);
        assert_eq!(ActivationFunction::Tanh.apply(x), x);
    }
}

#[test]
fn presets_in_order() {
    assert_eq!(
        NordPreset::iter(),
        vec![
            NordPreset::NordWithColor,
            NordPreset::Nord,
            NordPreset::StaticBackground,
            NordPreset::DynamicBackground
        ]
    );
}
