use nordify::codec::{TokenError, decode_custom_id};
use nordify::components::{ButtonIcon, ButtonStyle};
use nordify::color::RgbColor;
use nordify::model::{ActivationFunction, Models, NordPreset};
use nordify::options::NordOptions;
use nordify::stats::{Brightness, ColorMap, GrayScaleSimilarity, ImageInformation, ImageType};

fn info(kind: ImageType, brightness: u32, gray: u32, count: u64, samples: u64) -> ImageInformation {
    ImageInformation {
        brightness: Brightness { average: brightness, min: 0, max: 255000 },
        grayscale_similarity: GrayScaleSimilarity { average: gray, min: 0, max: gray },
        color_map: ColorMap {
            most_present_color: RgbColor::new(255, 255, 255),
            most_present_count: count,
            sample_count: samples,
            amount: 10,
        },
        image_type: Some(kind),
    }
}

#[test]
fn default_and_new_options() {
    let d = NordOptions::default();
    assert!(d.invert && d.sepia && d.nord && d.auto_adjust && !d.start);
    assert_eq!(d.hue_rotate, 180);
    assert_eq!(d.erase_when_percentage, 30);
    assert_eq!(d.model, Models::Algorithm);
    assert_eq!(d.activation_function, ActivationFunction::Sigmoid);
    assert!(NordOptions::new().start);
}

#[test]
fn preset_equality_ignores_threshold_and_flags() {
    let mut o = NordOptions::from_preset(NordPreset::Nord);
    assert!(o.is_preset(NordPreset::Nord));
    o.erase_when_percentage = 77;
    o.auto_adjust = true;
    o.start = true;
    assert!(o.is_preset(NordPreset::Nord));
    assert!(o.is_any_preset());
    o.sepia = false;
    assert!(!o.is_preset(NordPreset::Nord));
    assert!(o.is_preset(NordPreset::NordWithColor));
    o.model = Models::IsnetAnime;
    assert!(!o.is_any_preset());
}

#[test]
fn presets_for_background_removal() {
    let s = NordOptions::from_preset(NordPreset::StaticBackground);
    assert!(s.erase_most_present_color && !s.nord && !s.invert);
    assert_eq!(s.model, Models::Algorithm);
    assert_eq!(s.erase_when_percentage, 10);
    let d = NordOptions::from_preset(NordPreset::DynamicBackground);
    assert_eq!(d.model, Models::IsnetGeneral);
    assert!(d == NordOptions::from_preset(NordPreset::DynamicBackground));
    assert!(!(d == s));
}

#[test]
fn cartoon_options_follow_brightness() {
    let bright = NordOptions::from_image_information(&info(ImageType::Cartoon, 200000, 0, 50, 100));
    assert!(bright.invert && bright.sepia && bright.nord);
    assert_eq!(bright.hue_rotate, 180);
    assert!(!bright.erase_most_present_color);
    assert_eq!(bright.model, Models::Algorithm);
    let dark = NordOptions::from_image_information(&info(ImageType::Cartoon, 127500, 0, 50, 100));
    assert!(!dark.invert);
}

#[test]
fn picture_options_choose_model() {
    let anime = NordOptions::from_image_information(&info(ImageType::Picture, 100000, 60001, 1, 100));
    assert!(anime.erase_most_present_color && !anime.nord && !anime.sepia && !anime.invert);
    assert_eq!(anime.hue_rotate, 0);
    assert_eq!(anime.model, Models::IsnetAnime);
    let gray = NordOptions::from_image_information(&info(ImageType::Picture, 100000, 60000, 1, 100));
    assert_eq!(gray.model, Models::IsnetGeneral);
    let flat = NordOptions::from_image_information(&info(ImageType::Picture, 100000, 90000, 1, 200));
    assert_eq!(flat.model, Models::IsnetGeneral);
}

#[test]
fn unclassified_information_gives_defaults() {
    let mut i = info(ImageType::Cartoon, 0, 0, 0, 0);
    i.image_type = None;
    let o = NordOptions::from_image_information(&i);
    assert!(o == NordOptions::default());
    assert!(o.auto_adjust);
}

#[test]
fn token_of_default_options() {
    let t = NordOptions::default().make_nord_custom_id(&42, false, None);
    assert_eq!(t, "darken-false-true-180-true-true-false-0.30-true-false-3-1-0-None-42");
}

#[test]
fn token_with_colour_and_slot() {
    let mut o = NordOptions::from_preset(NordPreset::DynamicBackground);
    o.background_color = Some(RgbColor::new(66, 66, 66));
    o.erase_when_percentage = 105;
    let t = o.make_nord_custom_id(&7, true, Some(12));
    assert_eq!(t, "darken-true-false-0-false-false-true-1.05-false-false-2-1-12-#424242-7");
}

#[test]
fn token_round_trip_keeps_every_field() {
    let mut o = NordOptions::new();
    o.hue_rotate = 65535;
    o.erase_when_percentage = 7;
    o.model = Models::U2net;
    o.activation_function = ActivationFunction::Tanh;
    o.background_color = Some(RgbColor::new(1, 2, 255));
    let t = o.make_nord_custom_id(&u64::MAX, true, Some(99));
    let d = decode_custom_id(&t).unwrap();
    let p = d.options;
    assert_eq!(p.invert, o.invert);
    assert_eq!(p.hue_rotate, 65535);
    assert_eq!(p.sepia, o.sepia);
    assert_eq!(p.nord, o.nord);
    assert_eq!(p.erase_most_present_color, o.erase_most_present_color);
    assert_eq!(p.erase_when_percentage, 7);
    assert_eq!(p.auto_adjust, o.auto_adjust);
    assert_eq!(p.start, true);
    assert_eq!(p.model, Models::U2net);
    assert_eq!(p.activation_function, ActivationFunction::Tanh);
    assert_eq!(p.background_color, Some(RgbColor::new(1, 2, 255)));
    assert!(d.update);
    assert_eq!(d.slot, 99);
    assert_eq!(d.message_id, u64::MAX);
    assert!(!d.asks_for_color);
}

#[test]
fn token_color_prompt_is_flagged() {
    let mut o = NordOptions::default();
    o.background_color = Some(RgbColor::new(0, 0, 1));
    let t = o.make_nord_custom_id(&5, false, None);
    let d = decode_custom_id(&t).unwrap();
    assert!(d.asks_for_color);
    assert_eq!(d.options.background_color, Some(RgbColor::new(0, 0, 1)));
    assert_eq!(NordOptions::from_custom_id(&t).unwrap().background_color, None);
    let mut other = NordOptions::default();
    other.background_color = Some(RgbColor::new(0, 0, 2));
    let t = other.make_nord_custom_id(&5, false, None);
    assert_eq!(NordOptions::from_custom_id(&t).unwrap().background_color, Some(RgbColor::new(0, 0, 2)));
}

#[test]
fn from_custom_id_reads_options() {
    let o = NordOptions::from_custom_id("darken-true-false-90-true-false-true-0.10-false-true-2-0-3-#0a0B0c-123").unwrap();
    assert!(!o.invert && o.sepia && !o.nord && o.erase_most_present_color && o.start);
    assert_eq!(o.hue_rotate, 90);
    assert_eq!(o.erase_when_percentage, 10);
    assert_eq!(o.model, Models::IsnetGeneral);
    assert_eq!(o.activation_function, ActivationFunction::Linear);
    assert_eq!(o.background_color, Some(RgbColor::new(10, 11, 12)));
}

#[test]
fn unknown_ids_fall_back() {
    let o = NordOptions::from_custom_id("darken-true-false-0-true-false-true-0.10-false-true-9-200-0-None-1").unwrap();
    assert_eq!(o.model, Models::Algorithm);
    assert_eq!(o.activation_function, ActivationFunction::Sigmoid);
}

#[test]
fn malformed_tokens_are_rejected() {
    let bad = [
        "",
        "darken-true",
        "darken-true-false-0-true-false-true-0.10-false-true-2-0-3-None",
        "darken-true-false-0-true-false-true-0.10-false-true-2-0-3-None-1-2",
        "lighten-true-false-0-true-false-true-0.10-false-true-2-0-3-None-1",
        "darken-yes-false-0-true-false-true-0.10-false-true-2-0-3-None-1",
        "darken-true-false-x-true-false-true-0.10-false-true-2-0-3-None-1",
        "darken-true-false-70000-true-false-true-0.10-false-true-2-0-3-None-1",
        "darken-true-false-0-true-false-true-0.1-false-true-2-0-3-None-1",
        "darken-true-false-0-true-false-true-.10-false-true-2-0-3-None-1",
        "darken-true-false-0-true-false-true-0.10-false-true-2-256-3-None-1",
        "darken-true-false-0-true-false-true-0.10-false-true-2-0-3-none-1",
        "darken-true-false-0-true-false-true-0.10-false-true-2-0-3-#12345-1",
        "darken-true-false-0-true-false-true-0.10-false-true-2-0-3-None-18446744073709551616",
        "darken-true-false--90-true-false-true-0.10-false-true-2-0-3-None-1",
    ];
    for t in bad {
        assert_eq!(decode_custom_id(t).err(), Some(TokenError::MalformedToken), "{}", t);
        assert!(NordOptions::from_custom_id(t).is_err());
    }
}

#[test]
fn auto_adjust_replaces_options_but_keeps_start() {
    let mut o = NordOptions::new();
    o.sepia = false;
    let i = info(ImageType::Picture, 100000, 0, 1, 100);
    let a = o.auto_adjusted(&i);
    assert!(a.start);
    assert!(a.erase_most_present_color);
    assert_eq!(a.model, Models::IsnetGeneral);
    o.auto_adjust = false;
    let b = o.auto_adjusted(&i);
    assert!(!b.sepia && !b.erase_most_present_color);
}

#[test]
fn colour_description_lists_channels() {
    assert_eq!(RgbColor::new(66, 6, 255).describe(), "#4206ff (r: 66; g: 6; b 255)");
}

#[test]
fn option_buttons_encode_one_change_each() {
    let o = NordOptions::default();
    let rows = o.build_componets(42, true);
    assert_eq!(rows.len(), 5);
    assert_eq!(rows.iter().map(|r| r.len()).collect::<Vec<_>>(), vec![4, 5, 2, 5, 4]);
    let invert = &rows[0][0];
    assert_eq!(invert.label, "Invert");
    assert_eq!(invert.style, ButtonStyle::Primary);
    let target = NordOptions::from_custom_id(&invert.custom_id).unwrap();
    assert!(!target.invert && target.sepia && !target.start);
    assert_eq!(decode_custom_id(&invert.custom_id).unwrap().slot, 0);
    assert!(rows[1][1].disabled);
    assert_eq!(rows[1][4].label, "Mask Function: Sigmoid");
    let mask = NordOptions::from_custom_id(&rows[1][4].custom_id).unwrap();
    assert_eq!(mask.activation_function, ActivationFunction::Linear);
    assert_eq!(decode_custom_id(&rows[1][4].custom_id).unwrap().slot, 14);
    assert_eq!(rows[2][1].label, "None");
    assert!(rows[2][1].disabled);
    let set_bg = NordOptions::from_custom_id(&rows[2][0].custom_id).unwrap();
    assert_eq!(set_bg.background_color, Some(RgbColor::new(66, 66, 66)));
    assert!(rows[3][0].disabled);
    assert_eq!(rows[4][0].label, "Start");
    assert_eq!(rows[4][0].icon, ButtonIcon::Play);
    assert!(NordOptions::from_custom_id(&rows[4][0].custom_id).unwrap().start);
    assert_eq!(rows[4][1].custom_id, "delete-42");
    assert_eq!(rows[4][2].custom_id, "stop-42");
    assert_eq!(rows[4][3].custom_id, "clear-42");
    let mut started = NordOptions::from_preset(NordPreset::Nord);
    started.start = true;
    let rows = started.build_componets(1, false);
    assert_eq!(rows[4].len(), 3);
    assert_eq!(rows[3][2].style, ButtonStyle::Primary);
    assert_eq!(rows[3][0].style, ButtonStyle::Primary);
    started.background_color = Some(RgbColor::new(0, 0, 1));
    let rows = started.build_componets(1, false);
    assert_eq!(rows[3][2].style, ButtonStyle::Secondary);
    assert_eq!(rows[2][1].label, "#000001 (r: 0; g: 0; b 1)");
    assert!(decode_custom_id(&rows[2][1].custom_id).unwrap().asks_for_color);
}
