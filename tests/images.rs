use nordify::background::{apply_mask, preprocess_image, remove_most_present_colors};
use nordify::color::RgbColor;
use nordify::filters::{apply_nord_filter, apply_sepia, invert};
use nordify::model::{ActivationFunction, Models};
use nordify::options::NordOptions;
use nordify::pipeline::{PipelineError, apply_nord, finish_adjustments};
use nordify::raster::{Mask, Raster, find_first_dyed_y_position};
use nordify::stats::{ImageInformation, ImageType, calculate_average_brightness};
use nordify::tickbox::TickBox;

fn image_of(width: u32, height: u32, pixels: &[[u8; 4]]) -> Raster {
    let mut data = Vec::new();
    for p in pixels {
        data.extend_from_slice(p);
    }
    assert_eq!(data.len(), 4 * (width * height) as usize);
    Raster { width, height, data }
}

fn pixel(r: &Raster, i: usize) -> [u8; 4] {
    [r.data[4 * i], r.data[4 * i + 1], r.data[4 * i + 2], r.data[4 * i + 3]]
}

/// A 50-pixel-wide image whose sampled pixels (column 0) take the given
/// colours, one per row.
fn sampled_image(colors: &[[u8; 3]]) -> Raster {
    let mut data = Vec::with_capacity(colors.len() * 200);
    for c in colors {
        for _ in 0..50 {
            data.extend_from_slice(&[c[0], c[1], c[2], 255]);
        }
    }
    Raster { width: 50, height: colors.len() as u32, data }
}

#[test]
fn statistics_of_solid_white() {
    let img = Raster::filled(100, 100, 255, 255, 255, 255);
    let info = calculate_average_brightness(&img);
    assert_eq!(info.color_map.sample_count, 200);
    assert_eq!(info.color_map.most_present_count, 200);
    assert_eq!(info.color_map.amount, 1);
    assert_eq!(info.color_map.most_present_color, RgbColor::new(255, 255, 255));
    assert_eq!(info.brightness.average, 255000);
    assert_eq!(info.brightness.min, 255000);
    assert_eq!(info.grayscale_similarity.max, 0);
    assert_eq!(info.image_type, Some(ImageType::Cartoon));
}

#[test]
fn statistics_skip_transparent_pixels() {
    let mut pixels = vec![[0u8, 0, 0, 255]; 100];
    pixels[0] = [10, 20, 30, 128];
    pixels[50] = [200, 100, 0, 129];
    let info = calculate_average_brightness(&image_of(100, 1, &pixels));
    assert_eq!(info.color_map.sample_count, 1);
    assert_eq!(info.color_map.most_present_color, RgbColor::new(200, 100, 0));
    assert_eq!(info.brightness.average, 299 * 200 + 587 * 100);
}

#[test]
fn statistics_of_empty_sample_are_zero() {
    let img = Raster::filled(10, 10, 255, 255, 255, 0);
    let info = calculate_average_brightness(&img);
    assert_eq!(info.brightness.average, 0);
    assert_eq!(info.brightness.max, 0);
    assert_eq!(info.grayscale_similarity.average, 0);
    assert_eq!(info.color_map.sample_count, 0);
    assert_eq!(info.color_map.amount, 0);
    assert_eq!(info.image_type, Some(ImageType::Picture));
    let empty = ImageInformation::new();
    assert_eq!(empty.image_type, None);
}

#[test]
fn dominant_colour_is_first_of_the_most_frequent() {
    let info = calculate_average_brightness(&sampled_image(&[[1, 1, 1], [2, 2, 2], [2, 2, 2], [1, 1, 1], [3, 3, 3]]));
    assert_eq!(info.color_map.most_present_color, RgbColor::new(1, 1, 1));
    assert_eq!(info.color_map.most_present_count, 2);
    assert_eq!(info.color_map.amount, 3);
    assert_eq!(info.brightness.min, 1000);
    assert_eq!(info.brightness.max, 3000);
    assert_eq!(info.brightness.average, 1800);
}

fn boundary_colors(distinct: usize, dominant: usize, total: usize) -> Vec<[u8; 3]> {
    let mut colors = vec![[0u8, 0, 0]; dominant];
    let mut k = 1usize;
    while colors.len() < total {
        let c = [(k % 256) as u8, (k / 256) as u8, 7];
        colors.push(c);
        k = if k + 1 >= distinct { 1 } else { k + 1 };
    }
    colors
}

#[test]
fn classification_boundary_is_strict() {
    let colors = boundary_colors(2000, 2000, 20000);
    let info = calculate_average_brightness(&sampled_image(&colors));
    assert_eq!(info.color_map.amount, 2000);
    assert_eq!(info.color_map.most_present_count, 2000);
    assert_eq!(info.color_map.sample_count, 20000);
    assert_eq!(info.image_type, Some(ImageType::Picture));
}

#[test]
fn classification_just_inside_is_cartoon() {
    let colors = boundary_colors(1999, 2001, 20000);
    let info = calculate_average_brightness(&sampled_image(&colors));
    assert_eq!(info.color_map.amount, 1999);
    assert_eq!(info.image_type, Some(ImageType::Cartoon));
}

#[test]
fn invert_keeps_alpha() {
    let mut img = image_of(2, 1, &[[0, 10, 255, 7], [100, 200, 50, 255]]);
    invert(&mut img);
    assert_eq!(pixel(&img, 0), [255, 245, 0, 7]);
    assert_eq!(pixel(&img, 1), [155, 55, 205, 255]);
}

#[test]
fn sepia_mix_and_clamp() {
    let mut img = image_of(2, 1, &[[100, 150, 200, 9], [255, 255, 255, 255]]);
    apply_sepia(&mut img);
    assert_eq!(pixel(&img, 0), [192, 171, 133, 9]);
    assert_eq!(pixel(&img, 1), [255, 255, 238, 255]);
}

#[test]
fn palette_mapping_values() {
    let mut o = NordOptions::default();
    let mut img = image_of(3, 1, &[[0, 0, 0, 255], [255, 255, 255, 40], [200, 50, 50, 255]]);
    apply_nord_filter(&mut img, &o);
    assert_eq!(pixel(&img, 0), [29, 33, 40, 255]);
    assert_eq!(pixel(&img, 1), [178, 181, 186, 40]);
    assert_eq!(pixel(&img, 2), [124, 106, 136, 255]);
    o.erase_most_present_color = true;
    let mut img = image_of(2, 1, &[[255, 255, 255, 255], [10, 200, 120, 255]]);
    apply_nord_filter(&mut img, &o);
    assert_eq!(pixel(&img, 0), [207, 209, 215, 255]);
    assert_eq!(pixel(&img, 1), [74, 145, 159, 255]);
}

#[test]
fn palette_mapping_is_deterministic() {
    let o = NordOptions::default();
    let src = image_of(2, 2, &[[12, 34, 56, 255], [200, 10, 90, 255], [12, 34, 56, 255], [99, 99, 99, 0]]);
    let mut a = src.clone();
    let mut b = src.clone();
    apply_nord_filter(&mut a, &o);
    apply_nord_filter(&mut b, &o);
    assert_eq!(a.data, b.data);
    assert_eq!(pixel(&a, 0), pixel(&a, 2));
}

#[test]
fn distance_erase_ramps_alpha() {
    let dominant = RgbColor::new(100, 100, 100);
    let mut img = image_of(4, 1, &[[100, 100, 100, 255], [120, 100, 100, 255], [110, 100, 100, 255], [140, 100, 100, 200]]);
    remove_most_present_colors(&mut img, dominant);
    assert_eq!(pixel(&img, 0), [100, 100, 100, 0]);
    assert_eq!(pixel(&img, 1), [120, 100, 100, 127]);
    assert_eq!(pixel(&img, 2), [110, 100, 100, 39]);
    assert_eq!(pixel(&img, 3), [140, 100, 100, 200]);
}

#[test]
fn distance_erase_uses_the_true_distance() {
    let mut img = image_of(2, 1, &[[20, 20, 0, 255], [0, 0, 39, 255]]);
    remove_most_present_colors(&mut img, RgbColor::new(0, 0, 0));
    assert_eq!(pixel(&img, 0), [20, 20, 0, 202]);
    assert_eq!(pixel(&img, 1), [0, 0, 39, 254]);
}

#[test]
fn distance_erase_never_fades_farther_pixels_less() {
    let dominant = RgbColor::new(0, 0, 0);
    let pixels: Vec<[u8; 4]> = (0..60).map(|d| [d as u8, 0, 0, 255]).collect();
    let mut img = image_of(60, 1, &pixels);
    remove_most_present_colors(&mut img, dominant);
    for d in 0..39 {
        assert!(pixel(&img, d)[3] <= pixel(&img, d + 1)[3]);
    }
    for d in 40..60 {
        assert_eq!(pixel(&img, d)[3], 255);
    }
}

#[test]
fn mask_keeps_lower_alpha_and_activates() {
    let img = image_of(2, 2, &[[1, 2, 3, 255], [4, 5, 6, 10], [7, 8, 9, 255], [1, 1, 1, 255]]);
    let mask = Mask { width: 2, height: 2, data: vec![200, 100, 2, 255] };
    let mut o = NordOptions::default();
    o.activation_function = ActivationFunction::Linear;
    let out = apply_mask(&img, &mask, &o);
    assert_eq!(pixel(&out, 0), [1, 2, 3, 200]);
    assert_eq!(pixel(&out, 1), [4, 5, 6, 10]);
    assert_eq!(pixel(&out, 2), [7, 8, 9, 2]);
    o.activation_function = ActivationFunction::Sigmoid;
    let out = apply_mask(&img, &mask, &o);
    assert_eq!(pixel(&out, 0), [1, 2, 3, 240]);
    assert_eq!(pixel(&out, 2), [7, 8, 9, 0]);
    assert_eq!(pixel(&out, 3), [1, 1, 1, 255]);
}

#[test]
fn mask_is_resized_to_the_image() {
    let img = Raster::filled(4, 4, 9, 9, 9, 255);
    let mask = Mask { width: 1, height: 1, data: vec![77] };
    let mut o = NordOptions::default();
    o.activation_function = ActivationFunction::Linear;
    let out = apply_mask(&img, &mask, &o);
    assert_eq!((out.width, out.height), (4, 4));
    for i in 0..16 {
        assert_eq!(pixel(&out, i), [9, 9, 9, 77]);
    }
}

#[test]
fn preprocessing_is_channel_first_at_model_size() {
    let img = image_of(1, 1, &[[10, 20, 30, 255]]);
    let mut o = NordOptions::default();
    o.model = Models::U2net;
    let input = preprocess_image(&img, &o);
    let n = 320 * 320;
    assert_eq!(input.len(), 3 * n);
    assert!(input[..n].iter().all(|&v| v == 10));
    assert!(input[n..2 * n].iter().all(|&v| v == 20));
    assert!(input[2 * n..].iter().all(|&v| v == 30));
}

#[test]
fn solid_white_end_to_end() {
    let img = Raster::filled(100, 100, 255, 255, 255, 255);
    let info = calculate_average_brightness(&img);
    assert_eq!(info.image_type, Some(ImageType::Cartoon));
    let o = NordOptions::from_image_information(&info);
    assert!(o.invert);
    assert!(!o.erase_most_present_color);
    let first = apply_nord(img.clone(), &o, &info, None).unwrap();
    let second = apply_nord(img, &o, &info, None).unwrap();
    assert_eq!(first.data, second.data);
    assert_eq!((first.width, first.height), (100, 100));
    for i in 0..10000 {
        assert_eq!(pixel(&first, i), [29, 33, 40, 255]);
    }
}

fn photo_like() -> Raster {
    let mut colors = Vec::new();
    for _ in 0..200 {
        colors.push([10u8, 10, 10]);
    }
    let mut k = 0usize;
    while colors.len() < 10000 {
        let v = (k % 200) as u8 + 20;
        let t = (k / 200) as u8 % 28;
        colors.push([v, v, v + t]);
        k += 1;
    }
    sampled_image(&colors)
}

#[test]
fn photo_end_to_end_needs_general_mask() {
    let img = photo_like();
    let info = calculate_average_brightness(&img);
    assert!(info.color_map.amount >= 5000);
    assert_eq!(info.color_map.most_present_count * 50, info.color_map.sample_count);
    assert_eq!(info.image_type, Some(ImageType::Picture));
    let o = NordOptions::from_image_information(&info);
    assert!(o.erase_most_present_color);
    assert_eq!(o.model, Models::IsnetGeneral);
    let input = preprocess_image(&img, &o);
    assert_eq!(input.len(), 3 * 1024 * 1024);
    assert_eq!(apply_nord(img.clone(), &o, &info, None).err(), Some(PipelineError::MissingMask));
    let small = Mask { width: 320, height: 320, data: vec![255; 320 * 320] };
    assert_eq!(apply_nord(img.clone(), &o, &info, Some(&small)).err(), Some(PipelineError::MaskShape));
    let short = Mask { width: 1024, height: 1024, data: vec![255; 10] };
    assert_eq!(apply_nord(img.clone(), &o, &info, Some(&short)).err(), Some(PipelineError::MaskShape));
    let full = Mask { width: 1024, height: 1024, data: vec![0; 1024 * 1024] };
    let out = apply_nord(img.clone(), &o, &info, Some(&full)).unwrap();
    assert_eq!((out.width, out.height), (img.width, img.height));
    assert!((0..out.data.len() / 4).all(|i| out.data[4 * i + 3] == 0));
}

#[test]
fn local_erase_respects_threshold() {
    let mut pixels = vec![[255u8, 255, 255, 255]; 100];
    pixels[50] = [0, 0, 0, 255];
    let img = image_of(100, 1, &pixels);
    let info = calculate_average_brightness(&img);
    assert_eq!(info.color_map.sample_count, 2);
    let mut o = NordOptions::from_preset(nordify::model::NordPreset::StaticBackground);
    o.erase_when_percentage = 50;
    let out = apply_nord(img.clone(), &o, &info, None).unwrap();
    assert_eq!(pixel(&out, 0), [255, 255, 255, 0]);
    assert_eq!(pixel(&out, 50), [0, 0, 0, 255]);
    o.erase_when_percentage = 51;
    let out = apply_nord(img.clone(), &o, &info, None).unwrap();
    assert_eq!(out.data, img.data);
}

#[test]
fn background_colour_shows_through_transparency() {
    let img = image_of(2, 1, &[[9, 9, 9, 0], [1, 2, 3, 255]]);
    let info = calculate_average_brightness(&img);
    let mut o = NordOptions::from_preset(nordify::model::NordPreset::StaticBackground);
    o.erase_most_present_color = false;
    o.background_color = Some(RgbColor::new(66, 66, 66));
    let out = apply_nord(img, &o, &info, None).unwrap();
    assert_eq!(pixel(&out, 0), [66, 66, 66, 255]);
    assert_eq!(pixel(&out, 1), [1, 2, 3, 255]);
}

#[test]
fn hue_rotation_changes_colour() {
    let img = image_of(1, 1, &[[255, 0, 0, 200]]);
    let info = calculate_average_brightness(&img);
    let mut o = NordOptions::from_preset(nordify::model::NordPreset::StaticBackground);
    o.erase_most_present_color = false;
    o.hue_rotate = 180;
    let out = apply_nord(img, &o, &info, None).unwrap();
    assert_ne!(pixel(&out, 0)[..3], [255, 0, 0]);
    assert_eq!(pixel(&out, 0)[3], 200);
}

#[test]
fn untouched_image_is_returned_as_is() {
    let img = image_of(2, 1, &[[5, 6, 7, 8], [9, 10, 11, 12]]);
    let info = calculate_average_brightness(&img);
    let mut o = NordOptions::from_preset(nordify::model::NordPreset::StaticBackground);
    o.erase_most_present_color = false;
    let out = apply_nord(img.clone(), &o, &info, None).unwrap();
    assert_eq!(out.data, img.data);
}

#[test]
fn first_dyed_row_from_bottom() {
    let mut pixels = vec![[0u8, 0, 0, 0]; 6];
    pixels[1 * 2 + 1] = [0, 0, 0, 201];
    pixels[0 * 2 + 1] = [0, 0, 0, 255];
    pixels[2 * 2 + 1] = [0, 0, 0, 200];
    let img = image_of(2, 3, &pixels);
    assert_eq!(find_first_dyed_y_position(&img, 1), Some(1));
    assert_eq!(find_first_dyed_y_position(&img, 0), None);
}

#[test]
fn tickbox_progress() {
    let mut t = TickBox::new(vec!["Building".to_string(), "Downloading".to_string(), "Processing".to_string()]);
    assert_eq!(t.to_string(), "- [ ] Building\n- [ ] Downloading\n- [ ] Processing\n");
    t.toggle("Building", 1);
    assert_eq!(t.checked, vec![1, 0, 0]);
    t.next();
    assert_eq!(t.to_string(), "- [x] Building\n- -> Downloading\n- [ ] Processing\n");
    t.next();
    t.next();
    assert_eq!(t.checked, vec![2, 2, 2]);
    t.next();
    assert_eq!(t.checked, vec![2, 2, 2]);
}

#[test]
fn tickbox_accepts_any_state_until_rendered() {
    let mut t = TickBox::new(vec!["a".to_string(), "b".to_string()]);
    t.toggle("b", 7);
    assert_eq!(t.checked, vec![0, 7]);
    t.checked = vec![1, 2];
    t.next();
    assert_eq!(t.checked, vec![2, 1]);
}

#[test]
fn finishing_maps_to_palette_then_flattens() {
    let img = image_of(2, 1, &[[0, 0, 0, 255], [9, 9, 9, 0]]);
    let mut o = NordOptions::default();
    let out = finish_adjustments(img.clone(), &o);
    assert_eq!(pixel(&out, 0), [29, 33, 40, 255]);
    assert_eq!(pixel(&out, 1)[3], 0);
    o.nord = false;
    o.background_color = Some(RgbColor::new(66, 66, 66));
    let out = finish_adjustments(img, &o);
    assert_eq!(pixel(&out, 0), [0, 0, 0, 255]);
    assert_eq!(pixel(&out, 1), [66, 66, 66, 255]);
}
