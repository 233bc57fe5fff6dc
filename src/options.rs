//! The filter configuration, its named presets, and the policy that derives
//! it from image statistics.

use vstd::prelude::*;
use crate::color::{FULL_BRIGHTNESS, RgbColor};
use crate::model::{ActivationFunction, Models, NordPreset};
use crate::stats::{ImageInformation, ImageType};

verus! {

/// The filter configuration. `hue_rotate` is in degrees and
/// `erase_when_percentage` is the dominant-colour share, in percent, at or
/// above which the local background erase runs.
#[derive(Clone, Copy, Debug)]
pub struct NordOptions {
    pub invert: bool,
    pub hue_rotate: u16,
    pub sepia: bool,
    pub nord: bool,
    pub erase_most_present_color: bool,
    pub erase_when_percentage: u32,
    pub auto_adjust: bool,
    pub start: bool,
    pub model: Models,
    pub activation_function: ActivationFunction,
    pub background_color: Option<RgbColor>,
}

/// Equality of options as far as presets are concerned: the erase
/// threshold, `auto_adjust` and `start` do not count.
pub open spec fn same_settings(a: NordOptions, b: NordOptions) -> bool {
    &&& a.invert == b.invert
    &&& a.hue_rotate == b.hue_rotate
    &&& a.sepia == b.sepia
    &&& a.nord == b.nord
    &&& a.erase_most_present_color == b.erase_most_present_color
    &&& a.model == b.model
    &&& a.activation_function == b.activation_function
    &&& a.background_color == b.background_color
}

impl PartialEq for NordOptions {
    fn eq(&self, other: &NordOptions) -> (r: bool) {
        let same_bg = match (self.background_color, other.background_color) {
            (None, None) => true,
            (Some(a), Some(b)) => a.r == b.r && a.g == b.g && a.b == b.b,
            _ => false,
        };
        self.invert == other.invert && self.hue_rotate == other.hue_rotate && self.sepia
            == other.sepia && self.nord == other.nord && self.erase_most_present_color
            == other.erase_most_present_color && self.model == other.model
            && self.activation_function == other.activation_function && same_bg
    }
}

impl vstd::std_specs::cmp::PartialEqSpecImpl for NordOptions {
    open spec fn obeys_eq_spec() -> bool {
        true
    }

    open spec fn eq_spec(&self, other: &NordOptions) -> bool {
        same_settings(*self, *other)
    }
}

pub open spec fn default_options() -> NordOptions {
    NordOptions {
        invert: true,
        hue_rotate: 180,
        sepia: true,
        nord: true,
        erase_most_present_color: false,
        erase_when_percentage: 30,
        auto_adjust: true,
        start: false,
        model: Models::Algorithm,
        activation_function: ActivationFunction::Sigmoid,
        background_color: None,
    }
}

pub open spec fn preset_options(preset: NordPreset) -> NordOptions {
    let d = default_options();
    match preset {
        NordPreset::NordWithColor => NordOptions { sepia: false, auto_adjust: false, ..d },
        NordPreset::Nord => NordOptions { auto_adjust: false, ..d },
        NordPreset::StaticBackground => NordOptions {
            invert: false,
            hue_rotate: 0,
            sepia: false,
            nord: false,
            erase_most_present_color: true,
            erase_when_percentage: 10,
            auto_adjust: false,
            start: false,
            model: Models::Algorithm,
            activation_function: ActivationFunction::Sigmoid,
            background_color: None,
        },
        NordPreset::DynamicBackground => NordOptions {
            invert: false,
            hue_rotate: 0,
            sepia: false,
            nord: false,
            erase_most_present_color: true,
            erase_when_percentage: 10,
            auto_adjust: false,
            start: false,
            model: Models::IsnetGeneral,
            activation_function: ActivationFunction::Sigmoid,
            background_color: None,
        },
    }
}

/// Flat-shaded art is told from photographs by a noticeable dominant colour
/// (over 0.5 %) together with colourful pixels (average grayscale similarity
/// over 0.06).
pub open spec fn probably_anime(info: ImageInformation) -> bool {
    200 * info.color_map.most_present_count > info.color_map.sample_count
        && info.grayscale_similarity.average > 60000
}

/// The options recommended for an image with the given statistics.
pub open spec fn options_for(info: ImageInformation) -> NordOptions {
    let d = default_options();
    match info.image_type {
        Some(ImageType::Cartoon) => NordOptions {
            invert: 2 * info.brightness.average > FULL_BRIGHTNESS,
            hue_rotate: 180,
            sepia: true,
            nord: true,
            erase_most_present_color: false,
            erase_when_percentage: 10,
            auto_adjust: false,
            start: false,
            model: Models::Algorithm,
            background_color: None,
            ..d
        },
        Some(ImageType::Picture) => NordOptions {
            invert: false,
            hue_rotate: 0,
            sepia: false,
            nord: false,
            erase_most_present_color: true,
            erase_when_percentage: 10,
            auto_adjust: false,
            start: false,
            model: if probably_anime(info) {
                Models::IsnetAnime
            } else {
                Models::IsnetGeneral
            },
            background_color: None,
            ..d
        },
        None => d,
    }
}

impl NordOptions {
    /// The default options, with processing started at once.
    pub fn new() -> (o: NordOptions)
        ensures
            o == (NordOptions { start: true, ..default_options() }),
    {
        let mut options = NordOptions::default();
        options.start = true;
        options
    }

    pub fn default() -> (o: NordOptions)
        ensures
            o == default_options(),
    {
        NordOptions {
            invert: true,
            hue_rotate: 180,
            sepia: true,
            nord: true,
            erase_most_present_color: false,
            erase_when_percentage: 30,
            auto_adjust: true,
            start: false,
            model: Models::Algorithm,
            activation_function: ActivationFunction::Sigmoid,
            background_color: None,
        }
    }

    /// The options recommended for an image: a cartoon is palette-mapped,
    /// a picture has its background removed by a segmentation model.
    pub fn from_image_information(image_information: &ImageInformation) -> (o: NordOptions)
        ensures
            o == options_for(*image_information),
    {
        let mut options = NordOptions::default();
        let info = image_information;
        match info.image_type {
            Some(ImageType::Cartoon) => {
                options.erase_most_present_color = false;
                options.invert = 2 * info.brightness.average as u64 > FULL_BRIGHTNESS as u64;
                options.hue_rotate = 180;
                options.sepia = true;
                options.nord = true;
                options.erase_when_percentage = 10;
                options.auto_adjust = false;
                options.start = false;
                options.model = Models::Algorithm;
                options.background_color = None;
            },
            Some(ImageType::Picture) => {
                let anime = 200 * (info.color_map.most_present_count as u128)
                    > info.color_map.sample_count as u128 && info.grayscale_similarity.average
                    > 60000;
                options.invert = false;
                options.hue_rotate = 0;
                options.sepia = false;
                options.nord = false;
                options.erase_most_present_color = true;
                options.erase_when_percentage = 10;
                options.auto_adjust = false;
                options.start = false;
                options.model = if anime {
                    Models::IsnetAnime
                } else {
                    Models::IsnetGeneral
                };
                options.background_color = None;
            },
            None => {},
        }
        options
    }

    pub fn from_preset(preset: NordPreset) -> (o: NordOptions)
        ensures
            o == preset_options(preset),
    {
        match preset {
            NordPreset::NordWithColor => NordOptions {
                sepia: false,
                auto_adjust: false,
                ..NordOptions::default()
            },
            NordPreset::Nord => NordOptions { auto_adjust: false, ..NordOptions::default() },
            NordPreset::StaticBackground => NordOptions {
                invert: false,
                hue_rotate: 0,
                sepia: false,
                nord: false,
                erase_most_present_color: true,
                erase_when_percentage: 10,
                auto_adjust: false,
                start: false,
                model: Models::Algorithm,
                activation_function: ActivationFunction::Sigmoid,
                background_color: None,
            },
            NordPreset::DynamicBackground => NordOptions {
                invert: false,
                hue_rotate: 0,
                sepia: false,
                nord: false,
                erase_most_present_color: true,
                erase_when_percentage: 10,
                auto_adjust: false,
                start: false,
                model: Models::IsnetGeneral,
                activation_function: ActivationFunction::Sigmoid,
                background_color: None,
            },
        }
    }

    /// Whether these options match one of the presets.
    pub fn is_any_preset(&self) -> (b: bool)
        ensures
            b == exists|p: NordPreset| same_settings(*self, #[trigger] preset_options(p)),
    {
        let presets = NordPreset::iter();
        let mut i: usize = 0;
        while i < presets.len()
            invariant
                presets@ == seq![
                    NordPreset::NordWithColor,
                    NordPreset::Nord,
                    NordPreset::StaticBackground,
                    NordPreset::DynamicBackground,
                ],
                i <= presets@.len(),
                forall|j: int| 0 <= j < i ==> !same_settings(*self, preset_options(#[trigger] presets@[j])),
            decreases presets.len() - i,
        {
            if *self == NordOptions::from_preset(presets[i]) {
                return true;
            }
            i = i + 1;
        }
        assert forall|p: NordPreset| !same_settings(*self, #[trigger] preset_options(p)) by {
            match p {
                NordPreset::NordWithColor => assert(presets@[0] == p),
                NordPreset::Nord => assert(presets@[1] == p),
                NordPreset::StaticBackground => assert(presets@[2] == p),
                NordPreset::DynamicBackground => assert(presets@[3] == p),
            }
        }
        false
    }

    /// Whether these options match the given preset.
    pub fn is_preset(&self, preset: NordPreset) -> (b: bool)
        ensures
            b == same_settings(*self, preset_options(preset)),
    {
        *self == NordOptions::from_preset(preset)
    }

    /// With `auto_adjust` set, the options recommended for the image, keeping
    /// only whether processing was started; otherwise these options.
    pub fn auto_adjusted(&self, info: &ImageInformation) -> (o: NordOptions)
        ensures
            o == if self.auto_adjust {
                NordOptions { start: self.start, ..options_for(*info) }
            } else {
                *self
            },
    {
        if self.auto_adjust {
            NordOptions { start: self.start, ..NordOptions::from_image_information(info) }
        } else {
            *self
        }
    }
}

} // verus!
