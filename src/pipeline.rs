//! The recolouring pipeline: background removal followed by the global
//! adjustments that the options switch on, in a fixed order.

use vstd::prelude::*;
use crate::background::{ERASE_DISTANCE, apply_mask, erase_fn, map_alpha, masked, remove_most_present_colors};
use crate::filters::{apply_nord_filter, apply_sepia, invert, invert_fn, map_pixels, max_brightness_for, nord_fn, sepia_fn};
use crate::model::{Models, model_resolution};
use crate::options::NordOptions;
use crate::raster::{Mask, Raster, hue_rotate_rgba, overlay_rgba, overlaid, resized_nearest, solid};
use crate::stats::ImageInformation;

verus! {

/// Why the pipeline could not run.
#[derive(Clone, Copy, Debug, PartialEq, Eq, Structural)]
pub enum PipelineError {
    /// A segmentation model was chosen but no mask was given.
    MissingMask,
    /// The mask is not a square at the model's resolution.
    MaskShape,
}

/// Whether the options ask for a segmentation mask.
pub open spec fn needs_mask(o: NordOptions) -> bool {
    o.erase_most_present_color && o.model != Models::Algorithm
}

/// Whether a mask has the shape that the chosen model produces.
pub open spec fn mask_fits(m: Mask, o: NordOptions) -> bool {
    &&& m.wf()
    &&& m.width == model_resolution(o.model)
    &&& m.height == model_resolution(o.model)
}

/// Whether the dominant colour's share of the sample reaches `percent`; an
/// empty sample has share 0.
pub open spec fn dominant_share_reaches(info: ImageInformation, percent: u32) -> bool {
    let total = if info.color_map.sample_count == 0 {
        1
    } else {
        info.color_map.sample_count as int
    };
    100 * info.color_map.most_present_count >= percent * total
}

/// The image after background removal.
pub open spec fn after_erase(
    d: Seq<u8>,
    width: u32,
    height: u32,
    o: NordOptions,
    info: ImageInformation,
    mask: Seq<u8>,
    mask_width: u32,
) -> Seq<u8> {
    if !o.erase_most_present_color {
        d
    } else if o.model == Models::Algorithm {
        if dominant_share_reaches(info, o.erase_when_percentage) {
            map_alpha(d, erase_fn(info.color_map.most_present_color, ERASE_DISTANCE as int))
        } else {
            d
        }
    } else {
        masked(d, resized_nearest(mask, mask_width, 1, width, height), o.activation_function)
    }
}

/// The image after the adjustments before hue rotation: invert and sepia,
/// each only if switched on.
pub open spec fn before_hue(d: Seq<u8>, o: NordOptions) -> Seq<u8> {
    let d1 = if o.invert {
        map_pixels(d, invert_fn())
    } else {
        d
    };
    if o.sepia {
        map_pixels(d1, sepia_fn())
    } else {
        d1
    }
}

/// The image after the adjustments that follow hue rotation: palette
/// mapping and flattening onto the background colour, each only if switched
/// on.
pub open spec fn after_hue(d: Seq<u8>, width: u32, o: NordOptions) -> Seq<u8> {
    let d4 = if o.nord {
        map_pixels(d, nord_fn(max_brightness_for(o)))
    } else {
        d
    };
    match o.background_color {
        Some(c) => overlaid(solid(c.r, c.g, c.b, 255, d4.len() as int / 4), width, d4, width),
        None => d4,
    }
}

/// What is known of a hue rotation of `before`: the same size and alpha,
/// and black wherever `before` is black.
pub open spec fn hue_compatible(before: Seq<u8>, after: Seq<u8>) -> bool {
    &&& after.len() == before.len()
    &&& forall|p: int|
        0 <= p < before.len() / 4 ==> #[trigger] after[4 * p + 3] == before[4 * p + 3]
    &&& forall|p: int|
        0 <= p < before.len() / 4 && #[trigger] before[4 * p] == 0 && before[4 * p + 1] == 0
            && before[4 * p + 2] == 0 ==> after[4 * p] == 0 && after[4 * p + 1] == 0 && after[4
            * p + 2] == 0
}

/// An image that is black all over is left as it is by any hue rotation
/// compatible with it.
pub proof fn lemma_black_survives_rotation(before: Seq<u8>, after: Seq<u8>)
    requires
        before.len() % 4 == 0,
        forall|j: int| 0 <= j < before.len() && j % 4 != 3 ==> #[trigger] before[j] == 0,
        hue_compatible(before, after),
    ensures
        after == before,
{
    assert forall|j: int| 0 <= j < before.len() implies #[trigger] after[j] == before[j] by {
        let p = j / 4;
        assert(0 <= p < before.len() / 4);
        assert(4 * p <= j < 4 * p + 4);
        assert(before[4 * p] == 0 && before[4 * p + 1] == 0 && before[4 * p + 2] == 0);
        assert(after[4 * p + 3] == before[4 * p + 3]);
    }
    assert(after =~= before);
}

/// The adjustments after hue rotation: palette mapping, then flattening onto
/// the background colour, each only if switched on.
pub fn finish_adjustments(image: Raster, options: &NordOptions) -> (out: Raster)
    requires
        image.wf(),
    ensures
        out.wf(),
        out.width == image.width,
        out.height == image.height,
        out.data@ == after_hue(image.data@, image.width, *options),
{
    let mut image = image;
    if options.nord {
        apply_nord_filter(&mut image, options);
    }
    match options.background_color {
        Some(c) => {
            let canvas = Raster::filled(image.width, image.height, c.r, c.g, c.b, 255);
            assert(image.data@.len() as int / 4 == crate::raster::area(image.width, image.height));
            image = overlay_rgba(canvas, &image);
        },
        None => {},
    }
    image
}

/// The image after background removal, invert and sepia.
pub open spec fn stage_before_hue(
    image: Raster,
    o: NordOptions,
    info: ImageInformation,
    mask: Option<&Mask>,
) -> Seq<u8> {
    before_hue(
        after_erase(
            image.data@,
            image.width,
            image.height,
            o,
            info,
            mask_bytes(mask),
            mask_width(mask),
        ),
        o,
    )
}

pub open spec fn mask_bytes(mask: Option<&Mask>) -> Seq<u8> {
    match mask {
        Some(m) => m.data@,
        None => Seq::empty(),
    }
}

pub open spec fn mask_width(mask: Option<&Mask>) -> u32 {
    match mask {
        Some(m) => m.width,
        None => 0,
    }
}

/// Runs the pipeline on an image with the given options and statistics.
/// When the options choose a segmentation model, `mask` is that model's
/// output for the image (see `preprocess_image`), scaled to bytes.
pub fn apply_nord(
    image: Raster,
    options: &NordOptions,
    info: &ImageInformation,
    mask: Option<&Mask>,
) -> (r: Result<Raster, PipelineError>)
    requires
        image.wf(),
    ensures
        r == Err::<Raster, PipelineError>(PipelineError::MissingMask) <==> needs_mask(*options)
            && mask is None,
        r == Err::<Raster, PipelineError>(PipelineError::MaskShape) <==> needs_mask(*options)
            && mask is Some && !mask_fits(*mask.unwrap(), *options),
        r is Ok ==> {
            let out = r.unwrap();
            &&& out.wf()
            &&& out.width == image.width
            &&& out.height == image.height
            &&& options.hue_rotate == 0 ==> out.data@ == after_hue(
                stage_before_hue(image, *options, *info, mask),
                image.width,
                *options,
            )
            &&& options.hue_rotate != 0 ==> exists|h: Seq<u8>|
                #[trigger] hue_compatible(stage_before_hue(image, *options, *info, mask), h)
                    && out.data@ == after_hue(h, image.width, *options)
        },
{
    let ghost d0 = image.data@;
    let ghost w = image.width;
    let ghost img0 = image;
    let mut image = image;
    if options.erase_most_present_color {
        if options.model != Models::Algorithm {
            match mask {
                None => {
                    return Err(PipelineError::MissingMask);
                },
                Some(m) => {
                    let side = options.model.resolution();
                    assert(side as usize * side as usize <= 1048576) by (nonlinear_arith)
                        requires
                            side <= 1024,
                    ;
                    if m.width != side || m.height != side || m.data.len() != side as usize
                        * side as usize {
                        return Err(PipelineError::MaskShape);
                    }
                    image = apply_mask(&image, m, options);
                },
            }
        } else {
            let count = info.color_map.most_present_count as u128;
            let total = if info.color_map.sample_count == 0 {
                1
            } else {
                info.color_map.sample_count as u128
            };
            let percent = options.erase_when_percentage as u128;
            assert(percent * total <= 4294967295 * 18446744073709551615) by (nonlinear_arith)
                requires
                    percent <= 4294967295,
                    total <= 18446744073709551615,
            ;
            if 100 * count >= percent * total {
                remove_most_present_colors(&mut image, info.color_map.most_present_color);
            }
        }
    }
    let ghost e = after_erase(d0, w, image.height, *options, *info, mask_bytes(mask), mask_width(mask));
    assert(image.data@ == e);
    if options.invert {
        invert(&mut image);
    }
    if options.sepia {
        apply_sepia(&mut image);
    }
    let ghost s = image.data@;
    assert(s == before_hue(e, *options));
    assert(s == stage_before_hue(img0, *options, *info, mask));
    if options.hue_rotate != 0 {
        image = hue_rotate_rgba(&image, options.hue_rotate as i32);
        assert(hue_compatible(s, image.data@));
    }
    let ghost h = image.data@;
    let out = finish_adjustments(image, options);
    proof {
        if options.hue_rotate != 0 {
            assert(hue_compatible(stage_before_hue(img0, *options, *info, mask), h));
            assert(out.data@ == after_hue(h, w, *options));
        }
    }
    Ok(out)
}

} // verus!
