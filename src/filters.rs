//! Whole-image colour filters: inversion, sepia and the palette mapping.

use vstd::prelude::*;
use std::collections::HashMap;
use crate::color::{FULL_BRIGHTNESS, RgbColor, brightness_of, darkened, gray_similarity_of};
use crate::options::NordOptions;
use crate::raster::Raster;
use crate::stats::{color_at, color_key};

verus! {

broadcast use vstd::std_specs::hash::group_hash_axioms;

/// RGBA bytes with the colour of every pixel replaced by `f` of it; alpha is
/// kept.
pub open spec fn map_pixels(d: Seq<u8>, f: spec_fn(RgbColor) -> RgbColor) -> Seq<u8> {
    Seq::new(
        d.len(),
        |j: int|
            {
                let c = f(color_at(d, j / 4));
                if j % 4 == 0 {
                    c.r
                } else if j % 4 == 1 {
                    c.g
                } else if j % 4 == 2 {
                    c.b
                } else {
                    d[j]
                }
            },
    )
}

pub open spec fn inverted_color(c: RgbColor) -> RgbColor {
    RgbColor { r: (255 - c.r) as u8, g: (255 - c.g) as u8, b: (255 - c.b) as u8 }
}

pub open spec fn invert_fn() -> spec_fn(RgbColor) -> RgbColor {
    |c: RgbColor| inverted_color(c)
}

/// One channel of the sepia mix: weights in thousandths, clamped at 255.
pub open spec fn sepia_channel(c: RgbColor, wr: int, wg: int, wb: int) -> u8 {
    let v = (wr * c.r + wg * c.g + wb * c.b) / 1000;
    if v > 255 {
        255
    } else {
        v as u8
    }
}

pub open spec fn sepia_color(c: RgbColor) -> RgbColor {
    RgbColor {
        r: sepia_channel(c, 393, 769, 189),
        g: sepia_channel(c, 349, 686, 168),
        b: sepia_channel(c, 272, 534, 131),
    }
}

pub open spec fn sepia_fn() -> spec_fn(RgbColor) -> RgbColor {
    |c: RgbColor| sepia_color(c)
}

/// The low-brightness palette that nearly gray pixels are mapped into.
pub open spec fn contrast_palette() -> Seq<RgbColor> {
    seq![
        RgbColor { r: 46, g: 52, b: 64 },
        RgbColor { r: 59, g: 66, b: 82 },
        RgbColor { r: 67, g: 76, b: 94 },
        RgbColor { r: 76, g: 86, b: 106 },
    ]
}

/// The mid-brightness palette that colourful pixels are mapped into.
pub open spec fn accent_palette() -> Seq<RgbColor> {
    seq![
        RgbColor { r: 143, g: 188, b: 187 },
        RgbColor { r: 136, g: 192, b: 208 },
        RgbColor { r: 129, g: 161, b: 193 },
        RgbColor { r: 94, g: 129, b: 172 },
    ]
}

/// Below this grayscale similarity a pixel counts as gray.
pub const GRAY_LIMIT: u32 = 250000;

/// Without background erase, brighter pixels are first darkened to this
/// brightness (0.85 of full white).
pub const MAX_BRIGHTNESS: u32 = 216750;

pub open spec fn abs_diff(a: int, b: int) -> int {
    if a >= b {
        a - b
    } else {
        b - a
    }
}

/// The index, among the first `k` entries of `pal`, of the first entry whose
/// brightness is closest to `b`.
pub open spec fn nearest_index(pal: Seq<RgbColor>, b: int, k: int) -> int
    decreases k,
{
    if k <= 1 {
        0
    } else {
        let i = nearest_index(pal, b, k - 1);
        if abs_diff(brightness_of(pal[k - 1]), b) < abs_diff(brightness_of(pal[i]), b) {
            k - 1
        } else {
            i
        }
    }
}

/// The denominator of the blend strength.
pub const STRENGTH_SCALE: u64 = 1275000;

/// `a` blended toward `p` with strength `num / STRENGTH_SCALE`, rounded down.
pub open spec fn blend_channel(a: u8, p: u8, num: int) -> u8 {
    ((a * (STRENGTH_SCALE - num) + p * num) / STRENGTH_SCALE as int) as u8
}

/// The palette-mapped colour of `c`, when no pixel may be brighter than
/// `max_b`: darken to `max_b`, pick the palette entry of nearest brightness
/// (the gray palette for nearly gray pixels), and blend toward it with
/// strength `0.8 (1 - |brightness difference|)`.
pub open spec fn nord_of(c: RgbColor, max_b: int) -> RgbColor {
    let br = brightness_of(c);
    let adj = if br > max_b {
        darkened(c, br - max_b)
    } else {
        c
    };
    let pal = if gray_similarity_of(c) < GRAY_LIMIT {
        contrast_palette()
    } else {
        accent_palette()
    };
    let target = pal[nearest_index(pal, brightness_of(adj), 4)];
    let num = 4 * (FULL_BRIGHTNESS - abs_diff(br, brightness_of(target)));
    RgbColor {
        r: blend_channel(adj.r, target.r, num),
        g: blend_channel(adj.g, target.g, num),
        b: blend_channel(adj.b, target.b, num),
    }
}

pub open spec fn nord_fn(max_b: int) -> spec_fn(RgbColor) -> RgbColor {
    |c: RgbColor| nord_of(c, max_b)
}

/// The brightness ceiling of the palette mapping under the given options.
pub open spec fn max_brightness_for(options: NordOptions) -> int {
    if options.erase_most_present_color {
        FULL_BRIGHTNESS as int
    } else {
        MAX_BRIGHTNESS as int
    }
}

proof fn lemma_pixel_bytes(p: int)
    requires
        0 <= p,
    ensures
        (4 * p) / 4 == p,
        (4 * p + 1) / 4 == p,
        (4 * p + 2) / 4 == p,
        (4 * p + 3) / 4 == p,
        (4 * p) % 4 == 0,
        (4 * p + 1) % 4 == 1,
        (4 * p + 2) % 4 == 2,
        (4 * p + 3) % 4 == 3,
{
}

/// Writes colour `c` into pixel `p`, keeping its alpha.
fn set_rgb(data: &mut Vec<u8>, p: usize, c: RgbColor)
    requires
        4 * p + 3 < old(data)@.len(),
        old(data)@.len() <= usize::MAX,
    ensures
        final(data)@ == old(data)@.update(4 * p as int, c.r).update(4 * p + 1, c.g).update(4 * p + 2, c.b),
{
    data.set(4 * p, c.r);
    data.set(4 * p + 1, c.g);
    data.set(4 * p + 2, c.b);
}

/// Inverts every colour channel; alpha is kept.
pub fn invert(image: &mut Raster)
    requires
        old(image).wf(),
    ensures
        final(image).wf(),
        final(image).width == old(image).width,
        final(image).height == old(image).height,
        final(image).data@ == map_pixels(old(image).data@, invert_fn()),
{
    let ghost orig = image.data@;
    let ghost target = map_pixels(orig, invert_fn());
    let n: usize = image.data.len() / 4;
    let mut p: usize = 0;
    while p < n
        invariant
            image.wf(),
            image.width == old(image).width,
            image.height == old(image).height,
            orig == old(image).data@,
            target == map_pixels(orig, invert_fn()),
            n == orig.len() / 4,
            orig.len() % 4 == 0,
            image.data@.len() == orig.len(),
            p <= n,
            forall|j: int| 0 <= j < 4 * p ==> image.data@[j] == #[trigger] target[j],
            forall|j: int| 4 * p <= j < orig.len() ==> image.data@[j] == #[trigger] orig[j],
        decreases n - p,
    {
        let c = RgbColor { r: image.data[4 * p], g: image.data[4 * p + 1], b: image.data[4 * p + 2] };
        assert(c == color_at(orig, p as int));
        let out = RgbColor { r: 255 - c.r, g: 255 - c.g, b: 255 - c.b };
        set_rgb(&mut image.data, p, out);
        proof {
            lemma_pixel_bytes(p as int);
        }
        p = p + 1;
    }
    assert(image.data@ =~= target);
}

fn sepia_u8(c: RgbColor, wr: u32, wg: u32, wb: u32) -> (v: u8)
    requires
        wr <= 1000,
        wg <= 1000,
        wb <= 1000,
    ensures
        v == sepia_channel(c, wr as int, wg as int, wb as int),
{
    assert(wr * c.r + wg * c.g + wb * c.b <= 765000) by (nonlinear_arith)
        requires
            wr <= 1000,
            wg <= 1000,
            wb <= 1000,
            c.r <= 255,
            c.g <= 255,
            c.b <= 255,
    ;
    let v: u32 = (wr * c.r as u32 + wg * c.g as u32 + wb * c.b as u32) / 1000;
    if v > 255 {
        255
    } else {
        v as u8
    }
}

/// Applies the fixed sepia colour mix to every pixel; alpha is kept.
pub fn apply_sepia(image: &mut Raster)
    requires
        old(image).wf(),
    ensures
        final(image).wf(),
        final(image).width == old(image).width,
        final(image).height == old(image).height,
        final(image).data@ == map_pixels(old(image).data@, sepia_fn()),
{
    let ghost orig = image.data@;
    let ghost target = map_pixels(orig, sepia_fn());
    let n: usize = image.data.len() / 4;
    let mut p: usize = 0;
    while p < n
        invariant
            image.wf(),
            image.width == old(image).width,
            image.height == old(image).height,
            orig == old(image).data@,
            target == map_pixels(orig, sepia_fn()),
            n == orig.len() / 4,
            orig.len() % 4 == 0,
            image.data@.len() == orig.len(),
            p <= n,
            forall|j: int| 0 <= j < 4 * p ==> image.data@[j] == #[trigger] target[j],
            forall|j: int| 4 * p <= j < orig.len() ==> image.data@[j] == #[trigger] orig[j],
        decreases n - p,
    {
        let c = RgbColor { r: image.data[4 * p], g: image.data[4 * p + 1], b: image.data[4 * p + 2] };
        assert(c == color_at(orig, p as int));
        let out = RgbColor {
            r: sepia_u8(c, 393, 769, 189),
            g: sepia_u8(c, 349, 686, 168),
            b: sepia_u8(c, 272, 534, 131),
        };
        set_rgb(&mut image.data, p, out);
        proof {
            lemma_pixel_bytes(p as int);
        }
        p = p + 1;
    }
    assert(image.data@ =~= target);
}

fn contrast_colors() -> (v: Vec<RgbColor>)
    ensures
        v@ == contrast_palette(),
{
    vec![
        RgbColor { r: 46, g: 52, b: 64 },
        RgbColor { r: 59, g: 66, b: 82 },
        RgbColor { r: 67, g: 76, b: 94 },
        RgbColor { r: 76, g: 86, b: 106 },
    ]
}

fn accent_colors() -> (v: Vec<RgbColor>)
    ensures
        v@ == accent_palette(),
{
    vec![
        RgbColor { r: 143, g: 188, b: 187 },
        RgbColor { r: 136, g: 192, b: 208 },
        RgbColor { r: 129, g: 161, b: 193 },
        RgbColor { r: 94, g: 129, b: 172 },
    ]
}

fn abs_diff_u32(a: u32, b: u32) -> (d: u32)
    ensures
        d == abs_diff(a as int, b as int),
{
    if a >= b {
        a - b
    } else {
        b - a
    }
}

/// The palette entry whose brightness is closest to `br`; the first one on a
/// tie.
fn get_nearest_color(br: u32, all_colors: &Vec<RgbColor>) -> (c: RgbColor)
    requires
        all_colors@.len() == 4,
    ensures
        c == all_colors@[nearest_index(all_colors@, br as int, 4)],
{
    let mut best: usize = 0;
    let mut best_dist: u32 = abs_diff_u32(all_colors[0].brightness(), br);
    let mut i: usize = 1;
    while i < all_colors.len()
        invariant
            all_colors@.len() == 4,
            1 <= i <= 4,
            best < i,
            best == nearest_index(all_colors@, br as int, i as int),
            best_dist == abs_diff(brightness_of(all_colors@[best as int]), br as int),
        decreases 4 - i,
    {
        let d = abs_diff_u32(all_colors[i].brightness(), br);
        if d < best_dist {
            best = i;
            best_dist = d;
        }
        i = i + 1;
    }
    all_colors[best]
}

fn blend_u8(a: u8, p: u8, num: u64) -> (v: u8)
    requires
        num <= STRENGTH_SCALE,
    ensures
        v == blend_channel(a, p, num as int),
{
    let rest: u64 = STRENGTH_SCALE - num;
    assert(a * rest <= 255 * STRENGTH_SCALE && p * num <= 255 * STRENGTH_SCALE && a * rest + p * num
        <= 255 * STRENGTH_SCALE) by (nonlinear_arith)
        requires
            rest == STRENGTH_SCALE - num,
            a <= 255,
            p <= 255,
            num <= STRENGTH_SCALE,
            STRENGTH_SCALE == 1275000,
    ;
    let total: u64 = a as u64 * rest + p as u64 * num;
    (total / STRENGTH_SCALE) as u8
}

/// The palette-mapped colour of one pixel.
fn nord_color(c: RgbColor, max_b: u32, contrast: &Vec<RgbColor>, accent: &Vec<RgbColor>) -> (out: RgbColor)
    requires
        contrast@ == contrast_palette(),
        accent@ == accent_palette(),
    ensures
        out == nord_of(c, max_b as int),
{
    let br = c.brightness();
    let adj = if br > max_b {
        c.darken_rgb(br - max_b)
    } else {
        c
    };
    let target = if c.calculate_grayscale_similarity() < GRAY_LIMIT {
        get_nearest_color(adj.brightness(), contrast)
    } else {
        get_nearest_color(adj.brightness(), accent)
    };
    let diff = abs_diff_u32(br, target.brightness());
    let num: u64 = 4 * (FULL_BRIGHTNESS - diff) as u64;
    RgbColor {
        r: blend_u8(adj.r, target.r, num),
        g: blend_u8(adj.g, target.g, num),
        b: blend_u8(adj.b, target.b, num),
    }
}

/// Maps every pixel to the Nord palette (see `nord_of`); alpha is kept.
/// Repeated colours are looked up in a per-call cache.
pub fn apply_nord_filter(image: &mut Raster, options: &NordOptions)
    requires
        old(image).wf(),
    ensures
        final(image).wf(),
        final(image).width == old(image).width,
        final(image).height == old(image).height,
        final(image).data@ == map_pixels(old(image).data@, nord_fn(max_brightness_for(*options))),
{
    let max_b: u32 = if options.erase_most_present_color {
        FULL_BRIGHTNESS
    } else {
        MAX_BRIGHTNESS
    };
    let contrast = contrast_colors();
    let accent = accent_colors();
    let mut cache: HashMap<u32, RgbColor> = HashMap::new();
    let ghost orig = image.data@;
    let ghost target = map_pixels(orig, nord_fn(max_b as int));
    let n: usize = image.data.len() / 4;
    let mut p: usize = 0;
    while p < n
        invariant
            image.wf(),
            image.width == old(image).width,
            image.height == old(image).height,
            orig == old(image).data@,
            max_b == max_brightness_for(*options),
            target == map_pixels(orig, nord_fn(max_b as int)),
            contrast@ == contrast_palette(),
            accent@ == accent_palette(),
            n == orig.len() / 4,
            orig.len() % 4 == 0,
            image.data@.len() == orig.len(),
            p <= n,
            forall|j: int| 0 <= j < 4 * p ==> image.data@[j] == #[trigger] target[j],
            forall|j: int| 4 * p <= j < orig.len() ==> image.data@[j] == #[trigger] orig[j],
            forall|c: RgbColor| #[trigger] cache@.contains_key(color_key(c)) ==> cache@[color_key(c)]
                == nord_of(c, max_b as int),
        decreases n - p,
    {
        let c = RgbColor { r: image.data[4 * p], g: image.data[4 * p + 1], b: image.data[4 * p + 2] };
        assert(c == color_at(orig, p as int));
        let key: u32 = ((c.r as u32) << 16u32) | ((c.g as u32) << 8u32) | (c.b as u32);
        assert(key == color_key(c));
        let out = match cache.get(&key) {
            Some(v) => *v,
            None => {
                let v = nord_color(c, max_b, &contrast, &accent);
                cache.insert(key, v);
                proof {
                    assert forall|x: RgbColor| #[trigger] cache@.contains_key(color_key(x)) implies cache@[color_key(x)]
                        == nord_of(x, max_b as int) by {
                        if color_key(x) == key {
                            crate::stats::lemma_color_key_injective(x, c);
                        }
                    }
                }
                v
            },
        };
        set_rgb(&mut image.data, p, out);
        proof {
            lemma_pixel_bytes(p as int);
        }
        p = p + 1;
    }
    assert(image.data@ =~= target);
}

/// The palette mapping has no hidden state: two pixels of the same colour,
/// in the same image or in two images, come out identical.
pub proof fn lemma_palette_mapping_deterministic(d1: Seq<u8>, p: int, d2: Seq<u8>, q: int, max_b: int)
    requires
        d1.len() % 4 == 0,
        d2.len() % 4 == 0,
        0 <= p < d1.len() / 4,
        0 <= q < d2.len() / 4,
        color_at(d1, p) == color_at(d2, q),
    ensures
        color_at(map_pixels(d1, nord_fn(max_b)), p) == color_at(map_pixels(d2, nord_fn(max_b)), q),
        map_pixels(d1, nord_fn(max_b))[4 * p + 3] == d1[4 * p + 3],
{
    lemma_pixel_bytes(p);
    lemma_pixel_bytes(q);
}

} // verus!
