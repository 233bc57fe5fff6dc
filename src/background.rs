//! Background removal: the local erase of the dominant colour, and the
//! preparation and application of a segmentation mask.

use vstd::prelude::*;
use crate::color::{RgbColor, squared_distance, squared_distance_u32};
use crate::model::{ActivationFunction, activation_of, model_resolution};
use crate::options::NordOptions;
use crate::raster::{Mask, Raster, area, resize_mask, resize_rgba, resized_nearest};
use crate::stats::color_at;

verus! {

/// Pixels closer than this RGB distance to the dominant colour are erased.
/// The local erase always works at this distance.
pub const ERASE_DISTANCE: u16 = 40;

/// RGBA bytes with the alpha of every pixel replaced by `f` of its colour and
/// alpha.
pub open spec fn map_alpha(d: Seq<u8>, f: spec_fn(RgbColor, u8) -> u8) -> Seq<u8> {
    Seq::new(
        d.len(),
        |j: int|
            if j % 4 == 3 {
                f(color_at(d, j / 4), d[j])
            } else {
                d[j]
            },
    )
}

/// Whether alpha `a` is at most `255 * smoothstep(0, w, sqrt(n))`, where
/// `smoothstep(0, w, d) = t^2 (3 - 2t)` with `t = d / w`. That bound is
/// `255 n (3w - 2 sqrt(n)) / w^3`, so the test is
/// `510 n sqrt(n) <= 765 w n - a w^3`, decided here without a square root.
pub open spec fn ramp_ok(n: int, w: int, a: int) -> bool {
    let r = 765 * w * n - a * (w * w * w);
    r >= 0 && 260100 * n * n * n <= r * r
}

/// The largest alpha in `0..=k` that passes `ramp_ok`; 0 when none does.
pub open spec fn ramp_alpha(n: int, w: int, k: int) -> int
    decreases k,
{
    if k <= 0 {
        0
    } else if ramp_ok(n, w, k) {
        k
    } else {
        ramp_alpha(n, w, k - 1)
    }
}

/// The alpha that a pixel at squared distance `n` from the dominant colour
/// gets: `255 * smoothstep(0, w, sqrt(n))` rounded down, and 0 from distance
/// `w` on.
pub open spec fn transparency_of(n: int, w: int) -> u8 {
    if n >= w * w {
        0
    } else {
        ramp_alpha(n, w, 255) as u8
    }
}

/// The alpha of a pixel after the local erase: pixels closer than
/// `max_distance` to `dominant` fade out toward it, all others keep their
/// alpha.
pub open spec fn erased_alpha(c: RgbColor, a: u8, dominant: RgbColor, max_distance: int) -> u8 {
    let n = squared_distance(c, (dominant.r, dominant.g, dominant.b));
    if n < max_distance * max_distance {
        transparency_of(n, max_distance)
    } else {
        a
    }
}

pub open spec fn erase_fn(dominant: RgbColor, max_distance: int) -> spec_fn(RgbColor, u8) -> u8 {
    |c: RgbColor, a: u8| erased_alpha(c, a, dominant, max_distance)
}

/// The alpha of a pixel under a mask sample `m`: never more opaque than the
/// source, otherwise the activated mask value.
pub open spec fn masked_alpha(a: u8, m: u8, f: ActivationFunction) -> u8 {
    if a < m {
        a
    } else {
        activation_of(f, m)
    }
}

/// RGBA bytes with alpha taken from a full-size mask.
pub open spec fn masked(d: Seq<u8>, mask: Seq<u8>, f: ActivationFunction) -> Seq<u8> {
    Seq::new(
        d.len(),
        |j: int|
            if j % 4 == 3 {
                masked_alpha(d[j], mask[j / 4], f)
            } else {
                d[j]
            },
    )
}

/// RGBA bytes of `n` pixels laid out channel-first: all red bytes, then all
/// green, then all blue.
pub open spec fn planar(d: Seq<u8>, n: int) -> Seq<u8> {
    Seq::new((3 * n) as nat, |j: int| d[4 * (j % n) + j / n])
}

proof fn lemma_ramp_ok_zero(n: int, w: int)
    requires
        0 <= w,
        0 <= n < w * w,
    ensures
        ramp_ok(n, w, 0),
{
    assert(260100 * n * n * n <= (765 * w * n) * (765 * w * n)) by (nonlinear_arith)
        requires
            0 <= n < w * w,
    ;
    assert(0 <= 765 * w * n) by (nonlinear_arith)
        requires
            0 <= n < w * w,
            0 <= w,
    ;
    assert(765 * w * n - 0 * (w * w * w) == 765 * w * n);
}

/// A smaller alpha passes whenever a larger one does.
proof fn lemma_ramp_ok_lower(n: int, w: int, a1: int, a2: int)
    requires
        0 <= a1 <= a2,
        0 <= w,
        ramp_ok(n, w, a2),
    ensures
        ramp_ok(n, w, a1),
{
    let r1 = 765 * w * n - a1 * (w * w * w);
    let r2 = 765 * w * n - a2 * (w * w * w);
    assert(r2 <= r1) by (nonlinear_arith)
        requires
            0 <= a1 <= a2,
            0 <= w,
            r1 == 765 * w * n - a1 * (w * w * w),
            r2 == 765 * w * n - a2 * (w * w * w),
    ;
    assert(r2 * r2 <= r1 * r1) by (nonlinear_arith)
        requires
            0 <= r2 <= r1,
    ;
}

proof fn lemma_ramp_alpha_at_least(n: int, w: int, k: int, a: int)
    requires
        0 <= a <= k,
        ramp_ok(n, w, a),
    ensures
        a <= ramp_alpha(n, w, k),
    decreases k,
{
    if k > 0 && !ramp_ok(n, w, k) {
        lemma_ramp_alpha_at_least(n, w, k - 1, a);
    }
}

proof fn lemma_ramp_alpha_passes(n: int, w: int, k: int)
    requires
        0 <= k,
        0 <= w,
        0 <= n < w * w,
    ensures
        0 <= ramp_alpha(n, w, k) <= k,
        ramp_ok(n, w, ramp_alpha(n, w, k)),
    decreases k,
{
    if k == 0 {
        lemma_ramp_ok_zero(n, w);
    } else if !ramp_ok(n, w, k) {
        lemma_ramp_alpha_passes(n, w, k - 1);
    }
}

proof fn lemma_ramp_alpha_is(n: int, w: int, k: int, a: int)
    requires
        0 <= a <= k,
        0 <= w,
        ramp_ok(n, w, a),
        a == k || !ramp_ok(n, w, a + 1),
    ensures
        ramp_alpha(n, w, k) == a,
    decreases k,
{
    if k > a {
        assert(!ramp_ok(n, w, k)) by {
            if ramp_ok(n, w, k) {
                lemma_ramp_ok_lower(n, w, a + 1, k);
            }
        }
        lemma_ramp_alpha_is(n, w, k - 1, a);
    }
}

proof fn lemma_ramp_bound_at_forty(u: int)
    requires
        0 <= u <= 1598,
        780300 * u * u + 780300 * u - 936099900 > 0,
    ensures
        3745440000 * 260100 * u * u * u >= (780300 * u * u + 780300 * u - 936099900) * (780300 * u
            * u + 780300 * u - 936099900),
{
    assert(3745440000 * 260100 * u * u * u >= (780300 * u * u + 780300 * u - 936099900) * (780300
        * u * u + 780300 * u - 936099900)) by (nonlinear_arith)
        requires
            0 <= u <= 1598,
            780300 * u * u + 780300 * u - 936099900 > 0,
    ;
}

/// At the erase distance, an alpha that passes at squared distance `u`
/// passes at `u + 1` too.
proof fn lemma_ramp_ok_step(u: int, a: int)
    requires
        0 <= u,
        u + 1 < 1600,
        ramp_ok(u, 40, a),
    ensures
        ramp_ok(u + 1, 40, a),
{
    let p = 30600 * u - 64000 * a;
    assert(40 * 40 * 40 == 64000int);
    assert(765 * 40 * u - a * (40 * 40 * 40) == p) by (nonlinear_arith)
        requires
            p == 30600 * u - 64000 * a,
    ;
    assert(765 * 40 * (u + 1) - a * (40 * 40 * 40) == p + 30600) by (nonlinear_arith)
        requires
            p == 30600 * u - 64000 * a,
    ;
    let q = 780300 * u * u + 780300 * u - 936099900;
    assert(61200 * p >= q) by {
        if q > 0 {
            lemma_ramp_bound_at_forty(u);
            assert(61200 * p >= q) by (nonlinear_arith)
                requires
                    p >= 0,
                    q > 0,
                    p * p >= 260100 * u * u * u,
                    3745440000 * 260100 * u * u * u >= q * q,
            ;
        }
    }
    assert(260100 * (u + 1) * (u + 1) * (u + 1) <= (p + 30600) * (p + 30600)) by (nonlinear_arith)
        requires
            p * p >= 260100 * u * u * u,
            61200 * p >= q,
            q == 780300 * u * u + 780300 * u - 936099900,
    ;
}

proof fn lemma_ramp_ok_grows(u: int, v: int, a: int)
    requires
        0 <= u <= v < 1600,
        ramp_ok(u, 40, a),
    ensures
        ramp_ok(v, 40, a),
    decreases v - u,
{
    if u < v {
        lemma_ramp_ok_step(u, a);
        lemma_ramp_ok_grows(u + 1, v, a);
    }
}

/// At the erase distance the alpha never decreases as the squared distance
/// grows, is 0 on the dominant colour itself, and is 0 from the erase
/// distance on.
pub proof fn lemma_transparency_monotone(n1: int, n2: int)
    requires
        0 <= n1 <= n2,
    ensures
        transparency_of(0, ERASE_DISTANCE as int) == 0,
        n2 < 1600 ==> transparency_of(n1, ERASE_DISTANCE as int) <= transparency_of(n2, ERASE_DISTANCE as int),
        n1 >= 1600 ==> transparency_of(n1, ERASE_DISTANCE as int) == 0,
{
    let w = ERASE_DISTANCE as int;
    assert(w * w == 1600);
    assert(forall|a: int| 0 < a ==> !#[trigger] ramp_ok(0, 40, a)) by {
        assert forall|a: int| 0 < a implies !#[trigger] ramp_ok(0, 40, a) by {
            assert(765 * 40 * 0 - a * (40 * 40 * 40) < 0) by (nonlinear_arith)
                requires
                    0 < a,
            ;
        }
    }
    lemma_ramp_ok_zero(0, 40);
    lemma_ramp_alpha_is(0, 40, 255, 0);
    if n2 < 1600 {
        lemma_ramp_alpha_passes(n1, 40, 255);
        let a1 = ramp_alpha(n1, 40, 255);
        lemma_ramp_ok_grows(n1, n2, a1);
        lemma_ramp_alpha_at_least(n2, 40, 255, a1);
        lemma_ramp_alpha_passes(n2, 40, 255);
    }
}

/// The local erase fades pixels monotonically: a pixel closer to the
/// dominant colour never ends up more opaque than a farther one inside the
/// erase distance, and pixels at or beyond that distance keep their alpha.
pub proof fn lemma_erase_monotone(c1: RgbColor, a1: u8, c2: RgbColor, a2: u8, dominant: RgbColor)
    requires
        squared_distance(c1, (dominant.r, dominant.g, dominant.b)) <= squared_distance(
            c2,
            (dominant.r, dominant.g, dominant.b),
        ),
    ensures
        squared_distance(c2, (dominant.r, dominant.g, dominant.b)) < 1600 ==> erased_alpha(
            c1,
            a1,
            dominant,
            ERASE_DISTANCE as int,
        ) <= erased_alpha(c2, a2, dominant, ERASE_DISTANCE as int),
        squared_distance(c1, (dominant.r, dominant.g, dominant.b)) >= 1600 ==> erased_alpha(
            c1,
            a1,
            dominant,
            ERASE_DISTANCE as int,
        ) == a1,
{
    let dom = (dominant.r, dominant.g, dominant.b);
    let n1 = squared_distance(c1, dom);
    let n2 = squared_distance(c2, dom);
    assert(0 <= n1) by (nonlinear_arith)
        requires
            n1 == squared_distance(c1, dom),
    ;
    assert(ERASE_DISTANCE as int * ERASE_DISTANCE as int == 1600);
    lemma_transparency_monotone(n1, n2);
}

fn ramp_ok_exec(n: u32, w: u16, a: u32) -> (b: bool)
    requires
        n <= 195075,
        a <= 256,
    ensures
        b == ramp_ok(n as int, w as int, a as int),
{
    let wi = w as i128;
    let ni = n as i128;
    assert(0 <= wi * wi <= 4294836225 && 0 <= wi * wi * wi <= 281462092005375 && 0 <= 765 * wi
        <= 50134275 && 0 <= 765 * wi * ni <= 9781039046130125) by (nonlinear_arith)
        requires
            0 <= wi <= 65535,
            0 <= ni <= 195075,
    ;
    let cube = wi * wi * wi;
    assert(0 <= (a as i128) * cube <= 256 * 281462092005375) by (nonlinear_arith)
        requires
            0 <= a <= 256,
            0 <= cube <= 281462092005375,
    ;
    let r = 765 * wi * ni - (a as i128) * cube;
    if r < 0 {
        return false;
    }
    assert(0 <= r * r <= 9781039046130125 * 9781039046130125) by (nonlinear_arith)
        requires
            0 <= r <= 9781039046130125,
    ;
    assert(0 <= ni * ni <= 38054255625) by (nonlinear_arith)
        requires
            0 <= ni <= 195075,
    ;
    let sq = ni * ni;
    assert(0 <= sq * ni <= 7423433916046875) by (nonlinear_arith)
        requires
            0 <= sq <= 38054255625,
            0 <= ni <= 195075,
    ;
    let cubed = sq * ni;
    assert(260100 * ni * ni * ni == 260100 * cubed) by (nonlinear_arith)
        requires
            cubed == ni * ni * ni,
    ;
    260100 * cubed <= r * r
}

/// The alpha for a pixel at squared distance `n` from the dominant colour
/// (see `transparency_of`), found by bisection over 0..=255.
pub fn map_distance_to_transparency(n: u32) -> (a: u8)
    requires
        n <= 195075,
    ensures
        a == transparency_of(n as int, ERASE_DISTANCE as int),
{
    let max_distance: u16 = ERASE_DISTANCE;
    let w = max_distance as u64;
    assert(w * w <= 4294836225) by (nonlinear_arith)
        requires
            w <= 65535,
    ;
    if n as u64 >= w * w {
        return 0;
    }
    proof {
        lemma_ramp_ok_zero(n as int, w as int);
    }
    let mut lo: u32 = 0;
    let mut hi: u32 = 256;
    while lo + 1 < hi
        invariant
            n <= 195075,
            (n as int) < (w * w) as int,
            w == max_distance,
            lo < hi <= 256,
            ramp_ok(n as int, w as int, lo as int),
            hi == 256 || !ramp_ok(n as int, w as int, hi as int),
        decreases hi - lo,
    {
        let mid = lo + (hi - lo) / 2;
        if ramp_ok_exec(n, max_distance, mid) {
            lo = mid;
        } else {
            hi = mid;
        }
    }
    proof {
        if lo < 255 {
            assert(!ramp_ok(n as int, w as int, lo + 1));
        }
        lemma_ramp_alpha_is(n as int, w as int, 255, lo as int);
    }
    lo as u8
}

/// Fades out every pixel closer than `ERASE_DISTANCE` to `most_present_color`
/// (see `erased_alpha`); all other pixels are left as they are.
pub fn remove_most_present_colors(image: &mut Raster, most_present_color: RgbColor)
    requires
        old(image).wf(),
    ensures
        final(image).wf(),
        final(image).width == old(image).width,
        final(image).height == old(image).height,
        final(image).data@ == map_alpha(old(image).data@, erase_fn(most_present_color, ERASE_DISTANCE as int)),
{
    let max_distance: u16 = ERASE_DISTANCE;
    let ghost orig = image.data@;
    let ghost target = map_alpha(orig, erase_fn(most_present_color, max_distance as int));
    let dom = (most_present_color.r, most_present_color.g, most_present_color.b);
    let n: usize = image.data.len() / 4;
    let mut p: usize = 0;
    while p < n
        invariant
            image.wf(),
            image.width == old(image).width,
            image.height == old(image).height,
            orig == old(image).data@,
            target == map_alpha(orig, erase_fn(most_present_color, max_distance as int)),
            max_distance == ERASE_DISTANCE,
            dom == (most_present_color.r, most_present_color.g, most_present_color.b),
            n == orig.len() / 4,
            orig.len() % 4 == 0,
            image.data@.len() == orig.len(),
            p <= n,
            forall|j: int| 0 <= j < 4 * p ==> image.data@[j] == #[trigger] target[j],
            forall|j: int| 4 * p <= j < orig.len() ==> image.data@[j] == #[trigger] orig[j],
        decreases n - p,
    {
        let c = RgbColor { r: image.data[4 * p], g: image.data[4 * p + 1], b: image.data[4 * p + 2] };
        assert(c == color_at(orig, p as int));
        let n = squared_distance_u32(c, dom);
        assert(max_distance as u64 * max_distance as u64 <= 4294836225) by (nonlinear_arith)
            requires
                max_distance <= 65535,
        ;
        if (n as u64) < max_distance as u64 * max_distance as u64 {
            let alpha = map_distance_to_transparency(n);
            image.data.set(4 * p + 3, alpha);
        }
        assert(4 * p / 4 == p && (4 * p + 1) / 4 == p && (4 * p + 2) / 4 == p && (4 * p + 3) / 4 == p);
        assert((4 * p) % 4 == 0 && (4 * p + 1) % 4 == 1 && (4 * p + 2) % 4 == 2 && (4 * p + 3) % 4 == 3);
        p = p + 1;
    }
    assert(image.data@ =~= target);
}

/// The network input for an image: the image resized (nearest neighbour) to
/// the model's square resolution, as channel-first bytes. Dividing each byte
/// by 255 gives the batch-of-one tensor of shape (1, 3, side, side).
pub fn preprocess_image(image: &Raster, options: &NordOptions) -> (input: Vec<u8>)
    requires
        image.wf(),
    ensures
        input@ == planar(
            resized_nearest(
                image.data@,
                image.width,
                4,
                model_resolution(options.model),
                model_resolution(options.model),
            ),
            area(model_resolution(options.model), model_resolution(options.model)),
        ),
{
    let side = options.model.resolution();
    assert(side * side <= 1048576) by (nonlinear_arith)
        requires
            side <= 1024,
    ;
    let resized = resize_rgba(image, side, side);
    let n: usize = side as usize * side as usize;
    let ghost target = planar(resized.data@, n as int);
    let mut input: Vec<u8> = Vec::with_capacity(3 * n);
    let mut j: usize = 0;
    while j < 3 * n
        invariant
            resized.wf(),
            n == area(side, side),
            0 < n <= 1048576,
            resized.data@.len() == 4 * n,
            target == planar(resized.data@, n as int),
            j <= 3 * n,
            input@.len() == j,
            forall|i: int| 0 <= i < j ==> input@[i] == #[trigger] target[i],
        decreases 3 * n - j,
    {
        assert(4 * (j % n) + j / n < 4 * n) by (nonlinear_arith)
            requires
                j < 3 * n,
                n > 0,
        ;
        input.push(resized.data[4 * (j % n) + j / n]);
        j = j + 1;
    }
    assert(input@ =~= target);
    input
}

/// Applies a segmentation mask to an image. The mask, at any resolution, is
/// resized (nearest neighbour) to the image; each pixel then keeps its alpha
/// where that is below the mask value and otherwise takes the activated mask
/// value.
pub fn apply_mask(image: &Raster, mask: &Mask, options: &NordOptions) -> (out: Raster)
    requires
        image.wf(),
        mask.wf(),
    ensures
        out.wf(),
        out.width == image.width,
        out.height == image.height,
        out.data@ == masked(
            image.data@,
            resized_nearest(mask.data@, mask.width, 1, image.width, image.height),
            options.activation_function,
        ),
{
    let resized = resize_mask(mask, image.width, image.height);
    let ghost target = masked(image.data@, resized.data@, options.activation_function);
    let mut out = Raster { width: image.width, height: image.height, data: image.data.clone() };
    let n: usize = image.data.len() / 4;
    let mut p: usize = 0;
    while p < n
        invariant
            out.wf(),
            out.width == image.width,
            out.height == image.height,
            image.wf(),
            resized.data@.len() == n,
            target == masked(image.data@, resized.data@, options.activation_function),
            n == image.data@.len() / 4,
            image.data@.len() % 4 == 0,
            out.data@.len() == image.data@.len(),
            p <= n,
            forall|j: int| 0 <= j < 4 * p ==> out.data@[j] == #[trigger] target[j],
            forall|j: int| 4 * p <= j < image.data@.len() ==> out.data@[j] == #[trigger] image.data@[j],
        decreases n - p,
    {
        let a = image.data[4 * p + 3];
        let m = resized.data[p];
        if a >= m {
            let alpha = options.activation_function.apply(m);
            out.data.set(4 * p + 3, alpha);
        }
        assert(4 * p / 4 == p && (4 * p + 1) / 4 == p && (4 * p + 2) / 4 == p && (4 * p + 3) / 4 == p);
        assert((4 * p) % 4 == 0 && (4 * p + 1) % 4 == 1 && (4 * p + 2) % 4 == 2 && (4 * p + 3) % 4 == 3);
        p = p + 1;
    }
    assert(out.data@ =~= target);
    out
}

} // verus!
