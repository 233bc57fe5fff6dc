//! The statistical fingerprint of an image, taken over a sample of its
//! pixels, and the cartoon / picture classification built on it.

use vstd::prelude::*;
use std::collections::HashMap;
use crate::color::{RgbColor, brightness_of, gray_similarity_of};
use crate::raster::Raster;

verus! {

broadcast use vstd::std_specs::hash::group_hash_axioms;

/// Every `SAMPLE_DISTANCE`-th pixel of the image is sampled.
pub const SAMPLE_DISTANCE: u32 = 50;

/// A sampled pixel must be more opaque than this alpha.
pub const MIN_SAMPLE_ALPHA: u8 = 128;

/// An image with fewer distinct sampled colours than this can be a cartoon.
pub const CARTOON_MAX_COLORS: u64 = 2000;

#[derive(Clone, Copy, Debug, PartialEq, Eq, Structural)]
pub enum ImageType {
    Cartoon,
    Picture,
}

/// Brightness over the sample, in the units of `RgbColor::brightness`.
#[derive(Clone, Copy, Debug, PartialEq, Eq, Structural)]
pub struct Brightness {
    pub average: u32,
    pub min: u32,
    pub max: u32,
}

/// Grayscale similarity over the sample, in millionths.
#[derive(Clone, Copy, Debug, PartialEq, Eq, Structural)]
pub struct GrayScaleSimilarity {
    pub average: u32,
    pub min: u32,
    pub max: u32,
}

/// The colour histogram of the sample, reduced to its most frequent colour,
/// that colour's count, the sample size and the number of distinct colours.
/// The dominant fraction is `most_present_count / sample_count`.
#[derive(Clone, Copy, Debug, PartialEq, Eq, Structural)]
pub struct ColorMap {
    pub most_present_color: RgbColor,
    pub most_present_count: u64,
    pub sample_count: u64,
    pub amount: u64,
}

#[derive(Clone, Copy, Debug, PartialEq, Eq, Structural)]
pub struct ImageInformation {
    pub brightness: Brightness,
    pub grayscale_similarity: GrayScaleSimilarity,
    pub color_map: ColorMap,
    pub image_type: Option<ImageType>,
}

impl ImageInformation {
    /// All-zero statistics with no classification.
    pub fn new() -> (info: ImageInformation)
        ensures
            info == empty_information(),
    {
        ImageInformation {
            brightness: Brightness { average: 0, min: 0, max: 0 },
            grayscale_similarity: GrayScaleSimilarity { average: 0, min: 0, max: 0 },
            color_map: ColorMap {
                most_present_color: RgbColor { r: 0, g: 0, b: 0 },
                most_present_count: 0,
                sample_count: 0,
                amount: 0,
            },
            image_type: None,
        }
    }
}

pub open spec fn empty_information() -> ImageInformation {
    ImageInformation {
        brightness: Brightness { average: 0, min: 0, max: 0 },
        grayscale_similarity: GrayScaleSimilarity { average: 0, min: 0, max: 0 },
        color_map: ColorMap {
            most_present_color: RgbColor { r: 0, g: 0, b: 0 },
            most_present_count: 0,
            sample_count: 0,
            amount: 0,
        },
        image_type: None,
    }
}

/// The colour of pixel `p` of RGBA bytes.
pub open spec fn color_at(data: Seq<u8>, p: int) -> RgbColor {
    RgbColor { r: data[4 * p], g: data[4 * p + 1], b: data[4 * p + 2] }
}

/// The colours sampled among the first `k` sample positions `0, 50, 100, ...`:
/// those whose alpha exceeds `MIN_SAMPLE_ALPHA`, in order.
pub open spec fn samples(data: Seq<u8>, k: int) -> Seq<RgbColor>
    decreases k,
{
    if k <= 0 {
        Seq::empty()
    } else {
        let s = samples(data, k - 1);
        let p = SAMPLE_DISTANCE * (k - 1);
        if data[4 * p + 3] > MIN_SAMPLE_ALPHA {
            s.push(color_at(data, p))
        } else {
            s
        }
    }
}

/// The number of sample positions of an image of `n` pixels.
pub open spec fn sample_positions(n: int) -> int {
    (n + SAMPLE_DISTANCE - 1) / SAMPLE_DISTANCE as int
}

/// The sample of an image.
pub open spec fn image_samples(img: Raster) -> Seq<RgbColor> {
    samples(img.data@, sample_positions(img.pixel_count()))
}

pub open spec fn sum_by(s: Seq<RgbColor>, f: spec_fn(RgbColor) -> int) -> int
    decreases s.len(),
{
    if s.len() == 0 {
        0
    } else {
        sum_by(s.drop_last(), f) + f(s.last())
    }
}

/// The least value of `f` over `s`; 0 for an empty `s`.
pub open spec fn min_by(s: Seq<RgbColor>, f: spec_fn(RgbColor) -> int) -> int
    decreases s.len(),
{
    if s.len() == 0 {
        0
    } else if s.len() == 1 {
        f(s[0])
    } else {
        let m = min_by(s.drop_last(), f);
        if f(s.last()) < m {
            f(s.last())
        } else {
            m
        }
    }
}

/// The greatest value of `f` over `s`; 0 for an empty `s`.
pub open spec fn max_by(s: Seq<RgbColor>, f: spec_fn(RgbColor) -> int) -> int
    decreases s.len(),
{
    if s.len() == 0 {
        0
    } else if s.len() == 1 {
        f(s[0])
    } else {
        let m = max_by(s.drop_last(), f);
        if f(s.last()) > m {
            f(s.last())
        } else {
            m
        }
    }
}

/// How often `c` occurs in `s`.
pub open spec fn occurrences(s: Seq<RgbColor>, c: RgbColor) -> int
    decreases s.len(),
{
    if s.len() == 0 {
        0
    } else {
        occurrences(s.drop_last(), c) + if s.last() == c {
            1int
        } else {
            0
        }
    }
}

/// The number of distinct colours in `s`.
pub open spec fn distinct_count(s: Seq<RgbColor>) -> int
    decreases s.len(),
{
    if s.len() == 0 {
        0
    } else {
        distinct_count(s.drop_last()) + if s.drop_last().contains(s.last()) {
            0int
        } else {
            1
        }
    }
}

/// The index, among the first `k` entries of `s`, of the first colour whose
/// count in all of `s` is greatest.
pub open spec fn dominant_index(s: Seq<RgbColor>, k: int) -> int
    decreases k,
{
    if k <= 1 {
        0
    } else {
        let i = dominant_index(s, k - 1);
        if occurrences(s, s[k - 1]) > occurrences(s, s[i]) {
            k - 1
        } else {
            i
        }
    }
}

pub open spec fn brightness_fn() -> spec_fn(RgbColor) -> int {
    |c: RgbColor| brightness_of(c)
}

pub open spec fn gray_fn() -> spec_fn(RgbColor) -> int {
    |c: RgbColor| gray_similarity_of(c)
}

/// `a / b`, or 0 when `b` is 0.
pub open spec fn average(a: int, b: int) -> int {
    if b == 0 {
        0
    } else {
        a / b
    }
}

/// The classification rule: few colours and one clearly dominant one make a
/// cartoon. Both bounds are strict.
pub open spec fn classify(amount: int, dominant: int, total: int) -> ImageType {
    if amount < CARTOON_MAX_COLORS && 10 * dominant > total {
        ImageType::Cartoon
    } else {
        ImageType::Picture
    }
}

/// The statistics of a sample.
pub open spec fn information_of(s: Seq<RgbColor>) -> ImageInformation {
    let n = s.len() as int;
    let dom = if n == 0 {
        RgbColor { r: 0, g: 0, b: 0 }
    } else {
        s[dominant_index(s, n)]
    };
    let dom_count = if n == 0 {
        0
    } else {
        occurrences(s, dom)
    };
    let amount = distinct_count(s);
    ImageInformation {
        brightness: Brightness {
            average: average(sum_by(s, brightness_fn()), n) as u32,
            min: min_by(s, brightness_fn()) as u32,
            max: max_by(s, brightness_fn()) as u32,
        },
        grayscale_similarity: GrayScaleSimilarity {
            average: average(sum_by(s, gray_fn()), n) as u32,
            min: min_by(s, gray_fn()) as u32,
            max: max_by(s, gray_fn()) as u32,
        },
        color_map: ColorMap {
            most_present_color: dom,
            most_present_count: dom_count as u64,
            sample_count: n as u64,
            amount: amount as u64,
        },
        image_type: Some(classify(amount, dom_count, n)),
    }
}

/// The key of a colour in the histogram.
pub open spec fn color_key(c: RgbColor) -> u32 {
    ((c.r as u32) << 16u32) | ((c.g as u32) << 8u32) | (c.b as u32)
}

pub proof fn lemma_color_key_injective(a: RgbColor, b: RgbColor)
    requires
        color_key(a) == color_key(b),
    ensures
        a == b,
{
    let (ar, ag, ab) = (a.r as u32, a.g as u32, a.b as u32);
    let (br, bg, bb) = (b.r as u32, b.g as u32, b.b as u32);
    assert(ar < 256 && ag < 256 && ab < 256 && br < 256 && bg < 256 && bb < 256 && ((ar << 16u32)
        | (ag << 8u32) | ab) == ((br << 16u32) | (bg << 8u32) | bb) ==> ar == br && ag == bg && ab
        == bb) by (bit_vector);
}

proof fn lemma_occurrences_bound(s: Seq<RgbColor>, c: RgbColor)
    ensures
        0 <= occurrences(s, c) <= s.len(),
    decreases s.len(),
{
    if s.len() > 0 {
        lemma_occurrences_bound(s.drop_last(), c);
    }
}

proof fn lemma_distinct_bound(s: Seq<RgbColor>)
    ensures
        0 <= distinct_count(s) <= s.len(),
    decreases s.len(),
{
    if s.len() > 0 {
        lemma_distinct_bound(s.drop_last());
    }
}

proof fn lemma_occurrences_absent(s: Seq<RgbColor>, c: RgbColor)
    requires
        !s.contains(c),
    ensures
        occurrences(s, c) == 0,
    decreases s.len(),
{
    if s.len() > 0 {
        assert(s.last() != c);
        assert forall|x: RgbColor| s.drop_last().contains(x) implies s.contains(x) by {
            let j = choose|j: int| 0 <= j < s.drop_last().len() && s.drop_last()[j] == x;
            assert(s[j] == x);
        }
        lemma_occurrences_absent(s.drop_last(), c);
    }
}

fn key_of(c: RgbColor) -> (k: u32)
    ensures
        k == color_key(c),
{
    ((c.r as u32) << 16u32) | ((c.g as u32) << 8u32) | (c.b as u32)
}

/// Samples the image and computes its statistics and classification.
pub fn calculate_average_brightness(image: &Raster) -> (info: ImageInformation)
    requires
        image.wf(),
    ensures
        info == information_of(image_samples(*image)),
{
    get_image_information(image)
}

/// Samples the image and computes its statistics and classification.
pub fn get_image_information(image: &Raster) -> (info: ImageInformation)
    requires
        image.wf(),
    ensures
        info == information_of(image_samples(*image)),
{
    let n: usize = image.width as usize * image.height as usize;
    let step: usize = SAMPLE_DISTANCE as usize;
    let positions: usize = n / step + if n % step == 0 {
        0
    } else {
        1
    };
    assert(positions == sample_positions(image.pixel_count()));
    let ghost data = image.data@;
    let mut colors: Vec<RgbColor> = Vec::new();
    let mut counts: HashMap<u32, u64> = HashMap::new();
    let mut distinct: u64 = 0;
    let mut sum_b: u128 = 0;
    let mut sum_g: u128 = 0;
    let mut min_b: u32 = 0;
    let mut max_b: u32 = 0;
    let mut min_g: u32 = 0;
    let mut max_g: u32 = 0;
    let mut k: usize = 0;
    while k < positions
        invariant
            image.wf(),
            data == image.data@,
            n == image.pixel_count(),
            positions == sample_positions(n as int),
            step == SAMPLE_DISTANCE,
            k <= positions,
            colors@ == samples(data, k as int),
            colors@.len() <= k,
            sum_b == sum_by(colors@, brightness_fn()),
            sum_g == sum_by(colors@, gray_fn()),
            sum_b <= 255000 * colors@.len(),
            sum_g <= 700000 * colors@.len(),
            min_b == min_by(colors@, brightness_fn()),
            max_b == max_by(colors@, brightness_fn()),
            min_g == min_by(colors@, gray_fn()),
            max_g == max_by(colors@, gray_fn()),
            distinct == distinct_count(colors@),
            forall|c: RgbColor| #[trigger] counts@.contains_key(color_key(c)) <==> colors@.contains(c),
            forall|c: RgbColor| colors@.contains(c) ==> #[trigger] counts@[color_key(c)] == occurrences(colors@, c),
        decreases positions - k,
    {
        let p: usize = step * k;
        assert(p < n) by (nonlinear_arith)
            requires
                p == step * k,
                step == 50,
                k < positions,
                positions == (n + 49) / 50,
        ;
        let ghost before = colors@;
        if image.data[4 * p + 3] > MIN_SAMPLE_ALPHA {
            let c = RgbColor { r: image.data[4 * p], g: image.data[4 * p + 1], b: image.data[4 * p + 2] };
            let br = c.brightness();
            let gr = c.calculate_grayscale_similarity();
            sum_b = sum_b + br as u128;
            sum_g = sum_g + gr as u128;
            if colors.len() == 0 {
                min_b = br;
                max_b = br;
                min_g = gr;
                max_g = gr;
            } else {
                if br < min_b {
                    min_b = br;
                }
                if br > max_b {
                    max_b = br;
                }
                if gr < min_g {
                    min_g = gr;
                }
                if gr > max_g {
                    max_g = gr;
                }
            }
            let key = key_of(c);
            proof {
                lemma_occurrences_bound(before, c);
                lemma_distinct_bound(before);
            }
            match counts.get(&key) {
                Some(v) => {
                    let v = *v;
                    counts.insert(key, v + 1);
                },
                None => {
                    counts.insert(key, 1);
                    distinct = distinct + 1;
                },
            }
            colors.push(c);
            proof {
                let after = colors@;
                assert(after.drop_last() =~= before);
                assert forall|x: RgbColor| #[trigger] after.contains(x) <==> before.contains(x) || x == c by {
                    if before.contains(x) {
                        let j = choose|j: int| 0 <= j < before.len() && before[j] == x;
                        assert(after[j] == x);
                    }
                    if x == c {
                        assert(after[after.len() - 1] == x);
                    }
                    if after.contains(x) && x != c {
                        let j = choose|j: int| 0 <= j < after.len() && after[j] == x;
                        assert(before[j] == x);
                    }
                }
                assert forall|x: RgbColor| #[trigger] counts@.contains_key(color_key(x)) <==> after.contains(x) by {
                    if color_key(x) == key {
                        lemma_color_key_injective(x, c);
                    }
                }
                assert forall|x: RgbColor| after.contains(x) implies #[trigger] counts@[color_key(x)] == occurrences(after, x) by {
                    assert(occurrences(after, x) == occurrences(before, x) + if x == c { 1int } else { 0 });
                    if color_key(x) == key {
                        lemma_color_key_injective(x, c);
                        if !before.contains(c) {
                            lemma_occurrences_absent(before, c);
                        }
                    }
                }
            }
        }
        k = k + 1;
    }
    let len: usize = colors.len();
    let mut best: usize = 0;
    let mut best_count: u64 = 0;
    if len > 0 {
        let c0 = colors[0];
        assert(colors@.contains(c0));
        best_count = *counts.get(&key_of(c0)).unwrap();
    }
    let mut i: usize = 1;
    while i < len
        invariant
            len == colors@.len(),
            1 <= i,
            i <= len || len == 0,
            len > 0 ==> best < len && best == dominant_index(colors@, i as int),
            len > 0 ==> best_count == occurrences(colors@, colors@[best as int]),
            len == 0 ==> best_count == 0,
            forall|c: RgbColor| #[trigger] counts@.contains_key(color_key(c)) <==> colors@.contains(c),
            forall|c: RgbColor| colors@.contains(c) ==> #[trigger] counts@[color_key(c)] == occurrences(colors@, c),
        decreases len - i,
    {
        let c = colors[i];
        assert(colors@.contains(c));
        let v = *counts.get(&key_of(c)).unwrap();
        if v > best_count {
            best = i;
            best_count = v;
        }
        i = i + 1;
    }
    let dom = if len > 0 {
        colors[best]
    } else {
        RgbColor { r: 0, g: 0, b: 0 }
    };
    let (avg_b, avg_g) = if len > 0 {
        assert(sum_b / len as u128 <= 255000) by (nonlinear_arith)
            requires
                sum_b <= 255000 * len,
                len > 0,
        ;
        assert(sum_g / len as u128 <= 700000) by (nonlinear_arith)
            requires
                sum_g <= 700000 * len,
                len > 0,
        ;
        ((sum_b / len as u128) as u32, (sum_g / len as u128) as u32)
    } else {
        (0, 0)
    };
    let image_type = if distinct < CARTOON_MAX_COLORS && 10 * (best_count as u128) > len as u128 {
        ImageType::Cartoon
    } else {
        ImageType::Picture
    };
    let info = ImageInformation {
        brightness: Brightness { average: avg_b, min: min_b, max: max_b },
        grayscale_similarity: GrayScaleSimilarity { average: avg_g, min: min_g, max: max_g },
        color_map: ColorMap {
            most_present_color: dom,
            most_present_count: best_count,
            sample_count: len as u64,
            amount: distinct,
        },
        image_type: Some(image_type),
    };
    info
}

/// The classification has strict bounds: a sample is a cartoon exactly when
/// it has fewer than 2000 distinct colours and its dominant colour makes up
/// more than a tenth of it; 2000 colours, or a share of exactly a tenth,
/// make a picture.
pub proof fn lemma_classification_boundary(s: Seq<RgbColor>)
    requires
        s.len() <= u64::MAX,
    ensures
        ({
            let info = information_of(s);
            &&& info.image_type == Some(ImageType::Cartoon) <==> info.color_map.amount < 2000 && 10
                * info.color_map.most_present_count > info.color_map.sample_count
            &&& info.image_type == Some(ImageType::Cartoon) || info.image_type == Some(
                ImageType::Picture,
            )
        }),
{
    lemma_distinct_bound(s);
    if s.len() > 0 {
        lemma_dominant_index_bound(s, s.len() as int);
        lemma_occurrences_bound(s, s[dominant_index(s, s.len() as int)]);
    }
}

proof fn lemma_dominant_index_bound(s: Seq<RgbColor>, k: int)
    requires
        1 <= k,
    ensures
        0 <= dominant_index(s, k) < k,
    decreases k,
{
    if k > 1 {
        lemma_dominant_index_bound(s, k - 1);
    }
}

} // verus!
