//! Colours and the integer colour metrics that the filters are built on.

use vstd::prelude::*;

verus! {

/// Brightness of full white, in the units that `RgbColor::brightness` returns.
pub const FULL_BRIGHTNESS: u32 = 255000;

/// Scale of grayscale similarity: `calculate_grayscale_similarity` returns
/// millionths of the standard deviation of the normalized channels.
pub const GRAY_SCALE: u64 = 1000000;

/// An opaque 8-bit RGB colour.
#[derive(Clone, Copy, Debug, PartialEq, Eq, Structural)]
pub struct RgbColor {
    pub r: u8,
    pub g: u8,
    pub b: u8,
}

/// Perceptual brightness `0.299 r + 0.587 g + 0.114 b`, times 1000; full
/// white is `FULL_BRIGHTNESS`.
pub open spec fn brightness_of(c: RgbColor) -> int {
    299 * c.r + 587 * c.g + 114 * c.b
}

/// Nine times the sum of squared deviations of the channels from their mean.
pub open spec fn spread_of(c: RgbColor) -> int {
    let s = c.r + c.g + c.b;
    (3 * c.r - s) * (3 * c.r - s) + (3 * c.g - s) * (3 * c.g - s) + (3 * c.b - s) * (3 * c.b - s)
}

/// `q` is the integer square root of `n`.
pub open spec fn is_isqrt(n: int, q: int) -> bool {
    0 <= q && q * q <= n && n < (q + 1) * (q + 1)
}

/// The integer square root of a non-negative `n`.
pub open spec fn isqrt(n: int) -> int {
    choose|q: int| is_isqrt(n, q)
}

/// Standard deviation of the normalized channels, in millionths, rounded down:
/// `sd = sqrt(spread / (27 * 255^2))`.
pub open spec fn gray_similarity_of(c: RgbColor) -> int {
    isqrt(spread_of(c) * (GRAY_SCALE * GRAY_SCALE) / 1755675)
}

/// A channel lowered by `amount` brightness units (1000 per channel step),
/// rounded down and clamped at 0.
pub open spec fn darken_channel(v: u8, amount: int) -> int {
    if 1000 * v >= amount {
        (1000 * v - amount) / 1000
    } else {
        0
    }
}

pub open spec fn darkened(c: RgbColor, amount: int) -> RgbColor {
    RgbColor {
        r: darken_channel(c.r, amount) as u8,
        g: darken_channel(c.g, amount) as u8,
        b: darken_channel(c.b, amount) as u8,
    }
}

/// Squared Euclidean distance between two colours in RGB space.
pub open spec fn squared_distance(c: RgbColor, d: (u8, u8, u8)) -> int {
    (c.r - d.0) * (c.r - d.0) + (c.g - d.1) * (c.g - d.1) + (c.b - d.2) * (c.b - d.2)
}

pub proof fn lemma_isqrt_unique(n: int, q1: int, q2: int)
    requires
        is_isqrt(n, q1),
        is_isqrt(n, q2),
    ensures
        q1 == q2,
{
    if q1 < q2 {
        assert((q1 + 1) * (q1 + 1) <= q2 * q2) by (nonlinear_arith)
            requires
                0 <= q1 + 1 <= q2,
        ;
    } else if q2 < q1 {
        assert((q2 + 1) * (q2 + 1) <= q1 * q1) by (nonlinear_arith)
            requires
                0 <= q2 + 1 <= q1,
        ;
    }
}

pub proof fn lemma_isqrt_is(n: int, q: int)
    requires
        is_isqrt(n, q),
    ensures
        isqrt(n) == q,
{
    lemma_isqrt_unique(n, q, isqrt(n));
}

/// The integer square root of `n`, by bisection.
fn isqrt_u64(n: u64) -> (r: u64)
    requires
        n <= 1099511627776,
    ensures
        is_isqrt(n as int, r as int),
        r == isqrt(n as int),
{
    let mut lo: u64 = 0;
    let mut hi: u64 = 2097152;
    assert(hi * hi == 4398046511104) by (nonlinear_arith)
        requires
            hi == 2097152,
    ;
    while lo + 1 < hi
        invariant
            lo < hi <= 2097152,
            n <= 1099511627776,
            lo * lo <= n,
            n < hi * hi,
        decreases hi - lo,
    {
        let mid = lo + (hi - lo) / 2;
        assert(mid * mid <= 4398046511104) by (nonlinear_arith)
            requires
                mid < 2097152,
        ;
        if mid * mid <= n {
            lo = mid;
        } else {
            hi = mid;
        }
    }
    proof {
        lemma_isqrt_is(n as int, lo as int);
    }
    lo
}

impl RgbColor {
    pub fn new(r: u8, g: u8, b: u8) -> (c: RgbColor)
        ensures
            c == (RgbColor { r, g, b }),
    {
        RgbColor { r, g, b }
    }

    /// Perceptual brightness, in units of 1/`FULL_BRIGHTNESS` of full white.
    pub fn brightness(&self) -> (br: u32)
        ensures
            br == brightness_of(*self),
            br <= FULL_BRIGHTNESS,
    {
        299 * self.r as u32 + 587 * self.g as u32 + 114 * self.b as u32
    }

    /// Standard deviation of the three normalized channels, in millionths
    /// (rounded down); near 0 for an achromatic colour.
    pub fn calculate_grayscale_similarity(&self) -> (sd: u32)
        ensures
            sd == gray_similarity_of(*self),
            sd <= 700000,
    {
        let s: i64 = self.r as i64 + self.g as i64 + self.b as i64;
        let dr: i64 = 3 * self.r as i64 - s;
        let dg: i64 = 3 * self.g as i64 - s;
        let db: i64 = 3 * self.b as i64 - s;
        assert(0 <= dr * dr <= 260100 && 0 <= dg * dg <= 260100 && 0 <= db * db <= 260100) by (nonlinear_arith)
            requires
                -510 <= dr <= 510,
                -510 <= dg <= 510,
                -510 <= db <= 510,
        ;
        let spread: u64 = (dr * dr + dg * dg + db * db) as u64;
        assert(spread * 1000000000000 <= 780300000000000000) by (nonlinear_arith)
            requires
                spread <= 780300,
        ;
        let n: u64 = spread * 1000000000000 / 1755675;
        let q = isqrt_u64(n);
        assert(q <= 700000) by (nonlinear_arith)
            requires
                q * q <= n,
                n <= 444444444444,
                0 <= q,
        ;
        q as u32
    }

    /// Every channel lowered by `amount` brightness units and clamped at 0.
    pub fn darken_rgb(&self, amount: u32) -> (c: RgbColor)
        ensures
            c == darkened(*self, amount as int),
    {
        RgbColor {
            r: darken_u8(self.r, amount),
            g: darken_u8(self.g, amount),
            b: darken_u8(self.b, amount),
        }
    }

    /// The Euclidean RGB distance to `c2`, rounded down.
    pub fn color_distance(&self, c2: (u8, u8, u8)) -> (d: u32)
        ensures
            d == isqrt(squared_distance(*self, c2)),
            is_isqrt(squared_distance(*self, c2), d as int),
            d <= 442,
    {
        let d2 = squared_distance_u32(*self, c2);
        let q = isqrt_u64(d2 as u64);
        assert(q <= 442) by (nonlinear_arith)
            requires
                q * q <= d2,
                d2 <= 195075,
                0 <= q,
        ;
        q as u32
    }
}

fn darken_u8(v: u8, amount: u32) -> (r: u8)
    ensures
        r == darken_channel(v, amount as int),
{
    let scaled: u32 = 1000 * v as u32;
    if scaled >= amount {
        ((scaled - amount) / 1000) as u8
    } else {
        0
    }
}

/// Squared RGB distance, computed exactly.
pub fn squared_distance_u32(c: RgbColor, d: (u8, u8, u8)) -> (r: u32)
    ensures
        r == squared_distance(c, d),
        r <= 195075,
{
    let dr: i32 = c.r as i32 - d.0 as i32;
    let dg: i32 = c.g as i32 - d.1 as i32;
    let db: i32 = c.b as i32 - d.2 as i32;
    assert(0 <= dr * dr <= 65025 && 0 <= dg * dg <= 65025 && 0 <= db * db <= 65025) by (nonlinear_arith)
        requires
            -255 <= dr <= 255,
            -255 <= dg <= 255,
            -255 <= db <= 255,
    ;
    (dr * dr + dg * dg + db * db) as u32
}

} // verus!
