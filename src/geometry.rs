//! Mapping of feature rows to circles in screen space.
//!
//! Positions and radii are exact fractions: the mapping divides by the width
//! of the window and of the value ranges, and nothing is lost to rounding.
use vstd::prelude::*;
use crate::config::Config;
use crate::table::{FeatureRow, RangeStats};

verus! {

/// The output surface: its size, and the point of it that is subtracted from
/// every mapped position so that the consumer's origin can sit anywhere.
#[derive(Clone, Copy, Debug, PartialEq, Eq, Structural)]
pub struct Viewport {
    pub width: u32,
    pub height: u32,
    pub offset_x: i32,
    pub offset_y: i32,
}

impl Viewport {
    pub open spec fn wf(self) -> bool {
        self.width > 0 && self.height > 0
    }
}

/// The exact value `num / den`.
#[derive(Clone, Copy, Debug, PartialEq, Eq, Structural)]
pub struct Fraction {
    pub num: i128,
    pub den: u64,
}

impl Fraction {
    pub open spec fn wf(self) -> bool {
        self.den > 0
    }
}

/// `a / b < c / d` for positive `b` and `d`.
pub open spec fn frac_lt(a: int, b: int, c: int, d: int) -> bool {
    a * d < c * b
}

/// `a / b <= c / d` for positive `b` and `d`.
pub open spec fn frac_le(a: int, b: int, c: int, d: int) -> bool {
    a * d <= c * b
}

/// A circle to draw: its centre and its radius.
#[derive(Clone, Copy, Debug, PartialEq, Eq, Structural)]
pub struct DrawableCircle {
    pub x: Fraction,
    pub y: Fraction,
    pub radius: Fraction,
}

#[derive(Clone, Copy, Debug, PartialEq, Eq, Structural)]
pub enum MapError {
    /// The frequency or the loudness range of the statistics has no width.
    DegenerateRange,
}

// Horizontal position: the window `[elapsed - radius, elapsed + radius]` is
// stretched over `[0, width]`, then `offset_x` is subtracted:
// `(time - elapsed + radius) * width / (2 * radius) - offset_x`.
pub open spec fn x_num(time: int, elapsed: int, radius: int, vp: Viewport) -> int {
    (time - elapsed + radius) * vp.width - vp.offset_x * (2 * radius)
}

pub open spec fn x_den(radius: int) -> int {
    2 * radius
}

// Vertical position: `[min, max]` is laid over `[height, 0]`, so that higher
// frequencies are nearer the top, then `offset_y` is subtracted:
// `height - (frequency - min) * height / (max - min) - offset_y`.
// Without a range, every frequency sits halfway: `height / 2 - offset_y`.
pub open spec fn y_num(frequency: int, min: int, max: int, vp: Viewport) -> int {
    if max <= min {
        vp.height - 2 * vp.offset_y
    } else {
        (max - frequency) * vp.height - vp.offset_y * (max - min)
    }
}

pub open spec fn y_den(min: int, max: int) -> int {
    if max <= min {
        2
    } else {
        max - min
    }
}

// Radius: `max(1, (loudness - min) / (max - min) * 10) * 2.5`. Without a range,
// every loudness counts as halfway, which gives `12.5`.
pub open spec fn size_num(loudness: int, min: int, max: int) -> int {
    if max <= min {
        25
    } else if 10 * (loudness - min) <= max - min {
        5 * (max - min)
    } else {
        5 * (10 * (loudness - min))
    }
}

pub open spec fn size_den(min: int, max: int) -> int {
    if max <= min {
        2
    } else {
        2 * (max - min)
    }
}

/// Neither range of `stats` has any width.
pub open spec fn degenerate(stats: RangeStats) -> bool {
    stats.max_frequency <= stats.min_frequency || stats.max_loudness <= stats.min_loudness
}

/// `c` is the circle for `row` at `elapsed`, each axis without a range taken
/// at its midpoint.
pub open spec fn is_circle_of(c: DrawableCircle, row: FeatureRow, elapsed: int, stats: RangeStats, config: Config) -> bool {
    &&& c.x.num == x_num(row.time as int, elapsed, config.window_radius as int, config.viewport)
    &&& c.x.den == x_den(config.window_radius as int)
    &&& c.y.num == y_num(row.frequency as int, stats.min_frequency as int, stats.max_frequency as int, config.viewport)
    &&& c.y.den == y_den(stats.min_frequency as int, stats.max_frequency as int)
    &&& c.radius.num == size_num(row.loudness as int, stats.min_loudness as int, stats.max_loudness as int)
    &&& c.radius.den == size_den(stats.min_loudness as int, stats.max_loudness as int)
}

/// The horizontal position of a row at `time` when the clock reads `elapsed`.
pub fn time_to_x(time: u64, elapsed: u64, radius: u32, viewport: &Viewport) -> (r: Fraction)
    requires
        radius > 0,
    ensures
        r.wf(),
        r.num == x_num(time as int, elapsed as int, radius as int, *viewport),
        r.den == x_den(radius as int),
{
    let d: i128 = time as i128 - elapsed as i128 + radius as i128;
    let w: i128 = viewport.width as i128;
    let span: i128 = 2 * radius as i128;
    let o: i128 = viewport.offset_x as i128;
    proof {
        assert(-0x1_0000_0000_0000_0000 <= d <= 0x2_0000_0000_0000_0000);
        assert(0 <= w <= 0x1_0000_0000);
        assert(0 < span <= 0x2_0000_0000);
        assert(-0x8000_0000 <= o <= 0x8000_0000);
        lemma_mul_bound(d, w, 0x2_0000_0000_0000_0000, 0x1_0000_0000);
        lemma_mul_bound(o, span, 0x8000_0000, 0x2_0000_0000);
    }
    Fraction { num: d * w - o * span, den: span as u64 }
}

/// The vertical position of a row of frequency `frequency`, for the
/// frequency range `[min_frequency, max_frequency]`.
pub fn frequency_to_y(frequency: i32, min_frequency: i32, max_frequency: i32, viewport: &Viewport) -> (r: Fraction)
    ensures
        r.wf(),
        r.num == y_num(frequency as int, min_frequency as int, max_frequency as int, *viewport),
        r.den == y_den(min_frequency as int, max_frequency as int),
{
    let h: i128 = viewport.height as i128;
    let o: i128 = viewport.offset_y as i128;
    if max_frequency <= min_frequency {
        return Fraction { num: h - 2 * o, den: 2 };
    }
    let d: i128 = max_frequency as i128 - frequency as i128;
    let span: i128 = max_frequency as i128 - min_frequency as i128;
    proof {
        assert(-0x1_0000_0000 <= d <= 0x1_0000_0000);
        assert(0 < span <= 0x1_0000_0000);
        assert(0 <= h <= 0x1_0000_0000);
        assert(-0x8000_0000 <= o <= 0x8000_0000);
        lemma_mul_bound(d, h, 0x1_0000_0000, 0x1_0000_0000);
        lemma_mul_bound(o, span, 0x8000_0000, 0x1_0000_0000);
    }
    Fraction { num: d * h - o * span, den: span as u64 }
}

/// The radius of a row of loudness `loudness`, for the loudness range
/// `[min_loudness, max_loudness]`: never less than `2.5`.
pub fn loudness_to_size(loudness: i32, min_loudness: i32, max_loudness: i32) -> (r: Fraction)
    ensures
        r.wf(),
        r.num == size_num(loudness as int, min_loudness as int, max_loudness as int),
        r.den == size_den(min_loudness as int, max_loudness as int),
{
    if max_loudness <= min_loudness {
        return Fraction { num: 25, den: 2 };
    }
    let span: i128 = max_loudness as i128 - min_loudness as i128;
    let scaled: i128 = 10 * (loudness as i128 - min_loudness as i128);
    let num: i128 = if scaled <= span {
        5 * span
    } else {
        5 * scaled
    };
    Fraction { num, den: (2 * span) as u64 }
}

/// The circle for `row` when the clock reads `elapsed`, or an error where
/// either range of `stats` has no width.
pub fn map_row(row: &FeatureRow, elapsed: u64, stats: &RangeStats, config: &Config) -> (r: Result<DrawableCircle, MapError>)
    requires
        config.wf(),
    ensures
        degenerate(*stats) <==> r == Err::<DrawableCircle, MapError>(MapError::DegenerateRange),
        r is Ok ==> is_circle_of(r->Ok_0, *row, elapsed as int, *stats, *config),
{
    if stats.max_frequency <= stats.min_frequency || stats.max_loudness <= stats.min_loudness {
        return Err(MapError::DegenerateRange);
    }
    Ok(circle_of(row, elapsed, stats, config))
}

/// The circle for `row` when the clock reads `elapsed`; an axis whose range
/// has no width puts every row at its midpoint.
pub fn circle_of(row: &FeatureRow, elapsed: u64, stats: &RangeStats, config: &Config) -> (r: DrawableCircle)
    requires
        config.wf(),
    ensures
        is_circle_of(r, *row, elapsed as int, *stats, *config),
{
    DrawableCircle {
        x: time_to_x(row.time, elapsed, config.window_radius, &config.viewport),
        y: frequency_to_y(row.frequency, stats.min_frequency, stats.max_frequency, &config.viewport),
        radius: loudness_to_size(row.loudness, stats.min_loudness, stats.max_loudness),
    }
}

proof fn lemma_mul_bound(a: i128, b: i128, ba: int, bb: int)
    requires
        -ba <= a <= ba,
        0 <= b <= bb,
    ensures
        -(ba * bb) <= a * b <= ba * bb,
{
    assert(-(ba * bb) <= a * b <= ba * bb) by (nonlinear_arith)
        requires
            -ba <= a <= ba,
            0 <= b <= bb,
    ;
}

/// For a fixed clock, a later row is mapped strictly further right.
pub proof fn lemma_x_strictly_increasing(t1: int, t2: int, elapsed: int, radius: int, vp: Viewport)
    requires
        t1 < t2,
        radius > 0,
        vp.wf(),
    ensures
        frac_lt(x_num(t1, elapsed, radius, vp), x_den(radius), x_num(t2, elapsed, radius, vp), x_den(radius)),
{
    let d = x_den(radius);
    assert(x_num(t1, elapsed, radius, vp) < x_num(t2, elapsed, radius, vp)) by (nonlinear_arith)
        requires
            t1 < t2,
            vp.width > 0,
    ;
    assert(x_num(t1, elapsed, radius, vp) * d < x_num(t2, elapsed, radius, vp) * d) by (nonlinear_arith)
        requires
            x_num(t1, elapsed, radius, vp) < x_num(t2, elapsed, radius, vp),
            d > 0,
    ;
}

/// Whatever the loudness and its range, a radius is at least `2.5`.
pub proof fn lemma_size_floor(loudness: int, min: int, max: int)
    ensures
        size_den(min, max) > 0,
        frac_le(5, 2, size_num(loudness, min, max), size_den(min, max)),
{
}

} // verus!
