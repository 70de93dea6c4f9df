//! Curves generated into a controller lane, and the envelope that it draws.

use crate::cc_paint::{controller_y_for_value, height_of_value};
use crate::cc_points::{keep_outside, minted, points_outside, push_minted, CC_POINT_MERGE_EPS, CC_SPAN_SLACK};
use crate::fixed::{
    clamp_i64, clamp_to, lemma_nearest_bound, max_i64, max_of, min_of, nearest, nearest_div, on_axis, POSITION_LIMIT,
    PX, TICKS_PER_BEAT, VALUE_ONE,
};
use crate::grid::{snap_beat_to_step, snapped};
use crate::id_set::IdSet;
use crate::midi::{lemma_filter_step, MidiControllerPoint};
use crate::viewport::{zoom, ClipAxis, PIANO_ROLL_MIN_PPB};
use vstd::prelude::*;

verus! {

/// A generator offered by the controller lane's menu.
#[derive(Debug, Clone, Copy, PartialEq, Eq, Structural)]
pub enum CcCurveKind {
    Linear,
    EaseIn,
    EaseOut,
    EaseInOut,
    SCurve,
    Exponential,
    Logarithmic,
    Ramp,
    Flat,
    Triangle,
    Saw,
    Square,
    Random,
    Humanize,
}

/// How many generators there are.
pub const CC_CURVE_COUNT: usize = 14;

/// Half of full scale.
pub const VALUE_HALF: i64 = 500_000_000;

impl CcCurveKind {
    /// Place of the generator in the menu.
    pub open spec fn rank(self) -> int {
        match self {
            CcCurveKind::Linear => 0,
            CcCurveKind::EaseIn => 1,
            CcCurveKind::EaseOut => 2,
            CcCurveKind::EaseInOut => 3,
            CcCurveKind::SCurve => 4,
            CcCurveKind::Exponential => 5,
            CcCurveKind::Logarithmic => 6,
            CcCurveKind::Ramp => 7,
            CcCurveKind::Flat => 8,
            CcCurveKind::Triangle => 9,
            CcCurveKind::Saw => 10,
            CcCurveKind::Square => 11,
            CcCurveKind::Random => 12,
            CcCurveKind::Humanize => 13,
        }
    }

    /// Every generator, in menu order.
    pub fn all() -> (list: Vec<CcCurveKind>)
        ensures
            list@.len() == CC_CURVE_COUNT,
            forall|i: int| 0 <= i < list@.len() ==> (#[trigger] list@[i]).rank() == i,
    {
        vec![
            CcCurveKind::Linear,
            CcCurveKind::EaseIn,
            CcCurveKind::EaseOut,
            CcCurveKind::EaseInOut,
            CcCurveKind::SCurve,
            CcCurveKind::Exponential,
            CcCurveKind::Logarithmic,
            CcCurveKind::Ramp,
            CcCurveKind::Flat,
            CcCurveKind::Triangle,
            CcCurveKind::Saw,
            CcCurveKind::Square,
            CcCurveKind::Random,
            CcCurveKind::Humanize,
        ]
    }

    /// Text of the generator in the menu.
    pub open spec fn spec_label(self) -> Seq<char> {
        match self {
            CcCurveKind::Linear => "Linear"@,
            CcCurveKind::EaseIn => "Ease In"@,
            CcCurveKind::EaseOut => "Ease Out"@,
            CcCurveKind::EaseInOut => "Ease In Out"@,
            CcCurveKind::SCurve => "S Curve"@,
            CcCurveKind::Exponential => "Exponential"@,
            CcCurveKind::Logarithmic => "Logarithmic"@,
            CcCurveKind::Ramp => "Ramp"@,
            CcCurveKind::Flat => "Flat"@,
            CcCurveKind::Triangle => "Triangle"@,
            CcCurveKind::Saw => "Saw"@,
            CcCurveKind::Square => "Square"@,
            CcCurveKind::Random => "Random"@,
            CcCurveKind::Humanize => "Humanize"@,
        }
    }

    /// Text of the generator in the menu.
    pub fn label(self) -> (s: &'static str)
        ensures
            s@ == self.spec_label(),
    {
        match self {
            CcCurveKind::Linear => "Linear",
            CcCurveKind::EaseIn => "Ease In",
            CcCurveKind::EaseOut => "Ease Out",
            CcCurveKind::EaseInOut => "Ease In Out",
            CcCurveKind::SCurve => "S Curve",
            CcCurveKind::Exponential => "Exponential",
            CcCurveKind::Logarithmic => "Logarithmic",
            CcCurveKind::Ramp => "Ramp",
            CcCurveKind::Flat => "Flat",
            CcCurveKind::Triangle => "Triangle",
            CcCurveKind::Saw => "Saw",
            CcCurveKind::Square => "Square",
            CcCurveKind::Random => "Random",
            CcCurveKind::Humanize => "Humanize",
        }
    }

    /// The generator's shape is an exponential or a logarithm, which is computed
    /// outside.
    pub open spec fn transcendental(self) -> bool {
        self == CcCurveKind::Exponential || self == CcCurveKind::Logarithmic
    }

    /// `true` when the shape has to be computed outside.
    pub fn is_transcendental(self) -> (r: bool)
        ensures
            r == self.transcendental(),
    {
        matches!(self, CcCurveKind::Exponential | CcCurveKind::Logarithmic)
    }

    /// The generator runs from one value to another.
    pub open spec fn is_shaped(self) -> bool {
        self.rank() <= 7
    }

    /// Part of the way from one value to the other at time `t`. `outside` is the
    /// part that an exponential or logarithmic shape has reached.
    pub open spec fn progress(self, t: int, outside: int) -> int {
        let one = VALUE_ONE as int;
        match self {
            CcCurveKind::EaseIn => nearest(t * t, one),
            CcCurveKind::EaseOut => one - nearest((one - t) * (one - t), one),
            CcCurveKind::EaseInOut => if t < VALUE_HALF {
                nearest(2 * (t * t), one)
            } else {
                one - nearest(2 * ((one - t) * (one - t)), one)
            },
            CcCurveKind::SCurve => nearest(t * t * (3 * one - 2 * t), one * one),
            CcCurveKind::Exponential | CcCurveKind::Logarithmic => if t <= 0 {
                0
            } else {
                clamp_to(outside, 0, one)
            },
            _ => t,
        }
    }

    /// Value of the generator at time `t` of a span, for times outside the span
    /// that of its nearer end.
    pub open spec fn value_at(self, time: int, from: int, to: int, outside: int) -> int {
        let one = VALUE_ONE as int;
        let t = clamp_to(time, 0, one);
        let raw = match self {
            CcCurveKind::Flat => from,
            CcCurveKind::Triangle => if t < VALUE_HALF {
                2 * t
            } else {
                2 * one - 2 * t
            },
            CcCurveKind::Saw => t,
            CcCurveKind::Square => if t < VALUE_HALF {
                one
            } else {
                0
            },
            CcCurveKind::Random | CcCurveKind::Humanize => noise(t),
            _ => from + nearest((to - from) * self.progress(t, outside), one),
        };
        clamp_to(raw, 0, one)
    }

    fn progress_at(self, t: i64, outside: i64) -> (u: i64)
        requires
            0 <= t <= VALUE_ONE,
        ensures
            u == self.progress(t as int, outside as int),
            -1 <= u <= VALUE_ONE + 1,
    {
        let one: i128 = 1_000_000_000;
        let a: i128 = t as i128;
        let b: i128 = one - a;
        proof {
            assert(0 <= a * a <= 1_000_000_000 * a) by (nonlinear_arith)
                requires
                    0 <= a <= 1_000_000_000,
            ;
            assert(0 <= b * b <= 1_000_000_000 * b) by (nonlinear_arith)
                requires
                    0 <= b <= 1_000_000_000,
            ;
            assert(0 <= a * a * (3 * one - 2 * a) <= one * one * one) by (nonlinear_arith)
                requires
                    0 <= a <= one,
                    one == 1_000_000_000,
            {
                let c = one - a;
                assert(one * one * one - a * a * (3 * one - 2 * a) == c * c * (one + 2 * a)) by (nonlinear_arith)
                    requires
                        c == one - a,
                ;
                assert(c * c * (one + 2 * a) >= 0) by (nonlinear_arith)
                    requires
                        c >= 0,
                        one >= 0,
                        a >= 0,
                ;
                assert(a * a * (3 * one - 2 * a) >= 0) by (nonlinear_arith)
                    requires
                        0 <= a <= one,
                ;
            }
            lemma_nearest_bound(a * a, 1_000_000_000);
            lemma_nearest_bound(b * b, 1_000_000_000);
            lemma_nearest_bound(2 * (a * a), 1_000_000_000);
            lemma_nearest_bound(2 * (b * b), 1_000_000_000);
            lemma_nearest_bound(a * a * (3 * one - 2 * a), one * one);
            if a < 500_000_000 {
                assert(2 * (a * a) <= 1_000_000_000 * a) by (nonlinear_arith)
                    requires
                        0 <= a < 500_000_000,
                ;
            } else {
                assert(2 * (b * b) <= 1_000_000_000 * 1_000_000_000) by (nonlinear_arith)
                    requires
                        0 <= b <= 500_000_000,
                ;
            }
            let q = nearest(a * a * (3 * one - 2 * a), one * one);
            assert(0 <= q <= one) by (nonlinear_arith)
                requires
                    one == 1_000_000_000,
                    0 <= a * a * (3 * one - 2 * a) <= one * one * one,
                    -(one * one) <= 2 * (q * (one * one) - a * a * (3 * one - 2 * a)) <= one * one,
            ;
        }
        match self {
            CcCurveKind::EaseIn => nearest_div(a * a, one) as i64,
            CcCurveKind::EaseOut => 1_000_000_000 - nearest_div(b * b, one) as i64,
            CcCurveKind::EaseInOut => if t < VALUE_HALF {
                nearest_div(2 * (a * a), one) as i64
            } else {
                1_000_000_000 - nearest_div(2 * (b * b), one) as i64
            },
            CcCurveKind::SCurve => nearest_div(a * a * (3 * one - 2 * a), one * one) as i64,
            CcCurveKind::Exponential => if t <= 0 {
                0
            } else {
                clamp_i64(outside, 0, VALUE_ONE)
            },
            CcCurveKind::Logarithmic => if t <= 0 {
                0
            } else {
                clamp_i64(outside, 0, VALUE_ONE)
            },
            _ => t,
        }
    }

    /// Value of the generator at `time`, a part of the span in the units of a
    /// value. `outside` is the part of the way that an exponential or
    /// logarithmic shape has reached by then; the other shapes ignore it.
    pub fn sample(self, time: i64, from: i64, to: i64, outside: i64) -> (v: i64)
        ensures
            v == self.value_at(time as int, from as int, to as int, outside as int),
            0 <= v <= VALUE_ONE,
    {
        let t: i64 = clamp_i64(time, 0, VALUE_ONE);
        let raw: i128 = match self {
            CcCurveKind::Flat => from as i128,
            CcCurveKind::Triangle => if t < VALUE_HALF {
                2 * t as i128
            } else {
                2_000_000_000 - 2 * t as i128
            },
            CcCurveKind::Saw => t as i128,
            CcCurveKind::Square => if t < VALUE_HALF {
                1_000_000_000
            } else {
                0
            },
            CcCurveKind::Random => noise_at(t) as i128,
            CcCurveKind::Humanize => noise_at(t) as i128,
            _ => {
                let u: i64 = self.progress_at(t, outside);
                let d: i128 = to as i128 - from as i128;
                proof {
                    assert(-0x1_0000_0000_0000_0000 * 1_000_000_001 <= d * u <= 0x1_0000_0000_0000_0000 * 1_000_000_001)
                        by (nonlinear_arith)
                        requires
                            -0x1_0000_0000_0000_0000 <= d <= 0x1_0000_0000_0000_0000,
                            -1 <= u <= 1_000_000_001,
                    ;
                }
                let n: i128 = d * u as i128;
                let q: i128 = nearest_div(n, 1_000_000_000);
                proof {
                    lemma_nearest_bound(n as int, 1_000_000_000);
                }
                from as i128 + q
            },
        };
        if raw < 0 {
            0
        } else if raw > 1_000_000_000 {
            VALUE_ONE
        } else {
            raw as i64
        }
    }
}

/// A value that stands in for chance: one time always draws the same one.
pub open spec fn noise(t: int) -> int {
    let h = ((t / 100_000) as u32).wrapping_mul(2654435761u32);
    nearest(VALUE_ONE * (h >> 24u32), 255)
}

fn noise_at(t: i64) -> (v: i64)
    requires
        0 <= t <= VALUE_ONE,
    ensures
        v == noise(t as int),
        0 <= v <= VALUE_ONE,
{
    let bits: u32 = (t / 100_000) as u32;
    let h: u32 = bits.wrapping_mul(2654435761);
    let top: u32 = h >> 24u32;
    assert(top <= 255) by (bit_vector)
        requires
            top == h >> 24u32,
    ;
    let n: i128 = 1_000_000_000 * top as i128;
    let q: i128 = nearest_div(n, 255);
    proof {
        lemma_nearest_bound(n as int, 255);
        assert(VALUE_ONE * (h >> 24u32) == n);
    }
    q as i64
}

/// Shaped generators start at one value and end at the other: the exponential
/// and the logarithmic one where the part of the way computed outside is whole
/// by then.
pub proof fn law_curves_run_from_one_value_to_the_other(kind: CcCurveKind, from: int, to: int, outside: int)
    requires
        kind.is_shaped(),
        0 <= from <= VALUE_ONE,
        0 <= to <= VALUE_ONE,
    ensures
        kind.value_at(0, from, to, outside) == from,
        !kind.transcendental() ==> kind.value_at(VALUE_ONE as int, from, to, outside) == to,
        kind.transcendental() && outside == VALUE_ONE ==> kind.value_at(VALUE_ONE as int, from, to, outside) == to,
{
    let one = VALUE_ONE as int;
    crate::fixed::lemma_nearest_of_multiple(0, one);
    crate::fixed::lemma_nearest_of_multiple(one, one);
    crate::fixed::lemma_nearest_of_multiple(0, one * one);
    assert(one * (one * one) == one * one * (3 * one - 2 * one)) by (nonlinear_arith);
    crate::fixed::lemma_nearest_of_multiple(one, one * one);
    assert(0 * 0 * (3 * one - 2 * 0) == 0) by (nonlinear_arith);
    assert((one - one) * (one - one) == 0);
    assert((one - 0) * (one - 0) == one * one);
    assert(0 * one == 0);
    assert(0 * (one * one) == 0);
    assert((to - from) * 0 == 0 * one);
    assert(kind.progress(0, outside) == 0);
    if !kind.transcendental() || outside == VALUE_ONE {
        assert(kind.progress(one, outside) == one);
        crate::fixed::lemma_nearest_of_multiple(to - from, one);
    }
}

/// Whatever the time, the ends and the part computed outside are, a generator's
/// value lies on the scale, and a time outside the span has the value of the
/// span's nearer end.
pub proof fn law_curves_stay_on_the_scale(kind: CcCurveKind, time: int, from: int, to: int, outside: int)
    ensures
        0 <= kind.value_at(time, from, to, outside) <= VALUE_ONE,
        time <= 0 ==> kind.value_at(time, from, to, outside) == kind.value_at(0, from, to, outside),
        time >= VALUE_ONE ==> kind.value_at(time, from, to, outside) == kind.value_at(
            VALUE_ONE as int,
            from,
            to,
            outside,
        ),
{
}

/// The triangle, the saw and the square pay no heed to the ends.
pub proof fn law_oscillators_ignore_the_ends(
    kind: CcCurveKind,
    time: int,
    ends: (int, int),
    other_ends: (int, int),
    outside: int,
    other_outside: int,
)
    requires
        kind == CcCurveKind::Triangle || kind == CcCurveKind::Saw || kind == CcCurveKind::Square,
    ensures
        kind.value_at(time, ends.0, ends.1, outside) == kind.value_at(
            time,
            other_ends.0,
            other_ends.1,
            other_outside,
        ),
{
}

/// The triangle, the saw and the square each reach both ends of the scale
/// within the span.
pub proof fn law_oscillators_fill_the_scale(kind: CcCurveKind, from: int, to: int, outside: int)
    requires
        kind == CcCurveKind::Triangle || kind == CcCurveKind::Saw || kind == CcCurveKind::Square,
    ensures
        exists|low: int| 0 <= low <= VALUE_ONE && #[trigger] kind.value_at(low, from, to, outside) == 0,
        exists|high: int| 0 <= high <= VALUE_ONE && #[trigger] kind.value_at(high, from, to, outside) == VALUE_ONE,
{
    let one = VALUE_ONE as int;
    let low = if kind == CcCurveKind::Square {
        one
    } else {
        0
    };
    let high = if kind == CcCurveKind::Triangle {
        VALUE_HALF as int
    } else if kind == CcCurveKind::Saw {
        one
    } else {
        0
    };
    assert(kind.value_at(low, from, to, outside) == 0);
    assert(kind.value_at(high, from, to, outside) == VALUE_ONE);
}

/// The flat curve holds the first value; the saw rises evenly; the square is high
/// for the first half and low for the second; the triangle rises for the first
/// half and falls back the same way.
pub proof fn law_oscillators_have_their_shape(t: int, from: int, to: int, outside: int)
    requires
        0 <= t <= VALUE_ONE,
        0 <= from <= VALUE_ONE,
    ensures
        CcCurveKind::Flat.value_at(t, from, to, outside) == from,
        CcCurveKind::Saw.value_at(t, from, to, outside) == t,
        2 * t < VALUE_ONE ==> CcCurveKind::Square.value_at(t, from, to, outside) == VALUE_ONE,
        2 * t >= VALUE_ONE ==> CcCurveKind::Square.value_at(t, from, to, outside) == 0,
        2 * t <= VALUE_ONE ==> CcCurveKind::Triangle.value_at(t, from, to, outside) == 2 * t,
        CcCurveKind::Triangle.value_at(VALUE_ONE - t, from, to, outside) == CcCurveKind::Triangle.value_at(
            t,
            from,
            to,
            outside,
        ),
{
}

/// What stands in for chance is one value for a short while, and always the same.
pub proof fn law_random_values_hold_for_a_while(k: int, s: int, t: int, ends: (int, int), other_ends: (int, int))
    requires
        0 <= 100_000 * k <= s < 100_000 * (k + 1) <= VALUE_ONE,
        100_000 * k <= t < 100_000 * (k + 1),
    ensures
        CcCurveKind::Random.value_at(s, ends.0, ends.1, 0) == CcCurveKind::Random.value_at(
            t,
            other_ends.0,
            other_ends.1,
            0,
        ),
{
    crate::fixed::lemma_quotient_unique(s, 100_000, k, s - 100_000 * k);
    crate::fixed::lemma_quotient_unique(t, 100_000, k, t - 100_000 * k);
}

/// A straight curve is even; easing in starts slowly, by the square of the time;
/// easing out is easing in turned round; easing both ways goes slowly at both
/// ends and is half way at half the time.
pub proof fn law_curves_have_their_shape(t: int, outside: int)
    requires
        0 <= t <= VALUE_ONE,
    ensures
        ({
            let one = VALUE_ONE as int;
            let ease_in = CcCurveKind::EaseIn.progress(t, outside);
            let ease_out = CcCurveKind::EaseOut.progress(t, outside);
            let both = CcCurveKind::EaseInOut.progress(t, outside);
            &&& CcCurveKind::Linear.progress(t, outside) == t
            &&& CcCurveKind::Ramp.progress(t, outside) == t
            &&& -one <= 2 * (one * ease_in - t * t) <= one
            &&& 0 <= ease_in <= t
            &&& t <= ease_out <= one
            &&& ease_out == one - CcCurveKind::EaseIn.progress(one - t, outside)
            &&& 2 * t <= one ==> 0 <= both <= t
            &&& 2 * t >= one ==> t <= both <= one
            &&& 2 * t != one ==> CcCurveKind::EaseInOut.progress(one - t, outside) == one - both
        }),
{
    let one = VALUE_ONE as int;
    let b = one - t;
    lemma_ease(t);
    lemma_ease(b);
    assert(one - b == t);
    if 2 * t == one {
        crate::fixed::lemma_nearest_of_multiple(t, one);
        assert(b == 500_000_000 && t == 500_000_000);
        assert(b * b == 500_000_000int * 500_000_000int);
    }
}

proof fn lemma_ease(t: int)
    requires
        0 <= t <= VALUE_ONE,
    ensures
        ({
            let one = VALUE_ONE as int;
            &&& -one <= 2 * (one * nearest(t * t, one) - t * t) <= one
            &&& 0 <= nearest(t * t, one) <= t
            &&& 2 * t <= one ==> 0 <= nearest(2 * (t * t), one) <= t
        }),
{
    let one = VALUE_ONE as int;
    lemma_nearest_bound(t * t, one);
    lemma_nearest_bound(2 * (t * t), one);
    vstd::arithmetic::mul::lemma_mul_nonnegative(t, t);
    vstd::arithmetic::mul::lemma_mul_inequality(t, one, t);
    vstd::arithmetic::mul::lemma_mul_is_commutative(one, t);
    crate::fixed::lemma_nearest_monotone(t * t, t * one, one);
    crate::fixed::lemma_nearest_of_multiple(t, one);
    if 2 * t <= one {
        vstd::arithmetic::mul::lemma_mul_inequality(2 * t, one, t);
        vstd::arithmetic::mul::lemma_mul_is_associative(2, t, t);
        crate::fixed::lemma_nearest_monotone(2 * (t * t), t * one, one);
    }
}

/// A shaped curve has gone the part of the way between its two values that its
/// progress tells, to within rounding.
pub proof fn law_curves_go_by_their_progress(kind: CcCurveKind, t: int, from: int, to: int, outside: int)
    requires
        kind.is_shaped(),
        0 <= t <= VALUE_ONE,
        0 <= from <= VALUE_ONE,
        0 <= to <= VALUE_ONE,
        0 <= kind.progress(t, outside) <= VALUE_ONE,
    ensures
        -VALUE_ONE <= 2 * (VALUE_ONE * (kind.value_at(t, from, to, outside) - from) - (to - from) * kind.progress(
            t,
            outside,
        )) <= VALUE_ONE,
{
    let one = VALUE_ONE as int;
    let p = kind.progress(t, outside);
    let n = (to - from) * p;
    lemma_nearest_bound(n, one);
    crate::fixed::lemma_nearest_of_multiple(to - from, one);
    crate::fixed::lemma_nearest_of_multiple(0, one);
    if to >= from {
        vstd::arithmetic::mul::lemma_mul_upper_bound(to - from, to - from, p, one);
        vstd::arithmetic::mul::lemma_mul_nonnegative(to - from, p);
        crate::fixed::lemma_nearest_monotone(n, (to - from) * one, one);
    } else {
        vstd::arithmetic::mul::lemma_mul_upper_bound(from - to, from - to, p, one);
        vstd::arithmetic::mul::lemma_mul_nonnegative(from - to, p);
        vstd::arithmetic::mul::lemma_mul_unary_negation(from - to, p);
        vstd::arithmetic::mul::lemma_mul_unary_negation(from - to, one);
        crate::fixed::lemma_nearest_monotone((to - from) * one, n, one);
    }
}

/// Place of the earliest point; of several, the first.
pub open spec fn earliest(points: Seq<MidiControllerPoint>) -> int
    decreases points.len(),
{
    if points.len() <= 1 {
        0
    } else {
        let e = earliest(points.drop_last());
        if points.last().beat < points[e].beat {
            points.len() - 1
        } else {
            e
        }
    }
}

/// Place of the latest point; of several, the last.
pub open spec fn latest(points: Seq<MidiControllerPoint>) -> int
    decreases points.len(),
{
    if points.len() <= 1 {
        0
    } else {
        let l = latest(points.drop_last());
        if points.last().beat >= points[l].beat {
            points.len() - 1
        } else {
            l
        }
    }
}

fn find_ends(points: &Vec<MidiControllerPoint>) -> (r: (usize, usize))
    requires
        points@.len() > 0,
    ensures
        r.0 == earliest(points@),
        r.1 == latest(points@),
        r.0 < points@.len(),
        r.1 < points@.len(),
{
    let mut e: usize = 0;
    let mut l: usize = 0;
    let mut i: usize = 1;
    while i < points.len()
        invariant
            1 <= i <= points@.len(),
            e == earliest(points@.subrange(0, i as int)),
            l == latest(points@.subrange(0, i as int)),
            e < i,
            l < i,
        decreases points@.len() - i,
    {
        assert(points@.subrange(0, i + 1).drop_last() =~= points@.subrange(0, i as int));
        if points[i].beat < points[e].beat {
            e = i;
        }
        if points[i].beat >= points[l].beat {
            l = i;
        }
        i = i + 1;
    }
    assert(points@.subrange(0, points@.len() as int) =~= points@);
    (e, l)
}

/// Span and end values of a curve.
#[derive(Debug, Clone, Copy, PartialEq, Eq, Structural)]
pub struct CurveSpan {
    pub lo: i64,
    pub hi: i64,
    pub from: i64,
    pub to: i64,
}

/// Points lie on the axis and inside the value range.
pub open spec fn valid_points(points: Seq<MidiControllerPoint>) -> bool {
    forall|i: int|
        0 <= i < points.len() ==> 0 <= (#[trigger] points[i]).beat <= POSITION_LIMIT && 0 <= points[i].value
            <= VALUE_ONE
}

/// Step of a curve on a grid.
pub open spec fn curve_step(grid_step: int) -> int {
    max_of(grid_step, CC_POINT_MERGE_EPS as int)
}

/// Where a curve goes: between the selected points; a bar from a single one, to
/// the opposite value; else a bar from the click.
pub open spec fn span_for(selected: Seq<MidiControllerPoint>, click_beat: int, snap_step: int, step: int) -> (
    int,
    int,
    int,
    int,
) {
    if selected.len() >= 2 {
        let a = selected[earliest(selected)];
        let b = selected[latest(selected)];
        (a.beat as int, max_of(max_of(b.beat as int, 0), a.beat + step), a.value as int, b.value as int)
    } else if selected.len() == 1 {
        let p = selected[0];
        (p.beat as int, p.beat + 4 * TICKS_PER_BEAT, p.value as int, VALUE_ONE - p.value)
    } else {
        let start = snapped(max_of(click_beat, 0), snap_step);
        (start, start + 4 * TICKS_PER_BEAT, 0, VALUE_ONE as int)
    }
}

/// Where a curve goes, given the selected points and the clicked beat.
pub fn cc_curve_span(selected: &Vec<MidiControllerPoint>, click_beat: i64, snap_step: i64, step: i64) -> (r: CurveSpan)
    requires
        valid_points(selected@),
        on_axis(click_beat as int),
        0 <= snap_step <= 4 * TICKS_PER_BEAT,
        CC_POINT_MERGE_EPS <= step <= 4 * TICKS_PER_BEAT,
    ensures
        (r.lo as int, r.hi as int, r.from as int, r.to as int) == span_for(
            selected@,
            click_beat as int,
            snap_step as int,
            step as int,
        ),
        0 <= r.lo < r.hi <= 2 * POSITION_LIMIT,
        0 <= r.from <= VALUE_ONE,
        0 <= r.to <= VALUE_ONE,
{
    if selected.len() >= 2 {
        let (e, l) = find_ends(selected);
        let a = selected[e];
        let b = selected[l];
        assert(valid_points(selected@));
        assert(0 <= selected@[e as int].beat <= POSITION_LIMIT);
        assert(0 <= selected@[l as int].beat <= POSITION_LIMIT);
        CurveSpan { lo: a.beat, hi: max_i64(max_i64(b.beat, 0), a.beat + step), from: a.value, to: b.value }
    } else if selected.len() == 1 {
        let p = selected[0];
        assert(0 <= selected@[0].beat <= POSITION_LIMIT);
        CurveSpan { lo: p.beat, hi: p.beat + 3_840_000, from: p.value, to: VALUE_ONE - p.value }
    } else {
        let start: i64 = snap_beat_to_step(max_i64(click_beat, 0), snap_step);
        proof {
            if snap_step > 0 {
                lemma_nearest_bound(max_of(click_beat as int, 0), snap_step as int);
            }
        }
        CurveSpan { lo: start, hi: start + 3_840_000, from: 0, to: VALUE_ONE }
    }
}

/// Several selected points are spanned from the earliest to the latest, at least
/// a step, with their values.
pub proof fn law_curve_spans_the_selection(
    selected: Seq<MidiControllerPoint>,
    click_beat: int,
    snap_step: int,
    step: int,
    k: int,
)
    requires
        valid_points(selected),
        selected.len() >= 2,
        step > 0,
        0 <= k < selected.len(),
    ensures
        ({
            let (lo, hi, from, to) = span_for(selected, click_beat, snap_step, step);
            let first = selected[earliest(selected)];
            let last = selected[latest(selected)];
            &&& selected.contains(first) && selected.contains(last)
            &&& first.beat <= selected[k].beat <= last.beat
            &&& (lo, from) == (first.beat as int, first.value as int)
            &&& to == last.value
            &&& hi == last.beat || (last.beat < lo + step && hi == lo + step)
        }),
{
    lemma_ends_bound(selected);
    assert(0 <= selected[latest(selected)].beat);
}

/// A single selected point begins a bar that ends at the opposite value; with none
/// a bar runs over the whole scale from the grid line nearest to the click.
pub proof fn law_curve_spans_a_bar(selected: Seq<MidiControllerPoint>, click_beat: int, snap_step: int, step: int)
    requires
        selected.len() < 2,
        click_beat >= 0,
    ensures
        ({
            let (lo, hi, from, to) = span_for(selected, click_beat, snap_step, step);
            &&& hi - lo == 4 * TICKS_PER_BEAT
            &&& selected.len() == 1 ==> lo == selected[0].beat && from == selected[0].value && from + to == VALUE_ONE
            &&& selected.len() == 0 ==> from == 0 && to == VALUE_ONE
            &&& selected.len() == 0 && snap_step > 0 ==> -snap_step <= 2 * (lo - click_beat) <= snap_step && lo
                % snap_step == 0
            &&& selected.len() == 0 && snap_step <= 0 ==> lo == click_beat
        }),
{
    if snap_step > 0 {
        let k = nearest(click_beat, snap_step);
        lemma_nearest_bound(click_beat, snap_step);
        vstd::arithmetic::mul::lemma_mul_nonnegative(k, snap_step);
        vstd::arithmetic::div_mod::lemma_mod_multiples_basic(k, snap_step);
    }
}

proof fn lemma_ends_bound(points: Seq<MidiControllerPoint>)
    requires
        points.len() > 0,
    ensures
        0 <= earliest(points) < points.len(),
        0 <= latest(points) < points.len(),
        forall|k: int|
            0 <= k < points.len() ==> points[earliest(points)].beat <= (#[trigger] points[k]).beat
                <= points[latest(points)].beat,
    decreases points.len(),
{
    if points.len() > 1 {
        let front = points.drop_last();
        lemma_ends_bound(front);
        let e = earliest(front);
        let l = latest(front);
        assert(front[e] == points[e] && front[l] == points[l]);
        assert forall|k: int| 0 <= k < points.len() implies points[earliest(points)].beat <= (#[trigger] points[k]).beat
            <= points[latest(points)].beat by {
            if k < front.len() {
                assert(front[k] == points[k]);
            }
        }
    }
}

impl CurveSpan {
    /// The span is not empty, and its values are in range.
    pub open spec fn valid(self) -> bool {
        0 <= self.lo < self.hi <= 2 * POSITION_LIMIT && 0 <= self.from <= VALUE_ONE && 0 <= self.to <= VALUE_ONE
    }

    /// Length that the curve is spread over.
    pub open spec fn length(self, step: int) -> int {
        max_of(self.hi - self.lo, step)
    }

    /// Index of the last generated point.
    pub open spec fn count(self, step: int) -> int {
        max_of(nearest(self.length(step), step), 1)
    }

    /// Beat of the `i`-th generated point.
    pub open spec fn beat_of(self, i: int, step: int) -> int {
        min_of(self.lo + step * i, self.hi as int)
    }

    /// Time of the `i`-th generated point as a part of the span.
    pub open spec fn time_of(self, i: int, step: int) -> int {
        nearest((self.beat_of(i, step) - self.lo) * VALUE_ONE, self.length(step))
    }

    fn last_index(&self, step: i64) -> (n: i64)
        requires
            self.valid(),
            CC_POINT_MERGE_EPS <= step <= 4 * TICKS_PER_BEAT,
        ensures
            n == self.count(step as int),
            1 <= n <= 0x10_0000_0000_0000,
    {
        let span: i64 = max_i64(self.hi - self.lo, step);
        let q: i128 = nearest_div(span as i128, step as i128);
        proof {
            lemma_nearest_bound(span as int, step as int);
            assert(0 <= q <= 0x10_0000_0000_0000) by (nonlinear_arith)
                requires
                    step >= 1,
                    q >= 0,
                    -step <= 2 * (q * step - span) <= step,
                    0 <= span <= 2 * 70_368_744_177_664,
            ;
        }
        max_i64(q as i64, 1)
    }

    fn point_at(&self, i: i64, step: i64) -> (r: (i64, i64))
        requires
            self.valid(),
            CC_POINT_MERGE_EPS <= step <= 4 * TICKS_PER_BEAT,
            0 <= i <= 0x10_0000_0000_0000,
        ensures
            r.0 == self.beat_of(i as int, step as int),
            r.1 == self.time_of(i as int, step as int),
            self.lo <= r.0 <= self.hi,
            0 <= r.1 <= VALUE_ONE,
    {
        proof {
            assert(0 <= step * i <= 3_840_000 * 0x10_0000_0000_0000) by (nonlinear_arith)
                requires
                    0 <= step <= 3_840_000,
                    0 <= i <= 0x10_0000_0000_0000,
            ;
        }
        let b: i128 = self.lo as i128 + step as i128 * i as i128;
        let beat: i64 = if b <= self.hi as i128 {
            b as i64
        } else {
            self.hi
        };
        let span: i64 = max_i64(self.hi - self.lo, step);
        let n: i128 = (beat as i128 - self.lo as i128) * 1_000_000_000;
        let q: i128 = nearest_div(n, span as i128);
        proof {
            let d = beat - self.lo;
            lemma_nearest_bound(n as int, span as int);
            assert(0 <= q <= 1_000_000_000) by (nonlinear_arith)
                requires
                    span >= 1,
                    0 <= d <= span,
                    n == d * 1_000_000_000,
                    -span <= 2 * (q * span - n) <= span,
            ;
        }
        (beat, q as i64)
    }

    /// Times of the generated points, for the shapes that are computed outside.
    pub fn times(&self, step: i64) -> (out: Vec<i64>)
        requires
            self.valid(),
            CC_POINT_MERGE_EPS <= step <= 4 * TICKS_PER_BEAT,
        ensures
            out@.len() == self.count(step as int) + 1,
            forall|i: int| 0 <= i < out@.len() ==> #[trigger] out@[i] == self.time_of(i, step as int),
    {
        let count: i64 = self.last_index(step);
        let mut out: Vec<i64> = Vec::new();
        let mut i: i64 = 0;
        while i <= count
            invariant
                self.valid(),
                CC_POINT_MERGE_EPS <= step <= 4 * TICKS_PER_BEAT,
                count == self.count(step as int),
                1 <= count <= 0x10_0000_0000_0000,
                0 <= i <= count + 1,
                out@.len() == i,
                forall|k: int| 0 <= k < i ==> #[trigger] out@[k] == self.time_of(k, step as int),
            decreases count + 1 - i,
        {
            out.push(self.point_at(i, step).1);
            i = i + 1;
        }
        out
    }

    /// Beats and values of the generated points. `outside` holds the progress of
    /// an exponential or logarithmic shape at each time.
    pub fn generate(&self, kind: CcCurveKind, step: i64, outside: &Vec<i64>) -> (out: Vec<(i64, i64)>)
        requires
            self.valid(),
            CC_POINT_MERGE_EPS <= step <= 4 * TICKS_PER_BEAT,
        ensures
            out@.len() == self.count(step as int) + 1,
            forall|i: int|
                0 <= i < out@.len() ==> (#[trigger] out@[i]).0 == self.beat_of(i, step as int) && out@[i].1
                    == kind.value_at(
                    self.time_of(i, step as int),
                    self.from as int,
                    self.to as int,
                    if i < outside@.len() {
                        outside@[i] as int
                    } else {
                        0
                    },
                ),
    {
        let count: i64 = self.last_index(step);
        let mut out: Vec<(i64, i64)> = Vec::new();
        let mut i: i64 = 0;
        while i <= count
            invariant
                self.valid(),
                CC_POINT_MERGE_EPS <= step <= 4 * TICKS_PER_BEAT,
                count == self.count(step as int),
                1 <= count <= 0x10_0000_0000_0000,
                0 <= i <= count + 1,
                out@.len() == i,
                forall|k: int|
                    0 <= k < i ==> (#[trigger] out@[k]).0 == self.beat_of(k, step as int) && out@[k].1
                        == kind.value_at(
                        self.time_of(k, step as int),
                        self.from as int,
                        self.to as int,
                        if k < outside@.len() {
                            outside@[k] as int
                        } else {
                            0
                        },
                    ),
            decreases count + 1 - i,
        {
            let n: usize = out.len();
            let (beat, time) = self.point_at(i, step);
            let shape: i64 = if n < outside.len() {
                outside[n]
            } else {
                0
            };
            out.push((beat, kind.sample(time, self.from, self.to, shape)));
            i = i + 1;
        }
        out
    }
}

/// A value shaken by up to six hundredths of full scale, by the time within its
/// beat.
pub open spec fn humanized(p: MidiControllerPoint) -> (i64, i64) {
    let t = nearest((p.beat as int % TICKS_PER_BEAT as int) * VALUE_ONE, TICKS_PER_BEAT as int);
    let jitter = nearest((noise(clamp_to(t, 0, VALUE_ONE as int)) - VALUE_HALF) * 12, 100);
    (p.beat, clamp_to(p.value + jitter, 0, VALUE_ONE as int) as i64)
}

fn humanize_point(p: MidiControllerPoint) -> (r: (i64, i64))
    requires
        0 <= p.beat,
        0 <= p.value <= VALUE_ONE,
    ensures
        r == humanized(p),
{
    let rest: i64 = p.beat % TICKS_PER_BEAT;
    let n: i128 = rest as i128 * 1_000_000_000;
    let q: i128 = nearest_div(n, 960_000);
    proof {
        lemma_nearest_bound(n as int, 960_000);
    }
    let h: i64 = CcCurveKind::Humanize.sample(q as i64, 0, VALUE_ONE, 0);
    proof {
        let t = clamp_to(q as int, 0, VALUE_ONE as int);
        lemma_noise_in_range(t);
    }
    let m: i128 = (h as i128 - 500_000_000) * 12;
    let j: i128 = nearest_div(m, 100);
    proof {
        lemma_nearest_bound(m as int, 100);
    }
    (p.beat, clamp_i64(p.value + j as i64, 0, VALUE_ONE))
}

proof fn lemma_noise_in_range(t: int)
    ensures
        0 <= noise(t) <= VALUE_ONE,
{
    let h = ((t / 100_000) as u32).wrapping_mul(2654435761u32);
    let top = h >> 24u32;
    assert(top <= 255) by (bit_vector)
        requires
            top == h >> 24u32,
    ;
    let n = VALUE_ONE * top;
    lemma_nearest_bound(n, 255);
}

/// Points on a span, widened by the slack.
pub open spec fn points_inside(points: Seq<MidiControllerPoint>, lo: int, hi: int) -> Seq<MidiControllerPoint> {
    points.filter(|p: MidiControllerPoint| lo - CC_SPAN_SLACK <= p.beat <= hi + CC_SPAN_SLACK)
}

/// The shaken values of the points on a span.
pub fn humanize_edits(existing: &Vec<MidiControllerPoint>, lo: i64, hi: i64) -> (out: Vec<(i64, i64)>)
    requires
        valid_points(existing@),
    ensures
        out@ == points_inside(existing@, lo as int, hi as int).map_values(|p: MidiControllerPoint| humanized(p)),
{
    let mut out: Vec<(i64, i64)> = Vec::new();
    let mut i: usize = 0;
    let ghost p = |p: MidiControllerPoint| lo - CC_SPAN_SLACK <= p.beat <= hi + CC_SPAN_SLACK;
    let ghost f = |p: MidiControllerPoint| humanized(p);
    proof {
        reveal(Seq::filter);
        assert(existing@.subrange(0, 0).filter(p).map_values(f) =~= Seq::<(i64, i64)>::empty());
    }
    while i < existing.len()
        invariant
            valid_points(existing@),
            i <= existing@.len(),
            p == (|p: MidiControllerPoint| lo - CC_SPAN_SLACK <= p.beat <= hi + CC_SPAN_SLACK),
            f == (|p: MidiControllerPoint| humanized(p)),
            out@ == existing@.subrange(0, i as int).filter(p).map_values(f),
        decreases existing@.len() - i,
    {
        proof {
            lemma_filter_step(existing@, i as int, p);
        }
        let point = existing[i];
        assert(0 <= existing@[i as int].beat <= POSITION_LIMIT);
        let b: i128 = point.beat as i128;
        if lo as i128 - 96 <= b && b <= hi as i128 + 96 {
            out.push(humanize_point(point));
            assert(p(point));
            assert(out@ =~= existing@.subrange(0, i + 1).filter(p).map_values(f));
        }
        i = i + 1;
    }
    assert(existing@.subrange(0, existing@.len() as int) =~= existing@);
    out
}

/// The lane with the points of a span replaced by `edits`.
pub open spec fn with_span_replaced(
    existing: Seq<MidiControllerPoint>,
    lo: int,
    hi: int,
    edits: Seq<(i64, i64)>,
    next_id: u64,
) -> Seq<MidiControllerPoint> {
    points_outside(existing, lo, hi, CC_SPAN_SLACK as int) + minted(edits, next_id)
}

/// The points that a curve lays over a span. Humanizing keeps the points that
/// are there and shakes their values.
pub open spec fn curve_edits(
    existing: Seq<MidiControllerPoint>,
    kind: CcCurveKind,
    span: CurveSpan,
    step: int,
    outside: Seq<i64>,
) -> Seq<(i64, i64)> {
    if kind == CcCurveKind::Humanize {
        points_inside(existing, span.lo as int, span.hi as int).map_values(|p: MidiControllerPoint| humanized(p))
    } else {
        Seq::new(
            (span.count(step) + 1) as nat,
            |i: int|
                (
                    span.beat_of(i, step) as i64,
                    kind.value_at(
                        span.time_of(i, step),
                        span.from as int,
                        span.to as int,
                        if i < outside.len() {
                            outside[i] as int
                        } else {
                            0
                        },
                    ) as i64,
                ),
        )
    }
}

/// A generated curve: the lane with its span replaced, and how many points are
/// new, with ids from `next_id` on. Humanizing shakes the points that are there;
/// the other generators lay new ones, a grid step apart.
pub fn apply_cc_curve(
    existing: &Vec<MidiControllerPoint>,
    kind: CcCurveKind,
    span: CurveSpan,
    step: i64,
    outside: &Vec<i64>,
    next_id: u64,
) -> (r: (Vec<MidiControllerPoint>, u64))
    requires
        valid_points(existing@),
        span.valid(),
        CC_POINT_MERGE_EPS <= step <= 4 * TICKS_PER_BEAT,
        next_id + existing@.len() + span.count(step as int) + 1 <= u64::MAX,
    ensures
        r.0@ == with_span_replaced(
            existing@,
            span.lo as int,
            span.hi as int,
            curve_edits(existing@, kind, span, step as int, outside@),
            next_id,
        ),
        r.1 == curve_edits(existing@, kind, span, step as int, outside@).len(),
{
    let mut points = keep_outside(existing, span.lo, span.hi, CC_SPAN_SLACK);
    if kind == CcCurveKind::Humanize {
        let edits = humanize_edits(existing, span.lo, span.hi);
        proof {
            let q = |p: MidiControllerPoint| span.lo - CC_SPAN_SLACK <= p.beat <= span.hi + CC_SPAN_SLACK;
            existing@.lemma_filter_len(q);
        }
        push_minted(&mut points, &edits, next_id);
        (points, edits.len() as u64)
    } else {
        let edits = span.generate(kind, step, outside);
        assert(edits@ =~= curve_edits(existing@, kind, span, step as int, outside@));
        push_minted(&mut points, &edits, next_id);
        (points, edits.len() as u64)
    }
}

/// A curve replaces only its own span: every point further than the slack from it
/// stays as it is.
pub proof fn law_points_outside_the_span_stay(
    existing: Seq<MidiControllerPoint>,
    lo: int,
    hi: int,
    edits: Seq<(i64, i64)>,
    next_id: u64,
    p: MidiControllerPoint,
)
    requires
        existing.contains(p),
        p.beat < lo - CC_SPAN_SLACK || p.beat > hi + CC_SPAN_SLACK,
    ensures
        with_span_replaced(existing, lo, hi, edits, next_id).contains(p),
        10_000 * CC_SPAN_SLACK == TICKS_PER_BEAT,
{
    crate::cc_points::lemma_outside_is_kept(existing, lo, hi, CC_SPAN_SLACK as int, p);
    let kept = points_outside(existing, lo, hi, CC_SPAN_SLACK as int);
    let k = choose|k: int| 0 <= k < kept.len() && kept[k] == p;
    assert(with_span_replaced(existing, lo, hi, edits, next_id)[k] == p);
}

/// Inside its span a curve leaves only what it lays: no older point stays there,
/// and every laid point is there, under an id of its own.
pub proof fn law_the_span_holds_what_was_laid(
    existing: Seq<MidiControllerPoint>,
    lo: int,
    hi: int,
    edits: Seq<(i64, i64)>,
    next_id: u64,
)
    requires
        next_id + edits.len() <= u64::MAX,
        forall|i: int| 0 <= i < existing.len() ==> (#[trigger] existing[i]).id < next_id,
    ensures
        ({
            let out = with_span_replaced(existing, lo, hi, edits, next_id);
            &&& forall|i: int|
                0 <= i < existing.len() && lo - CC_SPAN_SLACK <= (#[trigger] existing[i]).beat <= hi + CC_SPAN_SLACK
                    ==> !out.contains(existing[i])
            &&& forall|k: int|
                0 <= k < edits.len() ==> out.contains(
                    MidiControllerPoint { id: (next_id + k) as u64, beat: (#[trigger] edits[k]).0, value: edits[k].1 },
                )
            &&& forall|j: int|
                0 <= j < out.len() ==> (#[trigger] out[j]).id >= next_id || (existing.contains(out[j]) && (out[j].beat
                    < lo - CC_SPAN_SLACK || out[j].beat > hi + CC_SPAN_SLACK))
        }),
{
    let kept = points_outside(existing, lo, hi, CC_SPAN_SLACK as int);
    let laid = minted(edits, next_id);
    let out = with_span_replaced(existing, lo, hi, edits, next_id);
    assert forall|j: int| 0 <= j < kept.len() implies existing.contains(#[trigger] kept[j]) && (kept[j].beat < lo
        - CC_SPAN_SLACK || kept[j].beat > hi + CC_SPAN_SLACK) by {
        assert(kept.contains(kept[j]));
        crate::cc_points::lemma_kept_point(existing, lo, hi, CC_SPAN_SLACK as int, kept[j]);
    }
    assert forall|j: int| 0 <= j < out.len() implies (#[trigger] out[j]).id >= next_id || (existing.contains(out[j]) && (
    out[j].beat < lo - CC_SPAN_SLACK || out[j].beat > hi + CC_SPAN_SLACK)) by {
        if j < kept.len() {
            assert(out[j] == kept[j]);
        } else {
            assert(out[j] == laid[j - kept.len()]);
        }
    }
    assert forall|k: int| 0 <= k < edits.len() implies out.contains(
        MidiControllerPoint { id: (next_id + k) as u64, beat: (#[trigger] edits[k]).0, value: edits[k].1 },
    ) by {
        assert(out[kept.len() + k] == laid[k]);
    }
    assert forall|i: int|
        0 <= i < existing.len() && lo - CC_SPAN_SLACK <= (#[trigger] existing[i]).beat <= hi
            + CC_SPAN_SLACK implies !out.contains(existing[i]) by {
        if out.contains(existing[i]) {
            let j = choose|j: int| 0 <= j < out.len() && out[j] == existing[i];
            assert(out[j].id < next_id);
        }
    }
}

/// A generated curve starts at the start of its span, lays a point every step and
/// stays in the span; its last point is the end of the span, or less than a step
/// before it.
pub proof fn law_curve_lays_a_point_every_step(
    existing: Seq<MidiControllerPoint>,
    kind: CcCurveKind,
    span: CurveSpan,
    step: int,
    outside: Seq<i64>,
    i: int,
)
    requires
        kind != CcCurveKind::Humanize,
        span.valid(),
        0 < step <= 4 * TICKS_PER_BEAT,
        0 <= i < curve_edits(existing, kind, span, step, outside).len(),
    ensures
        ({
            let edits = curve_edits(existing, kind, span, step, outside);
            &&& edits.len() >= 2
            &&& edits[0].0 == span.lo
            &&& span.lo <= edits[i].0 <= span.hi
            &&& span.lo + step * i <= span.hi ==> edits[i].0 == span.lo + step * i
            &&& span.lo + step * i > span.hi ==> edits[i].0 == span.hi
            &&& span.hi - edits.last().0 < step
            &&& edits.len() >= 3 ==> 2 * (span.lo + step * (edits.len() - 1) - span.hi) <= step
        }),
{
    let edits = curve_edits(existing, kind, span, step, outside);
    let n = span.count(step);
    let len = span.length(step);
    lemma_nearest_bound(len, step);
    let q = nearest(len, step);
    vstd::arithmetic::mul::lemma_mul_is_commutative(q, step);
    vstd::arithmetic::mul::lemma_mul_nonnegative(step, i);
    vstd::arithmetic::mul::lemma_mul_basics(step);
    crate::fixed::lemma_nearest_of_multiple(1, step);
    assert(edits[i].0 == span.beat_of(i, step));
    assert(edits[0].0 == span.beat_of(0, step));
    assert(edits[n].0 == span.beat_of(n, step));
    assert(edits.len() - 1 == n);
    if q <= 0 {
        vstd::arithmetic::mul::lemma_mul_nonnegative(-q, step);
        vstd::arithmetic::mul::lemma_mul_unary_negation(q, step);
        assert(false);
    }
    assert(n == q);
    assert(edits.last() == edits[n]);
    assert(step * (edits.len() - 1) == step * n);
}

/// Humanizing leaves every point of the span at its beat and shakes its value by
/// at most six hundredths of the scale.
pub proof fn law_humanize_keeps_the_beats(
    existing: Seq<MidiControllerPoint>,
    span: CurveSpan,
    step: int,
    outside: Seq<i64>,
    i: int,
)
    requires
        valid_points(existing),
        0 <= i < curve_edits(existing, CcCurveKind::Humanize, span, step, outside).len(),
    ensures
        ({
            let edits = curve_edits(existing, CcCurveKind::Humanize, span, step, outside);
            let inside = points_inside(existing, span.lo as int, span.hi as int);
            &&& edits.len() == inside.len()
            &&& edits[i].0 == inside[i].beat
            &&& 0 <= edits[i].1 <= VALUE_ONE
            &&& -6 * VALUE_ONE <= 100 * (edits[i].1 - inside[i].value) <= 6 * VALUE_ONE
            &&& existing.contains(inside[i])
            &&& span.lo - CC_SPAN_SLACK <= inside[i].beat <= span.hi + CC_SPAN_SLACK
            &&& forall|k: int|
                0 <= k < existing.len() && span.lo - CC_SPAN_SLACK <= (#[trigger] existing[k]).beat <= span.hi
                    + CC_SPAN_SLACK ==> inside.contains(existing[k])
        }),
{
    let q = |p: MidiControllerPoint| span.lo - CC_SPAN_SLACK <= p.beat <= span.hi + CC_SPAN_SLACK;
    broadcast use vstd::seq_lib::group_filter_ensures;

    let inside = points_inside(existing, span.lo as int, span.hi as int);
    let p = inside[i];
    assert(q(p));
    assert(existing.contains(p)) by {
        assert(inside.contains(p));
        existing.lemma_filter_contains_rev(q, p);
    }
    let k = choose|k: int| 0 <= k < existing.len() && existing[k] == p;
    assert(0 <= existing[k].value <= VALUE_ONE);
    let t = nearest((p.beat as int % TICKS_PER_BEAT as int) * VALUE_ONE, TICKS_PER_BEAT as int);
    let h = noise(clamp_to(t, 0, VALUE_ONE as int));
    lemma_noise_in_range(clamp_to(t, 0, VALUE_ONE as int));
    lemma_nearest_bound((h - VALUE_HALF) * 12, 100);
}

/// Last point reached by a beat, starting the search at place `k`.
pub open spec fn advance(points: Seq<MidiControllerPoint>, k: int, beat: int) -> int
    decreases points.len() - k,
{
    if 0 <= k && k + 1 < points.len() && points[k + 1].beat <= beat {
        advance(points, k + 1, beat)
    } else {
        k
    }
}

proof fn lemma_advance_bounds(points: Seq<MidiControllerPoint>, k: int, beat: int)
    requires
        0 <= k < points.len(),
    ensures
        k <= advance(points, k, beat) < points.len(),
    decreases points.len() - k,
{
    if k + 1 < points.len() && points[k + 1].beat <= beat {
        lemma_advance_bounds(points, k + 1, beat);
    }
}

proof fn lemma_advance_resumes(points: Seq<MidiControllerPoint>, k: int, early: int, late: int)
    requires
        0 <= k < points.len(),
        early <= late,
    ensures
        advance(points, advance(points, k, early), late) == advance(points, k, late),
    decreases points.len() - k,
{
    if k + 1 < points.len() && points[k + 1].beat <= early {
        lemma_advance_resumes(points, k + 1, early, late);
    }
}

/// Value of the lane at a beat: straight lines between the points, held flat
/// before the first and after the last; the default without points.
pub open spec fn envelope(points: Seq<MidiControllerPoint>, beat: int, default_value: int) -> int {
    if points.len() == 0 {
        clamp_to(default_value, 0, VALUE_ONE as int)
    } else {
        let k = advance(points, 0, beat);
        let a = points[k];
        if beat <= a.beat || k + 1 >= points.len() {
            a.value as int
        } else {
            let b = points[k + 1];
            clamp_to(
                a.value + nearest((b.value - a.value) * (beat - a.beat), b.beat - a.beat),
                0,
                VALUE_ONE as int,
            )
        }
    }
}

/// The lane is flat before the first and after the last point, and straight
/// between two neighbours.
pub proof fn law_envelope_is_straight_between_points(
    points: Seq<MidiControllerPoint>,
    i: int,
    beat: int,
    default_value: int,
)
    requires
        valid_points(points),
        forall|a: int, b: int|
            0 <= a < b < points.len() ==> (#[trigger] points[a]).beat < (#[trigger] points[b]).beat,
        0 <= i < points.len(),
    ensures
        beat <= points[0].beat ==> envelope(points, beat, default_value) == points[0].value,
        beat >= points.last().beat ==> envelope(points, beat, default_value) == points.last().value,
        i + 1 < points.len() && points[i].beat <= beat <= points[i + 1].beat ==> ({
            let long = points[i + 1].beat - points[i].beat;
            let off = long * (envelope(points, beat, default_value) - points[i].value) - (points[i + 1].value
                - points[i].value) * (beat - points[i].beat);
            -long <= 2 * off <= long
        }),
{
    let last = points.len() - 1;
    if beat <= points[0].beat {
        if last > 0 {
            assert(points[0].beat < points[1].beat);
        }
        assert(advance(points, 0, beat) == 0);
    }
    if beat >= points.last().beat {
        lemma_advance_finds(points, 0, last, beat);
    }
    if i + 1 < points.len() && points[i].beat <= beat <= points[i + 1].beat {
        let a = points[i];
        let b = points[i + 1];
        let long = b.beat - a.beat;
        let d = b.value - a.value;
        assert(points[i].beat < points[i + 1].beat);
        if beat == b.beat {
            if i + 2 < points.len() {
                assert(points[i + 1].beat < points[i + 2].beat);
            }
            lemma_advance_finds(points, 0, i + 1, beat);
            vstd::arithmetic::mul::lemma_mul_is_commutative(long, d);
        } else {
            lemma_advance_finds(points, 0, i, beat);
            if beat == a.beat {
                assert(long * 0 == 0 && d * 0 == 0);
            } else {
                let x = beat - a.beat;
                let n = d * x;
                let q = nearest(n, long);
                lemma_nearest_bound(n, long);
                vstd::arithmetic::mul::lemma_mul_is_commutative(q, long);
                assert(0 <= a.value + q <= VALUE_ONE) by {
                    crate::fixed::lemma_nearest_of_multiple(d, long);
                    crate::fixed::lemma_nearest_of_multiple(0, long);
                    if d >= 0 {
                        vstd::arithmetic::mul::lemma_mul_upper_bound(d, d, x, long);
                        vstd::arithmetic::mul::lemma_mul_nonnegative(d, x);
                        crate::fixed::lemma_nearest_monotone(n, d * long, long);
                    } else {
                        vstd::arithmetic::mul::lemma_mul_upper_bound(-d, -d, x, long);
                        vstd::arithmetic::mul::lemma_mul_nonnegative(-d, x);
                        vstd::arithmetic::mul::lemma_mul_unary_negation(d, x);
                        vstd::arithmetic::mul::lemma_mul_unary_negation(d, long);
                        crate::fixed::lemma_nearest_monotone(d * long, n, long);
                    }
                }
            }
        }
    }
}

proof fn lemma_advance_finds(points: Seq<MidiControllerPoint>, from: int, k: int, beat: int)
    requires
        0 <= from <= k < points.len(),
        forall|a: int, b: int|
            0 <= a < b < points.len() ==> (#[trigger] points[a]).beat < (#[trigger] points[b]).beat,
        points[k].beat <= beat,
        k + 1 < points.len() ==> beat < points[k + 1].beat,
    ensures
        advance(points, from, beat) == k,
    decreases k - from,
{
    if from < k {
        if from + 1 < k {
            assert(points[from + 1].beat < points[k].beat);
        }
        lemma_advance_finds(points, from + 1, k, beat);
    }
}

fn between(a: MidiControllerPoint, b: MidiControllerPoint, beat: i64) -> (v: i64)
    requires
        0 <= a.beat < beat < b.beat <= POSITION_LIMIT,
        0 <= a.value <= VALUE_ONE,
        0 <= b.value <= VALUE_ONE,
    ensures
        v == clamp_to(
            a.value + nearest((b.value - a.value) * (beat - a.beat), b.beat - a.beat),
            0,
            VALUE_ONE as int,
        ),
{
    let d: i64 = b.value - a.value;
    let t: i64 = beat - a.beat;
    let span: i64 = b.beat - a.beat;
    proof {
        assert(-1_000_000_000 * 70_368_744_177_664 <= d * t <= 1_000_000_000 * 70_368_744_177_664) by (nonlinear_arith)
            requires
                -1_000_000_000 <= d <= 1_000_000_000,
                0 <= t <= 70_368_744_177_664,
        ;
    }
    let n: i128 = d as i128 * t as i128;
    let q: i128 = nearest_div(n, span as i128);
    proof {
        lemma_nearest_bound(n as int, span as int);
        assert(-2_000_000_000 <= q <= 2_000_000_000) by (nonlinear_arith)
            requires
                span >= 1,
                n == d * t,
                0 <= t <= span,
                -1_000_000_000 <= d <= 1_000_000_000,
                -span <= 2 * (q * span - n) <= span,
        ;
    }
    clamp_i64(a.value + q as i64, 0, VALUE_ONE)
}

/// Beat of a column of the lane.
pub open spec fn column_beat(axis: ClipAxis, col: int) -> int {
    max_of(axis.beat_at(col * PX), 0)
}

proof fn lemma_column_order(axis: ClipAxis, a: int, b: int)
    requires
        a <= b,
    ensures
        column_beat(axis, a) <= column_beat(axis, b),
{
    let z = zoom(axis.ppb as int);
    crate::fixed::lemma_nearest_monotone(
        (a * PX + axis.scroll_x) * TICKS_PER_BEAT,
        (b * PX + axis.scroll_x) * TICKS_PER_BEAT,
        z,
    );
}

/// Heights of the envelope at the columns `0..=columns`, found in one walk over
/// columns and points. `points` are compact.
pub fn cc_curve_samples(
    points: &Vec<MidiControllerPoint>,
    axis: ClipAxis,
    lane_h: i64,
    columns: i64,
    default_value: i64,
) -> (out: Vec<i64>)
    requires
        valid_points(points@),
        axis.valid(),
        axis.ppb >= PIANO_ROLL_MIN_PPB,
        on_axis(lane_h as int),
        0 <= columns <= 10_000_000,
    ensures
        out@.len() == columns + 1,
        forall|i: int|
            0 <= i < out@.len() ==> #[trigger] out@[i] == height_of_value(
                envelope(points@, column_beat(axis, i), default_value as int),
                lane_h as int,
            ),
{
    let mut out: Vec<i64> = Vec::new();
    let mut cursor: usize = 0;
    let mut col: i64 = 0;
    while col <= columns
        invariant
            valid_points(points@),
            axis.valid(),
            axis.ppb >= PIANO_ROLL_MIN_PPB,
            on_axis(lane_h as int),
            0 <= columns <= 10_000_000,
            0 <= col <= columns + 1,
            out@.len() == col,
            points@.len() > 0 ==> cursor < points@.len(),
            col == 0 ==> cursor == 0,
            col > 0 && points@.len() > 0 ==> cursor == advance(points@, 0, column_beat(axis, col - 1)),
            forall|i: int|
                0 <= i < out@.len() ==> #[trigger] out@[i] == height_of_value(
                    envelope(points@, column_beat(axis, i), default_value as int),
                    lane_h as int,
                ),
        decreases columns + 1 - col,
    {
        let beat: i64 = max_i64(axis.x_to_clip_beat(col * 1_000_000), 0);
        assert(beat == column_beat(axis, col as int));
        let value: i64 = if points.len() == 0 {
            clamp_i64(default_value, 0, VALUE_ONE)
        } else {
            let ghost start = cursor as int;
            proof {
                if col > 0 {
                    lemma_column_order(axis, col - 1, col as int);
                    lemma_advance_resumes(points@, 0, column_beat(axis, col - 1), beat as int);
                }
                assert(advance(points@, start, beat as int) == advance(points@, 0, beat as int));
            }
            while points.len() - cursor > 1 && points[cursor + 1].beat <= beat
                invariant
                    cursor < points@.len(),
                    advance(points@, cursor as int, beat as int) == advance(points@, 0, beat as int),
                decreases points@.len() - cursor,
            {
                cursor = cursor + 1;
            }
            assert(cursor == advance(points@, 0, beat as int));
            let a = points[cursor];
            if beat <= a.beat {
                a.value
            } else if points.len() - cursor <= 1 {
                a.value
            } else {
                let b = points[cursor + 1];
                assert(0 <= points@[cursor as int].beat);
                assert(points@[cursor + 1].beat <= POSITION_LIMIT);
                between(a, b, beat)
            }
        };
        out.push(controller_y_for_value(value, lane_h));
        col = col + 1;
    }
    out
}

/// On its own points the envelope has the points' values.
pub proof fn law_envelope_passes_through_its_points(points: Seq<MidiControllerPoint>, k: int, default_value: int)
    requires
        crate::cc_points::well_spaced(points),
        0 <= k < points.len(),
    ensures
        envelope(points, points[k].beat as int, default_value) == points[k].value,
{
    lemma_advance_to(points, 0, k);
}

proof fn lemma_advance_to(points: Seq<MidiControllerPoint>, from: int, k: int)
    requires
        crate::cc_points::well_spaced(points),
        0 <= from <= k < points.len(),
    ensures
        advance(points, from, points[k].beat as int) == k,
    decreases k - from,
{
    if from < k {
        if from + 1 < k {
            assert(points[k].beat - points[from + 1].beat > CC_POINT_MERGE_EPS);
        }
        lemma_advance_to(points, from + 1, k);
    } else if k + 1 < points.len() {
        assert(points[k + 1].beat - points[k].beat > CC_POINT_MERGE_EPS);
    }
}

/// A point handle of the lane.
#[derive(Debug, Clone, Copy, PartialEq, Eq, Structural)]
pub struct CcHandle {
    pub x: i64,
    pub y: i64,
    pub selected: bool,
}

/// Radius of a point handle.
pub const HANDLE_R: i64 = 4_000_000;

/// Handle of a point.
pub open spec fn handle_of(
    p: MidiControllerPoint,
    axis: ClipAxis,
    lane_h: int,
    selection: Set<u64>,
) -> CcHandle {
    CcHandle {
        x: axis.x_at(p.beat as int) as i64,
        y: height_of_value(p.value as int, lane_h) as i64,
        selected: selection.contains(p.id),
    }
}

/// A point's handle shows in a lane of a width.
pub open spec fn handle_shows(p: MidiControllerPoint, axis: ClipAxis, view_w: int) -> bool {
    -HANDLE_R <= axis.x_at(p.beat as int) <= view_w + HANDLE_R
}

/// Handles of the points that show.
pub fn cc_handles(
    points: &Vec<MidiControllerPoint>,
    axis: ClipAxis,
    view_w: i64,
    lane_h: i64,
    selection: &IdSet,
) -> (out: Vec<CcHandle>)
    requires
        valid_points(points@),
        axis.valid(),
        on_axis(lane_h as int),
        on_axis(view_w as int),
    ensures
        out@ == points@.filter(|p: MidiControllerPoint| handle_shows(p, axis, view_w as int)).map_values(
            |p: MidiControllerPoint| handle_of(p, axis, lane_h as int, selection@),
        ),
{
    let mut out: Vec<CcHandle> = Vec::new();
    let mut i: usize = 0;
    let ghost p = |p: MidiControllerPoint| handle_shows(p, axis, view_w as int);
    let ghost f = |p: MidiControllerPoint| handle_of(p, axis, lane_h as int, selection@);
    proof {
        reveal(Seq::filter);
        assert(points@.subrange(0, 0).filter(p).map_values(f) =~= Seq::<CcHandle>::empty());
    }
    while i < points.len()
        invariant
            valid_points(points@),
            axis.valid(),
            on_axis(lane_h as int),
            on_axis(view_w as int),
            i <= points@.len(),
            p == (|p: MidiControllerPoint| handle_shows(p, axis, view_w as int)),
            f == (|p: MidiControllerPoint| handle_of(p, axis, lane_h as int, selection@)),
            out@ == points@.subrange(0, i as int).filter(p).map_values(f),
        decreases points@.len() - i,
    {
        proof {
            lemma_filter_step(points@, i as int, p);
        }
        let point = points[i];
        assert(0 <= points@[i as int].beat <= POSITION_LIMIT);
        let x: i64 = axis.clip_beat_to_x(point.beat);
        if x >= -HANDLE_R && x <= view_w + HANDLE_R {
            let h = CcHandle { x, y: controller_y_for_value(point.value, lane_h), selected: selection.contains(point.id) };
            out.push(h);
            assert(p(point));
            assert(h == f(point));
            assert(out@ =~= points@.subrange(0, i + 1).filter(p).map_values(f));
        }
        i = i + 1;
    }
    assert(points@.subrange(0, points@.len() as int) =~= points@);
    out
}

/// The two smooth curves go by their polynomials, to within rounding, and lie
/// below the straight one in the first half and above it in the second.
pub proof fn law_smooth_curves_start_and_end_slowly(t: int, outside: int)
    requires
        0 <= t <= VALUE_ONE,
    ensures
        ({
            let one = VALUE_ONE as int;
            let s = CcCurveKind::SCurve.progress(t, outside);
            let both = CcCurveKind::EaseInOut.progress(t, outside);
            &&& -(one * one) <= 2 * (s * (one * one) - t * t * (3 * one - 2 * t)) <= one * one
            &&& 2 * t < one ==> -one <= 2 * (both * one - 2 * (t * t)) <= one
            &&& 2 * t <= one ==> s <= t
            &&& 2 * t >= one ==> s >= t
        }),
{
    let one = VALUE_ONE as int;
    let d = one * one;
    let r = 3 * one - 2 * t;
    let f = t * t * r;
    lemma_nearest_bound(f, d);
    lemma_nearest_bound(2 * (t * t), one);
    let g = t * r;
    vstd::arithmetic::mul::lemma_mul_is_associative(t, t, r);
    vstd::arithmetic::mul::lemma_mul_is_distributive_sub(t, 3 * one, 2 * t);
    vstd::arithmetic::mul::lemma_mul_is_associative(t, 2, t);
    vstd::arithmetic::mul::lemma_mul_is_associative(2, t, t);
    vstd::arithmetic::mul::lemma_mul_is_commutative(t, 2);
    assert(g == 3_000_000_000 * t - 2 * (t * t));
    let b = one - t;
    let c = one - 2 * t;
    vstd::arithmetic::mul::lemma_mul_is_distributive_sub(b, one, 2 * t);
    vstd::arithmetic::mul::lemma_mul_is_distributive_sub_other_way(2 * t, one, t);
    vstd::arithmetic::mul::lemma_mul_is_associative(t, 2, t);
    assert(t * (2 * t) == 2 * (t * t));
    assert(b * c == d - g);
    crate::fixed::lemma_nearest_of_multiple(t, d);
    if 2 * t <= one {
        vstd::arithmetic::mul::lemma_mul_nonnegative(b, c);
        vstd::arithmetic::mul::lemma_mul_inequality(g, d, t);
        vstd::arithmetic::mul::lemma_mul_is_commutative(g, t);
        vstd::arithmetic::mul::lemma_mul_is_commutative(d, t);
        crate::fixed::lemma_nearest_monotone(f, t * d, d);
    }
    if 2 * t >= one {
        vstd::arithmetic::mul::lemma_mul_nonnegative(b, -c);
        vstd::arithmetic::mul::lemma_mul_unary_negation(b, c);
        vstd::arithmetic::mul::lemma_mul_inequality(d, g, t);
        vstd::arithmetic::mul::lemma_mul_is_commutative(g, t);
        vstd::arithmetic::mul::lemma_mul_is_commutative(d, t);
        crate::fixed::lemma_nearest_monotone(t * d, f, d);
    }
}

/// A straight curve's points lie on the line between its two ends, to within a
/// unit of value.
pub proof fn law_straight_curve_lies_on_the_line(
    existing: Seq<MidiControllerPoint>,
    span: CurveSpan,
    step: int,
    outside: Seq<i64>,
    i: int,
)
    requires
        span.valid(),
        0 < step <= span.hi - span.lo,
        0 <= i < curve_edits(existing, CcCurveKind::Linear, span, step, outside).len(),
    ensures
        ({
            let (beat, value) = curve_edits(existing, CcCurveKind::Linear, span, step, outside)[i];
            let off = (value - span.from) * (span.hi - span.lo) - (span.to - span.from) * (beat - span.lo);
            -(span.hi - span.lo) <= off <= span.hi - span.lo
        }),
{
    let one = VALUE_ONE as int;
    let len = span.hi - span.lo;
    vstd::arithmetic::mul::lemma_mul_nonnegative(step, i);
    let x = span.beat_of(i, step) - span.lo;
    let t = span.time_of(i, step);
    let d = span.to - span.from;
    lemma_nearest_bound(x * one, len);
    vstd::arithmetic::mul::lemma_mul_inequality(x, len, one);
    vstd::arithmetic::mul::lemma_mul_nonnegative(x, one);
    vstd::arithmetic::mul::lemma_mul_is_commutative(len, one);
    crate::fixed::lemma_nearest_monotone(x * one, one * len, len);
    crate::fixed::lemma_nearest_of_multiple(one, len);
    let part = if i < outside.len() {
        outside[i] as int
    } else {
        0
    };
    law_curves_go_by_their_progress(CcCurveKind::Linear, t, span.from as int, span.to as int, part);
    let v = CcCurveKind::Linear.value_at(t, span.from as int, span.to as int, part);
    let r = v - span.from;
    assert(curve_edits(existing, CcCurveKind::Linear, span, step, outside)[i] == (
        span.beat_of(i, step) as i64,
        v as i64,
    ));
    lemma_two_roundings(r, d, t, x, len, one);
}

proof fn lemma_two_roundings(r: int, d: int, t: int, x: int, len: int, one: int)
    requires
        one > 0,
        len > 0,
        -one <= d <= one,
        -one <= 2 * (one * r - d * t) <= one,
        -len <= 2 * (t * len - x * one) <= len,
    ensures
        -len <= r * len - d * x <= len,
{
    let near = one * r - d * t;
    let late = t * len - x * one;
    let off = r * len - d * x;
    crate::fixed::lemma_product_bound(2 * near, len, one, len);
    crate::fixed::lemma_product_bound(d, 2 * late, one, len);
    vstd::arithmetic::mul::lemma_mul_is_associative(2, near, len);
    vstd::arithmetic::mul::lemma_mul_is_associative(d, 2, late);
    vstd::arithmetic::mul::lemma_mul_is_commutative(d, 2);
    vstd::arithmetic::mul::lemma_mul_is_associative(2, d, late);
    vstd::arithmetic::mul::lemma_mul_is_distributive_sub_other_way(len, one * r, d * t);
    vstd::arithmetic::mul::lemma_mul_is_distributive_sub(d, t * len, x * one);
    vstd::arithmetic::mul::lemma_mul_is_distributive_sub_other_way(one, r * len, d * x);
    vstd::arithmetic::mul::lemma_mul_is_associative(one, r, len);
    vstd::arithmetic::mul::lemma_mul_is_commutative(one, r * len);
    vstd::arithmetic::mul::lemma_mul_is_associative(d, t, len);
    vstd::arithmetic::mul::lemma_mul_is_associative(d, x, one);
    vstd::arithmetic::mul::lemma_mul_is_commutative(one, len);
    assert(off * one == near * len + d * late);
    crate::fixed::lemma_factor_bound(off, len, one);
}

/// The exponential and the logarithmic curve have gone as far as was computed for
/// them, and nowhere at the start.
pub proof fn law_computed_shapes_are_taken_over(kind: CcCurveKind, t: int, outside: int)
    requires
        kind.transcendental(),
        0 <= outside <= VALUE_ONE,
    ensures
        t > 0 ==> kind.progress(t, outside) == outside,
        t <= 0 ==> kind.progress(t, outside) == 0,
{
}

} // verus!
