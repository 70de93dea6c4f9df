//! Note velocities: drags, ramps, painting and the lane's transforms.

use crate::fixed::{
    clamp_i64, clamp_to, lemma_nearest_bound, magnitude, max_i64, max_of, nearest, nearest_div, on_axis, POSITION_LIMIT,
    PX,
};
use crate::midi::MidiNote;
use vstd::prelude::*;

verus! {

/// Height of the controller lane.
pub const LANE_H: i64 = 140_000_000;

/// Part of the lane height that is padding.
pub const LANE_PADDING: i64 = 8_000_000;

/// Gap above the tallest bar.
pub const LANE_TOP_GAP: i64 = 2_000_000;

/// Longest span, in ticks, that a ramp is spread over.
pub const RAMP_LIMIT: i64 = 274_877_906_944;

/// Slack at the ends of a ramp.
pub const RAMP_SLACK: i64 = 96;

/// A velocity held inside 1 to 127.
pub open spec fn clamped_velocity(value: int) -> int {
    clamp_to(value, 1, 127)
}

/// `value` held inside the velocity range.
pub fn clamp_velocity(value: i32) -> (v: u8)
    ensures
        v == clamped_velocity(value as int),
        1 <= v <= 127,
{
    if value < 1 {
        1
    } else if value > 127 {
        127
    } else {
        value as u8
    }
}

/// A velocity moved by `delta`, held inside the range.
pub fn relative_velocity(original: u8, delta: i32) -> (v: u8)
    requires
        original + delta <= i32::MAX,
    ensures
        v == clamped_velocity(original + delta),
        1 <= v <= 127,
{
    clamp_velocity(original as i32 + delta)
}

/// Moved by one delta, two velocities keep their distance unless one of them
/// reaches an end of the range.
pub proof fn law_relative_velocity_keeps_differences(a: int, b: int, delta: int)
    requires
        1 <= a + delta <= 127,
        1 <= b + delta <= 127,
    ensures
        clamped_velocity(a + delta) - clamped_velocity(b + delta) == a - b,
{
}

/// A velocity moved by an amount is the sum, or the end of the range that the sum
/// passes.
pub proof fn law_velocities_move_by_the_amount(original: int, delta: int)
    ensures
        1 <= original + delta <= 127 ==> clamped_velocity(original + delta) == original + delta,
        original + delta < 1 ==> clamped_velocity(original + delta) == 1,
        original + delta > 127 ==> clamped_velocity(original + delta) == 127,
{
}

/// Usable height of a lane.
pub open spec fn usable_height(lane_h: int) -> int {
    max_of(lane_h - LANE_PADDING, PX as int)
}

/// Velocity change of a pointer that moved from one height to another; a fine
/// drag moves a fifth as fast.
pub open spec fn drag_delta(start_y: int, current_y: int, lane_h: int, fine: bool) -> int {
    clamp_to(
        nearest(-(current_y - start_y) * 126, usable_height(lane_h) * (if fine {
            5int
        } else {
            1int
        })),
        i32::MIN as int,
        i32::MAX as int,
    )
}

/// Velocity change for a drag from `start_y` to `current_y`.
pub fn velocity_drag_delta(start_y: i64, current_y: i64, lane_h: i64, fine: bool) -> (delta: i32)
    requires
        on_axis(start_y as int),
        on_axis(current_y as int),
        lane_h <= POSITION_LIMIT,
        lane_h >= -POSITION_LIMIT,
    ensures
        delta == drag_delta(start_y as int, current_y as int, lane_h as int, fine),
{
    let usable: i64 = max_i64(lane_h - LANE_PADDING, PX);
    let slow: i128 = if fine {
        5
    } else {
        1
    };
    let q: i128 = nearest_div((start_y as i128 - current_y as i128) * 126, usable as i128 * slow);
    if q < -2_147_483_648 {
        i32::MIN
    } else if q > 2_147_483_647 {
        i32::MAX
    } else {
        q as i32
    }
}

/// Dragging up raises a velocity and dragging down by as much lowers it by as
/// much, in proportion to the way: the usable height of the lane is the whole
/// range, and a fine drag needs five times the way.
pub proof fn law_dragging_up_raises(y: int, way: int, lane_h: int)
    requires
        lane_h - LANE_PADDING >= PX,
        0 <= way <= 1_000_000 * (lane_h - LANE_PADDING),
    ensures
        ({
            let u = lane_h - LANE_PADDING;
            let up = drag_delta(y, y - way, lane_h, false);
            let fine = drag_delta(y, y - way, lane_h, true);
            &&& up >= 0
            &&& drag_delta(y, y + way, lane_h, false) == -up
            &&& drag_delta(y, y + way, lane_h, true) == -fine
            &&& -u <= 2 * (u * up - 126 * way) <= u
            &&& -5 * u <= 2 * (5 * u * fine - 126 * way) <= 5 * u
        }),
{
    let u = lane_h - LANE_PADDING;
    assert(-((y - way) - y) * 126 == way * 126) by (nonlinear_arith);
    assert(-((y + way) - y) * 126 == -(way * 126)) by (nonlinear_arith);
    assert(u * 1int == u && u * 5int == 5 * u);
    lemma_nearest_bound(way * 126, u);
    lemma_nearest_bound(way * 126, 5 * u);
    let q = nearest(way * 126, u);
    let f = nearest(way * 126, 5 * u);
    assert(q <= 126_000_001) by (nonlinear_arith)
        requires
            u > 0,
            2 * (q * u - way * 126) <= u,
            way <= 1_000_000 * u,
    ;
    assert(f <= 126_000_001) by (nonlinear_arith)
        requires
            u > 0,
            2 * (f * (5 * u) - way * 126) <= 5 * u,
            way <= 1_000_000 * u,
    ;
    assert(q * u == u * q) by (nonlinear_arith);
    assert(f * (5 * u) == 5 * u * f) by (nonlinear_arith);
}

/// Velocity that a height in the lane stands for.
pub open spec fn velocity_at(local_y: int, lane_h: int) -> int {
    let usable = usable_height(lane_h);
    1 + nearest(126 * clamp_to(usable - (local_y - LANE_TOP_GAP), 0, usable), usable)
}

/// Velocity at `local_y` in a lane of height `lane_h`.
pub fn velocity_from_local_y(local_y: i64, lane_h: i64) -> (v: u8)
    requires
        on_axis(local_y as int),
        on_axis(lane_h as int),
    ensures
        v == velocity_at(local_y as int, lane_h as int),
        1 <= v <= 127,
{
    let usable: i64 = max_i64(lane_h - LANE_PADDING, PX);
    let n: i64 = clamp_i64(usable - (local_y - LANE_TOP_GAP), 0, usable);
    let q: i128 = nearest_div(126 * n as i128, usable as i128);
    proof {
        lemma_nearest_bound(126 * n as int, usable as int);
        assert(0 <= q <= 126) by (nonlinear_arith)
            requires
                usable > 0,
                0 <= n <= usable,
                -usable <= 2 * (q * usable - 126 * n) <= usable,
        ;
    }
    (1 + q) as u8
}

/// The top of the lane is the highest velocity and the bottom the lowest; the
/// higher the pointer, the louder; and every velocity is met where its bar ends.
pub proof fn law_higher_in_the_lane_is_louder(y: int, z: int, lane_h: int, v: int)
    requires
        lane_h - LANE_PADDING >= PX,
        y <= z,
        1 <= v <= 127,
    ensures
        velocity_at(y, lane_h) >= velocity_at(z, lane_h),
        y <= LANE_TOP_GAP ==> velocity_at(y, lane_h) == 127,
        z >= lane_h - LANE_PADDING + LANE_TOP_GAP ==> velocity_at(z, lane_h) == 1,
        velocity_at(LANE_TOP_GAP + nearest((127 - v) * (lane_h - LANE_PADDING), 126), lane_h) == v,
{
    let u = lane_h - LANE_PADDING;
    let a = clamp_to(u - (y - LANE_TOP_GAP), 0, u);
    let b = clamp_to(u - (z - LANE_TOP_GAP), 0, u);
    crate::fixed::lemma_nearest_monotone(126 * b, 126 * a, u);
    crate::fixed::lemma_nearest_of_multiple(126, u);
    crate::fixed::lemma_nearest_of_multiple(0, u);
    let m = nearest((127 - v) * u, 126);
    lemma_nearest_bound((127 - v) * u, 126);
    assert(0 <= (127 - v) * u <= 126 * u) by (nonlinear_arith)
        requires
            1 <= v <= 127,
            u > 0,
    ;
    assert(0 <= m <= u);
    let c = u - m;
    assert((v - 1) * u == 126 * u - (127 - v) * u) by (nonlinear_arith);
    assert(-u < 2 * ((v - 1) * u - 126 * c) < u);
    crate::fixed::lemma_nearest_of_near(126 * c, u, v - 1);
}

/// Shape of a velocity ramp.
#[derive(Debug, Clone, Copy, PartialEq, Eq, Structural)]
pub enum VelocityCurve {
    Linear,
    Exponential,
    Logarithmic,
    SCurve,
    ReverseSCurve,
}

/// Numerator of the shape at `n / d`; the denominator is [`shape_den`].
pub open spec fn shape_num(curve: VelocityCurve, n: int, d: int) -> int {
    match curve {
        VelocityCurve::Linear => n,
        VelocityCurve::Exponential => n * n,
        VelocityCurve::Logarithmic => n,
        VelocityCurve::SCurve => n * n * (3 * d - 2 * n),
        VelocityCurve::ReverseSCurve => d * d * d - (d - n) * (d - n) * (d + 2 * n),
    }
}

/// Denominator of the shape at a fraction with denominator `d`.
pub open spec fn shape_den(curve: VelocityCurve, d: int) -> int {
    match curve {
        VelocityCurve::Linear => d,
        VelocityCurve::Exponential => d * d,
        VelocityCurve::Logarithmic => d,
        VelocityCurve::SCurve => d * d * d,
        VelocityCurve::ReverseSCurve => d * d * d,
    }
}

/// `reach` times the square root of `n / d`, to the nearest whole number: the
/// number of steps `k` up to `upto` with `k - 1/2` at or below it.
pub open spec fn root_steps(reach: int, n: int, d: int, upto: int) -> int
    decreases upto,
{
    if upto <= 0 {
        0
    } else if (2 * upto - 1) * (2 * upto - 1) * d <= 4 * reach * reach * n {
        root_steps(reach, n, d, upto - 1) + 1
    } else {
        root_steps(reach, n, d, upto - 1)
    }
}

/// Velocity at the fraction `n / d` of a ramp, the fraction held inside the ramp.
pub open spec fn ramp_velocity(from: int, to: int, n: int, d: int, curve: VelocityCurve) -> int {
    let c = clamp_to(n, 0, d);
    if curve == VelocityCurve::Logarithmic {
        let steps = root_steps(magnitude(to - from), c, d, magnitude(to - from));
        clamped_velocity(if to >= from {
            from + steps
        } else {
            from - steps
        })
    } else {
        let den = shape_den(curve, d);
        clamped_velocity(nearest(from * den + (to - from) * shape_num(curve, c, d), den))
    }
}

proof fn lemma_shape_bounds(curve: VelocityCurve, n: int, d: int)
    requires
        0 <= n <= d,
        1 <= d <= RAMP_LIMIT,
    ensures
        0 <= shape_num(curve, n, d) <= shape_den(curve, d),
        1 <= shape_den(curve, d) <= RAMP_LIMIT * RAMP_LIMIT * RAMP_LIMIT,
{
    assert(1 <= d * d <= RAMP_LIMIT * RAMP_LIMIT && d * d >= d) by (nonlinear_arith)
        requires
            1 <= d <= RAMP_LIMIT,
    ;
    assert(1 <= d * d * d <= RAMP_LIMIT * RAMP_LIMIT * RAMP_LIMIT && d * d * d >= d * d) by (nonlinear_arith)
        requires
            1 <= d <= RAMP_LIMIT,
            1 <= d * d <= RAMP_LIMIT * RAMP_LIMIT,
    ;
    assert(0 <= n * n <= d * d) by (nonlinear_arith)
        requires
            0 <= n <= d,
    ;
    assert(0 <= n * n * (3 * d - 2 * n) <= d * d * d) by (nonlinear_arith)
        requires
            0 <= n <= d,
            1 <= d,
    {
        let u = d - n;
        assert(d * d * d - n * n * (3 * d - 2 * n) == u * u * (d + 2 * n)) by (nonlinear_arith)
            requires
                u == d - n,
        ;
        assert(u * u * (d + 2 * n) >= 0) by (nonlinear_arith)
            requires
                u >= 0,
                d >= 0,
                n >= 0,
        ;
        assert(n * n * (3 * d - 2 * n) >= 0) by (nonlinear_arith)
            requires
                0 <= n <= d,
        ;
    }
    let u = d - n;
    assert(0 <= u * u * (d + 2 * n) <= d * d * d) by (nonlinear_arith)
        requires
            u == d - n,
            0 <= n <= d,
            0 <= n * n * (3 * d - 2 * n),
    {
        assert(d * d * d - u * u * (d + 2 * n) == n * n * (3 * d - 2 * n)) by (nonlinear_arith)
            requires
                u == d - n,
        ;
        assert(u * u * (d + 2 * n) >= 0) by (nonlinear_arith)
            requires
                u >= 0,
                d >= 0,
                n >= 0,
        ;
    }
}

fn count_root_steps(reach: i64, n: i64, d: i64) -> (steps: i64)
    requires
        0 <= reach <= 255,
        0 <= n <= d,
        1 <= d <= RAMP_LIMIT,
    ensures
        steps == root_steps(reach as int, n as int, d as int, reach as int),
        0 <= steps <= reach,
{
    let mut k: i64 = 0;
    let mut steps: i64 = 0;
    assert(4 * reach * reach * n <= 4 * 255 * 255 * 274_877_906_944) by (nonlinear_arith)
        requires
            0 <= reach <= 255,
            0 <= n <= 274_877_906_944,
    ;
    assert(0 <= 4 * reach * reach <= 4 * 255 * 255) by (nonlinear_arith)
        requires
            0 <= reach <= 255,
    ;
    assert(0 <= 4 * reach * reach * n) by (nonlinear_arith)
        requires
            0 <= 4 * reach * reach,
            0 <= n,
    ;
    let room: i64 = 4 * reach * reach * n;
    while k < reach
        invariant
            0 <= k <= reach <= 255,
            1 <= d <= RAMP_LIMIT,
            room == 4 * reach * reach * n,
            steps == root_steps(reach as int, n as int, d as int, k as int),
            0 <= steps <= k,
        decreases reach - k,
    {
        k = k + 1;
        let odd: i64 = 2 * k - 1;
        proof {
            assert(0 <= odd * odd <= 509 * 509) by (nonlinear_arith)
                requires
                    0 <= odd <= 509,
            ;
            assert(odd * odd * d <= 509 * 509 * 274_877_906_944) by (nonlinear_arith)
                requires
                    0 <= odd * odd <= 509 * 509,
                    1 <= d <= 274_877_906_944,
            ;
            assert(odd * odd * d >= 0) by (nonlinear_arith)
                requires
                    0 <= odd * odd,
                    1 <= d,
            ;
        }
        if odd * odd * d <= room {
            steps = steps + 1;
        }
    }
    steps
}

fn shape(curve: VelocityCurve, n: i64, d: i64) -> (r: (i128, i128))
    requires
        0 <= n <= d,
        1 <= d <= RAMP_LIMIT,
    ensures
        r.0 == shape_num(curve, n as int, d as int),
        r.1 == shape_den(curve, d as int),
{
    proof {
        lemma_shape_bounds(VelocityCurve::Exponential, n as int, d as int);
        lemma_shape_bounds(VelocityCurve::SCurve, n as int, d as int);
        lemma_shape_bounds(VelocityCurve::ReverseSCurve, n as int, d as int);
        assert(0 <= (d - n) * (d - n) <= d * d) by (nonlinear_arith)
            requires
                0 <= n <= d,
        ;
    }
    let a: i128 = n as i128;
    let b: i128 = d as i128;
    match curve {
        VelocityCurve::Linear => (a, b),
        VelocityCurve::Exponential => (a * a, b * b),
        VelocityCurve::Logarithmic => (a, b),
        VelocityCurve::SCurve => (a * a * (3 * b - 2 * a), b * b * b),
        VelocityCurve::ReverseSCurve => {
            let u: i128 = b - a;
            (b * b * b - u * u * (b + 2 * a), b * b * b)
        },
    }
}

/// Velocity at the fraction `n / d` of a ramp from `from` to `to`.
#[verifier::rlimit(40)]
pub fn interpolate_velocity(from: u8, to: u8, n: i64, d: i64, curve: VelocityCurve) -> (v: u8)
    requires
        1 <= d <= RAMP_LIMIT,
    ensures
        v == ramp_velocity(from as int, to as int, n as int, d as int, curve),
        1 <= v <= 127,
{
    let c: i64 = clamp_i64(n, 0, d);
    match curve {
        VelocityCurve::Logarithmic => {
            let reach: i64 = if to >= from {
                to as i64 - from as i64
            } else {
                from as i64 - to as i64
            };
            let steps: i64 = count_root_steps(reach, c, d);
            if to >= from {
                clamp_velocity((from as i64 + steps) as i32)
            } else {
                clamp_velocity((from as i64 - steps) as i32)
            }
        },
        _ => {
            let (num, den) = shape(curve, c, d);
            let ghost gn = num as int;
            let ghost gd = den as int;
            let ghost delta = to as int - from as int;
            proof {
                lemma_shape_bounds(curve, c as int, d as int);
                assert(RAMP_LIMIT * RAMP_LIMIT * RAMP_LIMIT == 274_877_906_944int * 274_877_906_944int
                    * 274_877_906_944int) by (nonlinear_arith);
                assert(-255 * gd <= delta * gn <= 255 * gd) by (nonlinear_arith)
                    requires
                        -255 <= delta <= 255,
                        0 <= gn <= gd,
                ;
                assert(0 <= from * gd <= 255 * gd) by (nonlinear_arith)
                    requires
                        0 <= from <= 255,
                        gd >= 1,
                ;
            }
            let sum: i128 = from as i128 * den + (to as i128 - from as i128) * num;
            let q: i128 = nearest_div(sum, den);
            proof {
                lemma_nearest_bound(sum as int, gd);
                assert(-600 <= q <= 600) by (nonlinear_arith)
                    requires
                        gd >= 1,
                        -gd <= 2 * (q * gd - sum) <= gd,
                        -510 * gd <= sum <= 510 * gd,
                ;
            }
            clamp_velocity(q as i32)
        },
    }
}

/// A linear ramp starts and ends at its two velocities.
pub proof fn law_linear_ramp_meets_its_ends(from: int, to: int, d: int)
    requires
        1 <= from <= 127,
        1 <= to <= 127,
        d >= 1,
    ensures
        ramp_velocity(from, to, 0, d, VelocityCurve::Linear) == from,
        ramp_velocity(from, to, d, d, VelocityCurve::Linear) == to,
{
    assert(from * d + (to - from) * 0 == from * d) by (nonlinear_arith);
    assert(from * d + (to - from) * d == to * d) by (nonlinear_arith);
    crate::fixed::lemma_nearest_of_multiple(from, d);
    crate::fixed::lemma_nearest_of_multiple(to, d);
}

/// A linear ramp is even: its change so far is the share of the whole change that
/// the place in the ramp is of its length, to within rounding.
pub proof fn law_linear_ramp_is_even(from: int, to: int, n: int, d: int)
    requires
        1 <= from <= 127,
        1 <= to <= 127,
        d >= 1,
        0 <= n <= d,
    ensures
        -d <= 2 * (d * (ramp_velocity(from, to, n, d, VelocityCurve::Linear) - from) - n * (to - from)) <= d,
{
    let a = from * d + (to - from) * n;
    let q = nearest(a, d);
    lemma_nearest_bound(a, d);
    assert(d <= a <= 127 * d) by (nonlinear_arith)
        requires
            a == from * d + (to - from) * n,
            1 <= from <= 127,
            1 <= to <= 127,
            0 <= n <= d,
            d >= 1,
    {
        assert(a == from * (d - n) + to * n) by (nonlinear_arith)
            requires
                a == from * d + (to - from) * n,
        ;
        assert((d - n) <= from * (d - n) <= 127 * (d - n)) by (nonlinear_arith)
            requires
                1 <= from <= 127,
                d - n >= 0,
        ;
        assert(n <= to * n <= 127 * n) by (nonlinear_arith)
            requires
                1 <= to <= 127,
                n >= 0,
        ;
    }
    assert(1 <= q <= 127) by (nonlinear_arith)
        requires
            d >= 1,
            d <= a <= 127 * d,
            -d <= 2 * (q * d - a) <= d,
    ;
    assert(d * (q - from) - n * (to - from) == q * d - a) by (nonlinear_arith)
        requires
            a == from * d + (to - from) * n,
    ;
}

/// Whatever its shape, a ramp starts at one velocity, ends at the other and stays
/// between them.
pub proof fn law_ramps_run_between_their_ends(from: int, to: int, n: int, d: int, curve: VelocityCurve)
    requires
        1 <= from <= 127,
        1 <= to <= 127,
        1 <= d <= RAMP_LIMIT,
    ensures
        ramp_velocity(from, to, 0, d, curve) == from,
        ramp_velocity(from, to, d, d, curve) == to,
        from <= to ==> from <= ramp_velocity(from, to, n, d, curve) <= to,
        to <= from ==> to <= ramp_velocity(from, to, n, d, curve) <= from,
{
    let c = clamp_to(n, 0, d);
    let reach = magnitude(to - from);
    if curve == VelocityCurve::Logarithmic {
        lemma_root_steps_ends(reach, d, reach);
        lemma_root_steps_range(reach, c, d, reach);
    } else {
        let den = shape_den(curve, d);
        let num = shape_num(curve, c, d);
        lemma_shape_bounds(curve, c, d);
        lemma_shape_ends(curve, d);
        let lo = from * den;
        assert(lo + (to - from) * 0 == from * den && lo + (to - from) * den == to * den) by (nonlinear_arith)
            requires
                lo == from * den,
        ;
        crate::fixed::lemma_nearest_of_multiple(from, den);
        crate::fixed::lemma_nearest_of_multiple(to, den);
        let a = lo + (to - from) * num;
        if from <= to {
            assert(from * den <= a <= to * den) by (nonlinear_arith)
                requires
                    a == from * den + (to - from) * num,
                    from <= to,
                    0 <= num <= den,
            ;
            crate::fixed::lemma_nearest_monotone(from * den, a, den);
            crate::fixed::lemma_nearest_monotone(a, to * den, den);
        }
        if to <= from {
            assert(to * den <= a <= from * den) by (nonlinear_arith)
                requires
                    a == from * den + (to - from) * num,
                    to <= from,
                    0 <= num <= den,
            ;
            crate::fixed::lemma_nearest_monotone(to * den, a, den);
            crate::fixed::lemma_nearest_monotone(a, from * den, den);
        }
    }
}

proof fn lemma_shape_ends(curve: VelocityCurve, d: int)
    requires
        d >= 1,
    ensures
        shape_num(curve, 0, d) == 0,
        shape_num(curve, d, d) == shape_den(curve, d),
{
    assert(0int * 0int * (3 * d - 2 * 0) == 0) by (nonlinear_arith);
    assert(d * d * (3 * d - 2 * d) == d * d * d) by (nonlinear_arith);
    assert(d * d * d - (d - 0) * (d - 0) * (d + 2 * 0) == 0) by (nonlinear_arith);
    assert((d - d) * (d - d) * (d + 2 * d) == 0) by (nonlinear_arith);
}

proof fn lemma_root_steps_range(reach: int, n: int, d: int, upto: int)
    requires
        upto >= 0,
    ensures
        0 <= root_steps(reach, n, d, upto) <= upto,
    decreases upto,
{
    if upto > 0 {
        lemma_root_steps_range(reach, n, d, upto - 1);
    }
}

proof fn lemma_root_steps_ends(reach: int, d: int, upto: int)
    requires
        d >= 1,
        0 <= upto <= reach,
    ensures
        root_steps(reach, 0, d, upto) == 0,
        root_steps(reach, d, d, upto) == upto,
    decreases upto,
{
    if upto > 0 {
        lemma_root_steps_ends(reach, d, upto - 1);
        assert((2 * upto - 1) * (2 * upto - 1) * d > 4 * reach * reach * 0) by (nonlinear_arith)
            requires
                upto >= 1,
                d >= 1,
        ;
        assert((2 * upto - 1) * (2 * upto - 1) <= 4 * reach * reach) by (nonlinear_arith)
            requires
                1 <= upto <= reach,
        ;
        assert((2 * upto - 1) * (2 * upto - 1) * d <= 4 * reach * reach * d) by (nonlinear_arith)
            requires
                (2 * upto - 1) * (2 * upto - 1) <= 4 * reach * reach,
                d >= 1,
        ;
    }
}

/// Velocity that the first entry for an id holds.
pub open spec fn snapshot_velocity(snapshot: Seq<(u64, u8)>, id: u64) -> Option<u8>
    decreases snapshot.len(),
{
    if snapshot.len() == 0 {
        None
    } else if snapshot[0].0 == id {
        Some(snapshot[0].1)
    } else {
        snapshot_velocity(snapshot.drop_first(), id)
    }
}

/// A note with the velocity that a snapshot holds for it.
pub open spec fn restored(note: MidiNote, snapshot: Seq<(u64, u8)>) -> MidiNote {
    match snapshot_velocity(snapshot, note.id) {
        Some(v) => MidiNote { velocity: v, ..note },
        None => note,
    }
}

proof fn lemma_snapshot_found(snapshot: Seq<(u64, u8)>, id: u64, at: int)
    requires
        0 <= at <= snapshot.len(),
        forall|k: int| 0 <= k < at ==> (#[trigger] snapshot[k]).0 != id,
        at < snapshot.len() ==> snapshot[at].0 == id,
    ensures
        snapshot_velocity(snapshot, id) == (if at < snapshot.len() {
            Some(snapshot[at].1)
        } else {
            None
        }),
    decreases snapshot.len(),
{
    if snapshot.len() > 0 && at > 0 {
        assert(snapshot[0].0 != id);
        let rest = snapshot.drop_first();
        assert forall|k: int| 0 <= k < at - 1 implies (#[trigger] rest[k]).0 != id by {
            assert(rest[k] == snapshot[k + 1]);
        }
        lemma_snapshot_found(rest, id, at - 1);
    }
}

fn find_snapshot(snapshot: &Vec<(u64, u8)>, id: u64) -> (r: Option<u8>)
    ensures
        r == snapshot_velocity(snapshot@, id),
{
    let mut i: usize = 0;
    while i < snapshot.len()
        invariant
            i <= snapshot@.len(),
            forall|k: int| 0 <= k < i ==> (#[trigger] snapshot@[k]).0 != id,
        decreases snapshot@.len() - i,
    {
        if snapshot[i].0 == id {
            proof {
                lemma_snapshot_found(snapshot@, id, i as int);
            }
            return Some(snapshot[i].1);
        }
        i = i + 1;
    }
    proof {
        lemma_snapshot_found(snapshot@, id, snapshot@.len() as int);
    }
    None
}

/// Gives every note that the snapshot names its velocity back.
pub fn restore_velocity_values(notes: &mut Vec<MidiNote>, snapshot: &Vec<(u64, u8)>)
    ensures
        final(notes)@ == old(notes)@.map_values(|n: MidiNote| restored(n, snapshot@)),
{
    let ghost before = notes@;
    let mut i: usize = 0;
    while i < notes.len()
        invariant
            notes@.len() == before.len(),
            i <= before.len(),
            forall|k: int| 0 <= k < i ==> #[trigger] notes@[k] == restored(before[k], snapshot@),
            forall|k: int| i <= k < before.len() ==> #[trigger] notes@[k] == before[k],
        decreases before.len() - i,
    {
        match find_snapshot(snapshot, notes[i].id) {
            Some(v) => {
                let note = notes[i];
                notes.set(i, MidiNote { velocity: v, ..note });
            },
            None => {},
        }
        i = i + 1;
    }
    assert(notes@ =~= before.map_values(|n: MidiNote| restored(n, snapshot@)));
}

/// Velocity that the last entry for an id holds.
pub open spec fn latest_velocity(updates: Seq<(u64, u8)>, id: u64) -> Option<u8>
    decreases updates.len(),
{
    if updates.len() == 0 {
        None
    } else if updates.last().0 == id {
        Some(updates.last().1)
    } else {
        latest_velocity(updates.drop_last(), id)
    }
}

/// A note with the velocity that a list of updates gives it.
pub open spec fn updated(note: MidiNote, updates: Seq<(u64, u8)>) -> MidiNote {
    match latest_velocity(updates, note.id) {
        Some(v) => MidiNote { velocity: v, ..note },
        None => note,
    }
}

/// Sets the velocities that `updates` lists, in order.
pub fn set_velocities(notes: &mut Vec<MidiNote>, updates: &Vec<(u64, u8)>)
    ensures
        final(notes)@ == old(notes)@.map_values(|n: MidiNote| updated(n, updates@)),
{
    let ghost before = notes@;
    let mut j: usize = 0;
    assert(before =~= before.map_values(|n: MidiNote| updated(n, updates@.subrange(0, 0))));
    while j < updates.len()
        invariant
            j <= updates@.len(),
            notes@ == before.map_values(|n: MidiNote| updated(n, updates@.subrange(0, j as int))),
        decreases updates@.len() - j,
    {
        let (id, v) = updates[j];
        let ghost mid = notes@;
        let ghost done = updates@.subrange(0, j + 1);
        let mut i: usize = 0;
        while i < notes.len()
            invariant
                notes@.len() == mid.len(),
                i <= mid.len(),
                forall|k: int|
                    0 <= k < i ==> #[trigger] notes@[k] == (if mid[k].id == id {
                        MidiNote { velocity: v, ..mid[k] }
                    } else {
                        mid[k]
                    }),
                forall|k: int| i <= k < mid.len() ==> #[trigger] notes@[k] == mid[k],
            decreases mid.len() - i,
        {
            let note = notes[i];
            if note.id == id {
                notes.set(i, MidiNote { velocity: v, ..note });
            }
            i = i + 1;
        }
        proof {
            assert(done.drop_last() =~= updates@.subrange(0, j as int));
            assert(done.last() == (id, v));
            assert(notes@ =~= before.map_values(|n: MidiNote| updated(n, done)));
        }
        j = j + 1;
    }
    assert(updates@.subrange(0, updates@.len() as int) =~= updates@);
}

/// `(id, velocity)` of every note.
pub open spec fn velocity_snapshot(notes: Seq<MidiNote>) -> Seq<(u64, u8)> {
    notes.map_values(|n: MidiNote| (n.id, n.velocity))
}

/// `(id, velocity)` of every note.
pub fn snapshot_velocities(notes: &Vec<MidiNote>) -> (out: Vec<(u64, u8)>)
    ensures
        out@ == velocity_snapshot(notes@),
{
    let mut out: Vec<(u64, u8)> = Vec::new();
    let mut i: usize = 0;
    while i < notes.len()
        invariant
            i <= notes@.len(),
            out@.len() == i,
            forall|k: int| 0 <= k < i ==> #[trigger] out@[k] == (notes@[k].id, notes@[k].velocity),
        decreases notes@.len() - i,
    {
        out.push((notes[i].id, notes[i].velocity));
        i = i + 1;
    }
    assert(out@ =~= velocity_snapshot(notes@));
    out
}

/// Whatever velocities a gesture sets, restoring the snapshot taken before it
/// gives back the notes as they were.
pub proof fn law_cancel_restores_velocities(notes: Seq<MidiNote>, updates: Seq<(u64, u8)>)
    requires
        crate::midi::distinct_notes(notes),
    ensures
        notes.map_values(|n: MidiNote| updated(n, updates)).map_values(
            |n: MidiNote| restored(n, velocity_snapshot(notes)),
        ) == notes,
{
    let snap = velocity_snapshot(notes);
    let changed = notes.map_values(|n: MidiNote| updated(n, updates));
    assert forall|i: int| 0 <= i < notes.len() implies restored(#[trigger] changed[i], snap) == notes[i] by {
        assert(changed[i] == updated(notes[i], updates));
        assert(changed[i].id == notes[i].id);
        assert forall|k: int| 0 <= k < i implies (#[trigger] snap[k]).0 != notes[i].id by {
            assert(snap[k].0 == notes[k].id);
        }
        assert(snap[i] == (notes[i].id, notes[i].velocity));
        lemma_snapshot_found(snap, notes[i].id, i);
    }
    assert(changed.map_values(|n: MidiNote| restored(n, snap)) =~= notes);
}

/// A gesture that writes velocities for the same notes again replaces what it
/// wrote before.
pub proof fn law_later_velocity_updates_replace_earlier(
    notes: Seq<MidiNote>,
    first: Seq<(u64, u8)>,
    second: Seq<(u64, u8)>,
)
    requires
        forall|id: u64| latest_velocity(first, id) is Some ==> #[trigger] latest_velocity(second, id) is Some,
    ensures
        notes.map_values(|n: MidiNote| updated(n, first)).map_values(|n: MidiNote| updated(n, second))
            == notes.map_values(|n: MidiNote| updated(n, second)),
{
    let once = notes.map_values(|n: MidiNote| updated(n, first));
    let twice = once.map_values(|n: MidiNote| updated(n, second));
    assert forall|i: int| 0 <= i < notes.len() implies #[trigger] twice[i] == updated(notes[i], second) by {
        assert(once[i] == updated(notes[i], first));
        assert(once[i].id == notes[i].id);
    }
    assert(twice =~= notes.map_values(|n: MidiNote| updated(n, second)));
}

/// An update sets the velocity of the note that it names, the last one for it
/// counts, and nothing else of the note and no other note changes.
pub proof fn law_updates_set_what_they_name(note: MidiNote, updates: Seq<(u64, u8)>, at: int)
    requires
        0 <= at <= updates.len(),
        at < updates.len() ==> updates[at].0 == note.id,
        forall|k: int| at < k < updates.len() ==> (#[trigger] updates[k]).0 != note.id,
        at == updates.len() ==> forall|k: int| 0 <= k < updates.len() ==> (#[trigger] updates[k]).0 != note.id,
    ensures
        at < updates.len() ==> updated(note, updates) == (MidiNote { velocity: updates[at].1, ..note }),
        at == updates.len() ==> updated(note, updates) == note,
    decreases updates.len(),
{
    if updates.len() > 0 && at != updates.len() - 1 {
        let front = updates.drop_last();
        assert(updates[updates.len() - 1].0 != note.id);
        assert forall|k: int| 0 <= k < front.len() implies (#[trigger] front[k]) == updates[k] by {}
        if at == updates.len() {
            law_updates_set_what_they_name(note, front, front.len() as int);
        } else {
            law_updates_set_what_they_name(note, front, at);
        }
    }
}

} // verus!
