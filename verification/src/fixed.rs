//! Units of the two axes, and division that rounds the way the axes need.

use vstd::prelude::*;

verus! {

/// Ticks in one beat. Every grid step, triplets among them, and every tolerance
/// of the editor is a whole number of ticks.
pub const TICKS_PER_BEAT: i64 = 960_000;

/// Micro-pixels in one pixel.
pub const PX: i64 = 1_000_000;

/// Pitch units in one semitone.
pub const SEMITONE: i64 = 1_000_000;

/// Controller value that stands for full scale.
pub const VALUE_ONE: i64 = 1_000_000_000;

/// Largest magnitude of a position on either axis.
pub const POSITION_LIMIT: i64 = 70_368_744_177_664;

/// Shortest note, and shortest step that notes snap to: 1/32 of a beat.
pub const MIN_NOTE_TICKS: i64 = 30_000;

/// Latest beat, in ticks, of anything on a track.
pub const SONG_LIMIT: i64 = 68_719_476_736;

/// Largest window coordinate, in micro-pixels.
pub const WINDOW_LIMIT: i64 = 68_719_476_736;

/// Latest beat, in ticks, at the left edge of the view.
pub const SCROLL_TICKS: i64 = 137_438_953_472;

/// Latest beat, in ticks, that a pointer can be over.
pub const BEAT_LIMIT: i64 = 270_000_000_000;

/// Largest number of notes or points in a clip.
pub const COUNT_LIMIT: usize = 0x4000_0000;

/// First id that is not handed out any more: gestures number what they create
/// from an id below it.
pub const ID_LIMIT: u64 = 0x4000_0000_0000_0000;

/// `x` is a position that the axes can hold.
pub open spec fn on_axis(x: int) -> bool {
    -POSITION_LIMIT <= x <= POSITION_LIMIT
}

pub open spec fn max_of(a: int, b: int) -> int {
    if a >= b {
        a
    } else {
        b
    }
}

pub open spec fn min_of(a: int, b: int) -> int {
    if a <= b {
        a
    } else {
        b
    }
}

pub open spec fn clamp_to(x: int, lo: int, hi: int) -> int {
    if x < lo {
        lo
    } else if x > hi {
        hi
    } else {
        x
    }
}

pub open spec fn magnitude(x: int) -> int {
    if x < 0 {
        -x
    } else {
        x
    }
}

/// The whole number nearest to `a / b`; of two equally near, the one further
/// from zero.
pub open spec fn nearest(a: int, b: int) -> int {
    if a >= 0 {
        (2 * a + b) / (2 * b)
    } else {
        -((b - 2 * a) / (2 * b))
    }
}

pub fn max_i64(a: i64, b: i64) -> (r: i64)
    ensures
        r == max_of(a as int, b as int),
{
    if a >= b {
        a
    } else {
        b
    }
}

pub fn min_i64(a: i64, b: i64) -> (r: i64)
    ensures
        r == min_of(a as int, b as int),
{
    if a <= b {
        a
    } else {
        b
    }
}

pub fn clamp_i64(x: i64, lo: i64, hi: i64) -> (r: i64)
    ensures
        r == clamp_to(x as int, lo as int, hi as int),
{
    if x < lo {
        lo
    } else if x > hi {
        hi
    } else {
        x
    }
}

pub proof fn lemma_quotient_unique(a: int, b: int, q: int, r: int)
    requires
        b > 0,
        a == q * b + r,
        0 <= r < b,
    ensures
        a / b == q,
        a % b == r,
{
    vstd::arithmetic::div_mod::lemma_fundamental_div_mod_converse(a, b, q, r);
}

/// Floor division: the largest whole number not above `a / b`.
pub fn floor_div(a: i128, b: i128) -> (q: i128)
    requires
        b > 0,
        i128::MIN < a,
    ensures
        q == a as int / b as int,
{
    if a >= 0 {
        (a as u128 / b as u128) as i128
    } else {
        let m: u128 = (-(a + 1)) as u128;
        let d: u128 = b as u128;
        let q: u128 = m / d;
        proof {
            let rest = m as int - q as int * d as int;
            vstd::arithmetic::div_mod::lemma_fundamental_div_mod(m as int, d as int);
            assert(d as int * q as int == q as int * d as int) by (nonlinear_arith);
            vstd::arithmetic::div_mod::lemma_div_nonincreasing(m as int, d as int);
            let top = -1 - q as int;
            assert(a as int == top * b as int + (b as int - 1 - rest)) by (nonlinear_arith)
                requires
                    a as int == -1 - m as int,
                    d as int == b as int,
                    rest == m as int - q as int * d as int,
                    top == -1 - q as int,
            ;
            lemma_quotient_unique(a as int, b as int, top, b as int - 1 - rest);
        }
        -1 - (q as i128)
    }
}

/// Division that rounds to the nearest whole number, halves away from zero.
pub fn nearest_div(a: i128, b: i128) -> (q: i128)
    requires
        0 < b <= 0x40_0000_0000_0000_0000_0000_0000_0000,
        -0x1000_0000_0000_0000_0000_0000_0000_0000 <= a <= 0x1000_0000_0000_0000_0000_0000_0000_0000,
    ensures
        q == nearest(a as int, b as int),
{
    if a >= 0 {
        floor_div(2 * a + b, 2 * b)
    } else {
        let q: i128 = floor_div(b - 2 * a, 2 * b);
        proof {
            vstd::arithmetic::div_mod::lemma_div_pos_is_pos(b as int - 2 * a as int, 2 * b as int);
        }
        -q
    }
}

/// The rounded quotient is within half a divisor of the dividend.
pub proof fn lemma_nearest_bound(a: int, b: int)
    requires
        b > 0,
    ensures
        -b <= 2 * (nearest(a, b) * b - a) <= b,
        a >= 0 ==> nearest(a, b) >= 0,
        a <= 0 ==> nearest(a, b) <= 0,
{
    let n = if a >= 0 {
        2 * a + b
    } else {
        b - 2 * a
    };
    let q = n / (2 * b);
    vstd::arithmetic::div_mod::lemma_fundamental_div_mod(n, 2 * b);
    vstd::arithmetic::div_mod::lemma_mod_bound(n, 2 * b);
    assert((2 * b) * q == 2 * (q * b)) by (nonlinear_arith);
    vstd::arithmetic::div_mod::lemma_div_pos_is_pos(n, 2 * b);
    assert((-q) * b == -(q * b)) by (nonlinear_arith);
    if a == 0 {
        vstd::arithmetic::div_mod::lemma_basic_div(b, 2 * b);
    }
}

/// A dividend within half a divisor of a multiple rounds to that multiple.
pub proof fn lemma_nearest_of_near(a: int, b: int, k: int)
    requires
        b > 0,
        -b < 2 * (k * b - a) < b,
    ensures
        nearest(a, b) == k,
{
    lemma_nearest_bound(a, b);
    let q = nearest(a, b);
    assert(q == k) by (nonlinear_arith)
        requires
            b > 0,
            -b < 2 * (k * b - a) < b,
            -b <= 2 * (q * b - a) <= b,
    ;
}

/// Rounding keeps order.
pub proof fn lemma_nearest_monotone(a: int, c: int, b: int)
    requires
        b > 0,
        a <= c,
    ensures
        nearest(a, b) <= nearest(c, b),
{
    if a >= 0 {
        vstd::arithmetic::div_mod::lemma_div_is_ordered(2 * a + b, 2 * c + b, 2 * b);
    } else if c >= 0 {
        lemma_nearest_bound(a, b);
        lemma_nearest_bound(c, b);
    } else {
        vstd::arithmetic::div_mod::lemma_div_is_ordered(b - 2 * c, b - 2 * a, 2 * b);
    }
}

/// Rounding an exact multiple gives the multiplier.
pub proof fn lemma_nearest_of_multiple(k: int, b: int)
    requires
        b > 0,
    ensures
        nearest(k * b, b) == k,
{
    lemma_nearest_of_near(k * b, b, k);
}

/// A product is at most as far from zero as the product of the factors' bounds.
pub proof fn lemma_product_bound(a: int, b: int, m: int, n: int)
    requires
        -m <= a <= m,
        -n <= b <= n,
    ensures
        -(m * n) <= a * b <= m * n,
{
    let x = if a >= 0 {
        a
    } else {
        -a
    };
    let y = if b >= 0 {
        b
    } else {
        -b
    };
    vstd::arithmetic::mul::lemma_mul_upper_bound(x, m, y, n);
    vstd::arithmetic::mul::lemma_mul_nonnegative(x, y);
    vstd::arithmetic::mul::lemma_mul_unary_negation(a, b);
    vstd::arithmetic::mul::lemma_mul_unary_negation(a, -b);
}

/// Bounds on a multiple bound the factor.
pub proof fn lemma_factor_bound(e: int, k: int, d: int)
    requires
        d > 0,
        -(k * d) <= e * d <= k * d,
    ensures
        -k <= e <= k,
{
    vstd::arithmetic::mul::lemma_mul_unary_negation(k, d);
    vstd::arithmetic::mul::lemma_mul_inequality_converse(e, k, d);
    vstd::arithmetic::mul::lemma_mul_inequality_converse(-k, e, d);
}

} // verus!
