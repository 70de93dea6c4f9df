//! Grid resolutions, snapping, and the tiers of grid lines.

use crate::fixed::{
    lemma_nearest_bound, magnitude, max_i64, max_of, nearest, nearest_div, on_axis, MIN_NOTE_TICKS, POSITION_LIMIT, PX,
    TICKS_PER_BEAT,
};
use vstd::prelude::*;

verus! {

/// Distance below which a beat still counts as lying on a multiple.
pub const MULTIPLE_TOLERANCE: i64 = 960;

/// Strength tier of a vertical timing grid line.
#[derive(Debug, Clone, Copy, PartialEq, Eq, Structural)]
pub enum GridLineKind {
    Bar,
    Beat,
    Subdivision,
}

impl GridLineKind {
    /// Hundredths of full opacity that the tier is painted at.
    pub open spec fn spec_alpha(self) -> u8 {
        match self {
            GridLineKind::Bar => 26,
            GridLineKind::Beat => 13,
            GridLineKind::Subdivision => 6,
        }
    }

    /// Opacity of the tier, in hundredths.
    pub fn alpha(self) -> (a: u8)
        ensures
            a == self.spec_alpha(),
    {
        match self {
            GridLineKind::Bar => 26,
            GridLineKind::Beat => 13,
            GridLineKind::Subdivision => 6,
        }
    }
}

/// Grid and snap resolution of the piano roll.
///
/// `Free` disables snapping. `Adaptive` follows the horizontal zoom. The triplet
/// variants step by two thirds of the straight note.
#[derive(Debug, Clone, Copy, PartialEq, Eq, Structural)]
pub enum GridRes {
    Free,
    Adaptive,
    Bar,
    Whole,
    Half,
    Quarter,
    Eighth,
    Sixteenth,
    ThirtySecond,
    SixtyFourth,
    QuarterTriplet,
    EighthTriplet,
    SixteenthTriplet,
}

/// How many resolutions there are.
pub const GRID_RES_COUNT: usize = 13;

impl GridRes {
    /// Place of the resolution in the menu.
    pub open spec fn rank(self) -> int {
        match self {
            GridRes::Free => 0,
            GridRes::Adaptive => 1,
            GridRes::Bar => 2,
            GridRes::Whole => 3,
            GridRes::Half => 4,
            GridRes::Quarter => 5,
            GridRes::Eighth => 6,
            GridRes::Sixteenth => 7,
            GridRes::ThirtySecond => 8,
            GridRes::SixtyFourth => 9,
            GridRes::QuarterTriplet => 10,
            GridRes::EighthTriplet => 11,
            GridRes::SixteenthTriplet => 12,
        }
    }

    /// Every resolution, in menu order.
    pub fn all() -> (list: Vec<GridRes>)
        ensures
            list@.len() == GRID_RES_COUNT,
            forall|i: int| 0 <= i < list@.len() ==> (#[trigger] list@[i]).rank() == i,
    {
        vec![
            GridRes::Free,
            GridRes::Adaptive,
            GridRes::Bar,
            GridRes::Whole,
            GridRes::Half,
            GridRes::Quarter,
            GridRes::Eighth,
            GridRes::Sixteenth,
            GridRes::ThirtySecond,
            GridRes::SixtyFourth,
            GridRes::QuarterTriplet,
            GridRes::EighthTriplet,
            GridRes::SixteenthTriplet,
        ]
    }

    /// Step of a fixed resolution in ticks; zero for `Free` and `Adaptive`.
    pub open spec fn spec_fixed_beats(self) -> int {
        match self {
            GridRes::Free | GridRes::Adaptive => 0,
            GridRes::Bar | GridRes::Whole => 4 * TICKS_PER_BEAT,
            GridRes::Half => 2 * TICKS_PER_BEAT,
            GridRes::Quarter => TICKS_PER_BEAT as int,
            GridRes::Eighth => TICKS_PER_BEAT as int / 2,
            GridRes::Sixteenth => TICKS_PER_BEAT as int / 4,
            GridRes::ThirtySecond => TICKS_PER_BEAT as int / 8,
            GridRes::SixtyFourth => TICKS_PER_BEAT as int / 16,
            GridRes::QuarterTriplet => 2 * TICKS_PER_BEAT as int / 3,
            GridRes::EighthTriplet => TICKS_PER_BEAT as int / 3,
            GridRes::SixteenthTriplet => TICKS_PER_BEAT as int / 6,
        }
    }

    /// Step of a fixed resolution in ticks; zero for `Free` and `Adaptive`,
    /// which [`grid_step_beats`] resolves.
    pub fn fixed_beats(self) -> (step: i64)
        ensures
            step == self.spec_fixed_beats(),
    {
        match self {
            GridRes::Free => 0,
            GridRes::Adaptive => 0,
            GridRes::Bar => 3_840_000,
            GridRes::Whole => 3_840_000,
            GridRes::Half => 1_920_000,
            GridRes::Quarter => 960_000,
            GridRes::Eighth => 480_000,
            GridRes::Sixteenth => 240_000,
            GridRes::ThirtySecond => 120_000,
            GridRes::SixtyFourth => 60_000,
            GridRes::QuarterTriplet => 640_000,
            GridRes::EighthTriplet => 320_000,
            GridRes::SixteenthTriplet => 160_000,
        }
    }

    /// Text of the resolution in the menu.
    pub open spec fn spec_label(self) -> Seq<char> {
        match self {
            GridRes::Free => "Free"@,
            GridRes::Adaptive => "Adaptive"@,
            GridRes::Bar => "1 Bar"@,
            GridRes::Whole => "1/1"@,
            GridRes::Half => "1/2"@,
            GridRes::Quarter => "1/4"@,
            GridRes::Eighth => "1/8"@,
            GridRes::Sixteenth => "1/16"@,
            GridRes::ThirtySecond => "1/32"@,
            GridRes::SixtyFourth => "1/64"@,
            GridRes::QuarterTriplet => "1/4T"@,
            GridRes::EighthTriplet => "1/8T"@,
            GridRes::SixteenthTriplet => "1/16T"@,
        }
    }

    /// Text of the resolution in the menu.
    pub fn label(self) -> (s: &'static str)
        ensures
            s@ == self.spec_label(),
    {
        match self {
            GridRes::Free => "Free",
            GridRes::Adaptive => "Adaptive",
            GridRes::Bar => "1 Bar",
            GridRes::Whole => "1/1",
            GridRes::Half => "1/2",
            GridRes::Quarter => "1/4",
            GridRes::Eighth => "1/8",
            GridRes::Sixteenth => "1/16",
            GridRes::ThirtySecond => "1/32",
            GridRes::SixtyFourth => "1/64",
            GridRes::QuarterTriplet => "1/4T",
            GridRes::EighthTriplet => "1/8T",
            GridRes::SixteenthTriplet => "1/16T",
        }
    }

    /// The next resolution in menu order, the first after the last.
    pub fn cycle(self) -> (next: GridRes)
        ensures
            next.rank() == (self.rank() + 1) % GRID_RES_COUNT as int,
    {
        match self {
            GridRes::Free => GridRes::Adaptive,
            GridRes::Adaptive => GridRes::Bar,
            GridRes::Bar => GridRes::Whole,
            GridRes::Whole => GridRes::Half,
            GridRes::Half => GridRes::Quarter,
            GridRes::Quarter => GridRes::Eighth,
            GridRes::Eighth => GridRes::Sixteenth,
            GridRes::Sixteenth => GridRes::ThirtySecond,
            GridRes::ThirtySecond => GridRes::SixtyFourth,
            GridRes::SixtyFourth => GridRes::QuarterTriplet,
            GridRes::QuarterTriplet => GridRes::EighthTriplet,
            GridRes::EighthTriplet => GridRes::SixteenthTriplet,
            GridRes::SixteenthTriplet => GridRes::Free,
        }
    }

    /// `true` for the resolution that does not snap.
    pub fn is_free(self) -> (r: bool)
        ensures
            r == (self == GridRes::Free),
    {
        matches!(self, GridRes::Free)
    }
}

/// Two resolutions at one place in the menu are one resolution.
pub proof fn law_grid_rank_names_one_resolution(a: GridRes, b: GridRes)
    ensures
        a.rank() == b.rank() ==> a == b,
        0 <= a.rank() < GRID_RES_COUNT,
{
}

/// `beat` moved to the nearest multiple of `step`, never before beat zero. A
/// step of zero or less leaves the beat where it is.
pub open spec fn snapped(beat: int, step: int) -> int {
    if step <= 0 {
        max_of(beat, 0)
    } else {
        max_of(nearest(beat, step) * step, 0)
    }
}

/// Snaps `beat` to the grid of `step` ticks.
pub fn snap_beat_to_step(beat: i64, step: i64) -> (r: i64)
    requires
        on_axis(beat as int),
        step <= POSITION_LIMIT,
    ensures
        r == snapped(beat as int, step as int),
{
    if step <= 0 {
        max_i64(beat, 0)
    } else {
        let q: i128 = nearest_div(beat as i128, step as i128);
        proof {
            crate::fixed::lemma_nearest_bound(beat as int, step as int);
            assert(-0x1_0000_0000_0000_0000 < q * step < 0x1_0000_0000_0000_0000);
            assert(magnitude(q as int) <= 4 * POSITION_LIMIT) by (nonlinear_arith)
                requires
                    step >= 1,
                    -step <= 2 * (q * step - beat) <= step,
                    step <= POSITION_LIMIT,
                    -POSITION_LIMIT <= beat <= POSITION_LIMIT,
            ;
        }
        let s: i128 = q * (step as i128);
        max_i64(s as i64, 0)
    }
}

/// Snapping a snapped beat changes nothing.
pub proof fn law_snap_is_idempotent(beat: int, step: int)
    ensures
        snapped(snapped(beat, step), step) == snapped(beat, step),
{
    if step > 0 {
        let k = nearest(beat, step);
        crate::fixed::lemma_nearest_of_multiple(k, step);
        crate::fixed::lemma_nearest_of_multiple(0, step);
        assert(0 * step == 0);
        crate::fixed::lemma_nearest_bound(beat, step);
    }
}

/// No multiple of the step lies nearer to a beat at or after zero than the beat
/// it snaps to.
pub proof fn law_snap_is_nearest(beat: int, step: int, k: int)
    requires
        step > 0,
        beat >= 0,
    ensures
        magnitude(snapped(beat, step) - beat) <= magnitude(k * step - beat),
        2 * magnitude(snapped(beat, step) - beat) <= step,
{
    crate::fixed::lemma_nearest_bound(beat, step);
    let q = nearest(beat, step);
    assert(q * step >= 0) by (nonlinear_arith)
        requires
            q >= 0,
            step > 0,
    ;
    let d = k - q;
    assert(k * step - q * step == d * step) by (nonlinear_arith)
        requires
            d == k - q,
    ;
    if d >= 1 {
        assert(d * step >= step) by (nonlinear_arith)
            requires
                d >= 1,
                step > 0,
        ;
    } else if d <= -1 {
        assert(d * step <= -step) by (nonlinear_arith)
            requires
                d <= -1,
                step > 0,
        ;
    }
}

/// Snapping keeps the order of beats.
pub proof fn law_snap_keeps_order(a: int, b: int, step: int)
    requires
        a <= b,
    ensures
        snapped(a, step) <= snapped(b, step),
{
    if step > 0 {
        crate::fixed::lemma_nearest_monotone(a, b, step);
        let p = nearest(a, step);
        let q = nearest(b, step);
        assert(p * step <= q * step) by (nonlinear_arith)
            requires
                p <= q,
                step > 0,
        ;
    }
}

/// Step in ticks that the adaptive grid takes at a zoom of `ppb` micro-pixels
/// per beat: four beats below 8 pixels, halving with each doubling of the zoom
/// down to a sixteenth of a beat.
pub open spec fn adaptive_step(ppb: int) -> int {
    if ppb < 8 * PX {
        4 * TICKS_PER_BEAT
    } else if ppb < 16 * PX {
        2 * TICKS_PER_BEAT
    } else if ppb < 32 * PX {
        TICKS_PER_BEAT as int
    } else if ppb < 64 * PX {
        TICKS_PER_BEAT as int / 2
    } else if ppb < 128 * PX {
        TICKS_PER_BEAT as int / 4
    } else if ppb < 256 * PX {
        TICKS_PER_BEAT as int / 8
    } else {
        TICKS_PER_BEAT as int / 16
    }
}

/// Step of the adaptive grid at Zoom X `ppb`.
pub fn adaptive_step_beats(ppb: i64) -> (step: i64)
    ensures
        step == adaptive_step(ppb as int),
{
    if ppb < 8_000_000 {
        3_840_000
    } else if ppb < 16_000_000 {
        1_920_000
    } else if ppb < 32_000_000 {
        960_000
    } else if ppb < 64_000_000 {
        480_000
    } else if ppb < 128_000_000 {
        240_000
    } else if ppb < 256_000_000 {
        120_000
    } else {
        60_000
    }
}

/// Zooming in never makes the adaptive grid coarser.
pub proof fn law_adaptive_grid_refines_with_zoom(near: int, far: int)
    requires
        far <= near,
    ensures
        adaptive_step(near) <= adaptive_step(far),
{
}

/// Grid step of a resolution at a zoom; zero for `Free`.
pub open spec fn grid_step(grid_res: GridRes, ppb: int) -> int {
    match grid_res {
        GridRes::Free => 0,
        GridRes::Adaptive => adaptive_step(ppb),
        other => other.spec_fixed_beats(),
    }
}

/// Grid step in ticks for `grid_res` at Zoom X `ppb`, zero for `Free`. Notes and
/// the published viewport both take their step from here.
pub fn grid_step_beats(grid_res: GridRes, ppb: i64) -> (step: i64)
    ensures
        step == grid_step(grid_res, ppb as int),
        0 <= step <= 4 * TICKS_PER_BEAT,
{
    match grid_res {
        GridRes::Free => 0,
        GridRes::Adaptive => adaptive_step_beats(ppb),
        other => other.fixed_beats(),
    }
}

/// Step that the viewport publishes: zero where nothing snaps.
pub open spec fn published_step(snap_on: bool, grid_res: GridRes, ppb: int) -> int {
    if !snap_on || grid_res == GridRes::Free {
        0
    } else {
        max_of(grid_step(grid_res, ppb), MIN_NOTE_TICKS as int)
    }
}

/// Snap step published on the viewport; zero when snapping is off or the grid is
/// `Free`.
pub fn viewport_snap_step(snap_on: bool, grid_res: GridRes, ppb: i64) -> (step: i64)
    ensures
        step == published_step(snap_on, grid_res, ppb as int),
        0 <= step <= 4 * TICKS_PER_BEAT,
{
    if !snap_on || grid_res.is_free() {
        return 0;
    }
    max_i64(grid_step_beats(grid_res, ppb), MIN_NOTE_TICKS)
}

/// While snapping is on, a lane and the notes above it use one step.
pub proof fn law_viewport_and_notes_share_the_step(grid_res: GridRes, ppb: int)
    requires
        grid_res != GridRes::Free,
    ensures
        published_step(true, grid_res, ppb) == grid_step(grid_res, ppb),
        published_step(false, grid_res, ppb) == 0,
{
}

/// `beat` lies within the tolerance of a whole multiple of `m`.
pub open spec fn near_multiple(beat: int, m: int) -> bool {
    m > 0 && magnitude(beat - nearest(beat, m) * m) < MULTIPLE_TOLERANCE
}

/// `true` when `beat` is, within the tolerance, a whole multiple of `m`.
pub fn is_multiple(beat: i64, m: i64) -> (r: bool)
    requires
        -4 * POSITION_LIMIT <= beat <= 4 * POSITION_LIMIT,
        m <= 1024 * POSITION_LIMIT,
    ensures
        r == near_multiple(beat as int, m as int),
{
    if m <= 0 {
        return false;
    }
    let q: i128 = nearest_div(beat as i128, m as i128);
    proof {
        crate::fixed::lemma_nearest_bound(beat as int, m as int);
        assert(magnitude(q as int) <= 16 * POSITION_LIMIT) by (nonlinear_arith)
            requires
                m >= 1,
                -m <= 2 * (q * m - beat) <= m,
                -4 * POSITION_LIMIT <= beat <= 4 * POSITION_LIMIT,
        ;
    }
    let rest: i128 = beat as i128 - q * (m as i128);
    -(MULTIPLE_TOLERANCE as i128) < rest && rest < MULTIPLE_TOLERANCE as i128
}

/// The straight lengths halve from each to the next, and three of a triplet last
/// as long as two straight ones.
pub proof fn law_grid_lengths_are_note_lengths(beat: int)
    requires
        beat == TICKS_PER_BEAT,
    ensures
        GridRes::Bar.spec_fixed_beats() == 4 * beat,
        GridRes::Whole.spec_fixed_beats() == 4 * beat,
        2 * GridRes::Half.spec_fixed_beats() == GridRes::Whole.spec_fixed_beats(),
        2 * GridRes::Quarter.spec_fixed_beats() == GridRes::Half.spec_fixed_beats(),
        2 * GridRes::Eighth.spec_fixed_beats() == GridRes::Quarter.spec_fixed_beats(),
        2 * GridRes::Sixteenth.spec_fixed_beats() == GridRes::Eighth.spec_fixed_beats(),
        2 * GridRes::ThirtySecond.spec_fixed_beats() == GridRes::Sixteenth.spec_fixed_beats(),
        2 * GridRes::SixtyFourth.spec_fixed_beats() == GridRes::ThirtySecond.spec_fixed_beats(),
        3 * GridRes::QuarterTriplet.spec_fixed_beats() == 2 * GridRes::Quarter.spec_fixed_beats(),
        3 * GridRes::EighthTriplet.spec_fixed_beats() == 2 * GridRes::Eighth.spec_fixed_beats(),
        3 * GridRes::SixteenthTriplet.spec_fixed_beats() == 2 * GridRes::Sixteenth.spec_fixed_beats(),
{
}

/// The adaptive step is the length that is between sixteen and thirty-two pixels
/// wide, from a bar at the widest view down to a sixteenth of a beat.
pub proof fn law_adaptive_step_is_a_handy_width(ppb: int)
    requires
        4 * PX <= ppb < 512 * PX,
    ensures
        16 * PX * TICKS_PER_BEAT <= adaptive_step(ppb) * ppb < 32 * PX * TICKS_PER_BEAT,
{
    let s = adaptive_step(ppb);
    if ppb < 8 * PX {
        assert(s * ppb == 3_840_000 * ppb);
    } else if ppb < 16 * PX {
        assert(s * ppb == 1_920_000 * ppb);
    } else if ppb < 32 * PX {
        assert(s * ppb == 960_000 * ppb);
    } else if ppb < 64 * PX {
        assert(s * ppb == 480_000 * ppb);
    } else if ppb < 128 * PX {
        assert(s * ppb == 240_000 * ppb);
    } else if ppb < 256 * PX {
        assert(s * ppb == 120_000 * ppb);
    } else {
        assert(s * ppb == 60_000 * ppb);
    }
}

/// A snapped beat is on the grid, within half a step; without a step a beat stays
/// where it is.
pub proof fn law_snapped_beats_are_on_the_grid(beat: int, step: int)
    requires
        beat >= 0,
    ensures
        step <= 0 ==> snapped(beat, step) == beat,
        step > 0 ==> snapped(beat, step) % step == 0 && -step <= 2 * (snapped(beat, step) - beat) <= step,
{
    if step > 0 {
        let k = nearest(beat, step);
        lemma_nearest_bound(beat, step);
        vstd::arithmetic::mul::lemma_mul_nonnegative(k, step);
        vstd::arithmetic::div_mod::lemma_mod_multiples_basic(k, step);
    }
}

} // verus!
