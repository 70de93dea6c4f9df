//! Freehand strokes, ramps and moves in a controller lane.

use crate::cc_points::{
    keep_outside, points_outside, push_minted, CC_PAINT_SAMPLE_PX, CC_POINT_MERGE_EPS, CC_SPAN_SLACK,
};
use crate::fixed::{
    clamp_i64, clamp_to, lemma_nearest_bound, magnitude, max_i64, max_of, min_of, nearest, nearest_div, on_axis,
    POSITION_LIMIT, PX, TICKS_PER_BEAT, VALUE_ONE,
};
use crate::grid::snapped;
use crate::midi::MidiControllerPoint;
use crate::viewport::{ClipAxis, PIANO_ROLL_MIN_PPB};
use vstd::prelude::*;

verus! {

/// Value that a height in a lane stands for, as a part of full scale.
pub open spec fn value_at_height(local_y: int, lane_h: int) -> int {
    let h = max_of(lane_h, PX as int);
    nearest(VALUE_ONE * clamp_to(h - local_y, 0, h), h)
}

/// Value at `local_y` in a lane of height `lane_h`.
pub fn value_from_local_y(local_y: i64, lane_h: i64) -> (v: i64)
    requires
        on_axis(local_y as int),
        on_axis(lane_h as int),
    ensures
        v == value_at_height(local_y as int, lane_h as int),
        0 <= v <= VALUE_ONE,
{
    let h: i64 = max_i64(lane_h, PX);
    let n: i64 = clamp_i64(h - local_y, 0, h);
    let a: i128 = 1_000_000_000 * n as i128;
    let q: i128 = nearest_div(a, h as i128);
    proof {
        lemma_nearest_bound(a as int, h as int);
        assert(0 <= q <= 1_000_000_000) by (nonlinear_arith)
            requires
                h > 0,
                0 <= n <= h,
                a == 1_000_000_000 * n,
                -h <= 2 * (q * h - a) <= h,
        ;
    }
    q as i64
}

/// Local y at which a value is drawn: five pixels of air above and below.
pub open spec fn height_of_value(value: int, lane_h: int) -> int {
    nearest((VALUE_ONE - clamp_to(value, 0, VALUE_ONE as int)) * (lane_h - 10 * PX), VALUE_ONE as int) + 5 * PX
}

/// Local y of `value` in a lane of height `lane_h`.
pub fn controller_y_for_value(value: i64, lane_h: i64) -> (y: i64)
    requires
        on_axis(lane_h as int),
    ensures
        y == height_of_value(value as int, lane_h as int),
        -2 * POSITION_LIMIT <= y <= 2 * POSITION_LIMIT,
{
    let d: i64 = lane_h - 10_000_000;
    let c: i64 = 1_000_000_000 - clamp_i64(value, 0, 1_000_000_000);
    proof {
        assert(-1_000_000_000 * 70_368_754_177_664 <= c * d <= 1_000_000_000 * 70_368_754_177_664) by (nonlinear_arith)
            requires
                0 <= c <= 1_000_000_000,
                -70_368_754_177_664 <= d <= 70_368_754_177_664,
        ;
    }
    let n: i128 = c as i128 * d as i128;
    let q: i128 = nearest_div(n, 1_000_000_000);
    proof {
        lemma_nearest_bound(n as int, 1_000_000_000);
    }
    q as i64 + 5_000_000
}

/// Number of steps, `from` or more, that a stroke of squared length `squared`
/// is walked in: one for each sample distance begun.
pub open spec fn stroke_steps(squared: int, from: int) -> int
    decreases squared - from,
{
    let reach = from * CC_PAINT_SAMPLE_PX;
    if from < 1 || reach * reach >= squared || from >= squared {
        from
    } else {
        stroke_steps(squared, from + 1)
    }
}

fn count_stroke_steps(dx: i64, dy: i64) -> (steps: i64)
    requires
        -2 * POSITION_LIMIT <= dx <= 2 * POSITION_LIMIT,
        -2 * POSITION_LIMIT <= dy <= 2 * POSITION_LIMIT,
    ensures
        steps == stroke_steps(dx * dx + dy * dy, 1),
        1 <= steps <= 0x1000_0000,
{
    proof {
        lemma_square_bound(dx as int);
        lemma_square_bound(dy as int);
    }
    let squared: i128 = dx as i128 * dx as i128 + dy as i128 * dy as i128;
    let mut steps: i64 = 1;
    loop
        invariant
            squared == dx * dx + dy * dy,
            0 <= squared <= 8 * (70_368_744_177_664 * 70_368_744_177_664),
            1 <= steps <= 0x1000_0000,
            stroke_steps(squared as int, 1) == stroke_steps(squared as int, steps as int),
        ensures
            steps == stroke_steps(squared as int, 1),
            squared == dx * dx + dy * dy,
            1 <= steps <= 0x1000_0000,
        decreases 0x1000_0000 - steps,
    {
        let reach: i128 = steps as i128 * 2_000_000;
        let ghost greach = reach as int;
        proof {
            assert(greach * greach <= 536_870_912_000_000 * 536_870_912_000_000) by (nonlinear_arith)
                requires
                    0 <= greach <= 536_870_912_000_000,
            ;
            assert(greach * greach >= 0) by (nonlinear_arith);
        }
        if reach * reach >= squared || steps as i128 >= squared {
            break;
        }
        proof {
            if steps >= 0x1000_0000 - 1 {
                assert(greach * greach >= 536_870_910_000_000 * 536_870_910_000_000) by (nonlinear_arith)
                    requires
                        greach >= 536_870_910_000_000,
                ;
                assert(false);
            }
        }
        steps = steps + 1;
    }
    steps
}

proof fn lemma_square_bound(x: int)
    requires
        -2 * POSITION_LIMIT <= x <= 2 * POSITION_LIMIT,
    ensures
        0 <= x * x <= 4 * (70_368_744_177_664 * 70_368_744_177_664),
{
    assert(0 <= x * x <= 4 * (70_368_744_177_664 * 70_368_744_177_664)) by (nonlinear_arith)
        requires
            -2 * 70_368_744_177_664 <= x <= 2 * 70_368_744_177_664,
    ;
}

/// How a lane gesture maps the pointer to beats and values.
#[derive(Debug, Clone, Copy, PartialEq, Eq, Structural)]
pub struct LaneView {
    pub axis: ClipAxis,
    pub lane_h: i64,
    /// Step that beats snap to; zero where the grid does not hold.
    pub snap_step: i64,
    /// Grid step, whether or not snapping is on; zero on the free grid.
    pub grid_step: i64,
}

impl LaneView {
    /// The transform is inside its limits.
    pub open spec fn valid(self) -> bool {
        &&& self.axis.valid()
        &&& self.axis.ppb >= PIANO_ROLL_MIN_PPB
        &&& on_axis(self.lane_h as int)
        &&& 0 <= self.snap_step <= 4 * TICKS_PER_BEAT
        &&& 0 <= self.grid_step <= 4 * TICKS_PER_BEAT
    }

    /// Beat at a local x, on the grid unless `unsnap` lets go of it.
    pub open spec fn live_beat(self, x: int, unsnap: bool) -> int {
        snapped(
            self.axis.beat_at(x),
            if unsnap {
                0
            } else {
                self.snap_step as int
            },
        )
    }

    /// Beat under `x`.
    pub fn beat_under(&self, x: i64, unsnap: bool) -> (beat: i64)
        requires
            self.valid(),
            on_axis(x as int),
        ensures
            beat == self.live_beat(x as int, unsnap),
            0 <= beat <= 4 * POSITION_LIMIT,
    {
        let raw: i64 = self.axis.x_to_clip_beat(x);
        let step: i64 = if unsnap {
            0
        } else {
            self.snap_step
        };
        snap_wide(raw, step)
    }
}

/// Snaps a beat of the doubled axis.
fn snap_wide(beat: i64, step: i64) -> (r: i64)
    requires
        -3 * POSITION_LIMIT <= beat <= 3 * POSITION_LIMIT,
        0 <= step <= 4 * TICKS_PER_BEAT,
    ensures
        r == snapped(beat as int, step as int),
        0 <= r <= 4 * POSITION_LIMIT,
{
    if step <= 0 {
        max_i64(beat, 0)
    } else {
        let q: i128 = nearest_div(beat as i128, step as i128);
        proof {
            lemma_nearest_bound(beat as int, step as int);
            assert(-4 * 70_368_744_177_664 <= q <= 4 * 70_368_744_177_664) by (nonlinear_arith)
                requires
                    step >= 1,
                    -step <= 2 * (q * step - beat) <= step,
                    -3 * 70_368_744_177_664 <= beat <= 3 * 70_368_744_177_664,
            ;
            assert(q * step == step * q) by (nonlinear_arith);
            assert(-0x1_0000_0000_0000_0000 <= q * step <= 0x1_0000_0000_0000_0000);
        }
        let s: i128 = q * (step as i128);
        max_i64(s as i64, 0)
    }
}

/// Position `i / steps` of the way from one coordinate to another.
pub open spec fn part_way(from: int, to: int, i: int, steps: int) -> int {
    from + nearest((to - from) * i, steps)
}

fn walk_to(from: i64, to: i64, i: i64, steps: i64) -> (r: i64)
    requires
        on_axis(from as int),
        on_axis(to as int),
        0 <= i <= steps,
        1 <= steps <= 0x1000_0000_0000,
    ensures
        r == part_way(from as int, to as int, i as int, steps as int),
        on_axis(r as int),
{
    let d: i64 = to - from;
    proof {
        assert(-2 * 70_368_744_177_664 * 0x1000_0000_0000 <= d * i <= 2 * 70_368_744_177_664 * 0x1000_0000_0000)
            by (nonlinear_arith)
            requires
                -2 * 70_368_744_177_664 <= d <= 2 * 70_368_744_177_664,
                0 <= i <= 0x1000_0000_0000,
        ;
    }
    let n: i128 = d as i128 * i as i128;
    let q: i128 = nearest_div(n, steps as i128);
    proof {
        lemma_nearest_bound(n as int, steps as int);
        if d >= 0 {
            assert(0 <= q <= d) by (nonlinear_arith)
                requires
                    d >= 0,
                    n == d * i,
                    0 <= i <= steps,
                    steps >= 1,
                    -steps <= 2 * (q * steps - n) <= steps,
            ;
        } else {
            assert(d <= q <= 0) by (nonlinear_arith)
                requires
                    d < 0,
                    n == d * i,
                    0 <= i <= steps,
                    steps >= 1,
                    -steps <= 2 * (q * steps - n) <= steps,
            ;
        }
    }
    from + q as i64
}

/// A freehand stroke between two pointer positions.
#[derive(Debug, Clone, Copy, PartialEq, Eq, Structural)]
pub struct CcStroke {
    pub from_x: i64,
    pub from_y: i64,
    pub to_x: i64,
    pub to_y: i64,
    pub unsnap: bool,
}

impl CcStroke {
    /// Both ends lie on the axes.
    pub open spec fn valid(self) -> bool {
        on_axis(self.from_x as int) && on_axis(self.from_y as int) && on_axis(self.to_x as int) && on_axis(
            self.to_y as int,
        )
    }

    /// Number of steps that the stroke is walked in.
    pub open spec fn steps(self) -> int {
        let dx = self.to_x - self.from_x;
        let dy = self.to_y - self.from_y;
        stroke_steps(dx * dx + dy * dy, 1)
    }

    /// Beat of the `i`-th sample.
    pub open spec fn beat_of(self, view: LaneView, i: int) -> int {
        view.live_beat(part_way(self.from_x as int, self.to_x as int, i, self.steps()), self.unsnap)
    }

    /// Value of the `i`-th sample.
    pub open spec fn value_of(self, view: LaneView, i: int) -> int {
        value_at_height(part_way(self.from_y as int, self.to_y as int, i, self.steps()), view.lane_h as int)
    }

    /// Samples nearer than this in time are one sample. Without a grid to fall
    /// on, that is the time under one sample distance.
    pub open spec fn min_gap(self, view: LaneView) -> int {
        max_of(
            if self.unsnap || view.grid_step <= 0 {
                magnitude(view.axis.beat_at(CC_PAINT_SAMPLE_PX as int) - view.axis.beat_at(0))
            } else {
                0
            },
            CC_POINT_MERGE_EPS as int,
        )
    }

    /// Samples `0..n` of the stroke; of samples at one place the newest value
    /// stands at the oldest beat.
    pub open spec fn samples(self, view: LaneView, n: int) -> Seq<(int, int)>
        decreases n,
    {
        if n <= 0 {
            Seq::empty()
        } else {
            let before = self.samples(view, n - 1);
            let beat = self.beat_of(view, n - 1);
            let value = self.value_of(view, n - 1);
            if before.len() > 0 && magnitude(beat - before.last().0) <= self.min_gap(view) {
                before.update(before.len() - 1, (before.last().0, value))
            } else {
                before.push((beat, value))
            }
        }
    }

    /// Distance around the stroke within which old points are replaced: half a
    /// grid step, or the sample spacing of a free stroke.
    pub open spec fn reach(self, view: LaneView) -> int {
        if self.unsnap {
            self.min_gap(view)
        } else {
            max_of(view.grid_step as int / 2, CC_POINT_MERGE_EPS as int)
        }
    }

    fn smallest_gap(&self, view: &LaneView) -> (gap: i64)
        requires
            self.valid(),
            view.valid(),
        ensures
            gap == self.min_gap(*view),
            gap >= CC_POINT_MERGE_EPS,
    {
        if self.unsnap || view.grid_step <= 0 {
            let a: i64 = view.axis.x_to_clip_beat(CC_PAINT_SAMPLE_PX);
            let b: i64 = view.axis.x_to_clip_beat(0);
            let d: i64 = if a >= b {
                a - b
            } else {
                b - a
            };
            max_i64(d, CC_POINT_MERGE_EPS)
        } else {
            CC_POINT_MERGE_EPS
        }
    }

    /// Distance around the stroke within which old points are replaced.
    pub fn replace_reach(&self, view: &LaneView) -> (r: i64)
        requires
            self.valid(),
            view.valid(),
        ensures
            r == self.reach(*view),
    {
        if self.unsnap {
            self.smallest_gap(view)
        } else {
            max_i64(view.grid_step / 2, CC_POINT_MERGE_EPS)
        }
    }

    /// The beats and values that the stroke writes: every sample between its
    /// two ends, so that a fast drag still reads as one line.
    pub fn edits(&self, view: &LaneView) -> (out: Vec<(i64, i64)>)
        requires
            self.valid(),
            view.valid(),
        ensures
            out@.len() == self.samples(*view, self.steps() + 1).len(),
            forall|i: int|
                0 <= i < out@.len() ==> (#[trigger] out@[i]).0 == self.samples(*view, self.steps() + 1)[i].0
                    && out@[i].1 == self.samples(*view, self.steps() + 1)[i].1,
            out@.len() <= 0x1000_0001,
    {
        let steps: i64 = count_stroke_steps(self.to_x - self.from_x, self.to_y - self.from_y);
        let gap: i64 = self.smallest_gap(view);
        let mut out: Vec<(i64, i64)> = Vec::new();
        let mut i: i64 = 0;
        while i <= steps
            invariant
                self.valid(),
                view.valid(),
                steps == self.steps(),
                1 <= steps <= 0x1000_0000,
                gap == self.min_gap(*view),
                0 <= i <= steps + 1,
                out@.len() == self.samples(*view, i as int).len(),
                forall|k: int|
                    0 <= k < out@.len() ==> (#[trigger] out@[k]).0 == self.samples(*view, i as int)[k].0 && out@[k].1
                        == self.samples(*view, i as int)[k].1,
                forall|k: int| 0 <= k < out@.len() ==> 0 <= (#[trigger] out@[k]).0 <= 4 * POSITION_LIMIT,
            decreases steps + 1 - i,
        {
            let ghost was = out@;
            let x: i64 = walk_to(self.from_x, self.to_x, i, steps);
            let y: i64 = walk_to(self.from_y, self.to_y, i, steps);
            let beat: i64 = view.beat_under(x, self.unsnap);
            let value: i64 = value_from_local_y(y, view.lane_h);
            let n: usize = out.len();
            let near = if n > 0 {
                let d: i64 = beat - out[n - 1].0;
                -gap <= d && d <= gap
            } else {
                false
            };
            if near {
                let kept: i64 = out[n - 1].0;
                out.set(n - 1, (kept, value));
            } else {
                out.push((beat, value));
            }
            i = i + 1;
            assert(self.samples(*view, i as int) == {
                let before = self.samples(*view, i - 1);
                if before.len() > 0 && magnitude(beat - before.last().0) <= gap {
                    before.update(before.len() - 1, (before.last().0, value as int))
                } else {
                    before.push((beat as int, value as int))
                }
            });
        }
        proof {
            lemma_samples_len(*self, *view, self.steps() + 1);
        }
        out
    }
}

impl CcStroke {
    /// The points that the stroke writes.
    pub open spec fn written(self, view: LaneView) -> Seq<(i64, i64)> {
        self.samples(view, self.steps() + 1).map_values(|p: (int, int)| (p.0 as i64, p.1 as i64))
    }

    /// The points that the stroke writes.
    pub fn points(&self, view: &LaneView) -> (out: Vec<(i64, i64)>)
        requires
            self.valid(),
            view.valid(),
        ensures
            out@ == self.written(*view),
            out@.len() <= 0x1000_0001,
    {
        let out = self.edits(view);
        assert(out@ =~= self.written(*view));
        out
    }
}

proof fn lemma_samples_len(stroke: CcStroke, view: LaneView, n: int)
    ensures
        stroke.samples(view, n).len() <= max_of(n, 0),
    decreases n,
{
    if n > 0 {
        lemma_samples_len(stroke, view, n - 1);
    }
}

/// Target of a moved point: the move of the grabbed point, added to the point's
/// own place.
pub open spec fn moved_point(prev: (u64, i64, i64), d_beat: int, d_value: int) -> (u64, int, int) {
    (prev.0, max_of(prev.1 + d_beat, 0), clamp_to(prev.2 + d_value, 0, VALUE_ONE as int))
}

/// Where the points of a drag go. `prev` lists id, beat and value at the start;
/// every point moves by the same amount as the grabbed one.
pub fn cc_move_targets(prev: &Vec<(u64, i64, i64)>, d_beat: i64, d_value: i64) -> (out: Vec<(u64, i64, i64)>)
    requires
        on_axis(d_beat as int),
        -VALUE_ONE <= d_value <= VALUE_ONE,
        forall|i: int|
            0 <= i < prev@.len() ==> on_axis((#[trigger] prev@[i]).1 as int) && 0 <= prev@[i].2 <= VALUE_ONE,
    ensures
        out@.len() == prev@.len(),
        forall|i: int|
            0 <= i < out@.len() ==> ((#[trigger] out@[i]).0, out@[i].1 as int, out@[i].2 as int) == moved_point(
                prev@[i],
                d_beat as int,
                d_value as int,
            ),
{
    let mut out: Vec<(u64, i64, i64)> = Vec::new();
    let mut i: usize = 0;
    while i < prev.len()
        invariant
            on_axis(d_beat as int),
            -VALUE_ONE <= d_value <= VALUE_ONE,
            forall|k: int|
                0 <= k < prev@.len() ==> on_axis((#[trigger] prev@[k]).1 as int) && 0 <= prev@[k].2 <= VALUE_ONE,
            i <= prev@.len(),
            out@.len() == i,
            forall|k: int|
                0 <= k < i ==> ((#[trigger] out@[k]).0, out@[k].1 as int, out@[k].2 as int) == moved_point(
                    prev@[k],
                    d_beat as int,
                    d_value as int,
                ),
        decreases prev@.len() - i,
    {
        let (id, beat, value) = prev[i];
        let next_beat: i64 = max_i64(beat + d_beat, 0);
        let next_value: i64 = clamp_i64(value + d_value, 0, VALUE_ONE);
        out.push((id, next_beat, next_value));
        i = i + 1;
    }
    out
}

/// While no point reaches an end of the lane, moved points keep their distances,
/// on the grid or off it.
pub proof fn law_cc_move_keeps_distances(a: (u64, i64, i64), b: (u64, i64, i64), d_beat: int, d_value: int)
    requires
        a.1 + d_beat >= 0,
        b.1 + d_beat >= 0,
        0 <= a.2 + d_value <= VALUE_ONE,
        0 <= b.2 + d_value <= VALUE_ONE,
    ensures
        moved_point(a, d_beat, d_value).1 - moved_point(b, d_beat, d_value).1 == a.1 - b.1,
        moved_point(a, d_beat, d_value).2 - moved_point(b, d_beat, d_value).2 == a.2 - b.2,
{
}

/// A straight ramp between two points of the lane, given from left to right.
#[derive(Debug, Clone, Copy, PartialEq, Eq, Structural)]
pub struct CcRamp {
    pub lo_beat: i64,
    pub hi_beat: i64,
    pub lo_value: i64,
    pub hi_value: i64,
    /// Ticks between two points of the ramp.
    pub step: i64,
}

impl CcRamp {
    /// The ends are in order, on the axis and inside the value range.
    pub open spec fn valid(self) -> bool {
        &&& 0 <= self.lo_beat <= self.hi_beat <= POSITION_LIMIT
        &&& 0 <= self.lo_value <= VALUE_ONE
        &&& 0 <= self.hi_value <= VALUE_ONE
        &&& CC_POINT_MERGE_EPS <= self.step <= 4 * TICKS_PER_BEAT
    }

    /// Index of the ramp's last point.
    pub open spec fn count(self) -> int {
        nearest(self.hi_beat - self.lo_beat, self.step as int)
    }

    /// Beat of the `i`-th point.
    pub open spec fn beat_of(self, i: int) -> int {
        min_of(self.lo_beat + self.step * i, self.hi_beat as int)
    }

    /// Value of the ramp at a beat.
    pub open spec fn value_at(self, beat: int) -> int {
        if self.hi_beat <= self.lo_beat {
            self.lo_value as int
        } else {
            clamp_to(
                self.lo_value + nearest(
                    (self.hi_value - self.lo_value) * (beat - self.lo_beat),
                    self.hi_beat - self.lo_beat,
                ),
                0,
                VALUE_ONE as int,
            )
        }
    }

    fn beat_at_index(&self, i: i64) -> (beat: i64)
        requires
            self.valid(),
            0 <= i <= 0x1_0000_0000_0000,
        ensures
            beat == self.beat_of(i as int),
            self.lo_beat <= beat <= self.hi_beat,
    {
        proof {
            assert(0 <= self.step * i <= 3_840_000 * 0x1_0000_0000_0000) by (nonlinear_arith)
                requires
                    0 <= self.step <= 3_840_000,
                    0 <= i <= 0x1_0000_0000_0000,
            ;
        }
        let b: i128 = self.lo_beat as i128 + self.step as i128 * i as i128;
        if b <= self.hi_beat as i128 {
            b as i64
        } else {
            self.hi_beat
        }
    }

    fn value_under(&self, beat: i64) -> (v: i64)
        requires
            self.valid(),
            self.lo_beat <= beat <= self.hi_beat,
        ensures
            v == self.value_at(beat as int),
    {
        if self.hi_beat <= self.lo_beat {
            return self.lo_value;
        }
        let d: i64 = self.hi_value - self.lo_value;
        let t: i64 = beat - self.lo_beat;
        proof {
            assert(-1_000_000_000 * 70_368_744_177_664 <= d * t <= 1_000_000_000 * 70_368_744_177_664)
                by (nonlinear_arith)
                requires
                    -1_000_000_000 <= d <= 1_000_000_000,
                    0 <= t <= 70_368_744_177_664,
            ;
        }
        let n: i128 = d as i128 * t as i128;
        let span: i64 = self.hi_beat - self.lo_beat;
        let q: i128 = nearest_div(n, span as i128);
        proof {
            lemma_nearest_bound(n as int, span as int);
            assert(-2_000_000_000 <= q <= 2_000_000_000) by (nonlinear_arith)
                requires
                    span >= 1,
                    n == d * t,
                    0 <= t <= span,
                    -1_000_000_000 <= d <= 1_000_000_000,
                    -span <= 2 * (q * span - n) <= span,
            ;
        }
        clamp_i64(self.lo_value + q as i64, 0, VALUE_ONE)
    }

    /// Beats and values of the ramp's points.
    pub fn points(&self) -> (out: Vec<(i64, i64)>)
        requires
            self.valid(),
        ensures
            out@.len() == self.count() + 1,
            forall|i: int|
                0 <= i < out@.len() ==> (#[trigger] out@[i]).0 == self.beat_of(i) && out@[i].1 == self.value_at(
                    self.beat_of(i),
                ),
    {
        let span: i64 = self.hi_beat - self.lo_beat;
        let count: i64 = nearest_div(span as i128, self.step as i128) as i64;
        proof {
            let q = nearest(span as int, self.step as int);
            let step = self.step as int;
            lemma_nearest_bound(span as int, step);
            assert(0 <= q <= 0x1_0000_0000_0000 - 1) by (nonlinear_arith)
                requires
                    step >= 1,
                    q >= 0,
                    -step <= 2 * (q * step - span) <= step,
                    0 <= span <= 70_368_744_177_664,
            ;
        }
        let mut out: Vec<(i64, i64)> = Vec::new();
        let mut i: i64 = 0;
        while i <= count
            invariant
                self.valid(),
                count == self.count(),
                0 <= count <= 0x1_0000_0000_0000 - 1,
                0 <= i <= count + 1,
                out@.len() == i,
                forall|k: int|
                    0 <= k < i ==> (#[trigger] out@[k]).0 == self.beat_of(k) && out@[k].1 == self.value_at(
                        self.beat_of(k),
                    ),
            decreases count + 1 - i,
        {
            let beat: i64 = self.beat_at_index(i);
            let value: i64 = self.value_under(beat);
            out.push((beat, value));
            i = i + 1;
        }
        out
    }
}

/// The ramp between an anchor and the cursor.
pub fn ramp_between(anchor_beat: i64, anchor_value: i64, beat: i64, value: i64, step: i64) -> (r: CcRamp)
    ensures
        r == (if anchor_beat <= beat {
            CcRamp { lo_beat: anchor_beat, hi_beat: beat, lo_value: anchor_value, hi_value: value, step: r.step }
        } else {
            CcRamp { lo_beat: beat, hi_beat: anchor_beat, lo_value: value, hi_value: anchor_value, step: r.step }
        }),
        r.step == max_of(step as int, CC_POINT_MERGE_EPS as int),
{
    let step: i64 = max_i64(step, CC_POINT_MERGE_EPS);
    if anchor_beat <= beat {
        CcRamp { lo_beat: anchor_beat, hi_beat: beat, lo_value: anchor_value, hi_value: value, step }
    } else {
        CcRamp { lo_beat: beat, hi_beat: anchor_beat, lo_value: value, hi_value: anchor_value, step }
    }
}

/// Points outside the stretch of a ramp, then the ramp.
pub open spec fn line_points(base: Seq<MidiControllerPoint>, ramp: CcRamp, next_id: u64) -> Seq<MidiControllerPoint> {
    points_outside(base, ramp.lo_beat as int, ramp.hi_beat as int, CC_SPAN_SLACK as int) + Seq::new(
        (ramp.count() + 1) as nat,
        |k: int|
            MidiControllerPoint {
                id: (next_id + k) as u64,
                beat: ramp.beat_of(k) as i64,
                value: ramp.value_at(ramp.beat_of(k)) as i64,
            },
    )
}

/// The lane with the stretch under a ramp replaced by the ramp's points, which
/// get ids from `next_id` on.
pub fn cc_line_points(base: &Vec<MidiControllerPoint>, ramp: CcRamp, next_id: u64) -> (out: Vec<MidiControllerPoint>)
    requires
        ramp.valid(),
        next_id + ramp.count() + 1 <= u64::MAX,
    ensures
        out@ == line_points(base@, ramp, next_id),
{
    let mut out = keep_outside(base, ramp.lo_beat, ramp.hi_beat, CC_SPAN_SLACK);
    let edits = ramp.points();
    push_minted(&mut out, &edits, next_id);
    assert(out@ =~= line_points(base@, ramp, next_id));
    out
}

/// A ramp starts at its left end and its points never run past its right end.
pub proof fn law_ramp_starts_at_its_left_end(ramp: CcRamp, i: int)
    requires
        ramp.valid(),
        0 <= i <= ramp.count(),
    ensures
        ramp.beat_of(0) == ramp.lo_beat,
        ramp.value_at(ramp.lo_beat as int) == ramp.lo_value,
        ramp.lo_beat <= ramp.beat_of(i) <= ramp.hi_beat,
{
    if ramp.hi_beat > ramp.lo_beat {
        let span = ramp.hi_beat - ramp.lo_beat;
        assert((ramp.hi_value - ramp.lo_value) * 0 == 0 * span);
        crate::fixed::lemma_nearest_of_multiple(0, span);
    }
    assert(ramp.step * i >= 0) by (nonlinear_arith)
        requires
            ramp.step >= 0,
            i >= 0,
    ;
}

/// The top of the lane is full scale and the bottom nothing; the higher the
/// pointer, the greater the value, in proportion to its height.
pub proof fn law_higher_in_the_lane_is_greater(y: int, z: int, lane_h: int)
    requires
        lane_h >= PX,
        y <= z,
    ensures
        value_at_height(y, lane_h) >= value_at_height(z, lane_h),
        y <= 0 ==> value_at_height(y, lane_h) == VALUE_ONE,
        z >= lane_h ==> value_at_height(z, lane_h) == 0,
        0 <= y <= lane_h ==> -lane_h <= 2 * (lane_h * value_at_height(y, lane_h) - VALUE_ONE * (lane_h - y)) <= lane_h,
{
    let a = clamp_to(lane_h - y, 0, lane_h);
    let b = clamp_to(lane_h - z, 0, lane_h);
    crate::fixed::lemma_nearest_monotone(VALUE_ONE * b, VALUE_ONE * a, lane_h);
    crate::fixed::lemma_nearest_of_multiple(VALUE_ONE as int, lane_h);
    crate::fixed::lemma_nearest_of_multiple(0, lane_h);
    lemma_nearest_bound(VALUE_ONE * a, lane_h);
    vstd::arithmetic::mul::lemma_mul_is_commutative(nearest(VALUE_ONE * a, lane_h), lane_h);
}

/// Full scale is drawn five pixels below the top, nothing five above the bottom,
/// and a greater value higher up.
pub proof fn law_greater_values_are_drawn_higher(v: int, w: int, lane_h: int)
    requires
        lane_h >= 10 * PX,
        v <= w,
    ensures
        height_of_value(v, lane_h) >= height_of_value(w, lane_h),
        w >= VALUE_ONE ==> height_of_value(w, lane_h) == 5 * PX,
        v <= 0 ==> height_of_value(v, lane_h) == lane_h - 5 * PX,
{
    let one = VALUE_ONE as int;
    let d = lane_h - 10 * PX;
    let a = one - clamp_to(v, 0, one);
    let b = one - clamp_to(w, 0, one);
    vstd::arithmetic::mul::lemma_mul_inequality(b, a, d);
    crate::fixed::lemma_nearest_monotone(b * d, a * d, one);
    crate::fixed::lemma_nearest_of_multiple(d, one);
    crate::fixed::lemma_nearest_of_multiple(0, one);
    vstd::arithmetic::mul::lemma_mul_is_commutative(d, one);
    vstd::arithmetic::mul::lemma_mul_basics(d);
}

/// A stroke begins under the pointer's first place and ends under its last.
pub proof fn law_strokes_run_from_place_to_place(stroke: CcStroke, view: LaneView)
    requires
        stroke.steps() >= 1,
    ensures
        stroke.beat_of(view, 0) == view.live_beat(stroke.from_x as int, stroke.unsnap),
        stroke.value_of(view, 0) == value_at_height(stroke.from_y as int, view.lane_h as int),
        stroke.beat_of(view, stroke.steps()) == view.live_beat(stroke.to_x as int, stroke.unsnap),
        stroke.value_of(view, stroke.steps()) == value_at_height(stroke.to_y as int, view.lane_h as int),
{
    let n = stroke.steps();
    crate::fixed::lemma_nearest_of_multiple(0, n);
    crate::fixed::lemma_nearest_of_multiple(stroke.to_x - stroke.from_x, n);
    crate::fixed::lemma_nearest_of_multiple(stroke.to_y - stroke.from_y, n);
    vstd::arithmetic::mul::lemma_mul_basics(n);
    vstd::arithmetic::mul::lemma_mul_basics(stroke.to_x - stroke.from_x);
    vstd::arithmetic::mul::lemma_mul_basics(stroke.to_y - stroke.from_y);
}

/// What a stroke has sampled starts at its first beat, ends with its latest value,
/// and neighbours are further apart than the gap.
pub proof fn law_samples_follow_the_stroke(stroke: CcStroke, view: LaneView, n: int)
    requires
        n >= 1,
    ensures
        stroke.samples(view, n).len() >= 1,
        stroke.samples(view, n)[0].0 == stroke.beat_of(view, 0),
        stroke.samples(view, n).last().1 == stroke.value_of(view, n - 1),
        magnitude(stroke.beat_of(view, n - 1) - stroke.samples(view, n).last().0) <= stroke.min_gap(view),
        forall|k: int|
            0 < k < stroke.samples(view, n).len() ==> magnitude(
                (#[trigger] stroke.samples(view, n)[k]).0 - stroke.samples(view, n)[k - 1].0,
            ) > stroke.min_gap(view),
    decreases n,
{
    if n == 1 {
        assert(stroke.samples(view, 0) =~= Seq::<(int, int)>::empty());
    } else {
        law_samples_follow_the_stroke(stroke, view, n - 1);
        let before = stroke.samples(view, n - 1);
        let out = stroke.samples(view, n);
        assert forall|k: int| 0 < k < out.len() implies magnitude((#[trigger] out[k]).0 - out[k - 1].0)
            > stroke.min_gap(view) by {
            if k < before.len() {
                assert(out[k].0 == before[k].0);
                assert(out[k - 1].0 == before[k - 1].0);
            }
        }
    }
}

/// A stroke is walked in the fewest steps that are no longer than the sample
/// distance of two pixels.
pub proof fn law_strokes_are_sampled_finely(squared: int, from: int)
    requires
        squared >= 0,
        from >= 1,
        from > 1 ==> (from - 1) * (2 * PX) * ((from - 1) * (2 * PX)) < squared,
    ensures
        ({
            let n = stroke_steps(squared, from);
            &&& n >= from
            &&& n * (2 * PX) * (n * (2 * PX)) >= squared
            &&& n > 1 ==> (n - 1) * (2 * PX) * ((n - 1) * (2 * PX)) < squared
        }),
    decreases squared - from,
{
    let reach = from * CC_PAINT_SAMPLE_PX;
    if reach * reach >= squared {
    } else if from >= squared {
        vstd::arithmetic::mul::lemma_mul_upper_bound(from, reach, 1, reach);
        assert(from * 1 <= reach * reach);
    } else {
        law_strokes_are_sampled_finely(squared, from + 1);
    }
}

/// A moved point keeps its id and takes the whole change, unless it would leave
/// the lane.
pub proof fn law_points_move_by_the_drag(prev: (u64, i64, i64), d_beat: int, d_value: int)
    ensures
        moved_point(prev, d_beat, d_value).0 == prev.0,
        prev.1 + d_beat >= 0 ==> moved_point(prev, d_beat, d_value).1 == prev.1 + d_beat,
        prev.1 + d_beat < 0 ==> moved_point(prev, d_beat, d_value).1 == 0,
        0 <= prev.2 + d_value <= VALUE_ONE ==> moved_point(prev, d_beat, d_value).2 == prev.2 + d_value,
        prev.2 + d_value < 0 ==> moved_point(prev, d_beat, d_value).2 == 0,
        prev.2 + d_value > VALUE_ONE ==> moved_point(prev, d_beat, d_value).2 == VALUE_ONE,
{
}

/// A ramp goes straight from its left value at its left end to its right value at
/// its right end.
pub proof fn law_ramps_are_straight(ramp: CcRamp, beat: int)
    requires
        ramp.valid(),
        ramp.lo_beat < ramp.hi_beat,
        ramp.lo_beat <= beat <= ramp.hi_beat,
    ensures
        ({
            let long = ramp.hi_beat - ramp.lo_beat;
            let off = long * (ramp.value_at(beat) - ramp.lo_value) - (ramp.hi_value - ramp.lo_value) * (beat
                - ramp.lo_beat);
            &&& -long <= 2 * off <= long
            &&& ramp.value_at(ramp.hi_beat as int) == ramp.hi_value
        }),
{
    let long = ramp.hi_beat - ramp.lo_beat;
    let d = ramp.hi_value - ramp.lo_value;
    let x = beat - ramp.lo_beat;
    let n = d * x;
    let q = nearest(n, long);
    lemma_nearest_bound(n, long);
    vstd::arithmetic::mul::lemma_mul_is_commutative(q, long);
    crate::fixed::lemma_nearest_of_multiple(d, long);
    crate::fixed::lemma_nearest_of_multiple(0, long);
    vstd::arithmetic::mul::lemma_mul_basics(long);
    if d >= 0 {
        vstd::arithmetic::mul::lemma_mul_upper_bound(d, d, x, long);
        vstd::arithmetic::mul::lemma_mul_nonnegative(d, x);
        crate::fixed::lemma_nearest_monotone(n, d * long, long);
    } else {
        vstd::arithmetic::mul::lemma_mul_upper_bound(-d, -d, x, long);
        vstd::arithmetic::mul::lemma_mul_nonnegative(-d, x);
        vstd::arithmetic::mul::lemma_mul_unary_negation(d, x);
        vstd::arithmetic::mul::lemma_mul_unary_negation(d, long);
        crate::fixed::lemma_nearest_monotone(d * long, n, long);
    }
}

/// A drawn line replaces only its own span: what lies further than the slack from
/// it stays, and a point stands on the line at every step of it.
pub proof fn law_lines_replace_their_span(
    base: Seq<MidiControllerPoint>,
    ramp: CcRamp,
    next_id: u64,
    p: MidiControllerPoint,
    i: int,
)
    requires
        ramp.valid(),
        base.contains(p),
        p.beat < ramp.lo_beat - CC_SPAN_SLACK || p.beat > ramp.hi_beat + CC_SPAN_SLACK,
        0 <= i <= ramp.count(),
        ramp.lo_beat + ramp.step * i <= ramp.hi_beat,
        next_id + i <= u64::MAX,
    ensures
        line_points(base, ramp, next_id).contains(p),
        line_points(base, ramp, next_id).contains(
            MidiControllerPoint {
                id: (next_id + i) as u64,
                beat: (ramp.lo_beat + ramp.step * i) as i64,
                value: ramp.value_at(ramp.lo_beat + ramp.step * i) as i64,
            },
        ),
{
    let kept = points_outside(base, ramp.lo_beat as int, ramp.hi_beat as int, CC_SPAN_SLACK as int);
    crate::cc_points::lemma_outside_is_kept(
        base,
        ramp.lo_beat as int,
        ramp.hi_beat as int,
        CC_SPAN_SLACK as int,
        p,
    );
    let k = choose|k: int| 0 <= k < kept.len() && kept[k] == p;
    let out = line_points(base, ramp, next_id);
    assert(out[k] == p);
    assert(out[kept.len() + i].id == (next_id + i) as u64);
}

} // verus!
