//! Gestures and transforms of the velocity lane.

use crate::fixed::{
    clamp_i64, clamp_to, lemma_nearest_bound, max_i64, max_of, min_i64, min_of, nearest, nearest_div, on_axis,
    POSITION_LIMIT, PX,
};
use crate::id_set::IdSet;
use crate::midi::{lemma_filter_step, MidiChannelMask, MidiNote};
use crate::order::{sorted, stable_sort};
use crate::rect::{rects_intersect, Rect};
use crate::velocity::{
    interpolate_velocity, ramp_velocity, velocity_at, velocity_from_local_y, VelocityCurve, LANE_PADDING, LANE_TOP_GAP,
    RAMP_LIMIT, RAMP_SLACK,
};
use crate::viewport::ClipAxis;
use vstd::prelude::*;

verus! {

/// Half-width of the brush that paints velocities.
pub const PAINT_REACH: i64 = 4_000_000;

/// Width of a velocity bar.
pub const BAR_W: i64 = 8_000_000;

/// Distance at which a bar can still be picked.
pub const BAR_PICK_REACH: i64 = 14_000_000;

/// Notes that show under the channel view.
pub open spec fn shown_notes(notes: Seq<MidiNote>, view: MidiChannelMask) -> Seq<MidiNote> {
    notes.filter(|n: MidiNote| view.shows(n.channel))
}

/// The notes on visible channels, in the order of their starts.
pub fn velocity_gesture_notes(notes: &Vec<MidiNote>, view: MidiChannelMask) -> (out: Vec<MidiNote>)
    ensures
        out@ == sorted(shown_notes(notes@, view)),
{
    let mut shown: Vec<MidiNote> = Vec::new();
    let mut i: usize = 0;
    let ghost p = |n: MidiNote| view.shows(n.channel);
    proof {
        reveal(Seq::filter);
        assert(notes@.subrange(0, 0).filter(p) =~= Seq::<MidiNote>::empty());
    }
    while i < notes.len()
        invariant
            i <= notes@.len(),
            p == (|n: MidiNote| view.shows(n.channel)),
            shown@ == notes@.subrange(0, i as int).filter(p),
        decreases notes@.len() - i,
    {
        proof {
            lemma_filter_step(notes@, i as int, p);
        }
        if view.contains(notes[i].channel) {
            shown.push(notes[i]);
        }
        i = i + 1;
    }
    assert(notes@.subrange(0, notes@.len() as int) =~= notes@);
    stable_sort(&shown)
}

/// Fraction of a brush stroke at which it passes a position, as a numerator over
/// the returned denominator, held inside the stroke. A stroke without width
/// counts as at its end.
pub open spec fn stroke_part(from: int, to: int, at: int) -> (int, int) {
    if -1 <= to - from <= 1 {
        (1, 1)
    } else if to > from {
        (clamp_to(at - from, 0, to - from), to - from)
    } else {
        (clamp_to(from - at, 0, from - to), from - to)
    }
}

/// Height of a stroke where it passes a position.
pub open spec fn stroke_height(from_x: int, from_y: int, to_x: int, to_y: int, at: int) -> int {
    let part = stroke_part(from_x, to_x, at);
    from_y + nearest((to_y - from_y) * part.0, part.1)
}

fn stroke_y(from_x: i64, from_y: i64, to_x: i64, to_y: i64, at: i64) -> (y: i64)
    requires
        on_axis(from_x as int),
        on_axis(from_y as int),
        on_axis(to_x as int),
        on_axis(to_y as int),
        -0x2000_0000_0000_0000 <= at <= 0x2000_0000_0000_0000,
    ensures
        y == stroke_height(from_x as int, from_y as int, to_x as int, to_y as int, at as int),
        on_axis(y as int),
{
    let dx: i64 = to_x - from_x;
    let (num, den): (i64, i64) = if -1 <= dx && dx <= 1 {
        (1, 1)
    } else if dx > 0 {
        (clamp_i64(at - from_x, 0, dx), dx)
    } else {
        (clamp_i64(from_x - at, 0, -dx), -dx)
    };
    let dy: i64 = to_y - from_y;
    proof {
        assert(-4 * 70_368_744_177_664 * 70_368_744_177_664 <= dy * num <= 4 * 70_368_744_177_664 * 70_368_744_177_664)
            by (nonlinear_arith)
            requires
                -2 * 70_368_744_177_664 <= dy <= 2 * 70_368_744_177_664,
                0 <= num <= 2 * 70_368_744_177_664,
        ;
    }
    let n: i128 = dy as i128 * num as i128;
    let q: i128 = nearest_div(n, den as i128);
    proof {
        lemma_nearest_bound(n as int, den as int);
        if dy >= 0 {
            assert(0 <= q <= dy) by (nonlinear_arith)
                requires
                    dy >= 0,
                    n == dy * num,
                    0 <= num <= den,
                    den >= 1,
                    -den <= 2 * (q * den - n) <= den,
            ;
        } else {
            assert(dy <= q <= 0) by (nonlinear_arith)
                requires
                    dy < 0,
                    n == dy * num,
                    0 <= num <= den,
                    den >= 1,
                    -den <= 2 * (q * den - n) <= den,
            ;
        }
    }
    from_y + q as i64
}

/// A stroke of the velocity brush over a lane.
#[derive(Debug, Clone, Copy, PartialEq, Eq, Structural)]
pub struct Stroke {
    pub from_x: i64,
    pub from_y: i64,
    pub to_x: i64,
    pub to_y: i64,
}

impl Stroke {
    /// Both ends lie well inside the axes.
    pub open spec fn valid(self) -> bool {
        &&& on_axis(self.from_x - PAINT_REACH) && on_axis(self.from_x + PAINT_REACH)
        &&& on_axis(self.to_x - PAINT_REACH) && on_axis(self.to_x + PAINT_REACH)
        &&& on_axis(self.from_y as int) && on_axis(self.to_y as int)
    }

    /// The stroke's brush passes over the start of a note.
    pub open spec fn covers(self, axis: ClipAxis, note: MidiNote) -> bool {
        axis.beat_at(min_of(self.from_x as int, self.to_x as int) - PAINT_REACH) <= note.start <= axis.beat_at(
            max_of(self.from_x as int, self.to_x as int) + PAINT_REACH,
        )
    }

    /// Id of a note and the velocity that the stroke gives it.
    pub open spec fn paints(self, axis: ClipAxis, lane_h: int, note: MidiNote) -> (u64, u8) {
        (
            note.id,
            velocity_at(
                stroke_height(
                    self.from_x as int,
                    self.from_y as int,
                    self.to_x as int,
                    self.to_y as int,
                    axis.x_at(note.start as int),
                ),
                lane_h,
            ) as u8,
        )
    }
}

/// Velocities that a brush stroke gives to the notes it passes over.
pub fn velocity_paint_updates(original: &Vec<MidiNote>, axis: ClipAxis, lane_h: i64, stroke: Stroke) -> (out: Vec<
    (u64, u8),
>)
    requires
        axis.valid(),
        on_axis(lane_h as int),
        stroke.valid(),
        forall|i: int| 0 <= i < original@.len() ==> on_axis((#[trigger] original@[i]).start as int),
    ensures
        out@ == original@.filter(|n: MidiNote| stroke.covers(axis, n)).map_values(
            |n: MidiNote| stroke.paints(axis, lane_h as int, n),
        ),
{
    let lo: i64 = axis.x_to_clip_beat(min_i64(stroke.from_x, stroke.to_x) - PAINT_REACH);
    let hi: i64 = axis.x_to_clip_beat(max_i64(stroke.from_x, stroke.to_x) + PAINT_REACH);
    let ghost p = |n: MidiNote| stroke.covers(axis, n);
    let ghost f = |n: MidiNote| stroke.paints(axis, lane_h as int, n);
    let mut out: Vec<(u64, u8)> = Vec::new();
    let mut i: usize = 0;
    proof {
        reveal(Seq::filter);
        assert(original@.subrange(0, 0).filter(p).map_values(f) =~= Seq::<(u64, u8)>::empty());
    }
    while i < original.len()
        invariant
            axis.valid(),
            on_axis(lane_h as int),
            stroke.valid(),
            forall|k: int| 0 <= k < original@.len() ==> on_axis((#[trigger] original@[k]).start as int),
            i <= original@.len(),
            p == (|n: MidiNote| stroke.covers(axis, n)),
            f == (|n: MidiNote| stroke.paints(axis, lane_h as int, n)),
            lo == axis.beat_at(min_of(stroke.from_x as int, stroke.to_x as int) - PAINT_REACH),
            hi == axis.beat_at(max_of(stroke.from_x as int, stroke.to_x as int) + PAINT_REACH),
            out@ == original@.subrange(0, i as int).filter(p).map_values(f),
        decreases original@.len() - i,
    {
        proof {
            lemma_filter_step(original@, i as int, p);
        }
        let note = original[i];
        if lo <= note.start && note.start <= hi {
            let x: i64 = axis.clip_beat_to_x(note.start);
            let y: i64 = stroke_y(stroke.from_x, stroke.from_y, stroke.to_x, stroke.to_y, x);
            let v: u8 = velocity_from_local_y(y, lane_h);
            out.push((note.id, v));
            assert(p(note));
            assert(out@ =~= original@.subrange(0, i + 1).filter(p).map_values(f));
        }
        i = i + 1;
    }
    assert(original@.subrange(0, original@.len() as int) =~= original@);
    out
}

/// A velocity ramp drawn between two points of the lane.
#[derive(Debug, Clone, Copy, PartialEq, Eq, Structural)]
pub struct Ramp {
    pub anchor_beat: i64,
    pub anchor_value: u8,
    pub cursor_beat: i64,
    pub cursor_value: u8,
    pub curve: VelocityCurve,
}

impl Ramp {
    /// The ramp's ends are not too far apart.
    pub open spec fn valid(self) -> bool {
        on_axis(self.anchor_beat as int) && on_axis(self.cursor_beat as int) && -RAMP_LIMIT <= self.cursor_beat
            - self.anchor_beat <= RAMP_LIMIT
    }

    /// Earlier end of the ramp.
    pub open spec fn lo(self) -> int {
        min_of(self.anchor_beat as int, self.cursor_beat as int)
    }

    /// Later end of the ramp.
    pub open spec fn hi(self) -> int {
        max_of(self.anchor_beat as int, self.cursor_beat as int)
    }

    /// The ramp sets this note: it starts under the ramp, and it is selected
    /// where anything is.
    pub open spec fn reaches(self, note: MidiNote, selection: Set<u64>) -> bool {
        self.lo() - RAMP_SLACK <= note.start <= self.hi() + RAMP_SLACK && (selection == Set::<u64>::empty()
            || selection.contains(note.id))
    }

    /// Velocity of the ramp at a beat.
    pub open spec fn value_at(self, beat: int) -> int {
        let (from, to) = if self.anchor_beat <= self.cursor_beat {
            (self.anchor_value, self.cursor_value)
        } else {
            (self.cursor_value, self.anchor_value)
        };
        ramp_velocity(from as int, to as int, beat - self.lo(), max_of(self.hi() - self.lo(), 1), self.curve)
    }

    /// Updates of the ramp: notes it reaches get its velocity, notes that it
    /// reached before and has left get their own back.
    pub open spec fn updates(self, notes: Seq<MidiNote>, selection: Set<u64>, touched: Set<u64>) -> Seq<(u64, u8)>
        decreases notes.len(),
    {
        if notes.len() == 0 {
            Seq::empty()
        } else {
            let before = self.updates(notes.drop_last(), selection, touched);
            let note = notes.last();
            if self.reaches(note, selection) {
                before.push((note.id, self.value_at(note.start as int) as u8))
            } else if touched.contains(note.id) {
                before.push((note.id, note.velocity))
            } else {
                before
            }
        }
    }
}

/// Updates of a ramp, and the ids that it has reached so far.
pub fn velocity_line_updates(original: &Vec<MidiNote>, selection: &IdSet, touched: &IdSet, ramp: Ramp) -> (r: (
    Vec<(u64, u8)>,
    IdSet,
))
    requires
        ramp.valid(),
        forall|i: int| 0 <= i < original@.len() ==> on_axis((#[trigger] original@[i]).start as int),
    ensures
        r.0@ == ramp.updates(original@, selection@, touched@),
        forall|id: u64| #[trigger]
            r.1@.contains(id) <==> touched@.contains(id) || exists|i: int|
                0 <= i < original@.len() && (#[trigger] original@[i]).id == id && ramp.reaches(original@[i], selection@),
{
    let (lo, hi, from, to): (i64, i64, u8, u8) = if ramp.anchor_beat <= ramp.cursor_beat {
        (ramp.anchor_beat, ramp.cursor_beat, ramp.anchor_value, ramp.cursor_value)
    } else {
        (ramp.cursor_beat, ramp.anchor_beat, ramp.cursor_value, ramp.anchor_value)
    };
    let span: i64 = max_i64(hi - lo, 1);
    let any = selection.is_empty();
    let mut reached = touched.copy();
    let mut out: Vec<(u64, u8)> = Vec::new();
    let mut i: usize = 0;
    assert(original@.subrange(0, 0) =~= Seq::<MidiNote>::empty());
    while i < original.len()
        invariant
            ramp.valid(),
            forall|k: int| 0 <= k < original@.len() ==> on_axis((#[trigger] original@[k]).start as int),
            i <= original@.len(),
            lo == ramp.lo(),
            hi == ramp.hi(),
            ramp.anchor_beat <= ramp.cursor_beat ==> from == ramp.anchor_value && to == ramp.cursor_value,
            ramp.anchor_beat > ramp.cursor_beat ==> from == ramp.cursor_value && to == ramp.anchor_value,
            span == max_of(hi - lo, 1),
            1 <= span <= RAMP_LIMIT,
            any == (selection@ == Set::<u64>::empty()),
            out@ == ramp.updates(original@.subrange(0, i as int), selection@, touched@),
            forall|id: u64| #[trigger]
                reached@.contains(id) <==> touched@.contains(id) || exists|k: int|
                    0 <= k < i && (#[trigger] original@[k]).id == id && ramp.reaches(original@[k], selection@),
        decreases original@.len() - i,
    {
        let note = original[i];
        let ghost was = reached@;
        assert(original@.subrange(0, i + 1).drop_last() =~= original@.subrange(0, i as int));
        assert(original@.subrange(0, i + 1).last() == note);
        let in_scope = note.start >= lo - RAMP_SLACK && note.start <= hi + RAMP_SLACK && (any || selection.contains(
            note.id,
        ));
        assert(in_scope == ramp.reaches(note, selection@));
        if in_scope {
            let v: u8 = interpolate_velocity(from, to, note.start - lo, span, ramp.curve);
            out.push((note.id, v));
            reached.insert(note.id);
        } else if touched.contains(note.id) {
            out.push((note.id, note.velocity));
        }
        proof {
            assert forall|id: u64| #[trigger]
                reached@.contains(id) <==> touched@.contains(id) || exists|k: int|
                    0 <= k < i + 1 && (#[trigger] original@[k]).id == id && ramp.reaches(original@[k], selection@) by {
                if was.contains(id) && !touched@.contains(id) {
                    let k = choose|k: int|
                        0 <= k < i && (#[trigger] original@[k]).id == id && ramp.reaches(original@[k], selection@);
                    assert(original@[k].id == id);
                }
                assert(original@[i as int] == note);
            }
        }
        i = i + 1;
    }
    assert(original@.subrange(0, original@.len() as int) =~= original@);
    (out, reached)
}

/// Height of a velocity bar in a lane.
pub open spec fn bar_height(velocity: int, lane_h: int) -> int {
    max_of(nearest((velocity - 1) * (lane_h - LANE_PADDING), 126), PX as int)
}

/// Height of the bar of `velocity` in a lane of height `lane_h`.
pub fn velocity_bar_height(velocity: u8, lane_h: i64) -> (h: i64)
    requires
        on_axis(lane_h as int),
    ensures
        h == bar_height(velocity as int, lane_h as int),
        PX <= h <= 4 * POSITION_LIMIT,
{
    let d: i64 = lane_h - LANE_PADDING;
    let k: i64 = velocity as i64 - 1;
    proof {
        assert(-255 * 2 * 70_368_744_177_664 <= k * d <= 255 * 2 * 70_368_744_177_664) by (nonlinear_arith)
            requires
                -1 <= k <= 254,
                -2 * 70_368_744_177_664 <= d <= 2 * 70_368_744_177_664,
        ;
    }
    let n: i128 = k as i128 * d as i128;
    let q: i128 = nearest_div(n, 126);
    proof {
        lemma_nearest_bound(n as int, 126);
        assert(k * d <= 254 * (70_368_744_177_664 + 8_000_000)) by (nonlinear_arith)
            requires
                -1 <= k <= 254,
                -70_368_744_177_664 - 8_000_000 <= d <= 70_368_744_177_664 - 8_000_000,
        ;
    }
    max_i64(q as i64, PX)
}

/// Rectangle of a note's velocity bar.
pub open spec fn bar_rect(axis: ClipAxis, note: MidiNote, lane_h: int) -> (int, int, int, int) {
    let x = axis.x_at(note.start as int);
    (x, lane_h - bar_height(note.velocity as int, lane_h) - LANE_TOP_GAP, x + BAR_W, lane_h - LANE_TOP_GAP)
}

/// The bar of a note meets a rectangle.
pub open spec fn bar_meets(axis: ClipAxis, note: MidiNote, lane_h: int, rect: Rect) -> bool {
    let b = bar_rect(axis, note, lane_h);
    rect.left < b.2 && rect.right > b.0 && rect.top < b.3 && rect.bottom > b.1
}

/// Ids of the visible notes whose velocity bar meets `rect`.
pub fn velocity_select_hits(
    notes: &Vec<MidiNote>,
    view: MidiChannelMask,
    axis: ClipAxis,
    lane_h: i64,
    rect: Rect,
) -> (hits: IdSet)
    requires
        axis.valid(),
        on_axis(lane_h as int),
        forall|i: int| 0 <= i < notes@.len() ==> on_axis((#[trigger] notes@[i]).start as int),
    ensures
        forall|id: u64| #[trigger]
            hits@.contains(id) <==> exists|i: int|
                0 <= i < notes@.len() && (#[trigger] notes@[i]).id == id && view.shows(notes@[i].channel) && bar_meets(
                    axis,
                    notes@[i],
                    lane_h as int,
                    rect,
                ),
{
    let mut hits = IdSet::new();
    let mut i: usize = 0;
    while i < notes.len()
        invariant
            axis.valid(),
            on_axis(lane_h as int),
            forall|k: int| 0 <= k < notes@.len() ==> on_axis((#[trigger] notes@[k]).start as int),
            i <= notes@.len(),
            forall|id: u64| #[trigger]
                hits@.contains(id) <==> exists|k: int|
                    0 <= k < i && (#[trigger] notes@[k]).id == id && view.shows(notes@[k].channel) && bar_meets(
                        axis,
                        notes@[k],
                        lane_h as int,
                        rect,
                    ),
        decreases notes@.len() - i,
    {
        let note = notes[i];
        let ghost was = hits@;
        let x: i64 = axis.clip_beat_to_x(note.start);
        let h: i64 = velocity_bar_height(note.velocity, lane_h);
        let bar = Rect { left: x, top: lane_h - h - LANE_TOP_GAP, right: x + BAR_W, bottom: lane_h - LANE_TOP_GAP };
        let hit = view.contains(note.channel) && rects_intersect(rect, bar);
        assert(hit == (view.shows(note.channel) && bar_meets(axis, note, lane_h as int, rect)));
        if hit {
            hits.insert(note.id);
        }
        proof {
            assert forall|id: u64| #[trigger]
                hits@.contains(id) <==> exists|k: int|
                    0 <= k < i + 1 && (#[trigger] notes@[k]).id == id && view.shows(notes@[k].channel) && bar_meets(
                        axis,
                        notes@[k],
                        lane_h as int,
                        rect,
                    ) by {
                assert(notes@[i as int] == note);
                if was.contains(id) {
                    let k = choose|k: int|
                        0 <= k < i && (#[trigger] notes@[k]).id == id && view.shows(notes@[k].channel) && bar_meets(
                            axis,
                            notes@[k],
                            lane_h as int,
                            rect,
                        );
                    assert(notes@[k].id == id);
                }
            }
        }
        i = i + 1;
    }
    hits
}

/// A painted stroke gives the notes under its two ends the velocities of the two
/// heights, and stays between them on the way.
pub proof fn law_strokes_paint_their_heights(from_x: int, from_y: int, to_x: int, to_y: int, at: int)
    requires
        to_x - from_x > 1 || from_x - to_x > 1,
    ensures
        stroke_height(from_x, from_y, to_x, to_y, from_x) == from_y,
        stroke_height(from_x, from_y, to_x, to_y, to_x) == to_y,
        from_y <= to_y ==> from_y <= stroke_height(from_x, from_y, to_x, to_y, at) <= to_y,
        to_y <= from_y ==> to_y <= stroke_height(from_x, from_y, to_x, to_y, at) <= from_y,
{
    let d = to_y - from_y;
    let part = stroke_part(from_x, to_x, at);
    let w = part.1;
    crate::fixed::lemma_nearest_of_multiple(d, w);
    crate::fixed::lemma_nearest_of_multiple(0, w);
    vstd::arithmetic::mul::lemma_mul_basics(w);
    vstd::arithmetic::mul::lemma_mul_basics(d);
    if d >= 0 {
        vstd::arithmetic::mul::lemma_mul_upper_bound(d, d, part.0, w);
        vstd::arithmetic::mul::lemma_mul_nonnegative(d, part.0);
        crate::fixed::lemma_nearest_monotone(0, d * part.0, w);
        crate::fixed::lemma_nearest_monotone(d * part.0, d * w, w);
    }
    if d <= 0 {
        vstd::arithmetic::mul::lemma_mul_upper_bound(-d, -d, part.0, w);
        vstd::arithmetic::mul::lemma_mul_nonnegative(-d, part.0);
        vstd::arithmetic::mul::lemma_mul_unary_negation(d, part.0);
        vstd::arithmetic::mul::lemma_mul_unary_negation(d, w);
        crate::fixed::lemma_nearest_monotone(d * part.0, 0, w);
        crate::fixed::lemma_nearest_monotone(d * w, d * part.0, w);
    }
}

/// A velocity line has its two values at its two ends and stays between them.
pub proof fn law_velocity_line_meets_its_ends(ramp: Ramp, beat: int)
    requires
        ramp.valid(),
        ramp.anchor_beat != ramp.cursor_beat,
        1 <= ramp.anchor_value <= 127,
        1 <= ramp.cursor_value <= 127,
    ensures
        ramp.value_at(ramp.anchor_beat as int) == ramp.anchor_value,
        ramp.value_at(ramp.cursor_beat as int) == ramp.cursor_value,
        ramp.anchor_value <= ramp.cursor_value ==> ramp.anchor_value <= ramp.value_at(beat) <= ramp.cursor_value,
        ramp.cursor_value <= ramp.anchor_value ==> ramp.cursor_value <= ramp.value_at(beat) <= ramp.anchor_value,
{
    let d = ramp.hi() - ramp.lo();
    crate::velocity::law_ramps_run_between_their_ends(
        ramp.anchor_value as int,
        ramp.cursor_value as int,
        beat - ramp.lo(),
        d,
        ramp.curve,
    );
    crate::velocity::law_ramps_run_between_their_ends(
        ramp.cursor_value as int,
        ramp.anchor_value as int,
        beat - ramp.lo(),
        d,
        ramp.curve,
    );
}

/// A velocity line updates the notes that start on it, among the selected ones if
/// there are any; a note that it has left gets its own velocity back.
pub proof fn law_velocity_line_updates_what_it_reaches(
    ramp: Ramp,
    notes: Seq<MidiNote>,
    selection: Set<u64>,
    touched: Set<u64>,
    i: int,
)
    requires
        0 <= i < notes.len(),
        selection == Set::<u64>::empty() || selection.contains(notes[i].id),
    ensures
        (ramp.anchor_beat <= notes[i].start <= ramp.cursor_beat || ramp.cursor_beat <= notes[i].start
            <= ramp.anchor_beat) ==> ramp.updates(notes, selection, touched).contains(
            (notes[i].id, ramp.value_at(notes[i].start as int) as u8),
        ),
        ramp.anchor_beat + RAMP_SLACK < notes[i].start && ramp.cursor_beat + RAMP_SLACK < notes[i].start
            && touched.contains(notes[i].id) ==> ramp.updates(notes, selection, touched).contains(
            (notes[i].id, notes[i].velocity),
        ),
        ramp.anchor_beat - RAMP_SLACK > notes[i].start && ramp.cursor_beat - RAMP_SLACK > notes[i].start
            && touched.contains(notes[i].id) ==> ramp.updates(notes, selection, touched).contains(
            (notes[i].id, notes[i].velocity),
        ),
    decreases notes.len(),
{
    let front = notes.drop_last();
    let before = ramp.updates(front, selection, touched);
    let out = ramp.updates(notes, selection, touched);
    if i < front.len() {
        assert(front[i] == notes[i]);
        law_velocity_line_updates_what_it_reaches(ramp, front, selection, touched, i);
        assert forall|x: (u64, u8)| before.contains(x) implies out.contains(x) by {
            let k = choose|k: int| 0 <= k < before.len() && before[k] == x;
            assert(out[k] == x);
        }
    } else {
        assert(notes.last() == notes[i]);
        if out.len() > before.len() {
            assert(out.contains(out[before.len() as int]));
        }
    }
}

/// The bar of a velocity ends where the lane stands for that velocity.
pub proof fn law_bars_end_at_their_velocity(axis: ClipAxis, note: MidiNote, lane_h: int)
    requires
        lane_h - LANE_PADDING >= 126 * PX,
        2 <= note.velocity <= 127,
    ensures
        ({
            let b = bar_rect(axis, note, lane_h);
            &&& b.0 == axis.x_at(note.start as int)
            &&& b.3 == lane_h - LANE_TOP_GAP
            &&& -126 <= 2 * (126 * (b.3 - b.1) - (note.velocity - 1) * (lane_h - LANE_PADDING)) <= 126
        }),
{
    let u = lane_h - LANE_PADDING;
    let n = (note.velocity - 1) * u;
    vstd::arithmetic::mul::lemma_mul_inequality(1, note.velocity - 1, u);
    vstd::arithmetic::mul::lemma_mul_basics(u);
    crate::fixed::lemma_nearest_bound(n, 126);
}

} // verus!
