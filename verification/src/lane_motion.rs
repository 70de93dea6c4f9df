//! Gestures of the lane that change values live: painting, ramps and dragging.

use crate::articulation::{event_with_id, find_event};
use crate::cc_paint::{
    cc_line_points, cc_move_targets, line_points, moved_point, ramp_between, value_at_height, value_from_local_y,
    CcRamp, CcStroke, LaneView,
};
use crate::cc_points::{repainted, replace_cc_paint_segment, CC_POINT_MERGE_EPS};
use crate::drag::{on_surface, CcLineDrag, CcMoveDrag, CcPaintDrag, LineDrag, PaintDrag, PianoDrag, VelocityDrag};
use crate::fixed::{lemma_nearest_bound, max_i64, max_of, nearest, BEAT_LIMIT, ID_LIMIT, TICKS_PER_BEAT, VALUE_ONE};
use crate::grid::snapped;
use crate::id_set::IdSet;
use crate::midi::{MidiNote, ARTICULATION_COUNT};
use crate::roll::{clip_valid, ClipView, PianoRoll};
use crate::roll_edit::{asked, EditView, RollEdit};
use crate::status::{
    absolute_status, absolute_text, cc_line_status, cc_line_text, cc_move_status, cc_move_text, cc_status, cc_text,
    event_status, event_text, line_status, line_text, paint_status, paint_text, relative_status, relative_text,
};
use crate::velocity::{
    clamped_velocity, drag_delta, relative_velocity, usable_height, velocity_at, velocity_drag_delta,
    velocity_from_local_y, LANE_H,
};
use crate::velocity_lane::{velocity_line_updates, velocity_paint_updates, Ramp, Stroke};
use vstd::prelude::*;

verus! {

/// The status text is this.
pub open spec fn status_is(roll: PianoRoll, text: Seq<char>) -> bool {
    roll.drag_value_status matches Some(s) && s@ == text
}

/// What a stroke paints over these notes.
pub open spec fn painted(roll: PianoRoll, notes: Seq<MidiNote>, stroke: Stroke) -> Seq<(u64, u8)> {
    notes.filter(|n: MidiNote| stroke.covers(roll.axis(), n)).map_values(
        |n: MidiNote| stroke.paints(roll.axis(), roll.lane_size().1, n),
    )
}

/// The notes that a list of values names.
pub open spec fn named_in(values: Seq<(u64, u8)>) -> Set<u64> {
    Set::new(|id: u64| exists|i: int| 0 <= i < values.len() && (#[trigger] values[i]).0 == id)
}

fn with_named(ids: &IdSet, values: &Vec<(u64, u8)>) -> (r: IdSet)
    ensures
        r@ == ids@.union(named_in(values@)),
{
    let mut r = ids.copy();
    let mut i: usize = 0;
    while i < values.len()
        invariant
            i <= values@.len(),
            forall|id: u64| #[trigger]
                r@.contains(id) <==> ids@.contains(id) || exists|k: int| 0 <= k < i && (#[trigger] values@[k]).0 == id,
        decreases values@.len() - i,
    {
        r.insert(values[i].0);
        i = i + 1;
    }
    assert(r@ =~= ids@.union(named_in(values@)));
    r
}

/// The paint gesture has followed a stroke. A stroke over no note changes
/// nothing.
pub open spec fn velocity_painted(pre: PianoRoll, post: PianoRoll, stroke: Stroke) -> bool {
    match pre.drag {
        PianoDrag::VelocityPaint(d) => {
            let values = painted(pre, d.original_notes@, stroke);
            if values.len() == 0 {
                post == pre
            } else {
                &&& post.drag matches PianoDrag::VelocityPaint(e) && e.touched@ == d.touched@.union(named_in(values)) && e
                    == (PaintDrag { touched: e.touched, last_x: stroke.to_x, last_y: stroke.to_y, ..d })
                &&& status_is(post, paint_text(values.last().1 as int, values.len() as int))
                &&& post == (PianoRoll { drag: post.drag, drag_value_status: post.drag_value_status, ..pre })
            }
        },
        _ => post == pre,
    }
}

pub open spec fn paint_asks(pre: PianoRoll, stroke: Stroke) -> Option<EditView> {
    match pre.drag {
        PianoDrag::VelocityPaint(d) => {
            let values = painted(pre, d.original_notes@, stroke);
            if values.len() == 0 {
                None
            } else {
                Some(EditView::LiveVelocities(d.clip_id@, values))
            }
        },
        _ => None,
    }
}

/// The ramp from the anchor of a line gesture to the pointer.
pub open spec fn ramp_to(roll: PianoRoll, d: LineDrag, lx: int, ly: int) -> Ramp {
    Ramp {
        anchor_beat: d.anchor_beat,
        anchor_value: d.anchor_value,
        cursor_beat: roll.live_beat(lx, d.unsnap) as i64,
        cursor_value: velocity_at(ly, roll.lane_size().1) as u8,
        curve: d.curve,
    }
}

/// Notes that a ramp reaches, among these.
pub open spec fn reached_by(ramp: Ramp, notes: Seq<MidiNote>, selection: Set<u64>) -> Set<u64> {
    Set::new(
        |id: u64|
            exists|i: int| 0 <= i < notes.len() && (#[trigger] notes[i]).id == id && ramp.reaches(notes[i], selection),
    )
}

/// The velocity ramp ends at the pointer.
pub open spec fn velocity_lined(pre: PianoRoll, post: PianoRoll, lx: int, ly: int) -> bool {
    match pre.drag {
        PianoDrag::VelocityLine(d) => {
            let ramp = ramp_to(pre, d, lx, ly);
            &&& post.drag matches PianoDrag::VelocityLine(e) && e.affected@ == d.affected@.union(
                reached_by(ramp, d.original_notes@, pre.selection@),
            ) && e == (LineDrag {
                affected: e.affected,
                current_beat: ramp.cursor_beat,
                current_value: ramp.cursor_value,
                ..d
            })
            &&& status_is(
                post,
                line_text(
                    d.anchor_value as int,
                    ramp.cursor_value as int,
                    d.anchor_beat as int,
                    ramp.cursor_beat as int,
                ),
            )
            &&& post == (PianoRoll { drag: post.drag, drag_value_status: post.drag_value_status, ..pre })
        },
        _ => post == pre,
    }
}

/// Values of the ramp for the notes it reaches; notes that it has left get
/// their own back.
pub open spec fn line_asks(pre: PianoRoll, lx: int, ly: int) -> Option<EditView> {
    match pre.drag {
        PianoDrag::VelocityLine(d) => Some(
            EditView::LiveVelocities(
                d.clip_id@,
                ramp_to(pre, d, lx, ly).updates(d.original_notes@, pre.selection@, d.affected@),
            ),
        ),
        _ => None,
    }
}

/// Height of the pointer in the lane; the middle while the lane was never
/// painted.
pub open spec fn lane_y(roll: PianoRoll, y: int) -> int {
    match roll.lane_bounds {
        Some(b) => y - b.y,
        None => LANE_H as int / 2,
    }
}

/// The value that an absolute drag sets.
pub open spec fn absolute_value(roll: PianoRoll, y: int) -> int {
    velocity_at(lane_y(roll, y), roll.lane_size().1)
}

/// The velocity drag has followed the pointer.
pub open spec fn velocity_dragged(pre: PianoRoll, post: PianoRoll, y: int, alt: bool, shift: bool) -> bool {
    match pre.drag {
        PianoDrag::Velocity(d) => {
            let drag = PianoDrag::Velocity(VelocityDrag { absolute: alt, fine: shift, ..d });
            let n = d.prev@.len() as int;
            let delta = drag_delta(d.start_mouse_y as int, y, pre.lane_size().1, shift);
            &&& post == (PianoRoll { drag, drag_value_status: post.drag_value_status, ..pre })
            &&& if n == 0 {
                post.drag_value_status == pre.drag_value_status
            } else if alt {
                status_is(post, absolute_text(absolute_value(pre, y), n))
            } else {
                status_is(post, relative_text(clamped_velocity(d.anchor_orig + delta), delta, shift, n))
            }
        },
        _ => post == pre,
    }
}

pub open spec fn velocity_drag_asks(pre: PianoRoll, y: int, alt: bool, shift: bool) -> Option<EditView> {
    match pre.drag {
        PianoDrag::Velocity(d) => if d.prev@.len() == 0 {
            None
        } else if alt {
            Some(EditView::LiveVelocities(d.clip_id@, all_at(d.prev@, absolute_value(pre, y))))
        } else {
            Some(
                EditView::LiveVelocities(
                    d.clip_id@,
                    all_by(d.prev@, drag_delta(d.start_mouse_y as int, y, pre.lane_size().1, shift)),
                ),
            )
        },
        _ => None,
    }
}

/// Every note at one value.
pub open spec fn all_at(prev: Seq<(u64, u8)>, value: int) -> Seq<(u64, u8)> {
    prev.map_values(|p: (u64, u8)| (p.0, value as u8))
}

/// Every note by one difference from where it was.
pub open spec fn all_by(prev: Seq<(u64, u8)>, delta: int) -> Seq<(u64, u8)> {
    prev.map_values(|p: (u64, u8)| (p.0, clamped_velocity(p.1 + delta) as u8))
}

/// Dragged notes keep their differences as long as none meets a limit.
pub proof fn law_dragged_velocities_keep_differences(prev: Seq<(u64, u8)>, delta: int, i: int, j: int)
    requires
        0 <= i < prev.len(),
        0 <= j < prev.len(),
        1 <= prev[i].1 + delta <= 127,
        1 <= prev[j].1 + delta <= 127,
    ensures
        all_by(prev, delta)[i].1 - all_by(prev, delta)[j].1 == prev[i].1 - prev[j].1,
{
}

fn set_all(prev: &Vec<(u64, u8)>, value: u8) -> (out: Vec<(u64, u8)>)
    ensures
        out@ == all_at(prev@, value as int),
{
    let mut out: Vec<(u64, u8)> = Vec::new();
    let mut i: usize = 0;
    while i < prev.len()
        invariant
            i <= prev@.len(),
            out@.len() == i,
            forall|k: int| 0 <= k < i ==> #[trigger] out@[k] == (prev@[k].0, value),
        decreases prev@.len() - i,
    {
        out.push((prev[i].0, value));
        i = i + 1;
    }
    assert(out@ =~= all_at(prev@, value as int));
    out
}

fn shift_all(prev: &Vec<(u64, u8)>, delta: i32) -> (out: Vec<(u64, u8)>)
    requires
        delta <= 1_000_000_000,
    ensures
        out@ == all_by(prev@, delta as int),
{
    let mut out: Vec<(u64, u8)> = Vec::new();
    let mut i: usize = 0;
    while i < prev.len()
        invariant
            i <= prev@.len(),
            out@.len() == i,
            delta <= 1_000_000_000,
            forall|k: int| 0 <= k < i ==> #[trigger] out@[k] == (prev@[k].0, clamped_velocity(prev@[k].1 + delta) as u8),
        decreases prev@.len() - i,
    {
        out.push((prev[i].0, relative_velocity(prev[i].1, delta)));
        i = i + 1;
    }
    assert(out@ =~= all_by(prev@, delta as int));
    out
}

/// The lane as strokes see it.
pub open spec fn lane_view(roll: PianoRoll) -> LaneView {
    LaneView {
        axis: roll.axis(),
        lane_h: roll.lane_size().1 as i64,
        snap_step: roll.snap_step(false) as i64,
        grid_step: roll.step() as i64,
    }
}

/// The stroke from where a paint gesture has got to.
pub open spec fn stroke_to(d: CcPaintDrag, lx: i64, ly: i64) -> CcStroke {
    let (from_x, from_y) = match d.last {
        Some(p) => p,
        None => (lx, ly),
    };
    CcStroke { from_x, from_y, to_x: lx, to_y: ly, unsnap: d.unsnap }
}

/// The controller stroke has reached the pointer.
pub open spec fn cc_stroked(pre: PianoRoll, post: PianoRoll, lx: i64, ly: i64, clip: Option<&ClipView>) -> bool {
    match (pre.drag, clip) {
        (PianoDrag::CcPaint(d), Some(c)) => {
            &&& status_is(post, cc_text(pre.active_cc, value_at_height(ly as int, pre.lane_size().1), d.unsnap))
            &&& post == (PianoRoll {
                drag: PianoDrag::CcPaint(CcPaintDrag { last: Some((lx, ly)), ..d }),
                drag_value_status: post.drag_value_status,
                ..pre
            })
        },
        _ => post == pre,
    }
}

pub open spec fn cc_stroke_asks(pre: PianoRoll, lx: i64, ly: i64, clip: Option<&ClipView>, next_id: u64) -> Option<
    EditView,
> {
    match (pre.drag, clip) {
        (PianoDrag::CcPaint(d), Some(c)) => {
            let stroke = stroke_to(d, lx, ly);
            let view = lane_view(pre);
            Some(
                EditView::LivePoints(
                    c.id@,
                    pre.active_cc,
                    repainted(c.points@, stroke.written(view), d.erase, stroke.reach(view), next_id),
                ),
            )
        },
        _ => None,
    }
}

/// How far a move gesture has carried its points.
pub open spec fn cc_shift(roll: PianoRoll, d: CcMoveDrag, lx: int, ly: int) -> (int, int) {
    (
        snapped(max_of(roll.axis().beat_at(lx), 0), roll.snap_step(d.unsnap)) - d.anchor_beat,
        value_at_height(ly, roll.lane_size().1) - d.anchor_value,
    )
}

/// The moved points have followed the pointer.
pub open spec fn cc_points_moved(pre: PianoRoll, post: PianoRoll, lx: int, ly: int, clip: Option<&ClipView>) -> bool {
    match (pre.drag, clip) {
        (PianoDrag::CcMove(d), Some(c)) => {
            &&& status_is(
                post,
                cc_move_text(
                    pre.active_cc,
                    value_at_height(ly, pre.lane_size().1),
                    cc_shift(pre, d, lx, ly).0,
                    d.prev@.len() as int,
                ),
            )
            &&& post == (PianoRoll { drag_value_status: post.drag_value_status, ..pre })
        },
        _ => post == pre,
    }
}

pub open spec fn cc_move_asks(pre: PianoRoll, lx: int, ly: int, clip: Option<&ClipView>) -> Option<EditView> {
    match (pre.drag, clip) {
        (PianoDrag::CcMove(d), Some(c)) => {
            let by = cc_shift(pre, d, lx, ly);
            Some(
                EditView::LiveMovePoints(
                    c.id@,
                    pre.active_cc,
                    d.prev@.map_values(
                        |p: (u64, i64, i64)|
                            {
                                let q = moved_point(p, by.0, by.1);
                                (q.0, q.1 as i64, q.2 as i64)
                            },
                    ),
                ),
            )
        },
        _ => None,
    }
}

/// The ramp of a controller line gesture.
pub open spec fn cc_ramp(roll: PianoRoll, d: CcLineDrag, lx: int, ly: int) -> CcRamp {
    let beat = roll.live_beat(lx, d.unsnap) as i64;
    let value = value_at_height(ly, roll.lane_size().1) as i64;
    let step = max_of(roll.step(), CC_POINT_MERGE_EPS as int) as i64;
    if d.anchor_beat <= beat {
        CcRamp { lo_beat: d.anchor_beat, hi_beat: beat, lo_value: d.anchor_value, hi_value: value, step }
    } else {
        CcRamp { lo_beat: beat, hi_beat: d.anchor_beat, lo_value: value, hi_value: d.anchor_value, step }
    }
}

/// The controller ramp ends at the pointer.
pub open spec fn cc_lined(pre: PianoRoll, post: PianoRoll, lx: int, ly: int, clip: Option<&ClipView>) -> bool {
    match (pre.drag, clip, pre.cc_edit_prev) {
        (PianoDrag::CcLine(d), Some(c), Some(base)) => {
            &&& status_is(
                post,
                cc_line_text(pre.active_cc, d.anchor_value as int, value_at_height(ly, pre.lane_size().1)),
            )
            &&& post == (PianoRoll { drag_value_status: post.drag_value_status, ..pre })
        },
        _ => post == pre,
    }
}

pub open spec fn cc_line_asks(pre: PianoRoll, lx: int, ly: int, clip: Option<&ClipView>, next_id: u64) -> Option<EditView> {
    match (pre.drag, clip, pre.cc_edit_prev) {
        (PianoDrag::CcLine(d), Some(c), Some(base)) => Some(
            EditView::LivePoints(c.id@, pre.active_cc, line_points(base@, cc_ramp(pre, d, lx, ly), next_id)),
        ),
        _ => None,
    }
}

/// Name of the articulation that an event stands for.
pub open spec fn event_label(clip: ClipView, id: u64, names: Seq<String>) -> Seq<char> {
    match event_with_id(clip.articulations@, id) {
        Some(e) => names[e.articulation.rank()]@,
        None => "Articulation"@,
    }
}

/// The articulation has followed the pointer.
pub open spec fn event_moved(pre: PianoRoll, post: PianoRoll, lx: int, clip: Option<&ClipView>, names: Seq<String>) -> bool {
    match (pre.drag, clip) {
        (PianoDrag::ArtMove(id), Some(c)) => {
            &&& status_is(post, event_text(event_label(*c, id, names), pre.live_beat(lx, false)))
            &&& post == (PianoRoll { drag_value_status: post.drag_value_status, ..pre })
        },
        _ => post == pre,
    }
}

pub open spec fn event_move_asks(pre: PianoRoll, lx: int, clip: Option<&ClipView>) -> Option<EditView> {
    match (pre.drag, clip) {
        (PianoDrag::ArtMove(id), Some(c)) => Some(EditView::LiveMoveEvent(c.id@, id, pre.live_beat(lx, false))),
        _ => None,
    }
}

impl PianoRoll {
    fn stroke_view(&self) -> (v: LaneView)
        requires
            self.valid(),
        ensures
            v == lane_view(*self),
            v.valid(),
    {
        let (_w, lane_h) = self.cc_view_size();
        LaneView {
            axis: self.clip_axis(),
            lane_h,
            snap_step: self.live_snap_step(false),
            grid_step: self.step_beats(),
        }
    }

    /// Paints velocities along a stroke.
    pub fn paint_velocity_segment(&mut self, stroke: Stroke) -> (edit: Option<RollEdit>)
        requires
            old(self).valid(),
            on_surface(stroke.from_x as int) && on_surface(stroke.from_y as int),
            on_surface(stroke.to_x as int) && on_surface(stroke.to_y as int),
        ensures
            velocity_painted(*old(self), *final(self), stroke),
            asked(edit) == paint_asks(*old(self), stroke),
            final(self).valid(),
    {
        let axis = self.clip_axis();
        let (_w, lane_h) = self.cc_view_size();
        let ghost pre = *self;
        match &mut self.drag {
            PianoDrag::VelocityPaint(d) => {
                assert forall|i: int| 0 <= i < d.original_notes@.len() implies crate::fixed::on_axis(
                    (#[trigger] d.original_notes@[i]).start as int,
                ) by {
                    assert(crate::drag::note_in_song(d.original_notes@[i]));
                }
                let values = velocity_paint_updates(&d.original_notes, axis, lane_h, stroke);
                assert(values@ =~= painted(pre, d.original_notes@, stroke));
                if values.len() == 0 {
                    return None;
                }
                d.touched = with_named(&d.touched, &values);
                d.last_x = stroke.to_x;
                d.last_y = stroke.to_y;
                let text = paint_status(values[values.len() - 1].1, values.len());
                let clip_id = d.clip_id.clone();
                self.drag_value_status = Some(text);
                Some(RollEdit::LiveVelocities { clip_id, targets: values })
            },
            _ => None,
        }
    }

    /// Draws the velocity ramp to a point of the lane.
    pub fn update_velocity_line(&mut self, lx: i64, ly: i64) -> (edit: Option<RollEdit>)
        requires
            old(self).valid(),
            on_surface(lx as int) && on_surface(ly as int),
        ensures
            velocity_lined(*old(self), *final(self), lx as int, ly as int),
            asked(edit) == line_asks(*old(self), lx as int, ly as int),
            final(self).valid(),
    {
        let unsnap = match &self.drag {
            PianoDrag::VelocityLine(d) => d.unsnap,
            _ => {
                return None;
            },
        };
        let cursor_beat = self.live_beat_at(lx, unsnap);
        let (_w, lane_h) = self.cc_view_size();
        let cursor_value = velocity_from_local_y(ly, lane_h);
        let selection = self.selection.copy();
        let ghost pre = *self;
        match &mut self.drag {
            PianoDrag::VelocityLine(d) => {
                let ramp = Ramp {
                    anchor_beat: d.anchor_beat,
                    anchor_value: d.anchor_value,
                    cursor_beat,
                    cursor_value,
                    curve: d.curve,
                };
                assert forall|i: int| 0 <= i < d.original_notes@.len() implies crate::fixed::on_axis(
                    (#[trigger] d.original_notes@[i]).start as int,
                ) by {
                    assert(crate::drag::note_in_song(d.original_notes@[i]));
                }
                let (values, affected) = velocity_line_updates(&d.original_notes, &selection, &d.affected, ramp);
                assert(affected@ =~= d.affected@.union(reached_by(ramp, d.original_notes@, pre.selection@)));
                d.current_beat = cursor_beat;
                d.current_value = cursor_value;
                d.affected = affected;
                let text = line_status(d.anchor_value, cursor_value, d.anchor_beat, cursor_beat);
                let clip_id = d.clip_id.clone();
                self.drag_value_status = Some(text);
                Some(RollEdit::LiveVelocities { clip_id, targets: values })
            },
            _ => None,
        }
    }

    /// Velocity at a height in the window.
    pub fn velocity_from_window_y(&self, y: i64) -> (v: u8)
        requires
            self.valid(),
            crate::drag::in_window(y as int),
        ensures
            v == absolute_value(*self, y as int),
            1 <= v <= 127,
    {
        let local_y: i64 = match self.lane_bounds {
            Some(b) => y - b.y,
            None => LANE_H / 2,
        };
        let (_w, lane_h) = self.cc_view_size();
        velocity_from_local_y(local_y, lane_h)
    }

    /// Drags velocities to a height in the window: all to one value with Alt,
    /// else all by one difference, a finer one with Shift.
    pub fn drag_velocity(&mut self, y: i64, alt: bool, shift: bool) -> (edit: Option<RollEdit>)
        requires
            old(self).valid(),
            crate::drag::in_window(y as int),
        ensures
            velocity_dragged(*old(self), *final(self), y as int, alt, shift),
            asked(edit) == velocity_drag_asks(*old(self), y as int, alt, shift),
            final(self).valid(),
    {
        let value = self.velocity_from_window_y(y);
        let (_w, lane_h) = self.cc_view_size();
        match &mut self.drag {
            PianoDrag::Velocity(d) => {
                d.absolute = alt;
                d.fine = shift;
                let count = d.prev.len();
                if count == 0 {
                    return None;
                }
                let clip_id = d.clip_id.clone();
                let (text, targets) = if alt {
                    (absolute_status(value, count), set_all(&d.prev, value))
                } else {
                    let delta = velocity_drag_delta(d.start_mouse_y, y, lane_h, shift);
                    proof {
                        lemma_small_delta(d.start_mouse_y as int, y as int, lane_h as int, shift);
                    }
                    let anchor = relative_velocity(d.anchor_orig, delta);
                    (relative_status(anchor, delta, shift, count), shift_all(&d.prev, delta))
                };
                self.drag_value_status = Some(text);
                Some(RollEdit::LiveVelocities { clip_id, targets })
            },
            _ => None,
        }
    }

    /// Draws or erases controller points along the stroke to a point of the lane.
    pub fn cc_paint_stroke_to(&mut self, lx: i64, ly: i64, clip: Option<&ClipView>, next_id: u64) -> (edit: Option<
        RollEdit,
    >)
        requires
            old(self).valid(),
            clip_valid(clip),
            on_surface(lx as int) && on_surface(ly as int),
            next_id <= ID_LIMIT,
        ensures
            cc_stroked(*old(self), *final(self), lx, ly, clip),
            asked(edit) == cc_stroke_asks(*old(self), lx, ly, clip, next_id),
            final(self).valid(),
    {
        let c = match clip {
            Some(c) => c,
            None => {
                return None;
            },
        };
        let d = match &self.drag {
            PianoDrag::CcPaint(d) => *d,
            _ => {
                return None;
            },
        };
        let (from_x, from_y) = match d.last {
            Some(p) => p,
            None => (lx, ly),
        };
        let stroke = CcStroke { from_x, from_y, to_x: lx, to_y: ly, unsnap: d.unsnap };
        let view = self.stroke_view();
        let edits = stroke.points(&view);
        let reach = stroke.replace_reach(&view);
        let points = replace_cc_paint_segment(&c.points, &edits, d.erase, reach, next_id);
        let value = value_from_local_y(ly, view.lane_h);
        self.drag_value_status = Some(cc_status(self.active_cc, value, d.unsnap));
        self.drag = PianoDrag::CcPaint(CcPaintDrag { erase: d.erase, last: Some((lx, ly)), unsnap: d.unsnap });
        Some(RollEdit::LivePoints { clip_id: c.id.clone(), kind: self.active_cc, points })
    }

    /// Moves the held controller points to the pointer.
    pub fn cc_move_selection_to(&mut self, lx: i64, ly: i64, clip: Option<&ClipView>) -> (edit: Option<RollEdit>)
        requires
            old(self).valid(),
            clip_valid(clip),
            on_surface(lx as int) && on_surface(ly as int),
        ensures
            cc_points_moved(*old(self), *final(self), lx as int, ly as int, clip),
            asked(edit) == cc_move_asks(*old(self), lx as int, ly as int, clip),
            final(self).valid(),
    {
        let c = match clip {
            Some(c) => c,
            None => {
                return None;
            },
        };
        let raw = max_i64(self.x_to_clip_beat(lx), 0);
        let (_w, lane_h) = self.cc_view_size();
        let value = value_from_local_y(ly, lane_h);
        let kind = self.active_cc;
        let ghost pre = *self;
        let (text, targets) = match &self.drag {
            PianoDrag::CcMove(d) => {
                let beat = self.snap_beats_live(raw, d.unsnap);
                proof {
                    crate::roll::lemma_snap_reach(raw as int, self.snap_step(d.unsnap));
                }
                let d_beat: i64 = beat - d.anchor_beat;
                let d_value: i64 = value - d.anchor_value;
                let targets = cc_move_targets(&d.prev, d_beat, d_value);
                assert(asked(
                    Some(RollEdit::LiveMovePoints { clip_id: c.id, kind, targets }),
                ) == cc_move_asks(pre, lx as int, ly as int, clip)) by {
                    let by = cc_shift(pre, *d, lx as int, ly as int);
                    assert(targets@ =~= d.prev@.map_values(
                        |p: (u64, i64, i64)|
                            {
                                let q = moved_point(p, by.0, by.1);
                                (q.0, q.1 as i64, q.2 as i64)
                            },
                    ));
                }
                (cc_move_status(kind, value, d_beat, d.prev.len()), targets)
            },
            _ => {
                return None;
            },
        };
        self.drag_value_status = Some(text);
        Some(RollEdit::LiveMovePoints { clip_id: c.id.clone(), kind, targets })
    }

    /// Draws the controller ramp to a point of the lane.
    pub fn cc_line_to(&mut self, lx: i64, ly: i64, clip: Option<&ClipView>, next_id: u64) -> (edit: Option<RollEdit>)
        requires
            old(self).valid(),
            clip_valid(clip),
            on_surface(lx as int) && on_surface(ly as int),
            next_id <= ID_LIMIT,
        ensures
            cc_lined(*old(self), *final(self), lx as int, ly as int, clip),
            asked(edit) == cc_line_asks(*old(self), lx as int, ly as int, clip, next_id),
            final(self).valid(),
    {
        let c = match clip {
            Some(c) => c,
            None => {
                return None;
            },
        };
        let d = match &self.drag {
            PianoDrag::CcLine(d) => *d,
            _ => {
                return None;
            },
        };
        let beat = self.live_beat_at(lx, d.unsnap);
        let (_w, lane_h) = self.cc_view_size();
        let value = value_from_local_y(ly, lane_h);
        let ramp = ramp_between(d.anchor_beat, d.anchor_value, beat, value, self.step_beats());
        proof {
            lemma_ramp_count(ramp);
        }
        let points = match &self.cc_edit_prev {
            Some(base) => cc_line_points(base, ramp, next_id),
            None => {
                return None;
            },
        };
        self.drag_value_status = Some(cc_line_status(self.active_cc, d.anchor_value, value));
        Some(RollEdit::LivePoints { clip_id: c.id.clone(), kind: self.active_cc, points })
    }

    /// Moves the held articulation to the pointer.
    pub fn articulation_move_to(&mut self, lx: i64, clip: Option<&ClipView>, names: &Vec<String>) -> (edit: Option<
        RollEdit,
    >)
        requires
            old(self).valid(),
            clip_valid(clip),
            on_surface(lx as int),
            names@.len() == ARTICULATION_COUNT,
        ensures
            event_moved(*old(self), *final(self), lx as int, clip, names@),
            asked(edit) == event_move_asks(*old(self), lx as int, clip),
            final(self).valid(),
    {
        let c = match clip {
            Some(c) => c,
            None => {
                return None;
            },
        };
        let id = match &self.drag {
            PianoDrag::ArtMove(id) => *id,
            _ => {
                return None;
            },
        };
        let beat = self.live_beat_at(lx, false);
        let text = match find_event(&c.articulations, id) {
            Some(e) => event_status(names[e.articulation.index()].as_str(), beat),
            None => event_status("Articulation", beat),
        };
        self.drag_value_status = Some(text);
        Some(RollEdit::LiveMoveEvent { clip_id: c.id.clone(), id, beat })
    }
}

proof fn lemma_small_delta(start_y: int, y: int, lane_h: int, fine: bool)
    requires
        crate::drag::in_window(start_y),
        crate::drag::in_window(y),
    ensures
        -1_000_000_000 <= drag_delta(start_y, y, lane_h, fine) <= 1_000_000_000,
{
    let a = -(y - start_y) * 126;
    let b = usable_height(lane_h) * (if fine {
        5int
    } else {
        1int
    });
    lemma_nearest_bound(a, b);
    let q = nearest(a, b);
    assert(-1_000_000_000 <= q <= 1_000_000_000) by (nonlinear_arith)
        requires
            -b <= 2 * (q * b - a) <= b,
            b >= 1_000_000,
            -137_438_953_472 * 126 <= a <= 137_438_953_472 * 126,
    ;
}

proof fn lemma_ramp_count(ramp: CcRamp)
    requires
        ramp.step >= CC_POINT_MERGE_EPS,
        0 <= ramp.lo_beat <= ramp.hi_beat <= BEAT_LIMIT + 4 * TICKS_PER_BEAT,
    ensures
        0 <= ramp.count() <= 0x1_0000_0000_0000,
{
    let a = ramp.hi_beat - ramp.lo_beat;
    lemma_nearest_bound(a, ramp.step as int);
    assert(nearest(a, ramp.step as int) <= a + 1) by (nonlinear_arith)
        requires
            2 * (nearest(a, ramp.step as int) * ramp.step - a) <= ramp.step,
            ramp.step >= 1,
            a >= 0,
    ;
}

/// Dragging velocities gives every note its own velocity plus the change, inside
/// the range; an absolute drag gives every note the same.
pub proof fn law_velocity_drags_reach_every_note(prev: Seq<(u64, u8)>, delta: int, value: u8, i: int)
    requires
        0 <= i < prev.len(),
    ensures
        all_by(prev, delta).len() == prev.len(),
        all_by(prev, delta)[i].0 == prev[i].0,
        1 <= prev[i].1 + delta <= 127 ==> all_by(prev, delta)[i].1 == prev[i].1 + delta,
        prev[i].1 + delta < 1 ==> all_by(prev, delta)[i].1 == 1,
        prev[i].1 + delta > 127 ==> all_by(prev, delta)[i].1 == 127,
        all_at(prev, value as int).len() == prev.len(),
        all_at(prev, value as int)[i] == (prev[i].0, value),
{
}

/// The grabbed point lands under the pointer, on the grid while snapping, and the
/// others keep their distance from it.
pub proof fn law_grabbed_point_lands_under_the_pointer(roll: PianoRoll, d: CcMoveDrag, lx: int, ly: int, id: u64)
    requires
        roll.axis().beat_at(lx) >= 0,
        0 <= value_at_height(ly, roll.lane_size().1) <= VALUE_ONE,
    ensures
        ({
            let by = cc_shift(roll, d, lx, ly);
            let landed = moved_point((id, d.anchor_beat, d.anchor_value), by.0, by.1);
            let under = roll.axis().beat_at(lx);
            let step = roll.snap_step(d.unsnap);
            &&& landed.0 == id
            &&& step <= 0 ==> landed.1 == under
            &&& step > 0 ==> landed.1 % step == 0 && -step <= 2 * (landed.1 - under) <= step
            &&& landed.2 == value_at_height(ly, roll.lane_size().1)
        }),
{
    crate::grid::law_snapped_beats_are_on_the_grid(roll.axis().beat_at(lx), roll.snap_step(d.unsnap));
}

/// A controller line runs between the place where it began and the pointer,
/// whichever of them is earlier.
pub proof fn law_controller_line_joins_anchor_and_pointer(roll: PianoRoll, d: CcLineDrag, lx: int, ly: int)
    requires
        cc_ramp(roll, d, lx, ly).valid(),
        0 <= roll.live_beat(lx, d.unsnap) <= i64::MAX,
        0 <= value_at_height(ly, roll.lane_size().1) <= VALUE_ONE,
        roll.live_beat(lx, d.unsnap) != d.anchor_beat,
    ensures
        cc_ramp(roll, d, lx, ly).value_at(d.anchor_beat as int) == d.anchor_value,
        cc_ramp(roll, d, lx, ly).value_at(roll.live_beat(lx, d.unsnap)) == value_at_height(ly, roll.lane_size().1),
        cc_ramp(roll, d, lx, ly).lo_beat == d.anchor_beat || cc_ramp(roll, d, lx, ly).hi_beat == d.anchor_beat,
{
    let ramp = cc_ramp(roll, d, lx, ly);
    crate::cc_paint::law_ramps_are_straight(ramp, ramp.hi_beat as int);
    crate::fixed::lemma_nearest_of_multiple(0, ramp.hi_beat - ramp.lo_beat);
    vstd::arithmetic::mul::lemma_mul_basics(ramp.hi_beat - ramp.lo_beat);
    vstd::arithmetic::mul::lemma_mul_basics(ramp.hi_value - ramp.lo_value);
}

/// A brush paints the notes that it covers and no others.
pub proof fn law_a_brush_paints_what_it_covers(roll: PianoRoll, notes: Seq<MidiNote>, stroke: Stroke, i: int)
    requires
        0 <= i < notes.len(),
        stroke.covers(roll.axis(), notes[i]),
    ensures
        painted(roll, notes, stroke).contains(stroke.paints(roll.axis(), roll.lane_size().1, notes[i])),
        stroke.paints(roll.axis(), roll.lane_size().1, notes[i]).0 == notes[i].id,
        painted(roll, notes, stroke).len() <= notes.len(),
{
    let q = |n: MidiNote| stroke.covers(roll.axis(), n);
    let f = |n: MidiNote| stroke.paints(roll.axis(), roll.lane_size().1, n);
    let kept = notes.filter(q);
    assert(q(notes[i]));
    notes.lemma_filter_contains(q, i);
    notes.lemma_filter_len(q);
    let k = choose|k: int| 0 <= k < kept.len() && kept[k] == notes[i];
    assert(painted(roll, notes, stroke)[k] == f(notes[i]));
}

} // verus!
