//! Commands on controller points and direction articulations.

use crate::articulation::{copy_events, events_without, has_event, lists_event, same_events, without_event};
use crate::cc_curve::{
    apply_cc_curve, cc_curve_span, curve_edits, curve_step, span_for, valid_points, with_span_replaced, CcCurveKind,
    CurveSpan,
};
use crate::cc_points::{
    copy_points, drop_points, duplicate_points, points_in, points_out, same_points, select_points, with_copies,
    CC_POINT_MERGE_EPS,
};
use crate::drag::points_in_song;
use crate::fixed::{lemma_nearest_bound, max_i64, max_of, nearest, BEAT_LIMIT, ID_LIMIT, SONG_LIMIT};
use crate::id_set::IdSet;
use crate::midi::{MidiArticulationEvent, MidiControllerKind, MidiControllerPoint};
use crate::roll::{clip_valid, ClipView, PianoRoll};
use crate::roll_edit::{asked, EditView, RollEdit};
use vstd::prelude::*;

verus! {

/// Points replaced by others, where they differ.
pub open spec fn replaces(
    clip: Seq<char>,
    kind: MidiControllerKind,
    prev: Seq<MidiControllerPoint>,
    next: Seq<MidiControllerPoint>,
) -> Option<EditView> {
    if prev == next {
        None
    } else {
        Some(EditView::ReplacePoints(clip, kind, prev, next))
    }
}

fn replace_points(c: &ClipView, kind: MidiControllerKind, next: Vec<MidiControllerPoint>) -> (edit: Option<RollEdit>)
    ensures
        asked(edit) == replaces(c.id@, kind, c.points@, next@),
{
    if same_points(&c.points, &next) {
        None
    } else {
        Some(RollEdit::ReplacePoints { clip_id: c.id.clone(), kind, prev: copy_points(&c.points), next })
    }
}

/// A point has this id.
pub open spec fn lists_point(points: Seq<MidiControllerPoint>, id: u64) -> bool {
    exists|i: int| 0 <= i < points.len() && (#[trigger] points[i]).id == id
}

fn has_point(points: &Vec<MidiControllerPoint>, id: u64) -> (r: bool)
    ensures
        r == lists_point(points@, id),
{
    let mut i: usize = 0;
    while i < points.len()
        invariant
            i <= points@.len(),
            forall|k: int| 0 <= k < i ==> (#[trigger] points@[k]).id != id,
        decreases points@.len() - i,
    {
        if points[i].id == id {
            return true;
        }
        i = i + 1;
    }
    false
}

/// `count` ids from `first` on.
pub open spec fn id_run(first: u64, count: int) -> Set<u64> {
    Set::new(|id: u64| first <= id < first + count)
}

fn run_of_ids(first: u64, count: u64) -> (s: IdSet)
    requires
        first + count <= u64::MAX,
    ensures
        s@ == id_run(first, count as int),
{
    let mut s = IdSet::new();
    let mut k: u64 = 0;
    while k < count
        invariant
            k <= count,
            first + count <= u64::MAX,
            forall|id: u64| #[trigger] s@.contains(id) <==> first <= id < first + k,
        decreases count - k,
    {
        s.insert(first + k);
        k = k + 1;
    }
    assert(s@ =~= id_run(first, count as int));
    s
}

/// The roll without the traces of a lane gesture.
pub open spec fn lane_settled(pre: PianoRoll) -> PianoRoll {
    PianoRoll { cc_edit_prev: None, cc_edit_target: None, ..pre }
}

/// One point has been deleted; the selection keeps its other points.
pub open spec fn point_deleted(pre: PianoRoll, post: PianoRoll, id: u64, clip: Option<&ClipView>) -> bool {
    match clip {
        Some(c) => if lists_point(c.points@, id) {
            &&& post.cc_selection@ == pre.cc_selection@.remove(id)
            &&& post == (PianoRoll { cc_selection: post.cc_selection, ..lane_settled(pre) })
        } else {
            post == lane_settled(pre)
        },
        None => post == pre,
    }
}

pub open spec fn point_delete_asks(pre: PianoRoll, id: u64, clip: Option<&ClipView>) -> Option<EditView> {
    match clip {
        Some(c) => if lists_point(c.points@, id) {
            replaces(c.id@, pre.active_cc, c.points@, points_out(c.points@, set![id]))
        } else {
            None
        },
        None => None,
    }
}

/// The selected points have been deleted.
pub open spec fn points_deleted(pre: PianoRoll, post: PianoRoll, clip: Option<&ClipView>) -> bool {
    if clip is None || pre.cc_selection@ == Set::<u64>::empty() {
        post == pre
    } else {
        &&& post.cc_selection@ == Set::<u64>::empty()
        &&& post == (PianoRoll { cc_selection: post.cc_selection, ..lane_settled(pre) })
    }
}

pub open spec fn points_delete_asks(pre: PianoRoll, clip: Option<&ClipView>) -> Option<EditView> {
    match clip {
        Some(c) => if pre.cc_selection@ == Set::<u64>::empty() {
            None
        } else {
            replaces(c.id@, pre.active_cc, c.points@, points_out(c.points@, pre.cc_selection@))
        },
        None => None,
    }
}

/// Deleting a selection leaves none of its points and all the others.
pub proof fn law_deleted_points_are_gone(points: Seq<MidiControllerPoint>, ids: Set<u64>, p: MidiControllerPoint)
    ensures
        points_out(points, ids).contains(p) <==> points.contains(p) && !ids.contains(p.id),
{
    let q = |p: MidiControllerPoint| !ids.contains(p.id);
    if points_out(points, ids).contains(p) {
        points.lemma_filter_contains_rev(q, p);
        let i = choose|i: int| 0 <= i < points_out(points, ids).len() && points_out(points, ids)[i] == p;
        points.lemma_filter_pred(q, i);
    }
    if points.contains(p) && !ids.contains(p.id) {
        let i = choose|i: int| 0 <= i < points.len() && points[i] == p;
        points.lemma_filter_contains(q, i);
    }
}

/// Distance of duplicated points: a grid step.
pub open spec fn duplicate_gap(roll: PianoRoll) -> int {
    max_of(roll.step(), CC_POINT_MERGE_EPS as int)
}

/// The selected points have been duplicated, and the copies are selected.
pub open spec fn points_duplicated(pre: PianoRoll, post: PianoRoll, clip: Option<&ClipView>, next_id: u64) -> bool {
    if clip is None || pre.cc_selection@ == Set::<u64>::empty() {
        post == pre
    } else {
        &&& post.cc_selection@ == id_run(next_id, points_in(clip->0.points@, pre.cc_selection@).len() as int)
        &&& post == (PianoRoll { cc_selection: post.cc_selection, ..lane_settled(pre) })
    }
}

pub open spec fn points_duplicate_asks(pre: PianoRoll, clip: Option<&ClipView>, next_id: u64) -> Option<EditView> {
    match clip {
        Some(c) => if pre.cc_selection@ == Set::<u64>::empty() {
            None
        } else {
            replaces(
                c.id@,
                pre.active_cc,
                c.points@,
                with_copies(c.points@, pre.cc_selection@, duplicate_gap(pre), next_id),
            )
        },
        None => None,
    }
}

/// The stretch that a curve covers, from the selected points or the click.
pub open spec fn curve_span_for(roll: PianoRoll, clip: ClipView, click_beat: int) -> (int, int, int, int) {
    span_for(
        points_in(clip.points@, roll.cc_selection@),
        click_beat,
        roll.snap_step(false),
        curve_step(roll.step()),
    )
}

/// The events of a clip without one, where it has it.
pub open spec fn event_delete_asks(clip: Option<&ClipView>, id: u64) -> Option<EditView> {
    match clip {
        Some(c) => if lists_event(c.articulations@, id) {
            Some(EditView::SetEvents(c.id@, c.articulations@, events_without(c.articulations@, id)))
        } else {
            None
        },
        None => None,
    }
}

proof fn lemma_valid_points(points: Seq<MidiControllerPoint>, ids: Set<u64>)
    requires
        points_in_song(points),
    ensures
        valid_points(points),
        valid_points(points_in(points, ids)),
{
    assert forall|i: int| 0 <= i < points.len() implies 0 <= (#[trigger] points[i]).beat
        <= crate::fixed::POSITION_LIMIT && 0 <= points[i].value <= crate::fixed::VALUE_ONE by {}
    let q = |p: MidiControllerPoint| ids.contains(p.id);
    assert forall|i: int| 0 <= i < points_in(points, ids).len() implies 0 <= (#[trigger] points_in(points, ids)[i]).beat
        <= crate::fixed::POSITION_LIMIT && 0 <= points_in(points, ids)[i].value <= crate::fixed::VALUE_ONE by {
        let e = points_in(points, ids)[i];
        points.lemma_filter_contains_rev(q, e);
        let k = choose|k: int| 0 <= k < points.len() && points[k] == e;
        assert(points[k] == e);
    }
}

impl PianoRoll {
    /// Deletes one point; the answer tells whether there was one.
    pub fn delete_cc_point(&mut self, id: u64, clip: Option<&ClipView>) -> (r: (bool, Option<RollEdit>))
        requires
            old(self).valid(),
        ensures
            point_deleted(*old(self), *final(self), id, clip),
            r.0 == (clip matches Some(c) && lists_point(c.points@, id)),
            asked(r.1) == point_delete_asks(*old(self), id, clip),
            final(self).valid(),
    {
        let c = match clip {
            Some(c) => c,
            None => {
                return (false, None);
            },
        };
        self.cc_edit_prev = None;
        self.cc_edit_target = None;
        if !has_point(&c.points, id) {
            return (false, None);
        }
        let one = IdSet::single(id);
        let next = drop_points(&c.points, &one);
        self.cc_selection.remove(id);
        (true, replace_points(c, self.active_cc, next))
    }

    /// Deletes the selected points.
    pub fn delete_selected_cc_points(&mut self, clip: Option<&ClipView>) -> (edit: Option<RollEdit>)
        requires
            old(self).valid(),
        ensures
            points_deleted(*old(self), *final(self), clip),
            asked(edit) == points_delete_asks(*old(self), clip),
            final(self).valid(),
    {
        let c = match clip {
            Some(c) => c,
            None => {
                return None;
            },
        };
        if self.cc_selection.is_empty() {
            return None;
        }
        let next = drop_points(&c.points, &self.cc_selection);
        self.cc_selection.clear();
        self.cc_edit_prev = None;
        self.cc_edit_target = None;
        replace_points(c, self.active_cc, next)
    }

    /// Duplicates the selected points a step later and selects the copies.
    pub fn duplicate_selected_cc_points(&mut self, clip: Option<&ClipView>, next_id: u64) -> (edit: Option<RollEdit>)
        requires
            old(self).valid(),
            clip_valid(clip),
            next_id <= ID_LIMIT,
        ensures
            points_duplicated(*old(self), *final(self), clip, next_id),
            asked(edit) == points_duplicate_asks(*old(self), clip, next_id),
            final(self).valid(),
    {
        let c = match clip {
            Some(c) => c,
            None => {
                return None;
            },
        };
        if self.cc_selection.is_empty() {
            return None;
        }
        let gap = max_i64(self.step_beats(), CC_POINT_MERGE_EPS);
        let (next, count) = duplicate_points(&c.points, &self.cc_selection, gap, next_id);
        proof {
            let ids = self.cc_selection@;
            c.points@.lemma_filter_len(|p: MidiControllerPoint| ids.contains(p.id));
        }
        self.cc_selection = run_of_ids(next_id, count);
        self.cc_edit_prev = None;
        self.cc_edit_target = None;
        replace_points(c, self.active_cc, next)
    }

    /// The stretch that a curve from this click covers.
    pub fn cc_curve_plan(&self, clip: &ClipView, click_beat: i64) -> (r: (CurveSpan, i64))
        requires
            self.valid(),
            clip.valid(),
            -SONG_LIMIT <= click_beat <= BEAT_LIMIT,
        ensures
            (r.0.lo as int, r.0.hi as int, r.0.from as int, r.0.to as int) == curve_span_for(
                *self,
                *clip,
                click_beat as int,
            ),
            r.1 == curve_step(self.step()),
            r.0.valid(),
    {
        let chosen = select_points(&clip.points, &self.cc_selection);
        let step = max_i64(self.step_beats(), CC_POINT_MERGE_EPS);
        proof {
            lemma_valid_points(clip.points@, self.cc_selection@);
        }
        (cc_curve_span(&chosen, click_beat, self.live_snap_step(false), step), step)
    }

    /// Lays a curve over a planned stretch, selects its points and closes the
    /// menu. `outside` holds the shape where it is no polynomial.
    pub fn lay_cc_curve(
        &mut self,
        kind: CcCurveKind,
        click_beat: i64,
        outside: &Vec<i64>,
        clip: Option<&ClipView>,
        next_id: u64,
    ) -> (edit: Option<RollEdit>)
        requires
            old(self).valid(),
            clip_valid(clip),
            -SONG_LIMIT <= click_beat <= BEAT_LIMIT,
            next_id <= ID_LIMIT,
        ensures
            match clip {
                Some(c) => {
                    let s = curve_span_for(*old(self), *c, click_beat as int);
                    let span = CurveSpan { lo: s.0 as i64, hi: s.1 as i64, from: s.2 as i64, to: s.3 as i64 };
                    let edits = curve_edits(c.points@, kind, span, curve_step(old(self).step()), outside@);
                    &&& asked(edit) == replaces(
                        c.id@,
                        old(self).active_cc,
                        c.points@,
                        with_span_replaced(c.points@, s.0, s.1, edits, next_id),
                    )
                    &&& final(self).cc_selection@ == id_run(next_id, edits.len() as int)
                    &&& *final(self) == (PianoRoll {
                        cc_selection: final(self).cc_selection,
                        open_cc_curve_menu: None,
                        ..lane_settled(*old(self))
                    })
                },
                None => edit is None && *final(self) == *old(self),
            },
            final(self).valid(),
    {
        let c = match clip {
            Some(c) => c,
            None => {
                return None;
            },
        };
        let (span, step) = self.cc_curve_plan(c, click_beat);
        proof {
            lemma_valid_points(c.points@, self.cc_selection@);
            lemma_curve_count(span, step as int);
        }
        let (next, count) = apply_cc_curve(&c.points, kind, span, step, outside, next_id);
        proof {
            let q = |p: MidiControllerPoint|
                span.lo - crate::cc_points::CC_SPAN_SLACK <= p.beat <= span.hi + crate::cc_points::CC_SPAN_SLACK;
            c.points@.lemma_filter_len(q);
        }
        self.cc_selection = run_of_ids(next_id, count);
        self.open_cc_curve_menu = None;
        self.cc_edit_prev = None;
        self.cc_edit_target = None;
        replace_points(c, self.active_cc, next)
    }

    /// Deletes the selected articulation.
    pub fn delete_selected_articulation(&mut self, clip: Option<&ClipView>) -> (edit: Option<RollEdit>)
        requires
            old(self).valid(),
        ensures
            *final(self) == (PianoRoll { selected_articulation: None, ..*old(self) }),
            asked(edit) == (match old(self).selected_articulation {
                Some(id) => event_delete_asks(clip, id),
                None => None,
            }),
            final(self).valid(),
    {
        let id = match self.selected_articulation {
            Some(id) => id,
            None => {
                return None;
            },
        };
        self.selected_articulation = None;
        remove_event(clip, id)
    }

    /// Deletes one articulation.
    pub fn delete_articulation(&mut self, id: u64, clip: Option<&ClipView>) -> (edit: Option<RollEdit>)
        requires
            old(self).valid(),
        ensures
            *final(self) == (PianoRoll {
                selected_articulation: if old(self).selected_articulation == Some(id) {
                    None
                } else {
                    old(self).selected_articulation
                },
                ..*old(self)
            }),
            asked(edit) == event_delete_asks(clip, id),
            final(self).valid(),
    {
        if self.selected_articulation == Some(id) {
            self.selected_articulation = None;
        }
        remove_event(clip, id)
    }

    /// Records an inserted articulation and selects it; nothing where the clip's
    /// articulations are as before.
    pub fn articulation_inserted(
        &mut self,
        clip_id: String,
        prev: Vec<MidiArticulationEvent>,
        next: Vec<MidiArticulationEvent>,
        new_id: Option<u64>,
    ) -> (edit: Option<RollEdit>)
        requires
            old(self).valid(),
        ensures
            prev@ == next@ ==> edit is None && *final(self) == *old(self),
            prev@ != next@ ==> asked(edit) == Some(EditView::SetEvents(clip_id@, prev@, next@)) && *final(self) == (
            PianoRoll { selected_articulation: new_id, ..*old(self) }),
            final(self).valid(),
    {
        if same_events(&prev, &next) {
            return None;
        }
        self.selected_articulation = new_id;
        Some(RollEdit::SetEvents { clip_id, prev, next })
    }
}

fn remove_event(clip: Option<&ClipView>, id: u64) -> (edit: Option<RollEdit>)
    ensures
        asked(edit) == event_delete_asks(clip, id),
{
    let c = match clip {
        Some(c) => c,
        None => {
            return None;
        },
    };
    if !has_event(&c.articulations, id) {
        return None;
    }
    Some(
        RollEdit::SetEvents {
            clip_id: c.id.clone(),
            prev: copy_events(&c.articulations),
            next: without_event(&c.articulations, id),
        },
    )
}

proof fn lemma_curve_count(span: CurveSpan, step: int)
    requires
        span.valid(),
        CC_POINT_MERGE_EPS <= step,
    ensures
        1 <= span.count(step) <= 0x10_0000_0000_0000 + step,
{
    let a = span.length(step);
    lemma_nearest_bound(a, step);
    assert(nearest(a, step) <= a + 1) by (nonlinear_arith)
        requires
            2 * (nearest(a, step) * step - a) <= step,
            step >= 1,
            a >= 0,
    ;
}

} // verus!
