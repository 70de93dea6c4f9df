//! Gestures as a whole: marquees, pruning after a change of the clip, and
//! cancelling.

use crate::articulation::{has_event, lists_event};
use crate::drag::{on_surface, LineDrag, MoveDrag, PaintDrag, PianoDrag, VelocityDrag};
use crate::fixed::{clamp_i64, clamp_to};
use crate::hit::{hit_ids, point_hits};
use crate::id_set::IdSet;
use crate::marquee::{apply_marquee_mode, marquee_selection, Marquee, MarqueeSelectionMode};
use crate::midi::{ids_of, lemma_filter_step, note_ids, notes_in, snapshot_notes, MidiControllerPoint, MidiNote};
use crate::note_edits::NotePlace;
use crate::preview::{PreviewMessage, PreviewTarget};
use crate::roll::{clip_valid, ClipView, PianoRoll};
use crate::roll_edit::{EditView, Outcome, RollEdit};
use crate::velocity::{snapshot_velocities, velocity_snapshot};
use crate::velocity_lane::{bar_meets, velocity_select_hits};
use vstd::prelude::*;

verus! {

/// A marquee on the grid has begun.
pub open spec fn marquee_begun(pre: PianoRoll, post: PianoRoll, lx: i64, ly: i64, mode: MarqueeSelectionMode) -> bool {
    &&& post.selection_before_marquee@ == pre.selection@
    &&& post == (PianoRoll {
        selection_before_marquee: post.selection_before_marquee,
        drag: PianoDrag::MarqueeSelect(Marquee::pressed(lx, ly, mode)),
        ..pre
    })
}

/// A marquee on the grid has followed the pointer. The selection follows once
/// the pointer has left the place of the press.
pub open spec fn marquee_moved(pre: PianoRoll, post: PianoRoll, lx: int, ly: int, notes: Seq<MidiNote>) -> bool {
    match pre.drag {
        PianoDrag::MarqueeSelect(m) => {
            let (w, h) = pre.grid_size();
            let next = m.dragged_to(clamp_to(lx, 0, w) as i64, clamp_to(ly, 0, h) as i64);
            &&& post == (PianoRoll { drag: PianoDrag::MarqueeSelect(next), selection: post.selection, ..pre })
            &&& if next.dragging {
                post.selection@ == marquee_selection(
                    pre.selection_before_marquee@,
                    hit_ids(pre, notes, next.area(w, h)),
                    m.mode,
                )
            } else {
                post.selection == pre.selection
            }
        },
        _ => post == pre,
    }
}

/// A marquee on the grid has ended: a click that was no drag clears the
/// selection in replace mode.
pub open spec fn marquee_committed(pre: PianoRoll, post: PianoRoll) -> bool {
    match pre.drag {
        PianoDrag::MarqueeSelect(m) => {
            &&& post.selection_before_marquee@ == Set::<u64>::empty()
            &&& post.selection@ == (if !m.dragging && m.mode == MarqueeSelectionMode::Replace {
                Set::empty()
            } else {
                pre.selection@
            })
            &&& post == (PianoRoll {
                drag: PianoDrag::Idle,
                selection: post.selection,
                selection_before_marquee: post.selection_before_marquee,
                ..pre
            })
        },
        _ => post == (PianoRoll { drag: PianoDrag::Idle, ..pre }),
    }
}

/// A marquee over notes has been given up.
pub open spec fn marquee_cancelled(pre: PianoRoll, post: PianoRoll) -> bool {
    &&& post.selection@ == pre.selection_before_marquee@
    &&& post.selection_before_marquee@ == Set::<u64>::empty()
    &&& post == (PianoRoll {
        drag: PianoDrag::Idle,
        selection: post.selection,
        selection_before_marquee: post.selection_before_marquee,
        ..pre
    })
}

/// A marquee that is given up leaves the selection that it found, however the
/// pointer went.
pub proof fn law_cancelled_marquee_restores_the_selection(
    before: PianoRoll,
    during: Seq<PianoRoll>,
    after: PianoRoll,
    x: i64,
    y: i64,
    mode: MarqueeSelectionMode,
    path: Seq<(int, int)>,
    notes: Seq<MidiNote>,
)
    requires
        during.len() == path.len() + 1,
        marquee_begun(before, during[0], x, y, mode),
        forall|i: int|
            0 <= i < path.len() ==> marquee_moved(#[trigger] during[i], during[i + 1], path[i].0, path[i].1, notes),
        marquee_cancelled(during.last(), after),
    ensures
        after.selection@ == before.selection@,
        after.drag is Idle,
    decreases path.len(),
{
    if path.len() > 0 {
        let n = path.len() as int;
        lemma_marquee_keeps_what_it_found(during, path, notes, n);
        assert(during.last() == during[n]);
    }
}

proof fn lemma_marquee_keeps_what_it_found(during: Seq<PianoRoll>, path: Seq<(int, int)>, notes: Seq<MidiNote>, n: int)
    requires
        0 <= n <= path.len(),
        during.len() == path.len() + 1,
        forall|i: int|
            0 <= i < path.len() ==> marquee_moved(#[trigger] during[i], during[i + 1], path[i].0, path[i].1, notes),
    ensures
        during[n].selection_before_marquee == during[0].selection_before_marquee,
    decreases n,
{
    if n > 0 {
        lemma_marquee_keeps_what_it_found(during, path, notes, n - 1);
        assert(marquee_moved(during[n - 1], during[n - 1 + 1], path[n - 1].0, path[n - 1].1, notes));
    }
}

/// The notes whose velocity bars meet a marquee of the lane.
pub open spec fn bar_hits(roll: PianoRoll, notes: Seq<MidiNote>, m: Marquee) -> Set<u64> {
    let (w, h) = roll.lane_size();
    Set::new(
        |id: u64|
            exists|i: int|
                0 <= i < notes.len() && (#[trigger] notes[i]).id == id && roll.channel_view.shows(notes[i].channel)
                    && bar_meets(roll.axis(), notes[i], h, m.area(w, h)),
    )
}

/// A marquee over velocity bars has followed the pointer.
pub open spec fn velocity_select_moved(pre: PianoRoll, post: PianoRoll, lx: i64, ly: i64, notes: Seq<MidiNote>) -> bool {
    match pre.drag {
        PianoDrag::VelocitySelect(clip, m) => {
            let next = m.dragged_to(lx, ly);
            &&& post == (PianoRoll {
                drag: PianoDrag::VelocitySelect(clip, next),
                selection: post.selection,
                ..pre
            })
            &&& if next.dragging {
                post.selection@ == marquee_selection(
                    pre.selection_before_marquee@,
                    bar_hits(pre, notes, next),
                    m.mode,
                )
            } else {
                post.selection == pre.selection
            }
        },
        _ => post == pre,
    }
}

/// A marquee over controller points has followed the pointer.
pub open spec fn cc_select_moved(
    pre: PianoRoll,
    post: PianoRoll,
    lx: i64,
    ly: i64,
    points: Seq<MidiControllerPoint>,
) -> bool {
    match pre.drag {
        PianoDrag::CcSelect(clip, kind, m) => {
            let (w, h) = pre.lane_size();
            let next = m.dragged_to(lx, ly);
            &&& post == (PianoRoll {
                drag: PianoDrag::CcSelect(clip, kind, next),
                cc_selection: post.cc_selection,
                ..pre
            })
            &&& if next.dragging {
                post.cc_selection@ == marquee_selection(
                    pre.cc_selection_before_marquee@,
                    point_hits(pre, points, next.area(w, h)),
                    m.mode,
                )
            } else {
                post.cc_selection == pre.cc_selection
            }
        },
        _ => post == pre,
    }
}

/// The entries of `prev` whose note is in `ids`.
pub open spec fn kept_places(prev: Seq<NotePlace>, ids: Set<u64>) -> Seq<NotePlace> {
    prev.filter(|p: NotePlace| ids.contains(p.id))
}

/// The entries of `prev` whose note is in `ids`.
pub open spec fn kept_velocities(prev: Seq<(u64, u8)>, ids: Set<u64>) -> Seq<(u64, u8)> {
    prev.filter(|p: (u64, u8)| ids.contains(p.0))
}

fn keep_places(prev: &Vec<NotePlace>, ids: &IdSet) -> (out: Vec<NotePlace>)
    ensures
        out@ == kept_places(prev@, ids@),
        out@.len() <= prev@.len(),
        forall|i: int| 0 <= i < out@.len() ==> prev@.contains(#[trigger] out@[i]),
{
    let mut out: Vec<NotePlace> = Vec::new();
    let mut i: usize = 0;
    let ghost p = |q: NotePlace| ids@.contains(q.id);
    proof {
        reveal(Seq::filter);
        assert(prev@.subrange(0, 0) =~= Seq::<NotePlace>::empty());
    }
    while i < prev.len()
        invariant
            i <= prev@.len(),
            p == (|q: NotePlace| ids@.contains(q.id)),
            out@ == prev@.subrange(0, i as int).filter(p),
            out@.len() <= i,
            forall|k: int| 0 <= k < out@.len() ==> prev@.contains(#[trigger] out@[k]),
        decreases prev@.len() - i,
    {
        proof {
            lemma_filter_step(prev@, i as int, p);
            assert(prev@.contains(prev@[i as int]));
        }
        if ids.contains(prev[i].id) {
            out.push(prev[i]);
        }
        i = i + 1;
    }
    assert(prev@.subrange(0, prev@.len() as int) =~= prev@);
    out
}

fn keep_velocities(prev: &Vec<(u64, u8)>, ids: &IdSet) -> (out: Vec<(u64, u8)>)
    ensures
        out@ == kept_velocities(prev@, ids@),
{
    let mut out: Vec<(u64, u8)> = Vec::new();
    let mut i: usize = 0;
    let ghost p = |q: (u64, u8)| ids@.contains(q.0);
    proof {
        reveal(Seq::filter);
        assert(prev@.subrange(0, 0) =~= Seq::<(u64, u8)>::empty());
    }
    while i < prev.len()
        invariant
            i <= prev@.len(),
            p == (|q: (u64, u8)| ids@.contains(q.0)),
            out@ == prev@.subrange(0, i as int).filter(p),
        decreases prev@.len() - i,
    {
        proof {
            lemma_filter_step(prev@, i as int, p);
        }
        if ids.contains(prev[i].0) {
            out.push(prev[i]);
        }
        i = i + 1;
    }
    assert(prev@.subrange(0, prev@.len() as int) =~= prev@);
    out
}

/// The gesture after the notes that are gone have left it. A gesture that loses
/// all its notes, or the note that it holds, ends.
pub open spec fn drag_pruned(pre: PianoDrag, post: PianoDrag, ids: Set<u64>) -> bool {
    match pre {
        PianoDrag::Move(d) => {
            let kept = kept_places(d.prev@, ids);
            if kept.len() == 0 {
                post is Idle
            } else {
                post matches PianoDrag::Move(e) && e.prev@ == kept && e == (MoveDrag { prev: e.prev, ..d })
            }
        },
        PianoDrag::Resize(d) => if ids.contains(d.id) {
            post == pre
        } else {
            post is Idle
        },
        PianoDrag::Velocity(d) => {
            let kept = kept_velocities(d.prev@, ids);
            if kept.len() == 0 {
                post is Idle
            } else {
                post matches PianoDrag::Velocity(e) && e.prev@ == kept && e == (VelocityDrag { prev: e.prev, ..d })
            }
        },
        PianoDrag::VelocityPaint(d) => {
            let kept = notes_in(d.original_notes@, ids);
            if kept.len() == 0 {
                post is Idle
            } else {
                post matches PianoDrag::VelocityPaint(e) && e.original_notes@ == kept && e == (PaintDrag {
                    original_notes: e.original_notes,
                    ..d
                })
            }
        },
        PianoDrag::VelocityLine(d) => {
            let kept = notes_in(d.original_notes@, ids);
            if kept.len() == 0 {
                post is Idle
            } else {
                post matches PianoDrag::VelocityLine(e) && e.original_notes@ == kept && e == (LineDrag {
                    original_notes: e.original_notes,
                    ..d
                })
            }
        },
        PianoDrag::EraseNotes(d) => {
            post matches PianoDrag::EraseNotes(e) && e.erased@ == d.erased@.intersect(ids) && e == (
            crate::drag::EraseDrag { erased: e.erased, ..d })
        },
        _ => post == pre,
    }
}

/// Everything that named a note or an articulation names one that exists.
pub open spec fn pruned(pre: PianoRoll, post: PianoRoll, clip: Option<&ClipView>) -> bool {
    match clip {
        None => {
            &&& post.selection@ == Set::<u64>::empty()
            &&& post.selection_before_marquee@ == Set::<u64>::empty()
            &&& post.erase_preview_ids@ == Set::<u64>::empty()
            &&& post.cc_selection_before_marquee@ == Set::<u64>::empty()
            &&& post == (PianoRoll {
                selection: post.selection,
                selection_before_marquee: post.selection_before_marquee,
                erase_preview_ids: post.erase_preview_ids,
                drag: PianoDrag::Idle,
                cc_edit_prev: None,
                cc_edit_target: None,
                cc_selection_before_marquee: post.cc_selection_before_marquee,
                art_edit_prev: None,
                selected_articulation: None,
                open_note_menu: None,
                hover_beat: None,
                hover_pitch: None,
                hover_note_status: None,
                drag_value_status: None,
                fitted_clip_id: None,
                ..pre
            })
        },
        Some(c) => {
            let ids = ids_of(c.notes@);
            &&& post.selection@ == pre.selection@.intersect(ids)
            &&& post.selection_before_marquee@ == pre.selection_before_marquee@.intersect(ids)
            &&& post.erase_preview_ids@ == pre.erase_preview_ids@.intersect(ids)
            &&& drag_pruned(pre.drag, post.drag, ids)
            &&& post == (PianoRoll {
                selection: post.selection,
                selection_before_marquee: post.selection_before_marquee,
                erase_preview_ids: post.erase_preview_ids,
                drag: post.drag,
                open_note_menu: if post.selection@ == Set::<u64>::empty() {
                    None
                } else {
                    pre.open_note_menu
                },
                selected_articulation: match pre.selected_articulation {
                    Some(id) => if lists_event(c.articulations@, id) {
                        Some(id)
                    } else {
                        None
                    },
                    None => None,
                },
                ..pre
            })
        },
    }
}

/// After pruning, every selected note is one of the clip's, and pruning again
/// changes none of the selections.
pub proof fn law_pruning_leaves_only_notes_of_the_clip(pre: PianoRoll, post: PianoRoll, again: PianoRoll, clip: &ClipView)
    requires
        pruned(pre, post, Some(clip)),
        pruned(post, again, Some(clip)),
    ensures
        post.selection@.subset_of(ids_of(clip.notes@)),
        post.selection_before_marquee@.subset_of(ids_of(clip.notes@)),
        post.erase_preview_ids@.subset_of(ids_of(clip.notes@)),
        again.selection@ == post.selection@,
        again.selected_articulation == post.selected_articulation,
{
    assert(again.selection@ =~= post.selection@);
}

/// What gives back the state before a live gesture.
pub open spec fn undo_of(pre: PianoRoll, clip: Option<&ClipView>) -> Option<EditView> {
    match pre.drag {
        PianoDrag::Velocity(d) => Some(EditView::RestoreVelocities(d.clip_id@, d.prev@)),
        PianoDrag::VelocityPaint(d) => Some(
            EditView::RestoreVelocities(d.clip_id@, velocity_snapshot(d.original_notes@)),
        ),
        PianoDrag::VelocityLine(d) => Some(
            EditView::RestoreVelocities(d.clip_id@, velocity_snapshot(d.original_notes@)),
        ),
        PianoDrag::CcPaint(_) | PianoDrag::CcMove(_) | PianoDrag::CcLine(_) => match (
            pre.cc_edit_prev,
            pre.cc_edit_target,
        ) {
            (Some(prev), Some(target)) => Some(EditView::LivePoints(target.0@, target.1, prev@)),
            _ => None,
        },
        PianoDrag::ArtMove(_) => match (pre.art_edit_prev, clip) {
            (Some(prev), Some(c)) => Some(EditView::LiveEvents(c.id@, prev@)),
            _ => None,
        },
        _ => None,
    }
}

/// The messages that silence what is sounding.
pub open spec fn silence(pre: PianoRoll, target: Option<PreviewTarget>) -> Seq<PreviewMessage> {
    match pre.preview.stop_track(target) {
        Some(track) => if pre.preview.connected {
            seq![PreviewMessage::AllNotesOff(track)]
        } else {
            Seq::empty()
        },
        None => Seq::empty(),
    }
}

/// Nothing sounds any more, and no key is held.
pub open spec fn silenced(pre: PianoRoll, post: PianoRoll) -> bool {
    post.preview == (crate::preview::PreviewState { active: None, key_pressed: None, key_drag: false, ..pre.preview })
}

/// The gesture in progress has been given up.
pub open spec fn cancelled(pre: PianoRoll, post: PianoRoll) -> bool {
    &&& silenced(pre, post)
    &&& match pre.drag {
        PianoDrag::MarqueeSelect(_) | PianoDrag::VelocitySelect(_, _) => {
            &&& post.selection@ == pre.selection_before_marquee@
            &&& post.selection_before_marquee@ == Set::<u64>::empty()
            &&& post == (PianoRoll {
                drag: PianoDrag::Idle,
                selection: post.selection,
                selection_before_marquee: post.selection_before_marquee,
                preview: post.preview,
                ..pre
            })
        },
        PianoDrag::CcSelect(_, _, _) => {
            &&& post.cc_selection@ == pre.cc_selection_before_marquee@
            &&& post.cc_selection_before_marquee@ == Set::<u64>::empty()
            &&& post == (PianoRoll {
                drag: PianoDrag::Idle,
                cc_selection: post.cc_selection,
                cc_selection_before_marquee: post.cc_selection_before_marquee,
                preview: post.preview,
                ..pre
            })
        },
        PianoDrag::Idle => post == (PianoRoll { preview: post.preview, ..pre }),
        _ => {
            &&& post.erase_preview_ids@ == Set::<u64>::empty()
            &&& post == (PianoRoll {
                drag: PianoDrag::Idle,
                erase_preview_ids: post.erase_preview_ids,
                cc_edit_prev: None,
                cc_edit_target: None,
                art_edit_prev: None,
                drag_value_status: None,
                preview: post.preview,
                ..pre
            })
        },
    }
}

/// Giving up a gesture asks for no undoable edit: only for what puts live
/// changes back.
pub proof fn law_cancel_records_nothing(pre: PianoRoll, clip: Option<&ClipView>)
    ensures
        match undo_of(pre, clip) {
            None => true,
            Some(EditView::RestoreVelocities(_, _)) => true,
            Some(EditView::LivePoints(_, _, _)) => true,
            Some(EditView::LiveEvents(_, _)) => true,
            _ => false,
        },
{
}

/// After a cancel no gesture is left and nothing sounds.
pub proof fn law_cancel_ends_every_gesture(pre: PianoRoll, post: PianoRoll)
    requires
        cancelled(pre, post),
    ensures
        post.drag is Idle,
        post.preview.active is None,
        !post.preview.key_drag,
{
}

impl PianoDrag {
    /// Lets go of notes that are not in `ids`.
    #[verifier::rlimit(40)]
    fn prune(&mut self, ids: &IdSet)
        requires
            old(self).valid(),
        ensures
            drag_pruned(*old(self), *final(self), ids@),
            final(self).valid(),
    {
        let stale = match self {
            PianoDrag::Move(d) => {
                let kept = keep_places(&d.prev, ids);
                let gone = kept.len() == 0;
                d.prev = kept;
                gone
            },
            PianoDrag::Resize(d) => !ids.contains(d.id),
            PianoDrag::Velocity(d) => {
                let kept = keep_velocities(&d.prev, ids);
                let gone = kept.len() == 0;
                d.prev = kept;
                gone
            },
            PianoDrag::VelocityPaint(d) => {
                let kept = snapshot_notes(&d.original_notes, ids);
                proof {
                    lemma_kept_notes_in_song(d.original_notes@, ids@);
                }
                let gone = kept.len() == 0;
                d.original_notes = kept;
                gone
            },
            PianoDrag::VelocityLine(d) => {
                let kept = snapshot_notes(&d.original_notes, ids);
                proof {
                    lemma_kept_notes_in_song(d.original_notes@, ids@);
                }
                let gone = kept.len() == 0;
                d.original_notes = kept;
                gone
            },
            PianoDrag::EraseNotes(d) => {
                d.erased.retain_in(ids);
                false
            },
            _ => false,
        };
        if stale {
            *self = PianoDrag::Idle;
        }
    }
}

impl PianoRoll {
    /// Begins a marquee on the grid.
    pub fn begin_marquee_select(&mut self, lx: i64, ly: i64, mode: MarqueeSelectionMode)
        requires
            old(self).valid(),
            on_surface(lx as int),
            on_surface(ly as int),
        ensures
            marquee_begun(*old(self), *final(self), lx, ly, mode),
            final(self).valid(),
    {
        self.selection_before_marquee = self.selection.copy();
        self.drag = PianoDrag::MarqueeSelect(Marquee::at(lx, ly, mode));
    }

    /// Follows the pointer with a marquee on the grid.
    pub fn update_marquee_select(&mut self, lx: i64, ly: i64, notes: &Vec<MidiNote>)
        requires
            old(self).valid(),
            on_surface(lx as int),
            on_surface(ly as int),
            crate::drag::notes_in_song(notes@),
        ensures
            marquee_moved(*old(self), *final(self), lx as int, ly as int, notes@),
            final(self).valid(),
    {
        let m = match &self.drag {
            PianoDrag::MarqueeSelect(m) => *m,
            _ => {
                return ;
            },
        };
        let (view_w, view_h) = self.grid_view_size();
        let next = m.drag_to(clamp_i64(lx, 0, view_w), clamp_i64(ly, 0, view_h));
        if next.dragging {
            let rect = next.rect(view_w, view_h);
            let hits = self.marquee_hits(notes, rect);
            self.selection = apply_marquee_mode(&self.selection_before_marquee, &hits, m.mode);
        }
        self.drag = PianoDrag::MarqueeSelect(next);
    }

    /// Ends a marquee on the grid.
    pub fn commit_marquee_select(&mut self)
        requires
            old(self).valid(),
        ensures
            marquee_committed(*old(self), *final(self)),
            final(self).valid(),
    {
        let marquee = match &self.drag {
            PianoDrag::MarqueeSelect(m) => Some(*m),
            _ => None,
        };
        self.drag = PianoDrag::Idle;
        match marquee {
            Some(m) => {
                if !m.dragging && m.mode == MarqueeSelectionMode::Replace {
                    self.selection.clear();
                }
                self.selection_before_marquee.clear();
            },
            None => {},
        }
    }

    /// Gives up a marquee on the grid; nothing happens during another gesture.
    pub fn cancel_marquee_select(&mut self)
        requires
            old(self).valid(),
        ensures
            old(self).drag is MarqueeSelect ==> marquee_cancelled(*old(self), *final(self)),
            !(old(self).drag is MarqueeSelect) ==> *final(self) == *old(self),
            final(self).valid(),
    {
        let active = match &self.drag {
            PianoDrag::MarqueeSelect(_) => true,
            _ => false,
        };
        if active {
            self.selection = self.selection_before_marquee.copy();
            self.selection_before_marquee.clear();
            self.drag = PianoDrag::Idle;
        }
    }

    /// Follows the pointer with a marquee over velocity bars.
    pub fn update_velocity_select(&mut self, lx: i64, ly: i64, notes: &Vec<MidiNote>)
        requires
            old(self).valid(),
            on_surface(lx as int),
            on_surface(ly as int),
            crate::drag::notes_in_song(notes@),
        ensures
            velocity_select_moved(*old(self), *final(self), lx, ly, notes@),
            final(self).valid(),
    {
        let m = match &self.drag {
            PianoDrag::VelocitySelect(_, m) => *m,
            _ => {
                return ;
            },
        };
        let next = m.drag_to(lx, ly);
        if next.dragging {
            let (view_w, lane_h) = self.cc_view_size();
            let rect = next.rect(view_w, lane_h);
            let hits = velocity_select_hits(notes, self.channel_view, self.clip_axis(), lane_h, rect);
            assert(hits@ =~= bar_hits(*self, notes@, next));
            self.selection = apply_marquee_mode(&self.selection_before_marquee, &hits, m.mode);
        }
        match &mut self.drag {
            PianoDrag::VelocitySelect(_, slot) => {
                *slot = next;
            },
            _ => {},
        }
    }

    /// Follows the pointer with a marquee over controller points.
    pub fn update_cc_select(&mut self, lx: i64, ly: i64, points: &Vec<MidiControllerPoint>)
        requires
            old(self).valid(),
            on_surface(lx as int),
            on_surface(ly as int),
            crate::drag::points_in_song(points@),
        ensures
            cc_select_moved(*old(self), *final(self), lx, ly, points@),
            final(self).valid(),
    {
        let m = match &self.drag {
            PianoDrag::CcSelect(_, _, m) => *m,
            _ => {
                return ;
            },
        };
        let next = m.drag_to(lx, ly);
        if next.dragging {
            let (view_w, view_h) = self.cc_view_size();
            let rect = next.rect(view_w, view_h);
            let hits = self.cc_select_hits(points, rect);
            self.cc_selection = apply_marquee_mode(&self.cc_selection_before_marquee, &hits, m.mode);
        }
        match &mut self.drag {
            PianoDrag::CcSelect(_, _, slot) => {
                *slot = next;
            },
            _ => {},
        }
    }

    /// Lets go of everything that names a note or an articulation which the
    /// clip no longer has; of everything, when no clip is edited.
    #[verifier::rlimit(40)]
    pub fn prune_transient_state(&mut self, clip: Option<&ClipView>)
        requires
            old(self).valid(),
        ensures
            pruned(*old(self), *final(self), clip),
            final(self).valid(),
    {
        let c = match clip {
            None => {
                self.selection.clear();
                self.selection_before_marquee.clear();
                self.erase_preview_ids.clear();
                self.drag = PianoDrag::Idle;
                self.cc_edit_prev = None;
                self.cc_edit_target = None;
                self.cc_selection_before_marquee.clear();
                self.art_edit_prev = None;
                self.selected_articulation = None;
                self.open_note_menu = None;
                self.hover_beat = None;
                self.hover_pitch = None;
                self.hover_note_status = None;
                self.drag_value_status = None;
                self.fitted_clip_id = None;
                return ;
            },
            Some(c) => c,
        };
        let ids = note_ids(&c.notes);
        self.selection.retain_in(&ids);
        if self.selection.is_empty() {
            self.open_note_menu = None;
        }
        self.selection_before_marquee.retain_in(&ids);
        self.erase_preview_ids.retain_in(&ids);
        match self.selected_articulation {
            Some(id) => {
                if !has_event(&c.articulations, id) {
                    self.selected_articulation = None;
                }
            },
            None => {},
        }
        self.drag.prune(&ids);
    }

    /// Gives up the gesture in progress. Live changes are put back, and no
    /// undoable edit is made.
    pub fn cancel_active_gesture(&mut self, clip: Option<&ClipView>, target: Option<PreviewTarget>) -> (o: Outcome)
        requires
            old(self).valid(),
            clip_valid(clip),
        ensures
            cancelled(*old(self), *final(self)),
            o.said() == silence(*old(self), target),
            o.asks() == undo_of(*old(self), clip),
            final(self).valid(),
    {
        let preview = self.preview.preview_all_notes_off(target);
        let mut drag = PianoDrag::Idle;
        std::mem::swap(&mut drag, &mut self.drag);
        let edit = match drag {
            PianoDrag::MarqueeSelect(_) => {
                self.selection = self.selection_before_marquee.copy();
                self.selection_before_marquee.clear();
                return Outcome { preview, edit: None };
            },
            PianoDrag::VelocitySelect(_, _) => {
                self.selection = self.selection_before_marquee.copy();
                self.selection_before_marquee.clear();
                return Outcome { preview, edit: None };
            },
            PianoDrag::CcSelect(_, _, _) => {
                self.cc_selection = self.cc_selection_before_marquee.copy();
                self.cc_selection_before_marquee.clear();
                return Outcome { preview, edit: None };
            },
            PianoDrag::Idle => {
                return Outcome { preview, edit: None };
            },
            PianoDrag::Velocity(d) => Some(RollEdit::RestoreVelocities { clip_id: d.clip_id, snapshot: d.prev }),
            PianoDrag::VelocityPaint(d) => Some(
                RollEdit::RestoreVelocities {
                    clip_id: d.clip_id,
                    snapshot: snapshot_velocities(&d.original_notes),
                },
            ),
            PianoDrag::VelocityLine(d) => Some(
                RollEdit::RestoreVelocities {
                    clip_id: d.clip_id,
                    snapshot: snapshot_velocities(&d.original_notes),
                },
            ),
            PianoDrag::CcPaint(_) | PianoDrag::CcMove(_) | PianoDrag::CcLine(_) => match (
                self.cc_edit_prev.take(),
                self.cc_edit_target.take(),
            ) {
                (Some(prev), Some(at)) => Some(RollEdit::LivePoints { clip_id: at.0, kind: at.1, points: prev }),
                _ => None,
            },
            PianoDrag::ArtMove(_) => match (self.art_edit_prev.take(), clip) {
                (Some(prev), Some(c)) => Some(RollEdit::LiveEvents { clip_id: c.id.clone(), events: prev }),
                _ => None,
            },
            _ => None,
        };
        self.erase_preview_ids.clear();
        self.cc_edit_prev = None;
        self.cc_edit_target = None;
        self.art_edit_prev = None;
        self.drag_value_status = None;
        Outcome { preview, edit }
    }
}

proof fn lemma_kept_notes_in_song(notes: Seq<MidiNote>, ids: Set<u64>)
    requires
        crate::drag::notes_in_song(notes),
    ensures
        crate::drag::notes_in_song(notes_in(notes, ids)),
{
    let p = |n: MidiNote| ids.contains(n.id);
    notes.lemma_filter_len(p);
    assert forall|i: int| 0 <= i < notes_in(notes, ids).len() implies crate::drag::note_in_song(
        #[trigger] notes_in(notes, ids)[i],
    ) by {
        notes.lemma_filter_contains_rev(p, notes_in(notes, ids)[i]);
    }
}

} // verus!
