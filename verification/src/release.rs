//! The button comes up: what each gesture leaves behind.

use crate::articulation::same_events;
use crate::cc_points::{copy_points, same_points};
use crate::drag::{DrawDrag, EraseDrag, MoveDrag, PianoDrag, ResizeDrag, VelocityDrag};
use crate::fixed::{magnitude, ID_LIMIT, MIN_NOTE_TICKS, POSITION_LIMIT, TICKS_PER_BEAT};
use crate::gesture::{marquee_committed, silence, undo_of};
use crate::grid::GridRes;
use crate::id_set::IdSet;
use crate::marquee::{Marquee, MarqueeSelectionMode};
use crate::midi::{notes_in, snapshot_notes, MidiControllerPoint, MidiNote};
use crate::motion::Around;
use crate::note_edits::{
    any_place_differs, clone_notes, cloned_to, drawn, drawn_note, new_ids, places_differ, resize_targets, resized,
    CurveUse, NewNote, NotePlace, NoteShift, TIME_TOLERANCE,
};
use crate::preview::{messages, PreviewMessage, PreviewState, PreviewTarget, UiMidiPreviewCommand};
use crate::roll::{clip_valid, ClipView, PianoRoll};
use crate::roll_edit::{asked, push_note_edit, EditView, Outcome, RollEdit};
use crate::velocity::{restore_velocity_values, restored, velocity_snapshot};
use vstd::prelude::*;

verus! {

/// The note sounding for a gesture has ended.
pub open spec fn ended(pre: PianoRoll) -> PianoRoll {
    PianoRoll { preview: PreviewState { active: None, ..pre.preview }, ..pre }
}

/// Messages that end the note of a gesture and then silence the track.
pub open spec fn end_and_silence(pre: PianoRoll, target: Option<PreviewTarget>) -> Seq<PreviewMessage> {
    pre.preview.end_messages() + silence(ended(pre), target)
}

/// Notes land on the grid.
pub open spec fn on_grid(roll: PianoRoll, unsnap: bool) -> bool {
    roll.snap_on && roll.grid_res != GridRes::Free && !unsnap
}

/// The note that a draw gesture makes.
pub open spec fn drawn_by(roll: PianoRoll, d: DrawDrag, id: u64) -> NewNote {
    NewNote {
        note: drawn(
            id,
            d.pitch,
            d.start_beat as int,
            d.end_beat as int,
            roll.step(),
            on_grid(roll, d.unsnap),
            d.channel,
        ),
        curve: CurveUse::Nothing,
    }
}

/// Where a move gesture takes its notes.
pub open spec fn move_targets(roll: PianoRoll, d: MoveDrag) -> Seq<NotePlace> {
    d.prev@.map_values(|p: NotePlace| roll.shift_of(d).target(roll.pitch_map@, p))
}

/// A move gesture that went nowhere, or back to where it began.
pub open spec fn move_is_still(roll: PianoRoll, d: MoveDrag) -> bool {
    (magnitude(d.dx_beats as int) < TIME_TOLERANCE && d.dpitch == 0) || !places_differ(move_targets(roll, d), d.prev@)
}

/// The change that a finished move gesture makes.
pub open spec fn move_commit(roll: PianoRoll, d: MoveDrag, clip: ClipView, next_id: u64) -> Option<EditView> {
    if move_is_still(roll, d) {
        None
    } else if d.clone_on_commit {
        let notes = cloned_to(clip.notes@, move_targets(roll, d), next_id);
        if notes.len() == 0 {
            None
        } else {
            Some(EditView::CreateNotes(clip.id@, notes))
        }
    } else {
        Some(EditView::MoveNotes(clip.id@, move_targets(roll, d)))
    }
}

/// The change that a finished resize gesture makes: the same difference for
/// every note.
pub open spec fn resize_commit(d: ResizeDrag, clip: ClipView) -> Option<EditView> {
    if magnitude(d.new_dur - d.prev_dur) < TIME_TOLERANCE {
        None
    } else {
        Some(
            EditView::ResizeNotes(
                clip.id@,
                d.prev_durs@.map_values(|p: (u64, i64)| (p.0, resized(p.1 as int, d.delta_dur as int) as i64)),
            ),
        )
    }
}

/// Notes named by a list of velocities.
pub open spec fn ids_in(list: Seq<(u64, u8)>) -> Set<u64> {
    Set::new(|id: u64| exists|i: int| 0 <= i < list.len() && (#[trigger] list[i]).0 == id)
}

/// One record of notes before and after; none where nothing differs.
pub open spec fn recorded(clip: Seq<char>, prev: Seq<MidiNote>, next: Seq<MidiNote>) -> Option<EditView> {
    if prev == next {
        None
    } else {
        Some(EditView::RecordNotes(clip, prev, next))
    }
}

/// The record of a finished velocity drag.
pub open spec fn velocity_commit(d: VelocityDrag, own_notes: Seq<MidiNote>) -> Option<EditView> {
    let next = notes_in(own_notes, ids_in(d.prev@));
    recorded(d.clip_id@, next.map_values(|n: MidiNote| restored(n, d.prev@)), next)
}

/// The record of a finished velocity paint or ramp.
pub open spec fn touched_commit(clip: Seq<char>, original: Seq<MidiNote>, ids: Set<u64>, own_notes: Seq<MidiNote>) -> Option<
    EditView,
> {
    recorded(clip, notes_in(original, ids), notes_in(own_notes, ids))
}

/// The record of a finished controller gesture.
pub open spec fn points_commit(roll: PianoRoll, points: Seq<MidiControllerPoint>) -> Option<EditView> {
    match (roll.cc_edit_prev, roll.cc_edit_target) {
        (Some(prev), Some(at)) => if prev@ == points {
            None
        } else {
            Some(EditView::RecordPoints(at.0@, at.1, prev@, points))
        },
        _ => None,
    }
}

/// The change of a finished articulation gesture.
pub open spec fn events_commit(roll: PianoRoll, clip: Option<&ClipView>) -> Option<EditView> {
    match (roll.art_edit_prev, clip) {
        (Some(prev), Some(c)) => if prev@ == c.articulations@ {
            None
        } else {
            Some(EditView::SetEvents(c.id@, prev@, c.articulations@))
        },
        _ => None,
    }
}

/// The notes that a finished erase gesture deletes.
pub open spec fn erased_notes(d: EraseDrag, clip: Option<&ClipView>) -> Seq<MidiNote> {
    match clip {
        Some(c) => notes_in(c.notes@, d.erased@),
        None => Seq::empty(),
    }
}

/// What the release asks of the timeline.
pub open spec fn release_asks(pre: PianoRoll, a: Around) -> Option<EditView> {
    if pre.preview.key_drag || pre.preview.key_pressed is Some {
        None
    } else {
        match pre.drag {
            PianoDrag::CcPaint(_) | PianoDrag::CcMove(_) | PianoDrag::CcLine(_) => points_commit(pre, a.own_points@),
            PianoDrag::ArtMove(_) => events_commit(pre, a.clip),
            PianoDrag::DrawNote(d) => match a.clip {
                Some(c) => Some(EditView::CreateNotes(c.id@, seq![drawn_by(pre, d, a.next_id)])),
                None => None,
            },
            PianoDrag::EraseNotes(d) => if erased_notes(d, a.clip).len() == 0 {
                None
            } else {
                Some(EditView::DeleteNotes(a.clip->0.id@, erased_notes(d, a.clip)))
            },
            PianoDrag::Move(d) => match a.clip {
                Some(c) => move_commit(pre, d, *c, a.next_id),
                None => None,
            },
            PianoDrag::Resize(d) => match a.clip {
                Some(c) => resize_commit(d, *c),
                None => None,
            },
            PianoDrag::Velocity(d) => if a.clip is Some {
                velocity_commit(d, a.own_notes@)
            } else {
                None
            },
            PianoDrag::VelocityPaint(d) => if a.clip is Some {
                touched_commit(d.clip_id@, d.original_notes@, d.touched@, a.own_notes@)
            } else {
                None
            },
            PianoDrag::VelocityLine(d) => if a.clip is Some {
                touched_commit(d.clip_id@, d.original_notes@, d.affected@, a.own_notes@)
            } else {
                None
            },
            _ => None,
        }
    }
}

/// What the release says to the instrument. Before notes are deleted the track
/// is silenced.
pub open spec fn release_says(pre: PianoRoll, a: Around, target: Option<PreviewTarget>) -> Seq<PreviewMessage> {
    match pre.drag {
        PianoDrag::EraseNotes(d) => if !pre.preview.key_drag && pre.preview.key_pressed is None && erased_notes(
            d,
            a.clip,
        ).len() > 0 {
            end_and_silence(pre, target)
        } else {
            pre.preview.end_messages()
        },
        _ => pre.preview.end_messages(),
    }
}

/// The notes of a created edit are selected.
pub open spec fn selects_new(roll: PianoRoll, notes: Seq<NewNote>) -> bool {
    forall|id: u64| #[trigger]
        roll.selection@.contains(id) <==> exists|i: int| 0 <= i < notes.len() && (#[trigger] notes[i]).note.id == id
}

/// A marquee gesture over `before` has ended.
pub open spec fn marquee_result(m: Marquee, selected: Set<u64>) -> Set<u64> {
    if !m.dragging && m.mode == MarqueeSelectionMode::Replace {
        Set::empty()
    } else {
        selected
    }
}

/// The roll after the button came up.
pub open spec fn released(pre: PianoRoll, post: PianoRoll, a: Around) -> bool {
    let mid = ended(pre);
    let idle = PianoRoll { drag: PianoDrag::Idle, drag_value_status: None, ..mid };
    if pre.preview.key_drag || pre.preview.key_pressed is Some {
        post == (PianoRoll { preview: PreviewState { key_drag: false, key_pressed: None, ..mid.preview }, ..mid })
    } else {
        match pre.drag {
            PianoDrag::CcSelect(_, _, m) => {
                &&& post.cc_selection@ == marquee_result(m, pre.cc_selection@)
                &&& post.cc_selection_before_marquee@ == Set::<u64>::empty()
                &&& post == (PianoRoll {
                    drag: PianoDrag::Idle,
                    cc_selection: post.cc_selection,
                    cc_selection_before_marquee: post.cc_selection_before_marquee,
                    ..mid
                })
            },
            PianoDrag::CcPaint(_) | PianoDrag::CcMove(_) | PianoDrag::CcLine(_) => post == (PianoRoll {
                cc_edit_prev: None,
                cc_edit_target: None,
                ..idle
            }),
            PianoDrag::ArtMove(_) => post == (PianoRoll { art_edit_prev: None, ..idle }),
            PianoDrag::MarqueeSelect(_) => marquee_committed(mid, post),
            PianoDrag::VelocitySelect(_, m) => {
                &&& post.selection@ == marquee_result(m, pre.selection@)
                &&& post.selection_before_marquee@ == Set::<u64>::empty()
                &&& post == (PianoRoll {
                    drag: PianoDrag::Idle,
                    selection: post.selection,
                    selection_before_marquee: post.selection_before_marquee,
                    ..mid
                })
            },
            PianoDrag::Pan(_, _) => post == (PianoRoll { drag: PianoDrag::Idle, ..mid }),
            PianoDrag::DrawNote(d) => {
                &&& a.clip is Some ==> post.selection@ == set![a.next_id]
                &&& a.clip is None ==> post.selection == pre.selection
                &&& post == (PianoRoll { selection: post.selection, ..idle })
            },
            PianoDrag::EraseNotes(d) => {
                &&& post.erase_preview_ids@ == Set::<u64>::empty()
                &&& if erased_notes(d, a.clip).len() == 0 {
                    post == (PianoRoll { erase_preview_ids: post.erase_preview_ids, ..idle })
                } else {
                    &&& post.selection@ == pre.selection@.difference(d.erased@)
                    &&& post == (PianoRoll {
                        erase_preview_ids: post.erase_preview_ids,
                        selection: post.selection,
                        ..idle
                    })
                }
            },
            PianoDrag::Move(d) => {
                &&& match release_asks(pre, a) {
                    Some(EditView::CreateNotes(_, notes)) => selects_new(post, notes),
                    _ => post.selection == pre.selection,
                }
                &&& post == (PianoRoll { selection: post.selection, ..idle })
            },
            _ => post == idle,
        }
    }
}

/// Whatever was held, a release leaves no gesture, no sound and no key.
pub proof fn law_release_ends_the_gesture(pre: PianoRoll, post: PianoRoll, a: Around)
    requires
        released(pre, post, a),
    ensures
        post.preview.active is None,
        !(pre.preview.key_drag || pre.preview.key_pressed is Some) ==> post.drag is Idle,
        pre.preview.key_drag || pre.preview.key_pressed is Some ==> !post.preview.key_drag && post.preview.key_pressed
            is None && post.drag == pre.drag,
{
}

/// A gesture that changed nothing leaves no undo entry.
pub proof fn law_unchanged_gestures_record_nothing(pre: PianoRoll, a: Around)
    ensures
        pre.drag matches PianoDrag::Move(d) ==> (d.dx_beats == 0 && d.dpitch == 0 ==> release_asks(pre, a) is None),
        pre.drag matches PianoDrag::Resize(d) ==> (d.new_dur == d.prev_dur ==> release_asks(pre, a) is None),
        (pre.drag is CcPaint || pre.drag is CcMove || pre.drag is CcLine) && pre.cc_edit_prev is Some
            && pre.cc_edit_prev->0@ == a.own_points@ ==> release_asks(pre, a) is None,
        pre.drag is ArtMove && pre.art_edit_prev is Some && a.clip is Some && pre.art_edit_prev->0@
            == a.clip->0.articulations@ ==> release_asks(pre, a) is None,
{
}

/// A gesture on controller points or velocities ends where it began: its record,
/// and what puts things back when it is given up, name the clip and the controller
/// of the press, whatever is edited by then, and start from what was there.
pub proof fn law_gestures_end_where_they_began(pre: PianoRoll, a: Around)
    ensures
        pre.drag is CcPaint || pre.drag is CcMove || pre.drag is CcLine ==> match release_asks(pre, a) {
            None => true,
            Some(EditView::RecordPoints(clip, kind, prev, _)) => {
                &&& pre.cc_edit_target matches Some(at) && clip == at.0@ && kind == at.1
                &&& pre.cc_edit_prev matches Some(there) && prev == there@
                &&& undo_of(pre, a.clip) == Some(EditView::LivePoints(clip, kind, prev))
            },
            _ => false,
        },
        pre.drag matches PianoDrag::Velocity(d) ==> match release_asks(pre, a) {
            None => true,
            Some(EditView::RecordNotes(clip, _, _)) => clip == d.clip_id@ && undo_of(pre, a.clip) == Some(
                EditView::RestoreVelocities(clip, d.prev@),
            ),
            _ => false,
        },
        pre.drag matches PianoDrag::VelocityPaint(d) ==> match release_asks(pre, a) {
            None => true,
            Some(EditView::RecordNotes(clip, _, _)) => clip == d.clip_id@ && undo_of(pre, a.clip) == Some(
                EditView::RestoreVelocities(clip, velocity_snapshot(d.original_notes@)),
            ),
            _ => false,
        },
        pre.drag matches PianoDrag::VelocityLine(d) ==> match release_asks(pre, a) {
            None => true,
            Some(EditView::RecordNotes(clip, _, _)) => clip == d.clip_id@ && undo_of(pre, a.clip) == Some(
                EditView::RestoreVelocities(clip, velocity_snapshot(d.original_notes@)),
            ),
            _ => false,
        },
{
}

proof fn lemma_release_ignores_sound(pre: PianoRoll, a: Around)
    ensures
        release_asks(ended(pre), a) == release_asks(pre, a),
{
    if let PianoDrag::Move(d) = pre.drag {
        assert(ended(pre).shift_of(d) == pre.shift_of(d));
        assert(move_targets(ended(pre), d) =~= move_targets(pre, d));
    }
}

proof fn lemma_released_after_sound(pre: PianoRoll, post: PianoRoll, a: Around)
    requires
        released(ended(pre), post, a),
    ensures
        released(pre, post, a),
{
    lemma_release_ignores_sound(pre, a);
    assert(ended(ended(pre)) == ended(pre));
}

proof fn lemma_messages_join(a: Seq<UiMidiPreviewCommand>, b: Seq<UiMidiPreviewCommand>)
    ensures
        messages(a + b) == messages(a) + messages(b),
{
    assert(messages(a + b) =~= messages(a) + messages(b));
}

fn ids_of_pairs(list: &Vec<(u64, u8)>) -> (s: IdSet)
    ensures
        s@ == ids_in(list@),
{
    let mut s = IdSet::new();
    let mut i: usize = 0;
    while i < list.len()
        invariant
            i <= list@.len(),
            forall|id: u64| #[trigger]
                s@.contains(id) <==> exists|k: int| 0 <= k < i && (#[trigger] list@[k]).0 == id,
        decreases list@.len() - i,
    {
        s.insert(list[i].0);
        i = i + 1;
    }
    assert(s@ =~= ids_in(list@));
    s
}

impl PianoRoll {
    /// Creates the drawn note and selects it.
    fn commit_draw_note(&mut self, d: DrawDrag, a: &Around) -> (edit: Option<RollEdit>)
        requires
            old(self).valid(),
            PianoDrag::DrawNote(d).valid(),
            a.valid(),
        ensures
            asked(edit) == (match a.clip {
                Some(c) => Some(EditView::CreateNotes(c.id@, seq![drawn_by(*old(self), d, a.next_id)])),
                None => None,
            }),
            a.clip is Some ==> final(self).selection@ == set![a.next_id],
            a.clip is None ==> final(self).selection == old(self).selection,
            *final(self) == (PianoRoll { selection: final(self).selection, ..*old(self) }),
    {
        let c = match a.clip {
            Some(c) => c,
            None => {
                return None;
            },
        };
        let grid = self.snap_on && !self.grid_res.is_free() && !d.unsnap;
        let note = drawn_note(a.next_id, d.pitch, d.start_beat, d.end_beat, self.step_beats(), grid, d.channel);
        let mut notes: Vec<NewNote> = Vec::new();
        notes.push(NewNote { note, curve: CurveUse::Nothing });
        assert(notes@ =~= seq![drawn_by(*self, d, a.next_id)]);
        self.selection = IdSet::single(a.next_id);
        Some(RollEdit::CreateNotes { clip_id: c.id.clone(), notes })
    }

    /// Deletes the marked notes.
    fn commit_erase_notes(&mut self, d: EraseDrag, clip: Option<&ClipView>, target: Option<PreviewTarget>) -> (o: Outcome)
        requires
            old(self).valid(),
            clip_valid(clip),
        ensures
            final(self).erase_preview_ids@ == Set::<u64>::empty(),
            erased_notes(d, clip).len() == 0 ==> o.silent() && *final(self) == (PianoRoll {
                erase_preview_ids: final(self).erase_preview_ids,
                ..*old(self)
            }),
            erased_notes(d, clip).len() > 0 ==> {
                &&& o.said() == silence(*old(self), target)
                &&& o.asks() == Some(EditView::DeleteNotes(clip->0.id@, erased_notes(d, clip)))
                &&& final(self).selection@ == old(self).selection@.difference(d.erased@)
                &&& *final(self) == (PianoRoll {
                    erase_preview_ids: final(self).erase_preview_ids,
                    selection: final(self).selection,
                    preview: PreviewState { active: None, key_pressed: None, key_drag: false, ..old(self).preview },
                    ..*old(self)
                })
            },
    {
        self.erase_preview_ids.clear();
        let c = match clip {
            Some(c) => c,
            None => {
                return Outcome::nothing();
            },
        };
        let notes = snapshot_notes(&c.notes, &d.erased);
        if notes.len() == 0 {
            return Outcome::nothing();
        }
        let preview = self.preview.preview_all_notes_off(target);
        self.selection = self.selection.difference(&d.erased);
        Outcome { preview, edit: Some(RollEdit::DeleteNotes { clip_id: c.id.clone(), notes }) }
    }

    /// Moves the notes, or creates copies of them and selects these.
    fn commit_move(&mut self, d: MoveDrag, c: &ClipView, next_id: u64) -> (edit: Option<RollEdit>)
        requires
            old(self).valid(),
            PianoDrag::Move(d).valid(),
            c.valid(),
            next_id <= ID_LIMIT,
        ensures
            asked(edit) == move_commit(*old(self), d, *c, next_id),
            match asked(edit) {
                Some(EditView::CreateNotes(_, notes)) => selects_new(*final(self), notes),
                _ => final(self).selection == old(self).selection,
            },
            *final(self) == (PianoRoll { selection: final(self).selection, ..*old(self) }),
    {
        if d.dx_beats < TIME_TOLERANCE && d.dx_beats > -TIME_TOLERANCE && d.dpitch == 0 {
            return None;
        }
        let shift = NoteShift {
            anchor_start: d.anchor_start,
            dx_beats: d.dx_beats,
            dpitch: d.dpitch,
            snap_step: self.live_snap_step(d.unsnap),
        };
        let targets = shift.targets(&self.pitch_map, &d.prev);
        assert(targets@ =~= move_targets(*self, d));
        if !any_place_differs(&targets, &d.prev) {
            return None;
        }
        if d.clone_on_commit {
            let notes = clone_notes(&c.notes, &targets, next_id);
            if notes.len() == 0 {
                return None;
            }
            self.selection = new_ids(&notes);
            return Some(RollEdit::CreateNotes { clip_id: c.id.clone(), notes });
        }
        Some(RollEdit::MoveNotes { clip_id: c.id.clone(), targets })
    }

    /// Records a finished controller gesture; nothing where the points are as
    /// before.
    pub fn commit_cc_edit(&mut self, points: &Vec<MidiControllerPoint>) -> (edit: Option<RollEdit>)
        ensures
            asked(edit) == points_commit(*old(self), points@),
            *final(self) == (PianoRoll { cc_edit_prev: None, cc_edit_target: None, ..*old(self) }),
    {
        let prev = self.cc_edit_prev.take();
        let at = self.cc_edit_target.take();
        match (prev, at) {
            (Some(prev), Some(at)) => {
                if same_points(&prev, points) {
                    None
                } else {
                    Some(RollEdit::RecordPoints { clip_id: at.0, kind: at.1, prev, next: copy_points(points) })
                }
            },
            _ => None,
        }
    }

    /// Records a finished articulation gesture; nothing where the events are as
    /// before.
    pub fn commit_articulation_edit(&mut self, clip: Option<&ClipView>) -> (edit: Option<RollEdit>)
        ensures
            asked(edit) == events_commit(*old(self), clip),
            *final(self) == (PianoRoll { art_edit_prev: None, ..*old(self) }),
    {
        let prev = self.art_edit_prev.take();
        match (prev, clip) {
            (Some(prev), Some(c)) => {
                if same_events(&prev, &c.articulations) {
                    None
                } else {
                    Some(
                        RollEdit::SetEvents {
                            clip_id: c.id.clone(),
                            prev,
                            next: crate::articulation::copy_events(&c.articulations),
                        },
                    )
                }
            },
            _ => None,
        }
    }

    /// Makes the change of a gesture that is not a marquee or a pan. Nothing
    /// sounds any more at this point.
    #[verifier::rlimit(60)]
    fn commit_drag(&mut self, drag: PianoDrag, a: &Around, target: Option<PreviewTarget>) -> (o: Outcome)
        requires
            old(self).valid(),
            drag.valid(),
            a.valid(),
            old(self).drag is Idle,
            old(self).preview.active is None,
            !old(self).preview.key_drag,
            old(self).preview.key_pressed is None,
            !(drag is CcSelect || drag is VelocitySelect || drag is MarqueeSelect || drag is Pan),
        ensures
            released(PianoRoll { drag, ..*old(self) }, *final(self), *a),
            o.said() == release_says(PianoRoll { drag, ..*old(self) }, *a, target),
            o.asks() == release_asks(PianoRoll { drag, ..*old(self) }, *a),
            final(self).valid(),
    {
        self.drag_value_status = None;
        let edit = match drag {
            PianoDrag::CcPaint(_) | PianoDrag::CcMove(_) | PianoDrag::CcLine(_) => self.commit_cc_edit(a.own_points),
            PianoDrag::ArtMove(_) => self.commit_articulation_edit(a.clip),
            PianoDrag::DrawNote(d) => self.commit_draw_note(d, a),
            PianoDrag::EraseNotes(d) => {
                return self.commit_erase_notes(d, a.clip, target);
            },
            PianoDrag::Move(d) => match a.clip {
                Some(c) => self.commit_move(d, c, a.next_id),
                None => None,
            },
            PianoDrag::Resize(d) => match a.clip {
                Some(c) => commit_resize(d, c),
                None => None,
            },
            PianoDrag::Velocity(d) => match a.clip {
                Some(_) => commit_velocity(d, a.own_notes),
                None => None,
            },
            PianoDrag::VelocityPaint(d) => match a.clip {
                Some(_) => commit_touched(d.clip_id, &d.original_notes, &d.touched, a.own_notes),
                None => None,
            },
            PianoDrag::VelocityLine(d) => match a.clip {
                Some(_) => commit_touched(d.clip_id, &d.original_notes, &d.affected, a.own_notes),
                None => None,
            },
            _ => None,
        };
        Outcome::of_edit(edit)
    }

    /// Ends the gesture in progress and makes its change.
    #[verifier::rlimit(60)]
    pub fn on_up(&mut self, a: &Around, target: Option<PreviewTarget>) -> (o: Outcome)
        requires
            old(self).valid(),
            a.valid(),
        ensures
            released(*old(self), *final(self), *a),
            o.said() == release_says(*old(self), *a, target),
            o.asks() == release_asks(*old(self), *a),
            final(self).valid(),
    {
        let ghost pre = *self;
        let mut preview = self.preview.end_preview_note();
        if self.preview.key_drag || self.preview.key_pressed.is_some() {
            self.preview.key_drag = false;
            self.preview.key_pressed = None;
            return Outcome { preview, edit: None };
        }
        let marquee = match &self.drag {
            PianoDrag::MarqueeSelect(_) => true,
            _ => false,
        };
        if marquee {
            self.commit_marquee_select();
            return Outcome { preview, edit: None };
        }
        let mut drag = PianoDrag::Idle;
        std::mem::swap(&mut drag, &mut self.drag);
        match drag {
            PianoDrag::CcSelect(_, _, m) => {
                if !m.dragging && m.mode == MarqueeSelectionMode::Replace {
                    self.cc_selection.clear();
                }
                self.cc_selection_before_marquee.clear();
                return Outcome { preview, edit: None };
            },
            PianoDrag::VelocitySelect(_, m) => {
                if !m.dragging && m.mode == MarqueeSelectionMode::Replace {
                    self.selection.clear();
                }
                self.selection_before_marquee.clear();
                return Outcome { preview, edit: None };
            },
            PianoDrag::Pan(_, _) => {
                return Outcome { preview, edit: None };
            },
            _ => {},
        }
        assert((PianoRoll { drag, ..*self }) == ended(pre));
        let mut o = self.commit_drag(drag, a, target);
        let ghost first = preview@;
        let ghost second = o.preview@;
        preview.append(&mut o.preview);
        proof {
            lemma_messages_join(first, second);
            assert(messages(first) + Seq::<PreviewMessage>::empty() =~= messages(first));
            lemma_release_ignores_sound(pre, *a);
            lemma_released_after_sound(pre, *self, *a);
            assert(ended(ended(pre)) == ended(pre));
            assert(ended(pre).preview.end_messages() == Seq::<PreviewMessage>::empty());
            assert(Seq::<PreviewMessage>::empty() + silence(ended(pre), target) =~= silence(ended(pre), target));
        }
        Outcome { preview, edit: o.edit }
    }
}

fn commit_resize(d: ResizeDrag, c: &ClipView) -> (edit: Option<RollEdit>)
    requires
        PianoDrag::Resize(d).valid(),
    ensures
        asked(edit) == resize_commit(d, *c),
{
    let change: i64 = d.new_dur - d.prev_dur;
    if change < TIME_TOLERANCE && change > -TIME_TOLERANCE {
        return None;
    }
    let targets = resize_targets(&d.prev_durs, d.delta_dur);
    assert(targets@ =~= d.prev_durs@.map_values(
        |p: (u64, i64)| (p.0, resized(p.1 as int, d.delta_dur as int) as i64),
    ));
    Some(RollEdit::ResizeNotes { clip_id: c.id.clone(), targets })
}

fn commit_velocity(d: VelocityDrag, own_notes: &Vec<MidiNote>) -> (edit: Option<RollEdit>)
    ensures
        asked(edit) == velocity_commit(d, own_notes@),
{
    let ids = ids_of_pairs(&d.prev);
    let next = snapshot_notes(own_notes, &ids);
    let mut prev = crate::midi::copy_notes(&next);
    restore_velocity_values(&mut prev, &d.prev);
    push_note_edit(d.clip_id, prev, next)
}

fn commit_touched(clip_id: String, original: &Vec<MidiNote>, ids: &IdSet, own_notes: &Vec<MidiNote>) -> (edit: Option<
    RollEdit,
>)
    ensures
        asked(edit) == touched_commit(clip_id@, original@, ids@, own_notes@),
{
    let prev = snapshot_notes(original, ids);
    let next = snapshot_notes(own_notes, ids);
    push_note_edit(clip_id, prev, next)
}

/// Letting go of a drawn note creates that note, and it alone: off the grid from
/// the earlier beat to the later one, on the grid rounded up to whole steps.
pub proof fn law_a_drawn_note_is_created(pre: PianoRoll, a: Around, d: DrawDrag, clip: &ClipView)
    requires
        pre.drag == PianoDrag::DrawNote(d),
        !pre.preview.key_drag && pre.preview.key_pressed is None,
        a.clip == Some(clip),
        0 <= d.start_beat <= d.end_beat <= POSITION_LIMIT,
        d.end_beat - d.start_beat >= MIN_NOTE_TICKS,
        d.pitch <= 127,
    ensures
        release_asks(pre, a) matches Some(EditView::CreateNotes(id, notes)) && {
            &&& id == clip.id@
            &&& notes.len() == 1
            &&& notes[0].note.id == a.next_id
            &&& notes[0].note.pitch == d.pitch
            &&& notes[0].note.channel == d.channel
            &&& notes[0].note.velocity == 100 && !notes[0].note.muted
            &&& notes[0].note.start == d.start_beat
            &&& (d.unsnap || !pre.snap_on || pre.grid_res == GridRes::Free) ==> notes[0].note.start
                + notes[0].note.duration == d.end_beat
            &&& !(d.unsnap || !pre.snap_on || pre.grid_res == GridRes::Free) && pre.step() >= MIN_NOTE_TICKS
                && pre.step() <= 4 * TICKS_PER_BEAT ==> d.end_beat <= notes[0].note.start + notes[0].note.duration
                && notes[0].note.duration as int % pre.step() == 0
        },
{
    crate::note_edits::law_drawn_note_is_plain(
        a.next_id,
        d.pitch,
        d.start_beat as int,
        d.end_beat as int,
        pre.step(),
        on_grid(pre, d.unsnap),
        d.channel,
    );
    if on_grid(pre, d.unsnap) {
        if MIN_NOTE_TICKS <= pre.step() <= 4 * TICKS_PER_BEAT {
            crate::note_edits::law_grid_draw_rounds_up_to_steps(
                a.next_id,
                d.pitch,
                d.start_beat as int,
                d.end_beat as int,
                pre.step(),
                d.channel,
            );
        }
    } else {
        crate::note_edits::law_free_draw_ends_at_the_pointer(
            a.next_id,
            d.pitch,
            d.start_beat as int,
            d.end_beat as int,
            pre.step(),
            d.channel,
        );
    }
}

/// Letting go of moved notes moves each of them by the drag, off the grid exactly;
/// while cloning, the notes stay and copies are made there.
pub proof fn law_moved_notes_are_moved(pre: PianoRoll, a: Around, d: MoveDrag, clip: &ClipView, i: int)
    requires
        pre.drag == PianoDrag::Move(d),
        !pre.preview.key_drag && pre.preview.key_pressed is None,
        a.clip == Some(clip),
        !move_is_still(pre, d),
        pre.shift_of(d).valid(),
        d.unsnap || !pre.snap_on || pre.grid_res == GridRes::Free,
        d.anchor_start + d.dx_beats >= 0,
        0 <= i < d.prev@.len(),
        0 <= d.prev@[i].start <= POSITION_LIMIT,
        d.prev@[i].start + d.dx_beats >= 0,
        0 <= d.prev@[i].pitch + d.dpitch <= 127,
    ensures
        ({
            let place = move_targets(pre, d)[i];
            &&& place.id == d.prev@[i].id
            &&& place.start == d.prev@[i].start + d.dx_beats
            &&& place.pitch == pre.pitch_map@[d.prev@[i].pitch + d.dpitch]
            &&& move_targets(pre, d).len() == d.prev@.len()
        }),
        !d.clone_on_commit ==> release_asks(pre, a) == Some(EditView::MoveNotes(clip.id@, move_targets(pre, d))),
        d.clone_on_commit ==> match release_asks(pre, a) {
            Some(EditView::CreateNotes(id, notes)) => id == clip.id@ && notes == cloned_to(
                clip.notes@,
                move_targets(pre, d),
                a.next_id,
            ),
            None => cloned_to(clip.notes@, move_targets(pre, d), a.next_id).len() == 0,
            _ => false,
        },
{
    crate::note_edits::law_free_move_follows_the_pointer(pre.shift_of(d), pre.pitch_map@, d.prev@[i]);
}

/// Letting go of a resized note gives every note of the drag the same change of
/// length, down to the shortest note.
pub proof fn law_resized_notes_change_alike(pre: PianoRoll, a: Around, d: ResizeDrag, clip: &ClipView, i: int)
    requires
        pre.drag == PianoDrag::Resize(d),
        !pre.preview.key_drag && pre.preview.key_pressed is None,
        a.clip == Some(clip),
        d.new_dur - d.prev_dur >= TIME_TOLERANCE || d.prev_dur - d.new_dur >= TIME_TOLERANCE,
        0 <= i < d.prev_durs@.len(),
        d.prev_durs@[i].1 + d.delta_dur <= i64::MAX,
    ensures
        release_asks(pre, a) matches Some(EditView::ResizeNotes(id, list)) && {
            &&& id == clip.id@
            &&& list.len() == d.prev_durs@.len()
            &&& list[i].0 == d.prev_durs@[i].0
            &&& d.prev_durs@[i].1 + d.delta_dur >= MIN_NOTE_TICKS ==> list[i].1 == d.prev_durs@[i].1 + d.delta_dur
            &&& d.prev_durs@[i].1 + d.delta_dur < MIN_NOTE_TICKS ==> list[i].1 == MIN_NOTE_TICKS
        },
{
}

/// Letting go of an erasing sweep deletes the marked notes of the clip and no
/// others.
pub proof fn law_erasing_deletes_what_was_marked(d: EraseDrag, clip: &ClipView, n: MidiNote)
    ensures
        erased_notes(d, Some(clip)).contains(n) <==> clip.notes@.contains(n) && d.erased@.contains(n.id),
{
    crate::midi::lemma_notes_in_contains(clip.notes@, d.erased@, n);
}

} // verus!
