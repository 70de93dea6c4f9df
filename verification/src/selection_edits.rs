//! Commands on the selected notes.

use crate::drag::notes_in_song;
use crate::fixed::{max_of, on_axis, BEAT_LIMIT, COUNT_LIMIT, ID_LIMIT, POSITION_LIMIT, SONG_LIMIT};
use crate::gesture::{silence, silenced};
use crate::grid::snapped;
use crate::id_set::IdSet;
use crate::midi::{find_note, note_with_id, notes_in, snapshot_notes, ArticulationId, MidiChannel, MidiNote};
use crate::note_edits::{
    can_split, clipboard_notes_at, clipped, copied, copy_notes_to_clipboard, duplicate_notes, duplicate_offset,
    earliest_start, mute_edit, mute_states, mute_target, new_ids, nudge_lengths, nudge_starts, nudge_velocities,
    nudged_lengths, nudged_starts, nudged_velocities, pasted, split_note, split_parts, transpose_changes,
    transpose_would_change, ClipboardPayload, NewNote, MIDI_CLIPBOARD_VERSION,
};
use crate::order::{sorted, stable_sort};
use crate::preview::{PreviewMessage, PreviewTarget};
use crate::roll::{clip_valid, lemma_snap_reach, ClipView, PianoRoll};
use crate::roll_edit::{asked, EditView, Outcome, RollEdit};
use crate::velocity_ops::{operation_velocity, velocity_operation_updates, VelocityOperation};
use crate::zoom::{lemma_song_extent, lemma_song_notes_valid};
use vstd::prelude::*;

verus! {

/// The selected notes of the edited clip.
pub open spec fn selected(roll: PianoRoll, clip: Option<&ClipView>) -> Seq<MidiNote> {
    match clip {
        Some(c) => notes_in(c.notes@, roll.selection@),
        None => Seq::empty(),
    }
}

/// An edit of the selected notes, where there are any.
pub open spec fn of_selected(roll: PianoRoll, clip: Option<&ClipView>, edit: spec_fn(Seq<char>, Seq<MidiNote>) -> EditView) -> Option<
    EditView,
> {
    if selected(roll, clip).len() == 0 {
        None
    } else {
        Some(edit(clip->0.id@, selected(roll, clip)))
    }
}

/// An edit of the selected ids, where there is a clip and a selection.
pub open spec fn of_selected_ids(roll: PianoRoll, clip: Option<&ClipView>, edit: spec_fn(Seq<char>, Seq<u64>) -> EditView) -> Option<
    EditView,
> {
    match clip {
        Some(c) => if roll.selection@ == Set::<u64>::empty() {
            None
        } else {
            Some(edit(c.id@, roll.selection.listed()))
        },
        None => None,
    }
}

/// The selection has been deleted, where the clip had any of it.
pub open spec fn selection_deleted(pre: PianoRoll, post: PianoRoll, clip: Option<&ClipView>) -> bool {
    if selected(pre, clip).len() == 0 {
        post == pre
    } else {
        &&& post.selection@ == Set::<u64>::empty()
        &&& silenced(pre, post)
        &&& post == (PianoRoll { selection: post.selection, preview: post.preview, ..pre })
    }
}

pub open spec fn delete_asks(pre: PianoRoll, clip: Option<&ClipView>) -> Option<EditView> {
    of_selected(pre, clip, |id: Seq<char>, notes: Seq<MidiNote>| EditView::DeleteNotes(id, notes))
}

/// A held note cannot keep sounding once its data is gone.
pub open spec fn delete_says(pre: PianoRoll, clip: Option<&ClipView>, target: Option<PreviewTarget>) -> Seq<
    PreviewMessage,
> {
    if selected(pre, clip).len() == 0 {
        Seq::empty()
    } else {
        silence(pre, target)
    }
}

/// Mixed selections are muted, and only all-muted ones unmuted.
pub open spec fn mute_asks(pre: PianoRoll, clip: Option<&ClipView>) -> Option<EditView> {
    of_selected(
        pre,
        clip,
        |id: Seq<char>, notes: Seq<MidiNote>| EditView::SetMuted(id, mute_states(notes), mute_target(notes)),
    )
}

/// The note of the clip with this id.
pub open spec fn clip_note(clip: Option<&ClipView>, id: u64) -> Option<MidiNote> {
    match clip {
        Some(c) => note_with_id(c.notes@, id),
        None => None,
    }
}

/// The beat where a note is cut: on the grid while snapping is on.
pub open spec fn cut_beat(roll: PianoRoll, beat: int) -> int {
    if roll.snap_on {
        snapped(beat, roll.snap_step(false))
    } else {
        beat
    }
}

/// The parts of a note, where a cut at this beat leaves two long enough.
pub open spec fn split_of(roll: PianoRoll, clip: Option<&ClipView>, id: u64, beat: int, next_id: u64) -> Option<
    (MidiNote, NewNote, NewNote),
> {
    match clip_note(clip, id) {
        Some(n) => if can_split(n, cut_beat(roll, beat)) {
            let parts = split_parts(n, cut_beat(roll, beat), next_id);
            Some((n, parts.0, parts.1))
        } else {
            None
        },
        None => None,
    }
}

/// One note has been deleted, where the clip has it.
pub open spec fn note_erased(pre: PianoRoll, post: PianoRoll, id: u64, clip: Option<&ClipView>) -> bool {
    if clip_note(clip, id) is Some {
        &&& silenced(pre, post)
        &&& post.selection@ == pre.selection@.remove(id)
        &&& post == (PianoRoll { selection: post.selection, preview: post.preview, ..pre })
    } else {
        post == pre
    }
}

pub open spec fn erase_says(pre: PianoRoll, id: u64, clip: Option<&ClipView>, target: Option<PreviewTarget>) -> Seq<
    PreviewMessage,
> {
    if clip_note(clip, id) is Some {
        silence(pre, target)
    } else {
        Seq::empty()
    }
}

pub open spec fn erase_asks(clip: Option<&ClipView>, id: u64) -> Option<EditView> {
    match clip_note(clip, id) {
        Some(n) => Some(EditView::DeleteNotes(clip->0.id@, seq![n])),
        None => None,
    }
}

pub open spec fn note_mute_asks(clip: Option<&ClipView>, id: u64) -> Option<EditView> {
    match clip_note(clip, id) {
        Some(n) => Some(EditView::SetMuted(clip->0.id@, seq![(id, n.muted)], !n.muted)),
        None => None,
    }
}

/// A note has been cut, and its parts are selected.
pub open spec fn note_split(
    pre: PianoRoll,
    post: PianoRoll,
    clip: Option<&ClipView>,
    id: u64,
    beat: int,
    next_id: u64,
) -> bool {
    if split_of(pre, clip, id, beat, next_id) is Some {
        &&& post.selection@ == set![next_id, (next_id + 1) as u64]
        &&& post == (PianoRoll { selection: post.selection, ..pre })
    } else {
        post == pre
    }
}

pub open spec fn split_asks(pre: PianoRoll, clip: Option<&ClipView>, id: u64, beat: int, next_id: u64) -> Option<EditView> {
    match split_of(pre, clip, id, beat, next_id) {
        Some(s) => Some(EditView::SplitNote(clip->0.id@, s.0, seq![s.1, s.2])),
        None => None,
    }
}

/// Transposing by nothing, or without a selection, is nothing.
pub open spec fn transpose_asks(pre: PianoRoll, clip: Option<&ClipView>, semitones: int) -> Option<EditView> {
    if semitones == 0 {
        None
    } else {
        of_selected_ids(pre, clip, |id: Seq<char>, ids: Seq<u64>| EditView::Transpose(id, ids, semitones))
    }
}

/// The clipboard after copying.
pub open spec fn copied_payload(r: Option<ClipboardPayload>, notes: Seq<MidiNote>) -> bool {
    if notes.len() == 0 {
        r is None
    } else {
        r matches Some(p) && p.version == MIDI_CLIPBOARD_VERSION && p.notes@ == notes.map_values(
            |n: MidiNote| clipped(n, earliest_start(notes)),
        )
    }
}

/// Beat of the playhead within the clip; the clip's start while the playhead is
/// outside it.
pub open spec fn playhead_in_clip(clip: ClipView, playhead: int) -> int {
    if clip.start <= playhead < clip.start + clip.duration {
        playhead - clip.start
    } else {
        0
    }
}

/// Beat where the playhead pastes.
pub open spec fn paste_beat(roll: PianoRoll, clip: ClipView, playhead: int) -> int {
    snapped(playhead_in_clip(clip, playhead), roll.snap_step(false))
}

/// Beat where the pointer pastes; the playhead's while the pointer was never
/// over the grid.
pub open spec fn mouse_paste_beat(roll: PianoRoll, clip: ClipView, playhead: int) -> int {
    match roll.hover_beat {
        Some(b) => snapped(max_of(b as int, 0), roll.snap_step(false)),
        None => paste_beat(roll, clip, playhead),
    }
}

/// The notes that a clipboard holds, at a beat.
pub open spec fn pasted_notes(payload: ClipboardPayload, anchor: int, next_id: u64) -> Seq<NewNote> {
    if payload.version != MIDI_CLIPBOARD_VERSION {
        Seq::empty()
    } else {
        Seq::new(payload.notes@.len(), |i: int| pasted(payload.notes@[i], anchor, (next_id + i) as u64))
    }
}

/// A clipboard whose times fit the song.
pub open spec fn payload_in_song(payload: ClipboardPayload) -> bool {
    &&& payload.notes@.len() <= COUNT_LIMIT
    &&& forall|i: int|
        0 <= i < payload.notes@.len() ==> 0 <= (#[trigger] payload.notes@[i]).rel_start <= SONG_LIMIT
}

/// Created notes, where there are any.
pub open spec fn creates(clip: ClipView, notes: Seq<NewNote>) -> Option<EditView> {
    if notes.len() == 0 {
        None
    } else {
        Some(EditView::CreateNotes(clip.id@, notes))
    }
}

/// The created notes are the selection.
pub open spec fn created_selected(pre: PianoRoll, post: PianoRoll, notes: Seq<NewNote>) -> bool {
    if notes.len() == 0 {
        post == pre
    } else {
        crate::release::selects_new(post, notes) && post == (PianoRoll { selection: post.selection, ..pre })
    }
}

/// The duplicates of the selection.
pub open spec fn duplicates(roll: PianoRoll, clip: Option<&ClipView>, free: bool, next_id: u64) -> Seq<NewNote> {
    let src = selected(roll, clip);
    let offset = duplicate_offset(src, roll.snap_step(free));
    Seq::new(src.len(), |i: int| copied(src[i], (next_id + i) as u64, src[i].pitch, src[i].start + offset))
}

/// An articulation that the instrument lacks is not given; clearing always is.
pub open spec fn articulation_asks(
    pre: PianoRoll,
    clip: Option<&ClipView>,
    articulation: Option<ArticulationId>,
    available: Seq<ArticulationId>,
) -> Option<EditView> {
    if articulation is Some && !available.contains(articulation->0) {
        None
    } else {
        of_selected_ids(pre, clip, |id: Seq<char>, ids: Seq<u64>| EditView::SetArticulation(id, ids, articulation))
    }
}

/// A list of changes, where there are any.
pub open spec fn unless_empty<T>(list: Seq<T>, edit: EditView) -> Option<EditView> {
    if list.len() == 0 {
        None
    } else {
        Some(edit)
    }
}

pub open spec fn clip_name(clip: Option<&ClipView>) -> Seq<char> {
    match clip {
        Some(c) => c.id@,
        None => Seq::empty(),
    }
}

/// Ids that quantizing covers: the selection, or every note.
pub open spec fn quantize_asks(pre: PianoRoll, clip: Option<&ClipView>) -> Option<EditView> {
    match clip {
        Some(c) => {
            let step = pre.quantize_res.spec_fixed_beats();
            if pre.selection@ != Set::<u64>::empty() {
                Some(EditView::Quantize(c.id@, pre.selection.listed(), step))
            } else if c.notes@.len() == 0 {
                None
            } else {
                Some(EditView::Quantize(c.id@, c.notes@.map_values(|n: MidiNote| n.id), step))
            }
        },
        None => None,
    }
}

/// The selected notes in the order of their starts.
pub open spec fn selected_in_order(roll: PianoRoll, clip: Option<&ClipView>) -> Seq<MidiNote> {
    sorted(selected(roll, clip))
}

/// Velocities that an operation gives to the selected notes.
pub open spec fn operation_values(operation: VelocityOperation, notes: Seq<MidiNote>) -> Seq<(u64, u8)> {
    Seq::new(notes.len(), |i: int| (notes[i].id, operation_velocity(operation, notes, i) as u8))
}

proof fn lemma_selected_in_song(notes: Seq<MidiNote>, ids: Set<u64>)
    requires
        notes_in_song(notes),
    ensures
        notes_in_song(notes_in(notes, ids)),
{
    let p = |n: MidiNote| ids.contains(n.id);
    notes.lemma_filter_len(p);
    assert forall|i: int| 0 <= i < notes_in(notes, ids).len() implies crate::drag::note_in_song(
        #[trigger] notes_in(notes, ids)[i],
    ) by {
        notes.lemma_filter_contains_rev(p, notes_in(notes, ids)[i]);
    }
}

fn ids_in_order(notes: &Vec<MidiNote>) -> (out: Vec<u64>)
    ensures
        out@ == notes@.map_values(|n: MidiNote| n.id),
{
    let mut out: Vec<u64> = Vec::new();
    let mut i: usize = 0;
    while i < notes.len()
        invariant
            i <= notes@.len(),
            out@.len() == i,
            forall|k: int| 0 <= k < i ==> #[trigger] out@[k] == notes@[k].id,
        decreases notes@.len() - i,
    {
        out.push(notes[i].id);
        i = i + 1;
    }
    assert(out@ =~= notes@.map_values(|n: MidiNote| n.id));
    out
}

/// `true` when the list holds the articulation.
pub fn lists_articulation(list: &Vec<ArticulationId>, a: ArticulationId) -> (r: bool)
    ensures
        r == list@.contains(a),
{
    let mut i: usize = 0;
    while i < list.len()
        invariant
            i <= list@.len(),
            forall|k: int| 0 <= k < i ==> #[trigger] list@[k] != a,
        decreases list@.len() - i,
    {
        if list[i] == a {
            return true;
        }
        i = i + 1;
    }
    false
}

impl PianoRoll {
    fn selected_notes(&self, clip: Option<&ClipView>) -> (notes: Vec<MidiNote>)
        requires
            clip_valid(clip),
        ensures
            notes@ == selected(*self, clip),
            notes_in_song(notes@),
    {
        match clip {
            Some(c) => {
                proof {
                    lemma_selected_in_song(c.notes@, self.selection@);
                }
                snapshot_notes(&c.notes, &self.selection)
            },
            None => Vec::new(),
        }
    }

    /// Clip and ids of the selection, where there are both.
    fn selected_target(&self, clip: Option<&ClipView>) -> (r: Option<(String, Vec<u64>)>)
        ensures
            match r {
                Some(t) => clip is Some && self.selection@ != Set::<u64>::empty() && t.0@ == clip->0.id@ && t.1@
                    == self.selection.listed(),
                None => clip is None || self.selection@ == Set::<u64>::empty(),
            },
    {
        match clip {
            Some(c) => {
                if self.selection.is_empty() {
                    None
                } else {
                    Some((c.id.clone(), self.selection.to_list()))
                }
            },
            None => None,
        }
    }

    /// Deletes the selected notes.
    pub fn delete_selection(&mut self, clip: Option<&ClipView>, target: Option<PreviewTarget>) -> (o: Outcome)
        requires
            old(self).valid(),
            clip_valid(clip),
        ensures
            selection_deleted(*old(self), *final(self), clip),
            o.said() == delete_says(*old(self), clip, target),
            o.asks() == delete_asks(*old(self), clip),
            final(self).valid(),
    {
        let notes = self.selected_notes(clip);
        let c = match clip {
            Some(c) => c,
            None => {
                return Outcome::nothing();
            },
        };
        if notes.len() == 0 {
            return Outcome::nothing();
        }
        let preview = self.preview.preview_all_notes_off(target);
        self.selection.clear();
        Outcome { preview, edit: Some(RollEdit::DeleteNotes { clip_id: c.id.clone(), notes }) }
    }

    /// Mutes the selected notes, or unmutes them when all are muted.
    pub fn toggle_mute_selection(&self, clip: Option<&ClipView>) -> (edit: Option<RollEdit>)
        requires
            clip_valid(clip),
        ensures
            asked(edit) == mute_asks(*self, clip),
    {
        let notes = self.selected_notes(clip);
        let c = match clip {
            Some(c) => c,
            None => {
                return None;
            },
        };
        match mute_edit(&notes) {
            Some(e) => Some(RollEdit::SetMuted { clip_id: c.id.clone(), prev: e.0, muted: e.1 }),
            None => None,
        }
    }

    /// Deletes one note.
    pub fn erase_note(&mut self, id: u64, clip: Option<&ClipView>, target: Option<PreviewTarget>) -> (o: Outcome)
        requires
            old(self).valid(),
        ensures
            note_erased(*old(self), *final(self), id, clip),
            o.said() == erase_says(*old(self), id, clip, target),
            o.asks() == erase_asks(clip, id),
            final(self).valid(),
    {
        let c = match clip {
            Some(c) => c,
            None => {
                return Outcome::nothing();
            },
        };
        match find_note(&c.notes, id) {
            Some(n) => {
                let preview = self.preview.preview_all_notes_off(target);
                self.selection.remove(id);
                let mut notes: Vec<MidiNote> = Vec::new();
                notes.push(n);
                assert(notes@ =~= seq![n]);
                Outcome { preview, edit: Some(RollEdit::DeleteNotes { clip_id: c.id.clone(), notes }) }
            },
            None => Outcome::nothing(),
        }
    }

    /// Mutes or unmutes one note.
    pub fn mute_note(&self, id: u64, clip: Option<&ClipView>) -> (edit: Option<RollEdit>)
        ensures
            asked(edit) == note_mute_asks(clip, id),
    {
        let c = match clip {
            Some(c) => c,
            None => {
                return None;
            },
        };
        match find_note(&c.notes, id) {
            Some(n) => {
                let mut prev: Vec<(u64, bool)> = Vec::new();
                prev.push((id, n.muted));
                assert(prev@ =~= seq![(id, n.muted)]);
                Some(RollEdit::SetMuted { clip_id: c.id.clone(), prev, muted: !n.muted })
            },
            None => None,
        }
    }

    /// Cuts a note in two at a beat and selects the parts; a cut that would
    /// leave a part too short is refused.
    pub fn split_note_at(&mut self, id: u64, beat: i64, clip: Option<&ClipView>, next_id: u64) -> (edit: Option<RollEdit>)
        requires
            old(self).valid(),
            clip_valid(clip),
            -SONG_LIMIT <= beat <= BEAT_LIMIT,
            next_id <= ID_LIMIT,
        ensures
            note_split(*old(self), *final(self), clip, id, beat as int, next_id),
            asked(edit) == split_asks(*old(self), clip, id, beat as int, next_id),
            final(self).valid(),
    {
        let c = match clip {
            Some(c) => c,
            None => {
                return None;
            },
        };
        let original = match find_note(&c.notes, id) {
            Some(n) => n,
            None => {
                return None;
            },
        };
        proof {
            let k = choose|k: int| 0 <= k < c.notes@.len() && c.notes@[k] == original;
            assert(crate::drag::note_in_song(c.notes@[k]));
            lemma_snap_reach(beat as int, self.snap_step(false));
        }
        let cut = if self.snap_on {
            self.snap_beats(beat)
        } else {
            beat
        };
        match split_note(original, cut, next_id) {
            Some(s) => {
                let mut parts: Vec<NewNote> = Vec::new();
                parts.push(s.0);
                parts.push(s.1);
                assert(parts@ =~= seq![s.0, s.1]);
                let mut ids = IdSet::single(next_id);
                ids.insert(next_id + 1);
                assert(ids@ =~= set![next_id, (next_id + 1) as u64]);
                self.selection = ids;
                Some(RollEdit::SplitNote { clip_id: c.id.clone(), original, parts })
            },
            None => None,
        }
    }

    /// Transposes the selected notes.
    pub fn transpose_selection(&self, semitones: i32, clip: Option<&ClipView>) -> (edit: Option<RollEdit>)
        ensures
            asked(edit) == transpose_asks(*self, clip, semitones as int),
    {
        if semitones == 0 {
            return None;
        }
        match self.selected_target(clip) {
            Some(t) => Some(RollEdit::Transpose { clip_id: t.0, ids: t.1, semitones }),
            None => None,
        }
    }

    /// Transposes the selected notes, where that changes a pitch.
    pub fn nudge_selected_pitch(&self, semitones: i32, clip: Option<&ClipView>) -> (edit: Option<RollEdit>)
        requires
            clip_valid(clip),
        ensures
            asked(edit) == (if transpose_changes(selected(*self, clip), semitones as int) {
                of_selected_ids(
                    *self,
                    clip,
                    |id: Seq<char>, ids: Seq<u64>| EditView::Transpose(id, ids, semitones as int),
                )
            } else {
                None
            }),
    {
        let notes = self.selected_notes(clip);
        if !transpose_would_change(&notes, semitones) {
            return None;
        }
        match self.selected_target(clip) {
            Some(t) => Some(RollEdit::Transpose { clip_id: t.0, ids: t.1, semitones }),
            None => None,
        }
    }

    /// The selected notes for the clipboard.
    pub fn copy_selection(&self, clip: Option<&ClipView>) -> (r: Option<ClipboardPayload>)
        requires
            clip_valid(clip),
        ensures
            copied_payload(r, selected(*self, clip)),
    {
        let notes = self.selected_notes(clip);
        proof {
            lemma_song_notes_valid(notes@);
        }
        copy_notes_to_clipboard(&notes)
    }

    /// Beat where the playhead pastes.
    pub fn playhead_paste_anchor(&self, clip: &ClipView, playhead: i64) -> (beat: i64)
        requires
            self.valid(),
            clip.valid(),
        ensures
            beat == paste_beat(*self, *clip, playhead as int),
            0 <= beat <= 2 * SONG_LIMIT,
    {
        let inside: i64 = if clip.start <= playhead && playhead < clip.start + clip.duration {
            playhead - clip.start
        } else {
            0
        };
        proof {
            lemma_snap_reach(inside as int, self.snap_step(false));
        }
        self.snap_beats(inside)
    }

    /// Creates the notes of a clipboard at a beat and selects them.
    pub fn paste_clipboard_anchored(&mut self, clip: &ClipView, anchor: i64, payload: &ClipboardPayload, next_id: u64) -> (edit:
        Option<RollEdit>)
        requires
            old(self).valid(),
            0 <= anchor <= POSITION_LIMIT,
            payload_in_song(*payload),
            next_id <= ID_LIMIT,
        ensures
            asked(edit) == creates(*clip, pasted_notes(*payload, anchor as int, next_id)),
            created_selected(*old(self), *final(self), pasted_notes(*payload, anchor as int, next_id)),
            final(self).valid(),
    {
        let notes = clipboard_notes_at(payload, anchor, next_id);
        assert(notes@ =~= pasted_notes(*payload, anchor as int, next_id));
        if notes.len() == 0 {
            return None;
        }
        self.selection = new_ids(&notes);
        Some(RollEdit::CreateNotes { clip_id: clip.id.clone(), notes })
    }

    /// Pastes at the playhead.
    pub fn paste_clipboard(&mut self, clip: Option<&ClipView>, playhead: i64, payload: &ClipboardPayload, next_id: u64) -> (edit:
        Option<RollEdit>)
        requires
            old(self).valid(),
            clip_valid(clip),
            payload_in_song(*payload),
            next_id <= ID_LIMIT,
        ensures
            match clip {
                Some(c) => {
                    let notes = pasted_notes(*payload, paste_beat(*old(self), *c, playhead as int), next_id);
                    asked(edit) == creates(*c, notes) && created_selected(*old(self), *final(self), notes)
                },
                None => edit is None && *final(self) == *old(self),
            },
            final(self).valid(),
    {
        match clip {
            Some(c) => {
                let anchor = self.playhead_paste_anchor(c, playhead);
                self.paste_clipboard_anchored(c, anchor, payload, next_id)
            },
            None => None,
        }
    }

    /// Pastes where the pointer was last over the grid.
    pub fn paste_clipboard_at_mouse(
        &mut self,
        clip: Option<&ClipView>,
        playhead: i64,
        payload: &ClipboardPayload,
        next_id: u64,
    ) -> (edit: Option<RollEdit>)
        requires
            old(self).valid(),
            clip_valid(clip),
            payload_in_song(*payload),
            next_id <= ID_LIMIT,
        ensures
            match clip {
                Some(c) => {
                    let notes = pasted_notes(*payload, mouse_paste_beat(*old(self), *c, playhead as int), next_id);
                    asked(edit) == creates(*c, notes) && created_selected(*old(self), *final(self), notes)
                },
                None => edit is None && *final(self) == *old(self),
            },
            final(self).valid(),
    {
        match clip {
            Some(c) => {
                let anchor = match self.hover_beat {
                    Some(b) => {
                        let at = if b > 0 {
                            b
                        } else {
                            0
                        };
                        proof {
                            lemma_snap_reach(at as int, self.snap_step(false));
                        }
                        self.snap_beats(at)
                    },
                    None => self.playhead_paste_anchor(c, playhead),
                };
                self.paste_clipboard_anchored(c, anchor, payload, next_id)
            },
            None => None,
        }
    }

    /// Copies the selected notes to right behind themselves and selects the
    /// copies.
    pub fn duplicate_selection(&mut self, free: bool, clip: Option<&ClipView>, next_id: u64) -> (edit: Option<RollEdit>)
        requires
            old(self).valid(),
            clip_valid(clip),
            next_id <= ID_LIMIT,
        ensures
            clip matches Some(c) ==> asked(edit) == creates(*c, duplicates(*old(self), clip, free, next_id)),
            clip is None ==> edit is None,
            created_selected(*old(self), *final(self), duplicates(*old(self), clip, free, next_id)),
            final(self).valid(),
    {
        let src = self.selected_notes(clip);
        let c = match clip {
            Some(c) => c,
            None => {
                assert(duplicates(*self, clip, free, next_id).len() == 0);
                return None;
            },
        };
        if src.len() == 0 {
            return None;
        }
        proof {
            lemma_song_notes_valid(src@);
            lemma_song_extent(src@);
        }
        let step = self.live_snap_step(free);
        let notes = duplicate_notes(&src, step, next_id);
        assert(notes@ =~= duplicates(*self, clip, free, next_id));
        self.selection = new_ids(&notes);
        Some(RollEdit::CreateNotes { clip_id: c.id.clone(), notes })
    }

    /// Gives the selected notes an articulation, or takes it away.
    pub fn set_selection_articulation(
        &self,
        articulation: Option<ArticulationId>,
        available: &Vec<ArticulationId>,
        clip: Option<&ClipView>,
    ) -> (edit: Option<RollEdit>)
        ensures
            asked(edit) == articulation_asks(*self, clip, articulation, available@),
    {
        match articulation {
            Some(a) => {
                if !lists_articulation(available, a) {
                    return None;
                }
            },
            None => {},
        }
        match self.selected_target(clip) {
            Some(t) => Some(RollEdit::SetArticulation { clip_id: t.0, ids: t.1, articulation }),
            None => None,
        }
    }

    /// Moves the selected notes in time.
    pub fn nudge_selected_start(&self, delta: i64, clip: Option<&ClipView>) -> (edit: Option<RollEdit>)
        requires
            clip_valid(clip),
            on_axis(delta as int),
        ensures
            asked(edit) == unless_empty(
                nudged_starts(selected(*self, clip), delta as int),
                EditView::MoveNotes(clip_name(clip), nudged_starts(selected(*self, clip), delta as int)),
            ),
    {
        let notes = self.selected_notes(clip);
        proof {
            lemma_song_notes_valid(notes@);
        }
        let targets = nudge_starts(&notes, delta);
        let c = match clip {
            Some(c) => c,
            None => {
                return None;
            },
        };
        if targets.len() == 0 {
            None
        } else {
            Some(RollEdit::MoveNotes { clip_id: c.id.clone(), targets })
        }
    }

    /// Lengthens or shortens the selected notes.
    pub fn nudge_selected_length(&self, delta: i64, clip: Option<&ClipView>) -> (edit: Option<RollEdit>)
        requires
            clip_valid(clip),
            on_axis(delta as int),
        ensures
            asked(edit) == unless_empty(
                nudged_lengths(selected(*self, clip), delta as int),
                EditView::SetLengths(clip_name(clip), nudged_lengths(selected(*self, clip), delta as int)),
            ),
    {
        let notes = self.selected_notes(clip);
        proof {
            lemma_song_notes_valid(notes@);
        }
        let targets = nudge_lengths(&notes, delta);
        let c = match clip {
            Some(c) => c,
            None => {
                return None;
            },
        };
        if targets.len() == 0 {
            None
        } else {
            Some(RollEdit::SetLengths { clip_id: c.id.clone(), targets })
        }
    }

    /// Makes the selected notes louder or softer.
    pub fn nudge_selected_velocity(&self, delta: i16, clip: Option<&ClipView>) -> (edit: Option<RollEdit>)
        requires
            clip_valid(clip),
            delta <= 32_000,
        ensures
            asked(edit) == unless_empty(
                nudged_velocities(selected(*self, clip), delta as int),
                EditView::SetVelocities(clip_name(clip), nudged_velocities(selected(*self, clip), delta as int)),
            ),
    {
        let notes = self.selected_notes(clip);
        let targets = nudge_velocities(&notes, delta);
        let c = match clip {
            Some(c) => c,
            None => {
                return None;
            },
        };
        if targets.len() == 0 {
            None
        } else {
            Some(RollEdit::SetVelocities { clip_id: c.id.clone(), targets })
        }
    }

    /// Quantizes the selected notes, or all of them.
    pub fn quantize_selection(&self, clip: Option<&ClipView>) -> (edit: Option<RollEdit>)
        ensures
            asked(edit) == quantize_asks(*self, clip),
    {
        let c = match clip {
            Some(c) => c,
            None => {
                return None;
            },
        };
        let step = self.quantize_res.fixed_beats();
        if !self.selection.is_empty() {
            return Some(RollEdit::Quantize { clip_id: c.id.clone(), ids: self.selection.to_list(), step });
        }
        if c.notes.len() == 0 {
            return None;
        }
        Some(RollEdit::Quantize { clip_id: c.id.clone(), ids: ids_in_order(&c.notes), step })
    }

    /// Moves the selected notes to the nearest pitches of the active scale,
    /// whether drags are held to it or not.
    pub fn snap_selection_to_scale(&self, clip: Option<&ClipView>) -> (edit: Option<RollEdit>)
        ensures
            asked(edit) == of_selected_ids(
                *self,
                clip,
                |id: Seq<char>, ids: Seq<u64>| EditView::SnapToScale(id, ids, self.pitch_ctx.scale),
            ),
    {
        match self.selected_target(clip) {
            Some(t) => Some(RollEdit::SnapToScale { clip_id: t.0, ids: t.1, scale: self.pitch_ctx.scale }),
            None => None,
        }
    }

    /// Puts the selected notes on a channel.
    pub fn set_selected_notes_channel(&self, channel: MidiChannel, clip: Option<&ClipView>) -> (edit: Option<RollEdit>)
        ensures
            asked(edit) == of_selected_ids(
                *self,
                clip,
                |id: Seq<char>, ids: Seq<u64>| EditView::SetChannel(id, ids, channel),
            ),
    {
        match self.selected_target(clip) {
            Some(t) => Some(RollEdit::SetChannel { clip_id: t.0, ids: t.1, channel }),
            None => None,
        }
    }

    /// Moves the selected notes to other channels.
    pub fn nudge_selected_channel(&self, delta: i32, clip: Option<&ClipView>) -> (edit: Option<RollEdit>)
        ensures
            asked(edit) == of_selected_ids(
                *self,
                clip,
                |id: Seq<char>, ids: Seq<u64>| EditView::NudgeChannel(id, ids, delta as int),
            ),
    {
        match self.selected_target(clip) {
            Some(t) => Some(RollEdit::NudgeChannel { clip_id: t.0, ids: t.1, delta }),
            None => None,
        }
    }

    /// Turns a track's output between one channel and a channel per note;
    /// nothing may keep sounding on the old one.
    pub fn toggle_track_output_per_note(
        &mut self,
        track: Option<(String, bool)>,
        target: Option<PreviewTarget>,
    ) -> (o: Outcome)
        requires
            old(self).valid(),
        ensures
            match track {
                Some(t) => {
                    &&& o.said() == silence(*old(self), target)
                    &&& o.asks() == Some(EditView::SetOutputPerNote(t.0@, !t.1))
                    &&& silenced(*old(self), *final(self))
                    &&& *final(self) == (PianoRoll { preview: final(self).preview, ..*old(self) })
                },
                None => o.silent() && *final(self) == *old(self),
            },
            final(self).valid(),
    {
        match track {
            Some(t) => {
                let preview = self.preview.preview_all_notes_off(target);
                Outcome { preview, edit: Some(RollEdit::SetOutputPerNote { track_id: t.0, per_note: !t.1 }) }
            },
            None => Outcome::nothing(),
        }
    }

    /// Applies a velocity operation to the selected notes and closes the menu.
    pub fn apply_velocity_operation(&mut self, operation: VelocityOperation, clip: Option<&ClipView>) -> (edit: Option<
        RollEdit,
    >)
        requires
            old(self).valid(),
            clip_valid(clip),
        ensures
            asked(edit) == unless_empty(
                selected(*old(self), clip),
                EditView::SetVelocities(
                    clip_name(clip),
                    operation_values(operation, selected_in_order(*old(self), clip)),
                ),
            ),
            *final(self) == (if selected(*old(self), clip).len() == 0 {
                *old(self)
            } else {
                PianoRoll { open_velocity_menu: None, ..*old(self) }
            }),
            final(self).valid(),
    {
        let found = self.selected_notes(clip);
        let c = match clip {
            Some(c) => c,
            None => {
                return None;
            },
        };
        if found.len() == 0 {
            return None;
        }
        let notes = stable_sort(&found);
        proof {
            crate::order::law_sorted_is_an_ordered_arrangement(found@);
        }
        let targets = velocity_operation_updates(&notes, operation);
        proof {
            assert forall|i: int| 0 <= i < notes@.len() implies 0 <= (#[trigger] operation_velocity(
                operation,
                notes@,
                i,
            )) <= 255 by {
                if operation != VelocityOperation::Reverse {
                    crate::velocity_ops::law_operations_stay_in_range(operation, notes@, i);
                }
            }
            assert(targets@ =~= operation_values(operation, notes@));
        }
        self.open_velocity_menu = None;
        Some(RollEdit::SetVelocities { clip_id: c.id.clone(), targets })
    }
}

/// Deleting asks for exactly the selected notes of the clip.
pub proof fn law_delete_takes_the_selected(pre: PianoRoll, clip: &ClipView, n: MidiNote)
    ensures
        match delete_asks(pre, Some(clip)) {
            Some(EditView::DeleteNotes(id, notes)) => id == clip.id@ && (notes.contains(n) <==> clip.notes@.contains(n)
                && pre.selection@.contains(n.id)),
            None => !(clip.notes@.contains(n) && pre.selection@.contains(n.id)),
            _ => false,
        },
        delete_asks(pre, None) is None,
{
    crate::midi::lemma_notes_in_contains(clip.notes@, pre.selection@, n);
}

/// Muting reaches exactly the selected notes: all are muted while one of them
/// sounds, and all unmuted once none does.
pub proof fn law_mute_goes_by_the_selected(pre: PianoRoll, clip: &ClipView, i: int)
    requires
        0 <= i < selected(pre, Some(clip)).len(),
    ensures
        mute_asks(pre, Some(clip)) matches Some(EditView::SetMuted(id, states, muted)) && {
            let chosen = selected(pre, Some(clip));
            &&& id == clip.id@
            &&& states.len() == chosen.len()
            &&& states[i] == (chosen[i].id, chosen[i].muted)
            &&& !chosen[i].muted ==> muted
            &&& muted ==> exists|k: int| 0 <= k < chosen.len() && !(#[trigger] chosen[k]).muted
        },
{
}

/// Muting a single note turns its state over.
pub proof fn law_muting_a_note_turns_it_over(clip: &ClipView, id: u64)
    ensures
        match note_mute_asks(Some(clip), id) {
            Some(EditView::SetMuted(name, states, muted)) => {
                &&& name == clip.id@
                &&& states.len() == 1
                &&& states[0].0 == id
                &&& muted == !states[0].1
                &&& note_with_id(clip.notes@, id) matches Some(n) && states[0].1 == n.muted
            },
            None => note_with_id(clip.notes@, id) is None,
            _ => false,
        },
{
}

/// A transposition reaches exactly the selected ids, by as many semitones as it
/// was given.
pub proof fn law_transpose_reaches_the_selected(pre: PianoRoll, clip: &ClipView, semitones: int, id: u64)
    requires
        semitones != 0,
        pre.selection@.contains(id),
    ensures
        transpose_asks(pre, Some(clip), semitones) matches Some(EditView::Transpose(name, ids, by)) && {
            &&& name == clip.id@
            &&& by == semitones
            &&& ids.contains(id)
            &&& forall|k: int| 0 <= k < ids.len() ==> pre.selection@.contains(#[trigger] ids[k])
        },
{
    crate::id_set::law_listed_ids_are_the_set(pre.selection, id);
    let ids = pre.selection.listed();
    assert forall|k: int| 0 <= k < ids.len() implies pre.selection@.contains(#[trigger] ids[k]) by {
        assert(ids.contains(ids[k]));
        crate::id_set::law_listed_ids_are_the_set(pre.selection, ids[k]);
    }
}

/// Quantizing reaches the selected notes, or without a selection every note, at
/// the chosen resolution.
pub proof fn law_quantize_reaches_the_selected_or_all(pre: PianoRoll, clip: &ClipView, i: int)
    requires
        0 <= i < clip.notes@.len(),
        pre.selection@ == Set::<u64>::empty() || pre.selection@.contains(clip.notes@[i].id),
    ensures
        quantize_asks(pre, Some(clip)) matches Some(EditView::Quantize(name, ids, step)) && {
            &&& name == clip.id@
            &&& ids.contains(clip.notes@[i].id)
            &&& step == pre.quantize_res.spec_fixed_beats()
        },
{
    crate::id_set::law_listed_ids_are_the_set(pre.selection, clip.notes@[i].id);
    if pre.selection@ == Set::<u64>::empty() {
        let ids = clip.notes@.map_values(|n: MidiNote| n.id);
        assert(ids[i] == clip.notes@[i].id);
    }
}

/// The clipboard goes to the playhead where that is in the clip, else to the
/// clip's start: off the grid exactly, on it to the nearest line.
pub proof fn law_paste_goes_to_the_playhead(roll: PianoRoll, clip: ClipView, playhead: int)
    ensures
        ({
            let step = roll.snap_step(false);
            let at = paste_beat(roll, clip, playhead);
            let wanted = playhead - clip.start;
            &&& 0 <= wanted < clip.duration && step <= 0 ==> at == wanted
            &&& 0 <= wanted < clip.duration && step > 0 ==> at % step == 0 && -step <= 2 * (at - wanted) <= step
            &&& !(0 <= wanted < clip.duration) ==> at == 0
        }),
{
    let step = roll.snap_step(false);
    crate::grid::law_snapped_beats_are_on_the_grid(playhead_in_clip(clip, playhead), step);
    if step > 0 {
        crate::fixed::lemma_nearest_of_multiple(0, step);
        vstd::arithmetic::mul::lemma_mul_basics(step);
    }
}

/// Pasting at the mouse goes under the pointer, and without one to the playhead.
pub proof fn law_mouse_paste_goes_under_the_pointer(roll: PianoRoll, clip: ClipView, playhead: int)
    ensures
        ({
            let step = roll.snap_step(false);
            let at = mouse_paste_beat(roll, clip, playhead);
            &&& roll.hover_beat is None ==> at == paste_beat(roll, clip, playhead)
            &&& roll.hover_beat matches Some(b) ==> (b >= 0 && step <= 0 ==> at == b) && (b >= 0 && step > 0 ==> at % step
                == 0 && -step <= 2 * (at - b) <= step)
        }),
{
    if roll.hover_beat is Some && roll.hover_beat->0 >= 0 {
        crate::grid::law_snapped_beats_are_on_the_grid(roll.hover_beat->0 as int, roll.snap_step(false));
    }
}

/// What was copied comes back from the clipboard: each note with its length,
/// velocity, mute, channel and articulation, all moved so that the earliest is at
/// the anchor.
pub proof fn law_copies_come_back_at_the_anchor(
    notes: Seq<MidiNote>,
    payload: ClipboardPayload,
    anchor: int,
    next_id: u64,
    i: int,
)
    requires
        crate::midi::valid_notes(notes),
        copied_payload(Some(payload), notes),
        0 <= anchor <= POSITION_LIMIT,
        next_id + notes.len() <= u64::MAX,
        0 <= i < notes.len(),
        notes[i].duration >= crate::fixed::MIN_NOTE_TICKS,
    ensures
        pasted_notes(payload, anchor, next_id).len() == notes.len(),
        pasted_notes(payload, anchor, next_id)[i].note == (MidiNote {
            id: (next_id + i) as u64,
            start: (anchor + notes[i].start - earliest_start(notes)) as i64,
            pitch_curve: None,
            ..notes[i]
        }),
        forall|k: int| 0 <= k < notes.len() ==> earliest_start(notes) <= (#[trigger] notes[k]).start,
{
    assert(notes[i].valid());
    crate::note_edits::lemma_extent_bounds(notes, i);
    assert forall|k: int| 0 <= k < notes.len() implies earliest_start(notes) <= (#[trigger] notes[k]).start by {
        crate::note_edits::lemma_extent_bounds(notes, k);
    }
    crate::note_edits::law_paste_moves_the_notes_together(notes, i, anchor, (next_id + i) as u64);
    assert(payload.notes@[i] == clipped(notes[i], earliest_start(notes)));
}

/// Every duplicate is its source, later by one and the same time.
pub proof fn law_duplicates_are_their_sources_later(
    roll: PianoRoll,
    clip: &ClipView,
    free: bool,
    next_id: u64,
    i: int,
)
    requires
        crate::midi::valid_notes(selected(roll, Some(clip))),
        0 <= i < selected(roll, Some(clip)).len(),
        selected(roll, Some(clip))[i].duration >= crate::fixed::MIN_NOTE_TICKS,
        selected(roll, Some(clip))[i].start + duplicate_offset(selected(roll, Some(clip)), roll.snap_step(free))
            <= i64::MAX,
        next_id + selected(roll, Some(clip)).len() <= u64::MAX,
    ensures
        ({
            let src = selected(roll, Some(clip));
            let out = duplicates(roll, Some(clip), free, next_id);
            let by = duplicate_offset(src, roll.snap_step(free));
            &&& out.len() == src.len()
            &&& out[i].note == (MidiNote {
                id: (next_id + i) as u64,
                start: (src[i].start + by) as i64,
                pitch_curve: None,
                ..src[i]
            })
            &&& by >= crate::fixed::MIN_NOTE_TICKS
        }),
{
    let src = selected(roll, Some(clip));
    assert(src[i].valid());
    let by = duplicate_offset(src, roll.snap_step(free));
    crate::note_edits::law_copies_sound_like_their_source(
        src[i],
        (next_id + i) as u64,
        src[i].pitch,
        (src[i].start + by) as i64,
    );
}

/// A velocity transform pairs every note with its new velocity.
pub proof fn law_transforms_answer_for_every_note(operation: VelocityOperation, notes: Seq<MidiNote>, i: int)
    requires
        0 <= i < notes.len(),
    ensures
        operation_values(operation, notes).len() == notes.len(),
        operation_values(operation, notes)[i].0 == notes[i].id,
        operation_values(operation, notes)[i].1 == operation_velocity(operation, notes, i),
{
    if operation != VelocityOperation::Reverse {
        crate::velocity_ops::law_operations_stay_in_range(operation, notes, i);
    }
}

/// The knife cuts where the pointer is, while snapping at the nearest grid line.
pub proof fn law_the_knife_cuts_under_the_pointer(roll: PianoRoll, beat: int)
    requires
        beat >= 0,
    ensures
        roll.snap_step(false) == 0 ==> cut_beat(roll, beat) == beat,
        roll.snap_step(false) > 0 ==> cut_beat(roll, beat) % roll.snap_step(false) == 0 && -roll.snap_step(false) <= 2 * (
        cut_beat(roll, beat) - beat) <= roll.snap_step(false),
{
    crate::grid::law_snapped_beats_are_on_the_grid(beat, roll.snap_step(false));
}

} // verus!
