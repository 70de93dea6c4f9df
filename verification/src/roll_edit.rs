//! What a gesture or command asks of the timeline.

use crate::midi::{
    ArticulationId, MidiArticulationEvent, MidiChannel, MidiControllerKind, MidiControllerPoint, MidiNote,
};
use crate::note_edits::{NewNote, NotePlace};
use crate::preview::{messages, PreviewMessage, UiMidiPreviewCommand};
use crate::scale::Scale;
use vstd::prelude::*;

verus! {

/// A change of the timeline. The first group runs as one undoable command each;
/// a live change repaints without one, and the gesture that made it records the
/// whole difference on release.
#[allow(inconsistent_fields)]
#[derive(Debug)]
pub enum RollEdit {
    CreateNotes { clip_id: String, notes: Vec<NewNote> },
    DeleteNotes { clip_id: String, notes: Vec<MidiNote> },
    MoveNotes { clip_id: String, targets: Vec<NotePlace> },
    ResizeNotes { clip_id: String, targets: Vec<(u64, i64)> },
    SetLengths { clip_id: String, targets: Vec<(u64, i64)> },
    SetVelocities { clip_id: String, targets: Vec<(u64, u8)> },
    SetMuted { clip_id: String, prev: Vec<(u64, bool)>, muted: bool },
    SplitNote { clip_id: String, original: MidiNote, parts: Vec<NewNote> },
    Transpose { clip_id: String, ids: Vec<u64>, semitones: i32 },
    Quantize { clip_id: String, ids: Vec<u64>, step: i64 },
    SnapToScale { clip_id: String, ids: Vec<u64>, scale: Scale },
    SetChannel { clip_id: String, ids: Vec<u64>, channel: MidiChannel },
    NudgeChannel { clip_id: String, ids: Vec<u64>, delta: i32 },
    SetArticulation { clip_id: String, ids: Vec<u64>, articulation: Option<ArticulationId> },
    SetEvents { clip_id: String, prev: Vec<MidiArticulationEvent>, next: Vec<MidiArticulationEvent> },
    InsertEvent { clip_id: String, beat: i64, articulation: ArticulationId },
    ReplacePoints {
        clip_id: String,
        kind: MidiControllerKind,
        prev: Vec<MidiControllerPoint>,
        next: Vec<MidiControllerPoint>,
    },
    /// Already applied; to be recorded.
    RecordNotes { clip_id: String, prev: Vec<MidiNote>, next: Vec<MidiNote> },
    /// Already applied; to be recorded.
    RecordPoints {
        clip_id: String,
        kind: MidiControllerKind,
        prev: Vec<MidiControllerPoint>,
        next: Vec<MidiControllerPoint>,
    },
    /// Live.
    LiveVelocities { clip_id: String, targets: Vec<(u64, u8)> },
    /// Live; back to the velocities of a snapshot.
    RestoreVelocities { clip_id: String, snapshot: Vec<(u64, u8)> },
    /// Live.
    LivePoints { clip_id: String, kind: MidiControllerKind, points: Vec<MidiControllerPoint> },
    /// Live; id, beat and value of each point.
    LiveMovePoints { clip_id: String, kind: MidiControllerKind, targets: Vec<(u64, i64, i64)> },
    /// Live.
    LiveMoveEvent { clip_id: String, id: u64, beat: i64 },
    /// Live.
    LiveEvents { clip_id: String, events: Vec<MidiArticulationEvent> },
    /// Project beat to go to.
    Seek { beat: i64 },
    /// Channel policy of a track's output.
    SetOutputPerNote { track_id: String, per_note: bool },
}

/// A [`RollEdit`], with texts and lists as sequences.
pub enum EditView {
    CreateNotes(Seq<char>, Seq<NewNote>),
    DeleteNotes(Seq<char>, Seq<MidiNote>),
    MoveNotes(Seq<char>, Seq<NotePlace>),
    ResizeNotes(Seq<char>, Seq<(u64, i64)>),
    SetLengths(Seq<char>, Seq<(u64, i64)>),
    SetVelocities(Seq<char>, Seq<(u64, u8)>),
    SetMuted(Seq<char>, Seq<(u64, bool)>, bool),
    SplitNote(Seq<char>, MidiNote, Seq<NewNote>),
    Transpose(Seq<char>, Seq<u64>, int),
    Quantize(Seq<char>, Seq<u64>, int),
    SnapToScale(Seq<char>, Seq<u64>, Scale),
    SetChannel(Seq<char>, Seq<u64>, MidiChannel),
    NudgeChannel(Seq<char>, Seq<u64>, int),
    SetArticulation(Seq<char>, Seq<u64>, Option<ArticulationId>),
    SetEvents(Seq<char>, Seq<MidiArticulationEvent>, Seq<MidiArticulationEvent>),
    InsertEvent(Seq<char>, int, ArticulationId),
    ReplacePoints(Seq<char>, MidiControllerKind, Seq<MidiControllerPoint>, Seq<MidiControllerPoint>),
    RecordNotes(Seq<char>, Seq<MidiNote>, Seq<MidiNote>),
    RecordPoints(Seq<char>, MidiControllerKind, Seq<MidiControllerPoint>, Seq<MidiControllerPoint>),
    LiveVelocities(Seq<char>, Seq<(u64, u8)>),
    RestoreVelocities(Seq<char>, Seq<(u64, u8)>),
    LivePoints(Seq<char>, MidiControllerKind, Seq<MidiControllerPoint>),
    LiveMovePoints(Seq<char>, MidiControllerKind, Seq<(u64, i64, i64)>),
    LiveMoveEvent(Seq<char>, u64, int),
    LiveEvents(Seq<char>, Seq<MidiArticulationEvent>),
    Seek(int),
    SetOutputPerNote(Seq<char>, bool),
}

impl View for RollEdit {
    type V = EditView;

    open spec fn view(&self) -> EditView {
        match *self {
            RollEdit::CreateNotes { clip_id, notes } => EditView::CreateNotes(clip_id@, notes@),
            RollEdit::DeleteNotes { clip_id, notes } => EditView::DeleteNotes(clip_id@, notes@),
            RollEdit::MoveNotes { clip_id, targets } => EditView::MoveNotes(clip_id@, targets@),
            RollEdit::ResizeNotes { clip_id, targets } => EditView::ResizeNotes(clip_id@, targets@),
            RollEdit::SetLengths { clip_id, targets } => EditView::SetLengths(clip_id@, targets@),
            RollEdit::SetVelocities { clip_id, targets } => EditView::SetVelocities(clip_id@, targets@),
            RollEdit::SetMuted { clip_id, prev, muted } => EditView::SetMuted(clip_id@, prev@, muted),
            RollEdit::SplitNote { clip_id, original, parts } => EditView::SplitNote(clip_id@, original, parts@),
            RollEdit::Transpose { clip_id, ids, semitones } => EditView::Transpose(clip_id@, ids@, semitones as int),
            RollEdit::Quantize { clip_id, ids, step } => EditView::Quantize(clip_id@, ids@, step as int),
            RollEdit::SnapToScale { clip_id, ids, scale } => EditView::SnapToScale(clip_id@, ids@, scale),
            RollEdit::SetChannel { clip_id, ids, channel } => EditView::SetChannel(clip_id@, ids@, channel),
            RollEdit::NudgeChannel { clip_id, ids, delta } => EditView::NudgeChannel(clip_id@, ids@, delta as int),
            RollEdit::SetArticulation { clip_id, ids, articulation } => EditView::SetArticulation(
                clip_id@,
                ids@,
                articulation,
            ),
            RollEdit::SetEvents { clip_id, prev, next } => EditView::SetEvents(clip_id@, prev@, next@),
            RollEdit::InsertEvent { clip_id, beat, articulation } => EditView::InsertEvent(
                clip_id@,
                beat as int,
                articulation,
            ),
            RollEdit::ReplacePoints { clip_id, kind, prev, next } => EditView::ReplacePoints(
                clip_id@,
                kind,
                prev@,
                next@,
            ),
            RollEdit::RecordNotes { clip_id, prev, next } => EditView::RecordNotes(clip_id@, prev@, next@),
            RollEdit::RecordPoints { clip_id, kind, prev, next } => EditView::RecordPoints(
                clip_id@,
                kind,
                prev@,
                next@,
            ),
            RollEdit::LiveVelocities { clip_id, targets } => EditView::LiveVelocities(clip_id@, targets@),
            RollEdit::RestoreVelocities { clip_id, snapshot } => EditView::RestoreVelocities(clip_id@, snapshot@),
            RollEdit::LivePoints { clip_id, kind, points } => EditView::LivePoints(clip_id@, kind, points@),
            RollEdit::LiveMovePoints { clip_id, kind, targets } => EditView::LiveMovePoints(clip_id@, kind, targets@),
            RollEdit::LiveMoveEvent { clip_id, id, beat } => EditView::LiveMoveEvent(clip_id@, id, beat as int),
            RollEdit::LiveEvents { clip_id, events } => EditView::LiveEvents(clip_id@, events@),
            RollEdit::Seek { beat } => EditView::Seek(beat as int),
            RollEdit::SetOutputPerNote { track_id, per_note } => EditView::SetOutputPerNote(track_id@, per_note),
        }
    }
}

/// What an optional change asks for.
pub open spec fn asked(edit: Option<RollEdit>) -> Option<EditView> {
    match edit {
        Some(e) => Some(e@),
        None => None,
    }
}

/// What one event leads to: messages to the instrument first, a change of the
/// timeline after them.
#[derive(Debug)]
pub struct Outcome {
    pub preview: Vec<UiMidiPreviewCommand>,
    pub edit: Option<RollEdit>,
}

impl Outcome {
    /// The messages to the instrument.
    pub open spec fn said(self) -> Seq<PreviewMessage> {
        messages(self.preview@)
    }

    /// The change of the timeline.
    pub open spec fn asks(self) -> Option<EditView> {
        asked(self.edit)
    }

    /// Nothing leaves the editor.
    pub open spec fn silent(self) -> bool {
        self.said() == Seq::<PreviewMessage>::empty() && self.asks() is None
    }

    pub fn nothing() -> (o: Outcome)
        ensures
            o.silent(),
    {
        let o = Outcome { preview: Vec::new(), edit: None };
        assert(o.said() =~= Seq::<PreviewMessage>::empty());
        o
    }

    /// A change alone.
    pub fn of_edit(edit: Option<RollEdit>) -> (o: Outcome)
        ensures
            o.said() == Seq::<PreviewMessage>::empty(),
            o.asks() == asked(edit),
    {
        let o = Outcome { preview: Vec::new(), edit };
        assert(o.said() =~= Seq::<PreviewMessage>::empty());
        o
    }
}

/// Records notes that a gesture changed live; nothing where they are as before.
pub fn push_note_edit(clip_id: String, prev: Vec<MidiNote>, next: Vec<MidiNote>) -> (r: Option<RollEdit>)
    ensures
        asked(r) == (if prev@ == next@ {
            None
        } else {
            Some(EditView::RecordNotes(clip_id@, prev@, next@))
        }),
{
    if crate::midi::same_notes(&prev, &next) {
        None
    } else {
        Some(RollEdit::RecordNotes { clip_id, prev, next })
    }
}

} // verus!
