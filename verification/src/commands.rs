//! Keys and menu entries, and what they do to the editor.

use crate::fixed::ID_LIMIT;
use crate::gesture::{cancelled, silence, undo_of};
use crate::id_set::IdSet;
use crate::lane_edits::{
    event_delete_asks, points_delete_asks, points_deleted, points_duplicate_asks, points_duplicated,
};
use crate::lanes::{lane_after, ControllerLaneKind, PianoLaneView, PianoTool};
use crate::midi::{ids_of, note_ids, ArticulationId, MidiControllerPoint};
use crate::note_edits::{nudged_starts, nudged_velocities, ClipboardPayload};
use crate::preview::{PreviewMessage, PreviewTarget};
use crate::roll::{clip_valid, ClipView, PianoRoll};
use crate::roll_edit::{EditView, Outcome};
use crate::selection_edits::{
    articulation_asks, clip_name, copied_payload, created_selected, creates, delete_asks, delete_says, duplicates,
    mouse_paste_beat, mute_asks, paste_beat, pasted_notes, payload_in_song, quantize_asks, selected, selection_deleted,
    transpose_asks, unless_empty,
};
use crate::text::same_text;
use crate::viewport::DEFAULT_ROW_H;
use crate::zoom::{anchored, farthest_y_at, fitted};
use vstd::prelude::*;

verus! {

/// Pitch that the view returns to.
pub const MIDDLE_C: u8 = 60;

/// Something that the editor can be told to do.
#[derive(Debug, Clone, Copy, PartialEq, Eq, Structural)]
pub enum RollCommand {
    SelectAllPoints,
    SelectAllNotes,
    DeletePoints,
    DeleteArticulation,
    DeleteNotes,
    DuplicatePoints,
    /// Duplicates the selected notes, off the grid if so told.
    DuplicateNotes(bool),
    Quantize,
    NudgeLeft,
    NudgeRight,
    Transpose(i32),
    Velocity(i16),
    ToggleSnap,
    Tool(PianoTool),
    FitNotes,
    ScrollToMiddle,
    ResetPitchZoom,
    /// Goes on to the next lane, or back to the one before.
    CycleLane(bool),
    Lane(ControllerLaneKind),
    ToggleLane,
    Articulate(Option<ArticulationId>),
    InsertArticulation,
    Copy,
    Cut,
    Paste,
    PasteAtMouse,
    ToggleMute,
    CloseNoteMenu,
    CloseVelocityMenu,
    CancelGesture,
    ClearPoints,
    ClearNotes,
}

/// What a key does in the state that the editor is in.
pub open spec fn key_means(roll: PianoRoll, key: Seq<char>, ctrl: bool, shift: bool) -> Option<RollCommand> {
    let notes = roll.selection@ != Set::<u64>::empty();
    let points = roll.cc_selection@ != Set::<u64>::empty();
    let cc = roll.lane_view == PianoLaneView::Controller;
    if key == "up"@ {
        if !ctrl && notes {
            Some(RollCommand::Transpose(if shift { 12 } else { 1 }))
        } else {
            None
        }
    } else if key == "down"@ {
        if !ctrl && notes {
            Some(RollCommand::Transpose(if shift { (-12) as i32 } else { (-1) as i32 }))
        } else {
            None
        }
    } else if key == "delete"@ || key == "backspace"@ {
        if cc && points {
            Some(RollCommand::DeletePoints)
        } else if roll.lane_view == PianoLaneView::Articulations && roll.selected_articulation is Some {
            Some(RollCommand::DeleteArticulation)
        } else if notes {
            Some(RollCommand::DeleteNotes)
        } else {
            None
        }
    } else if key == "escape"@ {
        Some(
            if roll.open_note_menu is Some {
                RollCommand::CloseNoteMenu
            } else if roll.open_velocity_menu is Some {
                RollCommand::CloseVelocityMenu
            } else if !(roll.drag is Idle) {
                RollCommand::CancelGesture
            } else if cc {
                RollCommand::ClearPoints
            } else {
                RollCommand::ClearNotes
            },
        )
    } else if ctrl {
        if key == "a"@ {
            Some(if cc { RollCommand::SelectAllPoints } else { RollCommand::SelectAllNotes })
        } else if key == "c"@ {
            Some(RollCommand::Copy)
        } else if key == "x"@ {
            Some(RollCommand::Cut)
        } else if key == "v"@ {
            Some(if shift { RollCommand::PasteAtMouse } else { RollCommand::Paste })
        } else if key == "d"@ {
            Some(if cc { RollCommand::DuplicatePoints } else { RollCommand::DuplicateNotes(shift) })
        } else {
            None
        }
    } else if key == "m"@ {
        Some(RollCommand::ToggleMute)
    } else if key == "f"@ {
        Some(RollCommand::FitNotes)
    } else {
        None
    }
}

/// The command that a key stands for; keys that mean nothing here pass on.
pub fn key_command(roll: &PianoRoll, key: &str, ctrl: bool, shift: bool) -> (r: Option<RollCommand>)
    ensures
        r == key_means(*roll, key@, ctrl, shift),
{
    let notes = !roll.selection.is_empty();
    let points = !roll.cc_selection.is_empty();
    let cc = roll.lane_view == PianoLaneView::Controller;
    if same_text(key, "up") {
        if !ctrl && notes {
            Some(RollCommand::Transpose(if shift { 12 } else { 1 }))
        } else {
            None
        }
    } else if same_text(key, "down") {
        if !ctrl && notes {
            Some(RollCommand::Transpose(if shift { -12 } else { -1 }))
        } else {
            None
        }
    } else if same_text(key, "delete") || same_text(key, "backspace") {
        if cc && points {
            Some(RollCommand::DeletePoints)
        } else if roll.lane_view == PianoLaneView::Articulations && roll.selected_articulation.is_some() {
            Some(RollCommand::DeleteArticulation)
        } else if notes {
            Some(RollCommand::DeleteNotes)
        } else {
            None
        }
    } else if same_text(key, "escape") {
        Some(
            if roll.open_note_menu.is_some() {
                RollCommand::CloseNoteMenu
            } else if roll.open_velocity_menu.is_some() {
                RollCommand::CloseVelocityMenu
            } else if !roll.drag.is_idle() {
                RollCommand::CancelGesture
            } else if cc {
                RollCommand::ClearPoints
            } else {
                RollCommand::ClearNotes
            },
        )
    } else if ctrl {
        if same_text(key, "a") {
            Some(if cc { RollCommand::SelectAllPoints } else { RollCommand::SelectAllNotes })
        } else if same_text(key, "c") {
            Some(RollCommand::Copy)
        } else if same_text(key, "x") {
            Some(RollCommand::Cut)
        } else if same_text(key, "v") {
            Some(if shift { RollCommand::PasteAtMouse } else { RollCommand::Paste })
        } else if same_text(key, "d") {
            Some(if cc { RollCommand::DuplicatePoints } else { RollCommand::DuplicateNotes(shift) })
        } else {
            None
        }
    } else if same_text(key, "m") {
        Some(RollCommand::ToggleMute)
    } else if same_text(key, "f") {
        Some(RollCommand::FitNotes)
    } else {
        None
    }
}

/// The articulation that a menu entry assigns.
pub open spec fn articulation_entry(id: Seq<char>) -> Option<Option<ArticulationId>> {
    if id == "midi:articulation-none"@ {
        Some(None)
    } else if id == "midi:articulation-sustain"@ {
        Some(Some(ArticulationId::Sustain))
    } else if id == "midi:articulation-staccato"@ {
        Some(Some(ArticulationId::Staccato))
    } else if id == "midi:articulation-staccatissimo"@ {
        Some(Some(ArticulationId::Staccatissimo))
    } else if id == "midi:articulation-legato"@ {
        Some(Some(ArticulationId::Legato))
    } else if id == "midi:articulation-tenuto"@ {
        Some(Some(ArticulationId::Tenuto))
    } else if id == "midi:articulation-accent"@ {
        Some(Some(ArticulationId::Accent))
    } else if id == "midi:articulation-marcato"@ {
        Some(Some(ArticulationId::Marcato))
    } else {
        None
    }
}

fn articulation_entry_of(id: &str) -> (r: Option<Option<ArticulationId>>)
    ensures
        r == articulation_entry(id@),
{
    if same_text(id, "midi:articulation-none") {
        Some(None)
    } else if same_text(id, "midi:articulation-sustain") {
        Some(Some(ArticulationId::Sustain))
    } else if same_text(id, "midi:articulation-staccato") {
        Some(Some(ArticulationId::Staccato))
    } else if same_text(id, "midi:articulation-staccatissimo") {
        Some(Some(ArticulationId::Staccatissimo))
    } else if same_text(id, "midi:articulation-legato") {
        Some(Some(ArticulationId::Legato))
    } else if same_text(id, "midi:articulation-tenuto") {
        Some(Some(ArticulationId::Tenuto))
    } else if same_text(id, "midi:articulation-accent") {
        Some(Some(ArticulationId::Accent))
    } else if same_text(id, "midi:articulation-marcato") {
        Some(Some(ArticulationId::Marcato))
    } else {
        None
    }
}

/// The command of a menu entry that shows or arranges.
pub open spec fn view_entry(id: Seq<char>, active_cc: crate::midi::MidiControllerKind) -> Option<RollCommand> {
    if id == "midi:toggle-snap"@ || id == "midi.toggle_snap"@ {
        Some(RollCommand::ToggleSnap)
    } else if id == "midi:tool-select"@ || id == "midi.tool.select"@ {
        Some(RollCommand::Tool(PianoTool::Select))
    } else if id == "midi:tool-draw"@ || id == "midi.tool.draw"@ {
        Some(RollCommand::Tool(PianoTool::Draw))
    } else if id == "midi:tool-line"@ || id == "midi.tool.line"@ {
        Some(RollCommand::Tool(PianoTool::Line))
    } else if id == "midi:fit-notes"@ {
        Some(RollCommand::FitNotes)
    } else if id == "midi:scroll-to-c4"@ {
        Some(RollCommand::ScrollToMiddle)
    } else if id == "midi:reset-pitch-zoom"@ {
        Some(RollCommand::ResetPitchZoom)
    } else if id == "midi:lane-next"@ {
        Some(RollCommand::CycleLane(true))
    } else if id == "midi:lane-prev"@ {
        Some(RollCommand::CycleLane(false))
    } else if id == "midi:lane-velocity"@ {
        Some(RollCommand::Lane(ControllerLaneKind::Velocity))
    } else if id == "midi:lane-cc"@ {
        Some(RollCommand::Lane(ControllerLaneKind::Controller(active_cc)))
    } else if id == "midi:lane-articulations"@ {
        Some(RollCommand::Lane(ControllerLaneKind::Articulations))
    } else if id == "midi:lane-toggle"@ {
        Some(RollCommand::ToggleLane)
    } else {
        None
    }
}

fn view_entry_of(id: &str, active_cc: crate::midi::MidiControllerKind) -> (r: Option<RollCommand>)
    ensures
        r == view_entry(id@, active_cc),
{
    if same_text(id, "midi:toggle-snap") || same_text(id, "midi.toggle_snap") {
        Some(RollCommand::ToggleSnap)
    } else if same_text(id, "midi:tool-select") || same_text(id, "midi.tool.select") {
        Some(RollCommand::Tool(PianoTool::Select))
    } else if same_text(id, "midi:tool-draw") || same_text(id, "midi.tool.draw") {
        Some(RollCommand::Tool(PianoTool::Draw))
    } else if same_text(id, "midi:tool-line") || same_text(id, "midi.tool.line") {
        Some(RollCommand::Tool(PianoTool::Line))
    } else if same_text(id, "midi:fit-notes") {
        Some(RollCommand::FitNotes)
    } else if same_text(id, "midi:scroll-to-c4") {
        Some(RollCommand::ScrollToMiddle)
    } else if same_text(id, "midi:reset-pitch-zoom") {
        Some(RollCommand::ResetPitchZoom)
    } else if same_text(id, "midi:lane-next") {
        Some(RollCommand::CycleLane(true))
    } else if same_text(id, "midi:lane-prev") {
        Some(RollCommand::CycleLane(false))
    } else if same_text(id, "midi:lane-velocity") {
        Some(RollCommand::Lane(ControllerLaneKind::Velocity))
    } else if same_text(id, "midi:lane-cc") {
        Some(RollCommand::Lane(ControllerLaneKind::Controller(active_cc)))
    } else if same_text(id, "midi:lane-articulations") {
        Some(RollCommand::Lane(ControllerLaneKind::Articulations))
    } else if same_text(id, "midi:lane-toggle") {
        Some(RollCommand::ToggleLane)
    } else {
        None
    }
}

/// The command of a menu entry, by the names that menus and the command bar
/// know it under.
pub open spec fn menu_means(roll: PianoRoll, id: Seq<char>) -> Option<RollCommand> {
    let cc = roll.lane_view == PianoLaneView::Controller;
    if id == "midi:select-all"@ || id == "midi.select_all"@ {
        Some(if cc { RollCommand::SelectAllPoints } else { RollCommand::SelectAllNotes })
    } else if id == "midi:delete-selected"@ || id == "midi.delete"@ {
        Some(if cc { RollCommand::DeletePoints } else { RollCommand::DeleteNotes })
    } else if id == "midi:duplicate-selected"@ || id == "midi.duplicate"@ {
        Some(if cc { RollCommand::DuplicatePoints } else { RollCommand::DuplicateNotes(false) })
    } else if id == "midi:quantize"@ || id == "midi.quantize"@ {
        Some(RollCommand::Quantize)
    } else if id == "midi:nudge-left"@ {
        Some(RollCommand::NudgeLeft)
    } else if id == "midi:nudge-right"@ {
        Some(RollCommand::NudgeRight)
    } else if id == "midi:transpose-up"@ || id == "midi.transpose_up"@ {
        Some(RollCommand::Transpose(1))
    } else if id == "midi:transpose-down"@ || id == "midi.transpose_down"@ {
        Some(RollCommand::Transpose((-1) as i32))
    } else if id == "midi:transpose-octave-up"@ {
        Some(RollCommand::Transpose(12))
    } else if id == "midi:transpose-octave-down"@ {
        Some(RollCommand::Transpose((-12) as i32))
    } else if id == "midi:velocity-increase"@ || id == "midi.velocity_increase"@ {
        Some(RollCommand::Velocity(1))
    } else if id == "midi:velocity-decrease"@ || id == "midi.velocity_decrease"@ {
        Some(RollCommand::Velocity((-1) as i16))
    } else if id == "midi:articulation-insert"@ {
        Some(RollCommand::InsertArticulation)
    } else if articulation_entry(id) is Some {
        Some(RollCommand::Articulate(articulation_entry(id)->0))
    } else {
        view_entry(id, roll.active_cc)
    }
}

/// The command of a menu entry.
pub fn menu_command(roll: &PianoRoll, id: &str) -> (r: Option<RollCommand>)
    ensures
        r == menu_means(*roll, id@),
{
    let cc = roll.lane_view == PianoLaneView::Controller;
    if same_text(id, "midi:select-all") || same_text(id, "midi.select_all") {
        Some(if cc { RollCommand::SelectAllPoints } else { RollCommand::SelectAllNotes })
    } else if same_text(id, "midi:delete-selected") || same_text(id, "midi.delete") {
        Some(if cc { RollCommand::DeletePoints } else { RollCommand::DeleteNotes })
    } else if same_text(id, "midi:duplicate-selected") || same_text(id, "midi.duplicate") {
        Some(if cc { RollCommand::DuplicatePoints } else { RollCommand::DuplicateNotes(false) })
    } else if same_text(id, "midi:quantize") || same_text(id, "midi.quantize") {
        Some(RollCommand::Quantize)
    } else if same_text(id, "midi:nudge-left") {
        Some(RollCommand::NudgeLeft)
    } else if same_text(id, "midi:nudge-right") {
        Some(RollCommand::NudgeRight)
    } else if same_text(id, "midi:transpose-up") || same_text(id, "midi.transpose_up") {
        Some(RollCommand::Transpose(1))
    } else if same_text(id, "midi:transpose-down") || same_text(id, "midi.transpose_down") {
        Some(RollCommand::Transpose(-1))
    } else if same_text(id, "midi:transpose-octave-up") {
        Some(RollCommand::Transpose(12))
    } else if same_text(id, "midi:transpose-octave-down") {
        Some(RollCommand::Transpose(-12))
    } else if same_text(id, "midi:velocity-increase") || same_text(id, "midi.velocity_increase") {
        Some(RollCommand::Velocity(1))
    } else if same_text(id, "midi:velocity-decrease") || same_text(id, "midi.velocity_decrease") {
        Some(RollCommand::Velocity(-1))
    } else if same_text(id, "midi:articulation-insert") {
        Some(RollCommand::InsertArticulation)
    } else {
        match articulation_entry_of(id) {
            Some(a) => Some(RollCommand::Articulate(a)),
            None => view_entry_of(id, roll.active_cc),
        }
    }
}

/// What a command reads besides the editor.
pub struct CommandInput<'a> {
    /// The clip being edited.
    pub clip: Option<&'a ClipView>,
    /// Where the playhead stands in the song.
    pub playhead: i64,
    /// Notes on the clipboard.
    pub clipboard: Option<&'a ClipboardPayload>,
    /// Articulations that the instrument has.
    pub available: &'a Vec<ArticulationId>,
    /// Where new ids start.
    pub next_id: u64,
}

impl<'a> CommandInput<'a> {
    pub open spec fn valid(self) -> bool {
        &&& clip_valid(self.clip)
        &&& self.clipboard matches Some(p) ==> payload_in_song(*p)
        &&& self.next_id <= ID_LIMIT
    }

    /// Notes that a paste at a beat brings.
    pub open spec fn pastes(self, beat: int) -> Seq<crate::note_edits::NewNote> {
        match self.clipboard {
            Some(p) => pasted_notes(*p, beat, self.next_id),
            None => Seq::empty(),
        }
    }

    /// Notes that a paste command brings.
    pub open spec fn brought(self, roll: PianoRoll, at_mouse: bool) -> Seq<crate::note_edits::NewNote> {
        match self.clip {
            Some(c) => self.pastes(
                if at_mouse {
                    mouse_paste_beat(roll, *c, self.playhead as int)
                } else {
                    paste_beat(roll, *c, self.playhead as int)
                },
            ),
            None => Seq::empty(),
        }
    }
}

/// Ids of a lane's points.
pub open spec fn point_ids(points: Seq<MidiControllerPoint>) -> Set<u64> {
    Set::new(|id: u64| exists|i: int| 0 <= i < points.len() && (#[trigger] points[i]).id == id)
}

fn ids_of_points(points: &Vec<MidiControllerPoint>) -> (s: IdSet)
    ensures
        s@ == point_ids(points@),
{
    let mut out = IdSet::new();
    let mut i: usize = 0;
    while i < points.len()
        invariant
            i <= points@.len(),
            forall|id: u64| #[trigger]
                out@.contains(id) <==> exists|k: int| 0 <= k < i && (#[trigger] points@[k]).id == id,
        decreases points@.len() - i,
    {
        let ghost before = out@;
        out.insert(points[i].id);
        assert forall|id: u64| #[trigger] out@.contains(id) <==> exists|k: int|
            0 <= k < i + 1 && (#[trigger] points@[k]).id == id by {
            if out@.contains(id) && !before.contains(id) {
                assert(points@[i as int].id == id);
            }
            if exists|k: int| 0 <= k < i + 1 && (#[trigger] points@[k]).id == id {
                let k = choose|k: int| 0 <= k < i + 1 && (#[trigger] points@[k]).id == id;
                if k < i {
                    assert(before.contains(id));
                }
            }
        }
        i = i + 1;
    }
    assert(out@ =~= point_ids(points@));
    out
}

/// The rows have their default height and the middle of the keyboard is in view.
pub open spec fn pitch_zoom_reset(pre: PianoRoll) -> PianoRoll {
    let rows = PianoRoll {
        row_h: DEFAULT_ROW_H,
        scroll_y: crate::fixed::clamp_to(
            anchored(
                pre.grid_size().1 / 2,
                pre.scroll_y as int,
                pre.row_h as int,
                DEFAULT_ROW_H as int,
            ),
            0,
            farthest_y_at(DEFAULT_ROW_H as int, pre.grid_size().1),
        ) as i64,
        ..pre
    };
    PianoRoll { scroll_y: rows.centred(2 * MIDDLE_C) as i64, ..rows }
}

/// The editor after a command.
pub open spec fn commanded(pre: PianoRoll, post: PianoRoll, command: RollCommand, input: CommandInput) -> bool {
    match command {
        RollCommand::SelectAllPoints => match input.clip {
            Some(c) => post.cc_selection@ == point_ids(c.points@) && post == (PianoRoll {
                cc_selection: post.cc_selection,
                ..pre
            }),
            None => post == pre,
        },
        RollCommand::SelectAllNotes => match input.clip {
            Some(c) => post.selection@ == ids_of(c.notes@) && post == (PianoRoll {
                selection: post.selection,
                ..pre
            }),
            None => post == pre,
        },
        RollCommand::DeletePoints => points_deleted(pre, post, input.clip),
        RollCommand::DeleteArticulation => post == (PianoRoll { selected_articulation: None, ..pre }),
        RollCommand::DeleteNotes | RollCommand::Cut => selection_deleted(pre, post, input.clip),
        RollCommand::DuplicatePoints => points_duplicated(pre, post, input.clip, input.next_id),
        RollCommand::DuplicateNotes(free) => created_selected(
            pre,
            post,
            duplicates(pre, input.clip, free, input.next_id),
        ),
        RollCommand::Quantize | RollCommand::NudgeLeft | RollCommand::NudgeRight | RollCommand::Transpose(_)
        | RollCommand::Velocity(_) | RollCommand::Articulate(_) | RollCommand::InsertArticulation
        | RollCommand::Copy | RollCommand::ToggleMute => post == pre,
        RollCommand::ToggleSnap => post == (PianoRoll { snap_on: !pre.snap_on, ..pre }),
        RollCommand::Tool(tool) => post.tool == tool && cancelled(pre, (PianoRoll { tool: pre.tool, ..post })),
        RollCommand::FitNotes => match input.clip {
            Some(c) => fitted(pre, post, c.notes@, c.duration as int),
            None => post == pre,
        },
        RollCommand::ScrollToMiddle => post == (PianoRoll { scroll_y: pre.centred(2 * MIDDLE_C) as i64, ..pre }),
        RollCommand::ResetPitchZoom => post == pitch_zoom_reset(pre),
        RollCommand::CycleLane(forward) => {
            &&& post.lane() == lane_after(pre.lane(), if forward { 1 } else { -1 })
            &&& !(post.lane() is Controller) ==> post.active_cc == pre.active_cc
            &&& post == (PianoRoll {
                lane_view: post.lane_view,
                active_cc: post.active_cc,
                lane_visible: true,
                open_select_menu: None,
                selected_articulation: None,
                lane_bounds: None,
                ..pre
            })
        },
        RollCommand::Lane(kind) => {
            &&& post.lane() == kind
            &&& post == (PianoRoll {
                lane_view: post.lane_view,
                active_cc: match kind {
                    ControllerLaneKind::Controller(k) => k,
                    _ => pre.active_cc,
                },
                lane_visible: true,
                open_select_menu: None,
                selected_articulation: None,
                lane_bounds: None,
                ..pre
            })
        },
        RollCommand::ToggleLane => post == (PianoRoll {
            lane_visible: !pre.lane_visible,
            open_select_menu: None,
            ..pre
        }),
        RollCommand::Paste => created_selected(pre, post, input.brought(pre, false)),
        RollCommand::PasteAtMouse => created_selected(pre, post, input.brought(pre, true)),
        RollCommand::CloseNoteMenu => post == (PianoRoll { open_note_menu: None, ..pre }),
        RollCommand::CloseVelocityMenu => post == (PianoRoll { open_velocity_menu: None, ..pre }),
        RollCommand::CancelGesture => cancelled(pre, post),
        RollCommand::ClearPoints => post.cc_selection@ == Set::<u64>::empty() && post == (PianoRoll {
            cc_selection: post.cc_selection,
            ..pre
        }),
        RollCommand::ClearNotes => post.selection@ == Set::<u64>::empty() && post == (PianoRoll {
            selection: post.selection,
            ..pre
        }),
    }
}

/// What a command asks of the song.
pub open spec fn command_asks(pre: PianoRoll, command: RollCommand, input: CommandInput) -> Option<EditView> {
    let chosen = selected(pre, input.clip);
    match command {
        RollCommand::DeletePoints => points_delete_asks(pre, input.clip),
        RollCommand::DeleteArticulation => match pre.selected_articulation {
            Some(id) => event_delete_asks(input.clip, id),
            None => None,
        },
        RollCommand::DeleteNotes | RollCommand::Cut => delete_asks(pre, input.clip),
        RollCommand::DuplicatePoints => points_duplicate_asks(pre, input.clip, input.next_id),
        RollCommand::DuplicateNotes(free) => match input.clip {
            Some(c) => creates(*c, duplicates(pre, input.clip, free, input.next_id)),
            None => None,
        },
        RollCommand::Quantize => quantize_asks(pre, input.clip),
        RollCommand::NudgeLeft => unless_empty(
            nudged_starts(chosen, -pre.step()),
            EditView::MoveNotes(clip_name(input.clip), nudged_starts(chosen, -pre.step())),
        ),
        RollCommand::NudgeRight => unless_empty(
            nudged_starts(chosen, pre.step()),
            EditView::MoveNotes(clip_name(input.clip), nudged_starts(chosen, pre.step())),
        ),
        RollCommand::Transpose(semitones) => transpose_asks(pre, input.clip, semitones as int),
        RollCommand::Velocity(delta) => unless_empty(
            nudged_velocities(chosen, delta as int),
            EditView::SetVelocities(clip_name(input.clip), nudged_velocities(chosen, delta as int)),
        ),
        RollCommand::Articulate(a) => articulation_asks(pre, input.clip, a, input.available@),
        RollCommand::InsertArticulation => match input.clip {
            Some(c) => Some(
                EditView::InsertEvent(
                    c.id@,
                    paste_beat(pre, *c, input.playhead as int),
                    pre.insert_articulation,
                ),
            ),
            None => None,
        },
        RollCommand::Paste => match input.clip {
            Some(c) => creates(*c, input.brought(pre, false)),
            None => None,
        },
        RollCommand::PasteAtMouse => match input.clip {
            Some(c) => creates(*c, input.brought(pre, true)),
            None => None,
        },
        RollCommand::ToggleMute => mute_asks(pre, input.clip),
        RollCommand::CancelGesture | RollCommand::Tool(_) => undo_of(pre, input.clip),
        _ => None,
    }
}

/// What a command sends to the instrument.
pub open spec fn command_says(
    pre: PianoRoll,
    command: RollCommand,
    input: CommandInput,
    target: Option<PreviewTarget>,
) -> Seq<PreviewMessage> {
    match command {
        RollCommand::DeleteNotes | RollCommand::Cut => delete_says(pre, input.clip, target),
        RollCommand::CancelGesture | RollCommand::Tool(_) => silence(pre, target),
        _ => Seq::empty(),
    }
}

/// What a command puts on the clipboard.
pub open spec fn command_copies(pre: PianoRoll, command: RollCommand, input: CommandInput, r: Option<ClipboardPayload>) -> bool {
    match command {
        RollCommand::Copy | RollCommand::Cut => copied_payload(r, selected(pre, input.clip)),
        _ => r is None,
    }
}

/// Escape closes what is open before it gives up what is under way, and that
/// before it forgets what is selected.
pub proof fn law_escape_takes_one_step(roll: PianoRoll, post: PianoRoll, input: CommandInput, ctrl: bool, shift: bool)
    requires
        key_means(roll, "escape"@, ctrl, shift) matches Some(c) && commanded(roll, post, c, input),
    ensures
        roll.open_note_menu is Some ==> post == (PianoRoll { open_note_menu: None, ..roll }),
        roll.open_note_menu is None && roll.open_velocity_menu is Some ==> post == (PianoRoll {
            open_velocity_menu: None,
            ..roll
        }),
        roll.open_note_menu is None && roll.open_velocity_menu is None && !(roll.drag is Idle) ==> post.drag is Idle,
        post.selection@ != roll.selection@ && roll.drag is Idle ==> post.selection@ == Set::<u64>::empty(),
{
    reveal_strlit("escape");
    reveal_strlit("up");
    reveal_strlit("down");
    reveal_strlit("delete");
    reveal_strlit("backspace");
    assert("escape"@.len() == 6 && "up"@.len() == 2 && "down"@.len() == 4 && "backspace"@.len() == 9);
    assert("escape"@[0] != "delete"@[0]);
}

/// A cut copies exactly what it deletes.
pub proof fn law_cut_copies_what_it_deletes(pre: PianoRoll, input: CommandInput, copied: Option<ClipboardPayload>)
    requires
        command_copies(pre, RollCommand::Cut, input, copied),
    ensures
        copied is Some <==> command_asks(pre, RollCommand::Cut, input) is Some,
        match command_asks(pre, RollCommand::Cut, input) {
            Some(EditView::DeleteNotes(_, notes)) => copied_payload(copied, notes),
            None => copied is None,
            _ => false,
        },
{
}

impl PianoRoll {
    /// Carries out a command that shows or arranges; says whether it was one.
    fn run_view_command(&mut self, command: RollCommand, clip: Option<&ClipView>, Ghost(input): Ghost<CommandInput>) -> (r: bool)
        requires
            old(self).valid(),
            input.valid(),
            input.clip == clip,
        ensures
            r ==> commanded(*old(self), *final(self), command, input) && command_asks(*old(self), command, input)
                is None && (command !is Copy && command !is Cut && command !is DeleteNotes && command !is CancelGesture
                && command !is Tool),
            !r ==> *final(self) == *old(self),
            r == (match command {
                RollCommand::SelectAllPoints | RollCommand::SelectAllNotes | RollCommand::ToggleSnap
                | RollCommand::FitNotes | RollCommand::ScrollToMiddle | RollCommand::ResetPitchZoom
                | RollCommand::CycleLane(_) | RollCommand::Lane(_) | RollCommand::ToggleLane
                | RollCommand::CloseNoteMenu | RollCommand::CloseVelocityMenu | RollCommand::ClearPoints
                | RollCommand::ClearNotes => true,
                _ => false,
            }),
            final(self).valid(),
    {
        match command {
            RollCommand::SelectAllPoints => match clip {
                Some(c) => {
                    self.cc_selection = ids_of_points(&c.points);
                },
                None => {},
            },
            RollCommand::SelectAllNotes => match clip {
                Some(c) => {
                    self.selection = note_ids(&c.notes);
                },
                None => {},
            },
            RollCommand::ToggleSnap => {
                self.snap_on = !self.snap_on;
            },
            RollCommand::FitNotes => match clip {
                Some(c) => {
                    self.fit_piano_roll_to_notes(c);
                },
                None => {},
            },
            RollCommand::ScrollToMiddle => {
                self.scroll_to_pitch(MIDDLE_C);
            },
            RollCommand::ResetPitchZoom => {
                self.reset_row_h_zoom();
                self.scroll_to_pitch(MIDDLE_C);
            },
            RollCommand::CycleLane(forward) => {
                self.cycle_lane(if forward { 1 } else { -1 });
            },
            RollCommand::Lane(kind) => {
                self.set_lane(kind);
            },
            RollCommand::ToggleLane => {
                self.toggle_lane_visible();
            },
            RollCommand::CloseNoteMenu => {
                self.open_note_menu = None;
            },
            RollCommand::CloseVelocityMenu => {
                self.open_velocity_menu = None;
            },
            RollCommand::ClearPoints => {
                self.cc_selection.clear();
            },
            RollCommand::ClearNotes => {
                self.selection.clear();
            },
            _ => {
                return false;
            },
        }
        true
    }

    fn paste_command(&mut self, at_mouse: bool, input: &CommandInput) -> (edit: Option<crate::roll_edit::RollEdit>)
        requires
            old(self).valid(),
            input.valid(),
        ensures
            created_selected(*old(self), *final(self), input.brought(*old(self), at_mouse)),
            crate::roll_edit::asked(edit) == (match input.clip {
                Some(c) => creates(*c, input.brought(*old(self), at_mouse)),
                None => None,
            }),
            final(self).valid(),
    {
        match input.clipboard {
            Some(p) => {
                if at_mouse {
                    self.paste_clipboard_at_mouse(input.clip, input.playhead, p, input.next_id)
                } else {
                    self.paste_clipboard(input.clip, input.playhead, p, input.next_id)
                }
            },
            None => None,
        }
    }

    /// Carries out a command.
    #[verifier::rlimit(60)]
    pub fn run_command(&mut self, command: RollCommand, input: &CommandInput, target: Option<PreviewTarget>) -> (r: (
        Outcome,
        Option<ClipboardPayload>,
    ))
        requires
            old(self).valid(),
            input.valid(),
            command matches RollCommand::Velocity(delta) ==> delta <= 32_000,
        ensures
            commanded(*old(self), *final(self), command, *input),
            r.0.asks() == command_asks(*old(self), command, *input),
            r.0.said() == command_says(*old(self), command, *input, target),
            command_copies(*old(self), command, *input, r.1),
            final(self).valid(),
    {
        let clip = input.clip;
        if self.run_view_command(command, clip, Ghost(*input)) {
            return (Outcome::nothing(), None);
        }
        match command {
            RollCommand::DeletePoints => (Outcome::of_edit(self.delete_selected_cc_points(clip)), None),
            RollCommand::DeleteArticulation => (Outcome::of_edit(self.delete_selected_articulation(clip)), None),
            RollCommand::DeleteNotes => (self.delete_selection(clip, target), None),
            RollCommand::Cut => {
                let copied = self.copy_selection(clip);
                (self.delete_selection(clip, target), copied)
            },
            RollCommand::Copy => (Outcome::nothing(), self.copy_selection(clip)),
            RollCommand::DuplicatePoints => (
                Outcome::of_edit(self.duplicate_selected_cc_points(clip, input.next_id)),
                None,
            ),
            RollCommand::DuplicateNotes(free) => (
                Outcome::of_edit(self.duplicate_selection(free, clip, input.next_id)),
                None,
            ),
            RollCommand::Quantize => (Outcome::of_edit(self.quantize_selection(clip)), None),
            RollCommand::NudgeLeft => {
                let step = self.step_beats();
                (Outcome::of_edit(self.nudge_selected_start(-step, clip)), None)
            },
            RollCommand::NudgeRight => {
                let step = self.step_beats();
                (Outcome::of_edit(self.nudge_selected_start(step, clip)), None)
            },
            RollCommand::Transpose(semitones) => (Outcome::of_edit(self.transpose_selection(semitones, clip)), None),
            RollCommand::Velocity(delta) => (Outcome::of_edit(self.nudge_selected_velocity(delta, clip)), None),
            RollCommand::Articulate(a) => (
                Outcome::of_edit(self.set_selection_articulation(a, input.available, clip)),
                None,
            ),
            RollCommand::InsertArticulation => match clip {
                Some(c) => {
                    let beat = self.playhead_paste_anchor(c, input.playhead);
                    (Outcome::of_edit(Some(self.insert_articulation_at(c, beat))), None)
                },
                None => (Outcome::nothing(), None),
            },
            RollCommand::Paste => (Outcome::of_edit(self.paste_command(false, input)), None),
            RollCommand::PasteAtMouse => (Outcome::of_edit(self.paste_command(true, input)), None),
            RollCommand::ToggleMute => (Outcome::of_edit(self.toggle_mute_selection(clip)), None),
            RollCommand::CancelGesture => (self.cancel_active_gesture(clip, target), None),
            RollCommand::Tool(tool) => {
                let o = self.cancel_active_gesture(clip, target);
                self.tool = tool;
                (o, None)
            },
            _ => (Outcome::nothing(), None),
        }
    }

    /// Carries out the menu entry of that name, if the editor knows it.
    pub fn run_menu_command(&mut self, id: &str, input: &CommandInput, target: Option<PreviewTarget>) -> (r: (
        Outcome,
        Option<ClipboardPayload>,
    ))
        requires
            old(self).valid(),
            input.valid(),
        ensures
            match menu_means(*old(self), id@) {
                Some(c) => {
                    &&& commanded(*old(self), *final(self), c, *input)
                    &&& r.0.asks() == command_asks(*old(self), c, *input)
                    &&& r.0.said() == command_says(*old(self), c, *input, target)
                    &&& command_copies(*old(self), c, *input, r.1)
                },
                None => *final(self) == *old(self) && r.0.silent() && r.1 is None,
            },
            final(self).valid(),
    {
        match menu_command(self, id) {
            Some(c) => self.run_command(c, input, target),
            None => (Outcome::nothing(), None),
        }
    }

    /// Carries out a key; says whether the key was used up.
    pub fn on_key(
        &mut self,
        key: &str,
        ctrl: bool,
        shift: bool,
        input: &CommandInput,
        target: Option<PreviewTarget>,
    ) -> (r: (bool, Outcome, Option<ClipboardPayload>))
        requires
            old(self).valid(),
            input.valid(),
        ensures
            match (input.clip, key_means(*old(self), key@, ctrl, shift)) {
                (Some(_), Some(c)) => {
                    &&& r.0
                    &&& commanded(*old(self), *final(self), c, *input)
                    &&& r.1.asks() == command_asks(*old(self), c, *input)
                    &&& r.1.said() == command_says(*old(self), c, *input, target)
                    &&& command_copies(*old(self), c, *input, r.2)
                },
                _ => !r.0 && *final(self) == *old(self) && r.1.silent() && r.2 is None,
            },
            final(self).valid(),
    {
        if input.clip.is_none() {
            return (false, Outcome::nothing(), None);
        }
        match key_command(self, key, ctrl, shift) {
            Some(c) => {
                let (o, copied) = self.run_command(c, input, target);
                (true, o, copied)
            },
            None => (false, Outcome::nothing(), None),
        }
    }
}

/// Nudging to the right moves every selected note later by one grid step; nudging
/// to the left moves it earlier by as much, and no further than the clip's start.
pub proof fn law_nudges_move_by_one_step(pre: PianoRoll, input: CommandInput, i: int)
    requires
        crate::midi::valid_notes(selected(pre, input.clip)),
        0 <= i < selected(pre, input.clip).len(),
        crate::note_edits::TIME_TOLERANCE < pre.step() <= 4 * crate::fixed::TICKS_PER_BEAT,
    ensures
        command_asks(pre, RollCommand::NudgeRight, input) matches Some(EditView::MoveNotes(id, places)) && {
            let n = selected(pre, input.clip)[i];
            &&& id == clip_name(input.clip)
            &&& places.len() == selected(pre, input.clip).len()
            &&& places[i].id == n.id && places[i].pitch == n.pitch
            &&& places[i].start == n.start + pre.step()
        },
        selected(pre, input.clip)[i].start >= pre.step() ==> (command_asks(
            pre,
            RollCommand::NudgeLeft,
            input,
        ) matches Some(EditView::MoveNotes(id, places)) && {
            let n = selected(pre, input.clip)[i];
            &&& id == clip_name(input.clip)
            &&& places.contains(
                crate::note_edits::NotePlace { id: n.id, start: (n.start - pre.step()) as i64, pitch: n.pitch },
            )
        }),
{
    let chosen = selected(pre, input.clip);
    crate::note_edits::law_nudge_moves_by_its_distance(chosen, pre.step());
    crate::note_edits::law_nudge_moves_by_its_distance(chosen, -pre.step());
    assert(chosen[i].valid());
    let right = nudged_starts(chosen, pre.step());
    assert(right[i].start == chosen[i].start + pre.step());
    if chosen[i].start >= pre.step() {
        let left = nudged_starts(chosen, -pre.step());
        assert(chosen[i].start > crate::note_edits::TIME_TOLERANCE);
        assert(left.len() > 0);
    }
}

/// The arrow keys transpose the selected notes up and down alike, with shift by
/// an octave.
pub proof fn law_arrow_keys_transpose(roll: PianoRoll, shift: bool)
    requires
        roll.selection@ != Set::<u64>::empty(),
    ensures
        key_means(roll, "up"@, false, shift) matches Some(RollCommand::Transpose(up)) && key_means(
            roll,
            "down"@,
            false,
            shift,
        ) matches Some(RollCommand::Transpose(down)) && {
            &&& up == (if shift { 12int } else { 1int })
            &&& up + down == 0
        },
{
    reveal_strlit("up");
    reveal_strlit("down");
    assert("up"@.len() == 2 && "down"@.len() == 4);
}

/// The menu's entries move and transpose the way they are named.
pub proof fn law_menu_entries_do_what_they_say(roll: PianoRoll)
    ensures
        menu_means(roll, "midi:nudge-left"@) == Some(RollCommand::NudgeLeft),
        menu_means(roll, "midi:nudge-right"@) == Some(RollCommand::NudgeRight),
        menu_means(roll, "midi:transpose-up"@) == Some(RollCommand::Transpose(1)),
        menu_means(roll, "midi:transpose-down"@) == Some(RollCommand::Transpose((-1) as i32)),
        menu_means(roll, "midi:transpose-octave-up"@) == Some(RollCommand::Transpose(12)),
        menu_means(roll, "midi:transpose-octave-down"@) == Some(RollCommand::Transpose((-12) as i32)),
{
    lemma_menu_words();
}

proof fn lemma_menu_words()
    ensures
        "midi:select-all"@.len() == 15,
        "midi.select_all"@.len() == 15,
        "midi:delete-selected"@.len() == 20,
        "midi.delete"@.len() == 11,
        "midi:duplicate-selected"@.len() == 23,
        "midi.duplicate"@.len() == 14,
        "midi:quantize"@.len() == 13,
        "midi.quantize"@.len() == 13,
        "midi:nudge-left"@.len() == 15,
        "midi:nudge-right"@.len() == 16,
        "midi:transpose-up"@.len() == 17,
        "midi.transpose_up"@.len() == 17,
        "midi:transpose-down"@.len() == 19,
        "midi.transpose_down"@.len() == 19,
        "midi:transpose-octave-up"@.len() == 24,
        "midi:transpose-octave-down"@.len() == 26,
        "midi:nudge-left"@[5] == 'n',
        "midi:select-all"@[5] == 's',
        "midi.select_all"@[5] == 's',
{
    reveal_strlit("midi:select-all");
    reveal_strlit("midi.select_all");
    reveal_strlit("midi:delete-selected");
    reveal_strlit("midi.delete");
    reveal_strlit("midi:duplicate-selected");
    reveal_strlit("midi.duplicate");
    reveal_strlit("midi:quantize");
    reveal_strlit("midi.quantize");
    reveal_strlit("midi:nudge-left");
    reveal_strlit("midi:nudge-right");
    reveal_strlit("midi:transpose-up");
    reveal_strlit("midi.transpose_up");
    reveal_strlit("midi:transpose-down");
    reveal_strlit("midi.transpose_down");
    reveal_strlit("midi:transpose-octave-up");
    reveal_strlit("midi:transpose-octave-down");
}

} // verus!
