//! A button goes down on the grid, a note, a key or the ruler.

use crate::drag::{notes_in_song, on_surface, DrawDrag, EraseDrag, MoveDrag, PianoDrag, ResizeDrag};
use crate::fixed::ID_LIMIT;
use crate::gesture::{cancelled, marquee_begun, silence, undo_of};
use crate::hit::{hit_ids, pick_rect};
use crate::id_set::IdSet;
use crate::lanes::PianoTool;
use crate::marquee::{MarqueeSelectionMode, Modifiers};
use crate::midi::{find_note, note_with_id, notes_in, snapshot_notes, MidiChannel, MidiNote, DEFAULT_NOTE_VELOCITY};
use crate::motion::{note_begun, seek_asks, sought, Pointer};
use crate::note_edits::{places_of, snapshot_places};
use crate::preview::{PreviewMessage, PreviewState, PreviewTarget};
use crate::roll::{clip_valid, local_point, ClipView, PianoRoll};
use crate::roll_edit::{asked, EditView, Outcome, RollEdit};
use crate::selection_edits::{erase_asks, erase_says, note_erased, note_mute_asks, note_split, split_asks};
use crate::viewport::pitch_at;
use vstd::prelude::*;

verus! {

/// A press on the grid closes the lane selector and the note menu.
pub open spec fn menus_closed(pre: PianoRoll) -> PianoRoll {
    PianoRoll { open_select_menu: None, open_note_menu: None, ..pre }
}

/// A held modifier makes a press on the grid a marquee, whatever the tool;
/// Shift does not with the draw tool.
pub open spec fn wants_marquee(tool: PianoTool, m: Modifiers) -> bool {
    (m.shift && tool != PianoTool::Draw) || m.control || m.platform || m.alt
}

/// The set holds the note under a point of the grid, and nothing else.
pub open spec fn holds_picked(roll: PianoRoll, notes: Seq<MidiNote>, lx: int, ly: int, s: Set<u64>) -> bool {
    let hits = hit_ids(roll, notes, pick_rect(roll, lx, ly));
    if hits == Set::<u64>::empty() {
        s == Set::<u64>::empty()
    } else {
        exists|id: u64|
            #![trigger hits.contains(id)]
            hits.contains(id) && (forall|other: u64| hits.contains(other) ==> id <= other) && s == set![id]
    }
}

/// An erase gesture has begun.
pub open spec fn erase_begun(pre: PianoRoll, post: PianoRoll, lx: i64, ly: i64, notes: Seq<MidiNote>) -> bool {
    &&& holds_picked(pre, notes, lx as int, ly as int, post.erase_preview_ids@)
    &&& post.drag matches PianoDrag::EraseNotes(e) && e.erased@ == post.erase_preview_ids@ && e == (EraseDrag {
        start_x: lx,
        start_y: ly,
        current_x: lx,
        current_y: ly,
        erased: e.erased,
    })
    &&& post == (PianoRoll { drag: post.drag, erase_preview_ids: post.erase_preview_ids, ..pre })
}

/// Pitch and beat of a note drawn from a point of the grid.
pub open spec fn draw_pitch(roll: PianoRoll, ly: int) -> u8 {
    roll.pitch_map@[pitch_at(ly, roll.scroll_y as int, roll.row_h as int)]
}

/// A draw gesture has begun, and the note sounds.
pub open spec fn draw_begun(
    pre: PianoRoll,
    post: PianoRoll,
    lx: int,
    ly: int,
    shift: bool,
    track_channel: MidiChannel,
    target: Option<PreviewTarget>,
) -> bool {
    let beat = pre.live_beat(lx, shift) as i64;
    &&& note_begun(pre.preview, post.preview, target, draw_pitch(pre, ly))
    &&& post == (PianoRoll {
        drag: PianoDrag::DrawNote(
            DrawDrag {
                pitch: draw_pitch(pre, ly),
                start_beat: beat,
                end_beat: beat,
                unsnap: shift,
                channel: pre.drawing_channel(track_channel),
            },
        ),
        preview: post.preview,
        ..pre
    })
}

/// The grid has been pressed.
pub open spec fn grid_pressed(
    pre: PianoRoll,
    post: PianoRoll,
    p: Pointer,
    clip: Option<&ClipView>,
    track_channel: MidiChannel,
    target: Option<PreviewTarget>,
) -> bool {
    let mid = menus_closed(pre);
    match (local_point(pre.grid_bounds, p.x, p.y), clip) {
        (Some(q), Some(c)) => if wants_marquee(pre.tool, p.modifiers) {
            marquee_begun(mid, post, q.0, q.1, MarqueeSelectionMode::for_modifiers(p.modifiers))
        } else {
            match pre.tool {
                PianoTool::Draw => draw_begun(
                    mid,
                    post,
                    q.0 as int,
                    q.1 as int,
                    p.modifiers.shift,
                    track_channel,
                    target,
                ),
                PianoTool::Select => marquee_begun(mid, post, q.0, q.1, MarqueeSelectionMode::Replace),
                PianoTool::Erase => erase_begun(mid, post, q.0, q.1, c.notes@),
                _ => post == mid,
            }
        },
        _ => post == mid,
    }
}

pub open spec fn grid_press_says(pre: PianoRoll, p: Pointer, clip: Option<&ClipView>, target: Option<PreviewTarget>) -> Seq<
    PreviewMessage,
> {
    match (local_point(pre.grid_bounds, p.x, p.y), clip) {
        (Some(q), Some(_)) => if !wants_marquee(pre.tool, p.modifiers) && pre.tool == PianoTool::Draw {
            pre.preview.begin_messages(target, draw_pitch(pre, q.1 as int), DEFAULT_NOTE_VELOCITY)
        } else {
            Seq::empty()
        },
        _ => Seq::empty(),
    }
}

/// The selection with this note in it: as it was, or the note alone.
pub open spec fn retargeted(selection: Set<u64>, id: u64) -> Set<u64> {
    if selection.contains(id) {
        selection
    } else {
        set![id]
    }
}

/// The menu of a note has been opened; it always acts on the note under it.
pub open spec fn note_menu_opened(pre: PianoRoll, post: PianoRoll, id: u64, lx: i64, ly: i64, editing: bool) -> bool {
    if editing {
        &&& post.selection@ == retargeted(pre.selection@, id)
        &&& post == (PianoRoll {
            selection: post.selection,
            open_velocity_menu: None,
            open_select_menu: None,
            open_note_menu: Some((lx, ly)),
            ..pre
        })
    } else {
        post == pre
    }
}

/// Pitch, velocity and start of a grabbed note.
pub open spec fn grabbed(clip: ClipView, id: u64) -> (u8, u8, i64) {
    match note_with_id(clip.notes@, id) {
        Some(n) => (n.pitch, n.velocity, n.start),
        None => (60, DEFAULT_NOTE_VELOCITY, 0),
    }
}

/// A move gesture has begun, and the grabbed note sounds.
pub open spec fn move_begun(
    pre: PianoRoll,
    post: PianoRoll,
    id: u64,
    p: Pointer,
    clip: Option<&ClipView>,
    target: Option<PreviewTarget>,
) -> bool {
    &&& post.selection@ == retargeted(pre.selection@, id)
    &&& match clip {
        Some(c) => {
            let (pitch, velocity, start) = grabbed(*c, id);
            &&& note_begun(pre.preview, post.preview, target, pitch)
            &&& post.drag matches PianoDrag::Move(d) && d.prev@ == places_of(notes_in(c.notes@, post.selection@)) && d
                == (MoveDrag {
                start_x: p.x,
                start_y: p.y,
                prev: d.prev,
                dx_beats: 0,
                dpitch: 0,
                grab_pitch: pitch,
                anchor_start: start,
                clone_on_commit: p.modifiers.alt,
                unsnap: false,
            })
            &&& post == (PianoRoll { selection: post.selection, drag: post.drag, preview: post.preview, ..pre })
        },
        None => post == (PianoRoll { selection: post.selection, ..pre }),
    }
}

/// A note has been pressed.
pub open spec fn note_pressed(
    pre: PianoRoll,
    post: PianoRoll,
    id: u64,
    p: Pointer,
    clip: Option<&ClipView>,
    target: Option<PreviewTarget>,
    next_id: u64,
) -> bool {
    match pre.tool {
        PianoTool::Erase => note_erased(pre, post, id, clip),
        PianoTool::Mute => post == pre,
        PianoTool::Split => match local_point(pre.grid_bounds, p.x, p.y) {
            Some(q) => note_split(pre, post, clip, id, pre.axis().beat_at(q.0 as int), next_id),
            None => post == pre,
        },
        _ => if p.modifiers.shift || p.modifiers.control || p.modifiers.platform {
            &&& post.selection@ == (if pre.selection@.contains(id) {
                pre.selection@.remove(id)
            } else {
                pre.selection@.insert(id)
            })
            &&& post == (PianoRoll { selection: post.selection, ..pre })
        } else {
            move_begun(pre, post, id, p, clip, target)
        },
    }
}

pub open spec fn note_press_says(
    pre: PianoRoll,
    id: u64,
    p: Pointer,
    clip: Option<&ClipView>,
    target: Option<PreviewTarget>,
) -> Seq<PreviewMessage> {
    match pre.tool {
        PianoTool::Erase => erase_says(pre, id, clip, target),
        PianoTool::Mute | PianoTool::Split => Seq::empty(),
        _ => if p.modifiers.shift || p.modifiers.control || p.modifiers.platform || clip is None {
            Seq::empty()
        } else {
            let (pitch, velocity, start) = grabbed(*clip->0, id);
            pre.preview.begin_messages(target, pitch, velocity)
        },
    }
}

pub open spec fn note_press_asks(pre: PianoRoll, id: u64, p: Pointer, clip: Option<&ClipView>, next_id: u64) -> Option<
    EditView,
> {
    match pre.tool {
        PianoTool::Erase => erase_asks(clip, id),
        PianoTool::Mute => note_mute_asks(clip, id),
        PianoTool::Split => match local_point(pre.grid_bounds, p.x, p.y) {
            Some(q) => split_asks(pre, clip, id, pre.axis().beat_at(q.0 as int), next_id),
            None => None,
        },
        _ => None,
    }
}

/// Id and length of each note.
pub open spec fn lengths_of(notes: Seq<MidiNote>) -> Seq<(u64, i64)> {
    notes.map_values(|n: MidiNote| (n.id, n.duration))
}

/// A resize gesture has begun: of the whole selection where the note is one of
/// several selected, else of the note alone.
pub open spec fn resize_begun(pre: PianoRoll, post: PianoRoll, id: u64, p: Pointer, clip: Option<&ClipView>) -> bool {
    let several = pre.selection@.len() > 1 && pre.selection@.contains(id);
    &&& post.selection@ == (if several {
        pre.selection@
    } else {
        set![id]
    })
    &&& match clip {
        Some(c) => {
            let (start, length) = match note_with_id(c.notes@, id) {
                Some(n) => (n.start, n.duration),
                None => (0i64, pre.step() as i64),
            };
            let lengths = lengths_of(notes_in(c.notes@, post.selection@));
            &&& post.drag matches PianoDrag::Resize(d) && d.prev_durs@ == lengths && d.ids@ == lengths.map_values(
                |l: (u64, i64)| l.0,
            ) && d == (ResizeDrag {
                id,
                ids: d.ids,
                start_x: p.x,
                prev_dur: length,
                prev_durs: d.prev_durs,
                anchor_start: start,
                delta_dur: 0,
                new_dur: length,
                unsnap: p.modifiers.shift,
            })
            &&& post == (PianoRoll { selection: post.selection, drag: post.drag, ..pre })
        },
        None => post == (PianoRoll { selection: post.selection, ..pre }),
    }
}

/// A key of the key lane has been pressed.
pub open spec fn key_pressed(pre: PianoRoll, post: PianoRoll, pitch: u8, target: Option<PreviewTarget>) -> bool {
    &&& note_begun(
        (PreviewState { key_drag: true, key_pressed: Some(pitch), ..pre.preview }),
        post.preview,
        target,
        pitch,
    )
    &&& post == (PianoRoll { preview: post.preview, ..pre })
}

/// The ruler has been pressed.
pub open spec fn ruler_pressed(pre: PianoRoll, post: PianoRoll, p: Pointer, clip: Option<&ClipView>) -> bool {
    match local_point(pre.ruler_bounds, p.x, p.y) {
        Some(q) => sought((PianoRoll { drag: PianoDrag::RulerSeek, ..pre }), post, q.0 as int, clip),
        None => post == pre,
    }
}

fn lengths_and_ids(notes: &Vec<MidiNote>) -> (r: (Vec<(u64, i64)>, Vec<u64>))
    ensures
        r.0@ == lengths_of(notes@),
        r.1@ == lengths_of(notes@).map_values(|l: (u64, i64)| l.0),
{
    let mut lengths: Vec<(u64, i64)> = Vec::new();
    let mut ids: Vec<u64> = Vec::new();
    let mut i: usize = 0;
    while i < notes.len()
        invariant
            i <= notes@.len(),
            lengths@.len() == i,
            ids@.len() == i,
            forall|k: int| 0 <= k < i ==> #[trigger] lengths@[k] == (notes@[k].id, notes@[k].duration),
            forall|k: int| 0 <= k < i ==> #[trigger] ids@[k] == notes@[k].id,
        decreases notes@.len() - i,
    {
        lengths.push((notes[i].id, notes[i].duration));
        ids.push(notes[i].id);
        i = i + 1;
    }
    assert(lengths@ =~= lengths_of(notes@));
    assert(ids@ =~= lengths_of(notes@).map_values(|l: (u64, i64)| l.0));
    (lengths, ids)
}

impl PianoRoll {
    /// Makes the note the selection, unless it is selected.
    pub fn retarget_selection(&mut self, id: u64)
        requires
            old(self).valid(),
        ensures
            final(self).selection@ == retargeted(old(self).selection@, id),
            *final(self) == (PianoRoll { selection: final(self).selection, ..*old(self) }),
            final(self).valid(),
    {
        if !self.selection.contains(id) {
            self.selection = IdSet::single(id);
        }
    }

    /// Begins to erase from a point of the grid.
    fn begin_erase(&mut self, lx: i64, ly: i64, notes: &Vec<MidiNote>)
        requires
            old(self).valid(),
            notes_in_song(notes@),
            on_surface(lx as int) && on_surface(ly as int),
        ensures
            erase_begun(*old(self), *final(self), lx, ly, notes@),
            final(self).valid(),
    {
        let picked = self.note_at_grid(notes, lx, ly);
        let erased = match picked {
            Some(id) => IdSet::single(id),
            None => IdSet::new(),
        };
        self.erase_preview_ids = erased.copy();
        self.drag = PianoDrag::EraseNotes(EraseDrag { start_x: lx, start_y: ly, current_x: lx, current_y: ly, erased });
    }

    /// Begins what the tool and the modifiers make of a press on the grid.
    pub fn on_grid_down(
        &mut self,
        p: Pointer,
        clip: Option<&ClipView>,
        track_channel: MidiChannel,
        target: Option<PreviewTarget>,
    ) -> (o: Outcome)
        requires
            old(self).valid(),
            p.valid(),
            clip_valid(clip),
        ensures
            grid_pressed(*old(self), *final(self), p, clip, track_channel, target),
            o.said() == grid_press_says(*old(self), p, clip, target),
            o.asks() is None,
            final(self).valid(),
    {
        self.open_select_menu = None;
        self.open_note_menu = None;
        let (lx, ly) = match self.grid_local(p.x, p.y) {
            Some(q) => q,
            None => {
                return Outcome::nothing();
            },
        };
        let c = match clip {
            Some(c) => c,
            None => {
                return Outcome::nothing();
            },
        };
        let m = p.modifiers;
        if (m.shift && self.tool != PianoTool::Draw) || m.control || m.platform || m.alt {
            self.begin_marquee_select(lx, ly, MarqueeSelectionMode::from_modifiers(m));
            return Outcome::nothing();
        }
        match self.tool {
            PianoTool::Draw => {
                let row = self.y_to_pitch(ly);
                let pitch = self.pitch_map[row as usize];
                let beat = self.live_beat_at(lx, m.shift);
                let preview = self.preview.begin_preview_note(target, pitch, DEFAULT_NOTE_VELOCITY);
                let channel = self.active_note_channel(track_channel);
                self.drag = PianoDrag::DrawNote(
                    DrawDrag { pitch, start_beat: beat, end_beat: beat, unsnap: m.shift, channel },
                );
                Outcome { preview, edit: None }
            },
            PianoTool::Select => {
                self.begin_marquee_select(lx, ly, MarqueeSelectionMode::Replace);
                Outcome::nothing()
            },
            PianoTool::Erase => {
                self.begin_erase(lx, ly, &c.notes);
                Outcome::nothing()
            },
            _ => Outcome::nothing(),
        }
    }

    /// Begins to erase from a right press on the grid.
    pub fn on_grid_right_down(&mut self, p: Pointer, clip: Option<&ClipView>)
        requires
            old(self).valid(),
            p.valid(),
            clip_valid(clip),
        ensures
            ({
                let mid = PianoRoll { open_note_menu: None, ..*old(self) };
                match (local_point(old(self).grid_bounds, p.x, p.y), clip) {
                    (Some(q), Some(c)) => erase_begun(mid, *final(self), q.0, q.1, c.notes@),
                    _ => *final(self) == mid,
                }
            }),
            final(self).valid(),
    {
        self.open_note_menu = None;
        match (self.grid_local(p.x, p.y), clip) {
            (Some(q), Some(c)) => {
                self.begin_erase(q.0, q.1, &c.notes);
            },
            _ => {},
        }
    }

    /// Opens the menu of a note.
    pub fn note_right_down(&mut self, id: u64, lx: i64, ly: i64, editing: bool)
        requires
            old(self).valid(),
        ensures
            note_menu_opened(*old(self), *final(self), id, lx, ly, editing),
            final(self).valid(),
    {
        if !editing {
            return ;
        }
        self.retarget_selection(id);
        self.open_velocity_menu = None;
        self.open_select_menu = None;
        self.open_note_menu = Some((lx, ly));
    }

    fn begin_move(&mut self, id: u64, p: Pointer, clip: Option<&ClipView>, target: Option<PreviewTarget>) -> (o: Outcome)
        requires
            old(self).valid(),
            p.valid(),
            clip_valid(clip),
        ensures
            move_begun(*old(self), *final(self), id, p, clip, target),
            o.said() == (match clip {
                Some(c) => old(self).preview.begin_messages(target, grabbed(*c, id).0, grabbed(*c, id).1),
                None => Seq::empty(),
            }),
            o.asks() is None,
            final(self).valid(),
    {
        self.retarget_selection(id);
        let c = match clip {
            Some(c) => c,
            None => {
                return Outcome::nothing();
            },
        };
        let (pitch, velocity, start) = match find_note(&c.notes, id) {
            Some(n) => {
                proof {
                    let k = choose|k: int| 0 <= k < c.notes@.len() && c.notes@[k] == n;
                    assert(crate::drag::note_in_song(c.notes@[k]));
                }
                (n.pitch, n.velocity, n.start)
            },
            None => (60u8, DEFAULT_NOTE_VELOCITY, 0i64),
        };
        let prev = snapshot_places(&c.notes, &self.selection);
        proof {
            lemma_places_in_song(c.notes@, self.selection@);
        }
        self.drag = PianoDrag::Move(
            MoveDrag {
                start_x: p.x,
                start_y: p.y,
                prev,
                dx_beats: 0,
                dpitch: 0,
                grab_pitch: pitch,
                anchor_start: start,
                clone_on_commit: p.modifiers.alt,
                unsnap: false,
            },
        );
        let preview = self.preview.begin_preview_note(target, pitch, velocity);
        Outcome { preview, edit: None }
    }

    /// Does what the tool and the modifiers make of a press on a note.
    pub fn note_mouse_down(
        &mut self,
        id: u64,
        p: Pointer,
        clip: Option<&ClipView>,
        target: Option<PreviewTarget>,
        next_id: u64,
    ) -> (o: Outcome)
        requires
            old(self).valid(),
            p.valid(),
            clip_valid(clip),
            next_id <= ID_LIMIT,
        ensures
            note_pressed(*old(self), *final(self), id, p, clip, target, next_id),
            o.said() == note_press_says(*old(self), id, p, clip, target),
            o.asks() == note_press_asks(*old(self), id, p, clip, next_id),
            final(self).valid(),
    {
        match self.tool {
            PianoTool::Erase => {
                return self.erase_note(id, clip, target);
            },
            PianoTool::Mute => {
                return Outcome::of_edit(self.mute_note(id, clip));
            },
            PianoTool::Split => {
                return match self.grid_local(p.x, p.y) {
                    Some(q) => {
                        let beat = self.x_to_clip_beat(q.0);
                        Outcome::of_edit(self.split_note_at(id, beat, clip, next_id))
                    },
                    None => Outcome::nothing(),
                };
            },
            _ => {},
        }
        if p.modifiers.shift || p.modifiers.control || p.modifiers.platform {
            self.selection.toggle(id);
            return Outcome::nothing();
        }
        self.begin_move(id, p, clip, target)
    }

    /// Begins to resize from the right edge of a note.
    pub fn begin_resize_drag(&mut self, id: u64, p: Pointer, clip: Option<&ClipView>)
        requires
            old(self).valid(),
            p.valid(),
            clip_valid(clip),
        ensures
            resize_begun(*old(self), *final(self), id, p, clip),
            final(self).valid(),
    {
        let several = self.selection.len() > 1 && self.selection.contains(id);
        if !several {
            self.selection = IdSet::single(id);
        }
        let c = match clip {
            Some(c) => c,
            None => {
                return ;
            },
        };
        let held = snapshot_notes(&c.notes, &self.selection);
        proof {
            lemma_places_in_song(c.notes@, self.selection@);
        }
        let (prev_durs, ids) = lengths_and_ids(&held);
        let (anchor_start, prev_dur) = match find_note(&c.notes, id) {
            Some(n) => {
                proof {
                    let k = choose|k: int| 0 <= k < c.notes@.len() && c.notes@[k] == n;
                    assert(crate::drag::note_in_song(c.notes@[k]));
                }
                (n.start, n.duration)
            },
            None => (0i64, self.step_beats()),
        };
        self.drag = PianoDrag::Resize(
            ResizeDrag {
                id,
                ids,
                start_x: p.x,
                prev_dur,
                prev_durs,
                anchor_start,
                delta_dur: 0,
                new_dur: prev_dur,
                unsnap: p.modifiers.shift,
            },
        );
    }

    /// Begins a scrub over the keys.
    pub fn key_down(&mut self, pitch: u8, target: Option<PreviewTarget>) -> (o: Outcome)
        requires
            old(self).valid(),
        ensures
            key_pressed(*old(self), *final(self), pitch, target),
            o.said() == old(self).preview.begin_messages(target, pitch, DEFAULT_NOTE_VELOCITY),
            o.asks() is None,
            final(self).valid(),
    {
        self.preview.key_drag = true;
        self.preview.key_pressed = Some(pitch);
        let preview = self.preview.begin_preview_note(target, pitch, DEFAULT_NOTE_VELOCITY);
        Outcome { preview, edit: None }
    }

    /// Begins to drag the playhead along the ruler.
    pub fn ruler_down(&mut self, p: Pointer, clip: Option<&ClipView>) -> (edit: Option<RollEdit>)
        requires
            old(self).valid(),
            p.valid(),
            clip_valid(clip),
        ensures
            ruler_pressed(*old(self), *final(self), p, clip),
            asked(edit) == (match local_point(old(self).ruler_bounds, p.x, p.y) {
                Some(q) => seek_asks(*old(self), q.0 as int, clip),
                None => None,
            }),
            final(self).valid(),
    {
        match self.ruler_local(p.x, p.y) {
            Some(q) => {
                self.drag = PianoDrag::RulerSeek;
                self.seek_ruler_at(q.0, clip)
            },
            None => None,
        }
    }

    /// Begins to pan the grid; another gesture is given up first.
    pub fn begin_pan(&mut self, p: Pointer, clip: Option<&ClipView>, target: Option<PreviewTarget>) -> (o: Outcome)
        requires
            old(self).valid(),
            p.valid(),
            clip_valid(clip),
        ensures
            old(self).drag is Idle || old(self).drag is Pan ==> o.silent() && *final(self) == (PianoRoll {
                drag: PianoDrag::Pan(p.x, p.y),
                ..*old(self)
            }),
            !(old(self).drag is Idle || old(self).drag is Pan) ==> {
                &&& o.said() == silence(*old(self), target)
                &&& o.asks() == undo_of(*old(self), clip)
                &&& final(self).drag == PianoDrag::Pan(p.x, p.y)
                &&& cancelled(*old(self), (PianoRoll { drag: PianoDrag::Idle, ..*final(self) }))
            },
            final(self).valid(),
    {
        let free = match &self.drag {
            PianoDrag::Idle => true,
            PianoDrag::Pan(_, _) => true,
            _ => false,
        };
        let o = if free {
            Outcome::nothing()
        } else {
            self.cancel_active_gesture(clip, target)
        };
        let ghost mid = *self;
        self.drag = PianoDrag::Pan(p.x, p.y);
        assert(!free ==> mid == (PianoRoll { drag: PianoDrag::Idle, ..*self }));
        o
    }
}

proof fn lemma_places_in_song(notes: Seq<MidiNote>, ids: Set<u64>)
    requires
        notes_in_song(notes),
    ensures
        notes_in(notes, ids).len() <= crate::fixed::COUNT_LIMIT,
        forall|i: int|
            0 <= i < notes_in(notes, ids).len() ==> crate::drag::note_in_song(#[trigger] notes_in(notes, ids)[i]),
        forall|i: int|
            0 <= i < places_of(notes_in(notes, ids)).len() ==> crate::drag::in_song(
                (#[trigger] places_of(notes_in(notes, ids))[i]).start as int,
            ) && places_of(notes_in(notes, ids))[i].pitch <= 127,
{
    let p = |n: MidiNote| ids.contains(n.id);
    let s = notes_in(notes, ids);
    notes.lemma_filter_len(p);
    assert forall|i: int| 0 <= i < s.len() implies crate::drag::note_in_song(#[trigger] s[i]) by {
        notes.lemma_filter_contains_rev(p, s[i]);
    }
    assert forall|i: int| 0 <= i < places_of(s).len() implies crate::drag::in_song(
        (#[trigger] places_of(s)[i]).start as int,
    ) && places_of(s)[i].pitch <= 127 by {
        assert(crate::drag::note_in_song(s[i]));
    }
}

/// A pressed note is dragged along with the selection that it belongs to, else
/// alone; the drag starts where every note is, and alt makes it a copy.
pub proof fn law_a_grabbed_note_takes_its_selection_along(
    pre: PianoRoll,
    post: PianoRoll,
    id: u64,
    p: Pointer,
    clip: &ClipView,
    target: Option<PreviewTarget>,
)
    requires
        move_begun(pre, post, id, p, Some(clip), target),
    ensures
        post.selection@.contains(id),
        pre.selection@.contains(id) ==> post.selection@ == pre.selection@,
        !pre.selection@.contains(id) ==> forall|other: u64| #[trigger]
            post.selection@.contains(other) ==> other == id,
        post.drag matches PianoDrag::Move(d) && {
            let chosen = notes_in(clip.notes@, post.selection@);
            &&& d.dx_beats == 0 && d.dpitch == 0
            &&& d.start_x == p.x && d.start_y == p.y
            &&& d.clone_on_commit == p.modifiers.alt
            &&& d.prev@.len() == chosen.len()
            &&& forall|k: int|
                0 <= k < chosen.len() ==> (#[trigger] d.prev@[k]).id == chosen[k].id && d.prev@[k].start
                    == chosen[k].start && d.prev@[k].pitch == chosen[k].pitch
        },
{
}

/// A drawn note begins at the beat and in the row under the pointer.
pub proof fn law_drawing_begins_under_the_pointer(
    pre: PianoRoll,
    post: PianoRoll,
    lx: int,
    ly: int,
    shift: bool,
    track_channel: MidiChannel,
    target: Option<PreviewTarget>,
)
    requires
        draw_begun(pre, post, lx, ly, shift, track_channel, target),
        0 <= pre.axis().beat_at(lx) <= crate::fixed::POSITION_LIMIT,
        0 <= pre.snap_step(shift) <= 4 * crate::fixed::TICKS_PER_BEAT,
    ensures
        post.drag matches PianoDrag::DrawNote(d) && {
            let under = pre.axis().beat_at(lx);
            let step = pre.snap_step(shift);
            &&& d.start_beat == d.end_beat
            &&& step == 0 ==> d.start_beat == under
            &&& step > 0 ==> d.start_beat as int % step == 0 && -step <= 2 * (d.start_beat - under) <= step
            &&& d.pitch == pre.pitch_map@[pitch_at(ly, pre.scroll_y as int, pre.row_h as int)]
            &&& d.unsnap == shift
        },
        post.selection == pre.selection,
{
    crate::grid::law_snapped_beats_are_on_the_grid(pre.axis().beat_at(lx), pre.snap_step(shift));
}

/// A resize starts with the length of every note that it is about.
pub proof fn law_a_resize_starts_with_every_length(
    pre: PianoRoll,
    post: PianoRoll,
    id: u64,
    p: Pointer,
    clip: &ClipView,
)
    requires
        resize_begun(pre, post, id, p, Some(clip)),
    ensures
        post.selection@.contains(id),
        post.drag matches PianoDrag::Resize(d) && {
            let chosen = notes_in(clip.notes@, post.selection@);
            &&& d.id == id
            &&& d.delta_dur == 0 && d.new_dur == d.prev_dur
            &&& note_with_id(clip.notes@, id) matches Some(n) ==> d.anchor_start == n.start && d.prev_dur == n.duration
            &&& d.prev_durs@.len() == chosen.len()
            &&& forall|k: int|
                0 <= k < chosen.len() ==> (#[trigger] d.prev_durs@[k]).0 == chosen[k].id && d.prev_durs@[k].1
                    == chosen[k].duration
        },
{
}

} // verus!
