//! The pointer moves: what each gesture makes of it.

use crate::drag::{
    in_window, notes_in_song, on_surface, points_in_song, CcLineDrag, CcMoveDrag, CcPaintDrag, DrawDrag, EraseDrag,
    LineDrag, MoveDrag, PianoDrag, ResizeDrag,
};
use crate::fixed::{
    clamp_i64, clamp_to, lemma_nearest_bound, max_i64, max_of, nearest, nearest_div, ID_LIMIT, POSITION_LIMIT,
    TICKS_PER_BEAT,
};
use crate::gesture::{cc_select_moved, marquee_moved, velocity_select_moved};
use crate::hit::{hit_ids, id_meets};
use crate::lane_motion::{
    cc_line_asks, cc_lined, cc_move_asks, cc_points_moved, cc_stroke_asks, cc_stroked, event_move_asks, event_moved,
    line_asks, paint_asks, status_is, velocity_drag_asks, velocity_dragged, velocity_lined, velocity_painted,
};
use crate::lanes::PianoTool;
use crate::marquee::{Marquee, MarqueeSelectionMode, Modifiers};
use crate::midi::{MidiControllerPoint, MidiNote, ARTICULATION_COUNT, DEFAULT_NOTE_VELOCITY};
use crate::note_edits::{drag_length, drag_pitch, dragged_length, dragged_pitch};
use crate::preview::{PreviewMessage, PreviewNote, PreviewState, PreviewTarget};
use crate::rect::{normalized_marquee_rect, Rect};
use crate::roll::{clip_valid, local_point, ClipView, PianoRoll};
use crate::roll_edit::{asked, EditView, Outcome, RollEdit};
use crate::status::{seek_status, seek_text};
use crate::velocity_lane::Stroke;
use crate::viewport::pitch_at;
use vstd::prelude::*;

verus! {

#[derive(Debug, Clone, Copy, PartialEq, Eq, Structural)]
pub enum MouseButton {
    Left,
    Right,
    Middle,
}

/// The pointer at a place in the window.
#[derive(Debug, Clone, Copy, PartialEq, Eq, Structural)]
pub struct Pointer {
    pub x: i64,
    pub y: i64,
    pub modifiers: Modifiers,
    /// The button held down.
    pub button: Option<MouseButton>,
}

impl Pointer {
    pub open spec fn valid(self) -> bool {
        in_window(self.x as int) && in_window(self.y as int)
    }
}

/// What a gesture reads besides the roll itself.
pub struct Around<'a> {
    /// The clip being edited.
    pub clip: Option<&'a ClipView>,
    /// Notes of the clip that the gesture belongs to.
    pub own_notes: &'a Vec<MidiNote>,
    /// Points of the clip and controller that the gesture belongs to.
    pub own_points: &'a Vec<MidiControllerPoint>,
    /// Names of the articulations.
    pub names: &'a Vec<String>,
    /// Where new ids start.
    pub next_id: u64,
}

impl<'a> Around<'a> {
    pub open spec fn valid(self) -> bool {
        &&& clip_valid(self.clip)
        &&& notes_in_song(self.own_notes@)
        &&& points_in_song(self.own_points@)
        &&& self.names@.len() == ARTICULATION_COUNT
        &&& self.next_id <= ID_LIMIT
    }
}

/// A note has begun to sound in the place of the one before.
pub open spec fn note_begun(pre: PreviewState, post: PreviewState, target: Option<PreviewTarget>, pitch: u8) -> bool {
    &&& match target {
        Some(t) => if pre.connected {
            post.active is Some && post.active->0.note() == (PreviewNote { track: t.track_id@, channel: t.channel, pitch })
        } else {
            post.active is None
        },
        None => post.active is None,
    }
    &&& post == (PreviewState { active: post.active, ..pre })
}

/// The pointer with a key held is over a key, or over none.
pub open spec fn key_dragged(pre: PianoRoll, post: PianoRoll, key: Option<u8>, target: Option<PreviewTarget>) -> bool {
    match key {
        Some(pitch) => if pre.preview.key_pressed == Some(pitch) {
            post == pre
        } else {
            &&& note_begun(
                pre.preview,
                (PreviewState { key_pressed: pre.preview.key_pressed, ..post.preview }),
                target,
                pitch,
            )
            &&& post.preview.key_pressed == Some(pitch)
            &&& post == (PianoRoll { preview: post.preview, ..pre })
        },
        None => if pre.preview.key_pressed is Some {
            post == (PianoRoll { preview: PreviewState { active: None, key_pressed: None, ..pre.preview }, ..pre })
        } else {
            post == pre
        },
    }
}

pub open spec fn key_drag_says(pre: PianoRoll, key: Option<u8>, target: Option<PreviewTarget>) -> Seq<PreviewMessage> {
    match key {
        Some(pitch) => if pre.preview.key_pressed == Some(pitch) {
            Seq::empty()
        } else {
            pre.preview.begin_messages(target, pitch, DEFAULT_NOTE_VELOCITY)
        },
        None => if pre.preview.key_pressed is Some {
            pre.preview.end_messages()
        } else {
            Seq::empty()
        },
    }
}

/// Beat within the clip that a point of the ruler stands for.
pub open spec fn ruler_beat(roll: PianoRoll, clip: ClipView, lx: int) -> int {
    clamp_to(roll.axis().beat_at(lx), 0, max_of(clip.duration as int, 0))
}

/// The playhead has been sent to a point of the ruler.
pub open spec fn sought(pre: PianoRoll, post: PianoRoll, lx: int, clip: Option<&ClipView>) -> bool {
    match clip {
        Some(c) => {
            let beat = ruler_beat(pre, *c, lx);
            &&& status_is(post, seek_text(c.start + beat))
            &&& post == (PianoRoll {
                hover_beat: Some(beat as i64),
                drag_value_status: post.drag_value_status,
                ..pre
            })
        },
        None => post == pre,
    }
}

pub open spec fn seek_asks(pre: PianoRoll, lx: int, clip: Option<&ClipView>) -> Option<EditView> {
    match clip {
        Some(c) => Some(EditView::Seek(c.start + ruler_beat(pre, *c, lx))),
        None => None,
    }
}

/// The roll with the beat and pitch under the pointer.
pub open spec fn hovered(pre: PianoRoll, x: i64, y: i64) -> PianoRoll {
    match local_point(pre.grid_bounds, x, y) {
        Some(p) => PianoRoll {
            hover_beat: Some(pre.axis().beat_at(p.0 as int) as i64),
            hover_pitch: Some(pitch_at(p.1 as int, pre.scroll_y as int, pre.row_h as int) as u8),
            ..pre
        },
        None => pre,
    }
}

/// The rectangle of an erase gesture.
pub open spec fn erase_area(roll: PianoRoll, d: EraseDrag, lx: i64, ly: i64) -> Rect {
    Marquee {
        start_x: d.start_x,
        start_y: d.start_y,
        current_x: lx,
        current_y: ly,
        mode: MarqueeSelectionMode::Add,
        dragging: true,
    }.area(roll.grid_size().0, roll.grid_size().1)
}

/// The erase gesture has marked what its rectangle touches.
pub open spec fn erase_swept(pre: PianoRoll, post: PianoRoll, lx: i64, ly: i64, notes: Seq<MidiNote>) -> bool {
    match pre.drag {
        PianoDrag::EraseNotes(d) => {
            let marked = d.erased@.union(hit_ids(pre, notes, erase_area(pre, d, lx, ly)));
            &&& post.drag matches PianoDrag::EraseNotes(e) && e.erased@ == marked && e == (EraseDrag {
                current_x: lx,
                current_y: ly,
                erased: e.erased,
                ..d
            })
            &&& post.erase_preview_ids@ == marked
            &&& post == (PianoRoll { drag: post.drag, erase_preview_ids: post.erase_preview_ids, ..pre })
        },
        _ => post == pre,
    }
}

/// The grid has followed the pointer that holds it.
pub open spec fn panned(pre: PianoRoll, x: i64, y: i64) -> PianoRoll {
    match pre.drag {
        PianoDrag::Pan(last_x, last_y) => PianoRoll {
            drag: PianoDrag::Pan(x, y),
            scroll_x: clamp_to(pre.scroll_x - (x - last_x), 0, pre.farthest_x()) as i64,
            scroll_y: clamp_to(pre.scroll_y - (y - last_y), 0, pre.farthest_y(pre.grid_size().1)) as i64,
            ..pre
        },
        _ => pre,
    }
}

/// The drawn note ends at the pointer.
pub open spec fn draw_moved(pre: PianoRoll, d: DrawDrag, at: Option<(i64, i64)>, shift: bool) -> PianoRoll {
    let end_beat = match at {
        Some(p) => pre.live_beat(p.0 as int, shift) as i64,
        None => d.end_beat,
    };
    PianoRoll { drag: PianoDrag::DrawNote(DrawDrag { unsnap: shift, end_beat, ..d }), ..pre }
}

/// Ticks that a distance on screen covers.
pub open spec fn ticks_across(dx: int, ppb: int) -> int {
    nearest(dx * TICKS_PER_BEAT, ppb)
}

fn ticks_of(dx: i64, ppb: i64) -> (t: i64)
    requires
        on_surface(dx as int),
        1_000_000 <= ppb <= 400_000_000,
    ensures
        t == ticks_across(dx as int, ppb as int),
        on_surface(t as int),
{
    let q = nearest_div(dx as i128 * 960_000, ppb as i128);
    proof {
        lemma_nearest_bound(dx * 960_000, ppb as int);
        assert(-137_438_953_472 <= q <= 137_438_953_472) by (nonlinear_arith)
            requires
                -ppb <= 2 * (q * ppb - dx * 960_000) <= ppb,
                ppb >= 1_000_000,
                -137_438_953_472 <= dx <= 137_438_953_472,
        ;
    }
    q as i64
}

/// Semitones that a distance on screen covers, upwards.
pub open spec fn semitones_across(dy: int, row_h: int) -> int {
    -nearest(dy, row_h)
}

fn semitones_of(dy: i64, row_h: i64) -> (s: i32)
    requires
        on_surface(dy as int),
        6_000_000 <= row_h <= 200_000_000,
    ensures
        s == semitones_across(dy as int, row_h as int),
        -100_000 <= s <= 100_000,
{
    let q = nearest_div(dy as i128, row_h as i128);
    proof {
        lemma_nearest_bound(dy as int, row_h as int);
        assert(-100_000 <= q <= 100_000) by (nonlinear_arith)
            requires
                -row_h <= 2 * (q * row_h - dy) <= row_h,
                row_h >= 6_000_000,
                -137_438_953_472 <= dy <= 137_438_953_472,
        ;
    }
    -(q as i32)
}

/// A move gesture at a place in the window.
pub open spec fn move_at(roll: PianoRoll, d: MoveDrag, x: int, y: int, shift: bool) -> MoveDrag {
    MoveDrag {
        dx_beats: ticks_across(x - d.start_x, roll.ppb as int) as i64,
        dpitch: semitones_across(y - d.start_y, roll.row_h as int) as i32,
        unsnap: shift,
        ..d
    }
}

/// The pitch heard while notes move.
pub open spec fn audition(roll: PianoRoll, d: MoveDrag) -> u8 {
    dragged_pitch(roll.pitch_map@, d.grab_pitch as int, d.dpitch as int)
}

/// The pitch is not the one that sounds.
pub open spec fn unheard(preview: PreviewState, pitch: u8) -> bool {
    match preview.active {
        Some(a) => a.pitch != pitch,
        None => true,
    }
}

/// The moved notes have followed the pointer. A move in time alone starts no
/// sound anew.
pub open spec fn notes_moved(
    pre: PianoRoll,
    post: PianoRoll,
    d: MoveDrag,
    p: Pointer,
    target: Option<PreviewTarget>,
) -> bool {
    let next = move_at(pre, d, p.x as int, p.y as int, p.modifiers.shift);
    &&& post == (PianoRoll { drag: PianoDrag::Move(next), preview: post.preview, ..pre })
    &&& if unheard(pre.preview, audition(pre, next)) {
        note_begun(pre.preview, post.preview, target, audition(pre, next))
    } else {
        post.preview == pre.preview
    }
}

pub open spec fn notes_moved_says(pre: PianoRoll, d: MoveDrag, p: Pointer, target: Option<PreviewTarget>) -> Seq<
    PreviewMessage,
> {
    let next = move_at(pre, d, p.x as int, p.y as int, p.modifiers.shift);
    if unheard(pre.preview, audition(pre, next)) {
        pre.preview.begin_messages(target, audition(pre, next), DEFAULT_NOTE_VELOCITY)
    } else {
        Seq::empty()
    }
}

/// A resize gesture at a place in the window: the right edge snaps, and every
/// note gets the same difference.
pub open spec fn resize_at(roll: PianoRoll, d: ResizeDrag, x: int, shift: bool) -> ResizeDrag {
    let length = dragged_length(
        d.anchor_start as int,
        d.prev_dur as int,
        ticks_across(x - d.start_x, roll.ppb as int),
        roll.snap_step(shift),
    );
    ResizeDrag { unsnap: shift, delta_dur: (length - d.prev_dur) as i64, new_dur: length as i64, ..d }
}

/// The roll after the pointer has moved.
pub open spec fn moved(pre: PianoRoll, post: PianoRoll, p: Pointer, a: Around, target: Option<PreviewTarget>) -> bool {
    if pre.preview.key_drag {
        key_dragged(pre, post, pre.key_under(p.x, p.y), target)
    } else if pre.drag is RulerSeek {
        match local_point(pre.ruler_bounds, p.x, p.y) {
            Some(q) => sought(pre, post, q.0 as int, a.clip),
            None => post == pre,
        }
    } else {
        let mid = hovered(pre, p.x, p.y);
        match pre.drag {
            PianoDrag::VelocityPaint(_) | PianoDrag::VelocityLine(_) | PianoDrag::VelocitySelect(_, _)
            | PianoDrag::CcSelect(_, _, _) | PianoDrag::CcPaint(_) | PianoDrag::CcMove(_) | PianoDrag::CcLine(_)
            | PianoDrag::ArtMove(_) => lane_moved(mid, post, p, a),
            _ => grid_moved(mid, post, p, a, target),
        }
    }
}

/// A gesture of the lane has followed the pointer.
pub open spec fn lane_moved(mid: PianoRoll, post: PianoRoll, p: Pointer, a: Around) -> bool {
    let keyed = rekeyed(mid, p.modifiers);
    match local_point(mid.lane_bounds, p.x, p.y) {
        None => post == keyed,
        Some(q) => match keyed.drag {
            PianoDrag::VelocityPaint(d) => velocity_painted(
                keyed,
                post,
                (Stroke { from_x: d.last_x, from_y: d.last_y, to_x: q.0, to_y: q.1 }),
            ),
            PianoDrag::VelocityLine(_) => velocity_lined(keyed, post, q.0 as int, q.1 as int),
            PianoDrag::VelocitySelect(_, _) => velocity_select_moved(keyed, post, q.0, q.1, a.own_notes@),
            PianoDrag::CcSelect(_, _, _) => cc_select_moved(keyed, post, q.0, q.1, a.own_points@),
            PianoDrag::CcPaint(_) => cc_stroked(keyed, post, q.0, q.1, a.clip),
            PianoDrag::CcMove(_) => cc_points_moved(keyed, post, q.0 as int, q.1 as int, a.clip),
            PianoDrag::CcLine(_) => cc_lined(keyed, post, q.0 as int, q.1 as int, a.clip),
            PianoDrag::ArtMove(_) => event_moved(keyed, post, q.0 as int, a.clip, a.names@),
            _ => post == keyed,
        },
    }
}

/// The roll with the live modifiers of a lane gesture.
pub open spec fn rekeyed(mid: PianoRoll, m: Modifiers) -> PianoRoll {
    match mid.drag {
        PianoDrag::VelocityLine(d) => PianoRoll {
            drag: PianoDrag::VelocityLine(LineDrag { unsnap: m.shift, ..d }),
            ..mid
        },
        PianoDrag::CcPaint(d) => PianoRoll { drag: PianoDrag::CcPaint(CcPaintDrag { unsnap: m.alt, ..d }), ..mid },
        PianoDrag::CcMove(d) => PianoRoll {
            drag: PianoDrag::CcMove(CcMoveDrag { unsnap: m.alt || m.shift, ..d }),
            ..mid
        },
        PianoDrag::CcLine(d) => PianoRoll {
            drag: PianoDrag::CcLine(
                CcLineDrag { unsnap: m.alt || (mid.tool == PianoTool::Line && m.shift), ..d },
            ),
            ..mid
        },
        _ => mid,
    }
}

/// A gesture of the grid has followed the pointer.
pub open spec fn grid_moved(mid: PianoRoll, post: PianoRoll, p: Pointer, a: Around, target: Option<PreviewTarget>) -> bool {
    let at = local_point(mid.grid_bounds, p.x, p.y);
    if p.button == Some(MouseButton::Right) {
        match (at, a.clip) {
            (Some(q), Some(c)) => erase_swept(mid, post, q.0, q.1, c.notes@),
            _ => post == mid,
        }
    } else if mid.drag is Pan {
        if p.button == Some(MouseButton::Middle) {
            post == panned(mid, p.x, p.y)
        } else {
            post == (PianoRoll { drag: PianoDrag::Idle, ..mid })
        }
    } else if p.button != Some(MouseButton::Left) {
        post == mid
    } else {
        match mid.drag {
            PianoDrag::DrawNote(d) => post == draw_moved(mid, d, at, p.modifiers.shift),
            PianoDrag::MarqueeSelect(_) => match (at, a.clip) {
                (Some(q), Some(c)) => marquee_moved(mid, post, q.0 as int, q.1 as int, c.notes@),
                _ => post == mid,
            },
            PianoDrag::Move(d) => notes_moved(mid, post, d, p, target),
            PianoDrag::Resize(d) => post == (PianoRoll {
                drag: PianoDrag::Resize(resize_at(mid, d, p.x as int, p.modifiers.shift)),
                ..mid
            }),
            PianoDrag::Velocity(_) => velocity_dragged(mid, post, p.y as int, p.modifiers.alt, p.modifiers.shift),
            PianoDrag::EraseNotes(_) => match (at, a.clip) {
                (Some(q), Some(c)) => erase_swept(mid, post, q.0, q.1, c.notes@),
                _ => post == mid,
            },
            _ => post == mid,
        }
    }
}

/// What the moved pointer says to the instrument.
pub open spec fn move_says(pre: PianoRoll, p: Pointer, target: Option<PreviewTarget>) -> Seq<PreviewMessage> {
    if pre.preview.key_drag {
        key_drag_says(pre, pre.key_under(p.x, p.y), target)
    } else {
        match pre.drag {
            PianoDrag::Move(d) => if p.button == Some(MouseButton::Left) {
                notes_moved_says(pre, d, p, target)
            } else {
                Seq::empty()
            },
            _ => Seq::empty(),
        }
    }
}

/// What the moved pointer asks of the timeline.
pub open spec fn move_asks(pre: PianoRoll, p: Pointer, a: Around) -> Option<EditView> {
    if pre.preview.key_drag {
        None
    } else if pre.drag is RulerSeek {
        match local_point(pre.ruler_bounds, p.x, p.y) {
            Some(q) => seek_asks(pre, q.0 as int, a.clip),
            None => None,
        }
    } else {
        let mid = hovered(pre, p.x, p.y);
        match pre.drag {
            PianoDrag::Velocity(_) => if p.button == Some(MouseButton::Left) {
                velocity_drag_asks(mid, p.y as int, p.modifiers.alt, p.modifiers.shift)
            } else {
                None
            },
            _ => lane_asks(mid, p, a),
        }
    }
}

pub open spec fn lane_asks(mid: PianoRoll, p: Pointer, a: Around) -> Option<EditView> {
    let keyed = rekeyed(mid, p.modifiers);
    match local_point(mid.lane_bounds, p.x, p.y) {
        None => None,
        Some(q) => match keyed.drag {
            PianoDrag::VelocityPaint(d) => paint_asks(
                keyed,
                (Stroke { from_x: d.last_x, from_y: d.last_y, to_x: q.0, to_y: q.1 }),
            ),
            PianoDrag::VelocityLine(_) => line_asks(keyed, q.0 as int, q.1 as int),
            PianoDrag::CcPaint(_) => cc_stroke_asks(keyed, q.0, q.1, a.clip, a.next_id),
            PianoDrag::CcMove(_) => cc_move_asks(keyed, q.0 as int, q.1 as int, a.clip),
            PianoDrag::CcLine(_) => cc_line_asks(keyed, q.0 as int, q.1 as int, a.clip, a.next_id),
            PianoDrag::ArtMove(_) => event_move_asks(keyed, q.0 as int, a.clip),
            _ => None,
        },
    }
}

/// Moving the pointer records nothing: every change it asks for is live, or a
/// seek.
pub proof fn law_moves_are_live(pre: PianoRoll, p: Pointer, a: Around)
    ensures
        match move_asks(pre, p, a) {
            None => true,
            Some(EditView::LiveVelocities(_, _)) => true,
            Some(EditView::LivePoints(_, _, _)) => true,
            Some(EditView::LiveMovePoints(_, _, _)) => true,
            Some(EditView::LiveMoveEvent(_, _, _)) => true,
            Some(EditView::Seek(_)) => true,
            _ => false,
        },
{
}

/// A move of the pointer without a sounding note or a held key is silent.
pub proof fn law_only_keys_and_moved_notes_sound(pre: PianoRoll, p: Pointer, target: Option<PreviewTarget>)
    requires
        !pre.preview.key_drag,
        !(pre.drag is Move),
    ensures
        move_says(pre, p, target) == Seq::<PreviewMessage>::empty(),
{
}

impl PianoRoll {
    /// Sends the playhead to a point of the ruler.
    pub fn seek_ruler_at(&mut self, lx: i64, clip: Option<&ClipView>) -> (edit: Option<RollEdit>)
        requires
            old(self).valid(),
            clip_valid(clip),
            on_surface(lx as int),
        ensures
            sought(*old(self), *final(self), lx as int, clip),
            asked(edit) == seek_asks(*old(self), lx as int, clip),
            final(self).valid(),
    {
        let c = match clip {
            Some(c) => c,
            None => {
                return None;
            },
        };
        let rel = clamp_i64(self.x_to_clip_beat(lx), 0, max_i64(c.duration, 0));
        let beat: i64 = c.start + rel;
        self.hover_beat = Some(rel);
        self.drag_value_status = Some(seek_status(beat));
        Some(RollEdit::Seek { beat })
    }

    /// Auditions the key under the pointer while a key is held; a new sound
    /// starts only when the key changes.
    fn drag_key(&mut self, key: Option<u8>, target: Option<PreviewTarget>) -> (o: Outcome)
        requires
            old(self).valid(),
        ensures
            key_dragged(*old(self), *final(self), key, target),
            o.said() == key_drag_says(*old(self), key, target),
            o.asks() is None,
            final(self).valid(),
    {
        match key {
            Some(pitch) => {
                if self.preview.key_pressed == Some(pitch) {
                    return Outcome::nothing();
                }
                let preview = self.preview.begin_preview_note(target, pitch, DEFAULT_NOTE_VELOCITY);
                self.preview.key_pressed = Some(pitch);
                Outcome { preview, edit: None }
            },
            None => {
                if self.preview.key_pressed.is_none() {
                    return Outcome::nothing();
                }
                self.preview.key_pressed = None;
                let preview = self.preview.end_preview_note();
                Outcome { preview, edit: None }
            },
        }
    }

    fn hover(&mut self, x: i64, y: i64)
        requires
            old(self).valid(),
            in_window(x as int) && in_window(y as int),
        ensures
            *final(self) == hovered(*old(self), x, y),
            final(self).valid(),
    {
        match self.grid_local(x, y) {
            Some(p) => {
                self.hover_beat = Some(self.x_to_clip_beat(p.0));
                self.hover_pitch = Some(self.y_to_pitch(p.1));
            },
            None => {},
        }
    }

    fn rekey(&mut self, m: Modifiers)
        requires
            old(self).valid(),
        ensures
            *final(self) == rekeyed(*old(self), m),
            final(self).valid(),
    {
        let line_tool = self.tool == PianoTool::Line;
        match &mut self.drag {
            PianoDrag::VelocityLine(d) => {
                d.unsnap = m.shift;
            },
            PianoDrag::CcPaint(d) => {
                d.unsnap = m.alt;
            },
            PianoDrag::CcMove(d) => {
                d.unsnap = m.alt || m.shift;
            },
            PianoDrag::CcLine(d) => {
                d.unsnap = m.alt || (line_tool && m.shift);
            },
            _ => {},
        }
    }

    /// Marks the notes that the erase rectangle touches.
    fn sweep_erase(&mut self, lx: i64, ly: i64, notes: &Vec<MidiNote>)
        requires
            old(self).valid(),
            notes_in_song(notes@),
            on_surface(lx as int) && on_surface(ly as int),
        ensures
            erase_swept(*old(self), *final(self), lx, ly, notes@),
            final(self).valid(),
    {
        let (start_x, start_y) = match &self.drag {
            PianoDrag::EraseNotes(d) => (d.start_x, d.start_y),
            _ => {
                return ;
            },
        };
        let (view_w, view_h) = self.grid_view_size();
        let rect = normalized_marquee_rect(start_x, start_y, lx, ly, view_w, view_h);
        let hits = self.collect_notes_in_rect(notes, rect);
        match &mut self.drag {
            PianoDrag::EraseNotes(d) => {
                let marked = d.erased.union(&hits);
                let shown = marked.copy();
                d.current_x = lx;
                d.current_y = ly;
                d.erased = marked;
                self.erase_preview_ids = shown;
            },
            _ => {},
        }
    }

    fn pan_to(&mut self, x: i64, y: i64)
        requires
            old(self).valid(),
            in_window(x as int) && in_window(y as int),
        ensures
            *final(self) == panned(*old(self), x, y),
            final(self).valid(),
    {
        let (last_x, last_y) = match &self.drag {
            PianoDrag::Pan(last_x, last_y) => (*last_x, *last_y),
            _ => {
                return ;
            },
        };
        self.scroll_viewport_by(x - last_x);
        let (_w, view_h) = self.grid_view_size();
        self.scroll_viewport_vertically_by(y - last_y, view_h);
        self.drag = PianoDrag::Pan(x, y);
    }

    fn move_notes(&mut self, p: Pointer, target: Option<PreviewTarget>) -> (o: Outcome)
        requires
            old(self).valid(),
            old(self).drag is Move,
            p.valid(),
        ensures
            notes_moved(*old(self), *final(self), old(self).drag->Move_0, p, target),
            o.said() == notes_moved_says(*old(self), old(self).drag->Move_0, p, target),
            o.asks() is None,
            final(self).valid(),
    {
        let ppb = self.ppb;
        let row_h = self.row_h;
        let pitch = match &mut self.drag {
            PianoDrag::Move(d) => {
                d.dx_beats = ticks_of(p.x - d.start_x, ppb);
                d.dpitch = semitones_of(p.y - d.start_y, row_h);
                d.unsnap = p.modifiers.shift;
                drag_pitch(&self.pitch_map, d.grab_pitch, d.dpitch)
            },
            _ => 0,
        };
        let changed = match &self.preview.active {
            Some(a) => a.pitch != pitch,
            None => true,
        };
        if changed {
            let preview = self.preview.begin_preview_note(target, pitch, DEFAULT_NOTE_VELOCITY);
            Outcome { preview, edit: None }
        } else {
            Outcome::nothing()
        }
    }

    fn resize_notes(&mut self, x: i64, shift: bool)
        requires
            old(self).valid(),
            old(self).drag is Resize,
            in_window(x as int),
        ensures
            *final(self) == (PianoRoll {
                drag: PianoDrag::Resize(resize_at(*old(self), old(self).drag->Resize_0, x as int, shift)),
                ..*old(self)
            }),
            final(self).valid(),
    {
        let ppb = self.ppb;
        let step = self.live_snap_step(shift);
        match &mut self.drag {
            PianoDrag::Resize(d) => {
                let dx = ticks_of(x - d.start_x, ppb);
                let length = drag_length(d.anchor_start, d.prev_dur, dx, step);
                proof {
                    crate::roll::lemma_snap_reach(d.anchor_start + d.prev_dur + dx, step as int);
                }
                d.unsnap = shift;
                d.delta_dur = length - d.prev_dur;
                d.new_dur = length;
            },
            _ => {},
        }
    }

    fn move_in_lane(&mut self, p: Pointer, a: &Around) -> (edit: Option<RollEdit>)
        requires
            old(self).valid(),
            p.valid(),
            a.valid(),
        ensures
            lane_moved(*old(self), *final(self), p, *a),
            asked(edit) == lane_asks(*old(self), p, *a),
            final(self).valid(),
    {
        self.rekey(p.modifiers);
        let (lx, ly) = match self.cc_local(p.x, p.y) {
            Some(q) => q,
            None => {
                return None;
            },
        };
        let from = match &self.drag {
            PianoDrag::VelocityPaint(d) => Some((d.last_x, d.last_y)),
            _ => None,
        };
        match &self.drag {
            PianoDrag::VelocityPaint(_) => match from {
                Some(f) => self.paint_velocity_segment(Stroke { from_x: f.0, from_y: f.1, to_x: lx, to_y: ly }),
                None => None,
            },
            PianoDrag::VelocityLine(_) => self.update_velocity_line(lx, ly),
            PianoDrag::VelocitySelect(_, _) => {
                self.update_velocity_select(lx, ly, a.own_notes);
                None
            },
            PianoDrag::CcSelect(_, _, _) => {
                self.update_cc_select(lx, ly, a.own_points);
                None
            },
            PianoDrag::CcPaint(_) => self.cc_paint_stroke_to(lx, ly, a.clip, a.next_id),
            PianoDrag::CcMove(_) => self.cc_move_selection_to(lx, ly, a.clip),
            PianoDrag::CcLine(_) => self.cc_line_to(lx, ly, a.clip, a.next_id),
            PianoDrag::ArtMove(_) => self.articulation_move_to(lx, a.clip, a.names),
            _ => None,
        }
    }

    fn move_on_grid(&mut self, p: Pointer, a: &Around, target: Option<PreviewTarget>) -> (o: Outcome)
        requires
            old(self).valid(),
            p.valid(),
            a.valid(),
        ensures
            grid_moved(*old(self), *final(self), p, *a, target),
            o.said() == (match old(self).drag {
                PianoDrag::Move(d) => if p.button == Some(MouseButton::Left) {
                    notes_moved_says(*old(self), d, p, target)
                } else {
                    Seq::empty()
                },
                _ => Seq::empty(),
            }),
            o.asks() == (match old(self).drag {
                PianoDrag::Velocity(_) => if p.button == Some(MouseButton::Left) {
                    velocity_drag_asks(*old(self), p.y as int, p.modifiers.alt, p.modifiers.shift)
                } else {
                    None
                },
                _ => None,
            }),
            final(self).valid(),
    {
        let at = self.grid_local(p.x, p.y);
        if p.button == Some(MouseButton::Right) {
            match (at, a.clip) {
                (Some(q), Some(c)) => {
                    self.sweep_erase(q.0, q.1, &c.notes);
                },
                _ => {},
            }
            return Outcome::nothing();
        }
        let panning = match &self.drag {
            PianoDrag::Pan(_, _) => true,
            _ => false,
        };
        if panning {
            if p.button == Some(MouseButton::Middle) {
                self.pan_to(p.x, p.y);
            } else {
                self.drag = PianoDrag::Idle;
            }
            return Outcome::nothing();
        }
        if p.button != Some(MouseButton::Left) {
            return Outcome::nothing();
        }
        let shift = p.modifiers.shift;
        match &self.drag {
            PianoDrag::DrawNote(d) => {
                let end_beat = match at {
                    Some(q) => self.live_beat_at(q.0, shift),
                    None => d.end_beat,
                };
                self.drag = PianoDrag::DrawNote(
                    DrawDrag {
                        pitch: d.pitch,
                        start_beat: d.start_beat,
                        end_beat,
                        unsnap: shift,
                        channel: d.channel,
                    },
                );
                Outcome::nothing()
            },
            PianoDrag::MarqueeSelect(_) => {
                match (at, a.clip) {
                    (Some(q), Some(c)) => {
                        self.update_marquee_select(q.0, q.1, &c.notes);
                    },
                    _ => {},
                }
                Outcome::nothing()
            },
            PianoDrag::Move(_) => self.move_notes(p, target),
            PianoDrag::Resize(_) => {
                self.resize_notes(p.x, shift);
                Outcome::nothing()
            },
            PianoDrag::Velocity(_) => Outcome::of_edit(self.drag_velocity(p.y, p.modifiers.alt, shift)),
            PianoDrag::EraseNotes(_) => {
                match (at, a.clip) {
                    (Some(q), Some(c)) => {
                        self.sweep_erase(q.0, q.1, &c.notes);
                    },
                    _ => {},
                }
                Outcome::nothing()
            },
            _ => Outcome::nothing(),
        }
    }

    /// Follows the pointer with the gesture in progress.
    pub fn on_move(&mut self, p: Pointer, a: &Around, target: Option<PreviewTarget>) -> (o: Outcome)
        requires
            old(self).valid(),
            p.valid(),
            a.valid(),
        ensures
            moved(*old(self), *final(self), p, *a, target),
            o.said() == move_says(*old(self), p, target),
            o.asks() == move_asks(*old(self), p, *a),
            final(self).valid(),
    {
        if self.preview.key_drag {
            let key = self.key_lane_pitch_at(p.x, p.y);
            return self.drag_key(key, target);
        }
        let seeking = match &self.drag {
            PianoDrag::RulerSeek => true,
            _ => false,
        };
        if seeking {
            return match self.ruler_local(p.x, p.y) {
                Some(q) => Outcome::of_edit(self.seek_ruler_at(q.0, a.clip)),
                None => Outcome::nothing(),
            };
        }
        self.hover(p.x, p.y);
        let in_lane = match &self.drag {
            PianoDrag::VelocityPaint(_) => true,
            PianoDrag::VelocityLine(_) => true,
            PianoDrag::VelocitySelect(_, _) => true,
            PianoDrag::CcSelect(_, _, _) => true,
            PianoDrag::CcPaint(_) => true,
            PianoDrag::CcMove(_) => true,
            PianoDrag::CcLine(_) => true,
            PianoDrag::ArtMove(_) => true,
            _ => false,
        };
        if in_lane {
            Outcome::of_edit(self.move_in_lane(p, a))
        } else {
            self.move_on_grid(p, a, target)
        }
    }
}

/// Dragging to the right makes later and dragging up makes higher, both in
/// proportion: a beat of the screen is a beat and a row a semitone.
pub proof fn law_drags_are_measured_on_the_screen(dx: int, dy: int, ppb: int, row_h: int)
    requires
        ppb > 0,
        row_h > 0,
    ensures
        -ppb <= 2 * (ppb * ticks_across(dx, ppb) - dx * TICKS_PER_BEAT) <= ppb,
        -row_h <= 2 * (row_h * semitones_across(dy, row_h) + dy) <= row_h,
        dx >= 0 ==> ticks_across(dx, ppb) >= 0,
        dx <= 0 ==> ticks_across(dx, ppb) <= 0,
        dy <= 0 ==> semitones_across(dy, row_h) >= 0,
        dy >= 0 ==> semitones_across(dy, row_h) <= 0,
{
    lemma_nearest_bound(dx * TICKS_PER_BEAT, ppb);
    lemma_nearest_bound(dy, row_h);
    let t = ticks_across(dx, ppb);
    let q = nearest(dy, row_h);
    vstd::arithmetic::mul::lemma_mul_is_commutative(t, ppb);
    vstd::arithmetic::mul::lemma_mul_is_commutative(q, row_h);
    vstd::arithmetic::mul::lemma_mul_unary_negation(row_h, q);
}

/// While notes are moved the drag holds how far the pointer is from where it
/// began, and everything else of the drag stays.
pub proof fn law_moves_hold_the_distance(roll: PianoRoll, d: MoveDrag, x: int, y: int, shift: bool)
    requires
        roll.ppb > 0,
        roll.row_h > 0,
        i64::MIN <= ticks_across(x - d.start_x, roll.ppb as int) <= i64::MAX,
        i32::MIN <= semitones_across(y - d.start_y, roll.row_h as int) <= i32::MAX,
    ensures
        ({
            let next = move_at(roll, d, x, y, shift);
            &&& -roll.ppb <= 2 * (roll.ppb * next.dx_beats - (x - d.start_x) * TICKS_PER_BEAT) <= roll.ppb
            &&& -roll.row_h <= 2 * (roll.row_h * next.dpitch + (y - d.start_y)) <= roll.row_h
            &&& next.unsnap == shift
            &&& next == (MoveDrag { dx_beats: next.dx_beats, dpitch: next.dpitch, unsnap: next.unsnap, ..d })
        }),
{
    law_drags_are_measured_on_the_screen(x - d.start_x, y - d.start_y, roll.ppb as int, roll.row_h as int);
}

/// While a note is drawn its end follows the pointer and its start and pitch stay.
pub proof fn law_drawing_follows_the_pointer(pre: PianoRoll, d: DrawDrag, at: (i64, i64), shift: bool)
    requires
        pre.axis().beat_at(at.0 as int) >= 0,
        pre.axis().beat_at(at.0 as int) <= POSITION_LIMIT,
        0 <= pre.snap_step(shift) <= 4 * TICKS_PER_BEAT,
    ensures
        draw_moved(pre, d, Some(at), shift).drag matches PianoDrag::DrawNote(e) && {
            let under = pre.axis().beat_at(at.0 as int);
            &&& e.start_beat == d.start_beat && e.pitch == d.pitch && e.channel == d.channel
            &&& pre.snap_step(shift) == 0 ==> e.end_beat == under
            &&& pre.snap_step(shift) > 0 ==> e.end_beat as int % pre.snap_step(shift) == 0 && -pre.snap_step(shift)
                <= 2 * (e.end_beat - under) <= pre.snap_step(shift)
        },
        draw_moved(pre, d, None, shift).drag matches PianoDrag::DrawNote(e) && e.end_beat == d.end_beat,
{
    crate::grid::law_snapped_beats_are_on_the_grid(pre.axis().beat_at(at.0 as int), pre.snap_step(shift));
}

/// Panning takes what is shown along with the pointer, as far as there is
/// anything to show.
pub proof fn law_panning_takes_the_view_along(pre: PianoRoll, x: i64, y: i64, from: (i64, i64))
    requires
        pre.drag == PianoDrag::Pan(from.0, from.1),
        0 <= pre.scroll_x - (x - from.0) <= pre.farthest_x(),
        0 <= pre.scroll_y - (y - from.1) <= pre.farthest_y(pre.grid_size().1),
        pre.farthest_x() <= i64::MAX,
        pre.farthest_y(pre.grid_size().1) <= i64::MAX,
    ensures
        panned(pre, x, y).scroll_x + x == pre.scroll_x + from.0,
        panned(pre, x, y).scroll_y + y == pre.scroll_y + from.1,
        panned(pre, x, y).drag == PianoDrag::Pan(x, y),
{
}

/// A place on the ruler stands for the beat under it, held inside the clip, and
/// seeks there in the song.
pub proof fn law_seeking_goes_under_the_pointer(pre: PianoRoll, lx: int, clip: &ClipView)
    requires
        clip.duration >= 0,
    ensures
        ({
            let under = pre.axis().beat_at(lx);
            seek_asks(pre, lx, Some(clip)) matches Some(EditView::Seek(beat)) && {
                &&& 0 <= under <= clip.duration ==> beat == clip.start + under
                &&& under < 0 ==> beat == clip.start
                &&& under > clip.duration ==> beat == clip.start + clip.duration
            }
        }),
        seek_asks(pre, lx, None) is None,
{
}

/// What an erasing sweep has marked stays marked, and what it passes over is added.
pub proof fn law_erasing_only_adds(pre: PianoRoll, post: PianoRoll, lx: i64, ly: i64, notes: Seq<MidiNote>, id: u64)
    requires
        erase_swept(pre, post, lx, ly, notes),
        pre.drag is EraseNotes,
    ensures
        pre.drag matches PianoDrag::EraseNotes(d) && post.drag matches PianoDrag::EraseNotes(e) && (e.erased@.contains(
            id,
        ) <==> d.erased@.contains(id) || id_meets(pre, notes, erase_area(pre, d, lx, ly), id)),
        post.selection == pre.selection,
{
}

} // verus!
