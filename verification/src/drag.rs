//! The gestures of the piano roll, and what each of them remembers.

use crate::fixed::{on_axis, BEAT_LIMIT, COUNT_LIMIT, SONG_LIMIT, TICKS_PER_BEAT, VALUE_ONE, WINDOW_LIMIT};
use crate::id_set::IdSet;
use crate::marquee::Marquee;
use crate::midi::{MidiArticulationEvent, MidiChannel, MidiControllerKind, MidiControllerPoint, MidiNote};
use crate::note_edits::NotePlace;
use crate::velocity::VelocityCurve;
use vstd::prelude::*;

verus! {

/// Notes being moved.
#[derive(Debug)]
pub struct MoveDrag {
    /// Where the pointer was pressed, in the window.
    pub start_x: i64,
    pub start_y: i64,
    /// Places of the notes at the press.
    pub prev: Vec<NotePlace>,
    /// How far the pointer moved, before snapping.
    pub dx_beats: i64,
    pub dpitch: i32,
    /// Pitch of the grabbed note.
    pub grab_pitch: u8,
    /// Start of the grabbed note; it snaps, and the others follow it.
    pub anchor_start: i64,
    /// The release leaves the notes and creates copies.
    pub clone_on_commit: bool,
    /// The grid is let go of.
    pub unsnap: bool,
}

/// Notes being resized by the right edge of one of them.
#[derive(Debug)]
pub struct ResizeDrag {
    /// The grabbed note.
    pub id: u64,
    pub ids: Vec<u64>,
    pub start_x: i64,
    /// Length of the grabbed note at the press.
    pub prev_dur: i64,
    /// Lengths of all the notes at the press.
    pub prev_durs: Vec<(u64, i64)>,
    pub anchor_start: i64,
    pub delta_dur: i64,
    pub new_dur: i64,
    pub unsnap: bool,
}

/// A velocity bar being dragged. Values always follow from `prev`.
#[derive(Debug)]
pub struct VelocityDrag {
    pub clip_id: String,
    pub prev: Vec<(u64, u8)>,
    pub anchor_orig: u8,
    pub start_mouse_y: i64,
    pub absolute: bool,
    pub fine: bool,
}

/// Velocities being painted.
#[derive(Debug)]
pub struct PaintDrag {
    pub clip_id: String,
    /// The notes in order of start, as they were at the press.
    pub original_notes: Vec<MidiNote>,
    pub touched: IdSet,
    pub last_x: i64,
    pub last_y: i64,
}

/// A velocity ramp being drawn.
#[derive(Debug)]
pub struct LineDrag {
    pub clip_id: String,
    pub original_notes: Vec<MidiNote>,
    pub affected: IdSet,
    pub anchor_beat: i64,
    pub anchor_value: u8,
    pub current_beat: i64,
    pub current_value: u8,
    pub curve: VelocityCurve,
    pub unsnap: bool,
}

/// A note being drawn.
#[derive(Debug, Clone, Copy, PartialEq, Eq, Structural)]
pub struct DrawDrag {
    pub pitch: u8,
    pub start_beat: i64,
    pub end_beat: i64,
    pub unsnap: bool,
    pub channel: MidiChannel,
}

/// Notes being erased.
#[derive(Debug)]
pub struct EraseDrag {
    pub start_x: i64,
    pub start_y: i64,
    pub current_x: i64,
    pub current_y: i64,
    pub erased: IdSet,
}

/// Controller points being painted or erased.
#[derive(Debug, Clone, Copy)]
pub struct CcPaintDrag {
    pub erase: bool,
    /// Where the stroke has got to, in the lane.
    pub last: Option<(i64, i64)>,
    pub unsnap: bool,
}

/// Controller points being moved; `prev` holds id, beat and value of each.
#[derive(Debug)]
pub struct CcMoveDrag {
    pub ids: Vec<u64>,
    pub prev: Vec<(u64, i64, i64)>,
    pub anchor_beat: i64,
    pub anchor_value: i64,
    pub unsnap: bool,
}

/// A controller ramp being drawn.
#[derive(Debug, Clone, Copy, PartialEq, Eq, Structural)]
pub struct CcLineDrag {
    pub anchor_beat: i64,
    pub anchor_value: i64,
    pub unsnap: bool,
}

/// A gesture in progress.
#[derive(Debug)]
pub enum PianoDrag {
    Idle,
    Move(MoveDrag),
    Resize(ResizeDrag),
    Velocity(VelocityDrag),
    VelocityPaint(PaintDrag),
    VelocityLine(LineDrag),
    /// Notes of this clip being selected by their velocity bars.
    VelocitySelect(String, Marquee),
    /// The grid being panned; where the pointer was last, in the window.
    Pan(i64, i64),
    /// Notes being selected by a rectangle on the grid.
    MarqueeSelect(Marquee),
    DrawNote(DrawDrag),
    EraseNotes(EraseDrag),
    CcPaint(CcPaintDrag),
    CcMove(CcMoveDrag),
    CcLine(CcLineDrag),
    /// Points of this clip and controller being selected by a rectangle.
    CcSelect(String, MidiControllerKind, Marquee),
    /// A direction articulation being moved.
    ArtMove(u64),
    /// The playhead being dragged along the ruler.
    RulerSeek,
}

/// A coordinate in the window.
pub open spec fn in_window(x: int) -> bool {
    -WINDOW_LIMIT <= x <= WINDOW_LIMIT
}

/// A coordinate relative to a surface in the window.
pub open spec fn on_surface(x: int) -> bool {
    -2 * WINDOW_LIMIT <= x <= 2 * WINDOW_LIMIT
}

/// A time on a track.
pub open spec fn in_song(t: int) -> bool {
    0 <= t <= SONG_LIMIT
}

/// A beat that a pointer can snap to.
pub open spec fn reachable(t: int) -> bool {
    0 <= t <= BEAT_LIMIT + 4 * TICKS_PER_BEAT
}

/// A controller value.
pub open spec fn is_value(v: int) -> bool {
    0 <= v <= VALUE_ONE
}

/// A note of a clip.
pub open spec fn note_in_song(n: MidiNote) -> bool {
    n.pitch <= 127 && in_song(n.start as int) && in_song(n.duration as int) && n.velocity <= 127
}

pub open spec fn notes_in_song(notes: Seq<MidiNote>) -> bool {
    notes.len() <= COUNT_LIMIT && forall|i: int| 0 <= i < notes.len() ==> note_in_song(#[trigger] notes[i])
}

pub open spec fn points_in_song(points: Seq<MidiControllerPoint>) -> bool {
    points.len() <= COUNT_LIMIT && forall|i: int|
        0 <= i < points.len() ==> reachable((#[trigger] points[i]).beat as int) && is_value(points[i].value as int)
}

pub open spec fn events_in_song(events: Seq<MidiArticulationEvent>) -> bool {
    forall|i: int| 0 <= i < events.len() ==> reachable((#[trigger] events[i]).beat as int)
}

/// A marquee on a surface.
pub open spec fn marquee_on_surface(m: Marquee) -> bool {
    on_surface(m.start_x as int) && on_surface(m.start_y as int) && on_surface(m.current_x as int) && on_surface(
        m.current_y as int,
    )
}

impl PianoDrag {
    /// Every coordinate and time is inside its limits.
    pub open spec fn valid(self) -> bool {
        match self {
            PianoDrag::Idle => true,
            PianoDrag::Move(d) => {
                &&& in_window(d.start_x as int) && in_window(d.start_y as int)
                &&& d.prev@.len() <= COUNT_LIMIT
                &&& forall|i: int|
                    0 <= i < d.prev@.len() ==> in_song((#[trigger] d.prev@[i]).start as int) && d.prev@[i].pitch <= 127
                &&& on_surface(d.dx_beats as int)
                &&& d.grab_pitch <= 127
                &&& in_song(d.anchor_start as int)
            },
            PianoDrag::Resize(d) => {
                &&& in_window(d.start_x as int)
                &&& in_song(d.prev_dur as int)
                &&& forall|i: int| 0 <= i < d.prev_durs@.len() ==> in_song((#[trigger] d.prev_durs@[i]).1 as int)
                &&& in_song(d.anchor_start as int)
                &&& on_axis(4 * d.delta_dur)
                &&& on_axis(4 * d.new_dur)
            },
            PianoDrag::Velocity(d) => in_window(d.start_mouse_y as int),
            PianoDrag::VelocityPaint(d) => {
                notes_in_song(d.original_notes@) && on_surface(d.last_x as int) && on_surface(d.last_y as int)
            },
            PianoDrag::VelocityLine(d) => {
                notes_in_song(d.original_notes@) && reachable(d.anchor_beat as int) && reachable(d.current_beat as int)
            },
            PianoDrag::VelocitySelect(_, m) => marquee_on_surface(m),
            PianoDrag::Pan(x, y) => in_window(x as int) && in_window(y as int),
            PianoDrag::MarqueeSelect(m) => marquee_on_surface(m),
            PianoDrag::DrawNote(d) => reachable(d.start_beat as int) && reachable(d.end_beat as int),
            PianoDrag::EraseNotes(d) => {
                on_surface(d.start_x as int) && on_surface(d.start_y as int) && on_surface(d.current_x as int)
                    && on_surface(d.current_y as int)
            },
            PianoDrag::CcPaint(d) => match d.last {
                Some(p) => on_surface(p.0 as int) && on_surface(p.1 as int),
                None => true,
            },
            PianoDrag::CcMove(d) => {
                &&& forall|i: int|
                    0 <= i < d.prev@.len() ==> reachable((#[trigger] d.prev@[i]).1 as int) && is_value(
                        d.prev@[i].2 as int,
                    )
                &&& reachable(d.anchor_beat as int)
                &&& is_value(d.anchor_value as int)
            },
            PianoDrag::CcLine(d) => reachable(d.anchor_beat as int) && is_value(d.anchor_value as int),
            PianoDrag::CcSelect(_, _, m) => marquee_on_surface(m),
            PianoDrag::ArtMove(_) => true,
            PianoDrag::RulerSeek => true,
        }
    }

    /// No gesture is in progress.
    pub fn is_idle(&self) -> (r: bool)
        ensures
            r == (self is Idle),
    {
        match self {
            PianoDrag::Idle => true,
            _ => false,
        }
    }
}

} // verus!
