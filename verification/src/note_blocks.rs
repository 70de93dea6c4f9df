//! What is drawn on the note grid and in the velocity lane: the notes, the
//! gesture in progress, and the bars below.

use crate::drag::{note_in_song, notes_in_song, PianoDrag};
use crate::fixed::{
    lemma_nearest_bound, magnitude, max_i64, max_of, min_i64, min_of, nearest, nearest_div, on_axis, MIN_NOTE_TICKS, PX,
    TICKS_PER_BEAT,
};
use crate::hit::{lemma_displayed_reach, lemma_width_reach, note_box, note_width, width_of_note, NOTE_RESIZE_MIN_W};
use crate::labels::{beats_text, push_beats};
use crate::midi::{lemma_filter_step, ArticulationId, MidiNote};
use crate::note_edits::TIME_TOLERANCE;
use crate::pitch::{note_name, pitch_name};
use crate::rect::{normalized_marquee_rect, Rect};
use crate::roll::{lemma_scroll_bound, PianoRoll};
use crate::text::{natural_text, push_natural};
use crate::velocity::{usable_height, LANE_H, LANE_TOP_GAP};
use crate::velocity_lane::{bar_height, velocity_bar_height, BAR_W};
use crate::viewport::{law_row_holds_its_pitch, lemma_x_reach, pitch_at, PITCH_COUNT};
use vstd::prelude::*;

verus! {

/// Narrowest that an outline without a note is drawn.
pub const OUTLINE_MIN_W: i64 = 3_000_000;

/// Narrowest note that is labelled with its name.
pub const LABEL_MIN_W: i64 = 22_000_000;

/// Narrowest note that carries its articulation's badge.
pub const BADGE_MIN_W: i64 = 46_000_000;

/// Lowest row in which a note is labelled.
pub const LABEL_MIN_ROW_H: i64 = 11_000_000;

/// Colour of a note's border.
#[derive(Debug, Clone, Copy, PartialEq, Eq, Structural)]
pub enum NoteBorder {
    /// About to be erased.
    Error,
    /// Selected.
    Accent,
    /// Muted.
    Muted,
    /// The colour of the track.
    Track,
}

/// A note as it is drawn.
#[derive(Debug, Clone, Copy, PartialEq, Eq, Structural)]
pub struct NoteBlock {
    pub id: u64,
    pub pitch: u8,
    pub start: i64,
    pub duration: i64,
    pub velocity: u8,
    pub muted: bool,
    pub selected: bool,
    pub left: i64,
    pub top: i64,
    pub width: i64,
    pub height: i64,
    /// Opacity of the fill, of a hundred.
    pub opacity: u8,
    pub border: NoteBorder,
    /// The name is written on the note.
    pub labelled: bool,
    /// Badge on the note.
    pub badge: Option<ArticulationId>,
    /// The note has a handle at its right edge.
    pub handle: bool,
}

/// Top of a pitch's row.
pub open spec fn row_y(roll: PianoRoll, pitch: int) -> int {
    (PITCH_COUNT - 1 - pitch) * roll.row_h - roll.scroll_y
}

/// A row and a stretch of beats that reach into the grid.
pub open spec fn in_view(roll: PianoRoll, x: int, w: int, y: int) -> bool {
    !(x + w < 0 || x > roll.grid_size().0 || y + roll.row_h < 0 || y > roll.grid_size().1)
}

/// The note is drawn: its channel shows, and it reaches into the view.
pub open spec fn note_drawn(roll: PianoRoll, n: MidiNote) -> bool {
    let d = roll.displayed(n);
    roll.channel_view.shows(n.channel) && in_view(
        roll,
        roll.axis().x_at(d.start as int),
        note_width(d.duration as int, roll.ppb as int),
        row_y(roll, d.pitch as int),
    )
}

/// Opacity of a note's fill.
pub open spec fn fill_opacity(erasing: bool, muted: bool, selected: bool) -> u8 {
    if erasing {
        45
    } else if muted {
        18
    } else if selected {
        100
    } else {
        78
    }
}

/// Colour of a note's border.
pub open spec fn border_of(erasing: bool, muted: bool, selected: bool) -> NoteBorder {
    if erasing {
        NoteBorder::Error
    } else if selected {
        NoteBorder::Accent
    } else if muted {
        NoteBorder::Muted
    } else {
        NoteBorder::Track
    }
}

/// How a note is drawn.
pub open spec fn block_of(roll: PianoRoll, n: MidiNote) -> NoteBlock {
    let d = roll.displayed(n);
    let b = note_box(roll, d);
    let w = b.2 - b.0;
    let selected = roll.selection@.contains(n.id);
    let erasing = roll.erase_preview_ids@.contains(n.id);
    NoteBlock {
        id: n.id,
        pitch: d.pitch,
        start: d.start,
        duration: d.duration,
        velocity: d.velocity,
        muted: n.muted,
        selected,
        left: b.0 as i64,
        top: b.1 as i64,
        width: w as i64,
        height: (b.3 - b.1) as i64,
        opacity: fill_opacity(erasing, n.muted, selected),
        border: border_of(erasing, n.muted, selected),
        labelled: w >= LABEL_MIN_W && roll.row_h >= LABEL_MIN_ROW_H,
        badge: if w >= BADGE_MIN_W && roll.row_h >= LABEL_MIN_ROW_H {
            n.articulation
        } else {
            None
        },
        handle: w >= NOTE_RESIZE_MIN_W,
    }
}

/// A key of the lane at the left and the row beside it are one pitch: the pointer
/// on a key that is drawn at the row's height plays that row, and the grid there
/// gives the same pitch.
pub proof fn law_keys_and_rows_are_one(roll: PianoRoll, pitch: u8, x: i64, y: i64)
    requires
        roll.valid(),
        pitch < PITCH_COUNT,
        roll.key_bounds is Some,
        0 <= x - roll.key_bounds->0.x <= roll.key_bounds->0.width,
        0 <= y - roll.key_bounds->0.y <= roll.key_bounds->0.height,
        row_y(roll, pitch as int) <= y - roll.key_bounds->0.y < row_y(roll, pitch as int) + roll.row_h,
    ensures
        roll.key_under(x, y) == Some(pitch),
        pitch_at(y - roll.key_bounds->0.y, roll.scroll_y as int, roll.row_h as int) == pitch,
{
    let local = y - roll.key_bounds->0.y;
    law_row_holds_its_pitch(
        pitch as int,
        roll.scroll_y as int,
        roll.row_h as int,
        local - row_y(roll, pitch as int),
    );
}

/// The notes as they are drawn, in the order of the clip.
pub open spec fn drawn_blocks(roll: PianoRoll, notes: Seq<MidiNote>) -> Seq<NoteBlock> {
    notes.filter(|n: MidiNote| note_drawn(roll, n)).map_values(|n: MidiNote| block_of(roll, n))
}

/// Every drawn note is as wide as the pointer takes it to be, and what is
/// written on it has room.
pub proof fn law_blocks_match_what_the_pointer_meets(roll: PianoRoll, n: MidiNote)
    requires
        roll.valid(),
        note_in_song(n),
    ensures
        ({
            let k = block_of(roll, n);
            let b = note_box(roll, roll.displayed(n));
            &&& k.left == b.0 && k.left + k.width == b.2
            &&& k.width >= crate::hit::NOTE_MIN_W
            &&& k.badge is Some ==> k.labelled && k.handle
            &&& k.labelled ==> k.handle
            &&& k.handle ==> k.width - crate::hit::RESIZE_ZONE >= crate::hit::RESIZE_ZONE
        }),
{
    let d = roll.displayed(n);
    lemma_displayed_reach(roll, n);
    lemma_scroll_bound(roll.scroll_x as int, roll.ppb as int);
    lemma_x_reach(d.start + roll.edit_origin, roll.ppb as int, roll.scroll_x as int);
    lemma_width_reach(d.duration as int, roll.ppb as int);
}

/// What hovering a note says.
pub open spec fn hover_text(b: NoteBlock) -> Seq<char> {
    pitch_name(b.pitch as int) + " · start "@ + beats_text(b.start as int) + " · len "@ + beats_text(b.duration as int)
        + " · vel "@ + natural_text(b.velocity as int) + (if b.muted {
        " · muted"@
    } else {
        ""@
    })
}

impl NoteBlock {
    /// What hovering the note says.
    pub fn hover_status(&self) -> (s: String)
        requires
            on_axis(self.start as int),
            on_axis(self.duration as int),
        ensures
            s@ == hover_text(*self),
    {
        let mut s = note_name(self.pitch as i32);
        s.append(" · start ");
        push_beats(&mut s, self.start);
        s.append(" · len ");
        push_beats(&mut s, self.duration);
        s.append(" · vel ");
        push_natural(&mut s, self.velocity as u64);
        s.append(if self.muted { " · muted" } else { "" });
        s
    }
}

/// A bar of the velocity lane.
#[derive(Debug, Clone, Copy, PartialEq, Eq, Structural)]
pub struct VelocityBar {
    pub id: u64,
    pub velocity: u8,
    pub left: i64,
    pub height: i64,
    /// Opacity of the fill, of a hundred.
    pub opacity: u8,
}

/// The note has a bar: its channel shows, and the bar reaches into the view.
pub open spec fn bar_drawn(roll: PianoRoll, n: MidiNote) -> bool {
    let x = roll.axis().x_at(roll.displayed(n).start as int);
    roll.channel_view.shows(n.channel) && -BAR_W <= x <= roll.grid_size().0
}

/// How a note's bar is drawn.
pub open spec fn bar_of(roll: PianoRoll, n: MidiNote) -> VelocityBar {
    VelocityBar {
        id: n.id,
        velocity: n.velocity,
        left: roll.axis().x_at(roll.displayed(n).start as int) as i64,
        height: bar_height(n.velocity as int, LANE_H as int) as i64,
        opacity: if roll.selection@.contains(n.id) {
            100
        } else {
            50
        },
    }
}

/// The bars of the velocity lane, in the order of the clip.
pub open spec fn drawn_bars(roll: PianoRoll, notes: Seq<MidiNote>) -> Seq<VelocityBar> {
    notes.filter(|n: MidiNote| bar_drawn(roll, n)).map_values(|n: MidiNote| bar_of(roll, n))
}

/// An outline on the grid.
#[derive(Debug, Clone, Copy, PartialEq, Eq, Structural)]
pub struct Outline {
    pub left: i64,
    pub top: i64,
    pub width: i64,
    pub height: i64,
}

/// Width of an outline of this length.
pub open spec fn outline_width(duration: int, ppb: int) -> int {
    max_of(nearest(duration * ppb, TICKS_PER_BEAT as int), OUTLINE_MIN_W as int)
}

fn width_of_outline(duration: i64, ppb: i64) -> (w: i64)
    requires
        0 <= duration,
        on_axis(duration as int),
        1_000_000 <= ppb <= 400_000_000,
    ensures
        w == outline_width(duration as int, ppb as int),
        0 <= w <= 0x1000_0000_0000_0000,
{
    assert(0 <= duration * ppb <= 70_368_744_177_664 * 400_000_000) by (nonlinear_arith)
        requires
            0 <= duration <= 70_368_744_177_664,
            0 <= ppb <= 400_000_000,
    ;
    let w = nearest_div(duration as i128 * ppb as i128, 960_000);
    proof {
        lemma_nearest_bound(duration * ppb, 960_000);
    }
    max_i64(w as i64, OUTLINE_MIN_W)
}

/// Step that quantizing takes notes to.
pub open spec fn quantize_step(roll: PianoRoll) -> int {
    max_of(roll.quantize_res.spec_fixed_beats(), MIN_NOTE_TICKS as int)
}

/// Where quantizing takes a start.
pub open spec fn quantized_start(roll: PianoRoll, start: int) -> int {
    nearest(start, quantize_step(roll)) * quantize_step(roll)
}

/// The note would move, and its new place is in view.
pub open spec fn quantize_shows(roll: PianoRoll, n: MidiNote) -> bool {
    &&& roll.selection@ == Set::<u64>::empty() || roll.selection@.contains(n.id)
    &&& magnitude(quantized_start(roll, n.start as int) - n.start) >= TIME_TOLERANCE
    &&& in_view(
        roll,
        roll.axis().x_at(quantized_start(roll, n.start as int)),
        outline_width(n.duration as int, roll.ppb as int),
        row_y(roll, n.pitch as int),
    )
}

/// Where quantizing would put a note.
pub open spec fn quantize_outline(roll: PianoRoll, n: MidiNote) -> Outline {
    Outline {
        left: roll.axis().x_at(quantized_start(roll, n.start as int)) as i64,
        top: (row_y(roll, n.pitch as int) + PX) as i64,
        width: outline_width(n.duration as int, roll.ppb as int) as i64,
        height: (roll.row_h - 2 * PX) as i64,
    }
}

/// Outlines of the notes that quantizing would move, while its button is
/// hovered.
pub open spec fn quantize_outlines(roll: PianoRoll, notes: Seq<MidiNote>) -> Seq<Outline> {
    if roll.quantize_preview {
        notes.filter(|n: MidiNote| quantize_shows(roll, n)).map_values(|n: MidiNote| quantize_outline(roll, n))
    } else {
        Seq::empty()
    }
}

/// Shortest note that a draw gesture makes.
pub open spec fn shortest_drawn(roll: PianoRoll, unsnap: bool) -> int {
    max_of(roll.snap_step(unsnap), MIN_NOTE_TICKS as int)
}

/// The note being drawn.
pub open spec fn draw_outline(roll: PianoRoll) -> Option<Outline> {
    match roll.drag {
        PianoDrag::DrawNote(d) => {
            let lo = min_of(d.start_beat as int, d.end_beat as int);
            let hi = max_of(d.start_beat as int, d.end_beat as int);
            Some(
                Outline {
                    left: roll.axis().x_at(lo) as i64,
                    top: (row_y(roll, d.pitch as int) + PX) as i64,
                    width: outline_width(max_of(hi - lo, shortest_drawn(roll, d.unsnap)), roll.ppb as int) as i64,
                    height: (roll.row_h - 2 * PX) as i64,
                },
            )
        },
        _ => None,
    }
}

/// A rectangle as an outline, no side shorter than `least`.
pub open spec fn outline_of(r: Rect, least: int) -> Outline {
    Outline {
        left: r.left,
        top: r.top,
        width: max_of(r.right - r.left, least) as i64,
        height: max_of(r.bottom - r.top, least) as i64,
    }
}

/// Corners of the rectangle that an erase gesture has swept.
pub open spec fn erase_area(roll: PianoRoll) -> Option<(int, int, int, int)> {
    match roll.drag {
        PianoDrag::EraseNotes(d) => {
            let (w, h) = roll.grid_size();
            let b = crate::rect::marquee_between(
                d.start_x as int,
                d.start_y as int,
                d.current_x as int,
                d.current_y as int,
                w,
                h,
            );
            if b.2 - b.0 < PX && b.3 - b.1 < PX {
                None
            } else {
                Some(b)
            }
        },
        _ => None,
    }
}

/// Something that a gesture draws over the velocity lane.
#[derive(Debug, Clone, Copy, PartialEq, Eq, Structural)]
pub enum LaneOverlay {
    Nothing,
    Area(Outline),
    /// A line from the first point to the second.
    Line(i64, i64, i64, i64),
}

/// Height in the velocity lane at which a value stands.
pub open spec fn velocity_y(value: int, lane_h: int) -> int {
    LANE_TOP_GAP + nearest((127 - value) * usable_height(lane_h), 126)
}

fn y_of_velocity(value: u8, lane_h: i64) -> (y: i64)
    requires
        PX <= lane_h <= crate::fixed::WINDOW_LIMIT,
    ensures
        y == velocity_y(value as int, lane_h as int),
{
    let usable = max_i64(lane_h - crate::velocity::LANE_PADDING, PX);
    assert(-128 * 68_719_476_736 <= (127 - value) * usable <= 127 * 68_719_476_736) by (nonlinear_arith)
        requires
            0 <= value <= 255,
            0 <= usable <= 68_719_476_736,
    ;
    let d = nearest_div((127 - value as i128) * usable as i128, 126);
    proof {
        lemma_nearest_bound((127 - value) * usable, 126);
    }
    LANE_TOP_GAP + d as i64
}

/// Outline of the area that an erase drag covers.
pub open spec fn erase_outline(roll: PianoRoll) -> Option<Outline> {
    match erase_area(roll) {
        Some(b) => Some(
            outline_of(
                (Rect { left: b.0 as i64, top: b.1 as i64, right: b.2 as i64, bottom: b.3 as i64 }),
                PX as int,
            ),
        ),
        None => None,
    }
}

/// Outline of a marquee that is dragged on the grid.
pub open spec fn marquee_outline(roll: PianoRoll) -> Option<Outline> {
    match roll.drag {
        PianoDrag::MarqueeSelect(m) => {
            let a = m.area(roll.grid_size().0, roll.grid_size().1);
            if m.dragging && a.right - a.left >= PX && a.bottom - a.top >= PX {
                Some(outline_of(a, 0))
            } else {
                None
            }
        },
        _ => None,
    }
}

/// The gesture drawn over the velocity lane.
pub open spec fn velocity_overlay(roll: PianoRoll) -> LaneOverlay {
    let (w, h) = roll.lane_size();
    match roll.drag {
        PianoDrag::VelocitySelect(_, m) => if m.dragging {
            LaneOverlay::Area(outline_of(m.area(w, h), PX as int))
        } else {
            LaneOverlay::Nothing
        },
        PianoDrag::VelocityLine(d) => LaneOverlay::Line(
            roll.axis().x_at(d.anchor_beat as int) as i64,
            velocity_y(d.anchor_value as int, h) as i64,
            roll.axis().x_at(d.current_beat as int) as i64,
            velocity_y(d.current_value as int, h) as i64,
        ),
        _ => LaneOverlay::Nothing,
    }
}

impl PianoRoll {
    /// Top of a pitch's row.
    pub fn pitch_to_y(&self, pitch: u8) -> (y: i64)
        requires
            self.valid(),
        ensures
            y == row_y(*self, pitch as int),
            -0x20_0000_0000 <= y <= 0x20_0000_0000,
    {
        assert(-128 * 200_000_000 <= (127 - pitch) * self.row_h <= 127 * 200_000_000) by (nonlinear_arith)
            requires
                0 <= pitch <= 255,
                0 <= self.row_h <= 200_000_000,
        ;
        (127 - pitch as i64) * self.row_h - self.scroll_y
    }

    fn reaches_view(&self, x: i64, w: i64, y: i64) -> (r: bool)
        requires
            self.valid(),
            -0x2000_0000_0000_0000 <= x <= 0x2000_0000_0000_0000,
            0 <= w <= 0x1000_0000_0000_0000,
            -0x20_0000_0000 <= y <= 0x20_0000_0000,
        ensures
            r == in_view(*self, x as int, w as int, y as int),
    {
        let (view_w, view_h) = self.grid_view_size();
        !(x + w < 0 || x > view_w || y + self.row_h < 0 || y > view_h)
    }

    fn block_if_drawn(&self, n: &MidiNote) -> (r: Option<NoteBlock>)
        requires
            self.valid(),
            note_in_song(*n),
        ensures
            r == (if note_drawn(*self, *n) {
                Some(block_of(*self, *n))
            } else {
                None
            }),
    {
        if !self.channel_visible(n.channel) {
            return None;
        }
        let d = self.display_note(n);
        let x = self.clip_beat_to_x(d.start);
        let w = width_of_note(d.duration, self.ppb);
        let y = self.pitch_to_y(d.pitch);
        if !self.reaches_view(x, w, y) {
            return None;
        }
        let selected = self.selection.contains(n.id);
        let erasing = self.erase_preview_ids.contains(n.id);
        let opacity: u8 = if erasing {
            45
        } else if n.muted {
            18
        } else if selected {
            100
        } else {
            78
        };
        let border = if erasing {
            NoteBorder::Error
        } else if selected {
            NoteBorder::Accent
        } else if n.muted {
            NoteBorder::Muted
        } else {
            NoteBorder::Track
        };
        let readable = self.row_h >= LABEL_MIN_ROW_H;
        Some(
            NoteBlock {
                id: n.id,
                pitch: d.pitch,
                start: d.start,
                duration: d.duration,
                velocity: d.velocity,
                muted: n.muted,
                selected,
                left: x,
                top: y + PX,
                width: w,
                height: self.row_h - 2 * PX,
                opacity,
                border,
                labelled: w >= LABEL_MIN_W && readable,
                badge: if w >= BADGE_MIN_W && readable {
                    n.articulation
                } else {
                    None
                },
                handle: w >= NOTE_RESIZE_MIN_W,
            },
        )
    }

    /// The visible notes as they are drawn.
    pub fn build_note_elements(&self, notes: &Vec<MidiNote>) -> (out: Vec<NoteBlock>)
        requires
            self.valid(),
            notes_in_song(notes@),
        ensures
            out@ == drawn_blocks(*self, notes@),
    {
        let ghost p = |n: MidiNote| note_drawn(*self, n);
        let ghost f = |n: MidiNote| block_of(*self, n);
        let mut out: Vec<NoteBlock> = Vec::new();
        let mut i: usize = 0;
        proof {
            reveal(Seq::filter);
            assert(notes@.subrange(0, 0).filter(p).map_values(f) =~= Seq::<NoteBlock>::empty());
        }
        while i < notes.len()
            invariant
                self.valid(),
                notes_in_song(notes@),
                i <= notes@.len(),
                p == (|n: MidiNote| note_drawn(*self, n)),
                f == (|n: MidiNote| block_of(*self, n)),
                out@ == notes@.subrange(0, i as int).filter(p).map_values(f),
            decreases notes@.len() - i,
        {
            proof {
                lemma_filter_step(notes@, i as int, p);
            }
            let ghost front = notes@.subrange(0, i as int).filter(p);
            match self.block_if_drawn(&notes[i]) {
                Some(b) => {
                    out.push(b);
                    assert(front.push(notes@[i as int]).map_values(f) =~= front.map_values(f).push(b));
                },
                None => {},
            }
            i = i + 1;
        }
        assert(notes@.subrange(0, notes@.len() as int) =~= notes@);
        out
    }

    /// The bars of the velocity lane.
    pub fn build_velocity_bars(&self, notes: &Vec<MidiNote>) -> (out: Vec<VelocityBar>)
        requires
            self.valid(),
            notes_in_song(notes@),
        ensures
            out@ == drawn_bars(*self, notes@),
    {
        let ghost p = |n: MidiNote| bar_drawn(*self, n);
        let ghost f = |n: MidiNote| bar_of(*self, n);
        let (view_w, _view_h) = self.grid_view_size();
        let mut out: Vec<VelocityBar> = Vec::new();
        let mut i: usize = 0;
        proof {
            reveal(Seq::filter);
            assert(notes@.subrange(0, 0).filter(p).map_values(f) =~= Seq::<VelocityBar>::empty());
        }
        while i < notes.len()
            invariant
                self.valid(),
                notes_in_song(notes@),
                view_w == self.grid_size().0,
                i <= notes@.len(),
                p == (|n: MidiNote| bar_drawn(*self, n)),
                f == (|n: MidiNote| bar_of(*self, n)),
                out@ == notes@.subrange(0, i as int).filter(p).map_values(f),
            decreases notes@.len() - i,
        {
            proof {
                lemma_filter_step(notes@, i as int, p);
            }
            let ghost front = notes@.subrange(0, i as int).filter(p);
            let n = notes[i];
            assert(note_in_song(notes@[i as int]));
            let d = self.display_note(&n);
            let x = self.clip_beat_to_x(d.start);
            if self.channel_visible(n.channel) && x >= -BAR_W && x <= view_w {
                let b = VelocityBar {
                    id: n.id,
                    velocity: n.velocity,
                    left: x,
                    height: velocity_bar_height(n.velocity, LANE_H),
                    opacity: if self.selection.contains(n.id) {
                        100
                    } else {
                        50
                    },
                };
                out.push(b);
                assert(b == bar_of(*self, n));
                assert(front.push(notes@[i as int]).map_values(f) =~= front.map_values(f).push(b));
            }
            i = i + 1;
        }
        assert(notes@.subrange(0, notes@.len() as int) =~= notes@);
        out
    }

    fn quantize_outline_of(&self, n: &MidiNote) -> (r: Option<Outline>)
        requires
            self.valid(),
            note_in_song(*n),
        ensures
            r == (if quantize_shows(*self, *n) {
                Some(quantize_outline(*self, *n))
            } else {
                None
            }),
    {
        if !self.selection.is_empty() && !self.selection.contains(n.id) {
            return None;
        }
        let step = max_i64(self.quantize_res.fixed_beats(), MIN_NOTE_TICKS);
        let k = nearest_div(n.start as i128, step as i128);
        proof {
            lemma_nearest_bound(n.start as int, step as int);
            assert(2 * (k * step) - 2 * n.start <= step && 2 * n.start - 2 * (k * step) <= step) by (nonlinear_arith)
                requires
                    k == nearest(n.start as int, step as int),
                    step > 0,
            ;
        }
        let q: i64 = (k * step as i128) as i64;
        let moved: i64 = if q >= n.start {
            q - n.start
        } else {
            n.start - q
        };
        if moved < TIME_TOLERANCE {
            return None;
        }
        let x = self.clip_beat_to_x(q);
        let w = width_of_outline(n.duration, self.ppb);
        let y = self.pitch_to_y(n.pitch);
        if !self.reaches_view(x, w, y) {
            return None;
        }
        Some(Outline { left: x, top: y + PX, width: w, height: self.row_h - 2 * PX })
    }

    /// Outlines of where quantizing would put the notes.
    pub fn build_quantize_preview(&self, notes: &Vec<MidiNote>) -> (out: Vec<Outline>)
        requires
            self.valid(),
            notes_in_song(notes@),
        ensures
            out@ == quantize_outlines(*self, notes@),
    {
        let ghost p = |n: MidiNote| quantize_shows(*self, n);
        let ghost f = |n: MidiNote| quantize_outline(*self, n);
        let mut out: Vec<Outline> = Vec::new();
        if !self.quantize_preview {
            return out;
        }
        let mut i: usize = 0;
        proof {
            reveal(Seq::filter);
            assert(notes@.subrange(0, 0).filter(p).map_values(f) =~= Seq::<Outline>::empty());
        }
        while i < notes.len()
            invariant
                self.valid(),
                notes_in_song(notes@),
                i <= notes@.len(),
                p == (|n: MidiNote| quantize_shows(*self, n)),
                f == (|n: MidiNote| quantize_outline(*self, n)),
                out@ == notes@.subrange(0, i as int).filter(p).map_values(f),
            decreases notes@.len() - i,
        {
            proof {
                lemma_filter_step(notes@, i as int, p);
            }
            let ghost front = notes@.subrange(0, i as int).filter(p);
            match self.quantize_outline_of(&notes[i]) {
                Some(b) => {
                    out.push(b);
                    assert(front.push(notes@[i as int]).map_values(f) =~= front.map_values(f).push(b));
                },
                None => {},
            }
            i = i + 1;
        }
        assert(notes@.subrange(0, notes@.len() as int) =~= notes@);
        out
    }

    /// Outline of the note being drawn.
    pub fn build_draw_note_preview(&self) -> (r: Option<Outline>)
        requires
            self.valid(),
        ensures
            r == draw_outline(*self),
    {
        match &self.drag {
            PianoDrag::DrawNote(d) => {
                let lo = min_i64(d.start_beat, d.end_beat);
                let hi = max_i64(d.start_beat, d.end_beat);
                let least = max_i64(self.live_snap_step(d.unsnap), MIN_NOTE_TICKS);
                let left = self.clip_beat_to_x(lo);
                let width = width_of_outline(max_i64(hi - lo, least), self.ppb);
                let top = self.pitch_to_y(d.pitch) + PX;
                Some(Outline { left, top, width, height: self.row_h - 2 * PX })
            },
            _ => None,
        }
    }

    /// Outline of what an erase gesture has swept.
    pub fn build_erase_overlay(&self) -> (r: Option<Outline>)
        requires
            self.valid(),
        ensures
            r == erase_outline(*self),
    {
        let (view_w, view_h) = self.grid_view_size();
        match &self.drag {
            PianoDrag::EraseNotes(d) => {
                let r = normalized_marquee_rect(d.start_x, d.start_y, d.current_x, d.current_y, view_w, view_h);
                let w = r.right - r.left;
                let h = r.bottom - r.top;
                if w < PX && h < PX {
                    None
                } else {
                    Some(Outline { left: r.left, top: r.top, width: max_i64(w, PX), height: max_i64(h, PX) })
                }
            },
            _ => None,
        }
    }

    /// Outline of the marquee on the grid.
    pub fn build_marquee_overlay(&self) -> (r: Option<Outline>)
        requires
            self.valid(),
        ensures
            r == marquee_outline(*self),
    {
        let (view_w, view_h) = self.grid_view_size();
        match &self.drag {
            PianoDrag::MarqueeSelect(m) => {
                if !m.dragging {
                    return None;
                }
                let a = m.rect(view_w, view_h);
                let w = a.right - a.left;
                let h = a.bottom - a.top;
                if w < PX || h < PX {
                    None
                } else {
                    Some(Outline { left: a.left, top: a.top, width: w, height: h })
                }
            },
            _ => None,
        }
    }

    /// What a gesture draws over the velocity lane.
    pub fn build_velocity_gesture_overlay(&self) -> (r: LaneOverlay)
        requires
            self.valid(),
        ensures
            r == velocity_overlay(*self),
    {
        let (view_w, view_h) = self.cc_view_size();
        match &self.drag {
            PianoDrag::VelocitySelect(_, m) => {
                if !m.dragging {
                    return LaneOverlay::Nothing;
                }
                let a = m.rect(view_w, view_h);
                LaneOverlay::Area(
                    Outline {
                        left: a.left,
                        top: a.top,
                        width: max_i64(a.right - a.left, PX),
                        height: max_i64(a.bottom - a.top, PX),
                    },
                )
            },
            PianoDrag::VelocityLine(d) => LaneOverlay::Line(
                self.clip_beat_to_x(d.anchor_beat),
                y_of_velocity(d.anchor_value, view_h),
                self.clip_beat_to_x(d.current_beat),
                y_of_velocity(d.current_value, view_h),
            ),
            _ => LaneOverlay::Nothing,
        }
    }
}

/// The outline of a quantized note is at the line of the resolution nearest to
/// the note's start.
pub proof fn law_quantizing_goes_to_the_nearest_line(roll: PianoRoll, start: int)
    requires
        start >= 0,
    ensures
        quantize_step(roll) >= MIN_NOTE_TICKS,
        roll.quantize_res.spec_fixed_beats() >= MIN_NOTE_TICKS ==> quantize_step(roll)
            == roll.quantize_res.spec_fixed_beats(),
        quantized_start(roll, start) % quantize_step(roll) == 0,
        -quantize_step(roll) <= 2 * (quantized_start(roll, start) - start) <= quantize_step(roll),
{
    lemma_nearest_bound(start, quantize_step(roll));
    vstd::arithmetic::div_mod::lemma_mod_multiples_basic(nearest(start, quantize_step(roll)), quantize_step(roll));
}

/// The line of a velocity is drawn where the lane stands for that velocity.
pub proof fn law_velocity_lines_are_drawn_at_their_height(value: int, lane_h: int)
    requires
        lane_h - crate::velocity::LANE_PADDING >= PX,
        1 <= value <= 127,
    ensures
        crate::velocity::velocity_at(velocity_y(value, lane_h), lane_h) == value,
{
    crate::velocity::law_higher_in_the_lane_is_louder(0, 0, lane_h, value);
}

} // verus!
