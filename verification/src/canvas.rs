//! The surface behind the notes: keys, rows, grid lines, the clip's end, the
//! loop, the playhead and the scrollbars.

use crate::drag::PianoDrag;
use crate::fixed::{
    clamp_i64, clamp_to, lemma_nearest_bound, max_i64, max_of, min_i64, min_of, nearest, nearest_div, on_axis, PX,
    SONG_LIMIT, TICKS_PER_BEAT, WINDOW_LIMIT,
};
use crate::grid::GridLineKind;
use crate::lanes::{PianoLaneView, PianoTool};
use crate::midi::lemma_filter_step;
use crate::note_blocks::row_y;
use crate::pitch::{black_key, is_black, note_name, pitch_name};
use crate::roll::{ClipView, PianoRoll};
use crate::velocity::LANE_H;
use crate::viewport::{pitch_at, PITCH_COUNT};
use vstd::prelude::*;

verus! {

/// Row height from which every key is labelled.
pub const ALL_LABELS_ROW_H: i64 = 14_000_000;

/// Thickness of the end-of-clip line, and half of it.
pub const HALF_LINE: i64 = 500_000;

/// Shortest thumb of the vertical scrollbar.
pub const THUMB_MIN_H: i64 = 24_000_000;

/// Shortest thumb of the horizontal scrollbar.
pub const THUMB_MIN_W: i64 = 32_000_000;

/// Gap below the horizontal scrollbar.
pub const SCROLLBAR_GAP: i64 = 3_000_000;

/// How far the playhead's line may be past the edge and still be drawn.
pub const LINE_SLACK: i64 = 2_000_000;

/// What the transport is doing.
#[derive(Debug, Clone, Copy, PartialEq, Eq, Structural)]
pub struct Transport {
    pub playhead: i64,
    pub playing: bool,
    pub loop_enabled: bool,
    pub loop_start: i64,
    pub loop_end: i64,
    pub beats_per_bar: i64,
}

impl Transport {
    pub open spec fn valid(self) -> bool {
        &&& -SONG_LIMIT <= self.playhead <= SONG_LIMIT
        &&& -SONG_LIMIT <= self.loop_start <= SONG_LIMIT
        &&& -SONG_LIMIT <= self.loop_end <= SONG_LIMIT
        &&& self.beats_per_bar <= SONG_LIMIT
    }

    /// The loop in beats of a clip, where there is one.
    pub open spec fn loop_in(self, clip_start: int) -> Option<(i64, i64)> {
        if self.loop_enabled && self.loop_end > self.loop_start {
            Some(((self.loop_start - clip_start) as i64, (self.loop_end - clip_start) as i64))
        } else {
            None
        }
    }

    /// The loop in beats of a clip, where there is one.
    pub fn loop_region(&self, clip_start: i64) -> (r: Option<(i64, i64)>)
        requires
            self.valid(),
            0 <= clip_start <= SONG_LIMIT,
        ensures
            r == self.loop_in(clip_start as int),
            r matches Some(l) ==> -2 * SONG_LIMIT <= l.0 < l.1 <= SONG_LIMIT,
    {
        if self.loop_enabled && self.loop_end > self.loop_start {
            Some((self.loop_start - clip_start, self.loop_end - clip_start))
        } else {
            None
        }
    }
}

/// Where the playhead's line stands.
#[derive(Debug, Clone, Copy, PartialEq, Eq, Structural)]
pub struct PianoRollPlayheadFrame {
    pub x: i64,
    /// The playhead is inside the clip.
    pub visible: bool,
    pub playing: bool,
}

/// The playhead is inside the clip, its ends among it.
pub open spec fn playhead_in(clip: ClipView, playhead: int) -> bool {
    0 <= playhead - clip.start <= clip.duration
}

/// Where the playhead's line stands.
pub open spec fn playhead_frame(roll: PianoRoll, clip: ClipView, t: Transport) -> PianoRollPlayheadFrame {
    PianoRollPlayheadFrame {
        x: roll.axis().x_at(t.playhead - clip.start) as i64,
        visible: playhead_in(clip, t.playhead as int),
        playing: t.playing,
    }
}

impl PianoRollPlayheadFrame {
    /// Whether a line is drawn on a surface of a size.
    pub fn shows_on(&self, width: i64, height: i64) -> (r: bool)
        requires
            0 <= width <= WINDOW_LIMIT,
        ensures
            r == (self.visible && height > 0 && -LINE_SLACK <= self.x <= width + LINE_SLACK),
    {
        self.visible && height > 0 && self.x >= -LINE_SLACK && self.x <= width + LINE_SLACK
    }

    /// Opacity of the line, of a hundred: a parked playhead is fainter.
    pub fn opacity(&self) -> (a: u8)
        ensures
            a == (if self.playing {
                90int
            } else {
                45int
            }),
    {
        if self.playing {
            90
        } else {
            45
        }
    }

    /// Whether the line has moved enough to be drawn anew.
    pub open spec fn differs(self, other: PianoRollPlayheadFrame) -> bool {
        self.visible != other.visible || self.playing != other.playing || crate::fixed::magnitude(self.x - other.x)
            >= HALF_LINE
    }

    /// Whether the line has moved enough to be drawn anew.
    pub fn moved_from(&self, other: &PianoRollPlayheadFrame) -> (r: bool)
        requires
            -0x2000_0000_0000_0000 <= self.x <= 0x2000_0000_0000_0000,
            -0x2000_0000_0000_0000 <= other.x <= 0x2000_0000_0000_0000,
        ensures
            r == self.differs(*other),
    {
        let d: i64 = self.x - other.x;
        self.visible != other.visible || self.playing != other.playing || d >= HALF_LINE || -d >= HALF_LINE
    }
}

/// The playhead's line, which is drawn apart from everything else.
#[derive(Debug, Clone, Copy, PartialEq, Eq, Structural)]
pub struct PianoRollPlayheadOverlay {
    pub frame: PianoRollPlayheadFrame,
}

impl PianoRollPlayheadOverlay {
    pub fn new(frame: PianoRollPlayheadFrame) -> (o: PianoRollPlayheadOverlay)
        ensures
            o.frame == frame,
    {
        PianoRollPlayheadOverlay { frame }
    }

    /// Takes over where the line stands now; says whether it must be drawn anew.
    /// Motion of less than half a pixel is not drawn.
    pub fn publish_playhead(&mut self, next: PianoRollPlayheadFrame) -> (drawn: bool)
        requires
            -0x2000_0000_0000_0000 <= old(self).frame.x <= 0x2000_0000_0000_0000,
            -0x2000_0000_0000_0000 <= next.x <= 0x2000_0000_0000_0000,
        ensures
            drawn == next.differs(old(self).frame),
            final(self).frame == (if drawn {
                next
            } else {
                old(self).frame
            }),
    {
        if next.moved_from(&self.frame) {
            self.frame = next;
            true
        } else {
            false
        }
    }
}

/// The line that is on screen is never half a pixel from where the playhead is,
/// and never shows another state.
pub proof fn law_published_line_is_close(shown: PianoRollPlayheadFrame, next: PianoRollPlayheadFrame)
    ensures
        ({
            let after = if next.differs(shown) {
                next
            } else {
                shown
            };
            &&& after.visible == next.visible && after.playing == next.playing
            &&& crate::fixed::magnitude(after.x - next.x) < HALF_LINE
        }),
{
}

/// Tone of a key's label.
#[derive(Debug, Clone, Copy, PartialEq, Eq, Structural)]
pub enum KeyTone {
    Primary,
    Muted,
    Secondary,
}

/// A key of the key lane.
#[derive(Debug, Clone, Copy, PartialEq, Eq, Structural)]
pub struct PianoKey {
    pub pitch: u8,
    pub top: i64,
    pub black: bool,
    pub pressed: bool,
    pub labelled: bool,
    pub tone: KeyTone,
}

impl PianoKey {
    /// What is written on the key.
    pub fn label(&self) -> (s: Option<String>)
        ensures
            match s {
                Some(t) => self.labelled && t@ == pitch_name(self.pitch as int),
                None => !self.labelled,
            },
    {
        if self.labelled {
            Some(note_name(self.pitch as i32))
        } else {
            None
        }
    }
}

/// How a key is drawn.
pub open spec fn key_of(roll: PianoRoll, pitch: int) -> PianoKey {
    PianoKey {
        pitch: pitch as u8,
        top: row_y(roll, pitch) as i64,
        black: black_key(pitch),
        pressed: roll.preview.key_pressed == Some(pitch as u8),
        labelled: pitch % 12 == 0 || roll.row_h >= ALL_LABELS_ROW_H,
        tone: if pitch % 12 == 0 {
            KeyTone::Primary
        } else if black_key(pitch) {
            KeyTone::Muted
        } else {
            KeyTone::Secondary
        },
    }
}

/// Lowest row drawn in a view of a height.
pub open spec fn first_row(roll: PianoRoll) -> int {
    max_of(pitch_at(roll.grid_size().1, roll.scroll_y as int, roll.row_h as int) - 1, 0)
}

/// Highest row drawn.
pub open spec fn last_row(roll: PianoRoll) -> int {
    min_of(pitch_at(0, roll.scroll_y as int, roll.row_h as int) + 1, PITCH_COUNT - 1)
}

/// How many rows are drawn.
pub open spec fn row_count(roll: PianoRoll) -> int {
    max_of(last_row(roll) - first_row(roll) + 1, 0)
}

/// Background of a row.
#[derive(Debug, Clone, Copy, PartialEq, Eq, Structural)]
pub enum RowShade {
    /// The row of a black key.
    Dark,
    /// The row of a C.
    Bright,
    Plain,
}

/// A row of the grid.
#[derive(Debug, Clone, Copy, PartialEq, Eq, Structural)]
pub struct PitchRow {
    pub pitch: u8,
    pub top: i64,
    pub shade: RowShade,
    /// Opacity of the row's line, of a thousand.
    pub line: u16,
}

/// How a row is drawn.
pub open spec fn row_of(roll: PianoRoll, pitch: int) -> PitchRow {
    PitchRow {
        pitch: pitch as u8,
        top: row_y(roll, pitch) as i64,
        shade: if black_key(pitch) {
            RowShade::Dark
        } else if pitch % 12 == 0 {
            RowShade::Bright
        } else {
            RowShade::Plain
        },
        line: if pitch % 12 == 0 {
            140
        } else if pitch % 12 == 5 {
            70
        } else {
            35
        },
    }
}

/// Lines and shade at the end of the clip.
#[derive(Debug, Clone, Copy, PartialEq, Eq, Structural)]
pub struct ClipEdges {
    pub end_x: i64,
    /// Width of the shaded surface past the end; none if the end is out of view.
    pub shade: Option<i64>,
    /// A line stands at the end.
    pub end_line: bool,
    /// Left of the marker among the grid lines.
    pub marker: Option<i64>,
}

/// Lines and shade at the end of a clip.
pub open spec fn edges_of(roll: PianoRoll, clip_len: int) -> ClipEdges {
    let end_x = roll.axis().x_at(clip_len);
    let w = roll.grid_size().0;
    ClipEdges {
        end_x: end_x as i64,
        shade: if end_x < w {
            Some((w - end_x) as i64)
        } else {
            None
        },
        end_line: 0 < end_x <= w + LINE_SLACK,
        marker: if 0 <= end_x <= w {
            Some(max_of(end_x - HALF_LINE, 0) as i64)
        } else {
            None
        },
    }
}

/// The loop on the grid.
#[derive(Debug, Clone, Copy, PartialEq, Eq, Structural)]
pub struct LoopBand {
    pub left: i64,
    pub width: i64,
    /// Where the loop starts, if that is in view.
    pub start_edge: Option<i64>,
    /// Where the loop ends, if that is in view.
    pub end_edge: Option<i64>,
}

/// A line in view.
pub open spec fn edge_in_view(x: int, w: int) -> Option<i64> {
    if 0 <= x <= w {
        Some(x as i64)
    } else {
        None
    }
}

/// The loop on the grid, where any of it is in view.
pub open spec fn loop_band(roll: PianoRoll, region: Option<(i64, i64)>) -> Option<LoopBand> {
    match region {
        Some(r) => {
            let w = roll.grid_size().0;
            let x0 = roll.axis().x_at(r.0 as int);
            let x1 = roll.axis().x_at(r.1 as int);
            let left = max_of(x0, 0);
            let right = min_of(x1, w);
            if right <= 0 || left >= w || right <= left {
                None
            } else {
                Some(
                    LoopBand {
                        left: left as i64,
                        width: (right - left) as i64,
                        start_edge: edge_in_view(x0, w),
                        end_edge: edge_in_view(x1, w),
                    },
                )
            }
        },
        None => None,
    }
}

/// The loop in the ruler: left and width.
pub open spec fn loop_mark(roll: PianoRoll, region: Option<(i64, i64)>) -> Option<(i64, i64)> {
    match region {
        Some(r) => {
            let left = max_of(roll.axis().x_at(r.0 as int), 0);
            let right = roll.axis().x_at(r.1 as int);
            if right <= left {
                None
            } else {
                Some((left as i64, (right - left) as i64))
            }
        },
        None => None,
    }
}

/// The thumb of a scrollbar: where it starts and how long it is.
#[derive(Debug, Clone, Copy, PartialEq, Eq, Structural)]
pub struct Thumb {
    pub offset: i64,
    pub length: i64,
}

/// Length of the thumb for a view that hides `extra` of what it shows.
pub open spec fn thumb_length(view: int, extra: int, least: int) -> int {
    clamp_to(nearest(view * view, view + extra), min_of(least, view), view)
}

/// The thumb of a scrollbar; none where there is nothing to scroll.
pub open spec fn thumb_of(view: int, extra: int, scroll: int, least: int) -> Option<Thumb> {
    if extra <= HALF_LINE {
        None
    } else {
        let length = thumb_length(view, extra, least);
        Some(
            Thumb {
                offset: clamp_to(nearest(scroll * (view - length), extra), 0, view) as i64,
                length: length as i64,
            },
        )
    }
}

/// The thumb stays on its track while the view scrolls within its range, and
/// is never longer than the track, however small that is.
pub proof fn law_thumb_stays_on_its_track(view: int, extra: int, scroll: int, least: int)
    requires
        0 < view <= WINDOW_LIMIT,
        0 <= least,
        extra > HALF_LINE,
        0 <= scroll <= extra,
    ensures
        thumb_of(view, extra, scroll, least) matches Some(t) && 0 <= t.length <= view && 0 <= t.offset && t.offset
            + t.length <= view,
{
    let length = thumb_length(view, extra, least);
    let room = view - length;
    assert(0 <= length <= view);
    assert(scroll * room <= extra * room && 0 <= scroll * room) by (nonlinear_arith)
        requires
            0 <= scroll <= extra,
            0 <= room,
    ;
    assert(room * extra == extra * room) by (nonlinear_arith);
    crate::fixed::lemma_nearest_monotone(scroll * room, extra * room, extra);
    crate::fixed::lemma_nearest_monotone(0, scroll * room, extra);
    crate::fixed::lemma_nearest_of_multiple(room, extra);
    crate::fixed::lemma_nearest_of_multiple(0, extra);
    assert(0 * extra == 0);
}

fn thumb(view: i64, extra: i64, scroll: i64, least: i64) -> (r: Option<Thumb>)
    requires
        PX <= view <= WINDOW_LIMIT,
        0 <= extra <= 0x1000_0000_0000_0000,
        0 <= scroll <= 0x1000_0000_0000_0000,
        0 <= least <= WINDOW_LIMIT,
    ensures
        r == thumb_of(view as int, extra as int, scroll as int, least as int),
{
    if extra <= HALF_LINE {
        return None;
    }
    assert(0 <= view * view <= 68_719_476_736 * 68_719_476_736) by (nonlinear_arith)
        requires
            0 <= view <= 68_719_476_736,
    ;
    let share = nearest_div(view as i128 * view as i128, view as i128 + extra as i128);
    proof {
        crate::fixed::lemma_nearest_monotone(0, view * view, view + extra);
        crate::fixed::lemma_nearest_of_multiple(0, view + extra);
        assert(view * view <= view * (view + extra)) by (nonlinear_arith)
            requires
                0 <= view,
                0 <= extra,
        ;
        crate::fixed::lemma_nearest_monotone(view * view, view * (view + extra), view + extra);
        crate::fixed::lemma_nearest_of_multiple(view as int, view + extra);
        assert(0 * (view + extra) == 0);
    }
    let low = min_i64(least, view);
    let length = clamp_i64(share as i64, low, view);
    let room: i64 = view - length;
    assert(0 <= scroll * room <= 0x1000_0000_0000_0000 * 68_719_476_736) by (nonlinear_arith)
        requires
            0 <= scroll <= 0x1000_0000_0000_0000,
            0 <= room <= 68_719_476_736,
    ;
    let p = nearest_div(scroll as i128 * room as i128, extra as i128);
    proof {
        crate::fixed::lemma_nearest_monotone(0, scroll * room, extra as int);
        crate::fixed::lemma_nearest_of_multiple(0, extra as int);
        assert(0 * extra == 0);
    }
    let offset: i64 = if p > view as i128 {
        view
    } else {
        p as i64
    };
    Some(Thumb { offset, length })
}

/// How far a clip reaches past the view.
pub open spec fn clip_overhang(roll: PianoRoll, clip_len: int) -> int {
    max_of(nearest(clip_len * roll.ppb, TICKS_PER_BEAT as int) - roll.grid_size().0, 0)
}

/// What the controller lane shows.
#[derive(Debug, Clone, Copy, PartialEq, Eq, Structural)]
pub enum LaneBody {
    Hidden,
    Articulations,
    Velocity,
    Controller,
}

/// What the controller lane shows: exactly one of its kinds, or nothing.
pub open spec fn lane_shown(roll: PianoRoll, own_lanes: bool) -> LaneBody {
    if !(roll.lane_visible && (roll.lane_view == PianoLaneView::Articulations || !own_lanes)) {
        LaneBody::Hidden
    } else {
        match roll.lane_view {
            PianoLaneView::Articulations => LaneBody::Articulations,
            PianoLaneView::Velocity => LaneBody::Velocity,
            PianoLaneView::Controller => LaneBody::Controller,
        }
    }
}

/// What the value chip of the lane says.
pub open spec fn chip_text(roll: PianoRoll) -> Option<Seq<char>> {
    match roll.drag {
        PianoDrag::Velocity(_) | PianoDrag::VelocityPaint(_) | PianoDrag::VelocityLine(_) => Some(
            crate::status::text_or(roll.drag_value_status, "Velocity"@),
        ),
        PianoDrag::CcPaint(_) | PianoDrag::CcMove(_) | PianoDrag::CcLine(_) => Some(
            crate::status::text_or(roll.drag_value_status, "CC"@),
        ),
        PianoDrag::ArtMove(_) => Some(crate::status::text_or(roll.drag_value_status, "Articulation"@)),
        _ => None,
    }
}

/// Hint in a lane that has nothing to show.
pub open spec fn lane_hint(body: LaneBody, notes: int, points: int, events: int) -> Option<Seq<char>> {
    match body {
        LaneBody::Velocity => if notes == 0 {
            Some("No notes — draw notes above to edit velocity"@)
        } else {
            None
        },
        LaneBody::Controller => if points == 0 {
            Some(
                "Drag to draw · Alt+drag draws free (no snap) · Shift-drag line · Right-click a point to delete"@,
            )
        } else {
            None
        },
        LaneBody::Articulations => if events == 0 {
            Some("Click to insert a direction articulation · drag markers to move · right-click to delete"@)
        } else {
            None
        },
        LaneBody::Hidden => None,
    }
}

/// Pointer shape.
#[derive(Debug, Clone, Copy, PartialEq, Eq, Structural)]
pub enum CursorShape {
    Arrow,
    Crosshair,
    ClosedHand,
}

/// Grid lines without subdivisions, with the opacity of each, of a hundred.
pub open spec fn lane_lines(lines: Seq<(i64, GridLineKind)>) -> Seq<(i64, u8)> {
    lines.filter(|l: (i64, GridLineKind)| l.1 != GridLineKind::Subdivision).map_values(
        |l: (i64, GridLineKind)|
            (l.0, if l.1 == GridLineKind::Bar {
                20u8
            } else {
                10u8
            }),
    )
}

/// The lines that go through a lane under the grid.
pub fn build_velocity_grid(lines: &Vec<(i64, GridLineKind)>) -> (out: Vec<(i64, u8)>)
    ensures
        out@ == lane_lines(lines@),
{
    let ghost p = |l: (i64, GridLineKind)| l.1 != GridLineKind::Subdivision;
    let ghost f = |l: (i64, GridLineKind)|
        (l.0, if l.1 == GridLineKind::Bar {
            20u8
        } else {
            10u8
        });
    let mut out: Vec<(i64, u8)> = Vec::new();
    let mut i: usize = 0;
    proof {
        reveal(Seq::filter);
        assert(lines@.subrange(0, 0).filter(p).map_values(f) =~= Seq::<(i64, u8)>::empty());
    }
    while i < lines.len()
        invariant
            i <= lines@.len(),
            p == (|l: (i64, GridLineKind)| l.1 != GridLineKind::Subdivision),
            f == (|l: (i64, GridLineKind)|
                (l.0, if l.1 == GridLineKind::Bar {
                    20u8
                } else {
                    10u8
                })),
            out@ == lines@.subrange(0, i as int).filter(p).map_values(f),
        decreases lines@.len() - i,
    {
        proof {
            lemma_filter_step(lines@, i as int, p);
        }
        let ghost front = lines@.subrange(0, i as int).filter(p);
        let l = lines[i];
        if l.1 != GridLineKind::Subdivision {
            let entry: (i64, u8) = (l.0, if l.1 == GridLineKind::Bar {
                20
            } else {
                10
            });
            out.push(entry);
            assert(front.push(lines@[i as int]).map_values(f) =~= front.map_values(f).push(entry));
        }
        i = i + 1;
    }
    assert(lines@.subrange(0, lines@.len() as int) =~= lines@);
    out
}

impl PianoRoll {
    /// The lowest and the highest row drawn.
    pub fn visible_rows(&self) -> (r: (u8, u8))
        requires
            self.valid(),
        ensures
            r.0 == first_row(*self),
            r.1 == last_row(*self),
            r.0 <= 127 && r.1 <= 127,
    {
        let (_view_w, view_h) = self.grid_view_size();
        let low = self.y_to_pitch(view_h);
        let high = self.y_to_pitch(0);
        let first: u8 = if low >= 1 {
            low - 1
        } else {
            0
        };
        let last: u8 = if high >= 127 {
            127
        } else {
            high + 1
        };
        (first, last)
    }

    /// The keys beside the grid, from the lowest in view up.
    pub fn piano_keys(&self) -> (out: Vec<PianoKey>)
        requires
            self.valid(),
        ensures
            out@.len() == row_count(*self),
            forall|i: int| 0 <= i < out@.len() ==> #[trigger] out@[i] == key_of(*self, first_row(*self) + i),
    {
        let (first, last) = self.visible_rows();
        let mut out: Vec<PianoKey> = Vec::new();
        let mut pitch: u8 = first;
        while pitch <= last
            invariant
                self.valid(),
                first == first_row(*self) && last == last_row(*self),
                last <= 127,
                first <= pitch,
                pitch <= 128,
                pitch <= last + 1 || pitch == first,
                out@.len() == pitch - first,
                forall|i: int| 0 <= i < out@.len() ==> #[trigger] out@[i] == key_of(*self, first + i),
            decreases 128 - pitch,
        {
            let black = is_black(pitch as i32);
            let is_c = pitch % 12 == 0;
            out.push(
                PianoKey {
                    pitch,
                    top: self.pitch_to_y(pitch),
                    black,
                    pressed: self.preview.key_pressed == Some(pitch),
                    labelled: is_c || self.row_h >= ALL_LABELS_ROW_H,
                    tone: if is_c {
                        KeyTone::Primary
                    } else if black {
                        KeyTone::Muted
                    } else {
                        KeyTone::Secondary
                    },
                },
            );
            pitch = pitch + 1;
        }
        out
    }

    /// The rows of the grid, from the lowest in view up.
    pub fn pitch_rows(&self) -> (out: Vec<PitchRow>)
        requires
            self.valid(),
        ensures
            out@.len() == row_count(*self),
            forall|i: int| 0 <= i < out@.len() ==> #[trigger] out@[i] == row_of(*self, first_row(*self) + i),
    {
        let (first, last) = self.visible_rows();
        let mut out: Vec<PitchRow> = Vec::new();
        let mut pitch: u8 = first;
        while pitch <= last
            invariant
                self.valid(),
                first == first_row(*self) && last == last_row(*self),
                last <= 127,
                first <= pitch,
                pitch <= 128,
                pitch <= last + 1 || pitch == first,
                out@.len() == pitch - first,
                forall|i: int| 0 <= i < out@.len() ==> #[trigger] out@[i] == row_of(*self, first + i),
            decreases 128 - pitch,
        {
            let class = pitch % 12;
            out.push(
                PitchRow {
                    pitch,
                    top: self.pitch_to_y(pitch),
                    shade: if is_black(pitch as i32) {
                        RowShade::Dark
                    } else if class == 0 {
                        RowShade::Bright
                    } else {
                        RowShade::Plain
                    },
                    line: if class == 0 {
                        140
                    } else if class == 5 {
                        70
                    } else {
                        35
                    },
                },
            );
            pitch = pitch + 1;
        }
        out
    }

    /// Lines and shade at the end of a clip.
    pub fn build_clip_bounds_overlay(&self, clip_len: i64) -> (r: ClipEdges)
        requires
            self.valid(),
            -SONG_LIMIT <= clip_len <= SONG_LIMIT,
        ensures
            r == edges_of(*self, clip_len as int),
    {
        let (view_w, _view_h) = self.grid_view_size();
        let end_x = self.clip_beat_to_x(clip_len);
        ClipEdges {
            end_x,
            shade: if end_x < view_w {
                Some(view_w - end_x)
            } else {
                None
            },
            end_line: end_x > 0 && end_x <= view_w + LINE_SLACK,
            marker: if end_x >= 0 && end_x <= view_w {
                Some(max_i64(end_x - HALF_LINE, 0))
            } else {
                None
            },
        }
    }

    /// The loop on the grid.
    pub fn build_loop_overlay(&self, region: Option<(i64, i64)>) -> (r: Option<LoopBand>)
        requires
            self.valid(),
            region matches Some(l) ==> on_axis(l.0 as int) && on_axis(l.1 as int),
        ensures
            r == loop_band(*self, region),
    {
        match region {
            Some(l) => {
                let (view_w, _view_h) = self.grid_view_size();
                let x0 = self.clip_beat_to_x(l.0);
                let x1 = self.clip_beat_to_x(l.1);
                let left = max_i64(x0, 0);
                let right = min_i64(x1, view_w);
                if right <= 0 || left >= view_w || right <= left {
                    None
                } else {
                    Some(
                        LoopBand {
                            left,
                            width: right - left,
                            start_edge: if x0 >= 0 && x0 <= view_w {
                                Some(x0)
                            } else {
                                None
                            },
                            end_edge: if x1 >= 0 && x1 <= view_w {
                                Some(x1)
                            } else {
                                None
                            },
                        },
                    )
                }
            },
            None => None,
        }
    }

    /// The loop in the ruler.
    pub fn build_loop_ruler_markers(&self, region: Option<(i64, i64)>) -> (r: Option<(i64, i64)>)
        requires
            self.valid(),
            region matches Some(l) ==> on_axis(l.0 as int) && on_axis(l.1 as int),
        ensures
            r == loop_mark(*self, region),
    {
        match region {
            Some(l) => {
                let left = max_i64(self.clip_beat_to_x(l.0), 0);
                let right = self.clip_beat_to_x(l.1);
                if right <= left {
                    None
                } else {
                    Some((left, right - left))
                }
            },
            None => None,
        }
    }

    /// The thumbs of the two scrollbars, and the gap under the horizontal one.
    pub fn render_scrollbars(&self, clip_len: i64, own_lanes: bool) -> (r: (Option<Thumb>, Option<Thumb>, i64))
        requires
            self.valid(),
            -SONG_LIMIT <= clip_len <= SONG_LIMIT,
        ensures
            r.0 == thumb_of(
                self.grid_size().1,
                self.farthest_y(self.grid_size().1),
                self.scroll_y as int,
                THUMB_MIN_H as int,
            ),
            r.1 == thumb_of(
                self.grid_size().0,
                clip_overhang(*self, clip_len as int),
                self.scroll_x as int,
                THUMB_MIN_W as int,
            ),
            r.2 == (if lane_shown(*self, own_lanes) is Hidden {
                SCROLLBAR_GAP as int
            } else {
                LANE_H + SCROLLBAR_GAP
            }),
    {
        let (view_w, view_h) = self.grid_view_size();
        let max_y = self.max_scroll_y();
        assert(-68_719_476_736 * 400_000_000 <= clip_len * self.ppb <= 68_719_476_736 * 400_000_000) by (nonlinear_arith)
            requires
                -68_719_476_736 <= clip_len <= 68_719_476_736,
                0 <= self.ppb <= 400_000_000,
        ;
        let px = nearest_div(clip_len as i128 * self.ppb as i128, 960_000);
        proof {
            lemma_nearest_bound(clip_len * self.ppb, 960_000);
            crate::roll::lemma_scroll_bound(self.scroll_x as int, self.ppb as int);
        }
        let max_x = max_i64(px as i64 - view_w, 0);
        let lane = self.unified_lane_visible(own_lanes);
        (
            thumb(view_h, max_y, self.scroll_y, THUMB_MIN_H),
            thumb(view_w, max_x, self.scroll_x, THUMB_MIN_W),
            if lane {
                LANE_H + SCROLLBAR_GAP
            } else {
                SCROLLBAR_GAP
            },
        )
    }

    /// Where the playhead's line stands; without a clip there is none.
    pub fn playhead_frame_now(&self, clip: Option<&ClipView>, t: &Transport) -> (f: PianoRollPlayheadFrame)
        requires
            self.valid(),
            crate::roll::clip_valid(clip),
            t.valid(),
        ensures
            match clip {
                Some(c) => f == playhead_frame(*self, *c, *t),
                None => f == (PianoRollPlayheadFrame { x: 0, visible: false, playing: t.playing }),
            },
            -0x2000_0000_0000_0000 <= f.x <= 0x2000_0000_0000_0000,
    {
        let clip = match clip {
            Some(c) => c,
            None => {
                return PianoRollPlayheadFrame { x: 0, visible: false, playing: t.playing };
            },
        };
        let rel: i64 = t.playhead - clip.start;
        PianoRollPlayheadFrame {
            x: self.clip_beat_to_x(rel),
            visible: rel >= 0 && rel <= clip.duration,
            playing: t.playing,
        }
    }

    /// What the controller lane shows.
    pub fn lane_body(&self, own_lanes: bool) -> (b: LaneBody)
        ensures
            b == lane_shown(*self, own_lanes),
    {
        if !self.unified_lane_visible(own_lanes) {
            LaneBody::Hidden
        } else {
            match self.lane_view {
                PianoLaneView::Articulations => LaneBody::Articulations,
                PianoLaneView::Velocity => LaneBody::Velocity,
                PianoLaneView::Controller => LaneBody::Controller,
            }
        }
    }

    /// What the value chip of the lane says.
    pub fn value_chip(&self) -> (r: Option<String>)
        ensures
            match r {
                Some(t) => chip_text(*self) == Some(t@),
                None => chip_text(*self) is None,
            },
    {
        let fallback = match &self.drag {
            PianoDrag::Velocity(_) | PianoDrag::VelocityPaint(_) | PianoDrag::VelocityLine(_) => "Velocity",
            PianoDrag::CcPaint(_) | PianoDrag::CcMove(_) | PianoDrag::CcLine(_) => "CC",
            PianoDrag::ArtMove(_) => "Articulation",
            _ => {
                return None;
            },
        };
        match &self.drag_value_status {
            Some(s) => Some(s.clone()),
            None => Some(fallback.to_owned()),
        }
    }

    /// Shape of the pointer over the grid.
    pub fn grid_cursor(&self) -> (c: CursorShape)
        ensures
            c == (if self.tool == PianoTool::Draw || self.tool == PianoTool::Line {
                CursorShape::Crosshair
            } else {
                CursorShape::Arrow
            }),
    {
        if self.tool == PianoTool::Draw || self.tool == PianoTool::Line {
            CursorShape::Crosshair
        } else {
            CursorShape::Arrow
        }
    }

    /// Shape of the pointer over the editor.
    pub fn editor_cursor(&self) -> (c: CursorShape)
        ensures
            c == (if self.drag is Pan {
                CursorShape::ClosedHand
            } else {
                CursorShape::Arrow
            }),
    {
        match &self.drag {
            PianoDrag::Pan(_, _) => CursorShape::ClosedHand,
            _ => CursorShape::Arrow,
        }
    }
}

/// Hint in a lane that has nothing to show.
pub fn empty_lane_hint(body: LaneBody, notes: usize, points: usize, events: usize) -> (r: Option<&'static str>)
    ensures
        match r {
            Some(t) => lane_hint(body, notes as int, points as int, events as int) == Some(t@),
            None => lane_hint(body, notes as int, points as int, events as int) is None,
        },
{
    match body {
        LaneBody::Velocity => if notes == 0 {
            Some("No notes — draw notes above to edit velocity")
        } else {
            None
        },
        LaneBody::Controller => if points == 0 {
            Some("Drag to draw · Alt+drag draws free (no snap) · Shift-drag line · Right-click a point to delete")
        } else {
            None
        },
        LaneBody::Articulations => if events == 0 {
            Some("Click to insert a direction articulation · drag markers to move · right-click to delete")
        } else {
            None
        },
        LaneBody::Hidden => None,
    }
}

/// A scrollbar's thumb is at one end of its track when nothing is scrolled and at
/// the other when all of it is.
pub proof fn law_thumb_goes_from_end_to_end(view: int, extra: int, least: int)
    requires
        0 < view <= WINDOW_LIMIT,
        0 <= least,
        extra > HALF_LINE,
    ensures
        thumb_of(view, extra, 0, least) matches Some(t) && t.offset == 0,
        thumb_of(view, extra, extra, least) matches Some(t) && t.offset + t.length == view,
{
    let length = thumb_length(view, extra, least);
    let room = view - length;
    crate::fixed::lemma_nearest_of_multiple(0, extra);
    crate::fixed::lemma_nearest_of_multiple(room, extra);
    vstd::arithmetic::mul::lemma_mul_basics(extra);
    vstd::arithmetic::mul::lemma_mul_basics(room);
    vstd::arithmetic::mul::lemma_mul_is_commutative(extra, room);
    law_thumb_stays_on_its_track(view, extra, 0, least);
    law_thumb_stays_on_its_track(view, extra, extra, least);
}

} // verus!
