//! The one coordinate transform of the MIDI editor, and the ruler marks and
//! grid lines laid out with it.

use crate::fixed::{
    floor_div, lemma_nearest_bound, lemma_nearest_of_near, max_i64, max_of, min_of, nearest, nearest_div, on_axis,
    POSITION_LIMIT, PX, SEMITONE, TICKS_PER_BEAT,
};
use crate::grid::{is_multiple, near_multiple, snap_beat_to_step, snapped, GridLineKind};
use crate::text::{decimal_text, push_decimal};
use vstd::prelude::*;

verus! {

/// Number of MIDI pitch rows, 0 to 127.
pub const PITCH_COUNT: i32 = 128;

/// Vertical zoom limits, in micro-pixels per semitone.
pub const PIANO_ROLL_MIN_ROW_H: i64 = 6_000_000;

pub const PIANO_ROLL_MAX_ROW_H: i64 = 200_000_000;

/// Row height that reset restores.
pub const DEFAULT_ROW_H: i64 = 14_000_000;

/// Horizontal zoom limits, in micro-pixels per beat.
pub const PIANO_ROLL_MIN_PPB: i64 = 1_000_000;

pub const PIANO_ROLL_MAX_PPB: i64 = 400_000_000;

/// Smallest zoom factor that a transform divides by.
pub const ZOOM_FLOOR: i64 = 100;

/// Largest zoom factor that the transforms take.
pub const ZOOM_LIMIT: i64 = 4_294_967_296;

/// Longest bar, in ticks.
pub const BAR_LIMIT: i64 = 68_719_476_736;

/// Most marks that one ruler lays out.
pub const RULER_MARK_LIMIT: i64 = 2000;

/// Most lines that one grid looks at.
pub const GRID_LINE_LIMIT: i64 = 8000;

/// Most bars that the ruler or the grid passes over between two lines.
pub const BAR_STRIDE_LIMIT: i64 = 256;

/// A zoom factor as the transforms use it.
pub open spec fn zoom(factor: int) -> int {
    max_of(factor, ZOOM_FLOOR as int)
}

/// Local x of a beat.
pub open spec fn x_of_beat(beat: int, ppb: int, scroll_x: int) -> int {
    nearest(beat * zoom(ppb), TICKS_PER_BEAT as int) - scroll_x
}

/// Beat at a local x, never before beat zero.
pub open spec fn beat_of_x(x: int, ppb: int, scroll_x: int) -> int {
    max_of(nearest((x + scroll_x) * TICKS_PER_BEAT, zoom(ppb)), 0)
}

/// Beat at local `x`.
pub fn local_x_to_beat(local_x: i64, pixels_per_beat: i64, scroll_x: i64) -> (beat: i64)
    requires
        on_axis(local_x as int),
        on_axis(scroll_x as int),
        pixels_per_beat <= ZOOM_LIMIT,
    ensures
        beat == beat_of_x(local_x as int, pixels_per_beat as int, scroll_x as int),
        0 <= beat <= 0x4000_0000_0000_0000,
        pixels_per_beat >= PIANO_ROLL_MIN_PPB ==> beat <= 2 * POSITION_LIMIT,
{
    let z: i128 = max_i64(pixels_per_beat, ZOOM_FLOOR) as i128;
    let n: i128 = (local_x as i128 + scroll_x as i128) * 960_000;
    let q: i128 = nearest_div(n, z);
    proof {
        lemma_nearest_bound(n as int, z as int);
        assert(q <= 0x4000_0000_0000_0000 && q >= -0x4000_0000_0000_0000) by (nonlinear_arith)
            requires
                z >= 100,
                -z <= 2 * (q * z - n) <= z,
                -2 * 70_368_744_177_664 * 960_000 <= n <= 2 * 70_368_744_177_664 * 960_000,
        ;
        if pixels_per_beat >= PIANO_ROLL_MIN_PPB {
            assert(q <= 2 * 70_368_744_177_664) by (nonlinear_arith)
                requires
                    z >= 1_000_000,
                    -z <= 2 * (q * z - n) <= z,
                    n <= 2 * 70_368_744_177_664 * 960_000,
            ;
        }
    }
    max_i64(q as i64, 0)
}

/// The local x of a beat on the axis fits its type.
pub proof fn lemma_x_reach(beat: int, ppb: int, scroll_x: int)
    requires
        -4 * POSITION_LIMIT <= beat <= 4 * POSITION_LIMIT,
        on_axis(scroll_x),
        ppb <= ZOOM_LIMIT,
    ensures
        -0x2000_0000_0000_0000 <= x_of_beat(beat, ppb, scroll_x) <= 0x2000_0000_0000_0000,
{
    let z = zoom(ppb);
    lemma_nearest_bound(beat * z, TICKS_PER_BEAT as int);
    assert(-4 * 70_368_744_177_664 * 4_294_967_296 <= beat * z <= 4 * 70_368_744_177_664 * 4_294_967_296)
        by (nonlinear_arith)
        requires
            -4 * 70_368_744_177_664 <= beat <= 4 * 70_368_744_177_664,
            100 <= z <= 4_294_967_296,
    ;
}

/// Local x of `beat`.
pub fn beat_to_local_x(beat: i64, pixels_per_beat: i64, scroll_x: i64) -> (x: i64)
    requires
        -4 * POSITION_LIMIT <= beat <= 4 * POSITION_LIMIT,
        on_axis(scroll_x as int),
        pixels_per_beat <= ZOOM_LIMIT,
    ensures
        x == x_of_beat(beat as int, pixels_per_beat as int, scroll_x as int),
        -0x2000_0000_0000_0000 <= x <= 0x2000_0000_0000_0000,
{
    let z: i128 = max_i64(pixels_per_beat, ZOOM_FLOOR) as i128;
    proof {
        assert(-0x1_0000_0000_0000_0000_0000 <= beat * z <= 0x1_0000_0000_0000_0000_0000) by (nonlinear_arith)
            requires
                -4 * 70_368_744_177_664 <= beat <= 4 * 70_368_744_177_664,
                100 <= z <= 4_294_967_296,
        ;
    }
    let n: i128 = beat as i128 * z;
    let q: i128 = nearest_div(n, TICKS_PER_BEAT as i128);
    proof {
        lemma_x_reach(beat as int, pixels_per_beat as int, scroll_x as int);
    }
    (q - scroll_x as i128) as i64
}

/// From the least zoom of the editor on, a beat comes back from the pixel it is
/// drawn at.
pub proof fn law_beat_survives_the_screen(beat: int, ppb: int, scroll_x: int)
    requires
        beat >= 0,
        ppb >= PIANO_ROLL_MIN_PPB,
    ensures
        beat_of_x(x_of_beat(beat, ppb, scroll_x), ppb, scroll_x) == beat,
{
    let t = TICKS_PER_BEAT as int;
    let p = nearest(beat * ppb, t);
    lemma_nearest_bound(beat * ppb, t);
    assert(beat * ppb >= 0) by (nonlinear_arith)
        requires
            beat >= 0,
            ppb >= 0,
    ;
    assert(x_of_beat(beat, ppb, scroll_x) + scroll_x == p);
    lemma_nearest_of_near(p * t, ppb, beat);
}

/// A beat further on is never drawn further left.
pub proof fn law_screen_keeps_beat_order(a: int, b: int, ppb: int, scroll_x: int)
    requires
        a <= b,
    ensures
        x_of_beat(a, ppb, scroll_x) <= x_of_beat(b, ppb, scroll_x),
{
    let z = zoom(ppb);
    assert(a * z <= b * z) by (nonlinear_arith)
        requires
            a <= b,
            z > 0,
    ;
    crate::fixed::lemma_nearest_monotone(a * z, b * z, TICKS_PER_BEAT as int);
}

/// Horizontal axis of the roll while one clip is edited. The screen counts
/// project beats; notes count beats from the clip's origin.
#[derive(Debug, Clone, Copy, PartialEq, Eq, Structural)]
pub struct ClipAxis {
    pub ppb: i64,
    pub scroll_x: i64,
    /// Project beat where the edited clip starts.
    pub origin: i64,
}

impl ClipAxis {
    /// Factor and offsets are inside their limits.
    pub open spec fn valid(self) -> bool {
        self.ppb <= ZOOM_LIMIT && on_axis(self.scroll_x as int) && on_axis(self.origin as int)
    }

    /// Clip beat at a local x.
    pub open spec fn beat_at(self, x: int) -> int {
        beat_of_x(x, self.ppb as int, self.scroll_x as int) - self.origin
    }

    /// Local x of a clip beat.
    pub open spec fn x_at(self, beat: int) -> int {
        x_of_beat(beat + self.origin, self.ppb as int, self.scroll_x as int)
    }

    /// Clip beat under `local_x`.
    pub fn x_to_clip_beat(&self, local_x: i64) -> (beat: i64)
        requires
            self.valid(),
            on_axis(local_x as int),
        ensures
            beat == self.beat_at(local_x as int),
            self.ppb >= PIANO_ROLL_MIN_PPB ==> -POSITION_LIMIT <= beat <= 3 * POSITION_LIMIT,
    {
        local_x_to_beat(local_x, self.ppb, self.scroll_x) - self.origin
    }

    /// Local x of `beat` in the clip.
    pub fn clip_beat_to_x(&self, beat: i64) -> (x: i64)
        requires
            self.valid(),
            -2 * POSITION_LIMIT <= beat <= 2 * POSITION_LIMIT,
        ensures
            x == self.x_at(beat as int),
            -0x2000_0000_0000_0000 <= x <= 0x2000_0000_0000_0000,
    {
        beat_to_local_x(beat + self.origin, self.ppb, self.scroll_x)
    }
}

/// A beat of the edited clip comes back from the pixel it is drawn at.
pub proof fn law_clip_beat_survives_the_screen(axis: ClipAxis, beat: int)
    requires
        axis.ppb >= PIANO_ROLL_MIN_PPB,
        beat + axis.origin >= 0,
    ensures
        axis.beat_at(axis.x_at(beat)) == beat,
{
    law_beat_survives_the_screen(beat + axis.origin, axis.ppb as int, axis.scroll_x as int);
}

/// Row under a local y, counted from the top row.
pub open spec fn row_at(local_y: int, scroll_y: int, row_h: int) -> int {
    (local_y + scroll_y) / zoom(row_h)
}

/// Pitch of the row under a local y, held inside the MIDI range.
pub open spec fn pitch_at(local_y: int, scroll_y: int, row_h: int) -> int {
    crate::fixed::clamp_to(PITCH_COUNT - 1 - row_at(local_y, scroll_y, row_h), 0, PITCH_COUNT - 1)
}

/// Pitch of the row under `local_y`: higher pitches sit higher, rows outside the
/// MIDI range count as its ends. Keys and grid both go through this mapping.
pub fn local_y_to_pitch(local_y: i64, scroll_y: i64, row_h: i64) -> (pitch: u8)
    requires
        on_axis(local_y as int),
        on_axis(scroll_y as int),
    ensures
        pitch == pitch_at(local_y as int, scroll_y as int, row_h as int),
        pitch < PITCH_COUNT,
{
    let z: i128 = max_i64(row_h, ZOOM_FLOOR) as i128;
    let row: i128 = floor_div(local_y as i128 + scroll_y as i128, z);
    if row >= 127 {
        0
    } else if row <= 0 {
        127
    } else {
        (127 - row) as u8
    }
}

/// Continuous pitch at a local y, in pitch units: the middle of a row is the
/// row's own pitch.
pub open spec fn continuous_pitch_at(local_y: int, scroll_y: int, row_h: int) -> int {
    (PITCH_COUNT - 1) * SEMITONE - nearest(
        (2 * (local_y + scroll_y) - zoom(row_h)) * SEMITONE,
        2 * zoom(row_h),
    )
}

/// Continuous pitch under `local_y`, in pitch units.
pub fn local_y_to_pitch_units(local_y: i64, scroll_y: i64, row_h: i64) -> (pitch: i64)
    requires
        on_axis(local_y as int),
        on_axis(scroll_y as int),
        row_h <= ZOOM_LIMIT,
    ensures
        pitch == continuous_pitch_at(local_y as int, scroll_y as int, row_h as int),
        -0x4000_0000_0000_0000 <= pitch <= 0x4000_0000_0000_0000,
{
    let z: i128 = max_i64(row_h, ZOOM_FLOOR) as i128;
    let n: i128 = (2 * (local_y as i128 + scroll_y as i128) - z) * 1_000_000;
    let q: i128 = nearest_div(n, 2 * z);
    proof {
        lemma_nearest_bound(n as int, 2 * z as int);
        let s = local_y as int + scroll_y as int;
        assert(-0x3000_0000_0000_0000 <= q <= 0x3000_0000_0000_0000) by (nonlinear_arith)
            requires
                z >= 100,
                n == (2 * s - z) * 1_000_000,
                -(2 * z) <= 2 * (q * (2 * z) - n) <= 2 * z,
                -2 * 70_368_744_177_664 <= s <= 2 * 70_368_744_177_664,
        ;
    }
    (127_000_000 - q) as i64
}

/// A row further down is one semitone lower, wherever the view is scrolled to.
pub proof fn law_rows_go_down_by_semitones(local_y: int, scroll_y: int, row_h: int)
    requires
        row_h >= ZOOM_FLOOR,
    ensures
        row_at(local_y + row_h, scroll_y, row_h) == row_at(local_y, scroll_y, row_h) + 1,
        0 <= row_at(local_y, scroll_y, row_h) < PITCH_COUNT - 1 ==> pitch_at(local_y + row_h, scroll_y, row_h)
            == pitch_at(local_y, scroll_y, row_h) - 1,
        pitch_at(local_y + row_h, scroll_y, row_h) == pitch_at(local_y, scroll_y + row_h, row_h),
{
    vstd::arithmetic::div_mod::lemma_div_plus_one(local_y + scroll_y, row_h);
    assert(local_y + row_h + scroll_y == row_h + (local_y + scroll_y));
}

/// Every place of a pitch's row gives the pitch back.
pub proof fn law_row_holds_its_pitch(pitch: int, scroll_y: int, row_h: int, inside: int)
    requires
        0 <= pitch < PITCH_COUNT,
        row_h >= ZOOM_FLOOR,
        0 <= inside < row_h,
    ensures
        pitch_at((PITCH_COUNT - 1 - pitch) * row_h - scroll_y + inside, scroll_y, row_h) == pitch,
{
    let row = PITCH_COUNT - 1 - pitch;
    vstd::arithmetic::div_mod::lemma_fundamental_div_mod_converse(row * row_h + inside, row_h, row, inside);
    assert(row * row_h - scroll_y + inside + scroll_y == row * row_h + inside);
}

/// One label and tick position on the ruler.
#[derive(Debug)]
pub struct RulerMark {
    /// Local x in the grid.
    pub x: i64,
    /// Clip beat of the mark, in ticks.
    pub beat: i64,
    /// Bar number, or `bar.beat` where every beat is labelled.
    pub label: String,
    /// The mark falls on a bar line.
    pub on_bar: bool,
}

/// The coordinate transform of the MIDI editor. Surfaces that line up with the
/// piano roll share it, so there is one scroll position and one zoom.
#[derive(Debug, Clone, Copy, PartialEq, Eq, Structural)]
pub struct PianoRollViewport {
    /// Micro-pixels per beat (Zoom X).
    pub ppb: i64,
    pub scroll_x: i64,
    /// Micro-pixels per semitone (Zoom Y).
    pub row_h: i64,
    pub scroll_y: i64,
    /// Width of the piano-key gutter on the left.
    pub key_lane_width: i64,
    /// Snap step in ticks; zero when snapping is off.
    pub snap_step_beats: i64,
    /// Grid subdivision in ticks, shown whether or not snapping is on.
    pub sub_step_beats: i64,
    pub grid_width: i64,
    pub grid_height: i64,
}

/// How many bars lie between two lines when lines must be `min_px` apart and the
/// stride is at least `from`: doubled until they are, 256 at most.
pub open spec fn bar_stride(from: int, bpb: int, ppb: int, min_px: int) -> int
    decreases 2 * BAR_STRIDE_LIMIT - from,
{
    if from >= BAR_STRIDE_LIMIT || from <= 0 || from * bpb * ppb >= min_px * PX * TICKS_PER_BEAT {
        from
    } else {
        bar_stride(2 * from, bpb, ppb, min_px)
    }
}

fn find_bar_stride(bpb: i64, ppb: i64, min_px: i64) -> (bars: i64)
    requires
        0 <= bpb <= BAR_LIMIT,
        0 <= ppb <= ZOOM_LIMIT,
        0 <= min_px <= 1000,
    ensures
        bars == bar_stride(1, bpb as int, ppb as int, min_px as int),
        1 <= bars <= BAR_STRIDE_LIMIT,
{
    let need: i128 = min_px as i128 * 960_000_000_000;
    proof {
        assert(min_px * PX * TICKS_PER_BEAT == min_px * 960_000_000_000) by (nonlinear_arith);
        assert(bpb * ppb <= 68_719_476_736 * 4_294_967_296) by (nonlinear_arith)
            requires
                0 <= bpb <= 68_719_476_736,
                0 <= ppb <= 4_294_967_296,
        ;
        assert(bpb * ppb >= 0) by (nonlinear_arith)
            requires
                0 <= bpb,
                0 <= ppb,
        ;
    }
    let width: i128 = bpb as i128 * ppb as i128;
    let mut bars: i64 = 1;
    loop
        invariant
            0 <= bpb <= BAR_LIMIT,
            0 <= ppb <= ZOOM_LIMIT,
            need == min_px * PX * TICKS_PER_BEAT,
            width == bpb * ppb,
            0 <= width <= 68_719_476_736 * 4_294_967_296,
            1 <= bars <= BAR_STRIDE_LIMIT,
            bars == 1 || bars == 2 || bars == 4 || bars == 8 || bars == 16 || bars == 32 || bars == 64
                || bars == 128 || bars == 256,
            bar_stride(1, bpb as int, ppb as int, min_px as int) == bar_stride(
                bars as int,
                bpb as int,
                ppb as int,
                min_px as int,
            ),
        ensures
            bars == bar_stride(1, bpb as int, ppb as int, min_px as int),
            1 <= bars <= BAR_STRIDE_LIMIT,
        decreases BAR_STRIDE_LIMIT - bars,
    {
        proof {
            assert(bars * bpb * ppb == bars * width) by (nonlinear_arith)
                requires
                    width == bpb * ppb,
            ;
            assert(0 <= bars * width <= 256 * (68_719_476_736 * 4_294_967_296)) by (nonlinear_arith)
                requires
                    0 <= width <= 68_719_476_736 * 4_294_967_296,
                    1 <= bars <= 256,
            ;
        }
        if bars >= BAR_STRIDE_LIMIT || bars as i128 * width >= need {
            break;
        }
        bars = 2 * bars;
    }
    bars
}

/// Unless the stride is at its limit, lines a stride apart are at least `min_px`
/// pixels apart.
pub proof fn law_bar_stride_spreads_lines(from: int, bpb: int, ppb: int, min_px: int)
    requires
        0 < from <= BAR_STRIDE_LIMIT,
    ensures
        bar_stride(from, bpb, ppb, min_px) >= BAR_STRIDE_LIMIT
            || bar_stride(from, bpb, ppb, min_px) * bpb * ppb >= min_px * PX * TICKS_PER_BEAT,
        bar_stride(from, bpb, ppb, min_px) >= from,
    decreases BAR_STRIDE_LIMIT - from,
{
    if !(from >= BAR_STRIDE_LIMIT || from * bpb * ppb >= min_px * PX * TICKS_PER_BEAT) {
        if 2 * from <= BAR_STRIDE_LIMIT {
            law_bar_stride_spreads_lines(2 * from, bpb, ppb, min_px);
        }
    }
}

/// A bar of at least one beat.
pub open spec fn bar_length(bpb: int) -> int {
    max_of(bpb, TICKS_PER_BEAT as int)
}

/// The ruler labels every beat at this zoom.
pub open spec fn labels_beats(ppb: int) -> bool {
    zoom(ppb) >= 36 * PX
}

/// Ticks between two ruler marks: a beat where beats are labelled, else whole
/// bars at least 56 pixels apart.
pub open spec fn ruler_step(ppb: int, bpb: int) -> int {
    if labels_beats(ppb) {
        TICKS_PER_BEAT as int
    } else {
        bar_stride(1, bar_length(bpb), zoom(ppb), 56) * bar_length(bpb)
    }
}

/// Number of the bar that holds a beat, counted from one.
pub open spec fn bar_number(beat: int, bpb: int) -> int {
    beat / bar_length(bpb) + 1
}

/// Number of a beat inside its bar, counted from one.
pub open spec fn beat_number(beat: int, bpb: int) -> int {
    (beat - (bar_number(beat, bpb) - 1) * bar_length(bpb)) / TICKS_PER_BEAT as int + 1
}

/// Text of the ruler mark at a beat.
pub open spec fn ruler_label(beat: int, ppb: int, bpb: int) -> Seq<char> {
    if labels_beats(ppb) {
        decimal_text(bar_number(beat, bpb)) + "."@ + decimal_text(beat_number(beat, bpb))
    } else {
        decimal_text(bar_number(beat, bpb))
    }
}

/// First multiple of the step that a sweep from `start` takes, counted in steps.
pub open spec fn first_step(start: int, step: int) -> int {
    max_of(start / step, 0)
}

/// One past the last multiple of the step that a sweep to `end` takes: it goes
/// one step beyond `end`, and looks at no more than `limit` multiples.
pub open spec fn end_step(start: int, end: int, step: int, limit: int) -> int {
    min_of((end + step) / step + 1, start / step + limit)
}

impl PianoRollViewport {
    /// The transform's factors and offsets are inside their limits.
    pub open spec fn valid(self) -> bool {
        &&& self.ppb <= ZOOM_LIMIT
        &&& on_axis(self.scroll_x as int)
        &&& self.row_h <= ZOOM_LIMIT
        &&& on_axis(self.scroll_y as int)
        &&& self.snap_step_beats <= BAR_LIMIT
        &&& self.sub_step_beats <= BAR_LIMIT
    }

    /// Local x of `beat`.
    pub fn beat_to_x(&self, beat: i64) -> (x: i64)
        requires
            self.valid(),
            -4 * POSITION_LIMIT <= beat <= 4 * POSITION_LIMIT,
        ensures
            x == x_of_beat(beat as int, self.ppb as int, self.scroll_x as int),
            -0x2000_0000_0000_0000 <= x <= 0x2000_0000_0000_0000,
    {
        beat_to_local_x(beat, self.ppb, self.scroll_x)
    }

    /// Beat at `local_x`.
    pub fn x_to_beat(&self, local_x: i64) -> (beat: i64)
        requires
            self.valid(),
            on_axis(local_x as int),
        ensures
            beat == beat_of_x(local_x as int, self.ppb as int, self.scroll_x as int),
    {
        local_x_to_beat(local_x, self.ppb, self.scroll_x)
    }

    /// `beat` on the shared grid; unchanged while snapping is off.
    pub fn snap(&self, beat: i64) -> (r: i64)
        requires
            self.valid(),
            on_axis(beat as int),
        ensures
            r == snapped(beat as int, self.snap_step_beats as int),
    {
        snap_beat_to_step(beat, self.snap_step_beats)
    }

    /// First and last beat visible in a lane of `width`.
    pub fn visible_beats(&self, width: i64) -> (r: (i64, i64))
        requires
            self.valid(),
            width <= POSITION_LIMIT,
        ensures
            r.0 == beat_of_x(0, self.ppb as int, self.scroll_x as int),
            r.1 == beat_of_x(max_of(width as int, PX as int), self.ppb as int, self.scroll_x as int),
    {
        (self.x_to_beat(0), self.x_to_beat(max_i64(width, PX)))
    }

    /// Top edge of the row of a pitch given in pitch units.
    pub open spec fn row_top(self, pitch: int) -> int {
        (PITCH_COUNT - 1) * self.row_h - nearest(pitch * self.row_h, SEMITONE as int) - self.scroll_y
    }

    /// Top edge of a pitch row.
    pub fn pitch_row_top(&self, pitch: i64) -> (y: i64)
        requires
            self.valid(),
            self.row_h >= 0,
            -1000 * SEMITONE <= pitch <= 1000 * SEMITONE,
        ensures
            y == self.row_top(pitch as int),
            -0x1000_0000_0000_0000 <= y <= 0x1000_0000_0000_0000,
    {
        proof {
            assert(-1_000_000_000 * 4_294_967_296 <= pitch * self.row_h <= 1_000_000_000 * 4_294_967_296)
                by (nonlinear_arith)
                requires
                    -1_000_000_000 <= pitch <= 1_000_000_000,
                    0 <= self.row_h <= 4_294_967_296,
            ;
        }
        let n: i128 = pitch as i128 * self.row_h as i128;
        let q: i128 = nearest_div(n, SEMITONE as i128);
        proof {
            lemma_nearest_bound(n as int, SEMITONE as int);
        }
        (127 * self.row_h as i128 - q - self.scroll_y as i128) as i64
    }

    /// Centre line of a pitch row, where a continuous pitch of exactly that
    /// value is drawn.
    pub fn pitch_center_y(&self, pitch: i64) -> (y: i64)
        requires
            self.valid(),
            self.row_h >= 0,
            -1000 * SEMITONE <= pitch <= 1000 * SEMITONE,
        ensures
            y == self.row_top(pitch as int) + self.row_h as int / 2,
    {
        self.pitch_row_top(pitch) + self.row_h / 2
    }

    /// Continuous pitch at `local_y`, in pitch units.
    pub fn y_to_pitch_continuous(&self, local_y: i64) -> (pitch: i64)
        requires
            self.valid(),
            on_axis(local_y as int),
        ensures
            pitch == continuous_pitch_at(local_y as int, self.scroll_y as int, self.row_h as int),
            -0x4000_0000_0000_0000 <= pitch <= 0x4000_0000_0000_0000,
    {
        local_y_to_pitch_units(local_y, self.scroll_y, self.row_h)
    }

    /// Lowest semitone that shows in a view of a height, with one row to spare.
    pub open spec fn lowest_visible(self, height: int) -> int {
        max_of(
            continuous_pitch_at(max_of(height, PX as int), self.scroll_y as int, self.row_h as int) / SEMITONE as int - 1,
            0,
        )
    }

    /// Highest semitone that shows, with one row to spare.
    pub open spec fn highest_visible(self) -> int {
        min_of(
            -((-continuous_pitch_at(0, self.scroll_y as int, self.row_h as int)) / SEMITONE as int) + 1,
            PITCH_COUNT - 1,
        )
    }

    /// Semitones that cover a view of `height`, padded by one row at each end.
    pub fn visible_pitches(&self, height: i64) -> (r: (i64, i64))
        requires
            self.valid(),
            height <= POSITION_LIMIT,
        ensures
            r.0 == self.lowest_visible(height as int),
            r.1 == self.highest_visible(),
    {
        let bottom: i64 = self.y_to_pitch_continuous(max_i64(height, PX));
        let top: i64 = self.y_to_pitch_continuous(0);
        let low: i128 = floor_div(bottom as i128, SEMITONE as i128) - 1;
        let high: i128 = -floor_div(-(top as i128), SEMITONE as i128) + 1;
        (max_i64(low as i64, 0), crate::fixed::min_i64(high as i64, 127))
    }

    /// Bar and beat marks across `[start_beat, end_beat]`: every beat from 36
    /// pixels per beat on, else bars, at least 56 pixels apart.
    pub fn ruler_marks(&self, start_beat: i64, end_beat: i64, bpb: i64) -> (out: Vec<RulerMark>)
        requires
            self.valid(),
            on_axis(start_beat as int),
            on_axis(end_beat as int),
            bpb <= BAR_LIMIT,
        ensures
            ({
                let step = ruler_step(self.ppb as int, bpb as int);
                let first = first_step(start_beat as int, step);
                let end = end_step(start_beat as int, end_beat as int, step, RULER_MARK_LIMIT as int);
                &&& out@.len() == max_of(end - first, 0)
                &&& forall|i: int|
                    0 <= i < out@.len() ==> {
                        let beat = (first + i) * step;
                        &&& (#[trigger] out@[i]).beat == beat
                        &&& out@[i].x == x_of_beat(beat, self.ppb as int, self.scroll_x as int)
                        &&& out@[i].label@ == ruler_label(beat, self.ppb as int, bpb as int)
                        &&& out@[i].on_bar == near_multiple(beat, bar_length(bpb as int))
                    }
            }),
    {
        let ppb: i64 = max_i64(self.ppb, ZOOM_FLOOR);
        let bar_len: i64 = max_i64(bpb, TICKS_PER_BEAT);
        let label_beats = ppb >= 36_000_000;
        let step: i64 = if label_beats {
            TICKS_PER_BEAT
        } else {
            let bars: i64 = find_bar_stride(bar_len, ppb, 56);
            assert(960_000 <= bars * bar_len <= 256 * 68_719_476_736) by (nonlinear_arith)
                requires
                    1 <= bars <= 256,
                    960_000 <= bar_len <= 68_719_476_736,
            ;
            bars * bar_len
        };
        let ghost gstep = ruler_step(self.ppb as int, bpb as int);
        assert(step == gstep);
        let lo: i64 = floor_div(start_beat as i128, step as i128) as i64;
        let last: i64 = floor_div(end_beat as i128 + step as i128, step as i128) as i64;
        proof {
            lemma_floor_bound(start_beat as int, step as int);
            lemma_floor_bound(end_beat as int + step as int, step as int);
        }
        let ghost first = first_step(start_beat as int, gstep);
        let ghost end = end_step(start_beat as int, end_beat as int, gstep, RULER_MARK_LIMIT as int);
        let mut out: Vec<RulerMark> = Vec::new();
        let mut k: i64 = max_i64(lo, 0);
        let stop: i64 = crate::fixed::min_i64(last + 1, lo + RULER_MARK_LIMIT);
        while k < stop
            invariant
                self.valid(),
                on_axis(end_beat as int),
                bpb <= BAR_LIMIT,
                ppb == zoom(self.ppb as int),
                bar_len == bar_length(bpb as int),
                label_beats == labels_beats(self.ppb as int),
                step == gstep,
                TICKS_PER_BEAT <= step <= 256 * 68_719_476_736,
                last == (end_beat + step) / step as int,
                last * step <= end_beat + step,
                last <= 4 * POSITION_LIMIT,
                k >= first,
                first >= 0,
                stop == end,
                stop <= last + 1,
                k <= max_of(end, first),
                out@.len() == k - first,
                forall|i: int|
                    0 <= i < out@.len() ==> {
                        let beat = (first + i) * gstep;
                        &&& (#[trigger] out@[i]).beat == beat
                        &&& out@[i].x == x_of_beat(beat, self.ppb as int, self.scroll_x as int)
                        &&& out@[i].label@ == ruler_label(beat, self.ppb as int, bpb as int)
                        &&& out@[i].on_bar == near_multiple(beat, bar_length(bpb as int))
                    },
            decreases stop - k,
        {
            proof {
                assert(0 <= k * step <= last * step) by (nonlinear_arith)
                    requires
                        0 <= k <= last,
                        step > 0,
                ;
            }
            let b: i64 = k * step;
            let bar: i64 = b / bar_len + 1;
            let on_bar = is_multiple(b, bar_len);
            let mut label = String::new();
            push_decimal(&mut label, bar);
            if label_beats {
                proof {
                    vstd::arithmetic::div_mod::lemma_fundamental_div_mod(b as int, bar_len as int);
                    assert((bar - 1) * bar_len == bar_len * (b as int / bar_len as int)) by (nonlinear_arith)
                        requires
                            bar - 1 == b as int / bar_len as int,
                    ;
                }
                let inside: i64 = b - (bar - 1) * bar_len;
                let beat_in_bar: i64 = inside / TICKS_PER_BEAT + 1;
                label.append(".");
                push_decimal(&mut label, beat_in_bar);
                assert(label@ =~= ruler_label(b as int, self.ppb as int, bpb as int));
            } else {
                assert(label@ =~= ruler_label(b as int, self.ppb as int, bpb as int));
            }
            let x: i64 = self.beat_to_x(b);
            out.push(RulerMark { x, beat: b, label, on_bar });
            k = k + 1;
        }
        out
    }

    /// Ticks between two bar lines: bars at least 18 pixels apart.
    pub open spec fn bar_line_step(self, bpb: int) -> int {
        bar_stride(1, bar_length(bpb), zoom(self.ppb as int), 18) * bar_length(bpb)
    }

    /// Beat lines show at this zoom.
    pub open spec fn shows_beats(self) -> bool {
        zoom(self.ppb as int) >= 10 * PX
    }

    /// Subdivision in ticks, at least 1/32 of a beat.
    pub open spec fn sub_step(self) -> int {
        max_of(self.sub_step_beats as int, TICKS_PER_BEAT as int / 32)
    }

    /// Subdivision lines show at this zoom.
    pub open spec fn shows_subs(self) -> bool {
        self.shows_beats() && self.sub_step() * zoom(self.ppb as int) >= 7 * PX * TICKS_PER_BEAT && zoom(
            self.ppb as int,
        ) >= 24 * PX
    }

    /// Ticks of the finest tier that shows: the walk over the grid starts and
    /// ends on a multiple of it.
    pub open spec fn grid_sweep_step(self, bpb: int) -> int {
        if self.shows_subs() {
            min_of(self.sub_step(), TICKS_PER_BEAT as int)
        } else if self.shows_beats() {
            TICKS_PER_BEAT as int
        } else {
            self.bar_line_step(bpb)
        }
    }

    /// First beat that the grid from `start` looks at.
    pub open spec fn grid_from(self, start: int, bpb: int) -> int {
        let step = self.grid_sweep_step(bpb);
        first_step(start, step) * step
    }

    /// Last beat that the grid from `start` to `end` looks at.
    pub open spec fn grid_to(self, start: int, end: int, bpb: int) -> int {
        let step = self.grid_sweep_step(bpb);
        (end_step(start, end, step, GRID_LINE_LIMIT as int) - 1) * step
    }

    /// The line at a beat, if one is drawn there. Bars come first: a bar that is
    /// passed over at this zoom gives no line of a lower tier in its place.
    pub open spec fn line_at(self, beat: int, bpb: int) -> Option<GridLineKind> {
        if beat % self.bar_line_step(bpb) == 0 {
            Some(GridLineKind::Bar)
        } else if near_multiple(beat, bar_length(bpb)) {
            None
        } else if self.shows_beats() && beat % (TICKS_PER_BEAT as int) == 0 {
            Some(GridLineKind::Beat)
        } else if self.shows_subs() && beat % self.sub_step() == 0 && !near_multiple(beat, TICKS_PER_BEAT as int) {
            Some(GridLineKind::Subdivision)
        } else {
            None
        }
    }

    /// The lines at the beats `from..end`, in order.
    pub open spec fn lines_in(self, from: int, end: int, bpb: int) -> Seq<(int, GridLineKind)>
        decreases end - from,
    {
        if end <= from {
            Seq::empty()
        } else {
            let before = self.lines_in(from, end - 1, bpb);
            match self.line_at(end - 1, bpb) {
                Some(kind) => before.push((end - 1, kind)),
                None => before,
            }
        }
    }

    /// The lines of the grid from `start` to `end`, in order.
    pub open spec fn lines_shown(self, start: int, end: int, bpb: int) -> Seq<(int, GridLineKind)> {
        self.lines_in(self.grid_from(start, bpb), self.grid_to(start, end, bpb) + 1, bpb)
    }

    /// Vertical grid lines across `[start_beat, end_beat]`, thinned by zoom.
    pub fn grid_lines(&self, start_beat: i64, end_beat: i64, bpb: i64) -> (out: Vec<(i64, GridLineKind)>)
        requires
            self.valid(),
            on_axis(start_beat as int),
            on_axis(end_beat as int),
            bpb <= BAR_LIMIT,
        ensures
            ({
                let lines = self.lines_shown(start_beat as int, end_beat as int, bpb as int);
                &&& out@.len() == lines.len()
                &&& forall|i: int|
                    0 <= i < out@.len() ==> (#[trigger] out@[i]).0 == x_of_beat(
                        lines[i].0,
                        self.ppb as int,
                        self.scroll_x as int,
                    ) && out@[i].1 == lines[i].1
            }),
    {
        let ppb: i64 = max_i64(self.ppb, ZOOM_FLOOR);
        let bar_len: i64 = max_i64(bpb, TICKS_PER_BEAT);
        let show_beats = ppb >= 10_000_000;
        let sub: i64 = max_i64(self.sub_step_beats, 30_000);
        proof {
            assert(0 <= sub * ppb <= 68_719_476_736 * 4_294_967_296) by (nonlinear_arith)
                requires
                    0 <= sub <= 68_719_476_736,
                    0 <= ppb <= 4_294_967_296,
            ;
        }
        let show_subs = show_beats && sub as i128 * ppb as i128 >= 6_720_000_000_000 && ppb >= 24_000_000;
        let bars: i64 = find_bar_stride(bar_len, ppb, 18);
        proof {
            assert(0 < bars * bar_len <= 256 * 68_719_476_736) by (nonlinear_arith)
                requires
                    1 <= bars <= 256,
                    1 <= bar_len <= 68_719_476_736,
            ;
        }
        let bar_step: i64 = bars * bar_len;
        let step: i64 = if show_subs {
            crate::fixed::min_i64(sub, TICKS_PER_BEAT)
        } else if show_beats {
            TICKS_PER_BEAT
        } else {
            bar_step
        };
        let ghost gstep = self.grid_sweep_step(bpb as int);
        assert(step == gstep);
        let lo: i64 = floor_div(start_beat as i128, step as i128) as i64;
        let last: i64 = floor_div(end_beat as i128 + step as i128, step as i128) as i64;
        proof {
            lemma_floor_bound(start_beat as int, step as int);
            lemma_floor_bound(end_beat as int + step as int, step as int);
        }
        let k: i64 = max_i64(lo, 0);
        let stop: i64 = crate::fixed::min_i64(last + 1, lo + GRID_LINE_LIMIT);
        let mut out: Vec<(i64, GridLineKind)> = Vec::new();
        let ghost from = self.grid_from(start_beat as int, bpb as int);
        let ghost to = self.grid_to(start_beat as int, end_beat as int, bpb as int);
        assert(from == k * gstep);
        assert(to == (stop - 1) * gstep);
        if stop <= k {
            proof {
                assert((stop - 1) * gstep < k * gstep) by (nonlinear_arith)
                    requires
                        stop <= k,
                        gstep > 0,
                ;
            }
            return out;
        }
        proof {
            assert(0 <= k * step <= (stop - 1) * step <= last * step) by (nonlinear_arith)
                requires
                    0 <= k <= stop - 1 <= last,
                    step > 0,
            ;
        }
        let mut b: i64 = k * step;
        let to_beat: i64 = (stop - 1) * step;
        while b <= to_beat
            invariant
                self.valid(),
                bpb <= BAR_LIMIT,
                bar_len == bar_length(bpb as int),
                bar_step == self.bar_line_step(bpb as int),
                0 < bar_step <= 256 * 68_719_476_736,
                TICKS_PER_BEAT <= bar_len <= BAR_LIMIT,
                show_beats == self.shows_beats(),
                show_subs == self.shows_subs(),
                sub == self.sub_step(),
                30_000 <= sub <= BAR_LIMIT,
                0 <= from <= b,
                to == to_beat,
                to_beat <= 2 * POSITION_LIMIT,
                b <= to_beat + 256 * 68_719_476_736,
                ({
                    let lines = self.lines_in(from, min_of(b as int, to + 1), bpb as int);
                    &&& out@.len() == lines.len()
                    &&& forall|i: int|
                        0 <= i < out@.len() ==> (#[trigger] out@[i]).0 == x_of_beat(
                            lines[i].0,
                            self.ppb as int,
                            self.scroll_x as int,
                        ) && out@[i].1 == lines[i].1
                }),
            decreases to_beat - b + 256 * 68_719_476_736,
        {
            let kind = if b % bar_step == 0 {
                Some(GridLineKind::Bar)
            } else if is_multiple(b, bar_len) {
                None
            } else if show_beats && b % TICKS_PER_BEAT == 0 {
                Some(GridLineKind::Beat)
            } else if show_subs && b % sub == 0 && !is_multiple(b, TICKS_PER_BEAT) {
                Some(GridLineKind::Subdivision)
            } else {
                None
            };
            assert(kind == self.line_at(b as int, bpb as int));
            if let Some(kind) = kind {
                out.push((self.beat_to_x(b), kind));
            }
            let mut next: i64 = multiple_after(b, bar_step);
            if show_beats {
                next = crate::fixed::min_i64(next, multiple_after(b, TICKS_PER_BEAT));
            }
            if show_subs {
                next = crate::fixed::min_i64(next, multiple_after(b, sub));
            }
            proof {
                assert forall|c: int| b < c < next implies #[trigger] self.line_at(c, bpb as int) is None by {
                    lemma_no_multiple_between(b as int, c, bar_step as int);
                    if show_beats {
                        lemma_no_multiple_between(b as int, c, TICKS_PER_BEAT as int);
                    }
                    if show_subs {
                        lemma_no_multiple_between(b as int, c, sub as int);
                    }
                }
                self.lemma_bare_stretch(from, b + 1, min_of(next as int, to + 1), bpb as int);
            }
            b = next;
        }
        out
    }

    /// A stretch without lines adds none.
    proof fn lemma_bare_stretch(self, from: int, a: int, c: int, bpb: int)
        requires
            a <= c,
            forall|b: int| a <= b < c ==> #[trigger] self.line_at(b, bpb) is None,
        ensures
            self.lines_in(from, c, bpb) == self.lines_in(from, a, bpb),
        decreases c - a,
    {
        if a < c {
            self.lemma_bare_stretch(from, a, c - 1, bpb);
            assert(self.line_at(c - 1, bpb) is None);
            if c <= from {
                assert(self.lines_in(from, c, bpb) =~= self.lines_in(from, a, bpb));
            }
        }
    }

    /// Each line of a stretch lies in it and is the line at its beat, and the
    /// lines go up.
    proof fn lemma_lines_in(self, from: int, end: int, bpb: int)
        ensures
            forall|i: int|
                0 <= i < self.lines_in(from, end, bpb).len() ==> {
                    let line = #[trigger] self.lines_in(from, end, bpb)[i];
                    from <= line.0 < end && self.line_at(line.0, bpb) == Some(line.1)
                },
            forall|i: int, j: int|
                0 <= i < j < self.lines_in(from, end, bpb).len() ==> (#[trigger] self.lines_in(from, end, bpb)[i]).0 < (
                #[trigger] self.lines_in(from, end, bpb)[j]).0,
        decreases end - from,
    {
        if end > from {
            self.lemma_lines_in(from, end - 1, bpb);
        }
    }

    /// A longer stretch begins with the lines of a shorter one.
    proof fn lemma_lines_continue(self, from: int, a: int, c: int, bpb: int)
        requires
            a <= c,
        ensures
            self.lines_in(from, a, bpb).is_prefix_of(self.lines_in(from, c, bpb)),
        decreases c - a,
    {
        if a < c {
            self.lemma_lines_continue(from, a, c - 1, bpb);
            if c > from {
                let before = self.lines_in(from, c - 1, bpb);
                assert(before.is_prefix_of(self.lines_in(from, c, bpb)));
            }
        }
    }

    /// A beat that has a line is among the lines of a stretch around it.
    proof fn lemma_line_is_listed(self, from: int, end: int, bpb: int, beat: int)
        requires
            from <= beat < end,
            self.line_at(beat, bpb) is Some,
        ensures
            self.lines_in(from, end, bpb).contains((beat, self.line_at(beat, bpb)->0)),
        decreases end - from,
    {
        let lines = self.lines_in(from, end, bpb);
        if beat == end - 1 {
            assert(lines.last() == (beat, self.line_at(beat, bpb)->0));
            assert(lines[lines.len() - 1] == (beat, self.line_at(beat, bpb)->0));
        } else {
            self.lemma_line_is_listed(from, end - 1, bpb, beat);
            let before = self.lines_in(from, end - 1, bpb);
            let i = before.index_of((beat, self.line_at(beat, bpb)->0));
            assert(lines[i] == before[i]);
        }
    }
}

/// Every bar line, beat line and subdivision line that the zoom shows stands at
/// its beat, whatever the steps of the other tiers are: bars at each multiple of
/// the bar step; beats, once they show, wherever no bar is; subdivisions, once
/// they show, wherever neither is.
pub proof fn law_every_bar_and_beat_has_its_line(view: PianoRollViewport, start: int, end: int, bpb: int, beat: int)
    requires
        view.grid_from(start, bpb) <= beat <= view.grid_to(start, end, bpb),
    ensures
        beat % view.bar_line_step(bpb) == 0 ==> view.lines_shown(start, end, bpb).contains((beat, GridLineKind::Bar)),
        view.shows_beats() && beat % (TICKS_PER_BEAT as int) == 0 && !near_multiple(beat, bar_length(bpb))
            ==> view.lines_shown(start, end, bpb).contains((beat, GridLineKind::Beat)),
        view.shows_subs() && beat % view.sub_step() == 0 && !near_multiple(beat, bar_length(bpb)) && !near_multiple(
            beat,
            TICKS_PER_BEAT as int,
        ) ==> view.lines_shown(start, end, bpb).contains((beat, GridLineKind::Subdivision)),
{
    lemma_bar_steps(view, bpb, beat);
    lemma_near_own_multiple(beat, TICKS_PER_BEAT as int);
    if view.line_at(beat, bpb) is Some {
        view.lemma_line_is_listed(view.grid_from(start, bpb), view.grid_to(start, end, bpb) + 1, bpb, beat);
    }
}

/// The grid draws nothing but those lines, each once, from left to right.
pub proof fn law_grid_lines_go_right(view: PianoRollViewport, start: int, end: int, bpb: int, i: int, j: int)
    requires
        0 <= i < j < view.lines_shown(start, end, bpb).len(),
    ensures
        ({
            let lines = view.lines_shown(start, end, bpb);
            &&& view.grid_from(start, bpb) <= lines[i].0 < lines[j].0 <= view.grid_to(start, end, bpb)
            &&& view.line_at(lines[i].0, bpb) == Some(lines[i].1)
            &&& view.line_at(lines[j].0, bpb) == Some(lines[j].1)
            &&& x_of_beat(lines[i].0, view.ppb as int, view.scroll_x as int) <= x_of_beat(
                lines[j].0,
                view.ppb as int,
                view.scroll_x as int,
            )
        }),
{
    let lines = view.lines_shown(start, end, bpb);
    view.lemma_lines_in(view.grid_from(start, bpb), view.grid_to(start, end, bpb) + 1, bpb);
    law_screen_keeps_beat_order(lines[i].0, lines[j].0, view.ppb as int, view.scroll_x as int);
}

/// The grid reaches over the whole stretch that it is asked for, as long as the
/// stretch holds no more steps than one grid looks at.
pub proof fn law_grid_reaches_both_ends(view: PianoRollViewport, start: int, end: int, bpb: int)
    requires
        0 <= start <= end,
        end - start <= (GRID_LINE_LIMIT - 3) * view.grid_sweep_step(bpb),
    ensures
        view.grid_from(start, bpb) <= start,
        end <= view.grid_to(start, end, bpb),
{
    let step = view.grid_sweep_step(bpb);
    lemma_bar_steps(view, bpb, 0);
    lemma_floor_bound(start, step);
    lemma_floor_bound(end + step, step);
    let lo = start / step;
    let last = (end + step) / step;
    assert(last <= lo + (GRID_LINE_LIMIT - 1)) by (nonlinear_arith)
        requires
            step > 0,
            last * step <= end + step,
            start < lo * step + step,
            end - start <= (GRID_LINE_LIMIT - 3) * step,
    ;
    assert(last * step == (last + 1 - 1) * step);
}

/// A grid that goes further begins with the lines of one that stops earlier, so
/// the lines of a lane go on from those of the note grid above it.
pub proof fn law_longer_grid_continues_the_shorter(view: PianoRollViewport, start: int, end: int, further: int, bpb: int)
    requires
        end <= further,
    ensures
        view.lines_shown(start, end, bpb).is_prefix_of(view.lines_shown(start, further, bpb)),
{
    let step = view.grid_sweep_step(bpb);
    lemma_bar_steps(view, bpb, 0);
    vstd::arithmetic::div_mod::lemma_div_is_ordered(end + step, further + step, step);
    let short = end_step(start, end, step, GRID_LINE_LIMIT as int) - 1;
    let long = end_step(start, further, step, GRID_LINE_LIMIT as int) - 1;
    assert(short * step <= long * step) by (nonlinear_arith)
        requires
            short <= long,
            step > 0,
    ;
    view.lemma_lines_continue(
        view.grid_from(start, bpb),
        view.grid_to(start, end, bpb) + 1,
        view.grid_to(start, further, bpb) + 1,
        bpb,
    );
}

/// Bars stand a whole number of bars apart, and a bar counts as one.
proof fn lemma_bar_steps(view: PianoRollViewport, bpb: int, beat: int)
    ensures
        view.bar_line_step(bpb) >= TICKS_PER_BEAT,
        beat % view.bar_line_step(bpb) == 0 ==> near_multiple(beat, bar_length(bpb)),
{
    let len = bar_length(bpb);
    let bars = bar_stride(1, len, zoom(view.ppb as int), 18);
    law_bar_stride_spreads_lines(1, len, zoom(view.ppb as int), 18);
    assert(bars * len >= len) by (nonlinear_arith)
        requires
            bars >= 1,
            len > 0,
    ;
    if beat % view.bar_line_step(bpb) == 0 {
        let q = beat / view.bar_line_step(bpb);
        vstd::arithmetic::div_mod::lemma_fundamental_div_mod(beat, view.bar_line_step(bpb));
        assert(beat == (q * bars) * len) by (nonlinear_arith)
            requires
                beat == (bars * len) * q + 0,
        ;
        vstd::arithmetic::div_mod::lemma_mod_multiples_basic(q * bars, len);
        lemma_near_own_multiple(beat, len);
    }
}

/// A multiple lies within the tolerance of itself.
proof fn lemma_near_own_multiple(beat: int, m: int)
    requires
        m > 0,
    ensures
        beat % m == 0 ==> near_multiple(beat, m),
{
    if beat % m == 0 {
        let q = beat / m;
        vstd::arithmetic::div_mod::lemma_fundamental_div_mod(beat, m);
        assert(m * q == q * m) by (nonlinear_arith);
        lemma_nearest_of_near(beat, m, q);
    }
}

/// First multiple of `m` after `b`.
fn multiple_after(b: i64, m: i64) -> (r: i64)
    requires
        0 <= b <= 4 * POSITION_LIMIT,
        0 < m <= 256 * 68_719_476_736,
    ensures
        r == (b as int / m as int + 1) * m,
        b < r <= b + m,
{
    proof {
        lemma_floor_bound(b as int, m as int);
        assert((b as int / m as int + 1) * m == (b as int / m as int) * m + m) by (nonlinear_arith);
    }
    (b / m + 1) * m
}

/// No multiple lies between a beat and the next multiple after it.
proof fn lemma_no_multiple_between(a: int, c: int, m: int)
    requires
        m > 0,
        a < c < (a / m + 1) * m,
    ensures
        c % m != 0,
{
    lemma_floor_bound(a, m);
    if c % m == 0 {
        vstd::arithmetic::div_mod::lemma_fundamental_div_mod(c, m);
        let q = c / m;
        let p = a / m;
        assert(false) by (nonlinear_arith)
            requires
                m > 0,
                c == m * q + 0,
                p * m <= a,
                a < c,
                c < (p + 1) * m,
        ;
    }
}

/// A pitch comes back from the centre line that it is drawn at.
pub proof fn law_pitch_survives_the_screen(view: PianoRollViewport, pitch: int)
    requires
        view.row_h >= PIANO_ROLL_MIN_ROW_H,
    ensures
        continuous_pitch_at(
            view.row_top(pitch) + view.row_h as int / 2,
            view.scroll_y as int,
            view.row_h as int,
        ) == pitch,
{
    let h = view.row_h as int;
    let unit = SEMITONE as int;
    let q = nearest(pitch * h, unit);
    lemma_nearest_bound(pitch * h, unit);
    let e = h - 2 * (h / 2);
    let a = (254 * h - 2 * q - e) * unit;
    let k = 127 * unit - pitch;
    let gap = 2 * (q * unit - pitch * h) + e * unit;
    assert(k * (2 * h) - a == gap) by (nonlinear_arith)
        requires
            a == (254 * h - 2 * q - e) * unit,
            k == 127 * unit - pitch,
            gap == 2 * (q * unit - pitch * h) + e * unit,
    ;
    assert(0 <= e * unit <= unit) by (nonlinear_arith)
        requires
            0 <= e <= 1,
            unit > 0,
    ;
    crate::fixed::lemma_nearest_of_near(a, 2 * h, k);
    assert(2 * (view.row_top(pitch) + h / 2 + view.scroll_y) - h == 254 * h - 2 * q - e);
}

proof fn lemma_floor_bound(a: int, b: int)
    requires
        b > 0,
    ensures
        (a / b) * b <= a < (a / b) * b + b,
        a >= 0 ==> 0 <= a / b <= a,
        a < 0 ==> a <= a / b < 0,
{
    vstd::arithmetic::div_mod::lemma_fundamental_div_mod(a, b);
    vstd::arithmetic::div_mod::lemma_mod_bound(a, b);
    let q = a / b;
    assert(b * q == q * b) by (nonlinear_arith);
    if a >= 0 {
        assert(0 <= q <= a) by (nonlinear_arith)
            requires
                b > 0,
                q * b <= a < q * b + b,
                a >= 0,
        ;
    } else {
        assert(a <= q < 0) by (nonlinear_arith)
            requires
                b > 0,
                q * b <= a < q * b + b,
                a < 0,
        ;
    }
}

} // verus!
