//! Scrolling, zooming and fitting the view.

use crate::drag::{in_window, notes_in_song, on_surface};
use crate::fixed::{
    clamp_i64, clamp_to, lemma_nearest_bound, magnitude, max_i64, max_of, min_i64, min_of, nearest, nearest_div,
    on_axis, MIN_NOTE_TICKS, PX, SCROLL_TICKS, SEMITONE, SONG_LIMIT, TICKS_PER_BEAT, VALUE_ONE, WINDOW_LIMIT,
};
use crate::grid::{published_step, viewport_snap_step};
use crate::marquee::Modifiers;
use crate::midi::{copy_notes, notes_in, snapshot_notes, MidiNote};
use crate::note_edits::{earliest_start, latest_end, note_extent};
use crate::roll::{lemma_scroll_bound, ClipView, PianoRoll};
use crate::scope::{furthest_end, spans_in_song};
use crate::viewport::{
    PianoRollViewport, DEFAULT_ROW_H, PIANO_ROLL_MAX_PPB, PIANO_ROLL_MAX_ROW_H, PIANO_ROLL_MIN_PPB,
    PIANO_ROLL_MIN_ROW_H, PITCH_COUNT,
};
use vstd::prelude::*;

verus! {

/// Air left around what the view is fitted to.
pub const PIANO_ROLL_FIT_PAD_PX: i64 = 48_000_000;

/// Beats past the last clip that the view still scrolls over.
pub const TRAILING_BEATS: i64 = 4;

/// Zoom changes below this change nothing.
pub const ZOOM_TOLERANCE: i64 = 100;

/// Largest zoom factor, in billionths.
pub const FACTOR_LIMIT: i64 = 1_000_000_000_000_000;

/// Scroll that keeps the place under `anchor` there while the scale changes.
pub open spec fn anchored(anchor: int, scroll: int, before: int, after: int) -> int {
    nearest((anchor + scroll) * after, before) - anchor
}

/// The place under the anchor stays under it, to within half a unit of the new
/// scale.
pub proof fn law_zoom_keeps_the_anchor(anchor: int, scroll: int, before: int, after: int)
    requires
        before > 0,
    ensures
        2 * magnitude((anchor + anchored(anchor, scroll, before, after)) * before - (anchor + scroll) * after) <= before,
{
    lemma_nearest_bound((anchor + scroll) * after, before);
}

/// A scale multiplied by a factor in billionths, inside its limits.
pub open spec fn scaled(scale: int, factor: int, lo: int, hi: int) -> int {
    clamp_to(nearest(scale * factor, VALUE_ONE as int), lo, hi)
}

fn scale_by(scale: i64, factor: i64, lo: i64, hi: i64) -> (r: i64)
    requires
        0 < scale <= 400_000_000,
        0 <= factor <= FACTOR_LIMIT,
        0 <= lo <= hi <= 400_000_000,
    ensures
        r == scaled(scale as int, factor as int, lo as int, hi as int),
        lo <= r <= hi,
{
    assert(0 <= scale * factor <= 400_000_000 * 1_000_000_000_000_000) by (nonlinear_arith)
        requires
            0 <= scale <= 400_000_000,
            0 <= factor <= 1_000_000_000_000_000,
    ;
    let q = nearest_div(scale as i128 * factor as i128, 1_000_000_000);
    proof {
        lemma_nearest_bound(scale * factor, 1_000_000_000);
    }
    clamp_i64(q as i64, lo, hi)
}

fn anchored_scroll(anchor: i64, scroll: i64, before: i64, after: i64) -> (r: i64)
    requires
        0 <= anchor <= WINDOW_LIMIT,
        0 <= scroll <= 58_000_000_000_000,
        PIANO_ROLL_MIN_PPB <= before <= 400_000_000,
        0 < after <= 400_000_000,
    ensures
        r == anchored(anchor as int, scroll as int, before as int, after as int),
        on_axis(r as int / 512),
{
    let a = (anchor as i128 + scroll as i128);
    assert(0 <= a * after <= 59_000_000_000_000 * 400_000_000) by (nonlinear_arith)
        requires
            0 <= a <= 59_000_000_000_000,
            0 < after <= 400_000_000,
    ;
    let q = nearest_div(a * after as i128, before as i128);
    proof {
        lemma_nearest_bound(a * after, before as int);
        assert(q <= 24_000_000_000_000_000) by (nonlinear_arith)
            requires
                2 * (q * before - a * after) <= before,
                a * after <= 59_000_000_000_000 * 400_000_000,
                before >= 1_000_000,
        ;
    }
    (q - anchor as i128) as i64
}

/// A horizontal scroll that the view can hold at this zoom.
pub open spec fn scroll_fits(scroll: int, ppb: int) -> bool {
    scroll * TICKS_PER_BEAT <= SCROLL_TICKS * ppb
}

/// Pixels from the start of the song to a time.
pub open spec fn pixels_to(ticks: int, ppb: int) -> int {
    nearest(ticks * ppb, TICKS_PER_BEAT as int)
}

fn pixels_of(ticks: i64, ppb: i64) -> (r: i64)
    requires
        -2 * SONG_LIMIT <= ticks <= SCROLL_TICKS,
        PIANO_ROLL_MIN_PPB <= ppb <= PIANO_ROLL_MAX_PPB,
    ensures
        r == pixels_to(ticks as int, ppb as int),
        on_axis(r as int),
        2 * (r * TICKS_PER_BEAT - ticks * ppb) <= TICKS_PER_BEAT,
{
    assert(-137_438_953_472 * 400_000_000 <= ticks * ppb <= 137_438_953_472 * 400_000_000) by (nonlinear_arith)
        requires
            -137_438_953_472 <= ticks <= 137_438_953_472,
            0 < ppb <= 400_000_000,
    ;
    proof {
        lemma_nearest_bound(ticks * ppb, 960_000);
    }
    nearest_div(ticks as i128 * ppb as i128, 960_000) as i64
}

/// A scroll that leaves at least a pixel of air before a time fits the view.
proof fn lemma_scroll_fits(r: int, k: int, ticks: int, ppb: int)
    requires
        2 * (r * TICKS_PER_BEAT - ticks * ppb) <= TICKS_PER_BEAT,
        k >= PX,
        ticks <= SCROLL_TICKS,
        ppb > 0,
    ensures
        max_of(r - k, 0) * TICKS_PER_BEAT <= SCROLL_TICKS * ppb,
{
    assert(ticks * ppb <= 137_438_953_472 * ppb) by (nonlinear_arith)
        requires
            ticks <= 137_438_953_472,
            ppb > 0,
    ;
    assert((r - k) * 960_000 <= r * 960_000 - 960_000);
}

/// Lowest pitch of the notes.
pub open spec fn lowest_pitch(notes: Seq<MidiNote>) -> int
    decreases notes.len(),
{
    if notes.len() <= 1 {
        notes[0].pitch as int
    } else {
        min_of(lowest_pitch(notes.drop_last()), notes.last().pitch as int)
    }
}

/// Highest pitch of the notes.
pub open spec fn highest_pitch(notes: Seq<MidiNote>) -> int
    decreases notes.len(),
{
    if notes.len() <= 1 {
        notes[0].pitch as int
    } else {
        max_of(highest_pitch(notes.drop_last()), notes.last().pitch as int)
    }
}

fn pitch_extent(notes: &Vec<MidiNote>) -> (r: (i64, i64))
    requires
        notes@.len() > 0,
        notes_in_song(notes@),
    ensures
        r.0 == lowest_pitch(notes@),
        r.1 == highest_pitch(notes@),
        0 <= r.0 <= 127,
        0 <= r.1 <= 127,
{
    let mut lo: i64 = notes[0].pitch as i64;
    let mut hi: i64 = lo;
    let mut i: usize = 1;
    assert(crate::drag::note_in_song(notes@[0]));
    while i < notes.len()
        invariant
            1 <= i <= notes@.len(),
            notes_in_song(notes@),
            lo == lowest_pitch(notes@.subrange(0, i as int)),
            hi == highest_pitch(notes@.subrange(0, i as int)),
            0 <= lo <= 127,
            0 <= hi <= 127,
        decreases notes@.len() - i,
    {
        proof {
            assert(notes@.subrange(0, i + 1).drop_last() =~= notes@.subrange(0, i as int));
            assert(crate::drag::note_in_song(notes@[i as int]));
        }
        lo = min_i64(lo, notes[i].pitch as i64);
        hi = max_i64(hi, notes[i].pitch as i64);
        i = i + 1;
    }
    assert(notes@.subrange(0, notes@.len() as int) =~= notes@);
    (lo, hi)
}

/// The notes that the view is fitted to: the selected ones, or all.
pub open spec fn fit_notes(notes: Seq<MidiNote>, selection: Set<u64>) -> Seq<MidiNote> {
    if selection == Set::<u64>::empty() {
        notes
    } else {
        notes_in(notes, selection)
    }
}

/// Sum of the two pitches that a fitted view lies between.
pub open spec fn fit_pitch_sum(notes: Seq<MidiNote>) -> int {
    if notes.len() == 0 {
        120
    } else {
        max_of(lowest_pitch(notes) - 6, 0) + highest_pitch(notes) + 6
    }
}

/// First beat of a fitted view, within the clip.
pub open spec fn fit_start(notes: Seq<MidiNote>) -> int {
    if notes.len() == 0 {
        0
    } else {
        earliest_start(notes)
    }
}

/// Length of a fitted view.
pub open spec fn fit_span(notes: Seq<MidiNote>, clip_len: int) -> int {
    if notes.len() == 0 {
        max_of(clip_len, TICKS_PER_BEAT as int)
    } else {
        max_of(min_of(latest_end(notes), max_of(clip_len, 0)) - earliest_start(notes), TICKS_PER_BEAT as int)
    }
}

/// Zoom X at which a stretch fills a view.
pub open spec fn fit_ppb(view_w: int, span: int) -> int {
    clamp_to(
        nearest(max_of(view_w - 2 * PIANO_ROLL_FIT_PAD_PX, 96 * PX) * TICKS_PER_BEAT, span),
        PIANO_ROLL_MIN_PPB as int,
        PIANO_ROLL_MAX_PPB as int,
    )
}

/// A turn of the wheel.
#[derive(Debug, Clone, Copy, PartialEq, Eq, Structural)]
pub struct WheelTurn {
    pub dx: i64,
    pub dy: i64,
    pub modifiers: Modifiers,
    /// Where the pointer is, in the window.
    pub x: i64,
    pub y: i64,
    /// The user scrolls the content rather than the view.
    pub natural: bool,
    /// Zoom factor of the turn, in billionths.
    pub factor: i64,
}

/// Pixels that a line of the wheel stands for.
pub const WHEEL_LINE: i64 = 36;

/// Pixels of a turn that the wheel counts in lines.
pub fn wheel_lines_to_pixels(lines: i64) -> (px: i64)
    requires
        -WINDOW_LIMIT <= lines * WHEEL_LINE <= WINDOW_LIMIT,
    ensures
        px == lines * WHEEL_LINE,
{
    lines * WHEEL_LINE
}

impl WheelTurn {
    pub open spec fn valid(self) -> bool {
        &&& on_surface(self.dx as int) && on_surface(self.dy as int)
        &&& in_window(self.x as int) && in_window(self.y as int)
        &&& 0 <= self.factor <= FACTOR_LIMIT
    }
}

/// The view after a turn of the wheel: Alt zooms pitches, Control or the
/// platform key zooms time, Shift scrolls sideways, and else both ways.
pub open spec fn wheel_turned(pre: PianoRoll, post: PianoRoll, w: WheelTurn) -> bool {
    let zoom_x = w.modifiers.control || w.modifiers.platform;
    let local = crate::roll::local_point(pre.grid_bounds, w.x, w.y);
    let dx = if w.natural {
        -w.dx
    } else {
        w.dx as int
    };
    let dy = if w.natural {
        -w.dy
    } else {
        w.dy as int
    };
    if w.modifiers.alt && !zoom_x {
        row_zoomed(
            pre,
            post,
            w.factor as int,
            match local {
                Some(p) => p.1 as int,
                None => pre.grid_size().1 / 2,
            },
        )
    } else if zoom_x {
        beat_zoomed(pre, post, w.factor as int, wheel_anchor_x(pre, w))
    } else if w.modifiers.shift {
        post == (PianoRoll { scroll_x: clamp_to(pre.scroll_x - dy - dx, 0, pre.farthest_x()) as i64, ..pre })
    } else {
        post == (PianoRoll {
            scroll_y: clamp_to(pre.scroll_y - dy, 0, pre.farthest_y(pre.grid_size().1)) as i64,
            scroll_x: clamp_to(pre.scroll_x - dx, 0, pre.farthest_x()) as i64,
            ..pre
        })
    }
}

/// Zoom Y has changed around a local y; a change too small to see is none.
pub open spec fn row_zoomed(pre: PianoRoll, post: PianoRoll, factor: int, anchor_y: int) -> bool {
    let row_h = scaled(
        pre.row_h as int,
        max_of(factor, 100_000),
        PIANO_ROLL_MIN_ROW_H as int,
        PIANO_ROLL_MAX_ROW_H as int,
    );
    let anchor = clamp_to(anchor_y, 0, pre.grid_size().1);
    if magnitude(row_h - pre.row_h) < ZOOM_TOLERANCE {
        post == pre
    } else {
        post == (PianoRoll {
            row_h: row_h as i64,
            scroll_y: clamp_to(
                anchored(anchor, pre.scroll_y as int, pre.row_h as int, row_h),
                0,
                farthest_y_at(row_h, pre.grid_size().1),
            ) as i64,
            ..pre
        })
    }
}

/// Zoom X has changed around a local x; a change too small to see is none.
pub open spec fn beat_zoomed(pre: PianoRoll, post: PianoRoll, factor: int, anchor_x: int) -> bool {
    let ppb = scaled(pre.ppb as int, max_of(factor, 100_000), PIANO_ROLL_MIN_PPB as int, PIANO_ROLL_MAX_PPB as int);
    let anchor = clamp_to(anchor_x, 0, pre.grid_size().0);
    if magnitude(ppb - pre.ppb) < ZOOM_TOLERANCE {
        post == pre
    } else {
        post == (PianoRoll {
            ppb: ppb as i64,
            scroll_x: max_of(anchored(anchor, pre.scroll_x as int, pre.ppb as int, ppb), 0) as i64,
            ..pre
        })
    }
}

/// The view can hold the scroll that a zoom around a local x leads to. Zooming
/// in here and out there carries the view on without end, and whole numbers end.
pub open spec fn zoom_stays_in_reach(pre: PianoRoll, factor: int, anchor_x: int) -> bool {
    let ppb = scaled(pre.ppb as int, max_of(factor, 100_000), PIANO_ROLL_MIN_PPB as int, PIANO_ROLL_MAX_PPB as int);
    let anchor = clamp_to(anchor_x, 0, pre.grid_size().0);
    magnitude(ppb - pre.ppb) >= ZOOM_TOLERANCE ==> scroll_fits(
        anchored(anchor, pre.scroll_x as int, pre.ppb as int, ppb),
        ppb,
    )
}

/// Local x that a turn of the wheel zooms time around.
pub open spec fn wheel_anchor_x(pre: PianoRoll, w: WheelTurn) -> int {
    match crate::roll::local_point(pre.grid_bounds, w.x, w.y) {
        Some(p) => p.0 as int,
        None => pre.grid_size().0 / 2,
    }
}

/// The view can hold the scroll that a turn of the wheel leads to.
pub open spec fn wheel_stays_in_reach(pre: PianoRoll, w: WheelTurn) -> bool {
    w.modifiers.control || w.modifiers.platform ==> zoom_stays_in_reach(pre, w.factor as int, wheel_anchor_x(pre, w))
}

/// Wherever scrolling can bring the view, every zoom stays in reach.
pub proof fn law_scrolled_views_can_zoom(pre: PianoRoll, factor: int, anchor_x: int)
    requires
        pre.valid(),
        pre.scroll_x <= pre.farthest_x(),
    ensures
        zoom_stays_in_reach(pre, factor, anchor_x),
{
    let ppb = scaled(pre.ppb as int, max_of(factor, 100_000), PIANO_ROLL_MIN_PPB as int, PIANO_ROLL_MAX_PPB as int);
    let w = pre.grid_size().0;
    let anchor = clamp_to(anchor_x, 0, w);
    let before = pre.ppb as int;
    let a = anchor + pre.scroll_x;
    if pre.scope@.len() > 0 {
        lemma_furthest_end_in_song(pre.scope@, pre.scope@[0].end());
        let end = furthest_end(pre.scope@, pre.scope@[0].end()) + TRAILING_BEATS * TICKS_PER_BEAT;
        lemma_nearest_bound(end * before, TICKS_PER_BEAT as int);
        assert(end * before <= 70_000_000_000 * before) by (nonlinear_arith)
            requires
                end <= 70_000_000_000,
                before > 0,
        ;
    }
    assert(a * 960_000 <= 137_438_953_471 * before);
    let q = nearest(a * ppb, before);
    lemma_nearest_bound(a * ppb, before);
    assert((q - anchor) * 960_000 <= 137_438_953_472 * ppb) by (nonlinear_arith)
        requires
            a * 960_000 <= 137_438_953_471 * before,
            2 * (q * before - a * ppb) <= before,
            before > 0,
            ppb >= 1_000_000,
            anchor >= 0,
    {
        assert((a * 960_000) * ppb <= (137_438_953_471 * before) * ppb) by (nonlinear_arith)
            requires
                a * 960_000 <= 137_438_953_471 * before,
                ppb >= 1_000_000,
        ;
        assert((a * ppb) * 960_000 == (a * 960_000) * ppb) by (nonlinear_arith);
        assert((137_438_953_471 * before) * ppb == 137_438_953_471 * (before * ppb)) by (nonlinear_arith);
        assert((q * before) * 960_000 <= 137_438_953_471 * (before * ppb) + 480_000 * before);
        assert(480_000 * before <= before * ppb) by (nonlinear_arith)
            requires
                before > 0,
                ppb >= 1_000_000,
        ;
        assert((q * 960_000) * before <= (137_438_953_472 * ppb) * before) by (nonlinear_arith)
            requires
                (q * before) * 960_000 <= 137_438_953_472 * (before * ppb),
        ;
        assert(q * 960_000 <= 137_438_953_472 * ppb) by (nonlinear_arith)
            requires
                (q * 960_000) * before <= (137_438_953_472 * ppb) * before,
                before > 0,
        ;
    }
}

/// Farthest vertical scroll of a surface at this zoom.
pub open spec fn farthest_y_at(row_h: int, view_h: int) -> int {
    max_of(PITCH_COUNT * row_h - max_of(view_h, PX as int), 0)
}

fn last_scroll_y(row_h: i64, view_h: i64) -> (r: i64)
    requires
        PIANO_ROLL_MIN_ROW_H <= row_h <= PIANO_ROLL_MAX_ROW_H,
        on_axis(view_h as int),
    ensures
        r == farthest_y_at(row_h as int, view_h as int),
        0 <= r <= WINDOW_LIMIT,
{
    max_i64(128 * row_h - max_i64(view_h, PX), 0)
}

impl PianoRoll {
    /// Farthest vertical scroll of a surface.
    pub open spec fn farthest_y(self, view_h: int) -> int {
        farthest_y_at(self.row_h as int, view_h)
    }

    /// Farthest horizontal scroll: past the last clip of the track by a little.
    pub open spec fn farthest_x(self) -> int {
        if self.scope@.len() == 0 {
            0
        } else {
            max_of(
                pixels_to(
                    furthest_end(self.scope@, self.scope@[0].end()) + TRAILING_BEATS * TICKS_PER_BEAT,
                    self.ppb as int,
                ) - self.grid_size().0,
                0,
            )
        }
    }

    /// Farthest vertical scroll of the grid.
    pub fn max_scroll_y(&self) -> (r: i64)
        requires
            self.valid(),
        ensures
            r == self.farthest_y(self.grid_size().1),
            0 <= r <= WINDOW_LIMIT,
    {
        let (_w, h) = self.grid_view_size();
        last_scroll_y(self.row_h, h)
    }

    /// Farthest vertical scroll of a surface of this height.
    pub fn max_scroll_y_for(&self, view_h: i64) -> (r: i64)
        requires
            self.valid(),
            on_axis(view_h as int),
        ensures
            r == self.farthest_y(view_h as int),
            0 <= r <= WINDOW_LIMIT,
    {
        last_scroll_y(self.row_h, view_h)
    }

    /// Farthest horizontal scroll.
    pub fn max_scroll_x(&self) -> (r: i64)
        requires
            self.valid(),
        ensures
            r == self.farthest_x(),
            0 <= r,
            r * TICKS_PER_BEAT <= SCROLL_TICKS * self.ppb,
            on_axis(r as int),
    {
        let (view_w, _h) = self.grid_view_size();
        match self.scope.extent() {
            None => 0,
            Some(e) => {
                proof {
                    lemma_furthest_end_in_song(self.scope@, self.scope@[0].end());
                }
                let end: i64 = e.1 + 3_840_000;
                if end < -2 * SONG_LIMIT {
                    proof {
                        lemma_no_pixels_before_zero(end as int, self.ppb as int);
                        assert(self.farthest_x() == 0);
                    }
                    return 0;
                }
                let p = pixels_of(end, self.ppb);
                proof {
                    lemma_scroll_fits(p as int, view_w as int, end as int, self.ppb as int);
                }
                max_i64(p - view_w, 0)
            },
        }
    }

    /// The view that other surfaces share.
    pub fn viewport(&self, key_lane_width: i64) -> (v: PianoRollViewport)
        requires
            self.valid(),
        ensures
            v.ppb == self.ppb && v.scroll_x == self.scroll_x && v.row_h == self.row_h && v.scroll_y == self.scroll_y,
            v.key_lane_width == key_lane_width,
            v.snap_step_beats == published_step(self.snap_on, self.grid_res, self.ppb as int),
            v.sub_step_beats == max_of(self.step(), MIN_NOTE_TICKS as int),
            (v.grid_width as int, v.grid_height as int) == self.grid_size(),
            v.valid(),
    {
        let (grid_width, grid_height) = self.grid_view_size();
        proof {
            lemma_scroll_bound(self.scroll_x as int, self.ppb as int);
        }
        PianoRollViewport {
            ppb: self.ppb,
            scroll_x: self.scroll_x,
            row_h: self.row_h,
            scroll_y: self.scroll_y,
            key_lane_width,
            snap_step_beats: viewport_snap_step(self.snap_on, self.grid_res, self.ppb),
            sub_step_beats: max_i64(self.step_beats(), MIN_NOTE_TICKS),
            grid_width,
            grid_height,
        }
    }

    /// Scrolls sideways by `dx` pixels, no farther than the content reaches.
    pub fn scroll_viewport_by(&mut self, dx: i64)
        requires
            old(self).valid(),
            on_axis(dx as int),
        ensures
            *final(self) == (PianoRoll {
                scroll_x: clamp_to(old(self).scroll_x - dx, 0, old(self).farthest_x()) as i64,
                ..*old(self)
            }),
            final(self).valid(),
    {
        proof {
            lemma_scroll_bound(self.scroll_x as int, self.ppb as int);
        }
        let far = self.max_scroll_x();
        self.scroll_x = clamp_i64(self.scroll_x - dx, 0, far);
        proof {
            lemma_clamped_scroll(self.scroll_x as int, far as int, self.ppb as int);
        }
    }

    /// Scrolls a surface of this height by `dy` pixels.
    pub fn scroll_viewport_vertically_by(&mut self, dy: i64, view_h: i64)
        requires
            old(self).valid(),
            on_axis(dy as int),
            on_axis(view_h as int),
        ensures
            *final(self) == (PianoRoll {
                scroll_y: clamp_to(old(self).scroll_y - dy, 0, old(self).farthest_y(view_h as int)) as i64,
                ..*old(self)
            }),
            final(self).valid(),
    {
        let far = self.max_scroll_y_for(view_h);
        self.scroll_y = clamp_i64(self.scroll_y - dy, 0, far);
    }

    /// Changes Zoom Y by a factor in billionths; the pitch under `anchor_y`
    /// stays there.
    pub fn zoom_viewport_vertically(&mut self, factor: i64, view_h: i64, anchor_y: i64)
        requires
            old(self).valid(),
            0 <= factor <= FACTOR_LIMIT,
            in_window(view_h as int),
        ensures
            ({
                let row_h = scaled(
                    old(self).row_h as int,
                    factor as int,
                    PIANO_ROLL_MIN_ROW_H as int,
                    PIANO_ROLL_MAX_ROW_H as int,
                );
                let anchor = clamp_to(anchor_y as int, 0, max_of(view_h as int, PX as int));
                *final(self) == (PianoRoll {
                    row_h: row_h as i64,
                    scroll_y: clamp_to(
                        anchored(anchor, old(self).scroll_y as int, old(self).row_h as int, row_h),
                        0,
                        farthest_y_at(row_h, view_h as int),
                    ) as i64,
                    ..*old(self)
                })
            }),
            final(self).valid(),
    {
        let anchor = clamp_i64(anchor_y, 0, max_i64(view_h, PX));
        let row_h = scale_by(self.row_h, factor, PIANO_ROLL_MIN_ROW_H, PIANO_ROLL_MAX_ROW_H);
        let scroll = anchored_scroll(anchor, self.scroll_y, self.row_h, row_h);
        self.row_h = row_h;
        self.scroll_y = clamp_i64(scroll, 0, last_scroll_y(row_h, view_h));
    }

    /// Zooms and scrolls so that pitches from `min_pitch` to `max_pitch`, in
    /// pitch units, fill a surface.
    pub fn fit_viewport_vertically(&mut self, view_h: i64, min_pitch: i64, max_pitch: i64)
        requires
            old(self).valid(),
            in_window(view_h as int),
            -1000 * SEMITONE <= min_pitch <= 1000 * SEMITONE,
            -1000 * SEMITONE <= max_pitch <= 1000 * SEMITONE,
        ensures
            view_h <= PX ==> *final(self) == *old(self),
            view_h > PX ==> {
                let span = max_of(max_pitch - min_pitch, SEMITONE as int);
                let fit_h = max_of(view_h - 2 * PIANO_ROLL_FIT_PAD_PX, 24 * PX);
                let row_h = clamp_to(
                    nearest(fit_h * SEMITONE, span),
                    PIANO_ROLL_MIN_ROW_H as int,
                    PIANO_ROLL_MAX_ROW_H as int,
                );
                *final(self) == (PianoRoll {
                    row_h: row_h as i64,
                    scroll_y: clamp_to(
                        nearest(
                            ((2 * PITCH_COUNT - 1) * SEMITONE - min_pitch - max_pitch) * row_h - view_h * SEMITONE,
                            2 * SEMITONE,
                        ),
                        0,
                        farthest_y_at(row_h, view_h as int),
                    ) as i64,
                    ..*old(self)
                })
            },
            final(self).valid(),
    {
        if view_h <= PX {
            return ;
        }
        let span = max_i64(max_pitch - min_pitch, SEMITONE);
        let fit_h = max_i64(view_h - 2 * PIANO_ROLL_FIT_PAD_PX, 24 * PX);
        let raw = nearest_div(fit_h as i128 * 1_000_000, span as i128);
        proof {
            lemma_nearest_bound(fit_h * 1_000_000, span as int);
            assert(0 <= raw <= 68_719_476_736) by (nonlinear_arith)
                requires
                    0 <= raw,
                    2 * (raw * span - fit_h * 1_000_000) <= span,
                    span >= 1_000_000,
                    fit_h <= 68_719_476_735,
            ;
        }
        let row_h = clamp_i64(raw as i64, PIANO_ROLL_MIN_ROW_H, PIANO_ROLL_MAX_ROW_H);
        let rise: i64 = 255_000_000 - min_pitch - max_pitch;
        assert(-3_000_000_000 * 200_000_000 <= rise * row_h <= 3_000_000_000 * 200_000_000) by (nonlinear_arith)
            requires
                -3_000_000_000 <= rise <= 3_000_000_000,
                0 <= row_h <= 200_000_000,
        ;
        let top = nearest_div(rise as i128 * row_h as i128 - view_h as i128 * 1_000_000, 2_000_000);
        proof {
            lemma_nearest_bound(rise * row_h - view_h * 1_000_000, 2_000_000);
        }
        self.row_h = row_h;
        self.scroll_y = clamp_i64(top as i64, 0, last_scroll_y(row_h, view_h));
    }

    /// Scrolls so that a pitch is in the middle of the grid.
    pub fn scroll_to_pitch(&mut self, pitch: u8)
        requires
            old(self).valid(),
        ensures
            *final(self) == (PianoRoll {
                scroll_y: old(self).centred(2 * pitch) as i64,
                ..*old(self)
            }),
            final(self).valid(),
    {
        self.scroll_y = self.centre_scroll(2 * pitch as i64);
    }

    /// Scroll that puts the middle of two pitches, given by their sum, in the
    /// middle of the grid.
    pub open spec fn centred(self, pitch_sum: int) -> int {
        clamp_to(
            nearest((2 * PITCH_COUNT - 1 - pitch_sum) * self.row_h - self.grid_size().1, 2),
            0,
            self.farthest_y(self.grid_size().1),
        )
    }

    fn centre_scroll(&self, pitch_sum: i64) -> (r: i64)
        requires
            self.valid(),
            0 <= pitch_sum <= 600,
        ensures
            r == self.centred(pitch_sum as int),
            0 <= r <= WINDOW_LIMIT,
    {
        let (_w, view_h) = self.grid_view_size();
        assert(-400 * 200_000_000 <= (255 - pitch_sum) * self.row_h <= 255 * 200_000_000) by (nonlinear_arith)
            requires
                0 <= pitch_sum <= 600,
                0 <= self.row_h <= 200_000_000,
        ;
        let target = nearest_div(((255 - pitch_sum) * self.row_h) as i128 - view_h as i128, 2);
        proof {
            lemma_nearest_bound((255 - pitch_sum) * self.row_h - view_h, 2);
        }
        clamp_i64(target as i64, 0, self.max_scroll_y())
    }

    /// Zooms and scrolls so that the selected notes, or all, are in view.
    #[verifier::rlimit(40)]
    pub fn fit_piano_roll_to_notes(&mut self, clip: &ClipView)
        requires
            old(self).valid(),
            clip.valid(),
        ensures
            fitted(*old(self), *final(self), clip.notes@, clip.duration as int),
            final(self).valid(),
    {
        let (view_w, view_h) = self.grid_view_size();
        if view_w <= PX || view_h <= PX {
            return ;
        }
        let chosen = if self.selection.is_empty() {
            copy_notes(&clip.notes)
        } else {
            snapshot_notes(&clip.notes, &self.selection)
        };
        proof {
            lemma_fit_notes_in_song(clip.notes@, self.selection@);
        }
        let pitch_sum: i64 = if chosen.len() == 0 {
            120
        } else {
            let (lo, hi) = pitch_extent(&chosen);
            max_i64(lo - 6, 0) + hi + 6
        };
        let scroll_y = self.centre_scroll(pitch_sum);
        let (start, span): (i64, i64) = if chosen.len() == 0 {
            (0, max_i64(clip.duration, TICKS_PER_BEAT))
        } else {
            proof {
                lemma_song_notes_valid(chosen@);
                lemma_song_extent(chosen@);
            }
            let (from, to) = note_extent(&chosen);
            (from, max_i64(min_i64(to, max_i64(clip.duration, 0)) - from, TICKS_PER_BEAT))
        };
        let fit_w = max_i64(view_w - 2 * PIANO_ROLL_FIT_PAD_PX, 96 * PX);
        let raw = nearest_div(fit_w as i128 * 960_000, span as i128);
        proof {
            lemma_nearest_bound(fit_w * 960_000, span as int);
            assert(0 <= raw <= 68_719_476_736) by (nonlinear_arith)
                requires
                    0 <= raw,
                    2 * (raw * span - fit_w * 960_000) <= span,
                    span >= 960_000,
                    fit_w <= 68_719_476_735,
            ;
        }
        let ppb = clamp_i64(raw as i64, PIANO_ROLL_MIN_PPB, PIANO_ROLL_MAX_PPB);
        let at: i64 = self.edit_origin + start;
        let p = pixels_of(at, ppb);
        proof {
            lemma_scroll_fits(p as int, PIANO_ROLL_FIT_PAD_PX as int, at as int, ppb as int);
        }
        self.scroll_y = scroll_y;
        self.ppb = ppb;
        self.scroll_x = max_i64(p - PIANO_ROLL_FIT_PAD_PX, 0);
    }

    /// Gives back the default Zoom Y around the middle of the grid; Zoom X stays.
    pub fn reset_row_h_zoom(&mut self)
        requires
            old(self).valid(),
        ensures
            *final(self) == (PianoRoll {
                row_h: DEFAULT_ROW_H,
                scroll_y: clamp_to(
                    anchored(
                        old(self).grid_size().1 / 2,
                        old(self).scroll_y as int,
                        old(self).row_h as int,
                        DEFAULT_ROW_H as int,
                    ),
                    0,
                    farthest_y_at(DEFAULT_ROW_H as int, old(self).grid_size().1),
                ) as i64,
                ..*old(self)
            }),
            final(self).valid(),
    {
        let (_w, view_h) = self.grid_view_size();
        let scroll = anchored_scroll(view_h / 2, self.scroll_y, self.row_h, DEFAULT_ROW_H);
        self.row_h = DEFAULT_ROW_H;
        self.scroll_y = clamp_i64(scroll, 0, last_scroll_y(DEFAULT_ROW_H, view_h));
    }

    /// Changes Zoom Y by a factor in billionths around a local y.
    pub fn zoom_row_h_around(&mut self, factor: i64, anchor_y: i64)
        requires
            old(self).valid(),
            0 <= factor <= FACTOR_LIMIT,
        ensures
            row_zoomed(*old(self), *final(self), factor as int, anchor_y as int),
            final(self).valid(),
    {
        let row_h = scale_by(self.row_h, max_i64(factor, 100_000), PIANO_ROLL_MIN_ROW_H, PIANO_ROLL_MAX_ROW_H);
        let change: i64 = row_h - self.row_h;
        if -ZOOM_TOLERANCE < change && change < ZOOM_TOLERANCE {
            return ;
        }
        let (_w, view_h) = self.grid_view_size();
        let anchor = clamp_i64(anchor_y, 0, view_h);
        let scroll = anchored_scroll(anchor, self.scroll_y, self.row_h, row_h);
        self.row_h = row_h;
        self.scroll_y = clamp_i64(scroll, 0, last_scroll_y(row_h, view_h));
    }

    /// Changes Zoom X by a factor in billionths around a local x; the beat there
    /// stays, and the view never jumps back to the start.
    pub fn zoom_ppb_around(&mut self, factor: i64, anchor_x: i64)
        requires
            old(self).valid(),
            0 <= factor <= FACTOR_LIMIT,
            zoom_stays_in_reach(*old(self), factor as int, anchor_x as int),
        ensures
            beat_zoomed(*old(self), *final(self), factor as int, anchor_x as int),
            final(self).valid(),
    {
        let ppb = scale_by(self.ppb, max_i64(factor, 100_000), PIANO_ROLL_MIN_PPB, PIANO_ROLL_MAX_PPB);
        let change: i64 = ppb - self.ppb;
        if -ZOOM_TOLERANCE < change && change < ZOOM_TOLERANCE {
            return ;
        }
        let (view_w, _h) = self.grid_view_size();
        let anchor = clamp_i64(anchor_x, 0, view_w);
        proof {
            lemma_scroll_bound(self.scroll_x as int, self.ppb as int);
        }
        let scroll = anchored_scroll(anchor, self.scroll_x, self.ppb, ppb);
        self.ppb = ppb;
        self.scroll_x = max_i64(scroll, 0);
    }

    /// Whether the view can hold the scroll that a zoom around a local x leads
    /// to.
    pub fn can_zoom_around(&self, factor: i64, anchor_x: i64) -> (r: bool)
        requires
            self.valid(),
            0 <= factor <= FACTOR_LIMIT,
        ensures
            r == zoom_stays_in_reach(*self, factor as int, anchor_x as int),
    {
        let ppb = scale_by(self.ppb, max_i64(factor, 100_000), PIANO_ROLL_MIN_PPB, PIANO_ROLL_MAX_PPB);
        let change: i64 = ppb - self.ppb;
        if -ZOOM_TOLERANCE < change && change < ZOOM_TOLERANCE {
            return true;
        }
        let (view_w, _h) = self.grid_view_size();
        let anchor = clamp_i64(anchor_x, 0, view_w);
        proof {
            lemma_scroll_bound(self.scroll_x as int, self.ppb as int);
        }
        let scroll = anchored_scroll(anchor, self.scroll_x, self.ppb, ppb);
        scroll as i128 * 960_000 <= 137_438_953_472i128 * ppb as i128
    }

    /// Changes Zoom X by a factor in billionths around the middle of the grid.
    pub fn zoom_by(&mut self, factor: i64)
        requires
            old(self).valid(),
            0 <= factor <= FACTOR_LIMIT,
            zoom_stays_in_reach(*old(self), factor as int, old(self).grid_size().0 / 2),
        ensures
            beat_zoomed(*old(self), *final(self), factor as int, old(self).grid_size().0 / 2),
            final(self).valid(),
    {
        let (view_w, _h) = self.grid_view_size();
        self.zoom_ppb_around(factor, view_w / 2);
    }

    /// Follows a turn of the wheel.
    pub fn on_wheel(&mut self, w: WheelTurn)
        requires
            old(self).valid(),
            w.valid(),
            wheel_stays_in_reach(*old(self), w),
        ensures
            wheel_turned(*old(self), *final(self), w),
            final(self).valid(),
    {
        let zoom_x = w.modifiers.control || w.modifiers.platform;
        let local = self.grid_local(w.x, w.y);
        let (view_w, view_h) = self.grid_view_size();
        if w.modifiers.alt && !zoom_x {
            let anchor_y = match local {
                Some(p) => p.1,
                None => view_h / 2,
            };
            self.zoom_row_h_around(w.factor, anchor_y);
            return ;
        }
        if zoom_x {
            let anchor_x = match local {
                Some(p) => p.0,
                None => view_w / 2,
            };
            self.zoom_ppb_around(w.factor, anchor_x);
            return ;
        }
        let far_x = self.max_scroll_x();
        let dx: i64 = if w.natural {
            -w.dx
        } else {
            w.dx
        };
        let dy: i64 = if w.natural {
            -w.dy
        } else {
            w.dy
        };
        proof {
            lemma_scroll_bound(self.scroll_x as int, self.ppb as int);
        }
        if w.modifiers.shift {
            self.scroll_x = clamp_i64(self.scroll_x - dy - dx, 0, far_x);
        } else {
            let far_y = self.max_scroll_y();
            self.scroll_y = clamp_i64(self.scroll_y - dy, 0, far_y);
            self.scroll_x = clamp_i64(self.scroll_x - dx, 0, far_x);
        }
        proof {
            lemma_clamped_scroll(self.scroll_x as int, far_x as int, self.ppb as int);
        }
    }
}

/// The view has been fitted to notes.
pub open spec fn fitted(pre: PianoRoll, post: PianoRoll, notes: Seq<MidiNote>, clip_len: int) -> bool {
    let (w, h) = pre.grid_size();
    let chosen = fit_notes(notes, pre.selection@);
    let ppb = fit_ppb(w, fit_span(chosen, clip_len));
    if w <= PX || h <= PX {
        post == pre
    } else {
        post == (PianoRoll {
            scroll_y: pre.centred(fit_pitch_sum(chosen)) as i64,
            ppb: ppb as i64,
            scroll_x: max_of(pixels_to(pre.edit_origin + fit_start(chosen), ppb) - PIANO_ROLL_FIT_PAD_PX, 0) as i64,
            ..pre
        })
    }
}

proof fn lemma_clamped_scroll(s: int, far: int, ppb: int)
    requires
        0 <= s <= far,
        far * TICKS_PER_BEAT <= SCROLL_TICKS * ppb,
    ensures
        s * TICKS_PER_BEAT <= SCROLL_TICKS * ppb,
{
    assert(s * 960_000 <= far * 960_000);
}

proof fn lemma_no_pixels_before_zero(ticks: int, ppb: int)
    requires
        ticks <= 0,
        ppb > 0,
    ensures
        pixels_to(ticks, ppb) <= 0,
{
    assert(ticks * ppb <= 0) by (nonlinear_arith)
        requires
            ticks <= 0,
            ppb > 0,
    ;
    lemma_nearest_bound(ticks * ppb, 960_000);
}

proof fn lemma_furthest_end_in_song(spans: Seq<crate::scope::ClipSpan>, least: int)
    requires
        spans_in_song(spans),
        least <= SONG_LIMIT,
    ensures
        furthest_end(spans, least) <= SONG_LIMIT,
    decreases spans.len(),
{
    if spans.len() > 0 {
        lemma_furthest_end_in_song(spans.drop_last(), least);
        assert(spans[spans.len() - 1] == spans.last());
    }
}

proof fn lemma_fit_notes_in_song(notes: Seq<MidiNote>, selection: Set<u64>)
    requires
        notes_in_song(notes),
    ensures
        notes_in_song(fit_notes(notes, selection)),
{
    let p = |n: MidiNote| selection.contains(n.id);
    notes.lemma_filter_len(p);
    assert forall|i: int| 0 <= i < notes_in(notes, selection).len() implies crate::drag::note_in_song(
        #[trigger] notes_in(notes, selection)[i],
    ) by {
        notes.lemma_filter_contains_rev(p, notes_in(notes, selection)[i]);
    }
}

/// Notes of a song are valid notes.
pub proof fn lemma_song_notes_valid(notes: Seq<MidiNote>)
    requires
        notes_in_song(notes),
    ensures
        crate::midi::valid_notes(notes),
{
    assert forall|i: int| 0 <= i < notes.len() implies (#[trigger] notes[i]).valid() by {
        assert(crate::drag::note_in_song(notes[i]));
    }
}

/// The notes of a song lie inside it.
pub proof fn lemma_song_extent(notes: Seq<MidiNote>)
    requires
        notes_in_song(notes),
    ensures
        0 <= earliest_start(notes) <= SONG_LIMIT,
        0 <= latest_end(notes) <= 2 * SONG_LIMIT,
    decreases notes.len(),
{
    if notes.len() > 0 {
        lemma_song_extent(notes.drop_last());
        assert(crate::drag::note_in_song(notes[notes.len() - 1]));
        assert(crate::drag::note_in_song(notes[0]));
    }
}

/// The wheel scrolls against its turn, as far as there is anything to show, and
/// the other way with natural scrolling; shift turns it sideways.
pub proof fn law_the_wheel_scrolls(pre: PianoRoll, post: PianoRoll, w: WheelTurn)
    requires
        wheel_turned(pre, post, w),
        !w.modifiers.alt && !w.modifiers.control && !w.modifiers.platform,
        pre.farthest_x() <= i64::MAX,
        pre.farthest_y(pre.grid_size().1) <= i64::MAX,
    ensures
        ({
            let dx = if w.natural {
                -w.dx
            } else {
                w.dx as int
            };
            let dy = if w.natural {
                -w.dy
            } else {
                w.dy as int
            };
            &&& post.ppb == pre.ppb && post.row_h == pre.row_h && post.selection == pre.selection
            &&& !w.modifiers.shift && 0 <= pre.scroll_y - dy <= pre.farthest_y(pre.grid_size().1) ==> post.scroll_y + dy
                == pre.scroll_y
            &&& !w.modifiers.shift && 0 <= pre.scroll_x - dx <= pre.farthest_x() ==> post.scroll_x + dx == pre.scroll_x
            &&& w.modifiers.shift ==> post.scroll_y == pre.scroll_y
            &&& w.modifiers.shift && 0 <= pre.scroll_x - dy - dx <= pre.farthest_x() ==> post.scroll_x + dy + dx
                == pre.scroll_x
        }),
{
}

/// A factor above one makes larger and one below makes smaller, inside the limits.
pub proof fn law_zoom_goes_by_its_factor(scale: int, factor: int, lo: int, hi: int)
    requires
        lo <= scale <= hi,
        scale >= 0,
        factor >= 0,
    ensures
        lo <= scaled(scale, factor, lo, hi) <= hi,
        factor >= VALUE_ONE ==> scaled(scale, factor, lo, hi) >= scale,
        factor <= VALUE_ONE ==> scaled(scale, factor, lo, hi) <= scale,
        factor == VALUE_ONE ==> scaled(scale, factor, lo, hi) == scale,
        lo < scaled(scale, factor, lo, hi) < hi ==> -VALUE_ONE <= 2 * (VALUE_ONE * scaled(scale, factor, lo, hi) - scale
            * factor) <= VALUE_ONE,
{
    let one = VALUE_ONE as int;
    crate::fixed::lemma_nearest_of_multiple(scale, one);
    lemma_nearest_bound(scale * factor, one);
    if factor >= one {
        vstd::arithmetic::mul::lemma_mul_inequality(one, factor, scale);
        vstd::arithmetic::mul::lemma_mul_is_commutative(one, scale);
        vstd::arithmetic::mul::lemma_mul_is_commutative(factor, scale);
        crate::fixed::lemma_nearest_monotone(scale * one, scale * factor, one);
    }
    if factor <= one {
        vstd::arithmetic::mul::lemma_mul_inequality(factor, one, scale);
        vstd::arithmetic::mul::lemma_mul_is_commutative(one, scale);
        vstd::arithmetic::mul::lemma_mul_is_commutative(factor, scale);
        crate::fixed::lemma_nearest_monotone(scale * factor, scale * one, one);
    }
}

/// Fitting chooses the zoom at which the span takes up the view between its two
/// margins, as far as the limits of the zoom let it.
pub proof fn law_fit_fills_the_view(view_w: int, span: int)
    requires
        view_w - 2 * PIANO_ROLL_FIT_PAD_PX >= 96 * PX,
        span > 0,
        PIANO_ROLL_MIN_PPB < fit_ppb(view_w, span) < PIANO_ROLL_MAX_PPB,
    ensures
        -span <= 2 * (span * fit_ppb(view_w, span) - (view_w - 2 * PIANO_ROLL_FIT_PAD_PX) * TICKS_PER_BEAT) <= span,
{
    let a = (view_w - 2 * PIANO_ROLL_FIT_PAD_PX) * TICKS_PER_BEAT;
    lemma_nearest_bound(a, span);
    vstd::arithmetic::mul::lemma_mul_is_commutative(nearest(a, span), span);
}

/// The pitches that a fit is about all lie between the lowest and the highest.
pub proof fn law_fit_knows_the_pitch_range(notes: Seq<MidiNote>, i: int)
    requires
        0 <= i < notes.len(),
    ensures
        lowest_pitch(notes) <= notes[i].pitch <= highest_pitch(notes),
    decreases notes.len(),
{
    if notes.len() > 1 {
        let front = notes.drop_last();
        if i < front.len() {
            assert(front[i] == notes[i]);
            law_fit_knows_the_pitch_range(front, i);
        }
    }
}

} // verus!
