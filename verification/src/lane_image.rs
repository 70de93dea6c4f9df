//! What the controller lane draws: the sampled curve and its handles, and the
//! image that a GPU makes of them.

use crate::cc_curve::{
    cc_curve_samples, cc_handles, column_beat, envelope, handle_of, handle_shows, valid_points, CcHandle, HANDLE_R,
};
use crate::cc_paint::{controller_y_for_value, height_of_value};
use crate::cc_points::{compact_cc_points, compacted};
use crate::drag::{points_in_song, PianoDrag};
use crate::fixed::{
    lemma_nearest_bound, max_i64, max_of, min_i64, min_of, nearest, nearest_div, PX, VALUE_ONE, WINDOW_LIMIT,
};
use crate::labels::controller_default_value;
use crate::midi::{lemma_filter_step, MidiControllerKind, MidiControllerPoint};
use crate::note_blocks::{outline_of, Outline};
use crate::order::sorted;
use crate::roll::PianoRoll;
use std::collections::hash_map::DefaultHasher;
use std::hash::Hasher;
use vstd::bytes::{spec_u64_to_le_bytes, u64_to_le_bytes};
use vstd::prelude::*;
use vstd::std_specs::hash::DefaultHasherAdditionalSpecFns;

verus! {

/// Smallest device scale that is taken at its word.
pub const SCALE_MIN: i64 = 500_000;

/// Greatest device scale.
pub const SCALE_LIMIT: i64 = 64_000_000;

/// Length of a dash of the base line.
pub const DASH: i64 = 6_000_000;

/// Distance between the starts of two dashes.
pub const DASH_PITCH: i64 = 10_000_000;

/// By how much a selected handle's dot is smaller than its ring.
pub const RING_W: i64 = 2_000_000;

/// Widest image, in device pixels, that a GPU is asked for.
pub const MAX_WIDTH: u32 = 8192;

/// Rows of a readback start at multiples of this many bytes.
pub const ROW_ALIGNMENT: u32 = 256;

/// Opacity of the body under the curve, of a hundred.
pub const BODY_OPACITY: u8 = 13;

/// Everything that a painter of the controller lane needs.
#[derive(Debug)]
pub struct CcLaneSnapshot {
    pub width: i64,
    pub height: i64,
    /// Device pixels per pixel, in millionths.
    pub scale: i64,
    /// Height of the curve at each column.
    pub samples: Vec<i64>,
    pub handles: Vec<CcHandle>,
    /// Height of the controller's default value.
    pub baseline_y: i64,
}

/// Value that a controller has without points.
pub open spec fn default_of(kind: MidiControllerKind) -> int {
    if kind == MidiControllerKind::PitchBend {
        VALUE_ONE as int / 2
    } else {
        0
    }
}

/// Columns that the lane is sampled at.
pub open spec fn columns_of(view_w: int) -> int {
    max_of((view_w + PX - 1) / (PX as int), 1)
}

/// The points of a lane as they are drawn.
pub open spec fn drawn_points(points: Seq<MidiControllerPoint>) -> Seq<MidiControllerPoint> {
    compacted(sorted(points))
}

/// The snapshot shows a lane.
pub open spec fn lane_drawn(s: CcLaneSnapshot, roll: PianoRoll, points: Seq<MidiControllerPoint>, scale: int) -> bool {
    let (w, h) = roll.lane_size();
    let shown = drawn_points(points);
    &&& s.width == w && s.height == h && s.scale == scale
    &&& s.baseline_y == height_of_value(default_of(roll.active_cc), h)
    &&& s.samples@.len() == columns_of(w) + 1
    &&& forall|i: int|
        0 <= i < s.samples@.len() ==> #[trigger] s.samples@[i] == height_of_value(
            envelope(shown, column_beat(roll.axis(), i), default_of(roll.active_cc)),
            h,
        )
    &&& s.handles@ == shown.filter(|p: MidiControllerPoint| handle_shows(p, roll.axis(), w)).map_values(
        |p: MidiControllerPoint| handle_of(p, roll.axis(), h, roll.cc_selection@),
    )
}

proof fn lemma_compacted_inside(points: Seq<MidiControllerPoint>, p: MidiControllerPoint)
    requires
        compacted(points).contains(p),
    ensures
        points.contains(p),
    decreases points.len(),
{
    if points.len() > 0 {
        let front = points.drop_last();
        let before = compacted(front);
        let i = choose|i: int| 0 <= i < compacted(points).len() && compacted(points)[i] == p;
        if p == points.last() {
            assert(points[points.len() - 1] == p);
        } else {
            assert(before.contains(p)) by {
                assert(i < before.len() && before[i] == p);
            }
            lemma_compacted_inside(front, p);
            let j = choose|j: int| 0 <= j < front.len() && front[j] == p;
            assert(points[j] == p);
        }
    }
}

proof fn lemma_drawn_points_valid(points: Seq<MidiControllerPoint>)
    requires
        points_in_song(points),
    ensures
        valid_points(drawn_points(points)),
{
    let shown = drawn_points(points);
    assert forall|i: int| 0 <= i < shown.len() implies 0 <= (#[trigger] shown[i]).beat <= crate::fixed::POSITION_LIMIT
        && 0 <= shown[i].value <= VALUE_ONE by {
        let p = shown[i];
        assert(shown.contains(p));
        lemma_compacted_inside(sorted(points), p);
        crate::order::lemma_sorted_contains(points, p);
        let j = choose|j: int| 0 <= j < points.len() && points[j] == p;
        assert(points[j] == p);
    }
}

proof fn lemma_height_in_lane(value: int, lane_h: int)
    requires
        PX <= lane_h <= WINDOW_LIMIT,
    ensures
        -2 * WINDOW_LIMIT <= height_of_value(value, lane_h) <= 2 * WINDOW_LIMIT,
{
    let c = VALUE_ONE - crate::fixed::clamp_to(value, 0, VALUE_ONE as int);
    let d = lane_h - 10 * PX;
    assert(-1_000_000_000 * 9_000_000 <= c * d <= 1_000_000_000 * 68_719_476_736) by (nonlinear_arith)
        requires
            0 <= c <= 1_000_000_000,
            -9_000_000 <= d <= 68_719_476_736,
    ;
    lemma_nearest_bound(c * d, 1_000_000_000);
}

proof fn lemma_drawn_lane_fits(s: CcLaneSnapshot, roll: PianoRoll, points: Seq<MidiControllerPoint>, scale: int)
    requires
        roll.valid(),
        lane_drawn(s, roll, points, scale),
        0 <= roll.lane_size().0 <= WINDOW_LIMIT,
        PX <= roll.lane_size().1 <= WINDOW_LIMIT,
    ensures
        0 <= scale <= SCALE_LIMIT ==> snapshot_fits(s),
{
    let (w, h) = roll.lane_size();
    let shown = drawn_points(points);
    let p = |q: MidiControllerPoint| handle_shows(q, roll.axis(), w);
    assert forall|i: int| 0 <= i < s.samples@.len() implies -2 * WINDOW_LIMIT <= #[trigger] s.samples@[i] <= 2
        * WINDOW_LIMIT by {
        lemma_height_in_lane(envelope(shown, column_beat(roll.axis(), i), default_of(roll.active_cc)), h);
    }
    assert forall|i: int| 0 <= i < s.handles@.len() implies -2 * WINDOW_LIMIT <= (#[trigger] s.handles@[i]).x <= 2
        * WINDOW_LIMIT && -2 * WINDOW_LIMIT <= s.handles@[i].y <= 2 * WINDOW_LIMIT by {
        let kept = shown.filter(p);
        let q = kept[i];
        assert(kept.contains(q));
        shown.lemma_filter_contains_rev(p, q);
        shown.lemma_filter_pred(p, i);
        lemma_height_in_lane(q.value as int, h);
        assert(s.handles@[i] == handle_of(q, roll.axis(), h, roll.cc_selection@));
    }
}

/// The words that tell one drawing from another.
pub open spec fn content_words(s: CcLaneSnapshot) -> Seq<u64> {
    seq![s.width as u64, s.height as u64, s.scale as u64, s.baseline_y as u64] + s.samples@.map_values(
        |v: i64| v as u64,
    ) + handle_words(s.handles@)
}

/// The words of the handles: place, and whether selected.
pub open spec fn handle_words(handles: Seq<CcHandle>) -> Seq<u64>
    decreases handles.len(),
{
    if handles.len() == 0 {
        Seq::empty()
    } else {
        let h = handles.last();
        handle_words(handles.drop_last()) + seq![h.x as u64, h.y as u64, if h.selected {
            1u64
        } else {
            0u64
        }]
    }
}

/// The hash of a list of words.
pub open spec fn hash_of(words: Seq<u64>) -> u64 {
    DefaultHasher::spec_finish(words.map_values(|w: u64| spec_u64_to_le_bytes(w)))
}

fn write_word(hasher: &mut DefaultHasher, word: u64)
    ensures
        final(hasher)@ == old(hasher)@.push(spec_u64_to_le_bytes(word)),
{
    let bytes = u64_to_le_bytes(word);
    hasher.write(bytes.as_slice());
}

proof fn lemma_handle_words(handles: Seq<CcHandle>)
    ensures
        handle_words(handles).len() == 3 * handles.len(),
        forall|i: int|
            0 <= i < handles.len() ==> {
                &&& #[trigger] handle_words(handles)[3 * i] == handles[i].x as u64
                &&& handle_words(handles)[3 * i + 1] == handles[i].y as u64
                &&& handle_words(handles)[3 * i + 2] == (if handles[i].selected {
                    1u64
                } else {
                    0u64
                })
            },
    decreases handles.len(),
{
    if handles.len() > 0 {
        lemma_handle_words(handles.drop_last());
        let front = handles.drop_last();
        assert forall|i: int| 0 <= i < handles.len() implies {
            &&& #[trigger] handle_words(handles)[3 * i] == handles[i].x as u64
            &&& handle_words(handles)[3 * i + 1] == handles[i].y as u64
            &&& handle_words(handles)[3 * i + 2] == (if handles[i].selected {
                1u64
            } else {
                0u64
            })
        } by {
            if i < front.len() {
                assert(handle_words(front)[3 * i] == front[i].x as u64);
            }
        }
    }
}

pub(crate) proof fn lemma_words_are_numbers(x: i64, y: i64)
    requires
        x as u64 == y as u64,
    ensures
        x == y,
{
    assert(x as u64 == y as u64 ==> x == y) by (bit_vector);
}

/// Of drawings with one number of columns, those that differ in the size, the
/// scale, the base line, the curve, a handle or a selection are told apart by
/// their words, and those that do not have the same words.
pub proof fn law_words_tell_drawings_apart(a: CcLaneSnapshot, b: CcLaneSnapshot)
    requires
        a.samples@.len() == b.samples@.len(),
    ensures
        content_words(a) == content_words(b) <==> {
            &&& a.width == b.width && a.height == b.height && a.scale == b.scale && a.baseline_y == b.baseline_y
            &&& a.samples@ == b.samples@
            &&& a.handles@ == b.handles@
        },
{
    if content_words(a) == content_words(b) {
        lemma_words_tell_drawings_apart(a, b);
    }
}

proof fn lemma_words_tell_drawings_apart(a: CcLaneSnapshot, b: CcLaneSnapshot)
    requires
        a.samples@.len() == b.samples@.len(),
        content_words(a) == content_words(b),
    ensures
        a.width == b.width && a.height == b.height && a.scale == b.scale && a.baseline_y == b.baseline_y,
        a.samples@ == b.samples@,
        a.handles@ == b.handles@,
{
    let wa = content_words(a);
    let wb = content_words(b);
    let n = a.samples@.len() as int;
    lemma_handle_words(a.handles@);
    lemma_handle_words(b.handles@);
    assert(wa[0] == wb[0] && wa[1] == wb[1] && wa[2] == wb[2] && wa[3] == wb[3]);
    lemma_words_are_numbers(a.width, b.width);
    lemma_words_are_numbers(a.height, b.height);
    lemma_words_are_numbers(a.scale, b.scale);
    lemma_words_are_numbers(a.baseline_y, b.baseline_y);
    assert forall|i: int| 0 <= i < n implies a.samples@[i] == b.samples@[i] by {
        assert(wa[4 + i] == a.samples@[i] as u64);
        assert(wb[4 + i] == b.samples@[i] as u64);
        lemma_words_are_numbers(a.samples@[i], b.samples@[i]);
    }
    assert(a.samples@ =~= b.samples@);
    assert(wa.len() == 4 + n + 3 * a.handles@.len() && wb.len() == 4 + n + 3 * b.handles@.len());
    assert(a.handles@.len() == b.handles@.len());
    assert forall|i: int| 0 <= i < a.handles@.len() implies a.handles@[i] == b.handles@[i] by {
        assert(handle_words(a.handles@)[3 * i] == a.handles@[i].x as u64);
        assert(handle_words(b.handles@)[3 * i] == b.handles@[i].x as u64);
        assert(wa[4 + n + 3 * i] == handle_words(a.handles@)[3 * i]);
        assert(wb[4 + n + 3 * i] == handle_words(b.handles@)[3 * i]);
        assert(wa[4 + n + 3 * i + 1] == handle_words(a.handles@)[3 * i + 1]);
        assert(wb[4 + n + 3 * i + 1] == handle_words(b.handles@)[3 * i + 1]);
        assert(wa[4 + n + 3 * i + 2] == handle_words(a.handles@)[3 * i + 2]);
        assert(wb[4 + n + 3 * i + 2] == handle_words(b.handles@)[3 * i + 2]);
        lemma_words_are_numbers(a.handles@[i].x, b.handles@[i].x);
        lemma_words_are_numbers(a.handles@[i].y, b.handles@[i].y);
    }
    assert(a.handles@ =~= b.handles@);
}

/// The dashes of the base line: where each starts and how long it is.
pub open spec fn base_dashes(width: int) -> Seq<(int, int)> {
    Seq::new(
        max_of((width + DASH_PITCH - 1) / (DASH_PITCH as int), 0) as nat,
        |k: int| (k * DASH_PITCH, min_of(DASH as int, width - k * DASH_PITCH)),
    )
}

/// Scale that a picture is made at.
pub open spec fn scale_used(scale: int) -> int {
    max_of(scale, SCALE_MIN as int)
}

/// A length in whole device pixels, one at least.
pub open spec fn device_pixels(length: int, scale: int) -> int {
    max_of(nearest(length * scale_used(scale), PX * PX), 1)
}

/// Height of the curve at a device column, in millionths of a device pixel.
pub open spec fn resampled(samples: Seq<i64>, scale: int, col: int) -> int {
    let s = scale_used(scale);
    let i0 = min_of(col * PX / s, samples.len() - 1);
    let i1 = min_of(i0 + 1, samples.len() - 1);
    let t = min_of(col * PX - i0 * s, s);
    nearest(samples[i0] * s + (samples[i1] - samples[i0]) * t, PX as int)
}

/// Outline of a marquee that is dragged over the points of the lane.
pub open spec fn point_outline(roll: PianoRoll) -> Option<Outline> {
    match roll.drag {
        PianoDrag::CcSelect(_, _, m) => if m.dragging {
            Some(outline_of(m.area(roll.lane_size().0, roll.lane_size().1), PX as int))
        } else {
            None
        },
        _ => None,
    }
}

/// Why the GPU made no picture.
#[derive(Debug, Clone, Copy, PartialEq, Eq, Structural)]
pub enum LaneGpuError {
    /// The lane is too wide, or has no curve.
    TooWideOrEmpty,
    /// The picture that came back has another size.
    SizeMismatch,
}

impl LaneGpuError {
    /// What went wrong, in words.
    pub fn message(&self) -> (s: &'static str)
        ensures
            s@ == (match *self {
                LaneGpuError::TooWideOrEmpty => "lane too wide or empty for the GPU pass"@,
                LaneGpuError::SizeMismatch => "readback size mismatch"@,
            }),
    {
        match self {
            LaneGpuError::TooWideOrEmpty => "lane too wide or empty for the GPU pass",
            LaneGpuError::SizeMismatch => "readback size mismatch",
        }
    }
}

/// A handle as the GPU draws it: place in millionths of a device pixel, and
/// whether it has a ring.
#[derive(Debug, Clone, Copy, PartialEq, Eq, Structural)]
pub struct HandleInstance {
    pub x: i64,
    pub y: i64,
    pub ring: bool,
}

/// The handle reaches into a picture of a width.
pub open spec fn instance_shows(h: CcHandle, scale: int, width: int) -> bool {
    -HANDLE_R <= h.x && h.x * scale_used(scale) <= width * (PX * PX) + HANDLE_R * scale_used(scale)
}

/// A handle as the GPU draws it.
pub open spec fn instance_of(h: CcHandle, scale: int) -> HandleInstance {
    HandleInstance {
        x: nearest(h.x * scale_used(scale), PX as int) as i64,
        y: nearest(h.y * scale_used(scale), PX as int) as i64,
        ring: h.selected,
    }
}

/// The picture that the GPU is asked for.
#[derive(Debug)]
pub struct LanePass {
    pub width: u32,
    pub height: u32,
    /// Height of the curve at each device column.
    pub columns: Vec<i64>,
    pub handles: Vec<HandleInstance>,
}

impl LanePass {
    /// The picture of a lane.
    pub open spec fn pictures(self, s: CcLaneSnapshot) -> bool {
        &&& self.width == device_pixels(s.width as int, s.scale as int)
        &&& self.height == device_pixels(s.height as int, s.scale as int)
        &&& self.columns@.len() == self.width + 1
        &&& forall|c: int|
            0 <= c <= self.width ==> #[trigger] self.columns@[c] == resampled(s.samples@, s.scale as int, c)
        &&& self.handles@ == s.handles@.filter(
            |h: CcHandle| instance_shows(h, s.scale as int, self.width as int),
        ).map_values(|h: CcHandle| instance_of(h, s.scale as int))
    }
}

/// Everything of a drawing is within the reach of a window.
pub open spec fn snapshot_fits(s: CcLaneSnapshot) -> bool {
    &&& 0 <= s.width <= WINDOW_LIMIT
    &&& 0 <= s.height <= WINDOW_LIMIT
    &&& 0 <= s.scale <= SCALE_LIMIT
    &&& s.samples@.len() <= 0x1000_0000
    &&& forall|i: int| 0 <= i < s.samples@.len() ==> -2 * WINDOW_LIMIT <= #[trigger] s.samples@[i] <= 2 * WINDOW_LIMIT
    &&& forall|i: int|
        0 <= i < s.handles@.len() ==> -2 * WINDOW_LIMIT <= (#[trigger] s.handles@[i]).x <= 2 * WINDOW_LIMIT && -2
            * WINDOW_LIMIT <= s.handles@[i].y <= 2 * WINDOW_LIMIT
}

fn device_length(length: i64, scale: i64) -> (n: u32)
    requires
        0 <= length <= WINDOW_LIMIT,
        0 <= scale <= SCALE_LIMIT,
    ensures
        n == device_pixels(length as int, scale as int),
        1 <= n,
{
    let s = max_i64(scale, SCALE_MIN);
    assert(0 <= length * s <= 68_719_476_736 * 64_000_000) by (nonlinear_arith)
        requires
            0 <= length <= 68_719_476_736,
            0 <= s <= 64_000_000,
    ;
    let q = nearest_div(length as i128 * s as i128, 1_000_000_000_000);
    proof {
        lemma_nearest_bound(length * s, 1_000_000_000_000);
    }
    if q < 1 {
        1
    } else {
        q as u32
    }
}

fn column_height(samples: &Vec<i64>, scale: i64, col: u32) -> (y: i64)
    requires
        SCALE_MIN <= scale <= SCALE_LIMIT,
        2 <= samples@.len() <= 0x1000_0000,
        forall|i: int| 0 <= i < samples@.len() ==> -2 * WINDOW_LIMIT <= #[trigger] samples@[i] <= 2 * WINDOW_LIMIT,
        col <= MAX_WIDTH,
    ensures
        y == resampled(samples@, scale as int, col as int),
{
    let at: i64 = col as i64 * 1_000_000;
    let q: i64 = at / scale;
    let top: i64 = samples.len() as i64 - 1;
    let i0 = min_i64(q, top);
    let i1 = min_i64(i0 + 1, top);
    proof {
        assert(q * scale <= at && 0 <= q) by (nonlinear_arith)
            requires
                q == at / scale,
                0 <= at,
                scale > 0,
        ;
        assert(0 <= i0 * scale <= q * scale) by (nonlinear_arith)
            requires
                0 <= i0 <= q,
                scale > 0,
        ;
    }
    let t = min_i64(at - i0 * scale, scale);
    let a = samples[i0 as usize];
    let b = samples[i1 as usize];
    proof {
        assert(-2 * 68_719_476_736 * 64_000_000 <= a * scale <= 2 * 68_719_476_736 * 64_000_000) by (nonlinear_arith)
            requires
                -2 * 68_719_476_736 <= a <= 2 * 68_719_476_736,
                0 <= scale <= 64_000_000,
        ;
        assert(-4 * 68_719_476_736 * 64_000_000 <= (b - a) * t <= 4 * 68_719_476_736 * 64_000_000) by (nonlinear_arith)
            requires
                -4 * 68_719_476_736 <= b - a <= 4 * 68_719_476_736,
                0 <= t <= 64_000_000,
        ;
        lemma_nearest_bound(a * scale + (b - a) * t, 1_000_000);
    }
    let v = nearest_div(a as i128 * scale as i128 + (b as i128 - a as i128) * t as i128, 1_000_000);
    v as i64
}

fn scaled_place(v: i64, scale: i64) -> (r: i64)
    requires
        -2 * WINDOW_LIMIT <= v <= 2 * WINDOW_LIMIT,
        SCALE_MIN <= scale <= SCALE_LIMIT,
    ensures
        r == nearest(v * scale, PX as int),
{
    assert(-2 * 68_719_476_736 * 64_000_000 <= v * scale <= 2 * 68_719_476_736 * 64_000_000) by (nonlinear_arith)
        requires
            -2 * 68_719_476_736 <= v <= 2 * 68_719_476_736,
            0 <= scale <= 64_000_000,
    ;
    let q = nearest_div(v as i128 * scale as i128, 1_000_000);
    proof {
        lemma_nearest_bound(v * scale, 1_000_000);
    }
    q as i64
}

impl CcLaneSnapshot {
    /// Identity of what would be drawn.
    pub fn content_hash(&self) -> (h: u64)
        ensures
            h == hash_of(content_words(*self)),
    {
        let ghost g = |w: u64| spec_u64_to_le_bytes(w);
        let ghost f = |v: i64| v as u64;
        let mut hasher = DefaultHasher::new();
        write_word(&mut hasher, self.width as u64);
        write_word(&mut hasher, self.height as u64);
        write_word(&mut hasher, self.scale as u64);
        write_word(&mut hasher, self.baseline_y as u64);
        let ghost head = seq![self.width as u64, self.height as u64, self.scale as u64, self.baseline_y as u64];
        assert(hasher@ =~= head.map_values(g));
        let mut i: usize = 0;
        assert(head + self.samples@.subrange(0, 0).map_values(f) =~= head);
        while i < self.samples.len()
            invariant
                i <= self.samples@.len(),
                g == (|w: u64| spec_u64_to_le_bytes(w)),
                f == (|v: i64| v as u64),
                hasher@ == (head + self.samples@.subrange(0, i as int).map_values(f)).map_values(g),
            decreases self.samples@.len() - i,
        {
            let ghost before = head + self.samples@.subrange(0, i as int).map_values(f);
            let word = self.samples[i] as u64;
            write_word(&mut hasher, word);
            assert(head + self.samples@.subrange(0, i + 1).map_values(f) =~= before.push(word));
            assert(before.push(word).map_values(g) =~= before.map_values(g).push(g(word)));
            i = i + 1;
        }
        assert(self.samples@.subrange(0, self.samples@.len() as int) =~= self.samples@);
        let ghost front = head + self.samples@.map_values(f);
        let mut k: usize = 0;
        assert(front + handle_words(self.handles@.subrange(0, 0)) =~= front);
        while k < self.handles.len()
            invariant
                k <= self.handles@.len(),
                g == (|w: u64| spec_u64_to_le_bytes(w)),
                hasher@ == (front + handle_words(self.handles@.subrange(0, k as int))).map_values(g),
            decreases self.handles@.len() - k,
        {
            let ghost before = front + handle_words(self.handles@.subrange(0, k as int));
            let h = self.handles[k];
            let flag: u64 = if h.selected {
                1
            } else {
                0
            };
            write_word(&mut hasher, h.x as u64);
            write_word(&mut hasher, h.y as u64);
            write_word(&mut hasher, flag);
            proof {
                let next = self.handles@.subrange(0, k + 1);
                assert(next.drop_last() =~= self.handles@.subrange(0, k as int));
                assert(next.last() == h);
                let words = seq![h.x as u64, h.y as u64, flag];
                assert(handle_words(next) == handle_words(self.handles@.subrange(0, k as int)) + words);
                assert(front + handle_words(next) =~= before + words);
                assert((before + words).map_values(g) =~= before.map_values(g).push(g(h.x as u64)).push(
                    g(h.y as u64),
                ).push(g(flag)));
            }
            k = k + 1;
        }
        assert(self.handles@.subrange(0, self.handles@.len() as int) =~= self.handles@);
        assert(front + handle_words(self.handles@) =~= content_words(*self));
        hasher.finish()
    }

    /// The dashes of the base line.
    pub fn dashes(&self) -> (out: Vec<(i64, i64)>)
        requires
            0 <= self.width <= WINDOW_LIMIT,
        ensures
            out@.len() == base_dashes(self.width as int).len(),
            forall|k: int|
                0 <= k < out@.len() ==> (#[trigger] out@[k]).0 == base_dashes(self.width as int)[k].0 && out@[k].1
                    == base_dashes(self.width as int)[k].1,
    {
        let mut out: Vec<(i64, i64)> = Vec::new();
        let mut x: i64 = 0;
        while x < self.width
            invariant
                0 <= self.width <= WINDOW_LIMIT,
                x == out@.len() * DASH_PITCH,
                x < self.width + DASH_PITCH,
                forall|k: int|
                    0 <= k < out@.len() ==> (#[trigger] out@[k]).0 == k * DASH_PITCH && out@[k].1 == min_of(
                        DASH as int,
                        self.width - k * DASH_PITCH,
                    ),
            decreases self.width + DASH_PITCH - x,
        {
            out.push((x, min_i64(DASH, self.width - x)));
            x = x + DASH_PITCH;
        }
        out
    }

    fn instances(&self, width: u32) -> (out: Vec<HandleInstance>)
        requires
            snapshot_fits(*self),
        ensures
            out@ == self.handles@.filter(|h: CcHandle| instance_shows(h, self.scale as int, width as int)).map_values(
                |h: CcHandle| instance_of(h, self.scale as int),
            ),
    {
        let ghost p = |h: CcHandle| instance_shows(h, self.scale as int, width as int);
        let ghost f = |h: CcHandle| instance_of(h, self.scale as int);
        let scale = max_i64(self.scale, SCALE_MIN);
        let edge: i128 = width as i128 * 1_000_000_000_000 + 4_000_000 * scale as i128;
        let mut out: Vec<HandleInstance> = Vec::new();
        let mut i: usize = 0;
        proof {
            reveal(Seq::filter);
            assert(self.handles@.subrange(0, 0).filter(p).map_values(f) =~= Seq::<HandleInstance>::empty());
        }
        while i < self.handles.len()
            invariant
                snapshot_fits(*self),
                scale == scale_used(self.scale as int),
                SCALE_MIN <= scale <= SCALE_LIMIT,
                edge == width * (PX * PX) + HANDLE_R * scale,
                i <= self.handles@.len(),
                p == (|h: CcHandle| instance_shows(h, self.scale as int, width as int)),
                f == (|h: CcHandle| instance_of(h, self.scale as int)),
                out@ == self.handles@.subrange(0, i as int).filter(p).map_values(f),
            decreases self.handles@.len() - i,
        {
            proof {
                lemma_filter_step(self.handles@, i as int, p);
            }
            let ghost front = self.handles@.subrange(0, i as int).filter(p);
            let h = self.handles[i];
            assert(-2 * WINDOW_LIMIT <= self.handles@[i as int].x <= 2 * WINDOW_LIMIT);
            assert(-2 * 68_719_476_736 * 64_000_000 <= h.x * scale <= 2 * 68_719_476_736 * 64_000_000) by (nonlinear_arith)
                requires
                    -2 * 68_719_476_736 <= h.x <= 2 * 68_719_476_736,
                    0 <= scale <= 64_000_000,
            ;
            if h.x >= -HANDLE_R && h.x as i128 * scale as i128 <= edge {
                let inst = HandleInstance {
                    x: scaled_place(h.x, scale),
                    y: scaled_place(h.y, scale),
                    ring: h.selected,
                };
                out.push(inst);
                assert(front.push(self.handles@[i as int]).map_values(f) =~= front.map_values(f).push(inst));
            }
            i = i + 1;
        }
        assert(self.handles@.subrange(0, self.handles@.len() as int) =~= self.handles@);
        out
    }

    /// The picture that the GPU is asked for.
    pub fn gpu_pass(&self) -> (r: Result<LanePass, LaneGpuError>)
        requires
            snapshot_fits(*self),
        ensures
            match r {
                Ok(pass) => pass.pictures(*self) && pass.width <= MAX_WIDTH && self.samples@.len() >= 2,
                Err(e) => e == LaneGpuError::TooWideOrEmpty && (self.samples@.len() < 2 || device_pixels(
                    self.width as int,
                    self.scale as int,
                ) > MAX_WIDTH),
            },
    {
        let width = device_length(self.width, self.scale);
        let height = device_length(self.height, self.scale);
        if width > MAX_WIDTH || self.samples.len() < 2 {
            return Err(LaneGpuError::TooWideOrEmpty);
        }
        let scale = max_i64(self.scale, SCALE_MIN);
        let mut columns: Vec<i64> = Vec::new();
        let mut col: u32 = 0;
        while col <= width
            invariant
                snapshot_fits(*self),
                self.samples@.len() >= 2,
                scale == scale_used(self.scale as int),
                SCALE_MIN <= scale <= SCALE_LIMIT,
                width <= MAX_WIDTH,
                col <= width + 1,
                columns@.len() == col,
                forall|c: int|
                    0 <= c < col ==> #[trigger] columns@[c] == resampled(self.samples@, self.scale as int, c),
            decreases width + 1 - col,
        {
            columns.push(column_height(&self.samples, scale, col));
            col = col + 1;
        }
        Ok(LanePass { width, height, columns, handles: self.instances(width) })
    }
}

/// The least power of two that is no less than `n`.
pub open spec fn is_capacity_for(c: int, n: int) -> bool {
    &&& exists|e: nat| c == #[trigger] vstd::arithmetic::power2::pow2(e)
    &&& n <= c
    &&& c < 2 * n || c == 1
}

/// Width of the curve's line.
pub const LINE_WIDTH: i64 = 1_800_000;

/// Numbers that the lane's shader reads once a picture.
pub const LANE_GLOBALS_LEN: usize = 24;

/// Numbers that the lane's shader reads for a handle.
pub const HANDLE_NUMBERS_LEN: usize = 12;

/// Colours of the lane, premultiplied, in billionths.
#[derive(Debug)]
pub struct LaneColours {
    pub line: [i64; 4],
    pub fill_top: [i64; 4],
    pub fill_bottom: [i64; 4],
    pub baseline: [i64; 4],
    pub handle: [i64; 4],
    pub ring: [i64; 4],
}

/// A length in billionths of a device pixel.
pub open spec fn device_billionths(length: int, scale: int) -> int {
    nearest(length * scale_used(scale), 1000)
}

fn billionths_of(length: i64, scale: i64) -> (r: i64)
    requires
        -2 * WINDOW_LIMIT <= length <= 2 * WINDOW_LIMIT,
        0 <= scale <= SCALE_LIMIT,
    ensures
        r == device_billionths(length as int, scale as int),
{
    let s = max_i64(scale, SCALE_MIN);
    assert(-137_438_953_472 * 64_000_000 <= length * s <= 137_438_953_472 * 64_000_000) by (nonlinear_arith)
        requires
            -137_438_953_472 <= length <= 137_438_953_472,
            0 <= s <= 64_000_000,
    ;
    let q = nearest_div(length as i128 * s as i128, 1000);
    proof {
        lemma_nearest_bound(length * s, 1000);
    }
    q as i64
}

/// What stands at a place of the shader's numbers, in billionths.
pub open spec fn lane_global_at(s: CcLaneSnapshot, width: int, height: int, c: LaneColours, i: int) -> int {
    if i == 0 {
        width * VALUE_ONE
    } else if i == 1 {
        height * VALUE_ONE
    } else if i == 2 {
        device_billionths(s.baseline_y as int, s.scale as int)
    } else if i == 3 {
        device_billionths(LINE_WIDTH as int / 2, s.scale as int)
    } else if 4 <= i < 8 {
        c.line@[i - 4] as int
    } else if 8 <= i < 12 {
        c.fill_top@[i - 8] as int
    } else if 12 <= i < 16 {
        c.fill_bottom@[i - 12] as int
    } else if 16 <= i < 20 {
        c.baseline@[i - 16] as int
    } else if i == 20 {
        device_billionths(DASH as int, s.scale as int)
    } else if i == 21 {
        device_billionths(DASH_PITCH - DASH, s.scale as int)
    } else {
        0
    }
}

/// What stands at a place of a handle's numbers, in billionths.
pub open spec fn handle_number_at(h: HandleInstance, scale: int, c: LaneColours, i: int) -> int {
    if i == 0 {
        h.x * 1000
    } else if i == 1 {
        h.y * 1000
    } else if i == 2 {
        device_billionths(HANDLE_R as int, scale)
    } else if i == 3 {
        if h.ring {
            VALUE_ONE as int
        } else {
            0
        }
    } else if 4 <= i < 8 {
        c.handle@[i - 4] as int
    } else {
        c.ring@[i - 8] as int
    }
}

impl CcLaneSnapshot {
    fn lane_global(&self, width: u32, height: u32, c: &LaneColours, i: usize) -> (v: i64)
        requires
            snapshot_fits(*self),
            -2 * WINDOW_LIMIT <= self.baseline_y <= 2 * WINDOW_LIMIT,
            i < LANE_GLOBALS_LEN,
        ensures
            v == lane_global_at(*self, width as int, height as int, *c, i as int),
    {
        if i == 0 {
            width as i64 * VALUE_ONE
        } else if i == 1 {
            height as i64 * VALUE_ONE
        } else if i == 2 {
            billionths_of(self.baseline_y, self.scale)
        } else if i == 3 {
            billionths_of(LINE_WIDTH / 2, self.scale)
        } else if 4 <= i && i < 8 {
            c.line[i - 4]
        } else if 8 <= i && i < 12 {
            c.fill_top[i - 8]
        } else if 12 <= i && i < 16 {
            c.fill_bottom[i - 12]
        } else if 16 <= i && i < 20 {
            c.baseline[i - 16]
        } else if i == 20 {
            billionths_of(DASH, self.scale)
        } else if i == 21 {
            billionths_of(DASH_PITCH - DASH, self.scale)
        } else {
            0
        }
    }

    /// The numbers that the shader reads once a picture.
    pub fn globals(&self, width: u32, height: u32, c: &LaneColours) -> (out: Vec<i64>)
        requires
            snapshot_fits(*self),
            -2 * WINDOW_LIMIT <= self.baseline_y <= 2 * WINDOW_LIMIT,
        ensures
            out@.len() == LANE_GLOBALS_LEN,
            forall|i: int|
                0 <= i < LANE_GLOBALS_LEN ==> #[trigger] out@[i] == lane_global_at(
                    *self,
                    width as int,
                    height as int,
                    *c,
                    i,
                ),
    {
        let mut out: Vec<i64> = Vec::new();
        let mut i: usize = 0;
        while i < LANE_GLOBALS_LEN
            invariant
                snapshot_fits(*self),
                -2 * WINDOW_LIMIT <= self.baseline_y <= 2 * WINDOW_LIMIT,
                i <= LANE_GLOBALS_LEN,
                out@.len() == i,
                forall|k: int|
                    0 <= k < i ==> #[trigger] out@[k] == lane_global_at(*self, width as int, height as int, *c, k),
            decreases LANE_GLOBALS_LEN - i,
        {
            out.push(self.lane_global(width, height, c, i));
            i = i + 1;
        }
        out
    }
}

impl HandleInstance {
    fn number(&self, scale: i64, c: &LaneColours, i: usize) -> (v: i64)
        requires
            0 <= scale <= SCALE_LIMIT,
            -0x20_0000_0000_0000 <= self.x <= 0x20_0000_0000_0000,
            -0x20_0000_0000_0000 <= self.y <= 0x20_0000_0000_0000,
            i < HANDLE_NUMBERS_LEN,
        ensures
            v == handle_number_at(*self, scale as int, *c, i as int),
    {
        if i == 0 {
            self.x * 1000
        } else if i == 1 {
            self.y * 1000
        } else if i == 2 {
            billionths_of(HANDLE_R, scale)
        } else if i == 3 {
            if self.ring {
                VALUE_ONE
            } else {
                0
            }
        } else if 4 <= i && i < 8 {
            c.handle[i - 4]
        } else {
            c.ring[i - 8]
        }
    }

    /// The numbers that the shader reads for the handle.
    pub fn numbers(&self, scale: i64, c: &LaneColours) -> (out: Vec<i64>)
        requires
            0 <= scale <= SCALE_LIMIT,
            -0x20_0000_0000_0000 <= self.x <= 0x20_0000_0000_0000,
            -0x20_0000_0000_0000 <= self.y <= 0x20_0000_0000_0000,
        ensures
            out@.len() == HANDLE_NUMBERS_LEN,
            forall|i: int|
                0 <= i < HANDLE_NUMBERS_LEN ==> #[trigger] out@[i] == handle_number_at(*self, scale as int, *c, i),
    {
        let mut out: Vec<i64> = Vec::new();
        let mut i: usize = 0;
        while i < HANDLE_NUMBERS_LEN
            invariant
                0 <= scale <= SCALE_LIMIT,
                -0x20_0000_0000_0000 <= self.x <= 0x20_0000_0000_0000,
                -0x20_0000_0000_0000 <= self.y <= 0x20_0000_0000_0000,
                i <= HANDLE_NUMBERS_LEN,
                out@.len() == i,
                forall|k: int|
                    0 <= k < i ==> #[trigger] out@[k] == handle_number_at(*self, scale as int, *c, k),
            decreases HANDLE_NUMBERS_LEN - i,
        {
            out.push(self.number(scale, c, i));
            i = i + 1;
        }
        out
    }
}

/// Capacity of a buffer that must hold `needed` entries: as it is while it
/// holds them, else the next power of two.
pub fn grown_capacity(capacity: u64, needed: u64) -> (c: u64)
    requires
        needed <= 0x1000_0000_0000_0000,
    ensures
        c >= needed,
        needed <= capacity ==> c == capacity,
        needed > capacity ==> is_capacity_for(c as int, needed as int),
{
    if needed <= capacity {
        return capacity;
    }
    let mut c: u64 = 1;
    let ghost mut e: nat = 0;
    proof {
        vstd::arithmetic::power2::lemma2_to64();
    }
    while c < needed
        invariant
            needed <= 0x1000_0000_0000_0000,
            needed >= 1,
            c >= 1,
            c == vstd::arithmetic::power2::pow2(e),
            c < 2 * needed || c == 1,
        decreases 2 * needed - c,
    {
        proof {
            vstd::arithmetic::power2::lemma_pow2_unfold(e + 1);
            e = e + 1;
        }
        c = c * 2;
    }
    c
}

/// Bytes of a row of a picture, of the same row in a readback, and of the whole
/// readback.
pub open spec fn readback_layout(width: int, height: int) -> (int, int, int) {
    let row = width * 4;
    let padded = (row + ROW_ALIGNMENT - 1) / (ROW_ALIGNMENT as int) * ROW_ALIGNMENT;
    (row, padded, padded * height)
}

/// Bytes of a row of a picture, of the same row in a readback, and of the whole
/// readback.
pub fn readback_bytes(width: u32, height: u32) -> (r: (u32, u32, u64))
    requires
        width <= MAX_WIDTH,
    ensures
        (r.0 as int, r.1 as int, r.2 as int) == readback_layout(width as int, height as int),
        r.0 <= r.1 < r.0 + ROW_ALIGNMENT,
        r.1 % ROW_ALIGNMENT == 0,
{
    let row: u32 = width * 4;
    let padded: u32 = (row + 255) / 256 * 256;
    proof {
        assert(0 <= padded * height <= 40_000 * 0xffff_ffff) by (nonlinear_arith)
            requires
                0 <= padded <= 40_000,
                0 <= height <= 0xffff_ffff,
        ;
    }
    (row, padded, padded as u64 * height as u64)
}

/// Place of a channel after red and blue have changed places.
pub open spec fn swapped_channel(c: int) -> int {
    if c == 0 {
        2
    } else if c == 2 {
        0
    } else {
        c
    }
}

/// A row of a readback, without its padding and with red and blue swapped.
pub open spec fn row_pixels(mapped: Seq<u8>, start: int, row: int) -> Seq<u8> {
    Seq::new(row as nat, |k: int| mapped[start + k - k % 4 + swapped_channel(k % 4)])
}

/// The rows of a readback one after another.
pub open spec fn image_pixels(mapped: Seq<u8>, row: int, padded: int, rows: int) -> Seq<u8>
    decreases rows,
{
    if rows <= 0 {
        Seq::empty()
    } else {
        image_pixels(mapped, row, padded, rows - 1) + row_pixels(mapped, (rows - 1) * padded, row)
    }
}

/// Every byte of a picture comes from its own pixel, and none from the padding.
pub proof fn law_picture_keeps_every_pixel(mapped: Seq<u8>, width: int, padded: int, height: int, x: int, y: int, c: int)
    requires
        0 < width,
        width * 4 <= padded,
        0 <= x < width,
        0 <= y < height,
        0 <= c < 4,
    ensures
        image_pixels(mapped, width * 4, padded, height).len() == width * 4 * height,
        0 <= y * (width * 4) + 4 * x + c < width * 4 * height,
        image_pixels(mapped, width * 4, padded, height)[y * (width * 4) + 4 * x + c] == mapped[y * padded + 4 * x
            + swapped_channel(c)],
    decreases height,
{
    let row = width * 4;
    lemma_image_length(mapped, row, padded, height);
    lemma_image_length(mapped, row, padded, height - 1);
    let at = y * row + 4 * x + c;
    assert(at < (y + 1) * row <= height * row && 0 <= y * row) by (nonlinear_arith)
        requires
            at == y * row + 4 * x + c,
            row == width * 4,
            0 <= x < width,
            0 <= c < 4,
            0 <= y < height,
    ;
    assert(row * height == height * row) by (nonlinear_arith);
    assert(row * (height - 1) == (height - 1) * row) by (nonlinear_arith);
    if y < height - 1 {
        law_picture_keeps_every_pixel(mapped, width, padded, height - 1, x, y, c);
    } else {
        let k = 4 * x + c;
        assert(k % 4 == c);
        assert(row_pixels(mapped, (height - 1) * padded, row)[k] == mapped[(height - 1) * padded + k - c
            + swapped_channel(c)]);
    }
}

proof fn lemma_image_length(mapped: Seq<u8>, row: int, padded: int, rows: int)
    requires
        0 <= row,
    ensures
        image_pixels(mapped, row, padded, rows).len() == row * max_of(rows, 0),
    decreases rows,
{
    if rows > 0 {
        lemma_image_length(mapped, row, padded, rows - 1);
        assert(row * (rows - 1) + row == row * rows) by (nonlinear_arith);
    } else {
        assert(row * 0 == 0) by (nonlinear_arith);
    }
}

fn push_row(out: &mut Vec<u8>, mapped: &[u8], start: usize, row: usize)
    requires
        row % 4 == 0,
        start + row <= mapped@.len(),
    ensures
        final(out)@ == old(out)@ + row_pixels(mapped@, start as int, row as int),
{
    let ghost before = out@;
    let total = mapped.len();
    let mut k: usize = 0;
    assert(out@ =~= before + row_pixels(mapped@, start as int, 0));
    while k < row
        invariant
            total == mapped@.len(),
            row % 4 == 0,
            k % 4 == 0,
            k <= row,
            start + row <= mapped@.len(),
            out@ == before + row_pixels(mapped@, start as int, k as int),
        decreases row - k,
    {
        let at: usize = start + k;
        out.push(mapped[at + 2]);
        out.push(mapped[at + 1]);
        out.push(mapped[at]);
        out.push(mapped[at + 3]);
        assert(out@ =~= before + row_pixels(mapped@, start as int, k + 4)) by {
            let next = row_pixels(mapped@, start as int, k + 4);
            let now = row_pixels(mapped@, start as int, k as int);
            assert forall|j: int| 0 <= j < k implies next[j] == now[j] by {}
            assert(next[k as int] == mapped@[at + 2]);
            assert(next[k + 1] == mapped@[at + 1]);
            assert(next[k + 2] == mapped@[at as int]);
            assert(next[k + 3] == mapped@[at + 3]);
        }
        k = k + 4;
    }
}

/// The picture in a readback, blue first: each row without its padding.
pub fn unpack_readback(mapped: &[u8], width: u32, height: u32) -> (out: Vec<u8>)
    requires
        width <= MAX_WIDTH,
        mapped@.len() == readback_layout(width as int, height as int).2,
    ensures
        out@ == image_pixels(
            mapped@,
            width * 4,
            readback_layout(width as int, height as int).1,
            height as int,
        ),
{
    let (row, padded, _bytes) = readback_bytes(width, height);
    let total = mapped.len();
    let mut out: Vec<u8> = Vec::new();
    let mut y: u32 = 0;
    while y < height
        invariant
            row == width * 4,
            row <= padded,
            row % 4 == 0,
            padded == readback_layout(width as int, height as int).1,
            total == mapped@.len(),
            mapped@.len() == padded * height,
            y <= height,
            out@ == image_pixels(mapped@, row as int, padded as int, y as int),
        decreases height - y,
    {
        proof {
            assert(y * padded + padded <= padded * height && 0 <= y * padded) by (nonlinear_arith)
                requires
                    0 <= y < height,
                    0 <= padded,
            ;
        }
        push_row(&mut out, mapped, y as usize * padded as usize, row as usize);
        y = y + 1;
    }
    out
}

/// Makes an image of raw bytes, four to a pixel, with
/// `image::ImageBuffer::from_raw`. That gives an image exactly where the bytes
/// are enough for its size, and the image holds the bytes as they are. The width
/// is bounded so that the bytes of one row can be counted on every machine: a row
/// that cannot be counted gives no image, even where there are no rows.
#[verifier::external_body]
fn image_from_raw(width: u32, height: u32, bytes: Vec<u8>) -> (r: Option<Vec<u8>>)
    requires
        width <= MAX_WIDTH,
    ensures
        match r {
            Some(b) => width * height * 4 <= bytes@.len() && b@ == bytes@,
            None => width * height * 4 > bytes@.len(),
        },
{
    image::RgbaImage::from_raw(width, height, bytes).map(|image| image.into_raw())
}

/// The picture in a readback as the bytes of an image.
pub fn lane_picture(mapped: &[u8], width: u32, height: u32) -> (r: Result<Vec<u8>, LaneGpuError>)
    requires
        width <= MAX_WIDTH,
        mapped@.len() == readback_layout(width as int, height as int).2,
    ensures
        r matches Ok(b) && b@ == image_pixels(
            mapped@,
            width * 4,
            readback_layout(width as int, height as int).1,
            height as int,
        ),
{
    let bgra = unpack_readback(mapped, width, height);
    proof {
        lemma_image_length(mapped@, width * 4, readback_layout(width as int, height as int).1, height as int);
        assert(width * 4 * height == width * height * 4) by (nonlinear_arith);
    }
    match image_from_raw(width, height, bgra) {
        Some(b) => Ok(b),
        None => Err(LaneGpuError::SizeMismatch),
    }
}

/// The last picture that was made.
#[derive(Debug, Clone, Copy, PartialEq, Eq, Structural)]
pub struct PictureCache {
    pub hash: u64,
    pub filled: bool,
}

impl PictureCache {
    /// Whether the last picture serves for a drawing again.
    pub fn serves(&self, hash: u64) -> (r: bool)
        ensures
            r == (self.filled && self.hash == hash),
    {
        self.filled && self.hash == hash
    }

    /// A new picture has been made; says whether there is an old one to drop.
    pub fn replace(&mut self, hash: u64) -> (drop_old: bool)
        ensures
            drop_old == old(self).filled,
            *final(self) == (PictureCache { hash, filled: true }),
    {
        let drop_old = self.filled;
        self.hash = hash;
        self.filled = true;
        drop_old
    }
}

/// Radius of a handle's dot.
pub fn handle_dot_radius(h: &CcHandle) -> (r: i64)
    ensures
        r == (if h.selected {
            HANDLE_R - RING_W
        } else {
            HANDLE_R as int
        }),
{
    if h.selected {
        HANDLE_R - RING_W
    } else {
        HANDLE_R
    }
}

impl PianoRoll {
    /// The curve of the controller lane and its handles.
    pub fn build_cc_curve(&self, points: &Vec<MidiControllerPoint>, scale: i64) -> (s: CcLaneSnapshot)
        requires
            self.valid(),
            points_in_song(points@),
        ensures
            lane_drawn(s, *self, points@, scale as int),
            0 <= scale <= SCALE_LIMIT ==> snapshot_fits(s),
    {
        let (view_w, lane_h) = self.cc_view_size();
        let default_value = controller_default_value(self.active_cc);
        let baseline_y = controller_y_for_value(default_value, lane_h);
        let columns = max_i64((view_w + 999_999) / 1_000_000, 1);
        let shown = compact_cc_points(points);
        proof {
            lemma_drawn_points_valid(points@);
        }
        let axis = self.clip_axis();
        let samples = cc_curve_samples(&shown, axis, lane_h, columns, default_value);
        let handles = cc_handles(&shown, axis, view_w, lane_h, &self.cc_selection);
        let s = CcLaneSnapshot { width: view_w, height: lane_h, scale, samples, handles, baseline_y };
        proof {
            lemma_drawn_lane_fits(s, *self, points@, scale as int);
        }
        s
    }

    /// Outline of the selection in the controller lane.
    pub fn build_cc_selection_overlay(&self) -> (r: Option<Outline>)
        requires
            self.valid(),
        ensures
            r == point_outline(*self),
    {
        let (view_w, view_h) = self.cc_view_size();
        match &self.drag {
            PianoDrag::CcSelect(_, _, m) => {
                if !m.dragging {
                    return None;
                }
                let a = m.rect(view_w, view_h);
                Some(
                    Outline {
                        left: a.left,
                        top: a.top,
                        width: max_i64(a.right - a.left, PX),
                        height: max_i64(a.bottom - a.top, PX),
                    },
                )
            },
            _ => None,
        }
    }
}

} // verus!
