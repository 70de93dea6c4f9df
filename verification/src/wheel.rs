//! The pitch-class wheel: twelve segments on the circle of fifths, with the
//! bar's progress and a beat ripple inside.

use crate::fixed::{
    clamp_i64, clamp_to, lemma_nearest_bound, max_i64, max_of, nearest, nearest_div, VALUE_ONE, WINDOW_LIMIT,
};
use crate::lane_image::{
    device_pixels, hash_of, image_pixels, lane_picture, lemma_words_are_numbers, readback_layout, scale_used,
    LaneGpuError, SCALE_LIMIT, SCALE_MIN,
};
use crate::pitch::{fifths, fifths_pitch_class};
use std::collections::hash_map::DefaultHasher;
use std::hash::Hasher;
use vstd::bytes::{spec_u64_to_le_bytes, u64_to_le_bytes};
use vstd::prelude::*;
use vstd::std_specs::hash::DefaultHasherAdditionalSpecFns;

verus! {

/// Inner edge of the segments, in hundredths of the wheel's radius.
pub const SEGMENT_INNER: i64 = 60;

/// Outer edge of a segment of full energy.
pub const SEGMENT_OUTER: i64 = 98;

/// Track of the bar's progress.
pub const BAR: i64 = 54;

/// Edge of the disc in the middle.
pub const DISC: i64 = 49;

/// Where a ripple starts.
pub const RIPPLE_START: i64 = 16;

/// Where the names of the pitch classes stand.
pub const LABEL: i64 = 68;

/// Opacity of a segment of the key, of a hundred.
pub const IN_KEY_ALPHA: u8 = 55;

/// Opacity of a segment outside the key.
pub const OUT_OF_KEY_ALPHA: u8 = 18;

/// Opacity of the track behind the segments.
pub const TRACK_ALPHA: u8 = 6;

/// Gap at the side of a segment.
pub const SEGMENT_GAP: i64 = 1_500_000;

/// A whole turn, in billionths of a radian.
pub const TURN: i64 = 6_283_185_307;

/// Energy up to which a segment stays empty, in billionths.
pub const ENERGY_FLOOR: i64 = 1_000_000;

/// Longest edge, in device pixels, that a GPU is asked for.
pub const MAX_EDGE: u32 = 2048;

/// Everything that a painter of the wheel needs. Parts are in billionths.
#[derive(Debug)]
pub struct WheelFrame {
    pub size: i64,
    /// Device pixels per pixel, in millionths.
    pub scale: i64,
    /// Energy of each pitch class, from C.
    pub energy: [i64; 12],
    /// The pitch classes of the chosen key.
    pub in_key: [bool; 12],
    pub tonic: Option<usize>,
    /// Angle of the analysis sweep, clockwise from the top, in billionths of a
    /// radian.
    pub sweep: Option<i64>,
    /// Part of the current beat that has passed.
    pub beat_phase: Option<i64>,
    /// Part of the bar that has passed.
    pub bar_phase: i64,
}

impl WheelFrame {
    pub open spec fn valid(self) -> bool {
        &&& 0 <= self.size <= WINDOW_LIMIT
        &&& 0 <= self.scale <= SCALE_LIMIT
        &&& self.beat_phase matches Some(b) ==> 0 <= b <= VALUE_ONE
        &&& 0 <= self.bar_phase <= VALUE_ONE
        &&& self.sweep matches Some(a) ==> -2 * TURN <= a <= 2 * TURN
    }
}

/// A radius of the wheel.
pub open spec fn ring_radius(size: int, hundredths: int) -> int {
    nearest(size * hundredths, 200)
}

fn radius_of(size: i64, hundredths: i64) -> (r: i64)
    requires
        0 <= size <= WINDOW_LIMIT,
        0 <= hundredths <= 100,
    ensures
        r == ring_radius(size as int, hundredths as int),
        0 <= r <= WINDOW_LIMIT,
{
    assert(0 <= size * hundredths <= 68_719_476_736 * 100) by (nonlinear_arith)
        requires
            0 <= size <= 68_719_476_736,
            0 <= hundredths <= 100,
    ;
    let q = nearest_div(size as i128 * hundredths as i128, 200);
    proof {
        lemma_nearest_bound(size * hundredths, 200);
    }
    q as i64
}

/// Tone of a segment.
#[derive(Debug, Clone, Copy, PartialEq, Eq, Structural)]
pub enum SegmentTone {
    Tonic,
    InKey,
    OutOfKey,
}

/// A segment of the wheel.
#[derive(Debug, Clone, Copy, PartialEq, Eq, Structural)]
pub struct Segment {
    /// Pitch class shown.
    pub class: usize,
    /// Angles at which the segment starts and ends.
    pub start: i64,
    pub end: i64,
    pub inner: i64,
    /// Outer edge of the track.
    pub track: i64,
    /// Outer edge of the fill, where there is one.
    pub outer: Option<i64>,
    pub tone: SegmentTone,
}

/// Half of a gap as an angle, at the inner edge where it is tightest.
pub open spec fn gap_angle(inner: int) -> int {
    nearest(SEGMENT_GAP * 1_000_000_000, max_of(inner, 1))
}

/// Tone of a pitch class.
pub open spec fn tone_of(f: WheelFrame, class: int) -> SegmentTone {
    if f.tonic == Some(class as usize) {
        SegmentTone::Tonic
    } else if f.in_key@[class] {
        SegmentTone::InKey
    } else {
        SegmentTone::OutOfKey
    }
}

/// Outer edge of a segment's fill.
pub open spec fn fill_edge(inner: int, track: int, energy: int) -> Option<i64> {
    let e = clamp_to(energy, 0, VALUE_ONE as int);
    if e > ENERGY_FLOOR {
        Some((inner + nearest((track - inner) * e, VALUE_ONE as int)) as i64)
    } else {
        None
    }
}

/// The segment at a place of the ring.
pub open spec fn segment_at(f: WheelFrame, position: int) -> Segment {
    let class = fifths(position);
    let inner = ring_radius(f.size as int, SEGMENT_INNER as int);
    let track = ring_radius(f.size as int, SEGMENT_OUTER as int);
    Segment {
        class: class as usize,
        start: (nearest(position * TURN, 12) + gap_angle(inner)) as i64,
        end: (nearest((position + 1) * TURN, 12) - gap_angle(inner)) as i64,
        inner: inner as i64,
        track: track as i64,
        outer: fill_edge(inner, track, f.energy@[class] as int),
        tone: tone_of(f, class),
    }
}

/// The parts that move with the beat.
#[derive(Debug, Clone, Copy, PartialEq, Eq, Structural)]
pub struct Pulse {
    pub bar_radius: i64,
    /// Angle that the bar's progress has reached.
    pub bar_angle: i64,
    pub ripple_radius: i64,
    /// Opacity of the ripple, in billionths.
    pub ripple_opacity: i64,
    /// Beat of the bar that is sounding, from zero.
    pub beat: u8,
}

/// Radius of the ripple.
pub open spec fn ripple_radius(size: int, beat: int) -> int {
    nearest(size * (RIPPLE_START * VALUE_ONE + (DISC - RIPPLE_START) * beat), 200 * VALUE_ONE)
}

/// Opacity of the ripple: it fades with the square of what is left of the beat.
pub open spec fn ripple_opacity(beat: int) -> int {
    nearest(6 * (VALUE_ONE - beat) * (VALUE_ONE - beat), 10 * VALUE_ONE)
}

/// The parts that move with the beat.
pub open spec fn pulse_of(f: WheelFrame) -> Option<Pulse> {
    match f.beat_phase {
        Some(b) => Some(
            Pulse {
                bar_radius: ring_radius(f.size as int, BAR as int) as i64,
                bar_angle: nearest(f.bar_phase * TURN, VALUE_ONE as int) as i64,
                ripple_radius: ripple_radius(f.size as int, b as int) as i64,
                ripple_opacity: ripple_opacity(b as int) as i64,
                beat: (4 * f.bar_phase / (VALUE_ONE as int) % 4) as u8,
            },
        ),
        None => None,
    }
}

/// The ripple starts at its first ring, ends at the disc's edge, and is then
/// gone.
pub proof fn law_ripple_runs_from_start_to_disc(size: int)
    requires
        0 <= size,
    ensures
        ripple_radius(size, 0) == ring_radius(size, RIPPLE_START as int),
        ripple_radius(size, VALUE_ONE as int) == ring_radius(size, DISC as int),
        ripple_opacity(VALUE_ONE as int) == 0,
        ripple_opacity(0) == 600_000_000,
{
    assert(0 <= size * RIPPLE_START && 0 <= size * DISC) by (nonlinear_arith)
        requires
            0 <= size,
    ;
    lemma_nearest_scaled(size * RIPPLE_START, 200, VALUE_ONE as int);
    lemma_nearest_scaled(size * DISC, 200, VALUE_ONE as int);
    lemma_no_square_left(VALUE_ONE as int);
    assert(6 * (VALUE_ONE - 0) * (VALUE_ONE - 0) == 6_000_000_000_000_000_000) by (nonlinear_arith);
    assert(size * (RIPPLE_START * VALUE_ONE + (DISC - RIPPLE_START) * 0) == size * RIPPLE_START * VALUE_ONE)
        by (nonlinear_arith);
    assert(size * (RIPPLE_START * VALUE_ONE + (DISC - RIPPLE_START) * VALUE_ONE) == size * DISC * VALUE_ONE)
        by (nonlinear_arith);
}

proof fn lemma_no_square_left(beat: int)
    requires
        beat == VALUE_ONE,
    ensures
        ripple_opacity(beat) == 0,
{
    let n = 6 * (VALUE_ONE - beat) * (VALUE_ONE - beat);
    assert(n == 0) by (nonlinear_arith)
        requires
            n == 6 * (VALUE_ONE - beat) * (VALUE_ONE - beat),
            VALUE_ONE - beat == 0,
    ;
    crate::fixed::lemma_nearest_of_multiple(0, 10 * VALUE_ONE);
    assert(0 * (10 * VALUE_ONE) == 0);
}

proof fn lemma_nearest_scaled(a: int, b: int, k: int)
    requires
        0 <= a,
        b > 0,
        k > 0,
    ensures
        nearest(a * k, b * k) == nearest(a, b),
{
    assert(0 <= a * k && 0 < b * k) by (nonlinear_arith)
        requires
            0 <= a,
            b > 0,
            k > 0,
    ;
    assert(2 * (a * k) + b * k == k * (2 * a + b) && 2 * (b * k) == k * (2 * b)) by (nonlinear_arith);
    vstd::arithmetic::div_mod::lemma_div_multiples_vanish_quotient(k, 2 * a + b, 2 * b);
}

/// The words of an optional number: whether it is there, and the number.
pub open spec fn optional_words(v: Option<i64>) -> Seq<u64> {
    match v {
        Some(n) => seq![1u64, n as u64],
        None => seq![0u64, 0u64],
    }
}

/// The words that tell one frame from another.
pub open spec fn frame_words(f: WheelFrame) -> Seq<u64> {
    seq![f.size as u64, f.scale as u64] + Seq::new(12, |i: int| f.energy@[i] as u64) + Seq::new(
        12,
        |i: int|
            if f.in_key@[i] {
                1u64
            } else {
                0u64
            },
    ) + (match f.tonic {
        Some(t) => seq![1u64, t as u64],
        None => seq![0u64, 0u64],
    }) + optional_words(f.sweep) + optional_words(f.beat_phase) + seq![f.bar_phase as u64]
}

proof fn lemma_frame_words(f: WheelFrame)
    ensures
        ({
            let w = frame_words(f);
            &&& w.len() == 33
            &&& w[0] == f.size as u64 && w[1] == f.scale as u64
            &&& forall|i: int| 0 <= i < 12 ==> #[trigger] w[2 + i] == f.energy@[i] as u64
            &&& forall|i: int|
                0 <= i < 12 ==> #[trigger] w[14 + i] == (if f.in_key@[i] {
                    1u64
                } else {
                    0u64
                })
            &&& w[26] == (if f.tonic is Some {
                1u64
            } else {
                0u64
            })
            &&& f.tonic matches Some(t) ==> w[27] == t as u64
            &&& w[28] == optional_words(f.sweep)[0] && w[29] == optional_words(f.sweep)[1]
            &&& w[30] == optional_words(f.beat_phase)[0] && w[31] == optional_words(f.beat_phase)[1]
            &&& w[32] == f.bar_phase as u64
        }),
{
}

proof fn lemma_optional_words(a: Option<i64>, b: Option<i64>)
    requires
        optional_words(a)[0] == optional_words(b)[0],
        optional_words(a)[1] == optional_words(b)[1],
    ensures
        a == b,
{
    if let (Some(x), Some(y)) = (a, b) {
        lemma_words_are_numbers(x, y);
    }
}

/// Frames that differ in anything are told apart by their words, and equal
/// frames have equal words: a wheel at rest is drawn once.
pub proof fn law_words_tell_frames_apart(a: WheelFrame, b: WheelFrame)
    ensures
        frame_words(a) == frame_words(b) <==> {
            &&& a.size == b.size && a.scale == b.scale
            &&& a.energy@ == b.energy@
            &&& a.in_key@ == b.in_key@
            &&& a.tonic == b.tonic
            &&& a.sweep == b.sweep
            &&& a.beat_phase == b.beat_phase
            &&& a.bar_phase == b.bar_phase
        },
{
    let wa = frame_words(a);
    let wb = frame_words(b);
    if wa == wb {
        lemma_frame_words(a);
        lemma_frame_words(b);
        lemma_words_are_numbers(a.size, b.size);
        lemma_words_are_numbers(a.scale, b.scale);
        assert forall|i: int| 0 <= i < 12 implies a.energy@[i] == b.energy@[i] by {
            assert(wa[2 + i] == wb[2 + i]);
            lemma_words_are_numbers(a.energy@[i], b.energy@[i]);
        }
        assert(a.energy@ =~= b.energy@);
        assert forall|i: int| 0 <= i < 12 implies a.in_key@[i] == b.in_key@[i] by {
            assert(wa[14 + i] == wb[14 + i]);
        }
        assert(a.in_key@ =~= b.in_key@);
        lemma_optional_words(a.sweep, b.sweep);
        lemma_optional_words(a.beat_phase, b.beat_phase);
        lemma_words_are_numbers(a.bar_phase, b.bar_phase);
    }
}

fn push_optional(words: &mut Vec<u64>, v: Option<i64>)
    ensures
        final(words)@ == old(words)@ + optional_words(v),
{
    match v {
        Some(n) => {
            words.push(1);
            words.push(n as u64);
        },
        None => {
            words.push(0);
            words.push(0);
        },
    }
    assert(words@ =~= old(words)@ + optional_words(v));
}

fn hash_words(words: &Vec<u64>) -> (h: u64)
    ensures
        h == hash_of(words@),
{
    let ghost g = |w: u64| spec_u64_to_le_bytes(w);
    let mut hasher = DefaultHasher::new();
    let mut i: usize = 0;
    assert(hasher@ =~= words@.subrange(0, 0).map_values(g));
    while i < words.len()
        invariant
            i <= words@.len(),
            g == (|w: u64| spec_u64_to_le_bytes(w)),
            hasher@ == words@.subrange(0, i as int).map_values(g),
        decreases words@.len() - i,
    {
        let bytes = u64_to_le_bytes(words[i]);
        hasher.write(bytes.as_slice());
        assert(words@.subrange(0, i + 1).map_values(g) =~= words@.subrange(0, i as int).map_values(g).push(
            g(words@[i as int]),
        ));
        i = i + 1;
    }
    assert(words@.subrange(0, words@.len() as int) =~= words@);
    hasher.finish()
}

/// Why the GPU made no picture of the wheel.
#[derive(Debug, Clone, Copy, PartialEq, Eq, Structural)]
pub struct WheelTooLarge;

impl WheelTooLarge {
    /// What went wrong, in words.
    pub fn message(&self) -> (s: &'static str)
        ensures
            s@ == "wheel too large for the GPU pass"@,
    {
        "wheel too large for the GPU pass"
    }
}

impl WheelFrame {
    /// Identity of what would be drawn.
    pub fn content_hash(&self) -> (h: u64)
        ensures
            h == hash_of(frame_words(*self)),
    {
        let mut words: Vec<u64> = Vec::new();
        words.push(self.size as u64);
        words.push(self.scale as u64);
        let ghost head = seq![self.size as u64, self.scale as u64];
        assert(words@ =~= head);
        let ghost energies = Seq::new(12, |i: int| self.energy@[i] as u64);
        let mut i: usize = 0;
        assert(words@ =~= head + energies.subrange(0, 0));
        while i < 12
            invariant
                i <= 12,
                energies == Seq::new(12, |i: int| self.energy@[i] as u64),
                words@ == head + energies.subrange(0, i as int),
            decreases 12 - i,
        {
            words.push(self.energy[i] as u64);
            assert(words@ =~= head + energies.subrange(0, i + 1));
            i = i + 1;
        }
        assert(energies.subrange(0, 12) =~= energies);
        let ghost flags = Seq::new(
            12,
            |i: int|
                if self.in_key@[i] {
                    1u64
                } else {
                    0u64
                },
        );
        let ghost front = head + energies;
        let mut k: usize = 0;
        assert(words@ =~= front + flags.subrange(0, 0));
        while k < 12
            invariant
                k <= 12,
                flags == Seq::new(
                    12,
                    |i: int|
                        if self.in_key@[i] {
                            1u64
                        } else {
                            0u64
                        },
                ),
                words@ == front + flags.subrange(0, k as int),
            decreases 12 - k,
        {
            words.push(if self.in_key[k] { 1 } else { 0 });
            assert(words@ =~= front + flags.subrange(0, k + 1));
            k = k + 1;
        }
        assert(flags.subrange(0, 12) =~= flags);
        let ghost keyed = front + flags;
        match self.tonic {
            Some(t) => {
                words.push(1);
                words.push(t as u64);
                assert(words@ =~= keyed + seq![1u64, t as u64]);
            },
            None => {
                words.push(0);
                words.push(0);
                assert(words@ =~= keyed + seq![0u64, 0u64]);
            },
        }
        push_optional(&mut words, self.sweep);
        push_optional(&mut words, self.beat_phase);
        words.push(self.bar_phase as u64);
        assert(words@ =~= frame_words(*self));
        hash_words(&words)
    }

    fn segment(&self, position: usize) -> (s: Segment)
        requires
            self.valid(),
            position < 12,
        ensures
            s == segment_at(*self, position as int),
    {
        let class = fifths_pitch_class(position);
        let inner = radius_of(self.size, SEGMENT_INNER);
        let track = radius_of(self.size, SEGMENT_OUTER);
        let d = max_i64(inner, 1);
        let gap = nearest_div(1_500_000_000_000_000, d as i128);
        let a0 = nearest_div(position as i128 * 6_283_185_307, 12);
        let a1 = nearest_div((position as i128 + 1) * 6_283_185_307, 12);
        proof {
            lemma_nearest_bound(1_500_000_000_000_000, d as int);
            assert(0 <= gap <= 1_500_000_000_000_001) by (nonlinear_arith)
                requires
                    -d <= 2 * (gap * d - 1_500_000_000_000_000) <= d,
                    d >= 1,
            ;
            lemma_nearest_bound(position * 6_283_185_307, 12);
            lemma_nearest_bound((position + 1) * 6_283_185_307, 12);
            crate::fixed::lemma_nearest_monotone(
                self.size * SEGMENT_INNER,
                self.size * SEGMENT_OUTER,
                200,
            );
        }
        let e = clamp_i64(self.energy[class], 0, VALUE_ONE);
        let outer = if e > ENERGY_FLOOR {
            let span: i64 = track - inner;
            assert(0 <= span * e <= 68_719_476_736 * 1_000_000_000) by (nonlinear_arith)
                requires
                    0 <= span <= 68_719_476_736,
                    0 <= e <= 1_000_000_000,
            ;
            let q = nearest_div(span as i128 * e as i128, 1_000_000_000);
            proof {
                lemma_nearest_bound(span * e, 1_000_000_000);
            }
            Some(inner + q as i64)
        } else {
            None
        };
        let tonic = match self.tonic {
            Some(t) => t == class,
            None => false,
        };
        let tone = if tonic {
            SegmentTone::Tonic
        } else if self.in_key[class] {
            SegmentTone::InKey
        } else {
            SegmentTone::OutOfKey
        };
        Segment { class, start: (a0 + gap) as i64, end: (a1 - gap) as i64, inner, track, outer, tone }
    }

    /// The segments of the wheel, clockwise from the top.
    pub fn segments(&self) -> (out: Vec<Segment>)
        requires
            self.valid(),
        ensures
            out@.len() == 12,
            forall|i: int| 0 <= i < 12 ==> #[trigger] out@[i] == segment_at(*self, i),
    {
        let mut out: Vec<Segment> = Vec::new();
        let mut i: usize = 0;
        while i < 12
            invariant
                self.valid(),
                i <= 12,
                out@.len() == i,
                forall|k: int| 0 <= k < i ==> #[trigger] out@[k] == segment_at(*self, k),
            decreases 12 - i,
        {
            out.push(self.segment(i));
            i = i + 1;
        }
        out
    }

    /// The sweep's leading edge: one segment wide, up to its angle.
    pub fn sweep_arc(&self) -> (r: Option<(i64, i64)>)
        requires
            self.valid(),
        ensures
            r == (match self.sweep {
                Some(a) => Some(((a - TURN as int / 12) as i64, a)),
                None => None,
            }),
    {
        match self.sweep {
            Some(a) => Some((a - TURN / 12, a)),
            None => None,
        }
    }

    /// The parts that move with the beat.
    pub fn pulse(&self) -> (r: Option<Pulse>)
        requires
            self.valid(),
        ensures
            r == pulse_of(*self),
    {
        match self.beat_phase {
            Some(b) => {
                let angle = nearest_div(self.bar_phase as i128 * 6_283_185_307, 1_000_000_000);
                let part: i128 = 16_000_000_000 + 33 * b as i128;
                let left: i128 = 1_000_000_000 - b as i128;
                proof {
                    lemma_nearest_bound(self.bar_phase * 6_283_185_307, 1_000_000_000);
                    assert(0 <= self.size * part <= 68_719_476_736 * 50_000_000_000) by (nonlinear_arith)
                        requires
                            0 <= self.size <= 68_719_476_736,
                            0 <= part <= 50_000_000_000,
                    ;
                    lemma_nearest_bound(self.size * part, 200_000_000_000);
                    assert(0 <= 6 * left * left <= 6 * 1_000_000_000 * 1_000_000_000) by (nonlinear_arith)
                        requires
                            0 <= left <= 1_000_000_000,
                    ;
                    lemma_nearest_bound(6 * left * left, 10_000_000_000);
                }
                let ripple = nearest_div(self.size as i128 * part, 200_000_000_000);
                let opacity = nearest_div(6 * left * left, 10_000_000_000);
                Some(
                    Pulse {
                        bar_radius: radius_of(self.size, BAR),
                        bar_angle: angle as i64,
                        ripple_radius: ripple as i64,
                        ripple_opacity: opacity as i64,
                        beat: (4 * self.bar_phase / VALUE_ONE % 4) as u8,
                    },
                )
            },
            None => None,
        }
    }

    /// Edge of the picture in device pixels, where the GPU takes it on.
    pub fn gpu_edge(&self) -> (r: Result<u32, WheelTooLarge>)
        requires
            self.valid(),
        ensures
            match r {
                Ok(e) => e == device_pixels(self.size as int, self.scale as int) && e <= MAX_EDGE,
                Err(_) => device_pixels(self.size as int, self.scale as int) > MAX_EDGE,
            },
    {
        let s = max_i64(self.scale, SCALE_MIN);
        assert(0 <= self.size * s <= 68_719_476_736 * 64_000_000) by (nonlinear_arith)
            requires
                0 <= self.size <= 68_719_476_736,
                0 <= s <= 64_000_000,
        ;
        let q = nearest_div(self.size as i128 * s as i128, 1_000_000_000_000);
        proof {
            lemma_nearest_bound(self.size * s, 1_000_000_000_000);
        }
        if q > MAX_EDGE as i128 {
            Err(WheelTooLarge)
        } else if q < 1 {
            Ok(1)
        } else {
            Ok(q as u32)
        }
    }
}

/// Numbers that the shader of the wheel reads.
pub const GLOBALS_LEN: usize = 64;

/// What stands at a place of the shader's numbers, in billionths.
pub open spec fn global_at(f: WheelFrame, edge: int, accent: Seq<i64>, ink: Seq<i64>, i: int) -> int {
    if i == 0 || i == 1 {
        edge * VALUE_ONE
    } else if i == 2 {
        scale_used(f.scale as int) * 1000
    } else if i == 3 {
        match f.tonic {
            Some(t) => t * VALUE_ONE,
            None => -VALUE_ONE,
        }
    } else if i == 4 {
        match f.sweep {
            Some(a) => a as int,
            None => -VALUE_ONE,
        }
    } else if i == 5 {
        match f.beat_phase {
            Some(b) => b as int,
            None => -VALUE_ONE,
        }
    } else if i == 6 {
        f.bar_phase as int
    } else if 8 <= i < 12 {
        accent[i - 8] as int
    } else if 12 <= i < 16 {
        ink[i - 12] as int
    } else if i == 16 {
        TRACK_ALPHA * 10_000_000
    } else if i == 17 {
        IN_KEY_ALPHA * 10_000_000
    } else if i == 18 {
        OUT_OF_KEY_ALPHA * 10_000_000
    } else if i == 19 {
        2 * SEGMENT_GAP * 1000
    } else if i == 20 {
        SEGMENT_INNER * 10_000_000
    } else if i == 21 {
        SEGMENT_OUTER * 10_000_000
    } else if i == 22 {
        BAR * 10_000_000
    } else if i == 23 {
        DISC * 10_000_000
    } else if i == 24 {
        RIPPLE_START * 10_000_000
    } else if 32 <= i < 44 {
        f.energy@[i - 32] as int
    } else if 44 <= i < 56 {
        if f.in_key@[i - 44] {
            VALUE_ONE as int
        } else {
            0
        }
    } else {
        0
    }
}

fn or_none(v: Option<i64>) -> (r: i64)
    ensures
        r == (match v {
            Some(n) => n as int,
            None => -VALUE_ONE,
        }),
{
    match v {
        Some(n) => n,
        None => -VALUE_ONE,
    }
}

impl WheelFrame {
    fn global(&self, edge: u32, accent: &[i64; 4], ink: &[i64; 4], i: usize) -> (v: i64)
        requires
            self.valid(),
            edge <= MAX_EDGE,
            self.tonic matches Some(t) ==> t < 12,
            i < GLOBALS_LEN,
        ensures
            v == global_at(*self, edge as int, accent@, ink@, i as int),
    {
        if i == 0 || i == 1 {
            edge as i64 * VALUE_ONE
        } else if i == 2 {
            max_i64(self.scale, SCALE_MIN) * 1000
        } else if i == 3 {
            match self.tonic {
                Some(t) => t as i64 * VALUE_ONE,
                None => -VALUE_ONE,
            }
        } else if i == 4 {
            or_none(self.sweep)
        } else if i == 5 {
            or_none(self.beat_phase)
        } else if i == 6 {
            self.bar_phase
        } else if 8 <= i && i < 12 {
            accent[i - 8]
        } else if 12 <= i && i < 16 {
            ink[i - 12]
        } else if i == 16 {
            TRACK_ALPHA as i64 * 10_000_000
        } else if i == 17 {
            IN_KEY_ALPHA as i64 * 10_000_000
        } else if i == 18 {
            OUT_OF_KEY_ALPHA as i64 * 10_000_000
        } else if i == 19 {
            2 * SEGMENT_GAP * 1000
        } else if i == 20 {
            SEGMENT_INNER * 10_000_000
        } else if i == 21 {
            SEGMENT_OUTER * 10_000_000
        } else if i == 22 {
            BAR * 10_000_000
        } else if i == 23 {
            DISC * 10_000_000
        } else if i == 24 {
            RIPPLE_START * 10_000_000
        } else if 32 <= i && i < 44 {
            self.energy[i - 32]
        } else if 44 <= i && i < 56 {
            if self.in_key[i - 44] {
                VALUE_ONE
            } else {
                0
            }
        } else {
            0
        }
    }

    /// The numbers that the shader reads, with the colours premultiplied.
    pub fn globals(&self, edge: u32, accent: &[i64; 4], ink: &[i64; 4]) -> (out: Vec<i64>)
        requires
            self.valid(),
            edge <= MAX_EDGE,
            self.tonic matches Some(t) ==> t < 12,
        ensures
            out@.len() == GLOBALS_LEN,
            forall|i: int|
                0 <= i < GLOBALS_LEN ==> #[trigger] out@[i] == global_at(*self, edge as int, accent@, ink@, i),
    {
        let mut out: Vec<i64> = Vec::new();
        let mut i: usize = 0;
        while i < GLOBALS_LEN
            invariant
                self.valid(),
                edge <= MAX_EDGE,
                self.tonic matches Some(t) ==> t < 12,
                i <= GLOBALS_LEN,
                out@.len() == i,
                forall|k: int|
                    0 <= k < i ==> #[trigger] out@[k] == global_at(*self, edge as int, accent@, ink@, k),
            decreases GLOBALS_LEN - i,
        {
            out.push(self.global(edge, accent, ink, i));
            i = i + 1;
        }
        out
    }
}

/// The picture of the wheel in a readback.
pub fn wheel_picture(mapped: &[u8], edge: u32) -> (r: Result<Vec<u8>, LaneGpuError>)
    requires
        edge <= MAX_EDGE,
        mapped@.len() == readback_layout(edge as int, edge as int).2,
    ensures
        r matches Ok(b) && b@ == image_pixels(
            mapped@,
            edge * 4,
            readback_layout(edge as int, edge as int).1,
            edge as int,
        ),
{
    lane_picture(mapped, edge, edge)
}

/// Straight pieces that an arc of an angle is drawn with: at least two.
pub open spec fn arc_pieces(span: int, per_turn: int) -> int {
    max_of((span * per_turn + TURN - 1) / (TURN as int), 2)
}

/// Straight pieces that an arc is drawn with; none for an empty one.
pub fn arc_steps(start: i64, end: i64, per_turn: i64) -> (n: usize)
    requires
        -4 * TURN <= start <= 4 * TURN,
        -4 * TURN <= end <= 4 * TURN,
        0 <= per_turn <= 1000,
    ensures
        n == (if end <= start {
            0
        } else {
            arc_pieces(end - start, per_turn as int)
        }),
{
    if end <= start {
        return 0;
    }
    let span: i64 = end - start;
    assert(0 <= span * per_turn <= 8 * 6_283_185_307 * 1000) by (nonlinear_arith)
        requires
            0 <= span <= 8 * 6_283_185_307,
            0 <= per_turn <= 1000,
    ;
    let q: i64 = (span * per_turn + 6_283_185_306) / 6_283_185_307;
    if q < 2 {
        2
    } else {
        q as usize
    }
}

} // verus!
