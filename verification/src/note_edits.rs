//! Edits of notes: drawing, moving, resizing, splitting, copying and nudging.

use crate::fixed::{
    clamp_i64, clamp_to, lemma_nearest_bound, magnitude, max_i64, max_of, min_i64, min_of, on_axis, MIN_NOTE_TICKS,
    POSITION_LIMIT, TICKS_PER_BEAT,
};
use crate::grid::{snap_beat_to_step, snapped};
use crate::id_set::IdSet;
use crate::midi::{
    find_note, note_with_id, notes_in, snapshot_notes, valid_notes, ArticulationId, MidiChannel, MidiNote,
    DEFAULT_NOTE_VELOCITY,
};
use crate::velocity::clamped_velocity;
use vstd::prelude::*;

verus! {

/// Time differences below this change nothing.
pub const TIME_TOLERANCE: i64 = 96;

/// What becomes of a source note's pitch curve in a new note.
#[derive(Debug, Clone, Copy, PartialEq, Eq, Structural)]
pub enum CurveUse {
    /// The new note has no curve.
    Nothing,
    /// A copy of this curve.
    Copy(u64),
    /// The part of this curve before a time within the note.
    Head(u64, i64),
    /// The part of this curve from a time within the note on.
    Tail(u64, i64),
}

/// A note to be created.
#[derive(Debug, Clone, Copy, PartialEq, Eq, Structural)]
pub struct NewNote {
    pub note: MidiNote,
    pub curve: CurveUse,
}

/// A note as it is created: not before the clip, not above the MIDI range, not
/// shorter than the shortest note.
pub open spec fn created(
    id: u64,
    pitch: u8,
    start: int,
    duration: int,
    velocity: u8,
    muted: bool,
    channel: MidiChannel,
    articulation: Option<ArticulationId>,
) -> MidiNote {
    MidiNote {
        id,
        pitch: if pitch > 127 {
            127
        } else {
            pitch
        },
        start: max_of(start, 0) as i64,
        duration: max_of(duration, MIN_NOTE_TICKS as int) as i64,
        velocity,
        muted,
        channel,
        articulation,
        pitch_curve: None,
    }
}

/// A copy of a note at another place.
pub open spec fn copied(source: MidiNote, id: u64, pitch: u8, start: int) -> NewNote {
    NewNote {
        note: created(
            id,
            pitch,
            start,
            source.duration as int,
            source.velocity,
            source.muted,
            source.channel,
            source.articulation,
        ),
        curve: match source.pitch_curve {
            Some(key) => CurveUse::Copy(key),
            None => CurveUse::Nothing,
        },
    }
}

fn copy_note(source: MidiNote, id: u64, pitch: u8, start: i64) -> (n: NewNote)
    ensures
        n == copied(source, id, pitch, start as int),
{
    NewNote {
        note: MidiNote {
            id,
            pitch: if pitch > 127 {
                127
            } else {
                pitch
            },
            start: max_i64(start, 0),
            duration: max_i64(source.duration, MIN_NOTE_TICKS),
            velocity: source.velocity,
            muted: source.muted,
            channel: source.channel,
            articulation: source.articulation,
            pitch_curve: None,
        },
        curve: match source.pitch_curve {
            Some(key) => CurveUse::Copy(key),
            None => CurveUse::Nothing,
        },
    }
}

/// Length of a note drawn between two beats: at least a grid step, in whole grid
/// steps, while the grid holds; else at least the shortest note.
pub open spec fn drawn_length(a: int, b: int, grid_step: int, on_grid: bool) -> int {
    let step = max_of(grid_step, MIN_NOTE_TICKS as int);
    let raw = max_of(a, b) - min_of(a, b);
    if on_grid {
        let d = max_of(raw, step);
        max_of((d + step - 1) / step * step, MIN_NOTE_TICKS as int)
    } else {
        max_of(raw, MIN_NOTE_TICKS as int)
    }
}

/// The note drawn between two beats.
pub open spec fn drawn(id: u64, pitch: u8, a: int, b: int, grid_step: int, on_grid: bool, channel: MidiChannel) -> MidiNote {
    created(
        id,
        pitch,
        min_of(a, b),
        drawn_length(a, b, grid_step, on_grid),
        DEFAULT_NOTE_VELOCITY,
        false,
        channel,
        None,
    )
}

/// The note that a draw gesture from beat `a` to beat `b` creates.
pub fn drawn_note(id: u64, pitch: u8, a: i64, b: i64, grid_step: i64, on_grid: bool, channel: MidiChannel) -> (n:
    MidiNote)
    requires
        -4 * POSITION_LIMIT <= a <= 4 * POSITION_LIMIT,
        -4 * POSITION_LIMIT <= b <= 4 * POSITION_LIMIT,
        0 <= grid_step <= 4 * TICKS_PER_BEAT,
    ensures
        n == drawn(id, pitch, a as int, b as int, grid_step as int, on_grid, channel),
{
    let lo: i64 = min_i64(a, b);
    let hi: i64 = max_i64(a, b);
    let step: i64 = max_i64(grid_step, MIN_NOTE_TICKS);
    let raw: i64 = hi - lo;
    let duration: i64 = if on_grid {
        let d: i64 = max_i64(raw, step);
        let k: i64 = (d + step - 1) / step;
        proof {
            vstd::arithmetic::div_mod::lemma_fundamental_div_mod(d + step - 1, step as int);
            assert(k * step == step * k) by (nonlinear_arith);
            assert(0 <= k * step <= d + step - 1) by (nonlinear_arith)
                requires
                    k * step == step * k,
                    d + step - 1 == step * k + (d + step - 1) % (step as int),
                    (d + step - 1) % (step as int) >= 0,
                    k >= 0,
                    step > 0,
            ;
        }
        max_i64(k * step, MIN_NOTE_TICKS)
    } else {
        max_i64(raw, MIN_NOTE_TICKS)
    };
    MidiNote {
        id,
        pitch: if pitch > 127 {
            127
        } else {
            pitch
        },
        start: max_i64(lo, 0),
        duration,
        velocity: DEFAULT_NOTE_VELOCITY,
        muted: false,
        channel,
        articulation: None,
        pitch_curve: None,
    }
}

/// A drawn note covers the drawn stretch, and on the grid its length is a whole
/// number of steps.
pub proof fn law_drawn_note_covers_the_stretch(a: int, b: int, grid_step: int, on_grid: bool)
    ensures
        drawn_length(a, b, grid_step, on_grid) >= max_of(a, b) - min_of(a, b),
        drawn_length(a, b, grid_step, on_grid) >= MIN_NOTE_TICKS,
        on_grid ==> drawn_length(a, b, grid_step, on_grid) % max_of(grid_step, MIN_NOTE_TICKS as int) == 0,
{
    let step = max_of(grid_step, MIN_NOTE_TICKS as int);
    let d = max_of(max_of(a, b) - min_of(a, b), step);
    let k = (d + step - 1) / step;
    vstd::arithmetic::div_mod::lemma_fundamental_div_mod(d + step - 1, step);
    vstd::arithmetic::div_mod::lemma_mod_bound(d + step - 1, step);
    assert(k * step == step * k) by (nonlinear_arith);
    assert(k * step >= d);
    vstd::arithmetic::div_mod::lemma_mod_multiples_basic(k, step);
}

/// Off the grid a drawn note runs from the earlier beat to the later one, however
/// the stroke went, and is never shorter than the shortest note.
pub proof fn law_free_draw_ends_at_the_pointer(id: u64, pitch: u8, a: int, b: int, grid_step: int, channel: MidiChannel)
    requires
        0 <= a <= b <= 4 * POSITION_LIMIT,
    ensures
        drawn(id, pitch, a, b, grid_step, false, channel) == drawn(id, pitch, b, a, grid_step, false, channel),
        drawn(id, pitch, a, b, grid_step, false, channel).start == a,
        b - a >= MIN_NOTE_TICKS ==> drawn(id, pitch, a, b, grid_step, false, channel).start + drawn(
            id,
            pitch,
            a,
            b,
            grid_step,
            false,
            channel,
        ).duration == b,
        b - a < MIN_NOTE_TICKS ==> drawn(id, pitch, a, b, grid_step, false, channel).duration == MIN_NOTE_TICKS,
        32 * MIN_NOTE_TICKS == TICKS_PER_BEAT,
{
}

/// On the grid a drawn note starts at the earlier beat and lasts the fewest whole
/// steps, one at least, that reach the later one.
pub proof fn law_grid_draw_rounds_up_to_steps(id: u64, pitch: u8, a: int, b: int, grid_step: int, channel: MidiChannel)
    requires
        0 <= a <= b <= 4 * POSITION_LIMIT,
        MIN_NOTE_TICKS <= grid_step <= 4 * TICKS_PER_BEAT,
    ensures
        ({
            let n = drawn(id, pitch, a, b, grid_step, true, channel);
            &&& n == drawn(id, pitch, b, a, grid_step, true, channel)
            &&& n.start == a
            &&& n.duration as int % grid_step == 0
            &&& b <= n.start + n.duration
            &&& b - a >= grid_step ==> n.start + n.duration < b + grid_step
            &&& b - a < grid_step ==> n.duration == grid_step
        }),
{
    let d = if b - a >= grid_step {
        b - a
    } else {
        grid_step
    };
    let k = (d + grid_step - 1) / grid_step;
    vstd::arithmetic::div_mod::lemma_fundamental_div_mod(d + grid_step - 1, grid_step);
    vstd::arithmetic::div_mod::lemma_mod_bound(d + grid_step - 1, grid_step);
    assert(k * grid_step == grid_step * k) by (nonlinear_arith);
    vstd::arithmetic::div_mod::lemma_mod_multiples_basic(k, grid_step);
    if d == grid_step {
        assert(k == 1) by (nonlinear_arith)
            requires
                grid_step * k <= 2 * grid_step - 1,
                grid_step * k > grid_step - 1,
                grid_step > 0,
        ;
    }
}

/// A drawn note has the row's pitch and the given channel, plays at the default
/// velocity, and nothing is set on it.
pub proof fn law_drawn_note_is_plain(
    id: u64,
    pitch: u8,
    a: int,
    b: int,
    grid_step: int,
    on_grid: bool,
    channel: MidiChannel,
)
    ensures
        ({
            let n = drawn(id, pitch, a, b, grid_step, on_grid, channel);
            &&& n.id == id
            &&& pitch <= 127 ==> n.pitch == pitch
            &&& pitch > 127 ==> n.pitch == 127
            &&& n.velocity == 100
            &&& !n.muted
            &&& n.channel == channel
            &&& n.articulation is None
            &&& n.pitch_curve is None
        }),
{
}

/// A copy is its source at another place: same length, velocity, mute, channel
/// and articulation, and a copy of its curve.
pub proof fn law_copies_sound_like_their_source(source: MidiNote, id: u64, pitch: u8, start: i64)
    requires
        source.duration >= MIN_NOTE_TICKS,
        pitch <= 127,
        start >= 0,
    ensures
        copied(source, id, pitch, start as int).note == (MidiNote { id, pitch, start, pitch_curve: None, ..source }),
        copied(source, id, pitch, start as int).curve == (match source.pitch_curve {
            Some(key) => CurveUse::Copy(key),
            None => CurveUse::Nothing,
        }),
{
}

/// Place of a note at the start of a drag.
#[derive(Debug, Clone, Copy, PartialEq, Eq, Structural)]
pub struct NotePlace {
    pub id: u64,
    pub start: i64,
    pub pitch: u8,
}

/// Places of notes.
pub open spec fn places_of(notes: Seq<MidiNote>) -> Seq<NotePlace> {
    notes.map_values(|n: MidiNote| NotePlace { id: n.id, start: n.start, pitch: n.pitch })
}

/// Places of the notes whose id is in `ids`.
pub fn snapshot_places(notes: &Vec<MidiNote>, ids: &IdSet) -> (out: Vec<NotePlace>)
    ensures
        out@ == places_of(notes_in(notes@, ids@)),
{
    let chosen = snapshot_notes(notes, ids);
    let mut out: Vec<NotePlace> = Vec::new();
    let mut i: usize = 0;
    while i < chosen.len()
        invariant
            i <= chosen@.len(),
            out@.len() == i,
            forall|k: int|
                0 <= k < i ==> #[trigger] out@[k] == (NotePlace {
                    id: chosen@[k].id,
                    start: chosen@[k].start,
                    pitch: chosen@[k].pitch,
                }),
        decreases chosen@.len() - i,
    {
        let n = chosen[i];
        out.push(NotePlace { id: n.id, start: n.start, pitch: n.pitch });
        i = i + 1;
    }
    assert(out@ =~= places_of(chosen@));
    out
}

/// A table from a pitch to the pitch it is held to.
pub open spec fn pitch_table(map: Seq<u8>) -> bool {
    map.len() == 128 && forall|i: int| 0 <= i < 128 ==> #[trigger] map[i] <= 127
}

/// A pitch moved by semitones, inside the MIDI range.
pub open spec fn shifted_pitch(pitch: int, semitones: int) -> int {
    clamp_to(pitch + semitones, 0, 127)
}

/// A pitch moved by semitones and held to the scale.
pub open spec fn dragged_pitch(map: Seq<u8>, pitch: int, semitones: int) -> u8 {
    map[shifted_pitch(pitch, semitones)]
}

/// The pitch `pitch` moved by `semitones` and held to the scale.
pub fn drag_pitch(map: &Vec<u8>, pitch: u8, semitones: i32) -> (p: u8)
    requires
        pitch_table(map@),
    ensures
        p == dragged_pitch(map@, pitch as int, semitones as int),
        p <= 127,
{
    let raw: i64 = clamp_i64(pitch as i64 + semitones as i64, 0, 127);
    map[raw as usize]
}

/// A move of several notes: the grabbed note decides how far, by where it snaps.
#[derive(Debug, Clone, Copy, PartialEq, Eq, Structural)]
pub struct NoteShift {
    /// Start of the grabbed note.
    pub anchor_start: i64,
    pub dx_beats: i64,
    pub dpitch: i32,
    /// Step that the grabbed note snaps to; zero while the drag is free.
    pub snap_step: i64,
}

impl NoteShift {
    /// The move stays near the axis.
    pub open spec fn valid(self) -> bool {
        &&& 0 <= self.anchor_start <= POSITION_LIMIT
        &&& on_axis(self.dx_beats as int)
        &&& on_axis(self.anchor_start + self.dx_beats)
        &&& 0 <= self.snap_step <= 4 * TICKS_PER_BEAT
    }

    /// How far every note moves in time.
    pub open spec fn delta(self) -> int {
        snapped(self.anchor_start + self.dx_beats, self.snap_step as int) - self.anchor_start
    }

    /// New place of a note.
    pub open spec fn target(self, map: Seq<u8>, place: NotePlace) -> NotePlace {
        NotePlace {
            id: place.id,
            start: max_of(place.start + self.delta(), 0) as i64,
            pitch: dragged_pitch(map, place.pitch as int, self.dpitch as int),
        }
    }

    /// How far every note moves in time.
    pub fn effective_delta(&self) -> (d: i64)
        requires
            self.valid(),
        ensures
            d == self.delta(),
            -POSITION_LIMIT <= d <= 2 * POSITION_LIMIT,
    {
        let s: i64 = snap_beat_to_step(self.anchor_start + self.dx_beats, self.snap_step);
        proof {
            if self.snap_step > 0 {
                lemma_nearest_bound(self.anchor_start + self.dx_beats, self.snap_step as int);
            }
        }
        s - self.anchor_start
    }

    /// New places of the notes.
    pub fn targets(&self, map: &Vec<u8>, prev: &Vec<NotePlace>) -> (out: Vec<NotePlace>)
        requires
            self.valid(),
            pitch_table(map@),
            forall|i: int| 0 <= i < prev@.len() ==> 0 <= (#[trigger] prev@[i]).start <= POSITION_LIMIT,
        ensures
            out@ == prev@.map_values(|p: NotePlace| self.target(map@, p)),
    {
        let delta: i64 = self.effective_delta();
        let mut out: Vec<NotePlace> = Vec::new();
        let mut i: usize = 0;
        while i < prev.len()
            invariant
                self.valid(),
                pitch_table(map@),
                forall|k: int| 0 <= k < prev@.len() ==> 0 <= (#[trigger] prev@[k]).start <= POSITION_LIMIT,
                delta == self.delta(),
                -POSITION_LIMIT <= delta <= 2 * POSITION_LIMIT,
                i <= prev@.len(),
                out@.len() == i,
                forall|k: int| 0 <= k < i ==> #[trigger] out@[k] == self.target(map@, prev@[k]),
            decreases prev@.len() - i,
        {
            let p = prev[i];
            assert(0 <= prev@[i as int].start <= POSITION_LIMIT);
            out.push(
                NotePlace {
                    id: p.id,
                    start: max_i64(p.start + delta, 0),
                    pitch: drag_pitch(map, p.pitch, self.dpitch),
                },
            );
            i = i + 1;
        }
        assert(out@ =~= prev@.map_values(|p: NotePlace| self.target(map@, p)));
        out
    }
}

/// Moved notes keep their spacing, off the grid or on it, while none of them
/// reaches the start of the clip.
pub proof fn law_moved_notes_keep_their_spacing(shift: NoteShift, map: Seq<u8>, a: NotePlace, b: NotePlace)
    requires
        shift.valid(),
        0 <= a.start <= POSITION_LIMIT,
        0 <= b.start <= POSITION_LIMIT,
        a.start + shift.delta() >= 0,
        b.start + shift.delta() >= 0,
    ensures
        shift.target(map, a).start - shift.target(map, b).start == a.start - b.start,
{
    if shift.snap_step > 0 {
        lemma_nearest_bound(shift.anchor_start + shift.dx_beats, shift.snap_step as int);
    }
}

/// The grabbed note lands on the grid.
pub proof fn law_grabbed_note_lands_on_the_grid(shift: NoteShift, map: Seq<u8>, pitch: u8, id: u64)
    requires
        shift.valid(),
        shift.snap_step > 0,
    ensures
        shift.target(map, (NotePlace { id, start: shift.anchor_start, pitch })).start % shift.snap_step == 0,
{
    let beat = shift.anchor_start + shift.dx_beats;
    let step = shift.snap_step as int;
    let k = crate::fixed::nearest(beat, step);
    lemma_nearest_bound(beat, step);
    vstd::arithmetic::div_mod::lemma_mod_multiples_basic(k, step);
    vstd::arithmetic::div_mod::lemma_small_mod(0, step as nat);
    let landed = shift.target(map, (NotePlace { id, start: shift.anchor_start, pitch })).start;
    assert(landed == max_of(k * step, 0));
    assert(landed as int % step == 0);
}

/// Off the grid every note moves by what the pointer moved, and stops at the
/// start of the clip.
pub proof fn law_free_move_follows_the_pointer(shift: NoteShift, map: Seq<u8>, place: NotePlace)
    requires
        shift.valid(),
        shift.snap_step == 0,
        shift.anchor_start + shift.dx_beats >= 0,
        0 <= place.start <= POSITION_LIMIT,
    ensures
        shift.target(map, place).id == place.id,
        place.start + shift.dx_beats >= 0 ==> shift.target(map, place).start == place.start + shift.dx_beats,
        place.start + shift.dx_beats < 0 ==> shift.target(map, place).start == 0,
{
}

/// On the grid the grabbed note lands on the line nearest to where the pointer
/// took it.
pub proof fn law_grabbed_note_lands_near_the_pointer(shift: NoteShift, map: Seq<u8>, pitch: u8, id: u64)
    requires
        shift.valid(),
        shift.snap_step > 0,
        shift.anchor_start + shift.dx_beats >= 0,
    ensures
        ({
            let landed = shift.target(map, (NotePlace { id, start: shift.anchor_start, pitch })).start;
            let wanted = shift.anchor_start + shift.dx_beats;
            -shift.snap_step <= 2 * (landed - wanted) <= shift.snap_step
        }),
{
    lemma_nearest_bound(shift.anchor_start + shift.dx_beats, shift.snap_step as int);
}

/// A dragged note changes its pitch by the dragged semitones, stops at the ends
/// of the MIDI range, and is then held to the table.
pub proof fn law_dragged_pitch_follows_the_pointer(map: Seq<u8>, pitch: int, semitones: int)
    ensures
        0 <= pitch + semitones <= 127 ==> dragged_pitch(map, pitch, semitones) == map[pitch + semitones],
        pitch + semitones < 0 ==> dragged_pitch(map, pitch, semitones) == map[0],
        pitch + semitones > 127 ==> dragged_pitch(map, pitch, semitones) == map[127],
{
}

/// A move is worth committing: some note changes its pitch, or its start by more
/// than the tolerance.
pub open spec fn places_differ(a: Seq<NotePlace>, b: Seq<NotePlace>) -> bool {
    exists|i: int|
        0 <= i < a.len() && i < b.len() && (magnitude((#[trigger] a[i]).start - b[i].start) > TIME_TOLERANCE
            || a[i].pitch != b[i].pitch)
}

/// `true` when some place differs.
pub fn any_place_differs(a: &Vec<NotePlace>, b: &Vec<NotePlace>) -> (r: bool)
    ensures
        r == places_differ(a@, b@),
{
    let mut i: usize = 0;
    while i < a.len() && i < b.len()
        invariant
            i <= a@.len(),
            i <= b@.len(),
            forall|k: int|
                0 <= k < i ==> !(magnitude((#[trigger] a@[k]).start - b@[k].start) > TIME_TOLERANCE || a@[k].pitch
                    != b@[k].pitch),
        decreases a@.len() - i,
    {
        let d: i128 = a[i].start as i128 - b[i].start as i128;
        if d > 96 || d < -96 || a[i].pitch != b[i].pitch {
            return true;
        }
        i = i + 1;
    }
    false
}

/// Copies of the notes at new places, for those whose source is still there.
pub open spec fn cloned_to(notes: Seq<MidiNote>, places: Seq<NotePlace>, next_id: u64) -> Seq<NewNote>
    decreases places.len(),
{
    if places.len() == 0 {
        Seq::empty()
    } else {
        let before = cloned_to(notes, places.drop_last(), next_id);
        let p = places.last();
        match note_with_id(notes, p.id) {
            Some(source) => before.push(copied(source, (next_id + before.len()) as u64, p.pitch, p.start as int)),
            None => before,
        }
    }
}

/// Copies of the notes at new places.
pub fn clone_notes(notes: &Vec<MidiNote>, places: &Vec<NotePlace>, next_id: u64) -> (out: Vec<NewNote>)
    requires
        next_id + places@.len() <= u64::MAX,
    ensures
        out@ == cloned_to(notes@, places@, next_id),
        out@.len() <= places@.len(),
{
    let mut out: Vec<NewNote> = Vec::new();
    let mut i: usize = 0;
    assert(places@.subrange(0, 0) =~= Seq::<NotePlace>::empty());
    while i < places.len()
        invariant
            next_id + places@.len() <= u64::MAX,
            i <= places@.len(),
            out@ == cloned_to(notes@, places@.subrange(0, i as int), next_id),
            out@.len() <= i,
        decreases places@.len() - i,
    {
        assert(places@.subrange(0, i + 1).drop_last() =~= places@.subrange(0, i as int));
        let p = places[i];
        let id: u64 = next_id + out.len() as u64;
        match find_note(notes, p.id) {
            Some(source) => {
                out.push(copy_note(source, id, p.pitch, p.start));
            },
            None => {},
        }
        i = i + 1;
    }
    assert(places@.subrange(0, places@.len() as int) =~= places@);
    out
}

/// Where every place names a note of the clip, there is one clone for each place:
/// the note that it names, at that place, under a fresh id.
pub proof fn law_clones_stand_at_their_places(
    notes: Seq<MidiNote>,
    places: Seq<NotePlace>,
    next_id: u64,
    i: int,
    j: int,
)
    requires
        crate::midi::distinct_notes(notes),
        next_id + places.len() <= u64::MAX,
        forall|k: int| 0 <= k < places.len() ==> crate::midi::has_note(notes, (#[trigger] places[k]).id),
        0 <= i < notes.len(),
        0 <= j < places.len(),
        notes[i].id == places[j].id,
        notes[i].duration >= MIN_NOTE_TICKS,
        places[j].pitch <= 127,
        places[j].start >= 0,
    ensures
        cloned_to(notes, places, next_id).len() == places.len(),
        cloned_to(notes, places, next_id)[j].note == (MidiNote {
            id: (next_id + j) as u64,
            pitch: places[j].pitch,
            start: places[j].start,
            pitch_curve: None,
            ..notes[i]
        }),
    decreases places.len(),
{
    lemma_clone_count(notes, places, next_id);
    let front = places.drop_last();
    assert forall|k: int| 0 <= k < front.len() implies crate::midi::has_note(notes, (#[trigger] front[k]).id) by {
        assert(crate::midi::has_note(notes, places[k].id));
    }
    lemma_clone_count(notes, front, next_id);
    if j < places.len() - 1 {
        law_clones_stand_at_their_places(notes, front, next_id, i, j);
        let before = cloned_to(notes, front, next_id);
        assert(cloned_to(notes, places, next_id)[j] == before[j]);
    } else {
        crate::midi::lemma_first_with_id(notes, places[j].id, i);
    }
}

proof fn lemma_clone_count(notes: Seq<MidiNote>, places: Seq<NotePlace>, next_id: u64)
    requires
        crate::midi::distinct_notes(notes),
        forall|k: int| 0 <= k < places.len() ==> crate::midi::has_note(notes, (#[trigger] places[k]).id),
    ensures
        cloned_to(notes, places, next_id).len() == places.len(),
    decreases places.len(),
{
    if places.len() > 0 {
        let front = places.drop_last();
        assert forall|k: int| 0 <= k < front.len() implies crate::midi::has_note(notes, (#[trigger] front[k]).id) by {
            assert(crate::midi::has_note(notes, places[k].id));
        }
        lemma_clone_count(notes, front, next_id);
        let id = places[places.len() - 1].id;
        assert(crate::midi::has_note(notes, id));
        let i = choose|i: int| 0 <= i < notes.len() && (#[trigger] notes[i]).id == id;
        crate::midi::lemma_first_with_id(notes, id, i);
    }
}

/// Ids of new notes.
pub fn new_ids(notes: &Vec<NewNote>) -> (s: IdSet)
    ensures
        forall|id: u64| #[trigger]
            s@.contains(id) <==> exists|i: int| 0 <= i < notes@.len() && (#[trigger] notes@[i]).note.id == id,
{
    let mut s = IdSet::new();
    let mut i: usize = 0;
    while i < notes.len()
        invariant
            i <= notes@.len(),
            forall|id: u64| #[trigger]
                s@.contains(id) <==> exists|k: int| 0 <= k < i && (#[trigger] notes@[k]).note.id == id,
        decreases notes@.len() - i,
    {
        let ghost was = s@;
        s.insert(notes[i].note.id);
        proof {
            assert forall|id: u64| #[trigger]
                s@.contains(id) <==> exists|k: int| 0 <= k < i + 1 && (#[trigger] notes@[k]).note.id == id by {
                if was.contains(id) {
                    let k = choose|k: int| 0 <= k < i && (#[trigger] notes@[k]).note.id == id;
                    assert(notes@[k].note.id == id);
                }
                assert(notes@[i as int].note.id == notes@[i as int].note.id);
            }
        }
        i = i + 1;
    }
    s
}

/// A length after a resize by `delta`.
pub open spec fn resized(duration: int, delta: int) -> int {
    max_of(duration + delta, MIN_NOTE_TICKS as int)
}

/// Resized together, notes keep the differences of their lengths unless one of
/// them is held at the shortest length; no note gets shorter than that.
pub proof fn law_resized_notes_keep_their_differences(a: int, b: int, delta: int)
    ensures
        a + delta >= MIN_NOTE_TICKS && b + delta >= MIN_NOTE_TICKS ==> resized(a, delta) - resized(b, delta) == a - b,
        resized(a, delta) >= MIN_NOTE_TICKS,
{
}

/// A resize adds the difference to the length, down to the shortest note.
pub proof fn law_resize_adds_to_the_length(duration: int, delta: int)
    ensures
        duration + delta >= MIN_NOTE_TICKS ==> resized(duration, delta) == duration + delta,
        duration + delta < MIN_NOTE_TICKS ==> resized(duration, delta) == MIN_NOTE_TICKS,
{
}

/// New lengths of the notes of a resize drag.
pub fn resize_targets(prev: &Vec<(u64, i64)>, delta: i64) -> (out: Vec<(u64, i64)>)
    requires
        -4 * POSITION_LIMIT <= delta <= 4 * POSITION_LIMIT,
        forall|i: int| 0 <= i < prev@.len() ==> on_axis((#[trigger] prev@[i]).1 as int),
    ensures
        out@.len() == prev@.len(),
        forall|i: int|
            0 <= i < out@.len() ==> (#[trigger] out@[i]).0 == prev@[i].0 && out@[i].1 == resized(
                prev@[i].1 as int,
                delta as int,
            ),
{
    let mut out: Vec<(u64, i64)> = Vec::new();
    let mut i: usize = 0;
    while i < prev.len()
        invariant
            -4 * POSITION_LIMIT <= delta <= 4 * POSITION_LIMIT,
            forall|k: int| 0 <= k < prev@.len() ==> on_axis((#[trigger] prev@[k]).1 as int),
            i <= prev@.len(),
            out@.len() == i,
            forall|k: int|
                0 <= k < i ==> (#[trigger] out@[k]).0 == prev@[k].0 && out@[k].1 == resized(
                    prev@[k].1 as int,
                    delta as int,
                ),
        decreases prev@.len() - i,
    {
        assert(on_axis(prev@[i as int].1 as int));
        out.push((prev[i].0, max_i64(prev[i].1 + delta, MIN_NOTE_TICKS)));
        i = i + 1;
    }
    out
}

/// Length that a dragged right edge gives the grabbed note.
pub open spec fn dragged_length(anchor_start: int, prev_dur: int, dx: int, snap_step: int) -> int {
    max_of(snapped(anchor_start + prev_dur + dx, snap_step) - anchor_start, MIN_NOTE_TICKS as int)
}

/// Length of the grabbed note when its right edge is dragged by `dx` ticks. The
/// edge snaps, not the length.
pub fn drag_length(anchor_start: i64, prev_dur: i64, dx: i64, snap_step: i64) -> (d: i64)
    requires
        0 <= anchor_start <= POSITION_LIMIT,
        0 <= prev_dur <= POSITION_LIMIT,
        on_axis(anchor_start + prev_dur + dx),
        0 <= snap_step <= 4 * TICKS_PER_BEAT,
    ensures
        d == dragged_length(anchor_start as int, prev_dur as int, dx as int, snap_step as int),
        MIN_NOTE_TICKS <= d <= 2 * POSITION_LIMIT,
{
    let edge: i64 = snap_beat_to_step(anchor_start + prev_dur + dx, snap_step);
    proof {
        if snap_step > 0 {
            lemma_nearest_bound(anchor_start + prev_dur + dx, snap_step as int);
        }
    }
    max_i64(edge - anchor_start, MIN_NOTE_TICKS)
}

/// The right edge of a resized note goes where the pointer takes it: off the grid
/// exactly, on the grid to the nearest line, unless the note would get too short.
pub proof fn law_dragged_edge_follows_the_pointer(anchor_start: int, prev_dur: int, dx: int, snap_step: int)
    requires
        anchor_start >= 0,
        anchor_start + prev_dur + dx >= 0,
    ensures
        ({
            let edge = anchor_start + dragged_length(anchor_start, prev_dur, dx, snap_step);
            let wanted = anchor_start + prev_dur + dx;
            &&& snap_step <= 0 && wanted >= anchor_start + MIN_NOTE_TICKS ==> edge == wanted
            &&& snap_step > 0 && edge > anchor_start + MIN_NOTE_TICKS ==> edge % snap_step == 0 && -snap_step <= 2 * (
            edge - wanted) <= snap_step
            &&& snap_step > 0 && 2 * (wanted - anchor_start - MIN_NOTE_TICKS) > snap_step ==> edge > anchor_start
                + MIN_NOTE_TICKS
            &&& edge >= anchor_start + MIN_NOTE_TICKS
        }),
{
    if snap_step > 0 {
        let wanted = anchor_start + prev_dur + dx;
        let k = crate::fixed::nearest(wanted, snap_step);
        lemma_nearest_bound(wanted, snap_step);
        assert(k * snap_step >= 0) by (nonlinear_arith)
            requires
                k >= 0,
                snap_step > 0,
        ;
        vstd::arithmetic::div_mod::lemma_mod_multiples_basic(k, snap_step);
    }
}

/// The two parts of a split note.
pub open spec fn split_parts(original: MidiNote, cut: int, next_id: u64) -> (NewNote, NewNote) {
    let left_len = cut - original.start;
    let right_len = original.start + original.duration - cut;
    (
        NewNote {
            note: created(
                next_id,
                original.pitch,
                original.start as int,
                left_len,
                original.velocity,
                original.muted,
                original.channel,
                original.articulation,
            ),
            curve: match original.pitch_curve {
                Some(key) => CurveUse::Head(key, left_len as i64),
                None => CurveUse::Nothing,
            },
        },
        NewNote {
            note: created(
                (next_id + 1) as u64,
                original.pitch,
                cut,
                right_len,
                original.velocity,
                original.muted,
                original.channel,
                original.articulation,
            ),
            curve: match original.pitch_curve {
                Some(key) => CurveUse::Tail(key, left_len as i64),
                None => CurveUse::Nothing,
            },
        },
    )
}

/// A cut leaves two notes that are long enough.
pub open spec fn can_split(original: MidiNote, cut: int) -> bool {
    cut - original.start >= MIN_NOTE_TICKS && original.start + original.duration - cut >= MIN_NOTE_TICKS
}

/// Cuts a note in two at clip beat `cut`; `None` where a part would be shorter
/// than the shortest note.
pub fn split_note(original: MidiNote, cut: i64, next_id: u64) -> (r: Option<(NewNote, NewNote)>)
    requires
        original.valid(),
        -4 * POSITION_LIMIT <= cut <= 4 * POSITION_LIMIT,
        next_id < u64::MAX,
    ensures
        r == (if can_split(original, cut as int) {
            Some(split_parts(original, cut as int, next_id))
        } else {
            None
        }),
{
    let left_len: i64 = cut - original.start;
    let right_len: i64 = original.start + original.duration - cut;
    if left_len < MIN_NOTE_TICKS || right_len < MIN_NOTE_TICKS {
        return None;
    }
    let left = NewNote {
        note: MidiNote {
            id: next_id,
            duration: left_len,
            pitch_curve: None,
            ..original
        },
        curve: match original.pitch_curve {
            Some(key) => CurveUse::Head(key, left_len),
            None => CurveUse::Nothing,
        },
    };
    let right = NewNote {
        note: MidiNote {
            id: next_id + 1,
            start: cut,
            duration: right_len,
            pitch_curve: None,
            ..original
        },
        curve: match original.pitch_curve {
            Some(key) => CurveUse::Tail(key, left_len),
            None => CurveUse::Nothing,
        },
    };
    Some((left, right))
}

/// The parts of a split note lie end to end over the note, and play alike.
pub proof fn law_split_parts_cover_the_note(original: MidiNote, cut: int, next_id: u64)
    requires
        original.valid(),
        can_split(original, cut),
    ensures
        ({
            let (a, b) = split_parts(original, cut, next_id);
            &&& a.note.start == original.start
            &&& a.note.start + a.note.duration == b.note.start
            &&& b.note.start + b.note.duration == original.start + original.duration
            &&& a.note.pitch == original.pitch && b.note.pitch == original.pitch
            &&& a.note.velocity == original.velocity && b.note.velocity == original.velocity
            &&& a.note.channel == original.channel && b.note.channel == original.channel
            &&& a.note.muted == original.muted && b.note.muted == original.muted
            &&& a.note.articulation == original.articulation && b.note.articulation == original.articulation
        }),
{
}

/// A note is cut where it was asked, if both parts are long enough, into a part
/// before the cut and a part behind it, each with its part of the curve.
pub proof fn law_split_cuts_where_it_was_asked(original: MidiNote, cut: int, next_id: u64)
    requires
        original.valid(),
        next_id < u64::MAX,
    ensures
        can_split(original, cut) <==> original.start + MIN_NOTE_TICKS <= cut <= original.start + original.duration
            - MIN_NOTE_TICKS,
        can_split(original, cut) ==> ({
            let (a, b) = split_parts(original, cut, next_id);
            &&& a.note.id == next_id && b.note.id == next_id + 1
            &&& a.note == (MidiNote { id: a.note.id, duration: (cut - original.start) as i64, pitch_curve: None, ..original })
            &&& b.note.start == cut
            &&& original.pitch_curve is None ==> a.curve is Nothing && b.curve is Nothing
            &&& original.pitch_curve matches Some(key) ==> a.curve == CurveUse::Head(
                key,
                (cut - original.start) as i64,
            ) && b.curve == CurveUse::Tail(key, (cut - original.start) as i64)
        }),
{
}

/// Version of the clipboard's contents.
pub const MIDI_CLIPBOARD_VERSION: u32 = 4;

/// A copied note, with its time counted from the earliest note copied.
#[derive(Debug, Clone, Copy, PartialEq, Eq, Structural)]
pub struct ClipboardNote {
    pub pitch: u8,
    pub rel_start: i64,
    pub duration: i64,
    pub velocity: u8,
    pub muted: bool,
    pub channel: MidiChannel,
    pub articulation: Option<ArticulationId>,
    pub pitch_curve: Option<u64>,
}

/// Contents of the clipboard.
#[derive(Debug)]
pub struct ClipboardPayload {
    pub version: u32,
    pub notes: Vec<ClipboardNote>,
}

/// Earliest start among the notes.
pub open spec fn earliest_start(notes: Seq<MidiNote>) -> int
    decreases notes.len(),
{
    if notes.len() == 0 {
        0
    } else if notes.len() == 1 {
        notes[0].start as int
    } else {
        min_of(earliest_start(notes.drop_last()), notes.last().start as int)
    }
}

/// Latest end among the notes, zero at least.
pub open spec fn latest_end(notes: Seq<MidiNote>) -> int
    decreases notes.len(),
{
    if notes.len() == 0 {
        0
    } else {
        max_of(latest_end(notes.drop_last()), notes.last().start + notes.last().duration)
    }
}

/// Earliest start and latest end of the notes.
pub fn note_extent(notes: &Vec<MidiNote>) -> (r: (i64, i64))
    requires
        valid_notes(notes@),
    ensures
        r.0 == earliest_start(notes@),
        r.1 == latest_end(notes@),
        0 <= r.0 <= POSITION_LIMIT,
        0 <= r.1 <= 2 * POSITION_LIMIT,
{
    let mut lo: i64 = 0;
    let mut hi: i64 = 0;
    let mut i: usize = 0;
    assert(notes@.subrange(0, 0) =~= Seq::<MidiNote>::empty());
    while i < notes.len()
        invariant
            valid_notes(notes@),
            i <= notes@.len(),
            lo == earliest_start(notes@.subrange(0, i as int)),
            hi == latest_end(notes@.subrange(0, i as int)),
            0 <= lo <= POSITION_LIMIT,
            0 <= hi <= 2 * POSITION_LIMIT,
        decreases notes@.len() - i,
    {
        assert(notes@[i as int].valid());
        assert(notes@.subrange(0, i + 1).drop_last() =~= notes@.subrange(0, i as int));
        let n = notes[i];
        if i == 0 {
            lo = n.start;
        } else {
            lo = min_i64(lo, n.start);
        }
        hi = max_i64(hi, n.start + n.duration);
        i = i + 1;
    }
    assert(notes@.subrange(0, notes@.len() as int) =~= notes@);
    (lo, hi)
}

/// No note starts before the earliest start, and none ends behind the latest
/// end.
pub proof fn lemma_extent_bounds(notes: Seq<MidiNote>, k: int)
    requires
        0 <= k < notes.len(),
    ensures
        earliest_start(notes) <= notes[k].start,
        notes[k].start + notes[k].duration <= latest_end(notes),
    decreases notes.len(),
{
    if notes.len() > 1 {
        if k < notes.len() - 1 {
            lemma_extent_bounds(notes.drop_last(), k);
        }
    }
}

/// A note on the clipboard, counted from `from`.
pub open spec fn clipped(n: MidiNote, from: int) -> ClipboardNote {
    ClipboardNote {
        pitch: n.pitch,
        rel_start: max_of(n.start - from, 0) as i64,
        duration: n.duration,
        velocity: n.velocity,
        muted: n.muted,
        channel: n.channel,
        articulation: n.articulation,
        pitch_curve: n.pitch_curve,
    }
}

/// The clipboard's contents for copied notes; `None` when there is nothing to
/// copy, and the clipboard keeps what it has.
pub fn copy_notes_to_clipboard(notes: &Vec<MidiNote>) -> (r: Option<ClipboardPayload>)
    requires
        valid_notes(notes@),
    ensures
        notes@.len() == 0 ==> r is None,
        notes@.len() > 0 ==> r is Some && r->0.version == MIDI_CLIPBOARD_VERSION && r->0.notes@ == notes@.map_values(
            |n: MidiNote| clipped(n, earliest_start(notes@)),
        ),
{
    if notes.len() == 0 {
        return None;
    }
    let (min_start, _) = note_extent(notes);
    let mut out: Vec<ClipboardNote> = Vec::new();
    let mut i: usize = 0;
    while i < notes.len()
        invariant
            valid_notes(notes@),
            min_start == earliest_start(notes@),
            0 <= min_start <= POSITION_LIMIT,
            i <= notes@.len(),
            out@.len() == i,
            forall|k: int| 0 <= k < i ==> #[trigger] out@[k] == clipped(notes@[k], min_start as int),
        decreases notes@.len() - i,
    {
        let n = notes[i];
        assert(notes@[i as int].valid());
        out.push(
            ClipboardNote {
                pitch: n.pitch,
                rel_start: max_i64(n.start - min_start, 0),
                duration: n.duration,
                velocity: n.velocity,
                muted: n.muted,
                channel: n.channel,
                articulation: n.articulation,
                pitch_curve: n.pitch_curve,
            },
        );
        i = i + 1;
    }
    assert(out@ =~= notes@.map_values(|n: MidiNote| clipped(n, earliest_start(notes@))));
    Some(ClipboardPayload { version: MIDI_CLIPBOARD_VERSION, notes: out })
}

/// A clipboard note placed behind an anchor.
pub open spec fn pasted(c: ClipboardNote, anchor: int, id: u64) -> NewNote {
    NewNote {
        note: created(
            id,
            c.pitch,
            max_of(anchor + c.rel_start, 0),
            c.duration as int,
            c.velocity,
            c.muted,
            c.channel,
            c.articulation,
        ),
        curve: match c.pitch_curve {
            Some(key) => CurveUse::Copy(key),
            None => CurveUse::Nothing,
        },
    }
}

/// The clipboard's notes with the earliest at `anchor`; none of a version that
/// is not understood.
pub fn clipboard_notes_at(payload: &ClipboardPayload, anchor: i64, next_id: u64) -> (out: Vec<NewNote>)
    requires
        -4 * POSITION_LIMIT <= anchor <= 4 * POSITION_LIMIT,
        next_id + payload.notes@.len() <= u64::MAX,
        forall|i: int| 0 <= i < payload.notes@.len() ==> on_axis((#[trigger] payload.notes@[i]).rel_start as int),
    ensures
        payload.version != MIDI_CLIPBOARD_VERSION ==> out@.len() == 0,
        payload.version == MIDI_CLIPBOARD_VERSION ==> out@.len() == payload.notes@.len() && forall|i: int|
            0 <= i < out@.len() ==> #[trigger] out@[i] == pasted(payload.notes@[i], anchor as int, (next_id + i) as u64),
{
    let mut out: Vec<NewNote> = Vec::new();
    if payload.version != MIDI_CLIPBOARD_VERSION {
        return out;
    }
    let mut i: usize = 0;
    while i < payload.notes.len()
        invariant
            -4 * POSITION_LIMIT <= anchor <= 4 * POSITION_LIMIT,
            next_id + payload.notes@.len() <= u64::MAX,
            forall|k: int| 0 <= k < payload.notes@.len() ==> on_axis((#[trigger] payload.notes@[k]).rel_start as int),
            i <= payload.notes@.len(),
            out@.len() == i,
            forall|k: int|
                0 <= k < i ==> #[trigger] out@[k] == pasted(payload.notes@[k], anchor as int, (next_id + k) as u64),
        decreases payload.notes@.len() - i,
    {
        let c = payload.notes[i];
        assert(on_axis(payload.notes@[i as int].rel_start as int));
        let start: i64 = max_i64(anchor + c.rel_start, 0);
        out.push(
            NewNote {
                note: MidiNote {
                    id: next_id + i as u64,
                    pitch: if c.pitch > 127 {
                        127
                    } else {
                        c.pitch
                    },
                    start,
                    duration: max_i64(c.duration, MIN_NOTE_TICKS),
                    velocity: c.velocity,
                    muted: c.muted,
                    channel: c.channel,
                    articulation: c.articulation,
                    pitch_curve: None,
                },
                curve: match c.pitch_curve {
                    Some(key) => CurveUse::Copy(key),
                    None => CurveUse::Nothing,
                },
            },
        );
        i = i + 1;
    }
    out
}

/// Notes pasted where they were copied come out where they were: same pitch,
/// start, velocity, mute, channel and articulation, and the same length unless
/// that was below the shortest note.
pub proof fn law_paste_gives_back_what_was_copied(notes: Seq<MidiNote>, k: int, id: u64)
    requires
        valid_notes(notes),
        0 <= k < notes.len(),
    ensures
        ({
            let from = earliest_start(notes);
            let back = pasted(clipped(notes[k], from), from, id).note;
            &&& back.pitch == notes[k].pitch
            &&& back.start == notes[k].start
            &&& back.velocity == notes[k].velocity
            &&& back.muted == notes[k].muted
            &&& back.channel == notes[k].channel
            &&& back.articulation == notes[k].articulation
            &&& notes[k].duration >= MIN_NOTE_TICKS ==> back.duration == notes[k].duration
        }),
{
    lemma_extent_bounds(notes, k);
    assert(notes[k].valid());
    lemma_earliest_is_a_start(notes);
}

proof fn lemma_earliest_is_a_start(notes: Seq<MidiNote>)
    requires
        valid_notes(notes),
    ensures
        0 <= earliest_start(notes) <= POSITION_LIMIT,
    decreases notes.len(),
{
    if notes.len() == 1 {
        assert(notes[0].valid());
    } else if notes.len() > 1 {
        assert(valid_notes(notes.drop_last()));
        lemma_earliest_is_a_start(notes.drop_last());
        assert(notes[notes.len() - 1].valid());
    }
}

/// Pasting at an anchor moves all copied notes by one distance, the earliest of
/// them to the anchor, with their curves.
pub proof fn law_paste_moves_the_notes_together(notes: Seq<MidiNote>, k: int, anchor: int, id: u64)
    requires
        valid_notes(notes),
        0 <= k < notes.len(),
        0 <= anchor <= POSITION_LIMIT,
    ensures
        exists|e: int|
            0 <= e < notes.len() && (forall|j: int| 0 <= j < notes.len() ==> notes[e].start <= (#[trigger] notes[j]).start)
                && (#[trigger] notes[e]).start == earliest_start(notes) && pasted(
                clipped(notes[k], earliest_start(notes)),
                anchor,
                id,
            ).note.start - anchor == notes[k].start - notes[e].start,
        pasted(clipped(notes[k], earliest_start(notes)), anchor, id).note.id == id,
        pasted(clipped(notes[k], earliest_start(notes)), anchor, id).curve == (match notes[k].pitch_curve {
            Some(key) => CurveUse::Copy(key),
            None => CurveUse::Nothing,
        }),
{
    lemma_extent_bounds(notes, k);
    assert(notes[k].valid());
    lemma_earliest_is_a_start(notes);
    let e = lemma_earliest_is_reached(notes);
    assert forall|j: int| 0 <= j < notes.len() implies notes[e].start <= (#[trigger] notes[j]).start by {
        lemma_extent_bounds(notes, j);
    }
}

proof fn lemma_earliest_is_reached(notes: Seq<MidiNote>) -> (e: int)
    requires
        notes.len() > 0,
    ensures
        0 <= e < notes.len(),
        notes[e].start == earliest_start(notes),
    decreases notes.len(),
{
    if notes.len() == 1 {
        0
    } else {
        let e = lemma_earliest_is_reached(notes.drop_last());
        if notes.last().start <= notes.drop_last()[e].start {
            notes.len() - 1
        } else {
            e
        }
    }
}

proof fn lemma_latest_is_reached(notes: Seq<MidiNote>) -> (l: int)
    requires
        valid_notes(notes),
        notes.len() > 0,
    ensures
        0 <= l < notes.len(),
        notes[l].start + notes[l].duration == latest_end(notes),
    decreases notes.len(),
{
    let last = notes.len() - 1;
    assert(notes[last].valid());
    if notes.len() == 1 {
        assert(latest_end(notes.drop_last()) == 0);
        0
    } else {
        assert(valid_notes(notes.drop_last()));
        let l = lemma_latest_is_reached(notes.drop_last());
        if notes[last].start + notes[last].duration >= notes[l].start + notes[l].duration {
            last
        } else {
            l
        }
    }
}

/// How far copies go: behind the originals, on the grid unless it is bypassed.
pub open spec fn duplicate_offset(notes: Seq<MidiNote>, snap_step: int) -> int {
    max_of(
        snapped(max_of(latest_end(notes) - earliest_start(notes), MIN_NOTE_TICKS as int), snap_step),
        MIN_NOTE_TICKS as int,
    )
}

/// Copies of the notes right behind them. `snap_step` is zero where the grid is
/// bypassed or off.
pub fn duplicate_notes(notes: &Vec<MidiNote>, snap_step: i64, next_id: u64) -> (out: Vec<NewNote>)
    requires
        valid_notes(notes@),
        0 <= snap_step <= 4 * TICKS_PER_BEAT,
        next_id + notes@.len() <= u64::MAX,
        latest_end(notes@) <= POSITION_LIMIT,
    ensures
        out@.len() == notes@.len(),
        forall|i: int|
            0 <= i < out@.len() ==> #[trigger] out@[i] == copied(
                notes@[i],
                (next_id + i) as u64,
                notes@[i].pitch,
                notes@[i].start + duplicate_offset(notes@, snap_step as int),
            ),
{
    let (lo, hi) = note_extent(notes);
    let raw: i64 = max_i64(hi - lo, MIN_NOTE_TICKS);
    let offset: i64 = max_i64(snap_beat_to_step(raw, snap_step), MIN_NOTE_TICKS);
    proof {
        if snap_step > 0 {
            lemma_nearest_bound(raw as int, snap_step as int);
        }
    }
    let mut out: Vec<NewNote> = Vec::new();
    let mut i: usize = 0;
    while i < notes.len()
        invariant
            valid_notes(notes@),
            next_id + notes@.len() <= u64::MAX,
            offset == duplicate_offset(notes@, snap_step as int),
            0 <= offset <= 2 * POSITION_LIMIT,
            i <= notes@.len(),
            out@.len() == i,
            forall|k: int|
                0 <= k < i ==> #[trigger] out@[k] == copied(
                    notes@[k],
                    (next_id + k) as u64,
                    notes@[k].pitch,
                    notes@[k].start + offset,
                ),
        decreases notes@.len() - i,
    {
        let n = notes[i];
        assert(notes@[i as int].valid());
        out.push(copy_note(n, next_id + i as u64, n.pitch, n.start + offset));
        i = i + 1;
    }
    out
}

/// Without a grid to fall on, no copy starts before the last original has ended.
pub proof fn law_duplicates_follow_the_originals(notes: Seq<MidiNote>, i: int, j: int)
    requires
        valid_notes(notes),
        0 <= i < notes.len(),
        0 <= j < notes.len(),
    ensures
        notes[i].start + duplicate_offset(notes, 0) >= notes[j].start + notes[j].duration,
{
    lemma_extent_bounds(notes, i);
    lemma_extent_bounds(notes, j);
}

/// Copies are moved by the time from the earliest start to the latest end of the
/// originals, which on the grid is rounded to the nearest whole number of steps.
pub proof fn law_duplicates_are_moved_by_the_span(notes: Seq<MidiNote>, first: int, last: int, step: int)
    requires
        valid_notes(notes),
        0 <= first < notes.len(),
        0 <= last < notes.len(),
        forall|j: int| 0 <= j < notes.len() ==> notes[first].start <= (#[trigger] notes[j]).start,
        forall|j: int|
            0 <= j < notes.len() ==> (#[trigger] notes[j]).start + notes[j].duration <= notes[last].start
                + notes[last].duration,
        notes[last].start + notes[last].duration - notes[first].start >= MIN_NOTE_TICKS,
        step >= MIN_NOTE_TICKS,
    ensures
        ({
            let span = notes[last].start + notes[last].duration - notes[first].start;
            &&& duplicate_offset(notes, 0) == span
            &&& 2 * span >= step ==> duplicate_offset(notes, step) % step == 0 && -step <= 2 * (duplicate_offset(
                notes,
                step,
            ) - span) <= step
        }),
{
    lemma_extent_bounds(notes, first);
    lemma_extent_bounds(notes, last);
    let e = lemma_earliest_is_reached(notes);
    let l = lemma_latest_is_reached(notes);
    assert(notes[first].start <= notes[e].start);
    assert(notes[l].start + notes[l].duration <= notes[last].start + notes[last].duration);
    let span = notes[last].start + notes[last].duration - notes[first].start;
    let k = crate::fixed::nearest(span, step);
    lemma_nearest_bound(span, step);
    vstd::arithmetic::div_mod::lemma_mod_multiples_basic(k, step);
    if 2 * span >= step {
        if k == 0 {
            vstd::arithmetic::div_mod::lemma_fundamental_div_mod(2 * span + step, 2 * step);
            vstd::arithmetic::div_mod::lemma_mod_bound(2 * span + step, 2 * step);
            assert(false);
        }
        assert(k * step >= step) by (nonlinear_arith)
            requires
                k >= 1,
                step > 0,
        ;
    }
}

/// What a mute gesture makes of the selected notes: unmuted when all of them are
/// muted, else muted.
pub open spec fn mute_target(notes: Seq<MidiNote>) -> bool {
    !forall|i: int| 0 <= i < notes.len() ==> (#[trigger] notes[i]).muted
}

/// `true` when there are notes and all of them are muted.
pub fn all_muted(notes: &Vec<MidiNote>) -> (r: bool)
    ensures
        r == (notes@.len() > 0 && !mute_target(notes@)),
{
    let mut i: usize = 0;
    while i < notes.len()
        invariant
            i <= notes@.len(),
            forall|k: int| 0 <= k < i ==> (#[trigger] notes@[k]).muted,
        decreases notes@.len() - i,
    {
        if !notes[i].muted {
            return false;
        }
        i = i + 1;
    }
    notes.len() > 0
}

/// Ids of notes with whether they are muted.
pub open spec fn mute_states(notes: Seq<MidiNote>) -> Seq<(u64, bool)> {
    notes.map_values(|n: MidiNote| (n.id, n.muted))
}

/// What muting the selected notes records: their states before, and the state
/// that all of them get.
pub fn mute_edit(notes: &Vec<MidiNote>) -> (r: Option<(Vec<(u64, bool)>, bool)>)
    ensures
        notes@.len() == 0 ==> r is None,
        notes@.len() > 0 ==> r is Some && (r->0).0@ == mute_states(notes@) && (r->0).1 == mute_target(notes@),
{
    if notes.len() == 0 {
        return None;
    }
    let muted = !all_muted(notes);
    let mut prev: Vec<(u64, bool)> = Vec::new();
    let mut i: usize = 0;
    while i < notes.len()
        invariant
            i <= notes@.len(),
            prev@.len() == i,
            forall|k: int| 0 <= k < i ==> #[trigger] prev@[k] == (notes@[k].id, notes@[k].muted),
        decreases notes@.len() - i,
    {
        prev.push((notes[i].id, notes[i].muted));
        i = i + 1;
    }
    assert(prev@ =~= mute_states(notes@));
    Some((prev, muted))
}

/// Muting twice brings every note of a mixed selection to one state, and then
/// back and forth together.
pub proof fn law_mute_toggles_together(notes: Seq<MidiNote>, after: Seq<MidiNote>)
    requires
        notes.len() > 0,
        after.len() == notes.len(),
        forall|i: int| 0 <= i < after.len() ==> (#[trigger] after[i]).muted == mute_target(notes),
    ensures
        mute_target(after) == !mute_target(notes),
{
    assert(after[0].muted == mute_target(notes));
    if mute_target(notes) {
        assert(forall|i: int| 0 <= i < after.len() ==> (#[trigger] after[i]).muted);
    }
}

/// While one of the notes sounds, muting mutes them all; once none does, it
/// unmutes them all. What is recorded is how each note was.
pub proof fn law_muting_goes_by_what_sounds(notes: Seq<MidiNote>, i: int)
    requires
        0 <= i < notes.len(),
    ensures
        !notes[i].muted ==> mute_target(notes),
        mute_target(notes) ==> exists|j: int| 0 <= j < notes.len() && !(#[trigger] notes[j]).muted,
        mute_states(notes).len() == notes.len(),
        mute_states(notes)[i] == (notes[i].id, notes[i].muted),
{
}

/// The articulation that all notes share; `None` for a mixed or empty list.
pub fn uniform_articulation(notes: &Vec<MidiNote>) -> (r: Option<Option<ArticulationId>>)
    ensures
        r == (if notes@.len() > 0 && (forall|i: int|
            0 <= i < notes@.len() ==> (#[trigger] notes@[i]).articulation == notes@[0].articulation) {
            Some(notes@[0].articulation)
        } else {
            None
        }),
{
    if notes.len() == 0 {
        return None;
    }
    let first = notes[0].articulation;
    let mut i: usize = 0;
    while i < notes.len()
        invariant
            i <= notes@.len(),
            notes@.len() > 0,
            first == notes@[0].articulation,
            forall|k: int| 0 <= k < i ==> (#[trigger] notes@[k]).articulation == first,
        decreases notes@.len() - i,
    {
        if notes[i].articulation != first {
            assert(notes@[i as int].articulation != first);
            return None;
        }
        i = i + 1;
    }
    Some(first)
}

/// A note moved in time, and whether that is a change.
pub open spec fn nudged_start(n: MidiNote, delta: int) -> Option<NotePlace> {
    let start = max_of(n.start + delta, 0);
    if magnitude(n.start - start) > TIME_TOLERANCE {
        Some(NotePlace { id: n.id, start: start as i64, pitch: n.pitch })
    } else {
        None
    }
}

/// Moves of the notes that change.
pub open spec fn nudged_starts(notes: Seq<MidiNote>, delta: int) -> Seq<NotePlace>
    decreases notes.len(),
{
    if notes.len() == 0 {
        Seq::empty()
    } else {
        let before = nudged_starts(notes.drop_last(), delta);
        match nudged_start(notes.last(), delta) {
            Some(p) => before.push(p),
            None => before,
        }
    }
}

/// Where a nudge in time moves the notes; those that would not change are left
/// out.
pub fn nudge_starts(notes: &Vec<MidiNote>, delta: i64) -> (out: Vec<NotePlace>)
    requires
        valid_notes(notes@),
        on_axis(delta as int),
    ensures
        out@ == nudged_starts(notes@, delta as int),
{
    let mut out: Vec<NotePlace> = Vec::new();
    let mut i: usize = 0;
    assert(notes@.subrange(0, 0) =~= Seq::<MidiNote>::empty());
    while i < notes.len()
        invariant
            valid_notes(notes@),
            on_axis(delta as int),
            i <= notes@.len(),
            out@ == nudged_starts(notes@.subrange(0, i as int), delta as int),
        decreases notes@.len() - i,
    {
        assert(notes@.subrange(0, i + 1).drop_last() =~= notes@.subrange(0, i as int));
        assert(notes@[i as int].valid());
        let n = notes[i];
        let start: i64 = max_i64(n.start + delta, 0);
        let d: i64 = n.start - start;
        if d > TIME_TOLERANCE || d < -TIME_TOLERANCE {
            out.push(NotePlace { id: n.id, start, pitch: n.pitch });
        }
        i = i + 1;
    }
    assert(notes@.subrange(0, notes@.len() as int) =~= notes@);
    out
}

/// A nudge moves notes by exactly its distance: later for a positive one, earlier
/// for a negative one, and no further than the start of the clip. A distance that
/// can be told apart moves every note that it can, and nothing else is listed.
pub proof fn law_nudge_moves_by_its_distance(notes: Seq<MidiNote>, delta: int)
    requires
        valid_notes(notes),
        on_axis(delta),
    ensures
        delta > TIME_TOLERANCE ==> nudged_starts(notes, delta).len() == notes.len() && forall|i: int|
            0 <= i < notes.len() ==> #[trigger] nudged_starts(notes, delta)[i] == (NotePlace {
                id: notes[i].id,
                start: (notes[i].start + delta) as i64,
                pitch: notes[i].pitch,
            }),
        delta < -TIME_TOLERANCE ==> forall|i: int|
            0 <= i < notes.len() && (#[trigger] notes[i]).start > TIME_TOLERANCE ==> nudged_starts(
                notes,
                delta,
            ).contains(
                NotePlace {
                    id: notes[i].id,
                    start: if notes[i].start + delta >= 0 {
                        (notes[i].start + delta) as i64
                    } else {
                        0
                    },
                    pitch: notes[i].pitch,
                },
            ),
        -TIME_TOLERANCE <= delta <= TIME_TOLERANCE ==> nudged_starts(notes, delta).len() == 0,
        forall|k: int|
            0 <= k < nudged_starts(notes, delta).len() ==> exists|i: int|
                0 <= i < notes.len() && (#[trigger] notes[i]).id == (#[trigger] nudged_starts(notes, delta)[k]).id
                    && nudged_starts(notes, delta)[k].pitch == notes[i].pitch && (nudged_starts(notes, delta)[k].start
                    == notes[i].start + delta || (notes[i].start + delta < 0 && nudged_starts(notes, delta)[k].start
                    == 0)),
    decreases notes.len(),
{
    if notes.len() > 0 {
        let front = notes.drop_last();
        let n = notes.last();
        assert(notes[notes.len() - 1].valid());
        assert(valid_notes(front)) by {
            assert forall|i: int| 0 <= i < front.len() implies (#[trigger] front[i]).valid() by {
                assert(notes[i].valid());
            }
        }
        law_nudge_moves_by_its_distance(front, delta);
        let before = nudged_starts(front, delta);
        let out = nudged_starts(notes, delta);
        assert forall|k: int| 0 <= k < out.len() implies exists|i: int|
            0 <= i < notes.len() && (#[trigger] notes[i]).id == (#[trigger] out[k]).id && out[k].pitch == notes[i].pitch
                && (out[k].start == notes[i].start + delta || (notes[i].start + delta < 0 && out[k].start == 0)) by {
            if k < before.len() {
                assert(out[k] == before[k]);
                let i = choose|i: int|
                    0 <= i < front.len() && (#[trigger] front[i]).id == before[k].id && before[k].pitch == front[i].pitch
                        && (before[k].start == front[i].start + delta || (front[i].start + delta < 0 && before[k].start
                        == 0));
                assert(notes[i] == front[i]);
            } else {
                assert(notes[notes.len() - 1] == n);
            }
        }
        if delta > TIME_TOLERANCE {
            assert forall|i: int| 0 <= i < notes.len() implies #[trigger] out[i] == (NotePlace {
                id: notes[i].id,
                start: (notes[i].start + delta) as i64,
                pitch: notes[i].pitch,
            }) by {
                if i < front.len() {
                    assert(out[i] == before[i]);
                    assert(front[i] == notes[i]);
                }
            }
        }
        if delta < -TIME_TOLERANCE {
            assert forall|i: int| 0 <= i < notes.len() && (#[trigger] notes[i]).start > TIME_TOLERANCE implies out.contains(
                NotePlace {
                    id: notes[i].id,
                    start: if notes[i].start + delta >= 0 {
                        (notes[i].start + delta) as i64
                    } else {
                        0
                    },
                    pitch: notes[i].pitch,
                },
            ) by {
                let place = NotePlace {
                    id: notes[i].id,
                    start: if notes[i].start + delta >= 0 {
                        (notes[i].start + delta) as i64
                    } else {
                        0
                    },
                    pitch: notes[i].pitch,
                };
                if i < front.len() {
                    assert(front[i] == notes[i]);
                    assert(before.contains(place));
                    let k = choose|k: int| 0 <= k < before.len() && before[k] == place;
                    assert(out[k] == place);
                } else {
                    assert(out[out.len() - 1] == place);
                }
            }
        }
    }
}

/// New lengths of the notes that change.
pub open spec fn nudged_lengths(notes: Seq<MidiNote>, delta: int) -> Seq<(u64, i64)>
    decreases notes.len(),
{
    if notes.len() == 0 {
        Seq::empty()
    } else {
        let before = nudged_lengths(notes.drop_last(), delta);
        let n = notes.last();
        let d = resized(n.duration as int, delta);
        if magnitude(n.duration - d) > TIME_TOLERANCE {
            before.push((n.id, d as i64))
        } else {
            before
        }
    }
}

/// New lengths that a nudge gives the notes; those that would not change are
/// left out.
pub fn nudge_lengths(notes: &Vec<MidiNote>, delta: i64) -> (out: Vec<(u64, i64)>)
    requires
        valid_notes(notes@),
        on_axis(delta as int),
    ensures
        out@ == nudged_lengths(notes@, delta as int),
{
    let mut out: Vec<(u64, i64)> = Vec::new();
    let mut i: usize = 0;
    assert(notes@.subrange(0, 0) =~= Seq::<MidiNote>::empty());
    while i < notes.len()
        invariant
            valid_notes(notes@),
            on_axis(delta as int),
            i <= notes@.len(),
            out@ == nudged_lengths(notes@.subrange(0, i as int), delta as int),
        decreases notes@.len() - i,
    {
        assert(notes@.subrange(0, i + 1).drop_last() =~= notes@.subrange(0, i as int));
        assert(notes@[i as int].valid());
        let n = notes[i];
        let len: i64 = max_i64(n.duration + delta, MIN_NOTE_TICKS);
        let d: i64 = n.duration - len;
        if d > TIME_TOLERANCE || d < -TIME_TOLERANCE {
            out.push((n.id, len));
        }
        i = i + 1;
    }
    assert(notes@.subrange(0, notes@.len() as int) =~= notes@);
    out
}

/// A longer nudge of the length adds exactly its amount to every note; a shorter
/// one takes it away, down to the shortest note; nothing else is listed.
pub proof fn law_length_nudge_adds_its_amount(notes: Seq<MidiNote>, delta: int)
    requires
        valid_notes(notes),
        on_axis(delta),
        forall|i: int| 0 <= i < notes.len() ==> (#[trigger] notes[i]).duration >= MIN_NOTE_TICKS,
    ensures
        delta > TIME_TOLERANCE ==> nudged_lengths(notes, delta).len() == notes.len() && forall|i: int|
            0 <= i < notes.len() ==> #[trigger] nudged_lengths(notes, delta)[i] == (
                notes[i].id,
                (notes[i].duration + delta) as i64,
            ),
        forall|k: int|
            0 <= k < nudged_lengths(notes, delta).len() ==> exists|i: int|
                0 <= i < notes.len() && (#[trigger] notes[i]).id == (#[trigger] nudged_lengths(notes, delta)[k]).0 && (
                nudged_lengths(notes, delta)[k].1 == notes[i].duration + delta || (notes[i].duration + delta
                    < MIN_NOTE_TICKS && nudged_lengths(notes, delta)[k].1 == MIN_NOTE_TICKS)),
        forall|i: int|
            0 <= i < notes.len() && delta < -TIME_TOLERANCE && (#[trigger] notes[i]).duration + delta >= MIN_NOTE_TICKS
                ==> nudged_lengths(notes, delta).contains((notes[i].id, (notes[i].duration + delta) as i64)),
    decreases notes.len(),
{
    if notes.len() > 0 {
        let front = notes.drop_last();
        let n = notes.last();
        assert(notes[notes.len() - 1].valid());
        assert forall|i: int| 0 <= i < front.len() implies (#[trigger] front[i]).valid() && front[i].duration
            >= MIN_NOTE_TICKS by {
            assert(notes[i].valid());
            assert(notes[i].duration >= MIN_NOTE_TICKS);
        }
        assert(valid_notes(front));
        law_length_nudge_adds_its_amount(front, delta);
        let before = nudged_lengths(front, delta);
        let out = nudged_lengths(notes, delta);
        assert(notes[notes.len() - 1] == n);
        assert forall|k: int| 0 <= k < out.len() implies exists|i: int|
            0 <= i < notes.len() && (#[trigger] notes[i]).id == (#[trigger] out[k]).0 && (out[k].1 == notes[i].duration
                + delta || (notes[i].duration + delta < MIN_NOTE_TICKS && out[k].1 == MIN_NOTE_TICKS)) by {
            if k < before.len() {
                assert(out[k] == before[k]);
                let i = choose|i: int|
                    0 <= i < front.len() && (#[trigger] front[i]).id == before[k].0 && (before[k].1 == front[i].duration
                        + delta || (front[i].duration + delta < MIN_NOTE_TICKS && before[k].1 == MIN_NOTE_TICKS));
                assert(notes[i] == front[i]);
            }
        }
        if delta > TIME_TOLERANCE {
            assert forall|i: int| 0 <= i < notes.len() implies #[trigger] out[i] == (
                notes[i].id,
                (notes[i].duration + delta) as i64,
            ) by {
                if i < front.len() {
                    assert(out[i] == before[i]);
                    assert(front[i] == notes[i]);
                }
            }
        }
        assert forall|i: int|
            0 <= i < notes.len() && delta < -TIME_TOLERANCE && (#[trigger] notes[i]).duration + delta
                >= MIN_NOTE_TICKS implies out.contains((notes[i].id, (notes[i].duration + delta) as i64)) by {
            let want = (notes[i].id, (notes[i].duration + delta) as i64);
            if i < front.len() {
                assert(front[i] == notes[i]);
                assert(before.contains(want));
                let k = choose|k: int| 0 <= k < before.len() && before[k] == want;
                assert(out[k] == want);
            } else {
                assert(out[out.len() - 1] == want);
            }
        }
    }
}

/// New velocities of the notes that change.
pub open spec fn nudged_velocities(notes: Seq<MidiNote>, delta: int) -> Seq<(u64, u8)>
    decreases notes.len(),
{
    if notes.len() == 0 {
        Seq::empty()
    } else {
        let before = nudged_velocities(notes.drop_last(), delta);
        let n = notes.last();
        let v = clamped_velocity(n.velocity + delta);
        if n.velocity != v {
            before.push((n.id, v as u8))
        } else {
            before
        }
    }
}

/// New velocities that a nudge gives the notes; those that would not change are
/// left out.
pub fn nudge_velocities(notes: &Vec<MidiNote>, delta: i16) -> (out: Vec<(u64, u8)>)
    requires
        delta <= 32_000,
    ensures
        out@ == nudged_velocities(notes@, delta as int),
{
    let mut out: Vec<(u64, u8)> = Vec::new();
    let mut i: usize = 0;
    assert(notes@.subrange(0, 0) =~= Seq::<MidiNote>::empty());
    while i < notes.len()
        invariant
            delta <= 32_000,
            i <= notes@.len(),
            out@ == nudged_velocities(notes@.subrange(0, i as int), delta as int),
        decreases notes@.len() - i,
    {
        assert(notes@.subrange(0, i + 1).drop_last() =~= notes@.subrange(0, i as int));
        let n = notes[i];
        let v: u8 = crate::velocity::relative_velocity(n.velocity, delta as i32);
        if n.velocity != v {
            out.push((n.id, v));
        }
        i = i + 1;
    }
    assert(notes@.subrange(0, notes@.len() as int) =~= notes@);
    out
}

/// A velocity nudge adds exactly its amount, inside the playable range, and lists
/// every note that changes and no other.
pub proof fn law_velocity_nudge_adds_its_amount(notes: Seq<MidiNote>, delta: int)
    ensures
        forall|k: int|
            0 <= k < nudged_velocities(notes, delta).len() ==> exists|i: int|
                0 <= i < notes.len() && (#[trigger] notes[i]).id == (#[trigger] nudged_velocities(notes, delta)[k]).0 && (
                nudged_velocities(notes, delta)[k].1 == notes[i].velocity + delta || (notes[i].velocity + delta > 127
                    && nudged_velocities(notes, delta)[k].1 == 127) || (notes[i].velocity + delta < 1
                    && nudged_velocities(notes, delta)[k].1 == 1)),
        forall|i: int|
            0 <= i < notes.len() && delta != 0 && 1 <= (#[trigger] notes[i]).velocity + delta <= 127
                ==> nudged_velocities(notes, delta).contains((notes[i].id, (notes[i].velocity + delta) as u8)),
    decreases notes.len(),
{
    if notes.len() > 0 {
        let front = notes.drop_last();
        let n = notes.last();
        law_velocity_nudge_adds_its_amount(front, delta);
        let before = nudged_velocities(front, delta);
        let out = nudged_velocities(notes, delta);
        assert(notes[notes.len() - 1] == n);
        assert forall|k: int| 0 <= k < out.len() implies exists|i: int|
            0 <= i < notes.len() && (#[trigger] notes[i]).id == (#[trigger] out[k]).0 && (out[k].1 == notes[i].velocity
                + delta || (notes[i].velocity + delta > 127 && out[k].1 == 127) || (notes[i].velocity + delta < 1
                && out[k].1 == 1)) by {
            if k < before.len() {
                assert(out[k] == before[k]);
                let i = choose|i: int|
                    0 <= i < front.len() && (#[trigger] front[i]).id == before[k].0 && (before[k].1 == front[i].velocity
                        + delta || (front[i].velocity + delta > 127 && before[k].1 == 127) || (front[i].velocity + delta
                        < 1 && before[k].1 == 1));
                assert(notes[i] == front[i]);
            }
        }
        assert forall|i: int|
            0 <= i < notes.len() && delta != 0 && 1 <= (#[trigger] notes[i]).velocity + delta <= 127 implies out.contains(
            (notes[i].id, (notes[i].velocity + delta) as u8),
        ) by {
            let want = (notes[i].id, (notes[i].velocity + delta) as u8);
            if i < front.len() {
                assert(front[i] == notes[i]);
                assert(before.contains(want));
                let k = choose|k: int| 0 <= k < before.len() && before[k] == want;
                assert(out[k] == want);
            } else {
                assert(out[out.len() - 1] == want);
            }
        }
    }
}

/// Transposing by semitones changes some note.
pub open spec fn transpose_changes(notes: Seq<MidiNote>, semitones: int) -> bool {
    exists|i: int| 0 <= i < notes.len() && (#[trigger] notes[i]).pitch != shifted_pitch(notes[i].pitch as int, semitones)
}

/// `true` when transposing the notes would change one of them.
pub fn transpose_would_change(notes: &Vec<MidiNote>, semitones: i32) -> (r: bool)
    ensures
        r == transpose_changes(notes@, semitones as int),
{
    let mut i: usize = 0;
    while i < notes.len()
        invariant
            i <= notes@.len(),
            forall|k: int|
                0 <= k < i ==> (#[trigger] notes@[k]).pitch == shifted_pitch(notes@[k].pitch as int, semitones as int),
        decreases notes@.len() - i,
    {
        let p: i64 = clamp_i64(notes[i].pitch as i64 + semitones as i64, 0, 127);
        if notes[i].pitch as i64 != p {
            return true;
        }
        i = i + 1;
    }
    false
}

/// Transposing up changes the notes unless all of them are at the top, down
/// unless all are at the bottom; by nothing it changes none.
pub proof fn law_transposing_changes_what_has_room(notes: Seq<MidiNote>, semitones: int)
    requires
        valid_notes(notes),
    ensures
        semitones > 0 ==> (transpose_changes(notes, semitones) <==> exists|i: int|
            0 <= i < notes.len() && (#[trigger] notes[i]).pitch < 127),
        semitones < 0 ==> (transpose_changes(notes, semitones) <==> exists|i: int|
            0 <= i < notes.len() && (#[trigger] notes[i]).pitch > 0),
        semitones == 0 ==> !transpose_changes(notes, semitones),
{
    assert forall|i: int| 0 <= i < notes.len() implies (#[trigger] notes[i]).pitch <= 127 by {
        assert(notes[i].valid());
    }
    if semitones > 0 && exists|i: int| 0 <= i < notes.len() && (#[trigger] notes[i]).pitch < 127 {
        let i = choose|i: int| 0 <= i < notes.len() && (#[trigger] notes[i]).pitch < 127;
        assert(notes[i].pitch != shifted_pitch(notes[i].pitch as int, semitones));
    }
    if semitones < 0 && exists|i: int| 0 <= i < notes.len() && (#[trigger] notes[i]).pitch > 0 {
        let i = choose|i: int| 0 <= i < notes.len() && (#[trigger] notes[i]).pitch > 0;
        assert(notes[i].pitch != shifted_pitch(notes[i].pitch as int, semitones));
    }
}

} // verus!
