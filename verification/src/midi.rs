//! Notes, controller points and articulations of a MIDI clip.

use crate::fixed::POSITION_LIMIT;
use crate::id_set::IdSet;
use vstd::prelude::*;

verus! {

/// Velocity of a newly drawn or reset note.
pub const DEFAULT_NOTE_VELOCITY: u8 = 100;

/// A MIDI channel, 0 to 15.
#[derive(Debug, Clone, Copy, PartialEq, Eq, Structural)]
pub struct MidiChannel {
    pub raw: u8,
}

/// Number of MIDI channels.
pub const CHANNEL_COUNT: u8 = 16;

/// Which channels the editor shows: bit `c` is set when channel `c` shows.
#[derive(Debug, Clone, Copy, PartialEq, Eq, Structural)]
pub struct MidiChannelMask {
    pub bits: u16,
}

/// The mask that shows every channel.
pub open spec fn all_channels() -> MidiChannelMask {
    MidiChannelMask { bits: 0xffff }
}

impl MidiChannelMask {
    /// Notes on `channel` show under this mask.
    pub open spec fn shows(self, channel: MidiChannel) -> bool {
        channel.raw < CHANNEL_COUNT && (self.bits >> channel.raw) & 1 == 1
    }

    /// `true` when notes on `channel` show.
    pub fn contains(self, channel: MidiChannel) -> (r: bool)
        ensures
            r == self.shows(channel),
    {
        channel.raw < CHANNEL_COUNT && (self.bits >> channel.raw) & 1 == 1
    }

    /// The mask that shows every channel.
    pub fn all() -> (m: MidiChannelMask)
        ensures
            m == all_channels(),
    {
        MidiChannelMask { bits: 0xffff }
    }

    /// The mask that shows `channel` alone.
    pub fn single(channel: MidiChannel) -> (m: MidiChannelMask)
        requires
            channel.raw < CHANNEL_COUNT,
        ensures
            m == only_channel(channel),
    {
        MidiChannelMask { bits: 1u16 << channel.raw }
    }

    /// `true` when every channel shows.
    pub fn is_all(self) -> (r: bool)
        ensures
            r == (self == all_channels()),
    {
        self.bits == 0xffff
    }
}

/// The mask that shows one channel alone.
pub open spec fn only_channel(channel: MidiChannel) -> MidiChannelMask {
    MidiChannelMask { bits: 1u16 << channel.raw }
}

/// A mask of one channel shows that channel and no other.
pub proof fn law_single_mask_shows_one_channel(a: MidiChannel, b: MidiChannel)
    requires
        a.raw < CHANNEL_COUNT,
        b.raw < CHANNEL_COUNT,
    ensures
        only_channel(a).shows(b) == (a == b),
        all_channels().shows(a),
{
    let x = a.raw;
    let y = b.raw;
    assert((((1u16 << x) >> y) & 1 == 1) == (x == y)) by (bit_vector)
        requires
            x < 16,
            y < 16,
    ;
    assert((0xffffu16 >> x) & 1 == 1) by (bit_vector)
        requires
            x < 16,
    ;
}

/// How a note is played.
#[derive(Debug, Clone, Copy, PartialEq, Eq, Structural)]
pub enum ArticulationId {
    Sustain,
    Staccato,
    Staccatissimo,
    Legato,
    Tenuto,
    Accent,
    Marcato,
    Pizzicato,
    Tremolo,
}

/// How many articulations there are.
pub const ARTICULATION_COUNT: usize = 9;

impl ArticulationId {
    /// Place in the list of all articulations.
    pub open spec fn rank(self) -> int {
        match self {
            ArticulationId::Sustain => 0,
            ArticulationId::Staccato => 1,
            ArticulationId::Staccatissimo => 2,
            ArticulationId::Legato => 3,
            ArticulationId::Tenuto => 4,
            ArticulationId::Accent => 5,
            ArticulationId::Marcato => 6,
            ArticulationId::Pizzicato => 7,
            ArticulationId::Tremolo => 8,
        }
    }

    /// Place in the list of all articulations.
    pub fn index(self) -> (i: usize)
        ensures
            i == self.rank(),
            i < ARTICULATION_COUNT,
    {
        match self {
            ArticulationId::Sustain => 0,
            ArticulationId::Staccato => 1,
            ArticulationId::Staccatissimo => 2,
            ArticulationId::Legato => 3,
            ArticulationId::Tenuto => 4,
            ArticulationId::Accent => 5,
            ArticulationId::Marcato => 6,
            ArticulationId::Pizzicato => 7,
            ArticulationId::Tremolo => 8,
        }
    }
}

/// A stream of controller values.
#[derive(Debug, Clone, Copy, PartialEq, Eq, Structural)]
pub enum MidiControllerKind {
    CC(u8),
    PitchBend,
    ChannelPressure,
    PolyPressure,
}

/// A note of a clip. Times are ticks from the start of the clip.
#[derive(Debug, Clone, Copy, PartialEq, Eq, Structural)]
pub struct MidiNote {
    pub id: u64,
    pub pitch: u8,
    pub start: i64,
    pub duration: i64,
    pub velocity: u8,
    pub muted: bool,
    pub channel: MidiChannel,
    pub articulation: Option<ArticulationId>,
    /// Key of the note's continuous pitch curve, where it has one.
    pub pitch_curve: Option<u64>,
}

impl MidiNote {
    /// The fields are inside their ranges.
    pub open spec fn valid(self) -> bool {
        &&& self.pitch <= 127
        &&& 0 <= self.start <= POSITION_LIMIT
        &&& 0 <= self.duration <= POSITION_LIMIT
        &&& self.velocity <= 127
    }
}

/// Every note of the sequence is valid.
pub open spec fn valid_notes(notes: Seq<MidiNote>) -> bool {
    forall|i: int| 0 <= i < notes.len() ==> (#[trigger] notes[i]).valid()
}

/// No two notes share an id.
pub open spec fn distinct_notes(notes: Seq<MidiNote>) -> bool {
    forall|i: int, j: int| 0 <= i < j < notes.len() ==> (#[trigger] notes[i]).id != (#[trigger] notes[j]).id
}

/// A controller value at a time, in ticks and in parts of full scale.
#[derive(Debug, Clone, Copy, PartialEq, Eq, Structural)]
pub struct MidiControllerPoint {
    pub id: u64,
    pub beat: i64,
    pub value: i64,
}

/// A direction articulation that holds from its beat on.
#[derive(Debug, Clone, Copy, PartialEq, Eq, Structural)]
pub struct MidiArticulationEvent {
    pub id: u64,
    pub beat: i64,
    pub articulation: ArticulationId,
}

/// Ids of the notes.
pub open spec fn ids_of(notes: Seq<MidiNote>) -> Set<u64> {
    Set::new(|id: u64| has_note(notes, id))
}

/// Some note has this id.
pub open spec fn has_note(notes: Seq<MidiNote>, id: u64) -> bool {
    exists|i: int| 0 <= i < notes.len() && (#[trigger] notes[i]).id == id
}

/// Ids of the notes of a clip.
pub fn note_ids(notes: &Vec<MidiNote>) -> (s: IdSet)
    ensures
        s@ == ids_of(notes@),
{
    let mut s = IdSet::new();
    let mut i: usize = 0;
    assert(s@ =~= ids_of(notes@.subrange(0, 0)));
    while i < notes.len()
        invariant
            i <= notes@.len(),
            s@ == ids_of(notes@.subrange(0, i as int)),
        decreases notes@.len() - i,
    {
        s.insert(notes[i].id);
        proof {
            let before = notes@.subrange(0, i as int);
            let after = notes@.subrange(0, i + 1);
            assert forall|id: u64| #[trigger] has_note(after, id) <==> has_note(before, id) || id == notes@[i as int].id by {
                if has_note(before, id) {
                    let k = choose|k: int| 0 <= k < before.len() && before[k].id == id;
                    assert(after[k].id == id);
                }
                assert(after[i as int].id == notes@[i as int].id);
                if has_note(after, id) {
                    let k = choose|k: int| 0 <= k < after.len() && after[k].id == id;
                    if k < i {
                        assert(before[k].id == id);
                    }
                }
            }
            assert(s@ =~= ids_of(after));
        }
        i = i + 1;
    }
    assert(notes@.subrange(0, notes@.len() as int) =~= notes@);
    s
}

/// Place of the first note with an id, or the number of notes.
pub open spec fn first_with_id(notes: Seq<MidiNote>, id: u64) -> int
    decreases notes.len(),
{
    if notes.len() == 0 {
        0
    } else if notes[0].id == id {
        0
    } else {
        1 + first_with_id(notes.drop_first(), id)
    }
}

/// The first note with an id.
pub open spec fn note_with_id(notes: Seq<MidiNote>, id: u64) -> Option<MidiNote> {
    if first_with_id(notes, id) < notes.len() {
        Some(notes[first_with_id(notes, id)])
    } else {
        None
    }
}

pub proof fn lemma_first_with_id(notes: Seq<MidiNote>, id: u64, at: int)
    requires
        0 <= at <= notes.len(),
        forall|k: int| 0 <= k < at ==> (#[trigger] notes[k]).id != id,
        at < notes.len() ==> notes[at].id == id,
    ensures
        first_with_id(notes, id) == at,
    decreases notes.len(),
{
    if notes.len() > 0 && at > 0 {
        assert(notes[0].id != id);
        let rest = notes.drop_first();
        assert forall|k: int| 0 <= k < at - 1 implies (#[trigger] rest[k]).id != id by {
            assert(rest[k] == notes[k + 1]);
        }
        lemma_first_with_id(rest, id, at - 1);
    }
}

/// The first note with `id`.
pub fn find_note(notes: &Vec<MidiNote>, id: u64) -> (r: Option<MidiNote>)
    ensures
        r == note_with_id(notes@, id),
        r matches Some(n) ==> n.id == id && notes@.contains(n),
        r is None ==> !has_note(notes@, id),
{
    let mut i: usize = 0;
    while i < notes.len()
        invariant
            i <= notes@.len(),
            forall|k: int| 0 <= k < i ==> (#[trigger] notes@[k]).id != id,
        decreases notes@.len() - i,
    {
        if notes[i].id == id {
            proof {
                lemma_first_with_id(notes@, id, i as int);
                assert(notes@.contains(notes@[i as int]));
            }
            return Some(notes[i]);
        }
        i = i + 1;
    }
    proof {
        lemma_first_with_id(notes@, id, notes@.len() as int);
    }
    None
}

/// Notes whose id is in the set, in their order.
pub open spec fn notes_in(notes: Seq<MidiNote>, ids: Set<u64>) -> Seq<MidiNote> {
    notes.filter(|n: MidiNote| ids.contains(n.id))
}

pub proof fn lemma_filter_step<A>(s: Seq<A>, i: int, p: spec_fn(A) -> bool)
    requires
        0 <= i < s.len(),
    ensures
        s.subrange(0, i + 1).filter(p) == (if p(s[i]) {
            s.subrange(0, i).filter(p).push(s[i])
        } else {
            s.subrange(0, i).filter(p)
        }),
{
    reveal(Seq::filter);
    assert(s.subrange(0, i + 1).drop_last() =~= s.subrange(0, i));
}

/// Snapshots of the notes whose id is in `ids`.
pub fn snapshot_notes(notes: &Vec<MidiNote>, ids: &IdSet) -> (out: Vec<MidiNote>)
    ensures
        out@ == notes_in(notes@, ids@),
{
    let mut out: Vec<MidiNote> = Vec::new();
    let mut i: usize = 0;
    let ghost p = |n: MidiNote| ids@.contains(n.id);
    proof {
        reveal(Seq::filter);
        assert(notes@.subrange(0, 0).filter(p) =~= Seq::<MidiNote>::empty());
    }
    while i < notes.len()
        invariant
            i <= notes@.len(),
            p == (|n: MidiNote| ids@.contains(n.id)),
            out@ == notes@.subrange(0, i as int).filter(p),
        decreases notes@.len() - i,
    {
        proof {
            lemma_filter_step(notes@, i as int, p);
        }
        if ids.contains(notes[i].id) {
            out.push(notes[i]);
        }
        i = i + 1;
    }
    assert(notes@.subrange(0, notes@.len() as int) =~= notes@);
    out
}

/// `true` when both lists hold the same notes in the same order.
pub fn same_notes(a: &Vec<MidiNote>, b: &Vec<MidiNote>) -> (r: bool)
    ensures
        r == (a@ == b@),
{
    if a.len() != b.len() {
        return false;
    }
    let mut i: usize = 0;
    while i < a.len()
        invariant
            a@.len() == b@.len(),
            i <= a@.len(),
            forall|k: int| 0 <= k < i ==> a@[k] == b@[k],
        decreases a@.len() - i,
    {
        if a[i] != b[i] {
            return false;
        }
        i = i + 1;
    }
    assert(a@ =~= b@);
    true
}

/// A second list of the same notes.
pub fn copy_notes(notes: &Vec<MidiNote>) -> (out: Vec<MidiNote>)
    ensures
        out@ == notes@,
{
    let mut out: Vec<MidiNote> = Vec::new();
    let mut i: usize = 0;
    while i < notes.len()
        invariant
            i <= notes@.len(),
            out@ == notes@.subrange(0, i as int),
        decreases notes@.len() - i,
    {
        out.push(notes[i]);
        assert(out@ =~= notes@.subrange(0, i + 1));
        i = i + 1;
    }
    assert(out@ =~= notes@);
    out
}

/// The notes with the given ids are all notes that have one of them, and no other.
pub proof fn lemma_notes_in_contains(notes: Seq<MidiNote>, ids: Set<u64>, n: MidiNote)
    ensures
        notes_in(notes, ids).contains(n) <==> notes.contains(n) && ids.contains(n.id),
{
    let q = |n: MidiNote| ids.contains(n.id);
    broadcast use vstd::seq_lib::group_filter_ensures;

    if notes_in(notes, ids).contains(n) {
        notes.lemma_filter_contains_rev(q, n);
        let k = choose|k: int| 0 <= k < notes_in(notes, ids).len() && notes_in(notes, ids)[k] == n;
        assert(q(notes.filter(q)[k]));
    }
    if notes.contains(n) && ids.contains(n.id) {
        let k = choose|k: int| 0 <= k < notes.len() && notes[k] == n;
        assert(q(notes[k]));
        notes.lemma_filter_contains(q, k);
    }
}

} // verus!
