//! Texts of the inspector, the lanes and the status line.

use crate::fixed::{
    clamp_i64, clamp_to, lemma_nearest_bound, magnitude, max_i64, max_of, nearest, nearest_div, POSITION_LIMIT,
    TICKS_PER_BEAT, VALUE_ONE,
};
use crate::midi::{valid_notes, ArticulationId, MidiControllerKind, MidiNote};
use crate::note_edits::{earliest_start, latest_end, note_extent};
use crate::pitch::{note_name, pitch_name};
use crate::text::{decimal, decimal_text, digit_char, natural_text, push_decimal, push_natural};
use vstd::prelude::*;

verus! {

/// `a / b` to the nearest whole number, halves to the even one.
pub open spec fn half_even(a: int, b: int) -> int {
    let q = a / b;
    let r = a % b;
    if 2 * r < b || (2 * r == b && q % 2 == 0) {
        q
    } else {
        q + 1
    }
}

/// A fraction `a / b` with two decimals.
pub open spec fn hundredths_text(a: int, b: int) -> Seq<char> {
    let h = half_even(100 * a, b);
    natural_text(h / 100) + "."@ + seq![digit_char(h / 10 % 10), digit_char(h % 10)]
}

/// A fraction `a / b` with three decimals.
pub open spec fn thousandths_text(a: int, b: int) -> Seq<char> {
    let h = half_even(1000 * a, b);
    natural_text(h / 1000) + "."@ + seq![digit_char(h / 100 % 10), digit_char(h / 10 % 10), digit_char(h % 10)]
}

/// A time in beats with two decimals, with a minus sign below zero.
pub open spec fn beats_text(ticks: int) -> Seq<char> {
    if ticks < 0 {
        "-"@ + hundredths_text(-ticks, TICKS_PER_BEAT as int)
    } else {
        hundredths_text(ticks, TICKS_PER_BEAT as int)
    }
}

/// A fraction with two decimals and a sign in any case.
pub open spec fn signed_text(a: int, b: int) -> Seq<char> {
    if a < 0 {
        "-"@ + hundredths_text(-a, b)
    } else {
        "+"@ + hundredths_text(a, b)
    }
}

/// A time in beats with three decimals, not below zero.
pub open spec fn inspector_beats(ticks: int) -> Seq<char> {
    thousandths_text(max_of(ticks, 0), TICKS_PER_BEAT as int)
}

pub(crate) fn round_half_even(a: u128, b: u128) -> (q: u128)
    requires
        0 < b <= 0x1_0000_0000_0000_0000,
        a <= 0x1_0000_0000_0000_0000_0000_0000,
    ensures
        q == half_even(a as int, b as int),
        q <= a + 1,
{
    let q: u128 = a / b;
    let r: u128 = a % b;
    proof {
        vstd::arithmetic::div_mod::lemma_div_nonincreasing(a as int, b as int);
    }
    if 2 * r < b || (2 * r == b && q % 2 == 0) {
        q
    } else {
        q + 1
    }
}

fn push_digit(out: &mut String, d: u64)
    requires
        d < 10,
    ensures
        final(out)@ == old(out)@ + seq![digit_char(d as int)],
{
    push_natural(out, d);
}

fn push_hundredths(out: &mut String, a: u64, b: u64)
    requires
        b >= 1,
        a <= 0x4000_0000_0000_0000,
    ensures
        final(out)@ == old(out)@ + hundredths_text(a as int, b as int),
{
    let h: u128 = round_half_even(100 * a as u128, b as u128);
    let ghost before = out@;
    let whole: u128 = h / 100;
    proof {
        lemma_half_even_bound(100 * a as int, b as int);
    }
    push_u128(out, whole);
    out.append(".");
    push_digit(out, (h / 10 % 10) as u64);
    push_digit(out, (h % 10) as u64);
    assert(out@ =~= before + hundredths_text(a as int, b as int));
}

fn push_thousandths(out: &mut String, a: u64, b: u64)
    requires
        b >= 1,
        a <= 0x4000_0000_0000_0000,
    ensures
        final(out)@ == old(out)@ + thousandths_text(a as int, b as int),
{
    let h: u128 = round_half_even(1000 * a as u128, b as u128);
    let ghost before = out@;
    let whole: u128 = h / 1000;
    proof {
        lemma_half_even_bound(1000 * a as int, b as int);
    }
    push_u128(out, whole);
    out.append(".");
    push_digit(out, (h / 100 % 10) as u64);
    push_digit(out, (h / 10 % 10) as u64);
    push_digit(out, (h % 10) as u64);
    assert(out@ =~= before + thousandths_text(a as int, b as int));
}

proof fn lemma_half_even_bound(a: int, b: int)
    requires
        a >= 0,
        b >= 1,
    ensures
        0 <= half_even(a, b) <= a + 1,
{
    vstd::arithmetic::div_mod::lemma_div_nonincreasing(a, b);
    vstd::arithmetic::div_mod::lemma_div_pos_is_pos(a, b);
}

fn push_u128(out: &mut String, n: u128)
    requires
        n <= 0x7fff_ffff_ffff_ffff,
    ensures
        final(out)@ == old(out)@ + natural_text(n as int),
{
    push_natural(out, n as u64);
}

/// Appends a time in beats with two decimals.
pub fn push_beats(out: &mut String, ticks: i64)
    requires
        -8 * POSITION_LIMIT <= ticks <= 8 * POSITION_LIMIT,
    ensures
        final(out)@ == old(out)@ + beats_text(ticks as int),
{
    let ghost before = out@;
    if ticks < 0 {
        out.append("-");
        push_hundredths(out, (-ticks) as u64, 960_000);
        assert(out@ =~= before + beats_text(ticks as int));
    } else {
        push_hundredths(out, ticks as u64, 960_000);
    }
}

/// Appends a fraction with two decimals and its sign.
pub fn push_signed(out: &mut String, a: i64, b: u64)
    requires
        b >= 1,
        -8 * POSITION_LIMIT <= a <= 8 * POSITION_LIMIT,
    ensures
        final(out)@ == old(out)@ + signed_text(a as int, b as int),
{
    let ghost before = out@;
    if a < 0 {
        out.append("-");
        push_hundredths(out, (-a) as u64, b);
    } else {
        out.append("+");
        push_hundredths(out, a as u64, b);
    }
    assert(out@ =~= before + signed_text(a as int, b as int));
}

/// A time in beats for the inspector.
pub fn format_beats(ticks: i64) -> (s: String)
    requires
        ticks <= 8 * POSITION_LIMIT,
    ensures
        s@ == inspector_beats(ticks as int),
{
    let mut s = String::new();
    push_thousandths(&mut s, max_i64(ticks, 0) as u64, 960_000);
    assert(s@ =~= inspector_beats(ticks as int));
    s
}

/// Ending of a noun behind a count.
pub open spec fn plural_text(count: int) -> Seq<char> {
    if count == 1 {
        ""@
    } else {
        "s"@
    }
}

/// Ending of a noun behind `count`.
pub fn plural(count: usize) -> (s: &'static str)
    ensures
        s@ == plural_text(count as int),
{
    if count == 1 {
        ""
    } else {
        "s"
    }
}

/// Name of a controller.
pub open spec fn kind_label(kind: MidiControllerKind) -> Seq<char> {
    match kind {
        MidiControllerKind::CC(n) => if n == 1 {
            "CC1 Mod"@
        } else if n == 7 {
            "CC7 Volume"@
        } else if n == 10 {
            "CC10 Pan"@
        } else if n == 11 {
            "CC11 Expr"@
        } else if n == 64 {
            "CC64 Sustain"@
        } else {
            "CC"@ + decimal_text(n as int)
        },
        MidiControllerKind::PitchBend => "Pitch Bend"@,
        MidiControllerKind::ChannelPressure => "Ch Pressure"@,
        MidiControllerKind::PolyPressure => "Poly Pressure"@,
    }
}

/// Name of a controller.
pub fn cc_kind_label(kind: MidiControllerKind) -> (s: String)
    ensures
        s@ == kind_label(kind),
{
    match kind {
        MidiControllerKind::CC(1) => "CC1 Mod".to_owned(),
        MidiControllerKind::CC(7) => "CC7 Volume".to_owned(),
        MidiControllerKind::CC(10) => "CC10 Pan".to_owned(),
        MidiControllerKind::CC(11) => "CC11 Expr".to_owned(),
        MidiControllerKind::CC(64) => "CC64 Sustain".to_owned(),
        MidiControllerKind::CC(n) => {
            let mut s = "CC".to_owned();
            push_decimal(&mut s, n as i64);
            s
        },
        MidiControllerKind::PitchBend => "Pitch Bend".to_owned(),
        MidiControllerKind::ChannelPressure => "Ch Pressure".to_owned(),
        MidiControllerKind::PolyPressure => "Poly Pressure".to_owned(),
    }
}

/// A controller value as it is shown: semitones for pitch bend, which reaches two
/// either way; else 0 to 127.
pub open spec fn display_value(kind: MidiControllerKind, value: int) -> Seq<char> {
    let v = clamp_to(value, 0, VALUE_ONE as int);
    if kind == MidiControllerKind::PitchBend {
        signed_text(4 * v - 2 * VALUE_ONE, VALUE_ONE as int) + " st"@
    } else {
        decimal_text(nearest(127 * v, VALUE_ONE as int))
    }
}

/// A controller value as it is shown.
pub fn controller_display_value(kind: MidiControllerKind, value: i64) -> (s: String)
    ensures
        s@ == display_value(kind, value as int),
{
    let v: i64 = clamp_i64(value, 0, VALUE_ONE);
    if kind == MidiControllerKind::PitchBend {
        let mut s = String::new();
        push_signed(&mut s, 4 * v - 2 * VALUE_ONE, 1_000_000_000);
        s.append(" st");
        assert(s@ =~= display_value(kind, value as int));
        s
    } else {
        let q: i128 = nearest_div(127 * v as i128, 1_000_000_000);
        proof {
            lemma_nearest_bound(127 * v as int, 1_000_000_000);
        }
        decimal(q as i64)
    }
}

/// Value of a controller that has no points.
pub fn controller_default_value(kind: MidiControllerKind) -> (v: i64)
    ensures
        v == (if kind == MidiControllerKind::PitchBend {
            VALUE_ONE as int / 2
        } else {
            0
        }),
{
    match kind {
        MidiControllerKind::PitchBend => 500_000_000,
        _ => 0,
    }
}

/// A field of a note that the inspector shows as a small number.
#[derive(Debug, Clone, Copy, PartialEq, Eq, Structural)]
pub enum NoteByte {
    Pitch,
    Velocity,
    Channel,
}

impl NoteByte {
    /// The field of a note.
    pub open spec fn of(self, n: MidiNote) -> u8 {
        match self {
            NoteByte::Pitch => n.pitch,
            NoteByte::Velocity => n.velocity,
            NoteByte::Channel => n.channel.raw,
        }
    }
}

/// The value that all notes share in a field, if they do.
pub open spec fn shared_byte(notes: Seq<MidiNote>, field: NoteByte) -> Option<u8> {
    if notes.len() > 0 && forall|i: int| 0 <= i < notes.len() ==> field.of(#[trigger] notes[i]) == field.of(notes[0]) {
        Some(field.of(notes[0]))
    } else {
        None
    }
}

/// What `read` gives for every note, if it gives the same.
pub fn uniform_u8<F: Fn(&MidiNote) -> u8>(notes: &Vec<MidiNote>, read: F) -> (r: Option<u8>)
    requires
        forall|i: int| 0 <= i < notes@.len() ==> call_requires(read, (&#[trigger] notes@[i],)),
    ensures
        match r {
            Some(v) => notes@.len() > 0 && forall|i: int|
                0 <= i < notes@.len() ==> call_ensures(read, (&#[trigger] notes@[i],), v),
            None => notes@.len() == 0 || exists|i: int, first: u8, other: u8|
                0 <= i < notes@.len() && first != other && #[trigger] call_ensures(read, (&notes@[0],), first)
                    && #[trigger] call_ensures(read, (&notes@[i],), other),
        },
{
    if notes.len() == 0 {
        return None;
    }
    let first: u8 = read(&notes[0]);
    let mut i: usize = 0;
    while i < notes.len()
        invariant
            notes@.len() > 0,
            i <= notes@.len(),
            forall|k: int| 0 <= k < notes@.len() ==> call_requires(read, (&#[trigger] notes@[k],)),
            call_ensures(read, (&notes@[0],), first),
            forall|k: int| 0 <= k < i ==> call_ensures(read, (&#[trigger] notes@[k],), first),
        decreases notes@.len() - i,
    {
        let other: u8 = read(&notes[i]);
        if other != first {
            assert(call_ensures(read, (&notes@[i as int],), other));
            return None;
        }
        i = i + 1;
    }
    Some(first)
}

/// A field of a note that the inspector shows as a time.
#[derive(Debug, Clone, Copy, PartialEq, Eq, Structural)]
pub enum NoteTime {
    Start,
    Length,
}

impl NoteTime {
    /// The field of a note.
    pub open spec fn of(self, n: MidiNote) -> i64 {
        match self {
            NoteTime::Start => n.start,
            NoteTime::Length => n.duration,
        }
    }
}

/// The first note's time, where no note differs from it by more than the
/// tolerance.
pub open spec fn shared_time(notes: Seq<MidiNote>, field: NoteTime) -> Option<i64> {
    if notes.len() > 0 && forall|i: int|
        0 <= i < notes.len() ==> magnitude(field.of(#[trigger] notes[i]) - field.of(notes[0]))
            <= crate::note_edits::TIME_TOLERANCE {
        Some(field.of(notes[0]))
    } else {
        None
    }
}

/// `read` gives a time for the note that is near another.
pub open spec fn reads_near<F: Fn(&MidiNote) -> i64>(read: F, n: MidiNote, time: i64) -> bool {
    exists|t: i64| #[trigger]
        call_ensures(read, (&n,), t) && magnitude(t - time) <= crate::note_edits::TIME_TOLERANCE
}

/// What `read` gives for the first note, if it gives the same for every note,
/// within the tolerance.
pub fn uniform_time<F: Fn(&MidiNote) -> i64>(notes: &Vec<MidiNote>, read: F) -> (r: Option<i64>)
    requires
        forall|i: int| 0 <= i < notes@.len() ==> call_requires(read, (&#[trigger] notes@[i],)),
    ensures
        match r {
            Some(v) => {
                &&& notes@.len() > 0
                &&& call_ensures(read, (&notes@[0],), v)
                &&& forall|i: int| 0 <= i < notes@.len() ==> reads_near(read, #[trigger] notes@[i], v)
            },
            None => notes@.len() == 0 || exists|i: int, first: i64, other: i64|
                0 <= i < notes@.len() && magnitude(other - first) > crate::note_edits::TIME_TOLERANCE
                    && #[trigger] call_ensures(read, (&notes@[0],), first) && #[trigger] call_ensures(
                    read,
                    (&notes@[i],),
                    other,
                ),
        },
{
    if notes.len() == 0 {
        return None;
    }
    let first: i64 = read(&notes[0]);
    let mut i: usize = 0;
    while i < notes.len()
        invariant
            notes@.len() > 0,
            i <= notes@.len(),
            forall|k: int| 0 <= k < notes@.len() ==> call_requires(read, (&#[trigger] notes@[k],)),
            call_ensures(read, (&notes@[0],), first),
            forall|k: int| 0 <= k < i ==> reads_near(read, #[trigger] notes@[k], first),
        decreases notes@.len() - i,
    {
        let time: i64 = read(&notes[i]);
        assert(call_ensures(read, (&notes@[i as int],), time));
        let d: i128 = time as i128 - first as i128;
        if d > 96 || d < -96 {
            assert(magnitude(time - first) > crate::note_edits::TIME_TOLERANCE);
            return None;
        }
        assert(reads_near(read, notes@[i as int], first));
        i = i + 1;
    }
    Some(first)
}

/// The selected notes, as the inspector describes them.
#[derive(Debug)]
pub struct NoteInspectorSnapshot {
    pub selected: Vec<MidiNote>,
}

impl NoteInspectorSnapshot {
    /// Number of selected notes.
    pub fn count(&self) -> (n: usize)
        ensures
            n == self.selected@.len(),
    {
        self.selected.len()
    }

    /// Name and number of the pitch that all notes share, else `Mixed`.
    pub fn pitch_label(&self) -> (s: String)
        ensures
            s@ == (match shared_byte(self.selected@, NoteByte::Pitch) {
                Some(p) => pitch_name(p as int) + " ("@ + decimal_text(p as int) + ")"@,
                None => "Mixed"@,
            }),
    {
        match uniform_u8(&self.selected, |n: &MidiNote| -> (v: u8)
            ensures
                v == n.pitch,
        {
            n.pitch
        }) {
            Some(p) => {
                let mut s = note_name(p as i32);
                s.append(" (");
                push_decimal(&mut s, p as i64);
                s.append(")");
                s
            },
            None => "Mixed".to_owned(),
        }
    }

    /// Start that all notes share, else `Mixed`.
    pub fn start_label(&self) -> (s: String)
        requires
            valid_notes(self.selected@),
        ensures
            s@ == (match shared_time(self.selected@, NoteTime::Start) {
                Some(t) => inspector_beats(t as int),
                None => "Mixed"@,
            }),
    {
        match uniform_time(&self.selected, |n: &MidiNote| -> (v: i64)
            ensures
                v == n.start,
        {
            n.start
        }) {
            Some(t) => {
                assert(self.selected@[0].valid());
                format_beats(t)
            },
            None => "Mixed".to_owned(),
        }
    }

    /// Length that all notes share, else `Mixed`.
    pub fn length_label(&self) -> (s: String)
        requires
            valid_notes(self.selected@),
        ensures
            s@ == (match shared_time(self.selected@, NoteTime::Length) {
                Some(t) => inspector_beats(t as int),
                None => "Mixed"@,
            }),
    {
        match uniform_time(&self.selected, |n: &MidiNote| -> (v: i64)
            ensures
                v == n.duration,
        {
            n.duration
        }) {
            Some(t) => {
                assert(self.selected@[0].valid());
                format_beats(t)
            },
            None => "Mixed".to_owned(),
        }
    }

    /// Velocity that all notes share, else `Mixed`.
    pub fn velocity_label(&self) -> (s: String)
        ensures
            s@ == (match shared_byte(self.selected@, NoteByte::Velocity) {
                Some(v) => decimal_text(v as int),
                None => "Mixed"@,
            }),
    {
        match uniform_u8(&self.selected, |n: &MidiNote| -> (v: u8)
            ensures
                v == n.velocity,
        {
            n.velocity
        }) {
            Some(v) => decimal(v as i64),
            None => "Mixed".to_owned(),
        }
    }

    /// Label of the channel that all notes share, else `Mixed`. `names` holds
    /// the channels' labels.
    pub fn channel_label(&self, names: &Vec<String>) -> (s: String)
        requires
            names@.len() == 256,
        ensures
            s@ == (match shared_byte(self.selected@, NoteByte::Channel) {
                Some(c) => names@[c as int]@,
                None => "Mixed"@,
            }),
    {
        match uniform_u8(&self.selected, |n: &MidiNote| -> (v: u8)
            ensures
                v == n.channel.raw,
        {
            n.channel.raw
        }) {
            Some(c) => names[c as usize].clone(),
            None => "Mixed".to_owned(),
        }
    }

    /// What the notes share as articulation: a name, that they have none, or
    /// nothing.
    pub open spec fn articulation_text(self, name: spec_fn(ArticulationId) -> Seq<char>) -> Seq<char> {
        if self.selected@.len() > 0 && (forall|i: int|
            0 <= i < self.selected@.len() ==> (#[trigger] self.selected@[i]).articulation
                == self.selected@[0].articulation) {
            match self.selected@[0].articulation {
                Some(a) => name(a),
                None => "None"@,
            }
        } else {
            "Mixed"@
        }
    }

    /// Name of the articulation that all notes share; `None` where none has
    /// one, `Mixed` where they differ. `name_of_first` is the name of the first
    /// note's articulation.
    pub fn articulation_label(&self, name_of_first: &str) -> (s: String)
        ensures
            s@ == self.articulation_text(|a: ArticulationId| name_of_first@),
    {
        match crate::note_edits::uniform_articulation(&self.selected) {
            Some(Some(_)) => name_of_first.to_owned(),
            Some(None) => "None".to_owned(),
            None => "Mixed".to_owned(),
        }
    }

    /// Where the notes end: the end of a single note, the range of several.
    pub fn end_label(&self) -> (s: String)
        requires
            valid_notes(self.selected@),
        ensures
            s@ == (if self.selected@.len() == 0 {
                "--"@
            } else if self.selected@.len() == 1 {
                inspector_beats(self.selected@[0].start + self.selected@[0].duration)
            } else {
                inspector_beats(earliest_start(self.selected@)) + ".."@ + inspector_beats(latest_end(self.selected@))
            }),
    {
        if self.selected.len() == 1 {
            let n = self.selected[0];
            assert(self.selected@[0].valid());
            format_beats(n.start + n.duration)
        } else if self.selected.len() == 0 {
            "--".to_owned()
        } else {
            let (lo, hi) = note_extent(&self.selected);
            let mut s = format_beats(lo);
            s.append("..");
            s.append(format_beats(hi).as_str());
            s
        }
    }
}

/// A rounded quotient is the nearest whole number, and of two the even one.
pub proof fn law_rounding_is_to_the_nearest_even(a: int, b: int)
    requires
        b > 0,
    ensures
        -b <= 2 * (b * half_even(a, b) - a) <= b,
        2 * (b * half_even(a, b) - a) == b || 2 * (a - b * half_even(a, b)) == b ==> half_even(a, b) % 2 == 0,
{
    vstd::arithmetic::div_mod::lemma_fundamental_div_mod(a, b);
    vstd::arithmetic::div_mod::lemma_mod_bound(a, b);
    let q = a / b;
    vstd::arithmetic::mul::lemma_mul_is_distributive_add(b, q, 1);
    vstd::arithmetic::mul::lemma_mul_basics(b);
}

} // verus!
