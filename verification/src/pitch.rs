//! Names and places of pitches.

use crate::text::{decimal_text, push_decimal};
use vstd::prelude::*;

verus! {

/// The black keys of an octave.
pub open spec fn black_key(pitch: int) -> bool {
    let k = pitch % 12;
    k == 1 || k == 3 || k == 6 || k == 8 || k == 10
}

fn pitch_class(pitch: i32) -> (k: u32)
    ensures
        k == pitch as int % 12,
        k < 12,
{
    if pitch >= 0 {
        (pitch as u32) % 12
    } else {
        let m: u32 = (-(pitch + 1)) as u32 % 12;
        proof {
            let a = -(pitch as int + 1);
            assert(m == a % 12);
            assert(pitch as int == -1 - a);
            assert((-1 - a) % 12 == 11 - a % 12);
        }
        11 - m
    }
}

/// `true` for the black keys of the chromatic octave.
pub fn is_black(pitch: i32) -> (r: bool)
    ensures
        r == black_key(pitch as int),
{
    matches!(pitch_class(pitch), 1 | 3 | 6 | 8 | 10)
}

/// Name of a pitch class.
pub open spec fn class_name(k: int) -> Seq<char> {
    if k == 0 {
        "C"@
    } else if k == 1 {
        "C#"@
    } else if k == 2 {
        "D"@
    } else if k == 3 {
        "D#"@
    } else if k == 4 {
        "E"@
    } else if k == 5 {
        "F"@
    } else if k == 6 {
        "F#"@
    } else if k == 7 {
        "G"@
    } else if k == 8 {
        "G#"@
    } else if k == 9 {
        "A"@
    } else if k == 10 {
        "A#"@
    } else {
        "B"@
    }
}

fn class_str(k: u32) -> (s: &'static str)
    requires
        k < 12,
    ensures
        s@ == class_name(k as int),
{
    match k {
        0 => "C",
        1 => "C#",
        2 => "D",
        3 => "D#",
        4 => "E",
        5 => "F",
        6 => "F#",
        7 => "G",
        8 => "G#",
        9 => "A",
        10 => "A#",
        _ => "B",
    }
}

/// Scientific name of a semitone: its class, and the octave that holds it, where
/// semitone 60 is `C4`.
pub open spec fn pitch_name(pitch: int) -> Seq<char> {
    class_name(pitch % 12) + decimal_text(pitch / 12 - 1)
}

/// Scientific pitch name of a semitone.
pub fn note_name(pitch: i32) -> (s: String)
    ensures
        s@ == pitch_name(pitch as int),
{
    let k: u32 = pitch_class(pitch);
    let octave: i64 = (pitch as i64 - k as i64) / 12;
    let mut s = class_str(k).to_owned();
    push_decimal(&mut s, octave - 1);
    s
}

/// An octave higher, a key has the same colour and the same class.
pub proof fn law_octaves_repeat(pitch: int)
    ensures
        black_key(pitch + 12) == black_key(pitch),
        (pitch + 12) % 12 == pitch % 12,
        (pitch + 12) / 12 == pitch / 12 + 1,
{
}

/// Place of a pitch class on the circle of fifths, and class at a place.
pub open spec fn fifths(x: int) -> int {
    (x * 7) % 12
}

/// Pitch class at a place on the circle of fifths.
pub fn fifths_pitch_class(position: usize) -> (class: usize)
    requires
        position <= usize::MAX / 7,
    ensures
        class == fifths(position as int),
        class < 12,
{
    (position * 7) % 12
}

/// Place of a pitch class on the circle of fifths.
pub fn fifths_position(class: usize) -> (position: usize)
    requires
        class <= usize::MAX / 7,
    ensures
        position == fifths(class as int),
        position < 12,
{
    (class * 7) % 12
}

/// Going to the circle of fifths and back gives the class again, and neighbours
/// on the circle are a fifth apart.
pub proof fn law_circle_of_fifths_round_trips(x: int)
    requires
        0 <= x < 12,
    ensures
        fifths(fifths(x)) == x,
        fifths((x + 1) % 12) == (fifths(x) + 7) % 12,
{
}

/// The circle of fifths passes every class once.
pub proof fn law_circle_of_fifths_has_every_class(x: int, y: int)
    requires
        0 <= x < 12,
        0 <= y < 12,
    ensures
        fifths(x) == fifths(y) ==> x == y,
{
    law_circle_of_fifths_round_trips(x);
    law_circle_of_fifths_round_trips(y);
}

} // verus!
