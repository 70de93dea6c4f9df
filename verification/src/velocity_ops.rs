//! Transforms of the selected notes' velocities.

use crate::fixed::{
    lemma_nearest_bound, lemma_nearest_monotone, lemma_nearest_of_multiple, nearest, nearest_div, COUNT_LIMIT,
};
use crate::midi::{MidiNote, DEFAULT_NOTE_VELOCITY};
use crate::velocity::{clamped_velocity, interpolate_velocity, ramp_velocity, relative_velocity, VelocityCurve};
use vstd::prelude::*;

verus! {

/// A transform offered by the velocity menu.
#[derive(Debug, Clone, Copy, PartialEq, Eq, Structural)]
pub enum VelocityOperation {
    SetDefault,
    Add,
    Subtract,
    Scale,
    Compress,
    Expand,
    Randomize,
    Humanize,
    Crescendo,
    Decrescendo,
    Reverse,
    ResetDefault,
}

/// How many transforms there are.
pub const VELOCITY_OPERATION_COUNT: usize = 12;

impl VelocityOperation {
    /// Place of the transform in the menu.
    pub open spec fn rank(self) -> int {
        match self {
            VelocityOperation::SetDefault => 0,
            VelocityOperation::Add => 1,
            VelocityOperation::Subtract => 2,
            VelocityOperation::Scale => 3,
            VelocityOperation::Compress => 4,
            VelocityOperation::Expand => 5,
            VelocityOperation::Randomize => 6,
            VelocityOperation::Humanize => 7,
            VelocityOperation::Crescendo => 8,
            VelocityOperation::Decrescendo => 9,
            VelocityOperation::Reverse => 10,
            VelocityOperation::ResetDefault => 11,
        }
    }

    /// Every transform, in menu order.
    pub fn all() -> (list: Vec<VelocityOperation>)
        ensures
            list@.len() == VELOCITY_OPERATION_COUNT,
            forall|i: int| 0 <= i < list@.len() ==> (#[trigger] list@[i]).rank() == i,
    {
        vec![
            VelocityOperation::SetDefault,
            VelocityOperation::Add,
            VelocityOperation::Subtract,
            VelocityOperation::Scale,
            VelocityOperation::Compress,
            VelocityOperation::Expand,
            VelocityOperation::Randomize,
            VelocityOperation::Humanize,
            VelocityOperation::Crescendo,
            VelocityOperation::Decrescendo,
            VelocityOperation::Reverse,
            VelocityOperation::ResetDefault,
        ]
    }

    /// Text of the transform in the menu.
    pub open spec fn spec_label(self) -> Seq<char> {
        match self {
            VelocityOperation::SetDefault => "Set Velocity · 100"@,
            VelocityOperation::Add => "Add · +5"@,
            VelocityOperation::Subtract => "Subtract · -5"@,
            VelocityOperation::Scale => "Scale · 110%"@,
            VelocityOperation::Compress => "Compress · 25%"@,
            VelocityOperation::Expand => "Expand · 25%"@,
            VelocityOperation::Randomize => "Randomize"@,
            VelocityOperation::Humanize => "Humanize · ±5"@,
            VelocityOperation::Crescendo => "Crescendo"@,
            VelocityOperation::Decrescendo => "Decrescendo"@,
            VelocityOperation::Reverse => "Reverse"@,
            VelocityOperation::ResetDefault => "Reset to Default"@,
        }
    }

    /// Text of the transform in the menu.
    pub fn label(self) -> (s: &'static str)
        ensures
            s@ == self.spec_label(),
    {
        match self {
            VelocityOperation::SetDefault => "Set Velocity · 100",
            VelocityOperation::Add => "Add · +5",
            VelocityOperation::Subtract => "Subtract · -5",
            VelocityOperation::Scale => "Scale · 110%",
            VelocityOperation::Compress => "Compress · 25%",
            VelocityOperation::Expand => "Expand · 25%",
            VelocityOperation::Randomize => "Randomize",
            VelocityOperation::Humanize => "Humanize · ±5",
            VelocityOperation::Crescendo => "Crescendo",
            VelocityOperation::Decrescendo => "Decrescendo",
            VelocityOperation::Reverse => "Reverse",
            VelocityOperation::ResetDefault => "Reset to Default",
        }
    }
}

/// Sum of the notes' velocities.
pub open spec fn velocity_sum(notes: Seq<MidiNote>) -> int
    decreases notes.len(),
{
    if notes.len() == 0 {
        0
    } else {
        velocity_sum(notes.drop_last()) + notes.last().velocity
    }
}

/// Lowest velocity.
pub open spec fn lowest_velocity(notes: Seq<MidiNote>) -> u8
    decreases notes.len(),
{
    if notes.len() == 0 {
        255
    } else {
        let rest = lowest_velocity(notes.drop_last());
        if notes.last().velocity < rest {
            notes.last().velocity
        } else {
            rest
        }
    }
}

/// Highest velocity.
pub open spec fn highest_velocity(notes: Seq<MidiNote>) -> u8
    decreases notes.len(),
{
    if notes.len() == 0 {
        0
    } else {
        let rest = highest_velocity(notes.drop_last());
        if notes.last().velocity > rest {
            notes.last().velocity
        } else {
            rest
        }
    }
}

/// Number that stands in for chance: the same note always draws the same one.
pub open spec fn note_hash(id: u64) -> u64 {
    let h = id.wrapping_mul(0x9E37_79B9_7F4A_7C15u64);
    (h << 17u64) | (h >> 47u64)
}

fn hash_note(id: u64) -> (h: u64)
    ensures
        h == note_hash(id),
{
    let h: u64 = id.wrapping_mul(0x9E37_79B9_7F4A_7C15);
    (h << 17u64) | (h >> 47u64)
}

/// Velocity that a transform gives to the note at `index` of the ordered notes.
pub open spec fn operation_velocity(operation: VelocityOperation, notes: Seq<MidiNote>, index: int) -> int {
    let v = notes[index].velocity as int;
    let n = notes.len() as int;
    let last = if n <= 1 {
        1
    } else {
        n - 1
    };
    match operation {
        VelocityOperation::SetDefault | VelocityOperation::ResetDefault => DEFAULT_NOTE_VELOCITY as int,
        VelocityOperation::Add => clamped_velocity(v + 5),
        VelocityOperation::Subtract => clamped_velocity(v - 5),
        VelocityOperation::Scale => clamped_velocity(nearest(11 * v, 10)),
        VelocityOperation::Compress => clamped_velocity(nearest(velocity_sum(notes) + 3 * v * n, 4 * n)),
        VelocityOperation::Expand => clamped_velocity(nearest(5 * v * n - velocity_sum(notes), 4 * n)),
        VelocityOperation::Randomize => 1 + (note_hash(notes[index].id) % 127) as int,
        VelocityOperation::Humanize => clamped_velocity(v + (note_hash(notes[index].id) % 11) as int - 5),
        VelocityOperation::Crescendo => ramp_velocity(
            lowest_velocity(notes) as int,
            highest_velocity(notes) as int,
            index,
            last,
            VelocityCurve::Linear,
        ),
        VelocityOperation::Decrescendo => ramp_velocity(
            highest_velocity(notes) as int,
            lowest_velocity(notes) as int,
            index,
            last,
            VelocityCurve::Linear,
        ),
        VelocityOperation::Reverse => notes[n - 1 - index].velocity as int,
    }
}

fn velocity_totals(notes: &Vec<MidiNote>) -> (r: (i64, u8, u8))
    requires
        notes@.len() <= COUNT_LIMIT,
    ensures
        r.0 == velocity_sum(notes@),
        0 <= r.0 <= 255 * notes@.len(),
        r.1 == lowest_velocity(notes@),
        r.2 == highest_velocity(notes@),
{
    let mut sum: i64 = 0;
    let mut lo: u8 = 255;
    let mut hi: u8 = 0;
    let mut i: usize = 0;
    assert(notes@.subrange(0, 0) =~= Seq::<MidiNote>::empty());
    while i < notes.len()
        invariant
            notes@.len() <= COUNT_LIMIT,
            i <= notes@.len(),
            sum == velocity_sum(notes@.subrange(0, i as int)),
            0 <= sum <= 255 * i,
            lo == lowest_velocity(notes@.subrange(0, i as int)),
            hi == highest_velocity(notes@.subrange(0, i as int)),
        decreases notes@.len() - i,
    {
        let v: u8 = notes[i].velocity;
        assert(notes@.subrange(0, i + 1).drop_last() =~= notes@.subrange(0, i as int));
        sum = sum + v as i64;
        if v < lo {
            lo = v;
        }
        if v > hi {
            hi = v;
        }
        i = i + 1;
    }
    assert(notes@.subrange(0, notes@.len() as int) =~= notes@);
    (sum, lo, hi)
}

fn mixed(a: i64, b: i64) -> (v: u8)
    requires
        0 < b <= 0x4_0000_0000_0000,
        -0x40_0000_0000_0000 <= a <= 0x40_0000_0000_0000,
    ensures
        v == clamped_velocity(nearest(a as int, b as int)),
{
    let q: i128 = nearest_div(a as i128, b as i128);
    if q < 1 {
        1
    } else if q > 127 {
        127
    } else {
        q as u8
    }
}

/// What a transform makes of the ordered notes: every id with its new velocity.
pub fn velocity_operation_updates(notes: &Vec<MidiNote>, operation: VelocityOperation) -> (out: Vec<(u64, u8)>)
    requires
        notes@.len() <= COUNT_LIMIT,
    ensures
        out@.len() == notes@.len(),
        forall|i: int|
            0 <= i < out@.len() ==> (#[trigger] out@[i]).0 == notes@[i].id && out@[i].1 == operation_velocity(
                operation,
                notes@,
                i,
            ),
{
    let n: usize = notes.len();
    let (sum, lo, hi) = velocity_totals(notes);
    let last: i64 = if n <= 1 {
        1
    } else {
        n as i64 - 1
    };
    let mut out: Vec<(u64, u8)> = Vec::new();
    let mut i: usize = 0;
    while i < n
        invariant
            n == notes@.len(),
            n <= COUNT_LIMIT,
            i <= n,
            sum == velocity_sum(notes@),
            0 <= sum <= 255 * n,
            lo == lowest_velocity(notes@),
            hi == highest_velocity(notes@),
            last == (if n <= 1 {
                1
            } else {
                n - 1
            }),
            out@.len() == i,
            forall|k: int|
                0 <= k < out@.len() ==> (#[trigger] out@[k]).0 == notes@[k].id && out@[k].1 == operation_velocity(
                    operation,
                    notes@,
                    k,
                ),
        decreases n - i,
    {
        let note = notes[i];
        let v: i64 = note.velocity as i64;
        let size: i64 = n as i64;
        proof {
            assert(0 <= v * size <= 255 * 0x4000_0000) by (nonlinear_arith)
                requires
                    0 <= v <= 255,
                    0 <= size <= 0x4000_0000,
            ;
            assert(3 * v * size == 3 * (v * size)) by (nonlinear_arith);
            assert(5 * v * size == 5 * (v * size)) by (nonlinear_arith);
        }
        let value: u8 = match operation {
            VelocityOperation::SetDefault => DEFAULT_NOTE_VELOCITY,
            VelocityOperation::ResetDefault => DEFAULT_NOTE_VELOCITY,
            VelocityOperation::Add => relative_velocity(note.velocity, 5),
            VelocityOperation::Subtract => relative_velocity(note.velocity, -5),
            VelocityOperation::Scale => mixed(11 * v, 10),
            VelocityOperation::Compress => mixed(sum + 3 * (v * size), 4 * size),
            VelocityOperation::Expand => mixed(5 * (v * size) - sum, 4 * size),
            VelocityOperation::Randomize => 1 + (hash_note(note.id) % 127) as u8,
            VelocityOperation::Humanize => relative_velocity(note.velocity, (hash_note(note.id) % 11) as i32 - 5),
            VelocityOperation::Crescendo => interpolate_velocity(lo, hi, i as i64, last, VelocityCurve::Linear),
            VelocityOperation::Decrescendo => interpolate_velocity(hi, lo, i as i64, last, VelocityCurve::Linear),
            VelocityOperation::Reverse => notes[n - 1 - i].velocity,
        };
        out.push((note.id, value));
        i = i + 1;
    }
    out
}

/// Reversing twice gives every note its own velocity back.
pub proof fn law_reverse_undoes_itself(notes: Seq<MidiNote>, turned: Seq<MidiNote>, index: int)
    requires
        turned.len() == notes.len(),
        0 <= index < notes.len(),
        forall|i: int|
            0 <= i < notes.len() ==> (#[trigger] turned[i]).velocity == operation_velocity(
                VelocityOperation::Reverse,
                notes,
                i,
            ),
    ensures
        operation_velocity(VelocityOperation::Reverse, turned, index) == notes[index].velocity,
{
}

/// Every transform but `Reverse`, which only moves velocities around, gives a
/// playable velocity.
pub proof fn law_operations_stay_in_range(operation: VelocityOperation, notes: Seq<MidiNote>, index: int)
    requires
        0 <= index < notes.len(),
        operation != VelocityOperation::Reverse,
    ensures
        1 <= operation_velocity(operation, notes, index) <= 127,
{
}

/// Every velocity is one that can be played.
pub open spec fn playable(notes: Seq<MidiNote>) -> bool {
    forall|i: int| 0 <= i < notes.len() ==> 1 <= (#[trigger] notes[i]).velocity <= 127
}

proof fn lemma_sum_bounds(notes: Seq<MidiNote>)
    requires
        playable(notes),
    ensures
        notes.len() <= velocity_sum(notes) <= 127 * notes.len(),
    decreases notes.len(),
{
    if notes.len() > 0 {
        let front = notes.drop_last();
        assert forall|i: int| 0 <= i < front.len() implies 1 <= (#[trigger] front[i]).velocity <= 127 by {
            assert(front[i] == notes[i]);
        }
        lemma_sum_bounds(front);
        assert(1 <= notes[notes.len() - 1].velocity <= 127);
    }
}

/// The sum of the velocities grows by the velocity of every note that joins.
pub proof fn law_sum_counts_every_note(notes: Seq<MidiNote>, note: MidiNote)
    ensures
        velocity_sum(notes.push(note)) - velocity_sum(notes) == note.velocity,
        velocity_sum(Seq::<MidiNote>::empty()) == 0,
{
    assert(notes.push(note).drop_last() =~= notes);
}

/// Compressing takes a velocity towards the mean of the notes: three quarters of
/// its distance are left, to within rounding. It never passes the mean by more
/// than rounding and never moves away.
pub proof fn law_compress_moves_towards_the_mean(notes: Seq<MidiNote>, index: int)
    requires
        playable(notes),
        0 <= index < notes.len(),
    ensures
        ({
            let n = notes.len() as int;
            let away = n * notes[index].velocity - velocity_sum(notes);
            let left = n * operation_velocity(VelocityOperation::Compress, notes, index) - velocity_sum(notes);
            &&& -2 * n <= 4 * left - 3 * away <= 2 * n
            &&& away >= 0 ==> operation_velocity(VelocityOperation::Compress, notes, index) <= notes[index].velocity
            &&& away <= 0 ==> operation_velocity(VelocityOperation::Compress, notes, index) >= notes[index].velocity
        }),
{
    let n = notes.len() as int;
    let s = velocity_sum(notes);
    let v = notes[index].velocity as int;
    let q = nearest(s + 3 * v * n, 4 * n);
    lemma_sum_bounds(notes);
    lemma_nearest_bound(s + 3 * v * n, 4 * n);
    assert(n <= v * n <= 127 * n) by (nonlinear_arith)
        requires
            1 <= v <= 127,
            n > 0,
    ;
    assert(3 * v * n == 3 * (v * n)) by (nonlinear_arith);
    assert(n * v == v * n) by (nonlinear_arith);
    assert(q * (4 * n) == 4 * (n * q)) by (nonlinear_arith);
    assert(1 <= q <= 127) by (nonlinear_arith)
        requires
            n > 0,
            4 * n <= s + 3 * v * n <= 508 * n,
            -(4 * n) <= 2 * (q * (4 * n) - (s + 3 * v * n)) <= 4 * n,
    ;
    assert(v * (4 * n) == 4 * (v * n)) by (nonlinear_arith);
    lemma_nearest_of_multiple(v, 4 * n);
    if n * v >= s {
        lemma_nearest_monotone(s + 3 * v * n, v * (4 * n), 4 * n);
    }
    if n * v <= s {
        lemma_nearest_monotone(v * (4 * n), s + 3 * v * n, 4 * n);
    }
}

/// Compressing keeps the order of two velocities and never takes them apart.
pub proof fn law_compress_draws_together(notes: Seq<MidiNote>, a: int, b: int)
    requires
        playable(notes),
        0 <= a < notes.len(),
        0 <= b < notes.len(),
        notes[a].velocity <= notes[b].velocity,
    ensures
        0 <= operation_velocity(VelocityOperation::Compress, notes, b) - operation_velocity(
            VelocityOperation::Compress,
            notes,
            a,
        ) <= notes[b].velocity - notes[a].velocity,
{
    let n = notes.len() as int;
    let s = velocity_sum(notes);
    let v = notes[a].velocity as int;
    let w = notes[b].velocity as int;
    let r = operation_velocity(VelocityOperation::Compress, notes, a);
    let t = operation_velocity(VelocityOperation::Compress, notes, b);
    law_compress_moves_towards_the_mean(notes, a);
    law_compress_moves_towards_the_mean(notes, b);
    assert(3 * v * n <= 3 * w * n) by (nonlinear_arith)
        requires
            v <= w,
            n > 0,
    ;
    lemma_nearest_monotone(s + 3 * v * n, s + 3 * w * n, 4 * n);
    assert(n * (4 * (t - r) - 3 * (w - v)) <= 4 * n) by (nonlinear_arith)
        requires
            -2 * n <= 4 * (n * r - s) - 3 * (n * v - s) <= 2 * n,
            -2 * n <= 4 * (n * t - s) - 3 * (n * w - s) <= 2 * n,
    ;
    assert(4 * (t - r) - 3 * (w - v) <= 4) by (nonlinear_arith)
        requires
            n > 0,
            n * (4 * (t - r) - 3 * (w - v)) <= 4 * n,
    ;
}

/// Expanding takes a velocity away from the mean of the notes: five quarters of
/// its distance, to within rounding, unless it meets an end of the range.
pub proof fn law_expand_moves_from_the_mean(notes: Seq<MidiNote>, index: int)
    requires
        playable(notes),
        0 <= index < notes.len(),
    ensures
        ({
            let n = notes.len() as int;
            let r = operation_velocity(VelocityOperation::Expand, notes, index);
            let away = n * notes[index].velocity - velocity_sum(notes);
            let now = n * r - velocity_sum(notes);
            &&& 1 < r < 127 ==> -2 * n <= 4 * now - 5 * away <= 2 * n
            &&& r == 1 ==> 5 * away - 4 * now <= 2 * n
            &&& r == 127 ==> 4 * now - 5 * away <= 2 * n
            &&& away >= 0 ==> r >= notes[index].velocity
            &&& away <= 0 ==> r <= notes[index].velocity
        }),
{
    let n = notes.len() as int;
    let s = velocity_sum(notes);
    let v = notes[index].velocity as int;
    let q = nearest(5 * v * n - s, 4 * n);
    lemma_sum_bounds(notes);
    lemma_nearest_bound(5 * v * n - s, 4 * n);
    assert(5 * v * n == 5 * (v * n)) by (nonlinear_arith);
    assert(n * v == v * n) by (nonlinear_arith);
    assert(q * (4 * n) == 4 * (n * q)) by (nonlinear_arith);
    assert(v * (4 * n) == 4 * (v * n)) by (nonlinear_arith);
    lemma_nearest_of_multiple(v, 4 * n);
    if n * v >= s {
        lemma_nearest_monotone(v * (4 * n), 5 * v * n - s, 4 * n);
    }
    if n * v <= s {
        lemma_nearest_monotone(5 * v * n - s, v * (4 * n), 4 * n);
    }
    if q <= 1 {
        assert(n * q <= n * 1) by (nonlinear_arith)
            requires
                n > 0,
                q <= 1,
        ;
    }
    if q >= 127 {
        assert(n * q >= n * 127) by (nonlinear_arith)
            requires
                n > 0,
                q >= 127,
        ;
    }
}

/// The plain transforms change a velocity by a fixed amount or share: five up,
/// five down, a tenth more, at most five either way, or to the default.
pub proof fn law_plain_operations_change_by_their_amount(notes: Seq<MidiNote>, index: int)
    requires
        playable(notes),
        0 <= index < notes.len(),
    ensures
        ({
            let v = notes[index].velocity as int;
            let r = |o: VelocityOperation| operation_velocity(o, notes, index);
            &&& r(VelocityOperation::SetDefault) == 100
            &&& r(VelocityOperation::ResetDefault) == 100
            &&& v <= 122 ==> r(VelocityOperation::Add) == v + 5
            &&& v > 122 ==> r(VelocityOperation::Add) == 127
            &&& v >= 6 ==> r(VelocityOperation::Subtract) == v - 5
            &&& v < 6 ==> r(VelocityOperation::Subtract) == 1
            &&& v <= 115 ==> -5 <= 10 * r(VelocityOperation::Scale) - 11 * v <= 5
            &&& v > 115 ==> r(VelocityOperation::Scale) == 127
            &&& v - 5 <= r(VelocityOperation::Humanize) <= v + 5
        }),
{
    assert(1 <= notes[index].velocity <= 127);
    lemma_nearest_bound(11 * notes[index].velocity, 10);
}

/// What stands in for chance depends on the note alone: in whatever selection,
/// the same note draws the same velocity, and the same change.
pub proof fn law_chance_belongs_to_the_note(a: Seq<MidiNote>, i: int, b: Seq<MidiNote>, j: int)
    requires
        0 <= i < a.len(),
        0 <= j < b.len(),
        a[i].id == b[j].id,
        a[i].velocity == b[j].velocity,
    ensures
        operation_velocity(VelocityOperation::Randomize, a, i) == operation_velocity(
            VelocityOperation::Randomize,
            b,
            j,
        ),
        operation_velocity(VelocityOperation::Humanize, a, i) == operation_velocity(
            VelocityOperation::Humanize,
            b,
            j,
        ),
{
}

/// The lowest and the highest velocity bound all of them and are reached.
pub proof fn law_velocity_extremes_are_reached(notes: Seq<MidiNote>)
    requires
        notes.len() > 0,
    ensures
        forall|i: int|
            0 <= i < notes.len() ==> lowest_velocity(notes) <= (#[trigger] notes[i]).velocity <= highest_velocity(notes),
        exists|i: int| 0 <= i < notes.len() && (#[trigger] notes[i]).velocity == lowest_velocity(notes),
        exists|i: int| 0 <= i < notes.len() && (#[trigger] notes[i]).velocity == highest_velocity(notes),
    decreases notes.len(),
{
    let front = notes.drop_last();
    let last = notes.len() - 1;
    assert(notes[last] == notes.last());
    if front.len() > 0 {
        law_velocity_extremes_are_reached(front);
        assert forall|i: int| 0 <= i < notes.len() implies lowest_velocity(notes) <= (#[trigger] notes[i]).velocity
            <= highest_velocity(notes) by {
            if i < front.len() {
                assert(front[i] == notes[i]);
            }
        }
        let l = choose|i: int| 0 <= i < front.len() && (#[trigger] front[i]).velocity == lowest_velocity(front);
        let h = choose|i: int| 0 <= i < front.len() && (#[trigger] front[i]).velocity == highest_velocity(front);
        assert(front[l] == notes[l]);
        assert(front[h] == notes[h]);
    } else {
        assert(lowest_velocity(front) == 255);
        assert(highest_velocity(front) == 0);
    }
}

/// A crescendo rises evenly from the lowest velocity at the first note to the
/// highest at the last; a decrescendo falls the same way.
pub proof fn law_crescendo_rises_and_decrescendo_falls(notes: Seq<MidiNote>, index: int)
    requires
        playable(notes),
        notes.len() >= 2,
        0 <= index < notes.len(),
    ensures
        ({
            let last = notes.len() - 1;
            let lo = lowest_velocity(notes) as int;
            let hi = highest_velocity(notes) as int;
            let up = operation_velocity(VelocityOperation::Crescendo, notes, index);
            let down = operation_velocity(VelocityOperation::Decrescendo, notes, index);
            &&& index == 0 ==> up == lo && down == hi
            &&& index == last ==> up == hi && down == lo
            &&& -last <= 2 * (last * (up - lo) - index * (hi - lo)) <= last
            &&& -last <= 2 * (last * (hi - down) - index * (hi - lo)) <= last
        }),
{
    let last = notes.len() - 1;
    let lo = lowest_velocity(notes) as int;
    let hi = highest_velocity(notes) as int;
    law_velocity_extremes_are_reached(notes);
    assert(1 <= notes[0].velocity <= 127);
    assert(lo <= notes[0].velocity <= hi);
    let l = choose|i: int| 0 <= i < notes.len() && (#[trigger] notes[i]).velocity == lowest_velocity(notes);
    let h = choose|i: int| 0 <= i < notes.len() && (#[trigger] notes[i]).velocity == highest_velocity(notes);
    assert(1 <= notes[l].velocity && notes[h].velocity <= 127);
    crate::velocity::law_linear_ramp_meets_its_ends(lo, hi, last);
    crate::velocity::law_linear_ramp_meets_its_ends(hi, lo, last);
    crate::velocity::law_linear_ramp_is_even(lo, hi, index, last);
    crate::velocity::law_linear_ramp_is_even(hi, lo, index, last);
    let down = operation_velocity(VelocityOperation::Decrescendo, notes, index);
    assert(last * (down - hi) - index * (lo - hi) == -(last * (hi - down) - index * (hi - lo))) by (nonlinear_arith);
}

/// Reversing gives every note the velocity of the note as far from the other end.
pub proof fn law_reverse_swaps_the_ends(notes: Seq<MidiNote>, i: int, j: int)
    requires
        0 <= i < notes.len(),
        0 <= j,
        i + j + 1 == notes.len(),
    ensures
        operation_velocity(VelocityOperation::Reverse, notes, i) == notes[j].velocity,
{
}

/// Random velocities take up the whole range and random changes all of eleven
/// steps: each is what the note's number leaves when divided by as many.
pub proof fn law_chance_takes_up_its_range(notes: Seq<MidiNote>, index: int)
    requires
        playable(notes),
        0 <= index < notes.len(),
    ensures
        (operation_velocity(VelocityOperation::Randomize, notes, index) - 1 - note_hash(notes[index].id)) % 127 == 0,
        6 <= notes[index].velocity <= 122 ==> (operation_velocity(VelocityOperation::Humanize, notes, index)
            - notes[index].velocity + 5 - note_hash(notes[index].id)) % 11 == 0,
{
    let h = note_hash(notes[index].id) as int;
    assert(h == 127 * (h / 127) + h % 127);
    assert(h == 11 * (h / 11) + h % 11);
}

} // verus!
