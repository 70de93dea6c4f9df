//! Editing of controller points: painting, erasing, ramps, moves and copies.

use crate::fixed::{magnitude, max_i64, max_of, min_i64, min_of, on_axis, POSITION_LIMIT};
use crate::id_set::IdSet;
use crate::midi::{lemma_filter_step, MidiControllerPoint};
use crate::order::{
    in_order, law_sorted_is_an_ordered_arrangement, law_sorting_takes_distinct_items_either_way, lemma_sorted_contains,
    placed, sorted, stable_sort, Keyed,
};
use vstd::prelude::*;

verus! {

/// Travel between two samples of a freehand stroke.
pub const CC_PAINT_SAMPLE_PX: i64 = 2_000_000;

/// Points this close on the time axis are one point.
pub const CC_POINT_MERGE_EPS: i64 = 960;

/// Slack at the ends of a span that a ramp or a curve replaces.
pub const CC_SPAN_SLACK: i64 = 96;

/// Points that are in order, with each run of points that follow one another
/// within the merge distance reduced to the last of them.
pub open spec fn compacted(points: Seq<MidiControllerPoint>) -> Seq<MidiControllerPoint>
    decreases points.len(),
{
    if points.len() == 0 {
        Seq::empty()
    } else {
        let before = compacted(points.drop_last());
        let point = points.last();
        if before.len() > 0 && magnitude(before.last().beat - point.beat) <= CC_POINT_MERGE_EPS {
            before.update(before.len() - 1, point)
        } else {
            before.push(point)
        }
    }
}

/// Makes a controller lane single-valued: sorts the points and lets the newest
/// of several at one place stand.
pub fn compact_cc_points(points: &Vec<MidiControllerPoint>) -> (out: Vec<MidiControllerPoint>)
    ensures
        out@ == compacted(sorted(points@)),
{
    let ordered = stable_sort(points);
    let mut out: Vec<MidiControllerPoint> = Vec::new();
    let mut i: usize = 0;
    assert(ordered@.subrange(0, 0) =~= Seq::<MidiControllerPoint>::empty());
    while i < ordered.len()
        invariant
            i <= ordered@.len(),
            out@ == compacted(ordered@.subrange(0, i as int)),
        decreases ordered@.len() - i,
    {
        let point = ordered[i];
        assert(ordered@.subrange(0, i + 1).drop_last() =~= ordered@.subrange(0, i as int));
        let n: usize = out.len();
        let near = if n > 0 {
            let d: i128 = out[n - 1].beat as i128 - point.beat as i128;
            -(CC_POINT_MERGE_EPS as i128) <= d && d <= CC_POINT_MERGE_EPS as i128
        } else {
            false
        };
        if near {
            out.set(n - 1, point);
        } else {
            out.push(point);
        }
        i = i + 1;
    }
    assert(ordered@.subrange(0, ordered@.len() as int) =~= ordered@);
    out
}

/// Points are further apart than the merge distance.
pub open spec fn well_spaced(points: Seq<MidiControllerPoint>) -> bool {
    forall|i: int, j: int|
        0 <= i < j < points.len() ==> (#[trigger] points[j]).beat - (#[trigger] points[i]).beat > CC_POINT_MERGE_EPS
}

/// Compacting leaves points that are further apart than the merge distance, all
/// of them points that were there, the last one among them.
pub proof fn law_compacted_points_are_spaced(points: Seq<MidiControllerPoint>)
    requires
        in_order(points),
    ensures
        well_spaced(compacted(points)),
        compacted(points).len() <= points.len(),
        points.len() > 0 ==> compacted(points).len() > 0 && compacted(points).last() == points.last(),
        forall|k: int| 0 <= k < compacted(points).len() ==> points.contains(#[trigger] compacted(points)[k]),
    decreases points.len(),
{
    if points.len() > 0 {
        let front = points.drop_last();
        assert(in_order(front));
        law_compacted_points_are_spaced(front);
        let before = compacted(front);
        let point = points.last();
        let out = compacted(points);
        if before.len() > 0 {
            assert(points[front.len() - 1].key() <= points[points.len() - 1].key()) by {
                assert(front.len() > 0);
            }
            assert(before.last() == front.last());
        }
        assert forall|k: int| 0 <= k < out.len() implies points.contains(#[trigger] out[k]) by {
            if out[k] == point {
                assert(points[points.len() - 1] == point);
            } else {
                assert(front.contains(before[k]));
                let m = choose|m: int| 0 <= m < front.len() && front[m] == before[k];
                assert(points[m] == out[k]);
            }
        }
        assert forall|i: int, j: int| 0 <= i < j < out.len() implies (#[trigger] out[j]).beat - (#[trigger] out[i]).beat
            > CC_POINT_MERGE_EPS by {
            if j < before.len() && out[j] == before[j] {
                assert(before[j].beat - before[i].beat > CC_POINT_MERGE_EPS);
            } else if j < before.len() {
                assert(before[j].beat - before[i].beat > CC_POINT_MERGE_EPS);
                assert(point.beat >= before.last().beat);
            } else {
                if i < before.len() - 1 {
                    assert(before[before.len() - 1].beat - before[i].beat > CC_POINT_MERGE_EPS);
                }
            }
        }
    }
}

proof fn lemma_compacting_spaced_points(points: Seq<MidiControllerPoint>)
    requires
        well_spaced(points),
    ensures
        compacted(points) == points,
    decreases points.len(),
{
    if points.len() > 0 {
        let front = points.drop_last();
        assert(well_spaced(front));
        lemma_compacting_spaced_points(front);
        if front.len() > 0 {
            assert(points[points.len() - 1].beat - points[front.len() - 1].beat > CC_POINT_MERGE_EPS);
        }
        assert(points =~= front.push(points.last()));
    } else {
        assert(compacted(points) =~= points);
    }
}

/// A lane that was compacted once stays as it is.
pub proof fn law_compacting_is_idempotent(points: Seq<MidiControllerPoint>)
    ensures
        compacted(sorted(compacted(sorted(points)))) == compacted(sorted(points)),
{
    let once = compacted(sorted(points));
    law_sorted_is_an_ordered_arrangement(points);
    law_compacted_points_are_spaced(sorted(points));
    assert(in_order(once)) by {
        assert forall|i: int, j: int| 0 <= i <= j < once.len() implies (#[trigger] once[i]).key() <= (#[trigger] once[j]).key() by {
            if i < j {
                assert(once[j].beat - once[i].beat > CC_POINT_MERGE_EPS);
            }
        }
    }
    crate::order::law_sorting_keeps_what_is_in_order(once);
    lemma_compacting_spaced_points(once);
}

/// Points outside a span that is widened by `slack` at both ends.
pub open spec fn points_outside(points: Seq<MidiControllerPoint>, lo: int, hi: int, slack: int) -> Seq<
    MidiControllerPoint,
> {
    points.filter(|p: MidiControllerPoint| p.beat < lo - slack || p.beat > hi + slack)
}

/// The points outside a widened span.
pub fn keep_outside(points: &Vec<MidiControllerPoint>, lo: i64, hi: i64, slack: i64) -> (out: Vec<MidiControllerPoint>)
    ensures
        out@ == points_outside(points@, lo as int, hi as int, slack as int),
{
    let mut out: Vec<MidiControllerPoint> = Vec::new();
    let mut i: usize = 0;
    let ghost p = |p: MidiControllerPoint| p.beat < lo - slack || p.beat > hi + slack;
    proof {
        reveal(Seq::filter);
        assert(points@.subrange(0, 0).filter(p) =~= Seq::<MidiControllerPoint>::empty());
    }
    while i < points.len()
        invariant
            i <= points@.len(),
            p == (|p: MidiControllerPoint| p.beat < lo - slack || p.beat > hi + slack),
            out@ == points@.subrange(0, i as int).filter(p),
        decreases points@.len() - i,
    {
        proof {
            lemma_filter_step(points@, i as int, p);
        }
        let b: i128 = points[i].beat as i128;
        if b < lo as i128 - slack as i128 || b > hi as i128 + slack as i128 {
            out.push(points[i]);
        }
        i = i + 1;
    }
    assert(points@.subrange(0, points@.len() as int) =~= points@);
    out
}

/// New points for a list of beats and values, with consecutive new ids.
pub open spec fn minted(edits: Seq<(i64, i64)>, next_id: u64) -> Seq<MidiControllerPoint> {
    Seq::new(
        edits.len(),
        |i: int| MidiControllerPoint { id: (next_id + i) as u64, beat: edits[i].0, value: edits[i].1 },
    )
}

/// Appends new points for `edits`.
pub fn push_minted(out: &mut Vec<MidiControllerPoint>, edits: &Vec<(i64, i64)>, next_id: u64)
    requires
        next_id + edits@.len() <= u64::MAX,
    ensures
        final(out)@ == old(out)@ + minted(edits@, next_id),
{
    let ghost before = out@;
    let mut i: usize = 0;
    assert(out@ =~= before + minted(edits@.subrange(0, 0), next_id));
    while i < edits.len()
        invariant
            next_id + edits@.len() <= u64::MAX,
            i <= edits@.len(),
            out@ == before + minted(edits@.subrange(0, i as int), next_id),
        decreases edits@.len() - i,
    {
        let (beat, value) = edits[i];
        out.push(MidiControllerPoint { id: next_id + i as u64, beat, value });
        assert(out@ =~= before + minted(edits@.subrange(0, i + 1), next_id));
        i = i + 1;
    }
    assert(edits@.subrange(0, edits@.len() as int) =~= edits@);
}

/// Distance within which a paint event clears old points.
pub open spec fn paint_reach(epsilon: int) -> int {
    max_of(epsilon, CC_POINT_MERGE_EPS as int)
}

/// Earlier end of the stretch between the first and the last edit.
pub open spec fn edits_lo(edits: Seq<(i64, i64)>) -> int {
    min_of(edits.first().0 as int, edits.last().0 as int)
}

/// Later end of the stretch between the first and the last edit.
pub open spec fn edits_hi(edits: Seq<(i64, i64)>) -> int {
    max_of(edits.first().0 as int, edits.last().0 as int)
}

/// The lane after one paint event: the stretch between the first and the last
/// edit holds the edits, or nothing when erasing.
pub open spec fn repainted(
    existing: Seq<MidiControllerPoint>,
    edits: Seq<(i64, i64)>,
    erase: bool,
    epsilon: int,
    next_id: u64,
) -> Seq<MidiControllerPoint> {
    if edits.len() == 0 {
        existing
    } else {
        let kept = points_outside(existing, edits_lo(edits), edits_hi(edits), paint_reach(epsilon));
        compacted(
            sorted(
                if erase {
                    kept
                } else {
                    kept + minted(edits, next_id)
                },
            ),
        )
    }
}

/// Replaces the stretch that one paint event covers. Dragging back over an
/// earlier stretch paints over it.
pub fn replace_cc_paint_segment(
    existing: &Vec<MidiControllerPoint>,
    edits: &Vec<(i64, i64)>,
    erase: bool,
    epsilon: i64,
    next_id: u64,
) -> (out: Vec<MidiControllerPoint>)
    requires
        next_id + edits@.len() <= u64::MAX,
    ensures
        out@ == repainted(existing@, edits@, erase, epsilon as int, next_id),
{
    if edits.len() == 0 {
        return copy_points(existing);
    }
    let first: i64 = edits[0].0;
    let last: i64 = edits[edits.len() - 1].0;
    let lo: i64 = min_i64(first, last);
    let hi: i64 = max_i64(first, last);
    let mut points = keep_outside(existing, lo, hi, max_i64(epsilon, CC_POINT_MERGE_EPS));
    if !erase {
        push_minted(&mut points, edits, next_id);
    }
    compact_cc_points(&points)
}

/// A second list of the same points.
pub fn copy_points(points: &Vec<MidiControllerPoint>) -> (out: Vec<MidiControllerPoint>)
    ensures
        out@ == points@,
{
    let mut out: Vec<MidiControllerPoint> = Vec::new();
    let mut i: usize = 0;
    while i < points.len()
        invariant
            i <= points@.len(),
            out@ == points@.subrange(0, i as int),
        decreases points@.len() - i,
    {
        out.push(points[i]);
        assert(out@ =~= points@.subrange(0, i + 1));
        i = i + 1;
    }
    assert(out@ =~= points@);
    out
}

/// `true` when both lists hold the same points in the same order.
pub fn same_points(a: &Vec<MidiControllerPoint>, b: &Vec<MidiControllerPoint>) -> (r: bool)
    ensures
        r == (a@ == b@),
{
    if a.len() != b.len() {
        return false;
    }
    let mut i: usize = 0;
    while i < a.len()
        invariant
            a@.len() == b@.len(),
            i <= a@.len(),
            forall|k: int| 0 <= k < i ==> a@[k] == b@[k],
        decreases a@.len() - i,
    {
        if a[i] != b[i] {
            return false;
        }
        i = i + 1;
    }
    assert(a@ =~= b@);
    true
}

/// What is left outside a stretch was there and lies outside it.
pub proof fn lemma_kept_point(existing: Seq<MidiControllerPoint>, lo: int, hi: int, slack: int, p: MidiControllerPoint)
    requires
        points_outside(existing, lo, hi, slack).contains(p),
    ensures
        existing.contains(p),
        p.beat < lo - slack || p.beat > hi + slack,
{
    let q = |p: MidiControllerPoint| p.beat < lo - slack || p.beat > hi + slack;
    broadcast use vstd::seq_lib::group_filter_ensures;

    let kept = existing.filter(q);
    existing.lemma_filter_contains_rev(q, p);
    let k = choose|k: int| 0 <= k < kept.len() && kept[k] == p;
    assert(q(kept[k]));
}

/// What lies outside a stretch is left there.
pub proof fn lemma_outside_is_kept(
    existing: Seq<MidiControllerPoint>,
    lo: int,
    hi: int,
    slack: int,
    p: MidiControllerPoint,
)
    requires
        existing.contains(p),
        p.beat < lo - slack || p.beat > hi + slack,
    ensures
        points_outside(existing, lo, hi, slack).contains(p),
{
    let q = |p: MidiControllerPoint| p.beat < lo - slack || p.beat > hi + slack;
    let k = choose|k: int| 0 <= k < existing.len() && existing[k] == p;
    assert(q(existing[k]));
    existing.lemma_filter_contains(q, k);
}

proof fn lemma_last_place(points: Seq<MidiControllerPoint>, p: MidiControllerPoint) -> (i: int)
    requires
        points.contains(p),
    ensures
        0 <= i < points.len(),
        points[i] == p,
        forall|j: int| i < j < points.len() ==> #[trigger] points[j] != p,
    decreases points.len(),
{
    if points.last() == p {
        points.len() - 1
    } else {
        let front = points.drop_last();
        let k = choose|k: int| 0 <= k < points.len() && points[k] == p;
        assert(front[k] == p);
        let i = lemma_last_place(front, p);
        assert forall|j: int| i < j < points.len() implies #[trigger] points[j] != p by {
            if j < front.len() {
                assert(front[j] == points[j]);
            }
        }
        i
    }
}

proof fn lemma_clear_point_survives(points: Seq<MidiControllerPoint>, i: int)
    requires
        in_order(points),
        0 <= i < points.len(),
        forall|j: int| i < j < points.len() ==> (#[trigger] points[j]).beat - points[i].beat > CC_POINT_MERGE_EPS,
    ensures
        compacted(points).contains(points[i]),
    decreases points.len(),
{
    let p = points[i];
    if i == points.len() - 1 {
        law_compacted_points_are_spaced(points);
        assert(compacted(points)[compacted(points).len() - 1] == p);
    } else {
        let front = points.drop_last();
        assert(in_order(front)) by {
            assert forall|a: int, b: int| 0 <= a < b < front.len() implies (#[trigger] front[a]).beat <= (
            #[trigger] front[b]).beat by {
                assert(points[a].beat <= points[b].beat);
            }
        }
        assert(front[i] == p);
        assert forall|j: int| i < j < front.len() implies (#[trigger] front[j]).beat - front[i].beat
            > CC_POINT_MERGE_EPS by {
            assert(points[j].beat - points[i].beat > CC_POINT_MERGE_EPS);
        }
        lemma_clear_point_survives(front, i);
        let before = compacted(front);
        let k = choose|k: int| 0 <= k < before.len() && before[k] == p;
        assert(points[points.len() - 1].beat - p.beat > CC_POINT_MERGE_EPS);
        assert(compacted(points)[k] == p);
    }
}

proof fn lemma_clear_point_stays(all: Seq<MidiControllerPoint>, m: int)
    requires
        0 <= m < all.len(),
        forall|j: int|
            0 <= j < all.len() && j != m ==> magnitude((#[trigger] all[j]).beat - all[m].beat) > CC_POINT_MERGE_EPS,
    ensures
        compacted(sorted(all)).contains(all[m]),
{
    let p = all[m];
    law_sorted_is_an_ordered_arrangement(all);
    assert(all.contains(p));
    lemma_sorted_contains(all, p);
    let s = sorted(all);
    let i = lemma_last_place(s, p);
    assert forall|j: int| i < j < s.len() implies (#[trigger] s[j]).beat - s[i].beat > CC_POINT_MERGE_EPS by {
        assert(s.contains(s[j]));
        lemma_sorted_contains(all, s[j]);
        let k = choose|k: int| 0 <= k < all.len() && all[k] == s[j];
        assert(k != m);
        assert(magnitude(all[k].beat - all[m].beat) > CC_POINT_MERGE_EPS);
        assert(s[i].beat <= s[j].beat);
    }
    lemma_clear_point_survives(s, i);
}

/// Painting and erasing leave every point alone that lies further from the stroke
/// than it reaches.
pub proof fn law_a_stroke_leaves_the_rest_alone(
    existing: Seq<MidiControllerPoint>,
    edits: Seq<(i64, i64)>,
    erase: bool,
    epsilon: int,
    next_id: u64,
    i: int,
)
    requires
        edits.len() > 0,
        forall|k: int| 0 <= k < edits.len() ==> edits_lo(edits) <= (#[trigger] edits[k]).0 <= edits_hi(edits),
        forall|a: int, b: int|
            0 <= a < existing.len() && 0 <= b < existing.len() && a != b ==> magnitude(
                (#[trigger] existing[a]).beat - (#[trigger] existing[b]).beat,
            ) > CC_POINT_MERGE_EPS,
        0 <= i < existing.len(),
        existing[i].beat < edits_lo(edits) - paint_reach(epsilon) || existing[i].beat > edits_hi(edits)
            + paint_reach(epsilon),
    ensures
        repainted(existing, edits, erase, epsilon, next_id).contains(existing[i]),
{
    let lo = edits_lo(edits);
    let hi = edits_hi(edits);
    let reach = paint_reach(epsilon);
    let p = existing[i];
    let kept = points_outside(existing, lo, hi, reach);
    let laid = minted(edits, next_id);
    let all = if erase {
        kept
    } else {
        kept + laid
    };
    assert(existing.contains(p));
    lemma_outside_is_kept(existing, lo, hi, reach, p);
    let m = choose|m: int| 0 <= m < kept.len() && kept[m] == p;
    assert(all[m] == p);
    assert forall|j: int| 0 <= j < all.len() && j != m implies magnitude((#[trigger] all[j]).beat - all[m].beat)
        > CC_POINT_MERGE_EPS by {
        if j < kept.len() {
            assert(all[j] == kept[j]);
            lemma_kept_apart(existing, lo, hi, reach, m, j);
        } else {
            assert(all[j] == laid[j - kept.len()]);
            assert(lo <= edits[j - kept.len()].0 <= hi);
        }
    }
    lemma_clear_point_stays(all, m);
}

proof fn lemma_kept_apart(existing: Seq<MidiControllerPoint>, lo: int, hi: int, slack: int, a: int, b: int)
    requires
        forall|a: int, b: int|
            0 <= a < existing.len() && 0 <= b < existing.len() && a != b ==> magnitude(
                (#[trigger] existing[a]).beat - (#[trigger] existing[b]).beat,
            ) > CC_POINT_MERGE_EPS,
        0 <= a < points_outside(existing, lo, hi, slack).len(),
        0 <= b < points_outside(existing, lo, hi, slack).len(),
        a != b,
    ensures
        magnitude(
            points_outside(existing, lo, hi, slack)[a].beat - points_outside(existing, lo, hi, slack)[b].beat,
        ) > CC_POINT_MERGE_EPS,
    decreases existing.len(),
{
    let q = |p: MidiControllerPoint| p.beat < lo - slack || p.beat > hi + slack;
    reveal(Seq::filter);
    let front = existing.drop_last();
    let kept = points_outside(existing, lo, hi, slack);
    let before = points_outside(front, lo, hi, slack);
    assert(kept == (if q(existing.last()) {
        before.push(existing.last())
    } else {
        before
    }));
    assert forall|c: int, d: int| 0 <= c < front.len() && 0 <= d < front.len() && c != d implies magnitude(
        (#[trigger] front[c]).beat - (#[trigger] front[d]).beat,
    ) > CC_POINT_MERGE_EPS by {
        assert(magnitude(existing[c].beat - existing[d].beat) > CC_POINT_MERGE_EPS);
    }
    if a < before.len() && b < before.len() {
        lemma_kept_apart(front, lo, hi, slack, a, b);
    } else {
        let other = if a < before.len() {
            a
        } else {
            b
        };
        assert(before.contains(before[other]));
        lemma_kept_point(front, lo, hi, slack, before[other]);
        let k = choose|k: int| 0 <= k < front.len() && front[k] == before[other];
        assert(existing[k] == front[k]);
        assert(magnitude(existing[k].beat - existing[existing.len() - 1].beat) > CC_POINT_MERGE_EPS);
        assert(magnitude(existing[existing.len() - 1].beat - existing[k].beat) > CC_POINT_MERGE_EPS);
    }
}

/// Painting lays down every point of a stroke whose points are apart.
pub proof fn law_a_stroke_lays_its_points(
    existing: Seq<MidiControllerPoint>,
    edits: Seq<(i64, i64)>,
    epsilon: int,
    next_id: u64,
    k: int,
)
    requires
        forall|c: int| 0 <= c < edits.len() ==> edits_lo(edits) <= (#[trigger] edits[c]).0 <= edits_hi(edits),
        forall|a: int, b: int|
            0 <= a < edits.len() && 0 <= b < edits.len() && a != b ==> magnitude(
                (#[trigger] edits[a]).0 - (#[trigger] edits[b]).0,
            ) > CC_POINT_MERGE_EPS,
        0 <= k < edits.len(),
    ensures
        repainted(existing, edits, false, epsilon, next_id).contains(
            MidiControllerPoint { id: (next_id + k) as u64, beat: edits[k].0, value: edits[k].1 },
        ),
{
    let lo = edits_lo(edits);
    let hi = edits_hi(edits);
    let reach = paint_reach(epsilon);
    let kept = points_outside(existing, lo, hi, reach);
    let laid = minted(edits, next_id);
    let all = kept + laid;
    let m = kept.len() + k;
    assert(all[m] == laid[k]);
    assert(lo <= edits[k].0 <= hi);
    assert forall|j: int| 0 <= j < all.len() && j != m implies magnitude((#[trigger] all[j]).beat - all[m].beat)
        > CC_POINT_MERGE_EPS by {
        if j < kept.len() {
            assert(all[j] == kept[j]);
            assert(kept.contains(kept[j]));
            lemma_kept_point(existing, lo, hi, reach, kept[j]);
        } else {
            assert(all[j] == laid[j - kept.len()]);
            assert(magnitude(edits[j - kept.len()].0 - edits[k].0) > CC_POINT_MERGE_EPS);
        }
    }
    lemma_clear_point_stays(all, m);
}

/// Erasing leaves no point on the stretch it passed over, and adds none.
pub proof fn law_erase_clears_the_stretch(
    existing: Seq<MidiControllerPoint>,
    edits: Seq<(i64, i64)>,
    epsilon: int,
    next_id: u64,
    p: MidiControllerPoint,
)
    requires
        edits.len() > 0,
        repainted(existing, edits, true, epsilon, next_id).contains(p),
    ensures
        existing.contains(p),
        p.beat < edits_lo(edits) - paint_reach(epsilon) || p.beat > edits_hi(edits) + paint_reach(epsilon),
{
    let kept = points_outside(existing, edits_lo(edits), edits_hi(edits), paint_reach(epsilon));
    law_sorted_is_an_ordered_arrangement(kept);
    law_compacted_points_are_spaced(sorted(kept));
    let out = compacted(sorted(kept));
    let k = choose|k: int| 0 <= k < out.len() && out[k] == p;
    assert(sorted(kept).contains(out[k]));
    lemma_sorted_contains(kept, p);
    lemma_kept_point(existing, edits_lo(edits), edits_hi(edits), paint_reach(epsilon), p);
}

/// After painting, every point on the stretch that was passed over is one that
/// the stroke laid down.
pub proof fn law_paint_replaces_the_stretch(
    existing: Seq<MidiControllerPoint>,
    edits: Seq<(i64, i64)>,
    epsilon: int,
    next_id: u64,
    p: MidiControllerPoint,
)
    requires
        edits.len() > 0,
        repainted(existing, edits, false, epsilon, next_id).contains(p),
        edits_lo(edits) - paint_reach(epsilon) <= p.beat <= edits_hi(edits) + paint_reach(epsilon),
    ensures
        minted(edits, next_id).contains(p),
{
    let kept = points_outside(existing, edits_lo(edits), edits_hi(edits), paint_reach(epsilon));
    let all = kept + minted(edits, next_id);
    law_sorted_is_an_ordered_arrangement(all);
    law_compacted_points_are_spaced(sorted(all));
    let out = compacted(sorted(all));
    let k = choose|k: int| 0 <= k < out.len() && out[k] == p;
    assert(sorted(all).contains(out[k]));
    lemma_sorted_contains(all, p);
    let m = choose|m: int| 0 <= m < all.len() && all[m] == p;
    if m < kept.len() {
        assert(kept[m] == p);
        lemma_kept_point(existing, edits_lo(edits), edits_hi(edits), paint_reach(epsilon), p);
    } else {
        assert(minted(edits, next_id)[m - kept.len()] == p);
    }
}

/// A paint event without edits leaves the lane alone; any other leaves a lane
/// in order, with its points further apart than the merge distance.
pub proof fn law_painted_lane_is_spaced(
    existing: Seq<MidiControllerPoint>,
    edits: Seq<(i64, i64)>,
    erase: bool,
    epsilon: int,
    next_id: u64,
)
    ensures
        edits.len() == 0 ==> repainted(existing, edits, erase, epsilon, next_id) == existing,
        edits.len() > 0 ==> in_order(repainted(existing, edits, erase, epsilon, next_id)) && well_spaced(
            repainted(existing, edits, erase, epsilon, next_id),
        ),
{
    if edits.len() > 0 {
        let kept = points_outside(existing, edits_lo(edits), edits_hi(edits), paint_reach(epsilon));
        let all = if erase {
            kept
        } else {
            kept + minted(edits, next_id)
        };
        law_sorted_is_an_ordered_arrangement(all);
        law_compacted_points_are_spaced(sorted(all));
        let out = repainted(existing, edits, erase, epsilon, next_id);
        assert forall|i: int, j: int| 0 <= i <= j < out.len() implies (#[trigger] out[i]).key() <= (#[trigger] out[j]).key() by {
            if i < j {
                assert(out[j].beat - out[i].beat > CC_POINT_MERGE_EPS);
            }
        }
    }
}

/// New points have ids from `next_id` on, so while every old id is lower no old
/// point of the stretch that was passed over is left in the lane.
pub proof fn law_no_old_point_is_left_in_the_stretch(
    existing: Seq<MidiControllerPoint>,
    edits: Seq<(i64, i64)>,
    erase: bool,
    epsilon: int,
    next_id: u64,
    p: MidiControllerPoint,
)
    requires
        edits.len() > 0,
        next_id + edits.len() <= u64::MAX,
        forall|i: int| 0 <= i < existing.len() ==> (#[trigger] existing[i]).id < next_id,
        existing.contains(p),
        edits_lo(edits) - paint_reach(epsilon) <= p.beat <= edits_hi(edits) + paint_reach(epsilon),
    ensures
        !repainted(existing, edits, erase, epsilon, next_id).contains(p),
{
    let i = choose|i: int| 0 <= i < existing.len() && existing[i] == p;
    assert(existing[i].id < next_id);
    if repainted(existing, edits, erase, epsilon, next_id).contains(p) {
        if erase {
            law_erase_clears_the_stretch(existing, edits, epsilon, next_id, p);
        } else {
            law_paint_replaces_the_stretch(existing, edits, epsilon, next_id, p);
            let m = choose|m: int| 0 <= m < edits.len() && minted(edits, next_id)[m] == p;
            assert(p.id == next_id + m);
        }
    }
}

/// Beats and values of points, without their ids.
pub open spec fn beats_and_values(points: Seq<MidiControllerPoint>) -> Seq<(i64, i64)> {
    points.map_values(|p: MidiControllerPoint| (p.beat, p.value))
}

proof fn lemma_alike(s: Seq<MidiControllerPoint>, t: Seq<MidiControllerPoint>)
    ensures
        beats_and_values(s) == beats_and_values(t) <==> s.len() == t.len() && forall|i: int|
            0 <= i < s.len() ==> (#[trigger] s[i]).beat == (#[trigger] t[i]).beat && s[i].value == t[i].value,
{
    if beats_and_values(s) == beats_and_values(t) {
        assert(beats_and_values(s).len() == beats_and_values(t).len());
        assert forall|i: int| 0 <= i < s.len() implies (#[trigger] s[i]).beat == (#[trigger] t[i]).beat && s[i].value
            == t[i].value by {
            assert(beats_and_values(s)[i] == beats_and_values(t)[i]);
        }
    } else if s.len() == t.len() && forall|i: int|
        0 <= i < s.len() ==> (#[trigger] s[i]).beat == (#[trigger] t[i]).beat && s[i].value == t[i].value {
        assert(beats_and_values(s) =~= beats_and_values(t));
    }
}

/// Where a point is put does not depend on ids.
proof fn lemma_placed_alike(
    s: Seq<MidiControllerPoint>,
    t: Seq<MidiControllerPoint>,
    a: MidiControllerPoint,
    b: MidiControllerPoint,
)
    requires
        beats_and_values(s) == beats_and_values(t),
        a.beat == b.beat,
        a.value == b.value,
    ensures
        beats_and_values(placed(s, a)) == beats_and_values(placed(t, b)),
    decreases s.len(),
{
    lemma_alike(s, t);
    if s.len() > 0 {
        let front = s.drop_last();
        let other = t.drop_last();
        lemma_alike(front, other);
        assert(s[s.len() - 1].beat == t[s.len() - 1].beat);
        if s.last().key() > a.key() {
            lemma_placed_alike(front, other, a, b);
            lemma_alike(placed(front, a), placed(other, b));
        }
    }
    lemma_alike(placed(s, a), placed(t, b));
}

/// The order that points are sorted into does not depend on ids.
proof fn lemma_sorted_alike(s: Seq<MidiControllerPoint>, t: Seq<MidiControllerPoint>)
    requires
        beats_and_values(s) == beats_and_values(t),
    ensures
        beats_and_values(sorted(s)) == beats_and_values(sorted(t)),
    decreases s.len(),
{
    lemma_alike(s, t);
    if s.len() > 0 {
        lemma_alike(s.drop_last(), t.drop_last());
        lemma_sorted_alike(s.drop_last(), t.drop_last());
        assert(s[s.len() - 1].beat == t[s.len() - 1].beat);
        lemma_placed_alike(sorted(s.drop_last()), sorted(t.drop_last()), s.last(), t.last());
    }
}

/// Which points compacting keeps does not depend on ids.
proof fn lemma_compacted_alike(s: Seq<MidiControllerPoint>, t: Seq<MidiControllerPoint>)
    requires
        beats_and_values(s) == beats_and_values(t),
    ensures
        beats_and_values(compacted(s)) == beats_and_values(compacted(t)),
    decreases s.len(),
{
    lemma_alike(s, t);
    if s.len() > 0 {
        lemma_alike(s.drop_last(), t.drop_last());
        lemma_compacted_alike(s.drop_last(), t.drop_last());
        let a = compacted(s.drop_last());
        let b = compacted(t.drop_last());
        lemma_alike(a, b);
        assert(s[s.len() - 1].beat == t[s.len() - 1].beat);
        if a.len() > 0 {
            assert(a[a.len() - 1].beat == b[a.len() - 1].beat);
        }
        lemma_alike(compacted(s), compacted(t));
    }
}

/// A stroke paints the same lane from either end: edits at beats that all
/// differ leave the same beats and values when they come the other way round.
pub proof fn law_strokes_paint_alike_both_ways(
    existing: Seq<MidiControllerPoint>,
    edits: Seq<(i64, i64)>,
    erase: bool,
    epsilon: int,
    next_id: u64,
)
    requires
        forall|i: int, j: int| 0 <= i < j < edits.len() ==> (#[trigger] edits[i]).0 != (#[trigger] edits[j]).0,
    ensures
        beats_and_values(repainted(existing, edits.reverse(), erase, epsilon, next_id)) == beats_and_values(
            repainted(existing, edits, erase, epsilon, next_id),
        ),
{
    let back = edits.reverse();
    if edits.len() > 0 {
        assert(back.first() == edits.last() && back.last() == edits.first());
        if !erase {
            let kept = points_outside(existing, edits_lo(edits), edits_hi(edits), paint_reach(epsilon));
            let there = minted(edits, next_id);
            assert forall|i: int, j: int| 0 <= i < j < there.len() implies (#[trigger] there[i]).key() != (
            #[trigger] there[j]).key() by {
                assert(edits[i].0 != edits[j].0);
            }
            law_sorting_takes_distinct_items_either_way(kept, there);
            let turned = kept + there.reverse();
            let minted_back = kept + minted(back, next_id);
            assert forall|i: int| 0 <= i < turned.len() implies (#[trigger] turned[i]).beat == (
            #[trigger] minted_back[i]).beat && turned[i].value == minted_back[i].value by {
                if i >= kept.len() {
                    assert(turned[i] == there[there.len() - 1 - (i - kept.len())]);
                }
            }
            lemma_alike(turned, minted_back);
            lemma_sorted_alike(turned, minted_back);
            lemma_compacted_alike(sorted(turned), sorted(minted_back));
        }
    } else {
        assert(back =~= edits);
    }
}

/// What a paint event does to a lane. Without edits it leaves the lane alone.
/// With some, no old point of the stretch between the first and the last edit is
/// left; edits at beats that all differ leave the same beats and values the
/// other way round; erasing leaves old points outside the stretch and nothing
/// else; and the lane is in order, its points further apart than the merge
/// distance.
pub proof fn law_a_paint_event_owns_its_stretch(
    existing: Seq<MidiControllerPoint>,
    edits: Seq<(i64, i64)>,
    erase: bool,
    epsilon: int,
    next_id: u64,
)
    requires
        next_id + edits.len() <= u64::MAX,
        forall|i: int| 0 <= i < existing.len() ==> (#[trigger] existing[i]).id < next_id,
    ensures
        ({
            let out = repainted(existing, edits, erase, epsilon, next_id);
            let lo = edits_lo(edits) - paint_reach(epsilon);
            let hi = edits_hi(edits) + paint_reach(epsilon);
            if edits.len() == 0 {
                out == existing
            } else {
                &&& forall|i: int|
                    0 <= i < existing.len() && lo <= (#[trigger] existing[i]).beat <= hi ==> !out.contains(existing[i])
                &&& (forall|i: int, j: int|
                    0 <= i < j < edits.len() ==> (#[trigger] edits[i]).0 != (#[trigger] edits[j]).0) ==> beats_and_values(
                    repainted(existing, edits.reverse(), erase, epsilon, next_id),
                ) == beats_and_values(out)
                &&& erase ==> forall|i: int|
                    0 <= i < out.len() ==> existing.contains(#[trigger] out[i]) && (out[i].beat < lo || out[i].beat > hi)
                &&& in_order(out)
                &&& well_spaced(out)
            }
        }),
{
    law_painted_lane_is_spaced(existing, edits, erase, epsilon, next_id);
    if edits.len() > 0 {
        let out = repainted(existing, edits, erase, epsilon, next_id);
        let lo = edits_lo(edits) - paint_reach(epsilon);
        let hi = edits_hi(edits) + paint_reach(epsilon);
        assert forall|i: int| 0 <= i < existing.len() && lo <= (#[trigger] existing[i]).beat <= hi implies !out.contains(
            existing[i],
        ) by {
            law_no_old_point_is_left_in_the_stretch(existing, edits, erase, epsilon, next_id, existing[i]);
        }
        if forall|i: int, j: int| 0 <= i < j < edits.len() ==> (#[trigger] edits[i]).0 != (#[trigger] edits[j]).0 {
            law_strokes_paint_alike_both_ways(existing, edits, erase, epsilon, next_id);
        }
        if erase {
            assert forall|i: int| 0 <= i < out.len() implies existing.contains(#[trigger] out[i]) && (out[i].beat < lo
                || out[i].beat > hi) by {
                law_erase_clears_the_stretch(existing, edits, epsilon, next_id, out[i]);
            }
        }
    }
}

/// Points whose id is in the set.
pub open spec fn points_in(points: Seq<MidiControllerPoint>, ids: Set<u64>) -> Seq<MidiControllerPoint> {
    points.filter(|p: MidiControllerPoint| ids.contains(p.id))
}

/// Points whose id is not in the set.
pub open spec fn points_out(points: Seq<MidiControllerPoint>, ids: Set<u64>) -> Seq<MidiControllerPoint> {
    points.filter(|p: MidiControllerPoint| !ids.contains(p.id))
}

/// The points whose id is in `ids`.
pub fn select_points(points: &Vec<MidiControllerPoint>, ids: &IdSet) -> (out: Vec<MidiControllerPoint>)
    ensures
        out@ == points_in(points@, ids@),
{
    let mut out: Vec<MidiControllerPoint> = Vec::new();
    let mut i: usize = 0;
    let ghost p = |p: MidiControllerPoint| ids@.contains(p.id);
    proof {
        reveal(Seq::filter);
        assert(points@.subrange(0, 0).filter(p) =~= Seq::<MidiControllerPoint>::empty());
    }
    while i < points.len()
        invariant
            i <= points@.len(),
            p == (|p: MidiControllerPoint| ids@.contains(p.id)),
            out@ == points@.subrange(0, i as int).filter(p),
        decreases points@.len() - i,
    {
        proof {
            lemma_filter_step(points@, i as int, p);
        }
        if ids.contains(points[i].id) {
            out.push(points[i]);
        }
        i = i + 1;
    }
    assert(points@.subrange(0, points@.len() as int) =~= points@);
    out
}

/// The points without those whose id is in `ids`.
pub fn drop_points(points: &Vec<MidiControllerPoint>, ids: &IdSet) -> (out: Vec<MidiControllerPoint>)
    ensures
        out@ == points_out(points@, ids@),
{
    let mut out: Vec<MidiControllerPoint> = Vec::new();
    let mut i: usize = 0;
    let ghost p = |p: MidiControllerPoint| !ids@.contains(p.id);
    proof {
        reveal(Seq::filter);
        assert(points@.subrange(0, 0).filter(p) =~= Seq::<MidiControllerPoint>::empty());
    }
    while i < points.len()
        invariant
            i <= points@.len(),
            p == (|p: MidiControllerPoint| !ids@.contains(p.id)),
            out@ == points@.subrange(0, i as int).filter(p),
        decreases points@.len() - i,
    {
        proof {
            lemma_filter_step(points@, i as int, p);
        }
        if !ids.contains(points[i].id) {
            out.push(points[i]);
        }
        i = i + 1;
    }
    assert(points@.subrange(0, points@.len() as int) =~= points@);
    out
}

/// Beats and values of points, moved by `offset` ticks.
pub open spec fn shifted(points: Seq<MidiControllerPoint>, offset: int) -> Seq<(i64, i64)> {
    points.map_values(|p: MidiControllerPoint| ((p.beat + offset) as i64, p.value))
}

/// The lane with copies of the chosen points, `offset` ticks further on.
pub open spec fn with_copies(points: Seq<MidiControllerPoint>, ids: Set<u64>, offset: int, next_id: u64) -> Seq<
    MidiControllerPoint,
> {
    sorted(points + minted(shifted(points_in(points, ids), offset), next_id))
}

/// Copies the chosen points `offset` ticks further on, under new ids from
/// `next_id`, and returns the lane with how many points were copied.
pub fn duplicate_points(points: &Vec<MidiControllerPoint>, ids: &IdSet, offset: i64, next_id: u64) -> (r: (
    Vec<MidiControllerPoint>,
    u64,
))
    requires
        next_id + points@.len() <= u64::MAX,
        0 <= offset <= POSITION_LIMIT,
        forall|i: int| 0 <= i < points@.len() ==> on_axis((#[trigger] points@[i]).beat as int),
    ensures
        r.0@ == with_copies(points@, ids@, offset as int, next_id),
        r.1 == points_in(points@, ids@).len(),
{
    let chosen = select_points(points, ids);
    proof {
        let q = |p: MidiControllerPoint| ids@.contains(p.id);
        broadcast use vstd::seq_lib::group_filter_ensures;

        points@.lemma_filter_len(q);
        assert forall|i: int| 0 <= i < chosen@.len() implies on_axis((#[trigger] chosen@[i]).beat as int) by {
            assert(chosen@.contains(chosen@[i]));
            points@.lemma_filter_contains_rev(q, chosen@[i]);
            let k = choose|k: int| 0 <= k < points@.len() && points@[k] == chosen@[i];
            assert(on_axis(points@[k].beat as int));
        }
    }
    let mut copies: Vec<(i64, i64)> = Vec::new();
    let mut i: usize = 0;
    while i < chosen.len()
        invariant
            i <= chosen@.len(),
            0 <= offset <= POSITION_LIMIT,
            forall|k: int| 0 <= k < chosen@.len() ==> on_axis((#[trigger] chosen@[k]).beat as int),
            copies@.len() == i,
            forall|k: int|
                0 <= k < i ==> #[trigger] copies@[k] == ((chosen@[k].beat + offset) as i64, chosen@[k].value),
        decreases chosen@.len() - i,
    {
        assert(on_axis(chosen@[i as int].beat as int));
        copies.push((chosen[i].beat + offset, chosen[i].value));
        i = i + 1;
    }
    assert(copies@ =~= shifted(chosen@, offset as int));
    let mut all = copy_points(points);
    push_minted(&mut all, &copies, next_id);
    (stable_sort(&all), copies.len() as u64)
}

/// Duplicating keeps every point and adds, for each chosen one, a point with its
/// value, later by the given time; the lane stays in order.
pub proof fn law_duplicated_points_follow(
    points: Seq<MidiControllerPoint>,
    ids: Set<u64>,
    offset: int,
    next_id: u64,
    i: int,
)
    requires
        0 <= i < points.len(),
        i64::MIN <= points[i].beat + offset <= i64::MAX,
    ensures
        in_order(with_copies(points, ids, offset, next_id)),
        with_copies(points, ids, offset, next_id).contains(points[i]),
        ids.contains(points[i].id) ==> exists|k: int|
            0 <= k < with_copies(points, ids, offset, next_id).len() && (#[trigger] with_copies(
                points,
                ids,
                offset,
                next_id,
            )[k]).beat == points[i].beat + offset && with_copies(points, ids, offset, next_id)[k].value
                == points[i].value,
        with_copies(points, ids, offset, next_id).len() == points.len() + points_in(points, ids).len(),
{
    let picked = points_in(points, ids);
    let copies = minted(shifted(picked, offset), next_id);
    let all = points + copies;
    let out = with_copies(points, ids, offset, next_id);
    law_sorted_is_an_ordered_arrangement(all);
    assert(all[i] == points[i]);
    assert(all.contains(points[i]));
    lemma_sorted_contains(all, points[i]);
    if ids.contains(points[i].id) {
        let q = |p: MidiControllerPoint| ids.contains(p.id);
        assert(q(points[i]));
        points.lemma_filter_contains(q, i);
        assert(picked.contains(points[i]));
        let j = choose|j: int| 0 <= j < picked.len() && picked[j] == points[i];
        let c = copies[j];
        assert(all[points.len() + j] == c);
        assert(all.contains(c));
        lemma_sorted_contains(all, c);
        let k = choose|k: int| 0 <= k < out.len() && out[k] == c;
        assert(out[k].beat == points[i].beat + offset);
    }
}

} // verus!
