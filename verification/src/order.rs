//! Stable sorting by a whole-number key.

use crate::midi::{MidiArticulationEvent, MidiControllerPoint, MidiNote};
use vstd::prelude::*;

verus! {

/// Items that sort by a whole number.
pub trait Keyed: Copy {
    /// The number that the item sorts by.
    spec fn key(self) -> int;

    /// The number that the item sorts by.
    fn sort_key(&self) -> (k: i128)
        ensures
            k == self.key(),
    ;
}

/// Notes sort by start, then by id.
impl Keyed for MidiNote {
    open spec fn key(self) -> int {
        self.start * 0x1_0000_0000_0000_0000 + self.id
    }

    fn sort_key(&self) -> (k: i128) {
        self.start as i128 * 0x1_0000_0000_0000_0000 + self.id as i128
    }
}

/// Controller points sort by beat.
impl Keyed for MidiControllerPoint {
    open spec fn key(self) -> int {
        self.beat as int
    }

    fn sort_key(&self) -> (k: i128) {
        self.beat as i128
    }
}

/// Articulations sort by beat.
impl Keyed for MidiArticulationEvent {
    open spec fn key(self) -> int {
        self.beat as int
    }

    fn sort_key(&self) -> (k: i128) {
        self.beat as i128
    }
}

/// `a` put into `s` behind every item that does not sort after it.
pub open spec fn placed<T: Keyed>(s: Seq<T>, a: T) -> Seq<T>
    decreases s.len(),
{
    if s.len() == 0 || s.last().key() <= a.key() {
        s.push(a)
    } else {
        placed(s.drop_last(), a).push(s.last())
    }
}

/// The items in ascending order of their keys; items with one key keep their
/// order.
pub open spec fn sorted<T: Keyed>(s: Seq<T>) -> Seq<T>
    decreases s.len(),
{
    if s.len() == 0 {
        Seq::empty()
    } else {
        placed(sorted(s.drop_last()), s.last())
    }
}

/// Keys never fall along the sequence.
pub open spec fn in_order<T: Keyed>(s: Seq<T>) -> bool {
    forall|i: int, j: int| 0 <= i <= j < s.len() ==> (#[trigger] s[i]).key() <= (#[trigger] s[j]).key()
}

proof fn lemma_placed<T: Keyed>(s: Seq<T>, a: T)
    requires
        in_order(s),
    ensures
        in_order(placed(s, a)),
        placed(s, a).len() == s.len() + 1,
        placed(s, a).to_multiset() == s.to_multiset().insert(a),
        forall|k: int| 0 <= k < placed(s, a).len() ==> #[trigger] placed(s, a)[k] == a || s.contains(placed(s, a)[k]),
    decreases s.len(),
{
    broadcast use vstd::seq_lib::group_to_multiset_ensures;

    let r = placed(s, a);
    if s.len() == 0 || s.last().key() <= a.key() {
        assert forall|k: int| 0 <= k < r.len() implies #[trigger] r[k] == a || s.contains(r[k]) by {
            if k < s.len() {
                assert(s[k] == r[k]);
            }
        }
        assert forall|i: int, j: int| 0 <= i <= j < r.len() implies (#[trigger] r[i]).key() <= (#[trigger] r[j]).key() by {
            if j == s.len() && i < s.len() {
                assert(s[i].key() <= s[s.len() - 1].key());
            }
        }
    } else {
        let front = s.drop_last();
        lemma_placed(front, a);
        let p = placed(front, a);
        assert(s =~= front.push(s.last()));
        assert(s.to_multiset() == front.to_multiset().insert(s.last()));
        assert(r.to_multiset() == p.to_multiset().insert(s.last()));
        assert(front.to_multiset().insert(a).insert(s.last()) =~= front.to_multiset().insert(s.last()).insert(a));
        assert forall|k: int| 0 <= k < r.len() implies #[trigger] r[k] == a || s.contains(r[k]) by {
            if k < p.len() {
                assert(p[k] == r[k]);
                if r[k] != a {
                    let j = choose|j: int| 0 <= j < front.len() && front[j] == p[k];
                    assert(s[j] == r[k]);
                }
            } else {
                assert(s[s.len() - 1] == r[k]);
            }
        }
        assert forall|i: int, j: int| 0 <= i <= j < r.len() implies (#[trigger] r[i]).key() <= (#[trigger] r[j]).key() by {
            if j < p.len() {
                assert(p[i].key() <= p[j].key());
            } else if i < p.len() {
                assert(p[i] == r[i]);
                if p[i] != a {
                    let m = choose|m: int| 0 <= m < front.len() && front[m] == p[i];
                    assert(s[m].key() <= s[s.len() - 1].key());
                }
            }
        }
    }
}

/// Sorting gives an ascending arrangement of the same items.
pub proof fn law_sorted_is_an_ordered_arrangement<T: Keyed>(s: Seq<T>)
    ensures
        in_order(sorted(s)),
        sorted(s).len() == s.len(),
        sorted(s).to_multiset() == s.to_multiset(),
    decreases s.len(),
{
    broadcast use vstd::seq_lib::group_to_multiset_ensures;

    if s.len() > 0 {
        law_sorted_is_an_ordered_arrangement(s.drop_last());
        lemma_placed(sorted(s.drop_last()), s.last());
        assert(s =~= s.drop_last().push(s.last()));
    } else {
        assert(s =~= Seq::<T>::empty());
    }
}

/// A sequence that is in order already stays as it is.
pub proof fn law_sorting_keeps_what_is_in_order<T: Keyed>(s: Seq<T>)
    requires
        in_order(s),
    ensures
        sorted(s) == s,
    decreases s.len(),
{
    if s.len() > 0 {
        let front = s.drop_last();
        assert(in_order(front));
        law_sorting_keeps_what_is_in_order(front);
        if front.len() > 0 {
            assert(s[front.len() - 1].key() <= s[s.len() - 1].key());
        }
        assert(s =~= front.push(s.last()));
    } else {
        assert(sorted(s) =~= s);
    }
}

/// Members of a sorted sequence are the members of the sequence.
pub proof fn lemma_sorted_contains<T: Keyed>(s: Seq<T>, a: T)
    ensures
        sorted(s).contains(a) <==> s.contains(a),
{
    broadcast use vstd::seq_lib::group_to_multiset_ensures;

    law_sorted_is_an_ordered_arrangement(s);
    assert(sorted(s).contains(a) <==> sorted(s).to_multiset().count(a) > 0);
    assert(s.contains(a) <==> s.to_multiset().count(a) > 0);
}

/// Two items with different keys may be put in in either order.
proof fn lemma_placed_commutes<T: Keyed>(s: Seq<T>, a: T, b: T)
    requires
        a.key() != b.key(),
    ensures
        placed(placed(s, a), b) == placed(placed(s, b), a),
    decreases s.len(),
{
    if s.len() == 0 || (s.last().key() <= a.key() && s.last().key() <= b.key()) {
        assert(s.push(a).drop_last() =~= s);
        assert(s.push(b).drop_last() =~= s);
    } else {
        let front = s.drop_last();
        lemma_placed_commutes(front, a, b);
        assert(placed(front, a).push(s.last()).drop_last() =~= placed(front, a));
        assert(placed(front, b).push(s.last()).drop_last() =~= placed(front, b));
        assert(s.push(a).drop_last() =~= s);
        assert(s.push(b).drop_last() =~= s);
    }
}

/// An item whose key no later item has may as well come last.
proof fn lemma_sorted_takes_last<T: Keyed>(x: Seq<T>, a: T, t: Seq<T>)
    requires
        forall|i: int| 0 <= i < t.len() ==> (#[trigger] t[i]).key() != a.key(),
    ensures
        sorted(x.push(a) + t) == placed(sorted(x + t), a),
    decreases t.len(),
{
    if t.len() == 0 {
        assert(x.push(a) + t =~= x.push(a));
        assert(x + t =~= x);
        assert(x.push(a).drop_last() =~= x);
    } else {
        let front = t.drop_last();
        assert forall|i: int| 0 <= i < front.len() implies (#[trigger] front[i]).key() != a.key() by {
            assert(t[i].key() != a.key());
        }
        lemma_sorted_takes_last(x, a, front);
        assert((x.push(a) + t).drop_last() =~= x.push(a) + front);
        assert((x + t).drop_last() =~= x + front);
        assert(t[t.len() - 1].key() != a.key());
        lemma_placed_commutes(sorted(x + front), a, t.last());
    }
}

/// Items whose keys all differ sort the same way from either end.
pub proof fn law_sorting_takes_distinct_items_either_way<T: Keyed>(x: Seq<T>, t: Seq<T>)
    requires
        forall|i: int, j: int| 0 <= i < j < t.len() ==> (#[trigger] t[i]).key() != (#[trigger] t[j]).key(),
    ensures
        sorted(x + t.reverse()) == sorted(x + t),
    decreases t.len(),
{
    if t.len() == 0 {
        assert(t.reverse() =~= t);
    } else {
        let front = t.drop_last();
        assert forall|i: int, j: int| 0 <= i < j < front.len() implies (#[trigger] front[i]).key() != (
        #[trigger] front[j]).key() by {
            assert(t[i].key() != t[j].key());
        }
        law_sorting_takes_distinct_items_either_way(x, front);
        let back = front.reverse();
        assert(x + t.reverse() =~= x.push(t.last()) + back);
        assert forall|i: int| 0 <= i < back.len() implies (#[trigger] back[i]).key() != t.last().key() by {
            assert(t[front.len() - 1 - i].key() != t[t.len() - 1].key());
        }
        lemma_sorted_takes_last(x, t.last(), back);
        assert((x + t).drop_last() =~= x + front);
    }
}

proof fn lemma_placed_at<T: Keyed>(s: Seq<T>, a: T, p: int)
    requires
        0 <= p <= s.len(),
        p > 0 ==> s[p - 1].key() <= a.key(),
        forall|k: int| p <= k < s.len() ==> (#[trigger] s[k]).key() > a.key(),
    ensures
        placed(s, a) == s.insert(p, a),
    decreases s.len(),
{
    if p == s.len() {
        assert(s.insert(p, a) =~= s.push(a));
    } else {
        assert(s[s.len() - 1].key() > a.key());
        lemma_placed_at(s.drop_last(), a, p);
        assert(s.insert(p, a) =~= s.drop_last().insert(p, a).push(s.last()));
    }
}

fn place<T: Keyed>(out: &mut Vec<T>, a: T)
    ensures
        final(out)@ == placed(old(out)@, a),
{
    let mut p: usize = out.len();
    let k: i128 = a.sort_key();
    while p > 0 && out[p - 1].sort_key() > k
        invariant
            p <= out@.len(),
            k == a.key(),
            forall|j: int| p <= j < out@.len() ==> (#[trigger] out@[j]).key() > k,
        decreases p,
    {
        p = p - 1;
    }
    proof {
        lemma_placed_at(out@, a, p as int);
    }
    out.insert(p, a);
}

/// Sorts by key, keeping the order of items with one key.
pub fn stable_sort<T: Keyed>(items: &Vec<T>) -> (out: Vec<T>)
    ensures
        out@ == sorted(items@),
{
    let mut out: Vec<T> = Vec::new();
    let mut i: usize = 0;
    assert(sorted(items@.subrange(0, 0)) =~= Seq::<T>::empty());
    while i < items.len()
        invariant
            i <= items@.len(),
            out@ == sorted(items@.subrange(0, i as int)),
        decreases items@.len() - i,
    {
        place(&mut out, items[i]);
        assert(items@.subrange(0, i + 1).drop_last() =~= items@.subrange(0, i as int));
        i = i + 1;
    }
    assert(items@.subrange(0, items@.len() as int) =~= items@);
    out
}

} // verus!
