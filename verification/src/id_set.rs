//! Sets of note and point ids.

use vstd::prelude::*;

verus! {

/// `s` is strictly ascending.
pub open spec fn ascending(s: Seq<u64>) -> bool {
    forall|i: int, j: int| 0 <= i < j < s.len() ==> s[i] < s[j]
}

proof fn lemma_ascending_no_duplicates(s: Seq<u64>)
    requires
        ascending(s),
    ensures
        s.no_duplicates(),
{
    assert forall|i: int, j: int| 0 <= i < s.len() && 0 <= j < s.len() && i != j implies s[i] != s[j] by {
        if i < j {
            assert(s[i] < s[j]);
        } else {
            assert(s[j] < s[i]);
        }
    }
}

/// A set of ids that lists its members in ascending order.
#[derive(Debug)]
pub struct IdSet {
    ids: Vec<u64>,
}

impl View for IdSet {
    type V = Set<u64>;

    closed spec fn view(&self) -> Set<u64> {
        self.ids@.to_set()
    }
}

impl IdSet {
    #[verifier::type_invariant]
    spec fn in_order(self) -> bool {
        ascending(self.ids@)
    }

    /// The members in ascending order.
    pub closed spec fn listed(self) -> Seq<u64> {
        self.ids@
    }

    /// The empty set.
    pub fn new() -> (s: IdSet)
        ensures
            s@ == Set::<u64>::empty(),
    {
        let ids: Vec<u64> = Vec::new();
        assert(ids@.to_set() =~= Set::<u64>::empty());
        IdSet { ids }
    }

    /// The set with the one member `id`.
    pub fn single(id: u64) -> (s: IdSet)
        ensures
            s@ == set![id],
    {
        let mut s = IdSet::new();
        s.insert(id);
        assert(s@ =~= set![id]);
        s
    }

    /// The set of the ids in `list`.
    pub fn from_ids(list: &Vec<u64>) -> (s: IdSet)
        ensures
            s@ == list@.to_set(),
    {
        let mut s = IdSet::new();
        let mut i: usize = 0;
        assert(list@.subrange(0, 0).to_set() =~= Set::<u64>::empty());
        while i < list.len()
            invariant
                i <= list@.len(),
                s@ == list@.subrange(0, i as int).to_set(),
            decreases list@.len() - i,
        {
            s.insert(list[i]);
            proof {
                let before = list@.subrange(0, i as int);
                let after = list@.subrange(0, i + 1);
                assert(after =~= before.push(list@[i as int]));
                assert forall|x: u64| #[trigger] after.to_set().contains(x) <==> before.to_set().insert(
                    list@[i as int],
                ).contains(x) by {
                    if before.contains(x) {
                        let k = choose|k: int| 0 <= k < before.len() && before[k] == x;
                        assert(after[k] == x);
                    }
                    assert(after[i as int] == list@[i as int]);
                    if after.contains(x) {
                        let k = choose|k: int| 0 <= k < after.len() && after[k] == x;
                        if k < i {
                            assert(before[k] == x);
                        }
                    }
                }
                assert(after.to_set() =~= before.to_set().insert(list@[i as int]));
            }
            i = i + 1;
        }
        assert(list@.subrange(0, list@.len() as int) =~= list@);
        s
    }

    /// `true` when `id` is a member.
    pub fn contains(&self, id: u64) -> (r: bool)
        ensures
            r == self@.contains(id),
    {
        let mut i: usize = 0;
        while i < self.ids.len()
            invariant
                i <= self.ids@.len(),
                forall|k: int| 0 <= k < i ==> self.ids@[k] != id,
            decreases self.ids@.len() - i,
        {
            if self.ids[i] == id {
                assert(self.ids@[i as int] == id);
                return true;
            }
            i = i + 1;
        }
        false
    }

    /// Number of members.
    pub fn len(&self) -> (n: usize)
        ensures
            n == self@.len(),
            self@.finite(),
    {
        proof {
            use_type_invariant(self);
            lemma_ascending_no_duplicates(self.ids@);
            self.ids@.unique_seq_to_set();
        }
        self.ids.len()
    }

    /// `true` when there is no member.
    pub fn is_empty(&self) -> (r: bool)
        ensures
            r == (self@ == Set::<u64>::empty()),
    {
        proof {
            if self.ids@.len() == 0 {
                assert(self@ =~= Set::<u64>::empty());
            } else {
                assert(self.ids@.contains(self.ids@[0]));
                assert(self@.contains(self.ids@[0]));
            }
        }
        self.ids.len() == 0
    }

    /// Removes every member.
    pub fn clear(&mut self)
        ensures
            final(self)@ == Set::<u64>::empty(),
    {
        *self = IdSet::new();
    }

    /// A second set with the same members.
    pub fn copy(&self) -> (s: IdSet)
        ensures
            s@ == self@,
            s.listed() == self.listed(),
    {
        proof {
            use_type_invariant(self);
        }
        let mut ids: Vec<u64> = Vec::new();
        let mut i: usize = 0;
        while i < self.ids.len()
            invariant
                i <= self.ids@.len(),
                ids@ == self.ids@.subrange(0, i as int),
            decreases self.ids@.len() - i,
        {
            ids.push(self.ids[i]);
            assert(ids@ =~= self.ids@.subrange(0, i + 1));
            i = i + 1;
        }
        assert(ids@ =~= self.ids@);
        IdSet { ids }
    }

    /// The members in ascending order.
    pub fn to_list(&self) -> (list: Vec<u64>)
        ensures
            list@ == self.listed(),
            list@.to_set() == self@,
            ascending(list@),
            list@.no_duplicates(),
    {
        proof {
            use_type_invariant(self);
            lemma_ascending_no_duplicates(self.ids@);
        }
        let s = self.copy();
        s.ids
    }

    /// Adds `id`.
    pub fn insert(&mut self, id: u64)
        ensures
            final(self)@ == old(self)@.insert(id),
    {
        proof {
            use_type_invariant(&*self);
        }
        let ghost before = self.ids@;
        let mut out: Vec<u64> = Vec::new();
        let mut i: usize = 0;
        let n: usize = self.ids.len();
        while i < n && self.ids[i] < id
            invariant
                n == self.ids@.len(),
                self.ids@ == before,
                i <= n,
                ascending(before),
                out@ == before.subrange(0, i as int),
                forall|k: int| 0 <= k < i ==> before[k] < id,
            decreases n - i,
        {
            out.push(self.ids[i]);
            assert(out@ =~= before.subrange(0, i + 1));
            i = i + 1;
        }
        let at: usize = i;
        out.push(id);
        if i < n && self.ids[i] == id {
            i = i + 1;
        }
        let from: usize = i;
        while i < n
            invariant
                n == self.ids@.len(),
                self.ids@ == before,
                at <= from <= i <= n,
                from == at || from == at + 1,
                ascending(before),
                forall|k: int| 0 <= k < at ==> before[k] < id,
                forall|k: int| from <= k < n ==> before[k] > id,
                out@ == before.subrange(0, at as int).push(id) + before.subrange(from as int, i as int),
            decreases n - i,
        {
            out.push(self.ids[i]);
            assert(out@ =~= before.subrange(0, at as int).push(id) + before.subrange(from as int, i + 1));
            i = i + 1;
        }
        proof {
            assert(out@[at as int] == id);
            assert forall|x: u64| #[trigger] out@.contains(x) <==> before.contains(x) || x == id by {
                if before.contains(x) {
                    let k = choose|k: int| 0 <= k < before.len() && before[k] == x;
                    if k < at {
                        assert(out@[k] == x);
                    } else if k >= from {
                        assert(out@[k - from + at + 1] == x);
                    } else {
                        assert(x == id);
                    }
                }
                if out@.contains(x) {
                    let k = choose|k: int| 0 <= k < out@.len() && out@[k] == x;
                    if k < at {
                        assert(before[k] == x);
                    } else if k > at {
                        assert(before[k - at - 1 + from] == x);
                    }
                }
            }
            assert(out@.to_set() =~= before.to_set().insert(id));
        }
        *self = IdSet { ids: out };
    }

    /// Members of `self` that `keep` has, or those that it has not.
    fn filtered(&self, keep: &IdSet, wanted: bool) -> (s: IdSet)
        ensures
            forall|x: u64| #[trigger] s@.contains(x) <==> self@.contains(x) && keep@.contains(x) == wanted,
    {
        proof {
            use_type_invariant(self);
        }
        let ghost all = self.ids@;
        let mut out: Vec<u64> = Vec::new();
        let mut i: usize = 0;
        while i < self.ids.len()
            invariant
                all == self.ids@,
                i <= all.len(),
                ascending(all),
                ascending(out@),
                forall|k: int| 0 <= k < out@.len() ==> all.subrange(0, i as int).contains(#[trigger] out@[k])
                    && keep@.contains(out@[k]) == wanted,
                forall|k: int|
                    0 <= k < i && keep@.contains(all[k]) == wanted ==> out@.contains(#[trigger] all[k]),
            decreases all.len() - i,
        {
            let id: u64 = self.ids[i];
            let ghost before = out@;
            assert forall|k: int| 0 <= k < before.len() implies before[k] < id by {
                let j = choose|j: int| 0 <= j < i && all.subrange(0, i as int)[j] == before[k];
                assert(all[j] < all[i as int]);
            }
            assert forall|x: u64| all.subrange(0, i as int).contains(x) implies all.subrange(0, i + 1).contains(x) by {
                let j = choose|j: int| 0 <= j < i && all.subrange(0, i as int)[j] == x;
                assert(all.subrange(0, i + 1)[j] == x);
            }
            assert(all.subrange(0, i + 1)[i as int] == id);
            if keep.contains(id) == wanted {
                out.push(id);
                assert(out@[before.len() as int] == id);
                assert forall|x: u64| before.contains(x) implies out@.contains(x) by {
                    let j = choose|j: int| 0 <= j < before.len() && before[j] == x;
                    assert(out@[j] == x);
                }
            }
            i = i + 1;
        }
        proof {
            assert(all.subrange(0, all.len() as int) =~= all);
            assert forall|x: u64| #[trigger] out@.to_set().contains(x) <==> all.contains(x) && keep@.contains(x)
                == wanted by {
                if all.contains(x) && keep@.contains(x) == wanted {
                    let k = choose|k: int| 0 <= k < all.len() && all[k] == x;
                    assert(out@.contains(all[k]));
                }
                if out@.contains(x) {
                    let k = choose|k: int| 0 <= k < out@.len() && out@[k] == x;
                    assert(all.contains(out@[k]));
                }
            }
        }
        IdSet { ids: out }
    }

    /// Removes `id`.
    pub fn remove(&mut self, id: u64)
        ensures
            final(self)@ == old(self)@.remove(id),
    {
        let ghost before = self@;
        let out = self.filtered(&IdSet::single(id), false);
        assert(out@ =~= before.remove(id));
        *self = out;
    }

    /// Keeps the members that `other` has too.
    pub fn retain_in(&mut self, other: &IdSet)
        ensures
            final(self)@ == old(self)@.intersect(other@),
    {
        let ghost before = self@;
        let out = self.filtered(other, true);
        assert(out@ =~= before.intersect(other@));
        *self = out;
    }

    /// Members of either set.
    pub fn union(&self, other: &IdSet) -> (s: IdSet)
        ensures
            s@ == self@.union(other@),
    {
        let mut s = self.copy();
        let list = other.to_list();
        let mut i: usize = 0;
        assert(s@ =~= self@.union(list@.subrange(0, 0).to_set()));
        while i < list.len()
            invariant
                i <= list@.len(),
                s@ == self@.union(list@.subrange(0, i as int).to_set()),
            decreases list@.len() - i,
        {
            s.insert(list[i]);
            proof {
                let before = list@.subrange(0, i as int);
                let after = list@.subrange(0, i + 1);
                assert(after =~= before.push(list@[i as int]));
                assert forall|x: u64| #[trigger] after.contains(x) <==> before.contains(x) || x == list@[i as int] by {
                    if before.contains(x) {
                        let k = choose|k: int| 0 <= k < before.len() && before[k] == x;
                        assert(after[k] == x);
                    }
                    assert(after[i as int] == list@[i as int]);
                    if after.contains(x) {
                        let k = choose|k: int| 0 <= k < after.len() && after[k] == x;
                        if k < i {
                            assert(before[k] == x);
                        }
                    }
                }
                assert(s@ =~= self@.union(after.to_set()));
            }
            i = i + 1;
        }
        assert(list@.subrange(0, list@.len() as int) =~= list@);
        s
    }

    /// Members of `self` that `other` lacks.
    pub fn difference(&self, other: &IdSet) -> (s: IdSet)
        ensures
            s@ == self@.difference(other@),
    {
        let s = self.filtered(other, false);
        assert(s@ =~= self@.difference(other@));
        s
    }

    /// Members of exactly one of the two sets.
    pub fn symmetric_difference(&self, other: &IdSet) -> (s: IdSet)
        ensures
            s@ == self@.difference(other@).union(other@.difference(self@)),
    {
        let mine = self.difference(other);
        let theirs = other.difference(self);
        mine.union(&theirs)
    }

    /// Takes `id` in if it is out, and out if it is in.
    pub fn toggle(&mut self, id: u64)
        ensures
            final(self)@ == (if old(self)@.contains(id) {
                old(self)@.remove(id)
            } else {
                old(self)@.insert(id)
            }),
    {
        if self.contains(id) {
            self.remove(id);
        } else {
            self.insert(id);
        }
    }
}

/// The list of a set's ids holds its ids and no others.
pub proof fn law_listed_ids_are_the_set(s: IdSet, id: u64)
    ensures
        s.listed().contains(id) <==> s@.contains(id),
{
}

} // verus!
