//! Assignment lists: kept in ascending natural order, searched by bisection.

use vstd::prelude::*;
use vstd::relations::{sorted_by, total_ordering};
use vstd::seq_lib::lemma_sorted_unique;
use crate::order::Standing;
use crate::structs::{compare_pairs, pair_le, pair_lt, Assignment};
use crate::structs::{
    lemma_pair_lt_asymmetric, lemma_pair_lt_irreflexive, lemma_pair_lt_total,
    lemma_pair_lt_transitive,
};

verus! {

/// The list is in ascending natural order.
pub open spec fn sorted<P: Assignment>(s: Seq<P>) -> bool {
    forall|i: int, j: int| 0 <= i < j < s.len() ==> pair_le(#[trigger] s[i], #[trigger] s[j])
}

/// The number of items of `s` that come strictly before `p`.
pub open spec fn rank<P: Assignment>(s: Seq<P>, p: P) -> int
    decreases s.len(),
{
    if s.len() == 0 {
        0
    } else {
        rank(s.drop_last(), p) + if pair_lt(s.last(), p) {
            1int
        } else {
            0int
        }
    }
}

/// `s` with `p` put behind the items that come before it.
pub open spec fn sorted_insert<P: Assignment>(s: Seq<P>, p: P) -> Seq<P> {
    s.insert(rank(s, p), p)
}

/// `s` without the item at the place where `p` stands in an ordered list.
pub open spec fn sorted_remove<P: Assignment>(s: Seq<P>, p: P) -> Seq<P> {
    s.remove(rank(s, p))
}

/// The natural order as a relation.
pub open spec fn natural_order<P: Assignment>() -> spec_fn(P, P) -> bool {
    |a: P, b: P| pair_le(a, b)
}

/// The items of `s` in ascending natural order.
pub open spec fn sorted_sequence<P: Assignment>(s: Seq<P>) -> Seq<P> {
    s.sort_by(natural_order::<P>())
}

/// The items before position `i` come before `p`, the others do not.
pub open spec fn divides<P: Assignment>(s: Seq<P>, p: P, i: int) -> bool {
    &&& 0 <= i <= s.len()
    &&& forall|j: int| 0 <= j < i ==> pair_lt(#[trigger] s[j], p)
    &&& forall|j: int| i <= j < s.len() ==> !pair_lt(#[trigger] s[j], p)
}

/// The rank is a position of the list, or its length.
pub proof fn lemma_rank_bounds<P: Assignment>(s: Seq<P>, p: P)
    ensures
        0 <= rank(s, p) <= s.len(),
    decreases s.len(),
{
    if s.len() > 0 {
        lemma_rank_bounds(s.drop_last(), p);
    }
}

/// A position that divides the list is the rank.
pub proof fn lemma_divides_is_rank<P: Assignment>(s: Seq<P>, p: P, i: int)
    requires
        divides(s, p, i),
    ensures
        rank(s, p) == i,
    decreases s.len(),
{
    if s.len() > 0 {
        let t = s.drop_last();
        assert(forall|j: int| 0 <= j < t.len() ==> t[j] == s[j]);
        if i == s.len() {
            assert(pair_lt(s[s.len() - 1], p));
            lemma_divides_is_rank(t, p, i - 1);
        } else {
            assert(!pair_lt(s[s.len() - 1], p));
            lemma_divides_is_rank(t, p, i);
        }
    }
}

/// In an ordered list the rank divides the list.
pub proof fn lemma_rank_divides<P: Assignment>(s: Seq<P>, p: P)
    requires
        sorted(s),
    ensures
        divides(s, p, rank(s, p)),
    decreases s.len(),
{
    if s.len() > 0 {
        let t = s.drop_last();
        let last = s.last();
        assert(forall|j: int| 0 <= j < t.len() ==> t[j] == s[j]);
        assert(sorted(t));
        lemma_rank_divides(t, p);
        let r = rank(t, p);
        if pair_lt(last, p) {
            assert forall|j: int| 0 <= j < t.len() implies pair_lt(#[trigger] s[j], p) by {
                assert(pair_le(s[j], s[s.len() - 1]));
                if s[j] != last {
                    lemma_pair_lt_transitive(s[j], last, p);
                }
            }
            if r < t.len() {
                assert(!pair_lt(t[r], p));
                assert(pair_lt(s[r], p));
            }
            assert(r == t.len());
        } else {
            assert forall|j: int| r <= j < s.len() implies !pair_lt(#[trigger] s[j], p) by {
                if j < t.len() {
                    assert(!pair_lt(t[j], p));
                }
            }
            assert forall|j: int| 0 <= j < r implies pair_lt(#[trigger] s[j], p) by {
                assert(pair_lt(t[j], p));
            }
        }
    }
}

/// In an ordered list an item is present exactly when it stands at its rank.
pub proof fn lemma_contains_at_rank<P: Assignment>(s: Seq<P>, p: P)
    requires
        sorted(s),
    ensures
        s.contains(p) <==> (rank(s, p) < s.len() && s[rank(s, p)] == p),
{
    lemma_rank_divides(s, p);
    let r = rank(s, p);
    if s.contains(p) {
        let k = choose|k: int| 0 <= k < s.len() && s[k] == p;
        lemma_pair_lt_irreflexive(p);
        assert(!pair_lt(s[k], p));
        assert(r <= k);
        if r < k {
            assert(pair_le(s[r], s[k]));
            assert(!pair_lt(s[r], p));
        }
    }
    if r < s.len() && s[r] == p {
        assert(s.contains(p));
    }
}

/// Putting an item at its rank keeps the list ordered.
pub proof fn lemma_sorted_insert_sorted<P: Assignment>(s: Seq<P>, p: P)
    requires
        sorted(s),
    ensures
        sorted(sorted_insert(s, p)),
        divides(sorted_insert(s, p), p, rank(s, p)),
        rank(sorted_insert(s, p), p) == rank(s, p),
{
    lemma_rank_divides(s, p);
    let r = rank(s, p);
    let t = sorted_insert(s, p);
    lemma_pair_lt_irreflexive(p);
    assert forall|i: int, j: int| 0 <= i < j < t.len() implies pair_le(
        #[trigger] t[i],
        #[trigger] t[j],
    ) by {
        if j < r {
            assert(pair_le(s[i], s[j]));
        } else if j == r {
            assert(pair_lt(s[i], p));
        } else if i == r {
            assert(!pair_lt(s[j - 1], p));
            lemma_pair_lt_total(s[j - 1], p);
        } else if i < r {
            assert(pair_le(s[i], s[j - 1]));
        } else {
            assert(pair_le(s[i - 1], s[j - 1]));
        }
    }
    assert forall|j: int| 0 <= j < r implies pair_lt(#[trigger] t[j], p) by {
        assert(pair_lt(s[j], p));
    }
    assert forall|j: int| r <= j < t.len() implies !pair_lt(#[trigger] t[j], p) by {
        if j > r {
            assert(!pair_lt(s[j - 1], p));
        }
    }
    lemma_divides_is_rank(t, p, r);
}

/// Taking an item out keeps the list ordered.
pub proof fn lemma_remove_sorted<P: Assignment>(s: Seq<P>, i: int)
    requires
        sorted(s),
        0 <= i < s.len(),
    ensures
        sorted(s.remove(i)),
{
    let t = s.remove(i);
    assert forall|a: int, b: int| 0 <= a < b < t.len() implies pair_le(
        #[trigger] t[a],
        #[trigger] t[b],
    ) by {
        let a0 = if a < i { a } else { a + 1 };
        let b0 = if b < i { b } else { b + 1 };
        assert(pair_le(s[a0], s[b0]));
    }
}

/// An item that was put into an ordered list and taken out again leaves the list as it was.
pub proof fn lemma_insert_then_remove<P: Assignment>(s: Seq<P>, p: P)
    requires
        sorted(s),
    ensures
        sorted_remove(sorted_insert(s, p), p) == s,
{
    lemma_sorted_insert_sorted(s, p);
    lemma_rank_bounds(s, p);
    assert(s.insert(rank(s, p), p).remove(rank(s, p)) =~= s);
}

/// The natural order is a total order.
pub proof fn lemma_natural_order_total<P: Assignment>()
    ensures
        total_ordering(natural_order::<P>()),
{
    let leq = natural_order::<P>();
    assert forall|x: P, y: P| #[trigger] leq(x, y) && #[trigger] leq(y, x) implies x == y by {
        if pair_lt(x, y) {
            lemma_pair_lt_asymmetric(x, y);
        }
    }
    assert forall|x: P, y: P, z: P| #[trigger] leq(x, y) && #[trigger] leq(y, z) implies leq(
        x,
        z,
    ) by {
        if pair_lt(x, y) && pair_lt(y, z) {
            lemma_pair_lt_transitive(x, y, z);
        }
    }
    assert forall|x: P, y: P| #[trigger] leq(x, y) || #[trigger] leq(y, x) by {
        lemma_pair_lt_total(x, y);
    }
}

/// `sorted_sequence` gives the one ordered list that holds the same items as often.
pub proof fn lemma_sorted_sequence<P: Assignment>(s: Seq<P>)
    ensures
        sorted(sorted_sequence(s)),
        sorted_sequence(s).to_multiset() == s.to_multiset(),
        sorted_sequence(s).len() == s.len(),
        forall|t: Seq<P>|
            sorted(t) && t.to_multiset() == s.to_multiset() ==> t == #[trigger] sorted_sequence(s),
{
    let leq = natural_order::<P>();
    lemma_natural_order_total::<P>();
    s.lemma_sort_by_ensures(leq);
    let u = sorted_sequence(s);
    assert(sorted(u)) by {
        assert forall|i: int, j: int| 0 <= i < j < u.len() implies pair_le(
            #[trigger] u[i],
            #[trigger] u[j],
        ) by {
            assert(leq(u[i], u[j]));
        }
    }
    vstd::seq_lib::to_multiset_len(s);
    vstd::seq_lib::to_multiset_len(u);
    assert forall|t: Seq<P>| sorted(t) && t.to_multiset() == s.to_multiset() implies t
        == sorted_sequence(s) by {
        assert(sorted_by(t, leq)) by {
            assert forall|i: int, j: int| 0 <= i < j < t.len() implies #[trigger] leq(
                t[i],
                t[j],
            ) by {
                assert(pair_le(t[i], t[j]));
            }
        }
        lemma_sorted_unique(t, u, leq);
    }
}

/// An ordered list is its own ordered sequence.
pub proof fn lemma_sorted_sequence_of_sorted<P: Assignment>(s: Seq<P>)
    requires
        sorted(s),
    ensures
        sorted_sequence(s) == s,
{
    lemma_sorted_sequence(s);
}

/// Finds by bisection the place of `p` in an ordered list: the number of
/// items that come before it.
pub fn binary_search<P: Assignment>(list: &Vec<P>, p: &P) -> (place: usize)
    requires
        sorted(list@),
    ensures
        place == rank(list@, *p),
        place <= list@.len(),
        list@.contains(*p) <==> (place < list@.len() && list@[place as int] == *p),
{
    let mut low: usize = 0;
    let mut high: usize = list.len();
    while low < high
        invariant
            0 <= low <= high <= list@.len(),
            sorted(list@),
            forall|j: int| 0 <= j < low ==> pair_lt(#[trigger] list@[j], *p),
            forall|j: int| high <= j < list@.len() ==> !pair_lt(#[trigger] list@[j], *p),
        decreases high - low,
    {
        let middle: usize = low + (high - low) / 2;
        match compare_pairs(&list[middle], p) {
            Standing::Before => {
                proof {
                    assert forall|j: int| 0 <= j < middle + 1 implies pair_lt(
                        #[trigger] list@[j],
                        *p,
                    ) by {
                        if j < middle {
                            assert(pair_le(list@[j], list@[middle as int]));
                            if list@[j] != list@[middle as int] {
                                lemma_pair_lt_transitive(list@[j], list@[middle as int], *p);
                            }
                        }
                    }
                }
                low = middle + 1;
            },
            _ => {
                proof {
                    assert forall|j: int| middle <= j < list@.len() implies !pair_lt(
                        #[trigger] list@[j],
                        *p,
                    ) by {
                        if j > middle && pair_lt(list@[j], *p) {
                            assert(pair_le(list@[middle as int], list@[j]));
                            if list@[j] != list@[middle as int] {
                                lemma_pair_lt_transitive(list@[middle as int], list@[j], *p);
                            }
                        }
                    }
                }
                high = middle;
            },
        }
    }
    proof {
        lemma_divides_is_rank(list@, *p, low as int);
        lemma_contains_at_rank(list@, *p);
    }
    low
}

/// Whether an ordered list holds `p`.
pub fn contains<P: Assignment>(list: &Vec<P>, p: &P) -> (found: bool)
    requires
        sorted(list@),
    ensures
        found == list@.contains(*p),
{
    let place = binary_search(list, p);
    if place < list.len() {
        matches!(compare_pairs(&list[place], p), Standing::Same)
    } else {
        false
    }
}

/// Puts `p` into an ordered list unless the list holds it already.
pub fn insert<P: Assignment>(list: &mut Vec<P>, p: P) -> (inserted: bool)
    requires
        sorted(old(list)@),
    ensures
        inserted == !old(list)@.contains(p),
        inserted ==> final(list)@ == sorted_insert(old(list)@, p),
        !inserted ==> final(list)@ == old(list)@,
        sorted(final(list)@),
{
    let place = binary_search(list, &p);
    if place < list.len() {
        if matches!(compare_pairs(&list[place], &p), Standing::Same) {
            return false;
        }
    }
    proof {
        lemma_sorted_insert_sorted(list@, p);
    }
    list.insert(place, p);
    true
}

/// Takes `p` out of an ordered list if the list holds it.
pub fn remove<P: Assignment>(list: &mut Vec<P>, p: &P) -> (removed: bool)
    requires
        sorted(old(list)@),
    ensures
        removed == old(list)@.contains(*p),
        removed ==> final(list)@ == sorted_remove(old(list)@, *p),
        !removed ==> final(list)@ == old(list)@,
        sorted(final(list)@),
{
    let place = binary_search(list, p);
    if place < list.len() {
        if matches!(compare_pairs(&list[place], p), Standing::Same) {
            proof {
                lemma_remove_sorted(list@, place as int);
            }
            list.remove(place);
            return true;
        }
    }
    false
}

/// Whether the list is in ascending natural order.
pub fn is_sorted<P: Assignment>(list: &Vec<P>) -> (ordered: bool)
    ensures
        ordered == sorted(list@),
{
    if list.len() < 2 {
        return true;
    }
    let mut i: usize = 1;
    while i < list.len()
        invariant
            1 <= i <= list@.len(),
            sorted(list@.take(i as int)),
        decreases list@.len() - i,
    {
        if matches!(compare_pairs(&list[i - 1], &list[i]), Standing::After) {
            proof {
                lemma_pair_lt_asymmetric(list@[i as int], list@[i - 1]);
                if sorted(list@) {
                    assert(pair_le(list@[i - 1], list@[i as int]));
                }
            }
            return false;
        }
        proof {
            let shorter = list@.take(i as int);
            let longer = list@.take(i + 1);
            lemma_pair_lt_total(list@[i - 1], list@[i as int]);
            assert forall|a: int, b: int| 0 <= a < b < longer.len() implies pair_le(
                #[trigger] longer[a],
                #[trigger] longer[b],
            ) by {
                if b < i {
                    assert(pair_le(shorter[a], shorter[b]));
                } else if a < i - 1 {
                    assert(pair_le(shorter[a], shorter[i - 1]));
                    if longer[a] != longer[i - 1] && longer[i - 1] != longer[b] {
                        lemma_pair_lt_transitive(longer[a], longer[i - 1], longer[b]);
                    }
                }
            }
        }
        i += 1;
    }
    assert(list@.take(i as int) =~= list@);
    true
}

/// A copy of the list in ascending natural order.
pub fn sort<P: Assignment>(list: &Vec<P>) -> (ordered: Vec<P>)
    ensures
        ordered@ == sorted_sequence(list@),
{
    let mut ordered: Vec<P> = Vec::new();
    let mut i: usize = 0;
    assert(ordered@ =~= list@.subrange(0, 0));
    while i < list.len()
        invariant
            0 <= i <= list@.len(),
            sorted(ordered@),
            ordered@.to_multiset() == list@.subrange(0, i as int).to_multiset(),
        decreases list@.len() - i,
    {
        let p = list[i];
        let place = binary_search(&ordered, &p);
        proof {
            lemma_sorted_insert_sorted(ordered@, p);
            vstd::seq_lib::to_multiset_insert(ordered@, place as int, p);
            vstd::seq_lib::to_multiset_build(list@.subrange(0, i as int), p);
            assert(list@.subrange(0, i + 1) =~= list@.subrange(0, i as int).push(p));
        }
        ordered.insert(place, p);
        i += 1;
    }
    proof {
        assert(list@.subrange(0, i as int) =~= list@);
        lemma_sorted_sequence(list@);
    }
    ordered
}

} // verus!
