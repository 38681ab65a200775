//! The natural order of identifiers: byte by byte, from the first byte on.

use vstd::prelude::*;
use crate::rbac::EntityId;

verus! {

/// The first position at or after `from` where `a` and `b` differ, or 32 where there is none.
pub open spec fn first_difference(a: EntityId, b: EntityId, from: int) -> int
    decreases 32 - from,
{
    if from < 0 || from >= 32 {
        32
    } else if a@[from] != b@[from] {
        from
    } else {
        first_difference(a, b, from + 1)
    }
}

/// `a` comes strictly before `b`.
pub open spec fn id_lt(a: EntityId, b: EntityId) -> bool {
    let d = first_difference(a, b, 0);
    d < 32 && a@[d] < b@[d]
}

/// How one value stands to another in the natural order.
#[derive(Clone, Copy, Debug, PartialEq, Eq, Structural)]
pub enum Standing {
    Before,
    Same,
    After,
}

/// Up to the first difference the identifiers agree, and there they differ.
pub proof fn lemma_first_difference(a: EntityId, b: EntityId, from: int)
    requires
        0 <= from <= 32,
    ensures
        from <= first_difference(a, b, from) <= 32,
        forall|j: int| from <= j < first_difference(a, b, from) ==> a@[j] == b@[j],
        first_difference(a, b, from) < 32 ==> ({
            let d = first_difference(a, b, from);
            a@[d] != b@[d]
        }),
    decreases 32 - from,
{
    if from < 32 && a@[from] == b@[from] {
        lemma_first_difference(a, b, from + 1);
    }
}

/// A position where the two differ after agreeing from `from` on is the first difference.
pub proof fn lemma_first_difference_is(a: EntityId, b: EntityId, from: int, d: int)
    requires
        0 <= from <= d <= 32,
        forall|j: int| from <= j < d ==> a@[j] == b@[j],
        d < 32 ==> a@[d] != b@[d],
    ensures
        first_difference(a, b, from) == d,
    decreases 32 - from,
{
    if from < d {
        lemma_first_difference_is(a, b, from + 1, d);
    }
}

/// Identifiers that agree in every byte are the same identifier.
pub proof fn lemma_id_equal(a: EntityId, b: EntityId)
    requires
        first_difference(a, b, 0) == 32,
    ensures
        a == b,
{
    lemma_first_difference(a, b, 0);
    assert(a@ =~= b@);
    assert(a =~= b);
}

/// No identifier comes before itself.
pub proof fn lemma_id_lt_irreflexive(a: EntityId)
    ensures
        !id_lt(a, a),
{
    lemma_first_difference(a, a, 0);
}

/// Of two identifiers at most one comes before the other.
pub proof fn lemma_id_lt_asymmetric(a: EntityId, b: EntityId)
    requires
        id_lt(a, b),
    ensures
        !id_lt(b, a),
{
    lemma_first_difference(a, b, 0);
    lemma_first_difference_is(b, a, 0, first_difference(a, b, 0));
}

/// What comes before an identifier comes before all that the identifier comes before.
pub proof fn lemma_id_lt_transitive(a: EntityId, b: EntityId, c: EntityId)
    requires
        id_lt(a, b),
        id_lt(b, c),
    ensures
        id_lt(a, c),
{
    lemma_first_difference(a, b, 0);
    lemma_first_difference(b, c, 0);
    let d1 = first_difference(a, b, 0);
    let d2 = first_difference(b, c, 0);
    let m = if d1 <= d2 { d1 } else { d2 };
    lemma_first_difference_is(a, c, 0, m);
}

/// Of two identifiers one comes before the other, or they are the same.
pub proof fn lemma_id_lt_total(a: EntityId, b: EntityId)
    ensures
        id_lt(a, b) || id_lt(b, a) || a == b,
{
    lemma_first_difference(a, b, 0);
    let d = first_difference(a, b, 0);
    if d == 32 {
        lemma_id_equal(a, b);
    } else {
        lemma_first_difference_is(b, a, 0, d);
    }
}

/// Compares two identifiers byte by byte.
pub fn compare_ids(a: &EntityId, b: &EntityId) -> (standing: Standing)
    ensures
        standing == Standing::Before <==> id_lt(*a, *b),
        standing == Standing::Same <==> *a == *b,
        standing == Standing::After <==> id_lt(*b, *a),
{
    let mut i: usize = 0;
    while i < 32
        invariant
            0 <= i <= 32,
            forall|j: int| 0 <= j < i ==> a@[j] == b@[j],
        decreases 32 - i,
    {
        if a[i] < b[i] {
            proof {
                lemma_first_difference_is(*a, *b, 0, i as int);
                lemma_id_lt_asymmetric(*a, *b);
            }
            return Standing::Before;
        }
        if a[i] > b[i] {
            proof {
                lemma_first_difference_is(*b, *a, 0, i as int);
                lemma_id_lt_asymmetric(*b, *a);
            }
            return Standing::After;
        }
        i += 1;
    }
    proof {
        lemma_first_difference_is(*a, *b, 0, 32);
        lemma_id_equal(*a, *b);
        lemma_id_lt_irreflexive(*a);
    }
    Standing::Same
}

/// Whether two identifiers are the same.
pub fn ids_equal(a: &EntityId, b: &EntityId) -> (same: bool)
    ensures
        same <==> *a == *b,
        same <==> a@ == b@,
{
    let standing = compare_ids(a, b);
    proof {
        if a@ == b@ {
            assert(*a =~= *b);
        }
    }
    matches!(standing, Standing::Same)
}

} // verus!
