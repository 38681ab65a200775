//! The records that the stores hold: entities and the four kinds of assignment.

use vstd::prelude::*;
use crate::order::{compare_ids, id_lt, Standing};
use crate::order::{
    lemma_id_lt_asymmetric, lemma_id_lt_irreflexive, lemma_id_lt_total, lemma_id_lt_transitive,
};
use crate::rbac::EntityId;

verus! {

/// A role, a permission or a group, depending on the namespace it was created under.
#[derive(Clone, Debug, PartialEq, Eq, PartialOrd, Ord, Default)]
pub struct Entity {
    pub id: EntityId,
    pub name: Vec<u8>,
    pub enabled: bool,
}

/// What an entity holds, with the name as a sequence of bytes.
pub struct EntityView {
    pub id: EntityId,
    pub name: Seq<u8>,
    pub enabled: bool,
}

impl View for Entity {
    type V = EntityView;

    open spec fn view(&self) -> EntityView {
        EntityView { id: self.id, name: self.name@, enabled: self.enabled }
    }
}

/// The views of a list of entities, in order.
pub open spec fn entities_view(list: Seq<Entity>) -> Seq<EntityView> {
    list.map_values(|e: Entity| e@)
}

impl Entity {
    /// A copy of the entity.
    pub fn duplicate(&self) -> (copy: Entity)
        ensures
            copy@ == self@,
    {
        Entity { id: self.id, name: self.name.clone(), enabled: self.enabled }
    }
}

/// A role held by a user.
#[derive(Clone, Copy, Debug, PartialEq, Eq, PartialOrd, Ord, Default)]
pub struct Role2User {
    pub role: EntityId,
    pub user: EntityId,
}

/// A role held by a group.
#[derive(Clone, Copy, Debug, PartialEq, Eq, PartialOrd, Ord, Default)]
pub struct Role2Group {
    pub role: EntityId,
    pub group: EntityId,
}

/// A user that belongs to a group.
#[derive(Clone, Copy, Debug, PartialEq, Eq, PartialOrd, Ord, Default)]
pub struct User2Group {
    pub user: EntityId,
    pub group: EntityId,
}

/// A permission granted to a role.
#[derive(Clone, Copy, Debug, PartialEq, Eq, PartialOrd, Ord, Default)]
pub struct Permission2Role {
    pub permission: EntityId,
    pub role: EntityId,
}

/// An edge between two identifiers. Its natural order goes by the first
/// identifier, then by the second.
pub trait Assignment: Sized + Copy {
    /// The first identifier.
    spec fn left(self) -> EntityId;

    /// The second identifier.
    spec fn right(self) -> EntityId;

    /// The first identifier.
    fn first(&self) -> (id: EntityId)
        ensures
            id == self.left(),
    ;

    /// The second identifier.
    fn second(&self) -> (id: EntityId)
        ensures
            id == self.right(),
    ;

    /// Two edges between the same identifiers are the same edge.
    proof fn lemma_same_ends(a: Self, b: Self)
        requires
            a.left() == b.left(),
            a.right() == b.right(),
        ensures
            a == b,
    ;
}

impl Assignment for Role2User {
    open spec fn left(self) -> EntityId {
        self.role
    }

    open spec fn right(self) -> EntityId {
        self.user
    }

    fn first(&self) -> (id: EntityId) {
        self.role
    }

    fn second(&self) -> (id: EntityId) {
        self.user
    }

    proof fn lemma_same_ends(a: Self, b: Self) {
    }
}

impl Assignment for Role2Group {
    open spec fn left(self) -> EntityId {
        self.role
    }

    open spec fn right(self) -> EntityId {
        self.group
    }

    fn first(&self) -> (id: EntityId) {
        self.role
    }

    fn second(&self) -> (id: EntityId) {
        self.group
    }

    proof fn lemma_same_ends(a: Self, b: Self) {
    }
}

impl Assignment for User2Group {
    open spec fn left(self) -> EntityId {
        self.user
    }

    open spec fn right(self) -> EntityId {
        self.group
    }

    fn first(&self) -> (id: EntityId) {
        self.user
    }

    fn second(&self) -> (id: EntityId) {
        self.group
    }

    proof fn lemma_same_ends(a: Self, b: Self) {
    }
}

impl Assignment for Permission2Role {
    open spec fn left(self) -> EntityId {
        self.permission
    }

    open spec fn right(self) -> EntityId {
        self.role
    }

    fn first(&self) -> (id: EntityId) {
        self.permission
    }

    fn second(&self) -> (id: EntityId) {
        self.role
    }

    proof fn lemma_same_ends(a: Self, b: Self) {
    }
}

/// `a` comes strictly before `b` in the natural order of assignments.
pub open spec fn pair_lt<P: Assignment>(a: P, b: P) -> bool {
    id_lt(a.left(), b.left()) || (a.left() == b.left() && id_lt(a.right(), b.right()))
}

/// `a` comes before `b`, or is `b`.
pub open spec fn pair_le<P: Assignment>(a: P, b: P) -> bool {
    pair_lt(a, b) || a == b
}

/// No assignment comes before itself.
pub proof fn lemma_pair_lt_irreflexive<P: Assignment>(a: P)
    ensures
        !pair_lt(a, a),
{
    lemma_id_lt_irreflexive(a.left());
    lemma_id_lt_irreflexive(a.right());
}

/// Of two assignments at most one comes before the other.
pub proof fn lemma_pair_lt_asymmetric<P: Assignment>(a: P, b: P)
    requires
        pair_lt(a, b),
    ensures
        !pair_lt(b, a),
        a != b,
{
    lemma_pair_lt_irreflexive(a);
    lemma_id_lt_irreflexive(a.left());
    if id_lt(a.left(), b.left()) {
        lemma_id_lt_asymmetric(a.left(), b.left());
    } else {
        lemma_id_lt_asymmetric(a.right(), b.right());
    }
}

/// What comes before an assignment comes before all that the assignment comes before.
pub proof fn lemma_pair_lt_transitive<P: Assignment>(a: P, b: P, c: P)
    requires
        pair_lt(a, b),
        pair_lt(b, c),
    ensures
        pair_lt(a, c),
{
    if id_lt(a.left(), b.left()) && id_lt(b.left(), c.left()) {
        lemma_id_lt_transitive(a.left(), b.left(), c.left());
    }
    if a.left() == b.left() && b.left() == c.left() {
        lemma_id_lt_transitive(a.right(), b.right(), c.right());
    }
}

/// Of two assignments one comes before the other, or they are the same.
pub proof fn lemma_pair_lt_total<P: Assignment>(a: P, b: P)
    ensures
        pair_lt(a, b) || pair_lt(b, a) || a == b,
{
    lemma_id_lt_total(a.left(), b.left());
    lemma_id_lt_total(a.right(), b.right());
    if a.left() == b.left() && a.right() == b.right() {
        P::lemma_same_ends(a, b);
    }
}

/// Compares two assignments: by the first identifier, then by the second.
pub fn compare_pairs<P: Assignment>(a: &P, b: &P) -> (standing: Standing)
    ensures
        standing == Standing::Before <==> pair_lt(*a, *b),
        standing == Standing::Same <==> *a == *b,
        standing == Standing::After <==> pair_lt(*b, *a),
{
    let a_first = a.first();
    let b_first = b.first();
    proof {
        lemma_pair_lt_total(*a, *b);
        if pair_lt(*a, *b) {
            lemma_pair_lt_asymmetric(*a, *b);
        }
        if pair_lt(*b, *a) {
            lemma_pair_lt_asymmetric(*b, *a);
        }
        lemma_pair_lt_irreflexive(*a);
        lemma_id_lt_irreflexive(a.left());
        if id_lt(a.left(), b.left()) {
            lemma_id_lt_asymmetric(a.left(), b.left());
        }
        if id_lt(b.left(), a.left()) {
            lemma_id_lt_asymmetric(b.left(), a.left());
        }
    }
    match compare_ids(&a_first, &b_first) {
        Standing::Before => Standing::Before,
        Standing::After => Standing::After,
        Standing::Same => {
            let a_second = a.second();
            let b_second = b.second();
            let standing = compare_ids(&a_second, &b_second);
            proof {
                if standing == Standing::Same {
                    P::lemma_same_ends(*a, *b);
                }
            }
            standing
        },
    }
}

} // verus!
