//! What holds of the stores in every state that the operations reach.

use vstd::prelude::*;
use crate::assignments::{rank, sorted, sorted_insert, sorted_remove};
use crate::assignments::{lemma_rank_bounds, lemma_remove_sorted, lemma_sorted_insert_sorted};
use crate::hashing::spec_generate_key;
use crate::model::{assign, list_at, position_of, revoke, RbacState};
use crate::rbac::{AccountId, EntityId, Tag};
use crate::structs::{Assignment, EntityView};

verus! {

/// Every list of the store is in ascending natural order, holds no
/// assignment twice and is not empty.
pub open spec fn valid_lists<P: Assignment>(m: Map<Seq<u8>, Seq<P>>) -> bool {
    forall|key: Seq<u8>|
        m.contains_key(key) ==> sorted(#[trigger] m[key]) && m[key].no_duplicates() && m[key].len()
            > 0
}

/// An assignment that is made leaves every list ordered, free of duplicates and non-empty.
pub proof fn law_assign_keeps_lists_valid<P: Assignment>(m: Map<Seq<u8>, Seq<P>>, key: Seq<u8>, p: P)
    requires
        valid_lists(m),
    ensures
        assign(m, key, p) matches Some(n) ==> valid_lists(n),
{
    let list = list_at(m, key);
    if !list.contains(p) {
        if m.contains_key(key) {
            assert(sorted(m[key]) && m[key].no_duplicates());
        }
        let n = m.insert(key, sorted_insert(list, p));
        let r = rank(list, p);
        lemma_rank_bounds(list, p);
        lemma_sorted_insert_sorted(list, p);
        let longer = sorted_insert(list, p);
        assert forall|i: int, j: int| 0 <= i < longer.len() && 0 <= j < longer.len() && i != j implies longer[i]
            != longer[j] by {
            let i0 = if i < r { i } else { i - 1 };
            let j0 = if j < r { j } else { j - 1 };
            if i == r {
                assert(list[j0] == longer[j]);
                assert(list.contains(list[j0]));
            } else if j == r {
                assert(list[i0] == longer[i]);
                assert(list.contains(list[i0]));
            } else {
                assert(list[i0] != list[j0]);
            }
        }
        assert forall|k: Seq<u8>| n.contains_key(k) implies sorted(#[trigger] n[k])
            && n[k].no_duplicates() && n[k].len() > 0 by {
            if k != key {
                assert(sorted(m[k]) && m[k].no_duplicates() && m[k].len() > 0);
            }
        }
    }
}

/// An assignment that is revoked leaves every list ordered, free of duplicates and non-empty.
pub proof fn law_revoke_keeps_lists_valid<P: Assignment>(m: Map<Seq<u8>, Seq<P>>, key: Seq<u8>, p: P)
    requires
        valid_lists(m),
    ensures
        revoke(m, key, p) matches Some(n) ==> valid_lists(n),
{
    if m.contains_key(key) && m[key].contains(p) {
        let list = m[key];
        assert(sorted(list) && list.no_duplicates());
        crate::assignments::lemma_contains_at_rank(list, p);
        lemma_rank_bounds(list, p);
        let r = rank(list, p);
        lemma_remove_sorted(list, r);
        let rest = sorted_remove(list, p);
        assert forall|i: int, j: int| 0 <= i < rest.len() && 0 <= j < rest.len() && i != j implies rest[i]
            != rest[j] by {
            let i0 = if i < r { i } else { i + 1 };
            let j0 = if j < r { j } else { j + 1 };
            assert(list[i0] != list[j0]);
        }
        let n = revoke(m, key, p)->Some_0;
        assert forall|k: Seq<u8>| n.contains_key(k) implies sorted(#[trigger] n[k])
            && n[k].no_duplicates() && n[k].len() > 0 by {
            if k != key {
                assert(sorted(m[k]) && m[k].no_duplicates() && m[k].len() > 0);
            }
        }
    }
}

/// The tag names a kind of entity.
pub open spec fn entity_kind(tag: Tag) -> bool {
    tag == Tag::Role || tag == Tag::Permission || tag == Tag::Group
}

/// The owner's list of the kind of `tag` has a position `i`.
pub open spec fn is_entry(s: RbacState, owner: AccountId, tag: Tag, i: int) -> bool {
    entity_kind(tag) && 0 <= i < s.get_entities(owner, tag).len()
}

/// The entity at position `i` of the owner's list of the kind of `tag`.
pub open spec fn entry(s: RbacState, owner: AccountId, tag: Tag, i: int) -> EntityView {
    s.get_entities(owner, tag)[i]
}

/// The key of the entity at position `i` of the owner's list of the kind of `tag`.
pub open spec fn entry_key(s: RbacState, owner: AccountId, tag: Tag, i: int) -> Seq<u8> {
    spec_generate_key(owner, entry(s, owner, tag, i).id, tag)
}

/// Every listed entity stands under its key as it is listed.
pub open spec fn listed_are_found(s: RbacState) -> bool {
    forall|owner: AccountId, tag: Tag, i: int| #[trigger]
        is_entry(s, owner, tag, i) ==> s.keys_lookup.contains_key(entry_key(s, owner, tag, i))
            && s.keys_lookup[entry_key(s, owner, tag, i)] == entry(s, owner, tag, i)
}

/// No two listed entities share a key.
pub open spec fn keys_are_apart(s: RbacState) -> bool {
    forall|o1: AccountId, t1: Tag, i1: int, o2: AccountId, t2: Tag, i2: int|
        #[trigger] is_entry(s, o1, t1, i1) && #[trigger] is_entry(s, o2, t2, i2) && entry_key(
            s,
            o1,
            t1,
            i1,
        ) == entry_key(s, o2, t2, i2) ==> o1 == o2 && t1 == t2 && i1 == i2
}

/// `key` is the key of a listed entity.
pub open spec fn key_is_listed(s: RbacState, key: Seq<u8>) -> bool {
    exists|owner: AccountId, tag: Tag, i: int| #[trigger]
        is_entry(s, owner, tag, i) && entry_key(s, owner, tag, i) == key
}

/// Every key of the lookup is the key of a listed entity.
pub open spec fn found_are_listed(s: RbacState) -> bool {
    forall|key: Seq<u8>| s.keys_lookup.contains_key(key) ==> #[trigger] key_is_listed(s, key)
}

/// The lookup and the owners' lists hold the same entities: each listed
/// entity stands under its own key as it is listed, and nothing else stands
/// in the lookup.
pub open spec fn consistent(s: RbacState) -> bool {
    &&& listed_are_found(s)
    &&& keys_are_apart(s)
    &&& found_are_listed(s)
}

/// Where a list holds an entity with the identifier, the position found is
/// that of such an entity.
pub proof fn lemma_position_of(list: Seq<EntityView>, id: EntityId)
    ensures
        0 <= position_of(list, id) <= list.len(),
        position_of(list, id) < list.len() ==> list[position_of(list, id)].id == id,
    decreases list.len(),
{
    if list.len() > 0 && list[0].id != id {
        lemma_position_of(list.drop_first(), id);
    }
}

/// The owners' lists after one of them was written.
pub proof fn lemma_entities_after_write(
    s: RbacState,
    t: RbacState,
    owner: AccountId,
    tag: Tag,
    list: Seq<EntityView>,
    other: AccountId,
    kind: Tag,
)
    requires
        entity_kind(tag),
        entity_kind(kind),
        t.roles == s.with_entities(tag, s.entities(tag).insert(owner@, list)).roles,
        t.permissions == s.with_entities(tag, s.entities(tag).insert(owner@, list)).permissions,
        t.groups == s.with_entities(tag, s.entities(tag).insert(owner@, list)).groups,
    ensures
        t.get_entities(other, kind) == (if other == owner && kind == tag {
            list
        } else {
            s.get_entities(other, kind)
        }),
{
    if other@ == owner@ {
        assert(other =~= owner);
    }
}

/// Stores that hold nothing are consistent.
pub proof fn law_empty_is_consistent()
    ensures
        consistent(RbacState::empty()),
{
    let s = RbacState::empty();
    assert forall|owner: AccountId, tag: Tag, i: int| !is_entry(s, owner, tag, i) by {}
}

/// The creation of an entity keeps the lookup and the owners' lists consistent.
pub proof fn law_create_keeps_consistent(
    s: RbacState,
    owner: AccountId,
    id: EntityId,
    name: Seq<u8>,
    tag: Tag,
)
    requires
        consistent(s),
        entity_kind(tag),
    ensures
        s.create_entity(owner, id, name, tag) matches Ok(t) ==> consistent(t),
{
    let key = spec_generate_key(owner, id, tag);
    if !s.keys_lookup.contains_key(key) {
        let t = s.create_entity(owner, id, name, tag)->Ok_0;
        let old_list = s.get_entities(owner, tag);
        let new_list = old_list.push(EntityView { id, name, enabled: true });
        let last = old_list.len() as int;
        assert forall|o: AccountId, k: Tag, i: int| #[trigger] is_entry(t, o, k, i) implies (if o
            == owner && k == tag && i == last {
            entry(t, o, k, i) == (EntityView { id, name, enabled: true }) && entry_key(t, o, k, i)
                == key
        } else {
            is_entry(s, o, k, i) && entry(t, o, k, i) == entry(s, o, k, i) && entry_key(t, o, k, i)
                == entry_key(s, o, k, i) && entry_key(t, o, k, i) != key
        }) by {
            lemma_entities_after_write(s, t, owner, tag, new_list, o, k);
            if !(o == owner && k == tag && i == last) {
                assert(is_entry(s, o, k, i));
                assert(s.keys_lookup.contains_key(entry_key(s, o, k, i)));
            }
        }
        assert forall|o: AccountId, k: Tag, i: int| #[trigger] is_entry(s, o, k, i) implies is_entry(
            t,
            o,
            k,
            i,
        ) && entry_key(t, o, k, i) == entry_key(s, o, k, i) by {
            lemma_entities_after_write(s, t, owner, tag, new_list, o, k);
        }
        assert(listed_are_found(t));
        assert(keys_are_apart(t)) by {
            assert forall|o1: AccountId, t1: Tag, i1: int, o2: AccountId, t2: Tag, i2: int|
                #[trigger] is_entry(t, o1, t1, i1) && #[trigger] is_entry(t, o2, t2, i2)
                    && entry_key(t, o1, t1, i1) == entry_key(t, o2, t2, i2) implies o1 == o2 && t1
                == t2 && i1 == i2 by {
                if !(o1 == owner && t1 == tag && i1 == last) && !(o2 == owner && t2 == tag && i2
                    == last) {
                    assert(is_entry(s, o1, t1, i1) && is_entry(s, o2, t2, i2));
                }
            }
        }
        assert(found_are_listed(t)) by {
            assert forall|k: Seq<u8>| t.keys_lookup.contains_key(k) implies #[trigger] key_is_listed(
                t,
                k,
            ) by {
                if k == key {
                    lemma_entities_after_write(s, t, owner, tag, new_list, owner, tag);
                    assert(is_entry(t, owner, tag, last) && entry_key(t, owner, tag, last) == k);
                } else {
                    assert(key_is_listed(s, k));
                    let (o, kind, i) = choose|o: AccountId, kind: Tag, i: int| #[trigger]
                        is_entry(s, o, kind, i) && entry_key(s, o, kind, i) == k;
                    assert(is_entry(t, o, kind, i) && entry_key(t, o, kind, i) == k);
                }
            }
        }
    }
}

/// A change of the owner's entity with the identifier `id` that keeps the
/// identifier keeps the lookup and the owners' lists consistent.
pub proof fn lemma_replace_keeps_consistent(
    s: RbacState,
    owner: AccountId,
    id: EntityId,
    tag: Tag,
    change: spec_fn(EntityView) -> EntityView,
)
    requires
        consistent(s),
        entity_kind(tag),
        forall|e: EntityView| (#[trigger] change(e)).id == e.id,
    ensures
        consistent(s.replace_entity(owner, id, tag, spec_generate_key(owner, id, tag), change)),
{
    let key = spec_generate_key(owner, id, tag);
    let t = s.replace_entity(owner, id, tag, key, change);
    let old_list = s.get_entities(owner, tag);
    let at = position_of(old_list, id);
    lemma_position_of(old_list, id);
    if at < old_list.len() {
        let changed = change(old_list[at]);
        let new_list = old_list.update(at, changed);
        assert(is_entry(s, owner, tag, at));
        assert(entry_key(s, owner, tag, at) == key);
        assert forall|o: AccountId, k: Tag, i: int| #[trigger] is_entry(t, o, k, i) implies is_entry(
            s,
            o,
            k,
            i,
        ) && entry_key(t, o, k, i) == entry_key(s, o, k, i) && (if o == owner && k == tag && i
            == at {
            entry(t, o, k, i) == changed
        } else {
            entry(t, o, k, i) == entry(s, o, k, i) && entry_key(t, o, k, i) != key
        }) by {
            lemma_entities_after_write(s, t, owner, tag, new_list, o, k);
            assert(is_entry(s, o, k, i));
        }
        assert forall|o: AccountId, k: Tag, i: int| #[trigger] is_entry(s, o, k, i) implies is_entry(
            t,
            o,
            k,
            i,
        ) && entry_key(t, o, k, i) == entry_key(s, o, k, i) by {
            lemma_entities_after_write(s, t, owner, tag, new_list, o, k);
        }
        assert(listed_are_found(t)) by {
            assert forall|o: AccountId, k: Tag, i: int| #[trigger] is_entry(t, o, k, i) implies t.keys_lookup.contains_key(
            entry_key(t, o, k, i)) && t.keys_lookup[entry_key(t, o, k, i)] == entry(t, o, k, i) by {
                assert(is_entry(s, o, k, i));
            }
        }
        assert(keys_are_apart(t)) by {
            assert forall|o1: AccountId, t1: Tag, i1: int, o2: AccountId, t2: Tag, i2: int|
                #[trigger] is_entry(t, o1, t1, i1) && #[trigger] is_entry(t, o2, t2, i2)
                    && entry_key(t, o1, t1, i1) == entry_key(t, o2, t2, i2) implies o1 == o2 && t1
                == t2 && i1 == i2 by {
                assert(is_entry(s, o1, t1, i1) && is_entry(s, o2, t2, i2));
            }
        }
        assert(found_are_listed(t)) by {
            assert forall|k: Seq<u8>| t.keys_lookup.contains_key(k) implies #[trigger] key_is_listed(
                t,
                k,
            ) by {
                assert(s.keys_lookup.contains_key(k));
                assert(key_is_listed(s, k));
                let (o, kind, i) = choose|o: AccountId, kind: Tag, i: int| #[trigger]
                    is_entry(s, o, kind, i) && entry_key(s, o, kind, i) == k;
                assert(is_entry(t, o, kind, i) && entry_key(t, o, kind, i) == k);
            }
        }
    }
}

/// The renaming of an entity keeps the lookup and the owners' lists consistent.
pub proof fn law_update_keeps_consistent(
    s: RbacState,
    owner: AccountId,
    id: EntityId,
    name: Seq<u8>,
    tag: Tag,
)
    requires
        consistent(s),
        entity_kind(tag),
    ensures
        s.update_entity(owner, id, name, tag) matches Ok(t) ==> consistent(t),
{
    lemma_replace_keeps_consistent(s, owner, id, tag, |e: EntityView| EntityView { name, ..e });
}

/// The disabling of an entity keeps the lookup and the owners' lists consistent.
pub proof fn law_disable_keeps_consistent(s: RbacState, owner: AccountId, id: EntityId, tag: Tag)
    requires
        consistent(s),
        entity_kind(tag),
    ensures
        s.disable_entity(owner, id, tag) matches Ok(t) ==> consistent(t),
{
    lemma_replace_keeps_consistent(
        s,
        owner,
        id,
        tag,
        |e: EntityView| EntityView { enabled: false, ..e },
    );
}

/// Consistency speaks of the lookup and the owners' lists alone.
pub proof fn lemma_consistent_with_same_entities(s: RbacState, t: RbacState)
    requires
        consistent(s),
        t.keys_lookup == s.keys_lookup,
        t.roles == s.roles,
        t.permissions == s.permissions,
        t.groups == s.groups,
    ensures
        consistent(t),
{
    assert forall|o: AccountId, k: Tag, i: int| #[trigger] is_entry(t, o, k, i) == is_entry(s, o, k, i)
        && (is_entry(s, o, k, i) ==> entry(t, o, k, i) == entry(s, o, k, i) && entry_key(t, o, k, i)
        == entry_key(s, o, k, i)) by {}
    assert(listed_are_found(t)) by {
        assert forall|o: AccountId, k: Tag, i: int| #[trigger] is_entry(t, o, k, i) implies t.keys_lookup.contains_key(
        entry_key(t, o, k, i)) && t.keys_lookup[entry_key(t, o, k, i)] == entry(t, o, k, i) by {
            assert(is_entry(s, o, k, i));
        }
    }
    assert(keys_are_apart(t)) by {
        assert forall|o1: AccountId, t1: Tag, i1: int, o2: AccountId, t2: Tag, i2: int|
            #[trigger] is_entry(t, o1, t1, i1) && #[trigger] is_entry(t, o2, t2, i2) && entry_key(
                t,
                o1,
                t1,
                i1,
            ) == entry_key(t, o2, t2, i2) implies o1 == o2 && t1 == t2 && i1 == i2 by {
            assert(is_entry(s, o1, t1, i1) && is_entry(s, o2, t2, i2));
        }
    }
    assert(found_are_listed(t)) by {
        assert forall|k: Seq<u8>| t.keys_lookup.contains_key(k) implies #[trigger] key_is_listed(
            t,
            k,
        ) by {
            assert(key_is_listed(s, k));
            let (o, kind, i) = choose|o: AccountId, kind: Tag, i: int| #[trigger]
                is_entry(s, o, kind, i) && entry_key(s, o, kind, i) == k;
            assert(is_entry(t, o, kind, i) && entry_key(t, o, kind, i) == k);
        }
    }
}

/// Assignments, revocations and the upgrade of the layout keep the lookup
/// and the owners' lists consistent: they leave both as they are.
pub proof fn law_assignments_keep_consistent(s: RbacState, owner: AccountId, a: EntityId, b: EntityId)
    requires
        consistent(s),
    ensures
        s.create_role_to_user(owner, a, b) matches Ok(t) ==> consistent(t),
        s.revoke_role_to_user(owner, a, b) matches Ok(t) ==> consistent(t),
        s.create_role_to_group(owner, a, b) matches Ok(t) ==> consistent(t),
        s.revoke_role_to_group(owner, a, b) matches Ok(t) ==> consistent(t),
        s.create_user_to_group(owner, a, b) matches Ok(t) ==> consistent(t),
        s.revoke_user_to_group(owner, a, b) matches Ok(t) ==> consistent(t),
        s.create_permission_to_role(owner, a, b) matches Ok(t) ==> consistent(t),
        s.revoke_permission_to_role(owner, a, b) matches Ok(t) ==> consistent(t),
        consistent(s.migrated()),
{
    if s.create_role_to_user(owner, a, b) is Ok {
        lemma_consistent_with_same_entities(s, s.create_role_to_user(owner, a, b)->Ok_0);
    }
    if s.revoke_role_to_user(owner, a, b) is Ok {
        lemma_consistent_with_same_entities(s, s.revoke_role_to_user(owner, a, b)->Ok_0);
    }
    if s.create_role_to_group(owner, a, b) is Ok {
        lemma_consistent_with_same_entities(s, s.create_role_to_group(owner, a, b)->Ok_0);
    }
    if s.revoke_role_to_group(owner, a, b) is Ok {
        lemma_consistent_with_same_entities(s, s.revoke_role_to_group(owner, a, b)->Ok_0);
    }
    if s.create_user_to_group(owner, a, b) is Ok {
        lemma_consistent_with_same_entities(s, s.create_user_to_group(owner, a, b)->Ok_0);
    }
    if s.revoke_user_to_group(owner, a, b) is Ok {
        lemma_consistent_with_same_entities(s, s.revoke_user_to_group(owner, a, b)->Ok_0);
    }
    if s.create_permission_to_role(owner, a, b) is Ok {
        lemma_consistent_with_same_entities(s, s.create_permission_to_role(owner, a, b)->Ok_0);
    }
    if s.revoke_permission_to_role(owner, a, b) is Ok {
        lemma_consistent_with_same_entities(s, s.revoke_permission_to_role(owner, a, b)->Ok_0);
    }
    lemma_consistent_with_same_entities(s, s.migrated());
}

/// In consistent stores an entity that is found under the key of
/// `(owner, id, tag)` and was listed by this owner is listed as it is found.
pub proof fn law_found_is_listed(s: RbacState, owner: AccountId, id: EntityId, tag: Tag)
    requires
        consistent(s),
        entity_kind(tag),
        position_of(s.get_entities(owner, tag), id) < s.get_entities(owner, tag).len(),
    ensures
        s.keys_lookup.contains_key(spec_generate_key(owner, id, tag)),
        s.keys_lookup[spec_generate_key(owner, id, tag)] == s.get_entities(owner, tag)[position_of(
            s.get_entities(owner, tag),
            id,
        )],
{
    let list = s.get_entities(owner, tag);
    lemma_position_of(list, id);
    assert(is_entry(s, owner, tag, position_of(list, id)));
}

} // verus!
