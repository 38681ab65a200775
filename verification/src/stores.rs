//! Reading and writing the entity and assignment stores.

use vstd::prelude::*;
use crate::assignments::{is_sorted, sort, sorted, sorted_sequence};
use crate::model::{all_sorted, assign, list_at, lists_sorted, position_of, revoke};
use crate::order::ids_equal;
use crate::rbac::{EntityId, RbacKeyType};
use crate::storage::StorageMap;
use crate::structs::{entities_view, Assignment, Entity, EntityView};

verus! {

/// The entities of a store as views.
pub open spec fn entity_map(m: Map<Seq<u8>, Entity>) -> Map<Seq<u8>, EntityView> {
    m.map_values(|e: Entity| e@)
}

/// The entity lists of a store as sequences of views.
pub open spec fn entity_lists(m: Map<Seq<u8>, Vec<Entity>>) -> Map<Seq<u8>, Seq<EntityView>> {
    m.map_values(|list: Vec<Entity>| entities_view(list@))
}

/// The assignment lists of a store as sequences.
pub open spec fn assignment_lists<P>(m: Map<Seq<u8>, Vec<P>>) -> Map<Seq<u8>, Seq<P>> {
    m.map_values(|list: Vec<P>| list@)
}

/// A copy of a list of entities.
pub fn copy_entities(list: &Vec<Entity>) -> (copy: Vec<Entity>)
    ensures
        entities_view(copy@) == entities_view(list@),
{
    let mut copy: Vec<Entity> = Vec::new();
    let mut i: usize = 0;
    while i < list.len()
        invariant
            0 <= i <= list@.len(),
            copy@.len() == i,
            forall|j: int| 0 <= j < i ==> (#[trigger] copy@[j])@ == list@[j]@,
        decreases list@.len() - i,
    {
        copy.push(list[i].duplicate());
        i += 1;
    }
    assert(entities_view(copy@) =~= entities_view(list@));
    copy
}

/// A copy of a list of assignments.
pub fn copy_assignments<P: Assignment>(list: &Vec<P>) -> (copy: Vec<P>)
    ensures
        copy@ == list@,
{
    let mut copy: Vec<P> = Vec::new();
    let mut i: usize = 0;
    while i < list.len()
        invariant
            0 <= i <= list@.len(),
            copy@ == list@.subrange(0, i as int),
        decreases list@.len() - i,
    {
        copy.push(list[i]);
        assert(list@.subrange(0, i + 1) =~= list@.subrange(0, i as int).push(list@[i as int]));
        i += 1;
    }
    assert(list@.subrange(0, i as int) =~= list@);
    copy
}

/// The entities stored for `owner`, none where nothing is stored.
pub fn load_entities(store: &StorageMap<Vec<Entity>>, owner: &RbacKeyType) -> (list: Vec<Entity>)
    ensures
        entities_view(list@) == list_at(entity_lists(store@), owner@),
{
    match store.get(owner) {
        Some(list) => copy_entities(list),
        None => {
            let list: Vec<Entity> = Vec::new();
            assert(entities_view(list@) =~= Seq::<EntityView>::empty());
            list
        },
    }
}

/// The assignments stored under `key`, if a list is stored there.
pub fn load_assignments<P: Assignment>(store: &StorageMap<Vec<P>>, key: &RbacKeyType) -> (list:
    Option<Vec<P>>)
    ensures
        match list {
            Some(list) => assignment_lists(store@).contains_key(key@) && list@ == assignment_lists(
                store@,
            )[key@],
            None => !assignment_lists(store@).contains_key(key@),
        },
{
    match store.get(key) {
        Some(list) => Some(copy_assignments(list)),
        None => None,
    }
}

/// The first position of an entity with the identifier `id`, or the length of the list.
pub fn find_entity(list: &Vec<Entity>, id: &EntityId) -> (at: usize)
    ensures
        at == position_of(entities_view(list@), *id),
        at <= list@.len(),
{
    let ghost views = entities_view(list@);
    let mut i: usize = 0;
    assert(views.skip(0) =~= views);
    while i < list.len()
        invariant
            0 <= i <= list@.len(),
            views == entities_view(list@),
            position_of(views, *id) == i + position_of(views.skip(i as int), *id),
        decreases list@.len() - i,
    {
        assert(views.skip(i as int)[0] == list@[i as int]@);
        if ids_equal(&list[i].id, id) {
            return i;
        }
        assert(views.skip(i as int).drop_first() =~= views.skip(i + 1));
        i += 1;
    }
    assert(views.skip(i as int).len() == 0);
    i
}

/// Puts `p` into the list under `key`, unless the list holds it.
pub fn assign_in<P: Assignment>(store: &mut StorageMap<Vec<P>>, key: RbacKeyType, p: P) -> (done:
    bool)
    requires
        lists_sorted(assignment_lists(old(store)@)),
    ensures
        match assign(assignment_lists(old(store)@), key@, p) {
            Some(lists) => done && assignment_lists(final(store)@) == lists,
            None => !done && final(store)@ == old(store)@,
        },
        lists_sorted(assignment_lists(final(store)@)),
{
    let ghost before = assignment_lists(store@);
    let mut list: Vec<P> = match load_assignments(store, &key) {
        Some(list) => {
            assert(sorted(before[key@]));
            list
        },
        None => Vec::new(),
    };
    assert(list@ =~= list_at(before, key@));
    if !crate::assignments::insert(&mut list, p) {
        return false;
    }
    store.insert(key, list);
    proof {
        let after = assignment_lists(store@);
        assert(after =~= before.insert(key@, list@));
        assert forall|k: Seq<u8>| after.contains_key(k) implies sorted(#[trigger] after[k]) by {
            if k != key@ {
                assert(sorted(before[k]));
            }
        }
    }
    true
}

/// Takes `p` out of the list under `key`, and the list out of the store
/// where nothing is left in it.
pub fn revoke_in<P: Assignment>(store: &mut StorageMap<Vec<P>>, key: RbacKeyType, p: P) -> (done:
    bool)
    requires
        lists_sorted(assignment_lists(old(store)@)),
    ensures
        match revoke(assignment_lists(old(store)@), key@, p) {
            Some(lists) => done && assignment_lists(final(store)@) == lists,
            None => !done && final(store)@ == old(store)@,
        },
        lists_sorted(assignment_lists(final(store)@)),
{
    let ghost before = assignment_lists(store@);
    let mut list: Vec<P> = match load_assignments(store, &key) {
        Some(list) => {
            assert(sorted(before[key@]));
            list
        },
        None => {
            return false;
        },
    };
    if !crate::assignments::remove(&mut list, &p) {
        return false;
    }
    if list.len() < 1 {
        store.remove(&key);
        proof {
            assert(assignment_lists(store@) =~= before.remove(key@));
        }
    } else {
        store.insert(key, list);
        proof {
            assert(assignment_lists(store@) =~= before.insert(key@, list@));
        }
    }
    proof {
        let after = assignment_lists(store@);
        assert forall|k: Seq<u8>| after.contains_key(k) implies sorted(#[trigger] after[k]) by {
            if k != key@ {
                assert(sorted(before[k]));
            }
        }
    }
    true
}

/// Whether every list of the store is in ascending natural order.
pub fn lists_are_sorted<P: Assignment>(store: &StorageMap<Vec<P>>) -> (ordered: bool)
    ensures
        ordered == lists_sorted(assignment_lists(store@)),
{
    let count = store.len();
    let mut i: usize = 0;
    while i < count
        invariant
            0 <= i <= count,
            count == store.keys().len(),
            store.keys().to_set() == store@.dom(),
            forall|j: int| 0 <= j < i ==> sorted(#[trigger] store@[store.keys()[j]]@),
        decreases count - i,
    {
        if !is_sorted(store.value_at(i)) {
            assert(assignment_lists(store@)[store.keys()[i as int]] == store@[store.keys()[i as int]]@);
            return false;
        }
        i += 1;
    }
    proof {
        let lists = assignment_lists(store@);
        assert forall|k: Seq<u8>| lists.contains_key(k) implies sorted(#[trigger] lists[k]) by {
            assert(store.keys().to_set().contains(k));
            let j = choose|j: int| 0 <= j < store.keys().len() && store.keys()[j] == k;
            assert(sorted(store@[store.keys()[j]]@));
        }
    }
    true
}

/// Brings every list of the store into ascending natural order, and
/// says how many lists there are.
pub fn sort_lists<P: Assignment>(store: &mut StorageMap<Vec<P>>) -> (count: usize)
    ensures
        assignment_lists(final(store)@) == all_sorted(assignment_lists(old(store)@)),
        count == assignment_lists(old(store)@).dom().len(),
        lists_sorted(assignment_lists(final(store)@)),
{
    let count = store.len();
    let ghost before = store@;
    let ghost keys = store.keys();
    let mut i: usize = 0;
    while i < count
        invariant
            0 <= i <= count,
            count == keys.len(),
            store.keys() == keys,
            keys.no_duplicates(),
            keys.to_set() == before.dom(),
            store@.dom() == before.dom(),
            forall|j: int| 0 <= j < i ==> (#[trigger] store@[keys[j]])@ == sorted_sequence(before[keys[j]]@),
            forall|j: int| i <= j < count ==> #[trigger] store@[keys[j]] == before[keys[j]],
        decreases count - i,
    {
        let key = store.key_at(i);
        let ordered = sort(store.value_at(i));
        let ghost previous = store@;
        store.insert(key, ordered);
        proof {
            assert(store@.dom() =~= before.dom());
            assert forall|j: int| 0 <= j < i + 1 implies (#[trigger] store@[keys[j]])@
                == sorted_sequence(before[keys[j]]@) by {
                if j < i {
                    assert(keys[j] != keys[i as int]);
                    assert(previous[keys[j]]@ == sorted_sequence(before[keys[j]]@));
                } else {
                    assert(previous[keys[j]] == before[keys[j]]);
                }
            }
            assert forall|j: int| i + 1 <= j < count implies #[trigger] store@[keys[j]]
                == before[keys[j]] by {
                assert(keys[j] != keys[i as int]);
                assert(previous[keys[j]] == before[keys[j]]);
            }
        }
        i += 1;
    }
    proof {
        let after = assignment_lists(store@);
        let expected = all_sorted(assignment_lists(before));
        assert(after.dom() =~= expected.dom());
        assert forall|k: Seq<u8>| after.contains_key(k) implies #[trigger] after[k] == expected[k]
            && sorted(after[k]) by {
            assert(keys.to_set().contains(k));
            let j = choose|j: int| 0 <= j < keys.len() && keys[j] == k;
            assert(store@[keys[j]]@ == sorted_sequence(before[keys[j]]@));
            crate::assignments::lemma_sorted_sequence(before[k]@);
        }
        assert(after =~= expected);
        assert(assignment_lists(before).dom() =~= before.dom());
    }
    count
}

} // verus!
