//! What holds of the operations taken together.

use vstd::prelude::*;
use crate::assignments::{rank, sorted, sorted_insert};
use crate::assignments::{
    lemma_insert_then_remove, lemma_rank_bounds, lemma_sorted_sequence_of_sorted,
};
use crate::error::{failure, RbacError, RbacErrorType, RbacErrorView};
use crate::hashing::spec_generate_key;
use crate::model::{
    all_sorted, assign, lefts, list_at, lists_sorted, position_of, revoke, unvisited,
};
use crate::model::{RbacState, STORAGE_VERSION};
use crate::rbac::{outcome, AccountId, EntityId, Tag};
use crate::structs::{Assignment, EntityView, Permission2Role, User2Group};

verus! {

/// No list of the store is empty.
pub open spec fn no_empty_list<P>(m: Map<Seq<u8>, Seq<P>>) -> bool {
    forall|key: Seq<u8>| m.contains_key(key) ==> (#[trigger] m[key]).len() > 0
}

/// The owner's list of the kind of `tag` holds an entity with the identifier `id`.
pub open spec fn listed(s: RbacState, owner: AccountId, id: EntityId, tag: Tag) -> bool {
    position_of(s.get_entities(owner, tag), id) < s.get_entities(owner, tag).len()
}

/// An entity can be created exactly when its key is free, and what was
/// created is then fetched: the identifier, the name, enabled.
pub proof fn law_create_then_fetch(
    s: RbacState,
    owner: AccountId,
    id: EntityId,
    name: Seq<u8>,
    tag: Tag,
)
    requires
        name.len() <= 64,
    ensures
        s.create_entity(owner, id, name, tag) is Ok <==> !s.was_created(owner, id, tag),
        s.create_entity(owner, id, name, tag) matches Ok(t) ==> t.get_entity(owner, id, tag) == Ok::<
            EntityView,
            RbacErrorView,
        >(EntityView { id, name, enabled: true }),
{
}

/// An entity that was created cannot be created again, under whatever name.
pub proof fn law_duplicate_rejected(
    s: RbacState,
    owner: AccountId,
    id: EntityId,
    name: Seq<u8>,
    again: Seq<u8>,
    tag: Tag,
)
    ensures
        s.create_entity(owner, id, name, tag) matches Ok(t) ==> t.create_entity(
            owner,
            id,
            again,
            tag,
        ) == Err::<RbacState, RbacErrorView>(failure(RbacErrorType::EntityAlreadyExist, id)),
{
}

/// A write that fails writes nothing: whatever a write of the stores was
/// expected to do, where it was expected to fail the stores are as before
/// and the failure is the expected one.
pub proof fn law_failure_leaves_stores(
    res: Result<(), RbacError>,
    before: RbacState,
    after: RbacState,
    expected: Result<RbacState, RbacErrorView>,
)
    requires
        outcome(res, before, after, expected),
        expected is Err,
    ensures
        after == before,
        res is Err,
        res->Err_0@ == expected->Err_0,
{
}

/// An entity of the owner's list that was disabled stays disabled: it
/// cannot be renamed, disabled again or fetched, each time for the reason
/// that it is disabled.
pub proof fn law_disable_is_terminal(
    s: RbacState,
    owner: AccountId,
    id: EntityId,
    name: Seq<u8>,
    tag: Tag,
)
    requires
        listed(s, owner, id, tag),
    ensures
        s.disable_entity(owner, id, tag) matches Ok(t) ==> {
            let disabled = failure(RbacErrorType::EntityDisabled, id);
            &&& t.update_entity(owner, id, name, tag) == Err::<RbacState, RbacErrorView>(disabled)
            &&& t.disable_entity(owner, id, tag) == Err::<RbacState, RbacErrorView>(disabled)
            &&& t.get_entity(owner, id, tag) == Err::<EntityView, RbacErrorView>(disabled)
        },
{
}

/// In a store of ordered, non-empty lists an assignment that was made and
/// revoked leaves the store as it was.
pub proof fn law_assign_then_revoke<P: Assignment>(m: Map<Seq<u8>, Seq<P>>, key: Seq<u8>, p: P)
    requires
        lists_sorted(m),
        no_empty_list(m),
    ensures
        assign(m, key, p) matches Some(n) ==> revoke(n, key, p) == Some(m),
{
    let list = list_at(m, key);
    if !list.contains(p) {
        if m.contains_key(key) {
            assert(sorted(m[key]));
            assert(m[key].len() > 0);
        }
        let n = m.insert(key, sorted_insert(list, p));
        lemma_rank_bounds(list, p);
        assert(n[key][rank(list, p)] == p);
        lemma_insert_then_remove(list, p);
        if list.len() == 0 {
            assert(n.remove(key) =~= m);
        } else {
            assert(n.insert(key, list) =~= m);
        }
    }
}

/// An assignment that was made and revoked leaves no trace, whatever its
/// kind: the stores are as they were, and a list that did not exist before
/// does not exist after.
pub proof fn law_assignment_symmetry(s: RbacState, owner: AccountId, a: EntityId, b: EntityId)
    requires
        s.assignments_sorted(),
        no_empty_list(s.role_to_user),
        no_empty_list(s.role_to_group),
        no_empty_list(s.user_to_group),
        no_empty_list(s.permission_to_role),
    ensures
        s.create_role_to_user(owner, a, b) matches Ok(t) ==> t.revoke_role_to_user(owner, a, b)
            == Ok::<RbacState, RbacErrorView>(s),
        s.create_role_to_group(owner, a, b) matches Ok(t) ==> t.revoke_role_to_group(owner, a, b)
            == Ok::<RbacState, RbacErrorView>(s),
        s.create_user_to_group(owner, a, b) matches Ok(t) ==> t.revoke_user_to_group(owner, a, b)
            == Ok::<RbacState, RbacErrorView>(s),
        s.create_permission_to_role(owner, a, b) matches Ok(t) ==> t.revoke_permission_to_role(
            owner,
            a,
            b,
        ) == Ok::<RbacState, RbacErrorView>(s),
        s.get_user_roles(owner, b) is Err ==> (s.create_role_to_user(owner, a, b) matches Ok(t)
            ==> t.revoke_role_to_user(owner, a, b) matches Ok(u) && u.get_user_roles(owner, b)
            == Err::<Seq<crate::structs::Role2User>, RbacErrorView>(
            failure(RbacErrorType::AssignmentDoesNotExist, b),
        )),
{
    law_assign_then_revoke(
        s.role_to_user,
        spec_generate_key(owner, b, Tag::Role2User),
        crate::structs::Role2User { role: a, user: b },
    );
    law_assign_then_revoke(
        s.role_to_group,
        spec_generate_key(owner, b, Tag::Role2Group),
        crate::structs::Role2Group { role: a, group: b },
    );
    law_assign_then_revoke(
        s.user_to_group,
        spec_generate_key(owner, a, Tag::User2Group),
        crate::structs::User2Group { user: a, group: b },
    );
    law_assign_then_revoke(
        s.permission_to_role,
        spec_generate_key(owner, b, Tag::Permission2Role),
        crate::structs::Permission2Role { permission: a, role: b },
    );
}

/// What one owner creates another owner cannot reach: where the other
/// owner's key for the identifier is another key and is free, the other
/// owner can neither fetch nor rename nor disable the entity, each time for
/// the reason that it does not exist.
pub proof fn law_cross_owner_isolation(
    s: RbacState,
    owner: AccountId,
    other: AccountId,
    id: EntityId,
    name: Seq<u8>,
    rename: Seq<u8>,
    tag: Tag,
)
    requires
        spec_generate_key(owner, id, tag) != spec_generate_key(other, id, tag),
        !s.was_created(other, id, tag),
    ensures
        s.create_entity(owner, id, name, tag) matches Ok(t) ==> {
            let missing = failure(RbacErrorType::EntityDoesNotExist, id);
            &&& t.get_entity(other, id, tag) == Err::<EntityView, RbacErrorView>(missing)
            &&& t.update_entity(other, id, rename, tag) == Err::<RbacState, RbacErrorView>(missing)
            &&& t.disable_entity(other, id, tag) == Err::<RbacState, RbacErrorView>(missing)
        },
{
}

/// Entities are never removed and never enabled again: whatever is done to
/// the entities, a key that was taken stays taken, and an entity that was
/// disabled stays disabled.
pub proof fn law_entities_stay(
    s: RbacState,
    owner: AccountId,
    id: EntityId,
    name: Seq<u8>,
    tag: Tag,
    key: Seq<u8>,
)
    requires
        s.keys_lookup.contains_key(key),
    ensures
        s.create_entity(owner, id, name, tag) matches Ok(t) ==> t.keys_lookup.contains_key(key) && (
        !s.keys_lookup[key].enabled ==> !t.keys_lookup[key].enabled),
        s.update_entity(owner, id, name, tag) matches Ok(t) ==> t.keys_lookup.contains_key(key) && (
        !s.keys_lookup[key].enabled ==> !t.keys_lookup[key].enabled),
        s.disable_entity(owner, id, tag) matches Ok(t) ==> t.keys_lookup.contains_key(key) && (
        !s.keys_lookup[key].enabled ==> !t.keys_lookup[key].enabled),
{
}

/// A role that was visited is never resolved a second time.
pub proof fn law_visited_left_out(ids: Seq<EntityId>, visited: Seq<EntityId>)
    ensures
        forall|i: int|
            0 <= i < unvisited(ids, visited).len() ==> !visited.contains(
                #[trigger] unvisited(ids, visited)[i],
            ) && ids.contains(unvisited(ids, visited)[i]),
    decreases ids.len(),
{
    if ids.len() > 0 {
        law_visited_left_out(ids.drop_last(), visited);
        let rest = unvisited(ids.drop_last(), visited);
        assert forall|i: int| 0 <= i < unvisited(ids, visited).len() implies !visited.contains(
            #[trigger] unvisited(ids, visited)[i],
        ) && ids.contains(unvisited(ids, visited)[i]) by {
            if i < rest.len() {
                assert(!visited.contains(rest[i]));
                let j = choose|j: int| 0 <= j < ids.drop_last().len() && ids.drop_last()[j] == rest[i];
                assert(ids[j] == rest[i]);
            } else {
                assert(ids[ids.len() - 1] == ids.last());
            }
        }
    }
}

/// No role that `visited` holds is among the roles that are reached through groups.
pub proof fn lemma_roles_through_groups_unvisited(
    s: RbacState,
    owner: AccountId,
    memberships: Seq<User2Group>,
    visited: Seq<EntityId>,
)
    ensures
        forall|i: int|
            0 <= i < s.roles_through_groups(owner, memberships, visited).len()
                ==> !visited.contains(
                #[trigger] s.roles_through_groups(owner, memberships, visited)[i],
            ),
    decreases memberships.len(),
{
    if memberships.len() > 0 {
        lemma_roles_through_groups_unvisited(s, owner, memberships.drop_last(), visited);
        let key = spec_generate_key(owner, memberships.last().group, Tag::Role2Group);
        let before = s.roles_through_groups(owner, memberships.drop_last(), visited);
        let added = unvisited(lefts(list_at(s.role_to_group, key)), visited);
        law_visited_left_out(lefts(list_at(s.role_to_group, key)), visited);
        let all = s.roles_through_groups(owner, memberships, visited);
        assert forall|i: int| 0 <= i < all.len() implies !visited.contains(#[trigger] all[i]) by {
            if i < before.len() {
                assert(all[i] == before[i]);
            } else {
                assert(all[i] == added[i - before.len()]);
            }
        }
    }
}

/// A role that is assigned to a user is resolved once for each direct
/// assignment and never again through a group: beyond the roles assigned to
/// the user, the roles of the user hold none of them.
pub proof fn law_direct_roles_resolved_once(s: RbacState, owner: AccountId, user_id: EntityId)
    ensures
        ({
            let direct = lefts(
                list_at(s.role_to_user, spec_generate_key(owner, user_id, Tag::Role2User)),
            );
            let roles = s.roles_of_user(owner, user_id);
            &&& direct.len() <= roles.len()
            &&& roles.take(direct.len() as int) == direct
            &&& forall|i: int| direct.len() <= i < roles.len() ==> !direct.contains(#[trigger] roles[i])
        }),
{
    let direct = lefts(list_at(s.role_to_user, spec_generate_key(owner, user_id, Tag::Role2User)));
    let memberships = list_at(s.user_to_group, spec_generate_key(owner, user_id, Tag::User2Group));
    let through = s.roles_through_groups(owner, memberships, direct);
    let roles = s.roles_of_user(owner, user_id);
    lemma_roles_through_groups_unvisited(s, owner, memberships, direct);
    assert(roles.take(direct.len() as int) =~= direct);
    assert forall|i: int| direct.len() <= i < roles.len() implies !direct.contains(
        #[trigger] roles[i],
    ) by {
        assert(roles[i] == through[i - direct.len()]);
    }
}

/// The permissions of a user depend on the order of the user's roles
/// alone, however a role came to the user. One role with one permission
/// gives that one permission.
pub proof fn law_one_role_one_permission(
    s: RbacState,
    owner: AccountId,
    user_id: EntityId,
    role_id: EntityId,
    grant: Permission2Role,
    permission: EntityView,
)
    requires
        s.roles_of_user(owner, user_id) == seq![role_id],
        s.get_role_permissions(owner, role_id) == Ok::<Seq<Permission2Role>, RbacErrorView>(
            seq![grant],
        ),
        s.get_entity(owner, grant.permission, Tag::Permission) == Ok::<EntityView, RbacErrorView>(
            permission,
        ),
    ensures
        s.get_user_permissions(owner, user_id) == Ok::<Seq<EntityView>, RbacErrorView>(
            seq![permission],
        ),
{
    let grants = seq![grant];
    assert(grants.drop_last() =~= Seq::<Permission2Role>::empty());
    assert(s.resolve(owner, grants.drop_last()) == Ok::<Seq<EntityView>, RbacErrorView>(
        Seq::empty(),
    ));
    assert(grants.last() == grant);
    assert(Seq::<EntityView>::empty().push(permission) =~= seq![permission]);
    assert(s.role_permissions(owner, role_id) == Ok::<Seq<EntityView>, RbacErrorView>(
        seq![permission],
    ));
    let roles = seq![role_id];
    assert(roles.drop_last() =~= Seq::<EntityId>::empty());
    assert(s.roles_permissions(owner, roles.drop_last()) == Ok::<Seq<EntityView>, RbacErrorView>(
        Seq::empty(),
    ));
    assert(roles.last() == role_id);
    assert(Seq::<EntityView>::empty() + seq![permission] =~= seq![permission]);
}

/// Permissions are not deduplicated: a role that is resolved twice gives
/// its permissions twice.
pub proof fn law_role_twice_permissions_twice(
    s: RbacState,
    owner: AccountId,
    role_id: EntityId,
    found: Seq<EntityView>,
)
    requires
        s.role_permissions(owner, role_id) == Ok::<Seq<EntityView>, RbacErrorView>(found),
    ensures
        s.roles_permissions(owner, seq![role_id, role_id]) == Ok::<Seq<EntityView>, RbacErrorView>(
            found + found,
        ),
{
    let twice = seq![role_id, role_id];
    let once = seq![role_id];
    assert(twice.drop_last() =~= once);
    assert(once.drop_last() =~= Seq::<EntityId>::empty());
    assert(s.roles_permissions(owner, once.drop_last()) == Ok::<Seq<EntityView>, RbacErrorView>(
        Seq::empty(),
    ));
    assert(once.last() == role_id);
    assert(Seq::<EntityView>::empty() + found =~= found);
    assert(s.roles_permissions(owner, once) == Ok::<Seq<EntityView>, RbacErrorView>(found));
    assert(twice.last() == role_id);
    assert(s.roles_permissions(owner, twice.drop_last()) == Ok::<Seq<EntityView>, RbacErrorView>(
        found,
    ));
}

/// A store of ordered lists is unchanged when every list is brought into order.
pub proof fn law_sorted_lists_unchanged<P: Assignment>(m: Map<Seq<u8>, Seq<P>>)
    requires
        lists_sorted(m),
    ensures
        all_sorted(m) == m,
{
    assert forall|key: Seq<u8>| m.contains_key(key) implies #[trigger] all_sorted(m)[key] == m[key] by {
        assert(sorted(m[key]));
        lemma_sorted_sequence_of_sorted(m[key]);
    }
    assert(all_sorted(m) =~= m);
}

/// The upgrade of the layout runs once: a second run changes nothing and
/// does no work. Lists that were in order before the upgrade are the same
/// lists after it.
pub proof fn law_migration_idempotent(s: RbacState)
    ensures
        s.migrated().migrated() == s.migrated(),
        s.migrated().migration_work() == 0,
        s.migrated().storage_version >= STORAGE_VERSION,
        s.assignments_sorted() ==> s.migrated() == (RbacState {
            storage_version: s.migrated().storage_version,
            ..s
        }),
{
    if s.assignments_sorted() {
        law_sorted_lists_unchanged(s.role_to_user);
        law_sorted_lists_unchanged(s.role_to_group);
        law_sorted_lists_unchanged(s.user_to_group);
        law_sorted_lists_unchanged(s.permission_to_role);
    }
}

} // verus!
