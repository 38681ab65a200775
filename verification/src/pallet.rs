//! The stores and the operations on them.

use vstd::prelude::*;
use vstd::slice::slice_to_vec;
use crate::error::{failure, result_view, RbacError, RbacErrorType, RbacErrorView};
use crate::model::{lefts, list_at, unvisited, RbacState};
use crate::model::lemma_unvisited_step;
use crate::order::ids_equal;
use crate::rbac::{entities_result_view, outcome};
use crate::rbac::{AccountId, EntityId, Group, Permission, Rbac, RbacKeyType, Role, Tag};
use crate::storage::StorageMap;
use crate::stores::{
    assign_in, copy_assignments, find_entity, lists_are_sorted, load_entities, revoke_in,
};
use crate::stores::{assignment_lists, entity_lists, entity_map};
use crate::structs::{
    entities_view, Assignment, Entity, EntityView, Permission2Role, Role2Group, Role2User,
    User2Group,
};

verus! {

/// The eight stores and the version of their layout.
#[derive(Clone, Debug, PartialEq, Eq)]
pub struct Pallet {
    /// The roles of each owner.
    pub role_store: StorageMap<Vec<Entity>>,
    /// The roles of each user, under the key of the user.
    pub role2user_store: StorageMap<Vec<Role2User>>,
    /// The permissions of each owner.
    pub permission_store: StorageMap<Vec<Entity>>,
    /// The permissions of each role, under the key of the role.
    pub permission2role_store: StorageMap<Vec<Permission2Role>>,
    /// The groups of each owner.
    pub group_store: StorageMap<Vec<Entity>>,
    /// The roles of each group, under the key of the group.
    pub role2group_store: StorageMap<Vec<Role2Group>>,
    /// The groups of each user, under the key of the user.
    pub user2group_store: StorageMap<Vec<User2Group>>,
    /// Every entity, under its key.
    pub keys_lookup_store: StorageMap<Entity>,
    /// The version of the layout that the stores were last brought to.
    pub storage_version: u16,
}

impl View for Pallet {
    type V = RbacState;

    open spec fn view(&self) -> RbacState {
        RbacState {
            keys_lookup: entity_map(self.keys_lookup_store@),
            roles: entity_lists(self.role_store@),
            permissions: entity_lists(self.permission_store@),
            groups: entity_lists(self.group_store@),
            role_to_user: assignment_lists(self.role2user_store@),
            role_to_group: assignment_lists(self.role2group_store@),
            user_to_group: assignment_lists(self.user2group_store@),
            permission_to_role: assignment_lists(self.permission2role_store@),
            storage_version: self.storage_version,
        }
    }
}

/// Whether `ids` holds `id`.
fn contains_id(ids: &Vec<EntityId>, id: &EntityId) -> (found: bool)
    ensures
        found == ids@.contains(*id),
{
    let mut i: usize = 0;
    while i < ids.len()
        invariant
            0 <= i <= ids@.len(),
            forall|j: int| 0 <= j < i ==> ids@[j] != *id,
        decreases ids@.len() - i,
    {
        if ids_equal(&ids[i], id) {
            return true;
        }
        i += 1;
    }
    false
}

/// A copy of a list of identifiers.
fn copy_ids(ids: &Vec<EntityId>) -> (copy: Vec<EntityId>)
    ensures
        copy@ == ids@,
{
    let mut copy: Vec<EntityId> = Vec::new();
    let mut i: usize = 0;
    while i < ids.len()
        invariant
            0 <= i <= ids@.len(),
            copy@ == ids@.take(i as int),
        decreases ids@.len() - i,
    {
        copy.push(ids[i]);
        assert(ids@.take(i + 1) =~= ids@.take(i as int).push(ids@[i as int]));
        i += 1;
    }
    assert(ids@.take(i as int) =~= ids@);
    copy
}

/// Appends the first identifiers of `list` that `visited` does not hold.
pub fn push_unvisited<P: Assignment>(roles: &mut Vec<EntityId>, list: &Vec<P>, visited: &Vec<EntityId>)
    ensures
        final(roles)@ == old(roles)@ + unvisited(lefts(list@), visited@),
{
    let ghost start = roles@;
    let mut j: usize = 0;
    assert(lefts(list@.take(0)) =~= Seq::<EntityId>::empty());
    while j < list.len()
        invariant
            0 <= j <= list@.len(),
            roles@ == start + unvisited(lefts(list@.take(j as int)), visited@),
        decreases list@.len() - j,
    {
        let role = list[j].first();
        proof {
            lemma_unvisited_step(list@, visited@, j as int);
        }
        if !contains_id(visited, &role) {
            roles.push(role);
            assert(roles@ =~= start + unvisited(lefts(list@.take(j + 1)), visited@));
        }
        j += 1;
    }
    assert(list@.take(j as int) =~= list@);
}

impl Pallet {
    /// Stores that hold nothing, at layout version 0.
    pub fn new() -> (pallet: Pallet)
        ensures
            pallet@ == RbacState::empty(),
    {
        let pallet = Pallet {
            role_store: StorageMap::new(),
            role2user_store: StorageMap::new(),
            permission_store: StorageMap::new(),
            permission2role_store: StorageMap::new(),
            group_store: StorageMap::new(),
            role2group_store: StorageMap::new(),
            user2group_store: StorageMap::new(),
            keys_lookup_store: StorageMap::new(),
            storage_version: 0,
        };
        assert(pallet@ =~= RbacState::empty());
        pallet
    }

    /// Whether every assignment list is in ascending natural order, as the
    /// operations on assignments take for granted.
    pub fn is_ordered(&self) -> (ordered: bool)
        ensures
            ordered == self@.assignments_sorted(),
    {
        lists_are_sorted(&self.role2user_store) && lists_are_sorted(&self.role2group_store)
            && lists_are_sorted(&self.user2group_store) && lists_are_sorted(
            &self.permission2role_store,
        )
    }

    /// The entities of the kind of `tag` that `owner` created.
    fn entities_of(&self, owner: &AccountId, tag: Tag) -> (list: Vec<Entity>)
        ensures
            entities_view(list@) == self@.get_entities(*owner, tag),
    {
        match tag {
            Tag::Role => load_entities(&self.role_store, owner),
            Tag::Permission => load_entities(&self.permission_store, owner),
            _ => load_entities(&self.group_store, owner),
        }
    }

    /// Stores `list` as the entities of the kind of `tag` that `owner` created.
    fn store_entities(&mut self, owner: &AccountId, tag: Tag, list: Vec<Entity>)
        ensures
            final(self)@ == old(self)@.with_entities(
                tag,
                old(self)@.entities(tag).insert(owner@, entities_view(list@)),
            ),
    {
        let ghost before = self@;
        match tag {
            Tag::Role => {
                self.role_store.insert(*owner, list);
                assert(self@.roles =~= before.roles.insert(owner@, entities_view(list@)));
            },
            Tag::Permission => {
                self.permission_store.insert(*owner, list);
                assert(self@.permissions =~= before.permissions.insert(
                    owner@,
                    entities_view(list@),
                ));
            },
            _ => {
                self.group_store.insert(*owner, list);
                assert(self@.groups =~= before.groups.insert(owner@, entities_view(list@)));
            },
        }
    }

    /// Stores `entity` under `key`.
    fn store_lookup(&mut self, key: RbacKeyType, entity: Entity)
        ensures
            final(self)@ == (RbacState {
                keys_lookup: old(self)@.keys_lookup.insert(key@, entity@),
                ..old(self)@
            }),
    {
        let ghost before = self@;
        self.keys_lookup_store.insert(key, entity);
        assert(self@.keys_lookup =~= before.keys_lookup.insert(key@, entity@));
    }

    /// Whether an entity is stored under `key`, and enabled; `entity_id`
    /// is the identifier that a failure names.
    pub fn check_key(&self, key: &RbacKeyType, entity_id: &EntityId) -> (res: Result<(), RbacError>)
        ensures
            result_view(res) == self@.check_key(key@, *entity_id),
    {
        match self.keys_lookup_store.get(key) {
            None => RbacError::err(RbacErrorType::EntityDoesNotExist, entity_id),
            Some(entity) => {
                if !entity.enabled {
                    return RbacError::err(RbacErrorType::EntityDisabled, entity_id);
                }
                Ok(())
            },
        }
    }

    /// The entity stored under `key`, if it is enabled.
    pub fn entity_at(&self, key: &RbacKeyType, entity_id: &EntityId) -> (res: Result<
        Entity,
        RbacError,
    >)
        ensures
            result_view(res) == self@.entity_at(key@, *entity_id),
    {
        match self.keys_lookup_store.get(key) {
            None => RbacError::err(RbacErrorType::EntityDoesNotExist, entity_id),
            Some(entity) => {
                if !entity.enabled {
                    return RbacError::err(RbacErrorType::EntityDisabled, entity_id);
                }
                Ok(entity.duplicate())
            },
        }
    }

    /// Stores an enabled entity under `key` and at the end of the owner's
    /// list of the kind of `tag`, unless the key is taken.
    pub fn create_entity_at(
        &mut self,
        key: RbacKeyType,
        owner: &AccountId,
        id: EntityId,
        name: &[u8],
        tag: Tag,
    ) -> (res: Result<(), RbacError>)
        ensures
            outcome(
                res,
                old(self)@,
                final(self)@,
                old(self)@.create_entity_at(key@, *owner, id, name@, tag),
            ),
    {
        if self.keys_lookup_store.contains_key(&key) {
            return RbacError::err(RbacErrorType::EntityAlreadyExist, &id);
        }
        let new_entity = Entity { id, name: slice_to_vec(name), enabled: true };
        let mut entities = self.entities_of(owner, tag);
        let ghost listed = entities_view(entities@);
        entities.push(new_entity.duplicate());
        assert(entities_view(entities@) =~= listed.push(new_entity@));
        self.store_entities(owner, tag, entities);
        self.store_lookup(key, new_entity);
        Ok(())
    }

    /// Gives the entity under `key`, where it is enabled, another name:
    /// under the key and in the owner's list of the kind of `tag`.
    pub fn update_entity_at(
        &mut self,
        key: RbacKeyType,
        owner: &AccountId,
        id: EntityId,
        name: &[u8],
        tag: Tag,
    ) -> (res: Result<(), RbacError>)
        ensures
            outcome(
                res,
                old(self)@,
                final(self)@,
                old(self)@.update_entity_at(key@, *owner, id, name@, tag),
            ),
    {
        match self.check_key(&key, &id) {
            Ok(_) => {},
            Err(e) => {
                return Err(e);
            },
        }
        let mut val = self.entities_of(owner, tag);
        let ghost listed = entities_view(val@);
        let at = find_entity(&val, &id);
        if at < val.len() {
            let entity = Entity { id: val[at].id, name: slice_to_vec(name), enabled: val[at].enabled };
            assert(listed[at as int] == val@[at as int]@);
            val[at] = entity.duplicate();
            assert(entities_view(val@) =~= listed.update(at as int, entity@));
            self.store_lookup(key, entity);
            self.store_entities(owner, tag, val);
        }
        Ok(())
    }

    /// Disables the entity under `key`, where it is enabled: under the key
    /// and in the owner's list of the kind of `tag`.
    pub fn disable_entity_at(
        &mut self,
        key: RbacKeyType,
        owner: &AccountId,
        id: EntityId,
        tag: Tag,
    ) -> (res: Result<(), RbacError>)
        ensures
            outcome(
                res,
                old(self)@,
                final(self)@,
                old(self)@.disable_entity_at(key@, *owner, id, tag),
            ),
    {
        match self.check_key(&key, &id) {
            Ok(_) => {},
            Err(e) => {
                return Err(e);
            },
        }
        let mut val = self.entities_of(owner, tag);
        let ghost listed = entities_view(val@);
        let at = find_entity(&val, &id);
        if at < val.len() {
            let entity = Entity { id: val[at].id, name: val[at].name.clone(), enabled: false };
            assert(listed[at as int] == val@[at as int]@);
            val[at] = entity.duplicate();
            assert(entities_view(val@) =~= listed.update(at as int, entity@));
            self.store_lookup(key, entity);
            self.store_entities(owner, tag, val);
        }
        Ok(())
    }

    /// Creates an enabled entity of the kind of `tag`, unless its key is taken.
    pub fn create_entity(&mut self, owner: &AccountId, id: EntityId, name: &[u8], tag: Tag) -> (res:
        Result<(), RbacError>)
        ensures
            outcome(res, old(self)@, final(self)@, old(self)@.create_entity(*owner, id, name@, tag)),
    {
        let key = Self::generate_key(owner, &id, tag);
        self.create_entity_at(key, owner, id, name, tag)
    }

    /// Gives an entity that exists and is enabled another name.
    pub fn update_entity(&mut self, owner: &AccountId, id: EntityId, name: &[u8], tag: Tag) -> (res:
        Result<(), RbacError>)
        ensures
            outcome(res, old(self)@, final(self)@, old(self)@.update_entity(*owner, id, name@, tag)),
    {
        let key = Self::generate_key(owner, &id, tag);
        self.update_entity_at(key, owner, id, name, tag)
    }

    /// Disables an entity that exists and is enabled.
    pub fn disable_entity(&mut self, owner: &AccountId, id: EntityId, tag: Tag) -> (res: Result<
        (),
        RbacError,
    >)
        ensures
            outcome(res, old(self)@, final(self)@, old(self)@.disable_entity(*owner, id, tag)),
    {
        let key = Self::generate_key(owner, &id, tag);
        self.disable_entity_at(key, owner, id, tag)
    }

    /// The roles of a user in the order in which they are resolved.
    pub fn roles_of_user(&self, owner: &AccountId, user_id: EntityId) -> (roles: Vec<EntityId>)
        ensures
            roles@ == self@.roles_of_user(*owner, user_id),
    {
        let role_2_user_key = Self::generate_key(owner, &user_id, Tag::Role2User);
        let user_2_group_key = Self::generate_key(owner, &user_id, Tag::User2Group);
        let mut roles: Vec<EntityId> = Vec::new();
        let nothing: Vec<EntityId> = Vec::new();
        match self.role2user_store.get(&role_2_user_key) {
            Some(val) => {
                push_unvisited(&mut roles, val, &nothing);
                proof {
                    lemma_unvisited_of_none(lefts(val@), nothing@);
                }
            },
            None => {},
        }
        let processed_roles = copy_ids(&roles);
        let ghost direct = roles@;
        assert(direct =~= lefts(list_at(self@.role_to_user, role_2_user_key@)));
        match self.user2group_store.get(&user_2_group_key) {
            Some(val) => {
                let mut i: usize = 0;
                assert(roles@ =~= direct + self@.roles_through_groups(
                    *owner,
                    val@.take(0),
                    direct,
                ));
                while i < val.len()
                    invariant
                        0 <= i <= val@.len(),
                        processed_roles@ == direct,
                        roles@ == direct + self@.roles_through_groups(
                            *owner,
                            val@.take(i as int),
                            direct,
                        ),
                    decreases val@.len() - i,
                {
                    let key = Self::generate_key(owner, &val[i].group, Tag::Role2Group);
                    proof {
                        self@.lemma_roles_through_groups_step(*owner, val@, direct, i as int);
                    }
                    match self.role2group_store.get(&key) {
                        Some(list) => {
                            push_unvisited(&mut roles, list, &processed_roles);
                        },
                        None => {},
                    }
                    assert(roles@ =~= direct + self@.roles_through_groups(
                        *owner,
                        val@.take(i + 1),
                        direct,
                    ));
                    i += 1;
                }
                assert(val@.take(i as int) =~= val@);
            },
            None => {
                assert(roles@ =~= direct + self@.roles_through_groups(
                    *owner,
                    Seq::<User2Group>::empty(),
                    direct,
                ));
            },
        }
        roles
    }

    /// Appends the permission entities of one role.
    fn collect_role_permissions(
        &self,
        owner: &AccountId,
        role_id: EntityId,
        permissions: &mut Vec<Entity>,
    ) -> (res: Result<(), RbacError>)
        ensures
            match self@.role_permissions(*owner, role_id) {
                Ok(more) => res is Ok && entities_view(final(permissions)@) == entities_view(
                    old(permissions)@,
                ) + more,
                Err(e) => res is Err && res->Err_0@ == e,
            },
    {
        let ghost start = entities_view(permissions@);
        let p2r = match self.get_role_permissions(owner, role_id) {
            Ok(p2r) => p2r,
            Err(e) => {
                return Err(e);
            },
        };
        let mut i: usize = 0;
        assert(p2r@.take(0) =~= Seq::<Permission2Role>::empty());
        assert(entities_view(permissions@) =~= start + Seq::<EntityView>::empty());
        while i < p2r.len()
            invariant
                0 <= i <= p2r@.len(),
                self@.get_role_permissions(*owner, role_id) == Ok::<
                    Seq<Permission2Role>,
                    RbacErrorView,
                >(p2r@),
                self@.resolve(*owner, p2r@.take(i as int)) is Ok,
                entities_view(permissions@) == start + self@.resolve(
                    *owner,
                    p2r@.take(i as int),
                )->Ok_0,
            decreases p2r@.len() - i,
        {
            proof {
                self@.lemma_resolve_step(*owner, p2r@, i as int);
            }
            let ghost listed = entities_view(permissions@);
            match self.get_permission(owner, p2r[i].permission) {
                Ok(permission) => {
                    permissions.push(permission);
                    assert(entities_view(permissions@) =~= listed.push(permission@));
                    assert(entities_view(permissions@) =~= start + self@.resolve(
                        *owner,
                        p2r@.take(i + 1),
                    )->Ok_0);
                },
                Err(e) => {
                    proof {
                        self@.lemma_resolve_fails(*owner, p2r@, i + 1);
                    }
                    return Err(e);
                },
            }
            i += 1;
        }
        assert(p2r@.take(i as int) =~= p2r@);
        Ok(())
    }

    /// The permission entities of `roles`, role after role.
    pub fn permissions_of_roles(&self, owner: &AccountId, roles: &Vec<EntityId>) -> (res: Result<
        Vec<Entity>,
        RbacError,
    >)
        ensures
            entities_result_view(res) == self@.roles_permissions(*owner, roles@),
    {
        let mut permissions: Vec<Entity> = Vec::new();
        let mut i: usize = 0;
        assert(roles@.take(0) =~= Seq::<EntityId>::empty());
        assert(entities_view(permissions@) =~= Seq::<EntityView>::empty());
        while i < roles.len()
            invariant
                0 <= i <= roles@.len(),
                self@.roles_permissions(*owner, roles@.take(i as int)) == Ok::<
                    Seq<EntityView>,
                    RbacErrorView,
                >(entities_view(permissions@)),
            decreases roles@.len() - i,
        {
            proof {
                self@.lemma_roles_permissions_step(*owner, roles@, i as int);
            }
            match self.collect_role_permissions(owner, roles[i], &mut permissions) {
                Ok(()) => {},
                Err(e) => {
                    proof {
                        self@.lemma_roles_permissions_fails(*owner, roles@, i + 1);
                    }
                    return Err(e);
                },
            }
            i += 1;
        }
        assert(roles@.take(i as int) =~= roles@);
        Ok(permissions)
    }
}

/// Nothing is left out where nothing was visited.
pub proof fn lemma_unvisited_of_none(ids: Seq<EntityId>, visited: Seq<EntityId>)
    requires
        visited.len() == 0,
    ensures
        unvisited(ids, visited) == ids,
    decreases ids.len(),
{
    if ids.len() > 0 {
        lemma_unvisited_of_none(ids.drop_last(), visited);
        assert(ids.drop_last().push(ids.last()) =~= ids);
    }
}

impl Rbac for Pallet {
    open spec fn state(&self) -> RbacState {
        self@
    }

    fn generate_key(owner: &AccountId, entity: &EntityId, tag: Tag) -> (key: RbacKeyType) {
        crate::hashing::generate_key(owner, entity, tag)
    }

    fn get_entity(&self, owner: &AccountId, entity_id: &EntityId, tag: Tag) -> (res: Result<
        Entity,
        RbacError,
    >) {
        let key = Self::generate_key(owner, entity_id, tag);
        self.entity_at(&key, entity_id)
    }

    fn check_entity_get_key(&self, owner: &AccountId, entity_id: &EntityId, tag: Tag) -> (res:
        Result<RbacKeyType, RbacError>) {
        let key = Self::generate_key(owner, entity_id, tag);
        match self.check_key(&key, entity_id) {
            Ok(_) => Ok(key),
            Err(e) => Err(e),
        }
    }

    fn get_user_roles(&self, owner: &AccountId, user_id: EntityId) -> (res: Result<
        Vec<Role2User>,
        RbacError,
    >) {
        let key = Self::generate_key(owner, &user_id, Tag::Role2User);
        match self.role2user_store.get(&key) {
            Some(list) => Ok(copy_assignments(list)),
            None => RbacError::err(RbacErrorType::AssignmentDoesNotExist, &user_id),
        }
    }

    fn get_user_groups(&self, owner: &AccountId, user_id: EntityId) -> (res: Result<
        Vec<User2Group>,
        RbacError,
    >) {
        let key = Self::generate_key(owner, &user_id, Tag::User2Group);
        match self.user2group_store.get(&key) {
            Some(list) => Ok(copy_assignments(list)),
            None => RbacError::err(RbacErrorType::AssignmentDoesNotExist, &user_id),
        }
    }

    fn get_group_roles(&self, owner: &AccountId, group_id: EntityId) -> (res: Result<
        Vec<Role2Group>,
        RbacError,
    >) {
        let key = Self::generate_key(owner, &group_id, Tag::Role2Group);
        match self.role2group_store.get(&key) {
            Some(list) => Ok(copy_assignments(list)),
            None => RbacError::err(RbacErrorType::AssignmentDoesNotExist, &group_id),
        }
    }

    fn get_role_permissions(&self, owner: &AccountId, role_id: EntityId) -> (res: Result<
        Vec<Permission2Role>,
        RbacError,
    >) {
        let key = Self::generate_key(owner, &role_id, Tag::Permission2Role);
        match self.permission2role_store.get(&key) {
            Some(list) => Ok(copy_assignments(list)),
            None => RbacError::err(RbacErrorType::AssignmentDoesNotExist, &role_id),
        }
    }

    fn get_user_permissions(&self, owner: &AccountId, user_id: EntityId) -> (res: Result<
        Vec<Entity>,
        RbacError,
    >) {
        let roles = self.roles_of_user(owner, user_id);
        self.permissions_of_roles(owner, &roles)
    }

    fn get_group_permissions(&self, owner: &AccountId, group_id: EntityId) -> (res: Result<
        Vec<Entity>,
        RbacError,
    >) {
        let key = Self::generate_key(owner, &group_id, Tag::Role2Group);
        let mut roles: Vec<EntityId> = Vec::new();
        let nothing: Vec<EntityId> = Vec::new();
        match self.role2group_store.get(&key) {
            Some(val) => {
                push_unvisited(&mut roles, val, &nothing);
                proof {
                    lemma_unvisited_of_none(lefts(val@), nothing@);
                }
            },
            None => {},
        }
        assert(roles@ =~= self@.roles_of_group(*owner, group_id));
        self.permissions_of_roles(owner, &roles)
    }

    fn create_role_to_user(&mut self, owner: &AccountId, role_id: EntityId, user_id: EntityId) -> (res:
        Result<(), RbacError>) {
        let role_key = Self::generate_key(owner, &role_id, Tag::Role);
        let role_2_user_key = Self::generate_key(owner, &user_id, Tag::Role2User);
        if !self.keys_lookup_store.contains_key(&role_key) {
            return RbacError::err(RbacErrorType::EntityDoesNotExist, &role_id);
        }
        let new_assign = Role2User { role: role_id, user: user_id };
        if !assign_in(&mut self.role2user_store, role_2_user_key, new_assign) {
            return RbacError::err(RbacErrorType::AssignmentAlreadyExist, &user_id);
        }
        Ok(())
    }

    fn revoke_role_to_user(&mut self, owner: &AccountId, role_id: EntityId, user_id: EntityId) -> (res:
        Result<(), RbacError>) {
        let role_2_user_key = Self::generate_key(owner, &user_id, Tag::Role2User);
        let new_assign = Role2User { role: role_id, user: user_id };
        if !revoke_in(&mut self.role2user_store, role_2_user_key, new_assign) {
            return RbacError::err(RbacErrorType::AssignmentDoesNotExist, &user_id);
        }
        Ok(())
    }

    fn create_role_to_group(
        &mut self,
        owner: &AccountId,
        role_id: EntityId,
        group_id: EntityId,
    ) -> (res: Result<(), RbacError>) {
        let group_key = Self::generate_key(owner, &group_id, Tag::Group);
        let role_key = Self::generate_key(owner, &role_id, Tag::Role);
        let role_2_group_key = Self::generate_key(owner, &group_id, Tag::Role2Group);
        if !self.keys_lookup_store.contains_key(&role_key) {
            return RbacError::err(RbacErrorType::EntityDoesNotExist, &role_id);
        }
        if !self.keys_lookup_store.contains_key(&group_key) {
            return RbacError::err(RbacErrorType::EntityDoesNotExist, &group_id);
        }
        let new_assign = Role2Group { role: role_id, group: group_id };
        if !assign_in(&mut self.role2group_store, role_2_group_key, new_assign) {
            return RbacError::err(RbacErrorType::AssignmentAlreadyExist, &group_id);
        }
        Ok(())
    }

    fn revoke_role_to_group(
        &mut self,
        owner: &AccountId,
        role_id: EntityId,
        group_id: EntityId,
    ) -> (res: Result<(), RbacError>) {
        let role_2_group_key = Self::generate_key(owner, &group_id, Tag::Role2Group);
        let new_assign = Role2Group { role: role_id, group: group_id };
        if !revoke_in(&mut self.role2group_store, role_2_group_key, new_assign) {
            return RbacError::err(RbacErrorType::AssignmentDoesNotExist, &group_id);
        }
        Ok(())
    }

    fn create_user_to_group(
        &mut self,
        owner: &AccountId,
        user_id: EntityId,
        group_id: EntityId,
    ) -> (res: Result<(), RbacError>) {
        let group_key = Self::generate_key(owner, &group_id, Tag::Group);
        let user_2_group_key = Self::generate_key(owner, &user_id, Tag::User2Group);
        if !self.keys_lookup_store.contains_key(&group_key) {
            return RbacError::err(RbacErrorType::EntityDoesNotExist, &group_id);
        }
        let new_assign = User2Group { user: user_id, group: group_id };
        if !assign_in(&mut self.user2group_store, user_2_group_key, new_assign) {
            return RbacError::err(RbacErrorType::AssignmentAlreadyExist, &group_id);
        }
        Ok(())
    }

    fn revoke_user_to_group(
        &mut self,
        owner: &AccountId,
        user_id: EntityId,
        group_id: EntityId,
    ) -> (res: Result<(), RbacError>) {
        let user_2_group_key = Self::generate_key(owner, &user_id, Tag::User2Group);
        let new_assign = User2Group { user: user_id, group: group_id };
        if !revoke_in(&mut self.user2group_store, user_2_group_key, new_assign) {
            return RbacError::err(RbacErrorType::AssignmentDoesNotExist, &group_id);
        }
        Ok(())
    }

    fn create_permission_to_role(
        &mut self,
        owner: &AccountId,
        permission_id: EntityId,
        role_id: EntityId,
    ) -> (res: Result<(), RbacError>) {
        let role_key = Self::generate_key(owner, &role_id, Tag::Role);
        let permission_key = Self::generate_key(owner, &permission_id, Tag::Permission);
        let permission_2_role_key = Self::generate_key(owner, &role_id, Tag::Permission2Role);
        if !self.keys_lookup_store.contains_key(&role_key) {
            return RbacError::err(RbacErrorType::EntityDoesNotExist, &role_id);
        }
        if !self.keys_lookup_store.contains_key(&permission_key) {
            return RbacError::err(RbacErrorType::EntityDoesNotExist, &permission_id);
        }
        let new_assign = Permission2Role { permission: permission_id, role: role_id };
        if !assign_in(&mut self.permission2role_store, permission_2_role_key, new_assign) {
            return RbacError::err(RbacErrorType::AssignmentAlreadyExist, &role_id);
        }
        Ok(())
    }

    fn revoke_permission_to_role(
        &mut self,
        owner: &AccountId,
        permission_id: EntityId,
        role_id: EntityId,
    ) -> (res: Result<(), RbacError>) {
        let permission_2_role_key = Self::generate_key(owner, &role_id, Tag::Permission2Role);
        let new_assign = Permission2Role { permission: permission_id, role: role_id };
        if !revoke_in(&mut self.permission2role_store, permission_2_role_key, new_assign) {
            return RbacError::err(RbacErrorType::AssignmentDoesNotExist, &role_id);
        }
        Ok(())
    }
}

impl Role for Pallet {
    fn get_role(&self, owner: &AccountId, role_id: EntityId) -> (res: Result<Entity, RbacError>) {
        self.get_entity(owner, &role_id, Tag::Role)
    }

    fn get_roles(&self, owner: &AccountId) -> (res: Result<Vec<Entity>, RbacError>) {
        Ok(self.entities_of(owner, Tag::Role))
    }

    fn create_role(&mut self, owner: &AccountId, role_id: EntityId, name: &[u8]) -> (res: Result<
        (),
        RbacError,
    >) {
        self.create_entity(owner, role_id, name, Tag::Role)
    }

    fn update_existing_role(&mut self, owner: &AccountId, role_id: EntityId, name: &[u8]) -> (res:
        Result<(), RbacError>) {
        self.update_entity(owner, role_id, name, Tag::Role)
    }

    fn disable_existing_role(&mut self, owner: &AccountId, role_id: EntityId) -> (res: Result<
        (),
        RbacError,
    >) {
        self.disable_entity(owner, role_id, Tag::Role)
    }
}

impl Permission for Pallet {
    fn get_permission(&self, owner: &AccountId, permission_id: EntityId) -> (res: Result<
        Entity,
        RbacError,
    >) {
        self.get_entity(owner, &permission_id, Tag::Permission)
    }

    fn get_permissions(&self, owner: &AccountId) -> (res: Result<Vec<Entity>, RbacError>) {
        Ok(self.entities_of(owner, Tag::Permission))
    }

    fn create_permission(&mut self, owner: &AccountId, permission_id: EntityId, name: &[u8]) -> (res:
        Result<(), RbacError>) {
        self.create_entity(owner, permission_id, name, Tag::Permission)
    }

    fn update_existing_permission(
        &mut self,
        owner: &AccountId,
        permission_id: EntityId,
        name: &[u8],
    ) -> (res: Result<(), RbacError>) {
        self.update_entity(owner, permission_id, name, Tag::Permission)
    }

    fn disable_existing_permission(&mut self, owner: &AccountId, permission_id: EntityId) -> (res:
        Result<(), RbacError>) {
        self.disable_entity(owner, permission_id, Tag::Permission)
    }
}

impl Group for Pallet {
    fn get_group(&self, owner: &AccountId, group_id: EntityId) -> (res: Result<Entity, RbacError>) {
        self.get_entity(owner, &group_id, Tag::Group)
    }

    fn get_groups(&self, owner: &AccountId) -> (res: Result<Vec<Entity>, RbacError>) {
        Ok(self.entities_of(owner, Tag::Group))
    }

    fn create_group(&mut self, owner: &AccountId, group_id: EntityId, name: &[u8]) -> (res: Result<
        (),
        RbacError,
    >) {
        self.create_entity(owner, group_id, name, Tag::Group)
    }

    fn update_existing_group(&mut self, owner: &AccountId, group_id: EntityId, name: &[u8]) -> (res:
        Result<(), RbacError>) {
        self.update_entity(owner, group_id, name, Tag::Group)
    }

    fn disable_existing_group(&mut self, owner: &AccountId, group_id: EntityId) -> (res: Result<
        (),
        RbacError,
    >) {
        self.disable_entity(owner, group_id, Tag::Group)
    }
}

} // verus!
