//! The stores as mathematical maps, and every operation as a function on them.

use vstd::prelude::*;
use crate::assignments::{sorted, sorted_insert, sorted_remove, sorted_sequence};
use crate::error::{failure, RbacErrorType, RbacErrorView};
use crate::hashing::spec_generate_key;
use crate::rbac::{AccountId, EntityId, Tag};
use crate::structs::{
    Assignment, EntityView, Permission2Role, Role2Group, Role2User, User2Group,
};

verus! {

/// The version of the storage layout in which every assignment list is ordered.
pub const STORAGE_VERSION: u16 = 1;

/// What the stores hold.
#[verifier::ext_equal]
pub struct RbacState {
    /// Every entity ever created, under its key.
    pub keys_lookup: Map<Seq<u8>, EntityView>,
    /// The roles of each owner, in the order of their creation.
    pub roles: Map<Seq<u8>, Seq<EntityView>>,
    /// The permissions of each owner, in the order of their creation.
    pub permissions: Map<Seq<u8>, Seq<EntityView>>,
    /// The groups of each owner, in the order of their creation.
    pub groups: Map<Seq<u8>, Seq<EntityView>>,
    /// The roles of each user, under the key of the user.
    pub role_to_user: Map<Seq<u8>, Seq<Role2User>>,
    /// The roles of each group, under the key of the group.
    pub role_to_group: Map<Seq<u8>, Seq<Role2Group>>,
    /// The groups of each user, under the key of the user.
    pub user_to_group: Map<Seq<u8>, Seq<User2Group>>,
    /// The permissions of each role, under the key of the role.
    pub permission_to_role: Map<Seq<u8>, Seq<Permission2Role>>,
    /// The version of the layout that the stores were last brought to.
    pub storage_version: u16,
}

/// The list stored under `key`, the empty list where there is none.
pub open spec fn list_at<T>(m: Map<Seq<u8>, Seq<T>>, key: Seq<u8>) -> Seq<T> {
    if m.contains_key(key) {
        m[key]
    } else {
        Seq::empty()
    }
}

/// The first position in `list` of an entity with the identifier `id`, or
/// the length of the list where there is none.
pub open spec fn position_of(list: Seq<EntityView>, id: EntityId) -> int
    decreases list.len(),
{
    if list.len() == 0 {
        0
    } else if list[0].id == id {
        0
    } else {
        1 + position_of(list.drop_first(), id)
    }
}

/// Every list of the store is in ascending natural order.
pub open spec fn lists_sorted<P: Assignment>(m: Map<Seq<u8>, Seq<P>>) -> bool {
    forall|key: Seq<u8>| m.contains_key(key) ==> sorted(#[trigger] m[key])
}

/// The store after `p` has entered the list under `key`; nothing where the list holds it already.
pub open spec fn assign<P: Assignment>(m: Map<Seq<u8>, Seq<P>>, key: Seq<u8>, p: P) -> Option<
    Map<Seq<u8>, Seq<P>>,
> {
    let list = list_at(m, key);
    if list.contains(p) {
        None
    } else {
        Some(m.insert(key, sorted_insert(list, p)))
    }
}

/// The store after `p` has left the list under `key`, and the list with it
/// where it was the last item; nothing where the list does not hold it.
pub open spec fn revoke<P: Assignment>(m: Map<Seq<u8>, Seq<P>>, key: Seq<u8>, p: P) -> Option<
    Map<Seq<u8>, Seq<P>>,
> {
    if !m.contains_key(key) || !m[key].contains(p) {
        None
    } else {
        let rest = sorted_remove(m[key], p);
        if rest.len() == 0 {
            Some(m.remove(key))
        } else {
            Some(m.insert(key, rest))
        }
    }
}

/// The store with every list brought into ascending natural order.
pub open spec fn all_sorted<P: Assignment>(m: Map<Seq<u8>, Seq<P>>) -> Map<Seq<u8>, Seq<P>> {
    m.map_values(|list: Seq<P>| sorted_sequence(list))
}

/// The first identifiers of the assignments, in order.
pub open spec fn lefts<P: Assignment>(list: Seq<P>) -> Seq<EntityId> {
    Seq::new(list.len(), |i: int| list[i].left())
}

/// The identifiers of `ids` that `visited` does not hold, in order.
pub open spec fn unvisited(ids: Seq<EntityId>, visited: Seq<EntityId>) -> Seq<EntityId>
    decreases ids.len(),
{
    if ids.len() == 0 {
        Seq::empty()
    } else if visited.contains(ids.last()) {
        unvisited(ids.drop_last(), visited)
    } else {
        unvisited(ids.drop_last(), visited).push(ids.last())
    }
}

impl RbacState {
    /// The stores before anything was written.
    pub open spec fn empty() -> RbacState {
        RbacState {
            keys_lookup: Map::empty(),
            roles: Map::empty(),
            permissions: Map::empty(),
            groups: Map::empty(),
            role_to_user: Map::empty(),
            role_to_group: Map::empty(),
            user_to_group: Map::empty(),
            permission_to_role: Map::empty(),
            storage_version: 0,
        }
    }

    /// Every assignment list is in ascending natural order.
    pub open spec fn assignments_sorted(self) -> bool {
        &&& lists_sorted(self.role_to_user)
        &&& lists_sorted(self.role_to_group)
        &&& lists_sorted(self.user_to_group)
        &&& lists_sorted(self.permission_to_role)
    }

    /// The per-owner lists of the kind that `tag` names: roles, permissions, else groups.
    pub open spec fn entities(self, tag: Tag) -> Map<Seq<u8>, Seq<EntityView>> {
        match tag {
            Tag::Role => self.roles,
            Tag::Permission => self.permissions,
            _ => self.groups,
        }
    }

    /// The stores with `lists` as the per-owner lists of the kind that `tag` names.
    pub open spec fn with_entities(self, tag: Tag, lists: Map<Seq<u8>, Seq<EntityView>>) -> RbacState {
        match tag {
            Tag::Role => RbacState { roles: lists, ..self },
            Tag::Permission => RbacState { permissions: lists, ..self },
            _ => RbacState { groups: lists, ..self },
        }
    }

    /// Whether an entity is stored under `key`, and enabled; `id` is the
    /// identifier that a failure names.
    pub open spec fn check_key(self, key: Seq<u8>, id: EntityId) -> Result<(), RbacErrorView> {
        if !self.keys_lookup.contains_key(key) {
            Err(failure(RbacErrorType::EntityDoesNotExist, id))
        } else if !self.keys_lookup[key].enabled {
            Err(failure(RbacErrorType::EntityDisabled, id))
        } else {
            Ok(())
        }
    }

    /// The entity stored under `key`, if it is enabled.
    pub open spec fn entity_at(self, key: Seq<u8>, id: EntityId) -> Result<
        EntityView,
        RbacErrorView,
    > {
        match self.check_key(key, id) {
            Ok(_) => Ok(self.keys_lookup[key]),
            Err(e) => Err(e),
        }
    }

    /// The key of an entity that exists and is enabled.
    pub open spec fn check_entity_get_key(self, owner: AccountId, id: EntityId, tag: Tag) -> Result<
        Seq<u8>,
        RbacErrorView,
    > {
        let key = spec_generate_key(owner, id, tag);
        match self.check_key(key, id) {
            Ok(_) => Ok(key),
            Err(e) => Err(e),
        }
    }

    /// An entity that exists and is enabled.
    pub open spec fn get_entity(self, owner: AccountId, id: EntityId, tag: Tag) -> Result<
        EntityView,
        RbacErrorView,
    > {
        self.entity_at(spec_generate_key(owner, id, tag), id)
    }

    /// All entities of one kind that `owner` created, disabled ones included.
    pub open spec fn get_entities(self, owner: AccountId, tag: Tag) -> Seq<EntityView> {
        list_at(self.entities(tag), owner@)
    }

    /// Stores an enabled entity under `key` and at the end of the owner's
    /// list, unless the key is taken.
    pub open spec fn create_entity_at(
        self,
        key: Seq<u8>,
        owner: AccountId,
        id: EntityId,
        name: Seq<u8>,
        tag: Tag,
    ) -> Result<RbacState, RbacErrorView> {
        if self.keys_lookup.contains_key(key) {
            Err(failure(RbacErrorType::EntityAlreadyExist, id))
        } else {
            let entity = EntityView { id, name, enabled: true };
            let list = self.get_entities(owner, tag).push(entity);
            Ok(
                RbacState {
                    keys_lookup: self.keys_lookup.insert(key, entity),
                    ..self.with_entities(tag, self.entities(tag).insert(owner@, list))
                },
            )
        }
    }

    /// Creates an enabled entity, unless its key is taken.
    pub open spec fn create_entity(
        self,
        owner: AccountId,
        id: EntityId,
        name: Seq<u8>,
        tag: Tag,
    ) -> Result<RbacState, RbacErrorView> {
        self.create_entity_at(spec_generate_key(owner, id, tag), owner, id, name, tag)
    }

    /// Puts what `change` makes of the owner's first entity with the
    /// identifier `id` in its place and under `key`. Nothing changes where
    /// the owner has no such entity.
    pub open spec fn replace_entity(
        self,
        owner: AccountId,
        id: EntityId,
        tag: Tag,
        key: Seq<u8>,
        change: spec_fn(EntityView) -> EntityView,
    ) -> RbacState {
        let list = self.get_entities(owner, tag);
        let at = position_of(list, id);
        if at < list.len() {
            let entity = change(list[at]);
            RbacState {
                keys_lookup: self.keys_lookup.insert(key, entity),
                ..self.with_entities(tag, self.entities(tag).insert(owner@, list.update(at, entity)))
            }
        } else {
            self
        }
    }

    /// Gives the entity under `key`, where it is enabled, another name.
    pub open spec fn update_entity_at(
        self,
        key: Seq<u8>,
        owner: AccountId,
        id: EntityId,
        name: Seq<u8>,
        tag: Tag,
    ) -> Result<RbacState, RbacErrorView> {
        match self.check_key(key, id) {
            Ok(_) => Ok(
                self.replace_entity(
                    owner,
                    id,
                    tag,
                    key,
                    |e: EntityView| EntityView { name, ..e },
                ),
            ),
            Err(e) => Err(e),
        }
    }

    /// Gives an entity that exists and is enabled another name.
    pub open spec fn update_entity(
        self,
        owner: AccountId,
        id: EntityId,
        name: Seq<u8>,
        tag: Tag,
    ) -> Result<RbacState, RbacErrorView> {
        self.update_entity_at(spec_generate_key(owner, id, tag), owner, id, name, tag)
    }

    /// Disables the entity under `key`, where it is enabled.
    pub open spec fn disable_entity_at(
        self,
        key: Seq<u8>,
        owner: AccountId,
        id: EntityId,
        tag: Tag,
    ) -> Result<RbacState, RbacErrorView> {
        match self.check_key(key, id) {
            Ok(_) => Ok(
                self.replace_entity(
                    owner,
                    id,
                    tag,
                    key,
                    |e: EntityView| EntityView { enabled: false, ..e },
                ),
            ),
            Err(e) => Err(e),
        }
    }

    /// Disables an entity that exists and is enabled.
    pub open spec fn disable_entity(self, owner: AccountId, id: EntityId, tag: Tag) -> Result<
        RbacState,
        RbacErrorView,
    > {
        self.disable_entity_at(spec_generate_key(owner, id, tag), owner, id, tag)
    }

    /// Whether an entity was ever created under the key of `(owner, id, tag)`.
    pub open spec fn was_created(self, owner: AccountId, id: EntityId, tag: Tag) -> bool {
        self.keys_lookup.contains_key(spec_generate_key(owner, id, tag))
    }

    /// The roles assigned to a user.
    pub open spec fn get_user_roles(self, owner: AccountId, user_id: EntityId) -> Result<
        Seq<Role2User>,
        RbacErrorView,
    > {
        let key = spec_generate_key(owner, user_id, Tag::Role2User);
        if self.role_to_user.contains_key(key) {
            Ok(self.role_to_user[key])
        } else {
            Err(failure(RbacErrorType::AssignmentDoesNotExist, user_id))
        }
    }

    /// The groups that a user belongs to.
    pub open spec fn get_user_groups(self, owner: AccountId, user_id: EntityId) -> Result<
        Seq<User2Group>,
        RbacErrorView,
    > {
        let key = spec_generate_key(owner, user_id, Tag::User2Group);
        if self.user_to_group.contains_key(key) {
            Ok(self.user_to_group[key])
        } else {
            Err(failure(RbacErrorType::AssignmentDoesNotExist, user_id))
        }
    }

    /// The roles assigned to a group.
    pub open spec fn get_group_roles(self, owner: AccountId, group_id: EntityId) -> Result<
        Seq<Role2Group>,
        RbacErrorView,
    > {
        let key = spec_generate_key(owner, group_id, Tag::Role2Group);
        if self.role_to_group.contains_key(key) {
            Ok(self.role_to_group[key])
        } else {
            Err(failure(RbacErrorType::AssignmentDoesNotExist, group_id))
        }
    }

    /// The permissions assigned to a role.
    pub open spec fn get_role_permissions(self, owner: AccountId, role_id: EntityId) -> Result<
        Seq<Permission2Role>,
        RbacErrorView,
    > {
        let key = spec_generate_key(owner, role_id, Tag::Permission2Role);
        if self.permission_to_role.contains_key(key) {
            Ok(self.permission_to_role[key])
        } else {
            Err(failure(RbacErrorType::AssignmentDoesNotExist, role_id))
        }
    }

    /// The permission entities that `grants` name, in order; the first
    /// permission that is missing or disabled fails the whole.
    pub open spec fn resolve(self, owner: AccountId, grants: Seq<Permission2Role>) -> Result<
        Seq<EntityView>,
        RbacErrorView,
    >
        decreases grants.len(),
    {
        if grants.len() == 0 {
            Ok(Seq::empty())
        } else {
            match self.resolve(owner, grants.drop_last()) {
                Err(e) => Err(e),
                Ok(found) => match self.get_entity(
                    owner,
                    grants.last().permission,
                    Tag::Permission,
                ) {
                    Err(e) => Err(e),
                    Ok(entity) => Ok(found.push(entity)),
                },
            }
        }
    }

    /// The permission entities of one role.
    pub open spec fn role_permissions(self, owner: AccountId, role_id: EntityId) -> Result<
        Seq<EntityView>,
        RbacErrorView,
    > {
        match self.get_role_permissions(owner, role_id) {
            Err(e) => Err(e),
            Ok(grants) => self.resolve(owner, grants),
        }
    }

    /// The permission entities of `roles`, role after role; the first role
    /// that fails fails the whole.
    pub open spec fn roles_permissions(self, owner: AccountId, roles: Seq<EntityId>) -> Result<
        Seq<EntityView>,
        RbacErrorView,
    >
        decreases roles.len(),
    {
        if roles.len() == 0 {
            Ok(Seq::empty())
        } else {
            match self.roles_permissions(owner, roles.drop_last()) {
                Err(e) => Err(e),
                Ok(found) => match self.role_permissions(owner, roles.last()) {
                    Err(e) => Err(e),
                    Ok(more) => Ok(found + more),
                },
            }
        }
    }

    /// The roles of the groups that `memberships` name, group after group,
    /// without the roles that `visited` holds.
    pub open spec fn roles_through_groups(
        self,
        owner: AccountId,
        memberships: Seq<User2Group>,
        visited: Seq<EntityId>,
    ) -> Seq<EntityId>
        decreases memberships.len(),
    {
        if memberships.len() == 0 {
            Seq::empty()
        } else {
            let key = spec_generate_key(owner, memberships.last().group, Tag::Role2Group);
            self.roles_through_groups(owner, memberships.drop_last(), visited) + unvisited(
                lefts(list_at(self.role_to_group, key)),
                visited,
            )
        }
    }

    /// The roles of a user in the order in which they are resolved: the
    /// roles assigned to the user, then for each group of the user the roles
    /// of that group that are not assigned to the user itself.
    pub open spec fn roles_of_user(self, owner: AccountId, user_id: EntityId) -> Seq<EntityId> {
        let direct = lefts(
            list_at(self.role_to_user, spec_generate_key(owner, user_id, Tag::Role2User)),
        );
        let memberships = list_at(
            self.user_to_group,
            spec_generate_key(owner, user_id, Tag::User2Group),
        );
        direct + self.roles_through_groups(owner, memberships, direct)
    }

    /// The roles of a group.
    pub open spec fn roles_of_group(self, owner: AccountId, group_id: EntityId) -> Seq<EntityId> {
        lefts(list_at(self.role_to_group, spec_generate_key(owner, group_id, Tag::Role2Group)))
    }

    /// The permissions that a user effectively has.
    pub open spec fn get_user_permissions(self, owner: AccountId, user_id: EntityId) -> Result<
        Seq<EntityView>,
        RbacErrorView,
    > {
        self.roles_permissions(owner, self.roles_of_user(owner, user_id))
    }

    /// The permissions that a group effectively has.
    pub open spec fn get_group_permissions(self, owner: AccountId, group_id: EntityId) -> Result<
        Seq<EntityView>,
        RbacErrorView,
    > {
        self.roles_permissions(owner, self.roles_of_group(owner, group_id))
    }

    /// Assigns a role that exists to a user.
    pub open spec fn create_role_to_user(
        self,
        owner: AccountId,
        role_id: EntityId,
        user_id: EntityId,
    ) -> Result<RbacState, RbacErrorView> {
        if !self.was_created(owner, role_id, Tag::Role) {
            Err(failure(RbacErrorType::EntityDoesNotExist, role_id))
        } else {
            match assign(
                self.role_to_user,
                spec_generate_key(owner, user_id, Tag::Role2User),
                Role2User { role: role_id, user: user_id },
            ) {
                None => Err(failure(RbacErrorType::AssignmentAlreadyExist, user_id)),
                Some(lists) => Ok(RbacState { role_to_user: lists, ..self }),
            }
        }
    }

    /// Takes a role from a user.
    pub open spec fn revoke_role_to_user(
        self,
        owner: AccountId,
        role_id: EntityId,
        user_id: EntityId,
    ) -> Result<RbacState, RbacErrorView> {
        match revoke(
            self.role_to_user,
            spec_generate_key(owner, user_id, Tag::Role2User),
            Role2User { role: role_id, user: user_id },
        ) {
            None => Err(failure(RbacErrorType::AssignmentDoesNotExist, user_id)),
            Some(lists) => Ok(RbacState { role_to_user: lists, ..self }),
        }
    }

    /// Assigns a role that exists to a group that exists.
    pub open spec fn create_role_to_group(
        self,
        owner: AccountId,
        role_id: EntityId,
        group_id: EntityId,
    ) -> Result<RbacState, RbacErrorView> {
        if !self.was_created(owner, role_id, Tag::Role) {
            Err(failure(RbacErrorType::EntityDoesNotExist, role_id))
        } else if !self.was_created(owner, group_id, Tag::Group) {
            Err(failure(RbacErrorType::EntityDoesNotExist, group_id))
        } else {
            match assign(
                self.role_to_group,
                spec_generate_key(owner, group_id, Tag::Role2Group),
                Role2Group { role: role_id, group: group_id },
            ) {
                None => Err(failure(RbacErrorType::AssignmentAlreadyExist, group_id)),
                Some(lists) => Ok(RbacState { role_to_group: lists, ..self }),
            }
        }
    }

    /// Takes a role from a group.
    pub open spec fn revoke_role_to_group(
        self,
        owner: AccountId,
        role_id: EntityId,
        group_id: EntityId,
    ) -> Result<RbacState, RbacErrorView> {
        match revoke(
            self.role_to_group,
            spec_generate_key(owner, group_id, Tag::Role2Group),
            Role2Group { role: role_id, group: group_id },
        ) {
            None => Err(failure(RbacErrorType::AssignmentDoesNotExist, group_id)),
            Some(lists) => Ok(RbacState { role_to_group: lists, ..self }),
        }
    }

    /// Puts a user into a group that exists.
    pub open spec fn create_user_to_group(
        self,
        owner: AccountId,
        user_id: EntityId,
        group_id: EntityId,
    ) -> Result<RbacState, RbacErrorView> {
        if !self.was_created(owner, group_id, Tag::Group) {
            Err(failure(RbacErrorType::EntityDoesNotExist, group_id))
        } else {
            match assign(
                self.user_to_group,
                spec_generate_key(owner, user_id, Tag::User2Group),
                User2Group { user: user_id, group: group_id },
            ) {
                None => Err(failure(RbacErrorType::AssignmentAlreadyExist, group_id)),
                Some(lists) => Ok(RbacState { user_to_group: lists, ..self }),
            }
        }
    }

    /// Takes a user out of a group.
    pub open spec fn revoke_user_to_group(
        self,
        owner: AccountId,
        user_id: EntityId,
        group_id: EntityId,
    ) -> Result<RbacState, RbacErrorView> {
        match revoke(
            self.user_to_group,
            spec_generate_key(owner, user_id, Tag::User2Group),
            User2Group { user: user_id, group: group_id },
        ) {
            None => Err(failure(RbacErrorType::AssignmentDoesNotExist, group_id)),
            Some(lists) => Ok(RbacState { user_to_group: lists, ..self }),
        }
    }

    /// Grants a permission that exists to a role that exists.
    pub open spec fn create_permission_to_role(
        self,
        owner: AccountId,
        permission_id: EntityId,
        role_id: EntityId,
    ) -> Result<RbacState, RbacErrorView> {
        if !self.was_created(owner, role_id, Tag::Role) {
            Err(failure(RbacErrorType::EntityDoesNotExist, role_id))
        } else if !self.was_created(owner, permission_id, Tag::Permission) {
            Err(failure(RbacErrorType::EntityDoesNotExist, permission_id))
        } else {
            match assign(
                self.permission_to_role,
                spec_generate_key(owner, role_id, Tag::Permission2Role),
                Permission2Role { permission: permission_id, role: role_id },
            ) {
                None => Err(failure(RbacErrorType::AssignmentAlreadyExist, role_id)),
                Some(lists) => Ok(RbacState { permission_to_role: lists, ..self }),
            }
        }
    }

    /// Takes a permission from a role.
    pub open spec fn revoke_permission_to_role(
        self,
        owner: AccountId,
        permission_id: EntityId,
        role_id: EntityId,
    ) -> Result<RbacState, RbacErrorView> {
        match revoke(
            self.permission_to_role,
            spec_generate_key(owner, role_id, Tag::Permission2Role),
            Permission2Role { permission: permission_id, role: role_id },
        ) {
            None => Err(failure(RbacErrorType::AssignmentDoesNotExist, role_id)),
            Some(lists) => Ok(RbacState { permission_to_role: lists, ..self }),
        }
    }

    /// The number of assignment lists in the four stores.
    pub open spec fn assignment_lists(self) -> nat {
        self.role_to_user.dom().len() + self.role_to_group.dom().len()
            + self.user_to_group.dom().len() + self.permission_to_role.dom().len()
    }

    /// The stores after the upgrade of the layout: where the version is
    /// behind, every assignment list is brought into order and the version
    /// is set; else nothing changes.
    pub open spec fn migrated(self) -> RbacState {
        if self.storage_version < STORAGE_VERSION {
            RbacState {
                role_to_user: all_sorted(self.role_to_user),
                role_to_group: all_sorted(self.role_to_group),
                user_to_group: all_sorted(self.user_to_group),
                permission_to_role: all_sorted(self.permission_to_role),
                storage_version: STORAGE_VERSION,
                ..self
            }
        } else {
            self
        }
    }

    /// The number of lists that the upgrade of the layout rewrites.
    pub open spec fn migration_work(self) -> nat {
        if self.storage_version < STORAGE_VERSION {
            self.assignment_lists()
        } else {
            0
        }
    }
}

impl RbacState {
    /// Resolving one more grant resolves what came before it, then the grant.
    pub proof fn lemma_resolve_step(self, owner: AccountId, grants: Seq<Permission2Role>, i: int)
        requires
            0 <= i < grants.len(),
        ensures
            self.resolve(owner, grants.take(i + 1)) == (match self.resolve(owner, grants.take(i)) {
                Err(e) => Err(e),
                Ok(found) => match self.get_entity(owner, grants[i].permission, Tag::Permission) {
                    Err(e) => Err(e),
                    Ok(entity) => Ok(found.push(entity)),
                },
            }),
    {
        assert(grants.take(i + 1).drop_last() =~= grants.take(i));
        assert(grants.take(i + 1).last() == grants[i]);
    }

    /// A failure among the first grants is the failure of the whole.
    pub proof fn lemma_resolve_fails(self, owner: AccountId, grants: Seq<Permission2Role>, i: int)
        requires
            0 <= i <= grants.len(),
            self.resolve(owner, grants.take(i)) is Err,
        ensures
            self.resolve(owner, grants) == self.resolve(owner, grants.take(i)),
        decreases grants.len() - i,
    {
        if i == grants.len() {
            assert(grants.take(i) =~= grants);
        } else {
            self.lemma_resolve_step(owner, grants, i);
            self.lemma_resolve_fails(owner, grants, i + 1);
        }
    }

    /// Resolving one more role resolves what came before it, then the role.
    pub proof fn lemma_roles_permissions_step(self, owner: AccountId, roles: Seq<EntityId>, i: int)
        requires
            0 <= i < roles.len(),
        ensures
            self.roles_permissions(owner, roles.take(i + 1)) == (match self.roles_permissions(
                owner,
                roles.take(i),
            ) {
                Err(e) => Err(e),
                Ok(found) => match self.role_permissions(owner, roles[i]) {
                    Err(e) => Err(e),
                    Ok(more) => Ok(found + more),
                },
            }),
    {
        assert(roles.take(i + 1).drop_last() =~= roles.take(i));
        assert(roles.take(i + 1).last() == roles[i]);
    }

    /// A failure among the first roles is the failure of the whole.
    pub proof fn lemma_roles_permissions_fails(self, owner: AccountId, roles: Seq<EntityId>, i: int)
        requires
            0 <= i <= roles.len(),
            self.roles_permissions(owner, roles.take(i)) is Err,
        ensures
            self.roles_permissions(owner, roles) == self.roles_permissions(owner, roles.take(i)),
        decreases roles.len() - i,
    {
        if i == roles.len() {
            assert(roles.take(i) =~= roles);
        } else {
            self.lemma_roles_permissions_step(owner, roles, i);
            self.lemma_roles_permissions_fails(owner, roles, i + 1);
        }
    }

    /// The roles through one more group are those through the groups
    /// before it, then the unvisited roles of that group.
    pub proof fn lemma_roles_through_groups_step(
        self,
        owner: AccountId,
        memberships: Seq<User2Group>,
        visited: Seq<EntityId>,
        i: int,
    )
        requires
            0 <= i < memberships.len(),
        ensures
            self.roles_through_groups(owner, memberships.take(i + 1), visited)
                == self.roles_through_groups(owner, memberships.take(i), visited) + unvisited(
                lefts(
                    list_at(
                        self.role_to_group,
                        spec_generate_key(owner, memberships[i].group, Tag::Role2Group),
                    ),
                ),
                visited,
            ),
    {
        assert(memberships.take(i + 1).drop_last() =~= memberships.take(i));
        assert(memberships.take(i + 1).last() == memberships[i]);
    }
}

/// The unvisited identifiers of a list with one more identifier.
pub proof fn lemma_unvisited_step<P: Assignment>(list: Seq<P>, visited: Seq<EntityId>, j: int)
    requires
        0 <= j < list.len(),
    ensures
        unvisited(lefts(list.take(j + 1)), visited) == (if visited.contains(list[j].left()) {
            unvisited(lefts(list.take(j)), visited)
        } else {
            unvisited(lefts(list.take(j)), visited).push(list[j].left())
        }),
{
    assert(lefts(list.take(j + 1)).drop_last() =~= lefts(list.take(j)));
    assert(lefts(list.take(j + 1)).last() == list[j].left());
}

} // verus!
