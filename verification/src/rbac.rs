//! Identifiers, tags and key derivation inputs shared by every store.

use vstd::prelude::*;
use vstd::string::StringSliceAdditionalSpecFns;
use crate::error::{result_view, RbacError, RbacErrorView};
use crate::hashing::spec_generate_key;
use crate::model::{lists_sorted, RbacState};
use crate::structs::{
    entities_view, Entity, EntityView, Permission2Role, Role2Group, Role2User, User2Group,
};

verus! {

/// Identifier of a role, permission, group or user.
pub type EntityId = [u8; 32];

/// Identifier of the principal that owns a namespace.
pub type AccountId = [u8; 32];

/// Key of an entity or of an assignment list.
pub type RbacKeyType = [u8; 32];

/// Discriminator that separates entity kinds and assignment kinds when a key is derived.
#[derive(Clone, Copy, Debug, PartialEq, Eq, Structural)]
pub enum Tag {
    Role,
    Group,
    Role2User,
    Role2Group,
    User2Group,
    Permission,
    Permission2Role,
}

impl Tag {
    /// The characters of the canonical string form of the tag.
    pub open spec fn name(self) -> Seq<char> {
        match self {
            Tag::Role => "Role"@,
            Tag::Group => "Group"@,
            Tag::Role2User => "R2U"@,
            Tag::Role2Group => "R2G"@,
            Tag::User2Group => "U2G"@,
            Tag::Permission => "Permission"@,
            Tag::Permission2Role => "P2R"@,
        }
    }

    /// The bytes of the canonical string form, as they enter key derivation.
    pub open spec fn bytes(self) -> Seq<u8> {
        vstd::utf8::encode_utf8(self.name())
    }

    /// The canonical string form of the tag.
    pub fn to_string(&self) -> (s: &'static str)
        ensures
            s@ == self.name(),
            s.spec_bytes() == self.bytes(),
    {
        match self {
            Self::Role => "Role",
            Self::Group => "Group",
            Self::Role2User => "R2U",
            Self::Role2Group => "R2G",
            Self::User2Group => "U2G",
            Self::Permission => "Permission",
            Self::Permission2Role => "P2R",
        }
    }
}

/// A list of entities, or a failure, seen as views.
pub open spec fn entities_result_view(res: Result<Vec<Entity>, RbacError>) -> Result<
    Seq<EntityView>,
    RbacErrorView,
> {
    match res {
        Ok(list) => Ok(entities_view(list@)),
        Err(e) => Err(e@),
    }
}

/// What a write must have done: on success the stores are as `expected`
/// says, on failure they are as before and the failure is the expected one.
pub open spec fn outcome(
    res: Result<(), RbacError>,
    before: RbacState,
    after: RbacState,
    expected: Result<RbacState, RbacErrorView>,
) -> bool {
    match expected {
        Ok(next) => res is Ok && after == next,
        Err(e) => res is Err && res->Err_0@ == e && after == before,
    }
}

/// Keys, assignments and the resolution of permissions.
pub trait Rbac {
    /// What the stores hold.
    spec fn state(&self) -> RbacState;

    /// Derives the key of `(owner, entity, tag)`.
    fn generate_key(owner: &AccountId, entity: &EntityId, tag: Tag) -> (key: RbacKeyType)
        ensures
            key@ == spec_generate_key(*owner, *entity, tag),
    ;

    /// The entity under the key of `(owner, entity, tag)`, if it exists and is enabled.
    fn get_entity(&self, owner: &AccountId, entity: &EntityId, tag: Tag) -> (res: Result<
        Entity,
        RbacError,
    >)
        ensures
            result_view(res) == self.state().get_entity(*owner, *entity, tag),
    ;

    /// The key of `(owner, entity, tag)`, if an entity exists under it and is enabled.
    fn check_entity_get_key(&self, owner: &AccountId, entity: &EntityId, tag: Tag) -> (res: Result<
        RbacKeyType,
        RbacError,
    >)
        ensures
            result_view(res) == self.state().check_entity_get_key(*owner, *entity, tag),
    ;

    /// The roles assigned to a user; fails where no list is stored for the user.
    fn get_user_roles(&self, owner: &AccountId, user_id: EntityId) -> (res: Result<
        Vec<Role2User>,
        RbacError,
    >)
        ensures
            result_view(res) == self.state().get_user_roles(*owner, user_id),
    ;

    /// The groups that a user belongs to; fails where no list is stored for the user.
    fn get_user_groups(&self, owner: &AccountId, user_id: EntityId) -> (res: Result<
        Vec<User2Group>,
        RbacError,
    >)
        ensures
            result_view(res) == self.state().get_user_groups(*owner, user_id),
    ;

    /// The roles assigned to a group; fails where no list is stored for the group.
    fn get_group_roles(&self, owner: &AccountId, group_id: EntityId) -> (res: Result<
        Vec<Role2Group>,
        RbacError,
    >)
        ensures
            result_view(res) == self.state().get_group_roles(*owner, group_id),
    ;

    /// The permissions granted to a role; fails where no list is stored for the role.
    fn get_role_permissions(&self, owner: &AccountId, role_id: EntityId) -> (res: Result<
        Vec<Permission2Role>,
        RbacError,
    >)
        ensures
            result_view(res) == self.state().get_role_permissions(*owner, role_id),
    ;

    /// The permissions that a user effectively has: those of the roles assigned
    /// to the user, then those of the roles of the user's groups that are not
    /// assigned to the user itself. No assignment means no permission.
    fn get_user_permissions(&self, owner: &AccountId, user_id: EntityId) -> (res: Result<
        Vec<Entity>,
        RbacError,
    >)
        ensures
            entities_result_view(res) == self.state().get_user_permissions(*owner, user_id),
    ;

    /// The permissions that a group effectively has: those of the roles
    /// assigned to the group. No assignment means no permission.
    fn get_group_permissions(&self, owner: &AccountId, group_id: EntityId) -> (res: Result<
        Vec<Entity>,
        RbacError,
    >)
        ensures
            entities_result_view(res) == self.state().get_group_permissions(*owner, group_id),
    ;

    /// Assigns a role that exists to a user.
    fn create_role_to_user(&mut self, owner: &AccountId, role_id: EntityId, user_id: EntityId) -> (res:
        Result<(), RbacError>)
        requires
            lists_sorted(old(self).state().role_to_user),
        ensures
            outcome(
                res,
                old(self).state(),
                final(self).state(),
                old(self).state().create_role_to_user(*owner, role_id, user_id),
            ),
            lists_sorted(final(self).state().role_to_user),
    ;

    /// Takes a role from a user.
    fn revoke_role_to_user(&mut self, owner: &AccountId, role_id: EntityId, user_id: EntityId) -> (res:
        Result<(), RbacError>)
        requires
            lists_sorted(old(self).state().role_to_user),
        ensures
            outcome(
                res,
                old(self).state(),
                final(self).state(),
                old(self).state().revoke_role_to_user(*owner, role_id, user_id),
            ),
            lists_sorted(final(self).state().role_to_user),
    ;

    /// Assigns a role that exists to a group that exists.
    fn create_role_to_group(
        &mut self,
        owner: &AccountId,
        role_id: EntityId,
        group_id: EntityId,
    ) -> (res: Result<(), RbacError>)
        requires
            lists_sorted(old(self).state().role_to_group),
        ensures
            outcome(
                res,
                old(self).state(),
                final(self).state(),
                old(self).state().create_role_to_group(*owner, role_id, group_id),
            ),
            lists_sorted(final(self).state().role_to_group),
    ;

    /// Takes a role from a group.
    fn revoke_role_to_group(
        &mut self,
        owner: &AccountId,
        role_id: EntityId,
        group_id: EntityId,
    ) -> (res: Result<(), RbacError>)
        requires
            lists_sorted(old(self).state().role_to_group),
        ensures
            outcome(
                res,
                old(self).state(),
                final(self).state(),
                old(self).state().revoke_role_to_group(*owner, role_id, group_id),
            ),
            lists_sorted(final(self).state().role_to_group),
    ;

    /// Puts a user into a group that exists.
    fn create_user_to_group(
        &mut self,
        owner: &AccountId,
        user_id: EntityId,
        group_id: EntityId,
    ) -> (res: Result<(), RbacError>)
        requires
            lists_sorted(old(self).state().user_to_group),
        ensures
            outcome(
                res,
                old(self).state(),
                final(self).state(),
                old(self).state().create_user_to_group(*owner, user_id, group_id),
            ),
            lists_sorted(final(self).state().user_to_group),
    ;

    /// Takes a user out of a group.
    fn revoke_user_to_group(
        &mut self,
        owner: &AccountId,
        user_id: EntityId,
        group_id: EntityId,
    ) -> (res: Result<(), RbacError>)
        requires
            lists_sorted(old(self).state().user_to_group),
        ensures
            outcome(
                res,
                old(self).state(),
                final(self).state(),
                old(self).state().revoke_user_to_group(*owner, user_id, group_id),
            ),
            lists_sorted(final(self).state().user_to_group),
    ;

    /// Grants a permission that exists to a role that exists.
    fn create_permission_to_role(
        &mut self,
        owner: &AccountId,
        permission_id: EntityId,
        role_id: EntityId,
    ) -> (res: Result<(), RbacError>)
        requires
            lists_sorted(old(self).state().permission_to_role),
        ensures
            outcome(
                res,
                old(self).state(),
                final(self).state(),
                old(self).state().create_permission_to_role(*owner, permission_id, role_id),
            ),
            lists_sorted(final(self).state().permission_to_role),
    ;

    /// Takes a permission from a role.
    fn revoke_permission_to_role(
        &mut self,
        owner: &AccountId,
        permission_id: EntityId,
        role_id: EntityId,
    ) -> (res: Result<(), RbacError>)
        requires
            lists_sorted(old(self).state().permission_to_role),
        ensures
            outcome(
                res,
                old(self).state(),
                final(self).state(),
                old(self).state().revoke_permission_to_role(*owner, permission_id, role_id),
            ),
            lists_sorted(final(self).state().permission_to_role),
    ;
}

/// The roles of an owner.
pub trait Role: Rbac {
    /// A role of the owner, if it exists and is enabled.
    fn get_role(&self, owner: &AccountId, role_id: EntityId) -> (res: Result<Entity, RbacError>)
        ensures
            result_view(res) == self.state().get_entity(*owner, role_id, Tag::Role),
    ;

    /// All roles of the owner, disabled ones included.
    fn get_roles(&self, owner: &AccountId) -> (res: Result<Vec<Entity>, RbacError>)
        ensures
            entities_result_view(res) == Ok::<Seq<EntityView>, RbacErrorView>(
                self.state().get_entities(*owner, Tag::Role),
            ),
    ;

    /// Creates an enabled role, unless its key is taken.
    fn create_role(&mut self, owner: &AccountId, role_id: EntityId, name: &[u8]) -> (res: Result<
        (),
        RbacError,
    >)
        requires
            name@.len() <= 64,
        ensures
            outcome(
                res,
                old(self).state(),
                final(self).state(),
                old(self).state().create_entity(*owner, role_id, name@, Tag::Role),
            ),
    ;

    /// Renames a role that exists and is enabled.
    fn update_existing_role(&mut self, owner: &AccountId, role_id: EntityId, name: &[u8]) -> (res:
        Result<(), RbacError>)
        requires
            name@.len() <= 64,
        ensures
            outcome(
                res,
                old(self).state(),
                final(self).state(),
                old(self).state().update_entity(*owner, role_id, name@, Tag::Role),
            ),
    ;

    /// Disables a role that exists and is enabled.
    fn disable_existing_role(&mut self, owner: &AccountId, role_id: EntityId) -> (res: Result<
        (),
        RbacError,
    >)
        ensures
            outcome(
                res,
                old(self).state(),
                final(self).state(),
                old(self).state().disable_entity(*owner, role_id, Tag::Role),
            ),
    ;
}

/// The permissions of an owner.
pub trait Permission: Rbac {
    /// A permission of the owner, if it exists and is enabled.
    fn get_permission(&self, owner: &AccountId, permission_id: EntityId) -> (res: Result<
        Entity,
        RbacError,
    >)
        ensures
            result_view(res) == self.state().get_entity(*owner, permission_id, Tag::Permission),
    ;

    /// All permissions of the owner, disabled ones included.
    fn get_permissions(&self, owner: &AccountId) -> (res: Result<Vec<Entity>, RbacError>)
        ensures
            entities_result_view(res) == Ok::<Seq<EntityView>, RbacErrorView>(
                self.state().get_entities(*owner, Tag::Permission),
            ),
    ;

    /// Creates an enabled permission, unless its key is taken.
    fn create_permission(&mut self, owner: &AccountId, permission_id: EntityId, name: &[u8]) -> (res:
        Result<(), RbacError>)
        requires
            name@.len() <= 64,
        ensures
            outcome(
                res,
                old(self).state(),
                final(self).state(),
                old(self).state().create_entity(*owner, permission_id, name@, Tag::Permission),
            ),
    ;

    /// Renames a permission that exists and is enabled.
    fn update_existing_permission(
        &mut self,
        owner: &AccountId,
        permission_id: EntityId,
        name: &[u8],
    ) -> (res: Result<(), RbacError>)
        requires
            name@.len() <= 64,
        ensures
            outcome(
                res,
                old(self).state(),
                final(self).state(),
                old(self).state().update_entity(*owner, permission_id, name@, Tag::Permission),
            ),
    ;

    /// Disables a permission that exists and is enabled.
    fn disable_existing_permission(&mut self, owner: &AccountId, permission_id: EntityId) -> (res:
        Result<(), RbacError>)
        ensures
            outcome(
                res,
                old(self).state(),
                final(self).state(),
                old(self).state().disable_entity(*owner, permission_id, Tag::Permission),
            ),
    ;
}

/// The groups of an owner.
pub trait Group: Rbac {
    /// A group of the owner, if it exists and is enabled.
    fn get_group(&self, owner: &AccountId, group_id: EntityId) -> (res: Result<Entity, RbacError>)
        ensures
            result_view(res) == self.state().get_entity(*owner, group_id, Tag::Group),
    ;

    /// All groups of the owner, disabled ones included.
    fn get_groups(&self, owner: &AccountId) -> (res: Result<Vec<Entity>, RbacError>)
        ensures
            entities_result_view(res) == Ok::<Seq<EntityView>, RbacErrorView>(
                self.state().get_entities(*owner, Tag::Group),
            ),
    ;

    /// Creates an enabled group, unless its key is taken.
    fn create_group(&mut self, owner: &AccountId, group_id: EntityId, name: &[u8]) -> (res: Result<
        (),
        RbacError,
    >)
        requires
            name@.len() <= 64,
        ensures
            outcome(
                res,
                old(self).state(),
                final(self).state(),
                old(self).state().create_entity(*owner, group_id, name@, Tag::Group),
            ),
    ;

    /// Renames a group that exists and is enabled.
    fn update_existing_group(&mut self, owner: &AccountId, group_id: EntityId, name: &[u8]) -> (res:
        Result<(), RbacError>)
        requires
            name@.len() <= 64,
        ensures
            outcome(
                res,
                old(self).state(),
                final(self).state(),
                old(self).state().update_entity(*owner, group_id, name@, Tag::Group),
            ),
    ;

    /// Disables a group that exists and is enabled.
    fn disable_existing_group(&mut self, owner: &AccountId, group_id: EntityId) -> (res: Result<
        (),
        RbacError,
    >)
        ensures
            outcome(
                res,
                old(self).state(),
                final(self).state(),
                old(self).state().disable_entity(*owner, group_id, Tag::Group),
            ),
    ;
}

} // verus!
