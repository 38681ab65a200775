//! The calls of the caller-facing layer: each takes the caller that was
//! identified, checks what the stores themselves take for granted, performs
//! one operation and says what is to be announced.

use vstd::prelude::*;
use crate::error::{RbacError, RbacErrorType, RbacErrorView};
use crate::events::{Event, EventView};
use crate::model::{lists_sorted, RbacState};
use crate::pallet::Pallet;
use crate::rbac::{AccountId, EntityId, Group, Permission, Rbac, Role, Tag};
use crate::structs::{EntityView, Permission2Role, Role2Group, Role2User, User2Group};

verus! {

/// Why a call was refused.
#[derive(Clone, Copy, Debug, PartialEq, Eq, Structural)]
pub enum Error {
    /// The name is longer than 64 bytes.
    EntityNameExceedMax64,
    /// The entity exists already.
    EntityAlreadyExist,
    /// The entity does not exist.
    EntityDoesNotExist,
    /// The entity is not enabled.
    EntityDisabled,
    /// The entity does not belong to the caller.
    EntityAuthorizationFailed,
    /// The assignment exists already.
    AssignmentAlreadyExist,
    /// The assignment does not exist.
    AssignmentDoesNotExist,
}

impl Error {
    /// The refusal that stands for a failure of the stores.
    pub open spec fn of(typ: RbacErrorType) -> Error {
        match typ {
            RbacErrorType::NameExceedMaxChar => Error::EntityNameExceedMax64,
            RbacErrorType::EntityAlreadyExist => Error::EntityAlreadyExist,
            RbacErrorType::EntityDoesNotExist => Error::EntityDoesNotExist,
            RbacErrorType::EntityAuthorizationFailed => Error::EntityAuthorizationFailed,
            RbacErrorType::EntityDisabled => Error::EntityDisabled,
            RbacErrorType::AssignmentAlreadyExist => Error::AssignmentAlreadyExist,
            RbacErrorType::AssignmentDoesNotExist => Error::AssignmentDoesNotExist,
        }
    }

    /// Refuses a call for the failure `err` of the stores.
    pub fn dispatch_error<T>(err: RbacError) -> (res: Result<T, Error>)
        ensures
            res == Err::<T, Error>(Error::of(err.typ)),
    {
        match err.typ {
            RbacErrorType::NameExceedMaxChar => Err(Error::EntityNameExceedMax64),
            RbacErrorType::EntityAlreadyExist => Err(Error::EntityAlreadyExist),
            RbacErrorType::EntityDoesNotExist => Err(Error::EntityDoesNotExist),
            RbacErrorType::EntityAuthorizationFailed => Err(Error::EntityAuthorizationFailed),
            RbacErrorType::EntityDisabled => Err(Error::EntityDisabled),
            RbacErrorType::AssignmentAlreadyExist => Err(Error::AssignmentAlreadyExist),
            RbacErrorType::AssignmentDoesNotExist => Err(Error::AssignmentDoesNotExist),
        }
    }
}

/// What a call that reads must return: the event made of what was read, or
/// the refusal that stands for the failure.
pub open spec fn announced<T>(
    res: Result<Event, Error>,
    read: Result<T, RbacErrorView>,
    event: spec_fn(T) -> EventView,
) -> bool {
    match read {
        Ok(value) => res is Ok && res->Ok_0@ == event(value),
        Err(e) => res == Err::<Event, Error>(Error::of(e.typ)),
    }
}

/// What a call that writes must have done: on success the stores are as
/// `expected` says and `event` is returned; on failure the stores are as
/// before and the refusal stands for the failure.
pub open spec fn written(
    res: Result<Event, Error>,
    before: RbacState,
    after: RbacState,
    expected: Result<RbacState, RbacErrorView>,
    event: EventView,
) -> bool {
    match expected {
        Ok(next) => after == next && res is Ok && res->Ok_0@ == event,
        Err(e) => after == before && res == Err::<Event, Error>(Error::of(e.typ)),
    }
}

/// As `written`, for a call that takes a name: a name of more than 64
/// bytes is refused before anything else is looked at.
pub open spec fn written_named(
    res: Result<Event, Error>,
    before: RbacState,
    after: RbacState,
    name: Seq<u8>,
    expected: Result<RbacState, RbacErrorView>,
    event: EventView,
) -> bool {
    if name.len() > 64 {
        after == before && res == Err::<Event, Error>(Error::EntityNameExceedMax64)
    } else {
        written(res, before, after, expected, event)
    }
}

impl Pallet {
    /// Fetches a role of `owner` that is enabled.
    pub fn fetch_role(&self, owner: &AccountId, entity: EntityId) -> (res: Result<Event, Error>)
        ensures
            announced(
                res,
                self@.get_entity(*owner, entity, Tag::Role),
                |entity: EntityView| EventView::RoleFetched(entity),
            ),
    {
        match self.get_role(owner, entity) {
            Ok(d) => Ok(Event::RoleFetched(d)),
            Err(e) => Error::dispatch_error(e),
        }
    }

    /// Fetches all roles of `owner`, disabled ones included.
    pub fn fetch_roles(&self, owner: &AccountId) -> (res: Result<Event, Error>)
        ensures
            res is Ok,
            res->Ok_0@ == EventView::AllRolesFetched(self@.get_entities(*owner, Tag::Role)),
    {
        match self.get_roles(owner) {
            Ok(d) => Ok(Event::AllRolesFetched(d)),
            Err(e) => Error::dispatch_error(e),
        }
    }

    /// Creates a role of the caller.
    pub fn add_role(&mut self, sender: &AccountId, role_id: EntityId, name: Vec<u8>) -> (res: Result<
        Event,
        Error,
    >)
        ensures
            written_named(
                res,
                old(self)@,
                final(self)@,
                name@,
                old(self)@.create_entity(*sender, role_id, name@, Tag::Role),
                EventView::RoleAdded(*sender, role_id, name@),
            ),
    {
        if name.len() > 64 {
            return Err(Error::EntityNameExceedMax64);
        }
        match self.create_role(sender, role_id, name.as_slice()) {
            Ok(_d) => Ok(Event::RoleAdded(*sender, role_id, name)),
            Err(e) => Error::dispatch_error(e),
        }
    }

    /// Renames a role of the caller.
    pub fn update_role(&mut self, sender: &AccountId, role_id: EntityId, name: Vec<u8>) -> (res: Result<
        Event,
        Error,
    >)
        ensures
            written_named(
                res,
                old(self)@,
                final(self)@,
                name@,
                old(self)@.update_entity(*sender, role_id, name@, Tag::Role),
                EventView::RoleUpdated(*sender, role_id, name@),
            ),
    {
        if name.len() > 64 {
            return Err(Error::EntityNameExceedMax64);
        }
        match self.update_existing_role(sender, role_id, name.as_slice()) {
            Ok(_d) => Ok(Event::RoleUpdated(*sender, role_id, name)),
            Err(e) => Error::dispatch_error(e),
        }
    }

    /// Disables a role of the caller.
    pub fn disable_role(&mut self, sender: &AccountId, role_id: EntityId) -> (res: Result<Event, Error>)
        ensures
            written(
                res,
                old(self)@,
                final(self)@,
                old(self)@.disable_entity(*sender, role_id, Tag::Role),
                EventView::RoleRemoved(*sender, role_id),
            ),
    {
        match self.disable_existing_role(sender, role_id) {
            Ok(_d) => Ok(Event::RoleRemoved(*sender, role_id)),
            Err(e) => Error::dispatch_error(e),
        }
    }

    /// Fetches the roles assigned to a user.
    pub fn fetch_user_roles(&self, owner: &AccountId, user_id: EntityId) -> (res: Result<Event, Error>)
        ensures
            announced(
                res,
                self@.get_user_roles(*owner, user_id),
                |list: Seq<Role2User>| EventView::FetchedUserRoles(list),
            ),
    {
        match self.get_user_roles(owner, user_id) {
            Ok(d) => Ok(Event::FetchedUserRoles(d)),
            Err(e) => Error::dispatch_error(e),
        }
    }

    /// Assigns a role of the caller to a user.
    pub fn assign_role_to_user(&mut self, sender: &AccountId, role_id: EntityId, user_id: EntityId) -> (res: Result<
        Event,
        Error,
    >)
        requires
            lists_sorted(old(self)@.role_to_user),
        ensures
            written(
                res,
                old(self)@,
                final(self)@,
                old(self)@.create_role_to_user(*sender, role_id, user_id),
                EventView::RoleAssignedToUser(*sender, role_id, user_id),
            ),
            lists_sorted(final(self)@.role_to_user),
    {
        match self.create_role_to_user(sender, role_id, user_id) {
            Ok(_d) => Ok(Event::RoleAssignedToUser(*sender, role_id, user_id)),
            Err(e) => Error::dispatch_error(e),
        }
    }

    /// Takes a role from a user.
    pub fn unassign_role_to_user(&mut self, sender: &AccountId, role_id: EntityId, user_id: EntityId) -> (res: Result<
        Event,
        Error,
    >)
        requires
            lists_sorted(old(self)@.role_to_user),
        ensures
            written(
                res,
                old(self)@,
                final(self)@,
                old(self)@.revoke_role_to_user(*sender, role_id, user_id),
                EventView::RoleUnassignedToUser(*sender, role_id, user_id),
            ),
            lists_sorted(final(self)@.role_to_user),
    {
        match self.revoke_role_to_user(sender, role_id, user_id) {
            Ok(_d) => Ok(Event::RoleUnassignedToUser(*sender, role_id, user_id)),
            Err(e) => Error::dispatch_error(e),
        }
    }

    /// Fetches a permission of `owner` that is enabled.
    pub fn fetch_permission(&self, owner: &AccountId, permission_id: EntityId) -> (res: Result<Event, Error>)
        ensures
            announced(
                res,
                self@.get_entity(*owner, permission_id, Tag::Permission),
                |entity: EntityView| EventView::PermissionFetched(entity),
            ),
    {
        match self.get_permission(owner, permission_id) {
            Ok(d) => Ok(Event::PermissionFetched(d)),
            Err(e) => Error::dispatch_error(e),
        }
    }

    /// Fetches all permissions of `owner`, disabled ones included.
    pub fn fetch_permissions(&self, owner: &AccountId) -> (res: Result<Event, Error>)
        ensures
            res is Ok,
            res->Ok_0@ == EventView::AllPermissionsFetched(self@.get_entities(*owner, Tag::Permission)),
    {
        match self.get_permissions(owner) {
            Ok(d) => Ok(Event::AllPermissionsFetched(d)),
            Err(e) => Error::dispatch_error(e),
        }
    }

    /// Creates a permission of the caller.
    pub fn add_permission(&mut self, sender: &AccountId, permission_id: EntityId, name: Vec<u8>) -> (res: Result<
        Event,
        Error,
    >)
        ensures
            written_named(
                res,
                old(self)@,
                final(self)@,
                name@,
                old(self)@.create_entity(*sender, permission_id, name@, Tag::Permission),
                EventView::PermissionAdded(*sender, permission_id, name@),
            ),
    {
        if name.len() > 64 {
            return Err(Error::EntityNameExceedMax64);
        }
        match self.create_permission(sender, permission_id, name.as_slice()) {
            Ok(_d) => Ok(Event::PermissionAdded(*sender, permission_id, name)),
            Err(e) => Error::dispatch_error(e),
        }
    }

    /// Renames a permission of the caller.
    pub fn update_permission(&mut self, sender: &AccountId, permission_id: EntityId, name: Vec<u8>) -> (res: Result<
        Event,
        Error,
    >)
        ensures
            written_named(
                res,
                old(self)@,
                final(self)@,
                name@,
                old(self)@.update_entity(*sender, permission_id, name@, Tag::Permission),
                EventView::PermissionUpdated(*sender, permission_id, name@),
            ),
    {
        if name.len() > 64 {
            return Err(Error::EntityNameExceedMax64);
        }
        match self.update_existing_permission(sender, permission_id, name.as_slice()) {
            Ok(_d) => Ok(Event::PermissionUpdated(*sender, permission_id, name)),
            Err(e) => Error::dispatch_error(e),
        }
    }

    /// Disables a permission of the caller.
    pub fn disable_permission(&mut self, sender: &AccountId, permission_id: EntityId) -> (res: Result<Event, Error>)
        ensures
            written(
                res,
                old(self)@,
                final(self)@,
                old(self)@.disable_entity(*sender, permission_id, Tag::Permission),
                EventView::PermissionDisabled(*sender, permission_id),
            ),
    {
        match self.disable_existing_permission(sender, permission_id) {
            Ok(_d) => Ok(Event::PermissionDisabled(*sender, permission_id)),
            Err(e) => Error::dispatch_error(e),
        }
    }

    /// Fetches the permissions granted to a role.
    pub fn fetch_role_permissions(&self, owner: &AccountId, role_id: EntityId) -> (res: Result<Event, Error>)
        ensures
            announced(
                res,
                self@.get_role_permissions(*owner, role_id),
                |list: Seq<Permission2Role>| EventView::FetchedRolePermissions(list),
            ),
    {
        match self.get_role_permissions(owner, role_id) {
            Ok(d) => Ok(Event::FetchedRolePermissions(d)),
            Err(e) => Error::dispatch_error(e),
        }
    }

    /// Grants a permission of the caller to a role of the caller.
    pub fn assign_permission_to_role(&mut self, sender: &AccountId, permission_id: EntityId, role_id: EntityId) -> (res: Result<
        Event,
        Error,
    >)
        requires
            lists_sorted(old(self)@.permission_to_role),
        ensures
            written(
                res,
                old(self)@,
                final(self)@,
                old(self)@.create_permission_to_role(*sender, permission_id, role_id),
                EventView::PermissionAssigned(*sender, permission_id, role_id),
            ),
            lists_sorted(final(self)@.permission_to_role),
    {
        match self.create_permission_to_role(sender, permission_id, role_id) {
            Ok(_d) => Ok(Event::PermissionAssigned(*sender, permission_id, role_id)),
            Err(e) => Error::dispatch_error(e),
        }
    }

    /// Takes a permission from a role.
    pub fn unassign_permission_to_role(&mut self, sender: &AccountId, permission_id: EntityId, role_id: EntityId) -> (res: Result<
        Event,
        Error,
    >)
        requires
            lists_sorted(old(self)@.permission_to_role),
        ensures
            written(
                res,
                old(self)@,
                final(self)@,
                old(self)@.revoke_permission_to_role(*sender, permission_id, role_id),
                EventView::PermissionUnassignedToRole(*sender, permission_id, role_id),
            ),
            lists_sorted(final(self)@.permission_to_role),
    {
        match self.revoke_permission_to_role(sender, permission_id, role_id) {
            Ok(_d) => Ok(Event::PermissionUnassignedToRole(*sender, permission_id, role_id)),
            Err(e) => Error::dispatch_error(e),
        }
    }

    /// Fetches a group of `owner` that is enabled.
    pub fn fetch_group(&self, owner: &AccountId, group_id: EntityId) -> (res: Result<Event, Error>)
        ensures
            announced(
                res,
                self@.get_entity(*owner, group_id, Tag::Group),
                |entity: EntityView| EventView::GroupFetched(entity),
            ),
    {
        match self.get_group(owner, group_id) {
            Ok(d) => Ok(Event::GroupFetched(d)),
            Err(e) => Error::dispatch_error(e),
        }
    }

    /// Fetches all groups of `owner`, disabled ones included.
    pub fn fetch_groups(&self, owner: &AccountId) -> (res: Result<Event, Error>)
        ensures
            res is Ok,
            res->Ok_0@ == EventView::AllGroupsFetched(self@.get_entities(*owner, Tag::Group)),
    {
        match self.get_groups(owner) {
            Ok(d) => Ok(Event::AllGroupsFetched(d)),
            Err(e) => Error::dispatch_error(e),
        }
    }

    /// Creates a group of the caller.
    pub fn add_group(&mut self, sender: &AccountId, group_id: EntityId, name: Vec<u8>) -> (res: Result<
        Event,
        Error,
    >)
        ensures
            written_named(
                res,
                old(self)@,
                final(self)@,
                name@,
                old(self)@.create_entity(*sender, group_id, name@, Tag::Group),
                EventView::GroupAdded(*sender, group_id, name@),
            ),
    {
        if name.len() > 64 {
            return Err(Error::EntityNameExceedMax64);
        }
        match self.create_group(sender, group_id, name.as_slice()) {
            Ok(_d) => Ok(Event::GroupAdded(*sender, group_id, name)),
            Err(e) => Error::dispatch_error(e),
        }
    }

    /// Renames a group of the caller.
    pub fn update_group(&mut self, sender: &AccountId, group_id: EntityId, name: Vec<u8>) -> (res: Result<
        Event,
        Error,
    >)
        ensures
            written_named(
                res,
                old(self)@,
                final(self)@,
                name@,
                old(self)@.update_entity(*sender, group_id, name@, Tag::Group),
                EventView::GroupUpdated(*sender, group_id, name@),
            ),
    {
        if name.len() > 64 {
            return Err(Error::EntityNameExceedMax64);
        }
        match self.update_existing_group(sender, group_id, name.as_slice()) {
            Ok(_d) => Ok(Event::GroupUpdated(*sender, group_id, name)),
            Err(e) => Error::dispatch_error(e),
        }
    }

    /// Disables a group of the caller.
    pub fn disable_group(&mut self, sender: &AccountId, group_id: EntityId) -> (res: Result<Event, Error>)
        ensures
            written(
                res,
                old(self)@,
                final(self)@,
                old(self)@.disable_entity(*sender, group_id, Tag::Group),
                EventView::GroupDisabled(*sender, group_id),
            ),
    {
        match self.disable_existing_group(sender, group_id) {
            Ok(_d) => Ok(Event::GroupDisabled(*sender, group_id)),
            Err(e) => Error::dispatch_error(e),
        }
    }

    /// Assigns a role of the caller to a group of the caller.
    pub fn assign_role_to_group(&mut self, sender: &AccountId, role_id: EntityId, group_id: EntityId) -> (res: Result<
        Event,
        Error,
    >)
        requires
            lists_sorted(old(self)@.role_to_group),
        ensures
            written(
                res,
                old(self)@,
                final(self)@,
                old(self)@.create_role_to_group(*sender, role_id, group_id),
                EventView::RoleAssignedToGroup(*sender, role_id, group_id),
            ),
            lists_sorted(final(self)@.role_to_group),
    {
        match self.create_role_to_group(sender, role_id, group_id) {
            Ok(_d) => Ok(Event::RoleAssignedToGroup(*sender, role_id, group_id)),
            Err(e) => Error::dispatch_error(e),
        }
    }

    /// Takes a role from a group.
    pub fn unassign_role_to_group(&mut self, sender: &AccountId, role_id: EntityId, group_id: EntityId) -> (res: Result<
        Event,
        Error,
    >)
        requires
            lists_sorted(old(self)@.role_to_group),
        ensures
            written(
                res,
                old(self)@,
                final(self)@,
                old(self)@.revoke_role_to_group(*sender, role_id, group_id),
                EventView::RoleUnassignedToGroup(*sender, role_id, group_id),
            ),
            lists_sorted(final(self)@.role_to_group),
    {
        match self.revoke_role_to_group(sender, role_id, group_id) {
            Ok(_d) => Ok(Event::RoleUnassignedToGroup(*sender, role_id, group_id)),
            Err(e) => Error::dispatch_error(e),
        }
    }

    /// Fetches the roles assigned to a group.
    pub fn fetch_group_roles(&self, owner: &AccountId, group_id: EntityId) -> (res: Result<Event, Error>)
        ensures
            announced(
                res,
                self@.get_group_roles(*owner, group_id),
                |list: Seq<Role2Group>| EventView::FetchedGroupRoles(list),
            ),
    {
        match self.get_group_roles(owner, group_id) {
            Ok(d) => Ok(Event::FetchedGroupRoles(d)),
            Err(e) => Error::dispatch_error(e),
        }
    }

    /// Puts a user into a group of the caller.
    pub fn assign_user_to_group(&mut self, sender: &AccountId, user_id: EntityId, group_id: EntityId) -> (res: Result<
        Event,
        Error,
    >)
        requires
            lists_sorted(old(self)@.user_to_group),
        ensures
            written(
                res,
                old(self)@,
                final(self)@,
                old(self)@.create_user_to_group(*sender, user_id, group_id),
                EventView::UserAssignedToGroup(*sender, user_id, group_id),
            ),
            lists_sorted(final(self)@.user_to_group),
    {
        match self.create_user_to_group(sender, user_id, group_id) {
            Ok(_d) => Ok(Event::UserAssignedToGroup(*sender, user_id, group_id)),
            Err(e) => Error::dispatch_error(e),
        }
    }

    /// Takes a user out of a group.
    pub fn unassign_user_to_group(&mut self, sender: &AccountId, user_id: EntityId, group_id: EntityId) -> (res: Result<
        Event,
        Error,
    >)
        requires
            lists_sorted(old(self)@.user_to_group),
        ensures
            written(
                res,
                old(self)@,
                final(self)@,
                old(self)@.revoke_user_to_group(*sender, user_id, group_id),
                EventView::UserUnAssignedToGroup(*sender, user_id, group_id),
            ),
            lists_sorted(final(self)@.user_to_group),
    {
        match self.revoke_user_to_group(sender, user_id, group_id) {
            Ok(_d) => Ok(Event::UserUnAssignedToGroup(*sender, user_id, group_id)),
            Err(e) => Error::dispatch_error(e),
        }
    }

    /// Fetches the groups that a user belongs to.
    pub fn fetch_user_groups(&self, owner: &AccountId, user_id: EntityId) -> (res: Result<Event, Error>)
        ensures
            announced(
                res,
                self@.get_user_groups(*owner, user_id),
                |list: Seq<User2Group>| EventView::FetchedUserGroups(list),
            ),
    {
        match self.get_user_groups(owner, user_id) {
            Ok(d) => Ok(Event::FetchedUserGroups(d)),
            Err(e) => Error::dispatch_error(e),
        }
    }

    /// Fetches the permissions that a user effectively has.
    pub fn fetch_user_permissions(&self, owner: &AccountId, user_id: EntityId) -> (res: Result<Event, Error>)
        ensures
            announced(
                res,
                self@.get_user_permissions(*owner, user_id),
                |list: Seq<EntityView>| EventView::FetchedUserPermissions(list),
            ),
    {
        match self.get_user_permissions(owner, user_id) {
            Ok(d) => Ok(Event::FetchedUserPermissions(d)),
            Err(e) => Error::dispatch_error(e),
        }
    }

    /// Fetches the permissions that a group effectively has.
    pub fn fetch_group_permissions(&self, owner: &AccountId, group_id: EntityId) -> (res: Result<Event, Error>)
        ensures
            announced(
                res,
                self@.get_group_permissions(*owner, group_id),
                |list: Seq<EntityView>| EventView::FetchedGroupPermissions(list),
            ),
    {
        match self.get_group_permissions(owner, group_id) {
            Ok(d) => Ok(Event::FetchedGroupPermissions(d)),
            Err(e) => Error::dispatch_error(e),
        }
    }
}

} // verus!
