//! What the stores announce after an operation that succeeded.

use vstd::prelude::*;
use crate::rbac::{AccountId, EntityId};
use crate::structs::{
    entities_view, Entity, EntityView, Permission2Role, Role2Group, Role2User, User2Group,
};

verus! {

/// The outcome of an operation that succeeded.
#[derive(Clone, Debug, PartialEq, Eq)]
pub enum Event {
    /// A role was added: who, the role, its name.
    RoleAdded(AccountId, EntityId, Vec<u8>),
    /// A role was renamed: who, the role, its name.
    RoleUpdated(AccountId, EntityId, Vec<u8>),
    /// A role was disabled: who, the role.
    RoleRemoved(AccountId, EntityId),
    RoleFetched(Entity),
    AllRolesFetched(Vec<Entity>),
    /// A role was assigned to a user: who, the role, the user.
    RoleAssignedToUser(AccountId, EntityId, EntityId),
    /// A role was taken from a user: who, the role, the user.
    RoleUnassignedToUser(AccountId, EntityId, EntityId),
    /// A role was assigned to a group: who, the role, the group.
    RoleAssignedToGroup(AccountId, EntityId, EntityId),
    /// A role was taken from a group: who, the role, the group.
    RoleUnassignedToGroup(AccountId, EntityId, EntityId),
    FetchedGroupRoles(Vec<Role2Group>),
    FetchedUserRoles(Vec<Role2User>),
    FetchedUserGroups(Vec<User2Group>),
    FetchedUserPermissions(Vec<Entity>),
    FetchedGroupPermissions(Vec<Entity>),
    /// A permission was added: who, the permission, its name.
    PermissionAdded(AccountId, EntityId, Vec<u8>),
    /// A permission was renamed: who, the permission, its name.
    PermissionUpdated(AccountId, EntityId, Vec<u8>),
    /// A permission was disabled: who, the permission.
    PermissionDisabled(AccountId, EntityId),
    /// A permission was granted to a role: who, the permission, the role.
    PermissionAssigned(AccountId, EntityId, EntityId),
    /// A permission was taken from a role: who, the permission, the role.
    PermissionUnassignedToRole(AccountId, EntityId, EntityId),
    FetchedRolePermissions(Vec<Permission2Role>),
    PermissionFetched(Entity),
    AllPermissionsFetched(Vec<Entity>),
    GroupFetched(Entity),
    AllGroupsFetched(Vec<Entity>),
    /// A group was added: who, the group, its name.
    GroupAdded(AccountId, EntityId, Vec<u8>),
    /// A group was renamed: who, the group, its name.
    GroupUpdated(AccountId, EntityId, Vec<u8>),
    /// A group was disabled: who, the group.
    GroupDisabled(AccountId, EntityId),
    /// A user was put into a group: who, the user, the group.
    UserAssignedToGroup(AccountId, EntityId, EntityId),
    /// A user was taken out of a group: who, the user, the group.
    UserUnAssignedToGroup(AccountId, EntityId, EntityId),
}

/// An event, with names and lists as sequences.
pub enum EventView {
    RoleAdded(AccountId, EntityId, Seq<u8>),
    RoleUpdated(AccountId, EntityId, Seq<u8>),
    RoleRemoved(AccountId, EntityId),
    RoleFetched(EntityView),
    AllRolesFetched(Seq<EntityView>),
    RoleAssignedToUser(AccountId, EntityId, EntityId),
    RoleUnassignedToUser(AccountId, EntityId, EntityId),
    RoleAssignedToGroup(AccountId, EntityId, EntityId),
    RoleUnassignedToGroup(AccountId, EntityId, EntityId),
    FetchedGroupRoles(Seq<Role2Group>),
    FetchedUserRoles(Seq<Role2User>),
    FetchedUserGroups(Seq<User2Group>),
    FetchedUserPermissions(Seq<EntityView>),
    FetchedGroupPermissions(Seq<EntityView>),
    PermissionAdded(AccountId, EntityId, Seq<u8>),
    PermissionUpdated(AccountId, EntityId, Seq<u8>),
    PermissionDisabled(AccountId, EntityId),
    PermissionAssigned(AccountId, EntityId, EntityId),
    PermissionUnassignedToRole(AccountId, EntityId, EntityId),
    FetchedRolePermissions(Seq<Permission2Role>),
    PermissionFetched(EntityView),
    AllPermissionsFetched(Seq<EntityView>),
    GroupFetched(EntityView),
    AllGroupsFetched(Seq<EntityView>),
    GroupAdded(AccountId, EntityId, Seq<u8>),
    GroupUpdated(AccountId, EntityId, Seq<u8>),
    GroupDisabled(AccountId, EntityId),
    UserAssignedToGroup(AccountId, EntityId, EntityId),
    UserUnAssignedToGroup(AccountId, EntityId, EntityId),
}

impl View for Event {
    type V = EventView;

    open spec fn view(&self) -> EventView {
        match *self {
            Event::RoleAdded(who, id, name) => EventView::RoleAdded(who, id, name@),
            Event::RoleUpdated(who, id, name) => EventView::RoleUpdated(who, id, name@),
            Event::RoleRemoved(who, id) => EventView::RoleRemoved(who, id),
            Event::RoleFetched(entity) => EventView::RoleFetched(entity@),
            Event::AllRolesFetched(list) => EventView::AllRolesFetched(entities_view(list@)),
            Event::RoleAssignedToUser(who, a, b) => EventView::RoleAssignedToUser(who, a, b),
            Event::RoleUnassignedToUser(who, a, b) => EventView::RoleUnassignedToUser(who, a, b),
            Event::RoleAssignedToGroup(who, a, b) => EventView::RoleAssignedToGroup(who, a, b),
            Event::RoleUnassignedToGroup(who, a, b) => EventView::RoleUnassignedToGroup(who, a, b),
            Event::FetchedGroupRoles(list) => EventView::FetchedGroupRoles(list@),
            Event::FetchedUserRoles(list) => EventView::FetchedUserRoles(list@),
            Event::FetchedUserGroups(list) => EventView::FetchedUserGroups(list@),
            Event::FetchedUserPermissions(list) => EventView::FetchedUserPermissions(
                entities_view(list@),
            ),
            Event::FetchedGroupPermissions(list) => EventView::FetchedGroupPermissions(
                entities_view(list@),
            ),
            Event::PermissionAdded(who, id, name) => EventView::PermissionAdded(who, id, name@),
            Event::PermissionUpdated(who, id, name) => EventView::PermissionUpdated(who, id, name@),
            Event::PermissionDisabled(who, id) => EventView::PermissionDisabled(who, id),
            Event::PermissionAssigned(who, a, b) => EventView::PermissionAssigned(who, a, b),
            Event::PermissionUnassignedToRole(who, a, b) => EventView::PermissionUnassignedToRole(
                who,
                a,
                b,
            ),
            Event::FetchedRolePermissions(list) => EventView::FetchedRolePermissions(list@),
            Event::PermissionFetched(entity) => EventView::PermissionFetched(entity@),
            Event::AllPermissionsFetched(list) => EventView::AllPermissionsFetched(
                entities_view(list@),
            ),
            Event::GroupFetched(entity) => EventView::GroupFetched(entity@),
            Event::AllGroupsFetched(list) => EventView::AllGroupsFetched(entities_view(list@)),
            Event::GroupAdded(who, id, name) => EventView::GroupAdded(who, id, name@),
            Event::GroupUpdated(who, id, name) => EventView::GroupUpdated(who, id, name@),
            Event::GroupDisabled(who, id) => EventView::GroupDisabled(who, id),
            Event::UserAssignedToGroup(who, a, b) => EventView::UserAssignedToGroup(who, a, b),
            Event::UserUnAssignedToGroup(who, a, b) => EventView::UserUnAssignedToGroup(who, a, b),
        }
    }
}

} // verus!
