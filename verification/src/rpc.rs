//! The read-only face of the stores: every query, and no write.

use std::sync::Arc;
use vstd::prelude::*;
use crate::error::{result_view, RbacError, RbacErrorView};
use crate::model::RbacState;
use crate::rbac::{entities_result_view, AccountId, EntityId, Group, Permission, Role, Tag};
use crate::structs::{Entity, EntityView, Permission2Role, Role2Group, Role2User, User2Group};

verus! {

/// Answers queries from stores that it shares with others.
pub struct PeaqRBAC<Client> {
    client: Arc<Client>,
}

impl<Client: Role + Permission + Group> PeaqRBAC<Client> {
    /// What the stores behind this face hold.
    pub closed spec fn state(&self) -> RbacState {
        (*self.client).state()
    }

    /// A face of the stores that `client` refers to.
    pub fn new(client: Arc<Client>) -> (rpc: Self)
        ensures
            rpc.state() == (*client).state(),
    {
        PeaqRBAC { client }
    }

    /// An enabled role of the owner.
    pub fn fetch_role(&self, account: &AccountId, entity: EntityId) -> (res: Result<Entity, RbacError>)
        ensures
            result_view(res) == self.state().get_entity(*account, entity, Tag::Role),
    {
        self.client.get_role(account, entity)
    }

    /// All roles of the owner, disabled ones included.
    pub fn fetch_roles(&self, owner: &AccountId) -> (res: Result<Vec<Entity>, RbacError>)
        ensures
            entities_result_view(res) == Ok::<Seq<EntityView>, RbacErrorView>(
                self.state().get_entities(*owner, Tag::Role),
            ),
    {
        self.client.get_roles(owner)
    }

    /// The roles assigned to a user.
    pub fn fetch_user_roles(&self, owner: &AccountId, user_id: EntityId) -> (res: Result<
        Vec<Role2User>,
        RbacError,
    >)
        ensures
            result_view(res) == self.state().get_user_roles(*owner, user_id),
    {
        self.client.get_user_roles(owner, user_id)
    }

    /// An enabled permission of the owner.
    pub fn fetch_permission(&self, account: &AccountId, permission_id: EntityId) -> (res: Result<Entity, RbacError>)
        ensures
            result_view(res) == self.state().get_entity(*account, permission_id, Tag::Permission),
    {
        self.client.get_permission(account, permission_id)
    }

    /// All permissions of the owner, disabled ones included.
    pub fn fetch_permissions(&self, owner: &AccountId) -> (res: Result<Vec<Entity>, RbacError>)
        ensures
            entities_result_view(res) == Ok::<Seq<EntityView>, RbacErrorView>(
                self.state().get_entities(*owner, Tag::Permission),
            ),
    {
        self.client.get_permissions(owner)
    }

    /// The permissions granted to a role.
    pub fn fetch_role_permissions(&self, owner: &AccountId, role_id: EntityId) -> (res: Result<
        Vec<Permission2Role>,
        RbacError,
    >)
        ensures
            result_view(res) == self.state().get_role_permissions(*owner, role_id),
    {
        self.client.get_role_permissions(owner, role_id)
    }

    /// An enabled group of the owner.
    pub fn fetch_group(&self, account: &AccountId, group_id: EntityId) -> (res: Result<Entity, RbacError>)
        ensures
            result_view(res) == self.state().get_entity(*account, group_id, Tag::Group),
    {
        self.client.get_group(account, group_id)
    }

    /// All groups of the owner, disabled ones included.
    pub fn fetch_groups(&self, owner: &AccountId) -> (res: Result<Vec<Entity>, RbacError>)
        ensures
            entities_result_view(res) == Ok::<Seq<EntityView>, RbacErrorView>(
                self.state().get_entities(*owner, Tag::Group),
            ),
    {
        self.client.get_groups(owner)
    }

    /// The roles assigned to a group.
    pub fn fetch_group_roles(&self, owner: &AccountId, group_id: EntityId) -> (res: Result<
        Vec<Role2Group>,
        RbacError,
    >)
        ensures
            result_view(res) == self.state().get_group_roles(*owner, group_id),
    {
        self.client.get_group_roles(owner, group_id)
    }

    /// The groups that a user belongs to.
    pub fn fetch_user_groups(&self, owner: &AccountId, user_id: EntityId) -> (res: Result<
        Vec<User2Group>,
        RbacError,
    >)
        ensures
            result_view(res) == self.state().get_user_groups(*owner, user_id),
    {
        self.client.get_user_groups(owner, user_id)
    }

    /// The permissions that a user effectively has.
    pub fn fetch_user_permissions(&self, owner: &AccountId, user_id: EntityId) -> (res: Result<
        Vec<Entity>,
        RbacError,
    >)
        ensures
            entities_result_view(res) == self.state().get_user_permissions(*owner, user_id),
    {
        self.client.get_user_permissions(owner, user_id)
    }

    /// The permissions that a group effectively has.
    pub fn fetch_group_permissions(&self, owner: &AccountId, group_id: EntityId) -> (res: Result<
        Vec<Entity>,
        RbacError,
    >)
        ensures
            entities_result_view(res) == self.state().get_group_permissions(*owner, group_id),
    {
        self.client.get_group_permissions(owner, group_id)
    }
}

} // verus!
