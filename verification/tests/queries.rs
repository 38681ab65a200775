use std::sync::Arc;

use peaq_pallet_rbac::calls::Error;
use peaq_pallet_rbac::error::{RbacError, RbacErrorType};
use peaq_pallet_rbac::events::Event;
use peaq_pallet_rbac::pallet::Pallet;
use peaq_pallet_rbac::rpc::PeaqRBAC;
use peaq_pallet_rbac::structs::{Entity, Permission2Role, Role2Group, Role2User, User2Group};

const OWNER: [u8; 32] = [51u8; 32];
const ROLE: [u8; 32] = *b"46454667364666186637764721676476";
const PERMISSION: [u8; 32] = *b"76472167646454667364666186637476";
const GROUP: [u8; 32] = *b"66736466618663776474645421676476";
const USER: [u8; 32] = *b"65761367647466474646673646376637";

fn admin() -> Entity {
    Entity { id: ROLE, name: b"ADMIN".to_vec(), enabled: true }
}

fn can_delete() -> Entity {
    Entity { id: PERMISSION, name: b"CAN_DELETE".to_vec(), enabled: true }
}

fn users() -> Entity {
    Entity { id: GROUP, name: b"Users".to_vec(), enabled: true }
}

fn filled() -> Pallet {
    let mut rbac = Pallet::new();
    assert_eq!(
        rbac.add_role(&OWNER, ROLE, b"ADMIN".to_vec()),
        Ok(Event::RoleAdded(OWNER, ROLE, b"ADMIN".to_vec()))
    );
    assert_eq!(
        rbac.add_permission(&OWNER, PERMISSION, b"CAN_DELETE".to_vec()),
        Ok(Event::PermissionAdded(OWNER, PERMISSION, b"CAN_DELETE".to_vec()))
    );
    assert_eq!(
        rbac.add_group(&OWNER, GROUP, b"Users".to_vec()),
        Ok(Event::GroupAdded(OWNER, GROUP, b"Users".to_vec()))
    );
    assert_eq!(
        rbac.assign_permission_to_role(&OWNER, PERMISSION, ROLE),
        Ok(Event::PermissionAssigned(OWNER, PERMISSION, ROLE))
    );
    assert_eq!(
        rbac.assign_role_to_group(&OWNER, ROLE, GROUP),
        Ok(Event::RoleAssignedToGroup(OWNER, ROLE, GROUP))
    );
    assert_eq!(
        rbac.assign_user_to_group(&OWNER, USER, GROUP),
        Ok(Event::UserAssignedToGroup(OWNER, USER, GROUP))
    );
    assert_eq!(
        rbac.assign_role_to_user(&OWNER, ROLE, USER),
        Ok(Event::RoleAssignedToUser(OWNER, ROLE, USER))
    );
    rbac
}

#[test]
fn calls_announce_what_they_read() {
    let rbac = filled();
    assert_eq!(rbac.fetch_role(&OWNER, ROLE), Ok(Event::RoleFetched(admin())));
    assert_eq!(rbac.fetch_roles(&OWNER), Ok(Event::AllRolesFetched(vec![admin()])));
    assert_eq!(rbac.fetch_permission(&OWNER, PERMISSION), Ok(Event::PermissionFetched(can_delete())));
    assert_eq!(rbac.fetch_permissions(&OWNER), Ok(Event::AllPermissionsFetched(vec![can_delete()])));
    assert_eq!(rbac.fetch_group(&OWNER, GROUP), Ok(Event::GroupFetched(users())));
    assert_eq!(rbac.fetch_groups(&OWNER), Ok(Event::AllGroupsFetched(vec![users()])));
    assert_eq!(
        rbac.fetch_user_roles(&OWNER, USER),
        Ok(Event::FetchedUserRoles(vec![Role2User { role: ROLE, user: USER }]))
    );
    assert_eq!(
        rbac.fetch_group_roles(&OWNER, GROUP),
        Ok(Event::FetchedGroupRoles(vec![Role2Group { role: ROLE, group: GROUP }]))
    );
    assert_eq!(
        rbac.fetch_user_groups(&OWNER, USER),
        Ok(Event::FetchedUserGroups(vec![User2Group { user: USER, group: GROUP }]))
    );
    assert_eq!(
        rbac.fetch_role_permissions(&OWNER, ROLE),
        Ok(Event::FetchedRolePermissions(vec![Permission2Role { permission: PERMISSION, role: ROLE }]))
    );
    assert_eq!(
        rbac.fetch_user_permissions(&OWNER, USER),
        Ok(Event::FetchedUserPermissions(vec![can_delete()]))
    );
    assert_eq!(
        rbac.fetch_group_permissions(&OWNER, GROUP),
        Ok(Event::FetchedGroupPermissions(vec![can_delete()]))
    );
}

#[test]
fn calls_announce_what_they_wrote() {
    let mut rbac = filled();
    assert_eq!(
        rbac.update_role(&OWNER, ROLE, b"ROOT".to_vec()),
        Ok(Event::RoleUpdated(OWNER, ROLE, b"ROOT".to_vec()))
    );
    assert_eq!(
        rbac.update_permission(&OWNER, PERMISSION, b"CAN_DROP".to_vec()),
        Ok(Event::PermissionUpdated(OWNER, PERMISSION, b"CAN_DROP".to_vec()))
    );
    assert_eq!(
        rbac.update_group(&OWNER, GROUP, b"Staff".to_vec()),
        Ok(Event::GroupUpdated(OWNER, GROUP, b"Staff".to_vec()))
    );
    assert_eq!(
        rbac.unassign_role_to_user(&OWNER, ROLE, USER),
        Ok(Event::RoleUnassignedToUser(OWNER, ROLE, USER))
    );
    assert_eq!(
        rbac.unassign_role_to_group(&OWNER, ROLE, GROUP),
        Ok(Event::RoleUnassignedToGroup(OWNER, ROLE, GROUP))
    );
    assert_eq!(
        rbac.unassign_user_to_group(&OWNER, USER, GROUP),
        Ok(Event::UserUnAssignedToGroup(OWNER, USER, GROUP))
    );
    assert_eq!(
        rbac.unassign_permission_to_role(&OWNER, PERMISSION, ROLE),
        Ok(Event::PermissionUnassignedToRole(OWNER, PERMISSION, ROLE))
    );
    assert_eq!(rbac.disable_role(&OWNER, ROLE), Ok(Event::RoleRemoved(OWNER, ROLE)));
    assert_eq!(
        rbac.disable_permission(&OWNER, PERMISSION),
        Ok(Event::PermissionDisabled(OWNER, PERMISSION))
    );
    assert_eq!(rbac.disable_group(&OWNER, GROUP), Ok(Event::GroupDisabled(OWNER, GROUP)));
    assert_eq!(rbac.fetch_role(&OWNER, ROLE), Err(Error::EntityDisabled));
}

#[test]
fn name_of_just_over_64_bytes_is_refused() {
    let mut rbac = Pallet::new();
    let before = rbac.clone();
    assert_eq!(rbac.add_role(&OWNER, ROLE, vec![b'a'; 65]), Err(Error::EntityNameExceedMax64));
    assert_eq!(rbac.add_group(&OWNER, GROUP, vec![b'a'; 65]), Err(Error::EntityNameExceedMax64));
    assert_eq!(
        rbac.add_permission(&OWNER, PERMISSION, vec![b'a'; 65]),
        Err(Error::EntityNameExceedMax64)
    );
    assert_eq!(rbac, before);
    assert_eq!(
        rbac.add_role(&OWNER, ROLE, vec![b'a'; 64]),
        Ok(Event::RoleAdded(OWNER, ROLE, vec![b'a'; 64]))
    );
    assert_eq!(rbac.update_role(&OWNER, ROLE, vec![b'a'; 65]), Err(Error::EntityNameExceedMax64));
    assert_eq!(
        rbac.update_role(&[0u8; 32], ROLE, vec![b'a'; 65]),
        Err(Error::EntityNameExceedMax64)
    );
}

#[test]
fn every_failure_has_its_refusal() {
    let refusal = |typ: RbacErrorType| -> Result<(), Error> {
        Error::dispatch_error(RbacError { typ, param: vec![] })
    };
    assert_eq!(refusal(RbacErrorType::NameExceedMaxChar), Err(Error::EntityNameExceedMax64));
    assert_eq!(refusal(RbacErrorType::EntityAlreadyExist), Err(Error::EntityAlreadyExist));
    assert_eq!(refusal(RbacErrorType::EntityDoesNotExist), Err(Error::EntityDoesNotExist));
    assert_eq!(
        refusal(RbacErrorType::EntityAuthorizationFailed),
        Err(Error::EntityAuthorizationFailed)
    );
    assert_eq!(refusal(RbacErrorType::EntityDisabled), Err(Error::EntityDisabled));
    assert_eq!(refusal(RbacErrorType::AssignmentAlreadyExist), Err(Error::AssignmentAlreadyExist));
    assert_eq!(refusal(RbacErrorType::AssignmentDoesNotExist), Err(Error::AssignmentDoesNotExist));
}

#[test]
fn query_face_answers_from_shared_stores() {
    let rbac = Arc::new(filled());
    let rpc = PeaqRBAC::new(rbac.clone());
    let missing = [9u8; 32];
    assert_eq!(rpc.fetch_role(&OWNER, ROLE), Ok(admin()));
    assert_eq!(
        rpc.fetch_role(&OWNER, missing),
        Err(RbacError { typ: RbacErrorType::EntityDoesNotExist, param: missing.to_vec() })
    );
    assert_eq!(rpc.fetch_roles(&OWNER), Ok(vec![admin()]));
    assert_eq!(rpc.fetch_user_roles(&OWNER, USER), Ok(vec![Role2User { role: ROLE, user: USER }]));
    assert_eq!(rpc.fetch_permission(&OWNER, PERMISSION), Ok(can_delete()));
    assert_eq!(rpc.fetch_permissions(&OWNER), Ok(vec![can_delete()]));
    assert_eq!(
        rpc.fetch_role_permissions(&OWNER, ROLE),
        Ok(vec![Permission2Role { permission: PERMISSION, role: ROLE }])
    );
    assert_eq!(rpc.fetch_group(&OWNER, GROUP), Ok(users()));
    assert_eq!(rpc.fetch_groups(&OWNER), Ok(vec![users()]));
    assert_eq!(rpc.fetch_group_roles(&OWNER, GROUP), Ok(vec![Role2Group { role: ROLE, group: GROUP }]));
    assert_eq!(rpc.fetch_user_groups(&OWNER, USER), Ok(vec![User2Group { user: USER, group: GROUP }]));
    assert_eq!(rpc.fetch_user_permissions(&OWNER, USER), Ok(vec![can_delete()]));
    assert_eq!(rpc.fetch_group_permissions(&OWNER, GROUP), Ok(vec![can_delete()]));
    assert_eq!(
        rpc.fetch_user_groups(&OWNER, missing),
        Err(RbacError { typ: RbacErrorType::AssignmentDoesNotExist, param: missing.to_vec() })
    );
}
