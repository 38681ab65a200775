use peaq_pallet_rbac::error::{RbacError, RbacErrorType};
use peaq_pallet_rbac::pallet::{push_unvisited, Pallet};
use peaq_pallet_rbac::rbac::{Group, Permission, Rbac, Role};
use peaq_pallet_rbac::structs::{Entity, Permission2Role, Role2Group};

const OWNER: [u8; 32] = [31u8; 32];
const OTHER: [u8; 32] = [32u8; 32];
const ROLE: [u8; 32] = *b"46454667364666186637764721676476";
const ROLE2: [u8; 32] = *b"46454667364666186637764721676477";
const PERMISSION: [u8; 32] = *b"76472167646454667364666186637476";
const PERMISSION2: [u8; 32] = *b"76472167646454667364666186637477";
const GROUP: [u8; 32] = *b"66736466618663776474645421676476";
const OTHER_GROUP: [u8; 32] = *b"66736466618663776474645421676477";
const USER: [u8; 32] = *b"65761367647466474646673646376637";

fn failure(typ: RbacErrorType, id: &[u8; 32]) -> RbacError {
    RbacError { typ, param: id.to_vec() }
}

fn can_delete() -> Entity {
    Entity { id: PERMISSION, name: b"CAN_DELETE".to_vec(), enabled: true }
}

fn can_update() -> Entity {
    Entity { id: PERMISSION2, name: b"CAN_UPDATE".to_vec(), enabled: true }
}

/// Role ADMIN with permission CAN_DELETE, and group Users.
fn admin_can_delete() -> Pallet {
    let mut rbac = Pallet::new();
    assert_eq!(rbac.create_role(&OWNER, ROLE, b"ADMIN"), Ok(()));
    assert_eq!(rbac.create_permission(&OWNER, PERMISSION, b"CAN_DELETE"), Ok(()));
    assert_eq!(rbac.create_group(&OWNER, GROUP, b"Users"), Ok(()));
    assert_eq!(rbac.create_permission_to_role(&OWNER, PERMISSION, ROLE), Ok(()));
    rbac
}

#[test]
fn role_permissions_are_the_stored_list() {
    let mut rbac = admin_can_delete();
    assert_eq!(rbac.create_permission(&OWNER, PERMISSION2, b"CAN_UPDATE"), Ok(()));
    assert_eq!(rbac.create_permission_to_role(&OWNER, PERMISSION2, ROLE), Ok(()));
    assert_eq!(
        rbac.get_role_permissions(&OWNER, ROLE),
        Ok(vec![
            Permission2Role { permission: PERMISSION, role: ROLE },
            Permission2Role { permission: PERMISSION2, role: ROLE },
        ])
    );
    assert_eq!(
        rbac.get_role_permissions(&OWNER, ROLE2),
        Err(failure(RbacErrorType::AssignmentDoesNotExist, &ROLE2))
    );
    assert_eq!(
        rbac.get_role_permissions(&OTHER, ROLE),
        Err(failure(RbacErrorType::AssignmentDoesNotExist, &ROLE))
    );
}

#[test]
fn permission_is_resolved_through_a_group() {
    let mut rbac = admin_can_delete();
    assert_eq!(rbac.create_role_to_group(&OWNER, ROLE, GROUP), Ok(()));
    assert_eq!(rbac.create_user_to_group(&OWNER, USER, GROUP), Ok(()));
    assert_eq!(rbac.get_user_permissions(&OWNER, USER), Ok(vec![can_delete()]));
    assert_eq!(rbac.get_group_permissions(&OWNER, GROUP), Ok(vec![can_delete()]));
    assert_eq!(rbac.roles_of_user(&OWNER, USER), vec![ROLE]);
}

#[test]
fn permission_is_resolved_through_a_direct_role() {
    let mut rbac = admin_can_delete();
    assert_eq!(rbac.create_role_to_user(&OWNER, ROLE, USER), Ok(()));
    assert_eq!(rbac.get_user_permissions(&OWNER, USER), Ok(vec![can_delete()]));
    assert_eq!(rbac.roles_of_user(&OWNER, USER), vec![ROLE]);
}

#[test]
fn role_held_directly_and_through_a_group_counts_once() {
    let mut rbac = admin_can_delete();
    assert_eq!(rbac.create_role_to_user(&OWNER, ROLE, USER), Ok(()));
    assert_eq!(rbac.create_role_to_group(&OWNER, ROLE, GROUP), Ok(()));
    assert_eq!(rbac.create_user_to_group(&OWNER, USER, GROUP), Ok(()));
    assert_eq!(rbac.roles_of_user(&OWNER, USER), vec![ROLE]);
    assert_eq!(rbac.get_user_permissions(&OWNER, USER), Ok(vec![can_delete()]));
}

#[test]
fn role_held_through_two_groups_counts_twice() {
    let mut rbac = admin_can_delete();
    assert_eq!(rbac.create_group(&OWNER, OTHER_GROUP, b"Admins"), Ok(()));
    assert_eq!(rbac.create_role_to_group(&OWNER, ROLE, GROUP), Ok(()));
    assert_eq!(rbac.create_role_to_group(&OWNER, ROLE, OTHER_GROUP), Ok(()));
    assert_eq!(rbac.create_user_to_group(&OWNER, USER, GROUP), Ok(()));
    assert_eq!(rbac.create_user_to_group(&OWNER, USER, OTHER_GROUP), Ok(()));
    assert_eq!(rbac.roles_of_user(&OWNER, USER), vec![ROLE, ROLE]);
    assert_eq!(rbac.get_user_permissions(&OWNER, USER), Ok(vec![can_delete(), can_delete()]));
}

#[test]
fn permission_of_two_roles_is_listed_for_each() {
    let mut rbac = admin_can_delete();
    assert_eq!(rbac.create_role(&OWNER, ROLE2, b"EDITOR"), Ok(()));
    assert_eq!(rbac.create_permission(&OWNER, PERMISSION2, b"CAN_UPDATE"), Ok(()));
    assert_eq!(rbac.create_permission_to_role(&OWNER, PERMISSION, ROLE2), Ok(()));
    assert_eq!(rbac.create_permission_to_role(&OWNER, PERMISSION2, ROLE2), Ok(()));
    assert_eq!(rbac.create_role_to_user(&OWNER, ROLE, USER), Ok(()));
    assert_eq!(rbac.create_role_to_group(&OWNER, ROLE2, GROUP), Ok(()));
    assert_eq!(rbac.create_user_to_group(&OWNER, USER, GROUP), Ok(()));
    assert_eq!(rbac.roles_of_user(&OWNER, USER), vec![ROLE, ROLE2]);
    assert_eq!(
        rbac.get_user_permissions(&OWNER, USER),
        Ok(vec![can_delete(), can_delete(), can_update()])
    );
    assert_eq!(rbac.permissions_of_roles(&OWNER, &vec![ROLE2, ROLE]),
        Ok(vec![can_delete(), can_update(), can_delete()]));
}

#[test]
fn no_assignment_means_no_permission() {
    let rbac = admin_can_delete();
    assert_eq!(rbac.get_user_permissions(&OWNER, USER), Ok(vec![]));
    assert_eq!(rbac.get_group_permissions(&OWNER, GROUP), Ok(vec![]));
    assert_eq!(rbac.get_user_permissions(&OTHER, USER), Ok(vec![]));
    assert_eq!(rbac.roles_of_user(&OWNER, USER), Vec::<[u8; 32]>::new());
    assert_eq!(rbac.permissions_of_roles(&OWNER, &vec![]), Ok(vec![]));
}

#[test]
fn group_without_roles_adds_nothing() {
    let mut rbac = admin_can_delete();
    assert_eq!(rbac.create_user_to_group(&OWNER, USER, GROUP), Ok(()));
    assert_eq!(rbac.get_user_permissions(&OWNER, USER), Ok(vec![]));
}

#[test]
fn role_without_permissions_fails_the_resolution() {
    let mut rbac = admin_can_delete();
    assert_eq!(rbac.create_role(&OWNER, ROLE2, b"EMPTY"), Ok(()));
    assert_eq!(rbac.create_role_to_user(&OWNER, ROLE, USER), Ok(()));
    assert_eq!(rbac.create_role_to_user(&OWNER, ROLE2, USER), Ok(()));
    assert_eq!(
        rbac.get_user_permissions(&OWNER, USER),
        Err(failure(RbacErrorType::AssignmentDoesNotExist, &ROLE2))
    );
    assert_eq!(rbac.create_role_to_group(&OWNER, ROLE2, GROUP), Ok(()));
    assert_eq!(
        rbac.get_group_permissions(&OWNER, GROUP),
        Err(failure(RbacErrorType::AssignmentDoesNotExist, &ROLE2))
    );
}

#[test]
fn disabled_permission_fails_the_resolution() {
    let mut rbac = admin_can_delete();
    assert_eq!(rbac.create_role_to_user(&OWNER, ROLE, USER), Ok(()));
    assert_eq!(rbac.disable_existing_permission(&OWNER, PERMISSION), Ok(()));
    assert_eq!(
        rbac.get_user_permissions(&OWNER, USER),
        Err(failure(RbacErrorType::EntityDisabled, &PERMISSION))
    );
}

#[test]
fn unvisited_roles_are_appended_in_order() {
    let list = vec![
        Role2Group { role: ROLE, group: GROUP },
        Role2Group { role: ROLE2, group: GROUP },
        Role2Group { role: PERMISSION, group: GROUP },
    ];
    let mut roles = vec![USER];
    push_unvisited(&mut roles, &list, &vec![ROLE2, USER]);
    assert_eq!(roles, vec![USER, ROLE, PERMISSION]);
    push_unvisited(&mut roles, &list, &vec![]);
    assert_eq!(roles, vec![USER, ROLE, PERMISSION, ROLE, ROLE2, PERMISSION]);
    push_unvisited(&mut roles, &Vec::<Role2Group>::new(), &vec![]);
    assert_eq!(roles.len(), 6);
}
