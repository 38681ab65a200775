use peaq_pallet_rbac::assignments::{binary_search, contains, insert, is_sorted, remove, sort};
use peaq_pallet_rbac::error::{RbacError, RbacErrorType};
use peaq_pallet_rbac::hashing::generate_key;
use peaq_pallet_rbac::order::Standing;
use peaq_pallet_rbac::pallet::Pallet;
use peaq_pallet_rbac::rbac::{Group, Permission, Rbac, Role, Tag};
use peaq_pallet_rbac::structs::{compare_pairs, Permission2Role, Role2Group, Role2User, User2Group};

const OWNER: [u8; 32] = [21u8; 32];
const OTHER: [u8; 32] = [22u8; 32];
const USER: [u8; 32] = *b"11676474666576474646673646376637";
const GROUP: [u8; 32] = *b"73646647466673646376637126765764";
const PERMISSION: [u8; 32] = *b"43464667364637663721676474666576";

fn id(n: u8) -> [u8; 32] {
    let mut id = [0u8; 32];
    id[31] = n;
    id
}

fn r2u(role: u8, user: u8) -> Role2User {
    Role2User { role: id(role), user: id(user) }
}

fn failure(typ: RbacErrorType, id: &[u8; 32]) -> RbacError {
    RbacError { typ, param: id.to_vec() }
}

fn with_roles(roles: &[u8]) -> Pallet {
    let mut rbac = Pallet::new();
    for role in roles {
        assert_eq!(rbac.create_role(&OWNER, id(*role), b"role"), Ok(()));
    }
    rbac
}

#[test]
fn pairs_compare_by_first_then_second() {
    assert_eq!(compare_pairs(&r2u(1, 9), &r2u(2, 0)), Standing::Before);
    assert_eq!(compare_pairs(&r2u(2, 0), &r2u(1, 9)), Standing::After);
    assert_eq!(compare_pairs(&r2u(1, 1), &r2u(1, 2)), Standing::Before);
    assert_eq!(compare_pairs(&r2u(1, 2), &r2u(1, 2)), Standing::Same);
    assert_eq!(r2u(1, 9).cmp(&r2u(2, 0)), std::cmp::Ordering::Less);
    assert_eq!(r2u(1, 2).cmp(&r2u(1, 1)), std::cmp::Ordering::Greater);
}

#[test]
fn binary_search_gives_the_place() {
    let list = vec![r2u(1, 1), r2u(3, 1), r2u(5, 1), r2u(7, 1)];
    assert_eq!(binary_search(&list, &r2u(0, 1)), 0);
    assert_eq!(binary_search(&list, &r2u(1, 1)), 0);
    assert_eq!(binary_search(&list, &r2u(2, 1)), 1);
    assert_eq!(binary_search(&list, &r2u(5, 1)), 2);
    assert_eq!(binary_search(&list, &r2u(7, 1)), 3);
    assert_eq!(binary_search(&list, &r2u(8, 1)), 4);
    assert_eq!(binary_search(&Vec::<Role2User>::new(), &r2u(8, 1)), 0);
    assert!(contains(&list, &r2u(3, 1)));
    assert!(!contains(&list, &r2u(3, 2)));
    assert!(!contains(&list, &r2u(9, 1)));
}

#[test]
fn insert_keeps_order_and_rejects_what_is_there() {
    let mut list: Vec<Role2User> = Vec::new();
    assert!(insert(&mut list, r2u(5, 1)));
    assert!(insert(&mut list, r2u(1, 1)));
    assert!(insert(&mut list, r2u(9, 1)));
    assert!(insert(&mut list, r2u(3, 1)));
    assert!(!insert(&mut list, r2u(5, 1)));
    assert_eq!(list, vec![r2u(1, 1), r2u(3, 1), r2u(5, 1), r2u(9, 1)]);
}

#[test]
fn remove_takes_out_exactly_the_item() {
    let mut list = vec![r2u(1, 1), r2u(3, 1), r2u(5, 1)];
    assert!(!remove(&mut list, &r2u(2, 1)));
    assert_eq!(list, vec![r2u(1, 1), r2u(3, 1), r2u(5, 1)]);
    assert!(remove(&mut list, &r2u(3, 1)));
    assert_eq!(list, vec![r2u(1, 1), r2u(5, 1)]);
    assert!(remove(&mut list, &r2u(1, 1)));
    assert!(remove(&mut list, &r2u(5, 1)));
    assert!(list.is_empty());
    assert!(!remove(&mut list, &r2u(5, 1)));
}

#[test]
fn sort_orders_and_keeps_every_item() {
    let list = vec![r2u(5, 1), r2u(1, 2), r2u(9, 0), r2u(1, 1), r2u(5, 1)];
    assert_eq!(sort(&list), vec![r2u(1, 1), r2u(1, 2), r2u(5, 1), r2u(5, 1), r2u(9, 0)]);
    assert_eq!(sort(&Vec::<Role2User>::new()), vec![]);
    let ordered = vec![r2u(1, 1), r2u(2, 1)];
    assert_eq!(sort(&ordered), ordered);
}

#[test]
fn assignments_are_stored_in_order() {
    let mut rbac = with_roles(&[5, 1, 9, 3]);
    for role in [5u8, 1, 9, 3] {
        assert_eq!(rbac.create_role_to_user(&OWNER, id(role), USER), Ok(()));
    }
    assert_eq!(
        rbac.get_user_roles(&OWNER, USER),
        Ok(vec![
            Role2User { role: id(1), user: USER },
            Role2User { role: id(3), user: USER },
            Role2User { role: id(5), user: USER },
            Role2User { role: id(9), user: USER },
        ])
    );
    assert_eq!(rbac.revoke_role_to_user(&OWNER, id(3), USER), Ok(()));
    assert_eq!(
        rbac.get_user_roles(&OWNER, USER),
        Ok(vec![
            Role2User { role: id(1), user: USER },
            Role2User { role: id(5), user: USER },
            Role2User { role: id(9), user: USER },
        ])
    );
}

#[test]
fn assignment_is_stored_under_the_key_of_its_anchor() {
    let mut rbac = with_roles(&[1]);
    assert_eq!(rbac.create_group(&OWNER, GROUP, b"Users"), Ok(()));
    assert_eq!(rbac.create_permission(&OWNER, PERMISSION, b"CAN_DELETE"), Ok(()));
    assert_eq!(rbac.create_role_to_user(&OWNER, id(1), USER), Ok(()));
    assert_eq!(rbac.create_role_to_group(&OWNER, id(1), GROUP), Ok(()));
    assert_eq!(rbac.create_user_to_group(&OWNER, USER, GROUP), Ok(()));
    assert_eq!(rbac.create_permission_to_role(&OWNER, PERMISSION, id(1)), Ok(()));
    assert_eq!(
        rbac.role2user_store.get(&generate_key(&OWNER, &USER, Tag::Role2User)),
        Some(&vec![Role2User { role: id(1), user: USER }])
    );
    assert_eq!(
        rbac.role2group_store.get(&generate_key(&OWNER, &GROUP, Tag::Role2Group)),
        Some(&vec![Role2Group { role: id(1), group: GROUP }])
    );
    assert_eq!(
        rbac.user2group_store.get(&generate_key(&OWNER, &USER, Tag::User2Group)),
        Some(&vec![User2Group { user: USER, group: GROUP }])
    );
    assert_eq!(
        rbac.permission2role_store.get(&generate_key(&OWNER, &id(1), Tag::Permission2Role)),
        Some(&vec![Permission2Role { permission: PERMISSION, role: id(1) }])
    );
}

#[test]
fn assign_needs_what_it_refers_to() {
    let mut rbac = with_roles(&[1]);
    assert_eq!(rbac.create_group(&OWNER, GROUP, b"Users"), Ok(()));
    let missing = |id: &[u8; 32]| Err(failure(RbacErrorType::EntityDoesNotExist, id));
    let before = rbac.clone();
    assert_eq!(rbac.create_role_to_user(&OWNER, id(2), USER), missing(&id(2)));
    assert_eq!(rbac.create_role_to_user(&OTHER, id(1), USER), missing(&id(1)));
    assert_eq!(rbac.create_role_to_group(&OWNER, id(2), GROUP), missing(&id(2)));
    assert_eq!(rbac.create_role_to_group(&OWNER, id(1), USER), missing(&USER));
    assert_eq!(rbac.create_user_to_group(&OWNER, USER, id(7)), missing(&id(7)));
    assert_eq!(rbac.create_permission_to_role(&OWNER, PERMISSION, id(2)), missing(&id(2)));
    assert_eq!(rbac.create_permission_to_role(&OWNER, PERMISSION, id(1)), missing(&PERMISSION));
    assert_eq!(rbac, before);
}

#[test]
fn assign_twice_is_rejected() {
    let mut rbac = with_roles(&[1]);
    assert_eq!(rbac.create_group(&OWNER, GROUP, b"Users"), Ok(()));
    assert_eq!(rbac.create_permission(&OWNER, PERMISSION, b"CAN_DELETE"), Ok(()));
    assert_eq!(rbac.create_role_to_user(&OWNER, id(1), USER), Ok(()));
    assert_eq!(rbac.create_role_to_group(&OWNER, id(1), GROUP), Ok(()));
    assert_eq!(rbac.create_user_to_group(&OWNER, USER, GROUP), Ok(()));
    assert_eq!(rbac.create_permission_to_role(&OWNER, PERMISSION, id(1)), Ok(()));
    let before = rbac.clone();
    let taken = |id: &[u8; 32]| Err(failure(RbacErrorType::AssignmentAlreadyExist, id));
    assert_eq!(rbac.create_role_to_user(&OWNER, id(1), USER), taken(&USER));
    assert_eq!(rbac.create_role_to_group(&OWNER, id(1), GROUP), taken(&GROUP));
    assert_eq!(rbac.create_user_to_group(&OWNER, USER, GROUP), taken(&GROUP));
    assert_eq!(rbac.create_permission_to_role(&OWNER, PERMISSION, id(1)), taken(&id(1)));
    assert_eq!(rbac, before);
}

#[test]
fn revoke_of_what_is_not_there_is_rejected() {
    let mut rbac = with_roles(&[1, 2]);
    assert_eq!(rbac.create_role_to_user(&OWNER, id(1), USER), Ok(()));
    let before = rbac.clone();
    let absent = |id: &[u8; 32]| Err(failure(RbacErrorType::AssignmentDoesNotExist, id));
    assert_eq!(rbac.revoke_role_to_user(&OWNER, id(2), USER), absent(&USER));
    assert_eq!(rbac.revoke_role_to_user(&OTHER, id(1), USER), absent(&USER));
    assert_eq!(rbac.revoke_role_to_group(&OWNER, id(1), GROUP), absent(&GROUP));
    assert_eq!(rbac.revoke_user_to_group(&OWNER, USER, GROUP), absent(&GROUP));
    assert_eq!(rbac.revoke_permission_to_role(&OWNER, PERMISSION, id(1)), absent(&id(1)));
    assert_eq!(rbac, before);
}

#[test]
fn assign_then_revoke_leaves_no_trace() {
    let mut rbac = with_roles(&[1]);
    assert_eq!(rbac.create_group(&OWNER, GROUP, b"Users"), Ok(()));
    assert_eq!(rbac.create_permission(&OWNER, PERMISSION, b"CAN_DELETE"), Ok(()));
    let before = rbac.clone();
    assert_eq!(rbac.create_role_to_user(&OWNER, id(1), USER), Ok(()));
    assert_eq!(rbac.revoke_role_to_user(&OWNER, id(1), USER), Ok(()));
    assert_eq!(rbac, before);
    assert_eq!(
        rbac.get_user_roles(&OWNER, USER),
        Err(failure(RbacErrorType::AssignmentDoesNotExist, &USER))
    );
    assert_eq!(rbac.role2user_store.len(), 0);
    assert_eq!(rbac.create_role_to_group(&OWNER, id(1), GROUP), Ok(()));
    assert_eq!(rbac.revoke_role_to_group(&OWNER, id(1), GROUP), Ok(()));
    assert_eq!(
        rbac.get_group_roles(&OWNER, GROUP),
        Err(failure(RbacErrorType::AssignmentDoesNotExist, &GROUP))
    );
    assert_eq!(rbac.create_user_to_group(&OWNER, USER, GROUP), Ok(()));
    assert_eq!(rbac.revoke_user_to_group(&OWNER, USER, GROUP), Ok(()));
    assert_eq!(
        rbac.get_user_groups(&OWNER, USER),
        Err(failure(RbacErrorType::AssignmentDoesNotExist, &USER))
    );
    assert_eq!(rbac.create_permission_to_role(&OWNER, PERMISSION, id(1)), Ok(()));
    assert_eq!(rbac.revoke_permission_to_role(&OWNER, PERMISSION, id(1)), Ok(()));
    assert_eq!(
        rbac.get_role_permissions(&OWNER, id(1)),
        Err(failure(RbacErrorType::AssignmentDoesNotExist, &id(1)))
    );
    assert_eq!(rbac, before);
}

#[test]
fn assignment_can_be_made_again_after_revocation() {
    let mut rbac = with_roles(&[1, 2]);
    assert_eq!(rbac.create_role_to_user(&OWNER, id(1), USER), Ok(()));
    assert_eq!(rbac.create_role_to_user(&OWNER, id(2), USER), Ok(()));
    assert_eq!(rbac.revoke_role_to_user(&OWNER, id(1), USER), Ok(()));
    assert_eq!(rbac.create_role_to_user(&OWNER, id(1), USER), Ok(()));
    assert_eq!(
        rbac.get_user_roles(&OWNER, USER),
        Ok(vec![Role2User { role: id(1), user: USER }, Role2User { role: id(2), user: USER }])
    );
}

#[test]
fn disabled_role_can_still_be_assigned() {
    let mut rbac = with_roles(&[1]);
    assert_eq!(rbac.disable_existing_role(&OWNER, id(1)), Ok(()));
    assert_eq!(rbac.create_role_to_user(&OWNER, id(1), USER), Ok(()));
    assert_eq!(rbac.get_user_roles(&OWNER, USER), Ok(vec![Role2User { role: id(1), user: USER }]));
}

#[test]
fn is_sorted_tells_ordered_lists_apart() {
    assert!(is_sorted(&Vec::<Role2User>::new()));
    assert!(is_sorted(&vec![r2u(4, 4)]));
    assert!(is_sorted(&vec![r2u(1, 1), r2u(1, 2), r2u(2, 0)]));
    assert!(is_sorted(&vec![r2u(1, 1), r2u(1, 1)]));
    assert!(!is_sorted(&vec![r2u(1, 2), r2u(1, 1)]));
    assert!(!is_sorted(&vec![r2u(1, 1), r2u(3, 1), r2u(2, 1)]));
}

#[test]
fn stores_know_whether_they_are_ordered() {
    let mut rbac = with_roles(&[1, 2]);
    assert!(rbac.is_ordered());
    assert_eq!(rbac.create_role_to_user(&OWNER, id(2), USER), Ok(()));
    assert_eq!(rbac.create_role_to_user(&OWNER, id(1), USER), Ok(()));
    assert!(rbac.is_ordered());
    rbac.role2group_store.insert([7u8; 32], vec![
        Role2Group { role: id(2), group: GROUP },
        Role2Group { role: id(1), group: GROUP },
    ]);
    assert!(!rbac.is_ordered());
}
