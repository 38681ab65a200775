use peaq_pallet_rbac::error::{RbacError, RbacErrorType};
use peaq_pallet_rbac::hashing::generate_key;
use peaq_pallet_rbac::pallet::Pallet;
use peaq_pallet_rbac::rbac::{Group, Permission, Rbac, Role, Tag};
use peaq_pallet_rbac::structs::Entity;

const OWNER: [u8; 32] = [11u8; 32];
const OTHER: [u8; 32] = [12u8; 32];
const ID: [u8; 32] = *b"23676474666576474646673646376637";
const ID2: [u8; 32] = *b"23676474666576474646466746376631";

fn failure(typ: RbacErrorType, id: &[u8; 32]) -> RbacError {
    RbacError { typ, param: id.to_vec() }
}

#[test]
fn create_then_fetch_round_trip() {
    let mut rbac = Pallet::new();
    assert_eq!(rbac.create_role(&OWNER, ID, b"ADMIN"), Ok(()));
    assert_eq!(
        rbac.get_role(&OWNER, ID),
        Ok(Entity { id: ID, name: b"ADMIN".to_vec(), enabled: true })
    );
    assert_eq!(rbac.create_permission(&OWNER, ID, b"CAN_DELETE"), Ok(()));
    assert_eq!(
        rbac.get_permission(&OWNER, ID),
        Ok(Entity { id: ID, name: b"CAN_DELETE".to_vec(), enabled: true })
    );
    assert_eq!(rbac.create_group(&OWNER, ID, b"Users"), Ok(()));
    assert_eq!(
        rbac.get_group(&OWNER, ID),
        Ok(Entity { id: ID, name: b"Users".to_vec(), enabled: true })
    );
}

#[test]
fn create_accepts_empty_and_longest_name() {
    let mut rbac = Pallet::new();
    let longest = [b'x'; 64];
    assert_eq!(rbac.create_role(&OWNER, ID, b""), Ok(()));
    assert_eq!(rbac.create_role(&OWNER, ID2, &longest), Ok(()));
    assert_eq!(rbac.get_role(&OWNER, ID).unwrap().name, Vec::<u8>::new());
    assert_eq!(rbac.get_role(&OWNER, ID2).unwrap().name, longest.to_vec());
}

#[test]
fn create_writes_the_lookup_and_the_owner_list() {
    let mut rbac = Pallet::new();
    assert_eq!(rbac.create_role(&OWNER, ID, b"ADMIN"), Ok(()));
    let entity = Entity { id: ID, name: b"ADMIN".to_vec(), enabled: true };
    let key = generate_key(&OWNER, &ID, Tag::Role);
    assert_eq!(rbac.keys_lookup_store.get(&key), Some(&entity));
    assert_eq!(rbac.keys_lookup_store.len(), 1);
    assert_eq!(rbac.role_store.get(&OWNER), Some(&vec![entity]));
    assert_eq!(rbac.permission_store.len(), 0);
    assert_eq!(rbac.group_store.len(), 0);
}

#[test]
fn duplicate_is_rejected_without_a_write() {
    let mut rbac = Pallet::new();
    assert_eq!(rbac.create_role(&OWNER, ID, b"ADMIN"), Ok(()));
    let before = rbac.clone();
    assert_eq!(
        rbac.create_role(&OWNER, ID, b"OTHER"),
        Err(failure(RbacErrorType::EntityAlreadyExist, &ID))
    );
    assert_eq!(rbac, before);
    assert_eq!(rbac.get_role(&OWNER, ID).unwrap().name, b"ADMIN".to_vec());
}

#[test]
fn same_identifier_lives_under_each_kind() {
    let mut rbac = Pallet::new();
    assert_eq!(rbac.create_role(&OWNER, ID, b"as role"), Ok(()));
    assert_eq!(rbac.create_group(&OWNER, ID, b"as group"), Ok(()));
    assert_eq!(rbac.create_permission(&OWNER, ID, b"as permission"), Ok(()));
    assert_eq!(rbac.create_role(&OTHER, ID, b"of another"), Ok(()));
    assert_eq!(rbac.get_role(&OWNER, ID).unwrap().name, b"as role".to_vec());
    assert_eq!(rbac.get_group(&OWNER, ID).unwrap().name, b"as group".to_vec());
    assert_eq!(rbac.get_permission(&OWNER, ID).unwrap().name, b"as permission".to_vec());
    assert_eq!(rbac.get_role(&OTHER, ID).unwrap().name, b"of another".to_vec());
}

#[test]
fn update_renames_in_both_places() {
    let mut rbac = Pallet::new();
    assert_eq!(rbac.create_group(&OWNER, ID, b"Users"), Ok(()));
    assert_eq!(rbac.create_group(&OWNER, ID2, b"Guests"), Ok(()));
    assert_eq!(rbac.update_existing_group(&OWNER, ID2, b"Admins"), Ok(()));
    let renamed = Entity { id: ID2, name: b"Admins".to_vec(), enabled: true };
    assert_eq!(rbac.get_group(&OWNER, ID2), Ok(renamed.clone()));
    assert_eq!(
        rbac.get_groups(&OWNER),
        Ok(vec![Entity { id: ID, name: b"Users".to_vec(), enabled: true }, renamed])
    );
}

#[test]
fn update_fails_on_missing_and_disabled() {
    let mut rbac = Pallet::new();
    assert_eq!(
        rbac.update_existing_permission(&OWNER, ID, b"CAN_UPDATE"),
        Err(failure(RbacErrorType::EntityDoesNotExist, &ID))
    );
    assert_eq!(rbac.create_permission(&OWNER, ID, b"CAN_DELETE"), Ok(()));
    assert_eq!(rbac.disable_existing_permission(&OWNER, ID), Ok(()));
    let before = rbac.clone();
    assert_eq!(
        rbac.update_existing_permission(&OWNER, ID, b"CAN_UPDATE"),
        Err(failure(RbacErrorType::EntityDisabled, &ID))
    );
    assert_eq!(rbac, before);
}

#[test]
fn disable_is_terminal() {
    let mut rbac = Pallet::new();
    assert_eq!(rbac.create_role(&OWNER, ID, b"ADMIN"), Ok(()));
    assert_eq!(rbac.disable_existing_role(&OWNER, ID), Ok(()));
    let disabled = Err(failure(RbacErrorType::EntityDisabled, &ID));
    assert_eq!(rbac.update_existing_role(&OWNER, ID, b"AGAIN"), disabled);
    assert_eq!(rbac.disable_existing_role(&OWNER, ID), disabled);
    assert_eq!(rbac.get_role(&OWNER, ID), Err(failure(RbacErrorType::EntityDisabled, &ID)));
    assert_eq!(
        rbac.check_entity_get_key(&OWNER, &ID, Tag::Role),
        Err(failure(RbacErrorType::EntityDisabled, &ID))
    );
    assert_eq!(
        rbac.create_role(&OWNER, ID, b"ADMIN"),
        Err(failure(RbacErrorType::EntityAlreadyExist, &ID))
    );
}

#[test]
fn disable_of_a_missing_entity_fails() {
    let mut rbac = Pallet::new();
    assert_eq!(
        rbac.disable_existing_group(&OWNER, ID),
        Err(failure(RbacErrorType::EntityDoesNotExist, &ID))
    );
}

#[test]
fn fetch_all_keeps_disabled_entities_and_order() {
    let mut rbac = Pallet::new();
    assert_eq!(rbac.get_roles(&OWNER), Ok(vec![]));
    assert_eq!(rbac.create_role(&OWNER, ID, b"first"), Ok(()));
    assert_eq!(rbac.create_role(&OWNER, ID2, b"second"), Ok(()));
    assert_eq!(rbac.disable_existing_role(&OWNER, ID), Ok(()));
    assert_eq!(
        rbac.get_roles(&OWNER),
        Ok(vec![
            Entity { id: ID, name: b"first".to_vec(), enabled: false },
            Entity { id: ID2, name: b"second".to_vec(), enabled: true },
        ])
    );
    assert_eq!(rbac.get_roles(&OTHER), Ok(vec![]));
    assert_eq!(rbac.get_permissions(&OWNER), Ok(vec![]));
    assert_eq!(rbac.get_groups(&OWNER), Ok(vec![]));
}

#[test]
fn cross_owner_isolation() {
    let mut rbac = Pallet::new();
    assert_eq!(rbac.create_role(&OWNER, ID, b"ADMIN"), Ok(()));
    assert_eq!(rbac.get_role(&OTHER, ID), Err(failure(RbacErrorType::EntityDoesNotExist, &ID)));
    assert_eq!(
        rbac.update_existing_role(&OTHER, ID, b"MINE"),
        Err(failure(RbacErrorType::EntityDoesNotExist, &ID))
    );
    assert_eq!(
        rbac.disable_existing_role(&OTHER, ID),
        Err(failure(RbacErrorType::EntityDoesNotExist, &ID))
    );
    assert_eq!(rbac.get_role(&OWNER, ID).unwrap().enabled, true);
}

#[test]
fn get_entity_and_key_check_agree() {
    let mut rbac = Pallet::new();
    assert_eq!(rbac.create_permission(&OWNER, ID, b"CAN_DELETE"), Ok(()));
    assert_eq!(
        rbac.check_entity_get_key(&OWNER, &ID, Tag::Permission),
        Ok(generate_key(&OWNER, &ID, Tag::Permission))
    );
    assert_eq!(
        rbac.get_entity(&OWNER, &ID, Tag::Permission),
        Ok(Entity { id: ID, name: b"CAN_DELETE".to_vec(), enabled: true })
    );
    assert_eq!(
        rbac.get_entity(&OWNER, &ID, Tag::Role),
        Err(failure(RbacErrorType::EntityDoesNotExist, &ID))
    );
}

#[test]
fn failure_carries_kind_and_encoded_identifier() {
    let res: Result<(), RbacError> = RbacError::err(RbacErrorType::NameExceedMaxChar, &ID);
    assert_eq!(res, Err(RbacError { typ: RbacErrorType::NameExceedMaxChar, param: ID.to_vec() }));
    let res: Result<u8, RbacError> = RbacError::err(RbacErrorType::EntityAuthorizationFailed, &ID2);
    assert_eq!(res.unwrap_err().param.len(), 32);
}

#[test]
fn entity_operations_under_a_given_key() {
    let mut rbac = Pallet::new();
    let key = [1u8; 32];
    let other_key = [2u8; 32];
    assert_eq!(rbac.check_key(&key, &ID), Err(failure(RbacErrorType::EntityDoesNotExist, &ID)));
    assert_eq!(rbac.create_entity_at(key, &OWNER, ID, b"ADMIN", Tag::Role), Ok(()));
    assert_eq!(rbac.create_entity_at(other_key, &OWNER, ID2, b"GUEST", Tag::Role), Ok(()));
    assert_eq!(
        rbac.create_entity_at(key, &OWNER, ID2, b"AGAIN", Tag::Group),
        Err(failure(RbacErrorType::EntityAlreadyExist, &ID2))
    );
    assert_eq!(rbac.check_key(&key, &ID), Ok(()));
    assert_eq!(
        rbac.entity_at(&key, &ID),
        Ok(Entity { id: ID, name: b"ADMIN".to_vec(), enabled: true })
    );
    assert_eq!(rbac.update_entity_at(key, &OWNER, ID, b"ROOT", Tag::Role), Ok(()));
    assert_eq!(rbac.disable_entity_at(other_key, &OWNER, ID2, Tag::Role), Ok(()));
    assert_eq!(
        rbac.get_roles(&OWNER),
        Ok(vec![
            Entity { id: ID, name: b"ROOT".to_vec(), enabled: true },
            Entity { id: ID2, name: b"GUEST".to_vec(), enabled: false },
        ])
    );
    assert_eq!(
        rbac.entity_at(&other_key, &ID2),
        Err(failure(RbacErrorType::EntityDisabled, &ID2))
    );
    assert_eq!(
        rbac.update_entity_at(other_key, &OWNER, ID2, b"X", Tag::Role),
        Err(failure(RbacErrorType::EntityDisabled, &ID2))
    );
    assert_eq!(
        rbac.disable_entity_at([3u8; 32], &OWNER, ID, Tag::Role),
        Err(failure(RbacErrorType::EntityDoesNotExist, &ID))
    );
}

#[test]
fn change_of_an_entity_that_the_owner_does_not_list_changes_nothing() {
    let mut rbac = Pallet::new();
    let key = [1u8; 32];
    assert_eq!(rbac.create_entity_at(key, &OWNER, ID, b"ADMIN", Tag::Role), Ok(()));
    let before = rbac.clone();
    assert_eq!(rbac.update_entity_at(key, &OTHER, ID, b"ROOT", Tag::Role), Ok(()));
    assert_eq!(rbac.disable_entity_at(key, &OWNER, ID2, Tag::Role), Ok(()));
    assert_eq!(rbac.disable_entity_at(key, &OWNER, ID, Tag::Group), Ok(()));
    assert_eq!(rbac, before);
}
