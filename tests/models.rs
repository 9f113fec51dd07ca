use rust_tc_sdk::error::{Error, ErrorKind};
use rust_tc_sdk::identity::NoiseKeyService;
use rust_tc_sdk::models::{NoiseModel, Room, RoomMember, RoomOption, RustSDKOptions};
use rust_tc_sdk::room_service::RoomService;

#[test]
fn error_test_key_not_found_error() {
    let error: std::result::Result<String, Error> = Err(Error::from(ErrorKind::KeyNotFound));

    match error {
        Err(Error(ErrorKind::KeyNotFound, _)) => {}
        _ => panic!("Unexpected error type!"),
    }
}

#[test]
fn test_noise_model_initialization() {
    let id = "sample-id";
    let private = vec![1, 2, 3];
    let public = vec![4, 5, 6];

    let model = NoiseModel::from((id.to_string(), private.clone(), public.clone()));

    assert_eq!(model.id, id);
    assert_eq!(model.private, private);
    assert_eq!(model.public, public);
}

#[test]
fn test_room_initialization() {
    let id = "test-room-id".to_string();
    let name = "test-room-name".to_string();

    let room = Room::from((id.clone(), name.clone()));

    assert_eq!(room.id().clone(), id);
    assert_eq!(room.name().clone(), name);
}

#[test]
fn test_get_id() {
    let id = "sample-id".to_string();
    let room = Room::from((id.clone(), "sample-name".to_string()));

    assert_eq!(room.id().clone(), id);
}

#[test]
fn test_get_name() {
    let name = "sample-name".to_string();
    let room = Room::from(("sample-id".to_string(), name.clone()));

    assert_eq!(room.name().clone(), name);
}

#[test]
fn test_room_option_new_with_id() {
    let name = "Test Room";

    let room_option = RoomOption::from((None, name.clone().to_string()));

    assert_eq!(room_option.id, None);
    assert_eq!(room_option.name, name.to_string());
}

#[test]
fn test_room_option_new_without_id() {
    let name = "Test Room";

    let room_option = RoomOption::from((None, name.clone().to_string()));

    assert_eq!(room_option.id, None);
    assert_eq!(room_option.name, name.to_string());
}

#[test]
fn test_rust_sdk_options_new() {
    let db_url = "sqlite://test.db";

    let options = RustSDKOptions::from((Some(db_url.to_string()), None));

    assert_eq!(options.db_url.unwrap(), db_url);
}

#[test]
fn test_generate_ecdsa_keypair() {
    let room_id = "test_room";
    let keypair = NoiseKeyService::generate_ecdsa_keypair(room_id);
    assert!(keypair.is_ok());
}

#[test]
fn test_create_and_get_key() {
    let mut service = NoiseKeyService::new();
    let room_id = "test_room_1";

    let create_result = service.create_key(room_id);
    assert!(create_result.is_ok());

    let get_key_result = service.get_key(room_id);
    assert!(get_key_result.is_ok());
}

#[test]
fn test_delete_key() {
    let mut service = NoiseKeyService::new();
    let room_id = "test_room_2";

    let create_result = service.create_key(room_id);
    assert!(create_result.is_ok());

    let delete_result = service.delete_key(room_id);
    assert!(delete_result.is_ok());

    let get_key_after_delete = service.get_key(room_id);
    assert!(get_key_after_delete.is_err()); // Expect an error after deleting the key
}

#[test]
fn test_create_room() {
    let mut service = RoomService::new();
    let room = Room::from(("123".to_string(), "Test Room".to_string()));

    let result = service.create_room(&room);
    assert!(result.is_ok());
}

#[test]
fn test_get_room() {
    let mut service = RoomService::new();
    let room = Room::from(("123".to_string(), "Test Room".to_string()));

    service.create_room(&room).unwrap();
    let fetched_room = service.get_room("123");
    assert_eq!(fetched_room.unwrap().name(), "Test Room");
}

#[test]
fn room_member_keeps_ids() {
    let member = RoomMember::new("m1".to_string(), "r1".to_string());
    assert_eq!(member.get_id(), "m1");
    assert_eq!(member.get_room_id(), "r1");
}

#[test]
fn error_chain_keeps_kind() {
    let e = Error::from(ErrorKind::RoomNotFound).chain_err("while starting".to_string());
    assert_eq!(e.kind(), ErrorKind::RoomNotFound);
    assert_eq!(e.1, Some("while starting".to_string()));
}

#[test]
fn generated_identity_has_key_sizes() {
    let model = NoiseKeyService::generate_ecdsa_keypair("r").unwrap();
    assert_eq!(model.id, "r");
    assert_eq!(model.private.len(), 32);
    assert_eq!(model.public.len(), 65);
    assert_eq!(model.public[0], 4);
}

#[test]
fn zero_secret_is_invalid_key() {
    let mut service = NoiseKeyService::new();
    service.insert_key(NoiseModel::from(("z".to_string(), vec![0u8; 32], vec![4u8; 65]))).unwrap();
    let err = service.get_key("z").unwrap_err();
    assert_eq!(err.kind(), ErrorKind::InvalidKey);
}

#[test]
fn short_secret_is_invalid_key() {
    let mut service = NoiseKeyService::new();
    service.insert_key(NoiseModel::from(("s".to_string(), vec![1u8; 5], vec![]))).unwrap();
    assert_eq!(service.get_key("s").unwrap_err().kind(), ErrorKind::InvalidKey);
}

#[test]
fn missing_identity_is_key_not_found() {
    let service = NoiseKeyService::new();
    assert_eq!(service.get_key("nope").unwrap_err().kind(), ErrorKind::KeyNotFound);
}

#[test]
fn duplicate_identity_is_refused() {
    let mut service = NoiseKeyService::new();
    service.create_key("d").unwrap();
    assert_eq!(service.create_key("d").unwrap_err().kind(), ErrorKind::DuplicateKey);
    assert_eq!(service.get_keys().len(), 1);
}

#[test]
fn room_service_update_and_delete() {
    let mut service = RoomService::new();
    service.create_room(&Room::new("a".to_string(), "A".to_string())).unwrap();
    service.create_room(&Room::new("b".to_string(), "B".to_string())).unwrap();
    assert_eq!(service.create_room(&Room::new("a".to_string(), "X".to_string())).unwrap_err().kind(), ErrorKind::DuplicateKey);
    service.update_room("a", "A2").unwrap();
    assert_eq!(service.get_room("a").unwrap().get_name(), "A2");
    service.update_room("missing", "M").unwrap();
    service.delete_room("a").unwrap();
    assert_eq!(service.get_room("a").unwrap_err().kind(), ErrorKind::RoomNotFound);
    service.delete_room("a").unwrap();
    let rooms = service.get_rooms().unwrap();
    assert_eq!(rooms.len(), 1);
    assert_eq!(rooms[0].get_id(), "b");
    assert_eq!(rooms[0].get_name(), "B");
}
