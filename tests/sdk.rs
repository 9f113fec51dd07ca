use rust_tc_sdk::error::ErrorKind;
use rust_tc_sdk::identity::KeypairWrapper;
use rust_tc_sdk::models::{ConnectionData, NoiseModel, RoomOption, RustSDKOptions};
use rust_tc_sdk::network::{notify_listeners, process_swarm_event, AppEvent, NodeRole, SwarmAction, SwarmEvent, MESSAGE_EVENT};
use rust_tc_sdk::sdk::{QuitAction, RustSDK, StartAction};

fn sdk() -> RustSDK<u32> {
    RustSDK::new(RustSDKOptions::from((None, None)))
}

fn data(id: &str, dial: Vec<&str>, listen: Vec<&str>) -> ConnectionData {
    ConnectionData {
        room_id: id.to_string(),
        room_multi_address: dial.into_iter().map(|s| s.to_string()).collect(),
        room_listen_on: listen.into_iter().map(|s| s.to_string()).collect(),
    }
}

#[test]
fn created_room_with_id_is_found() {
    let mut s = sdk();
    let room = s.create_room(RoomOption::new(Some("r1".to_string()), "Test".to_string())).unwrap();
    assert_eq!(room.id, "r1");
    let found = s.get_room("r1").unwrap();
    assert_eq!(found.id, "r1");
    assert_eq!(found.name, "Test");
}

#[test]
fn rooms_without_id_get_distinct_ids() {
    let mut s = sdk();
    let a = s.create_room(RoomOption::new(None, "A".to_string())).unwrap();
    let b = s.create_room(RoomOption::new(Some(String::new()), "B".to_string())).unwrap();
    assert_ne!(a.id, b.id);
    assert_eq!(a.id.len(), 36);
    assert_eq!(b.id.len(), 36);
    assert_eq!(s.get_rooms().unwrap().len(), 2);
}

#[test]
fn removed_room_is_not_found() {
    let mut s = sdk();
    s.create_room(RoomOption::new(Some("gone".to_string()), "G".to_string())).unwrap();
    s.remove_room("gone").unwrap();
    assert_eq!(s.get_room("gone").unwrap_err().kind(), ErrorKind::RoomNotFound);
    assert!(s.get_rooms().unwrap().is_empty());
}

#[test]
fn duplicate_room_id_is_refused() {
    let mut s = sdk();
    s.create_room(RoomOption::new(Some("dup".to_string()), "One".to_string())).unwrap();
    let err = s.create_room(RoomOption::new(Some("dup".to_string()), "Two".to_string())).unwrap_err();
    assert_eq!(err.kind(), ErrorKind::DuplicateKey);
    assert_eq!(s.get_room("dup").unwrap().name, "One");
}

#[test]
fn start_twice_keeps_one_swarm() {
    let mut s = sdk();
    s.create_room(RoomOption::new(Some("r".to_string()), "R".to_string())).unwrap();
    let d = data("r", vec![], vec![]);
    match s.start_room(&d).unwrap() {
        StartAction::Launch(plan) => {
            assert_eq!(plan.room.id, "r");
            assert_eq!(plan.listen_on, vec!["/ip4/0.0.0.0/tcp/4001".to_string(), "/ip4/0.0.0.0/udp/4001/quic-v1".to_string()]);
            assert!(plan.dial.is_empty());
        }
        StartAction::AlreadyRunning => panic!("first start must launch"),
    }
    assert!(matches!(s.start_room(&d).unwrap(), StartAction::AlreadyRunning));
    assert!(s.is_running(&"r".to_string()));
    assert_eq!(s.quit_room("r").unwrap(), QuitAction::SendStop);
    assert!(!s.is_running(&"r".to_string()));
}

#[test]
fn start_uses_given_addresses() {
    let mut s = sdk();
    s.create_room(RoomOption::new(Some("r".to_string()), "R".to_string())).unwrap();
    let d = data("r", vec!["/ip4/10.0.0.1/tcp/4000"], vec!["/ip4/127.0.0.1/tcp/5000"]);
    match s.start_room(&d).unwrap() {
        StartAction::Launch(plan) => {
            assert_eq!(plan.listen_on, vec!["/ip4/127.0.0.1/tcp/5000".to_string()]);
            assert_eq!(plan.dial, vec!["/ip4/10.0.0.1/tcp/4000".to_string()]);
        }
        StartAction::AlreadyRunning => panic!("first start must launch"),
    }
}

#[test]
fn start_rejects_bad_address() {
    let mut s = sdk();
    s.create_room(RoomOption::new(Some("r".to_string()), "R".to_string())).unwrap();
    let d = data("r", vec!["not an address"], vec![]);
    assert_eq!(s.start_room(&d).unwrap_err().kind(), ErrorKind::InvalidAddress);
    assert!(!s.is_running(&"r".to_string()));
}

#[test]
fn start_unknown_room_is_room_not_found() {
    let mut s = sdk();
    assert_eq!(s.start_room(&data("x", vec![], vec![])).unwrap_err().kind(), ErrorKind::RoomNotFound);
}

#[test]
fn abandoned_start_can_start_again() {
    let mut s = sdk();
    s.create_room(RoomOption::new(Some("r".to_string()), "R".to_string())).unwrap();
    let d = data("r", vec![], vec![]);
    assert!(matches!(s.start_room(&d).unwrap(), StartAction::Launch(_)));
    s.abandon_start(&"r".to_string());
    assert!(matches!(s.start_room(&d).unwrap(), StartAction::Launch(_)));
}

#[test]
fn quit_without_swarm_is_noop() {
    let mut s = sdk();
    assert_eq!(s.quit_room("nothing").unwrap(), QuitAction::NotRunning);
    s.create_room(RoomOption::new(Some("r".to_string()), "R".to_string())).unwrap();
    assert_eq!(s.quit_room("r").unwrap(), QuitAction::NotRunning);
    assert_eq!(s.get_room("r").unwrap().name, "R");
}

#[test]
fn scenario_room_identity_and_listing() {
    let mut s = sdk();
    s.create_room(RoomOption::new(Some("r1".to_string()), "Test".to_string())).unwrap();
    let identity = s.get_identity("r1").unwrap();
    assert_eq!(identity.id, "r1");
    assert_eq!(identity.private.len(), 32);
    let found = s.get_rooms().unwrap();
    assert!(found.iter().any(|r| r.id == "r1" && r.name == "Test"));
    let mut s2 = sdk();
    s2.create_room(RoomOption::new(Some("r1".to_string()), "Test".to_string())).unwrap();
    assert!(matches!(s2.start_room(&data("r1", vec![], vec![])).unwrap(), StartAction::Launch(_)));
}

#[test]
fn scenario_listener_receives_gossip_once() {
    let mut s = sdk();
    s.register_listener(7);
    let event = SwarmEvent::GossipMessage { source: vec![1], id: vec![2], data: b"hello".to_vec() };
    let actions = process_swarm_event(NodeRole::Room, &event);
    let delivered = std::cell::RefCell::new(Vec::new());
    for action in &actions {
        if let SwarmAction::Forward(ev) = action {
            let results = notify_listeners(s.get_listeners(), ev, |l: &u32, e: &AppEvent| {
                delivered.borrow_mut().push((*l, e.name.clone(), e.payload.data.clone()));
                true
            });
            assert_eq!(results, vec![true]);
        }
    }
    let delivered = delivered.into_inner();
    assert_eq!(delivered.len(), 1);
    assert_eq!(delivered[0].0, 7);
    assert_eq!(delivered[0].1, MESSAGE_EVENT);
    assert!(delivered[0].2.contains("hello"));
}

#[test]
fn listeners_keep_registration_order() {
    let mut s = sdk();
    s.register_listener(3);
    s.register_listener(1);
    s.register_listener(2);
    assert_eq!(s.get_listeners(), &vec![3, 1, 2]);
}

#[test]
fn clean_up_removes_rooms_and_identities() {
    let mut s = sdk();
    s.create_room(RoomOption::new(Some("a".to_string()), "A".to_string())).unwrap();
    s.create_room(RoomOption::new(Some("b".to_string()), "B".to_string())).unwrap();
    s.clean_up().unwrap();
    assert!(s.get_rooms().unwrap().is_empty());
    assert_eq!(s.start_room(&data("a", vec![], vec![])).unwrap_err().kind(), ErrorKind::RoomNotFound);
    s.create_room(RoomOption::new(Some("a".to_string()), "A".to_string())).unwrap();
}

#[test]
fn rename_room() {
    let mut s = sdk();
    s.create_room(RoomOption::new(Some("a".to_string()), "A".to_string())).unwrap();
    s.update_room("a", "New").unwrap();
    assert_eq!(s.get_room("a").unwrap().name, "New");
}

#[test]
fn keypair_wrapper_round_trip() {
    let kp = KeypairWrapper::generate();
    assert_eq!(kp.secret().len(), 32);
    assert_eq!(kp.public().len(), 65);
    assert!(kp.to_keypair().is_ok());
    let copy = KeypairWrapper::new(kp.secret().clone(), kp.public().clone());
    assert!(copy.to_keypair().is_ok());
    let bad = KeypairWrapper::new(vec![0u8; 32], vec![]);
    assert_eq!(bad.to_keypair().unwrap_err().kind(), ErrorKind::InvalidKey);
    let _ = NoiseModel::from(("k".to_string(), vec![], vec![]));
}

#[test]
fn failing_listener_does_not_stop_the_others() {
    let mut s = sdk();
    s.register_listener(1);
    s.register_listener(2);
    s.register_listener(3);
    let ev = AppEvent { name: "message".to_string(), payload: rust_tc_sdk::models::CallbackPayload { data: "x".to_string() } };
    let called = std::cell::RefCell::new(Vec::new());
    let results = notify_listeners(s.get_listeners(), &ev, |l: &u32, _e: &AppEvent| {
        called.borrow_mut().push(*l);
        *l != 2
    });
    assert_eq!(results, vec![true, false, true]);
    assert_eq!(called.into_inner(), vec![1, 2, 3]);
}

#[test]
fn start_plan_carries_the_stored_secret() {
    let mut s = sdk();
    s.create_room(RoomOption::new(Some("r".to_string()), "R".to_string())).unwrap();
    let stored = s.get_identity("r").unwrap().private.clone();
    match s.start_room(&data("r", vec![], vec![])).unwrap() {
        StartAction::Launch(plan) => {
            assert_eq!(plan.secret, stored);
            assert!(rust_tc_sdk::identity::decode_secret(&plan.secret).is_ok());
        }
        StartAction::AlreadyRunning => panic!("first start must launch"),
    }
}

#[test]
fn create_on_existing_room_leaves_identities_alone() {
    let mut s = sdk();
    s.load_room(&rust_tc_sdk::models::Room::new("lonely".to_string(), "L".to_string())).unwrap();
    let err = s.create_room(RoomOption::new(Some("lonely".to_string()), "X".to_string())).unwrap_err();
    assert_eq!(err.kind(), ErrorKind::DuplicateKey);
    assert_eq!(s.get_identity("lonely").unwrap_err().kind(), ErrorKind::KeyNotFound);
    assert_eq!(s.get_room("lonely").unwrap().name, "L");
}

#[test]
fn secret_must_be_below_the_group_order() {
    let mut one = vec![0u8; 32];
    one[31] = 1;
    assert!(rust_tc_sdk::identity::decode_secret(&one).is_ok());
    assert_eq!(rust_tc_sdk::identity::decode_secret(&vec![0xffu8; 32]).unwrap_err().kind(), ErrorKind::InvalidKey);
    assert_eq!(rust_tc_sdk::identity::decode_secret(&vec![0u8; 32]).unwrap_err().kind(), ErrorKind::InvalidKey);
}
