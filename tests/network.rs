use rust_tc_sdk::models::ControlMessage;
use rust_tc_sdk::network::{
    process_swarm_event, run_swarm_step, ControlPoll, LoopStep, NodeRole, SwarmAction, SwarmEvent,
};
use rust_tc_sdk::record_store::{
    convert_sec_to_instant, seconds_until, DhtRecord, ProviderRecord, RecordSerializable, RedisRecordStore,
};

#[test]
fn discovered_peers_become_explicit_peers() {
    let ev = SwarmEvent::MdnsDiscovered(vec![vec![1, 1], vec![2, 2]]);
    let actions = process_swarm_event(NodeRole::Room, &ev);
    assert_eq!(actions.len(), 2);
    assert!(matches!(&actions[0], SwarmAction::AddExplicitPeer(p) if p == &vec![1, 1]));
    assert!(matches!(&actions[1], SwarmAction::AddExplicitPeer(p) if p == &vec![2, 2]));
}

#[test]
fn expired_peers_are_removed() {
    let ev = SwarmEvent::MdnsExpired(vec![vec![5]]);
    let actions = process_swarm_event(NodeRole::Bootstrap, &ev);
    assert_eq!(actions.len(), 1);
    assert!(matches!(&actions[0], SwarmAction::RemoveExplicitPeer(p) if p == &vec![5]));
}

#[test]
fn observed_address_is_recorded() {
    let ev = SwarmEvent::IdentifyReceived { peer: vec![1], observed_addr: vec![4, 127, 0, 0, 1] };
    let actions = process_swarm_event(NodeRole::Room, &ev);
    assert_eq!(actions.len(), 1);
    assert!(matches!(&actions[0], SwarmAction::AddExternalAddress(a) if a == &vec![4, 127, 0, 0, 1]));
}

#[test]
fn logged_events_take_no_action() {
    assert!(process_swarm_event(NodeRole::Room, &SwarmEvent::Other).is_empty());
    assert!(process_swarm_event(NodeRole::Room, &SwarmEvent::PingSucceeded { peer: vec![1], rtt_millis: 3 }).is_empty());
    assert!(process_swarm_event(NodeRole::Room, &SwarmEvent::PingFailed { peer: vec![1] }).is_empty());
    let msg = SwarmEvent::GossipMessage { source: vec![1], id: vec![2], data: b"x".to_vec() };
    assert!(process_swarm_event(NodeRole::Bootstrap, &msg).is_empty());
}

#[test]
fn invalid_utf8_payload_is_replaced() {
    let msg = SwarmEvent::GossipMessage { source: vec![1], id: vec![2], data: vec![b'h', b'i', 0xff] };
    let actions = process_swarm_event(NodeRole::Room, &msg);
    match &actions[0] {
        SwarmAction::Forward(ev) => assert_eq!(ev.payload.data, "hi\u{FFFD}"),
        _ => panic!("expected a forwarded event"),
    }
}

#[test]
fn loop_stops_only_on_stop_or_closed_channel() {
    assert_eq!(run_swarm_step(ControlPoll::Received(ControlMessage::Stop)), LoopStep::Stop);
    assert_eq!(run_swarm_step(ControlPoll::Empty), LoopStep::Continue);
    assert_eq!(run_swarm_step(ControlPoll::Disconnected), LoopStep::Stop);
}

#[test]
fn deadline_from_stored_seconds() {
    assert_eq!(convert_sec_to_instant(100, 5), 105);
    assert_eq!(convert_sec_to_instant(100, 0), 100);
    assert_eq!(convert_sec_to_instant(100, -3), 100);
    assert_eq!(convert_sec_to_instant(u64::MAX - 1, 10), u64::MAX);
    assert_eq!(seconds_until(130, 100), 30);
    assert_eq!(seconds_until(90, 100), 0);
    assert_eq!(seconds_until(u64::MAX, 0), i64::MAX);
}

#[test]
fn scenario_put_then_get_without_expiry() {
    let mut store = RedisRecordStore::new();
    store.put(DhtRecord { key: vec![1, 2, 3], value: vec![9, 9], publisher: None, expires: None }, 10).unwrap();
    let got = store.get(&vec![1, 2, 3], 50).unwrap();
    assert_eq!(got.value, vec![9, 9]);
    assert_eq!(got.publisher, None);
    assert_eq!(got.expires, None);
    assert!(store.get(&vec![1, 2], 50).is_none());
}

#[test]
fn put_then_get_keeps_remaining_time() {
    let mut store = RedisRecordStore::new();
    store.put(DhtRecord { key: vec![7], value: vec![1], publisher: Some(vec![3, 3]), expires: Some(160) }, 100).unwrap();
    let got = store.get(&vec![7], 500).unwrap();
    assert_eq!(got.publisher, Some(vec![3, 3]));
    assert_eq!(got.expires, Some(560));
    let row = RecordSerializable::from_record(DhtRecord { key: vec![7], value: vec![1], publisher: None, expires: Some(160) }, 100);
    assert_eq!(row.expires, Some(60));
}

#[test]
fn put_overwrites_and_remove_is_idempotent() {
    let mut store = RedisRecordStore::new();
    store.put(DhtRecord { key: vec![1], value: vec![1], publisher: None, expires: None }, 0).unwrap();
    store.put(DhtRecord { key: vec![2], value: vec![2], publisher: None, expires: None }, 0).unwrap();
    store.put(DhtRecord { key: vec![1], value: vec![3], publisher: None, expires: None }, 0).unwrap();
    assert_eq!(store.get(&vec![1], 0).unwrap().value, vec![3]);
    assert_eq!(store.records(0).len(), 2);
    store.remove(&vec![1]);
    store.remove(&vec![1]);
    assert!(store.get(&vec![1], 0).is_none());
    assert_eq!(store.records(0).len(), 1);
}

#[test]
fn provider_added_twice_is_listed_once() {
    let mut store = RedisRecordStore::new();
    let rec = |addr: u8| ProviderRecord { key: vec![1], provider: vec![8], expires: None, addresses: vec![vec![addr]] };
    store.add_provider(rec(1), 0).unwrap();
    store.add_provider(rec(2), 0).unwrap();
    store.add_provider(ProviderRecord { key: vec![1], provider: vec![9], expires: Some(20), addresses: vec![] }, 10).unwrap();
    store.add_provider(ProviderRecord { key: vec![2], provider: vec![8], expires: None, addresses: vec![] }, 0).unwrap();
    let listed = store.providers(&vec![1], 100);
    assert_eq!(listed.len(), 2);
    assert_eq!(listed.iter().filter(|p| p.provider == vec![8]).count(), 1);
    assert_eq!(listed[0].addresses, vec![vec![2]]);
    assert_eq!(listed[1].expires, Some(110));
    assert_eq!(store.provided(0).len(), 3);
    store.remove_provider(&vec![1], &vec![8]);
    assert_eq!(store.providers(&vec![1], 0).len(), 1);
    assert_eq!(store.provided(0).len(), 2);
}
