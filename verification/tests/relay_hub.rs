use rustic_knights::protocol::register_connection;
use rustic_knights::relay::RelayHub;
use rustic_knights::session::GameSession;
use rustic_knights::store::create_in_memory_db;

fn hub_with(pairs: &[(u64, &str, u64)]) -> RelayHub {
    let mut hub = RelayHub::new();
    for (session, player, handle) in pairs {
        hub.register(*session, player.to_string(), *handle);
    }
    hub
}

#[test]
fn relay_reaches_the_other_participant_verbatim() {
    let mut hub = hub_with(&[(0, "alice", 10), (0, "bob", 11)]);
    let delivered = hub.relay(0, &"alice".to_string(), &"e2e4".to_string());
    assert_eq!(delivered, 1);
    let bob_inbox = hub.drain_outbox(0, &"bob".to_string());
    assert_eq!(bob_inbox, vec!["e2e4".to_string()]);
    // the sender receives nothing
    let alice_inbox = hub.drain_outbox(0, &"alice".to_string());
    assert!(alice_inbox.is_empty());
}

#[test]
fn relay_without_peer_drops_payload() {
    let mut hub = hub_with(&[(0, "alice", 10)]);
    let delivered = hub.relay(0, &"alice".to_string(), &"e2e4".to_string());
    assert_eq!(delivered, 0);
    // nothing was buffered anywhere
    assert_eq!(hub.entries.len(), 1);
    assert!(hub.entries[0].outbox.is_empty());
}

#[test]
fn relay_preserves_order_under_unrelated_traffic() {
    let mut hub = hub_with(&[(0, "alice", 10), (0, "bob", 11), (1, "carol", 12), (1, "dave", 13)]);
    hub.relay(0, &"alice".to_string(), &"m1".to_string());
    // unrelated traffic on another session in between
    hub.relay(1, &"carol".to_string(), &"x1".to_string());
    hub.relay(0, &"alice".to_string(), &"m2".to_string());
    let bob_inbox = hub.drain_outbox(0, &"bob".to_string());
    assert_eq!(bob_inbox, vec!["m1".to_string(), "m2".to_string()]);
    let dave_inbox = hub.drain_outbox(1, &"dave".to_string());
    assert_eq!(dave_inbox, vec!["x1".to_string()]);
}

#[test]
fn relay_stays_within_its_session() {
    let mut hub = hub_with(&[(0, "alice", 10), (0, "bob", 11), (1, "bob", 12)]);
    hub.relay(0, &"alice".to_string(), &"e2e4".to_string());
    // the registration of the same player under another session is untouched
    let other = hub.drain_outbox(1, &"bob".to_string());
    assert!(other.is_empty());
    let same = hub.drain_outbox(0, &"bob".to_string());
    assert_eq!(same, vec!["e2e4".to_string()]);
}

#[test]
fn unregister_removes_only_that_key() {
    let mut hub = hub_with(&[(0, "alice", 10), (0, "bob", 11)]);
    hub.unregister(0, &"alice".to_string());
    assert_eq!(hub.entries.len(), 1);
    assert_eq!(hub.entries[0].player, "bob");
    assert_eq!(hub.entries[0].session, 0);
}

#[test]
fn unregister_twice_is_a_noop_after_the_first() {
    let mut hub = hub_with(&[(0, "alice", 10), (0, "bob", 11), (1, "carol", 12)]);
    hub.unregister(0, &"alice".to_string());
    let snapshot: Vec<(u64, String, u64, Vec<String>)> = hub
        .entries
        .iter()
        .map(|e| (e.session, e.player.clone(), e.handle, e.outbox.clone()))
        .collect();
    hub.unregister(0, &"alice".to_string());
    let again: Vec<(u64, String, u64, Vec<String>)> = hub
        .entries
        .iter()
        .map(|e| (e.session, e.player.clone(), e.handle, e.outbox.clone()))
        .collect();
    assert_eq!(snapshot, again);
}

#[test]
fn unregister_absent_key_never_errors() {
    let mut hub = RelayHub::new();
    hub.unregister(5, &"nobody".to_string());
    assert!(hub.entries.is_empty());
}

#[test]
fn reregister_replaces_handle_and_discards_outbox() {
    let mut hub = hub_with(&[(0, "alice", 10), (0, "bob", 11)]);
    hub.relay(0, &"alice".to_string(), &"m1".to_string());
    // bob reconnects: new handle, stale outbox dropped
    hub.register(0, "bob".to_string(), 99);
    let bobs: Vec<&rustic_knights::relay::Registration> = hub
        .entries
        .iter()
        .filter(|e| e.session == 0 && e.player == "bob")
        .collect();
    assert_eq!(bobs.len(), 1);
    assert_eq!(bobs[0].handle, 99);
    assert!(bobs[0].outbox.is_empty());
}

#[test]
fn drain_empties_the_outbox() {
    let mut hub = hub_with(&[(0, "alice", 10), (0, "bob", 11)]);
    hub.relay(0, &"alice".to_string(), &"m1".to_string());
    assert_eq!(hub.drain_outbox(0, &"bob".to_string()).len(), 1);
    assert!(hub.drain_outbox(0, &"bob".to_string()).is_empty());
}

#[test]
fn reconnect_with_replay_starts_from_the_move_log() {
    let mut db = create_in_memory_db();
    let id = db.create_game(GameSession::new("alice".to_string())).unwrap();
    db.join_game(id, "bob".to_string()).unwrap();
    db.append_move(id, "m1".to_string()).unwrap();
    db.append_move(id, "m2".to_string()).unwrap();
    let mut hub = RelayHub::new();
    register_connection(&db, &mut hub, id, "bob".to_string(), 7, true);
    assert_eq!(
        hub.drain_outbox(id, &"bob".to_string()),
        vec!["m1".to_string(), "m2".to_string()]
    );
}

#[test]
fn reconnect_without_replay_starts_empty() {
    let mut db = create_in_memory_db();
    let id = db.create_game(GameSession::new("alice".to_string())).unwrap();
    db.join_game(id, "bob".to_string()).unwrap();
    db.append_move(id, "m1".to_string()).unwrap();
    let mut hub = RelayHub::new();
    register_connection(&db, &mut hub, id, "bob".to_string(), 7, false);
    assert!(hub.drain_outbox(id, &"bob".to_string()).is_empty());
}

#[test]
fn replay_for_unknown_session_starts_empty() {
    let db = create_in_memory_db();
    let mut hub = RelayHub::new();
    register_connection(&db, &mut hub, 3, "bob".to_string(), 7, true);
    assert_eq!(hub.entries.len(), 1);
    assert!(hub.entries[0].outbox.is_empty());
}
