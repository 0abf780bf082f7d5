use rustic_knights::ai::{AIConfig, Difficulty, RLChessModel};
use rustic_knights::protocol::{FrameOutcome, GameMove, GameWebSocket, InboundFrame};
use rustic_knights::relay::RelayHub;
use rustic_knights::session::{GameStatus, StoreError};
use rustic_knights::store::{create_in_memory_db, DbConnection};

fn in_progress_session(db: &mut DbConnection) -> u64 {
    let id = db
        .create_game(rustic_knights::session::GameSession::new("alice".to_string()))
        .unwrap();
    db.join_game(id, "bob".to_string()).unwrap();
    id
}

#[test]
fn move_frame_is_logged_then_relayed() {
    let mut db = create_in_memory_db();
    let id = in_progress_session(&mut db);
    let mut hub = RelayHub::new();
    hub.register(id, "alice".to_string(), 1);
    hub.register(id, "bob".to_string(), 2);
    let ws = GameWebSocket::new(id, "alice".to_string());
    let outcome = ws
        .handle_frame(&mut db, &mut hub, InboundFrame::Move { payload: "e2e4".to_string() })
        .unwrap();
    assert!(matches!(outcome, FrameOutcome::Relayed { delivered: 1 }));
    // the store logged the move: it is the system of record
    assert_eq!(db.find_game(id).unwrap().moves, vec!["e2e4".to_string()]);
    // the peer's channel got the identical payload
    assert_eq!(hub.drain_outbox(id, &"bob".to_string()), vec!["e2e4".to_string()]);
}

#[test]
fn move_frame_on_waiting_session_changes_nothing() {
    let mut db = create_in_memory_db();
    let id = db
        .create_game(rustic_knights::session::GameSession::new("alice".to_string()))
        .unwrap();
    let mut hub = RelayHub::new();
    hub.register(id, "alice".to_string(), 1);
    hub.register(id, "bob".to_string(), 2);
    let ws = GameWebSocket::new(id, "alice".to_string());
    let err = ws
        .handle_frame(&mut db, &mut hub, InboundFrame::Move { payload: "e2e4".to_string() })
        .unwrap_err();
    assert_eq!(err, StoreError::InvalidState);
    assert!(db.find_game(id).unwrap().moves.is_empty());
    // nothing was relayed either
    assert!(hub.drain_outbox(id, &"bob".to_string()).is_empty());
}

#[test]
fn resign_frame_relays_then_completes() {
    let mut db = create_in_memory_db();
    let id = in_progress_session(&mut db);
    let mut hub = RelayHub::new();
    hub.register(id, "alice".to_string(), 1);
    hub.register(id, "bob".to_string(), 2);
    let ws = GameWebSocket::new(id, "alice".to_string());
    let outcome = ws
        .handle_frame(&mut db, &mut hub, InboundFrame::Resign { verdict: "resign".to_string() })
        .unwrap();
    assert!(matches!(outcome, FrameOutcome::Completed { delivered: 1 }));
    let stored = db.find_game(id).unwrap();
    assert!(matches!(stored.status, GameStatus::Completed));
    assert_eq!(stored.verdict.as_deref(), Some("resign"));
    assert_eq!(hub.drain_outbox(id, &"bob".to_string()), vec!["resign".to_string()]);
}

#[test]
fn ping_frame_touches_nothing_and_asks_for_pong() {
    let mut db = create_in_memory_db();
    let id = in_progress_session(&mut db);
    let mut hub = RelayHub::new();
    hub.register(id, "bob".to_string(), 2);
    let ws = GameWebSocket::new(id, "alice".to_string());
    let outcome = ws
        .handle_frame(&mut db, &mut hub, InboundFrame::Ping { payload: "hi".to_string() })
        .unwrap();
    match outcome {
        FrameOutcome::Pong { payload } => assert_eq!(payload, "hi"),
        _ => panic!("expected a pong"),
    }
    assert!(db.find_game(id).unwrap().moves.is_empty());
    assert!(hub.drain_outbox(id, &"bob".to_string()).is_empty());
}

#[test]
fn moves_relayed_in_order_and_logged_in_order() {
    let mut db = create_in_memory_db();
    let id = in_progress_session(&mut db);
    let mut hub = RelayHub::new();
    hub.register(id, "alice".to_string(), 1);
    hub.register(id, "bob".to_string(), 2);
    let ws = GameWebSocket::new(id, "alice".to_string());
    ws.handle_frame(&mut db, &mut hub, InboundFrame::Move { payload: "m1".to_string() })
        .unwrap();
    ws.handle_frame(&mut db, &mut hub, InboundFrame::Move { payload: "m2".to_string() })
        .unwrap();
    assert_eq!(db.find_game(id).unwrap().moves, vec!["m1".to_string(), "m2".to_string()]);
    assert_eq!(
        hub.drain_outbox(id, &"bob".to_string()),
        vec!["m1".to_string(), "m2".to_string()]
    );
}

#[test]
fn game_move_carries_its_squares() {
    let m = GameMove { from: "e2".to_string(), to: "e4".to_string(), piece: "P".to_string() };
    assert_eq!(m.from, "e2");
    assert_eq!(m.to, "e4");
    assert_eq!(m.piece, "P");
}

#[test]
fn model_starts_unconfigured_and_adopts_config() {
    let mut model = RLChessModel::new();
    assert!(model.config.is_none());
    model.init(AIConfig { difficulty: Difficulty::Medium, max_thinking_time_ms: 500, max_depth: 4 });
    let cfg = model.config.unwrap();
    assert_eq!(cfg.difficulty, Difficulty::Medium);
    assert_eq!(cfg.max_thinking_time_ms, 500);
    assert_eq!(cfg.max_depth, 4);
    let (name, version) = model.get_model_info();
    assert_eq!(name, "RLChessModel");
    assert_eq!(version, "0.1.0");
}
