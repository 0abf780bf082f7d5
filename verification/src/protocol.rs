//! The real-time wire protocol and its dispatch.
//!
//! A transport connection for a session carries frames: a move to relay, a
//! resignation that completes the session, or a liveness ping. The payload
//! of a move is opaque to the core — it is relayed verbatim and appended to
//! the session's move log, which is the system of record. Turning transport
//! text into these frames (and back) is the transport adapter's business;
//! the dispatch here is what happens to the store and the hub for each
//! frame.

use vstd::prelude::*;
use crate::relay::RelayHub;
use crate::relay::peer_count;
use crate::relay::spec_relay;
use crate::session::StoreError;
use crate::session::spec_append;
use crate::session::spec_complete;
use crate::store::DbConnection;

verus! {

/// One chess move as carried on the wire: origin and destination squares
/// and the piece moved.
pub struct GameMove {
    pub from: String,
    pub to: String,
    pub piece: String,
}

/// One inbound frame on a session's real-time channel.
pub enum InboundFrame {
    /// A move payload to log and relay to the other participant.
    Move { payload: String },
    /// A resignation or other terminal signal: relayed, then the session is
    /// completed with this verdict.
    Resign { verdict: String },
    /// A liveness probe; answered, never logged or relayed.
    Ping { payload: String },
}

/// What handling one inbound frame asks of the transport.
#[derive(Debug)]
pub enum FrameOutcome {
    /// The move was logged and enqueued to `delivered` other participants
    /// (zero: no peer connected, the payload was dropped).
    Relayed { delivered: usize },
    /// The terminal signal was enqueued to `delivered` other participants
    /// and the session completed.
    Completed { delivered: usize },
    /// Answer the probe with this payload.
    Pong { payload: String },
}

/// Open a session's real-time channel for a player: register the transport
/// with the hub, replacing any stale registration under the same key.
///
/// With `replay_on_reconnect` set — the default configuration — the new
/// outbox starts with the session's full move log, oldest first, so a
/// reconnecting client catches up from the system of record; otherwise, or
/// for a session the store does not know, the outbox starts empty and the
/// client only receives what is relayed from now on.
pub fn register_connection(
    db: &DbConnection,
    hub: &mut RelayHub,
    session: u64,
    player: String,
    handle: u64,
    replay_on_reconnect: bool,
)
    requires
        db.wf(),
        old(hub).wf(),
    ensures
        final(hub).wf(),
        (!replay_on_reconnect || session >= db@.games.len()) ==> final(hub)@
            == crate::relay::spec_register(old(hub)@, session, player@, handle),
        (replay_on_reconnect && session < db@.games.len()) ==> final(hub)@
            == crate::relay::spec_unregister(old(hub)@, session, player@).push(
            crate::relay::RegView {
                session,
                player: player@,
                handle,
                outbox: db@.games[session as int].moves,
            },
        ),
{
    if replay_on_reconnect {
        match db.find_game(session) {
            Ok(g) => {
                hub.register_with_backlog(session, player, handle, g.moves);
                return ;
            },
            Err(_) => {},
        }
    }
    hub.register(session, player, handle);
}

/// One real-time connection: which session it serves and as which player.
pub struct GameWebSocket {
    pub game_id: u64,
    pub player_id: String,
}

impl GameWebSocket {
    /// A connection descriptor for the given session and player.
    pub fn new(game_id: u64, player_id: String) -> (ws: Self)
        ensures
            ws.game_id == game_id,
            ws.player_id@ == player_id@,
    {
        GameWebSocket { game_id, player_id }
    }

    /// Dispatch one inbound frame against the store and the hub.
    ///
    /// A move is appended to the session's log first — the store is the
    /// serialization point — and relayed to the other participants only if
    /// the append succeeded; a move against a session that is not in
    /// progress changes nothing. A resignation is relayed first and then
    /// completes the session with its verdict; the relay stands even when
    /// completion fails. A ping touches nothing and asks for a pong.
    pub fn handle_frame(
        &self,
        db: &mut DbConnection,
        hub: &mut RelayHub,
        frame: InboundFrame,
    ) -> (r: Result<FrameOutcome, StoreError>)
        requires
            old(db).wf(),
            old(hub).wf(),
        ensures
            final(db).wf(),
            final(hub).wf(),
            final(db)@.users == old(db)@.users,
            frame matches InboundFrame::Move { payload } ==> {
                let outcome = if self.game_id >= old(db)@.games.len() {
                    Err(StoreError::NotFound)
                } else {
                    spec_append(old(db)@.games[self.game_id as int], payload@)
                };
                match outcome {
                    Ok(appended) => {
                        &&& final(db)@.games =~= old(db)@.games.update(
                            self.game_id as int,
                            appended,
                        )
                        &&& final(hub)@ == spec_relay(
                            old(hub)@,
                            self.game_id,
                            self.player_id@,
                            payload@,
                        )
                        &&& r == Ok::<FrameOutcome, StoreError>(
                            FrameOutcome::Relayed {
                                delivered: peer_count(
                                    old(hub)@,
                                    self.game_id,
                                    self.player_id@,
                                ) as usize,
                            },
                        )
                    },
                    Err(e) => {
                        &&& r == Err::<FrameOutcome, StoreError>(e)
                        &&& final(db)@ == old(db)@
                        &&& final(hub)@ == old(hub)@
                    },
                }
            },
            frame matches InboundFrame::Resign { verdict } ==> {
                &&& final(hub)@ == spec_relay(old(hub)@, self.game_id, self.player_id@, verdict@)
                &&& {
                    let outcome = if self.game_id >= old(db)@.games.len() {
                        Err(StoreError::NotFound)
                    } else {
                        spec_complete(old(db)@.games[self.game_id as int], verdict@)
                    };
                    match outcome {
                        Ok(completed) => {
                            &&& final(db)@.games =~= old(db)@.games.update(
                                self.game_id as int,
                                completed,
                            )
                            &&& r == Ok::<FrameOutcome, StoreError>(
                                FrameOutcome::Completed {
                                    delivered: peer_count(
                                        old(hub)@,
                                        self.game_id,
                                        self.player_id@,
                                    ) as usize,
                                },
                            )
                        },
                        Err(e) => {
                            &&& r == Err::<FrameOutcome, StoreError>(e)
                            &&& final(db)@ == old(db)@
                        },
                    }
                }
            },
            frame matches InboundFrame::Ping { payload } ==> {
                &&& final(db)@ == old(db)@
                &&& final(hub)@ == old(hub)@
                &&& (r matches Ok(o) && o matches FrameOutcome::Pong { payload: p } && p@
                    == payload@)
            },
    {
        match frame {
            InboundFrame::Move { payload } => {
                match db.append_move(self.game_id, payload.clone()) {
                    Ok(()) => {
                        let delivered = hub.relay(self.game_id, &self.player_id, &payload);
                        Ok(FrameOutcome::Relayed { delivered })
                    },
                    Err(e) => Err(e),
                }
            },
            InboundFrame::Resign { verdict } => {
                let delivered = hub.relay(self.game_id, &self.player_id, &verdict);
                match db.complete_game(self.game_id, verdict) {
                    Ok(()) => Ok(FrameOutcome::Completed { delivered }),
                    Err(e) => Err(e),
                }
            },
            InboundFrame::Ping { payload } => Ok(FrameOutcome::Pong { payload }),
        }
    }
}

} // verus!
