//! Session creation and join, as the HTTP handlers drive them.
//!
//! The handlers themselves are transport plumbing; what they decide — which
//! session record a create request yields and what a join does to it — is
//! here, against the store.

use vstd::prelude::*;
use crate::session::GameSession;
use crate::session::SessionView;
use crate::session::StoreError;
use crate::session::spec_join;
use crate::store::DbConnection;

verus! {

/// Body of a create-session request: who plays white, and the kind of game
/// asked for (opaque to the core).
pub struct CreateGameRequest {
    pub player_id: String,
    pub game_type: String,
}

/// Body of a create-session response: the new session's identifier and its
/// two player slots, the second still empty.
pub struct GameResponse {
    pub game_id: u64,
    pub white_player: String,
    pub black_player: Option<String>,
}

/// Create a session for the requesting player.
///
/// A fresh `Waiting` session with the requester as white is stored under
/// the next identifier; the response carries that identifier, the white
/// player, and no black player.
pub fn handle_create_game(db: &mut DbConnection, req: CreateGameRequest) -> (r: Result<
    GameResponse,
    StoreError,
>)
    requires
        old(db).wf(),
    ensures
        final(db).wf(),
        final(db)@.users == old(db)@.users,
        final(db)@.games =~= old(db)@.games.push(
            SessionView {
                id: Some(old(db)@.games.len() as u64),
                ..SessionView::fresh(req.player_id@)
            },
        ),
        r matches Ok(resp) && resp.game_id == old(db)@.games.len() as u64 && resp.white_player@
            == req.player_id@ && resp.black_player is None,
{
    let white = req.player_id;
    let session = GameSession::new(white.clone());
    match db.create_game(session) {
        Ok(game_id) => Ok(
            GameResponse { game_id, white_player: white, black_player: None },
        ),
        Err(e) => Err(e),
    }
}

/// Join a session, as the join handler drives it: the store's atomic
/// check-and-set, returning the updated snapshot or the join error.
pub fn handle_join_game(db: &mut DbConnection, game_id: u64, player_id: String) -> (r: Result<
    GameSession,
    StoreError,
>)
    requires
        old(db).wf(),
    ensures
        final(db).wf(),
        final(db)@.users == old(db)@.users,
        game_id >= old(db)@.games.len() ==> r == Err::<GameSession, StoreError>(
            StoreError::NotFound,
        ) && final(db)@ == old(db)@,
        game_id < old(db)@.games.len() ==> (match spec_join(
            old(db)@.games[game_id as int],
            player_id@,
        ) {
            Ok(joined) => (r matches Ok(g) && g@ == joined) && final(db)@.games =~= old(
                db,
            )@.games.update(game_id as int, joined),
            Err(e) => r == Err::<GameSession, StoreError>(e) && final(db)@ == old(db)@,
        }),
{
    db.join_game(game_id, player_id)
}

} // verus!
