//! Game sessions and their lifecycle.
//!
//! A session is created in `Waiting` with only the white player set, moves to
//! `InProgress` when a second player joins, and ends in `Completed` once a
//! verdict is recorded. `Completed` is terminal. The spec-level transition
//! functions here are the single definition of that state machine; the store
//! proves its mutators against them.

use vstd::prelude::*;

verus! {

/// Lifecycle status of a game session.
#[derive(Clone, Copy, Debug, PartialEq, Eq, Structural)]
pub enum GameStatus {
    Waiting,
    InProgress,
    Completed,
}

/// Errors of the session store and the session state machine.
///
/// `NotFound`, `AlreadyFull`, `SelfJoin`, `InvalidState` and
/// `ConflictingVerdict` are client-input errors; `StoreUnavailable` is a
/// transient backend failure; `DuplicateUsername` and `HashingFailed` come
/// from user registration.
#[derive(Clone, Copy, Debug, PartialEq, Eq, Structural)]
pub enum StoreError {
    NotFound,
    AlreadyFull,
    SelfJoin,
    InvalidState,
    ConflictingVerdict,
    StoreUnavailable,
    DuplicateUsername,
    HashingFailed,
}

/// One two-player game session record.
///
/// `id` is `None` until the store assigns one at creation and never changes
/// afterwards. `black_player` is set at most once, by a join. `moves` is
/// append-only. `verdict` is set exactly when the session completes.
#[derive(Debug)]
pub struct GameSession {
    pub id: Option<u64>,
    pub white_player: String,
    pub black_player: Option<String>,
    pub moves: Vec<String>,
    pub status: GameStatus,
    pub verdict: Option<String>,
}

/// Mathematical value of a [`GameSession`].
#[verifier::ext_equal]
pub ghost struct SessionView {
    pub id: Option<u64>,
    pub white_player: Seq<char>,
    pub black_player: Option<Seq<char>>,
    pub moves: Seq<Seq<char>>,
    pub status: GameStatus,
    pub verdict: Option<Seq<char>>,
}

impl View for GameSession {
    type V = SessionView;

    open spec fn view(&self) -> SessionView {
        SessionView {
            id: self.id,
            white_player: self.white_player@,
            black_player: match self.black_player {
                Some(p) => Some(p@),
                None => None,
            },
            moves: self.moves.deep_view(),
            status: self.status,
            verdict: match self.verdict {
                Some(v) => Some(v@),
                None => None,
            },
        }
    }
}

impl SessionView {
    /// Session invariant: the status tells whether a second player has
    /// joined, a joined player differs from the white player, and a verdict
    /// exists exactly on completed sessions.
    pub open spec fn wf(self) -> bool {
        &&& (self.status == GameStatus::Waiting <==> self.black_player is None)
        &&& (self.black_player is Some ==> self.black_player->0 != self.white_player)
        &&& (self.verdict is Some <==> self.status == GameStatus::Completed)
    }

    /// A freshly created session for the given white player, before the
    /// store has assigned it an identifier.
    pub open spec fn fresh(white: Seq<char>) -> SessionView {
        SessionView {
            id: None,
            white_player: white,
            black_player: None,
            moves: Seq::empty(),
            status: GameStatus::Waiting,
            verdict: None,
        }
    }
}

/// State-machine transition: a player asks to join.
///
/// Succeeds exactly when no second player has joined yet and the joiner is
/// not the white player; then the joiner becomes the black player and the
/// session moves to `InProgress`. Fails `AlreadyFull` once a second player
/// is set, and `SelfJoin` when the white player joins their own session.
pub open spec fn spec_join(s: SessionView, player: Seq<char>) -> Result<SessionView, StoreError> {
    if s.black_player is Some {
        Err(StoreError::AlreadyFull)
    } else if player == s.white_player {
        Err(StoreError::SelfJoin)
    } else {
        Ok(SessionView { black_player: Some(player), status: GameStatus::InProgress, ..s })
    }
}

/// State-machine transition: a move arrives.
///
/// Appends the move exactly when the session is `InProgress`; otherwise the
/// session is unchanged and the transition fails `InvalidState`.
pub open spec fn spec_append(s: SessionView, mv: Seq<char>) -> Result<SessionView, StoreError> {
    if s.status == GameStatus::InProgress {
        Ok(SessionView { moves: s.moves.push(mv), ..s })
    } else {
        Err(StoreError::InvalidState)
    }
}

/// State-machine transition: a completion verdict arrives.
///
/// From `InProgress` the verdict is recorded and the session becomes
/// `Completed`. On an already completed session the same verdict is an
/// idempotent no-op and a different verdict fails `ConflictingVerdict`,
/// the first verdict standing. A `Waiting` session cannot complete
/// (`InvalidState`): completion would otherwise set a status other than
/// `Waiting` with no second player.
pub open spec fn spec_complete(s: SessionView, verdict: Seq<char>) -> Result<
    SessionView,
    StoreError,
> {
    match s.status {
        GameStatus::Waiting => Err(StoreError::InvalidState),
        GameStatus::InProgress => Ok(
            SessionView { status: GameStatus::Completed, verdict: Some(verdict), ..s },
        ),
        GameStatus::Completed => {
            if s.verdict == Some(verdict) {
                Ok(s)
            } else {
                Err(StoreError::ConflictingVerdict)
            }
        },
    }
}

/// Each transition preserves the session invariant and never rolls a
/// session backwards: an assigned identifier, the white player and all
/// recorded moves survive, the move log only grows, and a completed
/// session never changes again.
pub proof fn lemma_transitions_preserve_wf(s: SessionView, arg: Seq<char>)
    requires
        s.wf(),
    ensures
        spec_join(s, arg) matches Ok(t) ==> t.wf() && t.id == s.id && t.white_player
            == s.white_player && t.moves == s.moves,
        spec_append(s, arg) matches Ok(t) ==> t.wf() && t.id == s.id && t.white_player
            == s.white_player && t.moves == s.moves.push(arg) && t.status == s.status,
        spec_complete(s, arg) matches Ok(t) ==> t.wf() && t.id == s.id && t.white_player
            == s.white_player && t.moves == s.moves,
        s.status == GameStatus::Completed ==> (spec_complete(s, arg) matches Ok(t) ==> t == s),
{
}

/// A well-formed session has a second player exactly when it has left
/// `Waiting`, whatever state it is observed in.
pub proof fn lemma_black_player_reflects_status(s: SessionView)
    requires
        s.wf(),
    ensures
        s.black_player is Some <==> s.status != GameStatus::Waiting,
{
}

/// Joins on one waiting session exclude each other: however many join
/// attempts race, the store serializes them, the first one by a player
/// other than the white player succeeds, and every attempt serialized after
/// it — by any player — observes `AlreadyFull`.
pub proof fn lemma_join_exclusive(s: SessionView, p: Seq<char>, q: Seq<char>)
    requires
        s.wf(),
        s.status == GameStatus::Waiting,
        p != s.white_player,
    ensures
        spec_join(s, p) is Ok,
        spec_join(spec_join(s, p)->Ok_0, q) == Err::<SessionView, StoreError>(
            StoreError::AlreadyFull,
        ),
{
}

/// Completion is idempotent: completing an in-progress session succeeds;
/// completing it again with the same verdict succeeds and changes nothing —
/// moves, status and verdict all stand as the first completion left them —
/// while a different verdict fails `ConflictingVerdict` and the first
/// verdict stands.
pub proof fn lemma_complete_idempotent(s: SessionView, v: Seq<char>, w: Seq<char>)
    requires
        s.wf(),
        s.status == GameStatus::InProgress,
    ensures
        spec_complete(s, v) is Ok,
        spec_complete(spec_complete(s, v)->Ok_0, v) == Ok::<SessionView, StoreError>(
            spec_complete(s, v)->Ok_0,
        ),
        v != w ==> spec_complete(spec_complete(s, v)->Ok_0, w) == Err::<SessionView, StoreError>(
            StoreError::ConflictingVerdict,
        ),
{
}

impl DeepView for GameSession {
    type V = SessionView;

    open spec fn deep_view(&self) -> SessionView {
        self.view()
    }
}

impl Clone for GameSession {
    /// A clone has the same mathematical value.
    fn clone(&self) -> (r: Self)
        ensures
            r@ == self@,
    {
        broadcast use vstd::std_specs::vec::vec_clone_deep_view_proof;

        let r = GameSession {
            id: self.id,
            white_player: self.white_player.clone(),
            black_player: self.black_player.clone(),
            moves: self.moves.clone(),
            status: self.status,
            verdict: self.verdict.clone(),
        };
        proof {
            assert(r@ =~= self@);
        }
        r
    }
}

impl GameSession {
    /// A new session for the given white player: `Waiting`, no second
    /// player, no moves, no identifier yet.
    pub fn new(player_id: String) -> (s: Self)
        ensures
            s@ == SessionView::fresh(player_id@),
    {
        let s = Self {
            id: None,
            white_player: player_id,
            black_player: None,
            moves: Vec::new(),
            status: GameStatus::Waiting,
            verdict: None,
        };
        proof {
            assert(s@.moves =~= Seq::empty());
            assert(s@ =~= SessionView::fresh(s.white_player@));
        }
        s
    }
}

} // verus!
