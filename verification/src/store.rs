//! The in-process session store.
//!
//! [`DbConnection`] is the single serialization point for session and user
//! mutations: every method takes the whole store, so two mutations of the
//! same session can never interleave. (A server wraps the store in one
//! mutual-exclusion region per store instance; the contracts here describe
//! what each critical section does.) Sessions and users are kept in
//! insertion order and keyed by the index at which they were inserted, which
//! is the identifier handed out at creation.

use vstd::prelude::*;
use vstd::std_specs::vec::vec_index_mut;
use crate::session::GameSession;
use crate::session::GameStatus;
use crate::session::SessionView;
use crate::session::StoreError;
use crate::session::spec_append;
use crate::session::spec_complete;
use crate::session::spec_join;
use crate::user::User;
use crate::user::UserView;
use crate::user::bcrypt_check;
use vstd::string::StringExecFns;

verus! {

/// Work factor handed to bcrypt when the store hashes a new password.
pub const HASH_COST: u32 = 4;

/// The in-process store: all user accounts and all game sessions.
pub struct DbConnection {
    pub users: Vec<User>,
    pub games: Vec<GameSession>,
}

/// Mathematical value of a [`DbConnection`].
#[verifier::ext_equal]
pub ghost struct DbView {
    pub users: Seq<UserView>,
    pub games: Seq<SessionView>,
}

impl View for DbConnection {
    type V = DbView;

    open spec fn view(&self) -> DbView {
        DbView { users: self.users.deep_view(), games: self.games.deep_view() }
    }
}

impl DbView {
    /// Store invariant: every session is well formed and sits at the index
    /// its identifier names; every user sits at the index its identifier
    /// names; usernames are unique.
    pub open spec fn wf(self) -> bool {
        &&& forall|i: int|
            0 <= i < self.games.len() ==> (#[trigger] self.games[i]).wf() && self.games[i].id
                == Some(i as u64)
        &&& forall|i: int|
            0 <= i < self.users.len() ==> (#[trigger] self.users[i]).id == Some(i as u64)
        &&& forall|i: int, j: int|
            0 <= i < j < self.users.len() ==> self.users[i].username != self.users[j].username
    }

    /// Whether some stored user already carries this username.
    pub open spec fn has_username(self, name: Seq<char>) -> bool {
        exists|i: int| 0 <= i < self.users.len() && (#[trigger] self.users[i]).username == name
    }
}

impl DbConnection {
    /// Store invariant, on the store's mathematical value.
    pub open spec fn wf(self) -> bool {
        self@.wf()
    }

    /// An empty in-process store.
    pub fn new_in_memory() -> (db: Self)
        ensures
            db@.users =~= Seq::<UserView>::empty(),
            db@.games =~= Seq::<SessionView>::empty(),
            db.wf(),
    {
        let db = Self { users: Vec::new(), games: Vec::new() };
        proof {
            assert(db@.users =~= Seq::<UserView>::empty());
            assert(db@.games =~= Seq::<SessionView>::empty());
        }
        db
    }

    /// Snapshot of all stored user accounts, in creation order.
    pub fn users_collection(&self) -> (r: &Vec<User>)
        ensures
            r.deep_view() == self@.users,
    {
        &self.users
    }

    /// Snapshot of all stored game sessions, in creation order.
    pub fn games_collection(&self) -> (r: &Vec<GameSession>)
        ensures
            r.deep_view() == self@.games,
    {
        &self.games
    }

    /// Insert a freshly created session and hand out its new identifier.
    ///
    /// The identifier is the number of sessions stored before the call; the
    /// session is stored with that identifier and nothing else changes. The
    /// in-process store itself never fails this operation.
    pub fn create_game(&mut self, game: GameSession) -> (r: Result<u64, StoreError>)
        requires
            old(self).wf(),
            game@ == SessionView::fresh(game@.white_player),
        ensures
            final(self).wf(),
            r == Ok::<u64, StoreError>(old(self)@.games.len() as u64),
            final(self)@.users == old(self)@.users,
            final(self)@.games =~= old(self)@.games.push(
                SessionView { id: Some(old(self)@.games.len() as u64), ..game@ },
            ),
    {
        let id = self.games.len() as u64;
        let mut game = game;
        game.id = Some(id);
        self.games.push(game);
        proof {
            assert(self@.users =~= old(self)@.users);
            assert(self@.games =~= old(self)@.games.push(
                SessionView { id: Some(old(self)@.games.len() as u64), ..game@ },
            ));
        }
        Ok(id)
    }

    /// Look a session up by identifier: a snapshot of the stored record, or
    /// `NotFound` exactly when no session has the identifier.
    pub fn find_game(&self, game_id: u64) -> (r: Result<GameSession, StoreError>)
        ensures
            game_id < self@.games.len() ==> (r matches Ok(g) && g@ == self@.games[game_id as int]),
            game_id >= self@.games.len() ==> r == Err::<GameSession, StoreError>(
                StoreError::NotFound,
            ),
    {
        if game_id < self.games.len() as u64 {
            Ok(self.games[game_id as usize].clone())
        } else {
            Err(StoreError::NotFound)
        }
    }

    /// Join a player into a waiting session, atomically.
    ///
    /// The whole check-and-set is one store mutation: exactly when the
    /// session exists, has no second player yet, and the joiner is not the
    /// white player, the joiner becomes the black player, the session moves
    /// to `InProgress`, and its new snapshot is returned. On any failure
    /// (`NotFound`, `AlreadyFull`, `SelfJoin`) nothing is mutated.
    pub fn join_game(&mut self, game_id: u64, player_id: String) -> (r: Result<
        GameSession,
        StoreError,
    >)
        requires
            old(self).wf(),
        ensures
            final(self).wf(),
            final(self)@.users == old(self)@.users,
            game_id >= old(self)@.games.len() ==> r == Err::<GameSession, StoreError>(
                StoreError::NotFound,
            ) && final(self)@ == old(self)@,
            game_id < old(self)@.games.len() ==> (match spec_join(
                old(self)@.games[game_id as int],
                player_id@,
            ) {
                Ok(joined) => (r matches Ok(g) && g@ == joined) && final(self)@.games =~= old(
                    self,
                )@.games.update(game_id as int, joined),
                Err(e) => r == Err::<GameSession, StoreError>(e) && final(self)@ == old(self)@,
            }),
    {
        if game_id >= self.games.len() as u64 {
            return Err(StoreError::NotFound);
        }
        let i = game_id as usize;
        let slot = vec_index_mut(&mut self.games, i);
        if slot.black_player.is_some() {
            proof {
                assert(self@.games =~= old(self)@.games);
                assert(self@.users =~= old(self)@.users);
            }
            return Err(StoreError::AlreadyFull);
        }
        if slot.white_player == player_id {
            proof {
                assert(self@.games =~= old(self)@.games);
                assert(self@.users =~= old(self)@.users);
            }
            return Err(StoreError::SelfJoin);
        }
        slot.black_player = Some(player_id);
        slot.status = GameStatus::InProgress;
        let snapshot = slot.clone();
        proof {
            assert(self@.games =~= old(self)@.games.update(game_id as int, snapshot@));
            assert(self@.users =~= old(self)@.users);
        }
        Ok(snapshot)
    }

    /// Append a move to a session's log.
    ///
    /// Succeeds exactly when the session exists and is `InProgress`; then the
    /// move goes to the end of the log and nothing else changes. Fails
    /// `NotFound` for an unknown identifier and `InvalidState` for a session
    /// that is `Waiting` or `Completed`, mutating nothing.
    pub fn append_move(&mut self, game_id: u64, mv: String) -> (r: Result<(), StoreError>)
        requires
            old(self).wf(),
        ensures
            final(self).wf(),
            final(self)@.users == old(self)@.users,
            game_id >= old(self)@.games.len() ==> r == Err::<(), StoreError>(StoreError::NotFound)
                && final(self)@ == old(self)@,
            game_id < old(self)@.games.len() ==> (match spec_append(
                old(self)@.games[game_id as int],
                mv@,
            ) {
                Ok(appended) => r == Ok::<(), StoreError>(()) && final(self)@.games =~= old(
                    self,
                )@.games.update(game_id as int, appended),
                Err(e) => r == Err::<(), StoreError>(e) && final(self)@ == old(self)@,
            }),
    {
        if game_id >= self.games.len() as u64 {
            return Err(StoreError::NotFound);
        }
        let i = game_id as usize;
        let slot = vec_index_mut(&mut self.games, i);
        match slot.status {
            GameStatus::InProgress => {
                slot.moves.push(mv);
                proof {
                    assert(self@.games =~~= old(self)@.games.update(
                        game_id as int,
                        spec_append(old(self)@.games[game_id as int], mv@)->Ok_0,
                    ));
                    assert(self@.users =~= old(self)@.users);
                }
                Ok(())
            },
            _ => {
                proof {
                    assert(self@.games =~= old(self)@.games);
                    assert(self@.users =~= old(self)@.users);
                }
                Err(StoreError::InvalidState)
            },
        }
    }

    /// Record a session's completion verdict.
    ///
    /// From `InProgress` the verdict is recorded and the session becomes
    /// `Completed`. Repeating the call with the same verdict succeeds and
    /// changes nothing; a different verdict fails `ConflictingVerdict` and
    /// the first verdict stands. Fails `NotFound` for an unknown identifier
    /// and `InvalidState` on a `Waiting` session, mutating nothing.
    pub fn complete_game(&mut self, game_id: u64, verdict: String) -> (r: Result<(), StoreError>)
        requires
            old(self).wf(),
        ensures
            final(self).wf(),
            final(self)@.users == old(self)@.users,
            game_id >= old(self)@.games.len() ==> r == Err::<(), StoreError>(StoreError::NotFound)
                && final(self)@ == old(self)@,
            game_id < old(self)@.games.len() ==> (match spec_complete(
                old(self)@.games[game_id as int],
                verdict@,
            ) {
                Ok(completed) => r == Ok::<(), StoreError>(()) && final(self)@.games =~= old(
                    self,
                )@.games.update(game_id as int, completed),
                Err(e) => r == Err::<(), StoreError>(e) && final(self)@ == old(self)@,
            }),
    {
        if game_id >= self.games.len() as u64 {
            return Err(StoreError::NotFound);
        }
        let i = game_id as usize;
        let slot = vec_index_mut(&mut self.games, i);
        match slot.status {
            GameStatus::Waiting => {
                proof {
                    assert(self@.games =~= old(self)@.games);
                    assert(self@.users =~= old(self)@.users);
                }
                Err(StoreError::InvalidState)
            },
            GameStatus::InProgress => {
                slot.status = GameStatus::Completed;
                slot.verdict = Some(verdict);
                proof {
                    assert(self@.games =~= old(self)@.games.update(
                        game_id as int,
                        spec_complete(old(self)@.games[game_id as int], verdict@)->Ok_0,
                    ));
                    assert(self@.users =~= old(self)@.users);
                }
                Ok(())
            },
            GameStatus::Completed => {
                let same = match &slot.verdict {
                    Some(v) => *v == verdict,
                    None => false,
                };
                if same {
                    proof {
                        assert(self@.games =~= old(self)@.games.update(
                            game_id as int,
                            old(self)@.games[game_id as int],
                        ));
                        assert(self@.users =~= old(self)@.users);
                    }
                    Ok(())
                } else {
                    proof {
                        assert(self@.games =~= old(self)@.games);
                        assert(self@.users =~= old(self)@.users);
                    }
                    Err(StoreError::ConflictingVerdict)
                }
            },
        }
    }
}

impl DbConnection {
    /// Whether some stored user already carries this username.
    pub fn has_user(&self, username: &String) -> (r: bool)
        ensures
            r == self@.has_username(username@),
    {
        let mut i: usize = 0;
        while i < self.users.len()
            invariant
                0 <= i <= self.users.len(),
                forall|j: int| 0 <= j < i ==> (#[trigger] self@.users[j]).username != username@,
            decreases self.users.len() - i,
        {
            if self.users[i].username == *username {
                proof {
                    assert(self@.users[i as int].username == username@);
                }
                return true;
            }
            i += 1;
        }
        false
    }

    /// Look a user up by username: a snapshot of the stored account, or
    /// `NotFound` exactly when no account carries the username.
    pub fn find_user(&self, username: &str) -> (r: Result<User, StoreError>)
        requires
            self.wf(),
        ensures
            match r {
                Ok(u) => self@.has_username(username@) && self@.users.contains(u@) && u@.username
                    == username@,
                Err(e) => e == StoreError::NotFound && !self@.has_username(username@),
            },
    {
        let target: String = username.to_owned();
        let mut i: usize = 0;
        while i < self.users.len()
            invariant
                0 <= i <= self.users.len(),
                target@ == username@,
                forall|j: int| 0 <= j < i ==> (#[trigger] self@.users[j]).username != username@,
            decreases self.users.len() - i,
        {
            if self.users[i].username == target {
                let u = self.users[i].clone();
                proof {
                    assert(self@.users[i as int].username == username@);
                    assert(self@.users.contains(u@));
                }
                return Ok(u);
            }
            i += 1;
        }
        Err(StoreError::NotFound)
    }

    /// Look a user up by the identifier the store assigned: a snapshot of
    /// the stored account, or `NotFound` exactly when no account has the
    /// identifier.
    pub fn find_user_by_id(&self, id: u64) -> (r: Result<User, StoreError>)
        ensures
            id < self@.users.len() ==> (r matches Ok(u) && u@ == self@.users[id as int]),
            id >= self@.users.len() ==> r == Err::<User, StoreError>(StoreError::NotFound),
    {
        if id < self.users.len() as u64 {
            Ok(self.users[id as usize].clone())
        } else {
            Err(StoreError::NotFound)
        }
    }

    /// Insert a new account whose password hash was already computed.
    ///
    /// The account gets the next identifier and is appended; username,
    /// email, rating and guest flag are stored as given, the password hash
    /// is the one handed in. With a free username this never fails.
    pub fn create_user_hashed(&mut self, user: User, hashed: String) -> (u: User)
        requires
            old(self).wf(),
            !old(self)@.has_username(user@.username),
        ensures
            final(self).wf(),
            final(self)@.games == old(self)@.games,
            final(self)@.users =~= old(self)@.users.push(u@),
            u@ == (UserView {
                id: Some(old(self)@.users.len() as u64),
                password_hash: hashed@,
                ..user@
            }),
    {
        let id = self.users.len() as u64;
        let mut user = user;
        user.id = Some(id);
        user.password_hash = hashed;
        let snapshot = user.clone();
        self.users.push(user);
        proof {
            assert(self@.users =~= old(self)@.users.push(snapshot@));
            assert(self@.games =~= old(self)@.games);
            assert forall|i: int, j: int|
                0 <= i < j < self@.users.len() implies self@.users[i].username
                != self@.users[j].username by {
                if j == self@.users.len() - 1 {
                    assert(self@.users[i] == old(self)@.users[i]);
                }
            }
        }
        snapshot
    }

    /// Create a new account.
    ///
    /// The `password_hash` field of the argument holds the raw password; the
    /// store hashes it with bcrypt before keeping it. Fails
    /// `DuplicateUsername` exactly when the username is already taken, and
    /// `HashingFailed` when bcrypt refuses (it never does for the store's
    /// cost, but nothing here relies on that); on any failure nothing is
    /// mutated. On success the new account is appended with the next
    /// identifier, and the stored hash matches the raw password.
    pub fn create_user(&mut self, user: User) -> (r: Result<User, StoreError>)
        requires
            old(self).wf(),
        ensures
            final(self).wf(),
            final(self)@.games == old(self)@.games,
            old(self)@.has_username(user@.username) ==> r == Err::<User, StoreError>(
                StoreError::DuplicateUsername,
            ) && final(self)@ == old(self)@,
            !old(self)@.has_username(user@.username) ==> match r {
                Ok(u) => {
                    &&& final(self)@.users =~= old(self)@.users.push(u@)
                    &&& u@.id == Some(old(self)@.users.len() as u64)
                    &&& u@.username == user@.username
                    &&& u@.email == user@.email
                    &&& u@.rating == user@.rating
                    &&& u@.is_guest == user@.is_guest
                    &&& bcrypt_check(user@.password_hash, u@.password_hash) == Some(true)
                },
                Err(e) => e == StoreError::HashingFailed && final(self)@ == old(self)@,
            },
    {
        if self.has_user(&user.username) {
            return Err(StoreError::DuplicateUsername);
        }
        match crate::user::hash_password(user.password_hash.as_str(), HASH_COST) {
            Some(hashed) => Ok(self.create_user_hashed(user, hashed)),
            None => Err(StoreError::HashingFailed),
        }
    }

    /// Create a fresh guest account with a random `guest_`-prefixed
    /// username, the starting rating, and the guest password.
    ///
    /// Fails like [`DbConnection::create_user`]: `DuplicateUsername` when
    /// the random name collides with a stored one, `HashingFailed` when
    /// bcrypt refuses; on failure nothing is mutated.
    pub fn create_guest_user(&mut self) -> (r: Result<User, StoreError>)
        requires
            old(self).wf(),
        ensures
            final(self).wf(),
            final(self)@.games == old(self)@.games,
            r matches Ok(u) ==> {
                &&& final(self)@.users =~= old(self)@.users.push(u@)
                &&& u@.id == Some(old(self)@.users.len() as u64)
                &&& u@.is_guest
                &&& u@.rating == 1000
                &&& bcrypt_check("guest"@, u@.password_hash) == Some(true)
            },
            r is Err ==> final(self)@ == old(self)@,
    {
        let mut guest = User::new_guest();
        guest.password_hash = "guest".to_owned();
        self.create_user(guest)
    }
}

/// An empty in-process store, for zero-dependency operation.
pub fn create_in_memory_db() -> (db: DbConnection)
    ensures
        db@.users =~= Seq::<UserView>::empty(),
        db@.games =~= Seq::<SessionView>::empty(),
        db.wf(),
{
    DbConnection::new_in_memory()
}

} // verus!
