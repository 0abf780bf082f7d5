//! Authentication requests and the decisions behind the auth handlers.
//!
//! Token minting and verification themselves are the identity provider's
//! business and happen outside the core; what is here is everything the
//! handlers decide: which stored user a login matches, what a registration
//! stores, which claims a token carries, and how the middleware reads a
//! request (public paths, the bearer header).

use vstd::prelude::*;
use vstd::string::StrSliceExecFns;
use crate::store::DbConnection;
use crate::session::StoreError;
use crate::user::Claims;
use crate::user::User;
use crate::user::bcrypt_check;

verus! {

/// How long a freshly minted token stays valid, in seconds.
pub const TOKEN_VALIDITY_SECS: u64 = 86400;

/// Body of a login request.
pub struct LoginRequest {
    pub username: String,
    pub password: String,
}

/// Body of a registration request.
pub struct RegisterRequest {
    pub username: String,
    pub password: String,
    pub email: String,
}

/// Body of a successful authentication response.
pub struct AuthResponse {
    pub token: String,
    pub user_id: u64,
    pub username: String,
    pub is_guest: bool,
}

/// Why an authentication attempt failed.
#[derive(Clone, Copy, Debug, PartialEq, Eq, Structural)]
pub enum AuthError {
    /// No account carries the username.
    UserNotFound,
    /// The account exists but the password does not match its hash.
    InvalidCredentials,
    /// The account has no store-assigned identifier to put in a token.
    MissingId,
}

/// Decide a login: the stored account whose username and password both
/// match, or why there is none.
///
/// Returns the account exactly when one is stored under the username and
/// the password matches its bcrypt hash; `UserNotFound` exactly when no
/// account carries the username; `InvalidCredentials` when the account
/// exists but the password does not match.
pub fn login_user(db: &DbConnection, req: &LoginRequest) -> (r: Result<User, AuthError>)
    requires
        db.wf(),
    ensures
        match r {
            Ok(u) => {
                &&& db@.users.contains(u@)
                &&& u@.username == req.username@
                &&& bcrypt_check(req.password@, u@.password_hash) == Some(true)
            },
            Err(e) => {
                &&& (e == AuthError::UserNotFound <==> !db@.has_username(req.username@))
                &&& e != AuthError::MissingId
                &&& (e == AuthError::InvalidCredentials ==> exists|i: int|
                    0 <= i < db@.users.len() && (#[trigger] db@.users[i]).username
                        == req.username@ && bcrypt_check(req.password@, db@.users[i].password_hash)
                        != Some(true))
            },
        },
        (exists|i: int|
            0 <= i < db@.users.len() && (#[trigger] db@.users[i]).username == req.username@
                && bcrypt_check(req.password@, db@.users[i].password_hash) == Some(true)) ==> r
            is Ok,
{
    match db.find_user(req.username.as_str()) {
        Err(_) => Err(AuthError::UserNotFound),
        Ok(u) => {
            if u.verify_password(req.password.as_str()) {
                Ok(u)
            } else {
                proof {
                    let j = choose|j: int| 0 <= j < db@.users.len() && db@.users[j] == u@;
                    assert(0 <= j < db@.users.len() && db@.users[j] == u@);
                    assert forall|i: int|
                        0 <= i < db@.users.len() && (#[trigger] db@.users[i]).username
                            == req.username@ implies bcrypt_check(
                        req.password@,
                        db@.users[i].password_hash,
                    ) != Some(true) by {
                        if i != j {
                            // usernames are unique, so no second account
                            // under this name exists
                            assert(db@.users[i].username != db@.users[j].username);
                        }
                    }
                }
                Err(AuthError::InvalidCredentials)
            }
        },
    }
}

/// Decide a registration: a fresh non-guest account with the requested
/// username, email, the requested password hashed, and the starting rating.
///
/// Fails exactly as the store's account creation does: `DuplicateUsername`
/// when the username is taken, `HashingFailed` when bcrypt refuses; on
/// failure nothing is stored.
pub fn register_user(db: &mut DbConnection, req: RegisterRequest) -> (r: Result<User, StoreError>)
    requires
        old(db).wf(),
    ensures
        final(db).wf(),
        final(db)@.games == old(db)@.games,
        old(db)@.has_username(req.username@) ==> r == Err::<User, StoreError>(
            StoreError::DuplicateUsername,
        ) && final(db)@ == old(db)@,
        !old(db)@.has_username(req.username@) ==> match r {
            Ok(u) => {
                &&& final(db)@.users =~= old(db)@.users.push(u@)
                &&& u@.id == Some(old(db)@.users.len() as u64)
                &&& u@.username == req.username@
                &&& u@.email == req.email@
                &&& u@.rating == 1000
                &&& !u@.is_guest
                &&& bcrypt_check(req.password@, u@.password_hash) == Some(true)
            },
            Err(e) => e == StoreError::HashingFailed && final(db)@ == old(db)@,
        },
{
    let new_user = User {
        id: None,
        username: req.username,
        password_hash: req.password,
        email: req.email,
        rating: 1000,
        is_guest: false,
    };
    db.create_user(new_user)
}

/// Build the response body for a successfully authenticated user carrying
/// the minted token. An account without an identifier is reported as
/// identifier zero, as the handlers do.
pub fn auth_response(user: &User, token: String) -> (r: AuthResponse)
    ensures
        r.token@ == token@,
        r.user_id == (match user@.id {
            Some(i) => i,
            None => 0u64,
        }),
        r.username@ == user@.username,
        r.is_guest == user@.is_guest,
{
    let user_id = match user.id {
        Some(i) => i,
        None => 0,
    };
    AuthResponse { token, user_id, username: user.username.clone(), is_guest: user.is_guest }
}

impl User {
    /// The claims a token for this account carries: the account identifier,
    /// username and guest flag, issued now and expiring one validity period
    /// later. An account the store has not assigned an identifier yet gets
    /// no claims (`MissingId`).
    pub fn make_claims(&self, now_secs: u64) -> (r: Result<Claims, AuthError>)
        requires
            now_secs <= u64::MAX - TOKEN_VALIDITY_SECS,
        ensures
            match self@.id {
                Some(id) => r matches Ok(c) && c.sub == id && c.username@ == self@.username
                    && c.is_guest == self@.is_guest && c.iat == now_secs && c.exp == now_secs
                    + TOKEN_VALIDITY_SECS,
                None => r == Err::<Claims, AuthError>(AuthError::MissingId),
            },
    {
        match self.id {
            None => Err(AuthError::MissingId),
            Some(id) => Ok(
                Claims {
                    sub: id,
                    username: self.username.clone(),
                    is_guest: self.is_guest,
                    exp: now_secs + TOKEN_VALIDITY_SECS,
                    iat: now_secs,
                },
            ),
        }
    }
}

/// Whether `pat` occurs in `s` starting at character position `at`.
fn str_matches_at(s: &str, pat: &str, at: usize) -> (r: bool)
    ensures
        r == (at + pat@.len() <= s@.len() && s@.subrange(at as int, at + pat@.len()) == pat@),
{
    let n = pat.unicode_len();
    let m = s.unicode_len();
    if at > m || n > m - at {
        return false;
    }
    let mut k: usize = 0;
    while k < n
        invariant
            0 <= k <= n,
            n == pat@.len(),
            m == s@.len(),
            at + n <= m,
            forall|l: int| 0 <= l < k ==> s@[at + l] == pat@[l],
        decreases n - k,
    {
        if s.get_char(at + k) != pat.get_char(k) {
            proof {
                assert(s@.subrange(at as int, at + pat@.len())[k as int] != pat@[k as int]);
            }
            return false;
        }
        k += 1;
    }
    proof {
        assert(s@.subrange(at as int, at + pat@.len()) =~= pat@);
    }
    true
}

/// Whether `pat` occurs anywhere in `s`.
pub open spec fn contains_sub(s: Seq<char>, pat: Seq<char>) -> bool {
    exists|i: int| 0 <= i && i + pat.len() <= s.len() && #[trigger] s.subrange(i, i + pat.len()) == pat
}

/// Substring search against [`contains_sub`].
pub fn str_contains(s: &str, pat: &str) -> (r: bool)
    ensures
        r == contains_sub(s@, pat@),
{
    let n = pat.unicode_len();
    let m = s.unicode_len();
    if n > m {
        return false;
    }
    let mut i: usize = 0;
    loop
        invariant
            n <= m,
            n == pat@.len(),
            m == s@.len(),
            0 <= i <= m - n,
            forall|j: int| 0 <= j < i ==> #[trigger] s@.subrange(j, j + pat@.len()) != pat@,
        decreases m - n - i,
    {
        if str_matches_at(s, pat, i) {
            proof {
                assert(contains_sub(s@, pat@));
            }
            return true;
        }
        if i == m - n {
            proof {
                assert forall|j: int|
                    0 <= j && j + pat@.len() <= s@.len() implies #[trigger] s@.subrange(
                    j,
                    j + pat@.len(),
                ) != pat@ by {
                    assert(j <= i);
                }
            }
            return false;
        }
        i += 1;
    }
}

/// Whether a request path is served without authentication: the login,
/// registration and guest-login endpoints.
pub fn is_public_path(path: &str) -> (r: bool)
    ensures
        r == (contains_sub(path@, "/auth/login"@) || contains_sub(path@, "/auth/register"@)
            || contains_sub(path@, "/auth/guest"@)),
{
    str_contains(path, "/auth/login") || str_contains(path, "/auth/register") || str_contains(
        path,
        "/auth/guest",
    )
}

/// The token of a bearer authorization header: what follows the bearer
/// prefix, or nothing when the header does not carry one.
pub fn bearer_token(header: &str) -> (r: Option<String>)
    ensures
        match r {
            Some(t) => header@.len() >= 7 && header@.subrange(0, 7) == "Bearer "@ && t@
                == header@.skip(7),
            None => !(header@.len() >= 7 && header@.subrange(0, 7) == "Bearer "@),
        },
{
    proof {
        reveal_strlit("Bearer ");
    }
    if str_matches_at(header, "Bearer ", 0) {
        let m = header.unicode_len();
        let tail = header.substring_char(7, m);
        let token: String = tail.to_owned();
        proof {
            assert(token@ =~= header@.skip(7));
        }
        Some(token)
    } else {
        None
    }
}

} // verus!
