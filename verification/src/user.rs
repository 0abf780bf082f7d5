//! Player accounts and credential checks.
//!
//! The store keys users by a numeric identifier it assigns at creation and
//! keeps usernames unique. Password hashing and checking go through bcrypt
//! behind trusted wrappers; everything around those calls is verified.

use vstd::prelude::*;
use vstd::string::StrSliceExecFns;
use vstd::string::StringExecFns;

verus! {

/// A player account. `password_hash` holds a bcrypt hash once the store has
/// created the account; `id` is `None` until the store assigns one.
#[derive(Debug)]
pub struct User {
    pub id: Option<u64>,
    pub username: String,
    pub password_hash: String,
    pub email: String,
    pub rating: i32,
    pub is_guest: bool,
}

/// Mathematical value of a [`User`].
#[verifier::ext_equal]
pub ghost struct UserView {
    pub id: Option<u64>,
    pub username: Seq<char>,
    pub password_hash: Seq<char>,
    pub email: Seq<char>,
    pub rating: i32,
    pub is_guest: bool,
}

impl View for User {
    type V = UserView;

    open spec fn view(&self) -> UserView {
        UserView {
            id: self.id,
            username: self.username@,
            password_hash: self.password_hash@,
            email: self.email@,
            rating: self.rating,
            is_guest: self.is_guest,
        }
    }
}

impl DeepView for User {
    type V = UserView;

    open spec fn deep_view(&self) -> UserView {
        self.view()
    }
}

impl Clone for User {
    /// A clone has the same mathematical value.
    fn clone(&self) -> (r: Self)
        ensures
            r@ == self@,
    {
        let r = User {
            id: self.id,
            username: self.username.clone(),
            password_hash: self.password_hash.clone(),
            email: self.email.clone(),
            rating: self.rating,
            is_guest: self.is_guest,
        };
        proof {
            assert(r@ =~= self@);
        }
        r
    }
}

/// The claims carried by an authentication token: the account identifier,
/// username and guest flag, and the issue and expiry times in seconds.
#[derive(Debug)]
pub struct Claims {
    pub sub: u64,
    pub username: String,
    pub is_guest: bool,
    pub exp: u64,
    pub iat: u64,
}

/// What `bcrypt::verify` answers for a password against a hash string:
/// `Some(true)` when the password matches, `Some(false)` when not, `None`
/// when the hash string is not a well-formed bcrypt hash. The answer is a
/// function of the two strings alone.
pub uninterp spec fn bcrypt_check(password: Seq<char>, hashed: Seq<char>) -> Option<bool>;

/// Relies on `bcrypt::verify`: it recomputes the hash from the password and
/// the cost and salt embedded in the hash string and compares, so its answer
/// depends on the two strings alone. Its error (a malformed hash string)
/// becomes `None`.
#[verifier::external_body]
fn check_password_hash(password: &str, hashed: &str) -> (r: Option<bool>)
    ensures
        r == bcrypt_check(password@, hashed@),
{
    bcrypt::verify(password, hashed).ok()
}

/// Relies on `bcrypt::hash`: the salt is drawn from OS randomness, so no two
/// calls are related; but a produced hash embeds its cost and salt, and
/// `bcrypt::verify` recomputes with exactly those and compares, so a hash
/// produced here is accepted for the same password. The error (a cost
/// outside bcrypt's allowed range) becomes `None`.
#[verifier::external_body]
pub(crate) fn hash_password(password: &str, cost: u32) -> (r: Option<String>)
    ensures
        r matches Some(h) ==> bcrypt_check(password@, h@) == Some(true),
{
    bcrypt::hash(password, cost).ok()
}

/// Relies on `uuid::Uuid::new_v4` and its `Display` impl: a random
/// identifier rendered in the hyphenated form, 36 characters long.
#[verifier::external_body]
fn fresh_uuid() -> (r: String)
    ensures
        r@.len() == 36,
{
    uuid::Uuid::new_v4().to_string()
}

impl User {
    /// Whether the given password matches this user's stored bcrypt hash.
    pub fn verify_password(&self, password: &str) -> (r: bool)
        ensures
            r == (bcrypt_check(password@, self@.password_hash) == Some(true)),
    {
        match check_password_hash(password, self.password_hash.as_str()) {
            Some(b) => b,
            None => false,
        }
    }

    /// A fresh guest account: no identifier yet, guest flag set, the starting
    /// rating, a random `guest_`-prefixed username of 14 characters, and an
    /// empty password hash (the store fills it at creation).
    pub fn new_guest() -> (u: User)
        ensures
            u@.id is None,
            u@.is_guest,
            u@.rating == 1000,
            u@.password_hash =~= Seq::<char>::empty(),
            u@.username.len() == 14,
            u@.username.subrange(0, 6) =~= "guest_"@,
    {
        let uuid = fresh_uuid();
        let prefix = uuid.as_str().substring_char(0, 8);
        let mut guest_name: String = "guest_".to_owned();
        proof {
            reveal_strlit("guest_");
        }
        guest_name.append(prefix);
        let mut email: String = uuid;
        email.append("@guest.rustic-knights.com");
        let u = User {
            id: None,
            username: guest_name,
            password_hash: String::new(),
            email,
            rating: 1000,
            is_guest: true,
        };
        proof {
            assert(u@.username.subrange(0, 6) =~= "guest_"@);
        }
        u
    }
}

} // verus!
