use rustic_knights::auth::{
    auth_response, bearer_token, is_public_path, login_user, register_user, str_contains,
    AuthError, LoginRequest, RegisterRequest,
};
use rustic_knights::session::StoreError;
use rustic_knights::store::create_in_memory_db;
use rustic_knights::user::User;

fn login_request(username: &str, password: &str) -> LoginRequest {
    LoginRequest { username: username.to_string(), password: password.to_string() }
}

fn register_request(username: &str, password: &str) -> RegisterRequest {
    RegisterRequest {
        username: username.to_string(),
        password: password.to_string(),
        email: format!("{}@example.com", username),
    }
}

#[test]
fn registered_user_can_log_in() {
    let mut db = create_in_memory_db();
    let user = register_user(&mut db, register_request("dana", "secret")).unwrap();
    assert_eq!(user.id, Some(0));
    assert_eq!(user.username, "dana");
    assert_eq!(user.rating, 1000);
    assert!(!user.is_guest);
    // the stored hash is a real bcrypt hash of the password, not the
    // password handed back unchanged
    assert_ne!(user.password_hash, "secret");
    let found = login_user(&db, &login_request("dana", "secret")).unwrap();
    assert_eq!(found.username, "dana");
}

#[test]
fn wrong_password_is_invalid_credentials() {
    let mut db = create_in_memory_db();
    register_user(&mut db, register_request("dana", "secret")).unwrap();
    let err = login_user(&db, &login_request("dana", "wrong")).unwrap_err();
    assert_eq!(err, AuthError::InvalidCredentials);
}

#[test]
fn unknown_user_is_not_found_on_login() {
    let db = create_in_memory_db();
    let err = login_user(&db, &login_request("nobody", "secret")).unwrap_err();
    assert_eq!(err, AuthError::UserNotFound);
}

#[test]
fn duplicate_username_is_rejected() {
    let mut db = create_in_memory_db();
    register_user(&mut db, register_request("dana", "one")).unwrap();
    let err = register_user(&mut db, register_request("dana", "two")).unwrap_err();
    assert_eq!(err, StoreError::DuplicateUsername);
    assert_eq!(db.users_collection().len(), 1);
}

#[test]
fn verify_password_checks_the_stored_hash() {
    let mut db = create_in_memory_db();
    let user = register_user(&mut db, register_request("dana", "secret")).unwrap();
    assert!(user.verify_password("secret"));
    assert!(!user.verify_password("Secret"));
    assert!(!user.verify_password(""));
}

#[test]
fn guest_account_has_guest_shape() {
    let mut db = create_in_memory_db();
    let guest = db.create_guest_user().unwrap();
    assert!(guest.is_guest);
    assert_eq!(guest.rating, 1000);
    assert_eq!(guest.id, Some(0));
    assert_eq!(guest.username.chars().count(), 14);
    assert!(guest.username.starts_with("guest_"));
    assert!(guest.verify_password("guest"));
    assert!(!guest.verify_password("admin"));
}

#[test]
fn guest_usernames_differ_between_calls() {
    let mut db = create_in_memory_db();
    let g1 = db.create_guest_user().unwrap();
    let g2 = db.create_guest_user().unwrap();
    assert_ne!(g1.username, g2.username);
}

#[test]
fn find_user_by_id_returns_the_assigned_account() {
    let mut db = create_in_memory_db();
    register_user(&mut db, register_request("dana", "pw")).unwrap();
    register_user(&mut db, register_request("erin", "pw")).unwrap();
    assert_eq!(db.find_user_by_id(1).unwrap().username, "erin");
    assert_eq!(db.find_user_by_id(9).unwrap_err(), StoreError::NotFound);
}

#[test]
fn new_guest_template_is_unregistered() {
    let u = User::new_guest();
    assert!(u.id.is_none());
    assert!(u.is_guest);
    assert_eq!(u.rating, 1000);
    assert!(u.password_hash.is_empty());
    assert!(u.username.starts_with("guest_"));
    assert_eq!(u.username.chars().count(), 14);
}

#[test]
fn claims_carry_identity_and_validity_window() {
    let mut db = create_in_memory_db();
    let user = register_user(&mut db, register_request("dana", "pw")).unwrap();
    let claims = user.make_claims(1_000_000).unwrap();
    assert_eq!(claims.sub, 0);
    assert_eq!(claims.username, "dana");
    assert!(!claims.is_guest);
    assert_eq!(claims.iat, 1_000_000);
    assert_eq!(claims.exp, 1_000_000 + 86_400);
}

#[test]
fn claims_need_a_store_assigned_id() {
    let u = User::new_guest();
    assert_eq!(u.make_claims(0).unwrap_err(), AuthError::MissingId);
}

#[test]
fn auth_response_carries_user_and_token() {
    let mut db = create_in_memory_db();
    let user = register_user(&mut db, register_request("dana", "pw")).unwrap();
    let resp = auth_response(&user, "tok123".to_string());
    assert_eq!(resp.token, "tok123");
    assert_eq!(resp.user_id, 0);
    assert_eq!(resp.username, "dana");
    assert!(!resp.is_guest);
}

#[test]
fn auth_response_for_unassigned_account_reports_zero() {
    let resp = auth_response(&User::new_guest(), "t".to_string());
    assert_eq!(resp.user_id, 0);
}

#[test]
fn bearer_header_yields_its_token() {
    assert_eq!(bearer_token("Bearer abc.def").as_deref(), Some("abc.def"));
    assert_eq!(bearer_token("Bearer ").as_deref(), Some(""));
    assert!(bearer_token("Basic abc").is_none());
    assert!(bearer_token("Bearer").is_none());
    assert!(bearer_token("").is_none());
}

#[test]
fn public_paths_skip_authentication() {
    assert!(is_public_path("/api/auth/login"));
    assert!(is_public_path("/auth/register"));
    assert!(is_public_path("/v1/auth/guest?x=1"));
    assert!(!is_public_path("/game/create"));
    assert!(!is_public_path("/auth/log"));
}

#[test]
fn substring_search_matches_std() {
    assert!(str_contains("hello world", "lo wo"));
    assert!(str_contains("aaa", "aaa"));
    assert!(str_contains("aaa", ""));
    assert!(!str_contains("aaa", "aaaa"));
    assert!(!str_contains("hello", "world"));
}
