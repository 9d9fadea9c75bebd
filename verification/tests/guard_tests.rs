//! Tests for the authentication guard and the callback orchestration.

use blog_auth::errors::{AuthError, ValidationError};
use blog_auth::flow::{begin_callback, complete_login, removal_cookie, session_minutes};
use blog_auth::guard::{authenticate, extract_token};
use blog_auth::model::{QueryCode, UserInfo};
use blog_auth::oauth::OAuthProvider;
use blog_auth::store::IdentityStore;
use blog_auth::token::{issue_token, validate_token};

const SECRET: &[u8] = b"guard-secret";

fn store_with_user(id: &str) -> IdentityStore {
    let mut store = IdentityStore::new();
    let info = UserInfo {
        name: "Ada".to_string(),
        email: "a@x.com".to_string(),
        photo: None,
        provider: "Google".to_string(),
    };
    let got = store.find_or_create_at(&info, id.to_string(), 100);
    assert_eq!(got, id);
    store
}

#[test]
fn no_cookie_and_no_header_is_missing_token() {
    let store = IdentityStore::new();
    let r = authenticate(&store, SECRET, None, None, 0);
    assert_eq!(r.unwrap_err(), AuthError::MissingToken);
}

#[test]
fn cookie_token_authenticates() {
    let store = store_with_user("U1");
    let token = issue_token(SECRET, "U1", 1000, 500);
    let guard = authenticate(&store, SECRET, Some(&token), None, 600).unwrap();
    assert_eq!(guard.user_id, "U1");
}

#[test]
fn bearer_header_authenticates_when_no_cookie() {
    let store = store_with_user("U1");
    let token = issue_token(SECRET, "U1", 1000, 500);
    let header = format!("Bearer {token}");
    let guard = authenticate(&store, SECRET, None, Some(&header), 600).unwrap();
    assert_eq!(guard.user_id, "U1");
}

#[test]
fn cookie_takes_precedence_over_header() {
    let store = store_with_user("U1");
    let token = issue_token(SECRET, "U1", 1000, 500);
    let r = authenticate(&store, SECRET, Some("garbage"), Some(&format!("Bearer {token}")), 600);
    assert_eq!(r.unwrap_err(), AuthError::InvalidToken);
}

#[test]
fn header_without_bearer_prefix_is_used_verbatim() {
    let store = store_with_user("U1");
    let token = issue_token(SECRET, "U1", 1000, 500);
    let guard = authenticate(&store, SECRET, None, Some(&token), 600).unwrap();
    assert_eq!(guard.user_id, "U1");
}

#[test]
fn repeated_bearer_prefixes_are_all_stripped() {
    let token = issue_token(SECRET, "U1", 1000, 500);
    let header = format!("Bearer Bearer {token}");
    let extracted = extract_token(None, Some(&header)).unwrap();
    assert_eq!(extracted, token.as_bytes().to_vec());
}

#[test]
fn expired_and_malformed_keep_their_kinds() {
    let store = store_with_user("U1");
    let token = issue_token(SECRET, "U1", 1000, 500);
    let r = authenticate(&store, SECRET, Some(&token), None, 2000);
    assert_eq!(r.unwrap_err(), AuthError::ExpiredToken);
    let r = authenticate(&store, SECRET, Some("not.a.token"), None, 600);
    assert_eq!(r.unwrap_err(), AuthError::InvalidToken);
}

#[test]
fn valid_token_for_absent_user_is_stale_identity() {
    let store = store_with_user("U1");
    let token = issue_token(SECRET, "GONE", 1000, 500);
    let r = authenticate(&store, SECRET, Some(&token), None, 600);
    assert_eq!(r.unwrap_err(), AuthError::StaleIdentity);
}

#[test]
fn callback_validation_order_and_kinds() {
    let q = QueryCode { code: "abc".to_string(), state: "/home".to_string() };
    assert_eq!(begin_callback("google", &q), Ok(OAuthProvider::Google));
    assert_eq!(begin_callback("naver", &q), Ok(OAuthProvider::Naver));
    assert_eq!(begin_callback("myspace", &q), Err(ValidationError::UnknownProvider));
    let empty = QueryCode { code: String::new(), state: "/".to_string() };
    assert_eq!(begin_callback("github", &empty), Err(ValidationError::EmptyCode));
    // An unknown provider is refused before the code is even looked at.
    assert_eq!(begin_callback("myspace", &empty), Err(ValidationError::UnknownProvider));
}

#[test]
fn complete_login_builds_redirect_cookie_and_token() {
    let mut store = IdentityStore::new();
    let info = UserInfo {
        name: "Ada".to_string(),
        email: "a@x.com".to_string(),
        photo: Some("pic.png".to_string()),
        provider: "Kakao".to_string(),
    };
    let user_id = store.find_or_create_at(&info, "U9".to_string(), 1_000);
    let out = complete_login(user_id, SECRET, "https://client.example", "/welcome", 60, 1_000);
    assert_eq!(out.user_id, "U9");
    assert_eq!(out.location, "https://client.example/welcome");
    assert_eq!(out.cookie.name, "token");
    assert_eq!(out.cookie.value, out.token);
    assert_eq!(out.cookie.path, "/");
    assert_eq!(out.cookie.max_age_seconds, 3600);
    assert!(out.cookie.http_only);
    assert_eq!(store.len(), 1);
    let claims = validate_token(SECRET, out.token.as_bytes(), 1_500).unwrap();
    assert_eq!(claims.sub, "U9");
    assert_eq!(claims.iat, 1_000);
    assert_eq!(claims.exp, 1_000 + 3600);
}

#[test]
fn session_length_bounds_are_refused_as_internal() {
    assert_eq!(session_minutes(60, 1_000), Ok(60));
    assert!(session_minutes(-1, 1_000).is_err());
    assert!(session_minutes(i64::MAX, 1_000).is_err());
    assert!(session_minutes(60, u64::MAX - 10).is_err());
}

#[test]
fn removal_cookie_expires_immediately() {
    let c = removal_cookie();
    assert_eq!(c.name, "token");
    assert_eq!(c.value, "");
    assert_eq!(c.path, "/");
    assert_eq!(c.max_age_seconds, -1);
    assert!(c.http_only);
}
