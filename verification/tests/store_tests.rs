//! Tests for the identity store: reconciliation, registration, login
//! decisions and lookups.

use blog_auth::errors::RegisterError;
use blog_auth::model::{LoginUserSchema, RegisterUserSchema, UserInfo};
use blog_auth::store::{IdentityStore, LoginDecision};

fn google_profile(email: &str) -> UserInfo {
    UserInfo {
        name: "Ada".to_string(),
        email: email.to_string(),
        photo: Some("https://g/avatar.png".to_string()),
        provider: "Google".to_string(),
    }
}

#[test]
fn creates_a_record_on_first_login() {
    let mut store = IdentityStore::new();
    let id = store.find_or_create_at(&google_profile("a@x.com"), "U1".to_string(), 100);
    assert_eq!(id, "U1");
    assert_eq!(store.len(), 1);
    let u = store.get(0);
    assert_eq!(u.email, "a@x.com");
    assert_eq!(u.provider, "Google");
    assert_eq!(u.role, "user");
    assert_eq!(u.password, "");
    assert!(u.verified);
    assert_eq!(u.photo, "https://g/avatar.png");
    assert_eq!(u.created_at, 100);
    assert_eq!(u.updated_at, 100);
}

#[test]
fn repeated_login_is_idempotent() {
    let mut store = IdentityStore::new();
    let info = google_profile("a@x.com");
    let first = store.find_or_create_at(&info, "U1".to_string(), 100);
    let second = store.find_or_create_at(&info, "U2".to_string(), 200);
    assert_eq!(first, second);
    assert_eq!(store.len(), 1);
}

#[test]
fn lookup_is_case_folded() {
    let mut store = IdentityStore::new();
    let first = store.find_or_create_at(&google_profile("Ada.L@X.Com"), "U1".to_string(), 1);
    let second = store.find_or_create_at(&google_profile("ada.l@x.com"), "U2".to_string(), 2);
    assert_eq!(first, second);
    assert_eq!(store.len(), 1);
    assert_eq!(store.get(0).email, "ada.l@x.com");
}

#[test]
fn same_new_email_from_two_logins_creates_one_record() {
    let mut store = IdentityStore::new();
    let a = UserInfo {
        name: "First".to_string(),
        email: "new@x.com".to_string(),
        photo: None,
        provider: "Google".to_string(),
    };
    let b = UserInfo {
        name: "Second".to_string(),
        email: "new@x.com".to_string(),
        photo: None,
        provider: "Naver".to_string(),
    };
    let r1 = store.find_or_create_at(&a, "U1".to_string(), 10);
    let r2 = store.find_or_create_at(&b, "U2".to_string(), 11);
    assert_eq!(store.len(), 1);
    assert_eq!(r1, "U1");
    assert_eq!(r2, "U1");
}

#[test]
fn provider_switch_keeps_id_and_merges_profile() {
    let mut store = IdentityStore::new();
    let first = store.find_or_create_at(&google_profile("a@x.com"), "U1".to_string(), 100);
    assert_eq!(first, "U1");
    assert_eq!(store.get(0).provider, "Google");
    let github = UserInfo {
        name: "ada-gh".to_string(),
        email: "a@x.com".to_string(),
        photo: Some("https://gh/ada.png".to_string()),
        provider: "GitHub".to_string(),
    };
    let second = store.find_or_create_at(&github, "U2".to_string(), 250);
    assert_eq!(second, "U1");
    assert_eq!(store.len(), 1);
    let u = store.get(0);
    assert_eq!(u.provider, "GitHub");
    assert_eq!(u.name, "ada-gh");
    assert_eq!(u.photo, "https://gh/ada.png");
    assert_eq!(u.created_at, 100);
    assert_eq!(u.updated_at, 250);
}

#[test]
fn known_photo_is_kept_when_later_profile_has_none() {
    let mut store = IdentityStore::new();
    store.find_or_create_at(&google_profile("a@x.com"), "U1".to_string(), 1);
    let bare = UserInfo {
        name: "Ada".to_string(),
        email: "a@x.com".to_string(),
        photo: None,
        provider: "GitHub".to_string(),
    };
    store.find_or_create_at(&bare, "U2".to_string(), 2);
    assert_eq!(store.get(0).photo, "https://g/avatar.png");
    let empty = UserInfo {
        name: "Ada".to_string(),
        email: "a@x.com".to_string(),
        photo: Some(String::new()),
        provider: "Kakao".to_string(),
    };
    store.find_or_create_at(&empty, "U3".to_string(), 3);
    assert_eq!(store.get(0).photo, "https://g/avatar.png");
}

#[test]
fn missing_photo_falls_back_to_default_on_creation() {
    let mut store = IdentityStore::new();
    let info = UserInfo {
        name: "NoPic".to_string(),
        email: "p@x.com".to_string(),
        photo: None,
        provider: "GitHub".to_string(),
    };
    store.find_or_create_at(&info, "U1".to_string(), 1);
    assert_eq!(store.get(0).photo, "default.png");
}

#[test]
fn random_id_reconciliation_still_deduplicates() {
    let mut store = IdentityStore::new();
    let info = google_profile("r@x.com");
    let first = store.find_or_create(&info);
    let second = store.find_or_create(&info);
    assert_eq!(first, second);
    assert_eq!(store.len(), 1);
}

#[test]
fn register_creates_local_account() {
    let mut store = IdentityStore::new();
    let schema = RegisterUserSchema {
        name: "Bob".to_string(),
        email: "Bob@X.com".to_string(),
        password: "hunter2".to_string(),
    };
    let u = store.register_at(&schema, "L1".to_string(), 9).expect("first registration passes");
    assert_eq!(u.id, "L1");
    assert_eq!(u.email, "bob@x.com");
    assert_eq!(u.provider, "local");
    assert_eq!(u.password, "hunter2");
    assert_eq!(u.photo, "default.png");
    assert!(!u.verified);
    assert_eq!(store.len(), 1);
}

#[test]
fn register_refuses_taken_email_case_insensitively() {
    let mut store = IdentityStore::new();
    let schema = RegisterUserSchema {
        name: "Bob".to_string(),
        email: "bob@x.com".to_string(),
        password: "pw".to_string(),
    };
    store.register_at(&schema, "L1".to_string(), 1).unwrap();
    let again = RegisterUserSchema {
        name: "Robert".to_string(),
        email: "BOB@x.com".to_string(),
        password: "pw2".to_string(),
    };
    assert_eq!(store.register_at(&again, "L2".to_string(), 2).unwrap_err(), RegisterError::EmailExists);
    assert_eq!(store.len(), 1);
}

#[test]
fn login_decisions() {
    let mut store = IdentityStore::new();
    store.find_or_create_at(&google_profile("oauth@x.com"), "U1".to_string(), 1);
    let schema = RegisterUserSchema {
        name: "Bob".to_string(),
        email: "local@x.com".to_string(),
        password: "pw".to_string(),
    };
    store.register_at(&schema, "L1".to_string(), 2).unwrap();

    let nobody = LoginUserSchema { email: "missing@x.com".to_string(), password: "pw".to_string() };
    assert!(matches!(store.login_check(&nobody), LoginDecision::NoSuchUser));

    let oauth = LoginUserSchema { email: "OAuth@X.com".to_string(), password: "pw".to_string() };
    match store.login_check(&oauth) {
        LoginDecision::UseOAuth(p) => {
            assert_eq!(p, "Google");
            assert_eq!(blog_auth::store::oauth_login_refusal(&p), "Use Google OAuth2 instead");
            assert_eq!(
                blog_auth::store::oauth_login_refusal("Kakao"),
                "Use Kakao OAuth instead"
            );
        }
        other => panic!("expected an OAuth referral, got {other:?}"),
    }

    let local = LoginUserSchema { email: "local@x.com".to_string(), password: "pw".to_string() };
    match store.login_check(&local) {
        LoginDecision::IssueFor(id) => assert_eq!(id, "L1"),
        other => panic!("expected a token decision, got {other:?}"),
    }
}

#[test]
fn response_projection_drops_only_the_password() {
    let mut store = IdentityStore::new();
    store.find_or_create_at(&google_profile("a@x.com"), "U1".to_string(), 7);
    let filtered = blog_auth::model::user_to_response(store.get(0));
    assert_eq!(filtered.id, "U1");
    assert_eq!(filtered.name, "Ada");
    assert_eq!(filtered.email, "a@x.com");
    assert!(filtered.verified);
    assert_eq!(filtered.photo, "https://g/avatar.png");
    assert_eq!(filtered.provider, "Google");
    assert_eq!(filtered.role, "user");
    assert_eq!(filtered.created_at, 7);
    assert_eq!(filtered.updated_at, 7);
}

#[test]
fn find_by_id_resolves_only_live_ids() {
    let mut store = IdentityStore::new();
    store.find_or_create_at(&google_profile("a@x.com"), "U1".to_string(), 1);
    assert!(store.find_by_id("U1").is_some());
    assert_eq!(store.find_by_id("U1").unwrap().email, "a@x.com");
    assert!(store.find_by_id("U2").is_none());
}
