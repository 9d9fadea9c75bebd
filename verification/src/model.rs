//! The data model: stored users, the provider-agnostic normalized profile,
//! session-token claims, inbound request schemas, and process configuration.
//!
//! Timestamps are carried as seconds since the Unix epoch.

use vstd::prelude::*;

verus! {

/// A stored identity, owned exclusively by the identity store.
///
/// `email` is the business key; the store keeps it case-folded and unique.
/// `id` is assigned once at creation and never changes. `password` is
/// non-empty only for local accounts.
#[derive(Clone, Debug)]
pub struct User {
    pub id: String,
    pub name: String,
    pub email: String,
    pub verified: bool,
    pub provider: String,
    pub role: String,
    pub password: String,
    pub photo: String,
    pub created_at: u64,
    pub updated_at: u64,
}

/// The transient provider-agnostic profile a provider adapter produces;
/// consumed once by the identity store, then discarded.
#[derive(Clone, Debug)]
pub struct UserInfo {
    pub name: String,
    pub email: String,
    pub photo: Option<String>,
    pub provider: String,
}

/// The claims of a session token: subject (a user id), issued-at and expiry,
/// both in epoch seconds. Immutable once issued.
#[derive(Clone, Debug)]
pub struct TokenClaims {
    pub sub: String,
    pub exp: u64,
    pub iat: u64,
}

/// Inbound OAuth callback parameters: the single-use authorization code and
/// the opaque continuation state echoed into the redirect path.
#[derive(Clone, Debug)]
pub struct QueryCode {
    pub code: String,
    pub state: String,
}

/// Body of a local registration request.
#[derive(Clone, Debug)]
pub struct RegisterUserSchema {
    pub name: String,
    pub email: String,
    pub password: String,
}

/// Body of a local login request.
#[derive(Clone, Debug)]
pub struct LoginUserSchema {
    pub email: String,
    pub password: String,
}

/// Process-wide configuration, loaded once at startup and never changed.
#[derive(Clone, Debug)]
pub struct Config {
    pub client_origin: String,
    pub jwt_secret: String,
    pub jwt_expires_in: String,
    pub jwt_max_age: i64,
    pub google_oauth_client_id: String,
    pub google_oauth_client_secret: String,
    pub google_oauth_redirect_url: String,
    pub github_oauth_client_id: String,
    pub github_oauth_client_secret: String,
    pub github_oauth_redirect_url: String,
    pub naver_oauth_client_id: String,
    pub naver_oauth_client_secret: String,
    pub naver_oauth_redirect_url: String,
    pub kakao_oauth_client_id: String,
    pub kakao_oauth_redirect_url: String,
}

/// The public projection of a stored user: everything but the password.
#[derive(Clone, Debug)]
pub struct FilteredUser {
    pub id: String,
    pub name: String,
    pub email: String,
    pub verified: bool,
    pub photo: String,
    pub provider: String,
    pub role: String,
    pub created_at: u64,
    pub updated_at: u64,
}

/// Projects a stored user onto its public response shape, dropping the
/// password and keeping every other field unchanged.
pub fn user_to_response(user: &User) -> (r: FilteredUser)
    ensures
        r.id@ == user.id@,
        r.name@ == user.name@,
        r.email@ == user.email@,
        r.verified == user.verified,
        r.photo@ == user.photo@,
        r.provider@ == user.provider@,
        r.role@ == user.role@,
        r.created_at == user.created_at,
        r.updated_at == user.updated_at,
{
    FilteredUser {
        id: user.id.clone(),
        name: user.name.clone(),
        email: user.email.clone(),
        verified: user.verified,
        photo: user.photo.clone(),
        provider: user.provider.clone(),
        role: user.role.clone(),
        created_at: user.created_at,
        updated_at: user.updated_at,
    }
}

} // verus!
