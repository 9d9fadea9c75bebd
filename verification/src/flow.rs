//! The orchestration of one OAuth login callback, a linear state machine:
//! `Received → TokenExchanged → ProfileFetched → IdentityResolved →
//! TokenIssued → Redirected`.
//!
//! The stages that decide are here, each with its contract:
//! [`begin_callback`] guards `Received → TokenExchanged` (validation before
//! any external call), [`crate::oauth::exchange_request`] and
//! [`crate::oauth::complete_exchange`] carry the exchange,
//! [`crate::oauth::profile_request`] and [`crate::oauth::complete_profile`]
//! carry the profile fetch, [`crate::store::IdentityStore::find_or_create_at`]
//! resolves the identity under the store's lock, and [`complete_login`] runs
//! the rest — token issuance and the redirect — lock-free, since nothing in
//! it touches the store or performs I/O. The caller performs the two HTTP
//! calls in between and hands back their outcomes; a failure at any stage
//! carries that stage's error class, and because reconciliation is
//! idempotent nothing needs rolling back after it.

use vstd::prelude::*;

use crate::errors::{InternalError, ValidationError};
use crate::model::QueryCode;
use crate::oauth::OAuthProvider;
use crate::token::{issue_session_token, spec_issue};
use vstd::utf8::encode_utf8;

verus! {

/// The session cookie a successful login answers with, and the expired one
/// logout answers with.
#[derive(Clone, Debug)]
pub struct SessionCookie {
    pub name: String,
    pub value: String,
    pub path: String,
    pub max_age_seconds: i64,
    pub http_only: bool,
}

/// The cookie carrying a fresh session token, valid as long as the token.
pub fn session_cookie(token: String, max_age_minutes: u32) -> (r: SessionCookie)
    ensures
        r.name@ == "token"@,
        r.value@ == token@,
        r.path@ == "/"@,
        r.max_age_seconds == 60 * (max_age_minutes as i64),
        r.http_only,
{
    SessionCookie {
        name: "token".to_owned(),
        value: token,
        path: "/".to_owned(),
        max_age_seconds: 60 * (max_age_minutes as i64),
        http_only: true,
    }
}

/// The cookie that logs a client out: empty and already expired.
pub fn removal_cookie() -> (r: SessionCookie)
    ensures
        r.name@ == "token"@,
        r.value@ == ""@,
        r.path@ == "/"@,
        r.max_age_seconds == -1,
        r.http_only,
{
    SessionCookie {
        name: "token".to_owned(),
        value: "".to_owned(),
        path: "/".to_owned(),
        max_age_seconds: -1,
        http_only: true,
    }
}

/// `Received → TokenExchanged`, the validation gate: resolves the provider
/// tag and refuses an unknown provider or an empty authorization code
/// before any external call is made.
pub fn begin_callback(provider_tag: &str, q: &QueryCode) -> (r: Result<
    OAuthProvider,
    ValidationError,
>)
    ensures
        match r {
            Ok(p) => q.code@.len() > 0 && (match p {
                OAuthProvider::Google => provider_tag@ == "google"@,
                OAuthProvider::GitHub => provider_tag@ == "github"@,
                OAuthProvider::Kakao => provider_tag@ == "kakao"@,
                OAuthProvider::Naver => provider_tag@ == "naver"@,
            }),
            Err(ValidationError::UnknownProvider) => provider_tag@ != "google"@ && provider_tag@
                != "github"@ && provider_tag@ != "kakao"@ && provider_tag@ != "naver"@,
            Err(ValidationError::EmptyCode) => q.code@.len() == 0,
        },
{
    let provider = match crate::oauth::parse_provider(provider_tag) {
        Some(p) => p,
        None => {
            return Err(ValidationError::UnknownProvider);
        },
    };
    if q.code.as_str().is_empty() {
        return Err(ValidationError::EmptyCode);
    }
    Ok(provider)
}

/// The configured session length as whole minutes, refused as an internal
/// failure when it cannot satisfy the token arithmetic at time `now`: a
/// negative or oversized configuration, or an expiry that would not fit the
/// clock. Such a failure aborts the one request, nothing more.
pub fn session_minutes(configured: i64, now: u64) -> (r: Result<u32, InternalError>)
    ensures
        match r {
            Ok(m) => {
                &&& 0 <= configured <= u32::MAX
                &&& m == configured
                &&& now + 60 * (m as u64) <= u64::MAX
            },
            Err(_) => configured < 0 || configured > u32::MAX || (0 <= configured && now + 60 * (
            configured as u64) > u64::MAX),
        },
{
    if configured < 0 || configured > (u32::MAX as i64) {
        return Err(InternalError);
    }
    let m = configured as u32;
    let seconds: u64 = 60 * (m as u64);
    if u64::MAX - now < seconds {
        return Err(InternalError);
    }
    Ok(m)
}

/// Everything a finished login callback answers with.
#[derive(Clone, Debug)]
pub struct LoginRedirect {
    pub user_id: String,
    pub token: String,
    pub location: String,
    pub cookie: SessionCookie,
}

/// `IdentityResolved → TokenIssued → Redirected`: issues the session token
/// for the reconciled id and builds the redirect to the client origin with
/// the opaque callback state as the path, the token carried in the session
/// cookie. The caller runs the reconciliation itself
/// ([`IdentityStore::find_or_create_at`]) under the store's lock and calls
/// this afterwards: neither signing nor anything else here touches the
/// store, so no lock is held across it. No stage in here can fail.
pub fn complete_login(
    user_id: String,
    secret: &[u8],
    client_origin: &str,
    state: &str,
    max_age_minutes: u32,
    now: u64,
) -> (r: LoginRedirect)
    requires
        now + 60 * (max_age_minutes as u64) <= u64::MAX,
    ensures
        r.user_id@ == user_id@,
        encode_utf8(r.token@) == spec_issue(
            secret@,
            encode_utf8(user_id@),
            (now + 60 * (max_age_minutes as u64)) as u64,
            now,
        ),
        r.location@ == client_origin@ + state@,
        r.cookie.name@ == "token"@,
        r.cookie.value@ == r.token@,
        r.cookie.path@ == "/"@,
        r.cookie.max_age_seconds == 60 * (max_age_minutes as i64),
        r.cookie.http_only,
{
    let token = issue_session_token(secret, user_id.as_str(), now, max_age_minutes as u64);
    let location = client_origin.to_owned().concat(state);
    let cookie = session_cookie(token.clone(), max_age_minutes);
    LoginRedirect { user_id, token, location, cookie }
}

} // verus!
