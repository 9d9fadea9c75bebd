//! The provider adapters' decision half: the provider tag, the exact shape
//! of each provider's token-exchange and profile requests, the raw profile
//! schemas the providers answer with, their normalization into one internal
//! identity, and the classification of call outcomes into typed errors.
//!
//! The transport itself (HTTP, TLS) lives outside the crate; it performs
//! the requests described here and hands back an outcome value.

use std::collections::HashMap;

use vstd::prelude::*;

use crate::errors::UpstreamError;
use crate::model::{Config, UserInfo};

verus! {

/// The four external identity providers.
#[derive(Clone, Copy, PartialEq, Eq, Structural, Debug)]
pub enum OAuthProvider {
    Google,
    GitHub,
    Kakao,
    Naver,
}

/// Google's token-exchange answer: an access token and the id token its
/// profile endpoint demands.
#[derive(Clone, Debug)]
pub struct GoogleOAuthToken {
    pub access_token: String,
    pub id_token: String,
}

/// The token-exchange answer of the other providers: an access token.
#[derive(Clone, Debug)]
pub struct BasicOauthToken {
    pub access_token: String,
}

/// A successful token exchange, tagged by provider.
#[derive(Clone, Debug)]
pub enum OAuthTokenResponse {
    Google(GoogleOAuthToken),
    GitHub(BasicOauthToken),
    Kakao(BasicOauthToken),
    Naver(BasicOauthToken),
}

/// Google's profile schema.
#[derive(Clone, Debug)]
pub struct GoogleUserResult {
    pub id: String,
    pub email: String,
    pub verified_email: bool,
    pub name: String,
    pub given_name: String,
    pub family_name: Option<String>,
    pub picture: String,
    pub locale: String,
}

/// GitHub's profile schema; the email may be absent.
#[derive(Clone, Debug)]
pub struct GitHubUserResult {
    pub login: String,
    pub avatar_url: Option<String>,
    pub email: Option<String>,
}

/// Kakao's profile schema: consent-gated, deeply optional.
#[derive(Clone, Debug)]
pub struct KakaoUserResult {
    pub id: u64,
    pub has_signed_up: Option<bool>,
    pub connected_at: Option<String>,
    pub synched_at: Option<String>,
    pub properties: Option<HashMap<String, String>>,
    pub kakao_account: Option<KakaoAccount>,
    pub for_partner: Option<Partner>,
}

/// Kakao's account object.
#[derive(Clone, Debug)]
pub struct KakaoAccount {
    pub profile_needs_agreement: Option<bool>,
    pub profile_nickname_needs_agreement: Option<bool>,
    pub profile_image_needs_agreement: Option<bool>,
    pub profile: Option<Profile>,
    pub name_needs_agreement: Option<bool>,
    pub name: Option<String>,
    pub email_needs_agreement: Option<bool>,
    pub is_email_valid: Option<bool>,
    pub is_email_verified: Option<bool>,
    pub email: Option<String>,
    pub age_range_needs_agreement: Option<bool>,
    pub age_range: Option<String>,
    pub birthyear_needs_agreement: Option<bool>,
    pub birthyear: Option<String>,
    pub birthday_needs_agreement: Option<bool>,
    pub birthday: Option<String>,
    pub birthday_type: Option<String>,
    pub gender_needs_agreement: Option<bool>,
    pub gender: Option<String>,
    pub phone_number_needs_agreement: Option<bool>,
    pub phone_number: Option<String>,
    pub ci_needs_agreement: Option<bool>,
    pub ci: Option<String>,
    pub ci_authenticated_at: Option<String>,
}

/// Kakao's nested profile object.
#[derive(Clone, Debug)]
pub struct Profile {
    pub nickname: Option<String>,
    pub thumbnail_image_url: Option<String>,
    pub profile_image_url: Option<String>,
    pub is_default_image: Option<bool>,
}

/// Kakao's partner object.
#[derive(Clone, Debug)]
pub struct Partner {
    pub uuid: Option<String>,
}

/// Naver's profile envelope.
#[derive(Clone, Debug)]
pub struct NaverUserResult {
    pub resultcode: String,
    pub message: String,
    pub response: NaverUserResponse,
}

/// Naver's profile schema.
#[derive(Clone, Debug)]
pub struct NaverUserResponse {
    pub id: String,
    pub nickname: String,
    pub email: String,
    pub profile_image: String,
    pub name: Option<String>,
    pub gender: Option<String>,
    pub age: Option<String>,
    pub birthday: Option<String>,
    pub birthyear: Option<String>,
    pub mobile: Option<String>,
}

/// Resolves the callback path segment to a provider; `None` exactly when it
/// is none of the four known tags.
pub fn parse_provider(tag: &str) -> (r: Option<OAuthProvider>)
    ensures
        match r {
            Some(OAuthProvider::Google) => tag@ == "google"@,
            Some(OAuthProvider::GitHub) => tag@ == "github"@,
            Some(OAuthProvider::Kakao) => tag@ == "kakao"@,
            Some(OAuthProvider::Naver) => tag@ == "naver"@,
            None => tag@ != "google"@ && tag@ != "github"@ && tag@ != "kakao"@ && tag@
                != "naver"@,
        },
{
    if crate::bytes::str_eq(tag, "google") {
        Some(OAuthProvider::Google)
    } else if crate::bytes::str_eq(tag, "github") {
        Some(OAuthProvider::GitHub)
    } else if crate::bytes::str_eq(tag, "kakao") {
        Some(OAuthProvider::Kakao)
    } else if crate::bytes::str_eq(tag, "naver") {
        Some(OAuthProvider::Naver)
    } else {
        None
    }
}

/// A token-exchange request: where to POST, the form fields in order, and
/// whether an explicit `Accept: application/json` header is owed (GitHub
/// answers with a query string otherwise).
#[derive(Clone, Debug)]
pub struct ExchangeRequest {
    pub url: String,
    pub params: Vec<(String, String)>,
    pub accept_json: bool,
}

/// Appends one form field.
fn push_param(params: &mut Vec<(String, String)>, name: &str, value: &str)
    ensures
        final(params)@.len() == old(params)@.len() + 1,
        forall|j: int| 0 <= j < old(params)@.len() ==> final(params)@[j] == old(params)@[j],
        final(params)@.last().0@ == name@,
        final(params)@.last().1@ == value@,
{
    params.push((name.to_owned(), value.to_owned()));
}

/// The exchange request for one provider and authorization code, exactly as
/// the provider's token endpoint expects it: Google and Naver send
/// `grant_type`, client id and secret, code and redirect URI; Kakao sends no
/// secret; GitHub sends only client id, secret and code.
pub fn exchange_request(provider: OAuthProvider, code: &str, cfg: &Config) -> (r: ExchangeRequest)
    ensures
        match provider {
            OAuthProvider::Google => {
                &&& r.url@ == "https://oauth2.googleapis.com/token"@
                &&& r.params@.len() == 5
                &&& r.params@[0].0@ == "grant_type"@ && r.params@[0].1@ == "authorization_code"@
                &&& r.params@[1].0@ == "client_id"@ && r.params@[1].1@
                    == cfg.google_oauth_client_id@
                &&& r.params@[2].0@ == "client_secret"@ && r.params@[2].1@
                    == cfg.google_oauth_client_secret@
                &&& r.params@[3].0@ == "code"@ && r.params@[3].1@ == code@
                &&& r.params@[4].0@ == "redirect_uri"@ && r.params@[4].1@
                    == cfg.google_oauth_redirect_url@
                &&& !r.accept_json
            },
            OAuthProvider::GitHub => {
                &&& r.url@ == "https://github.com/login/oauth/access_token"@
                &&& r.params@.len() == 3
                &&& r.params@[0].0@ == "client_id"@ && r.params@[0].1@
                    == cfg.github_oauth_client_id@
                &&& r.params@[1].0@ == "client_secret"@ && r.params@[1].1@
                    == cfg.github_oauth_client_secret@
                &&& r.params@[2].0@ == "code"@ && r.params@[2].1@ == code@
                &&& r.accept_json
            },
            OAuthProvider::Kakao => {
                &&& r.url@ == "https://kauth.kakao.com/oauth/token"@
                &&& r.params@.len() == 4
                &&& r.params@[0].0@ == "grant_type"@ && r.params@[0].1@ == "authorization_code"@
                &&& r.params@[1].0@ == "client_id"@ && r.params@[1].1@
                    == cfg.kakao_oauth_client_id@
                &&& r.params@[2].0@ == "redirect_uri"@ && r.params@[2].1@
                    == cfg.kakao_oauth_redirect_url@
                &&& r.params@[3].0@ == "code"@ && r.params@[3].1@ == code@
                &&& !r.accept_json
            },
            OAuthProvider::Naver => {
                &&& r.url@ == "https://nid.naver.com/oauth2.0/token"@
                &&& r.params@.len() == 5
                &&& r.params@[0].0@ == "grant_type"@ && r.params@[0].1@ == "authorization_code"@
                &&& r.params@[1].0@ == "client_id"@ && r.params@[1].1@
                    == cfg.naver_oauth_client_id@
                &&& r.params@[2].0@ == "client_secret"@ && r.params@[2].1@
                    == cfg.naver_oauth_client_secret@
                &&& r.params@[3].0@ == "redirect_uri"@ && r.params@[3].1@
                    == cfg.naver_oauth_redirect_url@
                &&& r.params@[4].0@ == "code"@ && r.params@[4].1@ == code@
                &&& !r.accept_json
            },
        },
{
    let mut params: Vec<(String, String)> = Vec::new();
    match provider {
        OAuthProvider::Google => {
            push_param(&mut params, "grant_type", "authorization_code");
            push_param(&mut params, "client_id", cfg.google_oauth_client_id.as_str());
            push_param(&mut params, "client_secret", cfg.google_oauth_client_secret.as_str());
            push_param(&mut params, "code", code);
            push_param(&mut params, "redirect_uri", cfg.google_oauth_redirect_url.as_str());
            ExchangeRequest {
                url: "https://oauth2.googleapis.com/token".to_owned(),
                params,
                accept_json: false,
            }
        },
        OAuthProvider::GitHub => {
            push_param(&mut params, "client_id", cfg.github_oauth_client_id.as_str());
            push_param(&mut params, "client_secret", cfg.github_oauth_client_secret.as_str());
            push_param(&mut params, "code", code);
            ExchangeRequest {
                url: "https://github.com/login/oauth/access_token".to_owned(),
                params,
                accept_json: true,
            }
        },
        OAuthProvider::Kakao => {
            push_param(&mut params, "grant_type", "authorization_code");
            push_param(&mut params, "client_id", cfg.kakao_oauth_client_id.as_str());
            push_param(&mut params, "redirect_uri", cfg.kakao_oauth_redirect_url.as_str());
            push_param(&mut params, "code", code);
            ExchangeRequest {
                url: "https://kauth.kakao.com/oauth/token".to_owned(),
                params,
                accept_json: false,
            }
        },
        OAuthProvider::Naver => {
            push_param(&mut params, "grant_type", "authorization_code");
            push_param(&mut params, "client_id", cfg.naver_oauth_client_id.as_str());
            push_param(&mut params, "client_secret", cfg.naver_oauth_client_secret.as_str());
            push_param(&mut params, "redirect_uri", cfg.naver_oauth_redirect_url.as_str());
            push_param(&mut params, "code", code);
            ExchangeRequest {
                url: "https://nid.naver.com/oauth2.0/token".to_owned(),
                params,
                accept_json: false,
            }
        },
    }
}

/// A profile request: where to GET, the bearer credential, query fields,
/// and the user agent some providers demand.
#[derive(Clone, Debug)]
pub struct ProfileRequest {
    pub url: String,
    pub bearer: String,
    pub query: Vec<(String, String)>,
    pub user_agent: Option<String>,
}

/// The profile request for one provider: Google is queried with the access
/// token as a query parameter under a bearer id token; the others carry the
/// access token as the bearer, with a fixed user agent.
pub fn profile_request(provider: OAuthProvider, access_token: &str, id_token: Option<&str>) -> (r:
    ProfileRequest)
    ensures
        match provider {
            OAuthProvider::Google => {
                &&& r.url@ == "https://www.googleapis.com/oauth2/v1/userinfo"@
                &&& r.bearer@ == (match id_token {
                    Some(t) => t@,
                    None => ""@,
                })
                &&& r.query@.len() == 2
                &&& r.query@[0].0@ == "alt"@ && r.query@[0].1@ == "json"@
                &&& r.query@[1].0@ == "access_token"@ && r.query@[1].1@ == access_token@
                &&& r.user_agent is None
            },
            OAuthProvider::GitHub => {
                &&& r.url@ == "https://api.github.com/user"@
                &&& r.bearer@ == access_token@
                &&& r.query@.len() == 0
                &&& r.user_agent matches Some(ua) && ua@ == "blog-rs"@
            },
            OAuthProvider::Kakao => {
                &&& r.url@ == "https://kapi.kakao.com/v2/user/me"@
                &&& r.bearer@ == access_token@
                &&& r.query@.len() == 0
                &&& r.user_agent matches Some(ua) && ua@ == "blog-rs"@
            },
            OAuthProvider::Naver => {
                &&& r.url@ == "https://openapi.naver.com/v1/nid/me"@
                &&& r.bearer@ == access_token@
                &&& r.query@.len() == 0
                &&& r.user_agent matches Some(ua) && ua@ == "blog-rs"@
            },
        },
{
    match provider {
        OAuthProvider::Google => {
            let mut query: Vec<(String, String)> = Vec::new();
            push_param(&mut query, "alt", "json");
            push_param(&mut query, "access_token", access_token);
            let bearer = match id_token {
                Some(t) => t.to_owned(),
                None => "".to_owned(),
            };
            ProfileRequest {
                url: "https://www.googleapis.com/oauth2/v1/userinfo".to_owned(),
                bearer,
                query,
                user_agent: None,
            }
        },
        OAuthProvider::GitHub => {
            ProfileRequest {
                url: "https://api.github.com/user".to_owned(),
                bearer: access_token.to_owned(),
                query: Vec::new(),
                user_agent: Some("blog-rs".to_owned()),
            }
        },
        OAuthProvider::Kakao => {
            ProfileRequest {
                url: "https://kapi.kakao.com/v2/user/me".to_owned(),
                bearer: access_token.to_owned(),
                query: Vec::new(),
                user_agent: Some("blog-rs".to_owned()),
            }
        },
        OAuthProvider::Naver => {
            ProfileRequest {
                url: "https://openapi.naver.com/v1/nid/me".to_owned(),
                bearer: access_token.to_owned(),
                query: Vec::new(),
                user_agent: Some("blog-rs".to_owned()),
            }
        },
    }
}

/// What the transport observed for a token-exchange call.
#[derive(Clone, Debug)]
pub enum ExchangeOutcome {
    /// A success status whose body decoded into the provider's token shape.
    Token(OAuthTokenResponse),
    /// A non-success status; the message describes it.
    HttpFailure(String),
    /// The call itself failed (connection, timeout, protocol).
    Transport(String),
    /// A success status whose body did not decode.
    Decode(String),
}

/// Classifies a token-exchange outcome: every failure becomes a typed
/// upstream error carrying the observed message — never an unhandled fault —
/// and only a decoded token passes through.
pub fn complete_exchange(outcome: ExchangeOutcome) -> (r: Result<OAuthTokenResponse, UpstreamError>)
    ensures
        match outcome {
            ExchangeOutcome::Token(t) => r matches Ok(t2) && t2 == t,
            ExchangeOutcome::HttpFailure(m) => r matches Err(u) && u.message@ == m@,
            ExchangeOutcome::Transport(m) => r matches Err(u) && u.message@ == m@,
            ExchangeOutcome::Decode(m) => r matches Err(u) && u.message@ == m@,
        },
{
    match outcome {
        ExchangeOutcome::Token(t) => Ok(t),
        ExchangeOutcome::HttpFailure(m) => Err(UpstreamError { message: m }),
        ExchangeOutcome::Transport(m) => Err(UpstreamError { message: m }),
        ExchangeOutcome::Decode(m) => Err(UpstreamError { message: m }),
    }
}

/// The normalized name of a Kakao profile: the consent-gated nickname, or
/// the fixed placeholder when any level of it is absent.
pub open spec fn kakao_name(k: KakaoUserResult) -> Seq<char> {
    match k.kakao_account {
        Some(a) => match a.profile {
            Some(p) => match p.nickname {
                Some(n) => n@,
                None => "Unknown"@,
            },
            None => "Unknown"@,
        },
        None => "Unknown"@,
    }
}

/// The normalized photo of a Kakao profile: the thumbnail, or the default
/// placeholder file name when it is absent.
pub open spec fn kakao_photo(k: KakaoUserResult) -> Seq<char> {
    match k.kakao_account {
        Some(a) => match a.profile {
            Some(p) => match p.thumbnail_image_url {
                Some(t) => t@,
                None => "default.png"@,
            },
            None => "default.png"@,
        },
        None => "default.png"@,
    }
}

/// The normalized email of a Kakao profile: empty when absent.
pub open spec fn kakao_email(k: KakaoUserResult) -> Seq<char> {
    match k.kakao_account {
        Some(a) => match a.email {
            Some(e) => e@,
            None => ""@,
        },
        None => ""@,
    }
}

/// Normalizes a Google profile: name, email and picture pass through.
pub fn normalize_google(g: &GoogleUserResult) -> (r: UserInfo)
    ensures
        r.name@ == g.name@,
        r.email@ == g.email@,
        r.photo matches Some(p) && p@ == g.picture@,
        r.provider@ == "Google"@,
{
    UserInfo {
        name: g.name.clone(),
        email: g.email.clone(),
        photo: Some(g.picture.clone()),
        provider: "Google".to_owned(),
    }
}

/// Normalizes a GitHub profile: the login is the name, an absent email is
/// passed through as the empty string, the avatar passes through as it is.
pub fn normalize_github(g: &GitHubUserResult) -> (r: UserInfo)
    ensures
        r.name@ == g.login@,
        r.email@ == (match g.email {
            Some(e) => e@,
            None => ""@,
        }),
        match g.avatar_url {
            Some(a) => r.photo matches Some(p) && p@ == a@,
            None => r.photo is None,
        },
        r.provider@ == "GitHub"@,
{
    let email = match &g.email {
        Some(e) => e.clone(),
        None => "".to_owned(),
    };
    let photo = match &g.avatar_url {
        Some(a) => Some(a.clone()),
        None => None,
    };
    UserInfo { name: g.login.clone(), email, photo, provider: "GitHub".to_owned() }
}

/// Normalizes a Kakao profile, tolerating its consent-gated partiality: an
/// absent nickname becomes the fixed placeholder, an absent thumbnail the
/// default file name, an absent email the empty string.
pub fn normalize_kakao(k: &KakaoUserResult) -> (r: UserInfo)
    ensures
        r.name@ == kakao_name(*k),
        r.email@ == kakao_email(*k),
        r.photo matches Some(p) && p@ == kakao_photo(*k),
        r.provider@ == "Kakao"@,
{
    let name = match &k.kakao_account {
        Some(a) => match &a.profile {
            Some(p) => match &p.nickname {
                Some(n) => n.clone(),
                None => "Unknown".to_owned(),
            },
            None => "Unknown".to_owned(),
        },
        None => "Unknown".to_owned(),
    };
    let photo = match &k.kakao_account {
        Some(a) => match &a.profile {
            Some(p) => match &p.thumbnail_image_url {
                Some(t) => t.clone(),
                None => "default.png".to_owned(),
            },
            None => "default.png".to_owned(),
        },
        None => "default.png".to_owned(),
    };
    let email = match &k.kakao_account {
        Some(a) => match &a.email {
            Some(e) => e.clone(),
            None => "".to_owned(),
        },
        None => "".to_owned(),
    };
    UserInfo { name, email, photo: Some(photo), provider: "Kakao".to_owned() }
}

/// Normalizes a Naver profile: nickname, email and profile image pass
/// through from the response envelope.
pub fn normalize_naver(n: &NaverUserResult) -> (r: UserInfo)
    ensures
        r.name@ == n.response.nickname@,
        r.email@ == n.response.email@,
        r.photo matches Some(p) && p@ == n.response.profile_image@,
        r.provider@ == "Naver"@,
{
    UserInfo {
        name: n.response.nickname.clone(),
        email: n.response.email.clone(),
        photo: Some(n.response.profile_image.clone()),
        provider: "Naver".to_owned(),
    }
}

/// What the transport observed for a profile-fetch call.
#[derive(Clone, Debug)]
pub enum ProfileOutcome {
    Google(GoogleUserResult),
    GitHub(GitHubUserResult),
    Kakao(KakaoUserResult),
    Naver(NaverUserResult),
    /// A non-success status; the message describes it.
    HttpFailure(String),
    /// The call itself failed (connection, timeout, protocol).
    Transport(String),
    /// A success status whose body did not decode.
    Decode(String),
}

/// Classifies a profile-fetch outcome: a decoded profile is normalized into
/// the provider-agnostic identity; every failure becomes a typed upstream
/// error carrying the observed message.
pub fn complete_profile(outcome: &ProfileOutcome) -> (r: Result<UserInfo, UpstreamError>)
    ensures
        match outcome {
            ProfileOutcome::Google(g) => r matches Ok(u) && u.name@ == g.name@ && u.email@
                == g.email@ && (u.photo matches Some(p) && p@ == g.picture@) && u.provider@
                == "Google"@,
            ProfileOutcome::GitHub(g) => r matches Ok(u) && u.name@ == g.login@ && u.email@
                == (match g.email {
                Some(e) => e@,
                None => ""@,
            }) && (match g.avatar_url {
                Some(a) => u.photo matches Some(p) && p@ == a@,
                None => u.photo is None,
            }) && u.provider@ == "GitHub"@,
            ProfileOutcome::Kakao(k) => r matches Ok(u) && u.name@ == kakao_name(*k) && u.email@
                == kakao_email(*k) && (u.photo matches Some(p) && p@ == kakao_photo(*k))
                && u.provider@ == "Kakao"@,
            ProfileOutcome::Naver(n) => r matches Ok(u) && u.name@ == n.response.nickname@
                && u.email@ == n.response.email@ && (u.photo matches Some(p) && p@
                == n.response.profile_image@) && u.provider@ == "Naver"@,
            ProfileOutcome::HttpFailure(m) => r matches Err(e) && e.message@ == m@,
            ProfileOutcome::Transport(m) => r matches Err(e) && e.message@ == m@,
            ProfileOutcome::Decode(m) => r matches Err(e) && e.message@ == m@,
        },
{
    match outcome {
        ProfileOutcome::Google(g) => Ok(normalize_google(g)),
        ProfileOutcome::GitHub(g) => Ok(normalize_github(g)),
        ProfileOutcome::Kakao(k) => Ok(normalize_kakao(k)),
        ProfileOutcome::Naver(n) => Ok(normalize_naver(n)),
        ProfileOutcome::HttpFailure(m) => Err(UpstreamError { message: m.clone() }),
        ProfileOutcome::Transport(m) => Err(UpstreamError { message: m.clone() }),
        ProfileOutcome::Decode(m) => Err(UpstreamError { message: m.clone() }),
    }
}

} // verus!
