//! Tests for the provider adapters' decision half: tag parsing, request
//! shapes, outcome classification and profile normalization.

use blog_auth::model::{Config, QueryCode};
use blog_auth::oauth::{
    complete_exchange, complete_profile, exchange_request, normalize_github, normalize_kakao,
    parse_provider, profile_request, BasicOauthToken, ExchangeOutcome, GitHubUserResult,
    GoogleUserResult, KakaoAccount, KakaoUserResult, NaverUserResponse, NaverUserResult,
    OAuthProvider, OAuthTokenResponse, Profile, ProfileOutcome,
};

fn test_config() -> Config {
    Config {
        client_origin: "https://client.example".to_string(),
        jwt_secret: "SECRET-REDACTED".to_string(),
        jwt_expires_in: "60m".to_string(),
        jwt_max_age: 60,
        google_oauth_client_id: "gid".to_string(),
        google_oauth_client_secret: "gsec".to_string(),
        google_oauth_redirect_url: "https://client.example/oauth/google".to_string(),
        github_oauth_client_id: "hid".to_string(),
        github_oauth_client_secret: "hsec".to_string(),
        github_oauth_redirect_url: "https://client.example/oauth/github".to_string(),
        naver_oauth_client_id: "nid".to_string(),
        naver_oauth_client_secret: "nsec".to_string(),
        naver_oauth_redirect_url: "https://client.example/oauth/naver".to_string(),
        kakao_oauth_client_id: "kid".to_string(),
        kakao_oauth_redirect_url: "https://client.example/oauth/kakao".to_string(),
    }
}

fn pairs(v: &[(String, String)]) -> Vec<(&str, &str)> {
    v.iter().map(|(a, b)| (a.as_str(), b.as_str())).collect()
}

#[test]
fn provider_tags() {
    assert_eq!(parse_provider("google"), Some(OAuthProvider::Google));
    assert_eq!(parse_provider("github"), Some(OAuthProvider::GitHub));
    assert_eq!(parse_provider("kakao"), Some(OAuthProvider::Kakao));
    assert_eq!(parse_provider("naver"), Some(OAuthProvider::Naver));
    assert_eq!(parse_provider("Google"), None);
    assert_eq!(parse_provider("facebook"), None);
    assert_eq!(parse_provider(""), None);
}

#[test]
fn google_exchange_shape() {
    let r = exchange_request(OAuthProvider::Google, "thecode", &test_config());
    assert_eq!(r.url, "https://oauth2.googleapis.com/token");
    assert!(!r.accept_json);
    assert_eq!(
        pairs(&r.params),
        vec![
            ("grant_type", "authorization_code"),
            ("client_id", "gid"),
            ("client_secret", "gsec"),
            ("code", "thecode"),
            ("redirect_uri", "https://client.example/oauth/google"),
        ]
    );
}

#[test]
fn github_exchange_omits_grant_type_and_redirect() {
    let r = exchange_request(OAuthProvider::GitHub, "c0de", &test_config());
    assert_eq!(r.url, "https://github.com/login/oauth/access_token");
    assert!(r.accept_json);
    assert_eq!(
        pairs(&r.params),
        vec![("client_id", "hid"), ("client_secret", "hsec"), ("code", "c0de")]
    );
}

#[test]
fn kakao_exchange_omits_secret() {
    let r = exchange_request(OAuthProvider::Kakao, "k", &test_config());
    assert_eq!(r.url, "https://kauth.kakao.com/oauth/token");
    assert_eq!(
        pairs(&r.params),
        vec![
            ("grant_type", "authorization_code"),
            ("client_id", "kid"),
            ("redirect_uri", "https://client.example/oauth/kakao"),
            ("code", "k"),
        ]
    );
}

#[test]
fn naver_exchange_shape() {
    let r = exchange_request(OAuthProvider::Naver, "n", &test_config());
    assert_eq!(r.url, "https://nid.naver.com/oauth2.0/token");
    assert_eq!(
        pairs(&r.params),
        vec![
            ("grant_type", "authorization_code"),
            ("client_id", "nid"),
            ("client_secret", "nsec"),
            ("redirect_uri", "https://client.example/oauth/naver"),
            ("code", "n"),
        ]
    );
}

#[test]
fn failed_exchange_is_an_upstream_error_for_every_provider() {
    for provider in [
        OAuthProvider::Google,
        OAuthProvider::GitHub,
        OAuthProvider::Kakao,
        OAuthProvider::Naver,
    ] {
        // An invalid or expired code surfaces as a non-success status from
        // the provider; the classification must yield a typed upstream
        // error, never anything unhandled.
        let q = QueryCode { code: "expired-code".to_string(), state: "/".to_string() };
        let _req = exchange_request(provider, &q.code, &test_config());
        let outcome = ExchangeOutcome::HttpFailure(format!("status 401 from {provider:?}"));
        let err = complete_exchange(outcome).expect_err("a failed exchange must be an error");
        assert!(err.message.contains("401"));
    }
    let transport = complete_exchange(ExchangeOutcome::Transport("connection reset".to_string()));
    assert_eq!(transport.unwrap_err().message, "connection reset");
    let decode = complete_exchange(ExchangeOutcome::Decode("bad json".to_string()));
    assert_eq!(decode.unwrap_err().message, "bad json");
}

#[test]
fn successful_exchange_passes_the_token_through() {
    let outcome = ExchangeOutcome::Token(OAuthTokenResponse::GitHub(BasicOauthToken {
        access_token: "tok".to_string(),
    }));
    match complete_exchange(outcome).unwrap() {
        OAuthTokenResponse::GitHub(t) => assert_eq!(t.access_token, "tok"),
        other => panic!("wrong variant: {other:?}"),
    }
}

#[test]
fn google_profile_request_uses_query_and_id_token() {
    let r = profile_request(OAuthProvider::Google, "acc", Some("idt"));
    assert_eq!(r.url, "https://www.googleapis.com/oauth2/v1/userinfo");
    assert_eq!(r.bearer, "idt");
    assert_eq!(pairs(&r.query), vec![("alt", "json"), ("access_token", "acc")]);
    assert_eq!(r.user_agent, None);
}

#[test]
fn bearer_profile_requests() {
    for (provider, url) in [
        (OAuthProvider::GitHub, "https://api.github.com/user"),
        (OAuthProvider::Kakao, "https://kapi.kakao.com/v2/user/me"),
        (OAuthProvider::Naver, "https://openapi.naver.com/v1/nid/me"),
    ] {
        let r = profile_request(provider, "acc", None);
        assert_eq!(r.url, url);
        assert_eq!(r.bearer, "acc");
        assert!(r.query.is_empty());
        assert_eq!(r.user_agent.as_deref(), Some("blog-rs"));
    }
}

fn empty_kakao_account() -> KakaoAccount {
    KakaoAccount {
        profile_needs_agreement: None,
        profile_nickname_needs_agreement: None,
        profile_image_needs_agreement: None,
        profile: None,
        name_needs_agreement: None,
        name: None,
        email_needs_agreement: None,
        is_email_valid: None,
        is_email_verified: None,
        email: None,
        age_range_needs_agreement: None,
        age_range: None,
        birthyear_needs_agreement: None,
        birthyear: None,
        birthday_needs_agreement: None,
        birthday: None,
        birthday_type: None,
        gender_needs_agreement: None,
        gender: None,
        phone_number_needs_agreement: None,
        phone_number: None,
        ci_needs_agreement: None,
        ci: None,
        ci_authenticated_at: None,
    }
}

fn bare_kakao_result() -> KakaoUserResult {
    KakaoUserResult {
        id: 7,
        has_signed_up: None,
        connected_at: None,
        synched_at: None,
        properties: None,
        kakao_account: None,
        for_partner: None,
    }
}

#[test]
fn kakao_missing_nickname_and_thumbnail_fall_back() {
    let mut k = bare_kakao_result();
    let mut account = empty_kakao_account();
    account.email = Some("k@x.com".to_string());
    account.profile = Some(Profile {
        nickname: None,
        thumbnail_image_url: None,
        profile_image_url: Some("unused-large.png".to_string()),
        is_default_image: Some(true),
    });
    k.kakao_account = Some(account);
    let info = normalize_kakao(&k);
    assert_eq!(info.name, "Unknown");
    assert_eq!(info.photo.as_deref(), Some("default.png"));
    assert_eq!(info.email, "k@x.com");
    assert_eq!(info.provider, "Kakao");
}

#[test]
fn kakao_entirely_absent_account_falls_back() {
    let info = normalize_kakao(&bare_kakao_result());
    assert_eq!(info.name, "Unknown");
    assert_eq!(info.photo.as_deref(), Some("default.png"));
    assert_eq!(info.email, "");
}

#[test]
fn kakao_present_fields_pass_through() {
    let mut k = bare_kakao_result();
    let mut account = empty_kakao_account();
    account.email = Some("k@x.com".to_string());
    account.profile = Some(Profile {
        nickname: Some("카카오사용자".to_string()),
        thumbnail_image_url: Some("https://k/thumb.png".to_string()),
        profile_image_url: None,
        is_default_image: None,
    });
    k.kakao_account = Some(account);
    let info = normalize_kakao(&k);
    assert_eq!(info.name, "카카오사용자");
    assert_eq!(info.photo.as_deref(), Some("https://k/thumb.png"));
}

#[test]
fn github_null_email_passes_through_empty() {
    let g = GitHubUserResult { login: "octo".to_string(), avatar_url: None, email: None };
    let info = normalize_github(&g);
    assert_eq!(info.name, "octo");
    assert_eq!(info.email, "");
    assert_eq!(info.photo, None);
    assert_eq!(info.provider, "GitHub");
}

#[test]
fn profile_outcomes_classify() {
    let g = GoogleUserResult {
        id: "1".to_string(),
        email: "g@x.com".to_string(),
        verified_email: true,
        name: "G".to_string(),
        given_name: "G".to_string(),
        family_name: None,
        picture: "p.png".to_string(),
        locale: "en".to_string(),
    };
    let info = complete_profile(&ProfileOutcome::Google(g)).unwrap();
    assert_eq!(info.provider, "Google");
    assert_eq!(info.email, "g@x.com");
    assert_eq!(info.photo.as_deref(), Some("p.png"));

    let n = NaverUserResult {
        resultcode: "00".to_string(),
        message: "success".to_string(),
        response: NaverUserResponse {
            id: "nid".to_string(),
            nickname: "naveruser".to_string(),
            email: "n@x.com".to_string(),
            profile_image: "n.png".to_string(),
            name: None,
            gender: None,
            age: None,
            birthday: None,
            birthyear: None,
            mobile: None,
        },
    };
    let info = complete_profile(&ProfileOutcome::Naver(n)).unwrap();
    assert_eq!(info.name, "naveruser");
    assert_eq!(info.provider, "Naver");

    let err = complete_profile(&ProfileOutcome::HttpFailure("status 403".to_string()));
    assert_eq!(err.unwrap_err().message, "status 403");
}
