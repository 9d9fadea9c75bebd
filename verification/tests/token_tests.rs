//! Tests for the base64url codec, the claims codec, and the token service.

use blog_auth::b64::{b64_decode, b64_encode};
use blog_auth::claims::{claims_to_json, parse_claims};
use blog_auth::errors::TokenError;
use blog_auth::token::{issue_session_token, issue_token, validate_token};

fn b64s(s: &str) -> String {
    String::from_utf8(b64_encode(s.as_bytes())).unwrap()
}

#[test]
fn b64_known_vectors() {
    assert_eq!(b64s(""), "");
    assert_eq!(b64s("f"), "Zg");
    assert_eq!(b64s("fo"), "Zm8");
    assert_eq!(b64s("foo"), "Zm9v");
    assert_eq!(b64s("foob"), "Zm9vYg");
    assert_eq!(b64s("fooba"), "Zm9vYmE");
    assert_eq!(b64s("foobar"), "Zm9vYmFy");
    // URL-safe alphabet: 0xfb 0xff encodes with '-' and '_', never '+' or '/'.
    assert_eq!(String::from_utf8(b64_encode(&[0xfb, 0xff])).unwrap(), "-_8");
}

#[test]
fn b64_round_trip_all_byte_values() {
    let mut all: Vec<u8> = Vec::new();
    for b in 0..=255u8 {
        all.push(b);
    }
    for cut in [0usize, 1, 2, 3, 100, 255, 256] {
        let part = &all[..cut];
        let enc = b64_encode(part);
        let dec = b64_decode(&enc).expect("an encoding must decode");
        assert_eq!(dec, part.to_vec());
    }
}

#[test]
fn b64_rejects_junk() {
    assert!(b64_decode(b"A").is_none());
    assert!(b64_decode(b"****").is_none());
    assert!(b64_decode(b"Zm9v=").is_none());
}

#[test]
fn claims_json_exact_bytes() {
    let j = claims_to_json(b"abc", 123, 45);
    assert_eq!(String::from_utf8(j).unwrap(), "{\"sub\":\"abc\",\"exp\":123,\"iat\":45}");
}

#[test]
fn claims_json_escapes() {
    let j = claims_to_json(b"a\"b\\c\nd", 1, 2);
    assert_eq!(
        String::from_utf8(j).unwrap(),
        "{\"sub\":\"a\\\"b\\\\c\\u000ad\",\"exp\":1,\"iat\":2}"
    );
}

#[test]
fn claims_parse_inverts() {
    let j = claims_to_json("weird \" \\ \u{1}\u{1f} subject".as_bytes(), u64::MAX, 0);
    let (sub, exp, iat) = parse_claims(&j).expect("own serialization must parse");
    assert_eq!(sub, "weird \" \\ \u{1}\u{1f} subject".as_bytes().to_vec());
    assert_eq!(exp, u64::MAX);
    assert_eq!(iat, 0);
}

#[test]
fn claims_parse_rejects_overflow_and_shape() {
    assert!(parse_claims(b"{\"sub\":\"a\",\"exp\":99999999999999999999,\"iat\":1}").is_none());
    assert!(parse_claims(b"{\"sub\":\"a\",\"exp\":1}").is_none());
    assert!(parse_claims(b"{\"sub\":\"a\",\"exp\":1,\"iat\":2} ").is_none());
    assert!(parse_claims(b"").is_none());
}

#[test]
fn round_trip_simple_subject() {
    let secret = b"a-process-wide-secret";
    let token = issue_token(secret, "user-123", 2_000_000_000, 1_000_000_000);
    let claims = validate_token(secret, token.as_bytes(), 1_500_000_000).expect("must validate");
    assert_eq!(claims.sub, "user-123");
    assert_eq!(claims.exp, 2_000_000_000);
    assert_eq!(claims.iat, 1_000_000_000);
}

#[test]
fn round_trip_hostile_subject() {
    let secret = b"s";
    let sub = "sp aces \"quotes\" back\\slash \n newline \u{0} nul ünïcödé 日本語 🦀";
    let token = issue_token(secret, sub, 100, 50);
    let claims = validate_token(secret, token.as_bytes(), 60).expect("must validate");
    assert_eq!(claims.sub, sub);
}

#[test]
fn session_token_expiry_arithmetic() {
    let secret = b"k";
    let token = issue_session_token(secret, "u", 1000, 60);
    let claims = validate_token(secret, token.as_bytes(), 1000).unwrap();
    assert_eq!(claims.iat, 1000);
    assert_eq!(claims.exp, 1000 + 60 * 60);
}

#[test]
fn expired_token_fails_expired_not_malformed() {
    let secret = b"secret";
    let token = issue_token(secret, "u1", 500, 400);
    assert_eq!(validate_token(secret, token.as_bytes(), 501).unwrap_err(), TokenError::Expired);
    // At the expiry second itself the token still validates.
    assert!(validate_token(secret, token.as_bytes(), 500).is_ok());
}

#[test]
fn tampered_token_fails_malformed() {
    let secret = b"secret";
    let token = issue_token(secret, "u1", 500, 400);
    let mut bytes = token.clone().into_bytes();
    // Flip one payload character to another alphabet character.
    let dot = token.find('.').unwrap();
    bytes[dot + 1] = if bytes[dot + 1] == b'A' { b'B' } else { b'A' };
    assert_eq!(validate_token(secret, &bytes, 450).unwrap_err(), TokenError::Malformed);
}

#[test]
fn wrong_secret_fails_malformed() {
    let token = issue_token(b"right", "u1", 500, 400);
    assert_eq!(validate_token(b"wrong", token.as_bytes(), 450).unwrap_err(), TokenError::Malformed);
}

#[test]
fn garbage_tokens_fail_malformed() {
    let secret = b"s";
    for junk in ["", "no-dots-here", "one.dot", "a.b.c", "..", "...."] {
        assert_eq!(
            validate_token(secret, junk.as_bytes(), 0).unwrap_err(),
            TokenError::Malformed,
            "{junk:?}"
        );
    }
}

#[test]
fn issued_tokens_decode_with_jsonwebtoken() {
    let secret = b"interop-secret";
    let now = chrono::Utc::now().timestamp() as u64;
    let token = issue_session_token(secret, "interop-user", now, 10);
    let decoded = jsonwebtoken::decode::<serde_json::Value>(
        &token,
        &jsonwebtoken::DecodingKey::from_secret(secret),
        &jsonwebtoken::Validation::new(jsonwebtoken::Algorithm::HS256),
    )
    .expect("jsonwebtoken must accept the issued token");
    assert_eq!(decoded.claims.get("sub").and_then(|v| v.as_str()), Some("interop-user"));
    assert_eq!(decoded.claims.get("iat").and_then(|v| v.as_u64()), Some(now));
    assert_eq!(decoded.claims.get("exp").and_then(|v| v.as_u64()), Some(now + 600));
}
