//! Trusted bindings to the outside crates the core relies on: HMAC signing
//! through `jsonwebtoken`, case folding, UTF-8 reconstruction, the clock and
//! fresh identifiers. Every verified statement about tokens or case-folded
//! keys ultimately rests on the contracts here.

use vstd::prelude::*;

verus! {

/// The HMAC-SHA256 tag of `message` under `secret`, as `jsonwebtoken`
/// produces it: the base64url text of the digest. A function of its two
/// arguments alone; nothing else is assumed about its value.
pub uninterp spec fn mac_of(secret: Seq<u8>, message: Seq<u8>) -> Seq<u8>;

/// The case folding performed by `str::to_lowercase`, a function of the
/// characters alone.
pub uninterp spec fn lower_of(s: Seq<char>) -> Seq<char>;

/// Relies on jsonwebtoken::crypto::sign with HS256: it returns the base64url
/// text of the HMAC-SHA256 digest of `message` under `secret`, and for the
/// HMAC algorithms its source returns `Ok` unconditionally, so the unwrap
/// cannot fail. Every byte of the result is base64url text, hence ASCII.
#[verifier::external_body]
pub fn hmac_sign(secret: &[u8], message: &[u8]) -> (r: Vec<u8>)
    ensures
        r@ == mac_of(secret@, message@),
        forall|i: int| 0 <= i < r@.len() ==> r@[i] < 128,
{
    let key = jsonwebtoken::EncodingKey::from_secret(secret);
    let sig = jsonwebtoken::crypto::sign(message, &key, jsonwebtoken::Algorithm::HS256).unwrap();
    sig.into_bytes()
}

/// Relies on jsonwebtoken::crypto::verify with HS256: its source re-signs
/// `message` with `secret` and compares the given signature text with the
/// recomputed one byte for byte, so it returns true exactly when `signature`
/// equals the tag that `hmac_sign` would produce. A signature that is not
/// UTF-8 text cannot equal that ASCII tag, so it is rejected here.
#[verifier::external_body]
pub fn hmac_verify(secret: &[u8], message: &[u8], signature: &[u8]) -> (r: bool)
    ensures
        r == (signature@ == mac_of(secret@, message@)),
{
    let key = jsonwebtoken::DecodingKey::from_secret(secret);
    match core::str::from_utf8(signature) {
        Ok(sig) => {
            jsonwebtoken::crypto::verify(sig, message, &key, jsonwebtoken::Algorithm::HS256)
                .unwrap_or(false)
        },
        Err(_) => false,
    }
}

/// Relies on str::to_lowercase: the returned text is determined by the input
/// characters alone.
#[verifier::external_body]
pub fn lowercase(s: &str) -> (r: String)
    ensures
        r@ == lower_of(s@),
{
    s.to_lowercase()
}

/// Relies on String::from_utf8: it succeeds exactly on valid UTF-8 and the
/// returned string's bytes are the given bytes.
#[verifier::external_body]
pub fn string_from_utf8(v: Vec<u8>) -> (r: Option<String>)
    ensures
        r is Some <==> vstd::utf8::valid_utf8(v@),
        r matches Some(s) ==> vstd::utf8::encode_utf8(s@) == v@,
{
    String::from_utf8(v).ok()
}

/// Relies on chrono::Utc::now for the current time in epoch seconds; nothing
/// is assumed of the value.
#[verifier::external_body]
pub fn now_epoch() -> i64 {
    chrono::Utc::now().timestamp()
}

/// Relies on uuid::Uuid::new_v4 for a random identifier; nothing is assumed
/// of the value.
#[verifier::external_body]
pub fn fresh_uuid() -> String {
    uuid::Uuid::new_v4().to_string()
}

} // verus!
