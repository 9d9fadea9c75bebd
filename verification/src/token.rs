//! The session-token service: issues signed stateless credentials carrying a
//! subject and expiry, and validates presented credentials, distinguishing an
//! expired token from a malformed or forged one.
//!
//! A token is `header.payload.signature`: the fixed HS256 header and the
//! claims object, each base64url-encoded, and the HMAC-SHA256 tag of
//! everything before the second dot. Validation is proved to invert issuance
//! (the round-trip law), and an outdated expiry is proved to surface as
//! `Expired`, never as `Malformed`.

use vstd::prelude::*;

use crate::b64::{
    b64_decode, b64_encode, lemma_b64_alphabet, lemma_b64_encode_in_alphabet,
    lemma_b64_roundtrip, spec_b64_decode, spec_b64_encode,
};
use crate::bytes::{bytes_eq, find_byte, push_all, sub_bytes};
use crate::claims::{claims_to_json, lemma_claims_roundtrip, parse_claims, spec_claims_json, spec_parse_claims};
use crate::errors::TokenError;
use crate::ext::{hmac_sign, hmac_verify, mac_of, string_from_utf8};
use crate::model::TokenClaims;
use vstd::utf8::{
    encode_utf8, encode_utf8_valid_utf8, is_leading_byte_width_1, partial_valid_utf8,
    partial_valid_utf8_extend_ascii_block, valid_utf8,
};

verus! {

/// The bytes of the fixed token header `{"typ":"JWT","alg":"HS256"}`.
pub open spec fn header_json() -> Seq<u8> {
    seq![
        123u8, 34u8, 116u8, 121u8, 112u8, 34u8, 58u8, 34u8, 74u8, 87u8, 84u8, 34u8, 44u8, 34u8,
        97u8, 108u8, 103u8, 34u8, 58u8, 34u8, 72u8, 83u8, 50u8, 53u8, 54u8, 34u8, 125u8,
    ]
}

/// The signed part of a token: encoded header, a dot, encoded claims.
pub open spec fn spec_message(sub: Seq<u8>, exp: u64, iat: u64) -> Seq<u8> {
    spec_b64_encode(header_json()) + seq![46u8] + spec_b64_encode(spec_claims_json(sub, exp, iat))
}

/// The full token issued for subject bytes `sub` with the given claims,
/// under `secret`.
pub open spec fn spec_issue(secret: Seq<u8>, sub: Seq<u8>, exp: u64, iat: u64) -> Seq<u8> {
    spec_message(sub, exp, iat) + seq![46u8] + mac_of(secret, spec_message(sub, exp, iat))
}

/// The first position at or after `from` holding a dot, or the length.
pub open spec fn dot_index(t: Seq<u8>, from: int) -> int
    decreases t.len() - from,
{
    if from < 0 || from >= t.len() {
        t.len() as int
    } else if t[from] == 46 {
        from
    } else {
        dot_index(t, from + 1)
    }
}

/// What validation decides for a presented token under `secret` at time
/// `now`: the claims, or the failure kind. The signature is checked over
/// everything before the second dot; then the header, the payload framing,
/// the claims shape, and last the expiry.
pub open spec fn spec_validate(secret: Seq<u8>, t: Seq<u8>, now: u64) -> Result<
    (Seq<u8>, u64, u64),
    TokenError,
> {
    let i = dot_index(t, 0);
    let j = dot_index(t, i + 1);
    if i >= t.len() || j >= t.len() {
        Err(TokenError::Malformed)
    } else if t.skip(j + 1) != mac_of(secret, t.take(j)) {
        Err(TokenError::Malformed)
    } else if t.take(i) != spec_b64_encode(header_json()) {
        Err(TokenError::Malformed)
    } else {
        match spec_b64_decode(t.subrange(i + 1, j)) {
            None => Err(TokenError::Malformed),
            Some(payload) => match spec_parse_claims(payload) {
                None => Err(TokenError::Malformed),
                Some(c) => if !valid_utf8(c.0) {
                    Err(TokenError::Malformed)
                } else if c.1 < now {
                    Err(TokenError::Expired)
                } else {
                    Ok(c)
                },
            },
        }
    }
}

/// A run of non-dots ending at a dot or at the end pins down `dot_index`.
proof fn lemma_dot_index_at(t: Seq<u8>, from: int, i: int)
    requires
        0 <= from <= i <= t.len(),
        forall|k: int| from <= k < i ==> t[k] != 46,
        i == t.len() || t[i] == 46,
    ensures
        dot_index(t, from) == i,
    decreases i - from,
{
    if from < i {
        lemma_dot_index_at(t, from + 1, i);
    }
}

/// The executable fixed header bytes.
fn make_header_json() -> (r: Vec<u8>)
    ensures
        r@ == header_json(),
{
    let mut v: Vec<u8> = Vec::new();
    v.push(123);
    v.push(34);
    v.push(116);
    v.push(121);
    v.push(112);
    v.push(34);
    v.push(58);
    v.push(34);
    v.push(74);
    v.push(87);
    v.push(84);
    v.push(34);
    v.push(44);
    v.push(34);
    v.push(97);
    v.push(108);
    v.push(103);
    v.push(34);
    v.push(58);
    v.push(34);
    v.push(72);
    v.push(83);
    v.push(50);
    v.push(53);
    v.push(54);
    v.push(34);
    v.push(125);
    proof {
        assert(v@ =~= header_json());
    }
    v
}

/// A byte string of ASCII bytes is valid UTF-8.
proof fn lemma_ascii_valid_utf8(s: Seq<u8>)
    requires
        forall|i: int| 0 <= i < s.len() ==> s[i] < 128,
    ensures
        valid_utf8(s),
{
    assert forall|i: int| 0 <= i < s.len() implies #[trigger] is_leading_byte_width_1(s[i]) by {
        let b = s[i];
        assert(b < 128 ==> b & 0x80 == 0) by (bit_vector);
    }
    assert(s.subrange(0, 0) =~= Seq::<u8>::empty());
    assert(partial_valid_utf8(s, 0));
    partial_valid_utf8_extend_ascii_block(s, 0, s.len() as int);
    assert(s.subrange(0, s.len() as int) =~= s);
}

/// Issues the token for subject `sub` with expiry `exp` and issued-at `iat`,
/// signed under `secret`. The result is exactly the token the specification
/// describes, as a string of ASCII text.
pub fn issue_token(secret: &[u8], sub: &str, exp: u64, iat: u64) -> (r: String)
    ensures
        encode_utf8(r@) == spec_issue(secret@, encode_utf8(sub@), exp, iat),
{
    let hj = make_header_json();
    let hb = b64_encode(hj.as_slice());
    let sub_bytes_v = sub.as_bytes();
    let pj = claims_to_json(sub_bytes_v, exp, iat);
    let pb = b64_encode(pj.as_slice());
    let mut msg: Vec<u8> = Vec::new();
    push_all(&mut msg, hb.as_slice());
    msg.push(46);
    push_all(&mut msg, pb.as_slice());
    proof {
        assert(msg@ =~= spec_message(encode_utf8(sub@), exp, iat));
    }
    let mac = hmac_sign(secret, msg.as_slice());
    let ghost msg_view = msg@;
    let mut tok: Vec<u8> = msg;
    tok.push(46);
    push_all(&mut tok, mac.as_slice());
    proof {
        assert(tok@ =~= spec_issue(secret@, encode_utf8(sub@), exp, iat));
        lemma_b64_encode_in_alphabet(header_json());
        lemma_b64_encode_in_alphabet(spec_claims_json(encode_utf8(sub@), exp, iat));
        lemma_b64_alphabet();
        assert forall|k: int| 0 <= k < tok@.len() implies tok@[k] < 128 by {
            if k < hb@.len() {
                assert(tok@[k] == hb@[k]);
            } else if k == hb@.len() {
                assert(tok@[k] == 46);
            } else if k < msg_view.len() {
                assert(tok@[k] == pb@[k - hb@.len() - 1]);
            } else if k == msg_view.len() {
                assert(tok@[k] == 46);
            } else {
                assert(tok@[k] == mac@[k - msg_view.len() - 1]);
            }
        }
        lemma_ascii_valid_utf8(tok@);
    }
    match string_from_utf8(tok) {
        Some(s) => s,
        None => {
            proof {
                assert(false);
            }
            String::new()
        },
    }
}

/// Issues the session token for `sub` at time `now`, valid for
/// `max_age_minutes` minutes: issued-at `now`, expiry `now` plus the session
/// length in seconds.
pub fn issue_session_token(secret: &[u8], sub: &str, now: u64, max_age_minutes: u64) -> (r: String)
    requires
        now + max_age_minutes * 60 <= u64::MAX,
    ensures
        encode_utf8(r@) == spec_issue(
            secret@,
            encode_utf8(sub@),
            (now + max_age_minutes * 60) as u64,
            now,
        ),
{
    let exp = now + max_age_minutes * 60;
    issue_token(secret, sub, exp, now)
}

/// Validates a presented token under `secret` at time `now`, returning the
/// claims exactly when the specification accepts, and the matching failure
/// kind otherwise.
#[verifier::rlimit(60)]
pub fn validate_token(secret: &[u8], token: &[u8], now: u64) -> (r: Result<TokenClaims, TokenError>)
    ensures
        match r {
            Ok(c) => spec_validate(secret@, token@, now) matches Ok(v) && v.0 == encode_utf8(c.sub@)
                && v.1 == c.exp && v.2 == c.iat,
            Err(e) => spec_validate(secret@, token@, now) == Err::<(Seq<u8>, u64, u64),
                TokenError,
            >(e),
        },
{
    let n = token.len();
    let i = match find_byte(token, 0, 46) {
        Some(i) => i,
        None => {
            proof {
                lemma_dot_index_at(token@, 0, n as int);
            }
            return Err(TokenError::Malformed);
        },
    };
    proof {
        lemma_dot_index_at(token@, 0, i as int);
    }
    let j = match find_byte(token, i + 1, 46) {
        Some(j) => j,
        None => {
            proof {
                lemma_dot_index_at(token@, i + 1, n as int);
            }
            return Err(TokenError::Malformed);
        },
    };
    proof {
        lemma_dot_index_at(token@, i + 1, j as int);
    }
    let msg = sub_bytes(token, 0, j);
    let sig = sub_bytes(token, j + 1, n);
    proof {
        assert(msg@ =~= token@.take(j as int));
        assert(sig@ =~= token@.skip(j + 1));
    }
    if !hmac_verify(secret, msg.as_slice(), sig.as_slice()) {
        return Err(TokenError::Malformed);
    }
    let hj = make_header_json();
    let hb = b64_encode(hj.as_slice());
    let head = sub_bytes(token, 0, i);
    proof {
        assert(head@ =~= token@.take(i as int));
    }
    if !bytes_eq(head.as_slice(), hb.as_slice()) {
        return Err(TokenError::Malformed);
    }
    let pb = sub_bytes(token, i + 1, j);
    let payload = match b64_decode(pb.as_slice()) {
        Some(p) => p,
        None => {
            return Err(TokenError::Malformed);
        },
    };
    let parsed = match parse_claims(payload.as_slice()) {
        Some(p) => p,
        None => {
            return Err(TokenError::Malformed);
        },
    };
    let (sub_b, exp, iat) = parsed;
    let sub_s = match string_from_utf8(sub_b) {
        Some(s) => s,
        None => {
            return Err(TokenError::Malformed);
        },
    };
    if exp < now {
        Err(TokenError::Expired)
    } else {
        Ok(TokenClaims { sub: sub_s, exp, iat })
    }
}

/// The shape of an issued token: where its dots fall and what each part is.
proof fn lemma_issue_shape(secret: Seq<u8>, sub: Seq<u8>, exp: u64, iat: u64)
    ensures
        ({
            let t = spec_issue(secret, sub, exp, iat);
            let h = spec_b64_encode(header_json());
            let p = spec_b64_encode(spec_claims_json(sub, exp, iat));
            let m = spec_message(sub, exp, iat);
            &&& dot_index(t, 0) == h.len()
            &&& dot_index(t, h.len() as int + 1) == m.len()
            &&& m.len() < t.len()
            &&& t.take(h.len() as int) =~= h
            &&& t.subrange(h.len() as int + 1, m.len() as int) =~= p
            &&& t.take(m.len() as int) =~= m
            &&& t.skip(m.len() as int + 1) =~= mac_of(secret, m)
        }),
{
    let t = spec_issue(secret, sub, exp, iat);
    let h = spec_b64_encode(header_json());
    let p = spec_b64_encode(spec_claims_json(sub, exp, iat));
    let m = spec_message(sub, exp, iat);
    lemma_b64_encode_in_alphabet(header_json());
    lemma_b64_encode_in_alphabet(spec_claims_json(sub, exp, iat));
    lemma_b64_alphabet();
    assert(m =~= h + seq![46u8] + p);
    assert(t =~= m + seq![46u8] + mac_of(secret, m));
    assert(forall|k: int| 0 <= k < h.len() ==> t[k] == h[k]);
    assert(t[h.len() as int] == 46);
    lemma_dot_index_at(t, 0, h.len() as int);
    assert(forall|k: int| h.len() + 1 <= k < m.len() ==> t[k] == p[k - h.len() - 1]);
    assert(t[m.len() as int] == 46);
    lemma_dot_index_at(t, h.len() as int + 1, m.len() as int);
}

/// The round-trip law: validating a freshly issued, not-yet-expired token
/// succeeds and returns exactly the subject, expiry and issued-at that were
/// put in.
pub proof fn lemma_validate_inverts_issue(
    secret: Seq<u8>,
    sub: Seq<char>,
    exp: u64,
    iat: u64,
    now: u64,
)
    requires
        now <= exp,
    ensures
        spec_validate(secret, spec_issue(secret, encode_utf8(sub), exp, iat), now) == Ok::<
            _,
            TokenError,
        >((encode_utf8(sub), exp, iat)),
{
    let sb = encode_utf8(sub);
    let t = spec_issue(secret, sb, exp, iat);
    let h = spec_b64_encode(header_json());
    let m = spec_message(sb, exp, iat);
    lemma_issue_shape(secret, sb, exp, iat);
    lemma_b64_roundtrip(spec_claims_json(sb, exp, iat));
    lemma_claims_roundtrip(sb, exp, iat);
    encode_utf8_valid_utf8(sub);
    assert(spec_validate(secret, t, now) == Ok::<_, TokenError>((sb, exp, iat)));
}

/// An issued token whose expiry lies strictly in the past fails validation
/// with `Expired` — never with `Malformed`.
pub proof fn lemma_expired_is_expired(
    secret: Seq<u8>,
    sub: Seq<char>,
    exp: u64,
    iat: u64,
    now: u64,
)
    requires
        exp < now,
    ensures
        spec_validate(secret, spec_issue(secret, encode_utf8(sub), exp, iat), now) == Err::<
            (Seq<u8>, u64, u64),
            _,
        >(TokenError::Expired),
{
    let sb = encode_utf8(sub);
    let t = spec_issue(secret, sb, exp, iat);
    lemma_issue_shape(secret, sb, exp, iat);
    lemma_b64_roundtrip(spec_claims_json(sb, exp, iat));
    lemma_claims_roundtrip(sb, exp, iat);
    encode_utf8_valid_utf8(sub);
}

} // verus!
