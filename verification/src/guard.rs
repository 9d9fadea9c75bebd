//! The request-time authentication guard: extracts a bearer credential from
//! the `token` cookie or, failing that, the `Authorization` header, validates
//! it, and resolves its subject to a live identity. Each failure keeps its
//! own kind: no credential at all, an expired token, a malformed or forged
//! one, and a valid token whose subject no longer exists.

use vstd::prelude::*;

use crate::bytes::sub_bytes;
use crate::errors::{AuthError, TokenError};
use crate::store::IdentityStore;
use crate::token::{spec_validate, validate_token};
use vstd::utf8::{encode_utf8, encode_utf8_decode_utf8};

verus! {

/// The resolved identity a protected handler runs under.
#[derive(Clone, Debug)]
pub struct AuthenticationGuard {
    pub user_id: String,
}

/// The bytes of `Bearer `.
pub open spec fn bearer_prefix() -> Seq<u8> {
    seq![66u8, 101u8, 97u8, 114u8, 101u8, 114u8, 32u8]
}

/// A header value with every leading `Bearer ` run removed (the repeated
/// stripping mirrors the observed behavior of the header path).
pub open spec fn strip_bearer(s: Seq<u8>) -> Seq<u8>
    decreases s.len(),
{
    if s.len() >= 7 && s.take(7) == bearer_prefix() {
        strip_bearer(s.skip(7))
    } else {
        s
    }
}

/// The credential a request carries, if any: the cookie value wins; only in
/// its absence is the header consulted, with its `Bearer ` prefix stripped.
pub open spec fn spec_credential(cookie: Option<&str>, auth_header: Option<&str>) -> Option<
    Seq<u8>,
> {
    match cookie {
        Some(c) => Some(encode_utf8(c@)),
        None => match auth_header {
            Some(h) => Some(strip_bearer(encode_utf8(h@))),
            None => None,
        },
    }
}

/// The position where the stripped header value starts.
fn strip_bearer_from(b: &[u8], pos: usize) -> (r: usize)
    requires
        pos <= b@.len(),
    ensures
        pos <= r <= b@.len(),
        strip_bearer(b@.skip(pos as int)) == b@.skip(r as int),
    decreases b@.len() - pos,
{
    let n = b.len();
    if n - pos >= 7 && b[pos] == 66 && b[pos + 1] == 101 && b[pos + 2] == 97 && b[pos + 3] == 114
        && b[pos + 4] == 101 && b[pos + 5] == 114 && b[pos + 6] == 32 {
        proof {
            assert(b@.skip(pos as int).take(7) =~= bearer_prefix());
            assert(b@.skip(pos as int).skip(7) =~= b@.skip(pos + 7));
        }
        strip_bearer_from(b, pos + 7)
    } else {
        proof {
            let s = b@.skip(pos as int);
            if s.len() >= 7 && s.take(7) == bearer_prefix() {
                assert(s.take(7)[0] == s[0] && s[0] == b@[pos as int]);
                assert(s.take(7)[1] == s[1] && s[1] == b@[pos + 1]);
                assert(s.take(7)[2] == s[2] && s[2] == b@[pos + 2]);
                assert(s.take(7)[3] == s[3] && s[3] == b@[pos + 3]);
                assert(s.take(7)[4] == s[4] && s[4] == b@[pos + 4]);
                assert(s.take(7)[5] == s[5] && s[5] == b@[pos + 5]);
                assert(s.take(7)[6] == s[6] && s[6] == b@[pos + 6]);
                assert(false);
            }
        }
        pos
    }
}

/// Extracts the raw credential bytes a request presents, cookie first, then
/// the `Authorization` header with its `Bearer ` prefix stripped.
pub fn extract_token(cookie: Option<&str>, auth_header: Option<&str>) -> (r: Option<Vec<u8>>)
    ensures
        match spec_credential(cookie, auth_header) {
            Some(t) => r matches Some(v) && v@ == t,
            None => r is None,
        },
{
    match cookie {
        Some(c) => {
            let b = c.as_bytes();
            let v = sub_bytes(b, 0, b.len());
            proof {
                assert(v@ =~= encode_utf8(c@));
            }
            Some(v)
        },
        None => match auth_header {
            Some(h) => {
                let b = h.as_bytes();
                proof {
                    assert(b@.skip(0) =~= b@);
                }
                let start = strip_bearer_from(b, 0);
                Some(sub_bytes(b, start, b.len()))
            },
            None => None,
        },
    }
}

/// Authenticates one protected request from what it presents: no credential
/// fails `MissingToken`; an invalid credential fails with the validation
/// kind; a valid credential whose subject is no stored user fails
/// `StaleIdentity`; otherwise the resolved user id is handed to the handler.
pub fn authenticate(
    store: &IdentityStore,
    secret: &[u8],
    cookie: Option<&str>,
    auth_header: Option<&str>,
    now: u64,
) -> (r: Result<AuthenticationGuard, AuthError>)
    ensures
        match spec_credential(cookie, auth_header) {
            None => r matches Err(e) && e == AuthError::MissingToken,
            Some(tok) => match spec_validate(secret@, tok, now) {
                Err(TokenError::Expired) => r matches Err(e) && e == AuthError::ExpiredToken,
                Err(TokenError::Malformed) => r matches Err(e) && e == AuthError::InvalidToken,
                Ok(c) => if exists|i: int|
                    0 <= i < store.users@.len() && encode_utf8(
                        #[trigger] store.users@[i].id@,
                    ) == c.0 {
                    r matches Ok(g) && encode_utf8(g.user_id@) == c.0
                } else {
                    r matches Err(e) && e == AuthError::StaleIdentity
                },
            },
        },
{
    let tok = match extract_token(cookie, auth_header) {
        Some(t) => t,
        None => {
            return Err(AuthError::MissingToken);
        },
    };
    match validate_token(secret, tok.as_slice(), now) {
        Err(TokenError::Expired) => Err(AuthError::ExpiredToken),
        Err(TokenError::Malformed) => Err(AuthError::InvalidToken),
        Ok(c) => {
            let ghost v = spec_validate(secret@, tok@, now).unwrap();
            match store.find_by_id(c.sub.as_str()) {
                Some(u) => {
                    proof {
                        let i = choose|i: int|
                            0 <= i < store.users@.len() && #[trigger] store.users@[i] == *u;
                        assert(store.users@[i].id@ == c.sub@);
                        assert(encode_utf8(store.users@[i].id@) == v.0);
                    }
                    Ok(AuthenticationGuard { user_id: c.sub })
                },
                None => {
                    proof {
                        assert forall|i: int|
                            0 <= i < store.users@.len() implies encode_utf8(
                            #[trigger] store.users@[i].id@,
                        ) != v.0 by {
                            if encode_utf8(store.users@[i].id@) == v.0 {
                                encode_utf8_decode_utf8(store.users@[i].id@);
                                encode_utf8_decode_utf8(c.sub@);
                                assert(store.users@[i].id@ == c.sub@);
                            }
                        }
                    }
                    Err(AuthError::StaleIdentity)
                },
            }
        },
    }
}

} // verus!
