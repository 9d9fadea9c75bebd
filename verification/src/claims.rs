//! A verified codec for the session-token claims object
//! `{"sub":"…","exp":…,"iat":…}`, working on raw UTF-8 bytes. String content
//! is escaped as JSON demands (quote, backslash, control characters); numbers
//! are plain decimal. Parsing is proved to invert serialization exactly.

use vstd::prelude::*;

verus! {

pub open spec fn is_digit(b: u8) -> bool {
    48 <= b <= 57
}

pub open spec fn all_digits(s: Seq<u8>) -> bool {
    forall|i: int| 0 <= i < s.len() ==> is_digit(#[trigger] s[i])
}

/// The numeric value of a digit string (most significant first).
pub open spec fn parse_nat(s: Seq<u8>) -> int
    decreases s.len(),
{
    if s.len() == 0 {
        0
    } else {
        parse_nat(s.drop_last()) * 10 + (s.last() - 48)
    }
}

/// The decimal digits of `n`, most significant first.
pub open spec fn dec_digits(n: u64) -> Seq<u8>
    decreases n,
{
    if n < 10 {
        seq![(48 + n) as u8]
    } else {
        dec_digits(n / 10) + seq![(48 + n % 10) as u8]
    }
}

pub open spec fn is_hex(c: u8) -> bool {
    is_digit(c) || (97 <= c <= 102) || (65 <= c <= 70)
}

/// The numeric value of a hex digit.
pub open spec fn hex_val(c: u8) -> u8
    recommends
        is_hex(c),
{
    if is_digit(c) {
        (c - 48) as u8
    } else if 97 <= c <= 102 {
        (c - 87) as u8
    } else {
        (c - 55) as u8
    }
}

/// The lowercase hex digit for a value below 16.
pub open spec fn hex_digit(v: u8) -> u8
    recommends
        v < 16,
{
    if v < 10 {
        (48 + v) as u8
    } else {
        (87 + v) as u8
    }
}

/// JSON escaping of one byte of string content.
pub open spec fn esc_byte(b: u8) -> Seq<u8> {
    if b == 34 {
        seq![92u8, 34u8]
    } else if b == 92 {
        seq![92u8, 92u8]
    } else if b < 32 {
        seq![92u8, 117u8, 48u8, 48u8, hex_digit(b >> 4), hex_digit(b & 15)]
    } else {
        seq![b]
    }
}

/// JSON escaping of string content.
pub open spec fn esc_bytes(s: Seq<u8>) -> Seq<u8>
    decreases s.len(),
{
    if s.len() == 0 {
        Seq::empty()
    } else {
        esc_byte(s[0]) + esc_bytes(s.skip(1))
    }
}

/// Parses escaped string content up to and including its closing quote;
/// yields the unescaped content and what follows the quote.
pub open spec fn parse_jstr(s: Seq<u8>) -> Option<(Seq<u8>, Seq<u8>)>
    decreases s.len(),
{
    if s.len() == 0 {
        None
    } else if s[0] == 34 {
        Some((Seq::empty(), s.skip(1)))
    } else if s[0] == 92 {
        if s.len() < 2 {
            None
        } else if s[1] == 34 || s[1] == 92 {
            match parse_jstr(s.skip(2)) {
                Some(p) => Some((seq![s[1]] + p.0, p.1)),
                None => None,
            }
        } else if s[1] == 117 {
            if s.len() < 6 {
                None
            } else if s[2] == 48 && s[3] == 48 && is_hex(s[4]) && is_hex(s[5]) {
                match parse_jstr(s.skip(6)) {
                    Some(p) => Some((seq![(hex_val(s[4]) * 16 + hex_val(s[5])) as u8] + p.0, p.1)),
                    None => None,
                }
            } else {
                None
            }
        } else {
            None
        }
    } else {
        match parse_jstr(s.skip(1)) {
            Some(p) => Some((seq![s[0]] + p.0, p.1)),
            None => None,
        }
    }
}

/// Splits off the longest leading run of decimal digits.
pub open spec fn split_digits(s: Seq<u8>) -> (Seq<u8>, Seq<u8>)
    decreases s.len(),
{
    if s.len() > 0 && is_digit(s[0]) {
        let p = split_digits(s.skip(1));
        (seq![s[0]] + p.0, p.1)
    } else {
        (Seq::empty(), s)
    }
}

/// The bytes of `{"sub":"`.
pub open spec fn json_head() -> Seq<u8> {
    seq![123u8, 34u8, 115u8, 117u8, 98u8, 34u8, 58u8, 34u8]
}

/// The bytes of `,"exp":` (the subject's closing quote is consumed by the
/// string parser and stands before this).
pub open spec fn json_mid1() -> Seq<u8> {
    seq![44u8, 34u8, 101u8, 120u8, 112u8, 34u8, 58u8]
}

/// The bytes of `,"iat":`.
pub open spec fn json_mid2() -> Seq<u8> {
    seq![44u8, 34u8, 105u8, 97u8, 116u8, 34u8, 58u8]
}

/// The serialized claims object for a subject (as UTF-8 bytes), expiry and
/// issued-at.
pub open spec fn spec_claims_json(sub: Seq<u8>, exp: u64, iat: u64) -> Seq<u8> {
    json_head() + esc_bytes(sub) + seq![34u8] + json_mid1() + dec_digits(exp) + json_mid2()
        + dec_digits(iat) + seq![125u8]
}

/// Parses a serialized claims object; `None` on any shape violation or a
/// number that does not fit in 64 bits.
pub open spec fn spec_parse_claims(s: Seq<u8>) -> Option<(Seq<u8>, u64, u64)> {
    if s.len() < 8 || s.take(8) != json_head() {
        None
    } else {
        match parse_jstr(s.skip(8)) {
            None => None,
            Some(p1) => {
                let sub = p1.0;
                let r1 = p1.1;
                if r1.len() < 7 || r1.take(7) != json_mid1() {
                    None
                } else {
                    let d1 = split_digits(r1.skip(7)).0;
                    let r2 = split_digits(r1.skip(7)).1;
                    if d1.len() == 0 || parse_nat(d1) > 0xffff_ffff_ffff_ffff {
                        None
                    } else if r2.len() < 7 || r2.take(7) != json_mid2() {
                        None
                    } else {
                        let d2 = split_digits(r2.skip(7)).0;
                        let r3 = split_digits(r2.skip(7)).1;
                        if d2.len() == 0 || parse_nat(d2) > 0xffff_ffff_ffff_ffff {
                            None
                        } else if r3 != seq![125u8] {
                            None
                        } else {
                            Some((sub, parse_nat(d1) as u64, parse_nat(d2) as u64))
                        }
                    }
                }
            },
        }
    }
}

/// The decimal digits of `n` are digits, at least one, and parse back to `n`.
pub proof fn lemma_dec_digits(n: u64)
    ensures
        all_digits(dec_digits(n)),
        dec_digits(n).len() >= 1,
        parse_nat(dec_digits(n)) == n,
    decreases n,
{
    if n < 10 {
        let d = dec_digits(n);
        assert(d == seq![(48 + n) as u8]);
        assert(d.drop_last() =~= Seq::<u8>::empty());
        assert(parse_nat(d.drop_last()) == 0);
        assert(parse_nat(d) == 0 * 10 + ((48 + n) as u8 - 48));
    } else {
        lemma_dec_digits(n / 10);
        let d = dec_digits(n);
        assert(d == dec_digits(n / 10) + seq![(48 + n % 10) as u8]);
        assert(d.drop_last() =~= dec_digits(n / 10));
        assert(d.last() == (48 + n % 10) as u8);
        assert(parse_nat(d) == (n / 10) * 10 + n % 10);
        assert((n / 10) * 10 + n % 10 == n) by (nonlinear_arith);
        assert forall|i: int| 0 <= i < d.len() implies is_digit(#[trigger] d[i]) by {
            if i < d.len() - 1 {
                assert(d[i] == dec_digits(n / 10)[i]);
            }
        }
    }
}

/// Digit strings parse to nonnegative values, monotone under extension.
pub proof fn lemma_parse_nat_nonneg(s: Seq<u8>)
    requires
        all_digits(s),
    ensures
        parse_nat(s) >= 0,
    decreases s.len(),
{
    if s.len() > 0 {
        assert(all_digits(s.drop_last())) by {
            assert(forall|i: int|
                0 <= i < s.len() - 1 ==> is_digit(#[trigger] s.drop_last()[i]) == is_digit(s[i]));
        }
        lemma_parse_nat_nonneg(s.drop_last());
    }
}

/// A prefix of a digit string parses to no more than the whole.
pub proof fn lemma_parse_nat_take_le(s: Seq<u8>, k: int)
    requires
        all_digits(s),
        0 <= k <= s.len(),
    ensures
        parse_nat(s.take(k)) <= parse_nat(s),
    decreases s.len() - k,
{
    if k == s.len() {
        assert(s.take(k) =~= s);
    } else {
        lemma_parse_nat_take_le(s, k + 1);
        let t = s.take(k + 1);
        assert(t.drop_last() =~= s.take(k));
        assert(t.last() == s[k]);
        assert(all_digits(s.take(k))) by {
            assert(forall|i: int|
                0 <= i < k ==> is_digit(#[trigger] s.take(k)[i]) == is_digit(s[i]));
        }
        lemma_parse_nat_nonneg(s.take(k));
        assert(parse_nat(t) == parse_nat(s.take(k)) * 10 + (s[k] - 48));
        assert(parse_nat(s.take(k)) <= parse_nat(t));
    }
}

/// What `split_digits` yields: a digit prefix, the untouched remainder, and
/// maximality (the remainder opens with a non-digit if it is non-empty).
pub proof fn lemma_split_digits(s: Seq<u8>)
    ensures
        ({
            let p = split_digits(s);
            &&& s =~= p.0 + p.1
            &&& all_digits(p.0)
            &&& p.0.len() <= s.len()
            &&& p.1 =~= s.skip(p.0.len() as int)
            &&& (p.1.len() == 0 || !is_digit(p.1[0]))
        }),
    decreases s.len(),
{
    if s.len() > 0 && is_digit(s[0]) {
        lemma_split_digits(s.skip(1));
        let q = split_digits(s.skip(1));
        let p = split_digits(s);
        assert(p.0 == seq![s[0]] + q.0);
        assert(p.1 == q.1);
        assert(s =~= seq![s[0]] + s.skip(1));
        assert(s =~= p.0 + p.1);
        assert(p.1 =~= s.skip(p.0.len() as int)) by {
            assert(s.skip(1).skip(q.0.len() as int) =~= s.skip(q.0.len() as int + 1));
        }
        assert forall|i: int| 0 <= i < p.0.len() implies is_digit(#[trigger] p.0[i]) by {
            if i >= 1 {
                assert(p.0[i] == q.0[i - 1]);
            }
        }
    }
}

/// A digit run followed by a non-digit splits exactly at the boundary.
pub proof fn lemma_split_digits_of(d: Seq<u8>, r: Seq<u8>)
    requires
        all_digits(d),
        r.len() == 0 || !is_digit(r[0]),
    ensures
        split_digits(d + r) == (d, r),
    decreases d.len(),
{
    if d.len() == 0 {
        assert(d + r =~= r);
        if r.len() == 0 {
            assert(split_digits(r) == (Seq::<u8>::empty(), r));
        }
        assert(split_digits(d + r).0 =~= d);
    } else {
        assert(all_digits(d.skip(1))) by {
            assert(forall|i: int|
                0 <= i < d.len() - 1 ==> is_digit(#[trigger] d.skip(1)[i]) == is_digit(d[i + 1]));
        }
        lemma_split_digits_of(d.skip(1), r);
        let s = d + r;
        assert(s[0] == d[0] && is_digit(s[0]));
        assert(s.skip(1) =~= d.skip(1) + r);
        let q = split_digits(s.skip(1));
        assert(q == (d.skip(1), r));
        assert(split_digits(s).0 =~= d);
        assert(split_digits(s).1 == r);
    }
}

/// Unescaping inverts escaping: escaped content followed by a closing quote
/// and arbitrary trailing bytes parses back to the content and the trailer.
pub proof fn lemma_esc_roundtrip(s: Seq<u8>, rest: Seq<u8>)
    ensures
        parse_jstr(esc_bytes(s) + seq![34u8] + rest) == Some((s, rest)),
    decreases s.len(),
{
    let whole = esc_bytes(s) + seq![34u8] + rest;
    if s.len() == 0 {
        assert(esc_bytes(s) =~= Seq::<u8>::empty());
        assert(whole =~= seq![34u8] + rest);
        assert(whole[0] == 34);
        assert(whole.skip(1) =~= rest);
        assert(parse_jstr(whole) == Some((Seq::<u8>::empty(), rest)));
        assert(s =~= Seq::<u8>::empty());
    } else {
        lemma_esc_roundtrip(s.skip(1), rest);
        let b = s[0];
        let tail = esc_bytes(s.skip(1)) + seq![34u8] + rest;
        assert(esc_bytes(s) == esc_byte(b) + esc_bytes(s.skip(1)));
        assert(whole =~= esc_byte(b) + tail);
        if b == 34 {
            assert(whole[0] == 92 && whole[1] == 34);
            assert(whole.skip(2) =~= tail);
            assert(parse_jstr(whole) == Some((seq![b] + s.skip(1), rest)));
        } else if b == 92 {
            assert(whole[0] == 92 && whole[1] == 92);
            assert(whole.skip(2) =~= tail);
            assert(parse_jstr(whole) == Some((seq![b] + s.skip(1), rest)));
        } else if b < 32 {
            assert(whole[0] == 92 && whole[1] == 117 && whole[2] == 48 && whole[3] == 48);
            assert(whole[4] == hex_digit(b >> 4) && whole[5] == hex_digit(b & 15));
            assert(b >> 4 < 16 && (b & 15) < 16) by (bit_vector);
            assert(is_hex(hex_digit(b >> 4)) && is_hex(hex_digit(b & 15)));
            assert(hex_val(hex_digit(b >> 4)) == b >> 4 && hex_val(hex_digit(b & 15)) == (b & 15));
            assert((b >> 4) * 16 + (b & 15) == b) by (bit_vector);
            assert(whole.skip(6) =~= tail);
            assert(parse_jstr(whole) == Some((seq![b] + s.skip(1), rest)));
        } else {
            assert(whole[0] == b && b != 34 && b != 92);
            assert(whole.skip(1) =~= tail);
            assert(parse_jstr(whole) == Some((seq![b] + s.skip(1), rest)));
        }
        assert(seq![b] + s.skip(1) =~= s);
    }
}

/// Parsing inverts serialization: the claims object round-trips exactly, for
/// every subject byte string and every pair of 64-bit numbers.
pub proof fn lemma_claims_roundtrip(sub: Seq<u8>, exp: u64, iat: u64)
    ensures
        spec_parse_claims(spec_claims_json(sub, exp, iat)) == Some((sub, exp, iat)),
{
    let s = spec_claims_json(sub, exp, iat);
    let rest1 = json_mid1() + dec_digits(exp) + json_mid2() + dec_digits(iat) + seq![125u8];
    lemma_dec_digits(exp);
    lemma_dec_digits(iat);
    assert(s.len() >= 8);
    assert(s.take(8) =~= json_head());
    assert(s.skip(8) =~= esc_bytes(sub) + seq![34u8] + rest1);
    lemma_esc_roundtrip(sub, rest1);
    assert(parse_jstr(s.skip(8)) == Some((sub, rest1)));
    assert(rest1.take(7) =~= json_mid1());
    let rest2 = json_mid2() + dec_digits(iat) + seq![125u8];
    assert(rest1.skip(7) =~= dec_digits(exp) + rest2);
    assert(!is_digit(rest2[0]));
    lemma_split_digits_of(dec_digits(exp), rest2);
    assert(split_digits(rest1.skip(7)) == (dec_digits(exp), rest2));
    assert(rest2.take(7) =~= json_mid2());
    let rest3 = seq![125u8];
    assert(rest2.skip(7) =~= dec_digits(iat) + rest3);
    assert(!is_digit(rest3[0]));
    lemma_split_digits_of(dec_digits(iat), rest3);
    assert(split_digits(rest2.skip(7)) == (dec_digits(iat), rest3));
    assert(parse_nat(dec_digits(exp)) == exp && parse_nat(dec_digits(iat)) == iat);
}

/// Appends the decimal digits of `n`.
pub fn push_dec(out: &mut Vec<u8>, n: u64)
    ensures
        final(out)@ == old(out)@ + dec_digits(n),
    decreases n,
{
    if n < 10 {
        out.push(48 + (n as u8));
        assert(out@ =~= old(out)@ + dec_digits(n));
    } else {
        push_dec(out, n / 10);
        out.push(48 + ((n % 10) as u8));
        assert(out@ =~= old(out)@ + (dec_digits(n / 10) + seq![(48 + n % 10) as u8]));
    }
}

/// Appends the JSON escaping of `s`.
pub fn push_escaped(out: &mut Vec<u8>, s: &[u8])
    ensures
        final(out)@ == old(out)@ + esc_bytes(s@),
{
    let n = s.len();
    let mut i: usize = 0;
    proof {
        assert(s@.skip(0) =~= s@);
    }
    while i < n
        invariant
            i <= n == s@.len(),
            out@ + esc_bytes(s@.skip(i as int)) == old(out)@ + esc_bytes(s@),
        decreases n - i,
    {
        let b = s[i];
        let ghost prev_out = out@;
        proof {
            assert(s@.skip(i as int)[0] == b);
            assert(s@.skip(i as int).skip(1) =~= s@.skip(i + 1));
            assert(esc_bytes(s@.skip(i as int)) == esc_byte(b) + esc_bytes(s@.skip(i + 1)));
        }
        if b == 34 {
            out.push(92);
            out.push(34);
        } else if b == 92 {
            out.push(92);
            out.push(92);
        } else if b < 32 {
            out.push(92);
            out.push(117);
            out.push(48);
            out.push(48);
            let hi = b >> 4;
            let lo = b & 15;
            proof {
                assert(b >> 4 < 16 && (b & 15) < 16) by (bit_vector);
            }
            out.push(if hi < 10 { 48 + hi } else { 87 + hi });
            out.push(if lo < 10 { 48 + lo } else { 87 + lo });
        } else {
            out.push(b);
        }
        proof {
            assert(out@ =~= prev_out + esc_byte(b));
            assert(out@ + esc_bytes(s@.skip(i + 1)) =~= prev_out + esc_bytes(s@.skip(i as int)));
        }
        i += 1;
    }
    proof {
        assert(s@.skip(n as int) =~= Seq::<u8>::empty());
        assert(out@ + esc_bytes(s@.skip(n as int)) =~= out@);
        assert(out@ =~= old(out)@ + esc_bytes(s@));
    }
}

/// Serializes the claims object for a subject given as UTF-8 bytes.
pub fn claims_to_json(sub: &[u8], exp: u64, iat: u64) -> (r: Vec<u8>)
    ensures
        r@ == spec_claims_json(sub@, exp, iat),
{
    let mut out: Vec<u8> = Vec::new();
    out.push(123);
    out.push(34);
    out.push(115);
    out.push(117);
    out.push(98);
    out.push(34);
    out.push(58);
    out.push(34);
    proof {
        assert(out@ =~= json_head());
    }
    push_escaped(&mut out, sub);
    let ghost after_sub = out@;
    out.push(34);
    out.push(44);
    out.push(34);
    out.push(101);
    out.push(120);
    out.push(112);
    out.push(34);
    out.push(58);
    proof {
        assert(out@ =~= after_sub + seq![34u8] + json_mid1());
    }
    push_dec(&mut out, exp);
    let ghost after_exp = out@;
    out.push(44);
    out.push(34);
    out.push(105);
    out.push(97);
    out.push(116);
    out.push(34);
    out.push(58);
    proof {
        assert(out@ =~= after_exp + json_mid2());
    }
    push_dec(&mut out, iat);
    out.push(125);
    proof {
        assert(out@ =~= spec_claims_json(sub@, exp, iat));
    }
    out
}

/// The numeric value of a hex digit byte.
fn hex_val_x(c: u8) -> (r: u8)
    requires
        is_hex(c),
    ensures
        r == hex_val(c),
        r < 16,
{
    if 48 <= c && c <= 57 {
        c - 48
    } else if 97 <= c && c <= 102 {
        c - 87
    } else {
        c - 55
    }
}

/// Parses escaped string content from `start` up to its closing quote,
/// mirroring [`parse_jstr`] on `s[start..]`.
fn parse_string(s: &[u8], start: usize) -> (r: Option<(Vec<u8>, usize)>)
    requires
        start <= s@.len(),
    ensures
        match r {
            Some(p) => start <= p.1 <= s@.len() && parse_jstr(s@.skip(start as int)) == Some(
                (p.0@, s@.skip(p.1 as int)),
            ),
            None => parse_jstr(s@.skip(start as int)) is None,
        },
{
    let n = s.len();
    let mut content: Vec<u8> = Vec::new();
    let mut pos: usize = start;
    while pos < n
        invariant
            start <= pos <= n == s@.len(),
            parse_jstr(s@.skip(start as int)) == match parse_jstr(s@.skip(pos as int)) {
                Some(q) => Some((content@ + q.0, q.1)),
                None => None::<(Seq<u8>, Seq<u8>)>,
            },
        decreases n - pos,
    {
        let b = s[pos];
        proof {
            assert(s@.skip(pos as int)[0] == b);
        }
        if b == 34 {
            proof {
                assert(s@.skip(pos as int).skip(1) =~= s@.skip(pos + 1));
                assert(parse_jstr(s@.skip(pos as int)) == Some(
                    (Seq::<u8>::empty(), s@.skip(pos + 1)),
                ));
                assert(content@ + Seq::<u8>::empty() =~= content@);
            }
            return Some((content, pos + 1));
        } else if b == 92 {
            if n - pos < 2 {
                proof {
                    assert(s@.skip(pos as int).len() < 2);
                }
                return None;
            }
            let c = s[pos + 1];
            proof {
                assert(s@.skip(pos as int)[1] == c);
            }
            if c == 34 || c == 92 {
                let ghost prev = content@;
                content.push(c);
                proof {
                    assert(s@.skip(pos as int).skip(2) =~= s@.skip(pos + 2));
                    assert(content@ =~= prev + seq![c]);
                    match parse_jstr(s@.skip(pos + 2)) {
                        Some(q) => {
                            assert(parse_jstr(s@.skip(pos as int)) == Some((seq![c] + q.0, q.1)));
                            assert(prev + (seq![c] + q.0) =~= content@ + q.0);
                        },
                        None => {},
                    }
                }
                pos += 2;
            } else if c == 117 {
                if n - pos < 6 {
                    proof {
                        assert(s@.skip(pos as int).len() < 6);
                    }
                    return None;
                }
                let h2 = s[pos + 2];
                let h3 = s[pos + 3];
                let h4 = s[pos + 4];
                let h5 = s[pos + 5];
                proof {
                    assert(s@.skip(pos as int)[2] == h2);
                    assert(s@.skip(pos as int)[3] == h3);
                    assert(s@.skip(pos as int)[4] == h4);
                    assert(s@.skip(pos as int)[5] == h5);
                }
                let hex4 = (48 <= h4 && h4 <= 57) || (97 <= h4 && h4 <= 102) || (65 <= h4 && h4
                    <= 70);
                let hex5 = (48 <= h5 && h5 <= 57) || (97 <= h5 && h5 <= 102) || (65 <= h5 && h5
                    <= 70);
                if h2 == 48 && h3 == 48 && hex4 && hex5 {
                    let v = hex_val_x(h4) * 16 + hex_val_x(h5);
                    let ghost prev = content@;
                    content.push(v);
                    proof {
                        assert(s@.skip(pos as int).skip(6) =~= s@.skip(pos + 6));
                        assert(content@ =~= prev + seq![v]);
                        match parse_jstr(s@.skip(pos + 6)) {
                            Some(q) => {
                                assert(parse_jstr(s@.skip(pos as int)) == Some(
                                    (seq![v] + q.0, q.1),
                                ));
                                assert(prev + (seq![v] + q.0) =~= content@ + q.0);
                            },
                            None => {},
                        }
                    }
                    pos += 6;
                } else {
                    return None;
                }
            } else {
                return None;
            }
        } else {
            let ghost prev = content@;
            content.push(b);
            proof {
                assert(s@.skip(pos as int).skip(1) =~= s@.skip(pos + 1));
                assert(content@ =~= prev + seq![b]);
                match parse_jstr(s@.skip(pos + 1)) {
                    Some(q) => {
                        assert(parse_jstr(s@.skip(pos as int)) == Some((seq![b] + q.0, q.1)));
                        assert(prev + (seq![b] + q.0) =~= content@ + q.0);
                    },
                    None => {},
                }
            }
            pos += 1;
        }
    }
    proof {
        assert(s@.skip(pos as int).len() == 0);
    }
    None
}

/// Parses the longest run of decimal digits from `start` as a 64-bit value,
/// mirroring [`split_digits`] and [`parse_nat`] on `s[start..]`.
fn parse_number(s: &[u8], start: usize) -> (r: Option<(u64, usize)>)
    requires
        start <= s@.len(),
    ensures
        match r {
            Some(p) => ({
                let d = split_digits(s@.skip(start as int)).0;
                &&& d.len() >= 1
                &&& parse_nat(d) <= 0xffff_ffff_ffff_ffff
                &&& p.0 == parse_nat(d)
                &&& p.1 == start + d.len()
            }),
            None => ({
                let d = split_digits(s@.skip(start as int)).0;
                d.len() == 0 || parse_nat(d) > 0xffff_ffff_ffff_ffff
            }),
        },
{
    let n = s.len();
    proof {
        lemma_split_digits(s@.skip(start as int));
    }
    let ghost d = split_digits(s@.skip(start as int)).0;
    let ghost tail = split_digits(s@.skip(start as int)).1;
    proof {
        assert forall|j: int| 0 <= j < d.len() implies s@[start + j] == #[trigger] d[j] by {
            assert(s@.skip(start as int)[j] == s@[start + j]);
            assert((d + tail)[j] == d[j]);
        }
    }
    let mut pos: usize = start;
    let mut acc: u64 = 0;
    while pos < n && 48 <= s[pos] && s[pos] <= 57
        invariant
            start <= pos <= n == s@.len(),
            pos - start <= d.len(),
            d == split_digits(s@.skip(start as int)).0,
            tail == split_digits(s@.skip(start as int)).1,
            s@.skip(start as int) =~= d + tail,
            all_digits(d),
            tail.len() == 0 || !is_digit(tail[0]),
            tail =~= s@.skip(start as int).skip(d.len() as int),
            forall|j: int| 0 <= j < d.len() ==> s@[start + j] == #[trigger] d[j],
            acc == parse_nat(d.take(pos - start)),
        decreases n - pos,
    {
        let k = pos - start;
        proof {
            if k >= d.len() {
                // Past the digit run its first byte is not a digit.
                assert(s@[pos as int] == tail[k - d.len()]);
                assert(k == d.len());
                assert(!is_digit(tail[0]));
                assert(false);
            }
            assert(d.take(k + 1).drop_last() =~= d.take(k as int));
            assert(d.take(k + 1).last() == d[k as int]);
        }
        let dv = s[pos] - 48;
        let acc10 = match acc.checked_mul(10) {
            Some(x) => x,
            None => {
                proof {
                    lemma_parse_nat_take_le(d, k + 1);
                }
                return None;
            },
        };
        let acc2 = match acc10.checked_add(dv as u64) {
            Some(x) => x,
            None => {
                proof {
                    lemma_parse_nat_take_le(d, k + 1);
                }
                return None;
            },
        };
        acc = acc2;
        pos += 1;
    }
    proof {
        let k = pos - start;
        if k < d.len() {
            // The loop can only have stopped at the end of the digit run.
            assert(s@[pos as int] == d[k]);
            assert(is_digit(d[k]));
            assert(start + d.len() <= n);
            assert(false);
        }
        assert(d.take(k as int) =~= d);
    }
    if pos == start {
        proof {
            assert(d.len() == 0);
        }
        None
    } else {
        Some((acc, pos))
    }
}

/// Whether `lit` occurs in `s` at position `pos`.
fn has_prefix(s: &[u8], pos: usize, lit: &[u8]) -> (r: bool)
    requires
        pos <= s@.len(),
    ensures
        r == (pos + lit@.len() <= s@.len() && s@.skip(pos as int).take(lit@.len() as int) == lit@),
{
    let m = lit.len();
    let n = s.len();
    if n - pos < m {
        return false;
    }
    let mut j: usize = 0;
    while j < m
        invariant
            j <= m == lit@.len(),
            n == s@.len(),
            pos + m <= n,
            forall|k: int| 0 <= k < j ==> s@[pos + k] == #[trigger] lit@[k],
        decreases m - j,
    {
        if s[pos + j] != lit[j] {
            proof {
                assert(s@.skip(pos as int).take(m as int)[j as int] == s@[pos + j]);
            }
            return false;
        }
        j += 1;
    }
    proof {
        assert(s@.skip(pos as int).take(m as int) =~= lit@);
    }
    true
}

/// The bytes of `{"sub":"` as a vector.
fn make_head() -> (r: Vec<u8>)
    ensures
        r@ == json_head(),
{
    let mut v: Vec<u8> = Vec::new();
    v.push(123);
    v.push(34);
    v.push(115);
    v.push(117);
    v.push(98);
    v.push(34);
    v.push(58);
    v.push(34);
    proof {
        assert(v@ =~= json_head());
    }
    v
}

/// The bytes of `,"exp":` as a vector.
fn make_mid1() -> (r: Vec<u8>)
    ensures
        r@ == json_mid1(),
{
    let mut v: Vec<u8> = Vec::new();
    v.push(44);
    v.push(34);
    v.push(101);
    v.push(120);
    v.push(112);
    v.push(34);
    v.push(58);
    proof {
        assert(v@ =~= json_mid1());
    }
    v
}

/// The bytes of `,"iat":` as a vector.
fn make_mid2() -> (r: Vec<u8>)
    ensures
        r@ == json_mid2(),
{
    let mut v: Vec<u8> = Vec::new();
    v.push(44);
    v.push(34);
    v.push(105);
    v.push(97);
    v.push(116);
    v.push(34);
    v.push(58);
    proof {
        assert(v@ =~= json_mid2());
    }
    v
}

/// Parses a serialized claims object back into subject bytes, expiry and
/// issued-at; refuses exactly what [`spec_parse_claims`] refuses.
#[verifier::rlimit(60)]
pub fn parse_claims(s: &[u8]) -> (r: Option<(Vec<u8>, u64, u64)>)
    ensures
        match r {
            Some(p) => spec_parse_claims(s@) == Some((p.0@, p.1, p.2)),
            None => spec_parse_claims(s@) is None,
        },
{
    let n = s.len();
    let head = make_head();
    proof {
        assert(s@.skip(0) =~= s@);
    }
    if !has_prefix(s, 0, head.as_slice()) {
        proof {
            if s@.len() >= 8 {
                assert(s@.skip(0).take(8) =~= s@.take(8));
            }
        }
        return None;
    }
    proof {
        assert(s@.skip(0).take(8) =~= s@.take(8));
    }
    let (sub, p1) = match parse_string(s, 8) {
        Some(x) => x,
        None => {
            return None;
        },
    };
    let ghost r1 = s@.skip(p1 as int);
    let mid1 = make_mid1();
    if !has_prefix(s, p1, mid1.as_slice()) {
        proof {
            if r1.len() >= 7 {
                assert(r1.take(7) == s@.skip(p1 as int).take(7));
            }
        }
        return None;
    }
    proof {
        assert(r1.take(7) == s@.skip(p1 as int).take(7));
        assert(r1.skip(7) =~= s@.skip(p1 + 7));
    }
    let (exp, p2) = match parse_number(s, p1 + 7) {
        Some(x) => x,
        None => {
            return None;
        },
    };
    proof {
        lemma_split_digits(s@.skip(p1 + 7));
        assert(split_digits(r1.skip(7)).1 =~= s@.skip(p2 as int));
    }
    let ghost r2 = split_digits(r1.skip(7)).1;
    let mid2 = make_mid2();
    if !has_prefix(s, p2, mid2.as_slice()) {
        proof {
            if r2.len() >= 7 {
                assert(r2.take(7) == s@.skip(p2 as int).take(7));
            }
        }
        return None;
    }
    proof {
        assert(r2.take(7) == s@.skip(p2 as int).take(7));
        assert(r2.skip(7) =~= s@.skip(p2 + 7));
    }
    let (iat, p3) = match parse_number(s, p2 + 7) {
        Some(x) => x,
        None => {
            return None;
        },
    };
    proof {
        lemma_split_digits(s@.skip(p2 + 7));
        assert(split_digits(r2.skip(7)).1 =~= s@.skip(p3 as int));
    }
    let ghost r3 = split_digits(r2.skip(7)).1;
    if n - p3 == 1 && s[p3] == 125 {
        proof {
            assert(r3 =~= seq![125u8]);
        }
        Some((sub, exp, iat))
    } else {
        proof {
            assert(r3 =~= s@.skip(p3 as int));
            if r3.len() == 1 {
                assert(r3[0] == s@[p3 as int]);
                assert(r3 != seq![125u8]);
            } else {
                assert(r3 != seq![125u8]);
            }
        }
        None
    }
}

} // verus!

