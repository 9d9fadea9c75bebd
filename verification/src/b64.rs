//! A verified base64url codec (URL-safe alphabet, no padding), the framing
//! used for the payload of session tokens. Decoding is proved to invert
//! encoding exactly.

use vstd::prelude::*;

verus! {

/// The base64url alphabet: the byte standing for the 6-bit value `v`.
pub open spec fn b64_char(v: u8) -> u8
    recommends
        v < 64,
{
    if v < 26 {
        (65 + v) as u8
    } else if v < 52 {
        (97 + (v - 26)) as u8
    } else if v < 62 {
        (48 + (v - 52)) as u8
    } else if v == 62 {
        45u8
    } else {
        95u8
    }
}

/// The 6-bit value of an alphabet byte, or 255 for a byte outside the
/// alphabet.
pub open spec fn b64_val(c: u8) -> u8 {
    if 65 <= c && c <= 90 {
        (c - 65) as u8
    } else if 97 <= c && c <= 122 {
        (26 + (c - 97)) as u8
    } else if 48 <= c && c <= 57 {
        (52 + (c - 48)) as u8
    } else if c == 45 {
        62u8
    } else if c == 95 {
        63u8
    } else {
        255u8
    }
}

pub open spec fn is_b64_byte(c: u8) -> bool {
    b64_val(c) < 64
}

/// Encoding of a byte string: groups of three bytes become four alphabet
/// bytes; a trailing group of one or two bytes becomes two or three.
pub open spec fn spec_b64_encode(s: Seq<u8>) -> Seq<u8>
    decreases s.len(),
{
    if s.len() == 0 {
        Seq::empty()
    } else if s.len() == 1 {
        let b0 = s[0];
        seq![b64_char(b0 >> 2), b64_char((b0 & 3) << 4)]
    } else if s.len() == 2 {
        let b0 = s[0];
        let b1 = s[1];
        seq![b64_char(b0 >> 2), b64_char(((b0 & 3) << 4) | (b1 >> 4)), b64_char((b1 & 15) << 2)]
    } else {
        let b0 = s[0];
        let b1 = s[1];
        let b2 = s[2];
        seq![
            b64_char(b0 >> 2),
            b64_char(((b0 & 3) << 4) | (b1 >> 4)),
            b64_char(((b1 & 15) << 2) | (b2 >> 6)),
            b64_char(b2 & 63),
        ] + spec_b64_encode(s.skip(3))
    }
}

/// Decoding of a byte string; `None` when the length or any byte is not one
/// the encoder can produce.
pub open spec fn spec_b64_decode(s: Seq<u8>) -> Option<Seq<u8>>
    decreases s.len(),
{
    if s.len() == 0 {
        Some(Seq::empty())
    } else if s.len() == 1 {
        None
    } else if s.len() == 2 {
        let v0 = b64_val(s[0]);
        let v1 = b64_val(s[1]);
        if v0 < 64 && v1 < 64 && (v1 & 15) == 0 {
            Some(seq![(v0 << 2) | (v1 >> 4)])
        } else {
            None
        }
    } else if s.len() == 3 {
        let v0 = b64_val(s[0]);
        let v1 = b64_val(s[1]);
        let v2 = b64_val(s[2]);
        if v0 < 64 && v1 < 64 && v2 < 64 && (v2 & 3) == 0 {
            Some(seq![(v0 << 2) | (v1 >> 4), ((v1 & 15) << 4) | (v2 >> 2)])
        } else {
            None
        }
    } else {
        let v0 = b64_val(s[0]);
        let v1 = b64_val(s[1]);
        let v2 = b64_val(s[2]);
        let v3 = b64_val(s[3]);
        if v0 < 64 && v1 < 64 && v2 < 64 && v3 < 64 {
            match spec_b64_decode(s.skip(4)) {
                Some(rest) => Some(
                    seq![
                        (v0 << 2) | (v1 >> 4),
                        ((v1 & 15) << 4) | (v2 >> 2),
                        ((v2 & 3) << 6) | v3,
                    ] + rest,
                ),
                None => None,
            }
        } else {
            None
        }
    }
}

/// Alphabet bytes are printable ASCII and never a dot, and the alphabet map
/// inverts on all 6-bit values.
pub proof fn lemma_b64_alphabet()
    ensures
        forall|v: u8| v < 64 ==> b64_val(#[trigger] b64_char(v)) == v,
        forall|c: u8| #[trigger] is_b64_byte(c) ==> c < 128 && c != 46,
{
}

/// Every byte of an encoding is an alphabet byte.
pub proof fn lemma_b64_encode_in_alphabet(s: Seq<u8>)
    ensures
        forall|i: int|
            0 <= i < spec_b64_encode(s).len() ==> is_b64_byte(#[trigger] spec_b64_encode(s)[i]),
    decreases s.len(),
{
    lemma_b64_alphabet();
    if s.len() == 0 {
    } else if s.len() == 1 {
        let b0 = s[0];
        assert(b0 >> 2 < 64 && (b0 & 3) << 4 < 64) by (bit_vector);
    } else if s.len() == 2 {
        let b0 = s[0];
        let b1 = s[1];
        assert(b0 >> 2 < 64 && (((b0 & 3) << 4) | (b1 >> 4)) < 64 && ((b1 & 15) << 2) < 64)
            by (bit_vector);
    } else {
        let b0 = s[0];
        let b1 = s[1];
        let b2 = s[2];
        assert(b0 >> 2 < 64 && (((b0 & 3) << 4) | (b1 >> 4)) < 64 && ((((b1 & 15) << 2) | (b2
            >> 6))) < 64 && (b2 & 63) < 64) by (bit_vector);
        lemma_b64_encode_in_alphabet(s.skip(3));
        let chunk = seq![
            b64_char(b0 >> 2),
            b64_char(((b0 & 3) << 4) | (b1 >> 4)),
            b64_char(((b1 & 15) << 2) | (b2 >> 6)),
            b64_char(b2 & 63),
        ];
        let e = spec_b64_encode(s);
        assert(e == chunk + spec_b64_encode(s.skip(3)));
        assert forall|i: int| 0 <= i < e.len() implies is_b64_byte(e[i]) by {
            if i >= 4 {
                assert(e[i] == spec_b64_encode(s.skip(3))[i - 4]);
            }
        }
    }
}

/// Decoding inverts encoding: the round trip returns the original bytes.
pub proof fn lemma_b64_roundtrip(s: Seq<u8>)
    ensures
        spec_b64_decode(spec_b64_encode(s)) == Some(s),
    decreases s.len(),
{
    lemma_b64_alphabet();
    if s.len() == 0 {
        assert(spec_b64_encode(s) =~= Seq::<u8>::empty());
        assert(spec_b64_decode(spec_b64_encode(s)) == Some(s)) by {
            assert(s =~= Seq::<u8>::empty());
        }
    } else if s.len() == 1 {
        let b0 = s[0];
        assert(((b0 >> 2) << 2) | (((b0 & 3) << 4) >> 4) == b0) by (bit_vector);
        assert((((b0 & 3) << 4) & 15) == 0) by (bit_vector);
        assert(b0 >> 2 < 64 && (b0 & 3) << 4 < 64) by (bit_vector);
        let e = spec_b64_encode(s);
        assert(e.len() == 2);
        assert(spec_b64_decode(e) == Some(seq![b0]));
        assert(seq![b0] =~= s);
    } else if s.len() == 2 {
        let b0 = s[0];
        let b1 = s[1];
        assert(b0 >> 2 < 64 && (((b0 & 3) << 4) | (b1 >> 4)) < 64 && ((b1 & 15) << 2) < 64)
            by (bit_vector);
        assert((((b1 & 15) << 2) & 3) == 0) by (bit_vector);
        assert(((b0 >> 2) << 2) | ((((b0 & 3) << 4) | (b1 >> 4)) >> 4) == b0) by (bit_vector);
        assert(((((b0 & 3) << 4) | (b1 >> 4)) & 15) << 4 | (((b1 & 15) << 2) >> 2) == b1)
            by (bit_vector);
        let e = spec_b64_encode(s);
        assert(e.len() == 3);
        assert(spec_b64_decode(e) == Some(seq![b0, b1]));
        assert(seq![b0, b1] =~= s);
    } else {
        let b0 = s[0];
        let b1 = s[1];
        let b2 = s[2];
        lemma_b64_roundtrip(s.skip(3));
        let c0 = b64_char(b0 >> 2);
        let c1 = b64_char(((b0 & 3) << 4) | (b1 >> 4));
        let c2 = b64_char(((b1 & 15) << 2) | (b2 >> 6));
        let c3 = b64_char(b2 & 63);
        let head = seq![c0, c1, c2, c3];
        let tail = spec_b64_encode(s.skip(3));
        let e = spec_b64_encode(s);
        assert(e =~= head + tail);
        assert(b0 >> 2 < 64 && (((b0 & 3) << 4) | (b1 >> 4)) < 64 && ((((b1 & 15) << 2) | (b2
            >> 6))) < 64 && (b2 & 63) < 64) by (bit_vector);
        // The four 6-bit values recombine into the three original bytes.
        assert(((b0 >> 2) << 2) | ((((b0 & 3) << 4) | (b1 >> 4)) >> 4) == b0) by (bit_vector);
        assert((((((b0 & 3) << 4) | (b1 >> 4)) & 15) << 4) | ((((b1 & 15) << 2) | (b2 >> 6)) >> 2)
            == b1) by (bit_vector);
        assert((((((b1 & 15) << 2) | (b2 >> 6)) & 3) << 6) | (b2 & 63) == b2) by (bit_vector);
        if tail.len() == 0 {
            assert(s.skip(3) =~= Seq::<u8>::empty());
            assert(e.len() == 4);
            assert(e.skip(4) =~= Seq::<u8>::empty());
            assert(spec_b64_decode(e.skip(4)) == Some(Seq::<u8>::empty()));
            assert(spec_b64_decode(e) == Some(seq![b0, b1, b2] + Seq::<u8>::empty()));
            assert(seq![b0, b1, b2] + Seq::<u8>::empty() =~= s);
        } else {
            assert(e.len() >= 4 + 2);
            assert(e[0] == c0 && e[1] == c1 && e[2] == c2 && e[3] == c3);
            assert(e.skip(4) =~= tail);
            assert(spec_b64_decode(tail) == Some(s.skip(3)));
            assert(spec_b64_decode(e) == Some(seq![b0, b1, b2] + s.skip(3)));
            assert(seq![b0, b1, b2] + s.skip(3) =~= s);
        }
    }
}

/// The executable alphabet map.
fn b64_char_x(v: u8) -> (r: u8)
    requires
        v < 64,
    ensures
        r == b64_char(v),
{
    if v < 26 {
        65 + v
    } else if v < 52 {
        97 + (v - 26)
    } else if v < 62 {
        48 + (v - 52)
    } else if v == 62 {
        45
    } else {
        95
    }
}

/// The executable inverse alphabet map (255 outside the alphabet).
fn b64_val_x(c: u8) -> (r: u8)
    ensures
        r == b64_val(c),
{
    if 65 <= c && c <= 90 {
        c - 65
    } else if 97 <= c && c <= 122 {
        26 + (c - 97)
    } else if 48 <= c && c <= 57 {
        52 + (c - 48)
    } else if c == 45 {
        62
    } else if c == 95 {
        63
    } else {
        255
    }
}

/// Encodes a byte string as base64url text (as raw ASCII bytes).
pub fn b64_encode(s: &[u8]) -> (r: Vec<u8>)
    ensures
        r@ == spec_b64_encode(s@),
{
    let n = s.len();
    let mut out: Vec<u8> = Vec::new();
    let mut i: usize = 0;
    proof {
        assert(s@.skip(0) =~= s@);
        assert(Seq::<u8>::empty() + spec_b64_encode(s@) =~= spec_b64_encode(s@));
    }
    while n - i >= 3
        invariant
            i <= n == s@.len(),
            out@ + spec_b64_encode(s@.skip(i as int)) == spec_b64_encode(s@),
        decreases n - i,
    {
        let b0 = s[i];
        let b1 = s[i + 1];
        let b2 = s[i + 2];
        proof {
            assert(b0 >> 2 < 64 && (((b0 & 3) << 4) | (b1 >> 4)) < 64 && ((((b1 & 15) << 2) | (b2
                >> 6))) < 64 && (b2 & 63) < 64) by (bit_vector);
            assert(s@.skip(i as int).len() >= 3);
            assert(s@.skip(i as int)[0] == b0);
            assert(s@.skip(i as int)[1] == b1);
            assert(s@.skip(i as int)[2] == b2);
            assert(s@.skip(i as int).skip(3) =~= s@.skip(i + 3));
        }
        let ghost prev_out = out@;
        out.push(b64_char_x(b0 >> 2));
        out.push(b64_char_x(((b0 & 3) << 4) | (b1 >> 4)));
        out.push(b64_char_x(((b1 & 15) << 2) | (b2 >> 6)));
        out.push(b64_char_x(b2 & 63));
        proof {
            let chunk = seq![
                b64_char(b0 >> 2),
                b64_char(((b0 & 3) << 4) | (b1 >> 4)),
                b64_char(((b1 & 15) << 2) | (b2 >> 6)),
                b64_char(b2 & 63),
            ];
            assert(out@ =~= prev_out + chunk);
            assert(spec_b64_encode(s@.skip(i as int)) == chunk + spec_b64_encode(s@.skip(i + 3)));
            assert(out@ + spec_b64_encode(s@.skip(i + 3)) =~= prev_out + spec_b64_encode(
                s@.skip(i as int),
            ));
        }
        i += 3;
    }
    if n - i == 1 {
        let b0 = s[i];
        proof {
            assert(b0 >> 2 < 64 && (b0 & 3) << 4 < 64) by (bit_vector);
            assert(s@.skip(i as int).len() == 1);
            assert(s@.skip(i as int)[0] == b0);
        }
        out.push(b64_char_x(b0 >> 2));
        out.push(b64_char_x((b0 & 3) << 4));
        proof {
            assert(out@ =~= spec_b64_encode(s@));
        }
    } else if n - i == 2 {
        let b0 = s[i];
        let b1 = s[i + 1];
        proof {
            assert(b0 >> 2 < 64 && (((b0 & 3) << 4) | (b1 >> 4)) < 64 && ((b1 & 15) << 2) < 64)
                by (bit_vector);
            assert(s@.skip(i as int).len() == 2);
            assert(s@.skip(i as int)[0] == b0);
            assert(s@.skip(i as int)[1] == b1);
        }
        out.push(b64_char_x(b0 >> 2));
        out.push(b64_char_x(((b0 & 3) << 4) | (b1 >> 4)));
        out.push(b64_char_x((b1 & 15) << 2));
        proof {
            assert(out@ =~= spec_b64_encode(s@));
        }
    } else {
        proof {
            assert(s@.skip(i as int).len() == 0);
            assert(spec_b64_encode(s@.skip(i as int)) =~= Seq::<u8>::empty());
            assert(out@ =~= spec_b64_encode(s@));
        }
    }
    out
}

/// Decodes base64url text (raw ASCII bytes); `None` exactly where the spec
/// decoder refuses.
pub fn b64_decode(s: &[u8]) -> (r: Option<Vec<u8>>)
    ensures
        match r {
            Some(v) => spec_b64_decode(s@) == Some(v@),
            None => spec_b64_decode(s@) is None,
        },
{
    let n = s.len();
    let mut out: Vec<u8> = Vec::new();
    let mut i: usize = 0;
    proof {
        assert(s@.skip(0) =~= s@);
        if spec_b64_decode(s@) is Some {
            assert(Seq::<u8>::empty() + spec_b64_decode(s@).unwrap() =~= spec_b64_decode(
                s@,
            ).unwrap());
        }
    }
    while n - i >= 4
        invariant
            i <= n == s@.len(),
            spec_b64_decode(s@) == match spec_b64_decode(s@.skip(i as int)) {
                Some(rest) => Some(out@ + rest),
                None => None::<Seq<u8>>,
            },
        decreases n - i,
    {
        proof {
            assert(s@.skip(i as int).len() >= 4);
            assert(s@.skip(i as int)[0] == s@[i as int]);
            assert(s@.skip(i as int)[1] == s@[i + 1]);
            assert(s@.skip(i as int)[2] == s@[i + 2]);
            assert(s@.skip(i as int)[3] == s@[i + 3]);
            assert(s@.skip(i as int).skip(4) =~= s@.skip(i + 4));
        }
        let v0 = b64_val_x(s[i]);
        let v1 = b64_val_x(s[i + 1]);
        let v2 = b64_val_x(s[i + 2]);
        let v3 = b64_val_x(s[i + 3]);
        if v0 < 64 && v1 < 64 && v2 < 64 && v3 < 64 {
            let ghost prev_out = out@;
            out.push((v0 << 2) | (v1 >> 4));
            out.push(((v1 & 15) << 4) | (v2 >> 2));
            out.push(((v2 & 3) << 6) | v3);
            proof {
                let chunk = seq![
                    (v0 << 2) | (v1 >> 4),
                    ((v1 & 15) << 4) | (v2 >> 2),
                    ((v2 & 3) << 6) | v3,
                ];
                assert(out@ =~= prev_out + chunk);
                match spec_b64_decode(s@.skip(i + 4)) {
                    Some(rest) => {
                        assert(spec_b64_decode(s@.skip(i as int)) == Some(chunk + rest));
                        assert(prev_out + (chunk + rest) =~= out@ + rest);
                    },
                    None => {
                        assert(spec_b64_decode(s@.skip(i as int)) is None);
                    },
                }
            }
            i += 4;
        } else {
            return None;
        }
    }
    if i == n {
        proof {
            assert(s@.skip(i as int).len() == 0);
            assert(spec_b64_decode(s@.skip(i as int)) == Some(Seq::<u8>::empty()));
            assert(out@ + Seq::<u8>::empty() =~= out@);
        }
        Some(out)
    } else if n - i == 1 {
        None
    } else if n - i == 2 {
        proof {
            assert(s@.skip(i as int).len() == 2);
            assert(s@.skip(i as int)[0] == s@[i as int]);
            assert(s@.skip(i as int)[1] == s@[i + 1]);
        }
        let v0 = b64_val_x(s[i]);
        let v1 = b64_val_x(s[i + 1]);
        if v0 < 64 && v1 < 64 && (v1 & 15) == 0 {
            let ghost prev_out = out@;
            out.push((v0 << 2) | (v1 >> 4));
            proof {
                assert(out@ =~= prev_out + seq![(v0 << 2) | (v1 >> 4)]);
            }
            Some(out)
        } else {
            None
        }
    } else {
        proof {
            assert(s@.skip(i as int).len() == 3);
            assert(s@.skip(i as int)[0] == s@[i as int]);
            assert(s@.skip(i as int)[1] == s@[i + 1]);
            assert(s@.skip(i as int)[2] == s@[i + 2]);
        }
        let v0 = b64_val_x(s[i]);
        let v1 = b64_val_x(s[i + 1]);
        let v2 = b64_val_x(s[i + 2]);
        if v0 < 64 && v1 < 64 && v2 < 64 && (v2 & 3) == 0 {
            let ghost prev_out = out@;
            out.push((v0 << 2) | (v1 >> 4));
            out.push(((v1 & 15) << 4) | (v2 >> 2));
            proof {
                assert(out@ =~= prev_out + seq![(v0 << 2) | (v1 >> 4), ((v1 & 15) << 4) | (v2 >> 2)]);
            }
            Some(out)
        } else {
            None
        }
    }
}

} // verus!
