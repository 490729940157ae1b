//! Base64url (URL-safe alphabet, no padding) over byte strings: the segment
//! encoding of the credential wire format.

use vstd::prelude::*;

verus! {

/// The base64url alphabet: sextet `s` (0..63) to its ASCII byte.
pub open spec fn b64_char_of(s: u8) -> u8
    recommends
        s < 64,
{
    if s < 26 {
        (s + 65) as u8  // 'A'..'Z'
    } else if s < 52 {
        (s + 71) as u8  // 'a'..'z'
    } else if s < 62 {
        (s - 4) as u8  // '0'..'9'
    } else if s == 62 {
        45u8  // '-'
    } else {
        95u8  // '_'
    }
}

/// Whether a byte belongs to the base64url alphabet.
pub open spec fn is_b64_byte(c: u8) -> bool {
    (65 <= c <= 90) || (97 <= c <= 122) || (48 <= c <= 57) || c == 45 || c == 95
}

/// The inverse alphabet: alphabet byte back to its sextet.
pub open spec fn b64_val_of(c: u8) -> u8
    recommends
        is_b64_byte(c),
{
    if 65 <= c <= 90 {
        (c - 65) as u8
    } else if 97 <= c <= 122 {
        (c - 71) as u8
    } else if 48 <= c <= 57 {
        (c + 4) as u8
    } else if c == 45 {
        62u8
    } else {
        63u8
    }
}

/// Encoding of a full 3-byte group as 4 alphabet bytes.
pub open spec fn enc3(a: u8, b: u8, c: u8) -> Seq<u8> {
    seq![
        b64_char_of(a >> 2u8),
        b64_char_of(((a & 3) << 4u8) | (b >> 4u8)),
        b64_char_of(((b & 15) << 2u8) | (c >> 6u8)),
        b64_char_of(c & 63),
    ]
}

/// Encoding of a trailing 2-byte group as 3 alphabet bytes.
pub open spec fn enc2(a: u8, b: u8) -> Seq<u8> {
    seq![
        b64_char_of(a >> 2u8),
        b64_char_of(((a & 3) << 4u8) | (b >> 4u8)),
        b64_char_of((b & 15) << 2u8),
    ]
}

/// Encoding of a trailing single byte as 2 alphabet bytes.
pub open spec fn enc1(a: u8) -> Seq<u8> {
    seq![b64_char_of(a >> 2u8), b64_char_of((a & 3) << 4u8)]
}

/// Base64url encoding, no padding.
pub open spec fn spec_b64_encode(s: Seq<u8>) -> Seq<u8>
    decreases s.len(),
{
    if s.len() >= 3 {
        enc3(s[0], s[1], s[2]) + spec_b64_encode(s.skip(3))
    } else if s.len() == 2 {
        enc2(s[0], s[1])
    } else if s.len() == 1 {
        enc1(s[0])
    } else {
        Seq::<u8>::empty()
    }
}

/// Base64url decoding, strict: rejects non-alphabet bytes, a trailing group
/// of one, and non-canonical trailing bits.  Total as a specification;
/// `None` is a rejection.
pub open spec fn spec_b64_decode(s: Seq<u8>) -> Option<Seq<u8>>
    decreases s.len(),
{
    if s.len() == 0 {
        Some(Seq::<u8>::empty())
    } else if s.len() == 1 {
        None
    } else if s.len() == 2 {
        if is_b64_byte(s[0]) && is_b64_byte(s[1]) && b64_val_of(s[1]) & 15 == 0 {
            Some(seq![(b64_val_of(s[0]) << 2u8) | (b64_val_of(s[1]) >> 4u8)])
        } else {
            None
        }
    } else if s.len() == 3 {
        if is_b64_byte(s[0]) && is_b64_byte(s[1]) && is_b64_byte(s[2]) && b64_val_of(s[2]) & 3
            == 0 {
            Some(
                seq![
                    (b64_val_of(s[0]) << 2u8) | (b64_val_of(s[1]) >> 4u8),
                    ((b64_val_of(s[1]) & 15) << 4u8) | (b64_val_of(s[2]) >> 2u8),
                ],
            )
        } else {
            None
        }
    } else {
        if is_b64_byte(s[0]) && is_b64_byte(s[1]) && is_b64_byte(s[2]) && is_b64_byte(s[3]) {
            match spec_b64_decode(s.skip(4)) {
                Some(rest) => Some(
                    seq![
                        (b64_val_of(s[0]) << 2u8) | (b64_val_of(s[1]) >> 4u8),
                        ((b64_val_of(s[1]) & 15) << 4u8) | (b64_val_of(s[2]) >> 2u8),
                        ((b64_val_of(s[2]) & 3) << 6u8) | b64_val_of(s[3]),
                    ] + rest,
                ),
                None => None,
            }
        } else {
            None
        }
    }
}

/// The alphabet map is injective: mapping a sextet to its byte and back is
/// the identity, and the byte is in the alphabet.
pub proof fn lemma_b64_alphabet(s: u8)
    requires
        s < 64,
    ensures
        is_b64_byte(b64_char_of(s)),
        b64_val_of(b64_char_of(s)) == s,
{
}

/// Alphabet bytes are never `.` (46), `"` (34) or `\` (92): segments built
/// from them can be split on dots and embedded in the payload format.
pub proof fn lemma_b64_byte_not_delim(c: u8)
    requires
        is_b64_byte(c),
    ensures
        c != 46,
        c != 34,
        c != 92,
{
}

/// Every byte of an encoding is an alphabet byte.
pub proof fn lemma_encode_all_b64(s: Seq<u8>)
    ensures
        forall|i: int|
            0 <= i < spec_b64_encode(s).len() ==> is_b64_byte(#[trigger] spec_b64_encode(s)[i]),
    decreases s.len(),
{
    assert forall|s6: u8| s6 < 64 implies is_b64_byte(b64_char_of(s6)) by {
        lemma_b64_alphabet(s6);
    }
    if s.len() >= 3 {
        let a = s[0];
        let b = s[1];
        let c = s[2];
        assert(a >> 2u8 < 64 && ((a & 3) << 4u8) | (b >> 4u8) < 64 && ((b & 15) << 2u8) | (c
            >> 6u8) < 64 && c & 63 < 64) by (bit_vector);
        lemma_encode_all_b64(s.skip(3));
        assert forall|i: int| 0 <= i < spec_b64_encode(s).len() implies is_b64_byte(
            #[trigger] spec_b64_encode(s)[i],
        ) by {
            if i < 4 {
                assert(spec_b64_encode(s)[i] == enc3(a, b, c)[i]);
            } else {
                assert(spec_b64_encode(s)[i] == spec_b64_encode(s.skip(3))[i - 4]);
            }
        }
    } else if s.len() == 2 {
        let a = s[0];
        let b = s[1];
        assert(a >> 2u8 < 64 && ((a & 3) << 4u8) | (b >> 4u8) < 64 && (b & 15) << 2u8 < 64)
            by (bit_vector);
        assert forall|i: int| 0 <= i < spec_b64_encode(s).len() implies is_b64_byte(
            #[trigger] spec_b64_encode(s)[i],
        ) by {
            assert(spec_b64_encode(s)[i] == enc2(a, b)[i]);
        }
    } else if s.len() == 1 {
        let a = s[0];
        assert(a >> 2u8 < 64 && (a & 3) << 4u8 < 64) by (bit_vector);
        assert forall|i: int| 0 <= i < spec_b64_encode(s).len() implies is_b64_byte(
            #[trigger] spec_b64_encode(s)[i],
        ) by {
            assert(spec_b64_encode(s)[i] == enc1(a)[i]);
        }
    }
}

/// Decoding inverts encoding: the codec round-trips on every byte string.
pub proof fn lemma_b64_round_trip(s: Seq<u8>)
    ensures
        spec_b64_decode(spec_b64_encode(s)) == Some(s),
    decreases s.len(),
{
    assert forall|s6: u8| s6 < 64 implies is_b64_byte(b64_char_of(s6)) && b64_val_of(
        b64_char_of(s6),
    ) == s6 by {
        lemma_b64_alphabet(s6);
    }
    if s.len() == 0 {
        assert(spec_b64_decode(spec_b64_encode(s)) == Some(Seq::<u8>::empty()));
        assert(s =~= Seq::<u8>::empty());
    } else if s.len() == 1 {
        let a = s[0];
        assert(a >> 2u8 < 64 && (a & 3) << 4u8 < 64) by (bit_vector);
        assert(((a & 3) << 4u8) & 15 == 0 && ((a >> 2u8) << 2u8) | (((a & 3) << 4u8) >> 4u8)
            == a) by (bit_vector);
        assert(spec_b64_decode(spec_b64_encode(s)) == Some(seq![a]));
        assert(s =~= seq![a]);
    } else if s.len() == 2 {
        let a = s[0];
        let b = s[1];
        assert(a >> 2u8 < 64 && ((a & 3) << 4u8) | (b >> 4u8) < 64 && (b & 15) << 2u8 < 64)
            by (bit_vector);
        assert(((b & 15) << 2u8) & 3 == 0 && ((a >> 2u8) << 2u8) | ((((a & 3) << 4u8) | (b
            >> 4u8)) >> 4u8) == a && (((((a & 3) << 4u8) | (b >> 4u8)) & 15) << 4u8) | (((b & 15)
            << 2u8) >> 2u8) == b) by (bit_vector);
        assert(spec_b64_decode(spec_b64_encode(s)) == Some(seq![a, b]));
        assert(s =~= seq![a, b]);
    } else {
        let a = s[0];
        let b = s[1];
        let c = s[2];
        let rest = s.skip(3);
        lemma_b64_round_trip(rest);
        lemma_encode_all_b64(rest);
        assert(a >> 2u8 < 64 && ((a & 3) << 4u8) | (b >> 4u8) < 64 && ((b & 15) << 2u8) | (c
            >> 6u8) < 64 && c & 63 < 64) by (bit_vector);
        assert(((a >> 2u8) << 2u8) | ((((a & 3) << 4u8) | (b >> 4u8)) >> 4u8) == a
            && (((((a & 3) << 4u8) | (b >> 4u8)) & 15) << 4u8) | (((((b & 15) << 2u8) | (c
            >> 6u8))) >> 2u8) == b && ((((((b & 15) << 2u8) | (c >> 6u8))) & 3) << 6u8) | (c & 63)
            == c) by (bit_vector);
        let e = spec_b64_encode(s);
        let erest = spec_b64_encode(rest);
        assert(e == enc3(a, b, c) + erest);
        assert(e.len() == 4 + erest.len());
        assert(e[0] == enc3(a, b, c)[0] && e[1] == enc3(a, b, c)[1] && e[2] == enc3(a, b, c)[2]
            && e[3] == enc3(a, b, c)[3]);
        assert(e.skip(4) =~= erest);
        // the trailing group of the encoding is never of length 1, so the
        // four-byte branch of the decoder applies.
        if erest.len() == 0 {
            assert(rest.len() == 0 || rest.len() >= 1);
            if rest.len() >= 3 {
                assert(erest.len() >= 4);
            }
        }
        assert(e.len() != 1 && e.len() != 2 && e.len() != 3) by {
            if rest.len() == 0 {
                assert(erest.len() == 0);
            }
        }
        assert(spec_b64_decode(e) == Some(
            seq![
                (b64_val_of(e[0]) << 2u8) | (b64_val_of(e[1]) >> 4u8),
                ((b64_val_of(e[1]) & 15) << 4u8) | (b64_val_of(e[2]) >> 2u8),
                ((b64_val_of(e[2]) & 3) << 6u8) | b64_val_of(e[3]),
            ] + rest,
        ));
        assert(seq![a, b, c] + rest =~= s);
    }
}

fn b64_char_enc(s: u8) -> (r: u8)
    requires
        s < 64,
    ensures
        r == b64_char_of(s),
{
    if s < 26 {
        s + 65
    } else if s < 52 {
        s + 71
    } else if s < 62 {
        s - 4
    } else if s == 62 {
        45
    } else {
        95
    }
}

fn b64_val_dec(c: u8) -> (r: Option<u8>)
    ensures
        is_b64_byte(c) ==> r == Some(b64_val_of(c)),
        !is_b64_byte(c) ==> r is None,
{
    if 65 <= c && c <= 90 {
        Some(c - 65)
    } else if 97 <= c && c <= 122 {
        Some(c - 71)
    } else if 48 <= c && c <= 57 {
        Some(c + 4)
    } else if c == 45 {
        Some(62)
    } else if c == 95 {
        Some(63)
    } else {
        None
    }
}

/// Encodes a byte string in base64url without padding.
pub fn b64_encode(input: &[u8]) -> (out: Vec<u8>)
    ensures
        out@ == spec_b64_encode(input@),
{
    let n = input.len();
    let mut out: Vec<u8> = Vec::new();
    let mut i: usize = 0;
    proof {
        assert(input@.skip(0) =~= input@);
        assert(out@ + spec_b64_encode(input@) =~= spec_b64_encode(input@));
    }
    while n - i >= 3
        invariant
            i <= n == input@.len(),
            spec_b64_encode(input@) == out@ + spec_b64_encode(input@.skip(i as int)),
        decreases n - i,
    {
        let a = input[i];
        let b = input[i + 1];
        let c = input[i + 2];
        let ghost out0 = out@;
        proof {
            assert(a >> 2u8 < 64 && ((a & 3) << 4u8) | (b >> 4u8) < 64 && ((b & 15) << 2u8) | (c
                >> 6u8) < 64 && c & 63 < 64) by (bit_vector);
            assert(input@.skip(i as int).len() >= 3);
            assert(input@.skip(i as int)[0] == a && input@.skip(i as int)[1] == b && input@.skip(
                i as int,
            )[2] == c);
            assert(input@.skip(i as int).skip(3) =~= input@.skip(i + 3));
        }
        out.push(b64_char_enc(a >> 2));
        out.push(b64_char_enc(((a & 3) << 4) | (b >> 4)));
        out.push(b64_char_enc(((b & 15) << 2) | (c >> 6)));
        out.push(b64_char_enc(c & 63));
        proof {
            assert(out@ =~= out0 + enc3(a, b, c));
            assert(out0 + (enc3(a, b, c) + spec_b64_encode(input@.skip(i + 3))) =~= (out0 + enc3(
                a,
                b,
                c,
            )) + spec_b64_encode(input@.skip(i + 3)));
        }
        i += 3;
    }
    if n - i == 2 {
        let a = input[i];
        let b = input[i + 1];
        let ghost out0 = out@;
        proof {
            assert(a >> 2u8 < 64 && ((a & 3) << 4u8) | (b >> 4u8) < 64 && (b & 15) << 2u8 < 64)
                by (bit_vector);
            assert(input@.skip(i as int) =~= seq![a, b]);
        }
        out.push(b64_char_enc(a >> 2));
        out.push(b64_char_enc(((a & 3) << 4) | (b >> 4)));
        out.push(b64_char_enc((b & 15) << 2));
        proof {
            assert(out@ =~= out0 + enc2(a, b));
        }
    } else if n - i == 1 {
        let a = input[i];
        let ghost out0 = out@;
        proof {
            assert(a >> 2u8 < 64 && (a & 3) << 4u8 < 64) by (bit_vector);
            assert(input@.skip(i as int) =~= seq![a]);
        }
        out.push(b64_char_enc(a >> 2));
        out.push(b64_char_enc((a & 3) << 4));
        proof {
            assert(out@ =~= out0 + enc1(a));
        }
    } else {
        proof {
            assert(input@.skip(i as int) =~= Seq::<u8>::empty());
            assert(out@ + Seq::<u8>::empty() =~= out@);
        }
    }
    out
}

/// Decodes a base64url byte string without padding; rejects exactly what
/// `spec_b64_decode` rejects.
pub fn b64_decode(input: &[u8]) -> (r: Option<Vec<u8>>)
    ensures
        match spec_b64_decode(input@) {
            Some(d) => r matches Some(v) && v@ == d,
            None => r is None,
        },
{
    let n = input.len();
    let mut out: Vec<u8> = Vec::new();
    let mut i: usize = 0;
    proof {
        assert(input@.skip(0) =~= input@);
        if spec_b64_decode(input@) is Some {
            assert(out@ + spec_b64_decode(input@)->Some_0 =~= spec_b64_decode(input@)->Some_0);
        }
    }
    while n - i >= 4
        invariant
            i <= n == input@.len(),
            match spec_b64_decode(input@.skip(i as int)) {
                Some(d) => spec_b64_decode(input@) == Some(out@ + d),
                None => spec_b64_decode(input@) is None,
            },
        decreases n - i,
    {
        proof {
            assert(input@.skip(i as int).len() >= 4);
            assert(input@.skip(i as int)[0] == input@[i as int] && input@.skip(i as int)[1]
                == input@[i as int + 1] && input@.skip(i as int)[2] == input@[i as int + 2]
                && input@.skip(i as int)[3] == input@[i as int + 3]);
            assert(input@.skip(i as int).skip(4) =~= input@.skip(i + 4));
        }
        let v0 = match b64_val_dec(input[i]) {
            Some(v) => v,
            None => {
                return None;
            },
        };
        let v1 = match b64_val_dec(input[i + 1]) {
            Some(v) => v,
            None => {
                return None;
            },
        };
        let v2 = match b64_val_dec(input[i + 2]) {
            Some(v) => v,
            None => {
                return None;
            },
        };
        let v3 = match b64_val_dec(input[i + 3]) {
            Some(v) => v,
            None => {
                return None;
            },
        };
        let ghost out0 = out@;
        let ghost group = seq![
            (v0 << 2u8) | (v1 >> 4u8),
            ((v1 & 15) << 4u8) | (v2 >> 2u8),
            ((v2 & 3) << 6u8) | v3,
        ];
        out.push((v0 << 2) | (v1 >> 4));
        out.push(((v1 & 15) << 4) | (v2 >> 2));
        out.push(((v2 & 3) << 6) | v3);
        proof {
            assert(out@ =~= out0 + group);
            match spec_b64_decode(input@.skip(i + 4)) {
                Some(d) => {
                    assert(spec_b64_decode(input@.skip(i as int)) == Some(group + d));
                    assert(out0 + (group + d) =~= (out0 + group) + d);
                },
                None => {},
            }
        }
        i += 4;
    }
    let rem = n - i;
    if rem == 0 {
        proof {
            assert(input@.skip(i as int) =~= Seq::<u8>::empty());
            assert(out@ + Seq::<u8>::empty() =~= out@);
        }
        Some(out)
    } else if rem == 2 {
        proof {
            assert(input@.skip(i as int) =~= seq![input@[i as int], input@[i as int + 1]]);
        }
        let v0 = match b64_val_dec(input[i]) {
            Some(v) => v,
            None => {
                return None;
            },
        };
        let v1 = match b64_val_dec(input[i + 1]) {
            Some(v) => v,
            None => {
                return None;
            },
        };
        if v1 & 15 != 0 {
            return None;
        }
        let ghost out0 = out@;
        out.push((v0 << 2) | (v1 >> 4));
        proof {
            assert(out@ =~= out0 + seq![(v0 << 2u8) | (v1 >> 4u8)]);
        }
        Some(out)
    } else if rem == 3 {
        proof {
            assert(input@.skip(i as int) =~= seq![
                input@[i as int],
                input@[i as int + 1],
                input@[i as int + 2],
            ]);
        }
        let v0 = match b64_val_dec(input[i]) {
            Some(v) => v,
            None => {
                return None;
            },
        };
        let v1 = match b64_val_dec(input[i + 1]) {
            Some(v) => v,
            None => {
                return None;
            },
        };
        let v2 = match b64_val_dec(input[i + 2]) {
            Some(v) => v,
            None => {
                return None;
            },
        };
        if v2 & 3 != 0 {
            return None;
        }
        let ghost out0 = out@;
        out.push((v0 << 2) | (v1 >> 4));
        out.push(((v1 & 15) << 4) | (v2 >> 2));
        proof {
            assert(out@ =~= out0 + seq![
                (v0 << 2u8) | (v1 >> 4u8),
                ((v1 & 15) << 4u8) | (v2 >> 2u8),
            ]);
        }
        Some(out)
    } else {
        proof {
            assert(input@.skip(i as int).len() == 1);
        }
        None
    }
}

} // verus!
