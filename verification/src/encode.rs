//! Base64 (RFC 4648, standard alphabet, no padding) over byte strings.
//! Encoding produces ASCII byte values; decoding walks characters and
//! rejects anything outside the alphabet, a lone trailing character, and
//! non-canonical trailing bits.

use vstd::prelude::*;

verus! {

/// The ASCII byte of the alphabet character for a 6-bit value.
pub open spec fn spec_b64_byte(v: u8) -> u8 {
    if v < 26 {
        (65 + v) as u8
    } else if v < 52 {
        (97 + (v - 26)) as u8
    } else if v < 62 {
        (48 + (v - 52)) as u8
    } else if v == 62 {
        43u8
    } else {
        47u8
    }
}

/// The 6-bit value of an alphabet character, or `None` outside the alphabet.
pub open spec fn spec_b64_val(c: char) -> Option<u8> {
    let u = c as u32;
    if 65 <= u <= 90 {
        Some((u - 65) as u8)
    } else if 97 <= u <= 122 {
        Some((u - 71) as u8)
    } else if 48 <= u <= 57 {
        Some((u + 4) as u8)
    } else if u == 43 {
        Some(62u8)
    } else if u == 47 {
        Some(63u8)
    } else {
        None
    }
}

/// The encoding of a byte string, as ASCII byte values: full groups of
/// three bytes yield four characters; a tail of one or two bytes yields
/// two or three.
pub open spec fn spec_b64_bytes(s: Seq<u8>) -> Seq<u8>
    decreases s.len(),
{
    if s.len() == 0 {
        Seq::empty()
    } else if s.len() == 1 {
        seq![spec_b64_byte(s[0] / 4), spec_b64_byte(((s[0] % 4) * 16) as u8)]
    } else if s.len() == 2 {
        seq![
            spec_b64_byte(s[0] / 4),
            spec_b64_byte(((s[0] % 4) * 16 + s[1] / 16) as u8),
            spec_b64_byte(((s[1] % 16) * 4) as u8),
        ]
    } else {
        seq![
            spec_b64_byte(s[0] / 4),
            spec_b64_byte(((s[0] % 4) * 16 + s[1] / 16) as u8),
            spec_b64_byte(((s[1] % 16) * 4 + s[2] / 64) as u8),
            spec_b64_byte((s[2] % 64) as u8),
        ] + spec_b64_bytes(s.subrange(3, s.len() as int))
    }
}

/// The encoding as characters, for contracts over strings.
pub open spec fn spec_b64_chars(s: Seq<u8>) -> Seq<char> {
    spec_b64_bytes(s).map_values(|b: u8| b as char)
}

/// The decoding of a character string: `None` for anything the encoder
/// cannot have produced.
pub open spec fn spec_b64_decode(s: Seq<char>) -> Option<Seq<u8>>
    decreases s.len(),
{
    if s.len() == 0 {
        Some(Seq::empty())
    } else if s.len() == 1 {
        None
    } else if s.len() == 2 {
        if spec_b64_val(s[0]) is Some && spec_b64_val(s[1]) is Some && spec_b64_val(s[1])->0 % 16
            == 0 {
            Some(seq![(spec_b64_val(s[0])->0 * 4 + spec_b64_val(s[1])->0 / 16) as u8])
        } else {
            None
        }
    } else if s.len() == 3 {
        if spec_b64_val(s[0]) is Some && spec_b64_val(s[1]) is Some && spec_b64_val(s[2]) is Some
            && spec_b64_val(s[2])->0 % 4 == 0 {
            Some(
                seq![
                    (spec_b64_val(s[0])->0 * 4 + spec_b64_val(s[1])->0 / 16) as u8,
                    ((spec_b64_val(s[1])->0 % 16) * 16 + spec_b64_val(s[2])->0 / 4) as u8,
                ],
            )
        } else {
            None
        }
    } else {
        if spec_b64_val(s[0]) is Some && spec_b64_val(s[1]) is Some && spec_b64_val(s[2]) is Some
            && spec_b64_val(s[3]) is Some {
            match spec_b64_decode(s.subrange(4, s.len() as int)) {
                Some(rest) => Some(
                    seq![
                        (spec_b64_val(s[0])->0 * 4 + spec_b64_val(s[1])->0 / 16) as u8,
                        ((spec_b64_val(s[1])->0 % 16) * 16 + spec_b64_val(s[2])->0 / 4) as u8,
                        ((spec_b64_val(s[2])->0 % 4) * 64 + spec_b64_val(s[3])->0) as u8,
                    ] + rest,
                ),
                None => None,
            }
        } else {
            None
        }
    }
}

/// The decoder reads back exactly the value the encoder wrote.
proof fn lemma_b64_val_byte(v: u8)
    requires
        v < 64,
    ensures
        spec_b64_val(spec_b64_byte(v) as char) == Some(v),
{
}

/// Decoding inverts encoding: every byte string comes back from its own
/// base64 text.
pub proof fn lemma_b64_roundtrip(s: Seq<u8>)
    ensures
        spec_b64_decode(spec_b64_chars(s)) == Some(s),
    decreases s.len(),
{
    let enc = spec_b64_chars(s);
    if s.len() == 0 {
        assert(enc.len() == 0);
        assert(spec_b64_decode(enc)->0 =~= s);
    } else if s.len() == 1 {
        let a = s[0];
        assert(enc.len() == 2);
        assert(enc[0] == spec_b64_byte(a / 4) as char);
        assert(enc[1] == spec_b64_byte(((a % 4) * 16) as u8) as char);
        lemma_b64_val_byte(a / 4);
        lemma_b64_val_byte(((a % 4) * 16) as u8);
        assert(((a % 4) * 16) % 16 == 0 && (a / 4) * 4 + ((a % 4) * 16) / 16 == a) by (bit_vector);
        assert(spec_b64_decode(enc) is Some);
        assert(spec_b64_decode(enc)->0 =~= s);
    } else if s.len() == 2 {
        let a = s[0];
        let b = s[1];
        assert(enc.len() == 3);
        assert(enc[0] == spec_b64_byte(a / 4) as char);
        assert(enc[1] == spec_b64_byte(((a % 4) * 16 + b / 16) as u8) as char);
        assert(enc[2] == spec_b64_byte(((b % 16) * 4) as u8) as char);
        lemma_b64_val_byte(a / 4);
        lemma_b64_val_byte(((a % 4) * 16 + b / 16) as u8);
        lemma_b64_val_byte(((b % 16) * 4) as u8);
        assert(((b % 16) * 4) % 4 == 0 && (a / 4) * 4 + ((a % 4) * 16 + b / 16) / 16 == a && ((
        (a % 4) * 16 + b / 16) % 16) * 16 + ((b % 16) * 4) / 4 == b) by (bit_vector);
        assert(spec_b64_decode(enc) is Some);
        assert(spec_b64_decode(enc)->0 =~= s);
    } else {
        let a = s[0];
        let b = s[1];
        let c = s[2];
        let rest = s.subrange(3, s.len() as int);
        lemma_b64_roundtrip(rest);
        assert(spec_b64_bytes(s) == seq![
            spec_b64_byte(a / 4),
            spec_b64_byte(((a % 4) * 16 + b / 16) as u8),
            spec_b64_byte(((b % 16) * 4 + c / 64) as u8),
            spec_b64_byte((c % 64) as u8),
        ] + spec_b64_bytes(rest));
        assert(enc.len() == spec_b64_bytes(s).len());
        assert(enc.subrange(4, enc.len() as int) =~= spec_b64_chars(rest));
        assert(enc[0] == spec_b64_byte(a / 4) as char);
        assert(enc[1] == spec_b64_byte(((a % 4) * 16 + b / 16) as u8) as char);
        assert(enc[2] == spec_b64_byte(((b % 16) * 4 + c / 64) as u8) as char);
        assert(enc[3] == spec_b64_byte((c % 64) as u8) as char);
        lemma_b64_val_byte(a / 4);
        lemma_b64_val_byte(((a % 4) * 16 + b / 16) as u8);
        lemma_b64_val_byte(((b % 16) * 4 + c / 64) as u8);
        lemma_b64_val_byte((c % 64) as u8);
        assert((a / 4) * 4 + ((a % 4) * 16 + b / 16) / 16 == a && (((a % 4) * 16 + b / 16) % 16)
            * 16 + ((b % 16) * 4 + c / 64) / 4 == b && (((b % 16) * 4 + c / 64) % 4) * 64 + (c
            % 64) == c) by (bit_vector);
        assert(enc.len() >= 4);
        assert(spec_b64_decode(enc) is Some);
        assert(spec_b64_decode(enc)->0 =~= s);
    }
}

fn b64_byte(v: u8) -> (r: u8)
    requires
        v < 64,
    ensures
        r == spec_b64_byte(v),
{
    if v < 26 {
        65 + v
    } else if v < 52 {
        97 + (v - 26)
    } else if v < 62 {
        48 + (v - 52)
    } else if v == 62 {
        43
    } else {
        47
    }
}

fn b64_val(c: char) -> (r: Option<u8>)
    ensures
        r == spec_b64_val(c),
{
    let u = c as u32;
    if 65 <= u && u <= 90 {
        Some((u - 65) as u8)
    } else if 97 <= u && u <= 122 {
        Some((u - 71) as u8)
    } else if 48 <= u && u <= 57 {
        Some((u + 4) as u8)
    } else if u == 43 {
        Some(62)
    } else if u == 47 {
        Some(63)
    } else {
        None
    }
}

/// Encode a byte string; the result holds the ASCII values of the base64
/// characters.
pub fn b64_encode(s: &[u8]) -> (r: Vec<u8>)
    ensures
        r@ == spec_b64_bytes(s@),
{
    let len = s.len();
    let mut out: Vec<u8> = Vec::new();
    let mut i: usize = 0;
    proof {
        assert(s@.subrange(0, len as int) =~= s@);
        assert(out@ + spec_b64_bytes(s@) =~= spec_b64_bytes(s@));
    }
    while len - i >= 3
        invariant
            i <= len,
            len == s@.len(),
            i % 3 == 0,
            spec_b64_bytes(s@) == out@ + spec_b64_bytes(s@.subrange(i as int, len as int)),
        decreases len - i,
    {
        let ghost rem_before = s@.subrange(i as int, len as int);
        out.push(b64_byte(s[i] / 4));
        out.push(b64_byte((s[i] % 4) * 16 + s[i + 1] / 16));
        out.push(b64_byte((s[i + 1] % 16) * 4 + s[i + 2] / 64));
        out.push(b64_byte(s[i + 2] % 64));
        proof {
            assert(rem_before.subrange(3, rem_before.len() as int) =~= s@.subrange(
                i + 3,
                len as int,
            ));
            assert(rem_before[0] == s@[i as int] && rem_before[1] == s@[i + 1] && rem_before[2]
                == s@[i + 2]);
            assert(spec_b64_bytes(s@) =~= out@ + spec_b64_bytes(s@.subrange(i + 3, len as int)));
        }
        i = i + 3;
    }
    let ghost tail = s@.subrange(i as int, len as int);
    if len - i == 1 {
        out.push(b64_byte(s[i] / 4));
        out.push(b64_byte((s[i] % 4) * 16));
        proof {
            assert(tail.len() == 1 && tail[0] == s@[i as int]);
            assert(spec_b64_bytes(s@) =~= out@);
        }
    } else if len - i == 2 {
        out.push(b64_byte(s[i] / 4));
        out.push(b64_byte((s[i] % 4) * 16 + s[i + 1] / 16));
        out.push(b64_byte((s[i + 1] % 16) * 4));
        proof {
            assert(tail.len() == 2 && tail[0] == s@[i as int] && tail[1] == s@[i + 1]);
            assert(spec_b64_bytes(s@) =~= out@);
        }
    } else {
        proof {
            assert(tail.len() == 0);
            assert(spec_b64_bytes(s@) =~= out@);
        }
    }
    out
}

/// Decode the characters `s[from..to]` of a string.
pub fn b64_decode_range(s: &str, from: usize, to: usize) -> (r: Option<Vec<u8>>)
    requires
        from <= to <= s@.len(),
    ensures
        match r {
            Some(v) => spec_b64_decode(s@.subrange(from as int, to as int)) == Some(v@),
            None => spec_b64_decode(s@.subrange(from as int, to as int)) is None,
        },
{
    let ghost whole = s@.subrange(from as int, to as int);
    let mut out: Vec<u8> = Vec::new();
    let mut i: usize = from;
    proof {
        if spec_b64_decode(whole) is Some {
            assert(out@ + spec_b64_decode(whole)->0 =~= spec_b64_decode(whole)->0);
        }
    }
    while to - i >= 4
        invariant
            from <= i <= to <= s@.len(),
            whole == s@.subrange(from as int, to as int),
            (spec_b64_decode(whole) is Some) == (spec_b64_decode(
                s@.subrange(i as int, to as int),
            ) is Some),
            spec_b64_decode(whole) is Some ==> spec_b64_decode(whole)->0 == out@
                + spec_b64_decode(s@.subrange(i as int, to as int))->0,
        decreases to - i,
    {
        let ghost rem = s@.subrange(i as int, to as int);
        let v0 = b64_val(s.get_char(i));
        let v1 = b64_val(s.get_char(i + 1));
        let v2 = b64_val(s.get_char(i + 2));
        let v3 = b64_val(s.get_char(i + 3));
        proof {
            assert(rem[0] == s@[i as int] && rem[1] == s@[i + 1] && rem[2] == s@[i + 2] && rem[3]
                == s@[i + 3]);
            assert(rem.subrange(4, rem.len() as int) =~= s@.subrange(i + 4, to as int));
        }
        match (v0, v1, v2, v3) {
            (Some(a), Some(b), Some(c), Some(d)) => {
                let ghost out_before = out@;
                out.push(a * 4 + b / 16);
                out.push((b % 16) * 16 + c / 4);
                out.push((c % 4) * 64 + d);
                proof {
                    if spec_b64_decode(whole) is Some {
                        let rest = spec_b64_decode(s@.subrange(i + 4, to as int))->0;
                        assert(spec_b64_decode(rem)->0 =~= seq![
                            (a * 4 + b / 16) as u8,
                            ((b % 16) * 16 + c / 4) as u8,
                            ((c % 4) * 64 + d) as u8,
                        ] + rest);
                        assert(out_before + spec_b64_decode(rem)->0 =~= out@ + rest);
                    }
                }
            },
            _ => {
                proof {
                    assert(spec_b64_decode(rem) is None);
                }
                return None;
            },
        }
        i = i + 4;
    }
    let ghost tail = s@.subrange(i as int, to as int);
    if i == to {
        proof {
            assert(tail.len() == 0);
            if spec_b64_decode(whole) is Some {
                assert(spec_b64_decode(whole)->0 =~= out@);
            }
        }
        Some(out)
    } else if to - i == 1 {
        proof {
            assert(tail.len() == 1);
        }
        None
    } else if to - i == 2 {
        let v0 = b64_val(s.get_char(i));
        let v1 = b64_val(s.get_char(i + 1));
        proof {
            assert(tail.len() == 2 && tail[0] == s@[i as int] && tail[1] == s@[i + 1]);
        }
        match (v0, v1) {
            (Some(a), Some(b)) => {
                if b % 16 == 0 {
                    let ghost out_before = out@;
                    out.push(a * 4 + b / 16);
                    proof {
                        assert(spec_b64_decode(tail)->0 =~= seq![(a * 4 + b / 16) as u8]);
                        if spec_b64_decode(whole) is Some {
                            assert(spec_b64_decode(whole)->0 =~= out@);
                        }
                    }
                    Some(out)
                } else {
                    None
                }
            },
            _ => None,
        }
    } else {
        let v0 = b64_val(s.get_char(i));
        let v1 = b64_val(s.get_char(i + 1));
        let v2 = b64_val(s.get_char(i + 2));
        proof {
            assert(tail.len() == 3 && tail[0] == s@[i as int] && tail[1] == s@[i + 1] && tail[2]
                == s@[i + 2]);
        }
        match (v0, v1, v2) {
            (Some(a), Some(b), Some(c)) => {
                if c % 4 == 0 {
                    let ghost out_before = out@;
                    out.push(a * 4 + b / 16);
                    out.push((b % 16) * 16 + c / 4);
                    proof {
                        assert(spec_b64_decode(tail)->0 =~= seq![
                            (a * 4 + b / 16) as u8,
                            ((b % 16) * 16 + c / 4) as u8,
                        ]);
                        if spec_b64_decode(whole) is Some {
                            assert(spec_b64_decode(whole)->0 =~= out@);
                        }
                    }
                    Some(out)
                } else {
                    None
                }
            },
            _ => None,
        }
    }
}

} // verus!
