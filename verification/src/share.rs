//! The share record and its text form `K-ID-BASE64(payload)`: `K` is the
//! threshold and `ID` the share identifier, both in decimal; the payload is
//! the binary share record, carrying the data bytes and, for a signed
//! share, the signature entries and the Merkle inclusion proof.

use vstd::prelude::*;
use crate::encode::{spec_b64_bytes, spec_b64_decode, b64_encode, b64_decode_range};
use crate::errors::Error;
use crate::wire::{
    spec_share_payload, spec_parse_payload, spec_proof_root, opt_view, encode_share_payload,
    parse_share_payload, proof_root,
};
use vstd::string::StringExecFns;
use vstd::string::StrSliceExecFns;

verus! {

/// A signature carried by a share: the one-time signature entries and the
/// wire bytes of the Merkle inclusion proof that binds them to a root.
#[derive(Clone, Debug)]
pub struct SignaturePair {
    /// The one-time signature, one byte vector per message bit block.
    pub signature: Vec<Vec<u8>>,
    /// The inclusion proof, in its wire form; its first field is the root.
    pub proof: Vec<u8>,
}

/// A share: its identifier (the abscissa of the evaluations it carries),
/// the threshold it was dealt under, one data byte per secret byte, and an
/// optional signature.
#[derive(Clone, Debug)]
pub struct Share {
    /// The share identifier, in `[1, 255]`; doubles as the x-coordinate.
    pub id: u8,
    /// The threshold needed to recover the secret.
    pub k: u8,
    /// One evaluation byte per byte of the (enveloped) secret.
    pub data: Vec<u8>,
    /// The signature and inclusion proof, when the share is signed.
    pub signature_pair: Option<SignaturePair>,
}

/// The ASCII digits of a byte in decimal, without leading zeros.
pub open spec fn spec_u8_dec(n: u8) -> Seq<u8> {
    if n < 10 {
        seq![(48 + n) as u8]
    } else if n < 100 {
        seq![(48 + n / 10) as u8, (48 + n % 10) as u8]
    } else {
        seq![(48 + n / 100) as u8, (48 + (n / 10) % 10) as u8, (48 + n % 10) as u8]
    }
}

/// The value of an ASCII digit character.
pub open spec fn spec_digit(c: char) -> Option<u8> {
    let u = c as u32;
    if 48 <= u <= 57 {
        Some((u - 48) as u8)
    } else {
        None
    }
}

/// Parse one to three decimal digits as a byte; anything else is `None`.
pub open spec fn spec_parse_u8(s: Seq<char>) -> Option<u8> {
    if s.len() == 1 {
        spec_digit(s[0])
    } else if s.len() == 2 {
        if spec_digit(s[0]) is Some && spec_digit(s[1]) is Some {
            Some((spec_digit(s[0])->0 * 10 + spec_digit(s[1])->0) as u8)
        } else {
            None
        }
    } else if s.len() == 3 {
        if spec_digit(s[0]) is Some && spec_digit(s[1]) is Some && spec_digit(s[2]) is Some
            && spec_digit(s[0])->0 * 100 + spec_digit(s[1])->0 * 10 + spec_digit(s[2])->0 <= 255 {
            Some((spec_digit(s[0])->0 * 100 + spec_digit(s[1])->0 * 10 + spec_digit(s[2])->0) as u8)
        } else {
            None
        }
    } else {
        None
    }
}

/// The position of the first dash at or after `from`, or the length.
pub open spec fn spec_first_dash(s: Seq<char>, from: int) -> int
    decreases s.len() - from,
{
    if from < 0 || from >= s.len() {
        s.len() as int
    } else if s[from] == '-' {
        from
    } else {
        spec_first_dash(s, from + 1)
    }
}

/// Split a share string at its two dashes and read the threshold, the
/// identifier, and the decoded payload. `None` when the string does not
/// have exactly three fields, a number is out of range or zero, or the
/// payload is not base64.
pub open spec fn spec_header(s: Seq<char>) -> Option<(u8, u8, Seq<u8>)> {
    let d1 = spec_first_dash(s, 0);
    let d2 = spec_first_dash(s, d1 + 1);
    let d3 = spec_first_dash(s, d2 + 1);
    if d1 >= s.len() || d2 >= s.len() || d3 < s.len() {
        None
    } else {
        let k_opt = spec_parse_u8(s.subrange(0, d1));
        let i_opt = spec_parse_u8(s.subrange(d1 + 1, d2));
        let p_opt = spec_b64_decode(s.subrange(d2 + 1, s.len() as int));
        if k_opt is Some && i_opt is Some && p_opt is Some && k_opt->0 >= 1 && i_opt->0 >= 1 {
            Some((k_opt->0, i_opt->0, p_opt->0))
        } else {
            None
        }
    }
}

/// The fully parsed form of a share string: threshold, identifier, data,
/// and, when parsing a signed share, the signature entries and proof
/// bytes. `None` for any malformed input.
pub open spec fn spec_share_ok(s: Seq<char>, is_signed: bool) -> Option<
    (u8, u8, Seq<u8>, Option<(Seq<Seq<u8>>, Seq<u8>)>),
> {
    match spec_header(s) {
        Some((k, id, payload)) => match spec_parse_payload(payload) {
            Some((data, sigs, prf)) => if is_signed {
                if sigs.len() > 0 && prf is Some && spec_proof_root(prf->0) is Some {
                    Some((k, id, data, Some((sigs, prf->0))))
                } else {
                    None
                }
            } else {
                Some((k, id, data, None))
            },
            None => None,
        },
        None => None,
    }
}

/// Whether a share record holds exactly the parsed fields.
pub open spec fn spec_share_fields(
    sh: Share,
    m: (u8, u8, Seq<u8>, Option<(Seq<Seq<u8>>, Seq<u8>)>),
    is_signed: bool,
) -> bool {
    &&& sh.k == m.0
    &&& sh.id == m.1
    &&& sh.data@ == m.2
    &&& (if is_signed {
        sh.signature_pair is Some && (sh.signature_pair->0).signature@.map_values(
            |v: Vec<u8>| v@,
        ) == (m.3->0).0 && (sh.signature_pair->0).proof@ == (m.3->0).1
    } else {
        sh.signature_pair is None
    })
}

/// The byte form of a share line: decimal threshold, dash, decimal
/// identifier, dash, base64 of the payload.
pub open spec fn spec_share_text(k: u8, id: u8, payload: Seq<u8>) -> Seq<u8> {
    spec_u8_dec(k) + seq![45u8] + spec_u8_dec(id) + seq![45u8] + spec_b64_bytes(payload)
}

/// Which error parsing one line reports: a malformed line, an
/// undecodable payload, a missing signature, or an unreadable proof root.
pub open spec fn spec_parse_err_matches(s: Seq<char>, is_signed: bool, idx: u8, e: Error) -> bool {
    if spec_header(s) is None {
        e matches Error::ShareParsing(i, rw) && i == idx && rw@ == s
    } else {
        let payload = (spec_header(s)->0).2;
        if spec_parse_payload(payload) is None {
            e == Error::CorruptedShare(idx)
        } else {
            let sigs = (spec_parse_payload(payload)->0).1;
            let prf = (spec_parse_payload(payload)->0).2;
            if is_signed && (sigs.len() == 0 || prf is None) {
                e == Error::MissingSignature(idx)
            } else if is_signed && spec_proof_root(prf->0) is None {
                e == Error::CorruptedShare(idx)
            } else {
                false
            }
        }
    }
}

/// The first failing string, or the count when all parse.
pub open spec fn spec_first_bad(strs: Seq<Seq<char>>, is_signed: bool, from: int) -> int
    decreases strs.len() - from,
{
    if from < 0 || from >= strs.len() {
        strs.len() as int
    } else if spec_share_ok(strs[from], is_signed) is None {
        from
    } else {
        spec_first_bad(strs, is_signed, from + 1)
    }
}

/// The records are exactly the parsed forms of the given lines.
pub open spec fn spec_parsed_from(
    lines: Seq<String>,
    parsed: Seq<Share>,
    verify_signatures: bool,
) -> bool {
    &&& parsed.len() == lines.len()
    &&& (forall|i: int|
        0 <= i < parsed.len() ==> spec_share_ok(
            #[trigger] lines[i]@,
            verify_signatures,
        ) is Some && spec_share_fields(
            parsed[i],
            spec_share_ok(lines[i]@, verify_signatures)->0,
            verify_signatures,
        ))
}

/// The first failing position lies within the batch.
pub proof fn lemma_first_bad_bounded(strs: Seq<Seq<char>>, is_signed: bool, from: int)
    requires
        0 <= from <= strs.len(),
    ensures
        from <= spec_first_bad(strs, is_signed, from) <= strs.len() as int,
    decreases strs.len() - from,
{
    if from < strs.len() {
        lemma_first_bad_bounded(strs, is_signed, from + 1);
    }
}

/// Every string before `upto` parses, and the records before `upto` hold
/// exactly the parsed fields.
pub open spec fn spec_parsed_prefix(
    views: Seq<Seq<char>>,
    out: Seq<Share>,
    upto: int,
    is_signed: bool,
) -> bool {
    forall|i: int|
        0 <= i < upto ==> (#[trigger] spec_share_ok(views[i], is_signed)) is Some
            && spec_share_fields(out[i], spec_share_ok(views[i], is_signed)->0, is_signed)
}

/// The first dash sits exactly where the first dash byte sits.
proof fn lemma_first_dash_at(s: Seq<char>, from: int, pos: int)
    requires
        0 <= from <= pos <= s.len(),
        forall|l: int| from <= l < pos ==> s[l] != '-',
        pos == s.len() || s[pos] == '-',
    ensures
        spec_first_dash(s, from) == pos,
    decreases pos - from,
{
    if from < pos {
        lemma_first_dash_at(s, from + 1, pos);
    }
}

/// Decimal digits read back to the value they were printed from.
proof fn lemma_dec_roundtrip(n: u8)
    ensures
        spec_parse_u8(spec_u8_dec(n).map_values(|b: u8| b as char)) == Some(n),
{
    let s = spec_u8_dec(n).map_values(|b: u8| b as char);
    if n < 10 {
        assert(s[0] == (48 + n) as u8 as char);
    } else if n < 100 {
        assert(s[0] == (48 + n / 10) as u8 as char);
        assert(s[1] == (48 + n % 10) as u8 as char);
        assert((n / 10) * 10 + n % 10 == n) by (bit_vector);
    } else {
        assert(s[0] == (48 + n / 100) as u8 as char);
        assert(s[1] == (48 + (n / 10) % 10) as u8 as char);
        assert(s[2] == (48 + n % 10) as u8 as char);
        assert((n / 100) * 100 + ((n / 10) % 10) * 10 + n % 10 == n && n / 100 <= 9 && (n / 10)
            % 10 <= 9) by (bit_vector);
    }
}

/// The text of a share line splits at its two dashes and reads back to
/// exactly the threshold, the identifier, and the payload it was printed
/// from.
pub proof fn lemma_share_text_header(k: u8, id: u8, payload: Seq<u8>)
    requires
        1 <= k,
        1 <= id,
    ensures
        spec_header(spec_share_text(k, id, payload).map_values(|b: u8| b as char)) == Some(
            (k, id, payload),
        ),
{
    let text = spec_share_text(k, id, payload);
    let s = text.map_values(|b: u8| b as char);
    let dk = spec_u8_dec(k);
    let di = spec_u8_dec(id);
    let enc = spec_b64_bytes(payload);
    let a = dk.len() as int;
    let b = a + 1 + di.len() as int;
    assert(text == dk + seq![45u8] + di + seq![45u8] + enc);
    assert(s.len() == text.len());
    assert forall|l: int| 0 <= l < a implies s[l] != '-' by {
        assert(text[l] == dk[l]);
        assert(48 <= dk[l] <= 57);
        assert(s[l] == dk[l] as char);
    }
    assert(text[a] == 45u8);
    assert(s[a] == 45u8 as char);
    assert(s[a] == '-');
    assert forall|l: int| a + 1 <= l < b implies s[l] != '-' by {
        assert(text[l] == di[l - (a + 1)]);
        assert(48 <= di[l - (a + 1)] <= 57);
        assert(s[l] == di[l - (a + 1)] as char);
    }
    assert(text[b] == 45u8);
    assert(s[b] == '-');
    assert forall|l: int| b + 1 <= l < s.len() implies s[l] != '-' by {
        assert(text[l] == enc[l - (b + 1)]);
        lemma_b64_byte_not_dash(payload, l - (b + 1));
        assert(s[l] == enc[l - (b + 1)] as char);
    }
    lemma_first_dash_at(s, 0, a);
    lemma_first_dash_at(s, a + 1, b);
    lemma_first_dash_at(s, b + 1, s.len() as int);
    assert(s.subrange(0, a) =~= dk.map_values(|x: u8| x as char)) by {
        assert forall|l: int| 0 <= l < a implies (#[trigger] s.subrange(0, a)[l])
            == dk.map_values(|x: u8| x as char)[l] by {
            assert(text[l] == dk[l]);
        }
    }
    assert(s.subrange(a + 1, b) =~= di.map_values(|x: u8| x as char)) by {
        assert forall|l: int| 0 <= l < di.len() implies (#[trigger] s.subrange(a + 1, b)[l])
            == di.map_values(|x: u8| x as char)[l] by {
            assert(text[a + 1 + l] == di[l]);
        }
    }
    assert(s.subrange(b + 1, s.len() as int) =~= crate::encode::spec_b64_chars(payload)) by {
        assert forall|l: int| 0 <= l < enc.len() implies (#[trigger] s.subrange(
            b + 1,
            s.len() as int,
        )[l]) == crate::encode::spec_b64_chars(payload)[l] by {
            assert(text[b + 1 + l] == enc[l]);
        }
    }
    lemma_dec_roundtrip(k);
    lemma_dec_roundtrip(id);
    crate::encode::lemma_b64_roundtrip(payload);
}

/// Each encoded byte has an alphabet value, never a dash.
proof fn lemma_b64_byte_not_dash(payload: Seq<u8>, l: int)
    requires
        0 <= l < spec_b64_bytes(payload).len(),
    ensures
        spec_b64_bytes(payload)[l] != 45,
    decreases payload.len(),
{
    if payload.len() > 2 && l >= 4 {
        lemma_b64_byte_not_dash(payload.subrange(3, payload.len() as int), l - 4);
    }
}

/// Printing and parsing a share line are inverse: the line of a record
/// reads back to exactly the record's fields, unsigned or signed.
pub proof fn lemma_share_line_roundtrip(
    k: u8,
    id: u8,
    data: Seq<u8>,
    sigs: Seq<Seq<u8>>,
    prf: Option<Seq<u8>>,
)
    requires
        1 <= k,
        1 <= id,
    ensures
        spec_share_ok(
            spec_share_payload_line(k, id, data, sigs, prf),
            false,
        ) == Some((k, id, data, None::<(Seq<Seq<u8>>, Seq<u8>)>)),
        sigs.len() > 0 && prf is Some && spec_proof_root(prf->0) is Some ==> spec_share_ok(
            spec_share_payload_line(k, id, data, sigs, prf),
            true,
        ) == Some((k, id, data, Some((sigs, prf->0)))),
{
    lemma_share_text_header(k, id, crate::wire::spec_share_payload(data, sigs, prf));
    crate::wire::lemma_payload_roundtrip(data, sigs, prf);
}

/// The characters of the share line a record prints to.
pub open spec fn spec_share_payload_line(
    k: u8,
    id: u8,
    data: Seq<u8>,
    sigs: Seq<Seq<u8>>,
    prf: Option<Seq<u8>>,
) -> Seq<char> {
    spec_share_text(k, id, crate::wire::spec_share_payload(data, sigs, prf)).map_values(
        |b: u8| b as char,
    )
}

/// Relies on `String::from_utf8`: bytes below 128 are valid UTF-8 and
/// decode one character per byte.
#[verifier::external_body]
fn ascii_to_string(bytes: Vec<u8>) -> (r: String)
    requires
        forall|i: int| 0 <= i < bytes@.len() ==> bytes@[i] < 128,
    ensures
        r@ == bytes@.map_values(|b: u8| b as char),
{
    String::from_utf8(bytes).unwrap()
}

/// The alphabet stays below 128 for every input value.
proof fn lemma_b64_byte_bound(v: u8)
    ensures
        crate::encode::spec_b64_byte(v) < 128,
{
}

/// Every byte of the encoding is an ASCII value below 128.
proof fn lemma_b64_ascii(s: Seq<u8>)
    ensures
        forall|i: int| 0 <= i < spec_b64_bytes(s).len() ==> spec_b64_bytes(s)[i] < 128,
    decreases s.len(),
{
    let enc = spec_b64_bytes(s);
    if s.len() == 0 {
    } else if s.len() == 1 {
        lemma_b64_byte_bound(s[0] / 4);
        lemma_b64_byte_bound(((s[0] % 4) * 16) as u8);
    } else if s.len() == 2 {
        lemma_b64_byte_bound(s[0] / 4);
        lemma_b64_byte_bound(((s[0] % 4) * 16 + s[1] / 16) as u8);
        lemma_b64_byte_bound(((s[1] % 16) * 4) as u8);
    } else {
        let rest = spec_b64_bytes(s.subrange(3, s.len() as int));
        lemma_b64_ascii(s.subrange(3, s.len() as int));
        lemma_b64_byte_bound(s[0] / 4);
        lemma_b64_byte_bound(((s[0] % 4) * 16 + s[1] / 16) as u8);
        lemma_b64_byte_bound(((s[1] % 16) * 4 + s[2] / 64) as u8);
        lemma_b64_byte_bound((s[2] % 64) as u8);
        assert forall|i: int| 0 <= i < enc.len() implies enc[i] < 128 by {
            if i >= 4 {
                assert(enc[i] == rest[i - 4]);
            }
        }
    }
}

/// Append the decimal digits of `n`.
fn push_u8_dec(out: &mut Vec<u8>, n: u8)
    ensures
        final(out)@ == old(out)@ + spec_u8_dec(n),
{
    if n < 10 {
        out.push(48 + n);
    } else if n < 100 {
        out.push(48 + n / 10);
        out.push(48 + n % 10);
    } else {
        out.push(48 + n / 100);
        out.push(48 + (n / 10) % 10);
        out.push(48 + n % 10);
    }
    proof {
        assert(out@ =~= old(out)@ + spec_u8_dec(n));
    }
}

/// The ASCII line `K-ID-BASE64(bytes)`, as bytes. This is also the exact
/// string signed for a share, with `bytes` the bare data. The slot after
/// the threshold holds the share's identifier: a verifier can recompute
/// the signed message only from the fields the share line itself carries
/// (threshold, identifier, data), and the line carries no share total.
pub fn format_share_for_signing(k: u8, id: u8, bytes: &[u8]) -> (r: Vec<u8>)
    ensures
        r@ == spec_share_text(k, id, bytes@),
{
    let mut out: Vec<u8> = Vec::new();
    push_u8_dec(&mut out, k);
    out.push(45);
    push_u8_dec(&mut out, id);
    out.push(45);
    let mut b64 = b64_encode(bytes);
    out.append(&mut b64);
    proof {
        assert(out@ =~= spec_share_text(k, id, bytes@));
    }
    out
}

/// The view of an optional signature pair: its entries and proof bytes.
pub open spec fn spec_pair_view(p: Option<SignaturePair>) -> (Seq<Seq<u8>>, Option<Seq<u8>>) {
    if p is Some {
        ((p->0).signature@.map_values(|v: Vec<u8>| v@), Some((p->0).proof@))
    } else {
        (Seq::<Seq<u8>>::empty(), None)
    }
}

/// Format a share as its text line, signature and proof included when one
/// is attached.
pub fn share_string_from(
    share_data: Vec<u8>,
    k: u8,
    identifier: u8,
    signature_pair: Option<SignaturePair>,
) -> (r: String)
    ensures
        r@ == spec_share_text(
            k,
            identifier,
            spec_share_payload(
                share_data@,
                spec_pair_view(signature_pair).0,
                spec_pair_view(signature_pair).1,
            ),
        ).map_values(|b: u8| b as char),
{
    let (sigs, prf): (Vec<Vec<u8>>, Option<Vec<u8>>) = match signature_pair {
        Some(p) => (p.signature, Some(p.proof)),
        None => (Vec::new(), None),
    };
    let payload = encode_share_payload(share_data.as_slice(), &sigs, &prf);
    proof {
        assert(sigs@.map_values(|v: Vec<u8>| v@) =~= spec_pair_view(signature_pair).0);
        assert(opt_view(prf) == spec_pair_view(signature_pair).1);
    }
    let text = format_share_for_signing(k, identifier, payload.as_slice());
    proof {
        lemma_b64_ascii(payload@);
        assert forall|i: int| 0 <= i < text@.len() implies text@[i] < 128 by {
            let t = spec_share_text(k, identifier, payload@);
            assert(text@[i] == t[i]);
        }
    }
    ascii_to_string(text)
}

impl Share {
    /// This share as its text line.
    pub fn into_string(self) -> (r: String)
        ensures
            r@ == spec_share_text(
                self.k,
                self.id,
                spec_share_payload(
                    self.data@,
                    spec_pair_view(self.signature_pair).0,
                    spec_pair_view(self.signature_pair).1,
                ),
            ).map_values(|b: u8| b as char),
    {
        share_string_from(self.data, self.k, self.id, self.signature_pair)
    }
}

fn parse_u8_range(s: &str, a: usize, b: usize) -> (r: Option<u8>)
    requires
        a <= b <= s@.len(),
    ensures
        r == spec_parse_u8(s@.subrange(a as int, b as int)),
{
    let ghost part = s@.subrange(a as int, b as int);
    let len = b - a;
    if len == 1 {
        let c = s.get_char(a);
        proof {
            assert(part[0] == s@[a as int]);
        }
        digit_of(c)
    } else if len == 2 {
        let d0 = digit_of(s.get_char(a));
        let d1 = digit_of(s.get_char(a + 1));
        proof {
            assert(part[0] == s@[a as int] && part[1] == s@[a + 1]);
        }
        match (d0, d1) {
            (Some(x), Some(y)) => Some(x * 10 + y),
            _ => None,
        }
    } else if len == 3 {
        let d0 = digit_of(s.get_char(a));
        let d1 = digit_of(s.get_char(a + 1));
        let d2 = digit_of(s.get_char(a + 2));
        proof {
            assert(part[0] == s@[a as int] && part[1] == s@[a + 1] && part[2] == s@[a + 2]);
        }
        match (d0, d1, d2) {
            (Some(x), Some(y), Some(z)) => {
                let v: u32 = (x as u32) * 100 + (y as u32) * 10 + (z as u32);
                if v <= 255 {
                    Some(v as u8)
                } else {
                    None
                }
            },
            _ => None,
        }
    } else {
        None
    }
}

fn digit_of(c: char) -> (r: Option<u8>)
    ensures
        r == spec_digit(c),
{
    let u = c as u32;
    if 48 <= u && u <= 57 {
        Some((u - 48) as u8)
    } else {
        None
    }
}

/// Find the first dash at or after `from`.
fn find_dash(s: &str, from: usize) -> (r: usize)
    requires
        from <= s@.len(),
    ensures
        r == spec_first_dash(s@, from as int),
        from <= r <= s@.len(),
        r < s@.len() ==> s@[r as int] == '-',
{
    let n = s.unicode_len();
    let mut i = from;
    while i < n && s.get_char(i) != '-'
        invariant
            from <= i <= n,
            n == s@.len(),
            spec_first_dash(s@, from as int) == spec_first_dash(s@, i as int),
        decreases n - i,
    {
        i = i + 1;
    }
    i
}

/// Parse one share line. `index` is the line's position in its batch and
/// names the line in any error. With `is_signed`, the payload must carry a
/// signature and a proof with a readable root.
pub fn share_from_string(raw: &str, index: u8, is_signed: bool) -> (r: Result<Share, Error>)
    ensures
        r is Ok <==> spec_share_ok(raw@, is_signed) is Some,
        r matches Ok(sh) ==> spec_share_fields(sh, spec_share_ok(raw@, is_signed)->0, is_signed),
        spec_header(raw@) is None ==> (r matches Err(e) && (e matches Error::ShareParsing(i, rw)
            && i == index && rw@ == raw@)),
        r matches Err(e) ==> spec_parse_err_matches(raw@, is_signed, index, e),
{
    let n = raw.unicode_len();
    let d1 = find_dash(raw, 0);
    if d1 == n {
        return Err(Error::ShareParsing(index, String::from_str(raw)));
    }
    let d2 = find_dash(raw, d1 + 1);
    if d2 == n {
        return Err(Error::ShareParsing(index, String::from_str(raw)));
    }
    let d3 = find_dash(raw, d2 + 1);
    if d3 < n {
        return Err(Error::ShareParsing(index, String::from_str(raw)));
    }
    let k = match parse_u8_range(raw, 0, d1) {
        Some(v) => v,
        None => {
            return Err(Error::ShareParsing(index, String::from_str(raw)));
        },
    };
    let id = match parse_u8_range(raw, d1 + 1, d2) {
        Some(v) => v,
        None => {
            return Err(Error::ShareParsing(index, String::from_str(raw)));
        },
    };
    if k < 1 || id < 1 {
        return Err(Error::ShareParsing(index, String::from_str(raw)));
    }
    let payload = match b64_decode_range(raw, d2 + 1, n) {
        Some(p) => p,
        None => {
            return Err(Error::ShareParsing(index, String::from_str(raw)));
        },
    };
    proof {
        assert(spec_header(raw@) == Some((k, id, payload@)));
    }
    let (data, sigs, prf) = match parse_share_payload(payload.as_slice()) {
        Some(x) => x,
        None => {
            return Err(Error::CorruptedShare(index));
        },
    };
    if is_signed {
        if sigs.len() == 0 {
            return Err(Error::MissingSignature(index));
        }
        let prf_vec = match prf {
            Some(p) => p,
            None => {
                return Err(Error::MissingSignature(index));
            },
        };
        match proof_root(prf_vec.as_slice()) {
            Some(_) => Ok(
                Share {
                    id,
                    k,
                    data,
                    signature_pair: Some(SignaturePair { signature: sigs, proof: prf_vec }),
                },
            ),
            None => Err(Error::CorruptedShare(index)),
        }
    } else {
        Ok(Share { id, k, data, signature_pair: None })
    }
}

impl Share {
    /// The share's identifier.
    pub fn id(&self) -> (r: u8)
        ensures
            r == self.id,
    {
        self.id
    }

    /// The share's data bytes.
    pub fn data(&self) -> (r: &Vec<u8>)
        ensures
            r@ == self.data@,
    {
        &self.data
    }

    /// The threshold the share was dealt under.
    pub fn k(&self) -> (r: u8)
        ensures
            r == self.k,
    {
        self.k
    }

    /// Whether the share carries a signature.
    pub fn is_signed(&self) -> (r: bool)
        ensures
            r == (self.signature_pair is Some),
    {
        self.signature_pair.is_some()
    }

    /// The share's signature, when one is attached.
    pub fn signature(&self) -> (r: &Option<SignaturePair>)
        ensures
            r == &self.signature_pair,
    {
        &self.signature_pair
    }

    /// Parse every line of a batch; the first malformed line decides the
    /// error.
    #[verifier::rlimit(80)]
    pub fn parse_all(raws: &[String], is_signed: bool) -> (r: Result<Vec<Share>, Error>)
        ensures
            r is Ok <==> spec_first_bad(
                raws@.map_values(|s: String| s@),
                is_signed,
                0,
            ) == raws@.len(),
            r matches Ok(v) ==> v@.len() == raws@.len() && spec_parsed_prefix(
                raws@.map_values(|s: String| s@),
                v@,
                raws@.len() as int,
                is_signed,
            ),
            r matches Err(e) ==> ({
                let fb = spec_first_bad(raws@.map_values(|s: String| s@), is_signed, 0);
                &&& fb < raws@.len()
                &&& spec_parse_err_matches(raws@[fb]@, is_signed, (fb % 256) as u8, e)
            }),
    {
        let ghost views = raws@.map_values(|s: String| s@);
        let mut out: Vec<Share> = Vec::new();
        let mut idx: usize = 0;
        while idx < raws.len()
            invariant
                idx <= raws@.len(),
                views == raws@.map_values(|s: String| s@),
                out@.len() == idx,
                spec_first_bad(views, is_signed, 0) == spec_first_bad(views, is_signed, idx as int),
                spec_parsed_prefix(views, out@, idx as int, is_signed),
            decreases raws@.len() - idx,
        {
            let sh = share_from_string(raws[idx].as_str(), #[verifier::truncate] (idx as u8), is_signed);
            match sh {
                Ok(share) => {
                    proof {
                        assert(views[idx as int] == raws@[idx as int]@);
                    }
                    let ghost out_before = out@;
                    let ghost share_g = share;
                    out.push(share);
                    proof {
                        assert(out@ == out_before.push(share_g));
                        assert(spec_first_bad(views, is_signed, idx as int) == spec_first_bad(
                            views,
                            is_signed,
                            idx + 1,
                        ));
                        assert forall|i: int|
                            0 <= i < idx + 1 implies (#[trigger] spec_share_ok(
                            views[i],
                            is_signed,
                        )) is Some && spec_share_fields(
                            out@[i],
                            spec_share_ok(views[i], is_signed)->0,
                            is_signed,
                        ) by {
                            if i < idx {
                                assert(out@[i] == out_before[i]);
                                assert(spec_share_ok(views[i], is_signed) is Some
                                    && spec_share_fields(
                                    out_before[i],
                                    spec_share_ok(views[i], is_signed)->0,
                                    is_signed,
                                ));
                            } else {
                                assert(out@[i] == share_g);
                                assert(spec_share_fields(
                                    share_g,
                                    spec_share_ok(views[i], is_signed)->0,
                                    is_signed,
                                ));
                            }
                        }
                        assert(spec_parsed_prefix(views, out@, idx + 1, is_signed));
                    }
                },
                Err(e) => {
                    proof {
                        assert(spec_share_ok(views[idx as int], is_signed) is None);
                        assert(spec_first_bad(views, is_signed, idx as int) == idx as int);
                        assert(#[verifier::truncate] (idx as u8) == ((idx % 256) as u8))
                            by (bit_vector);
                        assert(((idx % 256) as u8) as int == (idx as int) % 256);
                    }
                    return Err(e);
                },
            }
            idx = idx + 1;
        }
        proof {
            assert(spec_first_bad(views, is_signed, idx as int) == views.len());
        }
        Ok(out)
    }
}

} // verus!
