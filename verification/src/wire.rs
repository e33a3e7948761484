//! The binary layout of the share payload and of the secret envelope: a
//! protobuf-style encoding of length-prefixed fields, each introduced by a
//! one-byte tag. Decoding is strict: fields come in tag order, unknown tags
//! and non-minimal length prefixes are refused, and nothing may follow the
//! last field.

use vstd::prelude::*;

verus! {

/// The little-endian base-128 encoding of `n`, seven bits per byte, the
/// high bit marking a continuation.
pub open spec fn spec_varint(n: nat) -> Seq<u8>
    decreases n,
{
    if n < 128 {
        seq![n as u8]
    } else {
        seq![(128 + (n % 128)) as u8] + spec_varint(n / 128)
    }
}

/// Decode a base-128 integer at `pos`: the value and the position after
/// it, or `None` for a truncated or non-minimal encoding.
pub open spec fn spec_varint_at(s: Seq<u8>, pos: int) -> Option<(nat, int)>
    decreases s.len() - pos,
{
    if pos < 0 || pos >= s.len() {
        None
    } else if s[pos] < 128 {
        Some((s[pos] as nat, pos + 1))
    } else {
        match spec_varint_at(s, pos + 1) {
            Some((hi, next)) => if hi == 0 {
                None
            } else {
                Some((((s[pos] - 128) + 128 * hi) as nat, next))
            },
            None => None,
        }
    }
}

/// A length-prefixed byte field at `pos` (after its tag): the content and
/// the position after it.
pub open spec fn spec_len_field_at(s: Seq<u8>, pos: int) -> Option<(Seq<u8>, int)> {
    match spec_varint_at(s, pos) {
        Some((n, p2)) => if p2 + n <= s.len() {
            Some((s.subrange(p2, p2 + n), p2 + (n as int)))
        } else {
            None
        },
        None => None,
    }
}

/// The wire form of one length-prefixed field under the given tag.
pub open spec fn spec_tagged_field(tag: u8, content: Seq<u8>) -> Seq<u8> {
    seq![tag] + spec_varint(content.len()) + content
}

/// The wire form of the signature entries, one tagged field each.
pub open spec fn spec_sig_fields(sigs: Seq<Seq<u8>>) -> Seq<u8>
    decreases sigs.len(),
{
    if sigs.len() == 0 {
        Seq::empty()
    } else {
        spec_tagged_field(0x12, sigs[0]) + spec_sig_fields(sigs.subrange(1, sigs.len() as int))
    }
}

/// The wire form of a share payload: the data bytes, then, for a signed
/// share, the signature entries and the inclusion proof.
pub open spec fn spec_share_payload(
    data: Seq<u8>,
    sigs: Seq<Seq<u8>>,
    prf: Option<Seq<u8>>,
) -> Seq<u8> {
    let proof_part = if prf is Some {
        spec_tagged_field(0x1a, prf->0)
    } else {
        Seq::<u8>::empty()
    };
    spec_tagged_field(0x0a, data) + spec_sig_fields(sigs) + proof_part
}

/// Parse the run of signature fields starting at `pos`.
pub open spec fn spec_parse_sigs(s: Seq<u8>, pos: int) -> Option<(Seq<Seq<u8>>, int)>
    decreases s.len() - pos,
{
    if pos < 0 || pos >= s.len() || s[pos] != 0x12 {
        Some((Seq::empty(), pos))
    } else {
        match spec_len_field_at(s, pos + 1) {
            Some((content, p2)) => if pos < p2 <= s.len() {
                match spec_parse_sigs(s, p2) {
                    Some((rest, p3)) => Some((seq![content] + rest, p3)),
                    None => None,
                }
            } else {
                None
            },
            None => None,
        }
    }
}

/// Parse a whole share payload: the data, the signature entries, and the
/// proof if one is present. `None` for anything the encoder cannot have
/// produced.
pub open spec fn spec_parse_payload(s: Seq<u8>) -> Option<(Seq<u8>, Seq<Seq<u8>>, Option<Seq<u8>>)> {
    if s.len() == 0 || s[0] != 0x0a {
        None
    } else {
        match spec_len_field_at(s, 1) {
            Some((data, p1)) => match spec_parse_sigs(s, p1) {
                Some((sigs, p2)) => if p2 == s.len() {
                    Some((data, sigs, None))
                } else if s[p2] == 0x1a {
                    match spec_len_field_at(s, p2 + 1) {
                        Some((prf, p3)) => if p3 == s.len() {
                            Some((data, sigs, Some(prf)))
                        } else {
                            None
                        },
                        None => None,
                    }
                } else {
                    None
                },
                None => None,
            },
            None => None,
        }
    }
}

/// The root hash carried by an inclusion proof: its first wire field.
pub open spec fn spec_proof_root(s: Seq<u8>) -> Option<Seq<u8>> {
    if s.len() == 0 || s[0] != 0x0a {
        None
    } else {
        match spec_len_field_at(s, 1) {
            Some((root, _)) => if root.len() > 0 {
                Some(root)
            } else {
                None
            },
            None => None,
        }
    }
}

/// The wire form of the secret envelope: the version when it is not the
/// first release, the secret bytes when non-empty, and the MIME type when
/// one is carried.
pub open spec fn spec_envelope(secret: Seq<u8>, mime: Option<Seq<u8>>) -> Seq<u8> {
    let secret_part = if secret.len() > 0 {
        spec_tagged_field(0x12, secret)
    } else {
        Seq::<u8>::empty()
    };
    let mime_part = if mime is Some {
        spec_tagged_field(0x1a, mime->0)
    } else {
        Seq::<u8>::empty()
    };
    secret_part + mime_part
}

/// Parse a secret envelope: the secret bytes and the MIME bytes if
/// present. An explicit version field is accepted when it names the first
/// release; anything else is refused.
pub open spec fn spec_parse_envelope(s: Seq<u8>) -> Option<(Seq<u8>, Option<Seq<u8>>)> {
    let after_version = if s.len() >= 2 && s[0] == 0x08 {
        if s[1] == 0 {
            Some(2int)
        } else {
            None
        }
    } else {
        Some(0int)
    };
    match after_version {
        Some(p0) => {
            let secret_part = if p0 < s.len() && s[p0] == 0x12 {
                match spec_len_field_at(s, p0 + 1) {
                    Some((secret, p1)) => Some((secret, p1)),
                    None => None,
                }
            } else {
                Some((Seq::<u8>::empty(), p0))
            };
            match secret_part {
                Some((secret, p1)) => {
                    if p1 == s.len() {
                        Some((secret, None))
                    } else if s[p1] == 0x1a {
                        match spec_len_field_at(s, p1 + 1) {
                            Some((mime, p2)) => if p2 == s.len() {
                                Some((secret, Some(mime)))
                            } else {
                                None
                            },
                            None => None,
                        }
                    } else {
                        None
                    }
                },
                None => None,
            }
        },
        None => None,
    }
}

/// A base-128 encoding embedded in a longer string parses back to its
/// value, landing right after it.
proof fn lemma_varint_at(s: Seq<u8>, pos: int, n: nat)
    requires
        0 <= pos,
        pos + spec_varint(n).len() <= s.len(),
        s.subrange(pos, pos + spec_varint(n).len() as int) == spec_varint(n),
    ensures
        spec_varint_at(s, pos) == Some((n, pos + spec_varint(n).len() as int)),
    decreases n,
{
    let v = spec_varint(n);
    if n < 128 {
        assert(v.len() == 1 && v[0] == n as u8);
        assert(s[pos] == s.subrange(pos, pos + 1)[0]);
    } else {
        let v2 = spec_varint(n / 128);
        assert(v == seq![(128 + (n % 128)) as u8] + v2);
        assert(s[pos] == s.subrange(pos, pos + v.len() as int)[0]);
        assert(s[pos] == (128 + (n % 128)) as u8);
        assert(s.subrange(pos + 1, pos + 1 + v2.len() as int) =~= v2) by {
            assert forall|l: int| 0 <= l < v2.len() implies s.subrange(
                pos + 1,
                pos + 1 + v2.len() as int,
            )[l] == v2[l] by {
                assert(s.subrange(pos, pos + v.len() as int)[l + 1] == v[l + 1]);
            }
        }
        lemma_varint_at(s, pos + 1, n / 128);
        vstd::arithmetic::div_mod::lemma_fundamental_div_mod(n as int, 128);
    }
}

/// A length-prefixed field embedded in a longer string parses back to its
/// content, landing right after it.
proof fn lemma_len_field_at(s: Seq<u8>, pos: int, content: Seq<u8>)
    requires
        0 <= pos,
        pos + spec_varint(content.len()).len() + content.len() <= s.len(),
        s.subrange(
            pos,
            pos + spec_varint(content.len()).len() + content.len(),
        ) == spec_varint(content.len()) + content,
    ensures
        spec_len_field_at(s, pos) == Some(
            (content, pos + spec_varint(content.len()).len() + content.len()),
        ),
{
    let v = spec_varint(content.len());
    assert(s.subrange(pos, pos + v.len() as int) =~= v) by {
        assert forall|l: int| 0 <= l < v.len() implies s.subrange(pos, pos + v.len() as int)[l]
            == v[l] by {
            assert(s.subrange(pos, pos + v.len() + content.len())[l] == (v + content)[l]);
        }
    }
    lemma_varint_at(s, pos, content.len());
    let p2 = pos + v.len() as int;
    assert(s.subrange(p2, p2 + content.len() as int) =~= content) by {
        assert forall|l: int| 0 <= l < content.len() implies s.subrange(
            p2,
            p2 + content.len() as int,
        )[l] == content[l] by {
            assert(s.subrange(pos, pos + v.len() + content.len())[v.len() + l] == (v + content)[
                v.len() + l]);
        }
    }
}

/// A run of signature fields embedded before a terminator parses back to
/// exactly its entries.
proof fn lemma_parse_sigs_at(s: Seq<u8>, pos: int, sigs: Seq<Seq<u8>>)
    requires
        0 <= pos,
        pos + spec_sig_fields(sigs).len() <= s.len(),
        s.subrange(pos, pos + spec_sig_fields(sigs).len() as int) == spec_sig_fields(sigs),
        pos + spec_sig_fields(sigs).len() == s.len() || s[pos + spec_sig_fields(sigs).len() as int]
            != 0x12,
    ensures
        spec_parse_sigs(s, pos) == Some((sigs, pos + spec_sig_fields(sigs).len() as int)),
    decreases sigs.len(),
{
    let f = spec_sig_fields(sigs);
    if sigs.len() == 0 {
        assert(f.len() == 0);
        assert(spec_parse_sigs(s, pos) == Some((Seq::<Seq<u8>>::empty(), pos)));
        assert(Seq::<Seq<u8>>::empty() =~= sigs);
    } else {
        let head = spec_tagged_field(0x12, sigs[0]);
        let rest = sigs.subrange(1, sigs.len() as int);
        assert(f == head + spec_sig_fields(rest));
        assert(s[pos] == s.subrange(pos, pos + f.len() as int)[0]);
        assert(s[pos] == 0x12);
        let v = spec_varint(sigs[0].len());
        assert(head == seq![0x12u8] + v + sigs[0]);
        assert(s.subrange(pos + 1, pos + 1 + v.len() + sigs[0].len()) =~= v + sigs[0]) by {
            assert forall|l: int| 0 <= l < v.len() + sigs[0].len() implies s.subrange(
                pos + 1,
                pos + 1 + v.len() + sigs[0].len(),
            )[l] == (v + sigs[0])[l] by {
                assert(s.subrange(pos, pos + f.len() as int)[l + 1] == f[l + 1]);
                assert(f[l + 1] == head[l + 1]);
            }
        }
        lemma_len_field_at(s, pos + 1, sigs[0]);
        let p2 = pos + head.len() as int;
        assert(s.subrange(p2, p2 + spec_sig_fields(rest).len() as int) =~= spec_sig_fields(rest))
            by {
            assert forall|l: int| 0 <= l < spec_sig_fields(rest).len() implies s.subrange(
                p2,
                p2 + spec_sig_fields(rest).len() as int,
            )[l] == spec_sig_fields(rest)[l] by {
                assert(s.subrange(pos, pos + f.len() as int)[head.len() + l] == f[head.len() + l]);
            }
        }
        lemma_parse_sigs_at(s, p2, rest);
        assert(seq![sigs[0]] + rest =~= sigs);
    }
}

/// Parsing inverts encoding for whole share payloads: every payload the
/// encoder writes comes back as the same data, signature entries, and
/// proof.
pub proof fn lemma_payload_roundtrip(data: Seq<u8>, sigs: Seq<Seq<u8>>, prf: Option<Seq<u8>>)
    ensures
        spec_parse_payload(spec_share_payload(data, sigs, prf)) == Some((data, sigs, prf)),
{
    let s = spec_share_payload(data, sigs, prf);
    let head = spec_tagged_field(0x0a, data);
    let sf = spec_sig_fields(sigs);
    let tail = if prf is Some {
        spec_tagged_field(0x1a, prf->0)
    } else {
        Seq::<u8>::empty()
    };
    assert(s == head + sf + tail);
    assert(s[0] == 0x0a);
    let v = spec_varint(data.len());
    assert(s.subrange(1, 1 + v.len() as int + data.len() as int) =~= v + data) by {
        assert forall|l: int| 0 <= l < v.len() + data.len() implies s.subrange(
            1,
            1 + v.len() as int + data.len() as int,
        )[l] == (v + data)[l] by {
            assert(s[l + 1] == ((head + sf) + tail)[l + 1]);
        }
    }
    lemma_len_field_at(s, 1, data);
    let p1 = head.len() as int;
    assert(s.subrange(p1, p1 + sf.len() as int) =~= sf);
    if prf is Some {
        assert(s[p1 + sf.len() as int] == tail[0]);
        assert(s[p1 + sf.len() as int] == 0x1a);
        lemma_parse_sigs_at(s, p1, sigs);
        let p2 = p1 + sf.len() as int;
        let v2 = spec_varint(prf->0.len());
        assert(s.subrange(p2 + 1, p2 + 1 + v2.len() + prf->0.len()) =~= v2 + prf->0) by {
            assert forall|l: int| 0 <= l < v2.len() + prf->0.len() implies s.subrange(
                p2 + 1,
                p2 + 1 + v2.len() + prf->0.len(),
            )[l] == (v2 + prf->0)[l] by {
                assert(s[p2 + 1 + l] == ((head + sf) + tail)[p2 + 1 + l]);
                assert(tail[l + 1] == (v2 + prf->0)[l]);
            }
        }
        lemma_len_field_at(s, p2 + 1, prf->0);
    } else {
        assert(p1 + sf.len() == s.len());
        lemma_parse_sigs_at(s, p1, sigs);
    }
}

/// Append the base-128 form of `n` to `out`.
pub fn push_varint(out: &mut Vec<u8>, n: usize)
    ensures
        final(out)@ == old(out)@ + spec_varint(n as nat),
{
    let mut v = n;
    let ghost prefix = out@;
    while v >= 128
        invariant
            old(out)@ + spec_varint(n as nat) == out@ + spec_varint(v as nat),
        decreases v,
    {
        let ghost v_before = v as nat;
        out.push((128 + (v % 128) as u8) as u8);
        v = v / 128;
        proof {
            assert(out@ + spec_varint(v as nat) =~= old(out)@ + spec_varint(n as nat));
        }
    }
    out.push(v as u8);
    proof {
        assert(out@ =~= old(out)@ + spec_varint(n as nat));
    }
}

/// Append one tagged, length-prefixed field to `out`.
pub fn push_tagged_field(out: &mut Vec<u8>, tag: u8, content: &[u8])
    ensures
        final(out)@ == old(out)@ + spec_tagged_field(tag, content@),
{
    out.push(tag);
    push_varint(out, content.len());
    let mut i: usize = 0;
    while i < content.len()
        invariant
            i <= content@.len(),
            out@ == old(out)@ + seq![tag] + spec_varint(content@.len()) + content@.subrange(
                0,
                i as int,
            ),
        decreases content@.len() - i,
    {
        out.push(content[i]);
        proof {
            assert(out@ =~= old(out)@ + seq![tag] + spec_varint(content@.len())
                + content@.subrange(0, i + 1));
        }
        i = i + 1;
    }
    proof {
        assert(content@.subrange(0, content@.len() as int) =~= content@);
        assert(out@ =~= old(out)@ + spec_tagged_field(tag, content@));
    }
}

/// Read a base-128 integer at `pos`; `None` when it is truncated,
/// non-minimal, or does not fit a `usize`.
pub fn read_varint(s: &[u8], pos: usize) -> (r: Option<(usize, usize)>)
    ensures
        match r {
            Some((v, next)) => spec_varint_at(s@, pos as int) == Some((v as nat, next as int))
                && pos < next <= s@.len(),
            None => spec_varint_at(s@, pos as int) is None || (spec_varint_at(s@, pos as int)
                matches Some((v, _)) && v > usize::MAX),
        },
    decreases s@.len() - pos,
{
    if pos >= s.len() {
        return None;
    }
    let b = s[pos];
    if b < 128 {
        return Some((b as usize, pos + 1));
    }
    match read_varint(s, pos + 1) {
        Some((hi, next)) => {
            if hi == 0 {
                None
            } else if hi <= (usize::MAX - (b - 128) as usize) / 128 {
                Some(((b - 128) as usize + 128 * hi, next))
            } else {
                proof {
                    let sp = spec_varint_at(s@, pos as int);
                    if sp is Some {
                        assert((sp->0).0 == (b - 128) + 128 * (hi as nat));
                        assert((sp->0).0 > usize::MAX);
                    }
                }
                None
            }
        },
        None => {
            proof {
                let sp = spec_varint_at(s@, pos as int);
                let sp1 = spec_varint_at(s@, pos + 1);
                if sp is Some && sp1 is Some {
                    assert((sp->0).0 == (b - 128) + 128 * (sp1->0).0);
                }
            }
            None
        },
    }
}

/// A successful varint parse lands strictly past `pos` and inside `s`.
pub proof fn lemma_varint_at_bounds(s: Seq<u8>, pos: int)
    requires
        pos >= 0,
        spec_varint_at(s, pos) is Some,
    ensures
        pos < (spec_varint_at(s, pos)->0).1 <= s.len(),
    decreases s.len() - pos,
{
    if !(pos < 0 || pos >= s.len()) && s[pos] >= 128 {
        if spec_varint_at(s, pos + 1) is Some {
            lemma_varint_at_bounds(s, pos + 1);
        }
    }
}

/// Read a length-prefixed field at `pos` (after its tag): the content and
/// the position after it.
pub fn read_len_field(s: &[u8], pos: usize) -> (r: Option<(Vec<u8>, usize)>)
    ensures
        match r {
            Some((content, next)) => spec_len_field_at(s@, pos as int) matches Some((c, n))
                && c == content@ && n == next as int && pos < next <= s@.len(),
            None => spec_len_field_at(s@, pos as int) is None,
        },
{
    let slen = s.len();
    match read_varint(s, pos) {
        Some((n, p2)) => {
            if n <= slen - p2 {
                let mut content: Vec<u8> = Vec::new();
                let mut i: usize = 0;
                while i < n
                    invariant
                        i <= n,
                        p2 + n <= slen,
                        slen == s@.len(),
                        content@ == s@.subrange(p2 as int, p2 + i),
                    decreases n - i,
                {
                    content.push(s[p2 + i]);
                    proof {
                        assert(content@ =~= s@.subrange(p2 as int, p2 + i + 1));
                    }
                    i = i + 1;
                }
                Some((content, p2 + n))
            } else {
                None
            }
        },
        None => {
            proof {
                let sp = spec_varint_at(s@, pos as int);
                if sp is Some {
                    lemma_varint_at_bounds(s@, pos as int);
                    assert((sp->0).0 > usize::MAX);
                    assert(slen == s@.len());
                    assert((sp->0).1 + (sp->0).0 > s@.len());
                }
            }
            None
        },
    }
}

/// The view of an optional byte vector.
pub open spec fn opt_view(o: Option<Vec<u8>>) -> Option<Seq<u8>> {
    if o is Some {
        Some(o->0@)
    } else {
        None
    }
}

/// Encode a share payload: the data, then each signature entry, then the
/// proof when one is present.
pub fn encode_share_payload(data: &[u8], sigs: &Vec<Vec<u8>>, prf: &Option<Vec<u8>>) -> (r: Vec<
    u8,
>)
    ensures
        r@ == spec_share_payload(data@, sigs@.map_values(|v: Vec<u8>| v@), opt_view(*prf)),
{
    let mut out: Vec<u8> = Vec::new();
    push_tagged_field(&mut out, 0x0a, data);
    let ghost data_part = out@;
    let mut i: usize = 0;
    while i < sigs.len()
        invariant
            i <= sigs@.len(),
            data_part == spec_tagged_field(0x0a, data@),
            out@ == data_part + spec_sig_fields(
                sigs@.map_values(|v: Vec<u8>| v@).subrange(0, i as int),
            ),
        decreases sigs@.len() - i,
    {
        let ghost sofar = sigs@.map_values(|v: Vec<u8>| v@).subrange(0, i as int);
        push_tagged_field(&mut out, 0x12, sigs[i].as_slice());
        proof {
            let upto = sigs@.map_values(|v: Vec<u8>| v@).subrange(0, i + 1);
            lemma_sig_fields_snoc(sofar, sigs@[i as int]@);
            assert(upto =~= sofar + seq![sigs@[i as int]@]);
            assert(spec_sig_fields(upto) == spec_sig_fields(sofar) + spec_tagged_field(
                0x12,
                sigs@[i as int]@,
            ));
        }
        i = i + 1;
    }
    proof {
        assert(sigs@.map_values(|v: Vec<u8>| v@).subrange(0, sigs@.len() as int) =~= sigs@.map_values(
            |v: Vec<u8>| v@,
        ));
    }
    match prf {
        Some(p) => {
            push_tagged_field(&mut out, 0x1a, p.as_slice());
        },
        None => {
        },
    }
    proof {
        assert(out@ =~= spec_share_payload(
            data@,
            sigs@.map_values(|v: Vec<u8>| v@),
            opt_view(*prf),
        ));
    }
    out
}

/// Appending one entry appends one field to the signature run's encoding.
proof fn lemma_sig_fields_snoc(sigs: Seq<Seq<u8>>, last: Seq<u8>)
    ensures
        spec_sig_fields(sigs + seq![last]) == spec_sig_fields(sigs) + spec_tagged_field(
            0x12,
            last,
        ),
    decreases sigs.len(),
{
    let whole = sigs + seq![last];
    if sigs.len() == 0 {
        assert(whole.len() == 1);
        assert(whole[0] == last);
        assert(whole.subrange(1, 1) =~= Seq::<Seq<u8>>::empty());
        assert(spec_sig_fields(whole.subrange(1, 1)) == Seq::<u8>::empty());
        assert(spec_sig_fields(whole) == spec_tagged_field(0x12, whole[0]) + spec_sig_fields(
            whole.subrange(1, 1),
        ));
        assert(spec_tagged_field(0x12, last) + Seq::<u8>::empty() =~= spec_tagged_field(
            0x12,
            last,
        ));
        assert(spec_sig_fields(sigs) == Seq::<u8>::empty());
        assert(Seq::<u8>::empty() + spec_tagged_field(0x12, last) =~= spec_tagged_field(
            0x12,
            last,
        ));
    } else {
        lemma_sig_fields_snoc(sigs.subrange(1, sigs.len() as int), last);
        assert(whole.subrange(1, whole.len() as int) =~= sigs.subrange(1, sigs.len() as int)
            + seq![last]);
        assert(spec_sig_fields(whole) =~= spec_sig_fields(sigs) + spec_tagged_field(0x12, last));
    }
}

/// Parse a whole share payload; `None` for anything `encode_share_payload`
/// cannot have produced.
pub fn parse_share_payload(s: &[u8]) -> (r: Option<(Vec<u8>, Vec<Vec<u8>>, Option<Vec<u8>>)>)
    ensures
        match r {
            Some((data, sigs, prf)) => spec_parse_payload(s@) == Some(
                (data@, sigs@.map_values(|v: Vec<u8>| v@), opt_view(prf)),
            ),
            None => spec_parse_payload(s@) is None,
        },
{
    let slen = s.len();
    if slen == 0 || s[0] != 0x0a {
        return None;
    }
    let (data, p1) = match read_len_field(s, 1) {
        Some(x) => x,
        None => {
            return None;
        },
    };
    let mut sigs: Vec<Vec<u8>> = Vec::new();
    let mut cur: usize = p1;
    while cur < slen && s[cur] == 0x12
        invariant
            p1 <= cur <= slen,
            slen == s@.len(),
            slen >= 1 && s@[0] == 0x0a,
            spec_len_field_at(s@, 1) == Some((data@, p1 as int)),
            spec_parse_sigs(s@, p1 as int) is Some <==> spec_parse_sigs(s@, cur as int) is Some,
            spec_parse_sigs(s@, p1 as int) is Some ==> (spec_parse_sigs(s@, p1 as int)->0).0
                == sigs@.map_values(|v: Vec<u8>| v@) + (spec_parse_sigs(s@, cur as int)->0).0
                && (spec_parse_sigs(s@, p1 as int)->0).1 == (spec_parse_sigs(
                s@,
                cur as int,
            )->0).1,
        decreases slen - cur,
    {
        let ghost sofar = sigs@.map_values(|v: Vec<u8>| v@);
        match read_len_field(s, cur + 1) {
            Some((content, p2)) => {
                let ghost content_seq = content@;
                sigs.push(content);
                proof {
                    assert(sigs@.map_values(|v: Vec<u8>| v@) =~= sofar + seq![content_seq]);
                    if spec_parse_sigs(s@, cur as int) is Some {
                        assert((sofar + seq![content_seq]) + (spec_parse_sigs(s@, p2 as int)->0).0
                            =~= sofar + (seq![content_seq] + (spec_parse_sigs(
                            s@,
                            p2 as int,
                        )->0).0));
                    }
                }
                cur = p2;
            },
            None => {
                proof {
                    assert(spec_parse_sigs(s@, cur as int) is None);
                    assert(spec_parse_sigs(s@, p1 as int) is None);
                    assert(spec_parse_payload(s@) is None);
                }
                return None;
            },
        }
    }
    proof {
        assert(spec_parse_sigs(s@, cur as int) == Some(
            (Seq::<Seq<u8>>::empty(), cur as int),
        ));
        if spec_parse_sigs(s@, p1 as int) is Some {
            assert((spec_parse_sigs(s@, p1 as int)->0).0 =~= sigs@.map_values(
                |v: Vec<u8>| v@,
            ));
        }
    }
    if cur == slen {
        return Some((data, sigs, None));
    }
    if s[cur] != 0x1a {
        return None;
    }
    match read_len_field(s, cur + 1) {
        Some((proof_bytes, p3)) => {
            if p3 == slen {
                Some((data, sigs, Some(proof_bytes)))
            } else {
                None
            }
        },
        None => None,
    }
}

/// The root hash carried by an inclusion proof's bytes.
pub fn proof_root(s: &[u8]) -> (r: Option<Vec<u8>>)
    ensures
        match r {
            Some(root) => spec_proof_root(s@) == Some(root@),
            None => spec_proof_root(s@) is None,
        },
{
    if s.len() == 0 || s[0] != 0x0a {
        return None;
    }
    match read_len_field(s, 1) {
        Some((root, _)) => {
            if root.len() > 0 {
                Some(root)
            } else {
                None
            }
        },
        None => None,
    }
}

/// Encode a secret envelope from the secret bytes and an optional MIME
/// byte string.
pub fn encode_envelope(secret: &[u8], mime: &Option<Vec<u8>>) -> (r: Vec<u8>)
    ensures
        r@ == spec_envelope(secret@, opt_view(*mime)),
{
    let mut out: Vec<u8> = Vec::new();
    if secret.len() > 0 {
        push_tagged_field(&mut out, 0x12, secret);
    }
    match mime {
        Some(m) => {
            push_tagged_field(&mut out, 0x1a, m.as_slice());
        },
        None => {
        },
    }
    proof {
        assert(out@ =~= spec_envelope(secret@, opt_view(*mime)));
    }
    out
}

/// Parse a secret envelope; `None` for an unknown version or for bytes the
/// encoder cannot have produced.
pub fn parse_envelope(s: &[u8]) -> (r: Option<(Vec<u8>, Option<Vec<u8>>)>)
    ensures
        match r {
            Some((secret, mime)) => spec_parse_envelope(s@) == Some((secret@, opt_view(mime))),
            None => spec_parse_envelope(s@) is None,
        },
{
    let slen = s.len();
    let mut p0: usize = 0;
    if slen >= 2 && s[0] == 0x08 {
        if s[1] == 0 {
            p0 = 2;
        } else {
            return None;
        }
    }
    let (secret, p1): (Vec<u8>, usize) = if p0 < slen && s[p0] == 0x12 {
        match read_len_field(s, p0 + 1) {
            Some(x) => x,
            None => {
                return None;
            },
        }
    } else {
        (Vec::new(), p0)
    };
    if p1 == slen {
        return Some((secret, None));
    }
    if s[p1] != 0x1a {
        return None;
    }
    match read_len_field(s, p1 + 1) {
        Some((mime, p2)) => {
            if p2 == slen {
                Some((secret, Some(mime)))
            } else {
                None
            }
        },
        None => None,
    }
}

} // verus!
