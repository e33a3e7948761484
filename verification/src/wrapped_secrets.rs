//! Secret sharing with a wrapped secret: the raw bytes travel inside a
//! versioned envelope that can also carry the secret's MIME type, so that
//! recovery can hand back typed data.

use vstd::prelude::*;
use crate::errors::Error;
use crate::share::{
    Share, spec_share_ok, spec_share_fields, spec_first_bad, spec_share_text, spec_parsed_from,
    lemma_first_bad_bounded, spec_parse_err_matches,
};
use crate::sss::{
    spec_split_ok, spec_recovered, spec_recover_ok, spec_recover_err_matches,
    recover_secret_from_shares,
};
use crate::wire::{spec_envelope, spec_parse_envelope, spec_share_payload, encode_envelope,
    parse_envelope};
use vstd::string::StrSliceExecFns;

verus! {

/// The envelope format's version tag.
#[derive(Clone, Copy, Debug, PartialEq, Eq, Structural)]
pub enum SecretVersion {
    /// The first and, so far, only envelope layout.
    InitialRelease,
}

/// A recovered wrapped secret: the version it was written under, the raw
/// secret bytes, and the MIME type when one was carried.
#[derive(Clone, Debug, PartialEq, Eq)]
pub struct Secret {
    /// The envelope version the secret was written under.
    pub version: SecretVersion,
    /// The raw secret bytes.
    pub secret: Vec<u8>,
    /// The secret's MIME type, when one was carried.
    pub mime_type: Option<String>,
}

/// The UTF-8 bytes of an optional MIME string.
pub open spec fn spec_mime_bytes(m: Option<String>) -> Option<Seq<u8>> {
    if m is Some {
        Some(vstd::utf8::encode_utf8(m->0@))
    } else {
        None
    }
}

/// Relies on `String::from_utf8`: it succeeds exactly on valid UTF-8, and
/// a successfully decoded string encodes back to exactly the input bytes.
#[verifier::external_body]
fn utf8_to_string(bytes: Vec<u8>) -> (r: Option<String>)
    ensures
        r matches Some(s) ==> vstd::utf8::encode_utf8(s@) == bytes@,
        r is Some <==> vstd::utf8::valid_utf8(bytes@),
{
    String::from_utf8(bytes).ok()
}

/// The condition under which wrapped recovery succeeds: recovery itself
/// succeeds, the recovered bytes decode as an envelope, and any MIME
/// bytes it carries are valid UTF-8.
pub open spec fn spec_wrapped_ok(shares: Seq<Share>, verify_signatures: bool) -> bool {
    &&& spec_recover_ok(shares, verify_signatures)
    &&& spec_parse_envelope(spec_recovered(shares)) is Some
    &&& ((spec_parse_envelope(spec_recovered(shares))->0).1 matches Some(mb)
        ==> vstd::utf8::valid_utf8(mb))
}

/// The scheme object for wrapped secrets.
#[derive(Clone, Copy, Debug, PartialEq, Eq, Structural)]
pub struct WrappedSecrets;

impl Default for WrappedSecrets {
    fn default() -> (r: Self)
        ensures
            r == (WrappedSecrets {  }),
    {
        WrappedSecrets {  }
    }
}

impl WrappedSecrets {
    /// Split a secret, wrapped in its envelope, into `n` share lines with
    /// threshold `k`.
    pub fn generate_shares(
        &self,
        k: u8,
        n: u8,
        secret: &[u8],
        mime_type: Option<String>,
        sign_shares: bool,
    ) -> (r: Result<Vec<String>, Error>)
        ensures
            (k == 0 || n == 0) ==> r == Err::<Vec<String>, Error>(
                Error::InvalidSplitParametersZero(k, n),
            ),
            (k >= 1 && n >= 1 && k > n) ==> r == Err::<Vec<String>, Error>(
                Error::InvalidThreshold(k, n),
            ),
            (1 <= k && k <= n && sign_shares) ==> r == Err::<Vec<String>, Error>(
                Error::CannotGenerateRandomNumbers,
            ),
            r matches Err(e) ==> (e is InvalidSplitParametersZero || e is InvalidThreshold
                || e is CannotGenerateRandomNumbers),
            r matches Err(e) ==> (e is InvalidSplitParametersZero ==> (k == 0 || n == 0)),
            r matches Err(e) ==> (e is InvalidThreshold ==> (k >= 1 && n >= 1 && k > n)),
            r matches Err(e) ==> (e is CannotGenerateRandomNumbers ==> 1 <= k <= n && (
            sign_shares || (2 <= k && spec_envelope(secret@, spec_mime_bytes(mime_type)).len()
                > 0))),
            (1 <= k <= n && !sign_shares && (k == 1 || spec_envelope(
                secret@,
                spec_mime_bytes(mime_type),
            ).len() == 0)) ==> r is Ok,
            r is Ok ==> 1 <= k <= n && !sign_shares,
            r matches Ok(lines) ==> lines@.len() == n as nat && (exists|
                rows: Seq<Seq<u8>>,
                cols: Seq<Seq<u8>>,
            |
                #[trigger] spec_split_ok(
                    spec_envelope(secret@, spec_mime_bytes(mime_type)),
                    k,
                    n,
                    rows,
                    cols,
                ) && (forall|i: int|
                    0 <= i < n as int ==> (#[trigger] lines@[i])@ == spec_share_text(
                        k,
                        (i + 1) as u8,
                        spec_share_payload(rows[i], Seq::empty(), None),
                    ).map_values(|b: u8| b as char)) && (forall|i: int|
                    0 <= i < n as int ==> spec_share_ok((#[trigger] lines@[i])@, false) == Some(
                        (k, (i + 1) as u8, rows[i], None::<(Seq<Seq<u8>>, Seq<u8>)>),
                    ))),
    {
        let mime_bytes: Option<Vec<u8>> = match &mime_type {
            Some(s) => Some(s.as_str().as_bytes_vec()),
            None => None,
        };
        let data = encode_envelope(secret, &mime_bytes);
        proof {
            assert(crate::wire::opt_view(mime_bytes) == spec_mime_bytes(mime_type));
            assert(data@ == spec_envelope(secret@, spec_mime_bytes(mime_type)));
        }
        crate::sss::generate_shares(k, n, data.as_slice(), sign_shares)
    }

    /// Recover a wrapped secret from parsed shares: recover the envelope
    /// bytes, then decode them.
    pub fn recover_secret(shares: Vec<Share>, verify_signatures: bool) -> (r: Result<
        Secret,
        Error,
    >)
        ensures
            r is Ok <==> spec_wrapped_ok(shares@, verify_signatures),
            r matches Err(e) ==> (if !spec_recover_ok(shares@, verify_signatures) {
                spec_recover_err_matches(shares@, verify_signatures, e)
            } else {
                e == Error::SecretDeserialization
            }),
            r matches Ok(sec) ==> ({
                &&& spec_parse_envelope(spec_recovered(shares@)) is Some
                &&& sec.version == SecretVersion::InitialRelease
                &&& sec.secret@ == (spec_parse_envelope(spec_recovered(shares@))->0).0
                &&& ((spec_parse_envelope(spec_recovered(shares@))->0).1 is None <==> sec.mime_type
                    is None)
                &&& (sec.mime_type matches Some(m) ==> Some(vstd::utf8::encode_utf8(m@)) == (
                spec_parse_envelope(spec_recovered(shares@))->0).1)
            }),
    {
        let bytes = match recover_secret_from_shares(shares, verify_signatures) {
            Ok(v) => v,
            Err(e) => {
                return Err(e);
            },
        };
        match parse_envelope(bytes.as_slice()) {
            Some((secret, mime_b)) => {
                let mime_type: Option<String> = match mime_b {
                    Some(mb) => match utf8_to_string(mb) {
                        Some(s) => Some(s),
                        None => {
                            return Err(Error::SecretDeserialization);
                        },
                    },
                    None => None,
                };
                Ok(Secret { version: SecretVersion::InitialRelease, secret, mime_type })
            },
            None => Err(Error::SecretDeserialization),
        }
    }
}

/// Split a secret, wrapped in its envelope, into `n` share lines with
/// threshold `k`.
pub fn generate_shares(
    k: u8,
    n: u8,
    secret: &[u8],
    mime_type: Option<String>,
    sign_shares: bool,
) -> (r: Result<Vec<String>, Error>)
    ensures
        (k == 0 || n == 0) ==> r == Err::<Vec<String>, Error>(
            Error::InvalidSplitParametersZero(k, n),
        ),
        (k >= 1 && n >= 1 && k > n) ==> r == Err::<Vec<String>, Error>(
            Error::InvalidThreshold(k, n),
        ),
        (1 <= k && k <= n && sign_shares) ==> r == Err::<Vec<String>, Error>(
            Error::CannotGenerateRandomNumbers,
        ),
        r matches Err(e) ==> (e is InvalidSplitParametersZero || e is InvalidThreshold
            || e is CannotGenerateRandomNumbers),
        r matches Err(e) ==> (e is InvalidSplitParametersZero ==> (k == 0 || n == 0)),
        r matches Err(e) ==> (e is InvalidThreshold ==> (k >= 1 && n >= 1 && k > n)),
        r matches Err(e) ==> (e is CannotGenerateRandomNumbers ==> 1 <= k <= n && (sign_shares
            || (2 <= k && spec_envelope(secret@, spec_mime_bytes(mime_type)).len() > 0))),
        (1 <= k <= n && !sign_shares && (k == 1 || spec_envelope(
            secret@,
            spec_mime_bytes(mime_type),
        ).len() == 0)) ==> r is Ok,
        r is Ok ==> 1 <= k <= n && !sign_shares,
        r matches Ok(lines) ==> lines@.len() == n as nat && (exists|
            rows: Seq<Seq<u8>>,
            cols: Seq<Seq<u8>>,
        |
            #[trigger] spec_split_ok(
                spec_envelope(secret@, spec_mime_bytes(mime_type)),
                k,
                n,
                rows,
                cols,
            ) && (forall|i: int|
                0 <= i < n as int ==> (#[trigger] lines@[i])@ == spec_share_text(
                    k,
                    (i + 1) as u8,
                    spec_share_payload(rows[i], Seq::empty(), None),
                ).map_values(|b: u8| b as char)) && (forall|i: int|
                0 <= i < n as int ==> spec_share_ok((#[trigger] lines@[i])@, false) == Some(
                    (k, (i + 1) as u8, rows[i], None::<(Seq<Seq<u8>>, Seq<u8>)>),
                ))),
{
    WrappedSecrets::default().generate_shares(k, n, secret, mime_type, sign_shares)
}

/// Recover a wrapped secret from share lines: parse every line, recover
/// the envelope bytes, and decode them.
#[verifier::rlimit(100)]
pub fn recover_secret(shares: Vec<String>, verify_signatures: bool) -> (r: Result<Secret, Error>)
    ensures
        r is Ok ==> spec_first_bad(
            shares@.map_values(|s: String| s@),
            verify_signatures,
            0,
        ) == shares@.len(),
        spec_first_bad(shares@.map_values(|s: String| s@), verify_signatures, 0)
            < shares@.len() ==> r is Err,
        r matches Ok(sec) ==> (exists|parsed: Seq<Share>|
            #[trigger] spec_parsed_from(shares@, parsed, verify_signatures) && spec_wrapped_ok(
                parsed,
                verify_signatures,
            ) && ({
                &&& sec.version == SecretVersion::InitialRelease
                &&& sec.secret@ == (spec_parse_envelope(spec_recovered(parsed))->0).0
                &&& ((spec_parse_envelope(spec_recovered(parsed))->0).1 is None <==> sec.mime_type
                    is None)
                &&& (sec.mime_type matches Some(m) ==> Some(vstd::utf8::encode_utf8(m@)) == (
                spec_parse_envelope(spec_recovered(parsed))->0).1)
            })),
        (spec_first_bad(shares@.map_values(|s: String| s@), verify_signatures, 0)
            == shares@.len() && (forall|parsed: Seq<Share>|
            spec_parsed_from(shares@, parsed, verify_signatures) ==> #[trigger] spec_wrapped_ok(
                parsed,
                verify_signatures,
            ))) ==> r is Ok,
        r matches Err(e) ==> ({
            let views = shares@.map_values(|s: String| s@);
            let fb = spec_first_bad(views, verify_signatures, 0);
            &&& (fb < views.len() ==> spec_parse_err_matches(
                views[fb],
                verify_signatures,
                (fb % 256) as u8,
                e,
            ))
            &&& (fb == views.len() ==> (exists|parsed: Seq<Share>|
                #[trigger] spec_parsed_from(shares@, parsed, verify_signatures) && (if !spec_recover_ok(
                    parsed,
                    verify_signatures,
                ) {
                    spec_recover_err_matches(parsed, verify_signatures, e)
                } else {
                    e == Error::SecretDeserialization
                })))
        }),
{
    let parsed = match Share::parse_all(shares.as_slice(), verify_signatures) {
        Ok(v) => v,
        Err(e) => {
            proof {
                let views = shares@.map_values(|s: String| s@);
                let fb = spec_first_bad(views, verify_signatures, 0);
                lemma_first_bad_bounded(views, verify_signatures, 0);
                if 0 <= fb < views.len() {
                    assert(views[fb] == shares@[fb]@);
                }
            }
            return Err(e);
        },
    };
    let ghost parsed_seq = parsed@;
    proof {
        let views = shares@.map_values(|s: String| s@);
        assert forall|i: int| 0 <= i < parsed_seq.len() implies spec_share_ok(
            #[trigger] shares@[i]@,
            verify_signatures,
        ) is Some && spec_share_fields(
            parsed_seq[i],
            spec_share_ok(shares@[i]@, verify_signatures)->0,
            verify_signatures,
        ) by {
            assert(views[i] == shares@[i]@);
            assert(spec_share_ok(views[i], verify_signatures) is Some && spec_share_fields(
                parsed_seq[i],
                spec_share_ok(views[i], verify_signatures)->0,
                verify_signatures,
            ));
        }
        assert(spec_parsed_from(shares@, parsed_seq, verify_signatures));
    }
    let out = WrappedSecrets::recover_secret(parsed, verify_signatures);
    match out {
        Ok(sec) => {
            proof {
                assert(spec_wrapped_ok(parsed_seq, verify_signatures));
            }
            Ok(sec)
        },
        Err(e) => {
            proof {
                assert(!spec_wrapped_ok(parsed_seq, verify_signatures));
            }
            Err(e)
        },
    }
}

} // verus!
