//! Raw Shamir secret sharing: split a byte string into `n` share lines of
//! which any `k` recover it, and recover from a set of share lines.

use vstd::prelude::*;
use crate::errors::Error;
use crate::lagrange::{PartialSecret, spec_secret_at_zero};
use crate::poly::{spec_poly_eval, poly_eval};
use crate::share::{
    Share, spec_share_text, spec_share_ok, spec_share_fields, spec_first_bad, share_string_from,
    spec_pair_view,
};
use crate::validation::{
    validate_signed_shares, copy_bytes, spec_dup_err_from, spec_same_k, spec_all_signed,
    spec_all_roots, spec_same_root, spec_validate_ok, spec_k_buckets, spec_first_unsigned,
    spec_first_rootless, lemma_no_dup_ids, lemma_all_signed_no_unsigned,
    lemma_all_roots_no_rootless, spec_validate_err_matches,
};
use crate::share::{
    lemma_first_bad_bounded, spec_parsed_from, spec_share_payload_line,
    lemma_share_line_roundtrip, spec_parse_err_matches,
};
use crate::wire::spec_share_payload;

verus! {

/// Relies on ring's `SystemRandom` and `SecureRandom::fill`: on success
/// the whole buffer is filled with fresh bytes from the operating system's
/// entropy source; nothing is promised of the bytes' values, and even a
/// zero-length fill may fail, since the first call can probe the system's
/// random source.
#[verifier::external_body]
fn random_bytes(len: usize) -> (r: Result<Vec<u8>, Error>)
    ensures
        r matches Ok(v) ==> v@.len() == len as nat,
        r matches Err(e) ==> e == Error::CannotGenerateRandomNumbers,
{
    let mut buf = vec![0u8; len];
    let rng = ring::rand::SystemRandom::new();
    match ring::rand::SecureRandom::fill(&rng, &mut buf) {
        Ok(()) => Ok(buf),
        Err(_) => Err(Error::CannotGenerateRandomNumbers),
    }
}

/// The rows are a valid splitting of the secret under `(k, n)` with the
/// polynomial coefficients `cols`: one row per share, one byte per secret
/// byte; column `j` of the rows is the evaluation of the degree-below-`k`
/// polynomial `cols[j]`, whose constant term is the secret byte, at the
/// abscissae `1..=n`.
pub open spec fn spec_split_ok(
    secret: Seq<u8>,
    k: u8,
    n: u8,
    rows: Seq<Seq<u8>>,
    cols: Seq<Seq<u8>>,
) -> bool {
    &&& rows.len() == n as nat
    &&& (forall|i: int| 0 <= i < rows.len() ==> (#[trigger] rows[i]).len() == secret.len())
    &&& cols.len() == secret.len()
    &&& (forall|j: int| 0 <= j < cols.len() ==> (#[trigger] cols[j]).len() == k as nat)
    &&& (forall|j: int| 0 <= j < cols.len() ==> (#[trigger] cols[j])[0] == secret[j])
    &&& (forall|i: int, j: int|
        0 <= i < n as int && 0 <= j < secret.len() ==> (#[trigger] rows[i][j]) == spec_poly_eval(
            cols[j],
            (i + 1) as u8,
        ))
}

/// Split the secret byte-wise: each byte becomes the constant term of a
/// fresh random polynomial of degree below `k`, evaluated at `1..=n`.
fn secret_share(secret: &[u8], k: u8, n: u8) -> (r: (Result<Vec<Vec<u8>>, Error>, Ghost<
    Seq<Seq<u8>>,
>))
    requires
        1 <= k <= n,
    ensures
        r.0 matches Ok(rows) ==> spec_split_ok(
            secret@,
            k,
            n,
            rows@.map_values(|v: Vec<u8>| v@),
            r.1@,
        ),
        r.0 matches Err(e) ==> e == Error::CannotGenerateRandomNumbers,
        secret@.len() == 0 ==> r.0 is Ok,
        k == 1 ==> r.0 is Ok,
{
    let len = secret.len();
    let mut cols: Vec<Vec<u8>> = Vec::new();
    let mut j: usize = 0;
    while j < len
        invariant
            j <= len,
            len == secret@.len(),
            1 <= k,
            cols@.len() == j,
            forall|l: int|
                0 <= l < j ==> (#[trigger] cols@[l])@.len() == k as nat && cols@[l]@[0]
                    == secret@[l],
        decreases len - j,
    {
        let mut coeffs: Vec<u8> = Vec::new();
        coeffs.push(secret[j]);
        if k > 1 {
            let mut rnd = match random_bytes((k - 1) as usize) {
                Ok(v) => v,
                Err(e) => {
                    return (Err(e), Ghost(Seq::empty()));
                },
            };
            coeffs.append(&mut rnd);
        }
        cols.push(coeffs);
        j = j + 1;
    }
    let mut rows: Vec<Vec<u8>> = Vec::new();
    let mut i: usize = 0;
    while i < n as usize
        invariant
            i <= n as usize,
            len == secret@.len(),
            1 <= k <= n,
            cols@.len() == len,
            forall|l: int|
                0 <= l < len ==> (#[trigger] cols@[l])@.len() == k as nat && cols@[l]@[0]
                    == secret@[l],
            rows@.len() == i,
            forall|r0: int|
                0 <= r0 < i ==> (#[trigger] rows@[r0])@.len() == len,
            forall|r0: int, j0: int|
                0 <= r0 < i && 0 <= j0 < len ==> (#[trigger] rows@[r0]@[j0]) == spec_poly_eval(
                    cols@[j0]@,
                    (r0 + 1) as u8,
                ),
        decreases n as usize - i,
    {
        let x = (i + 1) as u8;
        let mut row: Vec<u8> = Vec::new();
        let mut j2: usize = 0;
        while j2 < len
            invariant
                j2 <= len,
                len == secret@.len(),
                cols@.len() == len,
                i < n as usize,
                x == (i + 1) as u8,
                row@.len() == j2,
                forall|j0: int|
                    0 <= j0 < j2 ==> (#[trigger] row@[j0]) == spec_poly_eval(cols@[j0]@, x),
            decreases len - j2,
        {
            let b = poly_eval(cols[j2].as_slice(), x);
            row.push(b);
            j2 = j2 + 1;
        }
        rows.push(row);
        i = i + 1;
    }
    proof {
        let rowviews = rows@.map_values(|v: Vec<u8>| v@);
        let colviews = cols@.map_values(|v: Vec<u8>| v@);
        assert(rowviews.len() == n as nat);
        assert forall|i0: int| 0 <= i0 < n as int implies (#[trigger] rowviews[i0]) == rows@[i0]@
            by {}
        assert forall|i0: int| 0 <= i0 < rowviews.len() implies (#[trigger] rowviews[i0]).len()
            == secret@.len() by {
            assert(rowviews[i0] == rows@[i0]@);
        }
        assert forall|j0: int| 0 <= j0 < colviews.len() implies (#[trigger] colviews[j0]).len()
            == k as nat by {
            assert(colviews[j0] == cols@[j0]@);
        }
        assert forall|j0: int| 0 <= j0 < colviews.len() implies (#[trigger] colviews[j0])[0]
            == secret@[j0] by {
            assert(colviews[j0] == cols@[j0]@);
        }
        assert forall|i0: int, j0: int|
            0 <= i0 < n as int && 0 <= j0 < secret@.len() implies (#[trigger] rowviews[i0][j0])
            == spec_poly_eval(colviews[j0], (i0 + 1) as u8) by {
            assert(rowviews[i0] == rows@[i0]@);
            assert(colviews[j0] == cols@[j0]@);
            assert(rows@[i0]@[j0] == spec_poly_eval(cols@[j0]@, (i0 + 1) as u8));
        }
        assert(spec_split_ok(secret@, k, n, rowviews, colviews));
    }
    let ghost colviews = cols@.map_values(|v: Vec<u8>| v@);
    (Ok(rows), Ghost(colviews))
}

/// Split a secret into `n` share lines with threshold `k`.
///
/// Producing signed shares draws fresh one-time keys through the Merkle
/// signature primitive, which only the application layer links; at this
/// level a request for signed shares reports the signer as unavailable,
/// with the same error the split itself gives when the random source
/// fails.
pub fn generate_shares(k: u8, n: u8, secret: &[u8], sign_shares: bool) -> (r: Result<
    Vec<String>,
    Error,
>)
    ensures
        (k == 0 || n == 0) ==> r == Err::<Vec<String>, Error>(
            Error::InvalidSplitParametersZero(k, n),
        ),
        (k >= 1 && n >= 1 && k > n) ==> r == Err::<Vec<String>, Error>(
            Error::InvalidThreshold(k, n),
        ),
        (1 <= k && k <= n && sign_shares) ==> r == Err::<Vec<String>, Error>(
            Error::CannotGenerateRandomNumbers,
        ),
        r matches Err(e) ==> (e is InvalidSplitParametersZero ==> (k == 0 || n == 0)),
        r matches Err(e) ==> (e is InvalidThreshold ==> (k >= 1 && n >= 1 && k > n)),
        r matches Err(e) ==> (e is CannotGenerateRandomNumbers ==> 1 <= k <= n && (sign_shares
            || (2 <= k && secret@.len() > 0))),
        r matches Err(e) ==> (e is InvalidSplitParametersZero || e is InvalidThreshold
            || e is CannotGenerateRandomNumbers),
        (1 <= k <= n && !sign_shares && (k == 1 || secret@.len() == 0)) ==> r is Ok,
        r is Ok ==> 1 <= k <= n && !sign_shares,
        r matches Ok(lines) ==> lines@.len() == n as nat && (exists|
            rows: Seq<Seq<u8>>,
            cols: Seq<Seq<u8>>,
        |
            #[trigger] spec_split_ok(secret@, k, n, rows, cols) && (forall|i: int|
                0 <= i < n as int ==> (#[trigger] lines@[i])@ == spec_share_text(
                    k,
                    (i + 1) as u8,
                    spec_share_payload(rows[i], Seq::empty(), None),
                ).map_values(|b: u8| b as char)) && (forall|i: int|
                0 <= i < n as int ==> spec_share_ok((#[trigger] lines@[i])@, false) == Some(
                    (k, (i + 1) as u8, rows[i], None::<(Seq<Seq<u8>>, Seq<u8>)>),
                ))),
{
    if k == 0 || n == 0 {
        return Err(Error::InvalidSplitParametersZero(k, n));
    }
    if k > n {
        return Err(Error::InvalidThreshold(k, n));
    }
    if sign_shares {
        return Err(Error::CannotGenerateRandomNumbers);
    }
    let (rows_res, cols_ghost) = secret_share(secret, k, n);
    let rows = match rows_res {
        Ok(v) => v,
        Err(e) => {
            return Err(e);
        },
    };
    let ghost rowviews = rows@.map_values(|v: Vec<u8>| v@);
    let ghost colviews = cols_ghost@;
    let mut lines: Vec<String> = Vec::new();
    let mut i: usize = 0;
    while i < n as usize
        invariant
            i <= n as usize,
            rows@.len() == n as nat,
            rowviews == rows@.map_values(|v: Vec<u8>| v@),
            spec_split_ok(secret@, k, n, rowviews, colviews),
            lines@.len() == i,
            1 <= k,
            forall|l: int|
                0 <= l < i ==> (#[trigger] lines@[l])@ == spec_share_text(
                    k,
                    (l + 1) as u8,
                    spec_share_payload(rowviews[l], Seq::empty(), None),
                ).map_values(|b: u8| b as char),
            forall|l: int|
                0 <= l < i ==> spec_share_ok((#[trigger] lines@[l])@, false) == Some(
                    (k, (l + 1) as u8, rowviews[l], None::<(Seq<Seq<u8>>, Seq<u8>)>),
                ),
        decreases n as usize - i,
    {
        let data = copy_bytes(rows[i].as_slice());
        let line = share_string_from(data, k, (i + 1) as u8, None);
        proof {
            assert(spec_pair_view(None).0 =~= Seq::<Seq<u8>>::empty());
            assert(rowviews[i as int] == rows@[i as int]@);
            lemma_share_line_roundtrip(
                k,
                (i + 1) as u8,
                rowviews[i as int],
                Seq::empty(),
                None,
            );
            assert(line@ == spec_share_payload_line(
                k,
                (i + 1) as u8,
                rowviews[i as int],
                Seq::empty(),
                None,
            ));
        }
        lines.push(line);
        i = i + 1;
    }
    Ok(lines)
}

/// The identifiers of the first `upto` shares, in order.
pub open spec fn spec_share_ids(shares: Seq<Share>, upto: int) -> Seq<u8> {
    Seq::new(upto as nat, |i: int| shares[i].id)
}

/// Column `j` of the first `upto` shares' data.
pub open spec fn spec_share_col(shares: Seq<Share>, upto: int, j: int) -> Seq<u8> {
    Seq::new(upto as nat, |i: int| shares[i].data@[j])
}

/// The bytes a validated share set recovers to: with a threshold of 1 the
/// first share's data itself, else the barycentric interpolation of each
/// column of the first threshold many shares at the field origin.
pub open spec fn spec_recovered(shares: Seq<Share>) -> Seq<u8> {
    let k = shares[0].k as int;
    if shares[0].k == 1 {
        shares[0].data@
    } else {
        Seq::new(
            shares[0].data@.len(),
            |j: int| spec_secret_at_zero(spec_share_ids(shares, k), spec_share_col(shares, k, j)),
        )
    }
}

/// The first failure among the threshold many shares recovery reads: an
/// identifier of zero (outside the valid range `[1, 255]`), or data whose
/// length differs from the first share's.
pub open spec fn spec_guard_err(shares: Seq<Share>, from: int, upto: int) -> Option<Error>
    decreases upto - from,
{
    if from < 0 || from >= upto {
        None
    } else if shares[from].id == 0 {
        Some(Error::ShareIdentifierTooBig(0, 255))
    } else if shares[from].data@.len() != shares[0].data@.len() {
        Some(Error::CorruptedShare(shares[from].id))
    } else {
        spec_guard_err(shares, from + 1, upto)
    }
}

/// The condition under which recovery succeeds: the validation pipeline
/// passes, the threshold is at least one, and the threshold many shares
/// read all carry a non-zero identifier and data of one length.
pub open spec fn spec_recover_ok(shares: Seq<Share>, verify_signatures: bool) -> bool {
    &&& spec_validate_ok(shares, verify_signatures)
    &&& shares[0].k >= 1
    &&& spec_guard_err(shares, 0, shares[0].k as int) is None
}

/// Which error recovery reports for a share set: the validation
/// pipeline's error first, else a threshold of zero, else the first
/// failing share among those read.
pub open spec fn spec_recover_err_matches(
    shares: Seq<Share>,
    verify_signatures: bool,
    e: Error,
) -> bool {
    if !spec_validate_ok(shares, verify_signatures) {
        spec_validate_err_matches(shares, verify_signatures, e)
    } else if shares[0].k == 0 {
        e == Error::EmptyShares
    } else {
        e == spec_guard_err(shares, 0, shares[0].k as int)->0
    }
}

/// Recover the secret bytes from parsed shares: run the validation
/// pipeline, then interpolate each byte column of the first threshold
/// many shares.
pub fn recover_secret_from_shares(shares: Vec<Share>, verify_signatures: bool) -> (r: Result<
    Vec<u8>,
    Error,
>)
    ensures
        r is Ok <==> spec_recover_ok(shares@, verify_signatures),
        r matches Ok(bytes) ==> bytes@ == spec_recovered(shares@),
        shares@.len() == 0 ==> r == Err::<Vec<u8>, Error>(Error::EmptyShares),
        shares@.len() > 0 && spec_dup_err_from(shares@, 0) is Some ==> r == Err::<
            Vec<u8>,
            Error,
        >(spec_dup_err_from(shares@, 0)->0),
        shares@.len() > 0 && spec_dup_err_from(shares@, 0) is None && !spec_same_k(shares@) ==> (
        r matches Err(e) && (e matches Error::IncompatibleSets(sets) && sets@.map_values(
            |v: Vec<u8>| v@,
        ) == spec_k_buckets(shares@))),
        shares@.len() > 0 && spec_dup_err_from(shares@, 0) is None && spec_same_k(shares@)
            && shares@.len() < shares@[0].k as nat ==> r == Err::<Vec<u8>, Error>(
            Error::MissingShares(shares@[0].k as usize, shares@.len() as usize),
        ),
        ({
            let fu = spec_first_unsigned(shares@, 0);
            spec_validate_ok(shares@, false) && verify_signatures && fu < shares@.len() ==> r
                == Err::<Vec<u8>, Error>(Error::MissingSignature(shares@[fu].id))
        }),
        ({
            let fr = spec_first_rootless(shares@, 0);
            spec_validate_ok(shares@, false) && verify_signatures && spec_all_signed(shares@)
                && fr < shares@.len() ==> r == Err::<Vec<u8>, Error>(
                Error::CorruptedShare(shares@[fr].id),
            )
        }),
        spec_validate_ok(shares@, false) && verify_signatures && spec_all_signed(shares@)
            && spec_all_roots(shares@) && !spec_same_root(shares@) ==> (r matches Err(e) && (e
            matches Error::IncompatibleSets(sets) && sets@.map_values(|v: Vec<u8>| v@)
            == crate::validation::spec_root_buckets(shares@))),
        spec_validate_ok(shares@, verify_signatures) && shares@[0].k == 0 ==> r == Err::<
            Vec<u8>,
            Error,
        >(Error::EmptyShares),
        spec_validate_ok(shares@, verify_signatures) && shares@[0].k >= 1 && spec_guard_err(
            shares@,
            0,
            shares@[0].k as int,
        ) is Some ==> r == Err::<Vec<u8>, Error>(
            spec_guard_err(shares@, 0, shares@[0].k as int)->0,
        ),
        r matches Err(e) ==> spec_recover_err_matches(shares@, verify_signatures, e),
{
    let (threshold, kept) = match validate_signed_shares(shares, verify_signatures) {
        Ok(p) => p,
        Err(e) => {
            return Err(e);
        },
    };
    proof {
        if verify_signatures {
            lemma_all_signed_no_unsigned(shares@, 0);
            lemma_all_roots_no_rootless(shares@, 0);
        }
    }
    if threshold == 0 {
        return Err(Error::EmptyShares);
    }
    let t = threshold as usize;
    let dlen = kept[0].data.len();
    let mut c: usize = 0;
    while c < t
        invariant
            c <= t,
            kept@ == shares@,
            spec_validate_ok(shares@, verify_signatures),
            verify_signatures ==> spec_first_unsigned(shares@, 0) == shares@.len() as int,
            verify_signatures ==> spec_first_rootless(shares@, 0) == shares@.len() as int,
            threshold == kept@[0].k,
            threshold >= 1,
            t == kept@[0].k as usize,
            kept@.len() >= t,
            dlen == kept@[0].data@.len(),
            spec_guard_err(kept@, 0, t as int) == spec_guard_err(kept@, c as int, t as int),
            forall|i: int| 0 <= i < c ==> (#[trigger] kept@[i].id) != 0,
            forall|i: int| 0 <= i < c ==> (#[trigger] kept@[i].data)@.len() == dlen,
        decreases t - c,
    {
        if kept[c].id == 0 {
            proof {
                assert(spec_guard_err(kept@, c as int, t as int) == Some(
                    Error::ShareIdentifierTooBig(0, 255),
                ));
            }
            return Err(Error::ShareIdentifierTooBig(0, 255));
        }
        if kept[c].data.len() != dlen {
            proof {
                assert(spec_guard_err(kept@, c as int, t as int) == Some(
                    Error::CorruptedShare(kept@[c as int].id),
                ));
            }
            return Err(Error::CorruptedShare(kept[c].id));
        }
        proof {
            assert(kept@[c as int].id != 0 && kept@[c as int].data@.len() == dlen);
        }
        c = c + 1;
    }
    proof {
        assert(spec_guard_err(kept@, 0, t as int) is None);
        assert(spec_recover_ok(shares@, verify_signatures));
    }
    if threshold == 1 {
        return Ok(copy_bytes(kept[0].data.as_slice()));
    }
    proof {
        lemma_no_dup_ids(kept@, 0);
    }
    let mut ids: Vec<u8> = Vec::new();
    let mut i: usize = 0;
    while i < t
        invariant
            i <= t,
            t <= kept@.len(),
            2 <= threshold,
            t == threshold as usize,
            t == kept@[0].k as usize,
            dlen == kept@[0].data@.len(),
            forall|l: int| 0 <= l < t ==> (#[trigger] kept@[l].id) != 0,
            forall|l: int| 0 <= l < t ==> (#[trigger] kept@[l].data)@.len() == dlen,
            forall|q: int, r0: int|
                0 <= q < r0 < kept@.len() ==> (#[trigger] kept@[q].id) != (#[trigger] kept@[r0].id),
            ids@.len() == i,
            forall|l: int| 0 <= l < i ==> (#[trigger] ids@[l]) == kept@[l].id,
        decreases t - i,
    {
        ids.push(kept[i].id);
        i = i + 1;
    }
    proof {
        assert(ids@ =~= spec_share_ids(kept@, t as int));
    }
    let mut out: Vec<u8> = Vec::new();
    let mut j: usize = 0;
    while j < dlen
        invariant
            j <= dlen,
            2 <= threshold,
            t == threshold as usize,
            t <= kept@.len(),
            t == kept@[0].k as usize,
            dlen == kept@[0].data@.len(),
            ids@ == spec_share_ids(kept@, t as int),
            forall|l: int| 0 <= l < t ==> (#[trigger] kept@[l].id) != 0,
            forall|l: int| 0 <= l < t ==> (#[trigger] kept@[l].data)@.len() == dlen,
            forall|q: int, r0: int|
                0 <= q < r0 < kept@.len() ==> (#[trigger] kept@[q].id) != (#[trigger] kept@[r0].id),
            out@.len() == j,
            forall|j0: int|
                0 <= j0 < j ==> (#[trigger] out@[j0]) == spec_secret_at_zero(
                    spec_share_ids(kept@, t as int),
                    spec_share_col(kept@, t as int, j0),
                ),
        decreases dlen - j,
    {
        let mut ys: Vec<u8> = Vec::new();
        let mut i2: usize = 0;
        while i2 < t
            invariant
                i2 <= t,
                t <= kept@.len(),
                j < dlen,
                forall|l: int| 0 <= l < t ==> (#[trigger] kept@[l].data)@.len() == dlen,
                ys@.len() == i2,
                forall|l: int| 0 <= l < i2 ==> (#[trigger] ys@[l]) == kept@[l].data@[j as int],
            decreases t - i2,
        {
            ys.push(kept[i2].data[j]);
            i2 = i2 + 1;
        }
        proof {
            assert(ys@ =~= spec_share_col(kept@, t as int, j as int));
            assert forall|l: int| 0 <= l < ids@.len() implies (#[trigger] ids@[l]) != 0 by {
                assert(ids@[l] == kept@[l].id);
            }
            assert forall|a: int, b: int| 0 <= a < b < ids@.len() implies (#[trigger] ids@[a]) != (
            #[trigger] ids@[b]) by {
                assert(ids@[a] == kept@[a].id && ids@[b] == kept@[b].id);
            }
        }
        let ps = PartialSecret::new(threshold, ids.as_slice(), ys.as_slice());
        let b = match ps.get_secret() {
            Ok(v) => v,
            Err(_) => {
                proof {
                    assert(false);
                }
                0
            },
        };
        out.push(b);
        j = j + 1;
    }
    proof {
        assert(out@ =~= spec_recovered(kept@));
    }
    Ok(out)
}

/// Recover the secret from share lines: parse every line, validate the
/// set, and interpolate.
#[verifier::rlimit(100)]
pub fn recover_secret(shares: &[String], verify_signatures: bool) -> (r: Result<Vec<u8>, Error>)
    ensures
        r is Ok ==> spec_first_bad(
            shares@.map_values(|s: String| s@),
            verify_signatures,
            0,
        ) == shares@.len(),
        spec_first_bad(shares@.map_values(|s: String| s@), verify_signatures, 0)
            < shares@.len() ==> r is Err,
        r matches Ok(bytes) ==> (exists|parsed: Seq<Share>|
            #[trigger] spec_parsed_from(shares@, parsed, verify_signatures) && spec_recover_ok(
                parsed,
                verify_signatures,
            ) && bytes@ == spec_recovered(parsed)),
        (spec_first_bad(shares@.map_values(|s: String| s@), verify_signatures, 0)
            == shares@.len() && (forall|parsed: Seq<Share>|
            spec_parsed_from(shares@, parsed, verify_signatures) ==> #[trigger] spec_recover_ok(
                parsed,
                verify_signatures,
            ))) ==> r is Ok,
        r matches Err(e) ==> ({
            let views = shares@.map_values(|s: String| s@);
            let fb = spec_first_bad(views, verify_signatures, 0);
            &&& (fb < views.len() ==> spec_parse_err_matches(
                views[fb],
                verify_signatures,
                (fb % 256) as u8,
                e,
            ))
            &&& (fb == views.len() ==> (exists|parsed: Seq<Share>|
                #[trigger] spec_parsed_from(shares@, parsed, verify_signatures)
                    && spec_recover_err_matches(parsed, verify_signatures, e)))
        }),
{
    let parsed = match Share::parse_all(shares, verify_signatures) {
        Ok(v) => v,
        Err(e) => {
            proof {
                let views = shares@.map_values(|s: String| s@);
                let fb = spec_first_bad(views, verify_signatures, 0);
                lemma_first_bad_bounded(views, verify_signatures, 0);
                if 0 <= fb < views.len() {
                    assert(views[fb] == shares@[fb]@);
                }
            }
            return Err(e);
        },
    };
    let ghost parsed_seq = parsed@;
    proof {
        let views = shares@.map_values(|s: String| s@);
        assert(parsed_seq.len() == shares@.len());
        assert forall|i: int| 0 <= i < parsed_seq.len() implies spec_share_ok(
            #[trigger] shares@[i]@,
            verify_signatures,
        ) is Some && spec_share_fields(
            parsed_seq[i],
            spec_share_ok(shares@[i]@, verify_signatures)->0,
            verify_signatures,
        ) by {
            assert(views[i] == shares@[i]@);
            assert(spec_share_ok(views[i], verify_signatures) is Some && spec_share_fields(
                parsed_seq[i],
                spec_share_ok(views[i], verify_signatures)->0,
                verify_signatures,
            ));
        }
        assert(spec_parsed_from(shares@, parsed_seq, verify_signatures));
    }
    let out = recover_secret_from_shares(parsed, verify_signatures);
    match out {
        Ok(bytes) => {
            proof {
                assert(spec_recover_ok(parsed_seq, verify_signatures));
                assert(bytes@ == spec_recovered(parsed_seq));
            }
            Ok(bytes)
        },
        Err(e) => {
            proof {
                assert(!spec_recover_ok(parsed_seq, verify_signatures));
                assert(spec_recover_err_matches(parsed_seq, verify_signatures, e));
            }
            Err(e)
        },
    }
}

} // verus!
