//! The validation pipeline run over a candidate share set before recovery:
//! non-emptiness, duplicate identifiers and duplicate data, threshold
//! agreement, sufficiency, and — for signed shares — presence of a
//! signature on every share and agreement on one Merkle root.

use vstd::prelude::*;
use crate::errors::Error;
use crate::share::{
    Share, spec_share_ok, spec_share_fields, spec_first_bad, spec_parsed_prefix,
    spec_parsed_from, lemma_first_bad_bounded, spec_parse_err_matches,
};
use crate::wire::spec_proof_root;

verus! {

/// The first duplicate-identifier or duplicate-data error from position
/// `p` on, in the order the pipeline reports them: for each share, a
/// repeated identifier wins over repeated data, and repeated data is
/// tolerated when that share's threshold is 1.
pub open spec fn spec_dup_err_from(shares: Seq<Share>, p: int) -> Option<Error>
    decreases shares.len() - p,
{
    if p < 0 || p >= shares.len() {
        None
    } else if exists|q: int| 0 <= q < p && (#[trigger] shares[q].id) == shares[p].id {
        Some(Error::DuplicateShareId(shares[p].id))
    } else if (exists|q: int| 0 <= q < p && (#[trigger] shares[q].data)@ == shares[p].data@)
        && shares[p].k != 1 {
        Some(Error::DuplicateShareData(shares[p].id))
    } else {
        spec_dup_err_from(shares, p + 1)
    }
}

/// Whether all shares agree on the first share's threshold.
pub open spec fn spec_same_k(shares: Seq<Share>) -> bool {
    forall|i: int| 0 <= i < shares.len() ==> (#[trigger] shares[i].k) == shares[0].k
}

/// The distinct thresholds among the first `upto` shares, in order of
/// first occurrence.
pub open spec fn spec_distinct_ks(shares: Seq<Share>, upto: int) -> Seq<u8>
    decreases upto,
{
    if upto <= 0 {
        Seq::empty()
    } else {
        let pre = spec_distinct_ks(shares, upto - 1);
        if pre.contains(shares[upto - 1].k) {
            pre
        } else {
            pre.push(shares[upto - 1].k)
        }
    }
}

/// The identifiers of the first `upto` shares whose threshold is `k`, in
/// order.
pub open spec fn spec_ids_with_k(shares: Seq<Share>, k: u8, upto: int) -> Seq<u8>
    decreases upto,
{
    if upto <= 0 {
        Seq::empty()
    } else {
        let pre = spec_ids_with_k(shares, k, upto - 1);
        if shares[upto - 1].k == k {
            pre.push(shares[upto - 1].id)
        } else {
            pre
        }
    }
}

/// The identifier groups reported with a threshold disagreement: one
/// group per distinct threshold, in order of first occurrence.
pub open spec fn spec_k_buckets(shares: Seq<Share>) -> Seq<Seq<u8>> {
    spec_distinct_ks(shares, shares.len() as int).map_values(
        |k: u8| spec_ids_with_k(shares, k, shares.len() as int),
    )
}

/// A set without duplicate errors has pairwise distinct identifiers.
pub proof fn lemma_no_dup_ids(shares: Seq<Share>, p: int)
    requires
        0 <= p <= shares.len(),
        spec_dup_err_from(shares, p) is None,
    ensures
        forall|q: int, r: int|
            0 <= q < r < shares.len() && p <= r ==> (#[trigger] shares[q].id) != (
            #[trigger] shares[r].id),
    decreases shares.len() - p,
{
    if p < shares.len() {
        lemma_no_dup_ids(shares, p + 1);
    }
}

/// Compare two byte strings.
pub fn bytes_eq(a: &[u8], b: &[u8]) -> (r: bool)
    ensures
        r == (a@ == b@),
{
    if a.len() != b.len() {
        proof {
            assert(a@ != b@);
        }
        return false;
    }
    let mut i: usize = 0;
    while i < a.len()
        invariant
            i <= a@.len(),
            a@.len() == b@.len(),
            forall|l: int| 0 <= l < i ==> a@[l] == b@[l],
        decreases a@.len() - i,
    {
        if a[i] != b[i] {
            proof {
                assert(a@[i as int] != b@[i as int]);
            }
            return false;
        }
        i = i + 1;
    }
    proof {
        assert(a@ =~= b@);
    }
    true
}

/// Validate a share set structurally: non-empty, no duplicate identifier,
/// no duplicate data (unless the threshold is 1), one threshold, and at
/// least threshold many shares. On success, the threshold and the
/// unchanged set.
pub fn validate_shares(shares: Vec<Share>) -> (r: Result<(u8, Vec<Share>), Error>)
    ensures
        r is Ok <==> shares@.len() > 0 && spec_dup_err_from(shares@, 0) is None && spec_same_k(
            shares@,
        ) && shares@.len() >= shares@[0].k as nat,
        r matches Ok(p) ==> p.0 == shares@[0].k && p.1@ == shares@,
        shares@.len() == 0 ==> r == Err::<(u8, Vec<Share>), Error>(Error::EmptyShares),
        shares@.len() > 0 && spec_dup_err_from(shares@, 0) is Some ==> r == Err::<
            (u8, Vec<Share>),
            Error,
        >(spec_dup_err_from(shares@, 0)->0),
        shares@.len() > 0 && spec_dup_err_from(shares@, 0) is None && !spec_same_k(shares@) ==> (
        r matches Err(e) && (e matches Error::IncompatibleSets(sets) && sets@.map_values(
            |v: Vec<u8>| v@,
        ) == spec_k_buckets(shares@))),
        shares@.len() > 0 && spec_dup_err_from(shares@, 0) is None && spec_same_k(shares@)
            && shares@.len() < shares@[0].k as nat ==> r == Err::<(u8, Vec<Share>), Error>(
            Error::MissingShares(shares@[0].k as usize, shares@.len() as usize),
        ),
{
    let count = shares.len();
    if count == 0 {
        return Err(Error::EmptyShares);
    }
    let mut p: usize = 0;
    while p < count
        invariant
            p <= count,
            count == shares@.len(),
            spec_dup_err_from(shares@, 0) == spec_dup_err_from(shares@, p as int),
        decreases count - p,
    {
        let mut q: usize = 0;
        while q < p
            invariant
                q <= p < count,
                count == shares@.len(),
                spec_dup_err_from(shares@, 0) == spec_dup_err_from(shares@, p as int),
                forall|l: int| 0 <= l < q ==> (#[trigger] shares@[l].id) != shares@[p as int].id,
            decreases p - q,
        {
            if shares[q].id == shares[p].id {
                proof {
                    assert((#[trigger] shares@[q as int].id) == shares@[p as int].id);
                    assert(spec_dup_err_from(shares@, p as int) == Some(
                        Error::DuplicateShareId(shares@[p as int].id),
                    ));
                }
                return Err(Error::DuplicateShareId(shares[p].id));
            }
            q = q + 1;
        }
        if shares[p].k != 1 {
            let mut q2: usize = 0;
            while q2 < p
                invariant
                    q2 <= p < count,
                    count == shares@.len(),
                    spec_dup_err_from(shares@, 0) == spec_dup_err_from(shares@, p as int),
                    shares@[p as int].k != 1,
                    forall|l: int|
                        0 <= l < q2 ==> (#[trigger] shares@[l].data)@ != shares@[p as int].data@,
                    forall|l: int|
                        0 <= l < p ==> (#[trigger] shares@[l].id) != shares@[p as int].id,
                decreases p - q2,
            {
                if bytes_eq(shares[q2].data.as_slice(), shares[p].data.as_slice()) {
                    proof {
                        assert((#[trigger] shares@[q2 as int].data)@ == shares@[p as int].data@);
                        assert(spec_dup_err_from(shares@, p as int) == Some(
                            Error::DuplicateShareData(shares@[p as int].id),
                        ));
                    }
                    return Err(Error::DuplicateShareData(shares[p].id));
                }
                q2 = q2 + 1;
            }
        }
        p = p + 1;
    }
    let first_k = shares[0].k;
    let mut same = true;
    let mut i: usize = 1;
    while i < count
        invariant
            1 <= i <= count || count == 0,
            count == shares@.len(),
            first_k == shares@[0].k,
            same == (forall|l: int| 0 <= l < i ==> (#[trigger] shares@[l].k) == shares@[0].k),
        decreases count - i,
    {
        if shares[i].k != first_k {
            same = false;
        }
        i = i + 1;
    }
    if !same {
        let buckets = build_k_buckets(&shares);
        return Err(Error::IncompatibleSets(buckets));
    }
    if count < first_k as usize {
        return Err(Error::MissingShares(first_k as usize, count));
    }
    Ok((first_k, shares))
}

/// Build the identifier groups, one per distinct threshold in order of
/// first occurrence.
fn build_k_buckets(shares: &Vec<Share>) -> (r: Vec<Vec<u8>>)
    ensures
        r@.map_values(|v: Vec<u8>| v@) == spec_k_buckets(shares@),
{
    let count = shares.len();
    let mut ks: Vec<u8> = Vec::new();
    let mut p: usize = 0;
    while p < count
        invariant
            p <= count,
            count == shares@.len(),
            ks@ == spec_distinct_ks(shares@, p as int),
        decreases count - p,
    {
        let k = shares[p].k;
        let mut seen = false;
        let mut j: usize = 0;
        while j < ks.len()
            invariant
                j <= ks@.len(),
                seen == (exists|l: int| 0 <= l < j && ks@[l] == k),
            decreases ks@.len() - j,
        {
            if ks[j] == k {
                seen = true;
            }
            j = j + 1;
        }
        proof {
            assert(seen == ks@.contains(k));
        }
        if !seen {
            ks.push(k);
        }
        p = p + 1;
    }
    let mut buckets: Vec<Vec<u8>> = Vec::new();
    let mut b: usize = 0;
    while b < ks.len()
        invariant
            b <= ks@.len(),
            count == shares@.len(),
            ks@ == spec_distinct_ks(shares@, count as int),
            buckets@.len() == b,
            forall|l: int|
                0 <= l < b ==> (#[trigger] buckets@[l])@ == spec_ids_with_k(
                    shares@,
                    ks@[l],
                    count as int,
                ),
        decreases ks@.len() - b,
    {
        let k = ks[b];
        let mut ids: Vec<u8> = Vec::new();
        let mut p2: usize = 0;
        while p2 < count
            invariant
                p2 <= count,
                count == shares@.len(),
                k == ks@[b as int],
                b < ks@.len(),
                ids@ == spec_ids_with_k(shares@, k, p2 as int),
            decreases count - p2,
        {
            if shares[p2].k == k {
                ids.push(shares[p2].id);
            }
            p2 = p2 + 1;
        }
        buckets.push(ids);
        b = b + 1;
    }
    proof {
        assert(buckets@.map_values(|v: Vec<u8>| v@) =~= spec_k_buckets(shares@));
    }
    buckets
}

/// The root hash a share's proof carries, when the share is signed and
/// its proof bytes carry one.
pub open spec fn spec_share_root(sh: Share) -> Option<Seq<u8>> {
    if sh.signature_pair is Some {
        spec_proof_root((sh.signature_pair->0).proof@)
    } else {
        None
    }
}

/// Whether every share carries a signature.
pub open spec fn spec_all_signed(shares: Seq<Share>) -> bool {
    forall|i: int| 0 <= i < shares.len() ==> (#[trigger] shares[i].signature_pair) is Some
}

/// The first share without a signature, or the count.
pub open spec fn spec_first_unsigned(shares: Seq<Share>, from: int) -> int
    decreases shares.len() - from,
{
    if from < 0 || from >= shares.len() {
        shares.len() as int
    } else if shares[from].signature_pair is None {
        from
    } else {
        spec_first_unsigned(shares, from + 1)
    }
}

/// Whether every signed share's proof carries a readable root.
pub open spec fn spec_all_roots(shares: Seq<Share>) -> bool {
    forall|i: int| 0 <= i < shares.len() ==> (#[trigger] spec_share_root(shares[i])) is Some
}

/// The first share whose proof carries no readable root, or the count.
pub open spec fn spec_first_rootless(shares: Seq<Share>, from: int) -> int
    decreases shares.len() - from,
{
    if from < 0 || from >= shares.len() {
        shares.len() as int
    } else if spec_share_root(shares[from]) is None {
        from
    } else {
        spec_first_rootless(shares, from + 1)
    }
}

/// Whether all shares carry the same root.
pub open spec fn spec_same_root(shares: Seq<Share>) -> bool {
    forall|i: int|
        0 <= i < shares.len() ==> (#[trigger] spec_share_root(shares[i])) == spec_share_root(
            shares[0],
        )
}

/// With every share signed, there is no first unsigned share.
pub proof fn lemma_all_signed_no_unsigned(shares: Seq<Share>, from: int)
    requires
        0 <= from <= shares.len(),
        spec_all_signed(shares),
    ensures
        spec_first_unsigned(shares, from) == shares.len() as int,
    decreases shares.len() - from,
{
    if from < shares.len() {
        lemma_all_signed_no_unsigned(shares, from + 1);
    }
}

/// With every root readable, there is no first rootless share.
pub proof fn lemma_all_roots_no_rootless(shares: Seq<Share>, from: int)
    requires
        0 <= from <= shares.len(),
        spec_all_roots(shares),
    ensures
        spec_first_rootless(shares, from) == shares.len() as int,
    decreases shares.len() - from,
{
    if from < shares.len() {
        lemma_all_roots_no_rootless(shares, from + 1);
    }
}

/// The first-unsigned and first-rootless positions lie within the set.
pub proof fn lemma_first_positions_bounded(shares: Seq<Share>, from: int)
    requires
        0 <= from <= shares.len(),
    ensures
        from <= spec_first_unsigned(shares, from) <= shares.len() as int,
        from <= spec_first_rootless(shares, from) <= shares.len() as int,
    decreases shares.len() - from,
{
    if from < shares.len() {
        lemma_first_positions_bounded(shares, from + 1);
    }
}

/// The distinct proof roots among the shares, in order of first
/// occurrence.
pub open spec fn spec_distinct_roots(shares: Seq<Share>, upto: int) -> Seq<Seq<u8>>
    decreases upto,
{
    if upto <= 0 {
        Seq::empty()
    } else {
        let pre = spec_distinct_roots(shares, upto - 1);
        if pre.contains(spec_share_root(shares[upto - 1])->0) {
            pre
        } else {
            pre.push(spec_share_root(shares[upto - 1])->0)
        }
    }
}

/// The identifiers of the shares carrying the given root, in order.
pub open spec fn spec_ids_with_root(shares: Seq<Share>, root: Seq<u8>, upto: int) -> Seq<u8>
    decreases upto,
{
    if upto <= 0 {
        Seq::empty()
    } else {
        let pre = spec_ids_with_root(shares, root, upto - 1);
        if spec_share_root(shares[upto - 1])->0 == root {
            pre.push(shares[upto - 1].id)
        } else {
            pre
        }
    }
}

/// The identifier groups reported with a root disagreement: one group per
/// distinct root, in order of first occurrence.
pub open spec fn spec_root_buckets(shares: Seq<Share>) -> Seq<Seq<u8>> {
    spec_distinct_roots(shares, shares.len() as int).map_values(
        |root: Seq<u8>| spec_ids_with_root(shares, root, shares.len() as int),
    )
}

/// With no first unsigned share, every share is signed.
pub proof fn lemma_no_unsigned_all_signed(shares: Seq<Share>, from: int)
    requires
        0 <= from <= shares.len(),
        spec_first_unsigned(shares, from) == shares.len() as int,
    ensures
        forall|i: int|
            from <= i < shares.len() ==> (#[trigger] shares[i].signature_pair) is Some,
    decreases shares.len() - from,
{
    if from < shares.len() {
        lemma_no_unsigned_all_signed(shares, from + 1);
    }
}

/// With no first rootless share, every share's root is readable.
pub proof fn lemma_no_rootless_all_roots(shares: Seq<Share>, from: int)
    requires
        0 <= from <= shares.len(),
        spec_first_rootless(shares, from) == shares.len() as int,
    ensures
        forall|i: int| from <= i < shares.len() ==> (#[trigger] spec_share_root(shares[i])) is Some,
    decreases shares.len() - from,
{
    if from < shares.len() {
        lemma_no_rootless_all_roots(shares, from + 1);
    }
}

/// Which error the validation pipeline reports for a share set, in the
/// order of its checks: duplicates, threshold agreement, sufficiency,
/// then the signature structure.
pub open spec fn spec_validate_err_matches(
    shares: Seq<Share>,
    verify_signatures: bool,
    e: Error,
) -> bool {
    if shares.len() == 0 {
        e == Error::EmptyShares
    } else if spec_dup_err_from(shares, 0) is Some {
        e == spec_dup_err_from(shares, 0)->0
    } else if !spec_same_k(shares) {
        e matches Error::IncompatibleSets(sets) && sets@.map_values(|v: Vec<u8>| v@)
            == spec_k_buckets(shares)
    } else if shares.len() < shares[0].k as nat {
        e == Error::MissingShares(shares[0].k as usize, shares.len() as usize)
    } else if verify_signatures && spec_first_unsigned(shares, 0) < shares.len() {
        e == Error::MissingSignature(shares[spec_first_unsigned(shares, 0)].id)
    } else if verify_signatures && spec_first_rootless(shares, 0) < shares.len() {
        e == Error::CorruptedShare(shares[spec_first_rootless(shares, 0)].id)
    } else if verify_signatures && !spec_same_root(shares) {
        e matches Error::IncompatibleSets(sets) && sets@.map_values(|v: Vec<u8>| v@)
            == spec_root_buckets(shares)
    } else {
        false
    }
}

/// The condition under which a share set passes the whole validation
/// pipeline: non-empty, no duplicate error, one threshold, enough shares,
/// and, when signatures are checked, every share signed with one root.
pub open spec fn spec_validate_ok(shares: Seq<Share>, verify_signatures: bool) -> bool {
    &&& shares.len() > 0
    &&& spec_dup_err_from(shares, 0) is None
    &&& spec_same_k(shares)
    &&& shares.len() >= shares[0].k as nat
    &&& (verify_signatures ==> spec_all_signed(shares) && spec_all_roots(shares)
        && spec_same_root(shares))
}

/// Copy a byte string.
pub fn copy_bytes(src: &[u8]) -> (r: Vec<u8>)
    ensures
        r@ == src@,
{
    let mut out: Vec<u8> = Vec::new();
    let mut i: usize = 0;
    while i < src.len()
        invariant
            i <= src@.len(),
            out@ == src@.subrange(0, i as int),
        decreases src@.len() - i,
    {
        out.push(src[i]);
        proof {
            assert(out@ =~= src@.subrange(0, i + 1));
        }
        i = i + 1;
    }
    proof {
        assert(out@ =~= src@);
    }
    out
}

/// The root a share's proof carries, as bytes.
fn share_root_of(s: &Share) -> (r: Option<Vec<u8>>)
    ensures
        r is Some <==> spec_share_root(*s) is Some,
        r matches Some(v) ==> Some(v@) == spec_share_root(*s),
{
    match &s.signature_pair {
        Some(pair) => crate::wire::proof_root(pair.proof.as_slice()),
        None => None,
    }
}

/// Build the identifier groups, one per distinct root in order of first
/// occurrence.
fn build_root_buckets(shares: &Vec<Share>) -> (r: Vec<Vec<u8>>)
    requires
        spec_all_signed(shares@),
        spec_all_roots(shares@),
    ensures
        r@.map_values(|v: Vec<u8>| v@) == spec_root_buckets(shares@),
{
    let count = shares.len();
    let mut roots: Vec<Vec<u8>> = Vec::new();
    let mut p: usize = 0;
    while p < count
        invariant
            p <= count,
            count == shares@.len(),
            spec_all_signed(shares@),
            spec_all_roots(shares@),
            roots@.map_values(|v: Vec<u8>| v@) == spec_distinct_roots(shares@, p as int),
        decreases count - p,
    {
        let root_p = match share_root_of(&shares[p]) {
            Some(v) => v,
            None => {
                proof {
                    assert(spec_share_root(shares@[p as int]) is Some);
                    assert(false);
                }
                Vec::new()
            },
        };
        let mut seen = false;
        let mut j: usize = 0;
        while j < roots.len()
            invariant
                j <= roots@.len(),
                root_p@ == spec_share_root(shares@[p as int])->0,
                seen == (exists|l: int| 0 <= l < j && (#[trigger] roots@[l])@ == root_p@),
            decreases roots@.len() - j,
        {
            if bytes_eq(roots[j].as_slice(), root_p.as_slice()) {
                proof {
                    assert((#[trigger] roots@[j as int])@ == root_p@);
                }
                seen = true;
            }
            j = j + 1;
        }
        proof {
            let pre = roots@.map_values(|v: Vec<u8>| v@);
            if seen {
                let l0 = choose|l: int|
                    0 <= l < roots@.len() && (#[trigger] roots@[l])@ == root_p@;
                assert(pre[l0] == root_p@);
                assert(pre.contains(root_p@));
            } else {
                assert forall|l: int| 0 <= l < pre.len() implies (#[trigger] pre[l]) != root_p@
                    by {
                    assert(pre[l] == roots@[l]@);
                }
                assert(!pre.contains(root_p@));
            }
            assert(seen == pre.contains(root_p@));
        }
        if !seen {
            roots.push(root_p);
            proof {
                assert(roots@.map_values(|v: Vec<u8>| v@) =~= spec_distinct_roots(
                    shares@,
                    p + 1,
                ));
            }
        }
        p = p + 1;
    }
    let mut buckets: Vec<Vec<u8>> = Vec::new();
    let mut b: usize = 0;
    while b < roots.len()
        invariant
            b <= roots@.len(),
            count == shares@.len(),
            spec_all_signed(shares@),
            spec_all_roots(shares@),
            roots@.map_values(|v: Vec<u8>| v@) == spec_distinct_roots(shares@, count as int),
            buckets@.len() == b,
            forall|l: int|
                0 <= l < b ==> (#[trigger] buckets@[l])@ == spec_ids_with_root(
                    shares@,
                    roots@[l]@,
                    count as int,
                ),
        decreases roots@.len() - b,
    {
        let ghost root_seq = roots@[b as int]@;
        let mut ids: Vec<u8> = Vec::new();
        let mut p2: usize = 0;
        while p2 < count
            invariant
                p2 <= count,
                count == shares@.len(),
                spec_all_signed(shares@),
                spec_all_roots(shares@),
                b < roots@.len(),
                root_seq == roots@[b as int]@,
                ids@ == spec_ids_with_root(shares@, root_seq, p2 as int),
            decreases count - p2,
        {
            let root_p = match share_root_of(&shares[p2]) {
                Some(v) => v,
                None => {
                    proof {
                        assert(spec_share_root(shares@[p2 as int]) is Some);
                        assert(false);
                    }
                    Vec::new()
                },
            };
            if bytes_eq(root_p.as_slice(), roots[b].as_slice()) {
                ids.push(shares[p2].id);
            }
            p2 = p2 + 1;
        }
        buckets.push(ids);
        b = b + 1;
    }
    proof {
        assert(buckets@.map_values(|v: Vec<u8>| v@) =~= spec_root_buckets(shares@)) by {
            let bv = buckets@.map_values(|v: Vec<u8>| v@);
            let rb = spec_root_buckets(shares@);
            assert(bv.len() == rb.len());
            assert forall|l: int| 0 <= l < bv.len() implies (#[trigger] bv[l]) == rb[l] by {
                assert(bv[l] == buckets@[l]@);
                assert(rb[l] == spec_ids_with_root(
                    shares@,
                    spec_distinct_roots(shares@, shares@.len() as int)[l],
                    shares@.len() as int,
                ));
                assert(spec_distinct_roots(shares@, shares@.len() as int)[l] == roots@[l]@);
            }
        }
    }
    buckets
}

impl Share {
    /// Check the signature structure of a share set: every share must be
    /// signed and all proofs must carry one and the same Merkle root. The
    /// cryptographic check of each one-time signature itself needs the
    /// signature primitive, which only the application layer links; this
    /// pipeline enforces everything that the share bytes alone decide.
    pub fn verify_signatures(shares: &Vec<Share>) -> (r: Result<(), Error>)
        ensures
            r is Ok <==> shares@.len() > 0 && spec_all_signed(shares@) && spec_all_roots(shares@)
                && spec_same_root(shares@),
            shares@.len() == 0 ==> r == Err::<(), Error>(Error::EmptyShares),
            ({
                let fu = spec_first_unsigned(shares@, 0);
                shares@.len() > 0 && fu < shares@.len() ==> r == Err::<(), Error>(
                    Error::MissingSignature(shares@[fu].id),
                )
            }),
            ({
                let fr = spec_first_rootless(shares@, 0);
                spec_all_signed(shares@) && fr < shares@.len() ==> r == Err::<(), Error>(
                    Error::CorruptedShare(shares@[fr].id),
                )
            }),
            spec_all_signed(shares@) && spec_all_roots(shares@) && shares@.len() > 0
                && !spec_same_root(shares@) ==> (r matches Err(e) && (e
                matches Error::IncompatibleSets(sets) && sets@.map_values(|v: Vec<u8>| v@)
                == spec_root_buckets(shares@))),
    {
        let count = shares.len();
        if count == 0 {
            return Err(Error::EmptyShares);
        }
        let mut i: usize = 0;
        while i < count
            invariant
                i <= count,
                count == shares@.len(),
                spec_first_unsigned(shares@, 0) == spec_first_unsigned(shares@, i as int),
                forall|l: int| 0 <= l < i ==> (#[trigger] shares@[l].signature_pair) is Some,
            decreases count - i,
        {
            match &shares[i].signature_pair {
                Some(_) => {
                },
                None => {
                    proof {
                        assert(spec_first_unsigned(shares@, i as int) == i as int);
                    }
                    return Err(Error::MissingSignature(shares[i].id));
                },
            }
            i = i + 1;
        }
        proof {
            lemma_all_signed_no_unsigned(shares@, 0);
        }
        let mut j: usize = 0;
        while j < count
            invariant
                j <= count,
                count == shares@.len(),
                spec_all_signed(shares@),
                spec_first_unsigned(shares@, 0) == count as int,
                spec_first_rootless(shares@, 0) == spec_first_rootless(shares@, j as int),
                forall|l: int| 0 <= l < j ==> (#[trigger] spec_share_root(shares@[l])) is Some,
            decreases count - j,
        {
            let has_root = match &shares[j].signature_pair {
                Some(pair) => crate::wire::proof_root(pair.proof.as_slice()).is_some(),
                None => false,
            };
            if !has_root {
                proof {
                    assert(spec_share_root(shares@[j as int]) is None);
                    assert(spec_first_rootless(shares@, j as int) == j as int);
                }
                return Err(Error::CorruptedShare(shares[j].id));
            }
            proof {
                assert(spec_share_root(shares@[j as int]) is Some);
            }
            j = j + 1;
        }
        let first_root = match &shares[0].signature_pair {
            Some(pair) => match crate::wire::proof_root(pair.proof.as_slice()) {
                Some(root) => root,
                None => {
                    proof {
                        assert(false);
                    }
                    Vec::new()
                },
            },
            None => {
                proof {
                    assert(false);
                }
                Vec::new()
            },
        };
        proof {
            lemma_all_roots_no_rootless(shares@, 0);
        }
        let mut same = true;
        let mut m: usize = 0;
        while m < count
            invariant
                m <= count,
                count == shares@.len(),
                spec_all_signed(shares@),
                spec_all_roots(shares@),
                spec_first_unsigned(shares@, 0) == count as int,
                spec_first_rootless(shares@, 0) == count as int,
                Some(first_root@) == spec_share_root(shares@[0]),
                same == (forall|l: int|
                    0 <= l < m ==> (#[trigger] spec_share_root(shares@[l])) == spec_share_root(
                        shares@[0],
                    )),
            decreases count - m,
        {
            let root_m = match &shares[m].signature_pair {
                Some(pair) => match crate::wire::proof_root(pair.proof.as_slice()) {
                    Some(root) => root,
                    None => {
                        proof {
                            assert(false);
                        }
                        Vec::new()
                    },
                },
                None => {
                    proof {
                        assert(false);
                    }
                    Vec::new()
                },
            };
            if !bytes_eq(root_m.as_slice(), first_root.as_slice()) {
                proof {
                    assert(spec_share_root(shares@[m as int]) != spec_share_root(shares@[0]));
                }
                same = false;
            } else {
                proof {
                    assert(spec_share_root(shares@[m as int]) == spec_share_root(shares@[0]));
                }
            }
            m = m + 1;
        }
        if !same {
            let sets = build_root_buckets(shares);
            return Err(Error::IncompatibleSets(sets));
        }
        Ok(())
    }
}

/// Parse a batch of share lines and run the whole validation pipeline:
/// each line individually first, then duplicates, threshold agreement,
/// sufficiency, and, when asked, the signature structure. On success, the
/// threshold and the first threshold many shares as `(id, data)` pairs.
pub fn process_and_validate_shares(shares_strings: Vec<String>, verify_signatures: bool) -> (r:
    Result<(u8, Vec<(u8, Vec<u8>)>), Error>)
    ensures
        r is Ok ==> spec_first_bad(
            shares_strings@.map_values(|s: String| s@),
            verify_signatures,
            0,
        ) == shares_strings@.len(),
        spec_first_bad(shares_strings@.map_values(|s: String| s@), verify_signatures, 0)
            < shares_strings@.len() ==> r is Err,
        (spec_first_bad(shares_strings@.map_values(|s: String| s@), verify_signatures, 0)
            == shares_strings@.len() && (forall|parsed: Seq<Share>|
            spec_parsed_from(shares_strings@, parsed, verify_signatures)
                ==> #[trigger] spec_validate_ok(parsed, verify_signatures))) ==> r is Ok,
        r is Ok ==> (exists|parsed: Seq<Share>|
            #[trigger] spec_parsed_from(shares_strings@, parsed, verify_signatures)
                && spec_validate_ok(parsed, verify_signatures)),
        r matches Err(e) ==> ({
            let views = shares_strings@.map_values(|s: String| s@);
            let fb = spec_first_bad(views, verify_signatures, 0);
            &&& (fb < views.len() ==> spec_parse_err_matches(
                views[fb],
                verify_signatures,
                (fb % 256) as u8,
                e,
            ))
            &&& (fb == views.len() ==> (exists|parsed: Seq<Share>|
                #[trigger] spec_parsed_from(shares_strings@, parsed, verify_signatures)
                    && spec_validate_err_matches(parsed, verify_signatures, e)))
        }),
        r matches Ok(pr) ==> ({
            let views = shares_strings@.map_values(|s: String| s@);
            &&& views.len() > 0
            &&& pr.0 == (spec_share_ok(views[0], verify_signatures)->0).0
            &&& pr.1@.len() == pr.0 as nat
            &&& views.len() >= pr.0 as nat
            &&& (forall|j: int|
                0 <= j < pr.1@.len() ==> (#[trigger] pr.1@[j]).0 == (spec_share_ok(
                    views[j],
                    verify_signatures,
                )->0).1 && pr.1@[j].1@ == (spec_share_ok(views[j], verify_signatures)->0).2)
        }),
{
    let ghost views = shares_strings@.map_values(|s: String| s@);
    let parsed = match Share::parse_all(shares_strings.as_slice(), verify_signatures) {
        Ok(v) => v,
        Err(e) => {
            proof {
                let fb = spec_first_bad(views, verify_signatures, 0);
                lemma_first_bad_bounded(views, verify_signatures, 0);
                if 0 <= fb < views.len() {
                    assert(views[fb] == shares_strings@[fb]@);
                }
            }
            return Err(e);
        },
    };
    let ghost parsed_seq = parsed@;
    proof {
        assert forall|i: int| 0 <= i < parsed_seq.len() implies spec_share_ok(
            #[trigger] shares_strings@[i]@,
            verify_signatures,
        ) is Some && spec_share_fields(
            parsed_seq[i],
            spec_share_ok(shares_strings@[i]@, verify_signatures)->0,
            verify_signatures,
        ) by {
            assert(views[i] == shares_strings@[i]@);
            assert(spec_share_ok(views[i], verify_signatures) is Some && spec_share_fields(
                parsed_seq[i],
                spec_share_ok(views[i], verify_signatures)->0,
                verify_signatures,
            ));
        }
        assert(spec_parsed_from(shares_strings@, parsed_seq, verify_signatures));
    }
    let (threshold, kept) = match validate_signed_shares(parsed, verify_signatures) {
        Ok(p) => p,
        Err(e) => {
            proof {
                assert(!spec_validate_ok(parsed_seq, verify_signatures));
                assert(spec_validate_err_matches(parsed_seq, verify_signatures, e));
            }
            return Err(e);
        },
    };
    let limit = threshold as usize;
    let mut pairs: Vec<(u8, Vec<u8>)> = Vec::new();
    let mut i: usize = 0;
    while i < limit
        invariant
            i <= limit,
            limit <= kept@.len(),
            kept@ == parsed_seq,
            views == shares_strings@.map_values(|s: String| s@),
            parsed_seq.len() == views.len(),
            spec_parsed_prefix(views, parsed_seq, views.len() as int, verify_signatures),
            pairs@.len() == i,
            forall|j: int|
                0 <= j < i ==> (#[trigger] pairs@[j]).0 == kept@[j].id && pairs@[j].1@
                    == kept@[j].data@,
        decreases limit - i,
    {
        let id = kept[i].id;
        let data = copy_bytes(kept[i].data.as_slice());
        pairs.push((id, data));
        i = i + 1;
    }
    proof {
        assert forall|j: int| 0 <= j < pairs@.len() implies (#[trigger] pairs@[j]).0 == (
        spec_share_ok(views[j], verify_signatures)->0).1 && pairs@[j].1@ == (spec_share_ok(
            views[j],
            verify_signatures,
        )->0).2 by {
            assert(spec_share_ok(views[j], verify_signatures) is Some && spec_share_fields(
                parsed_seq[j],
                spec_share_ok(views[j], verify_signatures)->0,
                verify_signatures,
            ));
        }
        assert(spec_share_ok(views[0], verify_signatures) is Some && spec_share_fields(
            parsed_seq[0],
            spec_share_ok(views[0], verify_signatures)->0,
            verify_signatures,
        ));
    }
    Ok((threshold, pairs))
}

/// Validate a share set and, when asked, its signature structure: the
/// structural pipeline first, then the signature checks.
pub fn validate_signed_shares(shares: Vec<Share>, verify_signatures: bool) -> (r: Result<
    (u8, Vec<Share>),
    Error,
>)
    ensures
        r is Ok <==> spec_validate_ok(shares@, verify_signatures),
        r matches Ok(p) ==> p.0 == shares@[0].k && p.1@ == shares@,
        ({
            let fu = spec_first_unsigned(shares@, 0);
            spec_validate_ok(shares@, false) && verify_signatures && fu < shares@.len() ==> r
                == Err::<(u8, Vec<Share>), Error>(Error::MissingSignature(shares@[fu].id))
        }),
        ({
            let fr = spec_first_rootless(shares@, 0);
            spec_validate_ok(shares@, false) && verify_signatures && spec_all_signed(shares@)
                && fr < shares@.len() ==> r == Err::<(u8, Vec<Share>), Error>(
                Error::CorruptedShare(shares@[fr].id),
            )
        }),
        spec_validate_ok(shares@, false) && verify_signatures && spec_all_signed(shares@)
            && spec_all_roots(shares@) && !spec_same_root(shares@) ==> (r matches Err(e) && (e
            matches Error::IncompatibleSets(sets) && sets@.map_values(|v: Vec<u8>| v@)
            == spec_root_buckets(shares@))),
        r matches Err(e) ==> spec_validate_err_matches(shares@, verify_signatures, e),
        shares@.len() == 0 ==> r == Err::<(u8, Vec<Share>), Error>(Error::EmptyShares),
        shares@.len() > 0 && spec_dup_err_from(shares@, 0) is Some ==> r == Err::<
            (u8, Vec<Share>),
            Error,
        >(spec_dup_err_from(shares@, 0)->0),
        shares@.len() > 0 && spec_dup_err_from(shares@, 0) is None && !spec_same_k(shares@) ==> (
        r matches Err(e) && (e matches Error::IncompatibleSets(sets) && sets@.map_values(
            |v: Vec<u8>| v@,
        ) == spec_k_buckets(shares@))),
        shares@.len() > 0 && spec_dup_err_from(shares@, 0) is None && spec_same_k(shares@)
            && shares@.len() < shares@[0].k as nat ==> r == Err::<(u8, Vec<Share>), Error>(
            Error::MissingShares(shares@[0].k as usize, shares@.len() as usize),
        ),
{
    let validated = validate_shares(shares);
    match validated {
        Ok((threshold, kept)) => {
            if verify_signatures {
                match Share::verify_signatures(&kept) {
                    Ok(()) => Ok((threshold, kept)),
                    Err(e) => {
                        proof {
                            let fu = spec_first_unsigned(shares@, 0);
                            let fr = spec_first_rootless(shares@, 0);
                            lemma_first_positions_bounded(shares@, 0);
                            assert(kept@ == shares@);
                            assert(spec_first_unsigned(kept@, 0) == fu);
                            assert(spec_first_rootless(kept@, 0) == fr);
                            if fu < shares@.len() {
                                assert(e == Error::MissingSignature(shares@[fu].id));
                            } else {
                                lemma_no_unsigned_all_signed(shares@, 0);
                                assert(spec_all_signed(shares@));
                                if fr < shares@.len() {
                                    assert(e == Error::CorruptedShare(shares@[fr].id));
                                } else {
                                    lemma_no_rootless_all_roots(shares@, 0);
                                    assert(spec_all_roots(shares@));
                                    assert(!spec_same_root(shares@));
                                }
                            }
                            assert(spec_validate_err_matches(shares@, verify_signatures, e));
                        }
                        Err(e)
                    },
                }
            } else {
                Ok((threshold, kept))
            }
        },
        Err(e) => {
            proof {
                assert(spec_validate_err_matches(shares@, verify_signatures, e));
            }
            Err(e)
        },
    }
}

} // verus!
