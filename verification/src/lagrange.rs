//! Incremental barycentric Lagrange interpolation over GF(2^8), evaluated at
//! the field origin. Points may arrive in batches; the barycentric weights
//! are maintained with Werner's recurrence, so each new point costs a linear
//! number of field operations instead of a full recomputation.

use vstd::prelude::*;
use crate::errors::Error;
use crate::gf256::{spec_mul, spec_div};
use crate::poly::Poly;

verus! {

/// The stored differences: `diffs[j] = ys[j] / ids[j]`, which is all the
/// second barycentric form needs of the ordinates when evaluating at zero.
pub open spec fn spec_diffs(ids: Seq<u8>, ys: Seq<u8>) -> Seq<u8> {
    Seq::new(ys.len(), |j: int| spec_div(ys[j], ids[j]))
}

/// One step of Werner's recurrence at node pair `(j, i)`: divide weight `j`
/// by the node difference and subtract the result from weight `i`.
pub open spec fn spec_weight_step(w: Seq<u8>, ids: Seq<u8>, i: int, j: int) -> Seq<u8> {
    let wj = spec_div(w[j], ids[j] ^ ids[i]);
    w.update(j, wj).update(i, w[i] ^ wj)
}

/// Werner's inner loop: steps `(j, i)` for `j` in `[j0, i)`.
pub open spec fn spec_weights_inner(w: Seq<u8>, ids: Seq<u8>, i: int, j0: int) -> Seq<u8>
    decreases i - j0,
{
    if j0 >= i {
        w
    } else {
        spec_weights_inner(spec_weight_step(w, ids, i, j0), ids, i, j0 + 1)
    }
}

/// Werner's outer loop: stages `i` in `[i0, stop)`, each running the inner
/// loop over all earlier nodes.
pub open spec fn spec_weights_outer(w: Seq<u8>, ids: Seq<u8>, i0: int, stop: int) -> Seq<u8>
    decreases stop - i0,
{
    if i0 >= stop {
        w
    } else {
        spec_weights_outer(spec_weights_inner(w, ids, i0, 0), ids, i0 + 1, stop)
    }
}

/// The initial weight vector for a threshold of `k`: weight 1 for the first
/// node, 0 for the slots still to be filled.
pub open spec fn spec_init_weights(k: nat) -> Seq<u8> {
    Seq::new(k, |i: int| if i == 0 { 1u8 } else { 0u8 })
}

/// The weight vector sized for threshold `k` after all of `ids` have been
/// taken in.
pub open spec fn spec_weights(ids: Seq<u8>, k: nat) -> Seq<u8> {
    spec_weights_outer(spec_init_weights(k), ids, 1, ids.len() as int)
}

/// The numerator of the second barycentric form at zero, over the first `n`
/// nodes: the field sum of `w[j] * diffs[j]`.
pub open spec fn spec_num_sum(w: Seq<u8>, d: Seq<u8>, n: int) -> u8
    decreases n,
{
    if n <= 0 {
        0
    } else {
        spec_num_sum(w, d, n - 1) ^ spec_mul(w[n - 1], d[n - 1])
    }
}

/// The denominator of the second barycentric form at zero, over the first
/// `n` nodes: the field sum of `w[j] / ids[j]`.
pub open spec fn spec_denom_sum(w: Seq<u8>, ids: Seq<u8>, n: int) -> u8
    decreases n,
{
    if n <= 0 {
        0
    } else {
        spec_denom_sum(w, ids, n - 1) ^ spec_div(w[n - 1], ids[n - 1])
    }
}

/// The interpolated value at the field origin once all `ids.len()` points
/// are in: `(sum of w[j] * d[j]) / (sum of w[j] / ids[j])`.
pub open spec fn spec_secret_at_zero(ids: Seq<u8>, ys: Seq<u8>) -> u8 {
    let k = ids.len();
    let w = spec_weights(ids, k);
    let d = spec_diffs(ids, ys);
    spec_div(spec_num_sum(w, d, k as int), spec_denom_sum(w, ids, k as int))
}

/// The numerator of the second barycentric form at an arbitrary point `x`:
/// the field sum of `w[j] * d[j] * ids[j] / (x - ids[j])`.
pub open spec fn spec_num_sum_at(w: Seq<u8>, d: Seq<u8>, ids: Seq<u8>, x: u8, n: int) -> u8
    decreases n,
{
    if n <= 0 {
        0
    } else {
        spec_num_sum_at(w, d, ids, x, n - 1) ^ spec_div(
            spec_mul(spec_mul(w[n - 1], d[n - 1]), ids[n - 1]),
            x ^ ids[n - 1],
        )
    }
}

/// The denominator of the second barycentric form at an arbitrary point `x`:
/// the field sum of `w[j] / (x - ids[j])`.
pub open spec fn spec_denom_sum_at(w: Seq<u8>, ids: Seq<u8>, x: u8, n: int) -> u8
    decreases n,
{
    if n <= 0 {
        0
    } else {
        spec_denom_sum_at(w, ids, x, n - 1) ^ spec_div(w[n - 1], x ^ ids[n - 1])
    }
}

/// The interpolated polynomial's value at `x`, by the second barycentric
/// form over all `ids.len()` points.
pub open spec fn spec_value_at(ids: Seq<u8>, ys: Seq<u8>, x: u8) -> u8 {
    let k = ids.len();
    let w = spec_weights(ids, k);
    let d = spec_diffs(ids, ys);
    spec_div(spec_num_sum_at(w, d, ids, x, k as int), spec_denom_sum_at(w, ids, x, k as int))
}

/// A weight step keeps the vector's length.
proof fn lemma_inner_len(w: Seq<u8>, ids: Seq<u8>, i: int, j0: int)
    requires
        0 <= j0 <= i,
        i < w.len(),
    ensures
        spec_weights_inner(w, ids, i, j0).len() == w.len(),
    decreases i - j0,
{
    if j0 < i {
        lemma_inner_len(spec_weight_step(w, ids, i, j0), ids, i, j0 + 1);
    }
}

/// The outer recurrence keeps the vector's length.
proof fn lemma_outer_len(w: Seq<u8>, ids: Seq<u8>, i0: int, stop: int)
    requires
        1 <= i0,
        stop <= w.len(),
    ensures
        spec_weights_outer(w, ids, i0, stop).len() == w.len(),
    decreases stop - i0,
{
    if i0 < stop {
        lemma_inner_len(w, ids, i0, 0);
        lemma_outer_len(spec_weights_inner(w, ids, i0, 0), ids, i0 + 1, stop);
    }
}

/// The inner loop at stage `i` reads the nodes only up to index `i`.
proof fn lemma_inner_ids_prefix(w: Seq<u8>, ids1: Seq<u8>, ids2: Seq<u8>, i: int, j0: int)
    requires
        0 <= j0 <= i,
        i < ids1.len(),
        i < ids2.len(),
        forall|l: int| 0 <= l <= i ==> ids1[l] == ids2[l],
    ensures
        spec_weights_inner(w, ids1, i, j0) == spec_weights_inner(w, ids2, i, j0),
    decreases i - j0,
{
    if j0 < i {
        assert(spec_weight_step(w, ids1, i, j0) == spec_weight_step(w, ids2, i, j0));
        lemma_inner_ids_prefix(spec_weight_step(w, ids1, i, j0), ids1, ids2, i, j0 + 1);
    }
}

/// The stages up to `stop` read the nodes only up to index `stop - 1`.
proof fn lemma_outer_ids_prefix(w: Seq<u8>, ids1: Seq<u8>, ids2: Seq<u8>, i0: int, stop: int)
    requires
        1 <= i0,
        stop <= ids1.len(),
        stop <= ids2.len(),
        forall|l: int| 0 <= l < stop ==> ids1[l] == ids2[l],
    ensures
        spec_weights_outer(w, ids1, i0, stop) == spec_weights_outer(w, ids2, i0, stop),
    decreases stop - i0,
{
    if i0 < stop {
        lemma_inner_ids_prefix(w, ids1, ids2, i0, 0);
        lemma_outer_ids_prefix(spec_weights_inner(w, ids1, i0, 0), ids1, ids2, i0 + 1, stop);
    }
}

/// Running the stages to `c` equals running them to `b` and continuing.
proof fn lemma_outer_compose(w: Seq<u8>, ids: Seq<u8>, a: int, b: int, c: int)
    requires
        a <= b <= c,
    ensures
        spec_weights_outer(w, ids, a, c) == spec_weights_outer(
            spec_weights_outer(w, ids, a, b),
            ids,
            b,
            c,
        ),
    decreases b - a,
{
    if a < b {
        lemma_outer_compose(spec_weights_inner(w, ids, a, 0), ids, a + 1, b, c);
    }
}

/// The sum of the first `n` weighted differences is additive in the
/// differences.
proof fn lemma_num_sum_additive(w: Seq<u8>, d1: Seq<u8>, d2: Seq<u8>, n: int)
    requires
        0 <= n <= d1.len(),
        d2.len() == d1.len(),
    ensures
        spec_num_sum(w, Seq::new(d1.len(), |j: int| d1[j] ^ d2[j]), n) == (spec_num_sum(w, d1, n)
            ^ spec_num_sum(w, d2, n)),
    decreases n,
{
    let dx = Seq::new(d1.len(), |j: int| d1[j] ^ d2[j]);
    if n <= 0 {
        crate::gf256::lemma_xor_props(0, 0, 0);
    } else {
        lemma_num_sum_additive(w, d1, d2, n - 1);
        crate::gf256_laws::lemma_mul_distributive(w[n - 1], d1[n - 1], d2[n - 1]);
        crate::gf256_laws::lemma_xor_shuffle(
            spec_num_sum(w, d1, n - 1),
            spec_num_sum(w, d2, n - 1),
            spec_mul(w[n - 1], d1[n - 1]),
            spec_mul(w[n - 1], d2[n - 1]),
        );
    }
}

/// Interpolation at the origin is additive in the ordinates: with the
/// nodes fixed, the value recovered from the elementwise field sum of two
/// ordinate sequences is the field sum of the values each recovers to.
/// Multiplication's distributivity over addition carries through the
/// whole barycentric computation.
pub proof fn lemma_secret_at_zero_additive(ids: Seq<u8>, ys1: Seq<u8>, ys2: Seq<u8>)
    requires
        ys1.len() == ids.len(),
        ys2.len() == ids.len(),
    ensures
        spec_secret_at_zero(ids, Seq::new(ids.len(), |j: int| ys1[j] ^ ys2[j])) == (
        spec_secret_at_zero(ids, ys1) ^ spec_secret_at_zero(ids, ys2)),
{
    let k = ids.len();
    let w = spec_weights(ids, k);
    let ysx = Seq::new(k, |j: int| ys1[j] ^ ys2[j]);
    let d1 = spec_diffs(ids, ys1);
    let d2 = spec_diffs(ids, ys2);
    let dx = Seq::new(d1.len(), |j: int| d1[j] ^ d2[j]);
    assert(spec_diffs(ids, ysx) =~= dx) by {
        assert forall|j: int| 0 <= j < k implies (#[trigger] spec_diffs(ids, ysx)[j]) == dx[j]
            by {
            crate::gf256_laws::lemma_mul_add_left(
                ys1[j],
                ys2[j],
                crate::gf256::spec_inv(ids[j]),
            );
        }
    }
    lemma_num_sum_additive(w, d1, d2, k as int);
    let num1 = spec_num_sum(w, d1, k as int);
    let num2 = spec_num_sum(w, d2, k as int);
    let denom = spec_denom_sum(w, ids, k as int);
    crate::gf256_laws::lemma_mul_add_left(num1, num2, crate::gf256::spec_inv(denom));
}

/// Multiply a coefficient vector by `(x1 + X)`, keeping its length: the new
/// coefficient `i` is `c[i] * x1 + c[i-1]` (the additive inverse of `x1` is
/// `x1` itself in GF(2^8)).
pub open spec fn spec_mul_shift(c: Seq<u8>, x1: u8) -> Seq<u8> {
    Seq::new(
        c.len(),
        |i: int|
            spec_mul(c[i], x1) ^ (if i == 0 {
                0u8
            } else {
                c[i - 1]
            }),
    )
}

/// The basis-polynomial pass for the node `x`: over every other node `x1`,
/// multiply the running product by `x + x1` and the coefficients by
/// `(x1 + X)`, starting from position `j`.
pub open spec fn spec_basis(x: u8, pts: Seq<(u8, u8)>, j: int, c: Seq<u8>, prod: u8) -> (Seq<
    u8,
>, u8)
    decreases pts.len() - j,
{
    if j >= pts.len() || j < 0 {
        (c, prod)
    } else if pts[j].0 != x {
        spec_basis(x, pts, j + 1, spec_mul_shift(c, pts[j].0), spec_mul(prod, x ^ pts[j].0))
    } else {
        spec_basis(x, pts, j + 1, c, prod)
    }
}

/// The coefficient vector `[y, 0, ..., 0]` of length `n`.
pub open spec fn spec_basis_init(y: u8, n: nat) -> Seq<u8> {
    Seq::new(
        n,
        |i: int|
            if i == 0 {
                y
            } else {
                0u8
            },
    )
}

/// Add one basis polynomial, divided by its product, onto the accumulator.
pub open spec fn spec_accum(poly: Seq<u8>, c: Seq<u8>, prod: u8) -> Seq<u8> {
    Seq::new(poly.len(), |i: int| poly[i] ^ spec_div(c[i], prod))
}

/// The outer accumulation of Lagrange interpolation from point `p` on.
pub open spec fn spec_interp_from(pts: Seq<(u8, u8)>, p: int, poly: Seq<u8>) -> Seq<u8>
    decreases pts.len() - p,
{
    if p >= pts.len() || p < 0 {
        poly
    } else {
        let b = spec_basis(pts[p].0, pts, 0, spec_basis_init(pts[p].1, pts.len()), 1);
        spec_interp_from(pts, p + 1, spec_accum(poly, b.0, b.1))
    }
}

/// The coefficients of the Lagrange polynomial through the given points.
pub open spec fn spec_interpolate(pts: Seq<(u8, u8)>) -> Seq<u8> {
    spec_interp_from(pts, 0, Seq::new(pts.len(), |i: int| 0u8))
}

/// Computes the coefficients of the Lagrange polynomial interpolated from
/// the given `points`, by the classical expansion over basis polynomials.
pub fn interpolate(points: &[(u8, u8)]) -> (r: Poly)
    requires
        forall|i: int| 0 <= i < points@.len() ==> (#[trigger] points@[i]).0 != 0,
    ensures
        r.coeffs@ == spec_interpolate(points@),
{
    let len = points.len();
    let mut poly: Vec<u8> = Vec::new();
    let mut z: usize = 0;
    while z < len
        invariant
            z <= len,
            poly@.len() == z,
            forall|l: int| 0 <= l < z ==> poly@[l] == 0u8,
        decreases len - z,
    {
        poly.push(0);
        z = z + 1;
    }
    proof {
        assert(poly@ =~= Seq::new(points@.len(), |i: int| 0u8));
    }
    let mut p: usize = 0;
    while p < len
        invariant
            p <= len,
            len == points@.len(),
            poly@.len() == len,
            spec_interp_from(points@, p as int, poly@) == spec_interpolate(points@),
            forall|i: int| 0 <= i < points@.len() ==> (#[trigger] points@[i]).0 != 0,
        decreases len - p,
    {
        let (x, y) = points[p];
        let mut coeffs: Vec<u8> = Vec::new();
        let mut z2: usize = 0;
        while z2 < len
            invariant
                z2 <= len,
                coeffs@.len() == z2,
                forall|l: int|
                    0 <= l < z2 ==> coeffs@[l] == (if l == 0 {
                        y
                    } else {
                        0u8
                    }),
            decreases len - z2,
        {
            if z2 == 0 {
                coeffs.push(y);
            } else {
                coeffs.push(0);
            }
            z2 = z2 + 1;
        }
        proof {
            assert(coeffs@ =~= spec_basis_init(y, points@.len()));
        }
        let mut prod: u8 = 1;
        let mut j: usize = 0;
        while j < len
            invariant
                j <= len,
                len == points@.len(),
                coeffs@.len() == len,
                x == points@[p as int].0,
                spec_basis(x, points@, j as int, coeffs@, prod) == spec_basis(
                    x,
                    points@,
                    0,
                    spec_basis_init(y, points@.len()),
                    1,
                ),
            decreases len - j,
        {
            let (x1, _y1) = points[j];
            if x != x1 {
                prod = crate::gf256::mul(prod, x ^ x1);
                let ghost before = coeffs@;
                let mut prec: u8 = 0;
                let mut idx: usize = 0;
                while idx < len
                    invariant
                        idx <= len,
                        len == before.len(),
                        coeffs@.len() == len,
                        prec == (if idx == 0 {
                            0u8
                        } else {
                            before[idx - 1]
                        }),
                        forall|l: int| 0 <= l < idx ==> coeffs@[l] == spec_mul_shift(before, x1)[l],
                        forall|l: int| idx <= l < len ==> coeffs@[l] == before[l],
                    decreases len - idx,
                {
                    let old_ci = coeffs[idx];
                    let m = crate::gf256::mul(old_ci, x1);
                    coeffs.set(idx, m ^ prec);
                    prec = old_ci;
                    idx = idx + 1;
                }
                proof {
                    assert(coeffs@ =~= spec_mul_shift(before, x1));
                }
            }
            j = j + 1;
        }
        let ghost poly_before = poly@;
        let ghost b = spec_basis(x, points@, 0, spec_basis_init(y, points@.len()), 1);
        proof {
            assert(coeffs@ == b.0 && prod == b.1);
        }
        let mut idx2: usize = 0;
        while idx2 < len
            invariant
                idx2 <= len,
                len == poly_before.len(),
                poly@.len() == len,
                coeffs@.len() == len,
                forall|l: int|
                    0 <= l < idx2 ==> poly@[l] == (poly_before[l] ^ spec_div(coeffs@[l], prod)),
                forall|l: int| idx2 <= l < len ==> poly@[l] == poly_before[l],
            decreases len - idx2,
        {
            let q = crate::gf256::div(coeffs[idx2], prod);
            let v = poly[idx2] ^ q;
            poly.set(idx2, v);
            idx2 = idx2 + 1;
        }
        proof {
            assert(poly@ =~= spec_accum(poly_before, coeffs@, prod));
        }
        p = p + 1;
    }
    Poly::new(poly)
}

/// The running state of one byte's interpolation: the stored differences,
/// the barycentric weights, and the result once threshold points are in.
pub struct PartialSecret {
    secret: Option<u8>,
    diffs: Vec<u8>,
    weights: Vec<u8>,
    threshold: Ghost<u8>,
    ids_seen: Ghost<Seq<u8>>,
    ys_seen: Ghost<Seq<u8>>,
}

impl PartialSecret {
    /// The threshold this computation was started with.
    pub closed spec fn spec_threshold(self) -> u8 {
        self.threshold@
    }

    /// All share identifiers taken in so far, in order.
    pub closed spec fn spec_ids(self) -> Seq<u8> {
        self.ids_seen@
    }

    /// All ordinates taken in so far, in order.
    pub closed spec fn spec_ys(self) -> Seq<u8> {
        self.ys_seen@
    }

    /// The state is internally consistent with the points taken in so far.
    pub closed spec fn wf(self) -> bool {
        let k = self.threshold@ as nat;
        let t = self.ids_seen@.len();
        &&& 2 <= self.threshold@
        &&& 1 <= t <= k
        &&& self.ys_seen@.len() == t
        &&& (forall|i: int| 0 <= i < t ==> self.ids_seen@[i] != 0)
        &&& (forall|i: int, j: int| 0 <= i < j < t ==> self.ids_seen@[i] != self.ids_seen@[j])
        &&& self.diffs@ == spec_diffs(self.ids_seen@, self.ys_seen@)
        &&& self.weights@ == spec_weights_outer(spec_init_weights(k), self.ids_seen@, 1, t as int)
        &&& self.weights@.len() == k
        &&& self.secret == (if t == k {
            Some(spec_secret_at_zero(self.ids_seen@, self.ys_seen@))
        } else {
            None::<u8>
        })
    }

    /// Whether threshold many points are in, so the secret is available.
    pub open spec fn complete(self) -> bool {
        self.spec_ids().len() == self.spec_threshold() as nat
    }

    /// Create a new partial computation from a `threshold` and an initial,
    /// non-empty batch of points `(ids[i], new_ys[i])`.
    pub fn new(threshold: u8, ids: &[u8], new_ys: &[u8]) -> (r: Self)
        requires
            threshold >= 2,
            1 <= new_ys@.len(),
            ids@.len() == new_ys@.len(),
            ids@.len() <= threshold as nat,
            forall|i: int| 0 <= i < ids@.len() ==> ids@[i] != 0,
            forall|i: int, j: int| 0 <= i < j < ids@.len() ==> ids@[i] != ids@[j],
        ensures
            r.wf(),
            r.spec_threshold() == threshold,
            r.spec_ids() == ids@,
            r.spec_ys() == new_ys@,
            r.complete() <==> ids@.len() == threshold as nat,
    {
        let mut state = Self {
            secret: None,
            diffs: Vec::new(),
            weights: Vec::new(),
            threshold: Ghost(threshold),
            ids_seen: Ghost(Seq::empty()),
            ys_seen: Ghost(Seq::empty()),
        };
        let k = threshold as usize;
        let mut i: usize = 0;
        while i < k
            invariant
                i <= k,
                k == threshold as nat,
                state.weights@.len() == i,
                forall|l: int|
                    0 <= l < i ==> state.weights@[l] == (if l == 0 {
                        1u8
                    } else {
                        0u8
                    }),
                state.diffs@.len() == 0,
                state.ids_seen@ == Seq::<u8>::empty(),
                state.ys_seen@ == Seq::<u8>::empty(),
                state.secret is None,
                state.threshold@ == threshold,
            decreases k - i,
        {
            if i == 0 {
                state.weights.push(1);
            } else {
                state.weights.push(0);
            }
            i = i + 1;
        }
        proof {
            assert(state.weights@ =~= spec_init_weights(threshold as nat));
            assert(ids@.subrange(0, 0) =~= Seq::<u8>::empty());
            assert(state.diffs@ =~= spec_diffs(state.ids_seen@, state.ys_seen@));
        }
        state.update_diffs(ids, new_ys);
        state.update_barycentric_weights(threshold, ids, 1);
        proof {
            assert(state.ys_seen@ =~= new_ys@);
        }
        state
    }

    /// Take in a further non-empty batch of points. `ids` holds every
    /// identifier seen so far, the new ones appended at the end, and
    /// `new_ys` their ordinates.
    pub fn update(&mut self, threshold: u8, ids: &[u8], new_ys: &[u8])
        requires
            old(self).wf(),
            threshold == old(self).spec_threshold(),
            1 <= new_ys@.len(),
            ids@.len() == old(self).spec_ids().len() + new_ys@.len(),
            ids@.len() <= threshold as nat,
            ids@.subrange(0, old(self).spec_ids().len() as int) == old(self).spec_ids(),
            forall|i: int| 0 <= i < ids@.len() ==> ids@[i] != 0,
            forall|i: int, j: int| 0 <= i < j < ids@.len() ==> ids@[i] != ids@[j],
        ensures
            final(self).wf(),
            final(self).spec_threshold() == threshold,
            final(self).spec_ids() == ids@,
            final(self).spec_ys() == old(self).spec_ys() + new_ys@,
            final(self).complete() <==> ids@.len() == threshold as nat,
    {
        let ghost t_old = self.ids_seen@.len() as int;
        let start = ids.len() - new_ys.len();
        self.update_diffs(ids, new_ys);
        proof {
            let k = threshold as nat;
            lemma_outer_ids_prefix(
                spec_init_weights(k),
                old(self).ids_seen@,
                ids@,
                1,
                t_old,
            );
        }
        self.update_barycentric_weights(threshold, ids, start);
    }

    /// Append the differences `y / x` for the `new_ys.len()` newest points;
    /// `ids` holds every identifier seen so far.
    fn update_diffs(&mut self, ids: &[u8], new_ys: &[u8])
        requires
            new_ys@.len() <= ids@.len(),
            old(self).diffs@.len() == ids@.len() - new_ys@.len(),
            old(self).ids_seen@.len() == old(self).diffs@.len(),
            old(self).ys_seen@.len() == old(self).diffs@.len(),
            old(self).diffs@ == spec_diffs(old(self).ids_seen@, old(self).ys_seen@),
            ids@.subrange(0, old(self).ids_seen@.len() as int) == old(self).ids_seen@,
        ensures
            final(self).ids_seen@ == ids@,
            final(self).ys_seen@ == old(self).ys_seen@ + new_ys@,
            final(self).diffs@ == spec_diffs(ids@, final(self).ys_seen@),
            final(self).diffs@.len() == ids@.len(),
            final(self).weights == old(self).weights,
            final(self).secret == old(self).secret,
            final(self).threshold == old(self).threshold,
    {
        let total = ids.len();
        let new_points = new_ys.len();
        let start = total - new_points;
        let mut idx: usize = 0;
        while idx < new_points
            invariant
                idx <= new_points,
                new_points == new_ys@.len(),
                start + new_points == total,
                total == ids@.len(),
                self.diffs@.len() == start + idx,
                self.ids_seen@ == old(self).ids_seen@,
                self.ys_seen@ == old(self).ys_seen@,
                old(self).ids_seen@.len() == start,
                old(self).ys_seen@.len() == start,
                ids@.subrange(0, start as int) == old(self).ids_seen@,
                forall|l: int|
                    0 <= l < start ==> self.diffs@[l] == spec_div(
                        old(self).ys_seen@[l],
                        old(self).ids_seen@[l],
                    ),
                forall|l: int|
                    0 <= l < idx ==> self.diffs@[start + l] == spec_div(
                        new_ys@[l],
                        ids@[start + l],
                    ),
                self.weights == old(self).weights,
                self.secret == old(self).secret,
                self.threshold == old(self).threshold,
            decreases new_points - idx,
        {
            let d = crate::gf256::div(new_ys[idx], ids[start + idx]);
            self.diffs.push(d);
            idx = idx + 1;
        }
        proof {
            self.ids_seen@ = ids@;
            self.ys_seen@ = old(self).ys_seen@ + new_ys@;
            assert forall|l: int| 0 <= l < ids@.len() implies self.diffs@[l] == spec_div(
                self.ys_seen@[l],
                ids@[l],
            ) by {
                if l < start {
                    assert(ids@.subrange(0, start as int)[l] == ids@[l]);
                }
            }
            assert(self.diffs@ =~= spec_diffs(ids@, self.ys_seen@));
        }
    }

    /// Run Werner's recurrence for the stages `start .. ids.len()`, then
    /// compute the secret if threshold many points are now in.
    fn update_barycentric_weights(&mut self, threshold: u8, ids: &[u8], start: usize)
        requires
            threshold >= 2,
            old(self).threshold@ == threshold,
            old(self).ids_seen@ == ids@,
            1 <= start <= ids@.len(),
            ids@.len() <= threshold as nat,
            forall|i: int| 0 <= i < ids@.len() ==> ids@[i] != 0,
            forall|i: int, j: int| 0 <= i < j < ids@.len() ==> ids@[i] != ids@[j],
            old(self).weights@.len() == threshold as nat,
            old(self).weights@ == spec_weights_outer(
                spec_init_weights(threshold as nat),
                ids@,
                1,
                start as int,
            ),
            old(self).diffs@.len() == ids@.len(),
            old(self).ys_seen@.len() == ids@.len(),
            old(self).diffs@ == spec_diffs(ids@, old(self).ys_seen@),
            old(self).secret is None,
        ensures
            final(self).wf(),
            final(self).threshold == old(self).threshold,
            final(self).ids_seen == old(self).ids_seen,
            final(self).ys_seen == old(self).ys_seen,
    {
        let total = ids.len();
        let k = threshold as usize;
        let ghost init = spec_init_weights(threshold as nat);
        let mut i: usize = start;
        while i < total
            invariant
                1 <= i <= total,
                total == ids@.len(),
                total <= k,
                k == threshold as nat,
                self.weights@.len() == k,
                self.weights@ == spec_weights_outer(init, ids@, 1, i as int),
                self.diffs == old(self).diffs,
                self.secret == old(self).secret,
                self.threshold == old(self).threshold,
                self.ids_seen == old(self).ids_seen,
                self.ys_seen == old(self).ys_seen,
                forall|a: int| 0 <= a < total ==> ids@[a] != 0,
                forall|a: int, b: int| 0 <= a < b < total ==> ids@[a] != ids@[b],
            decreases total - i,
        {
            let ghost w_stage = self.weights@;
            let mut j: usize = 0;
            while j < i
                invariant
                    0 <= j <= i < total,
                    total == ids@.len(),
                    total <= k,
                    self.weights@.len() == k,
                    spec_weights_inner(self.weights@, ids@, i as int, j as int)
                        == spec_weights_inner(w_stage, ids@, i as int, 0),
                    self.diffs == old(self).diffs,
                    self.secret == old(self).secret,
                    self.threshold == old(self).threshold,
                    self.ids_seen == old(self).ids_seen,
                    self.ys_seen == old(self).ys_seen,
                decreases i - j,
            {
                let ghost w_before = self.weights@;
                let d = ids[j] ^ ids[i];
                let wj = crate::gf256::div(self.weights[j], d);
                self.weights.set(j, wj);
                let wi = self.weights[i] ^ wj;
                self.weights.set(i, wi);
                proof {
                    assert(self.weights@ == spec_weight_step(w_before, ids@, i as int, j as int));
                }
                j = j + 1;
            }
            proof {
                lemma_inner_len(w_stage, ids@, i as int, 0);
                lemma_outer_compose(init, ids@, 1, i as int, i + 1);
                assert(spec_weights_inner(self.weights@, ids@, i as int, i as int)
                    == self.weights@);
                assert(spec_weights_outer(w_stage, ids@, i as int, i + 1)
                    == spec_weights_outer(
                    spec_weights_inner(w_stage, ids@, i as int, 0),
                    ids@,
                    i + 1,
                    i + 1,
                ));
            }
            i = i + 1;
        }
        if k - total == 0 {
            self.compute_secret(ids);
        }
    }

    /// Fill in the secret from the completed state by the second
    /// barycentric formula at zero.
    fn compute_secret(&mut self, ids: &[u8])
        requires
            old(self).threshold@ >= 2,
            old(self).ids_seen@ == ids@,
            ids@.len() == old(self).threshold@ as nat,
            old(self).weights@.len() == ids@.len(),
            old(self).weights@ == spec_weights(ids@, ids@.len()),
            old(self).diffs@.len() == ids@.len(),
            old(self).diffs@ == spec_diffs(ids@, old(self).ys_seen@),
            old(self).ys_seen@.len() == ids@.len(),
        ensures
            final(self).secret == Some(spec_secret_at_zero(ids@, old(self).ys_seen@)),
            final(self).weights == old(self).weights,
            final(self).diffs == old(self).diffs,
            final(self).threshold == old(self).threshold,
            final(self).ids_seen == old(self).ids_seen,
            final(self).ys_seen == old(self).ys_seen,
    {
        let total = ids.len();
        let mut num: u8 = 0;
        let mut denom: u8 = 0;
        let mut j: usize = 0;
        while j < total
            invariant
                j <= total,
                total == ids@.len(),
                self.weights@.len() == total,
                self.diffs@.len() == total,
                num == spec_num_sum(self.weights@, self.diffs@, j as int),
                denom == spec_denom_sum(self.weights@, ids@, j as int),
                self.weights == old(self).weights,
                self.diffs == old(self).diffs,
                self.secret == old(self).secret,
                self.threshold == old(self).threshold,
                self.ids_seen == old(self).ids_seen,
                self.ys_seen == old(self).ys_seen,
            decreases total - j,
        {
            let m = crate::gf256::mul(self.weights[j], self.diffs[j]);
            num = num ^ m;
            let q = crate::gf256::div(self.weights[j], ids[j]);
            denom = denom ^ q;
            j = j + 1;
        }
        self.secret = Some(crate::gf256::div(num, denom));
    }

    /// Once the computation is complete, the recovered byte.
    pub fn get_secret(&self) -> (r: Result<u8, Error>)
        requires
            self.wf(),
            self.complete(),
        ensures
            r == Ok::<u8, Error>(spec_secret_at_zero(self.spec_ids(), self.spec_ys())),
    {
        let s = self.secret.unwrap();
        Ok(s)
    }

    /// Evaluate the interpolated polynomial at an arbitrary point `x` by the
    /// second barycentric form; `ids` must be the identifiers taken in.
    pub fn evaluate_at_x(&self, x: u8, ids: &[u8]) -> (r: Result<u8, Error>)
        requires
            self.wf(),
            self.complete(),
            ids@ == self.spec_ids(),
        ensures
            r == Ok::<u8, Error>(spec_value_at(self.spec_ids(), self.spec_ys(), x)),
    {
        let total = ids.len();
        let mut num: u8 = 0;
        let mut denom: u8 = 0;
        let mut j: usize = 0;
        proof {
            assert(self.weights@.len() == total);
            assert(self.diffs@.len() == total);
        }
        while j < total
            invariant
                j <= total,
                total == ids@.len(),
                ids@ == self.spec_ids(),
                self.wf(),
                self.complete(),
                self.weights@.len() == total,
                self.diffs@.len() == total,
                num == spec_num_sum_at(self.weights@, self.diffs@, ids@, x, j as int),
                denom == spec_denom_sum_at(self.weights@, ids@, x, j as int),
            decreases total - j,
        {
            let delta = x ^ ids[j];
            let m = crate::gf256::mul(self.weights[j], self.diffs[j]);
            let m2 = crate::gf256::mul(m, ids[j]);
            let q = crate::gf256::div(m2, delta);
            num = num ^ q;
            let q2 = crate::gf256::div(self.weights[j], delta);
            denom = denom ^ q2;
            j = j + 1;
        }
        proof {
            assert(self.weights@ == spec_weights(ids@, ids@.len()));
            assert(self.diffs@ == spec_diffs(ids@, self.spec_ys()));
        }
        Ok(crate::gf256::div(num, denom))
    }
}

} // verus!
