//! Dense polynomials over GF(2^8): a coefficient vector `c0, c1, ...` whose
//! value at `x` is the field sum of `ci * x^i`.

use vstd::prelude::*;
use crate::gf256::spec_mul;

verus! {

/// The value of the polynomial with the given coefficients at `x`, in
/// Horner form: `c0 + x * (c1 + x * (...))`.
pub open spec fn spec_poly_eval(coeffs: Seq<u8>, x: u8) -> u8
    decreases coeffs.len(),
{
    if coeffs.len() == 0 {
        0
    } else {
        coeffs[0] ^ spec_mul(x, spec_poly_eval(coeffs.subrange(1, coeffs.len() as int), x))
    }
}

/// A polynomial over GF(2^8), as its coefficient vector; `coeffs[i]` is the
/// coefficient of `x^i`.
pub struct Poly {
    pub coeffs: Vec<u8>,
}

impl Poly {
    /// Wraps a coefficient vector.
    pub fn new(coeffs: Vec<u8>) -> (r: Poly)
        ensures
            r.coeffs@ == coeffs@,
    {
        Poly { coeffs }
    }

    /// Evaluates the polynomial at `x` by Horner's method.
    pub fn evaluate_at(&self, x: u8) -> (r: u8)
        ensures
            r == spec_poly_eval(self.coeffs@, x),
    {
        poly_eval(self.coeffs.as_slice(), x)
    }
}

/// The value at `x` of the polynomial with the given coefficients, by
/// Horner's method.
pub fn poly_eval(coeffs: &[u8], x: u8) -> (r: u8)
    ensures
        r == spec_poly_eval(coeffs@, x),
{
    let n = coeffs.len();
    let mut acc: u8 = 0;
    let mut i: usize = n;
    proof {
        assert(coeffs@.subrange(n as int, n as int) =~= Seq::<u8>::empty());
    }
    while i > 0
        invariant
            i <= n,
            n == coeffs@.len(),
            acc == spec_poly_eval(coeffs@.subrange(i as int, n as int), x),
        decreases i,
    {
        i = i - 1;
        let m = crate::gf256::mul(x, acc);
        acc = coeffs[i] ^ m;
        proof {
            let tail = coeffs@.subrange(i as int, n as int);
            assert(tail.subrange(1, tail.len() as int) =~= coeffs@.subrange(i + 1, n as int));
        }
    }
    proof {
        assert(coeffs@.subrange(0, n as int) =~= coeffs@);
    }
    acc
}

} // verus!
