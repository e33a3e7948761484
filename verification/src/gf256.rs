//! Arithmetic in the field GF(2^8) under the Rijndael reducing polynomial
//! `x^8 + x^4 + x^3 + x + 1` (0x11b). A byte is a field element; addition is
//! exclusive or, and multiplication reduces the carry-less product modulo
//! the polynomial.

use vstd::prelude::*;

verus! {

/// Multiplication by `x` (the byte 2) modulo the reducing polynomial: the
/// shifted-out high bit folds back as the low bits 0x1b of 0x11b.
pub open spec fn spec_xtime(a: u8) -> u8 {
    (a << 1u8) ^ (if a >= 0x80 {
        0x1bu8
    } else {
        0u8
    })
}

/// The product of two field elements: the carry-less shift-and-add
/// expansion of `b` over `a`, reduced modulo the polynomial at every step.
pub open spec fn spec_mul(a: u8, b: u8) -> u8
    decreases b,
{
    if b == 0 {
        0
    } else {
        (if b % 2 == 1 {
            a
        } else {
            0
        }) ^ spec_mul(spec_xtime(a), b / 2)
    }
}

/// `a` raised to the power `e` in the field.
pub open spec fn spec_pow(a: u8, e: nat) -> u8
    decreases e,
{
    if e == 0 {
        1
    } else {
        spec_mul(spec_pow(a, (e - 1) as nat), a)
    }
}

/// The multiplicative inverse, by Fermat: `a^254`. Zero maps to zero.
pub open spec fn spec_inv(a: u8) -> u8 {
    spec_pow(a, 254)
}

/// Field division: `a` times the inverse of `b`. Division by zero yields zero.
pub open spec fn spec_div(a: u8, b: u8) -> u8 {
    spec_mul(a, spec_inv(b))
}

/// Common identities of exclusive or, used when shuffling accumulated sums.
pub proof fn lemma_xor_props(a: u8, b: u8, c: u8)
    ensures
        a ^ (b ^ c) == (a ^ b) ^ c,
        a ^ b == b ^ a,
        a ^ 0 == a,
        0 ^ a == a,
        a ^ a == 0,
{
    assert(a ^ (b ^ c) == (a ^ b) ^ c && a ^ b == b ^ a && a ^ 0 == a && 0 ^ a == a && a ^ a
        == 0) by (bit_vector);
}

/// Field addition.
pub fn add(a: u8, b: u8) -> (r: u8)
    ensures
        r == (a ^ b),
{
    a ^ b
}

fn xtime(a: u8) -> (r: u8)
    ensures
        r == spec_xtime(a),
{
    let doubled: u8 = a << 1u8;
    proof {
        lemma_xor_props(doubled, 0, 0);
    }
    if a >= 0x80 {
        doubled ^ 0x1b
    } else {
        doubled
    }
}

/// Field multiplication.
pub fn mul(a: u8, b: u8) -> (r: u8)
    ensures
        r == spec_mul(a, b),
{
    let mut acc: u8 = 0;
    let mut aa: u8 = a;
    let mut bb: u8 = b;
    proof {
        lemma_xor_props(spec_mul(a, b), 0, 0);
    }
    while bb != 0
        invariant
            spec_mul(a, b) == acc ^ spec_mul(aa, bb),
        decreases bb,
    {
        let ghost rest = spec_mul(spec_xtime(aa), bb / 2);
        proof {
            let term: u8 = if bb % 2 == 1 {
                aa
            } else {
                0
            };
            lemma_xor_props(acc, term, rest);
            lemma_xor_props(rest, 0, 0);
        }
        if bb % 2 == 1 {
            acc = acc ^ aa;
        }
        aa = xtime(aa);
        bb = bb / 2;
    }
    proof {
        lemma_xor_props(acc, 0, 0);
    }
    acc
}

/// `a` to the power `e`.
pub fn pow(a: u8, e: u8) -> (r: u8)
    ensures
        r == spec_pow(a, e as nat),
{
    let mut r: u8 = 1;
    let mut i: u8 = 0;
    while i < e
        invariant
            i <= e,
            r == spec_pow(a, i as nat),
        decreases e - i,
    {
        r = crate::gf256::mul(r, a);
        i = i + 1;
    }
    r
}

/// The multiplicative inverse of a non-zero element.
pub fn inv(a: u8) -> (r: u8)
    requires
        a != 0,
    ensures
        r == spec_inv(a),
        spec_mul(a, r) == 1,
{
    proof {
        crate::gf256_laws::lemma_mul_inverse(a);
    }
    crate::gf256::pow(a, 254)
}

/// Field division; a zero divisor yields zero, matching `spec_div`.
pub fn div(a: u8, b: u8) -> (r: u8)
    ensures
        r == spec_div(a, b),
{
    if b == 0 {
        proof {
            assert(spec_pow(0, 254) == spec_mul(spec_pow(0, 253), 0));
            assert(spec_div(a, 0) == spec_mul(a, 0));
        }
        0
    } else {
        crate::gf256::mul(a, crate::gf256::inv(b))
    }
}

} // verus!
