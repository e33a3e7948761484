//! The algebraic laws of GF(2^8): the addition laws, distributivity of
//! multiplication over addition, and the multiplicative inverse law. The
//! inverse law rests on the cycle of the generator 3, written out as a
//! table and checked step by step, together with the ring identities that
//! move a factor of the generator through a product.

use vstd::prelude::*;
use crate::gf256::{spec_xtime, spec_mul, spec_pow, spec_inv};
use vstd::arithmetic::div_mod::{
    lemma_add_mod_noop, lemma_small_mod, lemma_mod_bound, lemma_mod_multiples_basic,
};

verus! {

/// The addition laws of the field: commutative, associative, zero the
/// identity, and every element its own additive inverse.
pub proof fn lemma_add_laws(a: u8, b: u8, c: u8)
    ensures
        (a ^ b) == (b ^ a),
        ((a ^ b) ^ c) == (a ^ (b ^ c)),
        (a ^ 0) == a,
        (a ^ a) == 0,
{
    assert((a ^ b) == (b ^ a) && ((a ^ b) ^ c) == (a ^ (b ^ c)) && (a ^ 0) == a && (a ^ a)
        == 0) by (bit_vector);
}

pub proof fn lemma_xor_shuffle(p: u8, q: u8, r: u8, s: u8)
    ensures
        ((p ^ q) ^ (r ^ s)) == ((p ^ r) ^ (q ^ s)),
{
    assert(((p ^ q) ^ (r ^ s)) == ((p ^ r) ^ (q ^ s))) by (bit_vector);
}

proof fn lemma_bv_basics()
    ensures
        ((0u8 << 1u8) ^ 0u8) == 0u8,
        ((1u8 << 1u8) ^ 0u8) == 2u8,
        (1u8 ^ 2u8) == 3u8,
        (1u8 ^ 1u8) == 0u8,
        (1u8 ^ 0u8) == 1u8,
        (0u8 ^ 1u8) == 1u8,
        (0u8 ^ 0u8) == 0u8,
{
    assert(((0u8 << 1u8) ^ 0u8) == 0u8 && ((1u8 << 1u8) ^ 0u8) == 2u8 && (1u8 ^ 2u8) == 3u8 && (
    1u8 ^ 1u8) == 0u8 && (1u8 ^ 0u8) == 1u8 && (0u8 ^ 1u8) == 1u8 && (0u8 ^ 0u8) == 0u8)
        by (bit_vector);
}

/// Multiplication by `x` is additive.
proof fn lemma_xtime_linear(x: u8, y: u8)
    ensures
        spec_xtime(x ^ y) == (spec_xtime(x) ^ spec_xtime(y)),
{
    assert((((x ^ y) << 1u8) ^ (if (x ^ y) >= 0x80 {
        0x1bu8
    } else {
        0u8
    })) == ((((x << 1u8) ^ (if x >= 0x80 {
        0x1bu8
    } else {
        0u8
    }))) ^ (((y << 1u8) ^ (if y >= 0x80 {
        0x1bu8
    } else {
        0u8
    }))))) by (bit_vector);
}

/// The defining recurrence of the product, stated also for a zero second
/// factor.
proof fn lemma_mul_unfold(a: u8, b: u8)
    ensures
        spec_mul(a, b) == ((if b % 2 == 1 {
            a
        } else {
            0u8
        }) ^ spec_mul(spec_xtime(a), b / 2)),
{
    if b == 0 {
        lemma_bv_basics();
        assert(spec_mul(spec_xtime(a), 0) == 0);
    }
}

/// Multiplication distributes over field addition.
pub proof fn lemma_mul_distributive(a: u8, b: u8, c: u8)
    ensures
        spec_mul(a, b ^ c) == (spec_mul(a, b) ^ spec_mul(a, c)),
    decreases b + c,
{
    lemma_bv_basics();
    if b == 0 && c == 0 {
        assert(spec_mul(a, 0) == 0);
    } else {
        assert(((b ^ c) % 2 == ((b % 2) ^ (c % 2))) && ((b ^ c) / 2 == ((b / 2) ^ (c / 2))) && (
        b / 2) + (c / 2) < b + c) by (bit_vector)
            requires
                b != 0 || c != 0,
        ;
        let tb: u8 = if b % 2 == 1 {
            a
        } else {
            0
        };
        let tc: u8 = if c % 2 == 1 {
            a
        } else {
            0
        };
        lemma_mul_unfold(a, b);
        lemma_mul_unfold(a, c);
        lemma_mul_unfold(a, b ^ c);
        lemma_mul_distributive(spec_xtime(a), b / 2, c / 2);
        lemma_add_laws(a, a, 0);
        lemma_add_laws(a, 0, 0);
        lemma_add_laws(0, a, 0);
        assert((if (b ^ c) % 2 == 1 {
            a
        } else {
            0u8
        }) == (tb ^ tc));
        lemma_xor_shuffle(
            tb,
            spec_mul(spec_xtime(a), b / 2),
            tc,
            spec_mul(spec_xtime(a), c / 2),
        );
    }
}

/// A factor of `x` moves through a product.
proof fn lemma_mul_by_x(x: u8, y: u8)
    ensures
        spec_mul(spec_xtime(x), y) == spec_xtime(spec_mul(x, y)),
    decreases y,
{
    lemma_bv_basics();
    if y == 0 {
    } else {
        let t: u8 = if y % 2 == 1 {
            x
        } else {
            0
        };
        lemma_mul_by_x(spec_xtime(x), y / 2);
        lemma_xtime_linear(t, spec_mul(spec_xtime(x), y / 2));
    }
}

/// One is the multiplicative identity.
pub proof fn lemma_mul_one(x: u8)
    ensures
        spec_mul(1, x) == x,
    decreases x,
{
    lemma_bv_basics();
    if x == 0 {
    } else {
        lemma_mul_one(x / 2);
        lemma_mul_by_x(1, x / 2);
        assert(((if x % 2 == 1 {
            1u8
        } else {
            0u8
        }) ^ (((x / 2) << 1u8) ^ 0u8)) == x) by (bit_vector);
    }
}

/// Multiplication distributes over addition in its first factor.
pub proof fn lemma_mul_add_left(x: u8, y: u8, c: u8)
    ensures
        spec_mul(x ^ y, c) == (spec_mul(x, c) ^ spec_mul(y, c)),
    decreases c,
{
    lemma_bv_basics();
    if c == 0 {
    } else {
        let tx: u8 = if c % 2 == 1 {
            x
        } else {
            0
        };
        let ty: u8 = if c % 2 == 1 {
            y
        } else {
            0
        };
        lemma_xtime_linear(x, y);
        lemma_mul_add_left(spec_xtime(x), spec_xtime(y), c / 2);
        assert((if c % 2 == 1 {
            (x ^ y)
        } else {
            0u8
        }) == (tx ^ ty));
        lemma_xor_shuffle(tx, spec_mul(spec_xtime(x), c / 2), ty, spec_mul(spec_xtime(y), c / 2));
    }
}

/// The product with the generator 3, in closed form.
proof fn lemma_mul_three(x: u8)
    ensures
        spec_mul(3, x) == (spec_xtime(x) ^ x),
{
    lemma_bv_basics();
    lemma_mul_add_left(1, 2, x);
    lemma_mul_one(x);
    lemma_mul_by_x(1, x);
    lemma_add_laws(x, spec_xtime(x), 0);
}

/// A factor of the generator associates through a product.
proof fn lemma_mul_three_assoc(x: u8, y: u8)
    ensures
        spec_mul(spec_mul(3, x), y) == spec_mul(3, spec_mul(x, y)),
{
    lemma_mul_three(x);
    lemma_mul_add_left(spec_xtime(x), x, y);
    lemma_mul_by_x(x, y);
    lemma_mul_three(spec_mul(x, y));
}

/// The powers of the generator 3: `exp_at(i)` is `3^i` in the field.
pub open spec fn exp_at(i: int) -> u8 {
    if i == 0 {
        0x01u8
    } else if i == 1 {
        0x03u8
    } else if i == 2 {
        0x05u8
    } else if i == 3 {
        0x0fu8
    } else if i == 4 {
        0x11u8
    } else if i == 5 {
        0x33u8
    } else if i == 6 {
        0x55u8
    } else if i == 7 {
        0xffu8
    } else if i == 8 {
        0x1au8
    } else if i == 9 {
        0x2eu8
    } else if i == 10 {
        0x72u8
    } else if i == 11 {
        0x96u8
    } else if i == 12 {
        0xa1u8
    } else if i == 13 {
        0xf8u8
    } else if i == 14 {
        0x13u8
    } else if i == 15 {
        0x35u8
    } else if i == 16 {
        0x5fu8
    } else if i == 17 {
        0xe1u8
    } else if i == 18 {
        0x38u8
    } else if i == 19 {
        0x48u8
    } else if i == 20 {
        0xd8u8
    } else if i == 21 {
        0x73u8
    } else if i == 22 {
        0x95u8
    } else if i == 23 {
        0xa4u8
    } else if i == 24 {
        0xf7u8
    } else if i == 25 {
        0x02u8
    } else if i == 26 {
        0x06u8
    } else if i == 27 {
        0x0au8
    } else if i == 28 {
        0x1eu8
    } else if i == 29 {
        0x22u8
    } else if i == 30 {
        0x66u8
    } else if i == 31 {
        0xaau8
    } else if i == 32 {
        0xe5u8
    } else if i == 33 {
        0x34u8
    } else if i == 34 {
        0x5cu8
    } else if i == 35 {
        0xe4u8
    } else if i == 36 {
        0x37u8
    } else if i == 37 {
        0x59u8
    } else if i == 38 {
        0xebu8
    } else if i == 39 {
        0x26u8
    } else if i == 40 {
        0x6au8
    } else if i == 41 {
        0xbeu8
    } else if i == 42 {
        0xd9u8
    } else if i == 43 {
        0x70u8
    } else if i == 44 {
        0x90u8
    } else if i == 45 {
        0xabu8
    } else if i == 46 {
        0xe6u8
    } else if i == 47 {
        0x31u8
    } else if i == 48 {
        0x53u8
    } else if i == 49 {
        0xf5u8
    } else if i == 50 {
        0x04u8
    } else if i == 51 {
        0x0cu8
    } else if i == 52 {
        0x14u8
    } else if i == 53 {
        0x3cu8
    } else if i == 54 {
        0x44u8
    } else if i == 55 {
        0xccu8
    } else if i == 56 {
        0x4fu8
    } else if i == 57 {
        0xd1u8
    } else if i == 58 {
        0x68u8
    } else if i == 59 {
        0xb8u8
    } else if i == 60 {
        0xd3u8
    } else if i == 61 {
        0x6eu8
    } else if i == 62 {
        0xb2u8
    } else if i == 63 {
        0xcdu8
    } else if i == 64 {
        0x4cu8
    } else if i == 65 {
        0xd4u8
    } else if i == 66 {
        0x67u8
    } else if i == 67 {
        0xa9u8
    } else if i == 68 {
        0xe0u8
    } else if i == 69 {
        0x3bu8
    } else if i == 70 {
        0x4du8
    } else if i == 71 {
        0xd7u8
    } else if i == 72 {
        0x62u8
    } else if i == 73 {
        0xa6u8
    } else if i == 74 {
        0xf1u8
    } else if i == 75 {
        0x08u8
    } else if i == 76 {
        0x18u8
    } else if i == 77 {
        0x28u8
    } else if i == 78 {
        0x78u8
    } else if i == 79 {
        0x88u8
    } else if i == 80 {
        0x83u8
    } else if i == 81 {
        0x9eu8
    } else if i == 82 {
        0xb9u8
    } else if i == 83 {
        0xd0u8
    } else if i == 84 {
        0x6bu8
    } else if i == 85 {
        0xbdu8
    } else if i == 86 {
        0xdcu8
    } else if i == 87 {
        0x7fu8
    } else if i == 88 {
        0x81u8
    } else if i == 89 {
        0x98u8
    } else if i == 90 {
        0xb3u8
    } else if i == 91 {
        0xceu8
    } else if i == 92 {
        0x49u8
    } else if i == 93 {
        0xdbu8
    } else if i == 94 {
        0x76u8
    } else if i == 95 {
        0x9au8
    } else if i == 96 {
        0xb5u8
    } else if i == 97 {
        0xc4u8
    } else if i == 98 {
        0x57u8
    } else if i == 99 {
        0xf9u8
    } else if i == 100 {
        0x10u8
    } else if i == 101 {
        0x30u8
    } else if i == 102 {
        0x50u8
    } else if i == 103 {
        0xf0u8
    } else if i == 104 {
        0x0bu8
    } else if i == 105 {
        0x1du8
    } else if i == 106 {
        0x27u8
    } else if i == 107 {
        0x69u8
    } else if i == 108 {
        0xbbu8
    } else if i == 109 {
        0xd6u8
    } else if i == 110 {
        0x61u8
    } else if i == 111 {
        0xa3u8
    } else if i == 112 {
        0xfeu8
    } else if i == 113 {
        0x19u8
    } else if i == 114 {
        0x2bu8
    } else if i == 115 {
        0x7du8
    } else if i == 116 {
        0x87u8
    } else if i == 117 {
        0x92u8
    } else if i == 118 {
        0xadu8
    } else if i == 119 {
        0xecu8
    } else if i == 120 {
        0x2fu8
    } else if i == 121 {
        0x71u8
    } else if i == 122 {
        0x93u8
    } else if i == 123 {
        0xaeu8
    } else if i == 124 {
        0xe9u8
    } else if i == 125 {
        0x20u8
    } else if i == 126 {
        0x60u8
    } else if i == 127 {
        0xa0u8
    } else if i == 128 {
        0xfbu8
    } else if i == 129 {
        0x16u8
    } else if i == 130 {
        0x3au8
    } else if i == 131 {
        0x4eu8
    } else if i == 132 {
        0xd2u8
    } else if i == 133 {
        0x6du8
    } else if i == 134 {
        0xb7u8
    } else if i == 135 {
        0xc2u8
    } else if i == 136 {
        0x5du8
    } else if i == 137 {
        0xe7u8
    } else if i == 138 {
        0x32u8
    } else if i == 139 {
        0x56u8
    } else if i == 140 {
        0xfau8
    } else if i == 141 {
        0x15u8
    } else if i == 142 {
        0x3fu8
    } else if i == 143 {
        0x41u8
    } else if i == 144 {
        0xc3u8
    } else if i == 145 {
        0x5eu8
    } else if i == 146 {
        0xe2u8
    } else if i == 147 {
        0x3du8
    } else if i == 148 {
        0x47u8
    } else if i == 149 {
        0xc9u8
    } else if i == 150 {
        0x40u8
    } else if i == 151 {
        0xc0u8
    } else if i == 152 {
        0x5bu8
    } else if i == 153 {
        0xedu8
    } else if i == 154 {
        0x2cu8
    } else if i == 155 {
        0x74u8
    } else if i == 156 {
        0x9cu8
    } else if i == 157 {
        0xbfu8
    } else if i == 158 {
        0xdau8
    } else if i == 159 {
        0x75u8
    } else if i == 160 {
        0x9fu8
    } else if i == 161 {
        0xbau8
    } else if i == 162 {
        0xd5u8
    } else if i == 163 {
        0x64u8
    } else if i == 164 {
        0xacu8
    } else if i == 165 {
        0xefu8
    } else if i == 166 {
        0x2au8
    } else if i == 167 {
        0x7eu8
    } else if i == 168 {
        0x82u8
    } else if i == 169 {
        0x9du8
    } else if i == 170 {
        0xbcu8
    } else if i == 171 {
        0xdfu8
    } else if i == 172 {
        0x7au8
    } else if i == 173 {
        0x8eu8
    } else if i == 174 {
        0x89u8
    } else if i == 175 {
        0x80u8
    } else if i == 176 {
        0x9bu8
    } else if i == 177 {
        0xb6u8
    } else if i == 178 {
        0xc1u8
    } else if i == 179 {
        0x58u8
    } else if i == 180 {
        0xe8u8
    } else if i == 181 {
        0x23u8
    } else if i == 182 {
        0x65u8
    } else if i == 183 {
        0xafu8
    } else if i == 184 {
        0xeau8
    } else if i == 185 {
        0x25u8
    } else if i == 186 {
        0x6fu8
    } else if i == 187 {
        0xb1u8
    } else if i == 188 {
        0xc8u8
    } else if i == 189 {
        0x43u8
    } else if i == 190 {
        0xc5u8
    } else if i == 191 {
        0x54u8
    } else if i == 192 {
        0xfcu8
    } else if i == 193 {
        0x1fu8
    } else if i == 194 {
        0x21u8
    } else if i == 195 {
        0x63u8
    } else if i == 196 {
        0xa5u8
    } else if i == 197 {
        0xf4u8
    } else if i == 198 {
        0x07u8
    } else if i == 199 {
        0x09u8
    } else if i == 200 {
        0x1bu8
    } else if i == 201 {
        0x2du8
    } else if i == 202 {
        0x77u8
    } else if i == 203 {
        0x99u8
    } else if i == 204 {
        0xb0u8
    } else if i == 205 {
        0xcbu8
    } else if i == 206 {
        0x46u8
    } else if i == 207 {
        0xcau8
    } else if i == 208 {
        0x45u8
    } else if i == 209 {
        0xcfu8
    } else if i == 210 {
        0x4au8
    } else if i == 211 {
        0xdeu8
    } else if i == 212 {
        0x79u8
    } else if i == 213 {
        0x8bu8
    } else if i == 214 {
        0x86u8
    } else if i == 215 {
        0x91u8
    } else if i == 216 {
        0xa8u8
    } else if i == 217 {
        0xe3u8
    } else if i == 218 {
        0x3eu8
    } else if i == 219 {
        0x42u8
    } else if i == 220 {
        0xc6u8
    } else if i == 221 {
        0x51u8
    } else if i == 222 {
        0xf3u8
    } else if i == 223 {
        0x0eu8
    } else if i == 224 {
        0x12u8
    } else if i == 225 {
        0x36u8
    } else if i == 226 {
        0x5au8
    } else if i == 227 {
        0xeeu8
    } else if i == 228 {
        0x29u8
    } else if i == 229 {
        0x7bu8
    } else if i == 230 {
        0x8du8
    } else if i == 231 {
        0x8cu8
    } else if i == 232 {
        0x8fu8
    } else if i == 233 {
        0x8au8
    } else if i == 234 {
        0x85u8
    } else if i == 235 {
        0x94u8
    } else if i == 236 {
        0xa7u8
    } else if i == 237 {
        0xf2u8
    } else if i == 238 {
        0x0du8
    } else if i == 239 {
        0x17u8
    } else if i == 240 {
        0x39u8
    } else if i == 241 {
        0x4bu8
    } else if i == 242 {
        0xddu8
    } else if i == 243 {
        0x7cu8
    } else if i == 244 {
        0x84u8
    } else if i == 245 {
        0x97u8
    } else if i == 246 {
        0xa2u8
    } else if i == 247 {
        0xfdu8
    } else if i == 248 {
        0x1cu8
    } else if i == 249 {
        0x24u8
    } else if i == 250 {
        0x6cu8
    } else if i == 251 {
        0xb4u8
    } else if i == 252 {
        0xc7u8
    } else if i == 253 {
        0x52u8
    } else if i == 254 {
        0xf6u8
    } else {
        0u8
    }
}

#[verifier::rlimit(100)]
proof fn lemma_exp_step_0(i: int)
    requires
        0 <= i < 32,
    ensures
        spec_mul(3, exp_at(i)) == exp_at((i + 1) % 255),
{
    lemma_mul_three(exp_at(i));
    assert(((0x01u8 << 1u8) ^ 0u8) == 0x02u8 && (0x02u8 ^ 0x01u8) == 0x03u8 && ((0x03u8 << 1u8) ^ 0u8) == 0x06u8 && (0x06u8 ^ 0x03u8) == 0x05u8 && ((0x05u8 << 1u8) ^ 0u8) == 0x0au8 && (0x0au8 ^ 0x05u8) == 0x0fu8 && ((0x0fu8 << 1u8) ^ 0u8) == 0x1eu8 && (0x1eu8 ^ 0x0fu8) == 0x11u8 && ((0x11u8 << 1u8) ^ 0u8) == 0x22u8 && (0x22u8 ^ 0x11u8) == 0x33u8 && ((0x33u8 << 1u8) ^ 0u8) == 0x66u8 && (0x66u8 ^ 0x33u8) == 0x55u8 && ((0x55u8 << 1u8) ^ 0u8) == 0xaau8 && (0xaau8 ^ 0x55u8) == 0xffu8 && ((0xffu8 << 1u8) ^ 0x1bu8) == 0xe5u8 && (0xe5u8 ^ 0xffu8) == 0x1au8 && ((0x1au8 << 1u8) ^ 0u8) == 0x34u8 && (0x34u8 ^ 0x1au8) == 0x2eu8 && ((0x2eu8 << 1u8) ^ 0u8) == 0x5cu8 && (0x5cu8 ^ 0x2eu8) == 0x72u8 && ((0x72u8 << 1u8) ^ 0u8) == 0xe4u8 && (0xe4u8 ^ 0x72u8) == 0x96u8 && ((0x96u8 << 1u8) ^ 0x1bu8) == 0x37u8 && (0x37u8 ^ 0x96u8) == 0xa1u8 && ((0xa1u8 << 1u8) ^ 0x1bu8) == 0x59u8 && (0x59u8 ^ 0xa1u8) == 0xf8u8 && ((0xf8u8 << 1u8) ^ 0x1bu8) == 0xebu8 && (0xebu8 ^ 0xf8u8) == 0x13u8 && ((0x13u8 << 1u8) ^ 0u8) == 0x26u8 && (0x26u8 ^ 0x13u8) == 0x35u8 && ((0x35u8 << 1u8) ^ 0u8) == 0x6au8 && (0x6au8 ^ 0x35u8) == 0x5fu8 && ((0x5fu8 << 1u8) ^ 0u8) == 0xbeu8 && (0xbeu8 ^ 0x5fu8) == 0xe1u8 && ((0xe1u8 << 1u8) ^ 0x1bu8) == 0xd9u8 && (0xd9u8 ^ 0xe1u8) == 0x38u8 && ((0x38u8 << 1u8) ^ 0u8) == 0x70u8 && (0x70u8 ^ 0x38u8) == 0x48u8 && ((0x48u8 << 1u8) ^ 0u8) == 0x90u8 && (0x90u8 ^ 0x48u8) == 0xd8u8 && ((0xd8u8 << 1u8) ^ 0x1bu8) == 0xabu8 && (0xabu8 ^ 0xd8u8) == 0x73u8 && ((0x73u8 << 1u8) ^ 0u8) == 0xe6u8 && (0xe6u8 ^ 0x73u8) == 0x95u8 && ((0x95u8 << 1u8) ^ 0x1bu8) == 0x31u8 && (0x31u8 ^ 0x95u8) == 0xa4u8 && ((0xa4u8 << 1u8) ^ 0x1bu8) == 0x53u8 && (0x53u8 ^ 0xa4u8) == 0xf7u8 && ((0xf7u8 << 1u8) ^ 0x1bu8) == 0xf5u8 && (0xf5u8 ^ 0xf7u8) == 0x02u8 && ((0x02u8 << 1u8) ^ 0u8) == 0x04u8 && (0x04u8 ^ 0x02u8) == 0x06u8 && ((0x06u8 << 1u8) ^ 0u8) == 0x0cu8 && (0x0cu8 ^ 0x06u8) == 0x0au8 && ((0x0au8 << 1u8) ^ 0u8) == 0x14u8 && (0x14u8 ^ 0x0au8) == 0x1eu8 && ((0x1eu8 << 1u8) ^ 0u8) == 0x3cu8 && (0x3cu8 ^ 0x1eu8) == 0x22u8 && ((0x22u8 << 1u8) ^ 0u8) == 0x44u8 && (0x44u8 ^ 0x22u8) == 0x66u8 && ((0x66u8 << 1u8) ^ 0u8) == 0xccu8 && (0xccu8 ^ 0x66u8) == 0xaau8 && ((0xaau8 << 1u8) ^ 0x1bu8) == 0x4fu8 && (0x4fu8 ^ 0xaau8) == 0xe5u8) by (bit_vector);
    if i == 0 {
        assert(spec_xtime(0x01u8) == 0x02u8);
    } else if i == 1 {
        assert(spec_xtime(0x03u8) == 0x06u8);
    } else if i == 2 {
        assert(spec_xtime(0x05u8) == 0x0au8);
    } else if i == 3 {
        assert(spec_xtime(0x0fu8) == 0x1eu8);
    } else if i == 4 {
        assert(spec_xtime(0x11u8) == 0x22u8);
    } else if i == 5 {
        assert(spec_xtime(0x33u8) == 0x66u8);
    } else if i == 6 {
        assert(spec_xtime(0x55u8) == 0xaau8);
    } else if i == 7 {
        assert(spec_xtime(0xffu8) == 0xe5u8);
    } else if i == 8 {
        assert(spec_xtime(0x1au8) == 0x34u8);
    } else if i == 9 {
        assert(spec_xtime(0x2eu8) == 0x5cu8);
    } else if i == 10 {
        assert(spec_xtime(0x72u8) == 0xe4u8);
    } else if i == 11 {
        assert(spec_xtime(0x96u8) == 0x37u8);
    } else if i == 12 {
        assert(spec_xtime(0xa1u8) == 0x59u8);
    } else if i == 13 {
        assert(spec_xtime(0xf8u8) == 0xebu8);
    } else if i == 14 {
        assert(spec_xtime(0x13u8) == 0x26u8);
    } else if i == 15 {
        assert(spec_xtime(0x35u8) == 0x6au8);
    } else if i == 16 {
        assert(spec_xtime(0x5fu8) == 0xbeu8);
    } else if i == 17 {
        assert(spec_xtime(0xe1u8) == 0xd9u8);
    } else if i == 18 {
        assert(spec_xtime(0x38u8) == 0x70u8);
    } else if i == 19 {
        assert(spec_xtime(0x48u8) == 0x90u8);
    } else if i == 20 {
        assert(spec_xtime(0xd8u8) == 0xabu8);
    } else if i == 21 {
        assert(spec_xtime(0x73u8) == 0xe6u8);
    } else if i == 22 {
        assert(spec_xtime(0x95u8) == 0x31u8);
    } else if i == 23 {
        assert(spec_xtime(0xa4u8) == 0x53u8);
    } else if i == 24 {
        assert(spec_xtime(0xf7u8) == 0xf5u8);
    } else if i == 25 {
        assert(spec_xtime(0x02u8) == 0x04u8);
    } else if i == 26 {
        assert(spec_xtime(0x06u8) == 0x0cu8);
    } else if i == 27 {
        assert(spec_xtime(0x0au8) == 0x14u8);
    } else if i == 28 {
        assert(spec_xtime(0x1eu8) == 0x3cu8);
    } else if i == 29 {
        assert(spec_xtime(0x22u8) == 0x44u8);
    } else if i == 30 {
        assert(spec_xtime(0x66u8) == 0xccu8);
    } else if i == 31 {
        assert(spec_xtime(0xaau8) == 0x4fu8);
    } else {
    }
}

#[verifier::rlimit(100)]
proof fn lemma_exp_step_1(i: int)
    requires
        32 <= i < 64,
    ensures
        spec_mul(3, exp_at(i)) == exp_at((i + 1) % 255),
{
    lemma_mul_three(exp_at(i));
    assert(((0xe5u8 << 1u8) ^ 0x1bu8) == 0xd1u8 && (0xd1u8 ^ 0xe5u8) == 0x34u8 && ((0x34u8 << 1u8) ^ 0u8) == 0x68u8 && (0x68u8 ^ 0x34u8) == 0x5cu8 && ((0x5cu8 << 1u8) ^ 0u8) == 0xb8u8 && (0xb8u8 ^ 0x5cu8) == 0xe4u8 && ((0xe4u8 << 1u8) ^ 0x1bu8) == 0xd3u8 && (0xd3u8 ^ 0xe4u8) == 0x37u8 && ((0x37u8 << 1u8) ^ 0u8) == 0x6eu8 && (0x6eu8 ^ 0x37u8) == 0x59u8 && ((0x59u8 << 1u8) ^ 0u8) == 0xb2u8 && (0xb2u8 ^ 0x59u8) == 0xebu8 && ((0xebu8 << 1u8) ^ 0x1bu8) == 0xcdu8 && (0xcdu8 ^ 0xebu8) == 0x26u8 && ((0x26u8 << 1u8) ^ 0u8) == 0x4cu8 && (0x4cu8 ^ 0x26u8) == 0x6au8 && ((0x6au8 << 1u8) ^ 0u8) == 0xd4u8 && (0xd4u8 ^ 0x6au8) == 0xbeu8 && ((0xbeu8 << 1u8) ^ 0x1bu8) == 0x67u8 && (0x67u8 ^ 0xbeu8) == 0xd9u8 && ((0xd9u8 << 1u8) ^ 0x1bu8) == 0xa9u8 && (0xa9u8 ^ 0xd9u8) == 0x70u8 && ((0x70u8 << 1u8) ^ 0u8) == 0xe0u8 && (0xe0u8 ^ 0x70u8) == 0x90u8 && ((0x90u8 << 1u8) ^ 0x1bu8) == 0x3bu8 && (0x3bu8 ^ 0x90u8) == 0xabu8 && ((0xabu8 << 1u8) ^ 0x1bu8) == 0x4du8 && (0x4du8 ^ 0xabu8) == 0xe6u8 && ((0xe6u8 << 1u8) ^ 0x1bu8) == 0xd7u8 && (0xd7u8 ^ 0xe6u8) == 0x31u8 && ((0x31u8 << 1u8) ^ 0u8) == 0x62u8 && (0x62u8 ^ 0x31u8) == 0x53u8 && ((0x53u8 << 1u8) ^ 0u8) == 0xa6u8 && (0xa6u8 ^ 0x53u8) == 0xf5u8 && ((0xf5u8 << 1u8) ^ 0x1bu8) == 0xf1u8 && (0xf1u8 ^ 0xf5u8) == 0x04u8 && ((0x04u8 << 1u8) ^ 0u8) == 0x08u8 && (0x08u8 ^ 0x04u8) == 0x0cu8 && ((0x0cu8 << 1u8) ^ 0u8) == 0x18u8 && (0x18u8 ^ 0x0cu8) == 0x14u8 && ((0x14u8 << 1u8) ^ 0u8) == 0x28u8 && (0x28u8 ^ 0x14u8) == 0x3cu8 && ((0x3cu8 << 1u8) ^ 0u8) == 0x78u8 && (0x78u8 ^ 0x3cu8) == 0x44u8 && ((0x44u8 << 1u8) ^ 0u8) == 0x88u8 && (0x88u8 ^ 0x44u8) == 0xccu8 && ((0xccu8 << 1u8) ^ 0x1bu8) == 0x83u8 && (0x83u8 ^ 0xccu8) == 0x4fu8 && ((0x4fu8 << 1u8) ^ 0u8) == 0x9eu8 && (0x9eu8 ^ 0x4fu8) == 0xd1u8 && ((0xd1u8 << 1u8) ^ 0x1bu8) == 0xb9u8 && (0xb9u8 ^ 0xd1u8) == 0x68u8 && ((0x68u8 << 1u8) ^ 0u8) == 0xd0u8 && (0xd0u8 ^ 0x68u8) == 0xb8u8 && ((0xb8u8 << 1u8) ^ 0x1bu8) == 0x6bu8 && (0x6bu8 ^ 0xb8u8) == 0xd3u8 && ((0xd3u8 << 1u8) ^ 0x1bu8) == 0xbdu8 && (0xbdu8 ^ 0xd3u8) == 0x6eu8 && ((0x6eu8 << 1u8) ^ 0u8) == 0xdcu8 && (0xdcu8 ^ 0x6eu8) == 0xb2u8 && ((0xb2u8 << 1u8) ^ 0x1bu8) == 0x7fu8 && (0x7fu8 ^ 0xb2u8) == 0xcdu8 && ((0xcdu8 << 1u8) ^ 0x1bu8) == 0x81u8 && (0x81u8 ^ 0xcdu8) == 0x4cu8) by (bit_vector);
    if i == 32 {
        assert(spec_xtime(0xe5u8) == 0xd1u8);
    } else if i == 33 {
        assert(spec_xtime(0x34u8) == 0x68u8);
    } else if i == 34 {
        assert(spec_xtime(0x5cu8) == 0xb8u8);
    } else if i == 35 {
        assert(spec_xtime(0xe4u8) == 0xd3u8);
    } else if i == 36 {
        assert(spec_xtime(0x37u8) == 0x6eu8);
    } else if i == 37 {
        assert(spec_xtime(0x59u8) == 0xb2u8);
    } else if i == 38 {
        assert(spec_xtime(0xebu8) == 0xcdu8);
    } else if i == 39 {
        assert(spec_xtime(0x26u8) == 0x4cu8);
    } else if i == 40 {
        assert(spec_xtime(0x6au8) == 0xd4u8);
    } else if i == 41 {
        assert(spec_xtime(0xbeu8) == 0x67u8);
    } else if i == 42 {
        assert(spec_xtime(0xd9u8) == 0xa9u8);
    } else if i == 43 {
        assert(spec_xtime(0x70u8) == 0xe0u8);
    } else if i == 44 {
        assert(spec_xtime(0x90u8) == 0x3bu8);
    } else if i == 45 {
        assert(spec_xtime(0xabu8) == 0x4du8);
    } else if i == 46 {
        assert(spec_xtime(0xe6u8) == 0xd7u8);
    } else if i == 47 {
        assert(spec_xtime(0x31u8) == 0x62u8);
    } else if i == 48 {
        assert(spec_xtime(0x53u8) == 0xa6u8);
    } else if i == 49 {
        assert(spec_xtime(0xf5u8) == 0xf1u8);
    } else if i == 50 {
        assert(spec_xtime(0x04u8) == 0x08u8);
    } else if i == 51 {
        assert(spec_xtime(0x0cu8) == 0x18u8);
    } else if i == 52 {
        assert(spec_xtime(0x14u8) == 0x28u8);
    } else if i == 53 {
        assert(spec_xtime(0x3cu8) == 0x78u8);
    } else if i == 54 {
        assert(spec_xtime(0x44u8) == 0x88u8);
    } else if i == 55 {
        assert(spec_xtime(0xccu8) == 0x83u8);
    } else if i == 56 {
        assert(spec_xtime(0x4fu8) == 0x9eu8);
    } else if i == 57 {
        assert(spec_xtime(0xd1u8) == 0xb9u8);
    } else if i == 58 {
        assert(spec_xtime(0x68u8) == 0xd0u8);
    } else if i == 59 {
        assert(spec_xtime(0xb8u8) == 0x6bu8);
    } else if i == 60 {
        assert(spec_xtime(0xd3u8) == 0xbdu8);
    } else if i == 61 {
        assert(spec_xtime(0x6eu8) == 0xdcu8);
    } else if i == 62 {
        assert(spec_xtime(0xb2u8) == 0x7fu8);
    } else if i == 63 {
        assert(spec_xtime(0xcdu8) == 0x81u8);
    } else {
    }
}

#[verifier::rlimit(100)]
proof fn lemma_exp_step_2(i: int)
    requires
        64 <= i < 96,
    ensures
        spec_mul(3, exp_at(i)) == exp_at((i + 1) % 255),
{
    lemma_mul_three(exp_at(i));
    assert(((0x4cu8 << 1u8) ^ 0u8) == 0x98u8 && (0x98u8 ^ 0x4cu8) == 0xd4u8 && ((0xd4u8 << 1u8) ^ 0x1bu8) == 0xb3u8 && (0xb3u8 ^ 0xd4u8) == 0x67u8 && ((0x67u8 << 1u8) ^ 0u8) == 0xceu8 && (0xceu8 ^ 0x67u8) == 0xa9u8 && ((0xa9u8 << 1u8) ^ 0x1bu8) == 0x49u8 && (0x49u8 ^ 0xa9u8) == 0xe0u8 && ((0xe0u8 << 1u8) ^ 0x1bu8) == 0xdbu8 && (0xdbu8 ^ 0xe0u8) == 0x3bu8 && ((0x3bu8 << 1u8) ^ 0u8) == 0x76u8 && (0x76u8 ^ 0x3bu8) == 0x4du8 && ((0x4du8 << 1u8) ^ 0u8) == 0x9au8 && (0x9au8 ^ 0x4du8) == 0xd7u8 && ((0xd7u8 << 1u8) ^ 0x1bu8) == 0xb5u8 && (0xb5u8 ^ 0xd7u8) == 0x62u8 && ((0x62u8 << 1u8) ^ 0u8) == 0xc4u8 && (0xc4u8 ^ 0x62u8) == 0xa6u8 && ((0xa6u8 << 1u8) ^ 0x1bu8) == 0x57u8 && (0x57u8 ^ 0xa6u8) == 0xf1u8 && ((0xf1u8 << 1u8) ^ 0x1bu8) == 0xf9u8 && (0xf9u8 ^ 0xf1u8) == 0x08u8 && ((0x08u8 << 1u8) ^ 0u8) == 0x10u8 && (0x10u8 ^ 0x08u8) == 0x18u8 && ((0x18u8 << 1u8) ^ 0u8) == 0x30u8 && (0x30u8 ^ 0x18u8) == 0x28u8 && ((0x28u8 << 1u8) ^ 0u8) == 0x50u8 && (0x50u8 ^ 0x28u8) == 0x78u8 && ((0x78u8 << 1u8) ^ 0u8) == 0xf0u8 && (0xf0u8 ^ 0x78u8) == 0x88u8 && ((0x88u8 << 1u8) ^ 0x1bu8) == 0x0bu8 && (0x0bu8 ^ 0x88u8) == 0x83u8 && ((0x83u8 << 1u8) ^ 0x1bu8) == 0x1du8 && (0x1du8 ^ 0x83u8) == 0x9eu8 && ((0x9eu8 << 1u8) ^ 0x1bu8) == 0x27u8 && (0x27u8 ^ 0x9eu8) == 0xb9u8 && ((0xb9u8 << 1u8) ^ 0x1bu8) == 0x69u8 && (0x69u8 ^ 0xb9u8) == 0xd0u8 && ((0xd0u8 << 1u8) ^ 0x1bu8) == 0xbbu8 && (0xbbu8 ^ 0xd0u8) == 0x6bu8 && ((0x6bu8 << 1u8) ^ 0u8) == 0xd6u8 && (0xd6u8 ^ 0x6bu8) == 0xbdu8 && ((0xbdu8 << 1u8) ^ 0x1bu8) == 0x61u8 && (0x61u8 ^ 0xbdu8) == 0xdcu8 && ((0xdcu8 << 1u8) ^ 0x1bu8) == 0xa3u8 && (0xa3u8 ^ 0xdcu8) == 0x7fu8 && ((0x7fu8 << 1u8) ^ 0u8) == 0xfeu8 && (0xfeu8 ^ 0x7fu8) == 0x81u8 && ((0x81u8 << 1u8) ^ 0x1bu8) == 0x19u8 && (0x19u8 ^ 0x81u8) == 0x98u8 && ((0x98u8 << 1u8) ^ 0x1bu8) == 0x2bu8 && (0x2bu8 ^ 0x98u8) == 0xb3u8 && ((0xb3u8 << 1u8) ^ 0x1bu8) == 0x7du8 && (0x7du8 ^ 0xb3u8) == 0xceu8 && ((0xceu8 << 1u8) ^ 0x1bu8) == 0x87u8 && (0x87u8 ^ 0xceu8) == 0x49u8 && ((0x49u8 << 1u8) ^ 0u8) == 0x92u8 && (0x92u8 ^ 0x49u8) == 0xdbu8 && ((0xdbu8 << 1u8) ^ 0x1bu8) == 0xadu8 && (0xadu8 ^ 0xdbu8) == 0x76u8 && ((0x76u8 << 1u8) ^ 0u8) == 0xecu8 && (0xecu8 ^ 0x76u8) == 0x9au8 && ((0x9au8 << 1u8) ^ 0x1bu8) == 0x2fu8 && (0x2fu8 ^ 0x9au8) == 0xb5u8) by (bit_vector);
    if i == 64 {
        assert(spec_xtime(0x4cu8) == 0x98u8);
    } else if i == 65 {
        assert(spec_xtime(0xd4u8) == 0xb3u8);
    } else if i == 66 {
        assert(spec_xtime(0x67u8) == 0xceu8);
    } else if i == 67 {
        assert(spec_xtime(0xa9u8) == 0x49u8);
    } else if i == 68 {
        assert(spec_xtime(0xe0u8) == 0xdbu8);
    } else if i == 69 {
        assert(spec_xtime(0x3bu8) == 0x76u8);
    } else if i == 70 {
        assert(spec_xtime(0x4du8) == 0x9au8);
    } else if i == 71 {
        assert(spec_xtime(0xd7u8) == 0xb5u8);
    } else if i == 72 {
        assert(spec_xtime(0x62u8) == 0xc4u8);
    } else if i == 73 {
        assert(spec_xtime(0xa6u8) == 0x57u8);
    } else if i == 74 {
        assert(spec_xtime(0xf1u8) == 0xf9u8);
    } else if i == 75 {
        assert(spec_xtime(0x08u8) == 0x10u8);
    } else if i == 76 {
        assert(spec_xtime(0x18u8) == 0x30u8);
    } else if i == 77 {
        assert(spec_xtime(0x28u8) == 0x50u8);
    } else if i == 78 {
        assert(spec_xtime(0x78u8) == 0xf0u8);
    } else if i == 79 {
        assert(spec_xtime(0x88u8) == 0x0bu8);
    } else if i == 80 {
        assert(spec_xtime(0x83u8) == 0x1du8);
    } else if i == 81 {
        assert(spec_xtime(0x9eu8) == 0x27u8);
    } else if i == 82 {
        assert(spec_xtime(0xb9u8) == 0x69u8);
    } else if i == 83 {
        assert(spec_xtime(0xd0u8) == 0xbbu8);
    } else if i == 84 {
        assert(spec_xtime(0x6bu8) == 0xd6u8);
    } else if i == 85 {
        assert(spec_xtime(0xbdu8) == 0x61u8);
    } else if i == 86 {
        assert(spec_xtime(0xdcu8) == 0xa3u8);
    } else if i == 87 {
        assert(spec_xtime(0x7fu8) == 0xfeu8);
    } else if i == 88 {
        assert(spec_xtime(0x81u8) == 0x19u8);
    } else if i == 89 {
        assert(spec_xtime(0x98u8) == 0x2bu8);
    } else if i == 90 {
        assert(spec_xtime(0xb3u8) == 0x7du8);
    } else if i == 91 {
        assert(spec_xtime(0xceu8) == 0x87u8);
    } else if i == 92 {
        assert(spec_xtime(0x49u8) == 0x92u8);
    } else if i == 93 {
        assert(spec_xtime(0xdbu8) == 0xadu8);
    } else if i == 94 {
        assert(spec_xtime(0x76u8) == 0xecu8);
    } else if i == 95 {
        assert(spec_xtime(0x9au8) == 0x2fu8);
    } else {
    }
}

#[verifier::rlimit(100)]
proof fn lemma_exp_step_3(i: int)
    requires
        96 <= i < 128,
    ensures
        spec_mul(3, exp_at(i)) == exp_at((i + 1) % 255),
{
    lemma_mul_three(exp_at(i));
    assert(((0xb5u8 << 1u8) ^ 0x1bu8) == 0x71u8 && (0x71u8 ^ 0xb5u8) == 0xc4u8 && ((0xc4u8 << 1u8) ^ 0x1bu8) == 0x93u8 && (0x93u8 ^ 0xc4u8) == 0x57u8 && ((0x57u8 << 1u8) ^ 0u8) == 0xaeu8 && (0xaeu8 ^ 0x57u8) == 0xf9u8 && ((0xf9u8 << 1u8) ^ 0x1bu8) == 0xe9u8 && (0xe9u8 ^ 0xf9u8) == 0x10u8 && ((0x10u8 << 1u8) ^ 0u8) == 0x20u8 && (0x20u8 ^ 0x10u8) == 0x30u8 && ((0x30u8 << 1u8) ^ 0u8) == 0x60u8 && (0x60u8 ^ 0x30u8) == 0x50u8 && ((0x50u8 << 1u8) ^ 0u8) == 0xa0u8 && (0xa0u8 ^ 0x50u8) == 0xf0u8 && ((0xf0u8 << 1u8) ^ 0x1bu8) == 0xfbu8 && (0xfbu8 ^ 0xf0u8) == 0x0bu8 && ((0x0bu8 << 1u8) ^ 0u8) == 0x16u8 && (0x16u8 ^ 0x0bu8) == 0x1du8 && ((0x1du8 << 1u8) ^ 0u8) == 0x3au8 && (0x3au8 ^ 0x1du8) == 0x27u8 && ((0x27u8 << 1u8) ^ 0u8) == 0x4eu8 && (0x4eu8 ^ 0x27u8) == 0x69u8 && ((0x69u8 << 1u8) ^ 0u8) == 0xd2u8 && (0xd2u8 ^ 0x69u8) == 0xbbu8 && ((0xbbu8 << 1u8) ^ 0x1bu8) == 0x6du8 && (0x6du8 ^ 0xbbu8) == 0xd6u8 && ((0xd6u8 << 1u8) ^ 0x1bu8) == 0xb7u8 && (0xb7u8 ^ 0xd6u8) == 0x61u8 && ((0x61u8 << 1u8) ^ 0u8) == 0xc2u8 && (0xc2u8 ^ 0x61u8) == 0xa3u8 && ((0xa3u8 << 1u8) ^ 0x1bu8) == 0x5du8 && (0x5du8 ^ 0xa3u8) == 0xfeu8 && ((0xfeu8 << 1u8) ^ 0x1bu8) == 0xe7u8 && (0xe7u8 ^ 0xfeu8) == 0x19u8 && ((0x19u8 << 1u8) ^ 0u8) == 0x32u8 && (0x32u8 ^ 0x19u8) == 0x2bu8 && ((0x2bu8 << 1u8) ^ 0u8) == 0x56u8 && (0x56u8 ^ 0x2bu8) == 0x7du8 && ((0x7du8 << 1u8) ^ 0u8) == 0xfau8 && (0xfau8 ^ 0x7du8) == 0x87u8 && ((0x87u8 << 1u8) ^ 0x1bu8) == 0x15u8 && (0x15u8 ^ 0x87u8) == 0x92u8 && ((0x92u8 << 1u8) ^ 0x1bu8) == 0x3fu8 && (0x3fu8 ^ 0x92u8) == 0xadu8 && ((0xadu8 << 1u8) ^ 0x1bu8) == 0x41u8 && (0x41u8 ^ 0xadu8) == 0xecu8 && ((0xecu8 << 1u8) ^ 0x1bu8) == 0xc3u8 && (0xc3u8 ^ 0xecu8) == 0x2fu8 && ((0x2fu8 << 1u8) ^ 0u8) == 0x5eu8 && (0x5eu8 ^ 0x2fu8) == 0x71u8 && ((0x71u8 << 1u8) ^ 0u8) == 0xe2u8 && (0xe2u8 ^ 0x71u8) == 0x93u8 && ((0x93u8 << 1u8) ^ 0x1bu8) == 0x3du8 && (0x3du8 ^ 0x93u8) == 0xaeu8 && ((0xaeu8 << 1u8) ^ 0x1bu8) == 0x47u8 && (0x47u8 ^ 0xaeu8) == 0xe9u8 && ((0xe9u8 << 1u8) ^ 0x1bu8) == 0xc9u8 && (0xc9u8 ^ 0xe9u8) == 0x20u8 && ((0x20u8 << 1u8) ^ 0u8) == 0x40u8 && (0x40u8 ^ 0x20u8) == 0x60u8 && ((0x60u8 << 1u8) ^ 0u8) == 0xc0u8 && (0xc0u8 ^ 0x60u8) == 0xa0u8 && ((0xa0u8 << 1u8) ^ 0x1bu8) == 0x5bu8 && (0x5bu8 ^ 0xa0u8) == 0xfbu8) by (bit_vector);
    if i == 96 {
        assert(spec_xtime(0xb5u8) == 0x71u8);
    } else if i == 97 {
        assert(spec_xtime(0xc4u8) == 0x93u8);
    } else if i == 98 {
        assert(spec_xtime(0x57u8) == 0xaeu8);
    } else if i == 99 {
        assert(spec_xtime(0xf9u8) == 0xe9u8);
    } else if i == 100 {
        assert(spec_xtime(0x10u8) == 0x20u8);
    } else if i == 101 {
        assert(spec_xtime(0x30u8) == 0x60u8);
    } else if i == 102 {
        assert(spec_xtime(0x50u8) == 0xa0u8);
    } else if i == 103 {
        assert(spec_xtime(0xf0u8) == 0xfbu8);
    } else if i == 104 {
        assert(spec_xtime(0x0bu8) == 0x16u8);
    } else if i == 105 {
        assert(spec_xtime(0x1du8) == 0x3au8);
    } else if i == 106 {
        assert(spec_xtime(0x27u8) == 0x4eu8);
    } else if i == 107 {
        assert(spec_xtime(0x69u8) == 0xd2u8);
    } else if i == 108 {
        assert(spec_xtime(0xbbu8) == 0x6du8);
    } else if i == 109 {
        assert(spec_xtime(0xd6u8) == 0xb7u8);
    } else if i == 110 {
        assert(spec_xtime(0x61u8) == 0xc2u8);
    } else if i == 111 {
        assert(spec_xtime(0xa3u8) == 0x5du8);
    } else if i == 112 {
        assert(spec_xtime(0xfeu8) == 0xe7u8);
    } else if i == 113 {
        assert(spec_xtime(0x19u8) == 0x32u8);
    } else if i == 114 {
        assert(spec_xtime(0x2bu8) == 0x56u8);
    } else if i == 115 {
        assert(spec_xtime(0x7du8) == 0xfau8);
    } else if i == 116 {
        assert(spec_xtime(0x87u8) == 0x15u8);
    } else if i == 117 {
        assert(spec_xtime(0x92u8) == 0x3fu8);
    } else if i == 118 {
        assert(spec_xtime(0xadu8) == 0x41u8);
    } else if i == 119 {
        assert(spec_xtime(0xecu8) == 0xc3u8);
    } else if i == 120 {
        assert(spec_xtime(0x2fu8) == 0x5eu8);
    } else if i == 121 {
        assert(spec_xtime(0x71u8) == 0xe2u8);
    } else if i == 122 {
        assert(spec_xtime(0x93u8) == 0x3du8);
    } else if i == 123 {
        assert(spec_xtime(0xaeu8) == 0x47u8);
    } else if i == 124 {
        assert(spec_xtime(0xe9u8) == 0xc9u8);
    } else if i == 125 {
        assert(spec_xtime(0x20u8) == 0x40u8);
    } else if i == 126 {
        assert(spec_xtime(0x60u8) == 0xc0u8);
    } else if i == 127 {
        assert(spec_xtime(0xa0u8) == 0x5bu8);
    } else {
    }
}

#[verifier::rlimit(100)]
proof fn lemma_exp_step_4(i: int)
    requires
        128 <= i < 160,
    ensures
        spec_mul(3, exp_at(i)) == exp_at((i + 1) % 255),
{
    lemma_mul_three(exp_at(i));
    assert(((0xfbu8 << 1u8) ^ 0x1bu8) == 0xedu8 && (0xedu8 ^ 0xfbu8) == 0x16u8 && ((0x16u8 << 1u8) ^ 0u8) == 0x2cu8 && (0x2cu8 ^ 0x16u8) == 0x3au8 && ((0x3au8 << 1u8) ^ 0u8) == 0x74u8 && (0x74u8 ^ 0x3au8) == 0x4eu8 && ((0x4eu8 << 1u8) ^ 0u8) == 0x9cu8 && (0x9cu8 ^ 0x4eu8) == 0xd2u8 && ((0xd2u8 << 1u8) ^ 0x1bu8) == 0xbfu8 && (0xbfu8 ^ 0xd2u8) == 0x6du8 && ((0x6du8 << 1u8) ^ 0u8) == 0xdau8 && (0xdau8 ^ 0x6du8) == 0xb7u8 && ((0xb7u8 << 1u8) ^ 0x1bu8) == 0x75u8 && (0x75u8 ^ 0xb7u8) == 0xc2u8 && ((0xc2u8 << 1u8) ^ 0x1bu8) == 0x9fu8 && (0x9fu8 ^ 0xc2u8) == 0x5du8 && ((0x5du8 << 1u8) ^ 0u8) == 0xbau8 && (0xbau8 ^ 0x5du8) == 0xe7u8 && ((0xe7u8 << 1u8) ^ 0x1bu8) == 0xd5u8 && (0xd5u8 ^ 0xe7u8) == 0x32u8 && ((0x32u8 << 1u8) ^ 0u8) == 0x64u8 && (0x64u8 ^ 0x32u8) == 0x56u8 && ((0x56u8 << 1u8) ^ 0u8) == 0xacu8 && (0xacu8 ^ 0x56u8) == 0xfau8 && ((0xfau8 << 1u8) ^ 0x1bu8) == 0xefu8 && (0xefu8 ^ 0xfau8) == 0x15u8 && ((0x15u8 << 1u8) ^ 0u8) == 0x2au8 && (0x2au8 ^ 0x15u8) == 0x3fu8 && ((0x3fu8 << 1u8) ^ 0u8) == 0x7eu8 && (0x7eu8 ^ 0x3fu8) == 0x41u8 && ((0x41u8 << 1u8) ^ 0u8) == 0x82u8 && (0x82u8 ^ 0x41u8) == 0xc3u8 && ((0xc3u8 << 1u8) ^ 0x1bu8) == 0x9du8 && (0x9du8 ^ 0xc3u8) == 0x5eu8 && ((0x5eu8 << 1u8) ^ 0u8) == 0xbcu8 && (0xbcu8 ^ 0x5eu8) == 0xe2u8 && ((0xe2u8 << 1u8) ^ 0x1bu8) == 0xdfu8 && (0xdfu8 ^ 0xe2u8) == 0x3du8 && ((0x3du8 << 1u8) ^ 0u8) == 0x7au8 && (0x7au8 ^ 0x3du8) == 0x47u8 && ((0x47u8 << 1u8) ^ 0u8) == 0x8eu8 && (0x8eu8 ^ 0x47u8) == 0xc9u8 && ((0xc9u8 << 1u8) ^ 0x1bu8) == 0x89u8 && (0x89u8 ^ 0xc9u8) == 0x40u8 && ((0x40u8 << 1u8) ^ 0u8) == 0x80u8 && (0x80u8 ^ 0x40u8) == 0xc0u8 && ((0xc0u8 << 1u8) ^ 0x1bu8) == 0x9bu8 && (0x9bu8 ^ 0xc0u8) == 0x5bu8 && ((0x5bu8 << 1u8) ^ 0u8) == 0xb6u8 && (0xb6u8 ^ 0x5bu8) == 0xedu8 && ((0xedu8 << 1u8) ^ 0x1bu8) == 0xc1u8 && (0xc1u8 ^ 0xedu8) == 0x2cu8 && ((0x2cu8 << 1u8) ^ 0u8) == 0x58u8 && (0x58u8 ^ 0x2cu8) == 0x74u8 && ((0x74u8 << 1u8) ^ 0u8) == 0xe8u8 && (0xe8u8 ^ 0x74u8) == 0x9cu8 && ((0x9cu8 << 1u8) ^ 0x1bu8) == 0x23u8 && (0x23u8 ^ 0x9cu8) == 0xbfu8 && ((0xbfu8 << 1u8) ^ 0x1bu8) == 0x65u8 && (0x65u8 ^ 0xbfu8) == 0xdau8 && ((0xdau8 << 1u8) ^ 0x1bu8) == 0xafu8 && (0xafu8 ^ 0xdau8) == 0x75u8 && ((0x75u8 << 1u8) ^ 0u8) == 0xeau8 && (0xeau8 ^ 0x75u8) == 0x9fu8) by (bit_vector);
    if i == 128 {
        assert(spec_xtime(0xfbu8) == 0xedu8);
    } else if i == 129 {
        assert(spec_xtime(0x16u8) == 0x2cu8);
    } else if i == 130 {
        assert(spec_xtime(0x3au8) == 0x74u8);
    } else if i == 131 {
        assert(spec_xtime(0x4eu8) == 0x9cu8);
    } else if i == 132 {
        assert(spec_xtime(0xd2u8) == 0xbfu8);
    } else if i == 133 {
        assert(spec_xtime(0x6du8) == 0xdau8);
    } else if i == 134 {
        assert(spec_xtime(0xb7u8) == 0x75u8);
    } else if i == 135 {
        assert(spec_xtime(0xc2u8) == 0x9fu8);
    } else if i == 136 {
        assert(spec_xtime(0x5du8) == 0xbau8);
    } else if i == 137 {
        assert(spec_xtime(0xe7u8) == 0xd5u8);
    } else if i == 138 {
        assert(spec_xtime(0x32u8) == 0x64u8);
    } else if i == 139 {
        assert(spec_xtime(0x56u8) == 0xacu8);
    } else if i == 140 {
        assert(spec_xtime(0xfau8) == 0xefu8);
    } else if i == 141 {
        assert(spec_xtime(0x15u8) == 0x2au8);
    } else if i == 142 {
        assert(spec_xtime(0x3fu8) == 0x7eu8);
    } else if i == 143 {
        assert(spec_xtime(0x41u8) == 0x82u8);
    } else if i == 144 {
        assert(spec_xtime(0xc3u8) == 0x9du8);
    } else if i == 145 {
        assert(spec_xtime(0x5eu8) == 0xbcu8);
    } else if i == 146 {
        assert(spec_xtime(0xe2u8) == 0xdfu8);
    } else if i == 147 {
        assert(spec_xtime(0x3du8) == 0x7au8);
    } else if i == 148 {
        assert(spec_xtime(0x47u8) == 0x8eu8);
    } else if i == 149 {
        assert(spec_xtime(0xc9u8) == 0x89u8);
    } else if i == 150 {
        assert(spec_xtime(0x40u8) == 0x80u8);
    } else if i == 151 {
        assert(spec_xtime(0xc0u8) == 0x9bu8);
    } else if i == 152 {
        assert(spec_xtime(0x5bu8) == 0xb6u8);
    } else if i == 153 {
        assert(spec_xtime(0xedu8) == 0xc1u8);
    } else if i == 154 {
        assert(spec_xtime(0x2cu8) == 0x58u8);
    } else if i == 155 {
        assert(spec_xtime(0x74u8) == 0xe8u8);
    } else if i == 156 {
        assert(spec_xtime(0x9cu8) == 0x23u8);
    } else if i == 157 {
        assert(spec_xtime(0xbfu8) == 0x65u8);
    } else if i == 158 {
        assert(spec_xtime(0xdau8) == 0xafu8);
    } else if i == 159 {
        assert(spec_xtime(0x75u8) == 0xeau8);
    } else {
    }
}

#[verifier::rlimit(100)]
proof fn lemma_exp_step_5(i: int)
    requires
        160 <= i < 192,
    ensures
        spec_mul(3, exp_at(i)) == exp_at((i + 1) % 255),
{
    lemma_mul_three(exp_at(i));
    assert(((0x9fu8 << 1u8) ^ 0x1bu8) == 0x25u8 && (0x25u8 ^ 0x9fu8) == 0xbau8 && ((0xbau8 << 1u8) ^ 0x1bu8) == 0x6fu8 && (0x6fu8 ^ 0xbau8) == 0xd5u8 && ((0xd5u8 << 1u8) ^ 0x1bu8) == 0xb1u8 && (0xb1u8 ^ 0xd5u8) == 0x64u8 && ((0x64u8 << 1u8) ^ 0u8) == 0xc8u8 && (0xc8u8 ^ 0x64u8) == 0xacu8 && ((0xacu8 << 1u8) ^ 0x1bu8) == 0x43u8 && (0x43u8 ^ 0xacu8) == 0xefu8 && ((0xefu8 << 1u8) ^ 0x1bu8) == 0xc5u8 && (0xc5u8 ^ 0xefu8) == 0x2au8 && ((0x2au8 << 1u8) ^ 0u8) == 0x54u8 && (0x54u8 ^ 0x2au8) == 0x7eu8 && ((0x7eu8 << 1u8) ^ 0u8) == 0xfcu8 && (0xfcu8 ^ 0x7eu8) == 0x82u8 && ((0x82u8 << 1u8) ^ 0x1bu8) == 0x1fu8 && (0x1fu8 ^ 0x82u8) == 0x9du8 && ((0x9du8 << 1u8) ^ 0x1bu8) == 0x21u8 && (0x21u8 ^ 0x9du8) == 0xbcu8 && ((0xbcu8 << 1u8) ^ 0x1bu8) == 0x63u8 && (0x63u8 ^ 0xbcu8) == 0xdfu8 && ((0xdfu8 << 1u8) ^ 0x1bu8) == 0xa5u8 && (0xa5u8 ^ 0xdfu8) == 0x7au8 && ((0x7au8 << 1u8) ^ 0u8) == 0xf4u8 && (0xf4u8 ^ 0x7au8) == 0x8eu8 && ((0x8eu8 << 1u8) ^ 0x1bu8) == 0x07u8 && (0x07u8 ^ 0x8eu8) == 0x89u8 && ((0x89u8 << 1u8) ^ 0x1bu8) == 0x09u8 && (0x09u8 ^ 0x89u8) == 0x80u8 && ((0x80u8 << 1u8) ^ 0x1bu8) == 0x1bu8 && (0x1bu8 ^ 0x80u8) == 0x9bu8 && ((0x9bu8 << 1u8) ^ 0x1bu8) == 0x2du8 && (0x2du8 ^ 0x9bu8) == 0xb6u8 && ((0xb6u8 << 1u8) ^ 0x1bu8) == 0x77u8 && (0x77u8 ^ 0xb6u8) == 0xc1u8 && ((0xc1u8 << 1u8) ^ 0x1bu8) == 0x99u8 && (0x99u8 ^ 0xc1u8) == 0x58u8 && ((0x58u8 << 1u8) ^ 0u8) == 0xb0u8 && (0xb0u8 ^ 0x58u8) == 0xe8u8 && ((0xe8u8 << 1u8) ^ 0x1bu8) == 0xcbu8 && (0xcbu8 ^ 0xe8u8) == 0x23u8 && ((0x23u8 << 1u8) ^ 0u8) == 0x46u8 && (0x46u8 ^ 0x23u8) == 0x65u8 && ((0x65u8 << 1u8) ^ 0u8) == 0xcau8 && (0xcau8 ^ 0x65u8) == 0xafu8 && ((0xafu8 << 1u8) ^ 0x1bu8) == 0x45u8 && (0x45u8 ^ 0xafu8) == 0xeau8 && ((0xeau8 << 1u8) ^ 0x1bu8) == 0xcfu8 && (0xcfu8 ^ 0xeau8) == 0x25u8 && ((0x25u8 << 1u8) ^ 0u8) == 0x4au8 && (0x4au8 ^ 0x25u8) == 0x6fu8 && ((0x6fu8 << 1u8) ^ 0u8) == 0xdeu8 && (0xdeu8 ^ 0x6fu8) == 0xb1u8 && ((0xb1u8 << 1u8) ^ 0x1bu8) == 0x79u8 && (0x79u8 ^ 0xb1u8) == 0xc8u8 && ((0xc8u8 << 1u8) ^ 0x1bu8) == 0x8bu8 && (0x8bu8 ^ 0xc8u8) == 0x43u8 && ((0x43u8 << 1u8) ^ 0u8) == 0x86u8 && (0x86u8 ^ 0x43u8) == 0xc5u8 && ((0xc5u8 << 1u8) ^ 0x1bu8) == 0x91u8 && (0x91u8 ^ 0xc5u8) == 0x54u8 && ((0x54u8 << 1u8) ^ 0u8) == 0xa8u8 && (0xa8u8 ^ 0x54u8) == 0xfcu8) by (bit_vector);
    if i == 160 {
        assert(spec_xtime(0x9fu8) == 0x25u8);
    } else if i == 161 {
        assert(spec_xtime(0xbau8) == 0x6fu8);
    } else if i == 162 {
        assert(spec_xtime(0xd5u8) == 0xb1u8);
    } else if i == 163 {
        assert(spec_xtime(0x64u8) == 0xc8u8);
    } else if i == 164 {
        assert(spec_xtime(0xacu8) == 0x43u8);
    } else if i == 165 {
        assert(spec_xtime(0xefu8) == 0xc5u8);
    } else if i == 166 {
        assert(spec_xtime(0x2au8) == 0x54u8);
    } else if i == 167 {
        assert(spec_xtime(0x7eu8) == 0xfcu8);
    } else if i == 168 {
        assert(spec_xtime(0x82u8) == 0x1fu8);
    } else if i == 169 {
        assert(spec_xtime(0x9du8) == 0x21u8);
    } else if i == 170 {
        assert(spec_xtime(0xbcu8) == 0x63u8);
    } else if i == 171 {
        assert(spec_xtime(0xdfu8) == 0xa5u8);
    } else if i == 172 {
        assert(spec_xtime(0x7au8) == 0xf4u8);
    } else if i == 173 {
        assert(spec_xtime(0x8eu8) == 0x07u8);
    } else if i == 174 {
        assert(spec_xtime(0x89u8) == 0x09u8);
    } else if i == 175 {
        assert(spec_xtime(0x80u8) == 0x1bu8);
    } else if i == 176 {
        assert(spec_xtime(0x9bu8) == 0x2du8);
    } else if i == 177 {
        assert(spec_xtime(0xb6u8) == 0x77u8);
    } else if i == 178 {
        assert(spec_xtime(0xc1u8) == 0x99u8);
    } else if i == 179 {
        assert(spec_xtime(0x58u8) == 0xb0u8);
    } else if i == 180 {
        assert(spec_xtime(0xe8u8) == 0xcbu8);
    } else if i == 181 {
        assert(spec_xtime(0x23u8) == 0x46u8);
    } else if i == 182 {
        assert(spec_xtime(0x65u8) == 0xcau8);
    } else if i == 183 {
        assert(spec_xtime(0xafu8) == 0x45u8);
    } else if i == 184 {
        assert(spec_xtime(0xeau8) == 0xcfu8);
    } else if i == 185 {
        assert(spec_xtime(0x25u8) == 0x4au8);
    } else if i == 186 {
        assert(spec_xtime(0x6fu8) == 0xdeu8);
    } else if i == 187 {
        assert(spec_xtime(0xb1u8) == 0x79u8);
    } else if i == 188 {
        assert(spec_xtime(0xc8u8) == 0x8bu8);
    } else if i == 189 {
        assert(spec_xtime(0x43u8) == 0x86u8);
    } else if i == 190 {
        assert(spec_xtime(0xc5u8) == 0x91u8);
    } else if i == 191 {
        assert(spec_xtime(0x54u8) == 0xa8u8);
    } else {
    }
}

#[verifier::rlimit(100)]
proof fn lemma_exp_step_6(i: int)
    requires
        192 <= i < 224,
    ensures
        spec_mul(3, exp_at(i)) == exp_at((i + 1) % 255),
{
    lemma_mul_three(exp_at(i));
    assert(((0xfcu8 << 1u8) ^ 0x1bu8) == 0xe3u8 && (0xe3u8 ^ 0xfcu8) == 0x1fu8 && ((0x1fu8 << 1u8) ^ 0u8) == 0x3eu8 && (0x3eu8 ^ 0x1fu8) == 0x21u8 && ((0x21u8 << 1u8) ^ 0u8) == 0x42u8 && (0x42u8 ^ 0x21u8) == 0x63u8 && ((0x63u8 << 1u8) ^ 0u8) == 0xc6u8 && (0xc6u8 ^ 0x63u8) == 0xa5u8 && ((0xa5u8 << 1u8) ^ 0x1bu8) == 0x51u8 && (0x51u8 ^ 0xa5u8) == 0xf4u8 && ((0xf4u8 << 1u8) ^ 0x1bu8) == 0xf3u8 && (0xf3u8 ^ 0xf4u8) == 0x07u8 && ((0x07u8 << 1u8) ^ 0u8) == 0x0eu8 && (0x0eu8 ^ 0x07u8) == 0x09u8 && ((0x09u8 << 1u8) ^ 0u8) == 0x12u8 && (0x12u8 ^ 0x09u8) == 0x1bu8 && ((0x1bu8 << 1u8) ^ 0u8) == 0x36u8 && (0x36u8 ^ 0x1bu8) == 0x2du8 && ((0x2du8 << 1u8) ^ 0u8) == 0x5au8 && (0x5au8 ^ 0x2du8) == 0x77u8 && ((0x77u8 << 1u8) ^ 0u8) == 0xeeu8 && (0xeeu8 ^ 0x77u8) == 0x99u8 && ((0x99u8 << 1u8) ^ 0x1bu8) == 0x29u8 && (0x29u8 ^ 0x99u8) == 0xb0u8 && ((0xb0u8 << 1u8) ^ 0x1bu8) == 0x7bu8 && (0x7bu8 ^ 0xb0u8) == 0xcbu8 && ((0xcbu8 << 1u8) ^ 0x1bu8) == 0x8du8 && (0x8du8 ^ 0xcbu8) == 0x46u8 && ((0x46u8 << 1u8) ^ 0u8) == 0x8cu8 && (0x8cu8 ^ 0x46u8) == 0xcau8 && ((0xcau8 << 1u8) ^ 0x1bu8) == 0x8fu8 && (0x8fu8 ^ 0xcau8) == 0x45u8 && ((0x45u8 << 1u8) ^ 0u8) == 0x8au8 && (0x8au8 ^ 0x45u8) == 0xcfu8 && ((0xcfu8 << 1u8) ^ 0x1bu8) == 0x85u8 && (0x85u8 ^ 0xcfu8) == 0x4au8 && ((0x4au8 << 1u8) ^ 0u8) == 0x94u8 && (0x94u8 ^ 0x4au8) == 0xdeu8 && ((0xdeu8 << 1u8) ^ 0x1bu8) == 0xa7u8 && (0xa7u8 ^ 0xdeu8) == 0x79u8 && ((0x79u8 << 1u8) ^ 0u8) == 0xf2u8 && (0xf2u8 ^ 0x79u8) == 0x8bu8 && ((0x8bu8 << 1u8) ^ 0x1bu8) == 0x0du8 && (0x0du8 ^ 0x8bu8) == 0x86u8 && ((0x86u8 << 1u8) ^ 0x1bu8) == 0x17u8 && (0x17u8 ^ 0x86u8) == 0x91u8 && ((0x91u8 << 1u8) ^ 0x1bu8) == 0x39u8 && (0x39u8 ^ 0x91u8) == 0xa8u8 && ((0xa8u8 << 1u8) ^ 0x1bu8) == 0x4bu8 && (0x4bu8 ^ 0xa8u8) == 0xe3u8 && ((0xe3u8 << 1u8) ^ 0x1bu8) == 0xddu8 && (0xddu8 ^ 0xe3u8) == 0x3eu8 && ((0x3eu8 << 1u8) ^ 0u8) == 0x7cu8 && (0x7cu8 ^ 0x3eu8) == 0x42u8 && ((0x42u8 << 1u8) ^ 0u8) == 0x84u8 && (0x84u8 ^ 0x42u8) == 0xc6u8 && ((0xc6u8 << 1u8) ^ 0x1bu8) == 0x97u8 && (0x97u8 ^ 0xc6u8) == 0x51u8 && ((0x51u8 << 1u8) ^ 0u8) == 0xa2u8 && (0xa2u8 ^ 0x51u8) == 0xf3u8 && ((0xf3u8 << 1u8) ^ 0x1bu8) == 0xfdu8 && (0xfdu8 ^ 0xf3u8) == 0x0eu8 && ((0x0eu8 << 1u8) ^ 0u8) == 0x1cu8 && (0x1cu8 ^ 0x0eu8) == 0x12u8) by (bit_vector);
    if i == 192 {
        assert(spec_xtime(0xfcu8) == 0xe3u8);
    } else if i == 193 {
        assert(spec_xtime(0x1fu8) == 0x3eu8);
    } else if i == 194 {
        assert(spec_xtime(0x21u8) == 0x42u8);
    } else if i == 195 {
        assert(spec_xtime(0x63u8) == 0xc6u8);
    } else if i == 196 {
        assert(spec_xtime(0xa5u8) == 0x51u8);
    } else if i == 197 {
        assert(spec_xtime(0xf4u8) == 0xf3u8);
    } else if i == 198 {
        assert(spec_xtime(0x07u8) == 0x0eu8);
    } else if i == 199 {
        assert(spec_xtime(0x09u8) == 0x12u8);
    } else if i == 200 {
        assert(spec_xtime(0x1bu8) == 0x36u8);
    } else if i == 201 {
        assert(spec_xtime(0x2du8) == 0x5au8);
    } else if i == 202 {
        assert(spec_xtime(0x77u8) == 0xeeu8);
    } else if i == 203 {
        assert(spec_xtime(0x99u8) == 0x29u8);
    } else if i == 204 {
        assert(spec_xtime(0xb0u8) == 0x7bu8);
    } else if i == 205 {
        assert(spec_xtime(0xcbu8) == 0x8du8);
    } else if i == 206 {
        assert(spec_xtime(0x46u8) == 0x8cu8);
    } else if i == 207 {
        assert(spec_xtime(0xcau8) == 0x8fu8);
    } else if i == 208 {
        assert(spec_xtime(0x45u8) == 0x8au8);
    } else if i == 209 {
        assert(spec_xtime(0xcfu8) == 0x85u8);
    } else if i == 210 {
        assert(spec_xtime(0x4au8) == 0x94u8);
    } else if i == 211 {
        assert(spec_xtime(0xdeu8) == 0xa7u8);
    } else if i == 212 {
        assert(spec_xtime(0x79u8) == 0xf2u8);
    } else if i == 213 {
        assert(spec_xtime(0x8bu8) == 0x0du8);
    } else if i == 214 {
        assert(spec_xtime(0x86u8) == 0x17u8);
    } else if i == 215 {
        assert(spec_xtime(0x91u8) == 0x39u8);
    } else if i == 216 {
        assert(spec_xtime(0xa8u8) == 0x4bu8);
    } else if i == 217 {
        assert(spec_xtime(0xe3u8) == 0xddu8);
    } else if i == 218 {
        assert(spec_xtime(0x3eu8) == 0x7cu8);
    } else if i == 219 {
        assert(spec_xtime(0x42u8) == 0x84u8);
    } else if i == 220 {
        assert(spec_xtime(0xc6u8) == 0x97u8);
    } else if i == 221 {
        assert(spec_xtime(0x51u8) == 0xa2u8);
    } else if i == 222 {
        assert(spec_xtime(0xf3u8) == 0xfdu8);
    } else if i == 223 {
        assert(spec_xtime(0x0eu8) == 0x1cu8);
    } else {
    }
}

#[verifier::rlimit(100)]
proof fn lemma_exp_step_7(i: int)
    requires
        224 <= i < 255,
    ensures
        spec_mul(3, exp_at(i)) == exp_at((i + 1) % 255),
{
    lemma_mul_three(exp_at(i));
    assert(((0x12u8 << 1u8) ^ 0u8) == 0x24u8 && (0x24u8 ^ 0x12u8) == 0x36u8 && ((0x36u8 << 1u8) ^ 0u8) == 0x6cu8 && (0x6cu8 ^ 0x36u8) == 0x5au8 && ((0x5au8 << 1u8) ^ 0u8) == 0xb4u8 && (0xb4u8 ^ 0x5au8) == 0xeeu8 && ((0xeeu8 << 1u8) ^ 0x1bu8) == 0xc7u8 && (0xc7u8 ^ 0xeeu8) == 0x29u8 && ((0x29u8 << 1u8) ^ 0u8) == 0x52u8 && (0x52u8 ^ 0x29u8) == 0x7bu8 && ((0x7bu8 << 1u8) ^ 0u8) == 0xf6u8 && (0xf6u8 ^ 0x7bu8) == 0x8du8 && ((0x8du8 << 1u8) ^ 0x1bu8) == 0x01u8 && (0x01u8 ^ 0x8du8) == 0x8cu8 && ((0x8cu8 << 1u8) ^ 0x1bu8) == 0x03u8 && (0x03u8 ^ 0x8cu8) == 0x8fu8 && ((0x8fu8 << 1u8) ^ 0x1bu8) == 0x05u8 && (0x05u8 ^ 0x8fu8) == 0x8au8 && ((0x8au8 << 1u8) ^ 0x1bu8) == 0x0fu8 && (0x0fu8 ^ 0x8au8) == 0x85u8 && ((0x85u8 << 1u8) ^ 0x1bu8) == 0x11u8 && (0x11u8 ^ 0x85u8) == 0x94u8 && ((0x94u8 << 1u8) ^ 0x1bu8) == 0x33u8 && (0x33u8 ^ 0x94u8) == 0xa7u8 && ((0xa7u8 << 1u8) ^ 0x1bu8) == 0x55u8 && (0x55u8 ^ 0xa7u8) == 0xf2u8 && ((0xf2u8 << 1u8) ^ 0x1bu8) == 0xffu8 && (0xffu8 ^ 0xf2u8) == 0x0du8 && ((0x0du8 << 1u8) ^ 0u8) == 0x1au8 && (0x1au8 ^ 0x0du8) == 0x17u8 && ((0x17u8 << 1u8) ^ 0u8) == 0x2eu8 && (0x2eu8 ^ 0x17u8) == 0x39u8 && ((0x39u8 << 1u8) ^ 0u8) == 0x72u8 && (0x72u8 ^ 0x39u8) == 0x4bu8 && ((0x4bu8 << 1u8) ^ 0u8) == 0x96u8 && (0x96u8 ^ 0x4bu8) == 0xddu8 && ((0xddu8 << 1u8) ^ 0x1bu8) == 0xa1u8 && (0xa1u8 ^ 0xddu8) == 0x7cu8 && ((0x7cu8 << 1u8) ^ 0u8) == 0xf8u8 && (0xf8u8 ^ 0x7cu8) == 0x84u8 && ((0x84u8 << 1u8) ^ 0x1bu8) == 0x13u8 && (0x13u8 ^ 0x84u8) == 0x97u8 && ((0x97u8 << 1u8) ^ 0x1bu8) == 0x35u8 && (0x35u8 ^ 0x97u8) == 0xa2u8 && ((0xa2u8 << 1u8) ^ 0x1bu8) == 0x5fu8 && (0x5fu8 ^ 0xa2u8) == 0xfdu8 && ((0xfdu8 << 1u8) ^ 0x1bu8) == 0xe1u8 && (0xe1u8 ^ 0xfdu8) == 0x1cu8 && ((0x1cu8 << 1u8) ^ 0u8) == 0x38u8 && (0x38u8 ^ 0x1cu8) == 0x24u8 && ((0x24u8 << 1u8) ^ 0u8) == 0x48u8 && (0x48u8 ^ 0x24u8) == 0x6cu8 && ((0x6cu8 << 1u8) ^ 0u8) == 0xd8u8 && (0xd8u8 ^ 0x6cu8) == 0xb4u8 && ((0xb4u8 << 1u8) ^ 0x1bu8) == 0x73u8 && (0x73u8 ^ 0xb4u8) == 0xc7u8 && ((0xc7u8 << 1u8) ^ 0x1bu8) == 0x95u8 && (0x95u8 ^ 0xc7u8) == 0x52u8 && ((0x52u8 << 1u8) ^ 0u8) == 0xa4u8 && (0xa4u8 ^ 0x52u8) == 0xf6u8 && ((0xf6u8 << 1u8) ^ 0x1bu8) == 0xf7u8 && (0xf7u8 ^ 0xf6u8) == 0x01u8) by (bit_vector);
    if i == 224 {
        assert(spec_xtime(0x12u8) == 0x24u8);
    } else if i == 225 {
        assert(spec_xtime(0x36u8) == 0x6cu8);
    } else if i == 226 {
        assert(spec_xtime(0x5au8) == 0xb4u8);
    } else if i == 227 {
        assert(spec_xtime(0xeeu8) == 0xc7u8);
    } else if i == 228 {
        assert(spec_xtime(0x29u8) == 0x52u8);
    } else if i == 229 {
        assert(spec_xtime(0x7bu8) == 0xf6u8);
    } else if i == 230 {
        assert(spec_xtime(0x8du8) == 0x01u8);
    } else if i == 231 {
        assert(spec_xtime(0x8cu8) == 0x03u8);
    } else if i == 232 {
        assert(spec_xtime(0x8fu8) == 0x05u8);
    } else if i == 233 {
        assert(spec_xtime(0x8au8) == 0x0fu8);
    } else if i == 234 {
        assert(spec_xtime(0x85u8) == 0x11u8);
    } else if i == 235 {
        assert(spec_xtime(0x94u8) == 0x33u8);
    } else if i == 236 {
        assert(spec_xtime(0xa7u8) == 0x55u8);
    } else if i == 237 {
        assert(spec_xtime(0xf2u8) == 0xffu8);
    } else if i == 238 {
        assert(spec_xtime(0x0du8) == 0x1au8);
    } else if i == 239 {
        assert(spec_xtime(0x17u8) == 0x2eu8);
    } else if i == 240 {
        assert(spec_xtime(0x39u8) == 0x72u8);
    } else if i == 241 {
        assert(spec_xtime(0x4bu8) == 0x96u8);
    } else if i == 242 {
        assert(spec_xtime(0xddu8) == 0xa1u8);
    } else if i == 243 {
        assert(spec_xtime(0x7cu8) == 0xf8u8);
    } else if i == 244 {
        assert(spec_xtime(0x84u8) == 0x13u8);
    } else if i == 245 {
        assert(spec_xtime(0x97u8) == 0x35u8);
    } else if i == 246 {
        assert(spec_xtime(0xa2u8) == 0x5fu8);
    } else if i == 247 {
        assert(spec_xtime(0xfdu8) == 0xe1u8);
    } else if i == 248 {
        assert(spec_xtime(0x1cu8) == 0x38u8);
    } else if i == 249 {
        assert(spec_xtime(0x24u8) == 0x48u8);
    } else if i == 250 {
        assert(spec_xtime(0x6cu8) == 0xd8u8);
    } else if i == 251 {
        assert(spec_xtime(0xb4u8) == 0x73u8);
    } else if i == 252 {
        assert(spec_xtime(0xc7u8) == 0x95u8);
    } else if i == 253 {
        assert(spec_xtime(0x52u8) == 0xa4u8);
    } else if i == 254 {
        assert(spec_xtime(0xf6u8) == 0xf7u8);
    } else {
    }
}

/// One step along the generator's powers: multiplying by 3 moves one
/// position along the cycle of length 255.
proof fn lemma_exp_step(i: int)
    requires
        0 <= i < 255,
    ensures
        spec_mul(3, exp_at(i)) == exp_at((i + 1) % 255),
{
    if 0 <= i < 32 {
        lemma_exp_step_0(i);
    } else if 32 <= i < 64 {
        lemma_exp_step_1(i);
    } else if 64 <= i < 96 {
        lemma_exp_step_2(i);
    } else if 96 <= i < 128 {
        lemma_exp_step_3(i);
    } else if 128 <= i < 160 {
        lemma_exp_step_4(i);
    } else if 160 <= i < 192 {
        lemma_exp_step_5(i);
    } else if 192 <= i < 224 {
        lemma_exp_step_6(i);
    } else if 224 <= i < 255 {
        lemma_exp_step_7(i);
    } else {
    }
}

#[verifier::rlimit(100)]
proof fn lemma_exp_covers_0(a: u8)
    requires
        a == 0x01 || a == 0x03 || a == 0x05 || a == 0x0f || a == 0x11 || a == 0x33 || a == 0x55 || a == 0xff || a == 0x1a || a == 0x2e || a == 0x72 || a == 0x96 || a == 0xa1 || a == 0xf8 || a == 0x13 || a == 0x35 || a == 0x5f || a == 0xe1 || a == 0x38 || a == 0x48 || a == 0xd8 || a == 0x73 || a == 0x95 || a == 0xa4 || a == 0xf7 || a == 0x02 || a == 0x06 || a == 0x0a || a == 0x1e || a == 0x22 || a == 0x66 || a == 0xaa,
    ensures
        exists|i: int| 0 <= i < 255 && #[trigger] exp_at(i) == a,
{
    if a == 0x01 {
        assert(exp_at(0) == a);
    } else if a == 0x03 {
        assert(exp_at(1) == a);
    } else if a == 0x05 {
        assert(exp_at(2) == a);
    } else if a == 0x0f {
        assert(exp_at(3) == a);
    } else if a == 0x11 {
        assert(exp_at(4) == a);
    } else if a == 0x33 {
        assert(exp_at(5) == a);
    } else if a == 0x55 {
        assert(exp_at(6) == a);
    } else if a == 0xff {
        assert(exp_at(7) == a);
    } else if a == 0x1a {
        assert(exp_at(8) == a);
    } else if a == 0x2e {
        assert(exp_at(9) == a);
    } else if a == 0x72 {
        assert(exp_at(10) == a);
    } else if a == 0x96 {
        assert(exp_at(11) == a);
    } else if a == 0xa1 {
        assert(exp_at(12) == a);
    } else if a == 0xf8 {
        assert(exp_at(13) == a);
    } else if a == 0x13 {
        assert(exp_at(14) == a);
    } else if a == 0x35 {
        assert(exp_at(15) == a);
    } else if a == 0x5f {
        assert(exp_at(16) == a);
    } else if a == 0xe1 {
        assert(exp_at(17) == a);
    } else if a == 0x38 {
        assert(exp_at(18) == a);
    } else if a == 0x48 {
        assert(exp_at(19) == a);
    } else if a == 0xd8 {
        assert(exp_at(20) == a);
    } else if a == 0x73 {
        assert(exp_at(21) == a);
    } else if a == 0x95 {
        assert(exp_at(22) == a);
    } else if a == 0xa4 {
        assert(exp_at(23) == a);
    } else if a == 0xf7 {
        assert(exp_at(24) == a);
    } else if a == 0x02 {
        assert(exp_at(25) == a);
    } else if a == 0x06 {
        assert(exp_at(26) == a);
    } else if a == 0x0a {
        assert(exp_at(27) == a);
    } else if a == 0x1e {
        assert(exp_at(28) == a);
    } else if a == 0x22 {
        assert(exp_at(29) == a);
    } else if a == 0x66 {
        assert(exp_at(30) == a);
    } else if a == 0xaa {
        assert(exp_at(31) == a);
    } else {
    }
}

#[verifier::rlimit(100)]
proof fn lemma_exp_covers_1(a: u8)
    requires
        a == 0xe5 || a == 0x34 || a == 0x5c || a == 0xe4 || a == 0x37 || a == 0x59 || a == 0xeb || a == 0x26 || a == 0x6a || a == 0xbe || a == 0xd9 || a == 0x70 || a == 0x90 || a == 0xab || a == 0xe6 || a == 0x31 || a == 0x53 || a == 0xf5 || a == 0x04 || a == 0x0c || a == 0x14 || a == 0x3c || a == 0x44 || a == 0xcc || a == 0x4f || a == 0xd1 || a == 0x68 || a == 0xb8 || a == 0xd3 || a == 0x6e || a == 0xb2 || a == 0xcd,
    ensures
        exists|i: int| 0 <= i < 255 && #[trigger] exp_at(i) == a,
{
    if a == 0xe5 {
        assert(exp_at(32) == a);
    } else if a == 0x34 {
        assert(exp_at(33) == a);
    } else if a == 0x5c {
        assert(exp_at(34) == a);
    } else if a == 0xe4 {
        assert(exp_at(35) == a);
    } else if a == 0x37 {
        assert(exp_at(36) == a);
    } else if a == 0x59 {
        assert(exp_at(37) == a);
    } else if a == 0xeb {
        assert(exp_at(38) == a);
    } else if a == 0x26 {
        assert(exp_at(39) == a);
    } else if a == 0x6a {
        assert(exp_at(40) == a);
    } else if a == 0xbe {
        assert(exp_at(41) == a);
    } else if a == 0xd9 {
        assert(exp_at(42) == a);
    } else if a == 0x70 {
        assert(exp_at(43) == a);
    } else if a == 0x90 {
        assert(exp_at(44) == a);
    } else if a == 0xab {
        assert(exp_at(45) == a);
    } else if a == 0xe6 {
        assert(exp_at(46) == a);
    } else if a == 0x31 {
        assert(exp_at(47) == a);
    } else if a == 0x53 {
        assert(exp_at(48) == a);
    } else if a == 0xf5 {
        assert(exp_at(49) == a);
    } else if a == 0x04 {
        assert(exp_at(50) == a);
    } else if a == 0x0c {
        assert(exp_at(51) == a);
    } else if a == 0x14 {
        assert(exp_at(52) == a);
    } else if a == 0x3c {
        assert(exp_at(53) == a);
    } else if a == 0x44 {
        assert(exp_at(54) == a);
    } else if a == 0xcc {
        assert(exp_at(55) == a);
    } else if a == 0x4f {
        assert(exp_at(56) == a);
    } else if a == 0xd1 {
        assert(exp_at(57) == a);
    } else if a == 0x68 {
        assert(exp_at(58) == a);
    } else if a == 0xb8 {
        assert(exp_at(59) == a);
    } else if a == 0xd3 {
        assert(exp_at(60) == a);
    } else if a == 0x6e {
        assert(exp_at(61) == a);
    } else if a == 0xb2 {
        assert(exp_at(62) == a);
    } else if a == 0xcd {
        assert(exp_at(63) == a);
    } else {
    }
}

#[verifier::rlimit(100)]
proof fn lemma_exp_covers_2(a: u8)
    requires
        a == 0x4c || a == 0xd4 || a == 0x67 || a == 0xa9 || a == 0xe0 || a == 0x3b || a == 0x4d || a == 0xd7 || a == 0x62 || a == 0xa6 || a == 0xf1 || a == 0x08 || a == 0x18 || a == 0x28 || a == 0x78 || a == 0x88 || a == 0x83 || a == 0x9e || a == 0xb9 || a == 0xd0 || a == 0x6b || a == 0xbd || a == 0xdc || a == 0x7f || a == 0x81 || a == 0x98 || a == 0xb3 || a == 0xce || a == 0x49 || a == 0xdb || a == 0x76 || a == 0x9a,
    ensures
        exists|i: int| 0 <= i < 255 && #[trigger] exp_at(i) == a,
{
    if a == 0x4c {
        assert(exp_at(64) == a);
    } else if a == 0xd4 {
        assert(exp_at(65) == a);
    } else if a == 0x67 {
        assert(exp_at(66) == a);
    } else if a == 0xa9 {
        assert(exp_at(67) == a);
    } else if a == 0xe0 {
        assert(exp_at(68) == a);
    } else if a == 0x3b {
        assert(exp_at(69) == a);
    } else if a == 0x4d {
        assert(exp_at(70) == a);
    } else if a == 0xd7 {
        assert(exp_at(71) == a);
    } else if a == 0x62 {
        assert(exp_at(72) == a);
    } else if a == 0xa6 {
        assert(exp_at(73) == a);
    } else if a == 0xf1 {
        assert(exp_at(74) == a);
    } else if a == 0x08 {
        assert(exp_at(75) == a);
    } else if a == 0x18 {
        assert(exp_at(76) == a);
    } else if a == 0x28 {
        assert(exp_at(77) == a);
    } else if a == 0x78 {
        assert(exp_at(78) == a);
    } else if a == 0x88 {
        assert(exp_at(79) == a);
    } else if a == 0x83 {
        assert(exp_at(80) == a);
    } else if a == 0x9e {
        assert(exp_at(81) == a);
    } else if a == 0xb9 {
        assert(exp_at(82) == a);
    } else if a == 0xd0 {
        assert(exp_at(83) == a);
    } else if a == 0x6b {
        assert(exp_at(84) == a);
    } else if a == 0xbd {
        assert(exp_at(85) == a);
    } else if a == 0xdc {
        assert(exp_at(86) == a);
    } else if a == 0x7f {
        assert(exp_at(87) == a);
    } else if a == 0x81 {
        assert(exp_at(88) == a);
    } else if a == 0x98 {
        assert(exp_at(89) == a);
    } else if a == 0xb3 {
        assert(exp_at(90) == a);
    } else if a == 0xce {
        assert(exp_at(91) == a);
    } else if a == 0x49 {
        assert(exp_at(92) == a);
    } else if a == 0xdb {
        assert(exp_at(93) == a);
    } else if a == 0x76 {
        assert(exp_at(94) == a);
    } else if a == 0x9a {
        assert(exp_at(95) == a);
    } else {
    }
}

#[verifier::rlimit(100)]
proof fn lemma_exp_covers_3(a: u8)
    requires
        a == 0xb5 || a == 0xc4 || a == 0x57 || a == 0xf9 || a == 0x10 || a == 0x30 || a == 0x50 || a == 0xf0 || a == 0x0b || a == 0x1d || a == 0x27 || a == 0x69 || a == 0xbb || a == 0xd6 || a == 0x61 || a == 0xa3 || a == 0xfe || a == 0x19 || a == 0x2b || a == 0x7d || a == 0x87 || a == 0x92 || a == 0xad || a == 0xec || a == 0x2f || a == 0x71 || a == 0x93 || a == 0xae || a == 0xe9 || a == 0x20 || a == 0x60 || a == 0xa0,
    ensures
        exists|i: int| 0 <= i < 255 && #[trigger] exp_at(i) == a,
{
    if a == 0xb5 {
        assert(exp_at(96) == a);
    } else if a == 0xc4 {
        assert(exp_at(97) == a);
    } else if a == 0x57 {
        assert(exp_at(98) == a);
    } else if a == 0xf9 {
        assert(exp_at(99) == a);
    } else if a == 0x10 {
        assert(exp_at(100) == a);
    } else if a == 0x30 {
        assert(exp_at(101) == a);
    } else if a == 0x50 {
        assert(exp_at(102) == a);
    } else if a == 0xf0 {
        assert(exp_at(103) == a);
    } else if a == 0x0b {
        assert(exp_at(104) == a);
    } else if a == 0x1d {
        assert(exp_at(105) == a);
    } else if a == 0x27 {
        assert(exp_at(106) == a);
    } else if a == 0x69 {
        assert(exp_at(107) == a);
    } else if a == 0xbb {
        assert(exp_at(108) == a);
    } else if a == 0xd6 {
        assert(exp_at(109) == a);
    } else if a == 0x61 {
        assert(exp_at(110) == a);
    } else if a == 0xa3 {
        assert(exp_at(111) == a);
    } else if a == 0xfe {
        assert(exp_at(112) == a);
    } else if a == 0x19 {
        assert(exp_at(113) == a);
    } else if a == 0x2b {
        assert(exp_at(114) == a);
    } else if a == 0x7d {
        assert(exp_at(115) == a);
    } else if a == 0x87 {
        assert(exp_at(116) == a);
    } else if a == 0x92 {
        assert(exp_at(117) == a);
    } else if a == 0xad {
        assert(exp_at(118) == a);
    } else if a == 0xec {
        assert(exp_at(119) == a);
    } else if a == 0x2f {
        assert(exp_at(120) == a);
    } else if a == 0x71 {
        assert(exp_at(121) == a);
    } else if a == 0x93 {
        assert(exp_at(122) == a);
    } else if a == 0xae {
        assert(exp_at(123) == a);
    } else if a == 0xe9 {
        assert(exp_at(124) == a);
    } else if a == 0x20 {
        assert(exp_at(125) == a);
    } else if a == 0x60 {
        assert(exp_at(126) == a);
    } else if a == 0xa0 {
        assert(exp_at(127) == a);
    } else {
    }
}

#[verifier::rlimit(100)]
proof fn lemma_exp_covers_4(a: u8)
    requires
        a == 0xfb || a == 0x16 || a == 0x3a || a == 0x4e || a == 0xd2 || a == 0x6d || a == 0xb7 || a == 0xc2 || a == 0x5d || a == 0xe7 || a == 0x32 || a == 0x56 || a == 0xfa || a == 0x15 || a == 0x3f || a == 0x41 || a == 0xc3 || a == 0x5e || a == 0xe2 || a == 0x3d || a == 0x47 || a == 0xc9 || a == 0x40 || a == 0xc0 || a == 0x5b || a == 0xed || a == 0x2c || a == 0x74 || a == 0x9c || a == 0xbf || a == 0xda || a == 0x75,
    ensures
        exists|i: int| 0 <= i < 255 && #[trigger] exp_at(i) == a,
{
    if a == 0xfb {
        assert(exp_at(128) == a);
    } else if a == 0x16 {
        assert(exp_at(129) == a);
    } else if a == 0x3a {
        assert(exp_at(130) == a);
    } else if a == 0x4e {
        assert(exp_at(131) == a);
    } else if a == 0xd2 {
        assert(exp_at(132) == a);
    } else if a == 0x6d {
        assert(exp_at(133) == a);
    } else if a == 0xb7 {
        assert(exp_at(134) == a);
    } else if a == 0xc2 {
        assert(exp_at(135) == a);
    } else if a == 0x5d {
        assert(exp_at(136) == a);
    } else if a == 0xe7 {
        assert(exp_at(137) == a);
    } else if a == 0x32 {
        assert(exp_at(138) == a);
    } else if a == 0x56 {
        assert(exp_at(139) == a);
    } else if a == 0xfa {
        assert(exp_at(140) == a);
    } else if a == 0x15 {
        assert(exp_at(141) == a);
    } else if a == 0x3f {
        assert(exp_at(142) == a);
    } else if a == 0x41 {
        assert(exp_at(143) == a);
    } else if a == 0xc3 {
        assert(exp_at(144) == a);
    } else if a == 0x5e {
        assert(exp_at(145) == a);
    } else if a == 0xe2 {
        assert(exp_at(146) == a);
    } else if a == 0x3d {
        assert(exp_at(147) == a);
    } else if a == 0x47 {
        assert(exp_at(148) == a);
    } else if a == 0xc9 {
        assert(exp_at(149) == a);
    } else if a == 0x40 {
        assert(exp_at(150) == a);
    } else if a == 0xc0 {
        assert(exp_at(151) == a);
    } else if a == 0x5b {
        assert(exp_at(152) == a);
    } else if a == 0xed {
        assert(exp_at(153) == a);
    } else if a == 0x2c {
        assert(exp_at(154) == a);
    } else if a == 0x74 {
        assert(exp_at(155) == a);
    } else if a == 0x9c {
        assert(exp_at(156) == a);
    } else if a == 0xbf {
        assert(exp_at(157) == a);
    } else if a == 0xda {
        assert(exp_at(158) == a);
    } else if a == 0x75 {
        assert(exp_at(159) == a);
    } else {
    }
}

#[verifier::rlimit(100)]
proof fn lemma_exp_covers_5(a: u8)
    requires
        a == 0x9f || a == 0xba || a == 0xd5 || a == 0x64 || a == 0xac || a == 0xef || a == 0x2a || a == 0x7e || a == 0x82 || a == 0x9d || a == 0xbc || a == 0xdf || a == 0x7a || a == 0x8e || a == 0x89 || a == 0x80 || a == 0x9b || a == 0xb6 || a == 0xc1 || a == 0x58 || a == 0xe8 || a == 0x23 || a == 0x65 || a == 0xaf || a == 0xea || a == 0x25 || a == 0x6f || a == 0xb1 || a == 0xc8 || a == 0x43 || a == 0xc5 || a == 0x54,
    ensures
        exists|i: int| 0 <= i < 255 && #[trigger] exp_at(i) == a,
{
    if a == 0x9f {
        assert(exp_at(160) == a);
    } else if a == 0xba {
        assert(exp_at(161) == a);
    } else if a == 0xd5 {
        assert(exp_at(162) == a);
    } else if a == 0x64 {
        assert(exp_at(163) == a);
    } else if a == 0xac {
        assert(exp_at(164) == a);
    } else if a == 0xef {
        assert(exp_at(165) == a);
    } else if a == 0x2a {
        assert(exp_at(166) == a);
    } else if a == 0x7e {
        assert(exp_at(167) == a);
    } else if a == 0x82 {
        assert(exp_at(168) == a);
    } else if a == 0x9d {
        assert(exp_at(169) == a);
    } else if a == 0xbc {
        assert(exp_at(170) == a);
    } else if a == 0xdf {
        assert(exp_at(171) == a);
    } else if a == 0x7a {
        assert(exp_at(172) == a);
    } else if a == 0x8e {
        assert(exp_at(173) == a);
    } else if a == 0x89 {
        assert(exp_at(174) == a);
    } else if a == 0x80 {
        assert(exp_at(175) == a);
    } else if a == 0x9b {
        assert(exp_at(176) == a);
    } else if a == 0xb6 {
        assert(exp_at(177) == a);
    } else if a == 0xc1 {
        assert(exp_at(178) == a);
    } else if a == 0x58 {
        assert(exp_at(179) == a);
    } else if a == 0xe8 {
        assert(exp_at(180) == a);
    } else if a == 0x23 {
        assert(exp_at(181) == a);
    } else if a == 0x65 {
        assert(exp_at(182) == a);
    } else if a == 0xaf {
        assert(exp_at(183) == a);
    } else if a == 0xea {
        assert(exp_at(184) == a);
    } else if a == 0x25 {
        assert(exp_at(185) == a);
    } else if a == 0x6f {
        assert(exp_at(186) == a);
    } else if a == 0xb1 {
        assert(exp_at(187) == a);
    } else if a == 0xc8 {
        assert(exp_at(188) == a);
    } else if a == 0x43 {
        assert(exp_at(189) == a);
    } else if a == 0xc5 {
        assert(exp_at(190) == a);
    } else if a == 0x54 {
        assert(exp_at(191) == a);
    } else {
    }
}

#[verifier::rlimit(100)]
proof fn lemma_exp_covers_6(a: u8)
    requires
        a == 0xfc || a == 0x1f || a == 0x21 || a == 0x63 || a == 0xa5 || a == 0xf4 || a == 0x07 || a == 0x09 || a == 0x1b || a == 0x2d || a == 0x77 || a == 0x99 || a == 0xb0 || a == 0xcb || a == 0x46 || a == 0xca || a == 0x45 || a == 0xcf || a == 0x4a || a == 0xde || a == 0x79 || a == 0x8b || a == 0x86 || a == 0x91 || a == 0xa8 || a == 0xe3 || a == 0x3e || a == 0x42 || a == 0xc6 || a == 0x51 || a == 0xf3 || a == 0x0e,
    ensures
        exists|i: int| 0 <= i < 255 && #[trigger] exp_at(i) == a,
{
    if a == 0xfc {
        assert(exp_at(192) == a);
    } else if a == 0x1f {
        assert(exp_at(193) == a);
    } else if a == 0x21 {
        assert(exp_at(194) == a);
    } else if a == 0x63 {
        assert(exp_at(195) == a);
    } else if a == 0xa5 {
        assert(exp_at(196) == a);
    } else if a == 0xf4 {
        assert(exp_at(197) == a);
    } else if a == 0x07 {
        assert(exp_at(198) == a);
    } else if a == 0x09 {
        assert(exp_at(199) == a);
    } else if a == 0x1b {
        assert(exp_at(200) == a);
    } else if a == 0x2d {
        assert(exp_at(201) == a);
    } else if a == 0x77 {
        assert(exp_at(202) == a);
    } else if a == 0x99 {
        assert(exp_at(203) == a);
    } else if a == 0xb0 {
        assert(exp_at(204) == a);
    } else if a == 0xcb {
        assert(exp_at(205) == a);
    } else if a == 0x46 {
        assert(exp_at(206) == a);
    } else if a == 0xca {
        assert(exp_at(207) == a);
    } else if a == 0x45 {
        assert(exp_at(208) == a);
    } else if a == 0xcf {
        assert(exp_at(209) == a);
    } else if a == 0x4a {
        assert(exp_at(210) == a);
    } else if a == 0xde {
        assert(exp_at(211) == a);
    } else if a == 0x79 {
        assert(exp_at(212) == a);
    } else if a == 0x8b {
        assert(exp_at(213) == a);
    } else if a == 0x86 {
        assert(exp_at(214) == a);
    } else if a == 0x91 {
        assert(exp_at(215) == a);
    } else if a == 0xa8 {
        assert(exp_at(216) == a);
    } else if a == 0xe3 {
        assert(exp_at(217) == a);
    } else if a == 0x3e {
        assert(exp_at(218) == a);
    } else if a == 0x42 {
        assert(exp_at(219) == a);
    } else if a == 0xc6 {
        assert(exp_at(220) == a);
    } else if a == 0x51 {
        assert(exp_at(221) == a);
    } else if a == 0xf3 {
        assert(exp_at(222) == a);
    } else if a == 0x0e {
        assert(exp_at(223) == a);
    } else {
    }
}

#[verifier::rlimit(100)]
proof fn lemma_exp_covers_7(a: u8)
    requires
        a == 0x12 || a == 0x36 || a == 0x5a || a == 0xee || a == 0x29 || a == 0x7b || a == 0x8d || a == 0x8c || a == 0x8f || a == 0x8a || a == 0x85 || a == 0x94 || a == 0xa7 || a == 0xf2 || a == 0x0d || a == 0x17 || a == 0x39 || a == 0x4b || a == 0xdd || a == 0x7c || a == 0x84 || a == 0x97 || a == 0xa2 || a == 0xfd || a == 0x1c || a == 0x24 || a == 0x6c || a == 0xb4 || a == 0xc7 || a == 0x52 || a == 0xf6,
    ensures
        exists|i: int| 0 <= i < 255 && #[trigger] exp_at(i) == a,
{
    if a == 0x12 {
        assert(exp_at(224) == a);
    } else if a == 0x36 {
        assert(exp_at(225) == a);
    } else if a == 0x5a {
        assert(exp_at(226) == a);
    } else if a == 0xee {
        assert(exp_at(227) == a);
    } else if a == 0x29 {
        assert(exp_at(228) == a);
    } else if a == 0x7b {
        assert(exp_at(229) == a);
    } else if a == 0x8d {
        assert(exp_at(230) == a);
    } else if a == 0x8c {
        assert(exp_at(231) == a);
    } else if a == 0x8f {
        assert(exp_at(232) == a);
    } else if a == 0x8a {
        assert(exp_at(233) == a);
    } else if a == 0x85 {
        assert(exp_at(234) == a);
    } else if a == 0x94 {
        assert(exp_at(235) == a);
    } else if a == 0xa7 {
        assert(exp_at(236) == a);
    } else if a == 0xf2 {
        assert(exp_at(237) == a);
    } else if a == 0x0d {
        assert(exp_at(238) == a);
    } else if a == 0x17 {
        assert(exp_at(239) == a);
    } else if a == 0x39 {
        assert(exp_at(240) == a);
    } else if a == 0x4b {
        assert(exp_at(241) == a);
    } else if a == 0xdd {
        assert(exp_at(242) == a);
    } else if a == 0x7c {
        assert(exp_at(243) == a);
    } else if a == 0x84 {
        assert(exp_at(244) == a);
    } else if a == 0x97 {
        assert(exp_at(245) == a);
    } else if a == 0xa2 {
        assert(exp_at(246) == a);
    } else if a == 0xfd {
        assert(exp_at(247) == a);
    } else if a == 0x1c {
        assert(exp_at(248) == a);
    } else if a == 0x24 {
        assert(exp_at(249) == a);
    } else if a == 0x6c {
        assert(exp_at(250) == a);
    } else if a == 0xb4 {
        assert(exp_at(251) == a);
    } else if a == 0xc7 {
        assert(exp_at(252) == a);
    } else if a == 0x52 {
        assert(exp_at(253) == a);
    } else if a == 0xf6 {
        assert(exp_at(254) == a);
    } else {
    }
}

/// Every non-zero byte is a power of the generator.
proof fn lemma_exp_covers(a: u8)
    requires
        a != 0,
    ensures
        exists|i: int| 0 <= i < 255 && #[trigger] exp_at(i) == a,
{
    if a == 0x01 || a == 0x03 || a == 0x05 || a == 0x0f || a == 0x11 || a == 0x33 || a == 0x55 || a == 0xff || a == 0x1a || a == 0x2e || a == 0x72 || a == 0x96 || a == 0xa1 || a == 0xf8 || a == 0x13 || a == 0x35 || a == 0x5f || a == 0xe1 || a == 0x38 || a == 0x48 || a == 0xd8 || a == 0x73 || a == 0x95 || a == 0xa4 || a == 0xf7 || a == 0x02 || a == 0x06 || a == 0x0a || a == 0x1e || a == 0x22 || a == 0x66 || a == 0xaa {
        lemma_exp_covers_0(a);
    } else if a == 0xe5 || a == 0x34 || a == 0x5c || a == 0xe4 || a == 0x37 || a == 0x59 || a == 0xeb || a == 0x26 || a == 0x6a || a == 0xbe || a == 0xd9 || a == 0x70 || a == 0x90 || a == 0xab || a == 0xe6 || a == 0x31 || a == 0x53 || a == 0xf5 || a == 0x04 || a == 0x0c || a == 0x14 || a == 0x3c || a == 0x44 || a == 0xcc || a == 0x4f || a == 0xd1 || a == 0x68 || a == 0xb8 || a == 0xd3 || a == 0x6e || a == 0xb2 || a == 0xcd {
        lemma_exp_covers_1(a);
    } else if a == 0x4c || a == 0xd4 || a == 0x67 || a == 0xa9 || a == 0xe0 || a == 0x3b || a == 0x4d || a == 0xd7 || a == 0x62 || a == 0xa6 || a == 0xf1 || a == 0x08 || a == 0x18 || a == 0x28 || a == 0x78 || a == 0x88 || a == 0x83 || a == 0x9e || a == 0xb9 || a == 0xd0 || a == 0x6b || a == 0xbd || a == 0xdc || a == 0x7f || a == 0x81 || a == 0x98 || a == 0xb3 || a == 0xce || a == 0x49 || a == 0xdb || a == 0x76 || a == 0x9a {
        lemma_exp_covers_2(a);
    } else if a == 0xb5 || a == 0xc4 || a == 0x57 || a == 0xf9 || a == 0x10 || a == 0x30 || a == 0x50 || a == 0xf0 || a == 0x0b || a == 0x1d || a == 0x27 || a == 0x69 || a == 0xbb || a == 0xd6 || a == 0x61 || a == 0xa3 || a == 0xfe || a == 0x19 || a == 0x2b || a == 0x7d || a == 0x87 || a == 0x92 || a == 0xad || a == 0xec || a == 0x2f || a == 0x71 || a == 0x93 || a == 0xae || a == 0xe9 || a == 0x20 || a == 0x60 || a == 0xa0 {
        lemma_exp_covers_3(a);
    } else if a == 0xfb || a == 0x16 || a == 0x3a || a == 0x4e || a == 0xd2 || a == 0x6d || a == 0xb7 || a == 0xc2 || a == 0x5d || a == 0xe7 || a == 0x32 || a == 0x56 || a == 0xfa || a == 0x15 || a == 0x3f || a == 0x41 || a == 0xc3 || a == 0x5e || a == 0xe2 || a == 0x3d || a == 0x47 || a == 0xc9 || a == 0x40 || a == 0xc0 || a == 0x5b || a == 0xed || a == 0x2c || a == 0x74 || a == 0x9c || a == 0xbf || a == 0xda || a == 0x75 {
        lemma_exp_covers_4(a);
    } else if a == 0x9f || a == 0xba || a == 0xd5 || a == 0x64 || a == 0xac || a == 0xef || a == 0x2a || a == 0x7e || a == 0x82 || a == 0x9d || a == 0xbc || a == 0xdf || a == 0x7a || a == 0x8e || a == 0x89 || a == 0x80 || a == 0x9b || a == 0xb6 || a == 0xc1 || a == 0x58 || a == 0xe8 || a == 0x23 || a == 0x65 || a == 0xaf || a == 0xea || a == 0x25 || a == 0x6f || a == 0xb1 || a == 0xc8 || a == 0x43 || a == 0xc5 || a == 0x54 {
        lemma_exp_covers_5(a);
    } else if a == 0xfc || a == 0x1f || a == 0x21 || a == 0x63 || a == 0xa5 || a == 0xf4 || a == 0x07 || a == 0x09 || a == 0x1b || a == 0x2d || a == 0x77 || a == 0x99 || a == 0xb0 || a == 0xcb || a == 0x46 || a == 0xca || a == 0x45 || a == 0xcf || a == 0x4a || a == 0xde || a == 0x79 || a == 0x8b || a == 0x86 || a == 0x91 || a == 0xa8 || a == 0xe3 || a == 0x3e || a == 0x42 || a == 0xc6 || a == 0x51 || a == 0xf3 || a == 0x0e {
        lemma_exp_covers_6(a);
    } else if a == 0x12 || a == 0x36 || a == 0x5a || a == 0xee || a == 0x29 || a == 0x7b || a == 0x8d || a == 0x8c || a == 0x8f || a == 0x8a || a == 0x85 || a == 0x94 || a == 0xa7 || a == 0xf2 || a == 0x0d || a == 0x17 || a == 0x39 || a == 0x4b || a == 0xdd || a == 0x7c || a == 0x84 || a == 0x97 || a == 0xa2 || a == 0xfd || a == 0x1c || a == 0x24 || a == 0x6c || a == 0xb4 || a == 0xc7 || a == 0x52 || a == 0xf6 {
        lemma_exp_covers_7(a);
    } else {
        assert(false) by (bit_vector)
            requires
                a != 0 && a != 0x01 && a != 0x03 && a != 0x05 && a != 0x0f && a != 0x11 && a != 0x33 && a != 0x55 && a != 0xff && a != 0x1a && a != 0x2e && a != 0x72 && a != 0x96 && a != 0xa1 && a != 0xf8 && a != 0x13 && a != 0x35 && a != 0x5f && a != 0xe1 && a != 0x38 && a != 0x48 && a != 0xd8 && a != 0x73 && a != 0x95 && a != 0xa4 && a != 0xf7 && a != 0x02 && a != 0x06 && a != 0x0a && a != 0x1e && a != 0x22 && a != 0x66 && a != 0xaa && a != 0xe5 && a != 0x34 && a != 0x5c && a != 0xe4 && a != 0x37 && a != 0x59 && a != 0xeb && a != 0x26 && a != 0x6a && a != 0xbe && a != 0xd9 && a != 0x70 && a != 0x90 && a != 0xab && a != 0xe6 && a != 0x31 && a != 0x53 && a != 0xf5 && a != 0x04 && a != 0x0c && a != 0x14 && a != 0x3c && a != 0x44 && a != 0xcc && a != 0x4f && a != 0xd1 && a != 0x68 && a != 0xb8 && a != 0xd3 && a != 0x6e && a != 0xb2 && a != 0xcd && a != 0x4c && a != 0xd4 && a != 0x67 && a != 0xa9 && a != 0xe0 && a != 0x3b && a != 0x4d && a != 0xd7 && a != 0x62 && a != 0xa6 && a != 0xf1 && a != 0x08 && a != 0x18 && a != 0x28 && a != 0x78 && a != 0x88 && a != 0x83 && a != 0x9e && a != 0xb9 && a != 0xd0 && a != 0x6b && a != 0xbd && a != 0xdc && a != 0x7f && a != 0x81 && a != 0x98 && a != 0xb3 && a != 0xce && a != 0x49 && a != 0xdb && a != 0x76 && a != 0x9a && a != 0xb5 && a != 0xc4 && a != 0x57 && a != 0xf9 && a != 0x10 && a != 0x30 && a != 0x50 && a != 0xf0 && a != 0x0b && a != 0x1d && a != 0x27 && a != 0x69 && a != 0xbb && a != 0xd6 && a != 0x61 && a != 0xa3 && a != 0xfe && a != 0x19 && a != 0x2b && a != 0x7d && a != 0x87 && a != 0x92 && a != 0xad && a != 0xec && a != 0x2f && a != 0x71 && a != 0x93 && a != 0xae && a != 0xe9 && a != 0x20 && a != 0x60 && a != 0xa0 && a != 0xfb && a != 0x16 && a != 0x3a && a != 0x4e && a != 0xd2 && a != 0x6d && a != 0xb7 && a != 0xc2 && a != 0x5d && a != 0xe7 && a != 0x32 && a != 0x56 && a != 0xfa && a != 0x15 && a != 0x3f && a != 0x41 && a != 0xc3 && a != 0x5e && a != 0xe2 && a != 0x3d && a != 0x47 && a != 0xc9 && a != 0x40 && a != 0xc0 && a != 0x5b && a != 0xed && a != 0x2c && a != 0x74 && a != 0x9c && a != 0xbf && a != 0xda && a != 0x75 && a != 0x9f && a != 0xba && a != 0xd5 && a != 0x64 && a != 0xac && a != 0xef && a != 0x2a && a != 0x7e && a != 0x82 && a != 0x9d && a != 0xbc && a != 0xdf && a != 0x7a && a != 0x8e && a != 0x89 && a != 0x80 && a != 0x9b && a != 0xb6 && a != 0xc1 && a != 0x58 && a != 0xe8 && a != 0x23 && a != 0x65 && a != 0xaf && a != 0xea && a != 0x25 && a != 0x6f && a != 0xb1 && a != 0xc8 && a != 0x43 && a != 0xc5 && a != 0x54 && a != 0xfc && a != 0x1f && a != 0x21 && a != 0x63 && a != 0xa5 && a != 0xf4 && a != 0x07 && a != 0x09 && a != 0x1b && a != 0x2d && a != 0x77 && a != 0x99 && a != 0xb0 && a != 0xcb && a != 0x46 && a != 0xca && a != 0x45 && a != 0xcf && a != 0x4a && a != 0xde && a != 0x79 && a != 0x8b && a != 0x86 && a != 0x91 && a != 0xa8 && a != 0xe3 && a != 0x3e && a != 0x42 && a != 0xc6 && a != 0x51 && a != 0xf3 && a != 0x0e && a != 0x12 && a != 0x36 && a != 0x5a && a != 0xee && a != 0x29 && a != 0x7b && a != 0x8d && a != 0x8c && a != 0x8f && a != 0x8a && a != 0x85 && a != 0x94 && a != 0xa7 && a != 0xf2 && a != 0x0d && a != 0x17 && a != 0x39 && a != 0x4b && a != 0xdd && a != 0x7c && a != 0x84 && a != 0x97 && a != 0xa2 && a != 0xfd && a != 0x1c && a != 0x24 && a != 0x6c && a != 0xb4 && a != 0xc7 && a != 0x52 && a != 0xf6,
        ;
    }
}

/// The powers of the generator multiply by adding cycle positions.
proof fn lemma_exp_hom(i: int, j: int)
    requires
        0 <= i < 255,
        0 <= j < 255,
    ensures
        spec_mul(exp_at(i), exp_at(j)) == exp_at((i + j) % 255),
    decreases i,
{
    if i == 0 {
        lemma_mul_one(exp_at(j));
        lemma_small_mod(j as nat, 255);
    } else {
        lemma_exp_step(i - 1);
        lemma_small_mod(i as nat, 255);
        lemma_exp_hom(i - 1, j);
        lemma_mul_three_assoc(exp_at(i - 1), exp_at(j));
        let m = (i - 1 + j) % 255;
        lemma_mod_bound(i - 1 + j, 255);
        lemma_exp_step(m);
        lemma_add_mod_noop(i - 1 + j, 1, 255);
        lemma_small_mod(1nat, 255);
    }
}

/// A power of a generator power lands at the product of the positions.
proof fn lemma_pow_exp(i: int, e: nat)
    requires
        0 <= i < 255,
    ensures
        spec_pow(exp_at(i), e) == exp_at((i * e) % 255),
    decreases e,
{
    if e == 0 {
        assert(i * 0 == 0) by (nonlinear_arith);
        lemma_small_mod(0, 255);
    } else {
        lemma_pow_exp(i, (e - 1) as nat);
        assert(i * (e - 1) >= 0 && i * (e - 1) + i == i * e) by (nonlinear_arith)
            requires
                0 <= i && e >= 1,
        ;
        let m = (i * (e - 1)) % 255;
        lemma_mod_bound(i * (e - 1), 255);
        lemma_exp_hom(m, i);
        lemma_add_mod_noop(i * (e - 1), i, 255);
        lemma_small_mod(i as nat, 255);
    }
}

/// The multiplicative inverse law: every non-zero element times its
/// inverse is one.
pub proof fn lemma_mul_inverse(a: u8)
    requires
        a != 0,
    ensures
        spec_mul(a, spec_inv(a)) == 1,
{
    lemma_exp_covers(a);
    let i = choose|i: int| 0 <= i < 255 && #[trigger] exp_at(i) == a;
    lemma_pow_exp(i, 254);
    assert(i * 254 >= 0 && i + i * 254 == i * 255) by (nonlinear_arith)
        requires
            0 <= i,
    ;
    let m = (i * 254) % 255;
    lemma_mod_bound(i * 254, 255);
    lemma_exp_hom(i, m);
    lemma_add_mod_noop(i, i * 254, 255);
    lemma_small_mod(i as nat, 255);
    lemma_mod_multiples_basic(i, 255);
    assert(spec_mul(a, spec_inv(a)) == exp_at(0));
}

} // verus!
