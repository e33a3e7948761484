//! The field laws on concrete bytes, and the interpolation machinery.

use rusty_secrets::gf256;
use rusty_secrets::lagrange::{interpolate, PartialSecret};

#[test]
fn add_laws_hold_on_samples() {
    let samples = [0u8, 1, 2, 3, 0x53, 0x80, 0xca, 0xff];
    for &a in &samples {
        for &b in &samples {
            assert_eq!(gf256::add(a, b), gf256::add(b, a));
            for &c in &samples {
                assert_eq!(
                    gf256::add(gf256::add(a, b), c),
                    gf256::add(a, gf256::add(b, c))
                );
            }
        }
        assert_eq!(gf256::add(a, 0), a);
        assert_eq!(gf256::add(a, a), 0);
    }
}

#[test]
fn mul_inverse_is_one_for_every_nonzero_byte() {
    for a in 1u8..=255 {
        let inv = gf256::inv(a);
        assert_eq!(gf256::mul(a, inv), 1, "inverse failed for {a}");
    }
}

#[test]
fn mul_distributes_over_add() {
    let samples = [0u8, 1, 2, 3, 9, 0x53, 0x80, 0xca, 0xff];
    for &a in &samples {
        for &b in &samples {
            for &c in &samples {
                assert_eq!(
                    gf256::mul(a, gf256::add(b, c)),
                    gf256::add(gf256::mul(a, b), gf256::mul(a, c))
                );
            }
        }
    }
}

#[test]
fn known_products() {
    assert_eq!(gf256::mul(0x53, 0xca), 0x01);
    assert_eq!(gf256::mul(2, 0x80), 0x1b);
    assert_eq!(gf256::mul(3, 1), 3);
    assert_eq!(gf256::div(1, 0x53), 0xca);
}

#[test]
fn interpolate_matches_evaluations() {
    let points = [(1u8, 0x5au8), (2, 0x13), (4, 0xc7)];
    let poly = interpolate(&points);
    for &(x, y) in &points {
        assert_eq!(poly.evaluate_at(x), y);
    }
}

#[test]
fn barycentric_value_equals_lagrange_constant_term() {
    let points = [(1u8, 0x5au8), (2, 0x13), (4, 0xc7)];
    let poly = interpolate(&points);
    let ids = [1u8, 2, 4];
    let ys = [0x5au8, 0x13, 0xc7];
    let ps = PartialSecret::new(3, &ids, &ys);
    assert_eq!(ps.get_secret().unwrap(), poly.evaluate_at(0));
}

#[test]
fn incremental_updates_match_one_batch() {
    let ids = [7u8, 11, 13];
    let ys = [0x21u8, 0x42, 0x84];
    let batch = PartialSecret::new(3, &ids, &ys);
    let mut online = PartialSecret::new(3, &ids[..1], &ys[..1]);
    online.update(3, &ids[..2], &ys[1..2]);
    online.update(3, &ids[..3], &ys[2..3]);
    assert_eq!(online.get_secret().unwrap(), batch.get_secret().unwrap());
}

#[test]
fn interpolation_is_additive_in_the_ordinates() {
    let ids = [3u8, 9, 27];
    let ys1 = [0x11u8, 0x52, 0x9d];
    let ys2 = [0xa0u8, 0x0f, 0x63];
    let ysx: Vec<u8> = ys1.iter().zip(ys2.iter()).map(|(a, b)| a ^ b).collect();
    let s1 = PartialSecret::new(3, &ids, &ys1).get_secret().unwrap();
    let s2 = PartialSecret::new(3, &ids, &ys2).get_secret().unwrap();
    let sx = PartialSecret::new(3, &ids, &ysx).get_secret().unwrap();
    assert_eq!(sx, s1 ^ s2);
}

#[test]
fn evaluate_at_x_matches_the_polynomial() {
    let points = [(1u8, 0x5au8), (2, 0x13), (4, 0xc7)];
    let poly = interpolate(&points);
    let ids = [1u8, 2, 4];
    let ys = [0x5au8, 0x13, 0xc7];
    let ps = PartialSecret::new(3, &ids, &ys);
    for x in [0u8, 3, 5, 9, 200] {
        assert_eq!(ps.evaluate_at_x(x, &ids).unwrap(), poly.evaluate_at(x));
    }
}
