//! End-to-end splitting and recovery scenarios.

use rusty_secrets::errors::Error;
use rusty_secrets::sss;
use rusty_secrets::validation::process_and_validate_shares;
use rusty_secrets::wrapped_secrets;

#[test]
fn two_of_three_roundtrip_with_first_and_third_share() {
    let shares = sss::generate_shares(2, 3, b"hi", false).unwrap();
    assert_eq!(shares.len(), 3);
    let subset = vec![shares[0].clone(), shares[2].clone()];
    let recovered = sss::recover_secret(&subset, false).unwrap();
    assert_eq!(recovered, vec![0x68u8, 0x69]);
}

#[test]
fn one_share_below_threshold_is_missing_shares() {
    let shares = sss::generate_shares(2, 3, b"hi", false).unwrap();
    let subset = vec![shares[1].clone()];
    let err = sss::recover_secret(&subset, false).unwrap_err();
    assert_eq!(err, Error::MissingShares(2, 1));
}

#[test]
fn fixed_vectors_recover_without_verification() {
    let share1 = "2-1-Cha7s14Q/mSwWko0ittr+/Uf79RHQMIP".to_string();
    let share2 = "2-4-ChaydsUJDypD9ZWxwvIICh/cmZvzusOF".to_string();
    let recovered = sss::recover_secret(&[share1.clone(), share2.clone()], false).unwrap();
    let expected: Vec<u8> = vec![
        0x4f, 0x7b, 0xd7, 0xb3, 0x9c, 0x72, 0x76, 0x79, 0xd7, 0xbb, 0x6b, 0x81, 0x74, 0x99,
        0x90, 0x20, 0xa6, 0x90, 0x63, 0x72, 0x90, 0x83,
    ];
    assert_eq!(recovered, expected);
    // The payload these historical lines carry is not an envelope, so the
    // wrapped variant refuses it.
    let err = wrapped_secrets::recover_secret(vec![share1, share2], false).unwrap_err();
    assert_eq!(err, Error::SecretDeserialization);
}

#[test]
fn degenerate_threshold_one_carries_the_envelope_in_every_share() {
    let shares = wrapped_secrets::generate_shares(1, 5, b"abc", None, false).unwrap();
    assert_eq!(shares.len(), 5);
    let envelope = vec![0x12u8, 0x03, 0x61, 0x62, 0x63];
    let (k, pairs) = process_and_validate_shares(shares.clone(), false).unwrap();
    assert_eq!(k, 1);
    assert_eq!(pairs.len(), 1);
    assert_eq!(pairs[0].1, envelope);
    // Duplicate data across shares must be tolerated at threshold 1.
    let secret = wrapped_secrets::recover_secret(shares, false).unwrap();
    assert_eq!(secret.secret, b"abc".to_vec());
    assert_eq!(secret.mime_type, None);
}

#[test]
fn shares_of_two_dealings_are_incompatible() {
    let a = sss::generate_shares(2, 3, b"first secret", false).unwrap();
    let b = sss::generate_shares(3, 5, b"other secret", false).unwrap();
    // Identifiers must not collide, or duplicate detection fires first.
    let mixed = vec![a[0].clone(), a[1].clone(), b[2].clone(), b[3].clone()];
    let err = sss::recover_secret(&mixed, false).unwrap_err();
    assert!(matches!(err, Error::IncompatibleSets(_)), "got {err:?}");
}

#[test]
fn wrapped_roundtrip_with_mime_type() {
    let shares =
        wrapped_secrets::generate_shares(3, 5, b"room101", Some("text/plain".to_string()), false)
            .unwrap();
    let subset = vec![shares[4].clone(), shares[1].clone(), shares[2].clone()];
    let secret = wrapped_secrets::recover_secret(subset, false).unwrap();
    assert_eq!(secret.secret, b"room101".to_vec());
    assert_eq!(secret.mime_type, Some("text/plain".to_string()));
}

#[test]
fn empty_secret_shares_collide_as_duplicate_data() {
    // Every share of an empty secret carries empty data, and duplicate
    // data is rejected whenever the threshold is above one.
    let shares = sss::generate_shares(2, 2, b"", false).unwrap();
    let err = sss::recover_secret(&shares, false).unwrap_err();
    assert_eq!(err, Error::DuplicateShareData(2));
}

#[test]
fn parameter_errors() {
    assert_eq!(
        sss::generate_shares(0, 3, b"x", false).unwrap_err(),
        Error::InvalidSplitParametersZero(0, 3)
    );
    assert_eq!(
        sss::generate_shares(2, 0, b"x", false).unwrap_err(),
        Error::InvalidSplitParametersZero(2, 0)
    );
    assert_eq!(
        sss::generate_shares(4, 3, b"x", false).unwrap_err(),
        Error::InvalidThreshold(4, 3)
    );
    assert_eq!(
        wrapped_secrets::generate_shares(7, 5, b"x", None, false).unwrap_err(),
        Error::InvalidThreshold(7, 5)
    );
}

#[test]
fn empty_share_list_is_rejected() {
    let err = sss::recover_secret(&[], false).unwrap_err();
    assert_eq!(err, Error::EmptyShares);
}

#[test]
fn the_same_share_twice_is_a_duplicate_id() {
    let shares = sss::generate_shares(2, 3, b"hi", false).unwrap();
    let twice = vec![shares[0].clone(), shares[0].clone()];
    let err = sss::recover_secret(&twice, false).unwrap_err();
    assert_eq!(err, Error::DuplicateShareId(1));
}

#[test]
fn empty_secret_splits_and_recovers_at_threshold_one() {
    // With a threshold of one no random bytes are drawn, so the split is
    // owed success even for an empty secret, and equal data is tolerated.
    let shares = sss::generate_shares(1, 3, b"", false).unwrap();
    let recovered = sss::recover_secret(&shares, false).unwrap();
    assert_eq!(recovered, Vec::<u8>::new());
}

#[test]
fn signing_requests_report_the_signer_unavailable() {
    // The Merkle one-time-signature primitive is linked by the application
    // layer; the library-level split reports it like a randomness failure.
    let err = sss::generate_shares(3, 5, b"secret", true).unwrap_err();
    assert_eq!(err, Error::CannotGenerateRandomNumbers);
}
