//! The validation pipeline on hand-built share sets, and the structural
//! side of signature checking.

use rusty_secrets::errors::Error;
use rusty_secrets::share::{share_from_string, Share, SignaturePair};
use rusty_secrets::sss;
use rusty_secrets::validation::{validate_shares, validate_signed_shares};

fn share(id: u8, k: u8, data: &[u8]) -> Share {
    Share { id, k, data: data.to_vec(), signature_pair: None }
}

fn signed_share(id: u8, k: u8, data: &[u8], root: &[u8]) -> Share {
    let mut proof = vec![0x0a, root.len() as u8];
    proof.extend_from_slice(root);
    Share {
        id,
        k,
        data: data.to_vec(),
        signature_pair: Some(SignaturePair { signature: vec![vec![1, 2, 3]], proof }),
    }
}

#[test]
fn a_consistent_set_validates() {
    let set = vec![share(1, 2, b"ab"), share(2, 2, b"cd"), share(3, 2, b"ef")];
    let (k, kept) = validate_shares(set).unwrap();
    assert_eq!(k, 2);
    assert_eq!(kept.len(), 3);
}

#[test]
fn duplicate_data_is_rejected_above_threshold_one() {
    let set = vec![share(1, 2, b"same"), share(2, 2, b"same")];
    let err = validate_shares(set).unwrap_err();
    assert_eq!(err, Error::DuplicateShareData(2));
}

#[test]
fn duplicate_data_is_tolerated_at_threshold_one() {
    let set = vec![share(1, 1, b"same"), share(2, 1, b"same")];
    let (k, kept) = validate_shares(set).unwrap();
    assert_eq!(k, 1);
    assert_eq!(kept.len(), 2);
}

#[test]
fn duplicate_id_wins_over_duplicate_data() {
    let set = vec![share(1, 2, b"same"), share(1, 2, b"same")];
    let err = validate_shares(set).unwrap_err();
    assert_eq!(err, Error::DuplicateShareId(1));
}

#[test]
fn threshold_disagreement_reports_the_groups() {
    let set = vec![share(1, 2, b"ab"), share(2, 3, b"cd"), share(3, 2, b"ef")];
    let err = validate_shares(set).unwrap_err();
    assert_eq!(err, Error::IncompatibleSets(vec![vec![1, 3], vec![2]]));
}

#[test]
fn missing_shares_carries_required_then_provided() {
    let set = vec![share(1, 3, b"ab"), share(2, 3, b"cd")];
    let err = validate_shares(set).unwrap_err();
    assert_eq!(err, Error::MissingShares(3, 2));
}

#[test]
fn signature_structure_requires_a_signature_on_every_share() {
    let set = vec![signed_share(1, 2, b"ab", b"root"), share(2, 2, b"cd")];
    let err = validate_signed_shares(set, true).unwrap_err();
    assert_eq!(err, Error::MissingSignature(2));
}

#[test]
fn signature_structure_requires_one_root() {
    let set = vec![signed_share(1, 2, b"ab", b"roota"), signed_share(2, 2, b"cd", b"rootb")];
    let err = validate_signed_shares(set, true).unwrap_err();
    assert!(matches!(err, Error::IncompatibleSets(_)), "got {err:?}");
}

#[test]
fn agreeing_roots_pass_the_structural_check() {
    let set = vec![signed_share(1, 2, b"ab", b"root"), signed_share(2, 2, b"cd", b"root")];
    let (k, kept) = validate_signed_shares(set, true).unwrap();
    assert_eq!(k, 2);
    assert_eq!(kept.len(), 2);
}

#[test]
fn a_signed_share_survives_its_text_form() {
    let built = signed_share(2, 3, b"payload bytes", b"merkle root");
    let line = built.clone().into_string();
    let parsed = share_from_string(&line, 0, true).unwrap();
    assert_eq!(parsed.id, 2);
    assert_eq!(parsed.k, 3);
    assert_eq!(parsed.data, b"payload bytes".to_vec());
    let pair = parsed.signature_pair.unwrap();
    assert_eq!(pair.signature, vec![vec![1, 2, 3]]);
    assert_eq!(pair.proof, built.signature_pair.unwrap().proof);
}

#[test]
fn an_identifier_of_zero_is_outside_the_valid_range() {
    let set = vec![share(0, 1, b"x")];
    let err = rusty_secrets::sss::recover_secret_from_shares(set, false).unwrap_err();
    assert_eq!(err, Error::ShareIdentifierTooBig(0, 255));
}

#[test]
fn an_unsigned_line_parsed_as_signed_misses_its_signature() {
    let shares = sss::generate_shares(2, 2, b"hi", false).unwrap();
    let err = sss::recover_secret(&shares, true).unwrap_err();
    assert_eq!(err, Error::MissingSignature(0));
}
