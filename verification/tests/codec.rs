//! The share text format and its building blocks.

use rusty_secrets::encode::{b64_decode_range, b64_encode};
use rusty_secrets::errors::Error;
use rusty_secrets::share::{share_from_string, share_string_from, format_share_for_signing};

#[test]
fn base64_encodes_without_padding() {
    assert_eq!(b64_encode(b"hello"), b"aGVsbG8".to_vec());
    assert_eq!(b64_encode(b""), Vec::<u8>::new());
    assert_eq!(b64_encode(&[0xff, 0xee, 0xdd, 0xcc]), b"/+7dzA".to_vec());
}

#[test]
fn base64_decodes_its_own_output() {
    let cases: [&[u8]; 5] = [b"", b"a", b"ab", b"abc", b"the quick brown fox"];
    for &case in &cases {
        let enc = String::from_utf8(b64_encode(case)).unwrap();
        let dec = b64_decode_range(&enc, 0, enc.chars().count()).unwrap();
        assert_eq!(dec, case.to_vec());
    }
}

#[test]
fn base64_rejects_padding_and_foreign_characters() {
    for bad in ["QQ==", "Q", "....", "AAAA*"] {
        assert!(b64_decode_range(bad, 0, bad.chars().count()).is_none(), "{bad}");
    }
}

#[test]
fn share_line_has_the_documented_shape() {
    let line = share_string_from(vec![1, 2, 3], 2, 1, None);
    assert_eq!(line, "2-1-CgMBAgM");
    let share = share_from_string(&line, 0, false).unwrap();
    assert_eq!(share.k, 2);
    assert_eq!(share.id, 1);
    assert_eq!(share.data, vec![1, 2, 3]);
    assert!(share.signature_pair.is_none());
}

#[test]
fn signing_message_is_the_bare_data_line() {
    let message = format_share_for_signing(2, 1, &[1, 2, 3]);
    assert_eq!(message, b"2-1-AQID".to_vec());
}

#[test]
fn malformed_lines_are_share_parsing_errors() {
    for bad in [
        "no dashes here",
        "2-1",
        "2-1-???",
        "0-1-CgMBAgM",
        "2-0-CgMBAgM",
        "256-1-CgMBAgM",
        "2-1-CgMBAgM-extra",
        "-1-CgMBAgM",
        "2--CgMBAgM",
    ] {
        let err = share_from_string(bad, 7, false).unwrap_err();
        assert_eq!(err, Error::ShareParsing(7, bad.to_string()), "{bad}");
    }
}

#[test]
fn a_payload_that_is_not_a_share_record_is_corrupted() {
    // "/w" decodes to the single byte 0xff, which opens no data field.
    let err = share_from_string("2-1-/w", 3, false).unwrap_err();
    assert_eq!(err, Error::CorruptedShare(3));
}

#[test]
fn three_digit_thresholds_parse() {
    let line = share_string_from(vec![9], 255, 254, None);
    assert_eq!(line, "255-254-CgEJ");
    let share = share_from_string(&line, 0, false).unwrap();
    assert_eq!(share.k, 255);
    assert_eq!(share.id, 254);
}
