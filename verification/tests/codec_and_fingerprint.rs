use chain_reducers::codec::{dec_digits, hex_decode, hex_encode};
use chain_reducers::fingerprint::asset_fingerprint;
use chain_reducers::EncodingError;

fn chars(s: &str) -> Vec<char> {
    s.chars().collect()
}

fn to_string(v: Vec<char>) -> String {
    v.into_iter().collect()
}

#[test]
fn hex_encode_known_bytes() {
    let b = vec![0xde, 0xad, 0xbe, 0xef, 0x00, 0x0f];
    assert_eq!(to_string(hex_encode(&b)), "deadbeef000f");
}

#[test]
fn hex_encode_agrees_with_hex_crate() {
    let b = vec![0u8, 1, 2, 3, 0x7f, 0x80, 0xff, 0x41];
    assert_eq!(to_string(hex_encode(&b)), hex::encode(&b));
}

#[test]
fn hex_round_trip() {
    let b = vec![1u8, 2, 3, 254, 255, 0, 16];
    let enc = hex_encode(&b);
    assert_eq!(hex_decode(&enc), Some(b));
}

#[test]
fn hex_decode_rejects_odd_length() {
    assert_eq!(hex_decode(&chars("abc")), None);
}

#[test]
fn hex_decode_rejects_bad_digit() {
    assert_eq!(hex_decode(&chars("zz")), None);
}

#[test]
fn hex_decode_accepts_upper_case() {
    assert_eq!(hex_decode(&chars("DEAD")), Some(vec![0xde, 0xad]));
}

#[test]
fn decimal_digits_exact() {
    assert_eq!(to_string(dec_digits(0)), "0");
    assert_eq!(to_string(dec_digits(7)), "7");
    assert_eq!(to_string(dec_digits(251)), "251");
    assert_eq!(to_string(dec_digits(18446744073709551615)), "18446744073709551615");
}

#[test]
fn fingerprint_deterministic_across_calls() {
    let p = "b0d07d45fe9514f80213f4020e5a61241458be626841cde717cb38a7";
    let n = "6e7574636f696e";
    let a = asset_fingerprint(p, n).unwrap();
    let b = asset_fingerprint(p, n).unwrap();
    assert_eq!(a, b);
}

#[test]
fn fingerprint_varies_with_inputs() {
    let p1 = "b0d07d45fe9514f80213f4020e5a61241458be626841cde717cb38a7";
    let p2 = "7eae28af2208be856f7a119668ae52a49b73725e326dc16579dcc373";
    let n1 = "6e7574636f696e";
    let n2 = "6e7574636f696d";
    let base = asset_fingerprint(p1, n1).unwrap();
    assert_ne!(base, asset_fingerprint(p2, n1).unwrap());
    assert_ne!(base, asset_fingerprint(p1, n2).unwrap());
}

#[test]
fn fingerprint_known_vector() {
    // A widely published asset-fingerprint example: an empty asset name.
    let p = "7eae28af2208be856f7a119668ae52a49b73725e326dc16579dcc373";
    let got = asset_fingerprint(p, "").unwrap();
    assert_eq!(got, "asset1rjklcrnsdzqp65wjgrg55sy9723kw09mlgvlc3");
}

#[test]
fn fingerprint_rejects_bad_hex() {
    assert_eq!(asset_fingerprint("xyz", ""), Err(EncodingError::BadHex));
    assert_eq!(asset_fingerprint("abc", ""), Err(EncodingError::BadHex));
    assert!(asset_fingerprint("ab", "cd").is_ok());
}
