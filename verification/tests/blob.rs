use base64::Engine;
use lanis_rs::utils::crypt::blob::{decode, decode_bytes, encode, frame, unframe, FormatError};

#[test]
fn encode_prepends_literal_and_salt() {
    let text = encode(&[1, 2, 3], b"saltsalt");
    let bytes = base64::engine::general_purpose::STANDARD.decode(&text).unwrap();
    assert_eq!(&bytes[..8], b"Salted__");
    assert_eq!(&bytes[8..16], b"saltsalt");
    assert_eq!(&bytes[16..], &[1, 2, 3]);
}

#[test]
fn encode_gives_the_expected_text() {
    let ciphertext = [
        0x52, 0x0d, 0x1d, 0xe2, 0xa2, 0xbf, 0xc2, 0x24, 0x4b, 0x94, 0x43, 0xe6, 0x40, 0x7e, 0xe0,
        0x87,
    ];
    assert_eq!(
        encode(&ciphertext, &[0u8; 8]),
        "U2FsdGVkX18AAAAAAAAAAFINHeKiv8IkS5RD5kB+4Ic="
    );
}

#[test]
fn encode_of_an_empty_ciphertext() {
    assert_eq!(encode(&[], &[0u8; 8]), "U2FsdGVkX18AAAAAAAAAAA==");
}

#[test]
fn frame_is_literal_salt_ciphertext() {
    let bytes = frame(&[9, 8, 7], b"12345678");
    assert_eq!(bytes, b"Salted__12345678\x09\x08\x07".to_vec());
}

#[test]
fn decode_gives_salt_and_ciphertext_back() {
    let text = encode(&[10, 20, 30, 40], b"abcdefgh");
    let blob = decode(&text).unwrap();
    assert_eq!(&blob.salt, b"abcdefgh");
    assert_eq!(blob.ciphertext, vec![10, 20, 30, 40]);
}

#[test]
fn decode_rejects_what_is_not_base64() {
    assert_eq!(decode("this is not base64!").unwrap_err(), FormatError::Base64);
    assert_eq!(decode("U2FsdGVkX18").unwrap_err(), FormatError::Base64);
    assert_eq!(decode_bytes(&[0xff, 0xfe]).unwrap_err(), FormatError::Base64);
}

#[test]
fn decode_rejects_a_missing_literal() {
    let text = base64::engine::general_purpose::STANDARD.encode(b"Pepper__saltsalt0123456789abcdef");
    assert_eq!(decode(&text).unwrap_err(), FormatError::NotSalted);
    let text = base64::engine::general_purpose::STANDARD.encode(b"salted__saltsalt0123456789abcdef");
    assert_eq!(decode(&text).unwrap_err(), FormatError::NotSalted);
}

#[test]
fn decode_rejects_short_input() {
    assert_eq!(decode("").unwrap_err(), FormatError::NotSalted);
    let text = base64::engine::general_purpose::STANDARD.encode(b"Salted_");
    assert_eq!(decode(&text).unwrap_err(), FormatError::NotSalted);
    let text = base64::engine::general_purpose::STANDARD.encode(b"Salted__");
    assert_eq!(decode(&text).unwrap_err(), FormatError::NotSalted);
    let text = base64::engine::general_purpose::STANDARD.encode(b"Salted__1234567");
    assert_eq!(decode(&text).unwrap_err(), FormatError::NotSalted);
}

#[test]
fn decode_takes_a_header_without_ciphertext() {
    let text = base64::engine::general_purpose::STANDARD.encode(b"Salted__12345678");
    let blob = decode(&text).unwrap();
    assert_eq!(&blob.salt, b"12345678");
    assert!(blob.ciphertext.is_empty());
}

#[test]
fn unframe_splits_at_sixteen() {
    let blob = unframe(b"Salted__ABCDEFGHrest").unwrap();
    assert_eq!(&blob.salt, b"ABCDEFGH");
    assert_eq!(blob.ciphertext, b"rest".to_vec());
    assert_eq!(unframe(b"Salted_ ABCDEFGHrest").unwrap_err(), FormatError::NotSalted);
}
