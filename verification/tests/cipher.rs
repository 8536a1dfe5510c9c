use base64::Engine;
use lanis_rs::utils::crypt::{
    decrypt_lanis_data, decrypt_lanis_string_with_key, decrypt_lanis_with_key,
    encrypt_lanis_data, encrypt_lanis_data_with_salt, CryptorError,
};
use lanis_rs::utils::crypt::blob::FormatError;
use lanis_rs::utils::crypt::cipher::decrypt_text;

fn flip_last_byte(text: &str) -> String {
    let engine = base64::engine::general_purpose::STANDARD;
    let mut bytes = engine.decode(text).unwrap();
    let last = bytes.len() - 1;
    bytes[last] ^= 0x01;
    engine.encode(bytes)
}

#[test]
fn hello_lanis_round_trip() {
    let passphrase = String::from("test-passphrase");
    let text = encrypt_lanis_data_with_salt(b"hello lanis", &passphrase, &[0u8; 8]);
    assert_eq!(text, "U2FsdGVkX18AAAAAAAAAAFINHeKiv8IkS5RD5kB+4Ic=");
    let plain = decrypt_lanis_data(&text, &passphrase).unwrap();
    assert_eq!(plain, b"hello lanis".to_vec());
}

#[test]
fn corrupted_last_byte_is_a_decryption_error() {
    let passphrase = String::from("test-passphrase");
    let text = encrypt_lanis_data_with_salt(b"hello lanis", &passphrase, &[0u8; 8]);
    let corrupted = flip_last_byte(&text);
    assert_eq!(corrupted, "U2FsdGVkX18AAAAAAAAAAFINHeKiv8IkS5RD5kB+4IY=");
    assert_eq!(
        decrypt_lanis_data(&corrupted, &passphrase).unwrap_err(),
        CryptorError::Decryption
    );
}

#[test]
fn random_salt_round_trip() {
    let passphrase = String::from("a passphrase");
    let payloads: [&[u8]; 5] = [
        b"",
        b"x",
        b"exactly sixteen!",
        b"a payload that spans more than one block of the cipher",
        &[0x00, 0xff, 0x10, 0x0a, 0x20, 0x80],
    ];
    for payload in payloads {
        let text = encrypt_lanis_data(payload, &passphrase);
        assert_eq!(decrypt_lanis_data(&text, &passphrase).unwrap(), payload.to_vec());
    }
}

#[test]
fn fresh_salt_for_every_encryption() {
    let passphrase = String::from("a passphrase");
    let first = encrypt_lanis_data(b"same payload", &passphrase);
    let second = encrypt_lanis_data(b"same payload", &passphrase);
    assert_ne!(first, second);
    assert!(first.starts_with("U2FsdGVkX1"));
    assert!(second.starts_with("U2FsdGVkX1"));
}

#[test]
fn ciphertext_is_whole_blocks() {
    let passphrase = String::from("k");
    let engine = base64::engine::general_purpose::STANDARD;
    let empty = engine.decode(encrypt_lanis_data(b"", &passphrase)).unwrap();
    assert_eq!(empty.len(), 16 + 16);
    let fifteen = engine.decode(encrypt_lanis_data(&[7u8; 15], &passphrase)).unwrap();
    assert_eq!(fifteen.len(), 16 + 16);
    let sixteen = engine.decode(encrypt_lanis_data(&[7u8; 16], &passphrase)).unwrap();
    assert_eq!(sixteen.len(), 16 + 32);
}

#[test]
fn known_texts_with_a_given_salt() {
    let passphrase = String::from("k");
    assert_eq!(
        encrypt_lanis_data_with_salt(b"", &passphrase, b"12345678"),
        "U2FsdGVkX18xMjM0NTY3OFTnUYCeK+oov2+czbj+X0w="
    );
    assert_eq!(
        encrypt_lanis_data_with_salt(b"0123456789abcdef", &passphrase, b"12345678"),
        "U2FsdGVkX18xMjM0NTY3ODG9yLXS3DQUAyResee3YTBBR36Q5KFjzBmSyY2SIPoE"
    );
}

#[test]
fn wrong_passphrase_does_not_give_the_payload() {
    let text = encrypt_lanis_data_with_salt(b"hello lanis", &String::from("right"), &[0u8; 8]);
    let outcome = decrypt_lanis_data(&text, &String::from("wrong"));
    assert_ne!(outcome, Ok(b"hello lanis".to_vec()));
}

#[test]
fn decrypt_rejects_bad_base64() {
    let passphrase = String::from("k");
    assert_eq!(
        decrypt_lanis_data("not base64 at all", &passphrase).unwrap_err(),
        CryptorError::Format(FormatError::Base64)
    );
    assert_eq!(
        decrypt_lanis_string_with_key("not base64 at all", &passphrase).unwrap_err(),
        CryptorError::Format(FormatError::Base64)
    );
}

#[test]
fn decrypt_rejects_unsalted_bytes() {
    let passphrase = String::from("k");
    let engine = base64::engine::general_purpose::STANDARD;
    let text = engine.encode(b"NotSalt_12345678aaaaaaaaaaaaaaaa");
    assert_eq!(
        decrypt_lanis_data(&text, &passphrase).unwrap_err(),
        CryptorError::Format(FormatError::NotSalted)
    );
    assert_eq!(
        decrypt_lanis_string_with_key(&text, &passphrase).unwrap_err(),
        CryptorError::Format(FormatError::NotSalted)
    );
    assert_eq!(
        decrypt_lanis_with_key(&b"NotSalt_12345678aaaaaaaaaaaaaaaa".to_vec(), &passphrase)
            .unwrap_err(),
        CryptorError::Format(FormatError::NotSalted)
    );
    assert_eq!(
        decrypt_lanis_with_key(&b"short".to_vec(), &passphrase).unwrap_err(),
        CryptorError::Format(FormatError::NotSalted)
    );
}

#[test]
fn decrypt_rejects_broken_lengths() {
    let passphrase = String::from("k");
    let engine = base64::engine::general_purpose::STANDARD;
    let no_blocks = engine.encode(b"Salted__12345678");
    assert_eq!(
        decrypt_lanis_data(&no_blocks, &passphrase).unwrap_err(),
        CryptorError::Decryption
    );
    let ragged = engine.encode(b"Salted__12345678seventeen bytes!!");
    assert_eq!(
        decrypt_lanis_data(&ragged, &passphrase).unwrap_err(),
        CryptorError::Decryption
    );
    assert_eq!(
        decrypt_lanis_with_key(&b"Salted__12345678seventeen bytes!!".to_vec(), &passphrase)
            .unwrap_err(),
        CryptorError::Decryption
    );
    assert_eq!(
        decrypt_text(ragged.as_bytes(), b"k").unwrap_err(),
        CryptorError::Decryption
    );
}

#[test]
fn unpadded_decryption_keeps_the_padding() {
    let passphrase = String::from("test-passphrase");
    let text = encrypt_lanis_data_with_salt(b"hello lanis", &passphrase, &[0u8; 8]);
    let bytes = base64::engine::general_purpose::STANDARD.decode(&text).unwrap();
    let blocks = decrypt_lanis_with_key(&bytes, &passphrase).unwrap();
    assert_eq!(blocks, b"hello lanis\x05\x05\x05\x05\x05".to_vec());
}

#[test]
fn unpadded_decryption_of_no_blocks_is_empty() {
    let blocks =
        decrypt_lanis_with_key(&b"Salted__12345678".to_vec(), &String::from("k")).unwrap();
    assert!(blocks.is_empty());
}

#[test]
fn string_decryption_trims_whitespace() {
    let passphrase = String::from("k");
    // thirteen bytes of payload, so the padding is three bytes of 0x03
    let text = encrypt_lanis_data_with_salt(b"  some text \n", &passphrase, b"12345678");
    let decrypted = decrypt_lanis_string_with_key(&text, &passphrase).unwrap();
    assert_eq!(decrypted, "some text \n\u{3}\u{3}\u{3}");
    // four bytes of payload, so the padding is twelve form feeds, which are whitespace
    let text = encrypt_lanis_data_with_salt(b"\t ab", &passphrase, b"12345678");
    let decrypted = decrypt_lanis_string_with_key(&text, &passphrase).unwrap();
    assert_eq!(decrypted, "ab");
}

#[test]
fn string_decryption_replaces_invalid_utf8() {
    let passphrase = String::from("k");
    let payload = [b'a', 0xff, b'b', b' ', b' ', b' ', b' ', b' ', b' ', b' ', b' ', b' ', b' ', b' ', b' '];
    // fifteen bytes of payload, so the padding is one byte of 0x01
    let text = encrypt_lanis_data_with_salt(&payload, &passphrase, b"12345678");
    let decrypted = decrypt_lanis_string_with_key(&text, &passphrase).unwrap();
    assert_eq!(decrypted, format!("a\u{fffd}b{}\u{1}", " ".repeat(12)));
}
