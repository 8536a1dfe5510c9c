use lanis_rs::utils::crypt::{decrypt_any, encrypt_any, CryptorError};

fn hex(bytes: &[u8]) -> String {
    let mut text = String::new();
    for byte in bytes {
        text.push_str(&format!("{:02x}", byte));
    }
    text
}

#[test]
fn test_encryption() {
    let text = String::from("Some text that is worth keeping secret.\nIt has two lines.");
    let mut fields = serde_json::Map::new();
    fields.insert(String::from("text"), serde_json::Value::String(text));
    let data = serde_json::Value::Object(fields);
    let key = b"ILikeToast12!EncryptionIsSoNice!";

    let serialized = serde_json::to_vec(&data).unwrap();
    let encrypted = encrypt_any(&serialized, key);
    let decrypted = decrypt_any(&encrypted, key).unwrap();
    let restored: serde_json::Value = serde_json::from_slice(&decrypted).unwrap();

    assert_eq!(data, restored);
}

#[test]
fn secret_has_the_expected_ciphertext() {
    let key = b"ILikeToast12!EncryptionIsSoNice!";
    let encrypted = encrypt_any(b"{\"text\":\"hi\"}", key);
    assert_eq!(hex(&encrypted), "41ac5faecbb2c702265d7225e1c49d4f");
}

#[test]
fn secret_round_trip() {
    let key = [0x42u8; 32];
    let payloads: [&[u8]; 4] = [b"", b"1", b"sixteen bytes!!!", b"{\"school_id\":5182,\"username\":\"max\"}"];
    for payload in payloads {
        let encrypted = encrypt_any(payload, &key);
        assert_eq!(encrypted.len(), (payload.len() / 16 + 1) * 16);
        assert_eq!(decrypt_any(&encrypted, &key).unwrap(), payload.to_vec());
    }
}

#[test]
fn equal_secrets_give_equal_ciphertext() {
    let key = [7u8; 32];
    assert_eq!(encrypt_any(b"the same", &key), encrypt_any(b"the same", &key));
    assert_ne!(encrypt_any(b"the same", &key), encrypt_any(b"the same", &[8u8; 32]));
}

#[test]
fn mismatched_key_fails() {
    let key = b"ILikeToast12!EncryptionIsSoNice!";
    let other = b"ILikeToast12!EncryptionIsSoNicE!";
    let encrypted = encrypt_any(b"{\"text\":\"hi\"}", key);
    assert_eq!(decrypt_any(&encrypted, other).unwrap_err(), CryptorError::Decryption);
}

#[test]
fn secret_of_broken_length_fails() {
    let key = [1u8; 32];
    assert_eq!(decrypt_any(&[], &key).unwrap_err(), CryptorError::Decryption);
    assert_eq!(decrypt_any(&[0u8; 15], &key).unwrap_err(), CryptorError::Decryption);
    assert_eq!(decrypt_any(&[0u8; 17], &key).unwrap_err(), CryptorError::Decryption);
}
