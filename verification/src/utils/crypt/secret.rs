//! Secrets at rest: serialized values encrypted under a caller-held 32-byte
//! key and a fixed all-zero initialisation vector, without salt and without
//! header. Equal data under an equal key gives equal ciphertext.

use super::cipher::{bytes_result_view, CryptorError};
use super::outside::{
    aes256_cbc_decrypt_padded, aes256_cbc_decrypted, aes256_cbc_encrypt_padded,
    aes256_cbc_encrypted,
};
use super::padding::{lemma_padded_len, lemma_unpad_pad, pkcs7_padded, pkcs7_unpadded};
use vstd::prelude::*;

verus! {

/// The fixed initialisation vector: sixteen zero bytes.
pub open spec fn zero_iv() -> Seq<u8> {
    Seq::new(16, |i: int| 0u8)
}

/// The ciphertext of serialized `data` under `key`.
pub open spec fn secret_sealed(data: Seq<u8>, key: Seq<u8>) -> Seq<u8> {
    aes256_cbc_encrypted(key, zero_iv(), pkcs7_padded(data))
}

/// What `bytes` decrypt to under `key`: `Decryption` where they are not a
/// whole number of blocks or the decrypted blocks have no well-formed
/// padding.
pub open spec fn secret_opened(bytes: Seq<u8>, key: Seq<u8>) -> Result<Seq<u8>, CryptorError> {
    if bytes.len() % 16 != 0 {
        Err(CryptorError::Decryption)
    } else {
        match pkcs7_unpadded(aes256_cbc_decrypted(key, zero_iv(), bytes)) {
            None => Err(CryptorError::Decryption),
            Some(data) => Ok(data),
        }
    }
}

/// Encrypts the serialized form of a value under `key`. The result is the
/// bare ciphertext, a whole number of blocks, and decrypts under the same
/// key to `data`.
pub fn encrypt_any(data: &[u8], key: &[u8; 32]) -> (bytes: Vec<u8>)
    requires
        data@.len() + 16 <= usize::MAX / 2,
    ensures
        bytes@ == secret_sealed(data@, key@),
        bytes@.len() == (data@.len() / 16 + 1) * 16,
        secret_opened(bytes@, key@) == Ok::<Seq<u8>, CryptorError>(data@),
{
    let iv = [0u8; 16];
    assert(iv@ == zero_iv());
    proof {
        lemma_padded_len(data@);
        lemma_unpad_pad(data@);
    }
    aes256_cbc_encrypt_padded(key, &iv, data)
}

/// Decrypts what `encrypt_any` produced and returns the serialized form.
/// Fails with `Decryption` exactly where `data` is not a whole number of
/// blocks or the decrypted blocks do not end in a well-formed padding, as
/// under a wrong key.
pub fn decrypt_any(data: &[u8], key: &[u8; 32]) -> (result: Result<Vec<u8>, CryptorError>)
    ensures
        bytes_result_view(result) == secret_opened(data@, key@),
{
    let iv = [0u8; 16];
    assert(iv@ == zero_iv());
    match aes256_cbc_decrypt_padded(key, &iv, data) {
        Ok(plain) => Ok(plain),
        Err(_) => Err(CryptorError::Decryption),
    }
}

} // verus!
