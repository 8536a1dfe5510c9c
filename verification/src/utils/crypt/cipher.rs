//! The symmetric cipher: AES-256 in CBC mode under a key derived from a
//! passphrase and a salt, with PKCS#7 padding for payloads and without
//! padding for blocks that a foreign counterpart produced.

use super::blob::{
    decode_bytes, decoded, encode, encoded, magic, unframe, unframed, FormatError, SaltedBlob,
    SaltedBlobView,
};
use super::kdf::{derived_iv, derived_key};
use super::outside::{
    aes256_cbc_decrypt_blocks, aes256_cbc_decrypt_padded, aes256_cbc_decrypted,
    aes256_cbc_encrypt_padded, aes256_cbc_encrypted, base64_bytes, base64_decode, random_salt,
    string_from_utf8_lossy, trim, trimmed,
};
use super::padding::{lemma_padded_len, lemma_unpad_pad, pkcs7_padded, pkcs7_unpadded};
use crate::utils::text::lossy_text;
use vstd::prelude::*;
use vstd::utf8::encode_utf8;

verus! {

/// What can go wrong in this module and around it.
#[derive(Clone, Copy, Debug, PartialEq, Eq, Structural)]
pub enum CryptorError {
    /// A request did not reach the portal or brought no answer.
    Network,
    /// A text was not of the expected structure.
    Format(FormatError),
    /// Encryption failed: the message is too long for the key.
    Encryption,
    /// Decryption failed: broken length or broken padding.
    Decryption,
    /// The portal's challenge did not decrypt to the own public key.
    HandshakeFailed,
    /// A value could not be serialized.
    Serialization,
    /// Decrypted bytes are not a serialized value of the expected shape.
    Deserialization,
}

/// The ciphertext of `data` under the key material derived from
/// `passphrase` and `salt`.
pub open spec fn sealed(data: Seq<u8>, passphrase: Seq<u8>, salt: Seq<u8>) -> Seq<u8> {
    aes256_cbc_encrypted(
        derived_key(passphrase, salt),
        derived_iv(passphrase, salt),
        pkcs7_padded(data),
    )
}

/// The blob text of `data` under `passphrase` and `salt`.
pub open spec fn encrypted_text(data: Seq<u8>, passphrase: Seq<u8>, salt: Seq<u8>) -> Seq<char> {
    encoded(salt, sealed(data, passphrase, salt))
}

/// The decrypted blocks of a blob, padding included: `Decryption` where the
/// ciphertext is not a whole number of blocks.
pub open spec fn opened_blocks(
    blob: SaltedBlobView,
    passphrase: Seq<u8>,
) -> Result<Seq<u8>, CryptorError> {
    if blob.ciphertext.len() % 16 != 0 {
        Err(CryptorError::Decryption)
    } else {
        Ok(
            aes256_cbc_decrypted(
                derived_key(passphrase, blob.salt),
                derived_iv(passphrase, blob.salt),
                blob.ciphertext,
            ),
        )
    }
}

/// The payload of a blob: its decrypted blocks without the padding;
/// `Decryption` where there are no whole blocks or no well-formed padding.
pub open spec fn opened(blob: SaltedBlobView, passphrase: Seq<u8>) -> Result<Seq<u8>, CryptorError> {
    match opened_blocks(blob, passphrase) {
        Err(error) => Err(error),
        Ok(blocks) => match pkcs7_unpadded(blocks) {
            None => Err(CryptorError::Decryption),
            Some(data) => Ok(data),
        },
    }
}

/// What a blob text, given as its bytes, decrypts to under `passphrase`.
pub open spec fn decrypted(text: Seq<u8>, passphrase: Seq<u8>) -> Result<Seq<u8>, CryptorError> {
    match decoded(text) {
        Err(error) => Err(CryptorError::Format(error)),
        Ok(blob) => opened(blob, passphrase),
    }
}

/// What the bytes of a blob decrypt to when no padding is removed.
pub open spec fn decrypted_blocks(
    bytes: Seq<u8>,
    passphrase: Seq<u8>,
) -> Result<Seq<u8>, CryptorError> {
    match unframed(bytes) {
        Err(error) => Err(CryptorError::Format(error)),
        Ok(blob) => opened_blocks(blob, passphrase),
    }
}

/// What a blob text decrypts to as a string when no padding is removed:
/// the decrypted blocks, decoded lossily and trimmed.
pub open spec fn decrypted_string(
    text: Seq<u8>,
    passphrase: Seq<u8>,
) -> Result<Seq<char>, CryptorError> {
    match base64_bytes(text) {
        None => Err(CryptorError::Format(FormatError::Base64)),
        Some(bytes) => match decrypted_blocks(bytes, passphrase) {
            Err(error) => Err(error),
            Ok(blocks) => Ok(trimmed(lossy_text(blocks))),
        },
    }
}

/// The view of a result that carries bytes.
pub open spec fn bytes_result_view(
    result: Result<Vec<u8>, CryptorError>,
) -> Result<Seq<u8>, CryptorError> {
    match result {
        Ok(bytes) => Ok(bytes@),
        Err(error) => Err(error),
    }
}

/// The view of a result that carries a string.
pub open spec fn text_result_view(
    result: Result<String, CryptorError>,
) -> Result<Seq<char>, CryptorError> {
    match result {
        Ok(text) => Ok(text@),
        Err(error) => Err(error),
    }
}

/// Bytes without the literal are rejected before any cipher operation: a
/// text whose decoded bytes do not begin with `Salted__` decodes to
/// `NotSalted`, and every decryption of it fails with `Format(NotSalted)`,
/// whatever the passphrase.
pub proof fn lemma_unsalted_is_rejected(text: Seq<u8>, bytes: Seq<u8>, passphrase: Seq<u8>)
    requires
        base64_bytes(text) == Some(bytes),
        bytes.len() < 8 || bytes.subrange(0, 8) != magic(),
    ensures
        decoded(text) == Err::<SaltedBlobView, FormatError>(FormatError::NotSalted),
        decrypted(text, passphrase) == Err::<Seq<u8>, CryptorError>(
            CryptorError::Format(FormatError::NotSalted),
        ),
        decrypted_blocks(bytes, passphrase) == Err::<Seq<u8>, CryptorError>(
            CryptorError::Format(FormatError::NotSalted),
        ),
        decrypted_string(text, passphrase) == Err::<Seq<char>, CryptorError>(
            CryptorError::Format(FormatError::NotSalted),
        ),
{
}

/// Encrypts `data` under `public_key` as passphrase and the given salt, and
/// returns the blob text. Decrypting that text under the same passphrase
/// gives `data` back.
pub fn encrypt_lanis_data_with_salt(
    data: &[u8],
    public_key: &String,
    salt: &[u8; 8],
) -> (text: String)
    requires
        data@.len() + 16 <= usize::MAX / 4,
    ensures
        text@ == encrypted_text(data@, encode_utf8(public_key@), salt@),
        decrypted(encode_utf8(text@), encode_utf8(public_key@)) == Ok::<
            Seq<u8>,
            CryptorError,
        >(data@),
{
    let material = crate::utils::crypt::kdf::derive(public_key.as_str().as_bytes(), salt);
    proof {
        lemma_padded_len(data@);
        lemma_unpad_pad(data@);
    }
    let ciphertext = aes256_cbc_encrypt_padded(&material.key, &material.iv, data);
    encode(ciphertext.as_slice(), salt)
}

/// Encrypts `data` under `public_key` as passphrase and a fresh random
/// salt. Whatever the salt, decrypting the text under the same passphrase
/// gives `data` back.
pub fn encrypt_lanis_data(data: &[u8], public_key: &String) -> (text: String)
    requires
        data@.len() + 16 <= usize::MAX / 4,
    ensures
        exists|salt: Seq<u8>|
            salt.len() == 8 && text@ == #[trigger] encrypted_text(
                data@,
                encode_utf8(public_key@),
                salt,
            ),
        decrypted(encode_utf8(text@), encode_utf8(public_key@)) == Ok::<
            Seq<u8>,
            CryptorError,
        >(data@),
{
    let salt = random_salt();
    let text = encrypt_lanis_data_with_salt(data, public_key, &salt);
    assert(salt@.len() == 8 && text@ == encrypted_text(data@, encode_utf8(public_key@), salt@));
    text
}

/// Decrypts a decoded blob and removes the padding.
fn open_blob(blob: &SaltedBlob, passphrase: &[u8]) -> (result: Result<Vec<u8>, CryptorError>)
    ensures
        bytes_result_view(result) == opened(blob@, passphrase@),
{
    let material = crate::utils::crypt::kdf::derive(passphrase, &blob.salt);
    match aes256_cbc_decrypt_padded(&material.key, &material.iv, blob.ciphertext.as_slice()) {
        Ok(data) => Ok(data),
        Err(_) => Err(CryptorError::Decryption),
    }
}

/// Decrypts a decoded blob and keeps the padding.
fn open_blob_blocks(blob: &SaltedBlob, passphrase: &[u8]) -> (result: Result<Vec<u8>, CryptorError>)
    ensures
        bytes_result_view(result) == opened_blocks(blob@, passphrase@),
{
    let material = crate::utils::crypt::kdf::derive(passphrase, &blob.salt);
    match aes256_cbc_decrypt_blocks(&material.key, &material.iv, blob.ciphertext.as_slice()) {
        Ok(blocks) => Ok(blocks),
        Err(_) => Err(CryptorError::Decryption),
    }
}

/// Decrypts a blob text, given as its bytes, under `passphrase` and removes
/// the PKCS#7 padding. Fails as `decrypt_lanis_data` does.
pub fn decrypt_text(text: &[u8], passphrase: &[u8]) -> (result: Result<Vec<u8>, CryptorError>)
    ensures
        bytes_result_view(result) == decrypted(text@, passphrase@),
{
    match decode_bytes(text) {
        Err(error) => Err(CryptorError::Format(error)),
        Ok(blob) => open_blob(&blob, passphrase),
    }
}

/// Decrypts a blob text under `public_key` as passphrase and removes the
/// PKCS#7 padding.
///
/// Fails with `Format(Base64)` where the text is not base64, with
/// `Format(NotSalted)` where the decoded bytes lack the header (no cipher
/// operation is attempted then), and with `Decryption` where the ciphertext
/// is not a whole number of blocks or the padding is malformed.
pub fn decrypt_lanis_data(data: &str, public_key: &String) -> (result: Result<Vec<u8>, CryptorError>)
    ensures
        bytes_result_view(result) == decrypted(encode_utf8(data@), encode_utf8(public_key@)),
{
    decrypt_text(data.as_bytes(), public_key.as_str().as_bytes())
}

/// Decrypts the bytes of a blob under `public_key` as passphrase and
/// removes no padding: for ciphertext of a counterpart whose padding is not
/// known to be PKCS#7.
///
/// Fails with `Format(NotSalted)` where the bytes lack the header, and with
/// `Decryption` where the ciphertext is not a whole number of blocks.
pub fn decrypt_lanis_with_key(
    data: &Vec<u8>,
    public_key: &String,
) -> (result: Result<Vec<u8>, CryptorError>)
    ensures
        bytes_result_view(result) == decrypted_blocks(data@, encode_utf8(public_key@)),
{
    match unframe(data.as_slice()) {
        Err(error) => Err(CryptorError::Format(error)),
        Ok(blob) => open_blob_blocks(&blob, public_key.as_str().as_bytes()),
    }
}

/// Decrypts a blob text under `public_key` as passphrase without removing
/// padding, decodes the blocks as UTF-8, replacing what is not, and trims
/// the text.
///
/// Fails with `Format(Base64)` where the text is not base64, and as
/// `decrypt_lanis_with_key` does on the decoded bytes.
pub fn decrypt_lanis_string_with_key(
    data: &str,
    public_key: &String,
) -> (result: Result<String, CryptorError>)
    ensures
        text_result_view(result) == decrypted_string(encode_utf8(data@), encode_utf8(public_key@)),
{
    match base64_decode(data.as_bytes()) {
        Err(_) => Err(CryptorError::Format(FormatError::Base64)),
        Ok(bytes) => match decrypt_lanis_with_key(&bytes, public_key) {
            Err(error) => Err(error),
            Ok(blocks) => {
                let text = string_from_utf8_lossy(blocks.as_slice());
                Ok(trim(text.as_str()).to_owned())
            },
        },
    }
}

} // verus!
