//! Calls into outside code: the cryptographic crates, the random
//! generator and two functions of the standard library. Every contract in
//! this file is believed, not proved: it restates what the called code
//! documents.

use super::padding::{pkcs7_padded, pkcs7_unpadded};
use aes::cipher::block_padding::{NoPadding, Pkcs7, UnpadError};
use aes::cipher::{BlockDecryptMut, BlockEncryptMut, KeyIvInit};
use base64::Engine;
use md5::Digest;
use rsa::pkcs8::{DecodePublicKey, EncodePrivateKey, EncodePublicKey, LineEnding};
use vstd::prelude::*;
use vstd::utf8::{decode_utf8, encode_utf8, valid_utf8};

verus! {

/// The MD5 digest of a message, as `md5::Md5` computes it.
pub uninterp spec fn md5_digest(message: Seq<u8>) -> Seq<u8>;

/// `md5::Md5::digest`: hashes the whole message in one call. The result is
/// the 16-byte MD5 digest, which depends on the message alone.
#[verifier::external_body]
pub(crate) fn md5(message: &[u8]) -> (digest: [u8; 16])
    ensures
        digest@ == md5_digest(message@),
{
    md5::Md5::digest(message).into()
}

/// The text that the standard, padded base64 alphabet gives for `data`.
pub uninterp spec fn base64_text(data: Seq<u8>) -> Seq<char>;

/// The bytes that a base64 text (given as its bytes) stands for, or `None`
/// where the standard engine rejects it.
pub uninterp spec fn base64_bytes(text: Seq<u8>) -> Option<Seq<u8>>;

/// The error of `base64::Engine::decode`.
#[verifier::external_type_specification]
#[verifier::external_body]
pub struct ExDecodeError(base64::DecodeError);

/// `base64::Engine::encode` on `general_purpose::STANDARD`. The text
/// depends on the data alone, and decoding it with the same engine gives the
/// data back. The crate panics where the encoded length overflows, so the
/// length is bounded.
#[verifier::external_body]
pub(crate) fn base64_encode(data: &[u8]) -> (text: String)
    requires
        data@.len() / 3 * 4 + 4 <= usize::MAX / 2,
    ensures
        text@ == base64_text(data@),
        base64_bytes(encode_utf8(text@)) == Some(data@),
{
    base64::engine::general_purpose::STANDARD.encode(data)
}

/// `base64::Engine::decode` on `general_purpose::STANDARD`, applied to the
/// bytes of the text. Success and the decoded bytes depend on the text alone.
#[verifier::external_body]
pub(crate) fn base64_decode(text: &[u8]) -> (decoded: Result<Vec<u8>, base64::DecodeError>)
    ensures
        match decoded {
            Ok(bytes) => base64_bytes(text@) == Some(bytes@),
            Err(_) => base64_bytes(text@) is None,
        },
{
    base64::engine::general_purpose::STANDARD.decode(text)
}

/// AES-256 in CBC mode applied to whole blocks: the ciphertext of `blocks`
/// under `key` and `iv`.
pub uninterp spec fn aes256_cbc_encrypted(key: Seq<u8>, iv: Seq<u8>, blocks: Seq<u8>) -> Seq<u8>;

/// AES-256 in CBC mode applied to whole blocks: the plaintext blocks of
/// `blocks` under `key` and `iv`, padding included.
pub uninterp spec fn aes256_cbc_decrypted(key: Seq<u8>, iv: Seq<u8>, blocks: Seq<u8>) -> Seq<u8>;

/// The error of the cipher's padded decryption.
#[verifier::external_type_specification]
#[verifier::external_body]
pub struct ExUnpadError(aes::cipher::block_padding::UnpadError);

/// `cbc::Encryptor::<aes::Aes256>::new` followed by
/// `encrypt_padded_vec_mut::<Pkcs7>`: pads the data to whole blocks and
/// encrypts them. The ciphertext is as long as the padded data, and CBC
/// decryption under the same key and vector gives the padded data back.
/// The crate allocates the padded length, which is bounded here.
#[verifier::external_body]
pub(crate) fn aes256_cbc_encrypt_padded(
    key: &[u8; 32],
    iv: &[u8; 16],
    data: &[u8],
) -> (ciphertext: Vec<u8>)
    requires
        data@.len() + 16 <= usize::MAX / 2,
    ensures
        ciphertext@ == aes256_cbc_encrypted(key@, iv@, pkcs7_padded(data@)),
        ciphertext@.len() == pkcs7_padded(data@).len(),
        aes256_cbc_decrypted(key@, iv@, ciphertext@) == pkcs7_padded(data@),
{
    cbc::Encryptor::<aes::Aes256>::new(&(*key).into(), &(*iv).into()).encrypt_padded_vec_mut::<
        Pkcs7,
    >(data)
}

/// `cbc::Decryptor::<aes::Aes256>::new` followed by
/// `decrypt_padded_vec_mut::<Pkcs7>`: fails where the input is not a whole
/// number of blocks or the decrypted blocks do not end in a well-formed
/// padding; otherwise returns the decrypted blocks without the padding.
#[verifier::external_body]
pub(crate) fn aes256_cbc_decrypt_padded(
    key: &[u8; 32],
    iv: &[u8; 16],
    ciphertext: &[u8],
) -> (plain: Result<Vec<u8>, UnpadError>)
    ensures
        match plain {
            Ok(data) => ciphertext@.len() % 16 == 0 && pkcs7_unpadded(
                aes256_cbc_decrypted(key@, iv@, ciphertext@),
            ) == Some(data@),
            Err(_) => ciphertext@.len() % 16 != 0 || pkcs7_unpadded(
                aes256_cbc_decrypted(key@, iv@, ciphertext@),
            ) is None,
        },
{
    cbc::Decryptor::<aes::Aes256>::new(&(*key).into(), &(*iv).into()).decrypt_padded_vec_mut::<
        Pkcs7,
    >(ciphertext)
}

/// `cbc::Decryptor::<aes::Aes256>::new` followed by
/// `decrypt_padded_vec_mut::<NoPadding>`: fails exactly where the input is
/// not a whole number of blocks; otherwise returns all decrypted blocks,
/// as many bytes as went in.
#[verifier::external_body]
pub(crate) fn aes256_cbc_decrypt_blocks(
    key: &[u8; 32],
    iv: &[u8; 16],
    ciphertext: &[u8],
) -> (plain: Result<Vec<u8>, UnpadError>)
    ensures
        match plain {
            Ok(blocks) => ciphertext@.len() % 16 == 0 && blocks@ == aes256_cbc_decrypted(
                key@,
                iv@,
                ciphertext@,
            ) && blocks@.len() == ciphertext@.len(),
            Err(_) => ciphertext@.len() % 16 != 0,
        },
{
    cbc::Decryptor::<aes::Aes256>::new(&(*key).into(), &(*iv).into()).decrypt_padded_vec_mut::<
        NoPadding,
    >(ciphertext)
}

/// The text that lossy decoding gives for bytes that are not valid UTF-8.
pub uninterp spec fn utf8_replaced(bytes: Seq<u8>) -> Seq<char>;

/// `String::from_utf8_lossy`, made an owned string: valid UTF-8 is decoded
/// as it stands; otherwise U+FFFD is put for what is not UTF-8, and the
/// text depends on the bytes alone.
#[verifier::external_body]
pub(crate) fn string_from_utf8_lossy(bytes: &[u8]) -> (text: String)
    ensures
        text@ == (if valid_utf8(bytes@) {
            decode_utf8(bytes@)
        } else {
            utf8_replaced(bytes@)
        }),
{
    String::from_utf8_lossy(bytes).into_owned()
}

/// A text without its leading and trailing whitespace.
pub uninterp spec fn trimmed(text: Seq<char>) -> Seq<char>;

/// `str::trim`: the slice without leading and trailing whitespace, which
/// depends on the text alone.
#[verifier::external_body]
pub(crate) fn trim(text: &str) -> (inner: &str)
    ensures
        inner@ == trimmed(text@),
{
    text.trim()
}

/// `rand::random::<[u8; 8]>()`: eight bytes from the thread's generator.
/// Nothing is known of them.
#[verifier::external_body]
pub(crate) fn random_salt() -> (salt: [u8; 8]) {
    rand::random::<[u8; 8]>()
}

/// An RSA private key of the `rsa` crate.
#[verifier::external_type_specification]
#[verifier::external_body]
pub struct ExRsaPrivateKey(rsa::RsaPrivateKey);

/// An RSA public key of the `rsa` crate.
#[verifier::external_type_specification]
#[verifier::external_body]
pub struct ExRsaPublicKey(rsa::RsaPublicKey);

/// `Clone::clone` of `rsa::RsaPrivateKey`: a copy of the key. Nothing is
/// claimed of it.
pub assume_specification[ <rsa::RsaPrivateKey as Clone>::clone ](
    key: &rsa::RsaPrivateKey,
) -> rsa::RsaPrivateKey
;

/// `Clone::clone` of `rsa::RsaPublicKey`: a copy of the key. Nothing is
/// claimed of it.
pub assume_specification[ <rsa::RsaPublicKey as Clone>::clone ](
    key: &rsa::RsaPublicKey,
) -> rsa::RsaPublicKey
;

/// `rsa::RsaPrivateKey::new` with the thread's random generator: a fresh
/// key of `key_size` bits, or `None` where the crate reports an error. The
/// outcome is random. The crate searches for primes of half that size for
/// as long as it takes, so the size is bounded by the largest modulus that
/// the crate accepts in a public key.
#[verifier::external_body]
pub(crate) fn rsa_generate(key_size: usize) -> (key: Option<rsa::RsaPrivateKey>)
    requires
        key_size <= 4096,
{
    match rsa::RsaPrivateKey::new(&mut rand::thread_rng(), key_size) {
        Ok(key) => Some(key),
        Err(_) => None,
    }
}

/// `rsa::RsaPublicKey::from`: the public half of a private key.
#[verifier::external_body]
pub(crate) fn rsa_public_half(private_key: &rsa::RsaPrivateKey) -> (public_key: rsa::RsaPublicKey) {
    rsa::RsaPublicKey::from(private_key)
}

/// `EncodePrivateKey::to_pkcs8_pem` with the default line ending: the
/// private key as PKCS#8 PEM text, or `None` where the crate reports an
/// error.
#[verifier::external_body]
pub(crate) fn rsa_private_pem(private_key: &rsa::RsaPrivateKey) -> (pem: Option<String>) {
    match private_key.to_pkcs8_pem(LineEnding::default()) {
        Ok(text) => Some(text.to_string()),
        Err(_) => None,
    }
}

/// `EncodePublicKey::to_public_key_pem` with the default line ending: the
/// public key as SPKI PEM text, or `None` where the crate reports an error.
#[verifier::external_body]
pub(crate) fn rsa_public_pem(public_key: &rsa::RsaPublicKey) -> (pem: Option<String>) {
    match public_key.to_public_key_pem(LineEnding::default()) {
        Ok(text) => Some(text),
        Err(_) => None,
    }
}

/// Whether a text is the PEM form of an RSA public key that the `rsa`
/// crate accepts.
pub uninterp spec fn is_rsa_public_pem(pem: Seq<char>) -> bool;

/// `DecodePublicKey::from_public_key_pem` for `rsa::RsaPublicKey`: parses
/// SPKI PEM text, with `None` for the crate's error. Whether it succeeds
/// depends on the text alone.
#[verifier::external_body]
pub(crate) fn rsa_public_from_pem(pem: &str) -> (key: Option<rsa::RsaPublicKey>)
    ensures
        match key {
            Some(_) => is_rsa_public_pem(pem@),
            None => !is_rsa_public_pem(pem@),
        },
{
    match rsa::RsaPublicKey::from_public_key_pem(pem) {
        Ok(key) => Some(key),
        Err(_) => None,
    }
}

/// The length in bytes of the modulus of the RSA public key that a PEM text
/// holds.
pub uninterp spec fn rsa_modulus_len(pem: Seq<char>) -> nat;

/// `rsa::RsaPublicKey::encrypt` with `Pkcs1v15Encrypt` and the thread's
/// random generator, under the key that `DecodePublicKey::from_public_key_pem`
/// reads from `pem`, with `None` for either error. The crate encrypts
/// exactly the messages that, with 11 bytes of padding, are no longer than
/// the key's modulus, and the ciphertext is as long as the modulus. The
/// padding is random, so nothing else is said of the ciphertext. The
/// crate's length check adds 11 to the message length, which must not
/// overflow.
#[verifier::external_body]
pub(crate) fn rsa_encrypt_under(pem: &str, message: &[u8]) -> (sealed: Option<Vec<u8>>)
    requires
        message@.len() + 11 <= usize::MAX,
    ensures
        match sealed {
            Some(bytes) => is_rsa_public_pem(pem@) && message@.len() + 11 <= rsa_modulus_len(
                pem@,
            ) && bytes@.len() == rsa_modulus_len(pem@),
            None => !is_rsa_public_pem(pem@) || message@.len() + 11 > rsa_modulus_len(pem@),
        },
{
    match rsa::RsaPublicKey::from_public_key_pem(pem) {
        Ok(key) => match key.encrypt(&mut rand::thread_rng(), rsa::Pkcs1v15Encrypt, message) {
            Ok(sealed) => Some(sealed),
            Err(_) => None,
        },
        Err(_) => None,
    }
}

} // verus!
