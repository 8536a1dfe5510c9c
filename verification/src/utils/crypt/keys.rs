//! The session's RSA key pair: generated once, exported as PEM text, and
//! completed by the token under which the portal accepted it.

use super::outside::{rsa_generate, rsa_private_pem, rsa_public_half, rsa_public_pem};
use crate::Error;
use vstd::prelude::*;

verus! {

/// A generated key pair with both keys as PEM text, before the handshake.
pub struct KeyMaterial {
    pub private_key: rsa::RsaPrivateKey,
    pub public_key: rsa::RsaPublicKey,
    /// Private key as PKCS#8 PEM
    pub private_key_string: String,
    /// Public key as SPKI PEM
    pub public_key_string: String,
}

/// The key pair of a session. After the handshake its public key text is
/// the passphrase of every blob exchanged with the portal.
#[derive(Clone, Eq, PartialEq, Hash, Debug)]
pub struct LanisKeyPair {
    pub private_key: rsa::RsaPrivateKey,
    pub public_key: rsa::RsaPublicKey,
    /// Private key as PKCS#8 PEM
    pub private_key_string: String,
    /// Public key as SPKI PEM
    pub public_key_string: String,
    /// The own public key, encrypted under the portal's key and encoded: the
    /// token under which the portal accepted the handshake
    pub public_key_lanis: String,
}

impl LanisKeyPair {
    /// The key pair of a session whose handshake the portal accepted under
    /// `public_key_lanis`.
    pub fn new(material: KeyMaterial, public_key_lanis: String) -> (pair: LanisKeyPair)
        ensures
            pair.private_key == material.private_key,
            pair.public_key == material.public_key,
            pair.private_key_string == material.private_key_string,
            pair.public_key_string == material.public_key_string,
            pair.public_key_lanis == public_key_lanis,
    {
        LanisKeyPair {
            private_key: material.private_key,
            public_key: material.public_key,
            private_key_string: material.private_key_string,
            public_key_string: material.public_key_string,
            public_key_lanis,
        }
    }
}

/// The largest modulus, in bits, that is generated: the largest that the
/// `rsa` crate accepts in a public key.
pub const MAX_KEY_BITS: usize = 4096;

/// The message of the error for a key that could not be generated.
pub open spec fn generation_failed() -> Seq<char> {
    "Failed to generate Private key!"@
}

/// The message of the error for a key that could not be exported.
pub open spec fn export_failed() -> Seq<char> {
    "Failed to convert private key and/or public key to pkcs8 pem!"@
}

/// Whether `error` is the one for a key that could not be generated.
pub open spec fn is_generation_error(error: Error) -> bool {
    error matches Error::Crypto(message) && message@ == generation_failed()
}

/// Whether `error` is the one for a key that could not be exported.
pub open spec fn is_export_error(error: Error) -> bool {
    error matches Error::Parsing(message) && message@ == export_failed()
}

/// Puts a generated key and its exports together. Succeeds exactly where
/// both exports did; otherwise the error is `Parsing`.
pub fn assemble_key_material(
    private_key: rsa::RsaPrivateKey,
    public_key: rsa::RsaPublicKey,
    private_pem: Option<String>,
    public_pem: Option<String>,
) -> (result: Result<KeyMaterial, Error>)
    ensures
        match result {
            Ok(material) => material.private_key == private_key && material.public_key
                == public_key && private_pem == Some(material.private_key_string) && public_pem
                == Some(material.public_key_string),
            Err(error) => (private_pem is None || public_pem is None) && is_export_error(error),
        },
{
    match (private_pem, public_pem) {
        (Some(private_key_string), Some(public_key_string)) => Ok(
            KeyMaterial { private_key, public_key, private_key_string, public_key_string },
        ),
        _ => Err(
            Error::Parsing(
                "Failed to convert private key and/or public key to pkcs8 pem!".to_owned(),
            ),
        ),
    }
}

/// Generates an RSA key pair with a modulus of `key_size` bits and exports
/// both keys as PEM text. The keys are random; where generation fails, as
/// it does for every size above `MAX_KEY_BITS`, the error is `Crypto`;
/// where an export fails it is `Parsing`.
pub fn generate_key_material(key_size: usize) -> (result: Result<KeyMaterial, Error>)
    ensures
        match result {
            Ok(_) => key_size <= MAX_KEY_BITS,
            Err(error) => is_generation_error(error) || (key_size <= MAX_KEY_BITS
                && is_export_error(error)),
        },
{
    if key_size > MAX_KEY_BITS {
        return Err(Error::Crypto("Failed to generate Private key!".to_owned()));
    }
    match rsa_generate(key_size) {
        None => Err(Error::Crypto("Failed to generate Private key!".to_owned())),
        Some(private_key) => {
            let public_key = rsa_public_half(&private_key);
            let private_pem = rsa_private_pem(&private_key);
            let public_pem = rsa_public_pem(&public_key);
            assemble_key_material(private_key, public_key, private_pem, public_pem)
        },
    }
}

} // verus!
