//! The portal's application-layer encryption scheme.

pub mod blob;
pub mod cipher;
pub mod documents;
pub mod handshake;
pub mod kdf;
pub mod keys;
pub mod outside;
pub mod padding;
pub mod secret;
pub mod tags;

pub use self::cipher::{
    decrypt_lanis_data, decrypt_lanis_string_with_key, decrypt_lanis_with_key,
    encrypt_lanis_data, encrypt_lanis_data_with_salt, CryptorError,
};
pub use self::keys::LanisKeyPair;
pub use self::secret::{decrypt_any, encrypt_any};
pub use self::tags::decrypt_lanis_encoded_tags;
