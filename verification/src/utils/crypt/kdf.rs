//! Key derivation: the single-iteration, MD5-based `EVP_BytesToKey` scheme
//! that turns a passphrase and an 8-byte salt into a 256-bit key and a
//! 128-bit initialisation vector.

use super::outside::{md5, md5_digest};
use crate::utils::text::append_bytes;
use vstd::prelude::*;

verus! {

/// Length of the derived key in bytes.
pub const KEY_LEN: usize = 32;

/// Length of the derived initialisation vector in bytes.
pub const IV_LEN: usize = 16;

/// Key and initialisation vector derived from a passphrase and a salt.
/// Never stored: it is recomputed for every operation.
#[derive(Clone, Copy, Debug)]
pub struct DerivedKeyMaterial {
    pub key: [u8; 32],
    pub iv: [u8; 16],
}

/// The `round`-th digest of the derivation (counted from 0): the first one
/// hashes passphrase and salt, each later one hashes the digest before it
/// followed by passphrase and salt.
pub open spec fn kdf_block(passphrase: Seq<u8>, salt: Seq<u8>, round: nat) -> Seq<u8>
    decreases round,
{
    if round == 0 {
        md5_digest(passphrase + salt)
    } else {
        md5_digest(kdf_block(passphrase, salt, (round - 1) as nat) + passphrase + salt)
    }
}

/// The first `rounds` digests of the derivation, one after the other.
pub open spec fn kdf_stream(passphrase: Seq<u8>, salt: Seq<u8>, rounds: nat) -> Seq<u8>
    decreases rounds,
{
    if rounds == 0 {
        Seq::<u8>::empty()
    } else {
        kdf_stream(passphrase, salt, (rounds - 1) as nat) + kdf_block(
            passphrase,
            salt,
            (rounds - 1) as nat,
        )
    }
}

/// The derived key: bytes 0 to 31 of the three-digest stream.
pub open spec fn derived_key(passphrase: Seq<u8>, salt: Seq<u8>) -> Seq<u8> {
    kdf_stream(passphrase, salt, 3).subrange(0, 32)
}

/// The derived initialisation vector: bytes 32 to 47 of the three-digest stream.
pub open spec fn derived_iv(passphrase: Seq<u8>, salt: Seq<u8>) -> Seq<u8> {
    kdf_stream(passphrase, salt, 3).subrange(32, 48)
}

/// Whether `material` is what `passphrase` and `salt` derive.
pub open spec fn is_derived(material: DerivedKeyMaterial, passphrase: Seq<u8>, salt: Seq<u8>) -> bool {
    &&& material.key@ == derived_key(passphrase, salt)
    &&& material.iv@ == derived_iv(passphrase, salt)
}

/// Derives key and initialisation vector from `passphrase` and `salt`.
///
/// Digests are chained until 48 bytes are available; the first 32 are the
/// key and the next 16 the initialisation vector. Total: there is no input
/// on which it fails.
pub fn derive(passphrase: &[u8], salt: &[u8; 8]) -> (material: DerivedKeyMaterial)
    ensures
        is_derived(material, passphrase@, salt@),
{
    let mut stream: Vec<u8> = Vec::new();
    let mut previous: Vec<u8> = Vec::new();
    let ghost mut rounds: nat = 0;
    while stream.len() < KEY_LEN + IV_LEN
        invariant
            stream@ == kdf_stream(passphrase@, salt@, rounds),
            stream@.len() == 16 * rounds,
            rounds <= 3,
            rounds == 0 ==> previous@ == Seq::<u8>::empty(),
            rounds > 0 ==> previous@ == kdf_block(passphrase@, salt@, (rounds - 1) as nat),
        decreases KEY_LEN + IV_LEN - stream.len(),
    {
        let mut input: Vec<u8> = Vec::new();
        append_bytes(&mut input, previous.as_slice());
        append_bytes(&mut input, passphrase);
        append_bytes(&mut input, salt.as_slice());
        let digest = md5(input.as_slice());
        append_bytes(&mut stream, digest.as_slice());
        previous = Vec::new();
        append_bytes(&mut previous, digest.as_slice());
        proof {
            rounds = rounds + 1;
        }
    }
    let mut key = [0u8; 32];
    let mut iv = [0u8; 16];
    let mut i: usize = 0;
    while i < KEY_LEN
        invariant
            i <= KEY_LEN,
            stream@.len() == 48,
            forall|j: int| 0 <= j < i ==> key@[j] == stream@[j],
        decreases KEY_LEN - i,
    {
        key[i] = stream[i];
        i += 1;
    }
    let mut i: usize = 0;
    while i < IV_LEN
        invariant
            i <= IV_LEN,
            stream@.len() == 48,
            forall|j: int| 0 <= j < i ==> iv@[j] == stream@[32 + j],
        decreases IV_LEN - i,
    {
        iv[i] = stream[KEY_LEN + i];
        i += 1;
    }
    assert(key@ == stream@.subrange(0, 32));
    assert(iv@ == stream@.subrange(32, 48));
    DerivedKeyMaterial { key, iv }
}

/// Derivation is deterministic: whatever two calls of `derive` return for
/// the same passphrase and the same salt is the same key and the same
/// initialisation vector.
pub proof fn lemma_derive_deterministic(
    first: DerivedKeyMaterial,
    second: DerivedKeyMaterial,
    passphrase: Seq<u8>,
    salt: Seq<u8>,
)
    requires
        is_derived(first, passphrase, salt),
        is_derived(second, passphrase, salt),
    ensures
        first == second,
{
    assert(first.key == second.key);
    assert(first.iv == second.iv);
}

} // verus!
