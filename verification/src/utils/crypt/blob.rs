//! The salted blob: the 8-byte literal `Salted__`, an 8-byte salt and the
//! ciphertext, carried as base64 text.

use super::outside::{base64_bytes, base64_decode, base64_encode, base64_text};
use crate::utils::text::append_bytes;
use vstd::prelude::*;
use vstd::utf8::encode_utf8;

verus! {

/// Length of the header, literal and salt together.
pub const HEADER_LEN: usize = 16;

/// Why a text is not of the structure that was expected.
#[derive(Clone, Copy, Debug, PartialEq, Eq, Structural)]
pub enum FormatError {
    /// The text is not valid base64.
    Base64,
    /// The decoded bytes do not start with `Salted__` and a salt.
    NotSalted,
    /// An answer of the portal is not the expected JSON envelope.
    Json,
    /// A key is not valid PEM text.
    Pem,
}

/// A decoded blob.
#[derive(Clone, Debug)]
pub struct SaltedBlob {
    pub salt: [u8; 8],
    pub ciphertext: Vec<u8>,
}

/// What a `SaltedBlob` holds, as sequences.
pub struct SaltedBlobView {
    pub salt: Seq<u8>,
    pub ciphertext: Seq<u8>,
}

impl View for SaltedBlob {
    type V = SaltedBlobView;

    open spec fn view(&self) -> SaltedBlobView {
        SaltedBlobView { salt: self.salt@, ciphertext: self.ciphertext@ }
    }
}

/// The ASCII bytes of `Salted__`.
pub open spec fn magic() -> Seq<u8> {
    seq![0x53u8, 0x61u8, 0x6cu8, 0x74u8, 0x65u8, 0x64u8, 0x5fu8, 0x5fu8]
}

/// The bytes of a blob: literal, salt, ciphertext.
pub open spec fn framed(salt: Seq<u8>, ciphertext: Seq<u8>) -> Seq<u8> {
    magic() + salt + ciphertext
}

/// Whether `bytes` starts with the literal and leaves room for a salt.
pub open spec fn is_salted(bytes: Seq<u8>) -> bool {
    bytes.len() >= 16 && bytes.subrange(0, 8) == magic()
}

/// Splits blob bytes into salt and ciphertext; `NotSalted` where the header
/// is missing.
pub open spec fn unframed(bytes: Seq<u8>) -> Result<SaltedBlobView, FormatError> {
    if is_salted(bytes) {
        Ok(
            SaltedBlobView {
                salt: bytes.subrange(8, 16),
                ciphertext: bytes.subrange(16, bytes.len() as int),
            },
        )
    } else {
        Err(FormatError::NotSalted)
    }
}

/// The text of a blob.
pub open spec fn encoded(salt: Seq<u8>, ciphertext: Seq<u8>) -> Seq<char> {
    base64_text(framed(salt, ciphertext))
}

/// What a text, given as its bytes, decodes to: `Base64` where it is not
/// base64, else what its bytes unframe to.
pub open spec fn decoded(text: Seq<u8>) -> Result<SaltedBlobView, FormatError> {
    match base64_bytes(text) {
        None => Err(FormatError::Base64),
        Some(bytes) => unframed(bytes),
    }
}

/// The view of a decoding result.
pub open spec fn blob_result_view(
    result: Result<SaltedBlob, FormatError>,
) -> Result<SaltedBlobView, FormatError> {
    match result {
        Ok(blob) => Ok(blob@),
        Err(error) => Err(error),
    }
}

/// Unframing what was framed gives salt and ciphertext back.
pub proof fn lemma_unframe_frame(salt: Seq<u8>, ciphertext: Seq<u8>)
    requires
        salt.len() == 8,
    ensures
        unframed(framed(salt, ciphertext)) == Ok::<SaltedBlobView, FormatError>(
            SaltedBlobView { salt, ciphertext },
        ),
{
    let bytes = framed(salt, ciphertext);
    assert(bytes.subrange(0, 8) == magic());
    assert(bytes.subrange(8, 16) == salt);
    assert(bytes.subrange(16, bytes.len() as int) == ciphertext);
}

/// The literal, as an array.
fn magic_bytes() -> (literal: [u8; 8])
    ensures
        literal@ == magic(),
{
    let literal: [u8; 8] = [0x53u8, 0x61u8, 0x6cu8, 0x74u8, 0x65u8, 0x64u8, 0x5fu8, 0x5fu8];
    literal
}

/// The bytes of a blob: the literal, then the salt, then the ciphertext.
pub fn frame(ciphertext: &[u8], salt: &[u8; 8]) -> (bytes: Vec<u8>)
    ensures
        bytes@ == framed(salt@, ciphertext@),
{
    let literal = magic_bytes();
    let mut bytes: Vec<u8> = Vec::new();
    append_bytes(&mut bytes, literal.as_slice());
    append_bytes(&mut bytes, salt.as_slice());
    append_bytes(&mut bytes, ciphertext);
    bytes
}

/// Splits the bytes of a blob into salt and ciphertext. Fails with
/// `NotSalted` exactly where the bytes do not start with the literal
/// followed by eight bytes of salt.
pub fn unframe(bytes: &[u8]) -> (result: Result<SaltedBlob, FormatError>)
    ensures
        blob_result_view(result) == unframed(bytes@),
{
    if bytes.len() < HEADER_LEN {
        return Err(FormatError::NotSalted);
    }
    let literal = magic_bytes();
    let mut i: usize = 0;
    while i < 8
        invariant
            i <= 8,
            bytes@.len() >= 16,
            literal@ == magic(),
            forall|j: int| 0 <= j < i ==> bytes@[j] == magic()[j],
        decreases 8 - i,
    {
        if bytes[i] != literal[i] {
            return Err(FormatError::NotSalted);
        }
        i += 1;
    }
    assert(bytes@.subrange(0, 8) == magic());
    let mut salt = [0u8; 8];
    let mut k: usize = 0;
    while k < 8
        invariant
            k <= 8,
            bytes@.len() >= 16,
            forall|j: int| 0 <= j < k ==> salt@[j] == bytes@[8 + j],
        decreases 8 - k,
    {
        salt[k] = bytes[8 + k];
        k += 1;
    }
    let mut ciphertext: Vec<u8> = Vec::new();
    append_bytes(&mut ciphertext, &bytes[16..bytes.len()]);
    assert(salt@ == bytes@.subrange(8, 16));
    Ok(SaltedBlob { salt, ciphertext })
}

/// Encodes a blob: base64 of the literal, the salt and the ciphertext.
/// Decoding the text gives salt and ciphertext back.
pub fn encode(ciphertext: &[u8], salt: &[u8; 8]) -> (text: String)
    requires
        ciphertext@.len() <= usize::MAX / 4,
    ensures
        text@ == encoded(salt@, ciphertext@),
        decoded(encode_utf8(text@)) == Ok::<SaltedBlobView, FormatError>(
            SaltedBlobView { salt: salt@, ciphertext: ciphertext@ },
        ),
{
    let bytes = frame(ciphertext, salt);
    proof {
        lemma_unframe_frame(salt@, ciphertext@);
    }
    base64_encode(bytes.as_slice())
}

/// Decodes a blob from the bytes of its text. Fails as `decode` does.
pub fn decode_bytes(text: &[u8]) -> (result: Result<SaltedBlob, FormatError>)
    ensures
        blob_result_view(result) == decoded(text@),
{
    match base64_decode(text) {
        Ok(bytes) => unframe(bytes.as_slice()),
        Err(_) => Err(FormatError::Base64),
    }
}

/// Decodes a blob. Fails with `Base64` exactly where the text is not valid
/// base64, and with `NotSalted` exactly where it is but the decoded bytes do
/// not start with the literal followed by eight bytes of salt.
pub fn decode(text: &str) -> (result: Result<SaltedBlob, FormatError>)
    ensures
        blob_result_view(result) == decoded(encode_utf8(text@)),
{
    decode_bytes(text.as_bytes())
}

} // verus!
