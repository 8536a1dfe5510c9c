//! PKCS#7 padding to the 16-byte cipher block, as a model on byte
//! sequences. The cipher calls are stated against this model.

use vstd::prelude::*;

verus! {

/// How many bytes PKCS#7 appends to `len` bytes: between 1 and 16, so that
/// the total is a multiple of 16.
pub open spec fn pad_len(len: nat) -> nat {
    (16 - len % 16) as nat
}

/// `data` followed by its PKCS#7 padding: `pad_len` bytes, each holding
/// that count.
pub open spec fn pkcs7_padded(data: Seq<u8>) -> Seq<u8> {
    data + Seq::new(pad_len(data.len()), |i: int| pad_len(data.len()) as u8)
}

/// Whether `blocks` ends in a well-formed PKCS#7 padding: its last byte `n`
/// is between 1 and 16, at most the length, and the last `n` bytes all equal `n`.
pub open spec fn pkcs7_well_formed(blocks: Seq<u8>) -> bool {
    &&& blocks.len() > 0
    &&& 1 <= blocks.last() <= 16
    &&& blocks.last() <= blocks.len()
    &&& forall|i: int| blocks.len() - blocks.last() <= i < blocks.len() ==> blocks[i] == blocks.last()
}

/// `blocks` without its PKCS#7 padding, or `None` where the padding is
/// malformed.
pub open spec fn pkcs7_unpadded(blocks: Seq<u8>) -> Option<Seq<u8>> {
    if pkcs7_well_formed(blocks) {
        Some(blocks.subrange(0, blocks.len() - blocks.last()))
    } else {
        None
    }
}

/// Padding fills whole blocks and always adds at least one byte.
pub proof fn lemma_padded_len(data: Seq<u8>)
    ensures
        pkcs7_padded(data).len() == data.len() + pad_len(data.len()),
        pkcs7_padded(data).len() % 16 == 0,
        data.len() < pkcs7_padded(data).len() <= data.len() + 16,
{
}

/// Removing the padding that `pkcs7_padded` added gives the data back.
pub proof fn lemma_unpad_pad(data: Seq<u8>)
    ensures
        pkcs7_unpadded(pkcs7_padded(data)) == Some(data),
{
}

} // verus!
