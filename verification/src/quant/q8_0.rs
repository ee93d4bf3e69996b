//! 8-bit codes in blocks of 32 with a half-precision scale.

use vstd::prelude::*;

use crate::quant::stored::{decode, decoded, decoded_len, Format, Stored};

verus! {

/// Elements of a block.
pub const BLOCK_SIZE: usize = 32;

/// Bytes of a block.
pub const BLOCK_BYTES: usize = 34;

/// The elements of whole blocks.
pub fn dequantize(bytes: &[u8]) -> (v: Vec<Stored>)
    requires
        bytes@.len() % 34 == 0,
    ensures
        v@ == decoded(Format::Q8_0, bytes@),
{
    let total: usize = bytes.len();
    assert(decoded_len(Format::Q8_0, total as nat) <= total);
    decode(Format::Q8_0, bytes)
}

} // verus!
