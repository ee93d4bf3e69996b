//! 4-bit codes in blocks of 32 with a half-precision scale.

use vstd::prelude::*;

use crate::quant::stored::{decode, decoded, Format, Stored};

verus! {

/// Elements of a block.
pub const BLOCK_SIZE: usize = 32;

/// Bytes of a block.
pub const BLOCK_BYTES: usize = 18;

/// The elements of whole blocks.
pub fn dequantize(bytes: &[u8]) -> (v: Vec<Stored>)
    requires
        bytes@.len() % 18 == 0,
        bytes@.len() / 18 * 32 <= usize::MAX,
    ensures
        v@ == decoded(Format::Q4_0, bytes@),
{
    decode(Format::Q4_0, bytes)
}

} // verus!
