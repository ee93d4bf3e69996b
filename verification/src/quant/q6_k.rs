//! 6-bit codes in blocks of 256 with sixteen sub-scales.

use vstd::prelude::*;

use crate::quant::stored::{decode, decoded, Format, Stored};

verus! {

/// Elements of a block.
pub const BLOCK_SIZE: usize = 256;

/// Bytes of a block.
pub const BLOCK_BYTES: usize = 210;

/// The elements of whole blocks.
pub fn dequantize(bytes: &[u8]) -> (v: Vec<Stored>)
    requires
        bytes@.len() % 210 == 0,
        bytes@.len() / 210 * 256 <= usize::MAX,
    ensures
        v@ == decoded(Format::Q6_K, bytes@),
{
    decode(Format::Q6_K, bytes)
}

} // verus!
