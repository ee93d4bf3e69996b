//! 5-bit codes in blocks of 256.

use vstd::prelude::*;

verus! {

/// Elements of a block.
pub const BLOCK_SIZE: usize = 256;

/// Bytes of a block.
pub const BLOCK_BYTES: usize = 176;

} // verus!
