//! Bfloat16 numbers as bit patterns.

use vstd::prelude::*;

verus! {

/// The pattern of a bfloat16 number in single precision: its bits are the
/// upper half; a NaN becomes a quiet one.
pub open spec fn brain_to_single(bits: u16) -> int {
    if bits as int % 0x8000 > 0x7F80 && bits as int / 0x40 % 2 == 0 {
        (bits + 0x40) * 0x1_0000
    } else {
        bits * 0x1_0000
    }
}

/// `half::bf16::from_bits` and `half::bf16::to_f32`: the bit pattern of the
/// number in single precision.
#[verifier::external_body]
pub(crate) fn single_of_brain(bits: u16) -> (r: u32)
    ensures
        r == brain_to_single(bits),
{
    half::bf16::from_bits(bits).to_f32().to_bits()
}

} // verus!
