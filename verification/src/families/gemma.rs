//! Gemma 1, 2 and 3: gains stored as offsets from one, scaled embeddings, and a
//! fixed divisor of the attention scores, 256 unless configured.

use vstd::prelude::*;

use crate::families::{self, AttnScale, FamilyProfile};

verus! {

/// The profile of the family.
pub fn profile(query_pre_attn_scalar: Option<usize>) -> (p: FamilyProfile)
    ensures
        families::is_profile(p, families::Family::Gemma, query_pre_attn_scalar),
{
    let divisor: usize = match query_pre_attn_scalar {
        Some(n) => n,
        None => 256,
    };
    FamilyProfile {
        name: "Gemma 1/2/3",
        rmsnorm_plus_one: true,
        scaled_embeddings: true,
        v_norm_per_head: false,
        attn_scale: AttnScale::FixedDivisor(divisor),
        has_attn_output_gate: false,
    }
}

} // verus!
