//! Qwen 3.5 and 3.8: gains stored as offsets from one, and a gate on the
//! attention output.

use vstd::prelude::*;

use crate::families::{self, AttnScale, FamilyProfile};

verus! {

/// The profile of the family.
pub fn profile() -> (p: FamilyProfile)
    ensures
        families::is_profile(p, families::Family::Qwen35, None),
{
    FamilyProfile {
        name: "Qwen3.5/3.8",
        rmsnorm_plus_one: true,
        scaled_embeddings: false,
        v_norm_per_head: false,
        attn_scale: AttnScale::PerHeadDim,
        has_attn_output_gate: true,
    }
}

} // verus!
