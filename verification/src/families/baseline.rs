//! The baseline transformer: Llama, Mistral, Qwen 2 and 3, Phi and others.

use vstd::prelude::*;

use crate::families::{self, AttnScale, FamilyProfile};

verus! {

/// The profile of the family.
pub fn profile() -> (p: FamilyProfile)
    ensures
        families::is_profile(p, families::Family::Baseline, None),
{
    FamilyProfile {
        name: "LlamaStyle",
        rmsnorm_plus_one: false,
        scaled_embeddings: false,
        v_norm_per_head: false,
        attn_scale: AttnScale::PerHeadDim,
        has_attn_output_gate: false,
    }
}

} // verus!
