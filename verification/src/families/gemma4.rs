//! Gemma 4: plain gains, unscaled attention scores, normalised values, and
//! scaled embeddings.

use vstd::prelude::*;

use crate::families::{self, AttnScale, FamilyProfile};

verus! {

/// The profile of the family.
pub fn profile() -> (p: FamilyProfile)
    ensures
        families::is_profile(p, families::Family::Gemma4, None),
{
    FamilyProfile {
        name: "Gemma 4",
        rmsnorm_plus_one: false,
        scaled_embeddings: true,
        v_norm_per_head: true,
        attn_scale: AttnScale::Unity,
        has_attn_output_gate: false,
    }
}

} // verus!
