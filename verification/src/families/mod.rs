//! Model families: how each departs from the baseline transformer.

use vstd::prelude::*;

use crate::text;

pub mod baseline;
pub mod gemma;
pub mod gemma4;
pub mod qwen3_5;

verus! {

/// How attention scores are scaled before the softmax.
#[derive(Clone, Copy, Debug, PartialEq, Eq, Structural)]
pub enum AttnScale {
    /// One over the square root of the layer's head width.
    PerHeadDim,
    /// One over the square root of a fixed divisor.
    FixedDivisor(usize),
    /// No scaling: queries and keys are normalised already.
    Unity,
}

/// A family's departures from the baseline.
#[derive(Clone, Copy, Debug, PartialEq, Eq)]
pub struct FamilyProfile {
    /// Name for logs and status output.
    pub name: &'static str,
    /// Norm gains are stored as offsets from one.
    pub rmsnorm_plus_one: bool,
    /// Embeddings are multiplied by the square root of the hidden width.
    pub scaled_embeddings: bool,
    /// Values are normalised per head, without a gain, before the cache.
    pub v_norm_per_head: bool,
    pub attn_scale: AttnScale,
    /// The query projection is twice as wide: its second half gates the
    /// attention output.
    pub has_attn_output_gate: bool,
}

/// The families.
#[derive(Clone, Copy, Debug, PartialEq, Eq, Structural)]
pub enum Family {
    Baseline,
    Gemma,
    Gemma4,
    Qwen35,
}

/// The family of a model type; unknown types are baseline.
pub open spec fn family_of(model_type: Seq<char>) -> Family {
    if model_type == "gemma4"@ || model_type == "gemma4_text"@ {
        Family::Gemma4
    } else if model_type == "gemma"@ || model_type == "gemma2"@ || model_type == "gemma3"@
        || model_type == "gemma3_text"@ {
        Family::Gemma
    } else if model_type == "qwen3_5"@ || model_type == "qwen3_5_text"@ {
        Family::Qwen35
    } else {
        Family::Baseline
    }
}

/// A profile says of its family what is known of it. `scalar` is the
/// configured divisor of the attention scores.
pub open spec fn is_profile(p: FamilyProfile, f: Family, scalar: Option<usize>) -> bool {
    match f {
        Family::Baseline => {
            &&& p.name@ == "LlamaStyle"@
            &&& !p.rmsnorm_plus_one && !p.scaled_embeddings && !p.v_norm_per_head
            &&& p.attn_scale == AttnScale::PerHeadDim
            &&& !p.has_attn_output_gate
        },
        Family::Gemma => {
            &&& p.name@ == "Gemma 1/2/3"@
            &&& p.rmsnorm_plus_one && p.scaled_embeddings && !p.v_norm_per_head
            &&& p.attn_scale == AttnScale::FixedDivisor(
                match scalar {
                    Some(n) => n,
                    None => 256,
                },
            )
            &&& !p.has_attn_output_gate
        },
        Family::Gemma4 => {
            &&& p.name@ == "Gemma 4"@
            &&& !p.rmsnorm_plus_one && p.scaled_embeddings && p.v_norm_per_head
            &&& p.attn_scale == AttnScale::Unity
            &&& !p.has_attn_output_gate
        },
        Family::Qwen35 => {
            &&& p.name@ == "Qwen3.5/3.8"@
            &&& p.rmsnorm_plus_one && !p.scaled_embeddings && !p.v_norm_per_head
            &&& p.attn_scale == AttnScale::PerHeadDim
            &&& p.has_attn_output_gate
        },
    }
}

impl FamilyProfile {
    /// The profile of a model type. The scalar matters only to families with a
    /// fixed divisor.
    pub fn for_model_type(model_type: &str, query_pre_attn_scalar: Option<usize>) -> (p: Self)
        ensures
            is_profile(p, family_of(model_type@), query_pre_attn_scalar),
    {
        if text::text_eq(model_type, "gemma4") || text::text_eq(model_type, "gemma4_text") {
            gemma4::profile()
        } else if text::text_eq(model_type, "gemma") || text::text_eq(model_type, "gemma2")
            || text::text_eq(model_type, "gemma3") || text::text_eq(model_type, "gemma3_text") {
            gemma::profile(query_pre_attn_scalar)
        } else if text::text_eq(model_type, "qwen3_5") || text::text_eq(
            model_type,
            "qwen3_5_text",
        ) {
            qwen3_5::profile()
        } else {
            baseline::profile()
        }
    }
}

} // verus!
