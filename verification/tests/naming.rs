use glia::families::{AttnScale, FamilyProfile};
use glia::naming::gguf_to_hf;

#[test]
fn gguf_to_hf_core_tensors() {
    assert_eq!(gguf_to_hf("token_embd.weight"), "model.embed_tokens.weight");
    assert_eq!(gguf_to_hf("output_norm.weight"), "model.norm.weight");
    assert_eq!(gguf_to_hf("output.weight"), "lm_head.weight");
}

#[test]
fn gguf_to_hf_layer_tensors() {
    assert_eq!(
        gguf_to_hf("blk.5.attn_q.weight"),
        "model.layers.5.self_attn.q_proj.weight"
    );
    assert_eq!(
        gguf_to_hf("blk.12.ffn_gate.weight"),
        "model.layers.12.mlp.gate_proj.weight"
    );
    assert_eq!(
        gguf_to_hf("blk.0.attn_q_norm.weight"),
        "model.layers.0.self_attn.q_norm.weight"
    );
}

#[test]
fn gguf_to_hf_passes_through_unknown() {
    assert_eq!(gguf_to_hf("some.other.weight"), "some.other.weight");
}

#[test]
fn llama_baseline() {
    let p = FamilyProfile::for_model_type("llama", None);
    assert!(!p.rmsnorm_plus_one);
    assert!(!p.scaled_embeddings);
    assert!(!p.v_norm_per_head);
    assert!(matches!(p.attn_scale, AttnScale::PerHeadDim));
}

#[test]
fn qwen3_matches_llama_baseline() {
    let p = FamilyProfile::for_model_type("qwen3", None);
    assert!(!p.rmsnorm_plus_one);
    assert!(!p.scaled_embeddings);
    assert!(matches!(p.attn_scale, AttnScale::PerHeadDim));
}

#[test]
fn gemma3_flips_norm_and_embed_scale() {
    let p = FamilyProfile::for_model_type("gemma3", None);
    assert!(p.rmsnorm_plus_one);
    assert!(p.scaled_embeddings);
    assert!(!p.v_norm_per_head);
    assert!(matches!(p.attn_scale, AttnScale::FixedDivisor(256)));
}

#[test]
fn gemma3_respects_query_pre_attn_override() {
    let p = FamilyProfile::for_model_type("gemma3", Some(128));
    assert!(matches!(p.attn_scale, AttnScale::FixedDivisor(128)));
}

#[test]
fn gemma4_unity_attn_scale_and_v_norm() {
    let p = FamilyProfile::for_model_type("gemma4", None);
    assert!(!p.rmsnorm_plus_one);
    assert!(p.scaled_embeddings);
    assert!(p.v_norm_per_head);
    assert!(matches!(p.attn_scale, AttnScale::Unity));
    assert!(!p.has_attn_output_gate);
}

#[test]
fn qwen3_5_has_attn_output_gate() {
    let p = FamilyProfile::for_model_type("qwen3_5", None);
    assert!(p.rmsnorm_plus_one);
    assert!(!p.scaled_embeddings);
    assert!(matches!(p.attn_scale, AttnScale::PerHeadDim));
    assert!(p.has_attn_output_gate);
    assert!(!FamilyProfile::for_model_type("qwen3", None).has_attn_output_gate);
    assert!(!FamilyProfile::for_model_type("qwen3", None).rmsnorm_plus_one);
}
