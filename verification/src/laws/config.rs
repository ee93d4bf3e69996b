//! Configurations: what each key of the document becomes.

use vstd::prelude::*;

use crate::config::{
    as_number, as_split, as_tokens, document_fields, even_below, fault, fraction, is_config,
    is_raw, kind_at, layer_kind, not_positive, of_full, parsed, positive, present, readable,
    rotates_part, tensor_named, ConfigFloats, FormatError, LlamaConfig, Number,
    RMS_NORM_EPS_DEFAULT, ROPE_THETA_DEFAULT, RawConfig, RequiredField,
};
use crate::families::{family_of, is_profile, AttnScale, FamilyProfile};
use crate::laws::weights::{is_first, names_mean_the_first};
use crate::quant::canonical::{exponent, exponent_field, is_nan, is_negative, significand};
use crate::tensor::TensorMeta;
use crate::toml_text::{
    toml_bool, toml_has, toml_inner_integer, toml_integer, toml_refusal, toml_root_bool,
    toml_root_has, toml_root_string, toml_string, toml_strings,
};

verus! {

/// Only Gemma of the first three generations and Qwen 3.5 store norm gains as
/// offsets; only Gemma scales its embeddings; only its fourth generation
/// normalises values and leaves scores unscaled, and the earlier ones have a
/// fixed divisor, 256 unless configured; only Qwen 3.5 gates the attention.
#[verifier::spinoff_prover]
#[verifier::rlimit(40)]
pub proof fn families_depart_as_named(p: FamilyProfile, t: Seq<char>, scalar: Option<usize>)
    requires
        is_profile(p, family_of(t), scalar),
    ensures
        p.rmsnorm_plus_one <==> t == "gemma"@ || t == "gemma2"@ || t == "gemma3"@ || t
            == "gemma3_text"@ || t == "qwen3_5"@ || t == "qwen3_5_text"@,
        p.scaled_embeddings <==> t == "gemma"@ || t == "gemma2"@ || t == "gemma3"@ || t
            == "gemma3_text"@ || t == "gemma4"@ || t == "gemma4_text"@,
        p.v_norm_per_head <==> t == "gemma4"@ || t == "gemma4_text"@,
        p.attn_scale is Unity <==> t == "gemma4"@ || t == "gemma4_text"@,
        p.attn_scale is FixedDivisor <==> t == "gemma"@ || t == "gemma2"@ || t == "gemma3"@ || t
            == "gemma3_text"@,
        p.attn_scale matches AttnScale::FixedDivisor(n) ==> (scalar matches Some(m) ==> n == m) && (
        scalar is None ==> n == 256),
        p.has_attn_output_gate <==> t == "qwen3_5"@ || t == "qwen3_5_text"@,
        (p.name@ == "Qwen3.5/3.8"@) == p.has_attn_output_gate,
        (p.name@ == "Gemma 4"@) == p.v_norm_per_head,
        (p.name@ == "Gemma 1/2/3"@) == (p.attn_scale is FixedDivisor),
        !p.scaled_embeddings && !p.rmsnorm_plus_one ==> p.name@ == "LlamaStyle"@,
{
    reveal_strlit("gemma");
    reveal_strlit("gemma2");
    reveal_strlit("gemma3");
    reveal_strlit("gemma3_text");
    reveal_strlit("gemma4");
    reveal_strlit("gemma4_text");
    reveal_strlit("qwen3_5");
    reveal_strlit("qwen3_5_text");
    assert("gemma"@.len() == 5 && "gemma2"@.len() == 6 && "gemma3"@.len() == 6);
    assert("gemma4"@.len() == 6 && "gemma3_text"@.len() == 11 && "gemma4_text"@.len() == 11);
    assert("qwen3_5"@.len() == 7 && "qwen3_5_text"@.len() == 12);
    assert("gemma2"@[5] == '2' && "gemma3"@[5] == '3' && "gemma4"@[5] == '4');
    assert("gemma3_text"@[5] == '3' && "gemma4_text"@[5] == '4');
    reveal_strlit("LlamaStyle");
    reveal_strlit("Gemma 1/2/3");
    reveal_strlit("Gemma 4");
    reveal_strlit("Qwen3.5/3.8");
    assert("LlamaStyle"@.len() == 10 && "Gemma 4"@.len() == 7);
    assert("Gemma 1/2/3"@.len() == 11 && "Qwen3.5/3.8"@.len() == 11);
    assert("Gemma 1/2/3"@[0] == 'G' && "Qwen3.5/3.8"@[0] == 'Q');
}

/// The size is the integer, where it is one that a size can be.
pub open spec fn is_size(n: usize, i: Option<i64>) -> bool {
    i matches Some(i) && (0 <= i <= usize::MAX ==> n == i)
}

/// The size is there where the integer is.
pub open spec fn is_optional_size(n: Option<usize>, i: Option<i64>) -> bool {
    match n {
        Some(n) => is_size(n, i),
        None => i is None,
    }
}

/// The token is there where the integer is.
pub open spec fn is_optional_token(n: Option<u32>, i: Option<i64>) -> bool {
    match n {
        Some(n) => i matches Some(i) && (0 <= i <= u32::MAX ==> n == i),
        None => i is None,
    }
}

/// The size is the integer, or the default where there is none.
pub open spec fn is_size_or(n: usize, i: Option<i64>, default: int) -> bool {
    if i is None {
        n == default
    } else {
        is_size(n, i)
    }
}

/// A configuration that was parsed has under each name what the document has
/// under it in its architecture table.
#[verifier::spinoff_prover]
#[verifier::rlimit(40)]
pub proof fn keys_become_their_fields(
    x: LlamaConfig,
    t: Seq<char>,
    ts: Seq<TensorMeta>,
    f: ConfigFloats,
)
    requires
        parsed(Ok(x), t, ts, f),
    ensures
        is_size(x.hidden_size, toml_integer(t, "architecture"@, "hidden_size"@)),
        is_size(x.num_attention_heads, toml_integer(t, "architecture"@, "num_attention_heads"@)),
        is_size(x.num_hidden_layers, toml_integer(t, "architecture"@, "num_hidden_layers"@)),
        is_size(x.intermediate_size, toml_integer(t, "architecture"@, "intermediate_size"@)),
        is_size(x.vocab_size, toml_integer(t, "architecture"@, "vocab_size"@)),
        is_optional_size(
            x.sliding_window,
            toml_integer(t, "architecture"@, "sliding_window"@),
        ),
        is_optional_size(
            x.global_head_dim,
            toml_integer(t, "architecture"@, "global_head_dim"@),
        ),
        is_optional_size(
            x.num_global_key_value_heads,
            toml_integer(t, "architecture"@, "num_global_key_value_heads"@),
        ),
        is_optional_size(
            x.query_pre_attn_scalar,
            toml_integer(t, "architecture"@, "query_pre_attn_scalar"@),
        ),
        is_optional_size(
            x.linear_num_value_heads,
            toml_integer(t, "architecture"@, "linear_num_value_heads"@),
        ),
        is_optional_size(
            x.linear_num_key_heads,
            toml_integer(t, "architecture"@, "linear_num_key_heads"@),
        ),
        is_optional_size(
            x.linear_key_head_dim,
            toml_integer(t, "architecture"@, "linear_key_head_dim"@),
        ),
        is_optional_size(
            x.linear_value_head_dim,
            toml_integer(t, "architecture"@, "linear_value_head_dim"@),
        ),
        is_optional_size(
            x.linear_conv_kernel_dim,
            toml_integer(t, "architecture"@, "linear_conv_kernel_dim"@),
        ),
        is_optional_token(
            x.image_token_id,
            toml_integer(t, "architecture"@, "image_token_id"@),
        ),
        is_optional_token(
            x.video_token_id,
            toml_integer(t, "architecture"@, "video_token_id"@),
        ),
        is_optional_token(
            x.vision_start_token_id,
            toml_integer(t, "architecture"@, "vision_start_token_id"@),
        ),
        is_optional_token(
            x.vision_end_token_id,
            toml_integer(t, "architecture"@, "vision_end_token_id"@),
        ),
        is_size_or(
            x.max_position_embeddings,
            toml_integer(t, "architecture"@, "max_position_embeddings"@),
            2048,
        ),
        is_size_or(
            x.num_key_value_heads,
            toml_integer(t, "architecture"@, "num_key_value_heads"@),
            x.num_attention_heads as int,
        ),
        toml_integer(t, "architecture"@, "head_dim"@) is Some ==> is_size(
            x.head_dim,
            toml_integer(t, "architecture"@, "head_dim"@),
        ),
        x.model_type@ == (match toml_root_string(t, "model_type"@) {
            Some(m) => m,
            None => "unknown"@,
        }),
        x.tie_word_embeddings == (match (
            toml_bool(t, "architecture"@, "tie_word_embeddings"@),
            toml_root_bool(t, "tie_word_embeddings"@),
        ) {
            (Some(b), _) => b,
            (None, Some(b)) => b,
            (None, None) => true,
        }),
        x.attention_k_eq_v <==> toml_bool(t, "architecture"@, "attention_k_eq_v"@) == Some(true),
        x.rope_theta == (match f.rope_theta {
            Some(b) => b,
            None => 0x461C_4000u32,
        }),
        x.rms_norm_eps == (match f.rms_norm_eps {
            Some(b) => b,
            None => 0x3586_37BDu32,
        }),
        x.rope_theta_full == f.rope_theta_full,
        x.partial_rotary_factor_full == f.partial_rotary_factor_full,
        x.final_logit_softcapping matches Some(b) ==> f.final_logit_softcapping == Some(b) && 0 < b
            <= 0x7F80_0000,
        x.final_logit_softcapping is None ==> (f.final_logit_softcapping matches Some(b) ==> b == 0
            || b > 0x7F80_0000),
        is_profile(x.family, family_of(x.model_type@), x.query_pre_attn_scalar),
        x.vision is Some <==> toml_has(t, "architecture"@, "vision"@),
        toml_string(t, "architecture"@, "hidden_activation"@) matches Some(a) ==> {
            &&& x.hidden_activation is GeluTanh <==> a == "gelu_pytorch_tanh"@ || a == "gelu_tanh"@
            &&& x.hidden_activation is GeluErf <==> a == "gelu"@ || a == "gelu_erf"@
        },
        toml_string(t, "architecture"@, "hidden_activation"@) is None ==> x.hidden_activation
            is Silu,
{
    lemma_activations();
    let d = document_fields(t);
    let c = choose|c: RawConfig| #[trigger]
        is_raw(c, d) && match fault(c, ts, f) {
            Some(e) => Ok::<LlamaConfig, FormatError>(x) matches Err(y) && y == e,
            None => Ok::<LlamaConfig, FormatError>(x) matches Ok(y) && is_config(y, c, ts, f),
        };
    assert(is_config(x, c, ts, f));
}

proof fn lemma_activations()
    ensures
        "gelu"@ != "gelu_pytorch_tanh"@,
        "gelu"@ != "gelu_tanh"@,
        "gelu_erf"@ != "gelu_pytorch_tanh"@,
        "gelu_erf"@ != "gelu_tanh"@,
{
    reveal_strlit("gelu");
    reveal_strlit("gelu_erf");
    reveal_strlit("gelu_tanh");
    reveal_strlit("gelu_pytorch_tanh");
    assert("gelu"@.len() == 4 && "gelu_erf"@.len() == 8 && "gelu_tanh"@.len() == 9);
    assert("gelu_pytorch_tanh"@.len() == 17);
}

/// The vision tower has under each name what the document has under it, or the
/// sizes of the usual tower.
#[verifier::spinoff_prover]
#[verifier::rlimit(40)]
pub proof fn vision_keys_become_their_fields(
    x: LlamaConfig,
    t: Seq<char>,
    ts: Seq<TensorMeta>,
    f: ConfigFloats,
)
    requires
        parsed(Ok(x), t, ts, f),
        x.vision is Some,
    ensures
        is_size_or(
            (x.vision->0).hidden_size,
            toml_inner_integer(t, "architecture"@, "vision"@, "hidden_size"@),
            1152,
        ),
        is_size_or(
            (x.vision->0).num_heads,
            toml_inner_integer(t, "architecture"@, "vision"@, "num_heads"@),
            16,
        ),
        is_size_or(
            (x.vision->0).intermediate_size,
            toml_inner_integer(t, "architecture"@, "vision"@, "intermediate_size"@),
            4304,
        ),
        is_size_or(
            (x.vision->0).depth,
            toml_inner_integer(t, "architecture"@, "vision"@, "depth"@),
            27,
        ),
        is_size_or(
            (x.vision->0).patch_size,
            toml_inner_integer(t, "architecture"@, "vision"@, "patch_size"@),
            16,
        ),
        is_size_or(
            (x.vision->0).in_channels,
            toml_inner_integer(t, "architecture"@, "vision"@, "in_channels"@),
            3,
        ),
        is_size_or(
            (x.vision->0).spatial_merge_size,
            toml_inner_integer(t, "architecture"@, "vision"@, "spatial_merge_size"@),
            2,
        ),
        is_size_or(
            (x.vision->0).temporal_patch_size,
            toml_inner_integer(t, "architecture"@, "vision"@, "temporal_patch_size"@),
            2,
        ),
        is_size_or(
            (x.vision->0).num_position_embeddings,
            toml_inner_integer(t, "architecture"@, "vision"@, "num_position_embeddings"@),
            2304,
        ),
        is_size_or(
            (x.vision->0).out_hidden_size,
            toml_inner_integer(t, "architecture"@, "vision"@, "out_hidden_size"@),
            x.hidden_size as int,
        ),
        (x.vision->0).rope_theta == (match f.vision_rope_theta {
            Some(b) => b,
            None => 0x461C_4000u32,
        }),
{
    let d = document_fields(t);
    let c = choose|c: RawConfig| #[trigger]
        is_raw(c, d) && match fault(c, ts, f) {
            Some(e) => Ok::<LlamaConfig, FormatError>(x) matches Err(y) && y == e,
            None => Ok::<LlamaConfig, FormatError>(x) matches Ok(y) && is_config(y, c, ts, f),
        };
    assert(is_config(x, c, ts, f));
}

/// What the tensors say: the first layer has head norms or biases where there
/// are such tensors, and a head width that is not configured is the share of
/// a head in the rows of the query projection, half of it with a gate, or in
/// the hidden width where there is no such projection.
#[verifier::spinoff_prover]
#[verifier::rlimit(40)]
pub proof fn tensors_complete_the_configuration(
    x: LlamaConfig,
    t: Seq<char>,
    ts: Seq<TensorMeta>,
    f: ConfigFloats,
    k: int,
)
    requires
        parsed(Ok(x), t, ts, f),
    ensures
        x.has_qk_norm <==> exists|j: int|
            0 <= j < ts.len() && (#[trigger] ts[j]).name@
                == "model.layers.0.self_attn.q_norm.weight"@,
        x.has_attn_bias <==> exists|j: int|
            0 <= j < ts.len() && (#[trigger] ts[j]).name@ == "model.layers.0.self_attn.q_proj.bias"@,
        toml_integer(t, "architecture"@, "head_dim"@) is None && x.num_attention_heads > 0
            && is_first(ts, k, "model.layers.0.self_attn.q_proj.weight"@) ==> {
            let share = ts[k].shape@[0] as int / x.num_attention_heads as int;
            x.head_dim == if x.family.has_attn_output_gate {
                share / 2
            } else {
                share
            }
        },
        toml_integer(t, "architecture"@, "head_dim"@) is None && x.num_attention_heads > 0 && (
        forall|j: int|
            0 <= j < ts.len() ==> (#[trigger] ts[j]).name@
                != "model.layers.0.self_attn.q_proj.weight"@) ==> x.head_dim == x.hidden_size as int
            / x.num_attention_heads as int,
{
    names_mean_the_first(ts, "model.layers.0.self_attn.q_norm.weight"@);
    names_mean_the_first(ts, "model.layers.0.self_attn.q_proj.bias"@);
    names_mean_the_first(ts, "model.layers.0.self_attn.q_proj.weight"@);
    let d = document_fields(t);
    let c = choose|c: RawConfig| #[trigger]
        is_raw(c, d) && match fault(c, ts, f) {
            Some(e) => Ok::<LlamaConfig, FormatError>(x) matches Err(y) && y == e,
            None => Ok::<LlamaConfig, FormatError>(x) matches Ok(y) && is_config(y, c, ts, f),
        };
    assert(is_config(x, c, ts, f));
    match tensor_named(ts, "model.layers.0.self_attn.q_proj.weight"@, 0) {
        Some(i) => {
            if is_first(ts, k, "model.layers.0.self_attn.q_proj.weight"@) {
                if i < k {
                    assert(ts[i].name@ != "model.layers.0.self_attn.q_proj.weight"@);
                }
                if k < i {
                    assert(ts[k].name@ != "model.layers.0.self_attn.q_proj.weight"@);
                }
                let share = ts[k].shape@[0] as int / c.num_attention_heads as int;
                assert(0 <= share <= ts[k].shape@[0]) by (nonlinear_arith)
                    requires
                        share == ts[k].shape@[0] as int / c.num_attention_heads as int,
                        c.num_attention_heads > 0,
                ;
            }
        },
        None => {
            let share = c.hidden_size as int / c.num_attention_heads as int;
            if c.num_attention_heads > 0 {
                assert(0 <= share <= c.hidden_size) by (nonlinear_arith)
                    requires
                        share == c.hidden_size as int / c.num_attention_heads as int,
                        c.num_attention_heads > 0,
                ;
            }
        },
    }
}

/// The name under which the document has a required field.
pub open spec fn key_of(k: RequiredField) -> Seq<char> {
    match k {
        RequiredField::HiddenSize => "hidden_size"@,
        RequiredField::NumAttentionHeads => "num_attention_heads"@,
        RequiredField::NumHiddenLayers => "num_hidden_layers"@,
        RequiredField::IntermediateSize => "intermediate_size"@,
        RequiredField::VocabSize => "vocab_size"@,
    }
}

/// A document is refused for a reason that holds of it.
#[verifier::spinoff_prover]
#[verifier::rlimit(40)]
pub proof fn refusals_have_their_reason(
    e: FormatError,
    t: Seq<char>,
    ts: Seq<TensorMeta>,
    f: ConfigFloats,
)
    requires
        parsed(Err(e), t, ts, f),
    ensures
        match e {
            FormatError::Toml(m) => toml_refusal(t) == Some(m@),
            FormatError::MissingArchitecture => toml_refusal(t) is None && !toml_root_has(
                t,
                "architecture"@,
            ),
            FormatError::MissingField(k) => toml_integer(t, "architecture"@, key_of(k)) is None,
            FormatError::HeadDim(n) => n == 0 || n as int % 2 == 1,
            FormatError::NoHeads => true,
            FormatError::HeadGroups { heads, kv_heads } => kv_heads == 0 || heads as int
                % kv_heads as int != 0,
            FormatError::NoLayers => toml_integer(t, "architecture"@, "num_hidden_layers"@)
                is Some,
            FormatError::NoVocabulary => toml_integer(t, "architecture"@, "vocab_size"@) is Some,
            FormatError::RopeTheta(b) => b == 0 || 0x8000_0000 <= b <= 0xFF80_0000,
            FormatError::RmsNormEps(b) => b == 0 || b >= 0x3F80_0000,
            FormatError::LayerTypes { types, layers } => types != layers,
        },
        e is NoHeads ==> (toml_integer(t, "architecture"@, "num_attention_heads"@) matches Some(i)
            && !(0 < i <= usize::MAX)),
        e is NoLayers ==> (toml_integer(t, "architecture"@, "num_hidden_layers"@) matches Some(i)
            && !(0 < i <= usize::MAX)),
        e is NoVocabulary ==> (toml_integer(t, "architecture"@, "vocab_size"@) matches Some(i) && !(
        0 < i <= usize::MAX)),
{
    let d = document_fields(t);
    if readable(d) {
        let c = choose|c: RawConfig| #[trigger]
            is_raw(c, d) && match fault(c, ts, f) {
                Some(y) => Err::<LlamaConfig, FormatError>(e) matches Err(z) && z == y,
                None => Err::<LlamaConfig, FormatError>(e) matches Ok(y) && is_config(y, c, ts, f),
            };
        assert(fault(c, ts, f) == Some(e));
        match c.layer_types {
            Some(v) => {
                assert(v.len() == v@.len());
            },
            None => {},
        }
    }
}

/// A document with all that is required, of sizes that go together, is taken:
/// the head width is even, the key-value heads divide the heads, there are
/// layers and a vocabulary, and the floats are in range.
#[verifier::spinoff_prover]
#[verifier::rlimit(40)]
pub proof fn sound_documents_are_taken(
    r: Result<LlamaConfig, FormatError>,
    t: Seq<char>,
    ts: Seq<TensorMeta>,
    f: ConfigFloats,
    heads: int,
    kv_heads: int,
    group: int,
    half: int,
)
    requires
        parsed(r, t, ts, f),
        toml_refusal(t) is None,
        toml_root_has(t, "architecture"@),
        toml_integer(t, "architecture"@, "hidden_size"@) is Some,
        toml_integer(t, "architecture"@, "intermediate_size"@) is Some,
        toml_integer(t, "architecture"@, "num_attention_heads"@) == Some(heads as i64),
        toml_integer(t, "architecture"@, "num_key_value_heads"@) == Some(kv_heads as i64),
        toml_integer(t, "architecture"@, "head_dim"@) == Some((2 * half) as i64),
        toml_integer(t, "architecture"@, "num_hidden_layers"@) matches Some(i) && 0 < i
            <= 0xffff_ffff,
        toml_integer(t, "architecture"@, "vocab_size"@) matches Some(i) && 0 < i <= 0xffff_ffff,
        heads == group * kv_heads,
        0 < kv_heads <= heads <= 0xffff_ffff,
        0 < half < 0x8000_0000,
        f.rope_theta matches Some(b) ==> 0 < b <= 0x7F80_0000,
        f.rms_norm_eps matches Some(b) ==> 0 < b < 0x3F80_0000,
        toml_strings(t, "architecture"@, "layer_types"@) is None,
    ensures
        r is Ok,
        r matches Ok(x) ==> x.head_dim == 2 * half && x.num_attention_heads == heads
            && x.num_key_value_heads == kv_heads,
{
    let d = document_fields(t);
    let c = choose|c: RawConfig| #[trigger]
        is_raw(c, d) && match fault(c, ts, f) {
            Some(e) => r matches Err(x) && x == e,
            None => r matches Ok(x) && is_config(x, c, ts, f),
        };
    assert(c.num_attention_heads == heads);
    assert(c.num_key_value_heads == Some(kv_heads as usize));
    assert(c.head_dim == Some((2 * half) as usize));
    vstd::arithmetic::div_mod::lemma_mod_multiples_basic(group, kv_heads);
    assert(fault(c, ts, f) is None);
}

/// Names of layer types: full attention, linear attention, and sliding
/// attention for all others.
pub proof fn layer_types_mean_their_kind(s: Seq<char>)
    ensures
        layer_kind(s) is Full <==> s == "full_attention"@ || s == "full"@,
        layer_kind(s) is LinearAttn <==> s == "linear_attention"@,
{
    reveal_strlit("full_attention");
    reveal_strlit("full");
    reveal_strlit("linear_attention");
    assert("full_attention"@.len() == 14 && "full"@.len() == 4 && "linear_attention"@.len() == 16);
}

proof fn lemma_all_present<T>(s: Seq<Option<T>>)
    requires
        forall|i: int| 0 <= i < s.len() ==> (#[trigger] s[i]) is Some,
    ensures
        present(s).len() == s.len(),
        forall|i: int| 0 <= i < s.len() ==> #[trigger] present(s)[i] == s[i]->0,
    decreases s.len(),
{
    if s.len() > 0 {
        let u = s.drop_last();
        assert forall|i: int| 0 <= i < u.len() implies (#[trigger] u[i]) is Some by {
            assert(u[i] == s[i]);
        }
        lemma_all_present(u);
        assert(s.last() is Some);
        assert forall|i: int| 0 <= i < s.len() implies #[trigger] present(s)[i] == s[i]->0 by {
            if i < u.len() {
                assert(present(u)[i] == u[i]->0);
            }
        }
    }
}

/// A list of integers gives tokens one for one; three give a rotary split, in
/// order, and any other number gives none.
pub proof fn lists_keep_their_order(items: Seq<Option<i64>>)
    requires
        forall|i: int|
            0 <= i < items.len() ==> (#[trigger] items[i] matches Some(n) && 0 <= n
                <= 0xffff_ffff),
    ensures
        as_tokens(Some(items)).len() == items.len(),
        forall|i: int|
            0 <= i < items.len() ==> #[trigger] as_tokens(Some(items))[i] == items[i]->0,
        items.len() == 3 ==> (as_split(Some(items)) matches Some(w) && w.0 == items[0]->0 && w.1
            == items[1]->0 && w.2 == items[2]->0),
        items.len() != 3 ==> as_split(Some(items)) is None,
{
    lemma_all_present(items);
    assert forall|i: int| 0 <= i < items.len() implies #[trigger] as_tokens(Some(items))[i]
        == items[i]->0 by {
        assert(present(items)[i] == items[i]->0);
        assert(items[i] is Some && 0 <= items[i]->0 <= 0xffff_ffff);
    }
    if items.len() == 3 {
        assert(present(items)[0] == items[0]->0);
        assert(present(items)[1] == items[1]->0);
        assert(present(items)[2] == items[2]->0);
        assert(items[0] is Some && items[1] is Some && items[2] is Some);
    }
}

/// Layers have the kinds of the list, in order; without a list all slide.
#[verifier::spinoff_prover]
#[verifier::rlimit(40)]
pub proof fn layers_have_the_listed_kinds(
    x: LlamaConfig,
    t: Seq<char>,
    ts: Seq<TensorMeta>,
    f: ConfigFloats,
    i: int,
)
    requires
        parsed(Ok(x), t, ts, f),
        0 <= i < x.num_hidden_layers,
    ensures
        x.layer_types@.len() == x.num_hidden_layers,
        toml_strings(t, "architecture"@, "layer_types"@) is None ==> x.layer_types@[i] is Sliding,
        toml_strings(t, "architecture"@, "layer_types"@) matches Some(names) ==> (forall|j: int|
            0 <= j < names.len() ==> (#[trigger] names[j]) is Some) ==> {
            &&& names.len() == x.num_hidden_layers
            &&& x.layer_types@[i] is Full <==> (names[i]->0 == "full_attention"@ || names[i]->0
                == "full"@)
            &&& x.layer_types@[i] is LinearAttn <==> names[i]->0 == "linear_attention"@
        },
{
    let d = document_fields(t);
    let c = choose|c: RawConfig| #[trigger]
        is_raw(c, d) && match fault(c, ts, f) {
            Some(e) => Ok::<LlamaConfig, FormatError>(x) matches Err(y) && y == e,
            None => Ok::<LlamaConfig, FormatError>(x) matches Ok(y) && is_config(y, c, ts, f),
        };
    assert(is_config(x, c, ts, f));
    match toml_strings(t, "architecture"@, "layer_types"@) {
        Some(names) => {
            if forall|j: int| 0 <= j < names.len() ==> (#[trigger] names[j]) is Some {
                lemma_all_present(names);
                assert(present(names)[i] == names[i]->0);
                layer_types_mean_their_kind(names[i]->0);
            }
        },
        None => {},
    }
}

/// A full layer has the value of full layers where there is one; every other
/// layer, and every layer where there is none, has the common value.
pub proof fn full_layers_have_their_own<T>(
    c: LlamaConfig,
    layer: usize,
    full: Option<T>,
    common: T,
)
    ensures
        layer < c.layer_types@.len() && c.layer_types@[layer as int] is Full ==> (full matches Some(
            v,
        ) ==> of_full(c, layer, full, common) == v),
        layer < c.layer_types@.len() && !(c.layer_types@[layer as int] is Full) ==> of_full(
            c,
            layer,
            full,
            common,
        ) == common,
        layer >= c.layer_types@.len() ==> of_full(c, layer, full, common) == common,
        full is None ==> of_full(c, layer, full, common) == common,
        layer < c.layer_types@.len() ==> kind_at(c, layer) == Some(c.layer_types@[layer as int]),
        layer >= c.layer_types@.len() ==> kind_at(c, layer) is None,
{
}

/// The rotated width is even and at most one less than what it is cut from.
pub proof fn widths_are_made_even(n: usize)
    ensures
        exists|h: int| even_below(n) == #[trigger] (2 * h),
        even_below(n) == n || even_below(n) + 1 == n,
{
    assert(even_below(n) == 2 * (n as int / 2));
}

/// The tests on bit patterns by the numbers they stand for: a pattern is
/// above zero where it is a number without a sign and not all zero, and a
/// fraction where it is besides below one; the default base is ten thousand,
/// and the default epsilon the float that is nearest to a millionth.
pub proof fn patterns_stand_for_numbers(bits: u32)
    ensures
        positive(bits) <==> !is_nan(bits) && !is_negative(bits) && significand(bits) > 0,
        not_positive(bits) <==> !is_nan(bits) && (is_negative(bits) || significand(bits) == 0),
        fraction(bits) <==> positive(bits) && exponent_field(bits) < 127,
        significand(ROPE_THETA_DEFAULT) == 10000 * 1024 && exponent(ROPE_THETA_DEFAULT) == -10,
        exponent(RMS_NORM_EPS_DEFAULT) == -43,
        -500_000 < significand(RMS_NORM_EPS_DEFAULT) * 1_000_000 - 0x800_0000_0000 < 500_000,
{
}

/// Under a key for a number a float comes before an integer.
pub proof fn floats_come_before_integers(float: u64, integer: Option<i64>, i: i64)
    ensures
        as_number(Some(float), integer) == Some(Number::Float(float)),
        as_number(None, Some(i)) == Some(Number::Integer(i)),
        as_number(None, None) is None,
{
}

/// Only full layers rotate a part of their heads, and only where the part is a
/// fraction: above zero and below one.
pub proof fn full_layers_may_rotate_a_part(c: LlamaConfig, layer: usize)
    ensures
        rotates_part(c, layer) <==> layer < c.layer_types@.len() && c.layer_types@[layer as int]
            is Full && (c.partial_rotary_factor_full matches Some(b) && b != 0 && b < 0x3F80_0000),
{
}

} // verus!
