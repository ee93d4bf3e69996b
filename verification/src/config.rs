//! The decoder's configuration, from the `config` section of a `.model` file.
//!
//! Fields that hold a single-precision float hold its bit pattern.

use vstd::prelude::*;

use crate::families::{self, AttnScale, FamilyProfile};
use crate::tensor::TensorMeta;
use crate::text;
use crate::toml_text;

verus! {

/// How a layer attends.
#[derive(Clone, Copy, Debug, PartialEq, Eq, Structural)]
pub enum LayerKind {
    Sliding,
    Full,
    /// A gated-delta layer, which has no attention.
    LinearAttn,
}

/// The activation of the feed-forward gate.
#[derive(Clone, Copy, Debug, PartialEq, Eq, Structural)]
pub enum HiddenActivation {
    Silu,
    GeluTanh,
    GeluErf,
}

/// The vision tower's configuration.
#[derive(Clone, Copy, Debug, PartialEq, Eq, Structural)]
pub struct VisionConfig {
    pub hidden_size: usize,
    pub num_heads: usize,
    pub intermediate_size: usize,
    pub depth: usize,
    pub patch_size: usize,
    pub in_channels: usize,
    pub spatial_merge_size: usize,
    pub temporal_patch_size: usize,
    pub num_position_embeddings: usize,
    pub out_hidden_size: usize,
    pub rope_theta: u32,
}

/// The decoder's configuration.
#[derive(Debug, PartialEq, Eq)]
pub struct LlamaConfig {
    pub model_type: String,
    pub hidden_size: usize,
    pub num_attention_heads: usize,
    pub num_key_value_heads: usize,
    pub num_hidden_layers: usize,
    pub intermediate_size: usize,
    pub vocab_size: usize,
    pub max_position_embeddings: usize,
    pub rope_theta: u32,
    pub rms_norm_eps: u32,
    pub tie_word_embeddings: bool,
    pub head_dim: usize,
    /// Read off the tensors that are there.
    pub has_qk_norm: bool,
    pub has_attn_bias: bool,
    pub eos_token_ids: Vec<u32>,
    /// One entry per layer.
    pub layer_types: Vec<LayerKind>,
    /// Window of sliding layers.
    pub sliding_window: Option<usize>,
    pub hidden_activation: HiddenActivation,
    /// Cap of the logits; absent where there is none.
    pub final_logit_softcapping: Option<u32>,
    pub attention_k_eq_v: bool,
    /// Head width of full layers, where it differs.
    pub global_head_dim: Option<usize>,
    /// Key-value heads of full layers, where they differ.
    pub num_global_key_value_heads: Option<usize>,
    /// Rotary base of full layers, where it differs.
    pub rope_theta_full: Option<u32>,
    /// Rotated fraction of the head width of full layers.
    pub partial_rotary_factor_full: Option<u32>,
    /// Split of the rotary frequencies over three axes.
    pub mrope_section: Option<(usize, usize, usize)>,
    pub query_pre_attn_scalar: Option<usize>,
    pub family: FamilyProfile,
    pub linear_num_value_heads: Option<usize>,
    pub linear_num_key_heads: Option<usize>,
    pub linear_key_head_dim: Option<usize>,
    pub linear_value_head_dim: Option<usize>,
    pub linear_conv_kernel_dim: Option<usize>,
    pub vision: Option<VisionConfig>,
    pub image_token_id: Option<u32>,
    pub video_token_id: Option<u32>,
    pub vision_start_token_id: Option<u32>,
    pub vision_end_token_id: Option<u32>,
}

/// A number of the document: a double-precision float, as its bit pattern, or
/// an integer.
#[derive(Clone, Copy, Debug, PartialEq, Eq, Structural)]
pub enum Number {
    Float(u64),
    Integer(i64),
}

/// The numbers of the document that become single-precision floats.
#[derive(Clone, Copy, Debug, PartialEq, Eq, Structural)]
pub struct ConfigNumbers {
    pub rope_theta: Option<Number>,
    pub rms_norm_eps: Option<Number>,
    pub final_logit_softcapping: Option<Number>,
    pub rope_theta_full: Option<Number>,
    pub partial_rotary_factor_full: Option<Number>,
    pub vision_rope_theta: Option<i64>,
}

/// The same numbers in single precision.
#[derive(Clone, Copy, Debug, PartialEq, Eq, Structural)]
pub struct ConfigFloats {
    pub rope_theta: Option<u32>,
    pub rms_norm_eps: Option<u32>,
    pub final_logit_softcapping: Option<u32>,
    pub rope_theta_full: Option<u32>,
    pub partial_rotary_factor_full: Option<u32>,
    pub vision_rope_theta: Option<u32>,
}

/// The fields that the document must have.
#[derive(Clone, Copy, Debug, PartialEq, Eq, Structural)]
pub enum RequiredField {
    HiddenSize,
    NumAttentionHeads,
    NumHiddenLayers,
    IntermediateSize,
    VocabSize,
}

/// Why a configuration was refused.
#[derive(Debug, PartialEq, Eq)]
pub enum FormatError {
    /// The text is no document; the parser's message.
    Toml(String),
    /// There is no table `architecture`.
    MissingArchitecture,
    /// A required field is missing or no integer.
    MissingField(RequiredField),
    /// The head width is zero or odd.
    HeadDim(usize),
    NoHeads,
    /// The key-value heads do not divide the heads.
    HeadGroups { heads: usize, kv_heads: usize },
    NoLayers,
    NoVocabulary,
    /// The rotary base is not positive.
    RopeTheta(u32),
    /// The norm's epsilon is not between zero and one.
    RmsNormEps(u32),
    /// There is not one layer type per layer.
    LayerTypes { types: usize, layers: usize },
}

/// The bit pattern of ten thousand.
pub const ROPE_THETA_DEFAULT: u32 = 0x461C_4000;

/// The bit pattern of one millionth.
pub const RMS_NORM_EPS_DEFAULT: u32 = 0x3586_37BD;

/// The float is zero or negative.
pub open spec fn not_positive(bits: u32) -> bool {
    bits == 0 || 0x8000_0000 <= bits <= 0xFF80_0000
}

/// The float is above zero.
pub open spec fn positive(bits: u32) -> bool {
    0 < bits <= 0x7F80_0000
}

/// The float is above zero and below one.
pub open spec fn fraction(bits: u32) -> bool {
    0 < bits < 0x3F80_0000
}

/// An epsilon that is stored as its inverse: it is one or more.
pub open spec fn stored_as_inverse(n: Number) -> bool {
    match n {
        Number::Float(bits) => 0x3FF0_0000_0000_0000 <= bits <= 0x7FF0_0000_0000_0000,
        Number::Integer(i) => i >= 1,
    }
}

/// Whether an epsilon is stored as its inverse.
pub fn is_stored_as_inverse(n: Number) -> (b: bool)
    ensures
        b == stored_as_inverse(n),
{
    match n {
        Number::Float(bits) => 0x3FF0_0000_0000_0000 <= bits && bits <= 0x7FF0_0000_0000_0000,
        Number::Integer(i) => i >= 1,
    }
}

/// A number under a key: the float that stands there, else the integer.
pub open spec fn as_number(float: Option<u64>, integer: Option<i64>) -> Option<Number> {
    match float {
        Some(bits) => Some(Number::Float(bits)),
        None => match integer {
            Some(i) => Some(Number::Integer(i)),
            None => None,
        },
    }
}

/// A number under a key.
pub fn number_of(float: Option<u64>, integer: Option<i64>) -> (n: Option<Number>)
    ensures
        n == as_number(float, integer),
{
    match float {
        Some(bits) => Some(Number::Float(bits)),
        None => match integer {
            Some(i) => Some(Number::Integer(i)),
            None => None,
        },
    }
}

/// A number of the architecture table.
pub open spec fn arch_number(t: Seq<char>, key: Seq<char>) -> Option<Number> {
    as_number(
        toml_text::toml_float(t, "architecture"@, key),
        toml_text::toml_integer(t, "architecture"@, key),
    )
}

/// The same number, or none on both sides; the bits of a float that is not a
/// number are left open.
pub open spec fn same_number(a: Option<Number>, b: Option<Number>) -> bool {
    match (a, b) {
        (Some(Number::Float(x)), Some(Number::Float(y))) => toml_text::same_float(Some(x), Some(y)),
        _ => a == b,
    }
}

fn number_in(t: &str, key: &str) -> (n: Option<Number>)
    ensures
        same_number(n, arch_number(t@, key@)),
{
    number_of(
        toml_text::float_in(t, "architecture", key),
        toml_text::integer_in(t, "architecture", key),
    )
}

/// The numbers of a document that become single-precision floats.
pub fn config_numbers(config_toml: &str) -> (n: ConfigNumbers)
    ensures
        same_number(n.rope_theta, arch_number(config_toml@, "rope_theta"@)),
        same_number(n.rms_norm_eps, arch_number(config_toml@, "rms_norm_eps"@)),
        same_number(n.final_logit_softcapping, arch_number(config_toml@, "final_logit_softcapping"@)),
        same_number(n.rope_theta_full, arch_number(config_toml@, "rope_theta_full"@)),
        same_number(
            n.partial_rotary_factor_full,
            arch_number(config_toml@, "partial_rotary_factor_full"@),
        ),
        n.vision_rope_theta == toml_text::toml_inner_integer(
            config_toml@,
            "architecture"@,
            "vision"@,
            "rope_theta"@,
        ),
{
    ConfigNumbers {
        rope_theta: number_in(config_toml, "rope_theta"),
        rms_norm_eps: number_in(config_toml, "rms_norm_eps"),
        final_logit_softcapping: number_in(config_toml, "final_logit_softcapping"),
        rope_theta_full: number_in(config_toml, "rope_theta_full"),
        partial_rotary_factor_full: number_in(config_toml, "partial_rotary_factor_full"),
        vision_rope_theta: toml_text::inner_integer(
            config_toml,
            "architecture",
            "vision",
            "rope_theta",
        ),
    }
}

/// What the document says of the architecture, with absent fields absent.
#[derive(Debug, PartialEq, Eq)]
pub struct RawConfig {
    pub model_type: String,
    pub hidden_size: usize,
    pub num_attention_heads: usize,
    pub num_hidden_layers: usize,
    pub intermediate_size: usize,
    pub vocab_size: usize,
    pub num_key_value_heads: Option<usize>,
    pub max_position_embeddings: Option<usize>,
    pub tie_word_embeddings: Option<bool>,
    pub head_dim: Option<usize>,
    pub eos_token_ids: Vec<u32>,
    pub layer_types: Option<Vec<LayerKind>>,
    pub hidden_activation: HiddenActivation,
    pub attention_k_eq_v: bool,
    pub mrope_section: Option<(usize, usize, usize)>,
    pub sliding_window: Option<usize>,
    pub global_head_dim: Option<usize>,
    pub num_global_key_value_heads: Option<usize>,
    pub query_pre_attn_scalar: Option<usize>,
    pub linear_num_value_heads: Option<usize>,
    pub linear_num_key_heads: Option<usize>,
    pub linear_key_head_dim: Option<usize>,
    pub linear_value_head_dim: Option<usize>,
    pub linear_conv_kernel_dim: Option<usize>,
    pub image_token_id: Option<u32>,
    pub video_token_id: Option<u32>,
    pub vision_start_token_id: Option<u32>,
    pub vision_end_token_id: Option<u32>,
    /// Without its rotary base.
    pub vision: Option<VisionConfig>,
}

/// An integer as a size; negative ones wrap around.
pub open spec fn as_size(i: Option<i64>) -> Option<usize> {
    match i {
        Some(i) => Some(i as usize),
        None => None,
    }
}

/// An integer as a token; it is cut to 32 bits.
pub open spec fn as_token(i: Option<i64>) -> Option<u32> {
    match i {
        Some(i) => Some(i as u32),
        None => None,
    }
}

/// The items that are there.
pub open spec fn present<T>(s: Seq<Option<T>>) -> Seq<T>
    decreases s.len(),
{
    if s.len() == 0 {
        Seq::empty()
    } else {
        match s.last() {
            Some(x) => present(s.drop_last()).push(x),
            None => present(s.drop_last()),
        }
    }
}

/// The kind that a layer type names; unknown types slide.
pub open spec fn layer_kind(s: Seq<char>) -> LayerKind {
    if s == "full_attention"@ || s == "full"@ {
        LayerKind::Full
    } else if s == "linear_attention"@ {
        LayerKind::LinearAttn
    } else {
        LayerKind::Sliding
    }
}

/// The activation that a name means; unknown names mean SiLU.
pub open spec fn activation(s: Option<Seq<char>>) -> HiddenActivation {
    match s {
        Some(n) => if n == "gelu_pytorch_tanh"@ || n == "gelu_tanh"@ {
            HiddenActivation::GeluTanh
        } else if n == "gelu"@ || n == "gelu_erf"@ {
            HiddenActivation::GeluErf
        } else {
            HiddenActivation::Silu
        },
        None => HiddenActivation::Silu,
    }
}

/// The tokens of a list: its integers.
pub open spec fn as_tokens(items: Option<Seq<Option<i64>>>) -> Seq<u32> {
    match items {
        Some(items) => present(items).map_values(|i: i64| i as u32),
        None => Seq::empty(),
    }
}

/// The kinds of a list of layer types: those of its strings.
pub open spec fn as_kinds(items: Option<Seq<Option<Seq<char>>>>) -> Option<Seq<LayerKind>> {
    match items {
        Some(items) => Some(present(items).map_values(|s: Seq<char>| layer_kind(s))),
        None => None,
    }
}

/// The rotary split of a list: three integers.
pub open spec fn as_split(items: Option<Seq<Option<i64>>>) -> Option<(usize, usize, usize)> {
    match items {
        Some(items) => {
            let v = present(items);
            if v.len() == 3 {
                Some((v[0] as usize, v[1] as usize, v[2] as usize))
            } else {
                None
            }
        },
        None => None,
    }
}

/// The integers of a vision table.
#[derive(Clone, Copy, Debug, PartialEq, Eq, Structural)]
pub struct VisionFields {
    pub hidden_size: Option<i64>,
    pub num_heads: Option<i64>,
    pub intermediate_size: Option<i64>,
    pub depth: Option<i64>,
    pub patch_size: Option<i64>,
    pub in_channels: Option<i64>,
    pub spatial_merge_size: Option<i64>,
    pub temporal_patch_size: Option<i64>,
    pub num_position_embeddings: Option<i64>,
    pub out_hidden_size: Option<i64>,
}

/// An integer as a size, or the default.
pub open spec fn size_or(i: Option<i64>, default: usize) -> usize {
    match i {
        Some(i) => i as usize,
        None => default,
    }
}

/// The vision tower of a table, without its rotary base. Where the table does
/// not say otherwise, its result is as wide as the decoder.
pub open spec fn vision_from(f: VisionFields, hidden_size: usize) -> VisionConfig {
    VisionConfig {
        hidden_size: size_or(f.hidden_size, 1152),
        num_heads: size_or(f.num_heads, 16),
        intermediate_size: size_or(f.intermediate_size, 4304),
        depth: size_or(f.depth, 27),
        patch_size: size_or(f.patch_size, 16),
        in_channels: size_or(f.in_channels, 3),
        spatial_merge_size: size_or(f.spatial_merge_size, 2),
        temporal_patch_size: size_or(f.temporal_patch_size, 2),
        num_position_embeddings: size_or(f.num_position_embeddings, 2304),
        out_hidden_size: size_or(f.out_hidden_size, hidden_size),
        rope_theta: ROPE_THETA_DEFAULT,
    }
}

/// An integer of the vision table.
pub open spec fn vision_integer(t: Seq<char>, key: Seq<char>) -> Option<i64> {
    toml_text::toml_inner_integer(t, "architecture"@, "vision"@, key)
}

/// The integers of the vision table of a document.
pub open spec fn vision_fields(t: Seq<char>) -> VisionFields {
    VisionFields {
        hidden_size: vision_integer(t, "hidden_size"@),
        num_heads: vision_integer(t, "num_heads"@),
        intermediate_size: vision_integer(t, "intermediate_size"@),
        depth: vision_integer(t, "depth"@),
        patch_size: vision_integer(t, "patch_size"@),
        in_channels: vision_integer(t, "in_channels"@),
        spatial_merge_size: vision_integer(t, "spatial_merge_size"@),
        temporal_patch_size: vision_integer(t, "temporal_patch_size"@),
        num_position_embeddings: vision_integer(t, "num_position_embeddings"@),
        out_hidden_size: vision_integer(t, "out_hidden_size"@),
    }
}

/// The integers of an architecture table.
#[derive(Clone, Copy, Debug, PartialEq, Eq, Structural)]
pub struct IntegerFields {
    pub hidden_size: Option<i64>,
    pub num_attention_heads: Option<i64>,
    pub num_hidden_layers: Option<i64>,
    pub intermediate_size: Option<i64>,
    pub vocab_size: Option<i64>,
    pub num_key_value_heads: Option<i64>,
    pub max_position_embeddings: Option<i64>,
    pub head_dim: Option<i64>,
    pub sliding_window: Option<i64>,
    pub global_head_dim: Option<i64>,
    pub num_global_key_value_heads: Option<i64>,
    pub query_pre_attn_scalar: Option<i64>,
    pub linear_num_value_heads: Option<i64>,
    pub linear_num_key_heads: Option<i64>,
    pub linear_key_head_dim: Option<i64>,
    pub linear_value_head_dim: Option<i64>,
    pub linear_conv_kernel_dim: Option<i64>,
    pub image_token_id: Option<i64>,
    pub video_token_id: Option<i64>,
    pub vision_start_token_id: Option<i64>,
    pub vision_end_token_id: Option<i64>,
}

/// What a document holds under the keys of a configuration.
#[derive(Debug, PartialEq, Eq)]
pub struct ConfigFields {
    /// The parser's message where the text is no document.
    pub refusal: Option<String>,
    pub model_type: Option<String>,
    /// There is a table `architecture`.
    pub architecture: bool,
    pub integers: IntegerFields,
    /// Of the table `architecture`.
    pub tie_word_embeddings: Option<bool>,
    /// Of the document itself.
    pub root_tie_word_embeddings: Option<bool>,
    pub attention_k_eq_v: Option<bool>,
    pub eos_token_ids: Option<Vec<Option<i64>>>,
    pub layer_types: Option<Vec<Option<String>>>,
    pub hidden_activation: Option<String>,
    pub mrope_section: Option<Vec<Option<i64>>>,
    pub vision: Option<VisionFields>,
}

/// What a document holds under the keys of a configuration.
pub struct ConfigFieldsView {
    pub refusal: Option<Seq<char>>,
    pub model_type: Option<Seq<char>>,
    pub architecture: bool,
    pub integers: IntegerFields,
    pub tie_word_embeddings: Option<bool>,
    pub root_tie_word_embeddings: Option<bool>,
    pub attention_k_eq_v: Option<bool>,
    pub eos_token_ids: Option<Seq<Option<i64>>>,
    pub layer_types: Option<Seq<Option<Seq<char>>>>,
    pub hidden_activation: Option<Seq<char>>,
    pub mrope_section: Option<Seq<Option<i64>>>,
    pub vision: Option<VisionFields>,
}

/// A list of integers as a sequence.
pub open spec fn optional_items(items: Option<Vec<Option<i64>>>) -> Option<Seq<Option<i64>>> {
    match items {
        Some(v) => Some(v@),
        None => None,
    }
}

/// A list of strings as a sequence.
pub open spec fn optional_texts(items: Option<Vec<Option<String>>>) -> Option<
    Seq<Option<Seq<char>>>,
> {
    match items {
        Some(v) => Some(toml_text::optionals(v@)),
        None => None,
    }
}

impl View for ConfigFields {
    type V = ConfigFieldsView;

    open spec fn view(&self) -> ConfigFieldsView {
        ConfigFieldsView {
            refusal: toml_text::optional(self.refusal),
            model_type: toml_text::optional(self.model_type),
            architecture: self.architecture,
            integers: self.integers,
            tie_word_embeddings: self.tie_word_embeddings,
            root_tie_word_embeddings: self.root_tie_word_embeddings,
            attention_k_eq_v: self.attention_k_eq_v,
            eos_token_ids: optional_items(self.eos_token_ids),
            layer_types: optional_texts(self.layer_types),
            hidden_activation: toml_text::optional(self.hidden_activation),
            mrope_section: optional_items(self.mrope_section),
            vision: self.vision,
        }
    }
}

/// An integer of the architecture table.
pub open spec fn arch_integer(t: Seq<char>, key: Seq<char>) -> Option<i64> {
    toml_text::toml_integer(t, "architecture"@, key)
}

/// The integers of the architecture table of a document.
pub open spec fn integer_fields(t: Seq<char>) -> IntegerFields {
    IntegerFields {
        hidden_size: arch_integer(t, "hidden_size"@),
        num_attention_heads: arch_integer(t, "num_attention_heads"@),
        num_hidden_layers: arch_integer(t, "num_hidden_layers"@),
        intermediate_size: arch_integer(t, "intermediate_size"@),
        vocab_size: arch_integer(t, "vocab_size"@),
        num_key_value_heads: arch_integer(t, "num_key_value_heads"@),
        max_position_embeddings: arch_integer(t, "max_position_embeddings"@),
        head_dim: arch_integer(t, "head_dim"@),
        sliding_window: arch_integer(t, "sliding_window"@),
        global_head_dim: arch_integer(t, "global_head_dim"@),
        num_global_key_value_heads: arch_integer(t, "num_global_key_value_heads"@),
        query_pre_attn_scalar: arch_integer(t, "query_pre_attn_scalar"@),
        linear_num_value_heads: arch_integer(t, "linear_num_value_heads"@),
        linear_num_key_heads: arch_integer(t, "linear_num_key_heads"@),
        linear_key_head_dim: arch_integer(t, "linear_key_head_dim"@),
        linear_value_head_dim: arch_integer(t, "linear_value_head_dim"@),
        linear_conv_kernel_dim: arch_integer(t, "linear_conv_kernel_dim"@),
        image_token_id: arch_integer(t, "image_token_id"@),
        video_token_id: arch_integer(t, "video_token_id"@),
        vision_start_token_id: arch_integer(t, "vision_start_token_id"@),
        vision_end_token_id: arch_integer(t, "vision_end_token_id"@),
    }
}

/// The fields of a document.
pub open spec fn document_fields(t: Seq<char>) -> ConfigFieldsView {
    ConfigFieldsView {
        refusal: toml_text::toml_refusal(t),
        model_type: toml_text::toml_root_string(t, "model_type"@),
        architecture: toml_text::toml_root_has(t, "architecture"@),
        integers: integer_fields(t),
        tie_word_embeddings: toml_text::toml_bool(t, "architecture"@, "tie_word_embeddings"@),
        root_tie_word_embeddings: toml_text::toml_root_bool(t, "tie_word_embeddings"@),
        attention_k_eq_v: toml_text::toml_bool(t, "architecture"@, "attention_k_eq_v"@),
        eos_token_ids: toml_text::toml_integers(t, "tokenizer"@, "eos_token_ids"@),
        layer_types: toml_text::toml_strings(t, "architecture"@, "layer_types"@),
        hidden_activation: toml_text::toml_string(t, "architecture"@, "hidden_activation"@),
        mrope_section: toml_text::toml_integers(t, "architecture"@, "mrope_section"@),
        vision: if toml_text::toml_has(t, "architecture"@, "vision"@) {
            Some(vision_fields(t))
        } else {
            None
        },
    }
}

/// The first required field that is not there.
pub open spec fn lacking(n: IntegerFields) -> Option<RequiredField> {
    if n.hidden_size is None {
        Some(RequiredField::HiddenSize)
    } else if n.num_attention_heads is None {
        Some(RequiredField::NumAttentionHeads)
    } else if n.num_hidden_layers is None {
        Some(RequiredField::NumHiddenLayers)
    } else if n.intermediate_size is None {
        Some(RequiredField::IntermediateSize)
    } else if n.vocab_size is None {
        Some(RequiredField::VocabSize)
    } else {
        None
    }
}

/// Why a document is refused before its fields are looked at together.
pub open spec fn unreadable(f: ConfigFieldsView, e: FormatError) -> bool {
    match f.refusal {
        Some(m) => e matches FormatError::Toml(s) && s@ == m,
        None => if !f.architecture {
            e is MissingArchitecture
        } else {
            e matches FormatError::MissingField(k) && lacking(f.integers) == Some(k)
        },
    }
}

/// All that is required is there.
pub open spec fn readable(f: ConfigFieldsView) -> bool {
    f.refusal is None && f.architecture && lacking(f.integers) is None
}

/// The configuration as the fields give it.
pub open spec fn is_raw(c: RawConfig, f: ConfigFieldsView) -> bool {
    &&& c.model_type@ == (match f.model_type {
        Some(s) => s,
        None => "unknown"@,
    })
    &&& Some(c.hidden_size) == as_size(f.integers.hidden_size)
    &&& Some(c.num_attention_heads) == as_size(f.integers.num_attention_heads)
    &&& Some(c.num_hidden_layers) == as_size(f.integers.num_hidden_layers)
    &&& Some(c.intermediate_size) == as_size(f.integers.intermediate_size)
    &&& Some(c.vocab_size) == as_size(f.integers.vocab_size)
    &&& c.num_key_value_heads == as_size(f.integers.num_key_value_heads)
    &&& c.max_position_embeddings == as_size(f.integers.max_position_embeddings)
    &&& c.head_dim == as_size(f.integers.head_dim)
    &&& c.sliding_window == as_size(f.integers.sliding_window)
    &&& c.global_head_dim == as_size(f.integers.global_head_dim)
    &&& c.num_global_key_value_heads == as_size(f.integers.num_global_key_value_heads)
    &&& c.query_pre_attn_scalar == as_size(f.integers.query_pre_attn_scalar)
    &&& c.linear_num_value_heads == as_size(f.integers.linear_num_value_heads)
    &&& c.linear_num_key_heads == as_size(f.integers.linear_num_key_heads)
    &&& c.linear_key_head_dim == as_size(f.integers.linear_key_head_dim)
    &&& c.linear_value_head_dim == as_size(f.integers.linear_value_head_dim)
    &&& c.linear_conv_kernel_dim == as_size(f.integers.linear_conv_kernel_dim)
    &&& c.image_token_id == as_token(f.integers.image_token_id)
    &&& c.video_token_id == as_token(f.integers.video_token_id)
    &&& c.vision_start_token_id == as_token(f.integers.vision_start_token_id)
    &&& c.vision_end_token_id == as_token(f.integers.vision_end_token_id)
    &&& c.tie_word_embeddings == (match f.tie_word_embeddings {
        Some(b) => Some(b),
        None => f.root_tie_word_embeddings,
    })
    &&& c.eos_token_ids@ == as_tokens(f.eos_token_ids)
    &&& (match as_kinds(f.layer_types) {
        Some(k) => c.layer_types matches Some(v) && v@ == k,
        None => c.layer_types is None,
    })
    &&& c.hidden_activation == activation(f.hidden_activation)
    &&& c.attention_k_eq_v == (f.attention_k_eq_v == Some(true))
    &&& c.mrope_section == as_split(f.mrope_section)
    &&& c.vision == (match f.vision {
        Some(v) => Some(vision_from(v, c.hidden_size)),
        None => None,
    })
}

/// An integer as a size.
pub fn size_of(i: Option<i64>) -> (n: Option<usize>)
    ensures
        n == as_size(i),
{
    match i {
        Some(i) => Some(i as usize),
        None => None,
    }
}

/// An integer as a token.
pub fn token_of(i: Option<i64>) -> (n: Option<u32>)
    ensures
        n == as_token(i),
{
    match i {
        Some(i) => Some(i as u32),
        None => None,
    }
}

fn size_or_default(i: Option<i64>, default: usize) -> (n: usize)
    ensures
        n == size_or(i, default),
{
    match i {
        Some(i) => i as usize,
        None => default,
    }
}

fn present_integers(items: &Vec<Option<i64>>) -> (out: Vec<i64>)
    ensures
        out@ == present(items@),
{
    let mut out: Vec<i64> = Vec::new();
    let mut i: usize = 0;
    assert(items@.take(0) =~= Seq::<Option<i64>>::empty());
    while i < items.len()
        invariant
            i <= items@.len(),
            out@ == present(items@.take(i as int)),
        decreases items@.len() - i,
    {
        proof {
            let next = items@.take(i + 1);
            assert(next.drop_last() =~= items@.take(i as int));
            assert(next.last() == items@[i as int]);
        }
        match items[i] {
            Some(x) => {
                out.push(x);
            },
            None => {},
        }
        i = i + 1;
    }
    assert(items@.take(items@.len() as int) =~= items@);
    out
}

/// The tokens of a list.
pub fn tokens_of(items: Option<Vec<Option<i64>>>) -> (out: Vec<u32>)
    ensures
        out@ == as_tokens(optional_items(items)),
{
    let mut out: Vec<u32> = Vec::new();
    match &items {
        Some(list) => {
            let v = present_integers(list);
            let mut i: usize = 0;
            while i < v.len()
                invariant
                    i <= v@.len(),
                    out@ == v@.take(i as int).map_values(|x: i64| x as u32),
                decreases v@.len() - i,
            {
                out.push(v[i] as u32);
                i = i + 1;
                assert(out@ =~= v@.take(i as int).map_values(|x: i64| x as u32));
            }
            assert(v@.take(v@.len() as int) =~= v@);
        },
        None => {},
    }
    assert(out@ =~= as_tokens(optional_items(items)));
    out
}

/// The kind that a layer type names.
pub fn kind_of(s: &str) -> (k: LayerKind)
    ensures
        k == layer_kind(s@),
{
    if text::text_eq(s, "full_attention") || text::text_eq(s, "full") {
        LayerKind::Full
    } else if text::text_eq(s, "linear_attention") {
        LayerKind::LinearAttn
    } else {
        LayerKind::Sliding
    }
}

/// The kinds of a list of layer types.
pub fn kinds_of(items: &Vec<Option<String>>) -> (out: Vec<LayerKind>)
    ensures
        out@ == present(toml_text::optionals(items@)).map_values(|s: Seq<char>| layer_kind(s)),
{
    let ghost all = toml_text::optionals(items@);
    let ghost kind = |s: Seq<char>| layer_kind(s);
    let mut out: Vec<LayerKind> = Vec::new();
    let mut i: usize = 0;
    assert(all.take(0) =~= Seq::<Option<Seq<char>>>::empty());
    assert(out@ =~= present(all.take(0)).map_values(kind));
    while i < items.len()
        invariant
            i <= items@.len(),
            all == toml_text::optionals(items@),
            kind == (|s: Seq<char>| layer_kind(s)),
            out@ == present(all.take(i as int)).map_values(kind),
        decreases items@.len() - i,
    {
        let ghost before = present(all.take(i as int));
        proof {
            let next = all.take(i + 1);
            assert(next.drop_last() =~= all.take(i as int));
            assert(next.last() == toml_text::optional(items@[i as int]));
        }
        match &items[i] {
            Some(s) => {
                out.push(kind_of(s.as_str()));
                assert(present(all.take(i + 1)) == before.push(s@));
                assert(out@ =~= before.push(s@).map_values(kind));
            },
            None => {},
        }
        i = i + 1;
    }
    assert(all.take(all.len() as int) =~= all);
    out
}

/// The activation that a name means.
pub fn activation_of(name: Option<String>) -> (a: HiddenActivation)
    ensures
        a == activation(toml_text::optional(name)),
{
    match name {
        Some(n) => {
            let s = n.as_str();
            if text::text_eq(s, "gelu_pytorch_tanh") || text::text_eq(s, "gelu_tanh") {
                HiddenActivation::GeluTanh
            } else if text::text_eq(s, "gelu") || text::text_eq(s, "gelu_erf") {
                HiddenActivation::GeluErf
            } else {
                HiddenActivation::Silu
            }
        },
        None => HiddenActivation::Silu,
    }
}

/// The rotary split of a list.
pub fn split_of(items: Option<Vec<Option<i64>>>) -> (r: Option<(usize, usize, usize)>)
    ensures
        r == as_split(optional_items(items)),
{
    match &items {
        Some(list) => {
            let v = present_integers(list);
            if v.len() == 3 {
                Some((v[0] as usize, v[1] as usize, v[2] as usize))
            } else {
                None
            }
        },
        None => None,
    }
}

/// The vision tower of a table, without its rotary base.
pub fn vision_with(f: VisionFields, hidden_size: usize) -> (v: VisionConfig)
    ensures
        v == vision_from(f, hidden_size),
{
    VisionConfig {
        hidden_size: size_or_default(f.hidden_size, 1152),
        num_heads: size_or_default(f.num_heads, 16),
        intermediate_size: size_or_default(f.intermediate_size, 4304),
        depth: size_or_default(f.depth, 27),
        patch_size: size_or_default(f.patch_size, 16),
        in_channels: size_or_default(f.in_channels, 3),
        spatial_merge_size: size_or_default(f.spatial_merge_size, 2),
        temporal_patch_size: size_or_default(f.temporal_patch_size, 2),
        num_position_embeddings: size_or_default(f.num_position_embeddings, 2304),
        out_hidden_size: size_or_default(f.out_hidden_size, hidden_size),
        rope_theta: ROPE_THETA_DEFAULT,
    }
}

fn vision_field(t: &str, key: &str) -> (i: Option<i64>)
    ensures
        i == vision_integer(t@, key@),
{
    toml_text::inner_integer(t, "architecture", "vision", key)
}

fn integer_field(t: &str, key: &str) -> (i: Option<i64>)
    ensures
        i == arch_integer(t@, key@),
{
    toml_text::integer_in(t, "architecture", key)
}

/// Looks the fields up in a document.
pub fn look_up(config_toml: &str) -> (f: ConfigFields)
    ensures
        f@ == document_fields(config_toml@),
{
    let t = config_toml;
    let integers = IntegerFields {
        hidden_size: integer_field(t, "hidden_size"),
        num_attention_heads: integer_field(t, "num_attention_heads"),
        num_hidden_layers: integer_field(t, "num_hidden_layers"),
        intermediate_size: integer_field(t, "intermediate_size"),
        vocab_size: integer_field(t, "vocab_size"),
        num_key_value_heads: integer_field(t, "num_key_value_heads"),
        max_position_embeddings: integer_field(t, "max_position_embeddings"),
        head_dim: integer_field(t, "head_dim"),
        sliding_window: integer_field(t, "sliding_window"),
        global_head_dim: integer_field(t, "global_head_dim"),
        num_global_key_value_heads: integer_field(t, "num_global_key_value_heads"),
        query_pre_attn_scalar: integer_field(t, "query_pre_attn_scalar"),
        linear_num_value_heads: integer_field(t, "linear_num_value_heads"),
        linear_num_key_heads: integer_field(t, "linear_num_key_heads"),
        linear_key_head_dim: integer_field(t, "linear_key_head_dim"),
        linear_value_head_dim: integer_field(t, "linear_value_head_dim"),
        linear_conv_kernel_dim: integer_field(t, "linear_conv_kernel_dim"),
        image_token_id: integer_field(t, "image_token_id"),
        video_token_id: integer_field(t, "video_token_id"),
        vision_start_token_id: integer_field(t, "vision_start_token_id"),
        vision_end_token_id: integer_field(t, "vision_end_token_id"),
    };
    let vision = if toml_text::has_in(t, "architecture", "vision") {
        Some(
            VisionFields {
                hidden_size: vision_field(t, "hidden_size"),
                num_heads: vision_field(t, "num_heads"),
                intermediate_size: vision_field(t, "intermediate_size"),
                depth: vision_field(t, "depth"),
                patch_size: vision_field(t, "patch_size"),
                in_channels: vision_field(t, "in_channels"),
                spatial_merge_size: vision_field(t, "spatial_merge_size"),
                temporal_patch_size: vision_field(t, "temporal_patch_size"),
                num_position_embeddings: vision_field(t, "num_position_embeddings"),
                out_hidden_size: vision_field(t, "out_hidden_size"),
            },
        )
    } else {
        None
    };
    ConfigFields {
        refusal: toml_text::refusal(t),
        model_type: toml_text::root_string(t, "model_type"),
        architecture: toml_text::root_has(t, "architecture"),
        integers,
        tie_word_embeddings: toml_text::bool_in(t, "architecture", "tie_word_embeddings"),
        root_tie_word_embeddings: toml_text::root_bool(t, "tie_word_embeddings"),
        attention_k_eq_v: toml_text::bool_in(t, "architecture", "attention_k_eq_v"),
        eos_token_ids: toml_text::integers_in(t, "tokenizer", "eos_token_ids"),
        layer_types: toml_text::strings_in(t, "architecture", "layer_types"),
        hidden_activation: toml_text::string_in(t, "architecture", "hidden_activation"),
        mrope_section: toml_text::integers_in(t, "architecture", "mrope_section"),
        vision,
    }
}

fn required(i: Option<i64>, field: RequiredField) -> (r: Result<usize, FormatError>)
    ensures
        match as_size(i) {
            Some(n) => r matches Ok(x) && x == n,
            None => r matches Err(e) && e == FormatError::MissingField(field),
        },
{
    match i {
        Some(n) => Ok(n as usize),
        None => Err(FormatError::MissingField(field)),
    }
}

/// The configuration as the fields give it.
pub fn raw_config(f: ConfigFields) -> (r: Result<RawConfig, FormatError>)
    ensures
        readable(f@) ==> (r matches Ok(c) && is_raw(c, f@)),
        !readable(f@) ==> (r matches Err(e) && unreadable(f@, e)),
{
    match f.refusal {
        Some(m) => {
            return Err(FormatError::Toml(m));
        },
        None => {},
    }
    if !f.architecture {
        return Err(FormatError::MissingArchitecture);
    }
    let n = f.integers;
    let hidden_size: usize = match required(n.hidden_size, RequiredField::HiddenSize) {
        Ok(n) => n,
        Err(e) => {
            return Err(e);
        },
    };
    let num_attention_heads: usize = match required(
        n.num_attention_heads,
        RequiredField::NumAttentionHeads,
    ) {
        Ok(n) => n,
        Err(e) => {
            return Err(e);
        },
    };
    let num_hidden_layers: usize = match required(
        n.num_hidden_layers,
        RequiredField::NumHiddenLayers,
    ) {
        Ok(n) => n,
        Err(e) => {
            return Err(e);
        },
    };
    let intermediate_size: usize = match required(
        n.intermediate_size,
        RequiredField::IntermediateSize,
    ) {
        Ok(n) => n,
        Err(e) => {
            return Err(e);
        },
    };
    let vocab_size: usize = match required(n.vocab_size, RequiredField::VocabSize) {
        Ok(n) => n,
        Err(e) => {
            return Err(e);
        },
    };
    let model_type = match f.model_type {
        Some(s) => s,
        None => "unknown".to_owned(),
    };
    let layer_types = match &f.layer_types {
        Some(items) => Some(kinds_of(items)),
        None => None,
    };
    let tie_word_embeddings = match f.tie_word_embeddings {
        Some(b) => Some(b),
        None => f.root_tie_word_embeddings,
    };
    let attention_k_eq_v: bool = match f.attention_k_eq_v {
        Some(b) => b,
        None => false,
    };
    let vision = match f.vision {
        Some(v) => Some(vision_with(v, hidden_size)),
        None => None,
    };
    Ok(
        RawConfig {
            model_type,
            hidden_size,
            num_attention_heads,
            num_hidden_layers,
            intermediate_size,
            vocab_size,
            tie_word_embeddings,
            eos_token_ids: tokens_of(f.eos_token_ids),
            layer_types,
            hidden_activation: activation_of(f.hidden_activation),
            attention_k_eq_v,
            mrope_section: split_of(f.mrope_section),
            num_key_value_heads: size_of(n.num_key_value_heads),
            max_position_embeddings: size_of(n.max_position_embeddings),
            head_dim: size_of(n.head_dim),
            sliding_window: size_of(n.sliding_window),
            global_head_dim: size_of(n.global_head_dim),
            num_global_key_value_heads: size_of(n.num_global_key_value_heads),
            query_pre_attn_scalar: size_of(n.query_pre_attn_scalar),
            linear_num_value_heads: size_of(n.linear_num_value_heads),
            linear_num_key_heads: size_of(n.linear_num_key_heads),
            linear_key_head_dim: size_of(n.linear_key_head_dim),
            linear_value_head_dim: size_of(n.linear_value_head_dim),
            linear_conv_kernel_dim: size_of(n.linear_conv_kernel_dim),
            image_token_id: token_of(n.image_token_id),
            video_token_id: token_of(n.video_token_id),
            vision_start_token_id: token_of(n.vision_start_token_id),
            vision_end_token_id: token_of(n.vision_end_token_id),
            vision,
        },
    )
}

/// The configuration as a document gives it.
pub fn read_config(config_toml: &str) -> (r: Result<RawConfig, FormatError>)
    ensures
        readable(document_fields(config_toml@)) ==> (r matches Ok(c) && is_raw(
            c,
            document_fields(config_toml@),
        )),
        !readable(document_fields(config_toml@)) ==> (r matches Err(e) && unreadable(
            document_fields(config_toml@),
            e,
        )),
{
    raw_config(look_up(config_toml))
}

/// The first tensor at or after `from` of this name.
pub open spec fn tensor_named(ts: Seq<TensorMeta>, name: Seq<char>, from: int) -> Option<int>
    decreases ts.len() - from,
{
    if from < 0 || from >= ts.len() {
        None
    } else if ts[from].name@ == name {
        Some(from)
    } else {
        tensor_named(ts, name, from + 1)
    }
}

/// The place of the first tensor of this name.
pub fn find_tensor(ts: &Vec<TensorMeta>, name: &str) -> (r: Option<usize>)
    ensures
        match tensor_named(ts@, name@, 0) {
            Some(i) => r matches Some(k) && k == i && i < ts@.len(),
            None => r is None,
        },
{
    let mut i: usize = 0;
    while i < ts.len()
        invariant
            i <= ts@.len(),
            tensor_named(ts@, name@, 0) == tensor_named(ts@, name@, i as int),
        decreases ts@.len() - i,
    {
        if text::text_eq(ts[i].name.as_str(), name) {
            return Some(i);
        }
        i = i + 1;
    }
    None
}

/// Attention outputs of the family are gated, and half of the query projection
/// is for the gates.
pub open spec fn gated(c: RawConfig) -> bool {
    families::family_of(c.model_type@) is Qwen35
}

/// The head width: as configured, else read off the query projection of the
/// first layer, half of whose rows are a gate where the family has one, else
/// the hidden width divided among the heads.
pub open spec fn head_dim_of(c: RawConfig, ts: Seq<TensorMeta>) -> usize {
    match c.head_dim {
        Some(n) => n,
        None => match tensor_named(ts, "model.layers.0.self_attn.q_proj.weight"@, 0) {
            Some(i) => if gated(c) {
                (ts[i].shape@[0] / c.num_attention_heads / 2) as usize
            } else {
                (ts[i].shape@[0] / c.num_attention_heads) as usize
            },
            None => (c.hidden_size / c.num_attention_heads) as usize,
        },
    }
}

/// The head width can be found.
pub open spec fn head_dim_defined(c: RawConfig, ts: Seq<TensorMeta>) -> bool {
    c.head_dim is None ==> {
        &&& c.num_attention_heads > 0
        &&& (tensor_named(ts, "model.layers.0.self_attn.q_proj.weight"@, 0) matches Some(i)
            ==> ts[i].shape@.len() > 0)
    }
}

/// The key-value heads.
pub open spec fn kv_heads_of(c: RawConfig) -> usize {
    match c.num_key_value_heads {
        Some(n) => n,
        None => c.num_attention_heads,
    }
}

/// A float, or the default.
pub open spec fn or_default(f: Option<u32>, default: u32) -> u32 {
    match f {
        Some(x) => x,
        None => default,
    }
}

/// What is wrong with a configuration: the first of the checks that fails.
pub open spec fn fault(c: RawConfig, ts: Seq<TensorMeta>, f: ConfigFloats) -> Option<FormatError> {
    let head_dim = head_dim_of(c, ts);
    let kv_heads = kv_heads_of(c);
    let rope_theta = or_default(f.rope_theta, ROPE_THETA_DEFAULT);
    let eps = or_default(f.rms_norm_eps, RMS_NORM_EPS_DEFAULT);
    if head_dim == 0 || head_dim % 2 != 0 {
        Some(FormatError::HeadDim(head_dim))
    } else if c.num_attention_heads == 0 {
        Some(FormatError::NoHeads)
    } else if kv_heads == 0 || c.num_attention_heads % kv_heads != 0 {
        Some(FormatError::HeadGroups { heads: c.num_attention_heads, kv_heads })
    } else if c.num_hidden_layers == 0 {
        Some(FormatError::NoLayers)
    } else if c.vocab_size == 0 {
        Some(FormatError::NoVocabulary)
    } else if not_positive(rope_theta) {
        Some(FormatError::RopeTheta(rope_theta))
    } else if !fraction(eps) {
        Some(FormatError::RmsNormEps(eps))
    } else {
        match c.layer_types {
            Some(types) => if types@.len() != c.num_hidden_layers {
                Some(
                    FormatError::LayerTypes {
                        types: types@.len() as usize,
                        layers: c.num_hidden_layers,
                    },
                )
            } else {
                None
            },
            None => None,
        }
    }
}

/// The layer types: as configured, else all sliding.
pub open spec fn layer_types_of(c: RawConfig) -> Seq<LayerKind> {
    match c.layer_types {
        Some(types) => types@,
        None => Seq::new(c.num_hidden_layers as nat, |i: int| LayerKind::Sliding),
    }
}

/// The vision table with its rotary base.
pub open spec fn vision_with_base(v: Option<VisionConfig>, base: Option<u32>) -> Option<
    VisionConfig,
> {
    match v {
        Some(v) => Some(
            VisionConfig {
                hidden_size: v.hidden_size,
                num_heads: v.num_heads,
                intermediate_size: v.intermediate_size,
                depth: v.depth,
                patch_size: v.patch_size,
                in_channels: v.in_channels,
                spatial_merge_size: v.spatial_merge_size,
                temporal_patch_size: v.temporal_patch_size,
                num_position_embeddings: v.num_position_embeddings,
                out_hidden_size: v.out_hidden_size,
                rope_theta: or_default(base, ROPE_THETA_DEFAULT),
            },
        ),
        None => None,
    }
}

/// The configuration that the fields, the tensors and the floats give.
pub open spec fn is_config(
    x: LlamaConfig,
    c: RawConfig,
    ts: Seq<TensorMeta>,
    f: ConfigFloats,
) -> bool {
    &&& x.model_type@ == c.model_type@
    &&& x.hidden_size == c.hidden_size
    &&& x.num_attention_heads == c.num_attention_heads
    &&& x.num_key_value_heads == kv_heads_of(c)
    &&& x.num_hidden_layers == c.num_hidden_layers
    &&& x.intermediate_size == c.intermediate_size
    &&& x.vocab_size == c.vocab_size
    &&& x.max_position_embeddings == (match c.max_position_embeddings {
        Some(n) => n,
        None => 2048,
    })
    &&& x.rope_theta == or_default(f.rope_theta, ROPE_THETA_DEFAULT)
    &&& x.rms_norm_eps == or_default(f.rms_norm_eps, RMS_NORM_EPS_DEFAULT)
    &&& x.tie_word_embeddings == (match c.tie_word_embeddings {
        Some(b) => b,
        None => true,
    })
    &&& x.head_dim == head_dim_of(c, ts)
    &&& x.has_qk_norm == (tensor_named(ts, "model.layers.0.self_attn.q_norm.weight"@, 0) is Some)
    &&& x.has_attn_bias == (tensor_named(ts, "model.layers.0.self_attn.q_proj.bias"@, 0) is Some)
    &&& x.eos_token_ids@ == c.eos_token_ids@
    &&& x.layer_types@ == layer_types_of(c)
    &&& x.hidden_activation == c.hidden_activation
    &&& x.final_logit_softcapping == (match f.final_logit_softcapping {
        Some(b) => if positive(b) {
            Some(b)
        } else {
            None
        },
        None => None,
    })
    &&& x.attention_k_eq_v == c.attention_k_eq_v
    &&& x.rope_theta_full == f.rope_theta_full
    &&& x.partial_rotary_factor_full == f.partial_rotary_factor_full
    &&& x.mrope_section == c.mrope_section
    &&& families::is_profile(
        x.family,
        families::family_of(c.model_type@),
        c.query_pre_attn_scalar,
    )
    &&& x.sliding_window == c.sliding_window
    &&& x.global_head_dim == c.global_head_dim
    &&& x.num_global_key_value_heads == c.num_global_key_value_heads
    &&& x.query_pre_attn_scalar == c.query_pre_attn_scalar
    &&& x.linear_num_value_heads == c.linear_num_value_heads
    &&& x.linear_num_key_heads == c.linear_num_key_heads
    &&& x.linear_key_head_dim == c.linear_key_head_dim
    &&& x.linear_value_head_dim == c.linear_value_head_dim
    &&& x.linear_conv_kernel_dim == c.linear_conv_kernel_dim
    &&& x.image_token_id == c.image_token_id
    &&& x.video_token_id == c.video_token_id
    &&& x.vision_start_token_id == c.vision_start_token_id
    &&& x.vision_end_token_id == c.vision_end_token_id
    &&& x.vision == vision_with_base(c.vision, f.vision_rope_theta)
}

impl LlamaConfig {
    /// The configuration that the fields of a document, the tensors of the
    /// model and the floats of the document give.
    pub fn from_raw(c: RawConfig, tensors: &Vec<TensorMeta>, floats: &ConfigFloats) -> (r: Result<
        Self,
        FormatError,
    >)
        requires
            head_dim_defined(c, tensors@),
        ensures
            match fault(c, tensors@, *floats) {
                Some(e) => r matches Err(x) && x == e,
                None => r matches Ok(x) && is_config(x, c, tensors@, *floats),
            },
    {
        let heads: usize = c.num_attention_heads;
        let family = FamilyProfile::for_model_type(c.model_type.as_str(), c.query_pre_attn_scalar);
        assert(family.has_attn_output_gate == gated(c));
        let head_dim: usize = match c.head_dim {
            Some(n) => n,
            None => match find_tensor(tensors, "model.layers.0.self_attn.q_proj.weight") {
                Some(i) => if family.has_attn_output_gate {
                    tensors[i].shape[0] / heads / 2
                } else {
                    tensors[i].shape[0] / heads
                },
                None => c.hidden_size / heads,
            },
        };
        if head_dim == 0 || head_dim % 2 != 0 {
            return Err(FormatError::HeadDim(head_dim));
        }
        if heads == 0 {
            return Err(FormatError::NoHeads);
        }
        let kv_heads: usize = match c.num_key_value_heads {
            Some(n) => n,
            None => heads,
        };
        if kv_heads == 0 || heads % kv_heads != 0 {
            return Err(FormatError::HeadGroups { heads, kv_heads });
        }
        if c.num_hidden_layers == 0 {
            return Err(FormatError::NoLayers);
        }
        if c.vocab_size == 0 {
            return Err(FormatError::NoVocabulary);
        }
        let rope_theta: u32 = match floats.rope_theta {
            Some(x) => x,
            None => ROPE_THETA_DEFAULT,
        };
        if rope_theta == 0 || (0x8000_0000 <= rope_theta && rope_theta <= 0xFF80_0000) {
            return Err(FormatError::RopeTheta(rope_theta));
        }
        let rms_norm_eps: u32 = match floats.rms_norm_eps {
            Some(x) => x,
            None => RMS_NORM_EPS_DEFAULT,
        };
        if !(0 < rms_norm_eps && rms_norm_eps < 0x3F80_0000) {
            return Err(FormatError::RmsNormEps(rms_norm_eps));
        }
        let has_qk_norm: bool = find_tensor(
            tensors,
            "model.layers.0.self_attn.q_norm.weight",
        ).is_some();
        let has_attn_bias: bool = find_tensor(
            tensors,
            "model.layers.0.self_attn.q_proj.bias",
        ).is_some();
        let layer_types: Vec<LayerKind> = match c.layer_types {
            Some(types) => {
                if types.len() != c.num_hidden_layers {
                    return Err(
                        FormatError::LayerTypes {
                            types: types.len(),
                            layers: c.num_hidden_layers,
                        },
                    );
                }
                types
            },
            None => sliding_layers(c.num_hidden_layers),
        };
        let final_logit_softcapping = match floats.final_logit_softcapping {
            Some(b) => {
                if 0 < b && b <= 0x7F80_0000 {
                    Some(b)
                } else {
                    None
                }
            },
            None => None,
        };
        let vision = match c.vision {
            Some(v) => Some(
                VisionConfig {
                    hidden_size: v.hidden_size,
                    num_heads: v.num_heads,
                    intermediate_size: v.intermediate_size,
                    depth: v.depth,
                    patch_size: v.patch_size,
                    in_channels: v.in_channels,
                    spatial_merge_size: v.spatial_merge_size,
                    temporal_patch_size: v.temporal_patch_size,
                    num_position_embeddings: v.num_position_embeddings,
                    out_hidden_size: v.out_hidden_size,
                    rope_theta: match floats.vision_rope_theta {
                        Some(x) => x,
                        None => ROPE_THETA_DEFAULT,
                    },
                },
            ),
            None => None,
        };
        let max_position_embeddings: usize = match c.max_position_embeddings {
            Some(n) => n,
            None => 2048,
        };
        let tie_word_embeddings: bool = match c.tie_word_embeddings {
            Some(b) => b,
            None => true,
        };
        Ok(
            LlamaConfig {
                model_type: c.model_type,
                hidden_size: c.hidden_size,
                num_attention_heads: heads,
                num_key_value_heads: kv_heads,
                num_hidden_layers: c.num_hidden_layers,
                intermediate_size: c.intermediate_size,
                vocab_size: c.vocab_size,
                max_position_embeddings,
                rope_theta,
                rms_norm_eps,
                tie_word_embeddings,
                head_dim,
                has_qk_norm,
                has_attn_bias,
                eos_token_ids: c.eos_token_ids,
                layer_types,
                hidden_activation: c.hidden_activation,
                final_logit_softcapping,
                attention_k_eq_v: c.attention_k_eq_v,
                rope_theta_full: floats.rope_theta_full,
                partial_rotary_factor_full: floats.partial_rotary_factor_full,
                mrope_section: c.mrope_section,
                family,
                sliding_window: c.sliding_window,
                global_head_dim: c.global_head_dim,
                num_global_key_value_heads: c.num_global_key_value_heads,
                query_pre_attn_scalar: c.query_pre_attn_scalar,
                linear_num_value_heads: c.linear_num_value_heads,
                linear_num_key_heads: c.linear_num_key_heads,
                linear_key_head_dim: c.linear_key_head_dim,
                linear_value_head_dim: c.linear_value_head_dim,
                linear_conv_kernel_dim: c.linear_conv_kernel_dim,
                image_token_id: c.image_token_id,
                video_token_id: c.video_token_id,
                vision_start_token_id: c.vision_start_token_id,
                vision_end_token_id: c.vision_end_token_id,
                vision,
            },
        )
    }

    /// Parses the configuration of a model with these tensors. `floats` are
    /// the numbers of [`config_numbers`] in single precision.
    pub fn parse(config_toml: &str, tensors: &Vec<TensorMeta>, floats: &ConfigFloats) -> (r: Result<
        Self,
        FormatError,
    >)
        requires
            readable(document_fields(config_toml@)) ==> forall|c: RawConfig|
                is_raw(c, document_fields(config_toml@)) ==> #[trigger] head_dim_defined(c, tensors@),
        ensures
            parsed(r, config_toml@, tensors@, *floats),
    {
        match read_config(config_toml) {
            Ok(c) => LlamaConfig::from_raw(c, tensors, floats),
            Err(e) => Err(e),
        }
    }

    /// Parses the configuration, or gives `None` where the head width is not
    /// configured and cannot be derived: there are no heads to divide by, or
    /// the query projection has no rows.
    pub fn try_parse(
        config_toml: &str,
        tensors: &Vec<TensorMeta>,
        floats: &ConfigFloats,
    ) -> (r: Option<Result<Self, FormatError>>)
        ensures
            match r {
                Some(p) => parsed(p, config_toml@, tensors@, *floats),
                None => readable(document_fields(config_toml@)) && exists|c: RawConfig|
                    is_raw(c, document_fields(config_toml@)) && !#[trigger] head_dim_defined(c, tensors@),
            },
            !readable(document_fields(config_toml@)) ==> r is Some,
    {
        match read_config(config_toml) {
            Ok(c) => {
                if c.head_dim.is_none() {
                    if c.num_attention_heads == 0 {
                        assert(!head_dim_defined(c, tensors@));
                        return None;
                    }
                    match find_tensor(tensors, "model.layers.0.self_attn.q_proj.weight") {
                        Some(i) => {
                            if tensors[i].shape.len() == 0 {
                                assert(!head_dim_defined(c, tensors@));
                                return None;
                            }
                        },
                        None => {},
                    }
                }
                Some(LlamaConfig::from_raw(c, tensors, floats))
            },
            Err(e) => Some(Err(e)),
        }
    }
}

/// The outcome of parsing a document.
pub open spec fn parsed(
    r: Result<LlamaConfig, FormatError>,
    t: Seq<char>,
    ts: Seq<TensorMeta>,
    f: ConfigFloats,
) -> bool {
    let d = document_fields(t);
    if readable(d) {
        exists|c: RawConfig| #[trigger]
            is_raw(c, d) && match fault(c, ts, f) {
                Some(e) => r matches Err(x) && x == e,
                None => r matches Ok(x) && is_config(x, c, ts, f),
            }
    } else {
        r matches Err(e) && unreadable(d, e)
    }
}

fn sliding_layers(n: usize) -> (v: Vec<LayerKind>)
    ensures
        v@ == Seq::new(n as nat, |i: int| LayerKind::Sliding),
{
    let mut v: Vec<LayerKind> = Vec::new();
    let mut i: usize = 0;
    while i < n
        invariant
            i <= n,
            v@ == Seq::new(i as nat, |k: int| LayerKind::Sliding),
        decreases n - i,
    {
        v.push(LayerKind::Sliding);
        i = i + 1;
        assert(v@ =~= Seq::new(i as nat, |k: int| LayerKind::Sliding));
    }
    v
}

/// A configuration that was accepted: it has heads, layers and a vocabulary,
/// the head width is even, the key-value heads divide the heads, and there is
/// one layer type per layer.
pub proof fn accepted_config_is_sane(
    x: LlamaConfig,
    c: RawConfig,
    ts: Seq<TensorMeta>,
    f: ConfigFloats,
)
    requires
        fault(c, ts, f) is None,
        is_config(x, c, ts, f),
    ensures
        x.head_dim > 0 && x.head_dim % 2 == 0,
        x.num_attention_heads > 0 && x.num_key_value_heads > 0,
        x.num_attention_heads % x.num_key_value_heads == 0,
        x.num_hidden_layers > 0 && x.vocab_size > 0,
        x.layer_types@.len() == x.num_hidden_layers,
        !not_positive(x.rope_theta),
        fraction(x.rms_norm_eps),
{
}

/// The layer rotates a part of its head width.
pub open spec fn rotates_part(c: LlamaConfig, layer: usize) -> bool {
    kind_at(c, layer) == Some(LayerKind::Full) && (c.partial_rotary_factor_full matches Some(b)
        && fraction(b))
}

/// The largest even number that is not above `n`.
pub open spec fn even_below(n: usize) -> usize {
    (n - n % 2) as usize
}

/// The kind of a layer, where there is such a layer.
pub open spec fn kind_at(c: LlamaConfig, layer: usize) -> Option<LayerKind> {
    if layer < c.layer_types@.len() {
        Some(c.layer_types@[layer as int])
    } else {
        None
    }
}

/// A value of full layers, or the common one.
pub open spec fn of_full<T>(c: LlamaConfig, layer: usize, full: Option<T>, common: T) -> T {
    if kind_at(c, layer) == Some(LayerKind::Full) && full is Some {
        full->0
    } else {
        common
    }
}

impl LlamaConfig {
    fn is_full(&self, layer: usize) -> (b: bool)
        ensures
            b == (kind_at(*self, layer) == Some(LayerKind::Full)),
    {
        layer < self.layer_types.len() && self.layer_types[layer] == LayerKind::Full
    }

    /// The head width of a layer.
    pub fn layer_head_dim(&self, layer: usize) -> (n: usize)
        ensures
            n == of_full(*self, layer, self.global_head_dim, self.head_dim),
    {
        if self.is_full(layer) {
            match self.global_head_dim {
                Some(n) => n,
                None => self.head_dim,
            }
        } else {
            self.head_dim
        }
    }

    /// The key-value heads of a layer.
    pub fn layer_kv_heads(&self, layer: usize) -> (n: usize)
        ensures
            n == of_full(
                *self,
                layer,
                self.num_global_key_value_heads,
                self.num_key_value_heads,
            ),
    {
        if self.is_full(layer) {
            match self.num_global_key_value_heads {
                Some(n) => n,
                None => self.num_key_value_heads,
            }
        } else {
            self.num_key_value_heads
        }
    }

    /// The window of a sliding layer; other layers have none.
    pub fn layer_window(&self, layer: usize) -> (w: Option<usize>)
        ensures
            w == (if kind_at(*self, layer) == Some(LayerKind::Sliding) {
                self.sliding_window
            } else {
                None
            }),
    {
        if layer < self.layer_types.len() && self.layer_types[layer] == LayerKind::Sliding {
            self.sliding_window
        } else {
            None
        }
    }

    /// The rotary base of a layer.
    pub fn layer_rope_theta(&self, layer: usize) -> (bits: u32)
        ensures
            bits == of_full(*self, layer, self.rope_theta_full, self.rope_theta),
    {
        if self.is_full(layer) {
            match self.rope_theta_full {
                Some(x) => x,
                None => self.rope_theta,
            }
        } else {
            self.rope_theta
        }
    }

    /// The fraction of the head width that a layer rotates, where it rotates
    /// less than all of it.
    pub fn layer_rope_fraction(&self, layer: usize) -> (f: Option<u32>)
        ensures
            f == (if rotates_part(*self, layer) {
                self.partial_rotary_factor_full
            } else {
                None
            }),
    {
        if self.is_full(layer) {
            match self.partial_rotary_factor_full {
                Some(b) => {
                    if 0 < b && b < 0x3F80_0000 {
                        Some(b)
                    } else {
                        None
                    }
                },
                None => None,
            }
        } else {
            None
        }
    }

    /// The rotated width of a layer: an even number that is not above the head
    /// width. `scaled` is the head width times the fraction of
    /// [`LlamaConfig::layer_rope_fraction`], cut to an integer.
    pub fn layer_rope_dim(&self, layer: usize, scaled: usize) -> (n: usize)
        requires
            rotates_part(*self, layer) ==> scaled <= of_full(
                *self,
                layer,
                self.global_head_dim,
                self.head_dim,
            ),
        ensures
            n == even_below(
                if rotates_part(*self, layer) {
                    scaled
                } else {
                    of_full(*self, layer, self.global_head_dim, self.head_dim)
                },
            ),
            n % 2 == 0,
            n <= of_full(*self, layer, self.global_head_dim, self.head_dim),
    {
        let n: usize = match self.layer_rope_fraction(layer) {
            Some(_) => scaled,
            None => self.layer_head_dim(layer),
        };
        n - n % 2
    }

    /// The capacity of a layer's cache: a sliding layer needs no more than its
    /// window.
    pub fn layer_kv_cache_seq(&self, layer: usize, global_max_seq: usize) -> (n: usize)
        ensures
            n == (if kind_at(*self, layer) == Some(LayerKind::Sliding) && (
            self.sliding_window matches Some(w) && w < global_max_seq) {
                self.sliding_window->0
            } else {
                global_max_seq
            }),
            n <= global_max_seq,
    {
        match self.layer_window(layer) {
            Some(w) => {
                if w < global_max_seq {
                    w
                } else {
                    global_max_seq
                }
            },
            None => global_max_seq,
        }
    }

    /// The number whose inverse square root scales the attention scores of a
    /// layer; `None` where they are not scaled.
    pub fn layer_attn_scale(&self, layer: usize) -> (d: Option<usize>)
        ensures
            d == match self.family.attn_scale {
                AttnScale::Unity => None,
                AttnScale::FixedDivisor(n) => Some(n),
                AttnScale::PerHeadDim => Some(
                    of_full(*self, layer, self.global_head_dim, self.head_dim),
                ),
            },
    {
        match self.family.attn_scale {
            AttnScale::Unity => None,
            AttnScale::FixedDivisor(n) => Some(n),
            AttnScale::PerHeadDim => Some(self.layer_head_dim(layer)),
        }
    }
}

} // verus!
