//! Loaded weights: which tensor of the model each of them is.

use vstd::prelude::*;

use crate::config::{tensor_named, LlamaConfig};
use crate::quant::dequant::{decodable, format_of};
use crate::quant::stored::{decoded, Format, Stored};
use crate::tensor::{product, TensorMeta};
use crate::text;
use crate::weights::{
    attention_requests, block_name, block_requests, config_fits, conv_rows, dense_as, dense_of,
    dims_of, embed_row_of, first_fault, is_attention_layer, is_block, is_layer, is_linear_layer,
    is_linear_part, is_loaded_layer, is_merger, is_offset_layer, is_vision, is_weights, key_dim,
    kind_of, layer_fits, layer_name, linear_of, linear_requests, optional_of, optional_view,
    patch_dim, patch_fits, q_proj_rows, quant_as, quant_of, request_fault, value_dim, value_rows,
    DenseTensor, DenseView, Fault, LayerDims, LayerWeights, LinearDims, LoadedModel, QuantView,
    QuantWeight, Request, Weights,
};

verus! {

/// Tensor `k` is the first of this name.
pub open spec fn is_first(ts: Seq<TensorMeta>, k: int, name: Seq<char>) -> bool {
    &&& 0 <= k < ts.len()
    &&& ts[k].name@ == name
    &&& forall|j: int| 0 <= j < k ==> (#[trigger] ts[j]).name@ != name
}

/// The matrix is the data of the first tensor of this name, as it is, which
/// has as many elements as the matrix.
pub open spec fn is_matrix_of(
    q: QuantWeight,
    m: LoadedModel,
    name: Seq<char>,
    rows: int,
    columns: int,
) -> bool {
    exists|k: int| #[trigger]
        is_first(m.tensors@, k, name) && (m.bytes@[k] matches Some(b) && q.bytes@ == b@)
            && q.dtype == m.tensors@[k].dtype && q.shape@.len() == 2 && q.shape@[0] == rows
            && q.shape@[1] == columns && product(m.tensors@[k].shape@) == rows * columns
}

/// These are the decoded elements of tensor `k`, as many as its shape has.
pub open spec fn are_elements_of(v: Seq<Stored>, m: LoadedModel, k: int) -> bool {
    &&& m.bytes@[k] matches Some(b) && (format_of(m.tensors@[k].dtype) matches Some(f) && v
        == decoded(f, b@))
    &&& v.len() == product(m.tensors@[k].shape@)
}

/// The tensor is the first of this name, decoded, with the offset.
pub open spec fn is_dense_of(t: DenseTensor, m: LoadedModel, name: Seq<char>, offset: bool) -> bool {
    &&& t.plus_one == offset
    &&& exists|k: int| #[trigger]
        is_first(m.tensors@, k, name) && are_elements_of(t.elements@, m, k) && t.shape@
            == m.tensors@[k].shape@
}

/// The tensor is the first of this name, decoded, as a matrix.
pub open spec fn is_table_of(
    t: DenseTensor,
    m: LoadedModel,
    name: Seq<char>,
    rows: int,
    columns: int,
) -> bool {
    &&& !t.plus_one
    &&& t.shape@.len() == 2 && t.shape@[0] == rows && t.shape@[1] == columns
    &&& t.elements@.len() == rows * columns
    &&& exists|k: int| #[trigger]
        is_first(m.tensors@, k, name) && are_elements_of(t.elements@, m, k)
}

/// The tensor is there where the model has it in a form that can be decoded.
pub open spec fn is_optional_of(
    t: Option<DenseTensor>,
    m: LoadedModel,
    name: Seq<char>,
    offset: bool,
) -> bool {
    &&& t matches Some(x) ==> is_dense_of(x, m, name, offset)
    &&& t is None ==> forall|k: int, v: Seq<Stored>|
        !(#[trigger] is_first(m.tensors@, k, name) && #[trigger] are_elements_of(v, m, k))
}

proof fn lemma_named(ts: Seq<TensorMeta>, name: Seq<char>, from: int)
    requires
        0 <= from,
        forall|j: int| 0 <= j < from && j < ts.len() ==> (#[trigger] ts[j]).name@ != name,
    ensures
        match tensor_named(ts, name, from) {
            Some(k) => is_first(ts, k, name),
            None => forall|j: int| 0 <= j < ts.len() ==> (#[trigger] ts[j]).name@ != name,
        },
    decreases ts.len() - from,
{
    if from < ts.len() && ts[from].name@ != name {
        lemma_named(ts, name, from + 1);
    }
}

/// The tensor that a name means is the first of that name, and a name means
/// none only where no tensor has it.
pub proof fn names_mean_the_first(ts: Seq<TensorMeta>, name: Seq<char>)
    ensures
        match tensor_named(ts, name, 0) {
            Some(k) => is_first(ts, k, name),
            None => forall|j: int| 0 <= j < ts.len() ==> (#[trigger] ts[j]).name@ != name,
        },
{
    lemma_named(ts, name, 0);
}

proof fn lemma_matrix(q: QuantWeight, m: LoadedModel, name: Seq<char>, rows: usize, columns: usize)
    requires
        quant_as(m, name, rows, columns) == Ok::<QuantView, Fault>(q@),
    ensures
        is_matrix_of(q, m, name, rows as int, columns as int),
{
    lemma_named(m.tensors@, name, 0);
    let k = tensor_named(m.tensors@, name, 0)->0;
    assert(is_first(m.tensors@, k, name));
}

proof fn lemma_dense(t: DenseTensor, m: LoadedModel, name: Seq<char>, offset: bool)
    requires
        dense_of(m, name) matches Ok(v) && t@.shape == v.shape && t@.elements == v.elements
            && t.plus_one == offset,
    ensures
        is_dense_of(t, m, name, offset),
{
    lemma_named(m.tensors@, name, 0);
    let k = tensor_named(m.tensors@, name, 0)->0;
    assert(is_first(m.tensors@, k, name));
    assert(are_elements_of(t.elements@, m, k));
}

proof fn lemma_table(t: DenseTensor, m: LoadedModel, name: Seq<char>, rows: usize, columns: usize)
    requires
        dense_as(m, name, rows, columns) == Ok::<DenseView, Fault>(t@),
    ensures
        is_table_of(t, m, name, rows as int, columns as int),
{
    lemma_named(m.tensors@, name, 0);
    let k = tensor_named(m.tensors@, name, 0)->0;
    assert(is_first(m.tensors@, k, name));
    assert(are_elements_of(t.elements@, m, k));
}

proof fn lemma_optional(t: Option<DenseTensor>, m: LoadedModel, name: Seq<char>, offset: bool)
    requires
        optional_of(m, name) matches Ok(v) && match v {
            Some(v) => t matches Some(x) && x@.shape == v.shape && x@.elements == v.elements
                && x.plus_one == offset,
            None => t is None,
        },
    ensures
        is_optional_of(t, m, name, offset),
{
    match t {
        Some(x) => {
            lemma_dense(x, m, name, offset);
        },
        None => {
            lemma_named(m.tensors@, name, 0);
            assert forall|k: int, v: Seq<Stored>|
                !(#[trigger] is_first(m.tensors@, k, name) && #[trigger] are_elements_of(
                    v,
                    m,
                    k,
                )) by {
                if is_first(m.tensors@, k, name) && are_elements_of(v, m, k) {
                    let n = tensor_named(m.tensors@, name, 0)->0;
                    if n < k {
                        assert(m.tensors@[n].name@ != name);
                    }
                    if k < n {
                        assert(m.tensors@[k].name@ != name);
                    }
                }
            }
        },
    }
}

/// The name of a tensor of layer `i`.
pub open spec fn of_layer(i: int, part: Seq<char>) -> Seq<char> {
    "model.layers."@ + (text::decimal(i as nat) + ("."@ + part))
}

/// The head width of layer `i`: full layers may have one of their own.
pub open spec fn head_width(c: LlamaConfig, i: int) -> int {
    if i < c.layer_types@.len() && c.layer_types@[i] is Full && c.global_head_dim is Some {
        c.global_head_dim->0 as int
    } else {
        c.head_dim as int
    }
}

/// The key-value heads of layer `i`: full layers may have a number of their
/// own.
pub open spec fn kv_head_count(c: LlamaConfig, i: int) -> int {
    if i < c.layer_types@.len() && c.layer_types@[i] is Full && c.num_global_key_value_heads is Some {
        c.num_global_key_value_heads->0 as int
    } else {
        c.num_key_value_heads as int
    }
}

/// Layer `i` attends linearly.
pub open spec fn attends_linearly(c: LlamaConfig, i: int) -> bool {
    i < c.layer_types@.len() && c.layer_types@[i] is LinearAttn
}

proof fn lemma_name(i: int, part: Seq<char>)
    requires
        0 <= i <= usize::MAX,
    ensures
        of_layer(i, part) == layer_name(i as usize, part),
{
    assert(of_layer(i, part) =~= layer_name(i as usize, part));
}

proof fn lemma_dims(c: LlamaConfig, i: int)
    requires
        config_fits(c),
        0 <= i < c.num_hidden_layers,
    ensures
        dims_of(c, i as usize).q_dim == c.num_attention_heads * head_width(c, i),
        dims_of(c, i as usize).kv_dim == kv_head_count(c, i) * head_width(c, i),
        dims_of(c, i as usize).hidden == c.hidden_size,
        dims_of(c, i as usize).intermediate == c.intermediate_size,
        q_proj_rows(dims_of(c, i as usize)) == if c.family.has_attn_output_gate {
            2 * (c.num_attention_heads * head_width(c, i))
        } else {
            c.num_attention_heads * head_width(c, i)
        },
{
    assert(layer_fits(c, i as usize));
    let q = c.num_attention_heads * head_width(c, i);
    assert(q >= 0 && kv_head_count(c, i) * head_width(c, i) >= 0) by (nonlinear_arith)
        requires
            q == c.num_attention_heads * head_width(c, i),
            head_width(c, i) >= 0,
            kv_head_count(c, i) >= 0,
            c.num_attention_heads >= 0,
    ;
}

/// With a family that adds one to its norm gains, every gain of every layer
/// that is there has the one added, and that of the last norm; with any other
/// family none has. Biases, the scale of the layer output and the norm within
/// linear attention never have it.
#[verifier::spinoff_prover]
#[verifier::rlimit(40)]
pub proof fn norms_have_the_offset_of_the_family(
    w: Weights,
    m: LoadedModel,
    c: LlamaConfig,
    i: int,
)
    requires
        is_weights(w, m, c),
        0 <= i < c.num_hidden_layers,
    ensures
        w.layers@.len() == c.num_hidden_layers,
        w.final_norm.plus_one == c.family.rmsnorm_plus_one,
        w.layers@[i].input_norm.plus_one == c.family.rmsnorm_plus_one,
        w.layers@[i].post_norm.plus_one == c.family.rmsnorm_plus_one,
        w.layers@[i].q_norm matches Some(t) ==> t.plus_one == c.family.rmsnorm_plus_one,
        w.layers@[i].k_norm matches Some(t) ==> t.plus_one == c.family.rmsnorm_plus_one,
        w.layers@[i].post_attn_norm matches Some(t) ==> t.plus_one == c.family.rmsnorm_plus_one,
        w.layers@[i].post_ffw_norm matches Some(t) ==> t.plus_one == c.family.rmsnorm_plus_one,
        w.layers@[i].q_proj_bias matches Some(t) ==> !t.plus_one,
        w.layers@[i].k_proj_bias matches Some(t) ==> !t.plus_one,
        w.layers@[i].v_proj_bias matches Some(t) ==> !t.plus_one,
        w.layers@[i].layer_output_scale matches Some(t) ==> !t.plus_one,
        w.layers@[i].linear_attn matches Some(g) ==> !g.norm_weight.plus_one,
{
    let one = c.family.rmsnorm_plus_one;
    let l = w.layers@[i];
    assert(is_loaded_layer(l, m, c, i as usize));
    let raw = choose|raw: LayerWeights| #[trigger]
        is_offset_layer(l, raw, one) && is_layer(
            raw,
            m,
            i as usize,
            dims_of(c, i as usize),
            kind_of(c, i as usize),
            linear_of(c),
        );
    assert(is_offset_layer(l, raw, one));
    assert(!raw.input_norm@.plus_one && !raw.post_norm@.plus_one);
    match (l.q_norm, raw.q_norm) {
        (Some(t), Some(r)) => {
            assert(t@ == optional_view(l.q_norm)->0 && r@ == optional_view(raw.q_norm)->0);
        },
        _ => {},
    }
    match (l.k_norm, raw.k_norm) {
        (Some(t), Some(r)) => {
            assert(t@ == optional_view(l.k_norm)->0 && r@ == optional_view(raw.k_norm)->0);
        },
        _ => {},
    }
    match (l.post_attn_norm, raw.post_attn_norm) {
        (Some(t), Some(r)) => {
            assert(t@ == optional_view(l.post_attn_norm)->0 && r@ == optional_view(
                raw.post_attn_norm,
            )->0);
        },
        _ => {},
    }
    match (l.post_ffw_norm, raw.post_ffw_norm) {
        (Some(t), Some(r)) => {
            assert(t@ == optional_view(l.post_ffw_norm)->0 && r@ == optional_view(
                raw.post_ffw_norm,
            )->0);
        },
        _ => {},
    }
    match l.q_proj_bias {
        Some(t) => {
            assert(t@ == optional_view(raw.q_proj_bias)->0);
        },
        None => {},
    }
    match l.k_proj_bias {
        Some(t) => {
            assert(t@ == optional_view(raw.k_proj_bias)->0);
        },
        None => {},
    }
    match l.v_proj_bias {
        Some(t) => {
            assert(t@ == optional_view(raw.v_proj_bias)->0);
        },
        None => {},
    }
    match l.layer_output_scale {
        Some(t) => {
            assert(t@ == optional_view(raw.layer_output_scale)->0);
        },
        None => {},
    }
    match l.linear_attn {
        Some(g) => {
            assert(g.norm_weight@.plus_one == false);
        },
        None => {},
    }
    assert(w.final_norm@.plus_one == one);
}

/// The projections and norms of an attention layer are the tensors of its
/// number that are named for them. The query projection has a row per head
/// and place, twice as many with a gate.
#[verifier::spinoff_prover]
#[verifier::rlimit(40)]
pub proof fn attention_layers_hold_their_tensors(w: Weights, m: LoadedModel, c: LlamaConfig, i: int)
    requires
        is_weights(w, m, c),
        config_fits(c),
        0 <= i < c.num_hidden_layers,
        !attends_linearly(c, i),
    ensures
        w.layers@[i].linear_attn is None,
        is_matrix_of(
            w.layers@[i].q_proj,
            m,
            of_layer(i, "self_attn.q_proj.weight"@),
            if c.family.has_attn_output_gate {
                2 * (c.num_attention_heads * head_width(c, i))
            } else {
                c.num_attention_heads * head_width(c, i)
            },
            c.hidden_size as int,
        ),
        is_matrix_of(
            w.layers@[i].k_proj,
            m,
            of_layer(i, "self_attn.k_proj.weight"@),
            kv_head_count(c, i) * head_width(c, i),
            c.hidden_size as int,
        ),
        is_matrix_of(
            w.layers@[i].v_proj,
            m,
            of_layer(i, "self_attn.v_proj.weight"@),
            kv_head_count(c, i) * head_width(c, i),
            c.hidden_size as int,
        ),
        is_matrix_of(
            w.layers@[i].o_proj,
            m,
            of_layer(i, "self_attn.o_proj.weight"@),
            c.hidden_size as int,
            c.num_attention_heads * head_width(c, i),
        ),
        is_optional_of(
            w.layers@[i].q_proj_bias,
            m,
            of_layer(i, "self_attn.q_proj.bias"@),
            false,
        ),
        is_optional_of(
            w.layers@[i].k_proj_bias,
            m,
            of_layer(i, "self_attn.k_proj.bias"@),
            false,
        ),
        is_optional_of(
            w.layers@[i].v_proj_bias,
            m,
            of_layer(i, "self_attn.v_proj.bias"@),
            false,
        ),
        is_optional_of(
            w.layers@[i].q_norm,
            m,
            of_layer(i, "self_attn.q_norm.weight"@),
            c.family.rmsnorm_plus_one,
        ),
        is_optional_of(
            w.layers@[i].k_norm,
            m,
            of_layer(i, "self_attn.k_norm.weight"@),
            c.family.rmsnorm_plus_one,
        ),
{
    let one = c.family.rmsnorm_plus_one;
    let l = w.layers@[i];
    assert(is_loaded_layer(l, m, c, i as usize));
    let d = dims_of(c, i as usize);
    let raw = choose|raw: LayerWeights| #[trigger]
        is_offset_layer(l, raw, one) && is_layer(
            raw,
            m,
            i as usize,
            d,
            kind_of(c, i as usize),
            linear_of(c),
        );
    assert(is_offset_layer(l, raw, one));
    lemma_dims(c, i);
    lemma_name(i, "self_attn.q_proj.weight"@);
    lemma_name(i, "self_attn.k_proj.weight"@);
    lemma_name(i, "self_attn.v_proj.weight"@);
    lemma_name(i, "self_attn.o_proj.weight"@);
    lemma_name(i, "self_attn.q_proj.bias"@);
    lemma_name(i, "self_attn.k_proj.bias"@);
    lemma_name(i, "self_attn.v_proj.bias"@);
    lemma_name(i, "self_attn.q_norm.weight"@);
    lemma_name(i, "self_attn.k_norm.weight"@);
    assert(is_attention_layer(raw, m, i as usize, d));
    lemma_matrix(l.q_proj, m, of_layer(i, "self_attn.q_proj.weight"@), q_proj_rows(d), d.hidden);
    lemma_matrix(l.k_proj, m, of_layer(i, "self_attn.k_proj.weight"@), d.kv_dim, d.hidden);
    lemma_matrix(l.v_proj, m, of_layer(i, "self_attn.v_proj.weight"@), d.kv_dim, d.hidden);
    lemma_matrix(l.o_proj, m, of_layer(i, "self_attn.o_proj.weight"@), d.hidden, d.q_dim);
    assert(optional_of(m, of_layer(i, "self_attn.q_proj.bias"@)) matches Ok(v) && v == optional_view(
        raw.q_proj_bias,
    ));
    lemma_optional(l.q_proj_bias, m, of_layer(i, "self_attn.q_proj.bias"@), false);
    assert(optional_of(m, of_layer(i, "self_attn.k_proj.bias"@)) matches Ok(v) && v == optional_view(
        raw.k_proj_bias,
    ));
    lemma_optional(l.k_proj_bias, m, of_layer(i, "self_attn.k_proj.bias"@), false);
    assert(optional_of(m, of_layer(i, "self_attn.v_proj.bias"@)) matches Ok(v) && v == optional_view(
        raw.v_proj_bias,
    ));
    lemma_optional(l.v_proj_bias, m, of_layer(i, "self_attn.v_proj.bias"@), false);
    assert(optional_of(m, of_layer(i, "self_attn.q_norm.weight"@)) matches Ok(v) && v == optional_view(
        raw.q_norm,
    ));
    lemma_optional(l.q_norm, m, of_layer(i, "self_attn.q_norm.weight"@), one);
    assert(optional_of(m, of_layer(i, "self_attn.k_norm.weight"@)) matches Ok(v) && v == optional_view(
        raw.k_norm,
    ));
    lemma_optional(l.k_norm, m, of_layer(i, "self_attn.k_norm.weight"@), one);
}

/// The feed-forward part and the norms of any layer are the tensors of its
/// number that are named for them.
#[verifier::spinoff_prover]
#[verifier::rlimit(40)]
pub proof fn all_layers_hold_their_tensors(w: Weights, m: LoadedModel, c: LlamaConfig, i: int)
    requires
        is_weights(w, m, c),
        config_fits(c),
        0 <= i < c.num_hidden_layers,
    ensures
        is_matrix_of(
            w.layers@[i].gate_proj,
            m,
            of_layer(i, "mlp.gate_proj.weight"@),
            c.intermediate_size as int,
            c.hidden_size as int,
        ),
        is_matrix_of(
            w.layers@[i].up_proj,
            m,
            of_layer(i, "mlp.up_proj.weight"@),
            c.intermediate_size as int,
            c.hidden_size as int,
        ),
        is_matrix_of(
            w.layers@[i].down_proj,
            m,
            of_layer(i, "mlp.down_proj.weight"@),
            c.hidden_size as int,
            c.intermediate_size as int,
        ),
        is_dense_of(
            w.layers@[i].input_norm,
            m,
            of_layer(i, "input_layernorm.weight"@),
            c.family.rmsnorm_plus_one,
        ),
        is_dense_of(
            w.layers@[i].post_norm,
            m,
            of_layer(i, "post_attention_layernorm.weight"@),
            c.family.rmsnorm_plus_one,
        ),
        is_optional_of(
            w.layers@[i].post_attn_norm,
            m,
            of_layer(i, "post_attention_norm.weight"@),
            c.family.rmsnorm_plus_one,
        ),
        is_optional_of(
            w.layers@[i].post_ffw_norm,
            m,
            of_layer(i, "post_ffw_norm.weight"@),
            c.family.rmsnorm_plus_one,
        ),
        is_optional_of(
            w.layers@[i].layer_output_scale,
            m,
            of_layer(i, "layer_output_scale.weight"@),
            false,
        ),
{
    let one = c.family.rmsnorm_plus_one;
    let l = w.layers@[i];
    assert(is_loaded_layer(l, m, c, i as usize));
    let d = dims_of(c, i as usize);
    let raw = choose|raw: LayerWeights| #[trigger]
        is_offset_layer(l, raw, one) && is_layer(
            raw,
            m,
            i as usize,
            d,
            kind_of(c, i as usize),
            linear_of(c),
        );
    assert(is_offset_layer(l, raw, one));
    lemma_dims(c, i);
    lemma_name(i, "mlp.gate_proj.weight"@);
    lemma_name(i, "mlp.up_proj.weight"@);
    lemma_name(i, "mlp.down_proj.weight"@);
    lemma_name(i, "input_layernorm.weight"@);
    lemma_name(i, "post_attention_layernorm.weight"@);
    lemma_name(i, "post_attention_norm.weight"@);
    lemma_name(i, "post_ffw_norm.weight"@);
    lemma_name(i, "layer_output_scale.weight"@);
    lemma_matrix(l.gate_proj, m, of_layer(i, "mlp.gate_proj.weight"@), d.intermediate, d.hidden);
    lemma_matrix(l.up_proj, m, of_layer(i, "mlp.up_proj.weight"@), d.intermediate, d.hidden);
    lemma_matrix(l.down_proj, m, of_layer(i, "mlp.down_proj.weight"@), d.hidden, d.intermediate);
    lemma_dense(l.input_norm, m, of_layer(i, "input_layernorm.weight"@), one);
    lemma_dense(l.post_norm, m, of_layer(i, "post_attention_layernorm.weight"@), one);
    assert(optional_of(m, of_layer(i, "post_attention_norm.weight"@)) matches Ok(v) && v == optional_view(
        raw.post_attn_norm,
    ));
    lemma_optional(l.post_attn_norm, m, of_layer(i, "post_attention_norm.weight"@), one);
    assert(optional_of(m, of_layer(i, "post_ffw_norm.weight"@)) matches Ok(v) && v == optional_view(
        raw.post_ffw_norm,
    ));
    lemma_optional(l.post_ffw_norm, m, of_layer(i, "post_ffw_norm.weight"@), one);
    assert(optional_of(m, of_layer(i, "layer_output_scale.weight"@)) matches Ok(v) && v == optional_view(
        raw.layer_output_scale,
    ));
    lemma_optional(l.layer_output_scale, m, of_layer(i, "layer_output_scale.weight"@), false);
}

/// The projections of a linear-attention layer are the tensors of its number
/// that are named for them. The joint projection has the rows of the queries,
/// of as many keys, and of the values. The layer has none of the projections
/// of the other kind.
#[verifier::spinoff_prover]
#[verifier::rlimit(40)]
pub proof fn linear_layers_hold_their_tensors(w: Weights, m: LoadedModel, c: LlamaConfig, i: int)
    requires
        is_weights(w, m, c),
        config_fits(c),
        0 <= i < c.num_hidden_layers,
        attends_linearly(c, i),
        c.linear_num_key_heads is Some,
        c.linear_num_value_heads is Some,
        c.linear_key_head_dim is Some,
        c.linear_value_head_dim is Some,
        c.linear_conv_kernel_dim is Some,
    ensures
        w.layers@[i].linear_attn is Some,
        w.layers@[i].q_proj.bytes@.len() == 0,
        w.layers@[i].k_proj.bytes@.len() == 0,
        w.layers@[i].v_proj.bytes@.len() == 0,
        w.layers@[i].o_proj.bytes@.len() == 0,
        w.layers@[i].q_norm is None && w.layers@[i].k_norm is None,
        w.layers@[i].q_proj_bias is None && w.layers@[i].k_proj_bias is None
            && w.layers@[i].v_proj_bias is None,
        is_matrix_of(
            (w.layers@[i].linear_attn->0).in_proj_qkv,
            m,
            of_layer(i, "linear_attn.in_proj_qkv.weight"@),
            2 * (c.linear_num_key_heads->0 * c.linear_key_head_dim->0) + (c.linear_num_value_heads->0 * c.linear_value_head_dim->0),
            c.hidden_size as int,
        ),
        is_matrix_of(
            (w.layers@[i].linear_attn->0).in_proj_z,
            m,
            of_layer(i, "linear_attn.in_proj_z.weight"@),
            c.linear_num_value_heads->0 * c.linear_value_head_dim->0,
            c.hidden_size as int,
        ),
        is_matrix_of(
            (w.layers@[i].linear_attn->0).in_proj_b,
            m,
            of_layer(i, "linear_attn.in_proj_b.weight"@),
            c.linear_num_value_heads->0 as int,
            c.hidden_size as int,
        ),
        is_matrix_of(
            (w.layers@[i].linear_attn->0).in_proj_a,
            m,
            of_layer(i, "linear_attn.in_proj_a.weight"@),
            c.linear_num_value_heads->0 as int,
            c.hidden_size as int,
        ),
        is_matrix_of(
            (w.layers@[i].linear_attn->0).out_proj,
            m,
            of_layer(i, "linear_attn.out_proj.weight"@),
            c.hidden_size as int,
            c.linear_num_value_heads->0 * c.linear_value_head_dim->0,
        ),
        is_table_of(
            (w.layers@[i].linear_attn->0).conv1d_weight,
            m,
            of_layer(i, "linear_attn.conv1d.weight"@),
            2 * (c.linear_num_key_heads->0 * c.linear_key_head_dim->0) + (c.linear_num_value_heads->0 * c.linear_value_head_dim->0),
            c.linear_conv_kernel_dim->0 as int,
        ),
        is_dense_of(
            (w.layers@[i].linear_attn->0).a_log,
            m,
            of_layer(i, "linear_attn.A_log"@),
            false,
        ),
        is_dense_of(
            (w.layers@[i].linear_attn->0).dt_bias,
            m,
            of_layer(i, "linear_attn.dt_bias"@),
            false,
        ),
        is_dense_of(
            (w.layers@[i].linear_attn->0).norm_weight,
            m,
            of_layer(i, "linear_attn.norm.weight"@),
            false,
        ),
{
    let one = c.family.rmsnorm_plus_one;
    let l = w.layers@[i];
    assert(is_loaded_layer(l, m, c, i as usize));
    let d = dims_of(c, i as usize);
    let raw = choose|raw: LayerWeights| #[trigger]
        is_offset_layer(l, raw, one) && is_layer(
            raw,
            m,
            i as usize,
            d,
            kind_of(c, i as usize),
            linear_of(c),
        );
    assert(is_offset_layer(l, raw, one));
    lemma_dims(c, i);
    lemma_name(i, "linear_attn.in_proj_qkv.weight"@);
    lemma_name(i, "linear_attn.in_proj_z.weight"@);
    lemma_name(i, "linear_attn.in_proj_b.weight"@);
    lemma_name(i, "linear_attn.in_proj_a.weight"@);
    lemma_name(i, "linear_attn.out_proj.weight"@);
    lemma_name(i, "linear_attn.A_log"@);
    lemma_name(i, "linear_attn.dt_bias"@);
    lemma_name(i, "linear_attn.norm.weight"@);
    lemma_name(i, "linear_attn.conv1d.weight"@);
    let e = linear_of(c);
    assert(is_linear_layer(raw, m, i as usize, d, e));
    let g = l.linear_attn->0;
    assert(is_linear_part(g, m, i as usize, d, e));
    assert(key_dim(e) >= 0 && value_dim(e) >= 0) by (nonlinear_arith)
        requires
            key_dim(e) == e.num_k_heads->0 * e.head_k_dim->0,
            value_dim(e) == e.num_v_heads->0 * e.head_v_dim->0,
    ;
    lemma_matrix(g.in_proj_qkv, m, of_layer(i, "linear_attn.in_proj_qkv.weight"@), conv_rows(e), d.hidden);
    lemma_matrix(g.in_proj_z, m, of_layer(i, "linear_attn.in_proj_z.weight"@), value_rows(e), d.hidden);
    lemma_matrix(g.in_proj_b, m, of_layer(i, "linear_attn.in_proj_b.weight"@), e.num_v_heads->0, d.hidden);
    lemma_matrix(g.in_proj_a, m, of_layer(i, "linear_attn.in_proj_a.weight"@), e.num_v_heads->0, d.hidden);
    lemma_matrix(g.out_proj, m, of_layer(i, "linear_attn.out_proj.weight"@), d.hidden, value_rows(e));
    lemma_table(
        g.conv1d_weight,
        m,
        of_layer(i, "linear_attn.conv1d.weight"@),
        conv_rows(e),
        e.conv_kernel_dim->0,
    );
    lemma_dense(g.a_log, m, of_layer(i, "linear_attn.A_log"@), false);
    lemma_dense(g.dt_bias, m, of_layer(i, "linear_attn.dt_bias"@), false);
    lemma_dense(g.norm_weight, m, of_layer(i, "linear_attn.norm.weight"@), false);
}

/// The embedding table and the head have a row per token. The head is there
/// where it is not the embedding table itself.
pub proof fn ends_of_the_model_hold_their_tensors(w: Weights, m: LoadedModel, c: LlamaConfig)
    requires
        is_weights(w, m, c),
    ensures
        is_matrix_of(
            w.embed_tokens_quant,
            m,
            "model.embed_tokens.weight"@,
            c.vocab_size as int,
            c.hidden_size as int,
        ),
        is_dense_of(w.final_norm, m, "model.norm.weight"@, c.family.rmsnorm_plus_one),
        w.lm_head is None <==> c.tie_word_embeddings,
        w.lm_head matches Some(h) ==> is_matrix_of(
            h,
            m,
            "lm_head.weight"@,
            c.vocab_size as int,
            c.hidden_size as int,
        ),
        w.vision is Some <==> c.vision is Some,
{
    lemma_matrix(
        w.embed_tokens_quant,
        m,
        "model.embed_tokens.weight"@,
        c.vocab_size,
        c.hidden_size,
    );
    lemma_dense(w.final_norm, m, "model.norm.weight"@, c.family.rmsnorm_plus_one);
    match w.lm_head {
        Some(h) => {
            lemma_matrix(h, m, "lm_head.weight"@, c.vocab_size, c.hidden_size);
        },
        None => {},
    }
}

/// The name of a tensor of block `i` of the vision tower.
pub open spec fn of_block(i: int, part: Seq<char>) -> Seq<char> {
    "model.visual.blocks."@ + (text::decimal(i as nat) + ("."@ + part))
}

proof fn lemma_block_name(i: int, part: Seq<char>)
    requires
        0 <= i <= usize::MAX,
    ensures
        of_block(i, part) == block_name(i as usize, part),
{
    assert(of_block(i, part) =~= block_name(i as usize, part));
}

/// The weights of a block of the vision tower are the tensors of its number
/// that are named for them.
#[verifier::spinoff_prover]
#[verifier::rlimit(40)]
pub proof fn vision_blocks_hold_their_tensors(
    w: Weights,
    m: LoadedModel,
    c: LlamaConfig,
    i: int,
)
    requires
        is_weights(w, m, c),
        c.vision is Some,
        0 <= i < (c.vision->0).depth,
    ensures
        (w.vision->0).blocks@.len() == (c.vision->0).depth,
        is_dense_of((w.vision->0).blocks@[i].norm1_weight, m, of_block(i, "norm1.weight"@), false),
        is_dense_of((w.vision->0).blocks@[i].norm1_bias, m, of_block(i, "norm1.bias"@), false),
        is_dense_of((w.vision->0).blocks@[i].norm2_weight, m, of_block(i, "norm2.weight"@), false),
        is_dense_of((w.vision->0).blocks@[i].norm2_bias, m, of_block(i, "norm2.bias"@), false),
        is_dense_of((w.vision->0).blocks@[i].qkv_weight, m, of_block(i, "attn.qkv.weight"@), false),
        is_dense_of((w.vision->0).blocks@[i].qkv_bias, m, of_block(i, "attn.qkv.bias"@), false),
        is_dense_of((w.vision->0).blocks@[i].proj_weight, m, of_block(i, "attn.proj.weight"@), false),
        is_dense_of((w.vision->0).blocks@[i].proj_bias, m, of_block(i, "attn.proj.bias"@), false),
        is_dense_of((w.vision->0).blocks@[i].fc1_weight, m, of_block(i, "mlp.linear_fc1.weight"@), false),
        is_dense_of((w.vision->0).blocks@[i].fc1_bias, m, of_block(i, "mlp.linear_fc1.bias"@), false),
        is_dense_of((w.vision->0).blocks@[i].fc2_weight, m, of_block(i, "mlp.linear_fc2.weight"@), false),
        is_dense_of((w.vision->0).blocks@[i].fc2_bias, m, of_block(i, "mlp.linear_fc2.bias"@), false),
{
    let x = w.vision->0;
    let b = x.blocks@[i];
    assert(is_vision(x, m, c.vision->0));
    assert(is_block(b, m, i as usize));
    lemma_block_name(i, "norm1.weight"@);
    lemma_dense(b.norm1_weight, m, of_block(i, "norm1.weight"@), false);
    lemma_block_name(i, "norm1.bias"@);
    lemma_dense(b.norm1_bias, m, of_block(i, "norm1.bias"@), false);
    lemma_block_name(i, "norm2.weight"@);
    lemma_dense(b.norm2_weight, m, of_block(i, "norm2.weight"@), false);
    lemma_block_name(i, "norm2.bias"@);
    lemma_dense(b.norm2_bias, m, of_block(i, "norm2.bias"@), false);
    lemma_block_name(i, "attn.qkv.weight"@);
    lemma_dense(b.qkv_weight, m, of_block(i, "attn.qkv.weight"@), false);
    lemma_block_name(i, "attn.qkv.bias"@);
    lemma_dense(b.qkv_bias, m, of_block(i, "attn.qkv.bias"@), false);
    lemma_block_name(i, "attn.proj.weight"@);
    lemma_dense(b.proj_weight, m, of_block(i, "attn.proj.weight"@), false);
    lemma_block_name(i, "attn.proj.bias"@);
    lemma_dense(b.proj_bias, m, of_block(i, "attn.proj.bias"@), false);
    lemma_block_name(i, "mlp.linear_fc1.weight"@);
    lemma_dense(b.fc1_weight, m, of_block(i, "mlp.linear_fc1.weight"@), false);
    lemma_block_name(i, "mlp.linear_fc1.bias"@);
    lemma_dense(b.fc1_bias, m, of_block(i, "mlp.linear_fc1.bias"@), false);
    lemma_block_name(i, "mlp.linear_fc2.weight"@);
    lemma_dense(b.fc2_weight, m, of_block(i, "mlp.linear_fc2.weight"@), false);
    lemma_block_name(i, "mlp.linear_fc2.bias"@);
    lemma_dense(b.fc2_bias, m, of_block(i, "mlp.linear_fc2.bias"@), false);
}

/// The ends of the vision tower are the tensors that are named for them. A
/// row of the patch embedding has a place for every number of a patch.
#[verifier::spinoff_prover]
#[verifier::rlimit(40)]
pub proof fn vision_ends_hold_their_tensors(w: Weights, m: LoadedModel, c: LlamaConfig)
    requires
        is_weights(w, m, c),
        config_fits(c),
        c.vision is Some,
    ensures
        is_table_of(
            (w.vision->0).patch_embed_weight,
            m,
            "model.visual.patch_embed.proj.weight"@,
            (c.vision->0).hidden_size as int,
            (c.vision->0).patch_size * ((c.vision->0).patch_size * ((
            c.vision->0).temporal_patch_size * (c.vision->0).in_channels)),
        ),
        is_dense_of(
            (w.vision->0).patch_embed_bias,
            m,
            "model.visual.patch_embed.proj.bias"@,
            false,
        ),
        is_table_of(
            (w.vision->0).pos_embed_table,
            m,
            "model.visual.pos_embed.weight"@,
            (c.vision->0).num_position_embeddings as int,
            (c.vision->0).hidden_size as int,
        ),
        is_dense_of((w.vision->0).merger.norm_weight, m, "model.visual.merger.norm.weight"@, false),
        is_dense_of((w.vision->0).merger.norm_bias, m, "model.visual.merger.norm.bias"@, false),
        is_dense_of((w.vision->0).merger.fc1_weight, m, "model.visual.merger.linear_fc1.weight"@, false),
        is_dense_of((w.vision->0).merger.fc1_bias, m, "model.visual.merger.linear_fc1.bias"@, false),
        is_dense_of((w.vision->0).merger.fc2_weight, m, "model.visual.merger.linear_fc2.weight"@, false),
        is_dense_of((w.vision->0).merger.fc2_bias, m, "model.visual.merger.linear_fc2.bias"@, false),
{
    let x = w.vision->0;
    let v = c.vision->0;
    assert(is_vision(x, m, v));
    assert(is_merger(x.merger, m));
    assert(patch_fits(v));
    assert(patch_dim(v) == v.patch_size * (v.patch_size * (v.temporal_patch_size * v.in_channels))
        && patch_dim(v) >= 0) by (nonlinear_arith)
        requires
            patch_dim(v) == v.in_channels * v.temporal_patch_size * v.patch_size * v.patch_size,
    ;
    lemma_table(
        x.patch_embed_weight,
        m,
        "model.visual.patch_embed.proj.weight"@,
        v.hidden_size,
        patch_dim(v) as usize,
    );
    lemma_dense(x.patch_embed_bias, m, "model.visual.patch_embed.proj.bias"@, false);
    lemma_table(
        x.pos_embed_table,
        m,
        "model.visual.pos_embed.weight"@,
        v.num_position_embeddings,
        v.hidden_size,
    );
    lemma_dense(x.merger.norm_weight, m, "model.visual.merger.norm.weight"@, false);
    lemma_dense(x.merger.norm_bias, m, "model.visual.merger.norm.bias"@, false);
    lemma_dense(x.merger.fc1_weight, m, "model.visual.merger.linear_fc1.weight"@, false);
    lemma_dense(x.merger.fc1_bias, m, "model.visual.merger.linear_fc1.bias"@, false);
    lemma_dense(x.merger.fc2_weight, m, "model.visual.merger.linear_fc2.weight"@, false);
    lemma_dense(x.merger.fc2_bias, m, "model.visual.merger.linear_fc2.bias"@, false);
}

/// A model is refused for the first thing that it is asked for and does not
/// give, and taken where it gives everything.
pub proof fn the_first_fault_is_reported(m: LoadedModel, rs: Seq<Request>, k: int)
    requires
        0 <= k < rs.len(),
        forall|j: int| 0 <= j < k ==> request_fault(m, #[trigger] rs[j]) is None,
        request_fault(m, rs[k]) is Some,
    ensures
        first_fault(m, rs, 0) == request_fault(m, rs[k]),
{
    lemma_first_fault(m, rs, 0, k);
}

proof fn lemma_first_fault(m: LoadedModel, rs: Seq<Request>, from: int, k: int)
    requires
        0 <= from <= k < rs.len(),
        forall|j: int| from <= j < k ==> request_fault(m, #[trigger] rs[j]) is None,
        request_fault(m, rs[k]) is Some,
    ensures
        first_fault(m, rs, from) == request_fault(m, rs[k]),
    decreases k - from,
{
    if from < k {
        assert(request_fault(m, rs[from]) is None);
        lemma_first_fault(m, rs, from + 1, k);
    }
}

/// A model that gives all that it is asked for has no fault.
pub proof fn complete_models_are_taken(m: LoadedModel, rs: Seq<Request>, from: int)
    requires
        0 <= from <= rs.len(),
        forall|j: int| 0 <= j < rs.len() ==> request_fault(m, #[trigger] rs[j]) is None,
    ensures
        first_fault(m, rs, from) is None,
    decreases rs.len() - from,
{
    if from < rs.len() {
        assert(request_fault(m, rs[from]) is None);
        complete_models_are_taken(m, rs, from + 1);
    }
}

/// Of an attention layer seven matrices and two norms must be there; biases,
/// head norms, norms behind the parts and the scale of the output need not.
#[verifier::spinoff_prover]
#[verifier::rlimit(40)]
pub proof fn layers_need_matrices_and_norms(i: usize, d: LayerDims, k: int)
    requires
        0 <= k < attention_requests(i, d).len(),
    ensures
        attention_requests(i, d)[k] matches Request::Quant(n, _, _) ==> n == of_layer(
            i as int,
            "self_attn.q_proj.weight"@,
        ) || n == of_layer(i as int, "self_attn.k_proj.weight"@) || n == of_layer(
            i as int,
            "self_attn.v_proj.weight"@,
        ) || n == of_layer(i as int, "self_attn.o_proj.weight"@) || n == of_layer(
            i as int,
            "mlp.gate_proj.weight"@,
        ) || n == of_layer(i as int, "mlp.up_proj.weight"@) || n == of_layer(
            i as int,
            "mlp.down_proj.weight"@,
        ),
        attention_requests(i, d)[k] matches Request::Dense(n) ==> n == of_layer(
            i as int,
            "input_layernorm.weight"@,
        ) || n == of_layer(i as int, "post_attention_layernorm.weight"@),
        !(attention_requests(i, d)[k] is Field) && !(attention_requests(i, d)[k] is DenseAs),
        attention_requests(i, d).len() == 17,
{
    lemma_name(i as int, "self_attn.q_proj.weight"@);
    lemma_name(i as int, "self_attn.k_proj.weight"@);
    lemma_name(i as int, "self_attn.v_proj.weight"@);
    lemma_name(i as int, "self_attn.o_proj.weight"@);
    lemma_name(i as int, "mlp.gate_proj.weight"@);
    lemma_name(i as int, "mlp.up_proj.weight"@);
    lemma_name(i as int, "mlp.down_proj.weight"@);
    lemma_name(i as int, "input_layernorm.weight"@);
    lemma_name(i as int, "post_attention_layernorm.weight"@);
}

/// A row of the embedding table is read from its own bytes, where all rows
/// have the same number of them; there is no row behind the last.
pub proof fn embedding_rows_are_cut_out(
    q: QuantView,
    row: usize,
    rows: usize,
    width: int,
    f: Format,
)
    requires
        0 < rows,
        0 < width,
        q.bytes.len() == rows * width,
        format_of(q.dtype) == Some(f),
        decodable(q.dtype, width as nat),
    ensures
        row < rows ==> (embed_row_of(q, row, rows) matches Ok(v) && v == decoded(
            f,
            q.bytes.subrange(row * width, row * width + width),
        )),
        row >= rows ==> (embed_row_of(q, row, rows) matches Err(e) && e is OutOfRange),
{
    vstd::arithmetic::div_mod::lemma_div_by_multiple(width, rows as int);
    assert(rows * width == width * rows) by (nonlinear_arith);
    assert((row + 1) * width == row * width + width) by (nonlinear_arith);
    assert(rows * width > 0) by (nonlinear_arith)
        requires
            rows > 0,
            width > 0,
    ;
    if row < rows {
        assert((row + 1) * width <= rows * width) by (nonlinear_arith)
            requires
                row + 1 <= rows,
                width > 0,
        ;
    } else {
        assert((row + 1) * width > rows * width) by (nonlinear_arith)
            requires
                row + 1 > rows,
                width > 0,
        ;
    }
}

/// A tensor is not loaded for a reason that holds of it: there is none of the
/// name, its data could not be read, its type cannot be decoded, its data are
/// no whole blocks, or they are not as many elements as its shape says.
pub proof fn faults_have_their_reason(m: LoadedModel, name: Seq<char>, k: int)
    ensures
        (forall|j: int| 0 <= j < m.tensors@.len() ==> (#[trigger] m.tensors@[j]).name@ != name)
            ==> dense_of(m, name) == Err::<DenseView, Fault>(Fault::Missing(name)) && quant_of(
            m,
            name,
        ) == Err::<QuantView, Fault>(Fault::Missing(name)),
        is_first(m.tensors@, k, name) ==> {
            let t = m.tensors@[k];
            match m.bytes@[k] {
                None => dense_of(m, name) == Err::<DenseView, Fault>(Fault::NoBytes(name))
                    && quant_of(m, name) == Err::<QuantView, Fault>(Fault::NoBytes(name)),
                Some(b) => {
                    &&& quant_of(m, name) matches Ok(q) && q.bytes == b@ && q.shape == t.shape@
                        && q.dtype == t.dtype
                    &&& t.dtype is Q5_K ==> dense_of(m, name) == Err::<DenseView, Fault>(
                        Fault::Unsupported(name, t.dtype),
                    )
                    &&& dense_of(m, name) == Err::<DenseView, Fault>(Fault::Misaligned(name))
                        ==> !decodable(t.dtype, b@.len())
                    &&& dense_of(m, name) == Err::<DenseView, Fault>(Fault::Count(name))
                        ==> decoded(format_of(t.dtype)->0, b@).len() != product(t.shape@)
                    &&& dense_of(m, name) matches Ok(d) ==> d.shape == t.shape@ && !d.plus_one
                        && are_elements_of(d.elements, m, k)
                },
            }
        },
{
    lemma_named(m.tensors@, name, 0);
    match tensor_named(m.tensors@, name, 0) {
        Some(i) => {
            if is_first(m.tensors@, k, name) {
                if i < k {
                    assert(m.tensors@[i].name@ != name);
                }
                if k < i {
                    assert(m.tensors@[k].name@ != name);
                }
            }
        },
        None => {},
    }
}

/// A matrix of another size than expected is refused, with what it declares
/// and what was expected.
pub proof fn other_sizes_are_refused(
    m: LoadedModel,
    name: Seq<char>,
    q: QuantView,
    rows: usize,
    columns: usize,
)
    requires
        quant_of(m, name) == Ok::<QuantView, Fault>(q),
        product(q.shape) != rows * columns,
    ensures
        quant_as(m, name, rows, columns) == Err::<QuantView, Fault>(
            Fault::Shape { name, declared: q.shape, rows, columns },
        ),
{
}

/// Of a linear-attention layer five fields of the configuration must be there
/// and all its tensors, but for the norms behind the parts and the scale of the
/// output. Of a block of the vision tower all twelve must be there.
pub proof fn other_layers_need_their_tensors(i: usize, d: LayerDims, l: LinearDims, k: int)
    ensures
        linear_requests(i, d, l).len() == 22,
        0 <= k < 5 ==> linear_requests(i, d, l)[k] is Field,
        5 <= k < 22 ==> !(linear_requests(i, d, l)[k] is Field),
        0 <= k < 22 ==> (linear_requests(i, d, l)[k] matches Request::Optional(n) ==> n == of_layer(
            i as int,
            "post_attention_norm.weight"@,
        ) || n == of_layer(i as int, "post_ffw_norm.weight"@) || n == of_layer(
            i as int,
            "layer_output_scale.weight"@,
        )),
        block_requests(i).len() == 12,
        0 <= k < 12 ==> block_requests(i)[k] is Dense,
{
    lemma_name(i as int, "post_attention_norm.weight"@);
    lemma_name(i as int, "post_ffw_norm.weight"@);
    lemma_name(i as int, "layer_output_scale.weight"@);
}

} // verus!
