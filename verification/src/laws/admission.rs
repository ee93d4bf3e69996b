//! What runs on the GPU in one piece.

use vstd::prelude::*;

use crate::backend::Op;
use crate::config::{stored_as_inverse, Number};
use crate::honeycrisp::attention_state::EntryView;
use crate::honeycrisp::decode::{decodable, uniform, LayerFusedInput};
use crate::honeycrisp::fused::{
    attn_fusible, ffn_fusible, ffn_widths_agree, float_bytes, qkv_fusible, swiglu_fusible,
};
use crate::honeycrisp::route::{
    all_floats, all_on_gpu, gpu_supports, homogeneous, matmul_outputs, matmul_shapes_agree,
    norm_outputs, normed_fusible,
};
use crate::tensor::{leading, product, DType, TensorDesc};
use crate::text;

verus! {

/// The matrix is in blocks of four or of eight bits, in a buffer of the GPU.
pub open spec fn is_bound_block(t: TensorDesc) -> bool {
    t.on_gpu && (t.dtype is Q4 || t.dtype is Q8)
}

/// An optional tensor is in a buffer of the GPU where it is there.
pub open spec fn is_bound_if_there(t: Option<TensorDesc>) -> bool {
    t matches Some(x) ==> x.on_gpu
}

/// The matrices of a layer.
pub open spec fn matrices(l: LayerFusedInput) -> Seq<TensorDesc> {
    seq![l.q_proj, l.k_proj, l.v_proj, l.o_proj, l.gate_proj, l.up_proj, l.down_proj]
}

/// A layer that the fused decode path takes is like the first: its matrices
/// are all in the same blocks, and bound; the position is in the cache. The
/// tanh form wants 8-bit blocks and more than 64 of them in a row, a norm
/// behind a part 8-bit blocks, and a layer without head norms heads of 128
/// that are rotated whole, and no 4-bit rows of more than 64 blocks.
pub proof fn fused_layers_are_alike(
    table: Seq<EntryView>,
    layers: Seq<LayerFusedInput>,
    past: usize,
    max_seq: u32,
    i: int,
    k: int,
)
    requires
        decodable(table, layers, past, max_seq),
        0 <= i < layers.len(),
        0 <= k < 7,
    ensures
        past + 1 <= max_seq,
        is_bound_block(matrices(layers[i])[k]),
        matrices(layers[i])[k].dtype == layers[0].q_proj.dtype,
        layers[i].num_heads == layers[0].num_heads,
        layers[i].kv_heads == layers[0].kv_heads,
        layers[i].head_dim == layers[0].head_dim,
        layers[i].use_gelu_tanh == layers[0].use_gelu_tanh,
        layers[i].q_proj.shape@[1] == layers[0].q_proj.shape@[1],
        layers[i].gate_proj.shape@[0] == layers[0].gate_proj.shape@[0],
        layers[i].q_norm is Some <==> layers[0].q_norm is Some,
        is_bound_if_there(layers[i].post_attn_norm) && is_bound_if_there(layers[i].post_ffw_norm),
        exists|n: int| layers[0].q_proj.shape@[1] == #[trigger] (32 * n),
        exists|n: int| layers[0].gate_proj.shape@[0] == #[trigger] (32 * n),
        layers[0].use_gelu_tanh ==> layers[0].q_proj.dtype is Q8 && layers[0].q_proj.shape@[1]
            >= 65 * 32,
        layers[i].post_attn_norm is Some || layers[i].post_ffw_norm is Some
            ==> layers[0].q_proj.dtype is Q8,
        layers[0].q_norm is None ==> layers[0].head_dim == 128 && layers[0].rope_dim == 128 && (
        layers[0].q_proj.dtype is Q8 || layers[0].q_proj.shape@[1] < 65 * 32),
{
    assert(uniform(layers[i], layers[0]));
    let w = layers[0].q_proj.shape@[1] as int;
    let g = layers[0].gate_proj.shape@[0] as int;
    assert(w == 32 * (w / 32));
    assert(g == 32 * (g / 32));
}

/// The layer is like this one.
pub open spec fn is_like(l: LayerFusedInput, a: LayerFusedInput) -> bool {
    &&& forall|k: int|
        0 <= k < 7 ==> (#[trigger] matrices(l)[k]).on_gpu && matrices(l)[k].dtype == a.q_proj.dtype
    &&& l.num_heads == a.num_heads && l.kv_heads == a.kv_heads && l.head_dim == a.head_dim
    &&& l.use_gelu_tanh == a.use_gelu_tanh
    &&& l.q_proj.shape@[1] == a.q_proj.shape@[1]
    &&& l.gate_proj.shape@[0] == a.gate_proj.shape@[0]
    &&& l.q_norm is Some && a.q_norm is Some
    &&& l.post_attn_norm is None && a.post_attn_norm is None
    &&& l.post_ffw_norm is None && a.post_ffw_norm is None
}

/// Layers with head norms and without norms behind their parts that are all
/// alike are taken, in either format, while there is room in the cache.
pub proof fn like_layers_are_fused(
    layers: Seq<LayerFusedInput>,
    past: usize,
    max_seq: u32,
    width: int,
    inter: int,
)
    requires
        layers.len() > 0,
        past < max_seq,
        layers[0].q_proj.dtype is Q4 || layers[0].q_proj.dtype is Q8,
        !layers[0].use_gelu_tanh,
        layers[0].q_proj.shape@[1] == 32 * width,
        layers[0].gate_proj.shape@[0] == 32 * inter,
        forall|i: int| 0 <= i < layers.len() ==> is_like(#[trigger] layers[i], layers[0]),
    ensures
        decodable(Seq::empty(), layers, past, max_seq),
{
    assert(is_like(layers[0], layers[0]));
    assert forall|i: int| 0 <= i < layers.len() implies uniform(
        #[trigger] layers[i],
        layers[0],
    ) by {
        let l = layers[i];
        assert(is_like(l, layers[0]));
        assert(matrices(l)[0].on_gpu && matrices(l)[1].on_gpu && matrices(l)[2].on_gpu);
        assert(matrices(l)[3].on_gpu && matrices(l)[4].on_gpu && matrices(l)[5].on_gpu);
        assert(matrices(l)[6].on_gpu);
    }
}

/// Attention with its projection and sum is one piece where the projection is
/// a bound block matrix and the hidden state single-precision.
pub proof fn attention_is_fused_with_blocks(o: TensorDesc, h: TensorDesc)
    ensures
        attn_fusible(o, h) <==> is_bound_block(o) && h.dtype is F32,
{
}

/// Norm, projections and head norms are one piece where the projections are
/// bound matrices of whole blocks of one format, and the others
/// single-precision.
pub proof fn projections_are_fused_with_blocks(
    h: TensorDesc,
    n: TensorDesc,
    q: TensorDesc,
    k: TensorDesc,
    v: TensorDesc,
    qn: TensorDesc,
    kn: TensorDesc,
)
    ensures
        qkv_fusible(h, n, q, k, v, qn, kn) <==> is_bound_block(q) && is_bound_block(k)
            && is_bound_block(v) && q.dtype == k.dtype && k.dtype == v.dtype && (exists|j: int|
            q.shape@[1] == #[trigger] (32 * j)) && h.dtype is F32 && n.dtype is F32 && qn.dtype
            is F32 && kn.dtype is F32,
{
    let w = q.shape@[1] as int;
    if w % 32 == 0 {
        assert(w == 32 * (w / 32));
    }
}

/// The gated feed-forward part is one piece where its matrices are bound, in
/// 8-bit blocks, and chain: gate and up from the hidden width, down from theirs.
pub proof fn feed_forward_is_fused_with_8_bit_blocks(
    h: TensorDesc,
    n: TensorDesc,
    gate: TensorDesc,
    up: TensorDesc,
    down: TensorDesc,
)
    ensures
        swiglu_fusible(h, n, gate, up, down) ==> {
            &&& gate.dtype is Q8 && up.dtype is Q8 && down.dtype is Q8
            &&& gate.on_gpu && up.on_gpu && down.on_gpu
            &&& h.dtype is F32 && n.dtype is F32
            &&& h.shape@[h.shape@.len() - 1] == gate.shape@[1]
            &&& up.shape@[1] == gate.shape@[1]
            &&& up.shape@[0] == gate.shape@[0]
            &&& gate.shape@[0] == down.shape@[1]
            &&& gate.shape@[1] as int % 32 == 0
            &&& down.shape@[1] as int % 32 == 0
        },
        gate.dtype is Q8 && up.dtype is Q8 && down.dtype is Q8 && gate.on_gpu && up.on_gpu
            && down.on_gpu && h.dtype is F32 && n.dtype is F32 && h.shape@[h.shape@.len() - 1]
            == gate.shape@[1] && up.shape@[1] == gate.shape@[1] && up.shape@[0] == gate.shape@[0]
            && gate.shape@[0] == down.shape@[1] && gate.shape@[1] as int % 32 == 0
            && down.shape@[1] as int % 32 == 0 ==> swiglu_fusible(h, n, gate, up, down),
        ffn_fusible(h, n, gate, up, down) <==> is_bound_block(gate) && is_bound_block(up)
            && is_bound_block(down) && gate.dtype == up.dtype && up.dtype == down.dtype && h.dtype
            is F32 && n.dtype is F32,
        n.shape@[0] <= u32::MAX && gate.shape@[1] <= u32::MAX && up.shape@[1] <= u32::MAX
            && down.shape@[1] <= u32::MAX && gate.shape@[0] <= u32::MAX ==> (ffn_widths_agree(
            n,
            gate,
            up,
            down,
        ) <==> gate.shape@[1] == n.shape@[0] && up.shape@[1] == n.shape@[0] && down.shape@[1]
            == gate.shape@[0]),
{
}

/// Several products are one piece where all weights are bound, of one format
/// and of one width in whole blocks.
pub proof fn products_are_fused_when_alike(x: TensorDesc, g: TensorDesc, ws: Seq<TensorDesc>, i: int)
    requires
        homogeneous(ws),
        all_on_gpu(ws),
        0 <= i < ws.len(),
    ensures
        is_bound_block(ws[i]),
        ws[i].dtype == ws[0].dtype,
        ws[i].shape@[1] == ws[0].shape@[1],
        ws[i].shape@[1] as int % 32 == 0,
        normed_fusible(x, g, ws) <==> x.dtype is F32 && g.dtype is F32,
{
}

/// Weights of one format and width in bound whole blocks are alike.
pub proof fn alike_weights_are_fused(ws: Seq<TensorDesc>, dtype: DType, blocks: int)
    requires
        dtype is Q4 || dtype is Q8,
        forall|i: int|
            0 <= i < ws.len() ==> (#[trigger] ws[i]).dtype == dtype && ws[i].on_gpu
                && ws[i].shape@[1] == 32 * blocks,
    ensures
        homogeneous(ws) && all_on_gpu(ws),
{
    if ws.len() > 0 {
        assert(ws[0].dtype == dtype);
    }
}

/// Products, norms and SiLU run on the GPU, and on single-precision tensors
/// alone.
pub proof fn the_gpu_takes_three_operations(op: Op, inputs: Seq<TensorDesc>)
    ensures
        gpu_supports(op, inputs) <==> (op is Matmul || op is RmsNorm || op is Silu) && forall|i: int|
            0 <= i < inputs.len() ==> (#[trigger] inputs[i]).dtype is F32,
{
}

/// Shapes of a product agree where the matrix has two dimensions and the input
/// ends in the second; norms are one piece where all tensors are
/// single-precision.
pub proof fn products_agree_in_width(
    x: TensorDesc,
    w: TensorDesc,
    pairs: Seq<(TensorDesc, TensorDesc)>,
)
    ensures
        matmul_shapes_agree(x, w) <==> w.shape@.len() == 2 && x.shape@.len() >= 1 && x.shape@[
            x.shape@.len() - 1] == w.shape@[1],
        all_floats(pairs) <==> forall|i: int|
            0 <= i < pairs.len() ==> (#[trigger] pairs[i]).0.dtype is F32 && pairs[i].1.dtype is F32,
{
}

/// A buffer holds four bytes for each float, and never less than one float.
pub proof fn buffers_hold_their_floats(rows: u32, cols: u32)
    ensures
        rows > 0 && cols > 0 ==> float_bytes(rows, cols) == 4 * (rows * cols),
        rows == 0 || cols == 0 ==> float_bytes(rows, cols) == 4,
{
    assert(rows > 0 && cols > 0 ==> rows * cols >= 1) by (nonlinear_arith);
    assert(rows == 0 || cols == 0 ==> rows * cols == 0) by (nonlinear_arith);
}

/// An epsilon is stored as its inverse where it is an integer from one on, or
/// a float from one on that is a number.
pub proof fn inverses_are_one_or_more(i: i64, exponent: int, fraction: int, bits: u64)
    requires
        0 <= exponent < 2047,
        0 <= fraction < 0x10_0000_0000_0000,
        bits == exponent * 0x10_0000_0000_0000 + fraction,
    ensures
        stored_as_inverse(Number::Integer(i)) <==> 0 < i,
        stored_as_inverse(Number::Float(bits)) <==> exponent >= 1023,
        stored_as_inverse(Number::Float(0x7FF0_0000_0000_0000)),
        !stored_as_inverse(Number::Float(0x7FF8_0000_0000_0000)),
{
}

/// A negative integer has a sign before its numeral.
pub proof fn signs_stand_before_numerals(n: nat)
    ensures
        text::signed_decimal(n as int) == text::decimal(n),
        n > 0 ==> text::signed_decimal(-(n as int)) == "-"@ + text::decimal(n),
{
}

/// A product gives for each weight a result of as many floats as rows and
/// weights' rows, in the shape of the input with the last dimension replaced;
/// a norm gives one of the shape of its input.
pub proof fn results_have_room_for_their_floats(
    x: TensorDesc,
    ws: Seq<TensorDesc>,
    pairs: Seq<(TensorDesc, TensorDesc)>,
    lead: Seq<usize>,
    m: usize,
    i: int,
)
    requires
        x.shape@ == lead.push(m),
        product(lead) <= u32::MAX,
    ensures
        matmul_outputs(x, ws).len() == ws.len(),
        0 <= i < ws.len() && product(lead) > 0 && ws[i].shape@[0] > 0 ==> {
            let o = matmul_outputs(x, ws)[i];
            &&& o.bytes == 4 * (product(lead) * ws[i].shape@[0])
            &&& o.shape == lead.push(ws[i].shape@[0])
        },
        norm_outputs(pairs).len() == pairs.len(),
        0 <= i < pairs.len() && pairs[i].0 == x && 0 < pairs[i].1.shape@[0] <= u32::MAX && product(
            lead,
        ) > 0 ==> {
            let o = norm_outputs(pairs)[i];
            &&& o.bytes == 4 * (product(lead) * pairs[i].1.shape@[0])
            &&& o.shape == x.shape@
        },
{
    assert(leading(x.shape@) =~= lead);
    let b = product(lead) as int;
    if 0 <= i < ws.len() {
        let n = ws[i].shape@[0] as int;
        assert(b > 0 && n > 0 ==> b * n >= 1) by (nonlinear_arith);
        assert(b * n * 4 == 4 * (b * n)) by (nonlinear_arith);
    }
    if 0 <= i < pairs.len() {
        let n = pairs[i].1.shape@[0] as int;
        assert(b > 0 && n > 0 ==> b * n >= 1) by (nonlinear_arith);
        assert(b * n * 4 == 4 * (b * n)) by (nonlinear_arith);
    }
}

} // verus!
