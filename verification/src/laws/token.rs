//! What a decode token computes.

use vstd::prelude::*;

use crate::honeycrisp::attention_state::EntryView;
use crate::honeycrisp::decode::{
    attention_half, attention_steps, bias_step, bias_steps, biased, bound, decodable, decode_steps,
    ffn_half, geometry_of, gus_step, hidden_in, hidden_out, indices, project_steps, qkv_steps,
    scale_steps, shape_of, slots_in, uniform, DecodeShape, LayerFusedInput,
};
use crate::honeycrisp::steps::by_quant;
use crate::laws::dataflow::{
    append, attention, gated, head_norm, lemma_run_five, lemma_run_one, lemma_run_sum,
    lemma_run_three, lemma_run_two, norm, product, rotation, run_all, scaling, sum, Store, Value,
};
use crate::laws::state::layers_have_slots_of_their_own;
use crate::plan::{Binding, Kernel, LayerTensor, Operand, StepView};

verus! {

/// The tensor of layer `li`.
pub open spec fn held(li: int, t: LayerTensor) -> Value {
    Value::Held(Operand::Layer(li as usize, t))
}

/// The hidden state normalised before a part of the layer, times a matrix.
pub open spec fn projected(
    h: Value,
    li: int,
    gain: LayerTensor,
    w: LayerTensor,
    rows: int,
    width: int,
    eps: u32,
) -> Value {
    product(norm(h, held(li, gain), 1, width, eps), held(li, w), 1, rows, width)
}

/// A projection with its bias, where it has one on the GPU.
pub open spec fn with_bias(x: Value, present: bool, li: int, b: LayerTensor, rows: int) -> Value {
    if present {
        sum(x, held(li, b), rows)
    } else {
        x
    }
}

/// The query of a token, before it is rotated.
#[verifier::opaque]
pub open spec fn query(h: Value, li: int, l: LayerFusedInput, width: int, eps: u32) -> Value {
    let rows = l.num_heads * l.head_dim;
    with_bias(
        projected(h, li, LayerTensor::InputNorm, LayerTensor::QProj, rows, width, eps),
        l.q_bias is Some && l.q_bias->0.on_gpu,
        li,
        LayerTensor::QBias,
        rows,
    )
}

/// The key of a token, before it is rotated.
#[verifier::opaque]
pub open spec fn key(h: Value, li: int, l: LayerFusedInput, width: int, eps: u32) -> Value {
    let rows = l.kv_heads * l.head_dim;
    with_bias(
        projected(h, li, LayerTensor::InputNorm, LayerTensor::KProj, rows, width, eps),
        l.k_bias is Some && l.k_bias->0.on_gpu,
        li,
        LayerTensor::KBias,
        rows,
    )
}

/// The value of a token.
#[verifier::opaque]
pub open spec fn value(h: Value, li: int, l: LayerFusedInput, width: int, eps: u32) -> Value {
    let rows = l.kv_heads * l.head_dim;
    with_bias(
        projected(h, li, LayerTensor::InputNorm, LayerTensor::VProj, rows, width, eps),
        l.v_bias is Some && l.v_bias->0.on_gpu,
        li,
        LayerTensor::VBias,
        rows,
    )
}

/// Rotated for position `past`, of which the tables hold a float per pair.
pub open spec fn turned(x: Value, past: int, pairs: int) -> Value {
    rotation(
        x,
        Binding { operand: Operand::RopeCos, offset: (4 * (past * pairs)) as usize },
        Binding { operand: Operand::RopeSin, offset: (4 * (past * pairs)) as usize },
    )
}

/// What a layer does with a token at position `past`.
pub struct Place {
    pub li: int,
    pub past: int,
    /// Width of the hidden state.
    pub width: int,
    pub eps: u32,
    /// Rotated pairs of a head.
    pub pairs: int,
    /// The layers normalise queries and keys by head.
    pub head_norms: bool,
}

/// The query of a token as attention takes it.
#[verifier::opaque]
pub open spec fn turned_query(h: Value, l: LayerFusedInput, p: Place) -> Value {
    let q = query(h, p.li, l, p.width, p.eps);
    turned(
        if p.head_norms {
            head_norm(q, held(p.li, LayerTensor::QNorm), l.num_heads as int, p.eps)
        } else {
            q
        },
        p.past,
        p.pairs,
    )
}

/// The key of a token as the cache takes it.
#[verifier::opaque]
pub open spec fn turned_key(h: Value, l: LayerFusedInput, p: Place) -> Value {
    let k = key(h, p.li, l, p.width, p.eps);
    turned(
        if p.head_norms {
            head_norm(k, held(p.li, LayerTensor::KNorm), l.kv_heads as int, p.eps)
        } else {
            k
        },
        p.past,
        p.pairs,
    )
}

/// What is added to the residual: a projection back to the hidden width,
/// normalised where the layer has a norm for it.
pub open spec fn added(
    x: Value,
    p: Place,
    w: LayerTensor,
    rows: int,
    width: int,
    gain: Option<LayerTensor>,
    residual: Value,
) -> Value {
    let y = product(x, held(p.li, w), 1, rows, width);
    match gain {
        Some(g) => sum(norm(y, held(p.li, g), 1, p.width, p.eps), residual, p.width),
        None => sum(y, residual, rows),
    }
}

/// The hidden state after the attention of a layer: that before it plus the
/// projection of the attention over the caches with the token appended.
#[verifier::opaque]
pub open spec fn after_attention(
    h: Value,
    l: LayerFusedInput,
    p: Place,
    k_cache: Value,
    v_cache: Value,
) -> Value {
    added(
        attention(
            turned_query(h, l, p),
            append(k_cache, turned_key(h, l, p), p.past),
            append(v_cache, value(h, p.li, l, p.width, p.eps), p.past),
            p.past + 1,
            0,
            l.attn_scale,
        ),
        p,
        LayerTensor::OProj,
        l.o_proj.shape@[0] as int,
        l.num_heads * l.head_dim,
        if l.post_attn_norm is Some {
            Some(LayerTensor::PostAttnNorm)
        } else {
            None
        },
        h,
    )
}

/// The hidden state after the feed-forward part of a layer: that before it
/// plus the projection of the gated product.
#[verifier::opaque]
pub open spec fn after_feed_forward(h: Value, l: LayerFusedInput, p: Place) -> Value {
    let rows = l.gate_proj.shape@[0] as int;
    let y = added(
        gated(
            projected(h, p.li, LayerTensor::PostNorm, LayerTensor::GateProj, rows, p.width, p.eps),
            projected(h, p.li, LayerTensor::PostNorm, LayerTensor::UpProj, rows, p.width, p.eps),
            l.use_gelu_tanh,
        ),
        p,
        LayerTensor::DownProj,
        l.down_proj.shape@[0] as int,
        rows,
        if l.post_ffw_norm is Some {
            Some(LayerTensor::PostFfwNorm)
        } else {
            None
        },
        h,
    );
    if l.layer_output_scale == 0x3F80_0000 {
        y
    } else {
        scaling(y, l.layer_output_scale)
    }
}

/// The sizes of a shape stand for those of a layer, and fit in words.
pub open spec fn agrees(d: DecodeShape, l: LayerFusedInput) -> bool {
    &&& d.fits()
    &&& d.past < u32::MAX
    &&& d.k_dim % 32 == 0 && d.k_dim <= u32::MAX
    &&& d.inter_size % 32 == 0 && d.inter_size <= u32::MAX
    &&& d.inter_size == l.gate_proj.shape@[0]
    &&& l.o_proj.shape@[0] <= u32::MAX && l.down_proj.shape@[0] <= u32::MAX
    &&& d.num_heads == l.num_heads && d.kv_heads == l.kv_heads && d.head_dim == l.head_dim
    &&& (d.num_heads * d.head_dim) % 32 == 0
    &&& d.use_gelu_tanh == l.use_gelu_tanh
    &&& d.use_gelu_tanh ==> d.k_dim / 32 > 64
    &&& biased(l) ==> d.has_qkv_bias
}

/// The place of a layer in a token of this shape.
pub open spec fn place_of(d: DecodeShape, li: int) -> Place {
    Place {
        li,
        past: d.past as int,
        width: d.k_dim as int,
        eps: d.eps,
        pairs: d.rope_half as int,
        head_norms: d.has_qk_norm,
    }
}

/// The other buffers are as before.
pub open spec fn others_stay(s: Store, r: Store, changed: Set<Operand>) -> bool {
    forall|o: Operand| !changed.contains(o) ==> #[trigger] r[o] == s[o]
}

#[verifier::spinoff_prover]
#[verifier::rlimit(40)]
proof fn lemma_qkv(d: DecodeShape, li: int, l: LayerFusedInput, s: Store)
    requires
        agrees(d, l),
        li >= 0,
    ensures
        ({
            let r = run_all(s, qkv_steps(d, li));
            let h = s[hidden_in(li)];
            let w = d.k_dim as int;
            let q = l.num_heads * l.head_dim;
            let kv = l.kv_heads * l.head_dim;
            &&& r[Operand::Scratch(3)] == projected(
                h,
                li,
                LayerTensor::InputNorm,
                LayerTensor::QProj,
                q,
                w,
                d.eps,
            )
            &&& r[Operand::Scratch(4)] == projected(
                h,
                li,
                LayerTensor::InputNorm,
                LayerTensor::KProj,
                kv,
                w,
                d.eps,
            )
            &&& r[Operand::Scratch(5)] == projected(
                h,
                li,
                LayerTensor::InputNorm,
                LayerTensor::VProj,
                kv,
                w,
                d.eps,
            )
            &&& others_stay(
                s,
                r,
                set![Operand::Scratch(3), Operand::Scratch(4), Operand::Scratch(5)],
            )
        }),
{
    reveal(qkv_steps);
    let steps = qkv_steps(d, li);
    assert(0 <= l.num_heads * l.head_dim && 0 <= l.kv_heads * l.head_dim) by (nonlinear_arith);
    assert(32 * d.blk_kd() == d.k_dim);
    if d.blk_kd() > 64 {
        lemma_run_three(s, steps[0], steps[1], steps[2]);
        assert(steps =~= seq![steps[0], steps[1], steps[2]]);
    } else {
        lemma_run_two(s, steps[0], steps[1]);
        assert(steps =~= seq![steps[0], steps[1]]);
    }
}

proof fn lemma_bias(present: bool, buf: Operand, li: int, b: LayerTensor, n: u32, s: Store)
    requires
        buf !is Layer,
    ensures
        ({
            let r = run_all(s, bias_step(present, buf, li, b, n));
            &&& r[buf] == with_bias(s[buf], present, li, b, n as int)
            &&& others_stay(s, r, set![buf])
        }),
{
    reveal(bias_step);
    if present {
        let steps = bias_step(present, buf, li, b, n);
        lemma_run_one(s, steps[0]);
        assert(steps =~= seq![steps[0]]);
    }
}

#[verifier::spinoff_prover]
#[verifier::rlimit(40)]
proof fn lemma_biases(d: DecodeShape, li: int, l: LayerFusedInput, s: Store)
    requires
        agrees(d, l),
    ensures
        ({
            let r = run_all(s, bias_steps(d, li, l));
            let q = l.num_heads * l.head_dim;
            let kv = l.kv_heads * l.head_dim;
            &&& r[Operand::Scratch(3)] == with_bias(
                s[Operand::Scratch(3)],
                l.q_bias is Some && l.q_bias->0.on_gpu,
                li,
                LayerTensor::QBias,
                q,
            )
            &&& r[Operand::Scratch(4)] == with_bias(
                s[Operand::Scratch(4)],
                l.k_bias is Some && l.k_bias->0.on_gpu,
                li,
                LayerTensor::KBias,
                kv,
            )
            &&& r[Operand::Scratch(5)] == with_bias(
                s[Operand::Scratch(5)],
                l.v_bias is Some && l.v_bias->0.on_gpu,
                li,
                LayerTensor::VBias,
                kv,
            )
            &&& others_stay(
                s,
                r,
                set![Operand::Scratch(3), Operand::Scratch(4), Operand::Scratch(5)],
            )
        }),
{
    reveal(bias_steps);
    assert(0 <= l.num_heads * l.head_dim && 0 <= l.kv_heads * l.head_dim) by (nonlinear_arith);
    let a = bias_step(
        bound(l.q_bias),
        Operand::Scratch(3),
        li,
        LayerTensor::QBias,
        d.q_rows(),
    );
    let b = bias_step(
        bound(l.k_bias),
        Operand::Scratch(4),
        li,
        LayerTensor::KBias,
        d.kv_rows(),
    );
    let c = bias_step(
        bound(l.v_bias),
        Operand::Scratch(5),
        li,
        LayerTensor::VBias,
        d.kv_rows(),
    );
    let s1 = run_all(s, a);
    let s2 = run_all(s1, b);
    lemma_bias(bound(l.q_bias), Operand::Scratch(3), li, LayerTensor::QBias, d.q_rows(), s);
    lemma_bias(bound(l.k_bias), Operand::Scratch(4), li, LayerTensor::KBias, d.kv_rows(), s1);
    lemma_bias(bound(l.v_bias), Operand::Scratch(5), li, LayerTensor::VBias, d.kv_rows(), s2);
    lemma_run_sum(s, a, b);
    lemma_run_sum(s, a + b, c);
}

#[verifier::spinoff_prover]
#[verifier::rlimit(40)]
proof fn lemma_attention(d: DecodeShape, li: int, l: LayerFusedInput, slot: usize, s: Store)
    requires
        agrees(d, l),
    ensures
        ({
            let r = run_all(s, attention_steps(d, li, slot, l.attn_scale));
            let (q, k, v) = (s[Operand::Scratch(3)], s[Operand::Scratch(4)], s[Operand::Scratch(5)]);
            let past = d.past as int;
            let pairs = d.rope_half as int;
            let tq = turned(
                if d.has_qk_norm {
                    head_norm(q, held(li, LayerTensor::QNorm), l.num_heads as int, d.eps)
                } else {
                    q
                },
                past,
                pairs,
            );
            let tk = turned(
                if d.has_qk_norm {
                    head_norm(k, held(li, LayerTensor::KNorm), l.kv_heads as int, d.eps)
                } else {
                    k
                },
                past,
                pairs,
            );
            let kc = append(s[Operand::KCache(slot)], tk, past);
            let vc = append(s[Operand::VCache(slot)], v, past);
            &&& r[Operand::KCache(slot)] == kc
            &&& r[Operand::VCache(slot)] == vc
            &&& r[Operand::Scratch(6)] == attention(tq, kc, vc, past + 1, 0, l.attn_scale)
            &&& others_stay(
                s,
                r,
                set![
                    Operand::KCache(slot),
                    Operand::VCache(slot),
                    Operand::Scratch(6),
                    Operand::Scratch(8),
                    Operand::Scratch(9),
                ],
            )
        }),
{
    reveal(attention_steps);
    let steps = attention_steps(d, li, slot, l.attn_scale);
    assert(d.past * d.rope_half * 4 == 4 * (d.past * d.rope_half) && d.past * d.rope_half >= 0)
        by (nonlinear_arith);
    assert(d.rope_offset() == (4 * (d.past * d.rope_half)) as usize);
    if d.has_qk_norm {
        lemma_run_five(s, steps[0], steps[1], steps[2], steps[3], steps[4]);
        assert(steps =~= seq![steps[0], steps[1], steps[2], steps[3], steps[4]]);
    } else {
        lemma_run_one(s, steps[0]);
        assert(steps =~= seq![steps[0]]);
    }
}

#[verifier::spinoff_prover]
#[verifier::rlimit(40)]
proof fn lemma_project(
    d: DecodeShape,
    li: int,
    l: LayerFusedInput,
    x: Operand,
    w: LayerTensor,
    gain: Option<LayerTensor>,
    residual: Operand,
    out: Operand,
    n_rows: u32,
    n_blocks: u32,
    large: bool,
    cached: Kernel,
    s: Store,
)
    requires
        agrees(d, l),
        cached is Q4ResMb64 || cached is Q8ResMb64 || cached is Q4ResMb96 || cached is Q8ResMb96,
        x !is Layer && residual !is Layer && out !is Layer,
        out != residual,
        residual != Operand::Scratch(3),
        out != Operand::Scratch(3),
    ensures
        ({
            let r = run_all(
                s,
                project_steps(d, li, x, w, gain, residual, out, n_rows, n_blocks, large, cached),
            );
            &&& r[out] == added(
                s[x],
                place_of(d, li),
                w,
                n_rows as int,
                32 * n_blocks,
                gain,
                s[residual],
            )
            &&& others_stay(s, r, set![out, Operand::Scratch(3)])
        }),
{
    reveal(project_steps);
    let steps = project_steps(d, li, x, w, gain, residual, out, n_rows, n_blocks, large, cached);
    match gain {
        Some(g) => {
            lemma_run_five(s, steps[0], steps[1], steps[2], steps[3], steps[4]);
            assert(steps =~= seq![steps[0], steps[1], steps[2], steps[3], steps[4]]);
        },
        None => {
            lemma_run_one(s, steps[0]);
            assert(steps =~= seq![steps[0]]);
        },
    }
}

#[verifier::spinoff_prover]
#[verifier::rlimit(40)]
proof fn lemma_gus(d: DecodeShape, li: int, l: LayerFusedInput, s: Store)
    requires
        agrees(d, l),
    ensures
        ({
            let r = run_all(
                s,
                seq![gus_step(d, li, l.gate_proj.shape@[0] as u32), StepView::Barrier],
            );
            let h = s[Operand::Scratch(2)];
            let rows = l.gate_proj.shape@[0] as int;
            let w = d.k_dim as int;
            &&& r[Operand::Scratch(7)] == gated(
                projected(h, li, LayerTensor::PostNorm, LayerTensor::GateProj, rows, w, d.eps),
                projected(h, li, LayerTensor::PostNorm, LayerTensor::UpProj, rows, w, d.eps),
                l.use_gelu_tanh,
            )
            &&& others_stay(s, r, set![Operand::Scratch(7)])
        }),
{
    reveal(gus_step);
    let step = gus_step(d, li, l.gate_proj.shape@[0] as u32);
    lemma_run_two(s, step, StepView::Barrier);
    assert(32 * d.blk_kd() == d.k_dim);
}

proof fn lemma_scale(d: DecodeShape, li: int, scale: u32, s: Store)
    ensures
        ({
            let r = run_all(s, scale_steps(d, li, scale));
            &&& r[hidden_out(li)] == (if scale == 0x3F80_0000 {
                s[hidden_out(li)]
            } else {
                scaling(s[hidden_out(li)], scale)
            })
            &&& others_stay(s, r, set![hidden_out(li)])
        }),
{
    reveal(scale_steps);
    let steps = scale_steps(d, li, scale);
    if scale != 0x3F80_0000 {
        lemma_run_two(s, steps[0], steps[1]);
        assert(steps =~= seq![steps[0], steps[1]]);
    }
}

proof fn lemma_barrier(s: Store)
    ensures
        run_all(s, seq![StepView::Barrier]) == s,
        run_all(s, Seq::<StepView>::empty()) == s,
{
    lemma_run_one(s, StepView::Barrier);
}

/// The buffers that a layer may change, besides the one it leaves its result
/// in.
pub open spec fn worked_in(slot: usize) -> Set<Operand> {
    set![
        Operand::Scratch(2),
        Operand::Scratch(3),
        Operand::Scratch(4),
        Operand::Scratch(5),
        Operand::Scratch(6),
        Operand::Scratch(7),
        Operand::Scratch(8),
        Operand::Scratch(9),
        Operand::KCache(slot),
        Operand::VCache(slot),
    ]
}

#[verifier::spinoff_prover]
#[verifier::rlimit(40)]
proof fn lemma_attention_half(d: DecodeShape, li: int, l: LayerFusedInput, slot: usize, s: Store)
    requires
        agrees(d, l),
        li >= 0,
    ensures
        ({
            let r = run_all(s, attention_half(d, li, l, slot));
            let h = s[hidden_in(li)];
            let p = place_of(d, li);
            &&& r[Operand::Scratch(2)] == after_attention(
                h,
                l,
                p,
                s[Operand::KCache(slot)],
                s[Operand::VCache(slot)],
            )
            &&& r[Operand::KCache(slot)] == append(
                s[Operand::KCache(slot)],
                turned_key(h, l, p),
                p.past,
            )
            &&& r[Operand::VCache(slot)] == append(
                s[Operand::VCache(slot)],
                value(h, li, l, p.width, p.eps),
                p.past,
            )
            &&& others_stay(s, r, worked_in(slot))
        }),
{
    reveal(query);
    reveal(key);
    reveal(value);
    reveal(turned_query);
    reveal(turned_key);
    reveal(after_attention);
    let barrier = seq![StepView::Barrier];
    let a0 = if li > 0 {
        barrier
    } else {
        Seq::empty()
    };
    let a1 = qkv_steps(d, li);
    let a2 = if d.has_qkv_bias {
        bias_steps(d, li, l) + barrier
    } else {
        Seq::empty()
    };
    let a3 = attention_steps(d, li, slot, l.attn_scale);
    let gain = if l.post_attn_norm is Some {
        Some(LayerTensor::PostAttnNorm)
    } else {
        None
    };
    let cached = by_quant(d.quant, Kernel::Q4ResMb64, Kernel::Q8ResMb64);
    let rows = l.o_proj.shape@[0] as u32;
    let a4 = project_steps(
        d,
        li,
        Operand::Scratch(6),
        LayerTensor::OProj,
        gain,
        hidden_in(li),
        Operand::Scratch(2),
        rows,
        d.blk_qd(),
        d.blk_qd() > 64,
        cached,
    );
    lemma_run_sum(s, a0, a1);
    lemma_run_sum(s, a0 + a1, barrier);
    lemma_run_sum(s, a0 + a1 + barrier, a2);
    lemma_run_sum(s, a0 + a1 + barrier + a2, a3);
    lemma_run_sum(s, a0 + a1 + barrier + a2 + a3, barrier);
    lemma_run_sum(s, a0 + a1 + barrier + a2 + a3 + barrier, a4);
    lemma_run_sum(s, a0 + a1 + barrier + a2 + a3 + barrier + a4, barrier);
    lemma_barrier(s);
    let s1 = run_all(s, a1);
    lemma_qkv(d, li, l, s);
    lemma_barrier(s1);
    let s2 = run_all(s1, a2);
    lemma_run_sum(s1, bias_steps(d, li, l), barrier);
    lemma_biases(d, li, l, s1);
    lemma_barrier(run_all(s1, bias_steps(d, li, l)));
    let s3 = run_all(s2, a3);
    lemma_attention(d, li, l, slot, s2);
    lemma_barrier(s3);
    let s4 = run_all(s3, a4);
    lemma_project(
        d,
        li,
        l,
        Operand::Scratch(6),
        LayerTensor::OProj,
        gain,
        hidden_in(li),
        Operand::Scratch(2),
        rows,
        d.blk_qd(),
        d.blk_qd() > 64,
        cached,
        s3,
    );
    lemma_barrier(s4);
    assert(0 <= l.num_heads * l.head_dim) by (nonlinear_arith);
    assert(32 * d.blk_qd() == l.num_heads * l.head_dim);
    let h = s[hidden_in(li)];
    assert(s2[Operand::Scratch(3)] == query(h, li, l, d.k_dim as int, d.eps));
    assert(s2[Operand::Scratch(4)] == key(h, li, l, d.k_dim as int, d.eps));
    assert(s2[Operand::Scratch(5)] == value(h, li, l, d.k_dim as int, d.eps));
    assert(s3[hidden_in(li)] == h);
}

#[verifier::spinoff_prover]
#[verifier::rlimit(40)]
proof fn lemma_ffn_half(d: DecodeShape, li: int, l: LayerFusedInput, slot: usize, s: Store)
    requires
        agrees(d, l),
    ensures
        ({
            let r = run_all(s, ffn_half(d, li, l));
            &&& r[hidden_out(li)] == after_feed_forward(
                s[Operand::Scratch(2)],
                l,
                place_of(d, li),
            )
            &&& others_stay(
                s,
                r,
                set![Operand::Scratch(3), Operand::Scratch(7), hidden_out(li)],
            )
        }),
{
    reveal(after_feed_forward);
    let a0 = seq![gus_step(d, li, l.gate_proj.shape@[0] as u32), StepView::Barrier];
    let gain = if l.post_ffw_norm is Some {
        Some(LayerTensor::PostFfwNorm)
    } else {
        None
    };
    let cached = by_quant(d.quant, Kernel::Q4ResMb96, Kernel::Q8ResMb96);
    let rows = l.down_proj.shape@[0] as u32;
    let a1 = project_steps(
        d,
        li,
        Operand::Scratch(7),
        LayerTensor::DownProj,
        gain,
        Operand::Scratch(2),
        hidden_out(li),
        rows,
        d.blk_inter(),
        d.blk_inter() > 96,
        cached,
    );
    let a2 = scale_steps(d, li, l.layer_output_scale);
    lemma_run_sum(s, a0, a1);
    lemma_run_sum(s, a0 + a1, a2);
    let s1 = run_all(s, a0);
    lemma_gus(d, li, l, s);
    let s2 = run_all(s1, a1);
    lemma_project(
        d,
        li,
        l,
        Operand::Scratch(7),
        LayerTensor::DownProj,
        gain,
        Operand::Scratch(2),
        hidden_out(li),
        rows,
        d.blk_inter(),
        d.blk_inter() > 96,
        cached,
        s1,
    );
    lemma_scale(d, li, l.layer_output_scale, s2);
    assert(32 * d.blk_inter() == l.gate_proj.shape@[0]);
}

/// Where the hidden state stands after `n` layers: before the first it is the
/// input, and after that two buffers take turns.
pub open spec fn standing(n: int) -> Operand {
    if n == 0 {
        Operand::Input(0)
    } else {
        Operand::Scratch((n % 2) as usize)
    }
}

/// The hidden state after `n` layers, each with caches of its own.
pub open spec fn hidden_after(
    layers: Seq<LayerFusedInput>,
    slots: spec_fn(int) -> usize,
    past: int,
    eps: u32,
    s: Store,
    n: int,
) -> Value
    decreases n,
{
    if n <= 0 {
        s[Operand::Input(0)]
    } else {
        let h = hidden_after(layers, slots, past, eps, s, n - 1);
        let l = layers[n - 1];
        let p = place_in(layers, past, eps, n - 1);
        after_feed_forward(
            after_attention(
                h,
                l,
                p,
                s[Operand::KCache(slots(n - 1))],
                s[Operand::VCache(slots(n - 1))],
            ),
            l,
            p,
        )
    }
}

/// The place of layer `li` in a token at position `past`.
pub open spec fn place_in(layers: Seq<LayerFusedInput>, past: int, eps: u32, li: int) -> Place {
    Place {
        li,
        past,
        width: layers[0].q_proj.shape@[1] as int,
        eps,
        pairs: layers[0].rope_dim as int / 2,
        head_norms: layers[0].q_norm is Some,
    }
}

/// No two layers have the same caches.
pub open spec fn apart(slots: spec_fn(int) -> usize, n: int) -> bool {
    forall|i: int, j: int| 0 <= i < j < n ==> #[trigger] slots(i) != #[trigger] slots(j)
}

/// What holds after `n` of the layers.
pub open spec fn is_after(
    r: Store,
    layers: Seq<LayerFusedInput>,
    slots: spec_fn(int) -> usize,
    past: int,
    eps: u32,
    s: Store,
    n: int,
) -> bool {
    &&& r[standing(n)] == hidden_after(layers, slots, past, eps, s, n)
    &&& forall|i: int|
        #![trigger slots(i)]
        0 <= i < layers.len() ==> {
            let h = hidden_after(layers, slots, past, eps, s, i);
            let p = place_in(layers, past, eps, i);
            let k = s[Operand::KCache(slots(i))];
            let v = s[Operand::VCache(slots(i))];
            &&& r[Operand::KCache(slots(i))] == if i < n {
                append(k, turned_key(h, layers[i], p), past)
            } else {
                k
            }
            &&& r[Operand::VCache(slots(i))] == if i < n {
                append(v, value(h, i, layers[i], p.width, p.eps), past)
            } else {
                v
            }
        }
}

#[verifier::spinoff_prover]
#[verifier::rlimit(40)]
proof fn lemma_layers(
    layers: Seq<LayerFusedInput>,
    slots: spec_fn(int) -> usize,
    past: usize,
    eps: u32,
    s: Store,
    n: int,
)
    requires
        0 <= n <= layers.len(),
        apart(slots, layers.len() as int),
        forall|i: int|
            0 <= i < layers.len() ==> agrees(shape_of(layers, past, eps), #[trigger] layers[i]),
    ensures
        is_after(
            run_all(s, decode_steps(shape_of(layers, past, eps), layers, slots, n)),
            layers,
            slots,
            past as int,
            eps,
            s,
            n,
        ),
    decreases n,
{
    let d = shape_of(layers, past, eps);
    if n > 0 {
        let li = n - 1;
        let l = layers[li];
        let slot = slots(li);
        lemma_layers(layers, slots, past, eps, s, li);
        let before = decode_steps(d, layers, slots, li);
        let half = attention_half(d, li, l, slot);
        let rest = ffn_half(d, li, l);
        let s0 = run_all(s, before);
        let s1 = run_all(s0, half);
        let s2 = run_all(s1, rest);
        lemma_run_sum(s, before, half);
        lemma_run_sum(s, before + half, rest);
        assert(agrees(d, layers[li]));
        lemma_attention_half(d, li, l, slot, s0);
        lemma_ffn_half(d, li, l, slot, s1);
        assert(hidden_in(li) == standing(li));
        assert(hidden_out(li) == standing(n));
        assert(place_of(d, li) == place_in(layers, past as int, eps, li));
        assert(s0[Operand::KCache(slot)] == s[Operand::KCache(slot)]);
        assert(s0[Operand::VCache(slot)] == s[Operand::VCache(slot)]);
        assert(s2[standing(n)] == hidden_after(layers, slots, past as int, eps, s, n));
        assert forall|i: int| #![trigger slots(i)] 0 <= i < layers.len() implies {
            let h = hidden_after(layers, slots, past as int, eps, s, i);
            let p = place_in(layers, past as int, eps, i);
            let k = s[Operand::KCache(slots(i))];
            let v = s[Operand::VCache(slots(i))];
            &&& s2[Operand::KCache(slots(i))] == if i < n {
                append(k, turned_key(h, layers[i], p), past as int)
            } else {
                k
            }
            &&& s2[Operand::VCache(slots(i))] == if i < n {
                append(v, value(h, i, layers[i], p.width, p.eps), past as int)
            } else {
                v
            }
        } by {
            if i != li {
                if i < li {
                    assert(slots(i) != slots(li));
                } else {
                    assert(slots(li) != slots(i));
                }
                assert(s1[Operand::KCache(slots(i))] == s0[Operand::KCache(slots(i))]);
                assert(s1[Operand::VCache(slots(i))] == s0[Operand::VCache(slots(i))]);
            }
            assert(s2[Operand::KCache(slots(i))] == s1[Operand::KCache(slots(i))]);
            assert(s2[Operand::VCache(slots(i))] == s1[Operand::VCache(slots(i))]);
        }
    } else {
        assert(decode_steps(d, layers, slots, 0) =~= Seq::empty());
    }
}

/// A token at position `past` goes through all layers: each adds to the hidden
/// state the projection of its attention over the positions up to the token,
/// and then that of its gated feed-forward part. The rotated key and the
/// value of the token are appended to the caches of every layer.
pub proof fn a_token_goes_through_all_layers(
    table: Seq<EntryView>,
    layers: Seq<LayerFusedInput>,
    slots: spec_fn(int) -> usize,
    past: usize,
    max_seq: u32,
    eps: u32,
    s: Store,
)
    requires
        decodable(table, layers, past, max_seq),
        shape_of(layers, past, eps).fits(),
        apart(slots, layers.len() as int),
        layers[0].q_proj.shape@[1] <= u32::MAX,
        layers[0].gate_proj.shape@[0] <= u32::MAX,
        (layers[0].num_heads * layers[0].head_dim) % 32 == 0,
        forall|i: int|
            0 <= i < layers.len() ==> (#[trigger] layers[i]).o_proj.shape@[0] <= u32::MAX
                && layers[i].down_proj.shape@[0] <= u32::MAX,
    ensures
        is_after(
            run_all(
                s,
                decode_steps(shape_of(layers, past, eps), layers, slots, layers.len() as int),
            ),
            layers,
            slots,
            past as int,
            eps,
            s,
            layers.len() as int,
        ),
{
    let d = shape_of(layers, past, eps);
    assert forall|i: int| 0 <= i < layers.len() implies agrees(d, #[trigger] layers[i]) by {
        assert(uniform(layers[i], layers[0]));
    }
    lemma_layers(layers, slots, past, eps, s, layers.len() as int);
}

/// The caches of a token are those of the first layer's geometry. A layer has
/// the slot where its number stands among those of the entry, so that layers
/// with numbers of their own have caches of their own.
pub proof fn layers_find_their_caches(
    layers: Seq<LayerFusedInput>,
    known: Seq<usize>,
    max_seq: u32,
    i: int,
    k: int,
)
    requires
        layers.len() > 0,
        known.no_duplicates(),
        known.len() <= usize::MAX,
        forall|j: int| 0 <= j < layers.len() ==> known.contains((#[trigger] layers[j]).layer_idx),
        forall|a: int, b: int|
            0 <= a < b < layers.len() ==> (#[trigger] layers[a]).layer_idx != (
            #[trigger] layers[b]).layer_idx,
    ensures
        apart(slots_in(layers, known), layers.len() as int),
        0 <= i < layers.len() && 0 <= k < known.len() && known[k] == layers[i].layer_idx
            ==> slots_in(layers, known)(i) == k,
        geometry_of(layers, max_seq).num_heads == layers[0].num_heads,
        geometry_of(layers, max_seq).kv_heads == layers[0].kv_heads,
        geometry_of(layers, max_seq).head_dim == layers[0].head_dim,
        geometry_of(layers, max_seq).max_seq == max_seq,
        indices(layers).len() == layers.len(),
        0 <= i < layers.len() ==> indices(layers)[i] == layers[i].layer_idx,
{
    let slots = slots_in(layers, known);
    assert forall|a: int, b: int| 0 <= a < b < layers.len() implies #[trigger] slots(a)
        != #[trigger] slots(b) by {
        let x = choose|x: int| 0 <= x < known.len() && known[x] == layers[a].layer_idx;
        let y = choose|y: int| 0 <= y < known.len() && known[y] == layers[b].layer_idx;
        assert(known.contains(layers[a].layer_idx) && known.contains(layers[b].layer_idx));
        layers_have_slots_of_their_own(known, x, y);
        layers_have_slots_of_their_own(known, y, x);
    }
    if 0 <= i < layers.len() && 0 <= k < known.len() && known[k] == layers[i].layer_idx {
        layers_have_slots_of_their_own(known, k, k);
    }
}

/// The result is left where the hidden state stands after the last layer, and
/// each layer reads what the one before it left.
pub proof fn layers_read_what_was_left(n: int)
    requires
        0 <= n,
    ensures
        hidden_out(n) == standing(n + 1),
        hidden_in(n) == standing(n),
        hidden_in(n + 1) == hidden_out(n),
        hidden_out(n) != hidden_in(n),
{
}

} // verus!
