//! Decode tokens: what every launch of a token is told, in numbers.

use vstd::prelude::*;

use crate::honeycrisp::attention_state::EntryView;
use crate::honeycrisp::decode::{
    attention_half, attention_steps, bias_step, bias_steps, decodable, decode_steps, ffn_half,
    gus_step, project_steps, qkv_steps, scale_steps, shape_of, DecodeShape, LayerFusedInput,
};
use crate::plan::{ceil_div, Kernel, Operand, StepView};

verus! {

/// What the launches of a token are told.
pub struct Token {
    /// The positions before the token.
    pub past: int,
    pub heads: int,
    pub kv_heads: int,
    pub head_dim: int,
    /// Rotated pairs of a head.
    pub pairs: int,
    /// Width of the hidden state; launches are told of it where a word holds it.
    pub hidden: int,
    pub eps: u32,
}

/// `groups` groups of `per` hold `n` items, and one group less does not.
pub open spec fn just_hold(groups: int, per: int, n: int) -> bool {
    &&& n <= groups * per
    &&& groups > 0 ==> (groups - 1) * per < n
}

/// Rows that a threadgroup of a matmul kernel computes: four of each of its
/// sixteen SIMD groups, or one.
pub open spec fn rows_per_group(k: Kernel) -> int {
    match k {
        Kernel::Q8Large4Nrm | Kernel::Q8Large4GusNrm | Kernel::Q8Large4GusNrmGelu
        | Kernel::Q8Large4Res => 64,
        _ => 16,
    }
}

/// The kernel normalises its input first.
pub open spec fn norms_inline(k: Kernel) -> bool {
    match k {
        Kernel::Q4NrmMb32 | Kernel::Q8NrmMb32 | Kernel::Q4NrmMb64 | Kernel::Q8NrmMb64
        | Kernel::Q8Large4Nrm | Kernel::Q4DualNrmMb32 | Kernel::Q8DualNrmMb32
        | Kernel::Q4DualNrmMb64 | Kernel::Q8DualNrmMb64 | Kernel::Q4GusNrmMb32
        | Kernel::Q8GusNrmMb32 | Kernel::Q4GusNrmMb48 | Kernel::Q8GusNrmMb48
        | Kernel::Q4GusNrmMb64 | Kernel::Q8GusNrmMb64 | Kernel::Q8Large4GusNrm
        | Kernel::Q8Large4GusNrmGelu => true,
        _ => false,
    }
}

/// The kernel is the one for rows of so many blocks: the smallest cache that
/// holds them, and none beyond the largest.
pub open spec fn is_for_blocks(k: Kernel, blocks: int) -> bool {
    match k {
        Kernel::Q4NrmMb32 | Kernel::Q8NrmMb32 | Kernel::Q4DualNrmMb32 | Kernel::Q8DualNrmMb32
        | Kernel::Q4GusNrmMb32 | Kernel::Q8GusNrmMb32 => blocks <= 32,
        Kernel::Q4GusNrmMb48 | Kernel::Q8GusNrmMb48 => 33 <= blocks <= 48,
        Kernel::Q4GusNrmMb64 | Kernel::Q8GusNrmMb64 => 49 <= blocks <= 64,
        Kernel::Q4NrmMb64 | Kernel::Q8NrmMb64 | Kernel::Q4DualNrmMb64 | Kernel::Q8DualNrmMb64 => 33
            <= blocks <= 64,
        Kernel::Q8Large4Nrm | Kernel::Q8Large4GusNrm | Kernel::Q8Large4GusNrmGelu => 65 <= blocks,
        Kernel::Q4ResMb64 | Kernel::Q8ResMb64 => blocks <= 64,
        Kernel::Q4ResMb96 | Kernel::Q8ResMb96 => blocks <= 96,
        Kernel::Q4LargeRes | Kernel::Q8Large4Res => 65 <= blocks,
        _ => true,
    }
}

/// The launch is told what it has to be told for this token. Attention sees
/// the positions before the token and the token itself; its key and value go
/// to the place after those before it; the rotary tables are read from the
/// row of the token, of one float per pair. A matmul has just as many
/// threadgroups as its rows need.
pub open spec fn is_told(step: StepView, t: Token) -> bool {
    match step {
        StepView::Barrier => true,
        StepView::Launch { kernel, buffers, params, groups, threads } => {
            &&& groups.z == 1 && threads.y == 1 && threads.z == 1
            &&& kernel !is KvAppendBoth ==> groups.y == 1
            &&& match kernel {
                Kernel::Attn => {
                    &&& params.w0 == 1 + t.past
                    &&& params.w1 == 0
                    &&& groups.x == t.heads
                    &&& threads.x == 32
                },
                Kernel::RopeKvAttn => {
                    &&& params.w0 == 1 + t.past
                    &&& params.w1 == t.past
                    &&& groups.x == t.heads
                    &&& threads.x == 32
                    &&& buffers[3].operand is RopeCos && buffers[4].operand is RopeSin
                    &&& buffers[3].offset == 4 * (t.past * t.pairs)
                    &&& buffers[4].offset == 4 * (t.past * t.pairs)
                },
                Kernel::KvAppendBoth => {
                    &&& params.w0 == t.past
                    &&& groups.x == 1 && groups.y == t.kv_heads
                    &&& threads.x == t.head_dim
                },
                Kernel::GeometryQkNormRope => {
                    &&& params.w0 == t.heads && params.w1 == t.kv_heads
                    &&& params.w2 == t.pairs && params.w3 == t.eps
                    &&& groups.x == t.kv_heads + t.heads
                    &&& threads.x == t.head_dim
                    &&& buffers[4].operand is RopeCos && buffers[5].operand is RopeSin
                    &&& buffers[4].offset == 4 * (t.past * t.pairs)
                    &&& buffers[5].offset == 4 * (t.past * t.pairs)
                },
                Kernel::RmsNorm => {
                    &&& params.w0 == 1 && params.w2 == t.eps
                    &&& t.hidden <= u32::MAX ==> params.w1 == t.hidden
                    &&& groups.x == 1 && threads.x == 256
                },
                Kernel::Add => {
                    &&& params.w1 == params.w0 && params.w2 == params.w0
                    &&& just_hold(groups.x as int, 256, params.w0 as int)
                    &&& threads.x == 256
                },
                Kernel::Scale => {
                    &&& t.hidden <= u32::MAX ==> params.w1 == t.hidden
                    &&& just_hold(groups.x as int, 256, params.w1 as int)
                    &&& threads.x == 256
                },
                _ => {
                    &&& params.w0 == 1
                    &&& is_for_blocks(kernel, params.w2 as int)
                    &&& just_hold(groups.x as int, rows_per_group(kernel), params.w1 as int)
                    &&& threads.x == 512
                    &&& norms_inline(kernel) ==> params.w3 == t.eps && (t.hidden <= u32::MAX ==> 32
                        * params.w2 == t.hidden)
                },
            }
        },
    }
}

/// Every launch is told so.
pub open spec fn all_told(steps: Seq<StepView>, t: Token) -> bool {
    forall|i: int| 0 <= i < steps.len() ==> is_told(#[trigger] steps[i], t)
}

/// The token of this shape.
pub open spec fn token_of(d: DecodeShape) -> Token {
    Token {
        past: d.past as int,
        heads: d.num_heads as int,
        kv_heads: d.kv_heads as int,
        head_dim: d.head_dim as int,
        pairs: d.rope_half as int,
        hidden: d.k_dim as int,
        eps: d.eps,
    }
}

/// The numbers of the token fit in the words of a launch.
pub open spec fn fits_words(d: DecodeShape) -> bool {
    &&& d.fits()
    &&& d.past < u32::MAX
    &&& d.k_dim % 32 == 0
}

pub proof fn lemma_hold(n: nat, per: nat)
    requires
        per > 0,
    ensures
        just_hold(ceil_div(n, per) as int, per as int, n as int),
        ceil_div(n, per) <= n,
{
    let g = (n + per - 1) / per as int;
    vstd::arithmetic::div_mod::lemma_fundamental_div_mod(n + per - 1, per as int);
    vstd::arithmetic::div_mod::lemma_mod_bound(n + per - 1, per as int);
    let r = (n + per - 1) % per as int;
    assert(g * per == per * g) by (nonlinear_arith);
    assert((g - 1) * per == g * per - per) by (nonlinear_arith);
    assert(g >= 0 && g <= n) by (nonlinear_arith)
        requires
            n + per - 1 == per * g + r,
            0 <= r < per,
            per > 0,
    ;
}

proof fn lemma_sum(a: Seq<StepView>, b: Seq<StepView>, t: Token)
    requires
        all_told(a, t),
        all_told(b, t),
    ensures
        all_told(a + b, t),
{
    assert forall|i: int| 0 <= i < (a + b).len() implies is_told(#[trigger] (a + b)[i], t) by {
        if i < a.len() {
            assert((a + b)[i] == a[i]);
        } else {
            assert((a + b)[i] == b[i - a.len()]);
        }
    }
}

#[verifier::spinoff_prover]
#[verifier::rlimit(40)]
proof fn lemma_qkv(d: DecodeShape, li: int)
    requires
        fits_words(d),
    ensures
        all_told(qkv_steps(d, li), token_of(d)),
{
    reveal(qkv_steps);
    lemma_hold(d.q_rows() as nat, 64);
    lemma_hold(d.q_rows() as nat, 16);
    lemma_hold(d.kv_rows() as nat, 64);
    lemma_hold(d.kv_rows() as nat, 16);
}

proof fn lemma_biases(d: DecodeShape, li: int, l: LayerFusedInput)
    ensures
        all_told(bias_steps(d, li, l), token_of(d)),
{
    reveal(bias_steps);
    reveal(bias_step);
    lemma_hold(d.q_rows() as nat, 256);
    lemma_hold(d.kv_rows() as nat, 256);
}

#[verifier::spinoff_prover]
#[verifier::rlimit(40)]
proof fn lemma_attention(d: DecodeShape, li: int, slot: usize, scale: u32)
    requires
        fits_words(d),
    ensures
        all_told(attention_steps(d, li, slot, scale), token_of(d)),
{
    reveal(attention_steps);
    assert(d.past * d.rope_half * 4 == 4 * (d.past * d.rope_half) && d.past * d.rope_half >= 0)
        by (nonlinear_arith);
    assert(d.rope_offset() == 4 * (d.past * d.rope_half));
}

#[verifier::spinoff_prover]
#[verifier::rlimit(40)]
proof fn lemma_project(
    d: DecodeShape,
    li: int,
    x: Operand,
    w: crate::plan::LayerTensor,
    norm: Option<crate::plan::LayerTensor>,
    residual: Operand,
    out: Operand,
    n_rows: u32,
    n_blocks: u32,
    large: bool,
    cached: Kernel,
)
    requires
        fits_words(d),
        cached is Q4ResMb64 || cached is Q8ResMb64 || cached is Q4ResMb96 || cached is Q8ResMb96,
        large ==> n_blocks > 64,
        !large ==> is_for_blocks(cached, n_blocks as int),
    ensures
        all_told(
            project_steps(d, li, x, w, norm, residual, out, n_rows, n_blocks, large, cached),
            token_of(d),
        ),
{
    reveal(project_steps);
    lemma_hold(n_rows as nat, 64);
    lemma_hold(n_rows as nat, 16);
    lemma_hold(d.k_dim as u32 as nat, 256);
    assert(1 * n_rows == n_rows);
}

proof fn lemma_gus(d: DecodeShape, li: int, n_rows: u32)
    requires
        fits_words(d),
    ensures
        all_told(seq![gus_step(d, li, n_rows), StepView::Barrier], token_of(d)),
{
    reveal(gus_step);
    lemma_hold(n_rows as nat, 64);
    lemma_hold(n_rows as nat, 16);
}

proof fn lemma_scale(d: DecodeShape, li: int, scale: u32)
    requires
        fits_words(d),
    ensures
        all_told(scale_steps(d, li, scale), token_of(d)),
{
    reveal(scale_steps);
    lemma_hold(d.k_dim as u32 as nat, 256);
}

#[verifier::spinoff_prover]
#[verifier::rlimit(40)]
proof fn lemma_halves(d: DecodeShape, li: int, l: LayerFusedInput, slot: usize)
    requires
        fits_words(d),
    ensures
        all_told(attention_half(d, li, l, slot), token_of(d)),
        all_told(ffn_half(d, li, l), token_of(d)),
{
    let t = token_of(d);
    let barrier = seq![StepView::Barrier];
    let first = if li > 0 {
        barrier
    } else {
        Seq::empty()
    };
    let biases = if d.has_qkv_bias {
        bias_steps(d, li, l) + barrier
    } else {
        Seq::empty()
    };
    let project = project_steps(
        d,
        li,
        Operand::Scratch(crate::honeycrisp::decode::ATTN),
        crate::plan::LayerTensor::OProj,
        if l.post_attn_norm is Some {
            Some(crate::plan::LayerTensor::PostAttnNorm)
        } else {
            None
        },
        crate::honeycrisp::decode::hidden_in(li),
        Operand::Scratch(crate::honeycrisp::decode::HID2),
        l.o_proj.shape@[0] as u32,
        d.blk_qd(),
        d.blk_qd() > 64,
        crate::honeycrisp::steps::by_quant(d.quant, Kernel::Q4ResMb64, Kernel::Q8ResMb64),
    );
    lemma_qkv(d, li);
    lemma_biases(d, li, l);
    lemma_attention(d, li, slot, l.attn_scale);
    lemma_project(
        d,
        li,
        Operand::Scratch(crate::honeycrisp::decode::ATTN),
        crate::plan::LayerTensor::OProj,
        if l.post_attn_norm is Some {
            Some(crate::plan::LayerTensor::PostAttnNorm)
        } else {
            None
        },
        crate::honeycrisp::decode::hidden_in(li),
        Operand::Scratch(crate::honeycrisp::decode::HID2),
        l.o_proj.shape@[0] as u32,
        d.blk_qd(),
        d.blk_qd() > 64,
        crate::honeycrisp::steps::by_quant(d.quant, Kernel::Q4ResMb64, Kernel::Q8ResMb64),
    );
    lemma_sum(bias_steps(d, li, l), barrier, t);
    let attention = attention_steps(d, li, slot, l.attn_scale);
    lemma_sum(first, qkv_steps(d, li), t);
    lemma_sum(first + qkv_steps(d, li), barrier, t);
    lemma_sum(first + qkv_steps(d, li) + barrier, biases, t);
    lemma_sum(first + qkv_steps(d, li) + barrier + biases, attention, t);
    lemma_sum(first + qkv_steps(d, li) + barrier + biases + attention, barrier, t);
    lemma_sum(first + qkv_steps(d, li) + barrier + biases + attention + barrier, project, t);
    lemma_sum(
        first + qkv_steps(d, li) + barrier + biases + attention + barrier + project,
        barrier,
        t,
    );
    let down = project_steps(
        d,
        li,
        Operand::Scratch(crate::honeycrisp::decode::MID),
        crate::plan::LayerTensor::DownProj,
        if l.post_ffw_norm is Some {
            Some(crate::plan::LayerTensor::PostFfwNorm)
        } else {
            None
        },
        Operand::Scratch(crate::honeycrisp::decode::HID2),
        crate::honeycrisp::decode::hidden_out(li),
        l.down_proj.shape@[0] as u32,
        d.blk_inter(),
        d.blk_inter() > 96,
        crate::honeycrisp::steps::by_quant(d.quant, Kernel::Q4ResMb96, Kernel::Q8ResMb96),
    );
    lemma_project(
        d,
        li,
        Operand::Scratch(crate::honeycrisp::decode::MID),
        crate::plan::LayerTensor::DownProj,
        if l.post_ffw_norm is Some {
            Some(crate::plan::LayerTensor::PostFfwNorm)
        } else {
            None
        },
        Operand::Scratch(crate::honeycrisp::decode::HID2),
        crate::honeycrisp::decode::hidden_out(li),
        l.down_proj.shape@[0] as u32,
        d.blk_inter(),
        d.blk_inter() > 96,
        crate::honeycrisp::steps::by_quant(d.quant, Kernel::Q4ResMb96, Kernel::Q8ResMb96),
    );
    let gus = seq![gus_step(d, li, l.gate_proj.shape@[0] as u32), StepView::Barrier];
    lemma_gus(d, li, l.gate_proj.shape@[0] as u32);
    lemma_scale(d, li, l.layer_output_scale);
    lemma_sum(gus, down, t);
    lemma_sum(gus + down, scale_steps(d, li, l.layer_output_scale), t);
}

proof fn lemma_all(
    d: DecodeShape,
    layers: Seq<LayerFusedInput>,
    slots: spec_fn(int) -> usize,
    n: int,
)
    requires
        fits_words(d),
    ensures
        all_told(decode_steps(d, layers, slots, n), token_of(d)),
    decreases n,
{
    if n > 0 {
        let l = layers[n - 1];
        let before = decode_steps(d, layers, slots, n - 1);
        let half = attention_half(d, n - 1, l, slots(n - 1));
        lemma_all(d, layers, slots, n - 1);
        lemma_halves(d, n - 1, l, slots(n - 1));
        lemma_sum(before, half, token_of(d));
        lemma_sum(before + half, ffn_half(d, n - 1, l), token_of(d));
    }
}

/// Every launch of a token at position `past` of layers that the fused path
/// takes is told the numbers of that position and of the first layer: what
/// attention sees ends with the token, one position after those before it.
pub proof fn launches_are_told_the_position(
    table: Seq<EntryView>,
    layers: Seq<LayerFusedInput>,
    past: usize,
    max_seq: u32,
    eps: u32,
    slots: spec_fn(int) -> usize,
)
    requires
        decodable(table, layers, past, max_seq),
        shape_of(layers, past, eps).fits(),
    ensures
        all_told(
            decode_steps(shape_of(layers, past, eps), layers, slots, layers.len() as int),
            Token {
                past: past as int,
                heads: layers[0].num_heads as int,
                kv_heads: layers[0].kv_heads as int,
                head_dim: layers[0].head_dim as int,
                pairs: layers[0].rope_dim as int / 2,
                hidden: layers[0].q_proj.shape@[1] as int,
                eps,
            },
        ),
{
    lemma_all(shape_of(layers, past, eps), layers, slots, layers.len() as int);
}

} // verus!
