//! Freedom from memory hazards: between two barriers no launch touches a
//! buffer that another launch writes.

use vstd::prelude::*;

use crate::honeycrisp::decode::{
    attention_half, attention_steps, bias_step, bias_steps, decode_steps, ffn_half, gus_step,
    hidden_in, hidden_out, project_steps, qkv_steps, scale_steps, DecodeShape, LayerFusedInput,
    ATTN, HID2, MID,
};
use crate::honeycrisp::fused::{norm_qkv_steps, swiglu_steps};
use crate::honeycrisp::route::{matmul_steps, norm_steps, normed_kernel};
use crate::honeycrisp::steps::{add_step, by_quant, norm_step, Quant};
use crate::plan::{Kernel, LayerTensor, Operand, StepView};
use crate::tensor::TensorDesc;

verus! {

/// Whether the kernel writes the buffer that is bound at index `i`.
pub open spec fn writes_at(kernel: Kernel, i: int) -> bool {
    match kernel {
        Kernel::Scale => i == 0,
        Kernel::Silu | Kernel::KvAppend => i == 1,
        Kernel::Matmul | Kernel::RmsNorm | Kernel::Q4 | Kernel::Q4k | Kernel::Q6k | Kernel::Q8
        | Kernel::Add | Kernel::SiluMul | Kernel::Q4Mb32 | Kernel::Q8Mb32 | Kernel::Q8Large
        | Kernel::Q4Large | Kernel::Q8Mb192 => i == 2,
        Kernel::Rope | Kernel::Q4Gus | Kernel::Q8Gus | Kernel::Q4GusMb32 | Kernel::Q8GusMb32
        | Kernel::Q4Res | Kernel::Q8Res | Kernel::Q4ResMb64 | Kernel::Q8ResMb64
        | Kernel::Q4ResMb96 | Kernel::Q8ResMb96 | Kernel::Q4NrmMb32 | Kernel::Q8NrmMb32
        | Kernel::Q8LargeNrm | Kernel::Q8LargeRes | Kernel::Q8NrmMb64 | Kernel::Q4NrmMb64
        | Kernel::Q4LargeRes | Kernel::Q8Large4Nrm | Kernel::Q8Large2Res | Kernel::Q8Large4Res
        | Kernel::Q8Large8Res | Kernel::Q8Mbx16Res | Kernel::Q8Large4tRes | Kernel::Q8Large8tRes
        | Kernel::Q8Large16tRes | Kernel::Attn => i == 3,
        Kernel::KvAppendBoth => i == 1 || i == 3,
        Kernel::Q4Dual | Kernel::Q8Dual | Kernel::Q4DualMb32 | Kernel::Q8DualMb32 => i == 3 || i
            == 4,
        Kernel::Q4GusNrmMb32 | Kernel::Q8GusNrmMb32 | Kernel::Q8LargeGusNrm | Kernel::Q8GusNrmMb64
        | Kernel::Q8GusNrmMb48 | Kernel::Q8GusNrmMb64R4 | Kernel::Q4GusNrmMb64
        | Kernel::Q4GusNrmMb48 | Kernel::Q8Large4GusNrm | Kernel::Q8Large4GusNrmGelu => i == 4,
        Kernel::Q4DualNrmMb32 | Kernel::Q8DualNrmMb32 | Kernel::Q8DualNrmMb64
        | Kernel::Q4DualNrmMb64 | Kernel::QkRope | Kernel::QkNorm => i == 4 || i == 5,
        Kernel::Q4Qkv | Kernel::Q8Qkv => 4 <= i <= 6,
        Kernel::RopeKvAttn => 5 <= i <= 7,
        Kernel::QkNormRope | Kernel::GeometryQkNormRope => i == 6 || i == 7,
    }
}

/// The launches share a buffer that one of them writes.
pub open spec fn conflict(a: StepView, b: StepView) -> bool {
    match (a, b) {
        (
            StepView::Launch { kernel: ka, buffers: ba, .. },
            StepView::Launch { kernel: kb, buffers: bb, .. },
        ) => exists|i: int, j: int|
            0 <= i < ba.len() && 0 <= j < bb.len() && (#[trigger] ba[i]).operand == (
            #[trigger] bb[j]).operand && (writes_at(ka, i) || writes_at(kb, j)),
        _ => false,
    }
}

/// The step conflicts with none of the earlier launches.
pub open spec fn clear_of(step: StepView, earlier: Seq<StepView>) -> bool {
    forall|k: int| 0 <= k < earlier.len() ==> !conflict(#[trigger] earlier[k], step)
}

/// No launch conflicts with one since the last barrier. `open` holds the
/// launches since the last barrier before the first step.
pub open spec fn hazard_free(steps: Seq<StepView>, open: Seq<StepView>) -> bool
    decreases steps.len(),
{
    if steps.len() == 0 {
        true
    } else if steps[0] is Barrier {
        hazard_free(steps.skip(1), Seq::empty())
    } else {
        clear_of(steps[0], open) && hazard_free(steps.skip(1), open.push(steps[0]))
    }
}

/// The launches since the last barrier after the steps.
pub open spec fn open_after(steps: Seq<StepView>, open: Seq<StepView>) -> Seq<StepView>
    decreases steps.len(),
{
    if steps.len() == 0 {
        open
    } else if steps[0] is Barrier {
        open_after(steps.skip(1), Seq::empty())
    } else {
        open_after(steps.skip(1), open.push(steps[0]))
    }
}

proof fn lemma_append(a: Seq<StepView>, b: Seq<StepView>, open: Seq<StepView>)
    ensures
        hazard_free(a + b, open) == (hazard_free(a, open) && hazard_free(b, open_after(a, open))),
        open_after(a + b, open) == open_after(b, open_after(a, open)),
    decreases a.len(),
{
    if a.len() == 0 {
        assert(a + b =~= b);
    } else {
        assert((a + b).skip(1) =~= a.skip(1) + b);
        if a[0] is Barrier {
            lemma_append(a.skip(1), b, Seq::empty());
        } else {
            lemma_append(a.skip(1), b, open.push(a[0]));
        }
    }
}

proof fn lemma_barrier(open: Seq<StepView>)
    ensures
        hazard_free(seq![StepView::Barrier], open),
        open_after(seq![StepView::Barrier], open) == Seq::<StepView>::empty(),
{
    reveal_with_fuel(hazard_free, 2);
    reveal_with_fuel(open_after, 2);
}

proof fn lemma_one(a: StepView)
    requires
        a is Launch,
    ensures
        hazard_free(seq![a], Seq::empty()),
{
    assert(seq![a].skip(1) =~= Seq::<StepView>::empty());
    assert(hazard_free(seq![a].skip(1), Seq::<StepView>::empty().push(a)));
}

proof fn lemma_two(a: StepView, b: StepView)
    requires
        a is Launch,
        b is Launch,
        !conflict(a, b),
    ensures
        hazard_free(seq![a, b], Seq::empty()),
{
    let s = seq![a, b];
    assert(s.skip(1) =~= seq![b]);
    assert(seq![b].skip(1) =~= Seq::<StepView>::empty());
    let o1 = Seq::<StepView>::empty().push(a);
    assert(hazard_free(seq![b].skip(1), o1.push(b)));
    assert(clear_of(b, o1));
    assert(hazard_free(seq![b], o1));
}

proof fn lemma_three(a: StepView, b: StepView, c: StepView)
    requires
        a is Launch,
        b is Launch,
        c is Launch,
        !conflict(a, b),
        !conflict(a, c),
        !conflict(b, c),
    ensures
        hazard_free(seq![a, b, c], Seq::empty()),
{
    let s = seq![a, b, c];
    let o1 = Seq::<StepView>::empty().push(a);
    let o2 = o1.push(b);
    assert(s.skip(1) =~= seq![b, c]);
    assert(seq![b, c].skip(1) =~= seq![c]);
    assert(seq![c].skip(1) =~= Seq::<StepView>::empty());
    assert(hazard_free(seq![c].skip(1), o2.push(c)));
    assert(clear_of(c, o2));
    assert(hazard_free(seq![c], o2));
    assert(clear_of(b, o1));
    assert(hazard_free(seq![b, c], o1));
}

proof fn lemma_qkv(d: DecodeShape, li: int)
    requires
        li >= 0,
    ensures
        hazard_free(qkv_steps(d, li), Seq::empty()),
{
    reveal(qkv_steps);
    let s = qkv_steps(d, li);
    if d.blk_kd() > 64 {
        assert(!conflict(s[0], s[1]));
        assert(!conflict(s[0], s[2]));
        assert(!conflict(s[1], s[2]));
        lemma_three(s[0], s[1], s[2]);
        assert(s =~= seq![s[0], s[1], s[2]]);
    } else {
        assert(!conflict(s[0], s[1]));
        lemma_two(s[0], s[1]);
        assert(s =~= seq![s[0], s[1]]);
    }
}

proof fn lemma_biases(d: DecodeShape, li: int, l: LayerFusedInput)
    ensures
        hazard_free(bias_steps(d, li, l), Seq::empty()),
{
    reveal(bias_steps);
    reveal(bias_step);
    let s = bias_steps(d, li, l);
    if s.len() == 3 {
        assert(!conflict(s[0], s[1]));
        assert(!conflict(s[0], s[2]));
        assert(!conflict(s[1], s[2]));
        lemma_three(s[0], s[1], s[2]);
        assert(s =~= seq![s[0], s[1], s[2]]);
    } else if s.len() == 2 {
        assert(!conflict(s[0], s[1]));
        lemma_two(s[0], s[1]);
        assert(s =~= seq![s[0], s[1]]);
    } else if s.len() == 1 {
        lemma_one(s[0]);
        assert(s =~= seq![s[0]]);
    }
}

/// Launches that are all separated by barriers.
proof fn lemma_separated(a: StepView, b: StepView, c: StepView)
    requires
        a is Launch,
        b is Launch,
        c is Launch,
    ensures
        hazard_free(seq![a, StepView::Barrier, b, StepView::Barrier, c], Seq::empty()),
{
    let bar = seq![StepView::Barrier];
    let e = Seq::<StepView>::empty();
    lemma_one(a);
    lemma_one(b);
    lemma_one(c);
    let s1 = seq![a] + bar;
    lemma_append(seq![a], bar, e);
    lemma_barrier(open_after(seq![a], e));
    let s2 = s1 + seq![b];
    lemma_append(s1, seq![b], e);
    let s3 = s2 + bar;
    lemma_append(s2, bar, e);
    lemma_barrier(open_after(s2, e));
    lemma_append(s3, seq![c], e);
    assert(s3 + seq![c] =~= seq![a, StepView::Barrier, b, StepView::Barrier, c]);
}

proof fn lemma_attention(d: DecodeShape, li: int, slot: usize, scale: u32)
    ensures
        hazard_free(attention_steps(d, li, slot, scale), Seq::empty()),
{
    reveal(attention_steps);
    let s = attention_steps(d, li, slot, scale);
    if d.has_qk_norm {
        lemma_separated(s[0], s[2], s[4]);
        assert(s =~= seq![s[0], StepView::Barrier, s[2], StepView::Barrier, s[4]]);
    } else {
        lemma_one(s[0]);
        assert(s =~= seq![s[0]]);
    }
}

proof fn lemma_project(
    d: DecodeShape,
    li: int,
    x: Operand,
    w: LayerTensor,
    norm: Option<LayerTensor>,
    residual: Operand,
    out: Operand,
    n_rows: u32,
    n_blocks: u32,
    large: bool,
    cached: Kernel,
)
    ensures
        hazard_free(
            project_steps(d, li, x, w, norm, residual, out, n_rows, n_blocks, large, cached),
            Seq::empty(),
        ),
{
    reveal(project_steps);
    let s = project_steps(d, li, x, w, norm, residual, out, n_rows, n_blocks, large, cached);
    if norm is Some {
        lemma_separated(s[0], s[2], s[4]);
        assert(s =~= seq![s[0], StepView::Barrier, s[2], StepView::Barrier, s[4]]);
    } else {
        lemma_one(s[0]);
        assert(s =~= seq![s[0]]);
    }
}

proof fn lemma_scale(d: DecodeShape, li: int, scale: u32, open: Seq<StepView>)
    ensures
        hazard_free(scale_steps(d, li, scale), open),
{
    reveal(scale_steps);
    let s = scale_steps(d, li, scale);
    if s.len() == 2 {
        lemma_barrier(open);
        lemma_one(s[1]);
        lemma_append(seq![StepView::Barrier], seq![s[1]], open);
        assert(s =~= seq![StepView::Barrier] + seq![s[1]]);
    }
}

proof fn lemma_attention_half(d: DecodeShape, li: int, l: LayerFusedInput, slot: usize, open: Seq<
    StepView,
>)
    requires
        li >= 0,
        li == 0 ==> open.len() == 0,
    ensures
        hazard_free(attention_half(d, li, l, slot), open),
        open_after(attention_half(d, li, l, slot), open) == Seq::<StepView>::empty(),
{
    let e = Seq::<StepView>::empty();
    let bar = seq![StepView::Barrier];
    let s1 = (if li > 0 {
        bar
    } else {
        e
    });
    lemma_barrier(open);
    assert(open_after(s1, open) =~= e);
    let s2 = s1 + qkv_steps(d, li);
    lemma_append(s1, qkv_steps(d, li), open);
    lemma_qkv(d, li);
    let s3 = s2 + bar;
    lemma_append(s2, bar, open);
    lemma_barrier(open_after(s2, open));
    let bias = (if d.has_qkv_bias {
        bias_steps(d, li, l) + bar
    } else {
        e
    });
    lemma_biases(d, li, l);
    lemma_append(bias_steps(d, li, l), bar, e);
    lemma_barrier(open_after(bias_steps(d, li, l), e));
    assert(hazard_free(bias, e) && open_after(bias, e) == e);
    let s4 = s3 + bias;
    lemma_append(s3, bias, open);
    let attention = attention_steps(d, li, slot, l.attn_scale);
    let s5 = s4 + attention;
    lemma_append(s4, attention, open);
    lemma_attention(d, li, slot, l.attn_scale);
    let s6 = s5 + bar;
    lemma_append(s5, bar, open);
    lemma_barrier(open_after(s5, open));
    let norm = if l.post_attn_norm is Some {
        Some(LayerTensor::PostAttnNorm)
    } else {
        None
    };
    let cached = by_quant(d.quant, Kernel::Q4ResMb64, Kernel::Q8ResMb64);
    let x = Operand::Scratch(ATTN);
    let out = Operand::Scratch(HID2);
    let n_rows = l.o_proj.shape@[0] as u32;
    let large = d.blk_qd() > 64;
    let w = LayerTensor::OProj;
    lemma_project(d, li, x, w, norm, hidden_in(li), out, n_rows, d.blk_qd(), large, cached);
    let project = project_steps(
        d,
        li,
        x,
        w,
        norm,
        hidden_in(li),
        out,
        n_rows,
        d.blk_qd(),
        large,
        cached,
    );
    let s7 = s6 + project;
    lemma_append(s6, project, open);
    lemma_append(s7, bar, open);
    lemma_barrier(open_after(s7, open));
}

proof fn lemma_ffn_half(d: DecodeShape, li: int, l: LayerFusedInput)
    ensures
        hazard_free(ffn_half(d, li, l), Seq::empty()),
{
    let e = Seq::<StepView>::empty();
    let bar = seq![StepView::Barrier];
    let gus = gus_step(d, li, l.gate_proj.shape@[0] as u32);
    reveal(gus_step);
    lemma_one(gus);
    let s1 = seq![gus] + bar;
    lemma_append(seq![gus], bar, e);
    lemma_barrier(open_after(seq![gus], e));
    assert(s1 =~= seq![gus, StepView::Barrier]);
    let norm = if l.post_ffw_norm is Some {
        Some(LayerTensor::PostFfwNorm)
    } else {
        None
    };
    let cached = by_quant(d.quant, Kernel::Q4ResMb96, Kernel::Q8ResMb96);
    let x = Operand::Scratch(MID);
    let residual = Operand::Scratch(HID2);
    let n_rows = l.down_proj.shape@[0] as u32;
    let large = d.blk_inter() > 96;
    let w = LayerTensor::DownProj;
    let out = hidden_out(li);
    lemma_project(d, li, x, w, norm, residual, out, n_rows, d.blk_inter(), large, cached);
    let project = project_steps(
        d,
        li,
        x,
        w,
        norm,
        residual,
        out,
        n_rows,
        d.blk_inter(),
        large,
        cached,
    );
    let s2 = s1 + project;
    lemma_append(s1, project, e);
    let scale = scale_steps(d, li, l.layer_output_scale);
    lemma_append(s2, scale, e);
    lemma_scale(d, li, l.layer_output_scale, open_after(s2, e));
}

/// In the command buffer of a decode token no launch reads or overwrites what
/// a launch since the last barrier wrote, nor overwrites what one reads.
pub proof fn decode_is_hazard_free(
    d: DecodeShape,
    layers: Seq<LayerFusedInput>,
    slots: spec_fn(int) -> usize,
    n: int,
)
    requires
        0 <= n <= layers.len(),
    ensures
        hazard_free(decode_steps(d, layers, slots, n), Seq::empty()),
    decreases n,
{
    if n > 0 {
        let e = Seq::<StepView>::empty();
        let before = decode_steps(d, layers, slots, n - 1);
        let attention = attention_half(d, n - 1, layers[n - 1], slots(n - 1));
        let ffn = ffn_half(d, n - 1, layers[n - 1]);
        decode_is_hazard_free(d, layers, slots, n - 1);
        lemma_append(before, attention, e);
        lemma_attention_half(d, n - 1, layers[n - 1], slots(n - 1), open_after(before, e));
        lemma_append(before + attention, ffn, e);
        lemma_ffn_half(d, n - 1, layers[n - 1]);
    }
}

/// A group of launches after a barrier, with a barrier before it.
proof fn lemma_joined(before: Seq<StepView>, group: Seq<StepView>)
    requires
        hazard_free(before, Seq::empty()),
        hazard_free(group, Seq::empty()),
    ensures
        hazard_free(before + seq![StepView::Barrier] + group, Seq::empty()),
{
    let e = Seq::<StepView>::empty();
    let bar = seq![StepView::Barrier];
    lemma_append(before, bar, e);
    lemma_barrier(open_after(before, e));
    lemma_append(before + bar, group, e);
}

/// In the command buffer from the hidden state to the normalised heads no
/// launch touches what another since the last barrier writes.
pub proof fn norm_qkv_is_hazard_free(
    quant: Quant,
    b: u32,
    d: u32,
    q_n: u32,
    k_n: u32,
    v_n: u32,
    eps: u32,
    q_heads: usize,
    k_heads: usize,
    head_dim: usize,
)
    ensures
        hazard_free(
            norm_qkv_steps(quant, b, d, q_n, k_n, v_n, eps, q_heads, k_heads, head_dim),
            Seq::empty(),
        ),
{
    let s = norm_qkv_steps(quant, b, d, q_n, k_n, v_n, eps, q_heads, k_heads, head_dim);
    lemma_one(s[0]);
    assert(!conflict(s[2], s[3]));
    assert(!conflict(s[2], s[4]));
    assert(!conflict(s[3], s[4]));
    lemma_three(s[2], s[3], s[4]);
    assert(!conflict(s[6], s[7]));
    lemma_two(s[6], s[7]);
    let first = seq![s[0]];
    let second = seq![s[2], s[3], s[4]];
    lemma_joined(first, second);
    lemma_joined(first + seq![StepView::Barrier] + second, seq![s[6], s[7]]);
    assert(s =~= first + seq![StepView::Barrier] + second + seq![StepView::Barrier] + seq![
        s[6],
        s[7],
    ]);
}

/// In the command buffer of the gated feed-forward part no launch touches
/// what another since the last barrier writes.
pub proof fn swiglu_is_hazard_free(
    q: Quant,
    b: u32,
    d: u32,
    inter: u32,
    down_n: u32,
    eps: u32,
    out: Operand,
)
    ensures
        hazard_free(swiglu_steps(q, b, d, inter, down_n, eps, out), Seq::empty()),
{
    let s = swiglu_steps(q, b, d, inter, down_n, eps, out);
    let bar = seq![StepView::Barrier];
    lemma_one(s[0]);
    assert(!conflict(s[2], s[3]));
    lemma_two(s[2], s[3]);
    lemma_one(s[5]);
    lemma_one(s[7]);
    let first = seq![s[0]];
    let second = first + bar + seq![s[2], s[3]];
    lemma_joined(first, seq![s[2], s[3]]);
    let third = second + bar + seq![s[5]];
    lemma_joined(second, seq![s[5]]);
    lemma_joined(third, seq![s[7]]);
    assert(s =~= third + bar + seq![s[7]]);
}

/// In the command buffer of the feed-forward part with its residual sum no
/// launch touches what another since the last barrier writes.
pub proof fn ffn_residual_is_hazard_free(q: Quant, d: u32, inter: u32, down_n: u32, eps: u32)
    ensures
        hazard_free(
            swiglu_steps(q, 1, d, inter, down_n, eps, Operand::Scratch(4)).push(
                StepView::Barrier,
            ).push(
                add_step(
                    Operand::Input(0),
                    Operand::Scratch(4),
                    Operand::Output(0),
                    down_n,
                    64,
                ),
            ),
            Seq::empty(),
        ),
{
    let s = swiglu_steps(q, 1, d, inter, down_n, eps, Operand::Scratch(4));
    let sum = add_step(Operand::Input(0), Operand::Scratch(4), Operand::Output(0), down_n, 64);
    swiglu_is_hazard_free(q, 1, d, inter, down_n, eps, Operand::Scratch(4));
    lemma_one(sum);
    lemma_joined(s, seq![sum]);
    assert(s.push(StepView::Barrier).push(sum) =~= s + seq![StepView::Barrier] + seq![sum]);
}

/// Launches without a barrier between them that do not conflict.
proof fn lemma_independent(s: Seq<StepView>, open: Seq<StepView>)
    requires
        forall|i: int| 0 <= i < s.len() ==> (#[trigger] s[i]) is Launch,
        forall|i: int, j: int|
            0 <= i < j < s.len() ==> !conflict(#[trigger] s[i], #[trigger] s[j]),
        forall|k: int, j: int|
            0 <= k < open.len() && 0 <= j < s.len() ==> !conflict(
                #[trigger] open[k],
                #[trigger] s[j],
            ),
    ensures
        hazard_free(s, open),
    decreases s.len(),
{
    if s.len() > 0 {
        let rest = s.skip(1);
        let more = open.push(s[0]);
        assert forall|i: int, j: int| 0 <= i < j < rest.len() implies !conflict(
            #[trigger] rest[i],
            #[trigger] rest[j],
        ) by {
            assert(rest[i] == s[i + 1] && rest[j] == s[j + 1]);
        }
        assert forall|k: int, j: int|
            0 <= k < more.len() && 0 <= j < rest.len() implies !conflict(
            #[trigger] more[k],
            #[trigger] rest[j],
        ) by {
            assert(rest[j] == s[j + 1]);
            if k < open.len() {
                assert(more[k] == open[k]);
            } else {
                assert(more[k] == s[0]);
            }
        }
        lemma_independent(rest, more);
        assert(clear_of(s[0], open));
    }
}

/// Products of one input with several weights can run side by side: each
/// writes an output of its own.
pub proof fn products_are_independent(
    kernel: Kernel,
    x: Operand,
    first: int,
    b: u32,
    ws: Seq<TensorDesc>,
    blocks: u32,
)
    requires
        0 <= first,
        first + ws.len() <= usize::MAX,
        x is Input || x is Scratch,
        forall|i: int| #[trigger] writes_at(kernel, i) == (i == 2),
    ensures
        hazard_free(matmul_steps(kernel, x, first, b, ws, blocks), Seq::empty()),
{
    let s = matmul_steps(kernel, x, first, b, ws, blocks);
    assert forall|i: int, j: int| 0 <= i < j < s.len() implies !conflict(
        #[trigger] s[i],
        #[trigger] s[j],
    ) by {}
    lemma_independent(s, Seq::empty());
}

/// Normalisations of several inputs can run side by side.
pub proof fn norms_are_independent(pairs: Seq<(TensorDesc, TensorDesc)>, eps: u32)
    requires
        2 * pairs.len() <= usize::MAX,
    ensures
        hazard_free(norm_steps(pairs, eps), Seq::empty()),
{
    let s = norm_steps(pairs, eps);
    assert forall|i: int, j: int| 0 <= i < j < s.len() implies !conflict(
        #[trigger] s[i],
        #[trigger] s[j],
    ) by {}
    lemma_independent(s, Seq::empty());
}

/// A normalisation and the products of its result run without a hazard.
pub proof fn normed_products_are_hazard_free(
    quant: Quant,
    b: u32,
    d: u32,
    eps: u32,
    ws: Seq<TensorDesc>,
    blocks: u32,
)
    requires
        2 + ws.len() <= usize::MAX,
    ensures
        hazard_free(
            seq![
                norm_step(Operand::Input(0), Operand::Input(1), Operand::Scratch(0), b, d, eps),
                StepView::Barrier,
            ] + matmul_steps(
                normed_kernel(quant, blocks),
                Operand::Scratch(0),
                2,
                b,
                ws,
                blocks,
            ),
            Seq::empty(),
        ),
{
    let norm = norm_step(Operand::Input(0), Operand::Input(1), Operand::Scratch(0), b, d, eps);
    let kernel = normed_kernel(quant, blocks);
    let products = matmul_steps(kernel, Operand::Scratch(0), 2, b, ws, blocks);
    assert forall|i: int| #[trigger] writes_at(kernel, i) == (i == 2) by {}
    products_are_independent(kernel, Operand::Scratch(0), 2, b, ws, blocks);
    lemma_one(norm);
    lemma_joined(seq![norm], products);
    assert(seq![norm, StepView::Barrier] + products =~= seq![norm] + seq![StepView::Barrier]
        + products);
}

} // verus!
