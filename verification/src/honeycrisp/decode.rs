//! One decode token through all layers in a single command buffer.

use vstd::prelude::*;

use crate::honeycrisp::attention_state::{
    first_of, has_slots, is_change, slot_of, AttnChange, AttnTable, EntryView, Geometry,
};
use crate::honeycrisp::steps::{
    add_step, attn_step, by_quant, matmul_step, norm_step, pick, push_add, push_attn, push_matmul,
    push_norm, quant, quant_of, Quant, BLOCK, GROUP_THREADS, SIMDS,
};
use crate::laws::decode::{all_told, is_told, launches_are_told_the_position, Token};
use crate::kernels::cache::{cache_of, within_cache, within_caches};
use crate::plan::{
    along_x, at, bind, ceil_div, groups_of, row, Binding, Extent, Kernel, LayerTensor, Operand,
    Params, Program, StepView,
};
use crate::tensor::{copy_shape, DType, TensorDesc};

verus! {

/// One decoder layer as the fused decode path sees it. Fields that hold a
/// single-precision float hold its bit pattern.
#[derive(Debug, PartialEq, Eq)]
pub struct LayerFusedInput {
    pub layer_idx: usize,
    pub num_heads: u32,
    pub kv_heads: u32,
    pub head_dim: u32,
    pub rope_dim: u32,
    pub rope_theta: u32,
    pub attn_scale: u32,
    pub layer_output_scale: u32,
    pub use_gelu_tanh: bool,
    pub input_norm: TensorDesc,
    pub q_proj: TensorDesc,
    pub k_proj: TensorDesc,
    pub v_proj: TensorDesc,
    pub q_bias: Option<TensorDesc>,
    pub k_bias: Option<TensorDesc>,
    pub v_bias: Option<TensorDesc>,
    pub q_norm: Option<TensorDesc>,
    pub k_norm: Option<TensorDesc>,
    pub o_proj: TensorDesc,
    pub post_norm: TensorDesc,
    pub post_attn_norm: Option<TensorDesc>,
    pub post_ffw_norm: Option<TensorDesc>,
    pub gate_proj: TensorDesc,
    pub up_proj: TensorDesc,
    pub down_proj: TensorDesc,
}

/// The bit pattern of the float one.
pub const ONE_BITS: u32 = 0x3F80_0000;

/// Places of the scratch buffers of the plan.
pub const HID_A: usize = 0;

pub const HID_B: usize = 1;

pub const HID2: usize = 2;

pub const Q_RAW: usize = 3;

pub const K_RAW: usize = 4;

pub const V_RAW: usize = 5;

pub const ATTN: usize = 6;

pub const MID: usize = 7;

/// Rotated q and k, used only where heads are normalised.
pub const QR: usize = 8;

pub const KR: usize = 9;

/// What the steps of a layer have in common across layers.
#[derive(Clone, Copy, Debug, PartialEq, Eq, Structural)]
pub struct DecodeShape {
    pub quant: Quant,
    /// Width of the hidden state.
    pub k_dim: usize,
    pub inter_size: usize,
    pub num_heads: u32,
    pub kv_heads: u32,
    pub head_dim: u32,
    pub rope_half: u32,
    pub has_qk_norm: bool,
    pub has_qkv_bias: bool,
    pub use_gelu_tanh: bool,
    pub past: usize,
    pub eps: u32,
}

/// The command buffer of a decode token.
#[derive(Debug, PartialEq, Eq)]
pub struct DecodePlan {
    /// Sizes in bytes of the scratch buffers.
    pub scratch: Vec<usize>,
    pub program: Program,
    /// The entry of the attention table whose caches and kernels are used.
    pub entry: usize,
    /// The scratch buffer that holds the result; the others are recycled.
    pub result: usize,
    /// Shape of the result.
    pub shape: Vec<usize>,
}

impl DecodeShape {
    pub open spec fn q_rows(self) -> u32 {
        (self.num_heads * self.head_dim) as u32
    }

    pub open spec fn kv_rows(self) -> u32 {
        (self.kv_heads * self.head_dim) as u32
    }

    /// Blocks of the hidden width.
    pub open spec fn blk_kd(self) -> u32 {
        (self.k_dim / BLOCK) as u32
    }

    /// Blocks of the query width.
    pub open spec fn blk_qd(self) -> u32 {
        (self.q_rows() / BLOCK as u32) as u32
    }

    /// Blocks of the feed-forward width.
    pub open spec fn blk_inter(self) -> u32 {
        (self.inter_size / BLOCK) as u32
    }

    /// Byte offset of the current position in the rotary tables.
    pub open spec fn rope_offset(self) -> usize {
        (self.past * self.rope_half * 4) as usize
    }

    pub open spec fn position(self) -> u32 {
        self.past as u32
    }

    pub open spec fn total_seq(self) -> u32 {
        (self.past + 1) as u32
    }

    /// Sums and products of the sizes stay in the ranges of the machine types.
    pub open spec fn fits(self) -> bool {
        &&& self.num_heads * self.head_dim <= u32::MAX
        &&& self.kv_heads * self.head_dim <= u32::MAX
        &&& self.num_heads + self.kv_heads <= u32::MAX
        &&& self.num_heads * self.head_dim * 4 <= usize::MAX
        &&& self.kv_heads * self.head_dim * 4 <= usize::MAX
        &&& self.k_dim * 4 <= usize::MAX
        &&& self.inter_size * 4 <= usize::MAX
        &&& self.past < usize::MAX
        &&& self.past * self.rope_half <= usize::MAX
        &&& self.past * self.rope_half * 4 <= usize::MAX
    }
}

/// The hidden state that layer `li` reads.
pub open spec fn hidden_in(li: int) -> Operand {
    if li == 0 {
        Operand::Input(0)
    } else if li % 2 == 1 {
        Operand::Scratch(HID_B)
    } else {
        Operand::Scratch(HID_A)
    }
}

/// The hidden state that layer `li` writes.
pub open spec fn hidden_out(li: int) -> Operand {
    if li % 2 == 0 {
        Operand::Scratch(HID_B)
    } else {
        Operand::Scratch(HID_A)
    }
}

/// A launch with inline normalisation, by hidden width: without a threadgroup
/// cache and four rows per SIMD group above 64 blocks, with a cache of 64
/// blocks above 32, with one of 32 below.
pub open spec fn by_width(d: DecodeShape, large: Kernel, mb64: Kernel, mb32: Kernel) -> Kernel {
    if d.blk_kd() > 64 {
        large
    } else if d.blk_kd() > 32 {
        mb64
    } else {
        mb32
    }
}

/// Rows of a threadgroup of the launches of [`by_width`].
pub open spec fn rows_by_width(d: DecodeShape) -> u32 {
    if d.blk_kd() > 64 {
        64
    } else {
        16
    }
}

pub open spec fn tensor(li: int, t: LayerTensor) -> Binding {
    at(Operand::Layer(li as usize, t))
}

/// Normalisation and one projection.
pub open spec fn nrm_step(
    d: DecodeShape,
    kernel: Kernel,
    rows_per_group: u32,
    li: int,
    w: LayerTensor,
    out: Operand,
    n_rows: u32,
) -> StepView {
    StepView::Launch {
        kernel,
        buffers: seq![
            at(hidden_in(li)),
            tensor(li, LayerTensor::InputNorm),
            tensor(li, w),
            at(out),
        ],
        params: Params { w0: 1, w1: n_rows, w2: d.blk_kd(), w3: d.eps },
        groups: along_x(ceil_div(n_rows as nat, rows_per_group as nat)),
        threads: along_x(GROUP_THREADS as nat),
    }
}

/// Normalisation and the K and V projections in one launch.
pub open spec fn dual_step(d: DecodeShape, li: int) -> StepView {
    StepView::Launch {
        kernel: by_width(
            d,
            Kernel::Q8Large4Nrm,
            by_quant(d.quant, Kernel::Q4DualNrmMb64, Kernel::Q8DualNrmMb64),
            by_quant(d.quant, Kernel::Q4DualNrmMb32, Kernel::Q8DualNrmMb32),
        ),
        buffers: seq![
            at(hidden_in(li)),
            tensor(li, LayerTensor::InputNorm),
            tensor(li, LayerTensor::KProj),
            tensor(li, LayerTensor::VProj),
            at(Operand::Scratch(K_RAW)),
            at(Operand::Scratch(V_RAW)),
        ],
        params: Params { w0: 1, w1: d.kv_rows(), w2: d.blk_kd(), w3: d.eps },
        groups: along_x(ceil_div(d.kv_rows() as nat, SIMDS as nat)),
        threads: along_x(GROUP_THREADS as nat),
    }
}

/// The q, k and v projections.
#[verifier::opaque]
pub open spec fn qkv_steps(d: DecodeShape, li: int) -> Seq<StepView> {
    let q = nrm_step(
        d,
        by_width(
            d,
            Kernel::Q8Large4Nrm,
            by_quant(d.quant, Kernel::Q4NrmMb64, Kernel::Q8NrmMb64),
            by_quant(d.quant, Kernel::Q4NrmMb32, Kernel::Q8NrmMb32),
        ),
        rows_by_width(d),
        li,
        LayerTensor::QProj,
        Operand::Scratch(Q_RAW),
        d.q_rows(),
    );
    if d.blk_kd() > 64 {
        seq![
            q,
            nrm_step(
                d,
                Kernel::Q8Large4Nrm,
                64,
                li,
                LayerTensor::KProj,
                Operand::Scratch(K_RAW),
                d.kv_rows(),
            ),
            nrm_step(
                d,
                Kernel::Q8Large4Nrm,
                64,
                li,
                LayerTensor::VProj,
                Operand::Scratch(V_RAW),
                d.kv_rows(),
            ),
        ]
    } else {
        seq![q, dual_step(d, li)]
    }
}

/// The bias is there and bound.
pub open spec fn bound(t: Option<TensorDesc>) -> bool {
    t is Some && t->0.on_gpu
}

/// An in-place bias sum, where the layer has that bias.
#[verifier::opaque]
pub open spec fn bias_step(present: bool, buf: Operand, li: int, b: LayerTensor, n: u32) -> Seq<
    StepView,
> {
    if present {
        seq![add_step(buf, Operand::Layer(li as usize, b), buf, n, 256)]
    } else {
        Seq::empty()
    }
}

/// The bias sums of a layer.
#[verifier::opaque]
pub open spec fn bias_steps(d: DecodeShape, li: int, l: LayerFusedInput) -> Seq<StepView> {
    bias_step(bound(l.q_bias), Operand::Scratch(Q_RAW), li, LayerTensor::QBias, d.q_rows()) + bias_step(
        bound(l.k_bias),
        Operand::Scratch(K_RAW),
        li,
        LayerTensor::KBias,
        d.kv_rows(),
    ) + bias_step(bound(l.v_bias), Operand::Scratch(V_RAW), li, LayerTensor::VBias, d.kv_rows())
}

/// Head normalisation and rotation of q and k.
pub open spec fn qk_norm_rope_step(d: DecodeShape, li: int) -> StepView {
    StepView::Launch {
        kernel: Kernel::GeometryQkNormRope,
        buffers: seq![
            at(Operand::Scratch(Q_RAW)),
            at(Operand::Scratch(K_RAW)),
            tensor(li, LayerTensor::QNorm),
            tensor(li, LayerTensor::KNorm),
            Binding { operand: Operand::RopeCos, offset: d.rope_offset() },
            Binding { operand: Operand::RopeSin, offset: d.rope_offset() },
            at(Operand::Scratch(QR)),
            at(Operand::Scratch(KR)),
        ],
        params: Params { w0: d.num_heads, w1: d.kv_heads, w2: d.rope_half, w3: d.eps },
        groups: along_x((d.num_heads + d.kv_heads) as nat),
        threads: along_x(d.head_dim as nat),
    }
}

/// Appends K and V to the caches in `slot`.
pub open spec fn kv_both_step(d: DecodeShape, slot: usize) -> StepView {
    StepView::Launch {
        kernel: Kernel::KvAppendBoth,
        buffers: seq![
            at(Operand::Scratch(KR)),
            at(Operand::KCache(slot)),
            at(Operand::Scratch(V_RAW)),
            at(Operand::VCache(slot)),
        ],
        params: Params { w0: d.position(), w1: 0, w2: 0, w3: 0 },
        groups: (Extent { x: 1, y: d.kv_heads as usize, z: 1 }),
        threads: along_x(d.head_dim as nat),
    }
}

/// Rotation, append and attention in one launch.
pub open spec fn rope_kv_attn_step(d: DecodeShape, slot: usize, scale: u32) -> StepView {
    StepView::Launch {
        kernel: Kernel::RopeKvAttn,
        buffers: seq![
            at(Operand::Scratch(Q_RAW)),
            at(Operand::Scratch(K_RAW)),
            at(Operand::Scratch(V_RAW)),
            Binding { operand: Operand::RopeCos, offset: d.rope_offset() },
            Binding { operand: Operand::RopeSin, offset: d.rope_offset() },
            at(Operand::KCache(slot)),
            at(Operand::VCache(slot)),
            at(Operand::Scratch(ATTN)),
        ],
        params: Params { w0: d.total_seq(), w1: d.position(), w2: 0, w3: scale },
        groups: along_x(d.num_heads as nat),
        threads: along_x(32),
    }
}

/// From q, k and v to the attention output.
#[verifier::opaque]
pub open spec fn attention_steps(d: DecodeShape, li: int, slot: usize, scale: u32) -> Seq<
    StepView,
> {
    if d.has_qk_norm {
        seq![
            qk_norm_rope_step(d, li),
            StepView::Barrier,
            kv_both_step(d, slot),
            StepView::Barrier,
            attn_step(
                Operand::Scratch(QR),
                Operand::KCache(slot),
                Operand::VCache(slot),
                Operand::Scratch(ATTN),
                d.total_seq(),
                0,
                scale,
                d.num_heads,
            ),
        ]
    } else {
        seq![rope_kv_attn_step(d, slot, scale)]
    }
}

/// A projection with the residual sum: `y = x @ w + residual`.
pub open spec fn res_step(
    kernel: Kernel,
    x: Operand,
    w: Operand,
    residual: Operand,
    out: Operand,
    n_rows: u32,
    n_blocks: u32,
    rows_per_group: u32,
) -> StepView {
    StepView::Launch {
        kernel,
        buffers: seq![at(x), at(w), at(residual), at(out)],
        params: Params { w0: 1, w1: n_rows, w2: n_blocks, w3: 0 },
        groups: along_x(ceil_div(n_rows as nat, rows_per_group as nat)),
        threads: along_x(GROUP_THREADS as nat),
    }
}

/// A projection back to the hidden width with its residual sum. Where the
/// layer normalises the projection first, the sum is a step of its own.
#[verifier::opaque]
pub open spec fn project_steps(
    d: DecodeShape,
    li: int,
    x: Operand,
    w: LayerTensor,
    norm: Option<LayerTensor>,
    residual: Operand,
    out: Operand,
    n_rows: u32,
    n_blocks: u32,
    large: bool,
    cached: Kernel,
) -> Seq<StepView> {
    let weight = Operand::Layer(li as usize, w);
    match norm {
        None => {
            if large {
                seq![
                    res_step(
                        by_quant(d.quant, Kernel::Q4LargeRes, Kernel::Q8Large4Res),
                        x,
                        weight,
                        residual,
                        out,
                        n_rows,
                        n_blocks,
                        (if d.quant == Quant::Q8 {
                            64
                        } else {
                            16
                        }),
                    ),
                ]
            } else {
                seq![res_step(cached, x, weight, residual, out, n_rows, n_blocks, 16)]
            }
        },
        Some(gamma) => seq![
            matmul_step(Kernel::Q8Large, x, weight, Operand::Scratch(Q_RAW), 1, n_rows, n_blocks),
            StepView::Barrier,
            norm_step(
                Operand::Scratch(Q_RAW),
                Operand::Layer(li as usize, gamma),
                out,
                1,
                d.k_dim as u32,
                d.eps,
            ),
            StepView::Barrier,
            add_step(out, residual, out, d.k_dim as u32, 256),
        ],
    }
}

/// Normalisation, gate, up and activation.
#[verifier::opaque]
pub open spec fn gus_step(d: DecodeShape, li: int, n_rows: u32) -> StepView {
    StepView::Launch {
        kernel: by_width(
            d,
            if d.use_gelu_tanh {
                Kernel::Q8Large4GusNrmGelu
            } else {
                Kernel::Q8Large4GusNrm
            },
            if d.blk_kd() <= 48 {
                by_quant(d.quant, Kernel::Q4GusNrmMb48, Kernel::Q8GusNrmMb48)
            } else {
                by_quant(d.quant, Kernel::Q4GusNrmMb64, Kernel::Q8GusNrmMb64)
            },
            by_quant(d.quant, Kernel::Q4GusNrmMb32, Kernel::Q8GusNrmMb32),
        ),
        buffers: seq![
            at(Operand::Scratch(HID2)),
            tensor(li, LayerTensor::PostNorm),
            tensor(li, LayerTensor::GateProj),
            tensor(li, LayerTensor::UpProj),
            at(Operand::Scratch(MID)),
        ],
        params: Params { w0: 1, w1: n_rows, w2: d.blk_kd(), w3: d.eps },
        groups: along_x(ceil_div(n_rows as nat, rows_by_width(d) as nat)),
        threads: along_x(GROUP_THREADS as nat),
    }
}

/// The in-place scaling of the layer's output, where its scale is not one.
#[verifier::opaque]
pub open spec fn scale_steps(d: DecodeShape, li: int, scale: u32) -> Seq<StepView> {
    if scale != ONE_BITS {
        seq![
            StepView::Barrier,
            StepView::Launch {
                kernel: Kernel::Scale,
                buffers: seq![at(hidden_out(li))],
                params: Params { w0: scale, w1: d.k_dim as u32, w2: 0, w3: 0 },
                groups: along_x(ceil_div(d.k_dim as u32 as nat, 256)),
                threads: along_x(256),
            },
        ]
    } else {
        Seq::empty()
    }
}

/// The attention half of a layer, up to the barrier before the feed-forward.
pub open spec fn attention_half(
    d: DecodeShape,
    li: int,
    l: LayerFusedInput,
    slot: usize,
) -> Seq<StepView> {
    (if li > 0 {
        seq![StepView::Barrier]
    } else {
        Seq::empty()
    }) + qkv_steps(d, li) + seq![StepView::Barrier] + (if d.has_qkv_bias {
        bias_steps(d, li, l) + seq![StepView::Barrier]
    } else {
        Seq::empty()
    }) + attention_steps(d, li, slot, l.attn_scale) + seq![StepView::Barrier] + project_steps(
        d,
        li,
        Operand::Scratch(ATTN),
        LayerTensor::OProj,
        if l.post_attn_norm is Some {
            Some(LayerTensor::PostAttnNorm)
        } else {
            None
        },
        hidden_in(li),
        Operand::Scratch(HID2),
        l.o_proj.shape@[0] as u32,
        d.blk_qd(),
        d.blk_qd() > 64,
        by_quant(d.quant, Kernel::Q4ResMb64, Kernel::Q8ResMb64),
    ) + seq![StepView::Barrier]
}

/// The feed-forward half of a layer.
pub open spec fn ffn_half(d: DecodeShape, li: int, l: LayerFusedInput) -> Seq<StepView> {
    seq![gus_step(d, li, l.gate_proj.shape@[0] as u32), StepView::Barrier] + project_steps(
        d,
        li,
        Operand::Scratch(MID),
        LayerTensor::DownProj,
        if l.post_ffw_norm is Some {
            Some(LayerTensor::PostFfwNorm)
        } else {
            None
        },
        Operand::Scratch(HID2),
        hidden_out(li),
        l.down_proj.shape@[0] as u32,
        d.blk_inter(),
        d.blk_inter() > 96,
        by_quant(d.quant, Kernel::Q4ResMb96, Kernel::Q8ResMb96),
    ) + scale_steps(d, li, l.layer_output_scale)
}

/// All steps of the first `n` layers.
pub open spec fn decode_steps(
    d: DecodeShape,
    layers: Seq<LayerFusedInput>,
    slots: spec_fn(int) -> usize,
    n: int,
) -> Seq<StepView>
    decreases n,
{
    if n <= 0 {
        Seq::empty()
    } else {
        decode_steps(d, layers, slots, n - 1) + attention_half(
            d,
            n - 1,
            layers[n - 1],
            slots(n - 1),
        ) + ffn_half(d, n - 1, layers[n - 1])
    }
}

fn hidden_in_exec(li: usize) -> (o: Operand)
    ensures
        o == hidden_in(li as int),
{
    if li == 0 {
        Operand::Input(0)
    } else if li % 2 == 1 {
        Operand::Scratch(HID_B)
    } else {
        Operand::Scratch(HID_A)
    }
}

fn hidden_out_exec(li: usize) -> (o: Operand)
    ensures
        o == hidden_out(li as int),
{
    if li % 2 == 0 {
        Operand::Scratch(HID_B)
    } else {
        Operand::Scratch(HID_A)
    }
}

impl DecodeShape {
    fn q_rows_exec(self) -> (n: u32)
        requires
            self.fits(),
        ensures
            n == self.q_rows(),
    {
        assert(0 <= self.num_heads * self.head_dim) by (nonlinear_arith);
        self.num_heads * self.head_dim
    }

    fn kv_rows_exec(self) -> (n: u32)
        requires
            self.fits(),
        ensures
            n == self.kv_rows(),
    {
        assert(0 <= self.kv_heads * self.head_dim) by (nonlinear_arith);
        self.kv_heads * self.head_dim
    }

    fn blk_kd_exec(self) -> (n: u32)
        ensures
            n == self.blk_kd(),
    {
        (self.k_dim / BLOCK) as u32
    }

    fn rope_offset_exec(self) -> (n: usize)
        requires
            self.fits(),
        ensures
            n == self.rope_offset(),
    {
        assert(0 <= self.past * self.rope_half) by (nonlinear_arith);
        self.past * self.rope_half as usize * 4
    }
}

fn push_nrm(
    p: &mut Program,
    d: DecodeShape,
    kernel: Kernel,
    rows_per_group: u32,
    li: usize,
    w: LayerTensor,
    out: Operand,
    n_rows: u32,
)
    requires
        rows_per_group > 0,
    ensures
        final(p)@ == old(p)@.push(nrm_step(d, kernel, rows_per_group, li as int, w, out, n_rows)),
{
    p.launch(
        kernel,
        vec![
            bind(hidden_in_exec(li)),
            bind(Operand::Layer(li, LayerTensor::InputNorm)),
            bind(Operand::Layer(li, w)),
            bind(out),
        ],
        Params { w0: 1, w1: n_rows, w2: d.blk_kd_exec(), w3: d.eps },
        row(groups_of(n_rows, rows_per_group)),
        row(GROUP_THREADS),
    );
}

fn by_width_exec(d: DecodeShape, large: Kernel, mb64: Kernel, mb32: Kernel) -> (k: Kernel)
    ensures
        k == by_width(d, large, mb64, mb32),
{
    let n: u32 = d.blk_kd_exec();
    if n > 64 {
        large
    } else if n > 32 {
        mb64
    } else {
        mb32
    }
}

fn rows_by_width_exec(d: DecodeShape) -> (n: u32)
    ensures
        n == rows_by_width(d),
{
    if d.blk_kd_exec() > 64 {
        64
    } else {
        16
    }
}

fn push_qkv(p: &mut Program, d: DecodeShape, li: usize)
    requires
        d.fits(),
    ensures
        final(p)@ == old(p)@ + qkv_steps(d, li as int),
{
    proof {
        reveal(qkv_steps);
    }
    let kernel = by_width_exec(
        d,
        Kernel::Q8Large4Nrm,
        pick(d.quant, Kernel::Q4NrmMb64, Kernel::Q8NrmMb64),
        pick(d.quant, Kernel::Q4NrmMb32, Kernel::Q8NrmMb32),
    );
    push_nrm(
        p,
        d,
        kernel,
        rows_by_width_exec(d),
        li,
        LayerTensor::QProj,
        Operand::Scratch(Q_RAW),
        d.q_rows_exec(),
    );
    let kv_rows: u32 = d.kv_rows_exec();
    if d.blk_kd_exec() > 64 {
        push_nrm(
            p,
            d,
            Kernel::Q8Large4Nrm,
            64,
            li,
            LayerTensor::KProj,
            Operand::Scratch(K_RAW),
            kv_rows,
        );
        push_nrm(
            p,
            d,
            Kernel::Q8Large4Nrm,
            64,
            li,
            LayerTensor::VProj,
            Operand::Scratch(V_RAW),
            kv_rows,
        );
    } else {
        let kernel = by_width_exec(
            d,
            Kernel::Q8Large4Nrm,
            pick(d.quant, Kernel::Q4DualNrmMb64, Kernel::Q8DualNrmMb64),
            pick(d.quant, Kernel::Q4DualNrmMb32, Kernel::Q8DualNrmMb32),
        );
        p.launch(
            kernel,
            vec![
                bind(hidden_in_exec(li)),
                bind(Operand::Layer(li, LayerTensor::InputNorm)),
                bind(Operand::Layer(li, LayerTensor::KProj)),
                bind(Operand::Layer(li, LayerTensor::VProj)),
                bind(Operand::Scratch(K_RAW)),
                bind(Operand::Scratch(V_RAW)),
            ],
            Params { w0: 1, w1: kv_rows, w2: d.blk_kd_exec(), w3: d.eps },
            row(groups_of(kv_rows, SIMDS)),
            row(GROUP_THREADS),
        );
    }
    assert(p@ =~= old(p)@ + qkv_steps(d, li as int));
}

fn is_bound(t: &Option<TensorDesc>) -> (b: bool)
    ensures
        b == bound(*t),
{
    match t {
        Some(t) => t.on_gpu,
        None => false,
    }
}

fn push_bias(p: &mut Program, present: bool, buf: Operand, li: usize, b: LayerTensor, n: u32)
    ensures
        final(p)@ == old(p)@ + bias_step(present, buf, li as int, b, n),
{
    proof {
        reveal(bias_step);
    }
    if present {
        push_add(p, buf, Operand::Layer(li, b), buf, n, 256);
    }
    assert(p@ =~= old(p)@ + bias_step(present, buf, li as int, b, n));
}

fn push_biases(p: &mut Program, d: DecodeShape, li: usize, l: &LayerFusedInput)
    requires
        d.fits(),
    ensures
        final(p)@ == old(p)@ + bias_steps(d, li as int, *l),
{
    proof {
        reveal(bias_steps);
    }
    let kv_rows: u32 = d.kv_rows_exec();
    push_bias(
        p,
        is_bound(&l.q_bias),
        Operand::Scratch(Q_RAW),
        li,
        LayerTensor::QBias,
        d.q_rows_exec(),
    );
    push_bias(p, is_bound(&l.k_bias), Operand::Scratch(K_RAW), li, LayerTensor::KBias, kv_rows);
    push_bias(p, is_bound(&l.v_bias), Operand::Scratch(V_RAW), li, LayerTensor::VBias, kv_rows);
    assert(p@ =~= old(p)@ + bias_steps(d, li as int, *l));
}

fn push_attention(p: &mut Program, d: DecodeShape, li: usize, slot: usize, scale: u32)
    requires
        d.fits(),
    ensures
        final(p)@ == old(p)@ + attention_steps(d, li as int, slot, scale),
{
    proof {
        reveal(attention_steps);
    }
    let position: u32 = d.past as u32;
    let total_seq: u32 = (d.past + 1) as u32;
    let offset: usize = d.rope_offset_exec();
    let cos = Binding { operand: Operand::RopeCos, offset };
    let sin = Binding { operand: Operand::RopeSin, offset };
    let k_cache = Operand::KCache(slot);
    let v_cache = Operand::VCache(slot);
    if d.has_qk_norm {
        p.launch(
            Kernel::GeometryQkNormRope,
            vec![
                bind(Operand::Scratch(Q_RAW)),
                bind(Operand::Scratch(K_RAW)),
                bind(Operand::Layer(li, LayerTensor::QNorm)),
                bind(Operand::Layer(li, LayerTensor::KNorm)),
                cos,
                sin,
                bind(Operand::Scratch(QR)),
                bind(Operand::Scratch(KR)),
            ],
            Params { w0: d.num_heads, w1: d.kv_heads, w2: d.rope_half, w3: d.eps },
            row((d.num_heads + d.kv_heads) as usize),
            row(d.head_dim as usize),
        );
        p.barrier();
        p.launch(
            Kernel::KvAppendBoth,
            vec![
                bind(Operand::Scratch(KR)),
                bind(k_cache),
                bind(Operand::Scratch(V_RAW)),
                bind(v_cache),
            ],
            Params { w0: position, w1: 0, w2: 0, w3: 0 },
            Extent { x: 1, y: d.kv_heads as usize, z: 1 },
            row(d.head_dim as usize),
        );
        p.barrier();
        push_attn(
            p,
            Operand::Scratch(QR),
            k_cache,
            v_cache,
            Operand::Scratch(ATTN),
            total_seq,
            0,
            scale,
            d.num_heads,
        );
    } else {
        p.launch(
            Kernel::RopeKvAttn,
            vec![
                bind(Operand::Scratch(Q_RAW)),
                bind(Operand::Scratch(K_RAW)),
                bind(Operand::Scratch(V_RAW)),
                cos,
                sin,
                bind(k_cache),
                bind(v_cache),
                bind(Operand::Scratch(ATTN)),
            ],
            Params { w0: total_seq, w1: position, w2: 0, w3: scale },
            row(d.num_heads as usize),
            row(32),
        );
    }
    assert(p@ =~= old(p)@ + attention_steps(d, li as int, slot, scale));
}

fn push_res(
    p: &mut Program,
    kernel: Kernel,
    x: Operand,
    w: Operand,
    residual: Operand,
    out: Operand,
    n_rows: u32,
    n_blocks: u32,
    rows_per_group: u32,
)
    requires
        rows_per_group > 0,
    ensures
        final(p)@ == old(p)@.push(
            res_step(kernel, x, w, residual, out, n_rows, n_blocks, rows_per_group),
        ),
{
    p.launch(
        kernel,
        vec![bind(x), bind(w), bind(residual), bind(out)],
        Params { w0: 1, w1: n_rows, w2: n_blocks, w3: 0 },
        row(groups_of(n_rows, rows_per_group)),
        row(GROUP_THREADS),
    );
}

fn push_project(
    p: &mut Program,
    d: DecodeShape,
    li: usize,
    x: Operand,
    w: LayerTensor,
    norm: Option<LayerTensor>,
    residual: Operand,
    out: Operand,
    n_rows: u32,
    n_blocks: u32,
    large: bool,
    cached: Kernel,
)
    ensures
        final(p)@ == old(p)@ + project_steps(
            d,
            li as int,
            x,
            w,
            norm,
            residual,
            out,
            n_rows,
            n_blocks,
            large,
            cached,
        ),
{
    proof {
        reveal(project_steps);
    }
    let weight = Operand::Layer(li, w);
    match norm {
        None => {
            if large {
                let kernel = pick(d.quant, Kernel::Q4LargeRes, Kernel::Q8Large4Res);
                let rows: u32 = if d.quant == Quant::Q8 {
                    64
                } else {
                    16
                };
                push_res(p, kernel, x, weight, residual, out, n_rows, n_blocks, rows);
            } else {
                push_res(p, cached, x, weight, residual, out, n_rows, n_blocks, 16);
            }
        },
        Some(gamma) => {
            push_matmul(
                p,
                Kernel::Q8Large,
                x,
                weight,
                Operand::Scratch(Q_RAW),
                1,
                n_rows,
                n_blocks,
            );
            p.barrier();
            push_norm(
                p,
                Operand::Scratch(Q_RAW),
                Operand::Layer(li, gamma),
                out,
                1,
                d.k_dim as u32,
                d.eps,
            );
            p.barrier();
            push_add(p, out, residual, out, d.k_dim as u32, 256);
        },
    }
    assert(p@ =~= old(p)@ + project_steps(
        d,
        li as int,
        x,
        w,
        norm,
        residual,
        out,
        n_rows,
        n_blocks,
        large,
        cached,
    ));
}

#[verifier::rlimit(30)]
#[verifier::spinoff_prover]
fn push_attention_half(
    p: &mut Program,
    d: DecodeShape,
    li: usize,
    l: &LayerFusedInput,
    slot: usize,
)
    requires
        d.fits(),
        l.o_proj.shape@.len() >= 1,
    ensures
        final(p)@ == old(p)@ + attention_half(d, li as int, *l, slot),
{
    let ghost start = p@;
    if li > 0 {
        p.barrier();
    }
    let ghost s1 = (if li > 0 {
        seq![StepView::Barrier]
    } else {
        Seq::empty()
    });
    assert(p@ =~= start + s1);
    push_qkv(p, d, li);
    p.barrier();
    let ghost s2 = qkv_steps(d, li as int) + seq![StepView::Barrier];
    assert(p@ =~= start + s1 + s2);
    if d.has_qkv_bias {
        push_biases(p, d, li, l);
        p.barrier();
    }
    let ghost s3 = (if d.has_qkv_bias {
        bias_steps(d, li as int, *l) + seq![StepView::Barrier]
    } else {
        Seq::empty()
    });
    assert(p@ =~= start + s1 + s2 + s3);
    push_attention(p, d, li, slot, l.attn_scale);
    p.barrier();
    let ghost s4 = attention_steps(d, li as int, slot, l.attn_scale) + seq![StepView::Barrier];
    assert(p@ =~= start + s1 + s2 + s3 + s4);
    let norm = match &l.post_attn_norm {
        Some(_) => Some(LayerTensor::PostAttnNorm),
        None => None,
    };
    let n_rows: u32 = l.o_proj.shape[0] as u32;
    let n_blocks: u32 = d.q_rows_exec() / (BLOCK as u32);
    push_project(
        p,
        d,
        li,
        Operand::Scratch(ATTN),
        LayerTensor::OProj,
        norm,
        hidden_in_exec(li),
        Operand::Scratch(HID2),
        n_rows,
        n_blocks,
        n_blocks > 64,
        pick(d.quant, Kernel::Q4ResMb64, Kernel::Q8ResMb64),
    );
    let ghost s5 = project_steps(
        d,
        li as int,
        Operand::Scratch(ATTN),
        LayerTensor::OProj,
        norm,
        hidden_in(li as int),
        Operand::Scratch(HID2),
        l.o_proj.shape@[0] as u32,
        d.blk_qd(),
        d.blk_qd() > 64,
        by_quant(d.quant, Kernel::Q4ResMb64, Kernel::Q8ResMb64),
    );
    assert(p@ == start + s1 + s2 + s3 + s4 + s5);
    p.barrier();
    assert(p@ =~= start + (s1 + s2 + s3 + s4 + s5 + seq![StepView::Barrier]));
    assert(s1 + s2 + s3 + s4 + s5 + seq![StepView::Barrier] =~= attention_half(d, li as int, *l, slot));
}

fn push_ffn_half(p: &mut Program, d: DecodeShape, li: usize, l: &LayerFusedInput)
    requires
        d.fits(),
        l.gate_proj.shape@.len() >= 1,
        l.down_proj.shape@.len() >= 1,
    ensures
        final(p)@ == old(p)@ + ffn_half(d, li as int, *l),
{
    let ghost start = p@;
    let n_rows: u32 = l.gate_proj.shape[0] as u32;
    let large = if d.use_gelu_tanh {
        Kernel::Q8Large4GusNrmGelu
    } else {
        Kernel::Q8Large4GusNrm
    };
    let mb64 = if d.blk_kd_exec() <= 48 {
        pick(d.quant, Kernel::Q4GusNrmMb48, Kernel::Q8GusNrmMb48)
    } else {
        pick(d.quant, Kernel::Q4GusNrmMb64, Kernel::Q8GusNrmMb64)
    };
    let mb32 = pick(d.quant, Kernel::Q4GusNrmMb32, Kernel::Q8GusNrmMb32);
    p.launch(
        by_width_exec(d, large, mb64, mb32),
        vec![
            bind(Operand::Scratch(HID2)),
            bind(Operand::Layer(li, LayerTensor::PostNorm)),
            bind(Operand::Layer(li, LayerTensor::GateProj)),
            bind(Operand::Layer(li, LayerTensor::UpProj)),
            bind(Operand::Scratch(MID)),
        ],
        Params { w0: 1, w1: n_rows, w2: d.blk_kd_exec(), w3: d.eps },
        row(groups_of(n_rows, rows_by_width_exec(d))),
        row(GROUP_THREADS),
    );
    p.barrier();
    proof {
        reveal(gus_step);
    }
    let ghost s1 = seq![
        gus_step(d, li as int, l.gate_proj.shape@[0] as u32),
        StepView::Barrier,
    ];
    assert(p@ =~= start + s1);
    let norm = match &l.post_ffw_norm {
        Some(_) => Some(LayerTensor::PostFfwNorm),
        None => None,
    };
    let n_blocks: u32 = (d.inter_size / BLOCK) as u32;
    push_project(
        p,
        d,
        li,
        Operand::Scratch(MID),
        LayerTensor::DownProj,
        norm,
        Operand::Scratch(HID2),
        hidden_out_exec(li),
        l.down_proj.shape[0] as u32,
        n_blocks,
        n_blocks > 96,
        pick(d.quant, Kernel::Q4ResMb96, Kernel::Q8ResMb96),
    );
    let ghost s2 = project_steps(
        d,
        li as int,
        Operand::Scratch(MID),
        LayerTensor::DownProj,
        norm,
        Operand::Scratch(HID2),
        hidden_out(li as int),
        l.down_proj.shape@[0] as u32,
        d.blk_inter(),
        d.blk_inter() > 96,
        by_quant(d.quant, Kernel::Q4ResMb96, Kernel::Q8ResMb96),
    );
    assert(p@ == start + s1 + s2);
    proof {
        reveal(scale_steps);
    }
    if l.layer_output_scale != ONE_BITS {
        p.barrier();
        let n: u32 = d.k_dim as u32;
        let buffers: Vec<Binding> = vec![bind(hidden_out_exec(li))];
        assert(buffers@ =~= seq![at(hidden_out(li as int))]);
        p.launch(
            Kernel::Scale,
            buffers,
            Params { w0: l.layer_output_scale, w1: n, w2: 0, w3: 0 },
            row(groups_of(n, 256)),
            row(256),
        );
    }
    let ghost s3 = scale_steps(d, li as int, l.layer_output_scale);
    assert(p@ =~= start + s1 + s2 + s3);
    assert(p@ =~= start + (s1 + s2 + s3));
}

/// The layer has a bias on one of its projections.
pub open spec fn biased(l: LayerFusedInput) -> bool {
    l.q_bias is Some || l.k_bias is Some || l.v_bias is Some
}

/// What the layers have in common, read off the first of them.
pub open spec fn shape_of(layers: Seq<LayerFusedInput>, past: usize, eps: u32) -> DecodeShape {
    let l0 = layers[0];
    DecodeShape {
        quant: quant(l0.q_proj.dtype)->0,
        k_dim: l0.q_proj.shape@[1],
        inter_size: l0.gate_proj.shape@[0],
        num_heads: l0.num_heads,
        kv_heads: l0.kv_heads,
        head_dim: l0.head_dim,
        rope_half: l0.rope_dim / 2,
        has_qk_norm: l0.q_norm is Some,
        has_qkv_bias: exists|i: int| 0 <= i < layers.len() && biased(#[trigger] layers[i]),
        use_gelu_tanh: l0.use_gelu_tanh,
        past,
        eps,
    }
}

/// The geometry of the attention state that the layers need.
pub open spec fn geometry_of(layers: Seq<LayerFusedInput>, max_seq: u32) -> Geometry {
    let l0 = layers[0];
    Geometry { num_heads: l0.num_heads, kv_heads: l0.kv_heads, head_dim: l0.head_dim, max_seq }
}

/// An optional tensor is absent or on the GPU.
pub open spec fn absent_or_on_gpu(t: Option<TensorDesc>) -> bool {
    t is None || t->0.on_gpu
}

/// The layer has the sizes, element types and options of the first one, and
/// its matrices are on the GPU.
pub open spec fn uniform(l: LayerFusedInput, l0: LayerFusedInput) -> bool {
    let kind = l0.q_proj.dtype;
    &&& l.head_dim == l0.head_dim && l.num_heads == l0.num_heads && l.kv_heads == l0.kv_heads
    &&& l.q_proj.shape@[1] == l0.q_proj.shape@[1]
    &&& l.gate_proj.shape@[0] == l0.gate_proj.shape@[0]
    &&& l.q_proj.dtype == kind && l.k_proj.dtype == kind && l.v_proj.dtype == kind
    &&& l.o_proj.dtype == kind && l.gate_proj.dtype == kind && l.up_proj.dtype == kind
    &&& l.down_proj.dtype == kind
    &&& l.q_proj.on_gpu && l.k_proj.on_gpu && l.v_proj.on_gpu && l.o_proj.on_gpu
    &&& l.gate_proj.on_gpu && l.up_proj.on_gpu && l.down_proj.on_gpu
    &&& (l.q_norm is Some) == (l0.q_norm is Some)
    &&& (l.post_attn_norm is Some) == (l0.post_attn_norm is Some)
    &&& (l.post_ffw_norm is Some) == (l0.post_ffw_norm is Some)
    &&& l.use_gelu_tanh == l0.use_gelu_tanh
    &&& absent_or_on_gpu(l.post_attn_norm) && absent_or_on_gpu(l.post_ffw_norm)
}

/// The hidden state has more blocks than the kernels with inline normalisation
/// cache.
pub open spec fn wide(l0: LayerFusedInput) -> bool {
    l0.q_proj.shape@[1] / BLOCK > 64
}

/// The layer normalises a projection before its residual sum.
pub open spec fn has_post_norms(l0: LayerFusedInput) -> bool {
    l0.post_attn_norm is Some || l0.post_ffw_norm is Some
}

/// Width of the heads of the kernel that rotates, appends and attends in one
/// launch.
pub const FUSED_HEAD_DIM: u32 = 128;

/// The fused decode path takes these layers at this position. The caches are
/// linear, so the position must be below `max_seq`. The tanh form of the
/// activation has a wide 8-bit kernel only, and the projections before a norm
/// an 8-bit one. Layers without head norms are not 4-bit and wide, and all of a
/// head of one width is rotated. A table that serves other geometries only is
/// left alone.
pub open spec fn decodable(
    table: Seq<EntryView>,
    layers: Seq<LayerFusedInput>,
    past: usize,
    max_seq: u32,
) -> bool {
    let l0 = layers[0];
    &&& layers.len() > 0
    &&& past < max_seq
    &&& quant(l0.q_proj.dtype) is Some
    &&& l0.use_gelu_tanh ==> l0.q_proj.dtype == DType::Q8 && wide(l0)
    &&& has_post_norms(l0) ==> l0.q_proj.dtype == DType::Q8
    &&& l0.q_norm is None ==> {
        &&& !(l0.q_proj.dtype == DType::Q4 && wide(l0))
        &&& l0.head_dim == FUSED_HEAD_DIM && l0.rope_dim == FUSED_HEAD_DIM
    }
    &&& l0.q_proj.shape@[1] % BLOCK == 0
    &&& l0.gate_proj.shape@[0] % BLOCK == 0
    &&& forall|i: int| 0 <= i < layers.len() ==> uniform(#[trigger] layers[i], l0)
    &&& table.len() == 0 || first_of(table, geometry_of(layers, max_seq), 0) is Some
}

/// The matrices have the dimensions that are read off them.
pub open spec fn shaped(l: LayerFusedInput) -> bool {
    &&& l.q_proj.shape@.len() >= 2
    &&& l.gate_proj.shape@.len() >= 1
    &&& l.o_proj.shape@.len() >= 1
    &&& l.down_proj.shape@.len() >= 1
}

/// The norms that the kernels bind are on the GPU.
pub open spec fn norms_bound(l: LayerFusedInput) -> bool {
    &&& l.input_norm.on_gpu
    &&& l.post_norm.on_gpu
    &&& l.q_norm is Some ==> bound(l.q_norm) && bound(l.k_norm)
}

fn on_gpu_if_present(t: &Option<TensorDesc>) -> (b: bool)
    ensures
        b == absent_or_on_gpu(*t),
{
    match t {
        Some(t) => t.on_gpu,
        None => true,
    }
}

fn is_uniform(l: &LayerFusedInput, l0: &LayerFusedInput) -> (b: bool)
    requires
        shaped(*l),
        shaped(*l0),
    ensures
        b == uniform(*l, *l0),
{
    let kind = l0.q_proj.dtype;
    l.head_dim == l0.head_dim && l.num_heads == l0.num_heads && l.kv_heads == l0.kv_heads
        && l.q_proj.shape[1] == l0.q_proj.shape[1] && l.gate_proj.shape[0] == l0.gate_proj.shape[0]
        && l.q_proj.dtype == kind && l.k_proj.dtype == kind && l.v_proj.dtype == kind
        && l.o_proj.dtype == kind && l.gate_proj.dtype == kind && l.up_proj.dtype == kind
        && l.down_proj.dtype == kind && l.q_proj.on_gpu && l.k_proj.on_gpu && l.v_proj.on_gpu
        && l.o_proj.on_gpu && l.gate_proj.on_gpu && l.up_proj.on_gpu && l.down_proj.on_gpu
        && l.q_norm.is_some() == l0.q_norm.is_some() && l.post_attn_norm.is_some()
        == l0.post_attn_norm.is_some() && l.post_ffw_norm.is_some() == l0.post_ffw_norm.is_some()
        && l.use_gelu_tanh == l0.use_gelu_tanh && on_gpu_if_present(&l.post_attn_norm)
        && on_gpu_if_present(&l.post_ffw_norm)
}

/// The common shape of the layers, if the fused decode path takes them.
pub fn decode_shape(
    table: &AttnTable,
    layers: &Vec<LayerFusedInput>,
    past: usize,
    max_seq: u32,
    eps: u32,
) -> (r: Option<DecodeShape>)
    requires
        forall|i: int| 0 <= i < layers@.len() ==> shaped(#[trigger] layers@[i]),
    ensures
        r == (if decodable(table@, layers@, past, max_seq) {
            Some(shape_of(layers@, past, eps))
        } else {
            None
        }),
{
    if layers.len() == 0 || past as u64 >= max_seq as u64 {
        return None;
    }
    let l0 = &layers[0];
    let q4: bool = l0.q_proj.dtype == DType::Q4;
    let k_dim: usize = l0.q_proj.shape[1];
    let inter_size: usize = l0.gate_proj.shape[0];
    let quant = match quant_of(l0.q_proj.dtype) {
        Some(q) => q,
        None => {
            return None;
        },
    };
    let is_wide: bool = k_dim / BLOCK > 64;
    if l0.use_gelu_tanh && (q4 || !is_wide) {
        return None;
    }
    if q4 && (l0.post_attn_norm.is_some() || l0.post_ffw_norm.is_some()) {
        return None;
    }
    if l0.q_norm.is_none() && (q4 && is_wide || l0.head_dim != FUSED_HEAD_DIM || l0.rope_dim
        != FUSED_HEAD_DIM) {
        return None;
    }
    let mut has_qkv_bias: bool = false;
    let mut i: usize = 0;
    while i < layers.len()
        invariant
            i <= layers@.len(),
            layers@.len() > 0,
            *l0 == layers@[0],
            forall|k: int| 0 <= k < layers@.len() ==> shaped(#[trigger] layers@[k]),
            forall|k: int| 0 <= k < i ==> uniform(#[trigger] layers@[k], *l0),
            has_qkv_bias == exists|k: int| 0 <= k < i && biased(#[trigger] layers@[k]),
        decreases layers@.len() - i,
    {
        let l = &layers[i];
        if !is_uniform(l, l0) {
            assert(!uniform(layers@[i as int], *l0));
            return None;
        }
        let b: bool = l.q_bias.is_some() || l.k_bias.is_some() || l.v_bias.is_some();
        assert(b == biased(layers@[i as int]));
        has_qkv_bias = has_qkv_bias || b;
        i = i + 1;
    }
    if k_dim % BLOCK != 0 || inter_size % BLOCK != 0 {
        return None;
    }
    let g = Geometry {
        num_heads: l0.num_heads,
        kv_heads: l0.kv_heads,
        head_dim: l0.head_dim,
        max_seq,
    };
    assert(g == geometry_of(layers@, max_seq));
    if table.entries.len() != 0 && table.find(g).is_none() {
        return None;
    }
    Some(
        DecodeShape {
            quant,
            k_dim,
            inter_size,
            num_heads: l0.num_heads,
            kv_heads: l0.kv_heads,
            head_dim: l0.head_dim,
            rope_half: l0.rope_dim / 2,
            has_qk_norm: l0.q_norm.is_some(),
            has_qkv_bias,
            use_gelu_tanh: l0.use_gelu_tanh,
            past,
            eps,
        },
    )
}

/// Sizes in bytes of the scratch buffers.
pub open spec fn scratch_sizes(d: DecodeShape) -> Seq<usize> {
    let hidden = (d.k_dim * 4) as usize;
    let q = (d.num_heads * d.head_dim * 4) as usize;
    let kv = (d.kv_heads * d.head_dim * 4) as usize;
    let inter = (d.inter_size * 4) as usize;
    let base = seq![hidden, hidden, hidden, q, kv, kv, q, inter];
    if d.has_qk_norm {
        base + seq![q, kv]
    } else {
        base
    }
}

/// The cache slot of each layer in an entry.
pub open spec fn slots_in(layers: Seq<LayerFusedInput>, known: Seq<usize>) -> spec_fn(int) -> usize {
    |i: int| slot_of(known, layers[i].layer_idx, 0) as usize
}

/// The model layers of the call, in order.
pub open spec fn indices(layers: Seq<LayerFusedInput>) -> Seq<usize> {
    layers.map_values(|l: LayerFusedInput| l.layer_idx)
}

/// What a decode token needs before it can run: `None` where the layers must
/// be run one by one, no change where some entry of the geometry has a slot
/// for every layer, and otherwise the caches to allocate.
pub fn decode_needs(
    table: &AttnTable,
    layers: &Vec<LayerFusedInput>,
    past: usize,
    max_seq: u32,
) -> (r: Option<Option<AttnChange>>)
    requires
        forall|i: int| 0 <= i < layers@.len() ==> shaped(#[trigger] layers@[i]),
    ensures
        r is None <==> !decodable(table@, layers@, past, max_seq),
        r matches Some(change) ==> {
            let g = geometry_of(layers@, max_seq);
            &&& change is None <==> has_slots(table@, g, indices(layers@))
            &&& change matches Some(c) ==> is_change(
                table@,
                g,
                indices(layers@),
                layers@[0].rope_dim / 2,
                c,
            )
        },
{
    let d = match decode_shape(table, layers, past, max_seq, 0) {
        Some(d) => d,
        None => {
            return None;
        },
    };
    let g = Geometry {
        num_heads: d.num_heads,
        kv_heads: d.kv_heads,
        head_dim: d.head_dim,
        max_seq,
    };
    assert(g == geometry_of(layers@, max_seq));
    let mut wanted: Vec<usize> = Vec::new();
    let mut i: usize = 0;
    while i < layers.len()
        invariant
            i <= layers@.len(),
            wanted@ == indices(layers@).take(i as int),
        decreases layers@.len() - i,
    {
        wanted.push(layers[i].layer_idx);
        i = i + 1;
        assert(wanted@ =~= indices(layers@).take(i as int));
    }
    assert(wanted@ =~= indices(layers@));
    if table.has_slots(g, &wanted) {
        Some(None)
    } else {
        Some(Some(table.attn_state(g, &wanted, layers[0].rope_dim)))
    }
}

/// The block format that a kernel reads, of the kernels that read one.
pub open spec fn format_of(k: Kernel) -> Option<Quant> {
    match k {
        Kernel::Q4 | Kernel::Q4Large | Kernel::Q4Dual | Kernel::Q4Gus | Kernel::Q4Qkv | Kernel::Q4Res
        | Kernel::Q4Mb32 | Kernel::Q4DualMb32 | Kernel::Q4GusMb32 | Kernel::Q4ResMb64
        | Kernel::Q4ResMb96 | Kernel::Q4GusNrmMb32 | Kernel::Q4NrmMb32 | Kernel::Q4DualNrmMb32
        | Kernel::Q4NrmMb64 | Kernel::Q4DualNrmMb64 | Kernel::Q4GusNrmMb64 | Kernel::Q4GusNrmMb48
        | Kernel::Q4LargeRes => Some(Quant::Q4),
        Kernel::Q8 | Kernel::Q8Large | Kernel::Q8Dual | Kernel::Q8Gus | Kernel::Q8Qkv | Kernel::Q8Res
        | Kernel::Q8Mb32 | Kernel::Q8DualMb32 | Kernel::Q8GusMb32 | Kernel::Q8ResMb64
        | Kernel::Q8ResMb96 | Kernel::Q8GusNrmMb32 | Kernel::Q8NrmMb32 | Kernel::Q8DualNrmMb32
        | Kernel::Q8LargeNrm | Kernel::Q8LargeGusNrm | Kernel::Q8LargeRes | Kernel::Q8NrmMb64
        | Kernel::Q8DualNrmMb64 | Kernel::Q8GusNrmMb64 | Kernel::Q8GusNrmMb48
        | Kernel::Q8GusNrmMb64R4 | Kernel::Q8Large4Nrm | Kernel::Q8Large4GusNrm
        | Kernel::Q8Large4GusNrmGelu | Kernel::Q8Large2Res | Kernel::Q8Large4Res
        | Kernel::Q8Large8Res | Kernel::Q8Mbx16Res | Kernel::Q8Large4tRes | Kernel::Q8Large8tRes
        | Kernel::Q8Large16tRes | Kernel::Q8Mb192 => Some(Quant::Q8),
        _ => None,
    }
}

/// The launch reads its weights in the format `q`, where one is given, from
/// rows of no more blocks than its kernel caches.
pub open spec fn proper(step: StepView, q: Option<Quant>) -> bool {
    &&& within_cache(step)
    &&& match step {
        StepView::Launch { kernel, .. } => q is Some && format_of(kernel) is Some
            ==> format_of(kernel) == q,
        StepView::Barrier => true,
    }
}

/// Every launch is [`proper`].
pub open spec fn all_proper(steps: Seq<StepView>, q: Option<Quant>) -> bool {
    forall|i: int| 0 <= i < steps.len() ==> proper(#[trigger] steps[i], q)
}

/// The weights of this shape have kernels of their format: the wide path and
/// the projections before a norm read 8-bit blocks only.
pub open spec fn has_kernels(d: DecodeShape, l: LayerFusedInput) -> bool {
    d.quant == Quant::Q4 ==> d.blk_kd() <= 64 && l.post_attn_norm is None && l.post_ffw_norm is None
}

proof fn lemma_proper_sum(a: Seq<StepView>, b: Seq<StepView>, q: Option<Quant>)
    requires
        all_proper(a, q),
        all_proper(b, q),
    ensures
        all_proper(a + b, q),
{
    assert forall|i: int| 0 <= i < (a + b).len() implies proper(#[trigger] (a + b)[i], q) by {
        if i < a.len() {
            assert((a + b)[i] == a[i]);
        } else {
            assert((a + b)[i] == b[i - a.len()]);
        }
    }
}

proof fn lemma_proper_qkv(d: DecodeShape, li: int, q: Option<Quant>)
    requires
        q is Some ==> q == Some(d.quant) && (d.quant == Quant::Q4 ==> d.blk_kd() <= 64),
    ensures
        all_proper(qkv_steps(d, li), q),
{
    reveal(qkv_steps);
}

proof fn lemma_proper_biases(d: DecodeShape, li: int, l: LayerFusedInput, q: Option<Quant>)
    ensures
        all_proper(bias_steps(d, li, l), q),
{
    reveal(bias_steps);
    reveal(bias_step);
}

proof fn lemma_proper_attention(d: DecodeShape, li: int, slot: usize, scale: u32, q: Option<Quant>)
    ensures
        all_proper(attention_steps(d, li, slot, scale), q),
{
    reveal(attention_steps);
}

proof fn lemma_proper_project(
    d: DecodeShape,
    li: int,
    x: Operand,
    w: LayerTensor,
    norm: Option<LayerTensor>,
    residual: Operand,
    out: Operand,
    n_rows: u32,
    n_blocks: u32,
    large: bool,
    cached: Kernel,
    q: Option<Quant>,
)
    requires
        q is Some ==> q == Some(d.quant) && (norm is Some ==> d.quant == Quant::Q8),
        !large ==> format_of(cached) == Some(d.quant) && (cache_of(cached) matches Some(n)
            ==> n_blocks <= n),
    ensures
        all_proper(
            project_steps(d, li, x, w, norm, residual, out, n_rows, n_blocks, large, cached),
            q,
        ),
{
    reveal(project_steps);
}

proof fn lemma_proper_attention_half(
    d: DecodeShape,
    li: int,
    l: LayerFusedInput,
    slot: usize,
    q: Option<Quant>,
)
    requires
        q is Some ==> q == Some(d.quant) && has_kernels(d, l),
    ensures
        all_proper(attention_half(d, li, l, slot), q),
{
    let bar = seq![StepView::Barrier];
    let none = Seq::<StepView>::empty();
    let s0 = if li > 0 {
        bar
    } else {
        none
    };
    let s1 = qkv_steps(d, li);
    let s2 = if d.has_qkv_bias {
        bias_steps(d, li, l) + bar
    } else {
        none
    };
    let s3 = attention_steps(d, li, slot, l.attn_scale);
    let s4 = project_steps(
        d,
        li,
        Operand::Scratch(ATTN),
        LayerTensor::OProj,
        if l.post_attn_norm is Some {
            Some(LayerTensor::PostAttnNorm)
        } else {
            None
        },
        hidden_in(li),
        Operand::Scratch(HID2),
        l.o_proj.shape@[0] as u32,
        d.blk_qd(),
        d.blk_qd() > 64,
        by_quant(d.quant, Kernel::Q4ResMb64, Kernel::Q8ResMb64),
    );
    lemma_proper_qkv(d, li, q);
    lemma_proper_biases(d, li, l, q);
    lemma_proper_attention(d, li, slot, l.attn_scale, q);
    lemma_proper_project(
        d,
        li,
        Operand::Scratch(ATTN),
        LayerTensor::OProj,
        if l.post_attn_norm is Some {
            Some(LayerTensor::PostAttnNorm)
        } else {
            None
        },
        hidden_in(li),
        Operand::Scratch(HID2),
        l.o_proj.shape@[0] as u32,
        d.blk_qd(),
        d.blk_qd() > 64,
        by_quant(d.quant, Kernel::Q4ResMb64, Kernel::Q8ResMb64),
        q,
    );
    assert(all_proper(bar, q));
    assert(all_proper(none, q));
    lemma_proper_sum(bias_steps(d, li, l), bar, q);
    lemma_proper_sum(s0, s1, q);
    lemma_proper_sum(s0 + s1, bar, q);
    lemma_proper_sum(s0 + s1 + bar, s2, q);
    lemma_proper_sum(s0 + s1 + bar + s2, s3, q);
    lemma_proper_sum(s0 + s1 + bar + s2 + s3, bar, q);
    lemma_proper_sum(s0 + s1 + bar + s2 + s3 + bar, s4, q);
    lemma_proper_sum(s0 + s1 + bar + s2 + s3 + bar + s4, bar, q);
}

proof fn lemma_proper_ffn_half(d: DecodeShape, li: int, l: LayerFusedInput, q: Option<Quant>)
    requires
        q is Some ==> q == Some(d.quant) && has_kernels(d, l),
    ensures
        all_proper(ffn_half(d, li, l), q),
{
    let s0 = seq![gus_step(d, li, l.gate_proj.shape@[0] as u32), StepView::Barrier];
    let norm = if l.post_ffw_norm is Some {
        Some(LayerTensor::PostFfwNorm)
    } else {
        None
    };
    let s1 = project_steps(
        d,
        li,
        Operand::Scratch(MID),
        LayerTensor::DownProj,
        norm,
        Operand::Scratch(HID2),
        hidden_out(li),
        l.down_proj.shape@[0] as u32,
        d.blk_inter(),
        d.blk_inter() > 96,
        by_quant(d.quant, Kernel::Q4ResMb96, Kernel::Q8ResMb96),
    );
    let s2 = scale_steps(d, li, l.layer_output_scale);
    reveal(gus_step);
    reveal(scale_steps);
    lemma_proper_project(
        d,
        li,
        Operand::Scratch(MID),
        LayerTensor::DownProj,
        norm,
        Operand::Scratch(HID2),
        hidden_out(li),
        l.down_proj.shape@[0] as u32,
        d.blk_inter(),
        d.blk_inter() > 96,
        by_quant(d.quant, Kernel::Q4ResMb96, Kernel::Q8ResMb96),
        q,
    );
    assert(all_proper(s0, q));
    assert(all_proper(s2, q));
    lemma_proper_sum(s0, s1, q);
    lemma_proper_sum(s0 + s1, s2, q);
}

proof fn lemma_proper_decode(
    d: DecodeShape,
    layers: Seq<LayerFusedInput>,
    slots: spec_fn(int) -> usize,
    n: int,
    q: Option<Quant>,
)
    requires
        0 <= n <= layers.len(),
        q is Some ==> q == Some(d.quant) && forall|i: int|
            0 <= i < n ==> has_kernels(d, #[trigger] layers[i]),
    ensures
        all_proper(decode_steps(d, layers, slots, n), q),
    decreases n,
{
    if n > 0 {
        let before = decode_steps(d, layers, slots, n - 1);
        let l = layers[n - 1];
        let half = attention_half(d, n - 1, l, slots(n - 1));
        lemma_proper_decode(d, layers, slots, n - 1, q);
        lemma_proper_attention_half(d, n - 1, l, slots(n - 1), q);
        lemma_proper_ffn_half(d, n - 1, l, q);
        lemma_proper_sum(before, half, q);
        lemma_proper_sum(before + half, ffn_half(d, n - 1, l), q);
    }
}

/// No launch of a decode token has rows of more blocks than its kernel caches.
pub proof fn decode_stays_within_caches(
    d: DecodeShape,
    layers: Seq<LayerFusedInput>,
    slots: spec_fn(int) -> usize,
    n: int,
)
    requires
        0 <= n <= layers.len(),
    ensures
        within_caches(decode_steps(d, layers, slots, n)),
{
    lemma_proper_decode(d, layers, slots, n, None);
    let steps = decode_steps(d, layers, slots, n);
    assert forall|i: int| 0 <= i < steps.len() implies within_cache(#[trigger] steps[i]) by {
        assert(proper(steps[i], None));
    }
}

/// Where the layers have kernels of their format, every launch of a decode
/// token reads its weights in that format.
pub proof fn decode_launches_are_proper(
    d: DecodeShape,
    layers: Seq<LayerFusedInput>,
    slots: spec_fn(int) -> usize,
    n: int,
)
    requires
        0 <= n <= layers.len(),
        forall|i: int| 0 <= i < n ==> has_kernels(d, #[trigger] layers[i]),
    ensures
        all_proper(decode_steps(d, layers, slots, n), Some(d.quant)),
{
    lemma_proper_decode(d, layers, slots, n, Some(d.quant));
}

/// The layers that the fused path takes have kernels of their own format, but
/// for wide 4-bit layers. As far as the kernels can count the blocks of the
/// hidden state, the feed-forward uses the tanh form of the activation where
/// the layers ask for it and nowhere else.
pub proof fn decodable_layers_have_kernels(
    table: Seq<EntryView>,
    layers: Seq<LayerFusedInput>,
    past: usize,
    max_seq: u32,
    eps: u32,
)
    requires
        decodable(table, layers, past, max_seq),
    ensures
        ({
            let d = shape_of(layers, past, eps);
            &&& d.quant == Quant::Q8 || d.blk_kd() <= 64 ==> forall|i: int|
                0 <= i < layers.len() ==> has_kernels(d, #[trigger] layers[i])
            &&& d.k_dim / BLOCK <= u32::MAX ==> forall|li: int, n_rows: u32|
                (#[trigger] gus_step(d, li, n_rows)) matches StepView::Launch { kernel, .. } && (
                kernel is Q8Large4GusNrmGelu <==> d.use_gelu_tanh)
        }),
{
    let d = shape_of(layers, past, eps);
    let l0 = layers[0];
    assert(d.k_dim / BLOCK <= u32::MAX ==> d.blk_kd() == l0.q_proj.shape@[1] / BLOCK);
    if d.quant == Quant::Q8 || d.blk_kd() <= 64 {
        assert forall|i: int| 0 <= i < layers.len() implies has_kernels(
            d,
            #[trigger] layers[i],
        ) by {
            assert(uniform(layers[i], l0));
        }
    }
    reveal(gus_step);
}

/// The command buffer that runs one token, at position `past_seq_len`, through
/// all layers, or `None` where the layers must be run one by one. The entry of
/// the attention table for the layers' geometry holds a slot for each of them.
pub fn forward_decode_fused_layers(
    table: &AttnTable,
    hidden: &TensorDesc,
    layers: &Vec<LayerFusedInput>,
    past_seq_len: usize,
    max_seq: u32,
    eps: u32,
) -> (r: Option<DecodePlan>)
    requires
        forall|i: int| 0 <= i < layers@.len() ==> shaped(#[trigger] layers@[i]),
        decodable(table@, layers@, past_seq_len, max_seq) ==> {
            &&& shape_of(layers@, past_seq_len, eps).fits()
            &&& forall|i: int| 0 <= i < layers@.len() ==> norms_bound(#[trigger] layers@[i])
            &&& first_of(table@, geometry_of(layers@, max_seq), 0) is Some
            &&& forall|i: int|
                0 <= i < layers@.len() ==> table@[first_of(
                    table@,
                    geometry_of(layers@, max_seq),
                    0,
                )->0].layers.contains((#[trigger] layers@[i]).layer_idx)
        },
    ensures
        r is Some <==> decodable(table@, layers@, past_seq_len, max_seq),
        r matches Some(plan) ==> within_caches(plan.program@),
        r matches Some(plan) ==> {
            let d = shape_of(layers@, past_seq_len, eps);
            d.quant == Quant::Q8 || d.blk_kd() <= 64 ==> all_proper(plan.program@, Some(d.quant))
        },
        r matches Some(plan) ==> {
            let d = shape_of(layers@, past_seq_len, eps);
            let e = first_of(table@, geometry_of(layers@, max_seq), 0)->0;
            &&& plan.entry == e
            &&& plan.scratch@ == scratch_sizes(d)
            &&& plan.program@ == decode_steps(
                d,
                layers@,
                slots_in(layers@, table@[e].layers),
                layers@.len() as int,
            )
            &&& Operand::Scratch(plan.result) == hidden_out(layers@.len() - 1)
            &&& plan.shape@ == hidden.shape@
        },
        r matches Some(plan) ==> forall|i: int|
            0 <= i < plan.program@.len() ==> ((#[trigger] plan.program@[i]) matches StepView::Launch {
                kernel,
                params,
                ..
            } ==> {
                &&& kernel is Attn ==> params.w0 == past_seq_len + 1 && params.w1 == 0
                &&& kernel is KvAppendBoth ==> params.w0 == past_seq_len
                &&& kernel is RopeKvAttn ==> params.w0 == past_seq_len + 1 && params.w1
                    == past_seq_len
            }),
        r matches Some(plan) ==> all_told(
            plan.program@,
            Token {
                past: past_seq_len as int,
                heads: layers@[0].num_heads as int,
                kv_heads: layers@[0].kv_heads as int,
                head_dim: layers@[0].head_dim as int,
                pairs: layers@[0].rope_dim as int / 2,
                hidden: layers@[0].q_proj.shape@[1] as int,
                eps,
            },
        ),
{
    let d = match decode_shape(table, layers, past_seq_len, max_seq, eps) {
        Some(d) => d,
        None => {
            return None;
        },
    };
    let g = Geometry {
        num_heads: d.num_heads,
        kv_heads: d.kv_heads,
        head_dim: d.head_dim,
        max_seq,
    };
    assert(g == geometry_of(layers@, max_seq));
    let entry: usize = match table.find(g) {
        Some(e) => e,
        None => {
            return None;
        },
    };
    let ghost known = table@[entry as int].layers;
    let ghost slots = slots_in(layers@, known);
    let mut program = Program::new();
    let mut i: usize = 0;
    while i < layers.len()
        invariant
            i <= layers@.len(),
            d.fits(),
            entry < table@.len(),
            known == table@[entry as int].layers,
            slots == slots_in(layers@, known),
            forall|k: int| 0 <= k < layers@.len() ==> shaped(#[trigger] layers@[k]),
            forall|k: int|
                0 <= k < layers@.len() ==> known.contains((#[trigger] layers@[k]).layer_idx),
            program@ == decode_steps(d, layers@, slots, i as int),
        decreases layers@.len() - i,
    {
        let l = &layers[i];
        let slot: usize = table.slot(entry, l.layer_idx);
        assert(slots(i as int) == slot);
        let ghost before = program@;
        push_attention_half(&mut program, d, i, l, slot);
        push_ffn_half(&mut program, d, i, l);
        proof {
            let next = i + 1;
            assert(decode_steps(d, layers@, slots, next) == decode_steps(
                d,
                layers@,
                slots,
                next - 1,
            ) + attention_half(d, next - 1, layers@[next - 1], slots(next - 1)) + ffn_half(
                d,
                next - 1,
                layers@[next - 1],
            ));
        }
        i = i + 1;
    }
    assert(0 <= d.num_heads * d.head_dim) by (nonlinear_arith);
    assert(0 <= d.kv_heads * d.head_dim) by (nonlinear_arith);
    let hidden_bytes: usize = d.k_dim * 4;
    let q_bytes: usize = d.q_rows_exec() as usize * 4;
    let kv_bytes: usize = d.kv_rows_exec() as usize * 4;
    let mut scratch: Vec<usize> = vec![
        hidden_bytes,
        hidden_bytes,
        hidden_bytes,
        q_bytes,
        kv_bytes,
        kv_bytes,
        q_bytes,
        d.inter_size * 4,
    ];
    if d.has_qk_norm {
        scratch.push(q_bytes);
        scratch.push(kv_bytes);
    }
    assert(scratch@ =~= scratch_sizes(d));
    let result: usize = if (layers.len() - 1) % 2 == 0 {
        HID_B
    } else {
        HID_A
    };
    proof {
        decodable_layers_have_kernels(table@, layers@, past_seq_len, max_seq, eps);
        decode_stays_within_caches(d, layers@, slots, layers@.len() as int);
        if d.quant == Quant::Q8 || d.blk_kd() <= 64 {
            decode_launches_are_proper(d, layers@, slots, layers@.len() as int);
        }
    }
    proof {
        launches_are_told_the_position(table@, layers@, past_seq_len, max_seq, eps, slots);
        let t = Token {
            past: past_seq_len as int,
            heads: layers@[0].num_heads as int,
            kv_heads: layers@[0].kv_heads as int,
            head_dim: layers@[0].head_dim as int,
            pairs: layers@[0].rope_dim as int / 2,
            hidden: layers@[0].q_proj.shape@[1] as int,
            eps,
        };
        assert forall|i: int| 0 <= i < program@.len() implies is_told(
            #[trigger] program@[i],
            t,
        ) by {}
    }
    Some(DecodePlan { scratch, program, entry, result, shape: copy_shape(&hidden.shape) })
}

} // verus!
