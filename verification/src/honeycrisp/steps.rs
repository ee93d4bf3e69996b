//! The launches that several operations share.

use vstd::prelude::*;

use crate::plan::{
    along_x, at, bind, ceil_div, groups_of, row, Extent, Kernel, Operand, Params, Program, StepView,
};
use crate::tensor::DType;

verus! {

/// Values per block of both block formats that the fused paths take.
pub const BLOCK: usize = 32;

/// Threads of a threadgroup of sixteen SIMD groups.
pub const GROUP_THREADS: usize = 512;

/// SIMD groups of a threadgroup: rows of a kernel with one row per SIMD group.
pub const SIMDS: u32 = 16;

/// The block formats that the fused paths take.
#[derive(Clone, Copy, Debug, PartialEq, Eq, Structural)]
pub enum Quant {
    Q4,
    Q8,
}

/// The block format of an element type, if the fused paths take it.
pub open spec fn quant(dtype: DType) -> Option<Quant> {
    match dtype {
        DType::Q4 => Some(Quant::Q4),
        DType::Q8 => Some(Quant::Q8),
        _ => None,
    }
}

/// The block format of an element type, if the fused paths take it.
pub fn quant_of(dtype: DType) -> (q: Option<Quant>)
    ensures
        q == quant(dtype),
{
    match dtype {
        DType::Q4 => Some(Quant::Q4),
        DType::Q8 => Some(Quant::Q8),
        _ => None,
    }
}

/// One of two kernels by block format.
pub open spec fn by_quant(q: Quant, q4: Kernel, q8: Kernel) -> Kernel {
    match q {
        Quant::Q4 => q4,
        Quant::Q8 => q8,
    }
}

/// One of two kernels by block format.
pub fn pick(q: Quant, q4: Kernel, q8: Kernel) -> (k: Kernel)
    ensures
        k == by_quant(q, q4, q8),
{
    match q {
        Quant::Q4 => q4,
        Quant::Q8 => q8,
    }
}

/// Blocks that the default kernels cache.
pub const CACHED_BLOCKS: u32 = 128;

/// The kernel of a matmul with rows of `blocks` blocks: without a threadgroup
/// cache where the rows are wider than the cache.
pub open spec fn cached_kernel(q: Quant, blocks: u32) -> Kernel {
    if blocks > CACHED_BLOCKS {
        by_quant(q, Kernel::Q4Large, Kernel::Q8Large)
    } else {
        by_quant(q, Kernel::Q4, Kernel::Q8)
    }
}

/// The kernel of a matmul with rows of `blocks` blocks.
pub fn pick_cached(q: Quant, blocks: u32) -> (k: Kernel)
    ensures
        k == cached_kernel(q, blocks),
{
    if blocks > CACHED_BLOCKS {
        pick(q, Kernel::Q4Large, Kernel::Q8Large)
    } else {
        pick(q, Kernel::Q4, Kernel::Q8)
    }
}

/// A matmul of `batch` rows of `x` with `n_rows` rows of `n_blocks` blocks,
/// one row per SIMD group.
pub open spec fn matmul_step(
    kernel: Kernel,
    x: Operand,
    w: Operand,
    out: Operand,
    batch: u32,
    n_rows: u32,
    n_blocks: u32,
) -> StepView {
    StepView::Launch {
        kernel,
        buffers: seq![at(x), at(w), at(out)],
        params: Params { w0: batch, w1: n_rows, w2: n_blocks, w3: 0 },
        groups: along_x(ceil_div((batch * n_rows) as nat, SIMDS as nat)),
        threads: along_x(GROUP_THREADS as nat),
    }
}

/// Adds [`matmul_step`].
pub fn push_matmul(
    p: &mut Program,
    kernel: Kernel,
    x: Operand,
    w: Operand,
    out: Operand,
    batch: u32,
    n_rows: u32,
    n_blocks: u32,
)
    requires
        batch * n_rows <= u32::MAX,
    ensures
        final(p)@ == old(p)@.push(matmul_step(kernel, x, w, out, batch, n_rows, n_blocks)),
{
    assert(0 <= batch * n_rows) by (nonlinear_arith);
    p.launch(
        kernel,
        vec![bind(x), bind(w), bind(out)],
        Params { w0: batch, w1: n_rows, w2: n_blocks, w3: 0 },
        row(groups_of(batch * n_rows, SIMDS)),
        row(GROUP_THREADS),
    );
}

/// RMS normalisation of `batch` rows of width `d`, one threadgroup per row.
pub open spec fn norm_step(
    x: Operand,
    gamma: Operand,
    out: Operand,
    batch: u32,
    d: u32,
    eps: u32,
) -> StepView {
    StepView::Launch {
        kernel: Kernel::RmsNorm,
        buffers: seq![at(x), at(gamma), at(out)],
        params: Params { w0: batch, w1: d, w2: eps, w3: 0 },
        groups: along_x(batch as nat),
        threads: along_x(256),
    }
}

/// Adds [`norm_step`].
pub fn push_norm(
    p: &mut Program,
    x: Operand,
    gamma: Operand,
    out: Operand,
    batch: u32,
    d: u32,
    eps: u32,
)
    ensures
        final(p)@ == old(p)@.push(norm_step(x, gamma, out, batch, d, eps)),
{
    p.launch(
        Kernel::RmsNorm,
        vec![bind(x), bind(gamma), bind(out)],
        Params { w0: batch, w1: d, w2: eps, w3: 0 },
        row(batch as usize),
        row(256),
    );
}

/// `silu(gate) * up` over `n` elements.
pub open spec fn silu_mul_step(gate: Operand, up: Operand, out: Operand, n: u32) -> StepView {
    StepView::Launch {
        kernel: Kernel::SiluMul,
        buffers: seq![at(gate), at(up), at(out)],
        params: Params { w0: n, w1: 0, w2: 0, w3: 0 },
        groups: along_x(ceil_div(n as nat, 64)),
        threads: along_x(64),
    }
}

/// Adds [`silu_mul_step`].
pub fn push_silu_mul(p: &mut Program, gate: Operand, up: Operand, out: Operand, n: u32)
    ensures
        final(p)@ == old(p)@.push(silu_mul_step(gate, up, out, n)),
{
    p.launch(
        Kernel::SiluMul,
        vec![bind(gate), bind(up), bind(out)],
        Params { w0: n, w1: 0, w2: 0, w3: 0 },
        row(groups_of(n, 64)),
        row(64),
    );
}

/// The sum of two buffers of `n` elements, `per` threads to a threadgroup.
pub open spec fn add_step(a: Operand, b: Operand, out: Operand, n: u32, per: u32) -> StepView {
    StepView::Launch {
        kernel: Kernel::Add,
        buffers: seq![at(a), at(b), at(out)],
        params: Params { w0: n, w1: n, w2: n, w3: 0 },
        groups: along_x(ceil_div(n as nat, per as nat)),
        threads: along_x(per as nat),
    }
}

/// Adds [`add_step`].
pub fn push_add(p: &mut Program, a: Operand, b: Operand, out: Operand, n: u32, per: u32)
    requires
        per > 0,
    ensures
        final(p)@ == old(p)@.push(add_step(a, b, out, n, per)),
{
    p.launch(
        Kernel::Add,
        vec![bind(a), bind(b), bind(out)],
        Params { w0: n, w1: n, w2: n, w3: 0 },
        row(groups_of(n, per)),
        row(per as usize),
    );
}

/// Attention of every head over the first `total_seq` cache rows.
pub open spec fn attn_step(
    q: Operand,
    k_cache: Operand,
    v_cache: Operand,
    out: Operand,
    total_seq: u32,
    window: u32,
    scale: u32,
    num_heads: u32,
) -> StepView {
    StepView::Launch {
        kernel: Kernel::Attn,
        buffers: seq![at(q), at(k_cache), at(v_cache), at(out)],
        params: Params { w0: total_seq, w1: window, w2: scale, w3: 0 },
        groups: along_x(num_heads as nat),
        threads: along_x(32),
    }
}

/// Adds [`attn_step`].
pub fn push_attn(
    p: &mut Program,
    q: Operand,
    k_cache: Operand,
    v_cache: Operand,
    out: Operand,
    total_seq: u32,
    window: u32,
    scale: u32,
    num_heads: u32,
)
    ensures
        final(p)@ == old(p)@.push(
            attn_step(q, k_cache, v_cache, out, total_seq, window, scale, num_heads),
        ),
{
    p.launch(
        Kernel::Attn,
        vec![bind(q), bind(k_cache), bind(v_cache), bind(out)],
        Params { w0: total_seq, w1: window, w2: scale, w3: 0 },
        row(num_heads as usize),
        row(32),
    );
}

/// Appends one of K and V to its cache at `position`.
pub open spec fn kv_append_step(
    src: Operand,
    cache: Operand,
    position: u32,
    groups: Extent,
    threads: Extent,
) -> StepView {
    StepView::Launch {
        kernel: Kernel::KvAppend,
        buffers: seq![at(src), at(cache)],
        params: Params { w0: position, w1: 0, w2: 0, w3: 0 },
        groups,
        threads,
    }
}

/// Adds [`kv_append_step`].
pub fn push_kv_append(
    p: &mut Program,
    src: Operand,
    cache: Operand,
    position: u32,
    groups: Extent,
    threads: Extent,
)
    ensures
        final(p)@ == old(p)@.push(kv_append_step(src, cache, position, groups, threads)),
{
    p.launch(
        Kernel::KvAppend,
        vec![bind(src), bind(cache)],
        Params { w0: position, w1: 0, w2: 0, w3: 0 },
        groups,
        threads,
    );
}

} // verus!
