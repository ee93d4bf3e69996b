//! Metal rotary position embedding, with pairs `(j, j + head_dim / 2)`.
//!
//! `x` is `[n_rows, head_dim]`, flattened; each row is rotated independently.

use vstd::prelude::*;

use crate::plan::{along_x, at, bind, row, single, Dispatch, Extent, Kernel, Operand, Params, StepView};
use crate::text::{fill, filled, filled_places_stay_filled, holds};

verus! {

/// `__HEAD_DIM__` and `__HALF__` are constants so that one address offset at
/// most is a variable.
pub const MSL_TEMPLATE: &'static str = r#"
#include <metal_stdlib>
using namespace metal;

constant constexpr uint HEAD_DIM = __HEAD_DIM__u;
constant constexpr uint HALF     = __HALF__u;

struct Dims { uint n_rows; uint rope_half; uint pad0; uint pad1; };

kernel void kmain(
    device const float  *x      [[buffer(0)]],
    device const float  *cos_t  [[buffer(1)]],
    device const float  *sin_t  [[buffer(2)]],
    device       float  *y      [[buffer(3)]],
    constant     Dims   &dims   [[buffer(4)]],
    uint2                gid    [[thread_position_in_grid]]
) {
    uint row = gid.y;
    uint j   = gid.x;
    if (row >= dims.n_rows || j >= HALF) return;
    uint base = row * HEAD_DIM;

    float x1 = x[base + j];
    float x2 = x[base + j + HALF];

    if (j < dims.rope_half) {
        float c = cos_t[j];
        float s = sin_t[j];
        y[base + j]         = x1 * c - x2 * s;
        y[base + j + HALF]  = x1 * s + x2 * c;
    } else {
        y[base + j]         = x1;
        y[base + j + HALF]  = x2;
    }
}
"#;

/// Fused Q+K RoPE: single dispatch over (num_q_heads + kv_heads) rows.
/// Rows 0..num_q_heads → Q buffers; rows num_q_heads..total → K buffers.
/// Buffers: 0=xq, 1=xk, 2=cos, 3=sin, 4=yq, 5=yk, 6=dims.
/// Launch: groups=(1, num_q_heads+kv_heads, 1), threads=(HALF, 1, 1).
pub const MSL_QK: &'static str = r#"
#include <metal_stdlib>
using namespace metal;

constant constexpr uint HEAD_DIM = 128u;
constant constexpr uint HALF     = 64u;

struct Dims { uint q_rows; uint kv_rows; uint rope_half; uint pad; };

kernel void kmain(
    device const float  *xq     [[buffer(0)]],
    device const float  *xk     [[buffer(1)]],
    device const float  *cos_t  [[buffer(2)]],
    device const float  *sin_t  [[buffer(3)]],
    device       float  *yq     [[buffer(4)]],
    device       float  *yk     [[buffer(5)]],
    constant     Dims   &dims   [[buffer(6)]],
    uint2                gid    [[thread_position_in_grid]]
) {
    uint j   = gid.x;
    uint row = gid.y;
    if (j >= HALF) return;

    bool is_q   = row < dims.q_rows;
    uint lrow   = is_q ? row : row - dims.q_rows;
    uint base   = lrow * HEAD_DIM;
    device const float *xin = is_q ? xq + base : xk + base;
    device       float *yout= is_q ? yq + base : yk + base;

    float x1 = xin[j];
    float x2 = xin[j + HALF];

    if (j < dims.rope_half) {
        float c = cos_t[j], s = sin_t[j];
        yout[j]        = x1 * c - x2 * s;
        yout[j + HALF] = x1 * s + x2 * c;
    } else {
        yout[j]        = x1;
        yout[j + HALF] = x2;
    }
}
"#;

/// Fused Q+K qk_norm + RoPE in a single dispatch: eliminates qn/kn intermediate buffers.
/// Each group (one head) computes RMSNorm then applies RoPE.
/// Groups: (q_heads + kv_heads, 1, 1), Threads: (head_dim, 1, 1).
/// HEAD_DIM is a template variable — compile via msl_qk_norm_rope_for(head_dim).
/// Buffers: 0=xq, 1=xk, 2=gq, 3=gk, 4=cos, 5=sin, 6=yq, 7=yk, 8=params.
pub const MSL_QK_NORM_ROPE_TEMPLATE: &'static str = r#"
#include <metal_stdlib>
using namespace metal;

constant constexpr uint HEAD_DIM = __HEAD_DIM__u;
constant constexpr uint HALF     = __HALF__u;
constant constexpr uint N_SIMDS  = __N_SIMDS__u;  // HEAD_DIM / 32

struct ParamsNR { uint q_heads; uint kv_heads; uint rope_half; float eps; };

kernel void kmain(
    device const float   *xq    [[buffer(0)]],
    device const float   *xk    [[buffer(1)]],
    device const float   *gq    [[buffer(2)]],
    device const float   *gk    [[buffer(3)]],
    device const float   *cos_t [[buffer(4)]],
    device const float   *sin_t [[buffer(5)]],
    device       float   *yq    [[buffer(6)]],
    device       float   *yk    [[buffer(7)]],
    constant ParamsNR    &p     [[buffer(8)]],
    uint tid   [[thread_position_in_threadgroup]],
    uint lane  [[thread_index_in_simdgroup]],
    uint sgitg [[simdgroup_index_in_threadgroup]],
    uint bid   [[threadgroup_position_in_grid]]
) {
    threadgroup float shared_sq[N_SIMDS];

    bool is_q = bid < p.q_heads;
    uint lbid = is_q ? bid : bid - p.q_heads;
    device const float *x = is_q ? xq + lbid * HEAD_DIM : xk + lbid * HEAD_DIM;
    device const float *g = is_q ? gq : gk;
    device       float *y = is_q ? yq + lbid * HEAD_DIM : yk + lbid * HEAD_DIM;

    // Phase 1: RMS via simd_sum (2 barriers vs 7 for manual tree)
    float sq = (tid < HEAD_DIM) ? (x[tid] * x[tid]) : 0.0f;
    float simd_sq = simd_sum(sq);
    if (lane == 0) shared_sq[sgitg] = simd_sq;
    threadgroup_barrier(mem_flags::mem_threadgroup);
    float total_sq = (lane < N_SIMDS) ? shared_sq[lane] : 0.0f;
    float inv_rms = rsqrt(simd_sum(total_sq) / HEAD_DIM + p.eps);

    // Phase 2: norm + rope (first HALF threads handle paired elements)
    if (tid < HALF) {
        uint j = tid;
        float nj  = x[j]        * inv_rms * g[j];
        float njh = x[j + HALF] * inv_rms * g[j + HALF];
        if (j < p.rope_half) {
            float c = cos_t[j], s = sin_t[j];
            y[j]        = nj  * c - njh * s;
            y[j + HALF] = nj  * s + njh * c;
        } else {
            y[j]        = nj;
            y[j + HALF] = njh;
        }
    }
}
"#;

/// [`MSL_QK_NORM_ROPE_TEMPLATE`] for 128-wide heads.
pub const MSL_QK_NORM_ROPE: &'static str = r#"
#include <metal_stdlib>
using namespace metal;

constant constexpr uint HEAD_DIM = 128u;
constant constexpr uint HALF     = 64u;
constant constexpr uint N_SIMDS  = 4u;

struct ParamsNR { uint q_heads; uint kv_heads; uint rope_half; float eps; };

kernel void kmain(
    device const float   *xq    [[buffer(0)]],
    device const float   *xk    [[buffer(1)]],
    device const float   *gq    [[buffer(2)]],
    device const float   *gk    [[buffer(3)]],
    device const float   *cos_t [[buffer(4)]],
    device const float   *sin_t [[buffer(5)]],
    device       float   *yq    [[buffer(6)]],
    device       float   *yk    [[buffer(7)]],
    constant ParamsNR    &p     [[buffer(8)]],
    uint tid   [[thread_position_in_threadgroup]],
    uint lane  [[thread_index_in_simdgroup]],
    uint sgitg [[simdgroup_index_in_threadgroup]],
    uint bid   [[threadgroup_position_in_grid]]
) {
    threadgroup float shared_sq[N_SIMDS];

    bool is_q = bid < p.q_heads;
    uint lbid = is_q ? bid : bid - p.q_heads;
    device const float *x = is_q ? xq + lbid * HEAD_DIM : xk + lbid * HEAD_DIM;
    device const float *g = is_q ? gq : gk;
    device       float *y = is_q ? yq + lbid * HEAD_DIM : yk + lbid * HEAD_DIM;

    float sq = (tid < HEAD_DIM) ? (x[tid] * x[tid]) : 0.0f;
    float simd_sq = simd_sum(sq);
    if (lane == 0) shared_sq[sgitg] = simd_sq;
    threadgroup_barrier(mem_flags::mem_threadgroup);
    float total_sq = (lane < N_SIMDS) ? shared_sq[lane] : 0.0f;
    float inv_rms = rsqrt(simd_sum(total_sq) / HEAD_DIM + p.eps);

    if (tid < HALF) {
        uint j = tid;
        float nj  = x[j]        * inv_rms * g[j];
        float njh = x[j + HALF] * inv_rms * g[j + HALF];
        if (j < p.rope_half) {
            float c = cos_t[j], s = sin_t[j];
            y[j]        = nj  * c - njh * s;
            y[j + HALF] = nj  * s + njh * c;
        } else {
            y[j]        = nj;
            y[j + HALF] = njh;
        }
    }
}
"#;

/// [`MSL_TEMPLATE`] for 128-wide heads.
pub const MSL: &'static str = r#"
#include <metal_stdlib>
using namespace metal;

constant constexpr uint HEAD_DIM = 128u;
constant constexpr uint HALF     = 64u;

struct Dims { uint n_rows; uint rope_half; uint pad0; uint pad1; };

kernel void kmain(
    device const float  *x      [[buffer(0)]],
    device const float  *cos_t  [[buffer(1)]],
    device const float  *sin_t  [[buffer(2)]],
    device       float  *y      [[buffer(3)]],
    constant     Dims   &dims   [[buffer(4)]],
    uint2                gid    [[thread_position_in_grid]]
) {
    uint row = gid.y;
    uint j   = gid.x;
    if (row >= dims.n_rows || j >= HALF) return;
    uint base = row * HEAD_DIM;

    float x1 = x[base + j];
    float x2 = x[base + j + HALF];

    if (j < dims.rope_half) {
        float c = cos_t[j];
        float s = sin_t[j];
        y[base + j]         = x1 * c - x2 * s;
        y[base + j + HALF]  = x1 * s + x2 * c;
    } else {
        y[base + j]         = x1;
        y[base + j + HALF]  = x2;
    }
}
"#;

/// Head normalisation and rotation for one head width.
pub open spec fn msl_qk_norm_rope_for_text(head_dim: nat) -> Seq<char> {
    filled(filled(filled(MSL_QK_NORM_ROPE_TEMPLATE@, "__HEAD_DIM__"@, head_dim), "__HALF__"@, head_dim / 2), "__N_SIMDS__"@, head_dim / 32)
}

/// Head normalisation and rotation for one head width.
pub fn msl_qk_norm_rope_for(head_dim: usize) -> (source: String)
    ensures
        source@ == msl_qk_norm_rope_for_text(head_dim as nat),
        !holds(source@, "__HEAD_DIM__"@),
        !holds(source@, "__HALF__"@),
        !holds(source@, "__N_SIMDS__"@),
{
    proof {
        reveal_strlit("__HEAD_DIM__");
        reveal_strlit("__HALF__");
        reveal_strlit("__N_SIMDS__");
        filled_places_stay_filled(MSL_QK_NORM_ROPE_TEMPLATE@, "__HEAD_DIM__"@, head_dim as nat, "__HEAD_DIM__"@);
        let t1 = filled(MSL_QK_NORM_ROPE_TEMPLATE@, "__HEAD_DIM__"@, head_dim as nat);
        filled_places_stay_filled(t1, "__HALF__"@, (head_dim / 2) as nat, "__HEAD_DIM__"@);
        let t2 = filled(t1, "__HALF__"@, (head_dim / 2) as nat);
        filled_places_stay_filled(t2, "__N_SIMDS__"@, (head_dim / 32) as nat, "__HEAD_DIM__"@);
        filled_places_stay_filled(t2, "__N_SIMDS__"@, (head_dim / 32) as nat, "__HALF__"@);
    }
    let s1 = fill(MSL_QK_NORM_ROPE_TEMPLATE, "__HEAD_DIM__", head_dim);
    let s2 = fill(s1.as_str(), "__HALF__", head_dim / 2);
    fill(s2.as_str(), "__N_SIMDS__", head_dim / 32)
}

/// Rotation for one head width.
pub open spec fn msl_for_text(head_dim: nat) -> Seq<char> {
    filled(filled(MSL_TEMPLATE@, "__HEAD_DIM__"@, head_dim), "__HALF__"@, head_dim / 2)
}

/// Rotation for one head width.
pub fn msl_for(head_dim: usize) -> (source: String)
    ensures
        source@ == msl_for_text(head_dim as nat),
        !holds(source@, "__HEAD_DIM__"@),
        !holds(source@, "__HALF__"@),
{
    proof {
        reveal_strlit("__HEAD_DIM__");
        reveal_strlit("__HALF__");
        filled_places_stay_filled(MSL_TEMPLATE@, "__HEAD_DIM__"@, head_dim as nat, "__HEAD_DIM__"@);
        let t1 = filled(MSL_TEMPLATE@, "__HEAD_DIM__"@, head_dim as nat);
        filled_places_stay_filled(t1, "__HALF__"@, (head_dim / 2) as nat, "__HEAD_DIM__"@);
    }
    let s1 = fill(MSL_TEMPLATE, "__HEAD_DIM__", head_dim);
    fill(s1.as_str(), "__HALF__", head_dim / 2)
}

/// Rotates `n_rows` heads of width `head_dim`, `rope_dim / 2` pairs of each.
pub fn dispatch(n_rows: u32, head_dim: u32, rope_dim: u32) -> (d: Dispatch)
    requires
        n_rows * head_dim * 4 <= usize::MAX,
    ensures
        d.out_bytes == (if n_rows * head_dim == 0 { 4 } else { n_rows * head_dim * 4 }),
        d.program@ == seq![
            (StepView::Launch {
                kernel: Kernel::Rope,
                buffers: seq![at(Operand::Input(0)), at(Operand::Input(1)), at(Operand::Input(2)), at(Operand::Output(0))],
                params: (Params { w0: n_rows, w1: rope_dim / 2, w2: 0, w3: 0 }),
                groups: (Extent { x: 1, y: n_rows as usize, z: 1 }),
                threads: along_x((head_dim / 2) as nat),
            }),
        ],
{
    assert(0 <= n_rows * head_dim) by (nonlinear_arith);
    let cells: usize = n_rows as usize * head_dim as usize;
    let bytes: usize = if cells == 0 { 4 } else { cells * 4 };
    single(
        bytes,
        Kernel::Rope,
        vec![bind(Operand::Input(0)), bind(Operand::Input(1)), bind(Operand::Input(2)), bind(Operand::Output(0))],
        Params { w0: n_rows, w1: rope_dim / 2, w2: 0, w3: 0 },
        Extent { x: 1, y: n_rows as usize, z: 1 },
        row((head_dim / 2) as usize),
    )
}

} // verus!
