//! Small Metal kernels of the GatedDeltaNet block for one decode token: causal
//! depthwise convolution with SiLU, preparation of q, k and the gates, and the
//! gated normalisation. The reduced widths are multiples of 32, at most 1024.

use vstd::prelude::*;

use crate::text::{fill, filled, filled_places_stay_filled, holds};

verus! {

/// `x`: this token's projected mixed_qkv `[channels]`; `w`: `[channels, KSZ]`;
/// `hist`: `[channels, KSZ-1]` oldest→newest, updated in place; `y`: `[channels]`.
pub const CONV_SILU_TEMPLATE: &'static str = r#"
#include <metal_stdlib>
using namespace metal;

constant constexpr uint KSZ = __KSZ__u;

struct Dims { uint channels; uint pad0; uint pad1; uint pad2; };

kernel void kmain(
    device const float *x    [[buffer(0)]],
    device const float *w    [[buffer(1)]],
    device       float *hist [[buffer(2)]],
    device       float *y    [[buffer(3)]],
    constant     Dims  &dims [[buffer(4)]],
    uint c [[thread_position_in_grid]]
) {
    if (c >= dims.channels) return;
    device       float *h  = hist + c * (KSZ - 1u);
    device const float *wc = w + c * KSZ;
    float xc = x[c];
    // Extended timeline [hist(KSZ-1) ++ x]: tap k < KSZ-1 reads hist[k],
    // the newest tap reads x.
    float acc = wc[KSZ - 1u] * xc;
    for (uint k = 0; k + 1u < KSZ; k++) acc += wc[k] * h[k];
    y[c] = acc / (1.0f + exp(-acc));
    // New history = trailing KSZ-1 of the extended timeline.
    for (uint k = 0; k + 2u < KSZ; k++) h[k] = h[k + 1u];
    h[KSZ - 2u] = xc;
}
"#;

/// One threadgroup per v-head (HK threads). `y` is the conv output laid out
/// `[q(kd) | k(kd) | v(vd)]`; q/k for v-head `hi` come from k-head `hi / RATIO`.
pub const PREP_TEMPLATE: &'static str = r#"
#include <metal_stdlib>
using namespace metal;

constant constexpr uint HK    = __HK__u;
constant constexpr uint NSG   = __NSG__u;   // HK / 32 simdgroups per threadgroup
constant constexpr uint RATIO = __RATIO__u; // num_v_heads / num_k_heads

struct Dims { uint kd; uint num_heads; float q_scale; float l2_eps; };

kernel void kmain(
    device const float *y       [[buffer(0)]],
    device const float *b       [[buffer(1)]],
    device const float *a       [[buffer(2)]],
    device const float *a_log   [[buffer(3)]],
    device const float *dt_bias [[buffer(4)]],
    device       float *q_h     [[buffer(5)]],
    device       float *k_h     [[buffer(6)]],
    device       float *decay   [[buffer(7)]],
    device       float *beta    [[buffer(8)]],
    constant     Dims  &dims    [[buffer(9)]],
    uint hi   [[threadgroup_position_in_grid]],
    uint i    [[thread_position_in_threadgroup]],
    uint lane [[thread_index_in_simdgroup]],
    uint sg   [[simdgroup_index_in_threadgroup]]
) {
    threadgroup float pq[NSG];
    threadgroup float pk[NSG];
    uint src = hi / RATIO;
    float qv = y[src * HK + i];
    float kv = y[dims.kd + src * HK + i];
    float sq = simd_sum(qv * qv);
    float sk = simd_sum(kv * kv);
    if (lane == 0) { pq[sg] = sq; pk[sg] = sk; }
    threadgroup_barrier(mem_flags::mem_threadgroup);
    float tq = 0.0f, tk = 0.0f;
    for (uint s = 0; s < NSG; s++) { tq += pq[s]; tk += pk[s]; }
    float inv_q = rsqrt(tq + dims.l2_eps);
    float inv_k = rsqrt(tk + dims.l2_eps);
    q_h[hi * HK + i] = qv * inv_q * dims.q_scale;
    k_h[hi * HK + i] = kv * inv_k;
    if (i == 0) {
        float bb = b[hi];
        beta[hi] = 1.0f / (1.0f + exp(-bb));
        float aa = a[hi] + dt_bias[hi];
        float sp = (aa > 20.0f) ? aa : log(1.0f + exp(aa));
        decay[hi] = exp(-exp(a_log[hi]) * sp);
    }
}
"#;

/// One threadgroup per v-head (HV threads). `out`: recurrence output
/// `[num_heads, HV]`; `z`: `[num_heads * HV]`; `norm_w`: `[HV]`.
pub const GATED_NORM_TEMPLATE: &'static str = r#"
#include <metal_stdlib>
using namespace metal;

constant constexpr uint HV  = __HV__u;
constant constexpr uint NSG = __NSG__u;   // HV / 32

struct Dims { uint num_heads; float eps; uint pad0; uint pad1; };

kernel void kmain(
    device const float *out    [[buffer(0)]],
    device const float *z      [[buffer(1)]],
    device const float *norm_w [[buffer(2)]],
    device       float *gated  [[buffer(3)]],
    constant     Dims  &dims   [[buffer(4)]],
    uint hi   [[threadgroup_position_in_grid]],
    uint j    [[thread_position_in_threadgroup]],
    uint lane [[thread_index_in_simdgroup]],
    uint sg   [[simdgroup_index_in_threadgroup]]
) {
    threadgroup float p[NSG];
    uint idx = hi * HV + j;
    float r = out[idx];
    float s = simd_sum(r * r);
    if (lane == 0) p[sg] = s;
    threadgroup_barrier(mem_flags::mem_threadgroup);
    float t = 0.0f;
    for (uint k = 0; k < NSG; k++) t += p[k];
    float inv = rsqrt(t / float(HV) + dims.eps);
    float zz = z[idx];
    gated[idx] = r * inv * norm_w[j] * (zz / (1.0f + exp(-zz)));
}
"#;

/// Convolution and SiLU for one kernel size.
pub open spec fn msl_conv_silu_text(kernel_size: nat) -> Seq<char> {
    filled(CONV_SILU_TEMPLATE@, "__KSZ__"@, kernel_size)
}

/// Convolution and SiLU for one kernel size.
pub fn msl_conv_silu(kernel_size: usize) -> (source: String)
    ensures
        source@ == msl_conv_silu_text(kernel_size as nat),
        !holds(source@, "__KSZ__"@),
{
    proof {
        reveal_strlit("__KSZ__");
        filled_places_stay_filled(CONV_SILU_TEMPLATE@, "__KSZ__"@, kernel_size as nat, "__KSZ__"@);
    }
    fill(CONV_SILU_TEMPLATE, "__KSZ__", kernel_size)
}

/// Preparation for one key width and head ratio.
pub open spec fn msl_prep_text(head_k_dim: nat, ratio: nat) -> Seq<char> {
    filled(filled(filled(PREP_TEMPLATE@, "__HK__"@, head_k_dim), "__NSG__"@, head_k_dim / 32), "__RATIO__"@, ratio)
}

/// Preparation for one key width and head ratio.
pub fn msl_prep(head_k_dim: usize, ratio: usize) -> (source: String)
    ensures
        source@ == msl_prep_text(head_k_dim as nat, ratio as nat),
        !holds(source@, "__HK__"@),
        !holds(source@, "__NSG__"@),
        !holds(source@, "__RATIO__"@),
{
    proof {
        reveal_strlit("__HK__");
        reveal_strlit("__NSG__");
        reveal_strlit("__RATIO__");
        filled_places_stay_filled(PREP_TEMPLATE@, "__HK__"@, head_k_dim as nat, "__HK__"@);
        let t1 = filled(PREP_TEMPLATE@, "__HK__"@, head_k_dim as nat);
        filled_places_stay_filled(t1, "__NSG__"@, (head_k_dim / 32) as nat, "__HK__"@);
        let t2 = filled(t1, "__NSG__"@, (head_k_dim / 32) as nat);
        filled_places_stay_filled(t2, "__RATIO__"@, ratio as nat, "__HK__"@);
        filled_places_stay_filled(t2, "__RATIO__"@, ratio as nat, "__NSG__"@);
    }
    let s1 = fill(PREP_TEMPLATE, "__HK__", head_k_dim);
    let s2 = fill(s1.as_str(), "__NSG__", head_k_dim / 32);
    fill(s2.as_str(), "__RATIO__", ratio)
}

/// Gated normalisation for one value width.
pub open spec fn msl_gated_norm_text(head_v_dim: nat) -> Seq<char> {
    filled(filled(GATED_NORM_TEMPLATE@, "__HV__"@, head_v_dim), "__NSG__"@, head_v_dim / 32)
}

/// Gated normalisation for one value width.
pub fn msl_gated_norm(head_v_dim: usize) -> (source: String)
    ensures
        source@ == msl_gated_norm_text(head_v_dim as nat),
        !holds(source@, "__HV__"@),
        !holds(source@, "__NSG__"@),
{
    proof {
        reveal_strlit("__HV__");
        reveal_strlit("__NSG__");
        filled_places_stay_filled(GATED_NORM_TEMPLATE@, "__HV__"@, head_v_dim as nat, "__HV__"@);
        let t1 = filled(GATED_NORM_TEMPLATE@, "__HV__"@, head_v_dim as nat);
        filled_places_stay_filled(t1, "__NSG__"@, (head_v_dim / 32) as nat, "__HV__"@);
    }
    let s1 = fill(GATED_NORM_TEMPLATE, "__HV__", head_v_dim);
    fill(s1.as_str(), "__NSG__", head_v_dim / 32)
}

/// Parameter block of the convolution kernel.
#[derive(Clone, Copy, Debug, PartialEq, Eq, Structural)]
pub struct ConvDims {
    pub channels: u32,
    pub pad0: u32,
    pub pad1: u32,
    pub pad2: u32,
}

/// Parameter block of the preparation kernel; `q_scale` and `l2_eps` are the
/// bit patterns of single-precision floats.
#[derive(Clone, Copy, Debug, PartialEq, Eq, Structural)]
pub struct PrepDims {
    pub kd: u32,
    pub num_heads: u32,
    pub q_scale: u32,
    pub l2_eps: u32,
}

/// Parameter block of the gated normalisation; `eps` is the bit pattern of a
/// single-precision float.
#[derive(Clone, Copy, Debug, PartialEq, Eq, Structural)]
pub struct GatedNormDims {
    pub num_heads: u32,
    pub eps: u32,
    pub pad0: u32,
    pub pad1: u32,
}

} // verus!
