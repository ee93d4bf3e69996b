//! Metal kernel for the delta-rule recurrence step of GatedDeltaNet: one head
//! per threadgroup, one thread per column of the `[head_k_dim, head_v_dim]`
//! state. A thread owns its column, so a head needs no synchronisation. The
//! state is read and written in place; its owner allocates and clears it.

use vstd::prelude::*;

use crate::plan::{along_x, at, bind, row, single, Dispatch, Extent, Kernel, Operand, Params, StepView};
use crate::text::{fill, filled, filled_places_stay_filled, holds};

verus! {

/// Metal source `MSL_TEMPLATE`.
pub const MSL_TEMPLATE: &'static str = r#"
#include <metal_stdlib>
using namespace metal;

constant constexpr uint HK = __HK__u;
constant constexpr uint HV = __HV__u;

struct Dims { uint num_heads; uint pad0; uint pad1; uint pad2; };

kernel void kmain(
    device       float  *state  [[buffer(0)]],  // [num_heads, HK, HV], read-write
    device const float  *q_t    [[buffer(1)]],  // [num_heads, HK]
    device const float  *k_t    [[buffer(2)]],  // [num_heads, HK]
    device const float  *v_t    [[buffer(3)]],  // [num_heads, HV]
    device const float  *decay  [[buffer(4)]],  // [num_heads]
    device const float  *beta   [[buffer(5)]],  // [num_heads]
    device       float  *out    [[buffer(6)]],  // [num_heads, HV]
    constant     Dims   &dims   [[buffer(7)]],
    uint2                gid    [[thread_position_in_grid]]
) {
    uint hi = gid.y;
    uint j  = gid.x;
    if (hi >= dims.num_heads || j >= HV) return;

    device float *st = state + hi * HK * HV;
    device const float *q = q_t + hi * HK;
    device const float *k = k_t + hi * HK;
    float v_j = v_t[hi * HV + j];
    float decay_t = decay[hi];
    float beta_t = beta[hi];

    // Pass 1: decay column j in place, accumulate kv_mem from the
    // DECAYED values (decay must land before this read — matches
    // `recurrence_step`'s `for s in st.iter_mut() { *s *= decay_t }`
    // running before the kv_mem loop).
    float kv_mem = 0.0f;
    for (uint i = 0; i < HK; i++) {
        float decayed = st[i * HV + j] * decay_t;
        st[i * HV + j] = decayed;
        kv_mem += decayed * k[i];
    }
    float delta_j = (v_j - kv_mem) * beta_t;
    // Pass 2: rank-1 update.
    for (uint i = 0; i < HK; i++) {
        st[i * HV + j] += k[i] * delta_j;
    }
    // Pass 3: output from the just-updated state.
    float out_j = 0.0f;
    for (uint i = 0; i < HK; i++) {
        out_j += st[i * HV + j] * q[i];
    }
    out[hi * HV + j] = out_j;
}
"#;

/// The recurrence step for one head shape.
pub open spec fn msl_for_text(head_k_dim: nat, head_v_dim: nat) -> Seq<char> {
    filled(filled(MSL_TEMPLATE@, "__HK__"@, head_k_dim), "__HV__"@, head_v_dim)
}

/// The recurrence step for one head shape.
pub fn msl_for(head_k_dim: usize, head_v_dim: usize) -> (source: String)
    ensures
        source@ == msl_for_text(head_k_dim as nat, head_v_dim as nat),
        !holds(source@, "__HK__"@),
        !holds(source@, "__HV__"@),
{
    proof {
        reveal_strlit("__HK__");
        reveal_strlit("__HV__");
        filled_places_stay_filled(MSL_TEMPLATE@, "__HK__"@, head_k_dim as nat, "__HK__"@);
        let t1 = filled(MSL_TEMPLATE@, "__HK__"@, head_k_dim as nat);
        filled_places_stay_filled(t1, "__HV__"@, head_v_dim as nat, "__HK__"@);
    }
    let s1 = fill(MSL_TEMPLATE, "__HK__", head_k_dim);
    fill(s1.as_str(), "__HV__", head_v_dim)
}

/// One step for every head. Inputs are the state, q, k, v, decay and beta.
pub fn dispatch(kernel: Kernel, num_heads: u32, head_v_dim: u32) -> (d: Dispatch)
    requires
        num_heads * head_v_dim * 4 <= usize::MAX,
    ensures
        d.out_bytes == (if num_heads * head_v_dim == 0 { 4 } else { num_heads * head_v_dim * 4 }),
        d.program@ == seq![
            (StepView::Launch {
                kernel,
                buffers: seq![at(Operand::Input(0)), at(Operand::Input(1)), at(Operand::Input(2)), at(Operand::Input(3)), at(Operand::Input(4)), at(Operand::Input(5)), at(Operand::Output(0))],
                params: (Params { w0: num_heads, w1: 0, w2: 0, w3: 0 }),
                groups: (Extent { x: 1, y: num_heads as usize, z: 1 }),
                threads: along_x(head_v_dim as nat),
            }),
        ],
{
    assert(0 <= num_heads * head_v_dim) by (nonlinear_arith);
    let cells: usize = num_heads as usize * head_v_dim as usize;
    let bytes: usize = if cells == 0 { 4 } else { cells * 4 };
    single(
        bytes,
        kernel,
        vec![bind(Operand::Input(0)), bind(Operand::Input(1)), bind(Operand::Input(2)), bind(Operand::Input(3)), bind(Operand::Input(4)), bind(Operand::Input(5)), bind(Operand::Output(0))],
        Params { w0: num_heads, w1: 0, w2: 0, w3: 0 },
        Extent { x: 1, y: num_heads as usize, z: 1 },
        row(head_v_dim as usize),
    )
}

} // verus!
