//! Metal element-wise addition and SiLU-gated product.
//!
//! Inputs and outputs are single-precision. The kernels index linearly; an
//! operand that is shorter than the result repeats.

use vstd::prelude::*;

use crate::plan::{along_x, at, bind, ceil_div, groups_of, row, single, Dispatch, Kernel, Operand, Params, StepView};
use crate::laws::decode::{just_hold, lemma_hold};

verus! {

/// `y[i] = a[i % a_len] + b[i % b_len]`.
pub const ADD_MSL: &'static str = r#"
#include <metal_stdlib>
using namespace metal;

struct Params { uint n; uint a_len; uint b_len; uint pad; };

// y[i] = a[i % a_len] + b[i % b_len]. With a_len == b_len == n, this is plain
// element-wise. With b_len == 1 (or smaller), broadcasts.
kernel void kmain(
    device const float *a [[buffer(0)]],
    device const float *b [[buffer(1)]],
    device       float *y [[buffer(2)]],
    constant   Params &p   [[buffer(3)]],
    uint gid [[thread_position_in_grid]]
) {
    if (gid >= p.n) return;
    float av = a[gid % p.a_len];
    float bv = b[gid % p.b_len];
    y[gid] = av + bv;
}
"#;

/// `y[i] = silu(gate[i]) * up[i]`.
pub const SILU_MUL_MSL: &'static str = r#"
#include <metal_stdlib>
using namespace metal;

struct Params { uint n; uint pad0; uint pad1; uint pad2; };

// y[i] = silu(gate[i]) * up[i],  silu(x) = x / (1 + exp(-x)).
kernel void kmain(
    device const float *gate [[buffer(0)]],
    device const float *up   [[buffer(1)]],
    device       float *y    [[buffer(2)]],
    constant   Params &p     [[buffer(3)]],
    uint gid [[thread_position_in_grid]]
) {
    if (gid >= p.n) return;
    float g = gate[gid];
    float u = up[gid];
    float s = g / (1.0f + exp(-g));
    y[gid] = s * u;
}
"#;

/// Sum of two buffers of `a_len` and `b_len` elements, `n` results.
pub fn dispatch_add(n: u32, a_len: u32, b_len: u32) -> (d: Dispatch)
    requires
        n * 4 <= u32::MAX,
    ensures
        d.out_bytes == n * 4,
        d.program@ == seq![
            (StepView::Launch {
                kernel: Kernel::Add,
                buffers: seq![at(Operand::Input(0)), at(Operand::Input(1)), at(Operand::Output(0))],
                params: (Params { w0: n, w1: a_len, w2: b_len, w3: 0 }),
                groups: along_x(ceil_div(n as nat, 64)),
                threads: along_x(64),
            }),
        ],
        d.program@[0] matches StepView::Launch { groups, threads, .. } && just_hold(
            groups.x as int,
            64,
            n as int,
        ) && groups.y == 1 && threads.x == 64,
{
    proof {
        lemma_hold(n as nat, 64);
    }
    single(
        (n * 4) as usize,
        Kernel::Add,
        vec![bind(Operand::Input(0)), bind(Operand::Input(1)), bind(Operand::Output(0))],
        Params { w0: n, w1: a_len, w2: b_len, w3: 0 },
        row(groups_of(n, 64)),
        row(64),
    )
}

/// `silu(gate) * up` over `n` elements.
pub fn dispatch_silu_mul(n: u32) -> (d: Dispatch)
    requires
        n * 4 <= u32::MAX,
    ensures
        d.out_bytes == n * 4,
        d.program@ == seq![
            (StepView::Launch {
                kernel: Kernel::SiluMul,
                buffers: seq![at(Operand::Input(0)), at(Operand::Input(1)), at(Operand::Output(0))],
                params: (Params { w0: n, w1: 0, w2: 0, w3: 0 }),
                groups: along_x(ceil_div(n as nat, 64)),
                threads: along_x(64),
            }),
        ],
        d.program@[0] matches StepView::Launch { groups, threads, .. } && just_hold(
            groups.x as int,
            64,
            n as int,
        ) && groups.y == 1 && threads.x == 64,
{
    proof {
        lemma_hold(n as nat, 64);
    }
    single(
        (n * 4) as usize,
        Kernel::SiluMul,
        vec![bind(Operand::Input(0)), bind(Operand::Input(1)), bind(Operand::Output(0))],
        Params { w0: n, w1: 0, w2: 0, w3: 0 },
        row(groups_of(n, 64)),
        row(64),
    )
}

} // verus!
