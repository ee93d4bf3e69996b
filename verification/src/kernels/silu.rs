//! Metal SiLU, and in-place multiplication by a scalar.

use vstd::prelude::*;

use crate::plan::{along_x, at, bind, ceil_div, groups_of, row, single, Dispatch, Kernel, Operand, Params, StepView};
use crate::laws::decode::{just_hold, lemma_hold};

verus! {

/// Metal source `MSL`.
pub const MSL: &'static str = r#"
#include <metal_stdlib>
using namespace metal;

struct Params { uint n; uint pad0; uint pad1; uint pad2; };

kernel void kmain(
    device const float *x [[buffer(0)]],
    device float *y [[buffer(1)]],
    constant Params &params [[buffer(2)]],
    uint gid [[thread_position_in_grid]]
) {
    if (gid >= params.n) return;
    float v = x[gid];
    y[gid] = v / (1.0f + exp(-v));
}
"#;

/// In-place element-wise scalar multiply: x[i] *= scalar.
/// Buffers: 0=x (in-place), constant(1)=Scalar { value, n, pad0, pad1 }.
pub const MSL_SCALE: &'static str = r#"
#include <metal_stdlib>
using namespace metal;

struct Scalar { float value; uint n; uint pad0; uint pad1; };

kernel void kmain(
    device float            *x   [[buffer(0)]],
    constant Scalar         &sc  [[buffer(1)]],
    uint gid [[thread_position_in_grid]]
) {
    if (gid >= sc.n) return;
    x[gid] *= sc.value;
}
"#;

/// SiLU of `n` elements.
pub fn dispatch(n: u32) -> (d: Dispatch)
    requires
        n * 4 <= u32::MAX,
    ensures
        d.out_bytes == n * 4,
        d.program@ == seq![
            (StepView::Launch {
                kernel: Kernel::Silu,
                buffers: seq![at(Operand::Input(0)), at(Operand::Output(0))],
                params: (Params { w0: n, w1: 0, w2: 0, w3: 0 }),
                groups: along_x(ceil_div(n as nat, 256)),
                threads: along_x(256),
            }),
        ],
        d.program@[0] matches StepView::Launch { groups, threads, .. } && just_hold(
            groups.x as int,
            256,
            n as int,
        ) && groups.y == 1 && threads.x == 256,
{
    proof {
        lemma_hold(n as nat, 256);
    }
    single(
        (n * 4) as usize,
        Kernel::Silu,
        vec![bind(Operand::Input(0)), bind(Operand::Output(0))],
        Params { w0: n, w1: 0, w2: 0, w3: 0 },
        row(groups_of(n, 256)),
        row(256),
    )
}

} // verus!
