//! Metal matmul of single-precision operands: `y = x @ W^T`.

use vstd::prelude::*;

use crate::plan::{along_x, at, bind, ceil_div, groups_of, row, single, Dispatch, Kernel, Operand, Params, StepView};
use crate::laws::decode::{just_hold, lemma_hold};

verus! {

/// Metal source `MSL`.
pub const MSL: &'static str = r#"
#include <metal_stdlib>
using namespace metal;

struct Params {
    uint batch;
    uint n;
    uint k;
    uint pad;
};

kernel void kmain(
    device const float *x [[buffer(0)]],
    device const float *w [[buffer(1)]],
    device float *y [[buffer(2)]],
    constant Params &params [[buffer(3)]],
    uint gid [[thread_position_in_grid]]
) {
    uint total = params.batch * params.n;
    if (gid >= total) return;
    uint b = gid / params.n;
    uint i = gid % params.n;
    float acc = 0.0f;
    for (uint j = 0; j < params.k; j++) {
        acc += x[b * params.k + j] * w[i * params.k + j];
    }
    y[gid] = acc;
}
"#;

/// `batch` rows of `k` against `n` rows of `k`.
pub fn dispatch(batch: u32, n: u32, k: u32) -> (d: Dispatch)
    requires
        batch * n * 4 <= u32::MAX,
    ensures
        d.out_bytes == batch * n * 4,
        d.program@ == seq![
            (StepView::Launch {
                kernel: Kernel::Matmul,
                buffers: seq![at(Operand::Input(0)), at(Operand::Input(1)), at(Operand::Output(0))],
                params: (Params { w0: batch, w1: n, w2: k, w3: 0 }),
                groups: along_x(ceil_div((batch * n) as nat, 64)),
                threads: along_x(64),
            }),
        ],
        d.program@[0] matches StepView::Launch { groups, threads, .. } && just_hold(
            groups.x as int,
            64,
            batch * n,
        ) && groups.y == 1 && threads.x == 64,
{
    proof {
        assert(batch * n >= 0) by (nonlinear_arith);
        lemma_hold((batch * n) as nat, 64);
    }
    assert(0 <= batch * n) by (nonlinear_arith);
    let total: u32 = batch * n;
    single(
        (total * 4) as usize,
        Kernel::Matmul,
        vec![bind(Operand::Input(0)), bind(Operand::Input(1)), bind(Operand::Output(0))],
        Params { w0: batch, w1: n, w2: k, w3: 0 },
        row(groups_of(total, 64)),
        row(64),
    )
}

} // verus!
