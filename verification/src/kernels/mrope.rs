//! Metal rotation for interleaved multi-axis rotary embedding.
//!
//! `rope_dim` is a contiguous prefix of the head: halves of `x[..rope_dim]` are
//! paired at `rope_dim / 2`, and `x[rope_dim..]` passes through. `cos` and `sin`
//! hold the frequencies of one token, `[rope_dim]` each.

use vstd::prelude::*;

use crate::plan::{along_x, at, bind, row, single, Dispatch, Extent, Kernel, Operand, Params, StepView};
use crate::text::{fill, filled, filled_places_stay_filled, holds};

verus! {

/// Metal source `MSL_TEMPLATE`.
pub const MSL_TEMPLATE: &'static str = r#"
#include <metal_stdlib>
using namespace metal;

constant constexpr uint HEAD_DIM = __HEAD_DIM__u;
constant constexpr uint ROPE_DIM = __ROPE_DIM__u;
constant constexpr uint ROPE_HALF = __ROPE_HALF__u;

struct Dims { uint n_rows; uint pad0; uint pad1; uint pad2; };

kernel void kmain(
    device const float  *x      [[buffer(0)]],
    device const float  *cos_t  [[buffer(1)]],
    device const float  *sin_t  [[buffer(2)]],
    device       float  *y      [[buffer(3)]],
    constant     Dims   &dims   [[buffer(4)]],
    uint2                gid    [[thread_position_in_grid]]
) {
    uint row = gid.y;
    uint d   = gid.x;
    if (row >= dims.n_rows || d >= HEAD_DIM) return;
    uint base = row * HEAD_DIM;

    if (d >= ROPE_DIM) {
        y[base + d] = x[base + d];
        return;
    }
    if (d < ROPE_HALF) {
        float x1 = x[base + d];
        float x2 = x[base + d + ROPE_HALF];
        float c = cos_t[d];
        float s = sin_t[d];
        y[base + d] = x1 * c - x2 * s;
    } else {
        uint j = d - ROPE_HALF;
        float x1 = x[base + j];
        float x2 = x[base + j + ROPE_HALF];
        float c = cos_t[d];
        float s = sin_t[d];
        y[base + d] = x2 * c + x1 * s;
    }
}
"#;

/// Rotation for one head width and rotary prefix.
pub open spec fn msl_for_text(head_dim: nat, rope_dim: nat) -> Seq<char> {
    filled(filled(filled(MSL_TEMPLATE@, "__HEAD_DIM__"@, head_dim), "__ROPE_DIM__"@, rope_dim), "__ROPE_HALF__"@, rope_dim / 2)
}

/// Rotation for one head width and rotary prefix.
pub fn msl_for(head_dim: usize, rope_dim: usize) -> (source: String)
    ensures
        source@ == msl_for_text(head_dim as nat, rope_dim as nat),
        !holds(source@, "__HEAD_DIM__"@),
        !holds(source@, "__ROPE_DIM__"@),
        !holds(source@, "__ROPE_HALF__"@),
{
    proof {
        reveal_strlit("__HEAD_DIM__");
        reveal_strlit("__ROPE_DIM__");
        reveal_strlit("__ROPE_HALF__");
        filled_places_stay_filled(MSL_TEMPLATE@, "__HEAD_DIM__"@, head_dim as nat, "__HEAD_DIM__"@);
        let t1 = filled(MSL_TEMPLATE@, "__HEAD_DIM__"@, head_dim as nat);
        filled_places_stay_filled(t1, "__ROPE_DIM__"@, rope_dim as nat, "__HEAD_DIM__"@);
        let t2 = filled(t1, "__ROPE_DIM__"@, rope_dim as nat);
        filled_places_stay_filled(t2, "__ROPE_HALF__"@, (rope_dim / 2) as nat, "__HEAD_DIM__"@);
        filled_places_stay_filled(t2, "__ROPE_HALF__"@, (rope_dim / 2) as nat, "__ROPE_DIM__"@);
    }
    let s1 = fill(MSL_TEMPLATE, "__HEAD_DIM__", head_dim);
    let s2 = fill(s1.as_str(), "__ROPE_DIM__", rope_dim);
    fill(s2.as_str(), "__ROPE_HALF__", rope_dim / 2)
}

/// Rotates `n_rows` heads of width `head_dim`.
pub fn dispatch(kernel: Kernel, n_rows: u32, head_dim: u32) -> (d: Dispatch)
    requires
        n_rows * head_dim * 4 <= usize::MAX,
    ensures
        d.out_bytes == (if n_rows * head_dim == 0 { 4 } else { n_rows * head_dim * 4 }),
        d.program@ == seq![
            (StepView::Launch {
                kernel,
                buffers: seq![at(Operand::Input(0)), at(Operand::Input(1)), at(Operand::Input(2)), at(Operand::Output(0))],
                params: (Params { w0: n_rows, w1: 0, w2: 0, w3: 0 }),
                groups: (Extent { x: 1, y: n_rows as usize, z: 1 }),
                threads: along_x(head_dim as nat),
            }),
        ],
{
    assert(0 <= n_rows * head_dim) by (nonlinear_arith);
    let cells: usize = n_rows as usize * head_dim as usize;
    let bytes: usize = if cells == 0 { 4 } else { cells * 4 };
    single(
        bytes,
        kernel,
        vec![bind(Operand::Input(0)), bind(Operand::Input(1)), bind(Operand::Input(2)), bind(Operand::Output(0))],
        Params { w0: n_rows, w1: 0, w2: 0, w3: 0 },
        Extent { x: 1, y: n_rows as usize, z: 1 },
        row(head_dim as usize),
    )
}

} // verus!
