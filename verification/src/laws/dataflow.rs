//! Command buffers by what they compute: the value that each buffer holds
//! after the launches, as a term over the values before them.

use vstd::prelude::*;

use crate::laws::decode::just_hold;
use crate::plan::{Binding, Kernel, Operand, Params, StepView};

verus! {

/// How a value is made of others.
pub enum How {
    /// Rows divided by their root mean square, times the gains.
    Norm { rows: int, width: int, eps: u32 },
    /// Rows of the first times the transposed second.
    Product { batch: int, rows: int, width: int },
    /// The sum of two.
    Sum { count: int },
    /// The first activated, times the second.
    Gated { tanh: bool },
    /// Every head divided by its root mean square, times the gains.
    HeadNorm { heads: int, eps: u32 },
    /// Every head rotated by the tables, from these places on.
    Rotation { cos: Binding, sin: Binding },
    /// The cache with the new row.
    Append { position: int },
    /// Queries over the first rows of the caches.
    Attention { length: int, window: int, scale: u32 },
    Scaling { by: u32 },
    /// Activated.
    Silu { count: int },
}

/// The value of a buffer.
pub enum Value {
    /// What the buffer held before the first launch.
    Held(Operand),
    Made(How, Seq<Value>),
    /// A buffer that is read from another place than its start.
    Part(Binding),
}

/// The values of all buffers.
pub type Store = Map<Operand, Value>;

/// What a kernel computes.
pub enum Sort {
    Product { block: int },
    NormProduct,
    NormTwoProducts,
    NormGated { tanh: bool },
    ProductSum,
    Norm,
    Sum,
    SiluMul,
    Append,
    AppendBoth,
    Attend,
    RotateAppendAttend,
    NormRotate,
    Scale,
    Silu,
    Other,
}

/// What the kernels of the command buffers compute.
pub open spec fn sort_of(k: Kernel) -> Sort {
    match k {
        Kernel::Q4 | Kernel::Q8 | Kernel::Q4Large | Kernel::Q8Large | Kernel::Q8Mb192 => Sort::Product {
            block: 32,
        },
        Kernel::Q4k | Kernel::Q6k => Sort::Product { block: 256 },
        Kernel::Matmul => Sort::Product { block: 1 },
        Kernel::Q4NrmMb32 | Kernel::Q8NrmMb32 | Kernel::Q4NrmMb64 | Kernel::Q8NrmMb64
        | Kernel::Q8Large4Nrm => Sort::NormProduct,
        Kernel::Q4DualNrmMb32 | Kernel::Q8DualNrmMb32 | Kernel::Q4DualNrmMb64
        | Kernel::Q8DualNrmMb64 => Sort::NormTwoProducts,
        Kernel::Q4GusNrmMb32 | Kernel::Q8GusNrmMb32 | Kernel::Q4GusNrmMb48
        | Kernel::Q8GusNrmMb48 | Kernel::Q4GusNrmMb64 | Kernel::Q8GusNrmMb64
        | Kernel::Q8Large4GusNrm => Sort::NormGated { tanh: false },
        Kernel::Q8Large4GusNrmGelu => Sort::NormGated { tanh: true },
        Kernel::Q4ResMb64 | Kernel::Q8ResMb64 | Kernel::Q4ResMb96 | Kernel::Q8ResMb96
        | Kernel::Q4LargeRes | Kernel::Q8Large4Res => Sort::ProductSum,
        Kernel::RmsNorm => Sort::Norm,
        Kernel::Add => Sort::Sum,
        Kernel::SiluMul => Sort::SiluMul,
        Kernel::KvAppend => Sort::Append,
        Kernel::KvAppendBoth => Sort::AppendBoth,
        Kernel::Attn => Sort::Attend,
        Kernel::RopeKvAttn => Sort::RotateAppendAttend,
        Kernel::GeometryQkNormRope => Sort::NormRotate,
        Kernel::Scale => Sort::Scale,
        Kernel::Silu => Sort::Silu,
        _ => Sort::Other,
    }
}

/// What a launch reads at a binding. Tensors of layers are never written.
pub open spec fn read(s: Store, b: Binding) -> Value {
    if b.offset != 0 {
        Value::Part(b)
    } else if b.operand is Layer {
        Value::Held(b.operand)
    } else {
        s[b.operand]
    }
}

pub open spec fn norm(x: Value, gain: Value, rows: int, width: int, eps: u32) -> Value {
    Value::Made(How::Norm { rows, width, eps }, seq![x, gain])
}

pub open spec fn product(x: Value, w: Value, batch: int, rows: int, width: int) -> Value {
    Value::Made(How::Product { batch, rows, width }, seq![x, w])
}

pub open spec fn sum(a: Value, b: Value, count: int) -> Value {
    Value::Made(How::Sum { count }, seq![a, b])
}

pub open spec fn gated(gate: Value, up: Value, tanh: bool) -> Value {
    Value::Made(How::Gated { tanh }, seq![gate, up])
}

pub open spec fn head_norm(x: Value, gain: Value, heads: int, eps: u32) -> Value {
    Value::Made(How::HeadNorm { heads, eps }, seq![x, gain])
}

pub open spec fn rotation(x: Value, cos: Binding, sin: Binding) -> Value {
    Value::Made(How::Rotation { cos, sin }, seq![x])
}

pub open spec fn append(cache: Value, x: Value, position: int) -> Value {
    Value::Made(How::Append { position }, seq![cache, x])
}

pub open spec fn attention(
    q: Value,
    k: Value,
    v: Value,
    length: int,
    window: int,
    scale: u32,
) -> Value {
    Value::Made(How::Attention { length, window, scale }, seq![q, k, v])
}

pub open spec fn scaling(x: Value, by: u32) -> Value {
    Value::Made(How::Scaling { by }, seq![x])
}

pub open spec fn silu(x: Value, count: int) -> Value {
    Value::Made(How::Silu { count }, seq![x])
}

/// The launch has just as many threads as there is work: a matmul a SIMD
/// group of 32 threads, sixteen to a threadgroup, or a thread for each row of
/// its result, a norm a threadgroup for each row, and others a thread for each
/// element.
pub open spec fn well_launched(step: StepView) -> bool {
    match step {
        StepView::Barrier => true,
        StepView::Launch { kernel, params: p, groups, threads, .. } => {
            &&& groups.z == 1 && threads.y == 1 && threads.z == 1
            &&& match sort_of(kernel) {
                Sort::Product { block } => {
                    &&& groups.y == 1
                    &&& threads.x == if block == 32 {
                        512int
                    } else {
                        64
                    }
                    &&& just_hold(
                        groups.x as int,
                        if block == 32 {
                            16
                        } else {
                            64
                        },
                        p.w0 * p.w1,
                    )
                },
                Sort::Norm => groups.x == p.w0 && groups.y == 1 && threads.x == 256,
                Sort::Sum => {
                    &&& groups.y == 1 && threads.x > 0
                    &&& just_hold(groups.x as int, threads.x as int, p.w0 as int)
                    &&& p.w1 == p.w0 && p.w2 == p.w0
                },
                Sort::SiluMul | Sort::Silu => {
                    &&& groups.y == 1 && threads.x > 0
                    &&& just_hold(groups.x as int, threads.x as int, p.w0 as int)
                },
                Sort::Attend => groups.y == 1 && threads.x == 32,
                _ => true,
            }
        },
    }
}

/// All are.
pub open spec fn all_well_launched(steps: Seq<StepView>) -> bool {
    forall|i: int| 0 <= i < steps.len() ==> well_launched(#[trigger] steps[i])
}

/// A tensor of the caller, as it is given.
pub open spec fn given(i: int) -> Value {
    Value::Held(Operand::Input(i as usize))
}

/// The store after a launch of this sort.
pub open spec fn launched(s: Store, sort: Sort, b: Seq<Binding>, p: Params) -> Store {
    match sort {
        Sort::Product { block } => s.insert(
            b[2].operand,
            product(read(s, b[0]), read(s, b[1]), p.w0 as int, p.w1 as int, block * p.w2),
        ),
        Sort::NormProduct => s.insert(
            b[3].operand,
            product(
                norm(read(s, b[0]), read(s, b[1]), p.w0 as int, 32 * p.w2, p.w3),
                read(s, b[2]),
                p.w0 as int,
                p.w1 as int,
                32 * p.w2,
            ),
        ),
        Sort::NormTwoProducts => {
            let x = norm(read(s, b[0]), read(s, b[1]), p.w0 as int, 32 * p.w2, p.w3);
            s.insert(
                b[4].operand,
                product(x, read(s, b[2]), p.w0 as int, p.w1 as int, 32 * p.w2),
            ).insert(
                b[5].operand,
                product(x, read(s, b[3]), p.w0 as int, p.w1 as int, 32 * p.w2),
            )
        },
        Sort::NormGated { tanh } => {
            let x = norm(read(s, b[0]), read(s, b[1]), p.w0 as int, 32 * p.w2, p.w3);
            s.insert(
                b[4].operand,
                gated(
                    product(x, read(s, b[2]), p.w0 as int, p.w1 as int, 32 * p.w2),
                    product(x, read(s, b[3]), p.w0 as int, p.w1 as int, 32 * p.w2),
                    tanh,
                ),
            )
        },
        Sort::ProductSum => s.insert(
            b[3].operand,
            sum(
                product(read(s, b[0]), read(s, b[1]), p.w0 as int, p.w1 as int, 32 * p.w2),
                read(s, b[2]),
                p.w0 * p.w1,
            ),
        ),
        Sort::Norm => s.insert(
            b[2].operand,
            norm(read(s, b[0]), read(s, b[1]), p.w0 as int, p.w1 as int, p.w2),
        ),
        Sort::Sum => s.insert(b[2].operand, sum(read(s, b[0]), read(s, b[1]), p.w0 as int)),
        Sort::SiluMul => s.insert(b[2].operand, gated(read(s, b[0]), read(s, b[1]), false)),
        Sort::Append => s.insert(
            b[1].operand,
            append(read(s, b[1]), read(s, b[0]), p.w0 as int),
        ),
        Sort::AppendBoth => s.insert(
            b[1].operand,
            append(read(s, b[1]), read(s, b[0]), p.w0 as int),
        ).insert(b[3].operand, append(read(s, b[3]), read(s, b[2]), p.w0 as int)),
        Sort::Attend => s.insert(
            b[3].operand,
            attention(
                read(s, b[0]),
                read(s, b[1]),
                read(s, b[2]),
                p.w0 as int,
                p.w1 as int,
                p.w2,
            ),
        ),
        Sort::RotateAppendAttend => {
            let k = append(read(s, b[5]), rotation(read(s, b[1]), b[3], b[4]), p.w1 as int);
            let v = append(read(s, b[6]), read(s, b[2]), p.w1 as int);
            s.insert(b[5].operand, k).insert(b[6].operand, v).insert(
                b[7].operand,
                attention(
                    rotation(read(s, b[0]), b[3], b[4]),
                    k,
                    v,
                    p.w0 as int,
                    p.w2 as int,
                    p.w3,
                ),
            )
        },
        Sort::NormRotate => s.insert(
            b[6].operand,
            rotation(head_norm(read(s, b[0]), read(s, b[2]), p.w0 as int, p.w3), b[4], b[5]),
        ).insert(
            b[7].operand,
            rotation(head_norm(read(s, b[1]), read(s, b[3]), p.w1 as int, p.w3), b[4], b[5]),
        ),
        Sort::Scale => s.insert(b[0].operand, scaling(read(s, b[0]), p.w0)),
        Sort::Silu => s.insert(b[1].operand, silu(read(s, b[0]), p.w0 as int)),
        Sort::Other => s,
    }
}

/// The store after a step.
pub open spec fn run(s: Store, step: StepView) -> Store {
    match step {
        StepView::Barrier => s,
        StepView::Launch { kernel, buffers, params, .. } => launched(
            s,
            sort_of(kernel),
            buffers,
            params,
        ),
    }
}

/// The store after all steps.
pub open spec fn run_all(s: Store, steps: Seq<StepView>) -> Store
    decreases steps.len(),
{
    if steps.len() == 0 {
        s
    } else {
        run(run_all(s, steps.drop_last()), steps.last())
    }
}

/// The store before the first launch.
pub open spec fn untouched() -> Store {
    Map::new(|o: Operand| true, |o: Operand| Value::Held(o))
}

pub proof fn lemma_run_push(s: Store, steps: Seq<StepView>, step: StepView)
    ensures
        run_all(s, steps.push(step)) == run(run_all(s, steps), step),
{
    assert(steps.push(step).drop_last() =~= steps);
}

pub proof fn lemma_run_sum(s: Store, a: Seq<StepView>, b: Seq<StepView>)
    ensures
        run_all(s, a + b) == run_all(run_all(s, a), b),
    decreases b.len(),
{
    if b.len() == 0 {
        assert(a + b =~= a);
    } else {
        lemma_run_sum(s, a, b.drop_last());
        assert((a + b).drop_last() =~= a + b.drop_last());
        assert((a + b).last() == b.last());
    }
}

pub proof fn lemma_run_one(s: Store, a: StepView)
    ensures
        run_all(s, seq![a]) == run(s, a),
{
    lemma_run_push(s, Seq::empty(), a);
    assert(run_all(s, Seq::empty()) == s);
}

pub proof fn lemma_run_two(s: Store, a: StepView, b: StepView)
    ensures
        run_all(s, seq![a, b]) == run(run(s, a), b),
{
    lemma_run_one(s, a);
    lemma_run_push(s, seq![a], b);
    assert(seq![a].push(b) =~= seq![a, b]);
}

pub proof fn lemma_run_three(s: Store, a: StepView, b: StepView, c: StepView)
    ensures
        run_all(s, seq![a, b, c]) == run(run(run(s, a), b), c),
{
    lemma_run_two(s, a, b);
    lemma_run_push(s, seq![a, b], c);
    assert(seq![a, b].push(c) =~= seq![a, b, c]);
}

pub proof fn lemma_run_five(
    s: Store,
    a: StepView,
    b: StepView,
    c: StepView,
    d: StepView,
    e: StepView,
)
    ensures
        run_all(s, seq![a, b, c, d, e]) == run(run(run(run(run(s, a), b), c), d), e),
{
    lemma_run_three(s, a, b, c);
    lemma_run_push(s, seq![a, b, c], d);
    assert(seq![a, b, c].push(d) =~= seq![a, b, c, d]);
    lemma_run_push(s, seq![a, b, c, d], e);
    assert(seq![a, b, c, d].push(e) =~= seq![a, b, c, d, e]);
}

pub proof fn lemma_run_eight(
    s: Store,
    a: StepView,
    b: StepView,
    c: StepView,
    d: StepView,
    e: StepView,
    f: StepView,
    g: StepView,
    h: StepView,
)
    ensures
        run_all(s, seq![a, b, c, d, e, f, g, h]) == run(
            run(run(run(run(run(run(run(s, a), b), c), d), e), f), g),
            h,
        ),
{
    lemma_run_five(s, a, b, c, d, e);
    lemma_run_three(run_all(s, seq![a, b, c, d, e]), f, g, h);
    lemma_run_sum(s, seq![a, b, c, d, e], seq![f, g, h]);
    assert(seq![a, b, c, d, e] + seq![f, g, h] =~= seq![a, b, c, d, e, f, g, h]);
}

} // verus!
