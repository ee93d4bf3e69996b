//! Which operations run on the GPU, with which kernel, and in which batches.

use vstd::prelude::*;

use crate::backend::{BackendError, Op};
use crate::cpu::ops::{count_reason, is_invalid, require};
use crate::honeycrisp::fused::{batch, float_bytes, float_bytes_of, has_rows, rows_of};
use crate::honeycrisp::steps::{
    cached_kernel, matmul_step, norm_step, pick_cached, push_matmul, push_norm, quant, quant_of,
    Quant, BLOCK,
};
use crate::kernels;
use crate::kernels::cache::within_caches;
use crate::laws::dataflow::{
    all_well_launched, given, lemma_run_one, lemma_run_sum, lemma_run_two, norm,
    product as product_value, run_all, silu, sort_of, untouched, well_launched, Sort, Store,
};
use crate::laws::decode::lemma_hold;
use crate::plan::{
    along_x, at, ceil_div, output, output_of, Kernel, Operand, OutputView, Params, Plan, Program,
    StepView,
};
use crate::tensor::{
    batch_of, copy_shape, leading, numel, product, product_fits, with_last, DType, TensorDesc,
};

verus! {

/// The kernel of a quantised matmul with `n` rows of `k` values, its values
/// per block and its rows per threadgroup.
#[derive(Debug, PartialEq, Eq)]
pub struct MatmulKernel {
    pub kernel: Kernel,
    pub block: usize,
    pub rows_per_group: usize,
    pub threads: usize,
}

/// The kernel of a quantised matmul, or `None` where the CPU takes it. Wide
/// inputs and many rows run without a threadgroup cache.
pub open spec fn matmul_kernel(dtype: DType, n: usize, k: usize) -> Option<MatmulKernel> {
    match dtype {
        DType::Q4_K => if k % 256 == 0 {
            Some(MatmulKernel { kernel: Kernel::Q4k, block: 256, rows_per_group: 64, threads: 64 })
        } else {
            None
        },
        DType::Q6_K => if k % 256 == 0 {
            Some(MatmulKernel { kernel: Kernel::Q6k, block: 256, rows_per_group: 64, threads: 64 })
        } else {
            None
        },
        DType::Q8 => if k % 32 == 0 {
            Some(
                MatmulKernel {
                    kernel: if k / 32 > 192 || n > 1024 {
                        Kernel::Q8Large
                    } else if k / 32 > 128 {
                        Kernel::Q8Mb192
                    } else {
                        Kernel::Q8
                    },
                    block: 32,
                    rows_per_group: 16,
                    threads: 512,
                },
            )
        } else {
            None
        },
        DType::Q4 => if k % 32 == 0 {
            Some(
                MatmulKernel {
                    kernel: if k / 32 > 128 || n > 1024 {
                        Kernel::Q4Large
                    } else {
                        Kernel::Q4
                    },
                    block: 32,
                    rows_per_group: 16,
                    threads: 512,
                },
            )
        } else {
            None
        },
        _ => None,
    }
}

/// A quantised matmul of `x` with `w` on the GPU, or `None` where the CPU
/// takes it.
pub fn quant_matmul(x: &TensorDesc, w: &TensorDesc) -> (r: Option<Plan>)
    requires
        w.shape@.len() >= 2,
        matmul_kernel(w.dtype, w.shape@[0], w.shape@[1]) is Some ==> {
            &&& has_rows(*x)
            &&& batch(*x) * rows_of(*w) * 4 <= u32::MAX
        },
    ensures
        r is Some <==> matmul_kernel(w.dtype, w.shape@[0], w.shape@[1]) is Some,
        r matches Some(p) ==> within_caches(p.program@),
        r matches Some(p) ==> {
            let m = matmul_kernel(w.dtype, w.shape@[0], w.shape@[1])->0;
            let b = batch(*x);
            let n = rows_of(*w);
            &&& p.scratch@ == Seq::<usize>::empty()
            &&& p.outputs_view() == seq![output(b * n * 4, leading(x.shape@).push(w.shape@[0]))]
            &&& p.program@ == seq![
                (StepView::Launch {
                    kernel: m.kernel,
                    buffers: seq![
                        at(Operand::Input(0)),
                        at(Operand::Input(1)),
                        at(Operand::Output(0)),
                    ],
                    params: Params { w0: b, w1: n, w2: (w.shape@[1] / m.block) as u32, w3: 0 },
                    groups: along_x(ceil_div((b * n) as nat, m.rows_per_group as nat)),
                    threads: along_x(m.threads as nat),
                }),
            ]
        },
        r matches Some(p) ==> all_well_launched(p.program@),
        r matches Some(p) ==> w.shape@[1] <= u32::MAX ==> run_all(
            untouched(),
            p.program@,
        )[Operand::Output(0)] == product_value(
            given(0),
            given(1),
            batch(*x) as int,
            rows_of(*w) as int,
            w.shape@[1] as int,
        ),
{
    let n: usize = w.shape[0];
    let k: usize = w.shape[1];
    let supported: bool = match w.dtype {
        DType::Q4_K | DType::Q6_K => k % 256 == 0,
        DType::Q8 | DType::Q4 => k % 32 == 0,
        _ => false,
    };
    if !supported {
        return None;
    }
    let b: u32 = batch_of(&x.shape);
    let d = match w.dtype {
        DType::Q4_K => kernels::q4k_matmul::dispatch(b, n as u32, (k / 256) as u32),
        DType::Q6_K => kernels::q6k_matmul::dispatch(b, n as u32, (k / 256) as u32),
        DType::Q8 => {
            let blocks: usize = k / 32;
            let kernel = if blocks > 192 || n > 1024 {
                Kernel::Q8Large
            } else if blocks > 128 {
                Kernel::Q8Mb192
            } else {
                Kernel::Q8
            };
            kernels::q8_matmul::dispatch(kernel, b, n as u32, blocks as u32)
        },
        _ => {
            let blocks: usize = k / 32;
            let kernel = if blocks > 128 || n > 1024 {
                Kernel::Q4Large
            } else {
                Kernel::Q4
            };
            kernels::q4_matmul::dispatch(kernel, b, n as u32, blocks as u32)
        },
    };
    proof {
        let steps = d.program@;
        lemma_run_one(untouched(), steps[0]);
        assert(steps =~= seq![steps[0]]);
        assert(b * (n as u32) >= 0) by (nonlinear_arith);
        lemma_hold((b * (n as u32)) as nat, 16);
        lemma_hold((b * (n as u32)) as nat, 64);
    }
    let mut plan = Plan::new(d.program);
    plan.add_output(output_of(d.out_bytes, with_last(&x.shape, n)));
    assert(plan.outputs_view() =~= seq![
        output(batch(*x) * rows_of(*w) * 4, leading(x.shape@).push(w.shape@[0])),
    ]);
    Some(plan)
}

/// How a group of operations runs.
#[derive(Debug, PartialEq, Eq)]
pub enum Batch {
    /// There is nothing to do.
    Nothing,
    /// Each operation runs on its own.
    OneByOne,
    /// All run in one command buffer.
    Together(Plan),
    /// The operation was refused.
    Refused(BackendError),
}

/// The weights share one block format and one width of whole blocks.
pub open spec fn homogeneous(ws: Seq<TensorDesc>) -> bool {
    forall|i: int|
        0 <= i < ws.len() ==> (#[trigger] ws[i]).dtype == ws[0].dtype && ws[i].shape@[1]
            == ws[0].shape@[1] && quant(ws[i].dtype) is Some && ws[i].shape@[1] % BLOCK == 0
}

/// All weights are on the GPU.
pub open spec fn all_on_gpu(ws: Seq<TensorDesc>) -> bool {
    forall|i: int| 0 <= i < ws.len() ==> (#[trigger] ws[i]).on_gpu
}

/// All weights are matrices.
pub open spec fn all_matrices(ws: Seq<TensorDesc>) -> bool {
    forall|i: int| 0 <= i < ws.len() ==> (#[trigger] ws[i]).shape@.len() >= 2
}

/// The products of `x` with each weight fit the machine types.
pub open spec fn products_fit(x: TensorDesc, ws: Seq<TensorDesc>) -> bool {
    forall|i: int|
        0 <= i < ws.len() ==> batch(x) * rows_of(#[trigger] ws[i]) <= u32::MAX && batch(x)
            * ws[i].shape@[0] * 4 <= usize::MAX
}

/// One matmul per weight, from `x` to the output of the same place. The
/// weight at place `i` is input `first + i`.
pub open spec fn matmul_steps(
    kernel: Kernel,
    x: Operand,
    first: int,
    b: u32,
    ws: Seq<TensorDesc>,
    blocks: u32,
) -> Seq<StepView> {
    Seq::new(
        ws.len(),
        |i: int|
            matmul_step(
                kernel,
                x,
                Operand::Input((first + i) as usize),
                Operand::Output(i as usize),
                b,
                rows_of(ws[i]),
                blocks,
            ),
    )
}

/// One output per weight.
pub open spec fn matmul_outputs(x: TensorDesc, ws: Seq<TensorDesc>) -> Seq<OutputView> {
    Seq::new(
        ws.len(),
        |i: int|
            output(
                crate::honeycrisp::fused::at_least_word(batch(x) * ws[i].shape@[0] * 4),
                leading(x.shape@).push(ws[i].shape@[0]),
            ),
    )
}

proof fn lemma_products_launched(
    kernel: Kernel,
    x: Operand,
    first: int,
    b: u32,
    ws: Seq<TensorDesc>,
    blocks: u32,
)
    requires
        sort_of(kernel) == (Sort::Product { block: 32 }),
        forall|i: int| 0 <= i < ws.len() ==> b * rows_of(#[trigger] ws[i]) <= u32::MAX,
    ensures
        all_well_launched(matmul_steps(kernel, x, first, b, ws, blocks)),
{
    let all = matmul_steps(kernel, x, first, b, ws, blocks);
    assert forall|i: int| 0 <= i < all.len() implies well_launched(#[trigger] all[i]) by {
        let n = rows_of(ws[i]);
        assert(b * n >= 0) by (nonlinear_arith);
        lemma_hold((b * n) as nat, 16);
    }
}

proof fn lemma_products(
    s: Store,
    kernel: Kernel,
    x: Operand,
    first: int,
    b: u32,
    ws: Seq<TensorDesc>,
    blocks: u32,
    n: int,
)
    requires
        sort_of(kernel) == (Sort::Product { block: 32 }),
        0 <= n <= ws.len(),
        0 <= first,
        first + ws.len() <= usize::MAX,
        x is Input || x is Scratch,
    ensures
        ({
            let r = run_all(s, matmul_steps(kernel, x, first, b, ws, blocks).take(n));
            &&& forall|o: Operand| o !is Output ==> #[trigger] r[o] == s[o]
            &&& forall|i: int|
                0 <= i < n ==> r[Operand::Output(i as usize)] == product_value(
                    s[x],
                    s[Operand::Input((first + i) as usize)],
                    b as int,
                    rows_of(#[trigger] ws[i]) as int,
                    32 * blocks,
                )
        }),
    decreases n,
{
    let all = matmul_steps(kernel, x, first, b, ws, blocks);
    if n > 0 {
        lemma_products(s, kernel, x, first, b, ws, blocks, n - 1);
        assert(all.take(n).drop_last() =~= all.take(n - 1));
        assert(all.take(n).last() == all[n - 1]);
        let r = run_all(s, all.take(n));
        assert forall|i: int| 0 <= i < n implies r[Operand::Output(i as usize)]
            == product_value(
            s[x],
            s[Operand::Input((first + i) as usize)],
            b as int,
            rows_of(#[trigger] ws[i]) as int,
            32 * blocks,
        ) by {
            assert(i < n - 1 ==> i as usize != (n - 1) as usize);
        }
    }
}

proof fn lemma_norms(s: Store, pairs: Seq<(TensorDesc, TensorDesc)>, eps: u32, n: int)
    requires
        0 <= n <= pairs.len(),
        2 * pairs.len() <= usize::MAX,
    ensures
        ({
            let r = run_all(s, norm_steps(pairs, eps).take(n));
            &&& forall|o: Operand| o !is Output ==> #[trigger] r[o] == s[o]
            &&& forall|i: int|
                0 <= i < n ==> r[Operand::Output(i as usize)] == norm(
                    s[Operand::Input((2 * i) as usize)],
                    s[Operand::Input((2 * i + 1) as usize)],
                    batch((#[trigger] pairs[i]).0) as int,
                    rows_of(pairs[i].1) as int,
                    eps,
                )
        }),
    decreases n,
{
    let all = norm_steps(pairs, eps);
    if n > 0 {
        lemma_norms(s, pairs, eps, n - 1);
        assert(all.take(n).drop_last() =~= all.take(n - 1));
        assert(all.take(n).last() == all[n - 1]);
        let r = run_all(s, all.take(n));
        assert forall|i: int| 0 <= i < n implies r[Operand::Output(i as usize)] == norm(
            s[Operand::Input((2 * i) as usize)],
            s[Operand::Input((2 * i + 1) as usize)],
            batch((#[trigger] pairs[i]).0) as int,
            rows_of(pairs[i].1) as int,
            eps,
        ) by {
            assert(i < n - 1 ==> i as usize != (n - 1) as usize);
        }
    }
}

fn is_homogeneous(ws: &Vec<TensorDesc>) -> (b: bool)
    requires
        ws@.len() > 0,
        all_matrices(ws@),
    ensures
        b == homogeneous(ws@),
{
    let mut i: usize = 0;
    while i < ws.len()
        invariant
            i <= ws@.len(),
            ws@.len() > 0,
            all_matrices(ws@),
            forall|k: int|
                0 <= k < i ==> (#[trigger] ws@[k]).dtype == ws@[0].dtype && ws@[k].shape@[1]
                    == ws@[0].shape@[1] && quant(ws@[k].dtype) is Some && ws@[k].shape@[1] % BLOCK
                    == 0,
        decreases ws@.len() - i,
    {
        let w = &ws[i];
        assert(ws@[0].shape@.len() >= 2);
        assert(ws@[i as int].shape@.len() >= 2);
        if !(w.dtype == ws[0].dtype && w.shape[1] == ws[0].shape[1] && quant_of(w.dtype).is_some()
            && w.shape[1] % BLOCK == 0) {
            assert(!homogeneous(ws@)) by {
                let bad = ws@[i as int];
            }
            return false;
        }
        i = i + 1;
    }
    true
}

fn are_on_gpu(ws: &Vec<TensorDesc>) -> (b: bool)
    ensures
        b == all_on_gpu(ws@),
{
    let mut i: usize = 0;
    while i < ws.len()
        invariant
            i <= ws@.len(),
            forall|k: int| 0 <= k < i ==> (#[trigger] ws@[k]).on_gpu,
        decreases ws@.len() - i,
    {
        if !ws[i].on_gpu {
            assert(!ws@[i as int].on_gpu);
            return false;
        }
        i = i + 1;
    }
    true
}

fn push_matmuls(
    p: &mut Program,
    kernel: Kernel,
    x: Operand,
    first: usize,
    b: u32,
    ws: &Vec<TensorDesc>,
    blocks: u32,
)
    requires
        all_matrices(ws@),
        first + ws@.len() <= usize::MAX,
        forall|i: int| 0 <= i < ws@.len() ==> b * rows_of(#[trigger] ws@[i]) <= u32::MAX,
    ensures
        final(p)@ == old(p)@ + matmul_steps(kernel, x, first as int, b, ws@, blocks),
{
    let ghost start = p@;
    let ghost all = matmul_steps(kernel, x, first as int, b, ws@, blocks);
    let mut i: usize = 0;
    assert(p@ =~= start + all.take(0));
    while i < ws.len()
        invariant
            i <= ws@.len(),
            all_matrices(ws@),
            first + ws@.len() <= usize::MAX,
            forall|k: int| 0 <= k < ws@.len() ==> b * rows_of(#[trigger] ws@[k]) <= u32::MAX,
            all == matmul_steps(kernel, x, first as int, b, ws@, blocks),
            p@ == start + all.take(i as int),
        decreases ws@.len() - i,
    {
        let w = &ws[i];
        assert(ws@[i as int].shape@.len() >= 2);
        assert(b * rows_of(ws@[i as int]) <= u32::MAX);
        push_matmul(
            p,
            kernel,
            x,
            Operand::Input(first + i),
            Operand::Output(i),
            b,
            w.shape[0] as u32,
            blocks,
        );
        assert(all.take(i + 1) =~= all.take(i as int).push(all[i as int]));
        i = i + 1;
        assert(p@ =~= start + all.take(i as int));
    }
    assert(all.take(ws@.len() as int) =~= all);
}

fn add_matmul_outputs(plan: &mut Plan, x: &TensorDesc, b: u32, ws: &Vec<TensorDesc>)
    requires
        has_rows(*x),
        b == batch(*x),
        all_matrices(ws@),
        products_fit(*x, ws@),
    ensures
        final(plan).program == old(plan).program,
        final(plan).scratch == old(plan).scratch,
        final(plan).outputs_view() == old(plan).outputs_view() + matmul_outputs(*x, ws@),
{
    let ghost start = plan.outputs_view();
    let ghost all = matmul_outputs(*x, ws@);
    let mut i: usize = 0;
    assert(plan.outputs_view() =~= start + all.take(0));
    while i < ws.len()
        invariant
            i <= ws@.len(),
            has_rows(*x),
            b == batch(*x),
            all_matrices(ws@),
            products_fit(*x, ws@),
            all == matmul_outputs(*x, ws@),
            plan.program == old(plan).program,
            plan.scratch == old(plan).scratch,
            plan.outputs_view() == start + all.take(i as int),
        decreases ws@.len() - i,
    {
        let w = &ws[i];
        assert(ws@[i as int].shape@.len() >= 2);
        assert(batch(*x) * ws@[i as int].shape@[0] * 4 <= usize::MAX);
        let n: usize = w.shape[0];
        assert(0 <= b * n) by (nonlinear_arith);
        let cells: usize = b as usize * n;
        let bytes: usize = if cells * 4 < 4 {
            4
        } else {
            cells * 4
        };
        plan.add_output(output_of(bytes, with_last(&x.shape, n)));
        assert(all.take(i + 1) =~= all.take(i as int).push(all[i as int]));
        i = i + 1;
        assert(plan.outputs_view() =~= start + all.take(i as int));
    }
    assert(all.take(ws@.len() as int) =~= all);
}

/// Products of one input with several weights, in one command buffer where
/// the weights are alike and on the GPU. Inputs: `x`, then the weights.
pub fn quant_matmul_multi(x: &TensorDesc, ws: &Vec<TensorDesc>) -> (r: Batch)
    requires
        all_matrices(ws@),
        ws@.len() > 0 && homogeneous(ws@) && all_on_gpu(ws@) ==> {
            &&& has_rows(*x)
            &&& products_fit(*x, ws@)
            &&& ws@.len() < usize::MAX
        },
    ensures
        ws@.len() == 0 ==> r is Nothing,
        ws@.len() > 0 && !(homogeneous(ws@) && all_on_gpu(ws@)) ==> r is OneByOne,
        ws@.len() > 0 && homogeneous(ws@) && all_on_gpu(ws@) ==> {
            &&& r matches Batch::Together(p)
            &&& p.scratch@ == Seq::<usize>::empty()
            &&& p.outputs_view() == matmul_outputs(*x, ws@)
            &&& within_caches(p.program@)
            &&& p.program@ == matmul_steps(
                cached_kernel(quant(ws@[0].dtype)->0, (ws@[0].shape@[1] / BLOCK) as u32),
                Operand::Input(0),
                1,
                batch(*x),
                ws@,
                (ws@[0].shape@[1] / BLOCK) as u32,
            )
            &&& all_well_launched(p.program@)
            &&& ws@[0].shape@[1] <= u32::MAX ==> forall|i: int|
                0 <= i < ws@.len() ==> run_all(untouched(), p.program@)[Operand::Output(
                    i as usize,
                )] == product_value(
                    given(0),
                    given(1 + i),
                    batch(*x) as int,
                    rows_of(#[trigger] ws@[i]) as int,
                    ws@[i].shape@[1] as int,
                )
        },
{
    if ws.len() == 0 {
        return Batch::Nothing;
    }
    if !is_homogeneous(ws) || !are_on_gpu(ws) {
        return Batch::OneByOne;
    }
    assert(ws@[0].shape@.len() >= 2 && quant(ws@[0].dtype) is Some);
    let q = match quant_of(ws[0].dtype) {
        Some(q) => q,
        None => {
            return Batch::OneByOne;
        },
    };
    let b: u32 = batch_of(&x.shape);
    let blocks: u32 = (ws[0].shape[1] / BLOCK) as u32;
    let mut p = Program::new();
    push_matmuls(&mut p, pick_cached(q, blocks), Operand::Input(0), 1, b, ws, blocks);
    let ghost steps = p@;
    let mut plan = Plan::new(p);
    add_matmul_outputs(&mut plan, x, b, ws);
    proof {
        let want = matmul_steps(
            cached_kernel(q, blocks),
            Operand::Input(0),
            1,
            b,
            ws@,
            blocks,
        );
        assert(Seq::<StepView>::empty() + want =~= want);
        let k = cached_kernel(q, blocks);
        lemma_products_launched(k, Operand::Input(0), 1, b, ws@, blocks);
        lemma_products(untouched(), k, Operand::Input(0), 1, b, ws@, blocks, ws@.len() as int);
        assert(want.take(ws@.len() as int) =~= want);
        if ws@[0].shape@[1] <= u32::MAX {
            assert forall|i: int| 0 <= i < ws@.len() implies run_all(
                untouched(),
                want,
            )[Operand::Output(i as usize)] == product_value(
                given(0),
                given(1 + i),
                batch(*x) as int,
                rows_of(#[trigger] ws@[i]) as int,
                ws@[i].shape@[1] as int,
            ) by {
                assert(ws@[i].shape@[1] == ws@[0].shape@[1]);
            }
        }
        let outs = matmul_outputs(*x, ws@);
        assert(Seq::<OutputView>::empty() + outs =~= outs);
    }
    Batch::Together(plan)
}

/// The kernel of the matmuls after a normalisation.
pub open spec fn normed_kernel(q: Quant, blocks: u32) -> Kernel {
    match q {
        Quant::Q8 => if blocks > 192 {
            Kernel::Q8Large
        } else if blocks > 128 {
            Kernel::Q8Mb192
        } else {
            Kernel::Q8
        },
        Quant::Q4 => cached_kernel(q, blocks),
    }
}

/// The fused normalisation and products take these tensors.
pub open spec fn normed_fusible(x: TensorDesc, gamma: TensorDesc, ws: Seq<TensorDesc>) -> bool {
    homogeneous(ws) && all_on_gpu(ws) && x.dtype == DType::F32 && gamma.dtype == DType::F32
}

/// A normalisation and the products of its result with several weights, in
/// one command buffer. Inputs: `x`, the norm, then the weights.
pub fn fused_norm_quant_matmul_multi(
    x: &TensorDesc,
    gamma: &TensorDesc,
    eps: u32,
    ws: &Vec<TensorDesc>,
) -> (r: Batch)
    requires
        all_matrices(ws@),
        ws@.len() > 0 && normed_fusible(*x, *gamma, ws@) ==> {
            &&& has_rows(*x)
            &&& gamma.shape@.len() >= 1
            &&& ws@[0].shape@[1] as u32 == rows_of(*gamma) ==> {
                &&& products_fit(*x, ws@)
                &&& batch(*x) * rows_of(*gamma) * 4 <= usize::MAX
                &&& ws@.len() < usize::MAX - 1
            }
        },
    ensures
        ws@.len() == 0 ==> r is Nothing,
        ws@.len() > 0 && !normed_fusible(*x, *gamma, ws@) ==> r is OneByOne,
        ws@.len() > 0 && normed_fusible(*x, *gamma, ws@) && ws@[0].shape@[1] as u32 != rows_of(
            *gamma,
        ) ==> {
            &&& r matches Batch::Refused(BackendError::ShapeMismatch { op, expected, got })
            &&& op@ == "fused_norm_quant_matmul_multi"@
            &&& expected@ == seq![rows_of(*gamma) as usize]
            &&& got@ == seq![ws@[0].shape@[1]]
        },
        ws@.len() > 0 && normed_fusible(*x, *gamma, ws@) && ws@[0].shape@[1] as u32 == rows_of(
            *gamma,
        ) ==> {
            let b = batch(*x);
            let d = rows_of(*gamma);
            let blocks = (ws@[0].shape@[1] / BLOCK) as u32;
            &&& r matches Batch::Together(p)
            &&& p.scratch@ == seq![float_bytes(b, d) as usize]
            &&& p.outputs_view() == matmul_outputs(*x, ws@)
            &&& within_caches(p.program@)
            &&& p.program@ == seq![
                norm_step(
                    Operand::Input(0),
                    Operand::Input(1),
                    Operand::Scratch(0),
                    b,
                    d,
                    eps,
                ),
                StepView::Barrier,
            ] + matmul_steps(
                normed_kernel(quant(ws@[0].dtype)->0, blocks),
                Operand::Scratch(0),
                2,
                b,
                ws@,
                blocks,
            )
            &&& all_well_launched(p.program@)
            &&& ws@[0].shape@[1] <= u32::MAX ==> forall|i: int|
                0 <= i < ws@.len() ==> run_all(untouched(), p.program@)[Operand::Output(
                    i as usize,
                )] == product_value(
                    norm(given(0), given(1), b as int, d as int, eps),
                    given(2 + i),
                    b as int,
                    rows_of(#[trigger] ws@[i]) as int,
                    ws@[i].shape@[1] as int,
                )
        },
{
    if ws.len() == 0 {
        return Batch::Nothing;
    }
    if !is_homogeneous(ws) || !are_on_gpu(ws) || x.dtype != DType::F32 || gamma.dtype
        != DType::F32 {
        return Batch::OneByOne;
    }
    assert(ws@[0].shape@.len() >= 2 && quant(ws@[0].dtype) is Some);
    let q = match quant_of(ws[0].dtype) {
        Some(q) => q,
        None => {
            return Batch::OneByOne;
        },
    };
    let b: u32 = batch_of(&x.shape);
    let d: u32 = gamma.shape[0] as u32;
    let k: usize = ws[0].shape[1];
    if k as u32 != d {
        let expected: Vec<usize> = vec![d as usize];
        let got: Vec<usize> = vec![k];
        assert(expected@ =~= seq![d as usize]);
        assert(got@ =~= seq![k]);
        return Batch::Refused(
            BackendError::ShapeMismatch { op: "fused_norm_quant_matmul_multi", expected, got },
        );
    }
    let blocks: u32 = (k / BLOCK) as u32;
    let kernel = match q {
        Quant::Q8 => {
            if blocks > 192 {
                Kernel::Q8Large
            } else if blocks > 128 {
                Kernel::Q8Mb192
            } else {
                Kernel::Q8
            }
        },
        Quant::Q4 => pick_cached(q, blocks),
    };
    let mut p = Program::new();
    push_norm(
        &mut p,
        Operand::Input(0),
        Operand::Input(1),
        Operand::Scratch(0),
        b,
        d,
        eps,
    );
    p.barrier();
    push_matmuls(&mut p, kernel, Operand::Scratch(0), 2, b, ws, blocks);
    proof {
        let head = seq![
            norm_step(Operand::Input(0), Operand::Input(1), Operand::Scratch(0), b, d, eps),
            StepView::Barrier,
        ];
        let all = matmul_steps(kernel, Operand::Scratch(0), 2, b, ws@, blocks);
        assert(p@ =~= head + all);
        lemma_run_sum(untouched(), head, all);
        lemma_run_two(untouched(), head[0], head[1]);
        assert(head =~= seq![head[0], head[1]]);
        let s = run_all(untouched(), head);
        lemma_products_launched(kernel, Operand::Scratch(0), 2, b, ws@, blocks);
        lemma_products(s, kernel, Operand::Scratch(0), 2, b, ws@, blocks, ws@.len() as int);
        assert(all.take(ws@.len() as int) =~= all);
        if ws@[0].shape@[1] <= u32::MAX {
            assert forall|i: int| 0 <= i < ws@.len() implies run_all(
                untouched(),
                p@,
            )[Operand::Output(i as usize)] == product_value(
                norm(given(0), given(1), b as int, d as int, eps),
                given(2 + i),
                b as int,
                rows_of(#[trigger] ws@[i]) as int,
                ws@[i].shape@[1] as int,
            ) by {
                assert(ws@[i].shape@[1] == ws@[0].shape@[1]);
            }
        }
        assert forall|i: int| 0 <= i < p@.len() implies well_launched(#[trigger] p@[i]) by {
            if i >= 2 {
                assert(p@[i] == all[i - 2]);
            }
        }
    }
    let mut plan = Plan::new(p);
    plan.add_scratch(float_bytes_of(b, d));
    add_matmul_outputs(&mut plan, x, b, ws);
    proof {
        let outs = matmul_outputs(*x, ws@);
        assert(Seq::<OutputView>::empty() + outs =~= outs);
        assert(plan.scratch@ =~= seq![float_bytes(b, d) as usize]);
    }
    Batch::Together(plan)
}

/// All pairs are single-precision.
pub open spec fn all_floats(pairs: Seq<(TensorDesc, TensorDesc)>) -> bool {
    forall|i: int|
        0 <= i < pairs.len() ==> (#[trigger] pairs[i]).0.dtype == DType::F32 && pairs[i].1.dtype
            == DType::F32
}

/// The sizes of the pairs fit the machine types.
pub open spec fn pairs_fit(pairs: Seq<(TensorDesc, TensorDesc)>) -> bool {
    forall|i: int|
        0 <= i < pairs.len() ==> has_rows((#[trigger] pairs[i]).0) && pairs[i].1.shape@.len() >= 1
            && batch(pairs[i].0) * rows_of(pairs[i].1) * 4 <= usize::MAX
}

/// One normalisation per pair: inputs `2 * i` and `2 * i + 1`, output `i`.
pub open spec fn norm_steps(pairs: Seq<(TensorDesc, TensorDesc)>, eps: u32) -> Seq<StepView> {
    Seq::new(
        pairs.len(),
        |i: int|
            norm_step(
                Operand::Input((2 * i) as usize),
                Operand::Input((2 * i + 1) as usize),
                Operand::Output(i as usize),
                batch(pairs[i].0),
                rows_of(pairs[i].1),
                eps,
            ),
    )
}

/// One output per pair, of the shape of its first tensor.
pub open spec fn norm_outputs(pairs: Seq<(TensorDesc, TensorDesc)>) -> Seq<OutputView> {
    Seq::new(
        pairs.len(),
        |i: int|
            output(float_bytes(batch(pairs[i].0), rows_of(pairs[i].1)), pairs[i].0.shape@),
    )
}

/// Several independent normalisations in one command buffer.
pub fn rms_norm_multi(pairs: &Vec<(TensorDesc, TensorDesc)>, eps: u32) -> (r: Batch)
    requires
        pairs@.len() > 0 && all_floats(pairs@) ==> pairs_fit(pairs@) && 2 * pairs@.len()
            <= usize::MAX,
    ensures
        pairs@.len() == 0 ==> r is Nothing,
        pairs@.len() > 0 && !all_floats(pairs@) ==> r is OneByOne,
        pairs@.len() > 0 && all_floats(pairs@) ==> {
            &&& r matches Batch::Together(p)
            &&& p.scratch@ == Seq::<usize>::empty()
            &&& p.outputs_view() == norm_outputs(pairs@)
            &&& p.program@ == norm_steps(pairs@, eps)
            &&& all_well_launched(p.program@)
            &&& forall|i: int|
                0 <= i < pairs@.len() ==> run_all(
                    untouched(),
                    p.program@,
                )[Operand::Output(i as usize)] == norm(
                    given(2 * i),
                    given(2 * i + 1),
                    batch((#[trigger] pairs@[i]).0) as int,
                    rows_of(pairs@[i].1) as int,
                    eps,
                )
        },
{
    if pairs.len() == 0 {
        return Batch::Nothing;
    }
    let mut i: usize = 0;
    while i < pairs.len()
        invariant
            i <= pairs@.len(),
            forall|k: int|
                0 <= k < i ==> (#[trigger] pairs@[k]).0.dtype == DType::F32 && pairs@[k].1.dtype
                    == DType::F32,
        decreases pairs@.len() - i,
    {
        let pair = &pairs[i];
        if pair.0.dtype != DType::F32 || pair.1.dtype != DType::F32 {
            assert(!(pairs@[i as int].0.dtype == DType::F32 && pairs@[i as int].1.dtype
                == DType::F32));
            return Batch::OneByOne;
        }
        i = i + 1;
    }
    let ghost steps = norm_steps(pairs@, eps);
    let ghost outs = norm_outputs(pairs@);
    let mut p = Program::new();
    let mut outputs: Plan = Plan::new(Program::new());
    let mut j: usize = 0;
    assert(p@ =~= steps.take(0));
    assert(outputs.outputs_view() =~= outs.take(0));
    while j < pairs.len()
        invariant
            j <= pairs@.len(),
            pairs_fit(pairs@),
            2 * pairs@.len() <= usize::MAX,
            steps == norm_steps(pairs@, eps),
            outs == norm_outputs(pairs@),
            p@ == steps.take(j as int),
            outputs.outputs_view() == outs.take(j as int),
            outputs.scratch@ == Seq::<usize>::empty(),
        decreases pairs@.len() - j,
    {
        let pair = &pairs[j];
        assert(has_rows(pairs@[j as int].0));
        let b: u32 = batch_of(&pair.0.shape);
        let d: u32 = pair.1.shape[0] as u32;
        push_norm(
            &mut p,
            Operand::Input(2 * j),
            Operand::Input(2 * j + 1),
            Operand::Output(j),
            b,
            d,
            eps,
        );
        outputs.add_output(output_of(float_bytes_of(b, d), copy_shape(&pair.0.shape)));
        assert(steps.take(j + 1) =~= steps.take(j as int).push(steps[j as int]));
        assert(outs.take(j + 1) =~= outs.take(j as int).push(outs[j as int]));
        j = j + 1;
    }
    assert(steps.take(pairs@.len() as int) =~= steps);
    assert(outs.take(pairs@.len() as int) =~= outs);
    proof {
        lemma_norms(untouched(), pairs@, eps, pairs@.len() as int);
    }
    Batch::Together(Plan { scratch: outputs.scratch, outputs: outputs.outputs, program: p })
}

/// All inputs are single-precision.
pub open spec fn inputs_are_floats(inputs: Seq<TensorDesc>) -> bool {
    forall|i: int| 0 <= i < inputs.len() ==> (#[trigger] inputs[i]).dtype == DType::F32
}

/// The operations that repay a launch of their own.
pub open spec fn gpu_supports(op: Op, inputs: Seq<TensorDesc>) -> bool {
    (op is Matmul || op is RmsNorm || op is Silu) && inputs_are_floats(inputs)
}

/// Whether the operation runs on the GPU.
pub fn supports(op: Op, inputs: &Vec<TensorDesc>) -> (b: bool)
    ensures
        b == gpu_supports(op, inputs@),
{
    let candidate: bool = match op {
        Op::Matmul | Op::RmsNorm { .. } | Op::Silu => true,
        _ => false,
    };
    if !candidate {
        return false;
    }
    let mut i: usize = 0;
    while i < inputs.len()
        invariant
            i <= inputs@.len(),
            forall|k: int| 0 <= k < i ==> (#[trigger] inputs@[k]).dtype == DType::F32,
        decreases inputs@.len() - i,
    {
        if inputs[i].dtype != DType::F32 {
            assert(inputs@[i as int].dtype != DType::F32);
            return false;
        }
        i = i + 1;
    }
    true
}

/// The matrix and the input of a matmul agree in width.
pub open spec fn matmul_shapes_agree(x: TensorDesc, w: TensorDesc) -> bool {
    w.shape@.len() == 2 && x.shape@.len() > 0 && x.shape@.last() == w.shape@[1]
}

/// What must hold of the inputs for the operation to be planned.
pub open spec fn executable(op: Op, inputs: Seq<TensorDesc>) -> bool {
    match op {
        Op::Matmul => inputs.len() == 2 ==> {
            let x = inputs[0];
            let w = inputs[1];
            &&& w.shape@.len() >= 2
            &&& matmul_shapes_agree(x, w) ==> has_rows(x) && batch(x) * rows_of(w) * 4 <= u32::MAX
        },
        Op::RmsNorm { .. } => {
            &&& inputs.len() >= 2
            &&& has_rows(inputs[0])
            &&& inputs[1].shape@.len() >= 1
            &&& batch(inputs[0]) * rows_of(inputs[1]) * 4 <= usize::MAX
        },
        Op::Silu => {
            &&& inputs.len() >= 1
            &&& product_fits(inputs[0].shape@)
            &&& (product(inputs[0].shape@) as u32) * 4 <= u32::MAX
        },
        _ => true,
    }
}

/// Plans one operation of the graph; `OneByOne` hands it to the CPU.
pub fn execute(op: Op, inputs: &Vec<TensorDesc>) -> (r: Batch)
    requires
        gpu_supports(op, inputs@) ==> executable(op, inputs@),
    ensures
        !gpu_supports(op, inputs@) ==> r is OneByOne,
        gpu_supports(op, inputs@) ==> match op {
            Op::Matmul => if inputs@.len() != 2 {
                r matches Batch::Refused(e) && is_invalid(
                    e,
                    "Matmul"@,
                    count_reason(2, inputs@.len()),
                )
            } else if !matmul_shapes_agree(inputs@[0], inputs@[1]) {
                &&& r matches Batch::Refused(BackendError::ShapeMismatch { op, expected, got })
                &&& op@ == "Matmul"@
                &&& expected@ == seq![0usize, inputs@[1].shape@[1]]
                &&& got@ == inputs@[0].shape@
            } else {
                let x = inputs@[0];
                let w = inputs@[1];
                let n = rows_of(w);
                let b = batch(x);
                &&& r matches Batch::Together(p)
                &&& p.scratch@ == Seq::<usize>::empty()
                &&& p.outputs_view() == seq![
                    output(b * n * 4, leading(x.shape@).push(n as usize)),
                ]
                &&& p.program@ == seq![
                    (StepView::Launch {
                        kernel: Kernel::Matmul,
                        buffers: seq![
                            at(Operand::Input(0)),
                            at(Operand::Input(1)),
                            at(Operand::Output(0)),
                        ],
                        params: Params { w0: b, w1: n, w2: w.shape@[1] as u32, w3: 0 },
                        groups: along_x(ceil_div((b * n) as nat, 64)),
                        threads: along_x(64),
                    }),
                ]
                &&& all_well_launched(p.program@)
                &&& w.shape@[1] <= u32::MAX ==> run_all(untouched(), p.program@)[Operand::Output(
                    0,
                )] == product_value(
                    given(0),
                    given(1),
                    b as int,
                    n as int,
                    x.shape@.last() as int,
                )
            },
            Op::RmsNorm { eps } => {
                let b = batch(inputs@[0]);
                let d = rows_of(inputs@[1]);
                &&& r matches Batch::Together(p)
                &&& p.scratch@ == Seq::<usize>::empty()
                &&& p.outputs_view() == seq![output(float_bytes(b, d), inputs@[0].shape@)]
                &&& p.program@ == seq![
                    norm_step(
                        Operand::Input(0),
                        Operand::Input(1),
                        Operand::Output(0),
                        b,
                        d,
                        eps,
                    ),
                ]
                &&& all_well_launched(p.program@)
                &&& run_all(untouched(), p.program@)[Operand::Output(0)] == norm(
                    given(0),
                    given(1),
                    b as int,
                    d as int,
                    eps,
                )
            },
            _ => {
                let n = product(inputs@[0].shape@) as u32;
                &&& r matches Batch::Together(p)
                &&& p.scratch@ == Seq::<usize>::empty()
                &&& p.outputs_view() == seq![output(n * 4, inputs@[0].shape@)]
                &&& p.program@ == seq![
                    (StepView::Launch {
                        kernel: Kernel::Silu,
                        buffers: seq![at(Operand::Input(0)), at(Operand::Output(0))],
                        params: Params { w0: n, w1: 0, w2: 0, w3: 0 },
                        groups: along_x(ceil_div(n as nat, 256)),
                        threads: along_x(256),
                    }),
                ]
                &&& all_well_launched(p.program@)
                &&& run_all(untouched(), p.program@)[Operand::Output(0)] == silu(
                    given(0),
                    n as int,
                )
            },
        },
{
    if !supports(op, inputs) {
        return Batch::OneByOne;
    }
    match op {
        Op::Matmul => {
            match require(&op, 2, inputs.len()) {
                Ok(_) => {},
                Err(e) => {
                    return Batch::Refused(e);
                },
            }
            let x = &inputs[0];
            let w = &inputs[1];
            if w.shape.len() != 2 || x.shape.len() == 0 || x.shape[x.shape.len() - 1]
                != w.shape[1] {
                let expected: Vec<usize> = vec![0, w.shape[1]];
                assert(expected@ =~= seq![0usize, w.shape@[1]]);
                return Batch::Refused(
                    BackendError::ShapeMismatch {
                        op: "Matmul",
                        expected,
                        got: copy_shape(&x.shape),
                    },
                );
            }
            let n: u32 = w.shape[0] as u32;
            let d = kernels::matmul::dispatch(batch_of(&x.shape), n, w.shape[1] as u32);
            proof {
                let steps = d.program@;
                lemma_run_one(untouched(), steps[0]);
                assert(steps =~= seq![steps[0]]);
                assert(batch(*x) * n >= 0) by (nonlinear_arith);
                lemma_hold((batch(*x) * n) as nat, 64);
                assert(all_well_launched(steps));
                assert(w.shape@[1] <= u32::MAX ==> run_all(untouched(), steps)[Operand::Output(0)]
                    == product_value(
                    given(0),
                    given(1),
                    batch(*x) as int,
                    n as int,
                    x.shape@.last() as int,
                ));
            }
            let mut plan = Plan::new(d.program);
            plan.add_output(output_of(d.out_bytes, with_last(&x.shape, n as usize)));
            assert(plan.outputs_view() =~= seq![
                output(batch(*x) * n * 4, leading(x.shape@).push(n as usize)),
            ]);
            Batch::Together(plan)
        },
        Op::RmsNorm { eps } => {
            let x = &inputs[0];
            let b: u32 = batch_of(&x.shape);
            let d: u32 = inputs[1].shape[0] as u32;
            let mut p = Program::new();
            push_norm(
                &mut p,
                Operand::Input(0),
                Operand::Input(1),
                Operand::Output(0),
                b,
                d,
                eps,
            );
            assert(p@ =~= seq![
                norm_step(Operand::Input(0), Operand::Input(1), Operand::Output(0), b, d, eps),
            ]);
            proof {
                lemma_run_one(untouched(), p@[0]);
                assert(all_well_launched(p@));
                assert(run_all(untouched(), p@)[Operand::Output(0)] == norm(
                    given(0),
                    given(1),
                    b as int,
                    d as int,
                    eps,
                ));
            }
            let mut plan = Plan::new(p);
            plan.add_output(output_of(float_bytes_of(b, d), copy_shape(&x.shape)));
            assert(plan.outputs_view() =~= seq![output(float_bytes(b, d), x.shape@)]);
            Batch::Together(plan)
        },
        _ => {
            let x = &inputs[0];
            let n: u32 = numel(&x.shape) as u32;
            let d = kernels::silu::dispatch(n);
            proof {
                let steps = d.program@;
                lemma_run_one(untouched(), steps[0]);
                assert(steps =~= seq![steps[0]]);
                lemma_hold(n as nat, 256);
                assert(all_well_launched(steps));
                assert(run_all(untouched(), steps)[Operand::Output(0)] == silu(
                    given(0),
                    n as int,
                ));
            }
            let mut plan = Plan::new(d.program);
            plan.add_output(output_of(d.out_bytes, copy_shape(&x.shape)));
            assert(plan.outputs_view() =~= seq![output(n * 4, x.shape@)]);
            Batch::Together(plan)
        },
    }
}

} // verus!
