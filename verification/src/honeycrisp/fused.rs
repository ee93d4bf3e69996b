//! Command buffers of the fused operations.

use vstd::prelude::*;

use crate::honeycrisp::steps::{
    add_step, attn_step, cached_kernel, kv_append_step, matmul_step, norm_step, pick_cached, push_add,
    push_attn, push_kv_append, push_matmul, push_norm, push_silu_mul, quant, quant_of,
    silu_mul_step, Quant, BLOCK,
};
use crate::kernels::cache::within_caches;
use crate::laws::dataflow::{
    all_well_launched, append, attention, gated, given, lemma_run_eight, lemma_run_five,
    lemma_run_push, lemma_run_three, norm, product as product_value, run_all, sum, untouched,
    Value,
};
use crate::laws::decode::lemma_hold;
use crate::plan::{
    along_x, at, bind, output, output_of, row, Extent, Kernel, Operand, Params, Plan, Program,
    StepView,
};
use crate::tensor::{
    batch_of, copy_shape, leading, product, product_fits, with_last, DType, TensorDesc,
};

verus! {

/// At least one word.
pub open spec fn at_least_word(bytes: int) -> int {
    if bytes < 4 {
        4
    } else {
        bytes
    }
}

/// Bytes of `rows * cols` floats, at least one.
pub open spec fn float_bytes(rows: u32, cols: u32) -> int {
    at_least_word(rows * cols * 4)
}

/// Bytes of `rows * cols` floats, at least one.
pub fn float_bytes_of(rows: u32, cols: u32) -> (n: usize)
    requires
        rows * cols * 4 <= usize::MAX,
    ensures
        n == float_bytes(rows, cols),
{
    assert(0 <= rows * cols) by (nonlinear_arith);
    let n: usize = rows as usize * cols as usize * 4;
    if n < 4 {
        4
    } else {
        n
    }
}

/// The first dimension, as the kernels take it.
pub open spec fn rows_of(t: TensorDesc) -> u32 {
    t.shape@[0] as u32
}

/// Rows of the input, as the kernels take it.
pub open spec fn batch(t: TensorDesc) -> u32 {
    product(leading(t.shape@)) as u32
}

/// The shape can be split into rows.
pub open spec fn has_rows(t: TensorDesc) -> bool {
    t.shape@.len() >= 1 && product_fits(leading(t.shape@))
}

/// The attention, output projection and residual sum can be one command
/// buffer: the projection is a block format on the GPU.
pub open spec fn attn_fusible(o_proj: TensorDesc, hidden: TensorDesc) -> bool {
    quant(o_proj.dtype) is Some && o_proj.on_gpu && hidden.dtype == DType::F32
}

/// Whether [`fused_attn_oproj_residual`] takes these tensors.
pub fn is_attn_fusible(o_proj: &TensorDesc, hidden: &TensorDesc) -> (b: bool)
    ensures
        b == attn_fusible(*o_proj, *hidden),
{
    quant_of(o_proj.dtype).is_some() && o_proj.on_gpu && hidden.dtype == DType::F32
}

/// Attention over the cache in `kv_slot`, the output projection, and the
/// residual sum, in one command buffer. Inputs: q, k, v, hidden state and
/// projection.
pub fn fused_attn_oproj_residual(
    hidden_in: &TensorDesc,
    o_proj: &TensorDesc,
    kv_slot: usize,
    position: usize,
    num_heads: u32,
    kv_heads: u32,
    head_dim: u32,
    scale: u32,
    window: u32,
) -> (r: Option<Plan>)
    requires
        attn_fusible(*o_proj, *hidden_in) ==> {
            &&& o_proj.shape@.len() >= 2
            &&& num_heads * head_dim <= u32::MAX
            &&& num_heads * head_dim * 4 <= usize::MAX
            &&& position < usize::MAX
        },
    ensures
        r is Some <==> attn_fusible(*o_proj, *hidden_in),
        r matches Some(p) ==> within_caches(p.program@),
        r matches Some(p) ==> {
            let width = (num_heads * head_dim) as u32;
            let bytes = (num_heads * head_dim * 4) as usize;
            let k_cache = Operand::KCache(kv_slot);
            let v_cache = Operand::VCache(kv_slot);
            let heads = (Extent { x: 1, y: kv_heads as usize, z: 1 });
            &&& p.scratch@ == seq![bytes, bytes]
            &&& p.outputs_view() == seq![output(bytes as int, hidden_in.shape@)]
            &&& p.program@ == seq![
                kv_append_step(
                    Operand::Input(1),
                    k_cache,
                    position as u32,
                    heads,
                    along_x(head_dim as nat),
                ),
                kv_append_step(
                    Operand::Input(2),
                    v_cache,
                    position as u32,
                    heads,
                    along_x(head_dim as nat),
                ),
                attn_step(
                    Operand::Input(0),
                    k_cache,
                    v_cache,
                    Operand::Scratch(0),
                    (position + 1) as u32,
                    window,
                    scale,
                    num_heads,
                ),
                matmul_step(
                    cached_kernel(quant(o_proj.dtype)->0, (o_proj.shape@[1] / BLOCK) as u32),
                    Operand::Scratch(0),
                    Operand::Input(4),
                    Operand::Scratch(1),
                    1,
                    rows_of(*o_proj),
                    (o_proj.shape@[1] / BLOCK) as u32,
                ),
                add_step(
                    Operand::Input(3),
                    Operand::Scratch(1),
                    Operand::Output(0),
                    width,
                    64,
                ),
            ]
        },
        r matches Some(p) ==> all_well_launched(p.program@),
        r matches Some(p) ==> position < u32::MAX && o_proj.shape@[0] <= u32::MAX
            && o_proj.shape@[1] <= u32::MAX ==> {
            let after = run_all(untouched(), p.program@);
            let k = append(Value::Held(Operand::KCache(kv_slot)), given(1), position as int);
            let v = append(Value::Held(Operand::VCache(kv_slot)), given(2), position as int);
            &&& after[Operand::KCache(kv_slot)] == k
            &&& after[Operand::VCache(kv_slot)] == v
            &&& after[Operand::Output(0)] == sum(
                given(3),
                product_value(
                    attention(given(0), k, v, position + 1, window as int, scale),
                    given(4),
                    1,
                    o_proj.shape@[0] as int,
                    o_proj.shape@[1] - o_proj.shape@[1] % 32,
                ),
                num_heads * head_dim,
            )
        },
{
    if !is_attn_fusible(o_proj, hidden_in) {
        return None;
    }
    let q = match quant_of(o_proj.dtype) {
        Some(q) => q,
        None => {
            return None;
        },
    };
    assert(0 <= num_heads * head_dim) by (nonlinear_arith);
    let width: u32 = num_heads * head_dim;
    let bytes: usize = width as usize * 4;
    let k_cache = Operand::KCache(kv_slot);
    let v_cache = Operand::VCache(kv_slot);
    let heads = Extent { x: 1, y: kv_heads as usize, z: 1 };
    let mut p = Program::new();
    push_kv_append(
        &mut p,
        Operand::Input(1),
        k_cache,
        position as u32,
        heads,
        row(head_dim as usize),
    );
    push_kv_append(
        &mut p,
        Operand::Input(2),
        v_cache,
        position as u32,
        heads,
        row(head_dim as usize),
    );
    push_attn(
        &mut p,
        Operand::Input(0),
        k_cache,
        v_cache,
        Operand::Scratch(0),
        (position + 1) as u32,
        window,
        scale,
        num_heads,
    );
    let blocks: u32 = (o_proj.shape[1] / BLOCK) as u32;
    push_matmul(
        &mut p,
        pick_cached(q, blocks),
        Operand::Scratch(0),
        Operand::Input(4),
        Operand::Scratch(1),
        1,
        o_proj.shape[0] as u32,
        blocks,
    );
    push_add(&mut p, Operand::Input(3), Operand::Scratch(1), Operand::Output(0), width, 64);
    proof {
        let steps = p@;
        lemma_hold(1 * (o_proj.shape@[0] as u32) as nat, 16);
        lemma_hold(width as nat, 64);
        lemma_run_five(untouched(), steps[0], steps[1], steps[2], steps[3], steps[4]);
        assert(steps =~= seq![steps[0], steps[1], steps[2], steps[3], steps[4]]);
    }
    let mut plan = Plan::new(p);
    plan.add_scratch(bytes);
    plan.add_scratch(bytes);
    plan.add_output(output_of(bytes, copy_shape(&hidden_in.shape)));
    assert(plan.scratch@ =~= seq![bytes, bytes]);
    assert(plan.outputs_view() =~= seq![output(bytes as int, hidden_in.shape@)]);
    Some(plan)
}

/// Attention of one token over the cache in `kv_slot`. Inputs: q, k and v.
pub fn gpu_attention(
    kv_slot: usize,
    position: usize,
    num_heads: u32,
    kv_heads: u32,
    head_dim: u32,
    scale: u32,
    window: u32,
) -> (p: Plan)
    requires
        num_heads * head_dim <= u32::MAX,
        num_heads * head_dim * 4 <= usize::MAX,
        position < usize::MAX,
    ensures
        p.scratch@ == Seq::<usize>::empty(),
        p.outputs_view() == seq![
            output(
                float_bytes(num_heads, head_dim),
                seq![1usize, (num_heads * head_dim) as usize],
            ),
        ],
        ({
            let k_cache = Operand::KCache(kv_slot);
            let v_cache = Operand::VCache(kv_slot);
            let cells = (Extent { x: head_dim as usize, y: kv_heads as usize, z: 1 });
            let one = (Extent { x: 1, y: 1, z: 1 });
            p.program@ == seq![
                kv_append_step(Operand::Input(1), k_cache, position as u32, cells, one),
                kv_append_step(Operand::Input(2), v_cache, position as u32, cells, one),
                attn_step(
                    Operand::Input(0),
                    k_cache,
                    v_cache,
                    Operand::Output(0),
                    (position + 1) as u32,
                    window,
                    scale,
                    num_heads,
                ),
            ]
        }),
        all_well_launched(p.program@),
        position < u32::MAX ==> {
            let after = run_all(untouched(), p.program@);
            let k = append(Value::Held(Operand::KCache(kv_slot)), given(1), position as int);
            let v = append(Value::Held(Operand::VCache(kv_slot)), given(2), position as int);
            &&& after[Operand::KCache(kv_slot)] == k
            &&& after[Operand::VCache(kv_slot)] == v
            &&& after[Operand::Output(0)] == attention(
                given(0),
                k,
                v,
                position + 1,
                window as int,
                scale,
            )
        },
{
    assert(0 <= num_heads * head_dim) by (nonlinear_arith);
    let k_cache = Operand::KCache(kv_slot);
    let v_cache = Operand::VCache(kv_slot);
    let cells = Extent { x: head_dim as usize, y: kv_heads as usize, z: 1 };
    let one = Extent { x: 1, y: 1, z: 1 };
    let mut p = Program::new();
    push_kv_append(&mut p, Operand::Input(1), k_cache, position as u32, cells, one);
    push_kv_append(&mut p, Operand::Input(2), v_cache, position as u32, cells, one);
    push_attn(
        &mut p,
        Operand::Input(0),
        k_cache,
        v_cache,
        Operand::Output(0),
        (position + 1) as u32,
        window,
        scale,
        num_heads,
    );
    proof {
        let steps = p@;
        lemma_run_three(untouched(), steps[0], steps[1], steps[2]);
        assert(steps =~= seq![steps[0], steps[1], steps[2]]);
    }
    let mut plan = Plan::new(p);
    let shape: Vec<usize> = vec![1, (num_heads * head_dim) as usize];
    let ghost shape_view = shape@;
    plan.add_output(output_of(float_bytes_of(num_heads, head_dim), shape));
    assert(shape_view =~= seq![1usize, (num_heads * head_dim) as usize]);
    assert(plan.outputs_view() =~= seq![output(float_bytes(num_heads, head_dim), shape_view)]);
    plan
}

/// Normalisation, the three projections and the head normalisations can be
/// one command buffer.
pub open spec fn qkv_fusible(
    hidden: TensorDesc,
    input_norm: TensorDesc,
    q_proj: TensorDesc,
    k_proj: TensorDesc,
    v_proj: TensorDesc,
    q_norm: TensorDesc,
    k_norm: TensorDesc,
) -> bool {
    &&& quant(q_proj.dtype) is Some
    &&& k_proj.dtype == q_proj.dtype && v_proj.dtype == q_proj.dtype
    &&& q_proj.on_gpu && k_proj.on_gpu && v_proj.on_gpu
    &&& q_proj.shape@[1] % BLOCK == 0
    &&& hidden.dtype == DType::F32 && input_norm.dtype == DType::F32
    &&& q_norm.dtype == DType::F32 && k_norm.dtype == DType::F32
}

/// The steps from the hidden state to the normalised heads. Inputs: hidden
/// state, input norm, q, k and v projections, q norm and k norm.
pub open spec fn norm_qkv_steps(
    quant: Quant,
    b: u32,
    d: u32,
    q_n: u32,
    k_n: u32,
    v_n: u32,
    eps: u32,
    q_heads: usize,
    k_heads: usize,
    head_dim: usize,
) -> Seq<StepView> {
    let blocks = (d as usize / BLOCK) as u32;
    let kernel = cached_kernel(quant, blocks);
    let normed = Operand::Scratch(0);
    let (q, k) = (Operand::Scratch(1), Operand::Scratch(2));
    seq![
        norm_step(Operand::Input(0), Operand::Input(1), normed, b, d, eps),
        StepView::Barrier,
        matmul_step(kernel, normed, Operand::Input(2), q, b, q_n, blocks),
        matmul_step(kernel, normed, Operand::Input(3), k, b, k_n, blocks),
        matmul_step(kernel, normed, Operand::Input(4), Operand::Output(2), b, v_n, blocks),
        StepView::Barrier,
        head_norm_step(q, Operand::Input(5), Operand::Output(0), q_heads, head_dim, eps),
        head_norm_step(k, Operand::Input(6), Operand::Output(1), k_heads, head_dim, eps),
    ]
}

/// The three results are the projections of the normalised hidden state, the
/// query and the key normalised by head.
pub proof fn heads_are_normed_projections(
    quant: Quant,
    b: u32,
    d: u32,
    q_n: u32,
    k_n: u32,
    v_n: u32,
    eps: u32,
    q_heads: usize,
    k_heads: usize,
    head_dim: usize,
)
    requires
        q_heads <= u32::MAX,
        k_heads <= u32::MAX,
        head_dim <= u32::MAX,
    ensures
        ({
            let steps = norm_qkv_steps(
                quant,
                b,
                d,
                q_n,
                k_n,
                v_n,
                eps,
                q_heads,
                k_heads,
                head_dim,
            );
            let after = run_all(untouched(), steps);
            let x = norm(given(0), given(1), b as int, d as int, eps);
            let width = d - d % 32;
            &&& after[Operand::Output(0)] == norm(
                product_value(x, given(2), b as int, q_n as int, width),
                given(5),
                q_heads as int,
                head_dim as int,
                eps,
            )
            &&& after[Operand::Output(1)] == norm(
                product_value(x, given(3), b as int, k_n as int, width),
                given(6),
                k_heads as int,
                head_dim as int,
                eps,
            )
            &&& after[Operand::Output(2)] == product_value(
                x,
                given(4),
                b as int,
                v_n as int,
                width,
            )
            &&& b * q_n <= u32::MAX && b * k_n <= u32::MAX && b * v_n <= u32::MAX
                ==> all_well_launched(steps)
        }),
{
    let t = norm_qkv_steps(quant, b, d, q_n, k_n, v_n, eps, q_heads, k_heads, head_dim);
    lemma_run_eight(untouched(), t[0], t[1], t[2], t[3], t[4], t[5], t[6], t[7]);
    assert(t =~= seq![t[0], t[1], t[2], t[3], t[4], t[5], t[6], t[7]]);
    assert(b * q_n >= 0 && b * k_n >= 0 && b * v_n >= 0) by (nonlinear_arith);
    lemma_hold((b * q_n) as nat, 16);
    lemma_hold((b * k_n) as nat, 16);
    lemma_hold((b * v_n) as nat, 16);
}

/// Input normalisation, the q, k and v projections, and the head
/// normalisations of q and k. Inputs: hidden state, input norm, q, k and v
/// projections, q norm and k norm. Outputs: q, k and v.
pub fn fused_norm_qkv_qknorm(
    hidden: &TensorDesc,
    input_norm: &TensorDesc,
    q_proj: &TensorDesc,
    k_proj: &TensorDesc,
    v_proj: &TensorDesc,
    q_norm: &TensorDesc,
    k_norm: &TensorDesc,
    eps: u32,
    num_q_heads: usize,
    num_k_heads: usize,
    head_dim: usize,
) -> (r: Option<Plan>)
    requires
        quant(q_proj.dtype) is Some ==> q_proj.shape@.len() >= 2,
        qkv_fusible(*hidden, *input_norm, *q_proj, *k_proj, *v_proj, *q_norm, *k_norm) ==> {
            &&& has_rows(*hidden)
            &&& input_norm.shape@.len() >= 1
            &&& k_proj.shape@.len() >= 1
            &&& v_proj.shape@.len() >= 1
            &&& batch(*hidden) * rows_of(*q_proj) <= u32::MAX
            &&& batch(*hidden) * rows_of(*k_proj) <= u32::MAX
            &&& batch(*hidden) * rows_of(*v_proj) <= u32::MAX
            &&& batch(*hidden) * rows_of(*input_norm) * 4 <= usize::MAX
            &&& batch(*hidden) * rows_of(*q_proj) * 4 <= usize::MAX
            &&& batch(*hidden) * rows_of(*k_proj) * 4 <= usize::MAX
            &&& batch(*hidden) * rows_of(*v_proj) * 4 <= usize::MAX
            &&& num_q_heads * head_dim <= usize::MAX
            &&& num_k_heads * head_dim <= usize::MAX
        },
    ensures
        r is Some <==> qkv_fusible(
            *hidden,
            *input_norm,
            *q_proj,
            *k_proj,
            *v_proj,
            *q_norm,
            *k_norm,
        ),
        r matches Some(p) ==> within_caches(p.program@),
        r matches Some(p) ==> {
            let b = batch(*hidden);
            let d = rows_of(*input_norm);
            let q_n = rows_of(*q_proj);
            let k_n = rows_of(*k_proj);
            let v_n = rows_of(*v_proj);
            &&& p.scratch@ == seq![
                float_bytes(b, d) as usize,
                float_bytes(b, q_n) as usize,
                float_bytes(b, k_n) as usize,
            ]
            &&& p.outputs_view() == seq![
                output(float_bytes(b, q_n), seq![1usize, (num_q_heads * head_dim) as usize]),
                output(float_bytes(b, k_n), seq![1usize, (num_k_heads * head_dim) as usize]),
                output(float_bytes(b, v_n), seq![1usize, v_n as usize]),
            ]
            &&& p.program@ == norm_qkv_steps(
                quant(q_proj.dtype)->0,
                b,
                d,
                q_n,
                k_n,
                v_n,
                eps,
                num_q_heads,
                num_k_heads,
                head_dim,
            )
        },
{
    let q = match quant_of(q_proj.dtype) {
        Some(q) => q,
        None => {
            return None;
        },
    };
    if !(k_proj.dtype == q_proj.dtype && v_proj.dtype == q_proj.dtype && q_proj.on_gpu
        && k_proj.on_gpu && v_proj.on_gpu && q_proj.shape[1] % BLOCK == 0 && hidden.dtype
        == DType::F32 && input_norm.dtype == DType::F32 && q_norm.dtype == DType::F32
        && k_norm.dtype == DType::F32) {
        return None;
    }
    let b: u32 = batch_of(&hidden.shape);
    let d: u32 = input_norm.shape[0] as u32;
    let q_n: u32 = q_proj.shape[0] as u32;
    let k_n: u32 = k_proj.shape[0] as u32;
    let v_n: u32 = v_proj.shape[0] as u32;
    let blocks: u32 = (d as usize / BLOCK) as u32;
    let kernel = pick_cached(q, blocks);
    let normed = Operand::Scratch(0);
    let mut p = Program::new();
    push_norm(&mut p, Operand::Input(0), Operand::Input(1), normed, b, d, eps);
    p.barrier();
    push_matmul(
        &mut p,
        kernel,
        normed,
        Operand::Input(2),
        Operand::Scratch(1),
        b,
        q_n,
        blocks,
    );
    push_matmul(
        &mut p,
        kernel,
        normed,
        Operand::Input(3),
        Operand::Scratch(2),
        b,
        k_n,
        blocks,
    );
    push_matmul(
        &mut p,
        kernel,
        normed,
        Operand::Input(4),
        Operand::Output(2),
        b,
        v_n,
        blocks,
    );
    p.barrier();
    push_head_norm(
        &mut p,
        Operand::Scratch(1),
        Operand::Input(5),
        Operand::Output(0),
        num_q_heads,
        head_dim,
        eps,
    );
    push_head_norm(
        &mut p,
        Operand::Scratch(2),
        Operand::Input(6),
        Operand::Output(1),
        num_k_heads,
        head_dim,
        eps,
    );
    let mut plan = Plan::new(p);
    plan.add_scratch(float_bytes_of(b, d));
    plan.add_scratch(float_bytes_of(b, q_n));
    plan.add_scratch(float_bytes_of(b, k_n));
    plan.add_output(output_of(float_bytes_of(b, q_n), row_shape(num_q_heads * head_dim)));
    plan.add_output(output_of(float_bytes_of(b, k_n), row_shape(num_k_heads * head_dim)));
    plan.add_output(output_of(float_bytes_of(b, v_n), row_shape(v_n as usize)));
    assert(plan.scratch@ =~= seq![
        float_bytes(b, d) as usize,
        float_bytes(b, q_n) as usize,
        float_bytes(b, k_n) as usize,
    ]);
    assert(plan.outputs_view() =~= seq![
        output(float_bytes(b, q_n), seq![1usize, (num_q_heads * head_dim) as usize]),
        output(float_bytes(b, k_n), seq![1usize, (num_k_heads * head_dim) as usize]),
        output(float_bytes(b, v_n), seq![1usize, v_n as usize]),
    ]);
    Some(plan)
}

/// The shape of a single row.
fn row_shape(width: usize) -> (shape: Vec<usize>)
    ensures
        shape@ == seq![1usize, width],
{
    let shape: Vec<usize> = vec![1, width];
    assert(shape@ =~= seq![1usize, width]);
    shape
}

/// RMS normalisation of each head, one threadgroup per head.
pub open spec fn head_norm_step(
    x: Operand,
    gamma: Operand,
    out: Operand,
    heads: usize,
    head_dim: usize,
    eps: u32,
) -> StepView {
    StepView::Launch {
        kernel: Kernel::RmsNorm,
        buffers: seq![at(x), at(gamma), at(out)],
        params: Params { w0: heads as u32, w1: head_dim as u32, w2: eps, w3: 0 },
        groups: along_x(heads as nat),
        threads: along_x(256),
    }
}

fn push_head_norm(
    p: &mut Program,
    x: Operand,
    gamma: Operand,
    out: Operand,
    heads: usize,
    head_dim: usize,
    eps: u32,
)
    ensures
        final(p)@ == old(p)@.push(head_norm_step(x, gamma, out, heads, head_dim, eps)),
{
    p.launch(
        Kernel::RmsNorm,
        vec![bind(x), bind(gamma), bind(out)],
        Params { w0: heads as u32, w1: head_dim as u32, w2: eps, w3: 0 },
        row(heads),
        row(256),
    );
}

/// The gated feed-forward can be one command buffer.
pub open spec fn swiglu_fusible(
    hidden: TensorDesc,
    post_norm: TensorDesc,
    gate: TensorDesc,
    up: TensorDesc,
    down: TensorDesc,
) -> bool {
    &&& gate.dtype == DType::Q8 && up.dtype == DType::Q8 && down.dtype == DType::Q8
    &&& gate.on_gpu && up.on_gpu && down.on_gpu
    &&& gate.shape@[1] == up.shape@[1] && gate.shape@[0] == up.shape@[0]
    &&& down.shape@[1] == gate.shape@[0]
    &&& gate.shape@[1] == hidden.shape@.last()
    &&& gate.shape@[1] % BLOCK == 0 && down.shape@[1] % BLOCK == 0
    &&& hidden.dtype == DType::F32 && post_norm.dtype == DType::F32
}

/// The steps from the hidden state to the down projection. Inputs: hidden
/// state, norm, gate, up and down projections. Scratch: normalised state,
/// gate, up and their product.
pub open spec fn swiglu_steps(
    q: Quant,
    b: u32,
    d: u32,
    inter: u32,
    down_n: u32,
    eps: u32,
    out: Operand,
) -> Seq<StepView> {
    let blocks_d = (d as usize / BLOCK) as u32;
    let kernel = cached_kernel(q, blocks_d);
    let blocks_inter = (inter as usize / BLOCK) as u32;
    seq![
        norm_step(Operand::Input(0), Operand::Input(1), Operand::Scratch(0), b, d, eps),
        StepView::Barrier,
        matmul_step(
            kernel,
            Operand::Scratch(0),
            Operand::Input(2),
            Operand::Scratch(1),
            b,
            inter,
            blocks_d,
        ),
        matmul_step(
            kernel,
            Operand::Scratch(0),
            Operand::Input(3),
            Operand::Scratch(2),
            b,
            inter,
            blocks_d,
        ),
        StepView::Barrier,
        silu_mul_step(
            Operand::Scratch(1),
            Operand::Scratch(2),
            Operand::Scratch(3),
            (b * inter) as u32,
        ),
        StepView::Barrier,
        matmul_step(
            cached_kernel(q, blocks_inter),
            Operand::Scratch(3),
            Operand::Input(4),
            out,
            b,
            down_n,
            blocks_inter,
        ),
    ]
}

/// The result is the down projection of the activated gate times the up
/// projection, both of the normalised hidden state; with a residual, the sum
/// with it.
pub proof fn feed_forward_is_gated(
    q: Quant,
    b: u32,
    d: u32,
    inter: u32,
    down_n: u32,
    eps: u32,
    out: Operand,
)
    requires
        out is Output || out == Operand::Scratch(4),
    ensures
        ({
            let steps = swiglu_steps(q, b, d, inter, down_n, eps, out);
            let after = run_all(untouched(), steps);
            let whole = steps.push(StepView::Barrier).push(
                add_step(Operand::Input(0), out, Operand::Output(0), down_n, 64),
            );
            let x = norm(given(0), given(1), b as int, d as int, eps);
            let y = product_value(
                gated(
                    product_value(x, given(2), b as int, inter as int, d - d % 32),
                    product_value(x, given(3), b as int, inter as int, d - d % 32),
                    false,
                ),
                given(4),
                b as int,
                down_n as int,
                inter - inter % 32,
            );
            &&& after[out] == y
            &&& run_all(untouched(), whole)[Operand::Output(0)] == sum(
                given(0),
                y,
                down_n as int,
            )
            &&& b * inter <= u32::MAX && b * down_n <= u32::MAX ==> all_well_launched(steps)
                && all_well_launched(whole)
        }),
{
    let t = swiglu_steps(q, b, d, inter, down_n, eps, out);
    lemma_run_eight(untouched(), t[0], t[1], t[2], t[3], t[4], t[5], t[6], t[7]);
    assert(t =~= seq![t[0], t[1], t[2], t[3], t[4], t[5], t[6], t[7]]);
    let sum_step = add_step(Operand::Input(0), out, Operand::Output(0), down_n, 64);
    lemma_run_push(untouched(), t, StepView::Barrier);
    lemma_run_push(untouched(), t.push(StepView::Barrier), sum_step);
    assert(b * inter >= 0 && b * down_n >= 0) by (nonlinear_arith);
    lemma_hold((b * inter) as nat, 16);
    lemma_hold((b * inter) as nat, 64);
    lemma_hold((b * down_n) as nat, 16);
    lemma_hold(down_n as nat, 64);
}

fn swiglu_program(q: Quant, b: u32, d: u32, inter: u32, down_n: u32, eps: u32, out: Operand) -> (p:
    Program)
    requires
        b * inter <= u32::MAX,
        b * down_n <= u32::MAX,
    ensures
        p@ == swiglu_steps(q, b, d, inter, down_n, eps, out),
{
    assert(0 <= b * inter) by (nonlinear_arith);
    let blocks_d: u32 = (d as usize / BLOCK) as u32;
    let kernel = pick_cached(q, blocks_d);
    let blocks_inter: u32 = (inter as usize / BLOCK) as u32;
    let mut p = Program::new();
    push_norm(&mut p, Operand::Input(0), Operand::Input(1), Operand::Scratch(0), b, d, eps);
    p.barrier();
    push_matmul(
        &mut p,
        kernel,
        Operand::Scratch(0),
        Operand::Input(2),
        Operand::Scratch(1),
        b,
        inter,
        blocks_d,
    );
    push_matmul(
        &mut p,
        kernel,
        Operand::Scratch(0),
        Operand::Input(3),
        Operand::Scratch(2),
        b,
        inter,
        blocks_d,
    );
    p.barrier();
    push_silu_mul(
        &mut p,
        Operand::Scratch(1),
        Operand::Scratch(2),
        Operand::Scratch(3),
        b * inter,
    );
    p.barrier();
    push_matmul(
        &mut p,
        pick_cached(q, blocks_inter),
        Operand::Scratch(3),
        Operand::Input(4),
        out,
        b,
        down_n,
        blocks_inter,
    );
    assert(p@ =~= swiglu_steps(q, b, d, inter, down_n, eps, out));
    p
}

/// Normalisation, gate, up, activation and down projection in one command
/// buffer. Inputs as in [`swiglu_steps`].
pub fn fused_norm_swiglu_down(
    hidden: &TensorDesc,
    post_norm: &TensorDesc,
    gate: &TensorDesc,
    up: &TensorDesc,
    down: &TensorDesc,
    eps: u32,
) -> (r: Option<Plan>)
    requires
        hidden.shape@.len() >= 1,
        gate.shape@.len() >= 2,
        up.shape@.len() >= 2,
        down.shape@.len() >= 2,
        swiglu_fusible(*hidden, *post_norm, *gate, *up, *down) ==> {
            &&& has_rows(*hidden)
            &&& post_norm.shape@.len() >= 1
            &&& batch(*hidden) * rows_of(*gate) <= u32::MAX
            &&& batch(*hidden) * rows_of(*down) <= u32::MAX
            &&& batch(*hidden) * rows_of(*post_norm) * 4 <= usize::MAX
            &&& batch(*hidden) * rows_of(*gate) * 4 <= usize::MAX
            &&& batch(*hidden) * rows_of(*down) * 4 <= usize::MAX
        },
    ensures
        r is Some <==> swiglu_fusible(*hidden, *post_norm, *gate, *up, *down),
        r matches Some(p) ==> within_caches(p.program@),
        r matches Some(p) ==> {
            let b = batch(*hidden);
            let d = rows_of(*post_norm);
            let inter = rows_of(*gate);
            let down_n = rows_of(*down);
            let inter_bytes = float_bytes(b, inter) as usize;
            &&& p.scratch@ == seq![
                float_bytes(b, d) as usize,
                inter_bytes,
                inter_bytes,
                inter_bytes,
            ]
            &&& p.outputs_view() == seq![
                output(
                    float_bytes(b, down_n),
                    leading(hidden.shape@).push(down_n as usize),
                ),
            ]
            &&& p.program@ == swiglu_steps(
                Quant::Q8,
                b,
                d,
                inter,
                down_n,
                eps,
                Operand::Output(0),
            )
        },
{
    let q8: bool = gate.dtype == DType::Q8 && up.dtype == DType::Q8 && down.dtype == DType::Q8;
    let on_gpu: bool = gate.on_gpu && up.on_gpu && down.on_gpu;
    let last: usize = hidden.shape[hidden.shape.len() - 1];
    let fits: bool = gate.shape[1] == up.shape[1] && gate.shape[0] == up.shape[0] && down.shape[1]
        == gate.shape[0] && gate.shape[1] == last;
    let aligned: bool = gate.shape[1] % BLOCK == 0 && down.shape[1] % BLOCK == 0;
    if !(q8 && on_gpu && fits && aligned && hidden.dtype == DType::F32 && post_norm.dtype
        == DType::F32) {
        return None;
    }
    let b: u32 = batch_of(&hidden.shape);
    let d: u32 = post_norm.shape[0] as u32;
    let inter: u32 = gate.shape[0] as u32;
    let down_n: u32 = down.shape[0] as u32;
    let p = swiglu_program(Quant::Q8, b, d, inter, down_n, eps, Operand::Output(0));
    let inter_bytes: usize = float_bytes_of(b, inter);
    let mut plan = Plan::new(p);
    plan.add_scratch(float_bytes_of(b, d));
    plan.add_scratch(inter_bytes);
    plan.add_scratch(inter_bytes);
    plan.add_scratch(inter_bytes);
    plan.add_output(output_of(float_bytes_of(b, down_n), with_last(&hidden.shape, down_n as usize)));
    assert(plan.scratch@ =~= seq![
        float_bytes(b, d) as usize,
        inter_bytes,
        inter_bytes,
        inter_bytes,
    ]);
    assert(plan.outputs_view() =~= seq![
        output(float_bytes(b, down_n), leading(hidden.shape@).push(down_n as usize)),
    ]);
    Some(plan)
}

/// The gated feed-forward with its residual sum can be one command buffer.
pub open spec fn ffn_fusible(
    hidden: TensorDesc,
    post_norm: TensorDesc,
    gate: TensorDesc,
    up: TensorDesc,
    down: TensorDesc,
) -> bool {
    &&& quant(gate.dtype) is Some && gate.dtype == up.dtype && gate.dtype == down.dtype
    &&& gate.on_gpu && up.on_gpu && down.on_gpu
    &&& hidden.dtype == DType::F32 && post_norm.dtype == DType::F32
}

/// The widths of the projections agree.
pub open spec fn ffn_widths_agree(
    post_norm: TensorDesc,
    gate: TensorDesc,
    up: TensorDesc,
    down: TensorDesc,
) -> bool {
    let d = rows_of(post_norm);
    &&& gate.shape@[1] as u32 == d
    &&& up.shape@[1] as u32 == d
    &&& down.shape@[1] as u32 == rows_of(gate)
}

/// The feed-forward of one token with its residual sum. Inputs and scratch as
/// in [`swiglu_steps`], and a fifth scratch buffer for the down projection.
pub fn fused_ffn_residual(
    hidden_in: &TensorDesc,
    post_norm: &TensorDesc,
    gate: &TensorDesc,
    up: &TensorDesc,
    down: &TensorDesc,
    eps: u32,
) -> (r: Option<Plan>)
    requires
        ffn_fusible(*hidden_in, *post_norm, *gate, *up, *down) ==> {
            &&& post_norm.shape@.len() >= 1
            &&& gate.shape@.len() >= 2
            &&& up.shape@.len() >= 2
            &&& down.shape@.len() >= 2
            &&& ffn_widths_agree(*post_norm, *gate, *up, *down) ==> {
                &&& hidden_in.shape@.len() >= 1
                &&& rows_of(*post_norm) * 4 <= u32::MAX
                &&& rows_of(*gate) * 4 <= u32::MAX
                &&& rows_of(*down) * 4 <= u32::MAX
            }
        },
    ensures
        r is Some <==> ffn_fusible(*hidden_in, *post_norm, *gate, *up, *down) && ffn_widths_agree(
            *post_norm,
            *gate,
            *up,
            *down,
        ),
        r matches Some(p) ==> within_caches(p.program@),
        r matches Some(p) ==> {
            let d = rows_of(*post_norm);
            let inter = rows_of(*gate);
            let down_n = rows_of(*down);
            let inter_bytes = (inter * 4) as usize;
            &&& p.scratch@ == seq![
                (d * 4) as usize,
                inter_bytes,
                inter_bytes,
                inter_bytes,
                (down_n * 4) as usize,
            ]
            &&& p.outputs_view() == seq![
                output(down_n * 4, leading(hidden_in.shape@).push(down_n as usize)),
            ]
            &&& p.program@ == swiglu_steps(
                quant(gate.dtype)->0,
                1,
                d,
                inter,
                down_n,
                eps,
                Operand::Scratch(4),
            ).push(StepView::Barrier).push(
                add_step(
                    Operand::Input(0),
                    Operand::Scratch(4),
                    Operand::Output(0),
                    down_n,
                    64,
                ),
            )
        },
{
    let q = match quant_of(gate.dtype) {
        Some(q) => q,
        None => {
            return None;
        },
    };
    if !(gate.dtype == up.dtype && gate.dtype == down.dtype && gate.on_gpu && up.on_gpu
        && down.on_gpu && hidden_in.dtype == DType::F32 && post_norm.dtype == DType::F32) {
        return None;
    }
    let d: u32 = post_norm.shape[0] as u32;
    let inter: u32 = gate.shape[0] as u32;
    let down_n: u32 = down.shape[0] as u32;
    if gate.shape[1] as u32 != d || up.shape[1] as u32 != d || down.shape[1] as u32 != inter {
        return None;
    }
    let mut p = swiglu_program(q, 1, d, inter, down_n, eps, Operand::Scratch(4));
    p.barrier();
    push_add(&mut p, Operand::Input(0), Operand::Scratch(4), Operand::Output(0), down_n, 64);
    let inter_bytes: usize = (inter * 4) as usize;
    let mut plan = Plan::new(p);
    plan.add_scratch((d * 4) as usize);
    plan.add_scratch(inter_bytes);
    plan.add_scratch(inter_bytes);
    plan.add_scratch(inter_bytes);
    plan.add_scratch((down_n * 4) as usize);
    plan.add_output(
        output_of((down_n * 4) as usize, with_last(&hidden_in.shape, down_n as usize)),
    );
    assert(plan.scratch@ =~= seq![
        (d * 4) as usize,
        inter_bytes,
        inter_bytes,
        inter_bytes,
        (down_n * 4) as usize,
    ]);
    assert(plan.outputs_view() =~= seq![
        output(down_n * 4, leading(hidden_in.shape@).push(down_n as usize)),
    ]);
    Some(plan)
}

} // verus!
