//! The reference backend: extents and places in plain numbers.

use vstd::prelude::*;

use crate::backend::{BackendError, Op};
use crate::cpu::broadcast::{
    address, common_rank, compatible, is_pairing, joined_shape, machine_strides, padded, volume,
    volumes_fit, Pairing,
};
use crate::cpu::gated_delta::{
    after, is_columns, is_expanded, is_history, is_windows, refused, Call, GatedDeltaDims, Stage,
};
use crate::cpu::mrope::{pairs_apart, positions_of, run_end, run_positions, start_of, ModalityRun};
use crate::cpu::ops::{
    arity, matmul_outcome, op_outcome, quant_matmul_outcome, rms_norm_outcome, rope_outcome,
    softmax_outcome, swiglu_outcome, CpuStep, MatmulPlan, QuantMatmulPlan, RopePlan, RowsPlan,
    SwigluPlan,
};
use crate::cpu::quant_dot::{is_fused, lanes_start};
use crate::cpu::tower::{
    block_products, is_block_plan, is_merger_plan, merger_products, spans_between, tap_rows,
    MergerPlan, VisionBlockPlan,
};
use crate::cpu::vision::{angle_at, patch_at, Angle};
use crate::quant::stored::Format;
use crate::tensor::{leading, product, DType, TensorDesc};
use crate::weights::{VisionBlockWeights, VisionMergerWeights};

verus! {

/// The elements of a shape of one more dimension are as many times more.
pub proof fn sizes_multiply(lead: Seq<usize>, k: usize)
    ensures
        product(lead.push(k)) == k * product(lead),
        product(Seq::<usize>::empty()) == 1,
        leading(lead.push(k)) == lead,
{
    assert(lead.push(k).drop_last() =~= lead);
    assert(leading(lead.push(k)) =~= lead);
    assert(product(lead) * (k as nat) == k * product(lead)) by (nonlinear_arith);
}

/// A product with a matrix of `n` rows takes any input of its width: as many
/// rows as the other dimensions have, and a result that ends in `n`. Any
/// other input is refused.
pub proof fn products_replace_the_last_dimension(
    r: Result<MatmulPlan, BackendError>,
    lead: Seq<usize>,
    m: usize,
    n: usize,
    k: usize,
)
    requires
        matmul_outcome(r, lead.push(m), seq![n, k]),
    ensures
        m == k ==> (r matches Ok(p) && p.batch == product(lead) && p.n == n && p.k == k && p.shape@
            == lead.push(n)),
        m != k ==> (r matches Err(BackendError::ShapeMismatch { op, expected, got }) && op@
            == "Matmul"@ && expected@ == seq![0, k] && got@ == lead.push(m)),
{
    assert(leading(lead.push(m)) =~= lead);
}

/// A norm takes inputs of the width of its gains and keeps their shape.
pub proof fn norms_keep_the_shape(
    r: Result<RowsPlan, BackendError>,
    lead: Seq<usize>,
    m: usize,
    k: usize,
)
    requires
        rms_norm_outcome(r, lead.push(m), seq![k]),
    ensures
        m == k ==> (r matches Ok(p) && p.batch == product(lead) && p.width == k && p.shape@
            == lead.push(k)),
        m != k ==> r is Err,
{
    assert(leading(lead.push(m)) =~= lead);
}

/// Softmax is over the last dimension, counted from either end, and nothing
/// else.
pub proof fn softmax_is_over_the_last_dimension(
    r: Result<RowsPlan, BackendError>,
    lead: Seq<usize>,
    m: usize,
    dim: i32,
)
    requires
        softmax_outcome(r, lead.push(m), dim),
    ensures
        r is Ok <==> dim == -1 || dim == lead.len(),
        r matches Ok(p) ==> p.batch == product(lead) && p.width == m && p.shape@ == lead.push(m),
{
    assert(leading(lead.push(m)) =~= lead);
}

/// Rotation of `per` heads at each of the positions: an even part of the head
/// width, half of it in pairs.
pub proof fn rotation_shares_positions(
    r: Result<RopePlan, BackendError>,
    lead: Seq<usize>,
    pos: Seq<usize>,
    head_dim: usize,
    rope_dim: usize,
    per: int,
)
    requires
        rope_outcome(r, lead.push(head_dim), pos, head_dim, rope_dim),
        product(pos) > 0,
        head_dim > 0,
        0 <= per,
    ensures
        rope_dim == 0 || rope_dim as int % 2 == 1 || rope_dim > head_dim ==> r is Err,
        0 < rope_dim <= head_dim && rope_dim as int % 2 == 0 && product(lead) == per * product(pos)
            ==> (r matches Ok(p) && p.rows == product(lead) && p.head_dim == head_dim && 2
            * p.rotated == rope_dim && p.heads_per_pos == per && p.shape@ == lead.push(head_dim)),
{
    sizes_multiply(lead, head_dim);
    let rows = product(lead) as int;
    vstd::arithmetic::div_mod::lemma_div_by_multiple(rows, head_dim as int);
    assert(rows * head_dim == head_dim * rows) by (nonlinear_arith);
    if rows == per * product(pos) {
        vstd::arithmetic::div_mod::lemma_div_by_multiple(per, product(pos) as int);
        vstd::arithmetic::div_mod::lemma_mod_multiples_basic(per, product(pos) as int);
    }
}

/// Values and bytes of a block of the encodings with products of their own.
pub open spec fn block_sizes(dtype: DType) -> Option<(Format, int, int)> {
    match dtype {
        DType::Q8 => Some((Format::Q8, 32, 34)),
        DType::Q4 => Some((Format::Q4, 32, 18)),
        DType::Q8_0 => Some((Format::Q8_0, 32, 34)),
        DType::Q4_0 => Some((Format::Q4_0, 32, 18)),
        DType::Q4_K => Some((Format::Q4_K, 256, 144)),
        DType::Q6_K => Some((Format::Q6_K, 256, 210)),
        _ => None,
    }
}

/// A product with an encoded matrix of `n` rows of whole blocks takes data of
/// just the blocks of the rows.
#[verifier::spinoff_prover]
#[verifier::rlimit(40)]
pub proof fn encoded_rows_are_whole_blocks(
    r: Result<QuantMatmulPlan, BackendError>,
    lead: Seq<usize>,
    len: usize,
    dtype: DType,
    n: usize,
    k: usize,
    blocks: int,
)
    requires
        quant_matmul_outcome(r, lead.push(k), len, dtype, n, k),
        0 <= blocks,
    ensures
        block_sizes(dtype) is None ==> (r matches Err(BackendError::UnsupportedDtype {
            dtype: d,
            ..
        }) && d == dtype),
        block_sizes(dtype) matches Some(s) ==> k == blocks * s.1 ==> {
            &&& r is Ok <==> len == n * (blocks * s.2)
            &&& r matches Ok(p) ==> p.format == s.0 && p.batch == product(lead) && p.n == n && p.k
                == k && p.row_bytes == blocks * s.2 && p.shape@ == lead.push(n)
        },
        block_sizes(dtype) matches Some(s) ==> k as int % s.1 != 0 ==> r is Err,
{
    assert(leading(lead.push(k)) =~= lead);
    match block_sizes(dtype) {
        Some(s) => {
            if k == blocks * s.1 {
                vstd::arithmetic::div_mod::lemma_div_by_multiple(blocks, s.1);
                vstd::arithmetic::div_mod::lemma_mod_multiples_basic(blocks, s.1);
            }
        },
        None => {},
    }
}

/// The gated feed-forward part: gate and up from the same input, down from
/// their product back to its own rows.
pub proof fn gated_parts_meet(
    p: SwigluPlan,
    lead: Seq<usize>,
    k: usize,
    gate: Seq<usize>,
    up: Seq<usize>,
    down: Seq<usize>,
)
    requires
        swiglu_outcome(Ok(p), lead.push(k), gate, up, down),
    ensures
        gate.len() == 2 && up.len() == 2 && down.len() == 2,
        gate[1] == k && up[1] == k && down[1] == gate[0],
        p.gate.n == gate[0] && p.up.n == up[0] && p.down.n == down[0],
        p.gate.batch == product(lead) && p.up.batch == product(lead) && p.down.batch == product(
            lead,
        ),
        p.down.shape@ == lead.push(down[0]),
{
    assert(leading(lead.push(k)) =~= lead);
    assert(leading(lead.push(gate[0])) =~= lead);
}

/// Every operation becomes the step of its name, with its own parameters.
pub proof fn operations_become_their_steps(s: CpuStep, op: Op, inputs: Seq<TensorDesc>)
    requires
        op_outcome(Ok(s), op, inputs),
    ensures
        op is Add <==> s is Add,
        op is Mul <==> s is Mul,
        op is Sub <==> s is Sub,
        op is Matmul <==> s is Matmul,
        op is SwiGlu <==> s is SwiGlu,
        op is Sdpa <==> s is Sdpa,
        op is Silu <==> s is Silu,
        op is Softmax <==> s is Softmax,
        s is GeluTanh <==> (op matches Op::Gelu { approximate } && approximate),
        s is GeluErf <==> (op matches Op::Gelu { approximate } && !approximate),
        op matches Op::RmsNorm { eps } ==> (s matches CpuStep::RmsNorm { eps: e, .. } && e == eps),
        op matches Op::Rope { head_dim, rope_dim, base } ==> (s matches CpuStep::Rope {
            plan,
            base: b,
        } && b == base && plan.head_dim == head_dim && plan.rotated == rope_dim / 2),
        s matches CpuStep::Silu(x) ==> x@ == inputs[0].shape@,
{
}

/// Operations on one tensor, on two, attention on three, and the gated
/// feed-forward part on four; embedding is not one of the backend's.
pub proof fn operations_take_their_inputs(op: Op)
    ensures
        arity(op) == Some(1nat) <==> op is Softmax || op is Silu || op is Gelu,
        arity(op) == Some(2nat) <==> op is RmsNorm || op is Matmul || op is Rope || op is Add || op
            is Mul || op is Sub,
        arity(op) == Some(3nat) <==> op is Sdpa,
        arity(op) == Some(4nat) <==> op is SwiGlu,
        arity(op) is None <==> op is Embed,
{
}

/// A row of `m` numbers with every row of an `n` by `m` matrix: element `j` of
/// a row meets element `j`.
#[verifier::spinoff_prover]
#[verifier::rlimit(40)]
pub proof fn rows_meet_every_row(p: Pairing, n: usize, m: usize, i: int, j: int)
    requires
        is_pairing(p, seq![n, m], seq![m]),
        volumes_fit(seq![n, m], 2),
        0 <= i < n,
        0 <= j < m,
    ensures
        p.shape@ == seq![n, m],
        p.pairs@.len() == n * m,
        p.pairs@[i * m + j].0 == (if n == 1 {
            0
        } else {
            i * m
        }) + (if m == 1 {
            0
        } else {
            j
        }),
        p.pairs@[i * m + j].1 == if m == 1 {
            0
        } else {
            j
        },
{
    let a = seq![n, m];
    let b = seq![m];
    let out = joined_shape(a, b);
    assert(out =~= a);
    lemma_matrix(out, n, m, i, j);
    lemma_matrix_address(out, machine_strides(a, 2), n, m, i, j);
    lemma_matrix_address(out, machine_strides(b, 2), n, m, i, j);
    reveal_with_fuel(volume, 4);
    assert(padded(a, 2, 0) == n && padded(a, 2, 1) == m);
    assert(padded(b, 2, 0) == 1 && padded(b, 2, 1) == m);
    assert(volume(a, 2, 2) == 1 && volume(a, 2, 1) == m * 1);
    assert(volume(b, 2, 2) == 1 && volume(b, 2, 1) == m * 1);
    assert(volume(a, 2, 1) <= usize::MAX);
    assert(n == 1 ==> i * 0 == 0);
    assert(i * 0 == 0 && j * 0 == 0 && j * 1 == j) by (nonlinear_arith);
}

proof fn lemma_matrix(out: Seq<usize>, n: usize, m: usize, i: int, j: int)
    requires
        out == seq![n, m],
        0 <= i < n,
        0 <= j < m,
    ensures
        volume(out, 2, 0) == n * m,
        volume(out, 2, 1) == m,
        volume(out, 2, 2) == 1,
        0 <= i * m + j < n * m,
{
    reveal_with_fuel(volume, 4);
    assert(padded(out, 2, 0) == n && padded(out, 2, 1) == m);
    assert(0 <= i * m + j < n * m) by (nonlinear_arith)
        requires
            0 <= i,
            i + 1 <= n,
            0 <= j < m,
    ;
}

proof fn lemma_matrix_address(
    out: Seq<usize>,
    strides: Seq<usize>,
    n: usize,
    m: usize,
    i: int,
    j: int,
)
    requires
        out == seq![n, m],
        strides.len() == 2,
        0 <= i < n,
        0 <= j < m,
    ensures
        address(i * m + j, out, strides, 0) == i * strides[0] + j * strides[1],
{
    lemma_matrix(out, n, m, i, j);
    reveal_with_fuel(address, 4);
    let flat = i * m + j;
    vstd::arithmetic::div_mod::lemma_fundamental_div_mod_converse(flat, m as int, i, j);
    assert(address(flat, out, strides, 0) == flat / m as int * strides[0] + address(
        flat % m as int,
        out,
        strides,
        1,
    ));
    assert(address(j, out, strides, 1) == j / 1 * strides[1] + address(j % 1, out, strides, 2));
    assert(address(j % 1, out, strides, 2) == 0);
    assert(j / 1 == j);
}

/// A column of `n` numbers with every column of an `n` by `m` matrix: element
/// `i` of a column meets element `i`.
#[verifier::spinoff_prover]
#[verifier::rlimit(40)]
pub proof fn columns_meet_every_column(p: Pairing, n: usize, m: usize, i: int, j: int)
    requires
        is_pairing(p, seq![n, m], seq![n, 1]),
        volumes_fit(seq![n, m], 2),
        1 < n,
        1 < m,
        0 <= i < n,
        0 <= j < m,
    ensures
        p.shape@ == seq![n, m],
        p.pairs@.len() == n * m,
        p.pairs@[i * m + j].0 == i * m + j,
        p.pairs@[i * m + j].1 == i,
{
    let a = seq![n, m];
    let b = seq![n, 1];
    let out = joined_shape(a, b);
    assert(out =~= a);
    lemma_matrix(out, n, m, i, j);
    lemma_matrix_address(out, machine_strides(a, 2), n, m, i, j);
    lemma_matrix_address(out, machine_strides(b, 2), n, m, i, j);
    reveal_with_fuel(volume, 4);
    assert(padded(a, 2, 0) == n && padded(a, 2, 1) == m);
    assert(padded(b, 2, 0) == n && padded(b, 2, 1) == 1);
    assert(volume(a, 2, 2) == 1 && volume(a, 2, 1) == m * 1);
    assert(volume(b, 2, 2) == 1 && volume(b, 2, 1) == 1 * 1);
    assert(i * 1 == i && j * 0 == 0 && j * 1 == j) by (nonlinear_arith);
}

/// Shapes of the same length go together where every dimension is the same or
/// one; a dimension of the result is the larger of the two, and the shorter of
/// two shapes is taken to begin with ones.
pub proof fn shapes_join_by_dimension(a: Seq<usize>, b: Seq<usize>, i: int)
    requires
        a.len() == b.len(),
        0 <= i < a.len(),
        compatible(a, b),
    ensures
        a[i] == b[i] || a[i] == 1 || b[i] == 1,
        joined_shape(a, b).len() == a.len(),
        a[i] > 0 && b[i] > 0 ==> joined_shape(a, b)[i] >= a[i] && joined_shape(a, b)[i] >= b[i],
        joined_shape(a, b)[i] == a[i] || joined_shape(a, b)[i] == b[i],
        common_rank(a, b.push(1)) == a.len() + 1,
        padded(a, 1 + a.len() as int, 0) == 1,
        padded(a, 1 + a.len() as int, i + 1) == a[i],
{
    let rank = common_rank(a, b);
    assert(padded(a, rank, i) == a[i]);
    assert(padded(b, rank, i) == b[i]);
}

/// Every `ratio` consecutive value heads have the same key head.
pub proof fn value_heads_share_a_key_head(
    out: Seq<u32>,
    keys: Seq<u32>,
    t: int,
    d: GatedDeltaDims,
    ratio: int,
    row: int,
    g: int,
    j: int,
    e: int,
)
    requires
        is_expanded(out, keys, t, d),
        d.num_v_heads == ratio * d.num_k_heads,
        0 <= row < t,
        0 <= g < d.num_k_heads,
        0 <= j < ratio,
        0 <= e < d.head_k_dim,
    ensures
        out.len() == t * d.num_v_heads * d.head_k_dim,
        out[(row * d.num_v_heads + (g * ratio + j)) * d.head_k_dim + e] == keys[row * (
        d.num_k_heads * d.head_k_dim) + g * d.head_k_dim + e],
{
    let h = g * ratio + j;
    vstd::arithmetic::div_mod::lemma_div_by_multiple(ratio, d.num_k_heads as int);
    assert(0 <= h < ratio * d.num_k_heads) by (nonlinear_arith)
        requires
            h == g * ratio + j,
            0 <= g,
            g + 1 <= d.num_k_heads,
            0 <= j < ratio,
    ;
    vstd::arithmetic::div_mod::lemma_fundamental_div_mod_converse(h, ratio, g, j);
}

/// The last tap of a window is the row itself, the one before it the row
/// before; before the first row stand the rows of the state, the latest last.
pub proof fn windows_end_with_their_row(
    w: Seq<u32>,
    hist: Seq<u32>,
    xs: Seq<u32>,
    t: int,
    channels: int,
    taps: int,
    row: int,
    c: int,
    back: int,
)
    requires
        is_windows(w, hist, xs, t, channels, taps),
        0 <= row < t,
        0 <= c < channels,
        0 <= back < taps,
    ensures
        w.len() == t * channels * taps,
        back <= row ==> w[(row * channels + c) * taps + (taps - 1 - back)] == xs[(row - back)
            * channels + c],
        back > row ==> w[(row * channels + c) * taps + (taps - 1 - back)] == hist[c * (taps - 1)
            + (taps - 1 - (back - row))],
{
    assert(w[(row * channels + c) * taps + (taps - 1 - back)] == w[(row * channels + c) * taps + (
    taps - 1 - back)]);
}

/// The state keeps the last rows of each channel, the latest last, and of
/// those before the call as many as are still wanted.
pub proof fn the_state_keeps_the_last_rows(
    new: Seq<u32>,
    hist: Seq<u32>,
    xs: Seq<u32>,
    t: int,
    channels: int,
    history: int,
    c: int,
    back: int,
)
    requires
        is_history(new, hist, xs, t, channels, history),
        0 <= c < channels,
        0 <= back < history,
        0 <= t,
    ensures
        new.len() == channels * history,
        back < t ==> new[c * history + (history - 1 - back)] == xs[(t - 1 - back) * channels + c],
        back >= t ==> new[c * history + (history - 1 - back)] == hist[c * history + (history - 1 - (
        back - t))],
{
    let e = history - 1 - back;
    assert(new[c * history + e] == new[c * history + e]);
}

/// Of the channels of a row, queries stand first, then as many keys, then
/// values: the columns that a part takes are those from its own start on.
pub proof fn columns_are_cut_out(
    out: Seq<u32>,
    xs: Seq<u32>,
    t: int,
    channels: int,
    from: int,
    width: int,
    row: int,
    j: int,
    d: GatedDeltaDims,
)
    requires
        is_columns(out, xs, t, channels, from, width),
        0 <= row < t,
        0 <= j < width,
    ensures
        out.len() == t * width,
        out[row * width + j] == xs[row * channels + (from + j)],
        d.channels() == 2 * (d.num_k_heads * d.head_k_dim) + d.num_v_heads * d.head_v_dim,
        d.keys() == d.num_k_heads * d.head_k_dim,
        d.values() == d.num_v_heads * d.head_v_dim,
{
    assert(out[row * width + j] == xs[row * channels + from + j]);
}

/// The stages before the recurrence are refused where value heads are no
/// multiple of key heads, or the state has another size; a row is followed by
/// the next, and the last by the norm.
pub proof fn stages_follow_in_order(c: Call, ratio: int, i: int)
    requires
        c.dims.num_k_heads > 0,
    ensures
        refused(Stage::Gate, c) <==> c.dims.num_v_heads as int % c.dims.num_k_heads as int != 0,
        c.dims.num_v_heads == ratio * c.dims.num_k_heads ==> !refused(Stage::Gate, c),
        refused(Stage::Expand, c) <==> c.state != c.dims.num_v_heads * c.dims.head_k_dim
            * c.dims.head_v_dim,
        forall|s: Stage|
            #![trigger refused(s, c)]
            !(s is Gate) && !(s is Expand) ==> !refused(s, c),
        after(Stage::ProjectQkv, c.rows) is ProjectZ,
        after(Stage::ProjectZ, c.rows) is ProjectB,
        after(Stage::ProjectB, c.rows) is ProjectA,
        after(Stage::ProjectA, c.rows) is Convolve,
        after(Stage::Convolve, c.rows) is Gate,
        after(Stage::Gate, c.rows) is Expand,
        0 < c.rows ==> after(Stage::Expand, c.rows) == Stage::Recur(0),
        0 <= i && i + 1 < c.rows ==> after(Stage::Recur(i as usize), c.rows) == Stage::Recur(
            (i + 1) as usize,
        ),
        i + 1 == c.rows ==> after(Stage::Recur(i as usize), c.rows) is Norm,
        after(Stage::Norm, c.rows) is ProjectOut,
        after(Stage::ProjectOut, c.rows) is Done,
{
    if c.dims.num_v_heads == ratio * c.dims.num_k_heads {
        vstd::arithmetic::div_mod::lemma_mod_multiples_basic(ratio, c.dims.num_k_heads as int);
    }
}

/// Text counts up by one on all axes.
pub proof fn text_tokens_count_up(len: usize, merge: int, at: int, i: int)
    requires
        0 <= i < len,
    ensures
        run_positions(ModalityRun::Text { len }, merge, at).len() == len,
        run_positions(ModalityRun::Text { len }, merge, at)[i] == (at + i, at + i, at + i),
        run_end(ModalityRun::Text { len }, merge, at) == at + len,
{
}

/// An image or video of merged rows and columns counts frames, rows and
/// columns on an axis each, all from the same start; what follows starts after
/// the longer side of the merged grid.
#[verifier::spinoff_prover]
#[verifier::rlimit(40)]
pub proof fn vision_tokens_count_by_axis(
    t: usize,
    rows: usize,
    columns: usize,
    h: usize,
    w: usize,
    merge: int,
    at: int,
    frame: int,
    r: int,
    c: int,
)
    requires
        0 < merge,
        h == rows * merge,
        w == columns * merge,
        0 <= frame < t,
        0 <= r < rows,
        0 <= c < columns,
    ensures
        ({
            let run = ModalityRun::Vision { t, h, w };
            &&& run_positions(run, merge, at).len() == t * rows * columns
            &&& run_positions(run, merge, at)[(frame * rows + r) * columns + c] == (
                at + frame,
                at + r,
                at + c,
            )
            &&& run_end(run, merge, at) == if rows >= columns {
                at + rows
            } else {
                at + columns
            }
        }),
{
    vstd::arithmetic::div_mod::lemma_div_by_multiple(rows as int, merge);
    vstd::arithmetic::div_mod::lemma_div_by_multiple(columns as int, merge);
    assert(rows >= columns ==> h >= w) by (nonlinear_arith)
        requires
            h == rows * merge,
            w == columns * merge,
            0 < merge,
    ;
    assert(rows < columns ==> h < w) by (nonlinear_arith)
        requires
            h == rows * merge,
            w == columns * merge,
            0 < merge,
    ;
    let line = frame * rows + r;
    let k = line * columns + c;
    assert(0 <= line < t * rows) by (nonlinear_arith)
        requires
            line == frame * rows + r,
            0 <= frame,
            frame + 1 <= t,
            0 <= r < rows,
    ;
    assert(0 <= k < t * rows * columns) by (nonlinear_arith)
        requires
            k == line * columns + c,
            0 <= line,
            line + 1 <= t * rows,
            0 <= c < columns,
    ;
    vstd::arithmetic::div_mod::lemma_fundamental_div_mod_converse(k, columns as int, line, c);
    vstd::arithmetic::div_mod::lemma_fundamental_div_mod_converse(line, rows as int, frame, r);
}

/// Runs follow one another: the positions of a run come after those of the
/// runs before it, and it starts where the one before it ends.
pub proof fn runs_follow_one_another(runs: Seq<ModalityRun>, merge: int, n: int)
    requires
        0 <= n < runs.len(),
    ensures
        positions_of(runs, merge, n + 1) == positions_of(runs, merge, n) + run_positions(
            runs[n],
            merge,
            start_of(runs, merge, n),
        ),
        start_of(runs, merge, n + 1) == run_end(runs[n], merge, start_of(runs, merge, n)),
        start_of(runs, merge, 0) == 0,
        positions_of(runs, merge, 0).len() == 0,
{
}

/// The partner of a rotated element stands half a width further on.
pub proof fn partners_are_half_a_width_apart(count: nat, half: int, j: int)
    requires
        0 <= j < count,
    ensures
        pairs_apart(count, half).len() == count,
        pairs_apart(count, half)[j].0 == j,
        pairs_apart(count, half)[j].1 - pairs_apart(count, half)[j].0 == half,
{
}

/// The encodings that are summed without being decoded, and the order of their
/// eights: one after the other, but where a byte holds elements sixteen apart,
/// those of both halves in turn.
pub proof fn eights_are_summed_in_order(f: Format, g: int)
    ensures
        is_fused(f) <==> f is Q4 || f is Q8 || f is Q4_0 || f is Q8_0 || f is Q4_K || f is Q6_K,
        f is Q4 || f is Q4_0 ==> {
            &&& lanes_start(f, g, 0) == 32 * g
            &&& lanes_start(f, g, 1) == 32 * g + 16
            &&& lanes_start(f, g, 2) == 32 * g + 8
            &&& lanes_start(f, g, 3) == 32 * g + 24
        },
        f is Q8 || f is Q8_0 || f is Q4_K ==> {
            &&& lanes_start(f, g, 0) == 32 * g
            &&& lanes_start(f, g, 1) == 32 * g + 8
            &&& lanes_start(f, g, 2) == 32 * g + 16
            &&& lanes_start(f, g, 3) == 32 * g + 24
        },
        f is Q6_K ==> forall|l: int| #[trigger] lanes_start(f, g, l) == 128 * g + 8 * l,
{
}

/// Span `i` runs from a boundary to the next.
pub proof fn spans_run_between_boundaries(segments: Seq<usize>, i: int)
    requires
        0 <= i,
        i + 1 < segments.len(),
    ensures
        spans_between(segments).len() + 1 == segments.len(),
        spans_between(segments)[i].0 == segments[i],
        spans_between(segments)[i].1 == segments[i + 1],
{
}

/// Interpolation between the four places of a grid around a point; at the last
/// row or column the place itself stands in for the one that is not there.
pub proof fn taps_are_neighbours(row: int, column: int, side: int)
    requires
        0 <= row < side,
        0 <= column < side,
    ensures
        tap_rows(row, column, side).0 == row * side + column,
        column + 1 < side ==> tap_rows(row, column, side).1 == row * side + column + 1,
        column + 1 == side ==> tap_rows(row, column, side).1 == row * side + column,
        row + 1 < side ==> tap_rows(row, column, side).2 == (row + 1) * side + column,
        row + 1 == side ==> tap_rows(row, column, side).2 == row * side + column,
        tap_rows(row, column, side).3 - tap_rows(row, column, side).2 == tap_rows(
            row,
            column,
            side,
        ).1 - tap_rows(row, column, side).0,
{
}

/// Patches go by merged blocks, the blocks by rows, and within a block the
/// patches by rows.
pub proof fn patches_go_by_blocks(
    merge: int,
    blocks: int,
    block_row: int,
    block_column: int,
    row: int,
    column: int,
)
    requires
        0 < merge,
        0 <= block_row,
        0 <= block_column < blocks,
        0 <= row < merge,
        0 <= column < merge,
    ensures
        patch_at(
            ((block_row * blocks + block_column) * merge + row) * merge + column,
            merge,
            blocks,
        ) == (block_row * merge + row, block_column * merge + column),
{
    let block = block_row * blocks + block_column;
    let inner = block * merge + row;
    let k = inner * merge + column;
    vstd::arithmetic::div_mod::lemma_fundamental_div_mod_converse(k, merge, inner, column);
    vstd::arithmetic::div_mod::lemma_fundamental_div_mod_converse(inner, merge, block, row);
    vstd::arithmetic::div_mod::lemma_fundamental_div_mod_converse(
        block,
        blocks,
        block_row,
        block_column,
    );
}

/// The angles of a head of the vision tower: the first quarter by row, the
/// second by column, and the second half as the first.
pub proof fn angles_go_by_quarters(quarter: int, e: int)
    requires
        0 <= e < quarter,
        quarter <= 0x1000_0000,
    ensures
        angle_at(e, 4 * quarter) == Angle::Row(e as usize),
        angle_at(quarter + e, 4 * quarter) == Angle::Column(e as usize),
        angle_at(2 * quarter + e, 4 * quarter) == Angle::Row(e as usize),
        angle_at(3 * quarter + e, 4 * quarter) == Angle::Column(e as usize),
{
}

/// The products of a block of the vision tower: queries, keys and values and
/// the first feed-forward matrix take the hidden state, the projection takes
/// the attention output, and the second matrix what the first one gives.
pub proof fn vision_blocks_chain_their_products(
    p: VisionBlockPlan,
    n: usize,
    h: usize,
    w: VisionBlockWeights,
    hidden: usize,
)
    requires
        is_block_plan(p, block_products(seq![n, h], w, hidden)),
    ensures
        p.qkv.k == h && p.qkv.n == w.qkv_weight.shape@[0],
        p.proj.k == hidden && p.proj.n == w.proj_weight.shape@[0],
        p.fc1.k == h && p.fc1.n == w.fc1_weight.shape@[0],
        p.fc2.k == w.fc1_weight.shape@[0] && p.fc2.n == w.fc2_weight.shape@[0],
        p.qkv.batch == n && p.proj.batch == n && p.fc1.batch == n && p.fc2.batch == n,
        w.qkv_weight.shape@[1] == h && w.fc1_weight.shape@[1] == h,
{
    lemma_rows(n, h);
    lemma_rows(n, hidden);
    lemma_rows(n, w.fc1_weight.shape@[0]);
}

proof fn lemma_rows(n: usize, k: usize)
    ensures
        product(leading(seq![n, k])) == n,
{
    sizes_multiply(Seq::empty(), n);
    assert(leading(seq![n, k]) =~= Seq::<usize>::empty().push(n));
}

/// Merging takes `merge` by `merge` patches to a token as wide as all of them.
pub proof fn merging_joins_squares_of_patches(
    p: MergerPlan,
    tokens: usize,
    n: usize,
    h: usize,
    w: VisionMergerWeights,
    merge: usize,
)
    requires
        is_merger_plan(p, merger_products(seq![n, h], w, merge)),
        n == tokens * (merge * merge),
        0 < merge,
        h * merge * merge <= usize::MAX,
    ensures
        p.fc1.batch == tokens && p.fc2.batch == tokens,
        p.fc1.k == merge * (merge * h),
        p.fc1.n == w.fc1_weight.shape@[0] && p.fc2.k == w.fc1_weight.shape@[0],
        p.fc2.n == w.fc2_weight.shape@[0],
{
    assert(merge * merge > 0) by (nonlinear_arith)
        requires
            merge > 0,
    ;
    vstd::arithmetic::div_mod::lemma_div_by_multiple(tokens as int, merge * merge);
    assert(merge * (merge * h) == h * merge * merge && h * merge * merge >= 0) by (nonlinear_arith);
    lemma_rows(tokens, (h * merge * merge) as usize);
    lemma_rows(tokens, w.fc1_weight.shape@[0]);
}

} // verus!
