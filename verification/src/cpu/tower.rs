//! The products of the vision tower, checked in the order in which they run,
//! and how their rows are divided.

use vstd::prelude::*;

use crate::backend::BackendError;
use crate::cpu::gated_delta::{columns, is_columns, row_shape, Split};
use crate::cpu::ops::{matmul_f32, matmul_outcome, product_checks, MatmulPlan};
use crate::cpu::vision::{merged_shape, patch_order, patch_order_positions, VisionDims};
use crate::tensor::{leading, product, product_fits};
use crate::weights::{VisionBlockWeights, VisionMergerWeights};

verus! {

/// A product that is to be formed: the shapes of the rows and of the matrix.
pub type Product = (Seq<usize>, Seq<usize>);

/// Every product can be formed.
pub open spec fn all_fit(ps: Seq<Product>) -> bool {
    forall|k: int| 0 <= k < ps.len() ==> product_checks((#[trigger] ps[k]).0, ps[k].1)
}

/// The refusal is that of the first product, from place `k` on, that cannot
/// be formed.
pub open spec fn first_refusal(e: BackendError, ps: Seq<Product>, k: int) -> bool
    decreases ps.len() - k,
{
    if k < 0 || k >= ps.len() {
        false
    } else if product_checks(ps[k].0, ps[k].1) {
        first_refusal(e, ps, k + 1)
    } else {
        matmul_outcome(Err(e), ps[k].0, ps[k].1)
    }
}

proof fn lemma_refusal_at(e: BackendError, ps: Seq<Product>, k: int, from: int)
    requires
        0 <= from <= k < ps.len(),
        forall|i: int| from <= i < k ==> product_checks((#[trigger] ps[i]).0, ps[i].1),
        !product_checks(ps[k].0, ps[k].1),
        matmul_outcome(Err(e), ps[k].0, ps[k].1),
    ensures
        first_refusal(e, ps, from),
        !all_fit(ps),
    decreases k - from,
{
    if from < k {
        assert(product_checks(ps[from].0, ps[from].1));
        lemma_refusal_at(e, ps, k, from + 1);
    }
}

proof fn lemma_refusal_of_part(
    e: BackendError,
    before: Seq<Product>,
    part: Seq<Product>,
    after: Seq<Product>,
    k: int,
)
    requires
        all_fit(before),
        0 <= k,
        first_refusal(e, part, k),
        forall|i: int| 0 <= i < k && i < part.len() ==> product_checks((#[trigger] part[i]).0, part[i].1),
    ensures
        first_refusal(e, before + part + after, 0),
        !all_fit(before + part + after),
    decreases part.len() - k,
{
    let all = before + part + after;
    if k < part.len() {
        if product_checks(part[k].0, part[k].1) {
            lemma_refusal_of_part(e, before, part, after, k + 1);
        } else {
            assert(all[before.len() + k] == part[k]);
            assert forall|i: int| 0 <= i < before.len() + k implies product_checks(
                (#[trigger] all[i]).0,
                all[i].1,
            ) by {
                if i < before.len() {
                    assert(all[i] == before[i]);
                } else {
                    assert(all[i] == part[i - before.len()]);
                }
            }
            lemma_refusal_at(e, all, before.len() + k, 0);
        }
    }
}

/// The rows of patches, multiplied with the embedding.
pub fn patch_embed(x: &Vec<usize>, weight: &Vec<usize>) -> (r: Result<MatmulPlan, BackendError>)
    requires
        x@.len() > 0 ==> product_fits(leading(x@)),
    ensures
        matmul_outcome(r, x@, weight@),
{
    matmul_f32(x, weight)
}

/// The products of a block.
#[derive(Debug, PartialEq, Eq)]
pub struct VisionBlockPlan {
    pub qkv: MatmulPlan,
    pub proj: MatmulPlan,
    pub fc1: MatmulPlan,
    pub fc2: MatmulPlan,
}

/// What a block multiplies, in order: the rows with the projection to
/// queries, keys and values; the attended values; and the two products of the
/// feed-forward part.
pub open spec fn block_products(x: Seq<usize>, w: VisionBlockWeights, hidden: usize) -> Seq<Product> {
    seq![
        (x, w.qkv_weight.shape@),
        (seq![x[0], hidden], w.proj_weight.shape@),
        (x, w.fc1_weight.shape@),
        (seq![x[0], w.fc1_weight.shape@[0]], w.fc2_weight.shape@),
    ]
}

/// The products of the block, reduced to their extents.
pub open spec fn is_block_plan(p: VisionBlockPlan, ps: Seq<Product>) -> bool {
    &&& matmul_outcome(Ok(p.qkv), ps[0].0, ps[0].1)
    &&& matmul_outcome(Ok(p.proj), ps[1].0, ps[1].1)
    &&& matmul_outcome(Ok(p.fc1), ps[2].0, ps[2].1)
    &&& matmul_outcome(Ok(p.fc2), ps[3].0, ps[3].1)
}

/// The gains cover the rows, the projection holds all three parts, and what
/// is added to the rows has their width.
pub open spec fn block_fits(x: Seq<usize>, w: VisionBlockWeights, hidden: usize) -> bool {
    &&& x.len() == 2
    &&& w.norm1_weight.elements@.len() >= x[1]
    &&& w.norm1_bias.elements@.len() >= x[1]
    &&& w.norm2_weight.elements@.len() >= x[1]
    &&& w.norm2_bias.elements@.len() >= x[1]
    &&& w.qkv_weight.shape@.len() == 2 ==> w.qkv_weight.shape@[0] >= 3 * hidden
    &&& w.proj_weight.shape@.len() == 2 ==> w.proj_weight.shape@[0] == x[1]
    &&& w.fc2_weight.shape@.len() == 2 ==> w.fc2_weight.shape@[0] == x[1]
}

proof fn lemma_row_shape(rows: usize, width: usize)
    ensures
        leading(seq![rows, width]) == seq![rows],
        product(seq![rows]) == rows,
        product_fits(seq![rows]),
{
    assert(leading(seq![rows, width]) =~= seq![rows]);
    assert(seq![rows].drop_last() =~= Seq::<usize>::empty());
    reveal_with_fuel(product, 2);
    assert(1 * rows == rows) by (nonlinear_arith);
}

/// Checks the products of a block on rows of this shape.
pub fn vision_block(x: &Vec<usize>, w: &VisionBlockWeights, dims: VisionDims) -> (r: Result<
    VisionBlockPlan,
    BackendError,
>)
    requires
        block_fits(x@, *w, dims.hidden_size),
    ensures
        match r {
            Ok(p) => all_fit(block_products(x@, *w, dims.hidden_size)) && is_block_plan(
                p,
                block_products(x@, *w, dims.hidden_size),
            ),
            Err(e) => first_refusal(e, block_products(x@, *w, dims.hidden_size), 0) && !all_fit(
                block_products(x@, *w, dims.hidden_size),
            ),
        },
{
    let hidden: usize = dims.hidden_size;
    let ghost ps = block_products(x@, *w, hidden);
    proof {
        assert(x@ =~= seq![x@[0], x@[1]]);
        lemma_row_shape(x@[0], x@[1]);
        lemma_row_shape(x@[0], hidden);
    }
    let qkv = match matmul_f32(x, &w.qkv_weight.shape) {
        Ok(p) => p,
        Err(e) => {
            proof {
                lemma_refusal_at(e, ps, 0, 0);
            }
            return Err(e);
        },
    };
    assert(product_checks(ps[0].0, ps[0].1));
    let proj = match matmul_f32(&row_shape(x[0], hidden), &w.proj_weight.shape) {
        Ok(p) => p,
        Err(e) => {
            proof {
                lemma_refusal_at(e, ps, 1, 0);
            }
            return Err(e);
        },
    };
    assert(product_checks(ps[1].0, ps[1].1));
    let fc1 = match matmul_f32(x, &w.fc1_weight.shape) {
        Ok(p) => p,
        Err(e) => {
            proof {
                lemma_refusal_at(e, ps, 2, 0);
            }
            return Err(e);
        },
    };
    assert(product_checks(ps[2].0, ps[2].1));
    proof {
        lemma_row_shape(x@[0], w.fc1_weight.shape@[0]);
        assert(fc1.shape@ =~= seq![x@[0], w.fc1_weight.shape@[0]]);
    }
    let fc2 = match matmul_f32(&fc1.shape, &w.fc2_weight.shape) {
        Ok(p) => p,
        Err(e) => {
            proof {
                lemma_refusal_at(e, ps, 3, 0);
            }
            return Err(e);
        },
    };
    assert(product_checks(ps[3].0, ps[3].1));
    Ok(VisionBlockPlan { qkv, proj, fc1, fc2 })
}

/// The queries, keys and values of the rows, which lie one after the other.
pub fn split_thirds(qkv: &Vec<u32>, n: usize, hidden: usize) -> (s: Split)
    requires
        n * (3 * hidden) <= qkv@.len(),
        3 * hidden <= usize::MAX,
    ensures
        is_columns(s.query@, qkv@, n as int, 3 * hidden, 0, hidden as int),
        is_columns(s.key@, qkv@, n as int, 3 * hidden, hidden as int, hidden as int),
        is_columns(s.value@, qkv@, n as int, 3 * hidden, 2 * hidden, hidden as int),
{
    Split {
        query: columns(qkv, n, 3 * hidden, 0, hidden),
        key: columns(qkv, n, 3 * hidden, hidden, hidden),
        value: columns(qkv, n, 3 * hidden, 2 * hidden, hidden),
    }
}

/// The spans between boundaries, within which patches attend to each other.
pub open spec fn spans_between(segments: Seq<usize>) -> Seq<(usize, usize)> {
    Seq::new(
        if segments.len() == 0 {
            0
        } else {
            (segments.len() - 1) as nat
        },
        |i: int| (segments[i], segments[i + 1]),
    )
}

/// The spans between boundaries.
pub fn segment_spans(segments: &Vec<usize>) -> (v: Vec<(usize, usize)>)
    ensures
        v@ == spans_between(segments@),
{
    let mut v: Vec<(usize, usize)> = Vec::new();
    let mut i: usize = 1;
    while i < segments.len()
        invariant
            1 <= i,
            segments@.len() > 0 ==> i <= segments@.len(),
            segments@.len() == 0 ==> i == 1,
            v@.len() == i - 1,
            forall|k: int| 0 <= k < v@.len() ==> #[trigger] v@[k] == (segments@[k], segments@[k + 1]),
        decreases segments@.len() - i,
    {
        v.push((segments[i - 1], segments[i]));
        i = i + 1;
    }
    assert(v@ =~= spans_between(segments@));
    v
}

/// No patch lies in two spans, so no attention crosses a boundary.
pub proof fn spans_do_not_overlap(segments: Seq<usize>, i: int, j: int, t: int)
    requires
        forall|a: int, b: int| 0 <= a <= b < segments.len() ==> segments[a] <= segments[b],
        0 <= i < spans_between(segments).len(),
        0 <= j < spans_between(segments).len(),
        spans_between(segments)[i].0 <= t < spans_between(segments)[i].1,
        spans_between(segments)[j].0 <= t < spans_between(segments)[j].1,
    ensures
        i == j,
{
    if i < j {
        assert(segments[i + 1] <= segments[j]);
    }
    if j < i {
        assert(segments[j + 1] <= segments[i]);
    }
}

/// The products that merge groups of patches.
#[derive(Debug, PartialEq, Eq)]
pub struct MergerPlan {
    pub fc1: MatmulPlan,
    pub fc2: MatmulPlan,
}

/// What the merger multiplies, in order.
pub open spec fn merger_products(x: Seq<usize>, w: VisionMergerWeights, merge: usize) -> Seq<
    Product,
> {
    let rows = (x[0] as int / (merge * merge)) as usize;
    let width = (x[1] * merge * merge) as usize;
    seq![
        (seq![rows, width], w.fc1_weight.shape@),
        (seq![rows, w.fc1_weight.shape@[0]], w.fc2_weight.shape@),
    ]
}

/// The products of the merger, reduced to their extents.
pub open spec fn is_merger_plan(p: MergerPlan, ps: Seq<Product>) -> bool {
    &&& matmul_outcome(Ok(p.fc1), ps[0].0, ps[0].1)
    &&& matmul_outcome(Ok(p.fc2), ps[1].0, ps[1].1)
}

/// The patches form whole groups, the gains cover them, and the sizes are in
/// range.
pub open spec fn merger_fits(x: Seq<usize>, w: VisionMergerWeights, merge: usize) -> bool {
    &&& x.len() == 2
    &&& w.norm_weight.elements@.len() >= x[1]
    &&& w.norm_bias.elements@.len() >= x[1]
    &&& merge * merge > 0
    &&& merge * merge <= usize::MAX
    &&& x[1] * merge <= usize::MAX
    &&& x[1] * merge * merge <= usize::MAX
    &&& x[0] as int % (merge * merge) == 0
}

/// Checks the products of the merger on patches of this shape. Every patch is
/// normalised by itself; only the products run over whole groups.
pub fn patch_merger(x: &Vec<usize>, w: &VisionMergerWeights, merge: usize) -> (r: Result<
    MergerPlan,
    BackendError,
>)
    requires
        merger_fits(x@, *w, merge),
    ensures
        match r {
            Ok(p) => all_fit(merger_products(x@, *w, merge)) && is_merger_plan(
                p,
                merger_products(x@, *w, merge),
            ),
            Err(e) => first_refusal(e, merger_products(x@, *w, merge), 0) && !all_fit(
                merger_products(x@, *w, merge),
            ),
        },
{
    let ghost ps = merger_products(x@, *w, merge);
    let (rows, width) = merged_shape(x[0], x[1], merge);
    proof {
        lemma_row_shape(rows, width);
    }
    let fc1 = match matmul_f32(&row_shape(rows, width), &w.fc1_weight.shape) {
        Ok(p) => p,
        Err(e) => {
            proof {
                lemma_refusal_at(e, ps, 0, 0);
            }
            return Err(e);
        },
    };
    assert(product_checks(ps[0].0, ps[0].1));
    proof {
        lemma_row_shape(rows, w.fc1_weight.shape@[0]);
        assert(fc1.shape@ =~= seq![rows, w.fc1_weight.shape@[0]]);
    }
    let fc2 = match matmul_f32(&fc1.shape, &w.fc2_weight.shape) {
        Ok(p) => p,
        Err(e) => {
            proof {
                lemma_refusal_at(e, ps, 1, 0);
            }
            return Err(e);
        },
    };
    assert(product_checks(ps[1].0, ps[1].1));
    Ok(MergerPlan { fc1, fc2 })
}

/// Where tap `i` of a resampled coordinate reads, on an axis of `side` points:
/// at the whole part of the coordinate or after it, but not past the end.
pub open spec fn tap(whole: int, i: int, side: int) -> int {
    if whole + i <= side - 1 {
        whole + i
    } else {
        side - 1
    }
}

/// The rows of the position table that a patch is resampled from: for both
/// taps along the rows, both taps along the columns.
pub open spec fn tap_rows(row: int, column: int, side: int) -> (int, int, int, int) {
    (
        tap(row, 0, side) * side + tap(column, 0, side),
        tap(row, 0, side) * side + tap(column, 1, side),
        tap(row, 1, side) * side + tap(column, 0, side),
        tap(row, 1, side) * side + tap(column, 1, side),
    )
}

fn tap_at(whole: usize, i: usize, side: usize) -> (t: usize)
    requires
        side > 0,
        i <= 1,
    ensures
        t == tap(whole as int, i as int, side as int),
        t < side,
{
    if whole >= side || whole + i > side - 1 {
        side - 1
    } else {
        whole + i
    }
}

fn table_row(a: usize, b: usize, side: usize) -> (n: usize)
    requires
        a < side,
        b < side,
        side * side <= usize::MAX,
    ensures
        n == a * side + b,
        n < side * side,
{
    proof {
        assert(a * side + side <= side * side) by (nonlinear_arith)
            requires
                a + 1 <= side,
        ;
        assert(a * side >= 0) by (nonlinear_arith);
    }
    a * side + b
}

/// There is a resampled coordinate for every row and column that a patch of
/// the grid has.
pub open spec fn coordinates_cover(
    grid_h: int,
    grid_w: int,
    merge: int,
    rows: nat,
    columns: nat,
) -> bool {
    forall|k: int|
        0 <= k < grid_h * grid_w ==> (#[trigger] patch_order(grid_h, grid_w, merge)[k]).0 < rows
            && patch_order(grid_h, grid_w, merge)[k].1 < columns
}

/// The rows of the position table that every patch is resampled from, in the
/// order of the patches. `rows` and `columns` are the whole parts of the
/// resampled coordinates of the grid's rows and columns.
pub fn gather_pos_embed(
    grid_h: usize,
    grid_w: usize,
    merge: usize,
    side: usize,
    rows: &Vec<usize>,
    columns: &Vec<usize>,
) -> (v: Vec<(usize, usize, usize, usize)>)
    requires
        merge > 0,
        grid_h * grid_w > 0 ==> grid_w >= merge,
        grid_h * grid_w <= usize::MAX,
        side > 0,
        side * side <= usize::MAX,
        coordinates_cover(
            grid_h as int,
            grid_w as int,
            merge as int,
            rows@.len(),
            columns@.len(),
        ),
    ensures
        v@.len() == grid_h * grid_w,
        forall|k: int|
            0 <= k < v@.len() ==> {
                let at = patch_order(grid_h as int, grid_w as int, merge as int)[k];
                let t = #[trigger] v@[k];
                &&& (t.0 as int, t.1 as int, t.2 as int, t.3 as int) == tap_rows(
                    rows@[at.0] as int,
                    columns@[at.1] as int,
                    side as int,
                )
                &&& t.0 < side * side && t.1 < side * side && t.2 < side * side && t.3 < side * side
            },
{
    let positions = patch_order_positions(grid_h, grid_w, merge);
    let ghost order = patch_order(grid_h as int, grid_w as int, merge as int);
    let ghost plain = positions@.map_values(|p: (usize, usize)| (p.0 as int, p.1 as int));
    let mut v: Vec<(usize, usize, usize, usize)> = Vec::new();
    let mut k: usize = 0;
    while k < positions.len()
        invariant
            k <= positions@.len(),
            plain == positions@.map_values(|p: (usize, usize)| (p.0 as int, p.1 as int)),
            plain == order,
            order == patch_order(grid_h as int, grid_w as int, merge as int),
            order.len() == grid_h * grid_w,
            side > 0,
            side * side <= usize::MAX,
            coordinates_cover(
                grid_h as int,
                grid_w as int,
                merge as int,
                rows@.len(),
                columns@.len(),
            ),
            v@.len() == k,
            forall|i: int|
                0 <= i < k ==> {
                    let t = #[trigger] v@[i];
                    &&& (t.0 as int, t.1 as int, t.2 as int, t.3 as int) == tap_rows(
                        rows@[order[i].0] as int,
                        columns@[order[i].1] as int,
                        side as int,
                    )
                    &&& t.0 < side * side && t.1 < side * side && t.2 < side * side && t.3 < side
                        * side
                },
        decreases positions@.len() - k,
    {
        let at = positions[k];
        proof {
            assert(plain[k as int] == (at.0 as int, at.1 as int));
            assert(order[k as int].0 < rows@.len());
        }
        let row: usize = rows[at.0];
        let column: usize = columns[at.1];
        let (r0, r1) = (tap_at(row, 0, side), tap_at(row, 1, side));
        let (c0, c1) = (tap_at(column, 0, side), tap_at(column, 1, side));
        v.push(
            (
                table_row(r0, c0, side),
                table_row(r0, c1, side),
                table_row(r1, c0, side),
                table_row(r1, c1, side),
            ),
        );
        k = k + 1;
    }
    v
}

/// The products of the whole tower, and the position of every patch.
#[derive(Debug, PartialEq, Eq)]
pub struct TowerPlan {
    pub positions: Vec<(usize, usize)>,
    pub embed: MatmulPlan,
    pub blocks: Vec<VisionBlockPlan>,
    pub merger: MergerPlan,
}

/// What the first `n` blocks multiply, in order.
pub open spec fn blocks_products(
    x: Seq<usize>,
    blocks: Seq<VisionBlockWeights>,
    hidden: usize,
    n: int,
) -> Seq<Product>
    decreases n,
{
    if n <= 0 {
        Seq::empty()
    } else {
        blocks_products(x, blocks, hidden, n - 1) + block_products(x, blocks[n - 1], hidden)
    }
}

/// What the tower multiplies, in order: the embedding of the patches, the
/// blocks, and the merger.
pub open spec fn tower_products(
    pixels: Seq<usize>,
    embed: Seq<usize>,
    blocks: Seq<VisionBlockWeights>,
    merger: VisionMergerWeights,
    dims: VisionDims,
) -> Seq<Product> {
    let x = seq![pixels[0], embed[0]];
    seq![(pixels, embed)] + blocks_products(x, blocks, dims.hidden_size, blocks.len() as int)
        + merger_products(x, merger, dims.spatial_merge_size)
}

/// The patches are those of the grid, and every part of the tower takes rows
/// of the embedding's width.
pub open spec fn tower_fits(
    pixels: Seq<usize>,
    grid_h: usize,
    grid_w: usize,
    embed: Seq<usize>,
    blocks: Seq<VisionBlockWeights>,
    merger: VisionMergerWeights,
    dims: VisionDims,
) -> bool {
    &&& pixels.len() == 2
    &&& pixels[0] == grid_h * grid_w
    &&& dims.spatial_merge_size > 0
    &&& grid_h * grid_w > 0 ==> grid_w >= dims.spatial_merge_size
    &&& product_checks(pixels, embed) ==> {
        let x = seq![pixels[0], embed[0]];
        &&& forall|i: int| 0 <= i < blocks.len() ==> block_fits(x, #[trigger] blocks[i], dims.hidden_size)
        &&& merger_fits(x, merger, dims.spatial_merge_size)
    }
}

proof fn lemma_blocks_split(
    x: Seq<usize>,
    blocks: Seq<VisionBlockWeights>,
    hidden: usize,
    i: int,
    n: int,
) -> (rest: Seq<Product>)
    requires
        0 <= i <= n <= blocks.len(),
    ensures
        blocks_products(x, blocks, hidden, n) == blocks_products(x, blocks, hidden, i) + rest,
        i < n ==> rest.len() >= 4 && rest.take(4) == block_products(x, blocks[i], hidden),
    decreases n - i,
{
    let whole = blocks_products(x, blocks, hidden, n);
    let head = blocks_products(x, blocks, hidden, i);
    if i == n {
        assert(whole =~= head + Seq::<Product>::empty());
        Seq::empty()
    } else {
        let more = lemma_blocks_split(x, blocks, hidden, i, n - 1);
        let last = block_products(x, blocks[n - 1], hidden);
        let rest = more + last;
        assert(whole =~= head + rest);
        if i == n - 1 {
            assert(more.len() == 0) by {
                assert(head.len() == head.len() + more.len());
            }
            assert(rest.take(4) =~= last);
        } else {
            assert(rest.take(4) =~= more.take(4));
        }
        rest
    }
}

/// Checks the products of the tower on the patches of one image.
#[verifier::spinoff_prover]
pub fn vision_tower_forward(
    pixels: &Vec<usize>,
    grid_h: usize,
    grid_w: usize,
    embed: &Vec<usize>,
    blocks: &Vec<VisionBlockWeights>,
    merger: &VisionMergerWeights,
    dims: VisionDims,
) -> (r: Result<TowerPlan, BackendError>)
    requires
        tower_fits(pixels@, grid_h, grid_w, embed@, blocks@, *merger, dims),
    ensures
        match r {
            Ok(p) => {
                let x = seq![pixels@[0], embed@[0]];
                &&& all_fit(tower_products(pixels@, embed@, blocks@, *merger, dims))
                &&& p.positions@.map_values(|q: (usize, usize)| (q.0 as int, q.1 as int))
                    == patch_order(grid_h as int, grid_w as int, dims.spatial_merge_size as int)
                &&& matmul_outcome(Ok(p.embed), pixels@, embed@)
                &&& p.blocks@.len() == blocks@.len()
                &&& forall|i: int|
                    0 <= i < blocks@.len() ==> is_block_plan(
                        #[trigger] p.blocks@[i],
                        block_products(x, blocks@[i], dims.hidden_size),
                    )
                &&& is_merger_plan(
                    p.merger,
                    merger_products(x, *merger, dims.spatial_merge_size),
                )
            },
            Err(e) => {
                &&& first_refusal(e, tower_products(pixels@, embed@, blocks@, *merger, dims), 0)
                &&& !all_fit(tower_products(pixels@, embed@, blocks@, *merger, dims))
            },
        },
{
    let hidden: usize = dims.hidden_size;
    let positions = patch_order_positions(grid_h, grid_w, dims.spatial_merge_size);
    let ghost ps = tower_products(pixels@, embed@, blocks@, *merger, dims);
    let ghost first: Seq<Product> = seq![(pixels@, embed@)];
    let ghost x = seq![pixels@[0], embed@[0]];
    let ghost middle = blocks_products(x, blocks@, hidden, blocks@.len() as int);
    let ghost end = merger_products(x, *merger, dims.spatial_merge_size);
    proof {
        assert(pixels@ =~= seq![pixels@[0], pixels@[1]]);
        lemma_row_shape(pixels@[0], pixels@[1]);
    }
    let plan = match patch_embed(pixels, embed) {
        Ok(p) => p,
        Err(e) => {
            proof {
                assert(ps[0] == first[0]);
                lemma_refusal_at(e, ps, 0, 0);
            }
            return Err(e);
        },
    };
    proof {
        assert(all_fit(first));
        assert(plan.shape@ =~= x);
    }
    let mut plans: Vec<VisionBlockPlan> = Vec::new();
    let mut i: usize = 0;
    assert(all_fit(first + blocks_products(x, blocks@, hidden, 0))) by {
        assert(first + blocks_products(x, blocks@, hidden, 0) =~= first);
    }
    while i < blocks.len()
        invariant
            i <= blocks@.len(),
            hidden == dims.hidden_size,
            plan.shape@ == x,
            first.len() == 1,
            middle == blocks_products(x, blocks@, hidden, blocks@.len() as int),
            ps == first + middle + end,
            forall|k: int| 0 <= k < blocks@.len() ==> block_fits(x, #[trigger] blocks@[k], hidden),
            all_fit(first + blocks_products(x, blocks@, hidden, i as int)),
            plans@.len() == i,
            forall|k: int|
                0 <= k < i ==> is_block_plan(
                    #[trigger] plans@[k],
                    block_products(x, blocks@[k], hidden),
                ),
            ps == tower_products(pixels@, embed@, blocks@, *merger, dims),
        decreases blocks@.len() - i,
    {
        let ghost done = first + blocks_products(x, blocks@, hidden, i as int);
        let ghost part = block_products(x, blocks@[i as int], hidden);
        assert(block_fits(x, blocks@[i as int], hidden));
        match vision_block(&plan.shape, &blocks[i], dims) {
            Ok(p) => {
                plans.push(p);
                proof {
                    let next = first + blocks_products(x, blocks@, hidden, i + 1);
                    assert(next =~= done + part);
                    assert forall|k: int| 0 <= k < next.len() implies product_checks(
                        (#[trigger] next[k]).0,
                        next[k].1,
                    ) by {
                        if k < done.len() {
                            assert(next[k] == done[k]);
                        } else {
                            assert(next[k] == part[k - done.len()]);
                        }
                    }
                }
            },
            Err(e) => {
                proof {
                    let rest = lemma_blocks_split(
                        x,
                        blocks@,
                        hidden,
                        i as int,
                        blocks@.len() as int,
                    );
                    let after = rest.skip(4) + end;
                    assert(rest =~= part + rest.skip(4));
                    assert(ps =~= done + part + after);
                    lemma_refusal_of_part(e, done, part, after, 0);
                }
                return Err(e);
            },
        }
        i = i + 1;
    }
    let ghost done = first + middle;
    match patch_merger(&plan.shape, merger, dims.spatial_merge_size) {
        Ok(m) => {
            proof {
                assert forall|k: int| 0 <= k < ps.len() implies product_checks(
                    (#[trigger] ps[k]).0,
                    ps[k].1,
                ) by {
                    if k < done.len() {
                        assert(ps[k] == done[k]);
                    } else {
                        assert(ps[k] == end[k - done.len()]);
                    }
                }
            }
            Ok(TowerPlan { positions, embed: plan, blocks: plans, merger: m })
        },
        Err(e) => {
            proof {
                assert(ps =~= done + end + Seq::<Product>::empty());
                lemma_refusal_of_part(e, done, end, Seq::empty(), 0);
            }
            Err(e)
        },
    }
}

} // verus!
