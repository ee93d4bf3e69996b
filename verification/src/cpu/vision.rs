//! The vision tower: order of patches, and where each stage reads.

use vstd::prelude::*;

verus! {

/// The widths of the tower.
#[derive(Clone, Copy, Debug, PartialEq, Eq, Structural)]
pub struct VisionDims {
    pub hidden_size: usize,
    pub num_heads: usize,
    pub intermediate_size: usize,
    pub spatial_merge_size: usize,
    pub num_grid_per_side: usize,
    /// A single-precision float.
    pub rope_theta: u32,
    pub out_hidden_size: usize,
}

impl VisionDims {
    /// The width of a head.
    pub fn head_dim(&self) -> (n: usize)
        requires
            self.num_heads > 0,
        ensures
            n == self.hidden_size as int / self.num_heads as int,
    {
        self.hidden_size / self.num_heads
    }
}

/// The row and column of patch `k`: patches come in blocks of
/// `merge * merge`, block by block along the rows of blocks, and row by row
/// within a block.
pub open spec fn patch_at(k: int, merge: int, blocks: int) -> (int, int) {
    let inner = k / merge;
    let block = inner / merge;
    (block / blocks * merge + inner % merge, block % blocks * merge + k % merge)
}

/// The patches of a grid in order.
pub open spec fn patch_order(grid_h: int, grid_w: int, merge: int) -> Seq<(int, int)> {
    Seq::new((grid_h * grid_w) as nat, |k: int| patch_at(k, merge, grid_w / merge))
}

/// The positions of all patches of a grid.
pub fn patch_order_positions(grid_h: usize, grid_w: usize, merge: usize) -> (v: Vec<(usize, usize)>)
    requires
        merge > 0,
        grid_h * grid_w > 0 ==> grid_w >= merge,
        grid_h * grid_w <= usize::MAX,
    ensures
        v@.map_values(|p: (usize, usize)| (p.0 as int, p.1 as int)) == patch_order(
            grid_h as int,
            grid_w as int,
            merge as int,
        ),
{
    let blocks: usize = grid_w / merge;
    let n: usize = grid_h * grid_w;
    let mut v: Vec<(usize, usize)> = Vec::new();
    let mut k: usize = 0;
    proof {
        if n > 0 {
            vstd::arithmetic::div_mod::lemma_div_non_zero(grid_w as int, merge as int);
        }
    }
    while k < n
        invariant
            k <= n,
            merge > 0,
            n > 0 ==> blocks > 0,
            blocks == grid_w as int / merge as int,
            v@.len() == k,
            forall|i: int|
                0 <= i < k ==> (
                    (#[trigger] v@[i]).0 as int,
                    v@[i].1 as int,
                ) == patch_at(i, merge as int, blocks as int),
        decreases n - k,
    {
        let inner: usize = k / merge;
        let block: usize = inner / merge;
        let row_of_blocks: usize = block / blocks;
        let column_of_blocks: usize = block % blocks;
        proof {
            lemma_below(k as int, merge as int, blocks as int);
        }
        v.push((row_of_blocks * merge + inner % merge, column_of_blocks * merge + k % merge));
        k = k + 1;
    }
    assert(v@.map_values(|p: (usize, usize)| (p.0 as int, p.1 as int)) =~= patch_order(
        grid_h as int,
        grid_w as int,
        merge as int,
    ));
    v
}

/// Rows and columns do not exceed the number of the patch.
proof fn lemma_below(k: int, merge: int, blocks: int)
    requires
        0 <= k,
        merge > 0,
        blocks > 0,
    ensures
        ({
            let inner = k / merge;
            let block = inner / merge;
            &&& 0 <= block / blocks * merge + inner % merge <= k
            &&& 0 <= block % blocks * merge + k % merge <= k
            &&& 0 <= block / blocks * merge <= k
            &&& 0 <= block % blocks * merge <= k
        }),
{
    let inner = k / merge;
    let block = inner / merge;
    let up = block / blocks;
    let along = block % blocks;
    vstd::arithmetic::div_mod::lemma_fundamental_div_mod(k, merge);
    vstd::arithmetic::div_mod::lemma_mod_bound(k, merge);
    vstd::arithmetic::div_mod::lemma_div_pos_is_pos(k, merge);
    vstd::arithmetic::div_mod::lemma_fundamental_div_mod(inner, merge);
    vstd::arithmetic::div_mod::lemma_mod_bound(inner, merge);
    vstd::arithmetic::div_mod::lemma_div_pos_is_pos(inner, merge);
    vstd::arithmetic::div_mod::lemma_fundamental_div_mod(block, blocks);
    vstd::arithmetic::div_mod::lemma_mod_bound(block, blocks);
    vstd::arithmetic::div_mod::lemma_div_pos_is_pos(block, blocks);
    assert(up <= block) by (nonlinear_arith)
        requires
            block == blocks * up + along,
            along >= 0,
            blocks >= 1,
            up >= 0,
    ;
    assert(along <= block) by (nonlinear_arith)
        requires
            block == blocks * up + along,
            blocks >= 1,
            up >= 0,
    ;
    assert(inner <= k) by (nonlinear_arith)
        requires
            k == merge * inner + k % merge,
            k % merge >= 0,
            merge >= 1,
            inner >= 0,
    ;
    assert(up * merge <= merge * block) by (nonlinear_arith)
        requires
            up <= block,
            merge >= 0,
    ;
    assert(along * merge <= merge * block) by (nonlinear_arith)
        requires
            along <= block,
            merge >= 0,
    ;
    assert(merge * block <= merge * inner) by (nonlinear_arith)
        requires
            block <= inner,
            merge >= 0,
            inner == merge * block + inner % merge,
    ;
    assert(up * merge >= 0 && along * merge >= 0) by (nonlinear_arith)
        requires
            up >= 0,
            along >= 0,
            merge >= 0,
    ;
}

/// The number of the patch at a row and a column.
pub open spec fn patch_number(row: int, column: int, merge: int, blocks: int) -> int {
    (((row / merge) * blocks + column / merge) * merge + row % merge) * merge + column % merge
}

/// Every patch of a grid that merges evenly comes exactly once: the order
/// leads from a number to a place of the grid, and the number is read off the
/// place.
pub proof fn patch_order_is_a_bijection(k: int, grid_h: int, grid_w: int, merge: int)
    requires
        merge > 0,
        grid_w > 0,
        grid_w % merge == 0,
        grid_h % merge == 0,
        0 <= k < grid_h * grid_w,
    ensures
        ({
            let (row, column) = patch_at(k, merge, grid_w / merge);
            &&& 0 <= row < grid_h
            &&& 0 <= column < grid_w
            &&& patch_number(row, column, merge, grid_w / merge) == k
        }),
{
    let blocks = grid_w / merge;
    let tall = grid_h / merge;
    vstd::arithmetic::div_mod::lemma_fundamental_div_mod(grid_w, merge);
    vstd::arithmetic::div_mod::lemma_fundamental_div_mod(grid_h, merge);
    assert(blocks > 0) by (nonlinear_arith)
        requires
            grid_w == merge * blocks,
            grid_w > 0,
            merge > 0,
    ;
    let inner = k / merge;
    let block = inner / merge;
    let up = block / blocks;
    let along = block % blocks;
    let r = inner % merge;
    let c = k % merge;
    vstd::arithmetic::div_mod::lemma_fundamental_div_mod(k, merge);
    vstd::arithmetic::div_mod::lemma_mod_bound(k, merge);
    vstd::arithmetic::div_mod::lemma_div_pos_is_pos(k, merge);
    vstd::arithmetic::div_mod::lemma_fundamental_div_mod(inner, merge);
    vstd::arithmetic::div_mod::lemma_mod_bound(inner, merge);
    vstd::arithmetic::div_mod::lemma_div_pos_is_pos(inner, merge);
    vstd::arithmetic::div_mod::lemma_fundamental_div_mod(block, blocks);
    vstd::arithmetic::div_mod::lemma_mod_bound(block, blocks);
    vstd::arithmetic::div_mod::lemma_div_pos_is_pos(block, blocks);
    let row = up * merge + r;
    let column = along * merge + c;
    vstd::arithmetic::div_mod::lemma_fundamental_div_mod_converse(row, merge, up, r);
    vstd::arithmetic::div_mod::lemma_fundamental_div_mod_converse(column, merge, along, c);
    assert(grid_h * grid_w == ((tall * blocks) * merge) * merge) by (nonlinear_arith)
        requires
            grid_h == merge * tall,
            grid_w == merge * blocks,
    ;
    assert(inner < (tall * blocks) * merge) by (nonlinear_arith)
        requires
            k < ((tall * blocks) * merge) * merge,
            k == merge * inner + c,
            c >= 0,
            merge > 0,
    ;
    assert(block < tall * blocks) by (nonlinear_arith)
        requires
            inner < (tall * blocks) * merge,
            inner == merge * block + r,
            r >= 0,
            merge > 0,
    ;
    assert(up < tall) by (nonlinear_arith)
        requires
            block < tall * blocks,
            block == blocks * up + along,
            along >= 0,
            blocks > 0,
    ;
    assert(row < merge * tall && row >= 0) by (nonlinear_arith)
        requires
            row == up * merge + r,
            0 <= up,
            up + 1 <= tall,
            0 <= r < merge,
    ;
    assert(column < merge * blocks && column >= 0) by (nonlinear_arith)
        requires
            column == along * merge + c,
            0 <= along,
            along + 1 <= blocks,
            0 <= c < merge,
    ;
    assert(up * blocks + along == block) by (nonlinear_arith)
        requires
            block == blocks * up + along,
    ;
    assert(block * merge + r == inner) by (nonlinear_arith)
        requires
            inner == merge * block + r,
    ;
    assert(inner * merge + c == k) by (nonlinear_arith)
        requires
            k == merge * inner + c,
    ;
}

/// Every place of a grid that merges evenly has a patch: the order leads from
/// the place's number back to it.
pub proof fn every_place_has_a_patch(row: int, column: int, grid_h: int, grid_w: int, merge: int)
    requires
        merge > 0,
        grid_w % merge == 0,
        grid_h % merge == 0,
        0 <= row < grid_h,
        0 <= column < grid_w,
    ensures
        ({
            let k = patch_number(row, column, merge, grid_w / merge);
            &&& 0 <= k < grid_h * grid_w
            &&& patch_order(grid_h, grid_w, merge)[k] == (row, column)
        }),
{
    let (blocks, tall) = (grid_w / merge, grid_h / merge);
    vstd::arithmetic::div_mod::lemma_fundamental_div_mod(grid_w, merge);
    vstd::arithmetic::div_mod::lemma_fundamental_div_mod(grid_h, merge);
    vstd::arithmetic::div_mod::lemma_fundamental_div_mod(row, merge);
    vstd::arithmetic::div_mod::lemma_fundamental_div_mod(column, merge);
    vstd::arithmetic::div_mod::lemma_mod_bound(row, merge);
    vstd::arithmetic::div_mod::lemma_mod_bound(column, merge);
    vstd::arithmetic::div_mod::lemma_div_pos_is_pos(row, merge);
    vstd::arithmetic::div_mod::lemma_div_pos_is_pos(column, merge);
    let (up, along, r, c) = (row / merge, column / merge, row % merge, column % merge);
    assert(up + 1 <= tall) by (nonlinear_arith)
        requires
            row == merge * up + r,
            row < grid_h,
            grid_h == merge * tall,
            r >= 0,
            merge > 0,
    ;
    assert(along + 1 <= blocks) by (nonlinear_arith)
        requires
            column == merge * along + c,
            column < grid_w,
            grid_w == merge * blocks,
            c >= 0,
            merge > 0,
    ;
    let block = up * blocks + along;
    let inner = block * merge + r;
    let k = inner * merge + c;
    assert(0 <= block < tall * blocks) by (nonlinear_arith)
        requires
            block == up * blocks + along,
            0 <= up,
            up + 1 <= tall,
            0 <= along < blocks,
    ;
    assert(0 <= inner < (tall * blocks) * merge) by (nonlinear_arith)
        requires
            inner == block * merge + r,
            0 <= block,
            block + 1 <= tall * blocks,
            0 <= r < merge,
    ;
    assert(0 <= k < ((tall * blocks) * merge) * merge) by (nonlinear_arith)
        requires
            k == inner * merge + c,
            0 <= inner,
            inner + 1 <= (tall * blocks) * merge,
            0 <= c < merge,
    ;
    assert(grid_h * grid_w == ((tall * blocks) * merge) * merge) by (nonlinear_arith)
        requires
            grid_h == merge * tall,
            grid_w == merge * blocks,
    ;
    vstd::arithmetic::div_mod::lemma_fundamental_div_mod_converse(k, merge, inner, c);
    vstd::arithmetic::div_mod::lemma_fundamental_div_mod_converse(inner, merge, block, r);
    vstd::arithmetic::div_mod::lemma_fundamental_div_mod_converse(block, blocks, up, along);
    assert(up * merge == merge * up) by (nonlinear_arith);
    assert(along * merge == merge * along) by (nonlinear_arith);
}

/// The patches that are merged into one token come one after the other: they
/// lie in one square of the grid.
pub proof fn merged_patches_are_consecutive(k: int, merge: int, blocks: int)
    requires
        0 <= k,
        merge > 0,
        blocks > 0,
    ensures
        ({
            let (row, column) = patch_at(k, merge, blocks);
            let token = k / merge / merge;
            &&& row / merge == token / blocks
            &&& column / merge == token % blocks
        }),
{
    let inner = k / merge;
    let block = inner / merge;
    vstd::arithmetic::div_mod::lemma_mod_bound(k, merge);
    vstd::arithmetic::div_mod::lemma_mod_bound(inner, merge);
    vstd::arithmetic::div_mod::lemma_fundamental_div_mod_converse(
        block / blocks * merge + inner % merge,
        merge,
        block / blocks,
        inner % merge,
    );
    vstd::arithmetic::div_mod::lemma_fundamental_div_mod_converse(
        block % blocks * merge + k % merge,
        merge,
        block % blocks,
        k % merge,
    );
}

/// What turns an element of a head.
#[derive(Clone, Copy, Debug, PartialEq, Eq, Structural)]
pub enum Angle {
    /// The row, at this frequency.
    Row(usize),
    /// The column, at this frequency.
    Column(usize),
    /// Nothing.
    Zero,
}

/// The angle of element `d` of a head: each half of the head has a quarter
/// for the rows and a quarter for the columns; what is left over is not
/// turned.
pub open spec fn angle_at(d: int, head_dim: int) -> Angle {
    let half = head_dim / 2;
    let quarter = half / 2;
    let e = if d < half {
        d
    } else {
        d - half
    };
    if e < quarter {
        Angle::Row(e as usize)
    } else if e < 2 * quarter {
        Angle::Column((e - quarter) as usize)
    } else {
        Angle::Zero
    }
}

/// The angles of the elements of a head.
pub fn vision_rope_angles(head_dim: usize) -> (v: Vec<Angle>)
    ensures
        v@ == Seq::new(head_dim as nat, |d: int| angle_at(d, head_dim as int)),
{
    let half: usize = head_dim / 2;
    let quarter: usize = half / 2;
    let mut v: Vec<Angle> = Vec::new();
    let mut d: usize = 0;
    while d < head_dim
        invariant
            d <= head_dim,
            half == head_dim / 2,
            quarter == half / 2,
            v@ == Seq::new(d as nat, |i: int| angle_at(i, head_dim as int)),
        decreases head_dim - d,
    {
        let e: usize = if d < half {
            d
        } else {
            d - half
        };
        v.push(
            if e < quarter {
                Angle::Row(e)
            } else if e < 2 * quarter {
                Angle::Column(e - quarter)
            } else {
                Angle::Zero
            },
        );
        d = d + 1;
        assert(v@ =~= Seq::new(d as nat, |i: int| angle_at(i, head_dim as int)));
    }
    v
}

/// The shape of the merged patches: so many rows of so many values.
pub fn merged_shape(patches: usize, hidden: usize, merge: usize) -> (r: (usize, usize))
    requires
        merge * merge > 0,
        hidden * merge * merge <= usize::MAX,
        merge * merge <= usize::MAX,
        hidden * merge <= usize::MAX,
    ensures
        r.0 == patches as int / (merge * merge),
        r.1 == hidden * merge * merge,
{
    (patches / (merge * merge), hidden * merge * merge)
}

} // verus!
