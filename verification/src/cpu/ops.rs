//! Checks and extents of the reference operations.
//!
//! Each operation is checked against the shapes of its inputs and reduced to
//! the extents of its loops and the shape of its result.

use vstd::prelude::*;

use crate::backend::{op_name, BackendError, Op};
use crate::cpu::broadcast::{binary_broadcast, compatible, is_pairing, pairing_fits, Pairing};
use crate::quant::stored::{block_bytes, block_len, Format};
use crate::tensor::{
    copy_shape, leading, numel, product, product_fits, product_of_first, with_last, DType,
    TensorDesc,
};
use crate::text;

verus! {

/// A product with a transposed matrix: `batch` rows of `k` against `n` rows.
#[derive(Debug, PartialEq, Eq)]
pub struct MatmulPlan {
    pub batch: usize,
    pub n: usize,
    pub k: usize,
    pub shape: Vec<usize>,
}

/// Rows of `width` elements, each handled by itself.
#[derive(Debug, PartialEq, Eq)]
pub struct RowsPlan {
    pub batch: usize,
    pub width: usize,
    pub shape: Vec<usize>,
}

/// The last dimension of a shape is `k`.
pub open spec fn ends_in(shape: Seq<usize>, k: usize) -> bool {
    shape.len() > 0 && shape.last() == k
}

fn has_last(shape: &Vec<usize>, k: usize) -> (b: bool)
    ensures
        b == ends_in(shape@, k),
{
    let n: usize = shape.len();
    n > 0 && shape[n - 1] == k
}

/// A refusal of a shape.
pub open spec fn is_mismatch(
    e: BackendError,
    op: Seq<char>,
    expected: Seq<usize>,
    got: Seq<usize>,
) -> bool {
    e matches BackendError::ShapeMismatch { op: o, expected: x, got: g } && o@ == op && x@
        == expected && g@ == got
}

/// A refusal of a parameter.
pub open spec fn is_invalid(e: BackendError, op: Seq<char>, reason: Seq<char>) -> bool {
    e matches BackendError::InvalidInput { op: o, reason: r } && o@ == op && r@ == reason
}

fn one(a: usize) -> (v: Vec<usize>)
    ensures
        v@ == seq![a],
{
    let mut v: Vec<usize> = Vec::new();
    v.push(a);
    assert(v@ =~= seq![a]);
    v
}

fn two(a: usize, b: usize) -> (v: Vec<usize>)
    ensures
        v@ == seq![a, b],
{
    let mut v: Vec<usize> = Vec::new();
    v.push(a);
    v.push(b);
    assert(v@ =~= seq![a, b]);
    v
}

/// The outcome of checking a product.
pub open spec fn matmul_outcome(
    r: Result<MatmulPlan, BackendError>,
    x: Seq<usize>,
    w: Seq<usize>,
) -> bool {
    if w.len() != 2 {
        r matches Err(e) && is_mismatch(e, "Matmul"@, seq![0, 0], w)
    } else if !ends_in(x, w[1]) {
        r matches Err(e) && is_mismatch(e, "Matmul"@, seq![0, w[1]], x)
    } else {
        r matches Ok(p) && p.batch == product(leading(x)) && p.n == w[0] && p.k == w[1]
            && p.shape@ == leading(x).push(w[0])
    }
}

/// The product of `x` with the transpose of `w`.
pub fn matmul_f32(x: &Vec<usize>, w: &Vec<usize>) -> (r: Result<MatmulPlan, BackendError>)
    requires
        x@.len() > 0 ==> product_fits(leading(x@)),
    ensures
        matmul_outcome(r, x@, w@),
{
    if w.len() != 2 {
        return Err(
            BackendError::ShapeMismatch {
                op: "Matmul",
                expected: two(0, 0),
                got: copy_shape(w),
            },
        );
    }
    let n: usize = w[0];
    let k: usize = w[1];
    if !has_last(x, k) {
        return Err(
            BackendError::ShapeMismatch {
                op: "Matmul",
                expected: two(0, k),
                got: copy_shape(x),
            },
        );
    }
    let batch: usize = product_of_first(x, x.len() - 1);
    Ok(MatmulPlan { batch, n, k, shape: with_last(x, n) })
}

/// The outcome of checking a root-mean-square norm.
pub open spec fn rms_norm_outcome(
    r: Result<RowsPlan, BackendError>,
    x: Seq<usize>,
    g: Seq<usize>,
) -> bool {
    if g.len() != 1 {
        r matches Err(e) && is_mismatch(e, "RmsNorm"@, seq![0], g)
    } else if !ends_in(x, g[0]) {
        r matches Err(e) && is_mismatch(e, "RmsNorm"@, seq![g[0]], x)
    } else {
        r matches Ok(p) && p.batch == product(leading(x)) && p.width == g[0] && p.shape@ == x
    }
}

/// The root-mean-square norm over the last dimension, with a gain.
pub fn rms_norm_f32(x: &Vec<usize>, g: &Vec<usize>) -> (r: Result<RowsPlan, BackendError>)
    requires
        x@.len() > 0 ==> product_fits(leading(x@)),
    ensures
        rms_norm_outcome(r, x@, g@),
{
    if g.len() != 1 {
        return Err(
            BackendError::ShapeMismatch { op: "RmsNorm", expected: one(0), got: copy_shape(g) },
        );
    }
    let d: usize = g[0];
    if !has_last(x, d) {
        return Err(
            BackendError::ShapeMismatch { op: "RmsNorm", expected: one(d), got: copy_shape(x) },
        );
    }
    let batch: usize = product_of_first(x, x.len() - 1);
    Ok(RowsPlan { batch, width: d, shape: copy_shape(x) })
}

/// A rotary embedding: each of `rows` rows of `head_dim` elements has
/// `rotated` pairs turned, by the position at place `row / heads_per_pos`.
#[derive(Debug, PartialEq, Eq)]
pub struct RopePlan {
    pub rows: usize,
    pub head_dim: usize,
    pub rotated: usize,
    pub heads_per_pos: usize,
    pub shape: Vec<usize>,
}

/// The message on a rotated width that is zero, odd or too large.
pub open spec fn rope_dim_reason(rope_dim: usize, head_dim: usize) -> Seq<char> {
    "rope_dim must be even and \u{2264} head_dim, got "@ + text::decimal(rope_dim as nat) + " / "@
        + text::decimal(head_dim as nat)
}

/// The message on positions that cannot be spread over the rows.
pub open spec fn positions_reason(positions: nat, rows: nat) -> Seq<char> {
    "cannot broadcast pos (len="@ + text::decimal(positions) + ") across x ("@ + text::decimal(rows)
        + " rows of head_dim)"@
}

/// The outcome of checking a rotary embedding.
pub open spec fn rope_outcome(
    r: Result<RopePlan, BackendError>,
    x: Seq<usize>,
    pos: Seq<usize>,
    head_dim: usize,
    rope_dim: usize,
) -> bool {
    if rope_dim == 0 || rope_dim % 2 != 0 || rope_dim > head_dim {
        r matches Err(e) && is_invalid(e, "Rope"@, rope_dim_reason(rope_dim, head_dim))
    } else if !ends_in(x, head_dim) {
        r matches Err(e) && is_mismatch(e, "Rope"@, seq![head_dim], x)
    } else {
        let rows = product(x) as int / head_dim as int;
        if rows % product(pos) as int != 0 {
            r matches Err(e) && is_invalid(
                e,
                "Rope"@,
                positions_reason(product(pos), rows as nat),
            )
        } else {
            r matches Ok(p) && p.rows == rows && p.head_dim == head_dim && p.rotated == rope_dim / 2
                && p.heads_per_pos == rows / product(pos) as int && p.shape@ == x
        }
    }
}

/// The rotated width and the rows pass the checks that come before the
/// positions are looked at.
pub open spec fn rope_checks(x: Seq<usize>, head_dim: usize, rope_dim: usize) -> bool {
    rope_dim != 0 && rope_dim % 2 == 0 && rope_dim <= head_dim && ends_in(x, head_dim)
}

/// There are positions, and the sizes are in range.
pub open spec fn positions_fit(x: Seq<usize>, pos: Seq<usize>) -> bool {
    product_fits(x) && product_fits(pos) && product(pos) > 0
}

/// The rotary embedding of `x` at positions `pos`.
pub fn rope_f32(x: &Vec<usize>, pos: &Vec<usize>, head_dim: usize, rope_dim: usize) -> (r: Result<
    RopePlan,
    BackendError,
>)
    requires
        rope_checks(x@, head_dim, rope_dim) ==> positions_fit(x@, pos@),
    ensures
        rope_outcome(r, x@, pos@, head_dim, rope_dim),
{
    if rope_dim == 0 || rope_dim % 2 != 0 || rope_dim > head_dim {
        let left = text::concat(
            "rope_dim must be even and \u{2264} head_dim, got ",
            text::decimal_string(rope_dim).as_str(),
        );
        let middle = text::concat(left.as_str(), " / ");
        let reason = text::concat(middle.as_str(), text::decimal_string(head_dim).as_str());
        return Err(BackendError::InvalidInput { op: "Rope", reason });
    }
    if !has_last(x, head_dim) {
        return Err(
            BackendError::ShapeMismatch { op: "Rope", expected: one(head_dim), got: copy_shape(x) },
        );
    }
    let rows: usize = numel(x) / head_dim;
    let positions: usize = numel(pos);
    if rows % positions != 0 {
        let a = text::concat(
            "cannot broadcast pos (len=",
            text::decimal_string(positions).as_str(),
        );
        let b = text::concat(a.as_str(), ") across x (");
        let c = text::concat(b.as_str(), text::decimal_string(rows).as_str());
        let reason = text::concat(c.as_str(), " rows of head_dim)");
        return Err(BackendError::InvalidInput { op: "Rope", reason });
    }
    Ok(
        RopePlan {
            rows,
            head_dim,
            rotated: rope_dim / 2,
            heads_per_pos: rows / positions,
            shape: copy_shape(x),
        },
    )
}

/// The dimension that a possibly negative one means.
pub open spec fn counted_from_end(dim: i32, rank: nat) -> int {
    if dim < 0 {
        rank + dim
    } else {
        dim as int
    }
}

/// The outcome of checking a softmax.
pub open spec fn softmax_outcome(
    r: Result<RowsPlan, BackendError>,
    x: Seq<usize>,
    dim: i32,
) -> bool {
    let d = counted_from_end(dim, x.len());
    if d < 0 || d >= x.len() {
        r matches Err(e) && is_invalid(
            e,
            "Softmax"@,
            "dim "@ + text::signed_decimal(d) + " out of range for rank "@ + text::decimal(x.len()),
        )
    } else if d != x.len() - 1 {
        r matches Err(BackendError::Internal(m)) && m@
            == "Softmax currently only supports last-dim (dim="@ + text::signed_decimal(d) + ", rank="@
            + text::decimal(x.len()) + ")"@
    } else {
        r matches Ok(p) && p.batch == product(leading(x)) && p.width == x.last() && p.shape@ == x
    }
}

/// The softmax over the last dimension.
pub fn softmax_f32(x: &Vec<usize>, dim: i32) -> (r: Result<RowsPlan, BackendError>)
    requires
        x@.len() <= i32::MAX,
        x@.len() > 0 ==> product_fits(leading(x@)),
    ensures
        softmax_outcome(r, x@, dim),
{
    let rank: i64 = x.len() as i64;
    let d: i64 = if dim < 0 {
        rank + dim as i64
    } else {
        dim as i64
    };
    if d < 0 || d >= rank {
        let a = text::concat("dim ", text::signed_string(d).as_str());
        let b = text::concat(a.as_str(), " out of range for rank ");
        let reason = text::concat(b.as_str(), text::decimal_string(x.len()).as_str());
        return Err(BackendError::InvalidInput { op: "Softmax", reason });
    }
    if d != rank - 1 {
        let a = text::concat(
            "Softmax currently only supports last-dim (dim=",
            text::signed_string(d).as_str(),
        );
        let b = text::concat(a.as_str(), ", rank=");
        let c = text::concat(b.as_str(), text::decimal_string(x.len()).as_str());
        return Err(BackendError::Internal(text::concat(c.as_str(), ")")));
    }
    let n: usize = x.len();
    let batch: usize = product_of_first(x, n - 1);
    Ok(RowsPlan { batch, width: x[n - 1], shape: copy_shape(x) })
}

/// A product with an encoded matrix.
#[derive(Debug, PartialEq, Eq)]
pub struct QuantMatmulPlan {
    pub format: Format,
    pub batch: usize,
    pub n: usize,
    pub k: usize,
    /// Bytes of one row of the matrix.
    pub row_bytes: usize,
    pub shape: Vec<usize>,
}

/// The encodings that can be multiplied without decoding the matrix first.
pub open spec fn fused_format(dtype: DType) -> Option<Format> {
    match dtype {
        DType::Q4 => Some(Format::Q4),
        DType::Q8 => Some(Format::Q8),
        DType::Q4_0 => Some(Format::Q4_0),
        DType::Q8_0 => Some(Format::Q8_0),
        DType::Q4_K => Some(Format::Q4_K),
        DType::Q6_K => Some(Format::Q6_K),
        _ => None,
    }
}

/// Why an element type cannot be multiplied.
pub open spec fn matmul_blocker(dtype: DType) -> Seq<char> {
    if dtype is U32 || dtype is U16 || dtype is Ternary {
        "matmul against U32/U16/Ternary not expected; norms/biases use other ops"@
    } else {
        "fused quant matmul not implemented"@
    }
}

/// The bytes of a row of `k` elements.
pub open spec fn row_bytes_of(f: Format, k: usize) -> int {
    k as int / block_len(f) as int * block_bytes(f) as int
}

/// The message on a row that is no sequence of whole blocks.
pub open spec fn divisible_reason(f: Format, k: usize) -> Seq<char> {
    "K must be divisible by "@ + text::decimal(block_len(f)) + ", got K="@ + text::decimal(
        k as nat,
    )
}

/// The message on a matrix of another size.
pub open spec fn length_reason(f: Format, len: usize, n: usize, k: usize) -> Seq<char> {
    "weight buffer length "@ + text::decimal(len as nat) + " does not match N\u{d7}row_bytes ("@
        + text::decimal(n as nat) + "\u{d7}"@ + text::decimal(row_bytes_of(f, k) as nat) + " = "@
        + text::decimal((n * row_bytes_of(f, k)) as nat) + ")"@
}

/// The outcome of checking a product with an encoded matrix.
pub open spec fn quant_matmul_outcome(
    r: Result<QuantMatmulPlan, BackendError>,
    x: Seq<usize>,
    len: usize,
    dtype: DType,
    n: usize,
    k: usize,
) -> bool {
    if !ends_in(x, k) {
        r matches Err(e) && is_mismatch(e, "MatmulQuant"@, seq![0, k], x)
    } else {
        match fused_format(dtype) {
            None => r matches Err(BackendError::UnsupportedDtype { backend, dtype: d, blocker })
                && backend@ == "cpu"@ && d == dtype && blocker@ == matmul_blocker(dtype),
            Some(f) => if k as int % block_len(f) as int != 0 {
                r matches Err(e) && is_invalid(e, "MatmulQuant"@, divisible_reason(f, k))
            } else if len != n * row_bytes_of(f, k) {
                r matches Err(e) && is_invalid(e, "MatmulQuant"@, length_reason(f, len, n, k))
            } else {
                r matches Ok(p) && p.format == f && p.batch == product(leading(x)) && p.n == n
                    && p.k == k && p.row_bytes == row_bytes_of(f, k) && p.shape@ == leading(x).push(
                    n,
                )
            },
        }
    }
}

fn format_of_matrix(dtype: DType) -> (f: Option<Format>)
    ensures
        f == fused_format(dtype),
{
    match dtype {
        DType::Q4 => Some(Format::Q4),
        DType::Q8 => Some(Format::Q8),
        DType::Q4_0 => Some(Format::Q4_0),
        DType::Q8_0 => Some(Format::Q8_0),
        DType::Q4_K => Some(Format::Q4_K),
        DType::Q6_K => Some(Format::Q6_K),
        _ => None,
    }
}

/// Checks the rows and the size of an encoded matrix and gives the bytes of a
/// row.
pub fn matmul_blocks(f: Format, len: usize, n: usize, k: usize) -> (r: Result<usize, BackendError>)
    requires
        row_bytes_of(f, k) <= usize::MAX,
        n * row_bytes_of(f, k) <= usize::MAX,
    ensures
        if k as int % block_len(f) as int != 0 {
            r matches Err(e) && is_invalid(e, "MatmulQuant"@, divisible_reason(f, k))
        } else if len != n * row_bytes_of(f, k) {
            r matches Err(e) && is_invalid(e, "MatmulQuant"@, length_reason(f, len, n, k))
        } else {
            r matches Ok(b) && b == row_bytes_of(f, k)
        },
{
    let size: usize = f.len();
    if k % size != 0 {
        let a = text::concat("K must be divisible by ", text::decimal_string(size).as_str());
        let b = text::concat(a.as_str(), ", got K=");
        let reason = text::concat(b.as_str(), text::decimal_string(k).as_str());
        return Err(BackendError::InvalidInput { op: "MatmulQuant", reason });
    }
    let row_bytes: usize = k / size * f.bytes();
    let expected: usize = n * row_bytes;
    if len != expected {
        let a = text::concat("weight buffer length ", text::decimal_string(len).as_str());
        let b = text::concat(a.as_str(), " does not match N\u{d7}row_bytes (");
        let c = text::concat(b.as_str(), text::decimal_string(n).as_str());
        let d = text::concat(c.as_str(), "\u{d7}");
        let e = text::concat(d.as_str(), text::decimal_string(row_bytes).as_str());
        let g = text::concat(e.as_str(), " = ");
        let h = text::concat(g.as_str(), text::decimal_string(expected).as_str());
        let reason = text::concat(h.as_str(), ")");
        return Err(BackendError::InvalidInput { op: "MatmulQuant", reason });
    }
    Ok(row_bytes)
}

/// The sizes of a product with an encoded matrix are in range.
pub open spec fn quant_sizes_fit(dtype: DType, n: usize, k: usize) -> bool {
    fused_format(dtype) matches Some(f) ==> row_bytes_of(f, k) <= usize::MAX && n * row_bytes_of(
        f,
        k,
    ) <= usize::MAX
}

/// The product of `x` with the transpose of an encoded matrix of `n` rows and
/// `k` columns.
pub fn matmul_quant_f32(x: &Vec<usize>, len: usize, dtype: DType, n: usize, k: usize) -> (r: Result<
    QuantMatmulPlan,
    BackendError,
>)
    requires
        x@.len() > 0 ==> product_fits(leading(x@)),
        quant_sizes_fit(dtype, n, k),
    ensures
        quant_matmul_outcome(r, x@, len, dtype, n, k),
{
    if !has_last(x, k) {
        return Err(
            BackendError::ShapeMismatch {
                op: "MatmulQuant",
                expected: two(0, k),
                got: copy_shape(x),
            },
        );
    }
    let batch: usize = product_of_first(x, x.len() - 1);
    match format_of_matrix(dtype) {
        None => {
            let blocker = if dtype == DType::U32 || dtype == DType::U16 || dtype == DType::Ternary {
                "matmul against U32/U16/Ternary not expected; norms/biases use other ops"
            } else {
                "fused quant matmul not implemented"
            };
            Err(BackendError::UnsupportedDtype { backend: "cpu", dtype, blocker })
        },
        Some(f) => match matmul_blocks(f, len, n, k) {
            Ok(row_bytes) => Ok(
                QuantMatmulPlan { format: f, batch, n, k, row_bytes, shape: with_last(x, n) },
            ),
            Err(e) => Err(e),
        },
    }
}

/// The gated feed-forward part: two products, their gated product, and the
/// product that leads back.
#[derive(Debug, PartialEq, Eq)]
pub struct SwigluPlan {
    pub gate: MatmulPlan,
    pub up: MatmulPlan,
    pub down: MatmulPlan,
}

/// The outcome of checking a gated feed-forward part.
pub open spec fn swiglu_outcome(
    r: Result<SwigluPlan, BackendError>,
    x: Seq<usize>,
    gate: Seq<usize>,
    up: Seq<usize>,
    down: Seq<usize>,
) -> bool {
    match r {
        Ok(p) => {
            &&& matmul_outcome(Ok(p.gate), x, gate)
            &&& matmul_outcome(Ok(p.up), x, up)
            &&& matmul_outcome(Ok(p.down), p.gate.shape@, down)
        },
        Err(e) => {
            ||| matmul_outcome(Err(e), x, gate)
            ||| product_checks(x, gate) && matmul_outcome(Err(e), x, up)
            ||| product_checks(x, gate) && product_checks(x, up) && matmul_outcome(
                Err(e),
                leading(x).push(gate[0]),
                down,
            )
        },
    }
}

/// A product passes its checks.
pub open spec fn product_checks(x: Seq<usize>, w: Seq<usize>) -> bool {
    w.len() == 2 && ends_in(x, w[1])
}

/// Both products of a gated feed-forward part have the same size.
pub open spec fn same_widths(x: Seq<usize>, gate: Seq<usize>, up: Seq<usize>) -> bool {
    product_checks(x, gate) && product_checks(x, up) ==> product(leading(x)) * gate[0] == product(
        leading(x),
    ) * up[0]
}

/// The gated feed-forward part.
pub fn swiglu_f32(x: &Vec<usize>, gate: &Vec<usize>, up: &Vec<usize>, down: &Vec<usize>) -> (r:
    Result<SwigluPlan, BackendError>)
    requires
        x@.len() > 0 ==> product_fits(leading(x@)),
        same_widths(x@, gate@, up@),
    ensures
        swiglu_outcome(r, x@, gate@, up@, down@),
        r is Ok == (product_checks(x@, gate@) && product_checks(x@, up@) && product_checks(
            leading(x@).push(gate@[0]),
            down@,
        )),
{
    let g = match matmul_f32(x, gate) {
        Ok(p) => p,
        Err(e) => {
            return Err(e);
        },
    };
    let u = match matmul_f32(x, up) {
        Ok(p) => p,
        Err(e) => {
            return Err(e);
        },
    };
    proof {
        let s = leading(x@).push(gate@[0]);
        assert(leading(s) =~= leading(x@));
    }
    match matmul_f32(&g.shape, down) {
        Ok(d) => Ok(SwigluPlan { gate: g, up: u, down: d }),
        Err(e) => Err(e),
    }
}

/// Attention of one query over all positions.
#[derive(Clone, Copy, Debug, PartialEq, Eq, Structural)]
pub struct SdpaPlan {
    pub heads: usize,
    pub kv_heads: usize,
    pub head_dim: usize,
    /// Query heads that share a key-value head.
    pub groups: usize,
    pub total_seq: usize,
}

/// The query heads that share a key-value head.
pub open spec fn groups_of_heads(heads: int, kv_heads: int) -> int {
    if kv_heads == 0 {
        1
    } else {
        heads / kv_heads
    }
}

/// The extents of attention over keys of this shape.
pub open spec fn sdpa_of(heads: u32, kv_heads: u32, head_dim: u32, keys: Seq<usize>) -> SdpaPlan {
    SdpaPlan {
        heads: heads as usize,
        kv_heads: kv_heads as usize,
        head_dim: head_dim as usize,
        groups: groups_of_heads(heads as int, kv_heads as int) as usize,
        total_seq: if keys.len() >= 1 {
            keys[0]
        } else {
            1
        },
    }
}

fn sdpa(heads: u32, kv_heads: u32, head_dim: u32, keys: &Vec<usize>) -> (p: SdpaPlan)
    ensures
        p == sdpa_of(heads, kv_heads, head_dim, keys@),
{
    SdpaPlan {
        heads: heads as usize,
        kv_heads: kv_heads as usize,
        head_dim: head_dim as usize,
        groups: if kv_heads == 0 {
            1
        } else {
            heads as usize / kv_heads as usize
        },
        total_seq: if keys.len() >= 1 {
            keys[0]
        } else {
            1
        },
    }
}

/// Head `h` is in run `g` of `size` consecutive heads.
pub open spec fn in_run(h: int, g: int, size: int) -> bool {
    g * size <= h < (g + 1) * size
}

proof fn lemma_run(h: int, g: int, size: int)
    requires
        size > 0,
        in_run(h, g, size),
    ensures
        h / size == g,
{
    assert((g + 1) * size == g * size + size) by (nonlinear_arith);
    vstd::arithmetic::div_mod::lemma_fundamental_div_mod_converse(h, size, g, h - g * size);
}

/// Of a plan whose heads are `group` for each key-value head, the query heads
/// `g * group ..` up to the next multiple all read the rows of key-value head
/// `g`: in the cache the positions follow one another, and in a position the
/// key-value heads.
pub proof fn consecutive_heads_share_a_kv_head(
    heads: u32,
    kv_heads: u32,
    head_dim: u32,
    keys: Seq<usize>,
    group: int,
    t: int,
    g: int,
    j: int,
)
    requires
        kv_heads > 0,
        heads == group * kv_heads,
        0 <= g < kv_heads,
        0 <= j < group,
    ensures
        sdpa_of(heads, kv_heads, head_dim, keys).kv_start(t, g * group + j) == t * (kv_heads
            * head_dim) + g * head_dim,
        sdpa_of(heads, kv_heads, head_dim, keys).groups == group,
        sdpa_of(heads, kv_heads, head_dim, keys).heads == heads,
        sdpa_of(heads, kv_heads, head_dim, keys).kv_heads == kv_heads,
        sdpa_of(heads, kv_heads, head_dim, keys).head_dim == head_dim,
        keys.len() > 0 ==> sdpa_of(heads, kv_heads, head_dim, keys).total_seq == keys[0],
{
    let p = sdpa_of(heads, kv_heads, head_dim, keys);
    vstd::arithmetic::div_mod::lemma_div_by_multiple(group, kv_heads as int);
    assert(0 <= group <= heads) by (nonlinear_arith)
        requires
            heads == group * kv_heads,
            kv_heads > 0,
            group > 0,
    ;
    assert((g + 1) * group == g * group + group) by (nonlinear_arith);
    lemma_run(g * group + j, g, group);
    assert(p.kv_heads * p.head_dim == kv_heads * head_dim);
}

/// Two query heads read the same rows where they are in the same run of heads,
/// and rows that do not overlap where they are not.
pub proof fn runs_of_heads_do_not_overlap(p: SdpaPlan, t: int, a: int, b: int, g: int, k: int)
    requires
        p.groups > 0,
        in_run(a, g, p.groups as int),
        in_run(b, k, p.groups as int),
    ensures
        g == k ==> p.kv_start(t, a) == p.kv_start(t, b),
        g < k ==> p.kv_start(t, a) + p.head_dim <= p.kv_start(t, b),
{
    lemma_run(a, g, p.groups as int);
    lemma_run(b, k, p.groups as int);
    if g < k {
        assert(g * p.head_dim + p.head_dim <= k * p.head_dim) by (nonlinear_arith)
            requires
                g + 1 <= k,
                p.head_dim >= 0,
        ;
    }
}

impl SdpaPlan {
    /// Where the keys, or the values, of position `t` for query head `h` start.
    pub open spec fn kv_start(self, t: int, h: int) -> int {
        t * (self.kv_heads * self.head_dim) + h / self.groups as int * self.head_dim
    }

    /// Where the keys, or the values, of position `t` for query head `h` start.
    pub fn kv_offset(&self, t: usize, h: usize) -> (start: usize)
        requires
            self.groups > 0,
            h < self.heads,
            t < self.total_seq,
            self.groups * self.kv_heads == self.heads,
            self.total_seq * (self.kv_heads * self.head_dim) <= usize::MAX,
        ensures
            start == self.kv_start(t as int, h as int),
            start + self.head_dim <= self.total_seq * (self.kv_heads * self.head_dim),
            forall|g: int|
                #[trigger] in_run(h as int, g, self.groups as int) ==> start == t * (self.kv_heads
                    * self.head_dim) + g * self.head_dim,
    {
        proof {
            assert forall|g: int| #[trigger] in_run(h as int, g, self.groups as int) implies h as int
                / self.groups as int == g by {
                lemma_run(h as int, g, self.groups as int);
            }
            kv_rows_are_in_range(*self, t as int, h as int);
            let w = self.kv_heads * self.head_dim;
            assert(w <= self.total_seq * w) by (nonlinear_arith)
                requires
                    self.total_seq >= 1,
                    w >= 0,
            ;
            assert(t * w >= 0) by (nonlinear_arith)
                requires
                    t >= 0,
                    w >= 0,
            ;
            let g = h as int / self.groups as int;
            assert(g * self.head_dim >= 0) by (nonlinear_arith)
                requires
                    g >= 0,
                    self.head_dim >= 0,
            ;
            assert(w >= 0) by (nonlinear_arith)
                requires
                    w == self.kv_heads * self.head_dim,
            ;
        }
        t * (self.kv_heads * self.head_dim) + h / self.groups * self.head_dim
    }
}

/// The keys that a query head reads lie within the cache, in the part of the
/// key-value head that its group shares.
pub proof fn kv_rows_are_in_range(p: SdpaPlan, t: int, h: int)
    requires
        p.groups > 0,
        p.groups * p.kv_heads == p.heads,
        0 <= h < p.heads,
        0 <= t < p.total_seq,
    ensures
        0 <= h / p.groups as int,
        h / p.groups as int <= p.kv_heads - 1,
        0 <= p.kv_start(t, h),
        p.kv_start(t, h) + p.head_dim <= p.total_seq * (p.kv_heads * p.head_dim),
{
    let g = h / p.groups as int;
    vstd::arithmetic::div_mod::lemma_fundamental_div_mod(h, p.groups as int);
    vstd::arithmetic::div_mod::lemma_mod_bound(h, p.groups as int);
    vstd::arithmetic::div_mod::lemma_div_pos_is_pos(h, p.groups as int);
    assert(g < p.kv_heads) by (nonlinear_arith)
        requires
            h < p.groups * p.kv_heads,
            h == p.groups * g + h % p.groups as int,
            h % p.groups as int >= 0,
            p.groups > 0,
    ;
    let hd = p.head_dim as int;
    let w = p.kv_heads * hd;
    assert(g * hd + hd <= w) by (nonlinear_arith)
        requires
            g + 1 <= p.kv_heads,
            hd >= 0,
            w == p.kv_heads * hd,
    ;
    assert(t * w + w <= p.total_seq * w) by (nonlinear_arith)
        requires
            t + 1 <= p.total_seq,
            w >= 0,
    ;
    assert(t * w >= 0 && g * hd >= 0) by (nonlinear_arith)
        requires
            t >= 0,
            g >= 0,
            hd >= 0,
            w >= 0,
    ;
}

/// One operation, checked.
#[derive(Debug, PartialEq, Eq)]
pub enum CpuStep {
    RmsNorm { rows: RowsPlan, eps: u32 },
    Matmul(MatmulPlan),
    Rope { plan: RopePlan, base: u32 },
    Softmax(RowsPlan),
    /// Element by element on a tensor of this shape.
    Silu(Vec<usize>),
    GeluTanh(Vec<usize>),
    GeluErf(Vec<usize>),
    Add(Pairing),
    Mul(Pairing),
    Sub(Pairing),
    SwiGlu(SwigluPlan),
    Sdpa(SdpaPlan),
}

/// The number of inputs of an operation; the reference backend does not have
/// the others.
pub open spec fn arity(op: Op) -> Option<nat> {
    match op {
        Op::RmsNorm { .. } | Op::Matmul | Op::Rope { .. } => Some(2),
        Op::Softmax { .. } | Op::Silu | Op::Gelu { .. } => Some(1),
        Op::Add | Op::Mul | Op::Sub => Some(2),
        Op::SwiGlu => Some(4),
        Op::Sdpa { .. } => Some(3),
        Op::Embed => None,
    }
}

/// The sizes of the inputs are in range for the operation.
pub open spec fn op_fits(op: Op, inputs: Seq<TensorDesc>) -> bool {
    arity(op) == Some(inputs.len()) ==> {
        let x = inputs[0].shape@;
        match op {
            Op::RmsNorm { .. } | Op::Matmul => x.len() > 0 ==> product_fits(leading(x)),
            Op::SwiGlu => (x.len() > 0 ==> product_fits(leading(x))) && same_widths(
                x,
                inputs[1].shape@,
                inputs[2].shape@,
            ),
            Op::Rope { head_dim, rope_dim, .. } => rope_checks(
                x,
                head_dim as usize,
                rope_dim as usize,
            ) ==> positions_fit(x, inputs[1].shape@),
            Op::Softmax { .. } => x.len() <= i32::MAX && (x.len() > 0 ==> product_fits(leading(x))),
            Op::Add | Op::Mul | Op::Sub => pairing_fits(x, inputs[1].shape@),
            _ => true,
        }
    }
}

/// A pairing, or its refusal.
pub open spec fn pairing_outcome(
    r: Result<Pairing, BackendError>,
    a: Seq<usize>,
    b: Seq<usize>,
) -> bool {
    if compatible(a, b) {
        r matches Ok(p) && is_pairing(p, a, b)
    } else {
        r matches Err(e) && is_mismatch(e, "binary_broadcast"@, a, b)
    }
}

/// The outcome of an operation that has the right number of inputs.
pub open spec fn op_outcome(
    r: Result<CpuStep, BackendError>,
    op: Op,
    inputs: Seq<TensorDesc>,
) -> bool {
    let x = inputs[0].shape@;
    match op {
        Op::RmsNorm { eps } => match r {
            Ok(s) => s matches CpuStep::RmsNorm { rows, eps: e } && e == eps && rms_norm_outcome(
                Ok(rows),
                x,
                inputs[1].shape@,
            ),
            Err(e) => rms_norm_outcome(Err(e), x, inputs[1].shape@),
        },
        Op::Matmul => match r {
            Ok(s) => s matches CpuStep::Matmul(p) && matmul_outcome(Ok(p), x, inputs[1].shape@),
            Err(e) => matmul_outcome(Err(e), x, inputs[1].shape@),
        },
        Op::Rope { head_dim, rope_dim, base } => match r {
            Ok(s) => s matches CpuStep::Rope { plan, base: b } && b == base && rope_outcome(
                Ok(plan),
                x,
                inputs[1].shape@,
                head_dim as usize,
                rope_dim as usize,
            ),
            Err(e) => rope_outcome(
                Err(e),
                x,
                inputs[1].shape@,
                head_dim as usize,
                rope_dim as usize,
            ),
        },
        Op::Softmax { dim } => match r {
            Ok(s) => s matches CpuStep::Softmax(p) && softmax_outcome(Ok(p), x, dim),
            Err(e) => softmax_outcome(Err(e), x, dim),
        },
        Op::Silu => r matches Ok(CpuStep::Silu(s)) && s@ == x,
        Op::Gelu { approximate } => if approximate {
            r matches Ok(CpuStep::GeluTanh(s)) && s@ == x
        } else {
            r matches Ok(CpuStep::GeluErf(s)) && s@ == x
        },
        Op::Add => match r {
            Ok(s) => s matches CpuStep::Add(p) && pairing_outcome(Ok(p), x, inputs[1].shape@),
            Err(e) => pairing_outcome(Err(e), x, inputs[1].shape@),
        },
        Op::Mul => match r {
            Ok(s) => s matches CpuStep::Mul(p) && pairing_outcome(Ok(p), x, inputs[1].shape@),
            Err(e) => pairing_outcome(Err(e), x, inputs[1].shape@),
        },
        Op::Sub => match r {
            Ok(s) => s matches CpuStep::Sub(p) && pairing_outcome(Ok(p), x, inputs[1].shape@),
            Err(e) => pairing_outcome(Err(e), x, inputs[1].shape@),
        },
        Op::SwiGlu => match r {
            Ok(s) => s matches CpuStep::SwiGlu(p) && swiglu_outcome(
                Ok(p),
                x,
                inputs[1].shape@,
                inputs[2].shape@,
                inputs[3].shape@,
            ),
            Err(e) => swiglu_outcome(
                Err(e),
                x,
                inputs[1].shape@,
                inputs[2].shape@,
                inputs[3].shape@,
            ),
        },
        Op::Sdpa { num_heads, kv_heads, head_dim } => r matches Ok(CpuStep::Sdpa(p)) && p
            == sdpa_of(num_heads, kv_heads, head_dim, inputs[1].shape@),
        Op::Embed => false,
    }
}

/// The message on a wrong number of inputs.
pub open spec fn count_reason(want: nat, have: nat) -> Seq<char> {
    "expected "@ + text::decimal(want) + " inputs, got "@ + text::decimal(have)
}

/// Refuses a wrong number of inputs.
pub fn require(op: &Op, want: usize, have: usize) -> (r: Result<(), BackendError>)
    ensures
        if want == have {
            r is Ok
        } else {
            r matches Err(e) && is_invalid(
                e,
                op_name(*op),
                count_reason(want as nat, have as nat),
            )
        },
{
    if want == have {
        return Ok(());
    }
    let a = text::concat("expected ", text::decimal_string(want).as_str());
    let b = text::concat(a.as_str(), " inputs, got ");
    let reason = text::concat(b.as_str(), text::decimal_string(have).as_str());
    Err(BackendError::InvalidInput { op: op.name(), reason })
}

/// The reference backend.
#[derive(Debug, PartialEq, Eq)]
pub struct CpuBackend;

impl CpuBackend {
    /// The backend.
    pub fn new() -> Self {
        CpuBackend
    }

    /// Every operation is taken; one that is not there is refused when it is
    /// executed.
    pub fn supports(&self, op: &Op, inputs: &Vec<TensorDesc>) -> (b: bool)
        ensures
            b,
    {
        true
    }

    /// Checks an operation and reduces it to its extents.
    pub fn execute(&self, op: &Op, inputs: &Vec<TensorDesc>) -> (r: Result<CpuStep, BackendError>)
        requires
            op_fits(*op, inputs@),
        ensures
            match arity(*op) {
                None => r matches Err(BackendError::UnsupportedOp { backend, op: o, input_dtype })
                    && backend@ == "cpu"@ && o@ == op_name(*op) && input_dtype == (if inputs@.len() > 0 {
                    inputs@[0].dtype
                } else {
                    DType::F32
                }),
                Some(n) => if inputs@.len() != n {
                    r matches Err(e) && is_invalid(
                        e,
                        op_name(*op),
                        count_reason(n, inputs@.len()),
                    )
                } else {
                    op_outcome(r, *op, inputs@)
                },
            },
    {
        let want: usize = match *op {
            Op::RmsNorm { .. } | Op::Matmul | Op::Rope { .. } => 2,
            Op::Softmax { .. } | Op::Silu | Op::Gelu { .. } => 1,
            Op::Add | Op::Mul | Op::Sub => 2,
            Op::SwiGlu => 4,
            Op::Sdpa { .. } => 3,
            Op::Embed => {
                let input_dtype = if inputs.len() > 0 {
                    inputs[0].dtype
                } else {
                    DType::F32
                };
                return Err(
                    BackendError::UnsupportedOp { backend: "cpu", op: op.name(), input_dtype },
                );
            },
        };
        match require(op, want, inputs.len()) {
            Ok(_) => {},
            Err(e) => {
                return Err(e);
            },
        }
        let x = &inputs[0].shape;
        match *op {
            Op::RmsNorm { eps } => match rms_norm_f32(x, &inputs[1].shape) {
                Ok(rows) => Ok(CpuStep::RmsNorm { rows, eps }),
                Err(e) => Err(e),
            },
            Op::Matmul => match matmul_f32(x, &inputs[1].shape) {
                Ok(p) => Ok(CpuStep::Matmul(p)),
                Err(e) => Err(e),
            },
            Op::Rope { head_dim, rope_dim, base } => match rope_f32(
                x,
                &inputs[1].shape,
                head_dim as usize,
                rope_dim as usize,
            ) {
                Ok(plan) => Ok(CpuStep::Rope { plan, base }),
                Err(e) => Err(e),
            },
            Op::Softmax { dim } => match softmax_f32(x, dim) {
                Ok(p) => Ok(CpuStep::Softmax(p)),
                Err(e) => Err(e),
            },
            Op::Silu => Ok(CpuStep::Silu(copy_shape(x))),
            Op::Gelu { approximate } => if approximate {
                Ok(CpuStep::GeluTanh(copy_shape(x)))
            } else {
                Ok(CpuStep::GeluErf(copy_shape(x)))
            },
            Op::Add => match binary_broadcast(x, &inputs[1].shape) {
                Ok(p) => Ok(CpuStep::Add(p)),
                Err(e) => Err(e),
            },
            Op::Mul => match binary_broadcast(x, &inputs[1].shape) {
                Ok(p) => Ok(CpuStep::Mul(p)),
                Err(e) => Err(e),
            },
            Op::Sub => match binary_broadcast(x, &inputs[1].shape) {
                Ok(p) => Ok(CpuStep::Sub(p)),
                Err(e) => Err(e),
            },
            Op::SwiGlu => match swiglu_f32(
                x,
                &inputs[1].shape,
                &inputs[2].shape,
                &inputs[3].shape,
            ) {
                Ok(p) => Ok(CpuStep::SwiGlu(p)),
                Err(e) => Err(e),
            },
            Op::Sdpa { num_heads, kv_heads, head_dim } => Ok(
                CpuStep::Sdpa(sdpa(num_heads, kv_heads, head_dim, &inputs[1].shape)),
            ),
            Op::Embed => Err(
                BackendError::UnsupportedOp {
                    backend: "cpu",
                    op: op.name(),
                    input_dtype: inputs[0].dtype,
                },
            ),
        }
    }
}

} // verus!
