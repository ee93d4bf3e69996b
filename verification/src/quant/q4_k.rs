//! 4-bit codes in blocks of 256 with eight sub-scales and sub-minima.
//!
//! A block of 144 bytes holds a scale and a minimum in half precision, twelve
//! bytes of packed six-bit sub-scales and sub-minima, and 128 bytes of codes.

use vstd::prelude::*;

use crate::quant::stored::{
    decode, decoded, decoded_len, le16, lemma_nibbles, nibble, scale_min, stored_at,
    unpack_scale_min, Format, Stored,
};

verus! {

/// Elements of a block.
pub const BLOCK_SIZE: usize = 256;

/// Bytes of a block.
pub const BLOCK_BYTES: usize = 144;

/// The elements of whole blocks.
pub fn dequantize(bytes: &[u8]) -> (v: Vec<Stored>)
    requires
        bytes@.len() % 144 == 0,
        bytes@.len() / 144 * 256 <= usize::MAX,
    ensures
        v@ == decoded(Format::Q4_K, bytes@),
{
    decode(Format::Q4_K, bytes)
}

/// The six-bit scale and minimum of sub-block `j`.
pub fn unpack_scale_min_k4_public(j: usize, scales: &[u8]) -> (r: (u8, u8))
    requires
        scales@.len() >= 12,
        j < 8,
    ensures
        (r.0 as int, r.1 as int) == scale_min(scales@, 0, j as int),
{
    unpack_scale_min(scales, 0, j)
}

/// A block before packing.
#[derive(Debug, PartialEq, Eq)]
pub struct SuperBlock {
    /// The scale, in half precision.
    pub d: u16,
    /// The minimum, in half precision.
    pub dmin: u16,
    /// Eight sub-scales of six bits.
    pub scales: Vec<u8>,
    /// Eight sub-minima of six bits.
    pub mins: Vec<u8>,
    /// 256 codes of four bits.
    pub codes: Vec<u8>,
}

/// Every part has its length, and every item its width.
pub open spec fn block_fits(b: SuperBlock) -> bool {
    &&& b.scales@.len() == 8
    &&& b.mins@.len() == 8
    &&& b.codes@.len() == 256
    &&& forall|j: int| 0 <= j < 8 ==> #[trigger] b.scales@[j] < 64
    &&& forall|j: int| 0 <= j < 8 ==> #[trigger] b.mins@[j] < 64
    &&& forall|i: int| 0 <= i < 256 ==> #[trigger] b.codes@[i] < 16
}

/// The twelve bytes of packed scales and minima.
pub open spec fn packed_scale(b: SuperBlock, k: int) -> int {
    if k < 4 {
        b.scales@[k] + 64 * (b.scales@[k + 4] as int / 16)
    } else if k < 8 {
        b.mins@[k - 4] + 64 * (b.mins@[k] as int / 16)
    } else {
        b.scales@[k - 4] as int % 16 + 16 * (b.mins@[k - 4] as int % 16)
    }
}

/// The byte of codes at `k`: sub-blocks come in pairs, the low nibbles are of
/// the first of the pair.
pub open spec fn packed_code(b: SuperBlock, k: int) -> int {
    b.codes@[k / 32 * 64 + k % 32] + 16 * b.codes@[k / 32 * 64 + 32 + k % 32]
}

/// Byte `k` of a packed block.
pub open spec fn packed_byte(b: SuperBlock, k: int) -> int {
    if k == 0 {
        b.d as int % 0x100
    } else if k == 1 {
        b.d as int / 0x100
    } else if k == 2 {
        b.dmin as int % 0x100
    } else if k == 3 {
        b.dmin as int / 0x100
    } else if k < 16 {
        packed_scale(b, k - 4)
    } else {
        packed_code(b, k - 16)
    }
}

/// The packed blocks, one after the other.
pub open spec fn is_packed(out: Seq<u8>, blocks: Seq<SuperBlock>) -> bool {
    &&& out.len() == 144 * blocks.len()
    &&& forall|n: int, k: int|
        0 <= n < blocks.len() && 0 <= k < 144 ==> #[trigger] out[144 * n + k] == packed_byte(
            blocks[n],
            k,
        )
}

fn pack_byte(b: &SuperBlock, k: usize) -> (byte: u8)
    requires
        block_fits(*b),
        k < 144,
    ensures
        byte == packed_byte(*b, k as int),
{
    if k == 0 {
        (b.d % 0x100) as u8
    } else if k == 1 {
        (b.d / 0x100) as u8
    } else if k == 2 {
        (b.dmin % 0x100) as u8
    } else if k == 3 {
        (b.dmin / 0x100) as u8
    } else if k < 8 {
        b.scales[k - 4] + 64 * (b.scales[k] / 16)
    } else if k < 12 {
        b.mins[k - 8] + 64 * (b.mins[k - 4] / 16)
    } else if k < 16 {
        b.scales[k - 8] % 16 + 16 * (b.mins[k - 8] % 16)
    } else {
        let c: usize = k - 16;
        b.codes[c / 32 * 64 + c % 32] + 16 * b.codes[c / 32 * 64 + 32 + c % 32]
    }
}

/// Packs blocks. A matrix of `n` rows and `k` columns has its blocks in the
/// order of [`block_starts`].
pub fn f32_to_q4k(blocks: &Vec<SuperBlock>) -> (out: Vec<u8>)
    requires
        forall|n: int| 0 <= n < blocks@.len() ==> block_fits(#[trigger] blocks@[n]),
        144 * blocks@.len() <= usize::MAX,
    ensures
        is_packed(out@, blocks@),
{
    let mut out: Vec<u8> = Vec::new();
    let mut n: usize = 0;
    while n < blocks.len()
        invariant
            n <= blocks@.len(),
            forall|i: int| 0 <= i < blocks@.len() ==> block_fits(#[trigger] blocks@[i]),
            out@.len() == 144 * n,
            forall|m: int, k: int|
                0 <= m < n && 0 <= k < 144 ==> #[trigger] out@[144 * m + k] == packed_byte(
                    blocks@[m],
                    k,
                ),
        decreases blocks@.len() - n,
    {
        let mut k: usize = 0;
        while k < 144
            invariant
                k <= 144,
                n < blocks@.len(),
                block_fits(blocks@[n as int]),
                out@.len() == 144 * n + k,
                forall|m: int, i: int|
                    0 <= m < n && 0 <= i < 144 ==> #[trigger] out@[144 * m + i] == packed_byte(
                        blocks@[m],
                        i,
                    ),
                forall|i: int|
                    0 <= i < k ==> #[trigger] out@[144 * n + i] == packed_byte(
                        blocks@[n as int],
                        i,
                    ),
            decreases 144 - k,
        {
            out.push(pack_byte(&blocks[n], k));
            k = k + 1;
        }
        n = n + 1;
    }
    out
}

/// Where the blocks of a matrix start: row by row, and in each row at every
/// multiple of 256 that leaves a whole block.
pub open spec fn starts(n: int, k: int) -> Seq<int> {
    Seq::new((n * (k / 256)) as nat, |i: int| i / (k / 256) * k + i % (k / 256) * 256)
}

/// See [`starts`].
pub fn block_starts(n: usize, k: usize) -> (v: Vec<usize>)
    requires
        n * k <= usize::MAX,
    ensures
        v@.map_values(|x: usize| x as int) == starts(n as int, k as int),
{
    let per_row: usize = k / 256;
    let mut v: Vec<usize> = Vec::new();
    let mut row: usize = 0;
    let mut base: usize = 0;
    while row < n
        invariant
            n * k <= usize::MAX,
            row <= n,
            per_row == k / 256,
            base == row * k,
            v@.len() == row * per_row,
            forall|i: int|
                0 <= i < v@.len() ==> #[trigger] v@[i] == i / per_row as int * k + i
                    % per_row as int * 256,
        decreases n - row,
    {
        proof {
            assert((row + 1) * k <= n * k) by (nonlinear_arith)
                requires
                    row + 1 <= n,
            ;
            assert((row + 1) * k == row * k + k) by (nonlinear_arith);
            assert((row + 1) * per_row == row * per_row + per_row) by (nonlinear_arith);
        }
        let mut s: usize = 0;
        while s < per_row
            invariant
                s <= per_row,
                per_row == k / 256,
                base == row * k,
                base + k <= usize::MAX,
                v@.len() == row * per_row + s,
                forall|i: int|
                    0 <= i < v@.len() ==> #[trigger] v@[i] == i / per_row as int * k + i
                        % per_row as int * 256,
            decreases per_row - s,
        {
            proof {
                vstd::arithmetic::div_mod::lemma_fundamental_div_mod_converse(
                    row * per_row + s,
                    per_row as int,
                    row as int,
                    s as int,
                );
            }
            v.push(base + s * 256);
            s = s + 1;
        }
        base = base + k;
        row = row + 1;
    }
    assert(v@.map_values(|x: usize| x as int) =~= starts(n as int, k as int));
    v
}

/// Unpacking gives back what was packed: the scales, the minima and the codes
/// of every block.
pub proof fn pack_reads_back(out: Seq<u8>, blocks: Seq<SuperBlock>, n: int, i: int)
    requires
        is_packed(out, blocks),
        0 <= n < blocks.len(),
        0 <= i < 256,
        block_fits(blocks[n]),
    ensures
        decoded(Format::Q4_K, out).len() == 256 * blocks.len(),
        decoded(Format::Q4_K, out)[256 * n + i] == (Stored::Affine {
            d: blocks[n].d,
            scale: blocks[n].scales@[i / 32] as i32,
            code: blocks[n].codes@[i] as i32,
            dmin: blocks[n].dmin,
            min: blocks[n].mins@[i / 32] as i32,
        }),
{
    assert(decoded_len(Format::Q4_K, out.len()) == 256 * blocks.len());
    lemma_index(out, n, i);
    lemma_head(out, blocks, n);
    lemma_scales(out, blocks, n, i / 32);
    lemma_codes(out, blocks, n, i);
}

proof fn lemma_index(out: Seq<u8>, n: int, i: int)
    requires
        0 <= n,
        0 <= i < 256,
        256 * n + i < decoded(Format::Q4_K, out).len(),
    ensures
        decoded(Format::Q4_K, out)[256 * n + i] == stored_at(Format::Q4_K, out, 144 * n, i),
{
    assert((256 * n + i) / 256 == n);
    assert((256 * n + i) % 256 == i);
}

proof fn lemma_head(out: Seq<u8>, blocks: Seq<SuperBlock>, n: int)
    requires
        is_packed(out, blocks),
        0 <= n < blocks.len(),
    ensures
        le16(out, 144 * n) == blocks[n].d,
        le16(out, 144 * n + 2) == blocks[n].dmin,
{
    let b = blocks[n];
    assert(out[144 * n + 0] == packed_byte(b, 0));
    assert(out[144 * n + 1] == packed_byte(b, 1));
    assert(out[144 * n + 2] == packed_byte(b, 2));
    assert(out[144 * n + 3] == packed_byte(b, 3));
}

proof fn lemma_codes(out: Seq<u8>, blocks: Seq<SuperBlock>, n: int, i: int)
    requires
        is_packed(out, blocks),
        0 <= n < blocks.len(),
        0 <= i < 256,
        block_fits(blocks[n]),
    ensures
        nibble(out[144 * n + 16 + i / 64 * 32 + i % 32], i % 64 >= 32) == blocks[n].codes@[i],
{
    let b = blocks[n];
    let k = i / 64 * 32 + i % 32;
    assert(out[144 * n + (16 + k)] == packed_byte(b, 16 + k));
    assert(k / 32 == i / 64);
    assert(k % 32 == i % 32);
    let low = b.codes@[i / 64 * 64 + i % 32];
    let high = b.codes@[i / 64 * 64 + 32 + i % 32];
    let byte = out[144 * n + 16 + i / 64 * 32 + i % 32];
    lemma_nibbles(byte, low as int, high as int);
    if i % 64 >= 32 {
        assert(i / 64 * 64 + 32 + i % 32 == i);
    } else {
        assert(i / 64 * 64 + i % 32 == i);
    }
}

proof fn lemma_byte(out: Seq<u8>, blocks: Seq<SuperBlock>, n: int, k: int)
    requires
        is_packed(out, blocks),
        0 <= n < blocks.len(),
        0 <= k < 12,
    ensures
        out[144 * n + 4 + k] == packed_scale(blocks[n], k),
{
    assert(out[144 * n + (4 + k)] == packed_byte(blocks[n], 4 + k));
}

/// Six bits in the low part of a byte, and two bits above them.
proof fn lemma_six_and_two(byte: u8, a: u8, b: u8)
    requires
        a < 64,
        b < 64,
        byte == a + 64 * (b as int / 16),
    ensures
        byte as int % 64 == a,
        byte as int / 64 == b as int / 16,
{
}

proof fn lemma_four_and_four(byte: u8, a: u8, b: u8)
    requires
        byte == a as int % 16 + 16 * (b as int % 16),
    ensures
        byte as int % 16 == a as int % 16,
        byte as int / 16 == b as int % 16,
{
}

proof fn lemma_scales(out: Seq<u8>, blocks: Seq<SuperBlock>, n: int, j: int)
    requires
        is_packed(out, blocks),
        0 <= n < blocks.len(),
        0 <= j < 8,
        block_fits(blocks[n]),
    ensures
        scale_min(out, 144 * n + 4, j) == (
            blocks[n].scales@[j] as int,
            blocks[n].mins@[j] as int,
        ),
{
    let b = blocks[n];
    let i = j % 4;
    lemma_byte(out, blocks, n, i);
    lemma_byte(out, blocks, n, i + 4);
    lemma_byte(out, blocks, n, i + 8);
    lemma_parts(out, 144 * n + 4, b, i);
}

proof fn lemma_parts(out: Seq<u8>, at: int, b: SuperBlock, i: int)
    requires
        block_fits(b),
        0 <= i < 4,
        out[at + i] == packed_scale(b, i),
        out[at + i + 4] == packed_scale(b, i + 4),
        out[at + i + 8] == packed_scale(b, i + 8),
    ensures
        scale_min(out, at, i) == (b.scales@[i] as int, b.mins@[i] as int),
        scale_min(out, at, i + 4) == (b.scales@[i + 4] as int, b.mins@[i + 4] as int),
{
    let (s, t) = (b.scales@[i], b.scales@[i + 4]);
    let (m, w) = (b.mins@[i], b.mins@[i + 4]);
    lemma_six_and_two(out[at + i], s, t);
    lemma_six_and_two(out[at + i + 4], m, w);
    lemma_four_and_four(out[at + i + 8], t, w);
    assert(out[at + (i + 4) + 4] == out[at + i + 8]);
    assert(out[at + (i + 4) - 4] == out[at + i]);
}

} // verus!
