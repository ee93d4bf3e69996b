//! Block encodings of tensor data and what they store.
//!
//! Decoding is exact: an element is read as the integers and the bit patterns
//! that its block holds for it. The number itself is their product, formed in
//! floating point by whoever computes with it.

use vstd::prelude::*;

use crate::quant::brain_float;

verus! {

/// One stored element. Names in lower case stand for the numbers that are
/// multiplied, in the order written; `d`, `dmin` and `offset` are
/// half-precision numbers, the others integers.
#[derive(Clone, Copy, Debug, PartialEq, Eq, Structural)]
pub enum Stored {
    /// A single-precision number.
    Single(u32),
    /// A half-precision number.
    Half(u16),
    /// `code`
    Whole { code: i32 },
    /// `code / 65536`
    Fixed16 { code: i32 },
    /// `code / 256`
    Fixed8 { code: i32 },
    /// `code * (scale / 256) / 127`
    Block8 { scale: i32, code: i32 },
    /// `code * (scale / 256) / 8`
    Block4 { scale: i32, code: i32 },
    /// `d * code`
    Scaled { d: u16, code: i32 },
    /// `d * code + offset`
    Offset { d: u16, code: i32, offset: u16 },
    /// `(d * scale) * code`
    Product { d: u16, scale: i32, code: i32 },
    /// `(d * scale) * code - dmin * min`
    Affine { d: u16, scale: i32, code: i32, dmin: u16, min: i32 },
}

/// The encodings.
#[allow(non_camel_case_types)]
#[derive(Clone, Copy, Debug, PartialEq, Eq, Structural)]
pub enum Format {
    Single,
    Half,
    /// Bfloat16; a NaN is read as a quiet one.
    Brain,
    /// Bfloat16, the bits as they are.
    BrainBits,
    U32,
    U16,
    Q8,
    Q4,
    /// Two-bit codes for 0, 1 and -1.
    Ternary,
    /// Two-bit codes for -1, 0 and 1.
    Shifted,
    Q4_0,
    Q4_1,
    Q8_0,
    Q2_K,
    Q3_K,
    Q4_K,
    Q5_K,
    Q6_K,
}

/// The number of elements of a block.
pub open spec fn block_len(f: Format) -> nat {
    match f {
        Format::Single | Format::Half | Format::Brain | Format::BrainBits => 1,
        Format::U32 | Format::U16 => 1,
        Format::Ternary | Format::Shifted => 4,
        Format::Q8 | Format::Q4 | Format::Q4_0 | Format::Q4_1 | Format::Q8_0 => 32,
        _ => 256,
    }
}

/// The number of bytes of a block.
pub open spec fn block_bytes(f: Format) -> nat {
    match f {
        Format::Single | Format::U32 => 4,
        Format::Half | Format::Brain | Format::BrainBits | Format::U16 => 2,
        Format::Ternary | Format::Shifted => 1,
        Format::Q8 | Format::Q8_0 => 34,
        Format::Q4 | Format::Q4_0 => 18,
        Format::Q4_1 => 20,
        Format::Q2_K => 84,
        Format::Q3_K => 110,
        Format::Q4_K => 144,
        Format::Q5_K => 176,
        Format::Q6_K => 210,
    }
}

/// Two bytes as a number.
pub open spec fn le16(b: Seq<u8>, at: int) -> int {
    b[at] + 0x100 * b[at + 1]
}

/// Four bytes as a number.
pub open spec fn le32(b: Seq<u8>, at: int) -> int {
    b[at] + 0x100 * b[at + 1] + 0x1_0000 * b[at + 2] + 0x100_0000 * b[at + 3]
}

/// A number below `2 * half` as a signed one.
pub open spec fn signed(n: int, half: int) -> int {
    if n < half {
        n
    } else {
        n - 2 * half
    }
}

/// Two to the power of `k`, for `k` below eight.
pub open spec fn two_to(k: int) -> int {
    if k <= 0 {
        1
    } else if k == 1 {
        2
    } else if k == 2 {
        4
    } else if k == 3 {
        8
    } else if k == 4 {
        16
    } else if k == 5 {
        32
    } else if k == 6 {
        64
    } else {
        128
    }
}

/// The `width` values' worth of bits of a byte above the lowest `k` bits.
pub open spec fn bits_of(byte: u8, k: int, width: int) -> int {
    byte as int / two_to(k) % width
}

/// The low or the high four bits of a byte.
pub open spec fn nibble(byte: u8, high: bool) -> int {
    if high {
        byte as int / 16
    } else {
        byte as int % 16
    }
}

/// A byte made of two nibbles has them.
pub proof fn lemma_nibbles(byte: u8, low: int, high: int)
    requires
        0 <= low < 16,
        0 <= high < 16,
        byte == low + 16 * high,
    ensures
        nibble(byte, false) == low,
        nibble(byte, true) == high,
{
}

/// The six-bit scale and minimum of a sub-block, from twelve bytes: the first
/// four of each stand in the low six bits of the first eight bytes; of the
/// others, the low four bits stand in the last four bytes, and the high two
/// in the high two bits of the first eight.
pub open spec fn scale_min(b: Seq<u8>, at: int, j: int) -> (int, int) {
    if j < 4 {
        (b[at + j] as int % 64, b[at + j + 4] as int % 64)
    } else {
        (
            b[at + j + 4] as int % 16 + 16 * (b[at + j - 4] as int / 64),
            b[at + j + 4] as int / 16 + 16 * (b[at + j] as int / 64),
        )
    }
}

/// The six-bit scale of one of sixteen sub-blocks, from twelve bytes: the low
/// four bits stand in the nibbles of the first eight bytes, the high two in
/// the bit pairs of the last four. It is stored with 32 added.
pub open spec fn six_bit_scale(b: Seq<u8>, at: int, j: int) -> int {
    let group = j / 4;
    let k = j % 4;
    let low = nibble(b[at + (group % 2) * 4 + k], group >= 2);
    let high = bits_of(
        b[at + 8 + (group % 2) * 2 + k / 2],
        4 * (k % 2) + if group >= 2 {
            2int
        } else {
            0int
        },
        4,
    );
    low + 16 * high - 32
}

/// The sign that a two-bit code means.
pub open spec fn sign_of(code: int) -> int {
    if code == 1 {
        1
    } else if code == 2 {
        -1
    } else {
        0
    }
}

/// Element `i` of the block at `base`.
pub open spec fn stored_at(f: Format, b: Seq<u8>, base: int, i: int) -> Stored {
    match f {
        Format::Single => Stored::Single(le32(b, base) as u32),
        Format::Half => Stored::Half(le16(b, base) as u16),
        Format::Brain => Stored::Single(
            brain_float::brain_to_single(le16(b, base) as u16) as u32,
        ),
        Format::BrainBits => Stored::Single((le16(b, base) * 0x1_0000) as u32),
        Format::U32 => Stored::Fixed16 { code: signed(le32(b, base), 0x8000_0000) as i32 },
        Format::U16 => Stored::Fixed8 { code: signed(le16(b, base), 0x8000) as i32 },
        Format::Q8 => Stored::Block8 {
            scale: signed(le16(b, base), 0x8000) as i32,
            code: signed(b[base + 2 + i] as int, 0x80) as i32,
        },
        Format::Q4 => Stored::Block4 {
            scale: signed(le16(b, base), 0x8000) as i32,
            code: (nibble(b[base + 2 + i % 16], i >= 16) - 8) as i32,
        },
        Format::Ternary => Stored::Whole {
            code: sign_of(bits_of(b[base], 2 * i, 4)) as i32,
        },
        Format::Shifted => Stored::Whole {
            code: (if bits_of(b[base], 2 * i, 4) == 3 {
                0
            } else {
                bits_of(b[base], 2 * i, 4) - 1
            }) as i32,
        },
        Format::Q4_0 => Stored::Scaled {
            d: le16(b, base) as u16,
            code: (nibble(b[base + 2 + i % 16], i >= 16) - 8) as i32,
        },
        Format::Q4_1 => Stored::Offset {
            d: le16(b, base) as u16,
            code: nibble(b[base + 4 + i % 16], i >= 16) as i32,
            offset: le16(b, base + 2) as u16,
        },
        Format::Q8_0 => Stored::Scaled {
            d: le16(b, base) as u16,
            code: signed(b[base + 2 + i] as int, 0x80) as i32,
        },
        Format::Q2_K => Stored::Affine {
            d: le16(b, base + 80) as u16,
            scale: (b[base + i / 16] as int % 16) as i32,
            code: bits_of(b[base + 16 + i / 4], 2 * (i % 4), 4) as i32,
            dmin: le16(b, base + 82) as u16,
            min: (b[base + i / 16] as int / 16) as i32,
        },
        Format::Q3_K => Stored::Product {
            d: le16(b, base + 108) as u16,
            scale: six_bit_scale(b, base + 96, i / 16) as i32,
            code: (bits_of(b[base + 32 + i / 4], 2 * (i % 4), 4) + 4 * bits_of(
                b[base + i / 8],
                i % 8,
                2,
            ) - 4) as i32,
        },
        Format::Q4_K => Stored::Affine {
            d: le16(b, base) as u16,
            scale: scale_min(b, base + 4, i / 32).0 as i32,
            code: nibble(b[base + 16 + i / 64 * 32 + i % 32], i % 64 >= 32) as i32,
            dmin: le16(b, base + 2) as u16,
            min: scale_min(b, base + 4, i / 32).1 as i32,
        },
        Format::Q5_K => Stored::Affine {
            d: le16(b, base) as u16,
            scale: scale_min(b, base + 4, i / 32).0 as i32,
            code: (nibble(b[base + 48 + i / 64 * 32 + i % 32], i % 64 >= 32) + 16 * bits_of(
                b[base + 16 + i / 8],
                i % 8,
                2,
            )) as i32,
            dmin: le16(b, base + 2) as u16,
            min: scale_min(b, base + 4, i / 32).1 as i32,
        },
        Format::Q6_K => {
            let half = i / 128;
            let part = i % 128 / 32;
            let l = i % 32;
            Stored::Product {
                d: le16(b, base + 208) as u16,
                scale: signed(b[base + 192 + half * 8 + 2 * part + l / 16] as int, 0x80) as i32,
                code: (nibble(b[base + half * 64 + (part % 2) * 32 + l], part >= 2) + 16 * bits_of(
                    b[base + 128 + half * 32 + l],
                    2 * part,
                    4,
                ) - 32) as i32,
            }
        },
    }
}

/// The number of elements that whole blocks of these bytes hold.
pub open spec fn decoded_len(f: Format, bytes: nat) -> nat {
    bytes / block_bytes(f) * block_len(f)
}

/// The elements of the whole blocks, in order.
pub open spec fn decoded(f: Format, b: Seq<u8>) -> Seq<Stored> {
    Seq::new(
        decoded_len(f, b.len()),
        |i: int|
            stored_at(
                f,
                b,
                i / block_len(f) as int * block_bytes(f) as int,
                i % block_len(f) as int,
            ),
    )
}

impl Format {
    /// The number of elements of a block.
    pub fn len(self) -> (n: usize)
        ensures
            n == block_len(self),
    {
        match self {
            Format::Single | Format::Half | Format::Brain | Format::BrainBits => 1,
            Format::U32 | Format::U16 => 1,
            Format::Ternary | Format::Shifted => 4,
            Format::Q8 | Format::Q4 | Format::Q4_0 | Format::Q4_1 | Format::Q8_0 => 32,
            _ => 256,
        }
    }

    /// The number of bytes of a block.
    pub fn bytes(self) -> (n: usize)
        ensures
            n == block_bytes(self),
            n > 0,
    {
        match self {
            Format::Single | Format::U32 => 4,
            Format::Half | Format::Brain | Format::BrainBits | Format::U16 => 2,
            Format::Ternary | Format::Shifted => 1,
            Format::Q8 | Format::Q8_0 => 34,
            Format::Q4 | Format::Q4_0 => 18,
            Format::Q4_1 => 20,
            Format::Q2_K => 84,
            Format::Q3_K => 110,
            Format::Q4_K => 144,
            Format::Q5_K => 176,
            Format::Q6_K => 210,
        }
    }
}

fn u16_from(b: &[u8], at: usize) -> (n: u16)
    requires
        at + 2 <= b@.len(),
    ensures
        n == le16(b@, at as int),
{
    b[at] as u16 + 0x100 * (b[at + 1] as u16)
}

fn u32_from(b: &[u8], at: usize) -> (n: u32)
    requires
        at + 4 <= b@.len(),
    ensures
        n == le32(b@, at as int),
{
    b[at] as u32 + 0x100 * (b[at + 1] as u32) + 0x1_0000 * (b[at + 2] as u32) + 0x100_0000 * (b[at
        + 3] as u32)
}

fn signed16(n: u16) -> (r: i32)
    ensures
        r == signed(n as int, 0x8000),
{
    if n < 0x8000 {
        n as i32
    } else {
        n as i32 - 0x1_0000
    }
}

fn signed32(n: u32) -> (r: i32)
    ensures
        r == signed(n as int, 0x8000_0000),
{
    if n < 0x8000_0000 {
        n as i32
    } else {
        (n as i64 - 0x1_0000_0000) as i32
    }
}

fn signed8(n: u8) -> (r: i32)
    ensures
        r == signed(n as int, 0x80),
{
    if n < 0x80 {
        n as i32
    } else {
        n as i32 - 0x100
    }
}

fn power(k: usize) -> (n: u8)
    requires
        k < 8,
    ensures
        n == two_to(k as int),
        n > 0,
{
    match k {
        0 => 1,
        1 => 2,
        2 => 4,
        3 => 8,
        4 => 16,
        5 => 32,
        6 => 64,
        _ => 128,
    }
}

fn bits(byte: u8, k: usize, width: u8) -> (n: i32)
    requires
        k < 8,
        width > 0,
    ensures
        n == bits_of(byte, k as int, width as int),
        0 <= n < width,
{
    (byte / power(k) % width) as i32
}

fn half_byte(byte: u8, high: bool) -> (n: i32)
    ensures
        n == nibble(byte, high),
        0 <= n < 16,
{
    if high {
        (byte / 16) as i32
    } else {
        (byte % 16) as i32
    }
}

/// The scale and the minimum of a sub-block; see [`scale_min`].
pub fn unpack_scale_min(b: &[u8], at: usize, j: usize) -> (r: (u8, u8))
    requires
        at + 12 <= b@.len(),
        j < 8,
    ensures
        (r.0 as int, r.1 as int) == scale_min(b@, at as int, j as int),
        r.0 < 64,
        r.1 < 64,
{
    assert(b.len() == b@.len());
    if j < 4 {
        (b[at + j] % 64, b[at + j + 4] % 64)
    } else {
        (
            b[at + j + 4] % 16 + 16 * (b[at + j - 4] / 64),
            b[at + j + 4] / 16 + 16 * (b[at + j] / 64),
        )
    }
}

fn scale_of_sixteen(b: &[u8], at: usize, j: usize) -> (r: i32)
    requires
        at + 12 <= b@.len(),
        j < 16,
    ensures
        r == six_bit_scale(b@, at as int, j as int),
        -32 <= r < 32,
{
    assert(b.len() == b@.len());
    let group: usize = j / 4;
    let k: usize = j % 4;
    let upper: bool = group >= 2;
    let low: i32 = half_byte(b[at + (group % 2) * 4 + k], upper);
    let shift: usize = 4 * (k % 2) + if upper {
        2
    } else {
        0
    };
    let high: i32 = bits(b[at + 8 + (group % 2) * 2 + k / 2], shift, 4);
    low + 16 * high - 32
}

fn q2_k_element(b: &[u8], base: usize, i: usize) -> (s: Stored)
    requires
        base + block_bytes(Format::Q2_K) <= b@.len(),
        i < 256,
    ensures
        s == stored_at(Format::Q2_K, b@, base as int, i as int),
{
    assert(b.len() == b@.len());
    Stored::Affine {
        d: u16_from(b, base + 80),
        scale: half_byte(b[base + i / 16], false),
        code: bits(b[base + 16 + i / 4], 2 * (i % 4), 4),
        dmin: u16_from(b, base + 82),
        min: half_byte(b[base + i / 16], true),
    }
}

fn q3_k_element(b: &[u8], base: usize, i: usize) -> (s: Stored)
    requires
        base + block_bytes(Format::Q3_K) <= b@.len(),
        i < 256,
    ensures
        s == stored_at(Format::Q3_K, b@, base as int, i as int),
{
    assert(b.len() == b@.len());
    Stored::Product {
        d: u16_from(b, base + 108),
        scale: scale_of_sixteen(b, base + 96, i / 16),
        code: bits(b[base + 32 + i / 4], 2 * (i % 4), 4) + 4 * bits(b[base + i / 8], i % 8, 2) - 4,
    }
}

fn q4_k_element(b: &[u8], base: usize, i: usize) -> (s: Stored)
    requires
        base + block_bytes(Format::Q4_K) <= b@.len(),
        i < 256,
    ensures
        s == stored_at(Format::Q4_K, b@, base as int, i as int),
{
    assert(b.len() == b@.len());
    let sm = unpack_scale_min(b, base + 4, i / 32);
    Stored::Affine {
        d: u16_from(b, base),
        scale: sm.0 as i32,
        code: half_byte(b[base + 16 + i / 64 * 32 + i % 32], i % 64 >= 32),
        dmin: u16_from(b, base + 2),
        min: sm.1 as i32,
    }
}

fn q5_k_element(b: &[u8], base: usize, i: usize) -> (s: Stored)
    requires
        base + block_bytes(Format::Q5_K) <= b@.len(),
        i < 256,
    ensures
        s == stored_at(Format::Q5_K, b@, base as int, i as int),
{
    assert(b.len() == b@.len());
    let sm = unpack_scale_min(b, base + 4, i / 32);
    let low: i32 = half_byte(b[base + 48 + i / 64 * 32 + i % 32], i % 64 >= 32);
    Stored::Affine {
        d: u16_from(b, base),
        scale: sm.0 as i32,
        code: low + 16 * bits(b[base + 16 + i / 8], i % 8, 2),
        dmin: u16_from(b, base + 2),
        min: sm.1 as i32,
    }
}

fn q6_k_element(b: &[u8], base: usize, i: usize) -> (s: Stored)
    requires
        base + block_bytes(Format::Q6_K) <= b@.len(),
        i < 256,
    ensures
        s == stored_at(Format::Q6_K, b@, base as int, i as int),
{
    assert(b.len() == b@.len());
    let half: usize = i / 128;
    let part: usize = i % 128 / 32;
    let l: usize = i % 32;
    let low: i32 = half_byte(b[base + half * 64 + (part % 2) * 32 + l], part >= 2);
    Stored::Product {
        d: u16_from(b, base + 208),
        scale: signed8(b[base + 192 + half * 8 + 2 * part + l / 16]),
        code: low + 16 * bits(b[base + 128 + half * 32 + l], 2 * part, 4) - 32,
    }
}

/// Element `i` of the block at `base`.
pub fn element(f: Format, b: &[u8], base: usize, i: usize) -> (s: Stored)
    requires
        base + block_bytes(f) <= b@.len(),
        i < block_len(f),
    ensures
        s == stored_at(f, b@, base as int, i as int),
{
    assert(b.len() == b@.len());
    match f {
        Format::Single => Stored::Single(u32_from(b, base)),
        Format::Half => Stored::Half(u16_from(b, base)),
        Format::Brain => Stored::Single(brain_float::single_of_brain(u16_from(b, base))),
        Format::BrainBits => Stored::Single(u16_from(b, base) as u32 * 0x1_0000),
        Format::U32 => Stored::Fixed16 { code: signed32(u32_from(b, base)) },
        Format::U16 => Stored::Fixed8 { code: signed16(u16_from(b, base)) },
        Format::Q8 => Stored::Block8 {
            scale: signed16(u16_from(b, base)),
            code: signed8(b[base + 2 + i]),
        },
        Format::Q4 => Stored::Block4 {
            scale: signed16(u16_from(b, base)),
            code: half_byte(b[base + 2 + i % 16], i >= 16) - 8,
        },
        Format::Ternary => {
            let code: i32 = bits(b[base], 2 * i, 4);
            Stored::Whole {
                code: if code == 1 {
                    1
                } else if code == 2 {
                    -1
                } else {
                    0
                },
            }
        },
        Format::Shifted => {
            let code: i32 = bits(b[base], 2 * i, 4);
            Stored::Whole {
                code: if code == 3 {
                    0
                } else {
                    code - 1
                },
            }
        },
        Format::Q4_0 => Stored::Scaled {
            d: u16_from(b, base),
            code: half_byte(b[base + 2 + i % 16], i >= 16) - 8,
        },
        Format::Q4_1 => Stored::Offset {
            d: u16_from(b, base),
            code: half_byte(b[base + 4 + i % 16], i >= 16),
            offset: u16_from(b, base + 2),
        },
        Format::Q8_0 => Stored::Scaled { d: u16_from(b, base), code: signed8(b[base + 2 + i]) },
        Format::Q2_K => q2_k_element(b, base, i),
        Format::Q3_K => q3_k_element(b, base, i),
        Format::Q4_K => q4_k_element(b, base, i),
        Format::Q5_K => q5_k_element(b, base, i),
        Format::Q6_K => q6_k_element(b, base, i),
    }
}

/// The elements of the whole blocks of the data; bytes after the last whole
/// block are not read.
pub fn decode(f: Format, b: &[u8]) -> (v: Vec<Stored>)
    requires
        decoded_len(f, b@.len()) <= usize::MAX,
    ensures
        v@ == decoded(f, b@),
{
    let size: usize = f.len();
    let width: usize = f.bytes();
    let total: usize = b.len();
    let blocks: usize = total / width;
    let mut v: Vec<Stored> = Vec::new();
    let mut block: usize = 0;
    let mut base: usize = 0;
    while block < blocks
        invariant
            size == block_len(f),
            width == block_bytes(f),
            width > 0,
            size > 0,
            total == b@.len(),
            block <= blocks,
            blocks == b@.len() as int / width as int,
            base == block * width,
            base <= b@.len(),
            v@.len() == block * size,
            forall|i: int|
                0 <= i < v@.len() ==> #[trigger] v@[i] == stored_at(
                    f,
                    b@,
                    i / size as int * width as int,
                    i % size as int,
                ),
        decreases blocks - block,
    {
        proof {
            assert((block + 1) * width <= blocks * width) by (nonlinear_arith)
                requires
                    block + 1 <= blocks,
            ;
            assert(blocks * width <= b@.len()) by (nonlinear_arith)
                requires
                    blocks == b@.len() as int / width as int,
                    width > 0,
            ;
            assert((block + 1) * width == block * width + width) by (nonlinear_arith);
            assert((block + 1) * size == block * size + size) by (nonlinear_arith);
        }
        let mut k: usize = 0;
        while k < size
            invariant
                size == block_len(f),
                width == block_bytes(f),
                base == block * width,
                base + width <= b@.len(),
                k <= size,
                total == b@.len(),
                v@.len() == block * size + k,
                forall|i: int|
                    0 <= i < v@.len() ==> #[trigger] v@[i] == stored_at(
                        f,
                        b@,
                        i / size as int * width as int,
                        i % size as int,
                    ),
            decreases size - k,
        {
            proof {
                let i = block * size + k;
                vstd::arithmetic::div_mod::lemma_fundamental_div_mod_converse(
                    i,
                    size as int,
                    block as int,
                    k as int,
                );
            }
            v.push(element(f, b, base, k));
            k = k + 1;
        }
        base = base + width;
        block = block + 1;
    }
    assert(v@ =~= decoded(f, b@));
    v
}

} // verus!
