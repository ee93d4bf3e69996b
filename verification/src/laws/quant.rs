//! Block encodings by the bytes that hold the elements.

use vstd::prelude::*;
use vstd::arithmetic::power2::pow2;

use crate::quant::brain_float::brain_to_single;
use crate::quant::canonical::{exponent, fixed, is_nan, nearest_sign, significand};
use crate::quant::dequant::{decodable, format_of};
use crate::quant::q4_k::starts;
use crate::quant::stored::{
    bits_of, decoded, nibble, six_bit_scale, stored_at, two_to, Format, Stored,
};
use crate::tensor::DType;

verus! {

/// The integer code of an element.
pub open spec fn code(s: Stored) -> int {
    match s {
        Stored::Single(x) => x as int,
        Stored::Half(x) => x as int,
        Stored::Whole { code } => code as int,
        Stored::Fixed16 { code } => code as int,
        Stored::Fixed8 { code } => code as int,
        Stored::Block8 { code, .. } => code as int,
        Stored::Block4 { code, .. } => code as int,
        Stored::Scaled { code, .. } => code as int,
        Stored::Offset { code, .. } => code as int,
        Stored::Product { code, .. } => code as int,
        Stored::Affine { code, .. } => code as int,
    }
}

/// The scale of an element that is an integer.
pub open spec fn scale(s: Stored) -> int {
    match s {
        Stored::Block8 { scale, .. } => scale as int,
        Stored::Block4 { scale, .. } => scale as int,
        Stored::Product { scale, .. } => scale as int,
        Stored::Affine { scale, .. } => scale as int,
        _ => 1,
    }
}

/// The minimum of an element.
pub open spec fn minimum(s: Stored) -> int {
    match s {
        Stored::Affine { min, .. } => min as int,
        _ => 0,
    }
}

/// The bytes hold the number, the lowest first.
pub open spec fn held_in(n: int, b: Seq<u8>, at: int, bytes: int) -> bool
    decreases bytes,
{
    if bytes <= 0 {
        n == 0
    } else {
        0 <= n && b[at] == n % 256 && held_in(n / 256, b, at + 1, bytes - 1)
    }
}

/// Elements and bytes of a block of each encoding.
pub open spec fn block_of(f: Format) -> (int, int) {
    match f {
        Format::Single => (1, 4),
        Format::Half => (1, 2),
        Format::Brain => (1, 2),
        Format::BrainBits => (1, 2),
        Format::U32 => (1, 4),
        Format::U16 => (1, 2),
        Format::Q8 => (32, 2int + 32),
        Format::Q4 => (32, 2int + 16),
        Format::Ternary => (4, 1),
        Format::Shifted => (4, 1),
        Format::Q4_0 => (32, 2int + 16),
        Format::Q4_1 => (32, 2int + 2 + 16),
        Format::Q8_0 => (32, 2int + 32),
        Format::Q2_K => (256, 16int + 64 + 2 + 2),
        Format::Q3_K => (256, 32int + 64 + 12 + 2),
        Format::Q4_K => (256, 2int + 2 + 12 + 128),
        Format::Q5_K => (256, 2int + 2 + 12 + 32 + 128),
        Format::Q6_K => (256, 128int + 64 + 16 + 2),
    }
}

/// Whole blocks follow one another: element `i` of block `n` comes after the
/// elements of the `n` blocks before it, and is read from its own block.
pub proof fn blocks_follow_one_another(f: Format, b: Seq<u8>, blocks: int, n: int, i: int)
    requires
        0 <= n < blocks,
        0 <= i < block_of(f).0,
        b.len() as int / block_of(f).1 == blocks,
    ensures
        decoded(f, b).len() == blocks * block_of(f).0,
        decoded(f, b)[n * block_of(f).0 + i] == stored_at(f, b, n * block_of(f).1, i),
{
    let (len, bytes) = block_of(f);
    let k = n * len + i;
    assert(0 <= k < blocks * len) by (nonlinear_arith)
        requires
            k == n * len + i,
            0 <= n,
            n + 1 <= blocks,
            0 <= i < len,
    ;
    vstd::arithmetic::div_mod::lemma_fundamental_div_mod_converse(k, len, n, i);
}

/// Plain numbers: the bytes of a number are its pattern, the lowest first; a
/// fixed-point code is the pattern in two's complement; a bfloat16 is the upper
/// half of a pattern.
#[verifier::spinoff_prover]
#[verifier::rlimit(40)]
pub proof fn plain_elements_are_their_bytes(b: Seq<u8>, at: int)
    ensures
        held_in(code(stored_at(Format::Single, b, at, 0)), b, at, 4),
        stored_at(Format::Single, b, at, 0) is Single,
        held_in(code(stored_at(Format::Half, b, at, 0)), b, at, 2),
        stored_at(Format::Half, b, at, 0) is Half,
        exists|n: int| #[trigger]
            held_in(n, b, at, 4) && (code(stored_at(Format::U32, b, at, 0)) == n || code(
                stored_at(Format::U32, b, at, 0),
            ) == n - 0x1_0000_0000),
        stored_at(Format::U32, b, at, 0) is Fixed16,
        exists|n: int| #[trigger]
            held_in(n, b, at, 2) && (code(stored_at(Format::U16, b, at, 0)) == n || code(
                stored_at(Format::U16, b, at, 0),
            ) == n - 0x1_0000),
        stored_at(Format::U16, b, at, 0) is Fixed8,
        -0x8000 <= code(stored_at(Format::U16, b, at, 0)) < 0x8000,
        exists|n: int| #[trigger]
            held_in(n, b, at, 2) && code(stored_at(Format::BrainBits, b, at, 0)) == n * 0x1_0000,
        exists|n: int| #[trigger]
            held_in(n, b, at, 2) && (code(stored_at(Format::Brain, b, at, 0)) == n * 0x1_0000
                || code(stored_at(Format::Brain, b, at, 0)) == (n + 0x40) * 0x1_0000),
        stored_at(Format::Brain, b, at, 0) is Single,
        stored_at(Format::BrainBits, b, at, 0) is Single,
{
    reveal_with_fuel(held_in, 6);
    let n = b[at] + 256 * b[at + 1];
    let m = n + 65536 * (b[at + 2] + 256 * b[at + 3]);
    assert(held_in(n, b, at, 2));
    assert(m / 256 == b[at + 1] + 256 * b[at + 2] + 65536 * b[at + 3]);
    assert(m / 256 / 256 == b[at + 2] + 256 * b[at + 3]);
    assert(held_in(m, b, at, 4));
}

/// 8-bit blocks: the scale and every code in two's complement.
#[verifier::spinoff_prover]
#[verifier::rlimit(40)]
pub proof fn bytes_of_8_bit_blocks(b: Seq<u8>, at: int, i: int)
    requires
        0 <= i < 32,
    ensures
        ({
            let e = stored_at(Format::Q8, b, at, i);
            &&& e is Block8
            &&& -0x8000 <= scale(e) < 0x8000 && -0x80 <= code(e) < 0x80
            &&& scale(e) % 0x1_0000 == b[at] + 0x100 * b[at + 1]
            &&& code(e) % 0x100 == b[at + 2 + i]
        }),
        ({
            let e = stored_at(Format::Q8_0, b, at, i);
            &&& e matches Stored::Scaled { d, .. } && d == b[at] + 0x100 * b[at + 1]
            &&& -0x80 <= code(e) < 0x80
            &&& code(e) % 0x100 == b[at + 2 + i]
        }),
{
}

/// 4-bit blocks: a byte is the code of an element of the first half and, in
/// its upper bits, of the element sixteen places on, both with eight added.
#[verifier::spinoff_prover]
#[verifier::rlimit(40)]
pub proof fn bytes_of_4_bit_blocks(b: Seq<u8>, at: int, j: int)
    requires
        0 <= j < 16,
    ensures
        ({
            let lo = stored_at(Format::Q4, b, at, j);
            let hi = stored_at(Format::Q4, b, at, j + 16);
            &&& lo is Block4 && hi is Block4 && scale(lo) == scale(hi)
            &&& scale(lo) % 0x1_0000 == b[at] + 0x100 * b[at + 1] && -0x8000 <= scale(lo) < 0x8000
            &&& -8 <= code(lo) < 8 && -8 <= code(hi) < 8
            &&& b[at + 2 + j] == (8 + code(lo)) + 16 * (8 + code(hi))
        }),
{
    halves_make_the_byte(b[at + 2 + j]);
    assert((j + 16) % 16 == j && j % 16 == j);
}

/// The blocks with a scale in half precision pack their codes in the same way.
#[verifier::spinoff_prover]
#[verifier::rlimit(40)]
pub proof fn bytes_of_half_scaled_4_bit_blocks(b: Seq<u8>, at: int, j: int)
    requires
        0 <= j < 16,
    ensures
        ({
            let lo = stored_at(Format::Q4_0, b, at, j);
            let hi = stored_at(Format::Q4_0, b, at, j + 16);
            &&& lo matches Stored::Scaled { d, .. } && d == b[at] + 0x100 * b[at + 1]
            &&& hi matches Stored::Scaled { d, .. } && d == b[at] + 0x100 * b[at + 1]
            &&& -8 <= code(lo) < 8 && -8 <= code(hi) < 8
            &&& b[at + 2 + j] == (8 + code(lo)) + 16 * (8 + code(hi))
        }),
{
    halves_make_the_byte(b[at + 2 + j]);
    assert((j + 16) % 16 == j && j % 16 == j);
}

/// With an offset as well, the codes stand behind it, and nothing is added.
#[verifier::spinoff_prover]
#[verifier::rlimit(40)]
pub proof fn bytes_of_offset_4_bit_blocks(b: Seq<u8>, at: int, j: int)
    requires
        0 <= j < 16,
    ensures
        ({
            let lo = stored_at(Format::Q4_1, b, at, j);
            let hi = stored_at(Format::Q4_1, b, at, j + 16);
            &&& lo matches Stored::Offset { d, offset, .. } && d == b[at] + 0x100 * b[at + 1]
                && offset == b[at + 2] + 0x100 * b[at + 3]
            &&& hi matches Stored::Offset { d, offset, .. } && d == b[at] + 0x100 * b[at + 1]
                && offset == b[at + 2] + 0x100 * b[at + 3]
            &&& 0 <= code(lo) < 16 && 0 <= code(hi) < 16
            &&& b[at + 4 + j] == code(lo) + 16 * code(hi)
        }),
{
    halves_make_the_byte(b[at + 4 + j]);
    assert((j + 16) % 16 == j && j % 16 == j);
}

/// Ternary bytes: four two-bit codes, the first the lowest. A pair of set bits
/// stands for zero too.
pub proof fn bytes_of_ternary(b: Seq<u8>, at: int, i: int, rest: int, bits: int)
    requires
        0 <= i < 4,
        0 <= bits < 4,
        b[at] as int / two_to(2 * i) == 4 * rest + bits,
    ensures
        stored_at(Format::Ternary, b, at, i) is Whole,
        code(stored_at(Format::Ternary, b, at, i)) == seq![0int, 1, -1, 0][bits],
        stored_at(Format::Shifted, b, at, i) is Whole,
        code(stored_at(Format::Shifted, b, at, i)) == seq![-1int, 0, 1, 0][bits],
        two_to(0) == 1 && two_to(2) == 4 && two_to(4) == 16 && two_to(6) == 64,
{
    assert((4 * rest + bits) % 4 == bits);
}

/// The twelve bytes of the sub-scales and sub-minima of eight sub-blocks: the
/// first four of each in six bits of a byte of their own, whose upper two bits
/// are the upper bits of the last four; of these the lower four bits share a
/// byte.
pub open spec fn holds_scales(b: Seq<u8>, at: int, scales: Seq<int>, mins: Seq<int>) -> bool {
    &&& scales.len() == 8 && mins.len() == 8
    &&& forall|j: int| 0 <= j < 8 ==> 0 <= #[trigger] scales[j] < 64 && 0 <= mins[j] < 64
    &&& forall|j: int|
        #![trigger scales[j]]
        0 <= j < 4 ==> {
            &&& b[at + j] == scales[j] + 64 * (scales[j + 4] / 16)
            &&& b[at + 4 + j] == mins[j] + 64 * (mins[j + 4] / 16)
            &&& b[at + 8 + j] == scales[j + 4] % 16 + 16 * (mins[j + 4] % 16)
        }
}

proof fn lemma_scale_pair(b: Seq<u8>, at: int, j: int)
    requires
        0 <= j < 4,
    ensures
        ({
            let lo = crate::quant::stored::scale_min(b, at, j);
            let hi = crate::quant::stored::scale_min(b, at, j + 4);
            &&& 0 <= lo.0 < 64 && 0 <= lo.1 < 64 && 0 <= hi.0 < 64 && 0 <= hi.1 < 64
            &&& b[at + j] == lo.0 + 64 * (hi.0 / 16)
            &&& b[at + 4 + j] == lo.1 + 64 * (hi.1 / 16)
            &&& b[at + 8 + j] == hi.0 % 16 + 16 * (hi.1 % 16)
        }),
{
}

proof fn lemma_affine(f: Format, b: Seq<u8>, at: int, i: int)
    requires
        f is Q4_K || f is Q5_K,
        0 <= i < 256,
    ensures
        scale(stored_at(f, b, at, i)) == crate::quant::stored::scale_min(b, at + 4, i / 32).0,
        minimum(stored_at(f, b, at, i)) == crate::quant::stored::scale_min(b, at + 4, i / 32).1,
        stored_at(f, b, at, i) matches Stored::Affine { d, dmin, .. } && d == b[at] + 0x100 * b[at
            + 1] && dmin == b[at + 2] + 0x100 * b[at + 3],
{
    let j = i / 32;
    if j < 4 {
        lemma_scale_pair(b, at + 4, j);
    } else {
        lemma_scale_pair(b, at + 4, j - 4);
    }
}

#[verifier::spinoff_prover]
#[verifier::rlimit(40)]
proof fn lemma_4_bit_pair(b: Seq<u8>, at: int, g: int, l: int)
    requires
        0 <= g < 4,
        0 <= l < 32,
    ensures
        ({
            let lo = stored_at(Format::Q4_K, b, at, 64 * g + l);
            let hi = stored_at(Format::Q4_K, b, at, 64 * g + 32 + l);
            &&& 0 <= code(lo) < 16 && 0 <= code(hi) < 16
            &&& b[at + 16 + 32 * g + l] == code(lo) + 16 * code(hi)
        }),
{
    assert((64 * g + l) / 64 == g && (64 * g + 32 + l) / 64 == g);
    assert((64 * g + l) % 32 == l && (64 * g + 32 + l) % 32 == l);
    assert((64 * g + l) % 64 == l && (64 * g + 32 + l) % 64 == 32 + l);
}

proof fn lemma_parts(byte: u8)
    ensures
        byte == nibble(byte, false) + 16 * nibble(byte, true),
        0 <= nibble(byte, false) < 16 && 0 <= nibble(byte, true) < 16,
        byte == bits_of(byte, 0, 4) + 4 * (bits_of(byte, 2, 4) + 4 * (bits_of(byte, 4, 4) + 4
            * bits_of(byte, 6, 4))),
        0 <= bits_of(byte, 0, 4) < 4 && 0 <= bits_of(byte, 2, 4) < 4,
        0 <= bits_of(byte, 4, 4) < 4 && 0 <= bits_of(byte, 6, 4) < 4,
{
    let n = byte as int;
    assert(n == n % 4 + 4 * (n / 4 % 4 + 4 * (n / 16 % 4 + 4 * (n / 64 % 4))));
}

proof fn lemma_join(low: int, high: int)
    requires
        0 <= low < 16,
    ensures
        (low + 16 * high) % 16 == low,
        (low + 16 * high) / 16 == high,
{
}

proof fn lemma_bit(byte: u8, k: int)
    ensures
        0 <= bits_of(byte, k, 2) < 2,
{
}

proof fn lemma_5_bit(b: Seq<u8>, at: int, i: int, x: int, n: int)
    requires
        0 <= i < 256,
        x == bits_of(b[at + 16 + i / 8], i % 8, 2),
        n == nibble(b[at + 48 + i / 64 * 32 + i % 32], i % 64 >= 32),
    ensures
        code(stored_at(Format::Q5_K, b, at, i)) == n + 16 * x,
        0 <= x < 2,
        0 <= n < 16,
{
    lemma_bit(b[at + 16 + i / 8], i % 8);
    lemma_parts(b[at + 48 + i / 64 * 32 + i % 32]);
}

/// 5-bit codes: the lower four bits of 64 elements stand in 32 bytes, those of
/// the first 32 in the lower halves; the fifth bits of eight elements fill a
/// byte before the codes.
#[verifier::spinoff_prover]
#[verifier::rlimit(40)]
pub proof fn bytes_of_5_bit_blocks(b: Seq<u8>, at: int, i: int)
    requires
        0 <= i < 256,
    ensures
        ({
            let c = code(stored_at(Format::Q5_K, b, at, i));
            &&& 0 <= c < 32
            &&& c % 16 == nibble(b[at + 48 + i / 64 * 32 + i % 32], i % 64 >= 32)
            &&& c / 16 == bits_of(b[at + 16 + i / 8], i % 8, 2)
        }),
{
    let x = bits_of(b[at + 16 + i / 8], i % 8, 2);
    let n = nibble(b[at + 48 + i / 64 * 32 + i % 32], i % 64 >= 32);
    lemma_5_bit(b, at, i, x, n);
    lemma_join(n, x);
}

/// The bits of a byte above the lowest `k`: what is left of the byte without
/// those, in groups of `width`.
pub proof fn bits_are_cut_out(byte: u8, k: int, width: int)
    requires
        0 <= k < 8,
        0 < width,
    ensures
        bits_of(byte, k, width) == byte as int / pow2(k as nat) as int % width,
{
    vstd::arithmetic::power2::lemma2_to64();
}

/// The sub-scales and sub-minima of a block of 256.
pub open spec fn sub_scales(f: Format, b: Seq<u8>, at: int) -> Seq<int> {
    Seq::new(8, |j: int| scale(stored_at(f, b, at, 32 * j)))
}

pub open spec fn sub_minima(f: Format, b: Seq<u8>, at: int) -> Seq<int> {
    Seq::new(8, |j: int| minimum(stored_at(f, b, at, 32 * j)))
}

#[verifier::spinoff_prover]
#[verifier::rlimit(40)]
proof fn lemma_holds_scales(f: Format, b: Seq<u8>, at: int)
    requires
        f is Q4_K || f is Q5_K,
    ensures
        holds_scales(b, at + 4, sub_scales(f, b, at), sub_minima(f, b, at)),
{
    let s = sub_scales(f, b, at);
    let m = sub_minima(f, b, at);
    assert forall|j: int| 0 <= j < 8 implies #[trigger] s[j]
        == crate::quant::stored::scale_min(b, at + 4, j).0 && m[j]
        == crate::quant::stored::scale_min(b, at + 4, j).1 by {
        lemma_affine(f, b, at, 32 * j);
    }
    assert forall|j: int| 0 <= j < 8 implies 0 <= #[trigger] s[j] < 64 && 0 <= m[j] < 64 by {
        if j < 4 {
            lemma_scale_pair(b, at + 4, j);
        } else {
            lemma_scale_pair(b, at + 4, j - 4);
        }
    }
    assert forall|j: int| #![trigger s[j]] 0 <= j < 4 implies {
        &&& b[at + 4 + j] == s[j] + 64 * (s[j + 4] / 16)
        &&& b[at + 4 + 4 + j] == m[j] + 64 * (m[j + 4] / 16)
        &&& b[at + 4 + 8 + j] == s[j + 4] % 16 + 16 * (m[j + 4] % 16)
    } by {
        lemma_scale_pair(b, at + 4, j);
        assert(s[j + 4] == crate::quant::stored::scale_min(b, at + 4, j + 4).0);
        assert(m[j + 4] == crate::quant::stored::scale_min(b, at + 4, j + 4).1);
    }
}

/// Blocks of 256 with eight sub-blocks: the scale and the minimum in half
/// precision, the twelve bytes of sub-scales and sub-minima, then the codes. In
/// every 32 bytes of 4-bit codes the lower halves are of 32 elements and the
/// upper of the next 32.
#[verifier::spinoff_prover]
#[verifier::rlimit(40)]
pub proof fn bytes_of_sub_scaled_blocks(b: Seq<u8>, at: int, g: int, l: int)
    requires
        0 <= g < 4,
        0 <= l < 32,
    ensures
        holds_scales(
            b,
            at + 4,
            sub_scales(Format::Q4_K, b, at),
            sub_minima(Format::Q4_K, b, at),
        ),
        holds_scales(
            b,
            at + 4,
            sub_scales(Format::Q5_K, b, at),
            sub_minima(Format::Q5_K, b, at),
        ),
        ({
            let lo = stored_at(Format::Q4_K, b, at, 64 * g + l);
            let hi = stored_at(Format::Q4_K, b, at, 64 * g + 32 + l);
            &&& lo matches Stored::Affine { d, dmin, .. } && d == b[at] + 0x100 * b[at + 1] && dmin
                == b[at + 2] + 0x100 * b[at + 3]
            &&& hi matches Stored::Affine { d, dmin, .. } && d == b[at] + 0x100 * b[at + 1] && dmin
                == b[at + 2] + 0x100 * b[at + 3]
            &&& scale(lo) == scale(stored_at(Format::Q4_K, b, at, 64 * g)) && minimum(lo)
                == minimum(stored_at(Format::Q4_K, b, at, 64 * g))
            &&& scale(hi) == scale(stored_at(Format::Q4_K, b, at, 64 * g + 32)) && minimum(hi)
                == minimum(stored_at(Format::Q4_K, b, at, 64 * g + 32))
            &&& 0 <= code(lo) < 16 && 0 <= code(hi) < 16
            &&& b[at + 16 + 32 * g + l] == code(lo) + 16 * code(hi)
        }),
        ({
            let e = stored_at(Format::Q5_K, b, at, 64 * g + l);
            &&& e matches Stored::Affine { d, dmin, .. } && d == b[at] + 0x100 * b[at + 1] && dmin
                == b[at + 2] + 0x100 * b[at + 3]
            &&& scale(e) == scale(stored_at(Format::Q5_K, b, at, 64 * g)) && minimum(e) == minimum(
                stored_at(Format::Q5_K, b, at, 64 * g),
            )
        }),
{
    lemma_holds_scales(Format::Q4_K, b, at);
    lemma_holds_scales(Format::Q5_K, b, at);
    lemma_affine(Format::Q4_K, b, at, 64 * g + l);
    lemma_affine(Format::Q4_K, b, at, 64 * g + 32 + l);
    lemma_affine(Format::Q4_K, b, at, 64 * g);
    lemma_affine(Format::Q4_K, b, at, 64 * g + 32);
    lemma_affine(Format::Q5_K, b, at, 64 * g + l);
    lemma_affine(Format::Q5_K, b, at, 64 * g);
    assert((64 * g + l) / 32 == 2 * g && (64 * g) / 32 == 2 * g);
    assert((64 * g + 32 + l) / 32 == 2 * g + 1 && (64 * g + 32) / 32 == 2 * g + 1);
    lemma_4_bit_pair(b, at, g, l);
}

/// Blocks of 256 with sixteen sub-blocks and 2-bit codes: a sub-block has a
/// byte of its scale and, in the upper bits, its minimum; then four codes to a
/// byte, and the scale and the minimum of the block at the end.
#[verifier::spinoff_prover]
#[verifier::rlimit(40)]
pub proof fn bytes_of_2_bit_blocks(b: Seq<u8>, at: int, k: int)
    requires
        0 <= k < 64,
    ensures
        ({
            let e0 = stored_at(Format::Q2_K, b, at, 4 * k);
            let e1 = stored_at(Format::Q2_K, b, at, 4 * k + 1);
            let e2 = stored_at(Format::Q2_K, b, at, 4 * k + 2);
            let e3 = stored_at(Format::Q2_K, b, at, 4 * k + 3);
            &&& e0 matches Stored::Affine { d, dmin, .. } && d == b[at + 80] + 0x100 * b[at + 81]
                && dmin == b[at + 82] + 0x100 * b[at + 83]
            &&& b[at + 16 + k] == code(e0) + 4 * (code(e1) + 4 * (code(e2) + 4 * code(e3)))
            &&& 0 <= code(e0) < 4 && 0 <= code(e1) < 4 && 0 <= code(e2) < 4 && 0 <= code(e3) < 4
            &&& b[at + k / 4] == scale(e0) + 16 * minimum(e0)
            &&& 0 <= scale(e0) < 16 && 0 <= minimum(e0) < 16
            &&& scale(e1) == scale(e0) && scale(e2) == scale(e0) && scale(e3) == scale(e0)
            &&& minimum(e1) == minimum(e0) && minimum(e2) == minimum(e0) && minimum(e3)
                == minimum(e0)
        }),
{
    assert((4 * k) / 16 == k / 4 && (4 * k + 1) / 16 == k / 4);
    assert((4 * k + 2) / 16 == k / 4 && (4 * k + 3) / 16 == k / 4);
    assert((4 * k) / 4 == k && (4 * k + 1) / 4 == k && (4 * k + 2) / 4 == k && (4 * k + 3) / 4 == k);
    assert((4 * k) % 4 == 0 && (4 * k + 1) % 4 == 1 && (4 * k + 2) % 4 == 2 && (4 * k + 3) % 4
        == 3);
    let byte = b[at + 16 + k] as int;
    assert(byte == byte % 4 + 4 * (byte / 4 % 4 + 4 * (byte / 16 % 4 + 4 * (byte / 64 % 4))));
}

/// 3-bit codes: two bits stand four to a byte, the third with seven others in
/// a byte before; a set third bit adds nothing and one that is not set takes
/// four away.
#[verifier::spinoff_prover]
#[verifier::rlimit(40)]
pub proof fn bytes_of_3_bit_blocks(b: Seq<u8>, at: int, i: int)
    requires
        0 <= i < 256,
    ensures
        ({
            let e = stored_at(Format::Q3_K, b, at, i);
            let third = b[at + i / 8] as int / two_to(i % 8) % 2;
            let low = b[at + 32 + i / 4] as int / two_to(2 * (i % 4)) % 4;
            &&& e matches Stored::Product { d, .. } && d == b[at + 108] + 0x100 * b[at + 109]
            &&& -4 <= code(e) < 4
            &&& third == 1 ==> code(e) == low
            &&& third == 0 ==> code(e) == low - 4
            &&& -32 <= scale(e) < 32
        }),
{
    assert(0 <= bits_of(b[at + i / 8], i % 8, 2) < 2);
    assert(0 <= bits_of(b[at + 32 + i / 4], 2 * (i % 4), 4) < 4);
    let j = i / 16;
    assert(0 <= six_bit_scale(b, at + 96, j) + 32 < 64);
}

proof fn lemma_six(b: Seq<u8>, at: int, j: int)
    requires
        0 <= j < 16,
    ensures
        six_bit_scale(b, at, j) + 32 == nibble(b[at + j % 8], j >= 8) + 16 * bits_of(
            b[at + 8 + j % 8 / 2],
            4 * (j % 2) + (if j >= 8 {
                2int
            } else {
                0
            }),
            4,
        ),
{
    assert((j / 4) % 2 * 4 + j % 4 == j % 8);
    assert((j / 4) % 2 * 2 + (j % 4) / 2 == j % 8 / 2);
    assert((j % 4) % 2 == j % 2);
    assert(j / 4 >= 2 <==> j >= 8);
}

/// The six-bit scales of the sixteen sub-blocks of 3-bit codes, with 32 added:
/// the lower four bits of the first eight stand in the lower halves of eight
/// bytes, of the last eight in the upper halves; the upper two bits stand in
/// pairs, of scales that are eight apart, two pairs to a byte.
#[verifier::spinoff_prover]
#[verifier::rlimit(40)]
pub proof fn scales_of_3_bit_blocks(b: Seq<u8>, at: int, j: int)
    requires
        0 <= j < 16,
    ensures
        ({
            let s = six_bit_scale(b, at, j) + 32;
            &&& s % 16 == nibble(b[at + j % 8], j >= 8)
            &&& s / 16 == bits_of(
                b[at + 8 + j % 8 / 2],
                4 * (j % 2) + (if j >= 8 {
                    2int
                } else {
                    0
                }),
                4,
            )
        }),
{
    lemma_six(b, at, j);
    lemma_parts(b[at + j % 8]);
    lemma_join(
        nibble(b[at + j % 8], j >= 8),
        bits_of(
            b[at + 8 + j % 8 / 2],
            4 * (j % 2) + (if j >= 8 {
                2int
            } else {
                0
            }),
            4,
        ),
    );
}

/// A byte is its lower half and sixteen times its upper half.
pub proof fn halves_make_the_byte(byte: u8)
    ensures
        byte == nibble(byte, false) + 16 * nibble(byte, true),
        0 <= nibble(byte, false) < 16,
        0 <= nibble(byte, true) < 16,
{
}

#[verifier::spinoff_prover]
#[verifier::rlimit(40)]
proof fn lemma_6_bit(b: Seq<u8>, at: int, half: int, part: int, l: int)
    requires
        0 <= half < 2,
        0 <= part < 4,
        0 <= l < 32,
    ensures
        ({
            let e = stored_at(Format::Q6_K, b, at, 128 * half + 32 * part + l);
            let low = b[at + 64 * half + (if part % 2 == 1 {
                32int
            } else {
                0
            }) + l];
            &&& e matches Stored::Product { d, .. } && d == b[at + 208] + 0x100 * b[at + 209]
            &&& scale(e) % 256 == b[at + 192 + 8 * half + 2 * part + l / 16]
            &&& -128 <= scale(e) < 128
            &&& code(e) + 32 == nibble(low, part >= 2) + 16 * bits_of(
                b[at + 128 + 32 * half + l],
                2 * part,
                4,
            )
            &&& 0 <= bits_of(b[at + 128 + 32 * half + l], 2 * part, 4) < 4
            &&& 0 <= nibble(low, part >= 2) < 16
        }),
{
    let k = 128 * half + 32 * part + l;
    assert(k / 128 == half && k % 128 == 32 * part + l && k % 32 == l);
    assert((32 * part + l) / 32 == part);
    assert(half * 64 == 64 * half && half * 8 == 8 * half && half * 32 == 32 * half);
    assert((part % 2) * 32 == if part % 2 == 1 {
        32int
    } else {
        0
    });
}

/// 6-bit codes, with 32 added: of every 128, the lower four bits of the first
/// 64 stand in the lower halves of 64 bytes, of the last 64 in the upper; the
/// upper two bits of four elements that are 32 apart fill a byte. Sixteen
/// elements share a scale in two's complement.
#[verifier::spinoff_prover]
#[verifier::rlimit(40)]
pub proof fn bytes_of_6_bit_blocks(b: Seq<u8>, at: int, half: int, l: int)
    requires
        0 <= half < 2,
        0 <= l < 32,
    ensures
        ({
            let e0 = stored_at(Format::Q6_K, b, at, 128 * half + l);
            let e1 = stored_at(Format::Q6_K, b, at, 128 * half + l + 32);
            let e2 = stored_at(Format::Q6_K, b, at, 128 * half + l + 64);
            let e3 = stored_at(Format::Q6_K, b, at, 128 * half + l + 96);
            let (c0, c1, c2, c3) = (code(e0) + 32, code(e1) + 32, code(e2) + 32, code(e3) + 32);
            &&& 0 <= c0 < 64 && 0 <= c1 < 64 && 0 <= c2 < 64 && 0 <= c3 < 64
            &&& b[at + 64 * half + l] == c0 % 16 + 16 * (c2 % 16)
            &&& b[at + 64 * half + 32 + l] == c1 % 16 + 16 * (c3 % 16)
            &&& b[at + 128 + 32 * half + l] == c0 / 16 + 4 * (c1 / 16 + 4 * (c2 / 16 + 4 * (c3
                / 16)))
            &&& e0 matches Stored::Product { d, .. } && d == b[at + 208] + 0x100 * b[at + 209]
            &&& scale(e0) % 256 == b[at + 192 + 8 * half + l / 16]
            &&& scale(e1) % 256 == b[at + 192 + 8 * half + 2 + l / 16]
            &&& scale(e2) % 256 == b[at + 192 + 8 * half + 4 + l / 16]
            &&& scale(e3) % 256 == b[at + 192 + 8 * half + 6 + l / 16]
            &&& -128 <= scale(e0) < 128 && -128 <= scale(e1) < 128
            &&& -128 <= scale(e2) < 128 && -128 <= scale(e3) < 128
        }),
{
    lemma_6_bit(b, at, half, 0, l);
    lemma_6_bit(b, at, half, 1, l);
    lemma_6_bit(b, at, half, 2, l);
    lemma_6_bit(b, at, half, 3, l);
    assert(128 * half + 32 * 0 + l == 128 * half + l);
    assert(128 * half + 32 * 1 + l == 128 * half + l + 32);
    assert(128 * half + 32 * 2 + l == 128 * half + l + 64);
    assert(128 * half + 32 * 3 + l == 128 * half + l + 96);
    let a = b[at + 64 * half + l];
    let c = b[at + 64 * half + 32 + l];
    let high = b[at + 128 + 32 * half + l];
    assert(at + 64 * half + 0 + l == at + 64 * half + l);
    lemma_parts(a);
    lemma_parts(c);
    lemma_parts(high);
    lemma_join(nibble(a, false), bits_of(high, 0, 4));
    lemma_join(nibble(c, false), bits_of(high, 2, 4));
    lemma_join(nibble(a, true), bits_of(high, 4, 4));
    lemma_join(nibble(c, true), bits_of(high, 6, 4));
}

/// Every element type but the 5-bit one is decoded in its own encoding. The
/// library's own integer encodings drop what is no whole block at the end; the
/// others want whole blocks.
pub proof fn element_types_have_their_encoding()
    ensures
        format_of(DType::F32) == Some(Format::Single),
        format_of(DType::F16) == Some(Format::Half),
        format_of(DType::BF16) == Some(Format::Brain),
        format_of(DType::U32) == Some(Format::U32),
        format_of(DType::U16) == Some(Format::U16),
        format_of(DType::Q8) == Some(Format::Q8),
        format_of(DType::Q4) == Some(Format::Q4),
        format_of(DType::Ternary) == Some(Format::Ternary),
        format_of(DType::Q4_0) == Some(Format::Q4_0),
        format_of(DType::Q8_0) == Some(Format::Q8_0),
        format_of(DType::Q4_K) == Some(Format::Q4_K),
        format_of(DType::Q6_K) == Some(Format::Q6_K),
        format_of(DType::Q5_K) is None,
        forall|n: nat|
            n <= 0xffff_ffff ==> {
                &&& #[trigger] decodable(DType::F32, n) <==> n % 4 == 0
                &&& decodable(DType::F16, n) <==> n % 2 == 0
                &&& decodable(DType::BF16, n) <==> n % 2 == 0
                &&& decodable(DType::Q8_0, n) <==> n % 34 == 0
                &&& decodable(DType::U32, n) && decodable(DType::U16, n) && decodable(DType::Q8, n)
            },
        forall|n: nat|
            n <= 0xfff_ffff ==> {
                &&& #[trigger] decodable(DType::Q4_0, n) <==> n % 18 == 0
                &&& decodable(DType::Q4_K, n) <==> n % 144 == 0
                &&& decodable(DType::Q6_K, n) <==> n % 210 == 0
                &&& decodable(DType::Q4, n) && decodable(DType::Ternary, n)
            },
{
    assert forall|n: nat| n <= 0xfff_ffff implies {
        &&& #[trigger] decodable(DType::Q4_0, n) <==> n % 18 == 0
        &&& decodable(DType::Q4_K, n) <==> n % 144 == 0
        &&& decodable(DType::Q6_K, n) <==> n % 210 == 0
        &&& decodable(DType::Q4, n) && decodable(DType::Ternary, n)
    } by {
        assert(n / 18 * 32 <= 2 * n);
        assert(n / 144 * 256 <= 2 * n);
        assert(n / 210 * 256 <= 2 * n);
        assert(n / 1 * 4 == 4 * n);
    }
}

/// Fixed point of the single-precision number with this biased exponent and
/// these fraction bits: the nearest multiple of the step, the larger of two,
/// held at the largest; a negative number is the mirror image.
#[verifier::spinoff_prover]
#[verifier::rlimit(40)]
pub proof fn fixed_point_is_nearest(e: int, fraction: int, shift: int, limit: int, bits: u32)
    requires
        1 <= e <= 254,
        0 <= fraction < 0x80_0000,
        bits == e * 0x80_0000 + fraction,
        0 < limit,
    ensures
        e - 150 + shift < 0 ==> {
            let step = pow2((150 - shift - e) as nat) as int;
            let n = fixed(bits, shift, limit);
            &&& n == limit - 1 || (-step < 2 * (n * step - (0x80_0000 + fraction)) <= step)
            &&& n == limit - 1 ==> 2 * (n * step - (0x80_0000 + fraction)) <= step
        },
        e - 150 + shift >= 0 ==> {
            let exact = (0x80_0000 + fraction) * pow2((e - 150 + shift) as nat);
            fixed(bits, shift, limit) == if exact < limit {
                exact
            } else {
                limit - 1
            }
        },
        fixed(bits, shift, limit) < limit - 1 ==> fixed(
            (bits + 0x8000_0000) as u32,
            shift,
            limit,
        ) == -fixed(bits, shift, limit),
        -limit <= fixed((bits + 0x8000_0000) as u32, shift, limit) <= 0,
{
    let neg = (bits + 0x8000_0000) as u32;
    assert(significand(bits) == 0x80_0000 + fraction);
    assert(exponent(bits) == e - 150);
    assert(significand(neg) == 0x80_0000 + fraction);
    assert(exponent(neg) == e - 150);
    assert(!is_nan(bits) && !is_nan(neg));
    let m = 0x80_0000 + fraction;
    let x = e - 150 + shift;
    if x < 0 {
        let k = (-x) as nat;
        let step = pow2(k) as int;
        vstd::arithmetic::power2::lemma_pow2_pos(k);
        let n = (2 * m + step) / (2 * step);
        vstd::arithmetic::div_mod::lemma_fundamental_div_mod(2 * m + step, 2 * step);
        vstd::arithmetic::div_mod::lemma_mod_bound(2 * m + step, 2 * step);
        vstd::arithmetic::div_mod::lemma_div_pos_is_pos(2 * m + step, 2 * step);
        assert((2 * step) * n == 2 * (n * step)) by (nonlinear_arith);
        if n > limit - 1 {
            assert((limit - 1) * step <= n * step) by (nonlinear_arith)
                requires
                    limit - 1 <= n,
                    step > 0,
            ;
        }
    } else {
        vstd::arithmetic::power2::lemma_pow2_pos(x as nat);
        assert(m * pow2(x as nat) >= 0) by (nonlinear_arith)
            requires
                m >= 0,
        ;
    }
}

/// What is not a number becomes zero, infinity the largest code and its
/// negative the smallest.
pub proof fn fixed_point_of_special_patterns(bits: u32)
    ensures
        bits as int % 0x8000_0000 > 0x7F80_0000 ==> fixed(bits, 8, 0x8000) == 0 && fixed(
            bits,
            16,
            0x8000_0000,
        ) == 0,
        fixed(0x7F80_0000, 8, 0x8000) == 0x7FFF,
        fixed(0xFF80_0000, 8, 0x8000) == -0x8000,
        fixed(0x7F80_0000, 16, 0x8000_0000) == 0x7FFF_FFFF,
        fixed(0xFF80_0000, 16, 0x8000_0000) == -0x8000_0000,
        fixed(0, 8, 0x8000) == 0 && fixed(0, 16, 0x8000_0000) == 0,
{
    vstd::arithmetic::power2::lemma2_to64();
    vstd::arithmetic::power2::lemma2_to64_rest();
    vstd::arithmetic::power2::lemma_pow2_strictly_increases(64, 105 + 8);
    vstd::arithmetic::power2::lemma_pow2_strictly_increases(64, 105 + 16);
    let (a, c) = (pow2(113) as int, pow2(121) as int);
    assert(0x80_0000 * a > 0x8000 && 0x80_0000 * c > 0x8000_0000);
    vstd::arithmetic::power2::lemma_pow2_pos(141);
    vstd::arithmetic::power2::lemma_pow2_pos(133);
    let (p, q) = (pow2(141) as int, pow2(133) as int);
    vstd::arithmetic::div_mod::lemma_basic_div(p, 2 * p);
    vstd::arithmetic::div_mod::lemma_basic_div(q, 2 * q);
}

/// The sign of a number is the number rounded to a whole one, held within one.
pub proof fn signs_are_rounded_numbers(bits: u32)
    ensures
        nearest_sign(bits) == 1 <==> fixed(bits, 0, 2) == 1,
        nearest_sign(bits) == -1 <==> fixed(bits, 0, 2) < 0,
        nearest_sign(bits) == 0 <==> fixed(bits, 0, 2) == 0,
{
    vstd::arithmetic::power2::lemma2_to64();
    vstd::arithmetic::power2::lemma2_to64_rest();
    let e = exponent(bits);
    let m = significand(bits);
    if e >= 0 {
        vstd::arithmetic::power2::lemma_pow2_pos(e as nat);
        let p = pow2(e as nat) as int;
        assert(m * p >= 0x80_0000) by (nonlinear_arith)
            requires
                m >= 0x80_0000,
                p >= 1,
        ;
    } else {
        let k = (-e) as nat;
        let p = pow2(k) as int;
        if k <= 24 {
            if k < 24 {
                vstd::arithmetic::power2::lemma_pow2_strictly_increases(k, 24);
            }
            vstd::arithmetic::power2::lemma_pow2_pos(k);
            assert((2 * m + p) / (2 * p) >= 1) by (nonlinear_arith)
                requires
                    2 * m >= p,
                    p > 0,
            ;
        } else {
            if k > 25 {
                vstd::arithmetic::power2::lemma_pow2_strictly_increases(25, k);
            }
            vstd::arithmetic::div_mod::lemma_basic_div(2 * m + p, 2 * p);
        }
    }
}

/// A bfloat16 is the upper half of the single-precision pattern of the same
/// number; a signalling NaN becomes a quiet one.
pub proof fn brain_floats_are_upper_halves(bits: u16)
    ensures
        !(0x7F80 < bits < 0x8000 || 0xFF80 < bits) ==> brain_to_single(bits) == bits * 0x1_0000,
        0x7F80 < bits < 0x8000 || 0xFF80 < bits ==> brain_to_single(bits) as int / 0x1_0000 == bits
            || brain_to_single(bits) as int / 0x1_0000 == bits + 0x40,
{
}

/// Block `j` of row `i` of a matrix starts at its column of the row; rows have
/// the blocks that fit in them.
pub proof fn blocks_start_at_their_columns(n: int, k: int, per: int, i: int, j: int)
    requires
        0 <= i < n,
        0 <= j < per,
        per * 256 <= k < per * 256 + 256,
    ensures
        starts(n, k).len() == n * per,
        starts(n, k)[i * per + j] == i * k + 256 * j,
{
    assert(k / 256 == per);
    let x = i * per + j;
    assert(0 <= x < n * per) by (nonlinear_arith)
        requires
            x == i * per + j,
            0 <= i,
            i + 1 <= n,
            0 <= j < per,
    ;
    vstd::arithmetic::div_mod::lemma_fundamental_div_mod_converse(x, per, i, j);
}

} // verus!
