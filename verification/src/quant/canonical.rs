//! The integer encodings of `.model` files.
//!
//! `u32` is 16.16 fixed point, `u16` is 8.8 fixed point, `q8` and `q4` are
//! blocks of 32 codes with an 8.8 scale, and `ternary` packs four two-bit
//! codes per byte. Single-precision inputs are given as their bit patterns.

use vstd::prelude::*;
use vstd::arithmetic::power2::pow2;

use crate::quant::stored::{
    bits_of, block_bytes, block_len, decode, decoded, decoded_len, le16, le32, lemma_nibbles,
    nibble, sign_of, signed, stored_at, Format, Stored,
};

verus! {

/// Elements of a block of `q8` and `q4`.
pub const BLOCK: usize = 32;

/// The pattern is not a number.
pub open spec fn is_nan(bits: u32) -> bool {
    bits as int % 0x8000_0000 > 0x7F80_0000
}

/// The number is negative, or a negative zero.
pub open spec fn is_negative(bits: u32) -> bool {
    bits >= 0x8000_0000
}

/// The biased exponent.
pub open spec fn exponent_field(bits: u32) -> int {
    bits as int / 0x80_0000 % 0x100
}

/// The significand as an integer; the number is this times
/// `2^exponent(bits)`.
pub open spec fn significand(bits: u32) -> int {
    if exponent_field(bits) == 0 {
        bits as int % 0x80_0000
    } else {
        bits as int % 0x80_0000 + 0x80_0000
    }
}

/// The exponent that goes with the significand.
pub open spec fn exponent(bits: u32) -> int {
    if exponent_field(bits) == 0 {
        -149
    } else {
        exponent_field(bits) - 150
    }
}

/// `m * 2^e`, rounded to the nearest integer, halves upward.
pub open spec fn rounded(m: int, e: int) -> int {
    if e >= 0 {
        m * pow2(e as nat)
    } else {
        (2 * m + pow2((-e) as nat)) / (2 * pow2((-e) as nat)) as int
    }
}

/// The number times `2^shift`, rounded to the nearest integer with halves
/// away from zero, and held within `-limit ..= limit - 1`. What is not a
/// number becomes zero.
pub open spec fn fixed(bits: u32, shift: int, limit: int) -> int {
    let n = rounded(significand(bits), exponent(bits) + shift);
    if is_nan(bits) {
        0
    } else if is_negative(bits) {
        if n > limit {
            -limit
        } else {
            -n
        }
    } else {
        if n > limit - 1 {
            limit - 1
        } else {
            n
        }
    }
}

/// Unless it is held back by the limit, a fixed-point number is within half a
/// step of the number it stands for.
pub proof fn fixed_is_nearest(bits: u32, shift: int, limit: int)
    requires
        !is_nan(bits),
        exponent(bits) + shift < 0,
        -limit < fixed(bits, shift, limit) < limit - 1,
    ensures
        ({
            let step = pow2((-(exponent(bits) + shift)) as nat) as int;
            let value = if is_negative(bits) {
                -significand(bits)
            } else {
                significand(bits)
            };
            -step <= 2 * (fixed(bits, shift, limit) * step - value) <= step
        }),
{
    let k = (-(exponent(bits) + shift)) as nat;
    let step = pow2(k) as int;
    vstd::arithmetic::power2::lemma_pow2_pos(k);
    let m = significand(bits);
    let n = rounded(m, exponent(bits) + shift);
    assert(n == (2 * m + step) / (2 * step));
    vstd::arithmetic::div_mod::lemma_fundamental_div_mod(2 * m + step, 2 * step);
    vstd::arithmetic::div_mod::lemma_mod_bound(2 * m + step, 2 * step);
    assert((2 * step) * n == 2 * (n * step)) by (nonlinear_arith);
    assert((-n) * step == -(n * step)) by (nonlinear_arith);
}

fn power_of_two(k: u32) -> (n: u64)
    requires
        k <= 40,
    ensures
        n == pow2(k as nat),
        n > 0,
{
    let mut n: u64 = 1;
    let mut i: u32 = 0;
    proof {
        vstd::arithmetic::power2::lemma2_to64();
        vstd::arithmetic::power2::lemma2_to64_rest();
    }
    while i < k
        invariant
            i <= k <= 40,
            n == pow2(i as nat),
            n <= pow2(40),
            pow2(40) == 0x100_0000_0000,
        decreases k - i,
    {
        proof {
            vstd::arithmetic::power2::lemma_pow2_unfold((i + 1) as nat);
            if i + 1 < 40 {
                vstd::arithmetic::power2::lemma_pow2_strictly_increases((i + 1) as nat, 40);
            }
        }
        n = 2 * n;
        i = i + 1;
    }
    n
}

proof fn lemma_large(m: int, e: int)
    requires
        m >= 0x80_0000,
        e >= 8,
    ensures
        m * pow2(e as nat) >= 0x8000_0000,
{
    vstd::arithmetic::power2::lemma2_to64();
    if e > 8 {
        vstd::arithmetic::power2::lemma_pow2_strictly_increases(8, e as nat);
    }
    let p = pow2(e as nat) as int;
    assert(m * p >= 0x80_0000 * 0x100) by (nonlinear_arith)
        requires
            m >= 0x80_0000,
            p >= 0x100,
    ;
}

proof fn lemma_small(m: int, k: nat)
    requires
        0 <= m < 0x100_0000,
        k > 25,
    ensures
        (2 * m + pow2(k)) / (2 * pow2(k)) as int == 0,
{
    vstd::arithmetic::power2::lemma2_to64();
    vstd::arithmetic::power2::lemma_pow2_strictly_increases(25, k);
    let p = pow2(k) as int;
    assert(p > 0x200_0000);
    vstd::arithmetic::div_mod::lemma_basic_div(2 * m + p, 2 * p);
}

/// See [`fixed`].
fn to_fixed(bits: u32, shift: i32, limit: i64) -> (n: i64)
    requires
        shift == 8 || shift == 16,
        limit == 0x8000 || limit == 0x8000_0000,
    ensures
        n == fixed(bits, shift as int, limit as int),
        -limit <= n < limit,
{
    if bits % 0x8000_0000 > 0x7F80_0000 {
        return 0;
    }
    let field: u32 = bits / 0x80_0000 % 0x100;
    let m: u64 = if field == 0 {
        (bits % 0x80_0000) as u64
    } else {
        (bits % 0x80_0000) as u64 + 0x80_0000
    };
    let e: i32 = (if field == 0 {
        -149
    } else {
        field as i32 - 150
    }) + shift;
    let n: i64 = if e >= 8 {
        proof {
            assert(field != 0);
            lemma_large(m as int, e as int);
        }
        0x8000_0000
    } else if e >= 0 {
        let p: u64 = power_of_two(e as u32);
        proof {
            vstd::arithmetic::power2::lemma2_to64();
            if e < 7 {
                vstd::arithmetic::power2::lemma_pow2_strictly_increases(e as nat, 7);
            }
            assert(m * p <= 0x100_0000 * 0x80) by (nonlinear_arith)
                requires
                    m <= 0x100_0000,
                    p <= 0x80,
            ;
        }
        (m * p) as i64
    } else if e < -25 {
        proof {
            lemma_small(m as int, (-e) as nat);
        }
        0
    } else {
        let p: u64 = power_of_two((-e) as u32);
        proof {
            vstd::arithmetic::power2::lemma2_to64();
            if -e < 25 {
                vstd::arithmetic::power2::lemma_pow2_strictly_increases((-e) as nat, 25);
            }
            let q = (2 * m + p) as int;
            let d = (2 * p) as int;
            assert(0 <= q / d <= q) by (nonlinear_arith)
                requires
                    q >= 0,
                    d >= 1,
            ;
        }
        ((2 * m + p) / (2 * p)) as i64
    };
    if bits >= 0x8000_0000 {
        if n > limit {
            -limit
        } else {
            -n
        }
    } else {
        if n > limit - 1 {
            limit - 1
        } else {
            n
        }
    }
}

/// A signed number below `half` in magnitude as an unsigned one.
pub open spec fn unsigned(n: int, half: int) -> int {
    if n >= 0 {
        n
    } else {
        n + 2 * half
    }
}

/// The encoding of each number as 16.16 fixed point.
pub open spec fn is_u32_of(out: Seq<u8>, values: Seq<u32>) -> bool {
    &&& out.len() == 4 * values.len()
    &&& forall|i: int|
        0 <= i < values.len() ==> le32(out, 4 * i) == unsigned(
            fixed(#[trigger] values[i], 16, 0x8000_0000),
            0x8000_0000,
        )
}

/// Encodes numbers as 16.16 fixed point.
pub fn f32_to_u32(values: &[u32]) -> (out: Vec<u8>)
    requires
        4 * values@.len() <= usize::MAX,
    ensures
        is_u32_of(out@, values@),
{
    let mut out: Vec<u8> = Vec::new();
    let mut i: usize = 0;
    while i < values.len()
        invariant
            i <= values@.len(),
            is_u32_of(out@, values@.take(i as int)),
        decreases values@.len() - i,
    {
        let n: i64 = to_fixed(values[i], 16, 0x8000_0000);
        let u: u32 = if n >= 0 {
            n as u32
        } else {
            (n + 0x1_0000_0000) as u32
        };
        let ghost before = out@;
        out.push((u % 0x100) as u8);
        out.push((u / 0x100 % 0x100) as u8);
        out.push((u / 0x1_0000 % 0x100) as u8);
        out.push((u / 0x100_0000) as u8);
        proof {
            let done = values@.take(i as int);
            let next = values@.take(i + 1);
            assert(le32(out@, 4 * i) == u);
            assert forall|k: int| 0 <= k < next.len() implies le32(out@, 4 * k) == unsigned(
                fixed(#[trigger] next[k], 16, 0x8000_0000),
                0x8000_0000,
            ) by {
                if k < i {
                    assert(done[k] == next[k]);
                    assert(le32(before, 4 * k) == le32(out@, 4 * k));
                }
            }
        }
        i = i + 1;
    }
    assert(values@.take(values@.len() as int) =~= values@);
    out
}

/// The encoding of each number as 8.8 fixed point.
pub open spec fn is_u16_of(out: Seq<u8>, values: Seq<u32>) -> bool {
    &&& out.len() == 2 * values.len()
    &&& forall|i: int|
        0 <= i < values.len() ==> le16(out, 2 * i) == unsigned(
            fixed(#[trigger] values[i], 8, 0x8000),
            0x8000,
        )
}

fn unsigned16(n: i64) -> (u: u16)
    requires
        -0x8000 <= n < 0x8000,
    ensures
        u == unsigned(n as int, 0x8000),
{
    if n >= 0 {
        n as u16
    } else {
        (n + 0x1_0000) as u16
    }
}

/// Encodes numbers as 8.8 fixed point.
pub fn f32_to_u16(values: &[u32]) -> (out: Vec<u8>)
    requires
        2 * values@.len() <= usize::MAX,
    ensures
        is_u16_of(out@, values@),
{
    let mut out: Vec<u8> = Vec::new();
    let mut i: usize = 0;
    while i < values.len()
        invariant
            i <= values@.len(),
            is_u16_of(out@, values@.take(i as int)),
        decreases values@.len() - i,
    {
        let u: u16 = unsigned16(to_fixed(values[i], 8, 0x8000));
        let ghost before = out@;
        out.push((u % 0x100) as u8);
        out.push((u / 0x100) as u8);
        proof {
            let done = values@.take(i as int);
            let next = values@.take(i + 1);
            assert(le16(out@, 2 * i) == u);
            assert forall|k: int| 0 <= k < next.len() implies le16(out@, 2 * k) == unsigned(
                fixed(#[trigger] next[k], 8, 0x8000),
                0x8000,
            ) by {
                if k < i {
                    assert(done[k] == next[k]);
                    assert(le16(before, 2 * k) == le16(out@, 2 * k));
                }
            }
        }
        i = i + 1;
    }
    assert(values@.take(values@.len() as int) =~= values@);
    out
}

/// The largest magnitude among the first `n` numbers from `from`; what is not
/// a number does not count.
pub open spec fn largest(values: Seq<u32>, from: int, n: nat) -> u32
    decreases n,
{
    if n == 0 {
        0
    } else {
        let before = largest(values, from, (n - 1) as nat);
        let magnitude = (values[from + n - 1] as int % 0x8000_0000) as u32;
        if !is_nan(values[from + n - 1]) && magnitude > before {
            magnitude
        } else {
            before
        }
    }
}

/// The largest magnitude of a block of 32 numbers.
pub fn block_max(values: &[u32], from: usize) -> (m: u32)
    requires
        from + 32 <= values@.len(),
    ensures
        m == largest(values@, from as int, 32),
        m <= 0x7F80_0000,
        forall|j: int|
            from <= j < from + 32 ==> (#[trigger] values@[j] as int % 0x8000_0000 <= m
                || values@[j] as int % 0x8000_0000 > 0x7F80_0000),
        m == 0 || exists|j: int|
            from <= j < from + 32 && #[trigger] values@[j] as int % 0x8000_0000 == m,
{
    proof {
        lemma_largest_bounds(values@, from as int, 32);
    }
    let total: usize = values.len();
    let mut m: u32 = 0;
    let mut i: usize = 0;
    while i < 32
        invariant
            i <= 32,
            total == values@.len(),
            from + 32 <= total,
            m == largest(values@, from as int, i as nat),
            m <= 0x7F80_0000,
        decreases 32 - i,
    {
        let magnitude: u32 = values[from + i] % 0x8000_0000;
        if magnitude <= 0x7F80_0000 && magnitude > m {
            m = magnitude;
        }
        i = i + 1;
    }
    m
}

proof fn lemma_largest_bounds(values: Seq<u32>, from: int, n: nat)
    ensures
        forall|j: int|
            from <= j < from + n ==> (#[trigger] values[j] as int % 0x8000_0000 <= largest(
                values,
                from,
                n,
            ) || values[j] as int % 0x8000_0000 > 0x7F80_0000),
        largest(values, from, n) == 0 || exists|j: int|
            from <= j < from + n && #[trigger] values[j] as int % 0x8000_0000 == largest(
                values,
                from,
                n,
            ),
    decreases n,
{
    if n > 0 {
        let before = largest(values, from, (n - 1) as nat);
        lemma_largest_bounds(values, from, (n - 1) as nat);
        let x = values[from + n - 1];
        if largest(values, from, n) == before && before != 0 {
            let j = choose|j: int|
                from <= j < from + n - 1 && #[trigger] values[j] as int % 0x8000_0000 == before;
            assert(values[j] as int % 0x8000_0000 == largest(values, from, n));
        } else if largest(values, from, n) != 0 {
            assert(x as int % 0x8000_0000 == largest(values, from, n));
        }
    }
}

/// No number of a block has a greater magnitude than the one that gives the
/// scale, which is the magnitude of one of the 32 numbers of the block; zero
/// where none of them is a number or all are zero.
pub proof fn largest_is_reached_in_the_block(values: Seq<u32>, b: int)
    requires
        0 <= b,
        32 * b + 32 <= values.len(),
    ensures
        exists|m: u32|
            #![trigger fixed(m, 8, 0x8000)]
            {
                &&& block_scale(values, b) == fixed(m, 8, 0x8000)
                &&& forall|j: int|
                    0 <= j < 32 && !is_nan(#[trigger] values[32 * b + j]) ==> values[32 * b
                        + j] as int % 0x8000_0000 <= m
                &&& m == 0 || exists|j: int|
                    0 <= j < 32 && #[trigger] values[32 * b + j] as int % 0x8000_0000 == m
            },
{
    let m = largest(values, 32 * b, 32);
    lemma_largest_bounds(values, 32 * b, 32);
    assert(block_scale(values, b) == fixed(m, 8, 0x8000));
    assert forall|j: int| 0 <= j < 32 && !is_nan(#[trigger] values[32 * b + j]) implies values[32
        * b + j] as int % 0x8000_0000 <= m by {
        assert(32 * b <= 32 * b + j < 32 * b + 32);
    }
    if m != 0 {
        let j = choose|j: int|
            32 * b <= j < 32 * b + 32 && #[trigger] values[j] as int % 0x8000_0000 == m;
        let k = j - 32 * b;
        assert(values[32 * b + k] as int % 0x8000_0000 == m);
    }
}

/// The scale of block `b`: its largest magnitude in 8.8 fixed point.
pub open spec fn block_scale(values: Seq<u32>, b: int) -> int {
    fixed(largest(values, 32 * b, 32), 8, 0x8000)
}

/// A block of 34 bytes per 32 numbers: the scale and the codes.
pub open spec fn is_q8_of(out: Seq<u8>, values: Seq<u32>, codes: Seq<i8>, blocks: int) -> bool {
    &&& out.len() == 34 * blocks
    &&& forall|b: int|
        0 <= b < blocks ==> le16(out, 34 * b) == #[trigger] block_scale(values, b)
    &&& forall|b: int, i: int|
        0 <= b < blocks && 0 <= i < 32 ==> #[trigger] out[34 * b + 2 + i] == unsigned(
            codes[32 * b + i] as int,
            0x80,
        )
}

/// Encodes numbers as `q8`. `codes` are the numbers divided by a 127th of the
/// largest magnitude of their block, rounded.
pub fn f32_to_q8(values: &[u32], codes: &[i8]) -> (out: Vec<u8>)
    requires
        values@.len() % 32 == 0,
        codes@.len() == values@.len(),
        values@.len() / 32 * 34 <= usize::MAX,
    ensures
        is_q8_of(out@, values@, codes@, values@.len() as int / 32),
{
    let total: usize = values.len();
    let blocks: usize = total / BLOCK;
    let mut out: Vec<u8> = Vec::new();
    let mut b: usize = 0;
    while b < blocks
        invariant
            b <= blocks,
            total == values@.len(),
            codes@.len() == total,
            total == 32 * blocks,
            is_q8_of(out@, values@, codes@, b as int),
        decreases blocks - b,
    {
        let scale: u16 = unsigned16(to_fixed(block_max(values, 32 * b), 8, 0x8000));
        let ghost before = out@;
        out.push((scale % 0x100) as u8);
        out.push((scale / 0x100) as u8);
        proof {
            assert(le16(out@, 34 * b) == scale);
            lemma_positive(largest(values@, 32 * b, 32));
        }
        let mut i: usize = 0;
        while i < 32
            invariant
                i <= 32,
                b < blocks,
                total == values@.len(),
                codes@.len() == total,
                total == 32 * blocks,
                before.len() == 34 * b,
                out@.len() == 34 * b + 2 + i,
                le16(out@, 34 * b) == block_scale(values@, b as int),
                forall|k: int| 0 <= k < before.len() ==> out@[k] == before[k],
                forall|k: int|
                    0 <= k < i ==> #[trigger] out@[34 * b + 2 + k] == unsigned(
                        codes@[32 * b + k] as int,
                        0x80,
                    ),
            decreases 32 - i,
        {
            let c: i8 = codes[32 * b + i];
            out.push(
                if c >= 0 {
                    c as u8
                } else {
                    (c as i16 + 0x100) as u8
                },
            );
            i = i + 1;
        }
        proof {
            assert forall|c: int| 0 <= c < b + 1 implies le16(out@, 34 * c)
                == #[trigger] block_scale(values@, c) by {
                if c < b {
                    assert(le16(before, 34 * c) == le16(out@, 34 * c));
                }
            }
            assert forall|c: int, k: int|
                0 <= c < b + 1 && 0 <= k < 32 implies #[trigger] out@[34 * c + 2 + k] == unsigned(
                codes@[32 * c + k] as int,
                0x80,
            ) by {
                if c < b {
                    assert(before[34 * c + 2 + k] == out@[34 * c + 2 + k]);
                }
            }
        }
        b = b + 1;
    }
    out
}

proof fn lemma_positive(bits: u32)
    requires
        bits <= 0x7F80_0000,
    ensures
        fixed(bits, 8, 0x8000) >= 0,
{
    let e = exponent(bits) + 8;
    let m = significand(bits);
    if e >= 0 {
        vstd::arithmetic::power2::lemma_pow2_pos(e as nat);
        assert(m * pow2(e as nat) >= 0) by (nonlinear_arith)
            requires
                m >= 0,
        ;
    } else {
        vstd::arithmetic::power2::lemma_pow2_pos((-e) as nat);
        vstd::arithmetic::div_mod::lemma_div_pos_is_pos(
            2 * m + pow2((-e) as nat) as int,
            2 * pow2((-e) as nat) as int,
        );
    }
}

/// A block of 18 bytes per 32 numbers: the scale, then the codes with eight
/// added; a byte holds the code of one number of the first half and of its
/// counterpart in the second.
pub open spec fn is_q4_of(out: Seq<u8>, values: Seq<u32>, codes: Seq<i8>, blocks: int) -> bool {
    &&& out.len() == 18 * blocks
    &&& forall|b: int|
        0 <= b < blocks ==> le16(out, 18 * b) == #[trigger] block_scale(values, b)
    &&& forall|b: int, i: int|
        0 <= b < blocks && 0 <= i < 16 ==> #[trigger] out[18 * b + 2 + i] == (codes[32 * b + i]
            + 8) + 16 * (codes[32 * b + 16 + i] + 8)
}

/// Every code fits in four bits.
pub open spec fn four_bit(codes: Seq<i8>) -> bool {
    forall|i: int| 0 <= i < codes.len() ==> -8 <= #[trigger] codes[i] <= 7
}

/// Encodes numbers as `q4`. `codes` are the numbers divided by an eighth of
/// the largest magnitude of their block, rounded and held within four bits.
pub fn f32_to_q4(values: &[u32], codes: &[i8]) -> (out: Vec<u8>)
    requires
        values@.len() % 32 == 0,
        codes@.len() == values@.len(),
        four_bit(codes@),
    ensures
        is_q4_of(out@, values@, codes@, values@.len() as int / 32),
{
    let total: usize = values.len();
    let blocks: usize = total / BLOCK;
    let mut out: Vec<u8> = Vec::new();
    let mut b: usize = 0;
    while b < blocks
        invariant
            b <= blocks,
            total == values@.len(),
            codes@.len() == total,
            four_bit(codes@),
            total == 32 * blocks,
            is_q4_of(out@, values@, codes@, b as int),
        decreases blocks - b,
    {
        let scale: u16 = unsigned16(to_fixed(block_max(values, 32 * b), 8, 0x8000));
        let ghost before = out@;
        out.push((scale % 0x100) as u8);
        out.push((scale / 0x100) as u8);
        proof {
            assert(le16(out@, 18 * b) == scale);
            lemma_positive(largest(values@, 32 * b, 32));
        }
        let mut i: usize = 0;
        while i < 16
            invariant
                i <= 16,
                b < blocks,
                total == values@.len(),
                codes@.len() == total,
                four_bit(codes@),
                total == 32 * blocks,
                before.len() == 18 * b,
                out@.len() == 18 * b + 2 + i,
                le16(out@, 18 * b) == block_scale(values@, b as int),
                forall|k: int| 0 <= k < before.len() ==> out@[k] == before[k],
                forall|k: int|
                    0 <= k < i ==> #[trigger] out@[18 * b + 2 + k] == (codes@[32 * b + k] + 8) + 16
                        * (codes@[32 * b + 16 + k] + 8),
            decreases 16 - i,
        {
            let low: i8 = codes[32 * b + i];
            let high: i8 = codes[32 * b + 16 + i];
            out.push((low + 8) as u8 + 16 * ((high + 8) as u8));
            i = i + 1;
        }
        proof {
            assert forall|c: int| 0 <= c < b + 1 implies le16(out@, 18 * c)
                == #[trigger] block_scale(values@, c) by {
                if c < b {
                    assert(le16(before, 18 * c) == le16(out@, 18 * c));
                }
            }
            assert forall|c: int, k: int|
                0 <= c < b + 1 && 0 <= k < 16 implies #[trigger] out@[18 * c + 2 + k] == (codes@[32
                * c + k] + 8) + 16 * (codes@[32 * c + 16 + k] + 8) by {
                if c < b {
                    assert(before[18 * c + 2 + k] == out@[18 * c + 2 + k]);
                }
            }
        }
        b = b + 1;
    }
    out
}

/// The sign nearest to a number: one from a half upward, minus one from minus
/// a half downward, else zero.
pub open spec fn nearest_sign(bits: u32) -> int {
    if 0x3F00_0000 <= bits <= 0x7F80_0000 {
        1
    } else if 0xBF00_0000 <= bits <= 0xFF80_0000 {
        -1
    } else {
        0
    }
}

/// The two-bit code of the sign nearest to a number.
pub open spec fn sign_code(bits: u32) -> int {
    if nearest_sign(bits) == 1 {
        1
    } else if nearest_sign(bits) == -1 {
        2
    } else {
        0
    }
}

/// Four codes in one byte, the first in the lowest bits.
pub open spec fn packed_signs(values: Seq<u32>, at: int) -> int {
    sign_code(values[at]) + 4 * sign_code(values[at + 1]) + 16 * sign_code(values[at + 2]) + 64
        * sign_code(values[at + 3])
}

/// A byte per four numbers.
pub open spec fn is_ternary_of(out: Seq<u8>, values: Seq<u32>) -> bool {
    &&& 4 * out.len() == values.len()
    &&& forall|k: int| 0 <= k < out.len() ==> #[trigger] out[k] == packed_signs(values, 4 * k)
}

fn code_of_sign(bits: u32) -> (c: u8)
    ensures
        c == sign_code(bits),
        c <= 2,
{
    if 0x3F00_0000 <= bits && bits <= 0x7F80_0000 {
        1
    } else if 0xBF00_0000 <= bits && bits <= 0xFF80_0000 {
        2
    } else {
        0
    }
}

/// Encodes the signs nearest to the numbers.
pub fn f32_to_ternary(values: &[u32]) -> (out: Vec<u8>)
    requires
        values@.len() % 32 == 0,
    ensures
        is_ternary_of(out@, values@),
{
    let total: usize = values.len();
    let mut out: Vec<u8> = Vec::new();
    let mut k: usize = 0;
    while k < total / 4
        invariant
            total == values@.len(),
            k <= total / 4,
            out@.len() == k,
            forall|i: int| 0 <= i < k ==> #[trigger] out@[i] == packed_signs(values@, 4 * i),
        decreases total / 4 - k,
    {
        out.push(
            code_of_sign(values[4 * k]) + 4 * code_of_sign(values[4 * k + 1]) + 16 * code_of_sign(
                values[4 * k + 2],
            ) + 64 * code_of_sign(values[4 * k + 3]),
        );
        k = k + 1;
    }
    out
}

/// Decodes 16.16 fixed point.
pub fn u32_to_f32(bytes: &[u8]) -> (v: Vec<Stored>)
    ensures
        v@ == decoded(Format::U32, bytes@),
{
    let total: usize = bytes.len();
    assert(decoded_len(Format::U32, total as nat) <= total);
    decode(Format::U32, bytes)
}

/// Decodes 8.8 fixed point.
pub fn u16_to_f32(bytes: &[u8]) -> (v: Vec<Stored>)
    ensures
        v@ == decoded(Format::U16, bytes@),
{
    let total: usize = bytes.len();
    assert(decoded_len(Format::U16, total as nat) <= total);
    decode(Format::U16, bytes)
}

/// Decodes `q8`.
pub fn q8_to_f32(bytes: &[u8]) -> (v: Vec<Stored>)
    ensures
        v@ == decoded(Format::Q8, bytes@),
{
    let total: usize = bytes.len();
    assert(decoded_len(Format::Q8, total as nat) <= total);
    decode(Format::Q8, bytes)
}

/// Decodes `q4`.
pub fn q4_to_f32(bytes: &[u8]) -> (v: Vec<Stored>)
    requires
        bytes@.len() / 18 * 32 <= usize::MAX,
    ensures
        v@ == decoded(Format::Q4, bytes@),
{
    decode(Format::Q4, bytes)
}

/// Decodes `ternary`.
pub fn ternary_to_f32(bytes: &[u8]) -> (v: Vec<Stored>)
    requires
        4 * bytes@.len() <= usize::MAX,
    ensures
        v@ == decoded(Format::Ternary, bytes@),
{
    decode(Format::Ternary, bytes)
}

/// Decoding 16.16 fixed point gives back what was encoded.
pub proof fn u32_reads_back(out: Seq<u8>, values: Seq<u32>, i: int)
    requires
        is_u32_of(out, values),
        0 <= i < values.len(),
    ensures
        decoded(Format::U32, out).len() == values.len(),
        decoded(Format::U32, out)[i] == (Stored::Fixed16 {
            code: fixed(values[i], 16, 0x8000_0000) as i32,
        }),
{
    lemma_within(values[i], 16, 0x8000_0000);
    assert(decoded(Format::U32, out)[i] == stored_at(Format::U32, out, 4 * i, 0)) by {
        assert(i / 1 * 4 == 4 * i && i % 1 == 0);
    }
}

/// Decoding 8.8 fixed point gives back what was encoded.
pub proof fn u16_reads_back(out: Seq<u8>, values: Seq<u32>, i: int)
    requires
        is_u16_of(out, values),
        0 <= i < values.len(),
    ensures
        decoded(Format::U16, out).len() == values.len(),
        decoded(Format::U16, out)[i] == (Stored::Fixed8 {
            code: fixed(values[i], 8, 0x8000) as i32,
        }),
{
    lemma_within(values[i], 8, 0x8000);
    assert(block_bytes(Format::U16) == 2 && block_len(Format::U16) == 1);
    assert(out.len() / 2 == values.len());
    assert(decoded(Format::U16, out)[i] == stored_at(Format::U16, out, 2 * i, 0)) by {
        assert(i / 1 * 2 == 2 * i && i % 1 == 0);
    }
}

proof fn lemma_within(bits: u32, shift: int, limit: int)
    requires
        limit > 0,
    ensures
        -limit <= fixed(bits, shift, limit) < limit,
{
    let e = exponent(bits) + shift;
    let m = significand(bits);
    if e >= 0 {
        vstd::arithmetic::power2::lemma_pow2_pos(e as nat);
        assert(m * pow2(e as nat) >= 0) by (nonlinear_arith)
            requires
                m >= 0,
        ;
    } else {
        vstd::arithmetic::power2::lemma_pow2_pos((-e) as nat);
        vstd::arithmetic::div_mod::lemma_div_pos_is_pos(
            2 * m + pow2((-e) as nat) as int,
            2 * pow2((-e) as nat) as int,
        );
    }
}

/// Decoding `q8` gives back the scale of the block and the code of each
/// number.
#[verifier::spinoff_prover]
pub proof fn q8_reads_back(out: Seq<u8>, values: Seq<u32>, codes: Seq<i8>, i: int)
    requires
        values.len() % 32 == 0,
        codes.len() == values.len(),
        is_q8_of(out, values, codes, values.len() as int / 32),
        0 <= i < values.len(),
    ensures
        decoded(Format::Q8, out).len() == values.len(),
        decoded(Format::Q8, out)[i] == (Stored::Block8 {
            scale: block_scale(values, i / 32) as i32,
            code: codes[i] as i32,
        }),
{
    let b = i / 32;
    let k = i % 32;
    lemma_within(largest(values, 32 * b, 32), 8, 0x8000);
    lemma_largest(values, 32 * b, 32);
    lemma_positive(largest(values, 32 * b, 32));
    assert(decoded_len(Format::Q8, out.len()) == values.len());
    lemma_q8_index(out, i);
    assert(block_scale(values, b) == le16(out, 34 * b));
    lemma_q8_code(out, values, codes, b, k);
}

proof fn lemma_q8_index(out: Seq<u8>, i: int)
    requires
        0 <= i < decoded(Format::Q8, out).len(),
    ensures
        decoded(Format::Q8, out)[i] == stored_at(Format::Q8, out, i / 32 * 34, i % 32),
{
}

proof fn lemma_q8_code(out: Seq<u8>, values: Seq<u32>, codes: Seq<i8>, b: int, k: int)
    requires
        codes.len() == values.len(),
        is_q8_of(out, values, codes, values.len() as int / 32),
        0 <= b < values.len() as int / 32,
        0 <= k < 32,
    ensures
        signed(out[b * 34 + 2 + k] as int, 0x80) == codes[32 * b + k],
{
    assert(out[34 * b + 2 + k] == unsigned(codes[32 * b + k] as int, 0x80));
}

proof fn lemma_largest(values: Seq<u32>, from: int, n: nat)
    ensures
        largest(values, from, n) <= 0x7F80_0000,
    decreases n,
{
    if n > 0 {
        lemma_largest(values, from, (n - 1) as nat);
    }
}

proof fn lemma_q4_index(out: Seq<u8>, i: int)
    requires
        0 <= i < decoded(Format::Q4, out).len(),
    ensures
        decoded(Format::Q4, out)[i] == stored_at(Format::Q4, out, i / 32 * 18, i % 32),
{
}

/// Decoding `q4` gives back the scale of the block and the code of each
/// number.
#[verifier::spinoff_prover]
pub proof fn q4_reads_back(out: Seq<u8>, values: Seq<u32>, codes: Seq<i8>, i: int)
    requires
        values.len() % 32 == 0,
        codes.len() == values.len(),
        four_bit(codes),
        is_q4_of(out, values, codes, values.len() as int / 32),
        0 <= i < values.len(),
    ensures
        decoded(Format::Q4, out).len() == values.len(),
        decoded(Format::Q4, out)[i] == (Stored::Block4 {
            scale: block_scale(values, i / 32) as i32,
            code: codes[i] as i32,
        }),
{
    let b = i / 32;
    let k = i % 32;
    lemma_within(largest(values, 32 * b, 32), 8, 0x8000);
    lemma_largest(values, 32 * b, 32);
    lemma_positive(largest(values, 32 * b, 32));
    assert(decoded_len(Format::Q4, out.len()) == values.len());
    lemma_q4_index(out, i);
    assert(block_scale(values, b) == le16(out, 18 * b));
    lemma_q4_code(out, values, codes, b, k);
}

proof fn lemma_q4_code(out: Seq<u8>, values: Seq<u32>, codes: Seq<i8>, b: int, k: int)
    requires
        codes.len() == values.len(),
        four_bit(codes),
        is_q4_of(out, values, codes, values.len() as int / 32),
        0 <= b < values.len() as int / 32,
        0 <= k < 32,
    ensures
        nibble(out[b * 18 + 2 + k % 16], k >= 16) - 8 == codes[32 * b + k],
{
    let m = k % 16;
    let byte = out[18 * b + 2 + m];
    let low = codes[32 * b + m];
    let high = codes[32 * b + 16 + m];
    assert(byte == (low + 8) + 16 * (high + 8));
    lemma_nibbles(byte, low + 8, high + 8);
    if k >= 16 {
        assert(k == 16 + m);
    } else {
        assert(k == m);
    }
}

/// Decoding `ternary` gives back the sign nearest to each number.
pub proof fn ternary_reads_back(out: Seq<u8>, values: Seq<u32>, i: int)
    requires
        is_ternary_of(out, values),
        0 <= i < values.len(),
    ensures
        decoded(Format::Ternary, out).len() == values.len(),
        decoded(Format::Ternary, out)[i] == (Stored::Whole {
            code: nearest_sign(values[i]) as i32,
        }),
{
    let k = i / 4;
    let slot = i % 4;
    assert(decoded(Format::Ternary, out)[i] == stored_at(Format::Ternary, out, k, slot));
    let byte = out[k];
    let (a, b, c, d) = (
        sign_code(values[4 * k]),
        sign_code(values[4 * k + 1]),
        sign_code(values[4 * k + 2]),
        sign_code(values[4 * k + 3]),
    );
    assert(byte == a + 4 * b + 16 * c + 64 * d);
    assert(bits_of(byte, 0, 4) == a);
    assert(bits_of(byte, 2, 4) == b);
    assert(bits_of(byte, 4, 4) == c);
    assert(bits_of(byte, 6, 4) == d);
    assert(bits_of(byte, 2 * slot, 4) == sign_code(values[i]));
    assert(sign_of(sign_code(values[i])) == nearest_sign(values[i]));
}

} // verus!
