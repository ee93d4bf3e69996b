//! Products with encoded rows, without decoding the row first.
//!
//! The elements of a block fall into groups that share a factor. A group is
//! summed as code times number, eight lanes at a time, and the sum is
//! multiplied by the factor. Where the group has a minimum, the sum of its
//! numbers times the minimum is taken off.

use vstd::prelude::*;

use crate::quant::stored::{
    bits_of, block_bytes, block_len, decoded, element, nibble, signed, stored_at,
    Format, Stored,
};

verus! {

/// What the sum of a group is multiplied by. Names in lower case stand for the
/// numbers; `d` is a half-precision number, `scale` an integer.
#[derive(Clone, Copy, Debug, PartialEq, Eq, Structural)]
pub enum Factor {
    /// `d`
    Half { d: u16 },
    /// `d * scale`
    HalfTimes { d: u16, scale: i32 },
    /// `scale / 256 / 127`
    By127 { scale: i32 },
    /// `scale / 256 / 8`
    By8 { scale: i32 },
}

/// What is taken off per number: `dmin * min`; `dmin` is a half-precision
/// number.
#[derive(Clone, Copy, Debug, PartialEq, Eq, Structural)]
pub struct Minimum {
    pub dmin: u16,
    pub min: i32,
}

/// Eight consecutive elements of a block.
#[derive(Debug, PartialEq, Eq)]
pub struct Lanes {
    /// The first of them.
    pub at: usize,
    pub codes: Vec<i32>,
}

/// Elements of a block that share a factor.
#[derive(Debug, PartialEq, Eq)]
pub struct DotGroup {
    pub factor: Factor,
    pub minimum: Option<Minimum>,
    /// In the order in which they are summed.
    pub lanes: Vec<Lanes>,
}

/// The encodings whose rows are multiplied as they are.
pub open spec fn is_fused(f: Format) -> bool {
    match f {
        Format::Q4 | Format::Q8 | Format::Q4_0 | Format::Q8_0 | Format::Q4_K | Format::Q6_K => true,
        _ => false,
    }
}

/// The elements of a group.
pub open spec fn group_len(f: Format) -> int {
    if f is Q6_K {
        128
    } else {
        32
    }
}

/// The groups of a block.
pub open spec fn group_count(f: Format) -> int {
    block_len(f) as int / group_len(f)
}

/// The low nibbles of a block are its first half, the high ones its second.
pub open spec fn halves(f: Format) -> bool {
    f is Q4 || f is Q4_0
}

/// The first element of lanes `l` of group `g`. Where two halves share their
/// bytes they are summed in turn.
pub open spec fn lanes_start(f: Format, g: int, l: int) -> int {
    g * group_len(f) + if halves(f) {
        l % 2 * 16 + l / 2 * 8
    } else {
        l * 8
    }
}

/// The integer that a number is multiplied by.
pub open spec fn coefficient(e: Stored) -> int {
    match e {
        Stored::Scaled { code, .. } => code as int,
        Stored::Block8 { code, .. } => code as int,
        Stored::Block4 { code, .. } => code as int,
        Stored::Affine { code, .. } => code as int,
        Stored::Product { scale, code, .. } => scale * code,
        _ => 0,
    }
}

/// The factor that an element has with others of its group.
pub open spec fn factor_of(e: Stored) -> Factor {
    match e {
        Stored::Block8 { scale, .. } => Factor::By127 { scale },
        Stored::Block4 { scale, .. } => Factor::By8 { scale },
        Stored::Affine { d, scale, .. } => Factor::HalfTimes { d, scale },
        Stored::Scaled { d, .. } => Factor::Half { d },
        Stored::Product { d, .. } => Factor::Half { d },
        _ => Factor::Half { d: 0 },
    }
}

/// The minimum that an element has with others of its group.
pub open spec fn minimum_of(e: Stored) -> Option<Minimum> {
    match e {
        Stored::Affine { dmin, min, .. } => Some(Minimum { dmin, min }),
        _ => None,
    }
}

/// The lanes hold the integers of eight elements.
pub open spec fn are_lanes(v: Lanes, f: Format, b: Seq<u8>, base: int, at: int) -> bool {
    &&& v.at == at
    &&& v.codes@.len() == 8
    &&& forall|s: int|
        0 <= s < 8 ==> #[trigger] v.codes@[s] == coefficient(stored_at(f, b, base, at + s))
}

/// Group `g` of the block at `base`.
pub open spec fn is_group(v: DotGroup, f: Format, b: Seq<u8>, base: int, g: int) -> bool {
    let first = stored_at(f, b, base, g * group_len(f));
    &&& v.factor == factor_of(first)
    &&& v.minimum == minimum_of(first)
    &&& v.lanes@.len() == group_len(f) / 8
    &&& forall|l: int|
        0 <= l < v.lanes@.len() ==> are_lanes(
            #[trigger] v.lanes@[l],
            f,
            b,
            base,
            lanes_start(f, g, l),
        )
}

/// The groups of the block at `base`.
pub open spec fn are_groups(v: Seq<DotGroup>, f: Format, b: Seq<u8>, base: int) -> bool {
    &&& v.len() == group_count(f)
    &&& forall|g: int| 0 <= g < v.len() ==> is_group(#[trigger] v[g], f, b, base, g)
}

/// Scales are bytes and codes have six bits.
proof fn lemma_product_bounds(b: Seq<u8>, base: int, i: int)
    ensures
        stored_at(Format::Q6_K, b, base, i) matches Stored::Product { scale, code, .. } && -128
            <= scale < 128 && -32 <= code < 32,
{
    let half = i / 128;
    let part = i % 128 / 32;
    let l = i % 32;
    let low = nibble(b[base + half * 64 + (part % 2) * 32 + l], part >= 2);
    let high = bits_of(b[base + 128 + half * 32 + l], 2 * part, 4);
    assert(0 <= low < 16);
    assert(0 <= high < 4);
    let scale = signed(b[base + 192 + half * 8 + 2 * part + l / 16] as int, 0x80);
    assert(-128 <= scale < 128);
}

fn coefficient_at(f: Format, b: &[u8], base: usize, i: usize) -> (c: i32)
    requires
        is_fused(f),
        base + block_bytes(f) <= b@.len(),
        i < block_len(f),
    ensures
        c == coefficient(stored_at(f, b@, base as int, i as int)),
{
    match element(f, b, base, i) {
        Stored::Scaled { code, .. } => code,
        Stored::Block8 { code, .. } => code,
        Stored::Block4 { code, .. } => code,
        Stored::Affine { code, .. } => code,
        Stored::Product { scale, code, .. } => {
            proof {
                lemma_product_bounds(b@, base as int, i as int);
                assert(-4096 <= scale * code <= 4096) by (nonlinear_arith)
                    requires
                        -128 <= scale < 128,
                        -32 <= code < 32,
                ;
            }
            scale * code
        },
        _ => 0,
    }
}

fn lanes_at(f: Format, b: &[u8], base: usize, at: usize) -> (v: Lanes)
    requires
        is_fused(f),
        base + block_bytes(f) <= b@.len(),
        at + 8 <= block_len(f),
    ensures
        are_lanes(v, f, b@, base as int, at as int),
{
    let mut codes: Vec<i32> = Vec::new();
    let mut s: usize = 0;
    while s < 8
        invariant
            is_fused(f),
            base + block_bytes(f) <= b@.len(),
            at + 8 <= block_len(f),
            s <= 8,
            codes@.len() == s,
            forall|k: int|
                0 <= k < s ==> #[trigger] codes@[k] == coefficient(
                    stored_at(f, b@, base as int, at + k),
                ),
        decreases 8 - s,
    {
        codes.push(coefficient_at(f, b, base, at + s));
        s = s + 1;
    }
    Lanes { at, codes }
}

fn group_at(f: Format, b: &[u8], base: usize, g: usize) -> (v: DotGroup)
    requires
        is_fused(f),
        base + block_bytes(f) <= b@.len(),
        g < group_count(f),
    ensures
        is_group(v, f, b@, base as int, g as int),
{
    let len: usize = if f == Format::Q6_K {
        128
    } else {
        32
    };
    let split: bool = f == Format::Q4 || f == Format::Q4_0;
    let start: usize = g * len;
    let first = element(f, b, base, start);
    let factor = match first {
        Stored::Block8 { scale, .. } => Factor::By127 { scale },
        Stored::Block4 { scale, .. } => Factor::By8 { scale },
        Stored::Affine { d, scale, .. } => Factor::HalfTimes { d, scale },
        Stored::Scaled { d, .. } => Factor::Half { d },
        Stored::Product { d, .. } => Factor::Half { d },
        _ => Factor::Half { d: 0 },
    };
    let minimum = match first {
        Stored::Affine { dmin, min, .. } => Some(Minimum { dmin, min }),
        _ => None,
    };
    let mut lanes: Vec<Lanes> = Vec::new();
    let mut l: usize = 0;
    while l < len / 8
        invariant
            is_fused(f),
            base + block_bytes(f) <= b@.len(),
            g < group_count(f),
            len == group_len(f),
            split == halves(f),
            start == g * len,
            l <= len / 8,
            lanes@.len() == l,
            forall|k: int|
                0 <= k < l ==> are_lanes(
                    #[trigger] lanes@[k],
                    f,
                    b@,
                    base as int,
                    lanes_start(f, g as int, k),
                ),
        decreases len / 8 - l,
    {
        let at: usize = if split {
            start + l % 2 * 16 + l / 2 * 8
        } else {
            start + l * 8
        };
        lanes.push(lanes_at(f, b, base, at));
        l = l + 1;
    }
    DotGroup { factor, minimum, lanes }
}

/// The groups of the block at `base`, in the order in which they are summed.
pub fn block_groups(f: Format, b: &[u8], base: usize) -> (v: Vec<DotGroup>)
    requires
        is_fused(f),
        base + block_bytes(f) <= b@.len(),
    ensures
        are_groups(v@, f, b@, base as int),
{
    let count: usize = if f == Format::Q4_K {
        8
    } else if f == Format::Q6_K {
        2
    } else {
        1
    };
    let mut v: Vec<DotGroup> = Vec::new();
    let mut g: usize = 0;
    while g < count
        invariant
            is_fused(f),
            base + block_bytes(f) <= b@.len(),
            count == group_count(f),
            g <= count,
            v@.len() == g,
            forall|k: int| 0 <= k < g ==> is_group(#[trigger] v@[k], f, b@, base as int, k),
        decreases count - g,
    {
        v.push(group_at(f, b, base, g));
        g = g + 1;
    }
    v
}

/// The group, the lanes and the lane of an element.
pub open spec fn place(f: Format, i: int) -> (int, int, int) {
    let r = i % group_len(f);
    if halves(f) {
        (i / group_len(f), r % 16 / 8 * 2 + r / 16, r % 8)
    } else {
        (i / group_len(f), r / 8, r % 8)
    }
}

/// Every element of a block is summed once: it stands in one lane, and in no
/// other.
pub proof fn every_element_is_summed_once(f: Format, i: int)
    requires
        is_fused(f),
        0 <= i < block_len(f),
    ensures
        0 <= place(f, i).0 < group_count(f),
        0 <= place(f, i).1 < group_len(f) / 8,
        0 <= place(f, i).2 < 8,
        lanes_start(f, place(f, i).0, place(f, i).1) + place(f, i).2 == i,
        forall|g: int, l: int, s: int|
            0 <= g < group_count(f) && 0 <= l < group_len(f) / 8 && 0 <= s < 8
                && #[trigger] lanes_start(f, g, l) + s == i ==> #[trigger] at_place(g, l, s, f, i),
{
    assert forall|g: int, l: int, s: int|
        0 <= g < group_count(f) && 0 <= l < group_len(f) / 8 && 0 <= s < 8
            && #[trigger] lanes_start(f, g, l) + s == i implies #[trigger] at_place(
        g,
        l,
        s,
        f,
        i,
    ) by {}
}

/// The element's place is this one.
pub open spec fn at_place(g: int, l: int, s: int, f: Format, i: int) -> bool {
    place(f, i) == (g, l, s)
}

/// `factor * code`, less the minimum, is the number that the element stores.
pub open spec fn stands_for(
    factor: Factor,
    minimum: Option<Minimum>,
    code: int,
    e: Stored,
) -> bool {
    match e {
        Stored::Scaled { d, code: c } => factor == (Factor::Half { d }) && minimum is None && code
            == c,
        Stored::Product { d, scale, code: c } => factor == (Factor::Half { d }) && minimum is None
            && code == scale * c,
        Stored::Block8 { scale, code: c } => factor == (Factor::By127 { scale }) && minimum is None
            && code == c,
        Stored::Block4 { scale, code: c } => factor == (Factor::By8 { scale }) && minimum is None
            && code == c,
        Stored::Affine { d, scale, code: c, dmin, min } => factor == (Factor::HalfTimes { d, scale })
            && minimum == Some(Minimum { dmin, min }) && code == c,
        _ => false,
    }
}

proof fn lemma_shared(f: Format, b: Seq<u8>, base: int, i: int)
    requires
        is_fused(f),
        0 <= i < block_len(f),
    ensures
        factor_of(stored_at(f, b, base, i)) == factor_of(
            stored_at(f, b, base, i / group_len(f) * group_len(f)),
        ),
        minimum_of(stored_at(f, b, base, i)) == minimum_of(
            stored_at(f, b, base, i / group_len(f) * group_len(f)),
        ),
{
    if f is Q4_K {
        assert(i / 32 * 32 / 32 == i / 32);
    }
}

proof fn lemma_stands(f: Format, b: Seq<u8>, base: int, i: int)
    requires
        is_fused(f),
    ensures
        stands_for(
            factor_of(stored_at(f, b, base, i)),
            minimum_of(stored_at(f, b, base, i)),
            coefficient(stored_at(f, b, base, i)),
            stored_at(f, b, base, i),
        ),
{
}

proof fn lemma_decoded(f: Format, b: Seq<u8>, block: int, i: int)
    requires
        0 <= block,
        (block + 1) * block_bytes(f) <= b.len(),
        0 <= i < block_len(f),
    ensures
        0 <= block * block_len(f) + i < decoded(f, b).len(),
        decoded(f, b)[block * block_len(f) + i] == stored_at(f, b, block * block_bytes(f), i),
{
    let (len, bytes) = (block_len(f) as int, block_bytes(f) as int);
    let blocks = b.len() as int / bytes;
    assert(block + 1 <= blocks) by (nonlinear_arith)
        requires
            (block + 1) * bytes <= b.len(),
            blocks == b.len() as int / bytes,
            bytes > 0,
    ;
    assert((block + 1) * len <= blocks * len) by (nonlinear_arith)
        requires
            block + 1 <= blocks,
            len > 0,
    ;
    assert((block + 1) * len == block * len + len) by (nonlinear_arith);
    assert(0 <= block * len) by (nonlinear_arith)
        requires
            0 <= block,
            len > 0,
    ;
    vstd::arithmetic::div_mod::lemma_fundamental_div_mod_converse(block * len + i, len, block, i);
}

/// The product with the groups of a block is the product with its decoded
/// elements: each stands for one of them.
pub proof fn groups_stand_for_the_elements(
    v: Seq<DotGroup>,
    f: Format,
    b: Seq<u8>,
    block: int,
    i: int,
)
    requires
        is_fused(f),
        0 <= block,
        (block + 1) * block_bytes(f) <= b.len(),
        are_groups(v, f, b, block * block_bytes(f)),
        0 <= i < block_len(f),
    ensures
        0 <= block * block_len(f) + i < decoded(f, b).len(),
        stands_for(
            v[place(f, i).0].factor,
            v[place(f, i).0].minimum,
            v[place(f, i).0].lanes@[place(f, i).1].codes@[place(f, i).2] as int,
            decoded(f, b)[block * block_len(f) + i],
        ),
{
    let base = block * block_bytes(f);
    let (g, l, s) = place(f, i);
    every_element_is_summed_once(f, i);
    assert(is_group(v[g], f, b, base, g));
    assert(are_lanes(v[g].lanes@[l], f, b, base, lanes_start(f, g, l)));
    assert(v[g].lanes@[l].codes@[s] == coefficient(
        stored_at(f, b, base, lanes_start(f, g, l) + s),
    ));
    lemma_shared(f, b, base, i);
    lemma_stands(f, b, base, i);
    lemma_decoded(f, b, block, i);
}

} // verus!
