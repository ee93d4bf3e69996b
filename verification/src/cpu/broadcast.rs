//! Broadcasting of two tensors against each other.

use vstd::prelude::*;

use crate::backend::BackendError;
use crate::tensor::{copy_shape, product};

verus! {

/// The dimension at place `i` of a shape padded with ones in front to `rank`.
pub open spec fn padded(shape: Seq<usize>, rank: int, i: int) -> usize {
    if i < rank - shape.len() {
        1
    } else {
        shape[i - (rank - shape.len())]
    }
}

/// The rank that both shapes are padded to.
pub open spec fn common_rank(a: Seq<usize>, b: Seq<usize>) -> int {
    if a.len() >= b.len() {
        a.len() as int
    } else {
        b.len() as int
    }
}

/// Two dimensions go together: they are equal, or one of them is one.
pub open spec fn compatible(a: Seq<usize>, b: Seq<usize>) -> bool {
    let rank = common_rank(a, b);
    forall|i: int|
        0 <= i < rank ==> #[trigger] padded(a, rank, i) == padded(b, rank, i) || padded(a, rank, i)
            == 1 || padded(b, rank, i) == 1
}

/// The shape of the result.
pub open spec fn joined_shape(a: Seq<usize>, b: Seq<usize>) -> Seq<usize> {
    let rank = common_rank(a, b);
    Seq::new(
        rank as nat,
        |i: int|
            if padded(a, rank, i) == 1 {
                padded(b, rank, i)
            } else {
                padded(a, rank, i)
            },
    )
}

/// The number of elements below place `i` of a padded shape.
pub open spec fn volume(shape: Seq<usize>, rank: int, i: int) -> nat
    decreases rank - i,
{
    if i >= rank {
        1
    } else {
        padded(shape, rank, i) as nat * volume(shape, rank, i + 1)
    }
}

/// How far apart the elements along place `i` are: not at all where the
/// dimension is one.
pub open spec fn stride_at(shape: Seq<usize>, rank: int, i: int) -> nat {
    if padded(shape, rank, i) == 1 {
        0
    } else {
        volume(shape, rank, i + 1)
    }
}

/// All volumes of a padded shape are in range.
pub open spec fn volumes_fit(shape: Seq<usize>, rank: int) -> bool {
    forall|i: int| 0 <= i <= rank ==> #[trigger] volume(shape, rank, i) <= usize::MAX
}

fn dim_at(shape: &Vec<usize>, rank: usize, i: usize) -> (d: usize)
    requires
        shape@.len() <= rank,
        i < rank,
    ensures
        d == padded(shape@, rank as int, i as int),
{
    let missing: usize = rank - shape.len();
    if i < missing {
        1
    } else {
        shape[i - missing]
    }
}

fn strides(shape: &Vec<usize>, rank: usize) -> (s: Vec<usize>)
    requires
        shape@.len() <= rank,
        volumes_fit(shape@, rank as int),
    ensures
        s@.len() == rank,
        forall|i: int|
            0 <= i < rank ==> #[trigger] s@[i] == stride_at(shape@, rank as int, i),
{
    let mut s: Vec<usize> = Vec::new();
    let mut k: usize = 0;
    while k < rank
        invariant
            k <= rank,
            s@.len() == k,
        decreases rank - k,
    {
        s.push(0);
        k = k + 1;
    }
    let mut stride: usize = 1;
    let mut i: usize = rank;
    while i > 0
        invariant
            i <= rank,
            shape@.len() <= rank,
            volumes_fit(shape@, rank as int),
            s@.len() == rank,
            stride == volume(shape@, rank as int, i as int),
            forall|j: int|
                i <= j < rank ==> #[trigger] s@[j] == stride_at(shape@, rank as int, j),
        decreases i,
    {
        i = i - 1;
        let dim: usize = dim_at(shape, rank, i);
        s.set(
            i,
            if dim == 1 {
                0
            } else {
                stride
            },
        );
        assert(volume(shape@, rank as int, i as int) <= usize::MAX);
        stride = dim * stride;
    }
    s
}

/// The shape of the result and the strides of both inputs, or nothing where
/// the shapes do not go together.
pub fn broadcast_shapes(a: &Vec<usize>, b: &Vec<usize>) -> (r: Option<
    (Vec<usize>, Vec<usize>, Vec<usize>),
>)
    requires
        volumes_fit(a@, common_rank(a@, b@)),
        volumes_fit(b@, common_rank(a@, b@)),
    ensures
        r is Some == compatible(a@, b@),
        r matches Some(x) ==> {
            let rank = common_rank(a@, b@);
            &&& x.0@ == joined_shape(a@, b@)
            &&& x.1@.len() == rank && x.2@.len() == rank
            &&& forall|i: int| 0 <= i < rank ==> #[trigger] x.1@[i] == stride_at(a@, rank, i)
            &&& forall|i: int| 0 <= i < rank ==> #[trigger] x.2@[i] == stride_at(b@, rank, i)
        },
{
    let rank: usize = if a.len() >= b.len() {
        a.len()
    } else {
        b.len()
    };
    let mut out: Vec<usize> = Vec::new();
    let mut i: usize = 0;
    while i < rank
        invariant
            rank == common_rank(a@, b@),
            i <= rank,
            a@.len() <= rank,
            b@.len() <= rank,
            out@ == joined_shape(a@, b@).take(i as int),
            forall|j: int|
                0 <= j < i ==> #[trigger] padded(a@, rank as int, j) == padded(b@, rank as int, j)
                    || padded(a@, rank as int, j) == 1 || padded(b@, rank as int, j) == 1,
        decreases rank - i,
    {
        let x: usize = dim_at(a, rank, i);
        let y: usize = dim_at(b, rank, i);
        if x == y {
            out.push(x);
        } else if x == 1 {
            out.push(y);
        } else if y == 1 {
            out.push(x);
        } else {
            assert(!compatible(a@, b@));
            return None;
        }
        i = i + 1;
        assert(out@ =~= joined_shape(a@, b@).take(i as int));
    }
    assert(out@ =~= joined_shape(a@, b@));
    Some((out, strides(a, rank), strides(b, rank)))
}

/// Where the element at place `flat` of the result is found: its coordinates,
/// from dimension `i` on, times the strides.
pub open spec fn address(flat: int, shape: Seq<usize>, strides: Seq<usize>, i: int) -> int
    decreases shape.len() - i,
{
    if i < 0 || i >= shape.len() {
        0
    } else {
        let below = volume(shape, shape.len() as int, i + 1) as int;
        flat / below * strides[i] + address(flat % below, shape, strides, i + 1)
    }
}

/// Every address on the way stays in range.
pub open spec fn addresses_fit(flat: int, shape: Seq<usize>, strides: Seq<usize>) -> bool {
    0 <= address(flat, shape, strides, 0) <= usize::MAX
}

proof fn lemma_address_nonnegative(flat: int, shape: Seq<usize>, strides: Seq<usize>, i: int)
    requires
        0 <= flat,
        0 <= i,
        strides.len() == shape.len(),
        forall|j: int|
            0 <= j < shape.len() ==> #[trigger] volume(shape, shape.len() as int, j + 1) > 0,
    ensures
        address(flat, shape, strides, i) >= 0,
    decreases shape.len() - i,
{
    if i < shape.len() {
        let below = volume(shape, shape.len() as int, i + 1) as int;
        vstd::arithmetic::div_mod::lemma_div_pos_is_pos(flat, below);
        vstd::arithmetic::div_mod::lemma_mod_bound(flat, below);
        lemma_address_nonnegative(flat % below, shape, strides, i + 1);
        let c = flat / below;
        let s = strides[i] as int;
        assert(c * s >= 0) by (nonlinear_arith)
            requires
                c >= 0,
                s >= 0,
        ;
    }
}

/// Where the element at place `flat` of the result is found.
pub fn strided_index(flat: usize, out_shape: &Vec<usize>, strides: &Vec<usize>) -> (addr: usize)
    requires
        strides@.len() == out_shape@.len(),
        volumes_fit(out_shape@, out_shape@.len() as int),
        forall|j: int|
            0 <= j < out_shape@.len() ==> #[trigger] volume(
                out_shape@,
                out_shape@.len() as int,
                j + 1,
            ) > 0,
        addresses_fit(flat as int, out_shape@, strides@),
    ensures
        addr == address(flat as int, out_shape@, strides@, 0),
{
    let rank: usize = out_shape.len();
    let mut rem: usize = flat;
    let mut addr: usize = 0;
    let mut i: usize = 0;
    while i < rank
        invariant
            rank == out_shape@.len(),
            strides@.len() == rank,
            i <= rank,
            volumes_fit(out_shape@, rank as int),
            forall|j: int|
                0 <= j < rank ==> #[trigger] volume(out_shape@, rank as int, j + 1) > 0,
            addresses_fit(flat as int, out_shape@, strides@),
            addr + address(rem as int, out_shape@, strides@, i as int) == address(
                flat as int,
                out_shape@,
                strides@,
                0,
            ),
        decreases rank - i,
    {
        let below: usize = volume_from(out_shape, i + 1);
        let coord: usize = rem / below;
        proof {
            assert(volume(out_shape@, rank as int, i + 1) > 0);
            vstd::arithmetic::div_mod::lemma_mod_bound(rem as int, below as int);
            lemma_address_nonnegative(
                rem as int % below as int,
                out_shape@,
                strides@,
                i + 1,
            );
            let s = strides@[i as int] as int;
            assert(coord * s >= 0) by (nonlinear_arith)
                requires
                    coord >= 0,
                    s >= 0,
            ;
        }
        addr = addr + coord * strides[i];
        rem = rem % below;
        i = i + 1;
    }
    addr
}

fn volume_from(shape: &Vec<usize>, from: usize) -> (n: usize)
    requires
        from <= shape@.len(),
        volumes_fit(shape@, shape@.len() as int),
    ensures
        n == volume(shape@, shape@.len() as int, from as int),
{
    let rank: usize = shape.len();
    let mut n: usize = 1;
    let mut i: usize = rank;
    while i > from
        invariant
            from <= i <= rank,
            rank == shape@.len(),
            volumes_fit(shape@, rank as int),
            n == volume(shape@, rank as int, i as int),
        decreases i,
    {
        i = i - 1;
        assert(volume(shape@, rank as int, i as int) <= usize::MAX);
        assert(padded(shape@, rank as int, i as int) == shape@[i as int]);
        n = shape[i] * n;
    }
    n
}

/// Padding with ones does not change the number of elements.
proof fn lemma_padding(shape: Seq<usize>, rank: int, i: int)
    requires
        shape.len() <= rank,
        0 <= i <= rank - shape.len(),
    ensures
        volume(shape, rank, i) == volume(shape, rank, rank - shape.len()),
    decreases rank - i,
{
    if i < rank - shape.len() {
        lemma_padding(shape, rank, i + 1);
        let v = volume(shape, rank, i + 1);
        assert(padded(shape, rank, i) as nat * v == v) by (nonlinear_arith)
            requires
                padded(shape, rank, i) == 1,
        ;
    }
}

/// The volume of a shape is the product of its dimensions.
pub proof fn lemma_volume(shape: Seq<usize>, rank: int)
    requires
        shape.len() <= rank,
    ensures
        volume(shape, rank, 0) == product(shape),
{
    lemma_padding(shape, rank, 0);
    lemma_volume_take(shape, rank, rank - shape.len());
    assert(shape.take(0) =~= Seq::<usize>::empty());
    let v = volume(shape, rank, rank - shape.len());
    assert(product(shape.take(0)) * v == v) by (nonlinear_arith)
        requires
            product(shape.take(0)) == 1,
    ;
}

proof fn lemma_volume_take(shape: Seq<usize>, rank: int, i: int)
    requires
        shape.len() <= rank,
        rank - shape.len() <= i <= rank,
    ensures
        product(shape) == product(shape.take(i - (rank - shape.len()))) * volume(shape, rank, i),
    decreases rank - i,
{
    let k = i - (rank - shape.len());
    if i >= rank {
        assert(shape.take(k) =~= shape);
        assert(product(shape) * 1 == product(shape)) by (nonlinear_arith);
    } else {
        lemma_volume_take(shape, rank, i + 1);
        let next = shape.take(k + 1);
        assert(next.drop_last() =~= shape.take(k));
        assert(next.last() == shape[k]);
        let p = product(shape.take(k));
        let d = shape[k] as nat;
        let v = volume(shape, rank, i + 1);
        assert((p * d) * v == p * (d * v)) by (nonlinear_arith);
        assert(padded(shape, rank, i) == shape[k]);
        assert(volume(shape, rank, i) == d * v);
        assert(product(next) == p * d);
    }
}

/// Broadcasting never reads outside an input: every address of an input lies
/// below its number of elements.
pub proof fn addresses_are_in_range(
    flat: int,
    input: Seq<usize>,
    out: Seq<usize>,
    strides: Seq<usize>,
    i: int,
)
    requires
        input.len() <= out.len(),
        strides.len() == out.len(),
        0 <= i <= out.len(),
        0 <= flat < volume(out, out.len() as int, i),
        forall|j: int|
            0 <= j < out.len() ==> #[trigger] strides[j] == stride_at(input, out.len() as int, j),
        forall|j: int|
            0 <= j < out.len() ==> padded(input, out.len() as int, j) == #[trigger] out[j]
                || padded(input, out.len() as int, j) == 1,
    ensures
        0 <= address(flat, out, strides, i) < volume(input, out.len() as int, i),
    decreases out.len() - i,
{
    let rank = out.len() as int;
    if i < rank {
        let below = volume(out, rank, i + 1) as int;
        let d = out[i] as int;
        assert(padded(out, rank, i) == out[i]);
        assert(flat < d * below);
        if below <= 0 {
            assert(d * below == 0) by (nonlinear_arith)
                requires
                    below == 0,
            ;
        }
        assert(below > 0);
        vstd::arithmetic::div_mod::lemma_fundamental_div_mod(flat, below);
        vstd::arithmetic::div_mod::lemma_mod_bound(flat, below);
        vstd::arithmetic::div_mod::lemma_div_pos_is_pos(flat, below);
        let c = flat / below;
        let rest = address(flat % below, out, strides, i + 1);
        assert(strides[i] == stride_at(input, rank, i));
        addresses_are_in_range(flat % below, input, out, strides, i + 1);
        let v = volume(input, rank, i + 1) as int;
        if padded(input, rank, i) == 1 {
            assert(c * 0 == 0);
            assert(volume(input, rank, i) == 1 * volume(input, rank, i + 1));
        } else {
            assert(padded(input, rank, i) == d);
            assert(c < d) by (nonlinear_arith)
                requires
                    flat < d * below,
                    flat == below * c + flat % below,
                    flat % below >= 0,
                    below > 0,
            ;
            assert(c * v + rest < d * v) by (nonlinear_arith)
                requires
                    c + 1 <= d,
                    0 <= rest < v,
            ;
            assert(c * v >= 0) by (nonlinear_arith)
                requires
                    c >= 0,
                    v >= 0,
            ;
        }
    }
}

proof fn lemma_volumes_positive(shape: Seq<usize>, rank: int, i: int)
    requires
        0 <= i <= rank,
        volume(shape, rank, 0) > 0,
    ensures
        volume(shape, rank, i) > 0,
    decreases i,
{
    if i > 0 {
        lemma_volumes_positive(shape, rank, i - 1);
        let d = padded(shape, rank, i - 1) as nat;
        let v = volume(shape, rank, i);
        assert(v > 0) by (nonlinear_arith)
            requires
                d * v > 0,
        ;
    }
}

/// Which elements of two tensors meet in each element of the result.
#[derive(Debug, PartialEq, Eq)]
pub struct Pairing {
    pub shape: Vec<usize>,
    /// Places in the first and in the second input.
    pub pairs: Vec<(usize, usize)>,
}

/// The inputs' volumes and that of the result are in range.
pub open spec fn pairing_fits(a: Seq<usize>, b: Seq<usize>) -> bool {
    let rank = common_rank(a, b);
    &&& volumes_fit(a, rank)
    &&& volumes_fit(b, rank)
    &&& volumes_fit(joined_shape(a, b), rank)
}

/// The strides of a shape padded to `rank`, in machine words.
pub open spec fn machine_strides(shape: Seq<usize>, rank: int) -> Seq<usize> {
    Seq::new(rank as nat, |i: int| stride_at(shape, rank, i) as usize)
}

/// The pairing of two tensors.
pub open spec fn is_pairing(p: Pairing, a: Seq<usize>, b: Seq<usize>) -> bool {
    let rank = common_rank(a, b);
    let out = joined_shape(a, b);
    &&& p.shape@ == out
    &&& p.pairs@.len() == volume(out, rank, 0)
    &&& forall|i: int|
        0 <= i < p.pairs@.len() ==> {
            &&& (#[trigger] p.pairs@[i]).0 == address(i, out, machine_strides(a, rank), 0)
            &&& p.pairs@[i].1 == address(i, out, machine_strides(b, rank), 0)
            &&& p.pairs@[i].0 < volume(a, rank, 0)
            &&& p.pairs@[i].1 < volume(b, rank, 0)
        }
}

/// Pairs the elements of two tensors; shapes that do not go together are
/// refused.
pub fn binary_broadcast(a: &Vec<usize>, b: &Vec<usize>) -> (r: Result<Pairing, BackendError>)
    requires
        pairing_fits(a@, b@),
    ensures
        if compatible(a@, b@) {
            r matches Ok(p) && is_pairing(p, a@, b@)
        } else {
            r matches Err(BackendError::ShapeMismatch { op, expected, got }) && op@
                == "binary_broadcast"@ && expected@ == a@ && got@ == b@
        },
{
    let (shape, a_strides, b_strides) = match broadcast_shapes(a, b) {
        Some(x) => x,
        None => {
            return Err(
                BackendError::ShapeMismatch {
                    op: "binary_broadcast",
                    expected: copy_shape(a),
                    got: copy_shape(b),
                },
            );
        },
    };
    let ghost rank = common_rank(a@, b@);
    proof {
        assert(a_strides@ =~= machine_strides(a@, rank)) by {
            assert forall|i: int| 0 <= i < rank implies #[trigger] a_strides@[i]
                == machine_strides(a@, rank)[i] by {
                assert(volume(a@, rank, i + 1) <= usize::MAX);
            }
        }
        assert(b_strides@ =~= machine_strides(b@, rank)) by {
            assert forall|i: int| 0 <= i < rank implies #[trigger] b_strides@[i]
                == machine_strides(b@, rank)[i] by {
                assert(volume(b@, rank, i + 1) <= usize::MAX);
            }
        }
    }
    let n: usize = volume_from(&shape, 0);
    let mut pairs: Vec<(usize, usize)> = Vec::new();
    let mut i: usize = 0;
    while i < n
        invariant
            i <= n,
            rank == common_rank(a@, b@),
            compatible(a@, b@),
            pairing_fits(a@, b@),
            shape@ == joined_shape(a@, b@),
            n == volume(shape@, rank, 0),
            a_strides@ == machine_strides(a@, rank),
            b_strides@ == machine_strides(b@, rank),
            forall|k: int| 0 <= k < rank ==> #[trigger] a_strides@[k] == stride_at(a@, rank, k),
            forall|k: int| 0 <= k < rank ==> #[trigger] b_strides@[k] == stride_at(b@, rank, k),
            pairs@.len() == i,
            forall|k: int|
                0 <= k < i ==> {
                    &&& (#[trigger] pairs@[k]).0 == address(k, shape@, a_strides@, 0)
                    &&& pairs@[k].1 == address(k, shape@, b_strides@, 0)
                    &&& pairs@[k].0 < volume(a@, rank, 0)
                    &&& pairs@[k].1 < volume(b@, rank, 0)
                },
        decreases n - i,
    {
        proof {
            assert forall|j: int| 0 <= j < shape@.len() implies #[trigger] volume(
                shape@,
                shape@.len() as int,
                j + 1,
            ) > 0 by {
                lemma_volumes_positive(shape@, rank, j + 1);
            }
            assert forall|j: int| 0 <= j < shape@.len() implies padded(a@, rank, j)
                == #[trigger] shape@[j] || padded(a@, rank, j) == 1 by {}
            assert forall|j: int| 0 <= j < shape@.len() implies padded(b@, rank, j)
                == #[trigger] shape@[j] || padded(b@, rank, j) == 1 by {
                assert(padded(a@, rank, j) == padded(b@, rank, j) || padded(a@, rank, j) == 1
                    || padded(b@, rank, j) == 1);
            }
            addresses_are_in_range(i as int, a@, shape@, a_strides@, 0);
            addresses_are_in_range(i as int, b@, shape@, b_strides@, 0);
            assert(volume(a@, rank, 0) <= usize::MAX);
            assert(volume(b@, rank, 0) <= usize::MAX);
        }
        let x: usize = strided_index(i, &shape, &a_strides);
        let y: usize = strided_index(i, &shape, &b_strides);
        pairs.push((x, y));
        i = i + 1;
    }
    Ok(Pairing { shape, pairs })
}

/// The strides of a shape lead every element to its own place.
proof fn lemma_own_place(shape: Seq<usize>, flat: int, i: int)
    requires
        0 <= i <= shape.len(),
        0 <= flat < volume(shape, shape.len() as int, i),
        volumes_fit(shape, shape.len() as int),
    ensures
        address(flat, shape, machine_strides(shape, shape.len() as int), i) == flat,
    decreases shape.len() - i,
{
    let rank = shape.len() as int;
    let strides = machine_strides(shape, rank);
    if i < rank {
        let below = volume(shape, rank, i + 1) as int;
        let d = shape[i] as int;
        assert(padded(shape, rank, i) == shape[i]);
        assert(flat < d * below);
        if below <= 0 {
            assert(d * below == 0) by (nonlinear_arith)
                requires
                    below == 0,
            ;
        }
        assert(below > 0);
        assert(below <= usize::MAX);
        vstd::arithmetic::div_mod::lemma_fundamental_div_mod(flat, below);
        vstd::arithmetic::div_mod::lemma_mod_bound(flat, below);
        vstd::arithmetic::div_mod::lemma_div_pos_is_pos(flat, below);
        lemma_own_place(shape, flat % below, i + 1);
        let c = flat / below;
        if d == 1 {
            assert(flat < below) by (nonlinear_arith)
                requires
                    flat < d * below,
                    d == 1,
            ;
            vstd::arithmetic::div_mod::lemma_basic_div(flat, below);
            vstd::arithmetic::div_mod::lemma_small_mod(flat as nat, below as nat);
            assert(c * strides[i] == 0) by (nonlinear_arith)
                requires
                    c == 0,
            ;
        } else {
            assert(strides[i] == below);
            assert(c * strides[i] == below * c) by (nonlinear_arith)
                requires
                    strides[i] == below,
            ;
        }
    }
}

/// Tensors of one shape are paired element by element.
pub proof fn equal_shapes_pair_in_place(p: Pairing, a: Seq<usize>, i: int)
    requires
        pairing_fits(a, a),
        is_pairing(p, a, a),
        0 <= i < p.pairs@.len(),
    ensures
        p.pairs@[i] == (i as usize, i as usize),
        p.pairs@.len() == product(a),
{
    assert(joined_shape(a, a) =~= a) by {
        assert forall|k: int| 0 <= k < a.len() implies joined_shape(a, a)[k] == a[k] by {
            assert(padded(a, a.len() as int, k) == a[k]);
        }
    }
    lemma_own_place(a, i, 0);
    lemma_volume(a, a.len() as int);
}

} // verus!
