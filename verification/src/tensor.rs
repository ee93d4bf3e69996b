//! Tensor descriptions: element type, shape, and where the data is.

use vstd::prelude::*;

verus! {

/// Element types of the runtime.
#[allow(non_camel_case_types)]
#[derive(Clone, Copy, Debug, PartialEq, Eq, Structural)]
pub enum DType {
    F32,
    F16,
    BF16,
    /// 16.16 fixed point.
    U32,
    /// 8.8 fixed point.
    U16,
    /// Blocks of 32 signed bytes with a fixed-point scale.
    Q8,
    /// Blocks of 32 nibbles with a fixed-point scale.
    Q4,
    /// Blocks of 32 two-bit codes.
    Ternary,
    Q4_0,
    Q8_0,
    Q4_K,
    Q5_K,
    Q6_K,
}

/// What the planner needs to know of a tensor.
#[derive(Debug, PartialEq, Eq)]
pub struct TensorDesc {
    pub dtype: DType,
    pub shape: Vec<usize>,
    /// The data is in a buffer of the GPU backend.
    pub on_gpu: bool,
}

/// An entry of a model's tensor index.
#[derive(Debug, PartialEq, Eq)]
pub struct TensorMeta {
    pub name: String,
    pub shape: Vec<usize>,
    pub dtype: DType,
}

/// The number of elements of a tensor of this shape.
pub open spec fn product(shape: Seq<usize>) -> nat
    decreases shape.len(),
{
    if shape.len() == 0 {
        1
    } else {
        product(shape.drop_last()) * shape.last() as nat
    }
}

/// Multiplying the dimensions from the left stays in range.
pub open spec fn product_fits(shape: Seq<usize>) -> bool {
    forall|i: int| 0 <= i <= shape.len() ==> #[trigger] product(shape.take(i)) <= usize::MAX
}

/// The number of elements of a tensor of this shape.
pub fn numel(shape: &Vec<usize>) -> (n: usize)
    requires
        product_fits(shape@),
    ensures
        n == product(shape@),
{
    assert(shape@.take(shape@.len() as int) =~= shape@);
    product_of_first(shape, shape.len())
}

/// The product of the first `count` dimensions.
pub fn product_of_first(shape: &Vec<usize>, count: usize) -> (n: usize)
    requires
        count <= shape@.len(),
        product_fits(shape@.take(count as int)),
    ensures
        n == product(shape@.take(count as int)),
{
    let mut n: usize = 1;
    let mut i: usize = 0;
    let ghost head = shape@.take(count as int);
    while i < count
        invariant
            i <= count <= shape@.len(),
            head == shape@.take(count as int),
            product_fits(head),
            n == product(head.take(i as int)),
        decreases count - i,
    {
        proof {
            let next = head.take(i + 1);
            assert(next.drop_last() =~= head.take(i as int));
            assert(product(next) <= usize::MAX);
            assert(next.last() == shape@[i as int]);
        }
        n = n * shape[i];
        i = i + 1;
    }
    assert(head.take(count as int) =~= head);
    n
}

/// The shape without its last dimension.
pub open spec fn leading(shape: Seq<usize>) -> Seq<usize> {
    shape.take(shape.len() - 1)
}

/// Rows of a tensor: the product of all dimensions but the last, as the
/// kernels take it.
pub fn batch_of(shape: &Vec<usize>) -> (batch: u32)
    requires
        shape@.len() >= 1,
        product_fits(leading(shape@)),
    ensures
        batch == product(leading(shape@)) as u32,
{
    let n: usize = product_of_first(shape, shape.len() - 1);
    n as u32
}

/// A copy of a shape.
pub fn copy_shape(shape: &Vec<usize>) -> (out: Vec<usize>)
    ensures
        out@ == shape@,
{
    let mut out: Vec<usize> = Vec::new();
    let mut i: usize = 0;
    while i < shape.len()
        invariant
            i <= shape@.len(),
            out@ == shape@.take(i as int),
        decreases shape@.len() - i,
    {
        out.push(shape[i]);
        i = i + 1;
        assert(out@ =~= shape@.take(i as int));
    }
    assert(out@ =~= shape@);
    out
}

/// A copy of a shape with another last dimension.
pub fn with_last(shape: &Vec<usize>, last: usize) -> (out: Vec<usize>)
    requires
        shape@.len() >= 1,
    ensures
        out@ == leading(shape@).push(last),
{
    let mut out = copy_shape(shape);
    let n: usize = out.len();
    out.set(n - 1, last);
    assert(out@ =~= leading(shape@).push(last));
    out
}

} // verus!
