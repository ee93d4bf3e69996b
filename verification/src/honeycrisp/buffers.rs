//! Buffers: the pool of scratch buffers, transposed weights, and where the
//! data of a tensor comes from.

use vstd::prelude::*;
use vstd::arithmetic::power2::pow2;

use crate::backend::BackendError;
use crate::tensor::DType;

verus! {

/// The number is a power of two.
pub open spec fn is_power_of_two(n: int) -> bool {
    exists|k: nat| n == #[trigger] pow2(k)
}

/// The size class of a buffer: the least power of two, from 4096 on, that is
/// no less than the size.
pub open spec fn is_class_of(class: int, size: int) -> bool {
    &&& is_power_of_two(class)
    &&& class >= size
    &&& class >= 4096
    &&& class > 4096 ==> class < 2 * size
}

/// The largest size that has a class.
pub open spec fn size_limit() -> int {
    usize::MAX / 2 + 1
}

/// The size class of a buffer of so many bytes.
pub fn class_for(size: usize) -> (class: usize)
    requires
        size <= size_limit(),
    ensures
        is_class_of(class as int, size as int),
{
    let mut class: usize = 4096;
    let ghost mut k: nat = 12;
    proof {
        vstd::arithmetic::power2::lemma2_to64();
    }
    while class < size
        invariant
            size <= size_limit(),
            class == pow2(k),
            class >= 4096,
            class > 4096 ==> class < 2 * size,
        decreases usize::MAX - class,
    {
        proof {
            vstd::arithmetic::power2::lemma_pow2_unfold(k + 1);
            k = k + 1;
        }
        class = 2 * class;
    }
    assert(class == pow2(k));
    class
}

/// A size has one class only.
pub proof fn class_is_unique(a: int, b: int, size: int)
    requires
        is_class_of(a, size),
        is_class_of(b, size),
    ensures
        a == b,
{
    let j = choose|k: nat| a == #[trigger] pow2(k);
    let k = choose|k: nat| b == #[trigger] pow2(k);
    if j < k {
        lemma_doubled(j, k);
    }
    if k < j {
        lemma_doubled(k, j);
    }
}

proof fn lemma_doubled(j: nat, k: nat)
    requires
        j < k,
    ensures
        pow2(k) >= 2 * pow2(j),
{
    vstd::arithmetic::power2::lemma_pow2_unfold(j + 1);
    if j + 1 < k {
        vstd::arithmetic::power2::lemma_pow2_strictly_increases(j + 1, k);
    }
}

/// A buffer that waits to be used again. Buffers are known by number.
#[derive(Clone, Copy, Debug, PartialEq, Eq, Structural)]
pub struct Pooled {
    pub class: usize,
    pub buffer: usize,
    pub size: usize,
}

/// Buffers that wait to be used again, the last one returned last.
#[derive(Debug, PartialEq, Eq)]
pub struct BufferPool {
    pub waiting: Vec<Pooled>,
}

/// The last buffer, before place `to`, of a class.
pub open spec fn last_of(waiting: Seq<Pooled>, class: usize, to: int) -> Option<int>
    decreases to,
{
    if to <= 0 {
        None
    } else if waiting[to - 1].class == class {
        Some(to - 1)
    } else {
        last_of(waiting, class, to - 1)
    }
}

/// Every buffer has the size of its class, as those have that the pool's
/// owner allocates.
pub open spec fn sizes_are_classes(waiting: Seq<Pooled>) -> bool {
    forall|i: int| 0 <= i < waiting.len() ==> (#[trigger] waiting[i]).size == waiting[i].class
}

/// Where a scratch buffer comes from.
#[derive(Clone, Copy, Debug, PartialEq, Eq, Structural)]
pub enum Scratch {
    /// A buffer that waited.
    Reuse(usize),
    /// A new buffer of so many bytes.
    Allocate(usize),
}

impl BufferPool {
    /// A pool without buffers.
    pub fn new() -> (p: Self)
        ensures
            p.waiting@ == Seq::<Pooled>::empty(),
    {
        BufferPool { waiting: Vec::new() }
    }

    /// The class of a buffer; see [`class_for`].
    pub fn class_for(size: usize) -> (class: usize)
        requires
            size <= size_limit(),
        ensures
            is_class_of(class as int, size as int),
    {
        class_for(size)
    }

    /// Takes the buffer of the class of this size that was returned last.
    pub fn pop(&mut self, size: usize) -> (r: Option<usize>)
        requires
            size <= size_limit(),
        ensures
            exists|class: usize|
                is_class_of(class as int, size as int) && match last_of(
                    old(self).waiting@,
                    class,
                    old(self).waiting@.len() as int,
                ) {
                    Some(i) => 0 <= i < old(self).waiting@.len() && r == Some(
                        old(self).waiting@[i].buffer,
                    ) && final(self).waiting@ == old(self).waiting@.remove(i),
                    None => r is None && final(self).waiting@ == old(self).waiting@,
                },
    {
        let class: usize = class_for(size);
        let ghost all = self.waiting@;
        let mut i: usize = self.waiting.len();
        while i > 0
            invariant
                self.waiting@ == all,
                all == old(self).waiting@,
                i <= all.len(),
                is_class_of(class as int, size as int),
                last_of(all, class, all.len() as int) == last_of(all, class, i as int),
            decreases i,
        {
            if self.waiting[i - 1].class == class {
                let found = self.waiting.remove(i - 1);
                return Some(found.buffer);
            }
            i = i - 1;
        }
        None
    }

    /// Returns a buffer of this size to the pool.
    pub fn push(&mut self, buffer: usize, size: usize)
        requires
            size <= size_limit(),
        ensures
            exists|class: usize|
                is_class_of(class as int, size as int) && final(self).waiting@ == old(
                    self,
                ).waiting@.push(Pooled { class, buffer, size }),
    {
        let class: usize = class_for(size);
        self.waiting.push(Pooled { class, buffer, size });
    }

    /// A scratch buffer of at least so many bytes: one that waited, or a new
    /// one of the size of the class.
    pub fn take_scratch(&mut self, size: usize) -> (s: Scratch)
        requires
            size <= size_limit(),
        ensures
            exists|class: usize|
                is_class_of(class as int, size as int) && match last_of(
                    old(self).waiting@,
                    class,
                    old(self).waiting@.len() as int,
                ) {
                    Some(i) => 0 <= i < old(self).waiting@.len() && s == Scratch::Reuse(
                        old(self).waiting@[i].buffer,
                    ) && final(self).waiting@ == old(self).waiting@.remove(i),
                    None => s == Scratch::Allocate(class) && final(self).waiting@ == old(
                        self,
                    ).waiting@,
                },
    {
        let ghost all = self.waiting@;
        match self.pop(size) {
            Some(b) => Scratch::Reuse(b),
            None => {
                let class: usize = class_for(size);
                proof {
                    let c = choose|c: usize|
                        is_class_of(c as int, size as int) && last_of(
                            all,
                            c,
                            all.len() as int,
                        ) is None;
                    class_is_unique(c as int, class as int, size as int);
                }
                Scratch::Allocate(class)
            },
        }
    }
}

proof fn lemma_last(waiting: Seq<Pooled>, class: usize, to: int)
    requires
        0 <= to <= waiting.len(),
    ensures
        last_of(waiting, class, to) matches Some(i) ==> 0 <= i < to && waiting[i].class == class,
    decreases to,
{
    if to > 0 && waiting[to - 1].class != class {
        lemma_last(waiting, class, to - 1);
    }
}

/// A buffer from the pool is large enough, as long as every buffer has the
/// size of its class.
pub proof fn pooled_buffers_are_large_enough(waiting: Seq<Pooled>, class: usize, size: int)
    requires
        sizes_are_classes(waiting),
        is_class_of(class as int, size),
    ensures
        last_of(waiting, class, waiting.len() as int) matches Some(i) ==> waiting[i].size >= size,
{
    lemma_last(waiting, class, waiting.len() as int);
}

/// The buffer that was returned last is the first to be used again.
pub proof fn last_returned_is_reused(waiting: Seq<Pooled>, p: Pooled)
    ensures
        last_of(waiting.push(p), p.class, waiting.len() as int + 1) == Some(
            waiting.len() as int,
        ),
{
}

/// The bytes of one block.
pub const BLOCK_BYTES: usize = 34;

/// Block `(block, row)` of the result is block `(row, block)` of the source.
pub open spec fn is_transposed(dst: Seq<u8>, src: Seq<u8>, rows: int, blocks: int) -> bool {
    &&& dst.len() == rows * blocks * 34
    &&& forall|row: int, block: int, k: int|
        0 <= row < rows && 0 <= block < blocks && 0 <= k < 34 ==> #[trigger] block_byte(
            dst,
            block,
            row,
            rows,
            k,
        ) == block_byte(src, row, block, blocks, k)
}

/// Byte `k` of the block at a row and a column of a table of blocks.
pub open spec fn block_byte(b: Seq<u8>, row: int, column: int, width: int, k: int) -> u8 {
    b[(row * width + column) * 34 + k]
}

proof fn lemma_place(row: int, rows: int, column: int, width: int, k: int)
    requires
        0 <= row < rows,
        0 <= column < width,
        0 <= k < 34,
    ensures
        0 <= (row * width + column) * 34 + k < rows * width * 34,
        0 <= row * width + column,
{
    assert(row * width >= 0) by (nonlinear_arith)
        requires
            row >= 0,
            width >= 0,
    ;
    assert(row * width + width <= rows * width) by (nonlinear_arith)
        requires
            row + 1 <= rows,
            width >= 0,
    ;
}

/// Puts the blocks of one column next to each other.
pub fn transpose_q8_blocks(src: &[u8], n_rows: usize, n_blk: usize) -> (dst: Vec<u8>)
    requires
        src@.len() == n_rows * n_blk * 34,
        n_rows * n_blk * 34 <= usize::MAX,
    ensures
        is_transposed(dst@, src@, n_rows as int, n_blk as int),
{
    let mut dst: Vec<u8> = Vec::new();
    let mut block: usize = 0;
    assert(0 * n_rows == 0) by (nonlinear_arith);
    while block < n_blk
        invariant
            block <= n_blk,
            src@.len() == n_rows * n_blk * 34,
            n_rows * n_blk * 34 <= usize::MAX,
            dst@.len() == block * n_rows * 34,
            forall|row: int, b: int, k: int|
                0 <= row < n_rows && 0 <= b < block && 0 <= k < 34 ==> #[trigger] block_byte(
                    dst@,
                    b,
                    row,
                    n_rows as int,
                    k,
                ) == block_byte(src@, row, b, n_blk as int, k),
        decreases n_blk - block,
    {
        let mut row: usize = 0;
        while row < n_rows
            invariant
                block < n_blk,
                row <= n_rows,
                src@.len() == n_rows * n_blk * 34,
                n_rows * n_blk * 34 <= usize::MAX,
                dst@.len() == (block * n_rows + row) * 34,
                forall|r: int, b: int, k: int|
                    0 <= r < n_rows && 0 <= b <= block && (b < block || r < row) && 0 <= k < 34
                        ==> #[trigger] block_byte(dst@, b, r, n_rows as int, k) == block_byte(
                        src@,
                        r,
                        b,
                        n_blk as int,
                        k,
                    ),
            decreases n_rows - row,
        {
            proof {
                lemma_place(row as int, n_rows as int, block as int, n_blk as int, 33);
                assert(n_rows * n_blk <= usize::MAX);
            }
            let from: usize = (row * n_blk + block) * 34;
            let mut k: usize = 0;
            while k < 34
                invariant
                    block < n_blk,
                    row < n_rows,
                    k <= 34,
                    from == (row * n_blk + block) * 34,
                    from + 34 <= src@.len(),
                    src@.len() == n_rows * n_blk * 34,
                    n_rows * n_blk * 34 <= usize::MAX,
                    dst@.len() == (block * n_rows + row) * 34 + k,
                    forall|r: int, b: int, i: int|
                        0 <= r < n_rows && 0 <= b <= block && (b < block || r < row || (r == row
                            && i < k)) && 0 <= i < 34 ==> #[trigger] block_byte(
                            dst@,
                            b,
                            r,
                            n_rows as int,
                            i,
                        ) == block_byte(src@, r, b, n_blk as int, i),
                decreases 34 - k,
            {
                let ghost before = dst@;
                dst.push(src[from + k]);
                proof {
                    assert forall|r: int, b: int, i: int|
                        0 <= r < n_rows && 0 <= b <= block && (b < block || r < row || (r == row
                            && i < k + 1)) && 0 <= i < 34 implies #[trigger] block_byte(
                        dst@,
                        b,
                        r,
                        n_rows as int,
                        i,
                    ) == block_byte(src@, r, b, n_blk as int, i) by {
                        let place = (b * n_rows + r) * 34 + i;
                        if b == block && r == row && i == k {
                            assert(place == before.len());
                        } else {
                            lemma_before(
                                b,
                                r,
                                i,
                                block as int,
                                row as int,
                                k as int,
                                n_rows as int,
                            );
                            assert(before[place] == dst@[place]);
                            assert(block_byte(before, b, r, n_rows as int, i) == before[place]);
                        }
                    }
                }
                k = k + 1;
            }
            row = row + 1;
        }
        proof {
            assert((block + 1) * n_rows == block * n_rows + n_rows) by (nonlinear_arith);
        }
        block = block + 1;
    }
    assert(n_blk * n_rows == n_rows * n_blk) by (nonlinear_arith);
    dst
}

proof fn lemma_before(b: int, r: int, i: int, block: int, row: int, k: int, rows: int)
    requires
        0 <= r < rows,
        0 <= row < rows,
        0 <= b <= block,
        0 <= i < 34,
        0 <= k < 34,
        b < block || r < row || (r == row && i < k),
        b == block ==> r <= row,
    ensures
        0 <= (b * rows + r) * 34 + i < (block * rows + row) * 34 + k,
{
    lemma_place(b, block + 1, r, rows, i);
    if b < block {
        assert(b * rows + rows <= block * rows) by (nonlinear_arith)
            requires
                b + 1 <= block,
                rows >= 0,
        ;
    }
}

/// Transposing twice gives back every block.
pub proof fn transposed_twice_is_unchanged(
    src: Seq<u8>,
    once: Seq<u8>,
    twice: Seq<u8>,
    rows: int,
    blocks: int,
    row: int,
    block: int,
    k: int,
)
    requires
        is_transposed(once, src, rows, blocks),
        is_transposed(twice, once, blocks, rows),
        0 <= row < rows,
        0 <= block < blocks,
        0 <= k < 34,
    ensures
        block_byte(twice, row, block, blocks, k) == block_byte(src, row, block, blocks, k),
{
    assert(block_byte(twice, row, block, blocks, k) == block_byte(once, block, row, rows, k));
}

/// Where the data of a tensor is.
#[derive(Clone, Copy, Debug, PartialEq, Eq, Structural)]
pub enum Place {
    Host,
    /// In a buffer of this backend.
    Here,
    /// In a buffer of another backend.
    Elsewhere,
}

/// How a kernel gets at the data of a tensor.
#[derive(Clone, Copy, Debug, PartialEq, Eq, Structural)]
pub enum BufSource {
    /// Copied into a new buffer.
    Upload,
    /// The buffer that it is in.
    Borrow,
    /// Copied from its buffer into a new one.
    Copy,
}

/// A message of the backend.
pub open spec fn is_internal(e: BackendError, message: Seq<char>) -> bool {
    e matches BackendError::Internal(m) && m@ == message
}

/// How a kernel gets at the data of a tensor.
pub fn buf_ref(place: Place) -> (r: Result<BufSource, BackendError>)
    ensures
        match place {
            Place::Host => r matches Ok(s) && s == BufSource::Upload,
            Place::Here => r matches Ok(s) && s == BufSource::Borrow,
            Place::Elsewhere => r matches Err(e) && is_internal(
                e,
                "honeycrisp: tensor on a different backend"@,
            ),
        },
{
    match place {
        Place::Host => Ok(BufSource::Upload),
        Place::Here => Ok(BufSource::Borrow),
        Place::Elsewhere => Err(
            BackendError::Internal("honeycrisp: tensor on a different backend".to_owned()),
        ),
    }
}

/// How the data of a tensor gets into a buffer of its own.
pub fn upload_tensor(place: Place) -> (r: Result<BufSource, BackendError>)
    ensures
        match place {
            Place::Host => r matches Ok(s) && s == BufSource::Upload,
            Place::Here => r matches Ok(s) && s == BufSource::Copy,
            Place::Elsewhere => r matches Err(e) && is_internal(
                e,
                "honeycrisp: tensor on a different backend"@,
            ),
        },
{
    match place {
        Place::Host => Ok(BufSource::Upload),
        Place::Here => Ok(BufSource::Copy),
        Place::Elsewhere => Err(
            BackendError::Internal("honeycrisp: tensor on a different backend".to_owned()),
        ),
    }
}

/// Whether the data of a tensor must be read from the GPU to have it on the
/// host.
pub fn download_tensor(place: Place, dtype: DType) -> (r: Result<bool, BackendError>)
    ensures
        match place {
            Place::Host => r matches Ok(b) && !b,
            Place::Here => if dtype == DType::F32 {
                r matches Ok(b) && b
            } else {
                r matches Err(e) && is_internal(
                    e,
                    "honeycrisp: non-F32 GPU download not implemented"@,
                )
            },
            Place::Elsewhere => r matches Err(e) && is_internal(
                e,
                "honeycrisp: unknown backend tensor"@,
            ),
        },
{
    match place {
        Place::Host => Ok(false),
        Place::Here => if dtype == DType::F32 {
            Ok(true)
        } else {
            Err(
                BackendError::Internal(
                    "honeycrisp: non-F32 GPU download not implemented".to_owned(),
                ),
            )
        },
        Place::Elsewhere => Err(
            BackendError::Internal("honeycrisp: unknown backend tensor".to_owned()),
        ),
    }
}

/// Whether the matrix must be read from the GPU for a product on the host.
pub fn cpu_quant_matmul(place: Place) -> (r: Result<bool, BackendError>)
    ensures
        match place {
            Place::Host => r matches Ok(b) && !b,
            Place::Here => r matches Ok(b) && b,
            Place::Elsewhere => r matches Err(e) && is_internal(
                e,
                "honeycrisp cpu_quant_matmul: unknown tensor"@,
            ),
        },
{
    match place {
        Place::Host => Ok(false),
        Place::Here => Ok(true),
        Place::Elsewhere => Err(
            BackendError::Internal("honeycrisp cpu_quant_matmul: unknown tensor".to_owned()),
        ),
    }
}

/// The bytes that are allocated for a request: at least four.
pub fn alloc_size(size: usize) -> (n: usize)
    ensures
        n == (if size < 4 {
            4
        } else {
            size
        }),
{
    if size < 4 {
        4
    } else {
        size
    }
}

} // verus!
