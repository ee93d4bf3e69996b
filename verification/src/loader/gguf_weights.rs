//! From the tensor descriptions of a GGUF file to a table of weights.

use vstd::prelude::*;

use crate::loader::gguf::{
    alignment_of, copy_range, data_start, data_start_of, get_alignment, header_of, meta_views,
    parse_gguf_header, tensor_views, GgufError, MetaEntry, TensorInfo, TensorView,
};
use crate::tensor::{numel, product, product_fits};
use crate::text;
use crate::types::{
    distinct_names, insert_is_a_map_update, inserted, lemma_name_at, name_at, DType, NamedView,
    Weight, WeightView, Weights,
};

verus! {

/// The element type of a tensor type; unknown types count as floats.
pub open spec fn dtype_of(type_id: u32) -> DType {
    if type_id == 1 {
        DType::F16
    } else if type_id == 2 {
        DType::Q4_0
    } else if type_id == 3 {
        DType::Q4_1
    } else if type_id == 8 {
        DType::Q8_0
    } else if type_id == 10 {
        DType::Q3_K
    } else if type_id == 11 {
        DType::Q2_K
    } else if type_id == 12 {
        DType::Q4_K
    } else if type_id == 13 {
        DType::Q5_K
    } else if type_id == 14 {
        DType::Q6_K
    } else {
        DType::F32
    }
}

/// Elements of a block of a tensor type.
pub open spec fn block_size_of(type_id: u32) -> usize {
    if type_id == 2 || type_id == 3 || type_id == 8 {
        32
    } else if 10 <= type_id <= 14 {
        256
    } else {
        1
    }
}

/// Bytes of a block of a tensor type.
pub open spec fn block_bytes_of(type_id: u32) -> usize {
    if type_id == 1 {
        2
    } else if type_id == 2 {
        18
    } else if type_id == 3 {
        20
    } else if type_id == 8 {
        34
    } else if type_id == 10 {
        110
    } else if type_id == 11 {
        84
    } else if type_id == 12 {
        144
    } else if type_id == 13 {
        176
    } else if type_id == 14 {
        210
    } else {
        4
    }
}

/// The element type of a tensor type.
pub fn gguf_type_to_dtype(type_id: u32) -> (d: DType)
    ensures
        d == dtype_of(type_id),
{
    match type_id {
        1 => DType::F16,
        2 => DType::Q4_0,
        3 => DType::Q4_1,
        8 => DType::Q8_0,
        10 => DType::Q3_K,
        11 => DType::Q2_K,
        12 => DType::Q4_K,
        13 => DType::Q5_K,
        14 => DType::Q6_K,
        _ => DType::F32,
    }
}

/// Elements of a block of a tensor type.
pub fn gguf_type_block_size(type_id: u32) -> (n: usize)
    ensures
        n == block_size_of(type_id),
        n > 0,
{
    match type_id {
        2 => 32,
        3 => 32,
        8 => 32,
        10 => 256,
        11 => 256,
        12 => 256,
        13 => 256,
        14 => 256,
        _ => 1,
    }
}

/// Bytes of a block of a tensor type.
pub fn gguf_type_bytes_per_block(type_id: u32) -> (n: usize)
    ensures
        n == block_bytes_of(type_id),
{
    match type_id {
        1 => 2,
        2 => 18,
        3 => 20,
        8 => 34,
        10 => 110,
        11 => 84,
        12 => 144,
        13 => 176,
        14 => 210,
        _ => 4,
    }
}

/// The shape of a tensor, the fast dimension last.
pub open spec fn shape_of(dims: Seq<u64>) -> Seq<usize> {
    let s = Seq::new(dims.len(), |i: int| dims[i] as usize);
    if s.len() >= 2 {
        s.reverse()
    } else {
        s
    }
}

/// Bytes of a tensor.
pub open spec fn byte_size_of(t: TensorView) -> int {
    let block = block_size_of(t.type_id) as int;
    ((product(shape_of(t.dims)) + block - 1) / block) * block_bytes_of(t.type_id)
}

/// The place of a tensor's data in the file.
pub open spec fn offset_of(t: TensorView, start: usize) -> int {
    start + t.offset as usize
}

/// The sizes and places of a tensor stay in range.
pub open spec fn tensor_fits(t: TensorView, start: usize) -> bool {
    &&& product_fits(shape_of(t.dims))
    &&& product(shape_of(t.dims)) + block_size_of(t.type_id) - 1 <= usize::MAX
    &&& byte_size_of(t) <= usize::MAX
    &&& offset_of(t, start) + byte_size_of(t) <= usize::MAX
}

/// A tensor's weight.
pub open spec fn weight_of(b: Seq<u8>, t: TensorView, start: usize) -> WeightView {
    WeightView {
        data: b.subrange(offset_of(t, start), offset_of(t, start) + byte_size_of(t)),
        shape: shape_of(t.dims),
        dtype: dtype_of(t.type_id),
        needs_transpose: false,
    }
}

/// The table of the first `n` tensors. A tensor that reaches beyond the file
/// is left out.
pub open spec fn table_of(b: Seq<u8>, tensors: Seq<TensorView>, start: usize, n: int) -> Seq<
    NamedView,
>
    decreases n,
{
    if n <= 0 {
        Seq::empty()
    } else {
        let before = table_of(b, tensors, start, n - 1);
        let t = tensors[n - 1];
        if offset_of(t, start) + byte_size_of(t) > b.len() {
            before
        } else {
            inserted(before, t.name, weight_of(b, t, start))
        }
    }
}

fn shape_from(dims: &Vec<u64>) -> (shape: Vec<usize>)
    ensures
        shape@ == shape_of(dims@),
{
    let n: usize = dims.len();
    let mut shape: Vec<usize> = Vec::new();
    let mut i: usize = 0;
    while i < n
        invariant
            i <= n == dims@.len(),
            shape@.len() == i,
            forall|k: int|
                0 <= k < i ==> shape@[k] == (if n >= 2 {
                    dims@[n - 1 - k]
                } else {
                    dims@[k]
                }) as usize,
        decreases n - i,
    {
        let d: u64 = if n >= 2 {
            dims[n - 1 - i]
        } else {
            dims[i]
        };
        shape.push(d as usize);
        i = i + 1;
    }
    assert(shape@ =~= shape_of(dims@));
    shape
}

/// The product of the dimensions, where every step stays in range.
fn checked_product(shape: &Vec<usize>) -> (r: Option<usize>)
    ensures
        r is Some <==> product_fits(shape@),
        r matches Some(n) ==> n == product(shape@),
{
    let mut n: usize = 1;
    let mut i: usize = 0;
    assert(shape@.take(0) =~= Seq::<usize>::empty());
    while i < shape.len()
        invariant
            i <= shape@.len(),
            n == product(shape@.take(i as int)),
            forall|k: int|
                0 <= k <= i ==> #[trigger] product(shape@.take(k)) <= usize::MAX,
        decreases shape@.len() - i,
    {
        proof {
            let next = shape@.take(i + 1);
            assert(next.drop_last() =~= shape@.take(i as int));
        }
        match n.checked_mul(shape[i]) {
            Some(m) => {
                n = m;
            },
            None => {
                assert(product(shape@.take(i + 1)) > usize::MAX);
                return None;
            },
        }
        i = i + 1;
    }
    assert(shape@.take(shape@.len() as int) =~= shape@);
    Some(n)
}

/// Whether the sizes and places of a tensor stay in range.
pub fn tensor_fits_in(t: &TensorInfo, start: usize) -> (b: bool)
    ensures
        b == tensor_fits(t@, start),
{
    let shape = shape_from(&t.dims);
    let elements: usize = match checked_product(&shape) {
        Some(n) => n,
        None => {
            return false;
        },
    };
    let block: usize = gguf_type_block_size(t.type_id);
    let bytes: usize = gguf_type_bytes_per_block(t.type_id);
    let top: usize = match elements.checked_add(block - 1) {
        Some(n) => n,
        None => {
            return false;
        },
    };
    let size: usize = match (top / block).checked_mul(bytes) {
        Some(n) => n,
        None => {
            return false;
        },
    };
    match start.checked_add(t.offset as usize) {
        Some(from) => from.checked_add(size).is_some(),
        None => false,
    }
}

/// Where a tensor's data starts in the file, and its size in bytes.
pub fn tensor_range(t: &TensorInfo, start: usize) -> (r: (usize, usize))
    requires
        tensor_fits(t@, start),
    ensures
        r.0 == offset_of(t@, start),
        r.1 == byte_size_of(t@),
{
    let shape = shape_from(&t.dims);
    let elements: usize = numel(&shape);
    let block: usize = gguf_type_block_size(t.type_id);
    let bytes: usize = gguf_type_bytes_per_block(t.type_id);
    proof {
        let size = byte_size_of(t@);
        assert(size == ((elements + block - 1) / block as int) * bytes);
        assert(0 <= size) by (nonlinear_arith)
            requires
                size == ((elements + block - 1) / block as int) * bytes,
                block > 0,
                elements >= 0,
                bytes >= 0,
        ;
    }
    let size: usize = ((elements + (block - 1)) / block) * bytes;
    (start + t.offset as usize, size)
}

/// The table of the tensors that lie within the file.
pub fn read_tensors(b: &[u8], tensors: &Vec<TensorInfo>, start: usize) -> (w: Weights)
    requires
        forall|i: int| 0 <= i < tensors@.len() ==> tensor_fits((#[trigger] tensors@[i])@, start),
    ensures
        w@ == table_of(b@, tensor_views(tensors@), start, tensors@.len() as int),
        w.metadata@ == Seq::<(String, String)>::empty(),
{
    let mut w = Weights::new();
    let ghost views = tensor_views(tensors@);
    let mut i: usize = 0;
    while i < tensors.len()
        invariant
            i <= tensors@.len(),
            views == tensor_views(tensors@),
            forall|k: int|
                0 <= k < tensors@.len() ==> tensor_fits((#[trigger] tensors@[k])@, start),
            w@ == table_of(b@, views, start, i as int),
            w.metadata@ == Seq::<(String, String)>::empty(),
        decreases tensors@.len() - i,
    {
        let t = &tensors[i];
        assert(views[i as int] == tensors@[i as int]@);
        assert(tensor_fits(t@, start));
        let shape = shape_from(&t.dims);
        let (from, size) = tensor_range(t, start);
        let to: usize = from + size;
        if to <= b.len() {
            let data = copy_range(b, from, to);
            w.insert(
                t.name.clone(),
                Weight {
                    data,
                    shape,
                    dtype: gguf_type_to_dtype(t.type_id),
                    needs_transpose: false,
                },
            );
        }
        i = i + 1;
    }
    w
}

/// The name is of a fused projection.
pub open spec fn is_fused(name: Seq<char>) -> bool {
    text::holds(name, "qkv_proj.weight"@) || text::holds(name, "gate_up_proj.weight"@)
}

/// The last place before `to` where `c` stands.
pub open spec fn last_char(s: Seq<char>, c: char, to: int) -> Option<int>
    decreases to,
{
    if to <= 0 || to > s.len() {
        None
    } else if s[to - 1] == c {
        Some(to - 1)
    } else {
        last_char(s, c, to - 1)
    }
}

/// The name without its last part.
pub open spec fn stem(name: Seq<char>) -> Seq<char> {
    match last_char(name, '.', name.len() as int) {
        Some(i) => name.take(i),
        None => name,
    }
}

/// `s` without the suffix, where it has it.
pub open spec fn without_suffix(s: Seq<char>, suffix: Seq<char>) -> Seq<char> {
    if text::ends(s, suffix) {
        s.take(s.len() - suffix.len())
    } else {
        s
    }
}

/// The second dimension, or one.
pub open spec fn columns(w: WeightView) -> int {
    if w.shape.len() > 1 {
        w.shape[1] as int
    } else {
        1
    }
}

/// Elements of a block of an element type.
pub open spec fn dtype_block(d: DType) -> int {
    match d {
        DType::Q4_0 | DType::Q4_1 | DType::Q8_0 => 32,
        DType::Q2_K | DType::Q3_K | DType::Q4_K | DType::Q5_K | DType::Q6_K => 256,
        DType::Ternary => 4,
        _ => 1,
    }
}

/// Bytes of a block of an element type.
pub open spec fn dtype_bytes(d: DType) -> int {
    match d {
        DType::F32 => 4,
        DType::F16 | DType::BF16 => 2,
        DType::I8 | DType::U8 | DType::Bool | DType::Ternary => 1,
        DType::Q4_0 => 18,
        DType::Q4_1 => 20,
        DType::Q8_0 => 34,
        DType::Q2_K => 84,
        DType::Q3_K => 110,
        DType::Q4_K => 144,
        DType::Q5_K => 176,
        DType::Q6_K => 210,
    }
}

/// Bytes of the first `rows` rows: whole blocks of the weight's element type.
pub open spec fn rows_bytes(w: WeightView, rows: int) -> int {
    (rows * columns(w)) / dtype_block(w.dtype) * dtype_bytes(w.dtype)
}

/// A part of a fused weight.
pub open spec fn part_of(w: WeightView, from: int, to: int, rows: int) -> WeightView {
    WeightView {
        data: w.data.subrange(from, to),
        shape: seq![rows as usize, columns(w) as usize],
        dtype: w.dtype,
        needs_transpose: false,
    }
}

/// Rows of q, and of each of k and v, in a fused projection of `n` rows:
/// thirds where `n` is divisible by three, else a half and two quarters.
pub open spec fn qkv_rows(n: int) -> (int, int) {
    if n % 3 == 0 {
        (n / 3, n / 3)
    } else {
        (n / 2, n / 4)
    }
}

/// The table without the fused weight at place `i`, and with its parts where
/// its data holds them.
pub open spec fn split_at(s: Seq<NamedView>, i: int) -> Seq<NamedView> {
    let key = s[i].name;
    let w = s[i].weight;
    let rest = s.remove(i);
    let n = w.shape[0] as int;
    if text::holds(key, "qkv_proj"@) {
        let (q, kv) = qkv_rows(n);
        let q_end = rows_bytes(w, q);
        let k_end = q_end + rows_bytes(w, kv);
        let v_end = k_end + rows_bytes(w, kv);
        let prefix = without_suffix(stem(key), ".qkv_proj"@);
        if v_end <= w.data.len() {
            inserted(
                inserted(
                    inserted(rest, prefix + ".q_proj.weight"@, part_of(w, 0, q_end, q)),
                    prefix + ".k_proj.weight"@,
                    part_of(w, q_end, k_end, kv),
                ),
                prefix + ".v_proj.weight"@,
                part_of(w, k_end, v_end, kv),
            )
        } else {
            rest
        }
    } else if text::holds(key, "gate_up_proj"@) {
        let half = n / 2;
        let end = rows_bytes(w, half);
        let prefix = without_suffix(stem(key), ".gate_up_proj"@);
        if 2 * end <= w.data.len() {
            inserted(
                inserted(rest, prefix + ".gate_proj.weight"@, part_of(w, 0, end, half)),
                prefix + ".up_proj.weight"@,
                part_of(w, end, 2 * end, half),
            )
        } else {
            rest
        }
    } else {
        rest
    }
}

/// The table after the fused weights of these names were split, one after the
/// other.
pub open spec fn split_all(s: Seq<NamedView>, keys: Seq<Seq<char>>, n: int) -> Seq<NamedView>
    decreases n,
{
    if n <= 0 {
        s
    } else {
        let before = split_all(s, keys, n - 1);
        match name_at(before, keys[n - 1], 0) {
            Some(i) => split_at(before, i),
            None => before,
        }
    }
}

/// The names of the fused weights of a table, in its order.
pub open spec fn fused_names(s: Seq<NamedView>) -> Seq<Seq<char>> {
    s.map_values(|e: NamedView| e.name).filter(|n: Seq<char>| is_fused(n))
}

/// A fused weight has rows, and its sizes stay in range.
pub open spec fn fused_fits(w: WeightView) -> bool {
    &&& w.shape.len() >= 1
    &&& w.shape[0] * columns(w) <= usize::MAX
    &&& rows_bytes(w, w.shape[0] as int) <= usize::MAX
}

/// Every weight that is split on the way has sizes in range.
pub open spec fn split_fits(s: Seq<NamedView>, keys: Seq<Seq<char>>) -> bool {
    forall|n: int|
        0 <= n < keys.len() ==> (name_at(#[trigger] split_all(s, keys, n), keys[n], 0) matches Some(
            i,
        ) ==> fused_fits(split_all(s, keys, n)[i].weight))
}

/// More rows take no fewer bytes, and parts take no more than the whole.
proof fn lemma_rows_bytes(w: WeightView, rows: int, more: int)
    requires
        rows >= 0,
        more >= 0,
    ensures
        0 <= rows * columns(w) <= (rows + more) * columns(w),
        0 <= rows_bytes(w, rows),
        rows_bytes(w, rows) + rows_bytes(w, more) <= rows_bytes(w, rows + more),
        rows * columns(w) % dtype_block(w.dtype) == 0 ==> rows_bytes(w, rows) + rows_bytes(w, more)
            == rows_bytes(w, rows + more),
{
    let (k, block, bytes) = (columns(w), dtype_block(w.dtype), dtype_bytes(w.dtype));
    let (x, y) = (rows * k, more * k);
    assert((rows + more) * k == x + y) by (nonlinear_arith)
        requires
            x == rows * k,
            y == more * k,
    ;
    assert(x >= 0 && y >= 0) by (nonlinear_arith)
        requires
            x == rows * k,
            y == more * k,
            rows >= 0,
            more >= 0,
            k >= 0,
    ;
    assert(x / block + y / block <= (x + y) / block);
    assert(x % block == 0 ==> x / block + y / block == (x + y) / block);
    assert(0 <= x / block);
    let (a, b, c) = (x / block, y / block, (x + y) / block);
    assert(a * bytes + b * bytes <= c * bytes) by (nonlinear_arith)
        requires
            a + b <= c,
            bytes >= 0,
    ;
    assert(a + b == c ==> a * bytes + b * bytes == c * bytes) by (nonlinear_arith);
    assert(0 <= a * bytes) by (nonlinear_arith)
        requires
            a >= 0,
            bytes >= 0,
    ;
}

/// The parts of a fused projection lie within its rows.
proof fn lemma_parts(w: WeightView, n: int)
    requires
        n >= 0,
    ensures
        ({
            let (q, kv) = qkv_rows(n);
            &&& 0 <= q && 0 <= kv && q + 2 * kv <= n
            &&& 0 <= q * columns(w) <= n * columns(w)
            &&& 0 <= kv * columns(w) <= n * columns(w)
            &&& 0 <= rows_bytes(w, q) && 0 <= rows_bytes(w, kv)
            &&& rows_bytes(w, q) + rows_bytes(w, kv) + rows_bytes(w, kv) <= rows_bytes(w, n)
            &&& 0 <= (n / 2) * columns(w) <= n * columns(w)
            &&& 0 <= rows_bytes(w, n / 2)
            &&& rows_bytes(w, n / 2) + rows_bytes(w, n / 2) <= rows_bytes(w, n)
        }),
{
    let (q, kv) = qkv_rows(n);
    lemma_rows_bytes(w, q, kv);
    lemma_rows_bytes(w, kv, n - kv);
    lemma_rows_bytes(w, q + kv, kv);
    lemma_rows_bytes(w, q, n - q);
    lemma_rows_bytes(w, q + 2 * kv, n - q - 2 * kv);
    lemma_rows_bytes(w, n - q - 2 * kv, q + 2 * kv);
    assert(q + kv + kv == q + 2 * kv);
    let h = n / 2;
    lemma_rows_bytes(w, h, h);
    lemma_rows_bytes(w, h, n - h);
    lemma_rows_bytes(w, h + h, n - h - h);
    lemma_rows_bytes(w, n - h - h, h + h);
}

fn stem_of(name: &str) -> (s: String)
    ensures
        s@ == stem(name@),
{
    let v = text::chars_of(name);
    let mut i: usize = v.len();
    while i > 0
        invariant
            i <= v@.len(),
            v@ == name@,
            last_char(name@, '.', name@.len() as int) == last_char(name@, '.', i as int),
        decreases i,
    {
        if v[i - 1] == '.' {
            let s = text::substring(&v, 0, i - 1);
            assert(s@ =~= name@.take(i - 1));
            return s;
        }
        i = i - 1;
    }
    name.to_owned()
}

fn strip_suffix(s: &str, suffix: &str) -> (r: String)
    ensures
        r@ == without_suffix(s@, suffix@),
{
    if text::ends_with(s, suffix) {
        let v = text::chars_of(s);
        let p = text::chars_of(suffix);
        let r = text::substring(&v, 0, v.len() - p.len());
        assert(r@ =~= s@.take(s@.len() - suffix@.len()));
        r
    } else {
        s.to_owned()
    }
}

fn columns_of(w: &Weight) -> (k: usize)
    ensures
        k == columns(w@),
{
    if w.shape.len() > 1 {
        w.shape[1]
    } else {
        1
    }
}

fn block_of(d: DType) -> (r: (usize, usize))
    ensures
        r.0 == dtype_block(d),
        r.1 == dtype_bytes(d),
        r.0 > 0,
{
    match d {
        DType::F32 => (1, 4),
        DType::F16 | DType::BF16 => (1, 2),
        DType::I8 | DType::U8 | DType::Bool => (1, 1),
        DType::Ternary => (4, 1),
        DType::Q4_0 => (32, 18),
        DType::Q4_1 => (32, 20),
        DType::Q8_0 => (32, 34),
        DType::Q2_K => (256, 84),
        DType::Q3_K => (256, 110),
        DType::Q4_K => (256, 144),
        DType::Q5_K => (256, 176),
        DType::Q6_K => (256, 210),
    }
}

fn rows_bytes_of(w: &Weight, rows: usize) -> (n: usize)
    requires
        rows * columns(w@) <= usize::MAX,
        rows_bytes(w@, rows as int) <= usize::MAX,
    ensures
        n == rows_bytes(w@, rows as int),
{
    let k: usize = columns_of(w);
    assert(0 <= rows * k) by (nonlinear_arith);
    proof {
        lemma_rows_bytes(w@, rows as int, 0);
    }
    let (block, bytes): (usize, usize) = block_of(w.dtype);
    (rows * k) / block * bytes
}

fn part(w: &Weight, from: usize, to: usize, rows: usize) -> (p: Weight)
    requires
        from <= to <= w.data@.len(),
    ensures
        p@ == part_of(w@, from as int, to as int, rows as int),
{
    let shape: Vec<usize> = vec![rows, columns_of(w)];
    assert(shape@ =~= seq![rows, columns(w@) as usize]);
    let p = Weight {
        data: copy_range(w.data.as_slice(), from, to),
        shape,
        dtype: w.dtype,
        needs_transpose: false,
    };
    assert(p@ =~= part_of(w@, from as int, to as int, rows as int));
    p
}

fn split_one(w: &mut Weights, i: usize)
    requires
        i < old(w)@.len(),
        fused_fits(old(w)@[i as int].weight),
    ensures
        final(w)@ == split_at(old(w)@, i as int),
        final(w).metadata == old(w).metadata,
{
    let ghost start = w@;
    assert(w@[i as int] == w.weights@[i as int]@);
    let entry = w.weights.remove(i);
    assert(w@ =~= start.remove(i as int));
    let key = entry.name;
    let weight = entry.weight;
    let n: usize = weight.shape[0];
    proof {
        lemma_parts(weight@, n as int);
    }
    if text::contains_text(key.as_str(), "qkv_proj") {
        let (q, kv): (usize, usize) = if n % 3 == 0 {
            (n / 3, n / 3)
        } else {
            (n / 2, n / 4)
        };
        let q_bytes: usize = rows_bytes_of(&weight, q);
        let kv_bytes: usize = rows_bytes_of(&weight, kv);
        let prefix = strip_suffix(stem_of(key.as_str()).as_str(), ".qkv_proj");
        let q_end: usize = q_bytes;
        let k_end: usize = q_end + kv_bytes;
        let v_end: usize = k_end + kv_bytes;
        if v_end <= weight.data.len() {
            w.insert(
                text::concat(prefix.as_str(), ".q_proj.weight"),
                part(&weight, 0, q_end, q),
            );
            w.insert(
                text::concat(prefix.as_str(), ".k_proj.weight"),
                part(&weight, q_end, k_end, kv),
            );
            w.insert(
                text::concat(prefix.as_str(), ".v_proj.weight"),
                part(&weight, k_end, v_end, kv),
            );
        }
    } else if text::contains_text(key.as_str(), "gate_up_proj") {
        let half: usize = n / 2;
        let end: usize = rows_bytes_of(&weight, half);
        let prefix = strip_suffix(stem_of(key.as_str()).as_str(), ".gate_up_proj");
        if end * 2 <= weight.data.len() {
            w.insert(text::concat(prefix.as_str(), ".gate_proj.weight"), part(&weight, 0, end, half));
            w.insert(
                text::concat(prefix.as_str(), ".up_proj.weight"),
                part(&weight, end, end * 2, half),
            );
        }
    }
}

fn fused_keys(w: &Weights) -> (keys: Vec<String>)
    ensures
        names(keys@) == fused_names(w@),
{
    let ghost all = w@.map_values(|e: NamedView| e.name);
    let ghost fused = |n: Seq<char>| is_fused(n);
    let mut keys: Vec<String> = Vec::new();
    let mut i: usize = 0;
    proof {
        reveal(Seq::filter);
        assert(all.take(0) =~= Seq::<Seq<char>>::empty());
        assert(names(keys@) =~= all.take(0).filter(fused));
    }
    while i < w.weights.len()
        invariant
            i <= w.weights@.len(),
            all == w@.map_values(|e: NamedView| e.name),
            fused == (|n: Seq<char>| is_fused(n)),
            names(keys@) == all.take(i as int).filter(fused),
        decreases w.weights@.len() - i,
    {
        let name = &w.weights[i].name;
        let ghost before = keys@;
        proof {
            reveal(Seq::filter);
            let next = all.take(i + 1);
            assert(next.drop_last() =~= all.take(i as int));
            assert(w@[i as int] == w.weights@[i as int]@);
            assert(next.last() == name@);
        }
        if text::contains_text(name.as_str(), "qkv_proj.weight") || text::contains_text(
            name.as_str(),
            "gate_up_proj.weight",
        ) {
            keys.push(name.clone());
            assert(names(keys@) =~= names(before).push(name@));
        }
        i = i + 1;
    }
    assert(all.take(all.len() as int) =~= all);
    keys
}

fn fits_in_range(w: &Weight) -> (b: bool)
    ensures
        b == fused_fits(w@),
{
    if w.shape.len() == 0 {
        return false;
    }
    let (block, bytes): (usize, usize) = block_of(w.dtype);
    match w.shape[0].checked_mul(columns_of(w)) {
        Some(cells) => (cells / block).checked_mul(bytes).is_some(),
        None => false,
    }
}

/// Strings as text.
pub open spec fn names(keys: Seq<String>) -> Seq<Seq<char>> {
    keys.map_values(|k: String| k@)
}

/// The table with fused projections split into their parts; `None` where a
/// size on the way is out of range.
pub fn try_split_fused(table: Weights) -> (r: Option<Weights>)
    ensures
        r is Some <==> split_fits(table@, fused_names(table@)),
        r matches Some(out) ==> out@ == split_all(
            table@,
            fused_names(table@),
            fused_names(table@).len() as int,
        ) && out.metadata == table.metadata,
{
    let mut w = table;
    let ghost start = w@;
    let ghost meta = w.metadata;
    let keys = fused_keys(&w);
    let ghost all = fused_names(start);
    assert(all.len() == keys@.len());
    let mut i: usize = 0;
    while i < keys.len()
        invariant
            i <= keys@.len(),
            all == names(keys@),
            start == table@,
            all == fused_names(start),
            w@ == split_all(start, all, i as int),
            w.metadata == meta,
            forall|n: int|
                0 <= n < i ==> (name_at(#[trigger] split_all(start, all, n), all[n], 0) matches Some(
                    k,
                ) ==> fused_fits(split_all(start, all, n)[k].weight)),
        decreases keys@.len() - i,
    {
        let key = &keys[i];
        assert(all[i as int] == key@);
        match w.find(key.as_str()) {
            Some(k) => {
                assert(w@[k as int] == w.weights@[k as int]@);
                let entry = &w.weights[k].weight;
                let fits: bool = fits_in_range(entry);
                if !fits {
                    assert(!fused_fits(split_all(start, all, i as int)[k as int].weight));
                    return None;
                }
                split_one(&mut w, k);
            },
            None => {},
        }
        i = i + 1;
    }
    Some(w)
}

/// All weights of a file: its tensors, with fused projections split.
pub open spec fn weights_of(b: Seq<u8>, tensors: Seq<TensorView>, start: usize) -> Seq<NamedView> {
    let table = table_of(b, tensors, start, tensors.len() as int);
    split_all(table, fused_names(table), fused_names(table).len() as int)
}

/// All sizes of a file stay in range.
pub open spec fn sizes_fit(b: Seq<u8>, tensors: Seq<TensorView>, start: usize) -> bool {
    let table = table_of(b, tensors, start, tensors.len() as int);
    &&& forall|i: int| 0 <= i < tensors.len() ==> tensor_fits(#[trigger] tensors[i], start)
    &&& split_fits(table, fused_names(table))
}

/// All weights of a file, or `None` where a size is out of range.
pub fn try_build_weights(b: &[u8], tensors: &Vec<TensorInfo>, start: usize) -> (r: Option<Weights>)
    ensures
        r is Some <==> sizes_fit(b@, tensor_views(tensors@), start),
        r matches Some(w) ==> w@ == weights_of(b@, tensor_views(tensors@), start)
            && w.metadata@.len() == 0,
{
    let ghost views = tensor_views(tensors@);
    let mut i: usize = 0;
    while i < tensors.len()
        invariant
            i <= tensors@.len(),
            views == tensor_views(tensors@),
            forall|k: int| 0 <= k < i ==> tensor_fits(#[trigger] views[k], start),
        decreases tensors@.len() - i,
    {
        assert(views[i as int] == tensors@[i as int]@);
        if !tensor_fits_in(&tensors[i], start) {
            assert(!tensor_fits(views[i as int], start));
            return None;
        }
        i = i + 1;
    }
    assert forall|k: int| 0 <= k < tensors@.len() implies tensor_fits(
        (#[trigger] tensors@[k])@,
        start,
    ) by {
        assert(views[k] == tensors@[k]@);
    }
    try_split_fused(read_tensors(b, tensors, start))
}

/// All weights of a file whose sizes are in range.
pub fn build_weights_from_gguf(b: &[u8], tensors: &Vec<TensorInfo>, start: usize) -> (w: Weights)
    requires
        sizes_fit(b@, tensor_views(tensors@), start),
    ensures
        w@ == weights_of(b@, tensor_views(tensors@), start),
        w.metadata@.len() == 0,
{
    match try_build_weights(b, tensors, start) {
        Some(w) => w,
        None => Weights::new(),
    }
}

/// Why a file gave no weights.
#[derive(Clone, Copy, Debug, PartialEq, Eq, Structural)]
pub enum LoadError {
    Format(GgufError),
    /// A size or a place of the file is out of range.
    Sizes,
}

/// The start of the tensor data can be computed.
pub open spec fn start_fits(end: int, alignment: usize) -> bool {
    alignment > 0 && end + alignment - 1 <= usize::MAX
}

/// Loads a file: its weights and its metadata.
pub fn load_gguf_with_metadata(b: &[u8]) -> (r: Result<(Weights, Vec<MetaEntry>), LoadError>)
    ensures
        match header_of(b@) {
            Err(e) => r matches Err(x) && x == LoadError::Format(e),
            Ok((meta, tensors, end)) => {
                let alignment = alignment_of(meta);
                let start = data_start_of(end as usize, alignment);
                if start_fits(end, alignment) && sizes_fit(b@, tensors, start) {
                    r matches Ok(x) && x.0@ == weights_of(b@, tensors, start)
                        && x.0.metadata@.len() == 0 && meta_views(x.1@) == meta
                } else {
                    r matches Err(x) && x == LoadError::Sizes
                }
            },
        },
{
    let h = match parse_gguf_header(b) {
        Ok(h) => h,
        Err(e) => {
            return Err(LoadError::Format(e));
        },
    };
    let alignment: usize = get_alignment(&h.metadata);
    if alignment == 0 || h.end.checked_add(alignment - 1).is_none() {
        return Err(LoadError::Sizes);
    }
    let start: usize = data_start(h.end, alignment);
    match try_build_weights(b, &h.tensors, start) {
        Some(w) => Ok((w, h.metadata)),
        None => Err(LoadError::Sizes),
    }
}

/// Loads the weights of a file.
pub fn load_gguf(b: &[u8]) -> (r: Result<Weights, LoadError>)
    ensures
        match header_of(b@) {
            Err(e) => r matches Err(x) && x == LoadError::Format(e),
            Ok((meta, tensors, end)) => {
                let alignment = alignment_of(meta);
                let start = data_start_of(end as usize, alignment);
                if start_fits(end, alignment) && sizes_fit(b@, tensors, start) {
                    r matches Ok(w) && w@ == weights_of(b@, tensors, start) && w.metadata@.len()
                        == 0
                } else {
                    r matches Err(x) && x == LoadError::Sizes
                }
            },
        },
{
    match load_gguf_with_metadata(b) {
        Ok((w, _)) => Ok(w),
        Err(e) => Err(e),
    }
}

/// Every name of a loaded table belongs to one weight.
pub proof fn weights_have_distinct_names(b: Seq<u8>, tensors: Seq<TensorView>, start: usize)
    ensures
        distinct_names(weights_of(b, tensors, start)),
{
    let table = table_of(b, tensors, start, tensors.len() as int);
    lemma_table_distinct(b, tensors, start, tensors.len() as int);
    lemma_split_distinct(table, fused_names(table), fused_names(table).len() as int);
}

proof fn lemma_table_distinct(b: Seq<u8>, tensors: Seq<TensorView>, start: usize, n: int)
    ensures
        distinct_names(table_of(b, tensors, start, n)),
    decreases n,
{
    if n > 0 {
        let before = table_of(b, tensors, start, n - 1);
        lemma_table_distinct(b, tensors, start, n - 1);
        let t = tensors[n - 1];
        insert_is_a_map_update(before, t.name, weight_of(b, t, start), t.name);
    }
}

proof fn lemma_split_distinct(s: Seq<NamedView>, keys: Seq<Seq<char>>, n: int)
    requires
        distinct_names(s),
    ensures
        distinct_names(split_all(s, keys, n)),
    decreases n,
{
    if n > 0 {
        let before = split_all(s, keys, n - 1);
        lemma_split_distinct(s, keys, n - 1);
        match name_at(before, keys[n - 1], 0) {
            Some(i) => {
                lemma_name_at(before, keys[n - 1], 0);
                lemma_split_at_distinct(before, i);
            },
            None => {},
        }
    }
}

proof fn lemma_split_at_distinct(s: Seq<NamedView>, i: int)
    requires
        distinct_names(s),
        0 <= i < s.len(),
    ensures
        distinct_names(split_at(s, i)),
{
    let key = s[i].name;
    let w = s[i].weight;
    let rest = s.remove(i);
    let n = w.shape[0] as int;
    assert(distinct_names(rest)) by {
        assert forall|a: int, c: int| 0 <= a < c < rest.len() implies (#[trigger] rest[a]).name != (
        #[trigger] rest[c]).name by {
            let a0 = if a < i {
                a
            } else {
                a + 1
            };
            let c0 = if c < i {
                c
            } else {
                c + 1
            };
            assert(rest[a] == s[a0] && rest[c] == s[c0]);
        }
    }
    if text::holds(key, "qkv_proj"@) {
        let (q, kv) = qkv_rows(n);
        let q_end = rows_bytes(w, q);
        let k_end = q_end + rows_bytes(w, kv);
        let v_end = k_end + rows_bytes(w, kv);
        let prefix = without_suffix(stem(key), ".qkv_proj"@);
        let s1 = inserted(rest, prefix + ".q_proj.weight"@, part_of(w, 0, q_end, q));
        let s2 = inserted(s1, prefix + ".k_proj.weight"@, part_of(w, q_end, k_end, kv));
        insert_is_a_map_update(rest, prefix + ".q_proj.weight"@, part_of(w, 0, q_end, q), key);
        insert_is_a_map_update(s1, prefix + ".k_proj.weight"@, part_of(w, q_end, k_end, kv), key);
        insert_is_a_map_update(s2, prefix + ".v_proj.weight"@, part_of(w, k_end, v_end, kv), key);
    } else if text::holds(key, "gate_up_proj"@) {
        let half = n / 2;
        let end = rows_bytes(w, half);
        let prefix = without_suffix(stem(key), ".gate_up_proj"@);
        let s1 = inserted(rest, prefix + ".gate_proj.weight"@, part_of(w, 0, end, half));
        insert_is_a_map_update(rest, prefix + ".gate_proj.weight"@, part_of(w, 0, end, half), key);
        insert_is_a_map_update(s1, prefix + ".up_proj.weight"@, part_of(w, end, 2 * end, half), key);
    }
}

/// The parts of a fused projection, put together again, are its data: nothing
/// is lost or doubled where its rows are whole blocks and divide evenly.
pub proof fn fused_parts_join(w: WeightView)
    requires
        w.shape.len() >= 1,
        columns(w) % dtype_block(w.dtype) == 0,
        w.data.len() == rows_bytes(w, w.shape[0] as int),
    ensures
        w.shape[0] % 3 == 0 || w.shape[0] % 4 == 0 ==> {
            let (q, kv) = qkv_rows(w.shape[0] as int);
            let q_end = rows_bytes(w, q);
            let k_end = q_end + rows_bytes(w, kv);
            let v_end = k_end + rows_bytes(w, kv);
            &&& v_end == w.data.len()
            &&& part_of(w, 0, q_end, q).data + part_of(w, q_end, k_end, kv).data + part_of(
                w,
                k_end,
                v_end,
                kv,
            ).data == w.data
        },
        w.shape[0] % 2 == 0 ==> {
            let half = w.shape[0] as int / 2;
            let end = rows_bytes(w, half);
            &&& 2 * end == w.data.len()
            &&& part_of(w, 0, end, half).data + part_of(w, end, 2 * end, half).data == w.data
        },
{
    let n = w.shape[0] as int;
    let (q, kv) = qkv_rows(n);
    lemma_parts(w, n);
    lemma_whole_rows(w, q);
    lemma_whole_rows(w, q + kv);
    lemma_rows_bytes(w, q, kv);
    lemma_rows_bytes(w, q + kv, kv);
    let q_end = rows_bytes(w, q);
    let k_end = q_end + rows_bytes(w, kv);
    let v_end = k_end + rows_bytes(w, kv);
    if n % 3 == 0 || n % 4 == 0 {
        assert(q + kv + kv == n);
        assert(w.data.subrange(0, q_end) + w.data.subrange(q_end, k_end) + w.data.subrange(
            k_end,
            v_end,
        ) =~= w.data);
    }
    let half = n / 2;
    lemma_whole_rows(w, half);
    lemma_rows_bytes(w, half, half);
    let end = rows_bytes(w, half);
    if n % 2 == 0 {
        assert(half + half == n);
        assert(w.data.subrange(0, end) + w.data.subrange(end, 2 * end) =~= w.data);
    }
}

proof fn lemma_whole_rows(w: WeightView, rows: int)
    requires
        columns(w) % dtype_block(w.dtype) == 0,
    ensures
        rows * columns(w) % dtype_block(w.dtype) == 0,
{
    let (k, block) = (columns(w), dtype_block(w.dtype));
    vstd::arithmetic::div_mod::lemma_fundamental_div_mod(k, block);
    let m = k / block;
    assert(rows * k == (rows * m) * block) by (nonlinear_arith)
        requires
            k == block * m,
    ;
    vstd::arithmetic::div_mod::lemma_mod_multiples_basic(rows * m, block);
}

/// The parts of a fused weight have names that are not fused themselves.
pub open spec fn plain_parts(key: Seq<char>) -> bool {
    if text::holds(key, "qkv_proj"@) {
        let prefix = without_suffix(stem(key), ".qkv_proj"@);
        &&& !is_fused(prefix + ".q_proj.weight"@)
        &&& !is_fused(prefix + ".k_proj.weight"@)
        &&& !is_fused(prefix + ".v_proj.weight"@)
    } else {
        let prefix = without_suffix(stem(key), ".gate_up_proj"@);
        &&& !is_fused(prefix + ".gate_proj.weight"@)
        &&& !is_fused(prefix + ".up_proj.weight"@)
    }
}

/// The name is one of the keys from `n` on.
spec fn due(keys: Seq<Seq<char>>, n: int, name: Seq<char>) -> bool {
    exists|m: int| n <= m < keys.len() && #[trigger] keys[m] == name
}

/// Every fused name of the table is one of the keys from `n` on.
spec fn only_due(t: Seq<NamedView>, keys: Seq<Seq<char>>, n: int) -> bool {
    forall|i: int|
        0 <= i < t.len() && is_fused((#[trigger] t[i]).name) ==> due(keys, n, t[i].name)
}

proof fn lemma_insert_plain(
    t: Seq<NamedView>,
    keys: Seq<Seq<char>>,
    n: int,
    name: Seq<char>,
    w: WeightView,
)
    requires
        only_due(t, keys, n),
        !is_fused(name),
    ensures
        only_due(inserted(t, name, w), keys, n),
{
    let r = inserted(t, name, w);
    assert forall|i: int| 0 <= i < r.len() && is_fused((#[trigger] r[i]).name) implies due(
        keys,
        n,
        r[i].name,
    ) by {
        match name_at(t, name, 0) {
            Some(k) => {
                lemma_name_at(t, name, 0);
                if i != k {
                    assert(r[i] == t[i]);
                }
            },
            None => {
                if i < t.len() {
                    assert(r[i] == t[i]);
                }
            },
        }
    }
}

proof fn lemma_split_removes(t: Seq<NamedView>, keys: Seq<Seq<char>>, n: int, i: int)
    requires
        distinct_names(t),
        only_due(t, keys, n),
        0 <= n < keys.len(),
        0 <= i < t.len(),
        t[i].name == keys[n],
        plain_parts(keys[n]),
    ensures
        only_due(split_at(t, i), keys, n + 1),
{
    let key = t[i].name;
    let w = t[i].weight;
    let rest = t.remove(i);
    let rows = w.shape[0] as int;
    assert(only_due(rest, keys, n + 1)) by {
        assert forall|a: int| 0 <= a < rest.len() && is_fused((#[trigger] rest[a]).name) implies due(
            keys,
            n + 1,
            rest[a].name,
        ) by {
            let b = if a < i {
                a
            } else {
                a + 1
            };
            assert(rest[a] == t[b]);
            assert(t[b].name != t[i].name) by {
                if b < i {
                    assert(t[b].name != t[i].name);
                } else {
                    assert(t[i].name != t[b].name);
                }
            }
            assert(due(keys, n, t[b].name));
            let m = choose|m: int| n <= m < keys.len() && #[trigger] keys[m] == t[b].name;
            assert(m != n);
            assert(keys[m] == rest[a].name);
        }
    }
    if text::holds(key, "qkv_proj"@) {
        let (q, kv) = qkv_rows(rows);
        let q_end = rows_bytes(w, q);
        let k_end = q_end + rows_bytes(w, kv);
        let v_end = k_end + rows_bytes(w, kv);
        let prefix = without_suffix(stem(key), ".qkv_proj"@);
        let s1 = inserted(rest, prefix + ".q_proj.weight"@, part_of(w, 0, q_end, q));
        let s2 = inserted(s1, prefix + ".k_proj.weight"@, part_of(w, q_end, k_end, kv));
        lemma_insert_plain(rest, keys, n + 1, prefix + ".q_proj.weight"@, part_of(w, 0, q_end, q));
        lemma_insert_plain(
            s1,
            keys,
            n + 1,
            prefix + ".k_proj.weight"@,
            part_of(w, q_end, k_end, kv),
        );
        lemma_insert_plain(
            s2,
            keys,
            n + 1,
            prefix + ".v_proj.weight"@,
            part_of(w, k_end, v_end, kv),
        );
    } else if text::holds(key, "gate_up_proj"@) {
        let half = rows / 2;
        let end = rows_bytes(w, half);
        let prefix = without_suffix(stem(key), ".gate_up_proj"@);
        let s1 = inserted(rest, prefix + ".gate_proj.weight"@, part_of(w, 0, end, half));
        lemma_insert_plain(
            rest,
            keys,
            n + 1,
            prefix + ".gate_proj.weight"@,
            part_of(w, 0, end, half),
        );
        lemma_insert_plain(
            s1,
            keys,
            n + 1,
            prefix + ".up_proj.weight"@,
            part_of(w, end, 2 * end, half),
        );
    }
}

proof fn lemma_split_all_removes(s: Seq<NamedView>, keys: Seq<Seq<char>>, n: int)
    requires
        distinct_names(s),
        only_due(s, keys, 0),
        0 <= n <= keys.len(),
        forall|k: int| 0 <= k < keys.len() ==> plain_parts(#[trigger] keys[k]),
    ensures
        only_due(split_all(s, keys, n), keys, n),
    decreases n,
{
    if n > 0 {
        lemma_split_all_removes(s, keys, n - 1);
        lemma_split_distinct(s, keys, n - 1);
        let before = split_all(s, keys, n - 1);
        lemma_name_at(before, keys[n - 1], 0);
        match name_at(before, keys[n - 1], 0) {
            Some(i) => {
                assert(plain_parts(keys[n - 1]));
                lemma_split_removes(before, keys, n - 1, i);
            },
            None => {
                assert forall|i: int|
                    0 <= i < before.len() && is_fused((#[trigger] before[i]).name) implies due(
                    keys,
                    n,
                    before[i].name,
                ) by {
                    assert(due(keys, n - 1, before[i].name));
                    let m = choose|m: int|
                        n - 1 <= m < keys.len() && #[trigger] keys[m] == before[i].name;
                    assert(m != n - 1);
                }
            },
        }
    }
}

/// No fused projection is left in a loaded table, as long as the parts of the
/// fused projections have names that are not fused themselves.
pub proof fn no_fused_weight_remains(b: Seq<u8>, tensors: Seq<TensorView>, start: usize, i: int)
    requires
        forall|k: int|
            0 <= k < fused_names(table_of(b, tensors, start, tensors.len() as int)).len()
                ==> plain_parts(
                #[trigger] fused_names(table_of(b, tensors, start, tensors.len() as int))[k],
            ),
        0 <= i < weights_of(b, tensors, start).len(),
    ensures
        !is_fused(weights_of(b, tensors, start)[i].name),
{
    let table = table_of(b, tensors, start, tensors.len() as int);
    let keys = fused_names(table);
    lemma_table_distinct(b, tensors, start, tensors.len() as int);
    let all = table.map_values(|e: NamedView| e.name);
    let fused = |n: Seq<char>| is_fused(n);
    assert(only_due(table, keys, 0)) by {
        assert forall|k: int| 0 <= k < table.len() && is_fused((#[trigger] table[k]).name) implies due(
            keys,
            0,
            table[k].name,
        ) by {
            assert(all[k] == table[k].name);
            assert(all.contains(table[k].name));
            all.lemma_filter_contains_rev(fused, table[k].name);
            assert(keys.contains(table[k].name));
        }
    }
    lemma_split_all_removes(table, keys, keys.len() as int);
    let done = weights_of(b, tensors, start);
    if is_fused(done[i].name) {
        assert(due(keys, keys.len() as int, done[i].name));
    }
}

proof fn lemma_last_char(s: Seq<char>, c: char, at: int, to: int)
    requires
        0 <= at < to <= s.len(),
        s[at] == c,
        forall|i: int| at < i < to ==> s[i] != c,
    ensures
        last_char(s, c, to) == Some(at),
    decreases to,
{
    if to - 1 > at {
        lemma_last_char(s, c, at, to - 1);
    }
}

/// The prefix of a name that ends in `.` and `part` and `.weight`.
proof fn lemma_prefix(prefix: Seq<char>, part: Seq<char>)
    requires
        part.len() > 0 && part[0] == '.',
    ensures
        without_suffix(stem(prefix + part + ".weight"@), part) == prefix,
{
    reveal_strlit(".weight");
    let head = prefix + part;
    let name = head + ".weight"@;
    assert(name[head.len() as int] == '.');
    lemma_last_char(name, '.', head.len() as int, name.len() as int);
    assert(stem(name) =~= head);
    assert(head.skip(prefix.len() as int) =~= part);
    assert(head.take(prefix.len() as int) =~= prefix);
}

/// A file with one tensor, which is fused and lies within the file, gives the
/// parts of that tensor.
proof fn lemma_one_tensor(b: Seq<u8>, t: TensorView, start: usize)
    requires
        is_fused(t.name),
        offset_of(t, start) + byte_size_of(t) <= b.len(),
    ensures
        ({
            let table = seq![NamedView { name: t.name, weight: weight_of(b, t, start) }];
            weights_of(b, seq![t], start) == split_at(table, 0)
        }),
{
    let tensors = seq![t];
    let table = seq![NamedView { name: t.name, weight: weight_of(b, t, start) }];
    reveal_with_fuel(table_of, 2);
    reveal_with_fuel(split_all, 2);
    reveal_with_fuel(name_at, 2);
    assert(table_of(b, tensors, start, 1) =~= table);
    let all = table.map_values(|e: NamedView| e.name);
    let fused = |n: Seq<char>| is_fused(n);
    reveal(Seq::filter);
    assert(all =~= seq![t.name]);
    assert(all.drop_last() =~= Seq::<Seq<char>>::empty());
    assert(all.drop_last().filter(fused) =~= Seq::<Seq<char>>::empty());
    assert(fused_names(table) =~= seq![t.name]);
    assert(split_all(table, fused_names(table), 0) == table);
    assert(name_at(table, t.name, 0) == Some(0int));
}

proof fn lemma_whole_tensor(b: Seq<u8>, t: TensorView, start: usize)
    requires
        t.dims.len() == 2,
        t.dims[0] <= usize::MAX && t.dims[1] <= usize::MAX,
        t.dims[0] % block_size_of(t.type_id) as u64 == 0,
        0 <= offset_of(t, start),
        offset_of(t, start) + byte_size_of(t) <= b.len(),
    ensures
        ({
            let w = weight_of(b, t, start);
            &&& w.shape == seq![t.dims[1] as usize, t.dims[0] as usize]
            &&& columns(w) % dtype_block(w.dtype) == 0
            &&& w.data.len() == rows_bytes(w, w.shape[0] as int)
        }),
{
    let w = weight_of(b, t, start);
    let (n, k) = (t.dims[1] as usize, t.dims[0] as usize);
    assert(shape_of(t.dims) =~= seq![n, k]);
    reveal_with_fuel(product, 3);
    assert(seq![n, k].drop_last() =~= seq![n]);
    assert(seq![n].drop_last() =~= Seq::<usize>::empty());
    assert(product(seq![n, k]) == n * k) by (nonlinear_arith)
        requires
            product(seq![n, k]) == 1 * n * k || product(seq![n, k]) == n * k,
    ;
    let block = block_size_of(t.type_id) as int;
    assert(block == dtype_block(w.dtype) && block_bytes_of(t.type_id) == dtype_bytes(w.dtype));
    lemma_whole_rows(w, n as int);
    lemma_rows_bytes(w, n as int, 0);
    let cells = n * k;
    assert(cells % block == 0 && cells >= 0 ==> (cells + block - 1) / block == cells / block);
}

/// A file whose one tensor is a fused q, k and v projection of whole blocks,
/// of any known element type, with rows that are divisible by three, gives
/// exactly the three projections: each has a third of the rows and the fused
/// tensor's element type, and together they hold its data.
pub proof fn fused_qkv_is_split(b: Seq<u8>, t: TensorView, start: usize, prefix: Seq<char>)
    requires
        t.name == prefix + ".qkv_proj"@ + ".weight"@,
        t.dims.len() == 2,
        t.dims[0] <= usize::MAX && t.dims[1] <= usize::MAX,
        t.dims[0] % block_size_of(t.type_id) as u64 == 0,
        t.dims[1] % 3 == 0,
        offset_of(t, start) + byte_size_of(t) <= b.len(),
    ensures
        ({
            let out = weights_of(b, seq![t], start);
            let shape = seq![(t.dims[1] / 3) as usize, t.dims[0] as usize];
            &&& out.len() == 3
            &&& out[0].name == prefix + ".q_proj.weight"@
            &&& out[1].name == prefix + ".k_proj.weight"@
            &&& out[2].name == prefix + ".v_proj.weight"@
            &&& forall|i: int|
                0 <= i < 3 ==> (#[trigger] out[i]).weight.shape == shape && out[i].weight.dtype
                    == dtype_of(t.type_id)
            &&& out[0].weight.data + out[1].weight.data + out[2].weight.data == weight_of(
                b,
                t,
                start,
            ).data
        }),
{
    reveal_strlit(".qkv_proj");
    reveal_strlit("qkv_proj");
    reveal_strlit("qkv_proj.weight");
    reveal_strlit(".weight");
    reveal_strlit(".q_proj.weight");
    reveal_strlit(".k_proj.weight");
    reveal_strlit(".v_proj.weight");
    let at = prefix.len() as int + 1;
    assert(t.name.subrange(at, at + 15) =~= "qkv_proj.weight"@);
    assert(text::stands_at(t.name, at, "qkv_proj.weight"@));
    assert(t.name.subrange(at, at + 8) =~= "qkv_proj"@);
    assert(text::stands_at(t.name, at, "qkv_proj"@));
    lemma_prefix(prefix, ".qkv_proj"@);
    lemma_one_tensor(b, t, start);
    lemma_whole_tensor(b, t, start);
    let w = weight_of(b, t, start);
    fused_parts_join(w);
    let table = seq![NamedView { name: t.name, weight: w }];
    let n = w.shape[0] as int;
    let (q, kv) = qkv_rows(n);
    let q_end = rows_bytes(w, q);
    let k_end = q_end + rows_bytes(w, kv);
    let v_end = k_end + rows_bytes(w, kv);
    let rest = table.remove(0);
    assert(rest =~= Seq::<NamedView>::empty());
    reveal_with_fuel(name_at, 4);
    let (nq, nk, nv) = (
        prefix + ".q_proj.weight"@,
        prefix + ".k_proj.weight"@,
        prefix + ".v_proj.weight"@,
    );
    let l = prefix.len() as int;
    assert(nq[l + 1] == 'q' && nk[l + 1] == 'k' && nv[l + 1] == 'v');
    let s1 = inserted(rest, nq, part_of(w, 0, q_end, q));
    assert(s1.len() == 1 && s1[0].name == nq);
    assert(name_at(s1, nk, 0) is None);
    let s2 = inserted(s1, nk, part_of(w, q_end, k_end, kv));
    assert(s2.len() == 2 && s2[0] == s1[0] && s2[1].name == nk);
    assert(name_at(s2, nv, 0) is None);
}

/// A file whose one tensor is a fused gate and up projection of whole blocks,
/// of any known element type, with an even number of rows, gives exactly the
/// two projections: each has half of the rows and the fused tensor's element
/// type, and together they hold its data.
pub proof fn fused_gate_up_is_split(b: Seq<u8>, t: TensorView, start: usize, prefix: Seq<char>)
    requires
        t.name == prefix + ".gate_up_proj"@ + ".weight"@,
        !text::holds(t.name, "qkv_proj"@),
        t.dims.len() == 2,
        t.dims[0] <= usize::MAX && t.dims[1] <= usize::MAX,
        t.dims[0] % block_size_of(t.type_id) as u64 == 0,
        t.dims[1] % 2 == 0,
        offset_of(t, start) + byte_size_of(t) <= b.len(),
    ensures
        ({
            let out = weights_of(b, seq![t], start);
            let shape = seq![(t.dims[1] / 2) as usize, t.dims[0] as usize];
            &&& out.len() == 2
            &&& out[0].name == prefix + ".gate_proj.weight"@
            &&& out[1].name == prefix + ".up_proj.weight"@
            &&& forall|i: int|
                0 <= i < 2 ==> (#[trigger] out[i]).weight.shape == shape && out[i].weight.dtype
                    == dtype_of(t.type_id)
            &&& out[0].weight.data + out[1].weight.data == weight_of(b, t, start).data
        }),
{
    reveal_strlit(".gate_up_proj");
    reveal_strlit("gate_up_proj");
    reveal_strlit("gate_up_proj.weight");
    reveal_strlit(".weight");
    reveal_strlit(".gate_proj.weight");
    reveal_strlit(".up_proj.weight");
    let at = prefix.len() as int + 1;
    assert(t.name.subrange(at, at + 19) =~= "gate_up_proj.weight"@);
    assert(text::stands_at(t.name, at, "gate_up_proj.weight"@));
    assert(t.name.subrange(at, at + 12) =~= "gate_up_proj"@);
    assert(text::stands_at(t.name, at, "gate_up_proj"@));
    lemma_prefix(prefix, ".gate_up_proj"@);
    lemma_one_tensor(b, t, start);
    lemma_whole_tensor(b, t, start);
    let w = weight_of(b, t, start);
    fused_parts_join(w);
    let table = seq![NamedView { name: t.name, weight: w }];
    let rest = table.remove(0);
    assert(rest =~= Seq::<NamedView>::empty());
    reveal_with_fuel(name_at, 3);
    let (ng, nu) = (prefix + ".gate_proj.weight"@, prefix + ".up_proj.weight"@);
    let l = prefix.len() as int;
    assert(ng[l + 1] == 'g' && nu[l + 1] == 'u');
    let half = w.shape[0] as int / 2;
    let end = rows_bytes(w, half);
    let s1 = inserted(rest, ng, part_of(w, 0, end, half));
    assert(s1.len() == 1 && s1[0].name == ng);
    assert(name_at(s1, nu, 0) is None);
}

} // verus!
