//! GGUF files: what is written is what is read.

use vstd::prelude::*;
use vstd::utf8::encode_utf8;

use crate::loader::gguf::{
    alignment_of, count_at, dims_at, header_of, key_at, meta_put, metadata_at, string_at,
    tensor_at, tensors_at, u16_at, u32_at, u64_at, u8_at, value_at, value_u32, value_u64,
    values_at, GgufError, MetaView, TensorView, ValueView,
};
use crate::loader::gguf_weights::{block_bytes_of, block_size_of, dtype_of, shape_of, weight_of};
use crate::loader::{extension_format, magic_format, ModelFormat};
use crate::tensor::product;
use crate::text;

verus! {

/// A number in so many bytes, the lowest first.
pub open spec fn le(n: int, bytes: nat) -> Seq<u8>
    decreases bytes,
{
    if bytes == 0 {
        Seq::empty()
    } else {
        seq![(n % 256) as u8] + le(n / 256, (bytes - 1) as nat)
    }
}

/// The bytes stand in the file from this place on.
pub open spec fn stands(b: Seq<u8>, pos: int, w: Seq<u8>) -> bool {
    &&& 0 <= pos
    &&& pos + w.len() <= b.len()
    &&& b.subrange(pos, pos + w.len()) == w
}

proof fn lemma_split(b: Seq<u8>, pos: int, v: Seq<u8>, w: Seq<u8>)
    requires
        stands(b, pos, v + w),
    ensures
        stands(b, pos, v),
        stands(b, pos + v.len(), w),
{
    let whole = b.subrange(pos, pos + (v + w).len());
    assert(b.subrange(pos, pos + v.len()) =~= v) by {
        assert forall|i: int| 0 <= i < v.len() implies b[pos + i] == v[i] by {
            assert(whole[i] == (v + w)[i]);
        }
    }
    assert(b.subrange(pos + v.len(), pos + v.len() + w.len()) =~= w) by {
        assert forall|i: int| 0 <= i < w.len() implies b[pos + v.len() + i] == w[i] by {
            assert(whole[v.len() + i] == (v + w)[v.len() + i]);
        }
    }
}

proof fn lemma_le(n: int, bytes: nat, i: int)
    requires
        0 <= i < bytes,
    ensures
        le(n, bytes).len() == bytes,
        i == 0 ==> le(n, bytes)[i] == n % 256,
        i > 0 ==> le(n, bytes)[i] == le(n / 256, (bytes - 1) as nat)[i - 1],
    decreases bytes,
{
    if bytes > 1 {
        lemma_le(n / 256, (bytes - 1) as nat, 0);
    } else {
        assert(le(n / 256, 0) =~= Seq::empty());
    }
}

proof fn lemma_byte(b: Seq<u8>, pos: int, w: Seq<u8>, i: int)
    requires
        stands(b, pos, w),
        0 <= i < w.len(),
    ensures
        b[pos + i] == w[i],
{
    assert(b.subrange(pos, pos + w.len())[i] == w[i]);
}

/// A number of two, four or eight bytes reads back.
#[verifier::spinoff_prover]
#[verifier::rlimit(40)]
pub proof fn numbers_read_back(b: Seq<u8>, pos: int, n: int)
    ensures
        stands(b, pos, le(n, 1)) && 0 <= n < 0x100 ==> u8_at(b, pos) == Ok::<(u8, int), GgufError>(
            (n as u8, pos + 1),
        ),
        stands(b, pos, le(n, 2)) && 0 <= n < 0x1_0000 ==> u16_at(b, pos) == Ok::<
            (u16, int),
            GgufError,
        >((n as u16, pos + 2)),
        stands(b, pos, le(n, 4)) && 0 <= n < 0x1_0000_0000 ==> u32_at(b, pos) == Ok::<
            (u32, int),
            GgufError,
        >((n as u32, pos + 4)),
        stands(b, pos, le(n, 8)) && 0 <= n < 0x1_0000_0000_0000_0000 ==> u64_at(b, pos) == Ok::<
            (u64, int),
            GgufError,
        >((n as u64, pos + 8)),
{
    lemma_le(n, 1, 0);
    if stands(b, pos, le(n, 1)) {
        lemma_byte(b, pos, le(n, 1), 0);
    }
    lemma_le(n, 2, 0);
    lemma_le(n, 2, 1);
    lemma_le(n / 256, 1, 0);
    if stands(b, pos, le(n, 2)) {
        lemma_byte(b, pos, le(n, 2), 0);
        lemma_byte(b, pos, le(n, 2), 1);
    }
    if stands(b, pos, le(n, 4)) && 0 <= n < 0x1_0000_0000 {
        lemma_four(b, pos, n, le(n, 4));
    }
    if stands(b, pos, le(n, 8)) && 0 <= n < 0x1_0000_0000_0000_0000 {
        lemma_eight(b, pos, n);
    }
}

proof fn lemma_four(b: Seq<u8>, pos: int, n: int, w: Seq<u8>)
    requires
        w == le(n, 4),
        stands(b, pos, w),
    ensures
        b[pos] == n % 256,
        b[pos + 1] == n / 256 % 256,
        b[pos + 2] == n / 256 / 256 % 256,
        b[pos + 3] == n / 256 / 256 / 256 % 256,
        pos + 4 <= b.len(),
{
    lemma_le(n, 4, 0);
    lemma_le(n, 4, 1);
    lemma_le(n, 4, 2);
    lemma_le(n, 4, 3);
    lemma_le(n / 256, 3, 0);
    lemma_le(n / 256, 3, 1);
    lemma_le(n / 256, 3, 2);
    lemma_le(n / 256 / 256, 2, 0);
    lemma_le(n / 256 / 256, 2, 1);
    lemma_le(n / 256 / 256 / 256, 1, 0);
    lemma_byte(b, pos, w, 0);
    lemma_byte(b, pos, w, 1);
    lemma_byte(b, pos, w, 2);
    lemma_byte(b, pos, w, 3);
}

proof fn lemma_halves(n: int)
    ensures
        le(n, 8) == le(n, 4) + le(n / 256 / 256 / 256 / 256, 4),
{
    let rest = le(n / 256 / 256 / 256 / 256, 4);
    assert(le(n, 8) =~= seq![(n % 256) as u8] + le(n / 256, 7));
    assert(le(n / 256, 7) =~= seq![(n / 256 % 256) as u8] + le(n / 256 / 256, 6));
    assert(le(n / 256 / 256, 6) =~= seq![(n / 256 / 256 % 256) as u8] + le(
        n / 256 / 256 / 256,
        5,
    ));
    assert(le(n / 256 / 256 / 256, 5) =~= seq![(n / 256 / 256 / 256 % 256) as u8] + rest);
    assert(le(n, 4) =~= seq![(n % 256) as u8] + le(n / 256, 3));
    assert(le(n / 256, 3) =~= seq![(n / 256 % 256) as u8] + le(n / 256 / 256, 2));
    assert(le(n / 256 / 256, 2) =~= seq![(n / 256 / 256 % 256) as u8] + le(
        n / 256 / 256 / 256,
        1,
    ));
    assert(le(n / 256 / 256 / 256, 1) =~= seq![(n / 256 / 256 / 256 % 256) as u8] + le(
        n / 256 / 256 / 256 / 256,
        0,
    ));
    assert(le(n, 8) =~= le(n, 4) + rest);
}

proof fn lemma_digits(n: int, q: int, d: int)
    requires
        q == n / 256,
        d == n % 256,
    ensures
        n == d + 256 * q,
        0 <= d < 256,
{
}

proof fn lemma_eight(b: Seq<u8>, pos: int, n: int)
    requires
        stands(b, pos, le(n, 8)),
        0 <= n < 0x1_0000_0000_0000_0000,
    ensures
        u64_at(b, pos) == Ok::<(u64, int), GgufError>((n as u64, pos + 8)),
{
    lemma_halves(n);
    let q1 = n / 256;
    let q2 = q1 / 256;
    let q3 = q2 / 256;
    let q4 = q3 / 256;
    let q5 = q4 / 256;
    let q6 = q5 / 256;
    let q7 = q6 / 256;
    let q8 = q7 / 256;
    lemma_le(n, 4, 0);
    lemma_split(b, pos, le(n, 4), le(q4, 4));
    lemma_four(b, pos, n, le(n, 4));
    lemma_le(q4, 4, 0);
    lemma_four(b, pos + 4, q4, le(q4, 4));
    lemma_digits(n, q1, n % 256);
    lemma_digits(q1, q2, q1 % 256);
    lemma_digits(q2, q3, q2 % 256);
    lemma_digits(q3, q4, q3 % 256);
    lemma_digits(q4, q5, q4 % 256);
    lemma_digits(q5, q6, q5 % 256);
    lemma_digits(q6, q7, q6 % 256);
    lemma_digits(q7, q8, q7 % 256);
    assert(q8 == 0);
}

/// A string as it is written: its length in bytes and its bytes.
pub open spec fn written_string(s: Seq<char>) -> Seq<u8> {
    le(encode_utf8(s).len() as int, 8) + encode_utf8(s)
}

/// No string of a header is longer.
pub open spec fn short(s: Seq<char>) -> bool {
    encode_utf8(s).len() <= 0x400_0000
}

/// A string reads back.
pub proof fn strings_read_back(b: Seq<u8>, pos: int, s: Seq<char>)
    requires
        stands(b, pos, written_string(s)),
        short(s),
    ensures
        string_at(b, pos) == Ok::<(Seq<char>, int), GgufError>(
            (s, pos + written_string(s).len()),
        ),
        written_string(s).len() == 8 + encode_utf8(s).len(),
{
    let u = encode_utf8(s);
    lemma_le(u.len() as int, 8, 0);
    lemma_split(b, pos, le(u.len() as int, 8), u);
    numbers_read_back(b, pos, u.len() as int);
    vstd::utf8::encode_utf8_valid_utf8(s);
    vstd::utf8::encode_utf8_decode_utf8(s);
}

/// The number that tells the type of a value, for values that are no arrays.
pub open spec fn tag_of(v: ValueView) -> u32 {
    match v {
        ValueView::U8(_) => 0,
        ValueView::I8(_) => 1,
        ValueView::U16(_) => 2,
        ValueView::I16(_) => 3,
        ValueView::U32(_) => 4,
        ValueView::I32(_) => 5,
        ValueView::F32(_) => 6,
        ValueView::Bool(_) => 7,
        ValueView::Str(_) => 8,
        ValueView::Array(_) => 9,
        ValueView::U64(_) => 10,
        ValueView::I64(_) => 11,
        ValueView::F64(_) => 12,
    }
}

/// A number in two's complement.
pub open spec fn wrapped(n: int, modulus: int) -> int {
    if n < 0 {
        n + modulus
    } else {
        n
    }
}

/// A value that is no array as it is written.
pub open spec fn written(v: ValueView) -> Seq<u8> {
    match v {
        ValueView::U8(x) => le(x as int, 1),
        ValueView::I8(x) => le(wrapped(x as int, 0x100), 1),
        ValueView::U16(x) => le(x as int, 2),
        ValueView::I16(x) => le(wrapped(x as int, 0x1_0000), 2),
        ValueView::U32(x) => le(x as int, 4),
        ValueView::I32(x) => le(wrapped(x as int, 0x1_0000_0000), 4),
        ValueView::F32(x) => le(x as int, 4),
        ValueView::Bool(x) => le(
            if x {
                1
            } else {
                0
            },
            1,
        ),
        ValueView::Str(s) => written_string(s),
        ValueView::U64(x) => le(x as int, 8),
        ValueView::I64(x) => le(wrapped(x as int, 0x1_0000_0000_0000_0000), 8),
        ValueView::F64(x) => le(x as int, 8),
        ValueView::Array(_) => Seq::empty(),
    }
}

/// The value is no array, and no string that is too long.
pub open spec fn is_plain(v: ValueView) -> bool {
    !(v is Array) && (v matches ValueView::Str(s) ==> short(s))
}

proof fn lemma_signs()
    ensures
        forall|x: i8| (#[trigger] wrapped(x as int, 0x100)) as u8 as i8 == x,
        forall|x: i16| (#[trigger] wrapped(x as int, 0x1_0000)) as u16 as i16 == x,
        forall|x: i32| (#[trigger] wrapped(x as int, 0x1_0000_0000)) as u32 as i32 == x,
        forall|x: i64| (#[trigger] wrapped(x as int, 0x1_0000_0000_0000_0000)) as u64 as i64 == x,
{
    assert(forall|u: u8| u >= 0x80 ==> #[trigger] (u as i8) == u - 0x100) by (bit_vector);
    assert(forall|u: u16| u >= 0x8000 ==> #[trigger] (u as i16) == u - 0x1_0000) by (bit_vector);
    assert(forall|u: u32| u >= 0x8000_0000 ==> #[trigger] (u as i32) == u - 0x1_0000_0000)
        by (bit_vector);
    assert(forall|u: u64|
        u >= 0x8000_0000_0000_0000 ==> #[trigger] (u as i64) == u - 0x1_0000_0000_0000_0000)
        by (bit_vector);
}

/// A value reads back, of every type.
#[verifier::spinoff_prover]
#[verifier::rlimit(40)]
pub proof fn values_read_back(b: Seq<u8>, pos: int, v: ValueView)
    requires
        is_plain(v),
        stands(b, pos, written(v)),
    ensures
        value_at(b, pos, tag_of(v)) == Ok::<(ValueView, int), GgufError>(
            (v, pos + written(v).len()),
        ),
        written(v).len() > 0,
{
    lemma_signs();
    match v {
        ValueView::U8(x) => {
            numbers_read_back(b, pos, x as int);
            lemma_le(x as int, 1, 0);
        },
        ValueView::I8(x) => {
            numbers_read_back(b, pos, wrapped(x as int, 0x100));
            lemma_le(wrapped(x as int, 0x100), 1, 0);
        },
        ValueView::U16(x) => {
            numbers_read_back(b, pos, x as int);
            lemma_le(x as int, 2, 0);
        },
        ValueView::I16(x) => {
            numbers_read_back(b, pos, wrapped(x as int, 0x1_0000));
            lemma_le(wrapped(x as int, 0x1_0000), 2, 0);
        },
        ValueView::U32(x) => {
            numbers_read_back(b, pos, x as int);
            lemma_le(x as int, 4, 0);
        },
        ValueView::I32(x) => {
            numbers_read_back(b, pos, wrapped(x as int, 0x1_0000_0000));
            lemma_le(wrapped(x as int, 0x1_0000_0000), 4, 0);
        },
        ValueView::F32(x) => {
            numbers_read_back(b, pos, x as int);
            lemma_le(x as int, 4, 0);
        },
        ValueView::Bool(x) => {
            let n: int = if x {
                1
            } else {
                0
            };
            numbers_read_back(b, pos, n);
            lemma_le(n, 1, 0);
        },
        ValueView::Str(s) => {
            strings_read_back(b, pos, s);
        },
        ValueView::U64(x) => {
            numbers_read_back(b, pos, x as int);
            lemma_le(x as int, 8, 0);
        },
        ValueView::I64(x) => {
            numbers_read_back(b, pos, wrapped(x as int, 0x1_0000_0000_0000_0000));
            lemma_le(wrapped(x as int, 0x1_0000_0000_0000_0000), 8, 0);
        },
        ValueView::F64(x) => {
            numbers_read_back(b, pos, x as int);
            lemma_le(x as int, 8, 0);
        },
        ValueView::Array(_) => {},
    }
}

/// Values one after the other.
pub open spec fn written_all(vs: Seq<ValueView>) -> Seq<u8>
    decreases vs.len(),
{
    if vs.len() == 0 {
        Seq::empty()
    } else {
        written(vs[0]) + written_all(vs.skip(1))
    }
}

/// All values are plain and of one type.
pub open spec fn are_plain(vs: Seq<ValueView>, tag: u32) -> bool {
    forall|i: int| 0 <= i < vs.len() ==> is_plain(#[trigger] vs[i]) && tag_of(vs[i]) == tag
}

proof fn lemma_values(b: Seq<u8>, pos: int, vs: Seq<ValueView>, tag: u32)
    requires
        are_plain(vs, tag),
        stands(b, pos, written_all(vs)),
    ensures
        values_at(b, pos, tag, vs.len()) == Ok::<(Seq<ValueView>, int), GgufError>(
            (vs, pos + written_all(vs).len()),
        ),
    decreases vs.len(),
{
    if vs.len() > 0 {
        let rest = vs.skip(1);
        lemma_split(b, pos, written(vs[0]), written_all(rest));
        values_read_back(b, pos, vs[0]);
        assert forall|i: int| 0 <= i < rest.len() implies is_plain(#[trigger] rest[i]) && tag_of(
            rest[i],
        ) == tag by {
            assert(rest[i] == vs[i + 1]);
        }
        lemma_values(b, pos + written(vs[0]).len(), rest, tag);
        assert(seq![vs[0]] + rest =~= vs);
    } else {
        assert(vs =~= Seq::empty());
    }
}

/// An array of values of one type reads back: the type, the length, and the
/// values in order.
pub proof fn arrays_read_back(b: Seq<u8>, pos: int, vs: Seq<ValueView>, tag: u32)
    requires
        are_plain(vs, tag),
        vs.len() <= 100_000_000,
        stands(b, pos, le(tag as int, 4) + (le(vs.len() as int, 8) + written_all(vs))),
    ensures
        value_at(b, pos, 9) == Ok::<(ValueView, int), GgufError>(
            (ValueView::Array(vs), pos + 12 + written_all(vs).len()),
        ),
{
    lemma_le(tag as int, 4, 0);
    lemma_le(vs.len() as int, 8, 0);
    lemma_split(b, pos, le(tag as int, 4), le(vs.len() as int, 8) + written_all(vs));
    lemma_split(b, pos + 4, le(vs.len() as int, 8), written_all(vs));
    numbers_read_back(b, pos, tag as int);
    numbers_read_back(b, pos + 4, vs.len() as int);
    lemma_values(b, pos + 12, vs, tag);
}

/// An entry of the metadata: its key, the type of its value, and the value.
pub open spec fn written_entry(e: MetaView) -> Seq<u8> {
    written_string(e.key) + (le(tag_of(e.value) as int, 4) + written(e.value))
}

/// Entries one after the other.
pub open spec fn written_entries(es: Seq<MetaView>) -> Seq<u8>
    decreases es.len(),
{
    if es.len() == 0 {
        Seq::empty()
    } else {
        written_entry(es[0]) + written_entries(es.skip(1))
    }
}

/// Plain entries, no two with the same key.
pub open spec fn are_entries(es: Seq<MetaView>) -> bool {
    &&& forall|i: int| 0 <= i < es.len() ==> is_plain((#[trigger] es[i]).value) && short(es[i].key)
    &&& forall|i: int, j: int|
        0 <= i < j < es.len() ==> (#[trigger] es[i]).key != (#[trigger] es[j]).key
}

proof fn lemma_no_key(m: Seq<MetaView>, key: Seq<char>, from: int)
    requires
        0 <= from,
        forall|i: int| from <= i < m.len() ==> (#[trigger] m[i]).key != key,
    ensures
        key_at(m, key, from) is None,
    decreases m.len() - from,
{
    if from < m.len() {
        lemma_no_key(m, key, from + 1);
    }
}

#[verifier::spinoff_prover]
#[verifier::rlimit(40)]
proof fn lemma_entries(b: Seq<u8>, pos: int, before: Seq<MetaView>, es: Seq<MetaView>)
    requires
        are_entries(before + es),
        stands(b, pos, written_entries(es)),
    ensures
        metadata_at(b, pos, es.len(), before) == Ok::<(Seq<MetaView>, int), GgufError>(
            (before + es, pos + written_entries(es).len()),
        ),
    decreases es.len(),
{
    if es.len() > 0 {
        let e = es[0];
        let rest = es.skip(1);
        assert((before + es)[before.len() as int] == e);
        let head = written_string(e.key);
        let tag = le(tag_of(e.value) as int, 4);
        lemma_split(b, pos, written_entry(e), written_entries(rest));
        lemma_split(b, pos, head, tag + written(e.value));
        lemma_split(b, pos + head.len(), tag, written(e.value));
        strings_read_back(b, pos, e.key);
        lemma_le(tag_of(e.value) as int, 4, 0);
        numbers_read_back(b, pos + head.len(), tag_of(e.value) as int);
        values_read_back(b, pos + head.len() + 4, e.value);
        assert forall|i: int| 0 <= i < before.len() implies (#[trigger] before[i]).key != e.key by {
            assert((before + es)[i] == before[i]);
        }
        lemma_no_key(before, e.key, 0);
        assert(meta_put(before, e.key, e.value) == before.push(e));
        assert(before.push(e) + rest =~= before + es);
        lemma_entries(b, pos + written_entry(e).len(), before.push(e), rest);
    } else {
        assert(before + es =~= before);
    }
}

/// A key that is there again takes the new value in its old place; the other
/// entries stay.
pub proof fn later_entries_win(m: Seq<MetaView>, key: Seq<char>, value: ValueView, k: int)
    requires
        0 <= k < m.len(),
        m[k].key == key,
        forall|i: int| 0 <= i < k ==> (#[trigger] m[i]).key != key,
    ensures
        meta_put(m, key, value).len() == m.len(),
        meta_put(m, key, value)[k] == (MetaView { key, value }),
        forall|i: int| 0 <= i < m.len() && i != k ==> #[trigger] meta_put(m, key, value)[i] == m[i],
{
    lemma_first_key(m, key, 0, k);
}

proof fn lemma_first_key(m: Seq<MetaView>, key: Seq<char>, from: int, k: int)
    requires
        0 <= from <= k < m.len(),
        m[k].key == key,
        forall|i: int| from <= i < k ==> (#[trigger] m[i]).key != key,
    ensures
        key_at(m, key, from) == Some(k),
    decreases k - from,
{
    if from < k {
        assert(m[from].key != key);
        lemma_first_key(m, key, from + 1, k);
    }
}

/// Dimensions one after the other.
pub open spec fn written_dims(ds: Seq<u64>) -> Seq<u8>
    decreases ds.len(),
{
    if ds.len() == 0 {
        Seq::empty()
    } else {
        le(ds[0] as int, 8) + written_dims(ds.skip(1))
    }
}

/// An entry of the tensor table: the name, the dimensions, the type, and where
/// the data is.
pub open spec fn written_tensor(t: TensorView) -> Seq<u8> {
    written_string(t.name) + (le(t.dims.len() as int, 4) + (written_dims(t.dims) + (le(
        t.type_id as int,
        4,
    ) + le(t.offset as int, 8))))
}

/// Tensors one after the other.
pub open spec fn written_tensors(ts: Seq<TensorView>) -> Seq<u8>
    decreases ts.len(),
{
    if ts.len() == 0 {
        Seq::empty()
    } else {
        written_tensor(ts[0]) + written_tensors(ts.skip(1))
    }
}

/// The names are short, and the dimensions can be counted.
pub open spec fn are_tensors(ts: Seq<TensorView>) -> bool {
    forall|i: int|
        0 <= i < ts.len() ==> short((#[trigger] ts[i]).name) && ts[i].dims.len() < 0x1_0000_0000
}

proof fn lemma_dims(b: Seq<u8>, pos: int, before: Seq<u64>, ds: Seq<u64>)
    requires
        stands(b, pos, written_dims(ds)),
    ensures
        dims_at(b, pos, ds.len(), before) == Ok::<(Seq<u64>, int), GgufError>(
            (before + ds, pos + written_dims(ds).len()),
        ),
    decreases ds.len(),
{
    if ds.len() > 0 {
        let rest = ds.skip(1);
        lemma_split(b, pos, le(ds[0] as int, 8), written_dims(rest));
        lemma_le(ds[0] as int, 8, 0);
        numbers_read_back(b, pos, ds[0] as int);
        assert(before.push(ds[0]) + rest =~= before + ds);
        lemma_dims(b, pos + 8, before.push(ds[0]), rest);
    } else {
        assert(before + ds =~= before);
    }
}

#[verifier::spinoff_prover]
#[verifier::rlimit(40)]
proof fn lemma_tensor(b: Seq<u8>, pos: int, t: TensorView)
    requires
        stands(b, pos, written_tensor(t)),
        short(t.name),
        t.dims.len() < 0x1_0000_0000,
    ensures
        tensor_at(b, pos) == Ok::<(TensorView, int), GgufError>(
            (t, pos + written_tensor(t).len()),
        ),
{
    let name = written_string(t.name);
    let count = le(t.dims.len() as int, 4);
    let dims = written_dims(t.dims);
    let ty = le(t.type_id as int, 4);
    let off = le(t.offset as int, 8);
    lemma_le(t.dims.len() as int, 4, 0);
    lemma_le(t.type_id as int, 4, 0);
    lemma_le(t.offset as int, 8, 0);
    lemma_split(b, pos, name, count + (dims + (ty + off)));
    let p1 = pos + name.len();
    lemma_split(b, p1, count, dims + (ty + off));
    lemma_split(b, p1 + 4, dims, ty + off);
    let p3 = p1 + 4 + dims.len();
    lemma_split(b, p3, ty, off);
    strings_read_back(b, pos, t.name);
    numbers_read_back(b, p1, t.dims.len() as int);
    lemma_dims(b, p1 + 4, Seq::empty(), t.dims);
    assert(Seq::<u64>::empty() + t.dims =~= t.dims);
    numbers_read_back(b, p3, t.type_id as int);
    numbers_read_back(b, p3 + 4, t.offset as int);
}

proof fn lemma_tensors(b: Seq<u8>, pos: int, before: Seq<TensorView>, ts: Seq<TensorView>)
    requires
        are_tensors(ts),
        stands(b, pos, written_tensors(ts)),
    ensures
        tensors_at(b, pos, ts.len(), before) == Ok::<(Seq<TensorView>, int), GgufError>(
            (before + ts, pos + written_tensors(ts).len()),
        ),
    decreases ts.len(),
{
    if ts.len() > 0 {
        let rest = ts.skip(1);
        lemma_split(b, pos, written_tensor(ts[0]), written_tensors(rest));
        lemma_tensor(b, pos, ts[0]);
        assert(before.push(ts[0]) + rest =~= before + ts);
        assert forall|i: int| 0 <= i < rest.len() implies short((#[trigger] rest[i]).name)
            && rest[i].dims.len() < 0x1_0000_0000 by {
            assert(rest[i] == ts[i + 1]);
        }
        lemma_tensors(b, pos + written_tensor(ts[0]).len(), before.push(ts[0]), rest);
    } else {
        assert(before + ts =~= before);
    }
}

/// Bytes of the counts of a header: eight from the third version on, four
/// before.
pub open spec fn count_width(version: u32) -> nat {
    if version < 3 {
        4
    } else {
        8
    }
}

/// A header: the mark of the format, the version, how many tensors and entries
/// there are, the entries, and the tensors.
pub open spec fn written_header(version: u32, es: Seq<MetaView>, ts: Seq<TensorView>) -> Seq<u8> {
    let w = count_width(version);
    seq![0x47u8, 0x47u8, 0x55u8, 0x46u8] + (le(version as int, 4) + (le(ts.len() as int, w) + (le(
        es.len() as int,
        w,
    ) + (written_entries(es) + written_tensors(ts)))))
}

proof fn lemma_count(b: Seq<u8>, pos: int, n: int, version: u32)
    requires
        0 <= n < 0x1_0000_0000,
        stands(b, pos, le(n, count_width(version))),
    ensures
        count_at(b, pos, version) == Ok::<(u64, int), GgufError>(
            (n as u64, pos + count_width(version)),
        ),
{
    numbers_read_back(b, pos, n);
}

/// A file that begins with a header is read as that header, whatever follows:
/// the same entries and tensors in the same order, and the place after them.
#[verifier::spinoff_prover]
pub proof fn headers_read_back(b: Seq<u8>, version: u32, es: Seq<MetaView>, ts: Seq<TensorView>)
    requires
        are_entries(es),
        are_tensors(ts),
        es.len() < 0x1_0000_0000,
        ts.len() < 0x1_0000_0000,
        b.len() >= 24,
        stands(b, 0, written_header(version, es, ts)),
    ensures
        header_of(b) == Ok::<(Seq<MetaView>, Seq<TensorView>, int), GgufError>(
            (es, ts, written_header(version, es, ts).len() as int),
        ),
{
    let w = count_width(version);
    let magic = seq![0x47u8, 0x47u8, 0x55u8, 0x46u8];
    let c1 = le(ts.len() as int, w);
    let c2 = le(es.len() as int, w);
    let tail = written_entries(es) + written_tensors(ts);
    lemma_le(version as int, 4, 0);
    lemma_le(ts.len() as int, w, 0);
    lemma_le(es.len() as int, w, 0);
    lemma_split(b, 0, magic, le(version as int, 4) + (c1 + (c2 + tail)));
    lemma_byte(b, 0, magic, 0);
    lemma_byte(b, 0, magic, 1);
    lemma_byte(b, 0, magic, 2);
    lemma_byte(b, 0, magic, 3);
    lemma_split(b, 4, le(version as int, 4), c1 + (c2 + tail));
    numbers_read_back(b, 4, version as int);
    lemma_split(b, 8, c1, c2 + tail);
    lemma_count(b, 8, ts.len() as int, version);
    let p2 = 8 + w as int;
    lemma_split(b, p2, c2, tail);
    lemma_count(b, p2, es.len() as int, version);
    let p3 = p2 + w as int;
    lemma_split(b, p3, written_entries(es), written_tensors(ts));
    assert(Seq::<MetaView>::empty() + es =~= es);
    assert(Seq::<TensorView>::empty() + ts =~= ts);
    lemma_entries(b, p3, Seq::empty(), es);
    lemma_tensors(b, p3 + written_entries(es).len(), Seq::empty(), ts);
}

/// The alignment is the integer under its key, and 32 where there is none.
pub proof fn alignment_is_under_its_key(m: Seq<MetaView>, k: int, n: u32)
    ensures
        (forall|i: int| 0 <= i < m.len() ==> (#[trigger] m[i]).key != "general.alignment"@)
            ==> alignment_of(m) == 32,
        0 <= k < m.len() && m[k].key == "general.alignment"@ && (forall|i: int|
            0 <= i < k ==> (#[trigger] m[i]).key != "general.alignment"@) && m[k].value
            == ValueView::U32(n) ==> alignment_of(m) == n,
{
    if forall|i: int| 0 <= i < m.len() ==> (#[trigger] m[i]).key != "general.alignment"@ {
        lemma_no_key(m, "general.alignment"@, 0);
    }
    if 0 <= k < m.len() && m[k].key == "general.alignment"@ && (forall|i: int|
        0 <= i < k ==> (#[trigger] m[i]).key != "general.alignment"@) {
        lemma_first_key(m, "general.alignment"@, 0, k);
    }
}

/// Integers of all types are read as the same number, where it is not negative
/// and not too large.
pub proof fn integers_keep_their_number(n: int)
    requires
        0 <= n < 128,
    ensures
        value_u32(ValueView::U8(n as u8)) == Some(n as u32),
        value_u32(ValueView::I8(n as i8)) == Some(n as u32),
        value_u32(ValueView::U16(n as u16)) == Some(n as u32),
        value_u32(ValueView::I16(n as i16)) == Some(n as u32),
        value_u32(ValueView::U32(n as u32)) == Some(n as u32),
        value_u32(ValueView::I32(n as i32)) == Some(n as u32),
        value_u32(ValueView::U64(n as u64)) == Some(n as u32),
        value_u32(ValueView::I64(n as i64)) == Some(n as u32),
        value_u64(ValueView::U8(n as u8)) == Some(n as u64),
        value_u64(ValueView::I8(n as i8)) == Some(n as u64),
        value_u64(ValueView::U16(n as u16)) == Some(n as u64),
        value_u64(ValueView::I16(n as i16)) == Some(n as u64),
        value_u64(ValueView::U32(n as u32)) == Some(n as u64),
        value_u64(ValueView::I32(n as i32)) == Some(n as u64),
        value_u64(ValueView::U64(n as u64)) == Some(n as u64),
        value_u64(ValueView::I64(n as i64)) == Some(n as u64),
        value_u32(ValueView::F32(n as u32)) is None && value_u64(ValueView::F32(n as u32)) is None,
        value_u32(ValueView::Bool(true)) is None && value_u64(ValueView::Bool(true)) is None,
{
}

/// Elements and bytes of a block of each tensor type, and what it is read as;
/// unknown types are single-precision floats.
pub proof fn tensor_types_have_their_blocks(ty: u32)
    ensures
        ty == 0 ==> dtype_of(ty) is F32 && block_size_of(ty) == 1 && block_bytes_of(ty) == 4,
        ty == 1 ==> dtype_of(ty) is F16 && block_size_of(ty) == 1 && block_bytes_of(ty) == 2,
        ty == 2 ==> dtype_of(ty) is Q4_0 && block_size_of(ty) == 32 && block_bytes_of(ty) == 18,
        ty == 3 ==> dtype_of(ty) is Q4_1 && block_size_of(ty) == 32 && block_bytes_of(ty) == 20,
        ty == 8 ==> dtype_of(ty) is Q8_0 && block_size_of(ty) == 32 && block_bytes_of(ty) == 34,
        ty == 10 ==> dtype_of(ty) is Q3_K && block_size_of(ty) == 256 && block_bytes_of(ty) == 110,
        ty == 11 ==> dtype_of(ty) is Q2_K && block_size_of(ty) == 256 && block_bytes_of(ty) == 84,
        ty == 12 ==> dtype_of(ty) is Q4_K && block_size_of(ty) == 256 && block_bytes_of(ty) == 144,
        ty == 13 ==> dtype_of(ty) is Q5_K && block_size_of(ty) == 256 && block_bytes_of(ty) == 176,
        ty == 14 ==> dtype_of(ty) is Q6_K && block_size_of(ty) == 256 && block_bytes_of(ty) == 210,
        dtype_of(ty) is F32 ==> block_size_of(ty) == 1 && block_bytes_of(ty) == 4,
        ty > 14 || ty == 9 || 4 <= ty <= 7 ==> dtype_of(ty) is F32,
{
}

/// A tensor of two dimensions has them in the other order, one of one keeps
/// it; its data are the bytes of its blocks, from its place behind the header.
#[verifier::spinoff_prover]
#[verifier::rlimit(40)]
pub proof fn tensors_are_cut_out(b: Seq<u8>, t: TensorView, start: usize, blocks: int)
    requires
        t.offset <= usize::MAX,
        t.dims.len() == 2,
        t.dims[0] <= usize::MAX && t.dims[1] <= usize::MAX,
        0 <= blocks,
        t.dims[1] * t.dims[0] == blocks * block_size_of(t.type_id),
    ensures
        ({
            let w = weight_of(b, t, start);
            let at = start + t.offset;
            &&& w.shape =~= seq![t.dims[1] as usize, t.dims[0] as usize]
            &&& w.dtype == dtype_of(t.type_id)
            &&& !w.needs_transpose
            &&& w.data == b.subrange(at, at + blocks * block_bytes_of(t.type_id))
        }),
        shape_of(seq![t.dims[0]]) =~= seq![t.dims[0] as usize],
{
    let s = shape_of(t.dims);
    assert(s =~= seq![t.dims[1] as usize, t.dims[0] as usize]);
    crate::laws::cpu::sizes_multiply(Seq::empty(), t.dims[1] as usize);
    crate::laws::cpu::sizes_multiply(
        Seq::<usize>::empty().push(t.dims[1] as usize),
        t.dims[0] as usize,
    );
    assert(s =~= Seq::<usize>::empty().push(t.dims[1] as usize).push(t.dims[0] as usize));
    assert(product(s) == t.dims[1] * t.dims[0]) by {
        assert(t.dims[0] * t.dims[1] == t.dims[1] * t.dims[0]) by (nonlinear_arith);
    }
    let block = block_size_of(t.type_id) as int;
    vstd::arithmetic::div_mod::lemma_fundamental_div_mod_converse(
        product(s) + block - 1,
        block,
        blocks,
        block - 1,
    );
}

/// A file is known by the end of its name, or else by its first bytes.
pub proof fn formats_are_told_apart(ext: Seq<char>, head: Seq<u8>)
    ensures
        extension_format(ext) == Some(ModelFormat::Onnx) <==> ext == "onnx"@,
        extension_format(ext) == Some(ModelFormat::Safetensors) <==> ext == "safetensors"@,
        extension_format(ext) == Some(ModelFormat::Gguf) <==> ext == "gguf"@,
        magic_format(head) == Some(ModelFormat::Gguf) <==> head.len() >= 4 && head.take(4)
            =~= seq![0x47u8, 0x47u8, 0x55u8, 0x46u8],
        magic_format(head) == Some(ModelFormat::Onnx) <==> head.len() >= 4 && (head[0] == 8
            || head[0] == 10),
        magic_format(head) != Some(ModelFormat::Safetensors),
{
    reveal_strlit("onnx");
    reveal_strlit("safetensors");
    reveal_strlit("gguf");
    assert("onnx"@.len() == 4 && "safetensors"@.len() == 11 && "gguf"@.len() == 4);
    assert("onnx"@[0] == 'o' && "gguf"@[0] == 'g');
    if head.len() >= 4 {
        assert(head.take(4)[0] == head[0] && head.take(4)[1] == head[1]);
        assert(head.take(4)[2] == head[2] && head.take(4)[3] == head[3]);
    }
}

} // verus!
