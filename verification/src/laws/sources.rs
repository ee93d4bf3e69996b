//! Weights of graphs and of fused tensors, and the encodings of the importer.

use vstd::prelude::*;

use crate::laws::gguf::le;
use crate::loader::gguf_weights::{dtype_block, dtype_bytes, qkv_rows, rows_bytes};
use crate::loader::onnx::{
    data_of, digit_value, digits_from, dtype_of, element_size, generated_input, inline_data,
    last_value, le_bytes, length_in, lost, moved, occurrences, offset_in, parsed_u64, part_of,
    renaming, table_of, weight_name, OnnxFault, OnnxNode, OnnxTensor,
};
use crate::quant::stored::Format;
use crate::text;
use crate::types::{
    distinct_names, encoding_name, insert_is_a_map_update, lemma_name_at, name_at, source_format,
    DType, NamedView, WeightView,
};

verus! {

/// The names of the encodings, and what data of each type is decoded as.
pub proof fn encodings_have_their_names()
    ensures
        encoding_name(DType::F32) == "u32"@,
        encoding_name(DType::F16) == "u16"@,
        encoding_name(DType::BF16) == "bf16"@,
        encoding_name(DType::I8) == "i8"@,
        encoding_name(DType::U8) == "u8"@,
        encoding_name(DType::Bool) == "bool"@,
        encoding_name(DType::Q8_0) == "q8"@,
        encoding_name(DType::Q4_0) == "q4"@,
        encoding_name(DType::Q4_1) == "q4_1"@,
        encoding_name(DType::Q2_K) == "q2k"@,
        encoding_name(DType::Q3_K) == "q3k"@,
        encoding_name(DType::Q4_K) == "q4k"@,
        encoding_name(DType::Q5_K) == "q5k"@,
        encoding_name(DType::Q6_K) == "q6k"@,
        encoding_name(DType::Ternary) == "ternary"@,
        source_format(DType::F32) == Some(Format::Single),
        source_format(DType::F16) == Some(Format::Half),
        source_format(DType::BF16) == Some(Format::BrainBits),
        source_format(DType::U8) == Some(Format::Shifted),
        source_format(DType::Ternary) == Some(Format::Shifted),
        source_format(DType::Q8_0) == Some(Format::Q8_0),
        source_format(DType::Q4_0) == Some(Format::Q4_0),
        source_format(DType::Q4_1) == Some(Format::Q4_1),
        source_format(DType::Q2_K) == Some(Format::Q2_K),
        source_format(DType::Q3_K) == Some(Format::Q3_K),
        source_format(DType::Q4_K) == Some(Format::Q4_K),
        source_format(DType::Q5_K) == Some(Format::Q5_K),
        source_format(DType::Q6_K) == Some(Format::Q6_K),
        source_format(DType::I8) is None && source_format(DType::Bool) is None,
{
}

/// Rows of whole blocks take the bytes of their blocks.
pub proof fn rows_take_their_blocks(w: WeightView, rows: int, blocks: int)
    requires
        w.shape.len() == 2,
        0 <= rows,
        w.shape[1] == blocks * dtype_block(w.dtype),
        0 <= blocks,
    ensures
        rows_bytes(w, rows) == rows * blocks * dtype_bytes(w.dtype),
        w.dtype is F32 ==> dtype_block(w.dtype) == 1 && dtype_bytes(w.dtype) == 4,
        w.dtype is F16 || w.dtype is BF16 ==> dtype_block(w.dtype) == 1 && dtype_bytes(w.dtype) == 2,
        w.dtype is I8 || w.dtype is U8 || w.dtype is Bool ==> dtype_block(w.dtype) == 1
            && dtype_bytes(w.dtype) == 1,
        w.dtype is Ternary ==> dtype_block(w.dtype) == 4 && dtype_bytes(w.dtype) == 1,
        w.dtype is Q4_0 ==> dtype_block(w.dtype) == 32 && dtype_bytes(w.dtype) == 18,
        w.dtype is Q4_1 ==> dtype_block(w.dtype) == 32 && dtype_bytes(w.dtype) == 20,
        w.dtype is Q8_0 ==> dtype_block(w.dtype) == 32 && dtype_bytes(w.dtype) == 34,
        w.dtype is Q2_K ==> dtype_block(w.dtype) == 256 && dtype_bytes(w.dtype) == 84,
        w.dtype is Q3_K ==> dtype_block(w.dtype) == 256 && dtype_bytes(w.dtype) == 110,
        w.dtype is Q4_K ==> dtype_block(w.dtype) == 256 && dtype_bytes(w.dtype) == 144,
        w.dtype is Q5_K ==> dtype_block(w.dtype) == 256 && dtype_bytes(w.dtype) == 176,
        w.dtype is Q6_K ==> dtype_block(w.dtype) == 256 && dtype_bytes(w.dtype) == 210,
{
    let block = dtype_block(w.dtype);
    assert(rows * (blocks * block) == rows * blocks * block) by (nonlinear_arith);
    assert(rows * blocks >= 0) by (nonlinear_arith)
        requires
            rows >= 0,
            blocks >= 0,
    ;
    vstd::arithmetic::div_mod::lemma_div_by_multiple(rows * blocks, block);
}

/// Fused queries, keys and values share the rows evenly where three divides
/// them; else the queries take half and the keys and values a quarter each.
pub proof fn fused_rows_are_shared(h: int)
    requires
        0 <= h,
    ensures
        qkv_rows(3 * h) == (h, h),
        (4 * h) % 3 != 0 ==> qkv_rows(4 * h) == (2 * h, h),
{
}

proof fn lemma_digit(d: int)
    requires
        0 <= d < 10,
    ensures
        digit_value(text::digit_char(d)) == Some(d as nat),
{
}

proof fn lemma_parsed(n: nat, s: Seq<char>, from: int)
    requires
        0 <= from,
        from + text::decimal(n).len() == s.len(),
        s.skip(from) == text::decimal(n),
    ensures
        digits_from(s, from, 0) == Some(n),
    decreases n,
{
    text::lemma_decimal_digits(n);
    lemma_digits_up_to(n, s, from, s.len() as int);
}

/// What has been read before place `to` of a numeral.
proof fn lemma_digits_up_to(n: nat, s: Seq<char>, from: int, to: int)
    requires
        0 <= from,
        to <= s.len(),
        from + text::decimal(n).len() == to,
        s.subrange(from, to) == text::decimal(n),
    ensures
        digits_from(s, from, 0) == digits_from(s, to, n),
    decreases n,
{
    let part = s.subrange(from, to);
    if n < 10 {
        assert(part.len() == 1 && part[0] == text::digit_char(n as int));
        assert(s[from] == part[0]);
        lemma_digit(n as int);
        assert(digits_from(s, from, 0) == digits_from(s, from + 1, 0 * 10 + n));
    } else {
        let front = text::decimal(n / 10);
        assert(part == front.push(text::digit_char((n % 10) as int)));
        assert(s.subrange(from, to - 1) =~= front) by {
            assert(part.take(to - 1 - from) =~= front);
            assert(s.subrange(from, to - 1) =~= part.take(to - 1 - from));
        }
        text::lemma_decimal_digits(n / 10);
        lemma_digits_up_to(n / 10, s, from, to - 1);
        assert(s[to - 1] == part[to - 1 - from]);
        lemma_digit((n % 10) as int);
        assert(digits_from(s, to - 1, n / 10) == digits_from(s, to, n / 10 * 10 + n % 10));
    }
}

/// A numeral, with or without a plus sign, is read as its number; one that is
/// too large, and what has another character, as none.
pub proof fn numerals_are_read(n: nat)
    ensures
        n <= u64::MAX ==> parsed_u64(text::decimal(n)) == Some(n as u64),
        n <= u64::MAX ==> parsed_u64(seq!['+'] + text::decimal(n)) == Some(n as u64),
        n > u64::MAX ==> parsed_u64(text::decimal(n)) is None,
        parsed_u64(Seq::empty()) is None,
        parsed_u64(seq!['+']) is None,
{
    let s = text::decimal(n);
    text::lemma_decimal_digits(n);
    assert(s[0] != '+');
    assert(s.skip(0) =~= s);
    lemma_parsed(n, s, 0);
    let p = seq!['+'] + s;
    assert(p.skip(1) =~= s);
    lemma_parsed(n, p, 1);
}

/// Of several values of a key the last one counts.
pub proof fn later_values_count(
    entries: Seq<(String, String)>,
    key: Seq<char>,
    k: int,
    n: int,
)
    requires
        0 <= k < n <= entries.len(),
        entries[k].0@ == key,
        forall|j: int| k < j < n ==> (#[trigger] entries[j]).0@ != key,
    ensures
        last_value(entries, key, n) == Some(entries[k].1@),
    decreases n,
{
    if k < n - 1 {
        assert(entries[n - 1].0@ != key);
        later_values_count(entries, key, k, n - 1);
    }
}

/// Numbers are stored in four bytes each, the lowest first.
pub proof fn values_are_stored_in_order(values: Seq<u32>, i: int)
    requires
        0 <= i < values.len(),
    ensures
        le_bytes(values).len() == 4 * values.len(),
        le_bytes(values).subrange(4 * i, 4 * i + 4) =~= le(values[i] as int, 4),
{
    let n = values[i] as int;
    reveal_with_fuel(le, 6);
    let w = le(n, 4);
    assert(w =~= seq![
        (n % 256) as u8,
        (n / 256 % 256) as u8,
        (n / 256 / 256 % 256) as u8,
        (n / 256 / 256 / 256 % 256) as u8,
    ]);
    let b = le_bytes(values);
    assert((4 * i) / 4 == i && (4 * i) % 4 == 0);
    assert((4 * i + 1) / 4 == i && (4 * i + 1) % 4 == 1);
    assert((4 * i + 2) / 4 == i && (4 * i + 2) % 4 == 2);
    assert((4 * i + 3) / 4 == i && (4 * i + 3) % 4 == 3);
    assert(b[4 * i] == w[0] && b[4 * i + 1] == w[1] && b[4 * i + 2] == w[2] && b[4 * i + 3]
        == w[3]);
}

/// The data of an initializer: raw bytes before floats before integers, and
/// zeros where it has none of them.
pub proof fn initializers_hold_their_data(t: OnnxTensor)
    ensures
        t.raw_data@.len() > 0 ==> inline_data(t) == t.raw_data@,
        t.raw_data@.len() == 0 && t.float_data@.len() > 0 ==> inline_data(t) == le_bytes(
            t.float_data@,
        ),
        t.raw_data@.len() == 0 && t.float_data@.len() == 0 && t.int32_data@.len() > 0
            ==> inline_data(t).len() == 4 * t.int32_data@.len(),
        t.raw_data@.len() == 0 && t.float_data@.len() == 0 && t.int32_data@.len() == 0
            ==> forall|i: int| 0 <= i < inline_data(t).len() ==> #[trigger] inline_data(t)[i] == 0,
        t.raw_data@.len() == 0 && t.float_data@.len() == 0 && t.int32_data@.len() == 0
            && t.dims@.len() == 0 ==> inline_data(t).len() == element_size(t.data_type),
        element_size(1) == 4 && element_size(6) == 4 && element_size(7) == 8 && element_size(2) == 1,
{
    if t.dims@.len() == 0 {
        assert(crate::loader::onnx::sizes_of(t.dims@) =~= Seq::<usize>::empty());
        assert(1 * element_size(t.data_type) == element_size(t.data_type));
    }
}

/// Half and brain floats are read as such, bytes as 8-bit blocks, and all else
/// as single-precision floats.
pub proof fn graph_types_are_read(ty: i32)
    ensures
        dtype_of(ty) is F16 <==> ty == 10,
        dtype_of(ty) is BF16 <==> ty == 16,
        dtype_of(ty) is Q8_0 <==> ty == 2 || ty == 3,
        dtype_of(ty) is F32 <==> ty != 10 && ty != 16 && ty != 2 && ty != 3,
{
}

/// A moved weight is found under its new name and not under its old one;
/// other names keep theirs.
#[verifier::spinoff_prover]
#[verifier::rlimit(40)]
pub proof fn moved_weights_have_the_new_name(
    s: Seq<NamedView>,
    from: Seq<char>,
    to: Seq<char>,
    k: int,
)
    requires
        distinct_names(s),
        0 <= k < s.len(),
        s[k].name == from,
        from != to,
    ensures
        name_at(moved(s, from, to), to, 0) matches Some(j) && moved(s, from, to)[j].weight
            == s[k].weight,
        name_at(moved(s, from, to), from, 0) is None,
{
    lemma_name_at(s, from, 0);
    let i = name_at(s, from, 0)->0;
    assert(i == k);
    let rest = s.remove(i);
    assert forall|a: int, b: int| 0 <= a < b < rest.len() implies (#[trigger] rest[a]).name != (
    #[trigger] rest[b]).name by {
        let x = if a < i {
            a
        } else {
            a + 1
        };
        let y = if b < i {
            b
        } else {
            b + 1
        };
        assert(rest[a] == s[x] && rest[b] == s[y]);
    }
    insert_is_a_map_update(rest, to, s[i].weight, from);
    lemma_name_at(rest, from, 0);
    match name_at(rest, from, 0) {
        Some(j) => {
            let x = if j < i {
                j
            } else {
                j + 1
            };
            assert(rest[j] == s[x]);
        },
        None => {},
    }
}

/// A product renames its first generated input after its first output; no
/// other operator renames.
pub proof fn products_rename_generated_inputs(n: OnnxNode, k: int)
    requires
        0 <= k < n.inputs@.len(),
        n.outputs@.len() > 0,
        exists|rest: Seq<char>| n.inputs@[k]@ == #[trigger] ("onnx::"@ + rest),
        forall|j: int| 0 <= j < k ==> !text::begins((#[trigger] n.inputs@[j])@, "onnx::"@),
    ensures
        n.op_type@ == "MatMul"@ || n.op_type@ == "MatMulNBits"@ ==> renaming(n) == Some(
            (n.inputs@[k]@, weight_name(n.outputs@[0]@)),
        ),
        n.op_type@ != "MatMul"@ && n.op_type@ != "MatMulNBits"@ ==> renaming(n) is None,
{
    let rest = choose|rest: Seq<char>| n.inputs@[k]@ == #[trigger] ("onnx::"@ + rest);
    assert(n.inputs@[k]@.take("onnx::"@.len() as int) =~= "onnx::"@);
    lemma_generated(n.inputs@, 0, k);
}

proof fn lemma_generated(inputs: Seq<String>, from: int, k: int)
    requires
        0 <= from <= k < inputs.len(),
        text::begins(inputs[k]@, "onnx::"@),
        forall|j: int| from <= j < k ==> !text::begins((#[trigger] inputs[j])@, "onnx::"@),
    ensures
        generated_input(inputs, from) == Some(k),
    decreases k - from,
{
    if from < k {
        assert(!text::begins(inputs[from]@, "onnx::"@));
        lemma_generated(inputs, from + 1, k);
    }
}

/// An operator occurs as often as there are nodes with it: each node counts
/// once, for its own operator alone.
pub proof fn nodes_count_once(ops: Seq<Seq<char>>, op: Seq<char>, n: int)
    requires
        0 <= n < ops.len(),
    ensures
        ops[n] == op ==> occurrences(ops, op, n + 1) == 1 + occurrences(ops, op, n),
        ops[n] != op ==> occurrences(ops, op, n + 1) == occurrences(ops, op, n),
        occurrences(ops, op, 0) == 0,
{
}

/// No slash stands in the text.
pub open spec fn unslashed(s: Seq<char>) -> bool {
    forall|i: int| 0 <= i < s.len() ==> #[trigger] s[i] != '/'
}

/// A path of two parts; the second does not begin like an operator.
pub open spec fn is_path(p: Seq<char>, q: Seq<char>) -> bool {
    &&& unslashed(p) && unslashed(q)
    &&& p.len() > 0 && q.len() > 0
    &&& q[0] != 'M' && q[0] != 'G'
}

/// A weight of a graph is named after the output of its product, without the
/// slash before it and the operator after it, and with dots for the slashes
/// between.
pub proof fn outputs_name_their_weights(p: Seq<char>, q: Seq<char>)
    requires
        is_path(p, q),
    ensures
        weight_name("/"@ + (p + "/"@ + q) + "/MatMul_output_0"@) == p + "."@ + q + ".weight"@,
        weight_name("/"@ + (p + "/"@ + q) + "/Gemm_output_0"@) == p + "."@ + q + ".weight"@,
        weight_name((p + "/"@ + q) + "/MatMul_output_0"@) == p + "."@ + q + ".weight"@,
        weight_name(p + "/"@ + q) == p + "."@ + q + ".weight"@,
{
    lemma_path(p, q);
    lemma_named(p, q, "/MatMul_output_0"@, true);
    lemma_named(p, q, "/Gemm_output_0"@, true);
    lemma_named(p, q, "/MatMul_output_0"@, false);
    reveal_strlit("/");
    let path = p + "/"@ + q;
    assert(path[0] == p[0]);
    assert(p[0] != '/');
    assert(path.skip(0) =~= path);
}

/// Where a slash stands in a path.
proof fn lemma_slash(p: Seq<char>, q: Seq<char>, i: int)
    requires
        is_path(p, q),
        0 <= i < (p + "/"@ + q).len(),
        (p + "/"@ + q)[i] == '/',
    ensures
        i == p.len(),
        (p + "/"@ + q)[i + 1] == q[0],
{
    reveal_strlit("/");
    let path = p + "/"@ + q;
    if i < p.len() {
        assert(path[i] == p[i]);
    } else if i > p.len() {
        assert(path[i] == q[i - p.len() - 1]);
    }
}

#[verifier::spinoff_prover]
#[verifier::rlimit(40)]
proof fn lemma_path(p: Seq<char>, q: Seq<char>)
    requires
        is_path(p, q),
    ensures
        text::replaced(p + "/"@ + q, "/MatMul_output_0"@, ""@) == p + "/"@ + q,
        text::replaced(p + "/"@ + q, "/Gemm_output_0"@, ""@) == p + "/"@ + q,
        text::replaced(p + "/"@ + q, "/"@, "."@) == p + "."@ + q,
{
    reveal_strlit("/MatMul_output_0");
    reveal_strlit("/Gemm_output_0");
    reveal_strlit("/");
    let path = p + "/"@ + q;
    assert forall|i: int| !#[trigger] text::stands_at(path, i, "/MatMul_output_0"@) by {
        if text::stands_at(path, i, "/MatMul_output_0"@) {
            let w = path.subrange(i, i + 16);
            assert("/MatMul_output_0"@.len() == 16);
            assert(w[0] == path[i] && w[1] == path[i + 1]);
            lemma_slash(p, q, i);
        }
    }
    assert forall|i: int| !#[trigger] text::stands_at(path, i, "/Gemm_output_0"@) by {
        if text::stands_at(path, i, "/Gemm_output_0"@) {
            let w = path.subrange(i, i + 14);
            assert("/Gemm_output_0"@.len() == 14);
            assert(w[0] == path[i] && w[1] == path[i + 1]);
            lemma_slash(p, q, i);
        }
    }
    assert forall|i: int| #[trigger] text::stands_at(path, i, "/"@) implies i == p.len() by {
        assert("/"@.len() == 1);
        assert(path.subrange(i, i + 1)[0] == path[i]);
        lemma_slash(p, q, i);
    }
    text::lemma_nothing_replaced(path, "/MatMul_output_0"@, ""@);
    text::lemma_nothing_replaced(path, "/Gemm_output_0"@, ""@);
    text::lemma_replaced_once(p, "/"@, q, "."@);
}

/// Where an operator stands behind a path.
proof fn lemma_tail(p: Seq<char>, q: Seq<char>, tail: Seq<char>, op: Seq<char>, i: int)
    requires
        is_path(p, q),
        tail.len() > 0,
        tail[0] == '/',
        unslashed(tail.skip(1)),
        op.len() > 1,
        op[0] == '/',
        op[1] == 'M' || op[1] == 'G',
        text::stands_at(p + "/"@ + q + tail, i, op),
    ensures
        i == (p + "/"@ + q).len(),
{
    reveal_strlit("/");
    let path = p + "/"@ + q;
    let all = path + tail;
    let w = all.subrange(i, i + op.len());
    assert(w[0] == all[i] && w[1] == all[i + 1]);
    if i < path.len() {
        assert(all[i] == path[i]);
        lemma_slash(p, q, i);
        assert(all[i + 1] == path[i + 1]);
    } else if i > path.len() {
        assert(all[i] == tail.skip(1)[i - path.len() - 1]);
    }
}

#[verifier::spinoff_prover]
#[verifier::rlimit(40)]
proof fn lemma_named(p: Seq<char>, q: Seq<char>, tail: Seq<char>, slash: bool)
    requires
        is_path(p, q),
        tail == "/MatMul_output_0"@ || tail == "/Gemm_output_0"@,
    ensures
        slash ==> weight_name("/"@ + (p + "/"@ + q) + tail) == p + "."@ + q + ".weight"@,
        !slash ==> weight_name((p + "/"@ + q) + tail) == p + "."@ + q + ".weight"@,
{
    reveal_strlit("/MatMul_output_0");
    reveal_strlit("/Gemm_output_0");
    reveal_strlit("/");
    reveal_strlit("");
    assert("/MatMul_output_0"@.len() == 16 && "/Gemm_output_0"@.len() == 14);
    assert("/MatMul_output_0"@[1] == 'M' && "/Gemm_output_0"@[1] == 'G');
    assert forall|i: int| 0 <= i < tail.skip(1).len() implies #[trigger] tail.skip(1)[i] != '/' by {
        assert(tail.skip(1)[i] == tail[i + 1]);
    }
    let path = p + "/"@ + q;
    let all = path + tail;
    let out = if slash {
        "/"@ + path + tail
    } else {
        all
    };
    assert(p[0] != '/');
    if slash {
        assert(out[0] == '/');
        assert(out[1] == p[0]);
        reveal_with_fuel(crate::loader::onnx::leading_slashes, 3);
        assert(crate::loader::onnx::leading_slashes(out, 0) == 1);
        assert(out.skip(1) =~= all);
    } else {
        assert(out[0] == p[0]);
        assert(crate::loader::onnx::leading_slashes(out, 0) == 0);
        assert(out.skip(0) =~= all);
    }
    let empty = Seq::<char>::empty();
    assert(all =~= path + tail + empty);
    assert forall|i: int| #[trigger] text::stands_at(path + tail + empty, i, tail) implies i
        == path.len() by {
        lemma_tail(p, q, tail, tail, i);
    }
    text::lemma_replaced_once(path, tail, empty, ""@);
    assert(path + ""@ + empty =~= path);
    lemma_path(p, q);
    if tail == "/Gemm_output_0"@ {
        assert forall|i: int| !#[trigger] text::stands_at(all, i, "/MatMul_output_0"@) by {
            if text::stands_at(all, i, "/MatMul_output_0"@) {
                lemma_tail(p, q, tail, "/MatMul_output_0"@, i);
                assert(all.subrange(i, i + 16)[1] == all[i + 1]);
            }
        }
        text::lemma_nothing_replaced(all, "/MatMul_output_0"@, ""@);
    }
}

/// Data in another file: the last value of each key says where; the numbers are
/// zero where they are not there or no numerals.
pub proof fn external_data_is_found_by_its_keys(t: OnnxTensor, k: int, n: nat)
    requires
        0 <= k < t.external_data@.len(),
        n <= u64::MAX,
        forall|j: int| k < j < t.external_data@.len() ==> (#[trigger] t.external_data@[j]).0@
            != t.external_data@[k].0@,
        t.external_data@[k].1@ == text::decimal(n),
    ensures
        t.external_data@[k].0@ == "offset"@ ==> offset_in(t) == n,
        t.external_data@[k].0@ == "length"@ ==> length_in(t) == n,
        t.external_data@[k].0@ == "length"@ && n == 0 ==> lost(t),
{
    let es = t.external_data@;
    later_values_count(es, es[k].0@, k, es.len() as int);
    numerals_are_read(n);
}

/// The part of the file that the data is: as many bytes from the place on;
/// data that ends behind the file is refused.
pub proof fn external_data_is_cut_out(t: OnnxTensor, offset: u64, length: u64, file: Seq<u8>, i: int)
    ensures
        part_of(t, offset, length, file) is Ok <==> length + offset <= file.len(),
        part_of(t, offset, length, file) matches Ok(d) ==> d.len() == length && (0 <= i < length
            ==> d[i] == file[offset + i]),
{
}

/// An initializer with its data in another file is lost without the name of
/// the file.
pub proof fn external_data_needs_a_file(t: OnnxTensor)
    requires
        forall|j: int| 0 <= j < t.external_data@.len() ==> (#[trigger] t.external_data@[j]).0@
            != "location"@,
    ensures
        lost(t),
{
    lemma_no_value(t.external_data@, "location"@, t.external_data@.len() as int);
}

proof fn lemma_no_value(entries: Seq<(String, String)>, key: Seq<char>, n: int)
    requires
        0 <= n <= entries.len(),
        forall|j: int| 0 <= j < n ==> (#[trigger] entries[j]).0@ != key,
    ensures
        last_value(entries, key, n) is None,
    decreases n,
{
    if n > 0 {
        assert(entries[n - 1].0@ != key);
        lemma_no_value(entries, key, n - 1);
    }
}

/// The data of an initializer is its own, unless it says that it is in another
/// file; then it is the part of that file that its keys tell.
pub proof fn initializers_say_where_their_data_is(t: OnnxTensor, file: Seq<u8>)
    ensures
        t.data_location != 1 ==> (data_of(t, file) matches Ok(d) && d == inline_data(t)),
        t.data_location == 1 && lost(t) ==> (data_of(t, file) matches Err(e)
            && e == OnnxFault::NoLocation(t.name@)),
        t.data_location == 1 && !lost(t) ==> data_of(t, file) == part_of(
            t,
            offset_in(t),
            length_in(t),
            file,
        ),
        t.data_location == 1 && !lost(t) && length_in(t) + offset_in(t) <= file.len() ==> (data_of(
            t,
            file,
        ) matches Ok(d) && d =~= file.subrange(offset_in(t) as int, offset_in(t) + length_in(t))),
{
}

/// A graph's table has an entry for every initializer: its data, its shape and
/// its type, under its name.
#[verifier::spinoff_prover]
#[verifier::rlimit(40)]
pub proof fn initializers_become_weights(
    inits: Seq<OnnxTensor>,
    files: Seq<&[u8]>,
    n: int,
    before: Seq<NamedView>,
    d: Seq<u8>,
)
    requires
        0 <= n < inits.len(),
        table_of(inits, files, n) == Ok::<Seq<NamedView>, OnnxFault>(before),
        distinct_names(before),
        data_of(inits[n], files[n]@) == Ok::<Seq<u8>, OnnxFault>(d),
    ensures
        table_of(inits, files, n + 1) matches Ok(all) && (name_at(all, inits[n].name@, 0) matches Some(
            i,
        ) && all[i].weight.data == d && all[i].weight.dtype == dtype_of(inits[n].data_type)
            && all[i].weight.shape.len() == inits[n].dims@.len() && forall|j: int|
            0 <= j < inits[n].dims@.len() && 0 <= inits[n].dims@[j] <= usize::MAX
                ==> #[trigger] all[i].weight.shape[j] == inits[n].dims@[j]),
{
    let w = crate::loader::onnx::weight_of(inits[n], d);
    insert_is_a_map_update(before, inits[n].name@, w, inits[n].name@);
}

} // verus!
