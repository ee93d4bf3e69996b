//! ONNX models: the data of initializers, and their names.

use vstd::prelude::*;

use crate::text;
use crate::types::{inserted, name_at, DType, NamedView, Weight, WeightView, Weights};

verus! {

/// An initializer of the graph. Floats are held as their bit patterns.
#[derive(Debug, PartialEq, Eq)]
pub struct OnnxTensor {
    pub name: String,
    pub dims: Vec<i64>,
    pub data_type: i32,
    /// One where the data is in another file.
    pub data_location: i32,
    /// Keys and values that say where.
    pub external_data: Vec<(String, String)>,
    pub raw_data: Vec<u8>,
    pub float_data: Vec<u32>,
    pub int32_data: Vec<i32>,
}

/// A node of the graph.
#[derive(Debug, PartialEq, Eq)]
pub struct OnnxNode {
    pub op_type: String,
    pub inputs: Vec<String>,
    pub outputs: Vec<String>,
}

/// Where the data of an initializer is found.
#[derive(Debug, PartialEq, Eq)]
pub struct External {
    pub location: String,
    pub offset: u64,
    pub length: u64,
}

/// Why a model was refused.
#[derive(Debug, PartialEq, Eq)]
pub enum OnnxError {
    /// The initializer does not say where its data is.
    NoLocation(String),
    /// The data ends behind the file.
    OutOfBounds { name: String, offset: u64, length: u64, file_size: usize },
}

/// The content of an [`OnnxError`].
pub enum OnnxFault {
    NoLocation(Seq<char>),
    OutOfBounds { name: Seq<char>, offset: u64, length: u64, file_size: usize },
}

impl View for OnnxError {
    type V = OnnxFault;

    open spec fn view(&self) -> OnnxFault {
        match *self {
            OnnxError::NoLocation(name) => OnnxFault::NoLocation(name@),
            OnnxError::OutOfBounds { name, offset, length, file_size } => OnnxFault::OutOfBounds {
                name: name@,
                offset,
                length,
                file_size,
            },
        }
    }
}

/// A decimal digit's value.
pub open spec fn digit_value(c: char) -> Option<nat> {
    if '0' <= c && c <= '9' {
        Some((c as int - '0' as int) as nat)
    } else {
        None
    }
}

/// The number that the digits of `s` from `from` on, after `so_far`, make.
pub open spec fn digits_from(s: Seq<char>, from: int, so_far: nat) -> Option<nat>
    decreases s.len() - from,
{
    if from < 0 || from >= s.len() {
        Some(so_far)
    } else {
        match digit_value(s[from]) {
            Some(d) => digits_from(s, from + 1, so_far * 10 + d),
            None => None,
        }
    }
}

/// The number that a text means: digits, with an optional plus sign, that
/// make a number of 64 bits.
pub open spec fn parsed_u64(s: Seq<char>) -> Option<u64> {
    let start: int = if s.len() > 0 && s[0] == '+' {
        1
    } else {
        0
    };
    if s.len() == start {
        None
    } else {
        match digits_from(s, start, 0) {
            Some(n) => if n <= u64::MAX {
                Some(n as u64)
            } else {
                None
            },
            None => None,
        }
    }
}

proof fn lemma_grows(s: Seq<char>, from: int, so_far: nat)
    requires
        0 <= from,
    ensures
        digits_from(s, from, so_far) matches Some(n) ==> n >= so_far,
    decreases s.len() - from,
{
    if from < s.len() {
        match digit_value(s[from]) {
            Some(d) => {
                lemma_grows(s, from + 1, so_far * 10 + d);
            },
            None => {},
        }
    }
}

/// The number that a text means.
pub fn parse_u64(s: &str) -> (r: Option<u64>)
    ensures
        r == parsed_u64(s@),
{
    let v = text::chars_of(s);
    let start: usize = if v.len() > 0 && v[0] == '+' {
        1
    } else {
        0
    };
    if v.len() == start {
        return None;
    }
    let mut n: u64 = 0;
    let mut i: usize = start;
    while i < v.len()
        invariant
            start <= i <= v@.len(),
            v@ == s@,
            start == (if v@.len() > 0 && v@[0] == '+' {
                1int
            } else {
                0int
            }),
            v@.len() != start,
            digits_from(s@, start as int, 0) == digits_from(s@, i as int, n as nat),
        decreases v@.len() - i,
    {
        let c = v[i];
        if !('0' <= c && c <= '9') {
            return None;
        }
        let d: u64 = (c as u32 - '0' as u32) as u64;
        proof {
            lemma_grows(s@, i + 1, (n * 10 + d) as nat);
        }
        if n > (u64::MAX - d) / 10 {
            return None;
        }
        n = n * 10 + d;
        i = i + 1;
    }
    Some(n)
}

/// The last value of a key, or nothing.
pub open spec fn last_value(entries: Seq<(String, String)>, key: Seq<char>, n: int) -> Option<
    Seq<char>,
>
    decreases n,
{
    if n <= 0 {
        None
    } else if entries[n - 1].0@ == key {
        Some(entries[n - 1].1@)
    } else {
        last_value(entries, key, n - 1)
    }
}

/// A number of the entries; what is no number counts as zero.
pub open spec fn number_of(entries: Seq<(String, String)>, key: Seq<char>, n: int) -> u64 {
    match last_value(entries, key, n) {
        Some(v) => match parsed_u64(v) {
            Some(x) => x,
            None => 0,
        },
        None => 0,
    }
}

/// The location of the entries; the empty text where there is none.
pub open spec fn location_of(entries: Seq<(String, String)>, n: int) -> Seq<char> {
    match last_value(entries, "location"@, n) {
        Some(v) => v,
        None => Seq::empty(),
    }
}

proof fn lemma_keys_differ()
    ensures
        "location"@ != "offset"@,
        "location"@ != "length"@,
        "offset"@ != "length"@,
{
    reveal_strlit("location");
    reveal_strlit("offset");
    reveal_strlit("length");
    assert("location"@[1] == 'o');
    assert("length"@[1] == 'e');
    assert("offset"@[1] == 'f');
}

/// The initializer does not say where its data is.
pub open spec fn lost(t: OnnxTensor) -> bool {
    let n = t.external_data@.len() as int;
    location_of(t.external_data@, n).len() == 0 || number_of(t.external_data@, "length"@, n) == 0
}

/// The offset of an initializer's data in its file.
pub open spec fn offset_in(t: OnnxTensor) -> u64 {
    number_of(t.external_data@, "offset"@, t.external_data@.len() as int)
}

/// The length of an initializer's data in its file.
pub open spec fn length_in(t: OnnxTensor) -> u64 {
    number_of(t.external_data@, "length"@, t.external_data@.len() as int)
}

/// Where the data of an initializer is found in another file; nothing where
/// the initializer holds its data itself.
pub fn external_of(t: &OnnxTensor) -> (r: Result<Option<External>, OnnxError>)
    ensures
        if t.data_location != 1 {
            r matches Ok(x) && x is None
        } else if lost(*t) {
            r matches Err(e) && e@ == OnnxFault::NoLocation(t.name@)
        } else {
            r matches Ok(x) && x matches Some(x) && x.location@ == location_of(
                t.external_data@,
                t.external_data@.len() as int,
            ) && x.offset == offset_in(*t) && x.length == length_in(*t)
        },
{
    if t.data_location != 1 {
        return Ok(None);
    }
    proof {
        lemma_keys_differ();
    }
    let mut location = String::new();
    let mut offset: u64 = 0;
    let mut length: u64 = 0;
    let mut i: usize = 0;
    assert(location@ =~= Seq::<char>::empty());
    while i < t.external_data.len()
        invariant
            i <= t.external_data@.len(),
            "location"@ != "offset"@,
            "location"@ != "length"@,
            "offset"@ != "length"@,
            location@ == location_of(t.external_data@, i as int),
            offset == number_of(t.external_data@, "offset"@, i as int),
            length == number_of(t.external_data@, "length"@, i as int),
        decreases t.external_data@.len() - i,
    {
        let key = t.external_data[i].0.as_str();
        let value = t.external_data[i].1.as_str();
        if text::text_eq(key, "location") {
            location = value.to_owned();
        } else if text::text_eq(key, "offset") {
            offset = match parse_u64(value) {
                Some(n) => n,
                None => 0,
            };
        } else if text::text_eq(key, "length") {
            length = match parse_u64(value) {
                Some(n) => n,
                None => 0,
            };
        }
        i = i + 1;
    }
    let chars = text::chars_of(location.as_str());
    if chars.len() == 0 || length == 0 {
        return Err(OnnxError::NoLocation(t.name.as_str().to_owned()));
    }
    Ok(Some(External { location, offset, length }))
}

/// The part of a file that holds the data of an initializer.
pub open spec fn part_of(t: OnnxTensor, offset: u64, length: u64, file: Seq<u8>) -> Result<
    Seq<u8>,
    OnnxFault,
> {
    if offset + length > file.len() {
        Err(OnnxFault::OutOfBounds { name: t.name@, offset, length, file_size: file.len() as usize })
    } else {
        Ok(file.subrange(offset as int, offset + length))
    }
}

/// The data of an initializer that is found in a file.
pub fn external_bytes(t: &OnnxTensor, at: &External, file: &[u8]) -> (r: Result<
    Vec<u8>,
    OnnxError,
>)
    requires
        at.offset + at.length <= u64::MAX,
    ensures
        match part_of(*t, at.offset, at.length, file@) {
            Ok(d) => r matches Ok(v) && v@ == d,
            Err(f) => r matches Err(e) && e@ == f,
        },
{
    let total: usize = file.len();
    let end: u64 = at.offset + at.length;
    if end > total as u64 {
        return Err(
            OnnxError::OutOfBounds {
                name: t.name.as_str().to_owned(),
                offset: at.offset,
                length: at.length,
                file_size: total,
            },
        );
    }
    Ok(crate::loader::gguf::copy_range(file, at.offset as usize, end as usize))
}

/// Byte `k` of a number, the lowest first.
pub open spec fn byte_of(n: u32, k: int) -> u8 {
    (if k == 0 {
        n as int % 0x100
    } else if k == 1 {
        n as int / 0x100 % 0x100
    } else if k == 2 {
        n as int / 0x1_0000 % 0x100
    } else {
        n as int / 0x100_0000
    }) as u8
}

/// The four bytes of each number, the lowest first.
pub open spec fn le_bytes(values: Seq<u32>) -> Seq<u8> {
    Seq::new(4 * values.len(), |i: int| byte_of(values[i / 4], i % 4))
}

fn bytes_of(values: &Vec<u32>) -> (out: Vec<u8>)
    requires
        4 * values@.len() <= usize::MAX,
    ensures
        out@ == le_bytes(values@),
{
    let mut out: Vec<u8> = Vec::new();
    let mut i: usize = 0;
    while i < values.len()
        invariant
            i <= values@.len(),
            out@.len() == 4 * i,
            forall|k: int| 0 <= k < 4 * i ==> #[trigger] out@[k] == byte_of(values@[k / 4], k % 4),
        decreases values@.len() - i,
    {
        let u: u32 = values[i];
        out.push((u % 0x100) as u8);
        out.push((u / 0x100 % 0x100) as u8);
        out.push((u / 0x1_0000 % 0x100) as u8);
        out.push((u / 0x100_0000) as u8);
        i = i + 1;
    }
    assert(out@ =~= le_bytes(values@));
    out
}

/// A dimension as a size; negative ones wrap around.
pub open spec fn sizes_of(dims: Seq<i64>) -> Seq<usize> {
    dims.map_values(|d: i64| d as usize)
}

fn shape_of(dims: &Vec<i64>) -> (v: Vec<usize>)
    ensures
        v@ == sizes_of(dims@),
{
    let mut v: Vec<usize> = Vec::new();
    let mut i: usize = 0;
    while i < dims.len()
        invariant
            i <= dims@.len(),
            v@ == sizes_of(dims@.take(i as int)),
        decreases dims@.len() - i,
    {
        v.push(dims[i] as usize);
        i = i + 1;
        assert(v@ =~= sizes_of(dims@.take(i as int)));
    }
    assert(dims@.take(dims@.len() as int) =~= dims@);
    v
}

/// The bytes of an element of a type, where nothing is stored.
pub open spec fn element_size(data_type: i32) -> int {
    if data_type == 1 || data_type == 6 {
        4
    } else if data_type == 7 {
        8
    } else {
        1
    }
}

/// The number of zero bytes that stand for an initializer without data: at
/// least one element.
pub open spec fn empty_size(t: OnnxTensor) -> int {
    let n = crate::tensor::product(sizes_of(t.dims@)) as int;
    (if n < 1 {
        1
    } else {
        n
    }) * element_size(t.data_type)
}

/// The bit patterns of signed numbers.
pub open spec fn patterns(values: Seq<i32>) -> Seq<u32> {
    values.map_values(|x: i32| x as u32)
}

/// The data that an initializer holds itself.
pub open spec fn inline_data(t: OnnxTensor) -> Seq<u8> {
    if t.raw_data@.len() > 0 {
        t.raw_data@
    } else if t.float_data@.len() > 0 {
        le_bytes(t.float_data@)
    } else if t.int32_data@.len() > 0 {
        le_bytes(patterns(t.int32_data@))
    } else {
        Seq::new(empty_size(t) as nat, |i: int| 0u8)
    }
}

/// The sizes of an initializer's own data are in range.
pub open spec fn inline_fits(t: OnnxTensor) -> bool {
    if t.raw_data@.len() > 0 {
        true
    } else if t.float_data@.len() > 0 {
        4 * t.float_data@.len() <= usize::MAX
    } else if t.int32_data@.len() > 0 {
        4 * t.int32_data@.len() <= usize::MAX
    } else {
        crate::tensor::product_fits(sizes_of(t.dims@)) && empty_size(t) <= usize::MAX
    }
}

/// The data that an initializer holds itself.
pub fn inline_bytes(t: &OnnxTensor) -> (out: Vec<u8>)
    requires
        inline_fits(*t),
    ensures
        out@ == inline_data(*t),
{
    if t.raw_data.len() > 0 {
        let out = crate::loader::gguf::copy_range(t.raw_data.as_slice(), 0, t.raw_data.len());
        assert(out@ =~= t.raw_data@);
        return out;
    }
    if t.float_data.len() > 0 {
        return bytes_of(&t.float_data);
    }
    if t.int32_data.len() > 0 {
        let mut v: Vec<u32> = Vec::new();
        let mut i: usize = 0;
        while i < t.int32_data.len()
            invariant
                i <= t.int32_data@.len(),
                v@ == patterns(t.int32_data@.take(i as int)),
            decreases t.int32_data@.len() - i,
        {
            v.push(t.int32_data[i] as u32);
            i = i + 1;
            assert(v@ =~= patterns(t.int32_data@.take(i as int)));
        }
        assert(t.int32_data@.take(t.int32_data@.len() as int) =~= t.int32_data@);
        return bytes_of(&v);
    }
    let shape = shape_of(&t.dims);
    let n: usize = crate::tensor::numel(&shape);
    let elements: usize = if n < 1 {
        1
    } else {
        n
    };
    let size: usize = if t.data_type == 1 || t.data_type == 6 {
        4
    } else if t.data_type == 7 {
        8
    } else {
        1
    };
    zeros(elements * size)
}

fn zeros(n: usize) -> (v: Vec<u8>)
    ensures
        v@ == Seq::new(n as nat, |i: int| 0u8),
{
    let mut v: Vec<u8> = Vec::new();
    let mut i: usize = 0;
    while i < n
        invariant
            i <= n,
            v@ == Seq::new(i as nat, |k: int| 0u8),
        decreases n - i,
    {
        v.push(0);
        i = i + 1;
        assert(v@ =~= Seq::new(i as nat, |k: int| 0u8));
    }
    v
}

/// The element type of a number in the file. Packed codes come as bytes.
pub open spec fn dtype_of(data_type: i32) -> DType {
    if data_type == 10 {
        DType::F16
    } else if data_type == 16 {
        DType::BF16
    } else if data_type == 2 || data_type == 3 {
        DType::Q8_0
    } else {
        DType::F32
    }
}

/// The element type of a number in the file.
pub fn onnx_dtype_to_dtype(data_type: i32) -> (d: DType)
    ensures
        d == dtype_of(data_type),
{
    if data_type == 10 {
        DType::F16
    } else if data_type == 16 {
        DType::BF16
    } else if data_type == 2 || data_type == 3 {
        DType::Q8_0
    } else {
        DType::F32
    }
}

/// The weight that an initializer with this data is.
pub open spec fn weight_of(t: OnnxTensor, data: Seq<u8>) -> WeightView {
    WeightView {
        data,
        shape: sizes_of(t.dims@),
        dtype: dtype_of(t.data_type),
        needs_transpose: false,
    }
}

/// Puts an initializer with its data into the table.
pub fn insert_initializer(w: &mut Weights, t: &OnnxTensor, data: Vec<u8>)
    ensures
        final(w)@ == inserted(old(w)@, t.name@, weight_of(*t, data@)),
        final(w).metadata == old(w).metadata,
{
    let weight = Weight {
        data,
        shape: shape_of(&t.dims),
        dtype: onnx_dtype_to_dtype(t.data_type),
        needs_transpose: false,
    };
    w.insert(t.name.as_str().to_owned(), weight);
}

/// The number of slashes in front.
pub open spec fn leading_slashes(s: Seq<char>, from: int) -> int
    decreases s.len() - from,
{
    if from < 0 || from >= s.len() || s[from] != '/' {
        from
    } else {
        leading_slashes(s, from + 1)
    }
}

/// The name that a product's output gives its weight.
pub open spec fn weight_name(output: Seq<char>) -> Seq<char> {
    let path = output.skip(leading_slashes(output, 0));
    let a = text::replaced(path, "/MatMul_output_0"@, ""@);
    let b = text::replaced(a, "/Gemm_output_0"@, ""@);
    text::replaced(b, "/"@, "."@) + ".weight"@
}

/// The name that a product's output gives its weight.
pub fn name_of_output(output: &str) -> (s: String)
    ensures
        s@ == weight_name(output@),
{
    let v = text::chars_of(output);
    let mut i: usize = 0;
    while i < v.len() && v[i] == '/'
        invariant
            i <= v@.len(),
            v@ == output@,
            leading_slashes(v@, 0) == leading_slashes(v@, i as int),
        decreases v@.len() - i,
    {
        i = i + 1;
    }
    let path = text::substring(&v, i, v.len());
    assert(path@ =~= output@.skip(leading_slashes(output@, 0)));
    proof {
        reveal_strlit("/MatMul_output_0");
        reveal_strlit("/Gemm_output_0");
        reveal_strlit("/");
    }
    let a = text::replace_text(path.as_str(), "/MatMul_output_0", "");
    let b = text::replace_text(a.as_str(), "/Gemm_output_0", "");
    let c = text::replace_text(b.as_str(), "/", ".");
    text::concat(c.as_str(), ".weight")
}

/// The first generated name among the inputs, from `from` on.
pub open spec fn generated_input(inputs: Seq<String>, from: int) -> Option<int>
    decreases inputs.len() - from,
{
    if from < 0 || from >= inputs.len() {
        None
    } else if text::begins(inputs[from]@, "onnx::"@) {
        Some(from)
    } else {
        generated_input(inputs, from + 1)
    }
}

/// The renaming that a node asks for: a product gives the generated name
/// among its inputs the name of its first output.
pub open spec fn renaming(n: OnnxNode) -> Option<(Seq<char>, Seq<char>)> {
    if n.op_type@ != "MatMul"@ && n.op_type@ != "MatMulNBits"@ {
        None
    } else {
        match generated_input(n.inputs@, 0) {
            None => None,
            Some(i) => if n.outputs@.len() == 0 {
                None
            } else {
                Some((n.inputs@[i]@, weight_name(n.outputs@[0]@)))
            },
        }
    }
}

fn renaming_of(n: &OnnxNode) -> (r: Option<(String, String)>)
    ensures
        match renaming(*n) {
            Some((old_name, new_name)) => r matches Some(x) && x.0@ == old_name && x.1@ == new_name,
            None => r is None,
        },
{
    if !text::text_eq(n.op_type.as_str(), "MatMul") && !text::text_eq(
        n.op_type.as_str(),
        "MatMulNBits",
    ) {
        return None;
    }
    let mut i: usize = 0;
    while i < n.inputs.len()
        invariant
            i <= n.inputs@.len(),
            n.op_type@ == "MatMul"@ || n.op_type@ == "MatMulNBits"@,
            generated_input(n.inputs@, 0) == generated_input(n.inputs@, i as int),
        decreases n.inputs@.len() - i,
    {
        if text::begins_with(n.inputs[i].as_str(), "onnx::") {
            if n.outputs.len() == 0 {
                return None;
            }
            return Some(
                (n.inputs[i].as_str().to_owned(), name_of_output(n.outputs[0].as_str())),
            );
        }
        i = i + 1;
    }
    None
}

/// The table with the weight of one name under another.
pub open spec fn moved(s: Seq<NamedView>, from: Seq<char>, to: Seq<char>) -> Seq<NamedView> {
    match name_at(s, from, 0) {
        Some(i) => inserted(s.remove(i), to, s[i].weight),
        None => s,
    }
}

/// The table after the renamings of the first `n` nodes.
pub open spec fn renamed(s: Seq<NamedView>, nodes: Seq<OnnxNode>, n: int) -> Seq<NamedView>
    decreases n,
{
    if n <= 0 {
        s
    } else {
        let before = renamed(s, nodes, n - 1);
        match renaming(nodes[n - 1]) {
            Some((from, to)) => moved(before, from, to),
            None => before,
        }
    }
}

fn move_weight(w: &mut Weights, from: &str, to: String)
    ensures
        final(w)@ == moved(old(w)@, from@, to@),
        final(w).metadata == old(w).metadata,
{
    match w.find(from) {
        Some(i) => {
            let ghost before = w@;
            proof {
                crate::types::lemma_name_at(before, from@, 0);
                assert(before[i as int] == w.weights@[i as int]@);
            }
            let named = w.weights.remove(i);
            assert(w@ =~= before.remove(i as int));
            w.insert(to, named.weight);
        },
        None => {},
    }
}

/// Gives weights with generated names the names of the products that they
/// are used in, node by node.
pub fn rename_weights(w: &mut Weights, nodes: &Vec<OnnxNode>)
    ensures
        final(w)@ == renamed(old(w)@, nodes@, nodes@.len() as int),
        final(w).metadata == old(w).metadata,
{
    let mut n: usize = 0;
    while n < nodes.len()
        invariant
            n <= nodes@.len(),
            w@ == renamed(old(w)@, nodes@, n as int),
            w.metadata == old(w).metadata,
        decreases nodes@.len() - n,
    {
        match renaming_of(&nodes[n]) {
            Some((from, to)) => {
                move_weight(w, from.as_str(), to);
            },
            None => {},
        }
        n = n + 1;
    }
}

/// Renaming keeps names distinct.
pub proof fn renaming_keeps_names_distinct(s: Seq<NamedView>, nodes: Seq<OnnxNode>, n: int)
    requires
        crate::types::distinct_names(s),
        0 <= n <= nodes.len(),
    ensures
        crate::types::distinct_names(renamed(s, nodes, n)),
    decreases n,
{
    if n > 0 {
        renaming_keeps_names_distinct(s, nodes, n - 1);
        let before = renamed(s, nodes, n - 1);
        match renaming(nodes[n - 1]) {
            Some((from, to)) => {
                crate::types::lemma_name_at(before, from, 0);
                match name_at(before, from, 0) {
                    Some(i) => {
                        let rest = before.remove(i);
                        assert forall|a: int, b: int| 0 <= a < b < rest.len() implies (
                        #[trigger] rest[a]).name != (#[trigger] rest[b]).name by {
                            let x = if a < i {
                                a
                            } else {
                                a + 1
                            };
                            let y = if b < i {
                                b
                            } else {
                                b + 1
                            };
                            assert(rest[a] == before[x]);
                            assert(rest[b] == before[y]);
                        }
                        crate::types::insert_is_a_map_update(rest, to, before[i].weight, to);
                    },
                    None => {},
                }
            },
            None => {},
        }
    }
}

/// The data of an initializer: its own, or the part of its file.
pub open spec fn data_of(t: OnnxTensor, file: Seq<u8>) -> Result<Seq<u8>, OnnxFault> {
    if t.data_location != 1 {
        Ok(inline_data(t))
    } else if lost(t) {
        Err(OnnxFault::NoLocation(t.name@))
    } else {
        part_of(t, offset_in(t), length_in(t), file)
    }
}

/// The sizes of an initializer are in range.
pub open spec fn tensor_fits(t: OnnxTensor) -> bool {
    &&& t.data_location != 1 ==> inline_fits(t)
    &&& t.data_location == 1 ==> offset_in(t) + length_in(t) <= u64::MAX
}

/// The data of an initializer. `file` is the content of the file that
/// [`external_of`] names, where it names one.
pub fn read_tensor_raw(t: &OnnxTensor, file: &[u8]) -> (r: Result<Vec<u8>, OnnxError>)
    requires
        tensor_fits(*t),
    ensures
        match data_of(*t, file@) {
            Ok(d) => r matches Ok(v) && v@ == d,
            Err(f) => r matches Err(e) && e@ == f,
        },
{
    match external_of(t) {
        Err(e) => Err(e),
        Ok(None) => Ok(inline_bytes(t)),
        Ok(Some(at)) => external_bytes(t, &at, file),
    }
}

/// The table of the first `n` initializers, or the first fault.
pub open spec fn table_of(inits: Seq<OnnxTensor>, files: Seq<&[u8]>, n: int) -> Result<
    Seq<NamedView>,
    OnnxFault,
>
    decreases n,
{
    if n <= 0 {
        Ok(Seq::empty())
    } else {
        match table_of(inits, files, n - 1) {
            Err(f) => Err(f),
            Ok(s) => match data_of(inits[n - 1], files[n - 1]@) {
                Err(f) => Err(f),
                Ok(d) => Ok(inserted(s, inits[n - 1].name@, weight_of(inits[n - 1], d))),
            },
        }
    }
}

proof fn lemma_fault_stays(inits: Seq<OnnxTensor>, files: Seq<&[u8]>, n: int, total: int)
    requires
        0 <= n <= total,
        table_of(inits, files, n) is Err,
    ensures
        table_of(inits, files, total) == table_of(inits, files, n),
    decreases total - n,
{
    if n < total {
        lemma_fault_stays(inits, files, n, total - 1);
    }
}

/// The weights of a graph. There is one file per initializer; it is empty
/// where the initializer holds its data itself.
pub fn load_onnx(inits: &Vec<OnnxTensor>, files: &Vec<&[u8]>, nodes: &Vec<OnnxNode>) -> (r: Result<
    Weights,
    OnnxError,
>)
    requires
        files@.len() == inits@.len(),
        forall|i: int| 0 <= i < inits@.len() ==> tensor_fits(#[trigger] inits@[i]),
    ensures
        match table_of(inits@, files@, inits@.len() as int) {
            Ok(s) => r matches Ok(w) && w@ == renamed(s, nodes@, nodes@.len() as int)
                && w.metadata@.len() == 0,
            Err(f) => r matches Err(e) && e@ == f,
        },
{
    let mut w = Weights::new();
    let mut i: usize = 0;
    while i < inits.len()
        invariant
            i <= inits@.len(),
            files@.len() == inits@.len(),
            forall|k: int| 0 <= k < inits@.len() ==> tensor_fits(#[trigger] inits@[k]),
            table_of(inits@, files@, i as int) == Ok::<Seq<NamedView>, OnnxFault>(w@),
            w.metadata@ == Seq::<(String, String)>::empty(),
        decreases inits@.len() - i,
    {
        assert(tensor_fits(inits@[i as int]));
        match read_tensor_raw(&inits[i], files[i]) {
            Ok(data) => {
                insert_initializer(&mut w, &inits[i], data);
            },
            Err(e) => {
                proof {
                    lemma_fault_stays(inits@, files@, i + 1, inits@.len() as int);
                }
                return Err(e);
            },
        }
        i = i + 1;
    }
    rename_weights(&mut w, nodes);
    Ok(w)
}

/// How often an operator occurs.
#[derive(Debug, PartialEq, Eq)]
pub struct OpCount {
    pub op: String,
    pub count: usize,
}

/// How often an operator occurs among the first `n` nodes.
pub open spec fn occurrences(ops: Seq<Seq<char>>, op: Seq<char>, n: int) -> nat
    decreases n,
{
    if n <= 0 {
        0
    } else {
        occurrences(ops, op, n - 1) + if ops[n - 1] == op {
            1nat
        } else {
            0nat
        }
    }
}

/// The operators of the nodes.
pub open spec fn op_types(nodes: Seq<OnnxNode>) -> Seq<Seq<char>> {
    nodes.map_values(|n: OnnxNode| n.op_type@)
}

/// Every operator that occurs is listed once, with how often it occurs, and no
/// other.
pub open spec fn is_count(counts: Seq<OpCount>, ops: Seq<Seq<char>>, n: int) -> bool {
    &&& forall|i: int, j: int|
        0 <= i < j < counts.len() ==> (#[trigger] counts[i]).op@ != (#[trigger] counts[j]).op@
    &&& forall|i: int|
        0 <= i < counts.len() ==> (#[trigger] counts[i]).count == occurrences(
            ops,
            counts[i].op@,
            n,
        ) && counts[i].count > 0
    &&& forall|k: int| 0 <= k < n ==> listed(counts, #[trigger] ops[k])
}

/// An operator that occurs is the operator of some node.
pub proof fn what_occurs_has_a_node(ops: Seq<Seq<char>>, op: Seq<char>, n: int)
    requires
        0 <= n <= ops.len(),
    ensures
        occurrences(ops, op, n) > 0 <==> exists|k: int| 0 <= k < n && #[trigger] ops[k] == op,
    decreases n,
{
    if n > 0 {
        what_occurs_has_a_node(ops, op, n - 1);
        if ops[n - 1] == op {
            assert(0 <= n - 1 < n && ops[n - 1] == op);
        } else if occurrences(ops, op, n - 1) > 0 {
            let k = choose|k: int| 0 <= k < n - 1 && #[trigger] ops[k] == op;
            assert(0 <= k < n && ops[k] == op);
        }
    }
}

/// The operator is listed.
pub open spec fn listed(counts: Seq<OpCount>, op: Seq<char>) -> bool {
    exists|i: int| 0 <= i < counts.len() && (#[trigger] counts[i]).op@ == op
}

/// More frequent operators come first.
pub open spec fn most_frequent_first(counts: Seq<OpCount>) -> bool {
    forall|i: int, j: int|
        0 <= i < j < counts.len() ==> (#[trigger] counts[i]).count >= (#[trigger] counts[j]).count
}

/// Listing the same operators in another order: `from` tells where each comes
/// from.
proof fn lemma_reordered(
    s: Seq<OpCount>,
    t: Seq<OpCount>,
    from: Seq<int>,
    to: Seq<int>,
    ops: Seq<Seq<char>>,
    n: int,
)
    requires
        is_count(s, ops, n),
        s.len() == t.len(),
        from.len() == t.len(),
        to.len() == s.len(),
        forall|j: int|
            0 <= j < t.len() ==> 0 <= #[trigger] from[j] < s.len() && t[j] == s[from[j]] && to[from[j]]
                == j,
        forall|i: int|
            0 <= i < s.len() ==> 0 <= #[trigger] to[i] < t.len() && from[to[i]] == i,
    ensures
        is_count(t, ops, n),
{
    assert forall|i: int, j: int| 0 <= i < j < t.len() implies (#[trigger] t[i]).op@ != (
    #[trigger] t[j]).op@ by {
        let a = from[i];
        let b = from[j];
        assert(to[a] == i && to[b] == j);
        assert(a != b);
        if a < b {
            assert(s[a].op@ != s[b].op@);
        } else {
            assert(s[b].op@ != s[a].op@);
        }
    }
    assert forall|j: int| 0 <= j < t.len() implies (#[trigger] t[j]).count == occurrences(
        ops,
        t[j].op@,
        n,
    ) && t[j].count > 0 by {
        assert(t[j] == s[from[j]]);
    }
    assert forall|k: int| 0 <= k < n implies listed(t, #[trigger] ops[k]) by {
        assert(listed(s, ops[k]));
        let i = choose|i: int| 0 <= i < s.len() && (#[trigger] s[i]).op@ == ops[k];
        assert(from[to[i]] == i);
        assert(t[to[i]].op@ == ops[k]);
    }
}

/// Moving one item of the second list to the end of the first.
proof fn lemma_taken(a: Seq<OpCount>, b: Seq<OpCount>, i: int, ops: Seq<Seq<char>>, n: int)
    requires
        is_count(a + b, ops, n),
        0 <= i < b.len(),
    ensures
        is_count(a.push(b[i]) + b.remove(i), ops, n),
{
    let s = a + b;
    let t = a.push(b[i]) + b.remove(i);
    let m = a.len() as int;
    let from = Seq::new(
        t.len(),
        |j: int|
            if j < m {
                j
            } else if j == m {
                m + i
            } else if j <= m + i {
                j - 1
            } else {
                j
            },
    );
    let to = Seq::new(
        s.len(),
        |j: int|
            if j < m {
                j
            } else if j == m + i {
                m
            } else if j < m + i {
                j + 1
            } else {
                j
            },
    );
    assert forall|j: int| 0 <= j < t.len() implies 0 <= #[trigger] from[j] < s.len() && t[j]
        == s[from[j]] && to[from[j]] == j by {
        if j > m {
            let k = j - m - 1;
            assert(t[j] == b.remove(i)[k]);
            if k < i {
                assert(b.remove(i)[k] == b[k]);
                assert(s[m + k] == b[k]);
            } else {
                assert(b.remove(i)[k] == b[k + 1]);
                assert(s[m + k + 1] == b[k + 1]);
            }
        }
    }
    assert forall|j: int| 0 <= j < s.len() implies 0 <= #[trigger] to[j] < t.len() && from[to[j]]
        == j by {}
    lemma_reordered(s, t, from, to, ops, n);
}

fn count_nodes(nodes: &Vec<OnnxNode>) -> (counts: Vec<OpCount>)
    ensures
        is_count(counts@, op_types(nodes@), nodes@.len() as int),
{
    let mut counts: Vec<OpCount> = Vec::new();
    let ghost ops = op_types(nodes@);
    let mut n: usize = 0;
    while n < nodes.len()
        invariant
            n <= nodes@.len(),
            ops == op_types(nodes@),
            is_count(counts@, ops, n as int),
        decreases nodes@.len() - n,
    {
        let op = nodes[n].op_type.as_str();
        let mut i: usize = 0;
        assert(ops[n as int] == op@);
        while i < counts.len() && !text::text_eq(counts[i].op.as_str(), op)
            invariant
                i <= counts@.len(),
                forall|k: int| 0 <= k < i ==> (#[trigger] counts@[k]).op@ != op@,
            decreases counts@.len() - i,
        {
            i = i + 1;
        }
        let ghost before = counts@;
        proof {
            lemma_bounded(ops, op@, n as int);
        }
        if i < counts.len() {
            let old_count: usize = counts[i].count;
            let name = counts[i].op.as_str().to_owned();
            counts.set(i, OpCount { op: name, count: old_count + 1 });
            proof {
                assert forall|k: int| 0 <= k < counts@.len() implies (
                #[trigger] counts@[k]).op@ == before[k].op@ by {}
                assert forall|k: int| 0 <= k < n + 1 implies listed(
                    counts@,
                    #[trigger] ops[k],
                ) by {
                    if k == n {
                        assert(counts@[i as int].op@ == ops[k]);
                    } else {
                        assert(listed(before, ops[k]));
                        let j = choose|j: int|
                            0 <= j < before.len() && (#[trigger] before[j]).op@ == ops[k];
                        assert(counts@[j].op@ == ops[k]);
                    }
                }
            }
        } else {
            counts.push(OpCount { op: op.to_owned(), count: 1 });
            proof {
                lemma_absent(before, ops, op@, n as int);
                assert forall|k: int| 0 <= k < before.len() implies counts@[k] == before[k] by {}
                assert forall|k: int| 0 <= k < n + 1 implies listed(
                    counts@,
                    #[trigger] ops[k],
                ) by {
                    if k == n {
                        assert(counts@[before.len() as int].op@ == ops[k]);
                    } else {
                        assert(listed(before, ops[k]));
                        let j = choose|j: int|
                            0 <= j < before.len() && (#[trigger] before[j]).op@ == ops[k];
                        assert(counts@[j].op@ == ops[k]);
                    }
                }
            }
        }
        n = n + 1;
    }
    counts
}

proof fn lemma_bounded(ops: Seq<Seq<char>>, op: Seq<char>, n: int)
    requires
        0 <= n,
    ensures
        occurrences(ops, op, n) <= n,
    decreases n,
{
    if n > 0 {
        lemma_bounded(ops, op, n - 1);
    }
}

/// What is not listed does not occur.
proof fn lemma_absent(counts: Seq<OpCount>, ops: Seq<Seq<char>>, op: Seq<char>, n: int)
    requires
        0 <= n,
        forall|k: int| 0 <= k < n ==> listed(counts, #[trigger] ops[k]),
        forall|i: int| 0 <= i < counts.len() ==> (#[trigger] counts[i]).op@ != op,
    ensures
        occurrences(ops, op, n) == 0,
    decreases n,
{
    if n > 0 {
        assert(listed(counts, ops[n - 1]));
        let i = choose|i: int|
            0 <= i < counts.len() && (#[trigger] counts[i]).op@ == ops[n - 1];
        assert(counts[i].op@ != op);
        lemma_absent(counts, ops, op, n - 1);
    }
}

/// How often each operator occurs, the most frequent first. The order of
/// operators that occur equally often is left open.
pub fn count_ops(nodes: &Vec<OnnxNode>) -> (sorted: Vec<OpCount>)
    ensures
        is_count(sorted@, op_types(nodes@), nodes@.len() as int),
        most_frequent_first(sorted@),
{
    let ghost ops = op_types(nodes@);
    let ghost total = nodes@.len() as int;
    let mut rest = count_nodes(nodes);
    let mut sorted: Vec<OpCount> = Vec::new();
    assert(sorted@ + rest@ =~= rest@);
    while rest.len() > 0
        invariant
            is_count(sorted@ + rest@, ops, total),
            most_frequent_first(sorted@),
            forall|i: int, j: int|
                0 <= i < sorted@.len() && 0 <= j < rest@.len() ==> (#[trigger] sorted@[i]).count
                    >= (#[trigger] rest@[j]).count,
        decreases rest@.len(),
    {
        let mut best: usize = 0;
        let mut i: usize = 1;
        while i < rest.len()
            invariant
                best < rest@.len(),
                i <= rest@.len(),
                forall|k: int|
                    0 <= k < i ==> rest@[best as int].count >= (#[trigger] rest@[k]).count,
            decreases rest@.len() - i,
        {
            if rest[i].count > rest[best].count {
                best = i;
            }
            i = i + 1;
        }
        let ghost (a, b) = (sorted@, rest@);
        proof {
            lemma_taken(a, b, best as int, ops, total);
        }
        let item = rest.remove(best);
        sorted.push(item);
        proof {
            assert(sorted@ == a.push(b[best as int]));
            assert(rest@ == b.remove(best as int));
            assert forall|j: int| 0 <= j < rest@.len() implies (#[trigger] rest@[j]).count
                <= b[best as int].count by {
                if j < best {
                    assert(rest@[j] == b[j]);
                } else {
                    assert(rest@[j] == b[j + 1]);
                }
            }
            assert forall|x: int, y: int|
                0 <= x < sorted@.len() && 0 <= y < rest@.len() implies (#[trigger] sorted@[x]).count
                >= (#[trigger] rest@[y]).count by {
                if x < a.len() {
                    assert(sorted@[x] == a[x]);
                    assert(a[x].count >= b[best as int].count);
                }
            }
        }
    }
    assert(sorted@ + rest@ =~= sorted@);
    sorted
}

/// What a model says of itself.
#[derive(Debug, PartialEq, Eq)]
pub struct OnnxInfo {
    pub ir_version: i64,
    /// The version of the first operator set; zero where there is none.
    pub opset: i64,
    pub inputs: usize,
    pub outputs: usize,
    pub initializers: usize,
}

/// The lines of the first `n` operators.
pub open spec fn count_lines(counts: Seq<OpCount>, n: int) -> Seq<char>
    decreases n,
{
    if n <= 0 {
        Seq::empty()
    } else {
        count_lines(counts, n - 1) + "  "@ + counts[n - 1].op@ + ": "@ + text::decimal(
            counts[n - 1].count as nat,
        ) + "\n"@
    }
}

/// The lines before those of the operators.
pub open spec fn info_head(i: OnnxInfo, nodes: nat) -> Seq<char> {
    "IR version: "@ + text::signed_decimal(i.ir_version as int) + "\nOpset: "@
        + text::signed_decimal(i.opset as int) + "\nNodes: "@ + text::decimal(nodes)
        + "\nInputs: "@ + text::decimal(i.inputs as nat) + "\nOutputs: "@ + text::decimal(
        i.outputs as nat,
    ) + "\nInitializers: "@ + text::decimal(i.initializers as nat) + "\n\nOperator counts:\n"@
}

/// A description of a graph: its numbers, and how often each operator occurs,
/// the most frequent first.
pub fn load_onnx_info(info: &OnnxInfo, nodes: &Vec<OnnxNode>) -> (s: String)
    ensures
        exists|counts: Seq<OpCount>| #[trigger]
            is_count(counts, op_types(nodes@), nodes@.len() as int) && most_frequent_first(counts)
                && s@ == info_head(*info, nodes@.len()) + count_lines(counts, counts.len() as int),
{
    let mut s = "IR version: ".to_owned();
    s.append(text::signed_string(info.ir_version).as_str());
    s.append("\nOpset: ");
    s.append(text::signed_string(info.opset).as_str());
    s.append("\nNodes: ");
    s.append(text::decimal_string(nodes.len()).as_str());
    s.append("\nInputs: ");
    s.append(text::decimal_string(info.inputs).as_str());
    s.append("\nOutputs: ");
    s.append(text::decimal_string(info.outputs).as_str());
    s.append("\nInitializers: ");
    s.append(text::decimal_string(info.initializers).as_str());
    s.append("\n\nOperator counts:\n");
    let ghost head = s@;
    let counts = count_ops(nodes);
    let mut i: usize = 0;
    assert(head + count_lines(counts@, 0) =~= head);
    while i < counts.len()
        invariant
            i <= counts@.len(),
            s@ == head + count_lines(counts@, i as int),
        decreases counts@.len() - i,
    {
        s.append("  ");
        s.append(counts[i].op.as_str());
        s.append(": ");
        s.append(text::decimal_string(counts[i].count).as_str());
        s.append("\n");
        i = i + 1;
        assert(s@ =~= head + count_lines(counts@, i as int));
    }
    assert(is_count(counts@, op_types(nodes@), nodes@.len() as int));
    s
}

} // verus!
