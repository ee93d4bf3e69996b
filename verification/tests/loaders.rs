//! Model files of other formats.

use glia::loader::gguf::{
    data_start, find_key, get_alignment, parse_gguf_header, read_gguf_string, read_gguf_value,
    read_i16, read_i32, read_i64, read_i8, read_u16, read_u32, read_u64, read_u8, GgufError,
    GgufNumber, GgufValue, MetaEntry,
};
use glia::loader::gguf_weights::{
    build_weights_from_gguf, gguf_type_block_size, gguf_type_bytes_per_block, gguf_type_to_dtype, load_gguf, load_gguf_with_metadata, tensor_fits_in, tensor_range, LoadError,
};
use glia::loader::onnx::{
    count_ops, external_of, inline_bytes, load_onnx, load_onnx_info, name_of_output,
    onnx_dtype_to_dtype, parse_u64, read_tensor_raw, External, OnnxError, OnnxInfo, OnnxNode,
    OnnxTensor,
};
use glia::loader::{detect_format, format_of_extension, ModelFormat};
use glia::quant::stored::Stored;
use glia::types::{dequantize_to_f32, DType, Weight, Weights};

/// A string with its length in front.
fn text(s: &str) -> Vec<u8> {
    let mut b = (s.len() as u64).to_le_bytes().to_vec();
    b.extend_from_slice(s.as_bytes());
    b
}

/// An entry of the metadata.
fn entry(key: &str, ty: u32, value: &[u8]) -> Vec<u8> {
    let mut b = text(key);
    b.extend_from_slice(&ty.to_le_bytes());
    b.extend_from_slice(value);
    b
}

struct T<'a> {
    name: &'a str,
    dims: &'a [u64],
    ty: u32,
    data: &'a [u8],
}

/// A file, its data aligned to `alignment`.
fn file(alignment: usize, entries: &[Vec<u8>], tensors: &[T]) -> Vec<u8> {
    let mut b = b"GGUF".to_vec();
    b.extend_from_slice(&3u32.to_le_bytes());
    b.extend_from_slice(&(tensors.len() as u64).to_le_bytes());
    b.extend_from_slice(&(entries.len() as u64).to_le_bytes());
    for e in entries {
        b.extend_from_slice(e);
    }
    let mut offset = 0u64;
    for t in tensors {
        b.extend_from_slice(&text(t.name));
        b.extend_from_slice(&(t.dims.len() as u32).to_le_bytes());
        for d in t.dims {
            b.extend_from_slice(&d.to_le_bytes());
        }
        b.extend_from_slice(&t.ty.to_le_bytes());
        b.extend_from_slice(&offset.to_le_bytes());
        offset += t.data.len() as u64;
    }
    while b.len() % alignment != 0 {
        b.push(0);
    }
    for t in tensors {
        b.extend_from_slice(t.data);
    }
    b
}

fn named<'a>(w: &'a Weights, name: &str) -> &'a Weight {
    let i = w.find(name).expect(name);
    &w.weights[i].weight
}

#[test]
fn numbers_are_little_endian() {
    let b: Vec<u8> = (0x81..0x8A).collect();
    assert_eq!(read_u8(&b, 1), Ok((0x82, 2)));
    assert_eq!(read_i8(&b, 0), Ok((-127, 1)));
    assert_eq!(read_u16(&b, 0), Ok((0x8281, 2)));
    assert_eq!(read_i16(&b, 0), Ok((0x8281u16 as i16, 2)));
    assert_eq!(read_u32(&b, 1), Ok((0x8584_8382, 5)));
    assert_eq!(read_i32(&b, 1), Ok((0x8584_8382u32 as i32, 5)));
    assert_eq!(read_u64(&b, 1), Ok((0x8988_8786_8584_8382, 9)));
    assert_eq!(read_i64(&b, 1), Ok((0x8988_8786_8584_8382u64 as i64, 9)));
    assert_eq!(read_u64(&b, 2), Err(GgufError::Truncated));
}

#[test]
fn strings_are_checked() {
    assert_eq!(read_gguf_string(&text("h\u{e9}"), 0), Ok((String::from("h\u{e9}"), 11)));
    let mut bad = text("ab");
    bad[9] = 0xFF;
    assert_eq!(read_gguf_string(&bad, 0), Err(GgufError::InvalidUtf8));
    let long = (1024u64 * 1024 * 64 + 1).to_le_bytes();
    assert_eq!(read_gguf_string(&long, 0), Err(GgufError::StringTooLarge(67108865)));
    assert_eq!(read_gguf_string(&text("ab")[..9], 0), Err(GgufError::Truncated));
}

#[test]
fn values_are_read_by_their_type() {
    let mut b = 9u32.to_le_bytes().to_vec();
    b.extend_from_slice(&8u32.to_le_bytes());
    b.extend_from_slice(&2u64.to_le_bytes());
    b.extend_from_slice(&text("a"));
    b.extend_from_slice(&text("bc"));
    let n = b.len();
    let (v, end) = read_gguf_value(&b, 0).unwrap();
    assert_eq!(end, n);
    assert_eq!(
        v,
        GgufValue::Array(vec![
            GgufValue::Str(String::from("a")),
            GgufValue::Str(String::from("bc")),
        ])
    );
    assert_eq!(
        read_gguf_value(&13u32.to_le_bytes(), 0),
        Err(GgufError::UnknownValueType(13))
    );
    let mut many = 9u32.to_le_bytes().to_vec();
    many.extend_from_slice(&0u32.to_le_bytes());
    many.extend_from_slice(&100_000_001u64.to_le_bytes());
    assert_eq!(read_gguf_value(&many, 0), Err(GgufError::ArrayTooLarge(100_000_001)));
    let mut yes = 7u32.to_le_bytes().to_vec();
    yes.push(2);
    assert_eq!(read_gguf_value(&yes, 0), Ok((GgufValue::Bool(true), 5)));
}

#[test]
fn values_convert_where_they_can() {
    assert_eq!(GgufValue::I32(-1).as_u32(), Some(u32::MAX));
    assert_eq!(GgufValue::U64(5).as_u32(), Some(5));
    assert_eq!(GgufValue::U32(5).as_u64(), Some(5));
    assert_eq!(GgufValue::Bool(true).as_u32(), None);
    assert_eq!(GgufValue::Str(String::from("x")).as_str(), Some("x"));
    assert_eq!(GgufValue::F64(9).as_f32(), Some(GgufNumber::Double(9)));
    assert_eq!(GgufValue::F32(7).as_f32(), Some(GgufNumber::Single(7)));
}

#[test]
fn headers_are_refused() {
    assert_eq!(parse_gguf_header(b"GG").err(), Some(GgufError::TooSmall));
    let mut wrong = file(32, &[], &[]);
    wrong[3] = b'X';
    assert_eq!(
        parse_gguf_header(&wrong).err(),
        Some(GgufError::BadMagic(b'G', b'G', b'U', b'X'))
    );
    let mut short = file(32, &[entry("k", 4, &7u32.to_le_bytes())], &[]);
    short.truncate(40);
    assert_eq!(parse_gguf_header(&short).err(), Some(GgufError::Truncated));
    assert_eq!(load_gguf(b"GG").err(), Some(LoadError::Format(GgufError::TooSmall)));
}

#[test]
fn headers_are_read() {
    let entries = [
        entry("general.alignment", 4, &64u32.to_le_bytes()),
        entry("general.name", 8, &text("tiny")),
        entry("general.name", 8, &text("later")),
    ];
    let t = T { name: "output.weight", dims: &[3, 2], ty: 0, data: &[1; 24] };
    let b = file(64, &entries, &[t]);
    let h = parse_gguf_header(&b).unwrap();
    assert_eq!(h.metadata.len(), 2);
    let i = find_key(&h.metadata, "general.name").unwrap();
    assert_eq!(h.metadata[i].value, GgufValue::Str(String::from("later")));
    assert_eq!(h.tensors[0].name, "output.weight");
    assert_eq!(h.tensors[0].dims, vec![3, 2]);
    assert_eq!(get_alignment(&h.metadata), 64);
    assert_eq!(get_alignment(&vec![]), 32);
    let (w, meta): (Weights, Vec<MetaEntry>) = load_gguf_with_metadata(&b).unwrap();
    assert_eq!(meta.len(), 2);
    let out = named(&w, "output.weight");
    assert_eq!((out.shape.clone(), out.dtype), (vec![2, 3], DType::F32));
    assert_eq!(out.data, vec![1; 24]);
}

#[test]
fn data_starts_at_the_next_multiple() {
    assert_eq!(data_start(65, 32), 96);
    assert_eq!(data_start(64, 32), 64);
    assert_eq!(data_start(5, 1), 5);
    assert_eq!(data_start(90, 12), 96);
    assert_eq!(data_start(96, 12), 96);
}

#[test]
fn data_is_aligned_to_any_number() {
    let e = entry("general.alignment", 4, &12u32.to_le_bytes());
    let b = file(12, &[e], &[T { name: "abc", dims: &[4], ty: 0, data: &[7; 16] }]);
    let w = load_gguf(&b).unwrap();
    assert_eq!(named(&w, "abc").data, vec![7; 16]);
    assert!(w.metadata.is_empty());
}

#[test]
fn fused_projections_of_every_type_are_split() {
    // Three rows of one block each.
    let data: Vec<u8> = (0..60).collect();
    let qkv = T { name: "m.qkv_proj.weight", dims: &[32, 3], ty: 3, data: &data };
    let w = load_gguf(&file(32, &[], &[qkv])).unwrap();
    assert_eq!(w.len(), 3);
    for (i, part) in ["q", "k", "v"].iter().enumerate() {
        let p = named(&w, &format!("m.{part}_proj.weight"));
        assert_eq!((p.shape.clone(), p.dtype), (vec![1, 32], DType::Q4_1));
        assert_eq!(p.data, data[20 * i..20 * (i + 1)].to_vec());
    }
    // Two rows of one super-block each.
    let data: Vec<u8> = (0..288).map(|i| i as u8).collect();
    let up = T { name: "m.gate_up_proj.weight", dims: &[256, 2], ty: 12, data: &data };
    let w = load_gguf(&file(32, &[], &[up])).unwrap();
    assert_eq!(named(&w, "m.gate_proj.weight").data, data[..144].to_vec());
    assert_eq!(named(&w, "m.up_proj.weight").data, data[144..].to_vec());
}

#[test]
fn tensors_have_a_place_in_the_file() {
    let b = file(32, &[], &[T { name: "a", dims: &[64], ty: 2, data: &[5; 36] }]);
    let h = parse_gguf_header(&b).unwrap();
    let start = data_start(h.end, 32);
    assert!(tensor_fits_in(&h.tensors[0], start));
    assert_eq!(tensor_range(&h.tensors[0], start), (start, 36));
}

#[test]
fn tensors_past_the_end_are_left_out() {
    let kept = T { name: "a", dims: &[4], ty: 0, data: &[5; 16] };
    let cut = T { name: "b", dims: &[4], ty: 0, data: &[6; 15] };
    let w = load_gguf(&file(32, &[], &[kept, cut])).unwrap();
    assert_eq!(w.len(), 1);
    assert!(w.find("b").is_none());
    assert_eq!(named(&w, "a").data, vec![5; 16]);
}

#[test]
fn weights_are_built_from_a_header() {
    let b = file(32, &[], &[T { name: "a", dims: &[2, 1], ty: 1, data: &[1, 2, 3, 4] }]);
    let h = parse_gguf_header(&b).unwrap();
    let start = data_start(h.end, get_alignment(&h.metadata));
    let w = build_weights_from_gguf(&b, &h.tensors, start);
    assert_eq!(w.len(), 1);
    let a = named(&w, "a");
    assert_eq!((a.shape.clone(), a.dtype, a.data.clone()), (vec![1, 2], DType::F16, vec![1, 2, 3, 4]));
}

#[test]
fn element_types_have_their_blocks() {
    assert_eq!(gguf_type_to_dtype(2), DType::Q4_0);
    assert_eq!((gguf_type_block_size(2), gguf_type_bytes_per_block(2)), (32, 18));
    assert_eq!(gguf_type_to_dtype(12), DType::Q4_K);
    assert_eq!((gguf_type_block_size(12), gguf_type_bytes_per_block(12)), (256, 144));
    assert_eq!((gguf_type_block_size(0), gguf_type_bytes_per_block(0)), (1, 4));
}

#[test]
fn fused_projections_are_split() {
    // Six rows of two elements, in single precision.
    let data: Vec<u8> = (0..48).collect();
    let qkv = T { name: "blk.0.attn_qkv_x.qkv_proj.weight", dims: &[2, 6], ty: 0, data: &data };
    let up = T { name: "m.gate_up_proj.weight", dims: &[2, 6], ty: 0, data: &data };
    let w = load_gguf(&file(32, &[], &[qkv, up])).unwrap();
    assert!(w.weights.iter().all(|e| !e.name.contains("qkv_proj.weight")));
    assert!(w.weights.iter().all(|e| !e.name.contains("gate_up_proj.weight")));
    let gate = named(&w, "m.gate_proj.weight");
    assert_eq!((gate.shape.clone(), gate.data.clone()), (vec![3, 2], data[0..24].to_vec()));
    let up = named(&w, "m.up_proj.weight");
    assert_eq!((up.shape.clone(), up.data.clone()), (vec![3, 2], data[24..48].to_vec()));
    let parts: Vec<Vec<u8>> = w
        .weights
        .iter()
        .filter(|e| e.name.contains("attn_qkv_x"))
        .map(|e| e.weight.data.clone())
        .collect();
    assert_eq!(parts.len(), 3);
    assert_eq!(parts.concat(), data);
}

#[test]
fn uneven_heads_are_split_in_half_and_quarters() {
    let data: Vec<u8> = (0..32).collect();
    let qkv = T { name: "m.qkv_proj.weight", dims: &[1, 8], ty: 0, data: &data };
    let w = load_gguf(&file(32, &[], &[qkv])).unwrap();
    assert_eq!(named(&w, "m.q_proj.weight").data, data[0..16].to_vec());
    assert_eq!(named(&w, "m.k_proj.weight").data, data[16..24].to_vec());
    assert_eq!(named(&w, "m.v_proj.weight").data, data[24..32].to_vec());
}

#[test]
fn sizes_out_of_range_are_refused() {
    let t = T { name: "a", dims: &[u64::MAX, 2], ty: 0, data: &[] };
    assert_eq!(load_gguf(&file(32, &[], &[t])).err(), Some(LoadError::Sizes));
}

#[test]
fn formats_are_told_apart() {
    assert_eq!(format_of_extension("gguf"), Some(ModelFormat::Gguf));
    assert_eq!(format_of_extension("bin"), None);
    assert_eq!(detect_format("onnx", &b"GGUF".to_vec()), Some(ModelFormat::Onnx));
    assert_eq!(detect_format("", &b"GGUF".to_vec()), Some(ModelFormat::Gguf));
    assert_eq!(detect_format("", &vec![8, 1, 2, 3]), Some(ModelFormat::Onnx));
    assert_eq!(detect_format("", &vec![8, 1]), None);
}

#[test]
fn weights_have_one_entry_per_name() {
    let make = |n: u8| Weight {
        data: vec![n],
        shape: vec![1],
        dtype: DType::U8,
        needs_transpose: false,
    };
    let mut w = Weights::new();
    assert!(w.is_empty());
    w.insert(String::from("a"), make(1));
    w.insert(String::from("b"), make(2));
    w.insert(String::from("a"), make(3));
    assert_eq!(w.len(), 2);
    assert_eq!(named(&w, "a").data, vec![3]);
    assert_eq!(DType::Q4_K.canonical_encoding(), "q4k");
    assert_eq!(DType::Q4_0.canonical_encoding(), "q4");
}

#[test]
fn source_data_is_decoded() {
    assert_eq!(
        dequantize_to_f32(&[0, 0, 0x80, 0x3F], DType::F32),
        vec![Stored::Single(0x3F80_0000)]
    );
    assert_eq!(dequantize_to_f32(&[0x80, 0x3F], DType::BF16), vec![Stored::Single(0x3F80_0000)]);
    assert_eq!(
        dequantize_to_f32(&[0b1001_0100], DType::Ternary),
        vec![
            Stored::Whole { code: -1 },
            Stored::Whole { code: 0 },
            Stored::Whole { code: 0 },
            Stored::Whole { code: 1 },
        ]
    );
}

fn tensor(name: &str) -> OnnxTensor {
    OnnxTensor {
        name: String::from(name),
        dims: vec![2],
        data_type: 1,
        data_location: 0,
        external_data: vec![],
        raw_data: vec![],
        float_data: vec![],
        int32_data: vec![],
    }
}

fn outside(name: &str, entries: &[(&str, &str)]) -> OnnxTensor {
    OnnxTensor {
        data_location: 1,
        external_data: entries.iter().map(|(k, v)| (String::from(*k), String::from(*v))).collect(),
        ..tensor(name)
    }
}

fn node(op: &str, inputs: &[&str], outputs: &[&str]) -> OnnxNode {
    OnnxNode {
        op_type: String::from(op),
        inputs: inputs.iter().map(|s| String::from(*s)).collect(),
        outputs: outputs.iter().map(|s| String::from(*s)).collect(),
    }
}

#[test]
fn data_is_taken_from_the_first_field_that_has_any() {
    let raw = OnnxTensor { raw_data: vec![1, 2], float_data: vec![3], ..tensor("t") };
    assert_eq!(inline_bytes(&raw), vec![1, 2]);
    let floats = OnnxTensor { float_data: vec![0x3F80_0000], ..tensor("t") };
    assert_eq!(inline_bytes(&floats), vec![0, 0, 0x80, 0x3F]);
    let ints = OnnxTensor { int32_data: vec![-2], ..tensor("t") };
    assert_eq!(inline_bytes(&ints), vec![0xFE, 0xFF, 0xFF, 0xFF]);
    assert_eq!(inline_bytes(&tensor("t")), vec![0; 8]);
    assert_eq!(inline_bytes(&OnnxTensor { data_type: 7, ..tensor("t") }), vec![0; 16]);
    assert_eq!(inline_bytes(&OnnxTensor { dims: vec![0], data_type: 2, ..tensor("t") }), vec![0]);
}

#[test]
fn numbers_in_text_are_unsigned() {
    assert_eq!(parse_u64("18446744073709551615"), Some(u64::MAX));
    assert_eq!(parse_u64("18446744073709551616"), None);
    assert_eq!(parse_u64("+7"), Some(7));
    assert_eq!(parse_u64(""), None);
    assert_eq!(parse_u64("-1"), None);
    assert_eq!(parse_u64("1_0"), None);
}

#[test]
fn outside_data_is_cut_from_its_file() {
    let t = outside("t", &[("location", "x.data"), ("offset", "1"), ("length", "3")]);
    assert_eq!(
        external_of(&t),
        Ok(Some(External { location: String::from("x.data"), offset: 1, length: 3 }))
    );
    assert_eq!(read_tensor_raw(&t, &[9, 8, 7, 6]), Ok(vec![8, 7, 6]));
    assert_eq!(
        read_tensor_raw(&t, &[9, 8, 7]),
        Err(OnnxError::OutOfBounds {
            name: String::from("t"),
            offset: 1,
            length: 3,
            file_size: 3,
        })
    );
    let nowhere = outside("t", &[("length", "3")]);
    assert_eq!(external_of(&nowhere), Err(OnnxError::NoLocation(String::from("t"))));
    let nothing = outside("t", &[("location", "x"), ("length", "x")]);
    assert_eq!(external_of(&nothing), Err(OnnxError::NoLocation(String::from("t"))));
    assert_eq!(external_of(&tensor("t")), Ok(None));
}

#[test]
fn weights_take_the_names_of_their_products() {
    assert_eq!(
        name_of_output("/model/layers.0/attn/q_proj/MatMul_output_0"),
        "model.layers.0.attn.q_proj.weight"
    );
    let a = OnnxTensor { raw_data: vec![1], ..tensor("onnx::MatMul_7") };
    let b = OnnxTensor { raw_data: vec![2], data_type: 10, ..tensor("bias") };
    let nodes = vec![
        node("MatMul", &["x", "onnx::MatMul_7"], &["/m/q/MatMul_output_0"]),
        node("Add", &["bias", "onnx::Add_1"], &["/m/r"]),
    ];
    let empty: &[u8] = &[];
    let w = load_onnx(&vec![a, b], &vec![empty, empty], &nodes).unwrap();
    assert_eq!(w.len(), 2);
    assert_eq!(named(&w, "m.q.weight").data, vec![1]);
    assert_eq!(named(&w, "bias").dtype, DType::F16);
    assert_eq!(onnx_dtype_to_dtype(3), DType::Q8_0);
    let lost = outside("t", &[]);
    assert_eq!(
        load_onnx(&vec![lost], &vec![empty], &nodes).err(),
        Some(OnnxError::NoLocation(String::from("t")))
    );
}

#[test]
fn graphs_are_described() {
    let nodes = vec![
        node("Add", &[], &[]),
        node("MatMul", &[], &[]),
        node("MatMul", &[], &[]),
    ];
    let counts = count_ops(&nodes);
    assert_eq!(counts[0].op, "MatMul");
    assert_eq!((counts[0].count, counts[1].count), (2, 1));
    assert_eq!(counts.len(), 2);
    assert!(count_ops(&vec![]).is_empty());
    let info = OnnxInfo { ir_version: 8, opset: 17, inputs: 1, outputs: 2, initializers: 3 };
    assert_eq!(
        load_onnx_info(&info, &nodes),
        "IR version: 8\nOpset: 17\nNodes: 3\nInputs: 1\nOutputs: 2\nInitializers: 3\n\n\
         Operator counts:\n  MatMul: 2\n  Add: 1\n"
    );
}
