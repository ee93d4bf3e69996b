//! Configurations and model files.

use glia::config::{
    activation_of, config_numbers, find_tensor, is_stored_as_inverse, kind_of, kinds_of, look_up,
    number_of, raw_config, read_config, size_of, split_of, token_of, tokens_of, vision_with,
    ConfigFloats, FormatError, HiddenActivation, LayerKind, LlamaConfig, Number, RequiredField,
    VisionFields, RMS_NORM_EPS_DEFAULT, ROPE_THETA_DEFAULT,
};
use glia::cyb_format::{
    write_model_file, write_model_file_streaming, write_model_header, Sections,
};
use glia::families::AttnScale;
use glia::tensor::{DType, TensorMeta};

const SMALL: &str = "model_type = \"qwen3\"\n\
    [architecture]\n\
    hidden_size = 64\n\
    num_attention_heads = 4\n\
    num_key_value_heads = 2\n\
    num_hidden_layers = 2\n\
    intermediate_size = 128\n\
    vocab_size = 100\n\
    head_dim = 16\n\
    rope_theta = 1000000.0\n\
    tie_word_embeddings = true\n\
    hidden_activation = \"gelu_pytorch_tanh\"\n\
    layer_types = [\"full_attention\", \"sliding_attention\"]\n\
    sliding_window = 8\n\
    mrope_section = [11, 11, 10]\n\
    image_token_id = 7\n\
    [architecture.vision]\n\
    depth = 3\n\
    rope_theta = 100\n\
    [tokenizer]\n\
    eos_token_ids = [3, \"x\", 5]\n";

const NO_FLOATS: ConfigFloats = ConfigFloats {
    rope_theta: None,
    rms_norm_eps: None,
    final_logit_softcapping: None,
    rope_theta_full: None,
    partial_rotary_factor_full: None,
    vision_rope_theta: None,
};

fn meta(name: &str, shape: &[usize]) -> TensorMeta {
    TensorMeta { name: String::from(name), shape: shape.to_vec(), dtype: DType::U32 }
}

fn without(key: &str) -> String {
    SMALL.lines().filter(|l| !l.starts_with(key)).map(|l| format!("{l}\n")).collect()
}

fn with(key: &str, value: &str) -> String {
    SMALL
        .lines()
        .map(|l| if l.starts_with(key) { format!("{key} = {value}\n") } else { format!("{l}\n") })
        .collect()
}

fn parsed(text: &str, floats: &ConfigFloats) -> Result<LlamaConfig, FormatError> {
    LlamaConfig::try_parse(text, &vec![], floats).expect("a head width")
}

#[test]
fn fields_are_read_from_the_document() {
    let floats = ConfigFloats { rope_theta: Some(1e6f32.to_bits()), ..NO_FLOATS };
    let tensors = vec![meta("model.layers.0.self_attn.q_norm.weight", &[16])];
    let c = LlamaConfig::parse(SMALL, &tensors, &floats).unwrap();
    assert_eq!(c.model_type, "qwen3");
    assert_eq!((c.hidden_size, c.num_attention_heads, c.num_key_value_heads), (64, 4, 2));
    assert_eq!((c.num_hidden_layers, c.intermediate_size, c.vocab_size), (2, 128, 100));
    assert_eq!(c.rope_theta, 1e6f32.to_bits());
    assert_eq!(c.rms_norm_eps, RMS_NORM_EPS_DEFAULT);
    assert_eq!(f32::from_bits(c.rms_norm_eps), 1e-6);
    assert_eq!(f32::from_bits(ROPE_THETA_DEFAULT), 10000.0);
    assert!(c.tie_word_embeddings && c.has_qk_norm && !c.has_attn_bias);
    assert_eq!(c.hidden_activation, HiddenActivation::GeluTanh);
    assert_eq!(c.layer_types, vec![LayerKind::Full, LayerKind::Sliding]);
    assert_eq!(c.eos_token_ids, vec![3, 5]);
    assert_eq!(c.mrope_section, Some((11, 11, 10)));
    assert_eq!((c.image_token_id, c.video_token_id), (Some(7), None));
    let v = c.vision.unwrap();
    assert_eq!((v.depth, v.hidden_size, v.out_hidden_size), (3, 1152, 64));
    assert_eq!(v.rope_theta, ROPE_THETA_DEFAULT);
    assert_eq!(c.family.attn_scale, AttnScale::PerHeadDim);
}

#[test]
fn numbers_are_handed_out_as_they_stand() {
    let n = config_numbers(SMALL);
    assert_eq!(n.rope_theta, Some(Number::Float(1e6f64.to_bits())));
    assert_eq!(n.vision_rope_theta, Some(100));
    assert_eq!(n.rms_norm_eps, None);
    let text = with("rope_theta", "10000");
    assert_eq!(config_numbers(&text).rope_theta, Some(Number::Integer(10000)));
    match config_numbers(&with("rope_theta", "nan")).rope_theta {
        Some(Number::Float(bits)) => assert!(f64::from_bits(bits).is_nan()),
        other => panic!("{other:?}"),
    }
    assert!(is_stored_as_inverse(Number::Integer(100000)));
    assert!(is_stored_as_inverse(Number::Float(1e6f64.to_bits())));
    assert!(!is_stored_as_inverse(Number::Float(1e-6f64.to_bits())));
    assert!(!is_stored_as_inverse(Number::Integer(0)));
}

#[test]
fn a_text_that_is_no_document_is_refused() {
    match read_config("a = ") {
        Err(FormatError::Toml(message)) => assert!(!message.is_empty()),
        other => panic!("{other:?}"),
    }
    assert_eq!(read_config("a = 1\n"), Err(FormatError::MissingArchitecture));
}

#[test]
fn integers_become_sizes_and_tokens() {
    assert_eq!(size_of(Some(5)), Some(5));
    assert_eq!(size_of(Some(-1)), Some(usize::MAX));
    assert_eq!(size_of(None), None);
    assert_eq!(token_of(Some(0x1_0000_0007)), Some(7));
    assert_eq!(token_of(None), None);
    assert_eq!(tokens_of(Some(vec![Some(3), None, Some(5)])), vec![3, 5]);
    assert_eq!(tokens_of(None), Vec::<u32>::new());
}

#[test]
fn a_float_stands_before_an_integer() {
    assert_eq!(number_of(Some(9), Some(1)), Some(Number::Float(9)));
    assert_eq!(number_of(None, Some(1)), Some(Number::Integer(1)));
    assert_eq!(number_of(None, None), None);
}

#[test]
fn names_become_kinds_and_activations() {
    assert_eq!(kind_of("full_attention"), LayerKind::Full);
    assert_eq!(kind_of("full"), LayerKind::Full);
    assert_eq!(kind_of("linear_attention"), LayerKind::LinearAttn);
    assert_eq!(kind_of("anything"), LayerKind::Sliding);
    let items = vec![Some(String::from("full")), None, Some(String::from("x"))];
    assert_eq!(kinds_of(&items), vec![LayerKind::Full, LayerKind::Sliding]);
    for (name, a) in [
        ("gelu_pytorch_tanh", HiddenActivation::GeluTanh),
        ("gelu_tanh", HiddenActivation::GeluTanh),
        ("gelu", HiddenActivation::GeluErf),
        ("gelu_erf", HiddenActivation::GeluErf),
        ("silu", HiddenActivation::Silu),
        ("relu", HiddenActivation::Silu),
    ] {
        assert_eq!(activation_of(Some(String::from(name))), a);
    }
    assert_eq!(activation_of(None), HiddenActivation::Silu);
}

#[test]
fn a_rotary_split_has_three_parts() {
    assert_eq!(split_of(Some(vec![Some(11), Some(11), None, Some(10)])), Some((11, 11, 10)));
    assert_eq!(split_of(Some(vec![Some(11), Some(11)])), None);
    assert_eq!(split_of(None), None);
}

#[test]
fn a_vision_table_has_defaults() {
    let none = VisionFields {
        hidden_size: None,
        num_heads: None,
        intermediate_size: None,
        depth: None,
        patch_size: None,
        in_channels: None,
        spatial_merge_size: None,
        temporal_patch_size: None,
        num_position_embeddings: None,
        out_hidden_size: None,
    };
    let v = vision_with(none, 64);
    assert_eq!((v.hidden_size, v.num_heads, v.intermediate_size, v.depth), (1152, 16, 4304, 27));
    assert_eq!((v.patch_size, v.in_channels), (16, 3));
    assert_eq!((v.spatial_merge_size, v.temporal_patch_size), (2, 2));
    assert_eq!((v.num_position_embeddings, v.out_hidden_size), (2304, 64));
    let w = vision_with(VisionFields { depth: Some(3), out_hidden_size: Some(8), ..none }, 64);
    assert_eq!((w.depth, w.out_hidden_size), (3, 8));
}

#[test]
fn fields_are_looked_up_and_put_together() {
    let mut f = look_up(SMALL);
    assert_eq!(f.refusal, None);
    assert!(f.architecture);
    assert_eq!(f.integers.hidden_size, Some(64));
    assert_eq!(f.eos_token_ids, Some(vec![Some(3), None, Some(5)]));
    f.model_type = None;
    f.root_tie_word_embeddings = Some(true);
    f.tie_word_embeddings = None;
    let c = raw_config(f).unwrap();
    assert_eq!(c.model_type, "unknown");
    assert_eq!(c.tie_word_embeddings, Some(true));
    assert_eq!(c.vision.map(|v| v.depth), Some(3));
    let mut f = look_up(SMALL);
    f.integers.num_hidden_layers = None;
    f.integers.vocab_size = None;
    assert_eq!(
        raw_config(f),
        Err(FormatError::MissingField(RequiredField::NumHiddenLayers))
    );
    let mut f = look_up(SMALL);
    f.architecture = false;
    assert_eq!(raw_config(f), Err(FormatError::MissingArchitecture));
    let mut f = look_up(SMALL);
    f.architecture = false;
    f.refusal = Some(String::from("no"));
    assert_eq!(raw_config(f), Err(FormatError::Toml(String::from("no"))));
}

#[test]
fn required_fields_are_named() {
    let fields = [
        ("hidden_size", RequiredField::HiddenSize),
        ("num_attention_heads", RequiredField::NumAttentionHeads),
        ("num_hidden_layers", RequiredField::NumHiddenLayers),
        ("intermediate_size", RequiredField::IntermediateSize),
        ("vocab_size", RequiredField::VocabSize),
    ];
    for (key, field) in fields {
        assert_eq!(read_config(&without(key)), Err(FormatError::MissingField(field)));
    }
}

#[test]
fn unusable_configurations_are_refused() {
    let cases = [
        (with("head_dim", "15"), FormatError::HeadDim(15)),
        (with("head_dim", "0"), FormatError::HeadDim(0)),
        (with("num_attention_heads", "0"), FormatError::NoHeads),
        (
            with("num_key_value_heads", "3"),
            FormatError::HeadGroups { heads: 4, kv_heads: 3 },
        ),
        (with("num_hidden_layers", "0"), FormatError::NoLayers),
        (with("vocab_size", "0"), FormatError::NoVocabulary),
        (with("num_hidden_layers", "3"), FormatError::LayerTypes { types: 2, layers: 3 }),
    ];
    for (text, e) in cases {
        assert_eq!(parsed(&text, &NO_FLOATS).err(), Some(e), "{text}");
    }
    let flat = ConfigFloats { rope_theta: Some(0), ..NO_FLOATS };
    assert_eq!(parsed(SMALL, &flat).err(), Some(FormatError::RopeTheta(0)));
    let one = 1f32.to_bits();
    let wide = ConfigFloats { rms_norm_eps: Some(one), ..NO_FLOATS };
    assert_eq!(parsed(SMALL, &wide).err(), Some(FormatError::RmsNormEps(one)));
}

#[test]
fn the_head_width_is_derived_where_it_is_absent() {
    let text = without("head_dim");
    let q = vec![meta("model.layers.0.self_attn.q_proj.weight", &[32, 64])];
    assert_eq!(LlamaConfig::parse(&text, &q, &NO_FLOATS).unwrap().head_dim, 8);
    assert_eq!(LlamaConfig::parse(&text, &vec![], &NO_FLOATS).unwrap().head_dim, 16);
    let none = with("num_attention_heads", "0").replace("head_dim = 16\n", "");
    assert!(LlamaConfig::try_parse(&none, &vec![], &NO_FLOATS).is_none());
}

#[test]
fn a_gate_takes_half_of_the_query_rows() {
    let text = without("head_dim")
        .replace("\"qwen3\"", "\"qwen3_5\"")
        .replace("hidden_size = 64", "hidden_size = 5120")
        .replace("num_attention_heads = 4", "num_attention_heads = 24");
    let q = vec![meta("model.layers.0.self_attn.q_proj.weight", &[12288, 5120])];
    assert_eq!(LlamaConfig::parse(&text, &q, &NO_FLOATS).unwrap().head_dim, 256);
}

#[test]
fn rotated_widths_are_even() {
    let floats = ConfigFloats {
        partial_rotary_factor_full: Some(0.25f32.to_bits()),
        ..NO_FLOATS
    };
    let text = SMALL.replace("head_dim = 16\n", "head_dim = 16\nglobal_head_dim = 33\n");
    let whole = parsed(&text, &NO_FLOATS).unwrap();
    assert_eq!(whole.layer_head_dim(0), 33);
    assert_eq!(whole.layer_rope_dim(0, 0), 32);
    let part = parsed(&text, &floats).unwrap();
    assert_eq!((part.layer_rope_dim(0, 9), part.layer_rope_dim(0, 8)), (8, 8));
}

#[test]
fn layers_have_their_own_widths() {
    let floats = ConfigFloats {
        rope_theta: Some(7),
        rope_theta_full: Some(9),
        partial_rotary_factor_full: Some(0.25f32.to_bits()),
        ..NO_FLOATS
    };
    let text = SMALL.replace(
        "head_dim = 16\n",
        "head_dim = 16\nglobal_head_dim = 32\nnum_global_key_value_heads = 1\n",
    );
    let c = parsed(&text, &floats).unwrap();
    assert_eq!((c.layer_head_dim(0), c.layer_head_dim(1)), (32, 16));
    assert_eq!((c.layer_kv_heads(0), c.layer_kv_heads(1)), (1, 2));
    assert_eq!((c.layer_window(0), c.layer_window(1)), (None, Some(8)));
    assert_eq!((c.layer_rope_theta(0), c.layer_rope_theta(1)), (9, 7));
    assert_eq!(c.layer_rope_fraction(0), Some(0.25f32.to_bits()));
    assert_eq!(c.layer_rope_fraction(1), None);
    assert_eq!(c.layer_rope_dim(1, 3), 16);
    assert_eq!(c.layer_attn_scale(0), Some(32));
    assert_eq!((c.layer_kv_cache_seq(0, 100), c.layer_kv_cache_seq(1, 100)), (100, 8));
    assert_eq!(c.layer_kv_cache_seq(1, 5), 5);
}

#[test]
fn tensors_are_found_by_name() {
    let ts = vec![meta("a", &[1]), meta("b", &[2])];
    assert_eq!(find_tensor(&ts, "b"), Some(1));
    assert_eq!(find_tensor(&ts, "c"), None);
}

fn sections<'a>(graph: Option<&'a str>) -> Sections<'a> {
    Sections {
        name: "test",
        card: "card",
        config: "model_type = \"llama\"\n",
        program: "",
        program_format: "rs",
        graph,
        tensors: "",
        vocab: "",
        eval: "",
    }
}

/// The body of a section, up to the next marker.
fn section<'a>(text: &'a str, name: &str) -> Option<&'a str> {
    let marker = format!("~~~{name}\n");
    let at = text.find(&marker)? + marker.len();
    let rest = &text[at..];
    Some(match rest.find("~~~") {
        Some(end) => &rest[..end],
        None => rest,
    })
}

fn unhex(s: &str) -> Vec<u8> {
    let digits: Vec<char> = s.trim().chars().collect();
    digits
        .chunks(2)
        .map(|p| (p[0].to_digit(16).unwrap() * 16 + p[1].to_digit(16).unwrap()) as u8)
        .collect()
}

/// The text of a file up to its weights, and the weights.
fn read_file(file: &[u8]) -> (String, Vec<u8>) {
    let marker = b"~~~weights\n";
    let at = file.windows(marker.len()).position(|w| w == marker).unwrap() + marker.len();
    (String::from_utf8(file[..at].to_vec()).unwrap(), file[at..].to_vec())
}

#[test]
fn write_and_read_graph_section() {
    let weights = b"\x01\x02\x03\x04";
    let file = write_model_file(&sections(Some("deadbeef")), weights);
    let (text, read) = read_file(&file);
    let graph = section(&text, "graph").map(unhex);
    assert_eq!(graph.as_deref(), Some(&[0xde, 0xad, 0xbe, 0xef][..]));
    assert_eq!(read, weights);
    assert!(text.contains("name = \"graph\"\nformat = \"hex\"\n"));
    assert!(text.contains("name = \"weights\"\nformat = \"tensors\"\nsize = 4\n"));
}

#[test]
fn write_without_graph_omits_section() {
    let file = write_model_file(&sections(None), b"");
    let (text, read) = read_file(&file);
    assert!(section(&text, "graph").is_none());
    assert!(!text.contains("graph"));
    assert!(read.is_empty());
}

#[test]
fn sections_end_with_a_line_break() {
    let text = write_model_header(&sections(None), 12);
    assert!(text.starts_with(
        "[cyb]\ntypes = [\"model\"]\nname = \"test\"\nformat_version = 2\n\n\
         [[files]]\nname = \"card\"\nformat = \"md\"\n\n"
    ));
    assert_eq!(section(&text, "card"), Some("card\n"));
    assert_eq!(section(&text, "config"), Some("model_type = \"llama\"\n"));
    assert_eq!(section(&text, "program"), Some("\n"));
    assert!(text.contains("size = 12\n"));
    assert!(text.ends_with("~~~weights\n"));
    let whole = write_model_file(&sections(None), &[7; 12]);
    assert_eq!(&whole[..text.len()], text.as_bytes());
}

#[test]
fn streamed_weights_are_counted() {
    assert_eq!(write_model_file_streaming(9, 9), Ok(()));
    assert_eq!(
        write_model_file_streaming(8, 9),
        Err(String::from("weights source had 8 bytes, expected 9"))
    );
}
