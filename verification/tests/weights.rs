//! Loading the weights of a decoder.

use glia::config::{ConfigFloats, LayerKind, LlamaConfig, VisionConfig};
use glia::quant::stored::Stored;
use glia::tensor::{DType, TensorMeta};
use glia::weights::{
    load_layer, load_quant_weight, load_quant_weight_reshaped, load_tensor_f32,
    load_tensor_f32_reshaped, load_vision_weights, try_load_tensor_f32_reshaped, LayerDims,
    LinearDims, LoadedModel, RowError, WeightError, Weights,
};

const NO_FLOATS: ConfigFloats = ConfigFloats {
    rope_theta: None,
    rms_norm_eps: None,
    final_logit_softcapping: None,
    rope_theta_full: None,
    partial_rotary_factor_full: None,
    vision_rope_theta: None,
};

struct Builder {
    m: LoadedModel,
}

impl Builder {
    fn new() -> Self {
        Builder { m: LoadedModel { tensors: vec![], bytes: vec![] } }
    }

    fn put(&mut self, name: &str, shape: &[usize], dtype: DType, bytes: Option<Vec<u8>>) {
        let t = TensorMeta { name: String::from(name), shape: shape.to_vec(), dtype };
        self.m.tensors.push(t);
        self.m.bytes.push(bytes);
    }

    /// A vector in 8.8 fixed point, counting up from one.
    fn dense(&mut self, name: &str, n: usize) {
        let bytes = (1..=n as u16).flat_map(|i| (i * 256).to_le_bytes()).collect();
        self.put(name, &[n], DType::U16, Some(bytes));
    }

    /// A matrix in blocks of 32 bytes with a scale.
    fn matrix(&mut self, name: &str, rows: usize, columns: usize) {
        let bytes = vec![1u8; rows * columns / 32 * 34];
        self.put(name, &[rows, columns], DType::Q8, Some(bytes));
    }

    fn attention_layer(&mut self, i: usize) {
        let name = |s: &str| format!("model.layers.{i}.{s}.weight");
        self.matrix(&name("self_attn.q_proj"), 32, 32);
        self.matrix(&name("self_attn.k_proj"), 16, 32);
        self.matrix(&name("self_attn.v_proj"), 16, 32);
        self.matrix(&name("self_attn.o_proj"), 32, 32);
        self.dense(&name("input_layernorm"), 32);
        self.dense(&name("post_attention_layernorm"), 32);
        self.matrix(&name("mlp.gate_proj"), 64, 32);
        self.matrix(&name("mlp.up_proj"), 64, 32);
        self.matrix(&name("mlp.down_proj"), 32, 64);
    }

    fn model(&mut self) {
        self.matrix("model.embed_tokens.weight", 4, 32);
        self.dense("model.norm.weight", 32);
    }
}

fn config(model_type: &str) -> LlamaConfig {
    let text = format!(
        "model_type = \"{model_type}\"\n[architecture]\nhidden_size = 32\n\
         num_attention_heads = 2\nnum_key_value_heads = 1\nnum_hidden_layers = 1\n\
         intermediate_size = 64\nvocab_size = 4\nhead_dim = 16\n"
    );
    LlamaConfig::parse(&text, &vec![], &NO_FLOATS).unwrap()
}

#[test]
fn vectors_are_decoded() {
    let mut b = Builder::new();
    b.dense("v", 3);
    let t = load_tensor_f32(&b.m, "v").unwrap();
    assert_eq!(t.shape, vec![3]);
    assert!(!t.plus_one);
    assert_eq!(t.elements[2], Stored::Fixed8 { code: 3 * 256 });
    let r = load_tensor_f32_reshaped(&b.m, "v", 1, 3).unwrap();
    assert_eq!(r.shape, vec![1, 3]);
    assert_eq!(
        try_load_tensor_f32_reshaped(&b.m, "v", 2, 2).err(),
        Some(WeightError::Shape {
            name: String::from("v"),
            declared: vec![3],
            rows: 2,
            columns: 2,
        })
    );
}

#[test]
fn faults_name_their_tensor() {
    let mut b = Builder::new();
    b.put("empty", &[2], DType::U16, None);
    b.put("odd", &[2], DType::Q8_0, Some(vec![0; 33]));
    b.put("five", &[256], DType::Q5_K, Some(vec![0; 176]));
    b.put("few", &[2], DType::U16, Some(vec![0; 2]));
    let fault = |name: &str| load_tensor_f32(&b.m, name).err();
    let s = String::from;
    assert_eq!(fault("none"), Some(WeightError::Missing(s("none"))));
    assert_eq!(fault("empty"), Some(WeightError::NoBytes(s("empty"))));
    assert_eq!(fault("odd"), Some(WeightError::Misaligned(s("odd"))));
    assert_eq!(fault("five"), Some(WeightError::Unsupported(s("five"), DType::Q5_K)));
    assert_eq!(fault("few"), Some(WeightError::Count(s("few"))));
    assert_eq!(load_quant_weight(&b.m, "empty").err(), Some(WeightError::NoBytes(s("empty"))));
}

#[test]
fn matrices_stay_encoded() {
    let mut b = Builder::new();
    b.matrix("w", 4, 32);
    let w = load_quant_weight(&b.m, "w").unwrap();
    assert_eq!((w.n(), w.k(), w.numel(), w.dtype), (4, 32, 128, DType::Q8));
    assert_eq!(w.bytes.len(), 4 * 34);
    let r = load_quant_weight_reshaped(&b.m, "w", 2, 64).unwrap();
    assert_eq!(r.shape, vec![2, 64]);
    assert!(load_quant_weight_reshaped(&b.m, "w", 3, 32).is_err());
}

#[test]
fn a_decoder_is_loaded() {
    let mut b = Builder::new();
    b.model();
    b.attention_layer(0);
    b.dense("model.layers.0.self_attn.q_norm.weight", 16);
    let w = Weights::load(&b.m, &config("qwen3")).unwrap();
    assert_eq!(w.layers.len(), 1);
    assert!(w.lm_head.is_none() && w.vision.is_none());
    let l = &w.layers[0];
    assert_eq!(l.q_proj.shape, vec![32, 32]);
    assert_eq!(l.q_norm.as_ref().unwrap().shape, vec![16]);
    assert!(l.k_norm.is_none() && l.linear_attn.is_none());
    assert!(!w.final_norm.plus_one && !l.input_norm.plus_one);
}

#[test]
fn offset_norms_are_marked() {
    let mut b = Builder::new();
    b.model();
    b.attention_layer(0);
    b.dense("model.layers.0.self_attn.q_norm.weight", 16);
    let w = Weights::load(&b.m, &config("gemma3")).unwrap();
    assert!(w.final_norm.plus_one);
    assert!(w.layers[0].input_norm.plus_one);
    assert!(w.layers[0].post_norm.plus_one);
    assert!(w.layers[0].q_norm.as_ref().unwrap().plus_one);
}

#[test]
fn the_first_fault_is_told() {
    let mut b = Builder::new();
    b.model();
    let s = String::from("model.layers.0.self_attn.q_proj.weight");
    assert_eq!(Weights::load(&b.m, &config("llama")).err(), Some(WeightError::Missing(s)));
    let none = Builder::new();
    let s = String::from("model.embed_tokens.weight");
    assert_eq!(Weights::load(&none.m, &config("llama")).err(), Some(WeightError::Missing(s)));
}

#[test]
fn rows_of_the_embedding_are_decoded() {
    let mut b = Builder::new();
    b.model();
    b.attention_layer(0);
    let mut w = Weights::load(&b.m, &config("llama")).unwrap();
    w.embed_tokens_quant.bytes[2 * 34 + 2] = 0xFF;
    let row = w.embed_row(2, 4).unwrap();
    assert_eq!(row.len(), 32);
    assert_eq!(row[0], Stored::Block8 { scale: 257, code: -1 });
    assert_eq!(row[1], Stored::Block8 { scale: 257, code: 1 });
    assert_eq!(w.embed_row(4, 4), Err(RowError::OutOfRange));
    w.embed_tokens_quant.dtype = DType::Q5_K;
    assert_eq!(w.embed_row(0, 4), Err(RowError::Unsupported(DType::Q5_K)));
    w.embed_tokens_quant.dtype = DType::Q8_0;
    assert_eq!(w.embed_row(0, 3), Err(RowError::Misaligned));
    w.embed_tokens_quant.bytes.clear();
    assert_eq!(w.embed_row(0, 4), Err(RowError::Freed));
    assert_eq!(w.embed_row(0, 0), Err(RowError::Freed));
}

#[test]
fn recurrent_layers_want_their_fields() {
    let mut b = Builder::new();
    let name = |s: &str| format!("model.layers.3.{s}");
    b.dense(&name("input_layernorm.weight"), 32);
    b.dense(&name("post_attention_layernorm.weight"), 32);
    b.matrix(&name("mlp.gate_proj.weight"), 64, 32);
    b.matrix(&name("mlp.up_proj.weight"), 64, 32);
    b.matrix(&name("mlp.down_proj.weight"), 32, 64);
    b.matrix(&name("linear_attn.in_proj_qkv.weight"), 64, 32);
    b.matrix(&name("linear_attn.in_proj_z.weight"), 32, 32);
    b.matrix(&name("linear_attn.in_proj_b.weight"), 2, 32);
    b.matrix(&name("linear_attn.in_proj_a.weight"), 2, 32);
    b.matrix(&name("linear_attn.out_proj.weight"), 32, 32);
    b.dense(&name("linear_attn.conv1d.weight"), 64 * 4);
    b.dense(&name("linear_attn.A_log"), 2);
    b.dense(&name("linear_attn.dt_bias"), 2);
    b.dense(&name("linear_attn.norm.weight"), 16);
    let d = LayerDims { hidden: 32, q_dim: 32, kv_dim: 16, intermediate: 64, gated: false };
    let l = LinearDims {
        num_v_heads: Some(2),
        num_k_heads: Some(1),
        head_k_dim: Some(16),
        head_v_dim: Some(16),
        conv_kernel_dim: Some(4),
    };
    let w = load_layer(&b.m, 3, d, LayerKind::LinearAttn, l).unwrap();
    let g = w.linear_attn.unwrap();
    assert_eq!(g.conv1d_weight.shape, vec![64, 4]);
    assert_eq!(g.in_proj_qkv.shape, vec![64, 32]);
    assert!(w.q_proj.bytes.is_empty());
    let none = LinearDims { head_k_dim: None, ..l };
    assert_eq!(
        load_layer(&b.m, 3, d, LayerKind::LinearAttn, none).err(),
        Some(WeightError::NoField { layer: 3, field: "linear_key_head_dim" })
    );
}

#[test]
fn a_vision_tower_is_loaded() {
    let v = VisionConfig {
        hidden_size: 4,
        num_heads: 1,
        intermediate_size: 4,
        depth: 1,
        patch_size: 2,
        in_channels: 1,
        spatial_merge_size: 2,
        temporal_patch_size: 1,
        num_position_embeddings: 9,
        out_hidden_size: 4,
        rope_theta: 0,
    };
    let mut b = Builder::new();
    b.dense("model.visual.patch_embed.proj.weight", 16);
    b.dense("model.visual.patch_embed.proj.bias", 4);
    b.dense("model.visual.pos_embed.weight", 36);
    for s in ["norm1", "norm2", "attn.qkv", "attn.proj", "mlp.linear_fc1", "mlp.linear_fc2"] {
        b.dense(&format!("model.visual.blocks.0.{s}.weight"), 4);
        b.dense(&format!("model.visual.blocks.0.{s}.bias"), 4);
    }
    for s in ["norm", "linear_fc1", "linear_fc2"] {
        b.dense(&format!("model.visual.merger.{s}.weight"), 4);
        b.dense(&format!("model.visual.merger.{s}.bias"), 4);
    }
    let w = load_vision_weights(&b.m, &v).unwrap();
    assert_eq!(w.patch_embed_weight.shape, vec![4, 4]);
    assert_eq!(w.pos_embed_table.shape, vec![9, 4]);
    assert_eq!(w.blocks.len(), 1);
    let block = w.blocks[0].as_ref();
    assert_eq!(*block.qkv_weight, w.blocks[0].qkv_weight);
    assert_eq!(*w.merger.as_ref().fc2_bias, w.merger.fc2_bias);
    let deep = VisionConfig { depth: 2, ..v };
    assert_eq!(
        load_vision_weights(&b.m, &deep).err(),
        Some(WeightError::Missing(String::from("model.visual.blocks.1.norm1.weight")))
    );
}
