//! The GPU backend: plans, kernels, buffers and caches.

use glia::backend::{BackendError, Op};
use glia::honeycrisp::attention_state::{cache_bytes, AttnChange, AttnTable, Geometry};
use glia::honeycrisp::buffers::{
    alloc_size, buf_ref, class_for, cpu_quant_matmul, download_tensor, transpose_q8_blocks,
    upload_tensor, BufSource, BufferPool, Place, Scratch,
};
use glia::honeycrisp::decode::{
    decode_needs, decode_shape, forward_decode_fused_layers, LayerFusedInput,
};
use glia::honeycrisp::fused::{
    float_bytes_of, fused_attn_oproj_residual, fused_ffn_residual, fused_norm_qkv_qknorm,
    fused_norm_swiglu_down, gpu_attention, is_attn_fusible,
};
use glia::honeycrisp::route::{
    execute, fused_norm_quant_matmul_multi, quant_matmul, quant_matmul_multi, rms_norm_multi,
    supports, Batch,
};
use glia::honeycrisp::sources::{geometry_sources, kernel_source, start_sources, NormSources};
use glia::honeycrisp::steps::{pick, quant_of, Quant};
use glia::kernels::cache::cached_source;
use glia::kernels::{
    elementwise, gated_delta, gated_delta_block, matmul, mrope, q4_matmul, q4k_matmul, q6k_matmul,
    q8_matmul, rope, silu,
};
use glia::plan::{Dispatch, Kernel, Launch, Operand, Plan, Program, Step};
use glia::tensor::{DType, TensorDesc};

fn on_gpu(dtype: DType, shape: &[usize]) -> TensorDesc {
    TensorDesc { dtype, shape: shape.to_vec(), on_gpu: true }
}

fn float(shape: &[usize]) -> TensorDesc {
    on_gpu(DType::F32, shape)
}

fn launches(p: &Program) -> Vec<&Launch> {
    p.steps
        .iter()
        .filter_map(|s| match s {
            Step::Launch(l) => Some(l),
            Step::Barrier => None,
        })
        .collect()
}

fn kernels(p: &Program) -> Vec<Kernel> {
    launches(p).iter().map(|l| l.kernel).collect()
}

fn barriers(p: &Program) -> usize {
    p.steps.iter().filter(|s| matches!(s, Step::Barrier)).count()
}

fn together(b: Batch) -> Plan {
    match b {
        Batch::Together(p) => p,
        other => panic!("{other:?}"),
    }
}

#[test]
fn products_are_routed_by_encoding_and_width() {
    let kernel = |d: DType, n: usize, k: usize| {
        quant_matmul(&float(&[1, k]), &on_gpu(d, &[n, k])).map(|p| kernels(&p.program))
    };
    assert_eq!(kernel(DType::Q8, 64, 64), Some(vec![Kernel::Q8]));
    assert_eq!(kernel(DType::Q8, 64, 32 * 129), Some(vec![Kernel::Q8Mb192]));
    assert_eq!(kernel(DType::Q8, 64, 32 * 193), Some(vec![Kernel::Q8Large]));
    assert_eq!(kernel(DType::Q8, 1025, 64), Some(vec![Kernel::Q8Large]));
    assert_eq!(kernel(DType::Q4, 64, 64), Some(vec![Kernel::Q4]));
    assert_eq!(kernel(DType::Q4, 64, 32 * 129), Some(vec![Kernel::Q4Large]));
    assert_eq!(kernel(DType::Q4_K, 64, 256), Some(vec![Kernel::Q4k]));
    assert_eq!(kernel(DType::Q6_K, 64, 256), Some(vec![Kernel::Q6k]));
    assert_eq!(kernel(DType::Q6_K, 64, 128), None);
    assert_eq!(kernel(DType::F32, 64, 64), None);
}

#[test]
fn a_product_is_one_launch() {
    let p = quant_matmul(&float(&[2, 3, 64]), &on_gpu(DType::Q8, &[40, 64])).unwrap();
    assert_eq!(p.outputs[0].shape, vec![2, 3, 40]);
    assert_eq!(p.outputs[0].bytes, 6 * 40 * 4);
    let l = launches(&p.program)[0];
    assert_eq!((l.params.w0, l.params.w1, l.params.w2), (6, 40, 2));
    assert_eq!((l.groups.x, l.threads.x), (6 * 40 / 16, 512));
}

#[test]
fn independent_products_share_a_command_buffer() {
    let x = float(&[1, 64]);
    let ws = vec![on_gpu(DType::Q4, &[32, 64]), on_gpu(DType::Q4, &[16, 64])];
    let p = together(quant_matmul_multi(&x, &ws));
    assert_eq!(kernels(&p.program), vec![Kernel::Q4, Kernel::Q4]);
    assert_eq!(p.outputs.len(), 2);
    assert_eq!(barriers(&p.program), 0);
    assert_eq!(quant_matmul_multi(&x, &vec![]), Batch::Nothing);
    let mixed = vec![on_gpu(DType::Q8, &[32, 64]), on_gpu(DType::Q4, &[16, 64])];
    assert_eq!(quant_matmul_multi(&x, &mixed), Batch::OneByOne);
}

#[test]
fn norms_precede_their_products() {
    let x = float(&[1, 64]);
    let g = float(&[64]);
    let ws = vec![on_gpu(DType::Q8, &[32, 64]), on_gpu(DType::Q8, &[32, 64])];
    let p = together(fused_norm_quant_matmul_multi(&x, &g, 7, &ws));
    assert_eq!(kernels(&p.program)[0], Kernel::RmsNorm);
    assert!(matches!(p.program.steps[1], Step::Barrier));
    let pairs = vec![(float(&[2, 8]), float(&[8])), (float(&[1, 4]), float(&[4]))];
    let q = together(rms_norm_multi(&pairs, 7));
    assert_eq!(kernels(&q.program), vec![Kernel::RmsNorm, Kernel::RmsNorm]);
    assert_eq!(q.outputs[1].shape, vec![1, 4]);
}

#[test]
fn few_operations_run_alone() {
    let f = vec![float(&[2, 4]), float(&[3, 4])];
    assert!(supports(Op::Matmul, &f));
    assert!(!supports(Op::Add, &f));
    assert!(!supports(Op::Silu, &vec![on_gpu(DType::Q8, &[32])]));
    let p = together(execute(Op::Matmul, &f));
    assert_eq!(kernels(&p.program), vec![Kernel::Matmul]);
    assert_eq!(p.outputs[0].shape, vec![2, 3]);
    assert!(matches!(
        execute(Op::Matmul, &vec![float(&[2, 5]), float(&[3, 4])]),
        Batch::Refused(BackendError::ShapeMismatch { .. })
    ));
    assert!(matches!(
        execute(Op::Matmul, &vec![float(&[2, 5])]),
        Batch::Refused(BackendError::InvalidInput { op: "Matmul", .. })
    ));
    assert_eq!(kernels(&together(execute(Op::Silu, &vec![float(&[9])])).program), vec![Kernel::Silu]);
    assert_eq!(execute(Op::SwiGlu, &f), Batch::OneByOne);
}

#[test]
fn attention_appends_before_it_reads() {
    let p = gpu_attention(2, 5, 4, 2, 8, 1, 0);
    let ks = kernels(&p.program);
    assert_eq!(ks[ks.len() - 1], Kernel::Attn);
    assert!(ks[..ks.len() - 1].iter().all(|k| *k == Kernel::KvAppend));
    let hidden = float(&[1, 32]);
    let o = on_gpu(DType::Q8, &[32, 32]);
    assert!(is_attn_fusible(&o, &hidden));
    let q = fused_attn_oproj_residual(&hidden, &o, 0, 5, 4, 2, 8, 1, 0).unwrap();
    assert_eq!(kernels(&q.program)[kernels(&q.program).len() - 1], Kernel::Add);
    let host = TensorDesc { on_gpu: false, ..on_gpu(DType::Q8, &[32, 32]) };
    assert!(fused_attn_oproj_residual(&hidden, &host, 0, 5, 4, 2, 8, 1, 0).is_none());
    assert_eq!(float_bytes_of(3, 5), 60);
    assert_eq!(float_bytes_of(0, 5), 4);
}

#[test]
fn feed_forward_parts_are_fused() {
    let h = float(&[1, 64]);
    let g = float(&[64]);
    let gate = on_gpu(DType::Q8, &[128, 64]);
    let up = on_gpu(DType::Q8, &[128, 64]);
    let down = on_gpu(DType::Q8, &[64, 128]);
    let p = fused_norm_swiglu_down(&h, &g, &gate, &up, &down, 7).unwrap();
    assert_eq!(p.outputs[0].shape, vec![1, 64]);
    assert!(barriers(&p.program) > 0);
    let r = fused_ffn_residual(&h, &g, &gate, &up, &down, 7).unwrap();
    assert_eq!(launches(&r.program).len(), launches(&p.program).len() + 1);
    let q = on_gpu(DType::Q8, &[64, 64]);
    let n = float(&[16]);
    let qkv = fused_norm_qkv_qknorm(&h, &g, &q, &q, &q, &n, &n, 7, 4, 4, 16).unwrap();
    assert_eq!(qkv.outputs.len(), 3);
    let q4 = on_gpu(DType::Q4, &[128, 64]);
    assert!(fused_norm_swiglu_down(&h, &g, &q4, &up, &down, 7).is_none());
    assert!(fused_ffn_residual(&h, &g, &q4, &up, &down, 7).is_none());
}

/// A narrow 8-bit layer with head norms.
fn layer(i: usize) -> LayerFusedInput {
    LayerFusedInput {
        layer_idx: i,
        num_heads: 4,
        kv_heads: 2,
        head_dim: 16,
        rope_dim: 16,
        rope_theta: 0,
        attn_scale: 0,
        layer_output_scale: 0x3F80_0000,
        use_gelu_tanh: false,
        input_norm: float(&[64]),
        q_proj: on_gpu(DType::Q8, &[64, 64]),
        k_proj: on_gpu(DType::Q8, &[32, 64]),
        v_proj: on_gpu(DType::Q8, &[32, 64]),
        q_bias: None,
        k_bias: None,
        v_bias: None,
        q_norm: Some(float(&[16])),
        k_norm: Some(float(&[16])),
        o_proj: on_gpu(DType::Q8, &[64, 64]),
        post_norm: float(&[64]),
        post_attn_norm: None,
        post_ffw_norm: None,
        gate_proj: on_gpu(DType::Q8, &[128, 64]),
        up_proj: on_gpu(DType::Q8, &[128, 64]),
        down_proj: on_gpu(DType::Q8, &[64, 128]),
    }
}

/// A layer of this format and hidden width.
fn layer_of(dtype: DType, width: usize) -> LayerFusedInput {
    LayerFusedInput {
        input_norm: float(&[width]),
        q_proj: on_gpu(dtype, &[64, width]),
        k_proj: on_gpu(dtype, &[32, width]),
        v_proj: on_gpu(dtype, &[32, width]),
        o_proj: on_gpu(dtype, &[width, 64]),
        post_norm: float(&[width]),
        gate_proj: on_gpu(dtype, &[128, width]),
        up_proj: on_gpu(dtype, &[128, width]),
        down_proj: on_gpu(dtype, &[width, 128]),
        ..layer(0)
    }
}

#[test]
fn a_token_is_one_command_buffer() {
    let g = Geometry { num_heads: 4, kv_heads: 2, head_dim: 16, max_seq: 128 };
    let mut table = AttnTable::new();
    let layers = vec![layer(0), layer(1)];
    let hidden = float(&[1, 64]);
    assert_eq!(
        decode_needs(&table, &layers, 3, 128),
        Some(Some(AttnChange::Create { layers: vec![0, 1] }))
    );
    table.commit(g, &vec![0, 1], 16);
    assert_eq!(decode_needs(&table, &layers, 3, 128), Some(None));
    let p = forward_decode_fused_layers(&table, &hidden, &layers, 3, 128, 7).unwrap();
    assert_eq!(p.entry, 0);
    assert_eq!(p.shape, vec![1, 64]);
    let ls = launches(&p.program);
    assert_eq!(ls.len() % 2, 0);
    let per_layer = ls.len() / 2;
    let first: Vec<Kernel> = ls[..per_layer].iter().map(|l| l.kernel).collect();
    let second: Vec<Kernel> = ls[per_layer..].iter().map(|l| l.kernel).collect();
    assert_eq!(first, second);
    assert!(ls[0].buffers.iter().any(|b| b.operand == Operand::Input(0)));
    assert!(ls[ls.len() - 1].buffers.iter().any(|b| b.operand == Operand::Scratch(p.result)));
    assert!(forward_decode_fused_layers(&table, &hidden, &vec![], 3, 128, 7).is_none());
}

#[test]
fn a_token_says_what_it_needs_first() {
    let g = Geometry { num_heads: 4, kv_heads: 2, head_dim: 16, max_seq: 128 };
    let other = Geometry { head_dim: 32, ..g };
    let layers = vec![layer(0), layer(3)];
    let mut table = AttnTable::new();
    table.commit(g, &vec![0], 16);
    assert_eq!(
        decode_needs(&table, &layers, 3, 128),
        Some(Some(AttnChange::Grow { entry: 0, layers: vec![3] }))
    );
    // The caches are linear.
    assert_eq!(decode_needs(&table, &layers, 128, 128), None);
    assert_eq!(decode_needs(&table, &vec![], 3, 128), None);
    let mut foreign = AttnTable::new();
    foreign.commit(other, &vec![0], 16);
    assert_eq!(decode_needs(&foreign, &layers, 3, 128), None);
}

#[test]
fn tokens_without_a_kernel_run_layer_by_layer() {
    let table = AttnTable::new();
    let takes = |l: LayerFusedInput| decode_shape(&table, &vec![l], 0, 128, 7).is_some();
    let (narrow, wide) = (64, 32 * 65);
    assert!(takes(layer_of(DType::Q4, narrow)) && takes(layer_of(DType::Q8, wide)));
    assert!(takes(layer_of(DType::Q4, wide)));
    let plain = |l: LayerFusedInput| LayerFusedInput {
        q_norm: None,
        k_norm: None,
        head_dim: 128,
        rope_dim: 128,
        ..l
    };
    // Without head norms, 4-bit layers are narrow.
    assert!(takes(plain(layer_of(DType::Q8, narrow))));
    assert!(takes(plain(layer_of(DType::Q4, narrow))));
    assert!(!takes(plain(layer_of(DType::Q4, wide))));
    // The kernel that rotates and attends at once is made for one width.
    assert!(!takes(LayerFusedInput { head_dim: 64, ..plain(layer_of(DType::Q8, narrow)) }));
    assert!(!takes(LayerFusedInput { rope_dim: 64, ..plain(layer_of(DType::Q8, narrow)) }));
    // The tanh form has a wide 8-bit path.
    let gelu = |l: LayerFusedInput| LayerFusedInput { use_gelu_tanh: true, ..l };
    assert!(takes(gelu(layer_of(DType::Q8, wide))));
    assert!(!takes(gelu(layer_of(DType::Q8, narrow))));
    assert!(!takes(gelu(layer_of(DType::Q4, narrow))));
    // The projections before a norm have an 8-bit path of any width.
    let n = |w: usize| Some(float(&[w]));
    assert!(takes(LayerFusedInput { post_attn_norm: n(wide), ..layer_of(DType::Q8, wide) }));
    assert!(takes(LayerFusedInput { post_attn_norm: n(64), ..layer_of(DType::Q8, narrow) }));
    assert!(takes(LayerFusedInput { post_ffw_norm: n(64), ..layer_of(DType::Q8, narrow) }));
    assert!(!takes(LayerFusedInput { post_ffw_norm: n(64), ..layer_of(DType::Q4, narrow) }));
}

#[test]
fn projections_before_a_norm_are_summed_on_their_own() {
    let g = Geometry { num_heads: 4, kv_heads: 2, head_dim: 16, max_seq: 128 };
    let mut table = AttnTable::new();
    table.commit(g, &vec![0], 16);
    let l = LayerFusedInput {
        post_attn_norm: Some(float(&[64])),
        post_ffw_norm: Some(float(&[64])),
        ..layer(0)
    };
    let p = forward_decode_fused_layers(&table, &float(&[1, 64]), &vec![l], 3, 128, 7).unwrap();
    let ks = kernels(&p.program);
    let tail = [Kernel::Q8Large, Kernel::RmsNorm, Kernel::Add];
    assert_eq!(ks[ks.len() - 3..], tail);
    assert_eq!(ks[ks.len() - 7..ks.len() - 4], tail);
    assert_eq!(ks[ks.len() - 4], Kernel::Q8GusNrmMb32);
}

#[test]
fn wide_rows_run_without_a_cache() {
    let width = 8192;
    let h = float(&[1, width]);
    let g = float(&[width]);
    for (dtype, cached, large) in [
        (DType::Q4, Kernel::Q4, Kernel::Q4Large),
        (DType::Q8, Kernel::Q8, Kernel::Q8Large),
    ] {
        let w = on_gpu(dtype, &[64, width]);
        let n = float(&[16]);
        let p = fused_norm_qkv_qknorm(&h, &g, &w, &w, &w, &n, &n, 7, 4, 4, 16).unwrap();
        assert_eq!(kernels(&p.program).iter().filter(|k| **k == large).count(), 3);
        let gate = on_gpu(dtype, &[64, width]);
        let down = on_gpu(dtype, &[width, 64]);
        let p = fused_ffn_residual(&h, &g, &gate, &gate, &down, 7).unwrap();
        assert_eq!(kernels(&p.program)[1..3], [large, large]);
        assert_eq!(kernels(&p.program)[4], cached);
        let o = on_gpu(dtype, &[64, width]);
        let p = fused_attn_oproj_residual(&h, &o, 0, 3, 4, 2, 16, 9, 0).unwrap();
        assert_eq!(kernels(&p.program)[3], large);
        match quant_matmul_multi(&h, &vec![on_gpu(dtype, &[8, width])]) {
            Batch::Together(p) => assert_eq!(kernels(&p.program), vec![large]),
            other => panic!("{other:?}"),
        }
        match fused_norm_quant_matmul_multi(&h, &g, 7, &vec![on_gpu(dtype, &[8, width])]) {
            Batch::Together(p) => assert_eq!(kernels(&p.program)[1], large),
            other => panic!("{other:?}"),
        }
    }
}

#[test]
fn sources_declare_their_cache() {
    let of = |f4: fn(usize) -> String, f8: fn(usize) -> String| [f4, f8];
    for f in [
        of(q4_matmul::msl_mb, q8_matmul::msl_mb),
        of(q4_matmul::msl_nrm_mb, q8_matmul::msl_nrm_mb),
        of(q4_matmul::msl_dual_nrm_mb, q8_matmul::msl_dual_nrm_mb),
        of(q4_matmul::msl_dual_mb, q8_matmul::msl_dual_mb),
        of(q4_matmul::msl_gus_mb, q8_matmul::msl_gus_mb),
        of(q4_matmul::msl_gus_nrm_mb, q8_matmul::msl_gus_nrm_mb),
        of(q4_matmul::msl_res_mb, q8_matmul::msl_res_mb),
    ]
    .concat()
    {
        let (a, b) = (f(48), f(1920));
        assert_eq!(a.matches("MAX_BLOCKS = 48;").count(), 1);
        assert_eq!(a.matches("MAX_BLOCKS =").count(), 1);
        assert!(!a.contains("__"));
        assert_eq!(a.replace("MAX_BLOCKS = 48;", "MAX_BLOCKS = 1920;"), b);
    }
    for source in [
        q4_matmul::msl(),
        q8_matmul::msl(),
        q4_matmul::msl_nrm(),
        q8_matmul::msl_nrm(),
        q4_matmul::msl_dual(),
        q8_matmul::msl_dual(),
        q4_matmul::msl_gus_nrm(),
        q8_matmul::msl_gus_nrm(),
    ] {
        assert!(source.contains("MAX_BLOCKS = 128;"));
    }
    assert_eq!(q4_matmul::msl(), q4_matmul::msl_mb(q4_matmul::TG_MAX_BLOCKS));
    // The texts around the declaration have no place for the number.
    for text in [
        q4_matmul::MSL_HEAD,
        q4_matmul::MSL_TAIL,
        q8_matmul::MSL_NRM_HEAD,
        q8_matmul::MSL_GUS_NRM_TAIL,
    ] {
        assert!(!text.contains("__MAX_BLOCKS__"));
    }
    let made = cached_source("head", ";__MAX_BLOCKS__;", 7);
    assert_eq!(made, "head MAX_BLOCKS = 7;;7;");
}

#[test]
fn caches_grow_by_the_layers_that_are_new() {
    let g = Geometry { num_heads: 4, kv_heads: 2, head_dim: 16, max_seq: 8 };
    let mut t = AttnTable::new();
    assert_eq!(t.attn_state(g, &vec![3, 5, 3], 16), AttnChange::Create { layers: vec![3, 5] });
    t.commit(g, &vec![3, 5, 3], 16);
    assert!(t.has_slots(g, &vec![5, 3]) && !t.has_slots(g, &vec![4]));
    assert_eq!(
        t.attn_state(g, &vec![5, 6], 16),
        AttnChange::Grow { entry: 0, layers: vec![6] }
    );
    t.commit(g, &vec![5, 6], 16);
    assert_eq!(t.find(g), Some(0));
    assert_eq!((t.slot(0, 3), t.slot(0, 6)), (0, 2));
    assert_eq!(cache_bytes(g), 2 * 8 * 16 * 4);
    t.reset_gpu_kv_cache();
    assert_eq!(t.find(g), None);
}

#[test]
fn buffers_are_reused_within_their_class() {
    assert_eq!(class_for(1), 4096);
    assert_eq!(class_for(4097), 8192);
    assert_eq!(BufferPool::class_for(8192), 8192);
    let mut p = BufferPool::new();
    assert_eq!(p.take_scratch(5000), Scratch::Allocate(8192));
    p.push(1, 8192);
    p.push(2, 8192);
    assert_eq!(p.pop(4096), None);
    assert_eq!(p.pop(8000), Some(2));
    assert_eq!(p.take_scratch(5000), Scratch::Reuse(1));
    assert_eq!(p.pop(8000), None);
    assert_eq!((alloc_size(0), alloc_size(9)), (4, 9));
}

#[test]
fn blocks_are_transposed() {
    let src: Vec<u8> = (0..6u8).flat_map(|b| [b; 34]).collect();
    let dst = transpose_q8_blocks(&src, 2, 3);
    let firsts: Vec<u8> = dst.chunks(34).map(|c| c[0]).collect();
    assert_eq!(firsts, vec![0, 3, 1, 4, 2, 5]);
    assert_eq!(transpose_q8_blocks(&dst, 3, 2), src);
}

#[test]
fn tensors_of_other_backends_are_refused() {
    assert_eq!(buf_ref(Place::Host), Ok(BufSource::Upload));
    assert_eq!(buf_ref(Place::Here), Ok(BufSource::Borrow));
    assert_eq!(upload_tensor(Place::Here), Ok(BufSource::Copy));
    assert!(buf_ref(Place::Elsewhere).is_err() && upload_tensor(Place::Elsewhere).is_err());
    assert_eq!(download_tensor(Place::Host, DType::Q8), Ok(false));
    assert_eq!(download_tensor(Place::Here, DType::F32), Ok(true));
    assert_eq!(
        download_tensor(Place::Here, DType::Q8),
        Err(BackendError::Internal(String::from(
            "honeycrisp: non-F32 GPU download not implemented"
        )))
    );
    assert_eq!(cpu_quant_matmul(Place::Here), Ok(true));
    assert!(cpu_quant_matmul(Place::Elsewhere).is_err());
}

#[test]
fn kernels_are_compiled_from_their_sources() {
    let norms = NormSources { rms_norm: String::from("R"), qk_norm: String::from("K") };
    let all = start_sources(&norms);
    assert_eq!(all.len(), 64);
    for s in &all {
        assert_eq!(kernel_source(s.kernel, &norms), s.source);
    }
    assert_eq!(kernel_source(Kernel::RmsNorm, &norms), "R");
    assert!(kernel_source(Kernel::Q8, &norms).contains("kernel void"));
    let g = Geometry { num_heads: 4, kv_heads: 2, head_dim: 16, max_seq: 128 };
    let own = geometry_sources(&g);
    assert!(own.iter().any(|s| s.kernel == Kernel::Attn && s.source.contains("16")));
    assert!(own.iter().all(|s| s.source.contains("kernel void")));
}

#[test]
fn block_formats_have_their_kernels() {
    assert_eq!(quant_of(DType::Q4), Some(Quant::Q4));
    assert_eq!(quant_of(DType::Q8), Some(Quant::Q8));
    assert_eq!(quant_of(DType::Q8_0), None);
    assert_eq!(pick(Quant::Q4, Kernel::Q4Dual, Kernel::Q8Dual), Kernel::Q4Dual);
    assert_eq!(pick(Quant::Q8, Kernel::Q4Dual, Kernel::Q8Dual), Kernel::Q8Dual);
}

/// The bytes of the result, the kernel, the parameters, the groups, the
/// threads and the number of buffers of a single launch.
#[allow(clippy::type_complexity)]
fn one(d: &Dispatch) -> (usize, Kernel, [u32; 4], [usize; 3], usize, usize) {
    let all = launches(&d.program);
    assert_eq!((all.len(), barriers(&d.program)), (1, 0));
    let l = all[0];
    assert_eq!((l.threads.y, l.threads.z), (1, 1));
    assert_eq!(l.buffers.last().map(|b| b.operand), Some(Operand::Output(0)));
    (
        d.out_bytes,
        l.kernel,
        [l.params.w0, l.params.w1, l.params.w2, l.params.w3],
        [l.groups.x, l.groups.y, l.groups.z],
        l.threads.x,
        l.buffers.len(),
    )
}

#[test]
fn single_launches_cover_their_results() {
    assert_eq!(
        one(&elementwise::dispatch_add(65, 65, 1)),
        (260, Kernel::Add, [65, 65, 1, 0], [2, 1, 1], 64, 3)
    );
    assert_eq!(
        one(&elementwise::dispatch_silu_mul(64)),
        (256, Kernel::SiluMul, [64, 0, 0, 0], [1, 1, 1], 64, 3)
    );
    assert_eq!(one(&silu::dispatch(257)), (1028, Kernel::Silu, [257, 0, 0, 0], [2, 1, 1], 256, 2));
    assert_eq!(
        one(&matmul::dispatch(2, 40, 7)),
        (320, Kernel::Matmul, [2, 40, 7, 0], [2, 1, 1], 64, 3)
    );
    assert_eq!(
        one(&rope::dispatch(3, 8, 6)),
        (96, Kernel::Rope, [3, 3, 0, 0], [1, 3, 1], 4, 4)
    );
    assert_eq!(
        one(&mrope::dispatch(Kernel::Rope, 0, 8)),
        (4, Kernel::Rope, [0, 0, 0, 0], [1, 0, 1], 8, 4)
    );
    assert_eq!(
        one(&gated_delta::dispatch(Kernel::Rope, 4, 16)),
        (256, Kernel::Rope, [4, 0, 0, 0], [1, 4, 1], 16, 7)
    );
    for d in [
        q4_matmul::dispatch(Kernel::Rope, 2, 17, 3),
        q8_matmul::dispatch(Kernel::Rope, 2, 17, 3),
        q4k_matmul::dispatch_large(Kernel::Rope, 2, 17, 3),
    ] {
        assert_eq!(one(&d), (136, Kernel::Rope, [2, 17, 3, 0], [3, 1, 1], 512, 3));
    }
    assert_eq!(one(&q4k_matmul::dispatch(2, 17, 3)).2, [2, 17, 3, 0]);
    assert_eq!(one(&q6k_matmul::dispatch(2, 17, 3)).2, [2, 17, 3, 0]);
    assert_eq!((q4k_matmul::tg_count(17, 2), q4k_matmul::tg_size()), (3, 512));
}

#[test]
fn sources_are_filled_in() {
    for (source, wants) in [
        (gated_delta_block::msl_conv_silu(4), vec!["4"]),
        (gated_delta_block::msl_prep(128, 2), vec!["128", "4", "2"]),
        (gated_delta_block::msl_gated_norm(64), vec!["64", "2"]),
    ] {
        assert!(!source.contains("__KSZ__") && !source.contains("__NSG__"));
        assert!(!source.contains("__HK__") && !source.contains("__HV__"));
        assert!(!source.contains("__RATIO__"));
        for w in wants {
            assert!(source.contains(w), "{w} in {source}");
        }
    }
}
