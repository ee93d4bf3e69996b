//! The reference backend: extents of the operations, and the arithmetic laid
//! out along them.

use glia::backend::{BackendError, Op};
use glia::cpu::broadcast::{binary_broadcast, broadcast_shapes, strided_index};
use glia::cpu::gated_delta::{
    causal_windows, check_heads, expand_heads, gated_delta_forward, proj_matmul, split_qkv,
    GatedDeltaDims, GatedDeltaWeights, Projection, Stage,
};
use glia::cpu::mrope::{
    frequency_axis, mrope_position_ids, prefix_pairs, rope_pairs, section_fits, ModalityRun,
};
use glia::cpu::ops::{
    matmul_f32, matmul_quant_f32, require, rms_norm_f32, rope_f32, softmax_f32, swiglu_f32,
    CpuBackend, CpuStep, SdpaPlan,
};
use glia::cpu::tower::{
    gather_pos_embed, patch_embed, patch_merger, segment_spans, split_thirds, vision_block,
    vision_tower_forward,
};
use glia::cpu::vision::{
    merged_shape, patch_order_positions, vision_rope_angles, Angle, VisionDims,
};
use glia::quant::stored::Format;
use glia::tensor::{DType, TensorDesc};
use glia::weights::{DenseTensor, VisionBlockOwned, VisionMergerOwned};

fn desc(dtype: DType, shape: &[usize]) -> TensorDesc {
    TensorDesc { dtype, shape: shape.to_vec(), on_gpu: false }
}

/// A product along its plan.
fn product(x: &[f32], xs: &[usize], w: &[f32], ws: &[usize]) -> (Vec<usize>, Vec<f32>) {
    let p = matmul_f32(&xs.to_vec(), &ws.to_vec()).unwrap();
    let mut out = vec![0.0; p.batch * p.n];
    for b in 0..p.batch {
        for i in 0..p.n {
            for j in 0..p.k {
                out[b * p.n + i] += x[b * p.k + j] * w[i * p.k + j];
            }
        }
    }
    (p.shape, out)
}

/// A norm along its plan.
fn norm(x: &[f32], xs: &[usize], g: &[f32], eps: f32) -> (Vec<usize>, Vec<f32>) {
    let p = rms_norm_f32(&xs.to_vec(), &vec![g.len()]).unwrap();
    let mut out = Vec::new();
    for b in 0..p.batch {
        let row = &x[b * p.width..(b + 1) * p.width];
        let mean = row.iter().map(|v| v * v).sum::<f32>() / p.width as f32;
        let rms = (mean + eps).sqrt();
        out.extend(row.iter().zip(g).map(|(v, g)| v / rms * g));
    }
    (p.shape, out)
}

/// A softmax along its plan.
fn softmax(x: &[f32], xs: &[usize]) -> Vec<f32> {
    let p = softmax_f32(&xs.to_vec(), -1).unwrap();
    let mut out = Vec::new();
    for b in 0..p.batch {
        let row = &x[b * p.width..(b + 1) * p.width];
        let most = row.iter().cloned().fold(f32::NEG_INFINITY, f32::max);
        let powers: Vec<f32> = row.iter().map(|v| (v - most).exp()).collect();
        let sum: f32 = powers.iter().sum();
        out.extend(powers.iter().map(|e| e / sum));
    }
    out
}

/// A rotary embedding along its plan.
fn rope(x: &[f32], xs: &[usize], pos: &[f32], hd: usize, rd: usize, base: f32) -> Vec<f32> {
    let p = rope_f32(&xs.to_vec(), &vec![pos.len()], hd, rd).unwrap();
    let pairs = rope_pairs(hd, rd);
    assert_eq!(pairs.len(), p.rotated);
    let mut out = x.to_vec();
    for row in 0..p.rows {
        let at = row * p.head_dim;
        let t = pos[row / p.heads_per_pos];
        for (j, &(a, b)) in pairs.iter().enumerate() {
            let (s, c) = (t / base.powf(2.0 * j as f32 / hd as f32)).sin_cos();
            out[at + a] = x[at + a] * c - x[at + b] * s;
            out[at + b] = x[at + a] * s + x[at + b] * c;
        }
    }
    out
}

#[test]
fn simple_3x2_times_2x2() {
    let x = vec![1.0, 2.0, 3.0, 4.0, 5.0, 6.0];
    let w = vec![1.0, 2.0, 3.0, 4.0];
    let (shape, y) = product(&x, &[3, 2], &w, &[2, 2]);
    assert_eq!(shape, vec![3, 2]);
    assert_eq!(y, vec![5.0, 11.0, 11.0, 25.0, 17.0, 39.0]);
}

#[test]
fn shape_mismatch() {
    assert!(matmul_f32(&vec![3, 2], &vec![2, 3]).is_err());
    assert_eq!(
        matmul_f32(&vec![3, 2], &vec![2, 3]),
        Err(BackendError::ShapeMismatch { op: "Matmul", expected: vec![0, 3], got: vec![3, 2] })
    );
    assert_eq!(
        matmul_f32(&vec![3, 2], &vec![6]),
        Err(BackendError::ShapeMismatch { op: "Matmul", expected: vec![0, 0], got: vec![6] })
    );
}

#[test]
fn weight_buffer_length_mismatch_errors() {
    let err = matmul_quant_f32(&vec![1, 128], 16, DType::Q4_0, 64, 128).unwrap_err();
    match err {
        BackendError::InvalidInput { op, reason } => {
            assert_eq!(op, "MatmulQuant");
            assert_eq!(
                reason,
                "weight buffer length 16 does not match N\u{d7}row_bytes (64\u{d7}72 = 4608)"
            );
        }
        other => panic!("expected InvalidInput, got {other:?}"),
    }
}

#[test]
fn identity_gain_zero_eps() {
    let (_, y) = norm(&[3.0, 4.0], &[2], &[1.0, 1.0], 0.0);
    let rms = (25f32 / 2.0).sqrt();
    assert!((y[0] - 3.0 / rms).abs() < 1e-6);
    assert!((y[1] - 4.0 / rms).abs() < 1e-6);
}

#[test]
fn gain_scaling() {
    let (_, y) = norm(&[3.0, 4.0], &[2], &[2.0, 0.5], 0.0);
    let rms = (25f32 / 2.0).sqrt();
    assert!((y[0] - 2.0 * 3.0 / rms).abs() < 1e-6);
    assert!((y[1] - 0.5 * 4.0 / rms).abs() < 1e-6);
}

#[test]
fn eps_added_before_sqrt() {
    let (_, y) = norm(&[0.0, 0.0], &[2], &[1.0, 1.0], 1e-6);
    assert_eq!(y, vec![0.0, 0.0]);
}

#[test]
fn multi_batch() {
    let (shape, v) = norm(&[3.0, 4.0, 6.0, 8.0], &[2, 2], &[1.0, 1.0], 0.0);
    assert_eq!(shape, vec![2, 2]);
    let r0 = (25f32 / 2.0).sqrt();
    let r1 = (100f32 / 2.0).sqrt();
    assert!((v[0] - 3.0 / r0).abs() < 1e-6);
    assert!((v[2] - 6.0 / r1).abs() < 1e-6);
}

#[test]
fn pos_zero_is_identity() {
    let v = rope(&[1.0, 2.0, 3.0, 4.0], &[1, 4], &[0.0], 4, 4, 10000.0);
    assert!((v[0] - 1.0).abs() < 1e-6);
    assert!((v[1] - 2.0).abs() < 1e-6);
    assert!((v[2] - 3.0).abs() < 1e-6);
    assert!((v[3] - 4.0).abs() < 1e-6);
}

#[test]
fn odd_rope_dim_error() {
    assert!(rope_f32(&vec![1, 4], &vec![1], 4, 3).is_err());
    assert_eq!(
        rope_f32(&vec![1, 4], &vec![1], 4, 3),
        Err(BackendError::InvalidInput {
            op: "Rope",
            reason: String::from("rope_dim must be even and \u{2264} head_dim, got 3 / 4"),
        })
    );
}

#[test]
fn rotation_90_at_specific_pos() {
    let v = rope(&[1.0, 0.0], &[1, 2], &[std::f32::consts::FRAC_PI_2], 2, 2, 1.0);
    assert!(v[0].abs() < 1e-6);
    assert!((v[1] - 1.0).abs() < 1e-6);
}

#[test]
fn partial_rotary_passes_trailing_dims() {
    let x = [1.0, 2.0, 3.0, 4.0, 5.0, 6.0, 7.0, 8.0];
    let y = rope(&x, &[1, 8], &[0.0], 8, 4, 10000.0);
    for (i, v) in y.iter().enumerate() {
        assert!((v - (i as f32 + 1.0)).abs() < 1e-6, "y[{i}]={v}");
    }
    let y2 = rope(&x, &[1, 8], &[std::f32::consts::FRAC_PI_2], 8, 4, 1.0);
    assert!((y2[0] - -5.0).abs() < 1e-5, "y2[0]={}", y2[0]);
    assert!((y2[4] - 1.0).abs() < 1e-5, "y2[4]={}", y2[4]);
    assert!((y2[1] - -6.0).abs() < 1e-5, "y2[1]={}", y2[1]);
    assert!((y2[5] - 2.0).abs() < 1e-5, "y2[5]={}", y2[5]);
    assert!((y2[2] - 3.0).abs() < 1e-6, "y2[2]={}", y2[2]);
    assert!((y2[6] - 7.0).abs() < 1e-6, "y2[6]={}", y2[6]);
    assert!((y2[3] - 4.0).abs() < 1e-6, "y2[3]={}", y2[3]);
    assert!((y2[7] - 8.0).abs() < 1e-6, "y2[7]={}", y2[7]);
}

#[test]
fn uniform_dist_averages() {
    for v in softmax(&[1.0, 1.0, 1.0], &[3]) {
        assert!((v - 1.0 / 3.0).abs() < 1e-6);
    }
}

#[test]
fn stable_at_large_values() {
    for v in softmax(&[1000.0, 1000.0, 1000.0], &[3]) {
        assert!((v - 1.0 / 3.0).abs() < 1e-6);
    }
}

#[test]
fn dominant_at_one() {
    let y = softmax(&[0.0, 100.0, 0.0], &[3]);
    assert!(y[0] < 1e-6);
    assert!(y[1] > 0.99);
    assert!(y[2] < 1e-6);
}

#[test]
fn norms_refuse_other_widths() {
    assert_eq!(
        rms_norm_f32(&vec![2, 3], &vec![1, 3]),
        Err(BackendError::ShapeMismatch { op: "RmsNorm", expected: vec![0], got: vec![1, 3] })
    );
    assert_eq!(
        rms_norm_f32(&vec![2, 3], &vec![4]),
        Err(BackendError::ShapeMismatch { op: "RmsNorm", expected: vec![4], got: vec![2, 3] })
    );
}

#[test]
fn softmax_takes_the_last_dimension_only() {
    assert_eq!(
        softmax_f32(&vec![2, 3], 2),
        Err(BackendError::InvalidInput {
            op: "Softmax",
            reason: String::from("dim 2 out of range for rank 2"),
        })
    );
    assert_eq!(
        softmax_f32(&vec![2, 3], -3),
        Err(BackendError::InvalidInput {
            op: "Softmax",
            reason: String::from("dim -1 out of range for rank 2"),
        })
    );
    assert_eq!(
        softmax_f32(&vec![2, 3], 0),
        Err(BackendError::Internal(String::from(
            "Softmax currently only supports last-dim (dim=0, rank=2)"
        )))
    );
    let p = softmax_f32(&vec![2, 5, 3], 2).unwrap();
    assert_eq!((p.batch, p.width), (10, 3));
}

#[test]
fn positions_spread_over_the_rows() {
    let p = rope_f32(&vec![2, 3, 4], &vec![2], 4, 4).unwrap();
    assert_eq!((p.rows, p.heads_per_pos, p.rotated), (6, 3, 2));
    assert_eq!(
        rope_f32(&vec![2, 3, 4], &vec![4], 4, 4),
        Err(BackendError::InvalidInput {
            op: "Rope",
            reason: String::from("cannot broadcast pos (len=4) across x (6 rows of head_dim)"),
        })
    );
    assert_eq!(
        rope_f32(&vec![2, 3], &vec![1], 4, 4),
        Err(BackendError::ShapeMismatch { op: "Rope", expected: vec![4], got: vec![2, 3] })
    );
}

#[test]
fn encoded_products_want_whole_blocks() {
    let p = matmul_quant_f32(&vec![3, 64], 5 * 2 * 34, DType::Q8_0, 5, 64).unwrap();
    assert_eq!(p.format, Format::Q8_0);
    assert_eq!((p.batch, p.n, p.k, p.row_bytes), (3, 5, 64, 68));
    assert_eq!(p.shape, vec![3, 5]);
    assert_eq!(
        matmul_quant_f32(&vec![1, 48], 0, DType::Q4, 1, 48),
        Err(BackendError::InvalidInput {
            op: "MatmulQuant",
            reason: String::from("K must be divisible by 32, got K=48"),
        })
    );
    assert_eq!(
        matmul_quant_f32(&vec![1, 32], 128, DType::U32, 1, 32),
        Err(BackendError::UnsupportedDtype {
            backend: "cpu",
            dtype: DType::U32,
            blocker: "matmul against U32/U16/Ternary not expected; norms/biases use other ops",
        })
    );
    assert_eq!(
        matmul_quant_f32(&vec![1, 32], 128, DType::F32, 1, 32),
        Err(BackendError::UnsupportedDtype {
            backend: "cpu",
            dtype: DType::F32,
            blocker: "fused quant matmul not implemented",
        })
    );
    assert_eq!(
        matmul_quant_f32(&vec![1, 31], 34, DType::Q8, 1, 32),
        Err(BackendError::ShapeMismatch {
            op: "MatmulQuant",
            expected: vec![0, 32],
            got: vec![1, 31],
        })
    );
}

#[test]
fn feed_forward_leads_back() {
    let p = swiglu_f32(&vec![2, 4], &vec![6, 4], &vec![6, 4], &vec![4, 6]).unwrap();
    assert_eq!(p.gate.shape, vec![2, 6]);
    assert_eq!(p.down.shape, vec![2, 4]);
    assert_eq!(
        swiglu_f32(&vec![2, 4], &vec![6, 4], &vec![6, 4], &vec![4, 5]),
        Err(BackendError::ShapeMismatch { op: "Matmul", expected: vec![0, 5], got: vec![2, 6] })
    );
}

#[test]
fn operations_count_their_inputs() {
    assert_eq!(
        require(&Op::Matmul, 2, 3),
        Err(BackendError::InvalidInput {
            op: "Matmul",
            reason: String::from("expected 2 inputs, got 3"),
        })
    );
    assert_eq!(require(&Op::Silu, 1, 1), Ok(()));
}

#[test]
fn the_reference_backend_has_no_embedding() {
    let cpu = CpuBackend::new();
    let inputs = vec![desc(DType::Q8, &[4, 4])];
    assert!(cpu.supports(&Op::Embed, &inputs));
    assert_eq!(
        cpu.execute(&Op::Embed, &inputs),
        Err(BackendError::UnsupportedOp { backend: "cpu", op: "Embed", input_dtype: DType::Q8 })
    );
    assert_eq!(
        cpu.execute(&Op::Embed, &vec![]),
        Err(BackendError::UnsupportedOp { backend: "cpu", op: "Embed", input_dtype: DType::F32 })
    );
}

#[test]
fn operations_become_steps() {
    let cpu = CpuBackend::new();
    let f = |s: &[usize]| desc(DType::F32, s);
    assert_eq!(
        cpu.execute(&Op::Silu, &vec![f(&[2, 3])]),
        Ok(CpuStep::Silu(vec![2, 3]))
    );
    assert_eq!(
        cpu.execute(&Op::Gelu { approximate: true }, &vec![f(&[2])]),
        Ok(CpuStep::GeluTanh(vec![2]))
    );
    assert_eq!(
        cpu.execute(&Op::Gelu { approximate: false }, &vec![f(&[2])]),
        Ok(CpuStep::GeluErf(vec![2]))
    );
    let sdpa = Op::Sdpa { num_heads: 8, kv_heads: 2, head_dim: 4 };
    let plan = SdpaPlan { heads: 8, kv_heads: 2, head_dim: 4, groups: 4, total_seq: 5 };
    assert_eq!(
        cpu.execute(&sdpa, &vec![f(&[1, 32]), f(&[5, 8]), f(&[5, 8])]),
        Ok(CpuStep::Sdpa(plan))
    );
    assert_eq!(plan.kv_offset(3, 5), 3 * 8 + 4);
    match cpu.execute(&Op::Sub, &vec![f(&[2, 1]), f(&[3])]) {
        Ok(CpuStep::Sub(p)) => assert_eq!(p.shape, vec![2, 3]),
        other => panic!("{other:?}"),
    }
}

#[test]
fn shapes_are_joined_from_the_right() {
    let (out, a, b) = broadcast_shapes(&vec![2, 1, 3], &vec![4, 1]).unwrap();
    assert_eq!(out, vec![2, 4, 3]);
    assert_eq!(a, vec![3, 0, 1]);
    assert_eq!(b, vec![0, 1, 0]);
    assert_eq!(strided_index(23, &out, &a), 1 * 3 + 2);
    assert_eq!(strided_index(23, &out, &b), 3);
    assert!(broadcast_shapes(&vec![2], &vec![3]).is_none());
    assert_eq!(
        binary_broadcast(&vec![2], &vec![3]),
        Err(BackendError::ShapeMismatch { op: "binary_broadcast", expected: vec![2], got: vec![3] })
    );
}

#[test]
fn tensors_of_one_shape_meet_in_place() {
    let p = binary_broadcast(&vec![2, 2], &vec![2, 2]).unwrap();
    assert_eq!(p.pairs, vec![(0, 0), (1, 1), (2, 2), (3, 3)]);
    let q = binary_broadcast(&vec![2, 2], &vec![2]).unwrap();
    assert_eq!(q.pairs, vec![(0, 0), (1, 1), (2, 0), (3, 1)]);
}

const DIMS: GatedDeltaDims = GatedDeltaDims {
    num_v_heads: 4,
    num_k_heads: 2,
    head_k_dim: 3,
    head_v_dim: 5,
    conv_kernel_size: 4,
};

#[test]
fn recurrent_layers_run_their_stages_in_order() {
    assert_eq!((DIMS.key_dim(), DIMS.value_dim(), DIMS.conv_dim()), (6, 20, 32));
    let (call, first) = gated_delta_forward(&vec![2, 16], DIMS, 60).unwrap();
    let mut seen = vec![first];
    while seen[seen.len() - 1] != Stage::Done {
        seen.push(call.next(seen[seen.len() - 1]).unwrap());
    }
    assert_eq!(
        seen,
        vec![
            Stage::ProjectQkv,
            Stage::ProjectZ,
            Stage::ProjectB,
            Stage::ProjectA,
            Stage::Convolve,
            Stage::Gate,
            Stage::Expand,
            Stage::Recur(0),
            Stage::Recur(1),
            Stage::Norm,
            Stage::ProjectOut,
            Stage::Done,
        ]
    );
}

#[test]
fn recurrent_layers_refuse_other_extents() {
    assert_eq!(
        gated_delta_forward(&vec![2], DIMS, 60),
        Err(BackendError::ShapeMismatch {
            op: "GatedDeltaNet",
            expected: vec![0, 0],
            got: vec![2],
        })
    );
    let (call, _) = gated_delta_forward(&vec![2, 16], DIMS, 59).unwrap();
    assert_eq!(
        call.next(Stage::Expand),
        Err(BackendError::ShapeMismatch {
            op: "GatedDeltaNet",
            expected: vec![4, 3, 5],
            got: vec![59],
        })
    );
    let odd = GatedDeltaDims { num_v_heads: 3, ..DIMS };
    assert!(matches!(
        check_heads(&odd),
        Err(BackendError::InvalidInput { op: "GatedDeltaNet", .. })
    ));
    let (call, _) = gated_delta_forward(&vec![2, 16], odd, 45).unwrap();
    assert!(call.next(Stage::Gate).is_err());
}

#[test]
fn a_convolution_can_be_split_into_calls() {
    // Two channels, three taps, four rows.
    let xs: Vec<u32> = (1..=8).collect();
    let start: Vec<u32> = vec![101, 102, 201, 202];
    let mut whole = start.clone();
    let all = causal_windows(&xs, &vec![4, 2], 2, 3, &mut whole).unwrap();
    let mut parts = start.clone();
    let mut pieces = Vec::new();
    for row in xs.chunks(2) {
        pieces.extend(causal_windows(&row.to_vec(), &vec![1, 2], 2, 3, &mut parts).unwrap());
    }
    assert_eq!(all, pieces);
    assert_eq!(whole, parts);
    assert_eq!(whole, vec![5, 7, 6, 8]);
    assert_eq!(&all[0..6], &[101, 102, 1, 201, 202, 2]);
    assert_eq!(&all[18..24], &[3, 5, 7, 4, 6, 8]);
}

#[test]
fn a_refused_convolution_keeps_its_history() {
    let mut state = vec![7u32; 3];
    assert_eq!(
        causal_windows(&vec![1, 2], &vec![1, 2], 2, 3, &mut state),
        Err(BackendError::ShapeMismatch {
            op: "CausalConv1d",
            expected: vec![2, 2],
            got: vec![3],
        })
    );
    assert_eq!(state, vec![7, 7, 7]);
    assert_eq!(
        causal_windows(&vec![1, 2], &vec![1, 2], 3, 3, &mut state),
        Err(BackendError::ShapeMismatch {
            op: "CausalConv1d",
            expected: vec![0, 3],
            got: vec![1, 2],
        })
    );
}

#[test]
fn heads_are_split_and_repeated() {
    let d = GatedDeltaDims {
        num_v_heads: 4,
        num_k_heads: 2,
        head_k_dim: 1,
        head_v_dim: 1,
        conv_kernel_size: 2,
    };
    let mixed: Vec<u32> = (0..16).collect();
    let s = split_qkv(&mixed, 2, &d);
    assert_eq!(s.query, vec![0, 1, 8, 9]);
    assert_eq!(s.key, vec![2, 3, 10, 11]);
    assert_eq!(s.value, vec![4, 5, 6, 7, 12, 13, 14, 15]);
    assert_eq!(expand_heads(&s.key, 2, &d), vec![2, 2, 3, 3, 10, 10, 11, 11]);
}

#[test]
fn text_counts_along_all_axes() {
    let p = mrope_position_ids(&vec![ModalityRun::Text { len: 3 }], 2);
    assert_eq!((p.t, p.h, p.w, p.next), (vec![0, 1, 2], vec![0, 1, 2], vec![0, 1, 2], 3));
}

#[test]
fn an_image_takes_its_longer_side() {
    let runs = vec![
        ModalityRun::Text { len: 2 },
        ModalityRun::Vision { t: 1, h: 4, w: 6 },
        ModalityRun::Text { len: 1 },
    ];
    let p = mrope_position_ids(&runs, 2);
    assert_eq!(p.t, vec![0, 1, 2, 2, 2, 2, 2, 2, 5]);
    assert_eq!(p.h, vec![0, 1, 2, 2, 2, 3, 3, 3, 5]);
    assert_eq!(p.w, vec![0, 1, 2, 3, 4, 2, 3, 4, 5]);
    assert_eq!(p.next, 6);
}

#[test]
fn frequencies_take_turns() {
    assert_eq!([0, 1, 2, 3].map(frequency_axis), [0, 1, 2, 0]);
    assert_eq!(rope_pairs(8, 4), vec![(0, 4), (1, 5)]);
    assert_eq!(prefix_pairs(4), vec![(0, 2), (1, 3)]);
}

#[test]
fn patches_come_in_merged_blocks() {
    let v = patch_order_positions(4, 4, 2);
    assert_eq!(&v[0..6], &[(0, 0), (0, 1), (1, 0), (1, 1), (0, 2), (0, 3)]);
    let mut sorted = v.clone();
    sorted.sort();
    sorted.dedup();
    assert_eq!(sorted.len(), 16);
    assert_eq!(merged_shape(16, 5, 2), (4, 20));
    assert!(patch_order_positions(4, 0, 2).is_empty());
    assert!(patch_order_positions(0, 0, 2).is_empty());
}

#[test]
fn sections_make_up_half_the_rotated_width() {
    assert!(section_fits((11, 11, 10), 64));
    assert!(!section_fits((11, 11, 11), 64));
    assert!(!section_fits((usize::MAX, 1, 32), 64));
    let n = |axis: usize| (0..32).filter(|j| frequency_axis(*j) == axis).count();
    assert_eq!((n(0), n(1), n(2)), (11, 11, 10));
}

#[test]
fn a_refused_rotation_wants_no_positions() {
    assert!(rope_f32(&vec![1, 4], &vec![0], 4, 3).is_err());
    assert_eq!(
        rope_f32(&vec![2, 3], &vec![0], 4, 4),
        Err(BackendError::ShapeMismatch { op: "Rope", expected: vec![4], got: vec![2, 3] })
    );
}

#[test]
fn vision_angles_alternate_rows_and_columns() {
    assert_eq!(
        vision_rope_angles(8),
        vec![
            Angle::Row(0),
            Angle::Row(1),
            Angle::Column(0),
            Angle::Column(1),
            Angle::Row(0),
            Angle::Row(1),
            Angle::Column(0),
            Angle::Column(1),
        ]
    );
    let d = VisionDims {
        hidden_size: 64,
        num_heads: 4,
        intermediate_size: 0,
        spatial_merge_size: 2,
        num_grid_per_side: 1,
        rope_theta: 0,
        out_hidden_size: 1,
    };
    assert_eq!(d.head_dim(), 16);
}

#[test]
fn projections_are_multiplied_where_they_are() {
    assert_eq!(proj_matmul(&vec![2, 32], &desc(DType::Q8, &[4, 32])), Ok(Projection::Encoded));
    match proj_matmul(&vec![2, 32], &desc(DType::F32, &[4, 32])) {
        Ok(Projection::Dense(p)) => assert_eq!(p.shape, vec![2, 4]),
        other => panic!("{other:?}"),
    }
    assert!(proj_matmul(&vec![2, 31], &desc(DType::F32, &[4, 32])).is_err());
    let (x, v, f) = (desc(DType::F32, &[32, 16]), desc(DType::F32, &[20, 16]), desc(DType::F32, &[4]));
    let out = desc(DType::F32, &[16, 20]);
    let w = GatedDeltaWeights {
        in_proj_qkv: &x,
        in_proj_z: &v,
        in_proj_b: &f,
        in_proj_a: &f,
        conv1d_weight: &f,
        a_log: &f,
        dt_bias: &f,
        norm_weight: &f,
        out_proj: &out,
    };
    let (call, _) = gated_delta_forward(&vec![2, 16], DIMS, 60).unwrap();
    assert_eq!(call.projection(Stage::ProjectQkv, &w), Some((vec![2, 16], &x)));
    assert_eq!(call.projection(Stage::ProjectZ, &w), Some((vec![2, 16], &v)));
    assert_eq!(call.projection(Stage::ProjectOut, &w), Some((vec![2, 20], &out)));
    assert_eq!(call.projection(Stage::Norm, &w), None);
}

fn zeros(shape: &[usize]) -> DenseTensor {
    DenseTensor {
        shape: shape.to_vec(),
        elements: vec![glia::quant::stored::Stored::Single(0); shape.iter().product()],
        plus_one: false,
    }
}

fn block(hidden: usize, inner: usize) -> VisionBlockOwned {
    VisionBlockOwned {
        norm1_weight: zeros(&[hidden]),
        norm1_bias: zeros(&[hidden]),
        norm2_weight: zeros(&[hidden]),
        norm2_bias: zeros(&[hidden]),
        qkv_weight: zeros(&[3 * hidden, hidden]),
        qkv_bias: zeros(&[3 * hidden]),
        proj_weight: zeros(&[hidden, hidden]),
        proj_bias: zeros(&[hidden]),
        fc1_weight: zeros(&[inner, hidden]),
        fc1_bias: zeros(&[inner]),
        fc2_weight: zeros(&[hidden, inner]),
        fc2_bias: zeros(&[hidden]),
    }
}

fn merger(width: usize, out: usize) -> VisionMergerOwned {
    VisionMergerOwned {
        norm_weight: zeros(&[width]),
        norm_bias: zeros(&[width]),
        fc1_weight: zeros(&[4 * width, 4 * width]),
        fc1_bias: zeros(&[4 * width]),
        fc2_weight: zeros(&[out, 4 * width]),
        fc2_bias: zeros(&[out]),
    }
}

fn dims(hidden: usize) -> VisionDims {
    VisionDims {
        hidden_size: hidden,
        num_heads: 2,
        intermediate_size: 6,
        spatial_merge_size: 2,
        num_grid_per_side: 3,
        rope_theta: 0,
        out_hidden_size: 5,
    }
}

#[test]
fn blocks_of_the_tower_are_checked_in_order() {
    let mut b = block(4, 6);
    let p = vision_block(&vec![8, 4], &b.as_ref(), dims(4)).unwrap();
    assert_eq!(p.qkv.shape, vec![8, 12]);
    assert_eq!(p.fc2.shape, vec![8, 4]);
    b.fc2_weight = zeros(&[4, 7]);
    assert_eq!(
        vision_block(&vec![8, 4], &b.as_ref(), dims(4)),
        Err(BackendError::ShapeMismatch { op: "Matmul", expected: vec![0, 7], got: vec![8, 6] })
    );
    b.proj_weight = zeros(&[4, 5]);
    assert_eq!(
        vision_block(&vec![8, 4], &b.as_ref(), dims(4)),
        Err(BackendError::ShapeMismatch { op: "Matmul", expected: vec![0, 5], got: vec![8, 4] })
    );
    assert!(patch_embed(&vec![8, 3], &vec![4, 2]).is_err());
    assert_eq!(split_thirds(&(0..12).collect(), 2, 2).key, vec![2, 3, 8, 9]);
}

#[test]
fn towers_end_in_merged_patches() {
    let blocks = [block(4, 6), block(4, 6)];
    let m = merger(4, 5);
    let refs = vec![blocks[0].as_ref(), blocks[1].as_ref()];
    let p = vision_tower_forward(&vec![8, 3], 2, 4, &vec![4, 3], &refs, &m.as_ref(), dims(4));
    let p = p.unwrap();
    assert_eq!(p.positions.len(), 8);
    assert_eq!(p.blocks.len(), 2);
    assert_eq!(p.merger.fc1.shape, vec![2, 16]);
    assert_eq!(p.merger.fc2.shape, vec![2, 5]);
    let bad = merger(4, 5);
    let bad = VisionMergerOwned { fc1_weight: zeros(&[16, 15]), ..bad };
    assert_eq!(
        patch_merger(&vec![8, 4], &bad.as_ref(), 2),
        Err(BackendError::ShapeMismatch { op: "Matmul", expected: vec![0, 15], got: vec![2, 16] })
    );
    assert_eq!(
        vision_tower_forward(&vec![8, 3], 2, 4, &vec![4, 3], &refs, &bad.as_ref(), dims(4)).err(),
        Some(BackendError::ShapeMismatch {
            op: "Matmul",
            expected: vec![0, 15],
            got: vec![2, 16],
        })
    );
}

#[test]
fn attention_stays_within_its_segment() {
    assert_eq!(segment_spans(&vec![0, 4, 9]), vec![(0, 4), (4, 9)]);
    assert_eq!(segment_spans(&vec![3]), vec![]);
    assert_eq!(segment_spans(&vec![]), vec![]);
}

#[test]
fn position_taps_stay_in_the_table() {
    let taps = gather_pos_embed(2, 2, 1, 3, &vec![0, 2], &vec![1, 7]);
    assert_eq!(taps[0], (1, 2, 4, 5));
    assert_eq!(taps[1], (2, 2, 5, 5));
    assert_eq!(taps[2], (7, 8, 7, 8));
    assert_eq!(taps[3], (8, 8, 8, 8));
}
