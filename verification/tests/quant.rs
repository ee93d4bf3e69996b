//! Encodings: what is written, what is read, and the numbers they stand for.

use glia::backend::BackendError;
use glia::cpu::ops::{matmul_f32, matmul_quant_f32};
use glia::cpu::quant_dot::{block_groups, DotGroup, Factor, Minimum};
use glia::quant::canonical as codec;
use glia::quant::dequant;
use glia::quant::q4_0;
use glia::quant::q4_k;
use glia::quant::q6_k;
use glia::quant::q8_0;
use glia::quant::stored::{decode, element, Format, Stored};
use glia::tensor::DType;

fn half(bits: u16) -> f32 {
    half::f16::from_bits(bits).to_f32()
}

fn half_bits(v: f32) -> [u8; 2] {
    half::f16::from_f32(v).to_bits().to_le_bytes()
}

/// The number that a stored element stands for.
fn value(s: &Stored) -> f32 {
    match *s {
        Stored::Single(b) => f32::from_bits(b),
        Stored::Half(b) => half(b),
        Stored::Whole { code } => code as f32,
        Stored::Fixed16 { code } => code as f32 / 65536.0,
        Stored::Fixed8 { code } => code as f32 / 256.0,
        Stored::Block8 { scale, code } => code as f32 * (scale as f32 / 256.0) / 127.0,
        Stored::Block4 { scale, code } => code as f32 * (scale as f32 / 256.0) / 8.0,
        Stored::Scaled { d, code } => half(d) * code as f32,
        Stored::Offset { d, code, offset } => half(d) * code as f32 + half(offset),
        Stored::Product { d, scale, code } => half(d) * scale as f32 * code as f32,
        Stored::Affine { d, scale, code, dmin, min } => {
            half(d) * scale as f32 * code as f32 - half(dmin) * min as f32
        }
    }
}

fn values(v: &[Stored]) -> Vec<f32> {
    v.iter().map(value).collect()
}

fn bits(v: &[f32]) -> Vec<u32> {
    v.iter().map(|x| x.to_bits()).collect()
}

/// The codes of numbers in blocks of 32, `steps` of them up to the largest
/// magnitude.
fn codes(v: &[f32], steps: f32, least: f32, most: f32) -> Vec<i8> {
    let b = bits(v);
    let mut out = Vec::new();
    for (i, x) in v.iter().enumerate() {
        let scale = f32::from_bits(codec::block_max(&b, i / 32 * 32));
        let inv = if scale > 0.0 { steps / scale } else { 0.0 };
        out.push((x * inv).round().clamp(least, most) as i8);
    }
    out
}

fn to_q8(v: &[f32]) -> Vec<u8> {
    codec::f32_to_q8(&bits(v), &codes(v, 127.0, -127.0, 127.0))
}

fn to_q4(v: &[f32]) -> Vec<u8> {
    codec::f32_to_q4(&bits(v), &codes(v, 8.0, -8.0, 7.0))
}

fn assert_within(actual: &[f32], expected: &[f32], tol: f32, label: &str) {
    assert_eq!(actual.len(), expected.len(), "{label}: length mismatch");
    for (i, (&a, &e)) in actual.iter().zip(expected.iter()).enumerate() {
        let err = (a - e).abs();
        assert!(err <= tol, "{label}: index {i} actual={a} expected={e} err={err} > tol={tol}");
    }
}

#[test]
fn u32_roundtrip_typical_weights() {
    let input = vec![0.0, 1.0, -1.0, 0.5, -0.5, 1e-3, -1e-3, 32767.0, -32768.0];
    let bytes = codec::f32_to_u32(&bits(&input));
    let back = values(&codec::u32_to_f32(&bytes));
    assert_within(&back, &input, 2.0 / 65536.0, "u32 roundtrip");
}

#[test]
fn u32_zero_is_exact() {
    let input = vec![0.0; 16];
    let bytes = codec::f32_to_u32(&bits(&input));
    let back = values(&codec::u32_to_f32(&bytes));
    assert_eq!(back.len(), 16);
    for v in back {
        assert_eq!(v, 0.0);
    }
}

#[test]
fn u16_roundtrip_typical_weights() {
    let input = vec![0.0, 1.0, -1.0, 0.5, -0.5, 0.1, -0.1, 127.0, -127.0];
    let bytes = codec::f32_to_u16(&bits(&input));
    let back = values(&codec::u16_to_f32(&bytes));
    assert_within(&back, &input, 2.0 / 256.0, "u16 roundtrip");
}

#[test]
fn u16_saturates_silently_above_128() {
    let input = vec![1000.0, -1000.0];
    let bytes = codec::f32_to_u16(&bits(&input));
    let back = values(&codec::u16_to_f32(&bytes));
    assert!(back[0] > 127.0 && back[0] < 128.0, "saturated +max: {}", back[0]);
    assert!(back[1] >= -128.0 && back[1] < -127.0, "saturated -min: {}", back[1]);
}

#[test]
fn q8_roundtrip_random_block() {
    let input: Vec<f32> = (0..32).map(|i| (i as f32 - 16.0) * 0.05).collect();
    let bytes = to_q8(&input);
    assert_eq!(bytes.len(), 2 + 32);
    let back = values(&codec::q8_to_f32(&bytes));
    let block_max = input.iter().fold(0.0f32, |a, &v| a.max(v.abs()));
    let q_step = block_max / 127.0;
    assert_within(&back, &input, q_step + 1.0 / 256.0, "q8 roundtrip");
}

#[test]
fn q8_zero_block_is_zeros() {
    let bytes = to_q8(&vec![0.0f32; 32]);
    let back = values(&codec::q8_to_f32(&bytes));
    assert_eq!(back.len(), 32);
    for v in back {
        assert_eq!(v, 0.0);
    }
}

#[test]
fn q4_roundtrip_block() {
    let input: Vec<f32> = (0..32).map(|i| (i as f32 - 16.0) * 0.05).collect();
    let bytes = to_q4(&input);
    assert_eq!(bytes.len(), 2 + 16);
    let back = values(&codec::q4_to_f32(&bytes));
    let block_max = input.iter().fold(0.0f32, |a, &v| a.max(v.abs()));
    let q_step = block_max / 8.0;
    assert_within(&back, &input, q_step + 1.0 / 256.0, "q4 roundtrip");
}

#[test]
fn q4_zero_block_is_zeros() {
    let bytes = to_q4(&vec![0.0f32; 32]);
    let back = values(&codec::q4_to_f32(&bytes));
    assert_eq!(back.len(), 32);
    for v in back {
        assert_eq!(v, 0.0);
    }
}

#[test]
fn ternary_roundtrip_exact_for_canonical_values() {
    let input: Vec<f32> = (0..32)
        .map(|i| match i % 3 {
            0 => 0.0,
            1 => 1.0,
            _ => -1.0,
        })
        .collect();
    let bytes = codec::f32_to_ternary(&bits(&input));
    assert_eq!(bytes.len(), 8);
    let back = values(&codec::ternary_to_f32(&bytes));
    assert_eq!(back, input);
}

#[test]
fn ternary_quantizes_by_threshold() {
    let input: Vec<f32> = vec![
        0.0, 0.49, -0.49, 0.5, -0.5, 0.7, -0.7, 0.1, -0.1, 0.6, -0.6, 1.5, -1.5, 0.0, 0.0, 0.0,
        0.0, 0.0, 0.0, 0.0, 0.0, 0.0, 0.0, 0.0, 0.0, 0.0, 0.0, 0.0, 0.0, 0.0, 0.0, 0.0,
    ];
    let bytes = codec::f32_to_ternary(&bits(&input));
    let back = values(&codec::ternary_to_f32(&bytes));
    assert_eq!(back[0], 0.0);
    assert_eq!(back[1], 0.0);
    assert_eq!(back[2], 0.0);
    assert_eq!(back[3], 1.0);
    assert_eq!(back[4], -1.0);
    assert_eq!(back[5], 1.0);
    assert_eq!(back[6], -1.0);
    assert_eq!(back[7], 0.0);
    assert_eq!(back[8], 0.0);
    assert_eq!(back[9], 1.0);
    assert_eq!(back[10], -1.0);
    assert_eq!(back[11], 1.0);
    assert_eq!(back[12], -1.0);
}

#[test]
fn q4_first_byte_is_u16_scale_lo_byte() {
    let mut input = vec![0.0f32; 32];
    input[0] = 1.0;
    input[16] = -1.0;
    let bytes = to_q4(&input);
    assert_eq!(bytes[0], 0x00, "u16 scale lo byte");
    assert_eq!(bytes[1], 0x01, "u16 scale hi byte");
    assert_eq!(bytes[2], 0x0F, "first nibble byte (split layout)");
}

#[test]
fn q8_first_two_bytes_are_u16_scale() {
    let mut input = vec![0.0f32; 32];
    input[0] = 1.0;
    let bytes = to_q8(&input);
    let scale_u16 = i16::from_le_bytes([bytes[0], bytes[1]]);
    assert_eq!(scale_u16, 256, "scale u16 = round(1.0 * 256) = 256");
    assert_eq!(bytes[2] as i8, 127);
}

#[test]
fn zero_nibbles_give_negative_8_times_d() {
    let d_bits = half_bits(1.0);
    let mut block = vec![0u8; 18];
    block[0] = d_bits[0];
    block[1] = d_bits[1];
    let out = values(&q4_0::dequantize(&block));
    assert_eq!(out.len(), 32);
    for v in out {
        assert!((v - (-8.0)).abs() < 1e-6);
    }
}

#[test]
fn single_nibble_positive() {
    let d_bits = half_bits(0.5);
    let mut block = vec![0u8; 18];
    block[0] = d_bits[0];
    block[1] = d_bits[1];
    block[2] = 0x9F;
    let out = values(&q4_0::dequantize(&block));
    assert!((out[0] - 3.5).abs() < 1e-6);
    assert!((out[16] - 0.5).abs() < 1e-6);
}

#[test]
fn first_four_subblocks_give_negative_offset() {
    let mut block = vec![0u8; q4_k::BLOCK_BYTES];
    let d_bits = half_bits(1.0);
    let dmin_bits = half_bits(0.5);
    block[0] = d_bits[0];
    block[1] = d_bits[1];
    block[2] = dmin_bits[0];
    block[3] = dmin_bits[1];
    for j in 0..4 {
        block[4 + j] = 1;
        block[4 + j + 4] = 1;
    }
    let out = values(&q4_k::dequantize(&block));
    assert_eq!(out.len(), 256);
    for (i, &v) in out[0..128].iter().enumerate() {
        assert!((v - (-0.5)).abs() < 1e-6, "idx {i}: got {v}");
    }
}

#[test]
fn positive_nibbles_via_scale() {
    let mut block = vec![0u8; q4_k::BLOCK_BYTES];
    let d_bits = half_bits(2.0);
    let dmin_bits = half_bits(0.0);
    block[0] = d_bits[0];
    block[1] = d_bits[1];
    block[2] = dmin_bits[0];
    block[3] = dmin_bits[1];
    block[4] = 3;
    block[16] = 0x05;
    let out = values(&q4_k::dequantize(&block));
    assert!((out[0] - 30.0).abs() < 1e-6, "got {}", out[0]);
}

#[test]
fn zero_block_gives_zero_when_d_zero() {
    let block = vec![0u8; q6_k::BLOCK_BYTES];
    let out = values(&q6_k::dequantize(&block));
    assert_eq!(out.len(), q6_k::BLOCK_SIZE);
    for v in out {
        assert_eq!(v, 0.0);
    }
}

#[test]
fn d_one_with_zero_q_gives_negative_32_times_scale() {
    let mut block = vec![0u8; q6_k::BLOCK_BYTES];
    let d_bits = half_bits(1.0);
    block[208] = d_bits[0];
    block[209] = d_bits[1];
    for i in 192..208 {
        block[i] = 1;
    }
    let out = values(&q6_k::dequantize(&block));
    for v in out {
        assert!((v - (-32.0)).abs() < 1e-6, "got {v}");
    }
}

#[test]
fn identity_d_and_q() {
    let d_bits = half_bits(1.0);
    let mut block = vec![0u8; 34];
    block[0] = d_bits[0];
    block[1] = d_bits[1];
    for j in 0..32 {
        block[2 + j] = j as u8;
    }
    let out = values(&q8_0::dequantize(&block));
    for j in 0..32 {
        assert!((out[j] - j as f32).abs() < 1e-6);
    }
}

#[test]
fn negative_values() {
    let d_bits = half_bits(1.0);
    let mut block = vec![0u8; 34];
    block[0] = d_bits[0];
    block[1] = d_bits[1];
    block[2] = (-5i8) as u8;
    let out = values(&q8_0::dequantize(&block));
    assert!((out[0] - (-5.0)).abs() < 1e-6);
}

#[test]
fn fixed_point_codes_are_exact() {
    // Halves round away from zero; NaN is stored as zero.
    let input = [1.5f32, -1.5, 0.001953125, -0.001953125, f32::NAN, f32::INFINITY];
    let stored = codec::u16_to_f32(&codec::f32_to_u16(&bits(&input)));
    assert_eq!(
        stored,
        vec![
            Stored::Fixed8 { code: 384 },
            Stored::Fixed8 { code: -384 },
            Stored::Fixed8 { code: 1 },
            Stored::Fixed8 { code: -1 },
            Stored::Fixed8 { code: 0 },
            Stored::Fixed8 { code: 32767 },
        ]
    );
    let wide = codec::u32_to_f32(&codec::f32_to_u32(&bits(&[1.5, -0.25, -1e9, 1e9])));
    assert_eq!(
        wide,
        vec![
            Stored::Fixed16 { code: 98304 },
            Stored::Fixed16 { code: -16384 },
            Stored::Fixed16 { code: i32::MIN },
            Stored::Fixed16 { code: i32::MAX },
        ]
    );
}

#[test]
fn fixed_point_agrees_with_the_arithmetic() {
    // Every exponent and a spread of mantissas.
    for k in 0..0x1_0000u32 {
        let b = k * 0x1_0001;
        let v = f32::from_bits(b);
        let wide = (v * 65536.0).round().clamp(i32::MIN as f32, i32::MAX as f32) as i32;
        let narrow = (v * 256.0).round().clamp(i16::MIN as f32, i16::MAX as f32) as i16;
        assert_eq!(codec::f32_to_u32(&[b]), wide.to_le_bytes(), "{v}");
        assert_eq!(codec::f32_to_u16(&[b]), narrow.to_le_bytes(), "{v}");
    }
}

#[test]
fn block_scale_is_the_largest_magnitude() {
    let mut input = vec![0.25f32; 64];
    input[7] = -3.0;
    input[40] = f32::NAN;
    input[41] = 0.5;
    let b = bits(&input);
    assert_eq!(f32::from_bits(codec::block_max(&b, 0)), 3.0);
    assert_eq!(f32::from_bits(codec::block_max(&b, 32)), 0.5);
    let bytes = to_q8(&input);
    assert_eq!(&bytes[0..2], &768i16.to_le_bytes());
    assert_eq!(&bytes[34..36], &128i16.to_le_bytes());
}

#[test]
fn a_block_of_q4_reads_back_its_codes() {
    let input: Vec<f32> = (0..32).map(|i| i as f32 - 16.0).collect();
    let c = codes(&input, 8.0, -8.0, 7.0);
    let back = codec::q4_to_f32(&codec::f32_to_q4(&bits(&input), &c));
    for i in 0..32 {
        assert_eq!(back[i], Stored::Block4 { scale: 4096, code: c[i] as i32 });
    }
}

#[test]
fn bytes_past_the_last_block_are_left() {
    assert_eq!(codec::u32_to_f32(&[0, 0, 1, 0, 9]), vec![Stored::Fixed16 { code: 65536 }]);
    assert_eq!(codec::q8_to_f32(&[0u8; 40]).len(), 32);
}

#[test]
fn the_fourth_ternary_code_is_zero() {
    let back = codec::ternary_to_f32(&[0b11_10_01_00]);
    assert_eq!(
        back,
        vec![
            Stored::Whole { code: 0 },
            Stored::Whole { code: 1 },
            Stored::Whole { code: -1 },
            Stored::Whole { code: 0 },
        ]
    );
}

#[test]
fn six_bit_values_are_gathered_from_two_tables() {
    let mut block = vec![0u8; q6_k::BLOCK_BYTES];
    let d_bits = half_bits(1.0);
    block[208] = d_bits[0];
    block[209] = d_bits[1];
    block[0] = 0x9A;
    block[32] = 0xBC;
    block[128] = 0b11_10_01_00;
    block[192] = 1;
    block[194] = 2;
    block[196] = 3;
    block[198] = (-1i8) as u8;
    let out = q6_k::dequantize(&block);
    let d = u16::from_le_bytes(d_bits);
    assert_eq!(out[0], Stored::Product { d, scale: 1, code: 10 - 32 });
    assert_eq!(out[32], Stored::Product { d, scale: 2, code: (16 + 12) - 32 });
    assert_eq!(out[64], Stored::Product { d, scale: 3, code: (32 + 9) - 32 });
    assert_eq!(out[96], Stored::Product { d, scale: -1, code: (48 + 11) - 32 });
}

#[test]
fn super_block_packing_reads_back() {
    let mut scales = [0u8; 8];
    let mut mins = [0u8; 8];
    for j in 0..8 {
        scales[j] = 63 - 7 * j as u8;
        mins[j] = 5 + 8 * j as u8;
    }
    let mut nibbles = [0u8; 256];
    for i in 0..256 {
        nibbles[i] = (i * 7 % 16) as u8;
    }
    let block = q4_k::SuperBlock {
        d: 0x3C00,
        dmin: 0x3800,
        scales: scales.to_vec(),
        mins: mins.to_vec(),
        codes: nibbles.to_vec(),
    };
    let bytes = q4_k::f32_to_q4k(&vec![block]);
    assert_eq!(bytes.len(), 144);
    for j in 0..8 {
        assert_eq!(q4_k::unpack_scale_min_k4_public(j, &bytes[4..16]), (scales[j], mins[j]));
    }
    let out = q4_k::dequantize(&bytes);
    for i in 0..256 {
        assert_eq!(
            out[i],
            Stored::Affine {
                d: 0x3C00,
                scale: scales[i / 32] as i32,
                code: nibbles[i] as i32,
                dmin: 0x3800,
                min: mins[i / 32] as i32,
            }
        );
    }
}

#[test]
fn super_blocks_start_row_by_row() {
    assert_eq!(q4_k::block_starts(2, 512), vec![0, 256, 512, 768]);
    assert_eq!(q4_k::block_starts(2, 300), vec![0, 300]);
    assert_eq!(q4_k::block_starts(3, 255), Vec::<usize>::new());
}

#[test]
fn brain_floats_widen() {
    let b: Vec<u8> = [0x3FC0u16, 0x8001, 0x7F81].iter().flat_map(|w| w.to_le_bytes()).collect();
    assert_eq!(
        decode(Format::Brain, &b),
        vec![
            Stored::Single(0x3FC0_0000),
            Stored::Single(0x8001_0000),
            Stored::Single(0x7FC1_0000),
        ]
    );
    assert_eq!(element(Format::BrainBits, &b, 4, 0), Stored::Single(0x7F81_0000));
}

#[test]
fn undecodable_types_are_named() {
    match dequant::try_dequantize_to_f32(&[], DType::Q5_K) {
        Err(BackendError::UnsupportedDtype { backend, dtype, blocker }) => {
            assert_eq!(backend, "cpu");
            assert!(matches!(dtype, DType::Q5_K));
            assert_eq!(blocker, "Q5_K dequant not implemented");
        }
        other => panic!("{other:?}"),
    }
    assert!(dequant::try_dequantize_to_f32(&[0u8; 34], DType::Q8_0).is_ok());
}

fn rand_bytes(n: usize, seed: u64) -> Vec<u8> {
    let mut s = seed | 1;
    (0..n)
        .map(|_| {
            s ^= s << 13;
            s ^= s >> 7;
            s ^= s << 17;
            s as u8
        })
        .collect()
}

fn rand_x(k: usize, seed: u64) -> Vec<f32> {
    let mut s = seed | 1;
    (0..k)
        .map(|_| {
            s ^= s << 13;
            s ^= s >> 7;
            s ^= s << 17;
            ((s as f32) / (u64::MAX as f32) - 0.5) * 0.2
        })
        .collect()
}

/// Replaces the scales of every block of a row by positive numbers below one.
fn sanitize_scales(bytes: &mut [u8], dtype: DType, block_bytes: usize) {
    let offsets: &[usize] = match dtype {
        DType::Q4_K => &[0, 2],
        DType::Q6_K => &[208],
        _ => &[0],
    };
    for blk in 0..bytes.len() / block_bytes {
        let v = 0.05 + ((blk as f32 * 0.13).fract() * 0.9);
        let two = if matches!(dtype, DType::Q4 | DType::Q8) {
            ((v * 256.0).round() as i16).to_le_bytes()
        } else {
            half_bits(v)
        };
        for off in offsets {
            let at = blk * block_bytes + off;
            bytes[at..at + 2].copy_from_slice(&two);
        }
    }
}

/// The product of a group of encoded elements with the numbers of its block.
fn group_dot(g: &DotGroup, x: &[f32]) -> f32 {
    let mut acc = [0f32; 8];
    let mut plain = 0f32;
    for lanes in &g.lanes {
        for (i, a) in acc.iter_mut().enumerate() {
            *a += lanes.codes[i] as f32 * x[lanes.at + i];
            plain += x[lanes.at + i];
        }
    }
    let factor = match g.factor {
        Factor::Half { d } => half(d),
        Factor::HalfTimes { d, scale } => half(d) * scale as f32,
        Factor::By127 { scale } => scale as f32 / 256.0 / 127.0,
        Factor::By8 { scale } => scale as f32 / 256.0 / 8.0,
    };
    let less = match g.minimum {
        Some(m) => half(m.dmin) * m.min as f32 * plain,
        None => 0.0,
    };
    factor * acc.iter().sum::<f32>() - less
}

#[test]
fn lanes_are_summed_in_order() {
    let mut block = vec![0u8; 18];
    block[0] = 0x01;
    block[2] = 0x9A;
    let g = block_groups(Format::Q4, &block, 0);
    assert_eq!(g.len(), 1);
    assert_eq!(g[0].factor, Factor::By8 { scale: 1 });
    assert_eq!(g[0].minimum, None);
    let at: Vec<usize> = g[0].lanes.iter().map(|l| l.at).collect();
    assert_eq!(at, vec![0, 16, 8, 24]);
    assert_eq!(g[0].lanes[0].codes[0], 2);
    assert_eq!(g[0].lanes[1].codes[0], 1);
    let mut block = vec![0u8; 210];
    block[0] = 0x0F;
    block[128] = 0x03;
    block[192] = 0xFE;
    block[208..].copy_from_slice(&[0x00, 0x3C]);
    let g = block_groups(Format::Q6_K, &block, 0);
    assert_eq!(g.len(), 2);
    assert_eq!(g[0].factor, Factor::Half { d: 0x3C00 });
    assert_eq!(g[0].lanes.len(), 16);
    assert_eq!(g[0].lanes[0].codes[0], -2 * 31);
    assert_eq!(g[0].lanes[0].codes[1], -2 * -32);
    assert_eq!(g[1].lanes[0].at, 128);
    let mut block = vec![0u8; 288];
    block[144..148].copy_from_slice(&[0x00, 0x3C, 0x00, 0x40]);
    block[148 + 1] = 5;
    block[148 + 5] = 7;
    block[160] = 0x30;
    let g = block_groups(Format::Q4_K, &block, 144);
    assert_eq!(g.len(), 8);
    assert_eq!(g[1].factor, Factor::HalfTimes { d: 0x3C00, scale: 5 });
    assert_eq!(g[1].minimum, Some(Minimum { dmin: 0x4000, min: 7 }));
    assert_eq!(g[1].lanes[0].at, 32);
    assert_eq!(g[1].lanes[0].codes[0], 3);
}

/// A product with an encoded matrix, row by row and block by block, against
/// the product with the matrix decoded as a whole.
fn assert_fused_matches_dequant(dtype: DType, n: usize, k: usize, rel_eps: f32) {
    let f = dequant::format_for(dtype).unwrap();
    assert_eq!(k % f.len(), 0);
    let row_bytes = k / f.len() * f.bytes();
    let mut w = rand_bytes(n * row_bytes, 0xC0FFEE_u64.wrapping_mul(dtype as u64 + 1));
    for row in 0..n {
        sanitize_scales(&mut w[row * row_bytes..(row + 1) * row_bytes], dtype, f.bytes());
    }
    let x = rand_x(k, 0xBADC0DE_u64.wrapping_mul(dtype as u64 + 1));

    let whole = values(&dequant::dequantize_to_f32(&w, dtype));
    let dense = matmul_f32(&vec![1, k], &vec![n, k]).unwrap();
    let y_ref: Vec<f32> = (0..dense.n)
        .map(|i| (0..k).map(|j| x[j] * whole[i * dense.k + j]).sum())
        .collect();

    let p = matmul_quant_f32(&vec![1, k], w.len(), dtype, n, k).unwrap();
    assert_eq!(p.shape, vec![1, n]);
    let y_fused: Vec<f32> = (0..p.n)
        .map(|i| {
            let row = &w[i * p.row_bytes..(i + 1) * p.row_bytes];
            let mut sum = 0.0;
            for b in 0..k / p.format.len() {
                let x = &x[b * p.format.len()..(b + 1) * p.format.len()];
                for g in block_groups(p.format, row, b * p.format.bytes()) {
                    sum += group_dot(&g, x);
                }
            }
            sum
        })
        .collect();

    assert_eq!(y_ref.len(), y_fused.len());
    for (i, (a, b)) in y_ref.iter().zip(y_fused.iter()).enumerate() {
        assert!(a.is_finite() && b.is_finite(), "{dtype:?} out[{i}]: a={a} b={b}");
        let scale = a.abs().max(b.abs()).max(1.0);
        let rel = (a - b).abs() / scale;
        assert!(rel < rel_eps, "{dtype:?} out[{i}]: {a} vs {b}, rel={rel:.3e} (eps={rel_eps:.0e})");
    }
}

const REL_EPS: f32 = 1e-5;

#[test]
fn q4_0_fused_matches_dequant_matmul() {
    assert_fused_matches_dequant(DType::Q4_0, 64, 128, REL_EPS);
}

#[test]
fn q8_0_fused_matches_dequant_matmul() {
    assert_fused_matches_dequant(DType::Q8_0, 64, 128, REL_EPS);
}

#[test]
fn q4_k_fused_matches_dequant_matmul() {
    assert_fused_matches_dequant(DType::Q4_K, 64, 512, REL_EPS);
}

#[test]
fn q6_k_fused_matches_dequant_matmul() {
    assert_fused_matches_dequant(DType::Q6_K, 64, 256, REL_EPS);
}

#[test]
fn canonical_q4_fused_matches_dequant_matmul() {
    assert_fused_matches_dequant(DType::Q4, 64, 128, REL_EPS);
}

#[test]
fn canonical_q8_fused_matches_dequant_matmul() {
    assert_fused_matches_dequant(DType::Q8, 64, 128, REL_EPS);
}
