//! Which kernel runs.

use vstd::prelude::*;

use crate::honeycrisp::decode::format_of;
use crate::honeycrisp::route::{matmul_kernel, normed_kernel};
use crate::honeycrisp::sources::{source_text, NormSources};
use crate::honeycrisp::steps::{cached_kernel, quant, Quant};
use crate::kernels::{elementwise, matmul, q4_matmul, q4k_matmul, q6k_matmul, q8_matmul, rope, silu};
use crate::plan::{ceil_div, Kernel};
use crate::tensor::DType;

verus! {

/// The kernel of a product reads the format of its weights. It caches rows of
/// up to 128 blocks, and only those.
pub proof fn products_read_their_format(q: Quant, blocks: u32)
    ensures
        format_of(cached_kernel(q, blocks)) == Some(q),
        blocks <= 128 ==> cached_kernel(q, blocks) is Q4 || cached_kernel(q, blocks) is Q8,
        blocks >= 129 ==> cached_kernel(q, blocks) is Q4Large || cached_kernel(q, blocks) is Q8Large,
        format_of(normed_kernel(q, blocks)) == Some(q),
        blocks <= 128 ==> normed_kernel(q, blocks) is Q4 || normed_kernel(q, blocks) is Q8,
        129 <= blocks <= 192 ==> normed_kernel(q, blocks) is Q4Large || normed_kernel(q, blocks)
            is Q8Mb192,
        193 <= blocks ==> normed_kernel(q, blocks) is Q4Large || normed_kernel(q, blocks)
            is Q8Large,
        quant(DType::Q4) == Some(Quant::Q4),
        quant(DType::Q8) == Some(Quant::Q8),
{
}

/// The GPU takes a product where the rows are whole blocks of one of four
/// formats. More than 1024 rows, or rows of more blocks than a kernel caches,
/// run without a cache.
pub proof fn products_of_whole_blocks_run(dtype: DType, n: usize, k: usize)
    ensures
        matmul_kernel(dtype, n, k) is Some <==> ((dtype is Q4_K || dtype is Q6_K) && exists|j: int|
            k == #[trigger] (256 * j)) || ((dtype is Q4 || dtype is Q8) && exists|j: int|
            k == #[trigger] (32 * j)),
        matmul_kernel(dtype, n, k) matches Some(m) ==> match dtype {
            DType::Q4_K => m.kernel is Q4k && m.block == 256 && m.rows_per_group == 64 && m.threads
                == 64,
            DType::Q6_K => m.kernel is Q6k && m.block == 256 && m.rows_per_group == 64 && m.threads
                == 64,
            DType::Q4 => {
                &&& m.kernel is Q4 <==> n < 1025 && k < 32 * 129
                &&& m.kernel is Q4Large <==> n > 1024 || k >= 32 * 129
                &&& m.block == 32 && m.rows_per_group == 16 && m.threads == 512
            },
            _ => {
                &&& m.kernel is Q8 <==> n < 1025 && k < 32 * 129
                &&& m.kernel is Q8Mb192 <==> n < 1025 && 32 * 129 <= k < 32 * 193
                &&& m.kernel is Q8Large <==> n > 1024 || k >= 32 * 193
                &&& m.block == 32 && m.rows_per_group == 16 && m.threads == 512
            },
        },
{
    if k % 256 == 0 {
        assert(k == 256 * (k as int / 256));
    }
    if k % 32 == 0 {
        assert(k == 32 * (k as int / 32));
    }
}

/// As many groups of `per` as hold `n` items: the last of them holds an item.
pub proof fn groups_just_hold(n: nat, per: nat)
    requires
        per > 0,
    ensures
        n <= ceil_div(n, per) * per < n + per,
{
    crate::laws::decode::lemma_hold(n, per);
    let g = ceil_div(n, per) as int;
    assert((g - 1) * per == g * per - per) by (nonlinear_arith);
    assert(g == 0 ==> g * per == 0) by (nonlinear_arith);
}

/// The text that every kernel of the start is compiled from: the one for its
/// format and its task, with the cache that its name says.
pub proof fn kernels_are_compiled_from_their_texts(norms: NormSources)
    ensures
        source_text(Kernel::Matmul, norms) == matmul::MSL@,
        source_text(Kernel::RmsNorm, norms) == norms.rms_norm@,
        source_text(Kernel::Silu, norms) == silu::MSL@,
        source_text(Kernel::Scale, norms) == silu::MSL_SCALE@,
        source_text(Kernel::Q4k, norms) == q4k_matmul::MSL@,
        source_text(Kernel::Q6k, norms) == q6k_matmul::MSL@,
        source_text(Kernel::Q8, norms) == q8_matmul::msl_mb_text(128),
        source_text(Kernel::Q4, norms) == q4_matmul::msl_mb_text(128),
        source_text(Kernel::Add, norms) == elementwise::ADD_MSL@,
        source_text(Kernel::SiluMul, norms) == elementwise::SILU_MUL_MSL@,
        source_text(Kernel::Rope, norms) == rope::MSL@,
        source_text(Kernel::Q4Dual, norms) == q4_matmul::msl_dual_mb_text(128),
        source_text(Kernel::Q8Dual, norms) == q8_matmul::msl_dual_mb_text(128),
        source_text(Kernel::Q4Gus, norms) == q4_matmul::msl_gus_mb_text(128),
        source_text(Kernel::Q8Gus, norms) == q8_matmul::msl_gus_mb_text(128),
        source_text(Kernel::QkRope, norms) == rope::MSL_QK@,
        source_text(Kernel::QkNorm, norms) == norms.qk_norm@,
        source_text(Kernel::QkNormRope, norms) == rope::MSL_QK_NORM_ROPE@,
        source_text(Kernel::Q4Qkv, norms) == q4_matmul::MSL_QKV@,
        source_text(Kernel::Q8Qkv, norms) == q8_matmul::MSL_QKV@,
        source_text(Kernel::Q4Res, norms) == q4_matmul::msl_res_mb_text(128),
        source_text(Kernel::Q8Res, norms) == q8_matmul::msl_res_mb_text(128),
        source_text(Kernel::Q4Mb32, norms) == q4_matmul::msl_mb_text(32),
        source_text(Kernel::Q8Mb32, norms) == q8_matmul::msl_mb_text(32),
        source_text(Kernel::Q4DualMb32, norms) == q4_matmul::msl_dual_mb_text(32),
        source_text(Kernel::Q8DualMb32, norms) == q8_matmul::msl_dual_mb_text(32),
        source_text(Kernel::Q4GusMb32, norms) == q4_matmul::msl_gus_mb_text(32),
        source_text(Kernel::Q8GusMb32, norms) == q8_matmul::msl_gus_mb_text(32),
        source_text(Kernel::Q4ResMb64, norms) == q4_matmul::msl_res_mb_text(64),
        source_text(Kernel::Q8ResMb64, norms) == q8_matmul::msl_res_mb_text(64),
        source_text(Kernel::Q4ResMb96, norms) == q4_matmul::msl_res_mb_text(96),
        source_text(Kernel::Q8ResMb96, norms) == q8_matmul::msl_res_mb_text(96),
        source_text(Kernel::Q4GusNrmMb32, norms) == q4_matmul::msl_gus_nrm_mb_text(32),
        source_text(Kernel::Q8GusNrmMb32, norms) == q8_matmul::msl_gus_nrm_mb_text(32),
        source_text(Kernel::Q4NrmMb32, norms) == q4_matmul::msl_nrm_mb_text(32),
        source_text(Kernel::Q8NrmMb32, norms) == q8_matmul::msl_nrm_mb_text(32),
        source_text(Kernel::Q4DualNrmMb32, norms) == q4_matmul::msl_dual_nrm_mb_text(32),
        source_text(Kernel::Q8DualNrmMb32, norms) == q8_matmul::msl_dual_nrm_mb_text(32),
        source_text(Kernel::Q8Large, norms) == q8_matmul::MSL_LARGE@,
        source_text(Kernel::Q8LargeNrm, norms) == q8_matmul::MSL_LARGE_NRM@,
        source_text(Kernel::Q8LargeGusNrm, norms) == q8_matmul::MSL_LARGE_GUS_NRM@,
        source_text(Kernel::Q8LargeRes, norms) == q8_matmul::MSL_LARGE_RES@,
        source_text(Kernel::Q8NrmMb64, norms) == q8_matmul::msl_nrm_mb_text(64),
        source_text(Kernel::Q8DualNrmMb64, norms) == q8_matmul::msl_dual_nrm_mb_text(64),
        source_text(Kernel::Q8GusNrmMb64, norms) == q8_matmul::msl_gus_nrm_mb_text(64),
        source_text(Kernel::Q8GusNrmMb48, norms) == q8_matmul::msl_gus_nrm_mb_text(48),
        source_text(Kernel::Q8GusNrmMb64R4, norms) == q8_matmul::MSL_GUS_NRM_MB64_R4@,
        source_text(Kernel::Q4NrmMb64, norms) == q4_matmul::msl_nrm_mb_text(64),
        source_text(Kernel::Q4DualNrmMb64, norms) == q4_matmul::msl_dual_nrm_mb_text(64),
        source_text(Kernel::Q4GusNrmMb64, norms) == q4_matmul::msl_gus_nrm_mb_text(64),
        source_text(Kernel::Q4GusNrmMb48, norms) == q4_matmul::msl_gus_nrm_mb_text(48),
        source_text(Kernel::Q4Large, norms) == q4_matmul::MSL_LARGE@,
        source_text(Kernel::Q4LargeRes, norms) == q4_matmul::MSL_LARGE_RES@,
        source_text(Kernel::Q8Large4Nrm, norms) == q8_matmul::MSL_LARGE4_NRM@,
        source_text(Kernel::Q8Large4GusNrm, norms) == q8_matmul::MSL_LARGE4_GUS_NRM@,
        source_text(Kernel::Q8Large4GusNrmGelu, norms) == q8_matmul::MSL_LARGE4_GUS_NRM_GELU@,
        source_text(Kernel::Q8Large2Res, norms) == q8_matmul::MSL_LARGE2_RES@,
        source_text(Kernel::Q8Large4Res, norms) == q8_matmul::MSL_LARGE4_RES@,
        source_text(Kernel::Q8Large8Res, norms) == q8_matmul::MSL_LARGE8_RES@,
        source_text(Kernel::Q8Mbx16Res, norms) == q8_matmul::MSL_MBX16_RES@,
        source_text(Kernel::Q8Large4tRes, norms) == q8_matmul::MSL_LARGE4T_RES@,
        source_text(Kernel::Q8Large8tRes, norms) == q8_matmul::MSL_LARGE8T_RES@,
        source_text(Kernel::Q8Large16tRes, norms) == q8_matmul::MSL_LARGE16T_RES@,
        source_text(Kernel::Q8Mb192, norms) == q8_matmul::msl_mb_text(192),
{
}

} // verus!
