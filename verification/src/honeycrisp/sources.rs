//! The sources of the kernels, in the order in which they are compiled.

use vstd::prelude::*;

use crate::honeycrisp::attention_state::Geometry;
use crate::kernels::cache::{cache_of, declares_cache, sized_by_text, source_declares_its_cache};
use crate::kernels::{
    attention, elementwise, matmul, q4_matmul, q4k_matmul, q6k_matmul, q8_matmul, rope, silu,
};
use crate::plan::Kernel;

verus! {

/// The sources of the kernels that are written elsewhere: the norm over the
/// last dimension, and the norm of query and key heads.
#[derive(Debug, PartialEq, Eq)]
pub struct NormSources {
    pub rms_norm: String,
    pub qk_norm: String,
}

/// A kernel and its source.
#[derive(Debug, PartialEq, Eq)]
pub struct KernelSource {
    pub kernel: Kernel,
    pub source: String,
}

/// The kernels that are compiled when the backend starts, in order.
pub open spec fn start_order() -> Seq<Kernel> {
    seq![
        Kernel::Matmul,
        Kernel::RmsNorm,
        Kernel::Silu,
        Kernel::Scale,
        Kernel::Q4k,
        Kernel::Q6k,
        Kernel::Q8,
        Kernel::Q4,
        Kernel::Add,
        Kernel::SiluMul,
        Kernel::Rope,
        Kernel::Q4Dual,
        Kernel::Q8Dual,
        Kernel::Q4Gus,
        Kernel::Q8Gus,
        Kernel::QkRope,
        Kernel::QkNorm,
        Kernel::QkNormRope,
        Kernel::Q4Qkv,
        Kernel::Q8Qkv,
        Kernel::Q4Res,
        Kernel::Q8Res,
        Kernel::Q4Mb32,
        Kernel::Q8Mb32,
        Kernel::Q4DualMb32,
        Kernel::Q8DualMb32,
        Kernel::Q4GusMb32,
        Kernel::Q8GusMb32,
        Kernel::Q4ResMb64,
        Kernel::Q8ResMb64,
        Kernel::Q4ResMb96,
        Kernel::Q8ResMb96,
        Kernel::Q4GusNrmMb32,
        Kernel::Q8GusNrmMb32,
        Kernel::Q4NrmMb32,
        Kernel::Q8NrmMb32,
        Kernel::Q4DualNrmMb32,
        Kernel::Q8DualNrmMb32,
        Kernel::Q8Large,
        Kernel::Q8LargeNrm,
        Kernel::Q8LargeGusNrm,
        Kernel::Q8LargeRes,
        Kernel::Q8NrmMb64,
        Kernel::Q8DualNrmMb64,
        Kernel::Q8GusNrmMb64,
        Kernel::Q8GusNrmMb48,
        Kernel::Q8GusNrmMb64R4,
        Kernel::Q4NrmMb64,
        Kernel::Q4DualNrmMb64,
        Kernel::Q4GusNrmMb64,
        Kernel::Q4GusNrmMb48,
        Kernel::Q4Large,
        Kernel::Q4LargeRes,
        Kernel::Q8Large4Nrm,
        Kernel::Q8Large4GusNrm,
        Kernel::Q8Large4GusNrmGelu,
        Kernel::Q8Large2Res,
        Kernel::Q8Large4Res,
        Kernel::Q8Large8Res,
        Kernel::Q8Mbx16Res,
        Kernel::Q8Large4tRes,
        Kernel::Q8Large8tRes,
        Kernel::Q8Large16tRes,
        Kernel::Q8Mb192,
    ]
}

/// The source of a kernel that does not depend on a geometry.
pub open spec fn source_text(k: Kernel, norms: NormSources) -> Seq<char> {
    match k {
        Kernel::Matmul => matmul::MSL@,
        Kernel::RmsNorm => norms.rms_norm@,
        Kernel::Silu => silu::MSL@,
        Kernel::Scale => silu::MSL_SCALE@,
        Kernel::Q4k => q4k_matmul::MSL@,
        Kernel::Q6k => q6k_matmul::MSL@,
        Kernel::Q8 => q8_matmul::msl_mb_text(128),
        Kernel::Q4 => q4_matmul::msl_mb_text(128),
        Kernel::Add => elementwise::ADD_MSL@,
        Kernel::SiluMul => elementwise::SILU_MUL_MSL@,
        Kernel::Rope => rope::MSL@,
        Kernel::Q4Dual => q4_matmul::msl_dual_mb_text(128),
        Kernel::Q8Dual => q8_matmul::msl_dual_mb_text(128),
        Kernel::Q4Gus => q4_matmul::msl_gus_mb_text(128),
        Kernel::Q8Gus => q8_matmul::msl_gus_mb_text(128),
        Kernel::QkRope => rope::MSL_QK@,
        Kernel::QkNorm => norms.qk_norm@,
        Kernel::QkNormRope => rope::MSL_QK_NORM_ROPE@,
        Kernel::Q4Qkv => q4_matmul::MSL_QKV@,
        Kernel::Q8Qkv => q8_matmul::MSL_QKV@,
        Kernel::Q4Res => q4_matmul::msl_res_mb_text(128),
        Kernel::Q8Res => q8_matmul::msl_res_mb_text(128),
        Kernel::Q4Mb32 => q4_matmul::msl_mb_text(32),
        Kernel::Q8Mb32 => q8_matmul::msl_mb_text(32),
        Kernel::Q4DualMb32 => q4_matmul::msl_dual_mb_text(32),
        Kernel::Q8DualMb32 => q8_matmul::msl_dual_mb_text(32),
        Kernel::Q4GusMb32 => q4_matmul::msl_gus_mb_text(32),
        Kernel::Q8GusMb32 => q8_matmul::msl_gus_mb_text(32),
        Kernel::Q4ResMb64 => q4_matmul::msl_res_mb_text(64),
        Kernel::Q8ResMb64 => q8_matmul::msl_res_mb_text(64),
        Kernel::Q4ResMb96 => q4_matmul::msl_res_mb_text(96),
        Kernel::Q8ResMb96 => q8_matmul::msl_res_mb_text(96),
        Kernel::Q4GusNrmMb32 => q4_matmul::msl_gus_nrm_mb_text(32),
        Kernel::Q8GusNrmMb32 => q8_matmul::msl_gus_nrm_mb_text(32),
        Kernel::Q4NrmMb32 => q4_matmul::msl_nrm_mb_text(32),
        Kernel::Q8NrmMb32 => q8_matmul::msl_nrm_mb_text(32),
        Kernel::Q4DualNrmMb32 => q4_matmul::msl_dual_nrm_mb_text(32),
        Kernel::Q8DualNrmMb32 => q8_matmul::msl_dual_nrm_mb_text(32),
        Kernel::Q8Large => q8_matmul::MSL_LARGE@,
        Kernel::Q8LargeNrm => q8_matmul::MSL_LARGE_NRM@,
        Kernel::Q8LargeGusNrm => q8_matmul::MSL_LARGE_GUS_NRM@,
        Kernel::Q8LargeRes => q8_matmul::MSL_LARGE_RES@,
        Kernel::Q8NrmMb64 => q8_matmul::msl_nrm_mb_text(64),
        Kernel::Q8DualNrmMb64 => q8_matmul::msl_dual_nrm_mb_text(64),
        Kernel::Q8GusNrmMb64 => q8_matmul::msl_gus_nrm_mb_text(64),
        Kernel::Q8GusNrmMb48 => q8_matmul::msl_gus_nrm_mb_text(48),
        Kernel::Q8GusNrmMb64R4 => q8_matmul::MSL_GUS_NRM_MB64_R4@,
        Kernel::Q4NrmMb64 => q4_matmul::msl_nrm_mb_text(64),
        Kernel::Q4DualNrmMb64 => q4_matmul::msl_dual_nrm_mb_text(64),
        Kernel::Q4GusNrmMb64 => q4_matmul::msl_gus_nrm_mb_text(64),
        Kernel::Q4GusNrmMb48 => q4_matmul::msl_gus_nrm_mb_text(48),
        Kernel::Q4Large => q4_matmul::MSL_LARGE@,
        Kernel::Q4LargeRes => q4_matmul::MSL_LARGE_RES@,
        Kernel::Q8Large4Nrm => q8_matmul::MSL_LARGE4_NRM@,
        Kernel::Q8Large4GusNrm => q8_matmul::MSL_LARGE4_GUS_NRM@,
        Kernel::Q8Large4GusNrmGelu => q8_matmul::MSL_LARGE4_GUS_NRM_GELU@,
        Kernel::Q8Large2Res => q8_matmul::MSL_LARGE2_RES@,
        Kernel::Q8Large4Res => q8_matmul::MSL_LARGE4_RES@,
        Kernel::Q8Large8Res => q8_matmul::MSL_LARGE8_RES@,
        Kernel::Q8Mbx16Res => q8_matmul::MSL_MBX16_RES@,
        Kernel::Q8Large4tRes => q8_matmul::MSL_LARGE4T_RES@,
        Kernel::Q8Large8tRes => q8_matmul::MSL_LARGE8T_RES@,
        Kernel::Q8Large16tRes => q8_matmul::MSL_LARGE16T_RES@,
        Kernel::Q8Mb192 => q8_matmul::msl_mb_text(192),
        _ => Seq::empty(),
    }
}

/// The kernel is compiled when the backend starts.
pub open spec fn starts(k: Kernel) -> bool {
    !(k is Attn || k is KvAppend || k is KvAppendBoth || k is RopeKvAttn || k is GeometryQkNormRope)
}

/// The source of a kernel that does not depend on a geometry.
pub fn kernel_source(k: Kernel, norms: &NormSources) -> (s: String)
    requires
        starts(k),
    ensures
        s@ == source_text(k, *norms),
{
    match k {
        Kernel::Matmul => matmul::MSL.to_owned(),
        Kernel::RmsNorm => norms.rms_norm.as_str().to_owned(),
        Kernel::Silu => silu::MSL.to_owned(),
        Kernel::Scale => silu::MSL_SCALE.to_owned(),
        Kernel::Q4k => q4k_matmul::MSL.to_owned(),
        Kernel::Q6k => q6k_matmul::MSL.to_owned(),
        Kernel::Q8 => q8_matmul::msl(),
        Kernel::Q4 => q4_matmul::msl(),
        Kernel::Add => elementwise::ADD_MSL.to_owned(),
        Kernel::SiluMul => elementwise::SILU_MUL_MSL.to_owned(),
        Kernel::Rope => rope::MSL.to_owned(),
        Kernel::Q4Dual => q4_matmul::msl_dual(),
        Kernel::Q8Dual => q8_matmul::msl_dual(),
        Kernel::Q4Gus => q4_matmul::msl_gus(),
        Kernel::Q8Gus => q8_matmul::msl_gus(),
        Kernel::QkRope => rope::MSL_QK.to_owned(),
        Kernel::QkNorm => norms.qk_norm.as_str().to_owned(),
        Kernel::QkNormRope => rope::MSL_QK_NORM_ROPE.to_owned(),
        Kernel::Q4Qkv => q4_matmul::MSL_QKV.to_owned(),
        Kernel::Q8Qkv => q8_matmul::MSL_QKV.to_owned(),
        Kernel::Q4Res => q4_matmul::msl_res(),
        Kernel::Q8Res => q8_matmul::msl_res(),
        Kernel::Q4Mb32 => q4_matmul::msl_mb(32),
        Kernel::Q8Mb32 => q8_matmul::msl_mb(32),
        Kernel::Q4DualMb32 => q4_matmul::msl_dual_mb(32),
        Kernel::Q8DualMb32 => q8_matmul::msl_dual_mb(32),
        Kernel::Q4GusMb32 => q4_matmul::msl_gus_mb(32),
        Kernel::Q8GusMb32 => q8_matmul::msl_gus_mb(32),
        Kernel::Q4ResMb64 => q4_matmul::msl_res_mb(64),
        Kernel::Q8ResMb64 => q8_matmul::msl_res_mb(64),
        Kernel::Q4ResMb96 => q4_matmul::msl_res_mb(96),
        Kernel::Q8ResMb96 => q8_matmul::msl_res_mb(96),
        Kernel::Q4GusNrmMb32 => q4_matmul::msl_gus_nrm_mb(32),
        Kernel::Q8GusNrmMb32 => q8_matmul::msl_gus_nrm_mb(32),
        Kernel::Q4NrmMb32 => q4_matmul::msl_nrm_mb(32),
        Kernel::Q8NrmMb32 => q8_matmul::msl_nrm_mb(32),
        Kernel::Q4DualNrmMb32 => q4_matmul::msl_dual_nrm_mb(32),
        Kernel::Q8DualNrmMb32 => q8_matmul::msl_dual_nrm_mb(32),
        Kernel::Q8Large => q8_matmul::MSL_LARGE.to_owned(),
        Kernel::Q8LargeNrm => q8_matmul::MSL_LARGE_NRM.to_owned(),
        Kernel::Q8LargeGusNrm => q8_matmul::MSL_LARGE_GUS_NRM.to_owned(),
        Kernel::Q8LargeRes => q8_matmul::MSL_LARGE_RES.to_owned(),
        Kernel::Q8NrmMb64 => q8_matmul::msl_nrm_mb(64),
        Kernel::Q8DualNrmMb64 => q8_matmul::msl_dual_nrm_mb(64),
        Kernel::Q8GusNrmMb64 => q8_matmul::msl_gus_nrm_mb(64),
        Kernel::Q8GusNrmMb48 => q8_matmul::msl_gus_nrm_mb(48),
        Kernel::Q8GusNrmMb64R4 => q8_matmul::MSL_GUS_NRM_MB64_R4.to_owned(),
        Kernel::Q4NrmMb64 => q4_matmul::msl_nrm_mb(64),
        Kernel::Q4DualNrmMb64 => q4_matmul::msl_dual_nrm_mb(64),
        Kernel::Q4GusNrmMb64 => q4_matmul::msl_gus_nrm_mb(64),
        Kernel::Q4GusNrmMb48 => q4_matmul::msl_gus_nrm_mb(48),
        Kernel::Q4Large => q4_matmul::MSL_LARGE.to_owned(),
        Kernel::Q4LargeRes => q4_matmul::MSL_LARGE_RES.to_owned(),
        Kernel::Q8Large4Nrm => q8_matmul::MSL_LARGE4_NRM.to_owned(),
        Kernel::Q8Large4GusNrm => q8_matmul::MSL_LARGE4_GUS_NRM.to_owned(),
        Kernel::Q8Large4GusNrmGelu => q8_matmul::MSL_LARGE4_GUS_NRM_GELU.to_owned(),
        Kernel::Q8Large2Res => q8_matmul::MSL_LARGE2_RES.to_owned(),
        Kernel::Q8Large4Res => q8_matmul::MSL_LARGE4_RES.to_owned(),
        Kernel::Q8Large8Res => q8_matmul::MSL_LARGE8_RES.to_owned(),
        Kernel::Q8Mbx16Res => q8_matmul::MSL_MBX16_RES.to_owned(),
        Kernel::Q8Large4tRes => q8_matmul::MSL_LARGE4T_RES.to_owned(),
        Kernel::Q8Large8tRes => q8_matmul::MSL_LARGE8T_RES.to_owned(),
        Kernel::Q8Large16tRes => q8_matmul::MSL_LARGE16T_RES.to_owned(),
        Kernel::Q8Mb192 => q8_matmul::msl_mb(192),
        _ => String::new(),
    }
}

/// The source of a kernel with a cache declares that cache.
pub proof fn kernels_declare_their_caches(k: Kernel, norms: NormSources)
    requires
        sized_by_text(k),
    ensures
        declares_cache(source_text(k, norms), cache_of(k)->0),
{
    match k {
        Kernel::Q8 => source_declares_its_cache(q8_matmul::MSL_HEAD@, q8_matmul::MSL_TAIL@, 128),
        Kernel::Q4 => source_declares_its_cache(q4_matmul::MSL_HEAD@, q4_matmul::MSL_TAIL@, 128),
        Kernel::Q4Dual => source_declares_its_cache(q4_matmul::MSL_HEAD@, q4_matmul::MSL_DUAL_TAIL@, 128),
        Kernel::Q8Dual => source_declares_its_cache(q8_matmul::MSL_HEAD@, q8_matmul::MSL_DUAL_TAIL@, 128),
        Kernel::Q4Gus => source_declares_its_cache(q4_matmul::MSL_HEAD@, q4_matmul::MSL_GUS_TAIL@, 128),
        Kernel::Q8Gus => source_declares_its_cache(q8_matmul::MSL_HEAD@, q8_matmul::MSL_GUS_TAIL@, 128),
        Kernel::Q4Res => source_declares_its_cache(q4_matmul::MSL_HEAD@, q4_matmul::MSL_RES_TAIL@, 128),
        Kernel::Q8Res => source_declares_its_cache(q8_matmul::MSL_HEAD@, q8_matmul::MSL_RES_TAIL@, 128),
        Kernel::Q4Mb32 => source_declares_its_cache(q4_matmul::MSL_HEAD@, q4_matmul::MSL_TAIL@, 32),
        Kernel::Q8Mb32 => source_declares_its_cache(q8_matmul::MSL_HEAD@, q8_matmul::MSL_TAIL@, 32),
        Kernel::Q4DualMb32 => source_declares_its_cache(q4_matmul::MSL_HEAD@, q4_matmul::MSL_DUAL_TAIL@, 32),
        Kernel::Q8DualMb32 => source_declares_its_cache(q8_matmul::MSL_HEAD@, q8_matmul::MSL_DUAL_TAIL@, 32),
        Kernel::Q4GusMb32 => source_declares_its_cache(q4_matmul::MSL_HEAD@, q4_matmul::MSL_GUS_TAIL@, 32),
        Kernel::Q8GusMb32 => source_declares_its_cache(q8_matmul::MSL_HEAD@, q8_matmul::MSL_GUS_TAIL@, 32),
        Kernel::Q4ResMb64 => source_declares_its_cache(q4_matmul::MSL_HEAD@, q4_matmul::MSL_RES_TAIL@, 64),
        Kernel::Q8ResMb64 => source_declares_its_cache(q8_matmul::MSL_HEAD@, q8_matmul::MSL_RES_TAIL@, 64),
        Kernel::Q4ResMb96 => source_declares_its_cache(q4_matmul::MSL_HEAD@, q4_matmul::MSL_RES_TAIL@, 96),
        Kernel::Q8ResMb96 => source_declares_its_cache(q8_matmul::MSL_HEAD@, q8_matmul::MSL_RES_TAIL@, 96),
        Kernel::Q4GusNrmMb32 => source_declares_its_cache(q4_matmul::MSL_NRM_HEAD@, q4_matmul::MSL_GUS_NRM_TAIL@, 32),
        Kernel::Q8GusNrmMb32 => source_declares_its_cache(q8_matmul::MSL_NRM_HEAD@, q8_matmul::MSL_GUS_NRM_TAIL@, 32),
        Kernel::Q4NrmMb32 => source_declares_its_cache(q4_matmul::MSL_NRM_HEAD@, q4_matmul::MSL_NRM_TAIL@, 32),
        Kernel::Q8NrmMb32 => source_declares_its_cache(q8_matmul::MSL_NRM_HEAD@, q8_matmul::MSL_NRM_TAIL@, 32),
        Kernel::Q4DualNrmMb32 => source_declares_its_cache(q4_matmul::MSL_NRM_HEAD@, q4_matmul::MSL_DUAL_NRM_TAIL@, 32),
        Kernel::Q8DualNrmMb32 => source_declares_its_cache(q8_matmul::MSL_NRM_HEAD@, q8_matmul::MSL_DUAL_NRM_TAIL@, 32),
        Kernel::Q8NrmMb64 => source_declares_its_cache(q8_matmul::MSL_NRM_HEAD@, q8_matmul::MSL_NRM_TAIL@, 64),
        Kernel::Q8DualNrmMb64 => source_declares_its_cache(q8_matmul::MSL_NRM_HEAD@, q8_matmul::MSL_DUAL_NRM_TAIL@, 64),
        Kernel::Q8GusNrmMb64 => source_declares_its_cache(q8_matmul::MSL_NRM_HEAD@, q8_matmul::MSL_GUS_NRM_TAIL@, 64),
        Kernel::Q8GusNrmMb48 => source_declares_its_cache(q8_matmul::MSL_NRM_HEAD@, q8_matmul::MSL_GUS_NRM_TAIL@, 48),
        Kernel::Q4NrmMb64 => source_declares_its_cache(q4_matmul::MSL_NRM_HEAD@, q4_matmul::MSL_NRM_TAIL@, 64),
        Kernel::Q4DualNrmMb64 => source_declares_its_cache(q4_matmul::MSL_NRM_HEAD@, q4_matmul::MSL_DUAL_NRM_TAIL@, 64),
        Kernel::Q4GusNrmMb64 => source_declares_its_cache(q4_matmul::MSL_NRM_HEAD@, q4_matmul::MSL_GUS_NRM_TAIL@, 64),
        Kernel::Q4GusNrmMb48 => source_declares_its_cache(q4_matmul::MSL_NRM_HEAD@, q4_matmul::MSL_GUS_NRM_TAIL@, 48),
        Kernel::Q8Mb192 => source_declares_its_cache(q8_matmul::MSL_HEAD@, q8_matmul::MSL_TAIL@, 192),
        _ => {},
    }
}

/// The sources of the kernels that are compiled when the backend starts, in
/// order.
pub fn start_sources(norms: &NormSources) -> (v: Vec<KernelSource>)
    ensures
        v@.len() == start_order().len(),
        forall|i: int|
            0 <= i < v@.len() ==> (#[trigger] v@[i]).kernel == start_order()[i] && v@[i].source@
                == source_text(start_order()[i], *norms),
{
    let order = start_kernels();
    let mut v: Vec<KernelSource> = Vec::new();
    let mut i: usize = 0;
    while i < order.len()
        invariant
            i <= order@.len(),
            order@ == start_order(),
            forall|k: int| 0 <= k < order@.len() ==> starts(#[trigger] order@[k]),
            v@.len() == i,
            forall|k: int|
                0 <= k < i ==> (#[trigger] v@[k]).kernel == start_order()[k] && v@[k].source@
                    == source_text(start_order()[k], *norms),
        decreases order@.len() - i,
    {
        assert(starts(order@[i as int]));
        let kernel = order[i];
        v.push(KernelSource { kernel, source: kernel_source(kernel, norms) });
        i = i + 1;
    }
    v
}

#[verifier::rlimit(40)]
fn start_kernels() -> (v: Vec<Kernel>)
    ensures
        v@ == start_order(),
        forall|k: int| 0 <= k < v@.len() ==> starts(#[trigger] v@[k]),
{
    let v = vec![
        Kernel::Matmul,
        Kernel::RmsNorm,
        Kernel::Silu,
        Kernel::Scale,
        Kernel::Q4k,
        Kernel::Q6k,
        Kernel::Q8,
        Kernel::Q4,
        Kernel::Add,
        Kernel::SiluMul,
        Kernel::Rope,
        Kernel::Q4Dual,
        Kernel::Q8Dual,
        Kernel::Q4Gus,
        Kernel::Q8Gus,
        Kernel::QkRope,
        Kernel::QkNorm,
        Kernel::QkNormRope,
        Kernel::Q4Qkv,
        Kernel::Q8Qkv,
        Kernel::Q4Res,
        Kernel::Q8Res,
        Kernel::Q4Mb32,
        Kernel::Q8Mb32,
        Kernel::Q4DualMb32,
        Kernel::Q8DualMb32,
        Kernel::Q4GusMb32,
        Kernel::Q8GusMb32,
        Kernel::Q4ResMb64,
        Kernel::Q8ResMb64,
        Kernel::Q4ResMb96,
        Kernel::Q8ResMb96,
        Kernel::Q4GusNrmMb32,
        Kernel::Q8GusNrmMb32,
        Kernel::Q4NrmMb32,
        Kernel::Q8NrmMb32,
        Kernel::Q4DualNrmMb32,
        Kernel::Q8DualNrmMb32,
        Kernel::Q8Large,
        Kernel::Q8LargeNrm,
        Kernel::Q8LargeGusNrm,
        Kernel::Q8LargeRes,
        Kernel::Q8NrmMb64,
        Kernel::Q8DualNrmMb64,
        Kernel::Q8GusNrmMb64,
        Kernel::Q8GusNrmMb48,
        Kernel::Q8GusNrmMb64R4,
        Kernel::Q4NrmMb64,
        Kernel::Q4DualNrmMb64,
        Kernel::Q4GusNrmMb64,
        Kernel::Q4GusNrmMb48,
        Kernel::Q4Large,
        Kernel::Q4LargeRes,
        Kernel::Q8Large4Nrm,
        Kernel::Q8Large4GusNrm,
        Kernel::Q8Large4GusNrmGelu,
        Kernel::Q8Large2Res,
        Kernel::Q8Large4Res,
        Kernel::Q8Large8Res,
        Kernel::Q8Mbx16Res,
        Kernel::Q8Large4tRes,
        Kernel::Q8Large8tRes,
        Kernel::Q8Large16tRes,
        Kernel::Q8Mb192,
    ];
    assert(v@ =~= start_order());
    v
}

/// The kernels that are compiled for a geometry, in order.
pub open spec fn geometry_order() -> Seq<Kernel> {
    seq![
        Kernel::Attn,
        Kernel::KvAppend,
        Kernel::KvAppendBoth,
        Kernel::RopeKvAttn,
        Kernel::GeometryQkNormRope,
    ]
}

/// The source of a kernel for a geometry.
pub open spec fn geometry_text(k: Kernel, g: Geometry) -> Seq<char> {
    match k {
        Kernel::Attn => attention::msl_for_text(
            g.num_heads as nat,
            g.kv_heads as nat,
            g.head_dim as nat,
            g.max_seq as nat,
        ),
        Kernel::KvAppend => attention::kv_append_msl_for_text(
            g.kv_heads as nat,
            g.head_dim as nat,
            g.max_seq as nat,
        ),
        Kernel::KvAppendBoth => attention::kv_append_both_msl_for_text(
            g.kv_heads as nat,
            g.head_dim as nat,
            g.max_seq as nat,
        ),
        Kernel::RopeKvAttn => attention::fused_rope_kv_attn_msl_for_text(
            g.num_heads as nat,
            g.kv_heads as nat,
            g.max_seq as nat,
        ),
        Kernel::GeometryQkNormRope => rope::msl_qk_norm_rope_for_text(g.head_dim as nat),
        _ => Seq::empty(),
    }
}

/// The sources of the kernels of a geometry, in the order in which they are
/// compiled.
pub fn geometry_sources(g: &Geometry) -> (v: Vec<KernelSource>)
    ensures
        v@.len() == 5,
        forall|i: int|
            0 <= i < 5 ==> (#[trigger] v@[i]).kernel == geometry_order()[i] && v@[i].source@
                == geometry_text(geometry_order()[i], *g),
{
    let heads: usize = g.num_heads as usize;
    let kv: usize = g.kv_heads as usize;
    let width: usize = g.head_dim as usize;
    let seq: usize = g.max_seq as usize;
    let mut v: Vec<KernelSource> = Vec::new();
    v.push(
        KernelSource { kernel: Kernel::Attn, source: attention::msl_for(heads, kv, width, seq) },
    );
    v.push(
        KernelSource {
            kernel: Kernel::KvAppend,
            source: attention::kv_append_msl_for(kv, width, seq),
        },
    );
    v.push(
        KernelSource {
            kernel: Kernel::KvAppendBoth,
            source: attention::kv_append_both_msl_for(kv, width, seq),
        },
    );
    v.push(
        KernelSource {
            kernel: Kernel::RopeKvAttn,
            source: attention::fused_rope_kv_attn_msl_for(heads, kv, seq),
        },
    );
    v.push(
        KernelSource {
            kernel: Kernel::GeometryQkNormRope,
            source: rope::msl_qk_norm_rope_for(width),
        },
    );
    v
}

/// Every kernel that a plan can launch is compiled: those without a geometry
/// when the backend starts, the others with their geometry.
pub proof fn every_kernel_is_compiled(k: Kernel)
    ensures
        starts(k) ==> start_order().contains(k),
        !starts(k) ==> geometry_order().contains(k),
{
    assert(start_order()[0] == Kernel::Matmul);
    assert(start_order()[1] == Kernel::RmsNorm);
    assert(start_order()[2] == Kernel::Silu);
    assert(start_order()[3] == Kernel::Scale);
    assert(start_order()[4] == Kernel::Q4k);
    assert(start_order()[5] == Kernel::Q6k);
    assert(start_order()[6] == Kernel::Q8);
    assert(start_order()[7] == Kernel::Q4);
    assert(start_order()[8] == Kernel::Add);
    assert(start_order()[9] == Kernel::SiluMul);
    assert(start_order()[10] == Kernel::Rope);
    assert(start_order()[11] == Kernel::Q4Dual);
    assert(start_order()[12] == Kernel::Q8Dual);
    assert(start_order()[13] == Kernel::Q4Gus);
    assert(start_order()[14] == Kernel::Q8Gus);
    assert(start_order()[15] == Kernel::QkRope);
    assert(start_order()[16] == Kernel::QkNorm);
    assert(start_order()[17] == Kernel::QkNormRope);
    assert(start_order()[18] == Kernel::Q4Qkv);
    assert(start_order()[19] == Kernel::Q8Qkv);
    assert(start_order()[20] == Kernel::Q4Res);
    assert(start_order()[21] == Kernel::Q8Res);
    assert(start_order()[22] == Kernel::Q4Mb32);
    assert(start_order()[23] == Kernel::Q8Mb32);
    assert(start_order()[24] == Kernel::Q4DualMb32);
    assert(start_order()[25] == Kernel::Q8DualMb32);
    assert(start_order()[26] == Kernel::Q4GusMb32);
    assert(start_order()[27] == Kernel::Q8GusMb32);
    assert(start_order()[28] == Kernel::Q4ResMb64);
    assert(start_order()[29] == Kernel::Q8ResMb64);
    assert(start_order()[30] == Kernel::Q4ResMb96);
    assert(start_order()[31] == Kernel::Q8ResMb96);
    assert(start_order()[32] == Kernel::Q4GusNrmMb32);
    assert(start_order()[33] == Kernel::Q8GusNrmMb32);
    assert(start_order()[34] == Kernel::Q4NrmMb32);
    assert(start_order()[35] == Kernel::Q8NrmMb32);
    assert(start_order()[36] == Kernel::Q4DualNrmMb32);
    assert(start_order()[37] == Kernel::Q8DualNrmMb32);
    assert(start_order()[38] == Kernel::Q8Large);
    assert(start_order()[39] == Kernel::Q8LargeNrm);
    assert(start_order()[40] == Kernel::Q8LargeGusNrm);
    assert(start_order()[41] == Kernel::Q8LargeRes);
    assert(start_order()[42] == Kernel::Q8NrmMb64);
    assert(start_order()[43] == Kernel::Q8DualNrmMb64);
    assert(start_order()[44] == Kernel::Q8GusNrmMb64);
    assert(start_order()[45] == Kernel::Q8GusNrmMb48);
    assert(start_order()[46] == Kernel::Q8GusNrmMb64R4);
    assert(start_order()[47] == Kernel::Q4NrmMb64);
    assert(start_order()[48] == Kernel::Q4DualNrmMb64);
    assert(start_order()[49] == Kernel::Q4GusNrmMb64);
    assert(start_order()[50] == Kernel::Q4GusNrmMb48);
    assert(start_order()[51] == Kernel::Q4Large);
    assert(start_order()[52] == Kernel::Q4LargeRes);
    assert(start_order()[53] == Kernel::Q8Large4Nrm);
    assert(start_order()[54] == Kernel::Q8Large4GusNrm);
    assert(start_order()[55] == Kernel::Q8Large4GusNrmGelu);
    assert(start_order()[56] == Kernel::Q8Large2Res);
    assert(start_order()[57] == Kernel::Q8Large4Res);
    assert(start_order()[58] == Kernel::Q8Large8Res);
    assert(start_order()[59] == Kernel::Q8Mbx16Res);
    assert(start_order()[60] == Kernel::Q8Large4tRes);
    assert(start_order()[61] == Kernel::Q8Large8tRes);
    assert(start_order()[62] == Kernel::Q8Large16tRes);
    assert(start_order()[63] == Kernel::Q8Mb192);
    assert(geometry_order()[0] == Kernel::Attn);
    assert(geometry_order()[1] == Kernel::KvAppend);
    assert(geometry_order()[2] == Kernel::KvAppendBoth);
    assert(geometry_order()[3] == Kernel::RopeKvAttn);
    assert(geometry_order()[4] == Kernel::GeometryQkNormRope);
}

} // verus!
