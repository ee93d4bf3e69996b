//! The models that the runtime is built for, and sizes for people to read.

use vstd::prelude::*;

use crate::text;

verus! {

/// What a model is for.
#[derive(Clone, Copy, Debug, PartialEq, Eq, Structural)]
pub enum Role {
    /// Always loaded; classifies queries.
    Router,
    /// Loaded on demand for one domain.
    Specialist,
    /// Loaded on demand for anything.
    General,
}

impl Role {
    /// The role's name.
    pub fn label(self) -> (name: &'static str)
        ensures
            name@ == match self {
                Role::Router => "router"@,
                Role::Specialist => "specialist"@,
                Role::General => "general"@,
            },
    {
        match self {
            Role::Router => "router",
            Role::Specialist => "specialist",
            Role::General => "general",
        }
    }
}

/// A model of the manifest.
#[derive(Clone, Copy, Debug)]
pub struct ModelSpec {
    /// Name on disk, without the suffix `.model`.
    pub name: &'static str,
    /// Repository of the base model.
    pub hf_repo: &'static str,
    /// Tag for comparison runs, where there is one.
    pub ollama_tag: Option<&'static str>,
    pub role: Role,
    /// Expected memory in megabytes, in 4-bit blocks.
    pub ram_mb: u32,
    pub notes: &'static str,
}

/// An optional tag as text.
pub open spec fn tag_text(tag: Option<&'static str>) -> Option<Seq<char>> {
    match tag {
        Some(t) => Some(t@),
        None => None,
    }
}

/// The entry has these contents.
pub open spec fn entry_is(
    m: ModelSpec,
    name: Seq<char>,
    hf_repo: Seq<char>,
    ollama_tag: Option<Seq<char>>,
    role: Role,
    ram_mb: u32,
    notes: Seq<char>,
) -> bool {
    &&& m.name@ == name
    &&& m.hf_repo@ == hf_repo
    &&& tag_text(m.ollama_tag) == ollama_tag
    &&& m.role == role
    &&& m.ram_mb == ram_mb
    &&& m.notes@ == notes
}

/// The four target models.
pub fn manifest() -> (models: Vec<ModelSpec>)
    ensures
        models@.len() == 4,
        entry_is(
            models@[0],
            "qwen3-0.6b-abl"@,
            "Qwen/Qwen3-0.6B"@,
            Some("qwen3:0.6b"@),
            Role::Router,
            350,
            "always on, classifies queries, 300+ tok/s target"@,
        ),
        entry_is(
            models@[1],
            "qwen2.5-coder-1.5b-abl"@,
            "Qwen/Qwen2.5-Coder-1.5B"@,
            Some("qwen2.5-coder:1.5b"@),
            Role::Specialist,
            1100,
            "code generation small, LlamaStyle attn_bias, 100+ tok/s target"@,
        ),
        entry_is(
            models@[2],
            "qwen2.5-coder-14b-abl"@,
            "Qwen/Qwen2.5-Coder-14B"@,
            Some("qwen2.5-coder:14b"@),
            Role::Specialist,
            9000,
            "code generation large, fused Q4_K matmul, 25+ tok/s target"@,
        ),
        entry_is(
            models@[3],
            "gemma-4-31b"@,
            "google/gemma-4-31B"@,
            None,
            Role::General,
            18000,
            "multimodal LlamaStyle+, 60 layers, 30+ tok/s target"@,
        ),
{
    vec![
        ModelSpec {
            name: "qwen3-0.6b-abl",
            hf_repo: "Qwen/Qwen3-0.6B",
            ollama_tag: Some("qwen3:0.6b"),
            role: Role::Router,
            ram_mb: 350,
            notes: "always on, classifies queries, 300+ tok/s target",
        },
        ModelSpec {
            name: "qwen2.5-coder-1.5b-abl",
            hf_repo: "Qwen/Qwen2.5-Coder-1.5B",
            ollama_tag: Some("qwen2.5-coder:1.5b"),
            role: Role::Specialist,
            ram_mb: 1100,
            notes: "code generation small, LlamaStyle attn_bias, 100+ tok/s target",
        },
        ModelSpec {
            name: "qwen2.5-coder-14b-abl",
            hf_repo: "Qwen/Qwen2.5-Coder-14B",
            ollama_tag: Some("qwen2.5-coder:14b"),
            role: Role::Specialist,
            ram_mb: 9000,
            notes: "code generation large, fused Q4_K matmul, 25+ tok/s target",
        },
        ModelSpec {
            name: "gemma-4-31b",
            hf_repo: "google/gemma-4-31B",
            ollama_tag: None,
            role: Role::General,
            ram_mb: 18000,
            notes: "multimodal LlamaStyle+, 60 layers, 30+ tok/s target",
        },
    ]
}

/// `n / d` to the nearest integer, halves to the even one.
pub open spec fn nearest(n: nat, d: nat) -> nat
    recommends
        d > 0,
{
    let q = n / d;
    let r = n % d;
    if 2 * r > d || (2 * r == d && q % 2 == 1) {
        q + 1
    } else {
        q
    }
}

/// The distance between neighbouring double-precision floats at `n`, for
/// whole `n`; one where every whole number is a float.
pub open spec fn double_spacing(n: nat) -> nat
    decreases n,
{
    if n < 0x20_0000_0000_0000 {
        1
    } else {
        2 * double_spacing(n / 2)
    }
}

/// The double-precision float that is nearest to `n`.
pub open spec fn nearest_double(n: nat) -> nat {
    nearest(n, double_spacing(n)) * double_spacing(n)
}

/// A byte count for people to read: gigabytes with one decimal, rounded;
/// megabytes and kilobytes as whole numbers, cut off.
pub open spec fn size_text(bytes: nat) -> Seq<char> {
    if bytes >= 0x4000_0000 {
        let tenths = nearest(nearest_double(bytes) * 10, 0x4000_0000);
        text::decimal(tenths / 10) + "."@ + text::decimal(tenths % 10) + "G"@
    } else if bytes >= 0x10_0000 {
        text::decimal(bytes / 0x10_0000) + "M"@
    } else if bytes >= 0x400 {
        text::decimal(bytes / 0x400) + "K"@
    } else {
        text::decimal(bytes) + "B"@
    }
}

fn nearest_of(n: u128, d: u128) -> (r: u128)
    requires
        d > 0,
        n < 0x1_0000_0000_0000_0000_0000_0000_0000,
        d < 0x1_0000_0000_0000_0000_0000_0000_0000,
    ensures
        r == nearest(n as nat, d as nat),
        r <= n / d + 1,
{
    let q: u128 = n / d;
    let rest: u128 = n % d;
    assert(q <= n) by (nonlinear_arith)
        requires
            q == n / d,
            d > 0,
    ;
    if 2 * rest > d || (2 * rest == d && q % 2 == 1) {
        q + 1
    } else {
        q
    }
}

proof fn lemma_spacing(n: nat)
    ensures
        1 <= double_spacing(n),
        n < 0x1_0000_0000_0000_0000 ==> double_spacing(n) <= 2048,
    decreases n,
{
    if n >= 0x20_0000_0000_0000 {
        lemma_spacing(n / 2);
        reveal_with_fuel(double_spacing, 13);
    }
}

fn spacing(n: u64) -> (s: u64)
    ensures
        s == double_spacing(n as nat),
        1 <= s <= 2048,
    decreases n,
{
    proof {
        lemma_spacing(n as nat);
    }
    if n < 0x20_0000_0000_0000 {
        1
    } else {
        2 * spacing(n / 2)
    }
}

/// A byte count for people to read.
pub fn format_size(bytes: u64) -> (s: String)
    ensures
        s@ == size_text(bytes as nat),
{
    if bytes >= 0x4000_0000 {
        let step: u64 = spacing(bytes);
        let whole: u128 = nearest_of(bytes as u128, step as u128);
        assert(bytes as u128 / step as u128 <= bytes) by (nonlinear_arith)
            requires
                step >= 1,
        ;
        assert(whole * step <= (bytes + 1) * 2048) by (nonlinear_arith)
            requires
                0 <= whole <= bytes + 1,
                0 <= step <= 2048,
        ;
        assert(0 <= whole * step) by (nonlinear_arith)
            requires
                0 <= whole,
                0 <= step,
        ;
        let double: u128 = whole * step as u128;
        let tenths: u128 = nearest_of(double * 10, 0x4000_0000);
        let mut s = text::decimal_u64((tenths / 10) as u64);
        s.append(".");
        s.append(text::decimal_u64((tenths % 10) as u64).as_str());
        s.append("G");
        s
    } else if bytes >= 0x10_0000 {
        let mut s = text::decimal_u64(bytes / 0x10_0000);
        s.append("M");
        s
    } else if bytes >= 0x400 {
        let mut s = text::decimal_u64(bytes / 0x400);
        s.append("K");
        s
    } else {
        let mut s = text::decimal_u64(bytes);
        s.append("B");
        s
    }
}

} // verus!
