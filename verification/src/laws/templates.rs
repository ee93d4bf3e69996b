//! Kernels that are built for one geometry declare it.
//!
//! The characters of a literal are known only where the literal stands, so each
//! proof repeats the text that it is about.

use vstd::prelude::*;

use crate::honeycrisp::attention_state::Geometry;
use crate::honeycrisp::sources::geometry_text;
use crate::kernels::{attention, gated_delta, gated_delta_block, mrope, rope};
use crate::plan::Kernel;
use crate::text;
use crate::text::filled;

verus! {

/// The declaration of a constant: its name, and what it is.
pub open spec fn declaration(name: Seq<char>, value: Seq<char>) -> Seq<char> {
    seq![' '] + (name + (seq!['='] + (value + seq![';'])))
}

/// The text declares the constant.
pub open spec fn declares(t: Seq<char>, name: Seq<char>, value: Seq<char>) -> bool {
    text::holds(t, declaration(name, value))
}

/// A numeral, or the place for one, as the kernels write it.
pub open spec fn unsigned(s: Seq<char>) -> Seq<char> {
    seq![' '] + s + seq!['u']
}

/// A number as the kernels write it.
pub open spec fn number(n: nat) -> Seq<char> {
    unsigned(text::decimal(n))
}

/// Two lines in a row.
pub open spec fn double(s: Seq<char>, i: int) -> bool {
    s[i] == '_' && s[i + 1] == '_'
}

/// A name: no two lines in a row.
pub open spec fn is_name(s: Seq<char>) -> bool {
    forall|i: int| 0 <= i < s.len() - 1 ==> !#[trigger] double(s, i)
}

/// A place for a number: two lines in a row at both ends and nowhere else, and
/// no part of what stands around it.
pub open spec fn is_place(p: Seq<char>) -> bool {
    &&& p.len() >= 5
    &&& double(p, 0)
    &&& double(p, p.len() - 2)
    &&& forall|i: int| 0 < i < p.len() - 2 ==> !#[trigger] double(p, i)
    &&& forall|i: int|
        0 <= i < p.len() ==> #[trigger] p[i] != ' ' && p[i] != '=' && p[i] != ';' && p[i] != 'u'
}

proof fn lemma_name_apart(name: Seq<char>, p: Seq<char>)
    requires
        is_name(name),
        is_place(p),
    ensures
        !text::holds(name, p),
{
    assert forall|i: int| !#[trigger] text::stands_at(name, i, p) by {
        if text::stands_at(name, i, p) {
            let w = name.subrange(i, i + p.len());
            assert(w[0] == name[i] && w[1] == name[i + 1]);
            assert(double(name, i));
        }
    }
}

proof fn lemma_places_apart(q: Seq<char>, p: Seq<char>, n: nat)
    requires
        is_place(p),
        is_place(q),
        p != q,
    ensures
        filled(unsigned(q), p, n) == unsigned(q),
{
    let s = unsigned(q);
    assert forall|i: int| !#[trigger] text::stands_at(s, i, p) by {
        if text::stands_at(s, i, p) {
            let m = p.len() as int;
            let w = s.subrange(i, i + m);
            assert(w[0] == s[i] && w[1] == s[i + 1]);
            assert(w[m - 2] == s[i + m - 2] && w[m - 1] == s[i + m - 1]);
            assert(s[0] == ' ' && s[1 + q.len() as int] == 'u');
            assert(1 <= i && i + m - 1 <= q.len());
            assert(q[i - 1] == s[i] && q[i] == s[i + 1]);
            assert(q[i + m - 3] == s[i + m - 2] && q[i + m - 2] == s[i + m - 1]);
            assert(double(q, i - 1));
            assert(double(q, i + m - 3));
            assert(i == 1);
            assert(m == q.len());
            assert(p =~= q) by {
                assert forall|k: int| 0 <= k < m implies p[k] == q[k] by {
                    assert(w[k] == s[1 + k]);
                }
            }
        }
    }
    text::lemma_nothing_replaced(s, p, text::decimal(n));
}

proof fn lemma_fill(t: Seq<char>, name: Seq<char>, value: Seq<char>, p: Seq<char>, n: nat)
    requires
        declares(t, name, value),
        is_place(p),
        is_name(name),
    ensures
        declares(filled(t, p, n), name, filled(value, p, n)),
{
    let with = text::decimal(n);
    let whole = declaration(name, value);
    let k = choose|k: int| #[trigger] text::stands_at(t, k, whole);
    let a = t.take(k);
    let b = t.skip(k + whole.len());
    let y = value + seq![';'] + b;
    let x = name + seq!['='] + y;
    assert(t =~= a + seq![' '] + x) by {
        let m = t.subrange(k, k + whole.len());
        assert(t =~= a + m + b);
        assert(a + whole + b =~= a + seq![' '] + x);
    }
    lemma_name_apart(name, p);
    text::lemma_replaced_parts(a, ' ', x, p, with);
    text::lemma_replaced_parts(name, '=', y, p, with);
    text::lemma_replaced_parts(value, ';', b, p, with);
    text::lemma_nothing_replaced(name, p, with);
    let fa = text::replaced(a, p, with);
    let fv = text::replaced(value, p, with);
    let fb = text::replaced(b, p, with);
    let r = filled(t, p, n);
    let d = declaration(name, fv);
    let at = fa.len() as int;
    assert(r =~= fa + d + fb);
    assert(r.subrange(at, at + d.len()) =~= d);
    assert(text::stands_at(r, at, d));
}

proof fn lemma_own(p: Seq<char>, n: nat)
    requires
        is_place(p),
    ensures
        filled(unsigned(p), p, n) == number(n),
{
    let s = unsigned(p);
    let m = p.len() as int;
    assert(p[0] == '_' && p[m - 1] == '_') by {
        assert(double(p, 0) && double(p, m - 2));
    }
    assert forall|q: int| #[trigger] text::stands_at(s, q, p) implies q == 1 by {
        let w = s.subrange(q, q + m);
        assert(w[0] == s[q]);
        assert(w[m - 1] == s[q + m - 1]);
        assert(s[0] == ' ' && s[m + 1] == 'u');
    }
    text::lemma_replaced_once(seq![' '], p, seq!['u'], text::decimal(n));
}

proof fn lemma_kept(p: Seq<char>, m: nat, n: nat)
    requires
        is_place(p),
    ensures
        filled(number(m), p, n) == number(m),
{
    text::lemma_decimal_digits(m);
    let s = number(m);
    assert(p[0] == '_') by {
        assert(double(p, 0));
    }
    assert forall|i: int| !#[trigger] text::stands_at(s, i, p) by {
        if text::stands_at(s, i, p) {
            assert(s.subrange(i, i + p.len())[0] == s[i]);
            if 1 <= i && i < s.len() - 1 {
                assert(s[i] == text::decimal(m)[i - 1]);
            }
        }
    }
    text::lemma_nothing_replaced(s, p, text::decimal(n));
}

#[verifier::spinoff_prover]
#[verifier::rlimit(40)]
proof fn lemma_words()
    ensures
        is_place("__HALF__"@),
        is_place("__HEAD_DIM__"@),
        is_place("__HK__"@),
        is_place("__HV__"@),
        is_place("__KSZ__"@),
        is_place("__KV_HEADS__"@),
        is_place("__MAX_SEQ__"@),
        is_place("__NSG__"@),
        is_place("__NUM_HEADS__"@),
        is_place("__N_SIMDS__"@),
        is_place("__RATIO__"@),
        is_place("__ROPE_DIM__"@),
        is_place("__ROPE_HALF__"@),
        is_name("HALF     "@),
        is_name("HEAD_DIM "@),
        is_name("HEAD_DIM  "@),
        is_name("HK "@),
        is_name("HK    "@),
        is_name("HV "@),
        is_name("HV  "@),
        is_name("KSZ "@),
        is_name("KV_HEADS  "@),
        is_name("MAX_SEQ   "@),
        is_name("NSG "@),
        is_name("NSG   "@),
        is_name("NUM_HEADS "@),
        is_name("N_SIMDS  "@),
        is_name("RATIO "@),
        is_name("ROPE_DIM "@),
        is_name("ROPE_HALF "@),
        "__NUM_HEADS__"@ != "__KV_HEADS__"@,
        "__NUM_HEADS__"@ != "__HEAD_DIM__"@,
        "__NUM_HEADS__"@ != "__MAX_SEQ__"@,
        "__KV_HEADS__"@ != "__HEAD_DIM__"@,
        "__KV_HEADS__"@ != "__MAX_SEQ__"@,
        "__HEAD_DIM__"@ != "__MAX_SEQ__"@,
        "__HEAD_DIM__"@ != "__HALF__"@,
        "__HEAD_DIM__"@ != "__N_SIMDS__"@,
        "__HALF__"@ != "__N_SIMDS__"@,
        "__HEAD_DIM__"@ != "__ROPE_DIM__"@,
        "__HEAD_DIM__"@ != "__ROPE_HALF__"@,
        "__ROPE_DIM__"@ != "__ROPE_HALF__"@,
        "__HK__"@ != "__HV__"@,
        "__HK__"@ != "__NSG__"@,
        "__HK__"@ != "__RATIO__"@,
        "__NSG__"@ != "__RATIO__"@,
        "__HV__"@ != "__NSG__"@,
{
    reveal_strlit("__HALF__");
    reveal_strlit("__HEAD_DIM__");
    reveal_strlit("__HK__");
    reveal_strlit("__HV__");
    reveal_strlit("__KSZ__");
    reveal_strlit("__KV_HEADS__");
    reveal_strlit("__MAX_SEQ__");
    reveal_strlit("__NSG__");
    reveal_strlit("__NUM_HEADS__");
    reveal_strlit("__N_SIMDS__");
    reveal_strlit("__RATIO__");
    reveal_strlit("__ROPE_DIM__");
    reveal_strlit("__ROPE_HALF__");
    reveal_strlit("HALF     ");
    reveal_strlit("HEAD_DIM ");
    reveal_strlit("HEAD_DIM  ");
    reveal_strlit("HK ");
    reveal_strlit("HK    ");
    reveal_strlit("HV ");
    reveal_strlit("HV  ");
    reveal_strlit("KSZ ");
    reveal_strlit("KV_HEADS  ");
    reveal_strlit("MAX_SEQ   ");
    reveal_strlit("NSG ");
    reveal_strlit("NSG   ");
    reveal_strlit("NUM_HEADS ");
    reveal_strlit("N_SIMDS  ");
    reveal_strlit("RATIO ");
    reveal_strlit("ROPE_DIM ");
    reveal_strlit("ROPE_HALF ");
    assert("__HALF__"@.len() == 8 && "__HALF__"@[2] == 'H' && "__HALF__"@[3] == 'A');
    assert("__HEAD_DIM__"@.len() == 12 && "__HEAD_DIM__"@[2] == 'H' && "__HEAD_DIM__"@[3] == 'E');
    assert("__HK__"@.len() == 6 && "__HK__"@[2] == 'H' && "__HK__"@[3] == 'K');
    assert("__HV__"@.len() == 6 && "__HV__"@[2] == 'H' && "__HV__"@[3] == 'V');
    assert("__KSZ__"@.len() == 7 && "__KSZ__"@[2] == 'K' && "__KSZ__"@[3] == 'S');
    assert("__KV_HEADS__"@.len() == 12 && "__KV_HEADS__"@[2] == 'K' && "__KV_HEADS__"@[3] == 'V');
    assert("__MAX_SEQ__"@.len() == 11 && "__MAX_SEQ__"@[2] == 'M' && "__MAX_SEQ__"@[3] == 'A');
    assert("__NSG__"@.len() == 7 && "__NSG__"@[2] == 'N' && "__NSG__"@[3] == 'S');
    assert("__NUM_HEADS__"@.len() == 13 && "__NUM_HEADS__"@[2] == 'N' && "__NUM_HEADS__"@[3] == 'U');
    assert("__N_SIMDS__"@.len() == 11 && "__N_SIMDS__"@[2] == 'N' && "__N_SIMDS__"@[3] == '_');
    assert("__RATIO__"@.len() == 9 && "__RATIO__"@[2] == 'R' && "__RATIO__"@[3] == 'A');
    assert("__ROPE_DIM__"@.len() == 12 && "__ROPE_DIM__"@[2] == 'R' && "__ROPE_DIM__"@[3] == 'O');
    assert("__ROPE_HALF__"@.len() == 13 && "__ROPE_HALF__"@[2] == 'R' && "__ROPE_HALF__"@[3] == 'O');
}

proof fn lemma_attention()
    ensures
        declares(attention::MSL_TEMPLATE@, "NUM_HEADS "@, unsigned("__NUM_HEADS__"@)),
        declares(attention::MSL_TEMPLATE@, "KV_HEADS  "@, unsigned("__KV_HEADS__"@)),
        declares(attention::MSL_TEMPLATE@, "HEAD_DIM  "@, unsigned("__HEAD_DIM__"@)),
        declares(attention::MSL_TEMPLATE@, "MAX_SEQ   "@, unsigned("__MAX_SEQ__"@)),
{
    reveal_strlit(r#"
#include <metal_stdlib>
using namespace metal;

constant constexpr uint NUM_HEADS = __NUM_HEADS__u;
constant constexpr uint KV_HEADS  = __KV_HEADS__u;
constant constexpr uint HEAD_DIM  = __HEAD_DIM__u;
constant constexpr uint MAX_SEQ   = __MAX_SEQ__u;
constant constexpr uint REPEAT    = NUM_HEADS / KV_HEADS;
constant constexpr uint MAX_SEQ_SHARED_C = 2048u;
constant constexpr uint LANES = 32u;
constant constexpr uint ITERS = HEAD_DIM / LANES;  // d-chunks per thread (4 for head_dim=128)

struct Params {
    uint  total_seq;
    uint  window;
    float scale;
    uint  pad;
};

// Flash decode attention: single pass over s, reads K and V together.
// Online softmax (no TGS scores buffer, no barriers needed).
// All 32 lanes parallelise over HEAD_DIM for coalesced reads.
kernel void kmain(
    device const float  *q       [[buffer(0)]],
    device const float  *k_cache [[buffer(1)]],
    device const float  *v_cache [[buffer(2)]],
    device       float  *out     [[buffer(3)]],
    constant     Params &p       [[buffer(4)]],
    uint                 h       [[threadgroup_position_in_grid]],
    uint                 lane    [[thread_index_in_simdgroup]]
) {
    if (h >= NUM_HEADS) return;
    uint kv_h = h / REPEAT;
    uint q_off = h * HEAD_DIM;
    uint kv_base = kv_h * MAX_SEQ * HEAD_DIM;

    uint window_start = (p.window > 0u && p.total_seq > p.window)
        ? (p.total_seq - p.window) : 0u;

    // Q cached in registers — read once, reused across all s positions.
    float q_reg[ITERS];
    for (uint i = 0; i < ITERS; i++) {
        q_reg[i] = q[q_off + lane + i * LANES];
    }

    // Flash attention: single sequential pass over s.
    // Online softmax tracks running max and sum; no TGS memory needed.
    float max_so_far = -INFINITY;
    float sum_so_far = 0.0f;
    float acc_out[ITERS];
    for (uint i = 0; i < ITERS; i++) acc_out[i] = 0.0f;

    for (uint s = 0; s < p.total_seq; s++) {
        uint kv_off = kv_base + s * HEAD_DIM;

        // Dot product Q·K[s]: all lanes read coalesced k_cache[s, lane+i*32].
        float dot = 0.0f;
        for (uint i = 0; i < ITERS; i++) {
            dot = fma(q_reg[i], k_cache[kv_off + lane + i * LANES], dot);
        }
        float score = simd_sum(dot) * p.scale;
        if (s < window_start) score = -1.0e4f;

        // Online softmax update.
        float new_max   = max(max_so_far, score);
        float correction = exp(max_so_far - new_max);  // 0 when max_so_far=-inf
        float exp_score  = exp(score - new_max);

        sum_so_far = fma(sum_so_far, correction, exp_score);

        // Accumulate V weighted by exp_score, correcting old accumulator.
        // All lanes read v_cache[s, lane+i*32] coalesced.
        for (uint i = 0; i < ITERS; i++) {
            float v = v_cache[kv_off + lane + i * LANES];
            acc_out[i] = fma(exp_score, v, acc_out[i] * correction);
        }
        max_so_far = new_max;
    }

    // Normalize and write output.
    float inv_sum = 1.0f / sum_so_far;
    uint out_off = h * HEAD_DIM;
    for (uint i = 0; i < ITERS; i++) {
        out[out_off + lane + i * LANES] = acc_out[i] * inv_sum;
    }
}

// Diagnostic: bypass attention, just write v to out (verifies plumbing).
kernel void kbypass(
    device const float  *q       [[buffer(0)]],
    device const float  *k_cache [[buffer(1)]],
    device const float  *v_cache [[buffer(2)]],
    device       float  *out     [[buffer(3)]],
    constant     Params &p       [[buffer(4)]],
    uint                 h       [[threadgroup_position_in_grid]],
    uint                 lane    [[thread_index_in_simdgroup]]
) {
    if (h >= NUM_HEADS) return;
    uint kv_h = h / REPEAT;
    uint q_off = h * HEAD_DIM;
    uint kv_base = kv_h * MAX_SEQ * HEAD_DIM;
    // Output = v_cache[kv_h, position=0, d] — corresponds to total_seq=1 attention.
    uint out_off = h * HEAD_DIM;
    for (uint d = lane; d < HEAD_DIM; d += LANES) {
        out[out_off + d] = v_cache[kv_base + d];
    }
}
"#);
    reveal_strlit("NUM_HEADS ");
    reveal_strlit("__NUM_HEADS__");
    reveal_strlit("KV_HEADS  ");
    reveal_strlit("__KV_HEADS__");
    reveal_strlit("HEAD_DIM  ");
    reveal_strlit("__HEAD_DIM__");
    reveal_strlit("MAX_SEQ   ");
    reveal_strlit("__MAX_SEQ__");
    let t = attention::MSL_TEMPLATE@;
    let d = declaration("NUM_HEADS "@, unsigned("__NUM_HEADS__"@));
    assert(t.subrange(72, 100) =~= d);
    assert(text::stands_at(t, 72, d));
    let d = declaration("KV_HEADS  "@, unsigned("__KV_HEADS__"@));
    assert(t.subrange(124, 151) =~= d);
    assert(text::stands_at(t, 124, d));
    let d = declaration("HEAD_DIM  "@, unsigned("__HEAD_DIM__"@));
    assert(t.subrange(175, 202) =~= d);
    assert(text::stands_at(t, 175, d));
    let d = declaration("MAX_SEQ   "@, unsigned("__MAX_SEQ__"@));
    assert(t.subrange(226, 252) =~= d);
    assert(text::stands_at(t, 226, d));
}

/// The attention kernel declares the geometry that it is built for.
pub proof fn attention_kernel_declares_its_numbers(num_heads: nat, kv_heads: nat, head_dim: nat, max_seq: nat)
    ensures
        declares(attention::msl_for_text(num_heads, kv_heads, head_dim, max_seq), "NUM_HEADS "@, number(num_heads)),
        declares(attention::msl_for_text(num_heads, kv_heads, head_dim, max_seq), "KV_HEADS  "@, number(kv_heads)),
        declares(attention::msl_for_text(num_heads, kv_heads, head_dim, max_seq), "HEAD_DIM  "@, number(head_dim)),
        declares(attention::msl_for_text(num_heads, kv_heads, head_dim, max_seq), "MAX_SEQ   "@, number(max_seq)),
{
    lemma_attention();
    lemma_words();
    let p = "__NUM_HEADS__"@;
    let n = num_heads;
    lemma_fill(attention::MSL_TEMPLATE@, "NUM_HEADS "@, unsigned("__NUM_HEADS__"@), p, n);
    lemma_own(p, n);
    lemma_fill(attention::MSL_TEMPLATE@, "KV_HEADS  "@, unsigned("__KV_HEADS__"@), p, n);
    lemma_places_apart("__KV_HEADS__"@, p, n);
    lemma_fill(attention::MSL_TEMPLATE@, "HEAD_DIM  "@, unsigned("__HEAD_DIM__"@), p, n);
    lemma_places_apart("__HEAD_DIM__"@, p, n);
    lemma_fill(attention::MSL_TEMPLATE@, "MAX_SEQ   "@, unsigned("__MAX_SEQ__"@), p, n);
    lemma_places_apart("__MAX_SEQ__"@, p, n);
    let t1 = filled(attention::MSL_TEMPLATE@, p, n);
    let p = "__KV_HEADS__"@;
    let n = kv_heads;
    lemma_fill(t1, "NUM_HEADS "@, number(num_heads), p, n);
    lemma_kept(p, num_heads, n);
    lemma_fill(t1, "KV_HEADS  "@, unsigned("__KV_HEADS__"@), p, n);
    lemma_own(p, n);
    lemma_fill(t1, "HEAD_DIM  "@, unsigned("__HEAD_DIM__"@), p, n);
    lemma_places_apart("__HEAD_DIM__"@, p, n);
    lemma_fill(t1, "MAX_SEQ   "@, unsigned("__MAX_SEQ__"@), p, n);
    lemma_places_apart("__MAX_SEQ__"@, p, n);
    let t2 = filled(t1, p, n);
    let p = "__HEAD_DIM__"@;
    let n = head_dim;
    lemma_fill(t2, "NUM_HEADS "@, number(num_heads), p, n);
    lemma_kept(p, num_heads, n);
    lemma_fill(t2, "KV_HEADS  "@, number(kv_heads), p, n);
    lemma_kept(p, kv_heads, n);
    lemma_fill(t2, "HEAD_DIM  "@, unsigned("__HEAD_DIM__"@), p, n);
    lemma_own(p, n);
    lemma_fill(t2, "MAX_SEQ   "@, unsigned("__MAX_SEQ__"@), p, n);
    lemma_places_apart("__MAX_SEQ__"@, p, n);
    let t3 = filled(t2, p, n);
    let p = "__MAX_SEQ__"@;
    let n = max_seq;
    lemma_fill(t3, "NUM_HEADS "@, number(num_heads), p, n);
    lemma_kept(p, num_heads, n);
    lemma_fill(t3, "KV_HEADS  "@, number(kv_heads), p, n);
    lemma_kept(p, kv_heads, n);
    lemma_fill(t3, "HEAD_DIM  "@, number(head_dim), p, n);
    lemma_kept(p, head_dim, n);
    lemma_fill(t3, "MAX_SEQ   "@, unsigned("__MAX_SEQ__"@), p, n);
    lemma_own(p, n);
    let t4 = filled(t3, p, n);
}

proof fn lemma_append()
    ensures
        declares(attention::KV_APPEND_TEMPLATE@, "KV_HEADS  "@, unsigned("__KV_HEADS__"@)),
        declares(attention::KV_APPEND_TEMPLATE@, "HEAD_DIM  "@, unsigned("__HEAD_DIM__"@)),
        declares(attention::KV_APPEND_TEMPLATE@, "MAX_SEQ   "@, unsigned("__MAX_SEQ__"@)),
{
    reveal_strlit(r#"
#include <metal_stdlib>
using namespace metal;

constant constexpr uint KV_HEADS  = __KV_HEADS__u;
constant constexpr uint HEAD_DIM  = __HEAD_DIM__u;
constant constexpr uint MAX_SEQ   = __MAX_SEQ__u;

struct Params { uint position; uint pad0; uint pad1; uint pad2; };

kernel void kmain(
    device const float  *src   [[buffer(0)]],   // [KV_HEADS, HEAD_DIM]
    device       float  *cache [[buffer(1)]],   // [KV_HEADS, MAX_SEQ, HEAD_DIM]
    constant     Params &p     [[buffer(2)]],
    uint2                gid   [[thread_position_in_grid]]
) {
    uint h = gid.y;
    uint d = gid.x;
    if (h >= KV_HEADS || d >= HEAD_DIM) return;
    uint src_off = h * HEAD_DIM + d;
    uint dst_off = h * MAX_SEQ * HEAD_DIM + p.position * HEAD_DIM + d;
    cache[dst_off] = src[src_off];
}
"#);
    reveal_strlit("KV_HEADS  ");
    reveal_strlit("__KV_HEADS__");
    reveal_strlit("HEAD_DIM  ");
    reveal_strlit("__HEAD_DIM__");
    reveal_strlit("MAX_SEQ   ");
    reveal_strlit("__MAX_SEQ__");
    let t = attention::KV_APPEND_TEMPLATE@;
    let d = declaration("KV_HEADS  "@, unsigned("__KV_HEADS__"@));
    assert(t.subrange(72, 99) =~= d);
    assert(text::stands_at(t, 72, d));
    let d = declaration("HEAD_DIM  "@, unsigned("__HEAD_DIM__"@));
    assert(t.subrange(123, 150) =~= d);
    assert(text::stands_at(t, 123, d));
    let d = declaration("MAX_SEQ   "@, unsigned("__MAX_SEQ__"@));
    assert(t.subrange(174, 200) =~= d);
    assert(text::stands_at(t, 174, d));
}

/// So does the kernel that appends one of K and V.
pub proof fn append_kernel_declares_its_numbers(kv_heads: nat, head_dim: nat, max_seq: nat)
    ensures
        declares(attention::kv_append_msl_for_text(kv_heads, head_dim, max_seq), "KV_HEADS  "@, number(kv_heads)),
        declares(attention::kv_append_msl_for_text(kv_heads, head_dim, max_seq), "HEAD_DIM  "@, number(head_dim)),
        declares(attention::kv_append_msl_for_text(kv_heads, head_dim, max_seq), "MAX_SEQ   "@, number(max_seq)),
{
    lemma_append();
    lemma_words();
    let p = "__KV_HEADS__"@;
    let n = kv_heads;
    lemma_fill(attention::KV_APPEND_TEMPLATE@, "KV_HEADS  "@, unsigned("__KV_HEADS__"@), p, n);
    lemma_own(p, n);
    lemma_fill(attention::KV_APPEND_TEMPLATE@, "HEAD_DIM  "@, unsigned("__HEAD_DIM__"@), p, n);
    lemma_places_apart("__HEAD_DIM__"@, p, n);
    lemma_fill(attention::KV_APPEND_TEMPLATE@, "MAX_SEQ   "@, unsigned("__MAX_SEQ__"@), p, n);
    lemma_places_apart("__MAX_SEQ__"@, p, n);
    let t1 = filled(attention::KV_APPEND_TEMPLATE@, p, n);
    let p = "__HEAD_DIM__"@;
    let n = head_dim;
    lemma_fill(t1, "KV_HEADS  "@, number(kv_heads), p, n);
    lemma_kept(p, kv_heads, n);
    lemma_fill(t1, "HEAD_DIM  "@, unsigned("__HEAD_DIM__"@), p, n);
    lemma_own(p, n);
    lemma_fill(t1, "MAX_SEQ   "@, unsigned("__MAX_SEQ__"@), p, n);
    lemma_places_apart("__MAX_SEQ__"@, p, n);
    let t2 = filled(t1, p, n);
    let p = "__MAX_SEQ__"@;
    let n = max_seq;
    lemma_fill(t2, "KV_HEADS  "@, number(kv_heads), p, n);
    lemma_kept(p, kv_heads, n);
    lemma_fill(t2, "HEAD_DIM  "@, number(head_dim), p, n);
    lemma_kept(p, head_dim, n);
    lemma_fill(t2, "MAX_SEQ   "@, unsigned("__MAX_SEQ__"@), p, n);
    lemma_own(p, n);
    let t3 = filled(t2, p, n);
}

proof fn lemma_append_both()
    ensures
        declares(attention::KV_APPEND_BOTH_TEMPLATE@, "KV_HEADS  "@, unsigned("__KV_HEADS__"@)),
        declares(attention::KV_APPEND_BOTH_TEMPLATE@, "HEAD_DIM  "@, unsigned("__HEAD_DIM__"@)),
        declares(attention::KV_APPEND_BOTH_TEMPLATE@, "MAX_SEQ   "@, unsigned("__MAX_SEQ__"@)),
{
    reveal_strlit(r#"
#include <metal_stdlib>
using namespace metal;

constant constexpr uint KV_HEADS  = __KV_HEADS__u;
constant constexpr uint HEAD_DIM  = __HEAD_DIM__u;
constant constexpr uint MAX_SEQ   = __MAX_SEQ__u;

struct Params { uint position; uint pad0; uint pad1; uint pad2; };

kernel void kmain(
    device const float  *k_src   [[buffer(0)]],
    device       float  *k_cache [[buffer(1)]],
    device const float  *v_src   [[buffer(2)]],
    device       float  *v_cache [[buffer(3)]],
    constant     Params &p       [[buffer(4)]],
    uint2                gid     [[thread_position_in_grid]]
) {
    uint h = gid.y;
    uint d = gid.x;
    if (h >= KV_HEADS || d >= HEAD_DIM) return;
    uint src_off = h * HEAD_DIM + d;
    uint dst_off = h * MAX_SEQ * HEAD_DIM + p.position * HEAD_DIM + d;
    k_cache[dst_off] = k_src[src_off];
    v_cache[dst_off] = v_src[src_off];
}
"#);
    reveal_strlit("KV_HEADS  ");
    reveal_strlit("__KV_HEADS__");
    reveal_strlit("HEAD_DIM  ");
    reveal_strlit("__HEAD_DIM__");
    reveal_strlit("MAX_SEQ   ");
    reveal_strlit("__MAX_SEQ__");
    let t = attention::KV_APPEND_BOTH_TEMPLATE@;
    let d = declaration("KV_HEADS  "@, unsigned("__KV_HEADS__"@));
    assert(t.subrange(72, 99) =~= d);
    assert(text::stands_at(t, 72, d));
    let d = declaration("HEAD_DIM  "@, unsigned("__HEAD_DIM__"@));
    assert(t.subrange(123, 150) =~= d);
    assert(text::stands_at(t, 123, d));
    let d = declaration("MAX_SEQ   "@, unsigned("__MAX_SEQ__"@));
    assert(t.subrange(174, 200) =~= d);
    assert(text::stands_at(t, 174, d));
}

/// So does the kernel that appends K and V.
pub proof fn append_both_kernel_declares_its_numbers(kv_heads: nat, head_dim: nat, max_seq: nat)
    ensures
        declares(attention::kv_append_both_msl_for_text(kv_heads, head_dim, max_seq), "KV_HEADS  "@, number(kv_heads)),
        declares(attention::kv_append_both_msl_for_text(kv_heads, head_dim, max_seq), "HEAD_DIM  "@, number(head_dim)),
        declares(attention::kv_append_both_msl_for_text(kv_heads, head_dim, max_seq), "MAX_SEQ   "@, number(max_seq)),
{
    lemma_append_both();
    lemma_words();
    let p = "__KV_HEADS__"@;
    let n = kv_heads;
    lemma_fill(attention::KV_APPEND_BOTH_TEMPLATE@, "KV_HEADS  "@, unsigned("__KV_HEADS__"@), p, n);
    lemma_own(p, n);
    lemma_fill(attention::KV_APPEND_BOTH_TEMPLATE@, "HEAD_DIM  "@, unsigned("__HEAD_DIM__"@), p, n);
    lemma_places_apart("__HEAD_DIM__"@, p, n);
    lemma_fill(attention::KV_APPEND_BOTH_TEMPLATE@, "MAX_SEQ   "@, unsigned("__MAX_SEQ__"@), p, n);
    lemma_places_apart("__MAX_SEQ__"@, p, n);
    let t1 = filled(attention::KV_APPEND_BOTH_TEMPLATE@, p, n);
    let p = "__HEAD_DIM__"@;
    let n = head_dim;
    lemma_fill(t1, "KV_HEADS  "@, number(kv_heads), p, n);
    lemma_kept(p, kv_heads, n);
    lemma_fill(t1, "HEAD_DIM  "@, unsigned("__HEAD_DIM__"@), p, n);
    lemma_own(p, n);
    lemma_fill(t1, "MAX_SEQ   "@, unsigned("__MAX_SEQ__"@), p, n);
    lemma_places_apart("__MAX_SEQ__"@, p, n);
    let t2 = filled(t1, p, n);
    let p = "__MAX_SEQ__"@;
    let n = max_seq;
    lemma_fill(t2, "KV_HEADS  "@, number(kv_heads), p, n);
    lemma_kept(p, kv_heads, n);
    lemma_fill(t2, "HEAD_DIM  "@, number(head_dim), p, n);
    lemma_kept(p, head_dim, n);
    lemma_fill(t2, "MAX_SEQ   "@, unsigned("__MAX_SEQ__"@), p, n);
    lemma_own(p, n);
    let t3 = filled(t2, p, n);
}

proof fn lemma_rope_append_attention()
    ensures
        declares(attention::FUSED_ROPE_KV_ATTN_TEMPLATE@, "NUM_HEADS "@, unsigned("__NUM_HEADS__"@)),
        declares(attention::FUSED_ROPE_KV_ATTN_TEMPLATE@, "KV_HEADS  "@, unsigned("__KV_HEADS__"@)),
        declares(attention::FUSED_ROPE_KV_ATTN_TEMPLATE@, "MAX_SEQ   "@, unsigned("__MAX_SEQ__"@)),
{
    reveal_strlit(r#"
#include <metal_stdlib>
using namespace metal;

constant constexpr uint NUM_HEADS = __NUM_HEADS__u;
constant constexpr uint KV_HEADS  = __KV_HEADS__u;
constant constexpr uint HEAD_DIM  = 128u;
constant constexpr uint HALF      = 64u;
constant constexpr uint MAX_SEQ   = __MAX_SEQ__u;
constant constexpr uint REPEAT    = NUM_HEADS / KV_HEADS;
constant constexpr uint ITERS     = HEAD_DIM / 32u;  // 4

struct Params { uint total_seq; uint position; uint window; float scale; };

kernel void kmain(
    device const float *q_raw   [[buffer(0)]],
    device const float *k_raw   [[buffer(1)]],
    device const float *v_raw   [[buffer(2)]],
    device const float *cos_t   [[buffer(3)]],
    device const float *sin_t   [[buffer(4)]],
    device       float *k_cache [[buffer(5)]],
    device       float *v_cache [[buffer(6)]],
    device       float *out     [[buffer(7)]],
    constant     Params &p      [[buffer(8)]],
    uint q_h  [[threadgroup_position_in_grid]],
    uint lane [[thread_index_in_simdgroup]]
) {
    if (q_h >= NUM_HEADS) return;
    uint kv_h    = q_h / REPEAT;
    uint kv_src  = kv_h * HEAD_DIM;
    uint kv_dst  = kv_h * MAX_SEQ * HEAD_DIM + p.position * HEAD_DIM;
    uint kv_base = kv_h * MAX_SEQ * HEAD_DIM;

    // Step 1-2: RoPE-encode k_raw[kv_h] → k_cache[kv_h, position]
    //           Copy v_raw[kv_h]         → v_cache[kv_h, position]
    // Multiple Q-heads sharing kv_h write the same values (idempotent — OK).
    // Within-thread ordering ensures our stores are visible to our subsequent loads.
    {
        float x0 = k_raw[kv_src + lane],      x2 = k_raw[kv_src + lane + HALF];
        float c0 = cos_t[lane],               s0 = sin_t[lane];
        k_cache[kv_dst + lane]        = x0*c0 - x2*s0;
        k_cache[kv_dst + lane + HALF] = x0*s0 + x2*c0;
    }
    {
        float x1 = k_raw[kv_src + lane + 32], x3 = k_raw[kv_src + lane + 96];
        float c1 = cos_t[lane + 32],           s1 = sin_t[lane + 32];
        k_cache[kv_dst + lane + 32]   = x1*c1 - x3*s1;
        k_cache[kv_dst + lane + 96]   = x1*s1 + x3*c1;
    }
    v_cache[kv_dst + lane]        = v_raw[kv_src + lane];
    v_cache[kv_dst + lane + 32]   = v_raw[kv_src + lane + 32];
    v_cache[kv_dst + lane + HALF] = v_raw[kv_src + lane + HALF];
    v_cache[kv_dst + lane + 96]   = v_raw[kv_src + lane + 96];

    // Step 3: RoPE q_raw[q_h] into registers.
    float qr[ITERS];
    {
        uint q_base = q_h * HEAD_DIM;
        float x0 = q_raw[q_base + lane],      x2 = q_raw[q_base + lane + HALF];
        float c0 = cos_t[lane],               s0 = sin_t[lane];
        qr[0] = x0*c0 - x2*s0;
        qr[2] = x0*s0 + x2*c0;

        float x1 = q_raw[q_base + lane + 32], x3 = q_raw[q_base + lane + 96];
        float c1 = cos_t[lane + 32],           s1 = sin_t[lane + 32];
        qr[1] = x1*c1 - x3*s1;
        qr[3] = x1*s1 + x3*c1;
    }

    // Step 4: Flash-decode SDPA (online softmax, sequential pass over KV cache).
    uint window_start = (p.window > 0u && p.total_seq > p.window)
        ? (p.total_seq - p.window) : 0u;

    float max_sf = -INFINITY, sum_sf = 0.0f;
    float acc[ITERS] = {0.0f, 0.0f, 0.0f, 0.0f};

    for (uint s = 0; s < p.total_seq; s++) {
        uint kv_off = kv_base + s * HEAD_DIM;
        float dot = 0.0f;
        for (uint i = 0; i < ITERS; i++) {
            dot = fma(qr[i], k_cache[kv_off + lane + i * 32u], dot);
        }
        float score = simd_sum(dot) * p.scale;
        if (s < window_start) score = -1.0e4f;

        float new_max = max(max_sf, score);
        float corr    = exp(max_sf - new_max);
        float es      = exp(score  - new_max);
        sum_sf = fma(sum_sf, corr, es);
        for (uint i = 0; i < ITERS; i++) {
            acc[i] = fma(es, v_cache[kv_off + lane + i * 32u], acc[i] * corr);
        }
        max_sf = new_max;
    }

    float inv_sum = 1.0f / sum_sf;
    uint out_off = q_h * HEAD_DIM;
    for (uint i = 0; i < ITERS; i++) {
        out[out_off + lane + i * 32u] = acc[i] * inv_sum;
    }
}
"#);
    reveal_strlit("NUM_HEADS ");
    reveal_strlit("__NUM_HEADS__");
    reveal_strlit("KV_HEADS  ");
    reveal_strlit("__KV_HEADS__");
    reveal_strlit("MAX_SEQ   ");
    reveal_strlit("__MAX_SEQ__");
    let t = attention::FUSED_ROPE_KV_ATTN_TEMPLATE@;
    let d = declaration("NUM_HEADS "@, unsigned("__NUM_HEADS__"@));
    assert(t.subrange(72, 100) =~= d);
    assert(text::stands_at(t, 72, d));
    let d = declaration("KV_HEADS  "@, unsigned("__KV_HEADS__"@));
    assert(t.subrange(124, 151) =~= d);
    assert(text::stands_at(t, 124, d));
    let d = declaration("MAX_SEQ   "@, unsigned("__MAX_SEQ__"@));
    assert(t.subrange(258, 284) =~= d);
    assert(text::stands_at(t, 258, d));
}

/// So does the kernel that rotates, appends and attends.
pub proof fn rope_append_attention_kernel_declares_its_numbers(num_heads: nat, kv_heads: nat, max_seq: nat)
    ensures
        declares(attention::fused_rope_kv_attn_msl_for_text(num_heads, kv_heads, max_seq), "NUM_HEADS "@, number(num_heads)),
        declares(attention::fused_rope_kv_attn_msl_for_text(num_heads, kv_heads, max_seq), "KV_HEADS  "@, number(kv_heads)),
        declares(attention::fused_rope_kv_attn_msl_for_text(num_heads, kv_heads, max_seq), "MAX_SEQ   "@, number(max_seq)),
{
    lemma_rope_append_attention();
    lemma_words();
    let p = "__NUM_HEADS__"@;
    let n = num_heads;
    lemma_fill(attention::FUSED_ROPE_KV_ATTN_TEMPLATE@, "NUM_HEADS "@, unsigned("__NUM_HEADS__"@), p, n);
    lemma_own(p, n);
    lemma_fill(attention::FUSED_ROPE_KV_ATTN_TEMPLATE@, "KV_HEADS  "@, unsigned("__KV_HEADS__"@), p, n);
    lemma_places_apart("__KV_HEADS__"@, p, n);
    lemma_fill(attention::FUSED_ROPE_KV_ATTN_TEMPLATE@, "MAX_SEQ   "@, unsigned("__MAX_SEQ__"@), p, n);
    lemma_places_apart("__MAX_SEQ__"@, p, n);
    let t1 = filled(attention::FUSED_ROPE_KV_ATTN_TEMPLATE@, p, n);
    let p = "__KV_HEADS__"@;
    let n = kv_heads;
    lemma_fill(t1, "NUM_HEADS "@, number(num_heads), p, n);
    lemma_kept(p, num_heads, n);
    lemma_fill(t1, "KV_HEADS  "@, unsigned("__KV_HEADS__"@), p, n);
    lemma_own(p, n);
    lemma_fill(t1, "MAX_SEQ   "@, unsigned("__MAX_SEQ__"@), p, n);
    lemma_places_apart("__MAX_SEQ__"@, p, n);
    let t2 = filled(t1, p, n);
    let p = "__MAX_SEQ__"@;
    let n = max_seq;
    lemma_fill(t2, "NUM_HEADS "@, number(num_heads), p, n);
    lemma_kept(p, num_heads, n);
    lemma_fill(t2, "KV_HEADS  "@, number(kv_heads), p, n);
    lemma_kept(p, kv_heads, n);
    lemma_fill(t2, "MAX_SEQ   "@, unsigned("__MAX_SEQ__"@), p, n);
    lemma_own(p, n);
    let t3 = filled(t2, p, n);
}

proof fn lemma_norm_rope()
    ensures
        declares(rope::MSL_QK_NORM_ROPE_TEMPLATE@, "HEAD_DIM "@, unsigned("__HEAD_DIM__"@)),
        declares(rope::MSL_QK_NORM_ROPE_TEMPLATE@, "HALF     "@, unsigned("__HALF__"@)),
        declares(rope::MSL_QK_NORM_ROPE_TEMPLATE@, "N_SIMDS  "@, unsigned("__N_SIMDS__"@)),
{
    reveal_strlit(r#"
#include <metal_stdlib>
using namespace metal;

constant constexpr uint HEAD_DIM = __HEAD_DIM__u;
constant constexpr uint HALF     = __HALF__u;
constant constexpr uint N_SIMDS  = __N_SIMDS__u;  // HEAD_DIM / 32

struct ParamsNR { uint q_heads; uint kv_heads; uint rope_half; float eps; };

kernel void kmain(
    device const float   *xq    [[buffer(0)]],
    device const float   *xk    [[buffer(1)]],
    device const float   *gq    [[buffer(2)]],
    device const float   *gk    [[buffer(3)]],
    device const float   *cos_t [[buffer(4)]],
    device const float   *sin_t [[buffer(5)]],
    device       float   *yq    [[buffer(6)]],
    device       float   *yk    [[buffer(7)]],
    constant ParamsNR    &p     [[buffer(8)]],
    uint tid   [[thread_position_in_threadgroup]],
    uint lane  [[thread_index_in_simdgroup]],
    uint sgitg [[simdgroup_index_in_threadgroup]],
    uint bid   [[threadgroup_position_in_grid]]
) {
    threadgroup float shared_sq[N_SIMDS];

    bool is_q = bid < p.q_heads;
    uint lbid = is_q ? bid : bid - p.q_heads;
    device const float *x = is_q ? xq + lbid * HEAD_DIM : xk + lbid * HEAD_DIM;
    device const float *g = is_q ? gq : gk;
    device       float *y = is_q ? yq + lbid * HEAD_DIM : yk + lbid * HEAD_DIM;

    // Phase 1: RMS via simd_sum (2 barriers vs 7 for manual tree)
    float sq = (tid < HEAD_DIM) ? (x[tid] * x[tid]) : 0.0f;
    float simd_sq = simd_sum(sq);
    if (lane == 0) shared_sq[sgitg] = simd_sq;
    threadgroup_barrier(mem_flags::mem_threadgroup);
    float total_sq = (lane < N_SIMDS) ? shared_sq[lane] : 0.0f;
    float inv_rms = rsqrt(simd_sum(total_sq) / HEAD_DIM + p.eps);

    // Phase 2: norm + rope (first HALF threads handle paired elements)
    if (tid < HALF) {
        uint j = tid;
        float nj  = x[j]        * inv_rms * g[j];
        float njh = x[j + HALF] * inv_rms * g[j + HALF];
        if (j < p.rope_half) {
            float c = cos_t[j], s = sin_t[j];
            y[j]        = nj  * c - njh * s;
            y[j + HALF] = nj  * s + njh * c;
        } else {
            y[j]        = nj;
            y[j + HALF] = njh;
        }
    }
}
"#);
    reveal_strlit("HEAD_DIM ");
    reveal_strlit("__HEAD_DIM__");
    reveal_strlit("HALF     ");
    reveal_strlit("__HALF__");
    reveal_strlit("N_SIMDS  ");
    reveal_strlit("__N_SIMDS__");
    let t = rope::MSL_QK_NORM_ROPE_TEMPLATE@;
    let d = declaration("HEAD_DIM "@, unsigned("__HEAD_DIM__"@));
    assert(t.subrange(72, 98) =~= d);
    assert(text::stands_at(t, 72, d));
    let d = declaration("HALF     "@, unsigned("__HALF__"@));
    assert(t.subrange(122, 144) =~= d);
    assert(text::stands_at(t, 122, d));
    let d = declaration("N_SIMDS  "@, unsigned("__N_SIMDS__"@));
    assert(t.subrange(168, 193) =~= d);
    assert(text::stands_at(t, 168, d));
}

/// The kernel that normalises and rotates heads declares their width, half of
/// it, and its SIMD groups of 32.
pub proof fn norm_rope_kernel_declares_its_numbers(head_dim: nat)
    ensures
        declares(rope::msl_qk_norm_rope_for_text(head_dim), "HEAD_DIM "@, number(head_dim)),
        declares(rope::msl_qk_norm_rope_for_text(head_dim), "HALF     "@, number(head_dim / 2)),
        declares(rope::msl_qk_norm_rope_for_text(head_dim), "N_SIMDS  "@, number(head_dim / 32)),
{
    lemma_norm_rope();
    lemma_words();
    let p = "__HEAD_DIM__"@;
    let n = head_dim;
    lemma_fill(rope::MSL_QK_NORM_ROPE_TEMPLATE@, "HEAD_DIM "@, unsigned("__HEAD_DIM__"@), p, n);
    lemma_own(p, n);
    lemma_fill(rope::MSL_QK_NORM_ROPE_TEMPLATE@, "HALF     "@, unsigned("__HALF__"@), p, n);
    lemma_places_apart("__HALF__"@, p, n);
    lemma_fill(rope::MSL_QK_NORM_ROPE_TEMPLATE@, "N_SIMDS  "@, unsigned("__N_SIMDS__"@), p, n);
    lemma_places_apart("__N_SIMDS__"@, p, n);
    let t1 = filled(rope::MSL_QK_NORM_ROPE_TEMPLATE@, p, n);
    let p = "__HALF__"@;
    let n = head_dim / 2;
    lemma_fill(t1, "HEAD_DIM "@, number(head_dim), p, n);
    lemma_kept(p, head_dim, n);
    lemma_fill(t1, "HALF     "@, unsigned("__HALF__"@), p, n);
    lemma_own(p, n);
    lemma_fill(t1, "N_SIMDS  "@, unsigned("__N_SIMDS__"@), p, n);
    lemma_places_apart("__N_SIMDS__"@, p, n);
    let t2 = filled(t1, p, n);
    let p = "__N_SIMDS__"@;
    let n = head_dim / 32;
    lemma_fill(t2, "HEAD_DIM "@, number(head_dim), p, n);
    lemma_kept(p, head_dim, n);
    lemma_fill(t2, "HALF     "@, number(head_dim / 2), p, n);
    lemma_kept(p, head_dim / 2, n);
    lemma_fill(t2, "N_SIMDS  "@, unsigned("__N_SIMDS__"@), p, n);
    lemma_own(p, n);
    let t3 = filled(t2, p, n);
}

proof fn lemma_rope()
    ensures
        declares(rope::MSL_TEMPLATE@, "HEAD_DIM "@, unsigned("__HEAD_DIM__"@)),
        declares(rope::MSL_TEMPLATE@, "HALF     "@, unsigned("__HALF__"@)),
{
    reveal_strlit(r#"
#include <metal_stdlib>
using namespace metal;

constant constexpr uint HEAD_DIM = __HEAD_DIM__u;
constant constexpr uint HALF     = __HALF__u;

struct Dims { uint n_rows; uint rope_half; uint pad0; uint pad1; };

kernel void kmain(
    device const float  *x      [[buffer(0)]],
    device const float  *cos_t  [[buffer(1)]],
    device const float  *sin_t  [[buffer(2)]],
    device       float  *y      [[buffer(3)]],
    constant     Dims   &dims   [[buffer(4)]],
    uint2                gid    [[thread_position_in_grid]]
) {
    uint row = gid.y;
    uint j   = gid.x;
    if (row >= dims.n_rows || j >= HALF) return;
    uint base = row * HEAD_DIM;

    float x1 = x[base + j];
    float x2 = x[base + j + HALF];

    if (j < dims.rope_half) {
        float c = cos_t[j];
        float s = sin_t[j];
        y[base + j]         = x1 * c - x2 * s;
        y[base + j + HALF]  = x1 * s + x2 * c;
    } else {
        y[base + j]         = x1;
        y[base + j + HALF]  = x2;
    }
}
"#);
    reveal_strlit("HEAD_DIM ");
    reveal_strlit("__HEAD_DIM__");
    reveal_strlit("HALF     ");
    reveal_strlit("__HALF__");
    let t = rope::MSL_TEMPLATE@;
    let d = declaration("HEAD_DIM "@, unsigned("__HEAD_DIM__"@));
    assert(t.subrange(72, 98) =~= d);
    assert(text::stands_at(t, 72, d));
    let d = declaration("HALF     "@, unsigned("__HALF__"@));
    assert(t.subrange(122, 144) =~= d);
    assert(text::stands_at(t, 122, d));
}

/// The kernel that rotates heads declares their width and half of it.
pub proof fn rope_kernel_declares_its_numbers(head_dim: nat)
    ensures
        declares(rope::msl_for_text(head_dim), "HEAD_DIM "@, number(head_dim)),
        declares(rope::msl_for_text(head_dim), "HALF     "@, number(head_dim / 2)),
{
    lemma_rope();
    lemma_words();
    let p = "__HEAD_DIM__"@;
    let n = head_dim;
    lemma_fill(rope::MSL_TEMPLATE@, "HEAD_DIM "@, unsigned("__HEAD_DIM__"@), p, n);
    lemma_own(p, n);
    lemma_fill(rope::MSL_TEMPLATE@, "HALF     "@, unsigned("__HALF__"@), p, n);
    lemma_places_apart("__HALF__"@, p, n);
    let t1 = filled(rope::MSL_TEMPLATE@, p, n);
    let p = "__HALF__"@;
    let n = head_dim / 2;
    lemma_fill(t1, "HEAD_DIM "@, number(head_dim), p, n);
    lemma_kept(p, head_dim, n);
    lemma_fill(t1, "HALF     "@, unsigned("__HALF__"@), p, n);
    lemma_own(p, n);
    let t2 = filled(t1, p, n);
}

proof fn lemma_mrope()
    ensures
        declares(mrope::MSL_TEMPLATE@, "HEAD_DIM "@, unsigned("__HEAD_DIM__"@)),
        declares(mrope::MSL_TEMPLATE@, "ROPE_DIM "@, unsigned("__ROPE_DIM__"@)),
        declares(mrope::MSL_TEMPLATE@, "ROPE_HALF "@, unsigned("__ROPE_HALF__"@)),
{
    reveal_strlit(r#"
#include <metal_stdlib>
using namespace metal;

constant constexpr uint HEAD_DIM = __HEAD_DIM__u;
constant constexpr uint ROPE_DIM = __ROPE_DIM__u;
constant constexpr uint ROPE_HALF = __ROPE_HALF__u;

struct Dims { uint n_rows; uint pad0; uint pad1; uint pad2; };

kernel void kmain(
    device const float  *x      [[buffer(0)]],
    device const float  *cos_t  [[buffer(1)]],
    device const float  *sin_t  [[buffer(2)]],
    device       float  *y      [[buffer(3)]],
    constant     Dims   &dims   [[buffer(4)]],
    uint2                gid    [[thread_position_in_grid]]
) {
    uint row = gid.y;
    uint d   = gid.x;
    if (row >= dims.n_rows || d >= HEAD_DIM) return;
    uint base = row * HEAD_DIM;

    if (d >= ROPE_DIM) {
        y[base + d] = x[base + d];
        return;
    }
    if (d < ROPE_HALF) {
        float x1 = x[base + d];
        float x2 = x[base + d + ROPE_HALF];
        float c = cos_t[d];
        float s = sin_t[d];
        y[base + d] = x1 * c - x2 * s;
    } else {
        uint j = d - ROPE_HALF;
        float x1 = x[base + j];
        float x2 = x[base + j + ROPE_HALF];
        float c = cos_t[d];
        float s = sin_t[d];
        y[base + d] = x2 * c + x1 * s;
    }
}
"#);
    reveal_strlit("HEAD_DIM ");
    reveal_strlit("__HEAD_DIM__");
    reveal_strlit("ROPE_DIM ");
    reveal_strlit("__ROPE_DIM__");
    reveal_strlit("ROPE_HALF ");
    reveal_strlit("__ROPE_HALF__");
    let t = mrope::MSL_TEMPLATE@;
    let d = declaration("HEAD_DIM "@, unsigned("__HEAD_DIM__"@));
    assert(t.subrange(72, 98) =~= d);
    assert(text::stands_at(t, 72, d));
    let d = declaration("ROPE_DIM "@, unsigned("__ROPE_DIM__"@));
    assert(t.subrange(122, 148) =~= d);
    assert(text::stands_at(t, 122, d));
    let d = declaration("ROPE_HALF "@, unsigned("__ROPE_HALF__"@));
    assert(t.subrange(172, 200) =~= d);
    assert(text::stands_at(t, 172, d));
}

/// The kernel that rotates a part of each head declares the head width, the
/// rotated width and half of that.
pub proof fn mrope_kernel_declares_its_numbers(head_dim: nat, rope_dim: nat)
    ensures
        declares(mrope::msl_for_text(head_dim, rope_dim), "HEAD_DIM "@, number(head_dim)),
        declares(mrope::msl_for_text(head_dim, rope_dim), "ROPE_DIM "@, number(rope_dim)),
        declares(mrope::msl_for_text(head_dim, rope_dim), "ROPE_HALF "@, number(rope_dim / 2)),
{
    lemma_mrope();
    lemma_words();
    let p = "__HEAD_DIM__"@;
    let n = head_dim;
    lemma_fill(mrope::MSL_TEMPLATE@, "HEAD_DIM "@, unsigned("__HEAD_DIM__"@), p, n);
    lemma_own(p, n);
    lemma_fill(mrope::MSL_TEMPLATE@, "ROPE_DIM "@, unsigned("__ROPE_DIM__"@), p, n);
    lemma_places_apart("__ROPE_DIM__"@, p, n);
    lemma_fill(mrope::MSL_TEMPLATE@, "ROPE_HALF "@, unsigned("__ROPE_HALF__"@), p, n);
    lemma_places_apart("__ROPE_HALF__"@, p, n);
    let t1 = filled(mrope::MSL_TEMPLATE@, p, n);
    let p = "__ROPE_DIM__"@;
    let n = rope_dim;
    lemma_fill(t1, "HEAD_DIM "@, number(head_dim), p, n);
    lemma_kept(p, head_dim, n);
    lemma_fill(t1, "ROPE_DIM "@, unsigned("__ROPE_DIM__"@), p, n);
    lemma_own(p, n);
    lemma_fill(t1, "ROPE_HALF "@, unsigned("__ROPE_HALF__"@), p, n);
    lemma_places_apart("__ROPE_HALF__"@, p, n);
    let t2 = filled(t1, p, n);
    let p = "__ROPE_HALF__"@;
    let n = rope_dim / 2;
    lemma_fill(t2, "HEAD_DIM "@, number(head_dim), p, n);
    lemma_kept(p, head_dim, n);
    lemma_fill(t2, "ROPE_DIM "@, number(rope_dim), p, n);
    lemma_kept(p, rope_dim, n);
    lemma_fill(t2, "ROPE_HALF "@, unsigned("__ROPE_HALF__"@), p, n);
    lemma_own(p, n);
    let t3 = filled(t2, p, n);
}

proof fn lemma_recurrence()
    ensures
        declares(gated_delta::MSL_TEMPLATE@, "HK "@, unsigned("__HK__"@)),
        declares(gated_delta::MSL_TEMPLATE@, "HV "@, unsigned("__HV__"@)),
{
    reveal_strlit(r#"
#include <metal_stdlib>
using namespace metal;

constant constexpr uint HK = __HK__u;
constant constexpr uint HV = __HV__u;

struct Dims { uint num_heads; uint pad0; uint pad1; uint pad2; };

kernel void kmain(
    device       float  *state  [[buffer(0)]],  // [num_heads, HK, HV], read-write
    device const float  *q_t    [[buffer(1)]],  // [num_heads, HK]
    device const float  *k_t    [[buffer(2)]],  // [num_heads, HK]
    device const float  *v_t    [[buffer(3)]],  // [num_heads, HV]
    device const float  *decay  [[buffer(4)]],  // [num_heads]
    device const float  *beta   [[buffer(5)]],  // [num_heads]
    device       float  *out    [[buffer(6)]],  // [num_heads, HV]
    constant     Dims   &dims   [[buffer(7)]],
    uint2                gid    [[thread_position_in_grid]]
) {
    uint hi = gid.y;
    uint j  = gid.x;
    if (hi >= dims.num_heads || j >= HV) return;

    device float *st = state + hi * HK * HV;
    device const float *q = q_t + hi * HK;
    device const float *k = k_t + hi * HK;
    float v_j = v_t[hi * HV + j];
    float decay_t = decay[hi];
    float beta_t = beta[hi];

    // Pass 1: decay column j in place, accumulate kv_mem from the
    // DECAYED values (decay must land before this read — matches
    // `recurrence_step`'s `for s in st.iter_mut() { *s *= decay_t }`
    // running before the kv_mem loop).
    float kv_mem = 0.0f;
    for (uint i = 0; i < HK; i++) {
        float decayed = st[i * HV + j] * decay_t;
        st[i * HV + j] = decayed;
        kv_mem += decayed * k[i];
    }
    float delta_j = (v_j - kv_mem) * beta_t;
    // Pass 2: rank-1 update.
    for (uint i = 0; i < HK; i++) {
        st[i * HV + j] += k[i] * delta_j;
    }
    // Pass 3: output from the just-updated state.
    float out_j = 0.0f;
    for (uint i = 0; i < HK; i++) {
        out_j += st[i * HV + j] * q[i];
    }
    out[hi * HV + j] = out_j;
}
"#);
    reveal_strlit("HK ");
    reveal_strlit("__HK__");
    reveal_strlit("HV ");
    reveal_strlit("__HV__");
    let t = gated_delta::MSL_TEMPLATE@;
    let d = declaration("HK "@, unsigned("__HK__"@));
    assert(t.subrange(72, 86) =~= d);
    assert(text::stands_at(t, 72, d));
    let d = declaration("HV "@, unsigned("__HV__"@));
    assert(t.subrange(110, 124) =~= d);
    assert(text::stands_at(t, 110, d));
}

/// The recurrence declares the widths of keys and values.
pub proof fn recurrence_kernel_declares_its_numbers(head_k_dim: nat, head_v_dim: nat)
    ensures
        declares(gated_delta::msl_for_text(head_k_dim, head_v_dim), "HK "@, number(head_k_dim)),
        declares(gated_delta::msl_for_text(head_k_dim, head_v_dim), "HV "@, number(head_v_dim)),
{
    lemma_recurrence();
    lemma_words();
    let p = "__HK__"@;
    let n = head_k_dim;
    lemma_fill(gated_delta::MSL_TEMPLATE@, "HK "@, unsigned("__HK__"@), p, n);
    lemma_own(p, n);
    lemma_fill(gated_delta::MSL_TEMPLATE@, "HV "@, unsigned("__HV__"@), p, n);
    lemma_places_apart("__HV__"@, p, n);
    let t1 = filled(gated_delta::MSL_TEMPLATE@, p, n);
    let p = "__HV__"@;
    let n = head_v_dim;
    lemma_fill(t1, "HK "@, number(head_k_dim), p, n);
    lemma_kept(p, head_k_dim, n);
    lemma_fill(t1, "HV "@, unsigned("__HV__"@), p, n);
    lemma_own(p, n);
    let t2 = filled(t1, p, n);
}

proof fn lemma_convolution()
    ensures
        declares(gated_delta_block::CONV_SILU_TEMPLATE@, "KSZ "@, unsigned("__KSZ__"@)),
{
    reveal_strlit(r#"
#include <metal_stdlib>
using namespace metal;

constant constexpr uint KSZ = __KSZ__u;

struct Dims { uint channels; uint pad0; uint pad1; uint pad2; };

kernel void kmain(
    device const float *x    [[buffer(0)]],
    device const float *w    [[buffer(1)]],
    device       float *hist [[buffer(2)]],
    device       float *y    [[buffer(3)]],
    constant     Dims  &dims [[buffer(4)]],
    uint c [[thread_position_in_grid]]
) {
    if (c >= dims.channels) return;
    device       float *h  = hist + c * (KSZ - 1u);
    device const float *wc = w + c * KSZ;
    float xc = x[c];
    // Extended timeline [hist(KSZ-1) ++ x]: tap k < KSZ-1 reads hist[k],
    // the newest tap reads x.
    float acc = wc[KSZ - 1u] * xc;
    for (uint k = 0; k + 1u < KSZ; k++) acc += wc[k] * h[k];
    y[c] = acc / (1.0f + exp(-acc));
    // New history = trailing KSZ-1 of the extended timeline.
    for (uint k = 0; k + 2u < KSZ; k++) h[k] = h[k + 1u];
    h[KSZ - 2u] = xc;
}
"#);
    reveal_strlit("KSZ ");
    reveal_strlit("__KSZ__");
    let t = gated_delta_block::CONV_SILU_TEMPLATE@;
    let d = declaration("KSZ "@, unsigned("__KSZ__"@));
    assert(t.subrange(72, 88) =~= d);
    assert(text::stands_at(t, 72, d));
}

/// The convolution declares its taps.
pub proof fn convolution_kernel_declares_its_numbers(kernel_size: nat)
    ensures
        declares(gated_delta_block::msl_conv_silu_text(kernel_size), "KSZ "@, number(kernel_size)),
{
    lemma_convolution();
    lemma_words();
    let p = "__KSZ__"@;
    let n = kernel_size;
    lemma_fill(gated_delta_block::CONV_SILU_TEMPLATE@, "KSZ "@, unsigned("__KSZ__"@), p, n);
    lemma_own(p, n);
    let t1 = filled(gated_delta_block::CONV_SILU_TEMPLATE@, p, n);
}

proof fn lemma_preparation()
    ensures
        declares(gated_delta_block::PREP_TEMPLATE@, "HK    "@, unsigned("__HK__"@)),
        declares(gated_delta_block::PREP_TEMPLATE@, "NSG   "@, unsigned("__NSG__"@)),
        declares(gated_delta_block::PREP_TEMPLATE@, "RATIO "@, unsigned("__RATIO__"@)),
{
    reveal_strlit(r#"
#include <metal_stdlib>
using namespace metal;

constant constexpr uint HK    = __HK__u;
constant constexpr uint NSG   = __NSG__u;   // HK / 32 simdgroups per threadgroup
constant constexpr uint RATIO = __RATIO__u; // num_v_heads / num_k_heads

struct Dims { uint kd; uint num_heads; float q_scale; float l2_eps; };

kernel void kmain(
    device const float *y       [[buffer(0)]],
    device const float *b       [[buffer(1)]],
    device const float *a       [[buffer(2)]],
    device const float *a_log   [[buffer(3)]],
    device const float *dt_bias [[buffer(4)]],
    device       float *q_h     [[buffer(5)]],
    device       float *k_h     [[buffer(6)]],
    device       float *decay   [[buffer(7)]],
    device       float *beta    [[buffer(8)]],
    constant     Dims  &dims    [[buffer(9)]],
    uint hi   [[threadgroup_position_in_grid]],
    uint i    [[thread_position_in_threadgroup]],
    uint lane [[thread_index_in_simdgroup]],
    uint sg   [[simdgroup_index_in_threadgroup]]
) {
    threadgroup float pq[NSG];
    threadgroup float pk[NSG];
    uint src = hi / RATIO;
    float qv = y[src * HK + i];
    float kv = y[dims.kd + src * HK + i];
    float sq = simd_sum(qv * qv);
    float sk = simd_sum(kv * kv);
    if (lane == 0) { pq[sg] = sq; pk[sg] = sk; }
    threadgroup_barrier(mem_flags::mem_threadgroup);
    float tq = 0.0f, tk = 0.0f;
    for (uint s = 0; s < NSG; s++) { tq += pq[s]; tk += pk[s]; }
    float inv_q = rsqrt(tq + dims.l2_eps);
    float inv_k = rsqrt(tk + dims.l2_eps);
    q_h[hi * HK + i] = qv * inv_q * dims.q_scale;
    k_h[hi * HK + i] = kv * inv_k;
    if (i == 0) {
        float bb = b[hi];
        beta[hi] = 1.0f / (1.0f + exp(-bb));
        float aa = a[hi] + dt_bias[hi];
        float sp = (aa > 20.0f) ? aa : log(1.0f + exp(aa));
        decay[hi] = exp(-exp(a_log[hi]) * sp);
    }
}
"#);
    reveal_strlit("HK    ");
    reveal_strlit("__HK__");
    reveal_strlit("NSG   ");
    reveal_strlit("__NSG__");
    reveal_strlit("RATIO ");
    reveal_strlit("__RATIO__");
    let t = gated_delta_block::PREP_TEMPLATE@;
    let d = declaration("HK    "@, unsigned("__HK__"@));
    assert(t.subrange(72, 89) =~= d);
    assert(text::stands_at(t, 72, d));
    let d = declaration("NSG   "@, unsigned("__NSG__"@));
    assert(t.subrange(113, 131) =~= d);
    assert(text::stands_at(t, 113, d));
    let d = declaration("RATIO "@, unsigned("__RATIO__"@));
    assert(t.subrange(195, 215) =~= d);
    assert(text::stands_at(t, 195, d));
}

/// The preparation declares the key width, its SIMD groups of 32, and how many
/// value heads share a key head.
pub proof fn preparation_kernel_declares_its_numbers(head_k_dim: nat, ratio: nat)
    ensures
        declares(gated_delta_block::msl_prep_text(head_k_dim, ratio), "HK    "@, number(head_k_dim)),
        declares(gated_delta_block::msl_prep_text(head_k_dim, ratio), "NSG   "@, number(head_k_dim / 32)),
        declares(gated_delta_block::msl_prep_text(head_k_dim, ratio), "RATIO "@, number(ratio)),
{
    lemma_preparation();
    lemma_words();
    let p = "__HK__"@;
    let n = head_k_dim;
    lemma_fill(gated_delta_block::PREP_TEMPLATE@, "HK    "@, unsigned("__HK__"@), p, n);
    lemma_own(p, n);
    lemma_fill(gated_delta_block::PREP_TEMPLATE@, "NSG   "@, unsigned("__NSG__"@), p, n);
    lemma_places_apart("__NSG__"@, p, n);
    lemma_fill(gated_delta_block::PREP_TEMPLATE@, "RATIO "@, unsigned("__RATIO__"@), p, n);
    lemma_places_apart("__RATIO__"@, p, n);
    let t1 = filled(gated_delta_block::PREP_TEMPLATE@, p, n);
    let p = "__NSG__"@;
    let n = head_k_dim / 32;
    lemma_fill(t1, "HK    "@, number(head_k_dim), p, n);
    lemma_kept(p, head_k_dim, n);
    lemma_fill(t1, "NSG   "@, unsigned("__NSG__"@), p, n);
    lemma_own(p, n);
    lemma_fill(t1, "RATIO "@, unsigned("__RATIO__"@), p, n);
    lemma_places_apart("__RATIO__"@, p, n);
    let t2 = filled(t1, p, n);
    let p = "__RATIO__"@;
    let n = ratio;
    lemma_fill(t2, "HK    "@, number(head_k_dim), p, n);
    lemma_kept(p, head_k_dim, n);
    lemma_fill(t2, "NSG   "@, number(head_k_dim / 32), p, n);
    lemma_kept(p, head_k_dim / 32, n);
    lemma_fill(t2, "RATIO "@, unsigned("__RATIO__"@), p, n);
    lemma_own(p, n);
    let t3 = filled(t2, p, n);
}

proof fn lemma_gated_norm()
    ensures
        declares(gated_delta_block::GATED_NORM_TEMPLATE@, "HV  "@, unsigned("__HV__"@)),
        declares(gated_delta_block::GATED_NORM_TEMPLATE@, "NSG "@, unsigned("__NSG__"@)),
{
    reveal_strlit(r#"
#include <metal_stdlib>
using namespace metal;

constant constexpr uint HV  = __HV__u;
constant constexpr uint NSG = __NSG__u;   // HV / 32

struct Dims { uint num_heads; float eps; uint pad0; uint pad1; };

kernel void kmain(
    device const float *out    [[buffer(0)]],
    device const float *z      [[buffer(1)]],
    device const float *norm_w [[buffer(2)]],
    device       float *gated  [[buffer(3)]],
    constant     Dims  &dims   [[buffer(4)]],
    uint hi   [[threadgroup_position_in_grid]],
    uint j    [[thread_position_in_threadgroup]],
    uint lane [[thread_index_in_simdgroup]],
    uint sg   [[simdgroup_index_in_threadgroup]]
) {
    threadgroup float p[NSG];
    uint idx = hi * HV + j;
    float r = out[idx];
    float s = simd_sum(r * r);
    if (lane == 0) p[sg] = s;
    threadgroup_barrier(mem_flags::mem_threadgroup);
    float t = 0.0f;
    for (uint k = 0; k < NSG; k++) t += p[k];
    float inv = rsqrt(t / float(HV) + dims.eps);
    float zz = z[idx];
    gated[idx] = r * inv * norm_w[j] * (zz / (1.0f + exp(-zz)));
}
"#);
    reveal_strlit("HV  ");
    reveal_strlit("__HV__");
    reveal_strlit("NSG ");
    reveal_strlit("__NSG__");
    let t = gated_delta_block::GATED_NORM_TEMPLATE@;
    let d = declaration("HV  "@, unsigned("__HV__"@));
    assert(t.subrange(72, 87) =~= d);
    assert(text::stands_at(t, 72, d));
    let d = declaration("NSG "@, unsigned("__NSG__"@));
    assert(t.subrange(111, 127) =~= d);
    assert(text::stands_at(t, 111, d));
}

/// The gated norm declares the value width and its SIMD groups of 32.
pub proof fn gated_norm_kernel_declares_its_numbers(head_v_dim: nat)
    ensures
        declares(gated_delta_block::msl_gated_norm_text(head_v_dim), "HV  "@, number(head_v_dim)),
        declares(gated_delta_block::msl_gated_norm_text(head_v_dim), "NSG "@, number(head_v_dim / 32)),
{
    lemma_gated_norm();
    lemma_words();
    let p = "__HV__"@;
    let n = head_v_dim;
    lemma_fill(gated_delta_block::GATED_NORM_TEMPLATE@, "HV  "@, unsigned("__HV__"@), p, n);
    lemma_own(p, n);
    lemma_fill(gated_delta_block::GATED_NORM_TEMPLATE@, "NSG "@, unsigned("__NSG__"@), p, n);
    lemma_places_apart("__NSG__"@, p, n);
    let t1 = filled(gated_delta_block::GATED_NORM_TEMPLATE@, p, n);
    let p = "__NSG__"@;
    let n = head_v_dim / 32;
    lemma_fill(t1, "HV  "@, number(head_v_dim), p, n);
    lemma_kept(p, head_v_dim, n);
    lemma_fill(t1, "NSG "@, unsigned("__NSG__"@), p, n);
    lemma_own(p, n);
    let t2 = filled(t1, p, n);
}

/// The kernels that are built for a geometry declare just that one.
pub proof fn geometry_kernels_declare_the_geometry(g: Geometry)
    ensures
        declares(geometry_text(Kernel::Attn, g), "NUM_HEADS "@, number(g.num_heads as nat)),
        declares(geometry_text(Kernel::Attn, g), "KV_HEADS  "@, number(g.kv_heads as nat)),
        declares(geometry_text(Kernel::Attn, g), "HEAD_DIM  "@, number(g.head_dim as nat)),
        declares(geometry_text(Kernel::Attn, g), "MAX_SEQ   "@, number(g.max_seq as nat)),
        declares(geometry_text(Kernel::KvAppend, g), "KV_HEADS  "@, number(g.kv_heads as nat)),
        declares(geometry_text(Kernel::KvAppend, g), "HEAD_DIM  "@, number(g.head_dim as nat)),
        declares(geometry_text(Kernel::KvAppend, g), "MAX_SEQ   "@, number(g.max_seq as nat)),
        declares(geometry_text(Kernel::KvAppendBoth, g), "KV_HEADS  "@, number(g.kv_heads as nat)),
        declares(geometry_text(Kernel::KvAppendBoth, g), "HEAD_DIM  "@, number(g.head_dim as nat)),
        declares(geometry_text(Kernel::KvAppendBoth, g), "MAX_SEQ   "@, number(g.max_seq as nat)),
        declares(geometry_text(Kernel::RopeKvAttn, g), "NUM_HEADS "@, number(g.num_heads as nat)),
        declares(geometry_text(Kernel::RopeKvAttn, g), "KV_HEADS  "@, number(g.kv_heads as nat)),
        declares(geometry_text(Kernel::RopeKvAttn, g), "MAX_SEQ   "@, number(g.max_seq as nat)),
        declares(
            geometry_text(Kernel::GeometryQkNormRope, g),
            "HALF     "@,
            number(g.head_dim as nat / 2),
        ),
{
    let (h, kv, d, m) = (
        g.num_heads as nat,
        g.kv_heads as nat,
        g.head_dim as nat,
        g.max_seq as nat,
    );
    attention_kernel_declares_its_numbers(h, kv, d, m);
    append_kernel_declares_its_numbers(kv, d, m);
    append_both_kernel_declares_its_numbers(kv, d, m);
    rope_append_attention_kernel_declares_its_numbers(h, kv, m);
    norm_rope_kernel_declares_its_numbers(d);
}

} // verus!
