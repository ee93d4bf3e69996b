//! Kernel sources with a threadgroup cache: one constant, the number of blocks
//! that the cache holds, is put into the text.

use vstd::prelude::*;

use crate::plan::{Kernel, StepView};
use crate::text::{
    decimal, fill, filled, filled_places_stay_filled, holds, lemma_decimal_digits,
    lemma_nothing_replaced, lemma_replaced_once, lemma_replaced_parts, replaced, stands_at,
};

verus! {

/// The declaration of the size of the cache, with a place for the number.
pub const CACHE_LINE: &'static str = " MAX_BLOCKS = __MAX_BLOCKS__;";

/// A source before the number of blocks is put in.
pub open spec fn template(head: Seq<char>, tail: Seq<char>) -> Seq<char> {
    head + CACHE_LINE@ + tail
}

/// The source with a cache of `n` blocks.
pub open spec fn cached_text(head: Seq<char>, tail: Seq<char>, n: nat) -> Seq<char> {
    filled(template(head, tail), "__MAX_BLOCKS__"@, n)
}

/// The declaration of a cache of `n` blocks.
pub open spec fn cache_line(n: nat) -> Seq<char> {
    "MAX_BLOCKS = "@ + decimal(n) + ";"@
}

/// The source declares a cache of `n` blocks, and no place for a number is
/// left in it.
pub open spec fn declares_cache(source: Seq<char>, n: nat) -> bool {
    &&& holds(source, cache_line(n))
    &&& !holds(source, "__MAX_BLOCKS__"@)
}

/// The source is the two texts with the declaration between them, once the
/// texts are filled in as well.
proof fn lemma_cached_text(head: Seq<char>, tail: Seq<char>, n: nat)
    ensures
        cached_text(head, tail, n) == filled(head, "__MAX_BLOCKS__"@, n) + seq![' '] + cache_line(n)
            + filled(tail, "__MAX_BLOCKS__"@, n),
{
    let slot = "__MAX_BLOCKS__"@;
    let with = decimal(n);
    reveal_strlit("__MAX_BLOCKS__");
    reveal_strlit(" MAX_BLOCKS = __MAX_BLOCKS__;");
    reveal_strlit("MAX_BLOCKS = ");
    reveal_strlit(";");
    let name = seq!['M', 'A', 'X', '_', 'B', 'L', 'O', 'C', 'K', 'S', ' ', '='];
    let before = head + seq![' '] + name;
    assert(template(head, tail) =~= (before + seq![' '] + slot) + seq![';'] + tail);
    lemma_replaced_parts(before + seq![' '] + slot, ';', tail, slot, with);
    lemma_replaced_parts(before, ' ', slot, slot, with);
    lemma_replaced_parts(head, ' ', name, slot, with);
    assert(replaced(name, slot, with) == name);
    assert(slot.take(slot.len() as int) =~= slot);
    assert(replaced(slot.skip(slot.len() as int), slot, with) =~= Seq::<char>::empty());
    assert(replaced(slot, slot, with) =~= with);
    assert(cache_line(n) =~= name + seq![' '] + with + seq![';']);
    assert(cached_text(head, tail, n) =~= replaced(head, slot, with) + seq![' '] + cache_line(n)
        + replaced(tail, slot, with));
}

/// A source declares the cache that it was asked for, with no place left
/// open.
pub proof fn source_declares_its_cache(head: Seq<char>, tail: Seq<char>, n: nat)
    ensures
        declares_cache(cached_text(head, tail, n), n),
{
    let slot = "__MAX_BLOCKS__"@;
    let out = cached_text(head, tail, n);
    lemma_cached_text(head, tail, n);
    let i = filled(head, slot, n).len() as int + 1;
    assert(out.subrange(i, i + cache_line(n).len()) =~= cache_line(n));
    assert(stands_at(out, i, cache_line(n)));
    reveal_strlit("__MAX_BLOCKS__");
    filled_places_stay_filled(template(head, tail), slot, n, slot);
}

/// Where neither text has a place of its own for the number, the source is
/// the two texts with the declaration between them.
proof fn source_is_the_texts_around_the_cache(head: Seq<char>, tail: Seq<char>, n: nat)
    requires
        !holds(head, "__MAX_BLOCKS__"@),
        !holds(tail, "__MAX_BLOCKS__"@),
    ensures
        cached_text(head, tail, n) == head + " "@ + cache_line(n) + tail,
{
    lemma_cached_text(head, tail, n);
    lemma_nothing_replaced(head, "__MAX_BLOCKS__"@, decimal(n));
    lemma_nothing_replaced(tail, "__MAX_BLOCKS__"@, decimal(n));
    reveal_strlit(" ");
    assert(" "@ =~= seq![' ']);
}

/// The declaration of the default size, written out.
proof fn lemma_default_line()
    ensures
        cache_line(128) == "MAX_BLOCKS = 128;"@,
{
    reveal_strlit("MAX_BLOCKS = ");
    reveal_strlit(";");
    reveal_strlit("MAX_BLOCKS = 128;");
    reveal_with_fuel(decimal, 3);
    assert(decimal(128) =~= seq!['1', '2', '8']);
    assert(cache_line(128) =~= "MAX_BLOCKS = 128;"@);
}

/// Neither two underscores nor `KS =` begin at place `i` of the text.
pub open spec fn plain_at(s: Seq<char>, i: int) -> bool {
    &&& !(s[i] == '_' && i + 1 < s.len() && s[i + 1] == '_')
    &&& !(s[i] == 'K' && i + 3 < s.len() && s[i + 1] == 'S' && s[i + 2] == ' ' && s[i + 3] == '=')
}

/// The text has no place for a number and declares no cache: no two underscores
/// stand side by side in it, and no name that ends in `KS` is given a value.
pub open spec fn plain(s: Seq<char>) -> bool {
    forall|i: int| 0 <= i < s.len() ==> #[trigger] plain_at(s, i)
}

/// A plain text has no place for the number of blocks.
pub proof fn plain_texts_have_no_place(s: Seq<char>)
    requires
        plain(s),
    ensures
        !holds(s, "__MAX_BLOCKS__"@),
{
    reveal_strlit("__MAX_BLOCKS__");
    let slot = "__MAX_BLOCKS__"@;
    assert forall|i: int| !#[trigger] stands_at(s, i, slot) by {
        if stands_at(s, i, slot) {
            assert(plain_at(s, i));
            let here = s.subrange(i, i + slot.len());
            assert(here[0] == s[i] && here[1] == s[i + 1]);
            assert(here[0] == '_' && here[1] == '_');
        }
    }
}

/// Around plain texts, the source is the two texts with the declaration between
/// them.
pub proof fn plain_source(head: Seq<char>, tail: Seq<char>, n: nat)
    requires
        plain(head),
        plain(tail),
    ensures
        cached_text(head, tail, n) == head + " "@ + cache_line(n) + tail,
{
    plain_texts_have_no_place(head);
    plain_texts_have_no_place(tail);
    source_is_the_texts_around_the_cache(head, tail, n);
}

/// The characters of a declaration, as far as they do not depend on the number.
proof fn lemma_line(n: nat)
    ensures
        cache_line(n).len() >= 15,
        cache_line(n)[0] == 'M',
        cache_line(n)[8] == 'K',
        cache_line(n)[9] == 'S',
        cache_line(n)[10] == ' ',
        cache_line(n)[11] == '=',
        forall|k: int|
            0 <= k < cache_line(n).len() && #[trigger] cache_line(n)[k] == 'K' ==> k == 8,
{
    reveal_strlit("MAX_BLOCKS = ");
    reveal_strlit(";");
    lemma_decimal_digits(n);
    let line = cache_line(n);
    assert forall|k: int| 0 <= k < line.len() && #[trigger] line[k] == 'K' implies k == 8 by {
        if 13 <= k < line.len() - 1 {
            assert(line[k] == decimal(n)[k - 13]);
        }
    }
}

/// Around plain texts, the declaration of the cache stands in one place.
proof fn lemma_declared_once(head: Seq<char>, line: Seq<char>, tail: Seq<char>, p: int)
    requires
        plain(head),
        plain(tail),
        line.len() >= 15,
        line[0] == 'M',
        line[8] == 'K',
        line[9] == 'S',
        line[10] == ' ',
        line[11] == '=',
        forall|k: int| 0 <= k < line.len() && #[trigger] line[k] == 'K' ==> k == 8,
        stands_at(head + seq![' '] + line + tail, p, line),
    ensures
        p == head.len() + 1,
{
    let s = head + seq![' '] + line + tail;
    let q = p + 8;
    assert(s.subrange(p, p + line.len()) == line);
    assert(s[q] == line[8] && s[q + 1] == line[9] && s[q + 2] == line[10] && s[q + 3] == line[11]);
    let start = head.len() as int + 1;
    assert(s[start - 1] == ' ');
    assert(s[start] == line[0]);
    if q + 3 < head.len() {
        assert(plain_at(head, q));
    } else if start <= q < start + line.len() {
        assert(line[q - start] == s[q]);
    } else if q >= start + line.len() {
        assert(plain_at(tail, q - start - line.len()));
    }
}

/// Sources with caches of two sizes differ in the number of blocks and in
/// nothing else: with the one declaration in place of the other, the one source
/// becomes the other.
pub proof fn sources_differ_in_the_cache_alone(head: Seq<char>, tail: Seq<char>, n: nat, m: nat)
    requires
        plain(head),
        plain(tail),
    ensures
        replaced(cached_text(head, tail, n), cache_line(n), cache_line(m)) == cached_text(
            head,
            tail,
            m,
        ),
{
    plain_source(head, tail, n);
    plain_source(head, tail, m);
    reveal_strlit(" ");
    assert(" "@ =~= seq![' ']);
    lemma_line(n);
    let before = head + seq![' '];
    assert forall|p: int|
        #[trigger] stands_at(before + cache_line(n) + tail, p, cache_line(n)) implies p
        == before.len() by {
        lemma_declared_once(head, cache_line(n), tail, p);
    }
    lemma_replaced_once(before, cache_line(n), tail, cache_line(m));
}

/// The source with a cache of `n` blocks.
pub fn cached_source(head: &str, tail: &str, n: usize) -> (source: String)
    ensures
        source@ == cached_text(head@, tail@, n as nat),
        declares_cache(source@, n as nat),
{
    let mut text = head.to_owned();
    text.append(CACHE_LINE);
    text.append(tail);
    proof {
        reveal_strlit("__MAX_BLOCKS__");
        source_declares_its_cache(head@, tail@, n as nat);
    }
    fill(text.as_str(), "__MAX_BLOCKS__", n)
}

/// The source with a cache of the default size.
pub fn default_source(head: &str, tail: &str) -> (source: String)
    ensures
        source@ == cached_text(head@, tail@, 128),
        declares_cache(source@, 128),
        holds(source@, "MAX_BLOCKS = 128;"@),
{
    proof {
        lemma_default_line();
    }
    cached_source(head, tail, 128)
}

/// Blocks that a kernel's threadgroup cache holds, of the kernels that have
/// one. Their third parameter is the number of blocks of a row.
pub open spec fn cache_of(k: Kernel) -> Option<nat> {
    match k {
        Kernel::Q4 | Kernel::Q8 | Kernel::Q4Dual | Kernel::Q8Dual | Kernel::Q4Gus | Kernel::Q8Gus
        | Kernel::Q4Res | Kernel::Q8Res | Kernel::Q4Qkv | Kernel::Q8Qkv => Some(128),
        Kernel::Q4Mb32 | Kernel::Q8Mb32 | Kernel::Q4DualMb32 | Kernel::Q8DualMb32
        | Kernel::Q4GusMb32 | Kernel::Q8GusMb32 | Kernel::Q4GusNrmMb32 | Kernel::Q8GusNrmMb32
        | Kernel::Q4NrmMb32 | Kernel::Q8NrmMb32 | Kernel::Q4DualNrmMb32
        | Kernel::Q8DualNrmMb32 => Some(32),
        Kernel::Q4GusNrmMb48 | Kernel::Q8GusNrmMb48 => Some(48),
        Kernel::Q4ResMb64 | Kernel::Q8ResMb64 | Kernel::Q4NrmMb64 | Kernel::Q8NrmMb64
        | Kernel::Q4DualNrmMb64 | Kernel::Q8DualNrmMb64 | Kernel::Q4GusNrmMb64
        | Kernel::Q8GusNrmMb64 | Kernel::Q8GusNrmMb64R4 => Some(64),
        Kernel::Q4ResMb96 | Kernel::Q8ResMb96 => Some(96),
        Kernel::Q8Mb192 => Some(192),
        Kernel::Q8Mbx16Res => Some(320),
        _ => None,
    }
}

/// The size of the cache is put into the kernel's source, rather than written
/// in it.
pub open spec fn sized_by_text(k: Kernel) -> bool {
    cache_of(k) is Some && !(k is Q4Qkv || k is Q8Qkv || k is Q8GusNrmMb64R4 || k is Q8Mbx16Res)
}

/// A row of the launch has no more blocks than the kernel caches.
pub open spec fn within_cache(step: StepView) -> bool {
    match step {
        StepView::Launch { kernel, params, .. } => cache_of(kernel) matches Some(n) ==> params.w2
            <= n,
        StepView::Barrier => true,
    }
}

/// No launch has rows of more blocks than its kernel caches.
pub open spec fn within_caches(steps: Seq<StepView>) -> bool {
    forall|i: int| 0 <= i < steps.len() ==> within_cache(#[trigger] steps[i])
}

} // verus!
