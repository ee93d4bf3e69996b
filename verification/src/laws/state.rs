//! Attention caches and pooled buffers: which of them is found.

use vstd::prelude::*;
use vstd::arithmetic::power2::pow2;

use crate::honeycrisp::attention_state::{
    ensured, first_of, first_serving, has_slots, is_change, slot_of, unseen, AttnChange, EntryView,
    Geometry,
};
use crate::honeycrisp::buffers::{is_class_of, is_power_of_two, is_transposed, last_of, Pooled};
use crate::honeycrisp::decode::{scratch_sizes, DecodeShape};

verus! {

proof fn lemma_first_of(table: Seq<EntryView>, g: Geometry, from: int)
    requires
        0 <= from,
    ensures
        match first_of(table, g, from) {
            Some(i) => from <= i < table.len() && table[i].geometry == g && forall|j: int|
                from <= j < i ==> (#[trigger] table[j]).geometry != g,
            None => forall|j: int| from <= j < table.len() ==> (#[trigger] table[j]).geometry != g,
        },
    decreases table.len() - from,
{
    if from < table.len() && table[from].geometry != g {
        lemma_first_of(table, g, from + 1);
    }
}

/// The entry of a geometry is the first that has it.
pub proof fn geometries_mean_their_first_entry(table: Seq<EntryView>, g: Geometry)
    ensures
        match first_of(table, g, 0) {
            Some(i) => 0 <= i < table.len() && table[i].geometry == g && forall|j: int|
                0 <= j < i ==> (#[trigger] table[j]).geometry != g,
            None => forall|j: int| 0 <= j < table.len() ==> (#[trigger] table[j]).geometry != g,
        },
{
    lemma_first_of(table, g, 0);
}

/// The tables of an entry will do: it has none, none are wanted, or they are of
/// the width that is wanted.
pub open spec fn tables_do(e: EntryView, pairs: u32) -> bool {
    e.rope_half == pairs || e.rope_half == 0 || pairs == 0
}

proof fn lemma_first_serving(table: Seq<EntryView>, g: Geometry, pairs: u32, from: int)
    requires
        0 <= from,
    ensures
        match first_serving(table, g, pairs, from) {
            Some(i) => from <= i < table.len() && table[i].geometry == g && tables_do(
                table[i],
                pairs,
            ) && forall|j: int|
                from <= j < i ==> !((#[trigger] table[j]).geometry == g && tables_do(
                    table[j],
                    pairs,
                )),
            None => forall|j: int|
                from <= j < table.len() ==> !((#[trigger] table[j]).geometry == g && tables_do(
                    table[j],
                    pairs,
                )),
        },
    decreases table.len() - from,
{
    if from < table.len() && !(table[from].geometry == g && tables_do(table[from], pairs)) {
        lemma_first_serving(table, g, pairs, from + 1);
    }
}

/// The entry that grows is the first of the geometry whose tables will do.
pub proof fn the_first_serving_entry_grows(table: Seq<EntryView>, g: Geometry, pairs: u32)
    ensures
        match first_serving(table, g, pairs, 0) {
            Some(i) => 0 <= i < table.len() && table[i].geometry == g && tables_do(table[i], pairs)
                && forall|j: int|
                0 <= j < i ==> !((#[trigger] table[j]).geometry == g && tables_do(
                    table[j],
                    pairs,
                )),
            None => forall|j: int|
                0 <= j < table.len() ==> !((#[trigger] table[j]).geometry == g && tables_do(
                    table[j],
                    pairs,
                )),
        },
{
    lemma_first_serving(table, g, pairs, 0);
}

proof fn lemma_slot(known: Seq<usize>, from: int, i: int)
    requires
        0 <= from <= i < known.len(),
        forall|j: int| from <= j < i ==> #[trigger] known[j] != known[i],
    ensures
        slot_of(known, known[i], from) == i,
    decreases i - from,
{
    if from < i {
        assert(known[from] != known[i]);
        lemma_slot(known, from + 1, i);
    }
}

/// The slot of a layer is its place among the layers of the entry, so that
/// two layers never share one.
pub proof fn layers_have_slots_of_their_own(known: Seq<usize>, a: int, b: int)
    requires
        known.no_duplicates(),
        0 <= a < known.len(),
        0 <= b < known.len(),
    ensures
        slot_of(known, known[a], 0) == a,
        a != b ==> slot_of(known, known[a], 0) != slot_of(known, known[b], 0),
{
    lemma_slot(known, 0, a);
    lemma_slot(known, 0, b);
}

proof fn lemma_unseen(known: Seq<usize>, wanted: Seq<usize>, x: usize)
    ensures
        unseen(known, wanted).contains(x) <==> wanted.contains(x) && !known.contains(x),
        unseen(known, wanted).no_duplicates(),
    decreases wanted.len(),
{
    if wanted.len() > 0 {
        let before = wanted.drop_last();
        let last = wanted.last();
        lemma_unseen(known, before, x);
        lemma_unseen(known, before, last);
        let u = unseen(known, before);
        let all = unseen(known, wanted);
        if wanted.contains(x) {
            let i = choose|i: int| 0 <= i < wanted.len() && wanted[i] == x;
            if i < before.len() {
                assert(before[i] == x);
            }
        }
        if before.contains(x) {
            let i = choose|i: int| 0 <= i < before.len() && before[i] == x;
            assert(wanted[i] == x);
        }
        assert(wanted[wanted.len() - 1] == last);
        if u.contains(x) {
            let i = choose|i: int| 0 <= i < u.len() && u[i] == x;
            assert(all[i] == x);
        }
        if all.contains(x) && x != last {
            let i = choose|i: int| 0 <= i < all.len() && all[i] == x;
            if i < u.len() {
                assert(u[i] == x);
            }
        }
        if all.len() > u.len() {
            assert(all[u.len() as int] == last);
        }
    }
}

/// A slot is made for just the layers that are wanted and have none, once for
/// each.
pub proof fn new_layers_get_a_slot_each(known: Seq<usize>, wanted: Seq<usize>, x: usize)
    ensures
        unseen(known, wanted).contains(x) <==> wanted.contains(x) && !known.contains(x),
        unseen(known, wanted).no_duplicates(),
{
    lemma_unseen(known, wanted, x);
}

/// Up to 4096 bytes the class is 4096; above, the next power of two.
pub proof fn classes_are_the_next_power(size: int, k: nat)
    requires
        0 <= size,
    ensures
        size <= 4096 ==> is_class_of(4096, size),
        k >= 13 && pow2((k - 1) as nat) < size <= pow2(k) ==> is_class_of(pow2(k) as int, size),
        forall|c: int| size <= 4096 && #[trigger] is_class_of(c, size) ==> c == 4096,
{
    vstd::arithmetic::power2::lemma2_to64();
    assert(4096 == pow2(12));
    assert(is_power_of_two(4096));
    if k >= 13 {
        vstd::arithmetic::power2::lemma_pow2_unfold(k);
        if k > 13 {
            vstd::arithmetic::power2::lemma_pow2_strictly_increases(13, k);
        }
        assert(is_power_of_two(pow2(k) as int));
    }
    assert forall|c: int| size <= 4096 && #[trigger] is_class_of(c, size) implies c == 4096 by {
        if c > 4096 {
            let j = choose|j: nat| c == #[trigger] pow2(j);
            if j < 13 {
                if j < 12 {
                    vstd::arithmetic::power2::lemma_pow2_strictly_increases(j, 12);
                }
            } else if j > 13 {
                vstd::arithmetic::power2::lemma_pow2_strictly_increases(13, j);
            }
        }
    }
}

/// The buffer that is taken is the last of its class that was returned.
pub proof fn the_last_of_a_class_is_taken(waiting: Seq<Pooled>, class: usize, to: int)
    requires
        0 <= to <= waiting.len(),
    ensures
        match last_of(waiting, class, to) {
            Some(i) => 0 <= i < to && waiting[i].class == class && forall|j: int|
                i < j < to ==> (#[trigger] waiting[j]).class != class,
            None => forall|j: int| 0 <= j < to ==> (#[trigger] waiting[j]).class != class,
        },
    decreases to,
{
    if to > 0 && waiting[to - 1].class != class {
        the_last_of_a_class_is_taken(waiting, class, to - 1);
    }
}

/// Blocks of 34 bytes change rows and columns; within a block nothing moves.
pub proof fn blocks_change_rows_and_columns(
    dst: Seq<u8>,
    src: Seq<u8>,
    rows: int,
    blocks: int,
    row: int,
    block: int,
    k: int,
)
    requires
        is_transposed(dst, src, rows, blocks),
        0 <= row < rows,
        0 <= block < blocks,
        0 <= k < 34,
    ensures
        dst.len() == rows * blocks * 34,
        dst[34 * (block * rows + row) + k] == src[34 * (row * blocks + block) + k],
{
    assert(crate::honeycrisp::buffers::block_byte(dst, block, row, rows, k)
        == crate::honeycrisp::buffers::block_byte(src, row, block, blocks, k));
}

/// The scratch buffers of a token hold a float for each number: three hidden
/// states, the query and the attention output, the key and the value, and the
/// gated product; with head norms the rotated query and key besides.
pub proof fn scratch_holds_the_numbers(d: DecodeShape)
    requires
        d.fits(),
    ensures
        scratch_sizes(d).len() == if d.has_qk_norm {
            10nat
        } else {
            8
        },
        scratch_sizes(d)[0] == 4 * d.k_dim && scratch_sizes(d)[1] == 4 * d.k_dim
            && scratch_sizes(d)[2] == 4 * d.k_dim,
        scratch_sizes(d)[3] == 4 * (d.num_heads * d.head_dim),
        scratch_sizes(d)[6] == 4 * (d.num_heads * d.head_dim),
        scratch_sizes(d)[4] == 4 * (d.kv_heads * d.head_dim),
        scratch_sizes(d)[5] == 4 * (d.kv_heads * d.head_dim),
        scratch_sizes(d)[7] == 4 * d.inter_size,
        d.has_qk_norm ==> scratch_sizes(d)[8] == 4 * (d.num_heads * d.head_dim),
        d.has_qk_norm ==> scratch_sizes(d)[9] == 4 * (d.kv_heads * d.head_dim),
{
    assert(0 <= d.num_heads * d.head_dim && 0 <= d.kv_heads * d.head_dim) by (nonlinear_arith);
}

/// Making room changes one entry: it keeps its geometry and its tables, and its
/// layers keep their slots before the new ones. A new entry has the tables that
/// are wanted.
pub proof fn making_room_changes_one_entry(
    table: Seq<EntryView>,
    g: Geometry,
    layers: Seq<usize>,
    pairs: u32,
    j: int,
)
    ensures
        ({
            let r = ensured(table, g, layers, pairs);
            match first_serving(table, g, pairs, 0) {
                Some(i) => {
                    &&& r.len() == table.len()
                    &&& r[i].geometry == g && r[i].rope_half == table[i].rope_half
                    &&& r[i].layers.len() >= table[i].layers.len()
                    &&& r[i].layers.take(table[i].layers.len() as int) == table[i].layers
                    &&& 0 <= j < table.len() && j != i ==> r[j] == table[j]
                },
                None => {
                    &&& r.len() == table.len() + 1
                    &&& r.last().geometry == g && r.last().rope_half == pairs
                    &&& 0 <= j < table.len() ==> r[j] == table[j]
                },
            }
        }),
{
    lemma_first_serving(table, g, pairs, 0);
    match first_serving(table, g, pairs, 0) {
        Some(i) => {
            let old_layers = table[i].layers;
            assert((old_layers + unseen(old_layers, layers)).take(old_layers.len() as int)
                =~= old_layers);
        },
        None => {},
    }
}

/// Nothing is allocated where one entry of the geometry has a slot for every
/// layer.
pub proof fn slots_are_there_for_all_layers(table: Seq<EntryView>, g: Geometry, layers: Seq<usize>)
    ensures
        has_slots(table, g, layers) <==> exists|i: int|
            0 <= i < table.len() && (#[trigger] table[i]).geometry == g && forall|j: int|
                0 <= j < layers.len() ==> table[i].layers.contains(#[trigger] layers[j]),
{
}

/// What is allocated is a cache for just the layers that have none: in the
/// first entry that serves, or in a new one where none does.
pub proof fn caches_are_allocated_for_new_layers(
    table: Seq<EntryView>,
    g: Geometry,
    layers: Seq<usize>,
    pairs: u32,
    c: AttnChange,
    x: usize,
)
    requires
        is_change(table, g, layers, pairs, c),
    ensures
        match c {
            AttnChange::Grow { entry, layers: new } => {
                &&& entry < table.len() && table[entry as int].geometry == g && tables_do(
                    table[entry as int],
                    pairs,
                )
                &&& new@.contains(x) <==> layers.contains(x) && !table[entry as int].layers.contains(
                    x,
                )
                &&& new@.no_duplicates()
            },
            AttnChange::Create { layers: new } => {
                &&& forall|j: int|
                    0 <= j < table.len() ==> !((#[trigger] table[j]).geometry == g && tables_do(
                        table[j],
                        pairs,
                    ))
                &&& new@.contains(x) <==> layers.contains(x)
                &&& new@.no_duplicates()
            },
        },
{
    lemma_first_serving(table, g, pairs, 0);
    match first_serving(table, g, pairs, 0) {
        Some(i) => {
            lemma_unseen(table[i].layers, layers, x);
        },
        None => {
            lemma_unseen(Seq::empty(), layers, x);
        },
    }
}

} // verus!
