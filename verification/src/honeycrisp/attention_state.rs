//! Attention states: one per head geometry, each with compact cache slots for
//! the layers that use it.

use vstd::prelude::*;

verus! {

/// What the attention kernels bake in as constants.
#[derive(Clone, Copy, Debug, PartialEq, Eq, Structural)]
pub struct Geometry {
    pub num_heads: u32,
    pub kv_heads: u32,
    pub head_dim: u32,
    pub max_seq: u32,
}

/// The state of one geometry. `layers[slot]` is the model layer whose K and V
/// caches are in that slot: interleaved layers get slots without gaps.
#[derive(Debug, PartialEq, Eq)]
pub struct AttnEntry {
    pub geometry: Geometry,
    /// Rotated pairs of the precomputed tables; zero where there are none.
    pub rope_half: u32,
    pub layers: Vec<usize>,
}

/// The mathematical content of an [`AttnEntry`].
#[verifier::ext_equal]
pub struct EntryView {
    pub geometry: Geometry,
    pub rope_half: u32,
    pub layers: Seq<usize>,
}

impl View for AttnEntry {
    type V = EntryView;

    open spec fn view(&self) -> EntryView {
        EntryView { geometry: self.geometry, rope_half: self.rope_half, layers: self.layers@ }
    }
}

/// All attention states, oldest first.
#[derive(Debug, PartialEq, Eq)]
pub struct AttnTable {
    pub entries: Vec<AttnEntry>,
}

impl View for AttnTable {
    type V = Seq<EntryView>;

    open spec fn view(&self) -> Seq<EntryView> {
        self.entries@.map_values(|e: AttnEntry| e@)
    }
}

/// What must be allocated so that a geometry has caches for some layers.
#[derive(Debug, PartialEq, Eq)]
pub enum AttnChange {
    /// Append a K and a V cache to this entry for each layer.
    Grow { entry: usize, layers: Vec<usize> },
    /// Build a new entry with a K and a V cache for each layer.
    Create { layers: Vec<usize> },
}

/// No layer has two slots.
pub open spec fn table_wf(table: Seq<EntryView>) -> bool {
    forall|i: int| 0 <= i < table.len() ==> #[trigger] table[i].layers.no_duplicates()
}

/// The entry serves this geometry with tables for `rope_half` pairs. Zero
/// pairs, on either side, fit any.
pub open spec fn serves(e: EntryView, g: Geometry, rope_half: u32) -> bool {
    e.geometry == g && (rope_half == 0 || e.rope_half == 0 || e.rope_half == rope_half)
}

/// The first entry at or after `from` that serves the geometry.
pub open spec fn first_serving(
    table: Seq<EntryView>,
    g: Geometry,
    rope_half: u32,
    from: int,
) -> Option<int>
    decreases table.len() - from,
{
    if from < 0 || from >= table.len() {
        None
    } else if serves(table[from], g, rope_half) {
        Some(from)
    } else {
        first_serving(table, g, rope_half, from + 1)
    }
}

/// The first entry at or after `from` of this geometry.
pub open spec fn first_of(table: Seq<EntryView>, g: Geometry, from: int) -> Option<int>
    decreases table.len() - from,
{
    if from < 0 || from >= table.len() {
        None
    } else if table[from].geometry == g {
        Some(from)
    } else {
        first_of(table, g, from + 1)
    }
}

/// The wanted layers that are not known yet, each once, in order.
pub open spec fn unseen(known: Seq<usize>, wanted: Seq<usize>) -> Seq<usize>
    decreases wanted.len(),
{
    if wanted.len() == 0 {
        Seq::empty()
    } else {
        let before = unseen(known, wanted.drop_last());
        if known.contains(wanted.last()) || before.contains(wanted.last()) {
            before
        } else {
            before.push(wanted.last())
        }
    }
}

/// Some entry of this geometry has a slot for every layer.
pub open spec fn has_slots(table: Seq<EntryView>, g: Geometry, layers: Seq<usize>) -> bool {
    exists|i: int|
        0 <= i < table.len() && (#[trigger] table[i]).geometry == g && holds_all(
            table[i].layers,
            layers,
        )
}

/// The first slot at or after `from` that belongs to the layer.
pub open spec fn slot_of(known: Seq<usize>, layer: usize, from: int) -> int
    decreases known.len() - from,
{
    if from < 0 || from >= known.len() || known[from] == layer {
        from
    } else {
        slot_of(known, layer, from + 1)
    }
}

/// Every wanted layer has a slot.
pub open spec fn holds_all(known: Seq<usize>, wanted: Seq<usize>) -> bool {
    forall|j: int| 0 <= j < wanted.len() ==> known.contains(#[trigger] wanted[j])
}

/// The table after caches for the layers were added.
pub open spec fn ensured(
    table: Seq<EntryView>,
    g: Geometry,
    layers: Seq<usize>,
    rope_half: u32,
) -> Seq<EntryView> {
    match first_serving(table, g, rope_half, 0) {
        Some(i) => table.update(
            i,
            EntryView {
                geometry: table[i].geometry,
                rope_half: table[i].rope_half,
                layers: table[i].layers + unseen(table[i].layers, layers),
            },
        ),
        None => table.push(
            EntryView { geometry: g, rope_half, layers: unseen(Seq::empty(), layers) },
        ),
    }
}

/// What must be allocated so that the geometry has a slot for each layer.
pub open spec fn is_change(
    table: Seq<EntryView>,
    g: Geometry,
    layers: Seq<usize>,
    rope_half: u32,
    c: AttnChange,
) -> bool {
    match first_serving(table, g, rope_half, 0) {
        Some(i) => c matches AttnChange::Grow { entry, layers: new } && entry == i && new@
            == unseen(table[i].layers, layers),
        None => c matches AttnChange::Create { layers: new } && new@ == unseen(
            Seq::empty(),
            layers,
        ),
    }
}

fn contains_layer(layers: &Vec<usize>, layer: usize) -> (b: bool)
    ensures
        b == layers@.contains(layer),
{
    let mut i: usize = 0;
    while i < layers.len()
        invariant
            i <= layers@.len(),
            forall|j: int| 0 <= j < i ==> layers@[j] != layer,
        decreases layers@.len() - i,
    {
        if layers[i] == layer {
            return true;
        }
        i = i + 1;
    }
    false
}

fn unseen_layers(known: &Vec<usize>, wanted: &Vec<usize>) -> (new: Vec<usize>)
    ensures
        new@ == unseen(known@, wanted@),
{
    let mut new: Vec<usize> = Vec::new();
    let mut i: usize = 0;
    assert(wanted@.take(0) =~= Seq::<usize>::empty());
    while i < wanted.len()
        invariant
            i <= wanted@.len(),
            new@ == unseen(known@, wanted@.take(i as int)),
        decreases wanted@.len() - i,
    {
        let ghost head = wanted@.take(i + 1);
        assert(head.drop_last() =~= wanted@.take(i as int));
        assert(head.last() == wanted@[i as int]);
        if !contains_layer(known, wanted[i]) && !contains_layer(&new, wanted[i]) {
            new.push(wanted[i]);
        }
        i = i + 1;
    }
    assert(wanted@.take(wanted@.len() as int) =~= wanted@);
    new
}

impl AttnTable {
    /// A table without states.
    pub fn new() -> (t: AttnTable)
        ensures
            t@ == Seq::<EntryView>::empty(),
    {
        let t = AttnTable { entries: Vec::new() };
        assert(t@ =~= Seq::<EntryView>::empty());
        t
    }

    /// Forgets every state, and with it the cached keys and values.
    pub fn reset_gpu_kv_cache(&mut self)
        ensures
            final(self)@ == Seq::<EntryView>::empty(),
    {
        self.entries = Vec::new();
        assert(self@ =~= Seq::<EntryView>::empty());
    }

    /// What to allocate so that the geometry has a slot for each layer. An
    /// entry of the same geometry grows; without one a new entry is made.
    pub fn attn_state(&self, g: Geometry, layers: &Vec<usize>, rope_dim: u32) -> (c: AttnChange)
        ensures
            is_change(self@, g, layers@, rope_dim / 2, c),
    {
        let rope_half: u32 = rope_dim / 2;
        let mut i: usize = 0;
        while i < self.entries.len()
            invariant
                i <= self.entries@.len(),
                rope_half == rope_dim / 2,
                first_serving(self@, g, rope_half, 0) == first_serving(
                    self@,
                    g,
                    rope_half,
                    i as int,
                ),
            decreases self.entries@.len() - i,
        {
            let e = &self.entries[i];
            assert(self@[i as int] == e@);
            if e.geometry == g && (rope_half == 0 || e.rope_half == 0 || e.rope_half == rope_half) {
                return AttnChange::Grow { entry: i, layers: unseen_layers(&e.layers, layers) };
            }
            i = i + 1;
        }
        let none: Vec<usize> = Vec::new();
        assert(none@ =~= Seq::<usize>::empty());
        AttnChange::Create { layers: unseen_layers(&none, layers) }
    }

    /// Records that the caches of [`AttnTable::attn_state`] were allocated.
    pub fn commit(&mut self, g: Geometry, layers: &Vec<usize>, rope_dim: u32)
        ensures
            final(self)@ == ensured(old(self)@, g, layers@, rope_dim / 2),
    {
        match self.attn_state(g, layers, rope_dim) {
            AttnChange::Grow { entry, layers: new } => {
                proof {
                    lemma_first_serving(self@, g, rope_dim / 2, 0);
                }
                let mut new = new;
                let old_entry = self.entries.remove(entry);
                let geometry = old_entry.geometry;
                let rope_half: u32 = old_entry.rope_half;
                let mut slots = old_entry.layers;
                slots.append(&mut new);
                self.entries.insert(entry, AttnEntry { geometry, rope_half, layers: slots });
                assert(self@ =~= ensured(old(self)@, g, layers@, rope_dim / 2));
            },
            AttnChange::Create { layers: new } => {
                self.entries.push(AttnEntry { geometry: g, rope_half: rope_dim / 2, layers: new });
                assert(self@ =~= ensured(old(self)@, g, layers@, rope_dim / 2));
            },
        }
    }

    /// Whether some entry of the geometry has a slot for every layer.
    pub fn has_slots(&self, g: Geometry, layers: &Vec<usize>) -> (b: bool)
        ensures
            b == has_slots(self@, g, layers@),
    {
        let mut i: usize = 0;
        while i < self.entries.len()
            invariant
                i <= self.entries@.len(),
                forall|k: int|
                    0 <= k < i ==> !((#[trigger] self@[k]).geometry == g && holds_all(
                        self@[k].layers,
                        layers@,
                    )),
            decreases self.entries@.len() - i,
        {
            let e = &self.entries[i];
            assert(self@[i as int] == e@);
            let mut all: bool = true;
            let mut j: usize = 0;
            while j < layers.len()
                invariant
                    j <= layers@.len(),
                    all == holds_all(e.layers@, layers@.take(j as int)),
                decreases layers@.len() - j,
            {
                let found: bool = contains_layer(&e.layers, layers[j]);
                proof {
                    let before = layers@.take(j as int);
                    let after = layers@.take(j + 1);
                    assert forall|k: int| 0 <= k < after.len() implies after[k] == (if k < j {
                        before[k]
                    } else {
                        layers@[j as int]
                    }) by {}
                    if all && found {
                        assert forall|k: int| 0 <= k < after.len() implies e.layers@.contains(
                            #[trigger] after[k],
                        ) by {
                            if k < j {
                                assert(e.layers@.contains(before[k]));
                            }
                        }
                    } else if !all {
                        let k = choose|k: int|
                            0 <= k < before.len() && !e.layers@.contains(#[trigger] before[k]);
                        assert(!e.layers@.contains(after[k]));
                    } else {
                        assert(!e.layers@.contains(after[j as int]));
                    }
                }
                all = all && found;
                j = j + 1;
            }
            assert(layers@.take(layers@.len() as int) =~= layers@);
            if e.geometry == g && all {
                return true;
            }
            i = i + 1;
        }
        false
    }

    /// The first entry of the geometry, if there is one.
    pub fn find(&self, g: Geometry) -> (r: Option<usize>)
        ensures
            match first_of(self@, g, 0) {
                Some(i) => r matches Some(k) && k == i && i < self@.len(),
                None => r is None,
            },
    {
        let mut i: usize = 0;
        while i < self.entries.len()
            invariant
                i <= self.entries@.len(),
                first_of(self@, g, 0) == first_of(self@, g, i as int),
            decreases self.entries@.len() - i,
        {
            let e = &self.entries[i];
            assert(self@[i as int] == e@);
            if e.geometry == g {
                return Some(i);
            }
            i = i + 1;
        }
        None
    }

    /// The cache slot of a layer in an entry.
    pub fn slot(&self, entry: usize, layer: usize) -> (slot: usize)
        requires
            entry < self@.len(),
            self@[entry as int].layers.contains(layer),
        ensures
            slot < self@[entry as int].layers.len(),
            slot == slot_of(self@[entry as int].layers, layer, 0),
            self@[entry as int].layers[slot as int] == layer,
    {
        let e = &self.entries[entry];
        assert(self@[entry as int] == e@);
        let n: usize = e.layers.len();
        let mut i: usize = 0;
        while e.layers[i] != layer
            invariant
                i < n,
                n == e.layers@.len(),
                e.layers@.contains(layer),
                forall|j: int| 0 <= j < i ==> e.layers@[j] != layer,
                slot_of(e.layers@, layer, 0) == slot_of(e.layers@, layer, i as int),
            decreases n - i,
        {
            i = i + 1;
        }
        i
    }
}

/// Bytes of one K or V cache.
pub fn cache_bytes(g: Geometry) -> (n: usize)
    requires
        g.kv_heads * g.max_seq * g.head_dim * 4 <= usize::MAX,
        g.kv_heads * g.max_seq <= usize::MAX,
    ensures
        n == g.kv_heads * g.max_seq * g.head_dim * 4,
{
    assert(0 <= g.kv_heads * g.max_seq) by (nonlinear_arith);
    assert(0 <= g.kv_heads * g.max_seq * g.head_dim) by (nonlinear_arith);
    (g.kv_heads as usize) * (g.max_seq as usize) * (g.head_dim as usize) * 4
}

proof fn lemma_first_serving(table: Seq<EntryView>, g: Geometry, rope_half: u32, from: int)
    requires
        0 <= from <= table.len(),
    ensures
        first_serving(table, g, rope_half, from) matches Some(i) ==> from <= i < table.len()
            && serves(table[i], g, rope_half),
    decreases table.len() - from,
{
    if from < table.len() && !serves(table[from], g, rope_half) {
        lemma_first_serving(table, g, rope_half, from + 1);
    }
}

proof fn lemma_unseen(known: Seq<usize>, wanted: Seq<usize>)
    requires
        known.no_duplicates(),
    ensures
        (known + unseen(known, wanted)).no_duplicates(),
        holds_all(known + unseen(known, wanted), wanted),
    decreases wanted.len(),
{
    let new = unseen(known, wanted);
    let all = known + new;
    if wanted.len() == 0 {
        assert(all =~= known);
    } else {
        let before = unseen(known, wanted.drop_last());
        lemma_unseen(known, wanted.drop_last());
        let prev = known + before;
        let last = wanted.last();
        if known.contains(last) || before.contains(last) {
            if before.contains(last) {
                let k = choose|k: int| 0 <= k < before.len() && before[k] == last;
                assert(prev[known.len() + k] == last);
            } else {
                let k = choose|k: int| 0 <= k < known.len() && known[k] == last;
                assert(prev[k] == last);
            }
            assert(all == prev);
        } else {
            assert(all =~= prev.push(last));
            assert(!prev.contains(last));
            assert(all[prev.len() as int] == last);
        }
        assert forall|j: int| 0 <= j < wanted.len() implies all.contains(#[trigger] wanted[j]) by {
            if j < wanted.len() - 1 {
                assert(wanted[j] == wanted.drop_last()[j]);
                let k = choose|k: int| 0 <= k < prev.len() && prev[k] == wanted[j];
                assert(all[k] == wanted[j]);
            }
        }
    }
}

/// Allocating caches keeps the slots of every entry in place: an entry's list
/// of layers only grows at its end, so cached keys and values survive.
pub proof fn slots_survive(table: Seq<EntryView>, g: Geometry, layers: Seq<usize>, rope_half: u32)
    ensures
        ensured(table, g, layers, rope_half).len() >= table.len(),
        forall|i: int|
            0 <= i < table.len() ==> {
                let after = #[trigger] ensured(table, g, layers, rope_half)[i];
                &&& after.geometry == table[i].geometry
                &&& after.rope_half == table[i].rope_half
                &&& table[i].layers.is_prefix_of(after.layers)
            },
{
    lemma_first_serving(table, g, rope_half, 0);
}

/// After allocating, every wanted layer has a slot of its own, and no entry
/// holds a layer twice.
pub proof fn ensured_has_slots(
    table: Seq<EntryView>,
    g: Geometry,
    layers: Seq<usize>,
    rope_half: u32,
)
    requires
        table_wf(table),
    ensures
        table_wf(ensured(table, g, layers, rope_half)),
        has_slots(ensured(table, g, layers, rope_half), g, layers),
{
    let after = ensured(table, g, layers, rope_half);
    lemma_first_serving(table, g, rope_half, 0);
    match first_serving(table, g, rope_half, 0) {
        Some(i) => {
            lemma_unseen(table[i].layers, layers);
            assert(after[i].geometry == g && holds_all(after[i].layers, layers));
        },
        None => {
            lemma_unseen(Seq::empty(), layers);
            let i = table.len() as int;
            assert(Seq::<usize>::empty() + unseen(Seq::empty(), layers) =~= after[i].layers);
            assert(after[i].geometry == g && holds_all(after[i].layers, layers));
        },
    }
}

/// Where the first entry of the geometry serves it, or there is none, the
/// first entry of the geometry has a slot for every layer after allocating.
pub proof fn first_entry_has_slots(
    table: Seq<EntryView>,
    g: Geometry,
    layers: Seq<usize>,
    rope_half: u32,
)
    requires
        table_wf(table),
        first_of(table, g, 0) matches Some(i) ==> serves(table[i], g, rope_half),
    ensures
        ({
            let after = ensured(table, g, layers, rope_half);
            first_of(after, g, 0) matches Some(i) && 0 <= i < after.len() && holds_all(
                after[i].layers,
                layers,
            )
        }),
{
    let after = ensured(table, g, layers, rope_half);
    lemma_first_of(table, g, 0);
    lemma_first_of(after, g, 0);
    lemma_first_serving(table, g, rope_half, 0);
    lemma_serving_is_first(table, g, rope_half, 0);
    match first_serving(table, g, rope_half, 0) {
        Some(i) => {
            lemma_unseen(table[i].layers, layers);
            assert forall|k: int| 0 <= k < i implies after[k].geometry != g by {
                assert(table[k].geometry != g);
            }
            assert(after[i].geometry == g);
        },
        None => {
            lemma_unseen(Seq::empty(), layers);
            let n = table.len() as int;
            assert forall|k: int| 0 <= k < n implies after[k].geometry != g by {
                assert(table[k].geometry != g);
            }
            assert(Seq::<usize>::empty() + unseen(Seq::empty(), layers) =~= after[n].layers);
            assert(after[n].geometry == g);
        },
    }
}

/// The first entry of a geometry, and none before it.
proof fn lemma_first_of(table: Seq<EntryView>, g: Geometry, from: int)
    requires
        0 <= from <= table.len(),
    ensures
        match first_of(table, g, from) {
            Some(i) => from <= i < table.len() && table[i].geometry == g && forall|k: int|
                from <= k < i ==> (#[trigger] table[k]).geometry != g,
            None => forall|k: int|
                from <= k < table.len() ==> (#[trigger] table[k]).geometry != g,
        },
    decreases table.len() - from,
{
    if from < table.len() && table[from].geometry != g {
        lemma_first_of(table, g, from + 1);
    }
}

/// Where the first entry of the geometry serves it, it is the first to do so.
proof fn lemma_serving_is_first(table: Seq<EntryView>, g: Geometry, rope_half: u32, from: int)
    requires
        0 <= from <= table.len(),
        first_of(table, g, from) matches Some(i) ==> serves(table[i], g, rope_half),
    ensures
        first_serving(table, g, rope_half, from) == first_of(table, g, from),
    decreases table.len() - from,
{
    if from < table.len() && table[from].geometry != g {
        lemma_serving_is_first(table, g, rope_half, from + 1);
    }
}

/// Asking again for layers that are already served by the first matching
/// entry changes nothing.
pub proof fn ensured_again(table: Seq<EntryView>, g: Geometry, layers: Seq<usize>, rope_half: u32)
    requires
        first_serving(table, g, rope_half, 0) matches Some(i) && holds_all(table[i].layers, layers),
    ensures
        ensured(table, g, layers, rope_half) == table,
{
    lemma_first_serving(table, g, rope_half, 0);
    let i = first_serving(table, g, rope_half, 0)->0;
    lemma_nothing_unseen(table[i].layers, layers);
    assert(table[i].layers + Seq::<usize>::empty() =~= table[i].layers);
    assert(ensured(table, g, layers, rope_half) =~= table);
}

proof fn lemma_nothing_unseen(known: Seq<usize>, wanted: Seq<usize>)
    requires
        holds_all(known, wanted),
    ensures
        unseen(known, wanted) == Seq::<usize>::empty(),
    decreases wanted.len(),
{
    if wanted.len() > 0 {
        assert forall|j: int| 0 <= j < wanted.drop_last().len() implies known.contains(
            #[trigger] wanted.drop_last()[j],
        ) by {
            assert(wanted[j] == wanted.drop_last()[j]);
        }
        lemma_nothing_unseen(known, wanted.drop_last());
        assert(known.contains(wanted[wanted.len() - 1]));
    }
}

} // verus!
