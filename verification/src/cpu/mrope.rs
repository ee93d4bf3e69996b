//! Positions of tokens along three axes, and the pairs that a rotary
//! embedding turns.

use vstd::prelude::*;

verus! {

/// A run of tokens of one kind.
#[derive(Clone, Copy, Debug, PartialEq, Eq, Structural)]
pub enum ModalityRun {
    /// So many text tokens.
    Text { len: usize },
    /// One image or video: its grid of patches before merging.
    Vision { t: usize, h: usize, w: usize },
}

/// A position along the three axes.
pub type Triple = (int, int, int);

/// The positions of the tokens of a run that starts at position `at`. Text
/// counts up along all axes at once. The tokens of an image are one per merged
/// patch, frame by frame, row by row.
pub open spec fn run_positions(run: ModalityRun, merge: int, at: int) -> Seq<Triple> {
    match run {
        ModalityRun::Text { len } => Seq::new(len as nat, |i: int| (at + i, at + i, at + i)),
        ModalityRun::Vision { t, h, w } => {
            let rows = h as int / merge;
            let columns = w as int / merge;
            Seq::new(
                (t * rows * columns) as nat,
                |i: int|
                    (at + i / columns / rows, at + i / columns % rows, at + i % columns),
            )
        },
    }
}

/// The larger of two numbers.
pub open spec fn larger(a: int, b: int) -> int {
    if a >= b {
        a
    } else {
        b
    }
}

/// The position after a run: an image takes as many as its longer side has
/// merged patches.
pub open spec fn run_end(run: ModalityRun, merge: int, at: int) -> int {
    match run {
        ModalityRun::Text { len } => at + len,
        ModalityRun::Vision { t, h, w } => at + larger(h as int, w as int) / merge,
    }
}

/// The position at which run `n` starts.
pub open spec fn start_of(runs: Seq<ModalityRun>, merge: int, n: int) -> int
    decreases n,
{
    if n <= 0 {
        0
    } else {
        run_end(runs[n - 1], merge, start_of(runs, merge, n - 1))
    }
}

/// The positions of the tokens of the first `n` runs.
pub open spec fn positions_of(runs: Seq<ModalityRun>, merge: int, n: int) -> Seq<Triple>
    decreases n,
{
    if n <= 0 {
        Seq::empty()
    } else {
        positions_of(runs, merge, n - 1) + run_positions(
            runs[n - 1],
            merge,
            start_of(runs, merge, n - 1),
        )
    }
}

/// The positions of a run that starts at `at`, and the one after it, are in
/// range.
pub open spec fn run_fits(run: ModalityRun, merge: int, at: int) -> bool {
    match run {
        ModalityRun::Text { len } => at + len <= usize::MAX,
        ModalityRun::Vision { t, h, w } => at + t <= usize::MAX && at + larger(h as int, w as int)
            / merge <= usize::MAX,
    }
}

/// All positions are in range.
pub open spec fn positions_fit(runs: Seq<ModalityRun>, merge: int) -> bool {
    forall|n: int| 0 <= n < runs.len() ==> run_fits(#[trigger] runs[n], merge, start_of(runs, merge, n))
}

/// The positions of a sequence of tokens along the three axes.
#[derive(Debug, PartialEq, Eq)]
pub struct Positions {
    pub t: Vec<usize>,
    pub h: Vec<usize>,
    pub w: Vec<usize>,
    /// The position after the sequence.
    pub next: usize,
}

impl Positions {
    /// The positions as triples.
    pub open spec fn is(&self, s: Seq<Triple>) -> bool {
        &&& self.t@.len() == s.len()
        &&& self.h@.len() == s.len()
        &&& self.w@.len() == s.len()
        &&& forall|i: int|
            0 <= i < s.len() ==> #[trigger] s[i] == (
                self.t@[i] as int,
                self.h@[i] as int,
                self.w@[i] as int,
            )
    }

    fn add(&mut self, a: usize, b: usize, c: usize, Ghost(s): Ghost<Seq<Triple>>)
        requires
            old(self).is(s),
        ensures
            final(self).is(s.push((a as int, b as int, c as int))),
            final(self).next == old(self).next,
    {
        self.t.push(a);
        self.h.push(b);
        self.w.push(c);
    }
}

proof fn lemma_mesh(ti: int, hi: int, wi: int, rows: int, columns: int)
    requires
        0 <= hi < rows,
        0 <= wi < columns,
    ensures
        ({
            let i = (ti * rows + hi) * columns + wi;
            i / columns / rows == ti && i / columns % rows == hi && i % columns == wi
        }),
{
    let i = (ti * rows + hi) * columns + wi;
    vstd::arithmetic::div_mod::lemma_fundamental_div_mod_converse(
        i,
        columns,
        ti * rows + hi,
        wi,
    );
    vstd::arithmetic::div_mod::lemma_fundamental_div_mod_converse(ti * rows + hi, rows, ti, hi);
}

fn push_vision(
    p: &mut Positions,
    t: usize,
    rows: usize,
    columns: usize,
    at: usize,
    Ghost(before): Ghost<Seq<Triple>>,
)
    requires
        old(p).is(before),
        at + t <= usize::MAX,
        at + rows <= usize::MAX,
        at + columns <= usize::MAX,
    ensures
        final(p).is(
            before + Seq::new(
                (t * rows * columns) as nat,
                |i: int|
                    (
                        at + i / columns as int / rows as int,
                        at + i / columns as int % rows as int,
                        at + i % columns as int,
                    ),
            ),
        ),
        final(p).next == old(p).next,
{
    let ghost cell = |i: int|
        (
            at + i / columns as int / rows as int,
            at + i / columns as int % rows as int,
            at + i % columns as int,
        );
    let ghost next = p.next;
    let mut ti: usize = 0;
    proof {
        assert(0 * rows * columns == 0) by (nonlinear_arith);
        assert(before + Seq::new(0, cell) =~= before);
    }
    while ti < t
        invariant
            ti <= t,
            at + t <= usize::MAX,
            at + rows <= usize::MAX,
            at + columns <= usize::MAX,
            p.next == next,
            cell == (|i: int|
                (
                    at + i / columns as int / rows as int,
                    at + i / columns as int % rows as int,
                    at + i % columns as int,
                )),
            p.is(before + Seq::new((ti * rows * columns) as nat, cell)),
        decreases t - ti,
    {
        let mut hi: usize = 0;
        proof {
            assert((ti * rows + 0) * columns == ti * rows * columns);
        }
        while hi < rows
            invariant
                ti < t,
                hi <= rows,
                at + t <= usize::MAX,
                at + rows <= usize::MAX,
                at + columns <= usize::MAX,
                p.next == next,
                cell == (|i: int|
                    (
                        at + i / columns as int / rows as int,
                        at + i / columns as int % rows as int,
                        at + i % columns as int,
                    )),
                p.is(before + Seq::new(((ti * rows + hi) * columns) as nat, cell)),
            decreases rows - hi,
        {
            let mut wi: usize = 0;
            proof {
                let base = (ti * rows + hi) * columns;
                assert(base >= 0) by (nonlinear_arith)
                    requires
                        base == (ti * rows + hi) * columns,
                        ti >= 0,
                        rows >= 0,
                        hi >= 0,
                        columns >= 0,
                ;
            }
            while wi < columns
                invariant
                    ti < t,
                    hi < rows,
                    wi <= columns,
                    at + t <= usize::MAX,
                    at + rows <= usize::MAX,
                    at + columns <= usize::MAX,
                    p.next == next,
                    (ti * rows + hi) * columns >= 0,
                    cell == (|i: int|
                        (
                            at + i / columns as int / rows as int,
                            at + i / columns as int % rows as int,
                            at + i % columns as int,
                        )),
                    p.is(before + Seq::new(((ti * rows + hi) * columns + wi) as nat, cell)),
                decreases columns - wi,
            {
                let ghost i = (ti * rows + hi) * columns + wi;
                let ghost s = before + Seq::new(i as nat, cell);
                proof {
                    lemma_mesh(ti as int, hi as int, wi as int, rows as int, columns as int);
                    assert(cell(i) == (at + ti, at + hi, at + wi));
                }
                p.add(ti + at, hi + at, wi + at, Ghost(s));
                proof {
                    assert(s.push(cell(i)) =~= before + Seq::new((i + 1) as nat, cell));
                }
                wi = wi + 1;
            }
            proof {
                assert((ti * rows + (hi + 1)) * columns == (ti * rows + hi) * columns + columns)
                    by (nonlinear_arith);
            }
            hi = hi + 1;
        }
        proof {
            assert((ti + 1) * rows * columns == (ti * rows + rows) * columns) by (nonlinear_arith);
        }
        ti = ti + 1;
    }
}

fn push_text(p: &mut Positions, len: usize, at: usize, Ghost(before): Ghost<Seq<Triple>>)
    requires
        old(p).is(before),
        at + len <= usize::MAX,
    ensures
        final(p).is(before + Seq::new(len as nat, |i: int| (at + i, at + i, at + i))),
        final(p).next == old(p).next,
{
    let ghost cell = |i: int| (at + i, at + i, at + i);
    let ghost next = p.next;
    let mut i: usize = 0;
    assert(before + Seq::new(0, cell) =~= before);
    while i < len
        invariant
            i <= len,
            at + len <= usize::MAX,
            p.next == next,
            cell == (|k: int| (at + k, at + k, at + k)),
            p.is(before + Seq::new(i as nat, cell)),
        decreases len - i,
    {
        let ghost s = before + Seq::new(i as nat, cell);
        p.add(at + i, at + i, at + i, Ghost(s));
        assert(s.push(cell(i as int)) =~= before + Seq::new((i + 1) as nat, cell));
        i = i + 1;
    }
}

/// The positions of the tokens of all runs, and the position after them.
pub fn mrope_position_ids(runs: &Vec<ModalityRun>, spatial_merge_size: usize) -> (p: Positions)
    requires
        spatial_merge_size > 0,
        positions_fit(runs@, spatial_merge_size as int),
    ensures
        p.is(positions_of(runs@, spatial_merge_size as int, runs@.len() as int)),
        p.next == start_of(runs@, spatial_merge_size as int, runs@.len() as int),
{
    let ghost merge = spatial_merge_size as int;
    let mut p = Positions { t: Vec::new(), h: Vec::new(), w: Vec::new(), next: 0 };
    let mut n: usize = 0;
    while n < runs.len()
        invariant
            n <= runs@.len(),
            merge == spatial_merge_size,
            spatial_merge_size > 0,
            positions_fit(runs@, merge),
            p.next == start_of(runs@, merge, n as int),
            p.is(positions_of(runs@, merge, n as int)),
        decreases runs@.len() - n,
    {
        let at: usize = p.next;
        let ghost s = positions_of(runs@, merge, n as int);
        assert(run_fits(runs@[n as int], merge, at as int));
        match runs[n] {
            ModalityRun::Text { len } => {
                push_text(&mut p, len, at, Ghost(s));
                p.next = at + len;
            },
            ModalityRun::Vision { t, h, w } => {
                let rows: usize = h / spatial_merge_size;
                let columns: usize = w / spatial_merge_size;
                let side: usize = if h >= w {
                    h
                } else {
                    w
                };
                proof {
                    vstd::arithmetic::div_mod::lemma_div_is_ordered(h as int, side as int, merge);
                    vstd::arithmetic::div_mod::lemma_div_is_ordered(w as int, side as int, merge);
                }
                push_vision(&mut p, t, rows, columns, at, Ghost(s));
                p.next = at + side / spatial_merge_size;
            },
        }
        n = n + 1;
    }
    p
}

/// The tokens of the first `n` runs of text.
pub open spec fn text_tokens(runs: Seq<ModalityRun>, n: int) -> int
    decreases n,
{
    if n <= 0 {
        0
    } else {
        text_tokens(runs, n - 1) + match runs[n - 1] {
            ModalityRun::Text { len } => len as int,
            ModalityRun::Vision { .. } => 0,
        }
    }
}

/// Text alone counts up from zero, with the same position along all axes.
pub proof fn text_counts_up(runs: Seq<ModalityRun>, merge: int, n: int)
    requires
        0 <= n <= runs.len(),
        forall|i: int| 0 <= i < runs.len() ==> (#[trigger] runs[i]) is Text,
    ensures
        text_tokens(runs, n) >= 0,
        start_of(runs, merge, n) == text_tokens(runs, n),
        positions_of(runs, merge, n) == Seq::new(
            text_tokens(runs, n) as nat,
            |i: int| (i, i, i),
        ),
    decreases n,
{
    if n > 0 {
        text_counts_up(runs, merge, n - 1);
        assert(runs[n - 1] is Text);
    }
    assert(positions_of(runs, merge, n) =~= Seq::new(
        text_tokens(runs, n) as nat,
        |i: int| (i, i, i),
    ));
}

/// The axis that a rotary frequency belongs to: frame, row and column take
/// turns.
pub fn frequency_axis(j: usize) -> (axis: usize)
    ensures
        axis == j % 3,
{
    j % 3
}

/// Whether the frequencies of the three axes make up half the rotated width.
pub fn section_fits(s: (usize, usize, usize), rope_dim: usize) -> (b: bool)
    ensures
        b == (s.0 + s.1 + s.2 == rope_dim / 2),
{
    s.0 as u128 + s.1 as u128 + s.2 as u128 == (rope_dim / 2) as u128
}

/// Frequencies below `n` that belong to an axis.
pub open spec fn frequencies_of(axis: nat, n: nat) -> nat
    decreases n,
{
    if n == 0 {
        0
    } else {
        frequencies_of(axis, (n - 1) as nat) + if (n - 1) % 3 == axis {
            1nat
        } else {
            0nat
        }
    }
}

/// Every frequency belongs to one axis, and the axes share them as evenly as
/// can be, the frame first: a section with these counts makes up half the
/// rotated width.
pub proof fn axes_share_the_frequencies(n: nat)
    ensures
        frequencies_of(0, n) == (n + 2) / 3,
        frequencies_of(1, n) == (n + 1) / 3,
        frequencies_of(2, n) == n / 3,
        frequencies_of(0, n) + frequencies_of(1, n) + frequencies_of(2, n) == n,
    decreases n,
{
    if n > 0 {
        axes_share_the_frequencies((n - 1) as nat);
    }
}

/// The pairs that are turned: of the elements of a head, those `half` apart,
/// from the first on.
pub open spec fn pairs_apart(count: nat, half: int) -> Seq<(int, int)> {
    Seq::new(count, |j: int| (j, j + half))
}

/// The pairs that a rotary embedding turns: elements half a head apart; where
/// less than the head is rotated, only the first of them.
pub fn rope_pairs(head_dim: usize, rope_dim: usize) -> (v: Vec<(usize, usize)>)
    requires
        rope_dim <= head_dim,
    ensures
        v@.map_values(|p: (usize, usize)| (p.0 as int, p.1 as int)) == pairs_apart(
            rope_dim as nat / 2,
            head_dim as int / 2,
        ),
{
    pairs(rope_dim / 2, head_dim / 2)
}

/// The pairs of a rotary embedding that turns a prefix of the head as if it
/// were a head of its own; the rest of the head stays.
pub fn prefix_pairs(rope_dim: usize) -> (v: Vec<(usize, usize)>)
    ensures
        v@.map_values(|p: (usize, usize)| (p.0 as int, p.1 as int)) == pairs_apart(
            rope_dim as nat / 2,
            rope_dim as int / 2,
        ),
{
    pairs(rope_dim / 2, rope_dim / 2)
}

fn pairs(count: usize, half: usize) -> (v: Vec<(usize, usize)>)
    requires
        count <= half,
        count + half <= usize::MAX,
    ensures
        v@.map_values(|p: (usize, usize)| (p.0 as int, p.1 as int)) == pairs_apart(
            count as nat,
            half as int,
        ),
{
    let mut v: Vec<(usize, usize)> = Vec::new();
    let mut j: usize = 0;
    while j < count
        invariant
            j <= count,
            count + half <= usize::MAX,
            v@.len() == j,
            forall|i: int| 0 <= i < j ==> #[trigger] v@[i] == (i as usize, (i + half) as usize),
        decreases count - j,
    {
        v.push((j, j + half));
        j = j + 1;
    }
    assert(v@.map_values(|p: (usize, usize)| (p.0 as int, p.1 as int)) =~= pairs_apart(
        count as nat,
        half as int,
    ));
    v
}

/// No element is turned twice, and none outside the head: the pairs of a
/// rotary embedding are disjoint.
pub proof fn pairs_are_disjoint(count: nat, half: int, i: int, j: int)
    requires
        count <= half,
        0 <= i < count,
        0 <= j < count,
    ensures
        pairs_apart(count, half)[i].0 != pairs_apart(count, half)[j].1,
        i != j ==> pairs_apart(count, half)[i].0 != pairs_apart(count, half)[j].0,
        i != j ==> pairs_apart(count, half)[i].1 != pairs_apart(count, half)[j].1,
        0 <= pairs_apart(count, half)[i].0 < pairs_apart(count, half)[i].1 < 2 * half,
{
}

} // verus!
