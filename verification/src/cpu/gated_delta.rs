//! Linear attention with a gated delta rule: order of the stages, checks, and
//! movement of data between them.
//!
//! Numbers are single-precision floats as bit patterns: nothing here computes
//! with them.

use vstd::prelude::*;

use crate::backend::BackendError;
use crate::cpu::ops::{is_invalid, is_mismatch, matmul_f32, matmul_outcome, MatmulPlan};
use crate::tensor::{copy_shape, leading, product_fits, DType, TensorDesc};
use crate::text;

verus! {

/// The widths of a layer.
#[derive(Clone, Copy, Debug, PartialEq, Eq, Structural)]
pub struct GatedDeltaDims {
    pub num_v_heads: usize,
    pub num_k_heads: usize,
    pub head_k_dim: usize,
    pub head_v_dim: usize,
    pub conv_kernel_size: usize,
}

impl GatedDeltaDims {
    /// The width of all keys.
    pub open spec fn keys(self) -> int {
        self.num_k_heads * self.head_k_dim
    }

    /// The width of all values.
    pub open spec fn values(self) -> int {
        self.num_v_heads * self.head_v_dim
    }

    /// The channels that the convolution covers: queries, keys and values.
    pub open spec fn channels(self) -> int {
        self.keys() * 2 + self.values()
    }

    /// There are taps and key heads, and the widths are in range.
    pub open spec fn wf(self) -> bool {
        &&& self.num_k_heads > 0
        &&& self.conv_kernel_size > 0
        &&& self.channels() <= usize::MAX
        &&& self.num_v_heads * self.head_k_dim * self.head_v_dim <= usize::MAX
        &&& self.num_v_heads * self.head_k_dim <= usize::MAX
        &&& self.channels() * (self.conv_kernel_size - 1) <= usize::MAX
    }

    /// The width of all keys.
    pub fn key_dim(&self) -> (n: usize)
        requires
            self.wf(),
        ensures
            n == self.keys(),
    {
        proof {
            lemma_widths(*self);
        }
        self.num_k_heads * self.head_k_dim
    }

    /// The width of all values.
    pub fn value_dim(&self) -> (n: usize)
        requires
            self.wf(),
        ensures
            n == self.values(),
    {
        proof {
            lemma_widths(*self);
        }
        self.num_v_heads * self.head_v_dim
    }

    /// The channels that the convolution covers.
    pub fn conv_dim(&self) -> (n: usize)
        requires
            self.wf(),
        ensures
            n == self.channels(),
    {
        proof {
            lemma_widths(*self);
        }
        self.key_dim() * 2 + self.value_dim()
    }
}

proof fn lemma_widths(d: GatedDeltaDims)
    ensures
        d.keys() >= 0,
        d.values() >= 0,
{
    assert(d.num_k_heads * d.head_k_dim >= 0) by (nonlinear_arith)
        requires
            d.num_k_heads >= 0,
            d.head_k_dim >= 0,
    ;
    assert(d.num_v_heads * d.head_v_dim >= 0) by (nonlinear_arith)
        requires
            d.num_v_heads >= 0,
            d.head_v_dim >= 0,
    ;
}

/// The value of a channel at place `e` of its timeline: first the history,
/// then the rows of this call.
pub open spec fn timeline(
    hist: Seq<u32>,
    xs: Seq<u32>,
    channels: int,
    history: int,
    c: int,
    e: int,
) -> u32 {
    if e < history {
        hist[c * history + e]
    } else {
        xs[(e - history) * channels + c]
    }
}

/// What each output of the convolution reads: for every row and channel, as
/// many consecutive values of the timeline as there are taps, the last of
/// them of this row.
pub open spec fn is_windows(
    w: Seq<u32>,
    hist: Seq<u32>,
    xs: Seq<u32>,
    t: int,
    channels: int,
    taps: int,
) -> bool {
    &&& w.len() == t * channels * taps
    &&& forall|row: int, c: int, k: int|
        0 <= row < t && 0 <= c < channels && 0 <= k < taps ==> #[trigger] w[(row * channels + c)
            * taps + k] == timeline(hist, xs, channels, taps - 1, c, row + k)
}

/// The history after the call: the last values of every timeline.
pub open spec fn is_history(
    new: Seq<u32>,
    hist: Seq<u32>,
    xs: Seq<u32>,
    t: int,
    channels: int,
    history: int,
) -> bool {
    &&& new.len() == channels * history
    &&& forall|c: int, e: int|
        0 <= c < channels && 0 <= e < history ==> #[trigger] new[c * history + e] == timeline(
            hist,
            xs,
            channels,
            history,
            c,
            t + e,
        )
}

fn at_time(
    hist: &Vec<u32>,
    xs: &Vec<u32>,
    t: usize,
    channels: usize,
    history: usize,
    c: usize,
    e: usize,
) -> (v: u32)
    requires
        hist@.len() == channels * history,
        xs@.len() == t * channels,
        c < channels,
        e < history + t,
    ensures
        v == timeline(hist@, xs@, channels as int, history as int, c as int, e as int),
{
    assert(hist.len() == hist@.len() && xs.len() == xs@.len());
    if e < history {
        proof {
            lemma_cell(c as int, channels as int, e as int, history as int);
        }
        hist[c * history + e]
    } else {
        proof {
            lemma_cell(e - history, t as int, c as int, channels as int);
        }
        xs[(e - history) * channels + c]
    }
}

/// A place in a table of `rows` rows of `width` cells.
proof fn lemma_cell(row: int, rows: int, column: int, width: int)
    requires
        0 <= row < rows,
        0 <= column < width,
    ensures
        0 <= row * width,
        0 <= row * width + column < rows * width,
{
    assert(row * width >= 0) by (nonlinear_arith)
        requires
            row >= 0,
            width >= 0,
    ;
    assert(row * width + width <= rows * width) by (nonlinear_arith)
        requires
            row + 1 <= rows,
            width >= 0,
    ;
}

proof fn lemma_step(row: int, width: int)
    ensures
        (row + 1) * width == row * width + width,
{
    assert((row + 1) * width == row * width + width) by (nonlinear_arith);
}

fn gather_windows(hist: &Vec<u32>, xs: &Vec<u32>, t: usize, channels: usize, taps: usize) -> (w:
    Vec<u32>)
    requires
        taps > 0,
        hist@.len() == channels * (taps - 1),
        xs@.len() == t * channels,
        t * channels * taps <= usize::MAX,
        t + taps <= usize::MAX,
    ensures
        is_windows(w@, hist@, xs@, t as int, channels as int, taps as int),
{
    let mut w: Vec<u32> = Vec::new();
    let mut row: usize = 0;
    assert(0 * channels * taps == 0) by (nonlinear_arith);
    while row < t
        invariant
            row <= t,
            taps > 0,
            hist@.len() == channels * (taps - 1),
            xs@.len() == t * channels,
            t + taps <= usize::MAX,
            is_windows(w@, hist@, xs@, row as int, channels as int, taps as int),
        decreases t - row,
    {
        let mut c: usize = 0;
        proof {
            lemma_step(row as int, channels as int);
            assert((row * channels + 0) * taps == row * channels * taps);
        }
        while c < channels
            invariant
                row < t,
                c <= channels,
                taps > 0,
                hist@.len() == channels * (taps - 1),
                xs@.len() == t * channels,
                t + taps <= usize::MAX,
                w@.len() == (row * channels + c) * taps,
                forall|r: int, j: int, k: int|
                    0 <= r <= row && 0 <= j < channels && (r < row || j < c) && 0 <= k < taps
                        ==> #[trigger] w@[(r * channels + j) * taps + k] == timeline(
                        hist@,
                        xs@,
                        channels as int,
                        taps - 1,
                        j,
                        r + k,
                    ),
            decreases channels - c,
        {
            let mut k: usize = 0;
            proof {
                lemma_step(row * channels + c, taps as int);
            }
            while k < taps
                invariant
                    row < t,
                    c < channels,
                    k <= taps,
                    taps > 0,
                    hist@.len() == channels * (taps - 1),
                    xs@.len() == t * channels,
                    t + taps <= usize::MAX,
                    w@.len() == (row * channels + c) * taps + k,
                    forall|r: int, j: int, i: int|
                        0 <= r <= row && 0 <= j < channels && (r < row || j < c || (j == c && i
                            < k)) && 0 <= i < taps ==> #[trigger] w@[(r * channels + j) * taps + i]
                            == timeline(hist@, xs@, channels as int, taps - 1, j, r + i),
                decreases taps - k,
            {
                let v: u32 = at_time(hist, xs, t, channels, taps - 1, c, row + k);
                let ghost before = w@;
                w.push(v);
                proof {
                    assert forall|r: int, j: int, i: int|
                        0 <= r <= row && 0 <= j < channels && (r < row || j < c || (j == c && i < k
                            + 1)) && 0 <= i < taps implies #[trigger] w@[(r * channels + j) * taps
                        + i] == timeline(hist@, xs@, channels as int, taps - 1, j, r + i) by {
                        let place = (r * channels + j) * taps + i;
                        if r == row && j == c && i == k {
                        } else {
                            lemma_earlier(r, j, i, row as int, c as int, k as int, channels as int,
                                taps as int);
                            assert(before[place] == w@[place]);
                        }
                    }
                }
                k = k + 1;
            }
            c = c + 1;
        }
        row = row + 1;
    }
    w
}

/// Places before another in row, channel and tap order come before it.
proof fn lemma_earlier(
    r: int,
    j: int,
    i: int,
    row: int,
    c: int,
    k: int,
    channels: int,
    taps: int,
)
    requires
        0 <= r <= row,
        0 <= j < channels,
        0 <= i < taps,
        0 <= c < channels,
        0 <= k < taps,
        r < row || (r == row && j < c) || (r == row && j == c && i < k),
    ensures
        0 <= (r * channels + j) * taps + i < (row * channels + c) * taps + k,
{
    lemma_cell(r, row + 1, j, channels);
    lemma_cell(r * channels + j, r * channels + j + 1, i, taps);
    if r < row {
        lemma_cell(r, row, j, channels);
        let a = r * channels + j;
        let b = row * channels + c;
        assert(a + 1 <= b);
        assert(a * taps + taps <= b * taps) by (nonlinear_arith)
            requires
                a + 1 <= b,
                taps >= 0,
        ;
    } else if j < c {
        let a = r * channels + j;
        let b = row * channels + c;
        assert(a * taps + taps <= b * taps) by (nonlinear_arith)
            requires
                a + 1 <= b,
                taps >= 0,
        ;
    }
}

fn next_history(hist: &Vec<u32>, xs: &Vec<u32>, t: usize, channels: usize, history: usize) -> (new:
    Vec<u32>)
    requires
        hist@.len() == channels * history,
        xs@.len() == t * channels,
        t + history <= usize::MAX,
    ensures
        is_history(new@, hist@, xs@, t as int, channels as int, history as int),
{
    let mut new: Vec<u32> = Vec::new();
    let mut c: usize = 0;
    while c < channels
        invariant
            c <= channels,
            hist@.len() == channels * history,
            xs@.len() == t * channels,
            t + history <= usize::MAX,
            is_history(new@, hist@, xs@, t as int, c as int, history as int) || c < channels,
            new@.len() == c * history,
            forall|j: int, e: int|
                0 <= j < c && 0 <= e < history ==> #[trigger] new@[j * history + e] == timeline(
                    hist@,
                    xs@,
                    channels as int,
                    history as int,
                    j,
                    t + e,
                ),
        decreases channels - c,
    {
        let mut e: usize = 0;
        proof {
            lemma_step(c as int, history as int);
        }
        while e < history
            invariant
                c < channels,
                e <= history,
                hist@.len() == channels * history,
                xs@.len() == t * channels,
                t + history <= usize::MAX,
                new@.len() == c * history + e,
                forall|j: int, i: int|
                    0 <= j <= c && 0 <= i < history && (j < c || i < e) ==> #[trigger] new@[j
                        * history + i] == timeline(
                        hist@,
                        xs@,
                        channels as int,
                        history as int,
                        j,
                        t + i,
                    ),
            decreases history - e,
        {
            let v: u32 = at_time(hist, xs, t, channels, history, c, t + e);
            let ghost before = new@;
            new.push(v);
            proof {
                assert forall|j: int, i: int|
                    0 <= j <= c && 0 <= i < history && (j < c || i < e + 1) implies #[trigger] new@[j
                    * history + i] == timeline(
                    hist@,
                    xs@,
                    channels as int,
                    history as int,
                    j,
                    t + i,
                ) by {
                    if j == c && i == e {
                    } else {
                        if j < c {
                            lemma_cell(j, c as int, i, history as int);
                        } else {
                            lemma_cell(j, j + 1, i, history as int);
                        }
                        assert(before[j * history + i] == new@[j * history + i]);
                    }
                }
            }
            e = e + 1;
        }
        c = c + 1;
    }
    new
}

/// What a convolution over the rows of a call is refused for.
pub open spec fn conv_fault(
    e: BackendError,
    shape: Seq<usize>,
    channels: usize,
    taps: usize,
    state: nat,
) -> bool {
    if shape.len() == 0 || shape.last() != channels {
        is_mismatch(e, "CausalConv1d"@, seq![0, channels], shape)
    } else {
        is_mismatch(
            e,
            "CausalConv1d"@,
            seq![channels, (taps - 1) as usize],
            seq![state as usize],
        )
    }
}

/// The convolution can be done.
pub open spec fn conv_checks(shape: Seq<usize>, channels: usize, taps: usize, state: nat) -> bool {
    shape.len() > 0 && shape.last() == channels && state == channels * (taps - 1)
}

/// The windows of a causal convolution along the rows, one length of taps per
/// channel, and the history for the next call.
pub fn causal_windows(
    xs: &Vec<u32>,
    shape: &Vec<usize>,
    channels: usize,
    taps: usize,
    conv_state: &mut Vec<u32>,
) -> (r: Result<Vec<u32>, BackendError>)
    requires
        taps > 0,
        channels * (taps - 1) <= usize::MAX,
        shape@.len() > 0 && shape@.last() == channels ==> xs@.len() == shape@[0] * channels
            && shape@[0] * channels * taps <= usize::MAX && shape@[0] + taps <= usize::MAX,
    ensures
        if conv_checks(shape@, channels, taps, old(conv_state)@.len()) {
            &&& r matches Ok(w) && is_windows(
                w@,
                old(conv_state)@,
                xs@,
                shape@[0] as int,
                channels as int,
                taps as int,
            )
            &&& is_history(
                final(conv_state)@,
                old(conv_state)@,
                xs@,
                shape@[0] as int,
                channels as int,
                taps - 1,
            )
        } else {
            &&& r matches Err(e) && conv_fault(e, shape@, channels, taps, old(conv_state)@.len())
            &&& final(conv_state)@ == old(conv_state)@
        },
{
    let n: usize = shape.len();
    if n == 0 || shape[n - 1] != channels {
        let mut expected: Vec<usize> = Vec::new();
        expected.push(0);
        expected.push(channels);
        assert(expected@ =~= seq![0, channels]);
        return Err(
            BackendError::ShapeMismatch { op: "CausalConv1d", expected, got: copy_shape(shape) },
        );
    }
    let history: usize = taps - 1;
    if conv_state.len() != channels * history {
        let mut expected: Vec<usize> = Vec::new();
        expected.push(channels);
        expected.push(history);
        assert(expected@ =~= seq![channels, history]);
        let mut got: Vec<usize> = Vec::new();
        got.push(conv_state.len());
        assert(got@ =~= seq![conv_state@.len() as usize]);
        return Err(BackendError::ShapeMismatch { op: "CausalConv1d", expected, got });
    }
    let t: usize = shape[0];
    let w = gather_windows(conv_state, xs, t, channels, taps);
    let new = next_history(conv_state, xs, t, channels, history);
    *conv_state = new;
    Ok(w)
}

/// A timeline that starts from the history after a first call goes on where
/// the timeline of both calls does.
proof fn lemma_carried(
    hist: Seq<u32>,
    middle: Seq<u32>,
    first: Seq<u32>,
    second: Seq<u32>,
    t: int,
    u: int,
    channels: int,
    history: int,
    c: int,
    e: int,
)
    requires
        0 <= history,
        0 <= c < channels,
        0 <= t,
        0 <= u,
        hist.len() == channels * history,
        first.len() == t * channels,
        second.len() == u * channels,
        is_history(middle, hist, first, t, channels, history),
        0 <= e < history + u,
    ensures
        timeline(middle, second, channels, history, c, e) == timeline(
            hist,
            first + second,
            channels,
            history,
            c,
            t + e,
        ),
{
    let all = first + second;
    if e < history {
        assert(middle[c * history + e] == timeline(hist, first, channels, history, c, t + e));
        if t + e >= history {
            lemma_cell(t + e - history, t, c, channels);
            assert(all[(t + e - history) * channels + c] == first[(t + e - history) * channels
                + c]);
        }
    } else {
        lemma_cell(e - history, u, c, channels);
        assert((t + e - history) * channels == t * channels + (e - history) * channels)
            by (nonlinear_arith);
        assert(all[(t + e - history) * channels + c] == second[(e - history) * channels + c]);
    }
}

/// Splitting a call changes nothing: the windows of the rows of a first and a
/// second call, the history carried from one to the other, are those of one
/// call with all rows; and the history after both is the history after the
/// one.
pub proof fn calls_can_be_split(
    hist: Seq<u32>,
    middle: Seq<u32>,
    last: Seq<u32>,
    first: Seq<u32>,
    second: Seq<u32>,
    w1: Seq<u32>,
    w2: Seq<u32>,
    t: int,
    u: int,
    channels: int,
    taps: int,
)
    requires
        0 < taps,
        0 <= channels,
        0 <= t,
        0 <= u,
        hist.len() == channels * (taps - 1),
        first.len() == t * channels,
        second.len() == u * channels,
        is_windows(w1, hist, first, t, channels, taps),
        is_history(middle, hist, first, t, channels, taps - 1),
        is_windows(w2, middle, second, u, channels, taps),
        is_history(last, middle, second, u, channels, taps - 1),
    ensures
        is_windows(w1 + w2, hist, first + second, t + u, channels, taps),
        is_history(last, hist, first + second, t + u, channels, taps - 1),
{
    let all = first + second;
    let w = w1 + w2;
    assert((t + u) * channels * taps == t * channels * taps + u * channels * taps)
        by (nonlinear_arith);
    assert forall|row: int, c: int, k: int|
        0 <= row < t + u && 0 <= c < channels && 0 <= k < taps implies #[trigger] w[(row * channels
        + c) * taps + k] == timeline(hist, all, channels, taps - 1, c, row + k) by {
        let place = (row * channels + c) * taps + k;
        if row < t {
            lemma_cell(row, t, c, channels);
            lemma_cell(row * channels + c, t * channels, k, taps);
            assert(w[place] == w1[place]);
            if row + k >= taps - 1 {
                lemma_cell(row + k - (taps - 1), t, c, channels);
                let from = (row + k - (taps - 1)) * channels + c;
                assert(all[from] == first[from]);
            }
        } else {
            let r = row - t;
            lemma_cell(r, u, c, channels);
            lemma_cell(r * channels + c, u * channels, k, taps);
            let inner = (r * channels + c) * taps + k;
            assert(place == t * channels * taps + inner) by (nonlinear_arith)
                requires
                    place == (row * channels + c) * taps + k,
                    inner == (r * channels + c) * taps + k,
                    row == r + t,
            ;
            assert(w[place] == w2[inner]);
            lemma_carried(hist, middle, first, second, t, u, channels, taps - 1, c, r + k);
        }
    }
    assert forall|c: int, e: int|
        0 <= c < channels && 0 <= e < taps - 1 implies #[trigger] last[c * (taps - 1) + e]
        == timeline(hist, all, channels, taps - 1, c, (t + u) + e) by {
        lemma_carried(hist, middle, first, second, t, u, channels, taps - 1, c, u + e);
    }
}

/// The queries, keys and values of all rows.
#[derive(Debug, PartialEq, Eq)]
pub struct Split {
    pub query: Vec<u32>,
    pub key: Vec<u32>,
    pub value: Vec<u32>,
}

/// `out` holds the columns from `from` on, `width` of them, of every row.
pub open spec fn is_columns(
    out: Seq<u32>,
    xs: Seq<u32>,
    t: int,
    channels: int,
    from: int,
    width: int,
) -> bool {
    &&& out.len() == t * width
    &&& forall|row: int, j: int|
        0 <= row < t && 0 <= j < width ==> #[trigger] out[row * width + j] == xs[row * channels
            + from + j]
}

/// The columns from `from` on, `width` of them, of every row.
pub fn columns(xs: &Vec<u32>, t: usize, channels: usize, from: usize, width: usize) -> (out: Vec<u32>)
    requires
        xs@.len() >= t * channels,
        from + width <= channels,
    ensures
        is_columns(out@, xs@, t as int, channels as int, from as int, width as int),
{
    let total: usize = xs.len();
    let mut out: Vec<u32> = Vec::new();
    let mut row: usize = 0;
    while row < t
        invariant
            row <= t,
            total == xs@.len(),
            total >= t * channels,
            from + width <= channels,
            out@.len() == row * width,
            forall|r: int, j: int|
                0 <= r < row && 0 <= j < width ==> #[trigger] out@[r * width + j] == xs@[r
                    * channels + from + j],
        decreases t - row,
    {
        let mut j: usize = 0;
        proof {
            lemma_step(row as int, width as int);
        }
        while j < width
            invariant
                row < t,
                j <= width,
                total == xs@.len(),
                total >= t * channels,
                from + width <= channels,
                out@.len() == row * width + j,
                forall|r: int, i: int|
                    0 <= r <= row && 0 <= i < width && (r < row || i < j) ==> #[trigger] out@[r
                        * width + i] == xs@[r * channels + from + i],
            decreases width - j,
        {
            proof {
                lemma_cell(row as int, t as int, from + j, channels as int);
            }
            let ghost before = out@;
            out.push(xs[row * channels + from + j]);
            proof {
                assert forall|r: int, i: int|
                    0 <= r <= row && 0 <= i < width && (r < row || i < j + 1) implies #[trigger] out@[r
                    * width + i] == xs@[r * channels + from + i] by {
                    if r == row && i == j {
                    } else {
                        if r < row {
                            lemma_cell(r, row as int, i, width as int);
                        } else {
                            lemma_cell(r, r + 1, i, width as int);
                        }
                        assert(before[r * width + i] == out@[r * width + i]);
                    }
                }
            }
            j = j + 1;
        }
        row = row + 1;
    }
    out
}

/// Splits the rows into queries, keys and values.
pub fn split_qkv(mixed: &Vec<u32>, t: usize, dims: &GatedDeltaDims) -> (s: Split)
    requires
        dims.wf(),
        mixed@.len() == t * dims.channels(),
    ensures
        is_columns(s.query@, mixed@, t as int, dims.channels(), 0, dims.keys()),
        is_columns(s.key@, mixed@, t as int, dims.channels(), dims.keys(), dims.keys()),
        is_columns(s.value@, mixed@, t as int, dims.channels(), 2 * dims.keys(), dims.values()),
{
    proof {
        lemma_widths(*dims);
    }
    let kd: usize = dims.key_dim();
    let vd: usize = dims.value_dim();
    let cd: usize = dims.conv_dim();
    Split {
        query: columns(mixed, t, cd, 0, kd),
        key: columns(mixed, t, cd, kd, kd),
        value: columns(mixed, t, cd, 2 * kd, vd),
    }
}

/// Every value head has the key head of its group.
pub open spec fn is_expanded(out: Seq<u32>, keys: Seq<u32>, t: int, d: GatedDeltaDims) -> bool {
    let ratio = d.num_v_heads as int / d.num_k_heads as int;
    &&& out.len() == t * d.num_v_heads * d.head_k_dim
    &&& forall|row: int, h: int, j: int|
        0 <= row < t && 0 <= h < d.num_v_heads && 0 <= j < d.head_k_dim ==> #[trigger] out[(row
            * d.num_v_heads + h) * d.head_k_dim + j] == keys[row * d.keys() + h / ratio
            * d.head_k_dim + j]
}

/// The message on heads that cannot be shared evenly.
pub open spec fn heads_reason(d: GatedDeltaDims) -> Seq<char> {
    "num_v_heads "@ + text::decimal(d.num_v_heads as nat) + " not a multiple of num_k_heads "@
        + text::decimal(d.num_k_heads as nat)
}

/// Refuses value heads that are no multiple of the key heads.
pub fn check_heads(d: &GatedDeltaDims) -> (r: Result<(), BackendError>)
    requires
        d.num_k_heads > 0,
    ensures
        if d.num_v_heads as int % d.num_k_heads as int != 0 {
            r matches Err(e) && is_invalid(e, "GatedDeltaNet"@, heads_reason(*d))
        } else {
            r is Ok
        },
{
    if d.num_v_heads % d.num_k_heads != 0 {
        let a = text::concat("num_v_heads ", text::decimal_string(d.num_v_heads).as_str());
        let b = text::concat(a.as_str(), " not a multiple of num_k_heads ");
        let reason = text::concat(b.as_str(), text::decimal_string(d.num_k_heads).as_str());
        return Err(BackendError::InvalidInput { op: "GatedDeltaNet", reason });
    }
    Ok(())
}

/// The group of a value head is one of the key heads.
proof fn lemma_group(d: GatedDeltaDims, h: int)
    requires
        d.num_k_heads > 0,
        d.num_v_heads as int % d.num_k_heads as int == 0,
        0 <= h < d.num_v_heads,
    ensures
        d.num_v_heads as int / d.num_k_heads as int > 0,
        0 <= h / (d.num_v_heads as int / d.num_k_heads as int) < d.num_k_heads,
{
    let v = d.num_v_heads as int;
    let k = d.num_k_heads as int;
    let ratio = v / k;
    vstd::arithmetic::div_mod::lemma_fundamental_div_mod(v, k);
    assert(ratio > 0) by (nonlinear_arith)
        requires
            v == k * ratio,
            v > 0,
            k > 0,
    ;
    let g = h / ratio;
    vstd::arithmetic::div_mod::lemma_fundamental_div_mod(h, ratio);
    vstd::arithmetic::div_mod::lemma_mod_bound(h, ratio);
    vstd::arithmetic::div_mod::lemma_div_pos_is_pos(h, ratio);
    assert(g < k) by (nonlinear_arith)
        requires
            h < k * ratio,
            h == ratio * g + h % ratio,
            h % ratio >= 0,
            ratio > 0,
    ;
}

/// Gives every value head the key head, or the query head, of its group.
pub fn expand_heads(keys: &Vec<u32>, t: usize, d: &GatedDeltaDims) -> (out: Vec<u32>)
    requires
        d.wf(),
        d.num_v_heads as int % d.num_k_heads as int == 0,
        keys@.len() == t * d.keys(),
        t * d.num_v_heads * d.head_k_dim <= usize::MAX,
    ensures
        is_expanded(out@, keys@, t as int, *d),
{
    let total: usize = keys.len();
    let heads: usize = d.num_v_heads;
    let width: usize = d.head_k_dim;
    let kd: usize = d.key_dim();
    let ratio: usize = heads / d.num_k_heads;
    let mut out: Vec<u32> = Vec::new();
    let mut row: usize = 0;
    assert(0 * heads * width == 0) by (nonlinear_arith);
    while row < t
        invariant
            row <= t,
            d.wf(),
            heads == d.num_v_heads,
            width == d.head_k_dim,
            kd == d.keys(),
            ratio == heads as int / d.num_k_heads as int,
            heads as int % d.num_k_heads as int == 0,
            total == keys@.len(),
            total == t * kd,
            is_expanded(out@, keys@, row as int, *d),
        decreases t - row,
    {
        let mut h: usize = 0;
        proof {
            lemma_step(row as int, heads as int);
            assert((row * heads + 0) * width == row * heads * width);
        }
        while h < heads
            invariant
                row < t,
                h <= heads,
                d.wf(),
                heads == d.num_v_heads,
                width == d.head_k_dim,
                kd == d.keys(),
                ratio == heads as int / d.num_k_heads as int,
                heads as int % d.num_k_heads as int == 0,
                total == keys@.len(),
                total == t * kd,
                out@.len() == (row * heads + h) * width,
                forall|r: int, g: int, j: int|
                    0 <= r <= row && 0 <= g < heads && (r < row || g < h) && 0 <= j < width
                        ==> #[trigger] out@[(r * heads + g) * width + j] == keys@[r * kd + g
                        / ratio as int * width + j],
            decreases heads - h,
        {
            proof {
                lemma_group(*d, h as int);
                lemma_step(row * heads + h, width as int);
            }
            let group: usize = h / ratio;
            let mut j: usize = 0;
            while j < width
                invariant
                    row < t,
                    h < heads,
                    j <= width,
                    heads == d.num_v_heads,
                    width == d.head_k_dim,
                    kd == d.num_k_heads * width,
                    group == h as int / ratio as int,
                    group < d.num_k_heads,
                    total == keys@.len(),
                    total == t * kd,
                    out@.len() == (row * heads + h) * width + j,
                    forall|r: int, g: int, i: int|
                        0 <= r <= row && 0 <= g < heads && (r < row || g < h || (g == h && i < j))
                            && 0 <= i < width ==> #[trigger] out@[(r * heads + g) * width + i]
                            == keys@[r * kd + g / ratio as int * width + i],
                decreases width - j,
            {
                proof {
                    lemma_cell(group as int, d.num_k_heads as int, j as int, width as int);
                    lemma_cell(row as int, t as int, group * width + j, kd as int);
                }
                let ghost before = out@;
                out.push(keys[row * kd + group * width + j]);
                proof {
                    assert forall|r: int, g: int, i: int|
                        0 <= r <= row && 0 <= g < heads && (r < row || g < h || (g == h && i < j
                            + 1)) && 0 <= i < width implies #[trigger] out@[(r * heads + g) * width
                        + i] == keys@[r * kd + g / ratio as int * width + i] by {
                        if r == row && g == h && i == j {
                        } else {
                            lemma_earlier(r, g, i, row as int, h as int, j as int, heads as int,
                                width as int);
                            let place = (r * heads + g) * width + i;
                            assert(before[place] == out@[place]);
                        }
                    }
                }
                j = j + 1;
            }
            h = h + 1;
        }
        row = row + 1;
    }
    out
}

/// The stages of a layer, in the order in which they run.
#[derive(Clone, Copy, Debug, PartialEq, Eq, Structural)]
pub enum Stage {
    /// Multiply the rows with the projection to queries, keys and values.
    ProjectQkv,
    ProjectZ,
    ProjectB,
    ProjectA,
    /// Convolve, with [`causal_windows`], and apply SiLU.
    Convolve,
    /// Form the gates of every row and value head.
    Gate,
    /// Split and expand the heads, and normalise them.
    Expand,
    /// One step of the recurrence, for all heads of this row.
    Recur(usize),
    /// Normalise the outputs and gate them with the projection to `z`.
    Norm,
    /// Multiply with the output projection.
    ProjectOut,
    Done,
}

/// What is known of a call.
#[derive(Clone, Copy, Debug, PartialEq, Eq, Structural)]
pub struct Call {
    pub rows: usize,
    pub hidden: usize,
    pub dims: GatedDeltaDims,
    /// Elements of the recurrent state.
    pub state: usize,
}

/// The elements of the recurrent state.
pub open spec fn state_size(d: GatedDeltaDims) -> int {
    d.num_v_heads * d.head_k_dim * d.head_v_dim
}

/// The first stage of the recurrence, or what follows where there is no row.
pub open spec fn recur_from(row: int, rows: usize) -> Stage {
    if row < rows {
        Stage::Recur(row as usize)
    } else {
        Stage::Norm
    }
}

/// The stage after one that went well.
pub open spec fn after(stage: Stage, rows: usize) -> Stage {
    match stage {
        Stage::ProjectQkv => Stage::ProjectZ,
        Stage::ProjectZ => Stage::ProjectB,
        Stage::ProjectB => Stage::ProjectA,
        Stage::ProjectA => Stage::Convolve,
        Stage::Convolve => Stage::Gate,
        Stage::Gate => Stage::Expand,
        Stage::Expand => recur_from(0, rows),
        Stage::Recur(i) => recur_from(i + 1, rows),
        Stage::Norm => Stage::ProjectOut,
        Stage::ProjectOut => Stage::Done,
        Stage::Done => Stage::Done,
    }
}

/// The refusal that is due before a stage is left, where there is one: heads
/// are checked before they are expanded, the recurrent state before the
/// recurrence.
pub open spec fn refused(stage: Stage, c: Call) -> bool {
    match stage {
        Stage::Gate => c.dims.num_v_heads as int % c.dims.num_k_heads as int != 0,
        Stage::Expand => c.state != state_size(c.dims),
        _ => false,
    }
}

/// Whether the refusal says what is wrong.
pub open spec fn refusal_of(e: BackendError, stage: Stage, c: Call) -> bool {
    match stage {
        Stage::Gate => is_invalid(e, "GatedDeltaNet"@, heads_reason(c.dims)),
        _ => is_mismatch(
            e,
            "GatedDeltaNet"@,
            seq![c.dims.num_v_heads, c.dims.head_k_dim, c.dims.head_v_dim],
            seq![c.state],
        ),
    }
}

/// Starts a call on rows of this shape: two dimensions are needed.
pub fn gated_delta_forward(shape: &Vec<usize>, dims: GatedDeltaDims, state: usize) -> (r: Result<
    (Call, Stage),
    BackendError,
>)
    ensures
        if shape@.len() != 2 {
            r matches Err(e) && is_mismatch(e, "GatedDeltaNet"@, seq![0, 0], shape@)
        } else {
            r matches Ok(x) && x.0 == (Call {
                rows: shape@[0],
                hidden: shape@[1],
                dims,
                state,
            }) && x.1 == Stage::ProjectQkv
        },
{
    if shape.len() != 2 {
        let mut expected: Vec<usize> = Vec::new();
        expected.push(0);
        expected.push(0);
        assert(expected@ =~= seq![0, 0]);
        return Err(
            BackendError::ShapeMismatch { op: "GatedDeltaNet", expected, got: copy_shape(shape) },
        );
    }
    Ok((Call { rows: shape[0], hidden: shape[1], dims, state }, Stage::ProjectQkv))
}

impl Call {
    /// The stage after one that went well, or the refusal that is due.
    pub fn next(&self, stage: Stage) -> (r: Result<Stage, BackendError>)
        requires
            self.dims.wf(),
        ensures
            if refused(stage, *self) {
                r matches Err(e) && refusal_of(e, stage, *self)
            } else {
                r matches Ok(s) && s == after(stage, self.rows)
            },
    {
        match stage {
            Stage::ProjectQkv => Ok(Stage::ProjectZ),
            Stage::ProjectZ => Ok(Stage::ProjectB),
            Stage::ProjectB => Ok(Stage::ProjectA),
            Stage::ProjectA => Ok(Stage::Convolve),
            Stage::Convolve => Ok(Stage::Gate),
            Stage::Gate => match check_heads(&self.dims) {
                Ok(_) => Ok(Stage::Expand),
                Err(e) => Err(e),
            },
            Stage::Expand => {
                let d = self.dims;
                proof {
                    assert(d.num_v_heads * d.head_k_dim >= 0) by (nonlinear_arith)
                        requires
                            d.num_v_heads >= 0,
                            d.head_k_dim >= 0,
                    ;
                }
                if self.state != d.num_v_heads * d.head_k_dim * d.head_v_dim {
                    let mut expected: Vec<usize> = Vec::new();
                    expected.push(d.num_v_heads);
                    expected.push(d.head_k_dim);
                    expected.push(d.head_v_dim);
                    assert(expected@ =~= seq![d.num_v_heads, d.head_k_dim, d.head_v_dim]);
                    let mut got: Vec<usize> = Vec::new();
                    got.push(self.state);
                    assert(got@ =~= seq![self.state]);
                    return Err(
                        BackendError::ShapeMismatch { op: "GatedDeltaNet", expected, got },
                    );
                }
                if self.rows > 0 {
                    Ok(Stage::Recur(0))
                } else {
                    Ok(Stage::Norm)
                }
            },
            Stage::Recur(i) => if i < self.rows && i + 1 < self.rows {
                Ok(Stage::Recur(i + 1))
            } else {
                Ok(Stage::Norm)
            },
            Stage::Norm => Ok(Stage::ProjectOut),
            Stage::ProjectOut => Ok(Stage::Done),
            Stage::Done => Ok(Stage::Done),
        }
    }
}

/// The weights of a layer.
#[derive(Debug, PartialEq, Eq)]
pub struct GatedDeltaWeights<'a> {
    pub in_proj_qkv: &'a TensorDesc,
    pub in_proj_z: &'a TensorDesc,
    pub in_proj_b: &'a TensorDesc,
    pub in_proj_a: &'a TensorDesc,
    /// One length of taps per channel.
    pub conv1d_weight: &'a TensorDesc,
    pub a_log: &'a TensorDesc,
    pub dt_bias: &'a TensorDesc,
    /// The gain of the gated norm.
    pub norm_weight: &'a TensorDesc,
    pub out_proj: &'a TensorDesc,
}

/// How a projection is multiplied.
#[derive(Debug, PartialEq, Eq)]
pub enum Projection {
    /// In single precision, on the host.
    Dense(MatmulPlan),
    /// In its encoding, by the backend.
    Encoded,
}

/// How rows of this shape are multiplied with a projection.
pub fn proj_matmul(x: &Vec<usize>, w: &TensorDesc) -> (r: Result<Projection, BackendError>)
    requires
        x@.len() > 0 ==> product_fits(leading(x@)),
    ensures
        if w.dtype == DType::F32 {
            match r {
                Ok(Projection::Dense(p)) => matmul_outcome(Ok(p), x@, w.shape@),
                Ok(Projection::Encoded) => false,
                Err(e) => matmul_outcome(Err(e), x@, w.shape@),
            }
        } else {
            r matches Ok(p) && p is Encoded
        },
{
    if w.dtype == DType::F32 {
        match matmul_f32(x, &w.shape) {
            Ok(p) => Ok(Projection::Dense(p)),
            Err(e) => Err(e),
        }
    } else {
        Ok(Projection::Encoded)
    }
}

/// The shape of `rows` rows.
pub fn row_shape(rows: usize, width: usize) -> (v: Vec<usize>)
    ensures
        v@ == seq![rows, width],
{
    let mut v: Vec<usize> = Vec::new();
    v.push(rows);
    v.push(width);
    assert(v@ =~= seq![rows, width]);
    v
}

impl Call {
    /// What a stage multiplies: the shape of its rows and the projection.
    pub fn projection<'a>(&self, stage: Stage, w: &GatedDeltaWeights<'a>) -> (r: Option<
        (Vec<usize>, &'a TensorDesc),
    >)
        requires
            self.dims.wf(),
        ensures
            match stage {
                Stage::ProjectQkv => r matches Some(p) && p.0@ == seq![self.rows, self.hidden]
                    && *p.1 == *w.in_proj_qkv,
                Stage::ProjectZ => r matches Some(p) && p.0@ == seq![self.rows, self.hidden] && *p.1
                    == *w.in_proj_z,
                Stage::ProjectB => r matches Some(p) && p.0@ == seq![self.rows, self.hidden] && *p.1
                    == *w.in_proj_b,
                Stage::ProjectA => r matches Some(p) && p.0@ == seq![self.rows, self.hidden] && *p.1
                    == *w.in_proj_a,
                Stage::ProjectOut => r matches Some(p) && p.0@ == seq![
                    self.rows,
                    self.dims.values() as usize,
                ] && *p.1 == *w.out_proj,
                _ => r is None,
            },
    {
        match stage {
            Stage::ProjectQkv => Some((row_shape(self.rows, self.hidden), w.in_proj_qkv)),
            Stage::ProjectZ => Some((row_shape(self.rows, self.hidden), w.in_proj_z)),
            Stage::ProjectB => Some((row_shape(self.rows, self.hidden), w.in_proj_b)),
            Stage::ProjectA => Some((row_shape(self.rows, self.hidden), w.in_proj_a)),
            Stage::ProjectOut => Some((row_shape(self.rows, self.dims.value_dim()), w.out_proj)),
            _ => None,
        }
    }
}

/// The stage after `n` stages from the start.
pub open spec fn nth_stage(n: nat, rows: usize) -> Stage
    decreases n,
{
    if n == 0 {
        Stage::ProjectQkv
    } else {
        after(nth_stage((n - 1) as nat, rows), rows)
    }
}

/// A call runs the recurrence for every row once, in the order of the rows,
/// and ends after the output projection.
pub proof fn every_row_recurs_in_order(rows: usize, i: nat)
    ensures
        i < rows ==> nth_stage(7 + i, rows) == Stage::Recur(i as usize),
        nth_stage(7 + rows as nat, rows) == Stage::Norm,
        nth_stage(9 + rows as nat, rows) == Stage::Done,
{
    reveal_with_fuel(nth_stage, 9);
    if 0 < rows {
        lemma_recurs(rows, (rows - 1) as nat);
    }
    if i < rows {
        lemma_recurs(rows, i);
    }
    let n = 7 + rows as nat;
    assert(nth_stage(n, rows) == Stage::Norm);
    assert(nth_stage(n + 1, rows) == Stage::ProjectOut);
    assert(nth_stage(n + 2, rows) == Stage::Done);
}

proof fn lemma_recurs(rows: usize, i: nat)
    requires
        i < rows,
    ensures
        nth_stage(7 + i, rows) == Stage::Recur(i as usize),
    decreases i,
{
    reveal_with_fuel(nth_stage, 9);
    if i > 0 {
        lemma_recurs(rows, (i - 1) as nat);
        assert(nth_stage(7 + i, rows) == after(nth_stage((7 + i - 1) as nat, rows), rows));
    }
}

} // verus!
