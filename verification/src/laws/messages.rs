//! What a refusal says.

use vstd::prelude::*;

use crate::backend::{op_name, BackendError, Op};
use crate::cli::{help_line, help_text, painted, to_seven};
use crate::cpu::gated_delta::{conv_checks, conv_fault, heads_reason, refusal_of, Call, Stage};
use crate::cpu::ops::{
    count_reason, divisible_reason, length_reason, matmul_blocker, positions_reason,
    rms_norm_outcome, rope_outcome, softmax_outcome,
};
use crate::cyb_format::short_text;
use crate::loader::onnx::{count_lines, info_head, OnnxInfo, OpCount};
use crate::quant::stored::Format;
use crate::tensor::DType;
use crate::text::{decimal, signed_decimal};

verus! {

/// The name of an operation is that of its variant.
pub proof fn operations_have_their_names(op: Op)
    ensures
        op is RmsNorm ==> op_name(op) == "RmsNorm"@,
        op is Matmul ==> op_name(op) == "Matmul"@,
        op is Rope ==> op_name(op) == "Rope"@,
        op is Softmax ==> op_name(op) == "Softmax"@,
        op is Silu ==> op_name(op) == "Silu"@,
        op is Gelu ==> op_name(op) == "Gelu"@,
        op is Add ==> op_name(op) == "Add"@,
        op is Mul ==> op_name(op) == "Mul"@,
        op is Sub ==> op_name(op) == "Sub"@,
        op is SwiGlu ==> op_name(op) == "SwiGlu"@,
        op is Sdpa ==> op_name(op) == "Sdpa"@,
        op is Embed ==> op_name(op) == "Embed"@,
{
}

/// A rotation that is refused says what was asked for, and what the rows or
/// positions were.
pub proof fn rotations_are_refused_in_words(
    e: BackendError,
    x: Seq<usize>,
    pos: Seq<usize>,
    head_dim: usize,
    rope_dim: usize,
)
    requires
        rope_outcome(Err(e), x, pos, head_dim, rope_dim),
    ensures
        rope_dim as int % 2 == 1 || rope_dim == 0 || rope_dim > head_dim ==> (e
            matches BackendError::InvalidInput { op, reason } && op@ == "Rope"@ && reason@
            == "rope_dim must be even and \u{2264} head_dim, got "@ + (decimal(rope_dim as nat) + (
        " / "@ + decimal(head_dim as nat)))),
        rope_dim as int % 2 == 0 && 0 < rope_dim <= head_dim && x.len() > 0 && x[x.len() - 1]
            != head_dim ==> (e matches BackendError::ShapeMismatch { op, expected, got } && op@
            == "Rope"@ && expected@ == seq![head_dim] && got@ == x),
{
    assert("rope_dim must be even and \u{2264} head_dim, got "@ + decimal(rope_dim as nat) + " / "@
        + decimal(head_dim as nat) =~= "rope_dim must be even and \u{2264} head_dim, got "@ + (
    decimal(rope_dim as nat) + (" / "@ + decimal(head_dim as nat))));
}

/// The texts with numbers name them in order.
pub proof fn reasons_name_their_numbers(a: nat, b: nat)
    ensures
        count_reason(a, b) == "expected "@ + (decimal(a) + (" inputs, got "@ + decimal(b))),
        positions_reason(a, b) == "cannot broadcast pos (len="@ + (decimal(a) + (") across x ("@ + (
        decimal(b) + " rows of head_dim)"@))),
{
    assert(count_reason(a, b) =~= "expected "@ + (decimal(a) + (" inputs, got "@ + decimal(b))));
    assert(positions_reason(a, b) =~= "cannot broadcast pos (len="@ + (decimal(a) + (
    ") across x ("@ + (decimal(b) + " rows of head_dim)"@))));
}

/// Encoded products name the block length, and the bytes that they have and
/// that they want.
#[verifier::spinoff_prover]
#[verifier::rlimit(40)]
pub proof fn encoded_products_are_refused_in_words(len: usize, n: usize, k: usize)
    ensures
        divisible_reason(Format::Q8, k) == "K must be divisible by "@ + (decimal(32) + (", got K="@
            + decimal(k as nat))),
        divisible_reason(Format::Q4_K, k) == "K must be divisible by "@ + (decimal(256) + (
        ", got K="@ + decimal(k as nat))),
        length_reason(Format::Q8, len, n, k) == "weight buffer length "@ + (decimal(len as nat) + (
        " does not match N\u{d7}row_bytes ("@ + (decimal(n as nat) + ("\u{d7}"@ + (decimal(
            (k as int / 32 * 34) as nat,
        ) + (" = "@ + (decimal((n * (k as int / 32 * 34)) as nat) + ")"@))))))),
        matmul_blocker(DType::U32)
            == "matmul against U32/U16/Ternary not expected; norms/biases use other ops"@,
        matmul_blocker(DType::U16) == matmul_blocker(DType::U32),
        matmul_blocker(DType::Ternary) == matmul_blocker(DType::U32),
        matmul_blocker(DType::Q5_K) == "fused quant matmul not implemented"@,
        matmul_blocker(DType::F32) == "fused quant matmul not implemented"@,
{
    assert(divisible_reason(Format::Q8, k) =~= "K must be divisible by "@ + (decimal(32) + (
    ", got K="@ + decimal(k as nat))));
    assert(divisible_reason(Format::Q4_K, k) =~= "K must be divisible by "@ + (decimal(256) + (
    ", got K="@ + decimal(k as nat))));
    assert(length_reason(Format::Q8, len, n, k) =~= "weight buffer length "@ + (decimal(
        len as nat,
    ) + (" does not match N\u{d7}row_bytes ("@ + (decimal(n as nat) + ("\u{d7}"@ + (decimal(
        (k as int / 32 * 34) as nat,
    ) + (" = "@ + (decimal((n * (k as int / 32 * 34)) as nat) + ")"@))))))));
}

/// A convolution wants the channels last, and of the state the rows before the
/// window.
pub proof fn convolutions_are_refused_in_order(
    e: BackendError,
    shape: Seq<usize>,
    channels: usize,
    taps: usize,
    state: nat,
)
    requires
        conv_fault(e, shape, channels, taps, state),
        0 < taps,
        state <= usize::MAX,
    ensures
        e matches BackendError::ShapeMismatch { op, expected, got } && op@ == "CausalConv1d"@ && (
        if shape.len() > 0 && shape[shape.len() - 1] == channels {
            expected@ == seq![channels, (taps - 1) as usize] && got@ == seq![state as usize]
        } else {
            expected@ == seq![0, channels] && got@ == shape
        }),
        conv_checks(shape, channels, taps, state) <==> shape.len() > 0 && shape[shape.len() - 1]
            == channels && state == (taps - 1) * channels,
{
    assert(channels * (taps - 1) == (taps - 1) * channels) by (nonlinear_arith);
}

/// The recurrence says which heads do not go together, or which state it
/// wants.
pub proof fn recurrences_are_refused_in_words(e: BackendError, c: Call)
    ensures
        heads_reason(c.dims) == "num_v_heads "@ + (decimal(c.dims.num_v_heads as nat) + (
        " not a multiple of num_k_heads "@ + decimal(c.dims.num_k_heads as nat))),
        refusal_of(e, Stage::Gate, c) ==> (e matches BackendError::InvalidInput { op, reason }
            && op@ == "GatedDeltaNet"@ && reason@ == heads_reason(c.dims)),
        refusal_of(e, Stage::Expand, c) ==> (e matches BackendError::ShapeMismatch {
            op,
            expected,
            got,
        } && op@ == "GatedDeltaNet"@ && expected@ == seq![
            c.dims.num_v_heads,
            c.dims.head_k_dim,
            c.dims.head_v_dim,
        ] && got@ == seq![c.state]),
{
    assert(heads_reason(c.dims) =~= "num_v_heads "@ + (decimal(c.dims.num_v_heads as nat) + (
    " not a multiple of num_k_heads "@ + decimal(c.dims.num_k_heads as nat))));
}

/// Softmax over another dimension says which one, counted from the start.
pub proof fn softmax_is_refused_in_words(e: BackendError, x: Seq<usize>, dim: i32)
    requires
        softmax_outcome(Err(e), x, dim),
    ensures
        dim >= x.len() ==> (e matches BackendError::InvalidInput { op, reason } && op@ == "Softmax"@
            && reason@ == "dim "@ + (decimal(dim as nat) + (" out of range for rank "@ + decimal(
            x.len(),
        )))),
        0 <= dim < x.len() ==> (e matches BackendError::Internal(s) && s@
            == "Softmax currently only supports last-dim (dim="@ + (decimal(dim as nat) + (
        ", rank="@ + (decimal(x.len()) + ")"@)))),
{
    assert("dim "@ + signed_decimal(dim as int) + " out of range for rank "@ + decimal(x.len())
        =~= "dim "@ + (signed_decimal(dim as int) + (" out of range for rank "@ + decimal(
        x.len(),
    ))));
    assert("Softmax currently only supports last-dim (dim="@ + signed_decimal(dim as int)
        + ", rank="@ + decimal(x.len()) + ")"@
        =~= "Softmax currently only supports last-dim (dim="@ + (signed_decimal(dim as int) + (
    ", rank="@ + (decimal(x.len()) + ")"@))));
}

/// A norm says the width that it wants.
pub proof fn norms_are_refused_in_order(e: BackendError, x: Seq<usize>, k: usize)
    requires
        rms_norm_outcome(Err(e), x, seq![k]),
    ensures
        e matches BackendError::ShapeMismatch { op, expected, got } && op@ == "RmsNorm"@
            && expected@ == seq![k] && got@ == x,
{
}

/// Weights that end too soon are told by both sizes.
pub proof fn short_weights_are_told(copied: u64, expected: u64)
    ensures
        short_text(copied, expected) == "weights source had "@ + (decimal(copied as nat) + (
        " bytes, expected "@ + decimal(expected as nat))),
{
    assert(short_text(copied, expected) =~= "weights source had "@ + (decimal(copied as nat) + (
    " bytes, expected "@ + decimal(expected as nat))));
}

/// Help without a terminal is the usage and a line for each command.
#[verifier::spinoff_prover]
#[verifier::rlimit(40)]
pub proof fn help_lists_the_commands()
    ensures
        help_text(false) == "usage: glia <command> [args…]"@ + ("\n"@ + (help_line(
            false,
            "import"@,
            "import an ML model (HF directory → .model)"@,
        ) + help_line(false, "run"@, "run a model — portable, spec-driven runtime"@))),
        forall|name: Seq<char>, description: Seq<char>| #[trigger]
            help_line(false, name, description) == "  "@ + (to_seven(name) + ("  "@ + (description
                + "\n"@))),
        forall|name: Seq<char>, description: Seq<char>| #[trigger]
            help_line(true, name, description) == "  "@ + (painted(true, "1"@, to_seven(name)) + (
            "  "@ + (painted(true, "90"@, description) + "\n"@))),
{
    assert(help_text(false) =~= "usage: glia <command> [args…]"@ + ("\n"@ + (help_line(
        false,
        "import"@,
        "import an ML model (HF directory → .model)"@,
    ) + help_line(false, "run"@, "run a model — portable, spec-driven runtime"@))));
    assert forall|name: Seq<char>, description: Seq<char>| #[trigger]
        help_line(false, name, description) == "  "@ + (to_seven(name) + ("  "@ + (description
            + "\n"@))) by {
        assert(help_line(false, name, description) =~= "  "@ + (to_seven(name) + ("  "@ + (
        description + "\n"@))));
    }
    assert forall|name: Seq<char>, description: Seq<char>| #[trigger]
        help_line(true, name, description) == "  "@ + (painted(true, "1"@, to_seven(name)) + (
        "  "@ + (painted(true, "90"@, description) + "\n"@))) by {
        assert(help_line(true, name, description) =~= "  "@ + (painted(true, "1"@, to_seven(name))
            + ("  "@ + (painted(true, "90"@, description) + "\n"@))));
    }
}

/// A graph is described by its numbers, each on a line of its own, and by a
/// line for each operator.
pub proof fn graphs_are_described(i: OnnxInfo, nodes: nat, counts: Seq<OpCount>, n: int)
    requires
        0 <= n < counts.len(),
    ensures
        info_head(i, nodes) == "IR version: "@ + signed_decimal(i.ir_version as int)
            + "\nOpset: "@ + signed_decimal(i.opset as int) + "\nNodes: "@ + decimal(nodes)
            + "\nInputs: "@ + decimal(i.inputs as nat) + "\nOutputs: "@ + decimal(
            i.outputs as nat,
        ) + "\nInitializers: "@ + decimal(i.initializers as nat) + "\n\nOperator counts:\n"@,
        count_lines(counts, 0).len() == 0,
        count_lines(counts, n + 1) == count_lines(counts, n) + ("  "@ + (counts[n].op@ + (": "@ + (
        decimal(counts[n].count as nat) + "\n"@)))),
{
    assert(count_lines(counts, n + 1) =~= count_lines(counts, n) + ("  "@ + (counts[n].op@ + (": "@
        + (decimal(counts[n].count as nat) + "\n"@)))));
}

} // verus!
