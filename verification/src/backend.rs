//! What every backend shares: operations and errors.

use vstd::prelude::*;

use crate::tensor::DType;

verus! {

/// The operations of the graph executor. Fields that hold a single-precision
/// float hold its bit pattern.
#[derive(Clone, Copy, Debug, PartialEq, Eq, Structural)]
pub enum Op {
    RmsNorm { eps: u32 },
    Matmul,
    Rope { head_dim: u32, rope_dim: u32, base: u32 },
    Softmax { dim: i32 },
    Silu,
    Gelu { approximate: bool },
    Add,
    Mul,
    Sub,
    SwiGlu,
    Sdpa { num_heads: u32, kv_heads: u32, head_dim: u32 },
    Embed,
}

/// The name of an operation in messages.
pub open spec fn op_name(op: Op) -> Seq<char> {
    match op {
        Op::RmsNorm { .. } => "RmsNorm"@,
        Op::Matmul => "Matmul"@,
        Op::Rope { .. } => "Rope"@,
        Op::Softmax { .. } => "Softmax"@,
        Op::Silu => "Silu"@,
        Op::Gelu { .. } => "Gelu"@,
        Op::Add => "Add"@,
        Op::Mul => "Mul"@,
        Op::Sub => "Sub"@,
        Op::SwiGlu => "SwiGlu"@,
        Op::Sdpa { .. } => "Sdpa"@,
        Op::Embed => "Embed"@,
    }
}

impl Op {
    /// The name of the operation in messages.
    pub fn name(&self) -> (s: &'static str)
        ensures
            s@ == op_name(*self),
    {
        match *self {
            Op::RmsNorm { .. } => "RmsNorm",
            Op::Matmul => "Matmul",
            Op::Rope { .. } => "Rope",
            Op::Softmax { .. } => "Softmax",
            Op::Silu => "Silu",
            Op::Gelu { .. } => "Gelu",
            Op::Add => "Add",
            Op::Mul => "Mul",
            Op::Sub => "Sub",
            Op::SwiGlu => "SwiGlu",
            Op::Sdpa { .. } => "Sdpa",
            Op::Embed => "Embed",
        }
    }
}

/// Why an operation was refused.
#[derive(Debug, PartialEq, Eq)]
pub enum BackendError {
    /// The backend could not be started.
    BackendInit { backend: &'static str, reason: String },
    /// The device has no room for a buffer of this size.
    OutOfMemory { backend: &'static str, requested_bytes: usize },
    /// The backend does not implement the operation.
    UnsupportedOp { backend: &'static str, op: &'static str, input_dtype: DType },
    /// The backend cannot read the element type.
    UnsupportedDtype { backend: &'static str, dtype: DType, blocker: &'static str },
    /// A tensor has another shape than the operation needs.
    ShapeMismatch { op: &'static str, expected: Vec<usize>, got: Vec<usize> },
    /// A parameter or a buffer does not fit the operation.
    InvalidInput { op: &'static str, reason: String },
    /// Something that the backend does not do.
    Internal(String),
}

} // verus!
