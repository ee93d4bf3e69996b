//! Decoding by element type.

use vstd::prelude::*;

use crate::backend::BackendError;
use crate::quant::stored::{block_bytes, decode, decoded, decoded_len, Format, Stored};
use crate::tensor::DType;

verus! {

/// The encoding of an element type of the runtime, where it can be decoded.
pub open spec fn format_of(dtype: DType) -> Option<Format> {
    match dtype {
        DType::U32 => Some(Format::U32),
        DType::U16 => Some(Format::U16),
        DType::Q4 => Some(Format::Q4),
        DType::Q8 => Some(Format::Q8),
        DType::Ternary => Some(Format::Ternary),
        DType::Q4_0 => Some(Format::Q4_0),
        DType::Q4_K => Some(Format::Q4_K),
        DType::Q5_K => None,
        DType::Q6_K => Some(Format::Q6_K),
        DType::Q8_0 => Some(Format::Q8_0),
        DType::F32 => Some(Format::Single),
        DType::F16 => Some(Format::Half),
        DType::BF16 => Some(Format::Brain),
    }
}

/// The element type wants whole blocks; the integer encodings ignore bytes
/// after the last whole block.
pub open spec fn wants_whole_blocks(dtype: DType) -> bool {
    !(dtype is U32 || dtype is U16 || dtype is Q8 || dtype is Q4 || dtype is Ternary)
}

/// The bytes can be decoded as the element type.
pub open spec fn decodable(dtype: DType, bytes: nat) -> bool {
    match format_of(dtype) {
        Some(f) => {
            &&& wants_whole_blocks(dtype) ==> bytes % block_bytes(f) == 0
            &&& decoded_len(f, bytes) <= usize::MAX
        },
        None => true,
    }
}

/// The encoding of an element type.
pub fn format_for(dtype: DType) -> (f: Option<Format>)
    ensures
        f == format_of(dtype),
{
    match dtype {
        DType::U32 => Some(Format::U32),
        DType::U16 => Some(Format::U16),
        DType::Q4 => Some(Format::Q4),
        DType::Q8 => Some(Format::Q8),
        DType::Ternary => Some(Format::Ternary),
        DType::Q4_0 => Some(Format::Q4_0),
        DType::Q4_K => Some(Format::Q4_K),
        DType::Q5_K => None,
        DType::Q6_K => Some(Format::Q6_K),
        DType::Q8_0 => Some(Format::Q8_0),
        DType::F32 => Some(Format::Single),
        DType::F16 => Some(Format::Half),
        DType::BF16 => Some(Format::Brain),
    }
}

/// Decodes tensor data; an element type that cannot be decoded is refused.
pub fn try_dequantize_to_f32(bytes: &[u8], dtype: DType) -> (r: Result<Vec<Stored>, BackendError>)
    requires
        decodable(dtype, bytes@.len()),
    ensures
        match format_of(dtype) {
            Some(f) => r matches Ok(v) && v@ == decoded(f, bytes@),
            None => r matches Err(BackendError::UnsupportedDtype { backend, dtype: d, blocker })
                && backend@ == "cpu"@ && d == dtype && blocker@ == "Q5_K dequant not implemented"@,
        },
{
    match format_for(dtype) {
        Some(f) => Ok(decode(f, bytes)),
        None => Err(
            BackendError::UnsupportedDtype {
                backend: "cpu",
                dtype,
                blocker: "Q5_K dequant not implemented",
            },
        ),
    }
}

/// Decodes tensor data of an element type that can be decoded.
pub fn dequantize_to_f32(bytes: &[u8], dtype: DType) -> (v: Vec<Stored>)
    requires
        decodable(dtype, bytes@.len()),
        dtype !is Q5_K,
    ensures
        v@ == decoded(format_of(dtype)->0, bytes@),
{
    match format_for(dtype) {
        Some(f) => decode(f, bytes),
        None => Vec::new(),
    }
}

} // verus!
