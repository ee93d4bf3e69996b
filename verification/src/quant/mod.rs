//! Quantized encodings.

pub mod brain_float;
pub mod canonical;
pub mod dequant;
pub mod q4_0;
pub mod q4_k;
pub mod q5_k;
pub mod q6_k;
pub mod q8_0;
pub mod stored;
