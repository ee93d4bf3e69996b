//! Metal kernels: sources and launch geometry.

pub mod attention;
pub mod cache;
pub mod elementwise;
pub mod gated_delta;
pub mod gated_delta_block;
pub mod matmul;
pub mod mrope;
pub mod q4_matmul;
pub mod q4_plain;
pub mod q4k_matmul;
pub mod q6k_matmul;
pub mod q8_matmul;
pub mod q8_plain;
pub mod rope;
pub mod silu;
