//! The reference backend: shapes, checks and data movement of every
//! operation.

pub mod broadcast;
pub mod gated_delta;
pub mod mrope;
pub mod ops;
pub mod quant_dot;
pub mod tower;
pub mod vision;
