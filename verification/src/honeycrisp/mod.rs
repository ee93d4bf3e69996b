//! The Metal backend's decisions: kernel sources, buffer pooling, attention
//! state, and the command buffers of each operation.

pub mod attention_state;
pub mod buffers;
pub mod decode;
pub mod fused;
pub mod hazard;
pub mod route;
pub mod sources;
pub mod steps;
