//! Laws that span functions: what the results are in plain terms.

pub mod admission;
pub mod config;
pub mod cpu;
pub mod dataflow;
pub mod decode;
pub mod formats;
pub mod gguf;
pub mod kernels;
pub mod messages;
pub mod naming;
pub mod quant;
pub mod sources;
pub mod state;
pub mod templates;
pub mod token;
pub mod weights;
