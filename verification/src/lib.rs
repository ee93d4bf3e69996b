//! Import of model files and planning of their execution.

pub mod backend;
pub mod cli;
pub mod config;
pub mod cpu;
pub mod cyb_format;
pub mod families;
pub mod hf;
pub mod honeycrisp;
pub mod kernels;
pub mod laws;
pub mod loader;
pub mod manifest;
pub mod naming;
pub mod plan;
pub mod quant;
pub mod tensor;
pub mod text;
pub mod toml_text;
pub mod types;
pub mod weights;
