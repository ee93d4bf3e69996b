//! Source formats of models, and how they are told apart.

use vstd::prelude::*;

use crate::text;

pub mod gguf;
pub mod gguf_weights;
pub mod onnx;

verus! {

/// A source format.
#[derive(Clone, Copy, Debug, PartialEq, Eq, Structural)]
pub enum ModelFormat {
    Onnx,
    Safetensors,
    Gguf,
}

/// The format that a file extension names.
pub open spec fn extension_format(ext: Seq<char>) -> Option<ModelFormat> {
    if ext == "onnx"@ {
        Some(ModelFormat::Onnx)
    } else if ext == "safetensors"@ {
        Some(ModelFormat::Safetensors)
    } else if ext == "gguf"@ {
        Some(ModelFormat::Gguf)
    } else {
        None
    }
}

/// The format that the first bytes of a file give away. ONNX files begin with
/// the tag of one of two fields.
pub open spec fn magic_format(head: Seq<u8>) -> Option<ModelFormat> {
    if head.len() < 4 {
        None
    } else if head[0] == 0x47 && head[1] == 0x47 && head[2] == 0x55 && head[3] == 0x46 {
        Some(ModelFormat::Gguf)
    } else if head[0] == 0x08 || head[0] == 0x0a {
        Some(ModelFormat::Onnx)
    } else {
        None
    }
}

/// The format that a file extension names.
pub fn format_of_extension(ext: &str) -> (f: Option<ModelFormat>)
    ensures
        f == extension_format(ext@),
{
    if text::text_eq(ext, "onnx") {
        Some(ModelFormat::Onnx)
    } else if text::text_eq(ext, "safetensors") {
        Some(ModelFormat::Safetensors)
    } else if text::text_eq(ext, "gguf") {
        Some(ModelFormat::Gguf)
    } else {
        None
    }
}

/// The format of a file with this extension and these first bytes. Bytes are
/// consulted only where the extension says nothing.
pub fn detect_format(ext: &str, head: &Vec<u8>) -> (f: Option<ModelFormat>)
    ensures
        f == (if extension_format(ext@) is Some {
            extension_format(ext@)
        } else {
            magic_format(head@)
        }),
{
    match format_of_extension(ext) {
        Some(f) => {
            return Some(f);
        },
        None => {},
    }
    if head.len() < 4 {
        return None;
    }
    if head[0] == 0x47 && head[1] == 0x47 && head[2] == 0x55 && head[3] == 0x46 {
        Some(ModelFormat::Gguf)
    } else if head[0] == 0x08 || head[0] == 0x0a {
        Some(ModelFormat::Onnx)
    } else {
        None
    }
}

} // verus!
