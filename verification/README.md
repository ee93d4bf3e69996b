# glia

A runtime for language models that are stored in one file, and the tools that
bring models into that format.

- `src/` is the library. It reads and writes the model formats (`.model`, GGUF,
  ONNX, canonical quantized blocks), names and lays out weights, parses
  configurations, and plans every pass over the weights: the steps of a CPU
  decoder, of the vision tower and of the gated delta rule, and the kernel
  launches of the GPU backend with their barriers. Every function is verified
  with Verus against the contract in its header. Floats are carried as their
  bit patterns.
- `tests/` runs the library on concrete values.
- `app/` is the program: the command line, files and memory maps, downloads,
  floating-point arithmetic and the Metal device.

What the contracts take from other crates stands in a few trusted items:
`src/toml_text.rs` (the `toml` crate), `src/quant/brain_float.rs` (`half`), and
single functions of the standard library in `src/text.rs` and
`src/loader/gguf.rs`. Each says in its comment what is believed of the function
that it calls.

The public proof functions state what holds across functions: that what is
written reads back, that weights keep distinct names, that index maps are in
range and one to one, that no launch has rows of more blocks than its kernel
caches, and that the sources of a kernel differ in the size of their cache
alone. For the plans of decode tokens, projections, feed-forward parts, products and norms they
state that launches without a barrier between them do not touch each other's
buffers; the two attention plans, which have no barriers, rely on the order of
their launches.
