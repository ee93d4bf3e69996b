//! Weights of a decoder, taken from the tensors of a model file.
//!
//! Matrices stay in their encoding. Norm gains, biases and other small
//! tensors are decoded when they are loaded.

use vstd::prelude::*;

use crate::config::{
    find_tensor, gated, head_dim_of, kind_at, of_full, tensor_named, LayerKind, LlamaConfig,
    RawConfig, VisionConfig,
};
use crate::laws::weights::norms_have_the_offset_of_the_family;
use crate::loader::gguf::copy_range;
use crate::quant::dequant::{decodable, format_for, format_of};
use crate::quant::stored::{decode, decoded, decoded_len, Stored};
use crate::tensor::{copy_shape, numel, product, product_fits, DType, TensorMeta};
use crate::text;

verus! {

/// The tensors of a model file: their descriptions and, one for each, their
/// data where it could be read.
#[derive(Debug, PartialEq, Eq)]
pub struct LoadedModel {
    pub tensors: Vec<TensorMeta>,
    pub bytes: Vec<Option<Vec<u8>>>,
}

impl LoadedModel {
    /// There is one piece of data per tensor, and element counts are in range.
    pub open spec fn wf(&self) -> bool {
        &&& self.bytes@.len() == self.tensors@.len()
        &&& forall|i: int|
            0 <= i < self.tensors@.len() ==> product_fits((#[trigger] self.tensors@[i]).shape@)
    }
}

/// A matrix in its encoding.
#[derive(Debug, PartialEq, Eq)]
pub struct QuantWeight {
    pub shape: Vec<usize>,
    pub dtype: DType,
    pub bytes: Vec<u8>,
}

/// The content of a [`QuantWeight`].
#[verifier::ext_equal]
pub struct QuantView {
    pub shape: Seq<usize>,
    pub dtype: DType,
    pub bytes: Seq<u8>,
}

impl View for QuantWeight {
    type V = QuantView;

    open spec fn view(&self) -> QuantView {
        QuantView { shape: self.shape@, dtype: self.dtype, bytes: self.bytes@ }
    }
}

impl QuantWeight {
    /// The number of elements.
    pub fn numel(&self) -> (n: usize)
        requires
            product_fits(self.shape@),
        ensures
            n == product(self.shape@),
    {
        numel(&self.shape)
    }

    /// The number of rows.
    pub fn n(&self) -> (n: usize)
        requires
            self.shape@.len() >= 1,
        ensures
            n == self.shape@[0],
    {
        self.shape[0]
    }

    /// The number of columns.
    pub fn k(&self) -> (k: usize)
        requires
            self.shape@.len() >= 2,
        ensures
            k == self.shape@[1],
    {
        self.shape[1]
    }
}

/// A decoded tensor.
#[derive(Debug, PartialEq, Eq)]
pub struct DenseTensor {
    pub shape: Vec<usize>,
    pub elements: Vec<Stored>,
    /// One is to be added to every element.
    pub plus_one: bool,
}

/// The content of a [`DenseTensor`].
#[verifier::ext_equal]
pub struct DenseView {
    pub shape: Seq<usize>,
    pub elements: Seq<Stored>,
    pub plus_one: bool,
}

impl View for DenseTensor {
    type V = DenseView;

    open spec fn view(&self) -> DenseView {
        DenseView { shape: self.shape@, elements: self.elements@, plus_one: self.plus_one }
    }
}

/// Why weights could not be loaded.
#[derive(Debug, PartialEq, Eq)]
pub enum WeightError {
    /// The model has no such tensor.
    Missing(String),
    /// The data of the tensor could not be read.
    NoBytes(String),
    /// The element type of the tensor cannot be decoded.
    Unsupported(String, DType),
    /// The data of the tensor is no sequence of whole blocks.
    Misaligned(String),
    /// The data of the tensor holds another number of elements than its shape.
    Count(String),
    /// The tensor does not have the number of elements of the expected shape.
    Shape { name: String, declared: Vec<usize>, rows: usize, columns: usize },
    /// The configuration lacks a field that a linear-attention layer needs.
    NoField { layer: usize, field: &'static str },
}

/// The content of a [`WeightError`].
pub enum Fault {
    Missing(Seq<char>),
    NoBytes(Seq<char>),
    Unsupported(Seq<char>, DType),
    Misaligned(Seq<char>),
    Count(Seq<char>),
    Shape { name: Seq<char>, declared: Seq<usize>, rows: usize, columns: usize },
    NoField { layer: usize, field: Seq<char> },
}

impl View for WeightError {
    type V = Fault;

    open spec fn view(&self) -> Fault {
        match *self {
            WeightError::Missing(s) => Fault::Missing(s@),
            WeightError::NoBytes(s) => Fault::NoBytes(s@),
            WeightError::Unsupported(s, d) => Fault::Unsupported(s@, d),
            WeightError::Misaligned(s) => Fault::Misaligned(s@),
            WeightError::Count(s) => Fault::Count(s@),
            WeightError::Shape { name, declared, rows, columns } => Fault::Shape {
                name: name@,
                declared: declared@,
                rows,
                columns,
            },
            WeightError::NoField { layer, field } => Fault::NoField { layer, field: field@ },
        }
    }
}

/// The decoded tensor of a name.
pub open spec fn dense_of(m: LoadedModel, name: Seq<char>) -> Result<DenseView, Fault> {
    match tensor_named(m.tensors@, name, 0) {
        None => Err(Fault::Missing(name)),
        Some(i) => {
            let t = m.tensors@[i];
            match m.bytes@[i] {
                None => Err(Fault::NoBytes(name)),
                Some(b) => match format_of(t.dtype) {
                    None => Err(Fault::Unsupported(name, t.dtype)),
                    Some(f) => if !decodable(t.dtype, b@.len()) {
                        Err(Fault::Misaligned(name))
                    } else if decoded(f, b@).len() != product(t.shape@) {
                        Err(Fault::Count(name))
                    } else {
                        Ok(
                            DenseView {
                                shape: t.shape@,
                                elements: decoded(f, b@),
                                plus_one: false,
                            },
                        )
                    },
                },
            }
        },
    }
}

/// The decoded tensor of a name in another shape of the same size.
pub open spec fn dense_as(m: LoadedModel, name: Seq<char>, rows: usize, columns: usize) -> Result<
    DenseView,
    Fault,
> {
    match dense_of(m, name) {
        Err(e) => Err(e),
        Ok(t) => if product(t.shape) != rows * columns {
            Err(Fault::Shape { name, declared: t.shape, rows, columns })
        } else {
            Ok(
                DenseView {
                    shape: seq![rows, columns],
                    elements: t.elements,
                    plus_one: t.plus_one,
                },
            )
        },
    }
}

/// The encoded tensor of a name.
pub open spec fn quant_of(m: LoadedModel, name: Seq<char>) -> Result<QuantView, Fault> {
    match tensor_named(m.tensors@, name, 0) {
        None => Err(Fault::Missing(name)),
        Some(i) => match m.bytes@[i] {
            None => Err(Fault::NoBytes(name)),
            Some(b) => Ok(
                QuantView {
                    shape: m.tensors@[i].shape@,
                    dtype: m.tensors@[i].dtype,
                    bytes: b@,
                },
            ),
        },
    }
}

/// The encoded tensor of a name as a matrix of the same size. The data is in
/// row order whichever way the shape was written down.
pub open spec fn quant_as(m: LoadedModel, name: Seq<char>, rows: usize, columns: usize) -> Result<
    QuantView,
    Fault,
> {
    match quant_of(m, name) {
        Err(e) => Err(e),
        Ok(t) => if product(t.shape) != rows * columns {
            Err(Fault::Shape { name, declared: t.shape, rows, columns })
        } else {
            Ok(QuantView { shape: seq![rows, columns], dtype: t.dtype, bytes: t.bytes })
        },
    }
}

/// The decoded tensor of a name, where it is there and can be decoded. Data
/// that is no sequence of whole blocks is a fault nevertheless.
pub open spec fn optional_of(m: LoadedModel, name: Seq<char>) -> Result<Option<DenseView>, Fault> {
    match dense_of(m, name) {
        Ok(t) => Ok(Some(t)),
        Err(Fault::Misaligned(n)) => Err(Fault::Misaligned(n)),
        Err(_) => Ok(None),
    }
}

/// One thing that loading asks of a model.
pub enum Request {
    Dense(Seq<char>),
    DenseAs(Seq<char>, usize, usize),
    Quant(Seq<char>, usize, usize),
    Optional(Seq<char>),
    /// A field of the configuration that a layer needs.
    Field(usize, Seq<char>, Option<usize>),
}

/// What is wrong with one request.
pub open spec fn request_fault(m: LoadedModel, r: Request) -> Option<Fault> {
    match r {
        Request::Dense(name) => match dense_of(m, name) {
            Ok(_) => None,
            Err(e) => Some(e),
        },
        Request::DenseAs(name, rows, columns) => match dense_as(m, name, rows, columns) {
            Ok(_) => None,
            Err(e) => Some(e),
        },
        Request::Quant(name, rows, columns) => match quant_as(m, name, rows, columns) {
            Ok(_) => None,
            Err(e) => Some(e),
        },
        Request::Optional(name) => match optional_of(m, name) {
            Ok(_) => None,
            Err(e) => Some(e),
        },
        Request::Field(layer, field, value) => match value {
            Some(_) => None,
            None => Some(Fault::NoField { layer, field }),
        },
    }
}

/// What is wrong with the first of the requests, from `k` on, that fails.
pub open spec fn first_fault(m: LoadedModel, rs: Seq<Request>, k: int) -> Option<Fault>
    decreases rs.len() - k,
{
    if k < 0 || k >= rs.len() {
        None
    } else {
        match request_fault(m, rs[k]) {
            Some(f) => Some(f),
            None => first_fault(m, rs, k + 1),
        }
    }
}

/// The requests of two lists one after the other fail as the first list does,
/// or else as the second.
pub proof fn lemma_joined(m: LoadedModel, a: Seq<Request>, b: Seq<Request>, k: int)
    requires
        0 <= k <= a.len(),
    ensures
        first_fault(m, a + b, k) == match first_fault(m, a, k) {
            Some(f) => Some(f),
            None => first_fault(m, b, 0),
        },
    decreases a.len() - k,
{
    if k < a.len() {
        assert((a + b)[k] == a[k]);
        lemma_joined(m, a, b, k + 1);
    } else {
        lemma_shifted(m, a, b, 0);
    }
}

proof fn lemma_shifted(m: LoadedModel, a: Seq<Request>, b: Seq<Request>, k: int)
    requires
        0 <= k <= b.len(),
    ensures
        first_fault(m, a + b, a.len() + k) == first_fault(m, b, k),
    decreases b.len() - k,
{
    if k < b.len() {
        assert((a + b)[a.len() + k] == b[k]);
        lemma_shifted(m, a, b, k + 1);
    }
}

fn data_of<'a>(m: &'a LoadedModel, name: &str) -> (r: Result<(usize, &'a Vec<u8>), WeightError>)
    requires
        m.wf(),
    ensures
        match tensor_named(m.tensors@, name@, 0) {
            None => r matches Err(e) && e@ == Fault::Missing(name@),
            Some(i) => match m.bytes@[i] {
                None => r matches Err(e) && e@ == Fault::NoBytes(name@),
                Some(b) => r matches Ok(x) && x.0 == i && *x.1 == b && i < m.tensors@.len(),
            },
        },
{
    match find_tensor(&m.tensors, name) {
        None => Err(WeightError::Missing(name.to_owned())),
        Some(i) => match &m.bytes[i] {
            None => Err(WeightError::NoBytes(name.to_owned())),
            Some(b) => Ok((i, b)),
        },
    }
}

/// Whether so many bytes are whole blocks whose elements can be counted.
fn can_decode(dtype: DType, bytes: usize) -> (b: bool)
    requires
        format_of(dtype) is Some,
    ensures
        b == decodable(dtype, bytes as nat),
{
    match format_for(dtype) {
        Some(f) => {
            let width: usize = f.bytes();
            let size: usize = f.len();
            let integer: bool = dtype == DType::U32 || dtype == DType::U16 || dtype == DType::Q8
                || dtype == DType::Q4 || dtype == DType::Ternary;
            let whole: bool = integer || bytes % width == 0;
            let blocks: usize = bytes / width;
            assert(blocks as u128 * size as u128 <= u128::MAX) by (nonlinear_arith)
                requires
                    blocks <= 0xffff_ffff_ffff_ffff,
                    size <= 256,
            ;
            assert(decoded_len(f, bytes as nat) == blocks * size);
            whole && blocks as u128 * size as u128 <= usize::MAX as u128
        },
        None => true,
    }
}

/// The decoded tensor of a name.
pub fn load_tensor_f32(m: &LoadedModel, name: &str) -> (r: Result<DenseTensor, WeightError>)
    requires
        m.wf(),
    ensures
        match dense_of(*m, name@) {
            Ok(t) => r matches Ok(x) && x@ == t,
            Err(f) => r matches Err(e) && e@ == f,
        },
{
    let (i, b) = match data_of(m, name) {
        Ok(x) => x,
        Err(e) => {
            return Err(e);
        },
    };
    let dtype = m.tensors[i].dtype;
    match format_for(dtype) {
        None => Err(WeightError::Unsupported(name.to_owned(), dtype)),
        Some(f) => {
            if !can_decode(dtype, b.len()) {
                return Err(WeightError::Misaligned(name.to_owned()));
            }
            let elements = decode(f, b.as_slice());
            assert(product_fits(m.tensors@[i as int].shape@));
            let count: usize = numel(&m.tensors[i].shape);
            if elements.len() != count {
                return Err(WeightError::Count(name.to_owned()));
            }
            Ok(DenseTensor { shape: copy_shape(&m.tensors[i].shape), elements, plus_one: false })
        },
    }
}

/// The encoded tensor of a name.
pub fn load_quant_weight(m: &LoadedModel, name: &str) -> (r: Result<QuantWeight, WeightError>)
    requires
        m.wf(),
    ensures
        match quant_of(*m, name@) {
            Ok(t) => r matches Ok(x) && x@ == t,
            Err(f) => r matches Err(e) && e@ == f,
        },
{
    let (i, b) = match data_of(m, name) {
        Ok(x) => x,
        Err(e) => {
            return Err(e);
        },
    };
    let bytes = copy_range(b.as_slice(), 0, b.len());
    assert(bytes@ =~= b@);
    Ok(QuantWeight { shape: copy_shape(&m.tensors[i].shape), dtype: m.tensors[i].dtype, bytes })
}

fn same_size(shape: &Vec<usize>, rows: usize, columns: usize) -> (b: bool)
    requires
        product_fits(shape@),
    ensures
        b == (product(shape@) == rows * columns),
{
    assert(rows as u128 * columns as u128 <= u128::MAX) by (nonlinear_arith)
        requires
            rows <= 0xffff_ffff_ffff_ffff,
            columns <= 0xffff_ffff_ffff_ffff,
    ;
    numel(shape) as u128 == rows as u128 * columns as u128
}

fn matrix_shape(rows: usize, columns: usize) -> (v: Vec<usize>)
    ensures
        v@ == seq![rows, columns],
{
    let mut v: Vec<usize> = Vec::new();
    v.push(rows);
    v.push(columns);
    assert(v@ =~= seq![rows, columns]);
    v
}

proof fn lemma_named(ts: Seq<TensorMeta>, name: Seq<char>, from: int)
    requires
        0 <= from,
    ensures
        tensor_named(ts, name, from) matches Some(i) ==> from <= i < ts.len(),
    decreases ts.len() - from,
{
    if from < ts.len() && ts[from].name@ != name {
        lemma_named(ts, name, from + 1);
    }
}

/// The decoded tensor of a name as a matrix; one with another number of
/// elements is refused.
pub fn try_load_tensor_f32_reshaped(
    m: &LoadedModel,
    name: &str,
    rows: usize,
    columns: usize,
) -> (r: Result<DenseTensor, WeightError>)
    requires
        m.wf(),
    ensures
        match dense_as(*m, name@, rows, columns) {
            Ok(t) => r matches Ok(x) && x@ == t,
            Err(f) => r matches Err(e) && e@ == f,
        },
{
    let t = match load_tensor_f32(m, name) {
        Ok(t) => t,
        Err(e) => {
            return Err(e);
        },
    };
    proof {
        lemma_named(m.tensors@, name@, 0);
    }
    if !same_size(&t.shape, rows, columns) {
        return Err(
            WeightError::Shape { name: name.to_owned(), declared: t.shape, rows, columns },
        );
    }
    Ok(
        DenseTensor {
            shape: matrix_shape(rows, columns),
            elements: t.elements,
            plus_one: t.plus_one,
        },
    )
}

/// The decoded tensor of a name as a matrix with as many elements.
pub fn load_tensor_f32_reshaped(m: &LoadedModel, name: &str, rows: usize, columns: usize) -> (r:
    Result<DenseTensor, WeightError>)
    requires
        m.wf(),
        dense_of(*m, name@) matches Ok(t) ==> product(t.shape) == rows * columns,
    ensures
        match dense_of(*m, name@) {
            Ok(t) => r matches Ok(x) && x@ == (DenseView { shape: seq![rows, columns], ..t }),
            Err(f) => r matches Err(e) && e@ == f,
        },
{
    try_load_tensor_f32_reshaped(m, name, rows, columns)
}

/// The encoded tensor of a name as a matrix.
pub fn load_quant_weight_reshaped(m: &LoadedModel, name: &str, rows: usize, columns: usize) -> (r:
    Result<QuantWeight, WeightError>)
    requires
        m.wf(),
    ensures
        match quant_as(*m, name@, rows, columns) {
            Ok(t) => r matches Ok(x) && x@ == t,
            Err(f) => r matches Err(e) && e@ == f,
        },
{
    let t = match load_quant_weight(m, name) {
        Ok(t) => t,
        Err(e) => {
            return Err(e);
        },
    };
    proof {
        lemma_named(m.tensors@, name@, 0);
    }
    if !same_size(&t.shape, rows, columns) {
        return Err(
            WeightError::Shape { name: name.to_owned(), declared: t.shape, rows, columns },
        );
    }
    Ok(QuantWeight { shape: matrix_shape(rows, columns), dtype: t.dtype, bytes: t.bytes })
}

/// The content of an optional tensor.
pub open spec fn optional_view(t: Option<DenseTensor>) -> Option<DenseView> {
    match t {
        Some(t) => Some(t@),
        None => None,
    }
}

fn try_load(m: &LoadedModel, name: &str) -> (r: Result<Option<DenseTensor>, WeightError>)
    requires
        m.wf(),
    ensures
        match optional_of(*m, name@) {
            Ok(t) => r matches Ok(x) && optional_view(x) == t,
            Err(f) => r matches Err(e) && e@ == f,
        },
{
    match load_tensor_f32(m, name) {
        Ok(t) => Ok(Some(t)),
        Err(WeightError::Misaligned(n)) => Err(WeightError::Misaligned(n)),
        Err(_) => Ok(None),
    }
}

/// The name of a tensor of a layer.
pub open spec fn layer_name(i: usize, part: Seq<char>) -> Seq<char> {
    "model.layers."@ + text::decimal(i as nat) + "."@ + part
}

fn name_in_layer(i: usize, part: &str) -> (s: String)
    ensures
        s@ == layer_name(i, part@),
{
    let digits = text::decimal_string(i);
    let head = text::concat("model.layers.", digits.as_str());
    let dotted = text::concat(head.as_str(), ".");
    text::concat(dotted.as_str(), part)
}

/// The weights of a linear-attention layer.
#[derive(Debug, PartialEq, Eq)]
pub struct GatedDeltaLayerWeights {
    pub in_proj_qkv: QuantWeight,
    pub in_proj_z: QuantWeight,
    pub in_proj_b: QuantWeight,
    pub in_proj_a: QuantWeight,
    pub out_proj: QuantWeight,
    /// One row of taps per channel.
    pub conv1d_weight: DenseTensor,
    pub a_log: DenseTensor,
    pub dt_bias: DenseTensor,
    pub norm_weight: DenseTensor,
}

/// The weights of a layer. A linear-attention layer has empty projections in
/// place of those of attention.
#[derive(Debug, PartialEq, Eq)]
pub struct LayerWeights {
    pub input_norm: DenseTensor,
    pub q_proj: QuantWeight,
    pub k_proj: QuantWeight,
    pub v_proj: QuantWeight,
    pub o_proj: QuantWeight,
    pub q_proj_bias: Option<DenseTensor>,
    pub k_proj_bias: Option<DenseTensor>,
    pub v_proj_bias: Option<DenseTensor>,
    pub q_norm: Option<DenseTensor>,
    pub k_norm: Option<DenseTensor>,
    /// The norm before the feed-forward part.
    pub post_norm: DenseTensor,
    pub gate_proj: QuantWeight,
    pub up_proj: QuantWeight,
    pub down_proj: QuantWeight,
    /// The norm of the attention output before it is added.
    pub post_attn_norm: Option<DenseTensor>,
    /// The norm of the feed-forward output before it is added.
    pub post_ffw_norm: Option<DenseTensor>,
    /// The scale of the layer output.
    pub layer_output_scale: Option<DenseTensor>,
    pub linear_attn: Option<GatedDeltaLayerWeights>,
}

/// The widths that the tensors of a layer must have.
#[derive(Clone, Copy, Debug, PartialEq, Eq, Structural)]
pub struct LayerDims {
    pub hidden: usize,
    pub q_dim: usize,
    pub kv_dim: usize,
    pub intermediate: usize,
    /// The query projection is twice as wide.
    pub gated: bool,
}

/// The widths of a linear-attention layer.
#[derive(Clone, Copy, Debug, PartialEq, Eq, Structural)]
pub struct LinearDims {
    pub num_v_heads: Option<usize>,
    pub num_k_heads: Option<usize>,
    pub head_k_dim: Option<usize>,
    pub head_v_dim: Option<usize>,
    pub conv_kernel_dim: Option<usize>,
}

/// The width of all keys.
pub open spec fn key_dim(d: LinearDims) -> int {
    d.num_k_heads->0 * d.head_k_dim->0
}

/// The width of all values.
pub open spec fn value_dim(d: LinearDims) -> int {
    d.num_v_heads->0 * d.head_v_dim->0
}

/// The widths of a linear-attention layer that are there are in range.
pub open spec fn linear_fits(d: LinearDims) -> bool {
    d.num_v_heads is Some && d.num_k_heads is Some && d.head_k_dim is Some && d.head_v_dim is Some
        ==> key_dim(d) * 2 + value_dim(d) <= usize::MAX
}

/// The rows of the query projection.
pub open spec fn q_proj_rows(d: LayerDims) -> usize {
    if d.gated {
        (d.q_dim * 2) as usize
    } else {
        d.q_dim
    }
}

/// A head width that is read off the query projection is the width for which
/// that projection is loaded: the rows that are asked for are the rows that
/// are there.
pub proof fn derived_heads_fit_the_projection(
    c: RawConfig,
    ts: Seq<TensorMeta>,
    i: int,
    d: LayerDims,
)
    requires
        c.head_dim is None,
        c.num_attention_heads > 0,
        tensor_named(ts, "model.layers.0.self_attn.q_proj.weight"@, 0) == Some(i),
        ts[i].shape@.len() > 0,
        ts[i].shape@[0] as int % (if gated(c) {
            2 * c.num_attention_heads as int
        } else {
            c.num_attention_heads as int
        }) == 0,
        d.gated == gated(c),
        d.q_dim == c.num_attention_heads * head_dim_of(c, ts),
    ensures
        q_proj_rows(d) == ts[i].shape@[0],
{
    let rows = ts[i].shape@[0] as int;
    let heads = c.num_attention_heads as int;
    let width = head_dim_of(c, ts) as int;
    if gated(c) {
        vstd::arithmetic::div_mod::lemma_div_denominator(rows, heads, 2);
        vstd::arithmetic::div_mod::lemma_fundamental_div_mod(rows, 2 * heads);
        assert(heads * 2 == 2 * heads);
        assert(rows / heads / 2 >= 0 && rows / heads / 2 <= rows) by (nonlinear_arith)
            requires
                rows >= 0,
                heads > 0,
        ;
        assert(width == rows / (2 * heads));
        assert(heads * width * 2 == rows) by (nonlinear_arith)
            requires
                rows == 2 * heads * width,
        ;
    } else {
        vstd::arithmetic::div_mod::lemma_fundamental_div_mod(rows, heads);
        assert(rows / heads >= 0 && rows / heads <= rows) by (nonlinear_arith)
            requires
                rows >= 0,
                heads > 0,
        ;
    }
}

/// The channels that the convolution covers.
pub open spec fn conv_rows(l: LinearDims) -> usize {
    (key_dim(l) * 2 + value_dim(l)) as usize
}

/// The rows of the projection that gates the output.
pub open spec fn value_rows(l: LinearDims) -> usize {
    value_dim(l) as usize
}

/// The rows of the per-head projections.
pub open spec fn head_rows(l: LinearDims) -> usize {
    l.num_v_heads->0
}

/// The taps of the convolution.
pub open spec fn taps(l: LinearDims) -> usize {
    l.conv_kernel_dim->0
}

/// What an attention layer asks for, in order.
pub open spec fn attention_requests(i: usize, d: LayerDims) -> Seq<Request> {
    seq![
        Request::Quant(layer_name(i, "self_attn.q_proj.weight"@), q_proj_rows(d), d.hidden),
        Request::Quant(layer_name(i, "self_attn.k_proj.weight"@), d.kv_dim, d.hidden),
        Request::Quant(layer_name(i, "self_attn.v_proj.weight"@), d.kv_dim, d.hidden),
        Request::Dense(layer_name(i, "input_layernorm.weight"@)),
        Request::Quant(layer_name(i, "self_attn.o_proj.weight"@), d.hidden, d.q_dim),
        Request::Optional(layer_name(i, "self_attn.q_proj.bias"@)),
        Request::Optional(layer_name(i, "self_attn.k_proj.bias"@)),
        Request::Optional(layer_name(i, "self_attn.v_proj.bias"@)),
        Request::Optional(layer_name(i, "self_attn.q_norm.weight"@)),
        Request::Optional(layer_name(i, "self_attn.k_norm.weight"@)),
        Request::Dense(layer_name(i, "post_attention_layernorm.weight"@)),
        Request::Quant(layer_name(i, "mlp.gate_proj.weight"@), d.intermediate, d.hidden),
        Request::Quant(layer_name(i, "mlp.up_proj.weight"@), d.intermediate, d.hidden),
        Request::Quant(layer_name(i, "mlp.down_proj.weight"@), d.hidden, d.intermediate),
        Request::Optional(layer_name(i, "post_attention_norm.weight"@)),
        Request::Optional(layer_name(i, "post_ffw_norm.weight"@)),
        Request::Optional(layer_name(i, "layer_output_scale.weight"@)),
    ]
}

/// What a linear-attention layer asks for, in order.
pub open spec fn linear_requests(i: usize, d: LayerDims, l: LinearDims) -> Seq<Request> {
    seq![
        Request::Field(i, "linear_num_value_heads"@, l.num_v_heads),
        Request::Field(i, "linear_num_key_heads"@, l.num_k_heads),
        Request::Field(i, "linear_key_head_dim"@, l.head_k_dim),
        Request::Field(i, "linear_value_head_dim"@, l.head_v_dim),
        Request::Field(i, "linear_conv_kernel_dim"@, l.conv_kernel_dim),
        Request::Dense(layer_name(i, "input_layernorm.weight"@)),
        Request::Dense(layer_name(i, "post_attention_layernorm.weight"@)),
        Request::Quant(layer_name(i, "mlp.gate_proj.weight"@), d.intermediate, d.hidden),
        Request::Quant(layer_name(i, "mlp.up_proj.weight"@), d.intermediate, d.hidden),
        Request::Quant(layer_name(i, "mlp.down_proj.weight"@), d.hidden, d.intermediate),
        Request::Optional(layer_name(i, "post_attention_norm.weight"@)),
        Request::Optional(layer_name(i, "post_ffw_norm.weight"@)),
        Request::Optional(layer_name(i, "layer_output_scale.weight"@)),
        Request::Quant(layer_name(i, "linear_attn.in_proj_qkv.weight"@), conv_rows(l), d.hidden),
        Request::Quant(layer_name(i, "linear_attn.in_proj_z.weight"@), value_rows(l), d.hidden),
        Request::Quant(layer_name(i, "linear_attn.in_proj_b.weight"@), head_rows(l), d.hidden),
        Request::Quant(layer_name(i, "linear_attn.in_proj_a.weight"@), head_rows(l), d.hidden),
        Request::Quant(layer_name(i, "linear_attn.out_proj.weight"@), d.hidden, value_rows(l)),
        Request::DenseAs(layer_name(i, "linear_attn.conv1d.weight"@), conv_rows(l), taps(l)),
        Request::Dense(layer_name(i, "linear_attn.A_log"@)),
        Request::Dense(layer_name(i, "linear_attn.dt_bias"@)),
        Request::Dense(layer_name(i, "linear_attn.norm.weight"@)),
    ]
}

/// The value is what was looked for.
#[verifier::inline]
pub open spec fn found<T>(v: T, r: Result<T, Fault>) -> bool {
    r == Ok::<T, Fault>(v)
}

/// The fields hold the tensors of the layer.
pub open spec fn is_attention_layer(
    w: LayerWeights,
    m: LoadedModel,
    i: usize,
    d: LayerDims,
) -> bool {
    &&& found(
        w.q_proj@,
        quant_as(m, layer_name(i, "self_attn.q_proj.weight"@), q_proj_rows(d), d.hidden),
    )
    &&& found(w.k_proj@, quant_as(m, layer_name(i, "self_attn.k_proj.weight"@), d.kv_dim, d.hidden))
    &&& found(w.v_proj@, quant_as(m, layer_name(i, "self_attn.v_proj.weight"@), d.kv_dim, d.hidden))
    &&& found(w.input_norm@, dense_of(m, layer_name(i, "input_layernorm.weight"@)))
    &&& found(w.o_proj@, quant_as(m, layer_name(i, "self_attn.o_proj.weight"@), d.hidden, d.q_dim))
    &&& found(optional_view(w.q_proj_bias), optional_of(m, layer_name(i, "self_attn.q_proj.bias"@)))
    &&& found(optional_view(w.k_proj_bias), optional_of(m, layer_name(i, "self_attn.k_proj.bias"@)))
    &&& found(optional_view(w.v_proj_bias), optional_of(m, layer_name(i, "self_attn.v_proj.bias"@)))
    &&& found(optional_view(w.q_norm), optional_of(m, layer_name(i, "self_attn.q_norm.weight"@)))
    &&& found(optional_view(w.k_norm), optional_of(m, layer_name(i, "self_attn.k_norm.weight"@)))
    &&& found(w.post_norm@, dense_of(m, layer_name(i, "post_attention_layernorm.weight"@)))
    &&& found(
        w.gate_proj@,
        quant_as(m, layer_name(i, "mlp.gate_proj.weight"@), d.intermediate, d.hidden),
    )
    &&& found(
        w.up_proj@,
        quant_as(m, layer_name(i, "mlp.up_proj.weight"@), d.intermediate, d.hidden),
    )
    &&& found(
        w.down_proj@,
        quant_as(m, layer_name(i, "mlp.down_proj.weight"@), d.hidden, d.intermediate),
    )
    &&& found(
        optional_view(w.post_attn_norm),
        optional_of(m, layer_name(i, "post_attention_norm.weight"@)),
    )
    &&& found(
        optional_view(w.post_ffw_norm),
        optional_of(m, layer_name(i, "post_ffw_norm.weight"@)),
    )
    &&& found(
        optional_view(w.layer_output_scale),
        optional_of(m, layer_name(i, "layer_output_scale.weight"@)),
    )
    &&& w.linear_attn is None
}

/// An empty matrix.
pub open spec fn no_matrix() -> QuantView {
    QuantView { shape: seq![0, 0], dtype: DType::F32, bytes: Seq::empty() }
}

/// The fields hold the tensors of the layer.
pub open spec fn is_linear_layer(
    w: LayerWeights,
    m: LoadedModel,
    i: usize,
    d: LayerDims,
    l: LinearDims,
) -> bool {
    &&& w.q_proj@ == no_matrix() && w.k_proj@ == no_matrix() && w.v_proj@ == no_matrix()
    &&& w.o_proj@ == no_matrix()
    &&& w.q_proj_bias is None && w.k_proj_bias is None && w.v_proj_bias is None
    &&& w.q_norm is None && w.k_norm is None
    &&& found(w.input_norm@, dense_of(m, layer_name(i, "input_layernorm.weight"@)))
    &&& found(w.post_norm@, dense_of(m, layer_name(i, "post_attention_layernorm.weight"@)))
    &&& found(
        w.gate_proj@,
        quant_as(m, layer_name(i, "mlp.gate_proj.weight"@), d.intermediate, d.hidden),
    )
    &&& found(
        w.up_proj@,
        quant_as(m, layer_name(i, "mlp.up_proj.weight"@), d.intermediate, d.hidden),
    )
    &&& found(
        w.down_proj@,
        quant_as(m, layer_name(i, "mlp.down_proj.weight"@), d.hidden, d.intermediate),
    )
    &&& found(
        optional_view(w.post_attn_norm),
        optional_of(m, layer_name(i, "post_attention_norm.weight"@)),
    )
    &&& found(
        optional_view(w.post_ffw_norm),
        optional_of(m, layer_name(i, "post_ffw_norm.weight"@)),
    )
    &&& found(
        optional_view(w.layer_output_scale),
        optional_of(m, layer_name(i, "layer_output_scale.weight"@)),
    )
    &&& w.linear_attn matches Some(g) && is_linear_part(g, m, i, d, l)
}

/// The fields hold the tensors of the linear-attention part of the layer.
pub open spec fn is_linear_part(
    g: GatedDeltaLayerWeights,
    m: LoadedModel,
    i: usize,
    d: LayerDims,
    l: LinearDims,
) -> bool {
    &&& found(
        g.in_proj_qkv@,
        quant_as(m, layer_name(i, "linear_attn.in_proj_qkv.weight"@), conv_rows(l), d.hidden),
    )
    &&& found(
        g.in_proj_z@,
        quant_as(m, layer_name(i, "linear_attn.in_proj_z.weight"@), value_rows(l), d.hidden),
    )
    &&& found(
        g.in_proj_b@,
        quant_as(m, layer_name(i, "linear_attn.in_proj_b.weight"@), head_rows(l), d.hidden),
    )
    &&& found(
        g.in_proj_a@,
        quant_as(m, layer_name(i, "linear_attn.in_proj_a.weight"@), head_rows(l), d.hidden),
    )
    &&& found(
        g.out_proj@,
        quant_as(m, layer_name(i, "linear_attn.out_proj.weight"@), d.hidden, value_rows(l)),
    )
    &&& found(
        g.conv1d_weight@,
        dense_as(m, layer_name(i, "linear_attn.conv1d.weight"@), conv_rows(l), taps(l)),
    )
    &&& found(g.a_log@, dense_of(m, layer_name(i, "linear_attn.A_log"@)))
    &&& found(g.dt_bias@, dense_of(m, layer_name(i, "linear_attn.dt_bias"@)))
    &&& found(g.norm_weight@, dense_of(m, layer_name(i, "linear_attn.norm.weight"@)))
}

fn empty_matrix() -> (w: QuantWeight)
    ensures
        w@ == no_matrix(),
{
    let w = QuantWeight { shape: matrix_shape(0, 0), dtype: DType::F32, bytes: Vec::new() };
    assert(w@ =~= no_matrix());
    w
}

/// Loads an attention layer.
#[verifier::spinoff_prover]
#[verifier::rlimit(60)]
fn load_attention_layer(m: &LoadedModel, i: usize, d: LayerDims) -> (r: Result<
    LayerWeights,
    WeightError,
>)
    requires
        m.wf(),
        d.q_dim * 2 <= usize::MAX,
    ensures
        match first_fault(*m, attention_requests(i, d), 0) {
            Some(f) => r matches Err(e) && e@ == f,
            None => r matches Ok(w) && is_attention_layer(w, *m, i, d),
        },
{
    let ghost rs = attention_requests(i, d);
    let q_rows: usize = if d.gated {
        d.q_dim * 2
    } else {
        d.q_dim
    };
    let q_proj = match load_quant_weight_reshaped(
        m,
        name_in_layer(i, "self_attn.q_proj.weight").as_str(),
        q_rows,
        d.hidden,
    ) {
        Ok(t) => t,
        Err(e) => {
            return Err(e);
        },
    };
    assert(first_fault(*m, rs, 0) == first_fault(*m, rs, 1));
    let k_proj = match load_quant_weight_reshaped(
        m,
        name_in_layer(i, "self_attn.k_proj.weight").as_str(),
        d.kv_dim,
        d.hidden,
    ) {
        Ok(t) => t,
        Err(e) => {
            return Err(e);
        },
    };
    assert(first_fault(*m, rs, 0) == first_fault(*m, rs, 2));
    let v_proj = match load_quant_weight_reshaped(
        m,
        name_in_layer(i, "self_attn.v_proj.weight").as_str(),
        d.kv_dim,
        d.hidden,
    ) {
        Ok(t) => t,
        Err(e) => {
            return Err(e);
        },
    };
    assert(first_fault(*m, rs, 0) == first_fault(*m, rs, 3));
    let input_norm = match load_tensor_f32(m, name_in_layer(i, "input_layernorm.weight").as_str()) {
        Ok(t) => t,
        Err(e) => {
            return Err(e);
        },
    };
    assert(first_fault(*m, rs, 0) == first_fault(*m, rs, 4));
    let o_proj = match load_quant_weight_reshaped(
        m,
        name_in_layer(i, "self_attn.o_proj.weight").as_str(),
        d.hidden,
        d.q_dim,
    ) {
        Ok(t) => t,
        Err(e) => {
            return Err(e);
        },
    };
    assert(first_fault(*m, rs, 0) == first_fault(*m, rs, 5));
    let q_proj_bias = match try_load(m, name_in_layer(i, "self_attn.q_proj.bias").as_str()) {
        Ok(t) => t,
        Err(e) => {
            return Err(e);
        },
    };
    assert(first_fault(*m, rs, 0) == first_fault(*m, rs, 6));
    let k_proj_bias = match try_load(m, name_in_layer(i, "self_attn.k_proj.bias").as_str()) {
        Ok(t) => t,
        Err(e) => {
            return Err(e);
        },
    };
    assert(first_fault(*m, rs, 0) == first_fault(*m, rs, 7));
    let v_proj_bias = match try_load(m, name_in_layer(i, "self_attn.v_proj.bias").as_str()) {
        Ok(t) => t,
        Err(e) => {
            return Err(e);
        },
    };
    assert(first_fault(*m, rs, 0) == first_fault(*m, rs, 8));
    let q_norm = match try_load(m, name_in_layer(i, "self_attn.q_norm.weight").as_str()) {
        Ok(t) => t,
        Err(e) => {
            return Err(e);
        },
    };
    assert(first_fault(*m, rs, 0) == first_fault(*m, rs, 9));
    let k_norm = match try_load(m, name_in_layer(i, "self_attn.k_norm.weight").as_str()) {
        Ok(t) => t,
        Err(e) => {
            return Err(e);
        },
    };
    assert(first_fault(*m, rs, 0) == first_fault(*m, rs, 10));
    let post_norm = match load_tensor_f32(
        m,
        name_in_layer(i, "post_attention_layernorm.weight").as_str(),
    ) {
        Ok(t) => t,
        Err(e) => {
            return Err(e);
        },
    };
    assert(first_fault(*m, rs, 0) == first_fault(*m, rs, 11));
    let gate_proj = match load_quant_weight_reshaped(
        m,
        name_in_layer(i, "mlp.gate_proj.weight").as_str(),
        d.intermediate,
        d.hidden,
    ) {
        Ok(t) => t,
        Err(e) => {
            return Err(e);
        },
    };
    assert(first_fault(*m, rs, 0) == first_fault(*m, rs, 12));
    let up_proj = match load_quant_weight_reshaped(
        m,
        name_in_layer(i, "mlp.up_proj.weight").as_str(),
        d.intermediate,
        d.hidden,
    ) {
        Ok(t) => t,
        Err(e) => {
            return Err(e);
        },
    };
    assert(first_fault(*m, rs, 0) == first_fault(*m, rs, 13));
    let down_proj = match load_quant_weight_reshaped(
        m,
        name_in_layer(i, "mlp.down_proj.weight").as_str(),
        d.hidden,
        d.intermediate,
    ) {
        Ok(t) => t,
        Err(e) => {
            return Err(e);
        },
    };
    assert(first_fault(*m, rs, 0) == first_fault(*m, rs, 14));
    let post_attn_norm = match try_load(
        m,
        name_in_layer(i, "post_attention_norm.weight").as_str(),
    ) {
        Ok(t) => t,
        Err(e) => {
            return Err(e);
        },
    };
    assert(first_fault(*m, rs, 0) == first_fault(*m, rs, 15));
    let post_ffw_norm = match try_load(m, name_in_layer(i, "post_ffw_norm.weight").as_str()) {
        Ok(t) => t,
        Err(e) => {
            return Err(e);
        },
    };
    assert(first_fault(*m, rs, 0) == first_fault(*m, rs, 16));
    let layer_output_scale = match try_load(
        m,
        name_in_layer(i, "layer_output_scale.weight").as_str(),
    ) {
        Ok(t) => t,
        Err(e) => {
            return Err(e);
        },
    };
    assert(first_fault(*m, rs, 0) == first_fault(*m, rs, 17));
    Ok(
        LayerWeights {
            q_proj,
            k_proj,
            v_proj,
            input_norm,
            o_proj,
            q_proj_bias,
            k_proj_bias,
            v_proj_bias,
            q_norm,
            k_norm,
            post_norm,
            gate_proj,
            up_proj,
            down_proj,
            post_attn_norm,
            post_ffw_norm,
            layer_output_scale,
            linear_attn: None,
        },
    )
}

/// Loads a linear-attention layer.
#[verifier::spinoff_prover]
#[verifier::rlimit(60)]
fn load_linear_layer(m: &LoadedModel, i: usize, d: LayerDims, l: LinearDims) -> (r: Result<
    LayerWeights,
    WeightError,
>)
    requires
        m.wf(),
        linear_fits(l),
    ensures
        match first_fault(*m, linear_requests(i, d, l), 0) {
            Some(f) => r matches Err(e) && e@ == f,
            None => r matches Ok(w) && is_linear_layer(w, *m, i, d, l),
        },
{
    let ghost rs = linear_requests(i, d, l);
    let num_v_heads: usize = match l.num_v_heads {
        Some(n) => n,
        None => {
            return Err(WeightError::NoField { layer: i, field: "linear_num_value_heads" });
        },
    };
    assert(first_fault(*m, rs, 0) == first_fault(*m, rs, 1));
    let num_k_heads: usize = match l.num_k_heads {
        Some(n) => n,
        None => {
            return Err(WeightError::NoField { layer: i, field: "linear_num_key_heads" });
        },
    };
    assert(first_fault(*m, rs, 0) == first_fault(*m, rs, 2));
    let head_k_dim: usize = match l.head_k_dim {
        Some(n) => n,
        None => {
            return Err(WeightError::NoField { layer: i, field: "linear_key_head_dim" });
        },
    };
    assert(first_fault(*m, rs, 0) == first_fault(*m, rs, 3));
    let head_v_dim: usize = match l.head_v_dim {
        Some(n) => n,
        None => {
            return Err(WeightError::NoField { layer: i, field: "linear_value_head_dim" });
        },
    };
    assert(first_fault(*m, rs, 0) == first_fault(*m, rs, 4));
    let conv_kernel_dim: usize = match l.conv_kernel_dim {
        Some(n) => n,
        None => {
            return Err(WeightError::NoField { layer: i, field: "linear_conv_kernel_dim" });
        },
    };
    assert(first_fault(*m, rs, 0) == first_fault(*m, rs, 5));
    proof {
        assert(num_k_heads * head_k_dim >= 0) by (nonlinear_arith)
            requires
                num_k_heads >= 0,
                head_k_dim >= 0,
        ;
        assert(num_v_heads * head_v_dim >= 0) by (nonlinear_arith)
            requires
                num_v_heads >= 0,
                head_v_dim >= 0,
        ;
    }
    let keys: usize = num_k_heads * head_k_dim;
    let values: usize = num_v_heads * head_v_dim;
    let channels: usize = keys * 2 + values;
    let input_norm = match load_tensor_f32(m, name_in_layer(i, "input_layernorm.weight").as_str()) {
        Ok(t) => t,
        Err(e) => {
            return Err(e);
        },
    };
    assert(first_fault(*m, rs, 0) == first_fault(*m, rs, 6));
    let post_norm = match load_tensor_f32(
        m,
        name_in_layer(i, "post_attention_layernorm.weight").as_str(),
    ) {
        Ok(t) => t,
        Err(e) => {
            return Err(e);
        },
    };
    assert(first_fault(*m, rs, 0) == first_fault(*m, rs, 7));
    let gate_proj = match load_quant_weight_reshaped(
        m,
        name_in_layer(i, "mlp.gate_proj.weight").as_str(),
        d.intermediate,
        d.hidden,
    ) {
        Ok(t) => t,
        Err(e) => {
            return Err(e);
        },
    };
    assert(first_fault(*m, rs, 0) == first_fault(*m, rs, 8));
    let up_proj = match load_quant_weight_reshaped(
        m,
        name_in_layer(i, "mlp.up_proj.weight").as_str(),
        d.intermediate,
        d.hidden,
    ) {
        Ok(t) => t,
        Err(e) => {
            return Err(e);
        },
    };
    assert(first_fault(*m, rs, 0) == first_fault(*m, rs, 9));
    let down_proj = match load_quant_weight_reshaped(
        m,
        name_in_layer(i, "mlp.down_proj.weight").as_str(),
        d.hidden,
        d.intermediate,
    ) {
        Ok(t) => t,
        Err(e) => {
            return Err(e);
        },
    };
    assert(first_fault(*m, rs, 0) == first_fault(*m, rs, 10));
    let post_attn_norm = match try_load(
        m,
        name_in_layer(i, "post_attention_norm.weight").as_str(),
    ) {
        Ok(t) => t,
        Err(e) => {
            return Err(e);
        },
    };
    assert(first_fault(*m, rs, 0) == first_fault(*m, rs, 11));
    let post_ffw_norm = match try_load(m, name_in_layer(i, "post_ffw_norm.weight").as_str()) {
        Ok(t) => t,
        Err(e) => {
            return Err(e);
        },
    };
    assert(first_fault(*m, rs, 0) == first_fault(*m, rs, 12));
    let layer_output_scale = match try_load(
        m,
        name_in_layer(i, "layer_output_scale.weight").as_str(),
    ) {
        Ok(t) => t,
        Err(e) => {
            return Err(e);
        },
    };
    assert(first_fault(*m, rs, 0) == first_fault(*m, rs, 13));
    let in_proj_qkv = match load_quant_weight_reshaped(
        m,
        name_in_layer(i, "linear_attn.in_proj_qkv.weight").as_str(),
        channels,
        d.hidden,
    ) {
        Ok(t) => t,
        Err(e) => {
            return Err(e);
        },
    };
    assert(first_fault(*m, rs, 0) == first_fault(*m, rs, 14));
    let in_proj_z = match load_quant_weight_reshaped(
        m,
        name_in_layer(i, "linear_attn.in_proj_z.weight").as_str(),
        values,
        d.hidden,
    ) {
        Ok(t) => t,
        Err(e) => {
            return Err(e);
        },
    };
    assert(first_fault(*m, rs, 0) == first_fault(*m, rs, 15));
    let in_proj_b = match load_quant_weight_reshaped(
        m,
        name_in_layer(i, "linear_attn.in_proj_b.weight").as_str(),
        num_v_heads,
        d.hidden,
    ) {
        Ok(t) => t,
        Err(e) => {
            return Err(e);
        },
    };
    assert(first_fault(*m, rs, 0) == first_fault(*m, rs, 16));
    let in_proj_a = match load_quant_weight_reshaped(
        m,
        name_in_layer(i, "linear_attn.in_proj_a.weight").as_str(),
        num_v_heads,
        d.hidden,
    ) {
        Ok(t) => t,
        Err(e) => {
            return Err(e);
        },
    };
    assert(first_fault(*m, rs, 0) == first_fault(*m, rs, 17));
    let out_proj = match load_quant_weight_reshaped(
        m,
        name_in_layer(i, "linear_attn.out_proj.weight").as_str(),
        d.hidden,
        values,
    ) {
        Ok(t) => t,
        Err(e) => {
            return Err(e);
        },
    };
    assert(first_fault(*m, rs, 0) == first_fault(*m, rs, 18));
    let conv1d_weight = match try_load_tensor_f32_reshaped(
        m,
        name_in_layer(i, "linear_attn.conv1d.weight").as_str(),
        channels,
        conv_kernel_dim,
    ) {
        Ok(t) => t,
        Err(e) => {
            return Err(e);
        },
    };
    assert(first_fault(*m, rs, 0) == first_fault(*m, rs, 19));
    let a_log = match load_tensor_f32(m, name_in_layer(i, "linear_attn.A_log").as_str()) {
        Ok(t) => t,
        Err(e) => {
            return Err(e);
        },
    };
    assert(first_fault(*m, rs, 0) == first_fault(*m, rs, 20));
    let dt_bias = match load_tensor_f32(m, name_in_layer(i, "linear_attn.dt_bias").as_str()) {
        Ok(t) => t,
        Err(e) => {
            return Err(e);
        },
    };
    assert(first_fault(*m, rs, 0) == first_fault(*m, rs, 21));
    let norm_weight = match load_tensor_f32(
        m,
        name_in_layer(i, "linear_attn.norm.weight").as_str(),
    ) {
        Ok(t) => t,
        Err(e) => {
            return Err(e);
        },
    };
    assert(first_fault(*m, rs, 0) == first_fault(*m, rs, 22));
    let linear = GatedDeltaLayerWeights {
        in_proj_qkv,
        in_proj_z,
        in_proj_b,
        in_proj_a,
        out_proj,
        conv1d_weight,
        a_log,
        dt_bias,
        norm_weight,
    };
    Ok(
        LayerWeights {
            input_norm,
            q_proj: empty_matrix(),
            k_proj: empty_matrix(),
            v_proj: empty_matrix(),
            o_proj: empty_matrix(),
            q_proj_bias: None,
            k_proj_bias: None,
            v_proj_bias: None,
            q_norm: None,
            k_norm: None,
            post_norm,
            gate_proj,
            up_proj,
            down_proj,
            post_attn_norm,
            post_ffw_norm,
            layer_output_scale,
            linear_attn: Some(linear),
        },
    )
}

/// What a layer of a kind asks for, in order.
pub open spec fn layer_requests(
    i: usize,
    d: LayerDims,
    kind: LayerKind,
    l: LinearDims,
) -> Seq<Request> {
    if kind == LayerKind::LinearAttn {
        linear_requests(i, d, l)
    } else {
        attention_requests(i, d)
    }
}

/// The fields hold the tensors of the layer.
pub open spec fn is_layer(
    w: LayerWeights,
    m: LoadedModel,
    i: usize,
    d: LayerDims,
    kind: LayerKind,
    l: LinearDims,
) -> bool {
    if kind == LayerKind::LinearAttn {
        is_linear_layer(w, m, i, d, l)
    } else {
        is_attention_layer(w, m, i, d)
    }
}

/// Loads a layer of a kind.
pub fn load_layer(m: &LoadedModel, i: usize, d: LayerDims, kind: LayerKind, l: LinearDims) -> (r:
    Result<LayerWeights, WeightError>)
    requires
        m.wf(),
        d.q_dim * 2 <= usize::MAX,
        linear_fits(l),
    ensures
        match first_fault(*m, layer_requests(i, d, kind, l), 0) {
            Some(f) => r matches Err(e) && e@ == f,
            None => r matches Ok(w) && is_layer(w, *m, i, d, kind, l),
        },
{
    if kind == LayerKind::LinearAttn {
        load_linear_layer(m, i, d, l)
    } else {
        load_attention_layer(m, i, d)
    }
}

/// The weights of a block of the vision tower.
#[derive(Debug, PartialEq, Eq)]
pub struct VisionBlockOwned {
    pub norm1_weight: DenseTensor,
    pub norm1_bias: DenseTensor,
    pub norm2_weight: DenseTensor,
    pub norm2_bias: DenseTensor,
    pub qkv_weight: DenseTensor,
    pub qkv_bias: DenseTensor,
    pub proj_weight: DenseTensor,
    pub proj_bias: DenseTensor,
    pub fc1_weight: DenseTensor,
    pub fc1_bias: DenseTensor,
    pub fc2_weight: DenseTensor,
    pub fc2_bias: DenseTensor,
}

/// The weights of a block of the vision tower, borrowed.
#[derive(Debug, PartialEq, Eq)]
pub struct VisionBlockWeights<'a> {
    pub norm1_weight: &'a DenseTensor,
    pub norm1_bias: &'a DenseTensor,
    pub norm2_weight: &'a DenseTensor,
    pub norm2_bias: &'a DenseTensor,
    pub qkv_weight: &'a DenseTensor,
    pub qkv_bias: &'a DenseTensor,
    pub proj_weight: &'a DenseTensor,
    pub proj_bias: &'a DenseTensor,
    pub fc1_weight: &'a DenseTensor,
    pub fc1_bias: &'a DenseTensor,
    pub fc2_weight: &'a DenseTensor,
    pub fc2_bias: &'a DenseTensor,
}

impl VisionBlockOwned {
    /// The same weights, borrowed.
    pub fn as_ref(&self) -> (r: VisionBlockWeights<'_>)
        ensures
            *r.norm1_weight == self.norm1_weight,
            *r.norm1_bias == self.norm1_bias,
            *r.norm2_weight == self.norm2_weight,
            *r.norm2_bias == self.norm2_bias,
            *r.qkv_weight == self.qkv_weight,
            *r.qkv_bias == self.qkv_bias,
            *r.proj_weight == self.proj_weight,
            *r.proj_bias == self.proj_bias,
            *r.fc1_weight == self.fc1_weight,
            *r.fc1_bias == self.fc1_bias,
            *r.fc2_weight == self.fc2_weight,
            *r.fc2_bias == self.fc2_bias,
    {
        VisionBlockWeights {
            norm1_weight: &self.norm1_weight,
            norm1_bias: &self.norm1_bias,
            norm2_weight: &self.norm2_weight,
            norm2_bias: &self.norm2_bias,
            qkv_weight: &self.qkv_weight,
            qkv_bias: &self.qkv_bias,
            proj_weight: &self.proj_weight,
            proj_bias: &self.proj_bias,
            fc1_weight: &self.fc1_weight,
            fc1_bias: &self.fc1_bias,
            fc2_weight: &self.fc2_weight,
            fc2_bias: &self.fc2_bias,
        }
    }
}

/// The weights of the patch merger.
#[derive(Debug, PartialEq, Eq)]
pub struct VisionMergerOwned {
    pub norm_weight: DenseTensor,
    pub norm_bias: DenseTensor,
    pub fc1_weight: DenseTensor,
    pub fc1_bias: DenseTensor,
    pub fc2_weight: DenseTensor,
    pub fc2_bias: DenseTensor,
}

/// The weights of the patch merger, borrowed.
#[derive(Debug, PartialEq, Eq)]
pub struct VisionMergerWeights<'a> {
    pub norm_weight: &'a DenseTensor,
    pub norm_bias: &'a DenseTensor,
    pub fc1_weight: &'a DenseTensor,
    pub fc1_bias: &'a DenseTensor,
    pub fc2_weight: &'a DenseTensor,
    pub fc2_bias: &'a DenseTensor,
}

impl VisionMergerOwned {
    /// The same weights, borrowed.
    pub fn as_ref(&self) -> (r: VisionMergerWeights<'_>)
        ensures
            *r.norm_weight == self.norm_weight,
            *r.norm_bias == self.norm_bias,
            *r.fc1_weight == self.fc1_weight,
            *r.fc1_bias == self.fc1_bias,
            *r.fc2_weight == self.fc2_weight,
            *r.fc2_bias == self.fc2_bias,
    {
        VisionMergerWeights {
            norm_weight: &self.norm_weight,
            norm_bias: &self.norm_bias,
            fc1_weight: &self.fc1_weight,
            fc1_bias: &self.fc1_bias,
            fc2_weight: &self.fc2_weight,
            fc2_bias: &self.fc2_bias,
        }
    }
}

/// The weights of the vision tower.
#[derive(Debug, PartialEq, Eq)]
pub struct VisionWeights {
    pub patch_embed_weight: DenseTensor,
    pub patch_embed_bias: DenseTensor,
    pub pos_embed_table: DenseTensor,
    pub blocks: Vec<VisionBlockOwned>,
    pub merger: VisionMergerOwned,
}

/// The name of a tensor of a block of the vision tower.
pub open spec fn block_name(i: usize, part: Seq<char>) -> Seq<char> {
    "model.visual.blocks."@ + text::decimal(i as nat) + "."@ + part
}

fn name_in_block(i: usize, part: &str) -> (s: String)
    ensures
        s@ == block_name(i, part@),
{
    let digits = text::decimal_string(i);
    let head = text::concat("model.visual.blocks.", digits.as_str());
    let dotted = text::concat(head.as_str(), ".");
    text::concat(dotted.as_str(), part)
}

/// What a block of the vision tower asks for, in order.
pub open spec fn block_requests(i: usize) -> Seq<Request> {
    seq![
        Request::Dense(block_name(i, "norm1.weight"@)),
        Request::Dense(block_name(i, "norm1.bias"@)),
        Request::Dense(block_name(i, "norm2.weight"@)),
        Request::Dense(block_name(i, "norm2.bias"@)),
        Request::Dense(block_name(i, "attn.qkv.weight"@)),
        Request::Dense(block_name(i, "attn.qkv.bias"@)),
        Request::Dense(block_name(i, "attn.proj.weight"@)),
        Request::Dense(block_name(i, "attn.proj.bias"@)),
        Request::Dense(block_name(i, "mlp.linear_fc1.weight"@)),
        Request::Dense(block_name(i, "mlp.linear_fc1.bias"@)),
        Request::Dense(block_name(i, "mlp.linear_fc2.weight"@)),
        Request::Dense(block_name(i, "mlp.linear_fc2.bias"@)),
    ]
}

/// The fields hold the tensors of the block.
pub open spec fn is_block(b: VisionBlockOwned, m: LoadedModel, i: usize) -> bool {
    &&& found(b.norm1_weight@, dense_of(m, block_name(i, "norm1.weight"@)))
    &&& found(b.norm1_bias@, dense_of(m, block_name(i, "norm1.bias"@)))
    &&& found(b.norm2_weight@, dense_of(m, block_name(i, "norm2.weight"@)))
    &&& found(b.norm2_bias@, dense_of(m, block_name(i, "norm2.bias"@)))
    &&& found(b.qkv_weight@, dense_of(m, block_name(i, "attn.qkv.weight"@)))
    &&& found(b.qkv_bias@, dense_of(m, block_name(i, "attn.qkv.bias"@)))
    &&& found(b.proj_weight@, dense_of(m, block_name(i, "attn.proj.weight"@)))
    &&& found(b.proj_bias@, dense_of(m, block_name(i, "attn.proj.bias"@)))
    &&& found(b.fc1_weight@, dense_of(m, block_name(i, "mlp.linear_fc1.weight"@)))
    &&& found(b.fc1_bias@, dense_of(m, block_name(i, "mlp.linear_fc1.bias"@)))
    &&& found(b.fc2_weight@, dense_of(m, block_name(i, "mlp.linear_fc2.weight"@)))
    &&& found(b.fc2_bias@, dense_of(m, block_name(i, "mlp.linear_fc2.bias"@)))
}

#[verifier::spinoff_prover]
#[verifier::rlimit(60)]
fn load_block(m: &LoadedModel, i: usize) -> (r: Result<VisionBlockOwned, WeightError>)
    requires
        m.wf(),
    ensures
        match first_fault(*m, block_requests(i), 0) {
            Some(f) => r matches Err(e) && e@ == f,
            None => r matches Ok(b) && is_block(b, *m, i),
        },
{
    let ghost rs = block_requests(i);
    let norm1_weight = match load_tensor_f32(m, name_in_block(i, "norm1.weight").as_str()) {
        Ok(t) => t,
        Err(e) => {
            return Err(e);
        },
    };
    assert(first_fault(*m, rs, 0) == first_fault(*m, rs, 1));
    let norm1_bias = match load_tensor_f32(m, name_in_block(i, "norm1.bias").as_str()) {
        Ok(t) => t,
        Err(e) => {
            return Err(e);
        },
    };
    assert(first_fault(*m, rs, 0) == first_fault(*m, rs, 2));
    let norm2_weight = match load_tensor_f32(m, name_in_block(i, "norm2.weight").as_str()) {
        Ok(t) => t,
        Err(e) => {
            return Err(e);
        },
    };
    assert(first_fault(*m, rs, 0) == first_fault(*m, rs, 3));
    let norm2_bias = match load_tensor_f32(m, name_in_block(i, "norm2.bias").as_str()) {
        Ok(t) => t,
        Err(e) => {
            return Err(e);
        },
    };
    assert(first_fault(*m, rs, 0) == first_fault(*m, rs, 4));
    let qkv_weight = match load_tensor_f32(m, name_in_block(i, "attn.qkv.weight").as_str()) {
        Ok(t) => t,
        Err(e) => {
            return Err(e);
        },
    };
    assert(first_fault(*m, rs, 0) == first_fault(*m, rs, 5));
    let qkv_bias = match load_tensor_f32(m, name_in_block(i, "attn.qkv.bias").as_str()) {
        Ok(t) => t,
        Err(e) => {
            return Err(e);
        },
    };
    assert(first_fault(*m, rs, 0) == first_fault(*m, rs, 6));
    let proj_weight = match load_tensor_f32(m, name_in_block(i, "attn.proj.weight").as_str()) {
        Ok(t) => t,
        Err(e) => {
            return Err(e);
        },
    };
    assert(first_fault(*m, rs, 0) == first_fault(*m, rs, 7));
    let proj_bias = match load_tensor_f32(m, name_in_block(i, "attn.proj.bias").as_str()) {
        Ok(t) => t,
        Err(e) => {
            return Err(e);
        },
    };
    assert(first_fault(*m, rs, 0) == first_fault(*m, rs, 8));
    let fc1_weight = match load_tensor_f32(m, name_in_block(i, "mlp.linear_fc1.weight").as_str()) {
        Ok(t) => t,
        Err(e) => {
            return Err(e);
        },
    };
    assert(first_fault(*m, rs, 0) == first_fault(*m, rs, 9));
    let fc1_bias = match load_tensor_f32(m, name_in_block(i, "mlp.linear_fc1.bias").as_str()) {
        Ok(t) => t,
        Err(e) => {
            return Err(e);
        },
    };
    assert(first_fault(*m, rs, 0) == first_fault(*m, rs, 10));
    let fc2_weight = match load_tensor_f32(m, name_in_block(i, "mlp.linear_fc2.weight").as_str()) {
        Ok(t) => t,
        Err(e) => {
            return Err(e);
        },
    };
    assert(first_fault(*m, rs, 0) == first_fault(*m, rs, 11));
    let fc2_bias = match load_tensor_f32(m, name_in_block(i, "mlp.linear_fc2.bias").as_str()) {
        Ok(t) => t,
        Err(e) => {
            return Err(e);
        },
    };
    assert(first_fault(*m, rs, 0) == first_fault(*m, rs, 12));
    Ok(
        VisionBlockOwned {
            norm1_weight,
            norm1_bias,
            norm2_weight,
            norm2_bias,
            qkv_weight,
            qkv_bias,
            proj_weight,
            proj_bias,
            fc1_weight,
            fc1_bias,
            fc2_weight,
            fc2_bias,
        },
    )
}

/// What the patch merger asks for, in order.
pub open spec fn merger_requests() -> Seq<Request> {
    seq![
        Request::Dense("model.visual.merger.norm.weight"@),
        Request::Dense("model.visual.merger.norm.bias"@),
        Request::Dense("model.visual.merger.linear_fc1.weight"@),
        Request::Dense("model.visual.merger.linear_fc1.bias"@),
        Request::Dense("model.visual.merger.linear_fc2.weight"@),
        Request::Dense("model.visual.merger.linear_fc2.bias"@),
    ]
}

/// The fields hold the tensors of the patch merger.
pub open spec fn is_merger(g: VisionMergerOwned, m: LoadedModel) -> bool {
    &&& found(g.norm_weight@, dense_of(m, "model.visual.merger.norm.weight"@))
    &&& found(g.norm_bias@, dense_of(m, "model.visual.merger.norm.bias"@))
    &&& found(g.fc1_weight@, dense_of(m, "model.visual.merger.linear_fc1.weight"@))
    &&& found(g.fc1_bias@, dense_of(m, "model.visual.merger.linear_fc1.bias"@))
    &&& found(g.fc2_weight@, dense_of(m, "model.visual.merger.linear_fc2.weight"@))
    &&& found(g.fc2_bias@, dense_of(m, "model.visual.merger.linear_fc2.bias"@))
}

#[verifier::spinoff_prover]
fn load_merger(m: &LoadedModel) -> (r: Result<VisionMergerOwned, WeightError>)
    requires
        m.wf(),
    ensures
        match first_fault(*m, merger_requests(), 0) {
            Some(f) => r matches Err(e) && e@ == f,
            None => r matches Ok(g) && is_merger(g, *m),
        },
{
    let ghost rs = merger_requests();
    let norm_weight = match load_tensor_f32(m, "model.visual.merger.norm.weight") {
        Ok(t) => t,
        Err(e) => {
            return Err(e);
        },
    };
    assert(first_fault(*m, rs, 0) == first_fault(*m, rs, 1));
    let norm_bias = match load_tensor_f32(m, "model.visual.merger.norm.bias") {
        Ok(t) => t,
        Err(e) => {
            return Err(e);
        },
    };
    assert(first_fault(*m, rs, 0) == first_fault(*m, rs, 2));
    let fc1_weight = match load_tensor_f32(m, "model.visual.merger.linear_fc1.weight") {
        Ok(t) => t,
        Err(e) => {
            return Err(e);
        },
    };
    assert(first_fault(*m, rs, 0) == first_fault(*m, rs, 3));
    let fc1_bias = match load_tensor_f32(m, "model.visual.merger.linear_fc1.bias") {
        Ok(t) => t,
        Err(e) => {
            return Err(e);
        },
    };
    assert(first_fault(*m, rs, 0) == first_fault(*m, rs, 4));
    let fc2_weight = match load_tensor_f32(m, "model.visual.merger.linear_fc2.weight") {
        Ok(t) => t,
        Err(e) => {
            return Err(e);
        },
    };
    assert(first_fault(*m, rs, 0) == first_fault(*m, rs, 5));
    let fc2_bias = match load_tensor_f32(m, "model.visual.merger.linear_fc2.bias") {
        Ok(t) => t,
        Err(e) => {
            return Err(e);
        },
    };
    assert(first_fault(*m, rs, 0) == first_fault(*m, rs, 6));
    Ok(VisionMergerOwned { norm_weight, norm_bias, fc1_weight, fc1_bias, fc2_weight, fc2_bias })
}

/// The values of one patch: channels, frames, and a square of pixels.
pub open spec fn patch_dim(v: VisionConfig) -> int {
    v.in_channels * v.temporal_patch_size * v.patch_size * v.patch_size
}

/// Multiplying out the size of a patch stays in range.
pub open spec fn patch_fits(v: VisionConfig) -> bool {
    &&& v.in_channels * v.temporal_patch_size <= usize::MAX
    &&& v.in_channels * v.temporal_patch_size * v.patch_size <= usize::MAX
    &&& patch_dim(v) <= usize::MAX
}

/// What the vision tower asks for before its blocks, in order.
pub open spec fn stem_requests(v: VisionConfig) -> Seq<Request> {
    seq![
        Request::DenseAs(
            "model.visual.patch_embed.proj.weight"@,
            v.hidden_size,
            patch_dim(v) as usize,
        ),
        Request::Dense("model.visual.patch_embed.proj.bias"@),
        Request::DenseAs(
            "model.visual.pos_embed.weight"@,
            v.num_position_embeddings,
            v.hidden_size,
        ),
    ]
}

/// What the first `n` blocks of the vision tower ask for, in order.
pub open spec fn blocks_requests(n: nat) -> Seq<Request>
    decreases n,
{
    if n == 0 {
        Seq::empty()
    } else {
        blocks_requests((n - 1) as nat) + block_requests((n - 1) as usize)
    }
}

/// What the vision tower asks for, in order.
pub open spec fn vision_requests(v: VisionConfig) -> Seq<Request> {
    stem_requests(v) + blocks_requests(v.depth as nat) + merger_requests()
}

/// The fields hold the tensors of the vision tower.
pub open spec fn is_vision(w: VisionWeights, m: LoadedModel, v: VisionConfig) -> bool {
    &&& found(w.patch_embed_weight@, dense_as(
        m,
        "model.visual.patch_embed.proj.weight"@,
        v.hidden_size,
        patch_dim(v) as usize,
    ))
    &&& found(w.patch_embed_bias@, dense_of(
        m,
        "model.visual.patch_embed.proj.bias"@,
    ))
    &&& found(w.pos_embed_table@, dense_as(
        m,
        "model.visual.pos_embed.weight"@,
        v.num_position_embeddings,
        v.hidden_size,
    ))
    &&& w.blocks@.len() == v.depth
    &&& forall|i: int| 0 <= i < v.depth ==> is_block(#[trigger] w.blocks@[i], m, i as usize)
    &&& is_merger(w.merger, m)
}

proof fn lemma_blocks_prefix(m: LoadedModel, n: nat, total: nat)
    requires
        n <= total,
        first_fault(m, blocks_requests(n), 0) is Some,
    ensures
        first_fault(m, blocks_requests(total), 0) == first_fault(m, blocks_requests(n), 0),
    decreases total - n,
{
    if n < total {
        lemma_joined(m, blocks_requests(n), block_requests(n as usize), 0);
        lemma_blocks_prefix(m, n + 1, total);
    }
}

/// Loads the vision tower.
#[verifier::spinoff_prover]
#[verifier::rlimit(60)]
pub fn load_vision_weights(m: &LoadedModel, v: &VisionConfig) -> (r: Result<
    VisionWeights,
    WeightError,
>)
    requires
        m.wf(),
        patch_fits(*v),
    ensures
        match first_fault(*m, vision_requests(*v), 0) {
            Some(f) => r matches Err(e) && e@ == f,
            None => r matches Ok(w) && is_vision(w, *m, *v),
        },
{
    let ghost stem = stem_requests(*v);
    let ghost middle = blocks_requests(v.depth as nat);
    proof {
        lemma_joined(*m, stem + middle, merger_requests(), 0);
        lemma_joined(*m, stem, middle, 0);
    }
    let patch: usize = v.in_channels * v.temporal_patch_size * v.patch_size * v.patch_size;
    let patch_embed_weight = match try_load_tensor_f32_reshaped(
        m,
        "model.visual.patch_embed.proj.weight",
        v.hidden_size,
        patch,
    ) {
        Ok(t) => t,
        Err(e) => {
            return Err(e);
        },
    };
    assert(first_fault(*m, stem, 0) == first_fault(*m, stem, 1));
    let patch_embed_bias = match load_tensor_f32(m, "model.visual.patch_embed.proj.bias") {
        Ok(t) => t,
        Err(e) => {
            return Err(e);
        },
    };
    assert(first_fault(*m, stem, 0) == first_fault(*m, stem, 2));
    let pos_embed_table = match try_load_tensor_f32_reshaped(
        m,
        "model.visual.pos_embed.weight",
        v.num_position_embeddings,
        v.hidden_size,
    ) {
        Ok(t) => t,
        Err(e) => {
            return Err(e);
        },
    };
    assert(first_fault(*m, stem, 0) == first_fault(*m, stem, 3));
    assert(first_fault(*m, stem, 0) is None);
    let mut blocks: Vec<VisionBlockOwned> = Vec::new();
    let mut i: usize = 0;
    while i < v.depth
        invariant
            m.wf(),
            i <= v.depth,
            stem == stem_requests(*v),
            middle == blocks_requests(v.depth as nat),
            first_fault(*m, stem, 0) is None,
            first_fault(*m, stem + middle, 0) == first_fault(*m, middle, 0),
            first_fault(*m, vision_requests(*v), 0) == match first_fault(*m, stem + middle, 0) {
                Some(f) => Some(f),
                None => first_fault(*m, merger_requests(), 0),
            },
            first_fault(*m, blocks_requests(i as nat), 0) is None,
            blocks@.len() == i,
            forall|k: int| 0 <= k < i ==> is_block(#[trigger] blocks@[k], *m, k as usize),
        decreases v.depth - i,
    {
        proof {
            lemma_joined(*m, blocks_requests(i as nat), block_requests(i), 0);
        }
        match load_block(m, i) {
            Ok(b) => {
                blocks.push(b);
            },
            Err(e) => {
                proof {
                    lemma_blocks_prefix(*m, (i + 1) as nat, v.depth as nat);
                }
                return Err(e);
            },
        }
        i = i + 1;
    }
    match load_merger(m) {
        Ok(merger) => Ok(
            VisionWeights {
                patch_embed_weight,
                patch_embed_bias,
                pos_embed_table,
                blocks,
                merger,
            },
        ),
        Err(e) => Err(e),
    }
}

/// All weights of a decoder.
#[derive(Debug, PartialEq, Eq)]
pub struct Weights {
    pub layers: Vec<LayerWeights>,
    pub final_norm: DenseTensor,
    /// Absent where it is the embedding table.
    pub lm_head: Option<QuantWeight>,
    /// The embedding table; rows of it are decoded one at a time.
    pub embed_tokens_quant: QuantWeight,
    /// Absent from models of text alone.
    pub vision: Option<VisionWeights>,
}

/// The widths of a layer.
pub open spec fn dims_of(c: LlamaConfig, i: usize) -> LayerDims {
    let head_dim = of_full(c, i, c.global_head_dim, c.head_dim);
    let kv_heads = of_full(c, i, c.num_global_key_value_heads, c.num_key_value_heads);
    LayerDims {
        hidden: c.hidden_size,
        q_dim: (c.num_attention_heads * head_dim) as usize,
        kv_dim: (kv_heads * head_dim) as usize,
        intermediate: c.intermediate_size,
        gated: c.family.has_attn_output_gate,
    }
}

/// The widths of linear-attention layers.
pub open spec fn linear_of(c: LlamaConfig) -> LinearDims {
    LinearDims {
        num_v_heads: c.linear_num_value_heads,
        num_k_heads: c.linear_num_key_heads,
        head_k_dim: c.linear_key_head_dim,
        head_v_dim: c.linear_value_head_dim,
        conv_kernel_dim: c.linear_conv_kernel_dim,
    }
}

/// The kind of a layer; layers without a type slide.
pub open spec fn kind_of(c: LlamaConfig, i: usize) -> LayerKind {
    match kind_at(c, i) {
        Some(k) => k,
        None => LayerKind::Sliding,
    }
}

/// The widths of all layers are in range.
pub open spec fn config_fits(c: LlamaConfig) -> bool {
    &&& forall|i: usize| #[trigger] layer_fits(c, i)
    &&& linear_fits(linear_of(c))
    &&& c.vision matches Some(v) ==> patch_fits(v)
}

/// The widths of a layer are in range.
pub open spec fn layer_fits(c: LlamaConfig, i: usize) -> bool {
    let head_dim = of_full(c, i, c.global_head_dim, c.head_dim);
    let kv_heads = of_full(c, i, c.num_global_key_value_heads, c.num_key_value_heads);
    &&& c.num_attention_heads * head_dim * 2 <= usize::MAX
    &&& kv_heads * head_dim <= usize::MAX
}

/// What the decoder asks for before its layers, in order.
pub open spec fn head_requests(c: LlamaConfig) -> Seq<Request> {
    let both = seq![
        Request::Quant("model.embed_tokens.weight"@, c.vocab_size, c.hidden_size),
        Request::Dense("model.norm.weight"@),
    ];
    if c.tie_word_embeddings {
        both
    } else {
        both.push(Request::Quant("lm_head.weight"@, c.vocab_size, c.hidden_size))
    }
}

/// What the first `n` layers ask for, in order.
pub open spec fn layers_requests(c: LlamaConfig, n: nat) -> Seq<Request>
    decreases n,
{
    if n == 0 {
        Seq::empty()
    } else {
        let i = (n - 1) as usize;
        layers_requests(c, (n - 1) as nat) + layer_requests(
            i,
            dims_of(c, i),
            kind_of(c, i),
            linear_of(c),
        )
    }
}

/// What the decoder asks for, in order.
pub open spec fn model_requests(c: LlamaConfig) -> Seq<Request> {
    head_requests(c) + layers_requests(c, c.num_hidden_layers as nat) + match c.vision {
        Some(v) => vision_requests(v),
        None => Seq::empty(),
    }
}

/// A tensor with the offset of the family: norm gains may be stored less one.
pub open spec fn with_offset(t: DenseView, offset: bool) -> DenseView {
    DenseView { shape: t.shape, elements: t.elements, plus_one: t.plus_one || offset }
}

/// An optional tensor with the offset of the family.
pub open spec fn optional_with_offset(t: Option<DenseView>, offset: bool) -> Option<DenseView> {
    match t {
        Some(t) => Some(with_offset(t, offset)),
        None => None,
    }
}

/// The layer with the offset of the family on its norm gains, and all else as
/// it was.
pub open spec fn is_offset_layer(w: LayerWeights, raw: LayerWeights, offset: bool) -> bool {
    &&& w.input_norm@ == with_offset(raw.input_norm@, offset)
    &&& w.post_norm@ == with_offset(raw.post_norm@, offset)
    &&& optional_view(w.q_norm) == optional_with_offset(optional_view(raw.q_norm), offset)
    &&& optional_view(w.k_norm) == optional_with_offset(optional_view(raw.k_norm), offset)
    &&& optional_view(w.post_attn_norm) == optional_with_offset(
        optional_view(raw.post_attn_norm),
        offset,
    )
    &&& optional_view(w.post_ffw_norm) == optional_with_offset(
        optional_view(raw.post_ffw_norm),
        offset,
    )
    &&& w.q_proj == raw.q_proj && w.k_proj == raw.k_proj && w.v_proj == raw.v_proj
    &&& w.o_proj == raw.o_proj
    &&& w.q_proj_bias == raw.q_proj_bias && w.k_proj_bias == raw.k_proj_bias
    &&& w.v_proj_bias == raw.v_proj_bias
    &&& w.gate_proj == raw.gate_proj && w.up_proj == raw.up_proj
    &&& w.down_proj == raw.down_proj
    &&& w.layer_output_scale == raw.layer_output_scale
    &&& w.linear_attn == raw.linear_attn
}

/// The layer holds its tensors, with the offset of the family.
pub open spec fn is_loaded_layer(
    w: LayerWeights,
    m: LoadedModel,
    c: LlamaConfig,
    i: usize,
) -> bool {
    exists|raw: LayerWeights| #[trigger]
        is_offset_layer(w, raw, c.family.rmsnorm_plus_one) && is_layer(
            raw,
            m,
            i,
            dims_of(c, i),
            kind_of(c, i),
            linear_of(c),
        )
}

/// The fields hold the tensors of the model.
pub open spec fn is_weights(w: Weights, m: LoadedModel, c: LlamaConfig) -> bool {
    &&& found(w.embed_tokens_quant@, quant_as(
        m,
        "model.embed_tokens.weight"@,
        c.vocab_size,
        c.hidden_size,
    ))
    &&& dense_of(m, "model.norm.weight"@) matches Ok(t) && w.final_norm@ == with_offset(
        t,
        c.family.rmsnorm_plus_one,
    )
    &&& if c.tie_word_embeddings {
        w.lm_head is None
    } else {
        w.lm_head matches Some(h) && found(h@, quant_as(
            m,
            "lm_head.weight"@,
            c.vocab_size,
            c.hidden_size,
        ))
    }
    &&& w.layers@.len() == c.num_hidden_layers
    &&& forall|i: int|
        0 <= i < c.num_hidden_layers ==> is_loaded_layer(#[trigger] w.layers@[i], m, c, i as usize)
    &&& match c.vision {
        Some(v) => w.vision matches Some(x) && is_vision(x, m, v),
        None => w.vision is None,
    }
}

fn offset_norm(t: DenseTensor, offset: bool) -> (r: DenseTensor)
    ensures
        r@ == with_offset(t@, offset),
{
    DenseTensor { shape: t.shape, elements: t.elements, plus_one: t.plus_one || offset }
}

fn offset_optional(t: Option<DenseTensor>, offset: bool) -> (r: Option<DenseTensor>)
    ensures
        optional_view(r) == optional_with_offset(optional_view(t), offset),
{
    match t {
        Some(t) => Some(offset_norm(t, offset)),
        None => None,
    }
}

fn offset_layer(raw: LayerWeights, offset: bool) -> (w: LayerWeights)
    ensures
        is_offset_layer(w, raw, offset),
{
    LayerWeights {
        input_norm: offset_norm(raw.input_norm, offset),
        q_proj: raw.q_proj,
        k_proj: raw.k_proj,
        v_proj: raw.v_proj,
        o_proj: raw.o_proj,
        q_proj_bias: raw.q_proj_bias,
        k_proj_bias: raw.k_proj_bias,
        v_proj_bias: raw.v_proj_bias,
        q_norm: offset_optional(raw.q_norm, offset),
        k_norm: offset_optional(raw.k_norm, offset),
        post_norm: offset_norm(raw.post_norm, offset),
        gate_proj: raw.gate_proj,
        up_proj: raw.up_proj,
        down_proj: raw.down_proj,
        post_attn_norm: offset_optional(raw.post_attn_norm, offset),
        post_ffw_norm: offset_optional(raw.post_ffw_norm, offset),
        layer_output_scale: raw.layer_output_scale,
        linear_attn: raw.linear_attn,
    }
}

proof fn lemma_layers_prefix(m: LoadedModel, c: LlamaConfig, n: nat, total: nat)
    requires
        n <= total,
        first_fault(m, layers_requests(c, n), 0) is Some,
    ensures
        first_fault(m, layers_requests(c, total), 0) == first_fault(m, layers_requests(c, n), 0),
    decreases total - n,
{
    if n < total {
        let i = n as usize;
        lemma_joined(
            m,
            layers_requests(c, n),
            layer_requests(i, dims_of(c, i), kind_of(c, i), linear_of(c)),
            0,
        );
        lemma_layers_prefix(m, c, n + 1, total);
    }
}

/// The first fault of a model: of its head, of its layers, of its vision
/// tower.
proof fn lemma_model(m: LoadedModel, c: LlamaConfig)
    ensures
        first_fault(m, model_requests(c), 0) == match first_fault(m, head_requests(c), 0) {
            Some(f) => Some(f),
            None => match first_fault(m, layers_requests(c, c.num_hidden_layers as nat), 0) {
                Some(f) => Some(f),
                None => match c.vision {
                    Some(v) => first_fault(m, vision_requests(v), 0),
                    None => None,
                },
            },
        },
{
    let layers = layers_requests(c, c.num_hidden_layers as nat);
    let tower = match c.vision {
        Some(v) => vision_requests(v),
        None => Seq::<Request>::empty(),
    };
    lemma_joined(m, head_requests(c), layers, 0);
    lemma_joined(m, head_requests(c) + layers, tower, 0);
    if c.vision is None {
        assert(first_fault(m, tower, 0) is None);
    }
}

/// The widths of a layer.
fn layer_dims(c: &LlamaConfig, i: usize) -> (d: LayerDims)
    requires
        layer_fits(*c, i),
    ensures
        d == dims_of(*c, i),
        d.q_dim * 2 <= usize::MAX,
{
    let head_dim: usize = c.layer_head_dim(i);
    let kv_heads: usize = c.layer_kv_heads(i);
    let heads: usize = c.num_attention_heads;
    assert(heads * head_dim >= 0) by (nonlinear_arith)
        requires
            heads >= 0,
            head_dim >= 0,
    ;
    LayerDims {
        hidden: c.hidden_size,
        q_dim: heads * head_dim,
        kv_dim: kv_heads * head_dim,
        intermediate: c.intermediate_size,
        gated: c.family.has_attn_output_gate,
    }
}

fn load_layers(m: &LoadedModel, c: &LlamaConfig) -> (r: Result<Vec<LayerWeights>, WeightError>)
    requires
        m.wf(),
        forall|i: usize| #[trigger] layer_fits(*c, i),
        linear_fits(linear_of(*c)),
    ensures
        match first_fault(*m, layers_requests(*c, c.num_hidden_layers as nat), 0) {
            Some(f) => r matches Err(e) && e@ == f,
            None => r matches Ok(layers) && layers@.len() == c.num_hidden_layers && forall|i: int|
                0 <= i < c.num_hidden_layers ==> is_loaded_layer(
                    #[trigger] layers@[i],
                    *m,
                    *c,
                    i as usize,
                ),
        },
{
    let mut layers: Vec<LayerWeights> = Vec::new();
    let linear = LinearDims {
        num_v_heads: c.linear_num_value_heads,
        num_k_heads: c.linear_num_key_heads,
        head_k_dim: c.linear_key_head_dim,
        head_v_dim: c.linear_value_head_dim,
        conv_kernel_dim: c.linear_conv_kernel_dim,
    };
    let mut i: usize = 0;
    while i < c.num_hidden_layers
        invariant
            m.wf(),
            forall|k: usize| #[trigger] layer_fits(*c, k),
            linear == linear_of(*c),
            linear_fits(linear),
            i <= c.num_hidden_layers,
            first_fault(*m, layers_requests(*c, i as nat), 0) is None,
            layers@.len() == i,
            forall|k: int|
                0 <= k < i ==> is_loaded_layer(#[trigger] layers@[k], *m, *c, k as usize),
        decreases c.num_hidden_layers - i,
    {
        let kind = if i < c.layer_types.len() {
            c.layer_types[i]
        } else {
            LayerKind::Sliding
        };
        assert(layer_fits(*c, i));
        let dims = layer_dims(c, i);
        proof {
            lemma_joined(
                *m,
                layers_requests(*c, i as nat),
                layer_requests(i, dims, kind, linear),
                0,
            );
        }
        match load_layer(m, i, dims, kind, linear) {
            Ok(raw) => {
                let ghost was = raw;
                let w = offset_layer(raw, c.family.rmsnorm_plus_one);
                assert(is_offset_layer(w, was, c.family.rmsnorm_plus_one));
                layers.push(w);
            },
            Err(e) => {
                proof {
                    lemma_layers_prefix(*m, *c, (i + 1) as nat, c.num_hidden_layers as nat);
                }
                return Err(e);
            },
        }
        i = i + 1;
    }
    Ok(layers)
}

/// Why a row of the embedding table could not be read.
#[derive(Clone, Copy, Debug, PartialEq, Eq, Structural)]
pub enum RowError {
    /// The data was given up after it was moved to the GPU.
    Freed,
    /// There is no such row.
    OutOfRange,
    /// The element type cannot be decoded.
    Unsupported(DType),
    /// A row is no sequence of whole blocks.
    Misaligned,
}

/// The bytes of a row: the data is divided evenly among the rows.
pub open spec fn row_of(b: Seq<u8>, row: int, rows: int) -> Seq<u8> {
    b.subrange(row * (b.len() as int / rows), (row + 1) * (b.len() as int / rows))
}

/// The elements of a row of an encoded table.
pub open spec fn embed_row_of(q: QuantView, row: usize, rows: usize) -> Result<
    Seq<Stored>,
    RowError,
> {
    let width = q.bytes.len() as int / rows as int;
    if q.bytes.len() == 0 {
        Err(RowError::Freed)
    } else if (row + 1) * width > q.bytes.len() {
        Err(RowError::OutOfRange)
    } else {
        match format_of(q.dtype) {
            None => Err(RowError::Unsupported(q.dtype)),
            Some(f) => if !decodable(q.dtype, width as nat) {
                Err(RowError::Misaligned)
            } else {
                Ok(decoded(f, row_of(q.bytes, row as int, rows as int)))
            },
        }
    }
}

impl Weights {
    /// Loads all weights of a decoder.
    #[verifier::spinoff_prover]
    pub fn load(m: &LoadedModel, c: &LlamaConfig) -> (r: Result<Self, WeightError>)
        requires
            m.wf(),
            config_fits(*c),
        ensures
            match first_fault(*m, model_requests(*c), 0) {
                Some(f) => r matches Err(e) && e@ == f,
                None => r matches Ok(w) && is_weights(w, *m, *c),
            },
            r matches Ok(w) ==> w.final_norm.plus_one == c.family.rmsnorm_plus_one,
            r matches Ok(w) ==> forall|i: int|
                0 <= i < w.layers@.len() ==> {
                    let l = #[trigger] w.layers@[i];
                    let one = c.family.rmsnorm_plus_one;
                    &&& l.input_norm.plus_one == one && l.post_norm.plus_one == one
                    &&& l.q_norm matches Some(t) ==> t.plus_one == one
                    &&& l.k_norm matches Some(t) ==> t.plus_one == one
                    &&& l.post_attn_norm matches Some(t) ==> t.plus_one == one
                    &&& l.post_ffw_norm matches Some(t) ==> t.plus_one == one
                },
    {
        let ghost rs = head_requests(*c);
        proof {
            lemma_model(*m, *c);
        }
        let embed_tokens_quant = match load_quant_weight_reshaped(
            m,
            "model.embed_tokens.weight",
            c.vocab_size,
            c.hidden_size,
        ) {
            Ok(t) => t,
            Err(e) => {
                return Err(e);
            },
        };
        assert(first_fault(*m, rs, 0) == first_fault(*m, rs, 1));
        let final_norm = match load_tensor_f32(m, "model.norm.weight") {
            Ok(t) => offset_norm(t, c.family.rmsnorm_plus_one),
            Err(e) => {
                return Err(e);
            },
        };
        assert(first_fault(*m, rs, 0) == first_fault(*m, rs, 2));
        let lm_head = if c.tie_word_embeddings {
            None
        } else {
            match load_quant_weight_reshaped(m, "lm_head.weight", c.vocab_size, c.hidden_size) {
                Ok(t) => Some(t),
                Err(e) => {
                    return Err(e);
                },
            }
        };
        assert(first_fault(*m, rs, 2) == first_fault(*m, rs, 3));
        let layers = match load_layers(m, c) {
            Ok(l) => l,
            Err(e) => {
                return Err(e);
            },
        };
        let vision = match &c.vision {
            Some(v) => match load_vision_weights(m, v) {
                Ok(w) => Some(w),
                Err(e) => {
                    return Err(e);
                },
            },
            None => None,
        };
        let w = Weights { layers, final_norm, lm_head, embed_tokens_quant, vision };
        proof {
            assert(is_weights(w, *m, *c));
            assert forall|i: int| 0 <= i < w.layers@.len() implies {
                let l = #[trigger] w.layers@[i];
                let one = c.family.rmsnorm_plus_one;
                &&& l.input_norm.plus_one == one && l.post_norm.plus_one == one
                &&& l.q_norm matches Some(t) ==> t.plus_one == one
                &&& l.k_norm matches Some(t) ==> t.plus_one == one
                &&& l.post_attn_norm matches Some(t) ==> t.plus_one == one
                &&& l.post_ffw_norm matches Some(t) ==> t.plus_one == one
            } by {
                norms_have_the_offset_of_the_family(w, *m, *c, i);
            }
            assert(w.final_norm@.plus_one == c.family.rmsnorm_plus_one);
        }
        Ok(w)
    }

    /// Decodes one row of the embedding table.
    pub fn embed_row(&self, token_id: usize, vocab_size: usize) -> (r: Result<
        Vec<Stored>,
        RowError,
    >)
        requires
            self.embed_tokens_quant@.bytes.len() > 0 ==> vocab_size > 0,
        ensures
            match embed_row_of(self.embed_tokens_quant@, token_id, vocab_size) {
                Ok(s) => r matches Ok(v) && v@ == s,
                Err(f) => r matches Err(e) && e == f,
            },
    {
        let q = &self.embed_tokens_quant;
        let total: usize = q.bytes.len();
        if total == 0 {
            return Err(RowError::Freed);
        }
        let width: usize = total / vocab_size;
        assert((token_id as u128 + 1) * width as u128 <= u128::MAX) by (nonlinear_arith)
            requires
                token_id <= 0xffff_ffff_ffff_ffff,
                width <= 0xffff_ffff_ffff_ffff,
        ;
        if (token_id as u128 + 1) * width as u128 > total as u128 {
            return Err(RowError::OutOfRange);
        }
        proof {
            assert((token_id + 1) * width == token_id * width + width) by (nonlinear_arith);
        }
        match format_for(q.dtype) {
            None => Err(RowError::Unsupported(q.dtype)),
            Some(f) => {
                if !can_decode(q.dtype, width) {
                    return Err(RowError::Misaligned);
                }
                proof {
                    assert(token_id * width >= 0) by (nonlinear_arith)
                        requires
                            token_id >= 0,
                            width >= 0,
                    ;
                }
                let start: usize = token_id * width;
                let row = copy_range(q.bytes.as_slice(), start, start + width);
                Ok(decode(f, row.as_slice()))
            },
        }
    }
}

/// Rows of the embedding table do not overlap and lie side by side.
pub proof fn rows_are_adjacent(b: Seq<u8>, row: int, rows: int)
    requires
        0 <= row,
        0 < rows,
        row + 1 < rows,
    ensures
        row_of(b, row, rows) + row_of(b, row + 1, rows) == b.subrange(
            row * (b.len() as int / rows),
            (row + 2) * (b.len() as int / rows),
        ),
{
    let width = b.len() as int / rows;
    vstd::arithmetic::div_mod::lemma_fundamental_div_mod(b.len() as int, rows);
    vstd::arithmetic::div_mod::lemma_mod_bound(b.len() as int, rows);
    vstd::arithmetic::div_mod::lemma_div_pos_is_pos(b.len() as int, rows);
    assert((row + 1) * width == row * width + width) by (nonlinear_arith);
    assert((row + 2) * width == row * width + 2 * width) by (nonlinear_arith);
    assert((row + 2) * width <= rows * width) by (nonlinear_arith)
        requires
            row + 2 <= rows,
            width >= 0,
    ;
    assert(row * width >= 0) by (nonlinear_arith)
        requires
            row >= 0,
            width >= 0,
    ;
    assert(rows * width <= b.len());
    assert(row_of(b, row, rows) + row_of(b, row + 1, rows) =~= b.subrange(
        row * width,
        (row + 2) * width,
    ));
}

} // verus!
