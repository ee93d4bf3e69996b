//! Weights on their way from a source file to a `.model` file.

use vstd::prelude::*;

use crate::quant::stored::{decode, decoded, decoded_len, Format, Stored};
use crate::text;

verus! {

/// Element types of source files.
#[allow(non_camel_case_types)]
#[derive(Clone, Copy, Debug, PartialEq, Eq, Hash, Structural)]
pub enum DType {
    F32,
    F16,
    BF16,
    I8,
    U8,
    Bool,
    Q8_0,
    Q4_0,
    Q4_1,
    Q2_K,
    Q3_K,
    Q4_K,
    Q5_K,
    Q6_K,
    Ternary,
}

/// The name of an element type's encoding in the tensor index.
pub open spec fn encoding_name(d: DType) -> Seq<char> {
    match d {
        DType::F32 => "u32"@,
        DType::F16 => "u16"@,
        DType::BF16 => "bf16"@,
        DType::I8 => "i8"@,
        DType::U8 => "u8"@,
        DType::Bool => "bool"@,
        DType::Q8_0 => "q8"@,
        DType::Q4_0 => "q4"@,
        DType::Q4_1 => "q4_1"@,
        DType::Q2_K => "q2k"@,
        DType::Q3_K => "q3k"@,
        DType::Q4_K => "q4k"@,
        DType::Q5_K => "q5k"@,
        DType::Q6_K => "q6k"@,
        DType::Ternary => "ternary"@,
    }
}

impl DType {
    /// The name of the encoding in the tensor index.
    pub fn canonical_encoding(self) -> (name: &'static str)
        ensures
            name@ == encoding_name(self),
    {
        match self {
            DType::F32 => "u32",
            DType::F16 => "u16",
            DType::BF16 => "bf16",
            DType::I8 => "i8",
            DType::U8 => "u8",
            DType::Bool => "bool",
            DType::Q8_0 => "q8",
            DType::Q4_0 => "q4",
            DType::Q4_1 => "q4_1",
            DType::Q2_K => "q2k",
            DType::Q3_K => "q3k",
            DType::Q4_K => "q4k",
            DType::Q5_K => "q5k",
            DType::Q6_K => "q6k",
            DType::Ternary => "ternary",
        }
    }
}

/// Different element types have different encodings.
#[verifier::spinoff_prover]
pub proof fn encoding_names_differ(a: DType, b: DType)
    requires
        encoding_name(a) == encoding_name(b),
    ensures
        a == b,
{
    reveal_strlit("u32");
    assert("u32"@.len() == 3 && "u32"@[0] == 'u' && "u32"@[1] == '3');
    reveal_strlit("u16");
    assert("u16"@.len() == 3 && "u16"@[0] == 'u' && "u16"@[1] == '1');
    reveal_strlit("bf16");
    assert("bf16"@.len() == 4 && "bf16"@[0] == 'b' && "bf16"@[1] == 'f');
    reveal_strlit("i8");
    assert("i8"@.len() == 2 && "i8"@[0] == 'i' && "i8"@[1] == '8');
    reveal_strlit("u8");
    assert("u8"@.len() == 2 && "u8"@[0] == 'u' && "u8"@[1] == '8');
    reveal_strlit("bool");
    assert("bool"@.len() == 4 && "bool"@[0] == 'b' && "bool"@[1] == 'o');
    reveal_strlit("q8");
    assert("q8"@.len() == 2 && "q8"@[0] == 'q' && "q8"@[1] == '8');
    reveal_strlit("q4");
    assert("q4"@.len() == 2 && "q4"@[0] == 'q' && "q4"@[1] == '4');
    reveal_strlit("q4_1");
    assert("q4_1"@.len() == 4 && "q4_1"@[0] == 'q' && "q4_1"@[1] == '4');
    reveal_strlit("q2k");
    assert("q2k"@.len() == 3 && "q2k"@[0] == 'q' && "q2k"@[1] == '2');
    reveal_strlit("q3k");
    assert("q3k"@.len() == 3 && "q3k"@[0] == 'q' && "q3k"@[1] == '3');
    reveal_strlit("q4k");
    assert("q4k"@.len() == 3 && "q4k"@[0] == 'q' && "q4k"@[1] == '4');
    reveal_strlit("q5k");
    assert("q5k"@.len() == 3 && "q5k"@[0] == 'q' && "q5k"@[1] == '5');
    reveal_strlit("q6k");
    assert("q6k"@.len() == 3 && "q6k"@[0] == 'q' && "q6k"@[1] == '6');
    reveal_strlit("ternary");
    assert("ternary"@.len() == 7 && "ternary"@[0] == 't' && "ternary"@[1] == 'e');
    let x = encoding_name(a);
    let y = encoding_name(b);
    assert(x.len() == y.len());
    assert(x[0] == y[0]);
    assert(x[1] == y[1]);
}

/// A weight tensor as a loader delivers it.
#[derive(Debug, PartialEq, Eq)]
pub struct Weight {
    pub data: Vec<u8>,
    pub shape: Vec<usize>,
    pub dtype: DType,
    /// The fast dimension comes first and is to be moved last on writing.
    pub needs_transpose: bool,
}

/// The mathematical content of a [`Weight`].
#[verifier::ext_equal]
pub struct WeightView {
    pub data: Seq<u8>,
    pub shape: Seq<usize>,
    pub dtype: DType,
    pub needs_transpose: bool,
}

impl View for Weight {
    type V = WeightView;

    open spec fn view(&self) -> WeightView {
        WeightView {
            data: self.data@,
            shape: self.shape@,
            dtype: self.dtype,
            needs_transpose: self.needs_transpose,
        }
    }
}

/// A named weight.
#[derive(Debug, PartialEq, Eq)]
pub struct NamedWeight {
    pub name: String,
    pub weight: Weight,
}

/// The mathematical content of a [`NamedWeight`].
#[verifier::ext_equal]
pub struct NamedView {
    pub name: Seq<char>,
    pub weight: WeightView,
}

impl View for NamedWeight {
    type V = NamedView;

    open spec fn view(&self) -> NamedView {
        NamedView { name: self.name@, weight: self.weight@ }
    }
}

/// All weights of one source file, each under a name of its own, in the order
/// in which the names first came.
#[derive(Debug, PartialEq, Eq)]
pub struct Weights {
    pub weights: Vec<NamedWeight>,
    /// Free-form metadata of the source.
    pub metadata: Vec<(String, String)>,
}

/// The view of a table is its weights; contracts name `metadata` themselves.
impl View for Weights {
    type V = Seq<NamedView>;

    open spec fn view(&self) -> Seq<NamedView> {
        self.weights@.map_values(|w: NamedWeight| w@)
    }
}

/// No name occurs twice.
pub open spec fn distinct_names(s: Seq<NamedView>) -> bool {
    forall|i: int, j: int|
        0 <= i < j < s.len() ==> (#[trigger] s[i]).name != (#[trigger] s[j]).name
}

/// The first place at or after `from` that has the name.
pub open spec fn name_at(s: Seq<NamedView>, name: Seq<char>, from: int) -> Option<int>
    decreases s.len() - from,
{
    if from < 0 || from >= s.len() {
        None
    } else if s[from].name == name {
        Some(from)
    } else {
        name_at(s, name, from + 1)
    }
}

/// The table with the weight under the name: in place of the one that has the
/// name, or at the end.
pub open spec fn inserted(s: Seq<NamedView>, name: Seq<char>, weight: WeightView) -> Seq<
    NamedView,
> {
    match name_at(s, name, 0) {
        Some(i) => s.update(i, NamedView { name, weight }),
        None => s.push(NamedView { name, weight }),
    }
}

/// What is found under a name has the name; where nothing is found, nothing
/// has it.
pub proof fn lemma_name_at(s: Seq<NamedView>, name: Seq<char>, from: int)
    requires
        0 <= from <= s.len(),
    ensures
        match name_at(s, name, from) {
            Some(i) => from <= i < s.len() && s[i].name == name,
            None => forall|i: int| from <= i < s.len() ==> (#[trigger] s[i]).name != name,
        },
    decreases s.len() - from,
{
    if from < s.len() && s[from].name != name {
        lemma_name_at(s, name, from + 1);
    }
}

/// Inserting keeps names distinct, the new weight is found under its name, and
/// every other name keeps its weight.
pub proof fn insert_is_a_map_update(
    s: Seq<NamedView>,
    name: Seq<char>,
    weight: WeightView,
    other: Seq<char>,
)
    requires
        distinct_names(s),
    ensures
        distinct_names(inserted(s, name, weight)),
        name_at(inserted(s, name, weight), name, 0) matches Some(i) && inserted(
            s,
            name,
            weight,
        )[i].weight == weight,
        other != name ==> name_at(inserted(s, name, weight), other, 0) == name_at(s, other, 0),
        other != name ==> (name_at(s, other, 0) matches Some(i) ==> inserted(s, name, weight)[i]
            == s[i]),
{
    let t = inserted(s, name, weight);
    lemma_name_at(s, name, 0);
    lemma_name_at(t, name, 0);
    lemma_name_at(s, other, 0);
    lemma_name_at(t, other, 0);
    match name_at(s, name, 0) {
        Some(i) => {
            assert(t[i].name == name);
            assert forall|j: int| 0 <= j < t.len() implies (#[trigger] t[j]).name == s[j].name by {}
        },
        None => {
            assert(t[s.len() as int].name == name);
            assert forall|j: int| 0 <= j < s.len() implies (#[trigger] t[j]) == s[j] by {}
        },
    }
    if other != name {
        match name_at(s, other, 0) {
            Some(i) => {
                assert(t[i].name == other);
                let k = name_at(t, other, 0)->0;
                assert(s[k].name == other);
            },
            None => {
                if name_at(t, other, 0) is Some {
                    let k = name_at(t, other, 0)->0;
                    assert(s[k].name == other);
                }
            },
        }
    }
}

impl Weights {
    /// A table without weights.
    pub fn new() -> (w: Self)
        ensures
            w@ == Seq::<NamedView>::empty(),
            w.metadata@ == Seq::<(String, String)>::empty(),
    {
        let w = Weights { weights: Vec::new(), metadata: Vec::new() };
        assert(w@ =~= Seq::<NamedView>::empty());
        w
    }

    /// The place of a name in the table.
    pub fn find(&self, name: &str) -> (r: Option<usize>)
        ensures
            match name_at(self@, name@, 0) {
                Some(i) => r matches Some(k) && k == i && i < self@.len(),
                None => r is None,
            },
    {
        let mut i: usize = 0;
        while i < self.weights.len()
            invariant
                i <= self.weights@.len(),
                name_at(self@, name@, 0) == name_at(self@, name@, i as int),
            decreases self.weights@.len() - i,
        {
            assert(self@[i as int] == self.weights@[i as int]@);
            if text::text_eq(self.weights[i].name.as_str(), name) {
                return Some(i);
            }
            i = i + 1;
        }
        None
    }

    /// Puts a weight under a name, in place of one that has the name.
    pub fn insert(&mut self, name: String, w: Weight)
        ensures
            final(self)@ == inserted(old(self)@, name@, w@),
            final(self).metadata == old(self).metadata,
    {
        match self.find(name.as_str()) {
            Some(i) => {
                self.weights.set(i, NamedWeight { name, weight: w });
            },
            None => {
                self.weights.push(NamedWeight { name, weight: w });
            },
        }
        assert(self@ =~= inserted(old(self)@, name@, w@));
    }

    /// The number of weights.
    pub fn len(&self) -> (n: usize)
        ensures
            n == self@.len(),
    {
        self.weights.len()
    }

    /// Whether there are no weights.
    pub fn is_empty(&self) -> (b: bool)
        ensures
            b == (self@.len() == 0),
    {
        self.weights.len() == 0
    }
}

/// The encoding of a source's element type, where there is a decoder for it.
pub open spec fn source_format(d: DType) -> Option<Format> {
    match d {
        DType::F32 => Some(Format::Single),
        DType::BF16 => Some(Format::BrainBits),
        DType::F16 => Some(Format::Half),
        DType::Q4_0 => Some(Format::Q4_0),
        DType::Q4_1 => Some(Format::Q4_1),
        DType::Q8_0 => Some(Format::Q8_0),
        DType::U8 | DType::Ternary => Some(Format::Shifted),
        DType::Q4_K => Some(Format::Q4_K),
        DType::Q5_K => Some(Format::Q5_K),
        DType::Q6_K => Some(Format::Q6_K),
        DType::Q3_K => Some(Format::Q3_K),
        DType::Q2_K => Some(Format::Q2_K),
        DType::I8 | DType::Bool => None,
    }
}

/// The elements of a source tensor: those of its whole blocks, and none where
/// there is no decoder.
pub open spec fn source_elements(d: DType, data: Seq<u8>) -> Seq<Stored> {
    match source_format(d) {
        Some(f) => decoded(f, data),
        None => Seq::empty(),
    }
}

/// Decodes a source tensor.
pub fn dequantize_to_f32(data: &[u8], dtype: DType) -> (v: Vec<Stored>)
    requires
        source_format(dtype) matches Some(f) ==> decoded_len(f, data@.len()) <= usize::MAX,
    ensures
        v@ == source_elements(dtype, data@),
{
    match dtype {
        DType::F32 => decode(Format::Single, data),
        DType::BF16 => decode(Format::BrainBits, data),
        DType::F16 => decode(Format::Half, data),
        DType::Q4_0 => decode(Format::Q4_0, data),
        DType::Q4_1 => decode(Format::Q4_1, data),
        DType::Q8_0 => decode(Format::Q8_0, data),
        DType::U8 | DType::Ternary => decode(Format::Shifted, data),
        DType::Q4_K => decode(Format::Q4_K, data),
        DType::Q5_K => decode(Format::Q5_K, data),
        DType::Q6_K => decode(Format::Q6_K, data),
        DType::Q3_K => decode(Format::Q3_K, data),
        DType::Q2_K => decode(Format::Q2_K, data),
        DType::I8 | DType::Bool => Vec::new(),
    }
}

} // verus!
