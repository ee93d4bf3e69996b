//! GGUF files: header, metadata and tensors.
//!
//! A file holds the magic `GGUF`, a version, the numbers of tensors and of
//! metadata entries (64-bit from version 3 on, 32-bit before), the entries,
//! the tensor descriptions, padding to the alignment, and the tensor data.
//! All integers are little-endian.

use vstd::prelude::*;

use crate::text;

verus! {

/// A metadata value. Floats are held as their bit patterns.
#[derive(Debug, PartialEq, Eq)]
pub enum GgufValue {
    U8(u8),
    I8(i8),
    U16(u16),
    I16(i16),
    U32(u32),
    I32(i32),
    F32(u32),
    U64(u64),
    I64(i64),
    F64(u64),
    Bool(bool),
    Str(String),
    Array(Vec<GgufValue>),
}

/// The mathematical content of a [`GgufValue`].
pub enum ValueView {
    U8(u8),
    I8(i8),
    U16(u16),
    I16(i16),
    U32(u32),
    I32(i32),
    F32(u32),
    U64(u64),
    I64(i64),
    F64(u64),
    Bool(bool),
    Str(Seq<char>),
    Array(Seq<ValueView>),
}

/// The content of a value.
pub open spec fn value_view(v: GgufValue) -> ValueView
    decreases v,
{
    match v {
        GgufValue::U8(x) => ValueView::U8(x),
        GgufValue::I8(x) => ValueView::I8(x),
        GgufValue::U16(x) => ValueView::U16(x),
        GgufValue::I16(x) => ValueView::I16(x),
        GgufValue::U32(x) => ValueView::U32(x),
        GgufValue::I32(x) => ValueView::I32(x),
        GgufValue::F32(x) => ValueView::F32(x),
        GgufValue::U64(x) => ValueView::U64(x),
        GgufValue::I64(x) => ValueView::I64(x),
        GgufValue::F64(x) => ValueView::F64(x),
        GgufValue::Bool(x) => ValueView::Bool(x),
        GgufValue::Str(x) => ValueView::Str(x@),
        GgufValue::Array(xs) => ValueView::Array(
            Seq::new(
                xs@.len(),
                |i: int|
                    if 0 <= i < xs@.len() {
                        value_view(xs@[i])
                    } else {
                        arbitrary()
                    },
            ),
        ),
    }
}

/// A number of the metadata. Floats are held as their bit patterns.
#[derive(Clone, Copy, Debug, PartialEq, Eq, Structural)]
pub enum GgufNumber {
    Single(u32),
    Double(u64),
    Unsigned(u32),
    Signed(i32),
}

/// Why a file was refused.
#[derive(Clone, Copy, Debug, PartialEq, Eq, Structural)]
pub enum GgufError {
    /// Shorter than any header.
    TooSmall,
    /// The file begins with these bytes.
    BadMagic(u8, u8, u8, u8),
    /// The file ends inside a field.
    Truncated,
    /// A string of this many bytes.
    StringTooLarge(usize),
    InvalidUtf8,
    /// An array of this many elements.
    ArrayTooLarge(usize),
    UnknownValueType(u32),
}

/// What a reader finds at a place: a value and the place after it.
pub type Found<T> = Result<(T, int), GgufError>;

/// The byte at a place.
pub open spec fn u8_at(b: Seq<u8>, pos: int) -> Found<u8> {
    if pos + 1 <= b.len() {
        Ok((b[pos], pos + 1))
    } else {
        Err(GgufError::Truncated)
    }
}

/// The two bytes at a place as a number.
pub open spec fn u16_at(b: Seq<u8>, pos: int) -> Found<u16> {
    if pos + 2 <= b.len() {
        Ok(((b[pos] + 0x100 * b[pos + 1]) as u16, pos + 2))
    } else {
        Err(GgufError::Truncated)
    }
}

/// The four bytes at a place as a number.
pub open spec fn u32_at(b: Seq<u8>, pos: int) -> Found<u32> {
    if pos + 4 <= b.len() {
        Ok(
            (
                (b[pos] + 0x100 * b[pos + 1] + 0x1_0000 * b[pos + 2] + 0x100_0000 * b[pos
                    + 3]) as u32,
                pos + 4,
            ),
        )
    } else {
        Err(GgufError::Truncated)
    }
}

/// The eight bytes at a place as a number.
pub open spec fn u64_at(b: Seq<u8>, pos: int) -> Found<u64> {
    if pos + 8 <= b.len() {
        Ok(
            (
                (b[pos] + 0x100 * b[pos + 1] + 0x1_0000 * b[pos + 2] + 0x100_0000 * b[pos + 3]
                    + 0x1_0000_0000 * b[pos + 4] + 0x100_0000_0000 * b[pos + 5]
                    + 0x1_0000_0000_0000 * b[pos + 6] + 0x100_0000_0000_0000 * b[pos
                    + 7]) as u64,
                pos + 8,
            ),
        )
    } else {
        Err(GgufError::Truncated)
    }
}

/// The string at a place: a 64-bit length and that many bytes of UTF-8.
pub open spec fn string_at(b: Seq<u8>, pos: int) -> Found<Seq<char>> {
    match u64_at(b, pos) {
        Err(e) => Err(e),
        Ok((n, p)) => {
            let len = n as usize;
            if len > 0x400_0000 {
                Err(GgufError::StringTooLarge(len))
            } else if p + len > b.len() {
                Err(GgufError::Truncated)
            } else if !vstd::utf8::valid_utf8(b.subrange(p, p + len)) {
                Err(GgufError::InvalidUtf8)
            } else {
                Ok((vstd::utf8::decode_utf8(b.subrange(p, p + len)), p + len))
            }
        },
    }
}

/// The reader's place and outcome agree with what is found.
pub open spec fn reads<T>(r: Result<(T, usize), GgufError>, found: Found<T>) -> bool {
    match found {
        Ok((v, p)) => r matches Ok(x) && x.0 == v && x.1 == p,
        Err(e) => r == Err::<(T, usize), GgufError>(e),
    }
}

/// Reads a byte.
pub fn read_u8(b: &[u8], pos: usize) -> (r: Result<(u8, usize), GgufError>)
    requires
        pos <= b@.len(),
    ensures
        reads(r, u8_at(b@, pos as int)),
{
    if b.len() - pos < 1 {
        return Err(GgufError::Truncated);
    }
    Ok((b[pos], pos + 1))
}

/// Reads a signed byte.
pub fn read_i8(b: &[u8], pos: usize) -> (r: Result<(i8, usize), GgufError>)
    requires
        pos <= b@.len(),
    ensures
        match u8_at(b@, pos as int) {
            Ok((v, p)) => r matches Ok(x) && x.0 == v as i8 && x.1 == p,
            Err(e) => r matches Err(x) && x == e,
        },
{
    match read_u8(b, pos) {
        Ok((v, p)) => Ok((v as i8, p)),
        Err(e) => Err(e),
    }
}

/// Reads two bytes.
pub fn read_u16(b: &[u8], pos: usize) -> (r: Result<(u16, usize), GgufError>)
    requires
        pos <= b@.len(),
    ensures
        reads(r, u16_at(b@, pos as int)),
{
    if b.len() - pos < 2 {
        return Err(GgufError::Truncated);
    }
    Ok((b[pos] as u16 + 0x100 * (b[pos + 1] as u16), pos + 2))
}

/// Reads a signed number of two bytes.
pub fn read_i16(b: &[u8], pos: usize) -> (r: Result<(i16, usize), GgufError>)
    requires
        pos <= b@.len(),
    ensures
        match u16_at(b@, pos as int) {
            Ok((v, p)) => r matches Ok(x) && x.0 == v as i16 && x.1 == p,
            Err(e) => r matches Err(x) && x == e,
        },
{
    match read_u16(b, pos) {
        Ok((v, p)) => Ok((v as i16, p)),
        Err(e) => Err(e),
    }
}

/// Reads four bytes.
pub fn read_u32(b: &[u8], pos: usize) -> (r: Result<(u32, usize), GgufError>)
    requires
        pos <= b@.len(),
    ensures
        reads(r, u32_at(b@, pos as int)),
{
    if b.len() - pos < 4 {
        return Err(GgufError::Truncated);
    }
    Ok(
        (
            b[pos] as u32 + 0x100 * (b[pos + 1] as u32) + 0x1_0000 * (b[pos + 2] as u32)
                + 0x100_0000 * (b[pos + 3] as u32),
            pos + 4,
        ),
    )
}

/// Reads a signed number of four bytes.
pub fn read_i32(b: &[u8], pos: usize) -> (r: Result<(i32, usize), GgufError>)
    requires
        pos <= b@.len(),
    ensures
        match u32_at(b@, pos as int) {
            Ok((v, p)) => r matches Ok(x) && x.0 == v as i32 && x.1 == p,
            Err(e) => r matches Err(x) && x == e,
        },
{
    match read_u32(b, pos) {
        Ok((v, p)) => Ok((v as i32, p)),
        Err(e) => Err(e),
    }
}

/// Reads eight bytes.
pub fn read_u64(b: &[u8], pos: usize) -> (r: Result<(u64, usize), GgufError>)
    requires
        pos <= b@.len(),
    ensures
        reads(r, u64_at(b@, pos as int)),
{
    if b.len() - pos < 8 {
        return Err(GgufError::Truncated);
    }
    Ok(
        (
            b[pos] as u64 + 0x100 * (b[pos + 1] as u64) + 0x1_0000 * (b[pos + 2] as u64)
                + 0x100_0000 * (b[pos + 3] as u64) + 0x1_0000_0000 * (b[pos + 4] as u64)
                + 0x100_0000_0000 * (b[pos + 5] as u64) + 0x1_0000_0000_0000 * (b[pos + 6] as u64)
                + 0x100_0000_0000_0000 * (b[pos + 7] as u64),
            pos + 8,
        ),
    )
}

/// Reads a signed number of eight bytes.
pub fn read_i64(b: &[u8], pos: usize) -> (r: Result<(i64, usize), GgufError>)
    requires
        pos <= b@.len(),
    ensures
        match u64_at(b@, pos as int) {
            Ok((v, p)) => r matches Ok(x) && x.0 == v as i64 && x.1 == p,
            Err(e) => r matches Err(x) && x == e,
        },
{
    match read_u64(b, pos) {
        Ok((v, p)) => Ok((v as i64, p)),
        Err(e) => Err(e),
    }
}

/// `String::from_utf8`: the text that the bytes encode, where they are
/// well-formed UTF-8, and nothing where they are not.
#[verifier::external_body]
fn text_from_utf8(bytes: Vec<u8>) -> (r: Option<String>)
    ensures
        match r {
            Some(s) => vstd::utf8::valid_utf8(bytes@) && s@ == vstd::utf8::decode_utf8(bytes@),
            None => !vstd::utf8::valid_utf8(bytes@),
        },
{
    String::from_utf8(bytes).ok()
}

/// The bytes from `from` up to `to`.
pub fn copy_range(b: &[u8], from: usize, to: usize) -> (v: Vec<u8>)
    requires
        from <= to <= b@.len(),
    ensures
        v@ == b@.subrange(from as int, to as int),
{
    let mut v: Vec<u8> = Vec::with_capacity(to - from);
    let part = vstd::slice::slice_subrange(b, from, to);
    v.extend_from_slice(part);
    assert(v@ =~= b@.subrange(from as int, to as int));
    v
}

/// Reads a string.
pub fn read_gguf_string(b: &[u8], pos: usize) -> (r: Result<(String, usize), GgufError>)
    requires
        pos <= b@.len(),
    ensures
        match string_at(b@, pos as int) {
            Ok((v, p)) => r matches Ok(x) && x.0@ == v && x.1 == p,
            Err(e) => r matches Err(x) && x == e,
        },
{
    let (n, p) = match read_u64(b, pos) {
        Ok(x) => x,
        Err(e) => {
            return Err(e);
        },
    };
    let len: usize = n as usize;
    if len > 0x400_0000 {
        return Err(GgufError::StringTooLarge(len));
    }
    if b.len() - p < len {
        return Err(GgufError::Truncated);
    }
    match text_from_utf8(copy_range(b, p, p + len)) {
        Some(s) => Ok((s, p + len)),
        None => Err(GgufError::InvalidUtf8),
    }
}

/// The value of type `ty` at a place.
pub open spec fn value_at(b: Seq<u8>, pos: int, ty: u32) -> Found<ValueView>
    decreases b.len() - pos, 0int,
{
    if ty == 0 {
        match u8_at(b, pos) {
            Ok((v, p)) => Ok((ValueView::U8(v), p)),
            Err(e) => Err(e),
        }
    } else if ty == 1 {
        match u8_at(b, pos) {
            Ok((v, p)) => Ok((ValueView::I8(v as i8), p)),
            Err(e) => Err(e),
        }
    } else if ty == 2 {
        match u16_at(b, pos) {
            Ok((v, p)) => Ok((ValueView::U16(v), p)),
            Err(e) => Err(e),
        }
    } else if ty == 3 {
        match u16_at(b, pos) {
            Ok((v, p)) => Ok((ValueView::I16(v as i16), p)),
            Err(e) => Err(e),
        }
    } else if ty == 4 {
        match u32_at(b, pos) {
            Ok((v, p)) => Ok((ValueView::U32(v), p)),
            Err(e) => Err(e),
        }
    } else if ty == 5 {
        match u32_at(b, pos) {
            Ok((v, p)) => Ok((ValueView::I32(v as i32), p)),
            Err(e) => Err(e),
        }
    } else if ty == 6 {
        match u32_at(b, pos) {
            Ok((v, p)) => Ok((ValueView::F32(v), p)),
            Err(e) => Err(e),
        }
    } else if ty == 7 {
        match u8_at(b, pos) {
            Ok((v, p)) => Ok((ValueView::Bool(v != 0), p)),
            Err(e) => Err(e),
        }
    } else if ty == 8 {
        match string_at(b, pos) {
            Ok((v, p)) => Ok((ValueView::Str(v), p)),
            Err(e) => Err(e),
        }
    } else if ty == 9 {
        match u32_at(b, pos) {
            Err(e) => Err(e),
            Ok((elem, p1)) => match u64_at(b, p1) {
                Err(e) => Err(e),
                Ok((n, p2)) => {
                    let len = n as usize;
                    if len > 100_000_000 {
                        Err(GgufError::ArrayTooLarge(len))
                    } else {
                        match values_at(b, p2, elem, len as nat) {
                            Ok((vs, p3)) => Ok((ValueView::Array(vs), p3)),
                            Err(e) => Err(e),
                        }
                    }
                },
            },
        }
    } else if ty == 10 {
        match u64_at(b, pos) {
            Ok((v, p)) => Ok((ValueView::U64(v), p)),
            Err(e) => Err(e),
        }
    } else if ty == 11 {
        match u64_at(b, pos) {
            Ok((v, p)) => Ok((ValueView::I64(v as i64), p)),
            Err(e) => Err(e),
        }
    } else if ty == 12 {
        match u64_at(b, pos) {
            Ok((v, p)) => Ok((ValueView::F64(v), p)),
            Err(e) => Err(e),
        }
    } else {
        Err(GgufError::UnknownValueType(ty))
    }
}

/// The `n` values of type `ty` from a place on. Every value takes at least one
/// byte, so the place moves.
pub open spec fn values_at(b: Seq<u8>, pos: int, ty: u32, n: nat) -> Found<Seq<ValueView>>
    decreases b.len() - pos, 1int,
{
    if n == 0 {
        Ok((Seq::empty(), pos))
    } else {
        match value_at(b, pos, ty) {
            Err(e) => Err(e),
            Ok((v, p)) => if p <= pos || p > b.len() {
                Err(GgufError::Truncated)
            } else {
                match values_at(b, p, ty, (n - 1) as nat) {
                    Ok((vs, q)) => Ok((seq![v] + vs, q)),
                    Err(e) => Err(e),
                }
            },
        }
    }
}

/// Reads a value of a known type.
pub fn read_gguf_value_typed(b: &[u8], pos: usize, ty: u32) -> (r: Result<
    (GgufValue, usize),
    GgufError,
>)
    requires
        pos <= b@.len(),
    ensures
        match value_at(b@, pos as int, ty) {
            Ok((v, p)) => r matches Ok(x) && value_view(x.0) == v && x.1 == p,
            Err(e) => r matches Err(x) && x == e,
        },
        r matches Ok(x) ==> pos < x.1 <= b@.len(),
    decreases b@.len() - pos,
{
    if ty == 0 {
        match read_u8(b, pos) {
            Ok((v, p)) => Ok((GgufValue::U8(v), p)),
            Err(e) => Err(e),
        }
    } else if ty == 1 {
        match read_i8(b, pos) {
            Ok((v, p)) => Ok((GgufValue::I8(v), p)),
            Err(e) => Err(e),
        }
    } else if ty == 2 {
        match read_u16(b, pos) {
            Ok((v, p)) => Ok((GgufValue::U16(v), p)),
            Err(e) => Err(e),
        }
    } else if ty == 3 {
        match read_i16(b, pos) {
            Ok((v, p)) => Ok((GgufValue::I16(v), p)),
            Err(e) => Err(e),
        }
    } else if ty == 4 {
        match read_u32(b, pos) {
            Ok((v, p)) => Ok((GgufValue::U32(v), p)),
            Err(e) => Err(e),
        }
    } else if ty == 5 {
        match read_i32(b, pos) {
            Ok((v, p)) => Ok((GgufValue::I32(v), p)),
            Err(e) => Err(e),
        }
    } else if ty == 6 {
        match read_u32(b, pos) {
            Ok((v, p)) => Ok((GgufValue::F32(v), p)),
            Err(e) => Err(e),
        }
    } else if ty == 7 {
        match read_u8(b, pos) {
            Ok((v, p)) => Ok((GgufValue::Bool(v != 0), p)),
            Err(e) => Err(e),
        }
    } else if ty == 8 {
        match read_gguf_string(b, pos) {
            Ok((v, p)) => Ok((GgufValue::Str(v), p)),
            Err(e) => Err(e),
        }
    } else if ty == 9 {
        let (elem, p1) = match read_u32(b, pos) {
            Ok(x) => x,
            Err(e) => {
                return Err(e);
            },
        };
        let (n, p2) = match read_u64(b, p1) {
            Ok(x) => x,
            Err(e) => {
                return Err(e);
            },
        };
        let len: usize = n as usize;
        if len > 100_000_000 {
            return Err(GgufError::ArrayTooLarge(len));
        }
        let mut values: Vec<GgufValue> = Vec::new();
        let mut p: usize = p2;
        let mut i: usize = 0;
        while i < len
            invariant
                i <= len,
                pos < p2 <= p <= b@.len(),
                values@.len() == i,
                ty == 9,
                u32_at(b@, pos as int) == Ok::<(u32, int), GgufError>((elem, p1 as int)),
                u64_at(b@, p1 as int) == Ok::<(u64, int), GgufError>((n, p2 as int)),
                len == n as usize,
                len <= 100_000_000,
                match values_at(b@, p as int, elem, (len - i) as nat) {
                    Ok((vs, q)) => values_at(b@, p2 as int, elem, len as nat) == Ok::<
                        (Seq<ValueView>, int),
                        GgufError,
                    >((views(values@) + vs, q)),
                    Err(e) => values_at(b@, p2 as int, elem, len as nat) == Err::<
                        (Seq<ValueView>, int),
                        GgufError,
                    >(e),
                },
            decreases len - i,
        {
            let ghost done = values@;
            match read_gguf_value_typed(b, p, elem) {
                Ok((v, q)) => {
                    values.push(v);
                    proof {
                        let rest = values_at(b@, q as int, elem, (len - i - 1) as nat);
                        assert(views(values@) =~= views(done).push(value_view(v)));
                        if rest is Ok {
                            let vs = rest->Ok_0.0;
                            assert(views(done) + (seq![value_view(v)] + vs) =~= views(values@)
                                + vs);
                        }
                    }
                    p = q;
                },
                Err(e) => {
                    return Err(e);
                },
            }
            i = i + 1;
        }
        let out = GgufValue::Array(values);
        proof {
            assert(views(values@) + Seq::<ValueView>::empty() =~= views(values@));
            assert(value_view(out)->Array_0 =~= views(values@));
        }
        Ok((out, p))
    } else if ty == 10 {
        match read_u64(b, pos) {
            Ok((v, p)) => Ok((GgufValue::U64(v), p)),
            Err(e) => Err(e),
        }
    } else if ty == 11 {
        match read_i64(b, pos) {
            Ok((v, p)) => Ok((GgufValue::I64(v), p)),
            Err(e) => Err(e),
        }
    } else if ty == 12 {
        match read_u64(b, pos) {
            Ok((v, p)) => Ok((GgufValue::F64(v), p)),
            Err(e) => Err(e),
        }
    } else {
        Err(GgufError::UnknownValueType(ty))
    }
}

/// The contents of several values.
pub open spec fn views(vs: Seq<GgufValue>) -> Seq<ValueView> {
    Seq::new(vs.len(), |i: int| value_view(vs[i]))
}

/// The tagged value at a place: a 32-bit type, then the value.
pub open spec fn tagged_value_at(b: Seq<u8>, pos: int) -> Found<ValueView> {
    match u32_at(b, pos) {
        Ok((ty, p)) => value_at(b, p, ty),
        Err(e) => Err(e),
    }
}

/// Reads a value with its type.
pub fn read_gguf_value(b: &[u8], pos: usize) -> (r: Result<(GgufValue, usize), GgufError>)
    requires
        pos <= b@.len(),
    ensures
        match tagged_value_at(b@, pos as int) {
            Ok((v, p)) => r matches Ok(x) && value_view(x.0) == v && x.1 == p,
            Err(e) => r matches Err(x) && x == e,
        },
        r matches Ok(x) ==> pos < x.1 <= b@.len(),
{
    match read_u32(b, pos) {
        Ok((ty, p)) => read_gguf_value_typed(b, p, ty),
        Err(e) => Err(e),
    }
}

/// A metadata entry.
#[derive(Debug, PartialEq, Eq)]
pub struct MetaEntry {
    pub key: String,
    pub value: GgufValue,
}

/// The mathematical content of a [`MetaEntry`].
pub struct MetaView {
    pub key: Seq<char>,
    pub value: ValueView,
}

impl View for MetaEntry {
    type V = MetaView;

    open spec fn view(&self) -> MetaView {
        MetaView { key: self.key@, value: value_view(self.value) }
    }
}

/// The contents of several entries.
pub open spec fn meta_views(m: Seq<MetaEntry>) -> Seq<MetaView> {
    m.map_values(|e: MetaEntry| e@)
}

/// The first place at or after `from` that has the key.
pub open spec fn key_at(m: Seq<MetaView>, key: Seq<char>, from: int) -> Option<int>
    decreases m.len() - from,
{
    if from < 0 || from >= m.len() {
        None
    } else if m[from].key == key {
        Some(from)
    } else {
        key_at(m, key, from + 1)
    }
}

/// The entries with the value under the key: a later value takes the place of
/// an earlier one.
pub open spec fn meta_put(m: Seq<MetaView>, key: Seq<char>, value: ValueView) -> Seq<MetaView> {
    match key_at(m, key, 0) {
        Some(i) => m.update(i, MetaView { key, value }),
        None => m.push(MetaView { key, value }),
    }
}

/// The place of a key.
pub fn find_key(m: &Vec<MetaEntry>, key: &str) -> (r: Option<usize>)
    ensures
        match key_at(meta_views(m@), key@, 0) {
            Some(i) => r matches Some(k) && k == i && i < m@.len(),
            None => r is None,
        },
{
    let mut i: usize = 0;
    while i < m.len()
        invariant
            i <= m@.len(),
            key_at(meta_views(m@), key@, 0) == key_at(meta_views(m@), key@, i as int),
        decreases m@.len() - i,
    {
        assert(meta_views(m@)[i as int] == m@[i as int]@);
        if text::text_eq(m[i].key.as_str(), key) {
            return Some(i);
        }
        i = i + 1;
    }
    None
}

fn put_meta(m: &mut Vec<MetaEntry>, key: String, value: GgufValue)
    ensures
        meta_views(final(m)@) == meta_put(meta_views(old(m)@), key@, value_view(value)),
{
    match find_key(m, key.as_str()) {
        Some(i) => {
            m.set(i, MetaEntry { key, value });
        },
        None => {
            m.push(MetaEntry { key, value });
        },
    }
    assert(meta_views(m@) =~= meta_put(meta_views(old(m)@), key@, value_view(value)));
}

/// A tensor description of the header.
#[derive(Debug, PartialEq, Eq)]
pub struct TensorInfo {
    pub name: String,
    /// Dimensions, the fast one first.
    pub dims: Vec<u64>,
    pub type_id: u32,
    /// Offset from the start of the tensor data.
    pub offset: u64,
}

/// The mathematical content of a [`TensorInfo`].
pub struct TensorView {
    pub name: Seq<char>,
    pub dims: Seq<u64>,
    pub type_id: u32,
    pub offset: u64,
}

impl View for TensorInfo {
    type V = TensorView;

    open spec fn view(&self) -> TensorView {
        TensorView {
            name: self.name@,
            dims: self.dims@,
            type_id: self.type_id,
            offset: self.offset,
        }
    }
}

/// The contents of several descriptions.
pub open spec fn tensor_views(t: Seq<TensorInfo>) -> Seq<TensorView> {
    t.map_values(|x: TensorInfo| x@)
}

/// `n` metadata entries from a place on, put into `m` one after the other.
pub open spec fn metadata_at(b: Seq<u8>, pos: int, n: nat, m: Seq<MetaView>) -> Found<
    Seq<MetaView>,
>
    decreases n,
{
    if n == 0 {
        Ok((m, pos))
    } else {
        match string_at(b, pos) {
            Err(e) => Err(e),
            Ok((key, p)) => match tagged_value_at(b, p) {
                Err(e) => Err(e),
                Ok((value, q)) => metadata_at(b, q, (n - 1) as nat, meta_put(m, key, value)),
            },
        }
    }
}

/// `n` dimensions from a place on, after those in `dims`.
pub open spec fn dims_at(b: Seq<u8>, pos: int, n: nat, dims: Seq<u64>) -> Found<Seq<u64>>
    decreases n,
{
    if n == 0 {
        Ok((dims, pos))
    } else {
        match u64_at(b, pos) {
            Err(e) => Err(e),
            Ok((d, p)) => dims_at(b, p, (n - 1) as nat, dims.push(d)),
        }
    }
}

/// The tensor description at a place.
pub open spec fn tensor_at(b: Seq<u8>, pos: int) -> Found<TensorView> {
    match string_at(b, pos) {
        Err(e) => Err(e),
        Ok((name, p1)) => match u32_at(b, p1) {
            Err(e) => Err(e),
            Ok((n_dims, p2)) => match dims_at(b, p2, n_dims as nat, Seq::empty()) {
                Err(e) => Err(e),
                Ok((dims, p3)) => match u32_at(b, p3) {
                    Err(e) => Err(e),
                    Ok((type_id, p4)) => match u64_at(b, p4) {
                        Err(e) => Err(e),
                        Ok((offset, p5)) => Ok((TensorView { name, dims, type_id, offset }, p5)),
                    },
                },
            },
        },
    }
}

/// `n` tensor descriptions from a place on, after those in `t`.
pub open spec fn tensors_at(b: Seq<u8>, pos: int, n: nat, t: Seq<TensorView>) -> Found<
    Seq<TensorView>,
>
    decreases n,
{
    if n == 0 {
        Ok((t, pos))
    } else {
        match tensor_at(b, pos) {
            Err(e) => Err(e),
            Ok((x, p)) => tensors_at(b, p, (n - 1) as nat, t.push(x)),
        }
    }
}

/// A count of the header: 64-bit from version 3 on.
pub open spec fn count_at(b: Seq<u8>, pos: int, version: u32) -> Found<u64> {
    if version >= 3 {
        u64_at(b, pos)
    } else {
        match u32_at(b, pos) {
            Ok((n, p)) => Ok((n as u64, p)),
            Err(e) => Err(e),
        }
    }
}

/// A parsed header.
#[derive(Debug, PartialEq, Eq)]
pub struct GgufHeader {
    pub metadata: Vec<MetaEntry>,
    pub tensors: Vec<TensorInfo>,
    /// The place after the header.
    pub end: usize,
}

/// The header of a file: its metadata, its tensor descriptions, and the place
/// after them.
pub open spec fn header_of(b: Seq<u8>) -> Result<
    (Seq<MetaView>, Seq<TensorView>, int),
    GgufError,
> {
    if b.len() < 24 {
        Err(GgufError::TooSmall)
    } else if !(b[0] == 0x47 && b[1] == 0x47 && b[2] == 0x55 && b[3] == 0x46) {
        Err(GgufError::BadMagic(b[0], b[1], b[2], b[3]))
    } else {
        match u32_at(b, 4) {
            Err(e) => Err(e),
            Ok((version, p1)) => match count_at(b, p1, version) {
                Err(e) => Err(e),
                Ok((n_tensors, p2)) => match count_at(b, p2, version) {
                    Err(e) => Err(e),
                    Ok((n_meta, p3)) => match metadata_at(b, p3, n_meta as nat, Seq::empty()) {
                        Err(e) => Err(e),
                        Ok((meta, p4)) => match tensors_at(
                            b,
                            p4,
                            n_tensors as nat,
                            Seq::empty(),
                        ) {
                            Err(e) => Err(e),
                            Ok((tensors, end)) => Ok((meta, tensors, end)),
                        },
                    },
                },
            },
        }
    }
}

fn read_metadata(b: &[u8], pos: usize, n: u64) -> (r: Result<(Vec<MetaEntry>, usize), GgufError>)
    requires
        pos <= b@.len(),
    ensures
        match metadata_at(b@, pos as int, n as nat, Seq::empty()) {
            Ok((m, p)) => r matches Ok(x) && meta_views(x.0@) == m && x.1 == p && p <= b@.len(),
            Err(e) => r matches Err(x) && x == e,
        },
{
    let mut m: Vec<MetaEntry> = Vec::new();
    let mut p: usize = pos;
    let mut i: u64 = 0;
    assert(meta_views(m@) =~= Seq::<MetaView>::empty());
    while i < n
        invariant
            i <= n,
            p <= b@.len(),
            metadata_at(b@, pos as int, n as nat, Seq::empty()) == metadata_at(
                b@,
                p as int,
                (n - i) as nat,
                meta_views(m@),
            ),
        decreases n - i,
    {
        let (key, p1) = match read_gguf_string(b, p) {
            Ok(x) => x,
            Err(e) => {
                return Err(e);
            },
        };
        let (value, p2) = match read_gguf_value(b, p1) {
            Ok(x) => x,
            Err(e) => {
                return Err(e);
            },
        };
        put_meta(&mut m, key, value);
        p = p2;
        i = i + 1;
    }
    Ok((m, p))
}

fn read_dims(b: &[u8], pos: usize, n: u32) -> (r: Result<(Vec<u64>, usize), GgufError>)
    requires
        pos <= b@.len(),
    ensures
        match dims_at(b@, pos as int, n as nat, Seq::empty()) {
            Ok((d, p)) => r matches Ok(x) && x.0@ == d && x.1 == p && p <= b@.len(),
            Err(e) => r matches Err(x) && x == e,
        },
{
    let mut dims: Vec<u64> = Vec::new();
    let mut p: usize = pos;
    let mut i: u32 = 0;
    assert(dims@ =~= Seq::<u64>::empty());
    while i < n
        invariant
            i <= n,
            p <= b@.len(),
            dims_at(b@, pos as int, n as nat, Seq::empty()) == dims_at(
                b@,
                p as int,
                (n - i) as nat,
                dims@,
            ),
        decreases n - i,
    {
        match read_u64(b, p) {
            Ok((d, q)) => {
                dims.push(d);
                p = q;
            },
            Err(e) => {
                return Err(e);
            },
        }
        i = i + 1;
    }
    Ok((dims, p))
}

fn read_tensor_info(b: &[u8], pos: usize) -> (r: Result<(TensorInfo, usize), GgufError>)
    requires
        pos <= b@.len(),
    ensures
        match tensor_at(b@, pos as int) {
            Ok((t, p)) => r matches Ok(x) && x.0@ == t && x.1 == p && p <= b@.len(),
            Err(e) => r matches Err(x) && x == e,
        },
{
    let (name, p1) = match read_gguf_string(b, pos) {
        Ok(x) => x,
        Err(e) => {
            return Err(e);
        },
    };
    let (n_dims, p2) = match read_u32(b, p1) {
        Ok(x) => x,
        Err(e) => {
            return Err(e);
        },
    };
    let (dims, p3) = match read_dims(b, p2, n_dims) {
        Ok(x) => x,
        Err(e) => {
            return Err(e);
        },
    };
    let (type_id, p4) = match read_u32(b, p3) {
        Ok(x) => x,
        Err(e) => {
            return Err(e);
        },
    };
    match read_u64(b, p4) {
        Ok((offset, p5)) => Ok((TensorInfo { name, dims, type_id, offset }, p5)),
        Err(e) => Err(e),
    }
}

fn read_tensor_infos(b: &[u8], pos: usize, n: u64) -> (r: Result<
    (Vec<TensorInfo>, usize),
    GgufError,
>)
    requires
        pos <= b@.len(),
    ensures
        match tensors_at(b@, pos as int, n as nat, Seq::empty()) {
            Ok((t, p)) => r matches Ok(x) && tensor_views(x.0@) == t && x.1 == p && p <= b@.len(),
            Err(e) => r matches Err(x) && x == e,
        },
{
    let mut infos: Vec<TensorInfo> = Vec::new();
    let mut p: usize = pos;
    let mut i: u64 = 0;
    assert(tensor_views(infos@) =~= Seq::<TensorView>::empty());
    while i < n
        invariant
            i <= n,
            p <= b@.len(),
            tensors_at(b@, pos as int, n as nat, Seq::empty()) == tensors_at(
                b@,
                p as int,
                (n - i) as nat,
                tensor_views(infos@),
            ),
        decreases n - i,
    {
        let ghost before = tensor_views(infos@);
        match read_tensor_info(b, p) {
            Ok((t, q)) => {
                infos.push(t);
                assert(tensor_views(infos@) =~= before.push(t@));
                p = q;
            },
            Err(e) => {
                return Err(e);
            },
        }
        i = i + 1;
    }
    Ok((infos, p))
}

fn read_count(b: &[u8], pos: usize, version: u32) -> (r: Result<(u64, usize), GgufError>)
    requires
        pos <= b@.len(),
    ensures
        reads(r, count_at(b@, pos as int, version)),
        r matches Ok(x) ==> x.1 <= b@.len(),
{
    if version >= 3 {
        read_u64(b, pos)
    } else {
        match read_u32(b, pos) {
            Ok((n, p)) => Ok((n as u64, p)),
            Err(e) => Err(e),
        }
    }
}

/// Parses the header of a file.
pub fn parse_gguf_header(b: &[u8]) -> (r: Result<GgufHeader, GgufError>)
    ensures
        match header_of(b@) {
            Ok((meta, tensors, end)) => r matches Ok(h) && meta_views(h.metadata@) == meta
                && tensor_views(h.tensors@) == tensors && h.end == end && end <= b@.len(),
            Err(e) => r matches Err(x) && x == e,
        },
{
    if b.len() < 24 {
        return Err(GgufError::TooSmall);
    }
    if !(b[0] == 0x47 && b[1] == 0x47 && b[2] == 0x55 && b[3] == 0x46) {
        return Err(GgufError::BadMagic(b[0], b[1], b[2], b[3]));
    }
    let (version, p1) = match read_u32(b, 4) {
        Ok(x) => x,
        Err(e) => {
            return Err(e);
        },
    };
    let (n_tensors, p2) = match read_count(b, p1, version) {
        Ok(x) => x,
        Err(e) => {
            return Err(e);
        },
    };
    let (n_meta, p3) = match read_count(b, p2, version) {
        Ok(x) => x,
        Err(e) => {
            return Err(e);
        },
    };
    let (metadata, p4) = match read_metadata(b, p3, n_meta) {
        Ok(x) => x,
        Err(e) => {
            return Err(e);
        },
    };
    match read_tensor_infos(b, p4, n_tensors) {
        Ok((tensors, end)) => Ok(GgufHeader { metadata, tensors, end }),
        Err(e) => Err(e),
    }
}

/// An integer value, cut to 32 bits.
pub open spec fn value_u32(v: ValueView) -> Option<u32> {
    match v {
        ValueView::U8(x) => Some(x as u32),
        ValueView::I8(x) => Some(x as u32),
        ValueView::U16(x) => Some(x as u32),
        ValueView::I16(x) => Some(x as u32),
        ValueView::U32(x) => Some(x),
        ValueView::I32(x) => Some(x as u32),
        ValueView::U64(x) => Some(x as u32),
        ValueView::I64(x) => Some(x as u32),
        _ => None,
    }
}

/// An integer value, in 64 bits.
pub open spec fn value_u64(v: ValueView) -> Option<u64> {
    match v {
        ValueView::U8(x) => Some(x as u64),
        ValueView::I8(x) => Some(x as u64),
        ValueView::U16(x) => Some(x as u64),
        ValueView::I16(x) => Some(x as u64),
        ValueView::U32(x) => Some(x as u64),
        ValueView::I32(x) => Some(x as u64),
        ValueView::U64(x) => Some(x),
        ValueView::I64(x) => Some(x as u64),
        _ => None,
    }
}

impl GgufValue {
    /// An integer of any type, cut to 32 bits; negative ones wrap around.
    pub fn as_u32(&self) -> (r: Option<u32>)
        ensures
            r == value_u32(value_view(*self)),
    {
        match self {
            GgufValue::U8(v) => Some(*v as u32),
            GgufValue::I8(v) => Some(*v as u32),
            GgufValue::U16(v) => Some(*v as u32),
            GgufValue::I16(v) => Some(*v as u32),
            GgufValue::U32(v) => Some(*v),
            GgufValue::I32(v) => Some(*v as u32),
            GgufValue::U64(v) => Some(*v as u32),
            GgufValue::I64(v) => Some(*v as u32),
            _ => None,
        }
    }

    /// An integer of any type; negative ones wrap around.
    pub fn as_u64(&self) -> (r: Option<u64>)
        ensures
            r == value_u64(value_view(*self)),
    {
        match self {
            GgufValue::U8(v) => Some(*v as u64),
            GgufValue::I8(v) => Some(*v as u64),
            GgufValue::U16(v) => Some(*v as u64),
            GgufValue::I16(v) => Some(*v as u64),
            GgufValue::U32(v) => Some(*v as u64),
            GgufValue::I32(v) => Some(*v as u64),
            GgufValue::U64(v) => Some(*v),
            GgufValue::I64(v) => Some(*v as u64),
            _ => None,
        }
    }

    /// The number that becomes a single-precision float.
    pub fn as_f32(&self) -> (r: Option<GgufNumber>)
        ensures
            r == match value_view(*self) {
                ValueView::F32(x) => Some(GgufNumber::Single(x)),
                ValueView::F64(x) => Some(GgufNumber::Double(x)),
                ValueView::U32(x) => Some(GgufNumber::Unsigned(x)),
                ValueView::I32(x) => Some(GgufNumber::Signed(x)),
                _ => None,
            },
    {
        match self {
            GgufValue::F32(x) => Some(GgufNumber::Single(*x)),
            GgufValue::F64(x) => Some(GgufNumber::Double(*x)),
            GgufValue::U32(x) => Some(GgufNumber::Unsigned(*x)),
            GgufValue::I32(x) => Some(GgufNumber::Signed(*x)),
            _ => None,
        }
    }

    /// The text of a string.
    pub fn as_str(&self) -> (r: Option<&str>)
        ensures
            match value_view(*self) {
                ValueView::Str(s) => r matches Some(t) && t@ == s,
                _ => r is None,
            },
    {
        match self {
            GgufValue::Str(s) => Some(s.as_str()),
            _ => None,
        }
    }
}

/// The alignment of the tensor data: what the metadata says, or 32.
pub open spec fn alignment_of(m: Seq<MetaView>) -> usize {
    match key_at(m, "general.alignment"@, 0) {
        Some(i) => match value_u32(m[i].value) {
            Some(n) => n as usize,
            None => 32,
        },
        None => 32,
    }
}

/// The alignment of the tensor data.
pub fn get_alignment(m: &Vec<MetaEntry>) -> (n: usize)
    ensures
        n == alignment_of(meta_views(m@)),
{
    match find_key(m, "general.alignment") {
        Some(i) => {
            assert(meta_views(m@)[i as int] == m@[i as int]@);
            match m[i].value.as_u32() {
                Some(n) => n as usize,
                None => 32,
            }
        },
        None => 32,
    }
}

/// The start of the tensor data after a header that ends at `end`: the first
/// multiple of the alignment at or after it.
pub open spec fn data_start_of(end: usize, alignment: usize) -> usize {
    ((end + alignment - 1) / alignment as int * alignment) as usize
}

/// The start of the tensor data after a header that ends at `end`.
pub fn data_start(end: usize, alignment: usize) -> (start: usize)
    requires
        alignment > 0,
        end + alignment - 1 <= usize::MAX,
    ensures
        start == data_start_of(end, alignment),
{
    proof {
        let (a, top) = (alignment as int, end + alignment - 1);
        vstd::arithmetic::div_mod::lemma_fundamental_div_mod(top, a);
        assert(top / a * a == a * (top / a)) by (nonlinear_arith);
        assert(0 <= top / a * a) by (nonlinear_arith)
            requires
                a > 0,
                top >= 0,
        ;
    }
    (end + (alignment - 1)) / alignment * alignment
}

/// The data starts at the first multiple of the alignment at or after the end
/// of the header.
pub proof fn data_starts_at_next_multiple(end: usize, alignment: usize)
    requires
        alignment > 0,
        end + alignment - 1 <= usize::MAX,
    ensures
        data_start_of(end, alignment) % alignment == 0,
        end <= data_start_of(end, alignment) < end + alignment,
        forall|m: int|
            m >= end && #[trigger] (m % alignment as int) == 0 ==> m >= data_start_of(
                end,
                alignment,
            ),
{
    let (a, top) = (alignment as int, end + alignment - 1);
    let q = top / a;
    vstd::arithmetic::div_mod::lemma_fundamental_div_mod(top, a);
    assert(q * a == a * q) by (nonlinear_arith);
    assert(0 <= q * a) by (nonlinear_arith)
        requires
            q == top / a,
            a > 0,
            top >= 0,
    ;
    assert(data_start_of(end, alignment) == q * a);
    vstd::arithmetic::div_mod::lemma_mod_multiples_basic(q, a);
    assert forall|m: int| m >= end && #[trigger] (m % a) == 0 implies m >= q * a by {
        vstd::arithmetic::div_mod::lemma_fundamental_div_mod(m, a);
        let k = m / a;
        assert(k >= q) by (nonlinear_arith)
            requires
                m == a * k,
                m >= end,
                q * a <= end + a - 1,
                a > 0,
        ;
        assert(k * a >= q * a) by (nonlinear_arith)
            requires
                k >= q,
                a > 0,
        ;
        assert(k * a == a * k) by (nonlinear_arith);
    }
}

} // verus!
