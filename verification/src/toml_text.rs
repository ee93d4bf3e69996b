//! Values of a TOML document, by the path of their keys.
//!
//! Each function hands the text to `toml::from_str` and walks the document
//! with `toml::Value::get`. What it finds is a function of the text and the
//! keys alone, but for the bits of a float that is not a number; the names below
//! stand for it. A path that is not there, or whose value has another type,
//! gives nothing, and so does a text that is no document.

use vstd::prelude::*;

verus! {

/// The message with which `toml::from_str` refuses the text, if it does.
pub uninterp spec fn toml_refusal(text: Seq<char>) -> Option<Seq<char>>;

/// The string under a key of the document.
pub uninterp spec fn toml_root_string(text: Seq<char>, key: Seq<char>) -> Option<Seq<char>>;

/// The boolean under a key of the document.
pub uninterp spec fn toml_root_bool(text: Seq<char>, key: Seq<char>) -> Option<bool>;

/// Whether the document has the key.
pub uninterp spec fn toml_root_has(text: Seq<char>, key: Seq<char>) -> bool;

/// The string under a key of a table.
pub uninterp spec fn toml_string(text: Seq<char>, table: Seq<char>, key: Seq<char>) -> Option<
    Seq<char>,
>;

/// The boolean under a key of a table.
pub uninterp spec fn toml_bool(text: Seq<char>, table: Seq<char>, key: Seq<char>) -> Option<bool>;

/// The integer under a key of a table.
pub uninterp spec fn toml_integer(text: Seq<char>, table: Seq<char>, key: Seq<char>) -> Option<i64>;

/// The bit pattern of the float under a key of a table. Of a float that is not
/// a number it stands for some such pattern.
pub uninterp spec fn toml_float(text: Seq<char>, table: Seq<char>, key: Seq<char>) -> Option<u64>;

/// The array under a key of a table, with the integers of its items.
pub uninterp spec fn toml_integers(text: Seq<char>, table: Seq<char>, key: Seq<char>) -> Option<
    Seq<Option<i64>>,
>;

/// The array under a key of a table, with the strings of its items.
pub uninterp spec fn toml_strings(text: Seq<char>, table: Seq<char>, key: Seq<char>) -> Option<
    Seq<Option<Seq<char>>>,
>;

/// Whether a table has the key.
pub uninterp spec fn toml_has(text: Seq<char>, table: Seq<char>, key: Seq<char>) -> bool;

/// The integer under a key of a table within a table.
pub uninterp spec fn toml_inner_integer(
    text: Seq<char>,
    table: Seq<char>,
    inner: Seq<char>,
    key: Seq<char>,
) -> Option<i64>;

/// The bit pattern is of a double that is not a number.
pub open spec fn is_nan(bits: u64) -> bool {
    bits % 0x8000_0000_0000_0000 > 0x7FF0_0000_0000_0000
}

/// The same float, or none on both sides. Floats that are not numbers count as
/// the same, whatever their bits.
pub open spec fn same_float(a: Option<u64>, b: Option<u64>) -> bool {
    match (a, b) {
        (Some(x), Some(y)) => x == y || is_nan(x) && is_nan(y),
        (None, None) => true,
        _ => false,
    }
}

/// An optional string as text.
pub open spec fn optional(s: Option<String>) -> Option<Seq<char>> {
    match s {
        Some(t) => Some(t@),
        None => None,
    }
}

/// Optional strings as text.
pub open spec fn optionals(s: Seq<Option<String>>) -> Seq<Option<Seq<char>>> {
    s.map_values(|x: Option<String>| optional(x))
}

/// The message of `toml::from_str` where it refuses the text: its error,
/// printed by `to_string`.
#[verifier::external_body]
pub(crate) fn refusal(text: &str) -> (r: Option<String>)
    ensures
        optional(r) == toml_refusal(text@),
{
    toml::from_str::<toml::Value>(text).err().map(|e| e.to_string())
}

/// `toml::Value::as_str` of a value of the document.
#[verifier::external_body]
pub(crate) fn root_string(text: &str, key: &str) -> (r: Option<String>)
    ensures
        optional(r) == toml_root_string(text@, key@),
{
    toml::from_str::<toml::Value>(text).ok()?.get(key)?.as_str().map(String::from)
}

/// `toml::Value::as_bool` of a value of the document.
#[verifier::external_body]
pub(crate) fn root_bool(text: &str, key: &str) -> (r: Option<bool>)
    ensures
        r == toml_root_bool(text@, key@),
{
    toml::from_str::<toml::Value>(text).ok()?.get(key)?.as_bool()
}

/// Whether `toml::Value::get` finds the key in the document.
#[verifier::external_body]
pub(crate) fn root_has(text: &str, key: &str) -> (r: bool)
    ensures
        r == toml_root_has(text@, key@),
{
    toml::from_str::<toml::Value>(text).is_ok_and(|d| d.get(key).is_some())
}

/// `toml::Value::as_str` of a value of a table.
#[verifier::external_body]
pub(crate) fn string_in(text: &str, table: &str, key: &str) -> (r: Option<String>)
    ensures
        optional(r) == toml_string(text@, table@, key@),
{
    toml::from_str::<toml::Value>(text).ok()?.get(table)?.get(key)?.as_str().map(String::from)
}

/// `toml::Value::as_bool` of a value of a table.
#[verifier::external_body]
pub(crate) fn bool_in(text: &str, table: &str, key: &str) -> (r: Option<bool>)
    ensures
        r == toml_bool(text@, table@, key@),
{
    toml::from_str::<toml::Value>(text).ok()?.get(table)?.get(key)?.as_bool()
}

/// `toml::Value::as_integer` of a value of a table.
#[verifier::external_body]
pub(crate) fn integer_in(text: &str, table: &str, key: &str) -> (r: Option<i64>)
    ensures
        r == toml_integer(text@, table@, key@),
{
    toml::from_str::<toml::Value>(text).ok()?.get(table)?.get(key)?.as_integer()
}

/// `toml::Value::as_float` of a value of a table, as its bit pattern. Which
/// bits the parser gives to the literal `nan` is left open, but for that they
/// are not a number's.
#[verifier::external_body]
pub(crate) fn float_in(text: &str, table: &str, key: &str) -> (r: Option<u64>)
    ensures
        same_float(r, toml_float(text@, table@, key@)),
{
    toml::from_str::<toml::Value>(text).ok()?.get(table)?.get(key)?.as_float().map(|x| x.to_bits())
}

/// `toml::Value::as_array` of a value of a table, and `as_integer` of each
/// item.
#[verifier::external_body]
pub(crate) fn integers_in(text: &str, table: &str, key: &str) -> (r: Option<Vec<Option<i64>>>)
    ensures
        match toml_integers(text@, table@, key@) {
            Some(s) => r matches Some(v) && v@ == s,
            None => r is None,
        },
{
    let doc = toml::from_str::<toml::Value>(text).ok()?;
    let items = doc.get(table)?.get(key)?.as_array()?;
    Some(items.iter().map(|x| x.as_integer()).collect())
}

/// `toml::Value::as_array` of a value of a table, and `as_str` of each item.
#[verifier::external_body]
pub(crate) fn strings_in(text: &str, table: &str, key: &str) -> (r: Option<Vec<Option<String>>>)
    ensures
        match toml_strings(text@, table@, key@) {
            Some(s) => r matches Some(v) && optionals(v@) == s,
            None => r is None,
        },
{
    let doc = toml::from_str::<toml::Value>(text).ok()?;
    let items = doc.get(table)?.get(key)?.as_array()?;
    Some(items.iter().map(|x| x.as_str().map(String::from)).collect())
}

/// Whether `toml::Value::get` finds the key in a table.
#[verifier::external_body]
pub(crate) fn has_in(text: &str, table: &str, key: &str) -> (r: bool)
    ensures
        r == toml_has(text@, table@, key@),
{
    toml::from_str::<toml::Value>(text)
        .is_ok_and(|d| d.get(table).is_some_and(|t| t.get(key).is_some()))
}

/// `toml::Value::as_integer` of a value of a table within a table.
#[verifier::external_body]
pub(crate) fn inner_integer(text: &str, table: &str, inner: &str, key: &str) -> (r: Option<i64>)
    ensures
        r == toml_inner_integer(text@, table@, inner@, key@),
{
    let doc = toml::from_str::<toml::Value>(text).ok()?;
    doc.get(table)?.get(inner)?.get(key)?.as_integer()
}

} // verus!
