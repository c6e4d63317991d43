//! JSON as `serde_json` reads and writes it. Nothing here is proved: each
//! function hands one call to `serde_json`, and its contract gives the
//! result a name that the contracts of the library speak of.

use vstd::prelude::*;

verus! {

/// `serde_json::Value`, of which the verifier sees nothing: what a value
/// holds is read through the functions below.
#[verifier::external_type_specification]
#[verifier::external_body]
pub struct ExJsonValue(serde_json::Value);

/// The value that `serde_json::from_str` reads from a text; `None` where it
/// reports an error.
pub uninterp spec fn json_parsed(text: Seq<char>) -> Option<serde_json::Value>;

/// The member that `serde_json::Value::get` finds under a key.
pub uninterp spec fn json_member(value: serde_json::Value, key: Seq<char>) -> Option<
    serde_json::Value,
>;

/// The text that `serde_json::Value::as_str` finds in a value.
pub uninterp spec fn json_str(value: serde_json::Value) -> Option<Seq<char>>;

/// The number that `serde_json::Value::as_u64` finds in a value.
pub uninterp spec fn json_u64(value: serde_json::Value) -> Option<u64>;

/// The elements that `serde_json::Value::as_array` finds in a value.
pub uninterp spec fn json_items(value: serde_json::Value) -> Option<Seq<serde_json::Value>>;

/// What `serde_json::Value::is_null` answers for a value.
pub uninterp spec fn json_is_null(value: serde_json::Value) -> bool;

/// The text that a value's `Display` writes.
pub uninterp spec fn json_rendered(value: serde_json::Value) -> Seq<char>;

/// The text that `serde_json::to_string` writes for a string.
pub uninterp spec fn json_quoted(text: Seq<char>) -> Seq<char>;

/// The character stands for itself in a JSON string literal: it is no
/// quotation mark, no backslash and no control character below U+0020.
pub open spec fn plain_char(c: char) -> bool {
    c != '"' && c != '\\' && c as int >= 0x20
}

/// Every character of the text stands for itself in a JSON string literal.
pub open spec fn unescaped(text: Seq<char>) -> bool {
    forall|i: int| 0 <= i < text.len() ==> plain_char(#[trigger] text[i])
}

/// The text between two quotation marks.
pub open spec fn in_quotes(text: Seq<char>) -> Seq<char> {
    seq!['"'] + text + seq!['"']
}

/// Calls `serde_json::from_str` for a `Value`. The contract claims that the
/// outcome depends on the text alone, and calls it `json_parsed`; an error
/// becomes `None`.
#[verifier::external_body]
pub(crate) fn parse(text: &str) -> (value: Option<serde_json::Value>)
    ensures
        value == json_parsed(text@),
{
    serde_json::from_str::<serde_json::Value>(text).ok()
}

/// Calls `serde_json::Value::get` with a string key, which looks the key up
/// where the value is an object and finds nothing in any other value. The
/// contract calls what it finds `json_member`.
#[verifier::external_body]
pub(crate) fn member<'a>(value: &'a serde_json::Value, key: &str) -> (found: Option<
    &'a serde_json::Value,
>)
    ensures
        match found {
            Some(inner) => json_member(*value, key@) == Some(*inner),
            None => json_member(*value, key@) is None,
        },
{
    value.get(key)
}

/// Calls `serde_json::Value::as_str`, which hands out the text of a string
/// value and nothing for any other value. The contract calls it `json_str`.
#[verifier::external_body]
pub(crate) fn text_in<'a>(value: &'a serde_json::Value) -> (text: Option<&'a str>)
    ensures
        match text {
            Some(s) => json_str(*value) == Some(s@),
            None => json_str(*value) is None,
        },
{
    value.as_str()
}

/// Calls `serde_json::Value::as_u64`, which hands out a number that is a
/// non-negative integer within 64 bits and nothing for any other value. The
/// contract calls it `json_u64`.
#[verifier::external_body]
pub(crate) fn number_in(value: &serde_json::Value) -> (number: Option<u64>)
    ensures
        number == json_u64(*value),
{
    value.as_u64()
}

/// Calls `serde_json::Value::as_array`, which hands out the elements of an
/// array and nothing for any other value. The contract calls them
/// `json_items`.
#[verifier::external_body]
pub(crate) fn items_in<'a>(value: &'a serde_json::Value) -> (items: Option<
    &'a Vec<serde_json::Value>,
>)
    ensures
        match items {
            Some(all) => json_items(*value) == Some(all@),
            None => json_items(*value) is None,
        },
{
    value.as_array()
}

/// Calls `serde_json::Value::is_null`. The contract calls the answer
/// `json_is_null`.
#[verifier::external_body]
pub(crate) fn is_null(value: &serde_json::Value) -> (null: bool)
    ensures
        null == json_is_null(*value),
{
    value.is_null()
}

/// Writes a value through its `Display`, which `serde_json` implements as
/// its compact serialisation. The contract claims that the text depends on
/// the value alone, and calls it `json_rendered`.
#[verifier::external_body]
pub(crate) fn rendered(value: &serde_json::Value) -> (text: String)
    ensures
        text@ == json_rendered(*value),
{
    value.to_string()
}

/// Calls `serde_json::to_string` on a string, which writes it as a JSON
/// string literal: in double quotes, with escapes. Writing a string into
/// memory reports no error. The contract calls the literal `json_quoted`,
/// and claims what it reads for a text without a quotation mark, a backslash
/// or a character below U+0020, the only characters that `serde_json`
/// escapes: the text as it is, between two quotation marks.
#[verifier::external_body]
pub(crate) fn quoted(text: &str) -> (literal: String)
    ensures
        literal@ == json_quoted(text@),
        unescaped(text@) ==> literal@ == in_quotes(text@),
{
    serde_json::to_string(text).unwrap_or_default()
}

} // verus!
