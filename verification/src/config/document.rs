//! TOML as the `toml` crate reads it. Nothing here is proved: each function
//! hands one call to `toml`, and its contract gives the result a name that
//! the contracts of the library speak of.

use vstd::prelude::*;

verus! {

/// `toml::Value`, of which the verifier sees nothing: what a value holds is
/// read through the functions below.
#[verifier::external_type_specification]
#[verifier::external_body]
pub struct ExTomlValue(toml::Value);

/// The document that `toml::Value`'s `from_str` reads from a text; `None`
/// where it reports an error.
pub uninterp spec fn toml_parsed(text: Seq<char>) -> Option<toml::Value>;

/// The entry that `toml::Value::get` finds under a key.
pub uninterp spec fn toml_member(value: toml::Value, key: Seq<char>) -> Option<toml::Value>;

/// The text that `toml::Value::as_str` finds in a value.
pub uninterp spec fn toml_str(value: toml::Value) -> Option<Seq<char>>;

/// The number that `toml::Value::as_integer` finds in a value.
pub uninterp spec fn toml_integer(value: toml::Value) -> Option<i64>;

/// The keys of the table that `toml::Value::as_table` finds in a value, in
/// the order in which the table's `keys` walks them.
pub uninterp spec fn toml_keys(value: toml::Value) -> Option<Seq<Seq<char>>>;

/// Calls `from_str` of `toml::Value` through `str::parse`. The contract
/// claims that the outcome depends on the text alone, and calls it
/// `toml_parsed`; an error becomes `None`.
#[verifier::external_body]
pub(crate) fn parse_document(text: &str) -> (document: Option<toml::Value>)
    ensures
        document == toml_parsed(text@),
{
    text.parse::<toml::Value>().ok()
}

/// Calls `toml::Value::get` with a string key, which looks the key up where
/// the value is a table and finds nothing in any other value. The contract
/// calls what it finds `toml_member`.
#[verifier::external_body]
pub(crate) fn entry<'a>(value: &'a toml::Value, key: &str) -> (found: Option<&'a toml::Value>)
    ensures
        match found {
            Some(inner) => toml_member(*value, key@) == Some(*inner),
            None => toml_member(*value, key@) is None,
        },
{
    value.get(key)
}

/// Calls `toml::Value::as_str`, which hands out the text of a string and
/// nothing for any other value. The contract calls it `toml_str`.
#[verifier::external_body]
pub(crate) fn text_in<'a>(value: &'a toml::Value) -> (text: Option<&'a str>)
    ensures
        match text {
            Some(s) => toml_str(*value) == Some(s@),
            None => toml_str(*value) is None,
        },
{
    value.as_str()
}

/// Calls `toml::Value::as_integer`, which hands out an integer and nothing
/// for any other value. The contract calls it `toml_integer`.
#[verifier::external_body]
pub(crate) fn integer_in(value: &toml::Value) -> (number: Option<i64>)
    ensures
        number == toml_integer(*value),
{
    value.as_integer()
}

/// Calls `toml::Value::as_table` and copies what the table's `keys` walks.
/// A value that is no table has no keys. The table is a sorted map, so the
/// order depends on the keys alone. The contract calls the keys
/// `toml_keys`.
#[verifier::external_body]
pub(crate) fn keys_in(value: &toml::Value) -> (keys: Option<Vec<String>>)
    ensures
        match keys {
            Some(all) => toml_keys(*value) == Some(Seq::new(all@.len(), |i: int| all@[i]@)),
            None => toml_keys(*value) is None,
        },
{
    value.as_table().map(|table| table.keys().cloned().collect())
}

} // verus!
