//! A plain model of parsed TOML documents, and the lookups the loaders use.

use vstd::prelude::*;
use crate::text::str_equal;

verus! {

/// The outside `toml::Value`, carried only through the parse wrapper.
#[verifier::external_type_specification]
#[verifier::external_body]
pub struct ExTomlValue(toml::Value);

/// A parsed TOML value. Floats are kept as their IEEE-754 bit pattern; tables
/// keep their entries in the order the parser yields them (keys are unique).
pub enum TomlValue {
    String(String),
    Integer(i64),
    Float(u64),
    Boolean(bool),
    Datetime(String),
    Array(Vec<TomlValue>),
    Table(Vec<(String, TomlValue)>),
}

/// The document that `toml::from_str::<toml::Value>` reads from a text, as a
/// [`TomlValue`], or the text of its error.
pub uninterp spec fn toml_document(text: Seq<char>) -> Result<TomlValue, Seq<char>>;

/// Converts an outside `toml::Value` into a [`TomlValue`], variant by variant.
/// Trusted: a one-for-one conversion; nothing is stated of the opaque input.
#[verifier::external_body]
fn toml_tree(v: &toml::Value) -> TomlValue {
    match v {
        toml::Value::String(s) => TomlValue::String(s.clone()),
        toml::Value::Integer(i) => TomlValue::Integer(*i),
        toml::Value::Float(f) => TomlValue::Float(f.to_bits()),
        toml::Value::Boolean(b) => TomlValue::Boolean(*b),
        toml::Value::Datetime(d) => TomlValue::Datetime(d.to_string()),
        toml::Value::Array(a) => TomlValue::Array(a.iter().map(toml_tree).collect()),
        toml::Value::Table(t) => TomlValue::Table(
            t.iter().map(|(k, x)| (k.clone(), toml_tree(x))).collect(),
        ),
    }
}

/// Parses a TOML document with `toml::from_str::<toml::Value>`.
/// Trusted: the result is a function of the text alone, named [`toml_document`];
/// the error is the parser's error message.
#[verifier::external_body]
pub(crate) fn parse_toml(text: &str) -> (r: Result<TomlValue, String>)
    ensures
        match r {
            Ok(v) => toml_document(text@) == Ok::<TomlValue, Seq<char>>(v),
            Err(e) => toml_document(text@) == Err::<TomlValue, Seq<char>>(e@),
        },
{
    match toml::from_str::<toml::Value>(text) {
        Ok(v) => Ok(toml_tree(&v)),
        Err(e) => Err(e.to_string()),
    }
}

/// The value stored under `key` among table entries (the first entry with that key).
pub open spec fn entries_lookup(entries: Seq<(String, TomlValue)>, key: Seq<char>) -> Option<TomlValue>
    decreases entries.len(),
{
    if entries.len() == 0 {
        None
    } else if entries[0].0@ == key {
        Some(entries[0].1)
    } else {
        entries_lookup(entries.drop_first(), key)
    }
}

/// `toml::Value::get` with a string key: the entry of a table, `None` for other values.
pub open spec fn value_get(v: TomlValue, key: Seq<char>) -> Option<TomlValue> {
    match v {
        TomlValue::Table(entries) => entries_lookup(entries@, key),
        _ => None,
    }
}

/// Looks up `key` in a table value.
pub fn toml_get<'a>(v: &'a TomlValue, key: &str) -> (r: Option<&'a TomlValue>)
    ensures
        match r {
            Some(x) => value_get(*v, key@) == Some(*x),
            None => value_get(*v, key@) is None,
        },
{
    match v {
        TomlValue::Table(entries) => {
            let n = entries.len();
            let mut i: usize = 0;
            assert(entries@.skip(0) =~= entries@);
            while i < n
                invariant
                    n == entries@.len(),
                    i <= n,
                    value_get(*v, key@) == entries_lookup(entries@, key@),
                    entries_lookup(entries@, key@) == entries_lookup(entries@.skip(i as int), key@),
                decreases n - i,
            {
                assert(entries@.skip(i as int).drop_first() =~= entries@.skip(i + 1));
                assert(entries@.skip(i as int)[0] == entries@[i as int]);
                if str_equal(entries[i].0.as_str(), key) {
                    assert(entries_lookup(entries@.skip(i as int), key@) == Some(entries@[i as int].1));
                    return Some(&entries[i].1);
                }
                i = i + 1;
            }
            assert(entries@.skip(n as int).len() == 0);
            None
        },
        _ => None,
    }
}

} // verus!
