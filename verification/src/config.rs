//! The parsed contents of TOML and JSON manifests, as the library reads
//! them, and the two parser calls that produce them.

use vstd::prelude::*;

use crate::text::same_text;

verus! {

/// A parsed manifest value, holding what the providers read.
///
/// Strings are kept; arrays and tables are kept with their entries in the
/// order the parser's map lists them; numbers, booleans, dates and `null`
/// are all `Other`.
#[derive(Debug)]
pub enum ConfigValue {
    Text(String),
    List(Vec<ConfigValue>),
    Table(Vec<(String, ConfigValue)>),
    Other,
}

/// No two entries of a table share a key.
pub open spec fn keys_distinct(entries: Seq<(String, ConfigValue)>) -> bool {
    forall|i: int, j: int|
        0 <= i < entries.len() && 0 <= j < entries.len() && i != j ==> #[trigger] entries[i].0@
            != #[trigger] entries[j].0@
}

/// Every table in the value, at every depth, has distinct keys.
pub open spec fn well_keyed(v: ConfigValue) -> bool
    decreases v,
{
    match v {
        ConfigValue::Table(entries) => {
            &&& keys_distinct(entries@)
            &&& forall|i: int|
                0 <= i < entries@.len() ==> well_keyed(#[trigger] entries@[i].1)
        },
        ConfigValue::List(items) => forall|i: int|
            0 <= i < items@.len() ==> well_keyed(#[trigger] items@[i]),
        _ => true,
    }
}

/// The index of the first entry whose key is `key`.
pub open spec fn key_index(entries: Seq<(String, ConfigValue)>, key: Seq<char>) -> Option<int>
    decreases entries.len(),
{
    if entries.len() == 0 {
        None
    } else if entries[0].0@ == key {
        Some(0)
    } else {
        match key_index(entries.drop_first(), key) {
            Some(i) => Some(i + 1),
            None => None,
        }
    }
}

pub proof fn lemma_key_index(entries: Seq<(String, ConfigValue)>, key: Seq<char>)
    ensures
        key_index(entries, key) matches Some(i) ==> 0 <= i < entries.len() && entries[i].0@ == key
            && forall|j: int| 0 <= j < i ==> #[trigger] entries[j].0@ != key,
        key_index(entries, key) is None ==> forall|j: int|
            0 <= j < entries.len() ==> #[trigger] entries[j].0@ != key,
    decreases entries.len(),
{
    if entries.len() > 0 {
        lemma_key_index(entries.drop_first(), key);
        if entries[0].0@ != key {
            assert forall|j: int| 1 <= j < entries.len() implies #[trigger] entries[j].0@
                == entries.drop_first()[j - 1].0@ by {}
        }
    }
}

/// The value stored under `key` in a table's entries.
pub open spec fn lookup(entries: Seq<(String, ConfigValue)>, key: Seq<char>) -> Option<ConfigValue> {
    match key_index(entries, key) {
        Some(i) => Some(entries[i].1),
        None => None,
    }
}

/// `Value::get(key)` of the parsers: the entry of a table, nothing on
/// anything else.
pub open spec fn get_field(v: ConfigValue, key: Seq<char>) -> Option<ConfigValue> {
    match v {
        ConfigValue::Table(entries) => lookup(entries@, key),
        _ => None,
    }
}

/// The position of `key` among a table's entries.
pub fn find_key(entries: &Vec<(String, ConfigValue)>, key: &str) -> (r: Option<usize>)
    ensures
        match r {
            Some(i) => key_index(entries@, key@) == Some(i as int),
            None => key_index(entries@, key@) is None,
        },
        r matches Some(i) ==> i < entries@.len() && entries@[i as int].0@ == key@,
{
    let mut i: usize = 0;
    while i < entries.len()
        invariant
            i <= entries@.len(),
            forall|j: int| 0 <= j < i ==> #[trigger] entries@[j].0@ != key@,
        decreases entries@.len() - i,
    {
        if same_text(entries[i].0.as_str(), key) {
            proof {
                lemma_key_index(entries@, key@);
                if key_index(entries@, key@) != Some(i as int) {
                    match key_index(entries@, key@) {
                        Some(k) => {
                            if k < i {
                                assert(entries@[k].0@ != key@);
                            }
                        },
                        None => {
                            assert(entries@[i as int].0@ != key@);
                        },
                    }
                }
            }
            return Some(i);
        }
        i = i + 1;
    }
    proof {
        lemma_key_index(entries@, key@);
        if let Some(k) = key_index(entries@, key@) {
            assert(entries@[k].0@ != key@);
        }
    }
    None
}

/// The value stored under `key` in a table's entries.
pub fn get_entry<'a>(entries: &'a Vec<(String, ConfigValue)>, key: &str) -> (r: Option<
    &'a ConfigValue,
>)
    ensures
        r matches Some(v) ==> lookup(entries@, key@) == Some(*v),
        r is None ==> lookup(entries@, key@) is None,
{
    match find_key(entries, key) {
        Some(i) => Some(&entries[i].1),
        None => None,
    }
}

/// `Value::get(key)`: the entry of a table, nothing on anything else.
pub fn field<'a>(v: &'a ConfigValue, key: &str) -> (r: Option<&'a ConfigValue>)
    ensures
        r matches Some(x) ==> get_field(*v, key@) == Some(*x),
        r is None ==> get_field(*v, key@) is None,
{
    match v {
        ConfigValue::Table(entries) => get_entry(entries, key),
        _ => None,
    }
}

// ---------------------------------------------------------------------
// The parsers
// ---------------------------------------------------------------------

#[verifier::external_type_specification]
#[verifier::external_body]
pub struct ExTomlValue(toml::Value);

#[verifier::external_type_specification]
#[verifier::external_body]
pub struct ExJsonValue(serde_json::Value);

/// What `toml::from_str::<toml::Value>` makes of a document: its value in
/// the library's model, or the text of the parser's error.
pub uninterp spec fn toml_document(source: Seq<char>) -> Result<ConfigValue, Seq<char>>;

/// What `serde_json::from_str::<serde_json::Value>` makes of a text: its
/// value in the library's model, or nothing where it is not valid JSON.
pub uninterp spec fn json_document(source: Seq<char>) -> Option<ConfigValue>;

/// Moves a parsed TOML value into the library's model, one for one:
/// strings to `Text`, arrays to `List`, tables to `Table` in the order the
/// crate's map iterates them, every other scalar to `Other`.
#[verifier::external_body]
fn model_of_toml(value: toml::Value) -> ConfigValue {
    match value {
        toml::Value::String(s) => ConfigValue::Text(s),
        toml::Value::Array(items) => ConfigValue::List(items.into_iter().map(model_of_toml).collect()),
        toml::Value::Table(table) => ConfigValue::Table(
            table.into_iter().map(|(key, item)| (key, model_of_toml(item))).collect(),
        ),
        toml::Value::Integer(_) => ConfigValue::Other,
        toml::Value::Float(_) => ConfigValue::Other,
        toml::Value::Boolean(_) => ConfigValue::Other,
        toml::Value::Datetime(_) => ConfigValue::Other,
    }
}

/// Moves a parsed JSON value into the library's model, one for one:
/// strings to `Text`, arrays to `List`, objects to `Table` in the order the
/// crate's map iterates them, every other value to `Other`.
#[verifier::external_body]
fn model_of_json(value: serde_json::Value) -> ConfigValue {
    match value {
        serde_json::Value::String(s) => ConfigValue::Text(s),
        serde_json::Value::Array(items) => ConfigValue::List(items.into_iter().map(model_of_json).collect()),
        serde_json::Value::Object(map) => ConfigValue::Table(
            map.into_iter().map(|(key, item)| (key, model_of_json(item))).collect(),
        ),
        serde_json::Value::Null => ConfigValue::Other,
        serde_json::Value::Bool(_) => ConfigValue::Other,
        serde_json::Value::Number(_) => ConfigValue::Other,
    }
}

/// Parses a TOML document.
///
/// Trusted: `toml::from_str::<toml::Value>`. Its result is named
/// (`toml_document`) and depends on the text alone; on failure the error is
/// the parser's message. Tables are `toml::map::Map`s, so their keys are
/// distinct. Nothing more of the parser is stated.
#[verifier::external_body]
pub(crate) fn parse_toml(source: &str) -> (r: Result<ConfigValue, String>)
    ensures
        match r {
            Ok(v) => toml_document(source@) == Ok::<ConfigValue, Seq<char>>(v),
            Err(e) => toml_document(source@) == Err::<ConfigValue, Seq<char>>(e@),
        },
        r matches Ok(v) ==> well_keyed(v),
{
    match toml::from_str::<toml::Value>(source) {
        Ok(value) => Ok(model_of_toml(value)),
        Err(error) => Err(error.to_string()),
    }
}

/// Parses a JSON text.
///
/// Trusted: `serde_json::from_str::<serde_json::Value>`, with its error
/// dropped. Its result is named (`json_document`) and depends on the text
/// alone. Objects are `serde_json::Map`s, so their keys are distinct.
/// Nothing more of the parser is stated.
#[verifier::external_body]
pub(crate) fn parse_json(source: &str) -> (r: Option<ConfigValue>)
    ensures
        r == json_document(source@),
        r matches Some(v) ==> well_keyed(v),
{
    serde_json::from_str::<serde_json::Value>(source).ok().map(model_of_json)
}

} // verus!
