//! Reading a configuration document from TOML text. The `toml` crate does the
//! reading; what it returns is handed over as a `ConfigTable`.

use crate::config::ConfigTable;
use crate::config::ConfigValue;
use crate::error::ScriptError;
use vstd::prelude::*;

verus! {

/// The map of `toml`, of which `toml::Table` is the one from strings to
/// values. Nothing is said of what is in it.
#[verifier::external_type_specification]
#[verifier::external_body]
#[verifier::reject_recursive_types(K)]
#[verifier::reject_recursive_types(V)]
pub struct ExTomlMap<K, V>(toml::map::Map<K, V>);

/// A value of `toml`. Nothing is said of what is in it.
#[verifier::external_type_specification]
#[verifier::external_body]
pub struct ExTomlValue(toml::Value);

/// The error with which `toml` refuses a text. Nothing is said of what is in
/// it.
#[verifier::external_type_specification]
#[verifier::external_body]
pub struct ExTomlError(toml::de::Error);

/// What the `toml` crate reads from `text`: the top table of the document,
/// or `None` where the text is no well-formed TOML.
pub uninterp spec fn toml_document(text: Seq<char>) -> Option<ConfigTable>;

/// Calls `toml`'s `FromStr` for `toml::Table`, that is `str::parse`, and
/// hands the table over with `table_from_toml`. Claims that what comes back
/// depends on the text alone: it is `toml_document` of the text, a table
/// where `toml` takes the text and an error where it refuses it.
#[verifier::external_body]
fn read_toml(text: &str) -> (r: Result<ConfigTable, toml::de::Error>)
    ensures
        match r {
            Ok(table) => toml_document(text@) == Some(table),
            Err(_) => toml_document(text@) is None,
        },
{
    match text.parse::<toml::Table>() {
        Ok(table) => Ok(table_from_toml(&table)),
        Err(e) => Err(e),
    }
}

/// Walks a `toml::Table` with `toml::map::Map::iter` and hands each key over
/// with its value, the value through `value_from_toml`, in the order of the
/// walk. Claims nothing.
#[verifier::external_body]
fn table_from_toml(table: &toml::Table) -> ConfigTable {
    let mut entries = Vec::new();
    for (key, value) in table.iter() {
        entries.push((key.clone(), value_from_toml(value)));
    }
    ConfigTable { entries }
}

/// Tells the variants of `toml::Value` apart and hands the value over as the
/// `ConfigValue` of the same kind: a string, an integer or a truth value
/// with what it holds, a list item by item, a table through
/// `table_from_toml`, and of a float or a date only that it is one. Claims
/// nothing.
#[verifier::external_body]
fn value_from_toml(value: &toml::Value) -> ConfigValue {
    match value {
        toml::Value::String(s) => ConfigValue::Str(s.clone()),
        toml::Value::Integer(n) => ConfigValue::Int(*n),
        toml::Value::Boolean(b) => ConfigValue::Bool(*b),
        toml::Value::Float(_) => ConfigValue::Float,
        toml::Value::Datetime(_) => ConfigValue::Datetime,
        toml::Value::Table(table) => ConfigValue::Table(table_from_toml(table)),
        toml::Value::Array(items) => {
            let mut list = Vec::new();
            for item in items {
                list.push(value_from_toml(item));
            }
            ConfigValue::List(list)
        },
    }
}

/// Calls the `Display` of `toml::de::Error`: the words in which the reader
/// says what is wrong with a text, and where. Claims nothing of them.
#[verifier::external_body]
fn complaint(e: &toml::de::Error) -> String {
    e.to_string()
}

/// The outcome of reading a document, as a mathematical value: the table, or
/// that the text was refused.
pub open spec fn document_outcome(r: Result<ConfigTable, ScriptError>) -> Option<ConfigTable> {
    match r {
        Ok(table) => Some(table),
        Err(_) => None,
    }
}

/// Reads a configuration document from TOML text. Text that is no
/// well-formed TOML is refused with `ScriptError::Syntax`.
pub fn parse_config(text: &str) -> (r: Result<ConfigTable, ScriptError>)
    ensures
        document_outcome(r) == toml_document(text@),
        r matches Err(e) ==> e is Syntax,
{
    match read_toml(text) {
        Ok(table) => Ok(table),
        Err(e) => Err(ScriptError::Syntax(complaint(&e))),
    }
}

} // verus!
