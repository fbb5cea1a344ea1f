//! The configuration document as the library sees it: a table of keys and
//! values, where a value is a string, a number, a list or another table.

use crate::error::ErrorView;
use crate::error::ScriptError;
use crate::text::same_text;
use vstd::prelude::*;

verus! {

/// One value of a configuration document.
#[derive(Debug, PartialEq, Eq)]
pub enum ConfigValue {
    Str(String),
    Int(i64),
    Bool(bool),
    /// A number with a fraction; the number itself is not kept.
    Float,
    /// A date or a time; its parts are not kept.
    Datetime,
    List(Vec<ConfigValue>),
    Table(ConfigTable),
}

/// A table of a configuration document: its keys with their values, in the
/// order in which the document's reader handed them over.
#[derive(Debug, PartialEq, Eq)]
pub struct ConfigTable {
    pub entries: Vec<(String, ConfigValue)>,
}

/// A string read from a document, or the reason why there is none.
pub open spec fn text_outcome(r: Result<String, ScriptError>) -> Result<Seq<char>, ErrorView> {
    match r {
        Ok(s) => Ok(s@),
        Err(e) => Err(e@),
    }
}

/// A list of strings read from a document, or the reason why there is none.
pub open spec fn words_outcome(r: Result<Vec<String>, ScriptError>) -> Result<
    Seq<Seq<char>>,
    ErrorView,
> {
    match r {
        Ok(v) => Ok(v.deep_view()),
        Err(e) => Err(e@),
    }
}

/// The first position at or after `from` whose key is `key`.
pub open spec fn position_from(
    entries: Seq<(String, ConfigValue)>,
    key: Seq<char>,
    from: int,
) -> Option<int>
    decreases entries.len() - from,
{
    if from < 0 || from >= entries.len() {
        None
    } else if entries[from].0@ == key {
        Some(from)
    } else {
        position_from(entries, key, from + 1)
    }
}

/// The string that `value` holds, if it is one.
pub open spec fn text_of(value: ConfigValue) -> Seq<char> {
    match value {
        ConfigValue::Str(s) => s@,
        _ => Seq::empty(),
    }
}

/// The strings of `items`, if every item is a string.
pub open spec fn all_texts(items: Seq<ConfigValue>) -> Option<Seq<Seq<char>>> {
    if forall|i: int| 0 <= i < items.len() ==> (#[trigger] items[i]) is Str {
        Some(items.map_values(|value: ConfigValue| text_of(value)))
    } else {
        None
    }
}

impl ConfigTable {
    /// The value that the table holds under `key`: that of the first entry
    /// with this key.
    pub open spec fn value(self, key: Seq<char>) -> Option<ConfigValue> {
        match position_from(self.entries@, key, 0) {
            Some(i) => Some(self.entries@[i].1),
            None => None,
        }
    }

    /// The string under `key`.
    pub open spec fn text_at(self, key: Seq<char>) -> Result<Seq<char>, ErrorView> {
        match self.value(key) {
            None => Err(ErrorView::MissingField(key)),
            Some(ConfigValue::Str(s)) => Ok(s@),
            Some(_) => Err(ErrorView::TypeMismatch(key)),
        }
    }

    /// The list under `key`.
    pub open spec fn list_at(self, key: Seq<char>) -> Result<Seq<ConfigValue>, ErrorView> {
        match self.value(key) {
            None => Err(ErrorView::MissingField(key)),
            Some(ConfigValue::List(items)) => Ok(items@),
            Some(_) => Err(ErrorView::TypeMismatch(key)),
        }
    }

    /// The list of strings under `key`.
    pub open spec fn texts_at(self, key: Seq<char>) -> Result<Seq<Seq<char>>, ErrorView> {
        match self.list_at(key) {
            Err(e) => Err(e),
            Ok(items) => match all_texts(items) {
                Some(texts) => Ok(texts),
                None => Err(ErrorView::TypeMismatch(key)),
            },
        }
    }

    /// The table under `key`.
    pub open spec fn table_at(self, key: Seq<char>) -> Result<ConfigTable, ErrorView> {
        match self.value(key) {
            None => Err(ErrorView::MissingField(key)),
            Some(ConfigValue::Table(t)) => Ok(t),
            Some(_) => Err(ErrorView::TypeMismatch(key)),
        }
    }

    /// A table without entries.
    pub fn new() -> (table: ConfigTable)
        ensures
            table.entries@.len() == 0,
    {
        ConfigTable { entries: Vec::new() }
    }

    /// Looks `key` up.
    pub fn get(&self, key: &str) -> (found: Option<&ConfigValue>)
        ensures
            match found {
                Some(v) => self.value(key@) == Some(*v),
                None => self.value(key@) is None,
            },
    {
        let mut i: usize = 0;
        while i < self.entries.len()
            invariant
                i <= self.entries@.len(),
                position_from(self.entries@, key@, 0) == position_from(self.entries@, key@, i as int),
            decreases self.entries@.len() - i,
        {
            if same_text(self.entries[i].0.as_str(), key) {
                return Some(&self.entries[i].1);
            }
            i = i + 1;
        }
        None
    }

    /// Reads the string under `key`.
    pub fn get_str(&self, key: &str) -> (r: Result<String, ScriptError>)
        ensures
            text_outcome(r) == self.text_at(key@),
    {
        match self.get(key) {
            None => Err(ScriptError::MissingField(key.to_owned())),
            Some(ConfigValue::Str(s)) => Ok(s.clone()),
            Some(_) => Err(ScriptError::TypeMismatch(key.to_owned())),
        }
    }

    /// Reads the list under `key`.
    pub fn get_list(&self, key: &str) -> (r: Result<&Vec<ConfigValue>, ScriptError>)
        ensures
            match r {
                Ok(items) => self.list_at(key@) == Ok::<Seq<ConfigValue>, ErrorView>(items@),
                Err(e) => self.list_at(key@) == Err::<Seq<ConfigValue>, ErrorView>(e@),
            },
    {
        match self.get(key) {
            None => Err(ScriptError::MissingField(key.to_owned())),
            Some(ConfigValue::List(items)) => Ok(items),
            Some(_) => Err(ScriptError::TypeMismatch(key.to_owned())),
        }
    }

    /// Reads the list of strings under `key`.
    pub fn get_str_list(&self, key: &str) -> (r: Result<Vec<String>, ScriptError>)
        ensures
            words_outcome(r) == self.texts_at(key@),
    {
        let items = match self.get_list(key) {
            Ok(items) => items,
            Err(e) => {
                return Err(e);
            },
        };
        let mut texts: Vec<String> = Vec::new();
        let mut i: usize = 0;
        while i < items.len()
            invariant
                i <= items@.len(),
                self.list_at(key@) == Ok::<Seq<ConfigValue>, ErrorView>(items@),
                forall|j: int| 0 <= j < i ==> (#[trigger] items@[j]) is Str,
                texts.deep_view() == items@.take(i as int).map_values(
                    |value: ConfigValue| text_of(value),
                ),
            decreases items@.len() - i,
        {
            match &items[i] {
                ConfigValue::Str(s) => {
                    let ghost before = texts.deep_view();
                    texts.push(s.clone());
                    proof {
                        assert(texts.deep_view() =~= before.push(s@));
                        assert(items@.take(i + 1).map_values(|value: ConfigValue| text_of(value))
                            =~= before.push(s@));
                    }
                },
                _ => {
                    assert(!(items@[i as int] is Str));
                    return Err(ScriptError::TypeMismatch(key.to_owned()));
                },
            }
            i = i + 1;
        }
        assert(items@.take(i as int) =~= items@);
        Ok(texts)
    }

    /// Reads the table under `key`.
    pub fn get_table(&self, key: &str) -> (r: Result<&ConfigTable, ScriptError>)
        ensures
            match r {
                Ok(t) => self.table_at(key@) == Ok::<ConfigTable, ErrorView>(*t),
                Err(e) => self.table_at(key@) == Err::<ConfigTable, ErrorView>(e@),
            },
    {
        match self.get(key) {
            None => Err(ScriptError::MissingField(key.to_owned())),
            Some(ConfigValue::Table(t)) => Ok(t),
            Some(_) => Err(ScriptError::TypeMismatch(key.to_owned())),
        }
    }
}

} // verus!
