//! The interface of a translation store: values keyed by locale and key,
//! and the outcomes that a store reports.

use vstd::prelude::*;

verus! {

/// A store of translated values. A value is kept under a locale and a key
/// (`locale:namespace.key` in the usual naming).
///
/// A store may say, by its own spec functions, which answers its reads and writes give;
/// by default it says nothing (every answer is allowed).
pub trait KVStore: Sized {
    /// Whether `result` is an answer of this store to a read of (`locale`, `key`).
    closed spec fn answers_get(&self, locale: Seq<char>, key: Seq<char>, result: Result<Option<String>, StoreError>) -> bool {
        true
    }

    /// Whether `result`, with `after` as the store afterwards, is an answer of this store
    /// to a write of `value` under (`locale`, `key`).
    closed spec fn answers_set(
        &self,
        after: Self,
        locale: Seq<char>,
        key: Seq<char>,
        value: Seq<char>,
        result: Result<ValueState, StoreError>,
    ) -> bool {
        true
    }

    /// Writes `value` under (`locale`, `key`).
    fn set(&mut self, locale: &str, key: &str, value: &str) -> (result: Result<ValueState, StoreError>)
        ensures
            old(self).answers_set(*final(self), locale@, key@, value@, result),
    ;

    /// Reads the value under (`locale`, `key`).
    fn get(&self, locale: &str, key: &str) -> (result: Result<Option<String>, StoreError>)
        ensures
            self.answers_get(locale@, key@, result),
    ;

    /// Removes the value under (`locale`, `key`) and hands it back.
    fn delete(&mut self, locale: &str, key: &str) -> Result<String, StoreError>;

    /// Removes a locale with all its values.
    fn delete_locale(&mut self, locale: &str) -> Result<(), StoreError>;
}

/// Why a store refused a request.
#[derive(Debug)]
pub enum StoreError {
    /// The locale does not exist.
    LocaleNotExist(String),
    /// The key does not exist in the locale: (locale, key).
    LocaleKeyNotExist(String, String),
    /// The store's backend failed; the text says how.
    Backend(String),
}

/// What a write did to the value that was there.
#[derive(Debug)]
pub enum ValueState {
    /// No value was there.
    Created,
    /// A value was replaced; it is the old value.
    Updated(String),
    /// A value was removed; it is the old value.
    Deleted(String),
}

/// The text of the message that describes an error.
pub open spec fn store_error_text(e: StoreError) -> Seq<char> {
    match e {
        StoreError::LocaleNotExist(locale) => "Locale '"@ + locale@ + "' does not exist"@,
        StoreError::LocaleKeyNotExist(locale, key) => "Key '"@ + key@ + "' in locale '"@ + locale@
            + "' does not exist"@,
        StoreError::Backend(text) => text@,
    }
}

/// The message of a missing locale names the whole locale, and that of a missing key
/// names the whole key and the whole locale, each between quotes.
pub proof fn law_store_error_text_parts(locale: String, key: String)
    ensures
        store_error_text(StoreError::LocaleNotExist(locale)).len() == locale@.len() + 24,
        store_error_text(StoreError::LocaleNotExist(locale)).subrange(8, (locale@.len() + 8) as int)
            == locale@,
        store_error_text(StoreError::LocaleKeyNotExist(locale, key)).len() == key@.len()
            + locale@.len() + 34,
        store_error_text(StoreError::LocaleKeyNotExist(locale, key)).subrange(5, (key@.len() + 5) as int)
            == key@,
        store_error_text(StoreError::LocaleKeyNotExist(locale, key)).subrange(
            (key@.len() + 18) as int,
            (key@.len() + locale@.len() + 18) as int,
        ) == locale@,
{
    reveal_strlit("Locale '");
    reveal_strlit("' does not exist");
    reveal_strlit("Key '");
    reveal_strlit("' in locale '");
    let t = store_error_text(StoreError::LocaleNotExist(locale));
    assert(t.subrange(8, (locale@.len() + 8) as int) =~= locale@);
    let u = store_error_text(StoreError::LocaleKeyNotExist(locale, key));
    assert(u.subrange(5, (key@.len() + 5) as int) =~= key@);
    assert(u.subrange((key@.len() + 18) as int, (key@.len() + locale@.len() + 18) as int) =~= locale@);
}

impl StoreError {
    /// The message that describes this error.
    pub fn message(&self) -> (text: String)
        ensures
            text@ == store_error_text(*self),
    {
        match self {
            StoreError::LocaleNotExist(locale) => {
                let mut text = String::from_str("Locale '");
                text.append(locale.as_str());
                text.append("' does not exist");
                text
            },
            StoreError::LocaleKeyNotExist(locale, key) => {
                let mut text = String::from_str("Key '");
                text.append(key.as_str());
                text.append("' in locale '");
                text.append(locale.as_str());
                text.append("' does not exist");
                text
            },
            StoreError::Backend(text) => text.clone(),
        }
    }
}

impl ValueState {
    /// The outcome of writing a value where `previous` was the value there before.
    pub fn after_write(previous: Option<String>) -> (state: ValueState)
        ensures
            match previous {
                Some(old) => state == ValueState::Updated(old),
                None => state == ValueState::Created,
            },
    {
        match previous {
            Some(old) => ValueState::Updated(old),
            None => ValueState::Created,
        }
    }
}

/// The outcome of reading a key of `locale`: `table` is `None` where the locale does
/// not exist, else what it holds under the key.
pub fn read_outcome(locale: &str, table: Option<Option<String>>) -> (result: Result<Option<String>, StoreError>)
    ensures
        match table {
            Some(value) => result == Ok::<Option<String>, StoreError>(value),
            None => result matches Err(StoreError::LocaleNotExist(l)) && l@ == locale@,
        },
{
    match table {
        Some(value) => Ok(value),
        None => Err(StoreError::LocaleNotExist(String::from_str(locale))),
    }
}

/// The outcome of removing `key` from `locale`, where `removed` is the value that was
/// taken out, if any.
pub fn removal_outcome(locale: &str, key: &str, removed: Option<String>) -> (result: Result<String, StoreError>)
    ensures
        match removed {
            Some(value) => result == Ok::<String, StoreError>(value),
            None => result matches Err(StoreError::LocaleKeyNotExist(l, k)) && l@ == locale@ && k@
                == key@,
        },
{
    match removed {
        Some(value) => Ok(value),
        None => Err(StoreError::LocaleKeyNotExist(String::from_str(locale), String::from_str(key))),
    }
}

} // verus!
