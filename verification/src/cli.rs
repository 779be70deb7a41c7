//! The server's options: which store to use, where, and what to keep track of.

use vstd::prelude::*;
use vstd::utf8::is_ascii_chars;

verus! {

/// The kind of store that holds the translations.
#[derive(Debug, Clone, Copy, PartialEq, Eq, Structural, Default)]
pub enum StoreType {
    /// A `redb` database file.
    #[default]
    Redb,
}

/// The lowercase form of `text`, as `str::to_lowercase` gives it (by Unicode's rules).
pub uninterp spec fn lowercase(text: Seq<char>) -> Seq<char>;

/// Whether `c` is an ASCII capital letter.
pub open spec fn is_ascii_capital(c: char) -> bool {
    65 <= (c as u32) <= 90
}

/// `text` with each ASCII capital letter made small, other characters kept.
pub open spec fn ascii_lowercase(text: Seq<char>) -> Seq<char> {
    Seq::new(
        text.len(),
        |i: int|
            if is_ascii_capital(text[i]) {
                ((text[i] as u32) + 32) as char
            } else {
                text[i]
            },
    )
}

/// Wraps `str::to_lowercase`: the lowercase form of `text`. For ASCII text it is the
/// ASCII lowercase form: std documents `str::to_ascii_lowercase` as the ASCII-only case
/// of this mapping, and Unicode's lowercase mapping of `A`..=`Z` is `a`..=`z`.
#[verifier::external_body]
fn to_lowercase(text: &str) -> (lower: String)
    ensures
        lower@ == lowercase(text@),
        is_ascii_chars(text@) ==> lower@ == ascii_lowercase(text@),
{
    text.to_lowercase()
}

/// The message for a store type that is not known.
pub open spec fn invalid_store_type_text(text: Seq<char>) -> Seq<char> {
    "Invalid store type: "@ + text
}

/// The name of a store type.
pub open spec fn store_type_name(t: StoreType) -> Seq<char> {
    match t {
        StoreType::Redb => "redb"@,
    }
}

/// What `StoreType::from_str` owes for `text`: `Redb` where the lowercase form of `text`
/// is `redb` (for ASCII text, its ASCII lowercase form), else a message that quotes `text`.
pub open spec fn parsed_from(text: Seq<char>, parsed: Result<StoreType, String>) -> bool {
    &&& lowercase(text) == "redb"@ ==> parsed == Ok::<StoreType, String>(StoreType::Redb)
    &&& lowercase(text) != "redb"@ ==> (parsed matches Err(message) && message@ == invalid_store_type_text(text))
    &&& is_ascii_chars(text) ==> (parsed == Ok::<StoreType, String>(StoreType::Redb) <==> ascii_lowercase(text)
        == "redb"@)
}

/// A store type's name parses back to it: `from_str` of `t.to_string()` is `Ok(t)`.
pub proof fn law_store_type_round_trip(t: StoreType, parsed: Result<StoreType, String>)
    requires
        parsed_from(store_type_name(t), parsed),
    ensures
        parsed == Ok::<StoreType, String>(t),
{
    reveal_strlit("redb");
    let name = store_type_name(t);
    assert(name =~= seq!['r', 'e', 'd', 'b']);
    assert(is_ascii_chars(name));
    assert(ascii_lowercase(name) =~= name);
}

impl StoreType {
    /// The name of the store type: `redb`.
    pub fn to_string(&self) -> (text: String)
        ensures
            text@ == store_type_name(*self),
    {
        match self {
            StoreType::Redb => String::from_str("redb"),
        }
    }

    /// The store type named `text`, whose lowercase form is `lowered`: `redb` names
    /// `Redb`; any other name is refused with a message that quotes `text`.
    pub fn from_lowercased(text: &str, lowered: &str) -> (parsed: Result<StoreType, String>)
        ensures
            lowered@ == "redb"@ ==> parsed == Ok::<StoreType, String>(StoreType::Redb),
            lowered@ != "redb"@ ==> (parsed matches Err(message) && message@ == invalid_store_type_text(text@)),
    {
        if String::from_str(lowered) == String::from_str("redb") {
            Ok(StoreType::Redb)
        } else {
            let mut message = String::from_str("Invalid store type: ");
            message.append(text);
            Err(message)
        }
    }

    /// The store type named `text`, in any case: `redb` names `Redb`; any other name is
    /// refused with the message `Invalid store type: <text>`.
    pub fn from_str(text: &str) -> (parsed: Result<StoreType, String>)
        ensures
            parsed_from(text@, parsed),
    {
        let lowered = to_lowercase(text);
        StoreType::from_lowercased(text, lowered.as_str())
    }
}

/// The server's options.
#[derive(Debug, Clone)]
pub struct Args {
    /// The port to listen on.
    pub port: u16,
    /// The kind of store for the translations.
    pub store: StoreType,
    /// Where the store is; `translation.rdb` if not given.
    pub store_url: Option<String>,
    /// How many translations the cache holds.
    pub cache_capacity: usize,
    /// Where the SQLite database for issues and change logs is; `sqlite.db` if not given.
    pub sqlite_url: Option<String>,
    /// Whether to keep track of issues.
    pub issue: bool,
    /// Whether to keep change logs.
    pub changelog: bool,
}

/// The store's location: the one given, else `translation.rdb`.
pub open spec fn store_location(given: Option<String>) -> Seq<char> {
    match given {
        Some(url) => url@,
        None => "translation.rdb"@,
    }
}

/// The SQLite database's location: the one given, else `sqlite.db`.
pub open spec fn sqlite_location(given: Option<String>) -> Seq<char> {
    match given {
        Some(url) => url@,
        None => "sqlite.db"@,
    }
}

/// A location that is given is used as given, whatever it holds (a relative path, a
/// URL); only where none is given does the default stand.
pub proof fn law_given_location_is_used(url: String)
    ensures
        store_location(Some(url)) == url@,
        sqlite_location(Some(url)) == url@,
{
}

impl Args {
    /// Where the store is: `store_url`, else `translation.rdb`.
    pub fn store_path(&self) -> (path: String)
        ensures
            path@ == store_location(self.store_url),
            self.store_url matches Some(url) ==> path@ == url@,
    {
        match &self.store_url {
            Some(url) => url.clone(),
            None => String::from_str("translation.rdb"),
        }
    }

    /// Where the SQLite database is: `sqlite_url`, else `sqlite.db`.
    pub fn sqlite_path(&self) -> (path: String)
        ensures
            path@ == sqlite_location(self.sqlite_url),
            self.sqlite_url matches Some(url) ==> path@ == url@,
    {
        match &self.sqlite_url {
            Some(url) => url.clone(),
            None => String::from_str("sqlite.db"),
        }
    }
}

} // verus!
