//! Where the internal service's SQLite database lives, so that it can be created when
//! it does not exist yet.

use vstd::prelude::*;

verus! {

/// Whether `text` starts with `prefix`.
pub fn starts_with(text: &str, prefix: &str) -> (starts: bool)
    ensures
        starts == prefix@.is_prefix_of(text@),
{
    let n = text.unicode_len();
    let m = prefix.unicode_len();
    if m > n {
        return false;
    }
    let mut i: usize = 0;
    while i < m
        invariant
            n == text@.len(),
            m == prefix@.len(),
            m <= n,
            i <= m,
            forall|j: int| 0 <= j < i ==> #[trigger] prefix@[j] == text@[j],
        decreases m - i,
    {
        if prefix.get_char(i) != text.get_char(i) {
            assert(text@.subrange(0, m as int)[i as int] == text@[i as int]);
            return false;
        }
        i = i + 1;
    }
    assert(prefix@ =~= text@.subrange(0, m as int));
    true
}

/// The file of the database at `url`: the text after `sqlite://` where the location is
/// written as such a URL, else the location itself.
pub open spec fn database_file_text(url: Seq<char>) -> Seq<char> {
    if "sqlite://"@.is_prefix_of(url) {
        url.subrange("sqlite://"@.len() as int, url.len() as int)
    } else {
        url
    }
}

/// A location written as `sqlite://` and a path names the file at that path; any other
/// location names itself.
pub proof fn law_database_file(path: Seq<char>, url: Seq<char>)
    ensures
        database_file_text("sqlite://"@ + path) == path,
        !"sqlite://"@.is_prefix_of(url) ==> database_file_text(url) == url,
{
    let full = "sqlite://"@ + path;
    assert(full.subrange(0, "sqlite://"@.len() as int) =~= "sqlite://"@);
    assert(full.subrange("sqlite://"@.len() as int, full.len() as int) =~= path);
}

/// The file of the database at `url` (see `database_file_text`); where no file exists
/// there, the database is to be created before connecting.
pub fn database_file(url: &str) -> (path: String)
    ensures
        path@ == database_file_text(url@),
{
    let scheme = "sqlite://";
    proof {
        reveal_strlit("sqlite://");
    }
    if starts_with(url, scheme) {
        let n = url.unicode_len();
        String::from_str(url.substring_char(scheme.unicode_len(), n))
    } else {
        String::from_str(url)
    }
}

} // verus!
