# midlang

The core of a translation service, verified with Verus.

- `src/` is the library. `translation` serves values through a least-recently-used
  cache (`cache`, over `lru::LruCache`) in front of a `store::KVStore`; a value (or a
  locale) missing from the store comes back as an issue, which `translation::answer`
  reports to an `IssueCollector`. `internals` keeps issues
  (`issue`, counted per event in an `scc::HashMap` and batched into rows), change logs,
  the worker's decisions, cursors for paging (`query::pagination`, base64 text), and
  the file behind the SQLite database's location (created where missing). `cli` holds the server's options.
- `app/` is the server around it: clap, redb, SQLite through sqlx, tokio and axum.
- `tests/` runs the library on concrete values.
