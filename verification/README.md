# enzin

A small full-text search engine built on tantivy, written in Verus.

- `src/` is the verified library: the registry of named indexes
  (`index.rs`), schema inference from JSON documents (`schema.rs`), query
  planning, pagination and result assembly (`search.rs`), the JSON model
  (`json.rs`), errors and their HTTP parts (`error.rs`), and the request and
  response values (`api.rs`). Every call into tantivy goes through the trusted
  items of `bindings.rs`.
- `app/` is the HTTP server (axum, tokio): configuration, the index
  directories on disk, locking, and the conversions to and from serde_json.
- `tests/` runs the library against real tantivy indexes.
