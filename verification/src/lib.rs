//! A small full-text search engine: a registry of named indexes, schema
//! inference from JSON documents, and paginated (optionally fuzzy) search
//! over a tantivy index.

pub mod error;
pub mod json;
pub mod schema;
pub mod bindings;
pub mod search;
pub mod index;
pub mod api;
