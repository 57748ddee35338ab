//! The values that the HTTP interface reads and answers, and the reading of
//! a document upload.
use vstd::prelude::*;
use crate::error::{EnzinError, ErrorView};
use crate::json::JsonValue;

verus! {

/// The body of a request to create an index.
#[derive(Debug)]
pub struct CreateIndexRequest {
    pub name: String,
}

/// The answer to a created index: its name and when it was created (RFC 3339).
#[derive(Debug)]
pub struct CreateIndexResponse {
    pub name: String,
    pub created_at: String,
}

/// The answer to a listing of the indexes.
#[derive(Debug)]
pub struct ListIndexesResponse {
    pub indexes: Vec<String>,
}

/// The answer to a deleted index.
#[derive(Debug)]
pub struct DeleteIndexResponse {
    pub deleted: String,
}

/// The answer to an upload of documents: how many were indexed.
#[derive(Debug)]
pub struct IndexDocumentsResponse {
    pub indexed: usize,
}

pub open spec fn not_documents_message() -> Seq<char> {
    "expected object or array of objects"@
}

/// The documents of an upload: an array is a batch of documents, an object
/// is a single document; anything else is refused.
pub fn documents_in_body(parsed: JsonValue) -> (r: Result<Vec<JsonValue>, EnzinError>)
    ensures
        match parsed {
            JsonValue::Array(items) => r matches Ok(docs) && docs == items,
            JsonValue::Object(_) => r matches Ok(docs) && docs@ == seq![parsed],
            _ => r matches Err(e) && e@ == ErrorView::InvalidDocument(not_documents_message()),
        },
{
    proof { reveal_strlit("expected object or array of objects"); }
    match parsed {
        JsonValue::Array(items) => Ok(items),
        JsonValue::Object(members) => Ok(vec![JsonValue::Object(members)]),
        _ => Err(EnzinError::InvalidDocument(String::from_str("expected object or array of objects"))),
    }
}

} // verus!
