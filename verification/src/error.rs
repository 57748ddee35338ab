use vstd::prelude::*;

verus! {

/// The errors that the engine and its HTTP surface report.
#[derive(Debug)]
pub enum EnzinError {
    IndexNotFound(String),
    InvalidDocument(String),
    InternalError(String),
}

/// The mathematical value of an [`EnzinError`]: its kind and its message.
pub enum ErrorView {
    IndexNotFound(Seq<char>),
    InvalidDocument(Seq<char>),
    InternalError(Seq<char>),
}

impl View for EnzinError {
    type V = ErrorView;

    open spec fn view(&self) -> ErrorView {
        match self {
            EnzinError::IndexNotFound(m) => ErrorView::IndexNotFound(m@),
            EnzinError::InvalidDocument(m) => ErrorView::InvalidDocument(m@),
            EnzinError::InternalError(m) => ErrorView::InternalError(m@),
        }
    }
}

/// The HTTP status that answers an error of this kind.
pub open spec fn status_of(e: ErrorView) -> u16 {
    match e {
        ErrorView::IndexNotFound(_) => 404,
        ErrorView::InvalidDocument(_) => 400,
        ErrorView::InternalError(_) => 500,
    }
}

/// The machine-readable error type that the response body carries.
pub open spec fn error_type_of(e: ErrorView) -> Seq<char> {
    match e {
        ErrorView::IndexNotFound(_) => "index_not_found"@,
        ErrorView::InvalidDocument(_) => "invalid_document"@,
        ErrorView::InternalError(_) => "internal_error"@,
    }
}

/// The human-readable message of an error.
pub open spec fn message_of(e: ErrorView) -> Seq<char> {
    match e {
        ErrorView::IndexNotFound(m) => m,
        ErrorView::InvalidDocument(m) => m,
        ErrorView::InternalError(m) => m,
    }
}

/// What an error response is made of: the status code, and the body's
/// `error` and `message` members.
pub struct ErrorResponse {
    pub status: u16,
    pub error: String,
    pub message: String,
}

impl EnzinError {
    /// Turns the error into the parts of its HTTP response.
    pub fn into_response_parts(self) -> (r: ErrorResponse)
        ensures
            r.status == status_of(self@),
            r.error@ == error_type_of(self@),
            r.message@ == message_of(self@),
    {
        proof {
            reveal_strlit("index_not_found");
            reveal_strlit("invalid_document");
            reveal_strlit("internal_error");
        }
        match self {
            EnzinError::IndexNotFound(msg) => ErrorResponse {
                status: 404,
                error: String::from_str("index_not_found"),
                message: msg,
            },
            EnzinError::InvalidDocument(msg) => ErrorResponse {
                status: 400,
                error: String::from_str("invalid_document"),
                message: msg,
            },
            EnzinError::InternalError(msg) => ErrorResponse {
                status: 500,
                error: String::from_str("internal_error"),
                message: msg,
            },
        }
    }
}

/// Whether `s` begins with `prefix`.
pub open spec fn starts_with(s: Seq<char>, prefix: Seq<char>) -> bool {
    prefix.len() <= s.len() && s.subrange(0, prefix.len() as int) == prefix
}

/// Builds `prefix + rest`.
pub fn prefixed(prefix: &str, rest: &str) -> (r: String)
    ensures
        r@ == prefix@ + rest@,
        starts_with(r@, prefix@),
{
    let mut r = String::from_str(prefix);
    r.append(rest);
    assert(r@.subrange(0, prefix@.len() as int) =~= prefix@);
    r
}

/// Builds `prefix + middle + suffix`.
pub fn join3(prefix: &str, middle: &str, suffix: &str) -> (r: String)
    ensures
        r@ == prefix@ + middle@ + suffix@,
{
    let mut r = String::from_str(prefix);
    r.append(middle);
    r.append(suffix);
    r
}

} // verus!
