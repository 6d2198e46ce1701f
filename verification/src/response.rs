//! Response shapes of the listing API: pagination options carried on a list
//! response, the list envelope, and the error envelope.

use vstd::prelude::*;

verus! {

/// Pagination options: on a request, the cursor (`next`) and requested page
/// size (`limit`); on a response, also whether more pages exist.
pub struct PaginationOptions {
    pub has_next: Option<bool>,
    pub next: Option<String>,
    pub limit: Option<u32>,
}

/// The page size applied when a request names none.
pub fn default_pagination_limit() -> (r: Option<u32>)
    ensures
        r == Some(10u32),
{
    Some(10)
}

/// A page of records together with its pagination state.
pub struct ListResponse<T> {
    pub data: Vec<T>,
    pub pagination: PaginationOptions,
}

/// The error envelope: either field-addressed messages, keyed by the logical
/// input field each concerns, or a single global message.
pub struct ErrorResponse {
    pub errors: Option<Vec<(String, String)>>,
    pub error: Option<String>,
}

/// The mathematical content of an `ErrorResponse`.
pub struct ErrorResponseView {
    pub errors: Option<Seq<(Seq<char>, Seq<char>)>>,
    pub error: Option<Seq<char>>,
}

impl View for ErrorResponse {
    type V = ErrorResponseView;

    open spec fn view(&self) -> ErrorResponseView {
        ErrorResponseView {
            errors: match self.errors {
                Some(es) => Some(es@.map_values(|p: (String, String)| (p.0@, p.1@))),
                None => None,
            },
            error: match self.error {
                Some(e) => Some(e@),
                None => None,
            },
        }
    }
}

impl ErrorResponse {
    /// An envelope holding one global message and no field errors.
    pub fn create_error(error_message: &'static str) -> (r: ErrorResponse)
        ensures
            r.errors is None,
            r.error matches Some(m) && m@ == error_message@,
    {
        ErrorResponse { errors: None, error: Some(error_message.to_owned()) }
    }
}

} // verus!
