//! The error taxonomy of the query layer, and its exhaustive mapping onto
//! transport status codes and error envelopes. Classification happens here,
//! once, before a result crosses into the transport layer.

use vstd::prelude::*;

use crate::constraint::{constraint_mapping, map_constraint};
use crate::response::{ErrorResponse, ErrorResponseView};

verus! {

/// What the query layer reads of a storage error: the SQLSTATE code when
/// the storage engine reported one, and the violated constraint's
/// identifier when the error names one.
pub struct DbErrorInfo {
    pub code: Option<String>,
    pub constraint: Option<String>,
}

/// The failure classes of the query layer.
pub enum AppError {
    /// An internal failure with no detail for the caller.
    UnexpectedError,
    /// An internal failure described by a message.
    FatalError(String),
    /// A storage-layer error, classified when mapped to a response.
    DBError(DbErrorInfo),
    /// Upstream validation findings, one message per field.
    ValidationErrors(Vec<(String, String)>),
    /// A prepared error envelope.
    ErrorResponse(ErrorResponse),
    /// A referenced resource is absent.
    NotFound(String),
}

/// The envelope view of field-message pairs.
pub open spec fn pairs_view(pairs: Seq<(String, String)>) -> Seq<(Seq<char>, Seq<char>)> {
    pairs.map_values(|p: (String, String)| (p.0@, p.1@))
}

/// The status and envelope owed for a storage-layer error: a uniqueness
/// violation with a recognized identifier becomes a field-addressed
/// message; one with an unrecognized identifier an opaque client error;
/// anything else an opaque internal failure.
pub open spec fn db_response_of(info: DbErrorInfo) -> (int, ErrorResponseView) {
    match info.code {
        Some(c) => if c@ == "23505"@ {
            match info.constraint {
                Some(k) => match constraint_mapping(k@) {
                    Some(pair) => (
                        400,
                        ErrorResponseView { errors: Some(seq![pair]), error: None },
                    ),
                    None => (
                        400,
                        ErrorResponseView { errors: None, error: Some("Unexpected error"@) },
                    ),
                },
                None => (
                    400,
                    ErrorResponseView { errors: None, error: Some("Unexpected error"@) },
                ),
            }
        } else {
            (500, ErrorResponseView { errors: None, error: Some("Unexpected error"@) })
        },
        None => (500, ErrorResponseView { errors: None, error: Some("Failed to proceed"@) }),
    }
}

/// The status and envelope owed for each failure class.
pub open spec fn response_of(e: AppError) -> (int, ErrorResponseView) {
    match e {
        AppError::UnexpectedError => (
            500,
            ErrorResponseView { errors: None, error: Some("something went wrong"@) },
        ),
        AppError::FatalError(s) => (
            500,
            ErrorResponseView { errors: None, error: Some(s@) },
        ),
        AppError::DBError(info) => db_response_of(info),
        AppError::ValidationErrors(pairs) => (
            400,
            ErrorResponseView { errors: Some(pairs_view(pairs@)), error: None },
        ),
        AppError::ErrorResponse(er) => (400, er@),
        AppError::NotFound(m) => (404, ErrorResponseView { errors: None, error: Some(m@) }),
    }
}

impl AppError {
    /// Maps this failure onto its transport status code and error envelope,
    /// by an exhaustive switch over the failure classes.
    pub fn into_response(self) -> (r: (u16, ErrorResponse))
        ensures
            r.0 as int == response_of(self).0,
            r.1@ == response_of(self).1,
    {
        match self {
            AppError::UnexpectedError => (
                500,
                ErrorResponse { errors: None, error: Some("something went wrong".to_owned()) },
            ),
            AppError::FatalError(s) => (500, ErrorResponse { errors: None, error: Some(s) }),
            AppError::DBError(info) => {
                let unique_violation = "23505".to_owned();
                match info.code {
                    Some(c) => if c == unique_violation {
                        match info.constraint {
                            Some(k) => match map_constraint(k.as_str()) {
                                Some((field, message)) => {
                                    let mut errors: Vec<(String, String)> = Vec::new();
                                    errors.push((field, message));
                                    let body = ErrorResponse {
                                        errors: Some(errors),
                                        error: None,
                                    };
                                    assert(body@.errors matches Some(es) && es
                                        =~= seq![constraint_mapping(k@)->0]);
                                    (400, body)
                                },
                                None => (400, ErrorResponse::create_error("Unexpected error")),
                            },
                            None => (400, ErrorResponse::create_error("Unexpected error")),
                        }
                    } else {
                        (500, ErrorResponse::create_error("Unexpected error"))
                    },
                    None => (500, ErrorResponse::create_error("Failed to proceed")),
                }
            },
            AppError::ValidationErrors(pairs) => (
                400,
                ErrorResponse { errors: Some(pairs), error: None },
            ),
            AppError::ErrorResponse(er) => (400, er),
            AppError::NotFound(m) => (404, ErrorResponse { errors: None, error: Some(m) }),
        }
    }
}

/// The failure class for an error of a collaborator whose detail the
/// caller must not see.
pub fn internal_error() -> (r: AppError)
    ensures
        r is UnexpectedError,
{
    AppError::UnexpectedError
}

} // verus!
