//! The failures a request can end in, and what each one tells the caller.

use vstd::prelude::*;

verus! {

/// Why a request could not be answered.
#[derive(Debug, Clone, PartialEq, Eq)]
pub enum AppError {
    /// The caller left out the `q` parameter.
    MissingDomainParam,
    /// The log source answered with something that is not a list of records.
    BadResponse,
    /// Anything else, the log source being out of reach included. The text
    /// is the cause, for the server's own log.
    InternalServerError(String),
}

/// What the caller gets to see of a failure: an HTTP status and a fixed
/// message for the `error` field of the body.
#[derive(Debug, Clone, Copy, PartialEq, Eq)]
pub struct ErrorResponse {
    pub status: u16,
    pub error: &'static str,
}

/// The status for a request that the caller got wrong.
pub const BAD_REQUEST: u16 = 400;

/// The status for a failure on the server's side.
pub const INTERNAL_SERVER_ERROR: u16 = 500;

impl AppError {
    /// The HTTP status that goes with the failure.
    pub open spec fn status_code(self) -> u16 {
        match self {
            AppError::MissingDomainParam => BAD_REQUEST,
            AppError::BadResponse => BAD_REQUEST,
            AppError::InternalServerError(_) => INTERNAL_SERVER_ERROR,
        }
    }

    /// The message that goes with the failure. It never depends on the
    /// cause of an internal error.
    pub open spec fn message(self) -> Seq<char> {
        match self {
            AppError::MissingDomainParam => "missing q parameter"@,
            AppError::BadResponse => "bad response"@,
            AppError::InternalServerError(_) => "internal server error"@,
        }
    }

    /// Turns the failure into what the caller is told. The cause of an
    /// internal error is dropped here.
    pub fn into_response(self) -> (response: ErrorResponse)
        ensures
            response.status == self.status_code(),
            response.error@ == self.message(),
    {
        match self {
            AppError::MissingDomainParam => ErrorResponse {
                status: BAD_REQUEST,
                error: "missing q parameter",
            },
            AppError::BadResponse => ErrorResponse { status: BAD_REQUEST, error: "bad response" },
            AppError::InternalServerError(_) => ErrorResponse {
                status: INTERNAL_SERVER_ERROR,
                error: "internal server error",
            },
        }
    }
}

} // verus!
