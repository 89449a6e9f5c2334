//! The errors that the operations on the stored problem report.

use vstd::prelude::*;

verus! {

/// The body of an error reply.
#[derive(Debug)]
pub struct ErrorResponse {
    pub error: String,
}

/// What can go wrong in an operation on the stored problem.
#[derive(Clone, Copy, Debug, PartialEq, Eq, Structural)]
pub enum ApiError {
    ItemNotFound,
    MemberNotFound,
    InvalidInput,
    UnexpectedError,
}

impl ApiError {
    /// The status code of the reply: 404 for what was not found, 400 for
    /// invalid input, 500 for anything unexpected.
    pub open spec fn status(self) -> u16 {
        match self {
            ApiError::ItemNotFound => 404,
            ApiError::MemberNotFound => 404,
            ApiError::InvalidInput => 400,
            ApiError::UnexpectedError => 500,
        }
    }

    /// The message of the reply.
    pub open spec fn message(self) -> Seq<char> {
        match self {
            ApiError::ItemNotFound => "Item not found"@,
            ApiError::MemberNotFound => "Member not found"@,
            ApiError::InvalidInput => "Invalid input"@,
            ApiError::UnexpectedError => "Unexpected error"@,
        }
    }

    /// The reply that reports the error: its status code and its body.
    pub fn into_response(self) -> (r: (u16, ErrorResponse))
        ensures
            r.0 == self.status(),
            r.1.error@ == self.message(),
    {
        let (status, error_message) = match self {
            ApiError::ItemNotFound => (404u16, "Item not found"),
            ApiError::MemberNotFound => (404u16, "Member not found"),
            ApiError::InvalidInput => (400u16, "Invalid input"),
            ApiError::UnexpectedError => (500u16, "Unexpected error"),
        };
        (status, ErrorResponse { error: error_message.to_owned() })
    }
}

} // verus!
