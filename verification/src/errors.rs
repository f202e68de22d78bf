//! Errors of client operations.

use vstd::prelude::*;

verus! {

/// Errors of client operations.
pub enum TorcError {
    ApiError(String),
    CommandFailed(String),
    OperationNotAllowed(String),
}

impl TorcError {
    /// The message shown for the error.
    pub fn message(&self) -> (r: String)
        ensures
            r@ == match self {
                TorcError::ApiError(m) => "API error: "@ + m@,
                TorcError::CommandFailed(m) => "Command failed: "@ + m@,
                TorcError::OperationNotAllowed(m) => "Operation not allowed: "@ + m@,
            },
    {
        match self {
            TorcError::ApiError(m) => {
                let mut s = crate::text::string_from("API error: ");
                crate::text::append_str(&mut s, m.as_str());
                s
            },
            TorcError::CommandFailed(m) => {
                let mut s = crate::text::string_from("Command failed: ");
                crate::text::append_str(&mut s, m.as_str());
                s
            },
            TorcError::OperationNotAllowed(m) => {
                let mut s = crate::text::string_from("Operation not allowed: ");
                crate::text::append_str(&mut s, m.as_str());
                s
            },
        }
    }
}

} // verus!
