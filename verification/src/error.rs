//! The application's error type.  Every fallible function of the crate
//! reports one of these variants; the contracts state exactly which
//! variant, with which message, each input produces.

use vstd::prelude::*;
use vstd::string::*;

verus! {

#[derive(Debug, Clone)]
pub enum AppError {
    Message(String),
    PermissionDenied(String),
    Io(String),
    Lock(String),
}

/// The user-facing rendering of an error, one line per variant.
pub open spec fn spec_error_message(e: AppError) -> Seq<char> {
    match e {
        AppError::Message(s) => s@,
        AppError::PermissionDenied(s) => "Permission denied: "@ + s@,
        AppError::Io(s) => "I/O error: "@ + s@,
        AppError::Lock(s) => "State lock error: "@ + s@,
    }
}

impl AppError {
    /// The user-facing message for this error.
    pub fn message(&self) -> (r: String)
        ensures
            r@ == spec_error_message(*self),
    {
        match self {
            AppError::Message(s) => s.clone(),
            AppError::PermissionDenied(s) => {
                let mut r = String::from_str("Permission denied: ");
                r.append(s.as_str());
                r
            },
            AppError::Io(s) => {
                let mut r = String::from_str("I/O error: ");
                r.append(s.as_str());
                r
            },
            AppError::Lock(s) => {
                let mut r = String::from_str("State lock error: ");
                r.append(s.as_str());
                r
            },
        }
    }
}

impl From<String> for AppError {
    fn from(value: String) -> (r: AppError) {
        AppError::Message(value)
    }
}

impl vstd::std_specs::convert::FromSpecImpl<String> for AppError {
    open spec fn obeys_from_spec() -> bool {
        true
    }

    open spec fn from_spec(value: String) -> AppError {
        AppError::Message(value)
    }
}

impl From<&str> for AppError {
    fn from(value: &str) -> (r: AppError) {
        AppError::Message(String::from_str(value))
    }
}

impl vstd::std_specs::convert::FromSpecImpl<&str> for AppError {
    open spec fn obeys_from_spec() -> bool {
        false
    }

    open spec fn from_spec(value: &str) -> AppError {
        arbitrary()
    }
}

} // verus!
