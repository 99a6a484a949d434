//! Errors of the navigation subsystem.

use vstd::prelude::*;

verus! {

#[verifier::external_type_specification]
#[verifier::external_body]
pub struct ExIoError(std::io::Error);

#[verifier::external_type_specification]
#[verifier::external_body]
pub struct ExJsonError(serde_json::Error);

/// What went wrong while navigating.
#[derive(Debug)]
pub enum NavigateError {
    Io(std::io::Error),
    Json(serde_json::Error),
    Cache(String),
    Sift(String),
    Capture(String),
    Device(String),
    Timeout(String),
    Unsupported(String),
    Cv(String),
    Retry(String),
    TpPointNotActivate(String),
    Other(String),
}

impl From<std::io::Error> for NavigateError {
    fn from(e: std::io::Error) -> (r: Self) {
        NavigateError::Io(e)
    }
}

impl vstd::std_specs::convert::FromSpecImpl<std::io::Error> for NavigateError {
    open spec fn obeys_from_spec() -> bool {
        true
    }

    open spec fn from_spec(e: std::io::Error) -> Self {
        NavigateError::Io(e)
    }
}

impl From<serde_json::Error> for NavigateError {
    fn from(e: serde_json::Error) -> (r: Self) {
        NavigateError::Json(e)
    }
}

impl vstd::std_specs::convert::FromSpecImpl<serde_json::Error> for NavigateError {
    open spec fn obeys_from_spec() -> bool {
        true
    }

    open spec fn from_spec(e: serde_json::Error) -> Self {
        NavigateError::Json(e)
    }
}

} // verus!
