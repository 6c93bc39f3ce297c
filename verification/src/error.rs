//! Structured failures returned by the relay.
//!
//! Every module reports failures through `RelayResult`; the spec-level
//! `ErrorInfo` lets contracts name an error by its fields.

use vstd::prelude::*;

verus! {

/// `RelayResult` is the result type shared by relay modules.
pub type RelayResult<T> = Result<T, RelayError>;

/// `RelayError` expresses failure code, stage, target, and retry semantics.
#[derive(Debug, Clone, PartialEq, Eq)]
pub struct RelayError {
    /// `code` is the stable machine-readable failure type.
    pub code: String,
    /// `stage` identifies the path where the failure happened.
    pub stage: String,
    /// `target_id` stores the target process when the failure is target-bound.
    pub target_id: Option<String>,
    /// `message` stores the diagnostic text readable by operators.
    pub message: String,
    /// `retryable` indicates whether the caller may retry after state changes.
    pub retryable: bool,
}

/// The abstract content of a `RelayError`.
pub struct ErrorInfo {
    pub code: Seq<char>,
    pub stage: Seq<char>,
    pub target_id: Option<Seq<char>>,
    pub message: Seq<char>,
    pub retryable: bool,
}

/// The view of an optional string.
pub open spec fn opt_view(o: Option<String>) -> Option<Seq<char>> {
    match o {
        Some(s) => Some(s@),
        None => None,
    }
}

impl View for RelayError {
    type V = ErrorInfo;

    open spec fn view(&self) -> ErrorInfo {
        ErrorInfo {
            code: self.code@,
            stage: self.stage@,
            target_id: opt_view(self.target_id),
            message: self.message@,
            retryable: self.retryable,
        }
    }
}

/// Builds the abstract content of an error.
pub open spec fn err_info(
    code: Seq<char>,
    stage: Seq<char>,
    target_id: Option<Seq<char>>,
    message: Seq<char>,
    retryable: bool,
) -> ErrorInfo {
    ErrorInfo { code, stage, target_id, message, retryable }
}

/// A result whose error is replaced by its abstract content.
pub open spec fn rv<T>(r: Result<T, RelayError>) -> Result<T, ErrorInfo> {
    match r {
        Ok(v) => Ok(v),
        Err(e) => Err(e@),
    }
}

/// The error code of a result, when it is an error.
pub open spec fn err_code<T>(r: Result<T, RelayError>) -> Option<Seq<char>> {
    match r {
        Ok(_) => None,
        Err(e) => Some(e.code@),
    }
}

impl RelayError {
    /// Creates a structured relay error.
    pub fn new(code: &str, stage: &str, target_id: Option<String>, message: &str, retryable: bool) -> (r: Self)
        ensures
            r@ == err_info(code@, stage@, opt_view(target_id), message@, retryable),
    {
        RelayError {
            code: code.to_owned(),
            stage: stage.to_owned(),
            target_id,
            message: message.to_owned(),
            retryable,
        }
    }

    /// Creates a structured relay error bound to a target process.
    pub fn for_target(code: &str, stage: &str, target_id: &str, message: &str, retryable: bool) -> (r: Self)
        ensures
            r@ == err_info(code@, stage@, Some(target_id@), message@, retryable),
    {
        Self::new(code, stage, Some(target_id.to_owned()), message, retryable)
    }
}

} // verus!
