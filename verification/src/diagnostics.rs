//! Structured fields for relay failure paths and state changes.

use vstd::prelude::*;

use crate::clock::Timestamp;
use crate::error::opt_view;

verus! {

/// An observable failure or state change.
#[derive(Debug, Clone, PartialEq, Eq)]
pub struct DiagnosticEvent {
    /// `stage` is where the diagnostic came from.
    pub stage: String,
    /// `target_id` is the target process when the diagnostic is target-bound.
    pub target_id: Option<String>,
    /// `code` is the machine-readable diagnostic type.
    pub code: String,
    /// `message` is the operator-readable diagnostic.
    pub message: String,
    /// `occurred_at` is when the diagnostic was generated.
    pub occurred_at: Timestamp,
}

impl DiagnosticEvent {
    /// Creates a diagnostic event.
    pub fn new(stage: &str, target_id: Option<String>, code: &str, message: &str, occurred_at: Timestamp) -> (r: Self)
        ensures
            r.stage@ == stage@,
            opt_view(r.target_id) == opt_view(target_id),
            r.code@ == code@,
            r.message@ == message@,
            r.occurred_at == occurred_at,
    {
        DiagnosticEvent {
            stage: stage.to_owned(),
            target_id,
            code: code.to_owned(),
            message: message.to_owned(),
            occurred_at,
        }
    }
}

} // verus!
