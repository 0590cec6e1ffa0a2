//! Capabilities: what a capability gives, and its failure.

use vstd::prelude::*;
use crate::json_value::JsonValue;

verus! {
/// What a capability's execution gives: its output values, by name, and
/// whether it succeeded.
#[derive(Debug)]
pub struct CapabilityResult {
    pub output: Vec<(String, JsonValue)>,
    pub success: bool,
}

/// Capability Error
#[derive(Debug)]
pub enum CapabilityError {
    ExecutionFailed(String),
    NotAvailable(String),
    InvalidParameters(String),
}

/// The text describing a capability error.
pub open spec fn capability_error_text(e: CapabilityError) -> Seq<char> {
    match e {
        CapabilityError::ExecutionFailed(m) => "Capability execution failed: "@ + m@,
        CapabilityError::NotAvailable(m) => "Capability not available: "@ + m@,
        CapabilityError::InvalidParameters(m) => "Invalid parameters: "@ + m@,
    }
}

impl CapabilityError {
    /// The text describing this error.
    pub fn message(&self) -> (r: String)
        ensures
            r@ == capability_error_text(*self),
    {
        match self {
            CapabilityError::ExecutionFailed(m) => "Capability execution failed: ".to_owned().concat(m.as_str()),
            CapabilityError::NotAvailable(m) => "Capability not available: ".to_owned().concat(m.as_str()),
            CapabilityError::InvalidParameters(m) => "Invalid parameters: ".to_owned().concat(m.as_str()),
        }
    }
}

impl Clone for CapabilityError {
    fn clone(&self) -> (r: Self)
        ensures
            r == *self,
    {
        match self {
            CapabilityError::ExecutionFailed(m) => CapabilityError::ExecutionFailed(m.clone()),
            CapabilityError::NotAvailable(m) => CapabilityError::NotAvailable(m.clone()),
            CapabilityError::InvalidParameters(m) => CapabilityError::InvalidParameters(m.clone()),
        }
    }
}

} // verus!
