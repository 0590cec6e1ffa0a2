//! What executing an activity gives: its result or its error.

use vstd::prelude::*;
use crate::json_value::JsonValue;

verus! {

/// Activity Result: what executing an activity gives.
#[derive(Debug)]
pub enum ActivityResult {
    /// Activity completed successfully
    Completed {
        /// Output variables (if any), by name
        output_variables: Option<Vec<(String, JsonValue)>>,
    },
    /// Activity is waiting (e.g., user task waiting for user input)
    Waiting {
        /// Wait reason
        reason: String,
    },
    /// Activity needs to continue to next element(s)
    Continue {
        /// Next element IDs to execute
        next_elements: Vec<String>,
    },
}

/// Activity Error: what went wrong while executing an activity.
#[derive(Debug)]
pub enum ActivityError {
    ExecutionFailed(String),
    InvalidInput(String),
    NotFound(String),
    ConditionEvaluationFailed(String),
    InvalidElement(String),
}

/// The text describing an activity error.
pub open spec fn activity_error_text(e: ActivityError) -> Seq<char> {
    match e {
        ActivityError::ExecutionFailed(m) => "Activity execution failed: "@ + m@,
        ActivityError::InvalidInput(m) => "Invalid input: "@ + m@,
        ActivityError::NotFound(m) => "Activity not found: "@ + m@,
        ActivityError::ConditionEvaluationFailed(m) => "Condition evaluation failed: "@ + m@,
        ActivityError::InvalidElement(m) => "Invalid element: "@ + m@,
    }
}

impl ActivityError {
    /// The text describing this error.
    pub fn message(&self) -> (r: String)
        ensures
            r@ == activity_error_text(*self),
    {
        match self {
            ActivityError::ExecutionFailed(m) => "Activity execution failed: ".to_owned().concat(m.as_str()),
            ActivityError::InvalidInput(m) => "Invalid input: ".to_owned().concat(m.as_str()),
            ActivityError::NotFound(m) => "Activity not found: ".to_owned().concat(m.as_str()),
            ActivityError::ConditionEvaluationFailed(m) => "Condition evaluation failed: ".to_owned().concat(
                m.as_str(),
            ),
            ActivityError::InvalidElement(m) => "Invalid element: ".to_owned().concat(m.as_str()),
        }
    }
}

impl Clone for ActivityError {
    fn clone(&self) -> (r: Self)
        ensures
            r == *self,
    {
        match self {
            ActivityError::ExecutionFailed(m) => ActivityError::ExecutionFailed(m.clone()),
            ActivityError::InvalidInput(m) => ActivityError::InvalidInput(m.clone()),
            ActivityError::NotFound(m) => ActivityError::NotFound(m.clone()),
            ActivityError::ConditionEvaluationFailed(m) => ActivityError::ConditionEvaluationFailed(m.clone()),
            ActivityError::InvalidElement(m) => ActivityError::InvalidElement(m.clone()),
        }
    }
}

} // verus!
