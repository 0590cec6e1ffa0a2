//! Process listeners: what a listener's failure is.

use vstd::prelude::*;

verus! {
/// Listener Error
#[derive(Debug)]
pub enum ListenerError {
    ExecutionFailed(String),
}

/// The text describing a listener error.
pub open spec fn listener_error_text(e: ListenerError) -> Seq<char> {
    match e {
        ListenerError::ExecutionFailed(m) => "Listener execution failed: "@ + m@,
    }
}

impl ListenerError {
    /// The text describing this error.
    pub fn message(&self) -> (r: String)
        ensures
            r@ == listener_error_text(*self),
    {
        match self {
            ListenerError::ExecutionFailed(m) => "Listener execution failed: ".to_owned().concat(m.as_str()),
        }
    }
}

impl Clone for ListenerError {
    fn clone(&self) -> (r: Self)
        ensures
            r == *self,
    {
        match self {
            ListenerError::ExecutionFailed(m) => ListenerError::ExecutionFailed(m.clone()),
        }
    }
}

} // verus!
