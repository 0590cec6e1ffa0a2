//! Plugins: what a plugin's failure is.

use vstd::prelude::*;

verus! {
/// Plugin Error
#[derive(Debug)]
pub enum PluginError {
    InitializationFailed(String),
    NotFound(String),
}

/// The text describing a plugin error.
pub open spec fn plugin_error_text(e: PluginError) -> Seq<char> {
    match e {
        PluginError::InitializationFailed(m) => "Plugin initialization failed: "@ + m@,
        PluginError::NotFound(m) => "Plugin not found: "@ + m@,
    }
}

impl PluginError {
    /// The text describing this error.
    pub fn message(&self) -> (r: String)
        ensures
            r@ == plugin_error_text(*self),
    {
        match self {
            PluginError::InitializationFailed(m) => "Plugin initialization failed: ".to_owned().concat(m.as_str()),
            PluginError::NotFound(m) => "Plugin not found: ".to_owned().concat(m.as_str()),
        }
    }
}

impl Clone for PluginError {
    fn clone(&self) -> (r: Self)
        ensures
            r == *self,
    {
        match self {
            PluginError::InitializationFailed(m) => PluginError::InitializationFailed(m.clone()),
            PluginError::NotFound(m) => PluginError::NotFound(m.clone()),
        }
    }
}

} // verus!
