//! Errors of plugin lifecycle management.

use crate::events::concat_str;
use vstd::prelude::*;

verus! {

/// Errors that can occur during plugin operations.
#[derive(Debug, Clone, PartialEq, Eq)]
pub enum PluginError {
    /// Plugin initialization failed during startup
    InitializationFailed(String),
    /// Error occurred during plugin execution
    ExecutionError(String),
    /// Requested plugin was not found
    NotFound(String),
    /// Runtime error such as panic or system failure
    Runtime(String),
}

/// The text that describes a plugin error: a fixed phrase for its kind
/// followed by its detail.
pub open spec fn spec_plugin_error_text(e: PluginError) -> Seq<char> {
    match e {
        PluginError::InitializationFailed(d) => "Plugin initialization failed: "@ + d@,
        PluginError::ExecutionError(d) => "Plugin execution error: "@ + d@,
        PluginError::NotFound(d) => "Plugin not found: "@ + d@,
        PluginError::Runtime(d) => "Plugin runtime error: "@ + d@,
    }
}

impl PluginError {
    /// The error's message, e.g. "Plugin not found: name".
    pub fn message(&self) -> (s: String)
        ensures
            s@ == spec_plugin_error_text(*self),
    {
        match self {
            PluginError::InitializationFailed(d) => concat_str("Plugin initialization failed: ", d.as_str()),
            PluginError::ExecutionError(d) => concat_str("Plugin execution error: ", d.as_str()),
            PluginError::NotFound(d) => concat_str("Plugin not found: ", d.as_str()),
            PluginError::Runtime(d) => concat_str("Plugin runtime error: ", d.as_str()),
        }
    }
}

} // verus!
