//! Results that tools hand back, and what the provider can take.

use vstd::prelude::*;

verus! {

/// Provider capabilities for multimodal support
#[derive(Debug, Clone, Copy, Default)]
pub struct ProviderCapabilities {
    /// Whether provider supports vision/image input
    pub multimodal: bool,
}

/// Result from tool execution
#[derive(Debug, Clone)]
pub struct ToolResult {
    /// Tool output content
    pub content: String,
    /// Whether the result is an error
    pub is_error: bool,
}

impl ToolResult {
    /// Create a successful result
    pub fn success(content: String) -> (r: Self)
        ensures
            r.content@ == content@,
            !r.is_error,
    {
        Self { content, is_error: false }
    }

    /// Create an error result
    pub fn error(message: String) -> (r: Self)
        ensures
            r.content@ == message@,
            r.is_error,
    {
        Self { content: message, is_error: true }
    }
}

} // verus!
