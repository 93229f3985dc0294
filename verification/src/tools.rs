//! The pure logic of the built-in tools: diff parsing and application,
//! output formatting, command and permission classification. Running
//! processes, touching files and talking to the network is left to the
//! application around the library.

pub mod tool_trait;
pub mod patch;

pub use tool_trait::{ProviderCapabilities, ToolResult};
pub mod write;
pub mod execute;
pub mod git;
pub mod database;
pub mod image;
pub mod bash;
pub mod file_read;
pub mod file_edit;
pub mod glob;
pub mod grep;
pub mod web_fetch;
