//! Verified core of a terminal coding assistant: text editing, cursor and
//! kill-ring logic, streaming line pacing, scroll state, completion and the
//! pure decision logic of the built-in tools.

pub mod commands;
pub mod paths;
pub mod permissions;
pub mod provider;
pub mod text;
pub mod tools;
pub mod time;
pub mod tui;
pub mod unicode;
