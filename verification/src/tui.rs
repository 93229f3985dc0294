//! Terminal user interface state: editor, cursor, streaming, scrolling,
//! completion and progress.

pub mod scroll_state;
pub mod stream_state;
pub mod completion;
pub mod permission_dialog;
pub mod progress;
pub mod app;
pub mod cursor;
pub mod history;
pub mod history_cell;
pub mod widgets;
pub mod transcript_cache;
pub use app::TextEditor;
