//! Unicode-aware editing primitives: the kill ring, measured (normalized,
//! wrapped) text, a cursor over it, and a double-press detector.
//!
//! All text is normalized to NFC; grapheme clusters are single units for
//! cursor movement, and display widths count wide characters as two columns.

pub mod kill_ring;
pub mod measured;
pub mod caret;
pub mod double_press;

pub use kill_ring::{KillDirection, KillRing, KillRingView};
pub use measured::{MeasuredText, MeasuredView, WrappedLine, WrappedView};
pub use caret::{Cursor, CursorPosition, CursorView, SelectionDirection};
pub use double_press::DoublePressDetector;
