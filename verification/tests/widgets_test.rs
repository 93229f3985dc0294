use quickhorse_core::tui::history_cell::{truncate_to_width, wrap_text};
use quickhorse_core::tui::widgets::{get_status_frame, get_wave_glyph, status_frames_dots, status_frames_whale, ToolStatusKind};
use unicode_width::UnicodeWidthStr;

#[test]
fn test_wave_glyphs() {
    let glyph = get_wave_glyph(0, 0, 10);
    assert_eq!(glyph, '▁');

    let glyph = get_wave_glyph(0, 7, 10);
    assert_eq!(glyph, '█');
}

#[test]
fn wave_glyphs_cycle() {
    assert_eq!(get_wave_glyph(1, 7, 10), '▁');
    assert_eq!(get_wave_glyph(5, 0, 10), '▆');
    assert_eq!(get_wave_glyph(8, 16, 10), '▁');
}

#[test]
fn test_status_frame() {
    let dots = status_frames_dots();
    let frame = get_status_frame(0, &dots);
    assert_eq!(frame, "●");

    let frame = get_status_frame(840, &dots); // 2 frames
    assert_eq!(frame, "●");
}

#[test]
fn status_frame_advances_and_handles_edges() {
    let dots = status_frames_dots();
    assert_eq!(get_status_frame(420, &dots), "○");
    assert_eq!(get_status_frame(419, &dots), "●");
    let whale = status_frames_whale();
    assert_eq!(get_status_frame(420 * 3, &whale), "🐳...");
    assert_eq!(get_status_frame(420 * 9, &whale), "🐳.");
    assert_eq!(get_status_frame(100, &[]), "");
    assert_eq!(get_status_frame(0, &["x"]), "●");
}

#[test]
fn test_tool_status_kind() {
    assert_ne!(ToolStatusKind::Running, ToolStatusKind::Success);
    assert_ne!(ToolStatusKind::Success, ToolStatusKind::Failed);
}

#[test]
fn test_wrap_text() {
    let text = "This is a very long line that should be wrapped";
    let wrapped = wrap_text(text, 20);

    assert!(wrapped.len() > 1);
    for line in &wrapped {
        assert!(line.width() <= 20);
    }
}

#[test]
fn wrap_text_exact_layout() {
    let wrapped = wrap_text("This is a very long line that should be wrapped", 20);
    assert_eq!(wrapped, vec!["This is a very long", "line that should be", "wrapped"]);
    assert_eq!(wrap_text("short\nlines here", 20), vec!["short", "lines here"]);
    assert_eq!(wrap_text("a b c", 0), vec!["a b c"]);
    assert_eq!(wrap_text("averyveryverylongword tail", 5), vec!["averyveryverylongword", "tail"]);
    assert!(wrap_text("", 10).is_empty());
}

#[test]
fn history_cell_test_truncate_to_width() {
    let text = "This is a very long string";
    let result = truncate_to_width(text, 10);
    assert!(result.width() <= 10);
    assert!(result.ends_with("..."));
}

#[test]
fn header_test_truncate_to_width() {
    let result = truncate_to_width("Hello World", 10);
    assert!(result.width() <= 10);
    assert!(result.ends_with("..."));
}

#[test]
fn test_truncate_short_string() {
    let result = truncate_to_width("Hi", 10);
    assert_eq!(result, "Hi");
}

#[test]
fn tool_card_test_truncate_to_width() {
    let result = truncate_to_width("Hello World this is a long string", 15);
    assert!(result.width() <= 15);
    assert!(result.ends_with("..."));
}

#[test]
fn truncate_exact_results() {
    assert_eq!(truncate_to_width("Hello World", 10), "Hello W...");
    assert_eq!(truncate_to_width("你好世界你好", 7), "你好...");
    assert_eq!(truncate_to_width("abcdef", 2), "...");
}
