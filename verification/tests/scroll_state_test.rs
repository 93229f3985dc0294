use quickhorse_core::tui::scroll_state::{ScrollDirection, TranscriptScroll};

#[test]
fn test_default_is_tail() {
    let scroll = TranscriptScroll::default();
    assert!(scroll.is_at_tail());
}

#[test]
fn test_to_bottom() {
    let scroll = TranscriptScroll::to_bottom();
    assert!(scroll.is_at_tail());
}

#[test]
fn test_at_line() {
    let scroll = TranscriptScroll::at_line(5);
    assert!(!scroll.is_at_tail());
    assert_eq!(scroll.raw_offset(), 5);
}

#[test]
fn test_resolve_tail_when_fits() {
    let scroll = TranscriptScroll::at_line(5);
    let (resolved, top) = scroll.resolve_top(10, 20);
    assert!(resolved.is_at_tail());
    assert_eq!(top, 0);
}

#[test]
fn test_resolve_tail_sentinel() {
    let scroll = TranscriptScroll::to_bottom();
    let (resolved, top) = scroll.resolve_top(100, 20);
    assert!(resolved.is_at_tail());
    assert_eq!(top, 80);
}

#[test]
fn test_resolve_at_line_within_bounds() {
    let scroll = TranscriptScroll::at_line(10);
    let (resolved, top) = scroll.resolve_top(100, 20);
    assert!(!resolved.is_at_tail());
    assert_eq!(top, 10);
}

#[test]
fn test_resolve_at_line_clamped() {
    let scroll = TranscriptScroll::at_line(90);
    let (resolved, top) = scroll.resolve_top(100, 20);
    assert!(resolved.is_at_tail());
    assert_eq!(top, 80);
}

#[test]
fn test_scroll_up() {
    let scroll = TranscriptScroll::to_bottom();
    let scrolled = scroll.scrolled_by(-5, 100, 20);
    assert!(!scrolled.is_at_tail());
    assert_eq!(scrolled.raw_offset(), 75);
}

#[test]
fn test_scroll_down() {
    let scroll = TranscriptScroll::at_line(70);
    let scrolled = scroll.scrolled_by(5, 100, 20);
    assert!(!scrolled.is_at_tail());
    assert_eq!(scrolled.raw_offset(), 75);
}

#[test]
fn test_scroll_down_to_tail() {
    let scroll = TranscriptScroll::at_line(75);
    let scrolled = scroll.scrolled_by(10, 100, 20);
    assert!(scrolled.is_at_tail());
}

#[test]
fn test_scroll_up_from_tail() {
    let scroll = TranscriptScroll::to_bottom();
    let scrolled = scroll.scrolled_by(-1, 100, 20);
    assert!(!scrolled.is_at_tail());
    assert_eq!(scrolled.raw_offset(), 79);
}

#[test]
fn test_scroll_direction_delta() {
    assert_eq!(ScrollDirection::Up.delta(3), -3);
    assert_eq!(ScrollDirection::Down.delta(3), 3);
}

#[test]
fn test_no_scroll_when_fits() {
    let scroll = TranscriptScroll::at_line(5);
    let scrolled = scroll.scrolled_by(-3, 10, 20);
    assert!(scrolled.is_at_tail());
}

#[test]
fn test_scroll_zero_no_change() {
    let scroll = TranscriptScroll::at_line(10);
    let scrolled = scroll.scrolled_by(0, 100, 20);
    assert_eq!(scroll, scrolled);
}

#[test]
fn resolve_is_idempotent_on_examples() {
    for offset in [0usize, 10, 79, 80, 90, usize::MAX] {
        let (state, top) = TranscriptScroll::at_line(offset).resolve_top(100, 20);
        let (state2, top2) = state.resolve_top(100, 20);
        assert_eq!(state, state2);
        assert_eq!(top, top2);
    }
}

#[test]
fn scroll_up_then_down_roundtrip() {
    let start = TranscriptScroll::at_line(40);
    let back = start.scrolled_by(-7, 100, 20).scrolled_by(7, 100, 20);
    assert_eq!(back.raw_offset(), 40);
}

#[test]
fn scroll_down_a_page_reaches_tail() {
    let start = TranscriptScroll::at_line(0);
    assert!(start.scrolled_by(80, 100, 20).is_at_tail());
    assert!(!start.scrolled_by(79, 100, 20).is_at_tail());
}

#[test]
fn scroll_up_clamps_at_top() {
    let s = TranscriptScroll::at_line(3).scrolled_by(-10, 100, 20);
    assert_eq!(s.raw_offset(), 0);
    let s = TranscriptScroll::at_line(3).scrolled_by(i32::MIN, 100, 20);
    assert_eq!(s.raw_offset(), 0);
}
