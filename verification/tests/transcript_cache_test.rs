use quickhorse_core::tui::scroll_state::TranscriptScroll;
use quickhorse_core::tui::transcript_cache::TranscriptViewCache;
use quickhorse_core::tui::widgets::chat::{
    chat_layout, jump_button_rect, ScrollbarData, JUMP_BUTTON_HEIGHT, JUMP_BUTTON_WIDTH,
};
use ratatui::layout::Rect;
use ratatui::text::Line;
use std::sync::Arc;

fn make_lines(content: &str) -> Vec<Line<'static>> {
    content.lines().map(|l| Line::from(l.to_string())).collect()
}

#[test]
fn test_empty_cache() {
    let cache = TranscriptViewCache::new();
    assert_eq!(cache.total_lines(), 0);
}

#[test]
fn transcript_cache_test_single_cell() {
    let mut cache = TranscriptViewCache::new();
    let cells = vec![make_lines("Hello World")];
    let revisions = vec![1];

    cache.ensure(&cells, &revisions, 80);

    assert_eq!(cache.total_lines(), 1);
    assert_eq!(cache.lines()[0].spans.len(), 1);
}

#[test]
fn test_multiple_cells() {
    let mut cache = TranscriptViewCache::new();
    let cells = vec![make_lines("User message"), make_lines("Assistant reply")];
    let revisions = vec![1, 1];

    cache.ensure(&cells, &revisions, 80);

    assert_eq!(cache.total_lines(), 2);
}

#[test]
fn test_reuse_on_same_revision() {
    let mut cache = TranscriptViewCache::new();

    let cells = vec![make_lines("Hello")];
    let revisions = vec![1];
    cache.ensure(&cells, &revisions, 80);

    let first_arc = cache.cached_cells()[0].lines.clone();

    let cells2 = vec![make_lines("Hello")];
    let revisions2 = vec![1];
    cache.ensure(&cells2, &revisions2, 80);

    assert!(Arc::ptr_eq(&cache.cached_cells()[0].lines, &first_arc));
}

#[test]
fn test_dirty_on_revision_change() {
    let mut cache = TranscriptViewCache::new();

    let cells = vec![make_lines("Hello")];
    let revisions = vec![1];
    cache.ensure(&cells, &revisions, 80);

    let cells2 = vec![make_lines("Hello World")];
    let revisions2 = vec![2];
    cache.ensure(&cells2, &revisions2, 80);

    assert_eq!(cache.total_lines(), 1);
    let line = &cache.lines()[0];
    let span = &line.spans[0];
    assert_eq!(span.content, "Hello World");
}

#[test]
fn test_width_change_busts_cache() {
    let mut cache = TranscriptViewCache::new();

    let cells = vec![make_lines("Hello")];
    let revisions = vec![1];
    cache.ensure(&cells, &revisions, 80);

    let cells2 = vec![make_lines("Hello")];
    let revisions2 = vec![1];
    cache.ensure(&cells2, &revisions2, 40);

    assert_eq!(cache.width(), 40);
}

#[test]
fn test_empty_cell_skipped() {
    let mut cache = TranscriptViewCache::new();
    let cells = vec![make_lines("Hello"), Vec::new(), make_lines("World")];
    let revisions = vec![1, 1, 1];

    cache.ensure(&cells, &revisions, 80);

    assert_eq!(cache.total_lines(), 2);
}

#[test]
fn test_visible_lines_slice() {
    let mut cache = TranscriptViewCache::new();
    let cells = vec![make_lines("Line1\nLine2\nLine3\nLine4\nLine5")];
    let revisions = vec![1];
    cache.ensure(&cells, &revisions, 80);

    assert_eq!(cache.total_lines(), 5);

    let visible = cache.visible_lines(1, 3);
    assert_eq!(visible.len(), 3);
}

#[test]
fn test_jump_button_rect() {
    let area = Rect::new(0, 0, 80, 20);
    let btn = jump_button_rect(area, true);

    assert_eq!(btn.width, JUMP_BUTTON_WIDTH);
    assert_eq!(btn.height, JUMP_BUTTON_HEIGHT);
}

#[test]
fn cache_matches_fresh_render_after_partial_change() {
    let mut cache = TranscriptViewCache::new();
    let cells = vec![make_lines("a\nb"), make_lines("c"), make_lines("d\ne")];
    cache.ensure(&cells, &[1, 1, 1], 80);
    assert_eq!(cache.total_lines(), 5);

    // The middle cell changes and the last one goes away.
    let cells2 = vec![make_lines("a\nb"), make_lines("x\ny\nz")];
    cache.ensure(&cells2, &[1, 2], 80);
    let texts: Vec<String> = cache
        .lines()
        .iter()
        .map(|l| l.spans.iter().map(|s| s.content.to_string()).collect())
        .collect();
    assert_eq!(texts, vec!["a", "b", "x", "y", "z"]);
    assert_eq!(cache.cached_cells()[1].revision, 2);
}

#[test]
fn cache_without_one_revision_per_cell_rerenders() {
    let mut cache = TranscriptViewCache::new();
    let cells = vec![make_lines("a"), make_lines("b")];
    cache.ensure(&cells, &[7], 80);
    assert_eq!(cache.cached_cells()[0].revision, u64::MAX);
    assert_eq!(cache.cached_cells()[1].revision, u64::MAX);
    assert_eq!(cache.total_lines(), 2);
}

#[test]
fn cache_clear_and_window_past_end() {
    let mut cache = TranscriptViewCache::new();
    cache.ensure(&[make_lines("a\nb\nc")], &[1], 80);
    assert_eq!(cache.visible_lines(2, 10).len(), 1);
    assert_eq!(cache.visible_lines(3, 10).len(), 0);
    cache.clear();
    assert_eq!(cache.total_lines(), 0);
    assert!(cache.cached_cells().is_empty());
    assert_eq!(cache.width(), 80);
}

#[test]
fn chat_layout_empty_transcript() {
    let layout = chat_layout(0, TranscriptScroll::to_bottom(), 80, 20);
    assert!(layout.scrollbar.is_none());
    assert!(layout.jump_button.is_none());
    assert_eq!(layout.padding, 20);
    assert_eq!(layout.top, 0);
}

#[test]
fn chat_layout_scrollbar_when_content_exceeds_viewport() {
    let layout = chat_layout(8, TranscriptScroll::to_bottom(), 80, 5);
    assert_eq!(layout.scrollbar, Some(ScrollbarData { top: 3, visible: 5, total: 8 }));
    assert!(layout.jump_button.is_none());
    assert_eq!(layout.padding, 0);
}

#[test]
fn chat_layout_jump_button_when_scrolled_up() {
    let layout = chat_layout(5, TranscriptScroll::at_line(0), 80, 3);
    assert!(layout.scrollbar.is_some());
    let button = layout.jump_button.expect("jump button");
    assert_eq!(button, Rect::new(76, 0, 3, 3));
    assert!(!layout.scroll.is_at_tail());
}

#[test]
fn chat_layout_no_scrollbar_in_narrow_viewport() {
    let layout = chat_layout(10, TranscriptScroll::at_line(0), 1, 3);
    assert!(layout.scrollbar.is_none());
    assert!(layout.jump_button.is_none());
}
