use quickhorse_core::tui::cursor::{Cursor, DoublePressDetector, KillDirection, KillRing, MeasuredText, SelectionDirection};

#[test]
fn test_measured_text_nfc_normalization() {
    // Test NFC normalization
    let mt = MeasuredText::new("cafe\u{301}".to_string(), 80); // café with combining accent
    // Should be normalized to single character
    assert!(mt.text().contains('é'));
}

#[test]
fn test_measured_text_grapheme_count() {
    let mt = MeasuredText::new("你好世界".to_string(), 80);
    assert_eq!(mt.grapheme_count(), 4);

    // Emoji
    let mt2 = MeasuredText::new("👨‍👩‍👧‍👦".to_string(), 80);
    assert_eq!(mt2.grapheme_count(), 1);
}

#[test]
fn test_measured_text_wrapping() {
    let mt = MeasuredText::new("hello world".to_string(), 5);

    // Should wrap into multiple lines
    assert!(mt.wrapped_line_count() > 1);
}

#[test]
fn test_cursor_movement_unicode() {
    let mt = MeasuredText::new("a你b好c".to_string(), 80);
    let mut cursor = Cursor::new(mt);

    // Move through graphemes
    cursor.move_next(); // 'a'
    assert_eq!(cursor.offset(), 1);

    cursor.move_next(); // '你' (3 bytes)
    assert_eq!(cursor.offset(), 4);

    cursor.move_next(); // 'b'
    assert_eq!(cursor.offset(), 5);

    // Move back
    cursor.move_prev();
    assert_eq!(cursor.offset(), 4);
}

#[test]
fn test_cursor_word_boundaries() {
    let mt = MeasuredText::new("hello world test".to_string(), 80);
    let mut cursor = Cursor::at_offset(mt, 7); // In "world"

    cursor.move_prev_word();
    assert_eq!(cursor.offset(), 6); // Start of "world"

    cursor.move_prev_word();
    assert_eq!(cursor.offset(), 0); // Start of "hello"
}

#[test]
fn test_kill_ring() {
    let mut kr = KillRing::new(10);

    kr.push("hello".to_string(), KillDirection::Append);
    assert_eq!(kr.get_last(), Some(&"hello".to_string()));

    kr.push("world".to_string(), KillDirection::Append);
    assert_eq!(kr.get_last(), Some(&"helloworld".to_string()));

    kr.reset_accumulation();
    kr.push("new".to_string(), KillDirection::Append);
    assert_eq!(kr.get_last(), Some(&"new".to_string()));
}

#[test]
fn test_kill_ring_yank_pop() {
    let mut kr = KillRing::new(10);

    kr.push("first".to_string(), KillDirection::Append);
    kr.reset_accumulation();
    kr.push("second".to_string(), KillDirection::Append);
    kr.reset_accumulation();

    kr.record_yank(0, 5);
    assert!(kr.can_yank_pop());

    let pop = kr.yank_pop();
    assert_eq!(pop.unwrap().0, "first".to_string());
}

#[test]
fn test_cursor_display_width_cjk() {
    let mt = MeasuredText::new("你好".to_string(), 80);
    let mut cursor = Cursor::new(mt);

    cursor.move_next();
    cursor.move_next();

    // Each Chinese char has display width 2
    assert_eq!(cursor.display_width(), 4);
}

#[test]
fn test_cursor_line_movement() {
    let mt = MeasuredText::new("line1\nline2\nline3".to_string(), 80);
    let mut cursor = Cursor::at_offset(mt, 10); // On line2

    cursor.move_up();
    assert_eq!(cursor.position().line, 0);

    cursor.move_down();
    cursor.move_down();
    assert_eq!(cursor.position().line, 2);
}

#[test]
fn test_kill_ring_prepend_accumulates_in_front() {
    let mut kr = KillRing::new(10);
    kr.push("world".to_string(), KillDirection::Prepend);
    kr.push("hello ".to_string(), KillDirection::Prepend);
    assert_eq!(kr.get_last(), Some(&"hello world".to_string()));
    assert_eq!(kr.size(), 1);
}

#[test]
fn test_kill_ring_respects_max_size() {
    let mut kr = KillRing::new(2);
    for t in ["a", "b", "c"] {
        kr.push(t.to_string(), KillDirection::Append);
        kr.reset_accumulation();
    }
    assert_eq!(kr.size(), 2);
    assert_eq!(kr.get_item(0), Some(&"c".to_string()));
    assert_eq!(kr.get_item(1), Some(&"b".to_string()));
    assert_eq!(kr.get_item(2), Some(&"c".to_string()));
}

#[test]
fn test_kill_ring_empty_push_and_yank_pop_without_yank() {
    let mut kr = KillRing::new(3);
    kr.push(String::new(), KillDirection::Append);
    assert_eq!(kr.size(), 0);
    assert_eq!(kr.get_last(), None);
    assert_eq!(kr.get_item(5), None);
    kr.push("x".to_string(), KillDirection::Append);
    assert!(!kr.can_yank_pop());
    assert_eq!(kr.yank_pop(), None);
    kr.clear();
    assert_eq!(kr.size(), 0);
}

#[test]
fn test_kill_ring_yank_pop_cycles() {
    let mut kr = KillRing::new(10);
    for t in ["one", "two", "three"] {
        kr.push(t.to_string(), KillDirection::Append);
        kr.reset_accumulation();
    }
    kr.record_yank(4, 5);
    assert_eq!(kr.yank_pop(), Some(("two".to_string(), 4, 5)));
    assert_eq!(kr.yank_pop(), Some(("one".to_string(), 4, 5)));
    assert_eq!(kr.yank_pop(), Some(("three".to_string(), 4, 5)));
    kr.update_yank_length(3);
    assert_eq!(kr.yank_pop(), Some(("two".to_string(), 4, 3)));
    kr.reset_yank_state();
    assert_eq!(kr.yank_pop(), None);
}

#[test]
fn test_measured_text_lines_and_wrapping_keep_text() {
    let mt = MeasuredText::new("abcdef\nxy".to_string(), 4);
    assert_eq!(mt.original_line_count(), 2);
    let texts: Vec<String> = mt.wrapped_lines().iter().map(|w| w.display_text.clone()).collect();
    assert_eq!(texts, vec!["abcd".to_string(), "ef".to_string(), "xy".to_string()]);
    let w = &mt.wrapped_lines()[2];
    assert_eq!((w.original_line, w.start_offset, w.end_offset, w.width), (1, 7, 9, 2));
    assert_eq!(mt.find_wrapped_line_at_offset(8), Some(2));
    assert_eq!(mt.find_original_line_at_offset(8), Some(1));
    assert_eq!(mt.find_original_line_at_offset(20), None);
}

#[test]
fn test_measured_text_no_wrapping_with_zero_columns() {
    let mt = MeasuredText::new("abcdef\nxy".to_string(), 0);
    assert_eq!(mt.wrapped_line_count(), 2);
    assert_eq!(mt.wrapped_lines()[1].start_offset, 7);
    assert_eq!(mt.wrapped_lines()[1].end_offset, 9);
    assert_eq!(mt.columns(), 0);
}

#[test]
fn test_measured_text_grapheme_offsets() {
    let mt = MeasuredText::new("a你b".to_string(), 80);
    assert_eq!(mt.len(), 5);
    assert!(!mt.is_empty());
    assert_eq!(mt.byte_to_grapheme_offset(4), 2);
    assert_eq!(mt.byte_to_grapheme_offset(99), 3);
    assert_eq!(mt.grapheme_to_byte_offset(2), 4);
    assert_eq!(mt.grapheme_to_byte_offset(10), 5);
    assert_eq!(mt.grapheme_at_offset(1), Some("你".to_string()));
    assert_eq!(mt.grapheme_at_offset(5), None);
    assert_eq!(mt.prev_grapheme_at_offset(4), Some("你".to_string()));
    assert_eq!(mt.prev_grapheme_at_offset(0), None);
    assert_eq!(mt.get_display_column_at_offset(4), 3);
}

#[test]
fn test_measured_text_words() {
    let mt = MeasuredText::new("hello world test".to_string(), 80);
    assert_eq!(mt.find_word_boundaries(8), (6, 11));
    assert_eq!(mt.find_next_word_end(5), 11);
    assert_eq!(mt.find_next_word_end(16), 16);
    assert_eq!(mt.find_prev_word_start(12), 6);
}

#[test]
fn test_cursor_kill_and_yank() {
    let mut kr = KillRing::new(10);
    let mut cursor = Cursor::from_text("one two\nthree".to_string(), 80, 4);
    assert_eq!(cursor.kill_line(&mut kr), "two");
    kr.reset_accumulation();
    assert_eq!(cursor.kill_line_backward(&mut kr), "one ");
    kr.reset_accumulation();
    assert_eq!(cursor.kill_word_backward(&mut kr), "one ");
    assert_eq!(cursor.yank(&kr), Some("one ".to_string()));
    kr.record_yank(0, 4);
    assert_eq!(cursor.yank_pop(&mut kr), Some("one ".to_string()));
    assert_eq!(cursor.yank_pop(&mut kr), Some("two".to_string()));
}

#[test]
fn test_cursor_selection() {
    let mut cursor = Cursor::from_text("abc".to_string(), 80, 1);
    assert!(!cursor.has_selection());
    assert_eq!(cursor.selection_range(), None);
    cursor.extend_selection(SelectionDirection::Forward);
    cursor.extend_selection(SelectionDirection::Forward);
    assert_eq!(cursor.offset(), 3);
    assert_eq!(cursor.selection(), 2);
    assert_eq!(cursor.selection_range(), Some((1, 3)));
    assert_eq!(cursor.selected_text(), Some("bc".to_string()));
    cursor.clear_selection();
    assert!(!cursor.has_selection());
}

#[test]
fn test_cursor_line_start_end_and_text_update() {
    let mut cursor = Cursor::from_text("ab\ncde".to_string(), 80, 4);
    cursor.move_line_start();
    assert_eq!(cursor.offset(), 3);
    cursor.move_line_end();
    assert_eq!(cursor.offset(), 6);
    cursor.move_start();
    assert_eq!(cursor.offset(), 0);
    cursor.move_end();
    assert_eq!(cursor.offset(), 6);
    cursor.move_next_word();
    assert_eq!(cursor.offset(), 6);
    cursor.update_text("xy".to_string());
    assert_eq!(cursor.offset(), 2);
    let other = cursor.clone_with_text("z".to_string());
    assert_eq!(other.offset(), 1);
}

#[test]
fn test_cursor_viewport() {
    let mut cursor = Cursor::from_text("a\nb\nc\nd\ne\nf".to_string(), 80, 10);
    assert_eq!(cursor.wrapped_line(), 5);
    assert_eq!(cursor.get_viewport_start_line(0), 0);
    assert_eq!(cursor.get_viewport_start_line(10), 0);
    assert_eq!(cursor.get_viewport_start_line(2), 4);
    cursor.move_start();
    assert_eq!(cursor.get_viewport_start_line(2), 0);
}

#[test]
fn test_double_press_detector_reset() {
    let mut dp = DoublePressDetector::default();
    assert!(!dp.is_pending());
    assert!(!dp.check());
    assert!(dp.is_pending());
    dp.reset();
    assert!(!dp.is_pending());
}

#[test]
fn wrapped_segments_end_where_their_text_ends() {
    let mt = MeasuredText::new("abcdefgh".to_string(), 3);
    let ws = mt.wrapped_lines();
    assert_eq!(ws.len(), 3);
    let got: Vec<(usize, usize, usize, String, usize)> = ws
        .iter()
        .map(|w| (w.original_line, w.start_offset, w.end_offset, w.display_text.clone(), w.width))
        .collect();
    assert_eq!(
        got,
        vec![
            (0, 0, 3, "abc".to_string(), 3),
            (0, 3, 6, "def".to_string(), 3),
            (0, 6, 8, "gh".to_string(), 2),
        ]
    );
}

#[test]
fn wrapped_offsets_count_from_the_start_of_the_text() {
    let mt = MeasuredText::new("ab\ncdefg".to_string(), 2);
    let ws = mt.wrapped_lines();
    let offsets: Vec<(usize, usize, usize)> = ws.iter().map(|w| (w.original_line, w.start_offset, w.end_offset)).collect();
    assert_eq!(offsets, vec![(0, 0, 2), (1, 3, 5), (1, 5, 7), (1, 7, 8)]);
}

#[test]
fn backward_selection_covers_the_grapheme_passed_over() {
    let mut c = Cursor::at_offset(MeasuredText::new("abc".to_string(), 80), 2);
    c.extend_selection(SelectionDirection::Backward);
    assert_eq!(c.offset(), 1);
    assert!(c.has_selection());
    assert_eq!(c.selection(), 1);
    assert_eq!(c.selection_range(), Some((1, 2)));
    assert_eq!(c.selected_text(), Some("b".to_string()));
    c.extend_selection(SelectionDirection::Backward);
    assert_eq!(c.selection_range(), Some((0, 2)));
    assert_eq!(c.selected_text(), Some("ab".to_string()));
}

#[test]
fn selection_shrinks_when_extended_back_toward_its_anchor() {
    let mut c = Cursor::from_text("abc".to_string(), 80, 1);
    c.extend_selection(SelectionDirection::Forward);
    c.extend_selection(SelectionDirection::Forward);
    assert_eq!(c.selection_range(), Some((1, 3)));
    c.extend_selection(SelectionDirection::Backward);
    assert_eq!(c.selection_range(), Some((1, 2)));
    c.extend_selection(SelectionDirection::Backward);
    assert!(!c.has_selection());
    assert_eq!(c.selection_range(), None);
    assert_eq!(c.selected_text(), None);
    c.extend_selection(SelectionDirection::Backward);
    assert_eq!(c.selection_range(), Some((0, 1)));
}

#[test]
fn grapheme_and_byte_offsets_round_trip() {
    let mt = MeasuredText::new("a你e\u{301}b".to_string(), 80);
    for k in 0..=mt.grapheme_count() {
        let b = mt.grapheme_to_byte_offset(k);
        assert_eq!(mt.byte_to_grapheme_offset(b), k);
        assert_eq!(mt.grapheme_to_byte_offset(mt.byte_to_grapheme_offset(b)), b);
    }
    assert_eq!(mt.grapheme_to_byte_offset(2), 4);
    assert_eq!(mt.byte_to_grapheme_offset(4), 2);
}

#[test]
fn kill_ring_items_are_counted_around_the_ring() {
    let mut kr = KillRing::new(10);
    assert_eq!(kr.get_item(0), None);
    assert_eq!(kr.get_item(7), None);
    kr.push("one".to_string(), KillDirection::Append);
    kr.reset_accumulation();
    kr.push("two".to_string(), KillDirection::Append);
    kr.reset_accumulation();
    kr.push("three".to_string(), KillDirection::Append);
    assert_eq!(kr.size(), 3);
    assert_eq!(kr.get_item(0), kr.get_last());
    assert_eq!(kr.get_item(0).map(|s| s.as_str()), Some("three"));
    assert_eq!(kr.get_item(2).map(|s| s.as_str()), Some("one"));
    assert_eq!(kr.get_item(5), kr.get_item(2));
    assert_eq!(kr.get_item(4).map(|s| s.as_str()), Some("two"));
}
