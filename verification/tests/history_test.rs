use quickhorse_core::tui::history::{CommandHistory, HistoryEntry, Timestamp, MAX_HISTORY_ENTRIES};

fn history() -> CommandHistory {
    CommandHistory::with_path("/tmp/quickhorse-test/history.json".to_string())
}

#[test]
fn test_history_creation() {
    let history = history();
    assert!(history.entries().is_empty());
}

#[test]
fn test_add_entry() {
    let mut history = history();
    history.add("test command".to_string());

    assert_eq!(history.entries().len(), 1);
    assert_eq!(history.entries()[0].content, "test command");
}

#[test]
fn test_add_command_entry() {
    let mut history = history();
    history.add("/help".to_string());

    assert!(history.entries()[0].is_command);
}

#[test]
fn test_avoid_duplicate() {
    let mut history = history();
    history.add("test".to_string());
    history.add("test".to_string());

    assert_eq!(history.entries().len(), 1);
}

#[test]
fn test_search() {
    let mut history = history();
    history.add("hello world".to_string());
    history.add("test command".to_string());
    history.add("another hello".to_string());

    let results = history.search("hello");
    assert_eq!(results.len(), 2);
}

#[test]
fn test_search_fuzzy() {
    let mut history = history();
    history.add("/help".to_string());
    history.add("/provider".to_string());
    history.add("/model".to_string());

    let results = history.search_fuzzy("/h");
    assert_eq!(results.len(), 1);
    assert!(results[0].content == "/help");
}

#[test]
fn test_commands_only() {
    let mut history = history();
    history.add("regular message".to_string());
    history.add("/help".to_string());
    history.add("/provider".to_string());

    let commands = history.commands();
    assert_eq!(commands.len(), 2);
}

#[test]
fn test_recent() {
    let mut history = history();
    history.add("first".to_string());
    history.add("second".to_string());
    history.add("third".to_string());

    let recent = history.recent(2);
    assert_eq!(recent.len(), 2);
    assert_eq!(recent[0].content, "third");
    assert_eq!(recent[1].content, "second");
}

#[test]
fn test_clear() {
    let mut history = history();
    history.add("test".to_string());
    history.clear();

    assert!(history.entries().is_empty());
}

#[test]
fn test_stats() {
    let mut history = history();
    history.add("message".to_string());
    history.add("/help".to_string());

    let stats = history.stats();
    assert_eq!(stats.total_entries, 2);
    assert_eq!(stats.commands, 1);
    assert_eq!(stats.messages, 1);
}

#[test]
fn ids_count_up_and_duplicates_return_the_first() {
    let mut history = history();
    assert_eq!(history.add("a".to_string()).id, 1);
    assert_eq!(history.add("b".to_string()).id, 2);
    assert_eq!(history.add("a".to_string()).id, 1);
    assert_eq!(history.add_with_result("a".to_string(), "done".to_string()).id, 3);
    assert_eq!(history.entries().len(), 3);
    assert_eq!(history.entries()[2].result_summary, Some("done".to_string()));
}

#[test]
fn search_ignores_case_and_orders_newest_first() {
    let mut history = history();
    history.add("Hello there".to_string());
    history.add("nothing".to_string());
    history.add("say HELLO".to_string());
    let found: Vec<&str> = history.search("hello").iter().map(|e| e.content.as_str()).collect();
    assert_eq!(found, vec!["say HELLO", "Hello there"]);
}

#[test]
fn delete_and_get_by_id() {
    let mut history = history();
    history.add("one".to_string());
    history.add("two".to_string());
    assert_eq!(history.get(2).map(|e| e.content.clone()), Some("two".to_string()));
    assert!(history.delete(1));
    assert!(!history.delete(1));
    assert!(history.get(1).is_none());
    assert_eq!(history.entries().len(), 1);
}

#[test]
fn oldest_entry_dropped_past_the_limit() {
    let mut history = history();
    for i in 0..(MAX_HISTORY_ENTRIES + 1) {
        history.add(format!("entry {}", i));
    }
    assert_eq!(history.entries().len(), MAX_HISTORY_ENTRIES);
    assert_eq!(history.entries()[0].content, "entry 1");
}

#[test]
fn saved_entries_continue_numbering() {
    let saved = vec![
        HistoryEntry { id: 4, timestamp: Timestamp { secs: 0, nanos: 0 }, content: "x".to_string(), is_command: false, result_summary: None },
        HistoryEntry { id: 9, timestamp: Timestamp { secs: 1, nanos: 0 }, content: "/y".to_string(), is_command: true, result_summary: None },
    ];
    let mut history = CommandHistory::from_saved("/tmp/h.json".to_string(), saved);
    assert_eq!(history.add("z".to_string()).id, 10);
    let stats = history.stats();
    assert_eq!(stats.oldest_timestamp, Some(Timestamp { secs: 0, nanos: 0 }));
    assert_eq!(history.file_path(), "/tmp/h.json");
}

#[test]
fn next_id_follows_the_saved_entries() {
    let mut h = history();
    assert_eq!(h.next_id(), 1);
    h.add("one".to_string());
    assert_eq!(h.next_id(), 2);
    let saved = vec![
        HistoryEntry { id: 7, timestamp: Timestamp { secs: 0, nanos: 0 }, content: "a".to_string(), is_command: false, result_summary: None },
        HistoryEntry { id: 3, timestamp: Timestamp { secs: 0, nanos: 0 }, content: "b".to_string(), is_command: false, result_summary: None },
    ];
    let restored = CommandHistory::from_saved("/tmp/h.json".to_string(), saved);
    assert_eq!(restored.next_id(), 8);
    assert_eq!(restored.entries().len(), 2);
}
