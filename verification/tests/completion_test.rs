use quickhorse_core::commands::CommandRegistry;
use quickhorse_core::tui::completion::{CommandCompleter, CompletionProvider, CompletionState, CompletionType, Suggestion};

#[test]
fn test_command_completer_creation() {
    let registry = CommandRegistry::new();
    let completer = CommandCompleter::with_registry(registry);
    assert!(completer.registry.list_commands().len() > 0);
}

#[test]
fn test_can_complete_slash_input() {
    let registry = CommandRegistry::new();
    let completer = CommandCompleter::with_registry(registry);

    // Should complete slash commands
    assert!(completer.can_complete("/", 1));
    assert!(completer.can_complete("/h", 2));
    assert!(completer.can_complete("/help", 5));

    // Should NOT complete non-slash input
    assert!(!completer.can_complete("hello", 5));
    assert!(!completer.can_complete("", 0));

    // Should NOT complete after space (args)
    assert!(!completer.can_complete("/help ", 6));
}

#[test]
fn test_get_suggestions_for_partial() {
    let registry = CommandRegistry::new();
    let completer = CommandCompleter::with_registry(registry);

    // Test /h - should match help
    let suggestions = completer.get_suggestions("/h", 2);
    assert!(suggestions.len() > 0);

    // All should be Command type
    for s in &suggestions {
        assert_eq!(s.completion_type, CompletionType::Command);
        assert!(s.display_text.starts_with('/'));
    }

    // Should include /help
    let help_found = suggestions.iter().any(|s| s.id == "help");
    assert!(help_found);
}

#[test]
fn test_get_suggestions_empty_for_non_slash() {
    let registry = CommandRegistry::new();
    let completer = CommandCompleter::with_registry(registry);

    let suggestions = completer.get_suggestions("hello", 5);
    assert_eq!(suggestions.len(), 0);
}

#[test]
fn test_get_suggestions_exact_match() {
    let registry = CommandRegistry::new();
    let completer = CommandCompleter::with_registry(registry);

    let suggestions = completer.get_suggestions("/help", 5);
    assert_eq!(suggestions.len(), 1);
    assert_eq!(suggestions[0].id, "help");
}

#[test]
fn test_parse_partial_command() {
    let registry = CommandRegistry::new();
    let completer = CommandCompleter::with_registry(registry);

    assert_eq!(completer.parse_partial("/h", 2), Some("h".to_string()));
    assert_eq!(completer.parse_partial("/help", 5), Some("help".to_string()));
    assert_eq!(completer.parse_partial("/prov", 5), Some("prov".to_string()));
    assert_eq!(completer.parse_partial("hello", 5), None);
}

#[test]
fn test_suggestion_creation() {
    let suggestion = Suggestion::command("help", Some("Show help".to_string()));
    assert_eq!(suggestion.id, "help");
    assert_eq!(suggestion.display_text, "/help");
    assert_eq!(suggestion.completion_type, CompletionType::Command);
}

#[test]
fn test_completion_state_show_hide() {
    let mut state = CompletionState::new();

    let suggestions = vec![
        Suggestion::command("help", None),
        Suggestion::command("provider", None),
    ];

    state.show(suggestions, "/h");
    assert!(state.is_visible());
    assert_eq!(state.count(), 2);
    assert_eq!(state.selected_index(), 0);

    state.hide_popup();
    assert!(!state.is_visible());
    assert_eq!(state.count(), 0);
}

#[test]
fn test_completion_state_navigation() {
    let mut state = CompletionState::new();

    let suggestions = vec![
        Suggestion::command("help", None),
        Suggestion::command("provider", None),
        Suggestion::command("model", None),
    ];

    state.show(suggestions, "/");

    // Navigate forward
    state.select_next();
    assert_eq!(state.selected_index(), 1);

    state.select_next();
    assert_eq!(state.selected_index(), 2);

    // Cycle back to first
    state.select_next();
    assert_eq!(state.selected_index(), 0);

    // Navigate backward
    state.select_prev();
    assert_eq!(state.selected_index(), 2);

    state.select_prev();
    assert_eq!(state.selected_index(), 1);
}

#[test]
fn test_input_changed_detection() {
    let mut state = CompletionState::new();

    let suggestions = vec![Suggestion::command("help", None)];
    state.show(suggestions, "/h");

    assert!(!state.input_changed("/h"));
    assert!(state.input_changed("/he"));
    assert!(state.input_changed("/help"));
}

#[test]
fn test_show_empty_hides_popup() {
    let mut state = CompletionState::default();
    state.show(vec![Suggestion::command("help", None)], "/h");
    state.show(Vec::new(), "/x");
    assert!(!state.is_visible());
    assert_eq!(state.count(), 0);
    assert!(state.selected_suggestion().is_none());
    state.select_next();
    state.select_prev();
    assert_eq!(state.selected_index(), 0);
}

#[test]
fn test_selected_suggestion_follows_navigation() {
    let mut state = CompletionState::new();
    state.show(vec![Suggestion::command("help", None), Suggestion::command("clear", None)], "/");
    assert_eq!(state.selected_suggestion().map(|s| s.id.clone()), Some("help".to_string()));
    state.select_prev();
    assert_eq!(state.selected_suggestion().map(|s| s.id.clone()), Some("clear".to_string()));
    assert_eq!(state.suggestions().len(), 2);
}

#[test]
fn test_parse_partial_cursor_mid_command() {
    let completer = CommandCompleter::with_registry(CommandRegistry::new());
    assert_eq!(completer.parse_partial("/help", 3), Some("he".to_string()));
    assert_eq!(completer.parse_partial("/help me", 8), Some("help".to_string()));
    assert_eq!(completer.parse_partial("/", 1), None);
    assert!(completer.get_matching_commands("zzz").is_empty());
}
