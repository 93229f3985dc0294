use quickhorse_core::commands::{CommandContext, CommandResult};
use quickhorse_core::permissions::PermissionMode;
use quickhorse_core::provider::{ContentBlock, Message, StreamEvent};
use quickhorse_core::tui::app::state::{format_error_box, App, KeyCode, KeyInput, KeyOutcome, PendingPermission, MODIFIER_CONTROL};
use quickhorse_core::tui::completion::path::{PathEntry, PathEntryType};
use quickhorse_core::tui::progress::ToolStatus;

fn key(code: KeyCode) -> KeyInput {
    KeyInput { code, modifiers: 0 }
}

fn type_text(app: &mut App, t: &str) -> KeyOutcome {
    let mut last = KeyOutcome::Done;
    for c in t.chars() {
        last = app.handle_key(key(KeyCode::Char(c)));
    }
    last
}

fn text_of(m: &Message) -> String {
    match &m.content[0] {
        ContentBlock::Text { text } => text.clone(),
    }
}

fn pending(message: &str) -> PendingPermission {
    PendingPermission {
        tool_name: "Bash".to_string(),
        tool_id: "t1".to_string(),
        input: serde_json::Value::Null,
        message: message.to_string(),
    }
}

#[test]
fn new_app_is_idle() {
    let app = App::new("/work".to_string());
    assert_eq!(app.status, "Type your message. Enter to send, Ctrl+Enter for newline. Ctrl+C twice to quit.");
    assert!(app.editor.is_empty());
    assert!(app.messages.is_empty());
    assert!(!app.is_loading && !app.should_quit);
    assert_eq!(app.permission_mode, PermissionMode::Default);
}

#[test]
fn typing_and_sending_a_message() {
    let mut app = App::new("/work".to_string());
    type_text(&mut app, "hi");
    assert_eq!(app.editor.text(), "hi");
    let out = app.handle_key(key(KeyCode::Enter));
    assert!(matches!(out, KeyOutcome::Done));
    assert_eq!(app.messages.len(), 1);
    assert_eq!(app.messages[0].role, "user");
    assert_eq!(text_of(&app.messages[0]), "hi");
    assert!(app.is_loading);
    assert!(app.editor.is_empty());
    // While loading, keys only scroll.
    app.handle_key(key(KeyCode::PageDown));
    app.handle_key(key(KeyCode::Up));
    assert_eq!(app.scroll, 4);
    type_text(&mut app, "x");
    assert!(app.editor.is_empty());
}

#[test]
fn control_enter_inserts_newline() {
    let mut app = App::new("/work".to_string());
    type_text(&mut app, "a");
    app.handle_key(KeyInput { code: KeyCode::Enter, modifiers: MODIFIER_CONTROL });
    type_text(&mut app, "b");
    assert_eq!(app.editor.text(), "a\nb");
    app.handle_key(key(KeyCode::Esc));
    assert!(app.editor.is_empty());
}

#[test]
fn ctrl_c_twice_quits() {
    let mut app = App::new("/work".to_string());
    let ctrl_c = KeyInput { code: KeyCode::Char('c'), modifiers: MODIFIER_CONTROL };
    app.handle_key(ctrl_c);
    assert!(!app.should_quit);
    assert_eq!(app.status, "Press Ctrl+C again within 2 seconds to quit.");
    app.handle_key(ctrl_c);
    assert!(app.should_quit);
}

#[test]
fn another_key_resets_ctrl_c() {
    let mut app = App::new("/work".to_string());
    let ctrl_c = KeyInput { code: KeyCode::Char('c'), modifiers: MODIFIER_CONTROL };
    app.handle_key(ctrl_c);
    app.handle_key(key(KeyCode::Home));
    assert_eq!(app.ctrl_c_count, 0);
    app.handle_key(ctrl_c);
    assert!(!app.should_quit);
}

#[test]
fn slash_command_completion() {
    let mut app = App::new("/work".to_string());
    type_text(&mut app, "/he");
    assert!(app.completion_state.is_visible());
    assert_eq!(app.completion_state.suggestions()[0].id, "help");
    app.handle_key(key(KeyCode::Enter));
    assert_eq!(app.editor.text(), "/help");
    assert!(!app.completion_state.is_visible());
    // Without a command context the command is refused.
    app.handle_key(key(KeyCode::Enter));
    assert_eq!(text_of(app.messages.last().unwrap()), "Commands not available. Please restart with a provider.");
}

#[test]
fn tab_cycles_command_suggestions() {
    let mut app = App::new("/work".to_string());
    type_text(&mut app, "/s");
    let n = app.completion_state.count();
    assert_eq!(n, 2);
    assert_eq!(app.completion_state.selected_index(), 0);
    app.handle_key(key(KeyCode::Tab));
    assert_eq!(app.completion_state.selected_index(), 1);
    app.handle_key(key(KeyCode::BackTab));
    app.handle_key(key(KeyCode::BackTab));
    assert_eq!(app.completion_state.selected_index(), n - 1);
}

#[test]
fn commands_run_by_the_caller() {
    let ctx = CommandContext { current_provider_name: "openai".to_string(), messages: vec![] };
    let mut app = App::with_provider(ctx, PermissionMode::AcceptEdits, "/work".to_string());
    type_text(&mut app, "/status");
    app.handle_key(key(KeyCode::Esc));
    let out = app.handle_key(key(KeyCode::Enter));
    match out {
        KeyOutcome::RunCommand(c) => {
            assert_eq!(c, "/status");
            app.finish_command(&c, Some(CommandResult { output: "all good".to_string(), clear_history: false, provider_changed: true }));
        },
        _ => panic!("expected a command to run"),
    }
    assert_eq!(text_of(app.messages.last().unwrap()), "all good");
    assert_eq!(app.status, "Provider: openai");
    assert_eq!(app.command_ctx.as_ref().unwrap().messages.len(), 1);
    app.finish_command("/nope", None);
    assert_eq!(text_of(app.messages.last().unwrap()), "Unknown command: /nope");
    app.finish_command("/clear", Some(CommandResult { output: "cleared".to_string(), clear_history: true, provider_changed: false }));
    assert!(app.messages.is_empty());
}

#[test]
fn permission_dialog_flow() {
    let mut app = App::new("/work".to_string());
    app.set_pending_permission(pending("run ls"));
    assert!(app.has_pending_permission());
    assert_eq!(app.status, "[?] Permission request - use ↑↓ to select, Enter to confirm");
    app.handle_key(key(KeyCode::Down));
    assert_eq!(app.status, "[?] Selected: Allow & save rule");
    app.handle_key(key(KeyCode::Enter));
    assert!(!app.has_pending_permission());
    assert!(app.permission_dialog.is_none());
    assert_eq!(text_of(app.messages.last().unwrap()), "✓ Permission approved & rule will be saved for: run ls");
    assert!(app.pending_permission_updates.is_some());
}

#[test]
fn permission_cancel_and_deny() {
    let mut app = App::new("/work".to_string());
    app.set_pending_permission(pending("rm x"));
    app.handle_key(key(KeyCode::Esc));
    assert_eq!(text_of(app.messages.last().unwrap()), "Permission request cancelled");
    app.set_pending_permission(pending("rm x"));
    app.handle_key(key(KeyCode::Down));
    app.handle_key(key(KeyCode::Down));
    app.handle_key(key(KeyCode::Enter));
    assert_eq!(text_of(app.messages.last().unwrap()), "✗ Permission denied for: rm x");
    assert!(app.pending_permission_updates.is_none());
}

#[test]
fn legacy_permission_answers() {
    let mut app = App::new("/work".to_string());
    app.pending_permission = Some(pending("write f"));
    app.handle_key(key(KeyCode::Char('x')));
    assert!(app.has_pending_permission());
    app.handle_key(key(KeyCode::Char('Y')));
    assert_eq!(app.status, "Approved: Bash");
    assert_eq!(text_of(app.messages.last().unwrap()), "Permission approved for: write f");
    app.pending_permission = Some(pending("write g"));
    assert_eq!(app.handle_permission_response(false), Some("Permission denied for: write g".to_string()));
    assert_eq!(app.status, "Denied: Bash");
    assert_eq!(app.handle_permission_response(true), None);
}

#[test]
fn streaming_updates_the_last_message() {
    let mut app = App::new("/work".to_string());
    app.start_streaming();
    assert!(app.is_streaming && app.is_loading && app.stream_open);
    assert!(!app.handle_stream_event(vec![]));
    let more = app.handle_stream_event(vec![StreamEvent::TextDelta("Hel".to_string()), StreamEvent::TextDelta("lo".to_string())]);
    assert!(more);
    assert_eq!(text_of(app.messages.last().unwrap()), "Hello");
    let more = app.handle_stream_event(vec![StreamEvent::Done, StreamEvent::TextDelta("ignored".to_string())]);
    assert!(!more);
    assert!(!app.is_streaming && !app.is_loading && !app.stream_open);
    assert_eq!(app.streaming_text, "");
    assert_eq!(text_of(app.messages.last().unwrap()), "Hello");
}

#[test]
fn streaming_tool_calls_are_noted() {
    let mut app = App::new("/work".to_string());
    app.start_streaming();
    app.handle_stream_event(vec![
        StreamEvent::ToolCallStart { id: "c1".to_string(), name: "Bash".to_string() },
        StreamEvent::ToolCallDelta { id: "c1".to_string(), arguments: "{}".to_string() },
        StreamEvent::ToolCallComplete { id: "c1".to_string(), name: "Bash".to_string(), arguments: "{\"a\":1}".to_string() },
    ]);
    assert_eq!(app.streaming_text, "\n[Tool: Bash (c1)]\n{}\n[Tool Bash ready: 7 bytes]\n");
    assert_eq!(app.tool_progress_count(), 1);
    app.complete_tool("c1", true, String::new());
    assert_eq!(app.tool_progress_count(), 0);
    app.clear_completed_tools();
    assert!(app.progress_manager.tools.is_empty());
}

#[test]
fn stream_errors_shown_in_a_box() {
    let mut app = App::new("/work".to_string());
    app.start_streaming();
    assert_eq!(app.handle_stream_events_checked(vec![StreamEvent::Error("bad".to_string())]), None);
    assert!(app.is_streaming);
    assert_eq!(app.handle_stream_events_checked(vec![StreamEvent::Error("Something broke".to_string())]), Some(false));
    assert_eq!(text_of(app.messages.last().unwrap()), format_error_box("Something broke").unwrap().join("\n"));
    assert!(!app.is_streaming);
}

#[test]
fn error_box_layout() {
    let rows = format_error_box("Something broke").unwrap();
    assert_eq!(rows[0], format!("┌─ 错误 ─{}┐", "─".repeat(9)));
    assert_eq!(rows[1], "│ Something broke│");
    assert_eq!(rows[2], format!("└{}┘", "─".repeat(17)));
    let long = "x".repeat(60);
    let rows = format_error_box(&format!("short line\n{}", long)).unwrap();
    assert_eq!(rows[1], format!("│ short line{}│", " ".repeat(40)));
    assert_eq!(rows[2], format!("│ {}...│", "x".repeat(47)));
    assert!(format_error_box("tiny").is_none());
}

#[test]
fn tools_tracked_by_id() {
    let mut app = App::new("/work".to_string());
    app.start_tool("a".to_string(), "Read".to_string(), "reading".to_string());
    app.start_tool("b".to_string(), "Write".to_string(), "writing".to_string());
    assert_eq!(app.tool_progress_count(), 2);
    app.update_tool_status("b", ToolStatus::WaitingConfirmation);
    assert_eq!(app.tool_progress_count(), 1);
    app.complete_tool("a", false, String::new());
    assert_eq!(app.progress_manager.tools[0].status, ToolStatus::Error);
    app.complete_tool("zzz", true, String::new());
    app.clear_completed_tools();
    assert_eq!(app.progress_manager.tools.len(), 1);
    assert!(app.tool_progress_map.is_empty());
}

#[test]
fn path_completion_flow() {
    let mut app = App::new("/work".to_string());
    let out = type_text(&mut app, "cat ./s");
    assert!(matches!(out, KeyOutcome::CompletePath));
    let q = app.path_query("/home/me").unwrap();
    assert_eq!(q.directory, "/work");
    assert_eq!(q.prefix, "s");
    let listing = vec![
        PathEntry { name: "src".to_string(), path: "/work/src".to_string(), entry_type: PathEntryType::Directory },
        PathEntry { name: "setup.py".to_string(), path: "/work/setup.py".to_string(), entry_type: PathEntryType::File },
        PathEntry { name: "docs".to_string(), path: "/work/docs".to_string(), entry_type: PathEntryType::Directory },
    ];
    app.apply_path_completion(&q, listing);
    assert!(app.completion_state.is_visible());
    assert_eq!(app.completion_state.count(), 2);
    app.handle_key(key(KeyCode::Enter));
    assert_eq!(app.editor.text(), "cat ./src/");
}

#[test]
fn editing_keys_move_the_cursor() {
    let mut app = App::new("/work".to_string());
    type_text(&mut app, "abc");
    app.handle_key(key(KeyCode::Left));
    app.handle_key(key(KeyCode::Backspace));
    assert_eq!(app.editor.text(), "ac");
    app.handle_key(key(KeyCode::Delete));
    assert_eq!(app.editor.text(), "a");
    app.handle_key(key(KeyCode::End));
    type_text(&mut app, "z");
    assert_eq!(app.editor.text(), "az");
    app.handle_key(key(KeyCode::Down));
    assert_eq!(app.scroll, 1);
    app.handle_key(key(KeyCode::Up));
    assert_eq!(app.scroll, 0);
}

#[test]
fn keys_that_can_be_handled() {
    let mut app = App::new(".".to_string());
    assert!(app.can_handle_key(key(KeyCode::Char('a'))));
    assert!(app.can_handle_key(KeyInput { code: KeyCode::Char('c'), modifiers: MODIFIER_CONTROL }));
    app.scroll = u16::MAX;
    assert!(!app.can_handle_key(key(KeyCode::PageDown)));
    assert!(!app.can_handle_key(key(KeyCode::Down)));
    assert!(app.can_handle_key(key(KeyCode::Up)));
    app.scroll = u16::MAX - 5;
    assert!(app.can_handle_key(key(KeyCode::PageDown)));
    app.ctrl_c_count = u32::MAX;
    app.last_ctrl_c_time = Some(std::time::Instant::now());
    assert!(!app.can_handle_key(KeyInput { code: KeyCode::Char('c'), modifiers: MODIFIER_CONTROL }));
}

#[test]
fn ctrl_c_counts_only_within_two_seconds() {
    let mut app = App::new("/work".to_string());
    app.record_ctrl_c(std::time::Instant::now(), None);
    assert_eq!(app.ctrl_c_count, 1);
    assert!(!app.should_quit);
    assert_eq!(app.status, "Press Ctrl+C again within 2 seconds to quit.");
    app.record_ctrl_c(std::time::Instant::now(), Some(2_000_000_000));
    assert_eq!(app.ctrl_c_count, 1);
    assert!(!app.should_quit);
    app.record_ctrl_c(std::time::Instant::now(), Some(1_999_999_999));
    assert_eq!(app.ctrl_c_count, 2);
    assert!(app.should_quit);
}

#[test]
fn ctrl_c_without_a_previous_press_starts_the_count() {
    let mut app = App::new("/work".to_string());
    app.record_ctrl_c(std::time::Instant::now(), Some(5));
    assert_eq!(app.ctrl_c_count, 1);
    assert!(!app.should_quit);
}
