use base64::engine::general_purpose::STANDARD;
use base64::Engine;
use quickhorse_core::commands::CommandRegistry;
use quickhorse_core::paths::resolve_path;
use quickhorse_core::permissions::PermissionResult;
use quickhorse_core::provider::StreamEvent;
use quickhorse_core::tools::database::{format_json, json_table, rows_from_json_output, DatabaseInput, DatabaseTool, OutputFormat};
use quickhorse_core::tools::git::{GitInput, GitOperation, GitTool};
use quickhorse_core::tools::image::ImageTool;
use quickhorse_core::tools::patch::expand_path;
use quickhorse_core::tools::write::{WriteInput, WriteTool};
use quickhorse_core::tui::completion::path::PathCompleter;
use quickhorse_core::tui::cursor::DoublePressDetector;
use quickhorse_core::tui::progress::{ProgressManager, Spinner, ToolProgress, SPINNER_FRAME_COUNT};
use std::time::{Duration, Instant};

const HOME: &str = "/home/tester";
const CWD: &str = "/work/project";

fn wait(ms: u64) {
    let start = Instant::now();
    while start.elapsed() < Duration::from_millis(ms) {}
}

fn git(operation: GitOperation) -> GitInput {
    GitInput { operation, args: None, message: None, branch: None, files: None, limit: None }
}

#[test]
fn test_registry_is_command() {
    assert!(CommandRegistry::is_command("/help"));
    assert!(CommandRegistry::is_command("/provider"));
    assert!(CommandRegistry::is_command("/clear"));
    assert!(!CommandRegistry::is_command("hello"));
    assert!(!CommandRegistry::is_command(""));
}

#[test]
fn test_registry_parse_input() {
    let (cmd, args) = CommandRegistry::parse_input("/help").unwrap();
    assert_eq!(cmd, "help");
    assert_eq!(args.len(), 0);

    let (cmd, args) = CommandRegistry::parse_input("/provider ollama").unwrap();
    assert_eq!(cmd, "provider");
    assert_eq!(args.len(), 1);
    assert_eq!(args[0], "ollama");

    let (cmd, args) = CommandRegistry::parse_input("/model gpt-4o").unwrap();
    assert_eq!(cmd, "model");
    assert_eq!(args.len(), 1);

    assert!(CommandRegistry::parse_input("").is_none());
    assert!(CommandRegistry::parse_input("/").is_none());
    assert!(CommandRegistry::parse_input("not a command").is_none());
}

#[test]
fn builtin_commands_listed_with_descriptions() {
    let registry = CommandRegistry::new();
    let commands = registry.list_commands();
    assert_eq!(commands[0].name, "help");
    assert_eq!(commands[0].description, "Show available commands");
    assert_eq!(commands[1].name, "clear");
    assert_eq!(commands[1].description, "Clear message history");
}

#[test]
fn test_permission_result_is_allowed() {
    let result = PermissionResult::allow("Test allow");
    assert!(result.is_allowed());
    assert!(!result.is_denied());
    assert!(!result.needs_confirmation());
}

#[test]
fn test_permission_result_is_denied() {
    let result = PermissionResult::deny("Test deny");
    assert!(result.is_denied());
    assert!(!result.is_allowed());
    assert!(!result.needs_confirmation());
}

#[test]
fn test_permission_result_needs_confirmation() {
    let result = PermissionResult::ask("Test ask");
    assert!(result.needs_confirmation());
    assert!(!result.is_allowed());
    assert!(!result.is_denied());
}

#[test]
fn test_text_delta_event() {
    let event = StreamEvent::TextDelta("Hello, world!".to_string());
    assert!(event.is_text());
    assert!(!event.is_error());
    assert!(!event.is_done());
    assert_eq!(event.text(), Some("Hello, world!"));
    assert_eq!(event.error_message(), None);
}

#[test]
fn test_empty_text_delta() {
    let event = StreamEvent::TextDelta("".to_string());
    assert!(event.is_text());
    assert_eq!(event.text(), Some(""));
}

#[test]
fn test_unicode_text_delta() {
    let event = StreamEvent::TextDelta("你好世界 🎉".to_string());
    assert!(event.is_text());
    assert_eq!(event.text(), Some("你好世界 🎉"));

    let emoji_event = StreamEvent::TextDelta("😀🎉🚀".to_string());
    assert_eq!(emoji_event.text(), Some("😀🎉🚀"));
}

#[test]
fn test_error_event() {
    let event = StreamEvent::Error("Connection timeout".to_string());
    assert!(!event.is_text());
    assert!(event.is_error());
    assert!(!event.is_done());
    assert_eq!(event.error_message(), Some("Connection timeout"));
    assert_eq!(event.text(), None);
}

#[test]
fn test_done_event() {
    let event = StreamEvent::Done;
    assert!(!event.is_text());
    assert!(!event.is_error());
    assert!(event.is_done());
    assert_eq!(event.text(), None);
    assert_eq!(event.error_message(), None);
}

#[test]
fn test_tool_call_start_event() {
    let event = StreamEvent::ToolCallStart { id: "call_abc123".to_string(), name: "bash".to_string() };
    assert!(!event.is_text());
    assert!(!event.is_error());
    assert!(!event.is_done());
    assert_eq!(event.text(), None);
}

#[test]
fn test_tool_call_delta_event() {
    let event = StreamEvent::ToolCallDelta {
        id: "call_xyz789".to_string(),
        arguments: "{\"command\": \"ls -la\"}".to_string(),
    };
    assert!(!event.is_text());
    assert!(!event.is_error());
    assert!(!event.is_done());
    assert_eq!(event.text(), None);
}

#[test]
fn test_stream_event_clone() {
    let event = StreamEvent::TextDelta("Original".to_string());
    let cloned = event.clone();
    assert_eq!(event.text(), cloned.text());
}

#[test]
fn test_stream_event_debug() {
    let event = StreamEvent::TextDelta("Test".to_string());
    let debug_str = format!("{:?}", event);
    assert!(debug_str.contains("TextDelta"));
    assert!(debug_str.contains("Test"));
}

#[test]
fn test_format_json_empty() {
    let result = format_json(&[], &[]);
    assert_eq!(result, "[]");
}

#[test]
fn test_format_json_single_row() {
    let columns = vec!["id".to_string(), "name".to_string()];
    let data = vec![vec!["1".to_string(), "Alice".to_string()]];
    let result = format_json(&columns, &data);
    assert!(result.contains("id"));
    assert!(result.contains("name"));
    assert!(result.contains("Alice"));
}

#[test]
fn test_is_read_only_select() {
    let input = DatabaseInput {
        database_path: "test.db".to_string(),
        query: "SELECT * FROM users".to_string(),
        format: OutputFormat::Table,
    };
    assert!(DatabaseTool::is_read_only(&input));
}

#[test]
fn test_is_read_only_insert() {
    let input = DatabaseInput {
        database_path: "test.db".to_string(),
        query: "INSERT INTO users VALUES (1, 'test')".to_string(),
        format: OutputFormat::Table,
    };
    assert!(!DatabaseTool::is_read_only(&input));
}

#[test]
fn git_test_summarize() {
    assert_eq!(GitTool::summarize(&git(GitOperation::Status)), "Checking git status");
    assert_eq!(GitTool::summarize(&git(GitOperation::Diff)), "Viewing git diff");
    let mut commit = git(GitOperation::Commit);
    commit.message = Some("Test commit".to_string());
    assert_eq!(GitTool::summarize(&commit), "Committing changes");
}

#[test]
fn test_is_read_only() {
    assert!(GitTool::is_read_only(&git(GitOperation::Status)));
    assert!(GitTool::is_read_only(&git(GitOperation::Diff)));
    assert!(!GitTool::is_read_only(&git(GitOperation::Add)));
    assert!(!GitTool::is_read_only(&git(GitOperation::Commit)));
}

#[test]
fn test_base64_encode_decode() {
    let data = "test image data";
    let encoded = STANDARD.encode(data.as_bytes());
    assert!(!encoded.is_empty());
    let decoded = STANDARD.decode(&encoded).unwrap();
    assert_eq!(decoded, data.as_bytes());
}

#[test]
fn test_image_tool_is_read_only() {
    let tool = ImageTool::new();
    assert!(tool.is_read_only());
}

#[test]
fn write_test_summarize() {
    let input = WriteInput { file_path: "/test/path.txt".to_string(), content: "Line1\nLine2\nLine3".to_string() };
    let summary = WriteTool::summarize(&input);
    assert!(summary.contains("Writing 3 lines"));
    assert!(summary.contains("/test/path.txt"));
}

#[test]
fn write_test_expand_path_home() {
    let path = WriteTool::expand_path("~/src/test.txt", HOME, CWD);
    assert!(path.starts_with(HOME));
    assert!(path.contains("src/test.txt"));
}

#[test]
fn write_test_expand_path_relative() {
    let path = WriteTool::expand_path("./test.txt", HOME, CWD);
    assert!(path.starts_with(CWD));
    assert!(path.ends_with("test.txt"));
}

#[test]
fn test_expand_path_absolute() {
    let path = WriteTool::expand_path("/usr/local/test.txt", HOME, CWD);
    assert_eq!(path, "/usr/local/test.txt");
}

#[test]
fn patch_test_expand_path_home() {
    let expanded = expand_path("~/test.txt", HOME);
    assert!(expanded.contains("test.txt"));
    assert!(!expanded.starts_with('~'));
}

#[test]
fn path_test_expand_path_home() {
    let completer = PathCompleter::with_cwd(CWD.to_string());
    let expanded = completer.expand_path("~", HOME);
    assert!(expanded.starts_with(HOME));
    let expanded = completer.expand_path("~/src", HOME);
    assert!(expanded.contains("src"));
}

#[test]
fn path_test_expand_path_relative() {
    let completer = PathCompleter::with_cwd(CWD.to_string());
    let expanded = completer.expand_path(".", HOME);
    assert_eq!(expanded, completer.cwd());
    let expanded = completer.expand_path("./src", HOME);
    assert!(expanded.ends_with("src"));
    let expanded = completer.expand_path("../parent", HOME);
    assert!(expanded.ends_with("parent"));
}

#[test]
fn test_double_press_detector() {
    let mut dp = DoublePressDetector::new(Duration::from_millis(500));
    assert!(!dp.check());
    wait(100);
    assert!(dp.check());
    assert!(!dp.is_pending());
}

#[test]
fn test_double_press_timeout_expired() {
    let mut dp = DoublePressDetector::new(Duration::from_millis(100));
    assert!(!dp.check());
    wait(150);
    assert!(!dp.check());
}

#[test]
fn test_spinner_frames() {
    let mut spinner = Spinner::new();
    assert!(spinner.frame() < SPINNER_FRAME_COUNT);
    spinner.tick();
    assert_eq!(spinner.frame(), 0);
    wait(100);
    spinner.tick();
    assert_eq!(spinner.frame(), 1);
}

#[test]
fn test_spinner_elapsed() {
    let spinner = Spinner::new();
    wait(100);
    assert!(spinner.elapsed().as_millis() >= 100);
}

#[test]
fn test_tool_progress_elapsed() {
    let tp = ToolProgress::new("BashTool".to_string(), "test".to_string());
    wait(50);
    assert!(tp.elapsed().as_millis() >= 50);
}

#[test]
fn test_progress_manager_tick() {
    let mut pm = ProgressManager::new();
    pm.start_main(None);
    let changed = pm.tick();
    assert!(!changed);
    wait(100);
    let changed = pm.tick();
    assert!(changed);
}

#[test]
fn sqlite_json_output_as_table() {
    let (cols, data, n) =
        rows_from_json_output(r#"[{"id":1,"name":"Alice"},{"id":2,"name":null},{"name":"Bob"}]"#).unwrap();
    assert_eq!(cols, vec!["id".to_string(), "name".to_string()]);
    assert_eq!(data[0], vec!["1".to_string(), "Alice".to_string()]);
    assert_eq!(data[1], vec!["2".to_string(), "null".to_string()]);
    assert_eq!(data[2], vec!["".to_string(), "Bob".to_string()]);
    assert_eq!(n, 3);
    let (cols, data, n) = rows_from_json_output("").unwrap();
    assert!(cols.is_empty() && data.is_empty() && n == 0);
    let (cols, _, n) = rows_from_json_output("[]").unwrap();
    assert!(cols.is_empty() && n == 0);
    let (_, _, n) = rows_from_json_output("{\"a\":1}").unwrap();
    assert_eq!(n, 0);
    let err = rows_from_json_output("not json").unwrap_err();
    assert!(err.starts_with("Failed to parse JSON: "));
}

#[test]
fn json_table_from_read_rows() {
    let rows = vec![
        Some(vec![("b".to_string(), "x".to_string()), ("a".to_string(), "y".to_string())]),
        None,
        Some(vec![("a".to_string(), "z".to_string())]),
    ];
    let (cols, data, n) = json_table(Ok(Some(rows))).unwrap();
    assert_eq!(cols, vec!["b".to_string(), "a".to_string()]);
    assert_eq!(data[0], vec!["x".to_string(), "y".to_string()]);
    assert!(data[1].is_empty());
    assert_eq!(data[2], vec!["".to_string(), "z".to_string()]);
    assert_eq!(n, 3);
    assert_eq!(json_table(Err("bad".to_string())).unwrap_err(), "Failed to parse JSON: bad");
    assert_eq!(json_table(Ok(None)).unwrap().2, 0);
}

#[test]
fn spinner_advances_only_when_due() {
    let mut spinner = Spinner::with_verb("Working".to_string());
    assert!(!spinner.advance_after(79_999_999, Instant::now()));
    assert_eq!(spinner.frame(), 0);
    assert!(spinner.advance_after(80_000_000, Instant::now()));
    assert_eq!(spinner.frame(), 1);
    for _ in 0..9 {
        spinner.advance_after(1_000_000_000, Instant::now());
    }
    assert_eq!(spinner.frame(), 0);
    assert_eq!(spinner.message(), "Working…");
}

#[test]
fn double_press_registered_by_elapsed_time() {
    let mut dp = DoublePressDetector::new(Duration::from_millis(500));
    assert!(!dp.register_press(None, Instant::now()));
    assert!(dp.is_pending());
    assert!(!dp.register_press(Some(500_000_000), Instant::now()));
    assert!(dp.is_pending());
    assert!(dp.register_press(Some(499_999_999), Instant::now()));
    assert!(!dp.is_pending());
    assert!(!dp.register_press(Some(0), Instant::now()));
    assert!(dp.is_pending());
}

#[test]
fn new_spinner_uses_a_loading_verb() {
    let spinner = Spinner::new();
    assert_eq!(spinner.frame(), 0);
    assert!(spinner.message().ends_with('…'));
}

#[test]
fn relative_paths_join_onto_the_directory() {
    assert_eq!(resolve_path("a.txt", "/tmp"), "/tmp/a.txt");
    assert_eq!(resolve_path("a.txt", "/tmp/"), "/tmp/a.txt");
    assert_eq!(resolve_path("src/a.rs", "rel"), "rel/src/a.rs");
    assert_eq!(resolve_path("a.txt", ""), "a.txt");
    assert_eq!(resolve_path("/etc/hosts", "/tmp"), "/etc/hosts");
}
