use quickhorse_core::permissions::{PermissionBehavior, PermissionMode};
use quickhorse_core::tools::database::{default_format, format_json, format_table, parse_table_output, DatabaseInput, DatabaseTool, OutputFormat};
use quickhorse_core::tools::execute::{check_execute_permission, default_timeout, is_supported_language, normalize_language, ExecuteInput, ExecuteTool};
use quickhorse_core::tools::git::{GitInput, GitOperation, GitTool};
use quickhorse_core::tools::image::{default_action, detect_format, format_name_from_image_format, get_mime_type, is_supported_image, ImageAction, ImageFormat, ImageInput, ImageTool};
use quickhorse_core::tools::write::{WriteInput, WriteTool};
use quickhorse_core::tools::ToolResult;

#[test]
fn test_database_tool_creation() {
    let tool = DatabaseTool::new();
    assert_eq!(tool.name(), "Database");
    assert!(!tool.description().is_empty());
}

#[test]
fn test_default_format() {
    assert!(matches!(default_format(), OutputFormat::Table));
}

#[test]
fn test_format_table_empty() {
    let result = format_table(&[], &[]);
    assert_eq!(result, "Empty result");
}

#[test]
fn test_format_table_single_row() {
    let columns = vec!["id".to_string(), "name".to_string()];
    let data = vec![vec!["1".to_string(), "Alice".to_string()]];
    let result = format_table(&columns, &data);
    assert!(result.contains("id"));
    assert!(result.contains("name"));
    assert!(result.contains("Alice"));
    assert!(result.contains("1"));
    assert!(result.contains("1 rows"));
}

#[test]
fn test_format_table_multiple_rows() {
    let columns = vec!["key".to_string(), "value".to_string()];
    let data = vec![
        vec!["1".to_string(), "a".to_string()],
        vec!["2".to_string(), "b".to_string()],
    ];
    let result = format_table(&columns, &data);
    assert!(result.contains("2 rows"));
}

#[test]
fn test_format_table_exact_layout() {
    let columns = vec!["id".to_string(), "name".to_string()];
    let data = vec![vec!["1".to_string(), "Alice".to_string(), "x".to_string()]];
    assert_eq!(format_table(&columns, &data), " id | name  \n---+------\n 1  | Alice | x \n(1 rows)");
    assert_eq!(format_table(&columns, &[]), " id | name \n---+-----\n(0 rows)");
}

#[test]
fn test_format_json_rows() {
    let columns = vec!["id".to_string(), "name".to_string()];
    let data = vec![vec!["1".to_string()]];
    assert_eq!(format_json(&columns, &data), r#"[{"id":"1","name":""}]"#);
    assert_eq!(format_json(&[], &[]), "[]");
}

#[test]
fn test_parse_table_output_and_read_queries() {
    let (cols, data, n) = parse_table_output("id | name\n-- | ----\n1 | Alice\n2 | Bob\n");
    assert_eq!(cols, vec!["id".to_string(), "name".to_string()]);
    assert_eq!(data, vec![vec!["1".to_string(), "Alice".to_string()], vec!["2".to_string(), "Bob".to_string()]]);
    assert_eq!(n, 2);
    let (cols, data, n) = parse_table_output("");
    assert!(cols.is_empty() && data.is_empty() && n == 0);
    assert!(DatabaseTool::is_read_query("  SELECT 1"));
    assert!(!DatabaseTool::is_read_query("insert into t values (1)"));
    let input = DatabaseInput { database_path: "db.sqlite".to_string(), query: "PRAGMA x".to_string(), format: OutputFormat::Table };
    assert_eq!(DatabaseTool::precheck(&input, false), Some("Database file not found: db.sqlite".to_string()));
    assert_eq!(DatabaseTool::precheck(&input, true), None);
    assert!(DatabaseTool::is_read_only(&input));
    assert_eq!(DatabaseTool::sqlite_args(&input), vec!["db.sqlite", "-header", "-column", "PRAGMA x"]);
    let err = DatabaseTool::result(&input, Err("boom".to_string()), 3).unwrap_err();
    assert_eq!(err, "Database error: boom");
}

#[test]
fn test_normalize_language() {
    assert_eq!(normalize_language("python"), "python");
    assert_eq!(normalize_language("py"), "python");
    assert_eq!(normalize_language("Python"), "python");
    assert_eq!(normalize_language("node"), "node");
    assert_eq!(normalize_language("javascript"), "node");
    assert_eq!(normalize_language("js"), "node");
    assert_eq!(normalize_language("Node"), "node");
}

#[test]
fn test_is_supported_language() {
    assert!(is_supported_language("python"));
    assert!(is_supported_language("node"));
    assert!(!is_supported_language("ruby"));
    assert!(!is_supported_language("bash"));
}

#[test]
fn test_default_timeout() {
    assert_eq!(default_timeout(), 30);
}

#[test]
fn test_execute_prepare_and_output() {
    let input = ExecuteInput { language: "Ruby".to_string(), code: String::new(), timeout: 5 };
    assert_eq!(ExecuteTool::prepare(&input, PermissionMode::Default).unwrap_err(), "Unsupported language: Ruby. Supported: python, node");
    let input = ExecuteInput { language: "JS".to_string(), ..input };
    assert_eq!(ExecuteTool::prepare(&input, PermissionMode::DontAsk).unwrap(), "node");
    assert_eq!(check_execute_permission(PermissionMode::Default), PermissionBehavior::Ask);
    let out = ExecuteTool::output("python".to_string(), 7, Err("deadline timeout reached".to_string()), 10);
    assert!(out.timed_out && !out.success);
    assert_eq!(out.stderr, "Execution timed out after 7 seconds");
    let out = ExecuteTool::output("python".to_string(), 7, Ok(("hi\n".to_string(), String::new(), 0)), 10);
    assert!(out.success && !out.timed_out);
    assert_eq!(ExecuteTool::missing_interpreter("node"), "node interpreter not found. Please install node to use this tool.");
}

#[test]
fn test_is_dangerous_operation() {
    assert!(!GitTool::is_dangerous_operation(&GitOperation::Status));
    assert!(!GitTool::is_dangerous_operation(&GitOperation::Diff));
    assert!(!GitTool::is_dangerous_operation(&GitOperation::Log));
    assert!(!GitTool::is_dangerous_operation(&GitOperation::Add));
    assert!(!GitTool::is_dangerous_operation(&GitOperation::Commit));
    assert!(GitTool::is_dangerous_operation(&GitOperation::Checkout));
}

#[test]
fn test_check_permission() {
    let result = GitTool::check_permission(&GitOperation::Status);
    assert_eq!(result.behavior, PermissionBehavior::Allow);

    let result = GitTool::check_permission(&GitOperation::Checkout);
    assert_eq!(result.behavior, PermissionBehavior::Ask);
}

fn git_input(operation: GitOperation) -> GitInput {
    GitInput { operation, args: None, message: None, branch: None, files: None, limit: None }
}

#[test]
fn test_git_args_messages_and_summaries() {
    let mut log = git_input(GitOperation::Log);
    log.limit = Some(5);
    log.args = Some(vec!["--all".to_string()]);
    assert_eq!(GitTool::build_args(&log), vec!["log", "--oneline", "-n", "5", "--all"]);
    assert_eq!(GitTool::build_args(&git_input(GitOperation::Add)), vec!["add", "."]);
    assert_eq!(GitTool::build_args(&git_input(GitOperation::Commit)), vec!["commit", "-m", "Update"]);
    assert_eq!(GitTool::result_message(&GitOperation::Status, true, "", ""), "Git status: No changes");
    assert_eq!(GitTool::result_message(&GitOperation::Log, true, "  abc\n", ""), "Git log:\nabc");
    assert_eq!(GitTool::result_message(&GitOperation::Checkout, false, "", " err \n"), "Git checkout failed: err");
    assert_eq!(GitTool::summarize(&git_input(GitOperation::Status)), "Checking git status");
    assert!(GitTool::is_read_only(&git_input(GitOperation::Diff)));
    assert!(!GitTool::is_read_only(&git_input(GitOperation::Add)));
}

#[test]
fn test_mime_type_detection() {
    assert_eq!(get_mime_type(ImageFormat::Png), "image/png");
    assert_eq!(get_mime_type(ImageFormat::Jpeg), "image/jpeg");
    assert_eq!(get_mime_type(ImageFormat::Gif), "image/gif");
    assert_eq!(get_mime_type(ImageFormat::Bmp), "image/bmp");
    assert_eq!(get_mime_type(ImageFormat::WebP), "image/webp");
    assert_eq!(get_mime_type(ImageFormat::Tiff), "image/tiff");
    assert_eq!(get_mime_type(ImageFormat::Pnm), "application/octet-stream");
}

#[test]
fn test_format_name_detection() {
    assert_eq!(format_name_from_image_format(ImageFormat::Png), "PNG");
    assert_eq!(format_name_from_image_format(ImageFormat::Jpeg), "JPEG");
    assert_eq!(format_name_from_image_format(ImageFormat::Gif), "GIF");
    assert_eq!(format_name_from_image_format(ImageFormat::Bmp), "BMP");
    assert_eq!(format_name_from_image_format(ImageFormat::WebP), "WebP");
    assert_eq!(format_name_from_image_format(ImageFormat::Tiff), "TIFF");
}

#[test]
fn test_is_supported_image() {
    assert!(is_supported_image("test.png"));
    assert!(is_supported_image("test.jpg"));
    assert!(is_supported_image("test.jpeg"));
    assert!(is_supported_image("test.gif"));
    assert!(is_supported_image("test.webp"));
    assert!(!is_supported_image("test.txt"));
    assert!(!is_supported_image("test.pdf"));
    assert!(!is_supported_image("test"));
}

#[test]
fn test_detect_format() {
    assert_eq!(detect_format("test.png"), Some(ImageFormat::Png));
    assert_eq!(detect_format("test.jpg"), Some(ImageFormat::Jpeg));
    assert_eq!(detect_format("test.jpeg"), Some(ImageFormat::Jpeg));
    assert_eq!(detect_format("test.gif"), Some(ImageFormat::Gif));
    assert_eq!(detect_format("test.webp"), Some(ImageFormat::WebP));
    assert_eq!(detect_format("test.txt"), None);
    assert_eq!(detect_format("test"), None);
}

#[test]
fn test_image_tool_creation() {
    let tool = ImageTool::new();
    assert_eq!(tool.name(), "Image");
    assert!(!tool.description().is_empty());
}

#[test]
fn test_default_action() {
    assert!(matches!(default_action(), ImageAction::Info));
}

#[test]
fn test_image_checks_and_output() {
    assert_eq!(ImageTool::precheck("a.png", false), Some("Image file not found: a.png".to_string()));
    assert_eq!(
        ImageTool::precheck("a.TXT", true),
        Some("Unsupported image format: TXT. Supported: png, jpg, jpeg, gif, bmp, webp, tiff".to_string())
    );
    assert_eq!(ImageTool::precheck("noext", true).unwrap(), "Unsupported image format: unknown. Supported: png, jpg, jpeg, gif, bmp, webp, tiff");
    assert_eq!(ImageTool::precheck("a.PNG", true), None);
    let input = ImageInput { file_path: "a.PNG".to_string(), action: ImageAction::Encode };
    let out = ImageTool::output(&input, 3, Some((1, 2)), b"abc");
    assert_eq!(out.base64, Some("YWJj".to_string()));
    assert_eq!(out.format, Some("PNG".to_string()));
    assert_eq!(out.mime_type, Some("image/png".to_string()));
    assert!(out.description.is_none());
    assert!(ImageTool::needs_data(ImageAction::Analyze));
    assert!(!ImageTool::needs_data(ImageAction::Info));
}

#[test]
fn test_count_lines_empty() {
    assert_eq!(WriteTool::count_lines(""), 0);
}

#[test]
fn test_count_lines_single() {
    assert_eq!(WriteTool::count_lines("Hello"), 1);
}

#[test]
fn test_count_lines_multiple() {
    assert_eq!(WriteTool::count_lines("Line1\nLine2\nLine3"), 3);
}

#[test]
fn test_write_outcome_and_permission() {
    let input = WriteInput { file_path: "/t/a.txt".to_string(), content: "a\nb".to_string() };
    let (out, msg) = WriteTool::write_outcome(&input, None);
    assert_eq!(msg, "File created successfully at: /t/a.txt (2 lines)");
    assert_eq!(out.operation_type, "create");
    let (out, msg) = WriteTool::write_outcome(&input, Some("x".to_string()));
    assert_eq!(msg, "File updated: /t/a.txt (+2 lines, -1 lines)");
    assert_eq!(out.lines_removed, 1);
    assert_eq!(WriteTool::summarize(&input), "Writing 2 lines to /t/a.txt");
    let p = WriteTool::check_write_permission(PermissionMode::Default, true, false);
    assert_eq!(p.behavior, PermissionBehavior::Ask);
    let p = WriteTool::check_write_permission(PermissionMode::AcceptEdits, true, false);
    assert_eq!(p.message, "Accept edits mode");
    let r = ToolResult::error("bad".to_string());
    assert!(r.is_error);
}
