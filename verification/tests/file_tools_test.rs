use quickhorse_core::permissions::PermissionBehavior;
use quickhorse_core::tools::file_edit::{FileEditInput, FileEditTool};
use quickhorse_core::tools::git::GitTool;

fn edit(old: &str, new: &str, all: bool) -> FileEditInput {
    FileEditInput {
        file_path: "src/lib.rs".to_string(),
        old_string: old.to_string(),
        new_string: new.to_string(),
        replace_all: all,
    }
}

#[test]
fn edit_permission_request_names_the_first_lines() {
    let r = FileEditTool::permission_request(&edit("fn a() {\n}", "fn b() {\n}", false));
    assert_eq!(r.behavior, PermissionBehavior::Ask);
    assert_eq!(r.message, "Edit file 'src/lib.rs': replace 'fn a() {' with 'fn b() {'?");
}

#[test]
fn edit_validation_errors() {
    assert_eq!(FileEditTool::validate(&edit("", "x", false)), Some("old_string cannot be empty".to_string()));
    assert_eq!(
        FileEditTool::validate(&edit("x", "x", false)),
        Some("old_string and new_string are identical, no changes needed".to_string())
    );
    assert_eq!(FileEditTool::validate(&edit("x", "y", false)), None);
}

#[test]
fn edit_replaces_first_or_all() {
    let (content, message) = FileEditTool::edit_content(&edit("a", "b", true), "a-a-a").unwrap();
    assert_eq!(content, "b-b-b");
    assert!(message.starts_with("Successfully edited src/lib.rs (3 replacement(s))"));
    let err = FileEditTool::edit_content(&edit("a", "b", false), "a-a").unwrap_err();
    assert!(err.starts_with("Found 2 occurrences of old_string."));
    let (single, _) = FileEditTool::edit_content(&edit("x", "yy", false), "axb").unwrap();
    assert_eq!(single, "ayyb");
}

#[test]
fn git_tool_description() {
    assert!(GitTool::new().description().starts_with("Execute Git operations."));
}
