use quickhorse_core::permissions::PermissionMode;
use quickhorse_core::tools::patch::{apply_hunks, parse_diff_hunks, parse_range_number, patch_file_content, patch_fits, PatchInput, PatchTool};

#[test]
fn test_parse_diff_header() {
    let diff = "@@ -1,5 +1,6 @@";
    let hunks = parse_diff_hunks(diff);
    assert_eq!(hunks.len(), 1);
    assert_eq!(hunks[0].old_start, 1);
    assert_eq!(hunks[0].old_lines, 5);
    assert_eq!(hunks[0].new_start, 1);
    assert_eq!(hunks[0].new_lines, 6);
}

#[test]
fn test_parse_diff_with_lines() {
    let diff = "@@ -1,3 +1,4 @@
 line1
-line2
+line2_modified
 line3";
    let hunks = parse_diff_hunks(diff);
    assert_eq!(hunks.len(), 1);
    assert_eq!(hunks[0].lines.len(), 4);
}

#[test]
fn test_apply_simple_patch() {
    let original = "line1\nline2\nline3";
    let diff = "@@ -1,3 +1,3 @@
 line1
-line2
+line2_new
 line3";
    let hunks = parse_diff_hunks(diff);
    let (result, conflicts) = apply_hunks(original, &hunks).unwrap();
    assert!(conflicts.is_empty());
    assert_eq!(result, "line1\nline2_new\nline3");
}

#[test]
fn test_apply_add_line_patch() {
    let original = "line1\nline3";
    let diff = "@@ -1,2 +1,3 @@
 line1
+line2
 line3";
    let hunks = parse_diff_hunks(diff);
    let (result, conflicts) = apply_hunks(original, &hunks).unwrap();
    assert!(conflicts.is_empty());
    assert_eq!(result, "line1\nline2\nline3");
}

#[test]
fn test_apply_remove_line_patch() {
    let original = "line1\nline2\nline3";
    let diff = "@@ -1,3 +1,2 @@
 line1
-line2
 line3";
    let hunks = parse_diff_hunks(diff);
    let (result, conflicts) = apply_hunks(original, &hunks).unwrap();
    assert!(conflicts.is_empty());
    assert_eq!(result, "line1\nline3");
}

#[test]
fn test_apply_multi_hunk_patch() {
    let original = "a\nb\nc\nd\ne\nf";
    let diff = "@@ -1,2 +1,2 @@
-a
+a_new
 b
@@ -5,2 +5,2 @@
 e
-f
+f_new";
    let hunks = parse_diff_hunks(diff);
    let (result, conflicts) = apply_hunks(original, &hunks).unwrap();
    assert!(conflicts.is_empty());
    assert_eq!(result, "a_new\nb\nc\nd\ne\nf_new");
}

#[test]
fn test_parse_range_number() {
    assert_eq!(parse_range_number("-1,5", true), 1);
    assert_eq!(parse_range_number("-1,5", false), 5);
    assert_eq!(parse_range_number("-1", true), 1);
    assert_eq!(parse_range_number("-1", false), 1);
}

#[test]
fn test_parse_range_number_edge_cases() {
    assert_eq!(parse_range_number("+12,34", true), 12);
    assert_eq!(parse_range_number("+12,34", false), 34);
    assert_eq!(parse_range_number("-x,5", true), 1);
    assert_eq!(parse_range_number("-3,", false), 1);
    assert_eq!(parse_range_number("-3,4,9", false), 4);
    assert_eq!(parse_range_number("-99999999999,2", true), 1);
    assert_eq!(parse_range_number("-+7", true), 7);
}

#[test]
fn test_parse_skips_lines_before_first_hunk_and_short_headers() {
    let diff = "--- a/f\n+++ b/f\n@@ bad\n+x\n@@ -2 +2 @@\n+y\nnot a body line";
    let hunks = parse_diff_hunks(diff);
    assert_eq!(hunks.len(), 1);
    assert_eq!((hunks[0].old_start, hunks[0].old_lines), (2, 1));
    assert_eq!(hunks[0].lines, vec!["+y".to_string()]);
}

#[test]
fn test_apply_keeps_trailing_newline_and_appends_past_end() {
    let hunks = parse_diff_hunks("@@ -9,0 +9,1 @@\n+tail");
    let (result, _) = apply_hunks("a\nb\n", &hunks).unwrap();
    assert_eq!(result, "a\nb\ntail\n");
}

#[test]
fn test_patch_file_content_outcomes() {
    let input = PatchInput {
        file_path: "f.txt".to_string(),
        patch_content: "@@ -1,1 +1,2 @@\n-a\n+b\n+c".to_string(),
        create_if_missing: false,
    };
    assert!(patch_fits(&input.patch_content));
    let out = patch_file_content(&input, true, "a\n", PermissionMode::Default).unwrap();
    assert_eq!(out.result_content, "b\nc\n");
    assert_eq!((out.hunks_applied, out.hunks_failed, out.lines_added, out.lines_removed), (1, 0, 2, 1));
    assert_eq!(out.operation_type, "update");
    let err = patch_file_content(&input, false, "", PermissionMode::Default).unwrap_err();
    assert_eq!(err, "File does not exist: f.txt. Use create_if_missing=true to create it.");
    let empty = PatchInput { patch_content: "no hunks".to_string(), create_if_missing: true, ..input.clone() };
    let err = patch_file_content(&empty, false, "", PermissionMode::AcceptEdits).unwrap_err();
    assert_eq!(err, "No valid diff hunks found in patch content");
    let create = PatchInput { create_if_missing: true, ..input };
    let out = patch_file_content(&create, false, "", PermissionMode::DontAsk).unwrap();
    assert_eq!(out.operation_type, "create");
    assert_eq!(PatchTool::new().name(), "Patch");
    assert!(!PatchTool::new().is_read_only());
}
