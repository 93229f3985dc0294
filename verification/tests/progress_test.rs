use quickhorse_core::tui::progress::{ProgressManager, Spinner, ToolProgress, ToolStatus};

#[test]
fn test_spinner_message() {
    let spinner = Spinner::with_verb("Thinking".to_string());
    assert_eq!(spinner.message(), "Thinking…");
}

#[test]
fn test_tool_progress_status() {
    let mut tp = ToolProgress::new("BashTool".to_string(), "ls -la".to_string());

    tp.set_status(ToolStatus::Executing);
    assert_eq!(tp.status, ToolStatus::Executing);

    tp.set_status(ToolStatus::Success);
    assert_eq!(tp.status, ToolStatus::Success);
}

#[test]
fn test_progress_manager() {
    let mut pm = ProgressManager::new();

    // Start main spinner
    pm.start_main(Some("Loading".to_string()));
    assert!(pm.is_active());

    // Add tool
    let idx = pm.add_tool("BashTool".to_string(), "ls".to_string());
    assert_eq!(idx, 0);
    assert_eq!(pm.active_tool_count(), 1);

    // Update status
    pm.update_tool_status(0, ToolStatus::Success);
    assert_eq!(pm.active_tool_count(), 0);

    // Clear completed
    pm.clear_completed();
    assert_eq!(pm.tools.len(), 0);
}

#[test]
fn test_spinner_set_verb_and_frame() {
    let mut spinner = Spinner::with_verb("A".to_string());
    spinner.set_verb("Working".to_string());
    assert_eq!(spinner.message(), "Working…");
    assert_eq!(spinner.frame_char(), '⠋');
}

#[test]
fn test_tool_progress_messages_follow_status() {
    let mut tp = ToolProgress::new("Grep".to_string(), "x".to_string());
    assert_eq!(tp.spinner_message(), "Running Grep…");
    tp.set_status(ToolStatus::WaitingConfirmation);
    assert_eq!(tp.spinner_message(), "Waiting for confirmation…");
    tp.set_status(ToolStatus::Error);
    assert_eq!(tp.spinner_message(), "Grep failed…");
    tp.set_status(ToolStatus::Cancelled);
    assert_eq!(tp.spinner_message(), "Grep cancelled…");
}

#[test]
fn test_progress_manager_keeps_unfinished_tools() {
    let mut pm = ProgressManager::new();
    assert!(!pm.is_active());
    pm.add_tool("a".to_string(), String::new());
    pm.add_tool("b".to_string(), String::new());
    pm.add_tool("c".to_string(), String::new());
    pm.update_tool_status(1, ToolStatus::Error);
    pm.update_tool_status(2, ToolStatus::WaitingConfirmation);
    pm.update_tool_status(9, ToolStatus::Success);
    assert!(pm.is_active());
    assert_eq!(pm.active_tool_count(), 1);
    pm.clear_completed();
    assert_eq!(pm.tools.len(), 2);
    pm.remove_tool(0);
    pm.remove_tool(5);
    assert_eq!(pm.tools.len(), 1);
    assert_eq!(pm.tools[0].status, ToolStatus::WaitingConfirmation);
    pm.stop_main();
}
