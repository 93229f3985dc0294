use quickhorse_core::permissions::{PermissionResult, PermissionUpdate, RuleBehavior, RuleSource};
use quickhorse_core::tui::permission_dialog::{PermissionChoice, PermissionDialog, PermissionRequestWidget};

#[test]
fn test_dialog_creation() {
    let result = PermissionResult::ask("Test permission");
    let dialog = PermissionDialog::new("Test message".to_string(), result);

    assert!(dialog.is_active());
    assert_eq!(dialog.selected_choice(), PermissionChoice::AllowOnce);
}

#[test]
fn test_dialog_selection() {
    let result = PermissionResult::ask("Test permission");
    let mut dialog = PermissionDialog::new("Test message".to_string(), result);

    dialog.select_down();
    assert_eq!(dialog.selected_choice(), PermissionChoice::AllowAndSave);

    dialog.select_down();
    assert_eq!(dialog.selected_choice(), PermissionChoice::Deny);

    dialog.select_up();
    assert_eq!(dialog.selected_choice(), PermissionChoice::AllowAndSave);
}

#[test]
fn test_dialog_confirm() {
    let result = PermissionResult::ask("Test permission");
    let mut dialog = PermissionDialog::new("Test message".to_string(), result);

    dialog.select_down();
    let choice = dialog.confirm();

    assert_eq!(choice, PermissionChoice::AllowAndSave);
    assert!(!dialog.is_active());
}

#[test]
fn test_save_updates() {
    let result = PermissionResult::ask("Test permission");
    let mut dialog = PermissionDialog::new("Test message".to_string(), result);

    // AllowOnce - no save
    assert!(dialog.get_save_updates("Bash", "git status").is_none());

    // AllowAndSave - has save
    dialog.select_down();
    let update = dialog.get_save_updates("Bash", "git status");
    assert!(update.is_some());

    if let Some(PermissionUpdate::AddRules { destination, rules, behavior }) = update {
        assert_eq!(destination, RuleSource::UserSettings);
        assert_eq!(behavior, RuleBehavior::Allow);
        assert_eq!(rules.len(), 1);
    }
}

#[test]
fn test_dialog_selection_stops_at_edges() {
    let mut dialog = PermissionDialog::new("m".to_string(), PermissionResult::ask("p"));
    dialog.select_up();
    assert_eq!(dialog.selected_choice(), PermissionChoice::AllowOnce);
    for _ in 0..10 {
        dialog.select_down();
    }
    assert_eq!(dialog.selected_choice(), PermissionChoice::Cancel);
    dialog.close();
    assert!(!dialog.is_active());
}

#[test]
fn test_request_widget_creation() {
    let _w = PermissionRequestWidget::new("msg".to_string(), "Bash".to_string(), "ls".to_string());
    let mut dialog = PermissionDialog::new("m".to_string(), PermissionResult::deny("no"));
    dialog.select_down();
    dialog.select_down();
    assert!(dialog.get_save_updates("Bash", "rm").is_none());
}
