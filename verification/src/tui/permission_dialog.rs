//! Permission dialog state for the TUI: the user's choice among allowing
//! once, allowing and saving a rule, denying, or cancelling.

use crate::permissions::{PermissionResult, PermissionUpdate, RuleBehavior, RuleSource, RuleValue};
use crate::text;
use ratatui::layout::Rect;
use vstd::prelude::*;

verus! {

/// User's choice for permission request
#[derive(Debug, Clone, Copy, PartialEq, Eq, Structural)]
pub enum PermissionChoice {
    /// Allow this operation once
    AllowOnce,
    /// Allow and save rule for future
    AllowAndSave,
    /// Deny this operation
    Deny,
    /// Cancel/close dialog
    Cancel,
}

/// The choices offered, top to bottom.
pub open spec fn spec_choices() -> Seq<PermissionChoice> {
    seq![PermissionChoice::AllowOnce, PermissionChoice::AllowAndSave, PermissionChoice::Deny, PermissionChoice::Cancel]
}

/// `u` adds exactly one user-settings rule allowing `operation` of `tool`.
pub open spec fn is_allow_rule_update(u: PermissionUpdate, tool: Seq<char>, operation: Seq<char>) -> bool {
    match u {
        PermissionUpdate::AddRules { destination, rules, behavior } => {
            &&& destination == RuleSource::UserSettings
            &&& behavior == RuleBehavior::Allow
            &&& rules@.len() == 1
            &&& rules@[0].tool_name@ == tool
            &&& match rules@[0].rule_content {
                Some(c) => c@ == operation,
                None => false,
            }
        },
    }
}

/// Permission dialog state
pub struct PermissionDialog {
    /// Permission request message
    message: String,
    /// The permission result with details
    result: PermissionResult,
    /// Current selection
    selected: usize,
    /// Available choices
    choices: Vec<PermissionChoice>,
    /// Whether dialog is active
    active: bool,
}

impl View for PermissionDialog {
    /// The selected row and whether the dialog is active.
    type V = (nat, bool);

    closed spec fn view(&self) -> (nat, bool) {
        (self.selected as nat, self.active)
    }
}

impl PermissionDialog {
    /// The choices are the fixed list and the selection is one of them.
    #[verifier::type_invariant]
    spec fn inv(self) -> bool {
        &&& self.choices@ == spec_choices()
        &&& self.selected < 4
    }

    /// Create a new permission dialog, active, with the first choice selected.
    pub fn new(message: String, result: PermissionResult) -> (d: Self)
        ensures
            d@ == (0nat, true),
            d.spec_message() == message@,
    {
        let mut choices: Vec<PermissionChoice> = Vec::new();
        choices.push(PermissionChoice::AllowOnce);
        choices.push(PermissionChoice::AllowAndSave);
        choices.push(PermissionChoice::Deny);
        choices.push(PermissionChoice::Cancel);
        assert(choices@ =~= spec_choices());
        Self { message, result, selected: 0, choices, active: true }
    }

    /// Check if dialog is active
    pub fn is_active(&self) -> (b: bool)
        ensures
            b == self@.1,
    {
        self.active
    }

    /// Close the dialog
    pub fn close(&mut self)
        ensures
            final(self)@ == (old(self)@.0, false),
    {
        proof {
            use_type_invariant(&*self);
        }
        self.active = false;
    }

    /// Get current selected choice
    pub fn selected_choice(&self) -> (c: PermissionChoice)
        ensures
            self@.0 < 4,
            c == spec_choices()[self@.0 as int],
    {
        proof {
            use_type_invariant(self);
        }
        self.choices[self.selected]
    }

    /// Move selection up (stops at the first choice)
    pub fn select_up(&mut self)
        ensures
            final(self)@ == (if old(self)@.0 > 0 { (old(self)@.0 - 1) as nat } else { 0nat }, old(self)@.1),
    {
        proof {
            use_type_invariant(&*self);
        }
        if self.selected > 0 {
            self.selected -= 1;
        }
    }

    /// Move selection down (stops at the last choice)
    pub fn select_down(&mut self)
        ensures
            final(self)@ == (if old(self)@.0 < 3 { old(self)@.0 + 1 } else { 3nat }, old(self)@.1),
    {
        proof {
            use_type_invariant(&*self);
        }
        if self.selected < self.choices.len() - 1 {
            self.selected += 1;
        }
    }

    /// Confirm selection and return choice; the dialog closes.
    pub fn confirm(&mut self) -> (c: PermissionChoice)
        ensures
            old(self)@.0 < 4,
            c == spec_choices()[old(self)@.0 as int],
            final(self)@ == (old(self)@.0, false),
    {
        let choice = self.selected_choice();
        self.close();
        choice
    }

    /// Get permission updates for AllowAndSave: a rule allowing `operation`
    /// of `tool_name`, saved to the user settings. Other choices save nothing.
    pub fn get_save_updates(&self, tool_name: &str, operation: &str) -> (u: Option<PermissionUpdate>)
        ensures
            self@.0 < 4,
            spec_choices()[self@.0 as int] == PermissionChoice::AllowAndSave ==> (match u {
                Some(up) => is_allow_rule_update(up, tool_name@, operation@),
                None => false,
            }),
            spec_choices()[self@.0 as int] != PermissionChoice::AllowAndSave ==> u is None,
    {
        if self.selected_choice() == PermissionChoice::AllowAndSave {
            let mut rules: Vec<RuleValue> = Vec::new();
            rules.push(RuleValue { tool_name: tool_name.to_owned(), rule_content: Some(operation.to_owned()) });
            Some(PermissionUpdate::AddRules { destination: RuleSource::UserSettings, rules, behavior: RuleBehavior::Allow })
        } else {
            None
        }
    }
}

/// Inline permission request shown in the transcript.
pub struct PermissionRequestWidget {
    /// Request message
    message: String,
    /// Tool name
    tool_name: String,
    /// Operation description
    operation: String,
}

impl PermissionDialog {
    /// The request message.
    pub closed spec fn spec_message(&self) -> Seq<char> {
        self.message@
    }

    /// The request message.
    pub fn message(&self) -> (m: &str)
        ensures
            m@ == self.spec_message(),
    {
        self.message.as_str()
    }

    /// The choices offered, top to bottom.
    pub fn choices(&self) -> (cs: &[PermissionChoice])
        ensures
            cs@ == spec_choices(),
    {
        proof {
            use_type_invariant(self);
        }
        self.choices.as_slice()
    }

    /// The row of the selected choice.
    pub fn selected_index(&self) -> (i: usize)
        ensures
            i == self@.0,
    {
        self.selected
    }
}

/// The label shown for a choice.
pub fn choice_label(choice: PermissionChoice) -> (label: &'static str)
    ensures
        label@ == match choice {
            PermissionChoice::AllowOnce => "✓ Allow (once)"@,
            PermissionChoice::AllowAndSave => "✓ Allow & save rule"@,
            PermissionChoice::Deny => "✗ Deny"@,
            PermissionChoice::Cancel => "↩ Cancel"@,
        },
{
    let label = match choice {
        PermissionChoice::AllowOnce => "✓ Allow (once)",
        PermissionChoice::AllowAndSave => "✓ Allow & save rule",
        PermissionChoice::Deny => "✗ Deny",
        PermissionChoice::Cancel => "↩ Cancel",
    };
    label
}

/// Width of the permission dialog on a screen `width` columns wide: the
/// screen width, kept between 40 and 60.
pub open spec fn dialog_width(width: u16) -> u16 {
    if width < 40 {
        40
    } else if width > 60 {
        60
    } else {
        width
    }
}

/// The permission dialog's area on a screen `area`: ten rows high, centred
/// (rounding up and left).
pub fn dialog_area(area: Rect) -> (r: Rect)
    ensures
        r.width == dialog_width(area.width),
        r.height == 10,
        r.x == (if area.width >= r.width { (area.width - r.width) / 2 } else { 0 }),
        r.y == (if area.height >= 10 { (area.height - 10) / 2 } else { 0 }),
{
    let dialog_width: u16 = if area.width < 40 {
        40
    } else if area.width > 60 {
        60
    } else {
        area.width
    };
    let dialog_height: u16 = 10;
    Rect {
        x: area.width.saturating_sub(dialog_width) / 2,
        y: area.height.saturating_sub(dialog_height) / 2,
        width: dialog_width,
        height: dialog_height,
    }
}

impl PermissionRequestWidget {
    /// Create a new permission request widget
    pub fn new(message: String, tool_name: String, operation: String) -> (w: Self)
        ensures
            w.message() == message@,
            w.tool_name() == tool_name@,
            w.operation() == operation@,
    {
        Self { message, tool_name, operation }
    }

    /// The request message.
    pub closed spec fn message(&self) -> Seq<char> {
        self.message@
    }

    /// The one-line form of the request: "[?] <message> - awaiting
    /// confirmation".
    pub fn inline_text(&self) -> (t: String)
        ensures
            t@ == "[?] "@ + self.message() + " - awaiting confirmation"@,
    {
        text::concat3("[?] ", self.message.as_str(), " - awaiting confirmation")
    }

    /// The requesting tool.
    pub closed spec fn tool_name(&self) -> Seq<char> {
        self.tool_name@
    }

    /// The operation asked for.
    pub closed spec fn operation(&self) -> Seq<char> {
        self.operation@
    }
}

/// Moving down then up returns to the same choice, except from the last
/// choice, where moving down stays put.
pub proof fn lemma_down_then_up(selected: nat)
    requires
        selected < 3,
    ensures
        ({
            let down = selected + 1;
            (if down > 0 { (down - 1) as nat } else { 0nat }) == selected
        }),
{
}

} // verus!
