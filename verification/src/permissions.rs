//! Permission vocabulary shared by the tools and the permission dialog:
//! modes, decisions, and the rule updates a user can ask to save.

use vstd::prelude::*;

verus! {

/// How permission requests are handled.
#[derive(Debug, Clone, Copy, PartialEq, Eq, Structural)]
pub enum PermissionMode {
    /// Ask before risky operations.
    Default,
    /// Accept file edits without asking.
    AcceptEdits,
    /// Allow everything.
    BypassPermissions,
    /// Never ask; allow.
    DontAsk,
}

/// The decision of a permission check.
#[derive(Debug, Clone, Copy, PartialEq, Eq, Structural)]
pub enum PermissionBehavior {
    /// Proceed.
    Allow,
    /// Ask the user first.
    Ask,
    /// Refuse.
    Deny,
}

/// A permission decision with its explanation.
#[derive(Debug, Clone)]
pub struct PermissionResult {
    /// The decision.
    pub behavior: PermissionBehavior,
    /// Why the decision was taken.
    pub message: String,
}

impl PermissionResult {
    /// An `Allow` decision.
    pub fn allow(message: &str) -> (r: Self)
        ensures
            r.behavior == PermissionBehavior::Allow,
            r.message@ == message@,
    {
        Self { behavior: PermissionBehavior::Allow, message: message.to_owned() }
    }

    /// An `Ask` decision.
    pub fn ask(message: &str) -> (r: Self)
        ensures
            r.behavior == PermissionBehavior::Ask,
            r.message@ == message@,
    {
        Self { behavior: PermissionBehavior::Ask, message: message.to_owned() }
    }

    /// A `Deny` decision.
    pub fn deny(message: &str) -> (r: Self)
        ensures
            r.behavior == PermissionBehavior::Deny,
            r.message@ == message@,
    {
        Self { behavior: PermissionBehavior::Deny, message: message.to_owned() }
    }

    /// Whether the decision is to proceed.
    pub fn is_allowed(&self) -> (b: bool)
        ensures
            b == (self.behavior == PermissionBehavior::Allow),
    {
        self.behavior == PermissionBehavior::Allow
    }

    /// Whether the decision is to refuse.
    pub fn is_denied(&self) -> (b: bool)
        ensures
            b == (self.behavior == PermissionBehavior::Deny),
    {
        self.behavior == PermissionBehavior::Deny
    }

    /// Whether the user must be asked first.
    pub fn needs_confirmation(&self) -> (b: bool)
        ensures
            b == (self.behavior == PermissionBehavior::Ask),
    {
        self.behavior == PermissionBehavior::Ask
    }
}

/// Where a saved rule is stored.
#[derive(Debug, Clone, Copy, PartialEq, Eq, Structural)]
pub enum RuleSource {
    /// The user's settings.
    UserSettings,
}

/// What a saved rule decides.
#[derive(Debug, Clone, Copy, PartialEq, Eq, Structural)]
pub enum RuleBehavior {
    /// Allow matching operations.
    Allow,
    /// Deny matching operations.
    Deny,
    /// Ask for matching operations.
    Ask,
}

/// A rule: a tool, optionally narrowed to an operation.
#[derive(Debug, Clone)]
pub struct RuleValue {
    /// The tool the rule applies to.
    pub tool_name: String,
    /// The operation within the tool, if any.
    pub rule_content: Option<String>,
}

/// A change to the saved permission rules.
#[derive(Debug, Clone)]
pub enum PermissionUpdate {
    /// Add rules with a behavior to a destination.
    AddRules { destination: RuleSource, rules: Vec<RuleValue>, behavior: RuleBehavior },
}

/// The permission settings that shell commands are checked against.
#[derive(Debug, Clone, Copy)]
pub struct BashPermissionChecker {
    /// The permission mode.
    pub mode: PermissionMode,
}

impl BashPermissionChecker {
    /// A checker in the default mode.
    pub fn new() -> (c: Self)
        ensures
            c.mode == PermissionMode::Default,
    {
        Self { mode: PermissionMode::Default }
    }

    /// A checker in the given mode.
    pub fn with_mode(mode: PermissionMode) -> (c: Self)
        ensures
            c.mode == mode,
    {
        Self { mode }
    }
}

} // verus!
