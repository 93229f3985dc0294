//! Creating or overwriting files: permission decision, line counts and the
//! result message. The file system itself is left to the application.

use crate::permissions::{PermissionBehavior, PermissionMode, PermissionResult};
use crate::paths;
use crate::text;
use crate::text::{decimal, lines_of};
use vstd::prelude::*;

verus! {

/// WriteTool input parameters
#[derive(Debug, Clone)]
pub struct WriteInput {
    /// The absolute path to the file to write (must be absolute, not relative)
    pub file_path: String,
    /// The content to write to the file
    pub content: String,
}

/// WriteTool output result
#[derive(Debug, Clone)]
pub struct WriteOutput {
    /// Operation type: "create" or "update"
    pub operation_type: String,
    /// File path that was written
    pub file_path: String,
    /// Content that was written
    pub content: String,
    /// Number of lines added
    pub lines_added: u32,
    /// Number of lines removed (for updates)
    pub lines_removed: u32,
    /// Original file content (for updates)
    pub original_content: Option<String>,
}

/// WriteTool implementation
pub struct WriteTool;

/// The number of lines of a text, as `WriteTool` counts them.
pub open spec fn line_count(s: Seq<char>) -> u32 {
    if s.len() == 0 {
        0
    } else {
        lines_of(s).len() as u32
    }
}

/// The message reporting a write.
pub open spec fn write_message(path: Seq<char>, added: u32, removed: u32, is_update: bool) -> Seq<char> {
    if is_update {
        "File updated: "@ + path + " (+"@ + decimal(added as nat) + " lines, -"@ + decimal(removed as nat)
            + " lines)"@
    } else {
        "File created successfully at: "@ + path + " ("@ + decimal(added as nat) + " lines)"@
    }
}

/// The path a write goes to: `~` stands for `home` and `./` for the
/// working directory.
pub open spec fn expanded_path(p: Seq<char>, home: Seq<char>, cwd: Seq<char>) -> Seq<char> {
    if p.len() > 0 && p[0] == '~' {
        let after = if p == seq!['~'] {
            Seq::<char>::empty()
        } else if text::starts_with(p, seq!['~', '/']) {
            p.skip(2)
        } else {
            p.skip(1)
        };
        paths::joined(home, after)
    } else if text::starts_with(p, seq!['.', '/']) {
        paths::joined(cwd, p.skip(2))
    } else {
        p
    }
}

impl WriteTool {
    /// Create a new WriteTool instance
    pub fn new() -> (t: Self) {
        Self
    }

    /// Tool name (used in API calls)
    pub fn name(&self) -> (n: &'static str)
        ensures
            n@ == "Write"@,
    {
        "Write"
    }

    /// Tool description (shown to the model)
    pub fn description(&self) -> (d: String)
        ensures
            d@ == "Write a file to the local filesystem. Creates a new file if it doesn't exist, or completely overwrites an existing file with new content. Use this tool when you want to create new files or replace entire file contents."@,
    {
        text::owned(
            "Write a file to the local filesystem. Creates a new file if it doesn't exist, or completely overwrites an existing file with new content. Use this tool when you want to create new files or replace entire file contents.",
        )
    }

    /// Writing is never read-only.
    pub fn is_read_only(&self) -> (b: bool)
        ensures
            !b,
    {
        false
    }

    /// Expand a path: `~` stands for `home`, and `./` for the working
    /// directory; other paths stand as they are.
    pub fn expand_path(path: &str, home: &str, cwd: &str) -> (r: String)
        ensures
            r@ == expanded_path(path@, home@, cwd@),
    {
        let p = text::chars_of(path);
        let n = p.len();
        if n > 0 && p[0] == '~' {
            let after = if n == 1 {
                String::new()
            } else if p[1] == '/' {
                text::string_from_range(p.as_slice(), 2, n)
            } else {
                text::string_from_range(p.as_slice(), 1, n)
            };
            proof {
                if n == 1 {
                    assert(p@ =~= seq!['~']);
                } else {
                    assert(p@ != seq!['~']);
                    assert(p@.take(2) =~= seq![p@[0], p@[1]]);
                    assert(p@.skip(2) =~= p@.subrange(2, n as int));
                    assert(p@.skip(1) =~= p@.subrange(1, n as int));
                }
            }
            paths::join_path(home, after.as_str())
        } else if n >= 2 && p[0] == '.' && p[1] == '/' {
            assert(p@.take(2) =~= seq!['.', '/']);
            let rest = text::string_from_range(p.as_slice(), 2, n);
            assert(rest@ =~= p@.skip(2));
            paths::join_path(cwd, rest.as_str())
        } else {
            proof {
                if n >= 2 {
                    assert(p@.take(2) =~= seq![p@[0], p@[1]]);
                }
            }
            text::owned(path)
        }
    }

    /// Count lines in content
    pub fn count_lines(content: &str) -> (n: u32)
        ensures
            n == line_count(content@),
    {
        if content.is_empty() {
            0
        } else {
            let lines = text::split_lines(content);
            lines.len() as u32
        }
    }

    /// Check write permission: always allowed when edits are accepted or
    /// permissions bypassed, and for new files; an existing file is allowed
    /// inside the current directory and asked for outside it.
    pub fn check_write_permission(mode: PermissionMode, exists: bool, in_cwd: bool) -> (r: PermissionResult)
        ensures
            mode == PermissionMode::BypassPermissions ==> r.behavior == PermissionBehavior::Allow
                && r.message@ == "Bypass permissions mode"@,
            mode == PermissionMode::AcceptEdits ==> r.behavior == PermissionBehavior::Allow && r.message@
                == "Accept edits mode"@,
            mode != PermissionMode::BypassPermissions && mode != PermissionMode::AcceptEdits && !exists
                ==> r.behavior == PermissionBehavior::Allow && r.message@ == "Creating new file"@,
            mode != PermissionMode::BypassPermissions && mode != PermissionMode::AcceptEdits && exists && in_cwd
                ==> r.behavior == PermissionBehavior::Allow && r.message@ == "Writing to file in current directory"@,
            mode != PermissionMode::BypassPermissions && mode != PermissionMode::AcceptEdits && exists && !in_cwd
                ==> r.behavior == PermissionBehavior::Ask && r.message@ == "Writing to file outside current directory"@,
    {
        if mode == PermissionMode::BypassPermissions {
            return PermissionResult::allow("Bypass permissions mode");
        }
        if mode == PermissionMode::AcceptEdits {
            return PermissionResult::allow("Accept edits mode");
        }
        if !exists {
            return PermissionResult::allow("Creating new file");
        }
        if in_cwd {
            PermissionResult::allow("Writing to file in current directory")
        } else {
            PermissionResult::ask("Writing to file outside current directory")
        }
    }

    /// The record and the message of a completed write, given the file's
    /// content before it (`None` when it did not exist).
    pub fn write_outcome(input: &WriteInput, original_content: Option<String>) -> (r: (WriteOutput, String))
        ensures
            r.0.operation_type@ == (if original_content is Some {
                "update"@
            } else {
                "create"@
            }),
            r.0.file_path@ == input.file_path@,
            r.0.content@ == input.content@,
            r.0.lines_added == line_count(input.content@),
            r.0.lines_removed == (match original_content {
                Some(o) => line_count(o@),
                None => 0,
            }),
            r.0.original_content == original_content,
            r.1@ == write_message(
                input.file_path@,
                line_count(input.content@),
                r.0.lines_removed,
                original_content is Some,
            ),
    {
        let lines_added = Self::count_lines(input.content.as_str());
        let lines_removed = match &original_content {
            Some(original) => Self::count_lines(original.as_str()),
            None => 0,
        };
        let is_update = original_content.is_some();
        let mut message = String::new();
        if is_update {
            text::push_str(&mut message, "File updated: ");
            text::push_str(&mut message, input.file_path.as_str());
            text::push_str(&mut message, " (+");
            text::push_decimal(&mut message, lines_added as u64);
            text::push_str(&mut message, " lines, -");
            text::push_decimal(&mut message, lines_removed as u64);
            text::push_str(&mut message, " lines)");
        } else {
            text::push_str(&mut message, "File created successfully at: ");
            text::push_str(&mut message, input.file_path.as_str());
            text::push_str(&mut message, " (");
            text::push_decimal(&mut message, lines_added as u64);
            text::push_str(&mut message, " lines)");
        }
        let operation_type = if is_update {
            text::owned("update")
        } else {
            text::owned("create")
        };
        let output = WriteOutput {
            operation_type,
            file_path: input.file_path.clone(),
            content: input.content.clone(),
            lines_added,
            lines_removed,
            original_content,
        };
        (output, message)
    }

    /// Summary of a write for display.
    pub fn summarize(input: &WriteInput) -> (s: String)
        ensures
            s@ == "Writing "@ + decimal(lines_of(input.content@).len()) + " lines to "@ + input.file_path@,
    {
        let lines = text::split_lines(input.content.as_str());
        let mut s = text::owned("Writing ");
        text::push_decimal(&mut s, lines.len() as u64);
        text::push_str(&mut s, " lines to ");
        text::push_str(&mut s, input.file_path.as_str());
        s
    }
}

} // verus!
