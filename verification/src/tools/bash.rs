//! Shell commands: the permission outcome before running, the limits on the
//! output reported, the read-only heuristic and the result. Spawning the
//! shell and reading its output is left to the application.

use crate::permissions::{BashPermissionChecker, PermissionBehavior, PermissionMode, PermissionResult};
use crate::text;
use crate::text::{byte_len, decimal, join, lines_of, signed_decimal, starts_with, trim, views};
use crate::tools::tool_trait::ToolResult;
use vstd::prelude::*;

verus! {

/// BashTool input schema
#[derive(Debug, Clone)]
pub struct BashInput {
    /// The command to execute
    pub command: String,
    /// Timeout in seconds (default 30)
    pub timeout: u32,
    /// Whether to run in background
    pub background: bool,
}

/// BashTool - Execute shell commands with permission checks
pub struct BashTool {
    /// Permission checker
    permission_checker: BashPermissionChecker,
}

/// The lines kept from the output: all of them, or the first `max_lines`
/// and a note of how many were left out.
pub open spec fn kept_lines(output: Seq<char>, max_lines: nat) -> Seq<Seq<char>> {
    let lines = lines_of(output);
    if lines.len() > max_lines {
        lines.take(max_lines as int).push(
            "... (truncated, "@ + decimal((lines.len() - max_lines) as nat) + " lines omitted)"@,
        )
    } else {
        lines
    }
}

/// The kept lines joined by newlines.
pub open spec fn combined_output(output: Seq<char>, max_lines: nat) -> Seq<char> {
    join(kept_lines(output, max_lines), seq!['\n'])
}

/// Cutting the combined output at `max_chars` bytes falls on a character
/// boundary (slicing there would panic otherwise).
pub open spec fn sanitize_ok(output: Seq<char>, max_lines: nat, max_chars: nat) -> bool {
    let c = combined_output(output, max_lines);
    byte_len(c) > max_chars ==> text::is_boundary(c, max_chars as int)
}

/// The output as reported: at most `max_lines` lines, then at most
/// `max_chars` bytes, each cut noted.
pub open spec fn sanitized(output: Seq<char>, max_lines: nat, max_chars: nat) -> Seq<char> {
    let c = combined_output(output, max_lines);
    if byte_len(c) > max_chars {
        c.take(text::char_idx(c, max_chars as int)) + "... (truncated, "@ + decimal(
            (byte_len(c) - max_chars) as nat,
        ) + " chars omitted)"@
    } else {
        c
    }
}

/// The command prefixes taken as read-only.
pub open spec fn read_only_prefixes() -> Seq<Seq<char>> {
    seq![
        "ls"@,
        "cat"@,
        "head"@,
        "tail"@,
        "grep"@,
        "find"@,
        "git status"@,
        "git log"@,
        "git diff"@,
        "which"@,
        "echo"@,
        "pwd"@,
        "type"@,
    ]
}

/// A command is taken as read-only when, trimmed, it starts with one of the
/// read-only prefixes.
pub open spec fn spec_is_read_only(command: Seq<char>) -> bool {
    exists|i: int| 0 <= i < read_only_prefixes().len() && starts_with(trim(command), #[trigger] read_only_prefixes()[i])
}

impl BashTool {
    /// Create a new BashTool instance
    pub fn new() -> (t: Self)
        ensures
            t.checker().mode == PermissionMode::Default,
    {
        Self { permission_checker: BashPermissionChecker::new() }
    }

    /// Create with permission mode
    pub fn with_permission_mode(mode: PermissionMode) -> (t: Self)
        ensures
            t.checker().mode == mode,
    {
        Self { permission_checker: BashPermissionChecker::with_mode(mode) }
    }

    /// The permission checker.
    pub closed spec fn checker(&self) -> BashPermissionChecker {
        self.permission_checker
    }

    /// Get permission checker reference
    pub fn permission_checker(&self) -> (c: &BashPermissionChecker)
        ensures
            *c == self.checker(),
    {
        &self.permission_checker
    }

    /// Get mutable permission checker
    pub fn permission_checker_mut(&mut self) -> (c: &mut BashPermissionChecker)
        ensures
            *c == old(self).checker(),
            final(self).checker() == *final(c),
    {
        &mut self.permission_checker
    }

    /// Tool name (used in API calls)
    pub fn name(&self) -> (n: &'static str)
        ensures
            n@ == "Bash"@,
    {
        "Bash"
    }

    /// Tool description (shown to the model)
    pub fn description(&self) -> (d: String)
        ensures
            d@ == "Execute shell commands. Use for file operations, git, package managers, etc. Commands run in the current working directory."@,
    {
        text::owned(
            "Execute shell commands. Use for file operations, git, package managers, etc. Commands run in the current working directory.",
        )
    }

    /// Sanitize command output: keep at most `max_lines` lines, then at most
    /// `max_chars` bytes.
    pub fn sanitize_output(output: &str, max_lines: usize, max_chars: usize) -> (r: String)
        requires
            sanitize_ok(output@, max_lines as nat, max_chars as nat),
        ensures
            r@ == sanitized(output@, max_lines as nat, max_chars as nat),
    {
        proof {
            reveal_strlit("\n");
        }
        let lines = text::split_lines(output);
        let ghost ls = views(lines@);
        let mut kept: Vec<String> = Vec::new();
        if lines.len() > max_lines {
            let mut i: usize = 0;
            while i < max_lines
                invariant
                    i <= max_lines < lines@.len(),
                    ls == views(lines@),
                    views(kept@) == ls.take(i as int),
                decreases max_lines - i,
            {
                let ghost before = views(kept@);
                kept.push(lines[i].clone());
                assert(views(kept@) =~= before.push(ls[i as int]));
                assert(ls.take(i + 1) =~= ls.take(i as int).push(ls[i as int]));
                i += 1;
            }
            let mut note = text::owned("... (truncated, ");
            text::push_decimal(&mut note, (lines.len() - max_lines) as u64);
            text::push_str(&mut note, " lines omitted)");
            let ghost before = views(kept@);
            kept.push(note);
            assert(views(kept@) =~= before.push(note@));
        } else {
            kept = lines;
        }
        assert(views(kept@) == kept_lines(output@, max_lines as nat));
        let combined = text::join_strings(kept.as_slice(), "\n");
        assert("\n"@ =~= seq!['\n']);
        let n = text::str_len(combined.as_str());
        if n > max_chars {
            let cs = text::chars_of(combined.as_str());
            let k = match text::char_index_at_byte(cs.as_slice(), max_chars) {
                Some(k) => k,
                None => {
                    assert(false);
                    0
                },
            };
            proof {
                text::lemma_char_idx(cs@, k as int);
            }
            let mut r = text::string_from_range(cs.as_slice(), 0, k);
            assert(r@ =~= cs@.take(k as int));
            text::push_str(&mut r, "... (truncated, ");
            text::push_decimal(&mut r, (n - max_chars) as u64);
            text::push_str(&mut r, " chars omitted)");
            r
        } else {
            combined
        }
    }

    /// `sanitize_output` where it is defined; `None` where cutting the output
    /// would split a character.
    pub fn try_sanitize_output(output: &str, max_lines: usize, max_chars: usize) -> (r: Option<String>)
        ensures
            sanitize_ok(output@, max_lines as nat, max_chars as nat) ==> (r matches Some(s) && s@ == sanitized(
                output@,
                max_lines as nat,
                max_chars as nat,
            )),
            !sanitize_ok(output@, max_lines as nat, max_chars as nat) ==> r is None,
    {
        proof {
            reveal_strlit("\n");
        }
        let lines = text::split_lines(output);
        let ghost ls = views(lines@);
        let mut kept: Vec<String> = Vec::new();
        if lines.len() > max_lines {
            let mut i: usize = 0;
            while i < max_lines
                invariant
                    i <= max_lines < lines@.len(),
                    ls == views(lines@),
                    views(kept@) == ls.take(i as int),
                decreases max_lines - i,
            {
                let ghost before = views(kept@);
                kept.push(lines[i].clone());
                assert(views(kept@) =~= before.push(ls[i as int]));
                assert(ls.take(i + 1) =~= ls.take(i as int).push(ls[i as int]));
                i += 1;
            }
            let mut note = text::owned("... (truncated, ");
            text::push_decimal(&mut note, (lines.len() - max_lines) as u64);
            text::push_str(&mut note, " lines omitted)");
            let ghost before = views(kept@);
            kept.push(note);
            assert(views(kept@) =~= before.push(note@));
        } else {
            kept = lines;
        }
        assert(views(kept@) == kept_lines(output@, max_lines as nat));
        let combined = text::join_strings(kept.as_slice(), "\n");
        assert("\n"@ =~= seq!['\n']);
        let n = text::str_len(combined.as_str());
        if n > max_chars {
            let cs = text::chars_of(combined.as_str());
            if text::char_index_at_byte(cs.as_slice(), max_chars).is_none() {
                return None;
            }
        }
        Some(Self::sanitize_output(output, max_lines, max_chars))
    }

    /// The result given instead of running the command, if any: denied
    /// commands fail, and commands that need confirmation return a
    /// permission request.
    pub fn permission_outcome(permission: &PermissionResult) -> (r: Option<ToolResult>)
        ensures
            permission.behavior == PermissionBehavior::Deny ==> (r matches Some(t) && t.is_error && t.content@
                == "Permission denied: "@ + permission.message@),
            permission.behavior == PermissionBehavior::Ask ==> (r matches Some(t) && !t.is_error && t.content@
                == "PERMISSION_REQUEST: "@ + permission.message@),
            permission.behavior == PermissionBehavior::Allow ==> r is None,
    {
        match permission.behavior {
            PermissionBehavior::Deny => {
                let mut m = text::owned("Permission denied: ");
                text::push_str(&mut m, permission.message.as_str());
                Some(ToolResult::error(m))
            },
            PermissionBehavior::Ask => {
                let mut m = text::owned("PERMISSION_REQUEST: ");
                text::push_str(&mut m, permission.message.as_str());
                Some(ToolResult { content: m, is_error: false })
            },
            PermissionBehavior::Allow => None,
        }
    }

    /// The timeout used, in seconds: the requested one, at most 300.
    pub fn effective_timeout(input: &BashInput) -> (t: u32)
        ensures
            t == (if input.timeout < 300 {
                input.timeout
            } else {
                300
            }),
    {
        if input.timeout < 300 {
            input.timeout
        } else {
            300
        }
    }

    /// The combined output of a run: standard output, then standard error.
    pub fn combine_output(stdout: &str, stderr: &str) -> (r: String)
        ensures
            r@ == stdout@ + stderr@,
    {
        let mut r = text::owned(stdout);
        text::push_str(&mut r, stderr);
        r
    }

    /// The result of a finished command: its (already sanitized) output, or
    /// the failure with the exit code (-1 when there is none).
    pub fn run_result(success: bool, exit_code: Option<i32>, output: String) -> (r: ToolResult)
        ensures
            success ==> !r.is_error && r.content@ == output@,
            !success ==> r.is_error && r.content@ == "Command failed with exit code "@ + signed_decimal(
                match exit_code {
                    Some(c) => c as int,
                    None => -1,
                },
            ) + ": "@ + output@,
    {
        if success {
            ToolResult::success(output)
        } else {
            let code = match exit_code {
                Some(c) => c,
                None => -1,
            };
            let mut m = text::owned("Command failed with exit code ");
            text::push_signed_decimal(&mut m, code);
            text::push_str(&mut m, ": ");
            text::push_str(&mut m, output.as_str());
            ToolResult::error(m)
        }
    }

    /// The timeout error of a command.
    pub fn timeout_error(input: &BashInput) -> (m: String)
        ensures
            m@ == "Command timed out after "@ + decimal(input.timeout as nat) + " seconds"@,
    {
        let mut m = text::owned("Command timed out after ");
        text::push_decimal(&mut m, input.timeout as u64);
        text::push_str(&mut m, " seconds");
        m
    }

    /// Whether a command is likely read-only: trimmed, it starts with one of
    /// a few reading commands.
    pub fn is_read_only(input: &BashInput) -> (b: bool)
        ensures
            b == spec_is_read_only(input.command@),
    {
        let cmd = text::str_trim(input.command.as_str());
        let prefixes = [
            "ls",
            "cat",
            "head",
            "tail",
            "grep",
            "find",
            "git status",
            "git log",
            "git diff",
            "which",
            "echo",
            "pwd",
            "type",
        ];
        let mut i: usize = 0;
        while i < 13
            invariant
                i <= 13,
                cmd@ == trim(input.command@),
                forall|j: int| 0 <= j < 13 ==> #[trigger] prefixes@[j]@ == read_only_prefixes()[j],
                forall|j: int| 0 <= j < i ==> !starts_with(cmd@, #[trigger] read_only_prefixes()[j]),
            decreases 13 - i,
        {
            if text::str_starts_with(cmd.as_str(), prefixes[i]) {
                return true;
            }
            i += 1;
        }
        false
    }

    /// Summary of a command for display.
    pub fn summarize(input: &BashInput) -> (s: String)
        ensures
            s@ == "Running: "@ + input.command@,
    {
        let mut s = text::owned("Running: ");
        text::push_str(&mut s, input.command.as_str());
        s
    }
}

impl Default for BashTool {
    fn default() -> (t: Self)
        ensures
            t.checker().mode == PermissionMode::Default,
    {
        Self::new()
    }
}

} // verus!
