//! Running Python or Node code: language normalization and support, the
//! permission decision, the interpreter command, and the result record.
//! Starting the interpreter and waiting on it is left to the application.

use crate::permissions::{PermissionBehavior, PermissionMode};
use crate::text;
use crate::text::{decimal, lowercase};
use vstd::prelude::*;

verus! {

/// ExecuteTool - Execute code in sandboxed environment
pub struct ExecuteTool;

/// Execute input parameters
#[derive(Debug, Clone)]
pub struct ExecuteInput {
    /// Language to execute (python, node/javascript/js)
    pub language: String,
    /// Code to execute
    pub code: String,
    /// Timeout in seconds (default 30)
    pub timeout: u32,
}

/// Execute output result
#[derive(Debug, Clone)]
pub struct ExecuteOutput {
    /// Language executed
    pub language: String,
    /// Standard output
    pub stdout: String,
    /// Standard error
    pub stderr: String,
    /// Exit code
    pub exit_code: i32,
    /// Execution time in milliseconds
    pub execution_time_ms: u64,
    /// Whether execution was successful (exit code 0)
    pub success: bool,
    /// Whether timeout was reached
    pub timed_out: bool,
}

/// The default timeout, in seconds.
pub fn default_timeout() -> (t: u32)
    ensures
        t == 30,
{
    30
}

/// The canonical name of a language: `python` for python/py, `node` for
/// node/javascript/js (in any case), otherwise the lowercase name.
pub open spec fn normalized_language(lang: Seq<char>) -> Seq<char> {
    let lower = lowercase(lang);
    if lower == "python"@ || lower == "py"@ {
        "python"@
    } else if lower == "node"@ || lower == "javascript"@ || lower == "js"@ {
        "node"@
    } else {
        lower
    }
}

/// Normalize language name
pub fn normalize_language(lang: &str) -> (r: String)
    ensures
        r@ == normalized_language(lang@),
{
    let lower = text::str_to_lowercase(lang);
    let l = lower.as_str();
    if text::str_eq(l, "python") || text::str_eq(l, "py") {
        text::owned("python")
    } else if text::str_eq(l, "node") || text::str_eq(l, "javascript") || text::str_eq(l, "js") {
        text::owned("node")
    } else {
        lower
    }
}

/// Check if language is supported
pub fn is_supported_language(lang: &str) -> (b: bool)
    ensures
        b == (lang@ == "python"@ || lang@ == "node"@),
{
    text::str_eq(lang, "python") || text::str_eq(lang, "node")
}

/// Check permission for execute operation: asked for in the default mode,
/// allowed in the others.
pub fn check_execute_permission(mode: PermissionMode) -> (b: PermissionBehavior)
    ensures
        b == (if mode == PermissionMode::Default {
            PermissionBehavior::Ask
        } else {
            PermissionBehavior::Allow
        }),
{
    match mode {
        PermissionMode::Default => PermissionBehavior::Ask,
        PermissionMode::AcceptEdits => PermissionBehavior::Allow,
        PermissionMode::BypassPermissions => PermissionBehavior::Allow,
        PermissionMode::DontAsk => PermissionBehavior::Allow,
    }
}

/// The interpreter and its version flag that show whether it is installed.
pub fn interpreter_check_command(lang: &str) -> (r: Option<(&'static str, &'static str)>)
    ensures
        lang@ == "python"@ ==> (r matches Some((c, a)) && c@ == "python3"@ && a@ == "--version"@),
        lang@ == "node"@ ==> (r matches Some((c, a)) && c@ == "node"@ && a@ == "--version"@),
        lang@ != "python"@ && lang@ != "node"@ ==> r is None,
{
    proof {
        reveal_strlit("python");
        reveal_strlit("node");
    }
    if text::str_eq(lang, "python") {
        Some(("python3", "--version"))
    } else if text::str_eq(lang, "node") {
        Some(("node", "--version"))
    } else {
        None
    }
}

/// The interpreter and the flag that makes it run `code` given inline.
pub fn execute_command(language: &str) -> (r: Option<(&'static str, &'static str)>)
    ensures
        language@ == "python"@ ==> (r matches Some((c, a)) && c@ == "python3"@ && a@ == "-c"@),
        language@ == "node"@ ==> (r matches Some((c, a)) && c@ == "node"@ && a@ == "-e"@),
        language@ != "python"@ && language@ != "node"@ ==> r is None,
{
    proof {
        reveal_strlit("python");
        reveal_strlit("node");
    }
    if text::str_eq(language, "python") {
        Some(("python3", "-c"))
    } else if text::str_eq(language, "node") {
        Some(("node", "-e"))
    } else {
        None
    }
}

/// The error for an unsupported language.
pub open spec fn unsupported_message(lang: Seq<char>) -> Seq<char> {
    "Unsupported language: "@ + lang + ". Supported: python, node"@
}

/// The error for a missing interpreter.
pub open spec fn missing_interpreter_message(lang: Seq<char>) -> Seq<char> {
    lang + " interpreter not found. Please install "@ + lang + " to use this tool."@
}

impl ExecuteTool {
    /// An execute tool.
    pub fn new() -> (t: Self) {
        Self
    }

    /// Tool name (used in API calls)
    pub fn name(&self) -> (n: &'static str)
        ensures
            n@ == "Execute"@,
    {
        "Execute"
    }

    /// Tool description (shown to the model)
    pub fn description(&self) -> (d: String)
        ensures
            d@ == "Execute Python or Node.js code in a sandboxed environment with timeout and output capture."@,
    {
        text::owned("Execute Python or Node.js code in a sandboxed environment with timeout and output capture.")
    }

    /// Running code can modify things.
    pub fn is_read_only(&self) -> (b: bool)
        ensures
            !b,
    {
        false
    }

    /// The checks before running: permission, then language support. On
    /// success, the normalized language to run; the interpreter's presence is
    /// checked by the caller with `interpreter_check_command`.
    pub fn prepare(input: &ExecuteInput, mode: PermissionMode) -> (r: Result<String, String>)
        ensures
            normalized_language(input.language@) == "python"@ || normalized_language(input.language@) == "node"@
                ==> (r matches Ok(l) && l@ == normalized_language(input.language@)),
            !(normalized_language(input.language@) == "python"@ || normalized_language(input.language@) == "node"@)
                ==> (r matches Err(e) && e@ == unsupported_message(input.language@)),
    {
        let permission = check_execute_permission(mode);
        if permission == PermissionBehavior::Deny {
            return Err(text::owned("Permission denied for code execution"));
        }
        let language = normalize_language(input.language.as_str());
        if !is_supported_language(language.as_str()) {
            return Err(
                text::concat3("Unsupported language: ", input.language.as_str(), ". Supported: python, node"),
            );
        }
        Ok(language)
    }

    /// The error when the interpreter for `language` is not installed.
    pub fn missing_interpreter(language: &str) -> (e: String)
        ensures
            e@ == missing_interpreter_message(language@),
    {
        let mut e = text::owned(language);
        text::push_str(&mut e, " interpreter not found. Please install ");
        text::push_str(&mut e, language);
        text::push_str(&mut e, " to use this tool.");
        e
    }

    /// The record of a run: its output and exit code, or, when it did not
    /// complete, a timeout (an error mentioning "timeout") or the error.
    pub fn output(
        language: String,
        timeout: u32,
        result: Result<(String, String, i32), String>,
        execution_time_ms: u64,
    ) -> (out: ExecuteOutput)
        ensures
            out.language@ == language@,
            out.execution_time_ms == execution_time_ms,
            match result {
                Ok((stdout, stderr, code)) => {
                    &&& out.stdout@ == stdout@
                    &&& out.stderr@ == stderr@
                    &&& out.exit_code == code
                    &&& out.success == (code == 0)
                    &&& !out.timed_out
                },
                Err(e) => {
                    &&& out.stdout@.len() == 0
                    &&& out.exit_code == -1
                    &&& !out.success
                    &&& out.timed_out == (text::first_occurrence(e@, "timeout"@) is Some)
                    &&& out.timed_out ==> out.stderr@ == "Execution timed out after "@ + decimal(timeout as nat)
                        + " seconds"@
                    &&& !out.timed_out ==> out.stderr@ == e@
                },
            },
    {
        match result {
            Ok((stdout, stderr, exit_code)) => ExecuteOutput {
                language,
                stdout,
                stderr,
                exit_code,
                execution_time_ms,
                success: exit_code == 0,
                timed_out: false,
            },
            Err(e) => {
                if text::str_contains(e.as_str(), "timeout") {
                    let mut stderr = text::owned("Execution timed out after ");
                    text::push_decimal(&mut stderr, timeout as u64);
                    text::push_str(&mut stderr, " seconds");
                    ExecuteOutput {
                        language,
                        stdout: String::new(),
                        stderr,
                        exit_code: -1,
                        execution_time_ms,
                        success: false,
                        timed_out: true,
                    }
                } else {
                    ExecuteOutput {
                        language,
                        stdout: String::new(),
                        stderr: e,
                        exit_code: -1,
                        execution_time_ms,
                        success: false,
                        timed_out: false,
                    }
                }
            },
        }
    }
}

} // verus!
