//! Finding files by glob pattern: where the search starts, the full pattern,
//! the limit on results and their report. Walking the file system is left
//! to the application.

use crate::paths;
use crate::text;
use crate::text::{decimal, join, views};
use vstd::prelude::*;

verus! {

/// GlobTool input schema
#[derive(Debug, Clone)]
pub struct GlobInput {
    /// The glob pattern to match files (e.g., "**/*.rs", "src/**/*.ts")
    pub pattern: String,
    /// The directory to search from (default: current working directory)
    pub path: Option<String>,
}

/// GlobTool - Find files matching glob patterns
pub struct GlobTool;

/// The most paths reported.
pub open spec fn max_results() -> nat {
    100
}

/// The search base: the given path resolved against the working directory,
/// or the working directory.
pub open spec fn base_path(path: Option<Seq<char>>, cwd: Seq<char>) -> Seq<char> {
    match path {
        Some(p) => paths::resolved(p, cwd),
        None => cwd,
    }
}

/// The full pattern: patterns from the root or the home directory stand as
/// they are, others are joined onto the base.
pub open spec fn full_pattern(pattern: Seq<char>, base: Seq<char>) -> Seq<char> {
    if pattern.len() > 0 && (pattern[0] == '/' || pattern[0] == '~') {
        pattern
    } else {
        paths::joined(base, pattern)
    }
}

/// The report of the paths found.
pub open spec fn results_text(files: Seq<Seq<char>>, pattern: Seq<char>, truncated: bool) -> Seq<char> {
    if files.len() == 0 {
        "No files found matching pattern: "@ + pattern
    } else {
        let list = join(files.map_values(|f: Seq<char>| "  "@ + f), seq!['\n']);
        if truncated {
            "Found "@ + decimal(files.len()) + "+ files matching: "@ + pattern + seq!['\n'] + list
                + "\n... (results truncated)"@
        } else {
            "Found "@ + decimal(files.len()) + " files matching: "@ + pattern + seq!['\n'] + list
        }
    }
}

impl GlobTool {
    /// Create a new GlobTool instance
    pub fn new() -> (t: Self) {
        Self
    }

    /// Tool name (used in API calls)
    pub fn name(&self) -> (n: &'static str)
        ensures
            n@ == "Glob"@,
    {
        "Glob"
    }

    /// Tool description (shown to the model)
    pub fn description(&self) -> (d: String)
        ensures
            d@ == "Find files matching glob patterns. Use for discovering source files, configs, etc. Supports patterns like **/*.rs, src/**/*.ts."@,
    {
        text::owned(
            "Find files matching glob patterns. Use for discovering source files, configs, etc. Supports patterns like **/*.rs, src/**/*.ts.",
        )
    }

    /// Searching changes nothing.
    pub fn is_read_only(&self) -> (b: bool)
        ensures
            b,
    {
        true
    }

    /// Resolve path relative to cwd
    pub fn resolve_base_path(path: Option<&str>, cwd: &str) -> (r: String)
        ensures
            r@ == base_path(
                match path {
                    Some(p) => Some(p@),
                    None => None,
                },
                cwd@,
            ),
    {
        match path {
            Some(p) => paths::resolve_path(p, cwd),
            None => text::owned(cwd),
        }
    }

    /// Build full glob pattern with base path
    pub fn build_pattern(pattern: &str, base_path: &str) -> (r: String)
        ensures
            r@ == full_pattern(pattern@, base_path@),
    {
        let cs = text::chars_of(pattern);
        if cs.len() > 0 && (cs[0] == '/' || cs[0] == '~') {
            text::owned(pattern)
        } else {
            paths::join_path(base_path, pattern)
        }
    }

    /// The error for an empty pattern, if it is empty.
    pub fn validate(input: &GlobInput) -> (r: Option<String>)
        ensures
            input.pattern@.len() == 0 ==> (r matches Some(e) && e@ == "Pattern cannot be empty"@),
            input.pattern@.len() > 0 ==> r is None,
    {
        if input.pattern.as_str().is_empty() {
            Some(text::owned("Pattern cannot be empty"))
        } else {
            None
        }
    }

    /// Format results
    pub fn format_results(files: &[String], pattern: &str, truncated: bool) -> (r: String)
        ensures
            r@ == results_text(views(files@), pattern@, truncated),
    {
        proof {
            reveal_strlit("  ");
            reveal_strlit("\n");
        }
        if files.len() == 0 {
            let mut m = text::owned("No files found matching pattern: ");
            text::push_str(&mut m, pattern);
            return m;
        }
        let ghost target = views(files@).map_values(|f: Seq<char>| "  "@ + f);
        let mut items: Vec<String> = Vec::new();
        let mut i: usize = 0;
        while i < files.len()
            invariant
                i <= files@.len(),
                target == views(files@).map_values(|f: Seq<char>| "  "@ + f),
                views(items@) == target.take(i as int),
            decreases files@.len() - i,
        {
            let mut item = text::owned("  ");
            text::push_str(&mut item, files[i].as_str());
            let ghost before = views(items@);
            assert(item@ == target[i as int]);
            items.push(item);
            assert(views(items@) =~= before.push(target[i as int]));
            assert(target.take(i + 1) =~= target.take(i as int).push(target[i as int]));
            i += 1;
        }
        assert(target.take(i as int) =~= target);
        let list = text::join_strings(items.as_slice(), "\n");
        assert("\n"@ =~= seq!['\n']);
        let mut m = text::owned("Found ");
        text::push_decimal(&mut m, files.len() as u64);
        if truncated {
            text::push_str(&mut m, "+ files matching: ");
        } else {
            text::push_str(&mut m, " files matching: ");
        }
        text::push_str(&mut m, pattern);
        text::push_str(&mut m, "\n");
        text::push_str(&mut m, list.as_str());
        if truncated {
            text::push_str(&mut m, "\n... (results truncated)");
        }
        m
    }

    /// The report of what the search found: at most the first hundred paths,
    /// noting when there were more.
    pub fn report(paths_found: &[String], pattern: &str) -> (r: String)
        ensures
            r@ == results_text(
                views(paths_found@).take(
                    if paths_found@.len() > max_results() {
                        max_results() as int
                    } else {
                        paths_found@.len() as int
                    },
                ),
                pattern@,
                paths_found@.len() > max_results(),
            ),
    {
        let truncated = paths_found.len() > 100;
        let n = if truncated {
            100
        } else {
            paths_found.len()
        };
        let mut shown: Vec<String> = Vec::new();
        let mut i: usize = 0;
        while i < n
            invariant
                i <= n <= paths_found@.len(),
                shown@ == paths_found@.take(i as int),
            decreases n - i,
        {
            shown.push(paths_found[i].clone());
            i += 1;
            assert(shown@ =~= paths_found@.take(i as int));
        }
        assert(views(shown@) =~= views(paths_found@).take(n as int));
        Self::format_results(shown.as_slice(), pattern, truncated)
    }

    /// Summary of a search for display.
    pub fn summarize(input: &GlobInput) -> (s: String)
        ensures
            s@ == "Searching: "@ + input.pattern@,
    {
        let mut s = text::owned("Searching: ");
        text::push_str(&mut s, input.pattern.as_str());
        s
    }
}

} // verus!
