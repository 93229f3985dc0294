//! Searching file contents with a regular expression: the pattern, which
//! lines match and with what context, the limit on matches and their report.
//! Finding the files and reading them is left to the application.

use crate::paths;
use crate::text;
use crate::text::{decimal, join, views};
use crate::tools::tool_trait::ToolResult;
use vstd::prelude::*;

verus! {

/// `regex::Regex`, a compiled pattern, carried through the search.
#[verifier::external_type_specification]
#[verifier::external_body]
pub struct ExRegex(regex::Regex);

/// GrepTool input schema
#[derive(Debug, Clone)]
pub struct GrepInput {
    /// The regex pattern to search for in file contents
    pub pattern: String,
    /// The directory or file to search (default: current working directory)
    pub path: Option<String>,
    /// Glob pattern to filter files (e.g., "*.rs", "**/*.ts")
    pub glob: Option<String>,
    /// Case insensitive search
    pub ignore_case: bool,
    /// Show line numbers in output
    pub show_lines: bool,
    /// Number of context lines to show before/after matches
    pub context: Option<u32>,
    /// Maximum number of matches to return
    pub head_limit: Option<u32>,
}

/// Lines are shown unless asked otherwise.
pub fn default_show_lines() -> (b: bool)
    ensures
        b,
{
    true
}

/// GrepTool - Search file contents using regex patterns
pub struct GrepTool;

/// A compiled search pattern, with the text and flag it was built from.
pub struct CompiledPattern {
    regex: regex::Regex,
    pattern: String,
    ignore_case: bool,
}

impl CompiledPattern {
    /// The pattern text.
    pub closed spec fn pattern(&self) -> Seq<char> {
        self.pattern@
    }

    /// Whether case is ignored.
    pub closed spec fn ignore_case(&self) -> bool {
        self.ignore_case
    }

    /// The compiled regex.
    pub(crate) fn regex(&self) -> &regex::Regex {
        &self.regex
    }
}

/// Whether `regex::RegexBuilder` accepts `pattern` (with case ignored or not).
pub uninterp spec fn regex_accepts(pattern: Seq<char>, ignore_case: bool) -> bool;

/// The message of the error `regex::RegexBuilder` reports for `pattern`.
pub uninterp spec fn regex_error_text(pattern: Seq<char>, ignore_case: bool) -> Seq<char>;

/// Whether the regex built from `pattern` matches somewhere in `line`.
pub uninterp spec fn regex_matches(pattern: Seq<char>, ignore_case: bool, line: Seq<char>) -> bool;

/// `RegexBuilder::new(pattern).case_insensitive(ignore_case).build()`: the
/// compiled pattern, or the error's text (its `Display`), as named by
/// `regex_accepts` and `regex_error_text`.
#[verifier::external_body]
pub(crate) fn build_regex(pattern: &str, ignore_case: bool) -> (r: Result<CompiledPattern, String>)
    ensures
        match r {
            Ok(c) => regex_accepts(pattern@, ignore_case) && c.pattern() == pattern@ && c.ignore_case() == ignore_case,
            Err(e) => !regex_accepts(pattern@, ignore_case) && e@ == regex_error_text(pattern@, ignore_case),
        },
{
    let mut builder = regex::RegexBuilder::new(pattern);
    builder.case_insensitive(ignore_case);
    match builder.build() {
        Ok(regex) => Ok(CompiledPattern { regex, pattern: pattern.to_string(), ignore_case }),
        Err(e) => Err(e.to_string()),
    }
}

/// `Regex::is_match`: whether the compiled pattern matches somewhere in
/// `line`, as named by `regex_matches`.
#[verifier::external_body]
fn is_match(p: &CompiledPattern, line: &str) -> (b: bool)
    ensures
        b == regex_matches(p.pattern(), p.ignore_case(), line@),
{
    p.regex.is_match(line)
}

/// A match as shown: file, line number, line, and the numbered context
/// lines before and after.
pub struct MatchView {
    pub file_path: Seq<char>,
    pub line_number: nat,
    pub line_content: Seq<char>,
    pub before: Seq<(nat, Seq<char>)>,
    pub after: Seq<(nat, Seq<char>)>,
}

/// Single match result
#[derive(Debug, Clone)]
pub struct MatchResult {
    pub file_path: String,
    pub line_number: u32,
    pub line_content: String,
    pub context_before: Vec<(u32, String)>,
    pub context_after: Vec<(u32, String)>,
}

/// The numbered lines.
pub open spec fn numbered_views(ls: Seq<(u32, String)>) -> Seq<(nat, Seq<char>)> {
    ls.map_values(|p: (u32, String)| (p.0 as nat, p.1@))
}

/// What a match result shows.
pub open spec fn match_view(m: MatchResult) -> MatchView {
    MatchView {
        file_path: m.file_path@,
        line_number: m.line_number as nat,
        line_content: m.line_content@,
        before: numbered_views(m.context_before@),
        after: numbered_views(m.context_after@),
    }
}

/// What the match results show.
pub open spec fn match_views(ms: Seq<MatchResult>) -> Seq<MatchView> {
    ms.map_values(|m: MatchResult| match_view(m))
}

/// Lines `lo..hi` of `ls`, numbered from 1.
pub open spec fn numbered(ls: Seq<Seq<char>>, lo: int, hi: int) -> Seq<(nat, Seq<char>)> {
    Seq::new((hi - lo) as nat, |k: int| ((lo + k + 1) as nat, ls[lo + k]))
}

/// The match at line `idx` (counted from 0), with `ctx` lines of context
/// each side when asked.
pub open spec fn match_at(file: Seq<char>, ls: Seq<Seq<char>>, idx: int, ctx: Option<u32>) -> MatchView {
    MatchView {
        file_path: file,
        line_number: (idx + 1) as nat,
        line_content: ls[idx],
        before: match ctx {
            Some(c) => numbered(ls, if idx - c >= 0 { idx - c } else { 0 }, idx),
            None => seq![],
        },
        after: match ctx {
            Some(c) => numbered(ls, idx + 1, if idx + 1 + c <= ls.len() { idx + 1 + c } else { ls.len() as int }),
            None => seq![],
        },
    }
}

/// The matches among the first `n` lines, in order.
pub open spec fn matches_upto(
    file: Seq<char>,
    ls: Seq<Seq<char>>,
    pattern: Seq<char>,
    ignore_case: bool,
    ctx: Option<u32>,
    n: int,
) -> Seq<MatchView>
    decreases n,
{
    if n <= 0 {
        seq![]
    } else {
        let rest = matches_upto(file, ls, pattern, ignore_case, ctx, n - 1);
        if regex_matches(pattern, ignore_case, ls[n - 1]) {
            rest.push(match_at(file, ls, n - 1, ctx))
        } else {
            rest
        }
    }
}

/// `s` right-aligned in a field of `w` characters.
pub open spec fn right_aligned(s: Seq<char>, w: nat) -> Seq<char> {
    if s.len() < w {
        Seq::new((w - s.len()) as nat, |i: int| ' ') + s
    } else {
        s
    }
}

/// A context line as shown.
pub open spec fn context_line(n: nat, l: Seq<char>) -> Seq<char> {
    "  "@ + right_aligned(decimal(n), 6) + "-\t"@ + l
}

/// The lines shown for one match.
pub open spec fn match_lines(m: MatchView, show_lines: bool) -> Seq<Seq<char>> {
    let head = seq![m.file_path + seq![':'] + decimal(m.line_number)];
    if show_lines {
        head + m.before.map_values(|p: (nat, Seq<char>)| context_line(p.0, p.1)) + seq![
            "  "@ + right_aligned(decimal(m.line_number), 6) + seq!['\t'] + m.line_content,
        ] + m.after.map_values(|p: (nat, Seq<char>)| context_line(p.0, p.1))
    } else {
        head
    }
}

/// The lines shown for the matches, in order.
pub open spec fn all_match_lines(ms: Seq<MatchView>, show_lines: bool) -> Seq<Seq<char>>
    decreases ms.len(),
{
    if ms.len() == 0 {
        seq![]
    } else {
        all_match_lines(ms.drop_last(), show_lines) + match_lines(ms.last(), show_lines)
    }
}

/// The report of the matches.
pub open spec fn results_text(ms: Seq<MatchView>, show_lines: bool, truncated: bool) -> Seq<char> {
    if ms.len() == 0 {
        "No matches found"@
    } else {
        let body = join(all_match_lines(ms, show_lines), seq!['\n']);
        if truncated {
            body + "... (results truncated)"@
        } else {
            "Found "@ + decimal(ms.len()) + " matches:\n"@ + body
        }
    }
}

/// The most matches collected when no limit is given.
pub const MAX_MATCHES: usize = 100;

/// The limit on matches: the one asked for, or a hundred.
pub open spec fn match_limit(head_limit: Option<u32>) -> nat {
    match head_limit {
        Some(l) => l as nat,
        None => MAX_MATCHES as nat,
    }
}

/// Whether a path found by walking a directory is searched: paths inside
/// version control, dependency or build directories, and Finder metadata,
/// are skipped.
pub open spec fn searched_path(p: Seq<char>) -> bool {
    &&& text::first_occurrence(p, "/.git/"@) is None
    &&& text::first_occurrence(p, "/node_modules/"@) is None
    &&& text::first_occurrence(p, "/target/"@) is None
    &&& text::first_occurrence(p, ".DS_Store"@) is None
}

/// The number `n` right-aligned in six columns.
fn push_right_aligned(s: &mut String, n: u32)
    ensures
        final(s)@ == old(s)@ + right_aligned(decimal(n as nat), 6),
{
    let digits = text::decimal_string(n as u64);
    let len = text::chars_of(digits.as_str()).len();
    let mut i: usize = len;
    while i < 6
        invariant
            len <= i <= 6 || (len > 6 && i == len),
            len == digits@.len(),
            s@ == old(s)@ + Seq::new((i - len) as nat, |k: int| ' '),
        decreases 6 - i,
    {
        let ghost before = s@;
        text::push_char(s, ' ');
        i += 1;
        assert(s@ =~= old(s)@ + Seq::new((i - len) as nat, |k: int| ' '));
    }
    let ghost pad = s@;
    text::push_str(s, digits.as_str());
    proof {
        if len >= 6 {
            assert(pad =~= old(s)@);
        }
    }
    assert(s@ =~= old(s)@ + right_aligned(decimal(n as nat), 6));
}

/// The numbered lines of `ls[lo..hi]`.
fn numbered_lines(ls: &[String], lo: usize, hi: usize) -> (r: Vec<(u32, String)>)
    requires
        lo <= hi <= ls@.len(),
        ls@.len() < u32::MAX,
    ensures
        numbered_views(r@) == numbered(views(ls@), lo as int, hi as int),
{
    let mut r: Vec<(u32, String)> = Vec::new();
    let mut i: usize = lo;
    while i < hi
        invariant
            lo <= i <= hi <= ls@.len(),
            ls@.len() < u32::MAX,
            numbered_views(r@) == numbered(views(ls@), lo as int, i as int),
        decreases hi - i,
    {
        let ghost before = numbered_views(r@);
        r.push(((i + 1) as u32, ls[i].clone()));
        assert(numbered_views(r@) =~= before.push(((i + 1) as nat, views(ls@)[i as int])));
        assert(numbered(views(ls@), lo as int, i + 1) =~= numbered(views(ls@), lo as int, i as int).push(
            ((i + 1) as nat, views(ls@)[i as int]),
        ));
        i += 1;
    }
    r
}

impl GrepTool {
    /// Create a new GrepTool instance
    pub fn new() -> (t: Self) {
        Self
    }

    /// Tool name (used in API calls)
    pub fn name(&self) -> (n: &'static str)
        ensures
            n@ == "Grep"@,
    {
        "Grep"
    }

    /// Tool description (shown to the model)
    pub fn description(&self) -> (d: String)
        ensures
            d@ == "Search file contents using regex patterns. Use for finding code symbols, keywords, patterns across files. Supports glob filtering."@,
    {
        text::owned(
            "Search file contents using regex patterns. Use for finding code symbols, keywords, patterns across files. Supports glob filtering.",
        )
    }

    /// Searching only reads.
    pub fn is_read_only(&self) -> (b: bool)
        ensures
            b,
    {
        true
    }

    /// The error for an empty pattern, if it is empty.
    pub fn validate(input: &GrepInput) -> (r: Option<ToolResult>)
        ensures
            input.pattern@.len() == 0 ==> (r matches Some(e) && e.is_error && e.content@ == "Pattern cannot be empty"@),
            input.pattern@.len() > 0 ==> r is None,
    {
        if input.pattern.as_str().is_empty() {
            Some(ToolResult::error(text::owned("Pattern cannot be empty")))
        } else {
            None
        }
    }

    /// Compile the input's pattern; an invalid pattern is refused with
    /// `Invalid regex pattern: ` and the reason.
    pub fn compile(input: &GrepInput) -> (r: Result<CompiledPattern, String>)
        ensures
            match r {
                Ok(c) => regex_accepts(input.pattern@, input.ignore_case) && c.pattern() == input.pattern@
                    && c.ignore_case() == input.ignore_case,
                Err(e) => !regex_accepts(input.pattern@, input.ignore_case) && e@ == "Invalid regex pattern: "@
                    + regex_error_text(input.pattern@, input.ignore_case),
            },
    {
        match build_regex(input.pattern.as_str(), input.ignore_case) {
            Ok(c) => Ok(c),
            Err(e) => {
                let mut m = text::owned("Invalid regex pattern: ");
                text::push_str(&mut m, e.as_str());
                Err(m)
            },
        }
    }

    /// Resolve path relative to cwd
    pub fn resolve_base_path(path: Option<&str>, cwd: &str) -> (r: String)
        ensures
            r@ == match path {
                Some(p) => paths::resolved(p@, cwd@),
                None => cwd@,
            },
    {
        match path {
            Some(p) => paths::resolve_path(p, cwd),
            None => text::owned(cwd),
        }
    }

    /// The glob walked for the files to search: the filter resolved against
    /// the base, or every file below the base.
    pub fn file_glob(base_path: &str, glob_filter: Option<&str>) -> (r: String)
        ensures
            r@ == match glob_filter {
                Some(g) => paths::resolved(g@, base_path@),
                None => paths::joined(base_path@, "**/*"@),
            },
    {
        match glob_filter {
            Some(g) => paths::resolve_path(g, base_path),
            None => paths::join_path(base_path, "**/*"),
        }
    }

    /// Whether a file found by walking the whole base (no filter) is searched.
    pub fn is_searched_path(path: &str) -> (b: bool)
        ensures
            b == searched_path(path@),
    {
        !text::str_contains(path, "/.git/") && !text::str_contains(path, "/node_modules/") && !text::str_contains(
            path,
            "/target/",
        ) && !text::str_contains(path, ".DS_Store")
    }

    /// The result when there is nothing to search.
    pub fn no_files_result() -> (r: ToolResult)
        ensures
            !r.is_error,
            r.content@ == "No files found to search"@,
    {
        ToolResult::success(text::owned("No files found to search"))
    }

    /// The limit on matches: the one asked for, or a hundred.
    pub fn max_matches(input: &GrepInput) -> (n: usize)
        ensures
            n == match_limit(input.head_limit),
    {
        match input.head_limit {
            Some(l) => l as usize,
            None => MAX_MATCHES,
        }
    }

    /// Search the lines of one file: every line the pattern matches, with
    /// `context` lines each side when asked. Lines are numbered from 1.
    pub fn search_lines(file_path: &str, lines: &[String], regex: &CompiledPattern, context: Option<u32>) -> (r: Vec<MatchResult>)
        requires
            lines@.len() < u32::MAX,
        ensures
            match_views(r@) == matches_upto(file_path@, views(lines@), regex.pattern(), regex.ignore_case(), context, lines@.len() as int),
    {
        let n = lines.len();
        let ghost ls = views(lines@);
        let mut out: Vec<MatchResult> = Vec::new();
        let mut idx: usize = 0;
        while idx < n
            invariant
                idx <= n == lines@.len(),
                n < u32::MAX,
                ls == views(lines@),
                match_views(out@) == matches_upto(file_path@, ls, regex.pattern(), regex.ignore_case(), context, idx as int),
            decreases n - idx,
        {
            if is_match(regex, lines[idx].as_str()) {
                let (before, after) = match context {
                    Some(c) => {
                        let lo = if idx >= c as usize {
                            idx - c as usize
                        } else {
                            0
                        };
                        let hi = if n - (idx + 1) >= c as usize {
                            idx + 1 + c as usize
                        } else {
                            n
                        };
                        (numbered_lines(lines, lo, idx), numbered_lines(lines, idx + 1, hi))
                    },
                    None => (Vec::new(), Vec::new()),
                };
                let m = MatchResult {
                    file_path: text::owned(file_path),
                    line_number: (idx + 1) as u32,
                    line_content: lines[idx].clone(),
                    context_before: before,
                    context_after: after,
                };
                let ghost prev = match_views(out@);
                assert(match_view(m).before =~= match_at(file_path@, ls, idx as int, context).before);
                assert(match_view(m).after =~= match_at(file_path@, ls, idx as int, context).after);
                out.push(m);
                assert(match_views(out@) =~= prev.push(match_at(file_path@, ls, idx as int, context)));
            }
            idx += 1;
        }
        out
    }

    /// The lines shown for one match.
    fn push_match_lines(m: &MatchResult, show_lines: bool, out: &mut Vec<String>)
        ensures
            views(final(out)@) == views(old(out)@) + match_lines(match_view(*m), show_lines),
    {
        let mut head = text::owned(m.file_path.as_str());
        text::push_char(&mut head, ':');
        text::push_decimal(&mut head, m.line_number as u64);
        let ghost start = views(out@);
        assert(head@ =~= m.file_path@ + seq![':'] + decimal(m.line_number as nat));
        out.push(head);
        assert(views(out@) =~= start + seq![m.file_path@ + seq![':'] + decimal(m.line_number as nat)]);
        if !show_lines {
            return;
        }
        let ghost v = match_view(*m);
        let ghost bl = v.before.map_values(|p: (nat, Seq<char>)| context_line(p.0, p.1));
        let ghost al = v.after.map_values(|p: (nat, Seq<char>)| context_line(p.0, p.1));
        let ghost head_view = seq![m.file_path@ + seq![':'] + decimal(m.line_number as nat)];
        proof {
            reveal_strlit("  ");
            reveal_strlit("-\t");
        }
        let mut i: usize = 0;
        while i < m.context_before.len()
            invariant
                i <= m.context_before@.len(),
                v == match_view(*m),
                bl == v.before.map_values(|p: (nat, Seq<char>)| context_line(p.0, p.1)),
                views(out@) == start + head_view + bl.take(i as int),
            decreases m.context_before.len() - i,
        {
            let mut l = text::owned("  ");
            push_right_aligned(&mut l, m.context_before[i].0);
            text::push_str(&mut l, "-\t");
            text::push_str(&mut l, m.context_before[i].1.as_str());
            let ghost before = views(out@);
            assert(l@ =~= bl[i as int]);
            out.push(l);
            assert(views(out@) =~= before.push(bl[i as int]));
            assert(bl.take(i as int + 1) =~= bl.take(i as int).push(bl[i as int]));
            i += 1;
        }
        assert(bl.take(i as int) =~= bl);
        let mut l = text::owned("  ");
        push_right_aligned(&mut l, m.line_number);
        text::push_char(&mut l, '\t');
        text::push_str(&mut l, m.line_content.as_str());
        let ghost mid = views(out@);
        assert(l@ =~= "  "@ + right_aligned(decimal(m.line_number as nat), 6) + seq!['\t'] + m.line_content@);
        out.push(l);
        let ghost line_view = seq!["  "@ + right_aligned(decimal(m.line_number as nat), 6) + seq!['\t'] + m.line_content@];
        assert(views(out@) =~= mid + line_view);
        let mut j: usize = 0;
        while j < m.context_after.len()
            invariant
                j <= m.context_after@.len(),
                v == match_view(*m),
                al == v.after.map_values(|p: (nat, Seq<char>)| context_line(p.0, p.1)),
                views(out@) == start + head_view + bl + line_view + al.take(j as int),
            decreases m.context_after.len() - j,
        {
            let mut l = text::owned("  ");
            push_right_aligned(&mut l, m.context_after[j].0);
            text::push_str(&mut l, "-\t");
            text::push_str(&mut l, m.context_after[j].1.as_str());
            let ghost before = views(out@);
            assert(l@ =~= al[j as int]);
            out.push(l);
            assert(views(out@) =~= before.push(al[j as int]));
            assert(al.take(j as int + 1) =~= al.take(j as int).push(al[j as int]));
            j += 1;
        }
        assert(al.take(j as int) =~= al);
        assert(views(out@) =~= start + match_lines(v, show_lines));
    }

    /// Format match results for output
    pub fn format_results(matches: &[MatchResult], show_lines: bool, truncated: bool) -> (r: String)
        ensures
            r@ == results_text(match_views(matches@), show_lines, truncated),
    {
        if matches.len() == 0 {
            return text::owned("No matches found");
        }
        let ghost ms = match_views(matches@);
        let mut lines: Vec<String> = Vec::new();
        let mut i: usize = 0;
        assert(ms.take(0) =~= Seq::<MatchView>::empty());
        while i < matches.len()
            invariant
                i <= matches@.len(),
                ms == match_views(matches@),
                views(lines@) == all_match_lines(ms.take(i as int), show_lines),
            decreases matches.len() - i,
        {
            assert(ms.take(i as int + 1).drop_last() =~= ms.take(i as int));
            assert(ms.take(i as int + 1).last() == match_view(matches@[i as int]));
            Self::push_match_lines(&matches[i], show_lines, &mut lines);
            i += 1;
        }
        assert(ms.take(i as int) =~= ms);
        let body = text::join_strings(lines.as_slice(), "\n");
        proof {
            reveal_strlit("\n");
            assert("\n"@ =~= seq!['\n']);
        }
        if truncated {
            let mut r = body;
            text::push_str(&mut r, "... (results truncated)");
            r
        } else {
            let mut r = text::owned("Found ");
            text::push_decimal(&mut r, matches.len() as u64);
            text::push_str(&mut r, " matches:\n");
            text::push_str(&mut r, body.as_str());
            r
        }
    }

    /// Summary of a search for display.
    pub fn summarize(input: &GrepInput) -> (s: String)
        ensures
            s@ == "Searching for: "@ + input.pattern@,
    {
        let mut s = text::owned("Searching for: ");
        text::push_str(&mut s, input.pattern.as_str());
        s
    }
}

impl Default for GrepTool {
    fn default() -> (t: Self) {
        Self::new()
    }
}

/// The matches collected so far across files, up to a limit.
pub struct GrepCollector {
    matches: Vec<MatchResult>,
    max: usize,
}

impl View for GrepCollector {
    /// The matches collected and the limit.
    type V = (Seq<MatchView>, nat);

    closed spec fn view(&self) -> (Seq<MatchView>, nat) {
        (match_views(self.matches@), self.max as nat)
    }
}

impl GrepCollector {
    /// Never more than the limit, unless the limit is zero and nothing is
    /// collected.
    #[verifier::type_invariant]
    spec fn inv(self) -> bool {
        self.matches@.len() <= self.max
    }

    /// An empty collection with the given limit.
    pub fn new(max: usize) -> (c: Self)
        ensures
            c@ == (Seq::<MatchView>::empty(), max as nat),
    {
        let c = Self { matches: Vec::new(), max };
        assert(match_views(c.matches@) =~= Seq::<MatchView>::empty());
        c
    }

    /// Whether another file is to be searched: the limit is not reached.
    pub fn wants_more(&self) -> (b: bool)
        ensures
            b == (self@.0.len() < self@.1),
    {
        self.matches.len() < self.max
    }

    /// Add a file's matches, in order, until the limit is reached.
    pub fn add(&mut self, file_matches: Vec<MatchResult>)
        ensures
            final(self)@.1 == old(self)@.1,
            final(self)@.0 == old(self)@.0 + match_views(file_matches@).take(
                if file_matches@.len() + old(self)@.0.len() <= old(self)@.1 {
                    file_matches@.len() as int
                } else {
                    old(self)@.1 - old(self)@.0.len()
                },
            ),
    {
        proof {
            use_type_invariant(&*self);
        }
        let ghost start = match_views(self.matches@);
        let ghost fm = match_views(file_matches@);
        let mut collected: Vec<MatchResult> = Vec::new();
        std::mem::swap(&mut collected, &mut self.matches);
        let max = self.max;
        let mut rest = file_matches;
        let mut i: usize = 0;
        let total = rest.len();
        assert(fm.take(0) =~= Seq::<MatchView>::empty());
        assert(start + fm.take(0) =~= start);
        while rest.len() > 0 && collected.len() < max
            invariant
                i <= total == fm.len(),
                match_views(rest@) == fm.skip(i as int),
                collected@.len() <= max,
                max == old(self)@.1,
                collected@.len() == start.len() + i,
                match_views(collected@) == start + fm.take(i as int),
            decreases rest@.len(),
        {
            let ghost rest_old = rest@;
            assert(match_views(rest_old).len() == rest_old.len());
            assert(match_views(rest_old)[0] == match_view(rest_old[0]));
            let m = rest.remove(0);
            assert(match_view(m) == fm[i as int]);
            assert(rest@ =~= rest_old.skip(1));
            assert(match_views(rest@) =~= match_views(rest_old).skip(1));
            assert(match_views(rest@) =~= fm.skip(i as int + 1));
            let ghost before = match_views(collected@);
            collected.push(m);
            assert(match_views(collected@) =~= before.push(fm[i as int]));
            assert(fm.take(i as int + 1) =~= fm.take(i as int).push(fm[i as int]));
            i += 1;
        }
        std::mem::swap(&mut collected, &mut self.matches);
    }

    /// The matches collected.
    pub fn matches(&self) -> (ms: &[MatchResult])
        ensures
            match_views(ms@) == self@.0,
    {
        self.matches.as_slice()
    }

    /// The report: the matches, noted as cut short when the limit was
    /// reached.
    pub fn finish(&self, show_lines: bool) -> (r: String)
        ensures
            r@ == results_text(self@.0, show_lines, self@.0.len() >= self@.1),
    {
        let truncated = self.matches.len() >= self.max;
        GrepTool::format_results(self.matches.as_slice(), show_lines, truncated)
    }
}


/// Paths inside version control, dependency or build directories, and
/// Finder metadata files, are never searched: whatever comes before and
/// after `/.git/`, `/node_modules/`, `/target/` or `.DS_Store` in a path.
pub proof fn lemma_skipped_paths(before: Seq<char>, after: Seq<char>)
    ensures
        !searched_path(before + "/.git/"@ + after),
        !searched_path(before + "/node_modules/"@ + after),
        !searched_path(before + "/target/"@ + after),
        !searched_path(before + ".DS_Store"@ + after),
{
    text::lemma_occurs_within(before, "/.git/"@, after);
    text::lemma_occurs_within(before, "/node_modules/"@, after);
    text::lemma_occurs_within(before, "/target/"@, after);
    text::lemma_occurs_within(before, ".DS_Store"@, after);
}

} // verus!
