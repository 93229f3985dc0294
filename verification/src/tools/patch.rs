//! Applying unified diff patches to file content:
//! - Parse diff format (@@ hunk headers and their `+`, `-`, ` ` lines)
//! - Apply the hunks to the content, last hunk first
//! - Report what was added and removed

use crate::permissions::{PermissionBehavior, PermissionMode};
use crate::text;
use crate::text::{join, lines_of, starts_with, strip_lead, views, words};
use vstd::prelude::*;

verus! {

/// PatchTool - Apply unified diff patches
pub struct PatchTool;

/// Patch input parameters
#[derive(Debug, Clone)]
pub struct PatchInput {
    /// File path to apply patch to
    pub file_path: String,
    /// Unified diff content to apply
    pub patch_content: String,
    /// Whether to create file if it doesn't exist
    pub create_if_missing: bool,
}

/// Conflict information
#[derive(Debug, Clone)]
pub struct ConflictInfo {
    /// Hunk number that conflicted
    pub hunk_number: u32,
    /// Expected line in file
    pub expected_line: u32,
    /// Actual content at that line
    pub actual_content: String,
    /// Expected content
    pub expected_content: String,
}

/// Patch output result
#[derive(Debug, Clone)]
pub struct PatchOutput {
    /// Number of hunks applied successfully
    pub hunks_applied: u32,
    /// Number of hunks that failed (conflicts)
    pub hunks_failed: u32,
    /// Lines added
    pub lines_added: u32,
    /// Lines removed
    pub lines_removed: u32,
    /// Result file content
    pub result_content: String,
    /// Conflict details if any
    pub conflicts: Vec<ConflictInfo>,
    /// Operation type
    pub operation_type: String,
    /// File path
    pub file_path: String,
}

/// A parsed diff hunk
#[derive(Debug, Clone)]
pub struct DiffHunk {
    /// Old file start line
    pub old_start: u32,
    /// Old file line count
    pub old_lines: u32,
    /// New file start line
    pub new_start: u32,
    /// New file line count
    pub new_lines: u32,
    /// The lines in this hunk (with +, -, space prefix)
    pub lines: Vec<String>,
}

/// Abstract diff hunk.
pub struct HunkView {
    /// Old file start line.
    pub old_start: u32,
    /// Old file line count.
    pub old_lines: u32,
    /// New file start line.
    pub new_start: u32,
    /// New file line count.
    pub new_lines: u32,
    /// The hunk's lines.
    pub lines: Seq<Seq<char>>,
}

impl View for DiffHunk {
    type V = HunkView;

    open spec fn view(&self) -> HunkView {
        HunkView {
            old_start: self.old_start,
            old_lines: self.old_lines,
            new_start: self.new_start,
            new_lines: self.new_lines,
            lines: views(self.lines@),
        }
    }
}

/// The views of a sequence of hunks.
pub open spec fn hunk_views(hs: Seq<DiffHunk>) -> Seq<HunkView> {
    hs.map_values(|h: DiffHunk| h@)
}

/// The first comma-separated field of `t` (`split(',').next()`).
pub open spec fn first_field(t: Seq<char>) -> Seq<char> {
    t.take(text::index_of(t, ',') as int)
}

/// The second comma-separated field of `t`, if there is one
/// (`split(',').nth(1)`).
pub open spec fn second_field(t: Seq<char>) -> Option<Seq<char>> {
    let i = text::index_of(t, ',');
    if i < t.len() {
        let r = t.skip(i + 1int);
        Some(r.take(text::index_of(r, ',') as int))
    } else {
        None
    }
}

/// A number of a hunk header range such as `-1,5` or `+1`: the start line
/// (first field) or the line count (second field), 1 where it is missing or
/// does not parse.
pub open spec fn range_number(s: Seq<char>, is_start: bool) -> u32 {
    let t = strip_lead(strip_lead(s, '+'), '-');
    let field = if is_start {
        Some(first_field(t))
    } else {
        second_field(t)
    };
    match field {
        Some(f) => match text::parse_u32_spec(f) {
            Some(v) => v,
            None => 1,
        },
        None => 1,
    }
}

/// The header prefix of a hunk.
pub open spec fn hunk_marker() -> Seq<char> {
    seq!['@', '@']
}

/// `l` is a hunk body line: it starts with `+`, `-` or a space.
pub open spec fn is_body_line(l: Seq<char>) -> bool {
    l.len() > 0 && (l[0] == '+' || l[0] == '-' || l[0] == ' ')
}

/// The hunks after reading one more diff line: a header with at least three
/// whitespace-separated parts opens a hunk, a body line joins the last hunk,
/// anything else is skipped.
pub open spec fn parse_step(hs: Seq<HunkView>, line: Seq<char>) -> Seq<HunkView> {
    if starts_with(line, hunk_marker()) {
        let parts = words(line);
        if parts.len() >= 3 {
            hs.push(
                HunkView {
                    old_start: range_number(parts[1], true),
                    old_lines: range_number(parts[1], false),
                    new_start: range_number(parts[2], true),
                    new_lines: range_number(parts[2], false),
                    lines: seq![],
                },
            )
        } else {
            hs
        }
    } else if is_body_line(line) && hs.len() > 0 {
        hs.update(hs.len() - 1, HunkView { lines: hs.last().lines.push(line), ..hs.last() })
    } else {
        hs
    }
}

/// The hunks of the diff lines `ls`.
pub open spec fn parse_hunks(ls: Seq<Seq<char>>) -> Seq<HunkView>
    decreases ls.len(),
{
    if ls.len() == 0 {
        seq![]
    } else {
        parse_step(parse_hunks(ls.drop_last()), ls.last())
    }
}

/// `l` removes a line: it starts with `-` but not `---`.
pub open spec fn is_removal(l: Seq<char>) -> bool {
    l.len() > 0 && l[0] == '-' && !starts_with(l, seq!['-', '-', '-'])
}

/// `l` adds a line: it starts with `+` but not `+++`.
pub open spec fn is_addition(l: Seq<char>) -> bool {
    l.len() > 0 && l[0] == '+' && !starts_with(l, seq!['+', '+', '+'])
}

/// `l` is a context line: it starts with a space.
pub open spec fn is_context(l: Seq<char>) -> bool {
    l.len() > 0 && l[0] == ' '
}

/// The replacement lines a hunk's lines `hl` build from the file lines `fl`,
/// reading the file from line `start`, and the file line reached. Added lines
/// are taken from the hunk, context lines from the file where it reaches
/// that far, removed lines are skipped.
pub open spec fn build_state(hl: Seq<Seq<char>>, fl: Seq<Seq<char>>, start: int) -> (Seq<Seq<char>>, int)
    decreases hl.len(),
{
    if hl.len() == 0 {
        (seq![], start)
    } else {
        let prev = build_state(hl.drop_last(), fl, start);
        let out = prev.0;
        let idx = prev.1;
        let l = hl.last();
        if is_removal(l) {
            (out, idx + 1)
        } else if is_addition(l) {
            (out.push(strip_lead(l, '+')), idx)
        } else if is_context(l) {
            (
                out.push(
                    if 0 <= idx < fl.len() {
                        fl[idx]
                    } else {
                        strip_lead(l, ' ')
                    },
                ),
                idx + 1,
            )
        } else {
            (out, idx)
        }
    }
}

/// The file line (0-indexed) at which a hunk applies.
pub open spec fn hunk_start(h: HunkView) -> int {
    if h.old_start >= 1 {
        h.old_start - 1
    } else {
        0
    }
}

/// The file lines after applying one hunk: its old lines (as many as the
/// file has) are replaced by what it builds, or that is appended when it
/// starts past the end of the file.
pub open spec fn apply_one(fl: Seq<Seq<char>>, h: HunkView) -> Seq<Seq<char>> {
    let start = hunk_start(h);
    let nl = build_state(h.lines, fl, start).0;
    let end = if start + h.old_lines < fl.len() {
        start + h.old_lines
    } else {
        fl.len() as int
    };
    if start < fl.len() {
        fl.take(start) + nl + fl.skip(end)
    } else {
        fl + nl
    }
}

/// The file lines after applying hunks `n - 1` down to 0.
pub open spec fn apply_from(fl: Seq<Seq<char>>, hs: Seq<HunkView>, n: int) -> Seq<Seq<char>>
    decreases n,
{
    if n <= 0 {
        fl
    } else {
        apply_from(apply_one(fl, hs[n - 1]), hs, n - 1)
    }
}

/// The patched content: the file's lines with all hunks applied, last hunk
/// first, joined by newlines, with a final newline kept when the original
/// had one.
pub open spec fn patched(content: Seq<char>, hs: Seq<HunkView>) -> Seq<char> {
    let r = join(apply_from(lines_of(content), hs, hs.len() as int), seq!['\n']);
    if text::ends_nl(content) && !text::ends_nl(r) {
        r.push('\n')
    } else {
        r
    }
}

/// Every hunk's line numbers and lines can be counted in `usize`.
pub open spec fn hunks_fit(hs: Seq<HunkView>) -> bool {
    forall|i: int|
        0 <= i < hs.len() ==> #[trigger] hs[i].old_start + hs[i].old_lines + hs[i].lines.len() <= usize::MAX
}

/// Parse a range number from @@ header
/// For "-1,5" or "+1,6" format
pub fn parse_range_number(s: &str, is_start: bool) -> (n: u32)
    ensures
        n == range_number(s@, is_start),
{
    let cs = text::chars_of(s);
    let _n = cs.len();
    let a = text::skip_lead(cs.as_slice(), 0, '+');
    let b = text::skip_lead(cs.as_slice(), a, '-');
    assert(cs@.skip(0) =~= cs@);
    let ghost t = cs@.skip(b as int);
    let i = text::index_in(cs.as_slice(), b, ',');
    let parsed = if is_start {
        assert(cs@.subrange(b as int, (b + i) as int) =~= first_field(t));
        text::parse_u32_chars(cs.as_slice(), b, b + i)
    } else if b + i < cs.len() {
        let j = text::index_in(cs.as_slice(), b + i + 1, ',');
        assert(t.skip(i + 1) =~= cs@.skip(b + i + 1));
        assert(cs@.subrange((b + i + 1) as int, (b + i + 1 + j) as int) =~= second_field(t)->0);
        text::parse_u32_chars(cs.as_slice(), b + i + 1, b + i + 1 + j)
    } else {
        None
    };
    match parsed {
        Some(v) => v,
        None => 1,
    }
}

/// Parse unified diff content into hunks
pub fn parse_diff_hunks(diff_content: &str) -> (hs: Vec<DiffHunk>)
    ensures
        hunk_views(hs@) == parse_hunks(lines_of(diff_content@)),
{
    proof {
        reveal_strlit("@@");
    }
    let lines = text::split_lines(diff_content);
    let ghost ls = views(lines@);
    let mut hunks: Vec<DiffHunk> = Vec::new();
    let mut i: usize = 0;
    assert(ls.take(0) =~= Seq::<Seq<char>>::empty());
    assert(hunk_views(hunks@) =~= Seq::<HunkView>::empty());
    while i < lines.len()
        invariant
            i <= lines@.len(),
            ls == views(lines@),
            ls == lines_of(diff_content@),
            "@@"@ == hunk_marker(),
            hunk_views(hunks@) == parse_hunks(ls.take(i as int)),
        decreases lines@.len() - i,
    {
        let line = &lines[i];
        assert(ls.take(i + 1).drop_last() =~= ls.take(i as int));
        assert(ls.take(i + 1).last() == line@);
        let ghost before = hunk_views(hunks@);
        if text::str_starts_with(line.as_str(), "@@") {
            let cs = text::chars_of(line.as_str());
            let parts = text::split_words(cs.as_slice());
            if parts.len() >= 3 {
                let old_start = parse_range_number(parts[1].as_str(), true);
                let old_lines = parse_range_number(parts[1].as_str(), false);
                let new_start = parse_range_number(parts[2].as_str(), true);
                let new_lines = parse_range_number(parts[2].as_str(), false);
                let empty: Vec<String> = Vec::new();
                assert(views(empty@) =~= Seq::<Seq<char>>::empty());
                hunks.push(DiffHunk { old_start, old_lines, new_start, new_lines, lines: empty });
                assert(hunk_views(hunks@) =~= parse_step(before, line@));
            }
        } else {
            let cs = text::chars_of(line.as_str());
            if cs.len() > 0 && (cs[0] == '+' || cs[0] == '-' || cs[0] == ' ') && hunks.len() > 0 {
                let mut last = hunks.pop().unwrap();
                let ghost lv = last@;
                last.lines.push(line.clone());
                assert(views(last.lines@) =~= lv.lines.push(line@));
                hunks.push(last);
                assert(hunk_views(hunks@) =~= parse_step(before, line@));
            }
        }
        i += 1;
    }
    assert(ls.take(i as int) =~= ls);
    hunks
}

/// The lines that a hunk builds from the file lines, reading the file from
/// line `start`.
fn build_hunk_lines(hunk_lines: &Vec<String>, file_lines: &Vec<String>, start: usize) -> (r: Vec<String>)
    requires
        start + hunk_lines@.len() <= usize::MAX,
    ensures
        views(r@) == build_state(views(hunk_lines@), views(file_lines@), start as int).0,
{
    proof {
        reveal_strlit("---");
        reveal_strlit("+++");
    }
    let ghost hl = views(hunk_lines@);
    let ghost fl = views(file_lines@);
    let mut out: Vec<String> = Vec::new();
    let mut idx: usize = start;
    let mut k: usize = 0;
    assert(hl.take(0) =~= Seq::<Seq<char>>::empty());
    assert(views(out@) =~= Seq::<Seq<char>>::empty());
    while k < hunk_lines.len()
        invariant
            k <= hunk_lines@.len(),
            start + hunk_lines@.len() <= usize::MAX,
            hl == views(hunk_lines@),
            fl == views(file_lines@),
            "---"@ == seq!['-', '-', '-'],
            "+++"@ == seq!['+', '+', '+'],
            idx <= start + k,
            (views(out@), idx as int) == build_state(hl.take(k as int), fl, start as int),
        decreases hunk_lines@.len() - k,
    {
        let line = &hunk_lines[k];
        assert(hl.take(k + 1).drop_last() =~= hl.take(k as int));
        assert(hl.take(k + 1).last() == line@);
        let cs = text::chars_of(line.as_str());
        let ghost before = views(out@);
        if cs.len() > 0 && cs[0] == '-' && !text::str_starts_with(line.as_str(), "---") {
            idx = idx + 1;
        } else if cs.len() > 0 && cs[0] == '+' && !text::str_starts_with(line.as_str(), "+++") {
            let p = text::skip_lead(cs.as_slice(), 0, '+');
            assert(cs@.skip(0) =~= cs@);
            let content = text::string_from_range(cs.as_slice(), p, cs.len());
            assert(content@ =~= cs@.skip(p as int));
            out.push(content);
            assert(views(out@) =~= before.push(strip_lead(line@, '+')));
        } else if cs.len() > 0 && cs[0] == ' ' {
            if idx < file_lines.len() {
                out.push(file_lines[idx].clone());
                assert(views(out@) =~= before.push(fl[idx as int]));
            } else {
                let p = text::skip_lead(cs.as_slice(), 0, ' ');
                assert(cs@.skip(0) =~= cs@);
                let content = text::string_from_range(cs.as_slice(), p, cs.len());
                assert(content@ =~= cs@.skip(p as int));
                out.push(content);
                assert(views(out@) =~= before.push(strip_lead(line@, ' ')));
            }
            idx = idx + 1;
        }
        k += 1;
    }
    assert(hl.take(k as int) =~= hl);
    out
}

/// Apply hunks to file content
pub fn apply_hunks(content: &str, hunks: &[DiffHunk]) -> (r: Result<(String, Vec<ConflictInfo>), String>)
    requires
        hunks_fit(hunk_views(hunks@)),
    ensures
        r matches Ok((s, conflicts)) && s@ == patched(content@, hunk_views(hunks@)) && conflicts@.len() == 0,
{
    proof {
        reveal_strlit("\n");
    }
    let ghost hs = hunk_views(hunks@);
    let mut file_lines: Vec<String> = text::split_lines(content);
    let mut h: usize = hunks.len();
    assert(apply_from(lines_of(content@), hs, hs.len() as int) == apply_from(views(file_lines@), hs, h as int));
    while h > 0
        invariant
            h <= hunks@.len(),
            hs == hunk_views(hunks@),
            hunks_fit(hs),
            apply_from(lines_of(content@), hs, hs.len() as int) == apply_from(views(file_lines@), hs, h as int),
        decreases h,
    {
        h = h - 1;
        let hunk = &hunks[h];
        assert(hs[h as int] == hunk@);
        assert(hunk@.old_start + hunk@.old_lines + hunk@.lines.len() <= usize::MAX);
        let start: usize = if hunk.old_start >= 1 {
            (hunk.old_start - 1) as usize
        } else {
            0
        };
        let ghost fl = views(file_lines@);
        let new_lines = build_hunk_lines(&hunk.lines, &file_lines, start);
        let old_count = hunk.old_lines as usize;
        let n = file_lines.len();
        let end = if start + old_count < n {
            start + old_count
        } else {
            n
        };
        if start < n {
            let mut result: Vec<String> = Vec::new();
            let mut i: usize = 0;
            while i < start
                invariant
                    i <= start < n,
                    n == file_lines@.len(),
                    result@ == file_lines@.take(i as int),
                decreases start - i,
            {
                result.push(file_lines[i].clone());
                i += 1;
                assert(result@ =~= file_lines@.take(i as int));
            }
            let ghost pre = result@;
            let mut added = new_lines;
            let ghost nl = added@;
            result.append(&mut added);
            let mut j: usize = end;
            while j < n
                invariant
                    start <= end <= j <= n,
                    n == file_lines@.len(),
                    result@ == pre + nl + file_lines@.subrange(end as int, j as int),
                decreases n - j,
            {
                result.push(file_lines[j].clone());
                j += 1;
                assert(result@ =~= pre + nl + file_lines@.subrange(end as int, j as int));
            }
            assert(file_lines@.subrange(end as int, n as int) =~= file_lines@.skip(end as int));
            assert(views(result@) =~= fl.take(start as int) + views(nl) + fl.skip(end as int));
            file_lines = result;
        } else {
            let ghost nl = new_lines@;
            let mut added = new_lines;
            file_lines.append(&mut added);
            assert(views(file_lines@) =~= fl + views(nl));
        }
        assert(views(file_lines@) == apply_one(fl, hs[h as int]));
    }
    let result = text::join_strings(file_lines.as_slice(), "\n");
    assert("\n"@ =~= seq!['\n']);
    if text::str_ends_nl(content) && !text::str_ends_nl(result.as_str()) {
        let mut r = result;
        text::push_char(&mut r, '\n');
        Ok((r, Vec::new()))
    } else {
        Ok((result, Vec::new()))
    }
}

} // verus!

verus! {

/// The number of lines of `ls` that add a line.
pub open spec fn added_lines(ls: Seq<Seq<char>>) -> nat
    decreases ls.len(),
{
    if ls.len() == 0 {
        0
    } else {
        added_lines(ls.drop_last()) + if is_addition(ls.last()) {
            1nat
        } else {
            0nat
        }
    }
}

/// The number of lines of `ls` that remove a line.
pub open spec fn removed_lines(ls: Seq<Seq<char>>) -> nat
    decreases ls.len(),
{
    if ls.len() == 0 {
        0
    } else {
        removed_lines(ls.drop_last()) + if is_removal(ls.last()) {
            1nat
        } else {
            0nat
        }
    }
}

/// Lines added by all hunks.
pub open spec fn total_added(hs: Seq<HunkView>) -> nat
    decreases hs.len(),
{
    if hs.len() == 0 {
        0
    } else {
        total_added(hs.drop_last()) + added_lines(hs.last().lines)
    }
}

/// Lines removed by all hunks.
pub open spec fn total_removed(hs: Seq<HunkView>) -> nat
    decreases hs.len(),
{
    if hs.len() == 0 {
        0
    } else {
        total_removed(hs.drop_last()) + removed_lines(hs.last().lines)
    }
}

/// The patch can be applied and counted in machine integers: its line
/// numbers in `usize`, its added and removed line counts in `u32`.
pub open spec fn patch_fits_spec(patch: Seq<char>) -> bool {
    let hs = parse_hunks(lines_of(patch));
    &&& hunks_fit(hs)
    &&& total_added(hs) <= u32::MAX
    &&& total_removed(hs) <= u32::MAX
}

/// The message for a missing file that may not be created.
pub open spec fn missing_file_message(path: Seq<char>) -> Seq<char> {
    "File does not exist: "@ + path + ". Use create_if_missing=true to create it."@
}

/// Expand a leading `~` to `home` (`str::replacen` of the first `~`).
pub fn expand_path(path: &str, home: &str) -> (r: String)
    ensures
        r@ == (if path@.len() > 0 && path@[0] == '~' {
            home@ + path@.skip(1)
        } else {
            path@
        }),
{
    let cs = text::chars_of(path);
    if cs.len() > 0 && cs[0] == '~' {
        let mut r = text::owned(home);
        let rest = text::string_from_range(cs.as_slice(), 1, cs.len());
        text::push_str(&mut r, rest.as_str());
        assert(cs@.subrange(1, cs@.len() as int) =~= cs@.skip(1));
        r
    } else {
        text::owned(path)
    }
}

/// Check permission for patch operation: edits are asked for in the default
/// mode and allowed in the others.
pub fn check_patch_permission(mode: PermissionMode) -> (b: PermissionBehavior)
    ensures
        b == (if mode == PermissionMode::Default {
            PermissionBehavior::Ask
        } else {
            PermissionBehavior::Allow
        }),
{
    match mode {
        PermissionMode::Default => PermissionBehavior::Ask,
        PermissionMode::AcceptEdits => PermissionBehavior::Allow,
        PermissionMode::BypassPermissions => PermissionBehavior::Allow,
        PermissionMode::DontAsk => PermissionBehavior::Allow,
    }
}

/// Lines added and removed by the hunks.
fn count_changes(hunks: &Vec<DiffHunk>) -> (r: (u32, u32))
    requires
        total_added(hunk_views(hunks@)) <= u32::MAX,
        total_removed(hunk_views(hunks@)) <= u32::MAX,
    ensures
        r.0 == total_added(hunk_views(hunks@)),
        r.1 == total_removed(hunk_views(hunks@)),
{
    proof {
        reveal_strlit("---");
        reveal_strlit("+++");
    }
    let ghost hs = hunk_views(hunks@);
    let mut added: u32 = 0;
    let mut removed: u32 = 0;
    let mut h: usize = 0;
    assert(hs.take(0) =~= Seq::<HunkView>::empty());
    while h < hunks.len()
        invariant
            h <= hunks@.len(),
            hs == hunk_views(hunks@),
            total_added(hs) <= u32::MAX,
            total_removed(hs) <= u32::MAX,
            "---"@ == seq!['-', '-', '-'],
            "+++"@ == seq!['+', '+', '+'],
            added == total_added(hs.take(h as int)),
            removed == total_removed(hs.take(h as int)),
        decreases hunks@.len() - h,
    {
        let ghost base_added = total_added(hs.take(h as int));
        let ghost base_removed = total_removed(hs.take(h as int));
        assert(hs.take(h + 1).drop_last() =~= hs.take(h as int));
        assert(hs.take(h + 1).last() == hunks@[h as int]@);
        proof {
            lemma_totals_prefix(hs, h + 1);
        }
        let lines = &hunks[h].lines;
        let ghost ls = views(lines@);
        let mut k: usize = 0;
        assert(ls.take(0) =~= Seq::<Seq<char>>::empty());
        while k < lines.len()
            invariant
                k <= lines@.len(),
                ls == views(lines@),
                added == base_added + added_lines(ls.take(k as int)),
                removed == base_removed + removed_lines(ls.take(k as int)),
                base_added + added_lines(ls) <= u32::MAX,
                base_removed + removed_lines(ls) <= u32::MAX,
                "---"@ == seq!['-', '-', '-'],
                "+++"@ == seq!['+', '+', '+'],
            decreases lines@.len() - k,
        {
            assert(ls.take(k + 1).drop_last() =~= ls.take(k as int));
            assert(ls.take(k + 1).last() == lines@[k as int]@);
            proof {
                lemma_line_counts_prefix(ls, k + 1);
            }
            let line = &lines[k];
            let cs = text::chars_of(line.as_str());
            if cs.len() > 0 && cs[0] == '+' && !text::str_starts_with(line.as_str(), "+++") {
                added = added + 1;
            } else if cs.len() > 0 && cs[0] == '-' && !text::str_starts_with(line.as_str(), "---") {
                removed = removed + 1;
            }
            k += 1;
        }
        assert(ls.take(k as int) =~= ls);
        h += 1;
    }
    assert(hs.take(h as int) =~= hs);
    (added, removed)
}

proof fn lemma_line_counts_prefix(ls: Seq<Seq<char>>, k: int)
    requires
        0 <= k <= ls.len(),
    ensures
        added_lines(ls.take(k)) <= added_lines(ls),
        removed_lines(ls.take(k)) <= removed_lines(ls),
    decreases ls.len() - k,
{
    if k < ls.len() {
        lemma_line_counts_prefix(ls, k + 1);
        assert(ls.take(k + 1).drop_last() =~= ls.take(k));
    } else {
        assert(ls.take(k) =~= ls);
    }
}

proof fn lemma_totals_prefix(hs: Seq<HunkView>, k: int)
    requires
        0 <= k <= hs.len(),
    ensures
        total_added(hs.take(k)) <= total_added(hs),
        total_removed(hs.take(k)) <= total_removed(hs),
    decreases hs.len() - k,
{
    if k < hs.len() {
        lemma_totals_prefix(hs, k + 1);
        assert(hs.take(k + 1).drop_last() =~= hs.take(k));
    } else {
        assert(hs.take(k) =~= hs);
    }
}

/// Whether a patch can be applied and counted in machine integers; the
/// application checks this before `patch_file_content`.
pub fn patch_fits(patch_content: &str) -> (b: bool)
    ensures
        b == patch_fits_spec(patch_content@),
{
    let hunks = parse_diff_hunks(patch_content);
    let ghost hs = hunk_views(hunks@);
    let mut i: usize = 0;
    while i < hunks.len()
        invariant
            i <= hunks@.len(),
            hs == hunk_views(hunks@),
            hs == parse_hunks(lines_of(patch_content@)),
            forall|j: int| 0 <= j < i ==> #[trigger] hs[j].old_start + hs[j].old_lines + hs[j].lines.len() <= usize::MAX,
        decreases hunks@.len() - i,
    {
        let h = &hunks[i];
        assert(hs[i as int] == h@);
        let n = h.lines.len();
        let a = h.old_start as usize;
        let b = h.old_lines as usize;
        if a > usize::MAX - b || n > usize::MAX - a - b {
            assert(!(hs[i as int].old_start + hs[i as int].old_lines + hs[i as int].lines.len() <= usize::MAX));
            assert(!hunks_fit(hs));
            return false;
        }
        i += 1;
    }
    let ghost total_a = total_added(hs);
    let ghost total_r = total_removed(hs);
    let (ok_a, ok_r) = fits_counts(&hunks);
    ok_a && ok_r
}

/// Whether the added and removed line counts fit in `u32`.
fn fits_counts(hunks: &Vec<DiffHunk>) -> (r: (bool, bool))
    ensures
        r.0 == (total_added(hunk_views(hunks@)) <= u32::MAX),
        r.1 == (total_removed(hunk_views(hunks@)) <= u32::MAX),
{
    proof {
        reveal_strlit("---");
        reveal_strlit("+++");
    }
    let ghost hs = hunk_views(hunks@);
    let mut added: u64 = 0;
    let mut removed: u64 = 0;
    let mut h: usize = 0;
    assert(hs.take(0) =~= Seq::<HunkView>::empty());
    while h < hunks.len()
        invariant
            h <= hunks@.len(),
            hs == hunk_views(hunks@),
            "---"@ == seq!['-', '-', '-'],
            "+++"@ == seq!['+', '+', '+'],
            added <= u32::MAX + 1,
            removed <= u32::MAX + 1,
            added <= u32::MAX ==> added == total_added(hs.take(h as int)),
            added > u32::MAX ==> total_added(hs.take(h as int)) > u32::MAX,
            removed <= u32::MAX ==> removed == total_removed(hs.take(h as int)),
            removed > u32::MAX ==> total_removed(hs.take(h as int)) > u32::MAX,
        decreases hunks@.len() - h,
    {
        let ghost base_added = total_added(hs.take(h as int));
        let ghost base_removed = total_removed(hs.take(h as int));
        assert(hs.take(h + 1).drop_last() =~= hs.take(h as int));
        assert(hs.take(h + 1).last() == hunks@[h as int]@);
        let lines = &hunks[h].lines;
        let ghost ls = views(lines@);
        let mut k: usize = 0;
        assert(ls.take(0) =~= Seq::<Seq<char>>::empty());
        while k < lines.len()
            invariant
                k <= lines@.len(),
                ls == views(lines@),
                "---"@ == seq!['-', '-', '-'],
                "+++"@ == seq!['+', '+', '+'],
                added <= u32::MAX + 1,
                removed <= u32::MAX + 1,
                added <= u32::MAX ==> added == base_added + added_lines(ls.take(k as int)),
                added > u32::MAX ==> base_added + added_lines(ls.take(k as int)) > u32::MAX,
                removed <= u32::MAX ==> removed == base_removed + removed_lines(ls.take(k as int)),
                removed > u32::MAX ==> base_removed + removed_lines(ls.take(k as int)) > u32::MAX,
            decreases lines@.len() - k,
        {
            assert(ls.take(k + 1).drop_last() =~= ls.take(k as int));
            assert(ls.take(k + 1).last() == lines@[k as int]@);
            let line = &lines[k];
            let cs = text::chars_of(line.as_str());
            if cs.len() > 0 && cs[0] == '+' && !text::str_starts_with(line.as_str(), "+++") {
                if added <= u32::MAX as u64 {
                    added = added + 1;
                }
            } else if cs.len() > 0 && cs[0] == '-' && !text::str_starts_with(line.as_str(), "---") {
                if removed <= u32::MAX as u64 {
                    removed = removed + 1;
                }
            }
            k += 1;
        }
        assert(ls.take(k as int) =~= ls);
        h += 1;
    }
    assert(hs.take(h as int) =~= hs);
    (added <= u32::MAX as u64, removed <= u32::MAX as u64)
}

impl PatchTool {
    /// A patch tool.
    pub fn new() -> (t: Self) {
        Self
    }

    /// Tool name (used in API calls)
    pub fn name(&self) -> (n: &'static str)
        ensures
            n@ == "Patch"@,
    {
        "Patch"
    }

    /// Tool description (shown to the model)
    pub fn description(&self) -> (d: String)
        ensures
            d@ == "Apply a unified diff patch to a file. Supports standard diff format with @@ hunk headers."@,
    {
        text::owned("Apply a unified diff patch to a file. Supports standard diff format with @@ hunk headers.")
    }

    /// Patching modifies files.
    pub fn is_read_only(&self) -> (b: bool)
        ensures
            !b,
    {
        false
    }
}

/// The outcome of a patch on the file's content: the file must exist or be
/// allowed to be created, and the patch must hold at least one hunk; then
/// the hunks are applied and counted. `original` is the file's content, empty
/// when it does not exist.
pub fn patch_file_content(input: &PatchInput, file_exists: bool, original: &str, mode: PermissionMode) -> (r: Result<PatchOutput, String>)
    requires
        patch_fits_spec(input.patch_content@),
    ensures
        !file_exists && !input.create_if_missing ==> (r matches Err(e) && e@ == missing_file_message(input.file_path@)),
        (file_exists || input.create_if_missing) && parse_hunks(lines_of(input.patch_content@)).len() == 0 ==> (r matches Err(e)
            && e@ == "No valid diff hunks found in patch content"@),
        (file_exists || input.create_if_missing) && parse_hunks(lines_of(input.patch_content@)).len() > 0 ==> (r matches Ok(out) && {
            let hs = parse_hunks(lines_of(input.patch_content@));
            &&& out.hunks_applied == hs.len() as u32
            &&& out.hunks_failed == 0
            &&& out.lines_added == total_added(hs)
            &&& out.lines_removed == total_removed(hs)
            &&& out.result_content@ == patched(original@, hs)
            &&& out.conflicts@.len() == 0
            &&& out.operation_type@ == (if file_exists {
                "update"@
            } else {
                "create"@
            })
            &&& out.file_path@ == input.file_path@
        }),
{
    let permission = check_patch_permission(mode);
    if permission == PermissionBehavior::Deny {
        return Err(text::owned("Permission denied for patch operation"));
    }
    if !file_exists && !input.create_if_missing {
        return Err(
            text::concat3(
                "File does not exist: ",
                input.file_path.as_str(),
                ". Use create_if_missing=true to create it.",
            ),
        );
    }
    let hunks = parse_diff_hunks(input.patch_content.as_str());
    if hunks.len() == 0 {
        return Err(text::owned("No valid diff hunks found in patch content"));
    }
    let (result_content, conflicts) = match apply_hunks(original, hunks.as_slice()) {
        Ok(pair) => pair,
        Err(e) => {
            return Err(e);
        },
    };
    let hunks_applied = hunks.len() as u32;
    let (lines_added, lines_removed) = count_changes(&hunks);
    let operation_type = if file_exists {
        text::owned("update")
    } else {
        text::owned("create")
    };
    Ok(
        PatchOutput {
            hunks_applied,
            hunks_failed: 0,
            lines_added,
            lines_removed,
            result_content,
            conflicts,
            operation_type,
            file_path: input.file_path.clone(),
        },
    )
}


/// The number of lines of `hl` that read a line of the file: removed and
/// context lines.
pub open spec fn old_side_len(hl: Seq<Seq<char>>) -> nat
    decreases hl.len(),
{
    if hl.len() == 0 {
        0
    } else {
        old_side_len(hl.drop_last()) + if is_removal(hl.last()) || (!is_addition(hl.last()) && is_context(
            hl.last(),
        )) {
            1nat
        } else {
            0nat
        }
    }
}

/// Building a hunk's lines reads the file from `start` over its removed and
/// context lines only: the file line reached is `start` plus their number,
/// and a file that agrees up to there builds the same lines.
proof fn lemma_build_reads_prefix(hl: Seq<Seq<char>>, p: Seq<Seq<char>>, q: Seq<Seq<char>>, start: int)
    requires
        0 <= start,
        start + old_side_len(hl) <= p.len(),
    ensures
        build_state(hl, p, start).1 == start + old_side_len(hl),
        build_state(hl, p + q, start) == build_state(hl, p, start),
    decreases hl.len(),
{
    if hl.len() > 0 {
        lemma_build_reads_prefix(hl.drop_last(), p, q, start);
        let idx = build_state(hl.drop_last(), p, start).1;
        if is_context(hl.last()) && !is_removal(hl.last()) && !is_addition(hl.last()) {
            assert((p + q)[idx] == p[idx]);
        }
    }
}

/// A hunk whose old lines lie within the file replaces exactly them by the
/// lines it builds.
proof fn lemma_apply_one_within(fl: Seq<Seq<char>>, h: HunkView)
    requires
        hunk_start(h) + h.old_lines <= fl.len(),
    ensures
        apply_one(fl, h) == fl.take(hunk_start(h)) + build_state(h.lines, fl, hunk_start(h)).0 + fl.skip(
            hunk_start(h) + h.old_lines,
        ),
{
    let s = hunk_start(h);
    if s >= fl.len() {
        assert(fl.take(s) =~= fl);
        assert(fl.skip(s + h.old_lines) =~= Seq::<Seq<char>>::empty());
        assert(fl + build_state(h.lines, fl, s).0 =~= fl.take(s) + build_state(h.lines, fl, s).0 + fl.skip(
            s + h.old_lines,
        ));
    }
}

/// Applying hunks that lie within the first part `p` of a file leaves the
/// rest `q` as it is.
proof fn lemma_apply_keeps_rest(p: Seq<Seq<char>>, q: Seq<Seq<char>>, hs: Seq<HunkView>, k: int)
    requires
        0 <= k <= hs.len(),
        forall|j: int| 0 <= j < k ==> hunk_start(#[trigger] hs[j]) + hs[j].old_lines <= p.len(),
        forall|j: int| 0 <= j < k ==> old_side_len(#[trigger] hs[j].lines) <= hs[j].old_lines,
        forall|i: int, j: int|
            0 <= i < j < k ==> hunk_start(#[trigger] hs[i]) + hs[i].old_lines <= hunk_start(#[trigger] hs[j]),
    ensures
        apply_from(p + q, hs, k) == apply_from(p, hs, k) + q,
    decreases k,
{
    if k > 0 {
        let h = hs[k - 1];
        let s = hunk_start(h);
        lemma_build_reads_prefix(h.lines, p, q, s);
        lemma_apply_one_within(p, h);
        lemma_apply_one_within(p + q, h);
        let nl = build_state(h.lines, p, s).0;
        assert((p + q).take(s) =~= p.take(s));
        assert((p + q).skip(s + h.old_lines) =~= p.skip(s + h.old_lines) + q);
        let p2 = apply_one(p, h);
        assert(apply_one(p + q, h) =~= p2 + q);
        assert forall|j: int| 0 <= j < k - 1 implies hunk_start(#[trigger] hs[j]) + hs[j].old_lines <= p2.len() by {
            assert(hunk_start(hs[j]) + hs[j].old_lines <= hunk_start(hs[k - 1]));
        }
        lemma_apply_keeps_rest(p2, q, hs, k - 1);
    }
}

/// Each hunk's start line refers to the line numbering of the original file:
/// for hunks in increasing order whose old ranges do not overlap and lie in
/// the file (and whose bodies read no more lines than their headers count),
/// the patched lines are the patch of the part of the file before the last
/// hunk by the other hunks, then the lines the last hunk builds from the
/// original file, then the original file after the last hunk's old range,
/// however many lines the earlier hunks add or remove.
pub proof fn lemma_hunks_use_original_numbering(fl: Seq<Seq<char>>, hs: Seq<HunkView>)
    requires
        hs.len() > 0,
        forall|j: int| 0 <= j < hs.len() ==> hunk_start(#[trigger] hs[j]) + hs[j].old_lines <= fl.len(),
        forall|j: int| 0 <= j < hs.len() ==> old_side_len(#[trigger] hs[j].lines) <= hs[j].old_lines,
        forall|i: int, j: int|
            0 <= i < j < hs.len() ==> hunk_start(#[trigger] hs[i]) + hs[i].old_lines <= hunk_start(#[trigger] hs[j]),
    ensures
        apply_from(fl, hs, hs.len() as int) == apply_from(
            fl.take(hunk_start(hs.last())),
            hs,
            hs.len() - 1,
        ) + build_state(hs.last().lines, fl, hunk_start(hs.last())).0 + fl.skip(
            hunk_start(hs.last()) + hs.last().old_lines,
        ),
{
    let n = hs.len() as int;
    let h = hs[n - 1];
    let s = hunk_start(h);
    let p = fl.take(s);
    let q = build_state(h.lines, fl, s).0 + fl.skip(s + h.old_lines);
    lemma_apply_one_within(fl, h);
    assert(apply_one(fl, h) =~= p + q);
    assert forall|j: int| 0 <= j < n - 1 implies hunk_start(#[trigger] hs[j]) + hs[j].old_lines <= p.len() by {
        assert(hunk_start(hs[j]) + hs[j].old_lines <= hunk_start(hs[n - 1]));
    }
    lemma_apply_keeps_rest(p, q, hs, n - 1);
    assert(apply_from(p, hs, n - 1) + q =~= apply_from(p, hs, n - 1) + build_state(h.lines, fl, s).0 + fl.skip(
        s + h.old_lines,
    ));
}

/// Two hunks in increasing order, with non-overlapping old ranges in the
/// file, land on the lines their headers name: the file before the first,
/// the first's lines, the file between the two old ranges, the second's
/// lines, the rest of the file; each hunk's lines built from the original.
pub proof fn lemma_two_hunks(fl: Seq<Seq<char>>, h0: HunkView, h1: HunkView)
    requires
        hunk_start(h0) + h0.old_lines <= hunk_start(h1),
        hunk_start(h1) + h1.old_lines <= fl.len(),
        old_side_len(h0.lines) <= h0.old_lines,
        old_side_len(h1.lines) <= h1.old_lines,
    ensures
        apply_from(fl, seq![h0, h1], 2) == fl.take(hunk_start(h0)) + build_state(h0.lines, fl, hunk_start(h0)).0
            + fl.subrange(hunk_start(h0) + h0.old_lines, hunk_start(h1)) + build_state(
            h1.lines,
            fl,
            hunk_start(h1),
        ).0 + fl.skip(hunk_start(h1) + h1.old_lines),
{
    let hs = seq![h0, h1];
    let s0 = hunk_start(h0);
    let s1 = hunk_start(h1);
    let e0 = s0 + h0.old_lines;
    lemma_hunks_use_original_numbering(fl, hs);
    let p = fl.take(s1);
    lemma_apply_one_within(p, h0);
    lemma_build_reads_prefix(h0.lines, p, fl.skip(s1), s0);
    assert(p + fl.skip(s1) =~= fl);
    assert(p.take(s0) =~= fl.take(s0));
    assert(p.skip(e0) =~= fl.subrange(e0, s1));
    assert(hs[0] == h0 && hs.last() == h1);
    assert(apply_from(apply_one(p, h0), hs, 0) == apply_one(p, h0));
    assert(apply_from(p, hs, 1) == apply_one(p, h0));
}

} // verus!
