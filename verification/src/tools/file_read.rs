//! Reading files: which lines are shown for an offset and a limit, how they
//! are numbered and cut, and the message around them. Opening and reading
//! the file is left to the application.

use crate::paths;
use crate::text;
use crate::text::{byte_len, decimal, join, lines_of, views};
use vstd::prelude::*;

verus! {

/// FileReadTool input schema
#[derive(Debug, Clone)]
pub struct FileReadInput {
    /// The absolute path to the file to read
    pub file_path: String,
    /// The line number to start reading from (1-indexed, default 1)
    pub offset: u32,
    /// The number of lines to read (optional, reads entire file if not specified)
    pub limit: Option<u32>,
}

/// FileReadTool - Read file contents with optional offset and limit
pub struct FileReadTool;

/// The default first line.
pub fn default_offset() -> (o: u32)
    ensures
        o == 1,
{
    1
}

/// `s` right-aligned in `w` characters (`{:>w}`).
pub open spec fn right_align(s: Seq<char>, w: nat) -> Seq<char> {
    if s.len() < w {
        Seq::new((w - s.len()) as nat, |i: int| ' ') + s
    } else {
        s
    }
}

/// The lines `ls` numbered from `start`: each number right-aligned in six
/// columns, a tab, the line.
pub open spec fn numbered(ls: Seq<Seq<char>>, start: nat) -> Seq<Seq<char>> {
    Seq::new(ls.len(), |i: int| right_align(decimal((start + i) as nat), 6) + seq!['\t'] + ls[i])
}

/// The content with each line numbered from `start`.
pub open spec fn with_line_numbers(content: Seq<char>, start: nat) -> Seq<char> {
    join(numbered(lines_of(content), start), seq!['\n'])
}

/// `content` cut to `max` bytes, with a note of what was left out.
pub open spec fn truncated(content: Seq<char>, max: nat) -> Seq<char> {
    if byte_len(content) > max {
        content.take(text::char_idx(content, max as int)) + "... (truncated, "@ + decimal(
            (byte_len(content) - max) as nat,
        ) + " chars omitted)"@
    } else {
        content
    }
}

/// The lines read after the first `k` lines of the file: the lines shown so
/// far, the number of lines read, and whether the limit was reached.
pub open spec fn scan(lines: Seq<Seq<char>>, start: nat, limit: Option<u32>, k: nat) -> (Seq<Seq<char>>, nat, bool)
    decreases k,
{
    if k == 0 {
        (seq![], 0, false)
    } else {
        let prev = scan(lines, start, limit, (k - 1) as nat);
        if prev.2 || k > lines.len() {
            prev
        } else {
            let shown = if k >= start {
                prev.0.push(lines[k - 1])
            } else {
                prev.0
            };
            let stop = match limit {
                Some(l) => shown.len() >= l,
                None => false,
            };
            (shown, k, stop)
        }
    }
}

/// The message for the lines `shown` after reading `total` lines from line
/// `start` on: `None` where the tool's `u32` line counting overflows or the
/// output cut would split a character (where the tool panics).
pub open spec fn outcome_from(path: Seq<char>, shown: Seq<Seq<char>>, total: nat, start: u32) -> Option<Seq<char>> {
    if total >= u32::MAX {
        None
    } else if shown.len() == 0 {
        Some(
            "File "@ + path + " has "@ + decimal(total) + " lines. Offset "@ + decimal(start as nat)
                + " is beyond file length."@,
        )
    } else {
        let joined = join(shown, seq!['\n']);
        let count = lines_of(joined).len();
        let content = with_line_numbers(joined, start as nat);
        if start + shown.len() > u32::MAX || start + count > u32::MAX + 1 || (byte_len(content) > 10000
            && !text::is_boundary(content, 10000)) {
            None
        } else {
            Some(
                "File: "@ + path + " ("@ + decimal(total) + " lines total, showing lines "@ + decimal(start as nat)
                    + "-"@ + decimal((start + shown.len() - 1) as nat) + ")\n\n"@ + truncated(content, 10000),
            )
        }
    }
}

/// The outcome of reading a file of lines `lines` from line `start` on, at
/// most `limit` lines.
pub open spec fn read_outcome(path: Seq<char>, lines: Seq<Seq<char>>, start: u32, limit: Option<u32>) -> Option<Seq<char>> {
    let s = scan(lines, start as nat, limit, lines.len());
    outcome_from(path, s.0, s.1, start)
}

/// Once the limit is reached, reading further lines changes nothing.
proof fn lemma_scan_stays(lines: Seq<Seq<char>>, start: nat, limit: Option<u32>, k: nat, n: nat)
    requires
        k <= n,
        scan(lines, start, limit, k).2,
    ensures
        scan(lines, start, limit, n) == scan(lines, start, limit, k),
    decreases n - k,
{
    if k < n {
        lemma_scan_stays(lines, start, limit, k, (n - 1) as nat);
    }
}

/// `s` right-aligned in six columns.
fn push_right_aligned(out: &mut String, n: u64)
    ensures
        final(out)@ == old(out)@ + right_align(decimal(n as nat), 6),
{
    let digits = text::decimal_string(n);
    let len = text::chars_of(digits.as_str()).len();
    if len < 6 {
        let mut k: usize = 0;
        let ghost base = out@;
        while k < 6 - len
            invariant
                len < 6,
                k <= 6 - len,
                out@ == base + Seq::new(k as nat, |i: int| ' '),
            decreases 6 - len - k,
        {
            text::push_char(out, ' ');
            k += 1;
            assert(out@ =~= base + Seq::new(k as nat, |i: int| ' '));
        }
    }
    text::push_str(out, digits.as_str());
    assert(out@ =~= old(out)@ + right_align(decimal(n as nat), 6));
}

impl FileReadTool {
    /// Create a new FileReadTool instance
    pub fn new() -> (t: Self) {
        Self
    }

    /// Tool name (used in API calls)
    pub fn name(&self) -> (n: &'static str)
        ensures
            n@ == "Read"@,
    {
        "Read"
    }

    /// Tool description (shown to the model)
    pub fn description(&self) -> (d: String)
        ensures
            d@ == "Read file contents. Use for viewing source code, config files, logs, etc. Supports offset and limit for large files."@,
    {
        text::owned(
            "Read file contents. Use for viewing source code, config files, logs, etc. Supports offset and limit for large files.",
        )
    }

    /// Reading changes nothing.
    pub fn is_read_only(&self) -> (b: bool)
        ensures
            b,
    {
        true
    }

    /// Format file content with line numbers
    pub fn format_with_line_numbers(content: &str, start_line: u32) -> (r: String)
        requires
            start_line + lines_of(content@).len() <= u32::MAX + 1,
        ensures
            r@ == with_line_numbers(content@, start_line as nat),
    {
        proof {
            reveal_strlit("\n");
            reveal_strlit("\t");
        }
        let lines = text::split_lines(content);
        let ghost ls = views(lines@);
        let ghost target = numbered(ls, start_line as nat);
        let mut out: Vec<String> = Vec::new();
        let mut i: usize = 0;
        while i < lines.len()
            invariant
                i <= lines@.len(),
                ls == views(lines@),
                ls == lines_of(content@),
                target == numbered(ls, start_line as nat),
                start_line + lines@.len() <= u32::MAX + 1,
                views(out@) == target.take(i as int),
                "\t"@ == seq!['\t'],
            decreases lines@.len() - i,
        {
            let mut line = String::new();
            push_right_aligned(&mut line, (start_line as u64) + (i as u64));
            text::push_str(&mut line, "\t");
            text::push_str(&mut line, lines[i].as_str());
            let ghost before = views(out@);
            assert(((start_line as u64) + (i as u64)) as nat == (start_line + i) as nat);
            assert(line@ =~= target[i as int]);
            out.push(line);
            assert(views(out@) =~= before.push(target[i as int]));
            assert(target.take(i + 1) =~= target.take(i as int).push(target[i as int]));
            i += 1;
        }
        assert(target.take(i as int) =~= target);
        let r = text::join_strings(out.as_slice(), "\n");
        assert("\n"@ =~= seq!['\n']);
        r
    }

    /// Truncate content if too large
    pub fn truncate(content: &str, max_chars: usize) -> (r: String)
        requires
            byte_len(content@) > max_chars ==> text::is_boundary(content@, max_chars as int),
        ensures
            r@ == truncated(content@, max_chars as nat),
    {
        let n = text::str_len(content);
        if n > max_chars {
            let cs = text::chars_of(content);
            let k = match text::char_index_at_byte(cs.as_slice(), max_chars) {
                Some(k) => k,
                None => {
                    assert(false);
                    0
                },
            };
            proof {
                text::lemma_char_idx(cs@, k as int);
            }
            let mut r = text::string_from_range(cs.as_slice(), 0, k);
            assert(r@ =~= cs@.take(k as int));
            text::push_str(&mut r, "... (truncated, ");
            text::push_decimal(&mut r, (n - max_chars) as u64);
            text::push_str(&mut r, " chars omitted)");
            r
        } else {
            text::owned(content)
        }
    }

    /// Resolve path relative to cwd
    pub fn resolve_path(file_path: &str, cwd: &str) -> (r: String)
        ensures
            r@ == paths::resolved(file_path@, cwd@),
    {
        paths::resolve_path(file_path, cwd)
    }

    /// The error for a path that does not exist.
    pub fn missing_error(file_path: &str) -> (m: String)
        ensures
            m@ == "File does not exist: "@ + file_path@,
    {
        let mut m = text::owned("File does not exist: ");
        text::push_str(&mut m, file_path);
        m
    }

    /// The error for a path that is not a file.
    pub fn not_a_file_error(file_path: &str) -> (m: String)
        ensures
            m@ == "Path is not a file: "@ + file_path@,
    {
        let mut m = text::owned("Path is not a file: ");
        text::push_str(&mut m, file_path);
        m
    }

    /// The result of reading a file whose lines are `file_lines`: the lines
    /// from the offset on, at most the limit, numbered and cut to 10000
    /// bytes, under a header; or the note that the offset lies past the end.
    /// `None` where the tool's `u32` line counting overflows or the cut
    /// would split a character.
    pub fn read_result(input: &FileReadInput, file_lines: &[String]) -> (r: Option<String>)
        ensures
            match read_outcome(input.file_path@, views(file_lines@), input.offset, input.limit) {
                Some(m) => r matches Some(s) && s@ == m,
                None => r is None,
            },
    {
        let ghost ls = views(file_lines@);
        let start_line = input.offset;
        let mut shown: Vec<String> = Vec::new();
        let mut consumed: usize = 0;
        let mut i: usize = 0;
        assert(views(shown@) =~= Seq::<Seq<char>>::empty());
        while i < file_lines.len()
            invariant
                i <= file_lines@.len(),
                ls == views(file_lines@),
                start_line == input.offset,
                (views(shown@), consumed as nat, false) == scan(ls, start_line as nat, input.limit, i as nat),
            decreases file_lines@.len() - i,
        {
            let ghost before = views(shown@);
            if i + 1 >= start_line as usize {
                shown.push(file_lines[i].clone());
                assert(views(shown@) =~= before.push(ls[i as int]));
            }
            consumed = i + 1;
            i += 1;
            match input.limit {
                Some(l) => {
                    if shown.len() >= l as usize {
                        assert(scan(ls, start_line as nat, input.limit, i as nat) == (views(shown@), consumed as nat, true));
                        proof {
                            lemma_scan_stays(ls, start_line as nat, input.limit, i as nat, ls.len());
                            let sc = scan(ls, start_line as nat, input.limit, ls.len());
                            assert(sc.0 == views(shown@) && sc.1 == consumed as nat);
                            assert(read_outcome(input.file_path@, ls, input.offset, input.limit) == outcome_from(
                                input.file_path@,
                                views(shown@),
                                consumed as nat,
                                input.offset,
                            ));
                        }
                        return Self::finish(input, &shown, consumed);
                    }
                },
                None => {},
            }
        }
        Self::finish(input, &shown, consumed)
    }

    /// The message for the lines shown after reading `total` lines.
    fn finish(input: &FileReadInput, shown: &Vec<String>, total: usize) -> (r: Option<String>)
        ensures
            match outcome_from(input.file_path@, views(shown@), total as nat, input.offset) {
                Some(m) => r matches Some(s) && s@ == m,
                None => r is None,
            },
    {
        proof {
            reveal_strlit("\n");
        }
        let start_line = input.offset;
        if total >= u32::MAX as usize {
            return None;
        }
        if shown.len() == 0 {
            let mut m = text::owned("File ");
            text::push_str(&mut m, input.file_path.as_str());
            text::push_str(&mut m, " has ");
            text::push_decimal(&mut m, total as u64);
            text::push_str(&mut m, " lines. Offset ");
            text::push_decimal(&mut m, start_line as u64);
            text::push_str(&mut m, " is beyond file length.");
            return Some(m);
        }
        let joined = text::join_strings(shown.as_slice(), "\n");
        assert("\n"@ =~= seq!['\n']);
        let count = text::split_lines(joined.as_str()).len();
        if start_line as u128 + shown.len() as u128 > u32::MAX as u128 || start_line as u128 + count as u128 > u32::MAX as u128
            + 1 {
            return None;
        }
        let content = Self::format_with_line_numbers(joined.as_str(), start_line);
        let n = text::str_len(content.as_str());
        if n > 10000 {
            let cs = text::chars_of(content.as_str());
            if text::char_index_at_byte(cs.as_slice(), 10000).is_none() {
                return None;
            }
        }
        let cut = Self::truncate(content.as_str(), 10000);
        let mut m = text::owned("File: ");
        text::push_str(&mut m, input.file_path.as_str());
        text::push_str(&mut m, " (");
        text::push_decimal(&mut m, total as u64);
        text::push_str(&mut m, " lines total, showing lines ");
        text::push_decimal(&mut m, start_line as u64);
        text::push_str(&mut m, "-");
        text::push_decimal(&mut m, (start_line as u64 + shown.len() as u64 - 1) as u64);
        text::push_str(&mut m, ")\n\n");
        text::push_str(&mut m, cut.as_str());
        Some(m)
    }

    /// Summary of a read for display.
    pub fn summarize(input: &FileReadInput) -> (s: String)
        ensures
            s@ == "Reading: "@ + input.file_path@,
    {
        let mut s = text::owned("Reading: ");
        text::push_str(&mut s, input.file_path.as_str());
        s
    }
}


/// The lines read up to line `k` (see `lemma_shown_lines`): with `f` the
/// index of the line numbered `start` and `e` where the limit cuts, the lines
/// from `f` up to `k` (or `e`), and `k` (or `e`) lines read.
proof fn lemma_scan_prefix(lines: Seq<Seq<char>>, start: nat, limit: Option<u32>, k: nat)
    requires
        k <= lines.len(),
        limit matches Some(l) ==> l > 0,
    ensures
        ({
            let f: int = if start >= 1 { start - 1 } else { 0 };
            let e: int = match limit {
                Some(l) => if k < f + l { k as int } else { f + l },
                None => k as int,
            };
            let sc = scan(lines, start, limit, k);
            &&& sc.0 == lines.subrange(if f < e { f } else { e }, e)
            &&& sc.1 == e
            &&& sc.2 == (limit matches Some(l) && k >= f + l)
        }),
    decreases k,
{
    if k > 0 {
        lemma_scan_prefix(lines, start, limit, (k - 1) as nat);
        let f: int = if start >= 1 { start - 1 } else { 0 };
        let pe: int = match limit {
            Some(l) => if k - 1 < f + l { k - 1 } else { f + l },
            None => k - 1,
        };
        let prev = scan(lines, start, limit, (k - 1) as nat);
        if !prev.2 {
            if k >= start {
                assert(prev.0.push(lines[k - 1]) =~= lines.subrange(f, k as int));
            } else {
                assert(lines.subrange(k as int, k as int) =~= Seq::<Seq<char>>::empty());
                assert(lines.subrange(pe, pe) =~= Seq::<Seq<char>>::empty());
            }
        }
    }
}

/// The lines a read shows are the file's lines from the one numbered
/// `start` (the first when `start` is 0) on, at most `limit` of them: the
/// line shown at position `i` is file line `start + i`, and the lines read
/// end where the limit cut them or at the end of the file. Given a positive
/// limit, if any.
pub proof fn lemma_shown_lines(path: Seq<char>, lines: Seq<Seq<char>>, start: u32, limit: Option<u32>)
    requires
        limit matches Some(l) ==> l > 0,
    ensures
        ({
            let f: int = if start >= 1 { start - 1 } else { 0 };
            let e: int = match limit {
                Some(l) => if lines.len() < f + l { lines.len() as int } else { f + l },
                None => lines.len() as int,
            };
            let shown = lines.subrange(if f < e { f } else { e }, e);
            &&& scan(lines, start as nat, limit, lines.len()).0 == shown
            &&& (start >= 1 && start <= lines.len() ==> shown.len() > 0 && shown[0] == lines[start - 1])
            &&& forall|i: int| 0 <= i < shown.len() ==> #[trigger] shown[i] == lines[f + i]
            &&& read_outcome(path, lines, start, limit) == outcome_from(path, shown, e as nat, start)
        }),
{
    lemma_scan_prefix(lines, start as nat, limit, lines.len());
}

} // verus!
