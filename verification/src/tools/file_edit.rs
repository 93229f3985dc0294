//! Editing files by exact string replacement: validation of the request,
//! locating the occurrences, replacing one or all of them, and the messages.
//! Reading and writing the file is left to the application.

use crate::paths;
use crate::permissions::{PermissionBehavior, PermissionResult};
use crate::text;
use crate::text::{byte_len, decimal, first_occurrence, join, lines_of, views};
use vstd::prelude::*;

verus! {

/// FileEditTool input schema
#[derive(Debug, Clone)]
pub struct FileEditInput {
    /// The absolute path to the file to edit
    pub file_path: String,
    /// The text to search for - must match exactly
    pub old_string: String,
    /// The text to replace with
    pub new_string: String,
    /// Replace all occurrences (default: false, replaces first occurrence only)
    pub replace_all: bool,
}

/// FileEditTool - Perform precise string replacements in files
pub struct FileEditTool;

/// The character indices of the non-overlapping occurrences of `w` in `s`
/// from index `from` on, found left to right.
pub open spec fn occurrences_from(s: Seq<char>, w: Seq<char>, from: int) -> Seq<int>
    decreases s.len() - from,
{
    if w.len() == 0 || from < 0 || from > s.len() {
        seq![]
    } else {
        match first_occurrence(s.skip(from), w) {
            Some(i) => if 0 <= i && from + i + w.len() <= s.len() {
                seq![from + i] + occurrences_from(s, w, from + i + w.len())
            } else {
                seq![]
            },
            None => seq![],
        }
    }
}

/// `s` from index `from` on with every occurrence of `w` (found as above)
/// replaced by `r` (`str::replace`).
pub open spec fn replaced_from(s: Seq<char>, w: Seq<char>, r: Seq<char>, from: int) -> Seq<char>
    decreases s.len() - from,
{
    if w.len() == 0 || from < 0 || from > s.len() {
        s.skip(from)
    } else {
        match first_occurrence(s.skip(from), w) {
            Some(i) => if 0 <= i && from + i + w.len() <= s.len() {
                s.subrange(from, from + i) + r + replaced_from(s, w, r, from + i + w.len())
            } else {
                s.skip(from)
            },
            None => s.skip(from),
        }
    }
}

/// The byte offsets of character indices of `s`.
pub open spec fn byte_positions(s: Seq<char>, idx: Seq<int>) -> Seq<nat> {
    idx.map_values(|p: int| byte_len(s.take(p)))
}

/// The first line of `s`, or nothing.
pub open spec fn first_line(s: Seq<char>) -> Seq<char> {
    if lines_of(s).len() > 0 {
        lines_of(s)[0]
    } else {
        seq![]
    }
}

/// The outcome of an edit of `content`: the new content and the message, or
/// the error.
pub open spec fn edit_outcome(input_path: Seq<char>, old: Seq<char>, new: Seq<char>, all: bool, content: Seq<char>) -> Result<(Seq<char>, Seq<char>), Seq<char>> {
    let occ = occurrences_from(content, old, 0);
    if occ.len() == 0 {
        Err(
            "Could not find old_string in file. Make sure it matches exactly, including whitespace and line breaks.\nFile: "@
                + input_path,
        )
    } else if !all && occ.len() > 1 {
        Err(
            "Found "@ + decimal(occ.len()) + " occurrences of old_string. Use replace_all=true to replace all, or provide a more specific old_string to replace exactly one occurrence.\nOccurrences at positions: "@
                + join(byte_positions(content, occ).map_values(|p: nat| decimal(p)), ", "@),
        )
    } else {
        let new_content = if all {
            replaced_from(content, old, new, 0)
        } else {
            content.take(occ[0]) + new + content.skip(occ[0] + old.len())
        };
        let count: nat = if all {
            occ.len()
        } else {
            1
        };
        Ok(
            (
                new_content,
                "Successfully edited "@ + input_path + " ("@ + decimal(count) + " replacement(s))\nold_string → new_string:\n  "@
                    + first_line(old) + "\n  "@ + first_line(new),
            ),
        )
    }
}

/// What a successful search left: the occurrence found lies within the
/// text and past `from`.
proof fn lemma_found(s: Seq<char>, w: Seq<char>, from: int, i: int)
    requires
        0 <= from <= s.len(),
        first_occurrence(s.skip(from), w) == Some(i),
    ensures
        0 <= i,
        from + i + w.len() <= s.len(),
        s.subrange(from + i, from + i + w.len()) == w,
{
    text::lemma_first_from(0, s.skip(from).len() - w.len() + 1, text::occurs_at(s.skip(from), w));
    assert(s.skip(from).subrange(i, i + w.len()) =~= s.subrange(from + i, from + i + w.len()));
}

impl FileEditTool {
    /// Create a new FileEditTool instance
    pub fn new() -> (t: Self) {
        Self
    }

    /// Tool name (used in API calls)
    pub fn name(&self) -> (n: &'static str)
        ensures
            n@ == "Edit"@,
    {
        "Edit"
    }

    /// Tool description (shown to the model)
    pub fn description(&self) -> (d: String)
        ensures
            d@ == "Perform precise string replacements in files. Use for editing code, configs, etc. Must match old_string exactly."@,
    {
        text::owned(
            "Perform precise string replacements in files. Use for editing code, configs, etc. Must match old_string exactly.",
        )
    }

    /// Editing is never read-only.
    pub fn is_read_only(&self) -> (b: bool)
        ensures
            !b,
    {
        false
    }

    /// Resolve path relative to cwd
    pub fn resolve_path(file_path: &str, cwd: &str) -> (r: String)
        ensures
            r@ == paths::resolved(file_path@, cwd@),
    {
        paths::resolve_path(file_path, cwd)
    }

    /// The error in the request itself, if any: an empty search text, or a
    /// replacement equal to it.
    pub fn validate(input: &FileEditInput) -> (r: Option<String>)
        ensures
            input.old_string@.len() == 0 ==> (r matches Some(e) && e@ == "old_string cannot be empty"@),
            input.old_string@.len() > 0 && input.old_string@ == input.new_string@ ==> (r matches Some(e) && e@
                == "old_string and new_string are identical, no changes needed"@),
            input.old_string@.len() > 0 && input.old_string@ != input.new_string@ ==> r is None,
    {
        if input.old_string.as_str().is_empty() {
            return Some(text::owned("old_string cannot be empty"));
        }
        if text::str_eq(input.old_string.as_str(), input.new_string.as_str()) {
            return Some(text::owned("old_string and new_string are identical, no changes needed"));
        }
        None
    }

    /// Find occurrences of old_string in content: the byte offsets of its
    /// non-overlapping occurrences, left to right.
    pub fn find_occurrences(content: &str, old_string: &str) -> (r: Vec<usize>)
        requires
            old_string@.len() > 0,
        ensures
            r@.map_values(|p: usize| p as nat) == byte_positions(content@, occurrences_from(content@, old_string@, 0)),
    {
        let (positions, _replaced) = Self::scan(content, old_string, "");
        positions
    }

    /// The occurrences of `old` in `content` (byte offsets) and `content`
    /// with all of them replaced by `new`.
    fn scan(content: &str, old: &str, new: &str) -> (r: (Vec<usize>, String))
        requires
            old@.len() > 0,
        ensures
            r.0@.map_values(|p: usize| p as nat) == byte_positions(content@, occurrences_from(content@, old@, 0)),
            r.1@ == replaced_from(content@, old@, new@, 0),
    {
        let cs = text::chars_of(content);
        let ws = text::chars_of(old);
        let total = text::str_len(content);
        let _n = cs.len();
        let mut positions: Vec<usize> = Vec::new();
        let mut out = String::new();
        let mut pos: usize = 0;
        let ghost s = cs@;
        let ghost w = ws@;
        assert(positions@.map_values(|p: usize| p as nat) =~= Seq::<nat>::empty());
        assert(out@ =~= Seq::<char>::empty());
        loop
            invariant
                s == cs@,
                s == content@,
                w == ws@,
                w == old@,
                w.len() > 0,
                pos <= s.len(),
                s.len() <= usize::MAX,
                total == byte_len(s),
                total <= isize::MAX,
                positions@.map_values(|p: usize| p as nat) + byte_positions(s, occurrences_from(s, w, pos as int))
                    == byte_positions(s, occurrences_from(s, w, 0)),
                out@ + replaced_from(s, w, new@, pos as int) == replaced_from(s, w, new@, 0),
            decreases s.len() - pos,
        {
            match text::find_chars_from(cs.as_slice(), ws.as_slice(), pos) {
                Some(i) => {
                    proof {
                        lemma_found(s, w, pos as int, i as int);
                        text::lemma_byte_len_take_mono(s, (pos + i) as int, s.len() as int);
                        text::lemma_byte_len_take_all(s);
                    }
                    let ghost before_pos = positions@.map_values(|p: usize| p as nat);
                    let ghost next = (pos + i + ws@.len()) as int;
                    let b = text::byte_offset_of(cs.as_slice(), pos + i);
                    positions.push(b);
                    assert(positions@.map_values(|p: usize| p as nat) =~= before_pos.push(byte_len(s.take(pos + i))));
                    assert(occurrences_from(s, w, pos as int) == seq![pos + i] + occurrences_from(s, w, next));
                    assert(byte_positions(s, seq![(pos + i) as int] + occurrences_from(s, w, next)) =~= seq![
                        byte_len(s.take(pos + i)),
                    ] + byte_positions(s, occurrences_from(s, w, next)));
                    assert(before_pos.push(byte_len(s.take(pos + i))) + byte_positions(s, occurrences_from(s, w, next))
                        =~= before_pos + (seq![byte_len(s.take(pos + i))] + byte_positions(s, occurrences_from(s, w, next))));
                    let piece = text::string_from_range(cs.as_slice(), pos, pos + i);
                    let ghost before_out = out@;
                    text::push_str(&mut out, piece.as_str());
                    text::push_str(&mut out, new);
                    assert(replaced_from(s, w, new@, pos as int) == s.subrange(pos as int, pos + i) + new@ + replaced_from(
                        s,
                        w,
                        new@,
                        next,
                    ));
                    assert(out@ + replaced_from(s, w, new@, next) =~= before_out + replaced_from(s, w, new@, pos as int));
                    pos = pos + i + ws.len();
                },
                None => {
                    assert(occurrences_from(s, w, pos as int) =~= Seq::<int>::empty());
                    assert(byte_positions(s, Seq::<int>::empty()) =~= Seq::<nat>::empty());
                    assert(positions@.map_values(|p: usize| p as nat) + Seq::<nat>::empty() =~= positions@.map_values(
                        |p: usize| p as nat,
                    ));
                    let rest = text::string_from_range(cs.as_slice(), pos, cs.len());
                    assert(rest@ =~= s.skip(pos as int));
                    text::push_str(&mut out, rest.as_str());
                    return (positions, out);
                },
            }
        }
    }

    /// The error for a path that does not exist.
    pub fn missing_error(file_path: &str) -> (m: String)
        ensures
            m@ == "File does not exist: "@ + file_path@,
    {
        let mut m = text::owned("File does not exist: ");
        text::push_str(&mut m, file_path);
        m
    }

    /// The error for a path that is not a file.
    pub fn not_a_file_error(file_path: &str) -> (m: String)
        ensures
            m@ == "Path is not a file: "@ + file_path@,
    {
        let mut m = text::owned("Path is not a file: ");
        text::push_str(&mut m, file_path);
        m
    }

    /// The confirmation asked before an edit: the file, and the first lines
    /// of the text replaced and of its replacement.
    pub fn permission_request(input: &FileEditInput) -> (r: PermissionResult)
        ensures
            r.behavior == PermissionBehavior::Ask,
            r.message@ == "Edit file '"@ + input.file_path@ + "': replace '"@ + first_line(input.old_string@)
                + "' with '"@ + first_line(input.new_string@) + "'?"@,
    {
        let mut m = text::owned("Edit file '");
        text::push_str(&mut m, input.file_path.as_str());
        text::push_str(&mut m, "': replace '");
        let old_first = Self::first_line_of(input.old_string.as_str());
        text::push_str(&mut m, old_first.as_str());
        text::push_str(&mut m, "' with '");
        let new_first = Self::first_line_of(input.new_string.as_str());
        text::push_str(&mut m, new_first.as_str());
        text::push_str(&mut m, "'?");
        PermissionResult::ask(m.as_str())
    }

    /// The first line of `s`, or nothing.
    fn first_line_of(s: &str) -> (r: String)
        ensures
            r@ == first_line(s@),
    {
        let lines = text::split_lines(s);
        if lines.len() > 0 {
            lines[0].clone()
        } else {
            String::new()
        }
    }

    /// The edit of a file's content: the new content and the success
    /// message, or the error when the search text is missing or, for a
    /// single replacement, not unique.
    pub fn edit_content(input: &FileEditInput, content: &str) -> (r: Result<(String, String), String>)
        requires
            input.old_string@.len() > 0,
        ensures
            match edit_outcome(input.file_path@, input.old_string@, input.new_string@, input.replace_all, content@) {
                Ok((c, m)) => r matches Ok((rc, rm)) && rc@ == c && rm@ == m,
                Err(e) => r matches Err(re) && re@ == e,
            },
    {
        let (positions, all_replaced) = Self::scan(content, input.old_string.as_str(), input.new_string.as_str());
        let ghost occ = occurrences_from(content@, input.old_string@, 0);
        assert(positions@.map_values(|p: usize| p as nat).len() == positions@.len());
        assert(byte_positions(content@, occ).len() == occ.len());
        assert(positions@.len() == occ.len());
        if positions.len() == 0 {
            let mut e = text::owned(
                "Could not find old_string in file. Make sure it matches exactly, including whitespace and line breaks.\nFile: ",
            );
            text::push_str(&mut e, input.file_path.as_str());
            return Err(e);
        }
        if !input.replace_all && positions.len() > 1 {
            let mut parts: Vec<String> = Vec::new();
            let mut k: usize = 0;
            let ghost target = byte_positions(content@, occ).map_values(|p: nat| decimal(p));
            while k < positions.len()
                invariant
                    k <= positions@.len(),
                    positions@.len() == occ.len(),
                    positions@.map_values(|p: usize| p as nat) == byte_positions(content@, occ),
                    target == byte_positions(content@, occ).map_values(|p: nat| decimal(p)),
                    views(parts@) == target.take(k as int),
                decreases positions@.len() - k,
            {
                let d = text::decimal_string(positions[k] as u64);
                let ghost before = views(parts@);
                assert(positions@.map_values(|p: usize| p as nat)[k as int] == positions@[k as int] as nat);
                assert(d@ == target[k as int]);
                parts.push(d);
                assert(views(parts@) =~= before.push(target[k as int]));
                assert(target.take(k + 1) =~= target.take(k as int).push(target[k as int]));
                k += 1;
            }
            assert(target.take(k as int) =~= target);
            let joined = text::join_strings(parts.as_slice(), ", ");
            let mut e = text::owned("Found ");
            text::push_decimal(&mut e, positions.len() as u64);
            text::push_str(
                &mut e,
                " occurrences of old_string. Use replace_all=true to replace all, or provide a more specific old_string to replace exactly one occurrence.\nOccurrences at positions: ",
            );
            text::push_str(&mut e, joined.as_str());
            return Err(e);
        }
        let new_content = if input.replace_all {
            all_replaced
        } else {
            let cs = text::chars_of(content);
            let _n = cs.len();
            let ws_len = text::chars_of(input.old_string.as_str()).len();
            assert(occurrences_from(content@, input.old_string@, 0).len() > 0);
            proof {
                let i = first_occurrence(content@.skip(0), input.old_string@)->0;
                assert(content@.skip(0) =~= content@);
                lemma_found(content@, input.old_string@, 0, i);
            }
            let p = Self::first_occurrence_index(cs.as_slice(), input.old_string.as_str());
            let mut r = text::string_from_range(cs.as_slice(), 0, p);
            text::push_str(&mut r, input.new_string.as_str());
            let tail = text::string_from_range(cs.as_slice(), p + ws_len, cs.len());
            text::push_str(&mut r, tail.as_str());
            assert(r@ =~= content@.take(occ[0]) + input.new_string@ + content@.skip(occ[0] + input.old_string@.len()));
            r
        };
        let count: u64 = if input.replace_all {
            positions.len() as u64
        } else {
            1
        };
        let mut m = text::owned("Successfully edited ");
        text::push_str(&mut m, input.file_path.as_str());
        text::push_str(&mut m, " (");
        text::push_decimal(&mut m, count);
        text::push_str(&mut m, " replacement(s))\nold_string → new_string:\n  ");
        let old_first = Self::first_line_of(input.old_string.as_str());
        let new_first = Self::first_line_of(input.new_string.as_str());
        text::push_str(&mut m, old_first.as_str());
        text::push_str(&mut m, "\n  ");
        text::push_str(&mut m, new_first.as_str());
        Ok((new_content, m))
    }

    /// The character index of the first occurrence of `old` in `cs`, which
    /// occurs there.
    fn first_occurrence_index(cs: &[char], old: &str) -> (p: usize)
        requires
            old@.len() > 0,
            occurrences_from(cs@, old@, 0).len() > 0,
        ensures
            p == occurrences_from(cs@, old@, 0)[0],
            p + old@.len() <= cs@.len(),
    {
        let ws = text::chars_of(old);
        assert(cs@.skip(0) =~= cs@);
        match text::find_chars_from(cs, ws.as_slice(), 0) {
            Some(i) => {
                proof {
                    lemma_found(cs@, old@, 0, i as int);
                }
                i
            },
            None => {
                assert(false);
                0
            },
        }
    }

    /// Summary of an edit for display.
    pub fn summarize(input: &FileEditInput) -> (s: String)
        ensures
            s@ == "Editing: "@ + input.file_path@,
    {
        let mut s = text::owned("Editing: ");
        text::push_str(&mut s, input.file_path.as_str());
        s
    }
}

} // verus!
