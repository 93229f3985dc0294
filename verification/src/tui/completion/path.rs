//! Path completion provider
//!
//! Provides autocomplete for file system paths like ~/, ./, ../, /path.
//! Deciding what to look up and which entries to offer is done here; reading
//! the directory is left to the caller, who hands back what it found.

use super::{CompletionType, Suggestion};
use crate::paths::{file_name_of, join_path, joined, parent_of, path_file_name, path_parent};
use crate::text;
use crate::text::{byte_offset_of, chars_of, push_char, push_str, str_len, str_to_lowercase, string_from_range};
use vstd::prelude::*;

verus! {

/// Path entry type
#[derive(Debug, Clone, Copy, PartialEq, Eq, Structural)]
pub enum PathEntryType {
    Directory,
    File,
}

/// Path entry for completion
#[derive(Debug, Clone)]
pub struct PathEntry {
    pub name: String,
    pub path: String,
    pub entry_type: PathEntryType,
}

impl PathEntry {
    /// A copy of this entry.
    pub fn duplicate(&self) -> (r: Self)
        ensures
            r == *self,
    {
        PathEntry { name: self.name.clone(), path: self.path.clone(), entry_type: self.entry_type }
    }
}

/// The most suggestions offered at once.
pub const MAX_PATH_RESULTS: usize = 20;

/// How many directory entries beyond the limit are looked at before filtering.
pub const PATH_SCAN_SLACK: usize = 50;

/// Path completer - provides suggestions for file system paths
pub struct PathCompleter {
    /// Current working directory
    cwd: String,
    /// Include hidden files (starting with .)
    include_hidden: bool,
    /// Include files (not just directories)
    include_files: bool,
    /// Maximum results to return
    max_results: usize,
}

/// The settings of a path completer.
pub struct PathCompleterView {
    pub cwd: Seq<char>,
    pub include_hidden: bool,
    pub include_files: bool,
    pub max_results: nat,
}

/// What a completion needs looked up: the directory to list, the prefix the
/// entries must start with, and the text typed before the final component.
#[derive(Debug, Clone)]
pub struct PathQuery {
    pub directory: String,
    pub prefix: String,
    pub dir_portion: String,
}

impl View for PathCompleter {
    type V = PathCompleterView;

    closed spec fn view(&self) -> PathCompleterView {
        PathCompleterView {
            cwd: self.cwd@,
            include_hidden: self.include_hidden,
            include_files: self.include_files,
            max_results: self.max_results as nat,
        }
    }
}

/// `s` is one of the whitespace characters that end a word here.
pub open spec fn is_word_break(c: char) -> bool {
    c == ' ' || c == '\n' || c == '\t'
}

/// Whether a token looks like a path.
pub open spec fn spec_is_path_like(t: Seq<char>) -> bool {
    ||| text::starts_with(t, seq!['~', '/'])
    ||| text::starts_with(t, seq!['/'])
    ||| text::starts_with(t, seq!['.', '/'])
    ||| text::starts_with(t, seq!['.', '.', '/'])
    ||| t == seq!['~']
    ||| t == seq!['.']
    ||| t == seq!['.', '.']
}

/// Whether a word starts the way a path does: `/`, `./`, `../` or `~`.
pub open spec fn has_path_prefix(w: Seq<char>) -> bool {
    ||| text::starts_with(w, seq!['/'])
    ||| text::starts_with(w, seq!['.', '/'])
    ||| text::starts_with(w, seq!['.', '.', '/'])
    ||| text::starts_with(w, seq!['~'])
}

/// Counting from character `i`, the number of characters of `s` that end at
/// or before byte `pos`.
pub open spec fn chars_within_from(s: Seq<char>, i: int, pos: int) -> int
    decreases s.len() - i,
{
    if 0 <= i < s.len() && text::byte_len(s.take(i + 1)) <= pos {
        chars_within_from(s, i + 1, pos)
    } else {
        i
    }
}

/// The number of characters of `s` that end at or before byte `pos`: the
/// cursor moved back to the nearest character boundary.
pub open spec fn chars_within(s: Seq<char>, pos: int) -> int {
    chars_within_from(s, 0, pos)
}

/// Which characters of `s` end a word.
pub open spec fn breaks_in(s: Seq<char>) -> spec_fn(int) -> bool {
    |j: int| is_word_break(s[j])
}

/// Which characters of `s` are slashes.
pub open spec fn slashes_in(s: Seq<char>) -> spec_fn(int) -> bool {
    |j: int| s[j] == '/'
}

/// Which members of `xs` entry `e` is listed before.
pub open spec fn goes_before(e: PathEntry, xs: Seq<PathEntry>) -> spec_fn(int) -> bool {
    |j: int| entry_before(e, xs[j])
}

/// The character index where the word ending at character `k` starts.
pub open spec fn word_start(s: Seq<char>, k: int) -> int {
    match text::last_below(k, breaks_in(s)) {
        Some(j) => j + 1,
        None => 0,
    }
}

/// Byte offset of the start of the path-like token ending at the cursor.
pub open spec fn spec_find_path_start(s: Seq<char>, pos: int) -> Option<int> {
    let k = chars_within(s, pos);
    if k > 0 && s[0] == '~' {
        Some(0)
    } else {
        let w = word_start(s, k);
        if has_path_prefix(s.subrange(w, k)) {
            Some(text::byte_len(s.take(w)) as int)
        } else {
            None
        }
    }
}

/// The text from the path start up to the cursor.
pub open spec fn path_text(s: Seq<char>, pos: int, start: int) -> Seq<char> {
    text::prefix_upto(s, pos).skip(text::char_idx(s, start))
}

/// Whether path completion applies at the cursor.
pub open spec fn spec_can_complete(s: Seq<char>, pos: int) -> bool {
    match spec_find_path_start(s, pos) {
        Some(start) => spec_is_path_like(path_text(s, pos, start)),
        None => false,
    }
}

/// Climbing up from `dir` once for each leading `../` of `rest`, as long as
/// `dir` has a parent: the directory reached and what is left of `rest`.
pub open spec fn climb(dir: Seq<char>, rest: Seq<char>) -> (Seq<char>, Seq<char>)
    decreases rest.len(),
{
    if text::starts_with(rest, seq!['.', '.', '/']) {
        match path_parent(dir) {
            Some(q) => climb(q, rest.skip(3)),
            None => (dir, rest),
        }
    } else {
        (dir, rest)
    }
}

/// The path that `p` names, with `~` standing for `home` and relative paths
/// taken from `cwd`.
pub open spec fn spec_expand(p: Seq<char>, cwd: Seq<char>, home: Seq<char>) -> Seq<char> {
    if p.len() > 0 && p[0] == '~' {
        let after = if p == seq!['~'] {
            Seq::<char>::empty()
        } else if text::starts_with(p, seq!['~', '/']) {
            p.skip(2)
        } else {
            p.skip(1)
        };
        joined(home, after)
    } else if text::starts_with(p, seq!['.', '/']) {
        joined(cwd, p.skip(2))
    } else if p == seq!['.'] {
        cwd
    } else if text::starts_with(p, seq!['.', '.', '/']) {
        let (d, r) = climb(cwd, p);
        joined(d, r)
    } else if p == seq!['.', '.'] {
        match path_parent(cwd) {
            Some(q) => q,
            None => cwd,
        }
    } else if text::starts_with(p, seq!['/']) {
        p
    } else {
        joined(cwd, p)
    }
}

/// The directory to list and the prefix to match for partial path `p`.
pub open spec fn spec_parse_partial(p: Seq<char>, cwd: Seq<char>, home: Seq<char>) -> (Seq<char>, Seq<char>) {
    let e = spec_expand(p, cwd, home);
    if p.len() > 0 && p.last() == '/' {
        (e, Seq::<char>::empty())
    } else {
        (
            match path_parent(e) {
                Some(q) => q,
                None => e,
            },
            match path_file_name(e) {
                Some(n) => n,
                None => Seq::<char>::empty(),
            },
        )
    }
}

/// The text up to and including the last `/`, when that slash is not the
/// first character; empty otherwise.
pub open spec fn spec_dir_portion(s: Seq<char>) -> Seq<char> {
    match text::last_below(s.len() as int, slashes_in(s)) {
        Some(k) => if k > 0 {
            s.take(k + 1)
        } else {
            Seq::<char>::empty()
        },
        None => Seq::<char>::empty(),
    }
}

/// What a suggestion shows and completes to: the directory portion, the
/// name, and a `/` after a directory.
pub open spec fn entry_text(name: Seq<char>, t: PathEntryType, dir_portion: Seq<char>) -> Seq<char> {
    if t == PathEntryType::Directory {
        dir_portion + name + seq!['/']
    } else {
        dir_portion + name
    }
}

/// The description shown for an entry type.
pub open spec fn type_description(t: PathEntryType) -> Seq<char> {
    if t == PathEntryType::Directory {
        seq!['d', 'i', 'r', 'e', 'c', 't', 'o', 'r', 'y']
    } else {
        seq!['f', 'i', 'l', 'e']
    }
}

/// `s` is the suggestion for entry `e` shown under `dir_portion`.
pub open spec fn is_entry_suggestion(s: Suggestion, e: PathEntry, dir_portion: Seq<char>) -> bool {
    &&& s.id@ == e.name@
    &&& s.display_text@ == entry_text(e.name@, e.entry_type, dir_portion)
    &&& super::opt_view(s.description) == Some(type_description(e.entry_type))
    &&& s.completion_type == CompletionType::Path
    &&& s.replace_suffix@ == entry_text(e.name@, e.entry_type, dir_portion)
}

/// Lexicographic order of texts by code point (`String`'s `<`).
pub open spec fn text_lt(a: Seq<char>, b: Seq<char>) -> bool
    decreases a.len(),
{
    if a.len() == 0 {
        b.len() > 0
    } else if b.len() == 0 {
        false
    } else if a[0] != b[0] {
        (a[0] as u32) < (b[0] as u32)
    } else {
        text_lt(a.skip(1), b.skip(1))
    }
}

/// Whether entry `a` is listed before entry `b`: directories first, then by
/// name.
pub open spec fn entry_before(a: PathEntry, b: PathEntry) -> bool {
    if a.entry_type == PathEntryType::Directory && b.entry_type != PathEntryType::Directory {
        true
    } else if a.entry_type != PathEntryType::Directory && b.entry_type == PathEntryType::Directory {
        false
    } else {
        text_lt(a.name@, b.name@)
    }
}

/// `s` inserted into `xs` after every entry not listed after it.
pub open spec fn insert_entry(xs: Seq<PathEntry>, e: PathEntry) -> Seq<PathEntry> {
    match text::first_from(0, xs.len() as int, goes_before(e, xs)) {
        Some(j) => xs.take(j).push(e) + xs.skip(j),
        None => xs.push(e),
    }
}

/// The entries in listing order: stably sorted, directories first, then by
/// name.
pub open spec fn sort_entries(xs: Seq<PathEntry>) -> Seq<PathEntry>
    decreases xs.len(),
{
    if xs.len() == 0 {
        xs
    } else {
        insert_entry(sort_entries(xs.drop_last()), xs.last())
    }
}

/// Whether a directory entry is offered for `prefix` under these settings.
pub open spec fn keeps(v: PathCompleterView, e: PathEntry, prefix: Seq<char>) -> bool {
    &&& v.include_hidden || !text::starts_with(e.name@, seq!['.'])
    &&& text::starts_with(text::lowercase(e.name@), text::lowercase(prefix))
    &&& e.entry_type == PathEntryType::Directory || v.include_files
}

/// The entries of `xs` that are offered, in order.
pub open spec fn kept(v: PathCompleterView, xs: Seq<PathEntry>, prefix: Seq<char>) -> Seq<PathEntry>
    decreases xs.len(),
{
    if xs.len() == 0 {
        xs
    } else {
        let rest = kept(v, xs.drop_last(), prefix);
        if keeps(v, xs.last(), prefix) {
            rest.push(xs.last())
        } else {
            rest
        }
    }
}

/// The first `n` members of `s`, or all of them.
pub open spec fn take_at_most<A>(s: Seq<A>, n: int) -> Seq<A> {
    if n < s.len() {
        s.take(n)
    } else {
        s
    }
}

/// The entries offered from a directory listing: the first entries read,
/// filtered, sorted, and cut to the limit.
pub open spec fn spec_select(v: PathCompleterView, listing: Seq<PathEntry>, prefix: Seq<char>) -> Seq<PathEntry> {
    take_at_most(
        sort_entries(kept(v, take_at_most(listing, v.max_results + PATH_SCAN_SLACK), prefix)),
        v.max_results as int,
    )
}

/// Whether `a` is listed before `b`, by name (`String`'s `<`).
fn chars_lt(a: &[char], b: &[char]) -> (r: bool)
    ensures
        r == text_lt(a@, b@),
{
    let mut i: usize = 0;
    assert(a@.skip(0) =~= a@);
    assert(b@.skip(0) =~= b@);
    while i < a.len() && i < b.len()
        invariant
            i <= a@.len(),
            i <= b@.len(),
            text_lt(a@, b@) == text_lt(a@.skip(i as int), b@.skip(i as int)),
        decreases a.len() - i,
    {
        if a[i] != b[i] {
            return (a[i] as u32) < (b[i] as u32);
        }
        assert(a@.skip(i as int).skip(1) =~= a@.skip(i as int + 1));
        assert(b@.skip(i as int).skip(1) =~= b@.skip(i as int + 1));
        i += 1;
    }
    i == a.len() && i < b.len()
}

/// Whether entry `a` is listed before entry `b`.
fn listed_before(a: &PathEntry, b: &PathEntry) -> (r: bool)
    ensures
        r == entry_before(*a, *b),
{
    let a_dir = a.entry_type == PathEntryType::Directory;
    let b_dir = b.entry_type == PathEntryType::Directory;
    if a_dir && !b_dir {
        true
    } else if !a_dir && b_dir {
        false
    } else {
        let x = chars_of(a.name.as_str());
        let y = chars_of(b.name.as_str());
        chars_lt(x.as_slice(), y.as_slice())
    }
}

/// Whether `c` ends a word.
fn word_break(c: char) -> (b: bool)
    ensures
        b == is_word_break(c),
{
    c == ' ' || c == '\n' || c == '\t'
}

/// Whether `w` starts the way a path does.
fn path_prefixed(w: &[char]) -> (b: bool)
    ensures
        b == has_path_prefix(w@),
{
    let n = w.len();
    let a = n >= 1 && w[0] == '/';
    let b = n >= 2 && w[0] == '.' && w[1] == '/';
    let c = n >= 3 && w[0] == '.' && w[1] == '.' && w[2] == '/';
    let d = n >= 1 && w[0] == '~';
    proof {
        if n >= 1 {
            assert(w@.take(1) =~= seq![w@[0]]);
            assert(seq![w@[0]][0] == w@[0]);
        }
        if n >= 2 {
            assert(w@.take(2) =~= seq![w@[0], w@[1]]);
            assert(seq![w@[0], w@[1]][0] == w@[0]);
            assert(seq![w@[0], w@[1]][1] == w@[1]);
        }
        if n >= 3 {
            assert(w@.take(3) =~= seq![w@[0], w@[1], w@[2]]);
            assert(seq![w@[0], w@[1], w@[2]][0] == w@[0]);
            assert(seq![w@[0], w@[1], w@[2]][1] == w@[1]);
            assert(seq![w@[0], w@[1], w@[2]][2] == w@[2]);
        }
        assert(a == text::starts_with(w@, seq!['/']));
        assert(b == text::starts_with(w@, seq!['.', '/']));
        assert(c == text::starts_with(w@, seq!['.', '.', '/']));
        assert(d == text::starts_with(w@, seq!['~']));
    }
    a || b || c || d
}

impl PathCompleter {
    /// The limit stays the fixed one.
    #[verifier::type_invariant]
    spec fn inv(self) -> bool {
        self.max_results == MAX_PATH_RESULTS
    }

    /// Create with custom working directory
    pub fn with_cwd(cwd: String) -> (c: Self)
        ensures
            c@ == (PathCompleterView {
                cwd: cwd@,
                include_hidden: false,
                include_files: true,
                max_results: MAX_PATH_RESULTS as nat,
            }),
    {
        Self { cwd, include_hidden: false, include_files: true, max_results: MAX_PATH_RESULTS }
    }

    /// Set whether to include hidden files
    pub fn set_include_hidden(&mut self, on: bool)
        ensures
            final(self)@ == (PathCompleterView { include_hidden: on, ..old(self)@ }),
    {
        proof {
            use_type_invariant(&*self);
        }
        self.include_hidden = on;
    }

    /// Set whether to include files
    pub fn set_include_files(&mut self, on: bool)
        ensures
            final(self)@ == (PathCompleterView { include_files: on, ..old(self)@ }),
    {
        proof {
            use_type_invariant(&*self);
        }
        self.include_files = on;
    }

    /// The working directory relative paths are taken from.
    pub fn cwd(&self) -> (c: &str)
        ensures
            c@ == self@.cwd,
    {
        self.cwd.as_str()
    }

    /// Check if a token looks like a path
    pub fn is_path_like(token: &str) -> (b: bool)
        ensures
            b == spec_is_path_like(token@),
    {
        let w = chars_of(token);
        let n = w.len();
        let r = (n >= 2 && w[0] == '~' && w[1] == '/') || (n >= 1 && w[0] == '/') || (n >= 2 && w[0] == '.'
            && w[1] == '/') || (n >= 3 && w[0] == '.' && w[1] == '.' && w[2] == '/') || (n == 1 && w[0]
            == '~') || (n == 1 && w[0] == '.') || (n == 2 && w[0] == '.' && w[1] == '.');
        proof {
            if n >= 1 {
                assert(w@.take(1) =~= seq![w@[0]]);
            }
            if n >= 2 {
                assert(w@.take(2) =~= seq![w@[0], w@[1]]);
            }
            if n >= 3 {
                assert(w@.take(3) =~= seq![w@[0], w@[1], w@[2]]);
            }
            if n == 1 {
                assert(w@ =~= seq![w@[0]]);
            }
            if n == 2 {
                assert(w@ =~= seq![w@[0], w@[1]]);
            }
        }
        r
    }

    /// Find the start position (a byte offset) of a path-like token that
    /// ends at the cursor. A cursor inside a character is moved back to the
    /// character's start.
    pub fn find_path_start(&self, input: &str, cursor_pos: usize) -> (r: Option<usize>)
        ensures
            match r {
                Some(i) => spec_find_path_start(input@, cursor_pos as int) == Some(i as int),
                None => spec_find_path_start(input@, cursor_pos as int) is None,
            },
    {
        let cs = chars_of(input);
        let total = str_len(input);
        // Characters that end at or before the cursor.
        let mut k: usize = 0;
        let mut acc: usize = 0;
        assert(cs@.take(0) =~= Seq::<char>::empty());
        while k < cs.len()
            invariant
                k <= cs@.len(),
                acc == text::byte_len(cs@.take(k as int)),
                acc <= cursor_pos,
                total == text::byte_len(cs@),
                total <= isize::MAX,
                chars_within(cs@, cursor_pos as int) == chars_within_from(cs@, k as int, cursor_pos as int),
            ensures
                k == cs@.len() || text::byte_len(cs@.take(k as int + 1)) > cursor_pos,
            decreases cs.len() - k,
        {
            proof {
                text::lemma_byte_len_take_step(cs@, k as int);
                text::lemma_byte_len_take_mono(cs@, k as int + 1, cs@.len() as int);
                text::lemma_byte_len_take_all(cs@);
            }
            let next = acc + text::utf8_len(cs[k]);
            if next > cursor_pos {
                break;
            }
            acc = next;
            k += 1;
        }
        assert(chars_within(cs@, cursor_pos as int) == k);
        if k > 0 && cs[0] == '~' {
            return Some(0);
        }
        // Start of the word that ends at the cursor.
        let mut j: usize = k;
        while j > 0 && !word_break(cs[j - 1])
            invariant
                j <= k <= cs@.len(),
                text::last_below(k as int, breaks_in(cs@)) == text::last_below(j as int, breaks_in(cs@)),
            decreases j,
        {
            j -= 1;
        }
        assert(word_start(cs@, k as int) == j);
        let w = string_from_range(cs.as_slice(), j, k);
        let wc = chars_of(w.as_str());
        if path_prefixed(wc.as_slice()) {
            proof {
                text::lemma_byte_len_take_mono(cs@, j as int, cs@.len() as int);
                text::lemma_byte_len_take_all(cs@);
            }
            Some(byte_offset_of(cs.as_slice(), j))
        } else {
            None
        }
    }

    /// Whether path completion applies: a path-like token ends at the cursor.
    pub fn can_complete(&self, input: &str, cursor_pos: usize) -> (b: bool)
        requires
            spec_find_path_start(input@, cursor_pos as int) is Some ==> text::boundary_or_past(
                input@,
                cursor_pos as int,
            ),
        ensures
            b == spec_can_complete(input@, cursor_pos as int),
    {
        match self.token_at(input, cursor_pos) {
            Some(t) => Self::is_path_like(t.as_str()),
            None => false,
        }
    }

    /// The text from the path start to the cursor, if a path starts there.
    fn token_at(&self, input: &str, cursor_pos: usize) -> (r: Option<String>)
        requires
            spec_find_path_start(input@, cursor_pos as int) is Some ==> text::boundary_or_past(
                input@,
                cursor_pos as int,
            ),
        ensures
            match spec_find_path_start(input@, cursor_pos as int) {
                Some(start) => (r matches Some(t) && t@ == path_text(input@, cursor_pos as int, start)),
                None => r is None,
            },
    {
        let start = match self.find_path_start(input, cursor_pos) {
            Some(s) => s,
            None => return None,
        };
        let cs = chars_of(input);
        let k = text::prefix_len_chars(cs.as_slice(), cursor_pos);
        let si = match text::char_index_at_byte(cs.as_slice(), start) {
            Some(i) => i,
            None => {
                proof {
                    lemma_path_start_boundary(input@, cursor_pos as int);
                }
                return None;
            },
        };
        proof {
            text::lemma_char_idx(cs@, si as int);
            self.lemma_start_before_cursor(input@, cursor_pos as int, si as int, k as int);
        }
        let t = string_from_range(cs.as_slice(), si, k);
        assert(t@ =~= text::prefix_upto(input@, cursor_pos as int).skip(si as int));
        Some(t)
    }

    /// The path start comes no later than the cursor.
    proof fn lemma_start_before_cursor(&self, s: Seq<char>, pos: int, si: int, k: int)
        requires
            spec_find_path_start(s, pos) is Some,
            text::boundary_or_past(s, pos),
            0 <= si <= s.len(),
            text::byte_len(s.take(si)) == spec_find_path_start(s, pos)->0,
            0 <= k <= s.len(),
            text::prefix_upto(s, pos) == s.take(k),
            pos <= text::byte_len(s) ==> text::byte_len(s.take(k)) == pos,
        ensures
            si <= k,
            text::char_idx(s, spec_find_path_start(s, pos)->0) == si,
    {
        text::lemma_char_idx(s, si);
        let c = chars_within(s, pos);
        lemma_chars_within_bound(s, 0, pos);
        let w = if c > 0 && s[0] == '~' {
            0
        } else {
            lemma_word_start_bound(s, c);
            word_start(s, c)
        };
        assert(s.take(0) =~= Seq::<char>::empty());
        text::lemma_byte_len_take_injective(s, si, w);
        assert(text::byte_len(s.take(0)) == 0);
        lemma_chars_within_fits(s, 0, pos);
        if pos <= text::byte_len(s) {
            if k < c {
                text::lemma_byte_len_take_mono(s, k + 1, c);
                text::lemma_byte_len_take_step(s, k);
            }
        } else {
            text::lemma_byte_len_take_all(s);
            assert(s.take(s.len() as int) =~= s);
        }
    }

    /// Expand path with home directory: `~` stands for `home`, and relative
    /// paths are taken from the working directory.
    pub fn expand_path(&self, path: &str, home: &str) -> (r: String)
        ensures
            r@ == spec_expand(path@, self@.cwd, home@),
    {
        let p = chars_of(path);
        let n = p.len();
        if n > 0 && p[0] == '~' {
            let after = if n == 1 {
                String::new()
            } else if p[1] == '/' {
                string_from_range(p.as_slice(), 2, n)
            } else {
                string_from_range(p.as_slice(), 1, n)
            };
            proof {
                if n == 1 {
                    assert(p@ =~= seq!['~']);
                } else {
                    assert(p@ != seq!['~']);
                    assert(p@.take(2) =~= seq![p@[0], p@[1]]);
                    assert(p@.skip(2) =~= p@.subrange(2, n as int));
                    assert(p@.skip(1) =~= p@.subrange(1, n as int));
                }
            }
            join_path(home, after.as_str())
        } else if n >= 2 && p[0] == '.' && p[1] == '/' {
            assert(p@.take(2) =~= seq!['.', '/']);
            let rest = string_from_range(p.as_slice(), 2, n);
            assert(rest@ =~= p@.skip(2));
            join_path(self.cwd.as_str(), rest.as_str())
        } else if n == 1 && p[0] == '.' {
            assert(p@ =~= seq!['.']);
            self.cwd.clone()
        } else if n >= 3 && p[0] == '.' && p[1] == '.' && p[2] == '/' {
            proof {
                assert(p@.take(2) =~= seq![p@[0], p@[1]]);
                assert(p@.take(3) =~= seq!['.', '.', '/']);
                assert(p@ != seq!['.']);
            }
            let mut dir = self.cwd.clone();
            let mut at: usize = 0;
            assert(p@.skip(0) =~= p@);
            while n - at >= 3 && p[at] == '.' && p[at + 1] == '.' && p[at + 2] == '/'
                invariant
                    at <= n == p@.len(),
                    climb(self@.cwd, p@) == climb(dir@, p@.skip(at as int)),
                ensures
                    at <= n == p@.len(),
                    climb(self@.cwd, p@) == climb(dir@, p@.skip(at as int)),
                    (n - at >= 3 && p@[at as int] == '.' && p@[at + 1] == '.' && p@[at + 2] == '/') ==> path_parent(dir@) is None,
                decreases n - at,
            {
                assert(p@.skip(at as int).take(3) =~= seq!['.', '.', '/']);
                match parent_of(dir.as_str()) {
                    Some(q) => {
                        assert(p@.skip(at as int).skip(3) =~= p@.skip(at as int + 3));
                        dir = q;
                        at = at + 3;
                    },
                    None => {
                        break;
                    },
                }
            }
            proof {
                let rest = p@.skip(at as int);
                if !(n - at >= 3 && p@[at as int] == '.' && p@[at + 1] == '.' && p@[at + 2] == '/') {
                    if rest.len() >= 3 {
                        assert(rest.take(3) =~= seq![p@[at as int], p@[at + 1], p@[at + 2]]);
                    }
                    assert(!text::starts_with(rest, seq!['.', '.', '/']));
                } else {
                    assert(rest.take(3) =~= seq!['.', '.', '/']);
                }
            }
            let rest = string_from_range(p.as_slice(), at, n);
            assert(rest@ =~= p@.skip(at as int));
            join_path(dir.as_str(), rest.as_str())
        } else if n == 2 && p[0] == '.' && p[1] == '.' {
            proof {
                assert(p@ =~= seq!['.', '.']);
                assert(p@.take(2) =~= seq!['.', '.']);
            }
            match parent_of(self.cwd.as_str()) {
                Some(q) => q,
                None => self.cwd.clone(),
            }
        } else if n >= 1 && p[0] == '/' {
            proof {
                assert(p@.take(1) =~= seq!['/']);
                if n >= 2 {
                    assert(p@.take(2) =~= seq![p@[0], p@[1]]);
                }
                if n >= 3 {
                    assert(p@.take(3) =~= seq![p@[0], p@[1], p@[2]]);
                }
                assert(p@ != seq!['.']);
                assert(p@ != seq!['.', '.']);
            }
            text::owned(path)
        } else {
            proof {
                if n >= 1 {
                    assert(p@.take(1) =~= seq![p@[0]]);
                }
                if n >= 2 {
                    assert(p@.take(2) =~= seq![p@[0], p@[1]]);
                }
                if n >= 3 {
                    assert(p@.take(3) =~= seq![p@[0], p@[1], p@[2]]);
                }
                if n == 1 {
                    assert(p@ =~= seq![p@[0]]);
                }
                if n == 2 {
                    assert(p@ =~= seq![p@[0], p@[1]]);
                }
            }
            join_path(self.cwd.as_str(), path)
        }
    }

    /// Parse partial path into the directory to list and the prefix to match.
    pub fn parse_partial_path(&self, input: &str, home: &str) -> (r: (String, String))
        ensures
            (r.0@, r.1@) == spec_parse_partial(input@, self@.cwd, home@),
    {
        let expanded = self.expand_path(input, home);
        let cs = chars_of(input);
        if cs.len() > 0 && cs[cs.len() - 1] == '/' {
            return (expanded, String::new());
        }
        let directory = match parent_of(expanded.as_str()) {
            Some(q) => q,
            None => expanded.clone(),
        };
        let prefix = match file_name_of(expanded.as_str()) {
            Some(n) => n,
            None => String::new(),
        };
        (directory, prefix)
    }

    /// Get the directory portion of the input path (for display)
    pub fn get_dir_portion(input: &str) -> (r: String)
        ensures
            r@ == spec_dir_portion(input@),
    {
        let cs = chars_of(input);
        let mut j: usize = cs.len();
        while j > 0 && cs[j - 1] != '/'
            invariant
                j <= cs@.len(),
                text::last_below(cs@.len() as int, slashes_in(cs@)) == text::last_below(j as int, slashes_in(cs@)),
            decreases j,
        {
            j -= 1;
        }
        if j > 1 {
            string_from_range(cs.as_slice(), 0, j)
        } else {
            String::new()
        }
    }

    /// Convert path entry to suggestion
    pub fn entry_to_suggestion(&self, entry: &PathEntry, dir_portion: &str) -> (s: Suggestion)
        ensures
            is_entry_suggestion(s, *entry, dir_portion@),
    {
        let is_dir = entry.entry_type == PathEntryType::Directory;
        let mut text = text::owned(dir_portion);
        push_str(&mut text, entry.name.as_str());
        if is_dir {
            push_char(&mut text, '/');
        }
        let description = if is_dir {
            text::owned("directory")
        } else {
            text::owned("file")
        };
        proof {
            reveal_strlit("directory");
            reveal_strlit("file");
            assert(description@ =~= type_description(entry.entry_type));
            assert(text@ =~= entry_text(entry.name@, entry.entry_type, dir_portion@));
        }
        let replace_suffix = text.clone();
        Suggestion::new(entry.name.clone(), text, Some(description), CompletionType::Path, replace_suffix)
    }

    /// Whether a directory entry is offered for `prefix`.
    fn offered(&self, entry: &PathEntry, prefix: &str, prefix_lower: &str) -> (b: bool)
        requires
            prefix_lower@ == text::lowercase(prefix@),
        ensures
            b == keeps(self@, *entry, prefix@),
    {
        let name = chars_of(entry.name.as_str());
        proof {
            if name@.len() > 0 {
                assert(name@.take(1) =~= seq![name@[0]]);
                assert(seq![name@[0]][0] == name@[0]);
            }
            assert(text::starts_with(name@, seq!['.']) == (name@.len() > 0 && name@[0] == '.'));
        }
        if !self.include_hidden && name.len() > 0 && name[0] == '.' {
            return false;
        }
        let lower = str_to_lowercase(entry.name.as_str());
        if !text::str_starts_with(lower.as_str(), prefix_lower) {
            return false;
        }
        entry.entry_type == PathEntryType::Directory || self.include_files
    }

    /// The entries offered from a directory listing, in the order the
    /// listing was read: the first entries are filtered by hidden-ness,
    /// case-insensitive prefix and type, sorted directories first and then
    /// by name, and cut to the limit.
    pub fn select_entries(&self, listing: Vec<PathEntry>, prefix: &str) -> (r: Vec<PathEntry>)
        ensures
            r@ == spec_select(self@, listing@, prefix@),
    {
        proof {
            use_type_invariant(self);
        }
        let prefix_lower = str_to_lowercase(prefix);
        let limit = self.max_results + PATH_SCAN_SLACK;
        let scanned = if limit < listing.len() {
            limit
        } else {
            listing.len()
        };
        let ghost head = take_at_most(listing@, limit as int);
        assert(head =~= listing@.take(scanned as int));
        let mut keep: Vec<PathEntry> = Vec::new();
        let mut i: usize = 0;
        assert(listing@.take(0) =~= Seq::<PathEntry>::empty());
        while i < scanned
            invariant
                i <= scanned <= listing@.len(),
                head == listing@.take(scanned as int),
                prefix_lower@ == text::lowercase(prefix@),
                keep@ == kept(self@, listing@.take(i as int), prefix@),
            decreases scanned - i,
        {
            assert(listing@.take(i as int + 1).drop_last() =~= listing@.take(i as int));
            assert(listing@.take(i as int + 1).last() == listing@[i as int]);
            if self.offered(&listing[i], prefix, prefix_lower.as_str()) {
                keep.push(listing[i].duplicate());
            }
            i += 1;
        }
        let mut sorted: Vec<PathEntry> = Vec::new();
        let mut m: usize = 0;
        assert(keep@.take(0) =~= Seq::<PathEntry>::empty());
        while m < keep.len()
            invariant
                m <= keep@.len(),
                sorted@ == sort_entries(keep@.take(m as int)),
            decreases keep.len() - m,
        {
            assert(keep@.take(m as int + 1).drop_last() =~= keep@.take(m as int));
            assert(keep@.take(m as int + 1).last() == keep@[m as int]);
            let e = keep[m].duplicate();
            let mut j: usize = 0;
            while j < sorted.len() && !listed_before(&e, &sorted[j])
                invariant
                    j <= sorted@.len(),
                    forall|q: int| 0 <= q < j ==> !entry_before(e, #[trigger] sorted@[q]),
                decreases sorted.len() - j,
            {
                j += 1;
            }
            proof {
                text::lemma_first_from(0, sorted@.len() as int, goes_before(e, sorted@));
            }
            let ghost before = sorted@;
            proof {
                let f = goes_before(e, before);
                match text::first_from(0, before.len() as int, f) {
                    Some(x) => {
                        assert(f(x));
                        if x < j {
                            assert(!entry_before(e, before[x]));
                        }
                        if j < x {
                            assert(!f(j as int));
                        }
                        assert(x == j);
                    },
                    None => {
                        if j < before.len() {
                            assert(!f(j as int));
                        }
                    },
                }
            }
            sorted.insert(j, e);
            proof {
                if j < before.len() {
                    assert(sorted@ =~= before.take(j as int).push(e) + before.skip(j as int));
                } else {
                    assert(sorted@ =~= before.push(e));
                }
            }
            m += 1;
        }
        assert(keep@.take(keep@.len() as int) =~= keep@);
        if self.max_results < sorted.len() {
            sorted.truncate(self.max_results);
        }
        sorted
    }

    /// What to look up for the path being typed at the cursor: none when no
    /// path-like token ends there. `home` stands for `~`.
    pub fn path_query(&self, input: &str, cursor_pos: usize, home: &str) -> (r: Option<PathQuery>)
        requires
            spec_find_path_start(input@, cursor_pos as int) is Some ==> text::boundary_or_past(
                input@,
                cursor_pos as int,
            ),
        ensures
            !spec_can_complete(input@, cursor_pos as int) ==> r is None,
            spec_can_complete(input@, cursor_pos as int) ==> (r matches Some(q) && {
                let t = path_text(input@, cursor_pos as int, spec_find_path_start(input@, cursor_pos as int)->0);
                &&& (q.directory@, q.prefix@) == spec_parse_partial(t, self@.cwd, home@)
                &&& q.dir_portion@ == spec_dir_portion(t)
            }),
    {
        let t = match self.token_at(input, cursor_pos) {
            Some(t) => t,
            None => return None,
        };
        if !Self::is_path_like(t.as_str()) {
            return None;
        }
        let (directory, prefix) = self.parse_partial_path(t.as_str(), home);
        let dir_portion = Self::get_dir_portion(t.as_str());
        Some(PathQuery { directory, prefix, dir_portion })
    }

    /// The suggestions for a query, given the listing of its directory in
    /// the order it was read.
    pub fn suggestions_from_listing(&self, query: &PathQuery, listing: Vec<PathEntry>) -> (r: Vec<Suggestion>)
        ensures
            r@.len() == spec_select(self@, listing@, query.prefix@).len(),
            forall|i: int|
                0 <= i < r@.len() ==> is_entry_suggestion(
                    #[trigger] r@[i],
                    spec_select(self@, listing@, query.prefix@)[i],
                    query.dir_portion@,
                ),
    {
        let entries = self.select_entries(listing, query.prefix.as_str());
        let mut out: Vec<Suggestion> = Vec::new();
        let mut i: usize = 0;
        while i < entries.len()
            invariant
                i <= entries@.len(),
                out@.len() == i,
                forall|q: int| 0 <= q < i ==> is_entry_suggestion(#[trigger] out@[q], entries@[q], query.dir_portion@),
            decreases entries.len() - i,
        {
            let s = self.entry_to_suggestion(&entries[i], query.dir_portion.as_str());
            out.push(s);
            i += 1;
        }
        out
    }
}

/// No entry of `xs` is listed before an earlier one.
pub open spec fn listed_in_order(xs: Seq<PathEntry>) -> bool {
    forall|i: int, j: int| 0 <= i < j < xs.len() ==> !entry_before(#[trigger] xs[j], #[trigger] xs[i])
}

/// Name order is asymmetric.
pub proof fn lemma_text_lt_asymmetric(a: Seq<char>, b: Seq<char>)
    ensures
        text_lt(a, b) ==> !text_lt(b, a),
    decreases a.len(),
{
    if a.len() > 0 && b.len() > 0 && a[0] == b[0] {
        lemma_text_lt_asymmetric(a.skip(1), b.skip(1));
    }
}

/// Name order is transitive.
pub proof fn lemma_text_lt_transitive(a: Seq<char>, b: Seq<char>, c: Seq<char>)
    requires
        text_lt(a, b),
        text_lt(b, c),
    ensures
        text_lt(a, c),
    decreases a.len(),
{
    if a.len() > 0 && b.len() > 0 && c.len() > 0 && a[0] == b[0] && b[0] == c[0] {
        lemma_text_lt_transitive(a.skip(1), b.skip(1), c.skip(1));
    }
}

/// Listing order is asymmetric and transitive.
pub proof fn lemma_entry_order(a: PathEntry, b: PathEntry, c: PathEntry)
    ensures
        entry_before(a, b) ==> !entry_before(b, a),
        entry_before(a, b) && entry_before(b, c) ==> entry_before(a, c),
{
    lemma_text_lt_asymmetric(a.name@, b.name@);
    if entry_before(a, b) && entry_before(b, c) && a.entry_type == b.entry_type && b.entry_type == c.entry_type {
        lemma_text_lt_transitive(a.name@, b.name@, c.name@);
    }
    if entry_before(a, b) && entry_before(b, c) && a.entry_type == c.entry_type && a.entry_type != b.entry_type {
        assert(false);
    }
}

/// Inserting an entry into an ordered listing keeps it ordered and adds just
/// that entry.
pub proof fn lemma_insert_entry(xs: Seq<PathEntry>, e: PathEntry)
    requires
        listed_in_order(xs),
    ensures
        listed_in_order(insert_entry(xs, e)),
        insert_entry(xs, e).to_multiset() == xs.to_multiset().insert(e),
{
    let f = goes_before(e, xs);
    text::lemma_first_from(0, xs.len() as int, f);
    let r = insert_entry(xs, e);
    match text::first_from(0, xs.len() as int, f) {
        Some(j) => {
            assert(r == xs.take(j).push(e) + xs.skip(j));
            assert forall|a: int, b: int| 0 <= a < b < r.len() implies !entry_before(#[trigger] r[b], #[trigger] r[a]) by {
                if b < j {
                    assert(r[a] == xs[a] && r[b] == xs[b]);
                } else if b == j {
                    assert(r[a] == xs[a] && r[b] == e);
                    assert(!f(a));
                } else if a < j {
                    assert(r[a] == xs[a] && r[b] == xs[b - 1]);
                } else if a == j {
                    assert(r[a] == e && r[b] == xs[b - 1]);
                    assert(f(j));
                    lemma_entry_order(xs[b - 1], e, xs[j]);
                    lemma_entry_order(xs[j], xs[j], xs[j]);
                } else {
                    assert(r[a] == xs[a - 1] && r[b] == xs[b - 1]);
                }
            }
            assert(r =~= xs.insert(j, e));
            vstd::seq_lib::to_multiset_insert(xs, j, e);
        },
        None => {
            assert forall|a: int, b: int| 0 <= a < b < r.len() implies !entry_before(#[trigger] r[b], #[trigger] r[a]) by {
                if b == xs.len() {
                    assert(!f(a));
                }
            }
            vstd::seq_lib::to_multiset_build(xs, e);
        },
    }
}

/// Listings come out directories first, then by name, holding exactly the
/// entries that went in.
pub proof fn lemma_sort_entries(xs: Seq<PathEntry>)
    ensures
        listed_in_order(sort_entries(xs)),
        sort_entries(xs).to_multiset() == xs.to_multiset(),
    decreases xs.len(),
{
    if xs.len() > 0 {
        lemma_sort_entries(xs.drop_last());
        lemma_insert_entry(sort_entries(xs.drop_last()), xs.last());
        vstd::seq_lib::to_multiset_build(xs.drop_last(), xs.last());
        assert(xs.drop_last().push(xs.last()) =~= xs);
    }
}

/// The path start is a character boundary.
pub proof fn lemma_path_start_boundary(s: Seq<char>, pos: int)
    requires
        spec_find_path_start(s, pos) is Some,
    ensures
        text::is_boundary(s, spec_find_path_start(s, pos)->0),
{
    let k = chars_within(s, pos);
    lemma_chars_within_bound(s, 0, pos);
    if !(k > 0 && s[0] == '~') {
        let w = word_start(s, k);
        lemma_word_start_bound(s, k);
        assert(text::byte_len(s.take(w)) == spec_find_path_start(s, pos)->0);
    } else {
        assert(s.take(0) =~= Seq::<char>::empty());
        assert(text::byte_len(s.take(0)) == 0);
    }
}

/// Counting characters never passes the end or goes backward.
proof fn lemma_chars_within_bound(s: Seq<char>, i: int, pos: int)
    requires
        0 <= i <= s.len(),
    ensures
        i <= chars_within_from(s, i, pos) <= s.len(),
    decreases s.len() - i,
{
    if i < s.len() && text::byte_len(s.take(i + 1)) <= pos {
        lemma_chars_within_bound(s, i + 1, pos);
    }
}

/// The characters counted end at or before the cursor.
proof fn lemma_chars_within_fits(s: Seq<char>, i: int, pos: int)
    requires
        0 <= i <= s.len(),
        text::byte_len(s.take(i)) <= pos,
    ensures
        text::byte_len(s.take(chars_within_from(s, i, pos))) <= pos,
    decreases s.len() - i,
{
    if i < s.len() && text::byte_len(s.take(i + 1)) <= pos {
        lemma_chars_within_fits(s, i + 1, pos);
    }
}

/// The word start lies within the text before the cursor.
proof fn lemma_word_start_bound(s: Seq<char>, k: int)
    requires
        0 <= k <= s.len(),
    ensures
        0 <= word_start(s, k) <= k,
{
    lemma_last_below_bound(k, |j: int| is_word_break(s[j]));
}

/// A backward search finds nothing or an index below where it started.
proof fn lemma_last_below_bound(n: int, p: spec_fn(int) -> bool)
    ensures
        text::last_below(n, p) matches Some(j) ==> 0 <= j < n,
    decreases n,
{
    if n > 0 && !p(n - 1) {
        lemma_last_below_bound(n - 1, p);
    }
}

} // verus!
