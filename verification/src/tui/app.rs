//! Application state with the multiline text editor for the input area.

pub mod state;

pub use state::{App, PendingPermission, PermissionChoiceResult};

use crate::text;
use crate::text::{chars_of, char_index_at_byte, join_strings, str_len, string_from_chars, string_from_range, utf8_len};
use crate::unicode;
use crate::unicode::str_width;
use vstd::prelude::*;

verus! {

/// Multiline text editor with proper cursor handling
#[derive(Debug)]
pub struct TextEditor {
    /// Lines of text
    lines: Vec<String>,
    /// Cursor row (0-indexed)
    cursor_row: usize,
    /// Cursor column (byte position, 0-indexed)
    cursor_col: usize,
}

/// Abstract editor state: the lines, and the cursor row and byte column.
pub struct EditorView {
    /// The lines of text.
    pub lines: Seq<Seq<char>>,
    /// Cursor row.
    pub row: nat,
    /// Cursor byte column within the row.
    pub col: nat,
}

/// The empty editor: one empty line, cursor at its start.
pub open spec fn empty_editor() -> EditorView {
    EditorView { lines: seq![Seq::<char>::empty()], row: 0, col: 0 }
}

/// The editor's text: its lines joined by newlines.
pub open spec fn editor_text(v: EditorView) -> Seq<char> {
    text::join(v.lines, seq!['\n'])
}

/// Bytes taken by the rows before row `r`: each line and its newline.
pub open spec fn rows_bytes(ls: Seq<Seq<char>>, r: int) -> nat
    decreases r,
{
    if r <= 0 {
        0
    } else {
        rows_bytes(ls, r - 1) + text::byte_len(ls[r - 1]) + 1
    }
}

/// The cursor's byte offset within the editor's text.
pub open spec fn cursor_offset(v: EditorView) -> nat {
    rows_bytes(v.lines, v.row as int) + v.col
}

/// The text before row `r`, with the newline that ends it.
pub open spec fn before_row(ls: Seq<Seq<char>>, r: int) -> Seq<char> {
    if r <= 0 {
        Seq::<char>::empty()
    } else {
        text::join(ls.take(r), seq!['\n']) + seq!['\n']
    }
}

/// The text of the first `n` lines begins the whole text.
pub proof fn lemma_join_prefix(ls: Seq<Seq<char>>, n: int)
    requires
        1 <= n <= ls.len(),
    ensures
        text::join(ls.take(n), seq!['\n']).len() <= text::join(ls, seq!['\n']).len(),
        text::join(ls, seq!['\n']).take(text::join(ls.take(n), seq!['\n']).len() as int) == text::join(ls.take(n), seq!['\n']),
    decreases ls.len(),
{
    if n == ls.len() {
        assert(ls.take(n) =~= ls);
    } else {
        let d = ls.drop_last();
        lemma_join_prefix(d, n);
        assert(d.take(n) =~= ls.take(n));
        let j = text::join(d, seq!['\n']);
        assert(text::join(ls, seq!['\n']) == j + seq!['\n'] + ls.last());
        let p = text::join(ls.take(n), seq!['\n']);
        assert((j + seq!['\n'] + ls.last()).take(p.len() as int) =~= j.take(p.len() as int));
    }
}

/// The lines up to row `r` are the text before the row, then the row.
pub proof fn lemma_before_row(ls: Seq<Seq<char>>, r: int)
    requires
        0 <= r < ls.len(),
    ensures
        text::join(ls.take(r + 1), seq!['\n']) == before_row(ls, r) + ls[r],
        text::byte_len(before_row(ls, r)) == rows_bytes(ls, r),
    decreases r,
{
    let t = ls.take(r + 1);
    assert(t.drop_last() =~= ls.take(r));
    assert(t.last() == ls[r]);
    if r == 0 {
        assert(before_row(ls, r) + ls[r] =~= ls[0]);
        assert(text::byte_len(Seq::<char>::empty()) == 0);
    } else {
        lemma_before_row(ls, r - 1);
        let p = before_row(ls, r - 1) + ls[r - 1];
        text::lemma_byte_len_concat(before_row(ls, r - 1), ls[r - 1]);
        text::lemma_byte_len_concat(p, seq!['\n']);
        text::lemma_byte_len_single('\n');
    }
}

/// The cursor's offset lies within the editor's text.
pub proof fn lemma_cursor_offset_bound(v: EditorView)
    requires
        editor_wf(v),
    ensures
        cursor_offset(v) <= text::byte_len(editor_text(v)),
{
    let ls = v.lines;
    let r = v.row as int;
    let l = ls[r];
    let p = before_row(ls, r);
    lemma_before_row(ls, r);
    lemma_join_prefix(ls, r + 1);
    let full = editor_text(v);
    let upto = p + l;
    assert(full.take(upto.len() as int) == upto);
    text::lemma_byte_len_concat(p, l);
    text::lemma_byte_len_take_mono(full, upto.len() as int, full.len() as int);
    text::lemma_byte_len_take_all(full);
}

/// The cursor's offset is a character boundary of the editor's text.
pub proof fn lemma_cursor_boundary(v: EditorView)
    requires
        editor_wf(v),
        on_boundary(v),
    ensures
        text::is_boundary(editor_text(v), cursor_offset(v) as int),
        cursor_offset(v) <= text::byte_len(editor_text(v)),
{
    let ls = v.lines;
    let r = v.row as int;
    let l = ls[r];
    let p = before_row(ls, r);
    let cc = cursor_char(v);
    lemma_before_row(ls, r);
    lemma_join_prefix(ls, r + 1);
    let full = editor_text(v);
    let upto = p + l;
    assert(full.take(upto.len() as int) == upto);
    let i = p.len() + cc;
    assert(full.take(i) =~= p + l.take(cc));
    text::lemma_byte_len_concat(p, l.take(cc));
    assert(text::byte_len(full.take(i)) == cursor_offset(v));
    text::lemma_byte_len_take_mono(full, i, full.len() as int);
    text::lemma_byte_len_take_all(full);
}

/// Typing a character and then deleting it with Backspace gives the editor
/// back unchanged.
pub proof fn lemma_insert_then_backspace(v: EditorView, c: char)
    requires
        editor_wf(v),
        on_boundary(v),
    ensures
        spec_backspace(spec_insert_char(v, c)) == v,
{
    let l = v.lines[v.row as int];
    let i = cursor_char(v);
    let w = spec_insert_char(v, c);
    let nl = l.take(i) + seq![c] + l.skip(i);
    assert(w.lines[w.row as int] == nl);
    assert(nl.take(i + 1) =~= l.take(i) + seq![c]);
    text::lemma_byte_len_concat(l.take(i), seq![c]);
    text::lemma_byte_len_single(c);
    text::lemma_char_idx(nl, i + 1);
    assert(cursor_char(w) == i + 1);
    assert(nl.take(i) =~= l.take(i));
    assert(nl.take(i) + nl.skip(i + 1) =~= l);
    assert(spec_backspace(w).lines =~= v.lines);
}

/// Splitting a line and then joining it back with Backspace gives the
/// editor back unchanged.
pub proof fn lemma_newline_then_backspace(v: EditorView)
    requires
        editor_wf(v),
        on_boundary(v),
    ensures
        spec_backspace(spec_insert_newline(v)) == v,
{
    let l = v.lines[v.row as int];
    let i = cursor_char(v);
    let w = spec_insert_newline(v);
    assert(w.lines[v.row as int] == l.take(i));
    assert(w.lines[v.row + 1int] == l.skip(i));
    assert(l.take(i) + l.skip(i) =~= l);
    assert(spec_backspace(w).lines =~= v.lines);
}

/// Moving left and then right returns the cursor where it was, unless it
/// was already at the very start.
pub proof fn lemma_left_then_right(v: EditorView)
    requires
        editor_wf(v),
        on_boundary(v),
        v.col > 0 || v.row > 0,
    ensures
        spec_move_right(spec_move_left(v)) == v,
{
    let l = v.lines[v.row as int];
    let i = cursor_char(v);
    if v.col > 0 {
        assert(i > 0) by {
            if i == 0 {
                assert(l.take(0) =~= Seq::<char>::empty());
            }
        }
        let w = spec_move_left(v);
        text::lemma_char_idx(l, i - 1);
        assert(cursor_char(w) == i - 1);
        text::lemma_byte_len_take_mono(l, i, l.len() as int);
        text::lemma_byte_len_take_all(l);
        text::lemma_byte_len_take_step(l, i - 1);
        assert(w.col < text::byte_len(l));
    }
}

/// The character index of the cursor within its line.
pub open spec fn cursor_char(v: EditorView) -> int {
    text::char_idx(v.lines[v.row as int], v.col as int)
}

/// The cursor sits on a character boundary of its line.
pub open spec fn on_boundary(v: EditorView) -> bool {
    text::is_boundary(v.lines[v.row as int], v.col as int)
}

/// The editor after inserting `c` at the cursor.
pub open spec fn spec_insert_char(v: EditorView, c: char) -> EditorView {
    let l = v.lines[v.row as int];
    let i = cursor_char(v);
    EditorView {
        lines: v.lines.update(v.row as int, l.take(i) + seq![c] + l.skip(i)),
        row: v.row,
        col: v.col + text::char_len(c),
    }
}

/// The editor after splitting the line at the cursor.
pub open spec fn spec_insert_newline(v: EditorView) -> EditorView {
    let l = v.lines[v.row as int];
    let i = cursor_char(v);
    EditorView {
        lines: v.lines.take(v.row as int) + seq![l.take(i), l.skip(i)] + v.lines.skip(v.row + 1int),
        row: v.row + 1,
        col: 0,
    }
}

/// The editor after a backspace.
pub open spec fn spec_backspace(v: EditorView) -> EditorView {
    let l = v.lines[v.row as int];
    let i = cursor_char(v);
    if v.col > 0 {
        EditorView {
            lines: v.lines.update(v.row as int, l.take(i - 1) + l.skip(i)),
            row: v.row,
            col: text::byte_len(l.take(i - 1)),
        }
    } else if v.row > 0 {
        let p = v.lines[v.row - 1];
        EditorView {
            lines: v.lines.take(v.row - 1) + seq![p + l] + v.lines.skip(v.row + 1int),
            row: (v.row - 1) as nat,
            col: text::byte_len(p),
        }
    } else {
        v
    }
}

/// The editor after a delete.
pub open spec fn spec_delete(v: EditorView) -> EditorView {
    let l = v.lines[v.row as int];
    let i = cursor_char(v);
    if v.col < text::byte_len(l) {
        EditorView { lines: v.lines.update(v.row as int, l.take(i) + l.skip(i + 1)), ..v }
    } else if v.row + 1 < v.lines.len() {
        EditorView {
            lines: v.lines.take(v.row as int) + seq![l + v.lines[v.row + 1int]] + v.lines.skip(v.row + 2int),
            ..v
        }
    } else {
        v
    }
}

/// The editor after moving left.
pub open spec fn spec_move_left(v: EditorView) -> EditorView {
    let l = v.lines[v.row as int];
    let i = cursor_char(v);
    if v.col > 0 {
        EditorView { col: text::byte_len(l.take(i - 1)), ..v }
    } else if v.row > 0 {
        EditorView { row: (v.row - 1) as nat, col: text::byte_len(v.lines[v.row - 1]), ..v }
    } else {
        v
    }
}

/// The editor after moving right.
pub open spec fn spec_move_right(v: EditorView) -> EditorView {
    let l = v.lines[v.row as int];
    let i = cursor_char(v);
    if v.col < text::byte_len(l) {
        EditorView { col: text::byte_len(l.take(i + 1)), ..v }
    } else if v.row + 1 < v.lines.len() {
        EditorView { row: v.row + 1, col: 0, ..v }
    } else {
        v
    }
}

/// The column kept when moving onto a line of `len` bytes.
pub open spec fn clamp_col(col: nat, len: nat) -> nat {
    if col < len {
        col
    } else {
        len
    }
}

impl View for TextEditor {
    type V = EditorView;

    closed spec fn view(&self) -> EditorView {
        EditorView {
            lines: text::views(self.lines@),
            row: self.cursor_row as nat,
            col: self.cursor_col as nat,
        }
    }
}

/// The editor state is well formed: at least one line, the cursor on an
/// existing row and within its line.
pub open spec fn editor_wf(v: EditorView) -> bool {
    &&& v.lines.len() >= 1
    &&& v.row < v.lines.len()
    &&& v.col <= text::byte_len(v.lines[v.row as int])
}

/// `s` with the character at index `i` left out.
fn without_char(cs: &Vec<char>, i: usize) -> (r: Vec<char>)
    requires
        i < cs@.len(),
    ensures
        r@ == cs@.take(i as int) + cs@.skip(i + 1),
{
    let mut r = cs.clone();
    let _ = r.remove(i);
    assert(r@ =~= cs@.take(i as int) + cs@.skip(i + 1));
    r
}

impl TextEditor {
    #[verifier::type_invariant]
    spec fn inv(self) -> bool {
        &&& editor_wf(self@)
        &&& self.cursor_row < self.lines@.len()
        &&& self.cursor_col <= isize::MAX
    }

    /// An empty editor: one empty line, cursor at its start.
    pub fn new() -> (e: Self)
        ensures
            e@.lines == seq![Seq::<char>::empty()],
            e@.row == 0,
            e@.col == 0,
    {
        let mut lines: Vec<String> = Vec::new();
        lines.push(String::new());
        let e = Self { lines, cursor_row: 0, cursor_col: 0 };
        assert(e@.lines =~= seq![Seq::<char>::empty()]);
        assert(text::byte_len(Seq::<char>::empty()) == 0);
        e
    }

    /// Get full text content: the lines joined by newlines.
    pub fn text(&self) -> (t: String)
        ensures
            t@ == text::join(self@.lines, seq!['\n']),
    {
        proof {
            reveal_strlit("\n");
        }
        let t = join_strings(self.lines.as_slice(), "\n");
        assert("\n"@ =~= seq!['\n']);
        t
    }

    /// Whether every line is empty.
    pub fn is_empty(&self) -> (b: bool)
        ensures
            b == (forall|i: int| 0 <= i < self@.lines.len() ==> #[trigger] self@.lines[i].len() == 0),
    {
        let mut i: usize = 0;
        while i < self.lines.len()
            invariant
                i <= self.lines@.len(),
                forall|j: int| 0 <= j < i ==> #[trigger] self@.lines[j].len() == 0,
            decreases self.lines@.len() - i,
        {
            if !self.lines[i].as_str().is_empty() {
                assert(self@.lines[i as int].len() != 0);
                return false;
            }
            i += 1;
        }
        true
    }

    /// Clear all content
    pub fn clear(&mut self)
        ensures
            final(self)@.lines == seq![Seq::<char>::empty()],
            final(self)@.row == 0,
            final(self)@.col == 0,
    {
        *self = Self::new();
    }

    /// Get lines for display
    pub fn lines(&self) -> (ls: &[String])
        ensures
            text::views(ls@) == self@.lines,
    {
        self.lines.as_slice()
    }

    /// Get cursor position (row, byte column)
    pub fn cursor_position(&self) -> (p: (usize, usize))
        ensures
            p.0 == self@.row,
            p.1 == self@.col,
    {
        (self.cursor_row, self.cursor_col)
    }

    /// Whether the cursor sits on a character boundary of its line (where
    /// edits at the cursor can be made).
    pub fn cursor_on_boundary(&self) -> (b: bool)
        ensures
            b == on_boundary(self@),
    {
        proof {
            use_type_invariant(self);
        }
        let cs = chars_of(self.lines[self.cursor_row].as_str());
        match char_index_at_byte(cs.as_slice(), self.cursor_col) {
            Some(_) => true,
            None => false,
        }
    }

    /// Display width of the current line up to the cursor.
    pub fn cursor_display_x(&self) -> (w: usize)
        requires
            on_boundary(self@),
        ensures
            w == unicode::display_width(self@.lines[self@.row as int].take(cursor_char(self@))),
    {
        proof {
            use_type_invariant(self);
        }
        let cs = chars_of(self.lines[self.cursor_row].as_str());
        let k = self.char_at_cursor(&cs);
        let prefix = string_from_range(cs.as_slice(), 0, k);
        assert(prefix@ =~= cs@.take(k as int));
        str_width(prefix.as_str())
    }

    /// The character index of the cursor in `cs`, the current line.
    fn char_at_cursor(&self, cs: &Vec<char>) -> (k: usize)
        requires
            editor_wf(self@),
            cs@ == self@.lines[self@.row as int],
            on_boundary(self@),
        ensures
            k == cursor_char(self@),
            k <= cs@.len(),
            text::byte_len(cs@.take(k as int)) == self@.col,
    {
        match char_index_at_byte(cs.as_slice(), self.cursor_col) {
            Some(k) => {
                proof {
                    text::lemma_char_idx(cs@, k as int);
                }
                k
            },
            None => {
                assert(false);
                0
            },
        }
    }

    /// Insert a character at the cursor; the cursor moves past it.
    pub fn insert_char(&mut self, c: char)
        requires
            on_boundary(old(self)@),
        ensures
            final(self)@ == spec_insert_char(old(self)@, c),
            on_boundary(final(self)@),
    {
        proof {
            use_type_invariant(&*self);
        }
        let row = self.cursor_row;
        let cs = chars_of(self.lines[row].as_str());
        let k = self.char_at_cursor(&cs);
        let mut v = slice_to(&cs, 0, k);
        v.push(c);
        let tail = slice_to(&cs, k, cs.len());
        v.append(&mut tail.clone());
        let new_line = string_from_chars(v.as_slice());
        let n = str_len(new_line.as_str());
        proof {
            assert(v@ =~= cs@.take(k as int) + seq![c] + cs@.skip(k as int));
            text::lemma_byte_len_concat(cs@.take(k as int), seq![c]);
            text::lemma_byte_len_concat(cs@.take(k as int) + seq![c], cs@.skip(k as int));
            assert(seq![c].drop_last() =~= Seq::<char>::empty());
        }
        let col = self.cursor_col + utf8_len(c);
        let lines = replaced(&self.lines, row, new_line);
        proof {
            assert(v@.take(k + 1) =~= cs@.take(k as int) + seq![c]);
            text::lemma_byte_len_single(c);
            assert(text::byte_len(v@.take(k + 1)) == col);
        }
        *self = Self { lines, cursor_row: row, cursor_col: col };
    }

    /// Split the current line at the cursor; the cursor moves to the start
    /// of the new line.
    pub fn insert_newline(&mut self)
        requires
            on_boundary(old(self)@),
        ensures
            final(self)@ == spec_insert_newline(old(self)@),
            on_boundary(final(self)@),
    {
        proof {
            use_type_invariant(&*self);
        }
        let row = self.cursor_row;
        let cs = chars_of(self.lines[row].as_str());
        let k = self.char_at_cursor(&cs);
        let before = string_from_range(cs.as_slice(), 0, k);
        let after = string_from_range(cs.as_slice(), k, cs.len());
        proof {
            assert(cs@.subrange(0, k as int) =~= cs@.take(k as int));
            assert(cs@.subrange(k as int, cs@.len() as int) =~= cs@.skip(k as int));
            assert(text::byte_len(Seq::<char>::empty()) == 0);
        }
        let ins = vec![before, after];
        assert(text::views(ins@) =~= seq![cs@.take(k as int), cs@.skip(k as int)]);
        let lines = splice_lines(&self.lines, row, 1, ins);
        let _n = lines.len();
        proof {
            let nl = cs@.skip(k as int);
            assert(nl.take(0) =~= Seq::<char>::empty());
            assert(text::byte_len(nl.take(0)) == 0);
        }
        *self = Self { lines, cursor_row: row + 1, cursor_col: 0 };
    }

    /// Delete the character before the cursor (Backspace); at the start of a
    /// line, merge it into the previous line.
    pub fn backspace(&mut self)
        requires
            on_boundary(old(self)@),
        ensures
            final(self)@ == spec_backspace(old(self)@),
            on_boundary(final(self)@),
    {
        proof {
            use_type_invariant(&*self);
        }
        let row = self.cursor_row;
        if self.cursor_col > 0 {
            let cs = chars_of(self.lines[row].as_str());
            let k = self.char_at_cursor(&cs);
            assert(k > 0) by {
                if k == 0 {
                    assert(cs@.take(0) =~= Seq::<char>::empty());
                }
            }
            let v = without_char(&cs, k - 1);
            let new_line = string_from_chars(v.as_slice());
            let col = byte_offset_bounded(&cs, k - 1, self.cursor_col);
            proof {
                text::lemma_byte_len_concat(cs@.take(k - 1), cs@.skip(k as int));
                assert(v@.take(k - 1) =~= cs@.take(k - 1));
            }
            let lines = replaced(&self.lines, row, new_line);
            *self = Self { lines, cursor_row: row, cursor_col: col };
        } else if row > 0 {
            let ghost old_lines = self@.lines;
            let merged = concat_strings(&self.lines[row - 1], &self.lines[row]);
            let n = str_len(merged.as_str());
            let prev_len = str_len(self.lines[row - 1].as_str());
            proof {
                text::lemma_byte_len_concat(old_lines[row - 1], old_lines[row as int]);
                let m = old_lines[row - 1] + old_lines[row as int];
                assert(m.take(old_lines[row - 1].len() as int) =~= old_lines[row - 1]);
            }
            let ins = vec![merged];
            assert(text::views(ins@) =~= seq![old_lines[row - 1] + old_lines[row as int]]);
            let lines = splice_lines(&self.lines, row - 1, 2, ins);
            *self = Self { lines, cursor_row: row - 1, cursor_col: prev_len };
        }
    }

    /// Delete the character at the cursor (Delete); at the end of a line,
    /// merge the next line into it.
    pub fn delete(&mut self)
        requires
            on_boundary(old(self)@),
        ensures
            final(self)@ == spec_delete(old(self)@),
            on_boundary(final(self)@),
    {
        proof {
            use_type_invariant(&*self);
        }
        let row = self.cursor_row;
        let n = self.lines.len();
        let len = str_len(self.lines[row].as_str());
        if self.cursor_col < len {
            let cs = chars_of(self.lines[row].as_str());
            let k = self.char_at_cursor(&cs);
            assert(k < cs@.len()) by {
                if k == cs@.len() {
                    text::lemma_byte_len_take_all(cs@);
                }
            }
            let v = without_char(&cs, k);
            let new_line = string_from_chars(v.as_slice());
            proof {
                text::lemma_byte_len_concat(cs@.take(k as int), cs@.skip(k + 1));
                assert(cs@.take(k as int) + cs@.skip(k as int) =~= cs@);
                text::lemma_byte_len_concat(cs@.take(k as int), cs@.skip(k as int));
                assert(cs@.skip(k as int).drop_first() =~= cs@.skip(k + 1));
                lemma_byte_len_drop_first(cs@.skip(k as int));
                assert(v@.take(k as int) =~= cs@.take(k as int));
            }
            let lines = replaced(&self.lines, row, new_line);
            *self = Self { lines, cursor_row: row, cursor_col: self.cursor_col };
        } else if row + 1 < n {
            let ghost old_lines = self@.lines;
            let merged = concat_strings(&self.lines[row], &self.lines[row + 1]);
            let n = str_len(merged.as_str());
            proof {
                text::lemma_byte_len_concat(old_lines[row as int], old_lines[row + 1]);
                let m = old_lines[row as int] + old_lines[row + 1];
                assert(m.take(old_lines[row as int].len() as int) =~= old_lines[row as int]);
            }
            let ins = vec![merged];
            assert(text::views(ins@) =~= seq![old_lines[row as int] + old_lines[row + 1]]);
            let lines = splice_lines(&self.lines, row, 2, ins);
            *self = Self { lines, cursor_row: row, cursor_col: self.cursor_col };
        }
    }

    /// Move cursor left by one character, or to the end of the previous line.
    pub fn move_left(&mut self)
        requires
            on_boundary(old(self)@),
        ensures
            final(self)@ == spec_move_left(old(self)@),
    {
        proof {
            use_type_invariant(&*self);
        }
        let row = self.cursor_row;
        if self.cursor_col > 0 {
            let cs = chars_of(self.lines[row].as_str());
            let k = self.char_at_cursor(&cs);
            assert(k > 0) by {
                if k == 0 {
                    assert(cs@.take(0) =~= Seq::<char>::empty());
                }
            }
            let col = byte_offset_bounded(&cs, k - 1, self.cursor_col);
            self.cursor_col = col;
        } else if row > 0 {
            let len = str_len(self.lines[row - 1].as_str());
            self.cursor_row = row - 1;
            self.cursor_col = len;
        }
    }

    /// Move cursor right by one character, or to the start of the next line.
    pub fn move_right(&mut self)
        requires
            on_boundary(old(self)@),
        ensures
            final(self)@ == spec_move_right(old(self)@),
    {
        proof {
            use_type_invariant(&*self);
        }
        let row = self.cursor_row;
        let n = self.lines.len();
        let len = str_len(self.lines[row].as_str());
        if self.cursor_col < len {
            let cs = chars_of(self.lines[row].as_str());
            let k = self.char_at_cursor(&cs);
            assert(k < cs@.len()) by {
                if k == cs@.len() {
                    text::lemma_byte_len_take_all(cs@);
                }
            }
            proof {
                text::lemma_byte_len_take_step(cs@, k as int);
                text::lemma_byte_len_take_mono(cs@, k + 1, cs@.len() as int);
                text::lemma_byte_len_take_all(cs@);
            }
            self.cursor_col = self.cursor_col + utf8_len(cs[k]);
        } else if row + 1 < n {
            self.cursor_col = 0;
            self.cursor_row = row + 1;
        }
    }

    /// Move cursor up one line, keeping the column where the line allows.
    pub fn move_up(&mut self)
        ensures
            old(self)@.row > 0 ==> final(self)@ == (EditorView {
                row: (old(self)@.row - 1) as nat,
                col: clamp_col(old(self)@.col, text::byte_len(old(self)@.lines[old(self)@.row - 1])),
                ..old(self)@
            }),
            old(self)@.row == 0 ==> final(self)@ == old(self)@,
    {
        proof {
            use_type_invariant(&*self);
        }
        if self.cursor_row > 0 {
            let len = str_len(self.lines[self.cursor_row - 1].as_str());
            if len < self.cursor_col {
                self.cursor_col = len;
            }
            self.cursor_row = self.cursor_row - 1;
        }
    }

    /// Move cursor down one line, keeping the column where the line allows.
    pub fn move_down(&mut self)
        ensures
            old(self)@.row + 1 < old(self)@.lines.len() ==> final(self)@ == (EditorView {
                row: old(self)@.row + 1,
                col: clamp_col(old(self)@.col, text::byte_len(old(self)@.lines[old(self)@.row + 1int])),
                ..old(self)@
            }),
            old(self)@.row + 1 >= old(self)@.lines.len() ==> final(self)@ == old(self)@,
    {
        proof {
            use_type_invariant(&*self);
        }
        let n = self.lines.len();
        if self.cursor_row + 1 < n {
            let len = str_len(self.lines[self.cursor_row + 1].as_str());
            if len < self.cursor_col {
                self.cursor_col = len;
            }
            self.cursor_row = self.cursor_row + 1;
        }
    }

    /// Clamp the cursor column to the length of the current line.
    pub fn adjust_cursor_col(&mut self)
        ensures
            final(self)@ == (EditorView {
                col: clamp_col(old(self)@.col, text::byte_len(old(self)@.lines[old(self)@.row as int])),
                ..old(self)@
            }),
    {
        proof {
            use_type_invariant(&*self);
        }
        let len = str_len(self.lines[self.cursor_row].as_str());
        if len < self.cursor_col {
            self.cursor_col = len;
        }
    }

    /// Move cursor to start of line
    pub fn move_home(&mut self)
        ensures
            final(self)@ == (EditorView { col: 0, ..old(self)@ }),
    {
        proof {
            use_type_invariant(&*self);
        }
        self.cursor_col = 0;
    }

    /// Move cursor to end of line
    pub fn move_end(&mut self)
        ensures
            final(self)@ == (EditorView { col: text::byte_len(old(self)@.lines[old(self)@.row as int]), ..old(self)@ }),
    {
        proof {
            use_type_invariant(&*self);
        }
        let len = str_len(self.lines[self.cursor_row].as_str());
        self.cursor_col = len;
    }
}

impl Clone for TextEditor {
    fn clone(&self) -> (e: Self)
        ensures
            e@ == self@,
    {
        proof {
            use_type_invariant(self);
        }
        let lines = splice_lines(&self.lines, 0, 0, Vec::new());
        assert(lines@ =~= self.lines@);
        Self { lines, cursor_row: self.cursor_row, cursor_col: self.cursor_col }
    }
}

impl Default for TextEditor {
    fn default() -> (e: Self)
        ensures
            e@.lines == seq![Seq::<char>::empty()],
            e@.row == 0,
            e@.col == 0,
    {
        Self::new()
    }
}

/// A fresh vector holding `cs[lo..hi]`.
fn slice_to(cs: &Vec<char>, lo: usize, hi: usize) -> (r: Vec<char>)
    requires
        lo <= hi <= cs@.len(),
    ensures
        r@ == cs@.subrange(lo as int, hi as int),
{
    crate::tui::completion::command::slice_range(cs.as_slice(), lo, hi)
}

/// A copy of `lines` with line `row` replaced by `s`.
fn replaced(lines: &Vec<String>, row: usize, s: String) -> (r: Vec<String>)
    requires
        row < lines@.len(),
    ensures
        text::views(r@) == text::views(lines@).update(row as int, s@),
        r@.len() == lines@.len(),
{
    let r = splice_lines(lines, row, 1, vec![s]);
    assert(text::views(r@) =~= text::views(lines@).update(row as int, s@));
    r
}

/// A copy of `lines` with `remove` lines from `start` on replaced by `ins`.
fn splice_lines(lines: &Vec<String>, start: usize, remove: usize, ins: Vec<String>) -> (r: Vec<String>)
    requires
        start + remove <= lines@.len(),
    ensures
        r@ == lines@.take(start as int) + ins@ + lines@.skip(start + remove),
        text::views(r@) == text::views(lines@).take(start as int) + text::views(ins@) + text::views(
            lines@,
        ).skip(start + remove),
{
    let n = lines.len();
    let mut r: Vec<String> = Vec::new();
    let mut i: usize = 0;
    while i < start
        invariant
            i <= start,
            start + remove <= lines@.len(),
            r@ == lines@.take(i as int),
        decreases start - i,
    {
        r.push(lines[i].clone());
        i += 1;
        assert(r@ =~= lines@.take(i as int));
    }
    let mut ins = ins;
    let ghost ins0 = ins@;
    r.append(&mut ins);
    let mut j: usize = start + remove;
    while j < n
        invariant
            start + remove <= j <= lines@.len(),
            n == lines@.len(),
            r@ == lines@.take(start as int) + ins0 + lines@.subrange(start + remove, j as int),
        decreases lines@.len() - j,
    {
        r.push(lines[j].clone());
        j += 1;
        assert(r@ =~= lines@.take(start as int) + ins0 + lines@.subrange(start + remove, j as int));
    }
    assert(lines@.subrange(start + remove, lines@.len() as int) =~= lines@.skip(start + remove));
    assert(text::views(r@) =~= text::views(lines@).take(start as int) + text::views(ins0) + text::views(
        lines@,
    ).skip(start + remove));
    r
}

/// A new string holding `a` followed by `b`.
fn concat_strings(a: &String, b: &String) -> (s: String)
    ensures
        s@ == a@ + b@,
{
    let mut s = a.clone();
    crate::text::push_str(&mut s, b.as_str());
    s
}

/// The byte offset of character index `i` of `cs`, known to be below `bound`.
fn byte_offset_bounded(cs: &Vec<char>, i: usize, bound: usize) -> (n: usize)
    requires
        i < cs@.len(),
        text::byte_len(cs@.take(i + 1)) <= bound,
    ensures
        n == text::byte_len(cs@.take(i as int)),
        n < bound,
{
    proof {
        text::lemma_byte_len_take_step(cs@, i as int);
    }
    crate::text::byte_offset_of(cs.as_slice(), i)
}

proof fn lemma_byte_len_drop_first(s: Seq<char>)
    requires
        s.len() > 0,
    ensures
        text::byte_len(s) == text::char_len(s[0]) + text::byte_len(s.drop_first()),
{
    assert(s =~= seq![s[0]] + s.drop_first());
    text::lemma_byte_len_concat(seq![s[0]], s.drop_first());
    assert(seq![s[0]].drop_last() =~= Seq::<char>::empty());
    assert(text::byte_len(seq![s[0]]) == text::char_len(s[0])) by {
        reveal_with_fuel(text::byte_len, 2);
    }
}

} // verus!
