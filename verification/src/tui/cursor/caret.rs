//! Cursor over measured text: movement by grapheme, word and line,
//! selection, and the kill/yank commands.

use crate::text;
use crate::text::{byte_len, concat_all, lines_of, views};
use crate::tui::cursor::kill_ring::{KillDirection, KillRing, KillRingView, spec_push, spec_can_yank_pop, next_yank_index};
use crate::tui::cursor::measured::{
    MeasuredText,
    MeasuredView,
    display_column,
    display_ok,
    extent,
    first_line,
    first_wrapped,
    line_start,
    mt_lines,
    mt_wrapped,
    next_word_end,
    prev_word_start,
    text_before,
    text_from,
    lemma_extent_lines,
    lemma_extent_take_mono,
    lemma_extent_take_step,
};
use crate::unicode;
use crate::unicode::{display_width, graphemes};
use vstd::prelude::*;

verus! {

/// Cursor position information
#[derive(Debug, Clone)]
pub struct CursorPosition {
    /// Original line number (0-indexed)
    pub line: usize,
    /// Column in original line (grapheme offset)
    pub column: usize,
    /// Wrapped line number (0-indexed)
    pub wrapped_line: usize,
    /// Display column (visual width)
    pub display_column: usize,
    /// Byte offset in text
    pub byte_offset: usize,
}

/// Selection direction
pub enum SelectionDirection {
    /// Toward the start of the text.
    Backward,
    /// Toward the end of the text.
    Forward,
}

/// Cursor with selection support
pub struct Cursor {
    /// MeasuredText reference
    measured_text: MeasuredText,
    /// Byte offset in text
    offset: usize,
    /// Byte offset where the selection started; the selection runs between
    /// it and the offset
    anchor: usize,
}

/// Abstract cursor: the measured text, the byte offset and the selection
/// anchor relative to the offset.
pub struct CursorView {
    /// The measured text.
    pub text: MeasuredView,
    /// Byte offset in the text.
    pub offset: nat,
    /// Selection anchor relative to the offset: positive when the anchor lies
    /// ahead of the offset (a selection made backward), negative when it lies
    /// behind (made forward), zero when nothing is selected.
    pub selection: int,
}

impl View for Cursor {
    type V = CursorView;

    closed spec fn view(&self) -> CursorView {
        CursorView { text: self.measured_text@, offset: self.offset as nat, selection: self.anchor - self.offset }
    }
}

/// Where the selection begins: the lesser of the offset and the anchor.
pub open spec fn selection_start(v: CursorView) -> int {
    if v.selection < 0 {
        v.offset + v.selection
    } else {
        v.offset as int
    }
}

/// Where the selection ends: the greater of the offset and the anchor.
pub open spec fn selection_end(v: CursorView) -> int {
    if v.selection > 0 {
        v.offset + v.selection
    } else {
        v.offset as int
    }
}

/// The original line that holds `off`, 0 when none does.
pub open spec fn pos_line(v: MeasuredView, off: int) -> nat {
    match first_line(v, off) {
        Some(i) => i as nat,
        None => 0,
    }
}

/// Where that line starts in the one-newline layout.
pub open spec fn pos_line_start(v: MeasuredView, off: int) -> nat {
    if pos_line(v, off) < mt_lines(v).len() {
        line_start(mt_lines(v), pos_line(v, off) as int)
    } else {
        0
    }
}

/// The first line of the text from the line start on.
pub open spec fn pos_line_content(v: MeasuredView, off: int) -> Seq<char> {
    let rest = lines_of(text_from(v.text, pos_line_start(v, off) as int));
    if rest.len() > 0 {
        rest[0]
    } else {
        seq![]
    }
}

/// Where that line content is cut to count the column of `off`.
pub open spec fn pos_cut(v: MeasuredView, off: int) -> int {
    let rel = off - pos_line_start(v, off);
    if rel < byte_len(pos_line_content(v, off)) {
        rel
    } else {
        byte_len(pos_line_content(v, off)) as int
    }
}

/// Computing the position of `off` slices the text on character boundaries
/// (the slices would panic otherwise).
pub open spec fn position_ok(v: MeasuredView, off: int) -> bool {
    &&& text::is_boundary(v.text, pos_line_start(v, off) as int)
    &&& text::is_boundary(pos_line_content(v, off), pos_cut(v, off))
    &&& display_ok(v, off)
}

/// The grapheme column of `off` in its line.
pub open spec fn pos_column(v: MeasuredView, off: int) -> nat {
    graphemes(text_before(pos_line_content(v, off), pos_cut(v, off))).len()
}

/// The wrapped line that holds `off`, 0 when none does.
pub open spec fn pos_wrapped(v: MeasuredView, off: int) -> nat {
    match first_wrapped(v, off) {
        Some(i) => i as nat,
        None => 0,
    }
}

/// The offset one grapheme before `off`.
pub open spec fn prev_step(v: MeasuredView, off: int) -> nat {
    let gs = graphemes(text_before(v.text, off));
    if off <= 0 || gs.len() == 0 {
        off as nat
    } else {
        (off - byte_len(gs.last())) as nat
    }
}

/// The offset one grapheme after `off`, at most the end of the text.
pub open spec fn next_step(v: MeasuredView, off: int) -> nat {
    let gs = graphemes(text_from(v.text, off));
    if gs.len() == 0 {
        off as nat
    } else if off + byte_len(gs[0]) < byte_len(v.text) {
        (off + byte_len(gs[0])) as nat
    } else {
        byte_len(v.text)
    }
}

/// Bytes of the leading graphemes `gs` that fit within display column
/// `target`, starting at column `cur_w`.
pub open spec fn col_walk(gs: Seq<Seq<char>>, target: nat, cur_w: nat) -> nat
    decreases gs.len(),
{
    if gs.len() == 0 {
        0
    } else {
        let gw = display_width(gs[0]);
        if cur_w + gw > target {
            0
        } else {
            byte_len(gs[0]) + col_walk(gs.drop_first(), target, cur_w + gw)
        }
    }
}

/// The offset on line `l` closest to display column `col` from the left.
pub open spec fn offset_at_column(v: MeasuredView, l: int, col: nat) -> nat {
    line_start(mt_lines(v), l) + col_walk(graphemes(mt_lines(v)[l]), col, 0)
}

/// The text between byte boundaries `a` and `b`.
pub open spec fn text_between(s: Seq<char>, a: int, b: int) -> Seq<char> {
    s.subrange(text::char_idx(s, a), text::char_idx(s, b))
}

/// The end of the line that holds `off`.
pub open spec fn pos_line_end(v: MeasuredView, off: int) -> nat {
    pos_line_start(v, off) + byte_len(mt_lines(v)[pos_line(v, off) as int])
}

/// The first wrapped line to show so that the cursor's wrapped line sits
/// mid-viewport, as far as the text allows.
pub open spec fn viewport_start(wrapped: int, total: int, max: int) -> int {
    if max == 0 || total <= max {
        0
    } else {
        let half = max / 2;
        let start = if wrapped > half {
            wrapped - half
        } else {
            0
        };
        let end = if start + max < total {
            start + max
        } else {
            total
        };
        if end - start < max {
            total - max
        } else {
            start
        }
    }
}

/// The sum of the lengths of the first `n` lines plus one newline each.
fn lines_extent(lines: &[String], n: usize) -> (r: usize)
    requires
        n <= lines@.len(),
        extent(views(lines@)) <= usize::MAX,
    ensures
        r == extent(views(lines@).take(n as int)),
{
    let ghost ls = views(lines@);
    let mut acc: usize = 0;
    let mut i: usize = 0;
    assert(ls.take(0) =~= Seq::<Seq<char>>::empty());
    while i < n
        invariant
            i <= n <= lines@.len(),
            ls == views(lines@),
            extent(ls) <= usize::MAX,
            acc == extent(ls.take(i as int)),
        decreases n - i,
    {
        proof {
            lemma_extent_take_step(ls, i as int);
            lemma_extent_take_mono(ls, i + 1, ls.len() as int);
            assert(ls.take(ls.len() as int) =~= ls);
        }
        acc = acc + text::str_len(lines[i].as_str()) + 1;
        i += 1;
    }
    acc
}

/// The text of `s` between byte boundaries `a <= b`.
fn slice_text(s: &str, a: usize, b: usize) -> (r: String)
    requires
        text::is_boundary(s@, a as int),
        text::is_boundary(s@, b as int),
        a <= b,
    ensures
        r@ == text_between(s@, a as int, b as int),
{
    let cs = text::chars_of(s);
    let i = match text::char_index_at_byte(cs.as_slice(), a) {
        Some(i) => i,
        None => {
            assert(false);
            0
        },
    };
    let j = match text::char_index_at_byte(cs.as_slice(), b) {
        Some(j) => j,
        None => {
            assert(false);
            0
        },
    };
    proof {
        text::lemma_char_idx(cs@, i as int);
        text::lemma_char_idx(cs@, j as int);
        if j < i {
            text::lemma_byte_len_take_mono(cs@, j as int, i as int);
        }
    }
    text::string_from_range(cs.as_slice(), i, j)
}

/// Byte length of the leading graphemes of `line` that fit within display
/// column `target`.
fn walk_to_column(line: &String, target: usize) -> (n: usize)
    ensures
        n == col_walk(graphemes(line@), target as nat, 0),
        n <= byte_len(line@),
{
    let gs = unicode::grapheme_clusters(line.as_str());
    let ghost g = views(gs@);
    let n_line = text::str_len(line.as_str());
    let mut current_width: usize = 0;
    let mut acc: usize = 0;
    let mut k: usize = 0;
    assert(g.take(0) =~= Seq::<Seq<char>>::empty());
    assert(g.skip(0) =~= g);
    while k < gs.len()
        invariant
            k <= gs@.len(),
            g == views(gs@),
            g == graphemes(line@),
            concat_all(g) == line@,
            n_line == byte_len(line@),
            n_line <= isize::MAX,
            current_width <= target,
            acc == byte_len(concat_all(g.take(k as int))),
            col_walk(g, target as nat, 0) == acc + col_walk(g.skip(k as int), target as nat, current_width as nat),
        decreases gs@.len() - k,
    {
        let ghost rest = g.skip(k as int);
        assert(rest[0] == g[k as int]);
        assert(rest.drop_first() =~= g.skip(k + 1));
        proof {
            text::lemma_concat_all_take_step(g, k as int);
            text::lemma_concat_all_take_bound(g, k + 1);
            assert(g.take(g.len() as int) =~= g);
        }
        let gw = unicode::str_width(gs[k].as_str());
        if gw > target - current_width {
            return acc;
        }
        acc = acc + text::str_len(gs[k].as_str());
        current_width = current_width + gw;
        k += 1;
    }
    assert(g.skip(k as int) =~= Seq::<Seq<char>>::empty());
    assert(g.take(k as int) =~= g);
    acc
}

impl Cursor {
    #[verifier::type_invariant]
    spec fn inv(self) -> bool {
        &&& self.offset <= byte_len(self.measured_text@.text)
        &&& self.anchor <= byte_len(self.measured_text@.text)
    }

    /// Create new cursor at offset 0
    pub fn new(measured_text: MeasuredText) -> (c: Self)
        ensures
            c@ == (CursorView { text: measured_text@, offset: 0, selection: 0 }),
    {
        Self { measured_text, offset: 0, anchor: 0 }
    }

    /// Create cursor at specific offset
    pub fn at_offset(measured_text: MeasuredText, offset: usize) -> (c: Self)
        ensures
            c@ == (CursorView {
                text: measured_text@,
                offset: if offset < byte_len(measured_text@.text) {
                    offset as nat
                } else {
                    byte_len(measured_text@.text)
                },
                selection: 0,
            }),
    {
        let len = measured_text.len();
        let offset = if offset < len {
            offset
        } else {
            len
        };
        Self { measured_text, offset, anchor: offset }
    }

    /// Create cursor from text string
    pub fn from_text(text: String, columns: usize, offset: usize) -> (c: Self)
        ensures
            c@.text == (MeasuredView { text: unicode::nfc(text@), columns: columns as nat }),
            c@.offset == if offset < byte_len(unicode::nfc(text@)) {
                offset as nat
            } else {
                byte_len(unicode::nfc(text@))
            },
            c@.selection == 0,
    {
        let mt = MeasuredText::new(text, columns);
        Self::at_offset(mt, offset)
    }

    /// Get current byte offset
    pub fn offset(&self) -> (o: usize)
        ensures
            o == self@.offset,
            o <= byte_len(self@.text.text),
    {
        proof {
            use_type_invariant(self);
        }
        self.offset
    }

    /// Size of the selection in bytes: the distance from the offset to the
    /// anchor
    pub fn selection(&self) -> (s: usize)
        ensures
            s == selection_end(self@) - selection_start(self@),
    {
        if self.anchor < self.offset {
            self.offset - self.anchor
        } else {
            self.anchor - self.offset
        }
    }

    /// Check if there's an active selection
    pub fn has_selection(&self) -> (b: bool)
        ensures
            b == (self@.selection != 0),
    {
        self.anchor != self.offset
    }

    /// Get selection range (start, end): from the lesser of the offset and the
    /// anchor to the greater
    pub fn selection_range(&self) -> (r: Option<(usize, usize)>)
        ensures
            self@.selection == 0 ==> r is None,
            self@.selection != 0 ==> r == Some((selection_start(self@) as usize, selection_end(self@) as usize)),
    {
        if self.anchor == self.offset {
            None
        } else if self.anchor < self.offset {
            Some((self.anchor, self.offset))
        } else {
            Some((self.offset, self.anchor))
        }
    }

    /// Get selected text
    pub fn selected_text(&self) -> (r: Option<String>)
        requires
            self@.selection != 0 ==> text::is_boundary(self@.text.text, selection_start(self@)) && text::is_boundary(
                self@.text.text,
                selection_end(self@),
            ),
        ensures
            self@.selection == 0 ==> r is None,
            self@.selection != 0 ==> (r matches Some(t) && t@ == text_between(
                self@.text.text,
                selection_start(self@),
                selection_end(self@),
            )),
    {
        proof {
            use_type_invariant(self);
        }
        match self.selection_range() {
            Some((start, end)) => Some(slice_text(self.measured_text.text(), start, end)),
            None => None,
        }
    }

    /// Get current position
    pub fn position(&self) -> (p: CursorPosition)
        requires
            position_ok(self@.text, self@.offset as int),
        ensures
            p.line == pos_line(self@.text, self@.offset as int),
            p.column == pos_column(self@.text, self@.offset as int),
            p.wrapped_line == pos_wrapped(self@.text, self@.offset as int),
            p.display_column == display_column(self@.text, self@.offset as int),
            p.byte_offset == self@.offset,
    {
        proof {
            use_type_invariant(self);
            lemma_extent_lines(self@.text.text);
        }
        let _text_len = self.measured_text.len();
        let ghost v = self@.text;
        let ghost off = self.offset as int;
        let wrapped_line = match self.measured_text.find_wrapped_line_at_offset(self.offset) {
            Some(i) => i,
            None => 0,
        };
        let line = match self.measured_text.find_original_line_at_offset(self.offset) {
            Some(i) => i,
            None => 0,
        };
        proof {
            text::lemma_first_from(0, mt_lines(v).len() as int, crate::tui::cursor::measured::line_hit(mt_lines(v), off));
        }
        let lines = self.measured_text.original_lines();
        let line_start = if line < lines.len() {
            lines_extent(lines, line)
        } else {
            0
        };
        assert(line_start <= self.offset) by {
            if first_line(v, off) is None && line < mt_lines(v).len() {
                assert(mt_lines(v).take(0) =~= Seq::<Seq<char>>::empty());
            }
        }
        let cs = text::chars_of(self.measured_text.text());
        let k = match text::char_index_at_byte(cs.as_slice(), line_start) {
            Some(k) => k,
            None => {
                assert(false);
                0
            },
        };
        proof {
            text::lemma_char_idx(cs@, k as int);
        }
        let rest = text::string_from_range(cs.as_slice(), k, cs.len());
        assert(rest@ =~= text_from(v.text, line_start as int));
        let rest_lines = text::split_lines(rest.as_str());
        let line_content = if rest_lines.len() > 0 {
            rest_lines[0].clone()
        } else {
            String::new()
        };
        assert(line_content@ == pos_line_content(v, off));
        let lc_len = text::str_len(line_content.as_str());
        let relative = self.offset - line_start;
        let cut = if relative < lc_len {
            relative
        } else {
            lc_len
        };
        let lcs = text::chars_of(line_content.as_str());
        let k2 = match text::char_index_at_byte(lcs.as_slice(), cut) {
            Some(k2) => k2,
            None => {
                assert(false);
                0
            },
        };
        proof {
            text::lemma_char_idx(lcs@, k2 as int);
        }
        let prefix = text::string_from_range(lcs.as_slice(), 0, k2);
        assert(prefix@ =~= text_before(pos_line_content(v, off), pos_cut(v, off)));
        let column = unicode::grapheme_clusters(prefix.as_str()).len();
        let display_column = self.measured_text.get_display_column_at_offset(self.offset);
        CursorPosition { line, column, wrapped_line, display_column, byte_offset: self.offset }
    }

    /// Move cursor to previous grapheme
    pub fn move_prev(&mut self)
        requires
            old(self)@.offset == 0 || text::is_boundary(old(self)@.text.text, old(self)@.offset as int),
        ensures
            final(self)@ == (CursorView {
                offset: prev_step(old(self)@.text, old(self)@.offset as int),
                selection: 0,
                ..old(self)@
            }),
    {
        proof {
            use_type_invariant(&*self);
        }
        if let Some(prev_g) = self.measured_text.prev_grapheme_at_offset(self.offset) {
            let n = text::str_len(prev_g.as_str());
            self.offset = self.offset - n;
        }
        self.anchor = self.offset;
    }

    /// Move cursor to next grapheme
    pub fn move_next(&mut self)
        requires
            text::is_boundary(old(self)@.text.text, old(self)@.offset as int),
        ensures
            final(self)@ == (CursorView {
                offset: next_step(old(self)@.text, old(self)@.offset as int),
                selection: 0,
                ..old(self)@
            }),
    {
        proof {
            use_type_invariant(&*self);
        }
        if let Some(next_g) = self.measured_text.grapheme_at_offset(self.offset) {
            let n = text::str_len(next_g.as_str());
            let len = self.measured_text.len();
            let next = self.offset + n;
            self.offset = if next < len {
                next
            } else {
                len
            };
        }
        self.anchor = self.offset;
    }

    /// Move cursor to previous word
    pub fn move_prev_word(&mut self)
        ensures
            final(self)@ == (CursorView {
                offset: prev_word_start(old(self)@.text.text, old(self)@.offset as int),
                selection: 0,
                ..old(self)@
            }),
    {
        proof {
            use_type_invariant(&*self);
        }
        self.offset = self.measured_text.find_prev_word_start(self.offset);
        self.anchor = self.offset;
    }

    /// Move cursor to next word
    pub fn move_next_word(&mut self)
        ensures
            final(self)@ == (CursorView {
                offset: next_word_end(old(self)@.text.text, old(self)@.offset as int),
                selection: 0,
                ..old(self)@
            }),
    {
        proof {
            use_type_invariant(&*self);
        }
        self.offset = self.measured_text.find_next_word_end(self.offset);
        self.anchor = self.offset;
    }

    /// Start and end of the original line `l`, which exists.
    fn line_bounds(&self, l: usize) -> (r: (usize, usize))
        requires
            l < mt_lines(self@.text).len(),
        ensures
            r.0 == line_start(mt_lines(self@.text), l as int),
            r.1 == r.0 + byte_len(mt_lines(self@.text)[l as int]),
            r.1 <= byte_len(self@.text.text),
    {
        let _text_len = self.measured_text.len();
        proof {
            lemma_extent_lines(self@.text.text);
            lemma_extent_take_mono(mt_lines(self@.text), l as int, mt_lines(self@.text).len() as int);
            assert(mt_lines(self@.text).take(mt_lines(self@.text).len() as int) =~= mt_lines(self@.text));
        }
        let lines = self.measured_text.original_lines();
        let start = lines_extent(lines, l);
        let len = text::str_len(lines[l].as_str());
        (start, start + len)
    }

    /// Move cursor to line start
    pub fn move_line_start(&mut self)
        requires
            position_ok(old(self)@.text, old(self)@.offset as int),
        ensures
            final(self)@ == (CursorView {
                offset: if pos_line(old(self)@.text, old(self)@.offset as int) < mt_lines(old(self)@.text).len() {
                    pos_line_start(old(self)@.text, old(self)@.offset as int)
                } else {
                    old(self)@.offset
                },
                selection: 0,
                ..old(self)@
            }),
    {
        proof {
            use_type_invariant(&*self);
        }
        let pos = self.position();
        if pos.line < self.measured_text.original_line_count() {
            let (start, _end) = self.line_bounds(pos.line);
            self.offset = start;
        }
        self.anchor = self.offset;
    }

    /// Move cursor to line end
    pub fn move_line_end(&mut self)
        requires
            position_ok(old(self)@.text, old(self)@.offset as int),
        ensures
            final(self)@ == (CursorView {
                offset: if pos_line(old(self)@.text, old(self)@.offset as int) < mt_lines(old(self)@.text).len() {
                    pos_line_end(old(self)@.text, old(self)@.offset as int)
                } else {
                    old(self)@.offset
                },
                selection: 0,
                ..old(self)@
            }),
    {
        proof {
            use_type_invariant(&*self);
        }
        let pos = self.position();
        if pos.line < self.measured_text.original_line_count() {
            let (_start, end) = self.line_bounds(pos.line);
            self.offset = end;
        }
        self.anchor = self.offset;
    }

    /// Move cursor up one line, keeping the display column as far as the
    /// line above allows.
    pub fn move_up(&mut self)
        requires
            position_ok(old(self)@.text, old(self)@.offset as int),
        ensures
            final(self)@ == (CursorView {
                offset: if pos_line(old(self)@.text, old(self)@.offset as int) > 0 {
                    offset_at_column(
                        old(self)@.text,
                        pos_line(old(self)@.text, old(self)@.offset as int) - 1,
                        display_column(old(self)@.text, old(self)@.offset as int),
                    )
                } else {
                    old(self)@.offset
                },
                selection: 0,
                ..old(self)@
            }),
    {
        proof {
            use_type_invariant(&*self);
        }
        let pos = self.position();
        if pos.line > 0 {
            proof {
                text::lemma_first_from(
                    0,
                    mt_lines(self@.text).len() as int,
                    crate::tui::cursor::measured::line_hit(mt_lines(self@.text), self@.offset as int),
                );
            }
            let prev_line = pos.line - 1;
            let (start, end) = self.line_bounds(prev_line);
            let walked = walk_to_column(&self.measured_text.original_lines()[prev_line], pos.display_column);
            self.offset = start + walked;
        }
        self.anchor = self.offset;
    }

    /// Move cursor down one line, keeping the display column as far as the
    /// line below allows.
    pub fn move_down(&mut self)
        requires
            position_ok(old(self)@.text, old(self)@.offset as int),
        ensures
            final(self)@ == (CursorView {
                offset: if pos_line(old(self)@.text, old(self)@.offset as int) + 1 < mt_lines(old(self)@.text).len() {
                    offset_at_column(
                        old(self)@.text,
                        pos_line(old(self)@.text, old(self)@.offset as int) + 1int,
                        display_column(old(self)@.text, old(self)@.offset as int),
                    )
                } else {
                    old(self)@.offset
                },
                selection: 0,
                ..old(self)@
            }),
    {
        proof {
            use_type_invariant(&*self);
        }
        let pos = self.position();
        let count = self.measured_text.original_line_count();
        if pos.line < count && pos.line + 1 < count {
            let next_line = pos.line + 1;
            let (start, end) = self.line_bounds(next_line);
            let walked = walk_to_column(&self.measured_text.original_lines()[next_line], pos.display_column);
            self.offset = start + walked;
        }
        self.anchor = self.offset;
    }

    /// Move cursor to text start
    pub fn move_start(&mut self)
        ensures
            final(self)@ == (CursorView { offset: 0, selection: 0, ..old(self)@ }),
    {
        proof {
            use_type_invariant(&*self);
        }
        self.offset = 0;
        self.anchor = self.offset;
    }

    /// Move cursor to text end
    pub fn move_end(&mut self)
        ensures
            final(self)@ == (CursorView { offset: byte_len(old(self)@.text.text), selection: 0, ..old(self)@ }),
    {
        proof {
            use_type_invariant(&*self);
        }
        self.offset = self.measured_text.len();
        self.anchor = self.offset;
    }
}

} // verus!

verus! {

impl Cursor {
    /// Kill line from cursor to end (Ctrl+K): the killed text is appended to
    /// the kill ring and returned; the text itself is left to the caller.
    pub fn kill_line(&mut self, kill_ring: &mut KillRing) -> (killed: String)
        requires
            position_ok(old(self)@.text, old(self)@.offset as int),
            pos_line(old(self)@.text, old(self)@.offset as int) < mt_lines(old(self)@.text).len() ==> {
                &&& old(self)@.offset <= pos_line_end(old(self)@.text, old(self)@.offset as int)
                &&& text::is_boundary(old(self)@.text.text, old(self)@.offset as int)
                &&& text::is_boundary(
                    old(self)@.text.text,
                    pos_line_end(old(self)@.text, old(self)@.offset as int) as int,
                )
            },
        ensures
            final(self)@ == old(self)@,
            pos_line(old(self)@.text, old(self)@.offset as int) < mt_lines(old(self)@.text).len() ==> {
                &&& killed@ == text_between(
                    old(self)@.text.text,
                    old(self)@.offset as int,
                    pos_line_end(old(self)@.text, old(self)@.offset as int) as int,
                )
                &&& final(kill_ring)@ == spec_push(old(kill_ring)@, killed@, KillDirection::Append)
            },
            pos_line(old(self)@.text, old(self)@.offset as int) >= mt_lines(old(self)@.text).len() ==> {
                &&& killed@ == Seq::<char>::empty()
                &&& final(kill_ring)@ == old(kill_ring)@
            },
    {
        let pos = self.position();
        if pos.line < self.measured_text.original_line_count() {
            let (_start, line_end) = self.line_bounds(pos.line);
            let killed = slice_text(self.measured_text.text(), self.offset, line_end);
            kill_ring.push(killed.clone(), KillDirection::Append);
            killed
        } else {
            String::new()
        }
    }

    /// Kill line from start to cursor (Ctrl+U): the killed text is prepended
    /// to the kill ring and returned.
    pub fn kill_line_backward(&mut self, kill_ring: &mut KillRing) -> (killed: String)
        requires
            position_ok(old(self)@.text, old(self)@.offset as int),
            pos_line(old(self)@.text, old(self)@.offset as int) < mt_lines(old(self)@.text).len() ==> {
                &&& pos_line_start(old(self)@.text, old(self)@.offset as int) <= old(self)@.offset
                &&& text::is_boundary(old(self)@.text.text, old(self)@.offset as int)
            },
        ensures
            final(self)@ == old(self)@,
            pos_line(old(self)@.text, old(self)@.offset as int) < mt_lines(old(self)@.text).len() ==> {
                &&& killed@ == text_between(
                    old(self)@.text.text,
                    pos_line_start(old(self)@.text, old(self)@.offset as int) as int,
                    old(self)@.offset as int,
                )
                &&& final(kill_ring)@ == spec_push(old(kill_ring)@, killed@, KillDirection::Prepend)
            },
            pos_line(old(self)@.text, old(self)@.offset as int) >= mt_lines(old(self)@.text).len() ==> {
                &&& killed@ == Seq::<char>::empty()
                &&& final(kill_ring)@ == old(kill_ring)@
            },
    {
        let pos = self.position();
        if pos.line < self.measured_text.original_line_count() {
            let (line_start, _end) = self.line_bounds(pos.line);
            let killed = slice_text(self.measured_text.text(), line_start, self.offset);
            kill_ring.push(killed.clone(), KillDirection::Prepend);
            killed
        } else {
            String::new()
        }
    }

    /// Kill word backward (Ctrl+W): the text from the previous word start to
    /// the cursor is prepended to the kill ring and returned.
    pub fn kill_word_backward(&mut self, kill_ring: &mut KillRing) -> (killed: String)
        requires
            text::is_boundary(old(self)@.text.text, old(self)@.offset as int),
        ensures
            final(self)@ == old(self)@,
            killed@ == text_between(
                old(self)@.text.text,
                prev_word_start(old(self)@.text.text, old(self)@.offset as int) as int,
                old(self)@.offset as int,
            ),
            final(kill_ring)@ == spec_push(old(kill_ring)@, killed@, KillDirection::Prepend),
    {
        let word_start = self.measured_text.find_prev_word_start(self.offset);
        let killed = slice_text(self.measured_text.text(), word_start, self.offset);
        kill_ring.push(killed.clone(), KillDirection::Prepend);
        killed
    }

    /// Yank from kill ring (Ctrl+Y): the most recent kill.
    pub fn yank(&mut self, kill_ring: &KillRing) -> (r: Option<String>)
        ensures
            final(self)@ == old(self)@,
            kill_ring@.items.len() == 0 ==> r is None,
            kill_ring@.items.len() > 0 ==> (r matches Some(t) && t@ == kill_ring@.items[0]),
    {
        match kill_ring.get_last() {
            Some(t) => Some(t.clone()),
            None => None,
        }
    }

    /// Yank pop - cycle kill ring (Alt+Y)
    pub fn yank_pop(&mut self, kill_ring: &mut KillRing) -> (r: Option<String>)
        ensures
            final(self)@ == old(self)@,
            !spec_can_yank_pop(old(kill_ring)@) ==> r is None && final(kill_ring)@ == old(kill_ring)@,
            spec_can_yank_pop(old(kill_ring)@) ==> {
                &&& final(kill_ring)@ == (KillRingView {
                    yank_index: next_yank_index(old(kill_ring)@),
                    ..old(kill_ring)@
                })
                &&& r matches Some(t)
                &&& t@ == old(kill_ring)@.items[next_yank_index(old(kill_ring)@) as int]
            },
    {
        match kill_ring.yank_pop() {
            Some((text, _start, _length)) => Some(text),
            None => None,
        }
    }

    /// Set selection anchor
    pub fn start_selection(&mut self)
        ensures
            final(self)@ == (CursorView { selection: 0, ..old(self)@ }),
    {
        proof {
            use_type_invariant(&*self);
        }
        self.anchor = self.offset;
    }

    /// Extend selection in direction, by one grapheme: the offset moves over
    /// it and the anchor stays, so the selection covers what was passed over.
    pub fn extend_selection(&mut self, direction: SelectionDirection)
        requires
            old(self)@.offset == 0 || text::is_boundary(old(self)@.text.text, old(self)@.offset as int),
        ensures
            final(self)@.text == old(self)@.text,
            final(self)@.offset + final(self)@.selection == old(self)@.offset + old(self)@.selection,
            match direction {
                SelectionDirection::Backward => final(self)@.offset == prev_step(
                    old(self)@.text,
                    old(self)@.offset as int,
                ),
                SelectionDirection::Forward => {
                    let gs = graphemes(text_from(old(self)@.text.text, old(self)@.offset as int));
                    &&& gs.len() == 0 ==> final(self)@ == old(self)@
                    &&& gs.len() > 0 ==> final(self)@.offset == old(self)@.offset + byte_len(gs[0])
                },
            },
    {
        proof {
            use_type_invariant(&*self);
        }
        match direction {
            SelectionDirection::Backward => {
                if self.offset > 0 {
                    if let Some(prev_g) = self.measured_text.prev_grapheme_at_offset(self.offset) {
                        let n = text::str_len(prev_g.as_str());
                        self.offset = self.offset - n;
                    }
                }
            },
            SelectionDirection::Forward => {
                proof {
                    if self.offset == 0 {
                        text::lemma_char_idx(self@.text.text, 0);
                        assert(self@.text.text.take(0) =~= Seq::<char>::empty());
                    }
                }
                let len = self.measured_text.len();
                if let Some(next_g) = self.measured_text.grapheme_at_offset(self.offset) {
                    let n = text::str_len(next_g.as_str());
                    assert(self.offset + n <= len);
                    self.offset = self.offset + n;
                }
            },
        }
    }

    /// Clear selection
    pub fn clear_selection(&mut self)
        ensures
            final(self)@ == (CursorView { selection: 0, ..old(self)@ }),
    {
        proof {
            use_type_invariant(&*self);
        }
        self.anchor = self.offset;
    }

    /// Update measured text (after edit): same columns, offset clamped to the
    /// new text, selection cleared.
    pub fn update_text(&mut self, text: String)
        ensures
            final(self)@.text == (MeasuredView { text: unicode::nfc(text@), columns: old(self)@.text.columns }),
            final(self)@.offset == if old(self)@.offset < byte_len(unicode::nfc(text@)) {
                old(self)@.offset
            } else {
                byte_len(unicode::nfc(text@))
            },
            final(self)@.selection == 0,
    {
        let columns = self.measured_text.columns();
        let mt = MeasuredText::new(text, columns);
        let len = mt.len();
        let offset = if self.offset < len {
            self.offset
        } else {
            len
        };
        *self = Cursor { measured_text: mt, offset, anchor: offset };
    }

    /// Get display width at cursor
    pub fn display_width(&self) -> (w: usize)
        requires
            position_ok(self@.text, self@.offset as int),
        ensures
            w == display_column(self@.text, self@.offset as int),
    {
        self.position().display_column
    }

    /// Get wrapped line index
    pub fn wrapped_line(&self) -> (l: usize)
        requires
            position_ok(self@.text, self@.offset as int),
        ensures
            l == pos_wrapped(self@.text, self@.offset as int),
    {
        self.position().wrapped_line
    }

    /// Get viewport start line for max visible lines
    pub fn get_viewport_start_line(&self, max_visible_lines: usize) -> (s: usize)
        requires
            position_ok(self@.text, self@.offset as int),
        ensures
            s == viewport_start(
                pos_wrapped(self@.text, self@.offset as int) as int,
                mt_wrapped(self@.text).len() as int,
                max_visible_lines as int,
            ),
    {
        if max_visible_lines == 0 {
            return 0;
        }
        let wrapped_line = self.wrapped_line();
        let total_lines = self.measured_text.wrapped_line_count();
        if total_lines <= max_visible_lines {
            return 0;
        }
        let half = max_visible_lines / 2;
        let start = if wrapped_line > half {
            wrapped_line - half
        } else {
            0
        };
        if start > total_lines - max_visible_lines {
            return total_lines - max_visible_lines;
        }
        start
    }

    /// Clone with new measured text
    pub fn clone_with_text(&self, text: String) -> (c: Self)
        ensures
            c@.text == (MeasuredView { text: unicode::nfc(text@), columns: self@.text.columns }),
            c@.offset == if self@.offset < byte_len(unicode::nfc(text@)) {
                self@.offset
            } else {
                byte_len(unicode::nfc(text@))
            },
            c@.selection == 0,
    {
        let columns = self.measured_text.columns();
        let mt = MeasuredText::new(text, columns);
        let len = mt.len();
        let offset = if self.offset < len {
            self.offset
        } else {
            len
        };
        Self::at_offset(mt, offset)
    }
}

} // verus!
