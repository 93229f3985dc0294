//! MeasuredText: NFC-normalized text with its original lines, its lines
//! wrapped to the terminal width, and grapheme and word lookups by byte
//! offset.
//!
//! Text processing flow:
//! 1. User input (raw text, potentially mixed NFD/NFC)
//! 2. MeasuredText normalizes to NFC + builds line and wrap information
//! 3. All cursor operations use normalized text/offsets
//! 4. Display uses normalized text from wrapped_lines

use crate::text;
use crate::text::{byte_len, concat_all, find_chars, first_from, first_occurrence, last_below, lines_of, occurs_at, views};
use crate::unicode;
use crate::unicode::{display_width, graphemes, word_bounds};
use vstd::prelude::*;

verus! {

/// The grapheme offset of byte offset `b` in `t`: how many clusters the text
/// before `b` segments into.
pub open spec fn grapheme_offset_of(t: Seq<char>, b: int) -> nat {
    graphemes(text::prefix_upto(t, b)).len()
}

/// The byte offset of grapheme offset `k` in `t`: the bytes of the first `k`
/// clusters of `t`, or of all of them when there are fewer.
pub open spec fn byte_offset_of(t: Seq<char>, k: nat) -> nat {
    let gs = graphemes(t);
    byte_len(concat_all(gs.take(if k < gs.len() { k as int } else { gs.len() as int })))
}

/// Wrapped line information
#[derive(Debug, Clone)]
pub struct WrappedLine {
    /// Original line number (0-indexed)
    pub original_line: usize,
    /// Start byte offset in original text
    pub start_offset: usize,
    /// End byte offset in original text
    pub end_offset: usize,
    /// Display text (may be wrapped from original)
    pub display_text: String,
    /// Display width (columns)
    pub width: usize,
}

/// Abstract wrapped line.
pub struct WrappedView {
    /// Original line number.
    pub original_line: nat,
    /// Start byte offset.
    pub start: nat,
    /// End byte offset.
    pub end: nat,
    /// Display text.
    pub text: Seq<char>,
    /// Display width.
    pub width: nat,
}

impl View for WrappedLine {
    type V = WrappedView;

    open spec fn view(&self) -> WrappedView {
        WrappedView {
            original_line: self.original_line as nat,
            start: self.start_offset as nat,
            end: self.end_offset as nat,
            text: self.display_text@,
            width: self.width as nat,
        }
    }
}

/// The views of a sequence of wrapped lines.
pub open spec fn wrapped_views(ws: Seq<WrappedLine>) -> Seq<WrappedView> {
    ws.map_values(|w: WrappedLine| w@)
}

/// Bytes that `ls` takes laid out one per line, each followed by a newline.
pub open spec fn extent(ls: Seq<Seq<char>>) -> nat
    decreases ls.len(),
{
    if ls.len() == 0 {
        0
    } else {
        extent(ls.drop_last()) + byte_len(ls.last()) + 1
    }
}

/// The byte offset at which line `i` starts in that layout.
pub open spec fn line_start(ls: Seq<Seq<char>>, i: int) -> nat {
    extent(ls.take(i))
}

/// A wrapped segment.
pub open spec fn segment(idx: nat, start: nat, end: nat, t: Seq<char>, w: nat) -> WrappedView {
    WrappedView { original_line: idx, start, end, text: t, width: w }
}

/// The segments of a line too wide for `columns`, from the graphemes `gs`
/// still to place on: the open segment began `cur_start` bytes into the line,
/// holds `cur` and is `cur_w` columns wide. A grapheme that does not fit
/// closes the open segment and opens the next; the last open segment runs
/// to the end of the line.
pub open spec fn wrap_segs(
    idx: nat,
    base: nat,
    gs: Seq<Seq<char>>,
    columns: nat,
    cur_start: nat,
    cur: Seq<char>,
    cur_w: nat,
    line_len: nat,
) -> Seq<WrappedView>
    decreases gs.len(),
{
    if gs.len() == 0 {
        if cur.len() > 0 {
            seq![segment(idx, base + cur_start, base + line_len, cur, cur_w)]
        } else {
            seq![]
        }
    } else {
        let g = gs[0];
        let gw = display_width(g);
        if cur_w + gw > columns {
            seq![segment(idx, base + cur_start, base + cur_start + byte_len(cur), cur, cur_w)] + wrap_segs(
                idx,
                base,
                gs.drop_first(),
                columns,
                cur_start + byte_len(cur),
                g,
                gw,
                line_len,
            )
        } else {
            wrap_segs(idx, base, gs.drop_first(), columns, cur_start, cur + g, cur_w + gw, line_len)
        }
    }
}

/// The wrapped lines of line `idx`, which starts at byte `base`. With no
/// column limit (zero columns), or where it fits, the line is kept whole.
pub open spec fn wrap_line(idx: nat, line: Seq<char>, base: nat, columns: nat) -> Seq<WrappedView> {
    if columns == 0 || display_width(line) <= columns {
        seq![segment(idx, base, base + byte_len(line), line, display_width(line))]
    } else {
        wrap_segs(idx, base, graphemes(line), columns, 0, seq![], 0, byte_len(line))
    }
}

/// The wrapped lines of all lines `ls`.
pub open spec fn wrap_all(ls: Seq<Seq<char>>, columns: nat) -> Seq<WrappedView>
    decreases ls.len(),
{
    if ls.len() == 0 {
        seq![]
    } else {
        wrap_all(ls.drop_last(), columns) + wrap_line(
            (ls.len() - 1) as nat,
            ls.last(),
            extent(ls.drop_last()),
            columns,
        )
    }
}

/// Abstract measured text: the normalized text and the wrapping width.
pub struct MeasuredView {
    /// NFC normalized text.
    pub text: Seq<char>,
    /// Terminal columns (0: no wrapping).
    pub columns: nat,
}

/// The original lines of the text.
pub open spec fn mt_lines(v: MeasuredView) -> Seq<Seq<char>> {
    lines_of(v.text)
}

/// The wrapped lines of the text.
pub open spec fn mt_wrapped(v: MeasuredView) -> Seq<WrappedView> {
    wrap_all(lines_of(v.text), v.columns)
}

/// Wrapped line `w` spans byte offset `off`.
pub open spec fn wrapped_hit(ws: Seq<WrappedView>, off: int) -> spec_fn(int) -> bool {
    |i: int| ws[i].start <= off <= ws[i].end
}

/// The first wrapped line that spans `off`.
pub open spec fn first_wrapped(v: MeasuredView, off: int) -> Option<int> {
    first_from(0, mt_wrapped(v).len() as int, wrapped_hit(mt_wrapped(v), off))
}

/// Original line `i` spans byte offset `off` in the one-newline layout.
pub open spec fn line_hit(ls: Seq<Seq<char>>, off: int) -> spec_fn(int) -> bool {
    |i: int| line_start(ls, i) <= off <= line_start(ls, i) + byte_len(ls[i])
}

/// The first original line that spans `off`.
pub open spec fn first_line(v: MeasuredView, off: int) -> Option<int> {
    first_from(0, mt_lines(v).len() as int, line_hit(mt_lines(v), off))
}

/// Where the display text of a wrapped line is cut to measure the column
/// of `off`: the offset relative to the line, at most its length.
pub open spec fn display_cut(w: WrappedView, off: int) -> int {
    let rel = off - w.start;
    if rel < byte_len(w.text) {
        rel
    } else {
        byte_len(w.text) as int
    }
}

/// Measuring the display column of `off` cuts the wrapped line's text on a
/// character boundary (slicing there would panic otherwise).
pub open spec fn display_ok(v: MeasuredView, off: int) -> bool {
    match first_wrapped(v, off) {
        Some(i) => text::is_boundary(mt_wrapped(v)[i].text, display_cut(mt_wrapped(v)[i], off)),
        None => true,
    }
}

/// The display column of byte offset `off`: the width of the wrapped line's
/// text before it, or 0 when no wrapped line spans it.
pub open spec fn display_column(v: MeasuredView, off: int) -> nat {
    match first_wrapped(v, off) {
        Some(i) => {
            let w = mt_wrapped(v)[i];
            display_width(w.text.take(text::char_idx(w.text, display_cut(w, off))))
        },
        None => 0,
    }
}

/// The text before byte boundary `off`.
pub open spec fn text_before(s: Seq<char>, off: int) -> Seq<char> {
    s.take(text::char_idx(s, off))
}

/// The text from byte boundary `off` on.
pub open spec fn text_from(s: Seq<char>, off: int) -> Seq<char> {
    s.skip(text::char_idx(s, off))
}

/// Every character of `w` is whitespace.
pub open spec fn all_ws(w: Seq<char>) -> bool {
    forall|j: int| 0 <= j < w.len() ==> text::is_ws(#[trigger] w[j])
}

/// Byte offset at which word segment `i` starts.
pub open spec fn seg_start(segs: Seq<Seq<char>>, i: int) -> nat {
    byte_len(concat_all(segs.take(i)))
}

/// The byte span of the first occurrence of `w` in `s`, from 0 when `w` does
/// not occur.
pub open spec fn word_span(s: Seq<char>, w: Seq<char>) -> (nat, nat) {
    let start = match first_occurrence(s, w) {
        Some(i) => byte_len(s.take(i)),
        None => 0,
    };
    (start, start + byte_len(w))
}

/// Word segment `i` is not whitespace and its span holds `off`.
pub open spec fn word_hit(s: Seq<char>, segs: Seq<Seq<char>>, off: int) -> spec_fn(int) -> bool {
    |i: int| !all_ws(segs[i]) && word_span(s, segs[i]).0 <= off <= word_span(s, segs[i]).1
}

/// The word boundaries around `off`: the span of the first non-whitespace
/// word whose span holds it, or the whole text.
pub open spec fn word_boundaries(s: Seq<char>, off: int) -> (nat, nat) {
    let segs = word_bounds(s);
    match first_from(0, segs.len() as int, word_hit(s, segs, off)) {
        Some(i) => word_span(s, segs[i]),
        None => (0, byte_len(s)),
    }
}

/// Word segment `i` is a word that starts before `off`.
pub open spec fn starts_before(segs: Seq<Seq<char>>, off: int) -> spec_fn(int) -> bool {
    |i: int| !all_ws(segs[i]) && seg_start(segs, i) < off
}

/// The start of the last word that starts before `off`, or 0.
pub open spec fn prev_word_start(s: Seq<char>, off: int) -> nat {
    let segs = word_bounds(s);
    match last_below(segs.len() as int, starts_before(segs, off)) {
        Some(i) => seg_start(segs, i),
        None => 0,
    }
}

/// Word segment `i` is a word that starts at or after `off`.
pub open spec fn starts_from(segs: Seq<Seq<char>>, off: int) -> spec_fn(int) -> bool {
    |i: int| seg_start(segs, i) >= off && !all_ws(segs[i])
}

/// The end of the first word that starts at or after `off`, or the end of
/// the text.
pub open spec fn next_word_end(s: Seq<char>, off: int) -> nat {
    let segs = word_bounds(s);
    match first_from(0, segs.len() as int, starts_from(segs, off)) {
        Some(i) => seg_start(segs, i) + byte_len(segs[i]),
        None => byte_len(s),
    }
}

/// Word segments start on character boundaries of the text they partition.
pub proof fn lemma_seg_start_boundary(segs: Seq<Seq<char>>, i: int)
    requires
        0 <= i <= segs.len(),
    ensures
        text::is_boundary(concat_all(segs), seg_start(segs, i) as int),
{
    let a = concat_all(segs.take(i));
    let s = concat_all(segs);
    text::lemma_concat_all_split(segs, i);
    assert(s.take(a.len() as int) =~= a);
    assert(byte_len(s.take(a.len() as int)) == seg_start(segs, i));
}

/// One more line extends the layout by that line and its newline.
pub proof fn lemma_extent_take_step(ls: Seq<Seq<char>>, i: int)
    requires
        0 <= i < ls.len(),
    ensures
        extent(ls.take(i + 1)) == extent(ls.take(i)) + byte_len(ls[i]) + 1,
{
    assert(ls.take(i + 1).drop_last() =~= ls.take(i));
}

/// Lines before `j` take at least as many bytes as those before `i <= j`,
/// and line `i` with its newline fits before the start of line `j > i`.
pub proof fn lemma_extent_take_mono(ls: Seq<Seq<char>>, i: int, j: int)
    requires
        0 <= i <= j <= ls.len(),
    ensures
        extent(ls.take(i)) <= extent(ls.take(j)),
        i < j ==> extent(ls.take(i)) + byte_len(ls[i]) + 1 <= extent(ls.take(j)),
    decreases j - i,
{
    if i < j {
        lemma_extent_take_mono(ls, i, j - 1);
        lemma_extent_take_step(ls, j - 1);
        if i < j - 1 {
            lemma_extent_take_step(ls, i);
            lemma_extent_take_mono(ls, i + 1, j - 1);
        } else {
            lemma_extent_take_step(ls, i);
        }
    }
}

/// A line in front adds its bytes and a newline.
pub proof fn lemma_extent_prepend(a: Seq<char>, r: Seq<Seq<char>>)
    ensures
        extent(seq![a] + r) == byte_len(a) + 1 + extent(r),
    decreases r.len(),
{
    if r.len() == 0 {
        assert(seq![a] + r =~= seq![a]);
        assert(seq![a].drop_last() =~= Seq::<Seq<char>>::empty());
        assert(seq![a].last() == a);
        assert(extent(Seq::<Seq<char>>::empty()) == 0);
    } else {
        lemma_extent_prepend(a, r.drop_last());
        assert((seq![a] + r).drop_last() =~= seq![a] + r.drop_last());
        assert((seq![a] + r).last() == r.last());
    }
}

/// The lines of a text, each with one newline, take at most one byte more
/// than the text.
pub proof fn lemma_extent_lines(s: Seq<char>)
    ensures
        extent(lines_of(s)) <= byte_len(s) + 1,
    decreases s.len(),
{
    if s.len() > 0 {
        let i = text::first_nl(s);
        text::lemma_first_nl_bound(s);
        if i >= s.len() {
            assert(lines_of(s) == seq![s]);
            assert(seq![s].drop_last() =~= Seq::<Seq<char>>::empty());
            assert(seq![s].last() == s);
            assert(extent(Seq::<Seq<char>>::empty()) == 0);
        } else {
            text::lemma_first_nl_is_nl(s);
            let head = s.take(i as int);
            let rest = s.skip(i as int + 1);
            lemma_extent_lines(rest);
            lemma_extent_prepend(text::strip_cr(head), lines_of(rest));
            if head.len() > 0 && head.last() == '\r' {
                assert(byte_len(head) == byte_len(head.drop_last()) + text::char_len(head.last()));
            }
            assert(s =~= head + seq![s[i as int]] + rest);
            text::lemma_byte_len_concat(head, seq![s[i as int]]);
            text::lemma_byte_len_concat(head + seq![s[i as int]], rest);
            text::lemma_byte_len_single(s[i as int]);
            assert(lines_of(s) == seq![text::strip_cr(head)] + lines_of(rest));
            assert(byte_len(text::strip_cr(head)) <= byte_len(head));
        }
    }
}

} // verus!

verus! {

/// MeasuredText - NFC normalized text with line, wrap, grapheme and width
/// information.
pub struct MeasuredText {
    /// NFC normalized text
    text: String,
    /// Terminal columns (for wrapping)
    columns: usize,
    /// Wrapped lines (accounting for terminal width)
    wrapped_lines: Vec<WrappedLine>,
    /// Original lines (before wrapping)
    original_lines: Vec<String>,
}

impl View for MeasuredText {
    type V = MeasuredView;

    closed spec fn view(&self) -> MeasuredView {
        MeasuredView { text: self.text@, columns: self.columns as nat }
    }
}

/// Appends the wrapped lines of one original line to `out`.
fn wrap_line_into(out: &mut Vec<WrappedLine>, idx: usize, line: &String, base: usize, columns: usize)
    requires
        base + byte_len(line@) <= usize::MAX,
    ensures
        wrapped_views(final(out)@) == wrapped_views(old(out)@) + wrap_line(
            idx as nat,
            line@,
            base as nat,
            columns as nat,
        ),
{
    let ghost out0 = wrapped_views(out@);
    let len = text::str_len(line.as_str());
    let line_width = unicode::str_width(line.as_str());
    if columns == 0 || line_width <= columns {
        out.push(
            WrappedLine {
                original_line: idx,
                start_offset: base,
                end_offset: base + len,
                display_text: line.clone(),
                width: line_width,
            },
        );
        assert(wrapped_views(out@) =~= out0 + wrap_line(idx as nat, line@, base as nat, columns as nat));
        return ;
    }
    let gs = unicode::grapheme_clusters(line.as_str());
    let ghost g = views(gs@);
    let mut current_width: usize = 0;
    let mut current_start: usize = 0;
    let mut current_text = String::new();
    let mut k: usize = 0;
    assert(g.skip(0) =~= g);
    assert(g.take(0) =~= Seq::<Seq<char>>::empty());
    assert(wrapped_views(out@) + wrap_segs(idx as nat, base as nat, g, columns as nat, 0, seq![], 0, len as nat)
        =~= out0 + wrap_segs(idx as nat, base as nat, g, columns as nat, 0, seq![], 0, len as nat));
    while k < gs.len()
        invariant
            k <= gs@.len(),
            g == views(gs@),
            g == graphemes(line@),
            concat_all(g) == line@,
            len == byte_len(line@),
            base + len <= usize::MAX,
            columns > 0,
            current_start + byte_len(current_text@) == byte_len(concat_all(g.take(k as int))),
            wrapped_views(out@) + wrap_segs(
                idx as nat,
                base as nat,
                g.skip(k as int),
                columns as nat,
                current_start as nat,
                current_text@,
                current_width as nat,
                len as nat,
            ) == out0 + wrap_segs(idx as nat, base as nat, g, columns as nat, 0, seq![], 0, len as nat),
        decreases gs@.len() - k,
    {
        let ghost rest = g.skip(k as int);
        let ghost before = wrapped_views(out@);
        assert(rest[0] == g[k as int]);
        assert(rest.drop_first() =~= g.skip(k + 1));
        proof {
            text::lemma_concat_all_take_step(g, k as int);
            text::lemma_concat_all_take_bound(g, k + 1);
            assert(g.take(g.len() as int) =~= g);
        }
        let gw = unicode::str_width(gs[k].as_str());
        let glen = text::str_len(gs[k].as_str());
        let cur_len = text::str_len(current_text.as_str());
        if current_width > columns || gw > columns - current_width {
            out.push(
                WrappedLine {
                    original_line: idx,
                    start_offset: base + current_start,
                    end_offset: base + current_start + cur_len,
                    display_text: current_text,
                    width: current_width,
                },
            );
            assert(wrapped_views(out@) =~= before.push(
                segment(idx as nat, (base + current_start) as nat, (base + current_start + cur_len) as nat, current_text@, current_width as nat),
            ));
            current_start = current_start + cur_len;
            current_text = gs[k].clone();
            current_width = gw;
        } else {
            let ghost ct = current_text@;
            text::push_str(&mut current_text, gs[k].as_str());
            proof {
                text::lemma_byte_len_concat(ct, g[k as int]);
            }
            current_width = current_width + gw;
        }
        k += 1;
    }
    assert(g.skip(k as int) =~= Seq::<Seq<char>>::empty());
    assert(g.take(k as int) =~= g);
    if !current_text.as_str().is_empty() {
        let ghost before = wrapped_views(out@);
        out.push(
            WrappedLine {
                original_line: idx,
                start_offset: base + current_start,
                end_offset: base + len,
                display_text: current_text,
                width: current_width,
            },
        );
        assert(wrapped_views(out@) =~= before.push(
            segment(idx as nat, (base + current_start) as nat, (base + len) as nat, current_text@, current_width as nat),
        ));
    } else {
        assert(wrapped_views(out@) + Seq::<WrappedView>::empty() =~= wrapped_views(out@));
    }
}

/// Compute wrapped lines accounting for terminal width
fn compute_wrapped_lines(columns: usize, original_lines: &Vec<String>) -> (r: Vec<WrappedLine>)
    requires
        extent(views(original_lines@)) <= usize::MAX,
    ensures
        wrapped_views(r@) == wrap_all(views(original_lines@), columns as nat),
{
    let ghost ls = views(original_lines@);
    let mut wrapped: Vec<WrappedLine> = Vec::new();
    let mut offset: usize = 0;
    let mut i: usize = 0;
    assert(ls.take(0) =~= Seq::<Seq<char>>::empty());
    assert(wrapped_views(wrapped@) =~= Seq::<WrappedView>::empty());
    while i < original_lines.len()
        invariant
            i <= original_lines@.len(),
            ls == views(original_lines@),
            extent(ls) <= usize::MAX,
            offset == extent(ls.take(i as int)),
            wrapped_views(wrapped@) == wrap_all(ls.take(i as int), columns as nat),
        decreases original_lines@.len() - i,
    {
        proof {
            lemma_extent_take_step(ls, i as int);
            lemma_extent_take_mono(ls, i + 1, ls.len() as int);
            assert(ls.take(ls.len() as int) =~= ls);
            assert(ls.take(i + 1).drop_last() =~= ls.take(i as int));
        }
        let len = text::str_len(original_lines[i].as_str());
        wrap_line_into(&mut wrapped, i, &original_lines[i], offset, columns);
        offset = offset + len + 1;
        i += 1;
    }
    assert(ls.take(i as int) =~= ls);
    wrapped
}

} // verus!

verus! {

/// Whether every character of `w` is whitespace (`chars().all(char::is_whitespace)`).
fn is_all_whitespace(w: &str) -> (b: bool)
    ensures
        b == all_ws(w@),
{
    let cs = text::chars_of(w);
    let mut i: usize = 0;
    while i < cs.len()
        invariant
            i <= cs@.len(),
            cs@ == w@,
            forall|j: int| 0 <= j < i ==> text::is_ws(#[trigger] cs@[j]),
        decreases cs@.len() - i,
    {
        if !text::is_whitespace(cs[i]) {
            return false;
        }
        i += 1;
    }
    true
}

impl MeasuredText {
    #[verifier::type_invariant]
    spec fn inv(self) -> bool {
        &&& views(self.original_lines@) == lines_of(self.text@)
        &&& wrapped_views(self.wrapped_lines@) == wrap_all(lines_of(self.text@), self.columns as nat)
        &&& byte_len(self.text@) <= isize::MAX
    }

    /// The layout of the lines fits in the address space.
    proof fn lemma_bounds(&self)
        requires
            self.inv(),
        ensures
            extent(mt_lines(self@)) <= byte_len(self@.text) + 1,
            byte_len(self@.text) <= isize::MAX,
    {
        lemma_extent_lines(self.text@);
    }

    /// Create new MeasuredText with given terminal columns
    pub fn new(text: String, columns: usize) -> (m: Self)
        ensures
            m@ == (MeasuredView { text: unicode::nfc(text@), columns: columns as nat }),
    {
        let normalized = unicode::to_nfc(text.as_str());
        let n = text::str_len(normalized.as_str());
        let original_lines = text::split_lines(normalized.as_str());
        proof {
            lemma_extent_lines(normalized@);
        }
        let wrapped_lines = compute_wrapped_lines(columns, &original_lines);
        Self { text: normalized, columns, wrapped_lines, original_lines }
    }

    /// Get the normalized text
    pub fn text(&self) -> (t: &str)
        ensures
            t@ == self@.text,
    {
        self.text.as_str()
    }

    /// Get text length in bytes
    pub fn len(&self) -> (n: usize)
        ensures
            n == byte_len(self@.text),
            n <= isize::MAX,
    {
        text::str_len(self.text.as_str())
    }

    /// Check if text is empty
    pub fn is_empty(&self) -> (b: bool)
        ensures
            b == (self@.text.len() == 0),
    {
        self.text.as_str().is_empty()
    }

    /// Get grapheme count
    pub fn grapheme_count(&self) -> (n: usize)
        ensures
            n == graphemes(self@.text).len(),
    {
        unicode::grapheme_clusters(self.text.as_str()).len()
    }

    /// Get terminal columns
    pub fn columns(&self) -> (c: usize)
        ensures
            c == self@.columns,
    {
        self.columns
    }

    /// Get wrapped lines
    pub fn wrapped_lines(&self) -> (ws: &[WrappedLine])
        ensures
            wrapped_views(ws@) == mt_wrapped(self@),
    {
        proof {
            use_type_invariant(self);
        }
        self.wrapped_lines.as_slice()
    }

    /// Get original lines
    pub fn original_lines(&self) -> (ls: &[String])
        ensures
            views(ls@) == mt_lines(self@),
    {
        proof {
            use_type_invariant(self);
        }
        self.original_lines.as_slice()
    }

    /// Get total wrapped line count
    pub fn wrapped_line_count(&self) -> (n: usize)
        ensures
            n == mt_wrapped(self@).len(),
    {
        proof {
            use_type_invariant(self);
        }
        self.wrapped_lines.len()
    }

    /// Get total original line count
    pub fn original_line_count(&self) -> (n: usize)
        ensures
            n == mt_lines(self@).len(),
    {
        proof {
            use_type_invariant(self);
        }
        self.original_lines.len()
    }

    /// Find the wrapped line containing a given byte offset
    pub fn find_wrapped_line_at_offset(&self, offset: usize) -> (r: Option<usize>)
        ensures
            r matches Some(i) ==> first_wrapped(self@, offset as int) == Some(i as int),
            r is None ==> first_wrapped(self@, offset as int) is None,
    {
        proof {
            use_type_invariant(self);
        }
        let ghost ws = mt_wrapped(self@);
        let mut i: usize = 0;
        while i < self.wrapped_lines.len()
            invariant
                i <= ws.len(),
                ws == mt_wrapped(self@),
                ws == wrapped_views(self.wrapped_lines@),
                first_wrapped(self@, offset as int) == first_from(i as int, ws.len() as int, wrapped_hit(ws, offset as int)),
            decreases ws.len() - i,
        {
            let line = &self.wrapped_lines[i];
            assert(ws[i as int] == line@);
            if offset >= line.start_offset && offset <= line.end_offset {
                return Some(i);
            }
            i += 1;
        }
        None
    }

    /// Find the original line containing a given byte offset
    pub fn find_original_line_at_offset(&self, offset: usize) -> (r: Option<usize>)
        ensures
            r matches Some(i) ==> first_line(self@, offset as int) == Some(i as int),
            r is None ==> first_line(self@, offset as int) is None,
    {
        proof {
            use_type_invariant(self);
            self.lemma_bounds();
        }
        let ghost ls = mt_lines(self@);
        let mut current_offset: usize = 0;
        let mut i: usize = 0;
        assert(ls.take(0) =~= Seq::<Seq<char>>::empty());
        while i < self.original_lines.len()
            invariant
                i <= ls.len(),
                ls == mt_lines(self@),
                ls == views(self.original_lines@),
                extent(ls) <= isize::MAX + 1,
                current_offset == line_start(ls, i as int),
                first_line(self@, offset as int) == first_from(i as int, ls.len() as int, line_hit(ls, offset as int)),
            decreases ls.len() - i,
        {
            proof {
                lemma_extent_take_step(ls, i as int);
                lemma_extent_take_mono(ls, i + 1, ls.len() as int);
                assert(ls.take(ls.len() as int) =~= ls);
            }
            let len = text::str_len(self.original_lines[i].as_str());
            if offset >= current_offset && offset <= current_offset + len {
                return Some(i);
            }
            current_offset = current_offset + len + 1;
            i += 1;
        }
        None
    }

    /// Get display column at byte offset
    pub fn get_display_column_at_offset(&self, offset: usize) -> (c: usize)
        requires
            display_ok(self@, offset as int),
        ensures
            c == display_column(self@, offset as int),
    {
        proof {
            use_type_invariant(self);
        }
        match self.find_wrapped_line_at_offset(offset) {
            Some(idx) => {
                let ghost ws = mt_wrapped(self@);
                proof {
                    text::lemma_first_from(0, ws.len() as int, wrapped_hit(ws, offset as int));
                }
                let line = &self.wrapped_lines[idx];
                assert(ws[idx as int] == line@);
                let relative_offset = offset - line.start_offset;
                let dlen = text::str_len(line.display_text.as_str());
                let cut = if relative_offset < dlen {
                    relative_offset
                } else {
                    dlen
                };
                let cs = text::chars_of(line.display_text.as_str());
                match text::char_index_at_byte(cs.as_slice(), cut) {
                    Some(k) => {
                        proof {
                            text::lemma_char_idx(cs@, k as int);
                        }
                        let prefix = text::string_from_range(cs.as_slice(), 0, k);
                        assert(prefix@ =~= cs@.take(k as int));
                        unicode::str_width(prefix.as_str())
                    },
                    None => {
                        assert(false);
                        0
                    },
                }
            },
            None => 0,
        }
    }

    /// Get grapheme at byte offset
    pub fn grapheme_at_offset(&self, offset: usize) -> (r: Option<String>)
        requires
            text::is_boundary(self@.text, offset as int),
        ensures
            r matches Some(g) ==> graphemes(text_from(self@.text, offset as int)).len() > 0 && g@ == graphemes(
                text_from(self@.text, offset as int),
            )[0] && offset + byte_len(g@) <= byte_len(self@.text) && g@.len() > 0,
            r is None ==> graphemes(text_from(self@.text, offset as int)).len() == 0 && offset == byte_len(
                self@.text,
            ),
    {
        let cs = text::chars_of(self.text.as_str());
        match text::char_index_at_byte(cs.as_slice(), offset) {
            Some(k) => {
                proof {
                    text::lemma_char_idx(cs@, k as int);
                    text::lemma_byte_len_split(cs@, k as int);
                }
                let suffix = text::string_from_range(cs.as_slice(), k, cs.len());
                assert(suffix@ =~= cs@.skip(k as int));
                let gs = unicode::grapheme_clusters(suffix.as_str());
                let ghost g = views(gs@);
                if gs.len() > 0 {
                    proof {
                        text::lemma_concat_all_split(g, 1);
                        assert(g.take(1).drop_last() =~= Seq::<Seq<char>>::empty());
                        assert(g.take(1).last() == g[0]);
                        assert(concat_all(Seq::<Seq<char>>::empty()) =~= Seq::<char>::empty());
                        assert(concat_all(g.take(1)) =~= g[0]);
                        text::lemma_byte_len_concat(g[0], concat_all(g.skip(1)));
                        assert(gs@[0]@.len() > 0);
                    }
                    Some(gs[0].clone())
                } else {
                    assert(suffix@.len() == 0);
                    proof {
                        assert(cs@.skip(k as int).len() == 0);
                        assert(cs@.take(k as int) =~= cs@);
                    }
                    None
                }
            },
            None => {
                assert(false);
                None
            },
        }
    }

    /// Get previous grapheme before byte offset
    pub fn prev_grapheme_at_offset(&self, offset: usize) -> (r: Option<String>)
        requires
            offset == 0 || text::is_boundary(self@.text, offset as int),
        ensures
            offset == 0 ==> r is None,
            offset > 0 ==> (r matches Some(g) && graphemes(text_before(self@.text, offset as int)).len() > 0
                && g@ == graphemes(text_before(self@.text, offset as int)).last() && byte_len(g@) <= offset
                && g@.len() > 0),
    {
        if offset == 0 {
            return None;
        }
        let cs = text::chars_of(self.text.as_str());
        match text::char_index_at_byte(cs.as_slice(), offset) {
            Some(k) => {
                proof {
                    text::lemma_char_idx(cs@, k as int);
                }
                let prefix = text::string_from_range(cs.as_slice(), 0, k);
                assert(prefix@ =~= cs@.take(k as int));
                let gs = unicode::grapheme_clusters(prefix.as_str());
                let ghost g = views(gs@);
                if gs.len() > 0 {
                    let n = gs.len();
                    proof {
                        assert(concat_all(g) == concat_all(g.drop_last()) + g.last());
                        text::lemma_byte_len_concat(concat_all(g.drop_last()), g.last());
                        assert(gs@[n - 1]@.len() > 0);
                    }
                    Some(gs[n - 1].clone())
                } else {
                    proof {
                        assert(prefix@.len() == 0);
                        assert(cs@.take(k as int) =~= Seq::<char>::empty());
                        assert(byte_len(Seq::<char>::empty()) == 0);
                    }
                    None
                }
            },
            None => {
                assert(false);
                None
            },
        }
    }

    /// Convert byte offset to grapheme offset
    pub fn byte_to_grapheme_offset(&self, byte_offset: usize) -> (n: usize)
        requires
            text::boundary_or_past(self@.text, byte_offset as int),
        ensures
            n == grapheme_offset_of(self@.text, byte_offset as int),
    {
        let cs = text::chars_of(self.text.as_str());
        let k = text::prefix_len_chars(cs.as_slice(), byte_offset);
        let prefix = text::string_from_range(cs.as_slice(), 0, k);
        assert(prefix@ =~= cs@.take(k as int));
        unicode::grapheme_clusters(prefix.as_str()).len()
    }

    /// Convert grapheme offset to byte offset
    pub fn grapheme_to_byte_offset(&self, grapheme_offset: usize) -> (n: usize)
        ensures
            n == byte_offset_of(self@.text, grapheme_offset as nat),
    {
        proof {
            use_type_invariant(self);
        }
        let gs = unicode::grapheme_clusters(self.text.as_str());
        let ghost g = views(gs@);
        let mut offset: usize = 0;
        let mut i: usize = 0;
        assert(g.take(0) =~= Seq::<Seq<char>>::empty());
        while i < gs.len() && i < grapheme_offset
            invariant
                i <= gs@.len(),
                i <= grapheme_offset,
                g == views(gs@),
                g == graphemes(self@.text),
                concat_all(g) == self@.text,
                byte_len(self@.text) <= isize::MAX,
                offset == byte_len(concat_all(g.take(i as int))),
            decreases gs@.len() - i,
        {
            proof {
                text::lemma_concat_all_take_step(g, i as int);
                text::lemma_concat_all_take_bound(g, i + 1);
                assert(g.take(g.len() as int) =~= g);
            }
            offset = offset + text::str_len(gs[i].as_str());
            i += 1;
        }
        offset
    }

    /// Find word boundaries around offset: the span of the first word (not
    /// whitespace) around it, or the whole text.
    pub fn find_word_boundaries(&self, offset: usize) -> (r: (usize, usize))
        ensures
            r.0 == word_boundaries(self@.text, offset as int).0,
            r.1 == word_boundaries(self@.text, offset as int).1,
    {
        proof {
            use_type_invariant(self);
        }
        let words = unicode::word_bound_segments(self.text.as_str());
        let ghost segs = views(words@);
        let cs = text::chars_of(self.text.as_str());
        let mut i: usize = 0;
        while i < words.len()
            invariant
                i <= words@.len(),
                segs == views(words@),
                segs == word_bounds(self@.text),
                cs@ == self@.text,
                byte_len(self@.text) <= isize::MAX,
                first_from(0, segs.len() as int, word_hit(self@.text, segs, offset as int)) == first_from(
                    i as int,
                    segs.len() as int,
                    word_hit(self@.text, segs, offset as int),
                ),
            decreases words@.len() - i,
        {
            let word = &words[i];
            assert(segs[i as int] == word@);
            if !is_all_whitespace(word.as_str()) {
                let wcs = text::chars_of(word.as_str());
                let start = match find_chars(cs.as_slice(), wcs.as_slice()) {
                    Some(k) => {
                        proof {
                            text::lemma_first_from(0, cs@.len() - wcs@.len() + 1, occurs_at(cs@, wcs@));
                            text::lemma_byte_len_take_mono(cs@, k as int, cs@.len() as int);
                            text::lemma_byte_len_take_all(cs@);
                            text::lemma_byte_len_split(cs@, k as int);
                            assert(cs@.skip(k as int).take(wcs@.len() as int) =~= wcs@);
                            text::lemma_byte_len_split(cs@.skip(k as int), wcs@.len() as int);
                        }
                        text::byte_offset_of(cs.as_slice(), k)
                    },
                    None => 0,
                };
                let wlen = text::str_len(word.as_str());
                proof {
                    text::lemma_concat_all_split(segs, i as int);
                    text::lemma_concat_all_front(segs.skip(i as int));
                    text::lemma_byte_len_concat(concat_all(segs.take(i as int)), concat_all(segs.skip(i as int)));
                    text::lemma_byte_len_concat(segs[i as int], concat_all(segs.skip(i as int).drop_first()));
                    assert(segs.skip(i as int)[0] == segs[i as int]);
                }
                if start <= offset && offset <= start + wlen {
                    return (start, start + wlen);
                }
            }
            i += 1;
        }
        (0, text::str_len(self.text.as_str()))
    }

    /// Find previous word start before offset
    ///
    /// If cursor is inside a word (not at start), returns start of that word.
    /// If cursor is at word start or in whitespace, returns start of previous word.
    pub fn find_prev_word_start(&self, offset: usize) -> (r: usize)
        ensures
            r == prev_word_start(self@.text, offset as int),
            r <= byte_len(self@.text),
            text::is_boundary(self@.text, r as int),
            r == 0 || r < offset,
    {
        proof {
            use_type_invariant(self);
        }
        let words = unicode::word_bound_segments(self.text.as_str());
        let ghost segs = views(words@);
        let mut best: usize = 0;
        let mut found = false;
        proof {
            text::lemma_char_idx(self@.text, 0);
            assert(self@.text.take(0) =~= Seq::<char>::empty());
        }
        let mut idx: usize = 0;
        let mut i: usize = 0;
        assert(segs.take(0) =~= Seq::<Seq<char>>::empty());
        while i < words.len()
            invariant
                i <= words@.len(),
                segs == views(words@),
                segs == word_bounds(self@.text),
                concat_all(segs) == self@.text,
                byte_len(self@.text) <= isize::MAX,
                idx == seg_start(segs, i as int),
                best <= byte_len(self@.text),
                text::is_boundary(self@.text, best as int),
                best == 0 || best < offset,
                match last_below(i as int, starts_before(segs, offset as int)) {
                    Some(j) => found && best == seg_start(segs, j),
                    None => !found && best == 0,
                },
            decreases words@.len() - i,
        {
            proof {
                text::lemma_concat_all_take_step(segs, i as int);
                text::lemma_concat_all_take_bound(segs, i + 1);
                assert(segs.take(segs.len() as int) =~= segs);
            }
            let word = &words[i];
            assert(segs[i as int] == word@);
            proof {
                lemma_seg_start_boundary(segs, i as int);
            }
            if !is_all_whitespace(word.as_str()) && idx < offset {
                best = idx;
                found = true;
            }
            idx = idx + text::str_len(word.as_str());
            i += 1;
        }
        best
    }

    /// Find next word end after offset
    pub fn find_next_word_end(&self, offset: usize) -> (r: usize)
        ensures
            r == next_word_end(self@.text, offset as int),
            r <= byte_len(self@.text),
    {
        proof {
            use_type_invariant(self);
        }
        let words = unicode::word_bound_segments(self.text.as_str());
        let ghost segs = views(words@);
        let mut idx: usize = 0;
        let mut i: usize = 0;
        assert(segs.take(0) =~= Seq::<Seq<char>>::empty());
        while i < words.len()
            invariant
                i <= words@.len(),
                segs == views(words@),
                segs == word_bounds(self@.text),
                concat_all(segs) == self@.text,
                byte_len(self@.text) <= isize::MAX,
                idx == seg_start(segs, i as int),
                first_from(0, segs.len() as int, starts_from(segs, offset as int)) == first_from(
                    i as int,
                    segs.len() as int,
                    starts_from(segs, offset as int),
                ),
            decreases words@.len() - i,
        {
            proof {
                text::lemma_concat_all_take_step(segs, i as int);
                text::lemma_concat_all_take_bound(segs, i + 1);
                assert(segs.take(segs.len() as int) =~= segs);
            }
            let word = &words[i];
            assert(segs[i as int] == word@);
            let wlen = text::str_len(word.as_str());
            if idx >= offset && !is_all_whitespace(word.as_str()) {
                assert(concat_all(segs.take(i + 1)) == concat_all(segs.take(i as int)) + segs[i as int]);
                return idx + wlen;
            }
            idx = idx + wlen;
            i += 1;
        }
        text::str_len(self.text.as_str())
    }
}

} // verus!

verus! {

/// The display texts of wrapped lines.
pub open spec fn texts(ws: Seq<WrappedView>) -> Seq<Seq<char>> {
    ws.map_values(|w: WrappedView| w.text)
}

proof fn lemma_texts_concat(a: Seq<WrappedView>, b: Seq<WrappedView>)
    ensures
        texts(a + b) == texts(a) + texts(b),
{
    assert(texts(a + b) =~= texts(a) + texts(b));
}

/// Wrapping loses no text: the segments, concatenated, give back the open
/// segment followed by the graphemes still to place.
pub proof fn lemma_wrap_segs_covers(
    idx: nat,
    base: nat,
    gs: Seq<Seq<char>>,
    columns: nat,
    cur_start: nat,
    cur: Seq<char>,
    cur_w: nat,
    line_len: nat,
)
    ensures
        concat_all(texts(wrap_segs(idx, base, gs, columns, cur_start, cur, cur_w, line_len))) == cur + concat_all(gs),
    decreases gs.len(),
{
    if gs.len() == 0 {
        assert(concat_all(gs) =~= Seq::<char>::empty());
        if cur.len() > 0 {
            let ws = wrap_segs(idx, base, gs, columns, cur_start, cur, cur_w, line_len);
            assert(texts(ws) =~= seq![cur]);
            text::lemma_concat_all_single(cur);
        } else {
            assert(texts(Seq::<WrappedView>::empty()) =~= Seq::<Seq<char>>::empty());
            assert(cur =~= Seq::<char>::empty());
        }
        assert(cur + Seq::<char>::empty() =~= cur);
    } else {
        let g = gs[0];
        let gw = display_width(g);
        text::lemma_concat_all_front(gs);
        if cur_w + gw > columns {
            let seg = segment(idx, base + cur_start, base + cur_start + byte_len(cur), cur, cur_w);
            let rest = wrap_segs(idx, base, gs.drop_first(), columns, cur_start + byte_len(cur), g, gw, line_len);
            lemma_wrap_segs_covers(idx, base, gs.drop_first(), columns, cur_start + byte_len(cur), g, gw, line_len);
            lemma_texts_concat(seq![seg], rest);
            assert(texts(seq![seg]) =~= seq![cur]);
            text::lemma_concat_all_front(seq![cur] + texts(rest));
            assert((seq![cur] + texts(rest))[0] == cur);
            assert((seq![cur] + texts(rest)).drop_first() =~= texts(rest));
            assert(cur + (g + concat_all(gs.drop_first())) =~= cur + concat_all(gs));
        } else {
            lemma_wrap_segs_covers(idx, base, gs.drop_first(), columns, cur_start, cur + g, cur_w + gw, line_len);
            assert(cur + g + concat_all(gs.drop_first()) =~= cur + (g + concat_all(gs.drop_first())));
        }
    }
}

/// Wrapping a line loses no text: its wrapped lines, concatenated, give the
/// line back, given that its graphemes partition it (as the segmentation
/// crate documents).
pub proof fn lemma_wrap_line_covers(idx: nat, line: Seq<char>, base: nat, columns: nat)
    requires
        concat_all(graphemes(line)) == line,
    ensures
        concat_all(texts(wrap_line(idx, line, base, columns))) == line,
{
    if columns == 0 || display_width(line) <= columns {
        let ws = wrap_line(idx, line, base, columns);
        assert(texts(ws) =~= seq![line]);
        text::lemma_concat_all_single(line);
    } else {
        lemma_wrap_segs_covers(idx, base, graphemes(line), columns, 0, seq![], 0, byte_len(line));
        assert(Seq::<char>::empty() + line =~= line);
    }
}


/// Grapheme and byte offsets convert into each other and back: the byte
/// offset of grapheme offset `k` is a character boundary, it converts back
/// to `k`, and converting that again gives the same byte offset. Given that
/// the clusters of `t` partition it (as the segmentation crate documents)
/// and that the text up to the end of the `k`-th cluster segments into the
/// first `k` clusters.
pub proof fn lemma_grapheme_byte_round_trip(t: Seq<char>, k: nat)
    requires
        k <= graphemes(t).len(),
        concat_all(graphemes(t)) == t,
        graphemes(concat_all(graphemes(t).take(k as int))) == graphemes(t).take(k as int),
    ensures
        text::boundary_or_past(t, byte_offset_of(t, k) as int),
        grapheme_offset_of(t, byte_offset_of(t, k) as int) == k,
        byte_offset_of(t, grapheme_offset_of(t, byte_offset_of(t, k) as int)) == byte_offset_of(t, k),
{
    let gs = graphemes(t);
    let p = concat_all(gs.take(k as int));
    assert(gs.take(if k < gs.len() { k as int } else { gs.len() as int }) == gs.take(k as int));
    text::lemma_concat_all_split(gs, k as int);
    let rest = concat_all(gs.skip(k as int));
    assert(t == p + rest);
    assert(t.take(p.len() as int) =~= p);
    text::lemma_char_idx(t, p.len() as int);
    text::lemma_byte_len_concat(p, rest);
    if byte_len(p) >= byte_len(t) {
        text::lemma_byte_len_take_mono(rest, 0, rest.len() as int);
        assert(rest.take(0) =~= Seq::<char>::empty());
        assert(rest.take(rest.len() as int) =~= rest);
        assert(rest.len() == 0);
        assert(t =~= p);
    }
    assert(text::prefix_upto(t, byte_len(p) as int) == p);
}


/// Each segment ends where the next begins, so a segment ends no later than
/// any later segment starts.
proof fn lemma_seg_start_after(segs: Seq<Seq<char>>, j: int, i: int)
    requires
        0 <= j < i <= segs.len(),
    ensures
        seg_start(segs, j) + byte_len(segs[j]) <= seg_start(segs, i),
    decreases i - j,
{
    text::lemma_concat_all_take_step(segs, j);
    if j + 1 < i {
        lemma_seg_start_after(segs, j + 1, i);
    }
}

/// The next word end from `off` is no later than the end of any word that
/// starts at or after `off`: in particular, a word starting at `off` itself
/// ends where the next word end is. It never lies past the text.
pub proof fn lemma_next_word_end_first(s: Seq<char>, off: int, i: int)
    requires
        0 <= i < word_bounds(s).len(),
        !all_ws(word_bounds(s)[i]),
        seg_start(word_bounds(s), i) >= off,
    ensures
        next_word_end(s, off) <= seg_start(word_bounds(s), i) + byte_len(word_bounds(s)[i]),
        seg_start(word_bounds(s), i) == off ==> next_word_end(s, off) == off + byte_len(word_bounds(s)[i]),
{
    let segs = word_bounds(s);
    let p = starts_from(segs, off);
    assert(p(i));
    text::lemma_first_from(0, segs.len() as int, p);
    let j = first_from(0, segs.len() as int, p).unwrap();
    if j < i {
        lemma_seg_start_after(segs, j, i);
        if seg_start(segs, i) == off {
            assert(seg_start(segs, j) >= off);
            assert(segs[j].len() > 0) by {
                if segs[j].len() == 0 {
                    assert(all_ws(segs[j]));
                }
            }
            text::lemma_byte_len_take_mono(segs[j], 0, segs[j].len() as int);
            assert(segs[j].take(segs[j].len() as int) =~= segs[j]);
            assert(false);
        }
    }
}

} // verus!
