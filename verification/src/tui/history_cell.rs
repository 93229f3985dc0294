//! Text layout for transcript cells: wrapping text to a width.

use crate::text;
use crate::text::{chars_of, push_char, push_str, split_lines, split_words};
use crate::unicode;
use crate::unicode::{grapheme_clusters, str_width};
use vstd::prelude::*;

verus! {

/// Greedy word wrapping: the words `ws` laid out after the current line
/// `cur` of width `cw`, a line being closed when the next word would pass
/// `width`. A word wider than the width stands on a line of its own.
pub open spec fn wrap_words(ws: Seq<Seq<char>>, width: nat, cur: Seq<char>, cw: nat) -> Seq<Seq<char>>
    decreases ws.len(),
{
    if ws.len() == 0 {
        if cur.len() > 0 {
            seq![cur]
        } else {
            seq![]
        }
    } else {
        let w = ws[0];
        let ww = unicode::display_width(w);
        if cw == 0 {
            wrap_words(ws.skip(1), width, w, ww)
        } else if cw + 1 + ww <= width {
            wrap_words(ws.skip(1), width, cur + seq![' '] + w, cw + 1 + ww)
        } else {
            seq![cur] + wrap_words(ws.skip(1), width, w, ww)
        }
    }
}

/// One line wrapped to `width`: kept whole when it fits, else its words
/// wrapped.
pub open spec fn wrap_line(l: Seq<char>, width: nat) -> Seq<Seq<char>> {
    if unicode::display_width(l) <= width {
        seq![l]
    } else {
        wrap_words(text::words(l), width, Seq::<char>::empty(), 0)
    }
}

/// The lines `ls` wrapped to `width`, in order.
pub open spec fn wrap_all(ls: Seq<Seq<char>>, width: nat) -> Seq<Seq<char>>
    decreases ls.len(),
{
    if ls.len() == 0 {
        seq![]
    } else {
        wrap_all(ls.drop_last(), width) + wrap_line(ls.last(), width)
    }
}

/// The text wrapped to `width`; width 0 keeps the lines as they are.
pub open spec fn spec_wrap_text(t: Seq<char>, width: nat) -> Seq<Seq<char>> {
    if width == 0 {
        text::lines_of(t)
    } else {
        wrap_all(text::lines_of(t), width)
    }
}

/// Wrap one line that is wider than `width` at its words.
fn wrap_long_line(line: &str, width: usize, out: &mut Vec<String>)
    ensures
        text::views(final(out)@) == text::views(old(out)@) + wrap_words(
            text::words(line@),
            width as nat,
            Seq::<char>::empty(),
            0,
        ),
{
    let cs = chars_of(line);
    let ws = split_words(cs.as_slice());
    let ghost wv = text::views(ws@);
    let ghost start = text::views(out@);
    let mut current = String::new();
    let mut current_width: usize = 0;
    let mut i: usize = 0;
    assert(wv.skip(0) =~= wv);
    while i < ws.len()
        invariant
            i <= ws@.len(),
            wv == text::views(ws@),
            wv == text::words(line@),
            text::views(out@) + wrap_words(wv.skip(i as int), width as nat, current@, current_width as nat)
                == start + wrap_words(wv, width as nat, Seq::<char>::empty(), 0),
        decreases ws.len() - i,
    {
        let ghost rest = wv.skip(i as int);
        assert(rest[0] == ws@[i as int]@);
        assert(rest.skip(1) =~= wv.skip(i as int + 1));
        let word = ws[i].as_str();
        let word_width = str_width(word);
        let ghost old_cur = current@;
        let ghost old_cw = current_width as nat;
        if current_width == 0 {
            assert(wrap_words(rest, width as nat, old_cur, old_cw) == wrap_words(rest.skip(1), width as nat, word@, word_width as nat));
            current = text::owned(word);
            current_width = word_width;
            assert(text::views(out@) + wrap_words(wv.skip(i as int + 1), width as nat, current@, current_width as nat)
                == start + wrap_words(wv, width as nat, Seq::<char>::empty(), 0));
        } else if current_width as u128 + 1 + word_width as u128 <= width as u128 {
            assert(wrap_words(rest, width as nat, old_cur, old_cw) == wrap_words(
                rest.skip(1),
                width as nat,
                old_cur + seq![' '] + word@,
                old_cw + 1 + word_width as nat,
            ));
            push_char(&mut current, ' ');
            push_str(&mut current, word);
            current_width = current_width + 1 + word_width;
            assert(current@ =~= old_cur + seq![' '] + word@);
            assert(text::views(out@) + wrap_words(wv.skip(i as int + 1), width as nat, current@, current_width as nat)
                == start + wrap_words(wv, width as nat, Seq::<char>::empty(), 0));
        } else {
            assert(wrap_words(rest, width as nat, old_cur, old_cw) == seq![old_cur] + wrap_words(
                rest.skip(1),
                width as nat,
                word@,
                word_width as nat,
            ));
            let ghost before = text::views(out@);
            let done = current;
            out.push(done);
            assert(text::views(out@) =~= before.push(done@));
            assert(before.push(done@) + wrap_words(rest.skip(1), width as nat, word@, word_width as nat)
                =~= before + (seq![done@] + wrap_words(rest.skip(1), width as nat, word@, word_width as nat)));
            current = text::owned(word);
            current_width = word_width;
        }
        i += 1;
    }
    if !current.as_str().is_empty() {
        let ghost before = text::views(out@);
        out.push(current);
        assert(text::views(out@) =~= before.push(current@));
        assert(before + seq![current@] =~= before.push(current@));
    } else {
        assert(text::views(out@) + Seq::<Seq<char>>::empty() =~= text::views(out@));
    }
}

/// Wrap text to fit within given width.
pub fn wrap_text(t: &str, width: usize) -> (r: Vec<String>)
    ensures
        text::views(r@) == spec_wrap_text(t@, width as nat),
{
    let lines = split_lines(t);
    if width == 0 {
        return lines;
    }
    let ghost ls = text::views(lines@);
    let mut result: Vec<String> = Vec::new();
    let mut i: usize = 0;
    assert(ls.take(0) =~= Seq::<Seq<char>>::empty());
    while i < lines.len()
        invariant
            i <= lines@.len(),
            ls == text::views(lines@),
            ls == text::lines_of(t@),
            text::views(result@) == wrap_all(ls.take(i as int), width as nat),
        decreases lines.len() - i,
    {
        assert(ls.take(i as int + 1).drop_last() =~= ls.take(i as int));
        assert(ls.take(i as int + 1).last() == lines@[i as int]@);
        let line = lines[i].as_str();
        if str_width(line) <= width {
            let ghost before = text::views(result@);
            result.push(text::owned(line));
            assert(text::views(result@) =~= before + seq![line@]);
        } else {
            wrap_long_line(line, width, &mut result);
        }
        i += 1;
    }
    assert(ls.take(lines@.len() as int) =~= ls);
    result
}

/// The graphemes from `i` on, laid out while their widths, added to `w`,
/// stay within `lim`; at the first that would pass it, `...` ends the text.
pub open spec fn fit_graphemes(gs: Seq<Seq<char>>, i: int, w: nat, lim: nat) -> Seq<char>
    decreases gs.len() - i,
{
    if i < 0 || i >= gs.len() {
        seq![]
    } else if w + unicode::display_width(gs[i]) > lim {
        "..."@
    } else {
        gs[i] + fit_graphemes(gs, i + 1, w + unicode::display_width(gs[i]), lim)
    }
}

/// The text cut to `max_width` columns, by whole graphemes, with `...` in
/// three columns at the end; text that fits is kept.
pub open spec fn spec_truncate_to_width(t: Seq<char>, max_width: nat) -> Seq<char> {
    if unicode::display_width(t) <= max_width {
        t
    } else {
        fit_graphemes(unicode::graphemes(t), 0, 0, if max_width >= 3 { (max_width - 3) as nat } else { 0 })
    }
}

/// Truncate text to fit a display width, ending with `...` when cut.
pub fn truncate_to_width(t: &str, max_width: usize) -> (r: String)
    ensures
        r@ == spec_truncate_to_width(t@, max_width as nat),
{
    if str_width(t) <= max_width {
        return text::owned(t);
    }
    let limit = if max_width >= 3 {
        max_width - 3
    } else {
        0
    };
    let gs = grapheme_clusters(t);
    let ghost g = unicode::graphemes(t@);
    let mut result = String::new();
    let mut width: usize = 0;
    let mut i: usize = 0;
    while i < gs.len()
        invariant
            i <= gs@.len(),
            width <= limit,
            text::views(gs@) == g,
            g == unicode::graphemes(t@),
            limit == (if max_width >= 3 { max_width - 3 } else { 0 }),
            unicode::display_width(t@) > max_width,
            result@ + fit_graphemes(g, i as int, width as nat, limit as nat) == fit_graphemes(g, 0, 0, limit as nat),
        decreases gs.len() - i,
    {
        let gw = str_width(gs[i].as_str());
        assert(g[i as int] == gs@[i as int]@);
        if width as u128 + gw as u128 > limit as u128 {
            proof {
                reveal_strlit("...");
                assert(g.len() == gs@.len());
                assert(fit_graphemes(g, i as int, width as nat, limit as nat) == "..."@);
            }
            push_str(&mut result, "...");
            return result;
        }
        let ghost before = result@;
        push_str(&mut result, gs[i].as_str());
        assert(before + fit_graphemes(g, i as int, width as nat, limit as nat) =~= result@ + fit_graphemes(
            g,
            i + 1,
            (width + gw) as nat,
            limit as nat,
        ));
        width = width + gw;
        i += 1;
    }
    assert(result@ + Seq::<char>::empty() =~= result@);
    result
}

} // verus!
