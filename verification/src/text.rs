//! Character-level string utilities shared by the whole library.
//!
//! Text is modelled as its sequence of `char`s (`String::view`). Byte offsets,
//! which the editing code exposes, are derived from the UTF-8 length of each
//! character.

use vstd::prelude::*;
use vstd::std_specs::iter::IteratorSpec;

verus! {

/// Number of bytes the UTF-8 encoding of `c` takes.
pub open spec fn char_len(c: char) -> nat {
    let u = c as u32;
    if u < 0x80 {
        1
    } else if u < 0x800 {
        2
    } else if u < 0x10000 {
        3
    } else {
        4
    }
}

/// Number of bytes of the UTF-8 encoding of `s`.
pub open spec fn byte_len(s: Seq<char>) -> nat
    decreases s.len(),
{
    if s.len() == 0 {
        0
    } else {
        byte_len(s.drop_last()) + char_len(s.last())
    }
}

/// UTF-8 length of a character (`char::len_utf8`).
pub fn utf8_len(c: char) -> (n: usize)
    ensures
        n == char_len(c),
        1 <= n <= 4,
{
    let u = c as u32;
    if u < 0x80 {
        1
    } else if u < 0x800 {
        2
    } else if u < 0x10000 {
        3
    } else {
        4
    }
}

/// The characters of a string slice.
pub fn chars_of(s: &str) -> (v: Vec<char>)
    ensures
        v@ == s@,
{
    let mut v: Vec<char> = Vec::new();
    for c in iter: s.chars()
        invariant
            v@ == iter.seq().take(iter.index()),
    {
        v.push(c);
        assert(v@ =~= iter.seq().take(iter.index() + 1));
    }
    assert(v@ =~= s@);
    v
}

/// Appends one character to a string (`String::push`).
#[verifier::external_body]
pub(crate) fn push_char(s: &mut String, c: char)
    ensures
        final(s)@ == old(s)@.push(c),
{
    s.push(c);
}

/// Builds a `String` holding exactly the given characters.
pub fn string_from_chars(v: &[char]) -> (s: String)
    ensures
        s@ == v@,
{
    let mut s = String::new();
    let mut i: usize = 0;
    while i < v.len()
        invariant
            i <= v.len(),
            s@ == v@.take(i as int),
        decreases v.len() - i,
    {
        push_char(&mut s, v[i]);
        i += 1;
        assert(s@ =~= v@.take(i as int));
    }
    assert(v@.take(v.len() as int) =~= v@);
    s
}

} // verus!

verus! {

/// The character views of a sequence of strings.
pub open spec fn views(v: Seq<String>) -> Seq<Seq<char>> {
    v.map_values(|x: String| x@)
}

/// Index of the first `'\n'` in `s`, or `s.len()` when there is none.
pub open spec fn first_nl(s: Seq<char>) -> nat
    decreases s.len(),
{
    if s.len() == 0 {
        0
    } else if s[0] == '\n' {
        0
    } else {
        1 + first_nl(s.drop_first())
    }
}

/// A line with one trailing carriage return removed.
pub open spec fn strip_cr(l: Seq<char>) -> Seq<char> {
    if l.len() > 0 && l.last() == '\r' {
        l.drop_last()
    } else {
        l
    }
}

/// The lines of `s` as `str::lines` yields them: split at `'\n'`, a `"\r\n"`
/// ending counts as one line ending, and a final line ending adds no empty line.
pub open spec fn lines_of(s: Seq<char>) -> Seq<Seq<char>>
    decreases s.len(),
{
    if s.len() == 0 {
        seq![]
    } else {
        let i = first_nl(s);
        if i >= s.len() {
            seq![s]
        } else {
            seq![strip_cr(s.take(i as int))] + lines_of(s.skip(i as int + 1))
        }
    }
}

/// The strings of `ls` separated by `sep` (`[String]::join`).
pub open spec fn join(ls: Seq<Seq<char>>, sep: Seq<char>) -> Seq<char>
    decreases ls.len(),
{
    if ls.len() == 0 {
        seq![]
    } else if ls.len() == 1 {
        ls[0]
    } else {
        join(ls.drop_last(), sep) + sep + ls.last()
    }
}

/// `s` has no newline character.
pub open spec fn no_nl(s: Seq<char>) -> bool {
    forall|j: int| 0 <= j < s.len() ==> s[j] != '\n'
}

pub proof fn lemma_first_nl(s: Seq<char>, k: int)
    requires
        0 <= k <= s.len(),
        no_nl(s.take(k)),
        k < s.len() ==> s[k] == '\n',
    ensures
        first_nl(s) == k,
    decreases k,
{
    if k > 0 {
        assert(s[0] == s.take(k)[0]);
        let t = s.drop_first();
        assert forall|j: int| 0 <= j < k - 1 implies #[trigger] t.take(k - 1)[j] != '\n' by {
            assert(t.take(k - 1)[j] == s.take(k)[j + 1]);
        }
        lemma_first_nl(t, k - 1);
    }
}

/// A string without newlines is one line (or none when empty).
pub proof fn lemma_lines_no_nl(s: Seq<char>)
    requires
        no_nl(s),
    ensures
        lines_of(s) == (if s.len() == 0 { seq![] } else { seq![s] }),
{
    if s.len() > 0 {
        assert(s.take(s.len() as int) =~= s);
        lemma_first_nl(s, s.len() as int);
    }
}

/// One step of `lines_of`: the text up to the first newline is the first line.
pub proof fn lemma_lines_step(s: Seq<char>, k: int)
    requires
        0 <= k < s.len(),
        no_nl(s.take(k)),
        s[k] == '\n',
    ensures
        lines_of(s) == seq![strip_cr(s.take(k))] + lines_of(s.skip(k + 1)),
{
    lemma_first_nl(s, k);
}

/// A fresh `String` with the characters `v[lo..hi]`.
pub fn string_from_range(v: &[char], lo: usize, hi: usize) -> (s: String)
    requires
        lo <= hi <= v@.len(),
    ensures
        s@ == v@.subrange(lo as int, hi as int),
{
    let mut s = String::new();
    let mut i: usize = lo;
    while i < hi
        invariant
            lo <= i <= hi <= v@.len(),
            s@ == v@.subrange(lo as int, i as int),
        decreases hi - i,
    {
        push_char(&mut s, v[i]);
        i += 1;
        assert(s@ =~= v@.subrange(lo as int, i as int));
    }
    s
}

/// `string_from_range` with a trailing carriage return left out.
fn line_from_range(v: &[char], lo: usize, hi: usize) -> (s: String)
    requires
        lo <= hi <= v@.len(),
    ensures
        s@ == strip_cr(v@.subrange(lo as int, hi as int)),
{
    if hi > lo && v[hi - 1] == '\r' {
        let s = string_from_range(v, lo, hi - 1);
        assert(s@ =~= strip_cr(v@.subrange(lo as int, hi as int)));
        s
    } else {
        string_from_range(v, lo, hi)
    }
}

/// The lines of a character sequence (`str::lines`).
pub fn split_lines_chars(cs: &[char]) -> (v: Vec<String>)
    ensures
        views(v@) == lines_of(cs@),
{
    let mut out: Vec<String> = Vec::new();
    let mut start: usize = 0;
    let mut i: usize = 0;
    assert(cs@.skip(0) =~= cs@);
    assert(views(out@) =~= seq![]);
    while i < cs.len()
        invariant
            start <= i <= cs.len(),
            no_nl(cs@.subrange(start as int, i as int)),
            views(out@) + lines_of(cs@.skip(start as int)) == lines_of(cs@),
        decreases cs.len() - i,
    {
        if cs[i] == '\n' {
            let line = line_from_range(cs, start, i);
            proof {
                let t = cs@.skip(start as int);
                assert(t.take(i - start) =~= cs@.subrange(start as int, i as int));
                lemma_lines_step(t, i - start);
                assert(t.skip(i - start + 1) =~= cs@.skip(i + 1));
            }
            let ghost prev = out@;
            out.push(line);
            assert(views(out@) =~= views(prev).push(line@));
            start = i + 1;
        }
        i += 1;
        assert(cs@.subrange(start as int, i as int) =~= if start == i { seq![] } else { cs@.subrange(start as int, i - 1).push(cs@[i - 1]) });
    }
    proof {
        let t = cs@.skip(start as int);
        assert(t =~= cs@.subrange(start as int, i as int));
        lemma_lines_no_nl(t);
    }
    if start < cs.len() {
        let line = string_from_range(cs, start, cs.len());
        out.push(line);
        assert(views(out@) =~= lines_of(cs@));
    } else {
        assert(views(out@) =~= lines_of(cs@));
    }
    out
}

/// The lines of a string slice (`str::lines`).
pub fn split_lines(s: &str) -> (v: Vec<String>)
    ensures
        views(v@) == lines_of(s@),
{
    let cs = chars_of(s);
    split_lines_chars(cs.as_slice())
}

/// A copy of a vector of strings.
pub fn copy_strings(v: &Vec<String>) -> (r: Vec<String>)
    ensures
        r@ == v@,
{
    let mut r: Vec<String> = Vec::new();
    let mut i: usize = 0;
    while i < v.len()
        invariant
            i <= v@.len(),
            r@ == v@.take(i as int),
        decreases v@.len() - i,
    {
        r.push(v[i].clone());
        i += 1;
        assert(r@ =~= v@.take(i as int));
    }
    assert(v@.take(v@.len() as int) =~= v@);
    r
}

/// Appends all characters of `t` to `s` (`String::push_str`).
pub fn push_str(s: &mut String, t: &str)
    ensures
        final(s)@ == old(s)@ + t@,
{
    let cs = chars_of(t);
    let mut i: usize = 0;
    while i < cs.len()
        invariant
            i <= cs@.len(),
            cs@ == t@,
            s@ == old(s)@ + cs@.take(i as int),
        decreases cs.len() - i,
    {
        push_char(s, cs[i]);
        i += 1;
        assert(s@ =~= old(s)@ + cs@.take(i as int));
    }
    assert(cs@.take(cs.len() as int) =~= cs@);
}

/// The strings of `v` joined by `sep` (`[String]::join`).
pub fn join_strings(v: &[String], sep: &str) -> (s: String)
    ensures
        s@ == join(views(v@), sep@),
{
    let mut s = String::new();
    let mut i: usize = 0;
    while i < v.len()
        invariant
            i <= v@.len(),
            s@ == join(views(v@.take(i as int)), sep@),
        decreases v.len() - i,
    {
        if i > 0 {
            push_str(&mut s, sep);
        }
        push_str(&mut s, v[i].as_str());
        proof {
            let a = views(v@.take(i as int + 1));
            assert(a.drop_last() =~= views(v@.take(i as int)));
            assert(a.last() == v@[i as int]@);
            if i == 0 {
                assert(s@ =~= join(a, sep@));
            }
        }
        i += 1;
    }
    assert(v@.take(v.len() as int) =~= v@);
    s
}

} // verus!

verus! {

/// The non-empty members of `ls`, in order.
pub open spec fn non_empty(ls: Seq<Seq<char>>) -> Seq<Seq<char>>
    decreases ls.len(),
{
    if ls.len() == 0 {
        seq![]
    } else if ls.last().len() == 0 {
        non_empty(ls.drop_last())
    } else {
        non_empty(ls.drop_last()).push(ls.last())
    }
}

/// Index of the last `'\n'` in `s`, or -1 when there is none.
pub open spec fn last_nl(s: Seq<char>) -> int
    decreases s.len(),
{
    if s.len() == 0 {
        -1
    } else if s.last() == '\n' {
        s.len() - 1
    } else {
        last_nl(s.drop_last())
    }
}

pub proof fn lemma_non_empty_append(a: Seq<Seq<char>>, b: Seq<Seq<char>>)
    ensures
        non_empty(a + b) == non_empty(a) + non_empty(b),
    decreases b.len(),
{
    if b.len() == 0 {
        assert(a + b =~= a);
        assert(non_empty(b) =~= seq![]);
        assert(non_empty(a) + non_empty(b) =~= non_empty(a));
    } else {
        assert((a + b).drop_last() =~= a + b.drop_last());
        lemma_non_empty_append(a, b.drop_last());
        if b.last().len() == 0 {
        } else {
            assert(non_empty(a) + non_empty(b.drop_last()).push(b.last()) =~= (non_empty(a)
                + non_empty(b.drop_last())).push(b.last()));
        }
    }
}

pub proof fn lemma_last_nl_bounds(s: Seq<char>)
    ensures
        -1 <= last_nl(s) < s.len(),
        last_nl(s) >= 0 ==> s[last_nl(s)] == '\n',
        no_nl(s.skip(last_nl(s) + 1)),
    decreases s.len(),
{
    if s.len() > 0 {
        if s.last() != '\n' {
            lemma_last_nl_bounds(s.drop_last());
            let k = last_nl(s.drop_last());
            assert forall|j: int| 0 <= j < s.skip(k + 1).len() implies #[trigger] s.skip(k + 1)[j]
                != '\n' by {
                if j < s.skip(k + 1).len() - 1 {
                    assert(s.skip(k + 1)[j] == s.drop_last().skip(k + 1)[j]);
                }
            }
        }
    }
}

/// Splitting a text right after a newline splits its lines.
pub proof fn lemma_lines_append(a: Seq<char>, b: Seq<char>)
    requires
        a.len() > 0 ==> a.last() == '\n',
    ensures
        lines_of(a + b) == lines_of(a) + lines_of(b),
    decreases a.len(),
{
    if a.len() == 0 {
        assert(a + b =~= b);
        assert(lines_of(a) + lines_of(b) =~= lines_of(b));
    } else {
        let k: int = first_nl(a) as int;
        lemma_first_nl_bound(a);
        assert(k < a.len()) by {
            if k >= a.len() {
                lemma_first_nl_none(a);
                assert(a[a.len() - 1] == '\n');
            }
        }
        lemma_first_nl_is_nl(a);
        let s = a + b;
        assert(s.take(k) =~= a.take(k));
        lemma_first_nl_prefix_free(a);
        lemma_lines_step(s, k);
        lemma_lines_step(a, k);
        assert(s.skip(k + 1) =~= a.skip(k + 1) + b);
        lemma_lines_append(a.skip(k + 1), b);
    }
}

pub proof fn lemma_first_nl_bound(s: Seq<char>)
    ensures
        first_nl(s) <= s.len(),
    decreases s.len(),
{
    if s.len() > 0 && s[0] != '\n' {
        lemma_first_nl_bound(s.drop_first());
    }
}

pub proof fn lemma_first_nl_none(s: Seq<char>)
    requires
        first_nl(s) >= s.len(),
    ensures
        no_nl(s),
    decreases s.len(),
{
    if s.len() > 0 {
        if s[0] == '\n' {
        } else {
            lemma_first_nl_none(s.drop_first());
            assert forall|j: int| 0 <= j < s.len() implies s[j] != '\n' by {
                if j > 0 {
                    assert(s[j] == s.drop_first()[j - 1]);
                }
            }
        }
    }
}

pub proof fn lemma_first_nl_is_nl(s: Seq<char>)
    requires
        first_nl(s) < s.len(),
    ensures
        s[first_nl(s) as int] == '\n',
    decreases s.len(),
{
    if s[0] != '\n' {
        lemma_first_nl_is_nl(s.drop_first());
    }
}

pub proof fn lemma_first_nl_prefix_free(s: Seq<char>)
    ensures
        first_nl(s) <= s.len(),
        no_nl(s.take(first_nl(s) as int)),
    decreases s.len(),
{
    lemma_first_nl_bound(s);
    if s.len() > 0 && s[0] != '\n' {
        lemma_first_nl_prefix_free(s.drop_first());
        let k = first_nl(s);
        assert forall|j: int| 0 <= j < k implies #[trigger] s.take(k as int)[j] != '\n' by {
            if j > 0 {
                assert(s.take(k as int)[j] == s.drop_first().take(k - 1)[j - 1]);
            }
        }
    }
}

/// The non-empty lines of a string slice, in order.
pub fn non_empty_lines(s: &str) -> (v: Vec<String>)
    ensures
        views(v@) == non_empty(lines_of(s@)),
{
    let all = split_lines(s);
    let mut out: Vec<String> = Vec::new();
    let mut i: usize = 0;
    while i < all.len()
        invariant
            i <= all@.len(),
            views(all@) == lines_of(s@),
            views(out@) == non_empty(views(all@).take(i as int)),
        decreases all.len() - i,
    {
        let ghost prev = out@;
        let ghost t = views(all@).take(i as int + 1);
        assert(t.drop_last() =~= views(all@).take(i as int));
        if all[i].as_str().is_empty() {
        } else {
            out.push(all[i].clone());
            assert(views(out@) =~= views(prev).push(all@[i as int]@));
        }
        i += 1;
    }
    assert(views(all@).take(all.len() as int) =~= views(all@));
    out
}

} // verus!

verus! {

/// `char::is_whitespace`: the characters with the Unicode `White_Space` property.
pub open spec fn is_ws(c: char) -> bool {
    let u = c as u32;
    (0x09 <= u <= 0x0D) || u == 0x20 || u == 0x85 || u == 0xA0 || u == 0x1680 || (0x2000 <= u
        <= 0x200A) || u == 0x2028 || u == 0x2029 || u == 0x202F || u == 0x205F || u == 0x3000
}

/// Whether `c` is whitespace (`char::is_whitespace`).
pub fn is_whitespace(c: char) -> (b: bool)
    ensures
        b == is_ws(c),
{
    let u = c as u32;
    (0x09 <= u && u <= 0x0D) || u == 0x20 || u == 0x85 || u == 0xA0 || u == 0x1680 || (0x2000 <= u
        && u <= 0x200A) || u == 0x2028 || u == 0x2029 || u == 0x202F || u == 0x205F || u == 0x3000
}

/// `s` begins with `p`.
pub open spec fn starts_with(s: Seq<char>, p: Seq<char>) -> bool {
    p.len() <= s.len() && s.take(p.len() as int) == p
}

/// Whether `s` begins with `p` (`str::starts_with`).
pub fn chars_start_with(s: &[char], p: &[char]) -> (b: bool)
    ensures
        b == starts_with(s@, p@),
{
    if p.len() > s.len() {
        return false;
    }
    let mut i: usize = 0;
    while i < p.len()
        invariant
            i <= p@.len() <= s@.len(),
            forall|j: int| 0 <= j < i ==> s@[j] == p@[j],
        decreases p.len() - i,
    {
        if s[i] != p[i] {
            assert(s@.take(p@.len() as int)[i as int] != p@[i as int]);
            return false;
        }
        i += 1;
    }
    assert(s@.take(p@.len() as int) =~= p@);
    true
}

/// Whether two string slices hold the same characters.
pub fn str_eq(a: &str, b: &str) -> (r: bool)
    ensures
        r == (a@ == b@),
{
    let x = chars_of(a);
    let y = chars_of(b);
    if x.len() != y.len() {
        return false;
    }
    let ok = chars_start_with(x.as_slice(), y.as_slice());
    assert(x@.take(y@.len() as int) =~= x@);
    ok
}

/// Whether a string slice begins with another (`str::starts_with`).
pub fn str_starts_with(s: &str, p: &str) -> (b: bool)
    ensures
        b == starts_with(s@, p@),
{
    let x = chars_of(s);
    let y = chars_of(p);
    chars_start_with(x.as_slice(), y.as_slice())
}

pub proof fn lemma_byte_len_take_step(s: Seq<char>, i: int)
    requires
        0 <= i < s.len(),
    ensures
        byte_len(s.take(i + 1)) == byte_len(s.take(i)) + char_len(s[i]),
{
    assert(s.take(i + 1).drop_last() =~= s.take(i));
}

/// Byte offsets grow strictly with the character index.
pub proof fn lemma_byte_len_take_mono(s: Seq<char>, i: int, j: int)
    requires
        0 <= i <= j <= s.len(),
    ensures
        byte_len(s.take(i)) + (j - i) <= byte_len(s.take(j)),
        byte_len(s.take(j)) <= byte_len(s.take(i)) + 4 * (j - i),
    decreases j - i,
{
    if i < j {
        lemma_byte_len_take_step(s, j - 1);
        lemma_byte_len_take_mono(s, i, j - 1);
    }
}

pub proof fn lemma_byte_len_take_all(s: Seq<char>)
    ensures
        byte_len(s.take(s.len() as int)) == byte_len(s),
{
    assert(s.take(s.len() as int) =~= s);
}

pub proof fn lemma_byte_len_concat(a: Seq<char>, b: Seq<char>)
    ensures
        byte_len(a + b) == byte_len(a) + byte_len(b),
    decreases b.len(),
{
    if b.len() == 0 {
        assert(a + b =~= a);
    } else {
        assert((a + b).drop_last() =~= a + b.drop_last());
        lemma_byte_len_concat(a, b.drop_last());
    }
}

/// `pos` is the byte offset of a character boundary of `s`.
pub open spec fn is_boundary(s: Seq<char>, pos: int) -> bool {
    exists|i: int| 0 <= i <= s.len() && #[trigger] byte_len(s.take(i)) == pos
}

/// The character index whose byte offset is `pos`, if `pos` is a character
/// boundary of `cs` (`str::is_char_boundary`).
pub fn char_index_at_byte(cs: &[char], pos: usize) -> (r: Option<usize>)
    ensures
        r matches Some(i) ==> i <= cs@.len() && byte_len(cs@.take(i as int)) == pos,
        r is None ==> !is_boundary(cs@, pos as int),
{
    let mut acc: u128 = 0;
    let mut i: usize = 0;
    assert(cs@.take(0) =~= Seq::<char>::empty());
    while i < cs.len()
        invariant
            i <= cs@.len(),
            acc == byte_len(cs@.take(i as int)),
            acc <= pos,
            forall|j: int| 0 <= j < i ==> #[trigger] byte_len(cs@.take(j)) < pos,
        decreases cs.len() - i,
    {
        if acc == pos as u128 {
            return Some(i);
        }
        proof {
            lemma_byte_len_take_step(cs@, i as int);
        }
        acc = acc + utf8_len(cs[i]) as u128;
        i += 1;
        if acc > pos as u128 {
            proof {
                assert forall|j: int| 0 <= j <= cs@.len() implies #[trigger] byte_len(cs@.take(j)) != pos by {
                    if j >= i {
                        lemma_byte_len_take_mono(cs@, i as int, j);
                    }
                }
            }
            return None;
        }
    }
    if acc == pos as u128 {
        return Some(i);
    }
    proof {
        assert forall|j: int| 0 <= j <= cs@.len() implies #[trigger] byte_len(cs@.take(j)) != pos by {
        }
    }
    None
}

/// Byte offset of character index `i` (`byte_len(cs[..i])`).
pub fn byte_offset_of(cs: &[char], i: usize) -> (n: usize)
    requires
        i <= cs@.len(),
        byte_len(cs@.take(i as int)) <= usize::MAX,
    ensures
        n == byte_len(cs@.take(i as int)),
{
    let mut acc: usize = 0;
    let mut k: usize = 0;
    assert(cs@.take(0) =~= Seq::<char>::empty());
    while k < i
        invariant
            k <= i <= cs@.len(),
            acc == byte_len(cs@.take(k as int)),
            byte_len(cs@.take(i as int)) <= usize::MAX,
        decreases i - k,
    {
        proof {
            lemma_byte_len_take_step(cs@, k as int);
            lemma_byte_len_take_mono(cs@, k as int + 1, i as int);
        }
        acc = acc + utf8_len(cs[k]);
        k += 1;
    }
    acc
}

} // verus!

verus! {

/// Byte offsets of distinct character boundaries differ.
pub proof fn lemma_byte_len_take_injective(s: Seq<char>, i: int, j: int)
    requires
        0 <= i <= s.len(),
        0 <= j <= s.len(),
        byte_len(s.take(i)) == byte_len(s.take(j)),
    ensures
        i == j,
{
    if i < j {
        lemma_byte_len_take_mono(s, i, j);
    } else if j < i {
        lemma_byte_len_take_mono(s, j, i);
    }
}

/// The character index of byte boundary `pos` (meaningful when `is_boundary(s, pos)`).
pub open spec fn char_idx(s: Seq<char>, pos: int) -> int {
    choose|i: int| 0 <= i <= s.len() && #[trigger] byte_len(s.take(i)) == pos
}

/// The text before byte offset `pos`: `&s[..pos]` when `pos` is within the
/// text, the whole text otherwise.
pub open spec fn prefix_upto(s: Seq<char>, pos: int) -> Seq<char> {
    if pos >= byte_len(s) {
        s
    } else {
        s.take(char_idx(s, pos))
    }
}

/// Either `pos` lies past the end of `s`, or it is a character boundary.
pub open spec fn boundary_or_past(s: Seq<char>, pos: int) -> bool {
    pos > byte_len(s) || is_boundary(s, pos)
}

pub proof fn lemma_char_idx(s: Seq<char>, i: int)
    requires
        0 <= i <= s.len(),
    ensures
        is_boundary(s, byte_len(s.take(i)) as int),
        char_idx(s, byte_len(s.take(i)) as int) == i,
{
    let pos = byte_len(s.take(i)) as int;
    assert(byte_len(s.take(i)) == pos);
    let k = char_idx(s, pos);
    lemma_byte_len_take_injective(s, i, k);
}

/// The character count of `prefix_upto(s, pos)`.
pub fn prefix_len_chars(cs: &[char], pos: usize) -> (k: usize)
    requires
        boundary_or_past(cs@, pos as int),
    ensures
        k <= cs@.len(),
        prefix_upto(cs@, pos as int) == cs@.take(k as int),
        pos <= byte_len(cs@) ==> byte_len(cs@.take(k as int)) == pos,
{
    proof {
        lemma_byte_len_take_all(cs@);
    }
    match char_index_at_byte(cs, pos) {
        Some(i) => {
            proof {
                lemma_char_idx(cs@, i as int);
                lemma_byte_len_take_mono(cs@, i as int, cs@.len() as int);
                if pos >= byte_len(cs@) {
                    lemma_byte_len_take_injective(cs@, i as int, cs@.len() as int);
                    assert(cs@.take(i as int) =~= cs@);
                }
            }
            i
        },
        None => {
            assert(cs@.take(cs@.len() as int) =~= cs@);
            cs.len()
        },
    }
}

} // verus!

verus! {

/// The words of `s` (`str::split_whitespace`), where `cur` is a word already
/// begun before `s`.
pub open spec fn words_acc(s: Seq<char>, cur: Seq<char>) -> Seq<Seq<char>>
    decreases s.len(),
{
    if s.len() == 0 {
        if cur.len() > 0 {
            seq![cur]
        } else {
            seq![]
        }
    } else if is_ws(s[0]) {
        (if cur.len() > 0 {
            seq![cur]
        } else {
            seq![]
        }) + words_acc(s.drop_first(), seq![])
    } else {
        words_acc(s.drop_first(), cur.push(s[0]))
    }
}

/// The whitespace-separated words of `s` (`str::split_whitespace`).
pub open spec fn words(s: Seq<char>) -> Seq<Seq<char>> {
    words_acc(s, seq![])
}

/// The whitespace-separated words of a character sequence (`str::split_whitespace`).
pub fn split_words(cs: &[char]) -> (v: Vec<String>)
    ensures
        views(v@) == words(cs@),
{
    let mut out: Vec<String> = Vec::new();
    let mut start: usize = 0;
    let mut i: usize = 0;
    assert(cs@.skip(0) =~= cs@);
    assert(cs@.subrange(0, 0) =~= Seq::<char>::empty());
    assert(views(out@) =~= Seq::<Seq<char>>::empty());
    while i < cs.len()
        invariant
            start <= i <= cs@.len(),
            views(out@) + words_acc(cs@.skip(i as int), cs@.subrange(start as int, i as int)) == words(cs@),
        decreases cs.len() - i,
    {
        let ghost cur = cs@.subrange(start as int, i as int);
        let ghost rest = cs@.skip(i as int);
        assert(rest.drop_first() =~= cs@.skip(i + 1));
        assert(rest[0] == cs@[i as int]);
        if is_whitespace(cs[i]) {
            if start < i {
                let w = string_from_range(cs, start, i);
                let ghost prev = out@;
                out.push(w);
                assert(views(out@) =~= views(prev).push(w@));
                assert(views(out@) + words_acc(cs@.skip(i + 1), seq![]) =~= views(prev) + (seq![cur]
                    + words_acc(cs@.skip(i + 1), seq![])));
            } else {
                assert(views(out@) + words_acc(cs@.skip(i + 1), seq![]) =~= views(out@) + (seq![]
                    + words_acc(cs@.skip(i + 1), seq![])));
            }
            start = i + 1;
            assert(cs@.subrange(start as int, i + 1) =~= Seq::<char>::empty());
        } else {
            assert(cs@.subrange(start as int, i + 1) =~= cur.push(cs@[i as int]));
        }
        i += 1;
    }
    let ghost cur = cs@.subrange(start as int, i as int);
    assert(cs@.skip(i as int) =~= Seq::<char>::empty());
    if start < i {
        let w = string_from_range(cs, start, i);
        let ghost prev = out@;
        out.push(w);
        assert(views(out@) =~= views(prev) + seq![cur]);
    } else {
        assert(views(out@) =~= views(out@) + Seq::<Seq<char>>::empty());
    }
    out
}

} // verus!

verus! {

/// Byte length of a string slice (`str::len`). Every string lives in one
/// allocation, and std documents that no allocation exceeds `isize::MAX` bytes.
#[verifier::external_body]
pub(crate) fn str_len(s: &str) -> (n: usize)
    ensures
        n == byte_len(s@),
        n <= isize::MAX,
{
    s.len()
}

} // verus!

verus! {

/// The concatenation of all members of `ls`, in order.
pub open spec fn concat_all(ls: Seq<Seq<char>>) -> Seq<char>
    decreases ls.len(),
{
    if ls.len() == 0 {
        seq![]
    } else {
        concat_all(ls.drop_last()) + ls.last()
    }
}

} // verus!

verus! {

/// The first index `i` in `from..n` with `p(i)`.
pub open spec fn first_from(from: int, n: int, p: spec_fn(int) -> bool) -> Option<int>
    decreases n - from,
{
    if from >= n {
        None
    } else if p(from) {
        Some(from)
    } else {
        first_from(from + 1, n, p)
    }
}

/// The last index `i` below `n` with `p(i)`.
pub open spec fn last_below(n: int, p: spec_fn(int) -> bool) -> Option<int>
    decreases n,
{
    if n <= 0 {
        None
    } else if p(n - 1) {
        Some(n - 1)
    } else {
        last_below(n - 1, p)
    }
}

/// A search from `from` finds nothing or an index at or after `from` that
/// satisfies `p`, with no earlier one from `from` on.
pub proof fn lemma_first_from(from: int, n: int, p: spec_fn(int) -> bool)
    ensures
        first_from(from, n, p) matches Some(i) ==> from <= i < n && p(i) && forall|j: int|
            from <= j < i ==> !#[trigger] p(j),
        first_from(from, n, p) is None ==> forall|j: int| from <= j < n ==> !#[trigger] p(j),
    decreases n - from,
{
    if from < n && !p(from) {
        lemma_first_from(from + 1, n, p);
    }
}

/// The concatenation splits at any index.
pub proof fn lemma_concat_all_split(ls: Seq<Seq<char>>, i: int)
    requires
        0 <= i <= ls.len(),
    ensures
        concat_all(ls) == concat_all(ls.take(i)) + concat_all(ls.skip(i)),
    decreases ls.len() - i,
{
    if i == ls.len() {
        assert(ls.take(i) =~= ls);
        assert(ls.skip(i) =~= Seq::<Seq<char>>::empty());
        assert(concat_all(ls) + Seq::<char>::empty() =~= concat_all(ls));
    } else {
        lemma_concat_all_split(ls, i + 1);
        let t = ls.skip(i);
        lemma_concat_all_front(t);
        assert(t.drop_first() =~= ls.skip(i + 1));
        assert(ls.take(i + 1).drop_last() =~= ls.take(i));
        assert(concat_all(ls.take(i + 1)) == concat_all(ls.take(i)) + ls[i]);
        assert(concat_all(ls.take(i)) + ls[i] + concat_all(ls.skip(i + 1)) =~= concat_all(ls.take(i))
            + (ls[i] + concat_all(ls.skip(i + 1))));
    }
}

/// The concatenation of a non-empty sequence starts with its first member.
pub proof fn lemma_concat_all_front(ls: Seq<Seq<char>>)
    requires
        ls.len() > 0,
    ensures
        concat_all(ls) == ls[0] + concat_all(ls.drop_first()),
    decreases ls.len(),
{
    if ls.len() == 1 {
        assert(ls.drop_last() =~= Seq::<Seq<char>>::empty());
        assert(ls.drop_first() =~= Seq::<Seq<char>>::empty());
        assert(ls[0] + Seq::<char>::empty() =~= ls[0]);
        assert(Seq::<char>::empty() + ls[0] =~= ls[0]);
    } else {
        lemma_concat_all_front(ls.drop_last());
        assert(ls.drop_last().drop_first() =~= ls.drop_first().drop_last());
        assert(ls.drop_first().last() == ls.last());
        assert(ls[0] + concat_all(ls.drop_first().drop_last()) + ls.last() =~= ls[0] + (concat_all(
            ls.drop_first().drop_last(),
        ) + ls.last()));
    }
}

/// One more member extends the concatenation of a prefix by that member.
pub proof fn lemma_concat_all_take_step(ls: Seq<Seq<char>>, i: int)
    requires
        0 <= i < ls.len(),
    ensures
        concat_all(ls.take(i + 1)) == concat_all(ls.take(i)) + ls[i],
        byte_len(concat_all(ls.take(i + 1))) == byte_len(concat_all(ls.take(i))) + byte_len(ls[i]),
{
    assert(ls.take(i + 1).drop_last() =~= ls.take(i));
    lemma_byte_len_concat(concat_all(ls.take(i)), ls[i]);
}

/// A prefix of the members concatenates to no more bytes than all of them.
pub proof fn lemma_concat_all_take_bound(ls: Seq<Seq<char>>, i: int)
    requires
        0 <= i <= ls.len(),
    ensures
        byte_len(concat_all(ls.take(i))) <= byte_len(concat_all(ls)),
{
    lemma_concat_all_split(ls, i);
    lemma_byte_len_concat(concat_all(ls.take(i)), concat_all(ls.skip(i)));
}

/// The bytes of a text split at a character index.
pub proof fn lemma_byte_len_split(s: Seq<char>, k: int)
    requires
        0 <= k <= s.len(),
    ensures
        byte_len(s) == byte_len(s.take(k)) + byte_len(s.skip(k)),
{
    assert(s =~= s.take(k) + s.skip(k));
    lemma_byte_len_concat(s.take(k), s.skip(k));
}

/// The concatenation of one member is that member.
pub proof fn lemma_concat_all_single(x: Seq<char>)
    ensures
        concat_all(seq![x]) == x,
{
    assert(seq![x].drop_last() =~= Seq::<Seq<char>>::empty());
    assert(seq![x].last() == x);
    assert(concat_all(Seq::<Seq<char>>::empty()) =~= Seq::<char>::empty());
    assert(Seq::<char>::empty() + x =~= x);
}

/// A single character takes `char_len` bytes.
pub proof fn lemma_byte_len_single(c: char)
    ensures
        byte_len(seq![c]) == char_len(c),
{
    assert(seq![c].drop_last() =~= Seq::<char>::empty());
    assert(byte_len(Seq::<char>::empty()) == 0);
    assert(seq![c].last() == c);
}

} // verus!

verus! {

/// `s` with every leading `c` removed (`str::trim_start_matches(c)`).
pub open spec fn strip_lead(s: Seq<char>, c: char) -> Seq<char>
    decreases s.len(),
{
    if s.len() > 0 && s[0] == c {
        strip_lead(s.drop_first(), c)
    } else {
        s
    }
}

/// The index of the first `c` in `s`, or its length when there is none.
pub open spec fn index_of(s: Seq<char>, c: char) -> nat
    decreases s.len(),
{
    if s.len() == 0 {
        0
    } else if s[0] == c {
        0
    } else {
        1 + index_of(s.drop_first(), c)
    }
}

/// Every character of `s` is an ASCII digit.
pub open spec fn all_digits(s: Seq<char>) -> bool {
    forall|i: int| 0 <= i < s.len() ==> '0' <= #[trigger] s[i] <= '9'
}

/// The decimal value of a string of digits.
pub open spec fn digits_value(s: Seq<char>) -> nat
    decreases s.len(),
{
    if s.len() == 0 {
        0
    } else {
        digits_value(s.drop_last()) * 10 + ((s.last() as u32 - '0' as u32) as nat)
    }
}

/// `s` without one leading `+` sign.
pub open spec fn unsigned_part(s: Seq<char>) -> Seq<char> {
    if s.len() > 0 && s[0] == '+' {
        s.drop_first()
    } else {
        s
    }
}

/// What `str::parse::<u32>` gives: an optional `+` sign, then one or more
/// ASCII digits whose value fits in `u32`.
pub open spec fn parse_u32_spec(s: Seq<char>) -> Option<u32> {
    let d = unsigned_part(s);
    if d.len() > 0 && all_digits(d) && digits_value(d) <= u32::MAX {
        Some(digits_value(d) as u32)
    } else {
        None
    }
}

/// The index just past the leading run of `c` in `cs[from..]`.
pub fn skip_lead(cs: &[char], from: usize, c: char) -> (i: usize)
    requires
        from <= cs@.len(),
    ensures
        from <= i <= cs@.len(),
        cs@.skip(i as int) == strip_lead(cs@.skip(from as int), c),
{
    let mut i = from;
    while i < cs.len() && cs[i] == c
        invariant
            from <= i <= cs@.len(),
            strip_lead(cs@.skip(from as int), c) == strip_lead(cs@.skip(i as int), c),
        decreases cs@.len() - i,
    {
        assert(cs@.skip(i as int).drop_first() =~= cs@.skip(i + 1));
        i += 1;
    }
    i
}

/// The index of the first `c` in `cs[from..]`, relative to `from`.
pub fn index_in(cs: &[char], from: usize, c: char) -> (k: usize)
    requires
        from <= cs@.len(),
    ensures
        k == index_of(cs@.skip(from as int), c),
        from + k <= cs@.len(),
{
    let mut i = from;
    while i < cs.len() && cs[i] != c
        invariant
            from <= i <= cs@.len(),
            index_of(cs@.skip(from as int), c) == (i - from) + index_of(cs@.skip(i as int), c),
        decreases cs@.len() - i,
    {
        assert(cs@.skip(i as int).drop_first() =~= cs@.skip(i + 1));
        i += 1;
    }
    i - from
}

proof fn lemma_digits_value_mono(s: Seq<char>, k: int)
    requires
        0 <= k <= s.len(),
    ensures
        digits_value(s.take(k)) <= digits_value(s),
    decreases s.len() - k,
{
    if k < s.len() {
        lemma_digits_value_mono(s, k + 1);
        assert(s.take(k + 1).drop_last() =~= s.take(k));
    } else {
        assert(s.take(k) =~= s);
    }
}

/// `str::parse::<u32>` on `cs[lo..hi]`.
pub fn parse_u32_chars(cs: &[char], lo: usize, hi: usize) -> (r: Option<u32>)
    requires
        lo <= hi <= cs@.len(),
    ensures
        r == parse_u32_spec(cs@.subrange(lo as int, hi as int)),
{
    let ghost s = cs@.subrange(lo as int, hi as int);
    let mut start = lo;
    if lo < hi && cs[lo] == '+' {
        start = lo + 1;
    }
    let ghost d = cs@.subrange(start as int, hi as int);
    assert(d =~= unsigned_part(s));
    if start >= hi {
        return None;
    }
    let mut value: u64 = 0;
    let mut i = start;
    assert(d.take(0) =~= Seq::<char>::empty());
    while i < hi
        invariant
            start <= i <= hi <= cs@.len(),
            d == cs@.subrange(start as int, hi as int),
            d == unsigned_part(s),
            s == cs@.subrange(lo as int, hi as int),
            all_digits(d.take(i - start)),
            value == digits_value(d.take(i - start)),
            value <= u32::MAX,
        decreases hi - i,
    {
        let c = cs[i];
        assert(d[i - start] == c);
        if c < '0' || c > '9' {
            assert(!all_digits(d));
            assert(parse_u32_spec(s) is None);
            return None;
        }
        let digit = (c as u32 - '0' as u32) as u64;
        assert(d.take(i + 1 - start).drop_last() =~= d.take(i - start));
        assert(d.take(i + 1 - start).last() == c);
        value = value * 10 + digit;
        i += 1;
        if value > u32::MAX as u64 {
            proof {
                lemma_digits_value_mono(d, i - start);
            }
            assert(parse_u32_spec(s) is None);
            return None;
        }
    }
    assert(d.take(i - start) =~= d);
    Some(value as u32)
}

/// The last character of `s` is a newline.
pub open spec fn ends_nl(s: Seq<char>) -> bool {
    s.len() > 0 && s.last() == '\n'
}

/// Whether `s` ends with a newline (`str::ends_with('\n')`).
pub fn str_ends_nl(s: &str) -> (b: bool)
    ensures
        b == ends_nl(s@),
{
    let cs = chars_of(s);
    cs.len() > 0 && cs[cs.len() - 1] == '\n'
}

} // verus!

verus! {

/// An owned copy of a string slice (`str::to_string`).
pub fn owned(s: &str) -> (r: String)
    ensures
        r@ == s@,
{
    let mut r = String::new();
    push_str(&mut r, s);
    assert(r@ =~= s@);
    r
}

/// `a` followed by `b` and `c`, as a new string.
pub fn concat3(a: &str, b: &str, c: &str) -> (r: String)
    ensures
        r@ == a@ + b@ + c@,
{
    let mut r = owned(a);
    push_str(&mut r, b);
    push_str(&mut r, c);
    r
}

} // verus!

verus! {

/// `w` occurs in `s` at character index `i`.
pub open spec fn occurs_at(s: Seq<char>, w: Seq<char>) -> spec_fn(int) -> bool {
    |i: int| s.subrange(i, i + w.len()) == w
}

/// The character index of the first occurrence of `w` in `s` (`str::find`).
pub open spec fn first_occurrence(s: Seq<char>, w: Seq<char>) -> Option<int> {
    first_from(0, s.len() - w.len() + 1, occurs_at(s, w))
}

/// A text that holds `w` between `a` and `b` has an occurrence of `w`.
pub proof fn lemma_occurs_within(a: Seq<char>, w: Seq<char>, b: Seq<char>)
    ensures
        first_occurrence(a + w + b, w) is Some,
{
    let s = a + w + b;
    let i = a.len() as int;
    assert(s.subrange(i, i + w.len()) =~= w);
    assert(occurs_at(s, w)(i));
    lemma_first_from(0, s.len() - w.len() + 1, occurs_at(s, w));
}

/// A text that starts with `w` has its first occurrence of `w` at the start.
pub proof fn lemma_prefix_occurs(s: Seq<char>, w: Seq<char>)
    requires
        starts_with(s, w),
    ensures
        first_occurrence(s, w) == Some(0int),
{
    assert(s.subrange(0, w.len() as int) =~= s.take(w.len() as int));
    assert(occurs_at(s, w)(0));
}

/// The character index of the first occurrence of `w` in `s` (`str::find`).
pub fn find_chars(s: &[char], w: &[char]) -> (r: Option<usize>)
    ensures
        r matches Some(i) ==> first_occurrence(s@, w@) == Some(i as int),
        r is None ==> first_occurrence(s@, w@) is None,
{
    if w.len() > s.len() {
        return None;
    }
    if w.len() == 0 {
        assert(s@.subrange(0, 0) =~= w@);
        return Some(0);
    }
    let ghost n = s@.len() - w@.len() + 1;
    let mut i: usize = 0;
    let last = s.len() - w.len();
    while i <= last
        invariant
            last == s@.len() - w@.len(),
            s@.len() <= usize::MAX,
            w@.len() <= s@.len(),
            n == s@.len() - w@.len() + 1,
            i <= n,
            first_occurrence(s@, w@) == first_from(i as int, n, occurs_at(s@, w@)),
        decreases n - i,
    {
        let mut j: usize = 0;
        let mut same = true;
        while j < w.len()
            invariant
                i + w@.len() <= s@.len(),
                s@.len() <= usize::MAX,
                j <= w@.len(),
                same == (forall|t: int| 0 <= t < j ==> s@[i + t] == #[trigger] w@[t]),
            decreases w@.len() - j,
        {
            if s[i + j] != w[j] {
                same = false;
            }
            j += 1;
        }
        if same {
            assert(s@.subrange(i as int, i + w@.len()) =~= w@);
            return Some(i);
        }
        assert(s@.subrange(i as int, i + w@.len()) != w@) by {
            let t = choose|t: int| 0 <= t < w@.len() && s@[i + t] != #[trigger] w@[t];
            assert(s@.subrange(i as int, i + w@.len())[t] == s@[i + t]);
        }
        i += 1;
    }
    None
}

} // verus!

verus! {

/// The ASCII digit for `d < 10`.
pub open spec fn digit_char(d: nat) -> char {
    (48 + d) as char
}

/// The decimal digits of `n` (`n.to_string()`).
pub open spec fn decimal(n: nat) -> Seq<char>
    decreases n,
{
    if n < 10 {
        seq![digit_char(n)]
    } else {
        decimal(n / 10).push(digit_char(n % 10))
    }
}

/// Appends the decimal digits of `n` to `s`.
pub fn push_decimal(s: &mut String, n: u64)
    ensures
        final(s)@ == old(s)@ + decimal(n as nat),
    decreases n,
{
    if n >= 10 {
        push_decimal(s, n / 10);
    }
    let d = (n % 10) as u8;
    let c = (48u8 + d) as char;
    assert(c == digit_char((n % 10) as nat));
    push_char(s, c);
    if n < 10 {
        assert(s@ =~= old(s)@ + decimal(n as nat));
    } else {
        assert(s@ =~= old(s)@ + decimal(n as nat));
    }
}

/// The decimal representation of `n` (`n.to_string()`).
pub fn decimal_string(n: u64) -> (r: String)
    ensures
        r@ == decimal(n as nat),
{
    let mut r = String::new();
    push_decimal(&mut r, n);
    assert(r@ =~= decimal(n as nat));
    r
}

/// `s` without leading whitespace (`str::trim_start`).
pub open spec fn trim_start(s: Seq<char>) -> Seq<char>
    decreases s.len(),
{
    if s.len() > 0 && is_ws(s[0]) {
        trim_start(s.drop_first())
    } else {
        s
    }
}

/// `s` without trailing whitespace (`str::trim_end`).
pub open spec fn trim_end(s: Seq<char>) -> Seq<char>
    decreases s.len(),
{
    if s.len() > 0 && is_ws(s.last()) {
        trim_end(s.drop_last())
    } else {
        s
    }
}

/// `s` without leading and trailing whitespace (`str::trim`).
pub open spec fn trim(s: Seq<char>) -> Seq<char> {
    trim_end(trim_start(s))
}

/// `str::trim`: `s` without leading and trailing whitespace.
pub fn str_trim(s: &str) -> (r: String)
    ensures
        r@ == trim(s@),
{
    let cs = chars_of(s);
    let mut i: usize = 0;
    assert(cs@.skip(0) =~= cs@);
    while i < cs.len() && is_whitespace(cs[i])
        invariant
            i <= cs@.len(),
            trim_start(cs@) == trim_start(cs@.skip(i as int)),
        decreases cs@.len() - i,
    {
        assert(cs@.skip(i as int).drop_first() =~= cs@.skip(i + 1));
        i += 1;
    }
    let mut j: usize = cs.len();
    assert(cs@.subrange(i as int, j as int) =~= cs@.skip(i as int));
    while j > i && is_whitespace(cs[j - 1])
        invariant
            i <= j <= cs@.len(),
            trim_end(trim_start(cs@)) == trim_end(cs@.subrange(i as int, j as int)),
            trim_start(cs@) == cs@.skip(i as int),
        decreases j,
    {
        assert(cs@.subrange(i as int, j as int).drop_last() =~= cs@.subrange(i as int, j - 1));
        j -= 1;
    }
    string_from_range(cs.as_slice(), i, j)
}

/// The lowercase form of a text (`str::to_lowercase`).
pub uninterp spec fn lowercase(s: Seq<char>) -> Seq<char>;

/// `str::to_lowercase`: the lowercase form of `s`, as named by `lowercase`
/// (Unicode's case mapping; nothing more is stated of it).
#[verifier::external_body]
pub(crate) fn str_to_lowercase(s: &str) -> (r: String)
    ensures
        r@ == lowercase(s@),
{
    s.to_lowercase()
}

/// Whether `p` occurs in `s` (`str::contains`).
pub fn str_contains(s: &str, p: &str) -> (b: bool)
    ensures
        b == (first_occurrence(s@, p@) is Some),
{
    let x = chars_of(s);
    let y = chars_of(p);
    find_chars(x.as_slice(), y.as_slice()).is_some()
}

} // verus!

verus! {

/// The pieces of `s` between occurrences of `c` (`str::split(c)`): always at
/// least one, possibly empty.
pub open spec fn split_on(s: Seq<char>, c: char) -> Seq<Seq<char>>
    decreases s.len(),
{
    let i = index_of(s, c);
    if i >= s.len() {
        seq![s]
    } else {
        seq![s.take(i as int)] + split_on(s.skip(i + 1int), c)
    }
}

proof fn lemma_index_of_bound(s: Seq<char>, c: char)
    ensures
        index_of(s, c) <= s.len(),
        index_of(s, c) < s.len() ==> s[index_of(s, c) as int] == c,
    decreases s.len(),
{
    if s.len() > 0 && s[0] != c {
        lemma_index_of_bound(s.drop_first(), c);
    }
}

/// The pieces of a string between occurrences of `c` (`str::split(c)`).
pub fn split_char(s: &str, c: char) -> (v: Vec<String>)
    ensures
        views(v@) == split_on(s@, c),
{
    let cs = chars_of(s);
    let mut out: Vec<String> = Vec::new();
    let mut start: usize = 0;
    let n = cs.len();
    assert(cs@.skip(0) =~= cs@);
    assert(views(out@) =~= Seq::<Seq<char>>::empty());
    loop
        invariant
            start <= cs@.len(),
            n == cs@.len(),
            cs@ == s@,
            views(out@) + split_on(cs@.skip(start as int), c) == split_on(s@, c),
        decreases cs@.len() - start,
    {
        let ghost rest = cs@.skip(start as int);
        let k = index_in(cs.as_slice(), start, c);
        proof {
            lemma_index_of_bound(rest, c);
        }
        let piece = string_from_range(cs.as_slice(), start, start + k);
        assert(piece@ =~= rest.take(k as int));
        let ghost before = views(out@);
        out.push(piece);
        assert(views(out@) =~= before.push(rest.take(k as int)));
        if start + k >= cs.len() {
            assert(split_on(rest, c) == seq![rest]);
            assert(rest.take(k as int) =~= rest);
            assert(views(out@) =~= before + split_on(rest, c));
            return out;
        }
        assert(rest.skip(k + 1int) =~= cs@.skip(start + k + 1));
        assert(views(out@) + split_on(cs@.skip(start + k + 1), c) =~= before + split_on(rest, c));
        start = start + k + 1;
    }
}

} // verus!

verus! {

/// A vector holding copies of the strings of a slice.
pub fn copy_strings_vec(v: &[String]) -> (r: Vec<String>)
    ensures
        r@ == v@,
{
    let mut r: Vec<String> = Vec::new();
    let mut i: usize = 0;
    while i < v.len()
        invariant
            i <= v@.len(),
            r@ == v@.take(i as int),
        decreases v@.len() - i,
    {
        r.push(v[i].clone());
        i += 1;
        assert(r@ =~= v@.take(i as int));
    }
    assert(v@.take(v@.len() as int) =~= v@);
    r
}

} // verus!

verus! {

/// The decimal digits of a signed number, with a leading `-` when negative.
pub open spec fn signed_decimal(n: int) -> Seq<char> {
    if n < 0 {
        seq!['-'] + decimal((-n) as nat)
    } else {
        decimal(n as nat)
    }
}

/// Appends the decimal digits of `n`, with a leading `-` when negative.
pub fn push_signed_decimal(s: &mut String, n: i32)
    ensures
        final(s)@ == old(s)@ + signed_decimal(n as int),
{
    if n < 0 {
        push_char(s, '-');
        let m: i64 = -(n as i64);
        push_decimal(s, m as u64);
        assert(s@ =~= old(s)@ + signed_decimal(n as int));
    } else {
        push_decimal(s, n as u64);
    }
}

} // verus!

verus! {

/// The character index of the first occurrence of `w` in `s[from..]`,
/// relative to `from`.
pub fn find_chars_from(s: &[char], w: &[char], from: usize) -> (r: Option<usize>)
    requires
        from <= s@.len(),
    ensures
        r matches Some(i) ==> first_occurrence(s@.skip(from as int), w@) == Some(i as int),
        r is None ==> first_occurrence(s@.skip(from as int), w@) is None,
{
    let ghost t = s@.skip(from as int);
    let n = s.len() - from;
    if w.len() > n {
        return None;
    }
    if w.len() == 0 {
        assert(t.subrange(0, 0) =~= w@);
        return Some(0);
    }
    let ghost m = t.len() - w@.len() + 1;
    let mut i: usize = 0;
    let last = n - w.len();
    while i <= last
        invariant
            t == s@.skip(from as int),
            n == t.len(),
            last == t.len() - w@.len(),
            s@.len() <= usize::MAX,
            from <= s@.len(),
            w@.len() <= t.len(),
            m == t.len() - w@.len() + 1,
            i <= m,
            first_occurrence(t, w@) == first_from(i as int, m, occurs_at(t, w@)),
        decreases m - i,
    {
        let mut j: usize = 0;
        let mut same = true;
        while j < w.len()
            invariant
                t == s@.skip(from as int),
                i + w@.len() <= t.len(),
                from + t.len() == s@.len(),
                s@.len() <= usize::MAX,
                j <= w@.len(),
                same == (forall|q: int| 0 <= q < j ==> t[i + q] == #[trigger] w@[q]),
            decreases w@.len() - j,
        {
            if s[from + i + j] != w[j] {
                same = false;
            }
            j += 1;
        }
        if same {
            assert(t.subrange(i as int, i + w@.len()) =~= w@);
            return Some(i);
        }
        assert(t.subrange(i as int, i + w@.len()) != w@) by {
            let q = choose|q: int| 0 <= q < w@.len() && t[i + q] != #[trigger] w@[q];
            assert(t.subrange(i as int, i + w@.len())[q] == t[i + q]);
        }
        i += 1;
    }
    None
}

} // verus!
