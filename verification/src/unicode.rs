//! Unicode services of outside crates: display width (`unicode-width`),
//! grapheme and word segmentation (`unicode-segmentation`) and NFC
//! normalization (`unicode-normalization`).
//!
//! The tables behind these are pages long, so their results are named here
//! and the library's contracts speak of the names.

use unicode_normalization::UnicodeNormalization;
use unicode_segmentation::UnicodeSegmentation;
use unicode_width::{UnicodeWidthChar, UnicodeWidthStr};
use vstd::prelude::*;

verus! {

/// Display width in terminal columns of a text (`UnicodeWidthStr::width`).
pub uninterp spec fn display_width(s: Seq<char>) -> nat;

/// Display width of one character (`UnicodeWidthChar::width`), `None` for
/// control characters.
pub uninterp spec fn char_display_width(c: char) -> Option<nat>;

/// The NFC normalization of a text (`UnicodeNormalization::nfc`).
pub uninterp spec fn nfc(s: Seq<char>) -> Seq<char>;

/// The extended grapheme clusters of a text (`UnicodeSegmentation::graphemes(_, true)`).
pub uninterp spec fn graphemes(s: Seq<char>) -> Seq<Seq<char>>;

/// The word-boundary segments of a text (`UnicodeSegmentation::split_word_bounds`).
pub uninterp spec fn word_bounds(s: Seq<char>) -> Seq<Seq<char>>;

/// `UnicodeWidthStr::width`: the display width of `s`, as named by
/// `display_width`. Nothing more is stated of it.
#[verifier::external_body]
pub(crate) fn str_width(s: &str) -> (w: usize)
    ensures
        w == display_width(s@),
{
    s.width()
}

/// `UnicodeWidthChar::width`: the display width of `c`, as named by
/// `char_display_width`.
#[verifier::external_body]
pub(crate) fn char_width(c: char) -> (w: Option<usize>)
    ensures
        match w {
            Some(n) => char_display_width(c) == Some(n as nat),
            None => char_display_width(c) is None,
        },
{
    c.width()
}

/// `UnicodeNormalization::nfc` collected into a `String`: the NFC form of
/// `s`, as named by `nfc`.
#[verifier::external_body]
pub(crate) fn to_nfc(s: &str) -> (r: String)
    ensures
        r@ == nfc(s@),
{
    s.nfc().collect::<String>()
}

/// `UnicodeSegmentation::graphemes(s, true)` collected: the extended
/// grapheme clusters of `s`, as named by `graphemes`. The crate documents
/// that the clusters partition the text: concatenated in order they give `s`
/// back, and none is empty.
#[verifier::external_body]
pub(crate) fn grapheme_clusters(s: &str) -> (r: Vec<String>)
    ensures
        crate::text::views(r@) == graphemes(s@),
        crate::text::concat_all(crate::text::views(r@)) == s@,
        forall|i: int| 0 <= i < r@.len() ==> #[trigger] r@[i]@.len() > 0,
{
    s.graphemes(true).map(|g| g.to_string()).collect()
}

/// `UnicodeSegmentation::split_word_bounds` collected: the word-boundary
/// segments of `s`, as named by `word_bounds`. The crate documents that the
/// segments partition the text: concatenated in order they give `s` back,
/// and none is empty.
#[verifier::external_body]
pub(crate) fn word_bound_segments(s: &str) -> (r: Vec<String>)
    ensures
        crate::text::views(r@) == word_bounds(s@),
        crate::text::concat_all(crate::text::views(r@)) == s@,
        forall|i: int| 0 <= i < r@.len() ==> #[trigger] r@[i]@.len() > 0,
{
    s.split_word_bounds().map(|g| g.to_string()).collect()
}

} // verus!
