//! File paths as text: whether a path is absolute, and joining a relative
//! path onto a directory (`std::path`).

use crate::text;
use vstd::prelude::*;

verus! {

/// A path is absolute when it starts at the root (`Path::is_absolute` on
/// Unix).
pub open spec fn is_absolute(p: Seq<char>) -> bool {
    p.len() > 0 && p[0] == '/'
}

/// Whether a path is absolute.
pub fn path_is_absolute(p: &str) -> (b: bool)
    ensures
        b == is_absolute(p@),
{
    let cs = text::chars_of(p);
    cs.len() > 0 && cs[0] == '/'
}

/// `base` joined with `p` (`Path::join` on Unix), as text: an absolute `p`
/// replaces `base`; otherwise `p` is appended to `base`, with a `/` between
/// them unless `base` is empty or already ends in one.
pub open spec fn joined(base: Seq<char>, p: Seq<char>) -> Seq<char> {
    if is_absolute(p) || base.len() == 0 {
        p
    } else if base.last() == '/' {
        base + p
    } else {
        base + seq!['/'] + p
    }
}

/// `Path::new(base).join(p)`, lossily as text (the texts here are UTF-8, so
/// nothing is lost): on Unix, `p` replaces `base` when it is absolute and is
/// otherwise appended after a separator, as `joined` states.
#[verifier::external_body]
pub(crate) fn join_path(base: &str, p: &str) -> (r: String)
    ensures
        r@ == joined(base@, p@),
{
    std::path::Path::new(base).join(p).to_string_lossy().to_string()
}

/// The parent of a path (`Path::parent`), as text; none for a root or an
/// empty path.
pub uninterp spec fn path_parent(p: Seq<char>) -> Option<Seq<char>>;

/// `Path::new(p).parent()`, as text: the parent named by `path_parent`.
#[verifier::external_body]
pub(crate) fn parent_of(p: &str) -> (r: Option<String>)
    ensures
        match r {
            Some(q) => path_parent(p@) == Some(q@),
            None => path_parent(p@) is None,
        },
{
    std::path::Path::new(p).parent().map(|q| q.to_string_lossy().to_string())
}

/// The final component of a path (`Path::file_name`), as text; none when the
/// path ends in `..` or is a root.
pub uninterp spec fn path_file_name(p: Seq<char>) -> Option<Seq<char>>;

/// `Path::new(p).file_name()`, as text: the component named by
/// `path_file_name`.
#[verifier::external_body]
pub(crate) fn file_name_of(p: &str) -> (r: Option<String>)
    ensures
        match r {
            Some(n) => path_file_name(p@) == Some(n@),
            None => path_file_name(p@) is None,
        },
{
    std::path::Path::new(p).file_name().map(|n| n.to_string_lossy().to_string())
}

/// A path resolved against a working directory: absolute paths are kept,
/// others joined onto the directory.
pub open spec fn resolved(p: Seq<char>, cwd: Seq<char>) -> Seq<char> {
    if is_absolute(p) {
        p
    } else {
        joined(cwd, p)
    }
}

/// Resolve path relative to cwd
pub fn resolve_path(file_path: &str, cwd: &str) -> (r: String)
    ensures
        r@ == resolved(file_path@, cwd@),
{
    if path_is_absolute(file_path) {
        text::owned(file_path)
    } else {
        join_path(cwd, file_path)
    }
}

} // verus!
