//! Calls into `std::path` on UTF-8 paths. Paths are held as text. Where a
//! result follows from another in a few lines (a file stem or extension from
//! the file name) it is stated; the rest (parent, join, file name) is named:
//! it follows the path rules of the platform the library is built for, and is
//! a function of the text alone.
use crate::theme::opt_view;
use vstd::prelude::*;

verus! {

/// What `std::path::Path::parent` gives for a path.
pub uninterp spec fn parent_path(p: Seq<char>) -> Option<Seq<char>>;

/// What `std::path::Path::join` gives for a base and a further path.
pub uninterp spec fn joined_path(base: Seq<char>, rest: Seq<char>) -> Seq<char>;

/// What `std::path::Path::file_name` gives for a path.
pub uninterp spec fn file_name_of(p: Seq<char>) -> Option<Seq<char>>;

/// The position of the last `'.'` in a text, or -1 when there is none.
pub open spec fn last_dot(n: Seq<char>) -> int
    decreases n.len(),
{
    if n.len() == 0 {
        -1
    } else if n.last() == '.' {
        n.len() - 1
    } else {
        last_dot(n.drop_last())
    }
}

/// A file name's stem and extension: `..`, a name without a `'.'`, and a
/// name whose only `'.'` is its first character are their own stem and have
/// no extension; any other name splits at its last `'.'`.
pub open spec fn stem_and_extension(n: Seq<char>) -> (Seq<char>, Option<Seq<char>>) {
    let i = last_dot(n);
    if n == ".."@ || i <= 0 {
        (n, None)
    } else {
        (n.take(i), Some(n.skip(i + 1)))
    }
}

/// What `std::path::Path::file_stem` gives for a path: the stem of its file
/// name, as `Path::file_stem`'s documentation describes it.
pub open spec fn file_stem_of(p: Seq<char>) -> Option<Seq<char>> {
    match file_name_of(p) {
        Some(n) => Some(stem_and_extension(n).0),
        None => None,
    }
}

/// What `std::path::Path::extension` gives for a path: the extension of its
/// file name, as `Path::extension`'s documentation describes it.
pub open spec fn extension_of(p: Seq<char>) -> Option<Seq<char>> {
    match file_name_of(p) {
        Some(n) => stem_and_extension(n).1,
        None => None,
    }
}

/// What `str::to_lowercase` gives for a text (Unicode lower-casing).
pub uninterp spec fn lowercase_of(s: Seq<char>) -> Seq<char>;

/// Calls `std::path::Path::parent` on a UTF-8 path. The parent of a UTF-8 path
/// is a prefix of it ending at a separator, so it is UTF-8 too and the text
/// conversion is exact.
#[verifier::external_body]
pub(crate) fn path_parent(p: &str) -> (r: Option<String>)
    ensures
        opt_view(r) == parent_path(p@),
{
    match std::path::Path::new(p).parent() {
        Some(q) => Some(q.to_string_lossy().into_owned()),
        None => None,
    }
}

/// Calls `std::path::Path::join` on two UTF-8 paths; the result is UTF-8, so
/// the text conversion is exact.
#[verifier::external_body]
pub(crate) fn path_join(base: &str, rest: &str) -> (r: String)
    ensures
        r@ == joined_path(base@, rest@),
{
    std::path::Path::new(base).join(rest).to_string_lossy().into_owned()
}

/// Calls `std::path::Path::file_name`; a component of a UTF-8 path is UTF-8,
/// so the text conversion is exact.
#[verifier::external_body]
pub(crate) fn path_file_name(p: &str) -> (r: Option<String>)
    ensures
        opt_view(r) == file_name_of(p@),
{
    match std::path::Path::new(p).file_name() {
        Some(n) => Some(n.to_string_lossy().into_owned()),
        None => None,
    }
}

/// Calls `std::path::Path::file_stem`, documented as: none without a file
/// name; the whole file name if it has no embedded `'.'` or begins with its
/// only `'.'`; otherwise the part before the final `'.'`. The text conversion
/// is exact as above.
#[verifier::external_body]
pub(crate) fn path_file_stem(p: &str) -> (r: Option<String>)
    ensures
        opt_view(r) == file_stem_of(p@),
{
    match std::path::Path::new(p).file_stem() {
        Some(n) => Some(n.to_string_lossy().into_owned()),
        None => None,
    }
}

/// Calls `std::path::Path::extension`, documented as: none without a file
/// name, without an embedded `'.'`, or when the name begins with its only
/// `'.'`; otherwise the part after the final `'.'`. The text conversion is
/// exact as above.
#[verifier::external_body]
pub(crate) fn path_extension(p: &str) -> (r: Option<String>)
    ensures
        opt_view(r) == extension_of(p@),
{
    match std::path::Path::new(p).extension() {
        Some(n) => Some(n.to_string_lossy().into_owned()),
        None => None,
    }
}

/// Calls `str::to_lowercase`.
#[verifier::external_body]
pub(crate) fn to_lowercase(s: &str) -> (r: String)
    ensures
        r@ == lowercase_of(s@),
{
    s.to_lowercase()
}

} // verus!
