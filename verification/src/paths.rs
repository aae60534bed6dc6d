//! What the standard library's path grammar says of a path given as text.
//!
//! Paths are held as strings. Each function here hands one question to
//! `std::path` and names the answer, so that contracts elsewhere can speak of
//! it. The answers depend on the text alone, by the path grammar of the
//! platform the crate is built for; nothing here touches a file system.

use vstd::prelude::*;

verus! {

/// The file stem of `path` as `std::path::Path::file_stem` gives it: the final
/// component without its extension, or `None` where there is no final
/// component.
pub uninterp spec fn file_stem_of(path: Seq<char>) -> Option<Seq<char>>;

/// `base` extended by `name` as `std::path::Path::join` does it.
pub uninterp spec fn joined_path(base: Seq<char>, name: Seq<char>) -> Seq<char>;

/// The path without its final component as `std::path::Path::parent` gives
/// it, or `None` where the path ends in a root or is empty.
pub uninterp spec fn parent_of(path: Seq<char>) -> Option<Seq<char>>;

/// Whether `path` is absolute by `std::path::Path::is_absolute`.
pub uninterp spec fn is_absolute_path(path: Seq<char>) -> bool;

/// Whether two texts are the same path by `std::path::Path`'s `==`, which
/// compares component by component.
pub uninterp spec fn same_path(a: Seq<char>, b: Seq<char>) -> bool;

/// The path as `std::path::Path`'s `Debug` writes it: quoted and escaped.
pub uninterp spec fn quoted_path(path: Seq<char>) -> Seq<char>;

/// Whether `c` separates the components of a path by
/// `std::path::is_separator`.
pub uninterp spec fn is_separator_char(c: char) -> bool;

/// The view of an optional string.
pub open spec fn text_of(value: Option<String>) -> Option<Seq<char>> {
    match value {
        Some(text) => Some(text@),
        None => None,
    }
}

/// Calls `std::path::Path::file_stem`; the result is named by
/// [`file_stem_of`]. A stem of a path given as text is text again.
#[verifier::external_body]
pub(crate) fn file_stem(path: &str) -> (stem: Option<String>)
    ensures
        text_of(stem) == file_stem_of(path@),
{
    std::path::Path::new(path).file_stem().map(|stem| stem.to_string_lossy().into_owned())
}

/// Calls `std::path::Path::join`; the result is named by [`joined_path`].
#[verifier::external_body]
pub(crate) fn join(base: &str, name: &str) -> (joined: String)
    ensures
        joined@ == joined_path(base@, name@),
{
    std::path::Path::new(base).join(name).to_string_lossy().into_owned()
}

/// Calls `std::path::Path::parent`; the result is named by [`parent_of`].
#[verifier::external_body]
pub(crate) fn parent(path: &str) -> (dir: Option<String>)
    ensures
        text_of(dir) == parent_of(path@),
{
    std::path::Path::new(path).parent().map(|dir| dir.to_string_lossy().into_owned())
}

/// Calls `std::path::Path::is_absolute`; the result is named by
/// [`is_absolute_path`].
#[verifier::external_body]
pub(crate) fn is_absolute(path: &str) -> (absolute: bool)
    ensures
        absolute == is_absolute_path(path@),
{
    std::path::Path::new(path).is_absolute()
}

/// Compares two paths with `std::path::Path`'s `==`; the result is named by
/// [`same_path`].
#[verifier::external_body]
pub(crate) fn is_same_path(a: &str, b: &str) -> (same: bool)
    ensures
        same == same_path(a@, b@),
{
    std::path::Path::new(a) == std::path::Path::new(b)
}

/// Formats a path with `std::path::Path`'s `Debug`; the result is named by
/// [`quoted_path`].
#[verifier::external_body]
pub(crate) fn quoted(path: &str) -> (text: String)
    ensures
        text@ == quoted_path(path@),
{
    format!("{:?}", std::path::Path::new(path))
}

/// Calls `std::path::is_separator`; the result is named by
/// [`is_separator_char`].
#[verifier::external_body]
pub(crate) fn is_separator(c: char) -> (separates: bool)
    ensures
        separates == is_separator_char(c),
{
    std::path::is_separator(c)
}

} // verus!
