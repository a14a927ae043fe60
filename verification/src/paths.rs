//! File-system paths as text. The splitting of a path into components is left to
//! `std::path`; the functions here carry its answers as plain strings.

use std::path::Path;
use vstd::prelude::*;

verus! {

/// The last component of a path, as `Path::file_name` gives it.
pub uninterp spec fn path_file_name(path: Seq<char>) -> Option<Seq<char>>;

/// The path without its last component, as `Path::parent` gives it.
pub uninterp spec fn path_parent(path: Seq<char>) -> Option<Seq<char>>;

/// `rest` adjoined to `base`, as `Path::join` gives it.
pub uninterp spec fn path_join(base: Seq<char>, rest: Seq<char>) -> Seq<char>;

/// The part of `path` below `base`, as `Path::strip_prefix` gives it.
pub uninterp spec fn path_strip_prefix(path: Seq<char>, base: Seq<char>) -> Option<Seq<char>>;

/// `path` with its extension replaced by `extension`, as `Path::with_extension` gives it.
pub uninterp spec fn path_with_extension(path: Seq<char>, extension: Seq<char>) -> Seq<char>;

/// Calls `Path::file_name`. The result is a function of the path's text alone;
/// nothing more is claimed of it.
#[verifier::external_body]
pub(crate) fn file_name(path: &str) -> (name: Option<String>)
    ensures
        name is Some <==> path_file_name(path@) is Some,
        name matches Some(n) ==> n@ == path_file_name(path@).unwrap(),
{
    match Path::new(path).file_name() {
        Some(name) => Some(name.to_string_lossy().into_owned()),
        None => None,
    }
}

/// Calls `Path::parent`. The result is a function of the path's text alone;
/// nothing more is claimed of it.
#[verifier::external_body]
pub(crate) fn parent(path: &str) -> (dir: Option<String>)
    ensures
        dir is Some <==> path_parent(path@) is Some,
        dir matches Some(d) ==> d@ == path_parent(path@).unwrap(),
{
    match Path::new(path).parent() {
        Some(dir) => Some(dir.to_string_lossy().into_owned()),
        None => None,
    }
}

/// Calls `Path::join`. The result is a function of the two texts alone; nothing
/// more is claimed of it.
#[verifier::external_body]
pub(crate) fn join(base: &str, rest: &str) -> (joined: String)
    ensures
        joined@ == path_join(base@, rest@),
{
    Path::new(base).join(rest).to_string_lossy().into_owned()
}

/// Calls `Path::strip_prefix`. The result is a function of the two texts alone;
/// nothing more is claimed of it.
#[verifier::external_body]
pub(crate) fn strip_prefix(path: &str, base: &str) -> (rest: Option<String>)
    ensures
        rest is Some <==> path_strip_prefix(path@, base@) is Some,
        rest matches Some(r) ==> r@ == path_strip_prefix(path@, base@).unwrap(),
{
    match Path::new(path).strip_prefix(base) {
        Ok(rest) => Some(rest.to_string_lossy().into_owned()),
        Err(_) => None,
    }
}

/// No character of the text separates the parts of a path: none is a slash
/// or a backslash.
pub open spec fn has_no_separator(text: Seq<char>) -> bool {
    forall|i: int| 0 <= i < text.len() ==> (#[trigger] text[i]) != '/' && text[i] != '\\'
}

/// Calls `Path::with_extension`, which panics on an extension that holds a
/// path separator; such an extension is left out. The result is a function of
/// the two texts alone; nothing more is claimed of it.
#[verifier::external_body]
pub(crate) fn with_extension(path: &str, extension: &str) -> (changed: String)
    requires
        has_no_separator(extension@),
    ensures
        changed@ == path_with_extension(path@, extension@),
{
    Path::new(path).with_extension(extension).to_string_lossy().into_owned()
}

} // verus!
