//! What `std::path::Path` says of a path given as text: equality of
//! paths, a path's parent, final component and extension, and joining.
use vstd::prelude::*;
use crate::text::{chars_of, concat};

verus! {

/// Whether `std::path::Path` equality (component-wise) holds between the two paths.
pub uninterp spec fn paths_equal(a: Seq<char>, b: Seq<char>) -> bool;

/// The extension that `std::path::Path::extension` gives for the path.
pub uninterp spec fn path_extension(path: Seq<char>) -> Option<Seq<char>>;

/// Compares two paths with `std::path::Path`'s `==`, which compares their
/// components. The contract names the result `paths_equal` and states only
/// that equal texts are equal paths (`Path` is `Eq`).
#[verifier::external_body]
pub(crate) fn same_path(a: &str, b: &str) -> (r: bool)
    ensures
        r == paths_equal(a@, b@),
        a@ == b@ ==> r,
{
    std::path::Path::new(a) == std::path::Path::new(b)
}

/// The extension of the path's file name, by `std::path::Path::extension`;
/// the contract names the result `path_extension` of the path's text.
#[verifier::external_body]
pub(crate) fn extension_of(path: &str) -> (r: Option<String>)
    ensures
        match r {
            Some(e) => path_extension(path@) == Some(e@),
            None => path_extension(path@) is None,
        },
{
    std::path::Path::new(path).extension().and_then(|e| e.to_str()).map(str::to_owned)
}

/// The parent that `std::path::Path::parent` gives for the path.
pub uninterp spec fn path_parent(path: Seq<char>) -> Option<Seq<char>>;

/// The final component that `std::path::Path::file_name` gives for the path.
pub uninterp spec fn path_file_name(path: Seq<char>) -> Option<Seq<char>>;

/// The parent of the path by `std::path::Path::parent`; the contract names
/// the result `path_parent` of the path's text.
#[verifier::external_body]
pub(crate) fn parent_of(path: &str) -> (r: Option<String>)
    ensures
        match r {
            Some(p) => path_parent(path@) == Some(p@),
            None => path_parent(path@) is None,
        },
{
    std::path::Path::new(path).parent().and_then(|p| p.to_str()).map(str::to_owned)
}

/// The final component of the path by `std::path::Path::file_name`; the
/// contract names the result `path_file_name` of the path's text.
#[verifier::external_body]
pub(crate) fn file_name_of(path: &str) -> (r: Option<String>)
    ensures
        match r {
            Some(n) => path_file_name(path@) == Some(n@),
            None => path_file_name(path@) is None,
        },
{
    std::path::Path::new(path).file_name().and_then(|n| n.to_str()).map(str::to_owned)
}


/// The path that `std::path::Path::join` gives on Unix for `tail` adjoined
/// to `base`: an absolute `tail` replaces the path; otherwise `tail` follows
/// `base`, with one separator between them where `base` is not empty and
/// does not end with one.
pub open spec fn path_joined(base: Seq<char>, tail: Seq<char>) -> Seq<char> {
    if tail.len() > 0 && tail[0] == '/' {
        tail
    } else if base.len() > 0 && base.last() != '/' {
        base + "/"@ + tail
    } else {
        base + tail
    }
}

/// Adjoins `tail` to `base` as `std::path::Path::join` does (`path_joined`).
pub fn join_path(base: &str, tail: &str) -> (r: String)
    ensures
        r@ == path_joined(base@, tail@),
{
    let t = chars_of(tail);
    let b = chars_of(base);
    if t.len() > 0 && t[0] == '/' {
        return tail.to_owned();
    }
    if b.len() > 0 && b[b.len() - 1] != '/' {
        let mut r = concat(base, "/");
        r.append(tail);
        return r;
    }
    concat(base, tail)
}

} // verus!
