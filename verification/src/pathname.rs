//! The few `std::path` operations the library needs, on paths held as
//! UTF-8 strings.

use vstd::prelude::*;

verus! {

/// What `Path::parent` gives for the path `p`, as a string.
pub uninterp spec fn spec_path_parent(p: Seq<char>) -> Option<Seq<char>>;

/// What `Path::file_name` gives for the path `p`, as a string.
pub uninterp spec fn spec_path_file_name(p: Seq<char>) -> Option<Seq<char>>;

/// What `Path::join` gives for `base` and `name`, as a string.
pub uninterp spec fn spec_path_join(base: Seq<char>, name: Seq<char>) -> Seq<char>;

/// `std::path::Path::parent` on the path `p`: the path without its final
/// component, `None` for a root or an empty path. The result is named by
/// [`spec_path_parent`]; a parent of a UTF-8 path is UTF-8, so converting it
/// back to a string loses nothing.
#[verifier::external_body]
pub(crate) fn path_parent(p: &str) -> (r: Option<String>)
    ensures
        opt_seq(r) == spec_path_parent(p@),
{
    std::path::Path::new(p).parent().map(|q| q.to_string_lossy().into_owned())
}

/// `std::path::Path::file_name` on the path `p`: its final component,
/// `None` when the path ends in `..` or has no components. Named by
/// [`spec_path_file_name`].
#[verifier::external_body]
pub(crate) fn path_file_name(p: &str) -> (r: Option<String>)
    ensures
        opt_seq(r) == spec_path_file_name(p@),
{
    std::path::Path::new(p).file_name().map(|n| n.to_string_lossy().into_owned())
}

/// `std::path::Path::join`: `name` appended to `base` as a further
/// component (or `name` itself when it is absolute). Named by
/// [`spec_path_join`].
#[verifier::external_body]
pub(crate) fn path_join(base: &str, name: &str) -> (r: String)
    ensures
        r@ == spec_path_join(base@, name@),
{
    std::path::Path::new(base).join(name).to_string_lossy().into_owned()
}

/// What `Path::extension` gives for the path `p`, as a string.
pub uninterp spec fn spec_path_extension(p: Seq<char>) -> Option<Seq<char>>;

/// `std::path::Path::extension` on the path `p`: the text after the last
/// `.` of its file name, `None` when the file name has no `.` past its
/// first character or there is no file name. Named by
/// [`spec_path_extension`].
#[verifier::external_body]
pub(crate) fn path_extension(p: &str) -> (r: Option<String>)
    ensures
        opt_seq(r) == spec_path_extension(p@),
{
    std::path::Path::new(p).extension().map(|e| e.to_string_lossy().into_owned())
}

/// What `Path::file_stem` gives for the path `p`, as a string.
pub uninterp spec fn spec_path_file_stem(p: Seq<char>) -> Option<Seq<char>>;

/// `std::path::Path::file_stem` on the path `p`: its file name without the
/// extension, `None` when there is no file name. Named by
/// [`spec_path_file_stem`].
#[verifier::external_body]
pub(crate) fn path_file_stem(p: &str) -> (r: Option<String>)
    ensures
        opt_seq(r) == spec_path_file_stem(p@),
{
    std::path::Path::new(p).file_stem().map(|n| n.to_string_lossy().into_owned())
}

/// The characters of an optional string.
pub open spec fn opt_seq(o: Option<String>) -> Option<Seq<char>> {
    match o {
        Some(s) => Some(s@),
        None => None,
    }
}

} // verus!
