use vstd::prelude::*;
use vstd::string::StringExecFns;

use nonempty::NonEmpty;

verus! {

#[verifier::external_type_specification]
#[verifier::external_body]
#[verifier::reject_recursive_types(T)]
pub struct ExNonEmpty<T>(NonEmpty<T>);

/// The paths a non-empty list holds, in order.
pub uninterp spec fn nonempty_paths(ne: NonEmpty<String>) -> Seq<Seq<char>>;

/// `nonempty::NonEmpty::len`: the number of paths, never zero.
#[verifier::external_body]
pub(crate) fn nonempty_len(ne: &NonEmpty<String>) -> (n: usize)
    ensures
        n == nonempty_paths(*ne).len(),
        n >= 1,
{
    ne.len()
}

/// Indexing a `nonempty::NonEmpty` within range: the path at `i`.
#[verifier::external_body]
pub(crate) fn nonempty_get(ne: &NonEmpty<String>, i: usize) -> (p: &String)
    requires
        i < nonempty_paths(*ne).len(),
    ensures
        p@ == nonempty_paths(*ne)[i as int],
{
    &ne[i]
}

/// `Clone` on `nonempty::NonEmpty`: a list of the same paths.
#[verifier::external_body]
pub(crate) fn nonempty_clone(ne: &NonEmpty<String>) -> (r: NonEmpty<String>)
    ensures
        nonempty_paths(r) == nonempty_paths(*ne),
{
    ne.clone()
}

/// `nonempty::NonEmpty::first`: the first path; the list is never empty.
#[verifier::external_body]
pub(crate) fn nonempty_first(ne: &NonEmpty<String>) -> (p: &String)
    requires
        nonempty_paths(*ne).len() >= 1,
    ensures
        p@ == nonempty_paths(*ne)[0],
{
    ne.first()
}

/// `nonempty::NonEmpty::last`: the last path; the list is never empty.
#[verifier::external_body]
pub(crate) fn nonempty_last(ne: &NonEmpty<String>) -> (p: &String)
    requires
        nonempty_paths(*ne).len() >= 1,
    ensures
        p@ == nonempty_paths(*ne).last(),
{
    ne.last()
}

/// The parent of a path (`std::path::Path::parent`), as text.
pub uninterp spec fn path_parent(p: Seq<char>) -> Option<Seq<char>>;

/// The stem of a path's final component (`std::path::Path::file_stem`), as
/// text.
pub uninterp spec fn path_file_stem(p: Seq<char>) -> Option<Seq<char>>;

/// The final component of a path (`std::path::Path::file_name`), as text.
pub uninterp spec fn path_file_name(p: Seq<char>) -> Option<Seq<char>>;

/// Whether two paths are equal as paths (`==` on `std::path::Path`, which
/// compares components), for paths of different text.
pub uninterp spec fn path_components_equal(a: Seq<char>, b: Seq<char>) -> bool;

/// Whether two paths are equal as paths: the same text, or the same
/// components.
pub open spec fn paths_equal(a: Seq<char>, b: Seq<char>) -> bool {
    a == b || path_components_equal(a, b)
}

/// `std::path::Path::parent` of `p`, as text. The result follows the path
/// rules of the platform the crate is built for.
#[verifier::external_body]
pub(crate) fn parent_of(p: &str) -> (r: Option<String>)
    ensures
        r is None <==> path_parent(p@) is None,
        r matches Some(s) ==> path_parent(p@) == Some(s@),
{
    match std::path::Path::new(p).parent() {
        Some(q) => Some(q.to_string_lossy().into_owned()),
        None => None,
    }
}

/// `std::path::Path::file_stem` of `p`, as text. The result follows the
/// path rules of the platform the crate is built for. The stem is a part of
/// the file name, so there is a stem exactly where there is a file name.
#[verifier::external_body]
pub(crate) fn file_stem_of(p: &str) -> (r: Option<String>)
    ensures
        r is None <==> path_file_stem(p@) is None,
        r is Some <==> path_file_name(p@) is Some,
        r matches Some(s) ==> path_file_stem(p@) == Some(s@),
{
    match std::path::Path::new(p).file_stem() {
        Some(q) => Some(q.to_string_lossy().into_owned()),
        None => None,
    }
}

/// `std::path::Path::file_name` of `p`, as text. The result follows the
/// path rules of the platform the crate is built for.
#[verifier::external_body]
pub(crate) fn file_name_of(p: &str) -> (r: Option<String>)
    ensures
        r is None <==> path_file_name(p@) is None,
        r matches Some(s) ==> path_file_name(p@) == Some(s@),
{
    match std::path::Path::new(p).file_name() {
        Some(q) => Some(q.to_string_lossy().into_owned()),
        None => None,
    }
}

/// `==` on `std::path::Path`, which holds of two paths of the same text.
/// The result on paths of different text follows the path rules of the
/// platform the crate is built for.
#[verifier::external_body]
pub(crate) fn same_path(a: &str, b: &str) -> (r: bool)
    ensures
        r == (a@ == b@ || path_components_equal(a@, b@)),
{
    std::path::Path::new(a) == std::path::Path::new(b)
}

} // verus!
