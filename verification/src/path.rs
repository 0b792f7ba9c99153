use vstd::prelude::*;

verus! {

/// The parent of a path as `std::path::Path::parent` gives it: the path
/// without its last component, `None` for a root and for the empty path. It
/// follows the path syntax of the platform the library is built for; no
/// contract here says what the parent of any given path is.
pub uninterp spec fn path_parent(path: Seq<char>) -> Option<Seq<char>>;

/// An optional path as a value.
pub open spec fn text_of(path: Option<String>) -> Option<Seq<char>> {
    match path {
        Some(path) => Some(path@),
        None => None,
    }
}

/// Calls `std::path::Path::parent` on the path and hands the parent back as
/// a string. The call only looks at the text of the path. The contract
/// claims that the answer depends on nothing else.
#[verifier::external_body]
pub(crate) fn parent_of(path: &str) -> (parent: Option<String>)
    ensures
        text_of(parent) == path_parent(path@),
{
    match std::path::Path::new(path).parent() {
        Some(parent) => Some(parent.to_string_lossy().into_owned()),
        None => None,
    }
}

} // verus!
