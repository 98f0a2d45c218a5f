//! File-system paths as strings, joined and split by std's path rules.

use vstd::prelude::*;
use std::path::Path;

verus! {

/// The path `Path::join` builds from `base` and `rel`, as a string. The
/// separator rules are std's for the target the crate is built for.
pub uninterp spec fn path_join(base: Seq<char>, rel: Seq<char>) -> Seq<char>;

/// The extension `Path::extension` finds in `path`: the part of the final
/// component after its last `.`, when there is one.
pub uninterp spec fn path_extension(path: Seq<char>) -> Option<Seq<char>>;

/// `Path::join` from std, with the result read back as UTF-8 (it is UTF-8,
/// both parts being). The contract names the result.
#[verifier::external_body]
pub(crate) fn join_path(base: &str, rel: &str) -> (r: String)
    ensures
        r@ == path_join(base@, rel@),
{
    Path::new(base).join(rel).to_string_lossy().into_owned()
}

/// `Path::extension` from std, as a string (an extension of a UTF-8 path is
/// UTF-8). The contract names the result; as std documents, there is no
/// extension unless the path holds a `.`.
#[verifier::external_body]
pub(crate) fn extension_of(path: &str) -> (r: Option<String>)
    ensures
        r matches Some(e) ==> path_extension(path@) == Some(e@),
        r is None ==> path_extension(path@) is None,
        r is Some ==> path@.contains('.'),
{
    match Path::new(path).extension() {
        Some(e) => match e.to_str() {
            Some(t) => Some(t.to_string()),
            None => None,
        },
        None => None,
    }
}

} // verus!
