//! Path arithmetic, done by `std::path` on the text of a path. The library is built for
//! Unix: what the names here stand for is what `std::path` computes there.

use vstd::prelude::*;

verus! {

/// The path that `std::path::Path::join` gives for a base path and what is adjoined to it.
pub uninterp spec fn path_join(base: Seq<char>, leaf: Seq<char>) -> Seq<char>;

/// The final component that `std::path::Path::file_name` finds in a path, if it finds one.
pub uninterp spec fn path_file_name(path: Seq<char>) -> Option<Seq<char>>;

/// The path that `std::path::Path::with_extension` gives for a path and an extension.
pub uninterp spec fn path_with_extension(path: Seq<char>, extension: Seq<char>) -> Seq<char>;

/// Calls `std::path::Path::with_extension`, which panics where the extension holds a
/// path separator: such an extension is left out. Both arguments are UTF-8, so the new
/// path is too, and its text is [`path_with_extension`] of theirs.
#[verifier::external_body]
pub(crate) fn with_extension(path: &str, extension: &str) -> (r: String)
    requires
        !extension@.contains('/'),
    ensures
        r@ == path_with_extension(path@, extension@),
{
    std::path::Path::new(path).with_extension(extension).to_string_lossy().into_owned()
}

/// Calls `std::path::Path::join`. Both arguments are UTF-8, so the joined path is too, and
/// its text is [`path_join`] of theirs.
#[verifier::external_body]
pub(crate) fn join(base: &str, leaf: &str) -> (r: String)
    ensures
        r@ == path_join(base@, leaf@),
{
    std::path::Path::new(base).join(leaf).to_string_lossy().into_owned()
}

/// Calls `std::path::Path::file_name`. The component is a slice of the UTF-8 argument: its
/// text, or the lack of one, is [`path_file_name`] of the path's text.
#[verifier::external_body]
pub(crate) fn file_name(path: &str) -> (r: Option<String>)
    ensures
        crate::models::theme::text(r) == path_file_name(path@),
{
    std::path::Path::new(path).file_name().map(|n| n.to_string_lossy().into_owned())
}

} // verus!
