//! File-system paths as strings: what the standard library's path functions
//! and the home-directory lookup give, by name.

use vstd::prelude::*;
use crate::text::opt_string_view;

verus! {

/// What joining the path `part` to the path `base` gives on the platform the
/// library is built for.
pub uninterp spec fn joined_path(base: Seq<char>, part: Seq<char>) -> Seq<char>;

/// The parent of `path` on the platform the library is built for: `None`
/// for a root and for the empty path.
pub uninterp spec fn parent_path(path: Seq<char>) -> Option<Seq<char>>;

/// The extension of the file name of `path`, without the dot: `None` where
/// the name has none.
pub uninterp spec fn path_extension(path: Seq<char>) -> Option<Seq<char>>;

/// The last component of `path`: `None` where the path ends in `..` or is a
/// root.
pub uninterp spec fn path_file_name(path: Seq<char>) -> Option<Seq<char>>;

/// Joins two paths.
///
/// Trusted: this is `std::path::Path::join`, a function of the two paths
/// alone; the contract only gives its result the name `joined_path`.
#[verifier::external_body]
pub(crate) fn join_path(base: &str, part: &str) -> (r: String)
    ensures
        r@ == joined_path(base@, part@),
{
    std::path::Path::new(base).join(part).to_string_lossy().into_owned()
}

/// The parent directory of a path.
///
/// Trusted: this is `std::path::Path::parent`, a function of the path
/// alone; the contract only gives its result the name `parent_path`.
#[verifier::external_body]
pub(crate) fn parent_of(path: &str) -> (r: Option<String>)
    ensures
        opt_string_view(r) == parent_path(path@),
{
    std::path::Path::new(path).parent().map(|p| p.to_string_lossy().into_owned())
}

/// The extension of a path.
///
/// Trusted: this is `std::path::Path::extension`, a function of the path
/// alone; the contract only gives its result the name `path_extension`.
#[verifier::external_body]
pub(crate) fn extension_of(path: &str) -> (r: Option<String>)
    ensures
        opt_string_view(r) == path_extension(path@),
{
    std::path::Path::new(path).extension().map(|e| e.to_string_lossy().into_owned())
}

/// The file name of a path.
///
/// Trusted: this is `std::path::Path::file_name`, a function of the path
/// alone; the contract only gives its result the name `path_file_name`.
#[verifier::external_body]
pub(crate) fn file_name_of(path: &str) -> (r: Option<String>)
    ensures
        opt_string_view(r) == path_file_name(path@),
{
    std::path::Path::new(path).file_name().map(|n| n.to_string_lossy().into_owned())
}

/// The current user's home directory, where the platform knows one.
///
/// Trusted: this is `dirs::home_dir`, which asks the environment; nothing
/// is claimed of what it returns.
#[verifier::external_body]
pub(crate) fn home_directory() -> (r: Option<String>) {
    dirs::home_dir().map(|p| p.to_string_lossy().into_owned())
}

/// The directory that stands for an unknown home: the current one.
pub open spec fn home_or_here(home: Option<Seq<char>>) -> Seq<char> {
    match home {
        Some(h) => h,
        None => "."@,
    }
}

/// The path `first/second` below the home directory, or below `.` where no
/// home is known.
pub open spec fn spec_under_home(home: Option<Seq<char>>, first: Seq<char>, second: Seq<char>) -> Seq<
    char,
> {
    joined_path(joined_path(home_or_here(home), first), second)
}

/// The path `first/second` below `home`, or below `.` where `home` is
/// `None`.
pub fn under_home(home: &Option<String>, first: &str, second: &str) -> (r: String)
    ensures
        r@ == spec_under_home(opt_string_view(*home), first@, second@),
{
    let base = match home {
        Some(h) => join_path(h.as_str(), first),
        None => join_path(".", first),
    };
    join_path(base.as_str(), second)
}

} // verus!
