//! File paths. A `PathBuf` need not be text, so it stays what the standard
//! library makes of it, and only its own functions look inside. What they say of
//! a path depends on the platform that the program is built for, and otherwise
//! on their arguments alone.

use std::path::PathBuf;
use vstd::prelude::*;

verus! {

#[verifier::external_type_specification]
#[verifier::external_body]
pub struct ExPathBuf(std::path::PathBuf);

/// The path that `PathBuf::from` makes of a text.
pub uninterp spec fn path_of(name: Seq<char>) -> PathBuf;

/// `PathBuf::from` gives one path for the same text.
#[verifier::external_body]
pub(crate) fn from_text(name: &str) -> (r: PathBuf)
    ensures
        r == path_of(name@),
{
    PathBuf::from(name)
}

/// Whether `Path::is_absolute` holds of a path.
pub uninterp spec fn absolute(path: PathBuf) -> bool;

/// `Path::is_absolute` depends on the path alone.
#[verifier::external_body]
pub(crate) fn is_absolute(path: &PathBuf) -> (r: bool)
    ensures
        r == absolute(*path),
{
    path.is_absolute()
}

/// The path that `Path::join` makes of a path and a name below it.
pub uninterp spec fn joined(base: PathBuf, name: Seq<char>) -> PathBuf;

/// `Path::join` gives one path for the same base and name. A name that is
/// itself an absolute path replaces the base.
#[verifier::external_body]
pub(crate) fn join(base: &PathBuf, name: &str) -> (r: PathBuf)
    ensures
        r == joined(*base, name@),
        absolute(path_of(name@)) ==> r == path_of(name@),
{
    base.join(name)
}

/// Whether `Path::starts_with` finds `base` at the front of `path`.
pub uninterp spec fn within(path: PathBuf, base: PathBuf) -> bool;

/// `Path::starts_with` depends on the two paths alone.
#[verifier::external_body]
pub(crate) fn starts_with(path: &PathBuf, base: &PathBuf) -> (r: bool)
    ensures
        r == within(*path, *base),
{
    path.starts_with(base)
}

/// Whether `==` holds of two paths.
pub uninterp spec fn same_path(a: PathBuf, b: PathBuf) -> bool;

/// `PathBuf::eq` depends on the two paths alone, and holds of a path and
/// itself. It also holds of paths with the same components that are written
/// differently.
#[verifier::external_body]
pub(crate) fn same(a: &PathBuf, b: &PathBuf) -> (r: bool)
    ensures
        r == same_path(*a, *b),
        *a == *b ==> r,
{
    a == b
}

/// The text in which `Path::display` shows a path to the user.
pub uninterp spec fn shown(path: PathBuf) -> Seq<char>;

/// `Path::display` writes one text for the same path.
#[verifier::external_body]
pub(crate) fn show(path: &PathBuf) -> (r: String)
    ensures
        r@ == shown(*path),
{
    format!("{}", path.display())
}

/// `PathBuf::clone` gives the same path.
#[verifier::external_body]
pub(crate) fn copy(path: &PathBuf) -> (r: PathBuf)
    ensures
        r == *path,
{
    path.clone()
}

} // verus!
