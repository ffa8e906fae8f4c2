//! Filesystem option types, existence checks, and the `~`-expansion rule.
//!
//! The operations that actually touch the disk live with the surrounding
//! process; this module holds their option types and error taxonomy, the
//! two existence queries, and the decision of how a path that may start
//! with `~` is expanded.

use vstd::prelude::*;

verus! {

/// Errors from filesystem operations.
#[derive(Debug)]
pub enum FilesystemError {
    /// An underlying I/O failure; carries its message.
    Io(String),
    /// The path given was empty.
    EmptyPath,
    /// The home directory could not be determined.
    HomeDirNotFound,
    /// `~user` expansion was requested, which is not supported.
    UserExpansionNotSupported,
}

/// Options for writing files.
pub struct WriteOptions {
    /// If true, an existing file may be overwritten.
    pub overwrite: bool,
}

impl Default for WriteOptions {
    /// By default, writing overwrites an existing file.
    fn default() -> (r: Self)
        ensures
            r.overwrite == true,
    {
        WriteOptions { overwrite: true }
    }
}

/// Options for removing files or directories.
pub struct RemoveOptions {
    /// If true, directories are removed recursively.
    pub recursive: bool,
}

impl Default for RemoveOptions {
    /// By default, removal is not recursive.
    fn default() -> (r: Self)
        ensures
            r.recursive == false,
    {
        RemoveOptions { recursive: false }
    }
}

/// Relies on `std::path::Path::is_dir`: whether the path names an
/// existing directory. The answer depends on the disk, so nothing is
/// promised of it.
#[verifier::external_body]
fn path_is_dir(path: &str) -> bool {
    std::path::Path::new(path).is_dir()
}

/// Relies on `std::path::Path::is_file`: whether the path names an
/// existing regular file. The answer depends on the disk, so nothing is
/// promised of it.
#[verifier::external_body]
fn path_is_file(path: &str) -> bool {
    std::path::Path::new(path).is_file()
}

/// Whether a directory exists at the given path.
pub fn dir_exists(dir: &str) -> bool {
    path_is_dir(dir)
}

/// Whether a regular file exists at the given path.
pub fn file_exists(file: &str) -> bool {
    path_is_file(file)
}

/// How a path string that may start with `~` is to be expanded.
#[derive(Clone, Copy, Debug, PartialEq, Eq, Structural)]
pub enum HomeExpansion {
    /// An empty input expands to the empty path.
    EmptyInput,
    /// The path does not start with `~` and is used verbatim.
    Verbatim,
    /// The path is exactly `~`: the home directory itself.
    HomeItself,
    /// The path starts with `~/` or `~\`: the remainder, after those two
    /// characters, joined under the home directory.
    UnderHome,
    /// Any other use of `~` (such as `~user`) is unsupported and expands
    /// to the empty path.
    Unsupported,
}

/// The `~`-expansion rule, decided from the path string alone; looking up
/// the home directory and building the expanded path stay with the
/// surrounding process.
pub fn classify_home_path(path: &str) -> (r: HomeExpansion)
    ensures
        (r == HomeExpansion::EmptyInput <==> path@.len() == 0),
        (r == HomeExpansion::Verbatim <==> (path@.len() > 0 && path@[0] != '~')),
        (r == HomeExpansion::HomeItself <==> (path@.len() == 1 && path@[0] == '~')),
        (r == HomeExpansion::UnderHome <==> (path@.len() >= 2 && path@[0] == '~' && (path@[1]
            == '/' || path@[1] == '\\'))),
        (r == HomeExpansion::Unsupported <==> (path@.len() >= 2 && path@[0] == '~' && path@[1]
            != '/' && path@[1] != '\\')),
{
    let n = path.unicode_len();
    if n == 0 {
        HomeExpansion::EmptyInput
    } else if path.get_char(0) != '~' {
        HomeExpansion::Verbatim
    } else if n == 1 {
        HomeExpansion::HomeItself
    } else {
        let second = path.get_char(1);
        if second == '/' || second == '\\' {
            HomeExpansion::UnderHome
        } else {
            HomeExpansion::Unsupported
        }
    }
}

} // verus!
