//! The settings of the ArcoLinux target.

use vstd::prelude::*;

verus! {

/// The timeout of the transfer where none is set, in milliseconds.
pub const DEFAULT_FETCH_MIRRORS_TIMEOUT: u64 = 15000;

/// The test path where none is set.
pub const DEFAULT_PATH_TO_TEST: &'static str =
    "arcolinux_repo_3party/x86_64/arcolinux_repo_3party.files";

/// The architecture that leaves the choice to whoever reads the written
/// list. It is the one where none is set.
pub const AUTO_ARCH: &'static str = "auto";

/// The comment prefix where none is set.
pub const DEFAULT_COMMENT_PREFIX: &'static str = "# ";

/// The settings of the ArcoLinux target.
#[derive(Debug, PartialEq, Eq)]
pub struct ArcoLinuxTarget {
    /// Fetch list of mirrors timeout in milliseconds
    pub fetch_mirrors_timeout: u64,
    /// Path to be joined to a mirror url and used for speed testing;
    /// the file should be big enough to allow for testing high
    /// speed connections
    pub path_to_test: String,
    /// Architecture
    pub arch: String,
    /// Comment prefix to use when outputting
    pub comment_prefix: String,
}

impl Clone for ArcoLinuxTarget {
    fn clone(&self) -> (copy: Self)
        ensures
            copy.fetch_mirrors_timeout == self.fetch_mirrors_timeout,
            copy.path_to_test@ == self.path_to_test@,
            copy.arch@ == self.arch@,
            copy.comment_prefix@ == self.comment_prefix@,
    {
        ArcoLinuxTarget {
            fetch_mirrors_timeout: self.fetch_mirrors_timeout,
            path_to_test: self.path_to_test.clone(),
            arch: self.arch.clone(),
            comment_prefix: self.comment_prefix.clone(),
        }
    }
}

impl Default for ArcoLinuxTarget {
    fn default() -> (target: Self)
        ensures
            target.fetch_mirrors_timeout == DEFAULT_FETCH_MIRRORS_TIMEOUT,
            target.path_to_test@ == DEFAULT_PATH_TO_TEST@,
            target.arch@ == AUTO_ARCH@,
            target.comment_prefix@ == DEFAULT_COMMENT_PREFIX@,
    {
        ArcoLinuxTarget {
            fetch_mirrors_timeout: DEFAULT_FETCH_MIRRORS_TIMEOUT,
            path_to_test: DEFAULT_PATH_TO_TEST.to_owned(),
            arch: AUTO_ARCH.to_owned(),
            comment_prefix: DEFAULT_COMMENT_PREFIX.to_owned(),
        }
    }
}

} // verus!
