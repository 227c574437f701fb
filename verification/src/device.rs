use vstd::prelude::*;

verus! {

/// File system abstraction.
///
/// Designed to work nicely with embedded SD card drivers and the stdlib filesystem.
pub trait Storage<R> {
    /// Open a file for reading.
    ///
    /// The file path is given as a slice of path components.
    /// There are at least 4 components:
    ///
    /// 1. the first one is the root directory (either "roms" or "data"),
    /// 2. the second is the author ID,
    /// 3. the third is the app ID,
    /// 4. (optional) directory names if the file is nested,
    /// 5. and the last is file name.
    ///
    /// The runtime ensures that the path is relative and never goes up the tree.
    fn open_file(&self, path: &[&str]) -> Option<R>;
}

} // verus!
