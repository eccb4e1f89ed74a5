//! The output tree, as the organizer sees it.

use vstd::prelude::*;

verus! {

/// Writes into the output tree. Paths are relative to the tree's root and use
/// `/` between segments. Implementations do real file-system work, so
/// nothing is promised of their results.
pub trait FileSystemWriter {
    /// Writes `data` to the file at `path`, replacing any file there.
    fn write_file(&self, path: &str, data: &[u8]) -> Result<(), String>;

    /// Creates the directory at `path` and its missing parents; succeeds
    /// where it already exists.
    fn create_directory(&self, path: &str) -> Result<(), String>;

    /// The full path of `path`, for reports.
    fn get_full_path(&self, path: &str) -> String;

    /// The name of a directory in `year_path` whose name starts with
    /// `date_prefix`, if there is one.
    fn find_existing_date_directory(&self, year_path: &str, date_prefix: &str) -> Option<String>;
}

} // verus!
