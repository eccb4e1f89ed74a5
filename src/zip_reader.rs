//! Reading every file of a ZIP archive.

use vstd::prelude::*;

pub use crate::zip_image_reader::ZipEntry;

verus! {

/// A source of archive members. Implementations read files, so nothing is
/// promised of what they return.
pub trait ZipReader {
    fn read_entries(&self) -> Result<Vec<ZipEntry>, String>;
}

/// Reads every member file of a ZIP archive on disk, in archive order.
pub struct FileZipReader {
    path: String,
}

impl FileZipReader {
    pub fn new(path: String) -> (r: Self)
        ensures
            r.path_view() == path@,
    {
        FileZipReader { path }
    }

    pub closed spec fn path_view(&self) -> Seq<char> {
        self.path@
    }

    /// The path of the archive.
    pub fn path(&self) -> (r: &str)
        ensures
            r@ == self.path_view(),
    {
        self.path.as_str()
    }

    /// Whether an archive member is read: every member but directories.
    pub fn wants_entry(is_dir: bool) -> (r: bool)
        ensures
            r == !is_dir,
    {
        !is_dir
    }
}

} // verus!
