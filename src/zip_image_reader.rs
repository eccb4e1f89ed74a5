//! Photos as read from an archive or a directory.

use crate::text::{chars_of, ends_with, ends_with_exec, lower_of, to_lower};
use vstd::prelude::*;

verus! {

/// A file of the source collection: its name as stored there (it may hold
/// directory segments) and its bytes.
#[derive(Clone, Debug)]
pub struct ZipEntry {
    pub name: String,
    pub data: Vec<u8>,
}

/// A source of photos. Implementations read files, so nothing is promised of
/// what they return.
pub trait ZipImageReader {
    fn read_entries(&self) -> Result<Vec<ZipEntry>, String>;
}

/// The extensions of image files.
pub open spec fn image_extensions() -> Seq<Seq<char>> {
    seq![".jpg"@, ".jpeg"@, ".png"@, ".heic"@, ".heif"@, ".gif"@, ".webp"@, ".bmp"@, ".tiff"@, ".tif"@]
}

/// Whether the lower-case text `lower` ends with an image extension.
pub open spec fn has_image_extension(lower: Seq<char>) -> bool {
    exists|k: int| 0 <= k < image_extensions().len() && ends_with(lower, #[trigger] image_extensions()[k])
}

/// Whether `name`, in lower case, ends with an image extension.
pub open spec fn is_image_name(name: Seq<char>) -> bool {
    has_image_extension(lower_of(name))
}

/// Reads the images of a ZIP archive on disk: the archive member files
/// whose names have an image extension, in archive order.
pub struct FileZipImageReader {
    path: String,
}

impl FileZipImageReader {
    pub fn new(path: String) -> (r: Self)
        ensures
            r.path_view() == path@,
    {
        FileZipImageReader { path }
    }

    /// The path of the archive.
    pub closed spec fn path_view(&self) -> Seq<char> {
        self.path@
    }

    pub fn path(&self) -> (r: &str)
        ensures
            r@ == self.path_view(),
    {
        self.path.as_str()
    }

    /// Whether `filename` has an image extension, in any letter case.
    pub fn is_image_file(filename: &str) -> (r: bool)
        ensures
            r == is_image_name(filename@),
    {
        let lower = to_lower(filename);
        Self::is_lowercase_image_file(lower.as_str())
    }

    /// Whether the lower-case file name `lower` ends with an image extension.
    pub fn is_lowercase_image_file(lower: &str) -> (r: bool)
        ensures
            r == has_image_extension(lower@),
    {
        let name = chars_of(lower);
        let extensions = vec![
            chars_of(".jpg"),
            chars_of(".jpeg"),
            chars_of(".png"),
            chars_of(".heic"),
            chars_of(".heif"),
            chars_of(".gif"),
            chars_of(".webp"),
            chars_of(".bmp"),
            chars_of(".tiff"),
            chars_of(".tif"),
        ];
        assert(extensions@.len() == image_extensions().len());
        assert forall|k: int| 0 <= k < extensions@.len() implies #[trigger] extensions@[k]@ == image_extensions()[k] by {
            if k == 0 {} else if k == 1 {} else if k == 2 {} else if k == 3 {} else if k == 4 {}
            else if k == 5 {} else if k == 6 {} else if k == 7 {} else if k == 8 {} else {}
        }
        let mut k: usize = 0;
        while k < extensions.len()
            invariant
                name@ == lower@,
                extensions@.len() == image_extensions().len(),
                forall|j: int| 0 <= j < extensions@.len() ==> #[trigger] extensions@[j]@ == image_extensions()[j],
                k <= extensions.len(),
                forall|j: int| 0 <= j < k ==> !ends_with(lower@, #[trigger] image_extensions()[j]),
            decreases extensions.len() - k,
        {
            if ends_with_exec(&name, &extensions[k]) {
                assert(ends_with(lower@, image_extensions()[k as int]));
                return true;
            }
            k = k + 1;
        }
        false
    }

    /// Whether an archive member is read: it is a file, not a directory, and
    /// its name has an image extension.
    pub fn wants_entry(name: &str, is_dir: bool) -> (r: bool)
        ensures
            r == (!is_dir && is_image_name(name@)),
    {
        !is_dir && Self::is_image_file(name)
    }
}

} // verus!
