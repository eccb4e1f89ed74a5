use organize_photo_zip::exif::{CompositeDateExtractor, ExifDateExtractor};
use organize_photo_zip::file_writer::FileSystemWriter;
use organize_photo_zip::organizer::{collect_filenames, PhotoOrganizer};
use organize_photo_zip::path_generator::PathGenerator;
use organize_photo_zip::photo_filter::{ExistingCollectionFilter, NoFilter};
use organize_photo_zip::zip_image_reader::{ZipEntry, ZipImageReader};
use std::cell::RefCell;

struct MockZipReader {
    entries: Vec<ZipEntry>,
}

impl ZipImageReader for MockZipReader {
    fn read_entries(&self) -> Result<Vec<ZipEntry>, String> {
        Ok(self.entries.clone())
    }
}

struct BrokenReader;

impl ZipImageReader for BrokenReader {
    fn read_entries(&self) -> Result<Vec<ZipEntry>, String> {
        Err("Failed to open ZIP file: missing.zip".to_string())
    }
}

/// An output tree kept in memory.
#[derive(Default)]
struct MemoryTree {
    directories: RefCell<Vec<String>>,
    files: RefCell<Vec<(String, Vec<u8>)>>,
    fail_writes: bool,
}

impl FileSystemWriter for MemoryTree {
    fn write_file(&self, path: &str, data: &[u8]) -> Result<(), String> {
        if self.fail_writes {
            return Err("disk full".to_string());
        }
        let mut files = self.files.borrow_mut();
        files.retain(|(p, _)| p != path);
        files.push((path.to_string(), data.to_vec()));
        Ok(())
    }

    fn create_directory(&self, path: &str) -> Result<(), String> {
        let mut directories = self.directories.borrow_mut();
        if !directories.iter().any(|d| d == path) {
            directories.push(path.to_string());
        }
        Ok(())
    }

    fn get_full_path(&self, path: &str) -> String {
        format!("/output/{}", path)
    }

    fn find_existing_date_directory(&self, year_path: &str, date_prefix: &str) -> Option<String> {
        let prefix = format!("{}/{}", year_path, date_prefix);
        self.directories
            .borrow()
            .iter()
            .find(|d| d.starts_with(&prefix))
            .map(|d| d[year_path.len() + 1..].to_string())
    }
}

impl MemoryTree {
    fn has_file(&self, path: &str) -> bool {
        self.files.borrow().iter().any(|(p, _)| p == path)
    }
}

fn ascii_entry(out: &mut Vec<u8>, tag: u16, count: u32, offset: u32) {
    out.extend_from_slice(&tag.to_be_bytes());
    out.extend_from_slice(&2u16.to_be_bytes());
    out.extend_from_slice(&count.to_be_bytes());
    out.extend_from_slice(&offset.to_be_bytes());
}

/// A JPEG whose embedded metadata holds the original capture time
/// `2012:10:06 13:09:32`.
fn jpeg_with_capture_date() -> Vec<u8> {
    let date = b"2012:10:06 13:09:32\0";
    let mut tiff = Vec::new();
    tiff.extend_from_slice(b"MM\x00\x2a");
    tiff.extend_from_slice(&8u32.to_be_bytes());
    tiff.extend_from_slice(&1u16.to_be_bytes());
    tiff.extend_from_slice(&0x8769u16.to_be_bytes());
    tiff.extend_from_slice(&4u16.to_be_bytes());
    tiff.extend_from_slice(&1u32.to_be_bytes());
    tiff.extend_from_slice(&26u32.to_be_bytes());
    tiff.extend_from_slice(&0u32.to_be_bytes());
    tiff.extend_from_slice(&1u16.to_be_bytes());
    ascii_entry(&mut tiff, 0x9003, date.len() as u32, 44);
    tiff.extend_from_slice(&0u32.to_be_bytes());
    tiff.extend_from_slice(date);

    let mut jpeg = vec![0xFF, 0xD8, 0xFF, 0xE1];
    let len = (2 + 6 + tiff.len()) as u16;
    jpeg.extend_from_slice(&len.to_be_bytes());
    jpeg.extend_from_slice(b"Exif\x00\x00");
    jpeg.extend_from_slice(&tiff);
    jpeg.extend_from_slice(&[0xFF, 0xD9]);
    jpeg
}

fn entry(name: &str, data: Vec<u8>) -> ZipEntry {
    ZipEntry { name: name.to_string(), data }
}

#[test]
fn test_organize_empty_zip() {
    let zip_reader = MockZipReader { entries: vec![] };
    let date_extractor = ExifDateExtractor::new();
    let file_writer = MemoryTree::default();
    let path_generator = PathGenerator::new(&file_writer);
    let filter = NoFilter::new();

    let organizer = PhotoOrganizer::new(&zip_reader, &date_extractor, &path_generator, &file_writer, &filter);

    let result = organizer.organize();

    assert!(result.is_ok());
    let stats = result.unwrap();
    assert_eq!(stats.total_files, 0);
    assert_eq!(stats.organized_files, 0);
}

#[test]
fn test_organize_single_photo() {
    let zip_reader = MockZipReader { entries: vec![entry("photo1.jpg", jpeg_with_capture_date())] };
    let date_extractor = ExifDateExtractor::new();
    let file_writer = MemoryTree::default();
    let path_generator = PathGenerator::new(&file_writer);
    let filter = NoFilter::new();

    let organizer = PhotoOrganizer::new(&zip_reader, &date_extractor, &path_generator, &file_writer, &filter);

    let result = organizer.organize();

    assert!(result.is_ok());
    let stats = result.unwrap();
    assert_eq!(stats.total_files, 1);
    assert_eq!(stats.organized_files, 1);
    assert!(file_writer.has_file("2012/2012-10-06/photo1.jpg"));
}

#[test]
fn test_organize_multiple_photos_same_date() {
    let test_image = jpeg_with_capture_date();
    let zip_reader = MockZipReader {
        entries: vec![entry("photo1.jpg", test_image.clone()), entry("photo2.jpg", test_image.clone())],
    };
    let date_extractor = ExifDateExtractor::new();
    let file_writer = MemoryTree::default();
    let path_generator = PathGenerator::new(&file_writer);
    let filter = NoFilter::new();

    let organizer = PhotoOrganizer::new(&zip_reader, &date_extractor, &path_generator, &file_writer, &filter);

    let result = organizer.organize();

    assert!(result.is_ok());
    let stats = result.unwrap();
    assert_eq!(stats.total_files, 2);
    assert_eq!(stats.organized_files, 2);
    assert!(file_writer.has_file("2012/2012-10-06/photo1.jpg"));
    assert!(file_writer.has_file("2012/2012-10-06/photo2.jpg"));
}

#[test]
fn test_organize_photos_different_dates() {
    let zip_reader = MockZipReader { entries: vec![entry("photo_oct.jpg", jpeg_with_capture_date())] };
    let date_extractor = ExifDateExtractor::new();
    let file_writer = MemoryTree::default();
    let path_generator = PathGenerator::new(&file_writer);
    let filter = NoFilter::new();

    let organizer = PhotoOrganizer::new(&zip_reader, &date_extractor, &path_generator, &file_writer, &filter);

    let result = organizer.organize();

    assert!(result.is_ok());
    let stats = result.unwrap();
    assert_eq!(stats.total_files, 1);
    assert_eq!(stats.organized_files, 1);
}

#[test]
fn test_organize_file_without_exif_skipped() {
    let zip_reader = MockZipReader { entries: vec![entry("no_exif.jpg", vec![0xFF, 0xD8, 0xFF, 0xD9])] };
    let date_extractor = ExifDateExtractor::new();
    let file_writer = MemoryTree::default();
    let path_generator = PathGenerator::new(&file_writer);
    let filter = NoFilter::new();

    let organizer = PhotoOrganizer::new(&zip_reader, &date_extractor, &path_generator, &file_writer, &filter);

    let result = organizer.organize();

    assert!(result.is_ok());
    let stats = result.unwrap();
    assert_eq!(stats.total_files, 1);
    assert_eq!(stats.organized_files, 0);
    assert_eq!(stats.skipped_files, 1);
    assert!(stats.errors.len() > 0);
    assert_eq!(stats.errors, vec!["no_exif.jpg: Failed to extract date".to_string()]);
}

#[test]
fn test_organize_extracts_filename_from_zip_path() {
    let zip_reader = MockZipReader {
        entries: vec![entry(
            "Takeout/Google Photos/Photos from 2012/IMG_20121006_130932.jpg",
            jpeg_with_capture_date(),
        )],
    };
    let date_extractor = ExifDateExtractor::new();
    let mock_writer = MemoryTree::default();
    let path_generator = PathGenerator::new(&mock_writer);
    let filter = NoFilter::new();

    let organizer = PhotoOrganizer::new(&zip_reader, &date_extractor, &path_generator, &mock_writer, &filter);

    let result = organizer.organize();

    assert!(result.is_ok());
    let stats = result.unwrap();
    assert_eq!(stats.total_files, 1);
    assert_eq!(stats.organized_files, 1);
    assert_eq!(mock_writer.files.borrow().len(), 1);
    assert!(mock_writer.has_file("2012/2012-10-06/IMG_20121006_130932.jpg"));
    assert_eq!(mock_writer.directories.borrow().as_slice(), &["2012/2012-10-06".to_string()]);
}

#[test]
fn unreadable_source_fails_the_run() {
    let date_extractor = ExifDateExtractor::new();
    let file_writer = MemoryTree::default();
    let path_generator = PathGenerator::new(&file_writer);
    let filter = NoFilter::new();
    let organizer = PhotoOrganizer::new(&BrokenReader, &date_extractor, &path_generator, &file_writer, &filter);
    assert_eq!(organizer.organize().err(), Some("Failed to open ZIP file: missing.zip".to_string()));
}

#[test]
fn write_failures_are_recorded_and_the_run_goes_on() {
    let zip_reader = MockZipReader {
        entries: vec![entry("a/2020-01-02.jpg", vec![1]), entry("random.jpg", vec![2]), entry("x.gif", vec![3])],
    };
    let date_extractor = CompositeDateExtractor::new();
    let file_writer = MemoryTree { fail_writes: true, ..MemoryTree::default() };
    let path_generator = PathGenerator::new(&file_writer);
    let filter = ExistingCollectionFilter::new(vec![]);
    let organizer = PhotoOrganizer::new(&zip_reader, &date_extractor, &path_generator, &file_writer, &filter);
    let stats = organizer.organize_entries(&zip_reader.entries);
    assert_eq!(stats.total_files, 3);
    assert_eq!(stats.organized_files, 0);
    assert_eq!(stats.skipped_files, 3);
    assert_eq!(
        stats.errors,
        vec!["a/2020-01-02.jpg: Failed to write file".to_string(), "random.jpg: Failed to extract date".to_string()]
    );
}

#[test]
fn names_are_collected_in_order() {
    let zip_reader = MockZipReader { entries: vec![entry("b.jpg", vec![]), entry("x/a.jpg", vec![])] };
    assert_eq!(collect_filenames(&zip_reader), Ok(vec!["b.jpg".to_string(), "x/a.jpg".to_string()]));
    assert_eq!(collect_filenames(&BrokenReader), Err("Failed to open ZIP file: missing.zip".to_string()));
}

#[test]
fn filename_is_the_last_path_segment() {
    type Organizer<'a> = PhotoOrganizer<'a, MockZipReader, ExifDateExtractor, MemoryTree, NoFilter>;
    assert_eq!(Organizer::extract_filename_from_path("a/b/c.jpg"), "c.jpg");
    assert_eq!(Organizer::extract_filename_from_path("c.jpg"), "c.jpg");
    assert_eq!(Organizer::extract_filename_from_path("dir/"), "");
}

#[test]
fn scenario_a_single_dated_photo() {
    let names = vec!["trip.jpg".to_string()];
    let zip_reader = MockZipReader { entries: vec![entry("trip.jpg", jpeg_with_capture_date())] };
    let date_extractor = CompositeDateExtractor::new();
    let file_writer = MemoryTree::default();
    let path_generator = PathGenerator::new(&file_writer);
    let filter = ExistingCollectionFilter::new(names);
    let organizer = PhotoOrganizer::new(&zip_reader, &date_extractor, &path_generator, &file_writer, &filter);
    let stats = organizer.organize().unwrap();
    assert_eq!((stats.total_files, stats.organized_files, stats.skipped_files), (1, 1, 0));
    assert!(file_writer.has_file("2012/2012-10-06/trip.jpg"));
}

#[test]
fn scenario_b_edited_copy_is_dropped_when_original_present() {
    let data = jpeg_with_capture_date();
    let entries = vec![entry("DSC_9157.JPG", data.clone()), entry("DSC_9157-edited.JPG", data)];
    let names = entries.iter().map(|e| e.name.clone()).collect();
    let zip_reader = MockZipReader { entries };
    let date_extractor = CompositeDateExtractor::new();
    let file_writer = MemoryTree::default();
    let path_generator = PathGenerator::new(&file_writer);
    let filter = ExistingCollectionFilter::new(names);
    let organizer = PhotoOrganizer::new(&zip_reader, &date_extractor, &path_generator, &file_writer, &filter);
    let stats = organizer.organize().unwrap();
    assert_eq!((stats.total_files, stats.organized_files, stats.skipped_files), (2, 1, 1));
    assert!(stats.errors.is_empty());
    assert!(file_writer.has_file("2012/2012-10-06/DSC_9157.JPG"));
    assert!(!file_writer.has_file("2012/2012-10-06/DSC_9157-edited.JPG"));
}

#[test]
fn scenario_c_orphaned_edited_copy_is_kept() {
    let entries = vec![entry("DSC_9157-edited.JPG", jpeg_with_capture_date())];
    let names = entries.iter().map(|e| e.name.clone()).collect();
    let zip_reader = MockZipReader { entries };
    let date_extractor = CompositeDateExtractor::new();
    let file_writer = MemoryTree::default();
    let path_generator = PathGenerator::new(&file_writer);
    let filter = ExistingCollectionFilter::new(names);
    let organizer = PhotoOrganizer::new(&zip_reader, &date_extractor, &path_generator, &file_writer, &filter);
    let stats = organizer.organize().unwrap();
    assert_eq!((stats.total_files, stats.organized_files, stats.skipped_files), (1, 1, 0));
    assert!(file_writer.has_file("2012/2012-10-06/DSC_9157-edited.JPG"));
}

#[test]
fn scenario_e_no_date_anywhere_is_an_error() {
    let zip_reader = MockZipReader { entries: vec![entry("random_file.jpg", vec![0xFF, 0xD8, 0xFF, 0xD9])] };
    let date_extractor = CompositeDateExtractor::new();
    let file_writer = MemoryTree::default();
    let path_generator = PathGenerator::new(&file_writer);
    let filter = NoFilter::new();
    let organizer = PhotoOrganizer::new(&zip_reader, &date_extractor, &path_generator, &file_writer, &filter);
    let stats = organizer.organize().unwrap();
    assert_eq!((stats.total_files, stats.organized_files, stats.skipped_files), (1, 0, 1));
    assert_eq!(stats.errors.len(), 1);
    assert!(stats.errors[0].starts_with("random_file.jpg: "));
    assert!(stats.errors[0].len() > "random_file.jpg: ".len());
}

#[test]
fn scenario_f_existing_annotated_directory_is_reused() {
    let zip_reader = MockZipReader { entries: vec![entry("PXL_2025-10-28.jpg", vec![0])] };
    let date_extractor = CompositeDateExtractor::new();
    let file_writer = MemoryTree::default();
    file_writer.create_directory("2025/2025-10-28_special_event").unwrap();
    let path_generator = PathGenerator::new(&file_writer);
    let filter = NoFilter::new();
    let organizer = PhotoOrganizer::new(&zip_reader, &date_extractor, &path_generator, &file_writer, &filter);
    let stats = organizer.organize().unwrap();
    assert_eq!(stats.organized_files, 1);
    assert!(file_writer.has_file("2025/2025-10-28_special_event/PXL_2025-10-28.jpg"));
    assert!(!file_writer.directories.borrow().iter().any(|d| d == "2025/2025-10-28"));
}

#[test]
fn counts_always_add_up() {
    let data = jpeg_with_capture_date();
    let entries = vec![
        entry("a.jpg", data.clone()),
        entry("a-MIX.jpg", data.clone()),
        entry("b.gif", data.clone()),
        entry("nothing.png", vec![]),
        entry("IMG-20150130-WA0001.jpg", vec![]),
    ];
    let names = entries.iter().map(|e| e.name.clone()).collect();
    let zip_reader = MockZipReader { entries };
    let date_extractor = CompositeDateExtractor::new();
    let file_writer = MemoryTree::default();
    let path_generator = PathGenerator::new(&file_writer);
    let filter = ExistingCollectionFilter::new(names);
    let organizer = PhotoOrganizer::new(&zip_reader, &date_extractor, &path_generator, &file_writer, &filter);
    let stats = organizer.organize().unwrap();
    assert_eq!(stats.total_files, 5);
    assert_eq!(stats.organized_files + stats.skipped_files, stats.total_files);
    assert_eq!((stats.organized_files, stats.skipped_files, stats.errors.len()), (2, 3, 1));
    assert!(file_writer.has_file("2015/2015-01-30/IMG-20150130-WA0001.jpg"));
}
