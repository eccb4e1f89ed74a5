use organize_photo_zip::date::CalendarDate;
use organize_photo_zip::file_writer::FileSystemWriter;
use organize_photo_zip::path_generator::{compose_path, format_date, format_year, PathGenerator};
use std::cell::RefCell;

/// An output tree that holds the given date directories, and records the
/// lookups made in it.
struct TreeWithDirectories {
    directories: Vec<(String, String)>,
    lookups: RefCell<Vec<(String, String)>>,
}

impl TreeWithDirectories {
    fn new(directories: &[(&str, &str)]) -> Self {
        TreeWithDirectories {
            directories: directories.iter().map(|(y, d)| (y.to_string(), d.to_string())).collect(),
            lookups: RefCell::new(Vec::new()),
        }
    }
}

impl FileSystemWriter for TreeWithDirectories {
    fn write_file(&self, _path: &str, _data: &[u8]) -> Result<(), String> {
        Ok(())
    }

    fn create_directory(&self, _path: &str) -> Result<(), String> {
        Ok(())
    }

    fn get_full_path(&self, path: &str) -> String {
        format!("/output/{}", path)
    }

    fn find_existing_date_directory(&self, year_path: &str, date_prefix: &str) -> Option<String> {
        self.lookups.borrow_mut().push((year_path.to_string(), date_prefix.to_string()));
        self.directories
            .iter()
            .find(|(y, d)| y == year_path && d.starts_with(date_prefix))
            .map(|(_, d)| d.clone())
    }
}

fn ymd(year: i32, month: u32, day: u32) -> CalendarDate {
    CalendarDate { year, month, day }
}

#[test]
fn test_generate_path_correct_format() {
    let mock_writer = TreeWithDirectories::new(&[]);
    let generator = PathGenerator::new(&mock_writer);
    let date = ymd(2024, 1, 5);
    let filename = "IMG_1234.jpg";

    let path = generator.generate_path(&date, filename);

    assert_eq!(path, "2024/2024-01-05/IMG_1234.jpg");
}

#[test]
fn test_generate_path_different_year() {
    let mock_writer = TreeWithDirectories::new(&[]);
    let generator = PathGenerator::new(&mock_writer);
    let date = ymd(2025, 10, 24);
    let filename = "photo.png";

    let path = generator.generate_path(&date, filename);

    assert_eq!(path, "2025/2025-10-24/photo.png");
}

#[test]
fn test_generate_path_single_digit_month_and_day() {
    let mock_writer = TreeWithDirectories::new(&[]);
    let generator = PathGenerator::new(&mock_writer);
    let date = ymd(2024, 3, 7);
    let filename = "test.jpg";

    let path = generator.generate_path(&date, filename);

    assert_eq!(path, "2024/2024-03-07/test.jpg");
}

#[test]
fn test_generate_path_reuses_existing_directory_with_suffix() {
    let mock_writer = TreeWithDirectories::new(&[("2025", "2025-10-28_special_event")]);
    let generator = PathGenerator::new(&mock_writer);
    let date = ymd(2025, 10, 28);
    let filename = "photo.jpg";

    let path = generator.generate_path(&date, filename);

    assert_eq!(path, "2025/2025-10-28_special_event/photo.jpg");
    assert_eq!(
        mock_writer.lookups.borrow().as_slice(),
        &[("2025".to_string(), "2025-10-28".to_string())]
    );
}

#[test]
fn directories_of_other_dates_are_not_reused() {
    let mock_writer = TreeWithDirectories::new(&[("2025", "2025-10-27_trip"), ("2024", "2025-10-28_x")]);
    let generator = PathGenerator::new(&mock_writer);
    assert_eq!(generator.generate_path(&ymd(2025, 10, 28), "a.jpg"), "2025/2025-10-28/a.jpg");
}

#[test]
fn same_inputs_give_the_same_path() {
    let tree = TreeWithDirectories::new(&[("2025", "2025-10-28_special_event")]);
    let generator = PathGenerator::new(&tree);
    let first = generator.generate_path(&ymd(2025, 10, 28), "p.jpg");
    let second = generator.generate_path(&ymd(2025, 10, 28), "p.jpg");
    assert_eq!(first, second);
    assert_eq!(
        compose_path(&ymd(2024, 3, 7), "n.jpg", None),
        compose_path(&ymd(2024, 3, 7), "n.jpg", None)
    );
}

#[test]
fn found_directory_is_reused_as_it_is() {
    let date = ymd(2025, 10, 28);
    assert_eq!(
        compose_path(&date, "p.jpg", Some("2025-10-28_special_event".to_string())),
        "2025/2025-10-28_special_event/p.jpg"
    );
    assert_eq!(compose_path(&date, "p.jpg", Some("holiday".to_string())), "2025/holiday/p.jpg");
    assert_eq!(compose_path(&date, "p.jpg", None), "2025/2025-10-28/p.jpg");
}

#[test]
fn dates_are_zero_padded() {
    assert_eq!(format_date(&ymd(2024, 3, 7)), "2024-03-07");
    assert_eq!(format_date(&ymd(812, 12, 31)), "0812-12-31");
    assert_eq!(format_date(&ymd(0, 1, 1)), "0000-01-01");
    assert_eq!(format_year(&ymd(9999, 1, 1)), "9999");
    assert_eq!(format_year(&ymd(12345, 1, 1)), "+12345");
    assert_eq!(format_year(&ymd(-5, 1, 1)), "-0005");
    assert_eq!(format_year(&ymd(-12345, 1, 1)), "-12345");
    assert_eq!(format_date(&ymd(10000, 2, 3)), "+10000-02-03");
}
