//! Reorganizes a flat collection of photos into a date-based directory tree.
//!
//! The library decides, for each photo, whether it is kept, which calendar
//! date it belongs to (embedded capture date first, file name second) and
//! where in the output tree it goes; the surrounding program does the reading
//! and writing.

pub mod date;
pub mod exif;
pub mod file_writer;
pub mod organizer;
pub mod path_generator;
pub mod pattern;
pub mod photo_filter;
pub mod text;
pub mod zip_image_reader;
pub mod zip_reader;
