//! Sorts JPEG photographs into a `year/month` tree by their Exif capture date.
//!
//! The library decides, for each file found under an input directory, where
//! its copy belongs under the output directory: a dated folder when its Exif
//! `DateTime` parses, a `no_exif` folder when the file holds no readable Exif
//! container, and nowhere when the tag is missing or malformed.

mod exif_meta;
pub mod organizer;

pub use organizer::{
    check_dirs, classify, destination, is_jpg_name, place_date_value, plan_copies, plan_file,
    CaptureDate, DateValue, DirError, Placement, SourceEntry,
};
