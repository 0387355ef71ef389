use gp_organizer::{
    check_dirs, classify, destination, is_jpg_name, place_date_value, plan_copies, plan_file,
    CaptureDate, DateValue, DirError, Placement, SourceEntry,
};

const ASCII: u16 = 2;
const SHORT: u16 = 3;
const DATE_TIME: u16 = 0x0132;
const IMAGE_DESCRIPTION: u16 = 0x010e;

/// A big-endian TIFF block whose first IFD holds one field.
fn tiff_with(tag: u16, typ: u16, count: u32, value: &[u8]) -> Vec<u8> {
    let mut t = b"MM\x00\x2a\x00\x00\x00\x08".to_vec();
    t.extend_from_slice(&1u16.to_be_bytes());
    t.extend_from_slice(&tag.to_be_bytes());
    t.extend_from_slice(&typ.to_be_bytes());
    t.extend_from_slice(&count.to_be_bytes());
    if value.len() <= 4 {
        let mut inline = value.to_vec();
        inline.resize(4, 0);
        t.extend_from_slice(&inline);
    } else {
        t.extend_from_slice(&26u32.to_be_bytes());
    }
    t.extend_from_slice(&0u32.to_be_bytes());
    if value.len() > 4 {
        t.extend_from_slice(value);
    }
    t
}

/// A JPEG whose APP1 segment carries the given TIFF block as Exif.
fn jpeg_with(tiff: &[u8]) -> Vec<u8> {
    let mut j = vec![0xff, 0xd8, 0xff, 0xe1];
    j.extend_from_slice(&((2 + 6 + tiff.len()) as u16).to_be_bytes());
    j.extend_from_slice(b"Exif\x00\x00");
    j.extend_from_slice(tiff);
    j.extend_from_slice(&[0xff, 0xd9]);
    j
}

fn jpeg_with_date_time(text: &str) -> Vec<u8> {
    let mut value = text.as_bytes().to_vec();
    value.push(0);
    jpeg_with(&tiff_with(DATE_TIME, ASCII, value.len() as u32, &value))
}

#[test]
fn valid_date_time_goes_to_year_and_month() {
    let bytes = jpeg_with_date_time("2021:06:15 10:00:00");
    let p = classify(&bytes);
    assert_eq!(p, Placement::Dated(CaptureDate { year: 2021, month: 6 }));
    assert_eq!(plan_file("/out", "photo.jpg", &p), Some("/out/2021/06/photo.jpg".to_string()));
}

#[test]
fn year_and_month_keep_their_leading_zeros() {
    let bytes = jpeg_with_date_time("0987:01:02 03:04:05");
    let p = classify(&bytes);
    assert_eq!(p, Placement::Dated(CaptureDate { year: 987, month: 1 }));
    assert_eq!(destination("out", "a.jpg", &p), Some("out/0987/01/a.jpg".to_string()));
}

#[test]
fn tiff_container_is_read_too() {
    let mut value = b"1999:12:31 23:59:59".to_vec();
    value.push(0);
    let bytes = tiff_with(DATE_TIME, ASCII, value.len() as u32, &value);
    assert_eq!(classify(&bytes), Placement::Dated(CaptureDate { year: 1999, month: 12 }));
}

#[test]
fn no_metadata_container_goes_to_fallback() {
    let p = classify(&b"plain text, not an image".to_vec());
    assert_eq!(p, Placement::NoExif);
    assert_eq!(plan_file("/out", "scan.JPG", &p), Some("/out/no_exif/scan.JPG".to_string()));
}

#[test]
fn jpeg_without_exif_goes_to_fallback() {
    assert_eq!(classify(&vec![0xff, 0xd8, 0xff, 0xd9]), Placement::NoExif);
    assert_eq!(classify(&Vec::new()), Placement::NoExif);
}

/// A malformed date-time drops the file altogether: it is neither dated nor
/// sent to the fallback folder, so fewer files come out than went in.
#[test]
fn malformed_date_time_is_not_copied() {
    let bytes = jpeg_with_date_time("not-a-date");
    let p = classify(&bytes);
    assert_eq!(p, Placement::Skipped);
    assert_eq!(plan_file("/out", "odd.jpg", &p), None);
    let entries = vec![
        SourceEntry { name: "odd.jpg".to_string(), placement: p },
        SourceEntry { name: "good.jpg".to_string(), placement: classify(&jpeg_with_date_time("2021:06:15 10:00:00")) },
    ];
    let plan = plan_copies("/out", &entries);
    let copied = plan.iter().filter(|d| d.is_some()).count();
    assert_eq!(copied, 1);
    assert_ne!(copied, entries.len());
}

#[test]
fn missing_date_time_tag_is_not_copied() {
    let bytes = jpeg_with(&tiff_with(IMAGE_DESCRIPTION, ASCII, 4, b"ABC\x00"));
    assert_eq!(classify(&bytes), Placement::Skipped);
}

#[test]
fn non_ascii_date_time_is_not_copied() {
    let bytes = jpeg_with(&tiff_with(DATE_TIME, SHORT, 1, &[0, 7]));
    assert_eq!(classify(&bytes), Placement::Skipped);
}

#[test]
fn date_values_are_placed_from_their_first_string() {
    assert_eq!(place_date_value(&DateValue::Missing), Placement::Skipped);
    assert_eq!(place_date_value(&DateValue::NotAscii), Placement::Skipped);
    assert_eq!(place_date_value(&DateValue::Ascii(Vec::new())), Placement::Skipped);
    let v = DateValue::Ascii(vec![b"2016:05:04 03:02:01".to_vec(), b"junk".to_vec()]);
    assert_eq!(place_date_value(&v), Placement::Dated(CaptureDate { year: 2016, month: 5 }));
    let v = DateValue::Ascii(vec![b"junk".to_vec(), b"2016:05:04 03:02:01".to_vec()]);
    assert_eq!(place_date_value(&v), Placement::Skipped);
    let blank = DateValue::Ascii(vec![b"    :  :     :  :  ".to_vec()]);
    assert_eq!(place_date_value(&blank), Placement::Skipped);
    let short = DateValue::Ascii(vec![b"2016:05:04 03:02".to_vec()]);
    assert_eq!(place_date_value(&short), Placement::Skipped);
    let bad_delimiter = DateValue::Ascii(vec![b"2016-05-04 03:02:01".to_vec()]);
    assert_eq!(place_date_value(&bad_delimiter), Placement::Skipped);
}

#[test]
fn skipped_file_has_no_destination() {
    assert_eq!(destination("/out", "a.jpg", &Placement::Skipped), None);
}

#[test]
fn missing_input_directory_is_reported_first() {
    assert_eq!(check_dirs(false, true), Err(DirError::InputMissing));
    assert_eq!(check_dirs(false, false), Err(DirError::InputMissing));
    assert_eq!(check_dirs(true, false), Err(DirError::OutputMissing));
    assert_eq!(check_dirs(true, true), Ok(()));
}

#[test]
fn jpg_names_match_in_any_case() {
    assert!(is_jpg_name("a.jpg"));
    assert!(is_jpg_name("a.JPG"));
    assert!(is_jpg_name("IMG_0001.JpG"));
    assert!(is_jpg_name(".jpg"));
    assert!(is_jpg_name(".hidden.jpg"));
    assert!(!is_jpg_name("a.png"));
    assert!(!is_jpg_name("notes.txt"));
    assert!(!is_jpg_name("a.jpeg"));
    assert!(!is_jpg_name("jpg"));
    assert!(!is_jpg_name("a.jpg.bak"));
    assert!(!is_jpg_name(""));
}

#[test]
fn non_jpg_files_are_never_copied() {
    let dated = Placement::Dated(CaptureDate { year: 2020, month: 1 });
    assert_eq!(plan_file("/out", "a.png", &dated), None);
    assert_eq!(plan_file("/out", "b.txt", &Placement::NoExif), None);
}

#[test]
fn every_entry_is_planned_once_in_order() {
    let entries = vec![
        SourceEntry { name: "a.jpg".to_string(), placement: Placement::Dated(CaptureDate { year: 2021, month: 6 }) },
        SourceEntry { name: "b.png".to_string(), placement: Placement::NoExif },
        SourceEntry { name: "c.JPG".to_string(), placement: Placement::NoExif },
        SourceEntry { name: "d.jpg".to_string(), placement: Placement::Skipped },
    ];
    let plan = plan_copies("out", &entries);
    assert_eq!(
        plan,
        vec![
            Some("out/2021/06/a.jpg".to_string()),
            None,
            Some("out/no_exif/c.JPG".to_string()),
            None,
        ]
    );
}

#[test]
fn second_run_plans_the_same_destinations() {
    let bytes = vec![jpeg_with_date_time("2021:06:15 10:00:00"), b"none".to_vec()];
    let names = ["x.jpg", "y.jpg"];
    let run = || {
        let entries: Vec<SourceEntry> = names
            .iter()
            .zip(bytes.iter())
            .map(|(n, b)| SourceEntry { name: n.to_string(), placement: classify(b) })
            .collect();
        plan_copies("/out", &entries)
    };
    let first = run();
    assert_eq!(first, run());
    assert_eq!(first[0], Some("/out/2021/06/x.jpg".to_string()));
    assert_eq!(first[1], Some("/out/no_exif/y.jpg".to_string()));
}

#[test]
fn wide_years_and_months_are_written_in_full() {
    let p = Placement::Dated(CaptureDate { year: 12345, month: 123 });
    assert_eq!(destination("/out", "a.jpg", &p), Some("/out/12345/123/a.jpg".to_string()));
    let p = Placement::Dated(CaptureDate { year: 7, month: 0 });
    assert_eq!(destination("/out", "a.jpg", &p), Some("/out/0007/00/a.jpg".to_string()));
}
