//! The calls into outside crates, each behind a contract.
use vstd::prelude::*;

use crate::organizer::{
    date_time_accepted, date_value_view, digits_value, is_jpg_name_spec, jpg_pattern, CaptureDate,
    DateValue,
};

verus! {

/// Whether `exif::Reader::read_from_container` finds a container (TIFF,
/// JPEG, PNG, HEIF or WebP) with a well-formed Exif block in these bytes.
pub uninterp spec fn exif_container_readable(bytes: Seq<u8>) -> bool;

/// What `exif::Exif::get_field` finds under the `DateTime` tag of the primary
/// image in the Exif block of these bytes: `None` when the tag is absent,
/// `Some(None)` when its value is not ASCII, else the bytes of its strings.
pub uninterp spec fn exif_date_time_field(bytes: Seq<u8>) -> Option<Option<Seq<Seq<u8>>>>;

/// Relies on exif::Reader::read_from_container, with the reader's default
/// settings, over an in-memory cursor, and on exif::Exif::get_field for the
/// `DateTime` tag of the primary image. Both read the bytes alone, so the
/// outcome is a function of them; an ASCII value is handed out as the bytes
/// of each of its strings.
#[verifier::external_body]
pub(crate) fn read_date_time(bytes: &Vec<u8>) -> (r: Option<DateValue>)
    ensures
        r is Some == exif_container_readable(bytes@),
        r matches Some(v) ==> date_value_view(v) == exif_date_time_field(bytes@),
{
    let exif = exif::Reader::new().read_from_container(&mut std::io::Cursor::new(bytes.as_slice())).ok()?;
    match exif.get_field(exif::Tag::DateTime, exif::In::PRIMARY) {
        None => Some(DateValue::Missing),
        Some(field) => match field.value {
            exif::Value::Ascii(ref v) => Some(DateValue::Ascii(v.clone())),
            _ => Some(DateValue::NotAscii),
        },
    }
}

/// Relies on exif::DateTime::from_ascii: it accepts a value of at least 19
/// bytes with the delimiters of `YYYY:MM:DD HH:MM:SS` and digits elsewhere,
/// and reads the year from the first four digits and the month from the two
/// after the first colon.
#[verifier::external_body]
pub(crate) fn parse_date_time(data: &[u8]) -> (r: Option<CaptureDate>)
    ensures
        r is Some == date_time_accepted(data@),
        r matches Some(d) ==> d.year == digits_value(data@.subrange(0, 4))
            && d.month == digits_value(data@.subrange(5, 7)),
{
    exif::DateTime::from_ascii(data).ok().map(|d| CaptureDate { year: d.year, month: d.month })
}

/// Relies on glob::Pattern::new and glob::Pattern::matches_with, with case
/// ignored and neither a literal separator nor a literal leading dot
/// required, the options of the directory walk: `*` then matches any run of
/// characters and a literal character matches itself in any ASCII case, so
/// `*.jpg` matches exactly the names whose last four characters are `.jpg`.
#[verifier::external_body]
pub(crate) fn glob_matches_ignoring_case(pattern: &str, name: &str) -> (r: bool)
    ensures
        pattern@ == jpg_pattern() ==> r == is_jpg_name_spec(name@),
{
    let options = glob::MatchOptions {
        case_sensitive: false,
        require_literal_separator: false,
        require_literal_leading_dot: false,
    };
    glob::Pattern::new(pattern).map_or(false, |p| p.matches_with(name, options))
}

} // verus!
