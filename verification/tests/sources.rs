use camera_uploads::datetime::DateTime;
use camera_uploads::decimal::ParseError;
use camera_uploads::extract::{extract, settle};
use camera_uploads::metadata::{
    exif_datetime, original_datetime, ExifFailure, ExifField, DATE_TIME_ORIGINAL,
};
use camera_uploads::modified::{
    datetime_at_offset, datetime_from_local, mtime_datetime, unix_timestamp, LocalFields,
};
use camera_uploads::naming::{filename, year_dir_name};
use chrono::{Datelike, TimeZone, Timelike};

fn tiff_with(tag: u16, format: u16, text: &[u8]) -> Vec<u8> {
    let mut v: Vec<u8> = Vec::new();
    v.extend_from_slice(&[0x49, 0x49, 0x2a, 0x00, 8, 0, 0, 0]);
    v.extend_from_slice(&[1, 0]);
    v.extend_from_slice(&[0x69, 0x87, 4, 0, 1, 0, 0, 0, 26, 0, 0, 0]);
    v.extend_from_slice(&[0, 0, 0, 0]);
    v.extend_from_slice(&[1, 0]);
    v.extend_from_slice(&tag.to_le_bytes());
    v.extend_from_slice(&format.to_le_bytes());
    v.extend_from_slice(&(text.len() as u32).to_le_bytes());
    v.extend_from_slice(&[44, 0, 0, 0]);
    v.extend_from_slice(&[0, 0, 0, 0]);
    v.extend_from_slice(text);
    v
}

fn jpeg_around(tiff: &[u8]) -> Vec<u8> {
    let size = (tiff.len() + 8) as u16;
    let mut v: Vec<u8> = vec![0xff, 0xd8, 0xff, 0xe1];
    v.extend_from_slice(&size.to_be_bytes());
    v.extend_from_slice(b"Exif\0\0");
    v.extend_from_slice(tiff);
    v
}

fn text_field(tag: u32, text: &[u8]) -> ExifField {
    ExifField { tag, text: Some(text.to_vec()) }
}

fn june() -> DateTime {
    DateTime { year: 2021, month: 6, day: 15, hour: 8, minute: 30, second: 0 }
}

#[test]
fn capture_date_is_read_from_a_tiff() {
    let tiff = tiff_with(0x9003, 2, b"2021:06:15 08:30:00\0");
    assert!(matches!(exif_datetime(&tiff), Ok(d) if d == june()));
}

#[test]
fn capture_date_is_read_from_a_jpeg() {
    let jpeg = jpeg_around(&tiff_with(0x9003, 2, b"2021:06:15 08:30:00\0"));
    assert!(matches!(exif_datetime(&jpeg), Ok(d) if d == june()));
}

#[test]
fn bytes_that_are_no_image_are_unreadable() {
    assert!(matches!(exif_datetime(b""), Err(ExifFailure::Unreadable(_))));
    assert!(matches!(exif_datetime(b"2021:06:15 08:30:00"), Err(ExifFailure::Unreadable(_))));
    assert!(matches!(
        exif_datetime(&[0x49, 0x49, 0x2a, 0x00, 8, 0, 0, 0, 9, 0, 0]),
        Err(ExifFailure::Unreadable(_))
    ));
}

#[test]
fn image_without_the_tag_has_no_capture_date() {
    let tiff = tiff_with(0x9004, 2, b"2021:06:15 08:30:00\0");
    assert!(matches!(exif_datetime(&tiff), Err(ExifFailure::NoTag)));
}

#[test]
fn capture_date_of_another_type_is_no_text() {
    let tiff = tiff_with(0x9003, 1, b"2021:06:15 08:30:00\0");
    assert!(matches!(exif_datetime(&tiff), Err(ExifFailure::NotText)));
}

#[test]
fn malformed_capture_date_is_reported() {
    let blank = tiff_with(0x9003, 2, b"    :  :     :  :  \0");
    assert!(matches!(exif_datetime(&blank), Err(ExifFailure::Malformed(ParseError::Blank))));
    let dashes = tiff_with(0x9003, 2, b"2021-06-15 08:30:00\0");
    assert!(matches!(exif_datetime(&dashes), Err(ExifFailure::Malformed(ParseError::Delimiter))));
}

#[test]
fn first_field_with_the_tag_decides() {
    let fields = vec![
        text_field(0x0132, b"2000:01:01 00:00:00"),
        text_field(DATE_TIME_ORIGINAL, b"2021:06:15 08:30:00"),
        text_field(DATE_TIME_ORIGINAL, b"1999:09:09 09:09:09"),
    ];
    assert!(matches!(original_datetime(&fields), Ok(d) if d == june()));
    let bad_first = vec![
        text_field(DATE_TIME_ORIGINAL, b"2021:06:15"),
        text_field(DATE_TIME_ORIGINAL, b"2021:06:15 08:30:00"),
    ];
    assert!(matches!(
        original_datetime(&bad_first),
        Err(ExifFailure::Malformed(ParseError::TooShort))
    ));
}

#[test]
fn fields_without_the_tag_give_no_tag() {
    assert!(matches!(original_datetime(&Vec::new()), Err(ExifFailure::NoTag)));
    let fields = vec![text_field(0x0132, b"2000:01:01 00:00:00")];
    assert!(matches!(original_datetime(&fields), Err(ExifFailure::NoTag)));
}

#[test]
fn field_without_text_gives_not_text() {
    let fields = vec![
        ExifField { tag: DATE_TIME_ORIGINAL, text: None },
        text_field(DATE_TIME_ORIGINAL, b"2021:06:15 08:30:00"),
    ];
    assert!(matches!(original_datetime(&fields), Err(ExifFailure::NotText)));
}

#[test]
fn field_errors_are_passed_on() {
    let fields = vec![text_field(DATE_TIME_ORIGINAL, b"2021:06:1x 08:30:00")];
    assert!(matches!(
        original_datetime(&fields),
        Err(ExifFailure::Malformed(ParseError::NonDigit(b'x')))
    ));
}

#[test]
fn local_fields_are_narrowed() {
    let f = LocalFields { year: 2020, month: 1, day: 2, hour: 3, minute: 4, second: 5 };
    assert_eq!(
        datetime_from_local(f),
        Some(DateTime { year: 2020, month: 1, day: 2, hour: 3, minute: 4, second: 5 })
    );
}

#[test]
fn local_fields_that_do_not_fit_are_refused() {
    let ok = LocalFields { year: 0, month: 255, day: 255, hour: 255, minute: 255, second: 255 };
    assert!(datetime_from_local(ok).is_some());
    assert_eq!(datetime_from_local(LocalFields { year: -1, ..ok }), None);
    assert_eq!(datetime_from_local(LocalFields { month: 256, ..ok }), None);
    assert_eq!(datetime_from_local(LocalFields { day: 256, ..ok }), None);
    assert_eq!(datetime_from_local(LocalFields { hour: 256, ..ok }), None);
    assert_eq!(datetime_from_local(LocalFields { minute: 256, ..ok }), None);
    assert_eq!(datetime_from_local(LocalFields { second: 256, ..ok }), None);
}

#[test]
fn modification_time_is_local_time() {
    let secs: i64 = 1_623_745_800;
    let local = chrono::Local.timestamp_opt(secs, 0).unwrap();
    let expected = DateTime {
        year: local.year() as u32,
        month: local.month() as u8,
        day: local.day() as u8,
        hour: local.hour() as u8,
        minute: local.minute() as u8,
        second: local.second() as u8,
    };
    assert_eq!(mtime_datetime(secs, 0), Some(expected));
    assert_eq!(mtime_datetime(secs, 999_999_999), Some(expected));
    assert_eq!(expected.minute % 15, 0);
    assert_eq!(expected.second, 0);
}

#[test]
fn modification_time_out_of_reach_gives_none() {
    assert_eq!(mtime_datetime(i64::MAX, 0), None);
    assert_eq!(mtime_datetime(i64::MIN, 0), None);
    assert_eq!(mtime_datetime(0, u32::MAX), None);
}

#[test]
fn modification_time_before_year_zero_gives_none() {
    assert_eq!(mtime_datetime(-70_000_000_000, 0), None);
}

#[test]
fn settle_prefers_the_capture_date() {
    let fallback = DateTime { year: 2020, month: 1, day: 1, hour: 0, minute: 0, second: 0 };
    let r = settle(Some(Ok(june())), Some(fallback));
    assert_eq!(r.datetime, Some(june()));
    assert!(r.diagnostic.is_none());
    let r = settle(Some(Err(ExifFailure::NoTag)), Some(fallback));
    assert_eq!(r.datetime, Some(fallback));
    assert!(matches!(r.diagnostic, Some(ExifFailure::NoTag)));
    let r = settle(None, Some(fallback));
    assert_eq!(r.datetime, Some(fallback));
    assert!(r.diagnostic.is_none());
    let r = settle(None, None);
    assert_eq!(r.datetime, None);
}

#[test]
fn image_with_capture_date_and_file_with_none() {
    let jpeg = jpeg_around(&tiff_with(0x9003, 2, b"2021:06:15 08:30:00\0"));
    let a = extract(Some("jpg"), &jpeg, Some((0, 0)));
    assert!(a.diagnostic.is_none());
    let a = a.datetime.unwrap();
    assert_eq!(year_dir_name(&a), "2021");
    assert_eq!(filename(&a, 0, Some("jpg")), "2021-06-15 08.30.00.jpg");

    let modified = chrono::Local.with_ymd_and_hms(2020, 1, 1, 0, 0, 0).unwrap().timestamp();
    let b = extract(Some("png"), &jpeg, Some((modified, 0)));
    assert!(b.diagnostic.is_none());
    let b = b.datetime.unwrap();
    assert_eq!(year_dir_name(&b), "2020");
    assert_eq!(filename(&b, 0, Some("png")), "2020-01-01 00.00.00.png");
}

#[test]
fn extension_decides_in_any_case() {
    let tiff = tiff_with(0x9003, 2, b"2021:06:15 08:30:00\0");
    assert_eq!(extract(Some("TIFF"), &tiff, Some((0, 0))).datetime, Some(june()));
    assert_eq!(extract(Some("Tif"), &tiff, Some((0, 0))).datetime, Some(june()));
    assert_eq!(extract(Some("JPG"), &tiff, Some((0, 0))).datetime, Some(june()));
    assert_eq!(extract(Some("jpeg"), &tiff, Some((0, 0))).datetime, mtime_datetime(0, 0));
    assert_eq!(extract(None, &tiff, Some((0, 0))).datetime, mtime_datetime(0, 0));
}

#[test]
fn failed_metadata_falls_back_with_a_diagnostic() {
    let r = extract(Some("jpg"), b"not an image", Some((86_400 * 365, 0)));
    assert!(matches!(r.diagnostic, Some(ExifFailure::Unreadable(_))));
    assert_eq!(r.datetime, mtime_datetime(86_400 * 365, 0));
    assert!(r.datetime.is_some());

    let blank = tiff_with(0x9003, 2, b"                   \0");
    let r = extract(Some("tif"), &blank, Some((86_400 * 365, 0)));
    assert!(matches!(r.diagnostic, Some(ExifFailure::Malformed(ParseError::Blank))));
    assert_eq!(r.datetime, mtime_datetime(86_400 * 365, 0));
}

#[test]
fn ordinary_timestamps_always_have_a_date() {
    let first = mtime_datetime(0, 0).unwrap();
    assert!(first.year == 1969 || first.year == 1970);
    let last = mtime_datetime(253_402_214_399, 999_999_999).unwrap();
    assert_eq!(last.year, 9999);
    assert_eq!(last.month, 12);
    assert!(last.day == 30 || last.day == 31);
    let some = mtime_datetime(1_623_745_800, 0).unwrap();
    assert_eq!(some.year, 2021);
    assert_eq!(some.month, 6);
}

#[test]
fn spans_after_the_epoch_are_kept() {
    assert_eq!(unix_timestamp(false, 0, 0), Some((0, 0)));
    assert_eq!(unix_timestamp(false, 5, 7), Some((5, 7)));
    assert_eq!(unix_timestamp(false, 1_623_745_800, 999_999_999), Some((1_623_745_800, 999_999_999)));
    assert_eq!(unix_timestamp(false, i64::MAX as u64, 0), Some((i64::MAX, 0)));
}

#[test]
fn spans_before_the_epoch_count_back() {
    assert_eq!(unix_timestamp(true, 0, 0), Some((0, 0)));
    assert_eq!(unix_timestamp(true, 5, 0), Some((-5, 0)));
    assert_eq!(unix_timestamp(true, 5, 250_000_000), Some((-6, 750_000_000)));
    assert_eq!(unix_timestamp(true, 0, 1), Some((-1, 999_999_999)));
    assert_eq!(unix_timestamp(true, i64::MAX as u64, 0), Some((-i64::MAX, 0)));
    assert_eq!(unix_timestamp(true, i64::MAX as u64, 1), Some((i64::MIN, 999_999_999)));
}

#[test]
fn spans_that_do_not_fit_give_none() {
    assert_eq!(unix_timestamp(false, i64::MAX as u64 + 1, 0), None);
    assert_eq!(unix_timestamp(true, i64::MAX as u64 + 1, 0), None);
    assert_eq!(unix_timestamp(false, u64::MAX, 0), None);
    assert_eq!(unix_timestamp(false, 0, 1_000_000_000), None);
    assert_eq!(unix_timestamp(true, 0, u32::MAX), None);
}

#[test]
fn capture_date_needs_no_modification_time() {
    let tiff = tiff_with(0x9003, 2, b"2021:06:15 08:30:00\0");
    let r = extract(Some("tif"), &tiff, None);
    assert_eq!(r.datetime, Some(june()));
    assert!(r.diagnostic.is_none());
}

#[test]
fn no_modification_time_gives_no_fallback() {
    let r = extract(Some("png"), b"", None);
    assert_eq!(r.datetime, None);
    assert!(r.diagnostic.is_none());
    let r = extract(Some("jpg"), b"not an image", None);
    assert_eq!(r.datetime, None);
    assert!(matches!(r.diagnostic, Some(ExifFailure::Unreadable(_))));
}

#[test]
fn fallback_does_not_depend_on_the_failure() {
    let at = Some((1_623_745_800, 0));
    let expected = mtime_datetime(1_623_745_800, 0);
    assert!(expected.is_some());
    let blank = tiff_with(0x9003, 2, b"    :  :     :  :  \0");
    let dashes = tiff_with(0x9003, 2, b"2021-06-15 08:30:00\0");
    let letters = tiff_with(0x9003, 2, b"2021:06:1x 08:30:00\0");
    let other = tiff_with(0x9004, 2, b"2021:06:15 08:30:00\0");
    assert_eq!(extract(Some("jpg"), &blank, at).datetime, expected);
    assert_eq!(extract(Some("jpg"), &dashes, at).datetime, expected);
    assert_eq!(extract(Some("jpg"), &letters, at).datetime, expected);
    assert_eq!(extract(Some("jpg"), &other, at).datetime, expected);
    assert_eq!(extract(Some("jpg"), b"", at).datetime, expected);
}

fn at(year: u32, month: u8, day: u8, hour: u8, minute: u8, second: u8) -> Option<DateTime> {
    Some(DateTime { year, month, day, hour, minute, second })
}

#[test]
fn seconds_are_read_at_the_offset() {
    assert_eq!(datetime_at_offset(1_623_745_800, 0), at(2021, 6, 15, 8, 30, 0));
    assert_eq!(datetime_at_offset(1_623_745_800, 7_200), at(2021, 6, 15, 10, 30, 0));
    assert_eq!(datetime_at_offset(1_623_745_800, -9 * 3_600), at(2021, 6, 14, 23, 30, 0));
    assert_eq!(datetime_at_offset(1_623_745_800, 20_700), at(2021, 6, 15, 14, 15, 0));
    assert_eq!(datetime_at_offset(1_577_836_800, 0), at(2020, 1, 1, 0, 0, 0));
    assert_eq!(datetime_at_offset(1_582_934_399, 1), at(2020, 2, 29, 0, 0, 0));
}

#[test]
fn seconds_around_the_epoch() {
    assert_eq!(datetime_at_offset(0, 0), at(1970, 1, 1, 0, 0, 0));
    assert_eq!(datetime_at_offset(0, -1), at(1969, 12, 31, 23, 59, 59));
    assert_eq!(datetime_at_offset(-1, 0), at(1969, 12, 31, 23, 59, 59));
    assert_eq!(datetime_at_offset(-86_400 * 365, 0), at(1969, 1, 1, 0, 0, 0));
}

#[test]
fn offsets_of_a_day_or_more_are_refused() {
    assert_eq!(datetime_at_offset(0, 86_399), at(1970, 1, 1, 23, 59, 59));
    assert_eq!(datetime_at_offset(0, -86_399), at(1969, 12, 31, 0, 0, 1));
    assert_eq!(datetime_at_offset(0, 86_400), None);
    assert_eq!(datetime_at_offset(0, -86_400), None);
    assert_eq!(datetime_at_offset(0, i32::MAX), None);
    assert_eq!(datetime_at_offset(0, i32::MIN), None);
}

#[test]
fn ordinary_seconds_at_their_ends() {
    assert_eq!(datetime_at_offset(-62_167_132_800, 0), at(0, 1, 2, 0, 0, 0));
    assert_eq!(datetime_at_offset(-62_167_132_800, -86_399), at(0, 1, 1, 0, 0, 1));
    assert_eq!(datetime_at_offset(253_402_214_399, 0), at(9999, 12, 30, 23, 59, 59));
    assert_eq!(datetime_at_offset(253_402_214_399, 86_399), at(9999, 12, 31, 23, 59, 58));
}

#[test]
fn years_out_of_reach_give_no_date() {
    assert_eq!(datetime_at_offset(-62_167_219_200, 0), at(0, 1, 1, 0, 0, 0));
    assert_eq!(datetime_at_offset(-62_167_219_200, -1), None);
    assert_eq!(datetime_at_offset(-62_167_219_201, 0), None);
    assert_eq!(datetime_at_offset(253_402_300_800, 0), at(10000, 1, 1, 0, 0, 0));
    assert_eq!(datetime_at_offset(i64::MAX, 0), None);
    assert_eq!(datetime_at_offset(i64::MIN, 0), None);
}

#[test]
fn modification_time_is_read_at_the_local_offset() {
    for secs in [-86_400 * 365i64, 0, 1_577_836_800, 1_623_745_800, 1_700_000_000] {
        let offset = chrono::Local.timestamp_opt(secs, 0).unwrap().offset().local_minus_utc();
        assert!(-86_400 < offset && offset < 86_400);
        let expected = datetime_at_offset(secs, offset);
        assert!(expected.is_some());
        assert_eq!(mtime_datetime(secs, 0), expected);
        assert_eq!(mtime_datetime(secs, 123_456_789), expected);
    }
}

#[test]
fn modification_time_before_the_epoch_has_a_date() {
    let r = mtime_datetime(-86_400 * 365 * 100, 0).unwrap();
    assert!(r.year == 1869 || r.year == 1870);
    let first = mtime_datetime(-62_167_132_800, 0).unwrap();
    assert_eq!(first.year, 0);
    assert_eq!(first.month, 1);
}
