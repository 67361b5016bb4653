use tree_sync::error::{ErrorKind, SyncError};
use tree_sync::fields::{ExifTag, FieldValue, Rational};
use tree_sync::image_source::{Image, Tag};
use tree_sync::converter::ImageFormat;
use tree_sync::metadata::{capture_text, capture_time, extract, gps_coordinate, Coordinate, Location, Tree};
use tree_sync::timestamp::Timestamp;

fn le16(out: &mut Vec<u8>, v: u16) {
    out.extend_from_slice(&v.to_le_bytes());
}

fn le32(out: &mut Vec<u8>, v: u32) {
    out.extend_from_slice(&v.to_le_bytes());
}

fn entry(out: &mut Vec<u8>, tag: u16, kind: u16, count: u32, value: [u8; 4]) {
    le16(out, tag);
    le16(out, kind);
    le32(out, count);
    out.extend_from_slice(&value);
}

fn rationals(out: &mut Vec<u8>, parts: [(u32, u32); 3]) {
    for (num, denom) in parts {
        le32(out, num);
        le32(out, denom);
    }
}

/// A little-endian TIFF file that holds nothing but an EXIF block with the
/// capture time and, if asked for, the four GPS fields.
fn tiff(
    datetime: &[u8; 20],
    offset: &[u8; 7],
    gps: Option<([(u32, u32); 3], u8, [(u32, u32); 3], u8)>,
) -> Vec<u8> {
    const ASCII: u16 = 2;
    const LONG: u16 = 4;
    const RATIONAL: u16 = 5;
    let ifd0_entries: u16 = if gps.is_some() { 2 } else { 1 };
    let ifd0 = 8u32;
    let exif_ifd = ifd0 + 2 + 12 * ifd0_entries as u32 + 4;
    let exif_data = exif_ifd + 2 + 12 * 2 + 4;
    let gps_ifd = exif_data + 20 + 8;
    let gps_data = gps_ifd + 2 + 12 * 4 + 4;

    let mut out = Vec::new();
    out.extend_from_slice(b"II");
    le16(&mut out, 42);
    le32(&mut out, ifd0);

    le16(&mut out, ifd0_entries);
    entry(&mut out, 0x8769, LONG, 1, exif_ifd.to_le_bytes());
    if gps.is_some() {
        entry(&mut out, 0x8825, LONG, 1, gps_ifd.to_le_bytes());
    }
    le32(&mut out, 0);

    assert_eq!(out.len() as u32, exif_ifd);
    le16(&mut out, 2);
    entry(&mut out, 0x9003, ASCII, 20, exif_data.to_le_bytes());
    entry(&mut out, 0x9011, ASCII, 7, (exif_data + 20).to_le_bytes());
    le32(&mut out, 0);
    assert_eq!(out.len() as u32, exif_data);
    out.extend_from_slice(datetime);
    out.extend_from_slice(offset);
    out.push(0);

    if let Some((lat, lat_ref, lon, lon_ref)) = gps {
        assert_eq!(out.len() as u32, gps_ifd);
        le16(&mut out, 4);
        entry(&mut out, 1, ASCII, 2, [lat_ref, 0, 0, 0]);
        entry(&mut out, 2, RATIONAL, 3, gps_data.to_le_bytes());
        entry(&mut out, 3, ASCII, 2, [lon_ref, 0, 0, 0]);
        entry(&mut out, 4, RATIONAL, 3, (gps_data + 24).to_le_bytes());
        le32(&mut out, 0);
        assert_eq!(out.len() as u32, gps_data);
        rationals(&mut out, lat);
        rationals(&mut out, lon);
    }
    out
}

const LAT: [(u32, u32); 3] = [(33, 1), (43, 1), (5232, 10000)];
const LON: [(u32, u32); 3] = [(117, 1), (45, 1), (353412, 10000)];

fn picture() -> Vec<u8> {
    tiff(b"2025:01:18 12:14:00\0", b"-08:00\0", Some((LAT, b'N', LON, b'W')))
}

fn degrees(angle: &Coordinate) -> f64 {
    let value = angle.decimal().unwrap();
    let size = value.numer as f64 / value.denom as f64;
    if value.negative {
        -size
    } else {
        size
    }
}

fn image() -> Image {
    Image {
        id: "abc123".to_string(),
        name: "oak.jpg".to_string(),
        tag: Tag::Marked,
        full_path: "marked/park/oak.jpg".to_string(),
        digest: "da39a3ee".to_string(),
        format: ImageFormat::Jpeg,
    }
}

fn triple(parts: [(u32, u32); 3]) -> FieldValue {
    FieldValue::Rational(parts.iter().map(|&(num, denom)| Rational { num, denom }).collect())
}

fn text(bytes: &[u8]) -> FieldValue {
    FieldValue::Ascii(vec![bytes.to_vec()])
}

#[test]
fn test_get_timestamp() {
    let found = extract(&picture()).unwrap();
    let timestamp = found.timestamp;
    assert_eq!(timestamp.year, 2025);
    assert_eq!(timestamp.month, 1);
    assert_eq!(timestamp.day, 18);
    assert_eq!(timestamp.hour, 12);
    assert_eq!(timestamp.minute, 14);
    assert_eq!(timestamp.second, 0);
    assert_eq!(timestamp.offset_seconds, -8 * 3600);
}

#[test]
fn test_location() {
    let location = extract(&picture()).unwrap().location;
    assert!((degrees(&location.lat) - 33.716812).abs() < 0.00001);
    assert!((degrees(&location.lon) - -117.759817).abs() < 0.00001);
}

#[test]
fn location_keeps_the_fractions_as_stored() {
    let location = extract(&picture()).unwrap().location;
    assert_eq!(
        location.lat,
        Coordinate {
            degrees: Rational { num: 33, denom: 1 },
            minutes: Rational { num: 43, denom: 1 },
            seconds: Rational { num: 5232, denom: 10000 },
            negative: false,
        }
    );
    assert_eq!(
        location.lon,
        Coordinate {
            degrees: Rational { num: 117, denom: 1 },
            minutes: Rational { num: 45, denom: 1 },
            seconds: Rational { num: 353412, denom: 10000 },
            negative: true,
        }
    );
}

#[test]
fn decimal_degrees_are_exact() {
    let angle = Coordinate {
        degrees: Rational { num: 10, denom: 1 },
        minutes: Rational { num: 30, denom: 1 },
        seconds: Rational { num: 36, denom: 1 },
        negative: false,
    };
    // 10 + 30/60 + 36/3600 = 10.51
    let value = angle.decimal().unwrap();
    assert_eq!(value.denom, 3600);
    assert_eq!(value.numer, 37836);
    assert!(!value.negative);

    let angle = Coordinate {
        degrees: Rational { num: 21, denom: 2 },
        minutes: Rational { num: 3, denom: 4 },
        seconds: Rational { num: 5, denom: 6 },
        negative: true,
    };
    // 21/2 + 3/(4*60) + 5/(6*3600), over 3600 * 2 * 4 * 6
    let value = angle.decimal().unwrap();
    assert_eq!(value.denom, 172_800);
    assert_eq!(value.numer, 3600 * 21 * 4 * 6 + 60 * 3 * 2 * 6 + 5 * 2 * 4);
    assert!(value.negative);
}

#[test]
fn decimal_degrees_at_the_largest_fractions() {
    let max = Rational { num: u32::MAX, denom: u32::MAX };
    let angle = Coordinate { degrees: max, minutes: max, seconds: max, negative: false };
    let value = angle.decimal().unwrap();
    let cube = (u32::MAX as u128).pow(3);
    assert_eq!(value.denom, 3600 * cube);
    assert_eq!(value.numer, 3661 * cube);
}

#[test]
fn decimal_degrees_need_denominators() {
    let angle = Coordinate {
        degrees: Rational { num: 1, denom: 1 },
        minutes: Rational { num: 1, denom: 0 },
        seconds: Rational { num: 1, denom: 1 },
        negative: false,
    };
    assert_eq!(angle.decimal(), None);
}

#[test]
fn hemisphere_sets_the_sign() {
    let parts = triple(LAT);
    for (letter, negative) in [(b"N", false), (b"S", true), (b"E", false), (b"W", true)] {
        let letter = text(letter);
        let angle = gps_coordinate(
            Some(&parts),
            Some(&letter),
            ExifTag::GpsLatitude,
            ExifTag::GpsLatitudeRef,
        )
        .unwrap();
        assert_eq!(angle.negative, negative);
        let size = 33.0 + 43.0 / 60.0 + 0.5232 / 3600.0;
        let expected = if negative { -size } else { size };
        assert!((degrees(&angle) - expected).abs() < 1e-12);
    }
}

#[test]
fn any_other_letter_counts_as_positive() {
    let parts = triple(LAT);
    let letter = text(b"north");
    let angle =
        gps_coordinate(Some(&parts), Some(&letter), ExifTag::GpsLatitude, ExifTag::GpsLatitudeRef)
            .unwrap();
    assert!(!angle.negative);
}

#[test]
fn gps_missing_fields() {
    let parts = triple(LAT);
    let letter = text(b"N");
    let error =
        gps_coordinate(None, Some(&letter), ExifTag::GpsLatitude, ExifTag::GpsLatitudeRef)
            .unwrap_err();
    assert_eq!(error.kind(), ErrorKind::ExifMissingField(ExifTag::GpsLatitude));
    let error = gps_coordinate(Some(&parts), None, ExifTag::GpsLatitude, ExifTag::GpsLatitudeRef)
        .unwrap_err();
    assert_eq!(error.kind(), ErrorKind::ExifMissingField(ExifTag::GpsLatitudeRef));
    let error =
        gps_coordinate(None, None, ExifTag::GpsLongitude, ExifTag::GpsLongitudeRef).unwrap_err();
    assert_eq!(error.kind(), ErrorKind::ExifMissingField(ExifTag::GpsLongitude));
}

#[test]
fn gps_wrong_types() {
    let parts = triple(LAT);
    let letter = text(b"N");
    let error = gps_coordinate(
        Some(&letter),
        Some(&letter),
        ExifTag::GpsLatitude,
        ExifTag::GpsLatitudeRef,
    )
    .unwrap_err();
    assert_eq!(error.kind(), ErrorKind::ExifInvalidFieldType);
    let error =
        gps_coordinate(Some(&parts), Some(&parts), ExifTag::GpsLatitude, ExifTag::GpsLatitudeRef)
            .unwrap_err();
    assert_eq!(error.kind(), ErrorKind::ExifInvalidFieldType);
    let error = gps_coordinate(
        Some(&FieldValue::Other),
        Some(&letter),
        ExifTag::GpsLatitude,
        ExifTag::GpsLatitudeRef,
    )
    .unwrap_err();
    assert_eq!(error.kind(), ErrorKind::ExifInvalidFieldType);
}

#[test]
fn gps_needs_exactly_three_fractions() {
    let letter = text(b"N");
    for count in [0usize, 1, 2, 4] {
        let parts = FieldValue::Rational(vec![Rational { num: 1, denom: 1 }; count]);
        let error = gps_coordinate(
            Some(&parts),
            Some(&letter),
            ExifTag::GpsLatitude,
            ExifTag::GpsLatitudeRef,
        )
        .unwrap_err();
        assert_eq!(error.kind(), ErrorKind::ExifInvalidFieldType);
    }
}

#[test]
fn gps_letter_must_be_there_and_be_utf8() {
    let parts = triple(LAT);
    let none = FieldValue::Ascii(vec![]);
    let error =
        gps_coordinate(Some(&parts), Some(&none), ExifTag::GpsLatitude, ExifTag::GpsLatitudeRef)
            .unwrap_err();
    assert_eq!(error.kind(), ErrorKind::ExifInvalidFieldType);
    let broken = text(&[0xff, 0xfe]);
    let error =
        gps_coordinate(Some(&parts), Some(&broken), ExifTag::GpsLatitude, ExifTag::GpsLatitudeRef)
            .unwrap_err();
    assert!(matches!(error, SyncError::ExifUtf8Parse(_)));
    // the text is looked at before the fractions are counted
    let short = FieldValue::Rational(vec![]);
    let error =
        gps_coordinate(Some(&short), Some(&broken), ExifTag::GpsLatitude, ExifTag::GpsLatitudeRef)
            .unwrap_err();
    assert_eq!(error.kind(), ErrorKind::ExifUtf8Parse);
}

#[test]
fn capture_text_joins_with_one_blank() {
    let date = text(b"2025:01:18 12:14:00");
    let zone = text(b"-08:00");
    assert_eq!(capture_text(Some(&date), Some(&zone)).unwrap(), "2025:01:18 12:14:00 -08:00");
}

#[test]
fn capture_text_failures() {
    let date = text(b"2025:01:18 12:14:00");
    let zone = text(b"-08:00");
    let kind = |r: Result<String, SyncError>| r.unwrap_err().kind();
    assert_eq!(
        kind(capture_text(None, Some(&zone))),
        ErrorKind::ExifMissingField(ExifTag::DateTimeOriginal)
    );
    assert_eq!(
        kind(capture_text(Some(&date), None)),
        ErrorKind::ExifMissingField(ExifTag::OffsetTimeOriginal)
    );
    assert_eq!(
        kind(capture_text(Some(&triple(LAT)), Some(&zone))),
        ErrorKind::ExifInvalidFieldType
    );
    assert_eq!(
        kind(capture_text(Some(&date), Some(&FieldValue::Other))),
        ErrorKind::ExifInvalidFieldType
    );
    assert_eq!(
        kind(capture_text(Some(&FieldValue::Ascii(vec![])), Some(&zone))),
        ErrorKind::ExifInvalidFieldType
    );
    assert_eq!(
        kind(capture_text(Some(&date), Some(&FieldValue::Ascii(vec![])))),
        ErrorKind::ExifInvalidFieldType
    );
    assert_eq!(kind(capture_text(Some(&text(&[0xc3])), Some(&zone))), ErrorKind::ExifUtf8Parse);
    assert_eq!(kind(capture_text(Some(&date), Some(&text(&[0x80])))), ErrorKind::ExifUtf8Parse);
}

#[test]
fn capture_time_reads_the_layout() {
    let date = text(b"2025:01:18 12:14:00");
    let zone = text(b"+05:30");
    assert_eq!(
        capture_time(Some(&date), Some(&zone)).unwrap(),
        Timestamp {
            year: 2025,
            month: 1,
            day: 18,
            hour: 12,
            minute: 14,
            second: 0,
            nanosecond: 0,
            offset_seconds: 5 * 3600 + 30 * 60,
        }
    );
}

#[test]
fn capture_time_refuses_other_layouts() {
    let zone = text(b"-08:00");
    for date in ["2025-01-18 12:14:00", "2025:13:18 12:14:00", "2025:01:18", ""] {
        let date = text(date.as_bytes());
        let error = capture_time(Some(&date), Some(&zone)).unwrap_err();
        assert!(matches!(error, SyncError::TimeParse(_)));
    }
    let date = text(b"2025:01:18 12:14:00");
    let error = capture_time(Some(&date), Some(&text(b"PST"))).unwrap_err();
    assert_eq!(error.kind(), ErrorKind::TimeParse);
}

#[test]
fn timestamp_parse_and_text() {
    let at = Timestamp::parse("2025:01:18 12:14:00 -08:00").unwrap();
    assert_eq!(at.to_rfc3339().unwrap(), "2025-01-18T12:14:00-08:00");
    let at = Timestamp::parse("1999:12:31 23:59:59 +00:00").unwrap();
    assert_eq!(at.to_rfc3339().unwrap(), "1999-12-31T23:59:59+00:00");
    assert!(Timestamp::parse("yesterday").is_err());
}

#[test]
fn timestamp_text_needs_a_real_moment() {
    let mut at = Timestamp::parse("2025:01:18 12:14:00 -08:00").unwrap();
    at.month = 13;
    assert_eq!(at.to_rfc3339(), None);
    at.month = 2;
    at.day = 30;
    assert_eq!(at.to_rfc3339(), None);
    at.day = 28;
    at.offset_seconds = 86_400;
    assert_eq!(at.to_rfc3339(), None);
    at.offset_seconds = 3600;
    assert_eq!(at.to_rfc3339().unwrap(), "2025-02-28T12:14:00+01:00");
}

#[test]
fn extract_reports_the_first_failure() {
    // no EXIF block at all
    let error = extract(b"not a picture").unwrap_err();
    assert!(matches!(error, SyncError::ExifParse(_)));
    assert_eq!(extract(&[]).unwrap_err().kind(), ErrorKind::ExifParse);
    // the capture time is read before the place
    let error = extract(&tiff(b"2025-01-18 12:14:00\0", b"-08:00\0", None)).unwrap_err();
    assert_eq!(error.kind(), ErrorKind::TimeParse);
    let error = extract(&tiff(b"2025:01:18 12:14:00\0", b"-08:00\0", None)).unwrap_err();
    assert_eq!(error.kind(), ErrorKind::ExifMissingField(ExifTag::GpsLatitude));
}

#[test]
fn tree_new_keeps_the_image() {
    let tree = Tree::new(image(), &picture()).unwrap();
    assert_eq!(tree.image, image());
    let found = extract(&picture()).unwrap();
    assert_eq!(tree.location, found.location);
    assert_eq!(tree.timestamp, found.timestamp);
    assert!(Tree::new(image(), b"no picture").is_err());
}

#[test]
fn record_round_trip() {
    let tree = Tree::new(image(), &picture()).unwrap();
    let (lon, lat) = tree.location.position();
    assert!((degrees(&lon) - -117.759817).abs() < 1e-6);
    assert!((degrees(&lat) - 33.716812).abs() < 1e-6);
    let timestamp = tree.timestamp_text().unwrap();
    assert_eq!(timestamp, "2025-01-18T12:14:00-08:00");
    let properties = tree.properties(&timestamp);
    let expected = [
        ("id", "abc123"),
        ("timestamp", "2025-01-18T12:14:00-08:00"),
        ("file", "marked/park/oak.jpg"),
        ("hash", "da39a3ee"),
        ("tag", "marked"),
        ("name", "oak.jpg"),
    ];
    assert_eq!(properties.len(), expected.len());
    for ((name, value), (expected_name, expected_value)) in properties.iter().zip(expected) {
        assert_eq!(name, expected_name);
        assert_eq!(value, expected_value);
    }
}

#[test]
fn position_puts_longitude_first() {
    let location = Location {
        lat: Coordinate {
            degrees: Rational { num: 1, denom: 1 },
            minutes: Rational { num: 0, denom: 1 },
            seconds: Rational { num: 0, denom: 1 },
            negative: false,
        },
        lon: Coordinate {
            degrees: Rational { num: 2, denom: 1 },
            minutes: Rational { num: 0, denom: 1 },
            seconds: Rational { num: 0, denom: 1 },
            negative: true,
        },
    };
    assert_eq!(location.position(), (location.lon, location.lat));
}
