use tree_sync::config::{concurrency, parse_number, Config, LogFormat, CPU_MULTIPLIER};
use tree_sync::converter::{Backend, ImageConverter, ImageFormat};
use tree_sync::error::{ErrorKind, NumberError, SyncError};
use std::str::FromStr;

use tree_sync::image_source::Tag;

#[test]
fn log_format_names() {
    assert_eq!(LogFormat::from_setting(Some("text")).unwrap(), LogFormat::Text);
    assert_eq!(LogFormat::from_setting(Some("json")).unwrap(), LogFormat::Json);
    assert_eq!(LogFormat::from_setting(None).unwrap(), LogFormat::Text);
    assert_eq!(LogFormat::default(), LogFormat::Text);
    assert_eq!(LogFormat::Text.as_str(), "text");
    assert_eq!(LogFormat::Json.as_str(), "json");
}

#[test]
fn unknown_log_format_is_handed_back() {
    for name in ["", "JSON", "yaml", "text "] {
        let error = LogFormat::from_setting(Some(name)).unwrap_err();
        assert!(matches!(error, SyncError::UnknownLogType(given) if given == name));
    }
}

#[test]
fn numbers() {
    assert_eq!(parse_number("0"), Ok(0));
    assert_eq!(parse_number("7"), Ok(7));
    assert_eq!(parse_number("+12"), Ok(12));
    assert_eq!(parse_number("0012"), Ok(12));
    assert_eq!(parse_number(&usize::MAX.to_string()), Ok(usize::MAX));
}

#[test]
fn what_is_no_number() {
    assert_eq!(parse_number(""), Err(NumberError::Empty));
    for text in ["+", "-", "-1", "1 ", " 1", "12a", "a12", "1.5", "++1", "١٢", "1é"] {
        assert_eq!(parse_number(text), Err(NumberError::InvalidDigit), "{text:?}");
    }
    let too_big = format!("{}0", usize::MAX);
    assert_eq!(parse_number(&too_big), Err(NumberError::Overflow));
    let one_more = (usize::MAX as u128 + 1).to_string();
    assert_eq!(parse_number(&one_more), Err(NumberError::Overflow));
    // the first thing that goes wrong is what is reported
    assert_eq!(parse_number(&format!("{too_big}x")), Err(NumberError::Overflow));
    assert_eq!(parse_number(&format!("1x{too_big}")), Err(NumberError::InvalidDigit));
}

#[test]
fn numbers_agree_with_std() {
    for text in ["", "+", "0", "+0", "42", "-3", "4 2", "99999999999999999999999", "007"] {
        assert_eq!(parse_number(text).ok(), text.parse::<usize>().ok(), "{text:?}");
    }
}

#[test]
fn concurrency_defaults_to_three_per_processor() {
    assert_eq!(CPU_MULTIPLIER, 3);
    assert_eq!(concurrency(None, 4).unwrap(), 12);
    assert_eq!(concurrency(None, 1).unwrap(), 3);
    assert_eq!(concurrency(None, 0).unwrap(), 0);
    assert_eq!(concurrency(Some("5"), 4).unwrap(), 5);
    let error = concurrency(Some("many"), 4).unwrap_err();
    assert_eq!(error.kind(), ErrorKind::Config(NumberError::InvalidDigit));
    let error = concurrency(Some(""), 4).unwrap_err();
    assert_eq!(error.kind(), ErrorKind::Config(NumberError::Empty));
}

#[test]
fn settings() {
    let config =
        Config::from_settings(Some("json"), "folder".to_string(), "bucket".to_string(), None, 2)
            .unwrap();
    assert_eq!(
        config,
        Config {
            log_format: LogFormat::Json,
            gdrive_folder_id: "folder".to_string(),
            bucket_name: "bucket".to_string(),
            concurrency: 6,
        }
    );
    let config = Config::from_settings(None, String::new(), String::new(), Some("1"), 2).unwrap();
    assert_eq!(config.log_format, LogFormat::Text);
    assert_eq!(config.concurrency, 1);
}

#[test]
fn the_log_format_is_read_first() {
    let error = Config::from_settings(Some("xml"), String::new(), String::new(), Some("x"), 2)
        .unwrap_err();
    assert_eq!(error.kind(), ErrorKind::UnknownLogType);
    let error = Config::from_settings(Some("text"), String::new(), String::new(), Some("x"), 2)
        .unwrap_err();
    assert_eq!(error.kind(), ErrorKind::Config(NumberError::InvalidDigit));
}

#[test]
fn formats_by_media_type() {
    let all = [
        (ImageFormat::Heif, "image/heif"),
        (ImageFormat::Jpeg, "image/jpeg"),
        (ImageFormat::Png, "image/png"),
        (ImageFormat::Webp, "image/webp"),
    ];
    for (format, mime) in all {
        assert_eq!(format.as_str(), mime);
        assert_eq!(ImageFormat::from_mime(mime), Some(format));
        assert_eq!(ImageFormat::from_mime(format.as_str()), Some(format));
    }
    for mime in ["", "image/gif", "image/heic", "image/jpg", "IMAGE/PNG", "image/png ", "image"] {
        assert_eq!(ImageFormat::from_mime(mime), None);
    }
}

#[test]
fn converters_by_format() {
    let converter = ImageConverter::new();
    assert_eq!(converter.backend(ImageFormat::Heif), Backend::Heif);
    assert_eq!(converter.backend(ImageFormat::Jpeg), Backend::General);
    assert_eq!(converter.backend(ImageFormat::Png), Backend::General);
    assert_eq!(converter.backend(ImageFormat::Webp), Backend::General);
}

#[test]
fn tags_by_name() {
    assert_eq!(Tag::of("marked"), Tag::Marked);
    assert_eq!(Tag::of("unmarked"), Tag::Unmarked);
    for name in ["", "unknown", "Marked", "marked ", "other"] {
        assert_eq!(Tag::of(name), Tag::Unknown);
    }
    for tag in [Tag::Unknown, Tag::Marked, Tag::Unmarked] {
        assert_eq!(Tag::of(tag.as_str()), tag);
    }
    assert_eq!(Tag::Unknown.as_str(), "unknown");
    assert_eq!(Tag::Marked.as_str(), "marked");
    assert_eq!(Tag::Unmarked.as_str(), "unmarked");
}

#[test]
fn tags_parse_without_fail() {
    assert_eq!("marked".parse::<Tag>(), Ok(Tag::Marked));
    assert_eq!("unmarked".parse::<Tag>(), Ok(Tag::Unmarked));
    assert_eq!("anything else".parse::<Tag>(), Ok(Tag::Unknown));
    assert_eq!(Tag::from_str(""), Ok(Tag::Unknown));
}
