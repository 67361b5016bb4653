//! The failures the library reports.

use vstd::prelude::*;
use crate::fields::ExifTag;

verus! {

/// Why a number could not be read from a text.
#[derive(Debug, Copy, Clone, PartialEq, Eq, Structural)]
pub enum NumberError {
    /// The text is empty.
    Empty,
    /// A character is not a decimal digit.
    InvalidDigit,
    /// The number does not fit.
    Overflow,
}

#[derive(Debug)]
pub enum SyncError {
    /// The log format is neither `text` nor `json`.
    UnknownLogType(String),
    /// The concurrency limit is not a number.
    Config(NumberError),
    /// The remote store left out a field that every entry must have.
    MissingRequiredField(&'static str),
    /// A download was answered with a status outside 200..=299.
    BadStatusCode(u16),
    /// The picture holds no readable EXIF block.
    ExifParse(exif::Error),
    /// The EXIF block lacks a field.
    ExifMissingField(ExifTag),
    /// An EXIF field has another type or length than its tag asks for.
    ExifInvalidFieldType,
    /// An EXIF text is not UTF-8.
    ExifUtf8Parse(std::str::Utf8Error),
    /// The capture time does not follow the expected layout.
    TimeParse(chrono::ParseError),
}

/// An error without what it carries from outside.
#[derive(Debug, Copy, Clone, PartialEq, Eq, Structural)]
pub enum ErrorKind {
    UnknownLogType,
    Config(NumberError),
    MissingRequiredField,
    BadStatusCode(u16),
    ExifParse,
    ExifMissingField(ExifTag),
    ExifInvalidFieldType,
    ExifUtf8Parse,
    TimeParse,
}

impl SyncError {
    /// Which failure this is.
    pub open spec fn kind_of(self) -> ErrorKind {
        match self {
            SyncError::UnknownLogType(_) => ErrorKind::UnknownLogType,
            SyncError::Config(why) => ErrorKind::Config(why),
            SyncError::MissingRequiredField(_) => ErrorKind::MissingRequiredField,
            SyncError::BadStatusCode(status) => ErrorKind::BadStatusCode(status),
            SyncError::ExifParse(_) => ErrorKind::ExifParse,
            SyncError::ExifMissingField(tag) => ErrorKind::ExifMissingField(tag),
            SyncError::ExifInvalidFieldType => ErrorKind::ExifInvalidFieldType,
            SyncError::ExifUtf8Parse(_) => ErrorKind::ExifUtf8Parse,
            SyncError::TimeParse(_) => ErrorKind::TimeParse,
        }
    }

    pub fn kind(&self) -> (r: ErrorKind)
        ensures
            r == self.kind_of(),
    {
        match self {
            SyncError::UnknownLogType(_) => ErrorKind::UnknownLogType,
            SyncError::Config(why) => ErrorKind::Config(*why),
            SyncError::MissingRequiredField(_) => ErrorKind::MissingRequiredField,
            SyncError::BadStatusCode(status) => ErrorKind::BadStatusCode(*status),
            SyncError::ExifParse(_) => ErrorKind::ExifParse,
            SyncError::ExifMissingField(tag) => ErrorKind::ExifMissingField(*tag),
            SyncError::ExifInvalidFieldType => ErrorKind::ExifInvalidFieldType,
            SyncError::ExifUtf8Parse(_) => ErrorKind::ExifUtf8Parse,
            SyncError::TimeParse(_) => ErrorKind::TimeParse,
        }
    }
}

/// A result with the error reduced to its kind.
pub open spec fn outcome<T>(r: Result<T, SyncError>) -> Result<T, ErrorKind> {
    match r {
        Ok(value) => Ok(value),
        Err(error) => Err(error.kind_of()),
    }
}

} // verus!
