//! The moment a picture was taken, with the offset from UTC that the
//! camera recorded. Reading and writing its text is left to `chrono`.

use chrono::{Datelike, Timelike};
use vstd::prelude::*;
use crate::error::{outcome, ErrorKind, SyncError};

verus! {

/// The layout of a capture time: `year:month:day hour:minute:second`, a
/// blank, and the offset as signed `hour:minute`.
pub const CAPTURE_FORMAT: &'static str = "%Y:%m:%d %H:%M:%S %:z";

/// A local date and time together with its offset from UTC, as recorded.
#[derive(Debug, Copy, Clone, PartialEq, Eq, Structural)]
pub struct Timestamp {
    pub year: i32,
    pub month: u32,
    pub day: u32,
    pub hour: u32,
    pub minute: u32,
    pub second: u32,
    /// Beyond 999 999 999 within a leap second.
    pub nanosecond: u32,
    /// Seconds east of UTC.
    pub offset_seconds: i32,
}

/// What `chrono` reads from `text` under the layout `format`: the local
/// date and time and the offset, or nothing where the text does not fit.
pub uninterp spec fn chrono_parse(text: Seq<char>, format: Seq<char>) -> Option<Timestamp>;

/// Calls `chrono::DateTime::parse_from_str` and copies the fields of the
/// local date and time and the offset out of what it returns. The result
/// is taken to depend on the two texts alone.
#[verifier::external_body]
fn parse_fixed_offset(text: &str, format: &str) -> (r: Result<Timestamp, chrono::ParseError>)
    ensures
        r is Ok <==> chrono_parse(text@, format@) is Some,
        r matches Ok(at) ==> chrono_parse(text@, format@) == Some(at),
{
    let at = chrono::DateTime::parse_from_str(text, format)?;
    Ok(Timestamp {
        year: at.year(),
        month: at.month(),
        day: at.day(),
        hour: at.hour(),
        minute: at.minute(),
        second: at.second(),
        nanosecond: at.nanosecond(),
        offset_seconds: at.offset().local_minus_utc(),
    })
}

/// The RFC 3339 text that `chrono` writes for the moment, or nothing
/// where `chrono` knows no such date, time or offset.
pub uninterp spec fn chrono_rfc3339(at: Timestamp) -> Option<Seq<char>>;

/// Builds the `chrono::DateTime` with these fields and calls its
/// `to_rfc3339`. The text is taken to depend on the fields alone.
#[verifier::external_body]
fn format_rfc3339(at: &Timestamp) -> (r: Option<String>)
    ensures
        r is Some <==> chrono_rfc3339(*at) is Some,
        r matches Some(text) ==> chrono_rfc3339(*at) == Some(text@),
{
    let offset = chrono::FixedOffset::east_opt(at.offset_seconds)?;
    let date = chrono::NaiveDate::from_ymd_opt(at.year, at.month, at.day)?;
    let local = date.and_hms_nano_opt(at.hour, at.minute, at.second, at.nanosecond)?;
    Some(local.and_local_timezone(offset).single()?.to_rfc3339())
}

impl Timestamp {
    /// The capture time that `text` holds, if it follows the layout.
    pub open spec fn parsed(text: Seq<char>) -> Result<Timestamp, ErrorKind> {
        match chrono_parse(text, CAPTURE_FORMAT@) {
            Some(at) => Ok(at),
            None => Err(ErrorKind::TimeParse),
        }
    }

    /// Reads a capture time.
    pub fn parse(text: &str) -> (r: Result<Timestamp, SyncError>)
        ensures
            outcome(r) == Timestamp::parsed(text@),
    {
        match parse_fixed_offset(text, CAPTURE_FORMAT) {
            Ok(at) => Ok(at),
            Err(error) => Err(SyncError::TimeParse(error)),
        }
    }

    /// The moment as RFC 3339 text, with the offset it was recorded with.
    pub fn to_rfc3339(&self) -> (r: Option<String>)
        ensures
            r is Some <==> chrono_rfc3339(*self) is Some,
            r matches Some(text) ==> chrono_rfc3339(*self) == Some(text@),
    {
        format_rfc3339(self)
    }
}

} // verus!
