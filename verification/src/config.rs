//! The settings of a run, read from the texts the environment gives.

use vstd::prelude::*;
use vstd::string::{StrSliceExecFns, StringExecFns};
use crate::error::{NumberError, SyncError};
use crate::text::{opt_str, str_eq};

verus! {

/// Pictures under way at once for each processor, where no limit is set.
pub const CPU_MULTIPLIER: usize = 3;

/// How the log is written.
#[derive(Debug, Copy, Clone, PartialEq, Eq, Structural)]
pub enum LogFormat {
    Text,
    Json,
}

impl Default for LogFormat {
    fn default() -> (r: LogFormat)
        ensures
            r == LogFormat::Text,
    {
        LogFormat::Text
    }
}

impl LogFormat {
    /// The name of the format.
    pub open spec fn name(self) -> Seq<char> {
        match self {
            LogFormat::Text => "text"@,
            LogFormat::Json => "json"@,
        }
    }

    /// The format that a setting names; `Text` where nothing is set.
    pub open spec fn of_setting(value: Option<Seq<char>>) -> Option<LogFormat> {
        match value {
            None => Some(LogFormat::Text),
            Some(name) => if name == "text"@ {
                Some(LogFormat::Text)
            } else if name == "json"@ {
                Some(LogFormat::Json)
            } else {
                None
            },
        }
    }

    pub fn as_str(&self) -> (r: &'static str)
        ensures
            r@ == self.name(),
    {
        match self {
            LogFormat::Text => "text",
            LogFormat::Json => "json",
        }
    }

    /// Reads the format from its setting. A name that is no format's is
    /// handed back in the error.
    pub fn from_setting(value: Option<&str>) -> (r: Result<LogFormat, SyncError>)
        ensures
            r is Ok <==> LogFormat::of_setting(opt_str(value)) is Some,
            r matches Ok(format) ==> LogFormat::of_setting(opt_str(value)) == Some(format),
            r matches Err(error) ==> (error matches SyncError::UnknownLogType(given) && Some(given@)
                == opt_str(value)),
    {
        match value {
            None => Ok(LogFormat::Text),
            Some(name) => if str_eq(name, "text") {
                Ok(LogFormat::Text)
            } else if str_eq(name, "json") {
                Ok(LogFormat::Json)
            } else {
                Err(SyncError::UnknownLogType(String::from_str(name)))
            },
        }
    }
}

/// Whether the character is one of `0` to `9`.
pub open spec fn is_digit(c: char) -> bool {
    '0' <= c <= '9'
}

/// The number that decimal digits write, read from the left. The first
/// character that is no digit, or the first digit with which the number
/// outgrows a `usize`, ends the reading with its error.
pub open spec fn digits_value(digits: Seq<char>) -> Result<nat, NumberError>
    decreases digits.len(),
{
    if digits.len() == 0 {
        Ok(0)
    } else {
        match digits_value(digits.drop_last()) {
            Err(why) => Err(why),
            Ok(before) => if !is_digit(digits.last()) {
                Err(NumberError::InvalidDigit)
            } else if before * 10 + (digits.last() as nat - '0' as nat) > usize::MAX {
                Err(NumberError::Overflow)
            } else {
                Ok((before * 10 + (digits.last() as nat - '0' as nat)) as nat)
            },
        }
    }
}

/// The number that a text writes: decimal digits, at least one, with or
/// without a `+` in front.
pub open spec fn number_of(text: Seq<char>) -> Result<nat, NumberError> {
    if text.len() == 0 {
        Err(NumberError::Empty)
    } else {
        let digits = if text[0] == '+' {
            text.drop_first()
        } else {
            text
        };
        if digits.len() == 0 {
            Err(NumberError::InvalidDigit)
        } else {
            digits_value(digits)
        }
    }
}

/// Reads a number. The text is gone through character by character,
/// each found by its place; settings are a few characters long.
pub fn parse_number(text: &str) -> (r: Result<usize, NumberError>)
    ensures
        r is Ok <==> number_of(text@) is Ok,
        r matches Ok(value) ==> number_of(text@) == Ok::<nat, NumberError>(value as nat),
        r matches Err(why) ==> number_of(text@) == Err::<nat, NumberError>(why),
{
    let len = text.unicode_len();
    if len == 0 {
        return Err(NumberError::Empty);
    }
    let start: usize = if text.get_char(0) == '+' {
        1
    } else {
        0
    };
    let ghost digits = if text@[0] == '+' {
        text@.drop_first()
    } else {
        text@
    };
    assert(digits =~= text@.subrange(start as int, text@.len() as int));
    if start == len {
        return Err(NumberError::InvalidDigit);
    }
    let mut value: usize = 0;
    let mut i: usize = start;
    assert(digits.take(0) =~= Seq::<char>::empty());
    while i < len
        invariant
            start <= i <= len,
            len == text@.len(),
            digits == text@.subrange(start as int, text@.len() as int),
            number_of(text@) == digits_value(digits),
            digits_value(digits.take(i - start)) == Ok::<nat, NumberError>(value as nat),
        decreases len - i,
    {
        let code = text.get_char(i) as u32;
        proof {
            let upto = digits.take(i - start + 1);
            assert(upto.drop_last() =~= digits.take(i - start));
            assert(upto.last() == text@[i as int]);
        }
        if code < 48 || code > 57 {
            proof {
                lemma_error_stays(digits, i - start + 1);
            }
            return Err(NumberError::InvalidDigit);
        }
        let digit = (code - 48) as usize;
        if value > (usize::MAX - digit) / 10 {
            proof {
                lemma_error_stays(digits, i - start + 1);
            }
            return Err(NumberError::Overflow);
        }
        value = value * 10 + digit;
        i += 1;
    }
    assert(digits.take(i - start) =~= digits);
    Ok(value)
}

/// Once the reading has ended with an error, more characters do not
/// change it.
proof fn lemma_error_stays(digits: Seq<char>, upto: int)
    requires
        0 <= upto <= digits.len(),
        digits_value(digits.take(upto)) is Err,
    ensures
        digits_value(digits) == digits_value(digits.take(upto)),
    decreases digits.len() - upto,
{
    if upto < digits.len() {
        assert(digits.take(upto + 1).drop_last() =~= digits.take(upto));
        lemma_error_stays(digits, upto + 1);
    } else {
        assert(digits.take(upto) =~= digits);
    }
}

/// The settings of a run.
#[derive(Debug, Clone, PartialEq, Eq)]
pub struct Config {
    pub log_format: LogFormat,
    /// The folder the crawl starts from.
    pub gdrive_folder_id: String,
    /// The bucket that takes the renditions and the final document.
    pub bucket_name: String,
    /// The most pictures under way at once.
    pub concurrency: usize,
}

/// The limit that a setting gives; where nothing is set, three pictures
/// for each processor.
pub open spec fn concurrency_of(value: Option<Seq<char>>, cpus: usize) -> Result<
    nat,
    NumberError,
> {
    match value {
        None => Ok((cpus * CPU_MULTIPLIER) as nat),
        Some(text) => number_of(text),
    }
}

/// Reads the limit of pictures under way at once.
pub fn concurrency(value: Option<&str>, cpus: usize) -> (r: Result<usize, SyncError>)
    requires
        cpus * CPU_MULTIPLIER <= usize::MAX,
    ensures
        r is Ok <==> concurrency_of(opt_str(value), cpus) is Ok,
        r matches Ok(limit) ==> concurrency_of(opt_str(value), cpus) == Ok::<nat, NumberError>(
            limit as nat,
        ),
        r matches Err(error) ==> (error matches SyncError::Config(why) && concurrency_of(
            opt_str(value),
            cpus,
        ) == Err::<nat, NumberError>(why)),
{
    match value {
        None => Ok(cpus * CPU_MULTIPLIER),
        Some(text) => match parse_number(text) {
            Ok(limit) => Ok(limit),
            Err(why) => Err(SyncError::Config(why)),
        },
    }
}

impl Config {
    /// Puts the settings together. The log format is read first, the
    /// limit last, and the first text that cannot be read is the error.
    pub fn from_settings(
        log_format: Option<&str>,
        gdrive_folder_id: String,
        bucket_name: String,
        limit: Option<&str>,
        cpus: usize,
    ) -> (r: Result<Config, SyncError>)
        requires
            cpus * CPU_MULTIPLIER <= usize::MAX,
        ensures
            r is Ok <==> LogFormat::of_setting(opt_str(log_format)) is Some && concurrency_of(
                opt_str(limit),
                cpus,
            ) is Ok,
            r matches Ok(config) ==> {
                &&& Some(config.log_format) == LogFormat::of_setting(opt_str(log_format))
                &&& config.gdrive_folder_id == gdrive_folder_id
                &&& config.bucket_name == bucket_name
                &&& concurrency_of(opt_str(limit), cpus) == Ok::<nat, NumberError>(
                    config.concurrency as nat,
                )
            },
            r matches Err(error) ==> {
                if LogFormat::of_setting(opt_str(log_format)) is None {
                    error matches SyncError::UnknownLogType(given) && Some(given@) == opt_str(
                        log_format,
                    )
                } else {
                    error matches SyncError::Config(why) && concurrency_of(opt_str(limit), cpus)
                        == Err::<nat, NumberError>(why)
                }
            },
    {
        let log_format = match LogFormat::from_setting(log_format) {
            Ok(format) => format,
            Err(error) => { return Err(error); },
        };
        let concurrency = match concurrency(limit, cpus) {
            Ok(limit) => limit,
            Err(error) => { return Err(error); },
        };
        Ok(Config { log_format, gdrive_folder_id, bucket_name, concurrency })
    }
}

} // verus!
