//! Types of outside crates that values of this library carry.

use vstd::prelude::*;

verus! {

/// The error of the EXIF reader, carried through unread.
#[verifier::external_type_specification]
#[verifier::external_body]
pub struct ExExifError(exif::Error);

/// The error of the date parser, carried through unread.
#[verifier::external_type_specification]
#[verifier::external_body]
pub struct ExTimeParseError(chrono::ParseError);

/// The error of the UTF-8 check, carried through unread.
#[verifier::external_type_specification]
#[verifier::external_body]
pub struct ExUtf8Error(std::str::Utf8Error);

} // verus!
