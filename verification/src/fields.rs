//! The EXIF block of a picture as the reader of the `exif` crate hands it
//! out. What this file states of that crate is taken on trust.

use vstd::prelude::*;

verus! {

/// The EXIF fields of the primary image that the library reads.
#[derive(Debug, Copy, Clone, PartialEq, Eq, Structural)]
pub enum ExifTag {
    GpsLatitude,
    GpsLatitudeRef,
    GpsLongitude,
    GpsLongitudeRef,
    DateTimeOriginal,
    OffsetTimeOriginal,
}

/// An unsigned fraction as EXIF stores it.
#[derive(Debug, Copy, Clone, PartialEq, Eq, Structural)]
pub struct Rational {
    pub num: u32,
    pub denom: u32,
}

/// The value of a field, as far as the library reads it.
#[derive(Debug, Clone, PartialEq, Eq)]
pub enum FieldValue {
    /// Unsigned fractions.
    Rational(Vec<Rational>),
    /// Texts, each without its closing zero byte.
    Ascii(Vec<Vec<u8>>),
    /// A value of any other type.
    Other,
}

/// The value of a field as plain values.
pub enum FieldContent {
    Rational(Seq<Rational>),
    Ascii(Seq<Seq<u8>>),
    Other,
}

impl View for FieldValue {
    type V = FieldContent;

    open spec fn view(&self) -> FieldContent {
        match self {
            FieldValue::Rational(values) => FieldContent::Rational(values@),
            FieldValue::Ascii(texts) => FieldContent::Ascii(texts@.map_values(|t: Vec<u8>| t@)),
            FieldValue::Other => FieldContent::Other,
        }
    }
}

/// The parsed EXIF block of the `exif` crate.
#[verifier::external_type_specification]
#[verifier::external_body]
pub struct ExExif(exif::Exif);

/// The fields of the primary image that a parsed block holds, among those
/// the library reads, each under its tag.
pub uninterp spec fn exif_fields(block: exif::Exif) -> Map<ExifTag, FieldContent>;

/// What `read_from_container` of `exif::Reader` finds in the bytes of a
/// picture: the fields of its EXIF block, or nothing where the reader
/// gives an error.
pub uninterp spec fn exif_of(data: Seq<u8>) -> Option<Map<ExifTag, FieldContent>>;

/// The field under `tag`, if there is one.
pub open spec fn field_of(fields: Map<ExifTag, FieldContent>, tag: ExifTag) -> Option<
    FieldContent,
> {
    if fields.contains_key(tag) {
        Some(fields[tag])
    } else {
        None
    }
}

/// Calls `read_from_container` of a new `exif::Reader` on the bytes. What
/// it returns is taken to depend on the bytes alone.
#[verifier::external_body]
pub(crate) fn read_exif(data: &[u8]) -> (r: Result<exif::Exif, exif::Error>)
    ensures
        r is Ok <==> exif_of(data@) is Some,
        r matches Ok(block) ==> exif_of(data@) == Some(exif_fields(block)),
{
    exif::Reader::new().read_from_container(&mut std::io::Cursor::new(data))
}

/// Calls `get_field` of `exif::Exif` for the primary image and copies the
/// value out: fractions and texts as they are, any other type as `Other`.
#[verifier::external_body]
pub(crate) fn primary_field(block: &exif::Exif, tag: ExifTag) -> (r: Option<FieldValue>)
    ensures
        r is Some <==> exif_fields(*block).contains_key(tag),
        r matches Some(value) ==> exif_fields(*block)[tag] == value@,
{
    let tag = match tag {
        ExifTag::GpsLatitude => exif::Tag::GPSLatitude,
        ExifTag::GpsLatitudeRef => exif::Tag::GPSLatitudeRef,
        ExifTag::GpsLongitude => exif::Tag::GPSLongitude,
        ExifTag::GpsLongitudeRef => exif::Tag::GPSLongitudeRef,
        ExifTag::DateTimeOriginal => exif::Tag::DateTimeOriginal,
        ExifTag::OffsetTimeOriginal => exif::Tag::OffsetTimeOriginal,
    };
    Some(match &block.get_field(tag, exif::In::PRIMARY)?.value {
        exif::Value::Rational(v) => FieldValue::Rational(
            v.iter().map(|r| Rational { num: r.num, denom: r.denom }).collect(),
        ),
        exif::Value::Ascii(v) => FieldValue::Ascii(v.clone()),
        _ => FieldValue::Other,
    })
}

} // verus!
