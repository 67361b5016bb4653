//! Where and when a picture was taken, read from its EXIF block.

use vstd::prelude::*;
use vstd::string::StringExecFns;
use vstd::utf8::{decode_utf8, valid_utf8};
use crate::error::{outcome, ErrorKind, SyncError};
use crate::fields::{
    exif_fields,
    exif_of,
    field_of,
    primary_field,
    read_exif,
    ExifTag,
    FieldContent,
    FieldValue,
    Rational,
};
use crate::image_source::{Image, ImageView};
use crate::text::{str_eq, utf8_text};
use crate::timestamp::{chrono_rfc3339, Timestamp};

verus! {

/// An angle in degrees, minutes and seconds, with its hemisphere.
#[derive(Debug, Copy, Clone, PartialEq, Eq, Structural)]
pub struct Coordinate {
    pub degrees: Rational,
    pub minutes: Rational,
    pub seconds: Rational,
    /// South of the equator or west of Greenwich.
    pub negative: bool,
}

/// A place on the globe.
#[derive(Debug, Copy, Clone, PartialEq, Eq, Structural)]
pub struct Location {
    pub lat: Coordinate,
    pub lon: Coordinate,
}

/// What the EXIF block of one picture tells.
#[derive(Debug, Copy, Clone, PartialEq, Eq, Structural)]
pub struct Metadata {
    pub location: Location,
    pub timestamp: Timestamp,
}

/// A picture together with where and when it was taken.
#[derive(Debug, Clone, PartialEq, Eq)]
pub struct Tree {
    pub image: Image,
    pub location: Location,
    pub timestamp: Timestamp,
}

/// A record as plain values.
pub struct TreeView {
    pub image: ImageView,
    pub location: Location,
    pub timestamp: Timestamp,
}

impl View for Tree {
    type V = TreeView;

    open spec fn view(&self) -> TreeView {
        TreeView { image: self.image@, location: self.location, timestamp: self.timestamp }
    }
}

/// A value as a fraction of whole numbers, with its sign apart.
#[derive(Debug, Copy, Clone, PartialEq, Eq, Structural)]
pub struct Fraction {
    pub negative: bool,
    pub numer: u128,
    pub denom: u128,
}

impl Coordinate {
    /// Whether each of the three fractions has a value.
    pub open spec fn is_valid(self) -> bool {
        self.degrees.denom != 0 && self.minutes.denom != 0 && self.seconds.denom != 0
    }

    /// The common denominator under which degrees, minutes and seconds add
    /// up.
    pub open spec fn scale(self) -> int {
        3600 * (self.degrees.denom * self.minutes.denom * self.seconds.denom)
    }

    /// The size of the angle in degrees, times `scale()`.
    pub open spec fn scaled_degrees(self) -> int {
        3600 * (self.degrees.num * self.minutes.denom * self.seconds.denom) + 60 * (
        self.minutes.num * self.degrees.denom * self.seconds.denom) + self.seconds.num
            * self.degrees.denom * self.minutes.denom
    }

    /// The angle in degrees is degrees + minutes / 60 + seconds / 3600:
    /// `scaled_degrees()` over `scale()` is that sum, each fraction brought
    /// to the common denominator, which each of them divides.
    pub proof fn lemma_decimal_degrees(self)
        requires
            self.is_valid(),
        ensures
            self.scale() > 0,
            self.scale() == self.degrees.denom * (3600 * (self.minutes.denom
                * self.seconds.denom)),
            self.scale() == (60 * self.minutes.denom) * (60 * (self.degrees.denom
                * self.seconds.denom)),
            self.scale() == (3600 * self.seconds.denom) * (self.degrees.denom
                * self.minutes.denom),
            self.scaled_degrees() == self.degrees.num * (3600 * (self.minutes.denom
                * self.seconds.denom)) + self.minutes.num * (60 * (self.degrees.denom
                * self.seconds.denom)) + self.seconds.num * (self.degrees.denom
                * self.minutes.denom),
    {
        let dn = self.degrees.num as int;
        let dd = self.degrees.denom as int;
        let mn = self.minutes.num as int;
        let md = self.minutes.denom as int;
        let sn = self.seconds.num as int;
        let sd = self.seconds.denom as int;
        assert(dd * md * sd > 0) by (nonlinear_arith)
            requires
                dd > 0,
                md > 0,
                sd > 0,
        ;
        assert(3600 * (dd * md * sd) == dd * (3600 * (md * sd))) by (nonlinear_arith);
        assert(3600 * (dd * md * sd) == (60 * md) * (60 * (dd * sd))) by (nonlinear_arith);
        assert(3600 * (dd * md * sd) == (3600 * sd) * (dd * md)) by (nonlinear_arith);
        assert(3600 * (dn * md * sd) == dn * (3600 * (md * sd))) by (nonlinear_arith);
        assert(60 * (mn * dd * sd) == mn * (60 * (dd * sd))) by (nonlinear_arith);
        assert(sn * dd * md == sn * (dd * md)) by (nonlinear_arith);
    }

    /// The angle in degrees as one fraction, exactly; nothing where one
    /// of the three fractions has the denominator zero.
    pub fn decimal(&self) -> (r: Option<Fraction>)
        ensures
            r is Some <==> self.is_valid(),
            r matches Some(value) ==> value.negative == self.negative && value.numer
                == self.scaled_degrees() && value.denom == self.scale(),
    {
        if self.degrees.denom == 0 || self.minutes.denom == 0 || self.seconds.denom == 0 {
            return None;
        }
        let dn = self.degrees.num as u128;
        let dd = self.degrees.denom as u128;
        let mn = self.minutes.num as u128;
        let md = self.minutes.denom as u128;
        let sn = self.seconds.num as u128;
        let sd = self.seconds.denom as u128;
        proof {
            lemma_product_bound(dd as int, md as int, sd as int);
            lemma_product_bound(dn as int, md as int, sd as int);
            lemma_product_bound(mn as int, dd as int, sd as int);
            lemma_product_bound(sn as int, dd as int, md as int);
        }
        let denom = 3600 * (dd * md * sd);
        let numer = 3600 * (dn * md * sd) + 60 * (mn * dd * sd) + sn * dd * md;
        Some(Fraction { negative: self.negative, numer, denom })
    }
}

/// The product of three 32-bit numbers stays below 2^96.
proof fn lemma_product_bound(a: int, b: int, c: int)
    requires
        0 <= a <= 0xffff_ffff,
        0 <= b <= 0xffff_ffff,
        0 <= c <= 0xffff_ffff,
    ensures
        0 <= a * b <= 0xffff_fffe_0000_0001,
        0 <= a * b * c <= 0xffff_fffd_0000_0002_ffff_ffff,
{
    assert(0 <= a * b <= 0xffff_ffff * 0xffff_ffff) by (nonlinear_arith)
        requires
            0 <= a <= 0xffff_ffff,
            0 <= b <= 0xffff_ffff,
    ;
    let ab = a * b;
    assert(0 <= ab * c <= 0xffff_fffe_0000_0001 * 0xffff_ffff) by (nonlinear_arith)
        requires
            0 <= ab <= 0xffff_fffe_0000_0001,
            0 <= c <= 0xffff_ffff,
    ;
}

impl Location {
    /// The point in the order in which maps take it: longitude first.
    pub fn position(&self) -> (r: (Coordinate, Coordinate))
        ensures
            r == (self.lon, self.lat),
    {
        (self.lon, self.lat)
    }
}

/// A field that may be missing, as plain values.
pub open spec fn field_view(field: Option<&FieldValue>) -> Option<FieldContent> {
    match field {
        Some(value) => Some(value@),
        None => None,
    }
}

/// Whether the letter of a hemisphere names the south or the west.
pub open spec fn is_south_or_west(letter: Seq<char>) -> bool {
    letter == "S"@ || letter == "W"@
}

/// The angle that the fields under `tag` and `tag_ref` hold: the first
/// must be exactly three fractions, for degrees, minutes and seconds, the
/// second a text, the letter of the hemisphere.
pub open spec fn coordinate_of(
    field: Option<FieldContent>,
    field_ref: Option<FieldContent>,
    tag: ExifTag,
    tag_ref: ExifTag,
) -> Result<Coordinate, ErrorKind> {
    match (field, field_ref) {
        (None, _) => Err(ErrorKind::ExifMissingField(tag)),
        (Some(_), None) => Err(ErrorKind::ExifMissingField(tag_ref)),
        (Some(FieldContent::Rational(parts)), Some(FieldContent::Ascii(texts))) => {
            if texts.len() == 0 {
                Err(ErrorKind::ExifInvalidFieldType)
            } else if !valid_utf8(texts[0]) {
                Err(ErrorKind::ExifUtf8Parse)
            } else if parts.len() != 3 {
                Err(ErrorKind::ExifInvalidFieldType)
            } else {
                Ok(
                    Coordinate {
                        degrees: parts[0],
                        minutes: parts[1],
                        seconds: parts[2],
                        negative: is_south_or_west(decode_utf8(texts[0])),
                    },
                )
            }
        },
        _ => Err(ErrorKind::ExifInvalidFieldType),
    }
}

/// For three fractions with values and the letter of a hemisphere, the
/// angle read is degrees + minutes / 60 + seconds / 3600, counted
/// negative south of the equator and west of Greenwich and positive
/// north and east.
pub proof fn lemma_gps_decimal_degrees(
    parts: Seq<Rational>,
    letter: Seq<u8>,
    tag: ExifTag,
    tag_ref: ExifTag,
)
    requires
        parts.len() == 3,
        parts[0].denom != 0 && parts[1].denom != 0 && parts[2].denom != 0,
        valid_utf8(letter),
        decode_utf8(letter) == "N"@ || decode_utf8(letter) == "S"@ || decode_utf8(letter) == "E"@
            || decode_utf8(letter) == "W"@,
    ensures
        coordinate_of(
            Some(FieldContent::Rational(parts)),
            Some(FieldContent::Ascii(seq![letter])),
            tag,
            tag_ref,
        ) matches Ok(angle) && {
            &&& angle.is_valid()
            &&& angle.negative <==> decode_utf8(letter) == "S"@ || decode_utf8(letter) == "W"@
            &&& !angle.negative <==> decode_utf8(letter) == "N"@ || decode_utf8(letter) == "E"@
            &&& angle.scale() > 0
            &&& angle.scale() == parts[0].denom * (3600 * (parts[1].denom * parts[2].denom))
            &&& angle.scale() == (60 * parts[1].denom) * (60 * (parts[0].denom * parts[2].denom))
            &&& angle.scale() == (3600 * parts[2].denom) * (parts[0].denom * parts[1].denom)
            &&& angle.scaled_degrees() == parts[0].num * (3600 * (parts[1].denom
                * parts[2].denom)) + parts[1].num * (60 * (parts[0].denom * parts[2].denom))
                + parts[2].num * (parts[0].denom * parts[1].denom)
        },
{
    reveal_strlit("N");
    reveal_strlit("S");
    reveal_strlit("E");
    reveal_strlit("W");
    assert("N"@[0] == 'N' && "S"@[0] == 'S' && "E"@[0] == 'E' && "W"@[0] == 'W');
    let angle = Coordinate {
        degrees: parts[0],
        minutes: parts[1],
        seconds: parts[2],
        negative: is_south_or_west(decode_utf8(letter)),
    };
    angle.lemma_decimal_degrees();
}

/// Reads one angle from its two fields.
pub fn gps_coordinate(
    field: Option<&FieldValue>,
    field_ref: Option<&FieldValue>,
    tag: ExifTag,
    tag_ref: ExifTag,
) -> (r: Result<Coordinate, SyncError>)
    ensures
        outcome(r) == coordinate_of(field_view(field), field_view(field_ref), tag, tag_ref),
{
    let field = match field {
        Some(field) => field,
        None => { return Err(SyncError::ExifMissingField(tag)); },
    };
    let field_ref = match field_ref {
        Some(field_ref) => field_ref,
        None => { return Err(SyncError::ExifMissingField(tag_ref)); },
    };
    let parts = match field {
        FieldValue::Rational(parts) => parts,
        _ => { return Err(SyncError::ExifInvalidFieldType); },
    };
    let texts = match field_ref {
        FieldValue::Ascii(texts) => texts,
        _ => { return Err(SyncError::ExifInvalidFieldType); },
    };
    if texts.len() == 0 {
        return Err(SyncError::ExifInvalidFieldType);
    }
    let letter = match utf8_text(texts[0].as_slice()) {
        Ok(letter) => letter,
        Err(error) => { return Err(SyncError::ExifUtf8Parse(error)); },
    };
    let negative = str_eq(letter, "S") || str_eq(letter, "W");
    if parts.len() != 3 {
        return Err(SyncError::ExifInvalidFieldType);
    }
    Ok(Coordinate { degrees: parts[0], minutes: parts[1], seconds: parts[2], negative })
}

/// The text of a capture time: what the field of the date and time holds,
/// a blank, and what the field of the offset holds.
pub open spec fn capture_text_of(
    datetime: Option<FieldContent>,
    offset: Option<FieldContent>,
) -> Result<Seq<char>, ErrorKind> {
    match (datetime, offset) {
        (None, _) => Err(ErrorKind::ExifMissingField(ExifTag::DateTimeOriginal)),
        (Some(_), None) => Err(ErrorKind::ExifMissingField(ExifTag::OffsetTimeOriginal)),
        (Some(FieldContent::Ascii(dates)), Some(FieldContent::Ascii(offsets))) => {
            if dates.len() == 0 {
                Err(ErrorKind::ExifInvalidFieldType)
            } else if !valid_utf8(dates[0]) {
                Err(ErrorKind::ExifUtf8Parse)
            } else if offsets.len() == 0 {
                Err(ErrorKind::ExifInvalidFieldType)
            } else if !valid_utf8(offsets[0]) {
                Err(ErrorKind::ExifUtf8Parse)
            } else {
                Ok(decode_utf8(dates[0]).push(' ') + decode_utf8(offsets[0]))
            }
        },
        _ => Err(ErrorKind::ExifInvalidFieldType),
    }
}

/// Puts the text of a capture time together from its two fields.
pub fn capture_text(datetime: Option<&FieldValue>, offset: Option<&FieldValue>) -> (r: Result<
    String,
    SyncError,
>)
    ensures
        r is Ok <==> capture_text_of(field_view(datetime), field_view(offset)) is Ok,
        r matches Ok(text) ==> capture_text_of(field_view(datetime), field_view(offset)) == Ok::<
            Seq<char>,
            ErrorKind,
        >(text@),
        r matches Err(error) ==> capture_text_of(field_view(datetime), field_view(offset))
            == Err::<Seq<char>, ErrorKind>(error.kind_of()),
{
    let datetime = match datetime {
        Some(field) => field,
        None => { return Err(SyncError::ExifMissingField(ExifTag::DateTimeOriginal)); },
    };
    let offset = match offset {
        Some(field) => field,
        None => { return Err(SyncError::ExifMissingField(ExifTag::OffsetTimeOriginal)); },
    };
    let dates = match datetime {
        FieldValue::Ascii(texts) => texts,
        _ => { return Err(SyncError::ExifInvalidFieldType); },
    };
    let offsets = match offset {
        FieldValue::Ascii(texts) => texts,
        _ => { return Err(SyncError::ExifInvalidFieldType); },
    };
    if dates.len() == 0 {
        return Err(SyncError::ExifInvalidFieldType);
    }
    let date = match utf8_text(dates[0].as_slice()) {
        Ok(text) => text,
        Err(error) => { return Err(SyncError::ExifUtf8Parse(error)); },
    };
    if offsets.len() == 0 {
        return Err(SyncError::ExifInvalidFieldType);
    }
    let zone = match utf8_text(offsets[0].as_slice()) {
        Ok(text) => text,
        Err(error) => { return Err(SyncError::ExifUtf8Parse(error)); },
    };
    let mut text = String::from_str(date);
    text.append(" ");
    text.append(zone);
    proof {
        reveal_strlit(" ");
        assert(" "@ =~= seq![' ']);
        assert(text@ =~= date@.push(' ') + zone@);
    }
    Ok(text)
}

/// The capture time that the two fields hold.
pub open spec fn timestamp_of(
    datetime: Option<FieldContent>,
    offset: Option<FieldContent>,
) -> Result<Timestamp, ErrorKind> {
    match capture_text_of(datetime, offset) {
        Ok(text) => Timestamp::parsed(text),
        Err(kind) => Err(kind),
    }
}

/// Reads the capture time from its two fields.
pub fn capture_time(datetime: Option<&FieldValue>, offset: Option<&FieldValue>) -> (r: Result<
    Timestamp,
    SyncError,
>)
    ensures
        outcome(r) == timestamp_of(field_view(datetime), field_view(offset)),
{
    match capture_text(datetime, offset) {
        Ok(text) => Timestamp::parse(text.as_str()),
        Err(error) => Err(error),
    }
}

/// The place that the four GPS fields hold: the latitude, then the
/// longitude.
pub open spec fn location_of(fields: Map<ExifTag, FieldContent>) -> Result<Location, ErrorKind> {
    match coordinate_of(
        field_of(fields, ExifTag::GpsLatitude),
        field_of(fields, ExifTag::GpsLatitudeRef),
        ExifTag::GpsLatitude,
        ExifTag::GpsLatitudeRef,
    ) {
        Err(kind) => Err(kind),
        Ok(lat) => match coordinate_of(
            field_of(fields, ExifTag::GpsLongitude),
            field_of(fields, ExifTag::GpsLongitudeRef),
            ExifTag::GpsLongitude,
            ExifTag::GpsLongitudeRef,
        ) {
            Err(kind) => Err(kind),
            Ok(lon) => Ok(Location { lat, lon }),
        },
    }
}

/// What the fields of an EXIF block tell: the capture time is read first,
/// then the place, and the first failure is the one reported.
pub open spec fn metadata_of(fields: Map<ExifTag, FieldContent>) -> Result<Metadata, ErrorKind> {
    match timestamp_of(
        field_of(fields, ExifTag::DateTimeOriginal),
        field_of(fields, ExifTag::OffsetTimeOriginal),
    ) {
        Err(kind) => Err(kind),
        Ok(timestamp) => match location_of(fields) {
            Err(kind) => Err(kind),
            Ok(location) => Ok(Metadata { location, timestamp }),
        },
    }
}

/// What the bytes of a picture tell. Nothing is guessed: a picture
/// without a readable block, or without one of the fields, fails.
pub open spec fn extracted(data: Seq<u8>) -> Result<Metadata, ErrorKind> {
    match exif_of(data) {
        Some(fields) => metadata_of(fields),
        None => Err(ErrorKind::ExifParse),
    }
}

fn get_gps(block: &exif::Exif, tag: ExifTag, tag_ref: ExifTag) -> (r: Result<Coordinate, SyncError>)
    ensures
        outcome(r) == coordinate_of(
            field_of(exif_fields(*block), tag),
            field_of(exif_fields(*block), tag_ref),
            tag,
            tag_ref,
        ),
{
    let field = primary_field(block, tag);
    let field_ref = primary_field(block, tag_ref);
    gps_coordinate(field.as_ref(), field_ref.as_ref(), tag, tag_ref)
}

fn get_timestamp(block: &exif::Exif) -> (r: Result<Timestamp, SyncError>)
    ensures
        outcome(r) == timestamp_of(
            field_of(exif_fields(*block), ExifTag::DateTimeOriginal),
            field_of(exif_fields(*block), ExifTag::OffsetTimeOriginal),
        ),
{
    let datetime = primary_field(block, ExifTag::DateTimeOriginal);
    let offset = primary_field(block, ExifTag::OffsetTimeOriginal);
    capture_time(datetime.as_ref(), offset.as_ref())
}

impl Location {
    /// Reads the place from a parsed EXIF block.
    pub fn from_image(block: &exif::Exif) -> (r: Result<Location, SyncError>)
        ensures
            outcome(r) == location_of(exif_fields(*block)),
    {
        let lat = match get_gps(block, ExifTag::GpsLatitude, ExifTag::GpsLatitudeRef) {
            Ok(lat) => lat,
            Err(error) => { return Err(error); },
        };
        let lon = match get_gps(block, ExifTag::GpsLongitude, ExifTag::GpsLongitudeRef) {
            Ok(lon) => lon,
            Err(error) => { return Err(error); },
        };
        Ok(Location { lat, lon })
    }
}

/// Reads place and capture time from the bytes of a picture.
pub fn extract(data: &[u8]) -> (r: Result<Metadata, SyncError>)
    ensures
        outcome(r) == extracted(data@),
{
    let block = match read_exif(data) {
        Ok(block) => block,
        Err(error) => { return Err(SyncError::ExifParse(error)); },
    };
    let timestamp = match get_timestamp(&block) {
        Ok(timestamp) => timestamp,
        Err(error) => { return Err(error); },
    };
    let location = match Location::from_image(&block) {
        Ok(location) => location,
        Err(error) => { return Err(error); },
    };
    Ok(Metadata { location, timestamp })
}

/// The properties of a record in the final document, as name and value.
pub open spec fn properties_of(tree: TreeView, timestamp: Seq<char>) -> Seq<
    (Seq<char>, Seq<char>),
> {
    seq![
        ("id"@, tree.image.id),
        ("timestamp"@, timestamp),
        ("file"@, tree.image.full_path),
        ("hash"@, tree.image.digest),
        ("tag"@, tree.image.tag.name()),
        ("name"@, tree.image.name),
    ]
}

/// Pairs of texts as plain values.
pub open spec fn pairs_view(pairs: Seq<(String, String)>) -> Seq<(Seq<char>, Seq<char>)> {
    pairs.map_values(|pair: (String, String)| (pair.0@, pair.1@))
}

impl Tree {
    /// The record of `image` with the place and time that `found` tells.
    pub open spec fn made_of(image: ImageView, found: Metadata) -> TreeView {
        TreeView { image, location: found.location, timestamp: found.timestamp }
    }

    /// Makes the record of a picture from the picture's bytes.
    pub fn new(image: Image, data: &[u8]) -> (r: Result<Tree, SyncError>)
        ensures
            r is Ok <==> extracted(data@) is Ok,
            r matches Ok(tree) ==> extracted(data@) matches Ok(found) && tree@ == Tree::made_of(
                image@,
                found,
            ),
            r matches Err(error) ==> extracted(data@) == Err::<Metadata, ErrorKind>(
                error.kind_of(),
            ),
    {
        match extract(data) {
            Ok(found) => Ok(Tree { image, location: found.location, timestamp: found.timestamp }),
            Err(error) => Err(error),
        }
    }

    /// The capture time as it is written into the final document.
    pub fn timestamp_text(&self) -> (r: Option<String>)
        ensures
            r is Some <==> chrono_rfc3339(self.timestamp) is Some,
            r matches Some(text) ==> chrono_rfc3339(self.timestamp) == Some(text@),
    {
        self.timestamp.to_rfc3339()
    }

    /// The properties of the record in the final document, with the text
    /// of the capture time as given.
    pub fn properties(&self, timestamp: &str) -> (r: Vec<(String, String)>)
        ensures
            pairs_view(r@) == properties_of(self@, timestamp@),
    {
        let mut pairs: Vec<(String, String)> = Vec::new();
        pairs.push((String::from_str("id"), self.image.id.clone()));
        pairs.push((String::from_str("timestamp"), String::from_str(timestamp)));
        pairs.push((String::from_str("file"), self.image.full_path.clone()));
        pairs.push((String::from_str("hash"), self.image.digest.clone()));
        pairs.push((String::from_str("tag"), String::from_str(self.image.tag.as_str())));
        pairs.push((String::from_str("name"), self.image.name.clone()));
        assert(pairs_view(pairs@) =~= properties_of(self@, timestamp@));
        pairs
    }
}

} // verus!
