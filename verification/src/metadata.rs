//! The capture date among the metadata fields of an image.

use crate::datetime::DateTime;
use crate::decimal::ParseError;
use crate::layout::{parse_exif_datetime, parse_spec};
use vstd::prelude::*;

verus! {

/// The tag of the field that holds the date and time of the original
/// capture.
pub const DATE_TIME_ORIGINAL: u32 = 0x9003;

/// A metadata field as far as this library reads it: its tag, and its bytes
/// where the value is text.
#[derive(Debug)]
pub struct ExifField {
    pub tag: u32,
    pub text: Option<Vec<u8>>,
}

/// `rexif::ExifError`, the reason why rexif could not read an image; carried
/// through as it comes, and never looked into.
#[verifier::external_type_specification]
#[verifier::external_body]
pub struct ExExifError(rexif::ExifError);

/// Why an image gave no capture date.
#[derive(Debug)]
pub enum ExifFailure {
    /// The bytes are no image whose metadata could be read.
    Unreadable(rexif::ExifError),
    /// No field has the tag of the capture date.
    NoTag,
    /// The field's value is no text.
    NotText,
    /// The field's text does not parse.
    Malformed(ParseError),
}

/// A field as a plain value.
pub open spec fn field_model(f: ExifField) -> (u32, Option<Seq<u8>>) {
    (
        f.tag,
        match f.text {
            Some(t) => Some(t@),
            None => None,
        },
    )
}

/// A list of fields as plain values.
pub open spec fn fields_model(fields: Seq<ExifField>) -> Seq<(u32, Option<Seq<u8>>)> {
    fields.map_values(|f: ExifField| field_model(f))
}

/// The metadata fields that the bytes of an image hold, in the order in which
/// they are found; `None` where the bytes cannot be read as an image with
/// metadata.
pub uninterp spec fn exif_entries(contents: Seq<u8>) -> Option<Seq<(u32, Option<Seq<u8>>)>>;

/// `rexif::parse_buffer_quiet`, without its warnings: the entries of a JPEG
/// or TIFF image, each reduced to its tag's number and, for a value of the
/// ASCII type, the value's bytes. The contract gives that list a name and
/// says nothing of what it holds.
#[verifier::external_body]
fn read_fields(contents: &[u8]) -> (r: Result<Vec<ExifField>, rexif::ExifError>)
    ensures
        match r {
            Ok(fields) => exif_entries(contents@) == Some(fields_model(fields@)),
            Err(_) => exif_entries(contents@) is None,
        },
{
    let data = rexif::parse_buffer_quiet(contents).0?;
    Ok(
        data.entries.into_iter().map(
            |e| ExifField {
                tag: e.tag as u32,
                text: match e.value {
                    rexif::TagValue::Ascii(s) => Some(s.into_bytes()),
                    _ => None,
                },
            },
        ).collect(),
    )
}

/// The number of fields before the first one with the tag `tag`; the length
/// of the list where none has it.
pub open spec fn tag_position(fields: Seq<(u32, Option<Seq<u8>>)>, tag: u32) -> nat
    decreases fields.len(),
{
    if fields.len() == 0 || fields[0].0 == tag {
        0
    } else {
        1 + tag_position(fields.skip(1), tag)
    }
}

/// The capture date that a list of fields gives: that of the first field
/// with the capture date's tag, if its value is text that parses.
pub open spec fn capture_date_spec(fields: Seq<(u32, Option<Seq<u8>>)>) -> Result<
    DateTime,
    ExifFailure,
> {
    let at = tag_position(fields, DATE_TIME_ORIGINAL) as int;
    if at >= fields.len() {
        Err(ExifFailure::NoTag)
    } else {
        match fields[at].1 {
            None => Err(ExifFailure::NotText),
            Some(text) => match parse_spec(text) {
                Ok(dt) => Ok(dt),
                Err(e) => Err(ExifFailure::Malformed(e)),
            },
        }
    }
}

/// Where no field before `i` has the tag, and the list ends at `i` or the
/// field there has it, the tag's position is `i`.
pub proof fn lemma_tag_position(fields: Seq<(u32, Option<Seq<u8>>)>, tag: u32, i: int)
    requires
        0 <= i <= fields.len(),
        forall|j: int| 0 <= j < i ==> (#[trigger] fields[j]).0 != tag,
        i == fields.len() || fields[i].0 == tag,
    ensures
        tag_position(fields, tag) == i,
    decreases i,
{
    if i > 0 {
        let rest = fields.skip(1);
        assert forall|j: int| 0 <= j < i - 1 implies (#[trigger] rest[j]).0 != tag by {
            assert(rest[j] == fields[j + 1]);
        }
        lemma_tag_position(rest, tag, i - 1);
    }
}

/// Finds the capture date among the fields of an image.
///
/// The first field with the capture date's tag decides: its text is parsed,
/// and no later field is looked at.
pub fn original_datetime(fields: &Vec<ExifField>) -> (r: Result<DateTime, ExifFailure>)
    ensures
        r == capture_date_spec(fields_model(fields@)),
{
    let ghost model = fields_model(fields@);
    let mut i: usize = 0;
    while i < fields.len()
        invariant
            i <= fields.len(),
            model == fields_model(fields@),
            forall|j: int| 0 <= j < i ==> (#[trigger] model[j]).0 != DATE_TIME_ORIGINAL,
        decreases fields.len() - i,
    {
        assert(model[i as int] == field_model(fields@[i as int]));
        if fields[i].tag == DATE_TIME_ORIGINAL {
            proof {
                lemma_tag_position(model, DATE_TIME_ORIGINAL, i as int);
            }
            return match &fields[i].text {
                None => Err(ExifFailure::NotText),
                Some(text) => match parse_exif_datetime(text.as_slice()) {
                    Ok(dt) => Ok(dt),
                    Err(e) => Err(ExifFailure::Malformed(e)),
                },
            };
        }
        i += 1;
    }
    proof {
        lemma_tag_position(model, DATE_TIME_ORIGINAL, fields.len() as int);
    }
    Err(ExifFailure::NoTag)
}

/// Reads the capture date from the bytes of an image file.
///
/// Where the bytes hold metadata, the result is that of `original_datetime`
/// on its fields; where they do not, it is `Unreadable`.
pub fn exif_datetime(contents: &[u8]) -> (r: Result<DateTime, ExifFailure>)
    ensures
        match exif_entries(contents@) {
            Some(fields) => r == capture_date_spec(fields),
            None => r matches Err(ExifFailure::Unreadable(_)),
        },
{
    match read_fields(contents) {
        Ok(fields) => original_datetime(&fields),
        Err(e) => Err(ExifFailure::Unreadable(e)),
    }
}

} // verus!
