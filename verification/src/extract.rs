//! The date and time of a file: its capture date where the metadata gives
//! one, else its modification time.

use crate::datetime::DateTime;
use crate::metadata::{capture_date_spec, exif_datetime, exif_entries, ExifFailure};
use crate::modified::{
    in_calendar_ranges, lemma_calendar_fields_fit, local_reading, mtime_datetime, narrow_spec,
    narrowed, ordinary_timestamp, plausible, LocalFields,
};
use vstd::prelude::*;

verus! {

/// `e` is `word` up to the case of its letters, where `upper` is `word` in
/// capitals.
pub open spec fn matches_word(e: Seq<char>, word: Seq<char>, upper: Seq<char>) -> bool
    recommends
        word.len() == upper.len(),
{
    e.len() == word.len() && forall|i: int|
        0 <= i < e.len() ==> (#[trigger] e[i] == word[i] || e[i] == upper[i])
}

/// `e` names a file type whose metadata can hold a capture date: `jpg`, `tif`
/// or `tiff`, in any mix of upper and lower case.
pub open spec fn is_exif_extension_spec(e: Seq<char>) -> bool {
    matches_word(e, seq!['j', 'p', 'g'], seq!['J', 'P', 'G']) || matches_word(
        e,
        seq!['t', 'i', 'f'],
        seq!['T', 'I', 'F'],
    ) || matches_word(e, seq!['t', 'i', 'f', 'f'], seq!['T', 'I', 'F', 'F'])
}

/// Tells whether the character at `i` is the letter given in both cases.
fn letter_at(e: &str, i: usize, lower: char, upper: char) -> (b: bool)
    requires
        i < e@.len(),
    ensures
        b == (e@[i as int] == lower || e@[i as int] == upper),
{
    let c = e.get_char(i);
    c == lower || c == upper
}

/// Tells whether an extension names a file type whose metadata can hold a
/// capture date.
pub fn is_exif_extension(e: &str) -> (b: bool)
    ensures
        b == is_exif_extension_spec(e@),
{
    let n: usize = e.unicode_len();
    if n == 3 {
        let jpg = letter_at(e, 0, 'j', 'J') && letter_at(e, 1, 'p', 'P') && letter_at(
            e,
            2,
            'g',
            'G',
        );
        let tif = letter_at(e, 0, 't', 'T') && letter_at(e, 1, 'i', 'I') && letter_at(
            e,
            2,
            'f',
            'F',
        );
        jpg || tif
    } else if n == 4 {
        letter_at(e, 0, 't', 'T') && letter_at(e, 1, 'i', 'I') && letter_at(e, 2, 'f', 'F')
            && letter_at(e, 3, 'f', 'F')
    } else {
        false
    }
}

/// What a file gave.
#[derive(Debug)]
pub struct Extraction {
    /// The date and time to name the file by; `None` where neither the
    /// metadata nor the modification time gave one.
    pub datetime: Option<DateTime>,
    /// Why the metadata gave no capture date, where it was asked.
    pub diagnostic: Option<ExifFailure>,
}

/// The extension asks for a look at the metadata.
pub open spec fn wants_metadata(extension: Option<&str>) -> bool {
    extension matches Some(e) && is_exif_extension_spec(e@)
}

/// What settling gives: the capture date where the metadata was asked and
/// gave one, else the fallback, with the metadata's failure beside it.
pub open spec fn settle_spec(
    metadata: Option<Result<DateTime, ExifFailure>>,
    fallback: Option<DateTime>,
) -> Extraction {
    match metadata {
        Some(Ok(dt)) => Extraction { datetime: Some(dt), diagnostic: None },
        Some(Err(e)) => Extraction { datetime: fallback, diagnostic: Some(e) },
        None => Extraction { datetime: fallback, diagnostic: None },
    }
}

/// Settles the date and time from what the two sources gave: the capture
/// date where the metadata was asked and gave one, else the modification
/// time, with the metadata's failure beside it.
pub fn settle(metadata: Option<Result<DateTime, ExifFailure>>, fallback: Option<DateTime>) -> (r:
    Extraction)
    ensures
        r == settle_spec(metadata, fallback),
{
    match metadata {
        Some(Ok(dt)) => Extraction { datetime: Some(dt), diagnostic: None },
        Some(Err(e)) => Extraction { datetime: fallback, diagnostic: Some(e) },
        None => Extraction { datetime: fallback, diagnostic: None },
    }
}

/// What holds of the fallback, whatever the time zone: without a
/// modification time there is none; an ordinary timestamp always gives one;
/// and any that there is, is the date and time of the modification time's
/// whole seconds, read at some offset from UTC of less than a day.
pub open spec fn fallback_of(modified: Option<(i64, u32)>, r: Option<DateTime>) -> bool {
    &&& plausible(r)
    &&& match modified {
        Some(at) => {
            &&& ordinary_timestamp(at.0, at.1) ==> (r matches Some(dt) && dt.year <= 9999)
            &&& r is Some ==> local_reading(at.0 as int, r)
        },
        None => r is None,
    }
}

/// The local date and time of a modification time, where there is one.
fn fallback(modified: Option<(i64, u32)>) -> (r: Option<DateTime>)
    ensures
        fallback_of(modified, r),
{
    match modified {
        Some((secs, nanos)) => mtime_datetime(secs, nanos),
        None => None,
    }
}

/// Finds the date and time of a file from its extension, its bytes and its
/// modification time, given as seconds and nanoseconds since the start of
/// 1970 in UTC where it could be read.
///
/// The bytes are read only where the extension is `jpg`, `tif` or `tiff` in
/// any case. A capture date found there is the answer, and the modification
/// time is not looked at. Otherwise the answer is the modification time in
/// local time, and where the metadata was asked, its failure is reported
/// beside it.
pub fn extract(extension: Option<&str>, contents: &[u8], modified: Option<(i64, u32)>) -> (r:
    Extraction)
    ensures
        wants_metadata(extension) ==> match exif_entries(contents@) {
            Some(fields) => match capture_date_spec(fields) {
                Ok(dt) => r.datetime == Some(dt) && r.diagnostic is None,
                Err(e) => r.diagnostic == Some(e) && fallback_of(modified, r.datetime),
            },
            None => r.diagnostic matches Some(ExifFailure::Unreadable(_)) && fallback_of(
                modified,
                r.datetime,
            ),
        },
        !wants_metadata(extension) ==> r.diagnostic is None && fallback_of(modified, r.datetime),
{
    let asked = match extension {
        Some(e) => is_exif_extension(e),
        None => false,
    };
    if asked {
        match exif_datetime(contents) {
            Ok(dt) => settle(Some(Ok(dt)), None),
            Err(e) => settle(Some(Err(e)), fallback(modified)),
        }
    } else {
        settle(None, fallback(modified))
    }
}

/// After metadata that failed, whatever the failure, the date and time is
/// that of the modification time alone: for calendar fields of a year that
/// is not negative, exactly those fields.
pub proof fn lemma_failed_metadata_falls_back(failure: ExifFailure, f: LocalFields)
    requires
        in_calendar_ranges(f),
        f.year >= 0,
    ensures
        settle_spec(Some(Err(failure)), narrow_spec(f)).datetime == Some(narrowed(f)),
        settle_spec(Some(Err(failure)), narrow_spec(f)).diagnostic == Some(failure),
{
    lemma_calendar_fields_fit(f);
}

} // verus!
