//! The fixed 19-byte layout `YYYY:MM:DD HH:MM:SS` of a capture date in image
//! metadata.

use crate::datetime::DateTime;
use crate::decimal::{
    all_digits, atou, atou_spec, decimal_value, digit_value, is_digit, lemma_digits_succeed,
    lemma_non_digit_fails, ParseError,
};
use vstd::prelude::*;
use vstd::slice::slice_subrange;

verus! {

/// The length of the layout.
pub const LAYOUT_LEN: usize = 19;

/// The byte at position `i` of the placeholder that keeps the colons and
/// blanks out every digit.
pub open spec fn blank_colons_at(i: int) -> u8 {
    if i == 4 || i == 7 || i == 13 || i == 16 {
        0x3a
    } else {
        0x20
    }
}

/// The placeholder `"    :  :     :  :  "`.
pub open spec fn blank_colons() -> Seq<u8> {
    Seq::new(19, |i: int| blank_colons_at(i))
}

/// The placeholder of 19 spaces.
pub open spec fn blank_spaces() -> Seq<u8> {
    Seq::new(19, |i: int| 0x20u8)
}

/// `s` is one of the two placeholders that stand for "no date".
pub open spec fn is_blank(s: Seq<u8>) -> bool {
    s == blank_colons() || s == blank_spaces()
}

/// The five separators stand where the layout wants them: colons at 4, 7, 13
/// and 16, a space at 10.
pub open spec fn delimiters_ok(s: Seq<u8>) -> bool
    recommends
        s.len() >= 19,
{
    s[4] == 0x3a && s[7] == 0x3a && s[10] == 0x20 && s[13] == 0x3a && s[16] == 0x3a
}

/// The six numeric fields of `s`, read in order; the first failure wins.
pub open spec fn fields_spec(s: Seq<u8>) -> Result<DateTime, ParseError>
    recommends
        s.len() >= 19,
{
    match atou_spec(s.subrange(0, 4), u32::MAX as nat) {
        Err(e) => Err(e),
        Ok(year) => match atou_spec(s.subrange(5, 7), u8::MAX as nat) {
            Err(e) => Err(e),
            Ok(month) => match atou_spec(s.subrange(8, 10), u8::MAX as nat) {
                Err(e) => Err(e),
                Ok(day) => match atou_spec(s.subrange(11, 13), u8::MAX as nat) {
                    Err(e) => Err(e),
                    Ok(hour) => match atou_spec(s.subrange(14, 16), u8::MAX as nat) {
                        Err(e) => Err(e),
                        Ok(minute) => match atou_spec(s.subrange(17, 19), u8::MAX as nat) {
                            Err(e) => Err(e),
                            Ok(second) => Ok(
                                DateTime {
                                    year: year as u32,
                                    month: month as u8,
                                    day: day as u8,
                                    hour: hour as u8,
                                    minute: minute as u8,
                                    second: second as u8,
                                },
                            ),
                        },
                    },
                },
            },
        },
    }
}

/// What parsing `s` as a date and time gives.
///
/// A placeholder is refused first, then text under 19 bytes, then a misplaced
/// separator, then the fields are read. Bytes after the 19th are ignored.
pub open spec fn parse_spec(s: Seq<u8>) -> Result<DateTime, ParseError> {
    if is_blank(s) {
        Err(ParseError::Blank)
    } else if s.len() < 19 {
        Err(ParseError::TooShort)
    } else if !delimiters_ok(s) {
        Err(ParseError::Delimiter)
    } else {
        fields_spec(s)
    }
}

/// Tells whether `data` is one of the two placeholders.
pub fn is_blank_text(data: &[u8]) -> (b: bool)
    ensures
        b == is_blank(data@),
{
    if data.len() != LAYOUT_LEN {
        return false;
    }
    let mut colons = true;
    let mut spaces = true;
    let mut i: usize = 0;
    while i < LAYOUT_LEN
        invariant
            i <= 19,
            data@.len() == 19,
            colons == (forall|j: int| 0 <= j < i ==> #[trigger] data@[j] == blank_colons_at(j)),
            spaces == (forall|j: int| 0 <= j < i ==> #[trigger] data@[j] == 0x20u8),
        decreases 19 - i,
    {
        let b = data[i];
        let colon_here = i == 4 || i == 7 || i == 13 || i == 16;
        if b != (if colon_here {
            0x3au8
        } else {
            0x20u8
        }) {
            colons = false;
        }
        if b != 0x20u8 {
            spaces = false;
        }
        i += 1;
    }
    proof {
        if colons {
            assert(data@ =~= blank_colons());
        } else {
            let j = choose|j: int| 0 <= j < 19 && #[trigger] data@[j] != blank_colons_at(j);
            assert(blank_colons()[j] == blank_colons_at(j));
        }
        if spaces {
            assert(data@ =~= blank_spaces());
        } else {
            let j = choose|j: int| 0 <= j < 19 && #[trigger] data@[j] != 0x20u8;
            assert(blank_spaces()[j] == 0x20u8);
        }
    }
    colons || spaces
}

/// Parses a capture date in the layout `YYYY:MM:DD HH:MM:SS`.
///
/// The result is exactly `parse_spec` of the bytes: the placeholders, short
/// text, a misplaced separator and a field that is no number are each refused
/// with their own error, and otherwise the six fields are returned as read.
pub fn parse_exif_datetime(data: &[u8]) -> (r: Result<DateTime, ParseError>)
    ensures
        r == parse_spec(data@),
{
    if is_blank_text(data) {
        return Err(ParseError::Blank);
    }
    if data.len() < LAYOUT_LEN {
        return Err(ParseError::TooShort);
    }
    if !(data[4] == 0x3a && data[7] == 0x3a && data[10] == 0x20 && data[13] == 0x3a && data[16]
        == 0x3a) {
        return Err(ParseError::Delimiter);
    }
    let year = match atou::<u32>(slice_subrange(data, 0, 4)) {
        Ok(n) => n,
        Err(e) => {
            return Err(e);
        },
    };
    let month = match atou::<u8>(slice_subrange(data, 5, 7)) {
        Ok(n) => n,
        Err(e) => {
            return Err(e);
        },
    };
    let day = match atou::<u8>(slice_subrange(data, 8, 10)) {
        Ok(n) => n,
        Err(e) => {
            return Err(e);
        },
    };
    let hour = match atou::<u8>(slice_subrange(data, 11, 13)) {
        Ok(n) => n,
        Err(e) => {
            return Err(e);
        },
    };
    let minute = match atou::<u8>(slice_subrange(data, 14, 16)) {
        Ok(n) => n,
        Err(e) => {
            return Err(e);
        },
    };
    let second = match atou::<u8>(slice_subrange(data, 17, 19)) {
        Ok(n) => n,
        Err(e) => {
            return Err(e);
        },
    };
    Ok(DateTime { year, month, day, hour, minute, second })
}

/// The number that the two digits at `at` and `at + 1` denote.
pub open spec fn two_digits(s: Seq<u8>, at: int) -> nat {
    10 * digit_value(s[at]) + digit_value(s[at + 1])
}

/// The number that the four digits from `at` on denote.
pub open spec fn four_digits(s: Seq<u8>, at: int) -> nat {
    1000 * digit_value(s[at]) + 100 * digit_value(s[at + 1]) + 10 * digit_value(s[at + 2])
        + digit_value(s[at + 3])
}

/// `s` has exactly the layout: 19 bytes, the separators in place and a digit
/// everywhere else.
pub open spec fn well_formed(s: Seq<u8>) -> bool {
    &&& s.len() == 19
    &&& delimiters_ok(s)
    &&& forall|i: int|
        0 <= i < 19 && i != 4 && i != 7 && i != 10 && i != 13 && i != 16 ==> is_digit(
            #[trigger] s[i],
        )
}

/// A field of two digits is read as the number they denote.
pub proof fn lemma_two_digit_field(s: Seq<u8>, at: int, limit: nat)
    requires
        0 <= at,
        at + 2 <= s.len(),
        is_digit(s[at]),
        is_digit(s[at + 1]),
        limit >= 99,
    ensures
        atou_spec(s.subrange(at, at + 2), limit) == Ok::<nat, ParseError>(two_digits(s, at)),
{
    let f = s.subrange(at, at + 2);
    assert(f[0] == s[at] && f[1] == s[at + 1]);
    assert(f.drop_last() =~= seq![s[at]]);
    assert(seq![s[at]].drop_last() =~= Seq::<u8>::empty());
    assert(decimal_value(seq![s[at]]) == digit_value(s[at])) by {
        assert(seq![s[at]].last() == s[at]);
        assert(decimal_value(Seq::<u8>::empty()) == 0);
    }
    assert(decimal_value(f) == two_digits(s, at));
    assert(all_digits(f));
    lemma_digits_succeed(f, limit);
}

/// A field of four digits is read as the number they denote.
pub proof fn lemma_four_digit_field(s: Seq<u8>, at: int, limit: nat)
    requires
        0 <= at,
        at + 4 <= s.len(),
        is_digit(s[at]),
        is_digit(s[at + 1]),
        is_digit(s[at + 2]),
        is_digit(s[at + 3]),
        limit >= 9999,
    ensures
        atou_spec(s.subrange(at, at + 4), limit) == Ok::<nat, ParseError>(four_digits(s, at)),
{
    let f = s.subrange(at, at + 4);
    let f3 = f.drop_last();
    let f2 = f3.drop_last();
    let f1 = f2.drop_last();
    assert(f1.drop_last() =~= Seq::<u8>::empty());
    assert(decimal_value(Seq::<u8>::empty()) == 0);
    assert(f1.last() == s[at]);
    assert(decimal_value(f1) == digit_value(s[at]));
    assert(f2.last() == s[at + 1]);
    assert(decimal_value(f2) == 10 * decimal_value(f1) + digit_value(s[at + 1]));
    assert(f3.last() == s[at + 2]);
    assert(decimal_value(f3) == 10 * decimal_value(f2) + digit_value(s[at + 2]));
    assert(f.last() == s[at + 3]);
    assert(decimal_value(f) == 10 * decimal_value(f3) + digit_value(s[at + 3]));
    assert(decimal_value(f) == four_digits(s, at));
    assert(all_digits(f));
    lemma_digits_succeed(f, limit);
}

/// Text in exactly the layout parses, and each of the six numbers is the one
/// that the digits at its place denote.
pub proof fn lemma_well_formed_parses(s: Seq<u8>)
    requires
        well_formed(s),
    ensures
        parse_spec(s) == Ok::<DateTime, ParseError>(
            DateTime {
                year: four_digits(s, 0) as u32,
                month: two_digits(s, 5) as u8,
                day: two_digits(s, 8) as u8,
                hour: two_digits(s, 11) as u8,
                minute: two_digits(s, 14) as u8,
                second: two_digits(s, 17) as u8,
            },
        ),
        four_digits(s, 0) <= 9999,
        two_digits(s, 5) <= 99,
        two_digits(s, 8) <= 99,
        two_digits(s, 11) <= 99,
        two_digits(s, 14) <= 99,
        two_digits(s, 17) <= 99,
{
    assert(is_digit(s[0]));
    assert(blank_colons()[0] == 0x20u8);
    assert(blank_spaces()[0] == 0x20u8);
    assert(!is_blank(s));
    assert(is_digit(s[1]) && is_digit(s[2]) && is_digit(s[3]));
    assert(is_digit(s[5]) && is_digit(s[6]));
    assert(is_digit(s[8]) && is_digit(s[9]));
    assert(is_digit(s[11]) && is_digit(s[12]));
    assert(is_digit(s[14]) && is_digit(s[15]));
    assert(is_digit(s[17]) && is_digit(s[18]));
    lemma_four_digit_field(s, 0, u32::MAX as nat);
    lemma_two_digit_field(s, 5, u8::MAX as nat);
    lemma_two_digit_field(s, 8, u8::MAX as nat);
    lemma_two_digit_field(s, 11, u8::MAX as nat);
    lemma_two_digit_field(s, 14, u8::MAX as nat);
    lemma_two_digit_field(s, 17, u8::MAX as nat);
}

/// Neither placeholder parses.
pub proof fn lemma_blank_fails(s: Seq<u8>)
    requires
        is_blank(s),
    ensures
        parse_spec(s) == Err::<DateTime, ParseError>(ParseError::Blank),
{
}

/// Text with a separator out of place, or too short to hold them all, does
/// not parse.
pub proof fn lemma_bad_delimiter_fails(s: Seq<u8>)
    requires
        s.len() < 19 || !delimiters_ok(s),
    ensures
        parse_spec(s) is Err,
{
}

/// A byte that is no digit, anywhere in one of the six numeric fields, makes
/// the parse fail.
pub proof fn lemma_non_digit_in_field_fails(s: Seq<u8>, i: int)
    requires
        0 <= i < 19,
        i != 4 && i != 7 && i != 10 && i != 13 && i != 16,
        i < s.len() ==> !is_digit(s[i]),
    ensures
        parse_spec(s) is Err,
{
    if !is_blank(s) && s.len() >= 19 && delimiters_ok(s) {
        let (from, to) = if i < 4 {
            (0int, 4int)
        } else if i < 7 {
            (5int, 7int)
        } else if i < 10 {
            (8int, 10int)
        } else if i < 13 {
            (11int, 13int)
        } else if i < 16 {
            (14int, 16int)
        } else {
            (17int, 19int)
        };
        let limit = if i < 4 {
            u32::MAX as nat
        } else {
            u8::MAX as nat
        };
        assert(s.subrange(from, to)[i - from] == s[i]);
        lemma_non_digit_fails(s.subrange(from, to), i - from, limit);
    }
}

} // verus!
