//! The date and time that names a file.

use vstd::prelude::*;

verus! {

/// A calendar date and a time of day, to the second, as six numbers.
///
/// No field is held to the calendar: month 13 or day 31 of February pass
/// through unchanged.
#[derive(Clone, Copy, Debug, PartialEq, Eq, Structural)]
pub struct DateTime {
    pub year: u32,
    pub month: u8,
    pub day: u8,
    pub hour: u8,
    pub minute: u8,
    pub second: u8,
}

} // verus!
