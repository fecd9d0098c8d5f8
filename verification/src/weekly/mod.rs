//! Weekly time: points in a seven-day cycle, counted in minutes from Monday 00:00.

use vstd::prelude::*;
use vstd::string::StringExecFns;

pub mod utils;
pub mod window;

verus! {

/// A point in the week, in minutes since Monday 00:00.
pub type MinuteInWeek = u32;

/// Minutes in a week, seven days of 24 hours of 60 minutes; every
/// `MinuteInWeek` is below it.
pub const MAX_WEEKLY_MINS: u32 = 10080;

/// Seconds in a week.
pub const MAX_WEEKLY_SECS: u64 = 604800;

/// A day of the week.
#[derive(Clone, Copy, Debug, PartialEq, Eq, Structural, Hash)]
pub enum Weekday {
    Mon,
    Tue,
    Wed,
    Thu,
    Fri,
    Sat,
    Sun,
}

impl Weekday {
    /// The number of the day, counted from Monday = 0 to Sunday = 6.
    pub open spec fn index(self) -> nat {
        match self {
            Weekday::Mon => 0,
            Weekday::Tue => 1,
            Weekday::Wed => 2,
            Weekday::Thu => 3,
            Weekday::Fri => 4,
            Weekday::Sat => 5,
            Weekday::Sun => 6,
        }
    }
}

/// A recurring window: it opens at `start` in every week and stays open for
/// `length_minutes`, past the end of the week where it has to.
#[derive(Clone, Copy, Debug, PartialEq, Eq, Structural, Hash)]
pub struct NormalizedInterval {
    /// When the window opens.
    pub start: MinuteInWeek,
    /// How long it stays open.
    pub length_minutes: u32,
}

impl NormalizedInterval {
    /// The window opens within the week, and lasts at least a minute and at
    /// most a week.
    pub open spec fn valid(&self) -> bool {
        &&& self.start < MAX_WEEKLY_MINS
        &&& 0 < self.length_minutes <= MAX_WEEKLY_MINS
    }
}

/// Why a piece of weekly-time input was rejected.
#[derive(Clone, Debug, PartialEq, Eq)]
pub enum WeeklyError {
    /// The text names no day of the week; it is carried along.
    UnrecognizedWeekday(String),
    /// The text is no `HH:MM` time of a 24-hour clock; it is carried along.
    InvalidTimeFormat(String),
    /// The duration is zero.
    ZeroLength,
    /// The duration is longer than a week.
    TooLong,
}

/// What a `WeeklyError` holds, with the text it carries as a sequence of
/// characters.
pub enum Rejection {
    UnrecognizedWeekday(Seq<char>),
    InvalidTimeFormat(Seq<char>),
    ZeroLength,
    TooLong,
}

impl View for WeeklyError {
    type V = Rejection;

    open spec fn view(&self) -> Rejection {
        match self {
            WeeklyError::UnrecognizedWeekday(text) => Rejection::UnrecognizedWeekday(text@),
            WeeklyError::InvalidTimeFormat(text) => Rejection::InvalidTimeFormat(text@),
            WeeklyError::ZeroLength => Rejection::ZeroLength,
            WeeklyError::TooLong => Rejection::TooLong,
        }
    }
}

impl Rejection {
    /// The rejection in words, with the text that was refused at the end.
    pub open spec fn message(self) -> Seq<char> {
        match self {
            Rejection::UnrecognizedWeekday(text) => "unrecognized week day: "@ + text,
            Rejection::InvalidTimeFormat(text) => "invalid time: "@ + text,
            Rejection::ZeroLength => "zero-length duration"@,
            Rejection::TooLong => "length longer than a week"@,
        }
    }
}

impl WeeklyError {
    /// The error in words, with the text that was refused at the end.
    pub fn message(&self) -> (words: String)
        ensures
            words@ == self@.message(),
    {
        match self {
            WeeklyError::UnrecognizedWeekday(text) => "unrecognized week day: ".to_owned().concat(
                text.as_str(),
            ),
            WeeklyError::InvalidTimeFormat(text) => "invalid time: ".to_owned().concat(
                text.as_str(),
            ),
            WeeklyError::ZeroLength => "zero-length duration".to_owned(),
            WeeklyError::TooLong => "length longer than a week".to_owned(),
        }
    }
}

} // verus!
