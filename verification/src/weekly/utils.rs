//! Conversions into weekly minutes, and parsers for days, times and lengths.

use crate::weekly::{
    MinuteInWeek, Rejection, Weekday, WeeklyError, MAX_WEEKLY_MINS, MAX_WEEKLY_SECS,
};
use chrono::{Datelike, NaiveDateTime, Timelike};
use std::time::Duration;
use vstd::prelude::*;
use vstd::string::{is_ascii_spec_bytes, StringSliceAdditionalSpecFns};
use vstd::utf8::is_ascii_chars;

verus! {

/// chrono's `NaiveDateTime`: a calendar date and a time of day, with no time zone.
#[verifier::external_type_specification]
#[verifier::external_body]
pub struct ExNaiveDateTime(NaiveDateTime);

/// The day of the week on which a datetime falls.
pub uninterp spec fn datetime_weekday(datetime: NaiveDateTime) -> Weekday;

/// The hour of the day of a datetime.
pub uninterp spec fn datetime_hour(datetime: NaiveDateTime) -> u32;

/// The minute of the hour of a datetime.
pub uninterp spec fn datetime_minute(datetime: NaiveDateTime) -> u32;

/// chrono's `Datelike::weekday` on a `NaiveDateTime`: the day of the week,
/// handed out as this library's `Weekday`.
#[verifier::external_body]
fn weekday_of(datetime: &NaiveDateTime) -> (day: Weekday)
    ensures
        day == datetime_weekday(*datetime),
{
    match datetime.weekday() {
        chrono::Weekday::Mon => Weekday::Mon,
        chrono::Weekday::Tue => Weekday::Tue,
        chrono::Weekday::Wed => Weekday::Wed,
        chrono::Weekday::Thu => Weekday::Thu,
        chrono::Weekday::Fri => Weekday::Fri,
        chrono::Weekday::Sat => Weekday::Sat,
        chrono::Weekday::Sun => Weekday::Sun,
    }
}

/// chrono's `Timelike::hour` on a `NaiveDateTime`: the hour of the day,
/// from 0 to 23.
#[verifier::external_body]
fn hour_of(datetime: &NaiveDateTime) -> (hour: u32)
    ensures
        hour == datetime_hour(*datetime),
        hour <= 23,
{
    datetime.hour()
}

/// chrono's `Timelike::minute` on a `NaiveDateTime`: the minute of the
/// hour, from 0 to 59.
#[verifier::external_body]
fn minute_of(datetime: &NaiveDateTime) -> (minute: u32)
    ensures
        minute == datetime_minute(*datetime),
        minute <= 59,
{
    datetime.minute()
}

/// Convert datetime to minutes since beginning of week.
///
/// The datetime is taken as it stands: a caller with a time in some zone
/// converts to that zone's local date and time first. An hour above 23 or a
/// minute above 59, which the calendar does not hand out, would be tolerated
/// and count as 23 or 59.
pub fn datetime_as_weekly_minute(datetime: &NaiveDateTime) -> (res: MinuteInWeek)
    ensures
        res == datetime_weekday(*datetime).index() * 1440 + datetime_hour(*datetime) * 60
            + datetime_minute(*datetime),
        res < MAX_WEEKLY_MINS,
{
    let weekday = weekday_of(datetime);
    let hour: u32 = hour_of(datetime).min(23);
    let minute: u32 = minute_of(datetime).min(59);

    time_as_weekly_minute(weekday, hour as u8, minute as u8)
}

/// The weekly minute of a day, an hour and a minute, with the hour held to 23
/// and the minute to 59.
pub open spec fn weekly_minute(day: Weekday, hour: int, minute: int) -> int {
    day.index() * 1440 + (if hour <= 23 { hour } else { 23 }) * 60
        + (if minute <= 59 { minute } else { 59 })
}

/// std's `u32::saturating_mul`: the product, or `u32::MAX` where the product
/// does not fit.
pub assume_specification[ u32::saturating_mul ](x: u32, y: u32) -> (r: u32)
    ensures
        r == (if x * y > u32::MAX { u32::MAX as int } else { x * y }),
;

/// chrono's `Weekday::num_days_from_monday`: the number of the day, counted
/// from Monday = 0 to Sunday = 6.
#[verifier::external_body]
fn num_days_from_monday(day: Weekday) -> (n: u32)
    ensures
        n == day.index(),
{
    let day = match day {
        Weekday::Mon => chrono::Weekday::Mon,
        Weekday::Tue => chrono::Weekday::Tue,
        Weekday::Wed => chrono::Weekday::Wed,
        Weekday::Thu => chrono::Weekday::Thu,
        Weekday::Fri => chrono::Weekday::Fri,
        Weekday::Sat => chrono::Weekday::Sat,
        Weekday::Sun => chrono::Weekday::Sun,
    };
    day.num_days_from_monday()
}

/// Convert a point in weekly-time to minutes since beginning of week.
///
/// An hour above 23 counts as 23 and a minute above 59 as 59, so that no
/// input reaches into the next day.
pub fn time_as_weekly_minute(day: Weekday, hour: u8, minute: u8) -> (res: MinuteInWeek)
    ensures
        res == weekly_minute(day, hour as int, minute as int),
        hour <= 23 && minute <= 59 ==> res == day.index() * 1440 + hour * 60 + minute,
        res < MAX_WEEKLY_MINS,
{
    let hour_minutes: u32 = u32::from(hour.min(23)).saturating_mul(60);
    let day_minutes: u32 = num_days_from_monday(day).saturating_mul(24).saturating_mul(60);
    let weekly_minute: u32 = day_minutes.saturating_add(hour_minutes).saturating_add(
        u32::from(minute.min(59)),
    );

    assert(weekly_minute < MAX_WEEKLY_MINS);
    weekly_minute
}

/// The whole seconds of a duration.
pub uninterp spec fn duration_secs(length: Duration) -> u64;

/// What a duration has beyond its whole seconds, in nanoseconds.
pub uninterp spec fn duration_subsec_nanos(length: Duration) -> u32;

/// std's `Duration::as_secs`: the whole seconds of the duration.
pub assume_specification[ Duration::as_secs ](length: &Duration) -> (secs: u64)
    ensures
        secs == duration_secs(*length),
;

/// std's `Duration::from_secs`: the duration of that many whole seconds and
/// nothing beyond them.
pub assume_specification[ Duration::from_secs ](secs: u64) -> (length: Duration)
    ensures
        duration_secs(length) == secs,
        duration_subsec_nanos(length) == 0,
;

/// std's `Duration::subsec_nanos`: what the duration has beyond its whole
/// seconds, in nanoseconds, which is less than a second.
pub assume_specification[ Duration::subsec_nanos ](length: &Duration) -> (nanos: u32)
    ensures
        nanos == duration_subsec_nanos(*length),
        nanos < 1_000_000_000,
;

/// std's `u64::saturating_mul`: the product, or `u64::MAX` where the product
/// does not fit.
pub assume_specification[ u64::saturating_mul ](x: u64, y: u64) -> (r: u64)
    ensures
        r == (if x * y > u64::MAX { u64::MAX as int } else { x * y }),
;

/// Whether a duration exceeds a week: by its whole seconds, or with a full
/// week of them by what it has beyond them.
pub open spec fn longer_than_a_week(length: Duration) -> bool {
    duration_secs(length) > MAX_WEEKLY_SECS || (duration_secs(length) == MAX_WEEKLY_SECS
        && duration_subsec_nanos(length) > 0)
}

/// Check duration for a sane lower and upper bound (whole week).
///
/// A duration that exceeds a week, be it by a nanosecond, is refused as too
/// long. One of less than a second is refused as zero-length.
pub fn check_duration(length: &Duration) -> (res: Result<(), WeeklyError>)
    ensures
        res is Ok <==> 0 < duration_secs(*length) && !longer_than_a_week(*length),
        res == Err::<(), WeeklyError>(WeeklyError::TooLong) <==> longer_than_a_week(*length),
        res == Err::<(), WeeklyError>(WeeklyError::ZeroLength) <==> duration_secs(*length) == 0,
{
    let secs: u64 = length.as_secs();
    if secs > MAX_WEEKLY_SECS || (secs == MAX_WEEKLY_SECS && length.subsec_nanos() > 0) {
        return Err(WeeklyError::TooLong);
    }
    if secs == 0 {
        return Err(WeeklyError::ZeroLength);
    }

    Ok(())
}

/// Validate a timespan (in minutes) and return its duration.
pub fn check_minutes(minutes: u32) -> (res: Result<Duration, WeeklyError>)
    ensures
        match res {
            Ok(length) => {
                &&& 0 < minutes <= MAX_WEEKLY_MINS
                &&& duration_secs(length) == minutes * 60
                &&& duration_subsec_nanos(length) == 0
            },
            Err(WeeklyError::ZeroLength) => minutes == 0,
            Err(WeeklyError::TooLong) => minutes > MAX_WEEKLY_MINS,
            Err(_) => false,
        },
{
    let secs: u64 = u64::from(minutes).saturating_mul(60);
    let length = Duration::from_secs(secs);
    match check_duration(&length) {
        Ok(()) => Ok(length),
        Err(e) => Err(e),
    }
}

/// The small letter of an ASCII capital, and any other character as it is.
pub open spec fn ascii_lowercase_char(c: char) -> char {
    if 'A' <= c <= 'Z' {
        ((c as u8 + 32) as u8) as char
    } else {
        c
    }
}

/// A text with each ASCII capital replaced by its small letter.
pub open spec fn ascii_lowercase(s: Seq<char>) -> Seq<char> {
    Seq::new(s.len(), |i: int| ascii_lowercase_char(s[i]))
}

/// The day that a text names: by its full English name or by the first three
/// letters of it, in capitals or small letters.
pub open spec fn weekday_named(input: Seq<char>) -> Option<Weekday> {
    let name = ascii_lowercase(input);
    if name == "mon"@ || name == "monday"@ {
        Some(Weekday::Mon)
    } else if name == "tue"@ || name == "tuesday"@ {
        Some(Weekday::Tue)
    } else if name == "wed"@ || name == "wednesday"@ {
        Some(Weekday::Wed)
    } else if name == "thu"@ || name == "thursday"@ {
        Some(Weekday::Thu)
    } else if name == "fri"@ || name == "friday"@ {
        Some(Weekday::Fri)
    } else if name == "sat"@ || name == "saturday"@ {
        Some(Weekday::Sat)
    } else if name == "sun"@ || name == "sunday"@ {
        Some(Weekday::Sun)
    } else {
        None
    }
}

/// A text with a character outside ASCII is no ASCII name, in whatever case.
proof fn lemma_not_ascii_is_no_name(s: Seq<char>, name: Seq<char>)
    requires
        !is_ascii_chars(s),
        is_ascii_chars(name),
    ensures
        ascii_lowercase(s) != name,
{
    let i = choose|i: int| 0 <= i < s.len() && !('\0' <= #[trigger] s[i] <= '\u{7f}');
    assert(ascii_lowercase(s)[i] == s[i]);
    if ascii_lowercase(s) == name {
        assert('\0' <= name[i] <= '\u{7f}');
    }
}

/// Whether an ASCII text is the given ASCII name, capitals counting as small letters.
fn is_name(input: &str, name: &str) -> (b: bool)
    requires
        is_ascii_chars(input@),
        is_ascii_chars(name@),
    ensures
        b == (ascii_lowercase(input@) == name@),
{
    proof {
        is_ascii_spec_bytes(input);
        is_ascii_spec_bytes(name);
    }
    let input_bytes = input.as_bytes();
    let name_bytes = name.as_bytes();
    let n = input_bytes.len();
    if name_bytes.len() != n {
        return false;
    }
    let mut i: usize = 0;
    while i < n
        invariant
            is_ascii_chars(input@),
            is_ascii_chars(name@),
            n == input@.len(),
            n == name@.len(),
            n == input_bytes@.len(),
            n == name_bytes@.len(),
            forall|j: int| 0 <= j < n ==> input_bytes@[j] == input@[j] as u8,
            forall|j: int| 0 <= j < n ==> name_bytes@[j] == name@[j] as u8,
            i <= n,
            forall|j: int| 0 <= j < i ==> ascii_lowercase_char(input@[j]) == name@[j],
        decreases n - i,
    {
        let c: u8 = input_bytes[i];
        let lower: u8 = if 65 <= c && c <= 90 {
            c + 32
        } else {
            c
        };
        if lower != name_bytes[i] {
            assert(ascii_lowercase(input@)[i as int] != name@[i as int]);
            return false;
        }
        i += 1;
    }
    assert(ascii_lowercase(input@) =~= name@);
    true
}

/// Parse a week day string (English names).
///
/// The full names and their three-letter abbreviations are recognized, in
/// capitals or small letters; any other text is refused and handed back in
/// the error.
pub fn weekday_from_string(input: &str) -> (res: Result<Weekday, WeeklyError>)
    ensures
        match weekday_named(input@) {
            Some(day) => res == Ok::<Weekday, WeeklyError>(day),
            None => res matches Err(e) && e@ == Rejection::UnrecognizedWeekday(input@),
        },
{
    proof {
        reveal_strlit("mon");
        reveal_strlit("monday");
        reveal_strlit("tue");
        reveal_strlit("tuesday");
        reveal_strlit("wed");
        reveal_strlit("wednesday");
        reveal_strlit("thu");
        reveal_strlit("thursday");
        reveal_strlit("fri");
        reveal_strlit("friday");
        reveal_strlit("sat");
        reveal_strlit("saturday");
        reveal_strlit("sun");
        reveal_strlit("sunday");
    }
    if !input.is_ascii() {
        proof {
            lemma_not_ascii_is_no_name(input@, "mon"@);
            lemma_not_ascii_is_no_name(input@, "monday"@);
            lemma_not_ascii_is_no_name(input@, "tue"@);
            lemma_not_ascii_is_no_name(input@, "tuesday"@);
            lemma_not_ascii_is_no_name(input@, "wed"@);
            lemma_not_ascii_is_no_name(input@, "wednesday"@);
            lemma_not_ascii_is_no_name(input@, "thu"@);
            lemma_not_ascii_is_no_name(input@, "thursday"@);
            lemma_not_ascii_is_no_name(input@, "fri"@);
            lemma_not_ascii_is_no_name(input@, "friday"@);
            lemma_not_ascii_is_no_name(input@, "sat"@);
            lemma_not_ascii_is_no_name(input@, "saturday"@);
            lemma_not_ascii_is_no_name(input@, "sun"@);
            lemma_not_ascii_is_no_name(input@, "sunday"@);
        }
        return Err(WeeklyError::UnrecognizedWeekday(input.to_owned()));
    }
    let day = if is_name(input, "mon") || is_name(input, "monday") {
        Weekday::Mon
    } else if is_name(input, "tue") || is_name(input, "tuesday") {
        Weekday::Tue
    } else if is_name(input, "wed") || is_name(input, "wednesday") {
        Weekday::Wed
    } else if is_name(input, "thu") || is_name(input, "thursday") {
        Weekday::Thu
    } else if is_name(input, "fri") || is_name(input, "friday") {
        Weekday::Fri
    } else if is_name(input, "sat") || is_name(input, "saturday") {
        Weekday::Sat
    } else if is_name(input, "sun") || is_name(input, "sunday") {
        Weekday::Sun
    } else {
        return Err(WeeklyError::UnrecognizedWeekday(input.to_owned()));
    };

    Ok(day)
}

/// Whether a character is one of the ten ASCII digits.
pub open spec fn is_digit(c: char) -> bool {
    '0' <= c <= '9'
}

/// The number that a run of digits denotes in base ten.
pub open spec fn decimal_value(digits: Seq<char>) -> nat
    decreases digits.len(),
{
    if digits.len() == 0 {
        0
    } else {
        decimal_value(digits.drop_last()) * 10 + (digits.last() as nat - '0' as nat) as nat
    }
}

/// Whether a text holds nothing but digits.
pub open spec fn all_digits(s: Seq<char>) -> bool {
    forall|i: int| 0 <= i < s.len() ==> is_digit(#[trigger] s[i])
}

/// A field without the plus sign that may stand in front of it.
pub open spec fn unsigned_part(field: Seq<char>) -> Seq<char> {
    if field.len() > 0 && field[0] == '+' {
        field.drop_first()
    } else {
        field
    }
}

/// The number that a field denotes where it is an unsigned decimal number
/// of at most 255: digits, at least one of them, after at most one plus sign.
pub open spec fn decimal_u8(field: Seq<char>) -> Option<u8> {
    let digits = unsigned_part(field);
    if digits.len() > 0 && all_digits(digits) && decimal_value(digits) <= u8::MAX {
        Some(decimal_value(digits) as u8)
    } else {
        None
    }
}

/// Whether the only colon of a text stands at `k`, so that the text splits
/// there into exactly two fields.
pub open spec fn is_only_colon(s: Seq<char>, k: int) -> bool {
    &&& 0 <= k < s.len()
    &&& forall|i: int| 0 <= i < s.len() ==> (#[trigger] s[i] == ':' <==> i == k)
}

/// The hour and the minute that a text denotes where it is a time of a
/// 24-hour clock: two fields with one colon between them, each an unsigned
/// decimal number, the first at most 23 and the second at most 59.
pub open spec fn clock_time(s: Seq<char>) -> Option<(u8, u8)> {
    if exists|k: int| is_only_colon(s, k) {
        let k = choose|k: int| is_only_colon(s, k);
        match (decimal_u8(s.subrange(0, k)), decimal_u8(s.subrange(k + 1, s.len() as int))) {
            (Some(hour), Some(minute)) => if hour <= 23 && minute <= 59 {
                Some((hour, minute))
            } else {
                None
            },
            _ => None,
        }
    } else {
        None
    }
}

/// A time that is read off a text has its hour within 23 and its minute
/// within 59.
pub proof fn lemma_clock_time_in_range(s: Seq<char>)
    ensures
        clock_time(s) matches Some((hour, minute)) ==> hour <= 23 && minute <= 59,
{
}

/// A field that denotes a number holds nothing but digits and plus signs.
proof fn lemma_decimal_chars(field: Seq<char>)
    requires
        decimal_u8(field) is Some,
    ensures
        forall|i: int| 0 <= i < field.len() ==> is_digit(#[trigger] field[i]) || field[i] == '+',
{
    let digits = unsigned_part(field);
    assert forall|i: int| 0 <= i < field.len() implies is_digit(#[trigger] field[i]) || field[i]
        == '+' by {
        if field[0] == '+' {
            if i > 0 {
                assert(is_digit(digits[i - 1]));
            }
        } else {
            assert(is_digit(digits[i]));
        }
    }
}

/// The number that the characters of an ASCII text from `from` up to `to` denote.
fn field_as_u8(input: &str, from: usize, to: usize) -> (res: Option<u8>)
    requires
        is_ascii_chars(input@),
        from <= to <= input@.len(),
    ensures
        res == decimal_u8(input@.subrange(from as int, to as int)),
{
    proof {
        is_ascii_spec_bytes(input);
    }
    let bytes = input.as_bytes();
    let ghost field = input@.subrange(from as int, to as int);
    let start: usize = if from < to && bytes[from] == 43 {
        from + 1
    } else {
        from
    };
    let ghost digits = input@.subrange(start as int, to as int);
    assert(digits =~= unsigned_part(field));
    if start == to {
        return None;
    }
    let mut value: u16 = 0;
    let mut i: usize = start;
    while i < to
        invariant
            is_ascii_chars(input@),
            bytes@.len() == input@.len(),
            forall|j: int| 0 <= j < input@.len() ==> bytes@[j] == input@[j] as u8,
            from <= start <= i <= to <= input@.len(),
            field == input@.subrange(from as int, to as int),
            digits == input@.subrange(start as int, to as int),
            digits == unsigned_part(field),
            forall|j: int| 0 <= j < i - start ==> is_digit(#[trigger] digits[j]),
            value <= 256,
            value == vstd::math::min(decimal_value(digits.take(i - start)) as int, 256),
        decreases to - i,
    {
        let b: u8 = bytes[i];
        if b < 48 || b > 57 {
            assert(!is_digit(digits[i - start]));
            return None;
        }
        let digit: u16 = (b - 48) as u16;
        let next: u16 = value * 10 + digit;
        proof {
            assert(digits.take(i + 1 - start).drop_last() =~= digits.take(i - start));
            assert(digits.take(i + 1 - start).last() == digits[i - start]);
        }
        value = if next > 256 {
            256
        } else {
            next
        };
        i += 1;
    }
    assert(digits.take(to - start) =~= digits);
    if value > 255 {
        None
    } else {
        Some(value as u8)
    }
}

/// Parse a time string (in 24h format).
///
/// The text is an hour and a minute with one colon between them, as in
/// `6:20` or `14:05`; any other text is refused and handed back in the error.
pub fn time_from_string(input: &str) -> (res: Result<(u8, u8), WeeklyError>)
    ensures
        match clock_time(input@) {
            Some(time) => res == Ok::<(u8, u8), WeeklyError>(time),
            None => res matches Err(e) && e@ == Rejection::InvalidTimeFormat(input@),
        },
        res matches Ok((hour, minute)) ==> hour <= 23 && minute <= 59,
{
    let ghost s = input@;
    if !input.is_ascii() {
        proof {
            if exists|k: int| is_only_colon(s, k) {
                let k = choose|k: int| is_only_colon(s, k);
                let i = choose|i: int| 0 <= i < s.len() && !('\0' <= #[trigger] s[i] <= '\u{7f}');
                let hour = s.subrange(0, k);
                let minute = s.subrange(k + 1, s.len() as int);
                if i < k {
                    if decimal_u8(hour) is Some {
                        lemma_decimal_chars(hour);
                        assert(hour[i] == s[i]);
                    }
                } else {
                    if decimal_u8(minute) is Some {
                        lemma_decimal_chars(minute);
                        assert(minute[i - k - 1] == s[i]);
                    }
                }
            }
        }
        return Err(WeeklyError::InvalidTimeFormat(input.to_owned()));
    }
    proof {
        is_ascii_spec_bytes(input);
    }
    let bytes = input.as_bytes();
    let n = bytes.len();
    let mut colon: usize = 0;
    while colon < n && bytes[colon] != 58
        invariant
            is_ascii_chars(s),
            n == s.len(),
            n == bytes@.len(),
            forall|j: int| 0 <= j < n ==> bytes@[j] == s[j] as u8,
            colon <= n,
            forall|j: int| 0 <= j < colon ==> s[j] != ':',
        decreases n - colon,
    {
        colon += 1;
    }
    if colon == n {
        assert forall|k: int| !is_only_colon(s, k) by {
            if is_only_colon(s, k) {
                assert(s[k] == ':');
            }
        }
        return Err(WeeklyError::InvalidTimeFormat(input.to_owned()));
    }
    assert(s[colon as int] == ':');
    let hour = field_as_u8(input, 0, colon);
    let minute = field_as_u8(input, colon + 1, n);
    proof {
        let minute_field = s.subrange(colon + 1, n as int);
        if decimal_u8(minute_field) is Some {
            lemma_decimal_chars(minute_field);
            assert forall|i: int| 0 <= i < s.len() implies (#[trigger] s[i] == ':' <==> i
                == colon) by {
                if i > colon {
                    assert(minute_field[i - colon - 1] == s[i]);
                }
            }
            assert(is_only_colon(s, colon as int));
        }
        if exists|k: int| is_only_colon(s, k) {
            let k = choose|k: int| is_only_colon(s, k);
            assert(k == colon);
        }
    }
    match (hour, minute) {
        (Some(hour), Some(minute)) => {
            if hour <= 23 && minute <= 59 {
                Ok((hour, minute))
            } else {
                Err(WeeklyError::InvalidTimeFormat(input.to_owned()))
            }
        },
        _ => Err(WeeklyError::InvalidTimeFormat(input.to_owned())),
    }
}

} // verus!
