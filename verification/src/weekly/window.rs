//! Update windows: how declarations expand into weekly intervals, and whether
//! a point in the week lies in one of them.

use crate::weekly::utils::{
    check_minutes, clock_time, lemma_clock_time_in_range, time_as_weekly_minute,
    time_from_string, weekday_from_string, weekday_named, weekly_minute,
};
use crate::weekly::{
    MinuteInWeek, NormalizedInterval, Rejection, WeeklyError, MAX_WEEKLY_MINS,
};
use vstd::prelude::*;

verus! {

/// An update window as it is declared: the days it applies to, the time of
/// day at which it opens, and how long it stays open.
#[derive(Clone, Debug, PartialEq, Eq)]
pub struct RawWindowSpec {
    /// Names of the days of the week.
    pub days: Vec<String>,
    /// Start time as `HH:MM`, on a 24-hour clock.
    pub start_time: String,
    /// Length in minutes.
    pub length_minutes: u32,
}

impl NormalizedInterval {
    /// Whether a point in the week lies in the window. A window that runs
    /// past the end of the week goes on from the start of the week. A window
    /// that is not valid holds no point at all.
    pub open spec fn contains(self, now: int) -> bool {
        let end = self.start + self.length_minutes;
        self.valid() && if end <= MAX_WEEKLY_MINS {
            self.start <= now < end
        } else {
            now >= self.start || now < end % (MAX_WEEKLY_MINS as int)
        }
    }

    /// Whether a point in the week lies in the window. It lies in no window
    /// that is not valid.
    pub fn is_open_at(&self, now: MinuteInWeek) -> (open: bool)
        ensures
            open == self.contains(now as int),
    {
        if self.start >= MAX_WEEKLY_MINS || self.length_minutes == 0 || self.length_minutes
            > MAX_WEEKLY_MINS {
            return false;
        }
        let start: u64 = self.start as u64;
        let end: u64 = start + self.length_minutes as u64;
        let now: u64 = now as u64;
        if end <= MAX_WEEKLY_MINS as u64 {
            start <= now && now < end
        } else {
            now >= start || now < end % (MAX_WEEKLY_MINS as u64)
        }
    }
}

/// Whether a point in the week lies in at least one of the windows.
pub open spec fn within(now: int, intervals: Seq<NormalizedInterval>) -> bool {
    exists|i: int| 0 <= i < intervals.len() && #[trigger] intervals[i].contains(now)
}

/// Whether `now` lies in at least one of the windows. With no window at
/// all it lies in none: updates that wait for a window then never run. A
/// window that is not valid counts as none.
pub fn is_within(now: MinuteInWeek, intervals: &Vec<NormalizedInterval>) -> (open: bool)
    ensures
        open == within(now as int, intervals@),
{
    let mut i: usize = 0;
    while i < intervals.len()
        invariant
            i <= intervals.len(),
            forall|j: int| 0 <= j < i ==> !(#[trigger] intervals[j]).contains(now as int),
        decreases intervals.len() - i,
    {
        if intervals[i].is_open_at(now) {
            return true;
        }
        i += 1;
    }
    false
}

/// The intervals that a declared time and length give on a run of days, one
/// for each day in its order; or the first of the days that names no day of
/// the week.
pub open spec fn intervals_on(days: Seq<String>, hour: u8, minute: u8, length_minutes: u32)
    -> Result<Seq<NormalizedInterval>, Rejection>
    decreases days.len(),
{
    if days.len() == 0 {
        Ok(Seq::empty())
    } else {
        match intervals_on(days.drop_last(), hour, minute, length_minutes) {
            Err(rejection) => Err(rejection),
            Ok(intervals) => match weekday_named(days.last()@) {
                None => Err(Rejection::UnrecognizedWeekday(days.last()@)),
                Some(day) => Ok(
                    intervals.push(
                        NormalizedInterval {
                            start: weekly_minute(day, hour as int, minute as int) as u32,
                            length_minutes,
                        },
                    ),
                ),
            },
        }
    }
}

/// The intervals that one declaration expands into, or why it is refused:
/// for its start time, else for its length, else for the first of its days
/// that is not recognized.
pub open spec fn expansion(window: RawWindowSpec) -> Result<Seq<NormalizedInterval>, Rejection> {
    match clock_time(window.start_time@) {
        None => Err(Rejection::InvalidTimeFormat(window.start_time@)),
        Some((hour, minute)) => if window.length_minutes == 0 {
            Err(Rejection::ZeroLength)
        } else if window.length_minutes > MAX_WEEKLY_MINS {
            Err(Rejection::TooLong)
        } else {
            intervals_on(window.days@, hour, minute, window.length_minutes)
        },
    }
}

/// The intervals that a run of declarations expands into, in the order of
/// the declarations; or why the first declaration that is refused is refused.
pub open spec fn expansions(windows: Seq<RawWindowSpec>) -> Result<Seq<NormalizedInterval>, Rejection>
    decreases windows.len(),
{
    if windows.len() == 0 {
        Ok(Seq::empty())
    } else {
        match expansions(windows.drop_last()) {
            Err(rejection) => Err(rejection),
            Ok(intervals) => match expansion(windows.last()) {
                Err(rejection) => Err(rejection),
                Ok(more) => Ok(intervals + more),
            },
        }
    }
}

/// Expand update windows as they are declared into weekly intervals.
///
/// Each declaration has its start time parsed and its length checked once,
/// and then gives one interval for each of its days. The first declaration
/// that cannot be read fails the whole list.
pub fn build_intervals(raw_specs: &Vec<RawWindowSpec>) -> (res: Result<
    Vec<NormalizedInterval>,
    WeeklyError,
>)
    ensures
        match expansions(raw_specs@) {
            Ok(intervals) => res matches Ok(built) && built@ == intervals,
            Err(rejection) => res matches Err(e) && e@ == rejection,
        },
        res matches Ok(built) ==> forall|i: int|
            0 <= i < built.len() ==> (#[trigger] built[i]).valid(),
{
    proof {
        lemma_expansions_valid(raw_specs@);
    }
    let mut intervals: Vec<NormalizedInterval> = Vec::new();
    let mut i: usize = 0;
    while i < raw_specs.len()
        invariant
            i <= raw_specs.len(),
            expansions(raw_specs@.take(i as int)) == Ok::<Seq<NormalizedInterval>, Rejection>(
                intervals@,
            ),
        decreases raw_specs.len() - i,
    {
        let entry = &raw_specs[i];
        let ghost upto = raw_specs@.take(i + 1);
        proof {
            assert(upto.drop_last() =~= raw_specs@.take(i as int));
            assert(upto.last() == *entry);
        }
        let (hour, minute) = match time_from_string(entry.start_time.as_str()) {
            Ok(time) => time,
            Err(e) => {
                proof {
                    lemma_refused_prefix(raw_specs@, i + 1);
                }
                return Err(e);
            },
        };
        match check_minutes(entry.length_minutes) {
            Ok(_) => {},
            Err(e) => {
                proof {
                    lemma_refused_prefix(raw_specs@, i + 1);
                }
                return Err(e);
            },
        }
        let ghost before = intervals@;
        let mut j: usize = 0;
        while j < entry.days.len()
            invariant
                i < raw_specs.len(),
                upto == raw_specs@.take(i + 1),
                expansions(upto.drop_last()) == Ok::<Seq<NormalizedInterval>, Rejection>(before),
                upto.last() == *entry,
                expansion(*entry) == intervals_on(entry.days@, hour, minute, entry.length_minutes),
                j <= entry.days.len(),
                intervals_on(entry.days@.take(j as int), hour, minute, entry.length_minutes)
                    matches Ok(added) && intervals@ == before + added,
            decreases entry.days.len() - j,
        {
            proof {
                assert(entry.days@.take(j + 1).drop_last() =~= entry.days@.take(j as int));
            }
            let day = match weekday_from_string(entry.days[j].as_str()) {
                Ok(day) => day,
                Err(e) => {
                    proof {
                        lemma_unrecognized_prefix(
                            entry.days@,
                            j + 1,
                            hour,
                            minute,
                            entry.length_minutes,
                        );
                        lemma_refused_prefix(raw_specs@, i + 1);
                    }
                    return Err(e);
                },
            };
            let interval = NormalizedInterval {
                start: time_as_weekly_minute(day, hour, minute),
                length_minutes: entry.length_minutes,
            };
            intervals.push(interval);
            proof {
                let added = intervals_on(
                    entry.days@.take(j as int),
                    hour,
                    minute,
                    entry.length_minutes,
                )->Ok_0;
                assert(before + added.push(interval) =~= (before + added).push(interval));
            }
            j += 1;
        }
        proof {
            assert(entry.days@.take(entry.days.len() as int) =~= entry.days@);
        }
        i += 1;
    }
    proof {
        assert(raw_specs@.take(raw_specs.len() as int) =~= raw_specs@);
    }
    Ok(intervals)
}

/// A list is refused for the reason that the first of its beginnings that is
/// refused is refused for.
proof fn lemma_refused_prefix(windows: Seq<RawWindowSpec>, n: int)
    requires
        0 <= n <= windows.len(),
        expansions(windows.take(n)) is Err,
    ensures
        expansions(windows) == expansions(windows.take(n)),
    decreases windows.len(),
{
    if n < windows.len() {
        assert(windows.drop_last().take(n) =~= windows.take(n));
        lemma_refused_prefix(windows.drop_last(), n);
    } else {
        assert(windows.take(n) =~= windows);
    }
}

/// A run of days is refused for the day that the first of its beginnings
/// that is refused is refused for.
proof fn lemma_unrecognized_prefix(
    days: Seq<String>,
    n: int,
    hour: u8,
    minute: u8,
    length_minutes: u32,
)
    requires
        0 <= n <= days.len(),
        intervals_on(days.take(n), hour, minute, length_minutes) is Err,
    ensures
        intervals_on(days, hour, minute, length_minutes) == intervals_on(
            days.take(n),
            hour,
            minute,
            length_minutes,
        ),
    decreases days.len(),
{
    if n < days.len() {
        assert(days.drop_last().take(n) =~= days.take(n));
        lemma_unrecognized_prefix(days.drop_last(), n, hour, minute, length_minutes);
    } else {
        assert(days.take(n) =~= days);
    }
}

/// A declaration with a good start time, a good length and nothing but
/// recognized days expands into exactly one interval for each of its days, in
/// their order: each of the declared length, each valid, and each starting at
/// the declared time of its own day, that is 1440 minutes further for each
/// day after Monday.
pub proof fn lemma_one_interval_per_day(window: RawWindowSpec, hour: u8, minute: u8)
    requires
        clock_time(window.start_time@) == Some((hour, minute)),
        0 < window.length_minutes <= MAX_WEEKLY_MINS,
        forall|i: int| 0 <= i < window.days.len() ==> weekday_named(#[trigger] window.days[i]@) is Some,
    ensures
        expansion(window) matches Ok(intervals) && {
            &&& intervals.len() == window.days.len()
            &&& forall|i: int|
                0 <= i < intervals.len() ==> {
                    &&& (#[trigger] intervals[i]).start == weekday_named(window.days[i]@)->0.index()
                        * 1440 + hour * 60 + minute
                    &&& intervals[i].length_minutes == window.length_minutes
                    &&& intervals[i].valid()
                }
        },
{
    lemma_clock_time_in_range(window.start_time@);
    lemma_intervals_on_days(window.days@, hour, minute, window.length_minutes);
}

/// On recognized days, a time and a length give one interval for each day.
proof fn lemma_intervals_on_days(days: Seq<String>, hour: u8, minute: u8, length_minutes: u32)
    requires
        hour <= 23,
        minute <= 59,
        forall|i: int| 0 <= i < days.len() ==> weekday_named(#[trigger] days[i]@) is Some,
    ensures
        intervals_on(days, hour, minute, length_minutes) matches Ok(intervals) && {
            &&& intervals.len() == days.len()
            &&& forall|i: int|
                0 <= i < intervals.len() ==> {
                    &&& (#[trigger] intervals[i]).start == weekday_named(days[i]@)->0.index() * 1440
                        + hour * 60 + minute
                    &&& intervals[i].start < MAX_WEEKLY_MINS
                    &&& intervals[i].length_minutes == length_minutes
                }
        },
    decreases days.len(),
{
    if days.len() > 0 {
        let earlier = days.drop_last();
        assert forall|i: int| 0 <= i < earlier.len() implies weekday_named(
            #[trigger] earlier[i]@,
        ) is Some by {
            assert(earlier[i] == days[i]);
        }
        lemma_intervals_on_days(earlier, hour, minute, length_minutes);
        assert(weekday_named(days[days.len() - 1]@) is Some);
    }
}

/// Every interval that declarations expand into is valid.
pub proof fn lemma_expansions_valid(windows: Seq<RawWindowSpec>)
    ensures
        expansions(windows) matches Ok(intervals) ==> forall|i: int|
            0 <= i < intervals.len() ==> (#[trigger] intervals[i]).valid(),
    decreases windows.len(),
{
    if windows.len() > 0 {
        lemma_expansions_valid(windows.drop_last());
        let window = windows.last();
        if expansion(window) is Ok {
            let (hour, minute) = clock_time(window.start_time@)->0;
            lemma_clock_time_in_range(window.start_time@);
            lemma_intervals_on_valid(window.days@, hour, minute, window.length_minutes);
        }
    }
}

/// Every interval that a good time and a good length give on a run of days
/// is valid.
proof fn lemma_intervals_on_valid(days: Seq<String>, hour: u8, minute: u8, length_minutes: u32)
    requires
        hour <= 23,
        minute <= 59,
        0 < length_minutes <= MAX_WEEKLY_MINS,
    ensures
        intervals_on(days, hour, minute, length_minutes) matches Ok(intervals) ==> forall|i: int|
            0 <= i < intervals.len() ==> (#[trigger] intervals[i]).valid(),
    decreases days.len(),
{
    if days.len() > 0 {
        lemma_intervals_on_valid(days.drop_last(), hour, minute, length_minutes);
    }
}

/// A valid window holds exactly the points of the week that are reached from
/// its start in fewer minutes than its length, counting on from the start of
/// the week after the end of it.
pub proof fn lemma_contains_wraps(interval: NormalizedInterval, now: int)
    requires
        interval.valid(),
        0 <= now < MAX_WEEKLY_MINS,
    ensures
        interval.contains(now) <==> exists|d: int|
            0 <= d < interval.length_minutes && #[trigger] wrapped(interval.start + d) == now,
{
    let week = MAX_WEEKLY_MINS as int;
    let start = interval.start as int;
    let end = start + interval.length_minutes;
    lemma_wrapped(end);
    if interval.contains(now) {
        let d = if now >= start {
            now - start
        } else {
            now + week - start
        };
        lemma_wrapped(start + d);
        assert(wrapped(start + d) == now);
    }
    if exists|d: int| 0 <= d < interval.length_minutes && #[trigger] wrapped(start + d) == now {
        let d = choose|d: int| 0 <= d < interval.length_minutes && #[trigger] wrapped(start + d)
            == now;
        lemma_wrapped(start + d);
    }
}

/// Within two weeks from the start of a week, wrapping takes off at most one week.
proof fn lemma_wrapped(minutes: int)
    requires
        0 <= minutes < 2 * MAX_WEEKLY_MINS,
    ensures
        wrapped(minutes) == (if minutes < MAX_WEEKLY_MINS {
            minutes
        } else {
            minutes - MAX_WEEKLY_MINS
        }),
{
}

/// A count of minutes from the start of some week, as a point in the week.
pub open spec fn wrapped(minutes: int) -> int {
    minutes % (MAX_WEEKLY_MINS as int)
}

} // verus!
