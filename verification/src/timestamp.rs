//! Points in time as plain numbers: a calendar day, the second of that day and
//! the nanosecond of that second, without time zone.

use vstd::prelude::*;

verus! {

/// The first calendar day that can be represented, counted from 1970-01-01:
/// the first day of the year -262143, which is the first date of chrono.
pub const MIN_DAY: i32 = -96_465_292;

/// The last calendar day that can be represented, counted from 1970-01-01:
/// the last day of the year 262142, which is the last date of chrono.
pub const MAX_DAY: i32 = 95_026_236;

/// The number of seconds in a day.
pub const SECONDS_PER_DAY: u32 = 86_400;

/// The number of nanoseconds in a second.
pub const NANOS_PER_SECOND: u32 = 1_000_000_000;

/// The mathematical value of a [`Timestamp`].
pub struct Instant {
    /// The calendar day, counted from 1970-01-01.
    pub day: int,
    /// The second of the day.
    pub second: int,
    /// The nanosecond of the second.
    pub nano: int,
}

/// Whether the three numbers are a calendar day in range, a second of a day
/// and a nanosecond of a second.
pub open spec fn valid_parts(day: int, second: int, nano: int) -> bool {
    &&& MIN_DAY <= day <= MAX_DAY
    &&& 0 <= second < SECONDS_PER_DAY
    &&& 0 <= nano < NANOS_PER_SECOND
}

/// The instant with the given parts.
pub open spec fn instant(day: int, second: int, nano: int) -> Instant {
    Instant { day, second, nano }
}

/// Whether `t` is the value of some timestamp.
pub open spec fn valid_instant(t: Instant) -> bool {
    valid_parts(t.day, t.second, t.nano)
}

/// The nanoseconds from the start of 1970-01-01 to `t`, every day taken as
/// 86 400 seconds long.
pub open spec fn nanos_of(t: Instant) -> int {
    (t.day * 86_400 + t.second) * 1_000_000_000 + t.nano
}

/// The quotient of `x` by `d` rounded toward zero.
pub open spec fn quotient_toward_zero(x: int, d: int) -> int {
    if x >= 0 {
        x / d
    } else {
        -((-x) / d)
    }
}

/// The whole days that passed from `earlier` to `later`: the time between the
/// two in days, rounded toward zero. It is negative where `later` is a day or
/// more before `earlier`.
pub open spec fn whole_days_between(later: Instant, earlier: Instant) -> int {
    quotient_toward_zero(nanos_of(later) - nanos_of(earlier), 86_400_000_000_000)
}

/// The full days from `earlier` to `later`: the time between the two in
/// days, rounded down. It is negative where `later` is before `earlier`, be
/// it by a nanosecond.
pub open spec fn full_days_between(later: Instant, earlier: Instant) -> int {
    (nanos_of(later) - nanos_of(earlier)) / 86_400_000_000_000
}

/// Whether `a` is earlier than `b`.
pub open spec fn is_before(a: Instant, b: Instant) -> bool {
    nanos_of(a) < nanos_of(b)
}

/// The calendar date of the day `day`, as chrono writes a `NaiveDate`.
pub uninterp spec fn date_text(day: int) -> Seq<char>;

/// The time of day at nanosecond `nano` of second `second`, as chrono writes
/// a `NaiveTime`.
pub uninterp spec fn time_text(second: int, nano: int) -> Seq<char>;

/// A date and time of day without time zone.
#[derive(Clone, Copy, Debug, PartialEq, Eq)]
pub struct Timestamp {
    day: i32,
    second: u32,
    nano: u32,
}

impl View for Timestamp {
    type V = Instant;

    closed spec fn view(&self) -> Instant {
        Instant { day: self.day as int, second: self.second as int, nano: self.nano as int }
    }
}

impl Timestamp {
    #[verifier::type_invariant]
    spec fn well_formed(self) -> bool {
        valid_parts(self.day as int, self.second as int, self.nano as int)
    }

    /// The timestamp with the given calendar day (counted from 1970-01-01),
    /// second of the day and nanosecond of the second, where these are in range.
    pub fn new(day: i32, second: u32, nano: u32) -> (made: Option<Timestamp>)
        ensures
            made is Some <==> valid_parts(day as int, second as int, nano as int),
            made matches Some(t) ==> t@ == instant(day as int, second as int, nano as int),
    {
        if MIN_DAY <= day && day <= MAX_DAY && second < SECONDS_PER_DAY && nano < NANOS_PER_SECOND {
            Some(Timestamp { day, second, nano })
        } else {
            None
        }
    }

    /// The calendar day, counted from 1970-01-01.
    pub fn day(&self) -> (day: i32)
        ensures
            day == self@.day,
            valid_instant(self@),
    {
        proof {
            use_type_invariant(self);
        }
        self.day
    }

    /// The second of the day.
    pub fn second(&self) -> (second: u32)
        ensures
            second == self@.second,
            valid_instant(self@),
    {
        proof {
            use_type_invariant(self);
        }
        self.second
    }

    /// The nanosecond of the second.
    pub fn nano(&self) -> (nano: u32)
        ensures
            nano == self@.nano,
            valid_instant(self@),
    {
        proof {
            use_type_invariant(self);
        }
        self.nano
    }

    /// The same time of day `days` days earlier, where that day can be
    /// represented.
    pub fn days_earlier(&self, days: u32) -> (earlier: Option<Timestamp>)
        ensures
            earlier is Some <==> self@.day - days >= MIN_DAY,
            earlier matches Some(t) ==> t@ == instant(
                self@.day - days,
                self@.second,
                self@.nano,
            ),
    {
        proof {
            use_type_invariant(self);
        }
        if days <= 200_000_000 && self.day - (days as i32) >= MIN_DAY {
            Some(Timestamp { day: self.day - (days as i32), second: self.second, nano: self.nano })
        } else {
            None
        }
    }

    /// Whether `self` is earlier than `other`.
    pub fn is_before(&self, other: &Timestamp) -> (earlier: bool)
        ensures
            earlier == is_before(self@, other@),
    {
        proof {
            use_type_invariant(self);
            use_type_invariant(other);
        }
        if self.day != other.day {
            self.day < other.day
        } else if self.second != other.second {
            self.second < other.second
        } else {
            self.nano < other.nano
        }
    }

    /// The calendar date as text.
    pub fn date_string(&self) -> (text: String)
        ensures
            text@ == date_text(self@.day),
    {
        proof {
            use_type_invariant(self);
        }
        format_date(self.day)
    }

    /// The time of day as text.
    pub fn time_string(&self) -> (text: String)
        ensures
            text@ == time_text(self@.second, self@.nano),
    {
        proof {
            use_type_invariant(self);
        }
        format_time(self.second, self.nano)
    }

    /// The whole days that passed from `earlier` to `self`.
    pub fn days_since(&self, earlier: &Timestamp) -> (days: i64)
        ensures
            days == whole_days_between(self@, earlier@),
    {
        proof {
            use_type_invariant(self);
            use_type_invariant(earlier);
        }
        elapsed_days(self.day, self.second, self.nano, earlier.day, earlier.second, earlier.nano)
    }
}

/// chrono's `NaiveDateTime::signed_duration_since` followed by
/// `TimeDelta::num_days`, on two date-times given by their parts.
///
/// The date-times are made with `NaiveDate::from_epoch_days`,
/// `NaiveTime::from_num_seconds_from_midnight_opt` and `NaiveDateTime::new`;
/// the first two give a value for all parts that are in range. chrono takes
/// the difference as if no leap second had ever been inserted, each day 86 400
/// seconds long. `num_days` takes the whole seconds of the difference, rounded
/// toward zero, and divides them by 86 400, rounding toward zero again: that is
/// the difference in days, rounded toward zero. Neither argument stands for a
/// leap second, because no nanosecond here reaches a whole second, so chrono's
/// special case for those does not arise.
#[verifier::external_body]
fn elapsed_days(day: i32, second: u32, nano: u32, from_day: i32, from_second: u32, from_nano: u32)
    -> (days: i64)
    requires
        valid_parts(day as int, second as int, nano as int),
        valid_parts(from_day as int, from_second as int, from_nano as int),
    ensures
        days == whole_days_between(
            instant(day as int, second as int, nano as int),
            instant(from_day as int, from_second as int, from_nano as int),
        ),
{
    let later = chrono::NaiveDateTime::new(
        chrono::NaiveDate::from_epoch_days(day).unwrap(),
        chrono::NaiveTime::from_num_seconds_from_midnight_opt(second, nano).unwrap(),
    );
    let earlier = chrono::NaiveDateTime::new(
        chrono::NaiveDate::from_epoch_days(from_day).unwrap(),
        chrono::NaiveTime::from_num_seconds_from_midnight_opt(from_second, from_nano).unwrap(),
    );
    later.signed_duration_since(earlier).num_days()
}

/// chrono's `Display` for `NaiveDate`, on the date that lies `day` days after
/// 1970-01-01. The text depends on the date alone; it is only given its name.
#[verifier::external_body]
fn format_date(day: i32) -> (text: String)
    requires
        MIN_DAY <= day <= MAX_DAY,
    ensures
        text@ == date_text(day as int),
{
    chrono::NaiveDate::from_epoch_days(day).unwrap().to_string()
}

/// chrono's `Display` for `NaiveTime`, on the time of day given by its second
/// and nanosecond. The text depends on the two numbers alone; it is only
/// given its name.
#[verifier::external_body]
fn format_time(second: u32, nano: u32) -> (text: String)
    requires
        second < SECONDS_PER_DAY,
        nano < NANOS_PER_SECOND,
    ensures
        text@ == time_text(second as int, nano as int),
{
    chrono::NaiveTime::from_num_seconds_from_midnight_opt(second, nano).unwrap().to_string()
}

/// From an instant to one that is not before it, the full days are the
/// whole days; to an earlier one they are negative.
pub proof fn lemma_full_days(later: Instant, earlier: Instant)
    ensures
        !is_before(later, earlier) ==> full_days_between(later, earlier) == whole_days_between(
            later,
            earlier,
        ),
        is_before(later, earlier) <==> full_days_between(later, earlier) < 0,
{
}

/// The time between two instants on the same calendar day is less than a day,
/// and between instants `k` days apart by the calendar it is `k - 1` or `k`
/// whole days.
pub proof fn lemma_whole_days_by_calendar(later: Instant, earlier: Instant)
    requires
        valid_instant(later),
        valid_instant(earlier),
        later.day >= earlier.day,
    ensures
        later.day == earlier.day ==> whole_days_between(later, earlier) == 0,
        later.day > earlier.day ==> later.day - earlier.day - 1 <= whole_days_between(
            later,
            earlier,
        ) <= later.day - earlier.day,
        later.second == earlier.second && later.nano == earlier.nano ==> whole_days_between(
            later,
            earlier,
        ) == later.day - earlier.day,
{
    let k = later.day - earlier.day;
    let d = 86_400_000_000_000int;
    let part = (later.second - earlier.second) * 1_000_000_000 + (later.nano - earlier.nano);
    let x = nanos_of(later) - nanos_of(earlier);
    assert(x == k * d + part);
    assert(-d < part < d);
    if k == 0 {
        if x >= 0 {
            assert(x / d == 0);
        } else {
            assert((-x) / d == 0);
        }
    } else {
        assert(x >= 0);
        assert((k - 1) * d <= x < (k + 1) * d);
        assert(k - 1 <= x / d <= k) by (nonlinear_arith)
            requires
                (k - 1) * d <= x < (k + 1) * d,
                d > 0,
        ;
        if part == 0 {
            assert(x / d == k) by (nonlinear_arith)
                requires
                    x == k * d,
                    d > 0,
            ;
        }
    }
}

} // verus!
