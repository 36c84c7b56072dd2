//! The Gregorian calendar over Unix time: which date and time of day, in
//! UTC, lies a given number of seconds after the start of 1970.

use vstd::prelude::*;

verus! {

/// Seconds in a day.
pub const SECONDS_PER_DAY: u64 = 86400;

/// Days in 400 years of the Gregorian calendar.
pub const DAYS_PER_CYCLE: u64 = 146097;

/// Whether a year has a 29th of February.
pub open spec fn is_leap_year(year: int) -> bool {
    year % 4 == 0 && (year % 100 != 0 || year % 400 == 0)
}

/// The number of days of a year.
pub open spec fn days_in_year(year: int) -> int {
    if is_leap_year(year) {
        366
    } else {
        365
    }
}

/// The number of days of a month, the months counted from 1.
pub open spec fn days_in_month(year: int, month: int) -> int {
    if month == 2 {
        if is_leap_year(year) {
            29
        } else {
            28
        }
    } else if month == 4 || month == 6 || month == 9 || month == 11 {
        30
    } else {
        31
    }
}

/// The number of days from the first of January 1970 to the first of
/// January of a later year.
pub open spec fn days_before_year(year: int) -> int
    decreases year,
{
    if year <= 1970 {
        0
    } else {
        days_before_year(year - 1) + days_in_year(year - 1)
    }
}

/// The number of days from the first of January to the first of a month of
/// the same year.
pub open spec fn days_before_month(year: int, month: int) -> int
    decreases month,
{
    if month <= 1 {
        0
    } else {
        days_before_month(year, month - 1) + days_in_month(year, month - 1)
    }
}

/// A date and a time of day.
#[derive(Clone, Copy, Debug, PartialEq, Eq, Structural)]
pub struct CivilTime {
    pub year: u64,
    pub month: u8,
    pub day: u8,
    pub hour: u8,
    pub minute: u8,
    pub second: u8,
}

impl CivilTime {
    /// Whether the date exists and the time of day is one of its seconds.
    pub open spec fn is_valid(self) -> bool {
        &&& self.year >= 1970
        &&& 1 <= self.month <= 12
        &&& 1 <= self.day <= days_in_month(self.year as int, self.month as int)
        &&& self.hour < 24
        &&& self.minute < 60
        &&& self.second < 60
    }

    /// The number of days from the first of January 1970 to this date.
    pub open spec fn day_number(self) -> int {
        days_before_year(self.year as int) + days_before_month(self.year as int, self.month as int)
            + self.day - 1
    }

    /// The number of seconds from the start of 1970 to this time.
    pub open spec fn seconds(self) -> int {
        self.day_number() * 86400 + self.hour * 3600 + self.minute * 60 + self.second
    }

    /// Whether this is the date and time of day that lies the given number
    /// of seconds after the start of 1970.
    pub open spec fn is_time_of(self, seconds: int) -> bool {
        self.is_valid() && self.seconds() == seconds
    }
}

/// The date and time of day that lies the given number of seconds after the
/// start of 1970, in UTC. There is exactly one.
pub open spec fn civil_time_of(seconds: int) -> CivilTime {
    choose|t: CivilTime| t.is_time_of(seconds)
}

/// The leap years from year 1 through the given year.
spec fn leap_years_through(year: int) -> int {
    year / 4 - year / 100 + year / 400
}

proof fn lemma_leap_year_counts(year: int)
    requires
        year >= 1,
    ensures
        leap_years_through(year) - leap_years_through(year - 1) == (if is_leap_year(year) {
            1int
        } else {
            0int
        }),
{
    let a = year / 4 - (year - 1) / 4;
    let b = year / 100 - (year - 1) / 100;
    let c = year / 400 - (year - 1) / 400;
    assert(a == (if year % 4 == 0 {
        1int
    } else {
        0int
    }));
    assert(b == (if year % 100 == 0 {
        1int
    } else {
        0int
    }));
    assert(c == (if year % 400 == 0 {
        1int
    } else {
        0int
    }));
    assert(year % 100 == 0 ==> year % 4 == 0);
    assert(year % 400 == 0 ==> year % 100 == 0);
}

proof fn lemma_days_before_year_closed(year: int)
    requires
        year >= 1970,
    ensures
        days_before_year(year) == 365 * (year - 1970) + leap_years_through(year - 1) - 477,
    decreases year,
{
    if year > 1970 {
        lemma_days_before_year_closed(year - 1);
        lemma_leap_year_counts(year - 1);
    } else {
        assert(leap_years_through(1969) == 477);
    }
}

proof fn lemma_leap_years_of_cycles(cycles: int)
    requires
        cycles >= 0,
    ensures
        leap_years_through(1969 + 400 * cycles) == 477 + 97 * cycles,
{
    let year = 1969 + 400 * cycles;
    assert(year / 4 == 492 + 100 * cycles);
    assert(year / 100 == 19 + 4 * cycles);
    assert(year / 400 == 4 + cycles);
}

proof fn lemma_cycle_start(cycles: int)
    requires
        cycles >= 0,
    ensures
        days_before_year(1970 + 400 * cycles) == 146097 * cycles,
{
    lemma_days_before_year_closed(1970 + 400 * cycles);
    lemma_leap_years_of_cycles(cycles);
}

proof fn lemma_years_take_days(year: int)
    requires
        year >= 1970,
    ensures
        days_before_year(year) >= 365 * (year - 1970),
    decreases year,
{
    if year > 1970 {
        lemma_years_take_days(year - 1);
    }
}

proof fn lemma_years_grow(first: int, later: int)
    requires
        1970 <= first < later,
    ensures
        days_before_year(later) >= days_before_year(first) + days_in_year(first),
    decreases later - first,
{
    if later > first + 1 {
        lemma_years_grow(first, later - 1);
    }
}

proof fn lemma_months_grow(year: int, first: int, later: int)
    requires
        1 <= first < later,
    ensures
        days_before_month(year, later) >= days_before_month(year, first) + days_in_month(
            year,
            first,
        ),
    decreases later - first,
{
    if later > first + 1 {
        lemma_months_grow(year, first, later - 1);
    }
}

proof fn lemma_twelve_months(year: int)
    ensures
        days_before_month(year, 13) == days_in_year(year),
{
    reveal_with_fuel(days_before_month, 14);
}

proof fn lemma_months_count_up(year: int, month: int)
    requires
        1 <= month,
    ensures
        days_before_month(year, month) >= 0,
    decreases month,
{
    if month > 1 {
        lemma_months_count_up(year, month - 1);
    }
}

/// A date lies within its year.
proof fn lemma_date_within_year(t: CivilTime)
    requires
        t.is_valid(),
    ensures
        days_before_year(t.year as int) <= t.day_number() < days_before_year(t.year as int)
            + days_in_year(t.year as int),
{
    lemma_twelve_months(t.year as int);
    lemma_months_grow(t.year as int, t.month as int, 13);
    lemma_months_count_up(t.year as int, t.month as int);
}

/// A date and time of day is determined by the number of seconds that lie
/// before it.
pub proof fn lemma_civil_time_unique(a: CivilTime, b: CivilTime, seconds: int)
    requires
        a.is_time_of(seconds),
        b.is_time_of(seconds),
    ensures
        a == b,
{
    let ya = a.year as int;
    let yb = b.year as int;
    let ma = a.month as int;
    let mb = b.month as int;
    let ta = a.hour * 3600 + a.minute * 60 + a.second;
    let tb = b.hour * 3600 + b.minute * 60 + b.second;
    lemma_date_within_year(a);
    lemma_date_within_year(b);
    assert(0 <= ta < 86400 && 0 <= tb < 86400);
    assert(a.day_number() * 86400 + ta == b.day_number() * 86400 + tb);
    assert(a.day_number() == b.day_number());
    assert(ta == tb);
    assert(a.hour == b.hour);
    assert(a.minute == b.minute);
    assert(a.second == b.second);
    if ya < yb {
        lemma_years_grow(ya, yb);
        assert(false);
    } else if yb < ya {
        lemma_years_grow(yb, ya);
        assert(false);
    }
    assert(ya == yb);
    if ma < mb {
        lemma_months_grow(ya, ma, mb);
        assert(false);
    } else if mb < ma {
        lemma_months_grow(ya, mb, ma);
        assert(false);
    }
    assert(ma == mb);
    assert(a.day == b.day);
}

/// The number of days of a year.
fn year_length(year: u64) -> (days: u64)
    ensures
        days == days_in_year(year as int),
{
    if year % 4 == 0 && (year % 100 != 0 || year % 400 == 0) {
        366
    } else {
        365
    }
}

/// The number of days of a month.
fn month_length(year: u64, month: u8) -> (days: u64)
    ensures
        days == days_in_month(year as int, month as int),
{
    if month == 2 {
        if year_length(year) == 366 {
            29
        } else {
            28
        }
    } else if month == 4 || month == 6 || month == 9 || month == 11 {
        30
    } else {
        31
    }
}

/// The year in which a day lies, and which day of that year it is, both
/// counted from 0 at the start of 1970 and of the year.
fn year_of_day(days: u64) -> (found: (u64, u64))
    requires
        days <= u64::MAX / 86400,
    ensures
        found.0 >= 1970,
        days == days_before_year(found.0 as int) + found.1,
        found.1 < days_in_year(found.0 as int),
{
    let cycles = days / DAYS_PER_CYCLE;
    let mut left = days % DAYS_PER_CYCLE;
    let mut year: u64 = 1970 + 400 * cycles;
    proof {
        lemma_cycle_start(cycles as int);
    }
    while left >= year_length(year)
        invariant
            year >= 1970,
            days == days_before_year(year as int) + left,
            days <= u64::MAX / 86400,
        decreases left,
    {
        proof {
            lemma_years_take_days(year as int);
        }
        left -= year_length(year);
        year += 1;
    }
    (year, left)
}

/// The month in which a day of a year lies, and which day of that month it
/// is, the day of the year counted from 0, month and day of the month from 1.
fn month_of_day(year: u64, day_of_year: u64) -> (found: (u8, u8))
    requires
        day_of_year < days_in_year(year as int),
    ensures
        1 <= found.0 <= 12,
        1 <= found.1 <= days_in_month(year as int, found.0 as int),
        day_of_year == days_before_month(year as int, found.0 as int) + found.1 - 1,
{
    let mut left = day_of_year;
    let mut month: u8 = 1;
    proof {
        lemma_twelve_months(year as int);
    }
    while left >= month_length(year, month)
        invariant
            1 <= month <= 12,
            day_of_year == days_before_month(year as int, month as int) + left,
            day_of_year < days_in_year(year as int),
            days_before_month(year as int, 13) == days_in_year(year as int),
        decreases left,
    {
        proof {
            if month == 12 {
                assert(days_before_month(year as int, 13) == days_before_month(year as int, 12)
                    + days_in_month(year as int, 12));
            }
        }
        left -= month_length(year, month);
        month += 1;
    }
    (month, (left + 1) as u8)
}

/// The UTC date and time of day of a Unix time.
pub fn civil_time(seconds: u64) -> (t: CivilTime)
    ensures
        t.is_time_of(seconds as int),
        t == civil_time_of(seconds as int),
{
    let days = seconds / SECONDS_PER_DAY;
    let second_of_day = seconds % SECONDS_PER_DAY;
    let (year, day_of_year) = year_of_day(days);
    let (month, day) = month_of_day(year, day_of_year);
    let t = CivilTime {
        year,
        month,
        day,
        hour: (second_of_day / 3600) as u8,
        minute: (second_of_day % 3600 / 60) as u8,
        second: (second_of_day % 60) as u8,
    };
    proof {
        assert(t.day_number() == days);
        assert(t.is_time_of(seconds as int));
        lemma_civil_time_unique(t, civil_time_of(seconds as int), seconds as int);
    }
    t
}

/// One second after the last moment of the year 9999.
pub open spec fn end_of_four_digit_years() -> int {
    253402300800
}

/// Whether a date and time of day is not later than another.
pub open spec fn not_later(a: CivilTime, b: CivilTime) -> bool {
    if a.year != b.year {
        a.year < b.year
    } else if a.month != b.month {
        a.month < b.month
    } else if a.day != b.day {
        a.day < b.day
    } else if a.hour != b.hour {
        a.hour < b.hour
    } else if a.minute != b.minute {
        a.minute < b.minute
    } else {
        a.second <= b.second
    }
}

/// The year in which a day lies.
proof fn find_year(day: int, from: int) -> (year: int)
    requires
        from >= 1970,
        days_before_year(from) <= day,
    ensures
        year >= from,
        days_before_year(year) <= day < days_before_year(year) + days_in_year(year),
    decreases day - days_before_year(from),
{
    if day < days_before_year(from) + days_in_year(from) {
        from
    } else {
        find_year(day, from + 1)
    }
}

/// The month in which a day of a year lies.
proof fn find_month(year: int, day_of_year: int, from: int) -> (month: int)
    requires
        1 <= from <= 12,
        days_before_month(year, from) <= day_of_year < days_in_year(year),
    ensures
        from <= month <= 12,
        days_before_month(year, month) <= day_of_year < days_before_month(year, month)
            + days_in_month(year, month),
    decreases 13 - from,
{
    lemma_twelve_months(year);
    if day_of_year < days_before_month(year, from) + days_in_month(year, from) {
        from
    } else {
        assert(from < 12) by {
            if from == 12 {
                assert(days_before_month(year, 13) == days_before_month(year, 12) + days_in_month(
                    year,
                    12,
                ));
            }
        }
        find_month(year, day_of_year, from + 1)
    }
}

/// Every Unix time has its date and time of day.
pub proof fn lemma_civil_time_exists(seconds: int)
    requires
        0 <= seconds <= u64::MAX,
    ensures
        civil_time_of(seconds).is_time_of(seconds),
{
    let day = seconds / 86400;
    let second_of_day = seconds % 86400;
    let year = find_year(day, 1970);
    lemma_years_take_days(year);
    let day_of_year = day - days_before_year(year);
    let month = find_month(year, day_of_year, 1);
    let t = CivilTime {
        year: year as u64,
        month: month as u8,
        day: (day_of_year - days_before_month(year, month) + 1) as u8,
        hour: (second_of_day / 3600) as u8,
        minute: (second_of_day % 3600 / 60) as u8,
        second: (second_of_day % 60) as u8,
    };
    assert(t.is_time_of(seconds));
}

/// Later moments have later dates and times of day.
pub proof fn lemma_civil_time_grows(a: CivilTime, earlier: int, b: CivilTime, later: int)
    requires
        a.is_time_of(earlier),
        b.is_time_of(later),
        earlier <= later,
    ensures
        not_later(a, b),
{
    let ya = a.year as int;
    let yb = b.year as int;
    let ma = a.month as int;
    let mb = b.month as int;
    let ta = a.hour * 3600 + a.minute * 60 + a.second;
    let tb = b.hour * 3600 + b.minute * 60 + b.second;
    lemma_date_within_year(a);
    lemma_date_within_year(b);
    assert(0 <= ta < 86400 && 0 <= tb < 86400);
    assert(a.day_number() * 86400 + ta <= b.day_number() * 86400 + tb);
    assert(a.day_number() <= b.day_number());
    if yb < ya {
        lemma_years_grow(yb, ya);
        assert(false);
    }
    if ya == yb {
        if mb < ma {
            lemma_months_grow(ya, mb, ma);
            assert(false);
        }
        if ma == mb && a.day == b.day {
            assert(a.day_number() == b.day_number());
            assert(ta <= tb);
        }
    }
}

/// The moments before the year 10000 lie in years of four digits.
pub proof fn lemma_four_digit_year(t: CivilTime, seconds: int)
    requires
        t.is_time_of(seconds),
        seconds < end_of_four_digit_years(),
    ensures
        t.year <= 9999,
{
    lemma_date_within_year(t);
    lemma_days_before_year_closed(10000);
    assert(days_before_year(10000) == 2932897);
    if t.year >= 10000 {
        if t.year > 10000 {
            lemma_years_grow(10000, t.year as int);
        }
        assert(t.day_number() >= 2932897);
        assert(false);
    }
}

} // verus!
