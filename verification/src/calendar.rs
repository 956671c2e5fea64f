//! Dates and times of day on the proleptic Gregorian calendar, without a time zone.

use crate::text::digit_str;
use vstd::prelude::*;

verus! {

/// How a day is written.
pub const DATE_FORMAT_DAY: &'static str = "%Y-%m-%d";

/// How a time of day is written in the configuration.
pub const TIME_FORMAT_MINUTE: &'static str = "%H:%M";

/// The first year of which a day can be held.
pub const FIRST_YEAR: i32 = -262143;

/// The last year of which a day can be held.
pub const LAST_YEAR: i32 = 262142;

/// A day of the calendar.
#[derive(Clone, Copy, Debug, PartialEq, Eq, Structural)]
pub struct Date {
    pub year: i32,
    /// From 1 for January to 12 for December.
    pub month: u32,
    /// From 1.
    pub day: u32,
}

/// A time of day.
#[derive(Clone, Copy, Debug, PartialEq, Eq, Structural)]
pub struct Time {
    /// Whole seconds since midnight.
    pub seconds: u32,
    /// Nanoseconds into that second. A leap second counts on past a billion.
    pub nanos: u32,
}

/// A time on a day.
#[derive(Clone, Copy, Debug, PartialEq, Eq, Structural)]
pub struct DateTime {
    pub date: Date,
    pub time: Time,
}

/// Whether `year` has a 29th of February.
pub open spec fn is_leap_year(year: int) -> bool {
    year % 4 == 0 && (year % 100 != 0 || year % 400 == 0)
}

/// The number of days of `month` in `year`.
pub open spec fn days_in_month(year: int, month: int) -> int {
    if month == 2 {
        if is_leap_year(year) {
            29
        } else {
            28
        }
    } else if month == 4 || month == 6 || month == 9 || month == 11 {
        30
    } else {
        31
    }
}

/// The number of days of `year` that lie before `month`.
pub open spec fn days_before_month(year: int, month: int) -> int
    decreases month,
{
    if month <= 1 {
        0
    } else {
        days_before_month(year, month - 1) + days_in_month(year, month - 1)
    }
}

/// The number of days from the 1st of January of year 1 to that of `year`.
pub open spec fn days_before_year(year: int) -> int {
    365 * (year - 1) + (year - 1) / 4 - (year - 1) / 100 + (year - 1) / 400
}

/// The number of the earliest day that can be held.
pub open spec fn first_day_number() -> int {
    days_before_year(FIRST_YEAR as int) + 1
}

/// The number of the latest day that can be held.
pub open spec fn last_day_number() -> int {
    days_before_year(LAST_YEAR + 1)
}

impl Date {
    /// Whether this is a day of the calendar, of a year that can be held.
    pub open spec fn valid(self) -> bool {
        &&& FIRST_YEAR <= self.year <= LAST_YEAR
        &&& 1 <= self.month <= 12
        &&& 1 <= self.day <= days_in_month(self.year as int, self.month as int)
    }

    /// The number of this day, counted from the 1st of January of year 1, which is day 1.
    pub open spec fn day_number(self) -> int {
        days_before_year(self.year as int) + days_before_month(self.year as int, self.month as int)
            + self.day
    }

    /// Whether this day comes before `other` on the calendar.
    pub open spec fn precedes(self, other: Date) -> bool {
        ||| self.year < other.year
        ||| self.year == other.year && self.month < other.month
        ||| self.year == other.year && self.month == other.month && self.day < other.day
    }
}

impl Time {
    /// Whether this is a time of day. Only the last second of a minute can be a leap second.
    pub open spec fn valid(self) -> bool {
        &&& self.seconds < 86400
        &&& self.nanos < 2_000_000_000
        &&& self.nanos >= 1_000_000_000 ==> self.seconds % 60 == 59
    }

    /// Whether this time comes before `other` on the same day.
    pub open spec fn precedes(self, other: Time) -> bool {
        self.seconds < other.seconds || (self.seconds == other.seconds && self.nanos < other.nanos)
    }

    /// Tells whether this time comes before `other` on the same day.
    pub fn is_before(&self, other: &Time) -> (before: bool)
        ensures
            before == self.precedes(*other),
            self.seconds < other.seconds ==> before,
            self.seconds > other.seconds ==> !before,
            self.seconds == other.seconds ==> before == (self.nanos < other.nanos),
    {
        self.seconds < other.seconds || (self.seconds == other.seconds && self.nanos < other.nanos)
    }
}

impl DateTime {
    /// Whether day and time of day are valid.
    pub open spec fn valid(self) -> bool {
        self.date.valid() && self.time.valid()
    }

    /// Whether this moment comes before `other`.
    pub open spec fn precedes(self, other: DateTime) -> bool {
        self.date.precedes(other.date) || (self.date == other.date && self.time.precedes(
            other.time,
        ))
    }

    /// Tells whether this moment comes before `other`.
    pub fn is_before(&self, other: &DateTime) -> (before: bool)
        ensures
            before == self.precedes(*other),
            self.date.year < other.date.year ==> before,
            self.date.year > other.date.year ==> !before,
            self.date.year == other.date.year && self.date.month < other.date.month ==> before,
            self.date.year == other.date.year && self.date.month > other.date.month ==> !before,
            self.date.year == other.date.year && self.date.month == other.date.month
                && self.date.day < other.date.day ==> before,
            self.date.year == other.date.year && self.date.month == other.date.month
                && self.date.day > other.date.day ==> !before,
            self.date == other.date ==> before == (self.time.seconds < other.time.seconds || (
            self.time.seconds == other.time.seconds && self.time.nanos < other.time.nanos)),
            self.date.valid() && other.date.valid() && self.date != other.date ==> before == (
            self.date.day_number() < other.date.day_number()),
    {
        proof {
            if self.date.valid() && other.date.valid() {
                law_day_numbers_follow_calendar(self.date, other.date);
            }
        }
        if self.date.year != other.date.year {
            self.date.year < other.date.year
        } else if self.date.month != other.date.month {
            self.date.month < other.date.month
        } else if self.date.day != other.date.day {
            self.date.day < other.date.day
        } else {
            self.time.is_before(&other.time)
        }
    }
}

/// From one number to the next a quotient grows by one at the multiples of the divisor.
proof fn lemma_quotient_grows(n: int, d: int)
    requires
        d > 0,
    ensures
        n / d - (n - 1) / d == if n % d == 0 {
            1int
        } else {
            0int
        },
{
    let q = n / d;
    vstd::arithmetic::div_mod::lemma_fundamental_div_mod(n, d);
    vstd::arithmetic::mul::lemma_mul_is_commutative(d, q);
    vstd::arithmetic::div_mod::lemma_mod_bound(n, d);
    if n % d == 0 {
        vstd::arithmetic::mul::lemma_mul_is_distributive_sub_other_way(d, q, 1);
        vstd::arithmetic::div_mod::lemma_fundamental_div_mod_converse(n - 1, d, q - 1, d - 1);
    } else {
        vstd::arithmetic::div_mod::lemma_fundamental_div_mod_converse(n - 1, d, q, n % d - 1);
    }
}

/// A multiple of `400` is one of `100`, and that is one of `4`.
proof fn lemma_centuries(year: int)
    ensures
        year % 400 == 0 ==> year % 100 == 0,
        year % 100 == 0 ==> year % 4 == 0,
{
}

/// A year is as long as its months together.
proof fn lemma_year_length(year: int)
    ensures
        days_before_year(year + 1) - days_before_year(year) == days_before_month(year, 12)
            + days_in_month(year, 12),
{
    lemma_quotient_grows(year, 4);
    lemma_quotient_grows(year, 100);
    lemma_quotient_grows(year, 400);
    lemma_centuries(year);
    lemma_months(year);
}

/// What lies before each month, and that the months of a year add up to its length.
proof fn lemma_months(year: int)
    ensures
        forall|m: int, n: int|
            1 <= m < n <= 12 ==> #[trigger] days_before_month(year, m) + days_in_month(year, m)
                <= #[trigger] days_before_month(year, n),
        forall|m: int| 1 <= m <= 12 ==> 0 <= #[trigger] days_before_month(year, m),
        forall|m: int|
            1 <= m <= 12 ==> #[trigger] days_before_month(year, m) + days_in_month(year, m)
                <= days_before_month(year, 12) + 31,
        days_before_month(year, 12) == if is_leap_year(year) {
            335int
        } else {
            334int
        },
{
    reveal_with_fuel(days_before_month, 13);
}

proof fn lemma_years(a: int, b: int)
    requires
        a < b,
    ensures
        days_before_year(a) + days_before_month(a, 12) + 31 <= days_before_year(b),
    decreases b - a,
{
    lemma_year_length(b - 1);
    lemma_months(b - 1);
    if a + 1 < b {
        lemma_years(a, b - 1);
    }
}

proof fn lemma_earlier_day_has_smaller_number(a: Date, b: Date)
    requires
        a.valid(),
        b.valid(),
        a.precedes(b),
    ensures
        a.day_number() < b.day_number(),
{
    lemma_months(a.year as int);
    lemma_months(b.year as int);
    if a.year < b.year {
        lemma_years(a.year as int, b.year as int);
    }
}

/// Days are numbered in the order of the calendar, and no two days share a number.
pub proof fn law_day_numbers_follow_calendar(a: Date, b: Date)
    requires
        a.valid(),
        b.valid(),
    ensures
        a.precedes(b) <==> a.day_number() < b.day_number(),
        a == b <==> a.day_number() == b.day_number(),
{
    if a.precedes(b) {
        lemma_earlier_day_has_smaller_number(a, b);
    } else if b.precedes(a) {
        lemma_earlier_day_has_smaller_number(b, a);
    } else {
        assert(a == b);
    }
}

/// Every day that can be held has a number between the first and the last one.
pub proof fn law_day_numbers_are_bounded(d: Date)
    requires
        d.valid(),
    ensures
        first_day_number() <= d.day_number() <= last_day_number(),
{
    lemma_months(d.year as int);
    lemma_year_length(d.year as int);
    if FIRST_YEAR < d.year {
        lemma_years(FIRST_YEAR as int, d.year as int);
        lemma_months(FIRST_YEAR as int);
    }
    if d.year < LAST_YEAR {
        lemma_years(d.year + 1, LAST_YEAR + 1);
        lemma_months(d.year + 1);
    }
}

/// A number below a hundred, written with two digits.
pub open spec fn two_digits(n: nat) -> Seq<char> {
    seq![crate::text::digit(n / 10), crate::text::digit(n % 10)]
}

/// Whether year, month and day of `d` fit into `YYYY-MM-DD`.
pub open spec fn fits_day_text(d: Date) -> bool {
    0 <= d.year <= 9999 && d.month <= 99 && d.day <= 99
}

/// Year, month and day written as `YYYY-MM-DD`, whether or not the calendar has that day.
pub open spec fn day_text(d: Date) -> Seq<char> {
    two_digits(d.year as nat / 100) + two_digits(d.year as nat % 100) + "-"@ + two_digits(
        d.month as nat,
    ) + "-"@ + two_digits(d.day as nat)
}

/// Hour and minute written as `HH:MM`, whether or not a day has that minute.
pub open spec fn clock_text(hour: nat, minute: nat) -> Seq<char> {
    two_digits(hour) + ":"@ + two_digits(minute)
}

/// No two dates are written alike.
pub proof fn law_day_texts_differ(a: Date, b: Date)
    requires
        fits_day_text(a),
        fits_day_text(b),
        day_text(a) == day_text(b),
    ensures
        a == b,
{
    reveal_strlit("-");
    let s = day_text(a);
    assert(forall|i: int| 0 <= i < 10 ==> s[i] == day_text(b)[i]);
    assert(s[0] == crate::text::digit(a.year as nat / 100 / 10));
    assert(s[1] == crate::text::digit(a.year as nat / 100 % 10));
    assert(s[2] == crate::text::digit(a.year as nat % 100 / 10));
    assert(s[3] == crate::text::digit(a.year as nat % 100 % 10));
    assert(s[5] == crate::text::digit(a.month as nat / 10));
    assert(s[6] == crate::text::digit(a.month as nat % 10));
    assert(s[8] == crate::text::digit(a.day as nat / 10));
    assert(s[9] == crate::text::digit(a.day as nat % 10));
}

/// No two times of day are written alike.
pub proof fn law_clock_texts_differ(hour: nat, minute: nat, other_hour: nat, other_minute: nat)
    requires
        hour <= 99 && minute <= 99 && other_hour <= 99 && other_minute <= 99,
        clock_text(hour, minute) == clock_text(other_hour, other_minute),
    ensures
        hour == other_hour && minute == other_minute,
{
    reveal_strlit(":");
    let s = clock_text(hour, minute);
    assert(s[0] == crate::text::digit(hour / 10));
    assert(s[1] == crate::text::digit(hour % 10));
    assert(s[3] == crate::text::digit(minute / 10));
    assert(s[4] == crate::text::digit(minute % 10));
}

/// What has to be read from a text with the year, month and day of `d`: that day, if the
/// calendar has it.
pub open spec fn day_reading(d: Date) -> Result<Date, Seq<char>> {
    if d.valid() {
        Ok(d)
    } else {
        Err("input is out of range"@)
    }
}

/// What has to be read from a text with that hour and minute: that time, if a day has it.
pub open spec fn clock_reading(hour: nat, minute: nat) -> Result<Time, Seq<char>> {
    if hour < 24 && minute < 60 {
        Ok(Time { seconds: (hour * 3600 + minute * 60) as u32, nanos: 0 })
    } else {
        Err("input is out of range"@)
    }
}

/// Whether `reading` is right for `input` where `input` has the shape `YYYY-MM-DD`.
pub open spec fn reads_days(input: Seq<char>, reading: Result<Date, Seq<char>>) -> bool {
    forall|d: Date|
        fits_day_text(d) && input == #[trigger] day_text(d) ==> reading == day_reading(d)
}

/// Whether `reading` is right for `input` where `input` has the shape `HH:MM`.
pub open spec fn reads_clocks(input: Seq<char>, reading: Result<Time, Seq<char>>) -> bool {
    forall|hour: nat, minute: nat|
        hour <= 99 && minute <= 99 && input == #[trigger] clock_text(hour, minute) ==> reading
            == clock_reading(hour, minute)
}

/// The error for a day that is not written as `YYYY-MM-DD`.
pub const OTHER_FORM: &'static str = "input is not of the form YYYY-MM-DD";

/// Whether `input` has the shape `YYYY-MM-DD`.
pub open spec fn is_day_text(input: Seq<char>) -> bool {
    exists|d: Date| fits_day_text(d) && input == #[trigger] day_text(d)
}

/// Whether `input` is a day of the calendar, written as `YYYY-MM-DD`.
pub open spec fn names_day(input: Seq<char>) -> bool {
    exists|d: Date| fits_day_text(d) && d.valid() && input == #[trigger] day_text(d)
}

/// What has been read from `input`, unless it is a day that is written otherwise there.
pub open spec fn written_reading(
    input: Seq<char>,
    read: Result<Date, Seq<char>>,
) -> Result<Date, Seq<char>> {
    match read {
        Ok(d) => if fits_day_text(d) && input == day_text(d) {
            Ok(d)
        } else {
            Err(OTHER_FORM@)
        },
        Err(text) => Err(text),
    }
}

/// What `chrono::NaiveDate::parse_from_str` reads from `input` written as `format` says: the
/// day, or the text of the error.
pub uninterp spec fn date_read(input: Seq<char>, format: Seq<char>) -> Result<Date, Seq<char>>;

/// What `chrono::NaiveTime::parse_from_str` reads from `input` written as `format` says: the
/// time, or the text of the error.
pub uninterp spec fn time_read(input: Seq<char>, format: Seq<char>) -> Result<Time, Seq<char>>;

/// Calls `chrono::NaiveDate::parse_from_str`. Trusted: what it returns depends on the two
/// arguments alone, a day that it returns is a valid one, and a text of the shape `YYYY-MM-DD`
/// is read as that day if there is one and rejected as out of range if not. What it makes of
/// texts of another shape, and of other formats, is left to it.
#[verifier::external_body]
fn read_date(input: &str, format: &str) -> (r: Result<Date, String>)
    ensures
        crate::text::text_result(r) == date_read(input@, format@),
        r matches Ok(date) ==> date.valid(),
        format@ == DATE_FORMAT_DAY@ ==> reads_days(input@, crate::text::text_result(r)),
{
    match chrono::NaiveDate::parse_from_str(input, format) {
        Ok(d) => Ok(
            Date {
                year: chrono::Datelike::year(&d),
                month: chrono::Datelike::month(&d),
                day: chrono::Datelike::day(&d),
            },
        ),
        Err(e) => Err(e.to_string()),
    }
}

/// Calls `chrono::NaiveTime::parse_from_str`. Trusted: what it returns depends on the two
/// arguments alone, a time that it returns is a valid one, and a text of the shape `HH:MM` is
/// read as that time if there is one and rejected as out of range if not. What it makes of
/// texts of another shape, and of other formats, is left to it.
#[verifier::external_body]
fn read_time(input: &str, format: &str) -> (r: Result<Time, String>)
    ensures
        crate::text::text_result(r) == time_read(input@, format@),
        r matches Ok(time) ==> time.valid(),
        format@ == TIME_FORMAT_MINUTE@ ==> reads_clocks(input@, crate::text::text_result(r)),
{
    match chrono::NaiveTime::parse_from_str(input, format) {
        Ok(t) => Ok(
            Time {
                seconds: chrono::Timelike::num_seconds_from_midnight(&t),
                nanos: chrono::Timelike::nanosecond(&t),
            },
        ),
        Err(e) => Err(e.to_string()),
    }
}

/// Calls `chrono::NaiveDate::checked_add_signed` with `chrono::Duration::hours(hours)`.
/// Trusted: it goes forward by the whole days that are in `hours`, and returns nothing exactly
/// where that day cannot be held.
#[verifier::external_body]
pub(crate) fn date_plus_hours(date: Date, hours: i64) -> (r: Option<Date>)
    requires
        date.valid(),
        0 <= hours <= u32::MAX,
    ensures
        r is Some <==> date.day_number() + hours / 24 <= last_day_number(),
        r matches Some(d) ==> d.valid() && d.day_number() == date.day_number() + hours / 24,
{
    let start = chrono::NaiveDate::from_ymd_opt(date.year, date.month, date.day)?;
    let end = start.checked_add_signed(chrono::Duration::hours(hours))?;
    Some(
        Date {
            year: chrono::Datelike::year(&end),
            month: chrono::Datelike::month(&end),
            day: chrono::Datelike::day(&end),
        },
    )
}

/// Calls `chrono::NaiveDate::checked_sub_signed` with `chrono::Duration::days(days)`. Trusted:
/// it goes back by that many days, and returns nothing exactly where that day cannot be held.
#[verifier::external_body]
pub(crate) fn date_minus_days(date: Date, days: u32) -> (r: Option<Date>)
    requires
        date.valid(),
    ensures
        r is Some <==> first_day_number() <= date.day_number() - days,
        r matches Some(d) ==> d.valid() && d.day_number() == date.day_number() - days,
{
    let start = chrono::NaiveDate::from_ymd_opt(date.year, date.month, date.day)?;
    let end = start.checked_sub_signed(chrono::Duration::days(i64::from(days)))?;
    Some(
        Date {
            year: chrono::Datelike::year(&end),
            month: chrono::Datelike::month(&end),
            day: chrono::Datelike::day(&end),
        },
    )
}

/// Reads a day that is written as `YYYY-MM-DD`. Some other ways to write it, such as a year with
/// two digits, are read too: `as_written` tells them apart.
pub fn parse_day(input: &str) -> (r: Result<Date, String>)
    ensures
        crate::text::text_result(r) == date_read(input@, DATE_FORMAT_DAY@),
        r matches Ok(date) ==> date_read(input@, "%Y-%m-%d"@) == Ok::<Date, Seq<char>>(date),
        r matches Err(why) ==> date_read(input@, "%Y-%m-%d"@) == Err::<Date, Seq<char>>(why@),
        r matches Ok(date) ==> date.valid(),
        reads_days(input@, crate::text::text_result(r)),
{
    read_date(input, DATE_FORMAT_DAY)
}

/// Writes a number below a hundred with two digits.
fn append_two_digits(s: &mut String, n: u32)
    requires
        n < 100,
    ensures
        final(s)@ == old(s)@ + two_digits(n as nat),
{
    s.append(digit_str((n / 10) as u64));
    s.append(digit_str((n % 10) as u64));
    assert(s@ =~= old(s)@ + two_digits(n as nat));
}

/// Writes `d` as `YYYY-MM-DD`.
fn write_day(d: &Date) -> (s: String)
    requires
        fits_day_text(*d),
    ensures
        s@ == day_text(*d),
{
    let year: u32 = d.year as u32;
    let mut s = String::new();
    append_two_digits(&mut s, year / 100);
    append_two_digits(&mut s, year % 100);
    s.append("-");
    append_two_digits(&mut s, d.month);
    s.append("-");
    append_two_digits(&mut s, d.day);
    assert(s@ =~= day_text(*d));
    s
}

/// Keeps what has been read from `input`, but rejects a day that is not written as `YYYY-MM-DD`.
pub fn as_written(input: &String, read: Result<Date, String>) -> (r: Result<Date, String>)
    ensures
        crate::text::text_result(r) == written_reading(
            input@,
            crate::text::text_result(read),
        ),
        read matches Err(why) ==> r == Err::<Date, String>(why),
        read matches Ok(d) ==> if 0 <= d.year <= 9999 && d.month <= 99 && d.day <= 99 && input@
            == day_text(d) {
            r == Ok::<Date, String>(d)
        } else {
            r matches Err(e) && e@ == "input is not of the form YYYY-MM-DD"@
        },
{
    match read {
        Ok(d) => {
            if 0 <= d.year && d.year <= 9999 && d.month <= 99 && d.day <= 99 && write_day(&d)
                == *input {
                Ok(d)
            } else {
                Err(OTHER_FORM.to_owned())
            }
        },
        Err(e) => Err(e),
    }
}

/// Reads a time of day that is written as `HH:MM`.
pub fn parse_clock(input: &str) -> (r: Result<Time, String>)
    ensures
        crate::text::text_result(r) == time_read(input@, TIME_FORMAT_MINUTE@),
        r matches Ok(time) ==> time_read(input@, "%H:%M"@) == Ok::<Time, Seq<char>>(time),
        r matches Err(why) ==> time_read(input@, "%H:%M"@) == Err::<Time, Seq<char>>(why@),
        r matches Ok(time) ==> time.valid(),
        reads_clocks(input@, crate::text::text_result(r)),
{
    read_time(input, TIME_FORMAT_MINUTE)
}

/// Of two times of day one comes before the other unless they are the same, the earlier second
/// first and the earlier nanosecond within a second.
pub proof fn law_times_are_ordered(a: Time, b: Time)
    ensures
        a.seconds < b.seconds ==> a.precedes(b),
        a.seconds == b.seconds && a.nanos < b.nanos ==> a.precedes(b),
        a.precedes(b) ==> !b.precedes(a) && a != b,
        a.precedes(b) || b.precedes(a) || a == b,
{
}

/// Of two moments one comes before the other unless they are the same, the earlier day first and
/// the earlier time within a day.
pub proof fn law_moments_are_ordered(a: DateTime, b: DateTime)
    requires
        a.date.valid(),
        b.date.valid(),
    ensures
        a.date.day_number() < b.date.day_number() ==> a.precedes(b),
        a.date == b.date && a.time.precedes(b.time) ==> a.precedes(b),
        a.precedes(b) ==> !b.precedes(a) && a != b,
        a.precedes(b) || b.precedes(a) || a == b,
{
    law_day_numbers_follow_calendar(a.date, b.date);
    law_day_numbers_follow_calendar(b.date, a.date);
}

/// April, June, September and November have 30 days, February has 28 or 29, and the other months
/// have 31. Every fourth year is a leap year, except for the centuries that 400 does not divide.
pub proof fn law_months_have_their_days(year: int)
    ensures
        days_in_month(year, 1) == 31 && days_in_month(year, 3) == 31 && days_in_month(year, 4)
            == 30,
        days_in_month(year, 5) == 31 && days_in_month(year, 6) == 30 && days_in_month(year, 7)
            == 31,
        days_in_month(year, 8) == 31 && days_in_month(year, 9) == 30 && days_in_month(year, 10)
            == 31,
        days_in_month(year, 11) == 30 && days_in_month(year, 12) == 31,
        year % 400 == 0 ==> days_in_month(year, 2) == 29,
        year % 100 == 0 && year % 400 != 0 ==> days_in_month(year, 2) == 28,
        year % 4 == 0 && year % 100 != 0 ==> days_in_month(year, 2) == 29,
        year % 4 != 0 ==> days_in_month(year, 2) == 28,
{
    lemma_centuries(year);
}

/// The day after a day has the next number: the next day of the month, the first of the next
/// month after the last, and the 1st of January after the 31st of December.
pub proof fn law_next_day_has_next_number(a: Date, b: Date)
    requires
        a.valid(),
        b.valid(),
        ({
            ||| a.year == b.year && a.month == b.month && a.day + 1 == b.day
            ||| a.year == b.year && a.month + 1 == b.month && b.day == 1 && a.day
                == days_in_month(a.year as int, a.month as int)
            ||| a.year + 1 == b.year && a.month == 12 && a.day == 31 && b.month == 1 && b.day == 1
        }),
    ensures
        b.day_number() == a.day_number() + 1,
{
    lemma_year_length(a.year as int);
    reveal_with_fuel(days_before_month, 2);
}

/// The text of a day has four digits for the year, two for the month and two for the day, with
/// a hyphen in between, and each of the three reads back.
pub proof fn law_day_text_reads_back(d: Date)
    requires
        0 <= d.year <= 9999 && d.month <= 99 && d.day <= 99,
    ensures
        fits_day_text(d),
        day_text(d).len() == 10,
        day_text(d)[4] == '-' && day_text(d)[7] == '-',
        forall|i: int|
            0 <= i < 10 && i != 4 && i != 7 ==> '0' <= #[trigger] day_text(d)[i] <= '9',
        crate::text::decimal_value(day_text(d).take(4)) == d.year,
        crate::text::decimal_value(day_text(d).subrange(5, 7)) == d.month,
        crate::text::decimal_value(day_text(d).skip(8)) == d.day,
{
    reveal_strlit("-");
    let s = day_text(d);
    let high = two_digits(d.year as nat / 100);
    let low = two_digits(d.year as nat % 100);
    let month = two_digits(d.month as nat);
    let day = two_digits(d.day as nat);
    lemma_two_digits(d.year as nat / 100);
    lemma_two_digits(d.year as nat % 100);
    lemma_two_digits(d.month as nat);
    lemma_two_digits(d.day as nat);
    lemma_four_digits(d.year as nat / 100, d.year as nat % 100);
    assert(s.take(4) =~= high + low);
    assert(s.subrange(5, 7) =~= month);
    assert(s.skip(8) =~= day);
    assert(s[0] == high[0] && s[1] == high[1] && s[2] == low[0] && s[3] == low[1]);
    assert(s[5] == month[0] && s[6] == month[1] && s[8] == day[0] && s[9] == day[1]);
}

/// The text of a time of day has two digits for the hour and two for the minute, with a colon in
/// between, and both read back.
pub proof fn law_clock_text_reads_back(hour: nat, minute: nat)
    requires
        hour <= 99 && minute <= 99,
    ensures
        clock_text(hour, minute).len() == 5,
        clock_text(hour, minute)[2] == ':',
        crate::text::decimal_value(clock_text(hour, minute).take(2)) == hour,
        crate::text::decimal_value(clock_text(hour, minute).skip(3)) == minute,
{
    reveal_strlit(":");
    lemma_two_digits(hour);
    lemma_two_digits(minute);
    assert(clock_text(hour, minute).take(2) =~= two_digits(hour));
    assert(clock_text(hour, minute).skip(3) =~= two_digits(minute));
}

proof fn lemma_two_digits(n: nat)
    requires
        n < 100,
    ensures
        two_digits(n).len() == 2,
        crate::text::decimal_value(two_digits(n)) == n,
        '0' <= two_digits(n)[0] <= '9' && '0' <= two_digits(n)[1] <= '9',
{
    reveal_with_fuel(crate::text::decimal_value, 3);
    let s = two_digits(n);
    assert(s.drop_last().drop_last() =~= Seq::empty());
    assert(s.drop_last().last() == s[0]);
}

proof fn lemma_four_digits(high: nat, low: nat)
    requires
        high < 100,
        low < 100,
    ensures
        crate::text::decimal_value(two_digits(high) + two_digits(low)) == high * 100 + low,
{
    let s = two_digits(high) + two_digits(low);
    lemma_two_digits(high);
    lemma_two_digits(low);
    reveal_with_fuel(crate::text::decimal_value, 3);
    assert(s.drop_last().drop_last() =~= two_digits(high));
    assert(s.last() == two_digits(low)[1]);
    assert(s.drop_last().last() == two_digits(low)[0]);
    assert(two_digits(low).drop_last().drop_last() =~= Seq::empty());
    assert(two_digits(low).drop_last().last() == two_digits(low)[0]);
}

/// The first day that can be held is the 1st of January of the first year, and the last one is
/// the 31st of December of the last year.
pub proof fn law_first_and_last_day(first: Date, last: Date)
    requires
        first.year == -262143 && first.month == 1 && first.day == 1,
        last.year == 262142 && last.month == 12 && last.day == 31,
    ensures
        first.valid() && first.day_number() == first_day_number(),
        last.valid() && last.day_number() == last_day_number(),
{
    lemma_year_length(last.year as int);
    reveal_with_fuel(days_before_month, 2);
}

/// A text of the right shape is read as what it says if the calendar or the clock has that, and
/// rejected as out of range if not.
pub proof fn law_readings_are_literal(d: Date, hour: nat, minute: nat)
    ensures
        d.valid() ==> day_reading(d) == Ok::<Date, Seq<char>>(d),
        !d.valid() ==> day_reading(d) == Err::<Date, Seq<char>>("input is out of range"@),
        hour < 24 && minute < 60 ==> (clock_reading(hour, minute) matches Ok(time) && time.seconds
            == hour * 3600 + minute * 60 && time.nanos == 0),
        !(hour < 24 && minute < 60) ==> clock_reading(hour, minute) == Err::<Time, Seq<char>>(
            "input is out of range"@,
        ),
{
}

} // verus!
