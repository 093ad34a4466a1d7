//! Days of the proleptic Gregorian calendar and times of day.
use chrono::Datelike;
use chrono::NaiveDate;
use chrono::NaiveDateTime;
use chrono::NaiveTime;
use chrono::Timelike;
use vstd::prelude::*;
use vstd::string::*;

use crate::decimal::{padded, push_padded};
use crate::text::{nat_text, push_nat};

verus! {

/// A day, by its number: the first of January of the year 1 is day 1.
#[derive(Clone, Copy, Debug, PartialEq, Eq, Structural)]
pub struct Date {
    pub days: i32,
}

/// A time of a day without a time zone: the day, the second of the day and the nanosecond.
#[derive(Clone, Copy, Debug, PartialEq, Eq, Structural)]
pub struct DateTime {
    pub date: Date,
    pub second: u32,
    pub nano: u32,
}

/// The first day that the calendar reaches: the first of January of the year -262143.
pub const FIRST_DAY: i32 = -95746129;

/// The last day that the calendar reaches: the last of December of the year 262142.
pub const LAST_DAY: i32 = 95745399;

/// Whether a year has a 29th of February.
pub open spec fn leap_year(year: int) -> bool {
    year % 4 == 0 && (year % 100 != 0 || year % 400 == 0)
}

/// The number of days in the years from 1 up to but not including `year`.
pub open spec fn days_before_year(year: int) -> int {
    365 * (year - 1) + (year - 1) / 4 - (year - 1) / 100 + (year - 1) / 400
}

/// The number of days in a month.
pub open spec fn month_length(year: int, month: int) -> int {
    if month == 2 {
        if leap_year(year) {
            29
        } else {
            28
        }
    } else if month == 4 || month == 6 || month == 9 || month == 11 {
        30
    } else {
        31
    }
}

/// The number of days of a year that come before a month.
pub open spec fn days_before_month(year: int, month: int) -> int
    decreases month,
{
    if month <= 1 {
        0
    } else {
        days_before_month(year, month - 1) + month_length(year, month - 1)
    }
}

/// The number of the day with a year, a month and a day of the month.
pub open spec fn day_number(year: int, month: int, day: int) -> int {
    days_before_year(year) + days_before_month(year, month) + day
}

/// A month of a year has the day.
pub open spec fn is_day(year: int, month: int, day: int) -> bool {
    1 <= month <= 12 && 1 <= day <= month_length(year, month)
}

/// The year, the month and the day of the month of a day are these.
pub open spec fn has_parts(date: Date, year: int, month: int, day: int) -> bool {
    is_day(year, month, day) && date.days == day_number(year, month, day)
}

/// The year, the month and the day of the month of a day.
pub open spec fn parts_of(date: Date) -> (int, int, int) {
    choose|p: (int, int, int)| #[trigger] has_parts(date, p.0, p.1, p.2)
}

/// The year of a day.
pub open spec fn year_of(date: Date) -> int {
    parts_of(date).0
}

/// The month of a day.
pub open spec fn month_of(date: Date) -> int {
    parts_of(date).1
}

/// The day of the month of a day.
pub open spec fn day_of(date: Date) -> int {
    parts_of(date).2
}

/// The day of the week, from 0 for Monday to 6 for Sunday.
pub open spec fn weekday_of(date: Date) -> int {
    (date.days - 1) % 7
}

/// A day that the calendar reaches.
pub open spec fn in_calendar(days: int) -> bool {
    FIRST_DAY <= days <= LAST_DAY
}

/// The day `n` days later, where the calendar reaches it.
pub open spec fn plus_days(date: Date, n: int) -> Option<Date> {
    if in_calendar(date.days + n) {
        Some(Date { days: (date.days + n) as i32 })
    } else {
        None
    }
}

/// The same day of the month `n` months later, or that month's last day where it has no such
/// day, where the calendar reaches it.
pub open spec fn plus_months(date: Date, n: int) -> Option<Date> {
    let months = year_of(date) * 12 + month_of(date) - 1 + n;
    let year = months / 12;
    let month = months % 12 + 1;
    let day = if day_of(date) > month_length(year, month) {
        month_length(year, month)
    } else {
        day_of(date)
    };
    if n == 0 {
        Some(date)
    } else if in_calendar(day_number(year, month, day)) {
        Some(Date { days: day_number(year, month, day) as i32 })
    } else {
        None
    }
}

/// One year is 365 or 366 days.
proof fn year_length(year: int)
    ensures
        days_before_year(year + 1) - days_before_year(year) == if leap_year(year) {
            366int
        } else {
            365
        },
        days_before_month(year, 13) == days_before_year(year + 1) - days_before_year(year),
{
    reveal_with_fuel(days_before_month, 14);
    assert((year - 1) / 4 + (if year % 4 == 0 {
        1int
    } else {
        0
    }) == year / 4);
    assert((year - 1) / 100 + (if year % 100 == 0 {
        1int
    } else {
        0
    }) == year / 100);
    assert((year - 1) / 400 + (if year % 400 == 0 {
        1int
    } else {
        0
    }) == year / 400);
}

/// A month's days lie within its year.
proof fn months_grow(year: int, a: int, b: int)
    requires
        1 <= a <= b <= 13,
    ensures
        0 <= days_before_month(year, a) <= days_before_month(year, b),
        a < b ==> days_before_month(year, a) + month_length(year, a) <= days_before_month(year, b),
    decreases b,
{
    if a < b {
        months_grow(year, a, b - 1);
    } else if a > 1 {
        months_grow(year, a - 1, b - 1);
    }
}

proof fn years_grow(a: int, b: int)
    requires
        a <= b,
    ensures
        days_before_year(a) <= days_before_year(b),
        a < b ==> days_before_year(a + 1) <= days_before_year(b),
    decreases b - a,
{
    if a < b {
        year_length(b - 1);
        years_grow(a, b - 1);
    }
}

/// A day has only one year, month and day of the month.
pub proof fn parts_unique(date: Date, y1: int, m1: int, d1: int, y2: int, m2: int, d2: int)
    requires
        has_parts(date, y1, m1, d1),
        has_parts(date, y2, m2, d2),
    ensures
        y1 == y2,
        m1 == m2,
        d1 == d2,
{
    year_length(y1);
    year_length(y2);
    months_grow(y1, m1, 13);
    months_grow(y2, m2, 13);
    months_grow(y1, 1, m1);
    months_grow(y2, 1, m2);
    if m1 < 13 {
        months_grow(y1, m1, m1 + 1);
    }
    if y1 < y2 {
        years_grow(y1, y2);
    } else if y2 < y1 {
        years_grow(y2, y1);
    }
    if m1 < m2 {
        months_grow(y1, m1, m2);
    } else if m2 < m1 {
        months_grow(y1, m2, m1);
    }
}

/// The parts that a day was found to have are its year, month and day of the month.
pub proof fn parts_are(date: Date, year: int, month: int, day: int)
    requires
        has_parts(date, year, month, day),
    ensures
        parts_of(date) == (year, month, day),
{
    let p = (year, month, day);
    assert(has_parts(date, p.0, p.1, p.2));
    let q = parts_of(date);
    parts_unique(date, p.0, p.1, p.2, q.0, q.1, q.2);
}

fn is_leap(year: i64) -> (r: bool)
    requires
        -1_000_000_000 <= year <= 1_000_000_000,
    ensures
        r == leap_year(year as int),
{
    let y: i64 = year + 1_000_000_000;
    proof {
        assert((year + 1_000_000_000) % 4 == year % 4);
        assert((year + 1_000_000_000) % 100 == year % 100);
        assert((year + 1_000_000_000) % 400 == year % 400);
    }
    y % 4 == 0 && (y % 100 != 0 || y % 400 == 0)
}

fn length_of_month(year: i64, month: i64) -> (r: i64)
    requires
        -1_000_000_000 <= year <= 1_000_000_000,
    ensures
        r == month_length(year as int, month as int),
        28 <= r <= 31,
{
    if month == 2 {
        if is_leap(year) {
            29
        } else {
            28
        }
    } else if month == 4 || month == 6 || month == 9 || month == 11 {
        30
    } else {
        31
    }
}

/// The number of days in the years from 1 up to but not including `year`.
fn count_before_year(year: i64) -> (r: i64)
    requires
        -400_000_000 <= year <= 400_000_000,
    ensures
        r == days_before_year(year as int),
{
    let cycles: i64 = 1_000_001;
    let y: i64 = year - 1 + 400 * cycles;
    proof {
        let z = year - 1;
        assert((z + 400 * cycles) / 4 == z / 4 + 100 * cycles);
        assert((z + 400 * cycles) / 100 == z / 100 + 4 * cycles);
        assert((z + 400 * cycles) / 400 == z / 400 + cycles);
    }
    365 * y + y / 4 - y / 100 + y / 400 - 146_097 * cycles
}

/// The year, the month and the day of the month of a day.
pub fn parts(date: Date) -> (r: (i32, u32, u32))
    ensures
        has_parts(date, r.0 as int, r.1 as int, r.2 as int),
        parts_of(date) == (r.0 as int, r.1 as int, r.2 as int),
        1 <= r.1 <= 12,
        1 <= r.2 <= 31,
        -6_000_000 <= r.0 <= 6_000_000,
{
    let days: i64 = date.days as i64;
    let shifted: i64 = days - 1 + 146_097 * 20_000;
    let cycle: i64 = shifted / 146_097;
    let mut year: i64 = (cycle - 20_000) * 400 + 1 + (shifted % 146_097) / 366;
    proof {
        assert(days_before_year((cycle - 20_000) * 400 + 1) == (cycle - 20_000) * 146_097);
        let a = (cycle - 20_000) * 400;
        let b = (shifted % 146_097) / 366;
        assert((a + b) / 4 == (cycle - 20_000) * 100 + b / 4);
        assert((a + b) / 100 == (cycle - 20_000) * 4 + b / 100);
        assert((a + b) / 400 == (cycle - 20_000) + b / 400);
        assert(days_before_year(year as int) <= (cycle - 20_000) * 146_097 + 366 * b);
    }
    while count_before_year(year + 1) < days
        invariant
            -6_000_000 <= year <= 6_000_000,
            days == date.days,
            days_before_year(year as int) < days,
        decreases 6_000_001 - year,
    {
        proof {
            year_length(year as int);
            if year >= 6_000_000 {
                assert(days_before_year(6_000_000) >= 365 * 5_999_999);
            }
        }
        year = year + 1;
    }
    let mut rest: i64 = days - count_before_year(year);
    let mut month: i64 = 1;
    proof {
        year_length(year as int);
    }
    while month < 12 && rest > length_of_month(year, month)
        invariant
            -6_000_000 <= year <= 6_000_000,
            1 <= month <= 12,
            1 <= rest,
            days == date.days,
            days == days_before_year(year as int) + days_before_month(year as int, month as int)
                + rest,
            days <= days_before_year(year + 1),
            days_before_month(year as int, 13) == days_before_year(year + 1) - days_before_year(
                year as int,
            ),
        decreases 12 - month,
    {
        rest = rest - length_of_month(year, month);
        month = month + 1;
    }
    proof {
        if month == 12 {
            assert(days_before_month(year as int, 13) == days_before_month(year as int, 12)
                + month_length(year as int, 12));
        }
        parts_are(date, year as int, month as int, rest as int);
    }
    (year as i32, month as u32, rest as u32)
}

/// The day with a year, a month and a day of the month, where there is one in the calendar.
pub open spec fn dated(year: int, month: int, day: int) -> Option<Date> {
    if is_day(year, month, day) && in_calendar(day_number(year, month, day)) {
        Some(Date { days: day_number(year, month, day) as i32 })
    } else {
        None
    }
}

/// The day with a year, a month and a day of the month.
pub fn from_ymd(year: i32, month: u32, day: u32) -> (r: Option<Date>)
    ensures
        r == dated(year as int, month as int, day as int),
{
    if year < -300_000 || year > 300_000 {
        proof {
            if year < 0 {
                years_grow(year + 1, -299_999);
                year_length(year as int);
                if is_day(year as int, month as int, day as int) {
                    months_grow(year as int, month as int, month + 1);
                    months_grow(year as int, month + 1, 13);
                }
            } else {
                years_grow(300_001, year as int);
                if is_day(year as int, month as int, day as int) {
                    months_grow(year as int, 1, month as int);
                }
            }
        }
        return None;
    }
    if month < 1 || month > 12 || day < 1 || day as i64 > length_of_month(
        year as i64,
        month as i64,
    ) {
        return None;
    }
    let mut number: i64 = count_before_year(year as i64) + day as i64;
    let mut m: i64 = 1;
    while m < month as i64
        invariant
            -300_000 <= year <= 300_000,
            1 <= m <= month <= 12,
            number == days_before_year(year as int) + days_before_month(year as int, m as int)
                + day,
            -200_000_000 <= number <= 200_000_000 + 31 * m,
        decreases month - m,
    {
        number = number + length_of_month(year as i64, m);
        m = m + 1;
    }
    if (FIRST_DAY as i64) <= number && number <= (LAST_DAY as i64) {
        Some(Date { days: number as i32 })
    } else {
        None
    }
}

impl Date {
    /// The day `n` days later.
    pub fn add_days(self, n: i64) -> (r: Option<Date>)
        ensures
            r == plus_days(self, n as int),
    {
        let number: i128 = self.days as i128 + n as i128;
        if (FIRST_DAY as i128) <= number && number <= (LAST_DAY as i128) {
            Some(Date { days: number as i32 })
        } else {
            None
        }
    }

    /// The same day of the month `n` months later, or that month's last day.
    pub fn add_months(self, n: u32) -> (r: Option<Date>)
        requires
            n <= 1200,
        ensures
            r == plus_months(self, n as int),
    {
        if n == 0 {
            return Some(self);
        }
        let (year, month, day) = parts(self);
        let months: i64 = year as i64 * 12 + month as i64 - 1 + n as i64;
        let shifted: i64 = months + 120_000_000;
        let y: i64 = shifted / 12 - 10_000_000;
        let m: i64 = shifted % 12 + 1;
        proof {
            assert(months / 12 == y);
            assert(months % 12 + 1 == m);
        }
        let longest: i64 = length_of_month(y, m);
        let d: i64 = if day as i64 > longest {
            longest
        } else {
            day as i64
        };
        from_ymd(y as i32, m as u32, d as u32)
    }

    /// The day of the week, from 0 for Monday to 6 for Sunday.
    pub fn weekday(self) -> (r: u32)
        ensures
            r == weekday_of(self),
            r < 7,
    {
        let shifted: i64 = self.days as i64 - 1 + 7_000_000_000;
        proof {
            assert((self.days - 1 + 7_000_000_000) % 7 == (self.days - 1) % 7);
        }
        (shifted % 7) as u32
    }

    /// Whether this day comes before another.
    pub fn before(self, other: Date) -> (r: bool)
        ensures
            r == (self.days < other.days),
    {
        self.days < other.days
    }
}

impl DateTime {
    /// A time of a day of the calendar. Only the last second of a minute can be a leap second,
    /// which has more than a thousand million nanoseconds.
    pub open spec fn wf(self) -> bool {
        &&& in_calendar(self.date.days as int)
        &&& self.second < 86400
        &&& self.nano < 1_000_000_000 || (self.nano < 2_000_000_000 && self.second % 60 == 59)
    }

    /// The time as a text in the notation of RFC 3339.
    pub open spec fn rfc3339(self) -> Seq<char> {
        rfc3339_text(self.date.days as int, self.second as int, self.nano as int)
    }

    /// A number that orders times as they follow each other.
    pub open spec fn key(self) -> int {
        self.date.days * 0x1_0000_0000_0000_0000 + self.second * 0x1_0000_0000 + self.nano
    }

    /// A number that orders times as they follow each other.
    pub fn sort_key(self) -> (r: i128)
        ensures
            r == self.key(),
    {
        self.date.days as i128 * 0x1_0000_0000_0000_0000 + self.second as i128 * 0x1_0000_0000
            + self.nano as i128
    }

    /// Whether this time comes before another.
    pub fn before(self, other: DateTime) -> (r: bool)
        ensures
            r == (self.key() < other.key()),
    {
        self.sort_key() < other.sort_key()
    }

    /// The same time `n` days later.
    pub fn add_days(self, n: i64) -> (r: Option<DateTime>)
        ensures
            r == later_by_days(self, n as int),
    {
        match self.date.add_days(n) {
            Some(date) => Some(DateTime { date, second: self.second, nano: self.nano }),
            None => None,
        }
    }

    /// The same time `n` months later.
    pub fn add_months(self, n: u32) -> (r: Option<DateTime>)
        requires
            n <= 1200,
        ensures
            r == later_by_months(self, n as int),
    {
        match self.date.add_months(n) {
            Some(date) => Some(DateTime { date, second: self.second, nano: self.nano }),
            None => None,
        }
    }

    /// The hour of the day.
    pub fn hour(self) -> (r: u32)
        ensures
            r == self.second / 3600,
    {
        self.second / 3600
    }
}

/// The same time of the day `n` days later.
pub open spec fn later_by_days(time: DateTime, n: int) -> Option<DateTime> {
    match plus_days(time.date, n) {
        Some(date) => Some(DateTime { date, second: time.second, nano: time.nano }),
        None => None,
    }
}

/// The same time of the day `n` months later.
pub open spec fn later_by_months(time: DateTime, n: int) -> Option<DateTime> {
    match plus_months(time.date, n) {
        Some(date) => Some(DateTime { date, second: time.second, nano: time.nano }),
        None => None,
    }
}

/// Times with the same number are the same time.
pub proof fn key_injective(a: DateTime, b: DateTime)
    requires
        a.key() == b.key(),
    ensures
        a == b,
{
    let big = 0x1_0000_0000_0000_0000int;
    let half = 0x1_0000_0000int;
    let x = a.second * half + a.nano;
    let y = b.second * half + b.nano;
    assert(0 <= x < big && 0 <= y < big);
    assert(a.date.days * big + x == b.date.days * big + y);
    assert(a.date.days == b.date.days);
    assert(a.second == b.second);
}

/// The first of a later month comes after the last of an earlier one.
proof fn months_in_order(y1: int, m1: int, y2: int, m2: int)
    requires
        1 <= m1 <= 12,
        1 <= m2 <= 12,
        y1 * 12 + m1 < y2 * 12 + m2,
    ensures
        day_number(y1, m1, month_length(y1, m1)) < day_number(y2, m2, 1),
{
    if y1 == y2 {
        months_grow(y1, m1, m2);
    } else {
        months_grow(y1, m1, 13);
        months_grow(y2, 1, m2);
        year_length(y1);
        years_grow(y1, y2);
    }
}

/// So many months later is later.
pub proof fn months_later(date: Date, n: int)
    requires
        1 <= n,
        plus_months(date, n) is Some,
    ensures
        plus_months(date, n)->0.days > date.days,
{
    parts_exist(date);
    let (year, month, day) = parts_of(date);
    let months = year * 12 + month - 1 + n;
    let y = months / 12;
    let m = months % 12 + 1;
    months_in_order(year, month, y, m);
}

/// A day of a month, or the last day of the month where it is shorter.
pub open spec fn day_within(year: int, month: int, day: int) -> int {
    if day <= month_length(year, month) {
        day
    } else {
        month_length(year, month)
    }
}

/// One month on is the calendar month right after that of a day, on the same day of the month or on
/// the last day of a shorter month: 28 to 31 days later.
pub proof fn one_month_on(date: Date, year: int, month: int, day: int)
    requires
        has_parts(date, year, month, day),
        plus_months(date, 1) is Some,
    ensures
        month < 12 ==> has_parts(
            plus_months(date, 1)->0,
            year,
            month + 1,
            day_within(year, month + 1, day),
        ),
        month == 12 ==> has_parts(plus_months(date, 1)->0, year + 1, 1, day),
        28 <= plus_months(date, 1)->0.days - date.days <= 31,
{
    parts_are(date, year, month, day);
    year_length(year);
    assert(days_before_month(year, month + 1) == days_before_month(year, month) + month_length(
        year,
        month,
    ));
    assert(days_before_month(year + 1, 1) == 0);
}

/// Three months on is the calendar month three after that of a day, on the same day of the month or
/// on the last day of a shorter month: 89 to 92 days later.
pub proof fn three_months_on(date: Date, year: int, month: int, day: int)
    requires
        has_parts(date, year, month, day),
        plus_months(date, 3) is Some,
    ensures
        month <= 9 ==> has_parts(
            plus_months(date, 3)->0,
            year,
            month + 3,
            day_within(year, month + 3, day),
        ),
        month > 9 ==> has_parts(
            plus_months(date, 3)->0,
            year + 1,
            month - 9,
            day_within(year + 1, month - 9, day),
        ),
        89 <= plus_months(date, 3)->0.days - date.days <= 92,
{
    parts_are(date, year, month, day);
    year_length(year);
    reveal_with_fuel(days_before_month, 4);
    if month > 9 {
        assert(days_before_month(year, 13) == days_before_month(year, 12) + 31);
        assert(days_before_month(year, 12) == days_before_month(year, 11) + 30);
        assert(days_before_month(year, 11) == days_before_month(year, 10) + 31);
    }
}

/// Twelve months on is the same calendar month of the next year, on the same day of the month or on
/// the last day of a shorter month: 365 or 366 days later.
pub proof fn twelve_months_on(date: Date, year: int, month: int, day: int)
    requires
        has_parts(date, year, month, day),
        plus_months(date, 12) is Some,
    ensures
        has_parts(plus_months(date, 12)->0, year + 1, month, day_within(year + 1, month, day)),
        365 <= plus_months(date, 12)->0.days - date.days <= 366,
{
    parts_are(date, year, month, day);
    year_length(year);
    reveal_with_fuel(days_before_month, 13);
    assert(!(leap_year(year) && leap_year(year + 1)));
}

/// Every day has a year, a month and a day of the month.
pub proof fn parts_exist(date: Date)
    ensures
        has_parts(date, year_of(date), month_of(date), day_of(date)),
{
    assert(date.days <= days_before_year(6_000_001));
    let year = year_found(date, 6_000_000);
    year_length(year);
    months_exist(date, year, 12);
}

/// Some year begins before a day and does not end before it.
proof fn year_found(date: Date, year: int) -> (r: int)
    requires
        -6_000_000 <= year <= 6_000_000,
        date.days <= days_before_year(year + 1),
    ensures
        days_before_year(r) < date.days <= days_before_year(r + 1),
    decreases year + 6_000_000,
{
    if days_before_year(year) < date.days {
        year
    } else if year > -6_000_000 {
        year_found(date, year - 1)
    } else {
        year
    }
}

/// Some month of a year holds a day of the year.
proof fn months_exist(date: Date, year: int, month: int)
    requires
        1 <= month <= 12,
        days_before_year(year) < date.days <= days_before_year(year) + days_before_month(
            year,
            month + 1,
        ),
    ensures
        has_parts(date, year_of(date), month_of(date), day_of(date)),
    decreases month,
{
    let before = days_before_year(year) + days_before_month(year, month);
    if before < date.days {
        parts_are(date, year, month, date.days - before);
    } else {
        months_exist(date, year, month - 1);
    }
}

/// A year in four digits, or in more with a sign.
pub open spec fn year_text(year: int) -> Seq<char> {
    if 0 <= year <= 9999 {
        padded(year, 4)
    } else if year < 0 {
        seq!['-'] + (if year >= -9999 {
            padded(-year, 4)
        } else {
            nat_text(-year)
        })
    } else {
        seq!['+'] + nat_text(year)
    }
}

/// A day as year, month and day of the month, each after the first with a separator before it.
pub open spec fn date_text(date: Date) -> Seq<char> {
    year_text(year_of(date)) + seq!['-'] + padded(month_of(date), 2) + seq!['-'] + padded(
        day_of(date),
        2,
    )
}

/// A day as month and day of the month.
pub open spec fn month_day_text(date: Date) -> Seq<char> {
    padded(month_of(date), 2) + seq!['-'] + padded(day_of(date), 2)
}

/// A month as year and month.
pub open spec fn year_month_text(date: Date) -> Seq<char> {
    year_text(year_of(date)) + seq!['-'] + padded(month_of(date), 2)
}

/// A time as its day, hour and minute.
pub open spec fn time_text(time: DateTime) -> Seq<char> {
    date_text(time.date) + seq!['T'] + padded(time.second as int / 3600, 2) + seq![':'] + padded(
        time.second as int / 60 % 60,
        2,
    )
}

/// Appends a year.
pub fn push_year(s: &mut String, year: i32)
    ensures
        final(s)@ == old(s)@ + year_text(year as int),
{
    if 0 <= year && year <= 9999 {
        push_padded(s, year as u128, 4);
    } else if year < 0 {
        s.push('-');
        let size: u128 = (-(year as i64)) as u128;
        if year >= -9999 {
            push_padded(s, size, 4);
        } else {
            push_nat(s, size);
        }
    } else {
        s.push('+');
        push_nat(s, year as u128);
    }
    proof {
        assert(s@ =~= old(s)@ + year_text(year as int));
    }
}

/// Writes a day as year, month and day of the month.
pub fn date_to_text(date: Date) -> (r: String)
    ensures
        r@ == date_text(date),
{
    let (year, month, day) = parts(date);
    let mut s = String::new();
    push_year(&mut s, year);
    s.push('-');
    push_padded(&mut s, month as u128, 2);
    s.push('-');
    push_padded(&mut s, day as u128, 2);
    proof {
        assert(s@ =~= date_text(date));
    }
    s
}

/// Writes a day as month and day of the month.
pub fn month_day_to_text(date: Date) -> (r: String)
    ensures
        r@ == month_day_text(date),
{
    let (_year, month, day) = parts(date);
    let mut s = String::new();
    push_padded(&mut s, month as u128, 2);
    s.push('-');
    push_padded(&mut s, day as u128, 2);
    proof {
        assert(s@ =~= month_day_text(date));
    }
    s
}

/// Writes a month as year and month.
pub fn year_month_to_text(date: Date) -> (r: String)
    ensures
        r@ == year_month_text(date),
{
    let (year, month, _day) = parts(date);
    let mut s = String::new();
    push_year(&mut s, year);
    s.push('-');
    push_padded(&mut s, month as u128, 2);
    proof {
        assert(s@ =~= year_month_text(date));
    }
    s
}

/// Writes a time as its day, hour and minute.
pub fn time_to_text(time: DateTime) -> (r: String)
    ensures
        r@ == time_text(time),
{
    let mut s = date_to_text(time.date);
    s.push('T');
    push_padded(&mut s, (time.second / 3600) as u128, 2);
    s.push(':');
    push_padded(&mut s, (time.second / 60 % 60) as u128, 2);
    proof {
        assert(s@ =~= time_text(time));
    }
    s
}

/// The number of the day that a text denotes under a format, where it denotes one.
pub uninterp spec fn date_of_text(text: Seq<char>, format: Seq<char>) -> Option<int>;

/// The number of the day, the second of the day and the nanosecond that a text denotes under a
/// format, where it denotes a time.
pub uninterp spec fn time_of_text(text: Seq<char>, format: Seq<char>) -> Option<(int, int, int)>;

/// `NaiveDate::parse_from_str`: the day that a text denotes under a format of the crate's own
/// notation. Every day that it gives lies in the calendar.
#[verifier::external_body]
pub(crate) fn parse_date(text: &str, format: &str) -> (r: Option<Date>)
    ensures
        match r {
            Some(date) => date_of_text(text@, format@) == Some(date.days as int) && in_calendar(
                date.days as int,
            ),
            None => date_of_text(text@, format@) is None,
        },
{
    NaiveDate::parse_from_str(text, format).ok().map(|d| Date { days: d.num_days_from_ce() })
}

/// `NaiveDateTime::parse_from_str`: the time that a text denotes under a format of the crate's
/// own notation. Every day that it gives lies in the calendar.
#[verifier::external_body]
pub(crate) fn parse_time(text: &str, format: &str) -> (r: Option<DateTime>)
    ensures
        match r {
            Some(time) => time_of_text(text@, format@) == Some(
                (time.date.days as int, time.second as int, time.nano as int),
            ) && in_calendar(time.date.days as int) && time.second < 86400,
            None => time_of_text(text@, format@) is None,
        },
{
    NaiveDateTime::parse_from_str(text, format).ok().map(|t| DateTime {
        date: Date { days: t.num_days_from_ce() },
        second: t.num_seconds_from_midnight(),
        nano: t.nanosecond(),
    })
}

/// The number of the day, the second of the day and the nanosecond in universal time that a text
/// in the notation of RFC 3339 denotes, where it denotes a time.
pub uninterp spec fn rfc3339_time(text: Seq<char>) -> Option<(int, int, int)>;

/// `chrono::DateTime::parse_from_rfc3339`: the time in universal time that a text in the notation
/// of RFC 3339 denotes. The year in the text has four digits and the offset is less than a day, so
/// the day lies in the years 0 to 9999 or right beside them.
#[verifier::external_body]
pub(crate) fn parse_rfc3339(text: &str) -> (r: Option<DateTime>)
    ensures
        match r {
            Some(time) => rfc3339_time(text@) == Some(
                (time.date.days as int, time.second as int, time.nano as int),
            ) && -366 <= time.date.days <= 3652060 && time.second < 86400,
            None => rfc3339_time(text@) is None,
        },
{
    chrono::DateTime::parse_from_rfc3339(text).ok().map(|t| t.naive_utc()).map(|t| DateTime {
        date: Date { days: t.num_days_from_ce() },
        second: t.num_seconds_from_midnight(),
        nano: t.nanosecond(),
    })
}

/// The text that denotes a time in universal time in the notation of RFC 3339, by the number of the
/// day, the second of the day and the nanosecond.
pub uninterp spec fn rfc3339_text(day: int, second: int, nano: int) -> Seq<char>;

/// `chrono::DateTime::to_rfc3339`: a function of the time. The time has to be one that the crate
/// can hold.
#[verifier::external_body]
pub(crate) fn write_rfc3339(time: DateTime) -> (r: String)
    requires
        time.wf(),
    ensures
        r@ == rfc3339_text(time.date.days as int, time.second as int, time.nano as int),
{
    let day = NaiveDate::from_num_days_from_ce_opt(time.date.days).unwrap();
    let clock = NaiveTime::from_num_seconds_from_midnight_opt(time.second, time.nano).unwrap();
    day.and_time(clock).and_utc().to_rfc3339()
}

/// The number of the day and the second of the day in Shanghai at a second of a day in universal
/// time.
pub uninterp spec fn shanghai_time(day: int, second: int) -> (int, int);

/// `chrono::DateTime::with_timezone` with `chrono_tz::Asia::Shanghai`: the time there at a time in
/// universal time, which is at most a day away.
#[verifier::external_body]
pub(crate) fn in_shanghai(date: Date, second: u32) -> (r: (Date, u32))
    requires
        in_calendar(date.days - 1),
        in_calendar(date.days + 1),
        second < 86400,
    ensures
        shanghai_time(date.days as int, second as int) == (r.0.days as int, r.1 as int),
        r.1 < 86400,
        date.days - 1 <= r.0.days <= date.days + 1,
{
    let day = NaiveDate::from_num_days_from_ce_opt(date.days).unwrap();
    let time = NaiveTime::from_num_seconds_from_midnight_opt(second, 0).unwrap();
    let there = day.and_time(time).and_utc().with_timezone(&chrono_tz::Asia::Shanghai);
    let local = there.naive_local();
    (Date { days: local.num_days_from_ce() }, local.num_seconds_from_midnight())
}

/// The day that a text denotes as year, month and day of the month, white space around it aside.
pub open spec fn day_of_text(text: Seq<char>) -> Option<Date> {
    match date_of_text(crate::text::trimmed(text), "%Y-%m-%d"@) {
        Some(days) => Some(Date { days: days as i32 }),
        None => None,
    }
}

/// The time that a text denotes as day, hour and minute, white space around it aside.
pub open spec fn minute_of_text(text: Seq<char>) -> Option<DateTime> {
    match time_of_text(crate::text::trimmed(text), "%Y-%m-%dT%H:%M"@) {
        Some(t) => Some(
            DateTime { date: Date { days: t.0 as i32 }, second: t.1 as u32, nano: t.2 as u32 },
        ),
        None => None,
    }
}

/// Reads a day written as year, month and day of the month.
pub fn parse_day(text: &str) -> (r: Option<Date>)
    ensures
        r == day_of_text(text@),
        r is Some ==> in_calendar(r->0.days as int),
{
    parse_date(text.trim(), "%Y-%m-%d")
}

/// Reads a time written as day, hour and minute.
pub fn parse_minute(text: &str) -> (r: Option<DateTime>)
    ensures
        r == minute_of_text(text@),
        r is Some ==> in_calendar(r->0.date.days as int),
{
    parse_time(text.trim(), "%Y-%m-%dT%H:%M")
}

} // verus!
