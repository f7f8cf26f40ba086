//! Proleptic Gregorian calendar dates and wall-clock date-times, with the same
//! range as the date-times that chrono parses, their order, day arithmetic and
//! the textual form chrono prints for them.
use vstd::prelude::*;
use crate::text::{padded_decimal, push_char, push_padded_decimal};

verus! {

/// The earliest year a date may have.
pub const MIN_YEAR: i32 = -262143;

/// The latest year a date may have.
pub const MAX_YEAR: i32 = 262142;

pub open spec fn is_leap_year(y: int) -> bool {
    y % 4 == 0 && (y % 100 != 0 || y % 400 == 0)
}

pub open spec fn days_in_month(y: int, m: int) -> int {
    if m == 2 {
        if is_leap_year(y) {
            29
        } else {
            28
        }
    } else if m == 4 || m == 6 || m == 9 || m == 11 {
        30
    } else {
        31
    }
}

pub open spec fn valid_date(y: int, m: int, d: int) -> bool {
    &&& MIN_YEAR <= y <= MAX_YEAR
    &&& 1 <= m <= 12
    &&& 1 <= d <= days_in_month(y, m)
}

/// Days from 0000-01-01 to the first day of year `y`.
pub open spec fn days_before_year(y: int) -> int {
    365 * y + (y + 3) / 4 - (y + 99) / 100 + (y + 399) / 400
}

/// Days from the first day of year `y` to the first day of month `m` of it.
pub open spec fn days_before_month(y: int, m: int) -> int
    decreases m,
{
    if m <= 1 {
        0
    } else {
        days_before_month(y, m - 1) + days_in_month(y, m - 1)
    }
}

/// A calendar date (year, month 1-12, day of month).
#[derive(Clone, Copy, Debug, PartialEq, Eq, Structural)]
pub struct CivilDate {
    pub year: i32,
    pub month: u32,
    pub day: u32,
}

/// A date with a wall-clock time of day, without time zone.
#[derive(Clone, Copy, Debug, PartialEq, Eq, Structural)]
pub struct CivilDateTime {
    pub date: CivilDate,
    pub hour: u32,
    pub minute: u32,
    pub second: u32,
}

impl CivilDate {
    pub open spec fn wf(self) -> bool {
        valid_date(self.year as int, self.month as int, self.day as int)
    }

    /// Days since 0000-01-01 (negative before it).
    pub open spec fn day_number(self) -> int {
        days_before_year(self.year as int) + days_before_month(self.year as int, self.month as int)
            + self.day - 1
    }

    /// The last date in range, 262142-12-31.
    pub open spec fn is_last(self) -> bool {
        self.year == MAX_YEAR && self.month == 12 && self.day == 31
    }
}

impl CivilDateTime {
    pub open spec fn wf(self) -> bool {
        &&& self.date.wf()
        &&& self.hour < 24
        &&& self.minute < 60
        &&& self.second < 60
    }

    pub open spec fn second_of_day(self) -> int {
        self.hour * 3600 + self.minute * 60 + self.second
    }

    /// Seconds since 0000-01-01 00:00:00 (negative before it).
    pub open spec fn instant(self) -> int {
        self.date.day_number() * 86400 + self.second_of_day()
    }
}

/// A year has 365 days, 366 when it is a leap year.
pub proof fn lemma_year_length(y: int)
    ensures
        days_before_year(y + 1) == days_before_year(y) + 365 + (if is_leap_year(y) { 1int } else { 0int }),
{
    assert((y + 4) / 4 == (y + 3) / 4 + (if y % 4 == 0 { 1int } else { 0int }));
    assert((y + 100) / 100 == (y + 99) / 100 + (if y % 100 == 0 { 1int } else { 0int }));
    assert((y + 400) / 400 == (y + 399) / 400 + (if y % 400 == 0 { 1int } else { 0int }));
    assert(y % 400 == 0 ==> y % 100 == 0 && y % 4 == 0);
    assert(y % 100 == 0 ==> y % 4 == 0);
}

/// The months of a year add up to the length of the year.
pub proof fn lemma_months_fill_year(y: int)
    ensures
        days_before_month(y, 12) + 31 == 365 + (if is_leap_year(y) { 1int } else { 0int }),
{
    reveal_with_fuel(days_before_month, 12);
}

/// Months start in increasing order.
pub proof fn lemma_month_starts_increase(y: int, m1: int, m2: int)
    requires
        1 <= m1 < m2 <= 12,
    ensures
        days_before_month(y, m1) + days_in_month(y, m1) <= days_before_month(y, m2),
    decreases m2,
{
    if m2 > m1 + 1 {
        lemma_month_starts_increase(y, m1, m2 - 1);
    }
}

/// A valid date lies inside its year.
pub proof fn lemma_day_within_year(d: CivilDate)
    requires
        d.wf(),
    ensures
        days_before_year(d.year as int) <= d.day_number() < days_before_year(d.year + 1),
{
    lemma_year_length(d.year as int);
    lemma_months_fill_year(d.year as int);
    if d.month < 12 {
        lemma_month_starts_increase(d.year as int, d.month as int, 12);
    }
    if d.month > 1 {
        lemma_month_starts_increase(d.year as int, 1, d.month as int);
    }
}

/// Years start in increasing order.
pub proof fn lemma_year_starts_increase(y1: int, y2: int)
    requires
        y1 < y2,
    ensures
        days_before_year(y1 + 1) <= days_before_year(y2),
    decreases y2 - y1,
{
    if y1 + 1 < y2 {
        lemma_year_starts_increase(y1, y2 - 1);
        lemma_year_length(y2 - 1);
    }
}


/// Dates in lexicographic (year, month, day) order are in day-number order.
pub proof fn lemma_day_number_order(a: CivilDate, b: CivilDate)
    requires
        a.wf(),
        b.wf(),
    ensures
        a.day_number() < b.day_number() <==> (a.year < b.year || (a.year == b.year && a.month
            < b.month) || (a.year == b.year && a.month == b.month && a.day < b.day)),
        a.day_number() == b.day_number() <==> a == b,
{
    lemma_day_within_year(a);
    lemma_day_within_year(b);
    if a.year < b.year {
        lemma_year_starts_increase(a.year as int, b.year as int);
    } else if b.year < a.year {
        lemma_year_starts_increase(b.year as int, a.year as int);
    } else if a.month < b.month {
        lemma_month_starts_increase(a.year as int, a.month as int, b.month as int);
    } else if b.month < a.month {
        lemma_month_starts_increase(a.year as int, b.month as int, a.month as int);
    }
}

/// Date-times in lexicographic order are in instant order.
pub proof fn lemma_instant_order(a: CivilDateTime, b: CivilDateTime)
    requires
        a.wf(),
        b.wf(),
    ensures
        a.date.day_number() < b.date.day_number() ==> a.instant() < b.instant(),
        a.date.day_number() == b.date.day_number() ==> (a.instant() < b.instant()
            <==> a.second_of_day() < b.second_of_day()),
        a.instant() == b.instant() <==> a == b,
        0 <= a.second_of_day() < 86400,
{
    lemma_day_number_order(a.date, b.date);
}

/// The hour and the second within the hour of a date-time's instant.
pub proof fn lemma_hour_split(t: CivilDateTime)
    requires
        t.wf(),
    ensures
        t.instant() / 3600 == t.date.day_number() * 24 + t.hour,
        t.instant() % 3600 == t.minute * 60 + t.second,
        t.instant() / 86400 == t.date.day_number(),
        t.instant() % 86400 == t.second_of_day(),
{
    let q = t.date.day_number() * 24 + t.hour;
    assert(t.instant() == q * 3600 + (t.minute * 60 + t.second));
    vstd::arithmetic::div_mod::lemma_fundamental_div_mod_converse(
        t.instant(),
        3600,
        q,
        t.minute * 60 + t.second,
    );
    vstd::arithmetic::div_mod::lemma_fundamental_div_mod_converse(
        t.instant(),
        86400,
        t.date.day_number(),
        t.second_of_day(),
    );
}

/// Is `y` a leap year?
pub fn is_leap(y: i32) -> (r: bool)
    requires
        MIN_YEAR <= y,
    ensures
        r == is_leap_year(y as int),
{
    // Shifting by a multiple of 400 keeps every remainder the rule looks at.
    let shifted: u32 = (y as i64 + 262400) as u32;
    proof {
        vstd::arithmetic::div_mod::lemma_mod_multiples_vanish(65600, y as int, 4);
        vstd::arithmetic::div_mod::lemma_mod_multiples_vanish(2624, y as int, 100);
        vstd::arithmetic::div_mod::lemma_mod_multiples_vanish(656, y as int, 400);
    }
    shifted % 4 == 0 && (shifted % 100 != 0 || shifted % 400 == 0)
}

/// The number of days of month `m` of year `y`.
pub fn month_length(y: i32, m: u32) -> (r: u32)
    requires
        MIN_YEAR <= y,
    ensures
        r == days_in_month(y as int, m as int),
{
    if m == 2 {
        if is_leap(y) {
            29
        } else {
            28
        }
    } else if m == 4 || m == 6 || m == 9 || m == 11 {
        30
    } else {
        31
    }
}

impl CivilDate {
    /// The date with the given year, month and day, if it exists in range.
    pub fn from_ymd_opt(year: i32, month: u32, day: u32) -> (r: Option<CivilDate>)
        ensures
            r is Some <==> valid_date(year as int, month as int, day as int),
            r matches Some(d) ==> d.year == year && d.month == month && d.day == day,
    {
        if MIN_YEAR <= year && year <= MAX_YEAR && 1 <= month && month <= 12 && 1 <= day
            && day <= month_length(year, month) {
            Some(CivilDate { year, month, day })
        } else {
            None
        }
    }

    /// The next calendar date; `None` for the last date in range.
    pub fn succ_opt(&self) -> (r: Option<CivilDate>)
        requires
            self.wf(),
        ensures
            r is None <==> self.is_last(),
            r matches Some(n) ==> n.wf() && n.day_number() == self.day_number() + 1,
    {
        if self.day < month_length(self.year, self.month) {
            Some(CivilDate { year: self.year, month: self.month, day: self.day + 1 })
        } else if self.month < 12 {
            let n = CivilDate { year: self.year, month: self.month + 1, day: 1 };
            assert(days_before_month(n.year as int, n.month as int) == days_before_month(
                self.year as int,
                self.month as int,
            ) + days_in_month(self.year as int, self.month as int));
            Some(n)
        } else if self.year < MAX_YEAR {
            let n = CivilDate { year: self.year + 1, month: 1, day: 1 };
            proof {
                lemma_year_length(self.year as int);
                lemma_months_fill_year(self.year as int);
            }
            Some(n)
        } else {
            None
        }
    }

    /// Does `self` come strictly before `other`?
    pub fn lt(&self, other: &CivilDate) -> (r: bool)
        requires
            self.wf(),
            other.wf(),
        ensures
            r == (self.day_number() < other.day_number()),
    {
        proof {
            lemma_day_number_order(*self, *other);
        }
        self.year < other.year || (self.year == other.year && self.month < other.month) || (
        self.year == other.year && self.month == other.month && self.day < other.day)
    }

    /// The given time of day on this date, if it is a valid time.
    pub fn and_hms_opt(&self, hour: u32, minute: u32, second: u32) -> (r: Option<CivilDateTime>)
        ensures
            r is Some <==> hour < 24 && minute < 60 && second < 60,
            r matches Some(t) ==> t.date == *self && t.hour == hour && t.minute == minute
                && t.second == second,
    {
        if hour < 24 && minute < 60 && second < 60 {
            Some(CivilDateTime { date: *self, hour, minute, second })
        } else {
            None
        }
    }
}

impl CivilDateTime {
    /// Does `self` come strictly before `other`?
    pub fn lt(&self, other: &CivilDateTime) -> (r: bool)
        requires
            self.wf(),
            other.wf(),
        ensures
            r == (self.instant() < other.instant()),
    {
        proof {
            lemma_instant_order(*self, *other);
            lemma_day_number_order(self.date, other.date);
        }
        if self.date.lt(&other.date) {
            true
        } else if other.date.lt(&self.date) {
            false
        } else {
            self.hour < other.hour || (self.hour == other.hour && self.minute < other.minute) || (
            self.hour == other.hour && self.minute == other.minute && self.second < other.second)
        }
    }

    /// The first second of this date-time's hour.
    pub fn hour_start(&self) -> (r: CivilDateTime)
        requires
            self.wf(),
        ensures
            r.wf(),
            r.instant() == self.instant() - self.instant() % 3600,
            r == (CivilDateTime { date: self.date, hour: self.hour, minute: 0, second: 0 }),
    {
        proof {
            lemma_hour_split(*self);
        }
        CivilDateTime { date: self.date, hour: self.hour, minute: 0, second: 0 }
    }

    /// The last second of this date-time's hour.
    pub fn hour_end(&self) -> (r: CivilDateTime)
        requires
            self.wf(),
        ensures
            r.wf(),
            r.instant() == self.instant() - self.instant() % 3600 + 3599,
            r == (CivilDateTime { date: self.date, hour: self.hour, minute: 59, second: 59 }),
    {
        proof {
            lemma_hour_split(*self);
        }
        CivilDateTime { date: self.date, hour: self.hour, minute: 59, second: 59 }
    }

    /// One hour later; `None` when that leaves the range of dates.
    pub fn add_one_hour(&self) -> (r: Option<CivilDateTime>)
        requires
            self.wf(),
        ensures
            r is None <==> (self.date.is_last() && self.hour == 23),
            r matches Some(n) ==> n.wf() && n.instant() == self.instant() + 3600,
    {
        if self.hour < 23 {
            Some(CivilDateTime { date: self.date, hour: self.hour + 1, minute: self.minute, second: self.second })
        } else {
            match self.date.succ_opt() {
                Some(next) => Some(CivilDateTime { date: next, hour: 0, minute: self.minute, second: self.second }),
                None => None,
            }
        }
    }
}

/// A year as chrono prints it: four digits within 0..=9999, otherwise a sign
/// and at least four digits.
pub open spec fn year_text(y: int) -> Seq<char> {
    if 0 <= y <= 9999 {
        padded_decimal(y as nat, 4)
    } else if y < 0 {
        seq!['-'] + padded_decimal((-y) as nat, 4)
    } else {
        seq!['+'] + padded_decimal(y as nat, 4)
    }
}

/// Two-digit field, as in `06`.
pub open spec fn two_digits(n: nat) -> Seq<char> {
    padded_decimal(n, 2)
}

/// `YYYY-MM-DD`.
pub open spec fn date_text(d: CivilDate) -> Seq<char> {
    year_text(d.year as int) + seq!['-'] + two_digits(d.month as nat) + seq!['-'] + two_digits(
        d.day as nat,
    )
}

/// `YYYY-MM-DD HH:MM:SS`, the form chrono's `Display` gives a naive date-time.
pub open spec fn datetime_text(t: CivilDateTime) -> Seq<char> {
    date_text(t.date) + seq![' '] + two_digits(t.hour as nat) + seq![':'] + two_digits(
        t.minute as nat,
    ) + seq![':'] + two_digits(t.second as nat)
}

/// `YYYY-MM-DD-HH`, the `%Y-%m-%d-%H` stamp that names hourly and daily files.
pub open spec fn hour_stamp_text(t: CivilDateTime) -> Seq<char> {
    date_text(t.date) + seq!['-'] + two_digits(t.hour as nat)
}

/// Appends the year as chrono prints it.
pub fn push_year(s: &mut String, y: i32)
    ensures
        final(s)@ == old(s)@ + year_text(y as int),
{
    if 0 <= y && y <= 9999 {
        push_padded_decimal(s, y as u128, 4);
    } else if y < 0 {
        push_char(s, '-');
        let a: i64 = -(y as i64);
        push_padded_decimal(s, a as u128, 4);
        assert(s@ =~= old(s)@ + year_text(y as int));
    } else {
        push_char(s, '+');
        push_padded_decimal(s, y as u128, 4);
        assert(s@ =~= old(s)@ + year_text(y as int));
    }
}

impl CivilDate {
    /// Appends `YYYY-MM-DD`.
    pub fn push_text(&self, s: &mut String)
        ensures
            final(s)@ == old(s)@ + date_text(*self),
    {
        push_year(s, self.year);
        push_char(s, '-');
        push_padded_decimal(s, self.month as u128, 2);
        push_char(s, '-');
        push_padded_decimal(s, self.day as u128, 2);
        assert(s@ =~= old(s)@ + date_text(*self));
    }
}

impl CivilDateTime {
    /// Appends `YYYY-MM-DD HH:MM:SS`.
    pub fn push_text(&self, s: &mut String)
        ensures
            final(s)@ == old(s)@ + datetime_text(*self),
    {
        self.date.push_text(s);
        push_char(s, ' ');
        push_padded_decimal(s, self.hour as u128, 2);
        push_char(s, ':');
        push_padded_decimal(s, self.minute as u128, 2);
        push_char(s, ':');
        push_padded_decimal(s, self.second as u128, 2);
        assert(s@ =~= old(s)@ + datetime_text(*self));
    }

    /// `YYYY-MM-DD HH:MM:SS`, as chrono displays a naive date-time.
    pub fn to_text(&self) -> (r: String)
        ensures
            r@ == datetime_text(*self),
    {
        let mut s = String::new();
        self.push_text(&mut s);
        assert(s@ =~= datetime_text(*self));
        s
    }

    /// Appends the `%Y-%m-%d-%H` stamp.
    pub fn push_hour_stamp(&self, s: &mut String)
        ensures
            final(s)@ == old(s)@ + hour_stamp_text(*self),
    {
        self.date.push_text(s);
        push_char(s, '-');
        push_padded_decimal(s, self.hour as u128, 2);
        assert(s@ =~= old(s)@ + hour_stamp_text(*self));
    }
}

} // verus!
