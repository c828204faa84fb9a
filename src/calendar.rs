//! Civil dates and clock times as plain values, and the calls into `chrono`
//! that read and print them.
use chrono::{Datelike, Timelike};
use vstd::prelude::*;
use crate::numerals::{
    decimal, lemma_decimal_digits, lemma_decimal_injective, lemma_digit_injective, lemma_prefix_split,
};

verus! {

/// A calendar date of the proleptic Gregorian calendar.
#[derive(Clone, Copy, Debug, PartialEq, Eq, Structural)]
pub struct Date {
    pub year: i32,
    pub month: u32,
    pub day: u32,
}

/// A time of day, to the second.
#[derive(Clone, Copy, Debug, PartialEq, Eq, Structural)]
pub struct Time {
    pub hour: u32,
    pub minute: u32,
    pub second: u32,
}

pub open spec fn is_leap_year(y: int) -> bool {
    (y % 4 == 0 && y % 100 != 0) || y % 400 == 0
}

pub open spec fn days_in_month(y: int, m: int) -> int {
    if m == 2 {
        if is_leap_year(y) { 29 } else { 28 }
    } else if m == 4 || m == 6 || m == 9 || m == 11 {
        30
    } else {
        31
    }
}

/// Lexicographic order on (year, month, day), which is chronological order.
pub open spec fn date_before(a: Date, b: Date) -> bool {
    a.year < b.year || (a.year == b.year && (a.month < b.month || (a.month == b.month
        && a.day < b.day)))
}

impl Date {
    /// A real calendar day within the years that `chrono` represents.
    pub open spec fn wf(self) -> bool {
        &&& -262143 <= self.year <= 262142
        &&& 1 <= self.month <= 12
        &&& 1 <= self.day <= days_in_month(self.year as int, self.month as int)
    }

    /// Whether `self` is a strictly earlier day than `other`.
    pub fn is_before(&self, other: &Date) -> (r: bool)
        ensures
            r == date_before(*self, *other),
    {
        if self.year != other.year {
            self.year < other.year
        } else if self.month != other.month {
            self.month < other.month
        } else {
            self.day < other.day
        }
    }
}

/// Lexicographic order on (hour, minute, second), which is the order of
/// the day.
pub open spec fn time_before(a: Time, b: Time) -> bool {
    a.hour < b.hour || (a.hour == b.hour && (a.minute < b.minute || (a.minute == b.minute
        && a.second < b.second)))
}

impl Time {
    pub open spec fn wf(self) -> bool {
        self.hour < 24 && self.minute < 60 && self.second < 60
    }

    /// Whether `self` is strictly earlier in the day than `other`.
    pub fn is_before(&self, other: &Time) -> (r: bool)
        ensures
            r == time_before(*self, *other),
    {
        if self.hour != other.hour {
            self.hour < other.hour
        } else if self.minute != other.minute {
            self.minute < other.minute
        } else {
            self.second < other.second
        }
    }
}

/// The date with the given (year, month, day).
pub open spec fn date_of(t: (int, int, int)) -> Date {
    Date { year: t.0 as i32, month: t.1 as u32, day: t.2 as u32 }
}

/// The time with the given (hour, minute), at the full minute.
pub open spec fn clock_of(t: (int, int)) -> Time {
    Time { hour: t.0 as u32, minute: t.1 as u32, second: 0 }
}

/// What `chrono` reads from a date token with the format `%_d.%_m.%y`,
/// as (year, month, day).
pub uninterp spec fn parsed_date_of(token: Seq<char>) -> Option<(int, int, int)>;

/// What `chrono` reads from a clock token with the format `%H:%M`, as
/// (hour, minute).
pub uninterp spec fn parsed_clock_of(token: Seq<char>) -> Option<(int, int)>;

/// The decimal digit for `d` in `0..10`.
pub open spec fn digit_char(d: int) -> char {
    ((d + 48) as u8) as char
}

/// `n` in `0..100` written with two decimal digits.
pub open spec fn two_digits(n: int) -> Seq<char> {
    seq![digit_char(n / 10), digit_char(n % 10)]
}

/// A time of day written `HH:MM:SS`.
pub open spec fn clock_text(t: Time) -> Seq<char> {
    two_digits(t.hour as int) + seq![':'] + two_digits(t.minute as int) + seq![':'] + two_digits(
        t.second as int,
    )
}

/// A year as `chrono` writes it for `%Y`: four digits, zero-padded, for the
/// years 0 to 9999; otherwise a sign and at least four digits.
pub open spec fn year_text(y: int) -> Seq<char> {
    if 0 <= y <= 9999 {
        decimal(y as nat, 4)
    } else if y < 0 {
        seq!['-'] + decimal((-y) as nat, 4)
    } else {
        seq!['+'] + decimal(y as nat, 4)
    }
}

/// A date written `YYYY-MM-DD`.
pub open spec fn date_text(d: Date) -> Seq<char> {
    year_text(d.year as int) + seq!['-'] + two_digits(d.month as int) + seq!['-'] + two_digits(
        d.day as int,
    )
}

proof fn lemma_two_digits_injective(a: int, b: int)
    requires
        0 <= a < 100,
        0 <= b < 100,
        two_digits(a) == two_digits(b),
    ensures
        a == b,
{
    assert(two_digits(a)[0] == two_digits(b)[0]);
    assert(two_digits(a)[1] == two_digits(b)[1]);
    lemma_digit_injective(a / 10, b / 10);
    lemma_digit_injective(a % 10, b % 10);
}

/// Different times of day are written differently.
pub proof fn lemma_clock_text_injective(a: Time, b: Time)
    requires
        a.wf(),
        b.wf(),
        clock_text(a) == clock_text(b),
    ensures
        a == b,
{
    let (x, y) = (clock_text(a), clock_text(b));
    assert(x.subrange(0, 2) =~= two_digits(a.hour as int));
    assert(y.subrange(0, 2) =~= two_digits(b.hour as int));
    assert(x.subrange(3, 5) =~= two_digits(a.minute as int));
    assert(y.subrange(3, 5) =~= two_digits(b.minute as int));
    assert(x.subrange(6, 8) =~= two_digits(a.second as int));
    assert(y.subrange(6, 8) =~= two_digits(b.second as int));
    lemma_two_digits_injective(a.hour as int, b.hour as int);
    lemma_two_digits_injective(a.minute as int, b.minute as int);
    lemma_two_digits_injective(a.second as int, b.second as int);
}

proof fn lemma_year_text_injective(a: int, b: int)
    requires
        year_text(a) == year_text(b),
    ensures
        a == b,
{
    let (na, nb): (nat, nat) = (
        if a < 0 {
            (-a) as nat
        } else {
            a as nat
        },
        if b < 0 {
            (-b) as nat
        } else {
            b as nat
        },
    );
    lemma_decimal_digits(na, 4);
    lemma_decimal_digits(nb, 4);
    let (x, y) = (year_text(a), year_text(b));
    assert(x[0] == y[0]);
    let plain_a = 0 <= a <= 9999;
    let plain_b = 0 <= b <= 9999;
    if plain_a && plain_b {
        lemma_decimal_injective(na, nb, 4);
    } else if !plain_a && !plain_b {
        assert(x.drop_first() =~= decimal(na, 4));
        assert(y.drop_first() =~= decimal(nb, 4));
        lemma_decimal_injective(na, nb, 4);
    } else if plain_a {
        assert('0' <= x[0] <= '9');
    } else {
        assert('0' <= y[0] <= '9');
    }
}

/// Different dates are written differently.
pub proof fn lemma_date_text_injective(a: Date, b: Date)
    requires
        a.wf(),
        b.wf(),
        date_text(a) == date_text(b),
    ensures
        a == b,
{
    let tail_a = seq!['-'] + two_digits(a.month as int) + seq!['-'] + two_digits(a.day as int);
    let tail_b = seq!['-'] + two_digits(b.month as int) + seq!['-'] + two_digits(b.day as int);
    assert(date_text(a) =~= year_text(a.year as int) + tail_a);
    assert(date_text(b) =~= year_text(b.year as int) + tail_b);
    lemma_prefix_split(year_text(a.year as int), tail_a, year_text(b.year as int), tail_b);
    lemma_year_text_injective(a.year as int, b.year as int);
    assert(tail_a.subrange(1, 3) =~= two_digits(a.month as int));
    assert(tail_b.subrange(1, 3) =~= two_digits(b.month as int));
    assert(tail_a.subrange(4, 6) =~= two_digits(a.day as int));
    assert(tail_b.subrange(4, 6) =~= two_digits(b.day as int));
    lemma_two_digits_injective(a.month as int, b.month as int);
    lemma_two_digits_injective(a.day as int, b.day as int);
}

/// Relies on `chrono::NaiveDate::parse_from_str` with the format
/// `%_d.%_m.%y`: the date read from the token, if it is one. A `NaiveDate` is
/// always a valid calendar date within chrono's years.
#[verifier::external_body]
pub(crate) fn parse_date_token(token: &str) -> (r: Option<Date>)
    ensures
        match parsed_date_of(token@) {
            Some(t) => r == Some(date_of(t)),
            None => r is None,
        },
        r matches Some(d) ==> d.wf(),
{
    chrono::NaiveDate::parse_from_str(token, "%_d.%_m.%y").ok().map(
        |d| Date { year: d.year(), month: d.month(), day: d.day() },
    )
}

/// Relies on `chrono::NaiveTime::parse_from_str` with the format `%H:%M`:
/// the time read from the token, if it is one, with no seconds. A
/// `NaiveTime` has an hour below 24 and a minute below 60.
#[verifier::external_body]
pub(crate) fn parse_clock_token(token: &str) -> (r: Option<Time>)
    ensures
        match parsed_clock_of(token@) {
            Some(t) => r == Some(clock_of(t)),
            None => r is None,
        },
        r matches Some(t) ==> t.wf(),
{
    chrono::NaiveTime::parse_from_str(token, "%H:%M").ok().map(
        |t| Time { hour: t.hour(), minute: t.minute(), second: t.second() },
    )
}

/// Relies on `chrono::NaiveDate::format` with `%Y-%m-%d`: the year as
/// `%Y` writes it, then month and day zero-padded to two digits, joined by
/// dashes.
#[verifier::external_body]
pub(crate) fn format_date(d: &Date) -> (r: String)
    requires
        d.wf(),
    ensures
        r@ == date_text(*d),
{
    chrono::NaiveDate::from_ymd_opt(d.year, d.month, d.day).unwrap().format("%Y-%m-%d").to_string()
}

/// Relies on `chrono::NaiveTime::format` with `%H:%M:%S`: hour, minute and
/// second, each zero-padded to two digits, joined by colons.
#[verifier::external_body]
pub(crate) fn format_clock(t: &Time) -> (r: String)
    requires
        t.wf(),
    ensures
        r@ == clock_text(*t),
{
    chrono::NaiveTime::from_hms_opt(t.hour, t.minute, t.second).unwrap().format("%H:%M:%S").to_string()
}

} // verus!
