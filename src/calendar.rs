//! UTC calendar time: the fields of a Unix timestamp in the proleptic
//! Gregorian calendar, and their text in segment names.
use chrono::{Datelike, Timelike};
use vstd::prelude::*;

use crate::decimal::{
    all_digits, decimal, is_digit, lemma_decimal_digits, lemma_padded_injective, lemma_padded_value,
    lemma_two_digits, padded, padded_decimal, write_decimal,
};

verus! {

/// Earliest timestamp (0001-01-01T00:00:00Z) whose conversion is promised.
pub const MIN_TIMESTAMP: i64 = -62_135_596_800;

/// Latest timestamp (9999-12-31T23:59:59Z) whose conversion is promised.
pub const MAX_TIMESTAMP: i64 = 253_402_300_799;

/// Whether `y` is a leap year.
pub open spec fn is_leap(y: int) -> bool {
    (y % 4 == 0 && y % 100 != 0) || y % 400 == 0
}

/// Days in month `m` (1..=12) of year `y`.
pub open spec fn days_in_month(y: int, m: int) -> int {
    if m == 2 {
        if is_leap(y) {
            29
        } else {
            28
        }
    } else if m == 4 || m == 6 || m == 9 || m == 11 {
        30
    } else {
        31
    }
}

/// Leap years in 1..=y (counted the same way below zero).
pub open spec fn leaps_through(y: int) -> int {
    y / 4 - y / 100 + y / 400
}

/// Days from 1970-01-01 to January 1 of year `y`.
pub open spec fn days_before_year(y: int) -> int {
    365 * (y - 1970) + leaps_through(y - 1) - leaps_through(1969)
}

/// Days from January 1 to the first of month `m` in year `y`.
pub open spec fn days_before_month(y: int, m: int) -> int {
    seq![0int, 31, 59, 90, 120, 151, 181, 212, 243, 273, 304, 334][m - 1] + if m > 2 && is_leap(y) {
        1int
    } else {
        0int
    }
}

/// The day number of a date: days since 1970-01-01.
pub open spec fn days_from_civil(y: int, m: int, d: int) -> int {
    days_before_year(y) + days_before_month(y, m) + d - 1
}

/// The calendar fields of a UTC time, as mathematical integers.
pub struct CivilTime {
    pub year: int,
    pub month: int,
    pub day: int,
    pub hour: int,
    pub minute: int,
    pub second: int,
    pub nanosecond: int,
}

impl CivilTime {
    /// The fields name a real date and a time of day (a leap second
    /// shows as a nanosecond count of a second or more).
    pub open spec fn valid(self) -> bool {
        &&& 1 <= self.month <= 12
        &&& 1 <= self.day <= days_in_month(self.year, self.month)
        &&& 0 <= self.hour < 24
        &&& 0 <= self.minute < 60
        &&& 0 <= self.second < 60
        &&& 0 <= self.nanosecond < 2_000_000_000
    }

    /// Days since 1970-01-01 of this date.
    pub open spec fn day_number(self) -> int {
        days_from_civil(self.year, self.month, self.day)
    }

    /// Seconds since 1970-01-01T00:00:00Z, leap seconds not counted.
    pub open spec fn unix_seconds(self) -> int {
        self.day_number() * 86400 + self.hour * 3600 + self.minute * 60 + self.second
    }
}

/// The fields that `utc_fields` hands back for `secs` and `nanos`.
pub open spec fn fields_match(
    f: (i32, u32, u32, u32, u32, u32, u32),
    secs: i64,
    nanos: u32,
) -> bool {
    let c = CivilTime {
        year: f.0 as int,
        month: f.1 as int,
        day: f.2 as int,
        hour: f.3 as int,
        minute: f.4 as int,
        second: f.5 as int,
        nanosecond: f.6 as int,
    };
    c.valid() && c.unix_seconds() == secs && f.6 == nanos
}

/// Relies on chrono's `DateTime::from_timestamp` (seconds since the Unix epoch
/// and sub-second nanoseconds to a UTC date-time in the proleptic Gregorian
/// calendar; `None` only for out-of-range seconds or invalid nanoseconds) and
/// on its `Datelike` / `Timelike` getters.
#[verifier::external_body]
fn utc_fields(secs: i64, nanos: u32) -> (r: Option<(i32, u32, u32, u32, u32, u32, u32)>)
    ensures
        nanos < 1_000_000_000 && MIN_TIMESTAMP <= secs <= MAX_TIMESTAMP ==> r is Some,
        r matches Some(f) ==> fields_match(f, secs, nanos),
{
    chrono::DateTime::from_timestamp(secs, nanos).map(
        |t| (t.year(), t.month(), t.day(), t.hour(), t.minute(), t.second(), t.nanosecond()),
    )
}

/// A point in time in UTC, held as its calendar fields.
#[derive(Clone, Copy, Debug, PartialEq, Eq)]
pub struct UtcTime {
    year: i32,
    month: u32,
    day: u32,
    hour: u32,
    minute: u32,
    second: u32,
    nanosecond: u32,
}

impl View for UtcTime {
    type V = CivilTime;

    closed spec fn view(&self) -> CivilTime {
        CivilTime {
            year: self.year as int,
            month: self.month as int,
            day: self.day as int,
            hour: self.hour as int,
            minute: self.minute as int,
            second: self.second as int,
            nanosecond: self.nanosecond as int,
        }
    }
}

impl UtcTime {
    #[verifier::type_invariant]
    closed spec fn inv(self) -> bool {
        self@.valid()
    }

    /// The UTC time `secs` seconds and `nanos` nanoseconds after the Unix
    /// epoch; `None` where the calendar conversion does not cover it.
    pub fn from_timestamp(secs: i64, nanos: u32) -> (r: Option<UtcTime>)
        ensures
            nanos < 1_000_000_000 && MIN_TIMESTAMP <= secs <= MAX_TIMESTAMP ==> r is Some,
            r matches Some(t) ==> t@.valid() && t@.unix_seconds() == secs && t@.nanosecond
                == nanos,
    {
        match utc_fields(secs, nanos) {
            Some(f) => {
                let t = UtcTime {
                    year: f.0,
                    month: f.1,
                    day: f.2,
                    hour: f.3,
                    minute: f.4,
                    second: f.5,
                    nanosecond: f.6,
                };
                Some(t)
            },
            None => None,
        }
    }

    pub fn year(&self) -> (r: i32)
        ensures
            r == self@.year,
    {
        self.year
    }

    pub fn month(&self) -> (r: u32)
        ensures
            r == self@.month,
    {
        self.month
    }

    pub fn day(&self) -> (r: u32)
        ensures
            r == self@.day,
    {
        self.day
    }

    pub fn hour(&self) -> (r: u32)
        ensures
            r == self@.hour,
    {
        self.hour
    }

    pub fn minute(&self) -> (r: u32)
        ensures
            r == self@.minute,
    {
        self.minute
    }

    pub fn second(&self) -> (r: u32)
        ensures
            r == self@.second,
    {
        self.second
    }

    pub fn nanosecond(&self) -> (r: u32)
        ensures
            r == self@.nanosecond,
    {
        self.nanosecond
    }

    /// The calendar date as `YYYYMMDD` (the year as chrono's `%Y` writes it).
    pub fn date_text(&self) -> (r: String)
        ensures
            r@ == date_text(self@),
    {
        proof {
            use_type_invariant(self);
        }
        let mut out = year_string(self.year);
        out.append(padded(self.month as u64, 2).as_str());
        out.append(padded(self.day as u64, 2).as_str());
        out
    }

    /// The hour of the day as two digits.
    pub fn hour_text(&self) -> (r: String)
        ensures
            r@ == padded_decimal(self@.hour as nat, 2),
    {
        proof {
            use_type_invariant(self);
        }
        padded(self.hour as u64, 2)
    }

    /// The time of day as `HHMMSS.ffffff` (microseconds).
    pub fn clock_text(&self) -> (r: String)
        ensures
            r@ == clock_text(self@),
    {
        proof {
            use_type_invariant(self);
            reveal_strlit(".");
        }
        let mut out = padded(self.hour as u64, 2);
        out.append(padded(self.minute as u64, 2).as_str());
        out.append(padded(self.second as u64, 2).as_str());
        out.append(".");
        out.append(padded((self.nanosecond / 1000) as u64, 6).as_str());
        out
    }
}

/// A year as chrono's `%Y` writes it: four digits within 0..=9999, a sign
/// before years outside that range.
pub open spec fn year_text(y: int) -> Seq<char> {
    if y < 0 {
        seq!['-'] + padded_decimal((-y) as nat, 4)
    } else if y > 9999 {
        seq!['+'] + decimal(y as nat)
    } else {
        padded_decimal(y as nat, 4)
    }
}

/// The date as `YYYYMMDD`.
pub open spec fn date_text(c: CivilTime) -> Seq<char> {
    year_text(c.year) + padded_decimal(c.month as nat, 2) + padded_decimal(c.day as nat, 2)
}

/// The time of day as `HHMMSS.ffffff`.
pub open spec fn clock_text(c: CivilTime) -> Seq<char> {
    padded_decimal(c.hour as nat, 2) + padded_decimal(c.minute as nat, 2) + padded_decimal(
        c.second as nat,
        2,
    ) + seq!['.'] + padded_decimal((c.nanosecond / 1000) as nat, 6)
}

fn year_string(y: i32) -> (r: String)
    ensures
        r@ == year_text(y as int),
{
    proof {
        reveal_strlit("-");
        reveal_strlit("+");
    }
    if y < 0 {
        let mut out = String::from_str("-");
        let m: i64 = -(y as i64);
        out.append(padded(m as u64, 4).as_str());
        out
    } else if y > 9999 {
        let mut out = String::from_str("+");
        write_decimal(y as u64, &mut out);
        out
    } else {
        padded(y as u64, 4)
    }
}

/// Different years are written differently.
pub proof fn lemma_year_text_injective(a: int, b: int)
    requires
        year_text(a) == year_text(b),
    ensures
        a == b,
{
    lemma_year_text_shape(a);
    lemma_year_text_shape(b);
    let ta = year_text(a);
    let tb = year_text(b);
    if a < 0 {
        assert(ta.drop_first() =~= padded_decimal((-a) as nat, 4));
        assert(tb.drop_first() =~= padded_decimal((-b) as nat, 4));
        lemma_padded_injective((-a) as nat, (-b) as nat, 4);
    } else if a > 9999 {
        assert(ta.drop_first() =~= decimal(a as nat));
        assert(tb.drop_first() =~= decimal(b as nat));
        lemma_decimal_digits(a as nat);
        lemma_decimal_digits(b as nat);
    } else {
        lemma_padded_injective(a as nat, b as nat, 4);
    }
}

/// The first character of a year's text tells which of its three forms it has.
proof fn lemma_year_text_shape(y: int)
    ensures
        year_text(y).len() > 0,
        y < 0 <==> year_text(y)[0] == '-',
        y > 9999 <==> year_text(y)[0] == '+',
{
    if 0 <= y <= 9999 {
        lemma_padded_value(y as nat, 4);
        assert(is_digit(year_text(y)[0]));
    } else if y > 9999 {
        lemma_decimal_digits(y as nat);
    } else {
        lemma_padded_value((-y) as nat, 4);
    }
}

/// Different calendar dates are written differently.
pub proof fn lemma_date_text_injective(a: CivilTime, b: CivilTime)
    requires
        a.valid(),
        b.valid(),
        date_text(a) == date_text(b),
    ensures
        a.year == b.year,
        a.month == b.month,
        a.day == b.day,
{
    lemma_two_digits(a.month as nat);
    lemma_two_digits(b.month as nat);
    lemma_two_digits(a.day as nat);
    lemma_two_digits(b.day as nat);
    let ta = date_text(a);
    let tb = date_text(b);
    let n = ta.len();
    let ya = year_text(a.year);
    let yb = year_text(b.year);
    let ma = padded_decimal(a.month as nat, 2);
    let mb = padded_decimal(b.month as nat, 2);
    let da = padded_decimal(a.day as nat, 2);
    let db = padded_decimal(b.day as nat, 2);
    assert(ya.len() == n - 4 && yb.len() == n - 4);
    assert(ta.subrange(0, n - 4) =~= ya);
    assert(tb.subrange(0, n - 4) =~= yb);
    assert(ta.subrange(n - 4, n - 2) =~= ma);
    assert(tb.subrange(n - 4, n - 2) =~= mb);
    assert(ta.subrange(n - 2, n as int) =~= da);
    assert(tb.subrange(n - 2, n as int) =~= db);
    lemma_year_text_injective(a.year, b.year);
    lemma_padded_injective(a.month as nat, b.month as nat, 2);
    lemma_padded_injective(a.day as nat, b.day as nat, 2);
}

/// The date of a valid calendar time is the UTC day its Unix seconds fall in.
pub proof fn lemma_day_of_unix_seconds(c: CivilTime)
    requires
        c.valid(),
    ensures
        c.day_number() == c.unix_seconds() / 86400,
{
    let tod = c.hour * 3600 + c.minute * 60 + c.second;
    assert(0 <= tod < 86400);
    assert(c.unix_seconds() == c.day_number() * 86400 + tod);
    vstd::arithmetic::div_mod::lemma_fundamental_div_mod_converse(
        c.unix_seconds(),
        86400,
        c.day_number(),
        tod,
    );
}

} // verus!
