//! Calendar timestamps at second precision, in UTC.
//!
//! A [`Timestamp`] holds plain year/month/day/hour/minute/second fields.
//! The module renders timestamps as RFC 3339 strings, parses RFC 3339
//! strings back (normalizing a numeric UTC offset), and measures the
//! seconds elapsed between two timestamps for display purposes.

use vstd::prelude::*;

use crate::text::{digit_char, digit_char_exec, spec_decimal_pad2, push_decimal_pad2};

verus! {

/// A moment in UTC, at second precision, on the proleptic Gregorian
/// calendar. Field ranges are checked by [`Timestamp::valid`]; values
/// outside them can be represented but render as out-of-range digits.
#[derive(Clone, Copy, PartialEq, Eq, Structural, Debug)]
pub struct Timestamp {
    pub year: u16,
    pub month: u8,
    pub day: u8,
    pub hour: u8,
    pub minute: u8,
    pub second: u8,
}

pub open spec fn spec_is_leap_year(y: int) -> bool {
    (y % 4 == 0 && y % 100 != 0) || y % 400 == 0
}

pub fn is_leap_year(y: u16) -> (r: bool)
    ensures
        r == spec_is_leap_year(y as int),
{
    (y % 4 == 0 && y % 100 != 0) || y % 400 == 0
}

pub open spec fn spec_days_in_month(y: int, m: int) -> int {
    if m == 1 || m == 3 || m == 5 || m == 7 || m == 8 || m == 10 || m == 12 {
        31
    } else if m == 4 || m == 6 || m == 9 || m == 11 {
        30
    } else if m == 2 {
        if spec_is_leap_year(y) {
            29
        } else {
            28
        }
    } else {
        0
    }
}

pub fn days_in_month(y: u16, m: u8) -> (r: u8)
    ensures
        r as int == spec_days_in_month(y as int, m as int),
{
    if m == 1 || m == 3 || m == 5 || m == 7 || m == 8 || m == 10 || m == 12 {
        31
    } else if m == 4 || m == 6 || m == 9 || m == 11 {
        30
    } else if m == 2 {
        if is_leap_year(y) {
            29
        } else {
            28
        }
    } else {
        0
    }
}

impl Timestamp {
    /// Whether every field lies in its calendar range. The year is kept
    /// to four decimal digits, the width RFC 3339 allots it.
    pub open spec fn valid(self) -> bool {
        &&& self.year <= 9999
        &&& 1 <= self.month <= 12
        &&& 1 <= self.day <= spec_days_in_month(self.year as int, self.month as int)
        &&& self.hour <= 23
        &&& self.minute <= 59
        &&& self.second <= 59
    }

    /// Executable check of [`Timestamp::valid`].
    pub fn check_valid(&self) -> (r: bool)
        ensures
            r == self.valid(),
    {
        self.year <= 9999 && 1 <= self.month && self.month <= 12 && 1 <= self.day
            && self.day <= days_in_month(self.year, self.month) && self.hour <= 23
            && self.minute <= 59 && self.second <= 59
    }
}

/// Days in all years before `y`, counted from year 0 of the proleptic
/// Gregorian calendar.
pub open spec fn spec_days_before_year(y: nat) -> nat
    decreases y,
{
    if y == 0 {
        0
    } else {
        spec_days_before_year((y - 1) as nat) + if spec_is_leap_year(y - 1) {
            366nat
        } else {
            365nat
        }
    }
}

/// Days in all months of year `y` before month `m`.
pub open spec fn spec_days_before_month(y: int, m: nat) -> nat
    decreases m,
{
    if m <= 1 {
        0
    } else {
        spec_days_before_month(y, (m - 1) as nat) + if spec_days_in_month(y, m - 1) >= 0 {
            spec_days_in_month(y, m - 1) as nat
        } else {
            0nat
        }
    }
}

impl Timestamp {
    /// Days from 0000-01-01 to this timestamp's date; a zero day-of-month
    /// field, which no valid timestamp has, counts like the first.
    pub open spec fn spec_day_number(self) -> int {
        spec_days_before_year(self.year as nat) + spec_days_before_month(
            self.year as int,
            self.month as nat,
        ) + if self.day >= 1 {
            self.day - 1
        } else {
            0int
        }
    }

    /// Seconds from 0000-01-01T00:00:00 to this timestamp.
    pub open spec fn spec_total_seconds(self) -> int {
        self.spec_day_number() * 86400 + self.hour * 3600 + self.minute * 60 + self.second
    }

    /// Seconds from 0000-01-01T00:00:00 to this timestamp.
    pub fn total_seconds(&self) -> (r: u64)
        ensures
            r as int == self.spec_total_seconds(),
    {
        let mut days: u64 = 0;
        let mut y: u16 = 0;
        while y < self.year
            invariant
                y <= self.year,
                days == spec_days_before_year(y as nat),
                days <= 366 * (y as u64),
            decreases self.year - y,
        {
            days = days + if is_leap_year(y) {
                366
            } else {
                365
            };
            y = y + 1;
        }
        let mut m: u8 = 1;
        while m < self.month
            invariant
                1 <= m,
                self.month >= 1 ==> m <= self.month,
                self.month < 1 ==> m == 1,
                days == spec_days_before_year(self.year as nat) + spec_days_before_month(
                    self.year as int,
                    m as nat,
                ),
                days <= 366 * (self.year as u64) + 31 * (m as u64),
            decreases self.month - m,
        {
            days = days + days_in_month(self.year, m) as u64;
            m = m + 1;
        }
        proof {
            if self.month >= 1 {
                assert(m == self.month);
            } else {
                assert(spec_days_before_month(self.year as int, 1nat) == 0);
                assert(spec_days_before_month(self.year as int, self.month as nat) == 0);
            }
        }
        let day_part: u64 = if self.day >= 1 {
            (self.day as u64 - 1) * 86400
        } else {
            0
        };
        days * 86400 + day_part + (self.hour as u64) * 3600 + (self.minute as u64) * 60 + (
        self.second as u64)
    }
}

/// Seconds elapsed from `earlier` to `now`; zero when `earlier` lies after
/// `now`, so a reading from a clock that stepped backwards never yields
/// a negative display.
pub fn elapsed_seconds(now: &Timestamp, earlier: &Timestamp) -> (r: u64)
    ensures
        now.spec_total_seconds() >= earlier.spec_total_seconds() ==> r as int
            == now.spec_total_seconds() - earlier.spec_total_seconds(),
        now.spec_total_seconds() < earlier.spec_total_seconds() ==> r == 0,
{
    let a = now.total_seconds();
    let b = earlier.total_seconds();
    if a >= b {
        a - b
    } else {
        0
    }
}

/// The decimal digits of `n`, zero-padded on the left to at least four
/// characters.
pub open spec fn spec_decimal_pad4(n: nat) -> Seq<char> {
    if n < 10 {
        seq!['0', '0', '0', digit_char(n)]
    } else if n < 100 {
        seq!['0', '0', digit_char(n / 10), digit_char(n % 10)]
    } else if n < 1000 {
        seq!['0', digit_char(n / 100), digit_char((n / 10) % 10), digit_char(n % 10)]
    } else {
        seq![
            digit_char((n / 1000) % 10),
            digit_char((n / 100) % 10),
            digit_char((n / 10) % 10),
            digit_char(n % 10),
        ]
    }
}

/// Appends exactly four decimal digits for `n` to `out`, keeping the
/// four least significant ones.
pub fn push_decimal_pad4(out: &mut Vec<char>, n: u16)
    ensures
        final(out)@ == old(out)@ + spec_decimal_pad4(n as nat),
{
    let n = n as u64;
    out.push(digit_char_exec((n / 1000) % 10));
    out.push(digit_char_exec((n / 100) % 10));
    out.push(digit_char_exec((n / 10) % 10));
    out.push(digit_char_exec(n % 10));
    assert(out@ =~= old(out)@ + spec_decimal_pad4(n as nat));
}

impl Timestamp {
    /// The RFC 3339 rendering of this timestamp: date and time joined by
    /// `T`, followed by the UTC offset `+00:00`.
    pub open spec fn spec_rfc3339(self) -> Seq<char> {
        spec_decimal_pad4(self.year as nat) + seq!['-'] + spec_decimal_pad2(self.month as nat)
            + seq!['-'] + spec_decimal_pad2(self.day as nat) + seq!['T'] + spec_decimal_pad2(
            self.hour as nat,
        ) + seq![':'] + spec_decimal_pad2(self.minute as nat) + seq![':'] + spec_decimal_pad2(
            self.second as nat,
        ) + seq!['+', '0', '0', ':', '0', '0']
    }

    /// Renders this timestamp as RFC 3339 characters, appended to `out`.
    #[verifier::rlimit(50)]
    pub fn push_rfc3339(&self, out: &mut Vec<char>)
        ensures
            final(out)@ == old(out)@ + self.spec_rfc3339(),
    {
        push_decimal_pad4(out, self.year);
        out.push('-');
        push_decimal_pad2(out, self.month as u64);
        out.push('-');
        push_decimal_pad2(out, self.day as u64);
        out.push('T');
        push_decimal_pad2(out, self.hour as u64);
        out.push(':');
        push_decimal_pad2(out, self.minute as u64);
        out.push(':');
        push_decimal_pad2(out, self.second as u64);
        out.push('+');
        out.push('0');
        out.push('0');
        out.push(':');
        out.push('0');
        out.push('0');
        assert(out@ =~= old(out)@ + self.spec_rfc3339());
    }

    /// The `HH:MM:SS` rendering of this timestamp's time of day.
    pub open spec fn spec_hms(self) -> Seq<char> {
        spec_decimal_pad2(self.hour as nat) + seq![':'] + spec_decimal_pad2(self.minute as nat)
            + seq![':'] + spec_decimal_pad2(self.second as nat)
    }

    /// Renders the time of day as `HH:MM:SS`, appended to `out`.
    pub fn push_hms(&self, out: &mut Vec<char>)
        ensures
            final(out)@ == old(out)@ + self.spec_hms(),
    {
        push_decimal_pad2(out, self.hour as u64);
        out.push(':');
        push_decimal_pad2(out, self.minute as u64);
        out.push(':');
        push_decimal_pad2(out, self.second as u64);
        assert(out@ =~= old(out)@ + self.spec_hms());
    }
}

} // verus!
