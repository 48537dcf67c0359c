//! Laws of the RFC 3339 reader: parsed timestamps are valid, and a
//! numeric offset folds away without moving the denoted moment.

use vstd::prelude::*;

use crate::rfc3339::{spec_prev_day, spec_next_day, spec_shift_minutes, spec_parse_rfc3339,
    spec_two_digits_at, spec_four_digits_at, spec_digits_end};
use crate::time::{Timestamp, spec_days_in_month, spec_days_before_month, spec_days_before_year,
    spec_is_leap_year};

verus! {

/// Stepping to the previous day moves the day count down by one.
proof fn lemma_prev_day_number(t: Timestamp)
    requires
        t.valid(),
    ensures
        spec_prev_day(t) matches Some(p) ==> p.spec_day_number() == t.spec_day_number() - 1,
{
    if t.day > 1 {
    } else if t.month > 1 {
        assert(spec_days_before_month(t.year as int, t.month as nat) == spec_days_before_month(
            t.year as int,
            (t.month - 1) as nat,
        ) + spec_days_in_month(t.year as int, t.month as int - 1));
    } else if t.year > 0 {
        let y = t.year as int;
        reveal_with_fuel(spec_days_before_month, 13);
        assert(spec_days_before_year(t.year as nat) == spec_days_before_year((t.year - 1) as nat)
            + if spec_is_leap_year(y - 1) {
            366int
        } else {
            365int
        });
        assert(spec_days_before_month(y - 1, 12) == if spec_is_leap_year(y - 1) {
            335int
        } else {
            334int
        });
    }
}

/// Stepping to the next day moves the day count up by one.
proof fn lemma_next_day_number(t: Timestamp)
    requires
        t.valid(),
    ensures
        spec_next_day(t) matches Some(p) ==> p.spec_day_number() == t.spec_day_number() + 1,
{
    let y = t.year as int;
    if t.day < spec_days_in_month(y, t.month as int) {
    } else if t.month < 12 {
        assert(spec_days_before_month(y, (t.month + 1) as nat) == spec_days_before_month(
            y,
            t.month as nat,
        ) + spec_days_in_month(y, t.month as int));
    } else if t.year < 9999 {
        reveal_with_fuel(spec_days_before_month, 13);
        assert(spec_days_before_year((t.year + 1) as nat) == spec_days_before_year(t.year as nat)
            + if spec_is_leap_year(y) {
            366int
        } else {
            365int
        });
        assert(spec_days_before_month(y, 12) == if spec_is_leap_year(y) {
            335int
        } else {
            334int
        });
        assert(spec_days_in_month(y, 12) == 31);
    }
}

/// Folding an offset of less than a day into a valid timestamp moves
/// the denoted moment by exactly that many minutes.
pub proof fn lemma_shift_preserves_instant(t: Timestamp, delta: int)
    requires
        t.valid(),
        -1440 < delta < 1440,
    ensures
        spec_shift_minutes(t, delta) matches Some(u) ==> u.spec_total_seconds()
            == t.spec_total_seconds() + delta * 60,
{
    let mins = t.hour * 60 + t.minute + delta;
    if 0 <= mins < 1440 {
        let u = Timestamp { hour: (mins / 60) as u8, minute: (mins % 60) as u8, ..t };
        assert(60 * (mins / 60) + mins % 60 == mins);
        assert(u.spec_total_seconds() == t.spec_total_seconds() + delta * 60);
    } else if mins < 0 {
        let m2 = mins + 1440;
        match spec_prev_day(t) {
            Some(p) => {
                lemma_prev_day_number(t);
                let u = Timestamp { hour: (m2 / 60) as u8, minute: (m2 % 60) as u8, ..p };
                assert(60 * (m2 / 60) + m2 % 60 == m2);
                assert(u.spec_day_number() == t.spec_day_number() - 1);
                assert(u.spec_total_seconds() == t.spec_total_seconds() + delta * 60);
            },
            None => {},
        }
    } else {
        let m2 = mins - 1440;
        match spec_next_day(t) {
            Some(p) => {
                lemma_next_day_number(t);
                let u = Timestamp { hour: (m2 / 60) as u8, minute: (m2 % 60) as u8, ..p };
                assert(60 * (m2 / 60) + m2 % 60 == m2);
                assert(u.spec_day_number() == t.spec_day_number() + 1);
                assert(u.spec_total_seconds() == t.spec_total_seconds() + delta * 60);
            },
            None => {},
        }
    }
}

/// Moving a valid timestamp by less than a day keeps every field in
/// its calendar range, whenever the move stays within years 0 to 9999.
proof fn lemma_shift_valid(t: Timestamp, delta: int)
    requires
        t.valid(),
        -1440 < delta < 1440,
    ensures
        spec_shift_minutes(t, delta) matches Some(u) ==> u.valid(),
{
    let mins = t.hour * 60 + t.minute + delta;
    if 0 <= mins < 1440 {
    } else if mins < 0 {
        match spec_prev_day(t) {
            Some(p) => {
                assert(p.valid());
            },
            None => {},
        }
    } else {
        match spec_next_day(t) {
            Some(p) => {
                assert(p.valid());
            },
            None => {},
        }
    }
}

/// Whatever an RFC 3339 string parses to is a valid timestamp.
pub proof fn lemma_parse_rfc3339_valid(s: Seq<char>)
    ensures
        spec_parse_rfc3339(s) matches Some(t) ==> t.valid(),
{
    if spec_parse_rfc3339(s) is Some {
        let t = Timestamp {
            year: spec_four_digits_at(s, 0)->0 as u16,
            month: spec_two_digits_at(s, 5)->0 as u8,
            day: spec_two_digits_at(s, 8)->0 as u8,
            hour: spec_two_digits_at(s, 11)->0 as u8,
            minute: spec_two_digits_at(s, 14)->0 as u8,
            second: if spec_two_digits_at(s, 17)->0 == 60 {
                59
            } else {
                spec_two_digits_at(s, 17)->0 as u8
            },
        };
        let j = if s[19] == '.' {
            spec_digits_end(s, 20)
        } else {
            19
        };
        if j < s.len() && (s[j] == '+' || s[j] == '-') && j + 6 == s.len() {
            let oh = spec_two_digits_at(s, j + 1)->0;
            let om = spec_two_digits_at(s, j + 4)->0;
            if oh <= 23 && om <= 59 {
                lemma_shift_valid(t, -(oh * 60 + om));
                lemma_shift_valid(t, oh * 60 + om);
            }
        }
    }
}


} // verus!
