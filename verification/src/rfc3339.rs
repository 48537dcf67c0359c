//! Parsing of RFC 3339 timestamp strings.
//!
//! The accepted shape is `YYYY-MM-DDTHH:MM:SS`, optionally followed by a
//! fractional-second part, and closed by either `Z` or a numeric offset
//! `+HH:MM` / `-HH:MM`. The fractional part is dropped (timestamps here
//! are second-precision), a leap second `:60` reads as `:59`, and a
//! numeric offset is folded away, so the result is always the moment in
//! UTC.

use vstd::prelude::*;

use crate::time::{Timestamp, spec_days_in_month, days_in_month, spec_decimal_pad4};
use crate::text::{digit_char, spec_decimal_pad2};

verus! {

/// Whether `c` is a decimal digit.
pub open spec fn is_digit(c: char) -> bool {
    48 <= c as u32 <= 57
}

/// The numeric value of a decimal digit character.
pub open spec fn digit_val(c: char) -> int {
    c as u32 - 48
}

/// The value of the two decimal digits at `i`, if both are digits.
pub open spec fn spec_two_digits_at(s: Seq<char>, i: int) -> Option<int> {
    if 0 <= i && i + 2 <= s.len() && is_digit(s[i]) && is_digit(s[i + 1]) {
        Some(10 * digit_val(s[i]) + digit_val(s[i + 1]))
    } else {
        None
    }
}

/// The value of the four decimal digits at `i`, if all four are digits.
pub open spec fn spec_four_digits_at(s: Seq<char>, i: int) -> Option<int> {
    if 0 <= i && i + 4 <= s.len() && is_digit(s[i]) && is_digit(s[i + 1]) && is_digit(s[i + 2])
        && is_digit(s[i + 3]) {
        Some(
            1000 * digit_val(s[i]) + 100 * digit_val(s[i + 1]) + 10 * digit_val(s[i + 2])
                + digit_val(s[i + 3]),
        )
    } else {
        None
    }
}

/// The first position at or after `i` that does not hold a digit.
pub open spec fn spec_digits_end(s: Seq<char>, i: int) -> int
    decreases s.len() - i when i <= s.len()
{
    if 0 <= i < s.len() && is_digit(s[i]) {
        spec_digits_end(s, i + 1)
    } else {
        i
    }
}

/// The day before the date of `t`, keeping the time of day; `None` when
/// that would leave year 0.
pub open spec fn spec_prev_day(t: Timestamp) -> Option<Timestamp> {
    if t.day > 1 {
        Some(Timestamp { day: (t.day - 1) as u8, ..t })
    } else if t.month > 1 {
        let m = (t.month - 1) as u8;
        let d = spec_days_in_month(t.year as int, m as int);
        Some(Timestamp { month: m, day: d as u8, ..t })
    } else if t.year > 0 {
        Some(Timestamp { year: (t.year - 1) as u16, month: 12, day: 31, ..t })
    } else {
        None
    }
}

/// The day after the date of `t`, keeping the time of day; `None` when
/// that would pass year 9999.
pub open spec fn spec_next_day(t: Timestamp) -> Option<Timestamp> {
    if t.day < spec_days_in_month(t.year as int, t.month as int) {
        Some(Timestamp { day: (t.day + 1) as u8, ..t })
    } else if t.month < 12 {
        Some(Timestamp { month: (t.month + 1) as u8, day: 1, ..t })
    } else if t.year < 9999 {
        Some(Timestamp { year: (t.year + 1) as u16, month: 1, day: 1, ..t })
    } else {
        None
    }
}

/// `t` moved by `delta` minutes, where `delta` spans less than a day in
/// either direction; `None` when the move leaves years 0 through 9999.
pub open spec fn spec_shift_minutes(t: Timestamp, delta: int) -> Option<Timestamp> {
    let mins = t.hour * 60 + t.minute + delta;
    if 0 <= mins < 1440 {
        Some(Timestamp { hour: (mins / 60) as u8, minute: (mins % 60) as u8, ..t })
    } else if mins < 0 {
        let m2 = mins + 1440;
        match spec_prev_day(t) {
            Some(p) => Some(Timestamp { hour: (m2 / 60) as u8, minute: (m2 % 60) as u8, ..p }),
            None => None,
        }
    } else {
        let m2 = mins - 1440;
        match spec_next_day(t) {
            Some(p) => Some(Timestamp { hour: (m2 / 60) as u8, minute: (m2 % 60) as u8, ..p }),
            None => None,
        }
    }
}

/// The timestamp an RFC 3339 string denotes, normalized to UTC; `None`
/// when the string does not fit the accepted shape or a field is out of
/// its calendar range. A leap second, written `:60`, reads as the last
/// representable moment of its minute, `:59`.
pub open spec fn spec_parse_rfc3339(s: Seq<char>) -> Option<Timestamp> {
    if s.len() < 20 {
        None
    } else if spec_four_digits_at(s, 0) is None || spec_two_digits_at(s, 5) is None
        || spec_two_digits_at(s, 8) is None || spec_two_digits_at(s, 11) is None
        || spec_two_digits_at(s, 14) is None || spec_two_digits_at(s, 17) is None {
        None
    } else if s[4] != '-' || s[7] != '-' || !(s[10] == 'T' || s[10] == 't') || s[13] != ':'
        || s[16] != ':' {
        None
    } else {
        let t = Timestamp {
            year: spec_four_digits_at(s, 0)->0 as u16,
            month: spec_two_digits_at(s, 5)->0 as u8,
            day: spec_two_digits_at(s, 8)->0 as u8,
            hour: spec_two_digits_at(s, 11)->0 as u8,
            minute: spec_two_digits_at(s, 14)->0 as u8,
            second: if spec_two_digits_at(s, 17)->0 == 60 {
                59
            } else {
                spec_two_digits_at(s, 17)->0 as u8
            },
        };
        if !t.valid() {
            None
        } else {
            let j = if s[19] == '.' {
                spec_digits_end(s, 20)
            } else {
                19
            };
            if s[19] == '.' && j == 20 {
                None
            } else {
                spec_parse_offset_end(s, j, t)
            }
        }
    }
}

/// Parses the offset part starting at `j` and applies it to `t`.
pub open spec fn spec_parse_offset_end(s: Seq<char>, j: int, t: Timestamp) -> Option<Timestamp> {
    if j < s.len() && (s[j] == 'Z' || s[j] == 'z') && j + 1 == s.len() {
        Some(t)
    } else if j < s.len() && (s[j] == '+' || s[j] == '-') && j + 6 == s.len() {
        if spec_two_digits_at(s, j + 1) is Some && s[j + 3] == ':' && spec_two_digits_at(
            s,
            j + 4,
        ) is Some {
            let oh = spec_two_digits_at(s, j + 1)->0;
            let om = spec_two_digits_at(s, j + 4)->0;
            if oh <= 23 && om <= 59 {
                let mag = oh * 60 + om;
                if s[j] == '+' {
                    spec_shift_minutes(t, -mag)
                } else {
                    spec_shift_minutes(t, mag)
                }
            } else {
                None
            }
        } else {
            None
        }
    } else {
        None
    }
}

/// Every decimal digit character carries its digit's value.
pub proof fn lemma_digit_char(d: nat)
    requires
        d < 10,
    ensures
        is_digit(digit_char(d)),
        digit_val(digit_char(d)) == d,
{
}

/// For values up to 99, the two-digit rendering spells quotient and
/// remainder by ten.
pub proof fn lemma_pad2(n: nat)
    requires
        n <= 99,
    ensures
        spec_decimal_pad2(n) =~= seq![digit_char(n / 10), digit_char(n % 10)],
{
    if n < 10 {
        assert(crate::text::spec_decimal(n) =~= seq![digit_char(n)]);
        assert(digit_char(n / 10) == '0');
    } else {
        assert(crate::text::spec_decimal(n / 10) =~= seq![digit_char(n / 10)]);
    }
}

/// For values up to 9999, the four-digit rendering spells the four
/// decimal digits.
pub proof fn lemma_pad4(n: nat)
    requires
        n <= 9999,
    ensures
        spec_decimal_pad4(n) =~= seq![
            digit_char((n / 1000) % 10),
            digit_char((n / 100) % 10),
            digit_char((n / 10) % 10),
            digit_char(n % 10),
        ],
{
    if n < 10 {
        assert(digit_char((n / 1000) % 10) == '0');
        assert(digit_char((n / 100) % 10) == '0');
        assert(digit_char((n / 10) % 10) == '0');
        assert(digit_char(n % 10) == digit_char(n));
    } else if n < 100 {
        assert(digit_char((n / 1000) % 10) == '0');
        assert(digit_char((n / 100) % 10) == '0');
        assert((n / 10) % 10 == n / 10);
    } else if n < 1000 {
        assert(digit_char((n / 1000) % 10) == '0');
        assert((n / 100) % 10 == n / 100);
    }
}

/// Parsing the RFC 3339 rendering of a valid timestamp gives the
/// timestamp back.
#[verifier::rlimit(100)]
pub proof fn lemma_rfc3339_round_trip(t: Timestamp)
    requires
        t.valid(),
    ensures
        spec_parse_rfc3339(t.spec_rfc3339()) == Some(t),
{
    let y = t.year as nat;
    let mo = t.month as nat;
    let d = t.day as nat;
    let h = t.hour as nat;
    let mi = t.minute as nat;
    let se = t.second as nat;
    lemma_pad4(y);
    lemma_pad2(mo);
    lemma_pad2(d);
    lemma_pad2(h);
    lemma_pad2(mi);
    lemma_pad2(se);
    assert forall|k: nat| k < 10 implies is_digit(digit_char(k)) && digit_val(digit_char(k))
        == k by {
        lemma_digit_char(k);
    }
    let s = t.spec_rfc3339();
    let e = seq![
        digit_char((y / 1000) % 10),
        digit_char((y / 100) % 10),
        digit_char((y / 10) % 10),
        digit_char(y % 10),
        '-',
        digit_char(mo / 10),
        digit_char(mo % 10),
        '-',
        digit_char(d / 10),
        digit_char(d % 10),
        'T',
        digit_char(h / 10),
        digit_char(h % 10),
        ':',
        digit_char(mi / 10),
        digit_char(mi % 10),
        ':',
        digit_char(se / 10),
        digit_char(se % 10),
        '+',
        '0',
        '0',
        ':',
        '0',
        '0',
    ];
    assert(s =~= e);
    assert(s.len() == 25);
    assert(spec_four_digits_at(s, 0) == Some(y as int)) by {
        assert(1000 * ((y / 1000) % 10) + 100 * ((y / 100) % 10) + 10 * ((y / 10) % 10) + (y % 10)
            == y);
    }
    assert(spec_two_digits_at(s, 5) == Some(mo as int));
    assert(spec_two_digits_at(s, 8) == Some(d as int));
    assert(spec_two_digits_at(s, 11) == Some(h as int));
    assert(spec_two_digits_at(s, 14) == Some(mi as int));
    assert(spec_two_digits_at(s, 17) == Some(se as int));
    let t2 = Timestamp {
        year: spec_four_digits_at(s, 0)->0 as u16,
        month: spec_two_digits_at(s, 5)->0 as u8,
        day: spec_two_digits_at(s, 8)->0 as u8,
        hour: spec_two_digits_at(s, 11)->0 as u8,
        minute: spec_two_digits_at(s, 14)->0 as u8,
        second: if spec_two_digits_at(s, 17)->0 == 60 {
            59
        } else {
            spec_two_digits_at(s, 17)->0 as u8
        },
    };
    assert(t2 == t);
    assert(s[19] == '+');
    assert(s[19] != '.');
    assert(spec_two_digits_at(s, 20) == Some(0int));
    assert(s[22] == ':');
    assert(spec_two_digits_at(s, 23) == Some(0int));
    assert(spec_shift_minutes(t, 0) == Some(t)) by {
        let mins = t.hour * 60 + t.minute + 0;
        assert(0 <= mins < 1440);
        assert(mins / 60 == t.hour as int);
        assert(mins % 60 == t.minute as int);
    }
    assert(spec_parse_offset_end(s, 19, t) == Some(t));
}

/// Whether `c` is a decimal digit, as executable code.
pub fn is_digit_exec(c: char) -> (r: bool)
    ensures
        r == is_digit(c),
{
    let x = c as u32;
    48 <= x && x <= 57
}

/// The two-digit value at `i`, as executable code.
fn two_digits_at(s: &Vec<char>, i: usize) -> (r: Option<u8>)
    ensures
        r matches Some(v) ==> spec_two_digits_at(s@, i as int) == Some(v as int) && v <= 99,
        r is None ==> spec_two_digits_at(s@, i as int) is None,
{
    if i < s.len() && s.len() - i >= 2 && is_digit_exec(s[i]) && is_digit_exec(s[i + 1]) {
        let a = s[i] as u32 - 48;
        let b = s[i + 1] as u32 - 48;
        Some((10 * a + b) as u8)
    } else {
        None
    }
}

/// The four-digit value at `i`, as executable code.
fn four_digits_at(s: &Vec<char>, i: usize) -> (r: Option<u16>)
    ensures
        r matches Some(v) ==> spec_four_digits_at(s@, i as int) == Some(v as int) && v <= 9999,
        r is None ==> spec_four_digits_at(s@, i as int) is None,
{
    if i < s.len() && s.len() - i >= 4 && is_digit_exec(s[i]) && is_digit_exec(s[i + 1])
        && is_digit_exec(s[i + 2]) && is_digit_exec(s[i + 3]) {
        let a = s[i] as u32 - 48;
        let b = s[i + 1] as u32 - 48;
        let c = s[i + 2] as u32 - 48;
        let d = s[i + 3] as u32 - 48;
        Some((1000 * a + 100 * b + 10 * c + d) as u16)
    } else {
        None
    }
}

/// The first position at or after `i` without a digit, as executable code.
pub(crate) fn digits_end(s: &Vec<char>, i: usize) -> (r: usize)
    requires
        i <= s.len(),
    ensures
        r as int == spec_digits_end(s@, i as int),
        i <= r <= s.len(),
        i < s@.len() && is_digit(s@[i as int]) ==> r > i,
{
    let mut j = i;
    while j < s.len() && is_digit_exec(s[j])
        invariant
            i <= j <= s.len(),
            spec_digits_end(s@, i as int) == spec_digits_end(s@, j as int),
        decreases s.len() - j,
    {
        j = j + 1;
    }
    j
}

/// The day before, as executable code.
fn prev_day(t: &Timestamp) -> (r: Option<Timestamp>)
    ensures
        r == spec_prev_day(*t),
{
    if t.day > 1 {
        Some(Timestamp { day: t.day - 1, ..*t })
    } else if t.month > 1 {
        let m = t.month - 1;
        let d = days_in_month(t.year, m);
        Some(Timestamp { month: m, day: d, ..*t })
    } else if t.year > 0 {
        Some(Timestamp { year: t.year - 1, month: 12, day: 31, ..*t })
    } else {
        None
    }
}

/// The day after, as executable code.
fn next_day(t: &Timestamp) -> (r: Option<Timestamp>)
    ensures
        r == spec_next_day(*t),
{
    if t.day < days_in_month(t.year, t.month) {
        Some(Timestamp { day: t.day + 1, ..*t })
    } else if t.month < 12 {
        Some(Timestamp { month: t.month + 1, day: 1, ..*t })
    } else if t.year < 9999 {
        Some(Timestamp { year: t.year + 1, month: 1, day: 1, ..*t })
    } else {
        None
    }
}

/// Moves `t` by `delta` minutes, as executable code.
fn shift_minutes(t: &Timestamp, delta: i32) -> (r: Option<Timestamp>)
    requires
        -1440 < delta < 1440,
    ensures
        r == spec_shift_minutes(*t, delta as int),
{
    let mins: i32 = (t.hour as i32) * 60 + (t.minute as i32) + delta;
    if 0 <= mins && mins < 1440 {
        Some(Timestamp { hour: (mins / 60) as u8, minute: (mins % 60) as u8, ..*t })
    } else if mins < 0 {
        let m2 = mins + 1440;
        match prev_day(t) {
            Some(p) => Some(Timestamp { hour: (m2 / 60) as u8, minute: (m2 % 60) as u8, ..p }),
            None => None,
        }
    } else {
        let m2 = mins - 1440;
        match next_day(t) {
            Some(p) => Some(Timestamp { hour: (m2 / 60) as u8, minute: (m2 % 60) as u8, ..p }),
            None => None,
        }
    }
}

/// Parses an RFC 3339 string, as executable code.
pub fn parse_rfc3339(s: &Vec<char>) -> (r: Option<Timestamp>)
    ensures
        r == spec_parse_rfc3339(s@),
{
    if s.len() < 20 {
        return None;
    }
    let year = four_digits_at(s, 0);
    let month = two_digits_at(s, 5);
    let day = two_digits_at(s, 8);
    let hour = two_digits_at(s, 11);
    let minute = two_digits_at(s, 14);
    let second = two_digits_at(s, 17);
    let (year, month, day, hour, minute, second) = match (year, month, day, hour, minute, second) {
        (Some(y), Some(mo), Some(d), Some(h), Some(mi), Some(se)) => (y, mo, d, h, mi, se),
        _ => {
            return None;
        },
    };
    if !(s[4] == '-' && s[7] == '-' && (s[10] == 'T' || s[10] == 't') && s[13] == ':' && s[16]
        == ':') {
        return None;
    }
    let second = if second == 60 {
        59
    } else {
        second
    };
    let t = Timestamp { year, month, day, hour, minute, second };
    if !t.check_valid() {
        return None;
    }
    let j = if s[19] == '.' {
        let e = digits_end(s, 20);
        if e == 20 {
            return None;
        }
        e
    } else {
        19
    };
    if j < s.len() && (s[j] == 'Z' || s[j] == 'z') && s.len() - j == 1 {
        Some(t)
    } else if j < s.len() && (s[j] == '+' || s[j] == '-') && s.len() - j == 6 {
        let oh = two_digits_at(s, j + 1);
        let om = two_digits_at(s, j + 4);
        match (oh, om) {
            (Some(oh), Some(om)) if s[j + 3] == ':' => {
                if oh <= 23 && om <= 59 {
                    let mag: i32 = (oh as i32) * 60 + (om as i32);
                    if s[j] == '+' {
                        shift_minutes(&t, -mag)
                    } else {
                        shift_minutes(&t, mag)
                    }
                } else {
                    None
                }
            },
            _ => None,
        }
    } else {
        None
    }
}

} // verus!
