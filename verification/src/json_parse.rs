//! The JSON parser: a recursive-descent grammar over characters,
//! written once as specification functions and once as executable code
//! proved to match them position for position.

use vstd::prelude::*;

use crate::json::{Json, JsonV, jview, jviews, mviews};
use crate::rfc3339::{is_digit, is_digit_exec, digit_val, spec_digits_end, digits_end};
use crate::text::string_of;

verus! {

broadcast use vstd::std_specs::vec::group_vec_axioms;

/// Whether `c` is JSON whitespace.
pub open spec fn spec_is_ws(c: char) -> bool {
    c == ' ' || c == '\t' || c == '\n' || c == '\r'
}

/// The first position at or after `i` that holds no whitespace.
pub open spec fn spec_skip_ws(s: Seq<char>, i: int) -> int
    decreases s.len() - i when 0 <= i <= s.len()
{
    if i < s.len() && spec_is_ws(s[i]) {
        spec_skip_ws(s, i + 1)
    } else {
        i
    }
}

/// Whether `c` is a hexadecimal digit.
pub open spec fn is_hex(c: char) -> bool {
    is_digit(c) || (97 <= c as u32 <= 102) || (65 <= c as u32 <= 70)
}

/// The numeric value of a hexadecimal digit character.
pub open spec fn hex_val(c: char) -> int {
    if is_digit(c) {
        digit_val(c)
    } else if 97 <= c as u32 <= 102 {
        c as u32 - 87
    } else {
        c as u32 - 55
    }
}

/// The value of the four hexadecimal digits at `i`.
pub open spec fn spec_hex4_at(s: Seq<char>, i: int) -> Option<int> {
    if 0 <= i && i + 4 <= s.len() && is_hex(s[i]) && is_hex(s[i + 1]) && is_hex(s[i + 2]) && is_hex(
        s[i + 3],
    ) {
        Some(4096 * hex_val(s[i]) + 256 * hex_val(s[i + 1]) + 16 * hex_val(s[i + 2]) + hex_val(
            s[i + 3],
        ))
    } else {
        None
    }
}

/// Reads string content from `i` (just after the opening quote) until
/// the closing quote, decoding escapes onto `acc`; yields the content
/// and the position after the closing quote.
pub open spec fn spec_parse_string_body(s: Seq<char>, i: int, acc: Seq<char>) -> Option<
    (Seq<char>, int),
>
    decreases s.len() - i when 0 <= i <= s.len()
{
    if i >= s.len() {
        None
    } else if s[i] == '"' {
        Some((acc, i + 1))
    } else if s[i] == '\\' {
        if i + 2 > s.len() {
            None
        } else {
            let e = s[i + 1];
            if e == '"' {
                spec_parse_string_body(s, i + 2, acc.push('"'))
            } else if e == '\\' {
                spec_parse_string_body(s, i + 2, acc.push('\\'))
            } else if e == '/' {
                spec_parse_string_body(s, i + 2, acc.push('/'))
            } else if e == 'b' {
                spec_parse_string_body(s, i + 2, acc.push('\u{8}'))
            } else if e == 'f' {
                spec_parse_string_body(s, i + 2, acc.push('\u{c}'))
            } else if e == 'n' {
                spec_parse_string_body(s, i + 2, acc.push('\n'))
            } else if e == 'r' {
                spec_parse_string_body(s, i + 2, acc.push('\r'))
            } else if e == 't' {
                spec_parse_string_body(s, i + 2, acc.push('\t'))
            } else if e == 'u' {
                match spec_hex4_at(s, i + 2) {
                    None => None,
                    Some(v) => {
                        if 0xD800 <= v < 0xDC00 {
                            if i + 12 <= s.len() && s[i + 6] == '\\' && s[i + 7] == 'u' {
                                match spec_hex4_at(s, i + 8) {
                                    None => None,
                                    Some(lo) => {
                                        if 0xDC00 <= lo < 0xE000 {
                                            let code = 0x10000 + (v - 0xD800) * 0x400 + (lo
                                                - 0xDC00);
                                            spec_parse_string_body(
                                                s,
                                                i + 12,
                                                acc.push((code as u32) as char),
                                            )
                                        } else {
                                            None
                                        }
                                    },
                                }
                            } else {
                                None
                            }
                        } else if 0xDC00 <= v < 0xE000 {
                            None
                        } else {
                            spec_parse_string_body(s, i + 6, acc.push((v as u32) as char))
                        }
                    },
                }
            } else {
                None
            }
        }
    } else if (s[i] as u32) < 0x20 {
        None
    } else {
        spec_parse_string_body(s, i + 1, acc.push(s[i]))
    }
}

/// The end of the integer part of a number whose digits start at `i`.
pub open spec fn num_int_end(s: Seq<char>, i: int) -> Option<int> {
    if 0 <= i < s.len() && is_digit(s[i]) {
        if s[i] == '0' {
            Some(i + 1)
        } else {
            Some(spec_digits_end(s, i))
        }
    } else {
        None
    }
}

/// The end of the optional fraction part starting at `i`.
pub open spec fn num_frac_end(s: Seq<char>, i: int) -> Option<int> {
    if 0 <= i < s.len() && s[i] == '.' {
        if i + 1 < s.len() && is_digit(s[i + 1]) {
            Some(spec_digits_end(s, i + 1))
        } else {
            None
        }
    } else {
        Some(i)
    }
}

/// The end of the optional exponent part starting at `i`.
pub open spec fn num_exp_end(s: Seq<char>, i: int) -> Option<int> {
    if 0 <= i < s.len() && (s[i] == 'e' || s[i] == 'E') {
        let j = if i + 1 < s.len() && (s[i + 1] == '+' || s[i + 1] == '-') {
            i + 2
        } else {
            i + 1
        };
        if j < s.len() && is_digit(s[j]) {
            Some(spec_digits_end(s, j))
        } else {
            None
        }
    } else {
        Some(i)
    }
}

/// Reads a number starting at `i`, keeping its raw characters.
pub open spec fn spec_parse_number(s: Seq<char>, i: int) -> Option<(Seq<char>, int)> {
    let p = if 0 <= i < s.len() && s[i] == '-' {
        i + 1
    } else {
        i
    };
    match num_int_end(s, p) {
        None => None,
        Some(a) => if a > s.len() {
            None
        } else {
            match num_frac_end(s, a) {
                None => None,
                Some(b) => if b > s.len() {
                    None
                } else {
                    match num_exp_end(s, b) {
                        None => None,
                        Some(c) => if c > s.len() || c <= i {
                            None
                        } else {
                            Some((s.subrange(i, c), c))
                        },
                    }
                },
            }
        },
    }
}

/// Reads the JSON value starting exactly at `i`.
pub open spec fn spec_parse_value(s: Seq<char>, i: int) -> Option<(JsonV, int)>
    decreases s.len() - i, 2int when 0 <= i <= s.len()
{
    if i >= s.len() {
        None
    } else if s[i] == 'n' {
        if i + 4 <= s.len() && s[i + 1] == 'u' && s[i + 2] == 'l' && s[i + 3] == 'l' {
            Some((JsonV::Null, i + 4))
        } else {
            None
        }
    } else if s[i] == 't' {
        if i + 4 <= s.len() && s[i + 1] == 'r' && s[i + 2] == 'u' && s[i + 3] == 'e' {
            Some((JsonV::Bool(true), i + 4))
        } else {
            None
        }
    } else if s[i] == 'f' {
        if i + 5 <= s.len() && s[i + 1] == 'a' && s[i + 2] == 'l' && s[i + 3] == 's' && s[i + 4]
            == 'e' {
            Some((JsonV::Bool(false), i + 5))
        } else {
            None
        }
    } else if s[i] == '"' {
        match spec_parse_string_body(s, i + 1, Seq::empty()) {
            None => None,
            Some((c, j)) => Some((JsonV::Str(c), j)),
        }
    } else if s[i] == '-' || is_digit(s[i]) {
        match spec_parse_number(s, i) {
            None => None,
            Some((raw, j)) => Some((JsonV::Num(raw), j)),
        }
    } else if s[i] == '[' {
        let j = spec_skip_ws(s, i + 1);
        if j < i + 1 || j > s.len() {
            None
        } else if j < s.len() && s[j] == ']' {
            Some((JsonV::Arr(Seq::empty()), j + 1))
        } else {
            match spec_parse_elems(s, j, Seq::empty()) {
                None => None,
                Some((items, e)) => Some((JsonV::Arr(items), e)),
            }
        }
    } else if s[i] == '{' {
        let j = spec_skip_ws(s, i + 1);
        if j < i + 1 || j > s.len() {
            None
        } else if j < s.len() && s[j] == '}' {
            Some((JsonV::Obj(Seq::empty()), j + 1))
        } else {
            match spec_parse_members(s, j, Seq::empty()) {
                None => None,
                Some((members, e)) => Some((JsonV::Obj(members), e)),
            }
        }
    } else {
        None
    }
}

/// Reads array elements, the first starting exactly at `i`, up to and
/// including the closing bracket; `acc` holds the elements already read.
pub open spec fn spec_parse_elems(s: Seq<char>, i: int, acc: Seq<JsonV>) -> Option<
    (Seq<JsonV>, int),
>
    decreases s.len() - i, 3int when 0 <= i <= s.len()
{
    match spec_parse_value(s, i) {
        None => None,
        Some((v, j)) => {
            if j <= i || j > s.len() {
                None
            } else {
                let k = spec_skip_ws(s, j);
                if k < j || k >= s.len() {
                    None
                } else if s[k] == ',' {
                    let m = spec_skip_ws(s, k + 1);
                    if m <= i || m > s.len() {
                        None
                    } else {
                        spec_parse_elems(s, m, acc.push(v))
                    }
                } else if s[k] == ']' {
                    Some((acc.push(v), k + 1))
                } else {
                    None
                }
            }
        },
    }
}

/// Reads object members, the first key starting exactly at `i`, up to
/// and including the closing brace; `acc` holds the members already
/// read.
pub open spec fn spec_parse_members(
    s: Seq<char>,
    i: int,
    acc: Seq<(Seq<char>, JsonV)>,
) -> Option<(Seq<(Seq<char>, JsonV)>, int)>
    decreases s.len() - i, 3int when 0 <= i <= s.len()
{
    if i >= s.len() || s[i] != '"' {
        None
    } else {
        match spec_parse_string_body(s, i + 1, Seq::empty()) {
            None => None,
            Some((key, j)) => {
                if j <= i || j > s.len() {
                    None
                } else {
                    let k = spec_skip_ws(s, j);
                    if k < j || k >= s.len() || s[k] != ':' {
                        None
                    } else {
                        let m = spec_skip_ws(s, k + 1);
                        if m <= i || m > s.len() {
                            None
                        } else {
                            match spec_parse_value(s, m) {
                                None => None,
                                Some((v, e)) => {
                                    if e <= m || e > s.len() {
                                        None
                                    } else {
                                        let q = spec_skip_ws(s, e);
                                        if q < e || q >= s.len() {
                                            None
                                        } else if s[q] == ',' {
                                            let w = spec_skip_ws(s, q + 1);
                                            if w <= i || w > s.len() {
                                                None
                                            } else {
                                                spec_parse_members(s, w, acc.push((key, v)))
                                            }
                                        } else if s[q] == '}' {
                                            Some((acc.push((key, v)), q + 1))
                                        } else {
                                            None
                                        }
                                    }
                                },
                            }
                        }
                    }
                }
            },
        }
    }
}

/// Reads a whole JSON document: one value, surrounded by whitespace.
pub open spec fn spec_parse_json(s: Seq<char>) -> Option<JsonV> {
    let i = spec_skip_ws(s, 0);
    if i < 0 || i > s.len() {
        None
    } else {
        match spec_parse_value(s, i) {
            None => None,
            Some((v, j)) => {
                if j < 0 || j > s.len() {
                    None
                } else if spec_skip_ws(s, j) == s.len() {
                    Some(v)
                } else {
                    None
                }
            },
        }
    }
}

/// Whether `c` is JSON whitespace, as executable code.
fn is_ws_exec(c: char) -> (r: bool)
    ensures
        r == spec_is_ws(c),
{
    c == ' ' || c == '\t' || c == '\n' || c == '\r'
}

/// The first position at or after `i` without whitespace, as executable
/// code.
pub(crate) fn skip_ws(s: &Vec<char>, i: usize) -> (r: usize)
    requires
        i <= s@.len(),
    ensures
        r as int == spec_skip_ws(s@, i as int),
        i <= r <= s@.len(),
{
    let mut j = i;
    while j < s.len() && is_ws_exec(s[j])
        invariant
            i <= j <= s@.len(),
            spec_skip_ws(s@, i as int) == spec_skip_ws(s@, j as int),
        decreases s@.len() - j,
    {
        j = j + 1;
    }
    j
}

/// Whether `c` is a hexadecimal digit, as executable code.
fn is_hex_exec(c: char) -> (r: bool)
    ensures
        r == is_hex(c),
{
    let x = c as u32;
    (48 <= x && x <= 57) || (97 <= x && x <= 102) || (65 <= x && x <= 70)
}

/// The value of a hexadecimal digit, as executable code.
fn hex_val_exec(c: char) -> (r: u32)
    requires
        is_hex(c),
    ensures
        r as int == hex_val(c),
        r < 16,
{
    let x = c as u32;
    if 48 <= x && x <= 57 {
        x - 48
    } else if 97 <= x && x <= 102 {
        x - 87
    } else {
        x - 55
    }
}

/// The four-hexadecimal-digit value at `i`, as executable code.
fn hex4_at(s: &Vec<char>, i: usize) -> (r: Option<u32>)
    ensures
        r matches Some(v) ==> spec_hex4_at(s@, i as int) == Some(v as int) && v <= 0xFFFF,
        r is None ==> spec_hex4_at(s@, i as int) is None,
{
    if i < s.len() && s.len() - i >= 4 && is_hex_exec(s[i]) && is_hex_exec(s[i + 1]) && is_hex_exec(
        s[i + 2],
    ) && is_hex_exec(s[i + 3]) {
        let a = hex_val_exec(s[i]);
        let b = hex_val_exec(s[i + 1]);
        let c = hex_val_exec(s[i + 2]);
        let d = hex_val_exec(s[i + 3]);
        Some(4096 * a + 256 * b + 16 * c + d)
    } else {
        None
    }
}

/// Reads string content from `start` until the closing quote, as
/// executable code.
fn parse_string_body(s: &Vec<char>, start: usize) -> (r: Option<(Vec<char>, usize)>)
    requires
        start <= s@.len(),
    ensures
        r matches Some(p) ==> spec_parse_string_body(s@, start as int, Seq::empty()) == Some(
            (p.0@, p.1 as int),
        ) && start < p.1 <= s@.len(),
        r is None ==> spec_parse_string_body(s@, start as int, Seq::empty()) is None,
{
    let mut out: Vec<char> = Vec::new();
    let mut i = start;
    loop
        invariant
            start <= i <= s@.len(),
            spec_parse_string_body(s@, start as int, Seq::empty()) == spec_parse_string_body(
                s@,
                i as int,
                out@,
            ),
        decreases s@.len() - i,
    {
        if i >= s.len() {
            return None;
        }
        let c = s[i];
        if c == '"' {
            return Some((out, i + 1));
        }
        if c == '\\' {
            if s.len() - i < 2 {
                return None;
            }
            let e = s[i + 1];
            if e == '"' {
                out.push('"');
                i = i + 2;
            } else if e == '\\' {
                out.push('\\');
                i = i + 2;
            } else if e == '/' {
                out.push('/');
                i = i + 2;
            } else if e == 'b' {
                out.push('\u{8}');
                i = i + 2;
            } else if e == 'f' {
                out.push('\u{c}');
                i = i + 2;
            } else if e == 'n' {
                out.push('\n');
                i = i + 2;
            } else if e == 'r' {
                out.push('\r');
                i = i + 2;
            } else if e == 't' {
                out.push('\t');
                i = i + 2;
            } else if e == 'u' {
                match hex4_at(s, i + 2) {
                    None => {
                        return None;
                    },
                    Some(v) => {
                        if 0xD800 <= v && v < 0xDC00 {
                            if s.len() - i >= 12 && s[i + 6] == '\\' && s[i + 7] == 'u' {
                                match hex4_at(s, i + 8) {
                                    None => {
                                        return None;
                                    },
                                    Some(lo) => {
                                        if 0xDC00 <= lo && lo < 0xE000 {
                                            let code: u32 = 0x10000 + (v - 0xD800) * 0x400 + (lo
                                                - 0xDC00);
                                            match crate::text::char_from_u32(code) {
                                                Some(ch) => {
                                                    out.push(ch);
                                                    i = i + 12;
                                                },
                                                None => {
                                                    assert(false);
                                                    return None;
                                                },
                                            }
                                        } else {
                                            return None;
                                        }
                                    },
                                }
                            } else {
                                return None;
                            }
                        } else if 0xDC00 <= v && v < 0xE000 {
                            return None;
                        } else {
                            match crate::text::char_from_u32(v) {
                                Some(ch) => {
                                    out.push(ch);
                                    i = i + 6;
                                },
                                None => {
                                    assert(false);
                                    return None;
                                },
                            }
                        }
                    },
                }
            } else {
                return None;
            }
        } else if (c as u32) < 0x20 {
            return None;
        } else {
            out.push(c);
            i = i + 1;
        }
    }
}

/// Reads a number starting at `i`, as executable code.
fn parse_number(s: &Vec<char>, i: usize) -> (r: Option<(Vec<char>, usize)>)
    requires
        i < s@.len(),
    ensures
        r matches Some(p) ==> spec_parse_number(s@, i as int) == Some((p.0@, p.1 as int)) && i < p.1
            <= s@.len(),
        r is None ==> spec_parse_number(s@, i as int) is None,
{
    let n = s.len();
    let p = if s[i] == '-' {
        i + 1
    } else {
        i
    };
    if !(p < n && is_digit_exec(s[p])) {
        return None;
    }
    let a = if s[p] == '0' {
        p + 1
    } else {
        digits_end(s, p)
    };
    let b = if a < s.len() && s[a] == '.' {
        if a + 1 < s.len() && is_digit_exec(s[a + 1]) {
            digits_end(s, a + 1)
        } else {
            return None;
        }
    } else {
        a
    };
    let cpos = if b < s.len() && (s[b] == 'e' || s[b] == 'E') {
        let j = if b + 1 < s.len() && (s[b + 1] == '+' || s[b + 1] == '-') {
            b + 2
        } else {
            b + 1
        };
        if j < s.len() && is_digit_exec(s[j]) {
            digits_end(s, j)
        } else {
            return None;
        }
    } else {
        b
    };
    let mut raw: Vec<char> = Vec::new();
    let mut k = i;
    while k < cpos
        invariant
            i <= k <= cpos <= s@.len(),
            raw@ == s@.subrange(i as int, k as int),
        decreases cpos - k,
    {
        raw.push(s[k]);
        assert(raw@ =~= s@.subrange(i as int, (k + 1) as int));
        k = k + 1;
    }
    Some((raw, cpos))
}

/// Reads the JSON value starting exactly at `i`, as executable code.
fn parse_value(s: &Vec<char>, i: usize) -> (r: Option<(Json, usize)>)
    requires
        i <= s@.len(),
    ensures
        r matches Some(p) ==> spec_parse_value(s@, i as int) == Some((p.0@, p.1 as int)) && i < p.1
            <= s@.len(),
        r is None ==> spec_parse_value(s@, i as int) is None,
    decreases s@.len() - i, 2int,
{
    if i >= s.len() {
        return None;
    }
    let c = s[i];
    if c == 'n' {
        if s.len() - i >= 4 && s[i + 1] == 'u' && s[i + 2] == 'l' && s[i + 3] == 'l' {
            Some((Json::Null, i + 4))
        } else {
            None
        }
    } else if c == 't' {
        if s.len() - i >= 4 && s[i + 1] == 'r' && s[i + 2] == 'u' && s[i + 3] == 'e' {
            Some((Json::Bool(true), i + 4))
        } else {
            None
        }
    } else if c == 'f' {
        if s.len() - i >= 5 && s[i + 1] == 'a' && s[i + 2] == 'l' && s[i + 3] == 's' && s[i + 4]
            == 'e' {
            Some((Json::Bool(false), i + 5))
        } else {
            None
        }
    } else if c == '"' {
        match parse_string_body(s, i + 1) {
            None => None,
            Some((content, j)) => Some((Json::Str(string_of(&content)), j)),
        }
    } else if c == '-' || is_digit_exec(c) {
        match parse_number(s, i) {
            None => None,
            Some((raw, j)) => Some((Json::Num(string_of(&raw)), j)),
        }
    } else if c == '[' {
        let j = skip_ws(s, i + 1);
        if j < s.len() && s[j] == ']' {
            let empty_items: Vec<Json> = Vec::new();
            proof {
                assert(jviews(empty_items@) =~= Seq::<JsonV>::empty());
            }
            Some((Json::Arr(empty_items), j + 1))
        } else {
            match parse_elems(s, j) {
                None => None,
                Some((items, e)) => Some((Json::Arr(items), e)),
            }
        }
    } else if c == '{' {
        let j = skip_ws(s, i + 1);
        if j < s.len() && s[j] == '}' {
            let empty_members: Vec<(String, Json)> = Vec::new();
            proof {
                assert(mviews(empty_members@) =~= Seq::<(Seq<char>, JsonV)>::empty());
            }
            Some((Json::Obj(empty_members), j + 1))
        } else {
            match parse_members(s, j) {
                None => None,
                Some((members, e)) => Some((Json::Obj(members), e)),
            }
        }
    } else {
        None
    }
}

/// Reads array elements up to the closing bracket, as executable code.
fn parse_elems(s: &Vec<char>, start: usize) -> (r: Option<(Vec<Json>, usize)>)
    requires
        start <= s@.len(),
    ensures
        r matches Some(p) ==> spec_parse_elems(s@, start as int, Seq::empty()) == Some(
            (jviews(p.0@), p.1 as int),
        ) && start < p.1 <= s@.len(),
        r is None ==> spec_parse_elems(s@, start as int, Seq::empty()) is None,
    decreases s@.len() - start, 3int,
{
    let mut acc: Vec<Json> = Vec::new();
    let mut pos = start;
    proof {
        assert(jviews(acc@) =~= Seq::<JsonV>::empty());
    }
    loop
        invariant
            start <= pos <= s@.len(),
            spec_parse_elems(s@, start as int, Seq::empty()) == spec_parse_elems(
                s@,
                pos as int,
                jviews(acc@),
            ),
        decreases s@.len() - pos,
    {
        match parse_value(s, pos) {
            None => {
                return None;
            },
            Some((v, j)) => {
                let k = skip_ws(s, j);
                if k >= s.len() {
                    return None;
                }
                if s[k] == ',' {
                    let m = skip_ws(s, k + 1);
                    proof {
                        crate::json::lemma_jviews_push(acc@, v);
                    }
                    acc.push(v);
                    pos = m;
                } else if s[k] == ']' {
                    proof {
                        crate::json::lemma_jviews_push(acc@, v);
                    }
                    acc.push(v);
                    return Some((acc, k + 1));
                } else {
                    return None;
                }
            },
        }
    }
}

/// Reads object members up to the closing brace, as executable code.
fn parse_members(s: &Vec<char>, start: usize) -> (r: Option<(Vec<(String, Json)>, usize)>)
    requires
        start <= s@.len(),
    ensures
        r matches Some(p) ==> spec_parse_members(s@, start as int, Seq::empty()) == Some(
            (mviews(p.0@), p.1 as int),
        ) && start < p.1 <= s@.len(),
        r is None ==> spec_parse_members(s@, start as int, Seq::empty()) is None,
    decreases s@.len() - start, 3int,
{
    let mut acc: Vec<(String, Json)> = Vec::new();
    let mut pos = start;
    proof {
        assert(mviews(acc@) =~= Seq::<(Seq<char>, JsonV)>::empty());
    }
    loop
        invariant
            start <= pos <= s@.len(),
            spec_parse_members(s@, start as int, Seq::empty()) == spec_parse_members(
                s@,
                pos as int,
                mviews(acc@),
            ),
        decreases s@.len() - pos,
    {
        if pos >= s.len() {
            return None;
        }
        if s[pos] != '"' {
            return None;
        }
        match parse_string_body(s, pos + 1) {
            None => {
                return None;
            },
            Some((key, j)) => {
                let k = skip_ws(s, j);
                if k >= s.len() {
                    return None;
                }
                if s[k] != ':' {
                    return None;
                }
                let m = skip_ws(s, k + 1);
                match parse_value(s, m) {
                    None => {
                        return None;
                    },
                    Some((v, e)) => {
                        let q = skip_ws(s, e);
                        if q >= s.len() {
                            return None;
                        }
                        if s[q] == ',' {
                            let w = skip_ws(s, q + 1);
                            let key_str = string_of(&key);
                            proof {
                                crate::json::lemma_mviews_push(acc@, (key_str, v));
                            }
                            acc.push((key_str, v));
                            pos = w;
                        } else if s[q] == '}' {
                            let key_str = string_of(&key);
                            proof {
                                crate::json::lemma_mviews_push(acc@, (key_str, v));
                            }
                            acc.push((key_str, v));
                            return Some((acc, q + 1));
                        } else {
                            return None;
                        }
                    },
                }
            },
        }
    }
}

/// Reads a whole JSON document, as executable code.
pub fn parse_json(s: &str) -> (r: Option<Json>)
    ensures
        r matches Some(j) ==> spec_parse_json(s@) == Some(j@),
        r is None ==> spec_parse_json(s@) is None,
{
    let v = crate::text::chars_of(s);
    let i = skip_ws(&v, 0);
    match parse_value(&v, i) {
        None => None,
        Some((j, e)) => {
            let k = skip_ws(&v, e);
            if k == v.len() {
                Some(j)
            } else {
                None
            }
        },
    }
}

} // verus!
