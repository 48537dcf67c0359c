//! The law the JSON module is built for: parsing the pretty-printed
//! text of a number-free value gives the value back.

use vstd::prelude::*;

use crate::json::{JsonV, esc, esc_char, num_free, spec_indent, spec_ser, spec_ser_items,
    spec_ser_members, hex_char};
use crate::json_parse::{spec_is_ws, spec_skip_ws, spec_parse_string_body, spec_parse_value,
    spec_parse_elems, spec_parse_members, spec_parse_json, spec_hex4_at, is_hex, hex_val};

verus! {

/// Indentation is all spaces, two per level.
pub proof fn lemma_indent(n: nat)
    ensures
        spec_indent(n).len() == 2 * n,
        forall|k: int| 0 <= k < 2 * n ==> spec_indent(n)[k] == ' ',
    decreases n,
{
    if n > 0 {
        lemma_indent((n - 1) as nat);
    }
}

/// Skipping whitespace from the start of a whitespace run stops at its
/// first non-whitespace position.
pub proof fn lemma_skip_ws_run(s: Seq<char>, i: int, j: int)
    requires
        0 <= i <= j <= s.len(),
        forall|k: int| i <= k < j ==> spec_is_ws(#[trigger] s[k]),
        j == s.len() || !spec_is_ws(s[j]),
    ensures
        spec_skip_ws(s, i) == j,
    decreases j - i,
{
    if i < j {
        lemma_skip_ws_run(s, i + 1, j);
    }
}

/// A part of a matched stretch of text is itself matched, at its offset.
pub proof fn lemma_subrange_within(s: Seq<char>, i: int, t: Seq<char>, off: int, part: Seq<char>)
    requires
        0 <= i,
        i + t.len() <= s.len(),
        s.subrange(i, i + t.len()) == t,
        0 <= off,
        off + part.len() <= t.len(),
        t.subrange(off, off + part.len()) == part,
    ensures
        s.subrange(i + off, i + off + part.len()) == part,
{
    assert forall|k: int| 0 <= k < part.len() implies s[i + off + k] == part[k] by {
        assert(t[off + k] == t.subrange(off, off + part.len())[k]);
        assert(s[i + off + k] == s.subrange(i, i + t.len())[off + k]);
    }
    assert(s.subrange(i + off, i + off + part.len()) =~= part);
}

/// A character of a matched stretch of text stands in `s` at its offset.
pub proof fn lemma_char_within(s: Seq<char>, i: int, t: Seq<char>, off: int)
    requires
        0 <= i,
        i + t.len() <= s.len(),
        s.subrange(i, i + t.len()) == t,
        0 <= off < t.len(),
    ensures
        s[i + off] == t[off],
{
    assert(s[i + off] == s.subrange(i, i + t.len())[off]);
}

/// Every hexadecimal digit character carries its digit's value.
pub proof fn lemma_hex_char(d: nat)
    requires
        d < 16,
    ensures
        is_hex(hex_char(d)),
        hex_val(hex_char(d)) == d,
{
    if d < 10 {
        crate::rfc3339::lemma_digit_char(d);
    }
}

/// Reading escaped string content back through the parser yields the
/// original characters.
pub proof fn lemma_parse_esc(s: Seq<char>, i: int, c: Seq<char>, acc: Seq<char>)
    requires
        0 <= i,
        i + esc(c).len() < s.len(),
        s.subrange(i, i + esc(c).len()) == esc(c),
        s[i + esc(c).len()] == '"',
    ensures
        spec_parse_string_body(s, i, acc) == Some((acc + c, i + esc(c).len() + 1)),
    decreases c.len(),
{
    if c.len() == 0 {
        assert(acc + c =~= acc);
    } else {
        let c0 = c[0];
        let rest = c.drop_first();
        assert(c =~= seq![c0] + rest);
        assert(esc(c) == esc_char(c0) + esc(rest));
        let e0 = esc_char(c0);
        let l0 = e0.len() as int;
        let lr = esc(rest).len() as int;
        assert(esc(c).len() == l0 + lr);
        assert(esc(c).subrange(0, l0) =~= e0);
        assert(esc(c).subrange(l0, l0 + lr) =~= esc(rest));
        lemma_subrange_within(s, i, esc(c), 0, e0);
        lemma_subrange_within(s, i, esc(c), l0, esc(rest));
        assert forall|k: int| 0 <= k < l0 implies s[i + k] == e0[k] by {
            lemma_char_within(s, i, e0, k);
        }
        lemma_parse_esc(s, i + l0, rest, acc.push(c0));
        assert(acc.push(c0) + rest =~= acc + c);
        if c0 == '"' || c0 == '\\' || c0 == '\u{8}' || c0 == '\u{c}' || c0 == '\n' || c0 == '\r'
            || c0 == '\t' {
            assert(s[i] == '\\');
            assert(spec_parse_string_body(s, i, acc) == spec_parse_string_body(
                s,
                i + 2,
                acc.push(c0),
            ));
        } else if (c0 as u32) < 0x20 {
            assert(e0 == seq!['\\', 'u', '0', '0', hex_char((c0 as u32 / 16) as nat), hex_char((
            c0 as u32 % 16) as nat)]);
            assert(s[i] == '\\');
            assert(s[i + 1] == 'u');
            assert(s[i + 2] == '0');
            assert(s[i + 3] == '0');
            let h1 = hex_char((c0 as u32 / 16) as nat);
            let h2 = hex_char((c0 as u32 % 16) as nat);
            assert(s[i + 4] == h1);
            assert(s[i + 5] == h2);
            lemma_hex_char((c0 as u32 / 16) as nat);
            lemma_hex_char((c0 as u32 % 16) as nat);
            crate::rfc3339::lemma_digit_char(0);
            assert(is_hex('0') && hex_val('0') == 0);
            let v = spec_hex4_at(s, i + 2);
            assert(i + 6 <= s.len());
            assert(v == Some(
                4096 * hex_val(s[i + 2]) + 256 * hex_val(s[i + 3]) + 16 * hex_val(s[i + 4])
                    + hex_val(s[i + 5]),
            ));
            assert(v == Some(16 * (c0 as u32 / 16) + (c0 as u32 % 16) as int));
            assert(16 * (c0 as u32 / 16) + (c0 as u32 % 16) == c0 as u32);
            let code = c0 as u32 as int;
            assert(v == Some(code));
            assert(code < 0x20);
            vstd::utf8::char_u32_cast(c0, c0 as u32);
            assert((code as u32) as char == c0);
            assert(spec_parse_string_body(s, i, acc) == spec_parse_string_body(
                s,
                i + 6,
                acc.push(c0),
            ));
        } else {
            assert(e0 == seq![c0]);
            assert(s[i] == c0);
            assert(s[i] != '"' && s[i] != '\\' && (s[i] as u32) >= 0x20);
            assert(spec_parse_string_body(s, i, acc) == spec_parse_string_body(
                s,
                i + 1,
                acc.push(c0),
            ));
        }
    }
}

/// The printed text of a number-free value is nonempty and starts with
/// one of the six value-opening characters, never with whitespace.
pub proof fn lemma_ser_starts(v: JsonV, ind: nat)
    requires
        num_free(v),
    ensures
        spec_ser(v, ind).len() >= 1,
        spec_ser(v, ind)[0] == 'n' || spec_ser(v, ind)[0] == 't' || spec_ser(v, ind)[0] == 'f'
            || spec_ser(v, ind)[0] == '"' || spec_ser(v, ind)[0] == '[' || spec_ser(v, ind)[0]
            == '{',
        !spec_is_ws(spec_ser(v, ind)[0]),
{
    match v {
        JsonV::Str(c) => {
            assert(spec_ser(v, ind)[0] == '"');
        },
        JsonV::Arr(items) => {
            if items.len() > 0 {
                assert(spec_ser(v, ind)[0] == '[');
            }
        },
        JsonV::Obj(members) => {
            if members.len() > 0 {
                assert(spec_ser(v, ind)[0] == '{');
            }
        },
        _ => {},
    }
}

/// Parsing the printed text of a number-free value, embedded in a
/// larger text, reads exactly the value and stops right after it.
#[verifier::rlimit(100)]
pub proof fn lemma_parse_ser(s: Seq<char>, i: int, v: JsonV, ind: nat)
    requires
        num_free(v),
        0 <= i,
        i + spec_ser(v, ind).len() <= s.len(),
        s.subrange(i, i + spec_ser(v, ind).len()) == spec_ser(v, ind),
    ensures
        spec_parse_value(s, i) == Some((v, i + spec_ser(v, ind).len())),
    decreases v, 0int,
{
    let t = spec_ser(v, ind);
    let l = t.len() as int;
    match v {
        JsonV::Null => {
            lemma_char_within(s, i, t, 0);
            lemma_char_within(s, i, t, 1);
            lemma_char_within(s, i, t, 2);
            lemma_char_within(s, i, t, 3);
        },
        JsonV::Bool(b) => {
            lemma_char_within(s, i, t, 0);
            lemma_char_within(s, i, t, 1);
            lemma_char_within(s, i, t, 2);
            lemma_char_within(s, i, t, 3);
            if !b {
                lemma_char_within(s, i, t, 4);
            }
        },
        JsonV::Num(_) => {
            assert(false);
        },
        JsonV::Str(c) => {
            let el = esc(c).len() as int;
            assert(t[0] == '"');
            assert(t.subrange(1, 1 + el) =~= esc(c));
            assert(t[1 + el] == '"');
            lemma_char_within(s, i, t, 0);
            lemma_subrange_within(s, i, t, 1, esc(c));
            lemma_char_within(s, i, t, 1 + el);
            lemma_parse_esc(s, i + 1, c, Seq::empty());
            assert(Seq::empty() + c =~= c);
        },
        JsonV::Arr(items) => {
            if items.len() == 0 {
                assert(items =~= Seq::<JsonV>::empty());
                lemma_char_within(s, i, t, 0);
                lemma_char_within(s, i, t, 1);
                lemma_skip_ws_run(s, i + 1, i + 1);
            } else {
                assert forall|n: int| 0 <= n < items.len() implies num_free(
                    #[trigger] items[n],
                ) by {
                    assert(num_free(v));
                }
                lemma_parse_ser_arr(s, i, items, ind);
            }
        },
        JsonV::Obj(members) => {
            if members.len() == 0 {
                assert(members =~= Seq::<(Seq<char>, JsonV)>::empty());
                lemma_char_within(s, i, t, 0);
                lemma_char_within(s, i, t, 1);
                lemma_skip_ws_run(s, i + 1, i + 1);
            } else {
                assert forall|n: int| 0 <= n < members.len() implies num_free(
                    #[trigger] members[n].1,
                ) by {
                    assert(num_free(v));
                }
                lemma_parse_ser_obj(s, i, members, ind);
            }
        },
    }
}

/// The array case of [`lemma_parse_ser`], for a nonempty array.
#[verifier::rlimit(100)]
proof fn lemma_parse_ser_arr(s: Seq<char>, i: int, items: Seq<JsonV>, ind: nat)
    requires
        forall|n: int| 0 <= n < items.len() ==> num_free(#[trigger] items[n]),
        items.len() > 0,
        0 <= i,
        i + spec_ser(JsonV::Arr(items), ind).len() <= s.len(),
        s.subrange(i, i + spec_ser(JsonV::Arr(items), ind).len()) == spec_ser(
            JsonV::Arr(items),
            ind,
        ),
    ensures
        spec_parse_value(s, i) == Some(
            (JsonV::Arr(items), i + spec_ser(JsonV::Arr(items), ind).len()),
        ),
    decreases items, items.len() as int + 1,
{
    let t = spec_ser(JsonV::Arr(items), ind);
    let l = t.len() as int;
    let w: int = 2 * (ind as int + 1);
    let tail = spec_ser_items(items, (ind + 1) as nat, 0);
    lemma_indent((ind + 1) as nat);
    assert(t == seq!['[', '\n'] + spec_indent((ind + 1) as nat) + tail);
    assert(t[0] == '[');
    assert(t[1] == '\n');
    assert forall|q: int| 0 <= q < w implies #[trigger] t[2 + q] == ' ' by {
        assert(t[2 + q] == spec_indent((ind + 1) as nat)[q]);
    }
    lemma_ser_starts(items[0], (ind + 1) as nat);
    assert(tail[0] == spec_ser(items[0], (ind + 1) as nat)[0]);
    assert(t[2 + w] == tail[0]);
    assert forall|k: int| i + 1 <= k < i + 2 + w implies spec_is_ws(#[trigger] s[k]) by {
        lemma_char_within(s, i, t, k - i);
    }
    lemma_char_within(s, i, t, 0);
    lemma_char_within(s, i, t, 2 + w);
    lemma_skip_ws_run(s, i + 1, i + 2 + w);
    let j = i + 2 + w;
    assert(s[j] != ']');
    assert(t.subrange(2 + w, l) =~= tail);
    lemma_subrange_within(s, i, t, 2 + w, tail);
    lemma_parse_items(s, j, items, (ind + 1) as nat, 0, Seq::empty());
    assert(Seq::empty() + items.subrange(0, items.len() as int) =~= items);
    assert(spec_parse_value(s, i) == Some((JsonV::Arr(items), i + l)));
}

/// The object case of [`lemma_parse_ser`], for a nonempty object.
#[verifier::rlimit(100)]
proof fn lemma_parse_ser_obj(s: Seq<char>, i: int, members: Seq<(Seq<char>, JsonV)>, ind: nat)
    requires
        forall|n: int| 0 <= n < members.len() ==> num_free(#[trigger] members[n].1),
        members.len() > 0,
        0 <= i,
        i + spec_ser(JsonV::Obj(members), ind).len() <= s.len(),
        s.subrange(i, i + spec_ser(JsonV::Obj(members), ind).len()) == spec_ser(
            JsonV::Obj(members),
            ind,
        ),
    ensures
        spec_parse_value(s, i) == Some(
            (JsonV::Obj(members), i + spec_ser(JsonV::Obj(members), ind).len()),
        ),
    decreases members, members.len() as int + 1,
{
    let t = spec_ser(JsonV::Obj(members), ind);
    let l = t.len() as int;
    let w: int = 2 * (ind as int + 1);
    let tail = spec_ser_members(members, (ind + 1) as nat, 0);
    lemma_indent((ind + 1) as nat);
    assert(t == seq!['{', '\n'] + spec_indent((ind + 1) as nat) + tail);
    assert(t[0] == '{');
    assert(t[1] == '\n');
    assert forall|q: int| 0 <= q < w implies #[trigger] t[2 + q] == ' ' by {
        assert(t[2 + q] == spec_indent((ind + 1) as nat)[q]);
    }
    assert(tail[0] == '"');
    assert(t[2 + w] == tail[0]);
    assert forall|k: int| i + 1 <= k < i + 2 + w implies spec_is_ws(#[trigger] s[k]) by {
        lemma_char_within(s, i, t, k - i);
    }
    lemma_char_within(s, i, t, 0);
    lemma_char_within(s, i, t, 2 + w);
    lemma_skip_ws_run(s, i + 1, i + 2 + w);
    let j = i + 2 + w;
    assert(s[j] != '}');
    assert(t.subrange(2 + w, l) =~= tail);
    lemma_subrange_within(s, i, t, 2 + w, tail);
    lemma_parse_members(s, j, members, (ind + 1) as nat, 0, Seq::empty());
    assert(Seq::empty() + members.subrange(0, members.len() as int) =~= members);
    assert(spec_parse_value(s, i) == Some((JsonV::Obj(members), i + l)));
}

/// Parsing printed array elements, embedded in a larger text, reads
/// exactly the remaining elements and the closing bracket.
#[verifier::rlimit(100)]
pub proof fn lemma_parse_items(
    s: Seq<char>,
    i: int,
    items: Seq<JsonV>,
    ind: nat,
    k: int,
    acc: Seq<JsonV>,
)
    requires
        forall|n: int| 0 <= n < items.len() ==> num_free(#[trigger] items[n]),
        ind >= 1,
        0 <= k < items.len(),
        0 <= i,
        i + spec_ser_items(items, ind, k).len() <= s.len(),
        s.subrange(i, i + spec_ser_items(items, ind, k).len()) == spec_ser_items(items, ind, k),
    ensures
        spec_parse_elems(s, i, acc) == Some(
            (acc + items.subrange(k, items.len() as int), i + spec_ser_items(
                items,
                ind,
                k,
            ).len()),
        ),
    decreases items, items.len() - k,
{
    let t = spec_ser_items(items, ind, k);
    let l = t.len() as int;
    let tk = spec_ser(items[k], ind);
    let lk = tk.len() as int;
    assert(num_free(items[k]));
    lemma_ser_starts(items[k], ind);
    assert(t.subrange(0, lk) =~= tk);
    lemma_subrange_within(s, i, t, 0, tk);
    lemma_parse_ser(s, i, items[k], ind);
    let j = i + lk;
    if k + 1 < items.len() {
        let w: int = 2 * (ind as int);
        let rest = spec_ser_items(items, ind, k + 1);
        lemma_indent(ind);
        assert(t == tk + (seq![',', '\n'] + spec_indent(ind) + rest));
        assert(t[lk] == ',');
        assert(t[lk + 1] == '\n');
        assert forall|q: int| 0 <= q < w implies #[trigger] t[lk + 2 + q] == ' ' by {
            assert(t[lk + 2 + q] == spec_indent(ind)[q]);
        }
        assert(num_free(items[k + 1]));
        lemma_ser_starts(items[k + 1], ind);
        assert(rest[0] == spec_ser(items[k + 1], ind)[0]);
        assert(t[lk + 2 + w] == rest[0]);
        lemma_char_within(s, i, t, lk);
        lemma_skip_ws_run(s, j, j);
        assert forall|p: int| j + 1 <= p < j + 2 + w implies spec_is_ws(#[trigger] s[p]) by {
            lemma_char_within(s, i, t, p - i);
        }
        lemma_char_within(s, i, t, lk + 2 + w);
        lemma_skip_ws_run(s, j + 1, j + 2 + w);
        let m = j + 2 + w;
        assert(t.subrange(lk + 2 + w, l) =~= rest);
        lemma_subrange_within(s, i, t, lk + 2 + w, rest);
        lemma_parse_items(s, m, items, ind, k + 1, acc.push(items[k]));
        assert(items.subrange(k, items.len() as int) =~= seq![items[k]] + items.subrange(
            k + 1,
            items.len() as int,
        ));
        assert(acc.push(items[k]) + items.subrange(k + 1, items.len() as int) =~= acc
            + items.subrange(k, items.len() as int));
        assert(spec_parse_elems(s, i, acc) == Some(
            (acc + items.subrange(k, items.len() as int), i + l),
        ));
    } else {
        let w: int = 2 * (ind as int - 1);
        lemma_indent((ind - 1) as nat);
        assert(t == tk + (seq!['\n'] + spec_indent((ind - 1) as nat) + seq![']']));
        assert(t[lk] == '\n');
        assert forall|q: int| 0 <= q < w implies #[trigger] t[lk + 1 + q] == ' ' by {
            assert(t[lk + 1 + q] == spec_indent((ind - 1) as nat)[q]);
        }
        assert(t[lk + 1 + w] == ']');
        assert forall|p: int| j <= p < j + 1 + w implies spec_is_ws(#[trigger] s[p]) by {
            lemma_char_within(s, i, t, p - i);
        }
        lemma_char_within(s, i, t, lk + 1 + w);
        lemma_skip_ws_run(s, j, j + 1 + w);
        let q = j + 1 + w;
        assert(s[q] == ']');
        assert(items.subrange(k, items.len() as int) =~= seq![items[k]]);
        assert(acc.push(items[k]) =~= acc + items.subrange(k, items.len() as int));
        assert(spec_parse_elems(s, i, acc) == Some(
            (acc + items.subrange(k, items.len() as int), i + l),
        ));
    }
}

/// Parsing printed object members, embedded in a larger text, reads
/// exactly the remaining members and the closing brace.
#[verifier::rlimit(100)]
pub proof fn lemma_parse_members(
    s: Seq<char>,
    i: int,
    members: Seq<(Seq<char>, JsonV)>,
    ind: nat,
    k: int,
    acc: Seq<(Seq<char>, JsonV)>,
)
    requires
        forall|n: int| 0 <= n < members.len() ==> num_free(#[trigger] members[n].1),
        ind >= 1,
        0 <= k < members.len(),
        0 <= i,
        i + spec_ser_members(members, ind, k).len() <= s.len(),
        s.subrange(i, i + spec_ser_members(members, ind, k).len()) == spec_ser_members(
            members,
            ind,
            k,
        ),
    ensures
        spec_parse_members(s, i, acc) == Some(
            (acc + members.subrange(k, members.len() as int), i + spec_ser_members(
                members,
                ind,
                k,
            ).len()),
        ),
    decreases members, members.len() - k,
{
    let t = spec_ser_members(members, ind, k);
    let l = t.len() as int;
    let key = members[k].0;
    let ek = esc(key).len() as int;
    let tv = spec_ser(members[k].1, ind);
    let lv = tv.len() as int;
    assert(num_free(members[k].1));
    lemma_ser_starts(members[k].1, ind);
    let head = seq!['"'] + esc(key) + seq!['"', ':', ' '];
    let hl = ek + 4;
    assert(t[0] == '"');
    assert(t.subrange(1, 1 + ek) =~= esc(key));
    assert(t[1 + ek] == '"');
    assert(t[2 + ek] == ':');
    assert(t[3 + ek] == ' ');
    lemma_char_within(s, i, t, 0);
    lemma_subrange_within(s, i, t, 1, esc(key));
    lemma_char_within(s, i, t, 1 + ek);
    lemma_char_within(s, i, t, 2 + ek);
    lemma_char_within(s, i, t, 3 + ek);
    lemma_parse_esc(s, i + 1, key, Seq::empty());
    assert(Seq::empty() + key =~= key);
    let j = i + 2 + ek;
    lemma_skip_ws_run(s, j, j);
    assert(t.subrange(hl, hl + lv) =~= tv);
    lemma_subrange_within(s, i, t, hl, tv);
    assert(t[hl] == tv[0]);
    lemma_char_within(s, i, t, hl);
    lemma_skip_ws_run(s, j + 1, i + hl);
    let m = i + hl;
    lemma_parse_ser(s, m, members[k].1, ind);
    let e = m + lv;
    if k + 1 < members.len() {
        let w: int = 2 * (ind as int);
        let rest = spec_ser_members(members, ind, k + 1);
        lemma_indent(ind);
        assert(t == head + tv + (seq![',', '\n'] + spec_indent(ind) + rest));
        assert(t[hl + lv] == ',');
        assert(t[hl + lv + 1] == '\n');
        assert forall|q: int| 0 <= q < w implies #[trigger] t[hl + lv + 2 + q] == ' ' by {
            assert(t[hl + lv + 2 + q] == spec_indent(ind)[q]);
        }
        assert(rest[0] == '"');
        assert(t[hl + lv + 2 + w] == rest[0]);
        lemma_char_within(s, i, t, hl + lv);
        lemma_skip_ws_run(s, e, e);
        assert forall|p: int| e + 1 <= p < e + 2 + w implies spec_is_ws(#[trigger] s[p]) by {
            lemma_char_within(s, i, t, p - i);
        }
        lemma_char_within(s, i, t, hl + lv + 2 + w);
        lemma_skip_ws_run(s, e + 1, e + 2 + w);
        let ww = e + 2 + w;
        assert(t.subrange(hl + lv + 2 + w, l) =~= rest);
        lemma_subrange_within(s, i, t, hl + lv + 2 + w, rest);
        lemma_parse_members(s, ww, members, ind, k + 1, acc.push(members[k]));
        assert(members.subrange(k, members.len() as int) =~= seq![members[k]] + members.subrange(
            k + 1,
            members.len() as int,
        ));
        assert(acc.push(members[k]) + members.subrange(k + 1, members.len() as int) =~= acc
            + members.subrange(k, members.len() as int));
        assert(spec_parse_members(s, i, acc) == Some(
            (acc + members.subrange(k, members.len() as int), i + l),
        ));
    } else {
        let w: int = 2 * (ind as int - 1);
        lemma_indent((ind - 1) as nat);
        assert(t == head + tv + (seq!['\n'] + spec_indent((ind - 1) as nat) + seq!['}']));
        assert(t[hl + lv] == '\n');
        assert forall|q: int| 0 <= q < w implies #[trigger] t[hl + lv + 1 + q] == ' ' by {
            assert(t[hl + lv + 1 + q] == spec_indent((ind - 1) as nat)[q]);
        }
        assert(t[hl + lv + 1 + w] == '}');
        assert forall|p: int| e <= p < e + 1 + w implies spec_is_ws(#[trigger] s[p]) by {
            lemma_char_within(s, i, t, p - i);
        }
        lemma_char_within(s, i, t, hl + lv + 1 + w);
        lemma_skip_ws_run(s, e, e + 1 + w);
        let q = e + 1 + w;
        assert(s[q] == '}');
        assert(members.subrange(k, members.len() as int) =~= seq![members[k]]);
        assert(acc.push(members[k]) =~= acc + members.subrange(k, members.len() as int));
        assert(spec_parse_members(s, i, acc) == Some(
            (acc + members.subrange(k, members.len() as int), i + l),
        ));
    }
}

/// Parsing the pretty-printed document of a number-free value gives the
/// value back.
pub proof fn lemma_json_round_trip(v: JsonV)
    requires
        num_free(v),
    ensures
        spec_parse_json(spec_ser(v, 0)) == Some(v),
{
    let s = spec_ser(v, 0);
    lemma_ser_starts(v, 0);
    lemma_skip_ws_run(s, 0, 0);
    assert(s.subrange(0, s.len() as int) =~= s);
    lemma_parse_ser(s, 0, v, 0);
    lemma_skip_ws_run(s, s.len() as int, s.len() as int);
}

} // verus!
