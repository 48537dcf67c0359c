//! A small JSON model: a value tree, a pretty printer, and a parser.
//!
//! The printer writes the layout the store file uses: two-space
//! indentation, one array element or object member per line, and `[]` /
//! `{}` for empty containers. The parser accepts any JSON text: numbers
//! are kept as their raw characters (the store schema never reads one),
//! strings decode the usual escapes including `\uXXXX` with surrogate
//! pairs.

use vstd::prelude::*;

use crate::text::chars_of;

verus! {

broadcast use vstd::std_specs::vec::group_vec_axioms, vstd::seq::axiom_seq_index_decreases, vstd::seq::axiom_seq_subrange_decreases;

/// A JSON value. Numbers keep their raw text: the store schema treats
/// them only as values to be skipped over.
pub enum Json {
    Null,
    Bool(bool),
    Num(String),
    Str(String),
    Arr(Vec<Json>),
    Obj(Vec<(String, Json)>),
}

/// The mathematical shape of a JSON value.
pub enum JsonV {
    Null,
    Bool(bool),
    Num(Seq<char>),
    Str(Seq<char>),
    Arr(Seq<JsonV>),
    Obj(Seq<(Seq<char>, JsonV)>),
}

/// The mathematical shape of an executable JSON value.
pub open spec fn jview(j: Json) -> JsonV
    decreases j,
{
    match j {
        Json::Null => JsonV::Null,
        Json::Bool(b) => JsonV::Bool(b),
        Json::Num(s) => JsonV::Num(s@),
        Json::Str(s) => JsonV::Str(s@),
        Json::Arr(items) => JsonV::Arr(jviews(items@)),
        Json::Obj(members) => JsonV::Obj(mviews(members@)),
    }
}

/// The shapes of a sequence of executable JSON values.
pub open spec fn jviews(items: Seq<Json>) -> Seq<JsonV>
    decreases items,
{
    if items.len() == 0 {
        Seq::empty()
    } else {
        seq![jview(items[0])] + jviews(items.subrange(1, items.len() as int))
    }
}

/// The shapes of a sequence of executable JSON object members.
pub open spec fn mviews(members: Seq<(String, Json)>) -> Seq<(Seq<char>, JsonV)>
    decreases members,
{
    if members.len() == 0 {
        Seq::empty()
    } else {
        seq![(members[0].0@, jview(members[0].1))] + mviews(
            members.subrange(1, members.len() as int),
        )
    }
}

/// Element `i` of `jviews` is the shape of element `i`.
pub proof fn lemma_jviews_index(items: Seq<Json>)
    ensures
        jviews(items).len() == items.len(),
        forall|i: int| 0 <= i < items.len() ==> jviews(items)[i] == jview(#[trigger] items[i]),
    decreases items,
{
    if items.len() > 0 {
        let tail = items.subrange(1, items.len() as int);
        lemma_jviews_index(tail);
        assert forall|i: int| 0 <= i < items.len() implies jviews(items)[i] == jview(
            #[trigger] items[i],
        ) by {
            if i > 0 {
                assert(tail[i - 1] == items[i]);
                assert(jviews(items)[i] == jviews(tail)[i - 1]);
            }
        }
    }
}

/// Element `i` of `mviews` is the shape of member `i`.
pub proof fn lemma_mviews_index(members: Seq<(String, Json)>)
    ensures
        mviews(members).len() == members.len(),
        forall|i: int|
            0 <= i < members.len() ==> mviews(members)[i] == (
            #[trigger] members[i].0@,
            jview(members[i].1),
            ),
    decreases members,
{
    if members.len() > 0 {
        let tail = members.subrange(1, members.len() as int);
        lemma_mviews_index(tail);
        assert forall|i: int| 0 <= i < members.len() implies mviews(members)[i] == (
            #[trigger] members[i].0@,
            jview(members[i].1),
        ) by {
            if i > 0 {
                assert(tail[i - 1] == members[i]);
                assert(mviews(members)[i] == mviews(tail)[i - 1]);
            }
        }
    }
}

/// Pushing an element commutes with taking shapes.
pub proof fn lemma_jviews_push(items: Seq<Json>, x: Json)
    ensures
        jviews(items.push(x)) == jviews(items).push(jview(x)),
    decreases items,
{
    let p = items.push(x);
    if items.len() == 0 {
        assert(p.subrange(1, p.len() as int) =~= Seq::<Json>::empty());
        assert(jviews(p) == seq![jview(x)] + jviews(Seq::<Json>::empty()));
        assert(seq![jview(x)] + Seq::<JsonV>::empty() =~= seq![jview(x)]);
        assert(jviews(items) =~= Seq::<JsonV>::empty());
        assert(jviews(items).push(jview(x)) =~= seq![jview(x)]);
    } else {
        let tail = items.subrange(1, items.len() as int);
        assert(p.subrange(1, p.len() as int) =~= tail.push(x));
        lemma_jviews_push(tail, x);
        assert(p[0] == items[0]);
        assert(jviews(p) == seq![jview(items[0])] + jviews(tail).push(jview(x)));
        assert(jviews(items) == seq![jview(items[0])] + jviews(tail));
        assert(seq![jview(items[0])] + jviews(tail).push(jview(x)) =~= (seq![jview(items[0])]
            + jviews(tail)).push(jview(x)));
    }
}

/// Pushing a member commutes with taking shapes.
pub proof fn lemma_mviews_push(members: Seq<(String, Json)>, x: (String, Json))
    ensures
        mviews(members.push(x)) == mviews(members).push((x.0@, jview(x.1))),
    decreases members,
{
    let p = members.push(x);
    let xv = (x.0@, jview(x.1));
    if members.len() == 0 {
        assert(p.subrange(1, p.len() as int) =~= Seq::<(String, Json)>::empty());
        assert(mviews(p) == seq![xv] + mviews(Seq::<(String, Json)>::empty()));
        assert(seq![xv] + Seq::<(Seq<char>, JsonV)>::empty() =~= seq![xv]);
        assert(mviews(members) =~= Seq::<(Seq<char>, JsonV)>::empty());
        assert(mviews(members).push(xv) =~= seq![xv]);
    } else {
        let tail = members.subrange(1, members.len() as int);
        let hv = (members[0].0@, jview(members[0].1));
        assert(p.subrange(1, p.len() as int) =~= tail.push(x));
        lemma_mviews_push(tail, x);
        assert(p[0] == members[0]);
        assert(mviews(p) == seq![hv] + mviews(tail).push(xv));
        assert(mviews(members) == seq![hv] + mviews(tail));
        assert(seq![hv] + mviews(tail).push(xv) =~= (seq![hv] + mviews(tail)).push(xv));
    }
}

/// The nesting depth of a value: how many containers sit around its
/// deepest leaf.
pub open spec fn jdepth(v: JsonV) -> nat
    decreases v, 0int,
{
    match v {
        JsonV::Arr(items) => 1 + jdepth_items(items),
        JsonV::Obj(members) => 1 + jdepth_members(members),
        _ => 0,
    }
}

/// The greatest nesting depth among `items`.
pub open spec fn jdepth_items(items: Seq<JsonV>) -> nat
    decreases items, 1int,
{
    if items.len() == 0 {
        0
    } else {
        let head = jdepth(items[0]);
        let rest = jdepth_items(items.subrange(1, items.len() as int));
        if head >= rest {
            head
        } else {
            rest
        }
    }
}

/// The greatest nesting depth among the values of `members`.
pub open spec fn jdepth_members(members: Seq<(Seq<char>, JsonV)>) -> nat
    decreases members, 1int,
{
    if members.len() == 0 {
        0
    } else {
        let head = jdepth(members[0].1);
        let rest = jdepth_members(members.subrange(1, members.len() as int));
        if head >= rest {
            head
        } else {
            rest
        }
    }
}

/// No element is deeper than the greatest depth among them.
pub proof fn lemma_jdepth_items_bound(items: Seq<JsonV>)
    ensures
        forall|i: int| 0 <= i < items.len() ==> jdepth(#[trigger] items[i]) <= jdepth_items(items),
    decreases items,
{
    if items.len() > 0 {
        let tail = items.subrange(1, items.len() as int);
        lemma_jdepth_items_bound(tail);
        assert forall|i: int| 0 <= i < items.len() implies jdepth(#[trigger] items[i])
            <= jdepth_items(items) by {
            if i > 0 {
                assert(tail[i - 1] == items[i]);
            }
        }
    }
}

/// No member value is deeper than the greatest depth among them.
pub proof fn lemma_jdepth_members_bound(members: Seq<(Seq<char>, JsonV)>)
    ensures
        forall|i: int|
            0 <= i < members.len() ==> jdepth(#[trigger] members[i].1) <= jdepth_members(members),
    decreases members,
{
    if members.len() > 0 {
        let tail = members.subrange(1, members.len() as int);
        lemma_jdepth_members_bound(tail);
        assert forall|i: int| 0 <= i < members.len() implies jdepth(#[trigger] members[i].1)
            <= jdepth_members(members) by {
            if i > 0 {
                assert(tail[i - 1] == members[i]);
            }
        }
    }
}

impl View for Json {
    type V = JsonV;

    open spec fn view(&self) -> JsonV {
        jview(*self)
    }
}

/// Whether a value holds no number anywhere. The printer and parser
/// round-trip exactly on such values; the store writes no numbers.
pub open spec fn num_free(v: JsonV) -> bool
    decreases v,
{
    match v {
        JsonV::Null => true,
        JsonV::Bool(_) => true,
        JsonV::Num(_) => false,
        JsonV::Str(_) => true,
        JsonV::Arr(items) => forall|i: int| 0 <= i < items.len() ==> num_free(#[trigger] items[i]),
        JsonV::Obj(members) => forall|i: int|
            0 <= i < members.len() ==> num_free(#[trigger] members[i].1),
    }
}

/// The character for a hexadecimal digit, lower case.
pub open spec fn hex_char(d: nat) -> char {
    if d < 10 {
        crate::text::digit_char(d)
    } else if d == 10 {
        'a'
    } else if d == 11 {
        'b'
    } else if d == 12 {
        'c'
    } else if d == 13 {
        'd'
    } else if d == 14 {
        'e'
    } else {
        'f'
    }
}

/// How one character is written inside a JSON string: itself, a short
/// escape, or `\u00XX` for the remaining control characters.
pub open spec fn esc_char(c: char) -> Seq<char> {
    if c == '"' {
        seq!['\\', '"']
    } else if c == '\\' {
        seq!['\\', '\\']
    } else if c == '\u{8}' {
        seq!['\\', 'b']
    } else if c == '\u{c}' {
        seq!['\\', 'f']
    } else if c == '\n' {
        seq!['\\', 'n']
    } else if c == '\r' {
        seq!['\\', 'r']
    } else if c == '\t' {
        seq!['\\', 't']
    } else if (c as u32) < 0x20 {
        seq!['\\', 'u', '0', '0', hex_char((c as u32 / 16) as nat), hex_char((c as u32 % 16) as nat)]
    } else {
        seq![c]
    }
}

/// How a whole string is written inside JSON quotes.
pub open spec fn esc(s: Seq<char>) -> Seq<char>
    decreases s.len(),
{
    if s.len() == 0 {
        Seq::empty()
    } else {
        esc_char(s[0]) + esc(s.drop_first())
    }
}

/// Escaping distributes over concatenation.
pub proof fn lemma_esc_append(a: Seq<char>, b: Seq<char>)
    ensures
        esc(a + b) == esc(a) + esc(b),
    decreases a.len(),
{
    if a.len() == 0 {
        assert(a + b =~= b);
        assert(esc(a) + esc(b) =~= esc(b));
    } else {
        assert((a + b).drop_first() =~= a.drop_first() + b);
        lemma_esc_append(a.drop_first(), b);
        assert(esc(a) + esc(b) =~= esc_char(a[0]) + (esc(a.drop_first()) + esc(b)));
        assert(esc(a + b) == esc_char(a[0]) + esc((a + b).drop_first()));
    }
}

/// The indentation for nesting depth `n`: two spaces per level.
pub open spec fn spec_indent(n: nat) -> Seq<char>
    decreases n,
{
    if n == 0 {
        Seq::empty()
    } else {
        spec_indent((n - 1) as nat) + seq![' ', ' ']
    }
}

/// The pretty-printed text of a value at nesting depth `ind`.
pub open spec fn spec_ser(v: JsonV, ind: nat) -> Seq<char>
    decreases v, 0int,
{
    match v {
        JsonV::Null => seq!['n', 'u', 'l', 'l'],
        JsonV::Bool(b) => if b {
            seq!['t', 'r', 'u', 'e']
        } else {
            seq!['f', 'a', 'l', 's', 'e']
        },
        JsonV::Num(raw) => raw,
        JsonV::Str(s) => seq!['"'] + esc(s) + seq!['"'],
        JsonV::Arr(items) => if items.len() == 0 {
            seq!['[', ']']
        } else {
            seq!['[', '\n'] + spec_indent(ind + 1) + spec_ser_items(items, (ind + 1) as nat, 0)
        },
        JsonV::Obj(members) => if members.len() == 0 {
            seq!['{', '}']
        } else {
            seq!['{', '\n'] + spec_indent(ind + 1) + spec_ser_members(members, (ind + 1) as nat, 0)
        },
    }
}

/// The text from array element `k` on, up to and including the closing
/// bracket, at element depth `ind`.
pub open spec fn spec_ser_items(items: Seq<JsonV>, ind: nat, k: int) -> Seq<char>
    decreases items, items.len() - k,
{
    if 0 <= k < items.len() {
        spec_ser(items[k], ind) + if k + 1 < items.len() {
            seq![',', '\n'] + spec_indent(ind) + spec_ser_items(items, ind, k + 1)
        } else {
            seq!['\n'] + spec_indent((ind - 1) as nat) + seq![']']
        }
    } else {
        Seq::empty()
    }
}

/// The text from object member `k` on, up to and including the closing
/// brace, at member depth `ind`.
pub open spec fn spec_ser_members(members: Seq<(Seq<char>, JsonV)>, ind: nat, k: int) -> Seq<char>
    decreases members, members.len() - k,
{
    if 0 <= k < members.len() {
        seq!['"'] + esc(members[k].0) + seq!['"', ':', ' '] + spec_ser(members[k].1, ind) + if k + 1
            < members.len() {
            seq![',', '\n'] + spec_indent(ind) + spec_ser_members(members, ind, k + 1)
        } else {
            seq!['\n'] + spec_indent((ind - 1) as nat) + seq!['}']
        }
    } else {
        Seq::empty()
    }
}

/// Writes the hexadecimal digit `d`, as executable code.
fn push_hex_char(out: &mut Vec<char>, d: u32)
    requires
        d < 16,
    ensures
        final(out)@ == old(out)@ + seq![hex_char(d as nat)],
{
    let c = if d < 10 {
        crate::text::digit_char_exec(d as u64)
    } else if d == 10 {
        'a'
    } else if d == 11 {
        'b'
    } else if d == 12 {
        'c'
    } else if d == 13 {
        'd'
    } else if d == 14 {
        'e'
    } else {
        'f'
    };
    out.push(c);
    assert(out@ =~= old(out)@ + seq![hex_char(d as nat)]);
}

/// Writes one string character in its escaped form.
fn push_esc_char(out: &mut Vec<char>, c: char)
    ensures
        final(out)@ == old(out)@ + esc_char(c),
{
    if c == '"' {
        out.push('\\');
        out.push('"');
    } else if c == '\\' {
        out.push('\\');
        out.push('\\');
    } else if c == '\u{8}' {
        out.push('\\');
        out.push('b');
    } else if c == '\u{c}' {
        out.push('\\');
        out.push('f');
    } else if c == '\n' {
        out.push('\\');
        out.push('n');
    } else if c == '\r' {
        out.push('\\');
        out.push('r');
    } else if c == '\t' {
        out.push('\\');
        out.push('t');
    } else if (c as u32) < 0x20 {
        out.push('\\');
        out.push('u');
        out.push('0');
        out.push('0');
        push_hex_char(out, (c as u32) / 16);
        push_hex_char(out, (c as u32) % 16);
    } else {
        out.push(c);
    }
    assert(out@ =~= old(out)@ + esc_char(c));
}

/// Writes a whole string in its escaped form, without the quotes.
fn push_escaped(out: &mut Vec<char>, s: &str)
    ensures
        final(out)@ == old(out)@ + esc(s@),
{
    let v = chars_of(s);
    let n = v.len();
    let mut k: usize = 0;
    while k < n
        invariant
            k <= n,
            n == v@.len(),
            v@ == s@,
            out@ == old(out)@ + esc(v@.subrange(0, k as int)),
        decreases n - k,
    {
        let ghost pre = v@.subrange(0, k as int);
        push_esc_char(out, v[k]);
        proof {
            let single = seq![v@[k as int]];
            assert(v@.subrange(0, k + 1 as int) =~= pre + single);
            lemma_esc_append(pre, single);
            assert(single.drop_first() =~= Seq::<char>::empty());
            assert(esc(single) =~= esc_char(v@[k as int]) + esc(Seq::<char>::empty()));
            assert(esc(single) =~= esc_char(v@[k as int]));
        }
        k = k + 1;
    }
    assert(v@.subrange(0, n as int) =~= s@);
}

/// Writes the indentation for depth `n`.
fn push_indent(out: &mut Vec<char>, n: usize)
    ensures
        final(out)@ == old(out)@ + spec_indent(n as nat),
{
    let mut k: usize = 0;
    while k < n
        invariant
            k <= n,
            out@ == old(out)@ + spec_indent(k as nat),
        decreases n - k,
    {
        out.push(' ');
        out.push(' ');
        assert(out@ =~= old(out)@ + spec_indent((k + 1) as nat));
        k = k + 1;
    }
}

/// Writes the pretty-printed text of `v` at nesting depth `ind`.
pub fn write_json(v: &Json, ind: usize, out: &mut Vec<char>)
    requires
        ind + jdepth(v@) <= 1000,
    ensures
        final(out)@ == old(out)@ + spec_ser(v@, ind as nat),
    decreases v, 0int,
{
    match v {
        Json::Null => {
            out.push('n');
            out.push('u');
            out.push('l');
            out.push('l');
            assert(out@ =~= old(out)@ + spec_ser(v@, ind as nat));
        },
        Json::Bool(b) => {
            if *b {
                out.push('t');
                out.push('r');
                out.push('u');
                out.push('e');
            } else {
                out.push('f');
                out.push('a');
                out.push('l');
                out.push('s');
                out.push('e');
            }
            assert(out@ =~= old(out)@ + spec_ser(v@, ind as nat));
        },
        Json::Num(raw) => {
            let cs = chars_of(raw.as_str());
            let n = cs.len();
            let mut k: usize = 0;
            while k < n
                invariant
                    k <= n,
                    n == cs@.len(),
                    cs@ == raw@,
                    out@ == old(out)@ + cs@.subrange(0, k as int),
                decreases n - k,
            {
                out.push(cs[k]);
                assert(out@ =~= old(out)@ + cs@.subrange(0, (k + 1) as int));
                k = k + 1;
            }
            assert(out@ =~= old(out)@ + spec_ser(v@, ind as nat));
        },
        Json::Str(s) => {
            out.push('"');
            push_escaped(out, s.as_str());
            out.push('"');
            assert(out@ =~= old(out)@ + spec_ser(v@, ind as nat));
        },
        Json::Arr(items) => {
            if items.len() == 0 {
                out.push('[');
                out.push(']');
                assert(out@ =~= old(out)@ + spec_ser(v@, ind as nat));
            } else {
                out.push('[');
                out.push('\n');
                push_indent(out, ind + 1);
                write_items(items, ind + 1, 0, out);
                assert(out@ =~= old(out)@ + spec_ser(v@, ind as nat));
            }
        },
        Json::Obj(members) => {
            if members.len() == 0 {
                out.push('{');
                out.push('}');
                assert(out@ =~= old(out)@ + spec_ser(v@, ind as nat));
            } else {
                out.push('{');
                out.push('\n');
                push_indent(out, ind + 1);
                write_members(members, ind + 1, 0, out);
                assert(out@ =~= old(out)@ + spec_ser(v@, ind as nat));
            }
        },
    }
}

/// Writes array elements from `k` on, including the closing bracket.
fn write_items(items: &Vec<Json>, ind: usize, k: usize, out: &mut Vec<char>)
    requires
        ind >= 1,
        ind + jdepth_items(jviews(items@)) <= 1000,
        k < items@.len(),
    ensures
        final(out)@ == old(out)@ + spec_ser_items(jviews(items@), ind as nat, k as int),
    decreases items, items@.len() - k, 1int,
{
    let ghost vs = jviews(items@);
    proof {
        lemma_jviews_index(items@);
        lemma_jdepth_items_bound(vs);
        assert(jdepth(items@[k as int]@) <= jdepth_items(vs));
    }
    write_json(&items[k], ind, out);
    let n = items.len();
    if k + 1 < n {
        out.push(',');
        out.push('\n');
        push_indent(out, ind);
        write_items(items, ind, k + 1, out);
        assert(out@ =~= old(out)@ + spec_ser_items(vs, ind as nat, k as int));
    } else {
        out.push('\n');
        push_indent(out, ind - 1);
        out.push(']');
        assert(out@ =~= old(out)@ + spec_ser_items(vs, ind as nat, k as int));
    }
}

/// Writes object members from `k` on, including the closing brace.
fn write_members(members: &Vec<(String, Json)>, ind: usize, k: usize, out: &mut Vec<char>)
    requires
        ind >= 1,
        ind + jdepth_members(mviews(members@)) <= 1000,
        k < members@.len(),
    ensures
        final(out)@ == old(out)@ + spec_ser_members(mviews(members@), ind as nat, k as int),
    decreases members, members@.len() - k, 1int,
{
    let ghost ms = mviews(members@);
    proof {
        lemma_mviews_index(members@);
        lemma_jdepth_members_bound(ms);
        assert(ms[k as int] == (members@[k as int].0@, jview(members@[k as int].1)));
        assert(jdepth(ms[k as int].1) <= jdepth_members(ms));
        assert(jdepth(jview(members@[k as int].1)) <= jdepth_members(ms));
    }
    out.push('"');
    push_escaped(out, members[k].0.as_str());
    out.push('"');
    out.push(':');
    out.push(' ');
    write_json(&members[k].1, ind, out);
    let n = members.len();
    if k + 1 < n {
        out.push(',');
        out.push('\n');
        push_indent(out, ind);
        write_members(members, ind, k + 1, out);
        assert(out@ =~= old(out)@ + spec_ser_members(ms, ind as nat, k as int));
    } else {
        out.push('\n');
        push_indent(out, ind - 1);
        out.push('}');
        assert(out@ =~= old(out)@ + spec_ser_members(ms, ind as nat, k as int));
    }
}

} // verus!
