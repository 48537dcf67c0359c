//! The view description: what the window shows for a given state.
//!
//! The controller renders to an abstract widget tree; the UI toolkit at
//! the program's edge only paints it. [`UiBuilder`] assembles the tree
//! the way the window lays it out: two-column rows get a filling space
//! on the side their alignment pushes away from, and a small horizontal
//! gap between neighbouring elements.

use vstd::prelude::*;

use crate::controller::{Controller, ControllerV};
use crate::record::{Record, RecordV, HowItWasStopped, WhatWasHappening};
use crate::store::{SaveError, spec_save_error_text};
use crate::text::{spec_decimal, spec_decimal_pad2, push_decimal, push_decimal_pad2, string_of};
use crate::time::{Timestamp, elapsed_seconds};

verus! {

broadcast use vstd::std_specs::vec::group_vec_axioms, vstd::seq::axiom_seq_index_decreases, vstd::seq::axiom_seq_subrange_decreases;

pub const WINDOW_HEIGHT: u16 = 600;

pub const WINDOW_WIDTH: u16 = 400;

pub const SECTION_GAP: u16 = 30;

pub const ITEM_GAP: u16 = 12;

pub const BUTTON_GAP: u16 = 8;

pub const LIST_GAP: u16 = 5;

pub const FORM_LAYOUT_LEFT_WIDTH: u16 = 120;

/// How a two-column row is aligned within its line.
#[derive(Clone, Copy, PartialEq, Eq, Structural, Debug)]
pub enum ColumnAlignment {
    Left,
    Inward,
    Outward,
    Right,
}

/// The font a text is drawn with.
#[derive(Clone, Copy, PartialEq, Eq, Structural, Debug)]
pub enum FontStyle {
    Regular,
    Italic,
    Bold,
    BoldItalic,
}

/// The colour scheme of a clickable control.
#[derive(Clone, Copy, PartialEq, Eq, Structural, Debug)]
pub enum ButtonStyle {
    Primary,
    Secondary,
    Danger,
}

/// What pressing a button means.
#[derive(Clone, Copy, PartialEq, Eq, Structural, Debug)]
pub enum Click {
    Crash,
    Killed,
    Clear,
}

/// Which draft field a checkbox toggles.
#[derive(Clone, Copy, PartialEq, Eq, Structural, Debug)]
pub enum ToggleTarget {
    Frozen,
    Busy,
}

/// One node of the view description.
pub enum Widget {
    Title(String, FontStyle),
    Placeholder(String, FontStyle),
    Label(String, FontStyle),
    Input { placeholder: String, value: String },
    Button { label: String, style: ButtonStyle, press: Click },
    Checkbox { checked: bool, label: String, style: ButtonStyle, target: ToggleTarget },
    Radio { value: WhatWasHappening, label: String, selected: Option<WhatWasHappening>, style: ButtonStyle },
    VSpace(u16),
    HSpace(u16),
    FillSpace,
    Row(Vec<Widget>),
    FormRow(Vec<Widget>),
    List(Vec<Widget>),
    Root(bool, Vec<Widget>),
}

/// The mathematical shape of a view node.
pub enum WidgetV {
    Title(Seq<char>, FontStyle),
    Placeholder(Seq<char>, FontStyle),
    Label(Seq<char>, FontStyle),
    Input { placeholder: Seq<char>, value: Seq<char> },
    Button { label: Seq<char>, style: ButtonStyle, press: Click },
    Checkbox { checked: bool, label: Seq<char>, style: ButtonStyle, target: ToggleTarget },
    Radio { value: WhatWasHappening, label: Seq<char>, selected: Option<WhatWasHappening>, style: ButtonStyle },
    VSpace(u16),
    HSpace(u16),
    FillSpace,
    Row(Seq<WidgetV>),
    FormRow(Seq<WidgetV>),
    List(Seq<WidgetV>),
    Root(bool, Seq<WidgetV>),
}

/// The mathematical shape of a view node.
pub open spec fn wview(w: Widget) -> WidgetV
    decreases w,
{
    match w {
        Widget::Title(s, font) => WidgetV::Title(s@, font),
        Widget::Placeholder(s, font) => WidgetV::Placeholder(s@, font),
        Widget::Label(s, font) => WidgetV::Label(s@, font),
        Widget::Input { placeholder, value } => WidgetV::Input {
            placeholder: placeholder@,
            value: value@,
        },
        Widget::Button { label, style, press } => WidgetV::Button { label: label@, style, press },
        Widget::Checkbox { checked, label, style, target } => WidgetV::Checkbox {
            checked,
            label: label@,
            style,
            target,
        },
        Widget::Radio { value, label, selected, style } => WidgetV::Radio {
            value,
            label: label@,
            selected,
            style,
        },
        Widget::VSpace(g) => WidgetV::VSpace(g),
        Widget::HSpace(g) => WidgetV::HSpace(g),
        Widget::FillSpace => WidgetV::FillSpace,
        Widget::Row(ws) => WidgetV::Row(wviews(ws@)),
        Widget::FormRow(ws) => WidgetV::FormRow(wviews(ws@)),
        Widget::List(ws) => WidgetV::List(wviews(ws@)),
        Widget::Root(debug, ws) => WidgetV::Root(debug, wviews(ws@)),
    }
}

/// The shapes of a sequence of view nodes.
pub open spec fn wviews(ws: Seq<Widget>) -> Seq<WidgetV>
    decreases ws,
{
    if ws.len() == 0 {
        Seq::empty()
    } else {
        seq![wview(ws[0])] + wviews(ws.subrange(1, ws.len() as int))
    }
}

impl View for Widget {
    type V = WidgetV;

    open spec fn view(&self) -> WidgetV {
        wview(*self)
    }
}

/// Element `i` of `wviews` is the shape of element `i`.
pub proof fn lemma_wviews_index(ws: Seq<Widget>)
    ensures
        wviews(ws).len() == ws.len(),
        forall|i: int| 0 <= i < ws.len() ==> wviews(ws)[i] == wview(#[trigger] ws[i]),
    decreases ws,
{
    if ws.len() > 0 {
        let tail = ws.subrange(1, ws.len() as int);
        lemma_wviews_index(tail);
        assert forall|i: int| 0 <= i < ws.len() implies wviews(ws)[i] == wview(
            #[trigger] ws[i],
        ) by {
            if i > 0 {
                assert(tail[i - 1] == ws[i]);
                assert(wviews(ws)[i] == wviews(tail)[i - 1]);
            }
        }
    }
}

/// Pushing a node commutes with taking shapes.
pub proof fn lemma_wviews_push(ws: Seq<Widget>, x: Widget)
    ensures
        wviews(ws.push(x)) == wviews(ws).push(wview(x)),
    decreases ws,
{
    let p = ws.push(x);
    if ws.len() == 0 {
        assert(p.subrange(1, p.len() as int) =~= Seq::<Widget>::empty());
        assert(wviews(p) == seq![wview(x)] + wviews(Seq::<Widget>::empty()));
        assert(seq![wview(x)] + Seq::<WidgetV>::empty() =~= seq![wview(x)]);
        assert(wviews(ws) =~= Seq::<WidgetV>::empty());
        assert(wviews(ws).push(wview(x)) =~= seq![wview(x)]);
    } else {
        let tail = ws.subrange(1, ws.len() as int);
        assert(p.subrange(1, p.len() as int) =~= tail.push(x));
        lemma_wviews_push(tail, x);
        assert(p[0] == ws[0]);
        assert(wviews(p) == seq![wview(ws[0])] + wviews(tail).push(wview(x)));
        assert(wviews(ws) == seq![wview(ws[0])] + wviews(tail));
        assert(seq![wview(ws[0])] + wviews(tail).push(wview(x)) =~= (seq![wview(ws[0])] + wviews(
            tail,
        )).push(wview(x)));
    }
}

/// The first `k` elements of a column, with the horizontal gap between
/// neighbours.
pub open spec fn spec_spaced(items: Seq<WidgetV>, k: int) -> Seq<WidgetV>
    decreases k,
{
    if k <= 0 {
        Seq::empty()
    } else {
        spec_spaced(items, k - 1) + (if k - 1 > 0 {
            seq![WidgetV::HSpace(BUTTON_GAP)]
        } else {
            Seq::empty()
        }) + seq![items[k - 1]]
    }
}

/// A column's content: an optional leading filler, pushing the column
/// toward the other side, followed by its spaced elements.
pub open spec fn spec_col_row(items: Seq<WidgetV>, lead_fill: bool) -> Seq<WidgetV> {
    (if lead_fill {
        seq![WidgetV::FillSpace]
    } else {
        Seq::empty()
    }) + spec_spaced(items, items.len() as int)
}

/// A two-column row: each nonempty column becomes an inner row, with a
/// filler between them when exactly one column is present.
pub open spec fn spec_two_col_row(
    left: Seq<WidgetV>,
    right: Seq<WidgetV>,
    align: ColumnAlignment,
) -> WidgetV {
    let has_left = left.len() > 0;
    let has_right = right.len() > 0;
    let left_row = spec_col_row(
        left,
        has_left && (align == ColumnAlignment::Inward || align == ColumnAlignment::Right),
    );
    let right_row = spec_col_row(
        right,
        has_right && (align == ColumnAlignment::Outward || align == ColumnAlignment::Right),
    );
    WidgetV::Row(
        (if has_left {
            seq![WidgetV::Row(left_row)]
        } else {
            Seq::empty()
        }) + (if has_left != has_right {
            seq![WidgetV::FillSpace]
        } else {
            Seq::empty()
        }) + (if has_right {
            seq![WidgetV::Row(right_row)]
        } else {
            Seq::empty()
        }),
    )
}

/// Assembles view nodes the way the window lays them out.
pub struct UiBuilder;

impl UiBuilder {
    /// A builder.
    pub fn new() -> UiBuilder {
        UiBuilder {  }
    }

    /// A centred heading.
    pub fn title(&self, text: &str) -> (w: Widget)
        ensures
            w@ == WidgetV::Title(text@, FontStyle::Bold),
    {
        Widget::Title(String::from_str(text), FontStyle::Bold)
    }

    /// A centred note shown in place of content.
    pub fn placeholder(&self, text: &str) -> (w: Widget)
        ensures
            w@ == WidgetV::Placeholder(text@, FontStyle::Italic),
    {
        Widget::Placeholder(String::from_str(text), FontStyle::Italic)
    }

    /// An ordinary line of text.
    pub fn label(&self, text: String) -> (w: Widget)
        ensures
            w@ == WidgetV::Label(text@, FontStyle::Regular),
    {
        Widget::Label(text, FontStyle::Regular)
    }

    /// The one text input, editing the draft's description.
    pub fn input(&self, placeholder: &str, value: &str) -> (w: Widget)
        ensures
            w@ == (WidgetV::Input { placeholder: placeholder@, value: value@ }),
    {
        Widget::Input { placeholder: String::from_str(placeholder), value: String::from_str(value) }
    }

    /// A push button.
    pub fn button(&self, text: &str, style: ButtonStyle, press: Click) -> (w: Widget)
        ensures
            w@ == (WidgetV::Button { label: text@, style, press }),
    {
        Widget::Button { label: String::from_str(text), style, press }
    }

    /// A checkbox toggling one of the draft's capture fields.
    pub fn checkbox(&self, state: bool, label: &str, style: ButtonStyle, target: ToggleTarget) -> (w:
        Widget)
        ensures
            w@ == (WidgetV::Checkbox { checked: state, label: label@, style, target }),
    {
        Widget::Checkbox { checked: state, label: String::from_str(label), style, target }
    }

    /// A radio button choosing the draft's activity.
    pub fn radio(
        &self,
        value: WhatWasHappening,
        label: &str,
        current: Option<WhatWasHappening>,
        style: ButtonStyle,
    ) -> (w: Widget)
        ensures
            w@ == (WidgetV::Radio { value, label: label@, selected: current, style }),
    {
        Widget::Radio { value, label: String::from_str(label), selected: current, style }
    }

    /// The vertical gap between sections.
    pub fn section_vspacer(&self) -> (w: Widget)
        ensures
            w@ == WidgetV::VSpace(SECTION_GAP),
    {
        Widget::VSpace(SECTION_GAP)
    }

    /// The vertical gap between items.
    pub fn item_vspacer(&self) -> (w: Widget)
        ensures
            w@ == WidgetV::VSpace(ITEM_GAP),
    {
        Widget::VSpace(ITEM_GAP)
    }

    /// The horizontal gap between neighbouring actions.
    pub fn action_hspacer(&self) -> (w: Widget)
        ensures
            w@ == WidgetV::HSpace(BUTTON_GAP),
    {
        Widget::HSpace(BUTTON_GAP)
    }

    /// A labelled form line: the control on the left, its note on the
    /// right.
    pub fn form_row(&self, left: Widget, right: Widget) -> (w: Widget)
        ensures
            w@ == WidgetV::FormRow(seq![left@, right@]),
    {
        let mut ws: Vec<Widget> = Vec::new();
        let ghost lv = left@;
        let ghost rv = right@;
        proof {
            assert(wviews(ws@) =~= Seq::<WidgetV>::empty());
        }
        let ghost g0 = ws@;
        proof {
            lemma_wviews_push(g0, left);
        }
        ws.push(left);
        let ghost g1 = ws@;
        proof {
            lemma_wviews_push(g1, right);
        }
        ws.push(right);
        proof {
            assert(wviews(ws@) =~= seq![lv, rv]);
        }
        Widget::FormRow(ws)
    }

    /// The scrolling history list.
    pub fn list(&self, items: Vec<Widget>) -> (w: Widget)
        ensures
            w@ == WidgetV::List(wviews(items@)),
    {
        Widget::List(items)
    }

    /// The window's root: all rows in one column, with the layout-debug
    /// overlay flag.
    pub fn root(&self, debug: bool, items: Vec<Widget>) -> (w: Widget)
        ensures
            w@ == WidgetV::Root(debug, wviews(items@)),
    {
        Widget::Root(debug, items)
    }

    /// One spaced column of a two-column row.
    fn col_row(&self, items: Vec<Widget>, lead_fill: bool) -> (w: Vec<Widget>)
        ensures
            wviews(w@) == spec_col_row(wviews(items@), lead_fill),
    {
        let ghost iv = wviews(items@);
        proof {
            lemma_wviews_index(items@);
        }
        let mut row: Vec<Widget> = Vec::new();
        if lead_fill {
            let ghost g = row@;
            proof {
                lemma_wviews_push(g, Widget::FillSpace);
            }
            row.push(Widget::FillSpace);
        }
        let ghost lead = if lead_fill {
            seq![WidgetV::FillSpace]
        } else {
            Seq::<WidgetV>::empty()
        };
        proof {
            assert(wviews(row@) =~= lead + spec_spaced(iv, 0));
        }
        let n = items.len();
        proof {
            lemma_wviews_index(items@);
        }
        let mut rest = items;
        let mut i: usize = 0;
        while rest.len() > 0
            invariant
                iv.len() == n,
                i + rest@.len() == iv.len(),
                wviews(rest@) == iv.subrange(i as int, iv.len() as int),
                wviews(row@) == lead + spec_spaced(iv, i as int),
            decreases rest@.len(),
        {
            proof {
                lemma_wviews_index(rest@);
                assert(wviews(rest@)[0] == iv.subrange(i as int, iv.len() as int)[0]);
                assert(wview(rest@[0]) == iv[i as int]);
            }
            let ghost rest_old = rest@;
            let x = rest.remove(0);
            proof {
                let tail_old = rest_old.subrange(1, rest_old.len() as int);
                assert(rest@ =~= tail_old);
                let wv_old = wviews(rest_old);
                assert(wv_old == seq![wview(rest_old[0])] + wviews(tail_old));
                assert forall|q: int| 0 <= q < wviews(tail_old).len() implies #[trigger] wviews(
                    tail_old,
                )[q] == iv[i + 1 + q] by {
                    assert(wviews(tail_old)[q] == wv_old[q + 1]);
                    assert(wv_old[q + 1] == iv.subrange(i as int, iv.len() as int)[q + 1]);
                }
                assert(wviews(tail_old) =~= iv.subrange(i + 1, iv.len() as int));
                assert(wviews(rest@) =~= iv.subrange(i + 1, iv.len() as int));
            }
            if i > 0 {
                let ghost g = row@;
                proof {
                    lemma_wviews_push(g, Widget::HSpace(BUTTON_GAP));
                }
                row.push(Widget::HSpace(BUTTON_GAP));
            }
            let ghost g2 = row@;
            proof {
                lemma_wviews_push(g2, x);
            }
            row.push(x);
            proof {
                assert(spec_spaced(iv, i as int + 1) == spec_spaced(iv, i as int) + (if i > 0 {
                    seq![WidgetV::HSpace(BUTTON_GAP)]
                } else {
                    Seq::<WidgetV>::empty()
                }) + seq![iv[i as int]]);
                assert(wviews(row@) =~= lead + spec_spaced(iv, i as int + 1));
            }
            i = i + 1;
        }
        proof {
            assert(wviews(row@) =~= spec_col_row(iv, lead_fill));
        }
        row
    }

    /// Two columns on one line. A column aligned away from its side gets
    /// a leading filler; a lone column gets a filler opposite it; gaps
    /// separate neighbouring elements.
    pub fn two_col_row(&self, left: Vec<Widget>, right: Vec<Widget>, align: ColumnAlignment) -> (w:
        Widget)
        ensures
            w@ == spec_two_col_row(wviews(left@), wviews(right@), align),
    {
        let has_left = left.len() > 0;
        let has_right = right.len() > 0;
        let ghost lv = wviews(left@);
        let ghost rv = wviews(right@);
        proof {
            lemma_wviews_index(left@);
            lemma_wviews_index(right@);
        }
        let left_fill = has_left && (align == ColumnAlignment::Inward || align
            == ColumnAlignment::Right);
        let right_fill = has_right && (align == ColumnAlignment::Outward || align
            == ColumnAlignment::Right);
        let left_row = self.col_row(left, left_fill);
        let right_row = self.col_row(right, right_fill);
        let mut outer: Vec<Widget> = Vec::new();
        if has_left {
            let ghost g = outer@;
            let lw = Widget::Row(left_row);
            proof {
                lemma_wviews_push(g, lw);
            }
            outer.push(lw);
        } else {
            let _ = left_row;
        }
        if has_left != has_right {
            let ghost g = outer@;
            proof {
                lemma_wviews_push(g, Widget::FillSpace);
            }
            outer.push(Widget::FillSpace);
        }
        if has_right {
            let ghost g = outer@;
            let rw = Widget::Row(right_row);
            proof {
                lemma_wviews_push(g, rw);
            }
            outer.push(rw);
        } else {
            let _ = right_row;
        }
        proof {
            assert(wviews(outer@) =~= spec_two_col_row(lv, rv, align)->Row_0);
        }
        Widget::Row(outer)
    }
}

/// The elapsed display `HH:MM:SS`: whole hours, then minutes and
/// seconds each reduced below sixty.
pub open spec fn spec_duration_hms(total: nat) -> Seq<char> {
    spec_decimal_pad2(total / 3600) + seq![':'] + spec_decimal_pad2((total / 60) % 60) + seq![':']
        + spec_decimal_pad2(total % 60)
}

/// Seconds from `w` to `now`, clamped at zero.
pub open spec fn spec_elapsed(now: Timestamp, w: Timestamp) -> nat {
    if now.spec_total_seconds() >= w.spec_total_seconds() {
        (now.spec_total_seconds() - w.spec_total_seconds()) as nat
    } else {
        0
    }
}

/// The note next to a capture checkbox: how long ago it was ticked, or
/// nothing when it is off.
pub open spec fn spec_spent_text(o: Option<Timestamp>, now: Timestamp) -> Seq<char> {
    match o {
        Some(w) => seq![' '] + spec_duration_hms(spec_elapsed(now, w)) + seq![' ', 'a', 'g', 'o'],
        None => Seq::empty(),
    }
}

/// The note next to a capture checkbox, as executable code.
fn spent_text(o: &Option<Timestamp>, now: &Timestamp) -> (s: String)
    ensures
        s@ == spec_spent_text(*o, *now),
{
    match o {
        None => {
            let s = String::new();
            proof {
                assert(s@ =~= spec_spent_text(*o, *now));
            }
            s
        },
        Some(w) => {
            let total = elapsed_seconds(now, w);
            let mut out: Vec<char> = Vec::new();
            out.push(' ');
            push_decimal_pad2(&mut out, total / 3600);
            out.push(':');
            push_decimal_pad2(&mut out, (total / 60) % 60);
            out.push(':');
            push_decimal_pad2(&mut out, total % 60);
            out.push(' ');
            out.push('a');
            out.push('g');
            out.push('o');
            proof {
                assert(total as nat == spec_elapsed(*now, *w));
                assert(out@ =~= spec_spent_text(*o, *now));
            }
            string_of(&out)
        },
    }
}

/// The history heading with the record count.
pub open spec fn spec_history_title(n: nat) -> Seq<char> {
    "History ("@ + spec_decimal(n) + seq![')']
}

/// The history heading, as executable code.
fn history_title(n: usize) -> (s: String)
    ensures
        s@ == spec_history_title(n as nat),
{
    let mut out: Vec<char> = crate::text::chars_of("History (");
    push_decimal(&mut out, n as u64);
    out.push(')');
    proof {
        assert(out@ =~= spec_history_title(n as nat));
    }
    string_of(&out)
}

/// The banner shown while the last save has failed.
pub open spec fn spec_save_banner(e: SaveError) -> Seq<char> {
    "Saving failed: "@ + spec_save_error_text(e)
}

/// The banner shown while the last save has failed, as executable code.
fn save_banner(e: &SaveError) -> (s: String)
    ensures
        s@ == spec_save_banner(*e),
{
    let mut s = String::from_str("Saving failed: ");
    let m = e.message();
    s.append(m.as_str());
    s
}

/// One history line: the capture marks in the order they apply, the
/// cause with its moment, and the free-form note in parentheses.
pub open spec fn spec_entry_text(r: RecordV) -> Seq<char> {
    let base1 = if r.frozen is Some {
        "Frozen from "@ + r.frozen->0.spec_hms()
    } else {
        Seq::<char>::empty()
    };
    let base2 = match r.busy {
        Some(b) => if base1.len() == 0 {
            "Busy from "@ + b.spec_hms()
        } else {
            base1 + ", then busy at "@ + b.spec_hms()
        },
        None => base1,
    };
    let base3 = if base2.len() == 0 {
        (match r.how {
            HowItWasStopped::SelfCrashed => "Crashed at "@,
            HowItWasStopped::ManuallyKilled => "Killed at "@,
        }) + r.when.spec_hms()
    } else {
        base2 + (match r.how {
            HowItWasStopped::SelfCrashed => ", and crashed at "@,
            HowItWasStopped::ManuallyKilled => ", and killed at "@,
        }) + r.when.spec_hms()
    };
    if r.description.len() == 0 {
        base3
    } else {
        base3 + " ("@ + r.description + seq![')']
    }
}

/// Appends the `HH:MM:SS` of a timestamp to a string.
fn append_hms(text: &mut String, t: &Timestamp)
    ensures
        final(text)@ == old(text)@ + t.spec_hms(),
{
    let mut cs: Vec<char> = Vec::new();
    t.push_hms(&mut cs);
    let piece = string_of(&cs);
    text.append(piece.as_str());
}

/// One history line, as executable code.
pub fn entry_text(r: &Record) -> (s: String)
    ensures
        s@ == spec_entry_text(r@),
{
    proof {
        reveal_strlit("Frozen from ");
        reveal_strlit("Busy from ");
    }
    let mut text = String::new();
    match &r.frozen {
        Some(f) => {
            text.append("Frozen from ");
            append_hms(&mut text, f);
        },
        None => {},
    }
    match &r.busy {
        Some(b) => {
            if r.frozen.is_none() {
                text.append("Busy from ");
                append_hms(&mut text, b);
            } else {
                text.append(", then busy at ");
                append_hms(&mut text, b);
            }
        },
        None => {},
    }
    if r.frozen.is_none() && r.busy.is_none() {
        match &r.how {
            HowItWasStopped::SelfCrashed => text.append("Crashed at "),
            HowItWasStopped::ManuallyKilled => text.append("Killed at "),
        }
        append_hms(&mut text, &r.when);
    } else {
        match &r.how {
            HowItWasStopped::SelfCrashed => text.append(", and crashed at "),
            HowItWasStopped::ManuallyKilled => text.append(", and killed at "),
        }
        append_hms(&mut text, &r.when);
    }
    if !r.description.as_str().is_empty() {
        text.append(" (");
        text.append(r.description.as_str());
        text.append(")");
        proof {
            reveal_strlit(")");
            assert(text@ =~= spec_entry_text(r@));
        }
    }
    text
}

/// The history line for one record, as a view node.
pub fn make_entry(r: &Record) -> (w: Widget)
    ensures
        w@ == WidgetV::Label(spec_entry_text(r@), FontStyle::Regular),
{
    Widget::Label(entry_text(r), FontStyle::Regular)
}

/// The history lines for all records, newest last.
pub open spec fn spec_entry_rows(records: Seq<RecordV>) -> Seq<WidgetV> {
    Seq::new(
        records.len(),
        |i: int| WidgetV::Label(spec_entry_text(records[i]), FontStyle::Regular),
    )
}

/// A radio choice for the draft's activity, as the window styles it.
pub open spec fn spec_radio(
    v: WhatWasHappening,
    label: Seq<char>,
    sel: Option<WhatWasHappening>,
) -> WidgetV {
    WidgetV::Radio { value: v, label, selected: sel, style: ButtonStyle::Secondary }
}

/// Appending node lists commutes with taking shapes.
pub proof fn lemma_wviews_append(a: Seq<Widget>, b: Seq<Widget>)
    ensures
        wviews(a + b) == wviews(a) + wviews(b),
    decreases a,
{
    if a.len() == 0 {
        assert(a + b =~= b);
        assert(wviews(a) + wviews(b) =~= wviews(b));
    } else {
        let tail = a.subrange(1, a.len() as int);
        assert((a + b).subrange(1, (a + b).len() as int) =~= tail + b);
        lemma_wviews_append(tail, b);
        assert((a + b)[0] == a[0]);
        assert(wviews(a + b) == seq![wview(a[0])] + (wviews(tail) + wviews(b)));
        assert(wviews(a) == seq![wview(a[0])] + wviews(tail));
        assert(seq![wview(a[0])] + (wviews(tail) + wviews(b)) =~= (seq![wview(a[0])] + wviews(
            tail,
        )) + wviews(b));
    }
}

/// The rows of the draft form: headings, activity choices, the
/// description input, the capture checkboxes with their elapsed notes,
/// and the two commit buttons.
pub open spec fn spec_form_rows(c: ControllerV, now: Timestamp) -> Seq<WidgetV> {
    let sel = c.edit.what;
    seq![
        WidgetV::Title("Record"@, FontStyle::Bold),
        WidgetV::VSpace(ITEM_GAP),
        spec_two_col_row(
            seq![spec_radio(WhatWasHappening::Typing, "Typing"@, sel)],
            seq![spec_radio(WhatWasHappening::Running, "Running"@, sel)],
            ColumnAlignment::Left,
        ),
        WidgetV::VSpace(ITEM_GAP),
        spec_two_col_row(
            seq![spec_radio(WhatWasHappening::Testing, "Testing"@, sel)],
            seq![spec_radio(WhatWasHappening::Debugging, "Debugging"@, sel)],
            ColumnAlignment::Left,
        ),
        WidgetV::VSpace(ITEM_GAP),
        WidgetV::Input { placeholder: "Description..."@, value: c.edit.description },
        WidgetV::VSpace(ITEM_GAP),
        WidgetV::FormRow(
            seq![
                WidgetV::Checkbox {
                    checked: c.edit.frozen is Some,
                    label: "Frozen"@,
                    style: ButtonStyle::Secondary,
                    target: ToggleTarget::Frozen,
                },
                WidgetV::Label(spec_spent_text(c.edit.frozen, now), FontStyle::Regular),
            ],
        ),
        WidgetV::VSpace(ITEM_GAP),
        WidgetV::FormRow(
            seq![
                WidgetV::Checkbox {
                    checked: c.edit.busy is Some,
                    label: "Busy"@,
                    style: ButtonStyle::Secondary,
                    target: ToggleTarget::Busy,
                },
                WidgetV::Label(spec_spent_text(c.edit.busy, now), FontStyle::Regular),
            ],
        ),
        WidgetV::VSpace(ITEM_GAP),
        spec_two_col_row(
            Seq::empty(),
            seq![
                WidgetV::Button {
                    label: "Crashed"@,
                    style: ButtonStyle::Secondary,
                    press: Click::Crash,
                },
                WidgetV::Button {
                    label: "Killed"@,
                    style: ButtonStyle::Secondary,
                    press: Click::Killed,
                },
            ],
            ColumnAlignment::Right,
        ),
        WidgetV::VSpace(SECTION_GAP),
    ]
}

/// The rows of the history section: its heading with the record count
/// and, when records exist, the clear button; below them the list of
/// history lines, or a placeholder while the store is empty or absent.
pub open spec fn spec_history_rows(c: ControllerV) -> Seq<WidgetV> {
    let nrec: nat = match c.data {
        Some(rs) => rs.len(),
        None => 0,
    };
    let history_right = if nrec > 0 {
        seq![WidgetV::Button { label: "Clear"@, style: ButtonStyle::Danger, press: Click::Clear }]
    } else {
        Seq::<WidgetV>::empty()
    };
    let list_row = match c.data {
        None => WidgetV::Placeholder("No records."@, FontStyle::Italic),
        Some(rs) => if rs.len() == 0 {
            WidgetV::Placeholder("No records."@, FontStyle::Italic)
        } else {
            WidgetV::List(spec_entry_rows(rs))
        },
    };
    seq![
        spec_two_col_row(
            seq![WidgetV::Title(spec_history_title(nrec), FontStyle::Bold)],
            history_right,
            ColumnAlignment::Outward,
        ),
        WidgetV::VSpace(ITEM_GAP),
        list_row,
    ]
}

/// The failure banner row, present while the last save failed.
pub open spec fn spec_status_rows(c: ControllerV) -> Seq<WidgetV> {
    match c.last_save_error {
        None => Seq::<WidgetV>::empty(),
        Some(e) => seq![WidgetV::Placeholder(spec_save_banner(e), FontStyle::Italic)],
    }
}

/// The whole window for a given state: the failure banner if any, the
/// draft form, then the history. `clock` stands in for the current time
/// until the first tick arrives.
pub open spec fn spec_view(c: ControllerV, clock: Timestamp) -> WidgetV {
    let now = match c.last_tick {
        Some(t) => t,
        None => clock,
    };
    WidgetV::Root(
        c.layout_debug,
        spec_status_rows(c) + spec_form_rows(c, now) + spec_history_rows(c),
    )
}

/// A one-element widget list.
fn one(w: Widget) -> (v: Vec<Widget>)
    ensures
        wviews(v@) == seq![w@],
{
    let ghost wv = w@;
    let mut v: Vec<Widget> = Vec::new();
    proof {
        assert(wviews(v@) =~= Seq::<WidgetV>::empty());
        lemma_wviews_push(v@, w);
    }
    v.push(w);
    proof {
        assert(wviews(v@) =~= seq![wv]);
    }
    v
}

/// A two-element widget list.
fn two(a: Widget, b: Widget) -> (v: Vec<Widget>)
    ensures
        wviews(v@) == seq![a@, b@],
{
    let ghost av = a@;
    let ghost bv = b@;
    let mut v: Vec<Widget> = Vec::new();
    proof {
        assert(wviews(v@) =~= Seq::<WidgetV>::empty());
        lemma_wviews_push(v@, a);
    }
    v.push(a);
    let ghost g1 = v@;
    proof {
        lemma_wviews_push(g1, b);
    }
    v.push(b);
    proof {
        assert(wviews(v@) =~= seq![av, bv]);
    }
    v
}

impl Controller {
    /// The draft form's rows, as executable code.
    #[verifier::rlimit(100)]
    fn form_rows(&self, now: &Timestamp) -> (v: Vec<Widget>)
        ensures
            wviews(v@) == spec_form_rows(self@, *now),
    {
        let b = UiBuilder::new();
        let ghost target = spec_form_rows(self@, *now);
        let frozen_spent = spent_text(&self.edit.frozen, now);
        let busy_spent = spent_text(&self.edit.busy, now);
        let mut rows: Vec<Widget> = Vec::new();
        proof {
            assert(wviews(rows@) =~= target.subrange(0, 0));
        }
        let w0 = b.title("Record");
        let ghost g = rows@;
        proof {
            lemma_wviews_push(g, w0);
        }
        rows.push(w0);
        proof {
            assert(wviews(rows@) =~= target.subrange(0, 1));
        }
        let w1 = b.item_vspacer();
        let ghost g = rows@;
        proof {
            lemma_wviews_push(g, w1);
        }
        rows.push(w1);
        proof {
            assert(wviews(rows@) =~= target.subrange(0, 2));
        }
        let w2 = b.two_col_row(
            one(b.radio(WhatWasHappening::Typing, "Typing", self.edit.what, ButtonStyle::Secondary)),
            one(
                b.radio(WhatWasHappening::Running, "Running", self.edit.what, ButtonStyle::Secondary),
            ),
            ColumnAlignment::Left,
        );
        let ghost g = rows@;
        proof {
            lemma_wviews_push(g, w2);
        }
        rows.push(w2);
        proof {
            assert(wviews(rows@) =~= target.subrange(0, 3));
        }
        let w3 = b.item_vspacer();
        let ghost g = rows@;
        proof {
            lemma_wviews_push(g, w3);
        }
        rows.push(w3);
        proof {
            assert(wviews(rows@) =~= target.subrange(0, 4));
        }
        let w4 = b.two_col_row(
            one(
                b.radio(WhatWasHappening::Testing, "Testing", self.edit.what, ButtonStyle::Secondary),
            ),
            one(
                b.radio(
                    WhatWasHappening::Debugging,
                    "Debugging",
                    self.edit.what,
                    ButtonStyle::Secondary,
                ),
            ),
            ColumnAlignment::Left,
        );
        let ghost g = rows@;
        proof {
            lemma_wviews_push(g, w4);
        }
        rows.push(w4);
        proof {
            assert(wviews(rows@) =~= target.subrange(0, 5));
        }
        let w5 = b.item_vspacer();
        let ghost g = rows@;
        proof {
            lemma_wviews_push(g, w5);
        }
        rows.push(w5);
        proof {
            assert(wviews(rows@) =~= target.subrange(0, 6));
        }
        let w6 = b.input("Description...", self.edit.description.as_str());
        let ghost g = rows@;
        proof {
            lemma_wviews_push(g, w6);
        }
        rows.push(w6);
        proof {
            assert(wviews(rows@) =~= target.subrange(0, 7));
        }
        let w7 = b.item_vspacer();
        let ghost g = rows@;
        proof {
            lemma_wviews_push(g, w7);
        }
        rows.push(w7);
        proof {
            assert(wviews(rows@) =~= target.subrange(0, 8));
        }
        let w8 = b.form_row(
            b.checkbox(
                self.edit.frozen.is_some(),
                "Frozen",
                ButtonStyle::Secondary,
                ToggleTarget::Frozen,
            ),
            b.label(frozen_spent),
        );
        let ghost g = rows@;
        proof {
            lemma_wviews_push(g, w8);
        }
        rows.push(w8);
        proof {
            assert(wviews(rows@) =~= target.subrange(0, 9));
        }
        let w9 = b.item_vspacer();
        let ghost g = rows@;
        proof {
            lemma_wviews_push(g, w9);
        }
        rows.push(w9);
        proof {
            assert(wviews(rows@) =~= target.subrange(0, 10));
        }
        let w10 = b.form_row(
            b.checkbox(self.edit.busy.is_some(), "Busy", ButtonStyle::Secondary, ToggleTarget::Busy),
            b.label(busy_spent),
        );
        let ghost g = rows@;
        proof {
            lemma_wviews_push(g, w10);
        }
        rows.push(w10);
        proof {
            assert(wviews(rows@) =~= target.subrange(0, 11));
        }
        let w11 = b.item_vspacer();
        let ghost g = rows@;
        proof {
            lemma_wviews_push(g, w11);
        }
        rows.push(w11);
        proof {
            assert(wviews(rows@) =~= target.subrange(0, 12));
        }
        let empty_left: Vec<Widget> = Vec::new();
        proof {
            assert(wviews(empty_left@) =~= Seq::<WidgetV>::empty());
        }
        let w12 = b.two_col_row(
            empty_left,
            two(
                b.button("Crashed", ButtonStyle::Secondary, Click::Crash),
                b.button("Killed", ButtonStyle::Secondary, Click::Killed),
            ),
            ColumnAlignment::Right,
        );
        let ghost g = rows@;
        proof {
            lemma_wviews_push(g, w12);
        }
        rows.push(w12);
        proof {
            assert(wviews(rows@) =~= target.subrange(0, 13));
        }
        let w13 = b.section_vspacer();
        let ghost g = rows@;
        proof {
            lemma_wviews_push(g, w13);
        }
        rows.push(w13);
        proof {
            assert(wviews(rows@) =~= target.subrange(0, 14));
            assert(target.subrange(0, 14) =~= target);
        }
        rows
    }

    /// The history section's rows, as executable code.
    #[verifier::rlimit(100)]
    fn history_rows(&self) -> (v: Vec<Widget>)
        ensures
            wviews(v@) == spec_history_rows(self@),
    {
        let b = UiBuilder::new();
        let ghost target = spec_history_rows(self@);
        let nrec: usize = match &self.data {
            Some(d) => d.len(),
            None => 0,
        };
        let ht = history_title(nrec);
        let history_right: Vec<Widget> = if nrec > 0 {
            one(b.button("Clear", ButtonStyle::Danger, Click::Clear))
        } else {
            let v: Vec<Widget> = Vec::new();
            proof {
                assert(wviews(v@) =~= Seq::<WidgetV>::empty());
            }
            v
        };
        let mut rows: Vec<Widget> = Vec::new();
        let w0 = b.two_col_row(one(b.title(ht.as_str())), history_right, ColumnAlignment::Outward);
        let ghost g = rows@;
        proof {
            assert(wviews(rows@) =~= Seq::<WidgetV>::empty());
            lemma_wviews_push(g, w0);
        }
        rows.push(w0);
        proof {
            assert(wviews(rows@) =~= target.subrange(0, 1));
        }
        let w1 = b.item_vspacer();
        let ghost g = rows@;
        proof {
            lemma_wviews_push(g, w1);
        }
        rows.push(w1);
        proof {
            assert(wviews(rows@) =~= target.subrange(0, 2));
        }
        let w2 = match &self.data {
            None => b.placeholder("No records."),
            Some(d) => {
                if d.records.len() == 0 {
                    b.placeholder("No records.")
                } else {
                    let m = d.records.len();
                    let mut entries: Vec<Widget> = Vec::new();
                    proof {
                        assert(wviews(entries@) =~= Seq::<WidgetV>::empty());
                    }
                    let mut k: usize = 0;
                    while k < m
                        invariant
                            k <= m,
                            m == d.records@.len(),
                            wviews(entries@) =~= Seq::new(
                                k as nat,
                                |i: int|
                                    WidgetV::Label(
                                        spec_entry_text(d.records@[i]@),
                                        FontStyle::Regular,
                                    ),
                            ),
                        decreases m - k,
                    {
                        let e = make_entry(&d.records[k]);
                        let ghost ge = entries@;
                        proof {
                            lemma_wviews_push(ge, e);
                        }
                        entries.push(e);
                        proof {
                            assert(wviews(entries@) =~= Seq::new(
                                (k + 1) as nat,
                                |i: int|
                                    WidgetV::Label(
                                        spec_entry_text(d.records@[i]@),
                                        FontStyle::Regular,
                                    ),
                            ));
                        }
                        k = k + 1;
                    }
                    proof {
                        assert(Seq::new(
                            m as nat,
                            |i: int|
                                WidgetV::Label(spec_entry_text(d.records@[i]@), FontStyle::Regular),
                        ) =~= spec_entry_rows(d@));
                    }
                    b.list(entries)
                }
            },
        };
        let ghost g = rows@;
        proof {
            lemma_wviews_push(g, w2);
        }
        rows.push(w2);
        proof {
            assert(wviews(rows@) =~= target.subrange(0, 3));
            assert(target.subrange(0, 3) =~= target);
        }
        rows
    }

    /// The window for the current state. `clock` stands in for the
    /// current time until the first tick arrives.
    pub fn render(&self, clock: Timestamp) -> (w: Widget)
        ensures
            w@ == spec_view(self@, clock),
    {
        let b = UiBuilder::new();
        let now = match &self.last_tick {
            Some(t) => *t,
            None => clock,
        };
        let mut rows: Vec<Widget> = Vec::new();
        proof {
            assert(wviews(rows@) =~= Seq::<WidgetV>::empty());
        }
        match &self.last_save_error {
            Some(e) => {
                let banner_text = save_banner(e);
                let banner = b.placeholder(banner_text.as_str());
                let ghost g = rows@;
                proof {
                    lemma_wviews_push(g, banner);
                }
                rows.push(banner);
            },
            None => {},
        }
        proof {
            assert(wviews(rows@) =~= spec_status_rows(self@));
        }
        let ghost status_part = rows@;
        let mut form = self.form_rows(&now);
        let ghost form_part = form@;
        rows.append(&mut form);
        proof {
            lemma_wviews_append(status_part, form_part);
        }
        let mut hist = self.history_rows();
        let ghost hist_part = hist@;
        let ghost with_form = rows@;
        rows.append(&mut hist);
        proof {
            lemma_wviews_append(with_form, hist_part);
            assert(wviews(rows@) == wviews(with_form) + wviews(hist_part));
            assert(wviews(rows@) =~= spec_status_rows(self@) + spec_form_rows(self@, now)
                + spec_history_rows(self@));
        }
        b.root(self.layout_debug, rows)
    }
}

} // verus!
