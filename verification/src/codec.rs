//! The store's file format: how records become the JSON the file holds,
//! and how that JSON becomes records again.
//!
//! Decoding is deliberately lenient on the optional fields: a `frozen`,
//! `busy` or `what` entry that is missing, `null`, of another JSON type,
//! or an unparseable string yields an absent field rather than an error.
//! The required fields — `description`, `how`, `when` — must be present
//! and well formed, or the whole document is rejected.

use vstd::prelude::*;

use crate::json::{Json, JsonV, jview, jviews, mviews, spec_ser, lemma_jviews_push,
    lemma_mviews_index};
use crate::json_parse::{spec_parse_json, parse_json};
use crate::record::{Record, RecordV, HowItWasStopped, WhatWasHappening};
use crate::rfc3339::{spec_parse_rfc3339, parse_rfc3339};
use crate::store::{AppData, LoadError};
use crate::text::{chars_of, string_of, string_eq_str};
use crate::time::Timestamp;

verus! {

/// The kebab-case name of a cause.
pub open spec fn how_str(h: HowItWasStopped) -> Seq<char> {
    match h {
        HowItWasStopped::SelfCrashed => "self-crashed"@,
        HowItWasStopped::ManuallyKilled => "manually-killed"@,
    }
}

/// The kebab-case name of an activity.
pub open spec fn what_str(w: WhatWasHappening) -> Seq<char> {
    match w {
        WhatWasHappening::Typing => "typing"@,
        WhatWasHappening::Running => "running"@,
        WhatWasHappening::Testing => "testing"@,
        WhatWasHappening::Debugging => "debugging"@,
    }
}

/// An optional timestamp as JSON: its RFC 3339 string, or `null`.
pub open spec fn opt_ts_json(o: Option<Timestamp>) -> JsonV {
    match o {
        None => JsonV::Null,
        Some(t) => JsonV::Str(t.spec_rfc3339()),
    }
}

/// An optional activity as JSON: its name, or `null`.
pub open spec fn opt_what_json(o: Option<WhatWasHappening>) -> JsonV {
    match o {
        None => JsonV::Null,
        Some(w) => JsonV::Str(what_str(w)),
    }
}

/// The JSON object a record is written as.
pub open spec fn json_of_record(r: RecordV) -> JsonV {
    JsonV::Obj(
        seq![
            ("frozen"@, opt_ts_json(r.frozen)),
            ("busy"@, opt_ts_json(r.busy)),
            ("description"@, JsonV::Str(r.description)),
            ("how"@, JsonV::Str(how_str(r.how))),
            ("when"@, JsonV::Str(r.when.spec_rfc3339())),
            ("what"@, opt_what_json(r.what)),
        ],
    )
}

/// The JSON object the whole store is written as.
pub open spec fn json_of_store(records: Seq<RecordV>) -> JsonV {
    JsonV::Obj(
        seq![
            ("records"@, JsonV::Arr(Seq::new(records.len(), |i: int| json_of_record(records[i])))),
        ],
    )
}

/// The exact text of the store file for the given records.
pub open spec fn spec_encode(records: Seq<RecordV>) -> Seq<char> {
    spec_ser(json_of_store(records), 0)
}

/// The value of the first member named `key` at or after position `k`.
pub open spec fn lookup_from(m: Seq<(Seq<char>, JsonV)>, key: Seq<char>, k: int) -> Option<JsonV>
    decreases m.len() - k,
{
    if k < 0 || k >= m.len() {
        None
    } else if m[k].0 == key {
        Some(m[k].1)
    } else {
        lookup_from(m, key, k + 1)
    }
}

/// The value of the first member named `key`; later duplicates of a key
/// are ignored.
pub open spec fn lookup(m: Seq<(Seq<char>, JsonV)>, key: Seq<char>) -> Option<JsonV> {
    lookup_from(m, key, 0)
}

/// The lenient reading of an optional timestamp member: a parseable
/// RFC 3339 string gives the timestamp; anything else gives absence.
pub open spec fn opt_ts_of(v: Option<JsonV>) -> Option<Timestamp> {
    match v {
        Some(JsonV::Str(t)) => spec_parse_rfc3339(t),
        _ => None,
    }
}

/// The lenient reading of the optional activity member.
pub open spec fn opt_what_of(v: Option<JsonV>) -> Option<WhatWasHappening> {
    match v {
        Some(JsonV::Str(x)) => if x == "typing"@ {
            Some(WhatWasHappening::Typing)
        } else if x == "running"@ {
            Some(WhatWasHappening::Running)
        } else if x == "testing"@ {
            Some(WhatWasHappening::Testing)
        } else if x == "debugging"@ {
            Some(WhatWasHappening::Debugging)
        } else {
            None
        },
        _ => None,
    }
}

/// The record a JSON value denotes, if its required members —
/// `description`, `how`, `when` — are present and well formed.
#[verifier::opaque]
pub open spec fn record_of_json(v: JsonV) -> Option<RecordV> {
    if !(v is Obj) {
        None
    } else {
        let m = v->Obj_0;
        match (lookup(m, "description"@), lookup(m, "how"@), lookup(m, "when"@)) {
            (Some(JsonV::Str(d)), Some(JsonV::Str(h)), Some(JsonV::Str(w))) => {
                let howv = if h == "self-crashed"@ {
                    Some(HowItWasStopped::SelfCrashed)
                } else if h == "manually-killed"@ {
                    Some(HowItWasStopped::ManuallyKilled)
                } else {
                    None
                };
                match (howv, spec_parse_rfc3339(w)) {
                    (Some(how), Some(when)) => Some(
                        RecordV {
                            frozen: opt_ts_of(lookup(m, "frozen"@)),
                            busy: opt_ts_of(lookup(m, "busy"@)),
                            description: d,
                            how,
                            when,
                            what: opt_what_of(lookup(m, "what"@)),
                        },
                    ),
                    _ => None,
                }
            },
            _ => None,
        }
    }
}

/// The records a JSON array denotes, in order; `None` if any element is
/// not a well-formed record object.
pub open spec fn records_of_jsons(items: Seq<JsonV>) -> Option<Seq<RecordV>>
    decreases items.len(),
{
    if items.len() == 0 {
        Some(Seq::empty())
    } else {
        match record_of_json(items[0]) {
            None => None,
            Some(r) => match records_of_jsons(items.drop_first()) {
                None => None,
                Some(rest) => Some(seq![r] + rest),
            },
        }
    }
}

/// The records a JSON document denotes: an object whose `records`
/// member is an array of record objects. Other members are ignored.
pub open spec fn store_of_json(v: JsonV) -> Option<Seq<RecordV>> {
    if !(v is Obj) {
        None
    } else {
        match lookup(v->Obj_0, "records"@) {
            Some(JsonV::Arr(items)) => records_of_jsons(items),
            _ => None,
        }
    }
}

/// The records a store file's text denotes, if it is valid JSON of the
/// store schema.
pub open spec fn spec_decode(s: Seq<char>) -> Option<Seq<RecordV>> {
    match spec_parse_json(s) {
        None => None,
        Some(v) => store_of_json(v),
    }
}

/// The first member with the given name, as executable code.
fn lookup_member<'a>(members: &'a Vec<(String, Json)>, key: &str) -> (r: Option<&'a Json>)
    ensures
        r matches Some(j) ==> lookup(mviews(members@), key@) == Some(j@),
        r is None ==> lookup(mviews(members@), key@) is None,
{
    let ghost ms = mviews(members@);
    proof {
        lemma_mviews_index(members@);
    }
    let n = members.len();
    let mut k: usize = 0;
    while k < n
        invariant
            k <= n,
            n == members@.len(),
            ms == mviews(members@),
            ms.len() == members@.len(),
            forall|i: int|
                0 <= i < members@.len() ==> ms[i] == (
                #[trigger] members@[i].0@,
                jview(members@[i].1),
                ),
            lookup_from(ms, key@, 0) == lookup_from(ms, key@, k as int),
        decreases n - k,
    {
        if string_eq_str(&members[k].0, key) {
            return Some(&members[k].1);
        }
        k = k + 1;
    }
    None
}

/// A timestamp as a JSON value, as executable code.
fn opt_ts_to_json(o: &Option<Timestamp>) -> (j: Json)
    ensures
        j@ == opt_ts_json(*o),
{
    match o {
        None => Json::Null,
        Some(t) => {
            let mut cs: Vec<char> = Vec::new();
            t.push_rfc3339(&mut cs);
            Json::Str(string_of(&cs))
        },
    }
}

/// The cause's name, as executable code.
fn how_to_string(h: &HowItWasStopped) -> (s: String)
    ensures
        s@ == how_str(*h),
{
    match h {
        HowItWasStopped::SelfCrashed => String::from_str("self-crashed"),
        HowItWasStopped::ManuallyKilled => String::from_str("manually-killed"),
    }
}

/// The activity's name, as executable code.
fn what_to_string(w: &WhatWasHappening) -> (s: String)
    ensures
        s@ == what_str(*w),
{
    match w {
        WhatWasHappening::Typing => String::from_str("typing"),
        WhatWasHappening::Running => String::from_str("running"),
        WhatWasHappening::Testing => String::from_str("testing"),
        WhatWasHappening::Debugging => String::from_str("debugging"),
    }
}

/// A record as a JSON value, as executable code.
#[verifier::rlimit(100)]
fn record_to_json(r: &Record) -> (j: Json)
    ensures
        j@ == json_of_record(r@),
{
    let ghost tv = json_of_record(r@)->Obj_0;
    let mut members: Vec<(String, Json)> = Vec::new();
    proof {
        assert(mviews(members@) =~= tv.subrange(0, 0));
    }
    let ghost g0 = members@;
    let m0 = (String::from_str("frozen"), opt_ts_to_json(&r.frozen));
    proof {
        crate::json::lemma_mviews_push(g0, m0);
    }
    members.push(m0);
    proof {
        assert(mviews(members@) =~= tv.subrange(0, 1));
    }
    let ghost g1 = members@;
    let m1 = (String::from_str("busy"), opt_ts_to_json(&r.busy));
    proof {
        crate::json::lemma_mviews_push(g1, m1);
    }
    members.push(m1);
    proof {
        assert(mviews(members@) =~= tv.subrange(0, 2));
    }
    let ghost g2 = members@;
    let m2 = (String::from_str("description"), Json::Str(r.description.clone()));
    proof {
        crate::json::lemma_mviews_push(g2, m2);
    }
    members.push(m2);
    proof {
        assert(mviews(members@) =~= tv.subrange(0, 3));
    }
    let ghost g3 = members@;
    let m3 = (String::from_str("how"), Json::Str(how_to_string(&r.how)));
    proof {
        crate::json::lemma_mviews_push(g3, m3);
    }
    members.push(m3);
    proof {
        assert(mviews(members@) =~= tv.subrange(0, 4));
    }
    let mut when_cs: Vec<char> = Vec::new();
    r.when.push_rfc3339(&mut when_cs);
    let ghost g4 = members@;
    let m4 = (String::from_str("when"), Json::Str(string_of(&when_cs)));
    proof {
        crate::json::lemma_mviews_push(g4, m4);
    }
    members.push(m4);
    proof {
        assert(mviews(members@) =~= tv.subrange(0, 5));
    }
    let what_json = match &r.what {
        None => Json::Null,
        Some(w) => Json::Str(what_to_string(w)),
    };
    let ghost g5 = members@;
    let m5 = (String::from_str("what"), what_json);
    proof {
        crate::json::lemma_mviews_push(g5, m5);
    }
    members.push(m5);
    proof {
        assert(mviews(members@) =~= tv.subrange(0, 6));
        assert(tv.subrange(0, 6) =~= tv);
    }
    Json::Obj(members)
}

/// The whole store as a JSON value, as executable code.
fn store_to_json(d: &AppData) -> (j: Json)
    ensures
        j@ == json_of_store(d@),
{
    let n = d.records.len();
    let mut items: Vec<Json> = Vec::new();
    let mut k: usize = 0;
    proof {
        assert(jviews(items@) =~= Seq::<JsonV>::empty());
    }
    while k < n
        invariant
            k <= n,
            n == d.records@.len(),
            jviews(items@) =~= Seq::new(k as nat, |i: int| json_of_record(d@[i])),
        decreases n - k,
    {
        let rj = record_to_json(&d.records[k]);
        proof {
            lemma_jviews_push(items@, rj);
        }
        items.push(rj);
        proof {
            assert(jviews(items@) =~= Seq::new((k + 1) as nat, |i: int| json_of_record(d@[i])));
        }
        k = k + 1;
    }
    let mut members: Vec<(String, Json)> = Vec::new();
    members.push((String::from_str("records"), Json::Arr(items)));
    let j = Json::Obj(members);
    proof {
        lemma_mviews_index(members@);
        assert(mviews(members@) =~= json_of_store(d@)->Obj_0);
    }
    j
}

/// Renders the store as the exact text of its file: the pretty-printed
/// JSON object holding the record array.
pub fn encode(d: &AppData) -> (s: String)
    ensures
        s@ == spec_encode(d@),
{
    let j = store_to_json(d);
    proof {
        lemma_store_json_depth(d@);
    }
    let mut out: Vec<char> = Vec::new();
    crate::json::write_json(&j, 0, &mut out);
    string_of(&out)
}

/// The store's JSON nests at most three containers deep: the object,
/// the array, the record objects.
proof fn lemma_store_json_depth(records: Seq<RecordV>)
    ensures
        crate::json::jdepth(json_of_store(records)) <= 3,
{
    let items = Seq::new(records.len(), |i: int| json_of_record(records[i]));
    assert forall|i: int| 0 <= i < items.len() implies crate::json::jdepth(#[trigger] items[i])
        <= 1 by {
        lemma_record_json_depth(records[i]);
    }
    lemma_jdepth_items_le(items, 1);
    let ms = json_of_store(records)->Obj_0;
    assert(ms.subrange(1, ms.len() as int) =~= Seq::<(Seq<char>, JsonV)>::empty());
    assert(crate::json::jdepth_members(ms.subrange(1, ms.len() as int)) == 0);
    assert(crate::json::jdepth_members(ms) == crate::json::jdepth(ms[0].1));
}

/// A record's JSON holds only leaves, so it nests one container deep.
proof fn lemma_record_json_depth(r: RecordV)
    ensures
        crate::json::jdepth(json_of_record(r)) == 1,
{
    let m = json_of_record(r)->Obj_0;
    assert forall|i: int| 0 <= i < m.len() implies crate::json::jdepth(#[trigger] m[i].1) == 0 by {
    }
    lemma_jdepth_members_zero(m);
}

/// A member list of leaves has depth zero.
proof fn lemma_jdepth_members_zero(m: Seq<(Seq<char>, JsonV)>)
    requires
        forall|i: int| 0 <= i < m.len() ==> crate::json::jdepth(#[trigger] m[i].1) == 0,
    ensures
        crate::json::jdepth_members(m) == 0,
    decreases m,
{
    if m.len() > 0 {
        let tail = m.subrange(1, m.len() as int);
        assert forall|i: int| 0 <= i < tail.len() implies crate::json::jdepth(
            #[trigger] tail[i].1,
        ) == 0 by {
            assert(tail[i] == m[i + 1]);
        }
        lemma_jdepth_members_zero(tail);
    }
}

/// A bound on every element's depth bounds the elements' greatest depth.
proof fn lemma_jdepth_items_le(items: Seq<JsonV>, b: nat)
    requires
        forall|i: int| 0 <= i < items.len() ==> crate::json::jdepth(#[trigger] items[i]) <= b,
    ensures
        crate::json::jdepth_items(items) <= b,
    decreases items,
{
    if items.len() > 0 {
        let tail = items.subrange(1, items.len() as int);
        assert forall|i: int| 0 <= i < tail.len() implies crate::json::jdepth(#[trigger] tail[i])
            <= b by {
            assert(tail[i] == items[i + 1]);
        }
        lemma_jdepth_items_le(tail, b);
    }
}

/// The record a JSON value denotes, as executable code.
#[verifier::rlimit(100)]
fn record_from_json(j: &Json) -> (r: Option<Record>)
    ensures
        r matches Some(rec) ==> record_of_json(j@) == Some(rec@),
        r is None ==> record_of_json(j@) is None,
{
    proof {
        reveal(record_of_json);
    }
    let members = match j {
        Json::Obj(members) => members,
        _ => {
            return None;
        },
    };
    let description: String = match lookup_member(members, "description") {
        Some(Json::Str(d)) => d.clone(),
        _ => {
            return None;
        },
    };
    let how: HowItWasStopped = match lookup_member(members, "how") {
        Some(Json::Str(h)) => {
            if string_eq_str(h, "self-crashed") {
                HowItWasStopped::SelfCrashed
            } else if string_eq_str(h, "manually-killed") {
                HowItWasStopped::ManuallyKilled
            } else {
                return None;
            }
        },
        _ => {
            return None;
        },
    };
    let when: Timestamp = match lookup_member(members, "when") {
        Some(Json::Str(w)) => {
            let cs = chars_of(w.as_str());
            match parse_rfc3339(&cs) {
                Some(t) => t,
                None => {
                    return None;
                },
            }
        },
        _ => {
            return None;
        },
    };
    let frozen: Option<Timestamp> = match lookup_member(members, "frozen") {
        Some(Json::Str(t)) => {
            let cs = chars_of(t.as_str());
            parse_rfc3339(&cs)
        },
        _ => None,
    };
    let busy: Option<Timestamp> = match lookup_member(members, "busy") {
        Some(Json::Str(t)) => {
            let cs = chars_of(t.as_str());
            parse_rfc3339(&cs)
        },
        _ => None,
    };
    let what: Option<WhatWasHappening> = match lookup_member(members, "what") {
        Some(Json::Str(x)) => {
            if string_eq_str(x, "typing") {
                Some(WhatWasHappening::Typing)
            } else if string_eq_str(x, "running") {
                Some(WhatWasHappening::Running)
            } else if string_eq_str(x, "testing") {
                Some(WhatWasHappening::Testing)
            } else if string_eq_str(x, "debugging") {
                Some(WhatWasHappening::Debugging)
            } else {
                None
            }
        },
        _ => None,
    };
    Some(Record { frozen, busy, description, how, when, what })
}

/// Reads the store file's text back into records; `FormatError` exactly
/// when the text is not JSON of the store schema.
#[verifier::rlimit(100)]
pub fn decode(s: &str) -> (r: Result<AppData, LoadError>)
    ensures
        r matches Ok(d) ==> spec_decode(s@) == Some(d@),
        r matches Err(e) ==> spec_decode(s@) is None && e == LoadError::FormatError,
{
    let v = match parse_json(s) {
        Some(v) => v,
        None => {
            return Err(LoadError::FormatError);
        },
    };
    let members = match &v {
        Json::Obj(members) => members,
        _ => {
            return Err(LoadError::FormatError);
        },
    };
    let items = match lookup_member(members, "records") {
        Some(Json::Arr(items)) => items,
        _ => {
            return Err(LoadError::FormatError);
        },
    };
    let ghost ivs = jviews(items@);
    proof {
        assert(spec_decode(s@) == records_of_jsons(ivs));
        crate::json::lemma_jviews_index(items@);
        lemma_records_of_jsons_len(ivs);
        assert(ivs.subrange(0, ivs.len() as int) =~= ivs);
        if records_of_jsons(ivs) is Some {
            let all = records_of_jsons(ivs)->0;
            assert(all.subrange(0, all.len() as int) =~= all);
        }
    }
    let n = items.len();
    let mut out = AppData::new();
    let mut k: usize = 0;
    while k < n
        invariant
            k <= n,
            n == items@.len(),
            spec_decode(s@) == records_of_jsons(ivs),
            ivs == jviews(items@),
            ivs.len() == items@.len(),
            forall|i: int| 0 <= i < items@.len() ==> ivs[i] == jview(#[trigger] items@[i]),
            records_of_jsons(ivs) matches Some(all) ==> out@ == all.subrange(0, k as int),
            records_of_jsons(ivs) matches Some(all) ==> all.len() == ivs.len(),
            records_of_jsons(ivs.subrange(k as int, ivs.len() as int)) is Some
                <==> records_of_jsons(ivs) is Some,
            records_of_jsons(ivs) matches Some(all) ==> records_of_jsons(
                ivs.subrange(k as int, ivs.len() as int),
            ) == Some(all.subrange(k as int, all.len() as int)),
        decreases n - k,
    {
        proof {
            lemma_records_of_jsons_step(ivs, k as int);
        }
        match record_from_json(&items[k]) {
            None => {
                return Err(LoadError::FormatError);
            },
            Some(rec) => {
                out.push_record(rec);
            },
        }
        proof {
            if records_of_jsons(ivs) is Some {
                let all = records_of_jsons(ivs)->0;
                assert(out@ =~= all.subrange(0, (k + 1) as int));
            }
        }
        k = k + 1;
    }
    proof {
        assert(ivs.subrange(n as int, n as int) =~= Seq::<JsonV>::empty());
        if records_of_jsons(ivs) is Some {
            let all = records_of_jsons(ivs)->0;
            assert(out@ =~= all);
        }
    }
    Ok(out)
}

/// Decoded records come one per array element.
proof fn lemma_records_of_jsons_len(items: Seq<JsonV>)
    ensures
        records_of_jsons(items) matches Some(rs) ==> rs.len() == items.len(),
    decreases items.len(),
{
    if items.len() > 0 {
        lemma_records_of_jsons_len(items.drop_first());
    }
}

/// A record's JSON holds no numbers.
proof fn lemma_num_free_record(r: RecordV)
    ensures
        crate::json::num_free(json_of_record(r)),
{
    let m = json_of_record(r)->Obj_0;
    assert forall|i: int| 0 <= i < m.len() implies crate::json::num_free(#[trigger] m[i].1) by {
        assert(m.len() == 6);
    }
}

/// The store's JSON holds no numbers.
proof fn lemma_num_free_store(v: Seq<RecordV>)
    ensures
        crate::json::num_free(json_of_store(v)),
{
    let items = Seq::new(v.len(), |i: int| json_of_record(v[i]));
    assert forall|i: int| 0 <= i < items.len() implies crate::json::num_free(
        #[trigger] items[i],
    ) by {
        lemma_num_free_record(v[i]);
    }
    let m = json_of_store(v)->Obj_0;
    assert forall|i: int| 0 <= i < m.len() implies crate::json::num_free(#[trigger] m[i].1) by {
        assert(m.len() == 1);
        assert(m[0].1 == JsonV::Arr(items));
    }
}

/// Reveals the views of every string literal the schema uses.
proof fn lemma_schema_strings()
    ensures
        "frozen"@.len() == 6,
        "busy"@.len() == 4,
        "description"@.len() == 11,
        "how"@.len() == 3,
        "when"@.len() == 4,
        "what"@.len() == 4,
        "records"@.len() == 7,
        "busy"@[0] == 'b' && "when"@[0] == 'w' && "what"@[0] == 'w',
        "when"@[2] == 'e' && "what"@[2] == 'a',
        "self-crashed"@.len() == 12,
        "manually-killed"@.len() == 15,
        "typing"@.len() == 6,
        "running"@.len() == 7,
        "testing"@.len() == 7,
        "debugging"@.len() == 9,
        "running"@[0] == 'r' && "testing"@[0] == 't',
{
    reveal_strlit("frozen");
    reveal_strlit("busy");
    reveal_strlit("description");
    reveal_strlit("how");
    reveal_strlit("when");
    reveal_strlit("what");
    reveal_strlit("records");
    reveal_strlit("self-crashed");
    reveal_strlit("manually-killed");
    reveal_strlit("typing");
    reveal_strlit("running");
    reveal_strlit("testing");
    reveal_strlit("debugging");
}

/// Reading back the JSON object of a valid record gives the record.
#[verifier::rlimit(100)]
proof fn lemma_record_round(r: RecordV)
    requires
        r.valid(),
    ensures
        record_of_json(json_of_record(r)) == Some(r),
{
    reveal(record_of_json);
    reveal_with_fuel(lookup_from, 8);
    lemma_schema_strings();
    let m = json_of_record(r)->Obj_0;
    assert(lookup(m, "description"@) == Some(JsonV::Str(r.description)));
    assert(lookup(m, "how"@) == Some(JsonV::Str(how_str(r.how))));
    assert(lookup(m, "when"@) == Some(JsonV::Str(r.when.spec_rfc3339())));
    assert(lookup(m, "frozen"@) == Some(opt_ts_json(r.frozen)));
    assert(lookup(m, "busy"@) == Some(opt_ts_json(r.busy)));
    assert(lookup(m, "what"@) == Some(opt_what_json(r.what)));
    crate::rfc3339::lemma_rfc3339_round_trip(r.when);
    if r.frozen is Some {
        crate::rfc3339::lemma_rfc3339_round_trip(r.frozen->0);
    }
    if r.busy is Some {
        crate::rfc3339::lemma_rfc3339_round_trip(r.busy->0);
    }
}

/// Reading back the JSON array of valid records gives the records.
proof fn lemma_records_round(v: Seq<RecordV>)
    requires
        crate::store::store_valid(v),
    ensures
        records_of_jsons(Seq::new(v.len(), |i: int| json_of_record(v[i]))) == Some(v),
    decreases v.len(),
{
    let items = Seq::new(v.len(), |i: int| json_of_record(v[i]));
    if v.len() == 0 {
        assert(v =~= Seq::<RecordV>::empty());
    } else {
        lemma_record_round(v[0]);
        let tail = v.drop_first();
        assert(crate::store::store_valid(tail)) by {
            assert forall|i: int| 0 <= i < tail.len() implies (#[trigger] tail[i]).valid() by {
                assert(tail[i] == v[i + 1]);
            }
        }
        lemma_records_round(tail);
        assert(items.drop_first() =~= Seq::new(tail.len(), |i: int| json_of_record(tail[i])));
        assert(seq![v[0]] + tail =~= v);
    }
}

/// Writing the store out and reading the text back gives the same
/// records, field for field, absent timestamps included.
pub proof fn lemma_store_round_trip(v: Seq<RecordV>)
    requires
        crate::store::store_valid(v),
    ensures
        spec_decode(spec_encode(v)) == Some(v),
{
    lemma_num_free_store(v);
    crate::json_laws::lemma_json_round_trip(json_of_store(v));
    reveal_with_fuel(lookup_from, 3);
    lemma_schema_strings();
    let m = json_of_store(v)->Obj_0;
    let items = Seq::new(v.len(), |i: int| json_of_record(v[i]));
    assert(lookup(m, "records"@) == Some(JsonV::Arr(items)));
    lemma_records_round(v);
}

/// Every record a JSON value decodes to holds only valid timestamps:
/// the required `when` parsed, and the lenient fields are either absent
/// or parsed.
proof fn lemma_record_of_json_valid(v: JsonV)
    ensures
        record_of_json(v) matches Some(r) ==> r.valid(),
{
    reveal(record_of_json);
    if v is Obj {
        let m = v->Obj_0;
        match lookup(m, "when"@) {
            Some(JsonV::Str(w)) => crate::rfc3339_laws::lemma_parse_rfc3339_valid(w),
            _ => {},
        }
        match lookup(m, "frozen"@) {
            Some(JsonV::Str(x)) => crate::rfc3339_laws::lemma_parse_rfc3339_valid(x),
            _ => {},
        }
        match lookup(m, "busy"@) {
            Some(JsonV::Str(x)) => crate::rfc3339_laws::lemma_parse_rfc3339_valid(x),
            _ => {},
        }
    }
}

/// Every store a JSON array decodes to holds only valid timestamps.
proof fn lemma_records_of_jsons_valid(items: Seq<JsonV>)
    ensures
        records_of_jsons(items) matches Some(rs) ==> crate::store::store_valid(rs),
    decreases items.len(),
{
    if items.len() > 0 {
        lemma_record_of_json_valid(items[0]);
        lemma_records_of_jsons_valid(items.drop_first());
        if records_of_jsons(items) is Some {
            let r = record_of_json(items[0])->0;
            let rest = records_of_jsons(items.drop_first())->0;
            let rs = records_of_jsons(items)->0;
            assert(rs == seq![r] + rest);
            assert forall|i: int| 0 <= i < rs.len() implies (#[trigger] rs[i]).valid() by {
                if i > 0 {
                    assert(rs[i] == rest[i - 1]);
                }
            }
        }
    }
}

/// Every store a document decodes to holds only valid timestamps.
pub proof fn lemma_decode_valid(s: Seq<char>)
    ensures
        spec_decode(s) matches Some(v) ==> crate::store::store_valid(v),
{
    match spec_parse_json(s) {
        None => {},
        Some(doc) => {
            if doc is Obj {
                match lookup(doc->Obj_0, "records"@) {
                    Some(JsonV::Arr(items)) => lemma_records_of_jsons_valid(items),
                    _ => {},
                }
            }
        },
    }
}

/// A loaded store survives a save and reload unchanged: whatever some
/// text decodes to, encoding it and decoding again gives the same
/// records.
pub proof fn lemma_reload_round_trip(s: Seq<char>)
    ensures
        spec_decode(s) matches Some(v) ==> spec_decode(spec_encode(v)) == Some(v),
{
    if spec_decode(s) is Some {
        lemma_decode_valid(s);
        lemma_store_round_trip(spec_decode(s)->0);
    }
}

/// Leniency of record reading: whenever the required members —
/// `description` a string, `how` one of the two cause names, `when` a
/// parseable RFC 3339 string — are in order, the record object is
/// accepted whatever its optional members hold; a `frozen` or `busy`
/// member that is missing, of another type, or an unparseable string
/// reads back as the field being absent.
pub proof fn lemma_record_leniency(m: Seq<(Seq<char>, JsonV)>)
    requires
        lookup(m, "description"@) matches Some(d) && d is Str,
        lookup(m, "how"@) matches Some(h) && h is Str && (h->Str_0 == "self-crashed"@ || h->Str_0
            == "manually-killed"@),
        lookup(m, "when"@) matches Some(w) && w is Str && spec_parse_rfc3339(w->Str_0) is Some,
    ensures
        record_of_json(JsonV::Obj(m)) is Some,
        record_of_json(JsonV::Obj(m))->0.frozen == opt_ts_of(lookup(m, "frozen"@)),
        record_of_json(JsonV::Obj(m))->0.busy == opt_ts_of(lookup(m, "busy"@)),
        lookup(m, "frozen"@) is None ==> record_of_json(JsonV::Obj(m))->0.frozen is None,
        lookup(m, "frozen"@) matches Some(f) && (f is Str ==> spec_parse_rfc3339(f->Str_0) is None)
            ==> record_of_json(JsonV::Obj(m))->0.frozen is None,
        lookup(m, "busy"@) is None ==> record_of_json(JsonV::Obj(m))->0.busy is None,
        lookup(m, "busy"@) matches Some(b) && (b is Str ==> spec_parse_rfc3339(b->Str_0) is None)
            ==> record_of_json(JsonV::Obj(m))->0.busy is None,
{
    reveal(record_of_json);
}

/// How `records_of_jsons` on a suffix relates to one step: the head
/// record and the remaining suffix.
#[verifier::rlimit(100)]
proof fn lemma_records_of_jsons_step(ivs: Seq<JsonV>, k: int)
    requires
        0 <= k < ivs.len(),
    ensures
        record_of_json(ivs[k]) is None ==> records_of_jsons(
            ivs.subrange(k, ivs.len() as int),
        ) is None,
        records_of_jsons(ivs.subrange(k, ivs.len() as int)) matches Some(suf) ==> {
            &&& record_of_json(ivs[k]) is Some
            &&& suf.len() == ivs.len() - k
            &&& suf[0] == record_of_json(ivs[k])->0
            &&& records_of_jsons(ivs.subrange(k + 1, ivs.len() as int)) == Some(
                suf.subrange(1, suf.len() as int),
            )
        },
        records_of_jsons(ivs.subrange(k + 1, ivs.len() as int)) is Some && record_of_json(
            ivs[k],
        ) is Some ==> records_of_jsons(ivs.subrange(k, ivs.len() as int)) is Some,
{
    let suf = ivs.subrange(k, ivs.len() as int);
    assert(suf[0] == ivs[k]);
    assert(suf.drop_first() =~= ivs.subrange(k + 1, ivs.len() as int));
    lemma_records_of_jsons_len(suf.drop_first());
    if record_of_json(ivs[k]) is Some && records_of_jsons(suf.drop_first()) is Some {
        let r = record_of_json(ivs[k])->0;
        let rest = records_of_jsons(suf.drop_first())->0;
        assert(records_of_jsons(suf) == Some(seq![r] + rest));
        assert((seq![r] + rest)[0] == r);
        assert((seq![r] + rest).subrange(1, (seq![r] + rest).len() as int) =~= rest);
    }
}

} // verus!
