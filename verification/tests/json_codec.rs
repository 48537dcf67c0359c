use crash_recorder::codec::{decode, encode};
use crash_recorder::json::{Json, write_json};
use crash_recorder::json_parse::parse_json;
use crash_recorder::record::{HowItWasStopped, Record, WhatWasHappening};
use crash_recorder::store::{AppData, LoadError};
use crash_recorder::text::string_of;
use crash_recorder::time::Timestamp;

fn ts(year: u16, month: u8, day: u8, hour: u8, minute: u8, second: u8) -> Timestamp {
    Timestamp { year, month, day, hour, minute, second }
}

fn sample_record() -> Record {
    Record {
        frozen: Some(ts(2024, 5, 6, 7, 8, 9)),
        busy: None,
        description: String::from("IDE froze"),
        how: HowItWasStopped::SelfCrashed,
        when: ts(2024, 5, 6, 7, 8, 10),
        what: Some(WhatWasHappening::Typing),
    }
}

fn assert_records_equal(a: &Record, b: &Record) {
    assert_eq!(a.frozen, b.frozen);
    assert_eq!(a.busy, b.busy);
    assert_eq!(a.description, b.description);
    assert_eq!(a.how, b.how);
    assert_eq!(a.when, b.when);
    assert_eq!(a.what, b.what);
}

#[test]
fn encoding_then_decoding_gives_the_records_back() {
    let mut store = AppData::new();
    store.push_record(sample_record());
    store.push_record(Record {
        frozen: None,
        busy: Some(ts(2023, 12, 31, 23, 59, 59)),
        description: String::new(),
        how: HowItWasStopped::ManuallyKilled,
        when: ts(2024, 1, 1, 0, 0, 0),
        what: None,
    });
    let text = encode(&store);
    let back = decode(text.as_str()).expect("the encoded store must decode");
    assert_eq!(back.records.len(), 2);
    assert_records_equal(&back.records[0], &store.records[0]);
    assert_records_equal(&back.records[1], &store.records[1]);
}

#[test]
fn round_trip_keeps_tricky_descriptions() {
    let mut store = AppData::new();
    store.push_record(Record {
        frozen: None,
        busy: None,
        description: String::from("quotes \" backslash \\ newline \n tab \t control \u{1} accents éü"),
        how: HowItWasStopped::SelfCrashed,
        when: ts(2024, 5, 6, 7, 8, 10),
        what: None,
    });
    let text = encode(&store);
    let back = decode(text.as_str()).expect("the encoded store must decode");
    assert_records_equal(&back.records[0], &store.records[0]);
}

#[test]
fn the_file_text_is_the_pretty_printed_schema() {
    let mut store = AppData::new();
    store.push_record(sample_record());
    let text = encode(&store);
    let expected = "{\n  \"records\": [\n    {\n      \"frozen\": \"2024-05-06T07:08:09+00:00\",\n      \"busy\": null,\n      \"description\": \"IDE froze\",\n      \"how\": \"self-crashed\",\n      \"when\": \"2024-05-06T07:08:10+00:00\",\n      \"what\": \"typing\"\n    }\n  ]\n}";
    assert_eq!(text, expected);
}

#[test]
fn an_empty_store_is_the_empty_array_object() {
    let store = AppData::new();
    assert_eq!(encode(&store), "{\n  \"records\": []\n}");
    let back = decode("{\n  \"records\": []\n}").expect("must decode");
    assert_eq!(back.records.len(), 0);
}

#[test]
fn lenient_fields_absorb_bad_values() {
    // an unparseable `frozen` string and a missing `busy` key read back
    // as absent fields, not as a format error
    let text = r#"{"records": [{"frozen": "not-a-date", "description": "x", "how": "self-crashed", "when": "2024-01-02T03:04:05+00:00"}]}"#;
    let back = decode(text).expect("leniency must absorb the bad field");
    assert_eq!(back.records.len(), 1);
    assert_eq!(back.records[0].frozen, None);
    assert_eq!(back.records[0].busy, None);
    assert_eq!(back.records[0].description, "x");
    assert_eq!(back.records[0].how, HowItWasStopped::SelfCrashed);
    assert_eq!(back.records[0].when, ts(2024, 1, 2, 3, 4, 5));
    assert_eq!(back.records[0].what, None);
}

#[test]
fn lenient_fields_absorb_wrong_types() {
    let text = r#"{"records": [{"frozen": 42, "busy": [1, {"deep": true}], "what": "resting", "description": "", "how": "manually-killed", "when": "2024-01-02T03:04:05Z"}]}"#;
    let back = decode(text).expect("leniency must absorb wrong-typed fields");
    assert_eq!(back.records[0].frozen, None);
    assert_eq!(back.records[0].busy, None);
    assert_eq!(back.records[0].what, None);
    assert_eq!(back.records[0].how, HowItWasStopped::ManuallyKilled);
}

#[test]
fn unknown_members_are_ignored() {
    let text = r#"{"version": 3, "records": [{"extra": null, "description": "x", "how": "self-crashed", "when": "2024-01-02T03:04:05Z"}]}"#;
    let back = decode(text).expect("unknown members are ignored");
    assert_eq!(back.records.len(), 1);
}

#[test]
fn required_fields_are_strict() {
    let when_ok = r#""2024-01-02T03:04:05Z""#;
    // missing description
    let text = format!(r#"{{"records": [{{"how": "self-crashed", "when": {when_ok}}}]}}"#);
    assert_eq!(decode(&text).unwrap_err(), LoadError::FormatError);
    // unknown cause
    let text = format!(r#"{{"records": [{{"description": "x", "how": "imploded", "when": {when_ok}}}]}}"#);
    assert_eq!(decode(&text).unwrap_err(), LoadError::FormatError);
    // unparseable `when`
    let text = r#"{"records": [{"description": "x", "how": "self-crashed", "when": "soon"}]}"#;
    assert_eq!(decode(text).unwrap_err(), LoadError::FormatError);
    // `when` of the wrong type
    let text = r#"{"records": [{"description": "x", "how": "self-crashed", "when": null}]}"#;
    assert_eq!(decode(text).unwrap_err(), LoadError::FormatError);
}

#[test]
fn invalid_documents_are_format_errors() {
    assert_eq!(decode("").unwrap_err(), LoadError::FormatError);
    assert_eq!(decode("not json").unwrap_err(), LoadError::FormatError);
    assert_eq!(decode("{\"records\": [}").unwrap_err(), LoadError::FormatError);
    assert_eq!(decode("{\"records\": {}}").unwrap_err(), LoadError::FormatError);
    assert_eq!(decode("{}").unwrap_err(), LoadError::FormatError);
    assert_eq!(decode("[]").unwrap_err(), LoadError::FormatError);
    assert_eq!(decode("{\"records\": []} trailing").unwrap_err(), LoadError::FormatError);
}

#[test]
fn the_json_parser_decodes_escapes() {
    let parsed = parse_json(r#""a\nb\t\"\\\/\u0041é""#).expect("must parse");
    match parsed {
        Json::Str(s) => assert_eq!(s, "a\nb\t\"\\/Aé"),
        _ => panic!("expected a string"),
    }
    let parsed = parse_json(r#""\ud83d\ude00""#).expect("surrogate pair must parse");
    match parsed {
        Json::Str(s) => assert_eq!(s, "\u{1F600}"),
        _ => panic!("expected a string"),
    }
    // a lone surrogate is not a string
    assert!(parse_json(r#""\ud83d""#).is_none());
}

#[test]
fn the_json_parser_handles_numbers_and_nesting() {
    assert!(parse_json("[1, -2.5e3, 0, 0.125E-2]").is_some());
    assert!(parse_json("01").is_none());
    assert!(parse_json("1.").is_none());
    assert!(parse_json("[true, false, null, [{}, []]]").is_some());
    assert!(parse_json("[1,]").is_none());
    assert!(parse_json("{\"a\": }").is_none());
}

#[test]
fn the_json_printer_writes_the_documented_layout() {
    let v = Json::Obj(vec![
        (String::from("a"), Json::Arr(vec![Json::Bool(true), Json::Null])),
        (String::from("b"), Json::Str(String::from("x\ny"))),
    ]);
    let mut out: Vec<char> = Vec::new();
    write_json(&v, 0, &mut out);
    let text = string_of(&out);
    assert_eq!(
        text,
        "{\n  \"a\": [\n    true,\n    null\n  ],\n  \"b\": \"x\\ny\"\n}"
    );
}
