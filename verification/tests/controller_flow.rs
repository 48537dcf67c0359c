use crash_recorder::codec::decode;
use crash_recorder::controller::{Action, Controller, KeyEvent, Message};
use crash_recorder::record::{HowItWasStopped, Record, WhatWasHappening};
use crash_recorder::store::{AppData, LoadError, SaveError};
use crash_recorder::time::Timestamp;

fn ts(hour: u8, minute: u8, second: u8) -> Timestamp {
    Timestamp { year: 2024, month: 5, day: 6, hour, minute, second }
}

fn ready_controller() -> Controller {
    let mut c = Controller::new(ts(9, 0, 0));
    let a = c.update(Message::DataLoaded(Ok(AppData::new())));
    assert!(matches!(a, Action::Idle));
    c
}

fn store_len(c: &Controller) -> usize {
    c.data.as_ref().map(|d| d.records.len()).unwrap_or(0)
}

#[test]
fn a_failed_load_still_reaches_an_empty_store() {
    let mut c = Controller::new(ts(9, 0, 0));
    assert!(c.data.is_none());
    let a = c.update(Message::DataLoaded(Err(LoadError::FileError)));
    assert!(matches!(a, Action::Idle));
    assert_eq!(store_len(&c), 0);
    assert!(c.data.is_some());
}

#[test]
fn committing_records_appends_them_in_order() {
    let mut c = ready_controller();
    for k in 0..3u8 {
        c.update(Message::DescriptionEdited(format!("note {}", k)));
        let a = c.update(Message::CrashClicked { now: ts(10, k, 0) });
        // the first save is issued at once; later ones coalesce until
        // the previous save completes
        if k == 0 {
            assert!(matches!(a, Action::Save(_)));
        }
    }
    assert_eq!(store_len(&c), 3);
    let records = &c.data.as_ref().unwrap().records;
    for k in 0..3u8 {
        assert_eq!(records[k as usize].description, format!("note {}", k));
        assert_eq!(records[k as usize].when, ts(10, k, 0));
        assert_eq!(records[k as usize].how, HowItWasStopped::SelfCrashed);
    }
    // the draft was replaced by a fresh one after each commit
    assert_eq!(c.edit.description, "");
    assert_eq!(c.edit.frozen, None);
}

#[test]
fn clearing_empties_the_store() {
    let mut c = ready_controller();
    c.update(Message::CrashClicked { now: ts(10, 0, 0) });
    c.update(Message::KilledClicked { now: ts(10, 1, 0) });
    assert_eq!(store_len(&c), 2);
    c.update(Message::ClearClicked);
    assert_eq!(store_len(&c), 0);
}

#[test]
fn toggling_frozen_stamps_and_clears() {
    let mut c = ready_controller();
    c.update(Message::FrozenToggled { checked: true, now: ts(10, 30, 0) });
    assert_eq!(c.edit.frozen, Some(ts(10, 30, 0)));
    c.update(Message::FrozenToggled { checked: false, now: ts(10, 31, 0) });
    assert_eq!(c.edit.frozen, None);
    c.update(Message::BusyToggled { checked: true, now: ts(10, 32, 0) });
    assert_eq!(c.edit.busy, Some(ts(10, 32, 0)));
    c.update(Message::BusyToggled { checked: false, now: ts(10, 33, 0) });
    assert_eq!(c.edit.busy, None);
}

#[test]
fn from_no_file_to_one_saved_record() {
    // the file cannot be read at startup: the store starts empty
    let mut c = Controller::new(ts(9, 0, 0));
    c.update(Message::DataLoaded(Err(LoadError::FileError)));
    assert_eq!(store_len(&c), 0);
    // the user fills the form and commits
    c.update(Message::DescriptionEdited(String::from("IDE froze")));
    c.update(Message::FrozenToggled { checked: true, now: ts(10, 0, 0) });
    let a = c.update(Message::CrashClicked { now: ts(10, 0, 5) });
    // the store holds the one record
    assert_eq!(store_len(&c), 1);
    let r = &c.data.as_ref().unwrap().records[0];
    assert_eq!(r.description, "IDE froze");
    assert_eq!(r.frozen, Some(ts(10, 0, 0)));
    assert_eq!(r.how, HowItWasStopped::SelfCrashed);
    assert_eq!(r.when, ts(10, 0, 5));
    // and the issued save holds exactly that record as JSON
    match a {
        Action::Save(text) => {
            let back = decode(text.as_str()).expect("the saved text must decode");
            assert_eq!(back.records.len(), 1);
            assert_eq!(back.records[0].description, "IDE froze");
            assert_eq!(back.records[0].frozen, Some(ts(10, 0, 0)));
            assert_eq!(back.records[0].how, HowItWasStopped::SelfCrashed);
            assert_eq!(back.records[0].when, ts(10, 0, 5));
        },
        Action::Idle => panic!("a commit with a loaded store must save"),
    }
}

#[test]
fn clearing_a_loaded_file_saves_the_empty_store() {
    // a file with two records is loaded
    let loaded = decode(
        "{\"records\": [\
         {\"frozen\": null, \"busy\": null, \"description\": \"a\", \"how\": \"self-crashed\", \"when\": \"2024-01-02T03:04:05Z\"},\
         {\"frozen\": null, \"busy\": null, \"description\": \"b\", \"how\": \"manually-killed\", \"when\": \"2024-01-02T03:04:06Z\"}\
         ]}",
    )
    .expect("the file must decode");
    let mut c = Controller::new(ts(9, 0, 0));
    c.update(Message::DataLoaded(Ok(loaded)));
    assert_eq!(store_len(&c), 2);
    // clearing empties the store and writes the empty document
    let a = c.update(Message::ClearClicked);
    assert_eq!(store_len(&c), 0);
    match a {
        Action::Save(text) => assert_eq!(text, "{\n  \"records\": []\n}"),
        Action::Idle => panic!("clearing a loaded store must save"),
    }
}

#[test]
fn commits_before_the_store_loads_only_stamp_the_draft() {
    let mut c = Controller::new(ts(9, 0, 0));
    let a = c.update(Message::KilledClicked { now: ts(9, 0, 1) });
    assert!(matches!(a, Action::Idle));
    assert!(c.data.is_none());
    assert_eq!(c.edit.how, HowItWasStopped::ManuallyKilled);
    assert_eq!(c.edit.when, ts(9, 0, 1));
}

#[test]
fn overlapping_saves_coalesce_to_the_latest_store() {
    let mut c = ready_controller();
    // the first commit issues a save at once
    let a1 = c.update(Message::CrashClicked { now: ts(10, 0, 0) });
    assert!(matches!(a1, Action::Save(_)));
    // a second commit while that save is in flight only marks dirty
    let a2 = c.update(Message::KilledClicked { now: ts(10, 0, 1) });
    assert!(matches!(a2, Action::Idle));
    assert!(c.saving && c.dirty);
    // the completion event issues one more save with both records
    let a3 = c.update(Message::Saved(Ok(())));
    match a3 {
        Action::Save(text) => {
            let back = decode(text.as_str()).expect("must decode");
            assert_eq!(back.records.len(), 2);
        },
        Action::Idle => panic!("a dirty store must be saved again"),
    }
    // and the guard opens once that save completes too
    let a4 = c.update(Message::Saved(Ok(())));
    assert!(matches!(a4, Action::Idle));
    assert!(!c.saving && !c.dirty);
}

#[test]
fn save_failures_are_surfaced_not_dropped() {
    let mut c = ready_controller();
    c.update(Message::CrashClicked { now: ts(10, 0, 0) });
    c.update(Message::Saved(Err(SaveError::WriteError)));
    assert_eq!(c.last_save_error, Some(SaveError::WriteError));
    // the record itself is untouched by the failure
    assert_eq!(store_len(&c), 1);
    // a later success clears the notice
    c.update(Message::CrashClicked { now: ts(10, 0, 1) });
    c.update(Message::Saved(Ok(())));
    assert_eq!(c.last_save_error, None);
}

#[test]
fn only_the_bare_f11_chord_toggles_the_overlay() {
    let mut c = ready_controller();
    assert!(!c.layout_debug);
    let chord = KeyEvent { pressed: true, f11: true, shift: false, control: false, alt: false, logo: false };
    c.update(Message::EventOccurred(chord));
    assert!(c.layout_debug);
    c.update(Message::EventOccurred(KeyEvent { shift: true, ..chord }));
    assert!(c.layout_debug);
    c.update(Message::EventOccurred(KeyEvent { pressed: false, ..chord }));
    assert!(c.layout_debug);
    c.update(Message::EventOccurred(KeyEvent { f11: false, ..chord }));
    assert!(c.layout_debug);
    c.update(Message::EventOccurred(chord));
    assert!(!c.layout_debug);
}

#[test]
fn ticks_and_activity_edits_reach_the_state() {
    let mut c = ready_controller();
    assert_eq!(c.last_tick, None);
    c.update(Message::Tick(ts(11, 0, 0)));
    assert_eq!(c.last_tick, Some(ts(11, 0, 0)));
    c.update(Message::WhatChanged(WhatWasHappening::Debugging));
    assert_eq!(c.edit.what, Some(WhatWasHappening::Debugging));
    // committing stamps the activity into the record too
    c.update(Message::CrashClicked { now: ts(11, 0, 1) });
    let r: &Record = &c.data.as_ref().unwrap().records[0];
    assert_eq!(r.what, Some(WhatWasHappening::Debugging));
}

#[test]
fn the_window_title_is_fixed() {
    let c = Controller::new(ts(9, 0, 0));
    assert_eq!(c.title(), "Crash recorder");
}
