use crash_recorder::controller::{Controller, Message};
use crash_recorder::record::{HowItWasStopped, Record};
use crash_recorder::store::{AppData, SaveError};
use crash_recorder::time::Timestamp;
use crash_recorder::view::{
    make_entry, entry_text, Click, ColumnAlignment, FontStyle, ToggleTarget, UiBuilder, Widget,
    ButtonStyle,
};

fn ts(hour: u8, minute: u8, second: u8) -> Timestamp {
    Timestamp { year: 2024, month: 5, day: 6, hour, minute, second }
}

fn bare_record() -> Record {
    Record {
        frozen: None,
        busy: None,
        description: String::new(),
        how: HowItWasStopped::SelfCrashed,
        when: ts(7, 8, 12),
        what: None,
    }
}

#[test]
fn entry_lines_read_like_the_history() {
    let r = Record {
        frozen: Some(ts(7, 8, 9)),
        busy: Some(ts(7, 8, 11)),
        description: String::from("note"),
        ..bare_record()
    };
    assert_eq!(
        entry_text(&r),
        "Frozen from 07:08:09, then busy at 07:08:11, and crashed at 07:08:12 (note)"
    );
    let r = Record { busy: Some(ts(7, 8, 11)), ..bare_record() };
    assert_eq!(entry_text(&r), "Busy from 07:08:11, and crashed at 07:08:12");
    let r = Record { frozen: Some(ts(7, 8, 9)), ..bare_record() };
    assert_eq!(entry_text(&r), "Frozen from 07:08:09, and crashed at 07:08:12");
    assert_eq!(entry_text(&bare_record()), "Crashed at 07:08:12");
    let r = Record { how: HowItWasStopped::ManuallyKilled, ..bare_record() };
    assert_eq!(entry_text(&r), "Killed at 07:08:12");
    match make_entry(&bare_record()) {
        Widget::Label(s, font) => {
            assert_eq!(s, "Crashed at 07:08:12");
            assert!(matches!(font, FontStyle::Regular));
        },
        _ => panic!("an entry renders as a label"),
    }
}

fn walk_header(w: &Widget, saw_title: &mut bool, saw_clear: &mut bool) {
    match w {
        Widget::Title(s, _) => {
            assert_eq!(s, "History (2)");
            *saw_title = true;
        },
        Widget::Button { label, press, style } => {
            assert_eq!(label, "Clear");
            assert!(matches!(press, Click::Clear));
            assert!(matches!(style, ButtonStyle::Danger));
            *saw_clear = true;
        },
        Widget::Row(children) => {
            for child in children {
                walk_header(child, saw_title, saw_clear);
            }
        },
        _ => {},
    }
}

fn root_rows(w: Widget) -> (bool, Vec<Widget>) {
    match w {
        Widget::Root(debug, rows) => (debug, rows),
        _ => panic!("the window renders as a root node"),
    }
}

fn find_placeholders(rows: &[Widget]) -> Vec<&str> {
    rows.iter()
        .filter_map(|w| match w {
            Widget::Placeholder(s, _) => Some(s.as_str()),
            _ => None,
        })
        .collect()
}

#[test]
fn before_the_load_finishes_the_history_is_a_placeholder() {
    let c = Controller::new(ts(9, 0, 0));
    let (debug, rows) = root_rows(c.render(ts(9, 0, 1)));
    assert!(!debug);
    assert_eq!(rows.len(), 17);
    assert_eq!(find_placeholders(&rows), vec!["No records."]);
    match &rows[0] {
        Widget::Title(s, font) => {
            assert_eq!(s, "Record");
            assert!(matches!(font, FontStyle::Bold));
        },
        _ => panic!("the first row is the form title"),
    }
}

#[test]
fn the_form_reflects_the_draft() {
    let mut c = Controller::new(ts(9, 0, 0));
    c.update(Message::DataLoaded(Ok(AppData::new())));
    c.update(Message::DescriptionEdited(String::from("hello")));
    c.update(Message::FrozenToggled { checked: true, now: ts(9, 0, 0) });
    c.update(Message::Tick(ts(9, 1, 40)));
    let (_, rows) = root_rows(c.render(ts(23, 0, 0)));
    match &rows[6] {
        Widget::Input { placeholder, value } => {
            assert_eq!(placeholder, "Description...");
            assert_eq!(value, "hello");
        },
        _ => panic!("row 6 is the description input"),
    }
    match &rows[8] {
        Widget::FormRow(parts) => {
            match &parts[0] {
                Widget::Checkbox { checked, label, target, .. } => {
                    assert!(*checked);
                    assert_eq!(label, "Frozen");
                    assert!(matches!(target, ToggleTarget::Frozen));
                },
                _ => panic!("the form row starts with the checkbox"),
            }
            match &parts[1] {
                // 100 elapsed seconds are 1 minute and 40 seconds
                Widget::Label(s, _) => assert_eq!(s, " 00:01:40 ago"),
                _ => panic!("the form row ends with the elapsed note"),
            }
        },
        _ => panic!("row 8 is the frozen form row"),
    }
    match &rows[10] {
        Widget::FormRow(parts) => match &parts[0] {
            Widget::Checkbox { checked, .. } => assert!(!*checked),
            _ => panic!("the busy row starts with its checkbox"),
        },
        _ => panic!("row 10 is the busy form row"),
    }
}

#[test]
fn the_history_heading_counts_records_and_offers_clear() {
    let mut c = Controller::new(ts(9, 0, 0));
    c.update(Message::DataLoaded(Ok(AppData::new())));
    c.update(Message::CrashClicked { now: ts(10, 0, 0) });
    c.update(Message::KilledClicked { now: ts(10, 1, 0) });
    let (_, rows) = root_rows(c.render(ts(10, 2, 0)));
    // the history header is a two-column row: its left column holds the
    // count, its right column the clear button
    let header = &rows[14];
    let mut saw_title = false;
    let mut saw_clear = false;
    walk_header(header, &mut saw_title, &mut saw_clear);
    assert!(saw_title && saw_clear);
    // the list itself holds one label per record, in order
    match &rows[16] {
        Widget::List(entries) => {
            assert_eq!(entries.len(), 2);
            match &entries[0] {
                Widget::Label(s, _) => assert_eq!(s, "Crashed at 10:00:00"),
                _ => panic!("entries are labels"),
            }
            match &entries[1] {
                Widget::Label(s, _) => assert_eq!(s, "Killed at 10:01:00"),
                _ => panic!("entries are labels"),
            }
        },
        _ => panic!("the last row is the history list"),
    }
}

#[test]
fn a_failed_save_shows_a_banner() {
    let mut c = Controller::new(ts(9, 0, 0));
    c.update(Message::DataLoaded(Ok(AppData::new())));
    c.update(Message::CrashClicked { now: ts(10, 0, 0) });
    c.update(Message::Saved(Err(SaveError::DirectoryError)));
    let (_, rows) = root_rows(c.render(ts(10, 0, 1)));
    assert_eq!(rows.len(), 18);
    match &rows[0] {
        Widget::Placeholder(s, font) => {
            assert_eq!(s, "Saving failed: the data directory could not be created");
            assert!(matches!(font, FontStyle::Italic));
        },
        _ => panic!("the banner leads the rows"),
    }
    assert_eq!(SaveError::WriteError.message(), "the file could not be written");
}

#[test]
fn two_column_rows_space_their_content() {
    let b = UiBuilder::new();
    // left-aligned, both columns: no leading fillers, no middle filler
    let w = b.two_col_row(
        vec![b.label(String::from("a")), b.label(String::from("b"))],
        vec![b.label(String::from("c"))],
        ColumnAlignment::Left,
    );
    match w {
        Widget::Row(outer) => {
            assert_eq!(outer.len(), 2);
            match &outer[0] {
                Widget::Row(left) => {
                    assert_eq!(left.len(), 3);
                    assert!(matches!(left[0], Widget::Label(_, _)));
                    assert!(matches!(left[1], Widget::HSpace(8)));
                    assert!(matches!(left[2], Widget::Label(_, _)));
                },
                _ => panic!("the left column is a row"),
            }
            assert!(matches!(&outer[1], Widget::Row(right) if right.len() == 1));
        },
        _ => panic!("a two-column row is a row"),
    }
    // right-aligned single right column: filler on the left of the
    // column's content, and a filler standing in for the absent column
    let w = b.two_col_row(vec![], vec![b.label(String::from("x"))], ColumnAlignment::Right);
    match w {
        Widget::Row(outer) => {
            assert_eq!(outer.len(), 2);
            assert!(matches!(outer[0], Widget::FillSpace));
            match &outer[1] {
                Widget::Row(right) => {
                    assert_eq!(right.len(), 2);
                    assert!(matches!(right[0], Widget::FillSpace));
                },
                _ => panic!("the right column is a row"),
            }
        },
        _ => panic!("a two-column row is a row"),
    }
}
