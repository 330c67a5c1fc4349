use cursor_changer::config::{Application as AppRecord, ConfigRaw, Cursor as CursorRecord};
use cursor_changer::{CursorChanger, Error};

fn cursor(name: &str, path: &str) -> CursorRecord {
    CursorRecord { name: name.to_string(), path: path.to_string() }
}

fn app(cursor: &str, path: &str) -> AppRecord {
    AppRecord { cursor: cursor.to_string(), path: path.to_string() }
}

fn raw(cursors: Vec<CursorRecord>, apps: Vec<AppRecord>) -> ConfigRaw {
    ConfigRaw { cursor: cursors, application: apps }
}

#[test]
fn ids_follow_registration_order() {
    let config = raw(
        vec![cursor("busy", "busy.ani"), cursor("text", "text.cur")],
        vec![app("text", "code.exe"), app("busy", "notepad.exe")],
    );
    let changer = CursorChanger::from_config(config, &vec![true, true]).unwrap();
    let cursors = changer.cursors();
    assert_eq!(cursors.len(), 2);
    assert_eq!(cursors[0].id(), 1);
    assert_eq!(cursors[0].name(), "busy");
    assert_eq!(cursors[0].path(), "busy.ani");
    assert_eq!(cursors[1].id(), 2);
    assert_eq!(cursors[1].name(), "text");
    let apps = changer.applications();
    assert_eq!(apps.len(), 2);
    assert_eq!(apps[0].cursor_id(), 2);
    assert_eq!(apps[0].path(), "code.exe");
    assert_eq!(apps[1].cursor_id(), 1);
    assert_eq!(apps[1].path(), "notepad.exe");
    assert_eq!(changer.active_cursor(), None);
    assert!(!changer.is_custom_cursor_active());
}

#[test]
fn empty_configuration_builds_empty_registry() {
    let changer = CursorChanger::from_config(raw(vec![], vec![]), &vec![]).unwrap();
    assert_eq!(changer.cursors().len(), 0);
    assert_eq!(changer.applications().len(), 0);
}

#[test]
fn cursor_lookup_by_id() {
    let config = raw(vec![cursor("a", "a.cur"), cursor("b", "b.cur")], vec![]);
    let changer = CursorChanger::from_config(config, &vec![true, true]).unwrap();
    assert_eq!(changer.cursor(2).unwrap().name(), "b");
    assert!(changer.cursor(0).is_none());
    assert!(changer.cursor(3).is_none());
}

#[test]
fn repeated_cursor_name_is_rejected() {
    let config = raw(
        vec![cursor("a", "a.cur"), cursor("b", "b.cur"), cursor("a", "other.cur")],
        vec![app("a", "x.exe")],
    );
    match CursorChanger::from_config(config, &vec![true, true, true]) {
        Err(Error::DuplicateCursorName { name }) => assert_eq!(name, "a"),
        other => panic!("unexpected result: {:?}", other),
    }
}

#[test]
fn missing_file_before_repeat_is_reported_first() {
    let config = raw(vec![cursor("a", "gone.cur"), cursor("a", "a.cur")], vec![]);
    match CursorChanger::from_config(config, &vec![false, true]) {
        Err(Error::MissingCursorFileError { name, path }) => {
            assert_eq!(name, "a");
            assert_eq!(path, "gone.cur");
        }
        other => panic!("unexpected result: {:?}", other),
    }
}

#[test]
fn unknown_cursor_name_is_rejected() {
    let config = raw(
        vec![cursor("busy", "busy.ani")],
        vec![app("busy", "notepad.exe"), app("hand", "calc.exe"), app("nope", "x.exe")],
    );
    match CursorChanger::from_config(config, &vec![true]) {
        Err(Error::MissingCursorNameError { name }) => assert_eq!(name, "hand"),
        other => panic!("unexpected result: {:?}", other),
    }
}

#[test]
fn missing_file_is_rejected_first_position() {
    let config = raw(vec![cursor("a", "a.cur"), cursor("b", "b.cur")], vec![]);
    match CursorChanger::from_config(config, &vec![false, true]) {
        Err(Error::MissingCursorFileError { name, path }) => {
            assert_eq!(name, "a");
            assert_eq!(path, "a.cur");
        }
        other => panic!("unexpected result: {:?}", other),
    }
}

#[test]
fn missing_file_is_rejected_last_position() {
    let config = raw(vec![cursor("a", "a.cur"), cursor("b", "b.cur"), cursor("c", "c.cur")], vec![]);
    match CursorChanger::from_config(config, &vec![true, true, false]) {
        Err(Error::MissingCursorFileError { name, path }) => {
            assert_eq!(name, "c");
            assert_eq!(path, "c.cur");
        }
        other => panic!("unexpected result: {:?}", other),
    }
}

#[test]
fn cursor_errors_come_before_application_errors() {
    let config = raw(vec![cursor("a", "a.cur"), cursor("a", "a.cur")], vec![app("zzz", "x.exe")]);
    assert!(matches!(
        CursorChanger::from_config(config, &vec![true, true]),
        Err(Error::DuplicateCursorName { .. })
    ));
}
