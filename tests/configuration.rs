use cursor_changer::config::{Application as AppRecord, Config, ConfigRaw, Cursor as CursorRecord};
use cursor_changer::Error;

fn cursor(name: &str, path: &str) -> CursorRecord {
    CursorRecord { name: name.to_string(), path: path.to_string() }
}

fn app(cursor: &str, path: &str) -> AppRecord {
    AppRecord { cursor: cursor.to_string(), path: path.to_string() }
}

#[test]
fn config_indexes_cursors_by_name() {
    let raw = ConfigRaw {
        cursor: vec![cursor("busy", "busy.ani"), cursor("text", "text.cur")],
        application: vec![app("busy", "notepad.exe")],
    };
    let config = Config::from_raw(raw).unwrap();
    assert_eq!(config.cursor_path(&"busy".to_string()).unwrap(), "busy.ani");
    assert_eq!(config.cursor_path(&"text".to_string()).unwrap(), "text.cur");
    assert!(config.cursor_path(&"hand".to_string()).is_none());
    let apps = config.applications();
    assert_eq!(apps.len(), 1);
    assert_eq!(apps[0].cursor, "busy");
    assert_eq!(apps[0].path, "notepad.exe");
}

#[test]
fn config_later_cursor_replaces_earlier() {
    let raw = ConfigRaw {
        cursor: vec![cursor("busy", "old.ani"), cursor("busy", "new.ani")],
        application: vec![],
    };
    let config = Config::from_raw(raw).unwrap();
    assert_eq!(config.cursor_path(&"busy".to_string()).unwrap(), "new.ani");
}

#[test]
fn config_rejects_unknown_cursor_name() {
    let raw = ConfigRaw {
        cursor: vec![cursor("busy", "busy.ani")],
        application: vec![app("busy", "a.exe"), app("text", "b.exe")],
    };
    match Config::from_raw(raw) {
        Err(Error::MissingCursorNameError { name }) => assert_eq!(name, "text"),
        other => panic!("unexpected result: {:?}", other),
    }
}
