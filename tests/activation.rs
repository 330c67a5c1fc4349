use cursor_changer::config::{Application as AppRecord, ConfigRaw, Cursor as CursorRecord};
use cursor_changer::{Action, CursorChanger};

fn changer(cursors: &[(&str, &str)], apps: &[(&str, &str)]) -> CursorChanger {
    let cursor: Vec<CursorRecord> = cursors
        .iter()
        .map(|(n, p)| CursorRecord { name: n.to_string(), path: p.to_string() })
        .collect();
    let application: Vec<AppRecord> = apps
        .iter()
        .map(|(c, p)| AppRecord { cursor: c.to_string(), path: p.to_string() })
        .collect();
    let present = vec![true; cursor.len()];
    CursorChanger::from_config(ConfigRaw { cursor, application }, &present).unwrap()
}

#[test]
fn end_to_end_scenario() {
    let mut c = changer(
        &[("busy", "busy.ani"), ("text", "text.cur")],
        &[("busy", "notepad.exe")],
    );
    let busy = c.cursors()[0].id();
    assert_eq!(c.tick(Some("C:\\Win\\notepad.exe")), Action::Activate(busy));
    assert_eq!(c.active_cursor(), Some(busy));
    assert_eq!(c.tick(Some("C:\\Win\\notepad.exe")), Action::Keep);
    assert_eq!(c.tick(Some("C:\\Win\\calc.exe")), Action::RestoreDefault);
    assert_eq!(c.active_cursor(), None);
    assert_eq!(c.tick(None), Action::Keep);
    assert_eq!(c.active_cursor(), None);
}

#[test]
fn repeated_ticks_activate_once() {
    let mut c = changer(&[("busy", "busy.ani")], &[("busy", "notepad.exe")]);
    let mut activations = 0;
    for _ in 0..100 {
        if let Action::Activate(_) = c.tick(Some("C:\\Win\\notepad.exe")) {
            activations += 1;
        }
    }
    assert_eq!(activations, 1);
    assert!(c.is_custom_cursor_active());
}

#[test]
fn switching_between_applications_activates_each() {
    let mut c = changer(
        &[("busy", "busy.ani"), ("text", "text.cur")],
        &[("busy", "notepad.exe"), ("text", "code.exe")],
    );
    assert_eq!(c.tick(Some("C:\\notepad.exe")), Action::Activate(1));
    assert_eq!(c.tick(Some("C:\\code.exe")), Action::Activate(2));
    assert_eq!(c.tick(Some("C:\\code.exe")), Action::Keep);
    assert_eq!(c.active_cursor(), Some(2));
}

#[test]
fn two_applications_sharing_a_cursor_do_not_reactivate() {
    let mut c = changer(&[("busy", "busy.ani")], &[("busy", "notepad.exe"), ("busy", "code.exe")]);
    assert_eq!(c.tick(Some("C:\\notepad.exe")), Action::Activate(1));
    assert_eq!(c.tick(Some("C:\\code.exe")), Action::Keep);
}

#[test]
fn no_process_keeps_active_cursor() {
    let mut c = changer(&[("busy", "busy.ani")], &[("busy", "notepad.exe")]);
    c.tick(Some("C:\\notepad.exe"));
    assert_eq!(c.tick(None), Action::Keep);
    assert_eq!(c.active_cursor(), Some(1));
}

#[test]
fn no_match_in_default_state_does_nothing() {
    let mut c = changer(&[("busy", "busy.ani")], &[("busy", "notepad.exe")]);
    assert_eq!(c.tick(Some("C:\\calc.exe")), Action::Keep);
    assert_eq!(c.active_cursor(), None);
}

#[test]
fn set_and_reset_directly() {
    let mut c = changer(&[("a", "a.cur"), ("b", "b.cur")], &[]);
    assert_eq!(c.reset_to_default_cursor(), Action::Keep);
    assert_eq!(c.set_cursor(2), Action::Activate(2));
    assert_eq!(c.set_cursor(2), Action::Keep);
    assert_eq!(c.reset_to_default_cursor(), Action::RestoreDefault);
    assert_eq!(c.reset_to_default_cursor(), Action::Keep);
}

#[test]
fn shut_down_restores_from_active_state() {
    let mut c = changer(&[("busy", "busy.ani")], &[("busy", "notepad.exe")]);
    c.tick(Some("C:\\notepad.exe"));
    assert_eq!(c.shut_down(), Action::RestoreDefault);
    assert!(!c.is_custom_cursor_active());
}

#[test]
fn shut_down_restores_from_default_state() {
    let mut c = changer(&[("busy", "busy.ani")], &[("busy", "notepad.exe")]);
    assert_eq!(c.shut_down(), Action::RestoreDefault);
    assert_eq!(c.active_cursor(), None);
}

/// The expected outcome of one tick, row by row of the transition table.
fn table(cur: Option<u32>, seen: Option<Option<u32>>) -> (Action, Option<u32>) {
    match (cur, seen) {
        (_, None) => (Action::Keep, cur),
        (Some(c), Some(Some(c2))) if c == c2 => (Action::Keep, cur),
        (Some(_), Some(Some(c2))) => (Action::Activate(c2), Some(c2)),
        (None, Some(Some(c))) => (Action::Activate(c), Some(c)),
        (Some(_), Some(None)) => (Action::RestoreDefault, None),
        (None, Some(None)) => (Action::Keep, None),
    }
}

#[test]
fn every_sequence_of_three_ticks_follows_the_table() {
    let probes: [(Option<&str>, Option<Option<u32>>); 4] = [
        (None, None),
        (Some("C:\\notepad.exe"), Some(Some(1))),
        (Some("C:\\code.exe"), Some(Some(2))),
        (Some("C:\\calc.exe"), Some(None)),
    ];
    for a in 0..4 {
        for b in 0..4 {
            for d in 0..4 {
                let mut c = changer(
                    &[("busy", "busy.ani"), ("text", "text.cur")],
                    &[("busy", "notepad.exe"), ("text", "code.exe")],
                );
                let mut state: Option<u32> = None;
                for &k in &[a, b, d] {
                    let (exe, seen) = probes[k];
                    let (action, next) = table(state, seen);
                    assert_eq!(c.tick(exe), action);
                    assert_eq!(c.active_cursor(), next);
                    state = next;
                }
            }
        }
    }
}
