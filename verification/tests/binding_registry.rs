use ox_settings::binding_registry::{BindingEntry, BindingRegistry};
use ox_settings::keys::{cmd, KeyChord, KeyCodeRepr, KeyModifierSet, Mode, Screen};
use ox_settings::path::Path;

fn path(parts: &[&str]) -> Path {
    Path { components: parts.iter().map(|s| s.to_string()).collect() }
}

fn key_char(c: char) -> KeyChord {
    KeyChord {
        modifiers: KeyModifierSet::none(),
        code: KeyCodeRepr::Char(c),
    }
}

#[test]
fn cursor_specific_beats_whole_screen() {
    let mut reg = BindingRegistry::new();
    let p = path(&["settings", "accounts"]);

    // Register the *less* specific one first to prove ordering is
    // not just "registration order."
    reg.register(BindingEntry {
        screen: Screen::Settings,
        cursor_path: None,
        mode: None,
        key: key_char('a'),
        command_id: cmd("screen_wide"),
    });
    reg.register(BindingEntry {
        screen: Screen::Settings,
        cursor_path: Some(p.clone()),
        mode: None,
        key: key_char('a'),
        command_id: cmd("cursor_specific"),
    });

    let hit = reg
        .lookup(Screen::Settings, &p, None, &key_char('a'))
        .expect("should match");
    assert_eq!(hit, &cmd("cursor_specific"));
}

#[test]
fn mode_specific_beats_unspecified_when_same_cursor() {
    let mut reg = BindingRegistry::new();
    let p = path(&["settings", "accounts"]);

    reg.register(BindingEntry {
        screen: Screen::Settings,
        cursor_path: Some(p.clone()),
        mode: None,
        key: key_char('a'),
        command_id: cmd("mode_any"),
    });
    reg.register(BindingEntry {
        screen: Screen::Settings,
        cursor_path: Some(p.clone()),
        mode: Some(Mode::Insert),
        key: key_char('a'),
        command_id: cmd("mode_insert"),
    });

    let hit = reg
        .lookup(Screen::Settings, &p, Some(Mode::Insert), &key_char('a'))
        .expect("should match");
    assert_eq!(hit, &cmd("mode_insert"));
}

#[test]
fn falls_through_to_whole_screen() {
    let mut reg = BindingRegistry::new();
    reg.register(BindingEntry {
        screen: Screen::Settings,
        cursor_path: None,
        mode: None,
        key: key_char('q'),
        command_id: cmd("quit"),
    });

    // Any cursor — there's no cursor-specific entry, so the
    // whole-screen one wins.
    let hit = reg
        .lookup(
            Screen::Settings,
            &path(&["settings", "anywhere"]),
            None,
            &key_char('q'),
        )
        .expect("should match");
    assert_eq!(hit, &cmd("quit"));

    let hit = reg
        .lookup(Screen::Settings, &path(&[]), None, &key_char('q'))
        .expect("should match");
    assert_eq!(hit, &cmd("quit"));
}

#[test]
fn registration_order_breaks_ties() {
    let mut reg = BindingRegistry::new();

    // Two entries with identical specificity (whole-screen, no mode).
    reg.register(BindingEntry {
        screen: Screen::Settings,
        cursor_path: None,
        mode: None,
        key: key_char('x'),
        command_id: cmd("first"),
    });
    reg.register(BindingEntry {
        screen: Screen::Settings,
        cursor_path: None,
        mode: None,
        key: key_char('x'),
        command_id: cmd("second"),
    });

    let hit = reg
        .lookup(Screen::Settings, &path(&["settings"]), None, &key_char('x'))
        .expect("should match");
    assert_eq!(hit, &cmd("first"));
}

#[test]
fn mismatched_key_returns_none() {
    let mut reg = BindingRegistry::new();
    reg.register(BindingEntry {
        screen: Screen::Settings,
        cursor_path: None,
        mode: None,
        key: key_char('j'),
        command_id: cmd("down"),
    });

    let hit = reg.lookup(Screen::Settings, &path(&[]), None, &key_char('k'));
    assert!(hit.is_none());
}

#[test]
fn mismatched_screen_returns_none() {
    let mut reg = BindingRegistry::new();
    reg.register(BindingEntry {
        screen: Screen::Settings,
        cursor_path: None,
        mode: None,
        key: key_char('j'),
        command_id: cmd("down"),
    });

    let hit = reg.lookup(Screen::Inbox, &path(&[]), None, &key_char('j'));
    assert!(hit.is_none());
}

#[test]
fn mode_specific_does_not_fire_when_mode_differs() {
    // Defensive: a `mode: Some(Insert)` entry must NOT match a
    // lookup with `mode: Some(Normal)` even if the entry is the
    // most specific one registered.
    let mut reg = BindingRegistry::new();
    reg.register(BindingEntry {
        screen: Screen::Settings,
        cursor_path: None,
        mode: Some(Mode::Insert),
        key: key_char('a'),
        command_id: cmd("insert_only"),
    });

    let hit = reg.lookup(
        Screen::Settings,
        &path(&[]),
        Some(Mode::Normal),
        &key_char('a'),
    );
    assert!(hit.is_none());
}

#[test]
fn mode_specific_does_not_fire_when_mode_is_none() {
    // Defensive: a `mode: Some(Insert)` entry must NOT match a
    // lookup with `mode: None`.
    let mut reg = BindingRegistry::new();
    reg.register(BindingEntry {
        screen: Screen::Settings,
        cursor_path: None,
        mode: Some(Mode::Insert),
        key: key_char('a'),
        command_id: cmd("insert_only"),
    });

    let hit = reg.lookup(Screen::Settings, &path(&[]), None, &key_char('a'));
    assert!(hit.is_none());
}

#[test]
fn empty_registry_returns_none() {
    let reg = BindingRegistry::new();
    let hit = reg.lookup(Screen::Settings, &path(&[]), None, &key_char('a'));
    assert!(hit.is_none());
}
