use ox_settings::bindings::ORDINARY;
use ox_settings::commands::navigation::path_to_value;
use ox_settings::commands::settings_command::SettingsCommand;
use ox_settings::dispatch::resolve_key;
use ox_settings::help::{command_names, key_hints_for_context, key_hints_from_tables, name_of};
use ox_settings::install::{install, seed_writes};
use ox_settings::keys::{
    cmd, encode_keychord, BindingScope, CommandDisplay, CommandMetadata, KeyChord, KeyCodeRepr,
    KeyHint, KeyModifierSet, Phase, ScopedBinding,
};
use ox_settings::path::Path;
use ox_settings::paths::{bindings_prefix, commands_prefix, cursor_path, input_key_path, input_path};
use ox_settings::renderers::SettingsRenderer;
use ox_settings::shortcuts::{
    build_joined_from_broker, build_joined_from_registries, cursor_from_change,
    is_component_prefix, join_tables, joined_registry_path, joined_to_value, project_for_cursor,
    read_joined, shortcuts_path, PathChange, PathPattern,
};
use ox_settings::snapshot::SettingsSnapshot;
use ox_settings::value::StoreValue;

fn path(parts: &[&str]) -> Path {
    Path { components: parts.iter().map(|s| s.to_string()).collect() }
}

fn chord(c: char) -> KeyChord {
    KeyChord { modifiers: KeyModifierSet::none(), code: KeyCodeRepr::Char(c) }
}

fn binding(scope: BindingScope, c: char, command: &str, priority: u8) -> ScopedBinding {
    ScopedBinding { scope, key: chord(c), command_id: cmd(command), phase: Phase::Bubble, priority }
}

fn names(pairs: &[(&str, &str)]) -> Vec<(String, String)> {
    pairs.iter().map(|(a, b)| (a.to_string(), b.to_string())).collect()
}

fn hints_written(value: &StoreValue) -> Vec<&KeyHint> {
    match value {
        StoreValue::Array(items) => items
            .iter()
            .map(|i| match i {
                StoreValue::Hint(h) => h,
                other => panic!("unexpected item: {other:?}"),
            })
            .collect(),
        other => panic!("unexpected value: {other:?}"),
    }
}

#[test]
fn hints_are_sorted_by_priority() {
    let entries = vec![
        binding(BindingScope::Exact(path(&["settings"])), 'a', "one", 200),
        binding(BindingScope::Exact(path(&["settings"])), 'b', "two", 10),
        binding(BindingScope::Exact(path(&["settings"])), 'c', "three", 200),
    ];
    let joined = join_tables(&entries, &names(&[("one", "One"), ("two", "Two"), ("three", "Three")]));
    let hints = project_for_cursor(&joined, &path(&["settings"]));
    let keys: Vec<&str> = hints.iter().map(|h| h.key.as_str()).collect();
    assert_eq!(keys, vec!["b", "a", "c"]);
    assert!(hints.windows(2).all(|w| w[0].priority <= w[1].priority));
}

#[test]
fn narrower_scopes_take_a_key_over() {
    let entries = vec![
        binding(BindingScope::Exact(path(&["settings", "models"])), 'd', "inner", 200),
        binding(BindingScope::Exact(path(&["settings"])), 'd', "outer", 200),
        binding(BindingScope::Exact(path(&["inbox"])), 'x', "elsewhere", 200),
    ];
    let table = names(&[("inner", "Inner"), ("outer", "Outer"), ("elsewhere", "Else")]);
    let joined = join_tables(&entries, &table);
    let hints = project_for_cursor(&joined, &path(&["settings", "models"]));
    assert_eq!(hints.len(), 1);
    assert_eq!(hints[0].description, "Inner");
    assert_eq!(hints[0].command, "inner");
}

#[test]
fn hint_keys_are_distinct_everywhere() {
    let screen = install();
    for cursor in [
        path(&["settings", "index"]),
        path(&["settings", "accounts", "alpha"]),
        path(&["settings", "_compose_form", "protocol"]),
        path(&["settings", "_edit"]),
    ] {
        let hints = key_hints_for_context::<SettingsRenderer, SettingsCommand>(
            &screen.bindings,
            &screen.commands,
            &path(&["settings", "index"]),
            Some(&cursor),
        );
        for (i, h) in hints.iter().enumerate() {
            assert!(hints[..i].iter().all(|g| g.key != h.key), "{:?} twice", h.key);
        }
    }
}

#[test]
fn names_follow_the_commands() {
    let screen = install();
    let table = command_names::<SettingsRenderer, SettingsCommand>(&screen.commands);
    assert_eq!(table.len(), screen.commands.iter().len());
    assert_eq!(name_of(&table, "tree.next").map(|s| s.is_empty()), Some(false));
    assert_eq!(name_of(&table, "no.such.command"), None);
}

#[test]
fn unnamed_commands_give_no_hint() {
    let entries = vec![binding(BindingScope::Anywhere, 'a', "unknown", 200)];
    let hints = key_hints_from_tables(&entries, &names(&[]), &path(&["settings"]), None);
    assert!(hints.is_empty());
}

#[test]
fn joined_bindings_read_back() {
    let screen = install();
    let joined = build_joined_from_registries::<SettingsRenderer, SettingsCommand>(
        &screen.bindings,
        &screen.commands,
    );
    assert!(!joined.is_empty());
    let mut snap = SettingsSnapshot::empty();
    snap.insert(&joined_registry_path(), joined_to_value(&joined));
    assert_eq!(read_joined(&snap, &joined_registry_path()), joined);
    assert!(read_joined(&snap, &path(&["nowhere"])).is_empty());
}

#[test]
fn seeding_writes_registry_and_tick() {
    let writes = seed_writes(&install());
    assert_eq!(writes.len(), 2);
    assert_eq!(writes[0].path, joined_registry_path());
    assert_eq!(writes[1].value, StoreValue::Integer(0));
}

#[test]
fn cursor_moves_leave_the_registry_alone() {
    let screen = install();
    let mut snap = SettingsSnapshot::empty();
    for w in seed_writes(&screen) {
        snap.insert(&w.path, w.value);
    }
    let change = PathChange {
        path: cursor_path(),
        after: Some(path_to_value(&path(&["settings", "accounts"]))),
    };
    let writes = screen.resolver.handle(&snap, &change);
    assert_eq!(writes.len(), 1);
    assert_eq!(writes[0].path, shortcuts_path());
    let hints = hints_written(&writes[0].value);
    assert!(hints.iter().any(|h| h.key == "a" && h.command == "accounts.compose.open"));
}

#[test]
fn binding_changes_rebuild_the_registry() {
    let screen = install();
    let mut snap = SettingsSnapshot::empty();
    let b = binding(BindingScope::Exact(path(&["settings"])), 'j', "tree.next", ORDINARY);
    snap.insert(&bindings_prefix().child("b0"), StoreValue::Binding(b));
    snap.insert(
        &commands_prefix().child("c0"),
        StoreValue::Metadata(CommandMetadata {
            display: CommandDisplay { name: "Next".to_string(), description: String::new() },
        }),
    );
    snap.insert(&cursor_path(), path_to_value(&path(&["settings"])));
    let change = PathChange { path: bindings_prefix().child("b0"), after: None };
    let writes = screen.resolver.handle(&snap, &change);
    assert_eq!(writes.len(), 2);
    assert_eq!(writes[0].path, joined_registry_path());
    assert_eq!(writes[1].path, shortcuts_path());
    let joined = build_joined_from_broker(&snap, &bindings_prefix(), &commands_prefix());
    assert_eq!(writes[0].value, joined_to_value(&joined));
}

#[test]
fn without_a_cursor_there_are_no_hints() {
    let screen = install();
    let change = PathChange { path: cursor_path(), after: Some(StoreValue::Null) };
    assert!(screen.resolver.handle(&SettingsSnapshot::empty(), &change).is_empty());
    assert_eq!(cursor_from_change(&change), None);
}

#[test]
fn resolver_watches_cursor_bindings_and_commands() {
    let screen = install();
    assert_eq!(screen.resolver.id(), "ox_cli.settings.shortcut_resolver");
    assert_eq!(
        screen.resolver.watches(),
        &vec![
            PathPattern::Exact(cursor_path()),
            PathPattern::Prefix(bindings_prefix()),
            PathPattern::Prefix(commands_prefix()),
        ]
    );
    assert!(is_component_prefix(&input_path(), &input_key_path()));
    assert!(!is_component_prefix(&input_key_path(), &input_path()));
}

#[test]
fn chords_are_spelled_out() {
    let mut m = KeyModifierSet::none();
    assert_eq!(encode_keychord(&chord('j')), "j");
    assert_eq!(encode_keychord(&chord(' ')), "Space");
    m.ctrl = true;
    assert_eq!(encode_keychord(&KeyChord { modifiers: m, code: KeyCodeRepr::Char('s') }), "Ctrl+s");
    m.shift = true;
    assert_eq!(encode_keychord(&KeyChord { modifiers: m, code: KeyCodeRepr::Up }), "Ctrl+Shift+Up");
}

#[test]
fn hints_show_the_command_that_fires() {
    let screen = install();
    let table = command_names::<SettingsRenderer, SettingsCommand>(&screen.commands);
    for cursor in [
        path(&["settings"]),
        path(&["settings", "accounts", "alpha"]),
        path(&["settings", "models"]),
        path(&["settings", "_edit"]),
        path(&["settings", "_confirm_delete"]),
        path(&["settings", "_compose_form", "name"]),
        path(&["settings", "_compose_form", "auth"]),
        path(&["settings", "_manual_model", "ctx"]),
    ] {
        let mut snap = SettingsSnapshot::empty();
        snap.insert(&cursor_path(), path_to_value(&cursor));
        let hints =
            key_hints_from_tables(screen.bindings.entries(), &table, &path(&["settings", "index"]), Some(&cursor));
        for e in screen.bindings.entries() {
            if let Some(id) = resolve_key(&snap, &e.key, &screen.bindings) {
                let name = encode_keychord(&e.key);
                let shown = hints.iter().find(|h| h.key == name).map(|h| h.command.as_str());
                let expected = screen.commands.lookup(id).map(|_| id.0.as_str());
                assert_eq!(shown, expected, "{name} at {cursor:?}");
            }
        }
    }
}

#[test]
fn shortcut_record_shows_the_command_that_fires() {
    let screen = install();
    let joined = build_joined_from_registries::<SettingsRenderer, SettingsCommand>(
        &screen.bindings,
        &screen.commands,
    );
    for cursor in [
        path(&["settings", "accounts"]),
        path(&["settings", "_edit"]),
        path(&["settings", "_compose_form", "protocol"]),
    ] {
        let mut snap = SettingsSnapshot::empty();
        snap.insert(&cursor_path(), path_to_value(&cursor));
        let hints = project_for_cursor(&joined, &cursor);
        for e in screen.bindings.entries() {
            if let Some(id) = resolve_key(&snap, &e.key, &screen.bindings) {
                if screen.commands.lookup(id).is_some() {
                    let name = encode_keychord(&e.key);
                    let shown = hints.iter().find(|h| h.key == name).map(|h| h.command.as_str());
                    assert_eq!(shown, Some(id.0.as_str()), "{name} at {cursor:?}");
                }
            }
        }
    }
}
