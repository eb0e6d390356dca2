use ox_settings::bindings::{no_mods, register};
use ox_settings::commands::edit::TextInputHandler;
use ox_settings::dispatch::{compute_scope_path, resolve_key};
use ox_settings::commands::navigation::path_to_value;
use ox_settings::keys::{cmd, BindingScope, KeyChord, KeyCodeRepr, Phase, ScopedBinding};
use ox_settings::path::Path;
use ox_settings::scopes::{HandlerEntry, ScopeRegistry};
use ox_settings::snapshot::SettingsSnapshot;

fn path(parts: &[&str]) -> Path {
    Path { components: parts.iter().map(|s| s.to_string()).collect() }
}

fn key(c: char) -> KeyChord {
    KeyChord { modifiers: no_mods(), code: KeyCodeRepr::Char(c) }
}

fn bind(reg: &mut ScopeRegistry, scope: BindingScope, command: &str, phase: Phase) {
    reg.register(ScopedBinding {
        scope,
        key: key('a'),
        command_id: cmd(command),
        phase,
        priority: 200,
    });
}

fn focused(parts: &[&str]) -> SettingsSnapshot {
    let mut snap = SettingsSnapshot::empty();
    snap.insert(&path(&["ui", "settings", "focused"]), path_to_value(&path(parts)));
    snap
}

#[test]
fn narrowest_scope_wins_in_any_order() {
    let exact = || BindingScope::Exact(path(&["settings", "models"]));
    let prefix = || BindingScope::Prefix(path(&["settings"]));
    let at = path(&["settings", "models"]);
    for order in [[0, 1, 2], [2, 1, 0], [1, 2, 0]] {
        let mut reg = ScopeRegistry::new();
        for i in order {
            match i {
                0 => bind(&mut reg, BindingScope::Anywhere, "anywhere", Phase::Bubble),
                1 => bind(&mut reg, prefix(), "prefix", Phase::Bubble),
                _ => bind(&mut reg, exact(), "exact", Phase::Bubble),
            }
        }
        assert_eq!(reg.lookup(&at, &key('a'), Phase::Bubble), Some(&cmd("exact")));
        assert_eq!(
            reg.lookup(&path(&["settings"]), &key('a'), Phase::Bubble),
            Some(&cmd("prefix"))
        );
        assert_eq!(reg.lookup(&path(&[]), &key('a'), Phase::Bubble), Some(&cmd("anywhere")));
        assert_eq!(reg.lookup(&at, &key('b'), Phase::Bubble), None);
        assert_eq!(reg.lookup(&at, &key('a'), Phase::Target), None);
    }
}

#[test]
fn first_registered_wins_within_a_class() {
    let mut reg = ScopeRegistry::new();
    bind(&mut reg, BindingScope::Anywhere, "first", Phase::Bubble);
    bind(&mut reg, BindingScope::Anywhere, "second", Phase::Bubble);
    assert_eq!(reg.lookup(&path(&[]), &key('a'), Phase::Bubble), Some(&cmd("first")));
}

#[test]
fn handlers_are_found_by_scope_and_phase() {
    let mut reg = ScopeRegistry::new();
    let scope = path(&["settings", "_edit"]);
    reg.register_handler(HandlerEntry {
        scope: BindingScope::Exact(scope.clone()),
        phase: Phase::Target,
        handler: TextInputHandler::new(path(&["b"]), path(&["t"])),
    });
    assert!(reg.lookup_handler(&scope, Phase::Target).is_some());
    assert!(reg.lookup_handler(&scope, Phase::Bubble).is_none());
    assert!(reg.lookup_handler(&path(&["settings"]), Phase::Target).is_none());
}

#[test]
fn capture_beats_target_beats_bubble() {
    let leaf = || BindingScope::Exact(path(&["settings", "_edit"]));
    let root = || BindingScope::Exact(path(&["settings"]));
    let snap = focused(&["settings", "_edit"]);
    let mut reg = ScopeRegistry::new();
    bind(&mut reg, root(), "bubble.outer", Phase::Bubble);
    assert_eq!(resolve_key(&snap, &key('a'), &reg), Some(&cmd("bubble.outer")));
    bind(&mut reg, leaf(), "bubble.inner", Phase::Bubble);
    assert_eq!(resolve_key(&snap, &key('a'), &reg), Some(&cmd("bubble.inner")));
    bind(&mut reg, leaf(), "target", Phase::Target);
    assert_eq!(resolve_key(&snap, &key('a'), &reg), Some(&cmd("target")));
    bind(&mut reg, leaf(), "capture.inner", Phase::Capture);
    assert_eq!(resolve_key(&snap, &key('a'), &reg), Some(&cmd("capture.inner")));
    bind(&mut reg, root(), "capture.outer", Phase::Capture);
    assert_eq!(resolve_key(&snap, &key('a'), &reg), Some(&cmd("capture.outer")));
}

#[test]
fn targets_on_outer_scopes_do_not_fire() {
    let mut reg = ScopeRegistry::new();
    bind(&mut reg, BindingScope::Exact(path(&["settings"])), "outer", Phase::Target);
    bind(&mut reg, BindingScope::Exact(path(&["settings", "models"])), "other", Phase::Bubble);
    assert_eq!(resolve_key(&focused(&["settings", "_edit"]), &key('a'), &reg), None);
}

#[test]
fn settings_keys_go_where_they_should() {
    let mut reg = ScopeRegistry::new();
    register(&mut reg);
    let at = |parts: &[&str], code: KeyCodeRepr| {
        let snap = focused(parts);
        resolve_key(&snap, &KeyChord { modifiers: no_mods(), code }, &reg).map(|c| c.0.clone())
    };
    assert_eq!(at(&["settings", "_edit"], KeyCodeRepr::Esc).as_deref(), Some("edit.cancel"));
    assert_eq!(
        at(&["settings", "_compose_form", "auth"], KeyCodeRepr::Char('l')).as_deref(),
        Some("accounts.compose.cycle_forward")
    );
    assert_eq!(
        at(&["settings", "_compose_form", "name"], KeyCodeRepr::Char('l')).as_deref(),
        Some("accounts.compose.insert_char")
    );
}

#[test]
fn one_widget_takes_keys_at_a_time() {
    for parts in [vec!["settings", "_edit"], vec!["settings", "_compose_form", "name"]] {
        let scopes = compute_scope_path(&focused(&parts));
        let widgets = scopes
            .iter()
            .filter(|s| matches!(s, BindingScope::Exact(p) if p.components.len() == 2))
            .count();
        assert_eq!(widgets, 1);
    }
}
