use ox_settings::command_registry::CommandRegistry;
use ox_settings::commands::register_all as register_all_commands;
use ox_settings::commands::settings_command::SettingsCommand;
use ox_settings::help::key_hints_for_cursor;
use ox_settings::keys::{
    BindingScope, CommandId, KeyChord, KeyCodeRepr, KeyModifierSet, Phase, ScopedBinding,
};
use ox_settings::path::Path;
use ox_settings::renderers::SettingsRenderer;
use ox_settings::scopes::ScopeRegistry;

fn path(parts: &[&str]) -> Path {
    Path { components: parts.iter().map(|s| s.to_string()).collect() }
}

fn key(c: char) -> KeyChord {
    KeyChord {
        modifiers: KeyModifierSet::none(),
        code: KeyCodeRepr::Char(c),
    }
}

fn populated_registries() -> (ScopeRegistry, CommandRegistry<SettingsCommand>) {
    let mut bindings = ScopeRegistry::new();
    ox_settings::bindings::register(&mut bindings);
    let mut commands = CommandRegistry::new();
    register_all_commands(&mut commands);
    (bindings, commands)
}

#[test]
fn cursor_specific_and_whole_screen_both_appear_for_index() {
    let (bindings, commands) = populated_registries();
    let hints = key_hints_for_cursor::<SettingsRenderer, SettingsCommand>(&bindings, &commands, &path(&["settings", "index"]));

    // The index page binds j/k/Enter/Esc at cursor scope.
    assert!(
        hints
            .iter()
            .any(|h| h.key == "j" && h.command == "tree.next")
    );
    assert!(
        hints
            .iter()
            .any(|h| h.key == "Enter" && h.command == "tree.activate")
    );
    assert!(
        hints
            .iter()
            .any(|h| h.key == "Esc" && h.command == "tree.collapse_or_ascend")
    );
    // The whole-screen `?` is visible at every cursor.
    assert!(
        hints
            .iter()
            .any(|h| h.key == "?" && h.command == "modal.toggle_shortcuts")
    );
}

#[test]
fn cursor_specific_binding_shadows_whole_screen_for_same_key() {
    // Construct a registry where `?` is whole-screen AND cursor-bound;
    // the cursor-bound entry registers first so it wins both by
    // specificity and registration order.
    let mut bindings = ScopeRegistry::new();
    bindings.register(ScopedBinding {
        scope: BindingScope::Exact(path(&["settings", "index"])),
        key: key('?'),
        command_id: CommandId(String::from("highlight.index.next")),
        phase: Phase::Target,
        priority: 200,
    });
    bindings.register(ScopedBinding {
        scope: BindingScope::Anywhere,
        key: key('?'),
        command_id: CommandId(String::from("modal.toggle_shortcuts")),
        phase: Phase::Target,
        priority: 200,
    });
    let mut commands = CommandRegistry::new();
    register_all_commands(&mut commands);

    let hints = key_hints_for_cursor::<SettingsRenderer, SettingsCommand>(&bindings, &commands, &path(&["settings", "index"]));
    let q = hints.iter().filter(|h| h.key == "?").count();
    assert_eq!(q, 1, "duplicate keys must dedupe to one row");
    let qhint = hints.iter().find(|h| h.key == "?").unwrap();
    assert_eq!(qhint.command, "highlight.index.next");
}

#[test]
fn keys_from_other_cursor_pages_do_not_leak() {
    let (bindings, commands) = populated_registries();
    // Models page binds `r` (account.refresh); it must NOT appear
    // when the cursor is on the index.
    let hints = key_hints_for_cursor::<SettingsRenderer, SettingsCommand>(&bindings, &commands, &path(&["settings", "index"]));
    assert!(
        hints.iter().all(|h| h.key != "r"),
        "models-only `r` should not show on the index hint list"
    );
}
