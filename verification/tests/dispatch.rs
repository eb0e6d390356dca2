use ox_settings::command_registry::{Command, CommandCtx, CommandRegistry};
use ox_settings::commands::manual_model::manual_model_focus_path;
use ox_settings::commands::navigation::path_to_value;
use ox_settings::dispatch::{compute_scope_path, dispatch_settings_key};
use ox_settings::keys::{
    BindingScope, CommandDisplay, CommandId, CommandScope, KeyChord, KeyCodeRepr, KeyModifierSet,
    Phase, Screen, ScopedBinding,
};
use ox_settings::path::{path_ancestors, Path};
use ox_settings::registry::RendererRegistry;
use ox_settings::renderers::SettingsRenderer;
use ox_settings::scopes::ScopeRegistry;
use ox_settings::snapshot::SettingsSnapshot;
use ox_settings::types::ManualModelStage;
use ox_settings::value::{StoreValue, Write};

fn path(parts: &[&str]) -> Path {
    Path { components: parts.iter().map(|s| s.to_string()).collect() }
}

/// A command that writes a mark, or the character it was invoked with.
struct Probe {
    id: CommandId,
    display: CommandDisplay,
    scope: CommandScope,
    reports_key: bool,
}

fn probe(id: &str, reports_key: bool) -> Probe {
    Probe {
        id: cmd_id(id),
        display: CommandDisplay { name: id.to_string(), description: String::new() },
        scope: CommandScope { screen: Screen::Settings, cursor_path: None },
        reports_key,
    }
}

fn write_sentinel() -> Probe {
    probe("test.sentinel", false)
}

fn report_keystroke() -> Probe {
    probe("test.report_keystroke", true)
}

impl Command<SettingsRenderer> for Probe {
    fn id(&self) -> &CommandId {
        &self.id
    }
    fn display(&self) -> &CommandDisplay {
        &self.display
    }
    fn scope(&self) -> &CommandScope {
        &self.scope
    }
    fn run(&self, _snapshot: &SettingsSnapshot, ctx: &CommandCtx<'_, SettingsRenderer>) -> Vec<Write> {
        if !self.reports_key {
            return vec![Write {
                path: path(&["ui", "sentinel"]),
                value: StoreValue::String("ran".into()),
            }];
        }
        let s = match &ctx.last_keystroke {
            Some(KeyChord { code: KeyCodeRepr::Char(c), .. }) => c.to_string(),
            Some(_) => "non_char".to_string(),
            None => "none".to_string(),
        };
        vec![Write { path: path(&["ui", "last_key"]), value: StoreValue::String(s) }]
    }
}

fn key_char(c: char) -> KeyChord {
    KeyChord {
        modifiers: KeyModifierSet::none(),
        code: KeyCodeRepr::Char(c),
    }
}

fn cmd_id(s: &str) -> CommandId {
    CommandId(s.to_string())
}

#[test]
fn registered_binding_dispatches_to_command_writes() {
    let mut cmds: CommandRegistry<Probe> = CommandRegistry::new();
    cmds.register::<SettingsRenderer>(write_sentinel());

    let mut bindings = ScopeRegistry::new();
    bindings.register(ScopedBinding {
        scope: BindingScope::Anywhere,
        key: key_char('a'),
        command_id: cmd_id("test.sentinel"),
        phase: Phase::Target,
        priority: 200,
    });

    let renderers: RendererRegistry<SettingsRenderer> = RendererRegistry::new();
    let mut reader = SettingsSnapshot::empty();
    // Seed a cursor under cursor-as-focus: scope_path is empty when
    // no cursor is set, so even an `Anywhere` binding needs at least
    // one scope on the path to be checked at lookup time.
    reader.insert(&path(&["ui", "settings", "focused"]), path_to_value(&path(&["settings"])));

    let writes = dispatch_settings_key(
        &reader,
        &path(&[]),
        &key_char('a'),
        &cmds,
        &bindings,
        &renderers,
    );

    assert_eq!(writes.len(), 1);
    assert_eq!(writes[0].path, path(&["ui", "sentinel"]));
    match &writes[0].value {
        StoreValue::String(s) => assert_eq!(s, "ran"),
        other => panic!("unexpected record: {other:?}"),
    }
}

#[test]
fn missing_binding_returns_empty() {
    let cmds: CommandRegistry<Probe> = CommandRegistry::new();
    let bindings = ScopeRegistry::new();
    let renderers: RendererRegistry<SettingsRenderer> = RendererRegistry::new();
    let reader = SettingsSnapshot::empty();

    let writes = dispatch_settings_key(
        &reader,
        &path(&[]),
        &key_char('a'),
        &cmds,
        &bindings,
        &renderers,
    );
    assert!(writes.is_empty());
}

#[test]
fn missing_command_returns_empty() {
    // Defensive: a binding referencing a CommandId that isn't in the
    // command registry must not panic — dispatch returns empty.
    let cmds: CommandRegistry<Probe> = CommandRegistry::new();

    let mut bindings = ScopeRegistry::new();
    bindings.register(ScopedBinding {
        scope: BindingScope::Anywhere,
        key: key_char('a'),
        command_id: cmd_id("not.registered"),
        phase: Phase::Target,
        priority: 200,
    });

    let renderers: RendererRegistry<SettingsRenderer> = RendererRegistry::new();
    let reader = SettingsSnapshot::empty();

    let writes = dispatch_settings_key(
        &reader,
        &path(&[]),
        &key_char('a'),
        &cmds,
        &bindings,
        &renderers,
    );
    assert!(writes.is_empty());
}

#[test]
fn dispatcher_enters_compose_scope_when_cursor_at_field() {
    // Cursor-as-focus: the cursor sitting at
    // `settings/_compose_form/name` is what activates the compose
    // scope. The dispatcher's three-phase walk picks up an
    // 'a' binding at the per-field leaf at Target.
    let mut cmds: CommandRegistry<Probe> = CommandRegistry::new();
    cmds.register::<SettingsRenderer>(write_sentinel());

    let mut bindings = ScopeRegistry::new();
    bindings.register(ScopedBinding {
        scope: BindingScope::Exact(path(&["settings", "_compose_form", "name"])),
        key: key_char('a'),
        command_id: cmd_id("test.sentinel"),
        phase: Phase::Target,
        priority: 200,
    });

    let renderers: RendererRegistry<SettingsRenderer> = RendererRegistry::new();
    let mut reader = SettingsSnapshot::empty();
    reader.insert(&path(&["ui", "settings", "focused"]), path_to_value(&path(&["settings", "_compose_form", "name"])));

    let writes = dispatch_settings_key(
        &reader,
        &path(&["settings", "index"]),
        &key_char('a'),
        &cmds,
        &bindings,
        &renderers,
    );

    assert_eq!(writes.len(), 1);
    assert_eq!(writes[0].path, path(&["ui", "sentinel"]));
}

#[test]
fn dispatcher_skips_compose_scope_when_cursor_not_in_compose_form() {
    // No cursor under `settings/_compose_form/...` → the
    // per-field scope is never on the path. A binding registered
    // there alone is unreachable.
    let mut cmds: CommandRegistry<Probe> = CommandRegistry::new();
    cmds.register::<SettingsRenderer>(write_sentinel());

    let mut bindings = ScopeRegistry::new();
    bindings.register(ScopedBinding {
        scope: BindingScope::Exact(path(&["settings", "_compose_form", "name"])),
        key: key_char('a'),
        command_id: cmd_id("test.sentinel"),
        phase: Phase::Target,
        priority: 200,
    });

    let renderers: RendererRegistry<SettingsRenderer> = RendererRegistry::new();
    let reader = SettingsSnapshot::empty();

    let writes = dispatch_settings_key(
        &reader,
        &path(&["settings", "index"]),
        &key_char('a'),
        &cmds,
        &bindings,
        &renderers,
    );

    assert!(writes.is_empty());
}

#[test]
fn dispatcher_skips_compose_scope_when_legacy_buffer_alone() {
    let mut cmds: CommandRegistry<Probe> = CommandRegistry::new();
    cmds.register::<SettingsRenderer>(write_sentinel());

    let mut bindings = ScopeRegistry::new();
    bindings.register(ScopedBinding {
        scope: BindingScope::Exact(path(&["settings", "_compose_form", "name"])),
        key: key_char('a'),
        command_id: cmd_id("test.sentinel"),
        phase: Phase::Target,
        priority: 200,
    });

    let renderers: RendererRegistry<SettingsRenderer> = RendererRegistry::new();
    let mut reader = SettingsSnapshot::empty();
    reader.insert(&path(&["ui", "settings", "new_account", "buffer"]), StoreValue::String("partial".into()));

    let writes = dispatch_settings_key(
        &reader,
        &path(&["settings", "index"]),
        &key_char('a'),
        &cmds,
        &bindings,
        &renderers,
    );

    assert!(writes.is_empty());
}

#[test]
fn pending_delete_routes_to_confirm_delete_scope_when_cursor_at_it() {
    // Cursor-as-focus: the cursor sitting at
    // `settings/_confirm_delete` is what activates the confirm-delete
    // scope. A Target binding at that leaf fires.
    let mut cmds: CommandRegistry<Probe> = CommandRegistry::new();
    cmds.register::<SettingsRenderer>(write_sentinel());

    let mut bindings = ScopeRegistry::new();
    bindings.register(ScopedBinding {
        scope: BindingScope::Exact(path(&["settings", "_confirm_delete"])),
        key: key_char('y'),
        command_id: cmd_id("test.sentinel"),
        phase: Phase::Target,
        priority: 200,
    });

    let renderers: RendererRegistry<SettingsRenderer> = RendererRegistry::new();
    let mut reader = SettingsSnapshot::empty();
    reader.insert(&path(&["ui", "settings", "focused"]), path_to_value(&path(&["settings", "_confirm_delete"])));

    let writes = dispatch_settings_key(
        &reader,
        &path(&["settings", "index"]),
        &key_char('y'),
        &cmds,
        &bindings,
        &renderers,
    );

    assert_eq!(writes.len(), 1);
    assert_eq!(writes[0].path, path(&["ui", "sentinel"]));
}

#[test]
fn pending_delete_esc_routes_via_capture() {
    // Esc on the confirm-delete dialog is a lifecycle key — the
    // scope claims it at Capture before any leaf sees it. A binding
    // registered at Phase::Capture on `_confirm_delete` must fire
    // when Esc is pressed while the cursor sits there.
    let mut cmds: CommandRegistry<Probe> = CommandRegistry::new();
    cmds.register::<SettingsRenderer>(write_sentinel());

    let mut bindings = ScopeRegistry::new();
    bindings.register(ScopedBinding {
        scope: BindingScope::Exact(path(&["settings", "_confirm_delete"])),
        key: KeyChord {
            modifiers: KeyModifierSet::none(),
            code: KeyCodeRepr::Esc,
        },
        command_id: cmd_id("test.sentinel"),
        phase: Phase::Capture,
        priority: 200,
    });

    let renderers: RendererRegistry<SettingsRenderer> = RendererRegistry::new();
    let mut reader = SettingsSnapshot::empty();
    reader.insert(&path(&["ui", "settings", "focused"]), path_to_value(&path(&["settings", "_confirm_delete"])));

    let writes = dispatch_settings_key(
        &reader,
        &path(&["settings", "accounts"]),
        &KeyChord {
            modifiers: KeyModifierSet::none(),
            code: KeyCodeRepr::Esc,
        },
        &cmds,
        &bindings,
        &renderers,
    );

    // Sentinel fires → Capture-phase lookup at the pending-delete
    // scope worked.
    assert_eq!(writes.len(), 1);
    assert_eq!(writes[0].path, path(&["ui", "sentinel"]));
}

#[test]
fn pending_delete_y_routes_via_target() {
    // Symmetric to the Esc-Capture test: `y` is a semantic action on
    // the focused dialog (Target), and a Phase::Target binding on
    // `_confirm_delete` must fire when `y` is pressed while the
    // cursor sits there.
    let mut cmds: CommandRegistry<Probe> = CommandRegistry::new();
    cmds.register::<SettingsRenderer>(write_sentinel());

    let mut bindings = ScopeRegistry::new();
    bindings.register(ScopedBinding {
        scope: BindingScope::Exact(path(&["settings", "_confirm_delete"])),
        key: key_char('y'),
        command_id: cmd_id("test.sentinel"),
        phase: Phase::Target,
        priority: 200,
    });

    let renderers: RendererRegistry<SettingsRenderer> = RendererRegistry::new();
    let mut reader = SettingsSnapshot::empty();
    reader.insert(&path(&["ui", "settings", "focused"]), path_to_value(&path(&["settings", "_confirm_delete"])));

    let writes = dispatch_settings_key(
        &reader,
        &path(&["settings", "accounts"]),
        &key_char('y'),
        &cmds,
        &bindings,
        &renderers,
    );

    assert_eq!(writes.len(), 1);
    assert_eq!(writes[0].path, path(&["ui", "sentinel"]));
}

#[test]
fn command_sees_dispatched_keystroke() {
    let mut cmds: CommandRegistry<Probe> = CommandRegistry::new();
    cmds.register::<SettingsRenderer>(report_keystroke());

    let mut bindings = ScopeRegistry::new();
    bindings.register(ScopedBinding {
        scope: BindingScope::Anywhere,
        key: key_char('z'),
        command_id: cmd_id("test.report_keystroke"),
        phase: Phase::Target,
        priority: 200,
    });

    let renderers: RendererRegistry<SettingsRenderer> = RendererRegistry::new();
    let mut reader = SettingsSnapshot::empty();
    // Seed a cursor: scope_path under cursor-as-focus is the
    // cursor's ancestor chain, so even `Anywhere` bindings need at
    // least one scope on the path to be looked up.
    reader.insert(&path(&["ui", "settings", "focused"]), path_to_value(&path(&["settings"])));

    let writes = dispatch_settings_key(
        &reader,
        &path(&[]),
        &key_char('z'),
        &cmds,
        &bindings,
        &renderers,
    );

    assert_eq!(writes.len(), 1);
    assert_eq!(writes[0].path, path(&["ui", "last_key"]));
    match &writes[0].value {
        StoreValue::String(s) => assert_eq!(s, "z"),
        other => panic!("unexpected record: {other:?}"),
    }
}

#[test]
fn manual_model_routes_to_manual_model_scope_when_cursor_at_stage() {
    // Cursor-as-focus: the cursor sitting at
    // `settings/_manual_model/id` is what activates the manual-model
    // scope. A Bubble binding at the form scope fires — the form
    // scope is an outer container, not the leaf (the leaf is
    // `_manual_model/<stage>`), so Bubble is the right phase to
    // pin.
    let mut cmds: CommandRegistry<Probe> = CommandRegistry::new();
    cmds.register::<SettingsRenderer>(write_sentinel());

    let mut bindings = ScopeRegistry::new();
    bindings.register(ScopedBinding {
        scope: BindingScope::Exact(path(&["settings", "_manual_model"])),
        key: key_char('a'),
        command_id: cmd_id("test.sentinel"),
        phase: Phase::Bubble,
        priority: 200,
    });

    let renderers: RendererRegistry<SettingsRenderer> = RendererRegistry::new();
    let mut reader = SettingsSnapshot::empty();
    reader.insert(&path(&["ui", "settings", "focused"]), path_to_value(&path(&["settings", "_manual_model", "id"])));

    let writes = dispatch_settings_key(
        &reader,
        &path(&["settings", "index"]),
        &key_char('a'),
        &cmds,
        &bindings,
        &renderers,
    );

    assert_eq!(writes.len(), 1);
    assert_eq!(writes[0].path, path(&["ui", "sentinel"]));
}

#[test]
fn manual_model_esc_routes_via_capture() {
    // Esc on the manual-model wizard is a lifecycle key — the form
    // scope claims it at Capture before any per-stage leaf sees it.
    // Mirrors pending-delete's Esc shape.
    let mut cmds: CommandRegistry<Probe> = CommandRegistry::new();
    cmds.register::<SettingsRenderer>(write_sentinel());

    let mut bindings = ScopeRegistry::new();
    bindings.register(ScopedBinding {
        scope: BindingScope::Exact(path(&["settings", "_manual_model"])),
        key: KeyChord {
            modifiers: KeyModifierSet::none(),
            code: KeyCodeRepr::Esc,
        },
        command_id: cmd_id("test.sentinel"),
        phase: Phase::Capture,
        priority: 200,
    });

    let renderers: RendererRegistry<SettingsRenderer> = RendererRegistry::new();
    let mut reader = SettingsSnapshot::empty();
    reader.insert(&path(&["ui", "settings", "focused"]), path_to_value(&path(&["settings", "_manual_model", "id"])));

    let writes = dispatch_settings_key(
        &reader,
        &path(&["settings", "models"]),
        &KeyChord {
            modifiers: KeyModifierSet::none(),
            code: KeyCodeRepr::Esc,
        },
        &cmds,
        &bindings,
        &renderers,
    );

    assert_eq!(writes.len(), 1);
    assert_eq!(writes[0].path, path(&["ui", "sentinel"]));
}

#[test]
fn manual_model_enter_routes_via_bubble() {
    // Enter advances the wizard at the form scope on Bubble: leaf
    // stages get first crack at Enter (Target) so a future
    // multi-line stage could insert a newline; nothing claims it
    // there today, so a Bubble binding at `_manual_model` fires.
    let mut cmds: CommandRegistry<Probe> = CommandRegistry::new();
    cmds.register::<SettingsRenderer>(write_sentinel());

    let mut bindings = ScopeRegistry::new();
    bindings.register(ScopedBinding {
        scope: BindingScope::Exact(path(&["settings", "_manual_model"])),
        key: KeyChord {
            modifiers: KeyModifierSet::none(),
            code: KeyCodeRepr::Enter,
        },
        command_id: cmd_id("test.sentinel"),
        phase: Phase::Bubble,
        priority: 200,
    });

    let renderers: RendererRegistry<SettingsRenderer> = RendererRegistry::new();
    let mut reader = SettingsSnapshot::empty();
    reader.insert(&path(&["ui", "settings", "focused"]), path_to_value(&path(&["settings", "_manual_model", "id"])));

    let writes = dispatch_settings_key(
        &reader,
        &path(&["settings", "models"]),
        &KeyChord {
            modifiers: KeyModifierSet::none(),
            code: KeyCodeRepr::Enter,
        },
        &cmds,
        &bindings,
        &renderers,
    );

    assert_eq!(writes.len(), 1);
    assert_eq!(writes[0].path, path(&["ui", "sentinel"]));
}

#[test]
fn manual_model_printable_routes_via_target_at_stage_leaf() {
    // Printable ASCII on the manual-model wizard targets the active
    // stage's leaf scope (`_manual_model/<stage>`), not the form
    // scope. A Target binding at `_manual_model/id` must fire when
    // the cursor sits at the Id stage.
    let mut cmds: CommandRegistry<Probe> = CommandRegistry::new();
    cmds.register::<SettingsRenderer>(write_sentinel());

    let mut bindings = ScopeRegistry::new();
    bindings.register(ScopedBinding {
        scope: BindingScope::Exact(path(&["settings", "_manual_model", "id"])),
        key: key_char('x'),
        command_id: cmd_id("test.sentinel"),
        phase: Phase::Target,
        priority: 200,
    });

    let renderers: RendererRegistry<SettingsRenderer> = RendererRegistry::new();
    let mut reader = SettingsSnapshot::empty();
    reader.insert(&path(&["ui", "settings", "focused"]), path_to_value(&path(&["settings", "_manual_model", "id"])));

    let writes = dispatch_settings_key(
        &reader,
        &path(&["settings", "models"]),
        &key_char('x'),
        &cmds,
        &bindings,
        &renderers,
    );

    assert_eq!(writes.len(), 1);
    assert_eq!(writes[0].path, path(&["ui", "sentinel"]));
}

#[test]
fn manual_model_skips_scope_when_cursor_not_in_manual_model() {
    // No cursor under `settings/_manual_model/...` → the
    // per-stage scope is never on the path. A binding registered
    // there alone is unreachable.
    let mut cmds: CommandRegistry<Probe> = CommandRegistry::new();
    cmds.register::<SettingsRenderer>(write_sentinel());

    let mut bindings = ScopeRegistry::new();
    bindings.register(ScopedBinding {
        scope: BindingScope::Exact(path(&["settings", "_manual_model", "id"])),
        key: key_char('a'),
        command_id: cmd_id("test.sentinel"),
        phase: Phase::Target,
        priority: 200,
    });

    let renderers: RendererRegistry<SettingsRenderer> = RendererRegistry::new();
    let reader = SettingsSnapshot::empty();

    let writes = dispatch_settings_key(
        &reader,
        &path(&["settings", "index"]),
        &key_char('a'),
        &cmds,
        &bindings,
        &renderers,
    );

    // No cursor in `_manual_model/*` → scope never on the path.
    assert!(writes.is_empty());
}

#[test]
fn outer_scope_binding_fires_via_bubble_from_inner_focused_cursor() {
    // Page-cursor bindings (j/k row navigation, the page's *default*
    // row-nav handlers) declare Phase::Bubble. The dispatcher's
    // Bubble pass walks inner → outer through the cursor's ancestor
    // chain and finds them at the outer scope, even though the leaf
    // is a deeper focused-row scope.
    //
    // Setup: cursor (`ui/settings/focused`) at `settings/accounts`.
    // Ancestor chain: [Exact(settings), Exact(settings/accounts)].
    // The leaf has no Bubble binding for `j`; the Bubble walk
    // continues outward and finds `j` on the outer `settings` scope.
    let mut cmds: CommandRegistry<Probe> = CommandRegistry::new();
    cmds.register::<SettingsRenderer>(write_sentinel());

    let mut bindings = ScopeRegistry::new();
    // Outer-scope `j` lives at `Exact(settings)` Phase::Bubble — the
    // ancestor of every cursor on the settings screen. The
    // dispatcher's Bubble pass walks inner → outer and finds it
    // without any per-scope Target fallback.
    bindings.register(ScopedBinding {
        scope: BindingScope::Exact(path(&["settings"])),
        key: key_char('j'),
        command_id: cmd_id("test.sentinel"),
        phase: Phase::Bubble,
        priority: 200,
    });

    let renderers: RendererRegistry<SettingsRenderer> = RendererRegistry::new();
    let mut reader = SettingsSnapshot::empty();
    // Seed a focused-row cursor under `settings` so the leaf differs
    // from the outer scope. The Bubble pass still finds `j` at the
    // ancestor.
    reader.insert(&path(&["ui", "settings", "focused"]), path_to_value(&path(&["settings", "accounts"])));

    let writes = dispatch_settings_key(
        &reader,
        &path(&["settings", "index"]),
        &key_char('j'),
        &cmds,
        &bindings,
        &renderers,
    );

    // The sentinel fires because the Bubble pass walks outward from
    // the leaf to the ancestor scope where the binding lives.
    assert_eq!(writes.len(), 1);
    assert_eq!(writes[0].path, path(&["ui", "sentinel"]));
}

/// Seed `ui/settings/focused = settings/_edit` (plus the target
/// field path the edit machinery commits to) so the dispatcher's
/// `compute_scope_path` pushes the `_edit` leaf via its
/// focused-row push. Mirrors the confirm-delete seed shape.
fn seed_edit_mode(reader: &mut SettingsSnapshot, field_path: Path) {
    reader.insert(&path(&["ui", "settings", "focused"]), path_to_value(&path(&["settings", "_edit"])));
    reader.insert(&path(&["ui", "settings", "edit", "target_path"]), path_to_value(&field_path));
}

#[test]
fn edit_mode_esc_routes_via_capture() {
    // Esc on inline edit-mode is a lifecycle key — the `_edit`
    // scope claims it at Capture before any leaf sees it. A binding
    // registered at Phase::Capture on `_edit` must fire when Esc
    // is pressed while the cursor sits at `settings/_edit`.
    let mut cmds: CommandRegistry<Probe> = CommandRegistry::new();
    cmds.register::<SettingsRenderer>(write_sentinel());

    let mut bindings = ScopeRegistry::new();
    bindings.register(ScopedBinding {
        scope: BindingScope::Exact(path(&["settings", "_edit"])),
        key: KeyChord {
            modifiers: KeyModifierSet::none(),
            code: KeyCodeRepr::Esc,
        },
        command_id: cmd_id("test.sentinel"),
        phase: Phase::Capture,
        priority: 200,
    });

    let renderers: RendererRegistry<SettingsRenderer> = RendererRegistry::new();
    let mut reader = SettingsSnapshot::empty();
    seed_edit_mode(
        &mut reader,
        path(&["config", "gate", "providers", "alpha", "endpoint"]),
    );

    let writes = dispatch_settings_key(
        &reader,
        &path(&["settings", "accounts"]),
        &KeyChord {
            modifiers: KeyModifierSet::none(),
            code: KeyCodeRepr::Esc,
        },
        &cmds,
        &bindings,
        &renderers,
    );

    assert_eq!(writes.len(), 1);
    assert_eq!(writes[0].path, path(&["ui", "sentinel"]));
}

#[test]
fn edit_mode_enter_routes_via_bubble() {
    // Enter commits the edit buffer at Bubble: leaves (none today,
    // but a future multi-line text editor at Target) get first crack
    // at Enter. A Bubble binding at `_edit` fires.
    let mut cmds: CommandRegistry<Probe> = CommandRegistry::new();
    cmds.register::<SettingsRenderer>(write_sentinel());

    let mut bindings = ScopeRegistry::new();
    bindings.register(ScopedBinding {
        scope: BindingScope::Exact(path(&["settings", "_edit"])),
        key: KeyChord {
            modifiers: KeyModifierSet::none(),
            code: KeyCodeRepr::Enter,
        },
        command_id: cmd_id("test.sentinel"),
        phase: Phase::Bubble,
        priority: 200,
    });

    let renderers: RendererRegistry<SettingsRenderer> = RendererRegistry::new();
    let mut reader = SettingsSnapshot::empty();
    seed_edit_mode(
        &mut reader,
        path(&["config", "gate", "providers", "alpha", "endpoint"]),
    );

    let writes = dispatch_settings_key(
        &reader,
        &path(&["settings", "accounts"]),
        &KeyChord {
            modifiers: KeyModifierSet::none(),
            code: KeyCodeRepr::Enter,
        },
        &cmds,
        &bindings,
        &renderers,
    );

    assert_eq!(writes.len(), 1);
    assert_eq!(writes[0].path, path(&["ui", "sentinel"]));
}

#[test]
fn edit_mode_printable_routes_via_target() {
    // Printable ASCII on inline edit-mode mutates the buffer — the
    // leaf claim. A Target binding at `_edit` must fire when a
    // printable char is pressed while the cursor sits at
    // `settings/_edit`.
    let mut cmds: CommandRegistry<Probe> = CommandRegistry::new();
    cmds.register::<SettingsRenderer>(write_sentinel());

    let mut bindings = ScopeRegistry::new();
    bindings.register(ScopedBinding {
        scope: BindingScope::Exact(path(&["settings", "_edit"])),
        key: key_char('x'),
        command_id: cmd_id("test.sentinel"),
        phase: Phase::Target,
        priority: 200,
    });

    let renderers: RendererRegistry<SettingsRenderer> = RendererRegistry::new();
    let mut reader = SettingsSnapshot::empty();
    seed_edit_mode(
        &mut reader,
        path(&["config", "gate", "providers", "alpha", "endpoint"]),
    );

    let writes = dispatch_settings_key(
        &reader,
        &path(&["settings", "accounts"]),
        &key_char('x'),
        &cmds,
        &bindings,
        &renderers,
    );

    assert_eq!(writes.len(), 1);
    assert_eq!(writes[0].path, path(&["ui", "sentinel"]));
}

// -----------------------------------------------------------------
// `compute_scope_path` structural ordering tests
//
// The dispatcher's three-phase walk (Capture outer→inner, Target on
// the leaf only, Bubble inner→outer) depends on the scope path
// being assembled in a fixed order:
//
//   cursor → focused-row → compound-widget-container → compound-widget-leaf
//
// Today that ordering is convention enforced by reading
// `compute_scope_path`. These tests pin it position-by-position so
// a reorder that quietly swaps inner / outer trips a unit test
// instead of a runtime keystroke routing to the wrong widget.
// -----------------------------------------------------------------

/// Seed `ui/settings/focused = <path>` so `compute_scope_path` pushes
/// the focused-row scope between the cursor and any compound widget.
fn seed_focused_row(reader: &mut SettingsSnapshot, focused: Path) {
    reader.insert(&path(&["ui", "settings", "focused"]), path_to_value(&focused));
}

/// Seed `ui/settings/focused = settings/_compose_form/<field>` —
/// under cursor-as-focus this single write puts the user inside
/// the compose form on the named field. The dispatcher's
/// `compute_scope_path` walks the cursor's ancestors to derive
/// both the form scope and the per-field leaf scope.
fn seed_compose_cursor(reader: &mut SettingsSnapshot, field: &str) {
    let at = path(&["settings", "_compose_form", field]);
    reader.insert(&path(&["ui", "settings", "focused"]), path_to_value(&at));
}

/// Seed `ui/settings/focused = settings/_manual_model/<stage>` —
/// under cursor-as-focus this single write puts the user inside
/// the manual-model wizard at the named stage. The dispatcher's
/// `compute_scope_path` walks the cursor's ancestors to derive
/// both the form scope and the per-stage leaf scope.
fn seed_manual_model_cursor(
    reader: &mut SettingsSnapshot,
    stage: ManualModelStage,
) {
    let at = manual_model_focus_path(stage);
    reader.insert(&path(&["ui", "settings", "focused"]), path_to_value(&at));
}

/// Seed `ui/settings/focused = settings/_confirm_delete` — under
/// cursor-as-focus this single write engages confirm-delete mode.
/// The dispatcher's `compute_scope_path` pushes the focused row
/// onto the scope path, which IS the leaf for this single-scope
/// widget.
fn seed_confirm_delete_cursor(reader: &mut SettingsSnapshot) {
    reader.insert(&path(&["ui", "settings", "focused"]), path_to_value(&path(&["settings", "_confirm_delete"])));
}

#[test]
fn scope_path_falls_back_to_screen_root_when_no_cursor_seeded() {
    // With no `ui/settings/focused` written, `read_cursor` returns
    // None. The scope path falls back to the screen-root scope
    // (`settings`) so page-level Bubble bindings remain reachable —
    // critical for j/k navigation to work on first entry, before any
    // row has been focused.
    let reader = SettingsSnapshot::empty();

    let scopes = compute_scope_path(&reader);

    assert_eq!(
        scopes,
        vec![BindingScope::Exact(path(&["settings"]))],
        "no-cursor fallback should be the screen-root scope",
    );
}

#[test]
fn scope_path_is_cursor_ancestor_chain_for_row_cursor() {
    // Cursor at a row path → scope path is the cursor's ancestor
    // chain (each progressively-longer prefix, outer → inner).
    let mut reader = SettingsSnapshot::empty();
    seed_focused_row(&mut reader, path(&["settings", "accounts", "alpha"]));

    let scopes = compute_scope_path(&reader);

    assert_eq!(scopes.len(), 3);
    assert_eq!(scopes[0], BindingScope::Exact(path(&["settings"])));
    assert_eq!(
        scopes[1],
        BindingScope::Exact(path(&["settings", "accounts"]))
    );
    assert_eq!(
        scopes[2],
        BindingScope::Exact(path(&["settings", "accounts", "alpha"]))
    );
}

#[test]
fn scope_path_for_cursor_at_section_header_is_two_levels() {
    // Cursor at the section header (`settings/accounts`) → ancestor
    // chain is [settings, settings/accounts].
    let mut reader = SettingsSnapshot::empty();
    seed_focused_row(&mut reader, path(&["settings", "accounts"]));

    let scopes = compute_scope_path(&reader);

    assert_eq!(scopes.len(), 2);
    assert_eq!(scopes[0], BindingScope::Exact(path(&["settings"])));
    assert_eq!(
        scopes[1],
        BindingScope::Exact(path(&["settings", "accounts"]))
    );
}

#[test]
fn scope_path_for_compose_is_settings_then_form_then_field_leaf() {
    // Compose mode with the Name field focused: the cursor sits at
    // `settings/_compose_form/name`; its ancestor chain is
    // [settings, settings/_compose_form, settings/_compose_form/name].
    // The per-field leaf sits at the inner end so Target fires on it.
    let mut reader = SettingsSnapshot::empty();
    seed_compose_cursor(&mut reader, "name");

    let scopes = compute_scope_path(&reader);

    assert_eq!(scopes.len(), 3);
    assert_eq!(scopes[0], BindingScope::Exact(path(&["settings"])));
    assert_eq!(
        scopes[1],
        BindingScope::Exact(path(&["settings", "_compose_form"]))
    );
    assert_eq!(
        scopes[2],
        BindingScope::Exact(path(&["settings", "_compose_form", "name"]))
    );
}

#[test]
fn scope_path_for_compose_selector_focus_uses_per_field_leaf() {
    // Same shape with the Protocol field focused — leaf flips to
    // the protocol-field scope. The container scope is unchanged.
    let mut reader = SettingsSnapshot::empty();
    seed_compose_cursor(&mut reader, "protocol");

    let scopes = compute_scope_path(&reader);

    assert_eq!(scopes.len(), 3);
    assert_eq!(scopes[0], BindingScope::Exact(path(&["settings"])));
    assert_eq!(
        scopes[1],
        BindingScope::Exact(path(&["settings", "_compose_form"]))
    );
    assert_eq!(
        scopes[2],
        BindingScope::Exact(path(&["settings", "_compose_form", "protocol"]))
    );
}

#[test]
fn compute_scope_path_includes_compose_form_when_cursor_at_field() {
    let mut reader = SettingsSnapshot::empty();
    seed_compose_cursor(&mut reader, "name");
    let scopes = compute_scope_path(&reader);
    assert!(scopes.contains(&BindingScope::Exact(path(&["settings", "_compose_form"]))));
    assert!(scopes.contains(&BindingScope::Exact(path(&["settings", "_compose_form", "name"]))));
}

#[test]
fn cursor_at_account_row_does_not_include_compose_form_scope() {
    // No compose engaged when cursor sits at a regular account row.
    let mut reader = SettingsSnapshot::empty();
    seed_focused_row(&mut reader, path(&["settings", "accounts", "alpha"]));
    let scopes = compute_scope_path(&reader);
    assert!(
        !scopes.contains(&BindingScope::Exact(path(&["settings", "_compose_form"]))),
        "no compose form scope when cursor is on an account row: {scopes:?}",
    );
}

#[test]
fn scope_path_for_manual_model_is_settings_then_form_then_stage_leaf() {
    // Manual-model mode with stage Ctx: cursor at
    // `settings/_manual_model/ctx`; ancestors are
    // [settings, settings/_manual_model, settings/_manual_model/ctx].
    let mut reader = SettingsSnapshot::empty();
    seed_manual_model_cursor(&mut reader, ManualModelStage::Ctx);

    let scopes = compute_scope_path(&reader);

    assert_eq!(scopes.len(), 3);
    assert_eq!(scopes[0], BindingScope::Exact(path(&["settings"])));
    assert_eq!(
        scopes[1],
        BindingScope::Exact(path(&["settings", "_manual_model"]))
    );
    assert_eq!(
        scopes[2],
        BindingScope::Exact(path(&["settings", "_manual_model", "ctx"]))
    );
}

#[test]
fn scope_path_for_manual_model_id_stage_uses_id_leaf() {
    // Spot-check the cursor's leaf segment drives the binding scope.
    // With cursor at `settings/_manual_model/id` the leaf must be
    // `_manual_model/id`, not a shared singleton.
    let mut reader = SettingsSnapshot::empty();
    seed_manual_model_cursor(&mut reader, ManualModelStage::Id);

    let scopes = compute_scope_path(&reader);

    assert_eq!(
        scopes.last().unwrap(),
        &BindingScope::Exact(path(&["settings", "_manual_model", "id"]))
    );
}

#[test]
fn compute_scope_path_includes_manual_model_when_cursor_at_stage() {
    let mut reader = SettingsSnapshot::empty();
    seed_manual_model_cursor(&mut reader, ManualModelStage::Id);
    let scopes = compute_scope_path(&reader);
    assert!(
        scopes.contains(&BindingScope::Exact(path(&["settings", "_manual_model"]))),
        "expected form scope on path: {scopes:?}",
    );
    assert!(
        scopes.contains(&BindingScope::Exact(path(&["settings", "_manual_model", "id"]))),
        "expected per-stage leaf scope on path: {scopes:?}",
    );
}

#[test]
fn scope_path_for_confirm_delete_ends_at_confirm_delete_scope() {
    // Confirm-delete is a single-leaf compound widget (no sub-form):
    // cursor at `settings/_confirm_delete`; ancestors are
    // [settings, settings/_confirm_delete]. The leaf is innermost so
    // Target / Capture bindings on the dialog get first crack at the
    // key.
    let mut reader = SettingsSnapshot::empty();
    seed_confirm_delete_cursor(&mut reader);

    let scopes = compute_scope_path(&reader);

    assert_eq!(scopes.len(), 2);
    assert_eq!(scopes[0], BindingScope::Exact(path(&["settings"])));
    assert_eq!(
        scopes[1],
        BindingScope::Exact(path(&["settings", "_confirm_delete"]))
    );
}

#[test]
fn compute_scope_path_includes_confirm_delete_when_cursor_at_it() {
    let mut reader = SettingsSnapshot::empty();
    seed_confirm_delete_cursor(&mut reader);
    let scopes = compute_scope_path(&reader);
    assert!(
        scopes.contains(&BindingScope::Exact(path(&["settings", "_confirm_delete"]))),
        "expected confirm-delete leaf on path: {scopes:?}",
    );
}

#[test]
fn scope_path_for_edit_mode_ends_at_edit_scope() {
    // Inline edit-mode: cursor at `settings/_edit`; ancestors are
    // [settings, settings/_edit]. The leaf is innermost so Target
    // bindings on the edit scope get first crack at printable keys.
    let mut reader = SettingsSnapshot::empty();
    seed_edit_mode(
        &mut reader,
        path(&["config", "gate", "providers", "alpha", "endpoint"]),
    );

    let scopes = compute_scope_path(&reader);

    assert_eq!(scopes.len(), 2);
    assert_eq!(scopes[0], BindingScope::Exact(path(&["settings"])));
    assert_eq!(scopes[1], BindingScope::Exact(path(&["settings", "_edit"])));
}

#[test]
fn compute_scope_path_includes_edit_when_cursor_at_it() {
    let mut reader = SettingsSnapshot::empty();
    seed_edit_mode(
        &mut reader,
        path(&["settings", "accounts", "alpha", "endpoint"]),
    );
    let scopes = compute_scope_path(&reader);
    assert!(
        scopes.contains(&BindingScope::Exact(path(&["settings", "_edit"]))),
        "expected edit leaf on path: {scopes:?}",
    );
}

#[test]
fn path_ancestors_empty_path_returns_empty_vec() {
    let ancestors = path_ancestors(&path(&[]));
    assert!(ancestors.is_empty(), "expected empty vec: {ancestors:?}");
}

#[test]
fn path_ancestors_single_segment_returns_self() {
    let p = path(&["settings"]);
    let ancestors = path_ancestors(&p);
    assert_eq!(ancestors, vec![p]);
}

#[test]
fn path_ancestors_multi_segment_returns_progressively_longer_prefixes() {
    let p = path(&["settings", "_compose_form", "name"]);
    let ancestors = path_ancestors(&p);
    assert_eq!(
        ancestors,
        vec![
            path(&["settings"]),
            path(&["settings", "_compose_form"]),
            path(&["settings", "_compose_form", "name"]),
        ],
    );
}

