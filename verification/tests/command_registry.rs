use ox_settings::command_registry::{Command, CommandCtx, CommandRegistry};
use ox_settings::keys::{
    CommandDisplay, CommandId, CommandScope, KeyChord, KeyCodeRepr, KeyModifierSet, Screen,
};
use ox_settings::path::Path;
use ox_settings::registry::RendererRegistry;
use ox_settings::renderers::SettingsRenderer;
use ox_settings::snapshot::SettingsSnapshot;
use ox_settings::value::{StoreValue, Write};

fn path(parts: &[&str]) -> Path {
    Path { components: parts.iter().map(|s| s.to_string()).collect() }
}

/// What a `Probe` writes.
enum Wrote {
    One,
    RegistryHit,
    SeenKey,
}

struct Probe {
    id: CommandId,
    display: CommandDisplay,
    scope: CommandScope,
    wrote: Wrote,
}

fn probe(id: &str, name: &str, description: &str, wrote: Wrote) -> Probe {
    Probe {
        id: CommandId(id.to_string()),
        display: CommandDisplay { name: name.to_string(), description: description.to_string() },
        scope: CommandScope { screen: Screen::Settings, cursor_path: None },
        wrote,
    }
}

/// Writes a fixed string to a fixed path.
fn write_one_path() -> Probe {
    probe("test.write_one", "Write One", "writes 'hello' to ui/x", Wrote::One)
}

/// Writes whether a known cursor was registered.
fn write_registry_probe() -> Probe {
    probe(
        "test.registry_probe",
        "Registry Probe",
        "writes ctx.registry.lookup result",
        Wrote::RegistryHit,
    )
}

/// Writes whether a keystroke came with the call.
fn write_if_keystroke() -> Probe {
    probe(
        "test.write_if_keystroke",
        "Write If Keystroke",
        "writes whether ctx.last_keystroke was set",
        Wrote::SeenKey,
    )
}

impl Command<SettingsRenderer> for Probe {
    fn id(&self) -> &CommandId {
        &self.id
    }
    fn display(&self) -> &CommandDisplay {
        &self.display
    }
    fn scope(&self) -> &CommandScope {
        &self.scope
    }
    fn run(&self, _snapshot: &SettingsSnapshot, ctx: &CommandCtx<'_, SettingsRenderer>) -> Vec<Write> {
        match self.wrote {
            Wrote::One => vec![Write {
                path: path(&["ui", "x"]),
                value: StoreValue::String("hello".into()),
            }],
            Wrote::RegistryHit => {
                let hit = ctx.registry.lookup(&path(&["settings", "ghost"])).is_some();
                vec![Write {
                    path: path(&["ui", "registry_hit"]),
                    value: StoreValue::Bool(hit),
                }]
            }
            Wrote::SeenKey => vec![Write {
                path: path(&["ui", "seen_key"]),
                value: StoreValue::Bool(ctx.last_keystroke.is_some()),
            }],
        }
    }
}

fn sample_chord() -> KeyChord {
    KeyChord {
        modifiers: KeyModifierSet::none(),
        code: KeyCodeRepr::Char('a'),
    }
}

#[test]
fn trivial_command_registers_and_looks_up() {
    let mut reg: CommandRegistry<Probe> = CommandRegistry::new();
    reg.register::<SettingsRenderer>(write_one_path());

    let id = CommandId("test.write_one".to_string());
    let cmd = reg.lookup(&id).expect("command should be registered");

    let renderers: RendererRegistry<SettingsRenderer> = RendererRegistry::new();
    let ctx = CommandCtx {
        registry: &renderers,
        last_keystroke: None,
    };
    let reader = SettingsSnapshot::empty();
    let writes = cmd.run(&reader, &ctx);

    assert_eq!(writes.len(), 1);
    assert_eq!(writes[0].path, path(&["ui", "x"]));
    match &writes[0].value {
        StoreValue::String(s) => assert_eq!(s, "hello"),
        other => panic!("unexpected record: {other:?}"),
    }
}

#[test]
fn command_can_read_ctx_registry() {
    let mut reg: CommandRegistry<Probe> = CommandRegistry::new();
    reg.register::<SettingsRenderer>(write_registry_probe());

    let id = CommandId("test.registry_probe".to_string());
    let cmd = reg.lookup(&id).expect("command should be registered");

    let renderers: RendererRegistry<SettingsRenderer> = RendererRegistry::new();
    let ctx = CommandCtx {
        registry: &renderers,
        last_keystroke: None,
    };
    let reader = SettingsSnapshot::empty();
    let writes = cmd.run(&reader, &ctx);

    assert_eq!(writes.len(), 1);
    assert_eq!(writes[0].path, path(&["ui", "registry_hit"]));
    // Empty renderer registry must miss → the command observed `false`.
    match &writes[0].value {
        StoreValue::Bool(b) => assert!(!*b),
        other => panic!("unexpected record: {other:?}"),
    }
}

#[test]
fn command_handles_optional_last_keystroke() {
    let mut reg: CommandRegistry<Probe> = CommandRegistry::new();
    reg.register::<SettingsRenderer>(write_if_keystroke());

    let id = CommandId("test.write_if_keystroke".to_string());
    let cmd = reg.lookup(&id).expect("command should be registered");

    let renderers: RendererRegistry<SettingsRenderer> = RendererRegistry::new();
    let reader = SettingsSnapshot::empty();

    // Some(...) — the command observes `true`.
    let ctx_some = CommandCtx {
        registry: &renderers,
        last_keystroke: Some(sample_chord()),
    };
    let writes = cmd.run(&reader, &ctx_some);
    assert_eq!(writes.len(), 1);
    match &writes[0].value {
        StoreValue::Bool(b) => assert!(*b),
        other => panic!("unexpected record: {other:?}"),
    }

    // None — the command observes `false`.
    let ctx_none = CommandCtx {
        registry: &renderers,
        last_keystroke: None,
    };
    let writes = cmd.run(&reader, &ctx_none);
    assert_eq!(writes.len(), 1);
    match &writes[0].value {
        StoreValue::Bool(b) => assert!(!*b),
        other => panic!("unexpected record: {other:?}"),
    }
}

#[test]
fn command_registry_register_replaces_existing_entry() {
    let mut reg: CommandRegistry<Probe> = CommandRegistry::new();
    reg.register::<SettingsRenderer>(write_one_path());
    reg.register::<SettingsRenderer>(write_one_path());

    // Still exactly one entry — the second registration replaced the first.
    assert_eq!(reg.iter().len(), 1);
}

#[test]
fn command_registry_lookup_misses_return_none() {
    let reg: CommandRegistry<Probe> = CommandRegistry::new();
    assert!(reg.lookup(&CommandId("missing".to_string())).is_none());
}

#[test]
fn iter_yields_all_registered() {
    let mut reg: CommandRegistry<Probe> = CommandRegistry::new();
    reg.register::<SettingsRenderer>(write_one_path());
    reg.register::<SettingsRenderer>(write_registry_probe());
    reg.register::<SettingsRenderer>(write_if_keystroke());

    assert_eq!(reg.iter().len(), 3);
}
