use ox_settings::command_registry::{Command, CommandCtx};
use ox_settings::commands::navigation::{path_from_value, path_to_value};
use ox_settings::commands::settings_command::{Action, SettingsCommand};
use ox_settings::path::Path;
use ox_settings::registry::{AscendRule, RenderCtx, Renderer, RendererRegistry};
use ox_settings::snapshot::SettingsSnapshot;
use ox_settings::value::{StoreValue, Write};
use ox_settings::view::ViewNode;

fn path(parts: &[&str]) -> Path {
    Path { components: parts.iter().map(|s| s.to_string()).collect() }
}

/// A page that only has a rule for leaving it.
struct FakeRenderer(AscendRule);

impl Renderer for FakeRenderer {
    fn render(&self, _ctx: &RenderCtx<'_>, _backdrop: ViewNode) -> ViewNode {
        ViewNode::Empty
    }
    fn backdrop(&self) -> Option<Path> {
        None
    }
    fn ascend_to(&self) -> AscendRule {
        self.0.clone()
    }
}

fn run_with_registry(
    action: Action,
    snap: &SettingsSnapshot,
    registry: &RendererRegistry<FakeRenderer>,
) -> Vec<Write> {
    let ctx = CommandCtx { registry, last_keystroke: None };
    SettingsCommand::new(action).run(snap, &ctx)
}

fn assert_path_write(writes: &[Write], path: Path, expected_target: Path) {
    assert_eq!(writes.len(), 1);
    assert_eq!(writes[0].path, path);
    assert_eq!(path_from_value(&writes[0].value).expect("Path"), expected_target);
}

#[test]
fn ascend_at_nearest_registered_writes_parent() {
    let mut snap = SettingsSnapshot::empty();
    snap.insert(
        &path(&["ui", "settings", "cursor"]),
        path_to_value(&path(&["settings", "accounts", "_detail"])),
    );

    let mut registry = RendererRegistry::new();
    registry.register(
        path(&["settings", "accounts"]),
        FakeRenderer(AscendRule::NearestRegistered),
    );
    registry.register(
        path(&["settings", "accounts", "_detail"]),
        FakeRenderer(AscendRule::NearestRegistered),
    );

    let writes = run_with_registry(Action::NavAscend, &snap, &registry);
    assert_path_write(
        &writes,
        path(&["ui", "settings", "cursor"]),
        path(&["settings", "accounts"]),
    );
}

#[test]
fn ascend_top_level_page_falls_back_to_settings_index() {
    let mut snap = SettingsSnapshot::empty();
    snap.insert(
        &path(&["ui", "settings", "cursor"]),
        path_to_value(&path(&["settings", "accounts"])),
    );

    let mut registry = RendererRegistry::new();
    registry.register(
        path(&["settings", "index"]),
        FakeRenderer(AscendRule::ExitScreen),
    );
    registry.register(
        path(&["settings", "accounts"]),
        FakeRenderer(AscendRule::Fallback(path(&["settings", "index"]))),
    );

    let writes = run_with_registry(Action::NavAscend, &snap, &registry);
    assert_path_write(
        &writes,
        path(&["ui", "settings", "cursor"]),
        path(&["settings", "index"]),
    );
}

#[test]
fn ascend_at_exit_screen_writes_request_exit() {
    let mut snap = SettingsSnapshot::empty();
    snap.insert(
        &path(&["ui", "settings", "cursor"]),
        path_to_value(&path(&["settings", "index"])),
    );

    let mut registry = RendererRegistry::new();
    registry.register(
        path(&["settings", "index"]),
        FakeRenderer(AscendRule::ExitScreen),
    );

    let writes = run_with_registry(Action::NavAscend, &snap, &registry);
    assert_eq!(writes.len(), 1);
    assert_eq!(writes[0].path, path(&["ui", "settings", "_request_exit"]));
    match &writes[0].value {
        StoreValue::Bool(b) => assert!(*b),
        other => panic!("unexpected record: {other:?}"),
    }
}
