use ox_settings::command_registry::{Command, CommandCtx};
use ox_settings::commands::settings_command::{Action, SettingsCommand};
use ox_settings::path::Path;
use ox_settings::registry::RendererRegistry;
use ox_settings::renderers::util::models_to_value;
use ox_settings::renderers::SettingsRenderer;
use ox_settings::snapshot::SettingsSnapshot;
use ox_settings::types::{
    AccountConfig, BadgeSource, ModelInfo, ModelInfoSource, ModelKey, SettingsIndexEntry,
};
use ox_settings::value::{StoreValue, Write};

fn path(parts: &[&str]) -> Path {
    Path { components: parts.iter().map(|s| s.to_string()).collect() }
}

fn run(action: Action, snap: &SettingsSnapshot) -> Vec<Write> {
    let registry: RendererRegistry<SettingsRenderer> = RendererRegistry::new();
    let ctx = CommandCtx { registry: &registry, last_keystroke: None };
    SettingsCommand::new(action).run(snap, &ctx)
}

fn assert_one_write(writes: &[Write], path: Path, expected: StoreValue) {
    assert_eq!(writes.len(), 1);
    assert_eq!(writes[0].path, path);
    assert_eq!(writes[0].value, expected);
}

fn assert_usize_write(writes: &[Write], path: Path, expected: usize) {
    assert_one_write(writes, path, StoreValue::Integer(expected as i64));
}

fn assert_optstr_write(writes: &[Write], path: Path, expected: &str) {
    assert_one_write(writes, path, StoreValue::String(expected.to_string()));
}

fn assert_modelkey_write(writes: &[Write], path: Path, account: &str, model: &str) {
    let key = ModelKey { account: account.to_string(), model_id: model.to_string() };
    assert_one_write(writes, path, StoreValue::ModelKey(key));
}

fn entry(id: &str, target: &str) -> SettingsIndexEntry {
    SettingsIndexEntry {
        id: id.to_string(),
        label: id.to_string(),
        description: String::new(),
        target_cursor: Path::parse(target).unwrap(),
        badge: BadgeSource::Blank,
    }
}

fn write_three_entries(snap: &mut SettingsSnapshot) {
    snap.insert(
        &path(&["settings", "index", "entries", "a"]),
        StoreValue::IndexEntry(entry("a", "settings/a")),
    );
    snap.insert(
        &path(&["settings", "index", "entries", "b"]),
        StoreValue::IndexEntry(entry("b", "settings/b")),
    );
    snap.insert(
        &path(&["settings", "index", "entries", "c"]),
        StoreValue::IndexEntry(entry("c", "settings/c")),
    );
}

fn write_account(snap: &mut SettingsSnapshot, name: &str) {
    let comp = name;
    snap.insert(
        &path(&["config", "gate", "accounts", &comp]),
        StoreValue::Account(AccountConfig::bound_to(name.into())),
    );
}

fn write_account_with_models(snap: &mut SettingsSnapshot, name: &str, model_ids: &[&str]) {
    write_account(snap, name);
    let comp = name;
    let models: Vec<ModelInfo> = model_ids
        .iter()
        .map(|id| ModelInfo {
            id: (*id).to_string(),
            display_name: (*id).to_string(),
            max_context_size: None,
            max_output_tokens: None,
            source: ModelInfoSource::Server,
        })
        .collect();
    snap.insert(
        &path(&["config", "gate", "accounts", &comp, "models"]),
        models_to_value(&models),
    );
}

// -- Index ------------------------------------------------------------------

#[test]
fn next_wraps_at_end_for_index() {
    let mut snap = SettingsSnapshot::empty();
    write_three_entries(&mut snap);
    snap.insert(
        &path(&["ui", "settings", "index", "selected"]),
        StoreValue::Integer(2),
    );

    let writes = run(Action::HighlightIndexNext, &snap);
    assert_usize_write(&writes, path(&["ui", "settings", "index", "selected"]), 0);
}

#[test]
fn prev_wraps_at_start_for_index() {
    let mut snap = SettingsSnapshot::empty();
    write_three_entries(&mut snap);
    snap.insert(
        &path(&["ui", "settings", "index", "selected"]),
        StoreValue::Integer(0),
    );

    let writes = run(Action::HighlightIndexPrev, &snap);
    assert_usize_write(&writes, path(&["ui", "settings", "index", "selected"]), 2);
}

#[test]
fn next_is_noop_on_empty_index() {
    let snap = SettingsSnapshot::empty();
    let writes = run(Action::HighlightIndexNext, &snap);
    assert!(writes.is_empty());
}

// -- Accounts ---------------------------------------------------------------

#[test]
fn next_cycles_account_names() {
    let mut snap = SettingsSnapshot::empty();
    write_account(&mut snap, "alpha");
    write_account(&mut snap, "beta");
    write_account(&mut snap, "gamma");
    snap.insert(
        &path(&["ui", "settings", "accounts", "selected"]),
        StoreValue::String("alpha".to_string()),
    );
    let writes = run(Action::HighlightAccountsNext, &snap);
    assert_optstr_write(
        &writes,
        path(&["ui", "settings", "accounts", "selected"]),
        "beta",
    );
}

#[test]
fn prev_cycles_account_names() {
    let mut snap = SettingsSnapshot::empty();
    write_account(&mut snap, "alpha");
    write_account(&mut snap, "beta");
    write_account(&mut snap, "gamma");
    snap.insert(
        &path(&["ui", "settings", "accounts", "selected"]),
        StoreValue::String("alpha".to_string()),
    );
    let writes = run(Action::HighlightAccountsPrev, &snap);
    assert_optstr_write(
        &writes,
        path(&["ui", "settings", "accounts", "selected"]),
        "gamma",
    );
}

#[test]
fn next_starts_at_first_when_no_selection() {
    let mut snap = SettingsSnapshot::empty();
    write_account(&mut snap, "alpha");
    write_account(&mut snap, "beta");
    // No selection set.
    let writes = run(Action::HighlightAccountsNext, &snap);
    assert_optstr_write(
        &writes,
        path(&["ui", "settings", "accounts", "selected"]),
        "alpha",
    );
}

// -- Models -----------------------------------------------------------------

#[test]
fn next_cycles_model_keys() {
    let mut snap = SettingsSnapshot::empty();
    write_account_with_models(&mut snap, "alpha", &["m1"]);
    write_account_with_models(&mut snap, "beta", &["m2", "m3"]);
    snap.insert(
        &path(&["ui", "settings", "models", "selected"]),
        StoreValue::ModelKey(ModelKey {
            account: "alpha".into(),
            model_id: "m1".into(),
        }),
    );
    let writes = run(Action::HighlightModelsNext, &snap);
    assert_modelkey_write(
        &writes,
        path(&["ui", "settings", "models", "selected"]),
        "beta",
        "m2",
    );
}

#[test]
fn prev_cycles_model_keys() {
    let mut snap = SettingsSnapshot::empty();
    write_account_with_models(&mut snap, "alpha", &["m1"]);
    write_account_with_models(&mut snap, "beta", &["m2", "m3"]);
    snap.insert(
        &path(&["ui", "settings", "models", "selected"]),
        StoreValue::ModelKey(ModelKey {
            account: "alpha".into(),
            model_id: "m1".into(),
        }),
    );
    let writes = run(Action::HighlightModelsPrev, &snap);
    assert_modelkey_write(
        &writes,
        path(&["ui", "settings", "models", "selected"]),
        "beta",
        "m3",
    );
}

#[test]
fn next_starts_at_first_model_when_no_selection() {
    let mut snap = SettingsSnapshot::empty();
    write_account_with_models(&mut snap, "alpha", &["m1"]);
    write_account_with_models(&mut snap, "beta", &["m2"]);
    // No selection set.
    let writes = run(Action::HighlightModelsNext, &snap);
    assert_modelkey_write(
        &writes,
        path(&["ui", "settings", "models", "selected"]),
        "alpha",
        "m1",
    );
}
