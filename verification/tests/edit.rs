use ox_settings::command_registry::{Command, CommandCtx};
use ox_settings::commands::edit::{read_edit_state, TextInputHandler};
use ox_settings::commands::navigation::{path_from_value, path_to_value, read_path};
use ox_settings::commands::settings_command::{Action, SettingsCommand};
use ox_settings::commands::tree::expanded_set_to_value;
use ox_settings::keys::{KeyChord, KeyCodeRepr, KeyModifierSet};
use ox_settings::path::Path;
use ox_settings::registry::RendererRegistry;
use ox_settings::renderers::util::{models_to_value, read_provider, read_text};
use ox_settings::renderers::SettingsRenderer;
use ox_settings::snapshot::SettingsSnapshot;
use ox_settings::types::{
    AccountConfig, BadgeSource, ModelInfo, ModelInfoSource, ProviderConfig, SettingsIndexEntry,
};
use ox_settings::value::{StoreValue, Write};

fn path(parts: &[&str]) -> Path {
    Path { components: parts.iter().map(|s| s.to_string()).collect() }
}

fn run_with(action: Action, snap: &SettingsSnapshot, last_keystroke: Option<KeyChord>) -> Vec<Write> {
    let registry: RendererRegistry<SettingsRenderer> = RendererRegistry::new();
    let ctx = CommandCtx { registry: &registry, last_keystroke };
    SettingsCommand::new(action).run(snap, &ctx)
}

fn run(action: Action, snap: &SettingsSnapshot) -> Vec<Write> {
    run_with(action, snap, None)
}

fn run_with_key(action: Action, snap: &SettingsSnapshot, ch: char) -> Vec<Write> {
    run_with(
        action,
        snap,
        Some(KeyChord { modifiers: KeyModifierSet::none(), code: KeyCodeRepr::Char(ch) }),
    )
}

fn apply_writes(snap: &mut SettingsSnapshot, writes: Vec<Write>) {
    for w in writes {
        snap.insert(&w.path, w.value);
    }
}

fn read_focused_path(snap: &SettingsSnapshot) -> Option<Path> {
    read_path(snap, &path(&["ui", "settings", "focused"]))
}

fn with_ctrl() -> KeyModifierSet {
    let mut m = KeyModifierSet::none();
    m.ctrl = true;
    m
}

fn with_shift() -> KeyModifierSet {
    let mut m = KeyModifierSet::none();
    m.shift = true;
    m
}

fn chord(modifiers: KeyModifierSet, code: KeyCodeRepr) -> KeyChord {
    KeyChord { modifiers, code }
}

fn write_index_with_account(snap: &mut SettingsSnapshot, name: &str, provider: &str) {
    snap.insert(
        &path(&["settings", "index", "entries", "accounts"]),
        StoreValue::IndexEntry(SettingsIndexEntry {
            id: "accounts".to_string(),
            label: "Accounts".to_string(),
            description: String::new(),
            target_cursor: Path::parse("settings/accounts").unwrap(),
            badge: BadgeSource::Blank,
        }),
    );
    let comp = name;
    snap.insert(
        &path(&["config", "gate", "accounts", &comp]),
        StoreValue::Account(AccountConfig::bound_to(provider.to_string())),
    );
    snap.insert(
        &path(&["ui", "settings", "expanded"]),
        expanded_set_to_value(&vec![
            "settings/accounts".to_string(),
            format!("settings/accounts/{name}"),
        ]),
    );
}

/// Seed the new cursor-as-focus edit subtree shape:
/// `ui/settings/focused = settings/_edit` plus the edit data at
/// `ui/settings/edit/{target_path,buffer,cursor_saved}`.
fn seed_edit_active(snap: &mut SettingsSnapshot, target: &Path, buffer: &str) {
    snap.insert(
        &path(&["ui", "settings", "focused"]),
        path_to_value(&path(&["settings", "_edit"])),
    );
    snap.insert(
        &path(&["ui", "settings", "edit", "target_path"]),
        path_to_value(target),
    );
    snap.insert(
        &path(&["ui", "settings", "edit", "buffer"]),
        StoreValue::String(buffer.into()),
    );
    snap.insert(
        &path(&["ui", "settings", "edit", "cursor_saved"]),
        path_to_value(target),
    );
}

#[test]
fn begin_edit_endpoint_seeds_buffer_with_current_value() {
    let mut snap = SettingsSnapshot::empty();
    write_index_with_account(&mut snap, "alpha", "anthropic");
    let provider_comp = "anthropic";
    snap.insert(
        &path(&["config", "gate", "providers", &provider_comp]),
        StoreValue::Provider(ProviderConfig {
            dialect: "anthropic".into(),
            endpoint: "https://api.anthropic.com".into(),
            version: String::new(),
            auth: None,
        }),
    );
    let target = path(&["settings", "accounts", "alpha", "endpoint"]);
    snap.insert(
        &path(&["ui", "settings", "focused"]),
        path_to_value(&target),
    );

    let writes = run(Action::BeginEditAccountEndpoint, &snap);
    // target_path + buffer + cursor_saved + cursor (focused) = 4 writes
    assert_eq!(writes.len(), 4);
    assert_eq!(
        writes[0].path,
        path(&["ui", "settings", "edit", "target_path"])
    );
    assert_eq!(writes[1].path, path(&["ui", "settings", "edit", "buffer"]));
    match &writes[1].value {
        StoreValue::String(s) => {
            assert_eq!(s, "https://api.anthropic.com");
        }
        other => panic!("buffer is not a String: {other:?}"),
    }
    assert_eq!(
        writes[2].path,
        path(&["ui", "settings", "edit", "cursor_saved"])
    );
    // Final write moves the cursor to `settings/_edit` — the
    // dispatcher's "edit scope is engaged" condition.
    assert_eq!(writes[3].path, path(&["ui", "settings", "focused"]));
}

#[test]
fn edit_open_writes_cursor_to_edit_scope() {
    let mut snap = SettingsSnapshot::empty();
    write_index_with_account(&mut snap, "alpha", "anthropic");
    let provider_comp = "anthropic";
    snap.insert(
        &path(&["config", "gate", "providers", &provider_comp]),
        StoreValue::Provider(ProviderConfig {
            dialect: "anthropic".into(),
            endpoint: String::new(),
            version: String::new(),
            auth: None,
        }),
    );
    snap.insert(
        &path(&["ui", "settings", "focused"]),
        path_to_value(&path(&["settings", "accounts", "alpha", "endpoint"])),
    );

    let writes = run(Action::BeginEditAccountEndpoint, &snap);
    apply_writes(&mut snap, writes);
    let focused = read_focused_path(&snap).unwrap();
    assert_eq!(focused, path(&["settings", "_edit"]));
}

#[test]
fn edit_open_saves_target_path_buffer_and_cursor() {
    let mut snap = SettingsSnapshot::empty();
    write_index_with_account(&mut snap, "alpha", "anthropic");
    let provider_comp = "anthropic";
    snap.insert(
        &path(&["config", "gate", "providers", &provider_comp]),
        StoreValue::Provider(ProviderConfig {
            dialect: "anthropic".into(),
            endpoint: "seed".into(),
            version: String::new(),
            auth: None,
        }),
    );
    let target = path(&["settings", "accounts", "alpha", "endpoint"]);
    snap.insert(
        &path(&["ui", "settings", "focused"]),
        path_to_value(&target),
    );

    let writes = run(Action::BeginEditAccountEndpoint, &snap);
    apply_writes(&mut snap, writes);
    assert_eq!(
        read_path(&snap, &path(&["ui", "settings", "edit", "target_path"])).unwrap(),
        target
    );
    assert_eq!(
        read_text(&snap, &path(&["ui", "settings", "edit", "buffer"])).unwrap(),
        "seed",
    );
    assert_eq!(
        read_path(&snap,
            &path(&["ui", "settings", "edit", "cursor_saved"])
        )
        .unwrap(),
        target,
    );
}

#[test]
fn insert_char_appends_to_buffer() {
    let mut snap = SettingsSnapshot::empty();
    write_index_with_account(&mut snap, "alpha", "anthropic");
    seed_edit_active(
        &mut snap,
        &path(&["settings", "accounts", "alpha", "endpoint"]),
        "hello",
    );

    let writes = run_with_key(Action::InsertChar, &snap, '!');
    assert_eq!(writes.len(), 1);
    assert_eq!(writes[0].path, path(&["ui", "settings", "edit", "buffer"]));
    match &writes[0].value {
        StoreValue::String(s) => assert_eq!(s, "hello!"),
        other => panic!("unexpected: {other:?}"),
    }
}

#[test]
fn insert_char_rejects_non_digit_for_model_field() {
    let mut snap = SettingsSnapshot::empty();
    snap.insert(
        &path(&["settings", "index", "entries", "models"]),
        StoreValue::IndexEntry(SettingsIndexEntry {
            id: "models".to_string(),
            label: "Models".to_string(),
            description: String::new(),
            target_cursor: Path::parse("settings/models").unwrap(),
            badge: BadgeSource::Blank,
        }),
    );
    let comp = "alpha";
    snap.insert(
        &path(&["config", "gate", "accounts", &comp, "provider"]),
        StoreValue::String("alpha".into()),
    );
    snap.insert(
        &path(&["config", "gate", "accounts", &comp, "models"]),
        models_to_value(&vec![ModelInfo {
            id: "m1".into(),
            display_name: "m1".into(),
            max_context_size: Some(100),
            max_output_tokens: None,
            source: ModelInfoSource::Server,
        }]),
    );
    snap.insert(
        &path(&["ui", "settings", "expanded"]),
        expanded_set_to_value(&vec![
            "settings/models".to_string(),
            "settings/models/alpha/m1".to_string(),
        ]),
    );
    let field_path = path(&["settings", "models", "alpha", "m1", "max_context_size"]);
    seed_edit_active(&mut snap, &field_path, "100");

    let writes = run_with_key(Action::InsertChar, &snap, 'x');
    assert!(
        writes.is_empty(),
        "non-digit must be rejected for model fields"
    );

    let writes = run_with_key(Action::InsertChar, &snap, '5');
    assert_eq!(writes.len(), 1);
    match &writes[0].value {
        StoreValue::String(s) => assert_eq!(s, "1005"),
        other => panic!("unexpected: {other:?}"),
    }
}

#[test]
fn delete_back_pops_from_buffer() {
    let mut snap = SettingsSnapshot::empty();
    snap.insert(
        &path(&["ui", "settings", "edit", "buffer"]),
        StoreValue::String("hello".into()),
    );
    let writes = run(Action::DeleteBack, &snap);
    assert_eq!(writes.len(), 1);
    assert_eq!(writes[0].path, path(&["ui", "settings", "edit", "buffer"]));
    match &writes[0].value {
        StoreValue::String(s) => assert_eq!(s, "hell"),
        other => panic!("unexpected: {other:?}"),
    }
}

#[test]
fn delete_back_on_empty_buffer_is_inert() {
    let mut snap = SettingsSnapshot::empty();
    snap.insert(
        &path(&["ui", "settings", "edit", "buffer"]),
        StoreValue::String(String::new()),
    );
    let writes = run(Action::DeleteBack, &snap);
    assert!(writes.is_empty());
}

#[test]
fn edit_cancel_restores_saved_cursor() {
    let mut snap = SettingsSnapshot::empty();
    let target = path(&["settings", "accounts", "alpha", "endpoint"]);
    seed_edit_active(&mut snap, &target, "in-progress");

    let writes = run(Action::Cancel, &snap);
    // cursor restore + subtree cascade-null = 2 writes
    assert_eq!(writes.len(), 2);
    assert_eq!(writes[0].path, path(&["ui", "settings", "focused"]));
    // Restored cursor matches the saved value (= target for edit).
    assert_eq!(path_from_value(&writes[0].value).unwrap(), target);
    assert_eq!(writes[1].path, path(&["ui", "settings", "edit"]));
    match &writes[1].value {
        StoreValue::Null => {}
        other => panic!("expected Null cascade clear, got {other:?}"),
    }
}

#[test]
fn edit_commit_writes_buffer_to_target_path_and_restores_cursor() {
    let mut snap = SettingsSnapshot::empty();
    write_index_with_account(&mut snap, "alpha", "anthropic");
    let provider_comp = "anthropic";
    snap.insert(
        &path(&["config", "gate", "providers", &provider_comp]),
        StoreValue::Provider(ProviderConfig {
            dialect: "anthropic".into(),
            endpoint: "old".into(),
            version: String::new(),
            auth: None,
        }),
    );
    let target = path(&["settings", "accounts", "alpha", "endpoint"]);
    seed_edit_active(&mut snap, &target, "https://new.example");

    let writes = run(Action::Commit, &snap);
    // ProviderConfig write + cursor restore + subtree cascade-null = 3 writes
    assert_eq!(writes.len(), 3);
    assert_eq!(
        writes[0].path,
        path(&["config", "gate", "providers", &provider_comp])
    );
    // Apply and verify the endpoint changed.
    apply_writes(&mut snap, writes);
    let provider =
        read_provider(&snap, &path(&["config", "gate", "providers", "anthropic"])).unwrap();
    assert_eq!(provider.endpoint, "https://new.example");
    // Cursor restored to the target field row.
    assert_eq!(read_focused_path(&snap).unwrap(), target);
    // Edit subtree cleared.
    assert!(read_edit_state(&snap).is_none());
}

#[test]
fn commit_with_no_target_path_falls_back_to_cancel() {
    // Pathological: cursor at _edit but no target_path. Commit
    // falls back to cancel — restore from cursor_saved (or
    // settings/accounts) and cascade-clear.
    let mut snap = SettingsSnapshot::empty();
    snap.insert(
        &path(&["ui", "settings", "focused"]),
        path_to_value(&path(&["settings", "_edit"])),
    );
    let writes = run(Action::Commit, &snap);
    // No data write; cursor-restore + cascade-null = 2 writes
    assert_eq!(writes.len(), 2);
    assert_eq!(writes[0].path, path(&["ui", "settings", "focused"]));
    assert_eq!(writes[1].path, path(&["ui", "settings", "edit"]));
}

#[test]
fn read_edit_state_reflects_active_edit() {
    let mut snap = SettingsSnapshot::empty();
    let field_path = path(&["settings", "accounts", "alpha", "endpoint"]);
    seed_edit_active(&mut snap, &field_path, "typing");
    let state = read_edit_state(&snap).unwrap();
    assert_eq!(state.field_path, field_path);
    assert_eq!(state.buffer, "typing");
}

#[test]
fn read_edit_state_returns_none_when_cursor_not_at_edit() {
    let mut snap = SettingsSnapshot::empty();
    // Cursor anywhere but `settings/_edit` means edit mode is not
    // active — the cursor IS the discriminator.
    snap.insert(
        &path(&["ui", "settings", "focused"]),
        path_to_value(&path(&["settings", "accounts"])),
    );
    assert!(read_edit_state(&snap).is_none());
}

// -----------------------------------------------------------------
// TextInputHandler — opaque-tier replacement for the 96 discrete
// printable-ASCII bindings under `settings/_edit`.
// -----------------------------------------------------------------

fn handler() -> TextInputHandler {
    TextInputHandler::new(
        path(&["ui", "settings", "edit", "buffer"]),
        path(&["ui", "settings", "edit", "target_path"]),
    )
}

#[test]
fn text_input_handler_claims_printable_and_appends_to_buffer() {
    // Same seeding shape as `insert_char_appends_to_buffer`: an
    // account text field is the target, so the handler accepts any
    // printable char (no digit-only restriction).
    let mut snap = SettingsSnapshot::empty();
    write_index_with_account(&mut snap, "alpha", "anthropic");
    seed_edit_active(
        &mut snap,
        &path(&["settings", "accounts", "alpha", "endpoint"]),
        "hello",
    );

    let key = chord(KeyModifierSet::none(), KeyCodeRepr::Char('!'));
    let writes = handler()
        .handle(&snap, &key)
        .expect("printable chord must be claimed");

    // Exactly the same write shape as EditInsertChar emits today —
    // one buffer write with the appended char.
    assert_eq!(writes.len(), 1);
    assert_eq!(writes[0].path, path(&["ui", "settings", "edit", "buffer"]));
    match &writes[0].value {
        StoreValue::String(s) => assert_eq!(s, "hello!"),
        other => panic!("unexpected record: {other:?}"),
    }
}

#[test]
fn text_input_handler_passes_on_non_printable() {
    let snap = SettingsSnapshot::empty();
    let key = chord(KeyModifierSet::none(), KeyCodeRepr::Enter);

    let result = handler().handle(&snap, &key);
    assert!(
        result.is_none(),
        "Enter is a lifecycle key — handler must pass so the discrete `edit.commit` binding fires"
    );
}

#[test]
fn text_input_handler_passes_on_ctrl_modifier() {
    let snap = SettingsSnapshot::empty();
    let mods = with_ctrl();
    let key = chord(mods, KeyCodeRepr::Char('a'));

    let result = handler().handle(&snap, &key);
    assert!(
        result.is_none(),
        "Ctrl+letter is reserved for chord commands — must not be claimed as text input"
    );
}

#[test]
fn text_input_handler_claims_shift_only_uppercase_letter() {
    // Terminals report uppercase letters as shift+lowercase char.
    // The handler must claim these so capital letters reach the
    // buffer instead of falling through to outer-scope bindings.

    let mut snap = SettingsSnapshot::empty();
    write_index_with_account(&mut snap, "alpha", "anthropic");
    seed_edit_active(
        &mut snap,
        &path(&["settings", "accounts", "alpha", "endpoint"]),
        "ab",
    );

    let mods = with_shift();
    let key = chord(mods, KeyCodeRepr::Char('Z'));

    let writes = handler()
        .handle(&snap, &key)
        .expect("shift+letter must be claimed");
    assert_eq!(writes.len(), 1);
    match &writes[0].value {
        StoreValue::String(s) => assert_eq!(s, "abZ"),
        other => panic!("unexpected record: {other:?}"),
    }
}
