use ox_settings::command_registry::CommandCtx;
use ox_settings::commands::edit::{
    begin_edit_account_key, begin_edit_model_field, cancel, commit, commit_account_field,
    commit_model_field, current_api_key, current_endpoint, current_model_override,
    cursor_is_at_edit, delete_back, enter_edit_mode, insert_char, place_of_model,
};
use ox_settings::commands::navigation::{path_from_value, path_to_value};
use ox_settings::commands::tree::expanded_set_to_value;
use ox_settings::keys::{KeyChord, KeyCodeRepr, KeyModifierSet};
use ox_settings::path::Path;
use ox_settings::registry::RendererRegistry;
use ox_settings::renderers::util::{models_to_value, read_models_or_empty};
use ox_settings::renderers::SettingsRenderer;
use ox_settings::snapshot::SettingsSnapshot;
use ox_settings::types::{
    AccountConfig, AccountField, BadgeSource, ModelField, ModelInfo, ModelInfoSource,
    SettingsIndexEntry,
};
use ox_settings::value::{StoreValue, Write};

fn path(parts: &[&str]) -> Path {
    Path { components: parts.iter().map(|s| s.to_string()).collect() }
}

fn text(s: &str) -> StoreValue {
    StoreValue::String(s.to_string())
}

fn models() -> Path {
    path(&["config", "gate", "accounts", "alpha", "models"])
}

fn store() -> SettingsSnapshot {
    let mut snap = SettingsSnapshot::empty();
    for id in ["accounts", "models"] {
        snap.insert(
            &path(&["settings", "index", "entries", id]),
            StoreValue::IndexEntry(SettingsIndexEntry {
                id: id.to_string(),
                label: id.to_string(),
                description: String::new(),
                target_cursor: path(&["settings", id]),
                badge: BadgeSource::Blank,
            }),
        );
    }
    snap.insert(
        &path(&["config", "gate", "accounts", "alpha"]),
        StoreValue::Account(AccountConfig::bound_to("corp".to_string())),
    );
    snap.insert(
        &models(),
        models_to_value(&vec![ModelInfo {
            id: "m1".to_string(),
            display_name: "M1".to_string(),
            max_context_size: Some(100),
            max_output_tokens: None,
            source: ModelInfoSource::Server,
        }]),
    );
    snap.insert(
        &path(&["ui", "settings", "expanded"]),
        expanded_set_to_value(
            &["settings/accounts", "settings/accounts/alpha", "settings/models", "settings/models/alpha/m1"]
                .iter()
                .map(|s| s.to_string())
                .collect(),
        ),
    );
    snap
}

fn apply(snap: &mut SettingsSnapshot, writes: Vec<Write>) {
    for w in writes {
        snap.insert(&w.path, w.value);
    }
}

fn focus(snap: &mut SettingsSnapshot, p: &[&str]) {
    snap.insert(&path(&["ui", "settings", "focused"]), path_to_value(&path(p)));
}

fn type_char(snap: &SettingsSnapshot, c: char) -> Vec<Write> {
    let registry: RendererRegistry<SettingsRenderer> = RendererRegistry::new();
    let chord = KeyChord { modifiers: KeyModifierSet::none(), code: KeyCodeRepr::Char(c) };
    insert_char(snap, &CommandCtx { registry: &registry, last_keystroke: Some(chord) })
}

#[test]
fn cancelling_returns_to_the_row() {
    let row = path(&["settings", "accounts", "alpha", "key"]);
    let mut snap = store();
    apply(&mut snap, enter_edit_mode(&row, "x".to_string()));
    assert!(cursor_is_at_edit(&snap));
    let writes = cancel(&snap);
    assert_eq!(writes.len(), 2);
    assert_eq!(path_from_value(&writes[0].value), Some(row));
    assert_eq!(writes[1].value, StoreValue::Null);
}

#[test]
fn saving_returns_to_the_row() {
    let mut snap = store();
    focus(&mut snap, &["settings", "accounts", "alpha", "key"]);
    let begun = begin_edit_account_key(&snap);
    apply(&mut snap, begun);
    let typed = type_char(&snap, 'k');
    apply(&mut snap, typed);
    let writes = commit(&snap);
    assert_eq!(writes.len(), 3);
    assert_eq!(writes[0].path, path(&["secret", "keys", "alpha"]));
    assert_eq!(writes[0].value, text("k"));
    assert_eq!(
        path_from_value(&writes[1].value),
        Some(path(&["settings", "accounts", "alpha", "key"]))
    );
    assert_eq!(writes[2].path, path(&["ui", "settings", "edit"]));
}

#[test]
fn deleting_undoes_typing_in_a_row() {
    let mut snap = store();
    apply(
        &mut snap,
        enter_edit_mode(&path(&["settings", "accounts", "alpha", "endpoint"]), "http".to_string()),
    );
    let typed = type_char(&snap, 's');
    assert_eq!(typed[0].value, text("https"));
    apply(&mut snap, typed);
    assert_eq!(delete_back(&snap)[0].value, text("http"));
}

#[test]
fn an_unchanged_figure_is_saved_as_it_was() {
    let mut snap = store();
    focus(&mut snap, &["settings", "models", "alpha", "m1", "max_context_size"]);
    let begun = begin_edit_model_field(&snap);
    assert_eq!(begun[1].value, text("100"));
    apply(&mut snap, begun);
    let saved = commit(&snap);
    apply(&mut snap, saved);
    let after = read_models_or_empty(&snap, &models());
    assert_eq!(after[0].max_context_size, Some(100));
    assert_eq!(after[0].max_output_tokens, None);
    assert_eq!(after[0].source, ModelInfoSource::UserOverride);
}

#[test]
fn figures_are_cleared_by_an_empty_text() {
    let writes =
        commit_model_field(&store(), "alpha", "m1", ModelField::ContextSizeOverride, "");
    let mut snap = store();
    apply(&mut snap, writes);
    assert_eq!(read_models_or_empty(&snap, &models())[0].max_context_size, None);
}

#[test]
fn bad_figures_and_unknown_models_are_not_saved() {
    let f = ModelField::OutputTokensOverride;
    assert!(commit_model_field(&store(), "alpha", "m1", f, "ten").is_empty());
    assert!(commit_model_field(&store(), "alpha", "m1", f, "4294967296").is_empty());
    assert!(commit_model_field(&store(), "alpha", "m2", f, "1").is_empty());
    assert!(commit_model_field(&store(), "beta", "m1", f, "1").is_empty());
    assert!(commit_model_field(&store(), "a b", "m1", f, "1").is_empty());
    assert_eq!(commit_model_field(&store(), "alpha", "m1", f, "1").len(), 1);
}

#[test]
fn endpoints_are_saved_in_the_bound_provider() {
    let writes = commit_account_field(&store(), "alpha", AccountField::Endpoint, "http://x");
    assert_eq!(writes.len(), 1);
    assert_eq!(writes[0].path, path(&["config", "gate", "providers", "corp"]));
    match &writes[0].value {
        StoreValue::Provider(p) => {
            assert_eq!(p.dialect, "corp");
            assert_eq!(p.endpoint, "http://x");
        }
        other => panic!("unexpected value: {other:?}"),
    }
    let orphan = commit_account_field(&store(), "zeta", AccountField::Endpoint, "y");
    assert_eq!(orphan[0].path, path(&["config", "gate", "providers", "anthropic"]));
    assert!(commit_account_field(&store(), "alpha", AccountField::Auth, "y").is_empty());
}

#[test]
fn current_values_are_looked_up() {
    let mut snap = store();
    assert_eq!(current_endpoint(&snap, "alpha"), None);
    assert_eq!(current_api_key(&snap, "alpha"), None);
    snap.insert(&path(&["secret", "keys", "alpha"]), text("sk"));
    assert_eq!(current_api_key(&snap, "alpha").as_deref(), Some("sk"));
    assert_eq!(
        current_model_override(&snap, "alpha", "m1", ModelField::ContextSizeOverride).as_deref(),
        Some("100")
    );
    assert_eq!(
        current_model_override(&snap, "alpha", "m1", ModelField::OutputTokensOverride).as_deref(),
        Some("")
    );
    assert_eq!(current_model_override(&snap, "alpha", "m9", ModelField::ContextSizeOverride), None);
    assert_eq!(place_of_model(&read_models_or_empty(&snap, &models()), "m1"), Some(0));
}
