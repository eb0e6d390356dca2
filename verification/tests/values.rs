use ox_settings::binding_registry::{specificity_class, BindingEntry};
use ox_settings::commands::navigation::{path_from_value, path_to_value};
use ox_settings::commands::tree::read_expanded_set;
use ox_settings::keys::{cmd, KeyChord, KeyCodeRepr, KeyModifierSet, Mode, Screen};
use ox_settings::path::Path;
use ox_settings::renderers::util::{
    keys_to_value, models_to_value, read_bool, read_diagnostics, read_keys_or_empty, read_models,
    read_refresh_status, read_test_status, read_texts, read_u32, read_usize,
};
use ox_settings::snapshot::SettingsSnapshot;
use ox_settings::types::{
    auth_name, auth_named, field_named, AccountField, AccountTestStatus, AuthScheme, ModelInfo,
    ModelInfoSource, ModelKey, ProviderConfig, ValidationDiagnostics, ValidationErrors,
};
use ox_settings::value::{texts_from_value, texts_to_value, StoreValue};

fn path(parts: &[&str]) -> Path {
    Path { components: parts.iter().map(|s| s.to_string()).collect() }
}

fn at(value: StoreValue) -> SettingsSnapshot {
    let mut snap = SettingsSnapshot::empty();
    snap.insert(&path(&["x"]), value);
    snap
}

#[test]
fn texts_read_back() {
    let v = vec!["b".to_string(), "a".to_string(), "b".to_string()];
    assert_eq!(texts_from_value(&texts_to_value(&v)), Some(v.clone()));
    assert_eq!(texts_from_value(&StoreValue::Null), None);
    let mixed = StoreValue::Array(vec![StoreValue::Bool(true)]);
    assert_eq!(texts_from_value(&mixed), None);
    assert_eq!(read_texts(&at(texts_to_value(&v)), &path(&["x"])), Some(v));
    assert!(read_expanded_set(&SettingsSnapshot::empty()).is_empty());
}

#[test]
fn paths_read_back() {
    for p in [path(&[]), path(&["settings"]), path(&["settings", "accounts", "_new"])] {
        assert_eq!(path_from_value(&path_to_value(&p)), Some(p));
    }
    assert_eq!(path_from_value(&StoreValue::String("settings".to_string())), None);
    let bad = StoreValue::Array(vec![StoreValue::String("a b".to_string())]);
    assert_eq!(path_from_value(&bad), None);
}

#[test]
fn catalogs_and_keys_read_back() {
    let m = ModelInfo {
        id: "m".to_string(),
        display_name: "M".to_string(),
        max_context_size: None,
        max_output_tokens: Some(7),
        source: ModelInfoSource::UserOverride,
    };
    assert_eq!(read_models(&at(models_to_value(&vec![m.clone()])), &path(&["x"])), Some(vec![m]));
    assert_eq!(read_models(&SettingsSnapshot::empty(), &path(&["x"])), None);
    let k = ModelKey { account: "a".to_string(), model_id: "m".to_string() };
    let keys = vec![k.clone(), k];
    assert_eq!(read_keys_or_empty(&at(keys_to_value(&keys)), &path(&["x"])), keys);
    assert!(read_keys_or_empty(&at(StoreValue::Bool(true)), &path(&["x"])).is_empty());
}

#[test]
fn numbers_must_fit() {
    let x = path(&["x"]);
    assert_eq!(read_u32(&at(StoreValue::Integer(4_294_967_295)), &x), Some(u32::MAX));
    assert_eq!(read_u32(&at(StoreValue::Integer(4_294_967_296)), &x), None);
    assert_eq!(read_usize(&at(StoreValue::Integer(3)), &x), Some(3));
    assert_eq!(read_usize(&at(StoreValue::Integer(-1)), &x), None);
    assert_eq!(read_bool(&at(StoreValue::Integer(1)), &x), None);
    assert_eq!(read_bool(&at(StoreValue::Bool(false)), &x), Some(false));
}

#[test]
fn statuses_default_to_idle() {
    let x = path(&["x"]);
    assert_eq!(read_test_status(&SettingsSnapshot::empty(), &x), AccountTestStatus::Idle);
    assert_eq!(read_refresh_status(&SettingsSnapshot::empty(), &x), None);
    let mut errors = ValidationErrors::none();
    errors.auth = Some("bad".to_string());
    let d = ValidationDiagnostics { computed_at_ms: 5, field_errors: errors.clone() };
    assert_eq!(read_diagnostics(&at(StoreValue::Diagnostics(d)), &x), Some(errors.clone()));
    assert_eq!(errors.on(AccountField::Auth).as_deref(), Some("bad"));
    assert_eq!(errors.on(AccountField::Key), None);
}

#[test]
fn names_name_one_thing() {
    for a in [AuthScheme::XApiKey, AuthScheme::BearerToken, AuthScheme::NoAuth] {
        assert_eq!(auth_named(auth_name(a)), Some(a));
    }
    assert_eq!(auth_named("basic"), None);
    assert_eq!(field_named("endpoint"), Some(AccountField::Endpoint));
    assert_eq!(field_named("Endpoint"), None);
    assert!(!AuthScheme::NoAuth.requires_key());
    assert!(AuthScheme::BearerToken.requires_key());
}

#[test]
fn schemes_resolve_by_dialect() {
    let mut p = ProviderConfig::blank("anthropic");
    assert_eq!(p.resolved_auth(), AuthScheme::XApiKey);
    p.dialect = "groq".to_string();
    assert_eq!(p.resolved_auth(), AuthScheme::BearerToken);
    p.auth = Some(AuthScheme::NoAuth);
    assert_eq!(p.resolved_auth(), AuthScheme::NoAuth);
}

#[test]
fn entries_are_classed_by_what_they_ask_for() {
    let entry = |cursor_path: Option<Path>, mode: Option<Mode>| BindingEntry {
        screen: Screen::Settings,
        cursor_path,
        mode,
        key: KeyChord { modifiers: KeyModifierSet::none(), code: KeyCodeRepr::Enter },
        command_id: cmd("c"),
    };
    let classes: Vec<u8> = [
        entry(Some(path(&["a"])), Some(Mode::Normal)),
        entry(Some(path(&["a"])), None),
        entry(None, Some(Mode::Normal)),
        entry(None, None),
    ]
    .iter()
    .map(specificity_class)
    .collect();
    assert!(classes.windows(2).all(|w| w[0] < w[1]), "{classes:?}");
}
