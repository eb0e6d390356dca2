use ox_settings::commands::account_model::{
    account_request_path, account_test, accounts_confirm_delete, cursor_is_in_confirm_delete,
    cycle_index, field_account_step, field_model_step, focused_account, focused_model,
    models_toggle_default, place_of_key, read_selected_account, read_selected_model,
};
use ox_settings::commands::compose::{cycle_enum_options, CycleDir};
use ox_settings::commands::navigation::path_to_value;
use ox_settings::commands::selectors::{
    accounts_fork_provider, cycle_field, read_account_assembling_flat, read_bound_provider,
    read_provider_assembling_flat, resolve_protocol_options, selector_cycle_auth,
    selector_cycle_auth_back, selector_cycle_protocol, selector_cycle_protocol_back,
};
use ox_settings::commands::tree::expanded_set_to_value;
use ox_settings::path::Path;
use ox_settings::renderers::index::resolve_account_auth;
use ox_settings::renderers::util::keys_to_value;
use ox_settings::snapshot::SettingsSnapshot;
use ox_settings::types::{
    auth_schemes, AccountConfig, AuthScheme, BadgeSource, ModelField, ModelKey, ProviderConfig,
    SettingsIndexEntry,
};
use ox_settings::value::{StoreValue, Write};

fn path(parts: &[&str]) -> Path {
    Path { components: parts.iter().map(|s| s.to_string()).collect() }
}

fn text(s: &str) -> StoreValue {
    StoreValue::String(s.to_string())
}

fn key(account: &str, model_id: &str) -> ModelKey {
    ModelKey { account: account.to_string(), model_id: model_id.to_string() }
}

fn provider(dialect: &str, auth: Option<AuthScheme>) -> ProviderConfig {
    ProviderConfig {
        dialect: dialect.to_string(),
        endpoint: "http://corp".to_string(),
        version: "v1".to_string(),
        auth,
    }
}

/// The account `alpha`, selected and bound to `corp`.
fn store(p: ProviderConfig) -> SettingsSnapshot {
    let mut snap = SettingsSnapshot::empty();
    snap.insert(
        &path(&["config", "gate", "accounts", "alpha"]),
        StoreValue::Account(AccountConfig::bound_to("corp".to_string())),
    );
    snap.insert(&path(&["config", "gate", "providers", "corp"]), StoreValue::Provider(p));
    snap.insert(&path(&["ui", "settings", "accounts", "selected"]), text("alpha"));
    snap
}

fn written(writes: &[Write]) -> ProviderConfig {
    assert_eq!(writes.len(), 1);
    assert_eq!(writes[0].path, path(&["config", "gate", "providers", "corp"]));
    match &writes[0].value {
        StoreValue::Provider(p) => p.clone(),
        other => panic!("unexpected value: {other:?}"),
    }
}

#[test]
fn current_dialect_is_always_offered() {
    let snap = SettingsSnapshot::empty();
    for d in ["anthropic", "openai", "groq"] {
        assert!(resolve_protocol_options(&snap, d).contains(&d.to_string()));
    }
}

#[test]
fn preset_dialects_turn_there_and_back() {
    for d in ["anthropic", "openai"] {
        let there = written(&selector_cycle_protocol(&store(provider(d, None))));
        assert_ne!(there.dialect, d);
        let back = written(&selector_cycle_protocol_back(&store(there)));
        assert_eq!(back, provider(d, None));
    }
}

#[test]
fn schemes_turn_there_and_back() {
    for a in [AuthScheme::XApiKey, AuthScheme::BearerToken, AuthScheme::NoAuth] {
        let there = written(&selector_cycle_auth(&store(provider("openai", Some(a)))));
        let back = written(&selector_cycle_auth_back(&store(there)));
        assert_eq!(back, provider("openai", Some(a)));
    }
}

#[test]
fn unset_schemes_turn_from_the_dialects_own() {
    let p = written(&selector_cycle_auth(&store(provider("anthropic", None))));
    assert_eq!(p.auth, Some(AuthScheme::BearerToken));
    let q = written(&selector_cycle_auth(&store(provider("openai", None))));
    assert_eq!(q.auth, Some(AuthScheme::NoAuth));
}

#[test]
fn selectors_keep_the_other_fields() {
    let p = written(&selector_cycle_protocol(&store(provider("openai", Some(AuthScheme::NoAuth)))));
    assert_eq!(p.endpoint, "http://corp");
    assert_eq!(p.version, "v1");
    assert_eq!(p.auth, Some(AuthScheme::NoAuth));
}

#[test]
fn selectors_act_on_the_focused_row_only() {
    let mut snap = store(provider("openai", None));
    assert!(cycle_field(&snap, CycleDir::Forward).is_empty());
    snap.insert(
        &path(&["settings", "index", "entries", "accounts"]),
        StoreValue::IndexEntry(SettingsIndexEntry {
            id: "accounts".to_string(),
            label: "Accounts".to_string(),
            description: String::new(),
            target_cursor: path(&["settings", "accounts"]),
            badge: BadgeSource::Blank,
        }),
    );
    snap.insert(
        &path(&["ui", "settings", "expanded"]),
        expanded_set_to_value(&vec![
            "settings/accounts".to_string(),
            "settings/accounts/alpha".to_string(),
        ]),
    );
    let at = path(&["ui", "settings", "focused"]);
    snap.insert(&at, path_to_value(&path(&["settings", "accounts", "alpha", "protocol"])));
    assert_eq!(written(&cycle_field(&snap, CycleDir::Forward)).dialect, "anthropic");
    assert_eq!(focused_account(&snap).as_deref(), Some("alpha"));
    assert_eq!(focused_model(&snap), None);
    snap.insert(&at, path_to_value(&path(&["settings", "accounts", "alpha", "auth"])));
    assert_eq!(written(&cycle_field(&snap, CycleDir::Back)).auth, Some(AuthScheme::XApiKey));
    snap.insert(&at, path_to_value(&path(&["settings", "accounts", "alpha", "name"])));
    assert!(cycle_field(&snap, CycleDir::Back).is_empty());
}

#[test]
fn records_are_put_together_from_their_parts() {
    let mut snap = SettingsSnapshot::empty();
    assert_eq!(read_account_assembling_flat(&snap, "a"), None);
    assert_eq!(read_provider_assembling_flat(&snap, "p"), None);
    assert_eq!(read_bound_provider(&snap, "a"), "anthropic");
    snap.insert(&path(&["config", "gate", "accounts", "a", "provider"]), text("p"));
    snap.insert(&path(&["config", "gate", "providers", "p", "endpoint"]), text("http://p"));
    snap.insert(&path(&["config", "gate", "providers", "p", "auth"]), text("none"));
    assert_eq!(
        read_account_assembling_flat(&snap, "a"),
        Some(AccountConfig::bound_to("p".to_string()))
    );
    assert_eq!(
        read_provider_assembling_flat(&snap, "p"),
        Some(ProviderConfig {
            dialect: String::new(),
            endpoint: "http://p".to_string(),
            version: String::new(),
            auth: Some(AuthScheme::NoAuth),
        })
    );
    assert_eq!(read_bound_provider(&snap, "a"), "p");
}

#[test]
fn forking_copies_the_shared_provider() {
    let mut snap = store(provider("openai", None));
    assert!(accounts_fork_provider(&snap).is_empty());
    snap.insert(
        &path(&["config", "gate", "accounts", "beta"]),
        StoreValue::Account(AccountConfig::bound_to("corp".to_string())),
    );
    let writes = accounts_fork_provider(&snap);
    assert_eq!(writes.len(), 2);
    assert_eq!(writes[0].path, path(&["config", "gate", "providers", "alpha_fork"]));
    assert_eq!(writes[0].value, StoreValue::Provider(provider("openai", None)));
    assert_eq!(
        writes[1].value,
        StoreValue::Account(AccountConfig::bound_to("alpha_fork".to_string()))
    );
}

#[test]
fn toggling_twice_restores_the_set() {
    let place = path(&["config", "gate", "completions", "default_available"]);
    let mut snap = SettingsSnapshot::empty();
    snap.insert(
        &path(&["ui", "settings", "models", "selected"]),
        StoreValue::ModelKey(key("alpha", "m2")),
    );
    let before = keys_to_value(&vec![key("alpha", "m1")]);
    snap.insert(&place, keys_to_value(&vec![key("alpha", "m1")]));
    let once = models_toggle_default(&snap).into_iter().next().unwrap();
    assert_eq!(once.value, keys_to_value(&vec![key("alpha", "m1"), key("alpha", "m2")]));
    snap.insert(&place, once.value);
    assert_eq!(models_toggle_default(&snap)[0].value, before);
}

#[test]
fn keys_are_found_by_account_and_model() {
    let keys = vec![key("a", "m"), key("b", "m"), key("a", "n")];
    assert_eq!(place_of_key(&keys, &key("a", "n")), Some(2));
    assert_eq!(place_of_key(&keys, &key("b", "n")), None);
}

#[test]
fn ring_steps_wrap_both_ways() {
    assert_eq!(cycle_index(0, 5, -1), 4);
    assert_eq!(cycle_index(4, 5, 1), 0);
    assert_eq!(cycle_index(1, 5, 7), 3);
    assert_eq!(cycle_index(1, 5, -7), 4);
}

#[test]
fn detail_fields_start_at_their_first() {
    let snap = SettingsSnapshot::empty();
    assert_eq!(field_account_step(&snap, 1)[0].value, text("protocol"));
    assert_eq!(
        field_model_step(&snap, 1)[0].value,
        StoreValue::ModelField(ModelField::OutputTokensOverride)
    );
}

#[test]
fn confirmed_deletions_clear_record_and_question() {
    let mut snap = SettingsSnapshot::empty();
    assert!(accounts_confirm_delete(&snap).is_empty());
    let place = path(&["ui", "settings", "pending_delete"]);
    snap.insert(&place, text("alpha"));
    let writes = accounts_confirm_delete(&snap);
    let paths: Vec<String> = writes.iter().map(|w| w.path.to_text()).collect();
    assert_eq!(paths, vec!["config/gate/accounts/alpha", "ui/settings/pending_delete"]);
    assert!(writes.iter().all(|w| w.value == StoreValue::Null));
    snap.insert(&place, text("not a name"));
    assert_eq!(accounts_confirm_delete(&snap).len(), 1);
    assert!(cursor_is_in_confirm_delete(&path(&["settings", "_confirm_delete"])));
    assert!(!cursor_is_in_confirm_delete(&path(&["settings"])));
}

#[test]
fn requests_need_an_account() {
    assert_eq!(
        account_request_path("alpha", "test_now"),
        Some(path(&["config", "gate", "accounts", "alpha", "test_now"]))
    );
    assert_eq!(account_request_path("alpha", "test now"), None);
    assert!(account_test(&SettingsSnapshot::empty()).is_empty());
    assert_eq!(read_selected_account(&SettingsSnapshot::empty()), None);
    assert_eq!(read_selected_model(&SettingsSnapshot::empty()), None);
}

#[test]
fn turning_starts_from_the_scheme_shown() {
    for a in [None, Some(AuthScheme::BearerToken), Some(AuthScheme::NoAuth)] {
        let snap = store(provider("anthropic", a));
        let shown = resolve_account_auth(&snap, "alpha").unwrap();
        let turned = written(&selector_cycle_auth(&snap)).auth;
        assert_eq!(turned, Some(cycle_enum_options(&auth_schemes(), Some(&shown), CycleDir::Forward)));
    }
}
