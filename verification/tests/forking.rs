use ox_settings::commands::account_model::models_toggle_default;
use ox_settings::commands::fork::fork_name;
use ox_settings::commands::selectors::{accounts_fork_provider, read_bound_provider};
use ox_settings::path::Path;
use ox_settings::renderers::util::keys_to_value;
use ox_settings::snapshot::SettingsSnapshot;
use ox_settings::types::{AccountConfig, ModelKey, ProviderConfig};
use ox_settings::value::StoreValue;

fn path(parts: &[&str]) -> Path {
    Path { components: parts.iter().map(|s| s.to_string()).collect() }
}

fn provider(endpoint: &str) -> StoreValue {
    StoreValue::Provider(ProviderConfig {
        dialect: "openai".to_string(),
        endpoint: endpoint.to_string(),
        version: "v1".to_string(),
        auth: None,
    })
}

fn bound_to(name: &str) -> StoreValue {
    StoreValue::Account(AccountConfig::bound_to(name.to_string()))
}

/// The accounts `personal`, which is selected, and `work`, both bound to
/// `shared`.
fn sharing(shared: &str) -> SettingsSnapshot {
    let mut snap = SettingsSnapshot::empty();
    snap.insert(&path(&["config", "gate", "accounts", "personal"]), bound_to(shared));
    snap.insert(&path(&["config", "gate", "accounts", "work"]), bound_to(shared));
    snap.insert(&path(&["config", "gate", "providers", shared]), provider("http://shared"));
    snap.insert(
        &path(&["ui", "settings", "accounts", "selected"]),
        StoreValue::String("personal".to_string()),
    );
    snap
}

fn assert_forks_to(snap: &SettingsSnapshot, name: &str) {
    let writes = accounts_fork_provider(snap);
    assert_eq!(writes.len(), 2);
    assert_eq!(writes[0].path, path(&["config", "gate", "providers", name]));
    assert_eq!(writes[0].value, provider("http://shared"));
    assert_eq!(writes[1].path, path(&["config", "gate", "accounts", "personal"]));
    assert_eq!(writes[1].value, bound_to(name));
}

#[test]
fn a_fork_keeps_the_plain_name_where_it_is_free() {
    assert_forks_to(&sharing("corp"), "personal_fork");
}

#[test]
fn a_fork_leaves_a_stored_provider_alone() {
    let mut snap = sharing("corp");
    snap.insert(
        &path(&["config", "gate", "providers", "personal_fork"]),
        provider("http://earlier"),
    );
    assert_forks_to(&snap, "personal_fork_1");
    snap.insert(
        &path(&["config", "gate", "providers", "personal_fork_1"]),
        provider("http://later"),
    );
    assert_forks_to(&snap, "personal_fork_2");
}

#[test]
fn a_fork_leaves_a_provider_stored_field_by_field_alone() {
    let mut snap = sharing("corp");
    snap.insert(
        &path(&["config", "gate", "providers", "personal_fork", "endpoint"]),
        StoreValue::String("http://earlier".to_string()),
    );
    assert_forks_to(&snap, "personal_fork_1");
}

#[test]
fn a_fork_takes_no_name_an_account_is_bound_to() {
    let mut snap = sharing("corp");
    snap.insert(&path(&["config", "gate", "accounts", "third"]), bound_to("personal_fork"));
    snap.insert(
        &path(&["config", "gate", "accounts", "fourth", "provider"]),
        StoreValue::String("personal_fork_1".to_string()),
    );
    assert_forks_to(&snap, "personal_fork_2");
}

#[test]
fn a_shared_fork_is_forked_to_another_name() {
    assert_forks_to(&sharing("personal_fork"), "personal_fork_1");
}

#[test]
fn forking_parts_the_two_accounts() {
    let mut snap = sharing("personal_fork");
    for w in accounts_fork_provider(&snap) {
        snap.insert(&w.path, w.value);
    }
    assert_eq!(read_bound_provider(&snap, "personal"), "personal_fork_1");
    assert_eq!(read_bound_provider(&snap, "work"), "personal_fork");
    assert!(accounts_fork_provider(&snap).is_empty());
}

#[test]
fn fork_names_count_past_nine() {
    let mut snap = SettingsSnapshot::empty();
    assert_eq!(fork_name(&snap, "a"), "a_fork");
    assert_eq!(fork_name(&snap, "not a name"), "not_a_name_fork");
    for name in ["a_fork".to_string()].into_iter().chain((1..10).map(|k| format!("a_fork_{k}"))) {
        snap.insert(&path(&["config", "gate", "providers", &name]), provider("http://a"));
    }
    assert_eq!(fork_name(&snap, "a"), "a_fork_10");
    assert_eq!(fork_name(&snap, "b"), "b_fork");
}

#[test]
fn toggling_again_clears_a_set_that_was_empty() {
    let place = path(&["config", "gate", "completions", "default_available"]);
    let key = || ModelKey { account: "alpha".to_string(), model_id: "m1".to_string() };
    let mut snap = SettingsSnapshot::empty();
    assert!(models_toggle_default(&snap).is_empty());
    snap.insert(&path(&["ui", "settings", "models", "selected"]), StoreValue::ModelKey(key()));
    let once = models_toggle_default(&snap).into_iter().next().unwrap();
    assert_eq!(once.path, place);
    assert_eq!(once.value, keys_to_value(&vec![key()]));
    snap.insert(&place, once.value);
    let twice = models_toggle_default(&snap).into_iter().next().unwrap();
    assert_eq!(twice.path, place);
    assert_eq!(twice.value, StoreValue::Null);
    snap.insert(&place, twice.value);
    assert_eq!(models_toggle_default(&snap)[0].value, keys_to_value(&vec![key()]));
}
