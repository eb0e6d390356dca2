use ox_settings::bootstrap::{
    detect_legacy_settings, legacy_in_table, log_legacy_settings_if_present,
    maybe_first_run_cursor, populate_index_entries,
};
use ox_settings::commands::navigation::path_to_value;
use ox_settings::path::Path;
use ox_settings::snapshot::SettingsSnapshot;
use ox_settings::types::BadgeSource;
use ox_settings::value::StoreValue;

fn path(parts: &[&str]) -> Path {
    Path { components: parts.iter().map(|s| s.to_string()).collect() }
}

#[test]
fn populate_writes_both_entries() {
    let writes = populate_index_entries();
    let mut snap = SettingsSnapshot::empty();
    for w in writes {
        snap.insert(&w.path, w.value);
    }
    match snap.read(&path(&["settings", "index", "entries", "accounts"])) {
        Some(StoreValue::IndexEntry(accounts)) => {
            assert_eq!(accounts.id, "accounts");
            assert_eq!(accounts.target_cursor, path(&["settings", "accounts"]));
            match &accounts.badge {
                BadgeSource::SubtreeCount(p) => {
                    assert_eq!(p, &path(&["config", "gate", "accounts"]))
                }
                other => panic!("unexpected badge: {:?}", other),
            }
        }
        other => panic!("unexpected entry: {:?}", other),
    }
    match snap.read(&path(&["settings", "index", "entries", "models"])) {
        Some(StoreValue::IndexEntry(models)) => {
            assert_eq!(models.id, "models");
            assert!(matches!(models.badge, BadgeSource::BootstrapReference));
        }
        other => panic!("unexpected entry: {:?}", other),
    }
}

#[test]
fn first_run_writes_cursor_when_accounts_empty() {
    let snap = SettingsSnapshot::empty();
    let w = maybe_first_run_cursor(&snap).expect("first run");
    assert_eq!(w.path, path(&["ui", "settings", "cursor"]));
    match &w.value {
        StoreValue::Array(items) => {
            let comps: Vec<&str> = items
                .iter()
                .filter_map(|v| match v {
                    StoreValue::String(s) => Some(s.as_str()),
                    _ => None,
                })
                .collect();
            assert_eq!(comps, vec!["settings", "accounts", "_new"]);
        }
        other => panic!("unexpected cursor shape: {:?}", other),
    }
}

#[test]
fn first_run_no_op_when_cursor_already_set() {
    let mut snap = SettingsSnapshot::empty();
    let preset = path(&["settings", "index"]);
    snap.insert(&path(&["ui", "settings", "cursor"]), path_to_value(&preset));
    assert!(maybe_first_run_cursor(&snap).is_none());
}

#[test]
fn first_run_no_op_when_accounts_present() {
    let mut snap = SettingsSnapshot::empty();
    snap.insert(
        &path(&["config", "gate", "accounts", "anthropic_personal", "provider"]),
        StoreValue::String("anthropic".to_string()),
    );
    assert!(maybe_first_run_cursor(&snap).is_none());
}

#[test]
fn detect_legacy_returns_empty_for_clean_config() {
    let content = "[gate.accounts.anthropic]\nprovider = \"anthropic\"\n";
    assert!(detect_legacy_settings(Some(content)).is_empty());
}

#[test]
fn detect_legacy_finds_gate_defaults() {
    let content = "[gate.defaults]\naccount = \"anthropic\"\n";
    assert_eq!(detect_legacy_settings(Some(content)), vec!["gate/defaults"]);
}

#[test]
fn detect_legacy_finds_provider_models() {
    let content = "[gate.providers.openai.models.gpt-4o]\nfoo = 1\n";
    assert_eq!(detect_legacy_settings(Some(content)), vec!["gate/providers/*/models"]);
}

#[test]
fn detect_legacy_returns_empty_when_file_missing() {
    assert!(detect_legacy_settings(None).is_empty());
}

#[test]
fn detect_legacy_finds_both_in_order() {
    let content = "[gate.providers.b.models.m]\nx = 1\n[gate.defaults]\n";
    assert_eq!(
        detect_legacy_settings(Some(content)),
        vec!["gate/defaults", "gate/providers/*/models"]
    );
}

#[test]
fn detect_legacy_ignores_what_is_no_table() {
    assert!(detect_legacy_settings(Some("gate = 3\n")).is_empty());
    assert!(detect_legacy_settings(Some("[gate]\nproviders = \"x\"\n")).is_empty());
    assert!(detect_legacy_settings(Some("[gate.providers.a]\ndialect = \"openai\"\n")).is_empty());
}

#[test]
fn detect_legacy_ignores_what_does_not_parse() {
    assert!(detect_legacy_settings(Some("[gate.defaults\n")).is_empty());
    assert!(detect_legacy_settings(Some("")).is_empty());
}

#[test]
fn legacy_table_is_read_as_parsed() {
    let table: toml::Table = "[gate.defaults]\n".parse().unwrap();
    assert_eq!(legacy_in_table(&table), vec!["gate/defaults"]);
    assert!(legacy_in_table(&toml::Table::new()).is_empty());
}

#[test]
fn legacy_settings_are_reported_only_when_present() {
    assert_eq!(log_legacy_settings_if_present(None), None);
    assert_eq!(log_legacy_settings_if_present(Some("[gate]\n")), None);
    assert_eq!(
        log_legacy_settings_if_present(Some("[gate.defaults]\n")),
        Some(vec!["gate/defaults"])
    );
}
