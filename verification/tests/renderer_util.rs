use ox_settings::path::Path;
use ox_settings::renderers::util::{child_names_under, read_text, subtree_count};
use ox_settings::snapshot::SettingsSnapshot;
use ox_settings::value::StoreValue;

fn path(parts: &[&str]) -> Path {
    Path { components: parts.iter().map(|s| s.to_string()).collect() }
}

#[test]
fn child_names_under_finds_direct_children() {
    let mut snap = SettingsSnapshot::empty();
    snap.insert(
        &path(&["config", "gate", "accounts", "alpha", "provider"]),
        StoreValue::String("anthropic".into()),
    );
    snap.insert(
        &path(&["config", "gate", "accounts", "beta", "provider"]),
        StoreValue::String("openai".into()),
    );
    snap.insert(
        &path(&["config", "gate", "providers", "anthropic", "endpoint"]),
        StoreValue::String("https://api.anthropic.com".into()),
    );
    let names = child_names_under(&snap, "config/gate/accounts");
    assert_eq!(names, vec!["alpha".to_string(), "beta".to_string()]);
}

#[test]
fn subtree_count_zero_when_empty() {
    let snap = SettingsSnapshot::empty();
    assert_eq!(subtree_count(&snap, "config/gate/accounts"), 0);
}

#[test]
fn read_typed_returns_none_for_missing() {
    let snap = SettingsSnapshot::empty();
    let v: Option<String> = read_text(&snap, &path(&["missing"]));
    assert!(v.is_none());
}

#[test]
fn read_typed_decodes_simple_string() {
    let mut snap = SettingsSnapshot::empty();
    snap.insert(
        &path(&["ui", "global", "mode"]),
        StoreValue::String("normal".into()),
    );
    let v: Option<String> = read_text(&snap, &path(&["ui", "global", "mode"]));
    assert_eq!(v.as_deref(), Some("normal"));
}
