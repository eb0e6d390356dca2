use ox_settings::commands::compose::{accounts_compose_commit, validate_compose_name};
use ox_settings::naming::id_for_name;
use ox_settings::path::{valid_component, Path};
use ox_settings::snapshot::SettingsSnapshot;
use ox_settings::value::StoreValue;

fn path(parts: &[&str]) -> Path {
    Path { components: parts.iter().map(|s| s.to_string()).collect() }
}

fn draft(name: &str) -> SettingsSnapshot {
    let mut snap = SettingsSnapshot::empty();
    for (field, value) in
        [("name", name), ("protocol", "openai"), ("endpoint", "http://x"), ("auth", "none"), ("key", "")]
    {
        snap.insert(
            &path(&["ui", "settings", "new_account", field]),
            StoreValue::String(value.to_string()),
        );
    }
    snap
}

#[test]
fn identifiers_are_stored_as_they_are() {
    for name in ["personal", "café", "foo__bar", "_private"] {
        assert_eq!(id_for_name(name), name);
    }
}

#[test]
fn other_names_are_encoded() {
    assert_eq!(id_for_name("hello world"), "_N_helloworld__fa0b");
    assert_eq!(id_for_name("foo-bar"), "_N_foobar__da1d");
    assert_eq!(id_for_name(""), "");
}

#[test]
fn encoded_names_stay() {
    assert_eq!(id_for_name("_N_helloworld__fa0b"), "_N_helloworld__fa0b");
    assert_eq!(id_for_name("_N_helloworld__FA0B"), "_N_helloworld__FA0B");
}

#[test]
fn texts_that_only_look_encoded_are_encoded() {
    let id = id_for_name("_N_test");
    assert_ne!(id, "_N_test");
    assert_eq!(id, namecode::encode("_N_test"));
}

#[test]
fn encoded_duplicates_are_found() {
    let taken = vec!["_N_helloworld__fa0b".to_string()];
    assert_eq!(
        validate_compose_name(" hello world ", &taken),
        Some("'hello world' already exists".to_string())
    );
    assert_eq!(validate_compose_name("hello worlds", &taken), None);
}

#[test]
fn names_without_a_path_component_are_not_committed() {
    assert!(!accounts_compose_commit(&draft("ok")).is_empty());
    assert!(accounts_compose_commit(&draft("_")).is_empty());
    assert!(accounts_compose_commit(&draft("_N_a b")).is_empty());
}

#[test]
fn encoded_names_are_committed() {
    for name in ["my-personal", "hello world", "4o", "_N_test", "名 前"] {
        let writes = accounts_compose_commit(&draft(name));
        assert_eq!(writes.len(), 5, "{name:?}");
        assert!(valid_component(&writes[0].path.components[3]), "{name:?}");
    }
}
