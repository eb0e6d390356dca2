use ox_settings::command_registry::CommandCtx;
use ox_settings::commands::compose::{
    accounts_compose_commit, accounts_compose_cycle, accounts_compose_delete_back,
    accounts_compose_insert_char, accounts_compose_open, commit_draft_under,
    cursor_is_in_compose_form, cycle_enum_options, cycle_str_options, focus_next, focus_prev,
    names_taken, protocol_default_version, protocol_options, turn, validate_compose_auth,
    validate_compose_draft, validate_compose_key, validate_compose_name,
    validate_compose_protocol, CycleDir, FIELD_ORDER,
};
use ox_settings::commands::compose_form::compose_form_view;
use ox_settings::commands::navigation::path_to_value;
use ox_settings::keys::{KeyChord, KeyCodeRepr, KeyModifierSet};
use ox_settings::path::Path;
use ox_settings::registry::RendererRegistry;
use ox_settings::renderers::SettingsRenderer;
use ox_settings::snapshot::SettingsSnapshot;
use ox_settings::types::{auth_schemes, AccountConfig, AuthScheme, ProviderConfig, ValidationErrors};
use ox_settings::value::{StoreValue, Write};
use ox_settings::view::FormValue;

fn path(parts: &[&str]) -> Path {
    Path { components: parts.iter().map(|s| s.to_string()).collect() }
}

fn text(s: &str) -> StoreValue {
    StoreValue::String(s.to_string())
}

fn draft(fields: &[(&str, &str)]) -> SettingsSnapshot {
    let mut snap = SettingsSnapshot::empty();
    for (field, value) in fields {
        snap.insert(&path(&["ui", "settings", "new_account", field]), text(value));
    }
    snap
}

fn full_draft(auth: &str) -> SettingsSnapshot {
    draft(&[
        ("name", " work "),
        ("protocol", "anthropic"),
        ("endpoint", " https://api.example.com "),
        ("auth", auth),
        ("key", " sk-1 "),
    ])
}

fn type_char(snap: &SettingsSnapshot, c: char) -> Vec<Write> {
    let registry: RendererRegistry<SettingsRenderer> = RendererRegistry::new();
    let chord = KeyChord { modifiers: KeyModifierSet::none(), code: KeyCodeRepr::Char(c) };
    accounts_compose_insert_char(snap, &CommandCtx { registry: &registry, last_keystroke: Some(chord) })
}

#[test]
fn focus_steps_undo_each_other_on_every_field() {
    for f in FIELD_ORDER {
        assert_eq!(focus_prev(focus_next(f)), f);
        assert_eq!(focus_next(focus_prev(f)), f);
    }
}

#[test]
fn turns_go_round() {
    assert_eq!(turn(3, Some(2), CycleDir::Forward), 0);
    assert_eq!(turn(3, Some(0), CycleDir::Back), 2);
    assert_eq!(turn(3, None, CycleDir::Forward), 0);
    assert_eq!(turn(3, None, CycleDir::Back), 2);
    for i in 0..4usize {
        let on = turn(4, Some(i), CycleDir::Forward);
        assert_eq!(turn(4, Some(on), CycleDir::Back), i);
    }
}

#[test]
fn options_are_cycled() {
    let options = ["a", "b", "c"];
    assert_eq!(cycle_str_options(&options, Some("b"), CycleDir::Forward), "c");
    assert_eq!(cycle_str_options(&options, Some("a"), CycleDir::Back), "c");
    assert_eq!(cycle_str_options(&options, Some("x"), CycleDir::Forward), "a");
    assert_eq!(cycle_str_options(&options, None, CycleDir::Back), "c");
    let schemes = auth_schemes();
    assert_eq!(
        cycle_enum_options(&schemes, Some(&AuthScheme::NoAuth), CycleDir::Forward),
        AuthScheme::XApiKey
    );
    assert_eq!(cycle_enum_options(&schemes, None, CycleDir::Back), AuthScheme::NoAuth);
}

#[test]
fn each_error_has_its_message() {
    assert_eq!(validate_compose_name("  ", &[]), Some("required".to_string()));
    assert_eq!(
        validate_compose_name(&"x".repeat(257), &[]),
        Some("too long (max 256 chars)".to_string())
    );
    assert_eq!(validate_compose_name(&"é".repeat(256), &[]), None);
    assert_eq!(
        validate_compose_name(" a ", &["a".to_string()]),
        Some("'a' already exists".to_string())
    );
    assert_eq!(validate_compose_protocol(None), Some("select a protocol".to_string()));
    assert_eq!(validate_compose_auth(None), Some("select an auth scheme".to_string()));
    assert_eq!(
        validate_compose_key(" ", Some(&AuthScheme::BearerToken)),
        Some("required for this auth scheme".to_string())
    );
}

#[test]
fn draft_errors_are_collected_field_by_field() {
    let errors = validate_compose_draft("a", None, "x", Some(&AuthScheme::XApiKey), "", &[]);
    assert_eq!(
        errors,
        ValidationErrors {
            name: None,
            protocol: Some("select a protocol".to_string()),
            endpoint: None,
            auth: None,
            key: Some("required for this auth scheme".to_string()),
        }
    );
    assert!(!errors.is_clean());
}

#[test]
fn opening_writes_errors_with_the_draft() {
    let writes = accounts_compose_open(&SettingsSnapshot::empty());
    assert_eq!(writes.len(), 8);
    match &writes[7].value {
        StoreValue::Errors(e) => assert!(!e.is_clean()),
        other => panic!("unexpected value: {other:?}"),
    }
}

#[test]
fn deleting_undoes_typing_in_the_draft() {
    let mut snap = draft(&[("focused_field", "endpoint"), ("endpoint", "http")]);
    let typed = type_char(&snap, 's');
    let w = typed.into_iter().next().unwrap();
    assert_eq!(w.value, text("https"));
    snap.insert(&w.path, w.value);
    let deleted = accounts_compose_delete_back(&snap);
    assert_eq!(deleted[0].path, path(&["ui", "settings", "new_account", "endpoint"]));
    assert_eq!(deleted[0].value, text("http"));
}

#[test]
fn committing_writes_everything_in_order() {
    let writes = accounts_compose_commit(&full_draft("x-api-key"));
    let paths: Vec<String> = writes.iter().map(|w| w.path.to_text()).collect();
    assert_eq!(
        paths,
        vec![
            "config/gate/accounts/work",
            "config/gate/providers/work",
            "secret/keys/work",
            "ui/settings/focused",
            "ui/settings/expanded",
            "ui/settings/new_account",
        ]
    );
    assert_eq!(
        writes[0].value,
        StoreValue::Account(AccountConfig {
            provider: "work".to_string(),
            display_name: Some("work".to_string()),
        })
    );
    assert_eq!(
        writes[1].value,
        StoreValue::Provider(ProviderConfig {
            dialect: "anthropic".to_string(),
            endpoint: "https://api.example.com".to_string(),
            version: "2023-06-01".to_string(),
            auth: Some(AuthScheme::XApiKey),
        })
    );
    assert_eq!(writes[2].value, text("sk-1"));
    assert_eq!(
        writes[4].value,
        StoreValue::Array(vec![text("settings/accounts"), text("settings/accounts/work")])
    );
    assert_eq!(writes[5].value, StoreValue::Null);
}

#[test]
fn no_key_is_written_where_none_is_sent() {
    let writes = accounts_compose_commit(&full_draft("none"));
    assert_eq!(writes.len(), 5);
    assert!(writes.iter().all(|w| w.path.components[0] != "secret"));
}

#[test]
fn committing_under_another_id_moves_every_record() {
    let writes = commit_draft_under(&full_draft("none"), "other");
    assert_eq!(writes[0].path, path(&["config", "gate", "accounts", "other"]));
    assert_eq!(writes[1].path, path(&["config", "gate", "providers", "other"]));
    assert!(commit_draft_under(&draft(&[("name", "a")]), "other").is_empty());
}

#[test]
fn expanded_rows_stay_sorted_on_commit() {
    let mut snap = full_draft("none");
    snap.insert(
        &path(&["ui", "settings", "expanded"]),
        StoreValue::Array(vec![text("settings/models"), text("settings/accounts")]),
    );
    let writes = accounts_compose_commit(&snap);
    assert_eq!(
        writes[3].value,
        StoreValue::Array(vec![
            text("settings/accounts"),
            text("settings/accounts/work"),
            text("settings/models"),
        ])
    );
}

#[test]
fn turning_a_text_field_does_nothing() {
    let snap = draft(&[("focused_field", "name"), ("name", "a")]);
    assert!(accounts_compose_cycle(&snap, CycleDir::Forward).is_empty());
}

#[test]
fn versions_are_pinned_for_one_dialect() {
    assert_eq!(protocol_default_version("anthropic"), "2023-06-01");
    assert_eq!(protocol_default_version("openai"), "");
    assert_eq!(protocol_options(), vec!["anthropic", "openai"]);
}

#[test]
fn compose_cursors_lie_below_the_form() {
    assert!(cursor_is_in_compose_form(&path(&["settings", "_compose_form", "key"])));
    assert!(cursor_is_in_compose_form(&path(&["settings", "_compose_form"])));
    assert!(!cursor_is_in_compose_form(&path(&["settings", "accounts"])));
}

#[test]
fn form_shows_the_draft() {
    let mut snap = draft(&[("name", "wörk"), ("auth", "bearer-token"), ("protocol", "groq")]);
    snap.insert(
        &path(&["ui", "settings", "focused"]),
        path_to_value(&path(&["settings", "_compose_form", "auth"])),
    );
    let form = compose_form_view(&snap);
    assert_eq!(form.focused, Some(3));
    assert_eq!(
        form.rows[0].value,
        FormValue::Text { value: "wörk".to_string(), cursor: 4, masked: false }
    );
    assert_eq!(
        form.rows[1].value,
        FormValue::Selector {
            options: vec!["anthropic".to_string(), "openai".to_string(), "groq".to_string()],
            current: 2,
        }
    );
    assert_eq!(
        form.rows[3].value,
        FormValue::Selector {
            options: vec!["x-api-key".to_string(), "bearer-token".to_string(), "none".to_string()],
            current: 1,
        }
    );
    assert_eq!(
        form.rows[4].value,
        FormValue::Text { value: String::new(), cursor: 0, masked: true }
    );
}

fn errors_written(w: &Write) -> &ValidationErrors {
    assert_eq!(w.path, path(&["ui", "settings", "new_account", "errors"]));
    match &w.value {
        StoreValue::Errors(e) => e,
        other => panic!("unexpected value: {other:?}"),
    }
}

#[test]
fn turning_the_protocol_clears_its_error() {
    let mut snap = draft(&[("focused_field", "protocol"), ("name", ""), ("endpoint", ""), ("key", "")]);
    for field in ["protocol", "auth"] {
        snap.insert(&path(&["ui", "settings", "new_account", field]), StoreValue::Null);
    }
    let writes = accounts_compose_cycle(&snap, CycleDir::Forward);
    assert_eq!(writes.len(), 2);
    assert_eq!(writes[0].path, path(&["ui", "settings", "new_account", "protocol"]));
    assert_eq!(writes[0].value, text("anthropic"));
    assert_eq!(
        errors_written(&writes[1]),
        &ValidationErrors {
            name: Some("required".to_string()),
            protocol: None,
            endpoint: Some("required".to_string()),
            auth: Some("select an auth scheme".to_string()),
            key: None,
        }
    );
}

#[test]
fn turning_the_scheme_updates_the_errors_of_scheme_and_key() {
    let mut snap = draft(&[("focused_field", "auth"), ("name", "a"), ("endpoint", "x")]);
    let first = accounts_compose_cycle(&snap, CycleDir::Forward);
    assert_eq!(first[0].value, text("x-api-key"));
    assert_eq!(errors_written(&first[1]).auth, None);
    assert_eq!(
        errors_written(&first[1]).key.as_deref(),
        Some("required for this auth scheme")
    );
    snap.insert(&path(&["ui", "settings", "new_account", "auth"]), text("x-api-key"));
    let second = accounts_compose_cycle(&snap, CycleDir::Back);
    assert_eq!(second[0].value, text("none"));
    assert_eq!(errors_written(&second[1]).key, None);
}

#[test]
fn errors_stay_current_through_every_keystroke() {
    let mut snap = draft(&[("focused_field", "name"), ("name", ""), ("endpoint", ""), ("key", "")]);
    let steps: Vec<(&str, Option<char>)> = vec![
        ("name", Some('a')),
        ("protocol", None),
        ("endpoint", Some('x')),
        ("auth", None),
        ("key", Some('k')),
    ];
    for (field, typed) in steps {
        snap.insert(&path(&["ui", "settings", "new_account", "focused_field"]), text(field));
        let writes = match typed {
            Some(c) => type_char(&snap, c),
            None => accounts_compose_cycle(&snap, CycleDir::Forward),
        };
        for w in writes {
            snap.insert(&w.path, w.value);
        }
        let errors = match snap.read(&path(&["ui", "settings", "new_account", "errors"])) {
            Some(StoreValue::Errors(e)) => e,
            other => panic!("unexpected value: {other:?}"),
        };
        let shown = compose_form_view(&snap);
        for (row, f) in shown.rows.iter().zip(FIELD_ORDER) {
            assert_eq!(row.error, errors.on(f));
        }
    }
    match snap.read(&path(&["ui", "settings", "new_account", "errors"])) {
        Some(StoreValue::Errors(e)) => assert!(e.is_clean()),
        other => panic!("unexpected value: {other:?}"),
    }
}

#[test]
fn a_bound_providers_name_is_taken() {
    let mut snap = full_draft("none");
    snap.insert(&path(&["ui", "settings", "new_account", "name"]), text("anthropic"));
    assert!(!accounts_compose_commit(&snap).is_empty());
    snap.insert(
        &path(&["config", "gate", "accounts", "personal"]),
        StoreValue::Account(AccountConfig::bound_to("anthropic".to_string())),
    );
    assert_eq!(names_taken(&snap), vec!["personal".to_string(), "anthropic".to_string()]);
    assert!(accounts_compose_commit(&snap).is_empty());
    snap.insert(&path(&["ui", "settings", "new_account", "name"]), text("anthropic2"));
    let writes = accounts_compose_commit(&snap);
    assert_eq!(writes[1].path, path(&["config", "gate", "providers", "anthropic2"]));
}
