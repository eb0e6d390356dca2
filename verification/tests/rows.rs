use ox_settings::commands::highlight::{step_index, Direction};
use ox_settings::commands::navigation::{path_from_value, path_to_value};
use ox_settings::commands::tree::{activate, collapse_or_ascend, expanded_set_to_value, step};
use ox_settings::path::Path;
use ox_settings::renderers::util::models_to_value;
use ox_settings::snapshot::SettingsSnapshot;
use ox_settings::types::{
    AccountConfig, AuthScheme, BadgeSource, CompletionRole, ModelInfo, ModelInfoSource,
    ProviderConfig, SettingsIndexEntry,
};
use ox_settings::value::StoreValue;
use ox_settings::visible_rows::{enumerate, position_of, row_at_path, RowKind};

fn path(parts: &[&str]) -> Path {
    Path { components: parts.iter().map(|s| s.to_string()).collect() }
}

fn text(s: &str) -> StoreValue {
    StoreValue::String(s.to_string())
}

fn entry(id: &str, badge: BadgeSource) -> StoreValue {
    StoreValue::IndexEntry(SettingsIndexEntry {
        id: id.to_string(),
        label: id.to_uppercase(),
        description: String::new(),
        target_cursor: path(&["settings", id]),
        badge,
    })
}

/// Two connections, one with a model, and the given rows expanded.
fn store(expanded: &[&str]) -> SettingsSnapshot {
    let mut snap = SettingsSnapshot::empty();
    snap.insert(
        &path(&["settings", "index", "entries", "accounts"]),
        entry("accounts", BadgeSource::SubtreeCount(path(&["config", "gate", "accounts"]))),
    );
    snap.insert(
        &path(&["settings", "index", "entries", "models"]),
        entry("models", BadgeSource::BootstrapReference),
    );
    snap.insert(
        &path(&["config", "gate", "accounts", "beta"]),
        StoreValue::Account(AccountConfig {
            provider: "corp".to_string(),
            display_name: Some("Beta Inc.".to_string()),
        }),
    );
    snap.insert(
        &path(&["config", "gate", "accounts", "alpha", "provider"]),
        text("openai"),
    );
    snap.insert(
        &path(&["config", "gate", "providers", "corp"]),
        StoreValue::Provider(ProviderConfig {
            dialect: "anthropic".to_string(),
            endpoint: "https://corp.test".to_string(),
            version: String::new(),
            auth: Some(AuthScheme::NoAuth),
        }),
    );
    snap.insert(&path(&["secret", "keys", "beta"]), text("sk"));
    snap.insert(
        &path(&["config", "gate", "accounts", "beta", "models"]),
        models_to_value(&vec![ModelInfo {
            id: "m-1".to_string(),
            display_name: "Model One".to_string(),
            max_context_size: Some(1000),
            max_output_tokens: None,
            source: ModelInfoSource::Server,
        }]),
    );
    let set: Vec<String> = expanded.iter().map(|s| s.to_string()).collect();
    snap.insert(&path(&["ui", "settings", "expanded"]), expanded_set_to_value(&set));
    snap
}

fn labels(snap: &SettingsSnapshot) -> Vec<String> {
    enumerate(snap).iter().map(|r| r.label.clone()).collect()
}

fn focus_row(snap: &mut SettingsSnapshot, p: &[&str]) {
    snap.insert(&path(&["ui", "settings", "focused_row"]), path_to_value(&path(p)));
}

#[test]
fn nothing_expanded_shows_entries_only() {
    let rows = enumerate(&store(&[]));
    assert_eq!(rows.len(), 2);
    assert!(rows.iter().all(|r| r.depth == 0 && r.expandable && !r.expanded));
    assert_eq!(rows[0].badge.as_deref(), Some("2"));
    assert_eq!(rows[1].badge, None);
    assert_eq!(rows[0].kind, RowKind::Entry { entry_id: "accounts".to_string() });
}

#[test]
fn bootstrap_model_is_the_badge() {
    let mut snap = store(&[]);
    snap.insert(
        &path(&["config", "gate", "completions", "bootstrap"]),
        StoreValue::Role(CompletionRole {
            account: "beta".to_string(),
            model_id: "m-1".to_string(),
        }),
    );
    assert_eq!(enumerate(&snap)[1].badge.as_deref(), Some("beta / m-1"));
}

#[test]
fn expanded_connections_show_their_fields() {
    let snap = store(&["settings/accounts", "settings/accounts/beta"]);
    assert_eq!(
        labels(&snap),
        vec![
            "ACCOUNTS",
            "alpha",
            "Beta Inc.",
            "Name: Beta Inc.",
            "Protocol: corp",
            "Endpoint: https://corp.test",
            "Auth: none",
            "Key: ••••",
            "MODELS",
        ]
    );
}

#[test]
fn unknown_fields_are_dashes() {
    let snap = store(&["settings/accounts", "settings/accounts/alpha"]);
    assert_eq!(
        labels(&snap)[2..7],
        ["Name: alpha", "Protocol: openai", "Endpoint: —", "Auth: —", "Key: —"]
    );
}

#[test]
fn expanded_models_show_their_figures() {
    let snap = store(&["settings/models", "settings/models/beta/m_1"]);
    let rows = enumerate(&snap);
    assert_eq!(
        labels(&snap),
        vec![
            "ACCOUNTS",
            "MODELS",
            "beta / Model One",
            "max_context_size: 1000",
            "max_output_tokens: —",
        ]
    );
    assert_eq!(rows[2].path, path(&["settings", "models", "beta", "m_1"]));
    assert_eq!(
        rows[2].kind,
        RowKind::Model { account: "beta".to_string(), model_id: "m-1".to_string() }
    );
    assert_eq!(rows[4].path, path(&["settings", "models", "beta", "m_1", "max_output_tokens"]));
}

#[test]
fn first_row_is_top_level_whatever_is_expanded() {
    for e in [vec![], vec!["settings/accounts"], vec!["settings/models", "settings/accounts"]] {
        assert_eq!(enumerate(&store(&e))[0].depth, 0);
    }
    assert!(enumerate(&SettingsSnapshot::empty()).is_empty());
}

#[test]
fn rows_are_found_by_path() {
    let snap = store(&["settings/accounts"]);
    let rows = enumerate(&snap);
    assert_eq!(position_of(&rows, &path(&["settings", "accounts", "beta"])), Some(2));
    assert_eq!(position_of(&rows, &path(&["settings"])), None);
    assert_eq!(row_at_path(&snap, &rows[1].path).as_ref(), Some(&rows[1]));
}

#[test]
fn row_steps_undo_each_other() {
    let mut snap = store(&["settings/accounts"]);
    for p in [vec!["settings", "accounts"], vec!["settings", "models"]] {
        focus_row(&mut snap, &p);
        for (there, back) in
            [(Direction::Next, Direction::Prev), (Direction::Prev, Direction::Next)]
        {
            let mut moved = store(&["settings/accounts"]);
            let w = step(&snap, there).into_iter().next().unwrap();
            moved.insert(&w.path, w.value);
            let home = step(&moved, back);
            assert_eq!(path_from_value(&home[0].value), Some(path(&p)));
        }
    }
}

#[test]
fn steps_stay_in_range() {
    for n in 1..5usize {
        for i in 0..n {
            assert_eq!(step_index(step_index(i, n, Direction::Next), n, Direction::Prev), i);
        }
    }
    assert_eq!(step_index(9, 3, Direction::Next), 0);
    assert_eq!(step_index(9, 3, Direction::Prev), 1);
}

#[test]
fn activating_twice_restores_the_rows() {
    let mut snap = store(&["settings/models"]);
    focus_row(&mut snap, &["settings", "accounts"]);
    let before = labels(&snap);
    for _ in 0..2 {
        let w = activate(&snap).into_iter().next().unwrap();
        snap.insert(&w.path, w.value);
    }
    assert_eq!(labels(&snap), before);
}

#[test]
fn nested_rows_go_up_to_their_entry() {
    let mut snap = store(&["settings/accounts", "settings/accounts/beta"]);
    focus_row(&mut snap, &["settings", "accounts", "beta", "key"]);
    let writes = collapse_or_ascend(&snap);
    assert_eq!(writes.len(), 1);
    assert_eq!(path_from_value(&writes[0].value), Some(path(&["settings", "accounts"])));
}

#[test]
fn expanded_connections_collapse_before_going_up() {
    let mut snap = store(&["settings/accounts", "settings/accounts/beta"]);
    focus_row(&mut snap, &["settings", "accounts", "beta"]);
    let writes = collapse_or_ascend(&snap);
    assert_eq!(writes[0].path, path(&["ui", "settings", "expanded"]));
    assert_eq!(writes[0].value, StoreValue::Array(vec![text("settings/accounts")]));
}
