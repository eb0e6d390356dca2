use ox_settings::path::Path;
use ox_settings::registry::{Area, AscendRule, RenderCtx, Renderer};
use ox_settings::renderers::accounts_list::AccountsListRenderer;
use ox_settings::snapshot::SettingsSnapshot;
use ox_settings::types::{AccountConfig, ProviderConfig};
use ox_settings::value::StoreValue;
use ox_settings::view::{ListItem, ViewNode};

fn path(parts: &[&str]) -> Path {
    Path { components: parts.iter().map(|s| s.to_string()).collect() }
}

fn render(snap: &SettingsSnapshot) -> ViewNode {
    let ctx = RenderCtx { area: Area { x: 0, y: 0, width: 80, height: 24 }, data: snap };
    AccountsListRenderer.render(&ctx, ViewNode::Empty)
}

fn write_account(snap: &mut SettingsSnapshot, name: &str, provider: &str) {
    let comp = name;
    snap.insert(
        &path(&["config", "gate", "accounts", &comp]),
        StoreValue::Account(AccountConfig::bound_to(provider.to_string())),
    );
}

fn write_provider(snap: &mut SettingsSnapshot, name: &str, endpoint: &str) {
    let comp = name;
    let pc = ProviderConfig {
        dialect: name.to_string(),
        endpoint: endpoint.to_string(),
        version: String::new(),
        auth: None,
    };
    snap.insert(
        &path(&["config", "gate", "providers", &comp]),
        StoreValue::Provider(pc),
    );
}

fn write_key(snap: &mut SettingsSnapshot, name: &str, key: &str) {
    let comp = name;
    snap.insert(
        &path(&["secret", "keys", &comp]),
        StoreValue::String(key.to_string()),
    );
}

#[test]
fn accounts_list_empty() {
    let snap = SettingsSnapshot::empty();
    let view = render(&snap);
    let expected = ViewNode::List {
        title: Some("Accounts".into()),
        items: vec![],
        selected: None,
    };
    assert_eq!(view, expected);
}

#[test]
fn accounts_list_three_with_keys_and_selection() {
    let mut snap = SettingsSnapshot::empty();
    write_provider(&mut snap, "anthropic", "https://api.anthropic.com");
    write_provider(&mut snap, "openai", "https://api.openai.com");

    write_account(&mut snap, "alpha", "anthropic");
    write_account(&mut snap, "beta", "openai");
    write_account(&mut snap, "gamma", "anthropic");

    write_key(&mut snap, "alpha", "sk-1");
    // beta has no key
    write_key(&mut snap, "gamma", "sk-3");

    snap.insert(
        &path(&["ui", "settings", "accounts", "selected"]),
        StoreValue::String("beta".to_string()),
    );

    let view = render(&snap);
    let expected = ViewNode::List {
        title: Some("Accounts".into()),
        items: vec![
            item("alpha", "https://api.anthropic.com", "✓key"),
            item("beta", "https://api.openai.com", "–"),
            item("gamma", "https://api.anthropic.com", "✓key"),
        ],
        selected: Some(1),
    };
    assert_eq!(view, expected);
}

#[test]
fn accounts_list_no_selection() {
    let mut snap = SettingsSnapshot::empty();
    write_provider(&mut snap, "anthropic", "https://api.anthropic.com");
    write_account(&mut snap, "alpha", "anthropic");
    write_key(&mut snap, "alpha", "sk-1");

    let view = render(&snap);
    let expected = ViewNode::List {
        title: Some("Accounts".into()),
        items: vec![item("alpha", "https://api.anthropic.com", "✓key")],
        selected: None,
    };
    assert_eq!(view, expected);
}

#[test]
fn ascend_rule_is_fallback_to_settings_index() {
    assert_eq!(
        AccountsListRenderer.ascend_to(),
        AscendRule::Fallback(path(&["settings", "index"]))
    );
}

fn item(primary: &str, secondary: &str, badge: &str) -> ListItem {
    ListItem {
        primary: primary.to_string(),
        primary_spans: None,
        secondary: Some(secondary.to_string()),
        badge: Some(badge.to_string()),
        focus: None,
    }
}
