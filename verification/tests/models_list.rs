use ox_settings::path::Path;
use ox_settings::registry::{Area, AscendRule, RenderCtx, Renderer};
use ox_settings::renderers::models_list::ModelsListRenderer;
use ox_settings::renderers::util::models_to_value;
use ox_settings::snapshot::SettingsSnapshot;
use ox_settings::types::{
    AccountConfig, CatalogRefreshStatus, CompletionRole, ModelInfo, ModelInfoSource, ModelKey,
};
use ox_settings::value::StoreValue;
use ox_settings::view::ViewNode;

fn path(parts: &[&str]) -> Path {
    Path { components: parts.iter().map(|s| s.to_string()).collect() }
}

fn render(snap: &SettingsSnapshot) -> ViewNode {
    let ctx = RenderCtx { area: Area { x: 0, y: 0, width: 80, height: 24 }, data: snap };
    ModelsListRenderer.render(&ctx, ViewNode::Empty)
}

fn write_account_with_models(
    snap: &mut SettingsSnapshot,
    name: &str,
    models: Vec<ModelInfo>,
) {
    let comp = name;
    snap.insert(
        &path(&["config", "gate", "accounts", &comp]),
        StoreValue::Account(AccountConfig::bound_to(name.into())),
    );
    snap.insert(
        &path(&["config", "gate", "accounts", &comp, "models"]),
        models_to_value(&models),
    );
}

fn model(id: &str, display_name: &str, source: ModelInfoSource) -> ModelInfo {
    ModelInfo {
        id: id.into(),
        display_name: display_name.into(),
        max_context_size: Some(200_000),
        max_output_tokens: Some(8192),
        source,
    }
}

#[test]
fn models_list_empty() {
    let snap = SettingsSnapshot::empty();
    let view = render(&snap);
    let expected = ViewNode::List {
        title: Some("Models".into()),
        items: vec![],
        selected: None,
    };
    assert_eq!(view, expected);
}

#[test]
fn models_list_three_accounts() {
    let mut snap = SettingsSnapshot::empty();
    write_account_with_models(
        &mut snap,
        "alpha",
        vec![model("m1", "Model One", ModelInfoSource::Server)],
    );
    write_account_with_models(
        &mut snap,
        "beta",
        vec![
            model("m2", "Model Two", ModelInfoSource::Server),
            model("m3", "Model Three", ModelInfoSource::KnownTable),
        ],
    );
    write_account_with_models(
        &mut snap,
        "gamma",
        vec![model("m4", "Model Four", ModelInfoSource::UserOverride)],
    );

    let view = render(&snap);
    let items = match &view {
        ViewNode::List { items, .. } => items,
        other => panic!("expected List, got {other:?}"),
    };
    // Four rows in account-then-model order.
    assert_eq!(items.len(), 4);
    assert_eq!(items[0].primary, "alpha / Model One");
    assert_eq!(items[1].primary, "beta / Model Two");
    assert_eq!(items[2].primary, "beta / Model Three");
    assert_eq!(items[3].primary, "gamma / Model Four");
    // No primary set → no ★ in any badge.
    assert!(items.iter().all(|i| !i.badge.as_ref().unwrap().contains('★')));
}

#[test]
fn models_list_primary_tagged() {
    let mut snap = SettingsSnapshot::empty();
    write_account_with_models(
        &mut snap,
        "alpha",
        vec![
            model("m1", "Model One", ModelInfoSource::Server),
            model("m2", "Model Two", ModelInfoSource::Server),
        ],
    );
    snap.insert(
        &path(&["config", "completions", "primary"]),
        StoreValue::Role(CompletionRole {
            account: "alpha".into(),
            model_id: "m2".into(),
        }),
    );
    snap.insert(
        &path(&["ui", "settings", "models", "selected"]),
        StoreValue::ModelKey(ModelKey {
            account: "alpha".into(),
            model_id: "m2".into(),
        }),
    );

    let view = render(&snap);
    let (items, selected) = match &view {
        ViewNode::List { items, selected, .. } => (items, selected),
        other => panic!("expected List, got {other:?}"),
    };
    assert_eq!(items.len(), 2);
    assert_eq!(items[0].badge.as_deref(), Some("server"));
    assert_eq!(items[1].badge.as_deref(), Some("server ★"));
    assert_eq!(*selected, Some(1));
}

#[test]
fn models_list_unknown_token_fields() {
    // A model where token fields are None (max_context_size / max_output_tokens
    // both unknown) — the renderer surfaces it just like a fully-known model;
    // token introspection happens on the detail page, not the list.
    let mut snap = SettingsSnapshot::empty();
    write_account_with_models(
        &mut snap,
        "alpha",
        vec![ModelInfo {
            id: "m1".into(),
            display_name: "Model One".into(),
            max_context_size: None,
            max_output_tokens: None,
            source: ModelInfoSource::KnownTable,
        }],
    );

    let view = render(&snap);
    let items = match &view {
        ViewNode::List { items, .. } => items,
        other => panic!("expected List, got {other:?}"),
    };
    assert_eq!(items.len(), 1);
    assert_eq!(items[0].primary, "alpha / Model One");
    assert_eq!(items[0].secondary.as_deref(), Some("m1"));
    assert_eq!(items[0].badge.as_deref(), Some("known"));
}

#[test]
fn models_list_refresh_chrome() {
    let mut snap = SettingsSnapshot::empty();
    write_account_with_models(
        &mut snap,
        "alpha",
        vec![model("m1", "Model One", ModelInfoSource::Server)],
    );
    let comp = "alpha";
    snap.insert(
        &path(&["config", "gate", "accounts", &comp, "refresh_status"]),
        StoreValue::RefreshStatus(CatalogRefreshStatus::Refreshing {
            started_at_ms: 1_000,
        }),
    );

    let view = render(&snap);
    let items = match &view {
        ViewNode::List { items, .. } => items,
        other => panic!("expected List, got {other:?}"),
    };
    assert_eq!(items.len(), 1);
    assert!(
        items[0].badge.as_ref().unwrap().contains("refreshing"),
        "expected refreshing chrome, got {:?}",
        items[0].badge
    );
}

#[test]
fn models_list_ascend_rule_is_nearest_registered() {
    assert_eq!(ModelsListRenderer.ascend_to(), AscendRule::NearestRegistered);
}
