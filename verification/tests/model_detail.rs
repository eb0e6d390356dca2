use ox_settings::path::Path;
use ox_settings::registry::{Area, AscendRule, RenderCtx, Renderer};
use ox_settings::renderers::model_detail::ModelDetailRenderer;
use ox_settings::renderers::util::models_to_value;
use ox_settings::snapshot::SettingsSnapshot;
use ox_settings::types::{ModelField, ModelInfo, ModelInfoSource, ModelKey};
use ox_settings::value::StoreValue;
use ox_settings::view::{FormValue, ViewNode};

fn path(parts: &[&str]) -> Path {
    Path { components: parts.iter().map(|s| s.to_string()).collect() }
}

fn render(snap: &SettingsSnapshot) -> ViewNode {
    let ctx = RenderCtx { area: Area { x: 0, y: 0, width: 80, height: 24 }, data: snap };
    ModelDetailRenderer.render(&ctx, ViewNode::Empty)
}

fn write_models(snap: &mut SettingsSnapshot, account: &str, models: Vec<ModelInfo>) {
    let comp = account;
    snap.insert(
        &path(&["config", "gate", "accounts", &comp, "models"]),
        models_to_value(&models),
    );
}

fn select(snap: &mut SettingsSnapshot, account: &str, model_id: &str) {
    snap.insert(
        &path(&["ui", "settings", "models", "selected"]),
        StoreValue::ModelKey(ModelKey {
            account: account.into(),
            model_id: model_id.into(),
        }),
    );
}

#[test]
fn model_detail_no_selection() {
    let snap = SettingsSnapshot::empty();
    let view = render(&snap);
    assert_eq!(view, ViewNode::text("No model selected. Press Esc to return."));
}

#[test]
fn model_detail_server_source() {
    let mut snap = SettingsSnapshot::empty();
    write_models(
        &mut snap,
        "alpha",
        vec![ModelInfo {
            id: "m1".into(),
            display_name: "Model One".into(),
            max_context_size: Some(200_000),
            max_output_tokens: Some(8192),
            source: ModelInfoSource::Server,
        }],
    );
    select(&mut snap, "alpha", "m1");

    let view = render(&snap);
    let rows = match &view {
        ViewNode::Form { rows, .. } => rows,
        other => panic!("expected Form, got {other:?}"),
    };
    assert_eq!(rows.len(), 4);
    assert_eq!(rows[0].value, FormValue::ReadOnly("m1".into()));
    assert_eq!(rows[1].value, FormValue::ReadOnly("Model One".into()));
    match &rows[2].value {
        FormValue::Text { value, .. } => assert_eq!(value, "200000"),
        other => panic!("expected Text, got {other:?}"),
    }
    assert_eq!(rows[2].hint.as_deref(), Some("[server]"));
    match &rows[3].value {
        FormValue::Text { value, .. } => assert_eq!(value, "8192"),
        other => panic!("expected Text, got {other:?}"),
    }
    assert_eq!(rows[3].hint.as_deref(), Some("[server]"));
}

#[test]
fn model_detail_known_table_source() {
    let mut snap = SettingsSnapshot::empty();
    write_models(
        &mut snap,
        "alpha",
        vec![ModelInfo {
            id: "m1".into(),
            display_name: "Model One".into(),
            max_context_size: Some(100_000),
            max_output_tokens: Some(4096),
            source: ModelInfoSource::KnownTable,
        }],
    );
    select(&mut snap, "alpha", "m1");

    let view = render(&snap);
    let rows = match &view {
        ViewNode::Form { rows, .. } => rows,
        other => panic!("expected Form, got {other:?}"),
    };
    assert_eq!(rows[2].hint.as_deref(), Some("[known]"));
    assert_eq!(rows[3].hint.as_deref(), Some("[known]"));
}

#[test]
fn model_detail_user_override() {
    let mut snap = SettingsSnapshot::empty();
    write_models(
        &mut snap,
        "alpha",
        vec![ModelInfo {
            id: "m1".into(),
            display_name: "Model One".into(),
            max_context_size: Some(50_000),
            max_output_tokens: Some(2048),
            source: ModelInfoSource::UserOverride,
        }],
    );
    select(&mut snap, "alpha", "m1");
    snap.insert(
        &path(&["ui", "settings", "model_detail", "field"]),
        StoreValue::ModelField(ModelField::ContextSizeOverride),
    );

    let view = render(&snap);
    let (rows, focused) = match &view {
        ViewNode::Form { rows, focused, .. } => (rows, focused),
        other => panic!("expected Form, got {other:?}"),
    };
    assert_eq!(rows[2].hint.as_deref(), Some("[override]"));
    assert_eq!(rows[3].hint.as_deref(), Some("[override]"));
    // ContextSizeOverride focuses row 2.
    assert_eq!(*focused, Some(2));
}

#[test]
fn model_detail_unknown_fields() {
    // A model where token fields are None — renderer surfaces "—".
    let mut snap = SettingsSnapshot::empty();
    write_models(
        &mut snap,
        "alpha",
        vec![ModelInfo {
            id: "m1".into(),
            display_name: "Model One".into(),
            max_context_size: None,
            max_output_tokens: None,
            source: ModelInfoSource::KnownTable,
        }],
    );
    select(&mut snap, "alpha", "m1");

    let view = render(&snap);
    let rows = match &view {
        ViewNode::Form { rows, .. } => rows,
        other => panic!("expected Form, got {other:?}"),
    };
    match &rows[2].value {
        FormValue::Text { value, .. } => assert_eq!(value, "—"),
        other => panic!("expected Text, got {other:?}"),
    }
    match &rows[3].value {
        FormValue::Text { value, .. } => assert_eq!(value, "—"),
        other => panic!("expected Text, got {other:?}"),
    }
}

#[test]
fn model_detail_ascend_rule_is_nearest_registered() {
    assert_eq!(ModelDetailRenderer.ascend_to(), AscendRule::NearestRegistered);
}
