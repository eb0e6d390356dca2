use ox_settings::path::Path;
use ox_settings::registry::{Area, AscendRule, RenderCtx, Renderer, RendererRegistry};
use ox_settings::renderers::overlay_new_account::OverlayNewAccountRenderer;
use ox_settings::renderers::{accounts_list, index, overlay_new_account, SettingsRenderer};
use ox_settings::snapshot::SettingsSnapshot;
use ox_settings::value::StoreValue;
use ox_settings::view::{FormValue, ViewNode};

fn path(parts: &[&str]) -> Path {
    Path { components: parts.iter().map(|s| s.to_string()).collect() }
}

/// Renders the overlay over the index.
fn render(snap: &SettingsSnapshot) -> ViewNode {
    let mut registry: RendererRegistry<SettingsRenderer> = RendererRegistry::new();
    index::register(&mut registry);
    overlay_new_account::register(&mut registry);
    let ctx = RenderCtx { area: Area { x: 0, y: 0, width: 80, height: 24 }, data: snap };
    registry.render(&path(&["settings", "accounts", "_new"]), &ctx)
}

fn assert_modal_with_name(view: &ViewNode, name: &str) {
    match view {
        ViewNode::Modal {
            foreground, dim, ..
        } => {
            assert!(*dim, "overlay must dim the background");
            match foreground.as_ref() {
                ViewNode::Form {
                    title,
                    rows,
                    focused,
                } => {
                    assert_eq!(title.as_deref(), Some("New account"));
                    assert_eq!(*focused, Some(0));
                    assert_eq!(rows.len(), 1);
                    assert_eq!(rows[0].label, "Name");
                    match &rows[0].value {
                        FormValue::Text { value, masked, .. } => {
                            assert_eq!(value, name);
                            assert!(!masked);
                        }
                        other => panic!("expected Text FormValue, got {other:?}"),
                    }
                }
                other => panic!("expected Form foreground, got {other:?}"),
            }
        }
        other => panic!("expected Modal, got {other:?}"),
    }
}

#[test]
fn overlay_new_account_empty_input() {
    let snap = SettingsSnapshot::empty();
    let view = render(&snap);
    assert_modal_with_name(&view, "");
}

#[test]
fn overlay_new_account_partial_name() {
    let mut snap = SettingsSnapshot::empty();
    snap.insert(
        &path(&["ui", "settings", "new_account", "name_input"]),
        StoreValue::String("per".to_string()),
    );
    let view = render(&snap);
    assert_modal_with_name(&view, "per");
}

#[test]
fn overlay_new_account_valid_name() {
    let mut snap = SettingsSnapshot::empty();
    snap.insert(
        &path(&["ui", "settings", "new_account", "name_input"]),
        StoreValue::String("personal".to_string()),
    );
    let view = render(&snap);
    assert_modal_with_name(&view, "personal");
}

#[test]
fn overlay_new_account_ascend_rule_is_nearest_registered() {
    assert_eq!(
        OverlayNewAccountRenderer.ascend_to(),
        AscendRule::NearestRegistered
    );
}

#[test]
fn overlay_stands_over_the_account_list() {
    let mut registry: RendererRegistry<SettingsRenderer> = RendererRegistry::new();
    accounts_list::register(&mut registry);
    overlay_new_account::register(&mut registry);
    let snap = SettingsSnapshot::empty();
    let ctx = RenderCtx { area: Area { x: 0, y: 0, width: 80, height: 24 }, data: &snap };
    match registry.render(&path(&["settings", "accounts", "_new"]), &ctx) {
        ViewNode::Modal { background, .. } => {
            assert_eq!(*background, registry.render(&path(&["settings", "accounts"]), &ctx))
        }
        other => panic!("expected Modal, got {other:?}"),
    }
}
