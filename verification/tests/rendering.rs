use ox_settings::commands::edit::EditState;
use ox_settings::commands::navigation::path_to_value;
use ox_settings::path::Path;
use ox_settings::registry::{Area, AscendRule, RenderCtx, Renderer, RendererRegistry};
use ox_settings::renderers::account_detail::status_block;
use ox_settings::renderers::index::{
    decorate_row_label, form_height, partition_rows_by_section, read_dirty_indicator,
    section_height, selector_carousel_spans, IndexRenderer,
};
use ox_settings::renderers::model_detail::render_token_field;
use ox_settings::renderers::models_list::{build_badge, refresh_chrome_tag, source_tag};
use ox_settings::renderers::overlay_new_account::text_cursor;
use ox_settings::renderers::{register_all, SettingsRenderer};
use ox_settings::snapshot::SettingsSnapshot;
use ox_settings::types::{
    AccountField, AccountTestStatus, AuthScheme, CatalogRefreshStatus, CompletionRole, ModelField,
    ModelInfo, ModelInfoSource,
};
use ox_settings::value::StoreValue;
use ox_settings::view::{
    plain_item, Color, FormLayout, Sizing, ViewNode,
};
use ox_settings::visible_rows::{RowKind, VisibleRow};

fn path(parts: &[&str]) -> Path {
    Path { components: parts.iter().map(|s| s.to_string()).collect() }
}

fn area() -> Area {
    Area { x: 0, y: 0, width: 80, height: 24 }
}

fn lines(node: &ViewNode) -> Vec<(String, Option<Color>)> {
    match node {
        ViewNode::StatusBlock { lines, .. } => {
            lines.iter().map(|l| (l.0[0].text.clone(), l.0[0].style.fg)).collect()
        }
        other => panic!("unexpected node: {other:?}"),
    }
}

fn row(label: &str, p: &[&str], kind: RowKind) -> VisibleRow {
    VisibleRow {
        path: path(p),
        label: label.to_string(),
        secondary: None,
        badge: None,
        depth: 2,
        expandable: false,
        expanded: false,
        kind,
    }
}

#[test]
fn outcomes_are_spelled_out() {
    let done = status_block(
        &AccountTestStatus::Success {
            dialect: "openai".to_string(),
            latency_ms: 42,
            completed_at_ms: 1,
        },
        &CatalogRefreshStatus::Success { models_added: 2, models_updated: 3, completed_at_ms: 1 },
    );
    assert_eq!(
        lines(&done),
        vec![
            ("✓ openai responded in 42ms".to_string(), Some(Color::Green)),
            ("✓ Catalog: +2 added, 3 updated".to_string(), Some(Color::Green)),
        ]
    );
    let failed = status_block(
        &AccountTestStatus::Failed { reason: "401".to_string(), completed_at_ms: 1 },
        &CatalogRefreshStatus::Failed { reason: "timeout".to_string(), completed_at_ms: 1 },
    );
    assert_eq!(
        lines(&failed),
        vec![
            ("✗ 401".to_string(), Some(Color::Red)),
            ("✗ Catalog: timeout".to_string(), Some(Color::Red)),
        ]
    );
    let waiting = status_block(
        &AccountTestStatus::Testing { started_at_ms: 1 },
        &CatalogRefreshStatus::Refreshing { started_at_ms: 1 },
    );
    assert_eq!(
        lines(&waiting),
        vec![("Test: Testing…".to_string(), None), ("Catalog: Refreshing…".to_string(), None)]
    );
}

#[test]
fn badges_name_source_star_and_refresh() {
    let m = ModelInfo {
        id: "m".to_string(),
        display_name: "M".to_string(),
        max_context_size: None,
        max_output_tokens: None,
        source: ModelInfoSource::UserEntered,
    };
    let role = Some(CompletionRole { account: "a".to_string(), model_id: "m".to_string() });
    assert_eq!(build_badge("a", &m, &role, &Some("refreshing")), "entered ★ refreshing");
    assert_eq!(build_badge("b", &m, &role, &None), "entered");
    assert_eq!(source_tag(&ModelInfoSource::UserOverride), "override");
    let failed = CatalogRefreshStatus::Failed { reason: String::new(), completed_at_ms: 0 };
    assert_eq!(refresh_chrome_tag(&Some(failed)), Some("refresh-failed"));
    assert_eq!(refresh_chrome_tag(&Some(CatalogRefreshStatus::Idle)), None);
    assert_eq!(refresh_chrome_tag(&None), None);
}

#[test]
fn figures_and_cursors_are_counted_in_characters() {
    assert_eq!(render_token_field(Some(4096)), "4096");
    assert_eq!(render_token_field(None), "—");
    assert_eq!(text_cursor("wörk"), 4);
    assert_eq!(text_cursor(""), 0);
}

#[test]
fn heights_add_up() {
    let list = |n: usize| ViewNode::List {
        title: None,
        items: (0..n).map(|i| plain_item(i.to_string())).collect(),
        selected: None,
    };
    assert_eq!(section_height(&list(3)), 3);
    let stack = ViewNode::vertical(vec![
        (list(2), Sizing::Fixed(2)),
        (list(1), Sizing::Fixed(1)),
        (FormLayout::empty().to_node(), Sizing::Fill),
    ]);
    assert_eq!(section_height(&stack), 3);
    assert_eq!(form_height(&FormLayout::empty().to_node()), 0);
    assert_eq!(form_height(&list(3)), 0);
}

#[test]
fn edited_rows_show_what_is_typed() {
    let key = RowKind::AccountField { account: "a".to_string(), field: AccountField::Key };
    let r = row("Key: ••••", &["settings", "accounts", "a", "key"], key);
    let state = Some(EditState { field_path: r.path.clone(), buffer: "sk".to_string() });
    assert_eq!(decorate_row_label(&r, &state), "Key▸ sk\u{258F}");
    assert_eq!(decorate_row_label(&r, &None), "Key: ••••");
    let elsewhere = Some(EditState { field_path: path(&["x"]), buffer: "sk".to_string() });
    assert_eq!(decorate_row_label(&r, &elsewhere), "Key: ••••");
    let figure = RowKind::ModelField {
        account: "a".to_string(),
        model_id: "m".to_string(),
        field: ModelField::OutputTokensOverride,
    };
    let f = row("max_output_tokens: 5", &["m"], figure);
    let typing = Some(EditState { field_path: path(&["m"]), buffer: "56".to_string() });
    assert_eq!(decorate_row_label(&f, &typing), "max_output_tokens▸ 56\u{258F}");
}

#[test]
fn carousels_stand_on_selector_rows_only() {
    let name = RowKind::AccountField { account: "a".to_string(), field: AccountField::Name };
    let auth = RowKind::AccountField { account: "a".to_string(), field: AccountField::Auth };
    assert!(selector_carousel_spans(&row("Name: a", &["n"], name), "", "", &vec![], None).is_none());
    let spans = selector_carousel_spans(
        &row("Auth: none", &["n"], auth),
        "",
        "",
        &vec![],
        Some(AuthScheme::NoAuth),
    )
    .unwrap();
    let shown: String = spans.iter().map(|s| s.text.as_str()).collect();
    for scheme in ["x-api-key", "bearer-token", "none"] {
        assert!(shown.contains(scheme), "{shown:?}");
    }
}

#[test]
fn sections_split_at_the_models_header() {
    let entry = |id: &str| RowKind::Entry { entry_id: id.to_string() };
    let rows = vec![
        row("Accounts", &["a"], entry("accounts")),
        row("x", &["x"], RowKind::Account { name: "x".to_string() }),
        row("Models", &["m"], entry("models")),
        row("y", &["y"], RowKind::Model { account: "x".to_string(), model_id: "y".to_string() }),
    ];
    let (accounts, models) = partition_rows_by_section(&rows);
    assert_eq!(accounts.len(), 2);
    assert_eq!(models.len(), 2);
    assert_eq!(models[0].label, "Models");
    let (all, none) = partition_rows_by_section(&rows[..2]);
    assert_eq!((all.len(), none.len()), (2, 0));
}

#[test]
fn unsaved_changes_show_in_the_title() {
    let mut snap = SettingsSnapshot::empty();
    assert_eq!(read_dirty_indicator(&snap), None);
    snap.insert(&path(&["config", "_dirty"]), StoreValue::Bool(true));
    assert_eq!(read_dirty_indicator(&snap).as_deref(), Some("● unsaved · Ctrl+S"));
    let page = IndexRenderer.render(&RenderCtx { area: area(), data: &snap }, ViewNode::Empty);
    match page {
        ViewNode::Frame { title_right, .. } => {
            assert_eq!(title_right.as_deref(), Some("● unsaved · Ctrl+S"))
        }
        other => panic!("unexpected node: {other:?}"),
    }
}

#[test]
fn pending_deletions_are_asked_about_first() {
    let mut snap = SettingsSnapshot::empty();
    snap.insert(
        &path(&["ui", "settings", "focused"]),
        path_to_value(&path(&["settings", "_confirm_delete"])),
    );
    snap.insert(
        &path(&["ui", "settings", "pending_delete", "target_account"]),
        StoreValue::String("alpha".to_string()),
    );
    let page = IndexRenderer.render(&RenderCtx { area: area(), data: &snap }, ViewNode::Empty);
    match page {
        ViewNode::Frame { content, .. } => match *content {
            ViewNode::Stack { children, .. } => {
                assert_eq!(children.len(), 4);
                match &children[0].0 {
                    ViewNode::List { items, .. } => {
                        assert_eq!(items[0].primary, "Delete 'alpha'? y / n")
                    }
                    other => panic!("unexpected node: {other:?}"),
                }
            }
            other => panic!("unexpected node: {other:?}"),
        },
        other => panic!("unexpected node: {other:?}"),
    }
}

/// A page behind which another one shows.
struct Overlay {
    behind: Option<Path>,
    rule: AscendRule,
}

impl Renderer for Overlay {
    fn render(&self, _ctx: &RenderCtx<'_>, backdrop: ViewNode) -> ViewNode {
        ViewNode::Modal {
            background: Box::new(backdrop),
            foreground: Box::new(ViewNode::text("front")),
            dim: false,
        }
    }
    fn backdrop(&self) -> Option<Path> {
        self.behind.clone()
    }
    fn ascend_to(&self) -> AscendRule {
        self.rule.clone()
    }
}

#[test]
fn overlays_show_what_is_behind_them() {
    let snap = SettingsSnapshot::empty();
    let ctx = RenderCtx { area: area(), data: &snap };
    let mut reg: RendererRegistry<Overlay> = RendererRegistry::new();
    reg.register(
        path(&["front"]),
        Overlay { behind: Some(path(&["gone"])), rule: AscendRule::ExitScreen },
    );
    match reg.render(&path(&["front"]), &ctx) {
        ViewNode::Modal { background, .. } => {
            assert_eq!(*background, ViewNode::unknown_cursor_fallback(&path(&["gone"])))
        }
        other => panic!("unexpected node: {other:?}"),
    }
}

#[test]
fn overlays_behind_one_another_come_to_an_end() {
    let snap = SettingsSnapshot::empty();
    let ctx = RenderCtx { area: area(), data: &snap };
    let mut reg: RendererRegistry<Overlay> = RendererRegistry::new();
    for (here, behind) in [("a", "b"), ("b", "a")] {
        reg.register(
            path(&[here]),
            Overlay { behind: Some(path(&[behind])), rule: AscendRule::ExitScreen },
        );
    }
    assert!(matches!(reg.render(&path(&["a"]), &ctx), ViewNode::Modal { .. }));
}

#[test]
fn leaving_by_fallback_goes_where_it_says() {
    let mut reg: RendererRegistry<Overlay> = RendererRegistry::new();
    reg.register(
        path(&["settings", "accounts"]),
        Overlay { behind: None, rule: AscendRule::Fallback(path(&["settings", "index"])) },
    );
    assert_eq!(reg.ascend(&path(&["settings", "accounts"])), None);
    reg.register(
        path(&["settings", "index"]),
        Overlay { behind: None, rule: AscendRule::ExitScreen },
    );
    assert_eq!(
        reg.ascend(&path(&["settings", "accounts"])),
        Some(path(&["settings", "index"]))
    );
}

#[test]
fn every_page_is_registered() {
    let mut reg: RendererRegistry<SettingsRenderer> = RendererRegistry::new();
    register_all(&mut reg);
    for p in [
        path(&["settings", "index"]),
        path(&["settings", "accounts"]),
        path(&["settings", "models"]),
        path(&["settings", "accounts", "_new"]),
        path(&["settings", "accounts", "_delete"]),
        path(&["settings", "accounts", "_detail"]),
        path(&["settings", "models", "_detail"]),
    ] {
        assert!(reg.lookup(&p).is_some(), "{p:?}");
    }
    assert_eq!(
        reg.ascend(&path(&["settings", "models", "_detail"])),
        Some(path(&["settings", "models"]))
    );
    assert_eq!(reg.ascend(&path(&["settings", "models"])), None);
}
