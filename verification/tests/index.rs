use ox_settings::commands::compose::{field_kind, field_label, FieldKind, FIELD_ORDER};
use ox_settings::commands::navigation::path_to_value;
use ox_settings::commands::tree::expanded_set_to_value;
use ox_settings::path::Path;
use ox_settings::registry::{Area, AscendRule, RenderCtx, Renderer, RendererRegistry};
use ox_settings::renderers::index::{register, IndexRenderer};
use ox_settings::renderers::util::models_to_value;
use ox_settings::renderers::SettingsRenderer;
use ox_settings::snapshot::SettingsSnapshot;
use ox_settings::types::{
    AccountConfig, AccountField, BadgeSource, ModelInfo, ModelInfoSource, SettingsIndexEntry,
    ValidationErrors,
};
use ox_settings::value::StoreValue;
use ox_settings::view::{Direction, FormRow, FormValue, ListItem, ViewNode};

fn path(parts: &[&str]) -> Path {
    Path { components: parts.iter().map(|s| s.to_string()).collect() }
}

fn context(snap: &SettingsSnapshot) -> RenderCtx<'_> {
    RenderCtx { area: Area { x: 0, y: 0, width: 80, height: 24 }, data: snap }
}

fn render(snap: &SettingsSnapshot) -> ViewNode {
    IndexRenderer.render(&context(snap), ViewNode::Empty)
}

fn contains_form(v: &ViewNode) -> bool {
    match v {
        ViewNode::Form { .. } => true,
        ViewNode::Stack { children, .. } => children.iter().any(|(c, _)| contains_form(c)),
        ViewNode::Pad { child, .. } => contains_form(child),
        ViewNode::Frame { content, .. } => contains_form(content),
        _ => false,
    }
}

fn entry(id: &str, label: &str, target: &str, badge: BadgeSource) -> SettingsIndexEntry {
    SettingsIndexEntry {
        id: id.to_string(),
        label: label.to_string(),
        description: String::new(),
        target_cursor: Path::parse(target).unwrap(),
        badge,
    }
}

fn write_index(snap: &mut SettingsSnapshot) {
    snap.insert(
        &path(&["settings", "index", "entries", "accounts"]),
        StoreValue::IndexEntry(entry(
            "accounts",
            "Accounts",
            "settings/accounts",
            BadgeSource::SubtreeCount(Path::parse("config/gate/accounts").unwrap()),
        )),
    );
    snap.insert(
        &path(&["settings", "index", "entries", "models"]),
        StoreValue::IndexEntry(entry(
            "models",
            "Models",
            "settings/models",
            BadgeSource::Blank,
        )),
    );
}

fn write_account(snap: &mut SettingsSnapshot, name: &str) {
    let comp = name;
    snap.insert(
        &path(&["config", "gate", "accounts", &comp]),
        StoreValue::Account(AccountConfig::bound_to(name.into())),
    );
}

fn assert_list(view: ViewNode) -> (Option<String>, Vec<ListItem>, Option<usize>) {
    match view {
        ViewNode::Frame {
            title,
            title_right: _,
            content,
        } => {
            let mut out: Vec<ListItem> = Vec::new();
            let mut selected: Option<usize> = None;
            collect_lists(&content, &mut out, &mut selected);
            (title, out, selected)
        }
        other => panic!("expected ViewNode::Frame, got {other:?}"),
    }
}

/// Recursive walker for `assert_list`. Inlines every sub-List's
/// items into `out`; if any sub-List carries a `selected: Some`,
/// records its absolute offset in `selected` (asserts at most one
/// sub-List has a selection set — the per-section invariant).
fn collect_lists(view: &ViewNode, out: &mut Vec<ListItem>, selected: &mut Option<usize>) {
    match view {
        ViewNode::List { items, selected: s, .. } => {
            if let Some(local) = s {
                assert!(
                    selected.is_none(),
                    "at most one sub-List should carry a selection per frame"
                );
                *selected = Some(out.len() + local);
            }
            out.extend(items.iter().cloned());
        }
        ViewNode::Stack { children, .. } => {
            for (child, _) in children {
                collect_lists(child, out, selected);
            }
        }
        ViewNode::Frame { content, .. } => collect_lists(content, out, selected),
        _ => {}
    }
}

/// Walk Frame → Stack → first child (the Accounts section).
fn extract_accounts_section(view: ViewNode) -> ViewNode {
    match view {
        ViewNode::Frame { content, .. } => match *content {
            ViewNode::Stack { children, .. } => {
                assert!(!children.is_empty(), "page must have at least one section");
                children.into_iter().next().unwrap().0
            }
            other => panic!("expected Stack inside Frame, got {other:?}"),
        },
        other => panic!("expected Frame, got {other:?}"),
    }
}

/// Walk Frame → Stack → second child (the Models section).
fn extract_models_section(view: ViewNode) -> ViewNode {
    match view {
        ViewNode::Frame { content, .. } => match *content {
            ViewNode::Stack { mut children, .. } => {
                assert!(children.len() >= 2, "page must have Accounts + Models sections");
                children.remove(1).0
            }
            other => panic!("expected Stack inside Frame, got {other:?}"),
        },
        other => panic!("expected Frame, got {other:?}"),
    }
}

fn flatten_to_strings(view: &ViewNode) -> Vec<String> {
    let mut out = Vec::new();
    flatten_inner(view, &mut out);
    out
}

fn flatten_inner(view: &ViewNode, out: &mut Vec<String>) {
    match view {
        ViewNode::List { items, .. } => {
            for it in items {
                out.push(it.primary.clone());
            }
        }
        ViewNode::Form { rows, .. } => {
            for r in rows {
                out.push(r.label.clone());
            }
        }
        ViewNode::Stack { children, .. } => {
            for (c, _) in children {
                flatten_inner(c, out);
            }
        }
        ViewNode::Frame { content, .. } => flatten_inner(content, out),
        ViewNode::Pad { child, .. } => flatten_inner(child, out),
        _ => {}
    }
}

#[test]
fn collapsed_renders_two_top_level_rows_with_glyphs() {
    let mut snap = SettingsSnapshot::empty();
    write_index(&mut snap);
    let (title, items, selected) = assert_list(render(&snap));
    assert_eq!(title.as_deref(), Some("Settings"));
    assert_eq!(items.len(), 2);
    assert!(
        items[0].primary.starts_with("▸ "),
        "expected collapsed glyph; got {:?}",
        items[0].primary
    );
    assert!(items[0].primary.ends_with("Accounts"));
    assert_eq!(items[0].badge.as_deref(), Some("0"));
    assert_eq!(selected, None);
}

#[test]
fn expanded_renders_inline_children_with_indent() {
    let mut snap = SettingsSnapshot::empty();
    write_index(&mut snap);
    write_account(&mut snap, "alpha");
    write_account(&mut snap, "beta");
    snap.insert(
        &path(&["ui", "settings", "expanded"]),
        expanded_set_to_value(&vec!["settings/accounts".to_string()]),
    );
    let (_title, items, _selected) = assert_list(render(&snap));
    // Accounts (▾) + ghost + alpha (▸) + beta (▸) + Models (▸) = 5
    assert_eq!(items.len(), 5);
    assert!(items[0].primary.starts_with("▾ "));
    // Ghost row (depth 1, no expand glyph).
    assert!(
        items[1].primary.contains("+ New connection"),
        "expected ghost row at index 1; got {:?}",
        items[1].primary
    );
    assert!(
        items[1].primary.starts_with("    "),
        "ghost row at depth 1 with no expand glyph should start with four spaces; got {:?}",
        items[1].primary
    );
    // Depth-1 rows are indented two spaces and carry their own
    // expand glyph because they're expandable too.
    assert!(
        items[2].primary.starts_with("  ▸ "),
        "expected depth-1 indented expand glyph; got {:?}",
        items[2].primary
    );
    assert!(items[2].primary.ends_with("alpha"));
    assert!(items[3].primary.ends_with("beta"));
    assert!(items[4].primary.starts_with("▸ "));
}

#[test]
fn expanded_account_inlines_field_rows() {
    let mut snap = SettingsSnapshot::empty();
    write_index(&mut snap);
    write_account(&mut snap, "alpha");
    snap.insert(
        &path(&["ui", "settings", "expanded"]),
        expanded_set_to_value(&vec![
            "settings/accounts".to_string(),
            "settings/accounts/alpha".to_string(),
        ]),
    );
    let (_title, items, _selected) = assert_list(render(&snap));
    // Accounts (▾) + ghost + alpha (▾) + 5 field rows + Models (▸) = 9.
    assert_eq!(items.len(), 9);
    // First field row is "Name: alpha", indented to depth 2.
    assert!(items[3].primary.contains("Name: alpha"));
    assert!(items[3].primary.starts_with("    "));
    assert!(items[4].primary.contains("Protocol:"));
    assert!(items[7].primary.contains("Key:"));
}

#[test]
fn affordance_renders_static_label_when_buffer_is_absent() {
    let mut snap = SettingsSnapshot::empty();
    write_index(&mut snap);
    snap.insert(
        &path(&["ui", "settings", "expanded"]),
        expanded_set_to_value(&vec!["settings/accounts".to_string()]),
    );
    let (_title, items, _selected) = assert_list(render(&snap));
    // Affordance at index 1 (Accounts header at 0).
    assert!(
        items[1].primary.contains("+ New connection"),
        "expected static affordance; got {:?}",
        items[1].primary
    );
    assert!(items[1].focus.is_none(), "affordance must be unfocusable");
}

#[test]
fn focused_drives_selected_index() {
    let mut snap = SettingsSnapshot::empty();
    write_index(&mut snap);
    snap.insert(
        &path(&["ui", "settings", "focused"]),
        path_to_value(&path(&["settings", "models"])),
    );
    let (_title, _items, selected) = assert_list(render(&snap));
    assert_eq!(selected, Some(1));
}

#[test]
fn stale_focused_yields_no_selection() {
    let mut snap = SettingsSnapshot::empty();
    write_index(&mut snap);
    snap.insert(
        &path(&["ui", "settings", "focused"]),
        path_to_value(&path(&["nonsense"])),
    );
    let (_title, _items, selected) = assert_list(render(&snap));
    assert_eq!(selected, None);
}

#[test]
fn empty_index_renders_empty_list() {
    let snap = SettingsSnapshot::empty();
    let (title, items, selected) = assert_list(render(&snap));
    assert_eq!(title.as_deref(), Some("Settings"));
    assert!(items.is_empty());
    assert_eq!(selected, None);
}

#[test]
fn ascend_rule_is_exit_screen() {
    assert_eq!(IndexRenderer.ascend_to(), AscendRule::ExitScreen);
}

#[test]
fn register_inserts_into_registry() {
    let mut reg: RendererRegistry<SettingsRenderer> = RendererRegistry::new();
    register(&mut reg);
    let mut snap = SettingsSnapshot::empty();
    write_index(&mut snap);
    let view = reg.render(&path(&["settings", "index"]), &context(&snap));
    let (_title, items, _selected) = assert_list(view);
    assert_eq!(items.len(), 2);
}

/// Helper: write an account along with a non-empty models catalog
/// so the Models section shows a real Model row for it. Used by
/// the empty-state decoration tests below to verify the
/// alphabetical-position contract against a non-empty neighbor.
fn write_account_with_models(
    snap: &mut SettingsSnapshot,
    name: &str,
    ids: &[&str],
) {
    let comp = name;
    snap.insert(
        &path(&["config", "gate", "accounts", &comp]),
        StoreValue::Account(AccountConfig::bound_to(name.into())),
    );
    let models: Vec<ModelInfo> = ids
        .iter()
        .map(|id| ModelInfo {
            id: (*id).into(),
            display_name: (*id).into(),
            max_context_size: None,
            max_output_tokens: None,
            source: ModelInfoSource::Server,
        })
        .collect();
    snap.insert(
        &path(&["config", "gate", "accounts", &comp, "models"]),
        models_to_value(&models),
    );
}

#[test]
fn empty_catalog_account_renders_decoration_pair_under_models() {
    // An empty-catalog account contributes no rows to visible_rows;
    // the renderer reads the data tree, identifies the empty
    // account, and inserts two unfocusable decoration ListItems —
    // an empty-state line and a manual-model affordance.
    let mut snap = SettingsSnapshot::empty();
    write_index(&mut snap);
    write_account(&mut snap, "alpha");
    snap.insert(
        &path(&["ui", "settings", "expanded"]),
        expanded_set_to_value(&vec!["settings/models".to_string()]),
    );
    let (_title, items, _selected) = assert_list(render(&snap));
    // Accounts header (▸), Models header (▾), empty-state line,
    // manual affordance = 4 items.
    assert_eq!(items.len(), 4);
    assert!(
        items[2].primary.contains("alpha")
            && items[2].primary.contains("no models")
            && items[2].primary.contains("press r to refresh"),
        "expected empty-state line at idx 2; got {:?}",
        items[2].primary
    );
    assert!(items[2].focus.is_none(), "empty-state line is decoration");
    assert!(
        items[3].primary.contains("+ add model manually (m)"),
        "expected manual affordance at idx 3; got {:?}",
        items[3].primary
    );
    assert!(items[3].focus.is_none(), "manual affordance is decoration");
}

#[test]
fn empty_catalog_decoration_lands_at_alphabetical_position() {
    // Two accounts: alpha has a model (so a Model row exists),
    // beta is empty. The empty-state decoration for beta must
    // land AFTER alpha's Model row, not before.
    let mut snap = SettingsSnapshot::empty();
    write_index(&mut snap);
    write_account_with_models(&mut snap, "alpha", &["m1"]);
    write_account(&mut snap, "beta");
    snap.insert(
        &path(&["ui", "settings", "expanded"]),
        expanded_set_to_value(&vec!["settings/models".to_string()]),
    );
    let (_title, items, _selected) = assert_list(render(&snap));
    // Accounts (▸), Models (▾), alpha/m1, beta empty-state, beta manual = 5
    assert_eq!(items.len(), 5);
    assert!(items[2].primary.contains("alpha"));
    assert!(items[2].primary.contains("m1"));
    assert!(items[3].primary.contains("beta"));
    assert!(items[3].primary.contains("no models"));
    assert!(items[4].primary.contains("+ add model manually"));
}

#[test]
fn models_decorations_appear_after_models_header_when_new_connection_affordance_also_present()
{
    // Two accounts, both Accounts and Models expanded, compose-mode
    // inactive. The alphabetically-first account is empty (aaa);
    // the second has models (bbb). The "+ New connection"
    // affordance is inserted in the Accounts section; the empty-
    // catalog decorations for aaa get scheduled in the Models
    // section. With aaa first, the decoration's prev_model_idx is
    // None and falls through to `models_idx + 1` — which after the
    // affordance insert is the items-index of Models itself, so the
    // decorations land BEFORE the Models header instead of after.
    let mut snap = SettingsSnapshot::empty();
    write_index(&mut snap);
    write_account(&mut snap, "aaa");
    write_account_with_models(&mut snap, "bbb", &["m1"]);
    snap.insert(
        &path(&["ui", "settings", "expanded"]),
        expanded_set_to_value(&vec![
            "settings/accounts".to_string(),
            "settings/models".to_string(),
        ]),
    );

    let (_title, items, _selected) = assert_list(render(&snap));

    let models_header_idx = items
        .iter()
        .position(|it| it.primary.trim_start().starts_with("▾ Models"))
        .expect("Models header present");
    let empty_state_idx = items
        .iter()
        .position(|it| it.primary.contains("no models"))
        .expect("empty-state decoration present for aaa's empty catalog");

    assert!(
        empty_state_idx > models_header_idx,
        "empty-state decoration should be AFTER the Models header, not before. \
         Got empty_state at {empty_state_idx}, Models header at {models_header_idx}",
    );
}

#[test]
fn empty_catalog_decoration_renders_inline_form_when_in_manual_mode() {
    // When `manual_model/account` matches the empty account AND the
    // cursor sits at a manual-model stage path, the affordance line
    // swaps to a stage-prompt with the live buffer.
    let mut snap = SettingsSnapshot::empty();
    write_index(&mut snap);
    write_account(&mut snap, "alpha");
    snap.insert(
        &path(&["ui", "settings", "expanded"]),
        expanded_set_to_value(&vec!["settings/models".to_string()]),
    );
    snap.insert(
        &path(&["ui", "settings", "manual_model", "account"]),
        StoreValue::String("alpha".into()),
    );
    // Cursor encodes the active stage under cursor-as-focus.
    snap.insert(
        &path(&["ui", "settings", "focused"]),
        path_to_value(&path(&["settings", "_manual_model", "id"])),
    );
    snap.insert(
        &path(&["ui", "settings", "manual_model", "buffer"]),
        StoreValue::String("custom".into()),
    );
    let (_title, items, _selected) = assert_list(render(&snap));
    assert!(
        items[3].primary.contains("Model id▸ custom\u{258F}"),
        "expected inline manual form prompt; got {:?}",
        items[3].primary
    );
    assert!(items[3].focus.is_none());
}

#[test]
fn empty_catalog_decoration_skipped_when_models_section_collapsed() {
    // The Models section is collapsed → no decorations leak past
    // the header row.
    let mut snap = SettingsSnapshot::empty();
    write_index(&mut snap);
    write_account(&mut snap, "alpha");
    let (_title, items, _selected) = assert_list(render(&snap));
    // Just the two top-level headers.
    assert_eq!(items.len(), 2);
}

#[test]
fn focused_protocol_row_renders_custom_provider_in_carousel() {
    let mut snap = SettingsSnapshot::empty();
    write_index(&mut snap);
    let comp = "local";
    snap.insert(
        &path(&["config", "gate", "accounts", &comp]),
        StoreValue::Account(AccountConfig::bound_to("LMStudio".into())),
    );
    snap.insert(
        &path(&["ui", "settings", "expanded"]),
        expanded_set_to_value(&vec![
            "settings/accounts".to_string(),
            "settings/accounts/local".to_string(),
        ]),
    );
    snap.insert(
        &path(&["ui", "settings", "focused"]),
        path_to_value(&path(&["settings", "accounts", &comp, "protocol"])),
    );

    let view = render(&snap);
    let (_title, items, selected) = assert_list(view);
    let i = selected.expect("a row should be selected");
    let primary_spans = items[i]
        .primary_spans
        .as_ref()
        .expect("focused Protocol row should render carousel spans");
    let joined: String = primary_spans.iter().map(|s| s.text.as_str()).collect();
    assert!(
        joined.contains("LMStudio"),
        "expected carousel to include 'LMStudio'; got {joined:?}"
    );
}

// -- compose-mode ViewNode::Form projection --------------------------------------

/// Open `Accounts` accordion. The compose-form projection only ever
/// emits while the accordion is expanded — when collapsed there's
/// no accounts list to stack the form above.
fn snap_at_accounts_page() -> SettingsSnapshot {
    let mut snap = SettingsSnapshot::empty();
    write_index(&mut snap);
    snap.insert(
        &path(&["ui", "settings", "expanded"]),
        expanded_set_to_value(&vec!["settings/accounts".to_string()]),
    );
    snap
}

/// Compose-mode snapshot: accordion expanded + cursor at the
/// compose form's Name field + every draft field at its open-state
/// default. Mirrors the shape `accounts.compose.open` writes under
/// cursor-as-focus.
fn snap_with_compose_active() -> SettingsSnapshot {
    let mut snap = snap_at_accounts_page();
    snap.insert(
        &path(&["ui", "settings", "focused"]),
        path_to_value(&path(&["settings", "_compose_form", "name"])),
    );
    for sub in ["name", "endpoint", "key"] {
    let comp = sub;
        snap.insert(
            &path(&["ui", "settings", "new_account", &comp]),
            StoreValue::String(String::new()),
        );
    }
    for sub in ["protocol", "auth"] {
    let comp = sub;
        snap.insert(
            &path(&["ui", "settings", "new_account", &comp]),
            StoreValue::Null,
        );
    }
    snap
}

fn extract_form(view: ViewNode) -> Option<(Vec<FormRow>, Option<usize>)> {
    match view {
        ViewNode::Form { rows, focused, .. } => Some((rows, focused)),
        ViewNode::Frame { content, .. } => extract_form(*content),
        ViewNode::Stack { children, .. } => {
            for (child, _) in children {
                if let Some(found) = extract_form(child) {
                    return Some(found);
                }
            }
            None
        }
        ViewNode::Pad { child, .. } => extract_form(*child),
        _ => None,
    }
}

#[test]
fn page_emits_frame_stack_of_two_sections() {
    let mut snap = SettingsSnapshot::empty();
    write_index(&mut snap);
    let view = render(&snap);

    let stack_children = match view {
        ViewNode::Frame { content, .. } => match *content {
            ViewNode::Stack {
                dir: Direction::Vertical,
                children,
            } => children,
            other => panic!("expected Stack inside Frame, got {other:?}"),
        },
        other => panic!("expected Frame, got {other:?}"),
    };
    // Two sections (Accounts, Models) + a trailing Empty filler that
    // absorbs leftover vertical space at the bottom of the page.
    assert_eq!(
        stack_children.len(),
        3,
        "page is two sections + a trailing Fill filler"
    );
    assert!(matches!(stack_children[0].0, ViewNode::Stack { .. }));
    assert!(matches!(stack_children[1].0, ViewNode::Stack { .. }));
    assert!(matches!(stack_children[2].0, ViewNode::Empty));
}

#[test]
fn accounts_section_has_header_only_when_collapsed_and_compose_inactive() {
    let mut snap = SettingsSnapshot::empty();
    write_index(&mut snap);
    let view = render(&snap);
    let accounts_section = extract_accounts_section(view);

    match accounts_section {
        ViewNode::Stack { children, .. } => {
            assert_eq!(
                children.len(),
                1,
                "collapsed compose-inactive Accounts is just the header"
            );
            assert!(matches!(children[0].0, ViewNode::List { .. }));
        }
        _ => panic!("AccountsSection should be a Stack"),
    }
}

#[test]
fn accounts_section_adds_affordance_when_expanded_and_compose_inactive() {
    let mut snap = SettingsSnapshot::empty();
    write_index(&mut snap);
    snap.insert(
        &path(&["ui", "settings", "expanded"]),
        expanded_set_to_value(&vec!["settings/accounts".to_string()]),
    );
    write_account(&mut snap, "alpha");

    let view = render(&snap);
    let accounts_section = extract_accounts_section(view);

    let children = match accounts_section {
        ViewNode::Stack { children, .. } => children,
        _ => panic!("AccountsSection should be a Stack"),
    };
    // Header + affordance + content list.
    assert_eq!(children.len(), 3);
    let middle_items = match &children[1].0 {
        ViewNode::List { items, .. } => items,
        _ => panic!("middle slot should be a List of affordance"),
    };
    assert_eq!(middle_items.len(), 1);
    assert!(middle_items[0].primary.contains("+ New connection"));
}

#[test]
fn accounts_section_shows_compose_form_in_middle_when_active() {
    let snap = snap_with_compose_active();
    let view = render(&snap);
    let accounts_section = extract_accounts_section(view);

    let children = match accounts_section {
        ViewNode::Stack { children, .. } => children,
        _ => panic!("AccountsSection should be a Stack"),
    };
    // Header + compose_block (Stack of heading List + Pad → Form).
    // (Content list also present when Accounts is expanded;
    // snap_with_compose_active expands Accounts.)
    assert!(children.len() >= 2);
    // The Form is nested inside the compose_block; do a recursive
    // walk so this test stays anchored to the invariant "form lives
    // inside the Accounts section" without pinning its exact shape.
    let form_present = children.iter().any(|(v, _)| contains_form(v));
    assert!(form_present, "compose Form must be inside Accounts section");
    assert!(matches!(children[0].0, ViewNode::List { .. }));
}

#[test]
fn models_section_holds_empty_catalog_decorations_inside_its_content() {
    let mut snap = SettingsSnapshot::empty();
    write_index(&mut snap);
    write_account(&mut snap, "alpha"); // empty catalog
    snap.insert(
        &path(&["ui", "settings", "expanded"]),
        expanded_set_to_value(&vec!["settings/models".to_string()]),
    );

    let view = render(&snap);
    let models_section = extract_models_section(view);
    let children = match models_section {
        ViewNode::Stack { children, .. } => children,
        _ => panic!("ModelsSection should be a Stack"),
    };
    assert!(children.len() >= 2);
    let content_items = match &children[1].0 {
        ViewNode::List { items, .. } => items,
        _ => panic!("Models content should be a List"),
    };
    assert!(
        content_items.iter().any(|it| it.primary.contains("no models")),
        "empty-state line must live inside the Models content sub-List"
    );
    assert!(
        content_items
            .iter()
            .any(|it| it.primary.contains("add model manually")),
        "manual-add affordance must live inside the Models content sub-List"
    );
}

#[test]
fn focused_path_selects_in_matching_sub_list_only() {
    let mut snap = SettingsSnapshot::empty();
    write_index(&mut snap);
    write_account(&mut snap, "alpha");
    snap.insert(
        &path(&["ui", "settings", "expanded"]),
        expanded_set_to_value(&vec!["settings/accounts".to_string()]),
    );
    snap.insert(
        &path(&["ui", "settings", "focused"]),
        path_to_value(&path(&["settings", "accounts", "alpha"])),
    );

    let view = render(&snap);
    let accounts_section = extract_accounts_section(view);
    let children = match accounts_section {
        ViewNode::Stack { children, .. } => children,
        _ => panic!("AccountsSection should be a Stack"),
    };

    // The header sub-List has selected: None (cursor isn't on the header).
    if let ViewNode::List { selected, .. } = &children[0].0 {
        assert!(selected.is_none(), "header should not be selected");
    } else {
        panic!("first child should be the header List");
    }
    // The last sub-List is the content (header + affordance + content
    // when expanded compose-inactive). The alpha row sits at index 0
    // of the content list.
    let content_idx = children.len() - 1;
    if let ViewNode::List { selected, .. } = &children[content_idx].0 {
        assert_eq!(*selected, Some(0), "content list selects alpha row");
    } else {
        panic!("last child should be the content List");
    }
}

#[test]
fn compose_form_renders_below_accounts_header_in_section() {
    let snap = snap_with_compose_active();
    let view = render(&snap);

    let flat = flatten_to_strings(&view);
    let header_pos = flat
        .iter()
        .position(|s| s.contains("Accounts"))
        .expect("Accounts header present");
    let form_first_field = flat
        .iter()
        .position(|s| s == "Name")
        .expect("compose form Name field present");
    assert!(
        header_pos < form_first_field,
        "Accounts header must render BEFORE compose form fields (got header at {header_pos}, Name at {form_first_field}); \
         flat = {flat:?}"
    );
}

#[test]
fn empty_catalog_decoration_renders_inside_models_section_after_header() {
    let mut snap = SettingsSnapshot::empty();
    write_index(&mut snap);
    write_account(&mut snap, "aaa");
    write_account_with_models(&mut snap, "bbb", &["m1"]);
    snap.insert(
        &path(&["ui", "settings", "expanded"]),
        expanded_set_to_value(&vec![
            "settings/accounts".to_string(),
            "settings/models".to_string(),
        ]),
    );

    let view = render(&snap);
    let flat = flatten_to_strings(&view);
    let header_pos = flat
        .iter()
        .position(|s| s.contains("Models"))
        .expect("Models header present");
    let decoration_pos = flat
        .iter()
        .position(|s| s.contains("no models"))
        .expect("decoration present for aaa");
    assert!(
        header_pos < decoration_pos,
        "Models header must render BEFORE empty-catalog decoration (got header at {header_pos}, decoration at {decoration_pos}); \
         flat = {flat:?}"
    );
}

#[test]
fn compose_form_has_one_row_per_field_in_order() {
    let snap = snap_with_compose_active();
    let view = render(&snap);
    let (rows, _) = extract_form(view).expect("Form present");
    assert_eq!(rows.len(), FIELD_ORDER.len());
    for (i, field) in FIELD_ORDER.iter().enumerate() {
        assert_eq!(rows[i].label, field_label(*field));
    }
}

#[test]
fn compose_form_row_kinds_match_field_kinds() {
    // Text fields → FormValue::Text. Selector fields → at compose
    // open-state (no protocol/auth picked yet) → FormValue::ReadOnly
    // placeholder. The kind alignment pins that the projection picks
    // the correct variant per field.
    let snap = snap_with_compose_active();
    let view = render(&snap);
    let (rows, _) = extract_form(view).expect("Form present");
    for (i, field) in FIELD_ORDER.iter().enumerate() {
        match (field_kind(*field), &rows[i].value) {
            (FieldKind::Text, FormValue::Text { .. }) => {}
            (FieldKind::Selector, FormValue::ReadOnly(_)) => {}
            (kind, value) => {
                panic!("field {field:?} kind={kind:?} got value={value:?}")
            }
        }
    }
}

#[test]
fn compose_form_focused_index_tracks_cursor() {
    for field in FIELD_ORDER {
        let mut snap = snap_with_compose_active();
        // Override the cursor to point at the named field. Under
        // cursor-as-focus this IS the focus assignment — no
        // separate `focused_field` discriminator exists.
        let subpath = match field {
            AccountField::Name => "name",
            AccountField::Protocol => "protocol",
            AccountField::Endpoint => "endpoint",
            AccountField::Auth => "auth",
            AccountField::Key => "key",
        };
    let comp = subpath;
        snap.insert(
            &path(&["ui", "settings", "focused"]),
            path_to_value(&path(&["settings", "_compose_form", &comp])),
        );
        let view = render(&snap);
        let (_rows, focused) = extract_form(view).expect("Form present");
        let expected = FIELD_ORDER.iter().position(|f| *f == field);
        assert_eq!(focused, expected, "field {field:?}");
    }
}

#[test]
fn compose_form_threads_errors_into_form_rows() {
    let mut snap = snap_with_compose_active();
    let mut errors = ValidationErrors::none();
    errors.name = Some("'with space' is not a valid identifier".into());
    snap.insert(
        &path(&["ui", "settings", "new_account", "errors"]),
        StoreValue::Errors(errors),
    );
    let view = render(&snap);
    let (rows, _) = extract_form(view).expect("Form present");
    let name_idx = FIELD_ORDER
        .iter()
        .position(|f| *f == AccountField::Name)
        .unwrap();
    assert!(
        rows[name_idx].error.is_some(),
        "name error must thread into the Name FormRow"
    );
    // Other rows have no error in this fixture.
    for (i, row) in rows.iter().enumerate() {
        if i == name_idx {
            continue;
        }
        assert!(
            row.error.is_none(),
            "row {i} ({}) should have no error",
            row.label
        );
    }
}

#[test]
fn key_field_renders_masked_text_value() {
    let mut snap = snap_with_compose_active();
    snap.insert(
        &path(&["ui", "settings", "new_account", "key"]),
        StoreValue::String("sk-secret".into()),
    );
    let view = render(&snap);
    let (rows, _) = extract_form(view).expect("Form present");
    let key_idx = FIELD_ORDER
        .iter()
        .position(|f| *f == AccountField::Key)
        .unwrap();
    match &rows[key_idx].value {
        FormValue::Text { value, masked, .. } => {
            assert!(*masked, "Key value must be masked");
            assert_eq!(value, "sk-secret");
        }
        other => panic!("expected FormValue::Text, got {other:?}"),
    }
}

/// Recursive walker: returns true if any `ViewNode::Pad` is found whose
/// subtree contains a `ViewNode::Form`. Used by the compose-form padding
/// test to assert the indent wrapping without pinning the exact
/// nesting depth.
fn view_contains_pad_wrapping_form(view: &ViewNode) -> bool {
    match view {
        ViewNode::Pad { child, .. } if contains_form(child) => true,
        ViewNode::Stack { children, .. } => {
            children.iter().any(|(c, _)| view_contains_pad_wrapping_form(c))
        }
        ViewNode::Frame { content, .. } => view_contains_pad_wrapping_form(content),
        ViewNode::Pad { child, .. } => view_contains_pad_wrapping_form(child),
        _ => false,
    }
}

#[test]
fn compose_active_renders_heading_above_form() {
    let snap = snap_with_compose_active();
    let view = render(&snap);
    let flat = flatten_to_strings(&view);

    let heading_pos = flat
        .iter()
        .position(|s| s.contains("+ New connection") && s.contains("Tab to navigate"))
        .expect("heading present with help text");
    let name_field_pos = flat
        .iter()
        .position(|s| s == "Name")
        .expect("Name field present");
    assert!(
        heading_pos < name_field_pos,
        "heading must appear before Name field; flat = {flat:?}"
    );
}

#[test]
fn compose_active_form_is_padded() {
    let snap = snap_with_compose_active();
    let view = render(&snap);
    assert!(
        view_contains_pad_wrapping_form(&view),
        "compose form must be wrapped in ViewNode::Pad for indentation"
    );
}

#[test]
fn compose_inactive_affordance_unchanged() {
    let mut snap = SettingsSnapshot::empty();
    write_index(&mut snap);
    snap.insert(
        &path(&["ui", "settings", "expanded"]),
        expanded_set_to_value(&vec!["settings/accounts".to_string()]),
    );
    write_account(&mut snap, "alpha");

    let view = render(&snap);
    let flat = flatten_to_strings(&view);
    // Still has the bare "+ New connection" affordance, NO Tab/Enter/Esc
    // help text — that text only appears when compose is active and the
    // affordance has been promoted to a heading.
    let bare_affordance = flat
        .iter()
        .any(|s| s.contains("+ New connection") && !s.contains("Tab to navigate"));
    assert!(
        bare_affordance,
        "inactive affordance is the plain '+ New connection' line; flat = {flat:?}"
    );
}

#[test]
fn selector_with_value_renders_selector_form_value() {
    // Once the user has picked a protocol, the row switches from
    // the placeholder `ReadOnly` to a `Selector { options, current }`.
    let mut snap = snap_with_compose_active();
    snap.insert(
        &path(&["ui", "settings", "new_account", "protocol"]),
        StoreValue::String("anthropic".into()),
    );
    let view = render(&snap);
    let (rows, _) = extract_form(view).expect("Form present");
    let proto_idx = FIELD_ORDER
        .iter()
        .position(|f| *f == AccountField::Protocol)
        .unwrap();
    match &rows[proto_idx].value {
        FormValue::Selector { options, current } => {
            assert!(!options.is_empty(), "options must be non-empty");
            assert!(*current < options.len(), "current must index into options");
            assert_eq!(options[*current], "anthropic");
        }
        other => panic!("expected FormValue::Selector, got {other:?}"),
    }
}
