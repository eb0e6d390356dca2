use ox_settings::path::Path;
use ox_settings::registry::{Area, AscendRule, RenderCtx, Renderer};
use ox_settings::renderers::account_detail::AccountDetailRenderer;
use ox_settings::snapshot::SettingsSnapshot;
use ox_settings::types::{
    AccountConfig, AccountTestStatus, AuthScheme, ProviderConfig, ValidationDiagnostics,
    ValidationErrors,
};
use ox_settings::value::StoreValue;
use ox_settings::view::{Color, Direction, FormValue, Span, StyledLine, ViewNode};

fn path(parts: &[&str]) -> Path {
    Path { components: parts.iter().map(|s| s.to_string()).collect() }
}

fn render(snap: &SettingsSnapshot) -> ViewNode {
    let ctx = RenderCtx { area: Area { x: 0, y: 0, width: 80, height: 24 }, data: snap };
    AccountDetailRenderer.render(&ctx, ViewNode::Empty)
}

fn write_account(snap: &mut SettingsSnapshot, name: &str, provider: &str) {
    let comp = name;
    snap.insert(
        &path(&["config", "gate", "accounts", &comp]),
        StoreValue::Account(AccountConfig::bound_to(provider.into())),
    );
}

fn write_provider(snap: &mut SettingsSnapshot, name: &str, endpoint: &str, auth: AuthScheme) {
    let comp = name;
    snap.insert(
        &path(&["config", "gate", "providers", &comp]),
        StoreValue::Provider(ProviderConfig {
            dialect: name.to_string(),
            endpoint: endpoint.into(),
            version: String::new(),
            auth: Some(auth),
        }),
    );
}

#[test]
fn account_detail_no_selection() {
    let snap = SettingsSnapshot::empty();
    let view = render(&snap);
    assert_eq!(view, ViewNode::text("No account selected. Press Esc to return."));
}

#[test]
fn account_detail_valid() {
    let mut snap = SettingsSnapshot::empty();
    write_provider(
        &mut snap,
        "anthropic",
        "https://api.anthropic.com",
        AuthScheme::XApiKey,
    );
    write_account(&mut snap, "alpha", "anthropic");
    select(&mut snap, "alpha");

    let view = render(&snap);

    // Verify shape: a vertical Stack with Form + StatusBlock children.
    let (form, status) = match &view {
        ViewNode::Stack { dir, children } => {
            assert_eq!(*dir, Direction::Vertical);
            assert_eq!(children.len(), 2);
            (&children[0].0, &children[1].0)
        }
        other => panic!("expected Stack, got {other:?}"),
    };

    let (rows, focused) = match form {
        ViewNode::Form { rows, focused, .. } => (rows, focused),
        other => panic!("expected Form, got {other:?}"),
    };
    assert_eq!(rows.len(), 5);
    assert_eq!(rows[0].label, "Name");
    assert_eq!(rows[0].value, FormValue::ReadOnly("alpha".into()));
    assert_eq!(rows[1].label, "Protocol");
    assert_eq!(rows[2].label, "Endpoint");
    match &rows[2].value {
        FormValue::Text { value, masked, .. } => {
            assert_eq!(value, "https://api.anthropic.com");
            assert!(!masked);
        }
        other => panic!("expected Text, got {other:?}"),
    }
    assert_eq!(rows[3].label, "Auth");
    assert_eq!(rows[4].label, "Key");
    // No errors anywhere.
    assert!(rows.iter().all(|r| r.error.is_none()));
    assert_eq!(*focused, Some(0));

    // StatusBlock: title "Status", two idle lines, no scroll.
    match status {
        ViewNode::StatusBlock {
            title,
            lines,
            scroll_offset,
        } => {
            assert_eq!(title, "Status");
            assert_eq!(*scroll_offset, 0);
            assert_eq!(lines.len(), 2);
            assert_eq!(lines[0], StyledLine(vec![Span::plain("Test: idle".to_string())]));
            assert_eq!(lines[1], StyledLine(vec![Span::plain("Catalog: idle".to_string())]));
        }
        other => panic!("expected StatusBlock, got {other:?}"),
    }
}

#[test]
fn account_detail_with_test_failure() {
    let mut snap = SettingsSnapshot::empty();
    write_provider(
        &mut snap,
        "anthropic",
        "https://api.anthropic.com",
        AuthScheme::XApiKey,
    );
    write_account(&mut snap, "alpha", "anthropic");
    select(&mut snap, "alpha");

    let comp = "alpha";
    snap.insert(
        &path(&["config", "gate", "accounts", &comp, "test_status"]),
        StoreValue::TestStatus(AccountTestStatus::Failed {
            reason: "401 unauthorized".into(),
            completed_at_ms: 1_000,
        }),
    );

    let view = render(&snap);
    let status = match &view {
        ViewNode::Stack { children, .. } => &children[1].0,
        other => panic!("expected Stack, got {other:?}"),
    };
    match status {
        ViewNode::StatusBlock { lines, .. } => {
            // First line is the test status with the failure reason.
            let first_text = lines[0]
                .0
                .iter()
                .map(|s| s.text.as_str())
                .collect::<String>();
            assert!(
                first_text.contains("401 unauthorized"),
                "expected reason in line: {first_text}"
            );
            // Should be styled as an error line (red).
            assert_eq!(lines[0].0[0].style.fg, Some(Color::Red));
        }
        other => panic!("expected StatusBlock, got {other:?}"),
    }
}

#[test]
fn account_detail_with_validation_errors() {
    let mut snap = SettingsSnapshot::empty();
    write_provider(
        &mut snap,
        "anthropic",
        "https://api.anthropic.com",
        AuthScheme::XApiKey,
    );
    write_account(&mut snap, "alpha", "anthropic");
    select(&mut snap, "alpha");

    let comp = "alpha";
    let mut errors = ValidationErrors::none();
    errors.endpoint = Some("invalid URL".to_string());
    errors.key = Some("required".to_string());
    snap.insert(
        &path(&["config", "gate", "accounts", &comp, "validation_status"]),
        StoreValue::Diagnostics(ValidationDiagnostics {
            field_errors: errors,
            computed_at_ms: 1,
        }),
    );

    let view = render(&snap);
    let rows = match &view {
        ViewNode::Stack { children, .. } => match &children[0].0 {
            ViewNode::Form { rows, .. } => rows,
            other => panic!("expected Form, got {other:?}"),
        },
        other => panic!("expected Stack, got {other:?}"),
    };
    // Errors flow through to the matching rows.
    assert_eq!(rows[2].error.as_deref(), Some("invalid URL")); // Endpoint
    assert_eq!(rows[4].error.as_deref(), Some("required")); // Key
    // Other rows untouched.
    assert!(rows[0].error.is_none());
    assert!(rows[1].error.is_none());
    assert!(rows[3].error.is_none());
}

#[test]
fn account_detail_during_test() {
    let mut snap = SettingsSnapshot::empty();
    write_provider(
        &mut snap,
        "anthropic",
        "https://api.anthropic.com",
        AuthScheme::XApiKey,
    );
    write_account(&mut snap, "alpha", "anthropic");
    select(&mut snap, "alpha");

    let comp = "alpha";
    snap.insert(
        &path(&["config", "gate", "accounts", &comp, "test_status"]),
        StoreValue::TestStatus(AccountTestStatus::Testing {
            started_at_ms: 1_000,
        }),
    );

    let view = render(&snap);
    let status = match &view {
        ViewNode::Stack { children, .. } => &children[1].0,
        other => panic!("expected Stack, got {other:?}"),
    };
    match status {
        ViewNode::StatusBlock { lines, .. } => {
            let first_text = lines[0]
                .0
                .iter()
                .map(|s| s.text.as_str())
                .collect::<String>();
            assert!(
                first_text.contains("Testing"),
                "expected Testing in line: {first_text}"
            );
        }
        other => panic!("expected StatusBlock, got {other:?}"),
    }
}

#[test]
fn account_detail_ascend_rule_is_nearest_registered() {
    assert_eq!(
        AccountDetailRenderer.ascend_to(),
        AscendRule::NearestRegistered
    );
}

fn select(snap: &mut SettingsSnapshot, name: &str) {
    snap.insert(
        &path(&["ui", "settings", "accounts", "selected"]),
        StoreValue::String(name.to_string()),
    );
}
