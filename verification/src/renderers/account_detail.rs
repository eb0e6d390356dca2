//! One connection: its fields as a form, and how its test and refresh went.

use crate::assoc::{assigned, place_of};
use crate::commands::account_model::{account_field_path, selected_account_path};
use crate::commands::compose::{
    field_index, field_label, field_order, field_place, label_text, protocol_choices, FIELD_ORDER,
};
use crate::commands::edit::key_place;
use crate::commands::selectors::{account_place, provider_place};
use crate::path::{component_ok, path3, path4, path5, valid_component, Path};
use crate::registry::{AscendRule, RenderCtx, RenderView, Renderer, RendererRegistry, RuleView};
use crate::renderers::models_list::refresh_place;
use crate::renderers::util::{
    account_at, diagnostics_at, field_at, number_at, provider_at, read_account, read_diagnostics,
    read_field, read_provider, read_refresh_status, read_test_status, read_text, read_u32,
    refresh_status_at, test_status_at, text_at,
};
use crate::snapshot::SnapshotView;
use crate::text::{decimal, join2, join3, number_text, place_of_text, texts};
use crate::types::{
    auth_text, no_errors, opt_text, AccountConfig, AccountField, AccountTestStatus, AccountView,
    AuthScheme, CatalogRefreshStatus, ProviderConfig, ProviderView, RefreshStatusView,
    TestStatusView, ValidationErrors,
};
use crate::view::{
    children_view, form_rows_view, lines_view, no_modifiers, plain_style, spans_view, Color,
    Direction, FormRow, FormRowView, FormValue, FormValueView, ModifierSet, NodeView, Sizing, Span,
    SpanView, Style, StyledLine, ViewNode,
};
use vstd::prelude::*;
use vstd::string::*;

use super::SettingsRenderer;

verus! {

/// The page at `settings/accounts/_detail`.
pub struct AccountDetailRenderer;

/// The names of the authentication schemes, in the selector's order.
pub open spec fn auth_choices() -> Seq<Seq<char>> {
    seq!["x-api-key"@, "bearer-token"@, "none"@]
}

/// The view of an optional provider.
pub open spec fn opt_provider(o: Option<ProviderConfig>) -> Option<ProviderView> {
    match o {
        Some(p) => Some(p@),
        None => None,
    }
}

/// What a field of the form lets the user see or change.
pub open spec fn field_shown(
    field: AccountField,
    name: Seq<char>,
    acct: AccountView,
    provider: Option<ProviderView>,
    key: Option<Seq<char>>,
    cursor: u32,
    focused: bool,
) -> FormValueView {
    let at = if focused {
        cursor
    } else {
        0
    };
    match field {
        AccountField::Name => FormValueView::ReadOnly(name),
        AccountField::Protocol => FormValueView::Selector {
            options: protocol_choices(),
            current: match place_of(protocol_choices(), acct.provider) {
                Some(i) => i as nat,
                None => 0,
            },
        },
        AccountField::Endpoint => FormValueView::Text {
            value: match provider {
                Some(p) => p.endpoint,
                None => Seq::empty(),
            },
            cursor: at,
            masked: false,
        },
        AccountField::Auth => FormValueView::Selector {
            options: auth_choices(),
            current: match provider {
                Some(p) => match p.effective_auth() {
                    AuthScheme::XApiKey => 0,
                    AuthScheme::BearerToken => 1,
                    AuthScheme::NoAuth => 2,
                },
                None => 2,
            },
        },
        AccountField::Key => FormValueView::Text {
            value: match key {
                Some(k) => k,
                None => Seq::empty(),
            },
            cursor: at,
            masked: true,
        },
    }
}

fn empty_text() -> (r: String)
    ensures
        r@ == Seq::<char>::empty(),
{
    let s: String = String::new();
    proof {
        assert(s@ =~= Seq::<char>::empty());
    }
    s
}

/// What a field of the form lets the user see or change. A text field's cursor
/// is only shown while the field is focused.
pub fn field_value(
    field: AccountField,
    name: &str,
    acct: &AccountConfig,
    provider: &Option<ProviderConfig>,
    key: &Option<String>,
    cursor: u32,
    focused: bool,
) -> (r: FormValue)
    ensures
        r@ == field_shown(
            field,
            name@,
            acct@,
            opt_provider(*provider),
            opt_text(*key),
            cursor,
            focused,
        ),
{
    let at: u32 = if focused {
        cursor
    } else {
        0
    };
    match field {
        AccountField::Name => FormValue::ReadOnly(name.to_owned()),
        AccountField::Protocol => {
            let options: Vec<String> = vec!["anthropic".to_owned(), "openai".to_owned()];
            proof {
                assert(texts(options@) =~= protocol_choices());
            }
            let current: usize = match place_of_text(
                options.as_slice(),
                acct.provider.as_str(),
            ) {
                Some(i) => i,
                None => 0,
            };
            FormValue::Selector { options, current }
        },
        AccountField::Endpoint => {
            let value: String = match provider {
                Some(p) => p.endpoint.clone(),
                None => empty_text(),
            };
            FormValue::Text { value, cursor: at, masked: false }
        },
        AccountField::Auth => {
            let scheme = match provider {
                Some(p) => p.resolved_auth(),
                None => AuthScheme::NoAuth,
            };
            let options: Vec<String> = vec![
                "x-api-key".to_owned(),
                "bearer-token".to_owned(),
                "none".to_owned(),
            ];
            proof {
                assert(texts(options@) =~= auth_choices());
            }
            let current: usize = match scheme {
                AuthScheme::XApiKey => 0,
                AuthScheme::BearerToken => 1,
                AuthScheme::NoAuth => 2,
            };
            FormValue::Selector { options, current }
        },
        AccountField::Key => {
            let value: String = match key {
                Some(k) => k.clone(),
                None => empty_text(),
            };
            FormValue::Text { value, cursor: at, masked: true }
        },
    }
}

/// The current option of the authentication selector is the scheme in force.
pub proof fn auth_selector_shows_scheme(
    name: Seq<char>,
    acct: AccountView,
    provider: ProviderView,
    key: Option<Seq<char>>,
    cursor: u32,
    focused: bool,
)
    ensures
        ({
            let shown = field_shown(
                AccountField::Auth,
                name,
                acct,
                Some(provider),
                key,
                cursor,
                focused,
            );
            shown->options[shown->current as int] == auth_text(provider.effective_auth())
        }),
{
}

/// A line in no particular style.
pub open spec fn neutral(text: Seq<char>) -> Seq<SpanView> {
    seq![SpanView { text, style: plain_style() }]
}

/// A line in green.
pub open spec fn success(text: Seq<char>) -> Seq<SpanView> {
    seq![
        SpanView {
            text,
            style: Style { fg: Some(Color::Green), bg: None, modifiers: no_modifiers() },
        },
    ]
}

/// A line in bold red.
pub open spec fn failure(text: Seq<char>) -> Seq<SpanView> {
    seq![
        SpanView {
            text,
            style: Style {
                fg: Some(Color::Red),
                bg: None,
                modifiers: ModifierSet { bold: true, dim: false },
            },
        },
    ]
}

/// How a connection test went, as a line.
pub open spec fn test_line(test: TestStatusView) -> Seq<SpanView> {
    match test {
        TestStatusView::Idle => neutral("Test: idle"@),
        TestStatusView::Testing { .. } => neutral("Test: Testing…"@),
        TestStatusView::Success { dialect, latency_ms, .. } => success(
            "✓ "@ + dialect + " responded in "@ + decimal(latency_ms as nat) + "ms"@,
        ),
        TestStatusView::Failed { reason, .. } => failure("✗ "@ + reason),
    }
}

/// How a refresh went, as a line.
pub open spec fn refresh_line(refresh: RefreshStatusView) -> Seq<SpanView> {
    match refresh {
        RefreshStatusView::Idle => neutral("Catalog: idle"@),
        RefreshStatusView::Refreshing { .. } => neutral("Catalog: Refreshing…"@),
        RefreshStatusView::Success { models_added, models_updated, .. } => success(
            "✓ Catalog: +"@ + decimal(models_added as nat) + " added, "@ + decimal(
                models_updated as nat,
            ) + " updated"@,
        ),
        RefreshStatusView::Failed { reason, .. } => failure("✗ Catalog: "@ + reason),
    }
}

/// The status block: the test's line, then the refresh's.
pub open spec fn status_shown(test: TestStatusView, refresh: RefreshStatusView) -> NodeView {
    NodeView::StatusBlock {
        title: "Status"@,
        lines: seq![test_line(test), refresh_line(refresh)],
        scroll_offset: 0,
    }
}

fn one_span(text: String, style: Style) -> (r: StyledLine)
    ensures
        r@ == seq![SpanView { text: text@, style }],
{
    let ghost shown = text@;
    let mut spans: Vec<Span> = Vec::new();
    spans.push(Span { text, style });
    proof {
        assert(spans_view(spans@) =~= seq![SpanView { text: shown, style }]);
    }
    StyledLine(spans)
}

/// A line in no particular style.
pub fn neutral_line(s: String) -> (r: StyledLine)
    ensures
        r@ == neutral(s@),
{
    one_span(
        s,
        Style { fg: None, bg: None, modifiers: ModifierSet { bold: false, dim: false } },
    )
}

/// A line in green.
pub fn success_line(s: String) -> (r: StyledLine)
    ensures
        r@ == success(s@),
{
    one_span(
        s,
        Style {
            fg: Some(Color::Green),
            bg: None,
            modifiers: ModifierSet { bold: false, dim: false },
        },
    )
}

/// A line in bold red.
pub fn error_line(s: String) -> (r: StyledLine)
    ensures
        r@ == failure(s@),
{
    one_span(
        s,
        Style {
            fg: Some(Color::Red),
            bg: None,
            modifiers: ModifierSet { bold: true, dim: false },
        },
    )
}

/// The status block: the test's line, then the refresh's.
pub fn status_block(test: &AccountTestStatus, refresh: &CatalogRefreshStatus) -> (r: ViewNode)
    ensures
        r@ == status_shown(test@, refresh@),
{
    let mut lines: Vec<StyledLine> = Vec::new();
    let first = match test {
        AccountTestStatus::Idle => neutral_line("Test: idle".to_owned()),
        AccountTestStatus::Testing { .. } => neutral_line("Test: Testing…".to_owned()),
        AccountTestStatus::Success { dialect, latency_ms, .. } => {
            let head: String = join3("✓ ", dialect.as_str(), " responded in ");
            success_line(join3(head.as_str(), number_text(*latency_ms).as_str(), "ms"))
        },
        AccountTestStatus::Failed { reason, .. } => error_line(join2("✗ ", reason.as_str())),
    };
    lines.push(first);
    let second = match refresh {
        CatalogRefreshStatus::Idle => neutral_line("Catalog: idle".to_owned()),
        CatalogRefreshStatus::Refreshing { .. } => neutral_line(
            "Catalog: Refreshing…".to_owned(),
        ),
        CatalogRefreshStatus::Success { models_added, models_updated, .. } => {
            let head: String = join3(
                "✓ Catalog: +",
                number_text(*models_added as u64).as_str(),
                " added, ",
            );
            success_line(
                join3(head.as_str(), number_text(*models_updated as u64).as_str(), " updated"),
            )
        },
        CatalogRefreshStatus::Failed { reason, .. } => error_line(
            join2("✗ Catalog: ", reason.as_str()),
        ),
    };
    lines.push(second);
    proof {
        assert(lines_view(lines@) =~= seq![test_line(test@), refresh_line(refresh@)]);
    }
    ViewNode::StatusBlock { title: "Status".to_owned(), lines, scroll_offset: 0 }
}

/// Where an account's test status lives.
pub open spec fn test_place(account: Seq<char>) -> Seq<Seq<char>> {
    seq!["config"@, "gate"@, "accounts"@, account, "test_status"@]
}

/// Where an account's diagnostics live.
pub open spec fn validation_place(account: Seq<char>) -> Seq<Seq<char>> {
    seq!["config"@, "gate"@, "accounts"@, account, "validation_status"@]
}

/// The provider record an account is bound to.
pub open spec fn provider_of(s: SnapshotView, acct: AccountView) -> Option<ProviderView> {
    if component_ok(acct.provider) {
        provider_at(s, provider_place(acct.provider))
    } else {
        None
    }
}

/// The focused field, which is the name at first.
pub open spec fn detail_focus(s: SnapshotView) -> AccountField {
    match field_at(s, account_field_path()) {
        Some(f) => f,
        None => AccountField::Name,
    }
}

/// The text cursor, at the start at first.
pub open spec fn detail_cursor(s: SnapshotView) -> u32 {
    match number_at(s, seq!["ui"@, "settings"@, "edit_cursor"@], u32::MAX as int) {
        Some(n) => n as u32,
        None => 0,
    }
}

/// The form row for a field.
pub open spec fn detail_row(
    s: SnapshotView,
    name: Seq<char>,
    acct: AccountView,
    field: AccountField,
) -> FormRowView {
    let errors = match diagnostics_at(s, validation_place(name)) {
        Some(e) => e,
        None => no_errors(),
    };
    FormRowView {
        label: label_text(field),
        value: field_shown(
            field,
            name,
            acct,
            provider_of(s, acct),
            text_at(s, key_place(name)),
            detail_cursor(s),
            field == detail_focus(s),
        ),
        error: errors.on(field),
        hint: None,
    }
}

/// The form: a row for each field, in order.
pub open spec fn detail_form(s: SnapshotView, name: Seq<char>, acct: AccountView) -> NodeView {
    NodeView::Form {
        title: Some("Account: "@ + name),
        rows: Seq::new(5, |i: int| detail_row(s, name, acct, field_order()[i])),
        focused: Some(field_place(detail_focus(s))),
    }
}

/// The selected connection's form over its status, or a line that says why
/// there is none.
pub open spec fn account_page(s: SnapshotView) -> NodeView {
    match text_at(s, selected_account_path()) {
        None => NodeView::Text("No account selected. Press Esc to return."@),
        Some(name) => if !component_ok(name) {
            NodeView::Text("No account selected. Press Esc to return."@)
        } else {
            match account_at(s, account_place(name)) {
                None => NodeView::Text(
                    "Account '"@ + name + "' was removed. Press Esc to return."@,
                ),
                Some(acct) => {
                    let test = match test_status_at(s, test_place(name)) {
                        Some(t) => t,
                        None => TestStatusView::Idle,
                    };
                    let refresh = match refresh_status_at(s, refresh_place(name)) {
                        Some(r) => r,
                        None => RefreshStatusView::Idle,
                    };
                    NodeView::Stack {
                        dir: Direction::Vertical,
                        children: seq![
                            (detail_form(s, name, acct), Sizing::Min(7)),
                            (status_shown(test, refresh), Sizing::Fill),
                        ],
                    }
                },
            }
        },
    }
}

fn build_detail_form(ctx: &RenderCtx<'_>, name: &str, acct: &AccountConfig) -> (r: ViewNode)
    requires
        component_ok(name@),
    ensures
        r@ == detail_form(ctx.data@, name@, acct@),
{
    let ghost s = ctx.data@;
    let provider: Option<ProviderConfig> = if valid_component(acct.provider.as_str()) {
        read_provider(ctx.data, &path4("config", "gate", "providers", acct.provider.as_str()))
    } else {
        None
    };
    let key: Option<String> = read_text(ctx.data, &path3("secret", "keys", name));
    let errors: ValidationErrors = match read_diagnostics(
        ctx.data,
        &path5("config", "gate", "accounts", name, "validation_status"),
    ) {
        Some(e) => e,
        None => ValidationErrors::none(),
    };
    let focused_field = match read_field(
        ctx.data,
        &path4("ui", "settings", "account_detail", "field"),
    ) {
        Some(f) => f,
        None => AccountField::Name,
    };
    let cursor: u32 = match read_u32(ctx.data, &path3("ui", "settings", "edit_cursor")) {
        Some(n) => n,
        None => 0,
    };
    let mut rows: Vec<FormRow> = Vec::new();
    let mut i: usize = 0;
    while i < 5
        invariant
            i <= 5,
            s == ctx.data@,
            opt_provider(provider) == provider_of(s, acct@),
            opt_text(key) == text_at(s, key_place(name@)),
            errors@ == (match diagnostics_at(s, validation_place(name@)) {
                Some(e) => e,
                None => no_errors(),
            }),
            focused_field == detail_focus(s),
            cursor == detail_cursor(s),
            rows@.len() == i,
            forall|k: int|
                0 <= k < i ==> (#[trigger] rows@[k])@ == detail_row(
                    s,
                    name@,
                    acct@,
                    field_order()[k],
                ),
        decreases 5 - i,
    {
        let field = FIELD_ORDER[i];
        proof {
            assert(FIELD_ORDER@ =~= field_order());
        }
        rows.push(
            FormRow {
                label: field_label(field).to_owned(),
                value: field_value(
                    field,
                    name,
                    acct,
                    &provider,
                    &key,
                    cursor,
                    field == focused_field,
                ),
                error: errors.on(field),
                hint: None,
            },
        );
        i += 1;
    }
    proof {
        assert(form_rows_view(rows@) =~= detail_form(s, name@, acct@)->Form_rows);
    }
    ViewNode::Form {
        title: Some(join2("Account: ", name)),
        rows,
        focused: Some(field_index(focused_field)),
    }
}

impl Renderer for AccountDetailRenderer {
    open spec fn rule(&self) -> RuleView {
        RuleView::NearestRegistered
    }

    open spec fn behind(&self) -> Option<Seq<Seq<char>>> {
        None
    }

    open spec fn shows(&self, ctx: RenderView, backdrop: NodeView) -> NodeView {
        account_page(ctx.data)
    }

    fn ascend_to(&self) -> (r: AscendRule) {
        AscendRule::NearestRegistered
    }

    fn backdrop(&self) -> (r: Option<Path>) {
        None
    }

    fn render(&self, ctx: &RenderCtx<'_>, _backdrop: ViewNode) -> (r: ViewNode) {
        let selected: String = match read_text(
            ctx.data,
            &path4("ui", "settings", "accounts", "selected"),
        ) {
            Some(s) => s,
            None => {
                return ViewNode::text("No account selected. Press Esc to return.");
            },
        };
        let name: &str = selected.as_str();
        if !valid_component(name) {
            return ViewNode::text("No account selected. Press Esc to return.");
        }
        let acct: AccountConfig = match read_account(
            ctx.data,
            &path4("config", "gate", "accounts", name),
        ) {
            Some(a) => a,
            None => {
                return ViewNode::Text(
                    join3("Account '", name, "' was removed. Press Esc to return."),
                );
            },
        };
        let test = read_test_status(
            ctx.data,
            &path5("config", "gate", "accounts", name, "test_status"),
        );
        let refresh = match read_refresh_status(
            ctx.data,
            &path5("config", "gate", "accounts", name, "refresh_status"),
        ) {
            Some(r) => r,
            None => CatalogRefreshStatus::Idle,
        };
        let form = build_detail_form(ctx, name, &acct);
        let status = status_block(&test, &refresh);
        let ghost shown = (form@, status@);
        let mut children: Vec<(ViewNode, Sizing)> = Vec::new();
        children.push((form, Sizing::Min(7)));
        children.push((status, Sizing::Fill));
        proof {
            assert(children_view(children@) =~= seq![
                (shown.0, Sizing::Min(7)),
                (shown.1, Sizing::Fill),
            ]);
        }
        ViewNode::vertical(children)
    }
}

/// Where the page is registered.
pub open spec fn account_detail_cursor() -> Seq<Seq<char>> {
    seq!["settings"@, "accounts"@, "_detail"@]
}

/// Registers the page.
pub fn register(reg: &mut RendererRegistry<SettingsRenderer>)
    ensures
        final(reg)@ == assigned(
            old(reg)@,
            account_detail_cursor(),
            SettingsRenderer::AccountDetail(AccountDetailRenderer),
        ),
{
    reg.register(path3("settings", "accounts", "_detail"), SettingsRenderer::AccountDetail(AccountDetailRenderer));
}

} // verus!
