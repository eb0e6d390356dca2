//! The settings tree: a section for the connections and one for the models,
//! one below the other.

use crate::assoc::{assigned, place_is_first, place_of, place_unique};
use crate::commands::account_model::{confirm_scope, cursor_is_in_confirm_delete, focused_path};
use crate::commands::compose::{
    account_names, accounts_root, compose_scope, cursor_is_in_compose_form, field_label,
    focused_path as focus_place, label_text, place_of_scheme, turn, turned, CycleDir,
};
use crate::commands::compose_form::{compose_form, compose_form_view};
use crate::commands::edit::{edit_state, read_edit_state, EditState, EditView};
use crate::commands::manual_model::{catalog, cursor_to_manual_model_stage, manual, stage_of_cursor};
use crate::commands::selectors::{
    assembled_account, assembled_provider, dialects, read_account_assembling_flat,
    read_provider_assembling_flat, resolve_protocol_options,
};
use crate::keys::opt_path;
use crate::path::{component_ok, leads, path2, path4, path5, valid_component, Path};
use crate::registry::{AscendRule, RenderCtx, RenderView, Renderer, RendererRegistry, RuleView};
use crate::renderers::util::{
    bool_at, models_or_empty, path_at, read_bool, read_models_or_empty, read_text,
    read_text_or_empty, text_at, text_or_empty,
};
use crate::visible_rows::{
    enumerate, position_of, row_at, rows_view, visible, KindView, RowKind, RowView, VisibleRow,
};
use crate::snapshot::{SettingsSnapshot, SnapshotView};
use crate::text::{
    ascending, chars_of, comes_before, contains_text, join2, join3, place_of_text, precedes, same,
    text_of, texts,
};
use crate::types::{
    auth_name, auth_order, auth_schemes, auth_text, copy_opt_text, models_view, opt_text,
    AccountField, AuthScheme, ManualModelStage, ModelField, ModelInfo,
};
use crate::view::{
    bare_item, children_view, items_view, opt_index, opt_spans, plain_item, plain_style, spans_view,
    stack_view, Direction, FormLayoutView, ItemView, ListItem, ModifierSet, NodeView, Padding,
    Sizing, Span, SpanView, Style, ViewNode,
};
use vstd::prelude::*;
use vstd::slice::slice_subrange;
use vstd::string::*;

use super::SettingsRenderer;

verus! {

/// The page at `settings/index`.
pub struct IndexRenderer;

/// The cursor: what has the focus.
pub fn read_cursor(data: &SettingsSnapshot) -> (r: Option<Path>)
    ensures
        opt_path(r) == path_at(data@, focus_place()),
{
    focused_path(data)
}

/// What is shown at the right of the title while there are unsaved changes.
pub open spec fn dirty_indicator(s: SnapshotView) -> Option<Seq<char>> {
    if bool_at(s, seq!["config"@, "_dirty"@]) == Some(true) {
        Some("● unsaved · Ctrl+S"@)
    } else {
        None
    }
}

/// What is shown at the right of the title while there are unsaved changes.
pub fn read_dirty_indicator(data: &SettingsSnapshot) -> (r: Option<String>)
    ensures
        opt_text(r) == dirty_indicator(data@),
{
    match read_bool(data, &path2("config", "_dirty")) {
        Some(dirty) => if dirty {
            Some("● unsaved · Ctrl+S".to_owned())
        } else {
            None
        },
        None => None,
    }
}

/// Whether a row is the header of the models.
pub open spec fn is_models_header(kind: KindView) -> bool {
    match kind {
        KindView::Entry { entry_id } => entry_id == "models"@,
        _ => false,
    }
}

/// How many rows come before the header of the models.
pub open spec fn accounts_len(rows: Seq<RowView>) -> int
    decreases rows.len(),
{
    if rows.len() == 0 {
        0
    } else {
        let n = accounts_len(rows.drop_last());
        if n < rows.len() - 1 || is_models_header(rows.last().kind) {
            n
        } else {
            rows.len() as int
        }
    }
}

proof fn lemma_accounts_len(rows: Seq<RowView>, n: int)
    requires
        0 <= n <= rows.len(),
        forall|i: int| 0 <= i < n ==> !is_models_header((#[trigger] rows[i]).kind),
        n < rows.len() ==> is_models_header(rows[n].kind),
    ensures
        accounts_len(rows) == n,
    decreases rows.len(),
{
    if rows.len() > 0 {
        let t = rows.drop_last();
        if n == rows.len() {
            assert forall|i: int| 0 <= i < t.len() implies !is_models_header(
                (#[trigger] t[i]).kind,
            ) by {
                assert(t[i] == rows[i]);
            }
            lemma_accounts_len(t, n - 1);
            assert(!is_models_header(rows[n - 1].kind));
        } else {
            assert forall|i: int| 0 <= i < n implies !is_models_header((#[trigger] t[i]).kind) by {
                assert(t[i] == rows[i]);
            }
            if n < t.len() {
                assert(t[n] == rows[n]);
            }
            lemma_accounts_len(t, n);
        }
    }
}

/// Splits the rows at the header of the models: the connections' rows before
/// it, the models' from it on.
pub fn partition_rows_by_section(rows: &[VisibleRow]) -> (r: (&[VisibleRow], &[VisibleRow]))
    ensures
        0 <= accounts_len(rows_view(rows@)) <= rows@.len(),
        r.0@ == rows@.subrange(0, accounts_len(rows_view(rows@))),
        r.1@ == rows@.subrange(accounts_len(rows_view(rows@)), rows@.len() as int),
{
    let ghost all = rows_view(rows@);
    let mut i: usize = 0;
    while i < rows.len() && !row_is_models_header(&rows[i].kind)
        invariant
            i <= rows@.len(),
            all == rows_view(rows@),
            forall|k: int| 0 <= k < i ==> !is_models_header((#[trigger] all[k]).kind),
        decreases rows@.len() - i,
    {
        i += 1;
    }
    proof {
        if i < rows@.len() {
            assert(all[i as int] == rows@[i as int]@);
        }
        lemma_accounts_len(all, i as int);
    }
    (slice_subrange(rows, 0, i), slice_subrange(rows, i, rows.len()))
}

fn row_is_models_header(kind: &RowKind) -> (r: bool)
    ensures
        r == is_models_header(kind@),
{
    match kind {
        RowKind::Entry { entry_id } => same(entry_id.as_str(), "models"),
        _ => false,
    }
}

/// The place of the first colon followed by a space, from `i` on.
pub open spec fn colon_from(s: Seq<char>, i: int) -> Option<int>
    decreases s.len() - i,
{
    if i + 1 >= s.len() {
        None
    } else if s[i] == ':' && s[i + 1] == ' ' {
        Some(i)
    } else {
        colon_from(s, i + 1)
    }
}

/// What a label of the form `name: value` gives as its value: what stands
/// between its first two colons that a space follows, or behind the only one.
pub open spec fn label_value(label: Seq<char>) -> Seq<char> {
    match colon_from(label, 0) {
        None => Seq::empty(),
        Some(i) => match colon_from(label, i + 2) {
            None => label.subrange(i + 2, label.len() as int),
            Some(j) => label.subrange(i + 2, j),
        },
    }
}

fn find_colon(cs: &Vec<char>, from: usize) -> (r: Option<usize>)
    requires
        from <= cs@.len(),
    ensures
        opt_index(r) == colon_from(cs@, from as int),
        r is Some ==> from <= r->0 && r->0 + 1 < cs@.len(),
{
    let mut i: usize = from;
    while i < cs.len() && i + 1 < cs.len()
        invariant
            from <= i <= cs@.len(),
            colon_from(cs@, i as int) == colon_from(cs@, from as int),
        decreases cs@.len() - i,
    {
        if cs[i] == ':' && cs[i + 1] == ' ' {
            return Some(i);
        }
        i += 1;
    }
    None
}

fn value_of_label(label: &str) -> (r: String)
    ensures
        r@ == label_value(label@),
{
    let cs: Vec<char> = chars_of(label);
    let len: usize = cs.len();
    match find_colon(&cs, 0) {
        None => {
            let s: String = String::new();
            proof {
                assert(s@ =~= Seq::<char>::empty());
            }
            s
        },
        Some(i) => match find_colon(&cs, i + 2) {
            None => text_of(&cs, i + 2, len),
            Some(j) => text_of(&cs, i + 2, j),
        },
    }
}

/// The scheme in force for an account.
pub open spec fn auth_of_account(s: SnapshotView, account: Seq<char>) -> Option<AuthScheme> {
    match assembled_account(s, account) {
        None => None,
        Some(a) => match assembled_provider(s, a.provider) {
            None => None,
            Some(p) => Some(p.effective_auth()),
        },
    }
}

/// The scheme in force for an account; `None` where the account or its
/// provider has no record.
pub fn resolve_account_auth(data: &SettingsSnapshot, account: &str) -> (r: Option<AuthScheme>)
    ensures
        r == auth_of_account(data@, account@),
{
    match read_account_assembling_flat(data, account) {
        None => None,
        Some(a) => match read_provider_assembling_flat(data, a.provider.as_str()) {
            None => None,
            Some(p) => Some(p.resolved_auth()),
        },
    }
}

/// The row at a cursor.
pub open spec fn row_at_cursor(
    rows: Seq<RowView>,
    cursor: Option<Seq<Seq<char>>>,
) -> Option<RowView> {
    match cursor {
        Some(c) => row_at(rows, c),
        None => None,
    }
}

/// The dialects on offer on the row at the cursor, if it is a protocol's.
pub open spec fn focused_options(
    rows: Seq<RowView>,
    cursor: Option<Seq<Seq<char>>>,
) -> Seq<Seq<char>> {
    match row_at_cursor(rows, cursor) {
        Some(row) => match row.kind {
            KindView::AccountField { field: AccountField::Protocol, .. } => dialects(
                label_value(row.label),
            ),
            _ => Seq::empty(),
        },
        None => Seq::empty(),
    }
}

/// The scheme in force on the row at the cursor, if it is a scheme's.
pub open spec fn focused_auth(
    s: SnapshotView,
    rows: Seq<RowView>,
    cursor: Option<Seq<Seq<char>>>,
) -> Option<AuthScheme> {
    match row_at_cursor(rows, cursor) {
        Some(row) => match row.kind {
            KindView::AccountField { account, field: AccountField::Auth } => auth_of_account(
                s,
                account,
            ),
            _ => None,
        },
        None => None,
    }
}

/// What the selector at the cursor offers, and the scheme in force there.
pub fn resolve_focused_selector_state(
    data: &SettingsSnapshot,
    rows: &Vec<VisibleRow>,
    cursor: &Option<Path>,
) -> (r: (Vec<String>, Option<AuthScheme>))
    ensures
        texts(r.0@) == focused_options(rows_view(rows@), opt_path(*cursor)),
        r.1 == focused_auth(data@, rows_view(rows@), opt_path(*cursor)),
{
    let none: Vec<String> = Vec::new();
    proof {
        assert(texts(none@) =~= Seq::<Seq<char>>::empty());
    }
    let place: Option<usize> = match cursor {
        Some(c) => position_of(rows, c),
        None => None,
    };
    match place {
        None => (none, None),
        Some(i) => {
            let row: &VisibleRow = &rows[i];
            proof {
                assert(rows_view(rows@)[i as int] == row@);
            }
            match &row.kind {
                RowKind::AccountField { account, field } => match field {
                    AccountField::Protocol => {
                        let current: String = value_of_label(row.label.as_str());
                        (resolve_protocol_options(data, current.as_str()), None)
                    },
                    AccountField::Auth => (none, resolve_account_auth(data, account.as_str())),
                    _ => (none, None),
                },
                _ => (none, None),
            }
        },
    }
}

/// What every part of the page is drawn with.
pub struct SectionCtx<'a> {
    pub cursor: &'a Option<Path>,
    pub edit_state: &'a Option<EditState>,
    pub protocol_options: &'a Vec<String>,
    pub auth_current: Option<AuthScheme>,
}

/// What a `SectionCtx` holds.
pub struct SectionView {
    pub cursor: Option<Seq<Seq<char>>>,
    pub edit: Option<EditView>,
    pub options: Seq<Seq<char>>,
    pub auth: Option<AuthScheme>,
}

/// The view of an optional edit.
pub open spec fn opt_edit(o: Option<EditState>) -> Option<EditView> {
    match o {
        Some(e) => Some(e@),
        None => None,
    }
}

impl<'a> View for SectionCtx<'a> {
    type V = SectionView;

    open spec fn view(&self) -> SectionView {
        SectionView {
            cursor: opt_path(*self.cursor),
            edit: opt_edit(*self.edit_state),
            options: texts(self.protocol_options@),
            auth: self.auth_current,
        }
    }
}

/// The names of the schemes, in order.
pub open spec fn scheme_names() -> Seq<Seq<char>> {
    Seq::new(3, |i: int| auth_text(auth_order()[i]))
}

/// A style that recedes.
pub open spec fn dim_style() -> Style {
    Style { fg: None, bg: None, modifiers: ModifierSet { bold: false, dim: true } }
}

/// A style that stands out.
pub open spec fn bright_style() -> Style {
    Style { fg: None, bg: None, modifiers: ModifierSet { bold: true, dim: false } }
}

/// The option at `place` between its neighbours.
pub open spec fn carousel(
    lead: Seq<char>,
    label: Seq<char>,
    options: Seq<Seq<char>>,
    place: int,
) -> Seq<SpanView> {
    let len = options.len() as int;
    seq![
        SpanView { text: lead + label + ": "@, style: plain_style() },
        SpanView {
            text: "◂ "@ + options[turned(len, Some(place), CycleDir::Back)] + "  "@,
            style: dim_style(),
        },
        SpanView { text: options[place], style: bright_style() },
        SpanView {
            text: "  "@ + options[turned(len, Some(place), CycleDir::Forward)] + " ▸"@,
            style: dim_style(),
        },
    ]
}

/// `o`, or the first place.
pub open spec fn or_first(o: Option<int>) -> int {
    match o {
        Some(i) => i,
        None => 0,
    }
}

/// The carousel of a selector's row; none on other rows, nor where nothing is on
/// offer.
pub open spec fn row_carousel(
    row: RowView,
    lead: Seq<char>,
    options: Seq<Seq<char>>,
    auth: Option<AuthScheme>,
) -> Option<Seq<SpanView>> {
    match row.kind {
        KindView::AccountField { field: AccountField::Protocol, .. } => if options.len() == 0 {
            None
        } else {
            Some(
                carousel(
                    lead,
                    "Protocol"@,
                    options,
                    or_first(place_of(options, label_value(row.label))),
                ),
            )
        },
        KindView::AccountField { field: AccountField::Auth, .. } => Some(
            carousel(
                lead,
                "Auth"@,
                scheme_names(),
                or_first(
                    place_of(
                        auth_order(),
                        match auth {
                            Some(a) => a,
                            None => AuthScheme::XApiKey,
                        },
                    ),
                ),
            ),
        ),
        _ => None,
    }
}

fn build_carousel(lead: &str, label: &str, options: &Vec<String>, place: usize) -> (r: Vec<Span>)
    requires
        place < options@.len(),
    ensures
        spans_view(r@) == carousel(lead@, label@, texts(options@), place as int),
{
    let len: usize = options.len();
    let prev: &String = &options[turn(len, Some(place), CycleDir::Back)];
    let next: &String = &options[turn(len, Some(place), CycleDir::Forward)];
    let dim = Style { fg: None, bg: None, modifiers: ModifierSet { bold: false, dim: true } };
    let bright = Style { fg: None, bg: None, modifiers: ModifierSet { bold: true, dim: false } };
    let mut spans: Vec<Span> = Vec::new();
    spans.push(Span::plain(join3(lead, label, ": ")));
    spans.push(Span { text: join3("◂ ", prev.as_str(), "  "), style: dim });
    spans.push(Span { text: options[place].clone(), style: bright });
    spans.push(Span { text: join3("  ", next.as_str(), " ▸"), style: dim });
    proof {
        assert(spans_view(spans@) =~= carousel(lead@, label@, texts(options@), place as int));
    }
    spans
}

/// The names of the schemes, in order.
pub fn scheme_options() -> (r: Vec<String>)
    ensures
        texts(r@) == scheme_names(),
{
    let schemes: Vec<AuthScheme> = auth_schemes();
    let mut out: Vec<String> = Vec::new();
    let mut i: usize = 0;
    while i < schemes.len()
        invariant
            i <= schemes@.len(),
            schemes@ == auth_order(),
            out@.len() == i,
            forall|k: int| 0 <= k < i ==> (#[trigger] out@[k])@ == auth_text(auth_order()[k]),
        decreases schemes@.len() - i,
    {
        out.push(auth_name(schemes[i]).to_owned());
        i += 1;
    }
    proof {
        assert(texts(out@) =~= scheme_names());
    }
    out
}

/// The carousel of a selector's row.
pub fn selector_carousel_spans(
    row: &VisibleRow,
    indent: &str,
    glyph: &str,
    protocol_options: &Vec<String>,
    auth_current: Option<AuthScheme>,
) -> (r: Option<Vec<Span>>)
    ensures
        opt_spans(r) == row_carousel(
            row@,
            indent@ + glyph@,
            texts(protocol_options@),
            auth_current,
        ),
{
    let lead: String = join2(indent, glyph);
    match &row.kind {
        RowKind::AccountField { field, .. } => match field {
            AccountField::Protocol => {
                if protocol_options.len() == 0 {
                    return None;
                }
                let value: String = value_of_label(row.label.as_str());
                let place: usize = match place_of_text(
                    protocol_options.as_slice(),
                    value.as_str(),
                ) {
                    Some(i) => i,
                    None => 0,
                };
                Some(build_carousel(lead.as_str(), "Protocol", protocol_options, place))
            },
            AccountField::Auth => {
                let current = match auth_current {
                    Some(a) => a,
                    None => AuthScheme::XApiKey,
                };
                let schemes: Vec<AuthScheme> = auth_schemes();
                let place: usize = match place_of_scheme(schemes.as_slice(), current) {
                    Some(i) => i,
                    None => 0,
                };
                let options: Vec<String> = scheme_options();
                proof {
                    assert(texts(options@).len() == 3);
                }
                Some(build_carousel(lead.as_str(), "Auth", &options, place))
            },
            _ => None,
        },
        _ => None,
    }
}

/// The label of an editable field.
pub open spec fn editable_label(kind: KindView) -> Option<Seq<char>> {
    match kind {
        KindView::AccountField { field, .. } => Some(label_text(field)),
        KindView::ModelField { field: ModelField::ContextSizeOverride, .. } => Some(
            "max_context_size"@,
        ),
        KindView::ModelField { field: ModelField::OutputTokensOverride, .. } => Some(
            "max_output_tokens"@,
        ),
        _ => None,
    }
}

/// A row's label, or what is typed into it while it is edited.
pub open spec fn decorated_label(row: RowView, edit: Option<EditView>) -> Seq<char> {
    match edit {
        Some(e) => if e.field_path == row.path && editable_label(row.kind) is Some {
            editable_label(row.kind)->0 + "▸ "@ + e.buffer + "\u{258F}"@
        } else {
            row.label
        },
        None => row.label,
    }
}

/// A row's label, or what is typed into it while it is edited.
pub fn decorate_row_label(row: &VisibleRow, edit_state: &Option<EditState>) -> (r: String)
    ensures
        r@ == decorated_label(row@, opt_edit(*edit_state)),
{
    match edit_state {
        None => row.label.clone(),
        Some(state) => {
            if !state.field_path.same_as(&row.path) {
                return row.label.clone();
            }
            let label: &str = match &row.kind {
                RowKind::AccountField { field, .. } => field_label(*field),
                RowKind::ModelField { field, .. } => match field {
                    ModelField::ContextSizeOverride => "max_context_size",
                    ModelField::OutputTokensOverride => "max_output_tokens",
                },
                _ => {
                    return row.label.clone();
                },
            };
            let head: String = join3(label, "▸ ", state.buffer.as_str());
            join2(head.as_str(), "\u{258F}")
        },
    }
}

/// Two spaces for each level of nesting.
pub open spec fn indent_text(depth: nat) -> Seq<char>
    decreases depth,
{
    if depth == 0 {
        Seq::empty()
    } else {
        indent_text((depth - 1) as nat) + "  "@
    }
}

fn indent_of(depth: usize) -> (r: String)
    ensures
        r@ == indent_text(depth as nat),
{
    let mut s: String = String::new();
    let mut i: usize = 0;
    proof {
        assert(s@ =~= indent_text(0));
    }
    while i < depth
        invariant
            i <= depth,
            s@ == indent_text(i as nat),
        decreases depth - i,
    {
        s.append("  ");
        i += 1;
    }
    s
}

/// The mark in front of a row: whether it is open, closed, or has nothing below
/// it.
pub open spec fn glyph_text(row: RowView) -> Seq<char> {
    if row.expandable {
        if row.expanded {
            "▾ "@
        } else {
            "▸ "@
        }
    } else {
        "  "@
    }
}

/// The item that stands for a row. The selector at the cursor shows its
/// neighbours too; an edited row shows what is typed.
pub open spec fn row_item(row: RowView, ctx: SectionView) -> ItemView {
    let lead = indent_text(row.depth) + glyph_text(row);
    let spans = if ctx.cursor == Some(row.path) {
        row_carousel(row, lead, ctx.options, ctx.auth)
    } else {
        None
    };
    ItemView {
        primary: lead + if spans is Some {
            row.label
        } else {
            decorated_label(row, ctx.edit)
        },
        primary_spans: spans,
        secondary: row.secondary,
        badge: row.badge,
        focus: Some(row.path),
    }
}

/// The items that stand for rows.
pub open spec fn row_items(rows: Seq<RowView>, ctx: SectionView) -> Seq<ItemView> {
    Seq::new(rows.len(), |i: int| row_item(rows[i], ctx))
}

fn build_item(row: &VisibleRow, ctx: &SectionCtx<'_>) -> (r: ListItem)
    ensures
        r@ == row_item(row@, ctx@),
{
    let indent: String = indent_of(row.depth);
    let glyph: &str = if row.expandable {
        if row.expanded {
            "▾ "
        } else {
            "▸ "
        }
    } else {
        "  "
    };
    let is_focused: bool = match ctx.cursor {
        Some(c) => c.same_as(&row.path),
        None => false,
    };
    let spans: Option<Vec<Span>> = if is_focused {
        selector_carousel_spans(
            row,
            indent.as_str(),
            glyph,
            ctx.protocol_options,
            ctx.auth_current,
        )
    } else {
        None
    };
    let label: String = if spans.is_some() {
        row.label.clone()
    } else {
        decorate_row_label(row, ctx.edit_state)
    };
    ListItem {
        primary: join3(indent.as_str(), glyph, label.as_str()),
        primary_spans: spans,
        secondary: copy_opt_text(&row.secondary),
        badge: copy_opt_text(&row.badge),
        focus: Some(row.path.copied()),
    }
}

/// The items that stand for rows.
pub fn rows_to_list_items(rows: &[VisibleRow], ctx: &SectionCtx<'_>) -> (r: Vec<ListItem>)
    ensures
        items_view(r@) == row_items(rows_view(rows@), ctx@),
{
    let mut out: Vec<ListItem> = Vec::new();
    let mut i: usize = 0;
    while i < rows.len()
        invariant
            i <= rows@.len(),
            out@.len() == i,
            forall|k: int| 0 <= k < i ==> (#[trigger] out@[k])@ == row_item(rows@[k]@, ctx@),
        decreases rows@.len() - i,
    {
        out.push(build_item(&rows[i], ctx));
        i += 1;
    }
    proof {
        assert(items_view(out@) =~= row_items(rows_view(rows@), ctx@));
    }
    out
}

/// What each item can take the focus of.
pub open spec fn focuses(items: Seq<ItemView>) -> Seq<Option<Seq<Seq<char>>>> {
    Seq::new(items.len(), |i: int| items[i].focus)
}

/// The first item at the cursor.
pub open spec fn selected_item(
    items: Seq<ItemView>,
    cursor: Option<Seq<Seq<char>>>,
) -> Option<int> {
    if cursor is Some {
        place_of(focuses(items), cursor)
    } else {
        None
    }
}

fn select_item(items: &Vec<ListItem>, cursor: &Option<Path>) -> (r: Option<usize>)
    ensures
        opt_index(r) == selected_item(items_view(items@), opt_path(*cursor)),
{
    let ghost all = focuses(items_view(items@));
    match cursor {
        None => None,
        Some(c) => {
            let mut i: usize = 0;
            while i < items.len()
                invariant
                    i <= items@.len(),
                    *cursor == Some(*c),
                    all == focuses(items_view(items@)),
                    forall|k: int| 0 <= k < i ==> #[trigger] all[k] != Some(c@),
                decreases items@.len() - i,
            {
                let hit: bool = match &items[i].focus {
                    Some(f) => f.same_as(c),
                    None => false,
                };
                proof {
                    assert(all[i as int] == opt_path(items@[i as int].focus));
                }
                if hit {
                    proof {
                        place_unique(all, Some(c@), i as int);
                    }
                    return Some(i);
                }
                i += 1;
            }
            proof {
                place_is_first(all, Some(c@));
            }
            None
        },
    }
}

/// A list of items, the one at the cursor highlighted.
pub open spec fn item_list(items: Seq<ItemView>, cursor: Option<Seq<Seq<char>>>) -> NodeView {
    NodeView::List { title: None, items, selected: selected_item(items, cursor) }
}

/// A list of rows, the one at the cursor highlighted.
pub fn build_list_from_rows(rows: &[VisibleRow], ctx: &SectionCtx<'_>) -> (r: ViewNode)
    ensures
        r@ == item_list(row_items(rows_view(rows@), ctx@), ctx@.cursor),
{
    let items: Vec<ListItem> = rows_to_list_items(rows, ctx);
    let selected: Option<usize> = select_item(&items, ctx.cursor);
    ViewNode::List { title: None, items, selected }
}

/// Those names that may stand in a path.
pub open spec fn valid_names(names: Seq<Seq<char>>) -> Seq<Seq<char>>
    decreases names.len(),
{
    if names.len() == 0 {
        Seq::empty()
    } else {
        let rest = valid_names(names.drop_last());
        if component_ok(names.last()) {
            rest.push(names.last())
        } else {
            rest
        }
    }
}

/// Those accounts that have no model.
pub open spec fn without_models(s: SnapshotView, names: Seq<Seq<char>>) -> Seq<Seq<char>>
    decreases names.len(),
{
    if names.len() == 0 {
        Seq::empty()
    } else {
        let rest = without_models(s, names.drop_last());
        if models_or_empty(s, catalog(names.last())).len() == 0 {
            rest.push(names.last())
        } else {
            rest
        }
    }
}

/// Where the lines for an account without models go: behind the last model row
/// of an account that comes before it, or in front of everything.
pub open spec fn insertion_point(
    rows: Seq<RowView>,
    names: Seq<Seq<char>>,
    name: Seq<char>,
) -> nat
    decreases rows.len(),
{
    if rows.len() == 0 {
        0
    } else {
        match rows.last().kind {
            KindView::Model { account, .. } => if names.contains(account) && precedes(
                account,
                name,
            ) {
                rows.len()
            } else {
                insertion_point(rows.drop_last(), names, name)
            },
            _ => insertion_point(rows.drop_last(), names, name),
        }
    }
}

/// What the form for entering a model asks for.
pub open spec fn stage_prompt(stage: Option<ManualModelStage>) -> Seq<char> {
    match stage {
        Some(ManualModelStage::Ctx) => "Max context"@,
        Some(ManualModelStage::Out) => "Max output"@,
        _ => "Model id"@,
    }
}

/// The stage that the cursor is at.
pub open spec fn stage_at_cursor(s: SnapshotView) -> Option<ManualModelStage> {
    match path_at(s, focus_place()) {
        Some(c) => stage_of_cursor(c),
        None => None,
    }
}

/// The two lines for an account without models: that it has none, and how to
/// enter one, or what has been entered so far.
pub open spec fn empty_lines(s: SnapshotView, name: Seq<char>) -> Seq<ItemView> {
    seq![
        bare_item("  "@ + name + " / (no models — press r to refresh)"@),
        bare_item(
            if text_at(s, manual("account"@)) == Some(name) {
                "    "@ + stage_prompt(stage_at_cursor(s)) + "▸ "@ + text_or_empty(
                    s,
                    manual("buffer"@),
                ) + "\u{258F}"@
            } else {
                "    + add model manually (m)"@
            },
        ),
    ]
}

/// The lines that go in front of item `k`, for the accounts in their order.
pub open spec fn lines_before(
    s: SnapshotView,
    rows: Seq<RowView>,
    names: Seq<Seq<char>>,
    empties: Seq<Seq<char>>,
    k: int,
) -> Seq<ItemView>
    decreases empties.len(),
{
    if empties.len() == 0 {
        Seq::empty()
    } else {
        let rest = lines_before(s, rows, names, empties.drop_last(), k);
        if insertion_point(rows, names, empties.last()) == k {
            rest + empty_lines(s, empties.last())
        } else {
            rest
        }
    }
}

/// The first `k` items, each behind the lines that go in front of it, and then
/// the lines that go in front of item `k`.
pub open spec fn woven(
    items: Seq<ItemView>,
    s: SnapshotView,
    rows: Seq<RowView>,
    names: Seq<Seq<char>>,
    empties: Seq<Seq<char>>,
    k: int,
) -> Seq<ItemView>
    decreases k,
{
    if k <= 0 {
        lines_before(s, rows, names, empties, 0)
    } else {
        woven(items, s, rows, names, empties, k - 1).push(items[k - 1]) + lines_before(
            s,
            rows,
            names,
            empties,
            k,
        )
    }
}

/// The model rows' items with the lines for the accounts without models woven
/// in.
pub open spec fn with_empty_lines(
    items: Seq<ItemView>,
    s: SnapshotView,
    rows: Seq<RowView>,
) -> Seq<ItemView> {
    let names = valid_names(s.children(accounts_root()));
    woven(items, s, rows, names, without_models(s, names), items.len() as int)
}

/// The items with the pairs of lines put in one after the other, the last
/// account's first.
spec fn inserted(
    items: Seq<ItemView>,
    s: SnapshotView,
    rows: Seq<RowView>,
    names: Seq<Seq<char>>,
    empties: Seq<Seq<char>>,
) -> Seq<ItemView>
    decreases empties.len(),
{
    if empties.len() == 0 {
        items
    } else {
        let k = insertion_point(rows, names, empties.last()) as int;
        let pair = empty_lines(s, empties.last());
        inserted(items.insert(k, pair[1]).insert(k, pair[0]), s, rows, names, empties.drop_last())
    }
}

proof fn lemma_insertion_point(rows: Seq<RowView>, names: Seq<Seq<char>>, name: Seq<char>)
    ensures
        insertion_point(rows, names, name) <= rows.len(),
    decreases rows.len(),
{
    if rows.len() > 0 {
        lemma_insertion_point(rows.drop_last(), names, name);
    }
}

proof fn lemma_insertion_points_in_order(
    rows: Seq<RowView>,
    names: Seq<Seq<char>>,
    a: Seq<char>,
    b: Seq<char>,
)
    requires
        precedes(a, b),
    ensures
        insertion_point(rows, names, a) <= insertion_point(rows, names, b),
    decreases rows.len(),
{
    if rows.len() > 0 {
        lemma_insertion_points_in_order(rows.drop_last(), names, a, b);
        lemma_insertion_point(rows.drop_last(), names, a);
        lemma_insertion_point(rows.drop_last(), names, b);
        match rows.last().kind {
            KindView::Model { account, .. } => {
                if names.contains(account) && precedes(account, a) {
                    crate::text::precedes_transitive(account, a, b);
                }
            },
            _ => {},
        }
    }
}

proof fn lemma_no_lines_beyond(
    s: SnapshotView,
    rows: Seq<RowView>,
    names: Seq<Seq<char>>,
    empties: Seq<Seq<char>>,
    last: int,
    k: int,
)
    requires
        forall|i: int|
            0 <= i < empties.len() ==> insertion_point(rows, names, #[trigger] empties[i]) <= last,
        k > last,
    ensures
        lines_before(s, rows, names, empties, k) == Seq::<ItemView>::empty(),
    decreases empties.len(),
{
    if empties.len() > 0 {
        let t = empties.drop_last();
        assert forall|i: int| 0 <= i < t.len() implies insertion_point(
            rows,
            names,
            #[trigger] t[i],
        ) <= last by {
            assert(t[i] == empties[i]);
        }
        assert(empties[empties.len() - 1] == empties.last());
        lemma_no_lines_beyond(s, rows, names, t, last, k);
    }
}

/// Up to the place where a pair goes in, weaving does not see it.
proof fn lemma_woven_before(
    items: Seq<ItemView>,
    more: Seq<ItemView>,
    s: SnapshotView,
    rows: Seq<RowView>,
    names: Seq<Seq<char>>,
    empties: Seq<Seq<char>>,
    name: Seq<char>,
    k: int,
)
    requires
        0 <= k < insertion_point(rows, names, name),
        forall|i: int| 0 <= i < k ==> #[trigger] more[i] == items[i],
    ensures
        woven(more, s, rows, names, empties, k) == woven(
            items,
            s,
            rows,
            names,
            empties.push(name),
            k,
        ),
    decreases k,
{
    assert(empties.push(name).drop_last() =~= empties);
    if k > 0 {
        lemma_woven_before(items, more, s, rows, names, empties, name, k - 1);
    }
}

proof fn lemma_woven_with_pair(
    items: Seq<ItemView>,
    s: SnapshotView,
    rows: Seq<RowView>,
    names: Seq<Seq<char>>,
    empties: Seq<Seq<char>>,
    name: Seq<char>,
    k: int,
)
    requires
        insertion_point(rows, names, name) <= k <= items.len(),
        forall|i: int|
            0 <= i < empties.len() ==> insertion_point(rows, names, #[trigger] empties[i])
                <= insertion_point(rows, names, name),
    ensures
        ({
            let p = insertion_point(rows, names, name) as int;
            let pair = empty_lines(s, name);
            let more = items.insert(p, pair[1]).insert(p, pair[0]);
            woven(more, s, rows, names, empties, k + 2) == woven(
                items,
                s,
                rows,
                names,
                empties.push(name),
                k,
            )
        }),
    decreases k,
{
    let p = insertion_point(rows, names, name) as int;
    let pair = empty_lines(s, name);
    let more = items.insert(p, pair[1]).insert(p, pair[0]);
    let all = empties.push(name);
    assert(all.drop_last() =~= empties);
    if k == p {
        // The lines already in front of item `p`, and then the pair.
        assert(more[p] == pair[0]);
        assert(more[p + 1] == pair[1]);
        lemma_no_lines_beyond(s, rows, names, empties, p, p + 1);
        lemma_no_lines_beyond(s, rows, names, empties, p, p + 2);
        let here = lines_before(s, rows, names, empties, p);
        let head = woven(more, s, rows, names, empties, p);
        assert(woven(more, s, rows, names, empties, p + 1) =~= head.push(pair[0]));
        assert(woven(more, s, rows, names, empties, p + 2) =~= head.push(pair[0]).push(pair[1]));
        assert(head.push(pair[0]).push(pair[1]) =~= head + pair);
        if p == 0 {
            assert(head == here);
            assert(woven(items, s, rows, names, all, p) =~= here + pair);
        } else {
            lemma_woven_before(items, more, s, rows, names, empties, name, p - 1);
            assert(more[p - 1] == items[p - 1]);
            let before = woven(items, s, rows, names, all, p - 1).push(items[p - 1]);
            assert(head =~= before + here);
            assert(woven(items, s, rows, names, all, p) =~= before + (here + pair));
            assert(before + (here + pair) =~= (before + here) + pair);
        }
    } else {
        lemma_woven_with_pair(items, s, rows, names, empties, name, k - 1);
        assert(more[k + 1] == items[k - 1]);
        lemma_no_lines_beyond(s, rows, names, empties, p, k + 2);
        lemma_no_lines_beyond(s, rows, names, empties, p, k);
    }
}

proof fn lemma_inserted_is_woven(
    items: Seq<ItemView>,
    s: SnapshotView,
    rows: Seq<RowView>,
    names: Seq<Seq<char>>,
    empties: Seq<Seq<char>>,
)
    requires
        rows.len() <= items.len(),
        ascending(empties),
    ensures
        inserted(items, s, rows, names, empties) == woven(
            items,
            s,
            rows,
            names,
            empties,
            items.len() as int,
        ),
    decreases empties.len(),
{
    if empties.len() == 0 {
        lemma_woven_without_lines(items, s, rows, names, items.len() as int);
        assert(items.subrange(0, items.len() as int) =~= items);
        assert(empties =~= Seq::<Seq<char>>::empty());
    } else {
        let name = empties.last();
        let rest = empties.drop_last();
        let p = insertion_point(rows, names, name) as int;
        lemma_insertion_point(rows, names, name);
        let pair = empty_lines(s, name);
        let more = items.insert(p, pair[1]).insert(p, pair[0]);
        assert forall|i: int| 0 <= i < rest.len() implies insertion_point(
            rows,
            names,
            #[trigger] rest[i],
        ) <= p by {
            assert(precedes(empties[i], empties[empties.len() - 1]));
            lemma_insertion_points_in_order(rows, names, rest[i], name);
        }
        assert(ascending(rest));
        lemma_inserted_is_woven(more, s, rows, names, rest);
        lemma_woven_with_pair(items, s, rows, names, rest, name, items.len() as int);
        assert(rest.push(name) =~= empties);
    }
}

proof fn lemma_woven_without_lines(
    items: Seq<ItemView>,
    s: SnapshotView,
    rows: Seq<RowView>,
    names: Seq<Seq<char>>,
    k: int,
)
    requires
        0 <= k <= items.len(),
    ensures
        woven(items, s, rows, names, Seq::empty(), k) == items.subrange(0, k),
    decreases k,
{
    if k > 0 {
        lemma_woven_without_lines(items, s, rows, names, k - 1);
        assert(items.subrange(0, k - 1).push(items[k - 1]) + Seq::<ItemView>::empty()
            =~= items.subrange(0, k));
    } else {
        assert(items.subrange(0, 0) =~= Seq::<ItemView>::empty());
    }
}

proof fn lemma_valid_names_ascend(names: Seq<Seq<char>>)
    requires
        ascending(names),
    ensures
        ascending(valid_names(names)),
        forall|y: Seq<char>| #[trigger]
            valid_names(names).contains(y) <==> names.contains(y) && component_ok(y),
    decreases names.len(),
{
    if names.len() > 0 {
        let t = names.drop_last();
        let last = names.last();
        assert(ascending(t));
        lemma_valid_names_ascend(t);
        let rest = valid_names(t);
        let all = valid_names(names);
        assert(names[names.len() - 1] == last);
        assert forall|i: int, j: int| 0 <= i < j < all.len() implies precedes(
            #[trigger] all[i],
            #[trigger] all[j],
        ) by {
            if j < rest.len() {
                assert(rest[i] == all[i] && rest[j] == all[j]);
            } else {
                assert(rest.contains(rest[i]));
                assert(t.contains(rest[i]));
                let k = choose|k: int| 0 <= k < t.len() && t[k] == rest[i];
                assert(names[k] == rest[i]);
                assert(precedes(names[k], names[names.len() - 1]));
            }
        }
        assert forall|y: Seq<char>| #[trigger] all.contains(y) <==> names.contains(y)
            && component_ok(y) by {
            assert(rest.contains(y) <==> t.contains(y) && component_ok(y));
            if all.contains(y) {
                let k = choose|k: int| 0 <= k < all.len() && all[k] == y;
                if k < rest.len() {
                    assert(rest[k] == y);
                    let m = choose|m: int| 0 <= m < t.len() && t[m] == y;
                    assert(names[m] == y);
                }
            }
            if names.contains(y) && component_ok(y) {
                let m = choose|m: int| 0 <= m < names.len() && names[m] == y;
                if m < t.len() {
                    assert(t[m] == y);
                    let k = choose|k: int| 0 <= k < rest.len() && rest[k] == y;
                    assert(all[k] == y);
                } else {
                    assert(all[all.len() - 1] == y);
                }
            }
        }
    }
}

proof fn lemma_without_models_ascends(s: SnapshotView, names: Seq<Seq<char>>)
    requires
        ascending(names),
    ensures
        ascending(without_models(s, names)),
        forall|y: Seq<char>| #[trigger]
            without_models(s, names).contains(y) <==> names.contains(y) && models_or_empty(
                s,
                catalog(y),
            ).len() == 0,
    decreases names.len(),
{
    if names.len() > 0 {
        let t = names.drop_last();
        let last = names.last();
        assert(ascending(t));
        lemma_without_models_ascends(s, t);
        let rest = without_models(s, t);
        let all = without_models(s, names);
        assert(names[names.len() - 1] == last);
        assert forall|i: int, j: int| 0 <= i < j < all.len() implies precedes(
            #[trigger] all[i],
            #[trigger] all[j],
        ) by {
            if j < rest.len() {
                assert(rest[i] == all[i] && rest[j] == all[j]);
            } else {
                assert(rest.contains(rest[i]));
                assert(t.contains(rest[i]));
                let k = choose|k: int| 0 <= k < t.len() && t[k] == rest[i];
                assert(names[k] == rest[i]);
                assert(precedes(names[k], names[names.len() - 1]));
            }
        }
        assert forall|y: Seq<char>| #[trigger] all.contains(y) <==> names.contains(y)
            && models_or_empty(s, catalog(y)).len() == 0 by {
            assert(rest.contains(y) <==> t.contains(y) && models_or_empty(s, catalog(y)).len()
                == 0);
            if all.contains(y) {
                let k = choose|k: int| 0 <= k < all.len() && all[k] == y;
                if k < rest.len() {
                    assert(rest[k] == y);
                    let m = choose|m: int| 0 <= m < t.len() && t[m] == y;
                    assert(names[m] == y);
                }
            }
            if names.contains(y) && models_or_empty(s, catalog(y)).len() == 0 {
                let m = choose|m: int| 0 <= m < names.len() && names[m] == y;
                if m < t.len() {
                    assert(t[m] == y);
                    let k = choose|k: int| 0 <= k < rest.len() && rest[k] == y;
                    assert(all[k] == y);
                } else {
                    assert(all[all.len() - 1] == y);
                }
            }
        }
    }
}

fn keep_valid_names(names: &Vec<String>) -> (r: Vec<String>)
    ensures
        texts(r@) == valid_names(texts(names@)),
{
    let ghost all = texts(names@);
    let mut out: Vec<String> = Vec::new();
    let mut i: usize = 0;
    proof {
        assert(texts(out@) =~= valid_names(all.subrange(0, 0)));
    }
    while i < names.len()
        invariant
            i <= names@.len(),
            all == texts(names@),
            texts(out@) == valid_names(all.subrange(0, i as int)),
        decreases names@.len() - i,
    {
        let ghost before = texts(out@);
        proof {
            let t = all.subrange(0, i + 1);
            assert(t.drop_last() =~= all.subrange(0, i as int));
            assert(t.last() == names@[i as int]@);
        }
        if valid_component(names[i].as_str()) {
            out.push(names[i].clone());
            proof {
                assert(texts(out@) =~= before.push(names@[i as int]@));
            }
        }
        i += 1;
    }
    proof {
        assert(all.subrange(0, i as int) =~= all);
    }
    out
}

fn keep_without_models(data: &SettingsSnapshot, names: &Vec<String>) -> (r: Vec<String>)
    ensures
        texts(r@) == without_models(data@, texts(names@)),
{
    let ghost all = texts(names@);
    let mut out: Vec<String> = Vec::new();
    let mut i: usize = 0;
    proof {
        assert(texts(out@) =~= without_models(data@, all.subrange(0, 0)));
    }
    while i < names.len()
        invariant
            i <= names@.len(),
            all == texts(names@),
            texts(out@) == without_models(data@, all.subrange(0, i as int)),
        decreases names@.len() - i,
    {
        let ghost before = texts(out@);
        proof {
            let t = all.subrange(0, i + 1);
            assert(t.drop_last() =~= all.subrange(0, i as int));
            assert(t.last() == names@[i as int]@);
        }
        let models: Vec<ModelInfo> = read_models_or_empty(
            data,
            &path5("config", "gate", "accounts", names[i].as_str(), "models"),
        );
        proof {
            assert(models_view(models@).len() == models@.len());
        }
        if models.len() == 0 {
            out.push(names[i].clone());
            proof {
                assert(texts(out@) =~= before.push(names@[i as int]@));
            }
        }
        i += 1;
    }
    proof {
        assert(all.subrange(0, i as int) =~= all);
    }
    out
}

fn find_insertion_point(rows: &[VisibleRow], names: &Vec<String>, name: &str) -> (r: usize)
    ensures
        r == insertion_point(rows_view(rows@), texts(names@), name@),
        r <= rows@.len(),
{
    let ghost all = rows_view(rows@);
    let mut i: usize = rows.len();
    proof {
        assert(all.subrange(0, i as int) =~= all);
    }
    while i > 0
        invariant
            i <= rows@.len(),
            all == rows_view(rows@),
            insertion_point(all.subrange(0, i as int), texts(names@), name@) == insertion_point(
                all,
                texts(names@),
                name@,
            ),
        decreases i,
    {
        proof {
            let t = all.subrange(0, i as int);
            assert(t.drop_last() =~= all.subrange(0, i - 1));
            assert(t.last() == rows@[i - 1]@);
        }
        match &rows[i - 1].kind {
            RowKind::Model { account, .. } => {
                if contains_text(names.as_slice(), account.as_str()) && comes_before(
                    account.as_str(),
                    name,
                ) {
                    return i;
                }
            },
            _ => {},
        }
        i -= 1;
    }
    0
}

fn manual_line(data: &SettingsSnapshot, name: &str) -> (r: String)
    ensures
        r@ == empty_lines(data@, name@)[1].primary,
{
    let in_mode: bool = match read_text(data, &path4("ui", "settings", "manual_model", "account")) {
        Some(a) => same(a.as_str(), name),
        None => false,
    };
    if !in_mode {
        return "    + add model manually (m)".to_owned();
    }
    let stage = match read_cursor(data) {
        Some(c) => cursor_to_manual_model_stage(&c),
        None => None,
    };
    let buffer: String = read_text_or_empty(
        data,
        &path4("ui", "settings", "manual_model", "buffer"),
    );
    let prompt: &str = match stage {
        Some(s) => match s {
            ManualModelStage::Id => "Model id",
            ManualModelStage::Ctx => "Max context",
            ManualModelStage::Out => "Max output",
        },
        None => "Model id",
    };
    let head: String = join3("    ", prompt, "▸ ");
    join3(head.as_str(), buffer.as_str(), "\u{258F}")
}

/// Weaves into the items of the model rows the lines for the accounts that have
/// no model.
pub fn interleave_empty_catalog_decorations(
    data: &SettingsSnapshot,
    items: &mut Vec<ListItem>,
    content_rows: &[VisibleRow],
)
    requires
        content_rows@.len() <= old(items)@.len(),
    ensures
        items_view(final(items)@) == with_empty_lines(
            items_view(old(items)@),
            data@,
            rows_view(content_rows@),
        ),
{
    let ghost start = items_view(items@);
    let ghost rows = rows_view(content_rows@);
    let all: Vec<String> = account_names(data);
    let names: Vec<String> = keep_valid_names(&all);
    let empties: Vec<String> = keep_without_models(data, &names);
    let ghost n = texts(names@);
    let ghost e = texts(empties@);
    proof {
        crate::snapshot::children_are_what_lies_below(data@, accounts_root(), Seq::empty());
        lemma_valid_names_ascend(texts(all@));
        lemma_without_models_ascends(data@, n);
        assert(rows.len() == content_rows@.len());
        assert(start.len() == items@.len());
        lemma_inserted_is_woven(start, data@, rows, n, e);
        assert(e.subrange(0, e.len() as int) =~= e);
    }
    let mut i: usize = empties.len();
    while i > 0
        invariant
            i <= empties@.len(),
            n == texts(names@),
            e == texts(empties@),
            rows == rows_view(content_rows@),
            content_rows@.len() <= items@.len(),
            inserted(items_view(items@), data@, rows, n, e.subrange(0, i as int)) == inserted(
                start,
                data@,
                rows,
                n,
                e,
            ),
        decreases i,
    {
        i -= 1;
        let name: &str = empties[i].as_str();
        let ghost before = items_view(items@);
        let at: usize = find_insertion_point(content_rows, &names, name);
        let manual_item = plain_item(manual_line(data, name));
        let empty_item = plain_item(
            join3("  ", name, " / (no models — press r to refresh)"),
        );
        let ghost shown = (empty_item@, manual_item@);
        items.insert(at, manual_item);
        items.insert(at, empty_item);
        proof {
            let t = e.subrange(0, i + 1);
            assert(t.last() == name@);
            assert(t.drop_last() =~= e.subrange(0, i as int));
            let pair = empty_lines(data@, name@);
            assert(pair[0] == shown.0 && pair[1] == shown.1);
            assert(items_view(items@) =~= before.insert(at as int, pair[1]).insert(
                at as int,
                pair[0],
            ));
        }
    }
    proof {
        assert(e.subrange(0, 0) =~= Seq::<Seq<char>>::empty());
    }
}

/// The lines an item takes: one, and another for its secondary text.
pub open spec fn item_lines(item: ItemView) -> nat {
    if item.secondary is Some {
        2
    } else {
        1
    }
}

/// The lines that items take.
pub open spec fn items_lines(items: Seq<ItemView>) -> nat
    decreases items.len(),
{
    if items.len() == 0 {
        0
    } else {
        items_lines(items.drop_last()) + item_lines(items.last())
    }
}

/// The lines a node takes in a section: those of its items, of its form's rows,
/// or of its children. Nothing else takes any.
pub open spec fn node_lines(v: NodeView) -> nat
    decreases v, 0nat,
{
    match v {
        NodeView::List { items, .. } => items_lines(items),
        NodeView::Form { rows, .. } => rows.len(),
        NodeView::Stack { children, .. } => children_lines(children, children.len()),
        NodeView::Pad { padding, child } => node_lines(*child) + padding.top as nat
            + padding.bottom as nat,
        _ => 0,
    }
}

/// The lines that the first `n` children of a stack take.
pub open spec fn children_lines(children: Seq<(NodeView, Sizing)>, n: nat) -> nat
    decreases children, n,
{
    if n == 0 || n > children.len() {
        0
    } else {
        children_lines(children, (n - 1) as nat) + node_lines(children[n - 1].0)
    }
}

/// A number of lines as a size holds it.
pub open spec fn as_height(lines: nat) -> u16 {
    (lines % 0x1_0000) as u16
}

fn add_heights(a: u16, b: u16) -> (r: u16)
    ensures
        forall|x: nat, y: nat|
            a == #[trigger] as_height(x) && b == #[trigger] as_height(y) ==> r == as_height(
                x + y,
            ),
{
    proof {
        assert forall|x: nat, y: nat|
            a == #[trigger] as_height(x) && b == #[trigger] as_height(y) implies (a + b) % 0x1_0000
            == (x + y) % 0x1_0000 by {
            vstd::arithmetic::div_mod::lemma_add_mod_noop(x as int, y as int, 0x1_0000);
        }
    }
    ((a as u32 + b as u32) % 0x1_0000) as u16
}

fn height_of_len(n: usize) -> (r: u16)
    ensures
        r == as_height(n as nat),
{
    (n as u64 % 0x1_0000) as u16
}

fn height_of_items(items: &Vec<ListItem>) -> (r: u16)
    ensures
        r == as_height(items_lines(items_view(items@))),
{
    let ghost all = items_view(items@);
    let mut sum: u16 = 0;
    let mut i: usize = 0;
    while i < items.len()
        invariant
            i <= items@.len(),
            all == items_view(items@),
            sum == as_height(items_lines(all.subrange(0, i as int))),
        decreases items@.len() - i,
    {
        let here: u16 = if items[i].secondary.is_some() {
            2
        } else {
            1
        };
        proof {
            let t = all.subrange(0, i + 1);
            assert(t.drop_last() =~= all.subrange(0, i as int));
            assert(t.last() == items@[i as int]@);
            assert(here == as_height(item_lines(t.last())));
        }
        sum = add_heights(sum, here);
        i += 1;
    }
    proof {
        assert(all.subrange(0, i as int) =~= all);
    }
    sum
}

/// The lines a section takes, modulo what a size can hold.
pub fn section_height(view: &ViewNode) -> (r: u16)
    ensures
        r == as_height(node_lines(view@)),
    decreases view,
{
    match view {
        ViewNode::List { items, .. } => height_of_items(items),
        ViewNode::Form { rows, .. } => height_of_len(rows.len()),
        ViewNode::Stack { dir, children } => {
            proof {
                stack_view(*dir, *children);
            }
            let ghost all = children_view(children@);
            let mut sum: u16 = 0;
            let mut i: usize = 0;
            while i < children.len()
                invariant
                    i <= children@.len(),
                    all == children_view(children@),
                    *view == (ViewNode::Stack { dir: *dir, children: *children }),
                    sum == as_height(children_lines(all, i as nat)),
                decreases children@.len() - i,
            {
                proof {
                    assert(all[i as int].0 == children@[i as int].0@);
                    assert(children_lines(all, (i + 1) as nat) == children_lines(all, i as nat)
                        + node_lines(all[i as int].0));
                }
                proof {
                    assert(decreases_to!(*view => view->Stack_children));
                    assert(decreases_to!(*children => children[i as int]));
                    assert(decreases_to!(children[i as int] => children[i as int].0));
                }
                let here: u16 = section_height(&children[i].0);
                sum = add_heights(sum, here);
                i += 1;
            }
            sum
        },
        ViewNode::Pad { padding, child } => {
            let inner: u16 = section_height(child);
            let ghost n = node_lines(child@);
            proof {
                assert(padding.top == as_height(padding.top as nat));
                assert(padding.bottom == as_height(padding.bottom as nat));
            }
            let top: u16 = add_heights(inner, padding.top);
            proof {
                assert(top == as_height(n + padding.top as nat));
            }
            add_heights(top, padding.bottom)
        },
        _ => 0,
    }
}

/// The lines a form takes.
pub open spec fn form_lines(v: NodeView) -> nat {
    match v {
        NodeView::Form { rows, .. } => rows.len(),
        _ => 0,
    }
}

/// The lines a form takes, modulo what a size can hold.
pub fn form_height(view: &ViewNode) -> (r: u16)
    ensures
        r == as_height(form_lines(view@)),
{
    match view {
        ViewNode::Form { rows, .. } => height_of_len(rows.len()),
        _ => 0,
    }
}

/// A stack without children.
pub open spec fn empty_stack() -> NodeView {
    NodeView::Stack { dir: Direction::Vertical, children: Seq::empty() }
}

/// A list of one item that cannot take the focus.
pub open spec fn one_line(text: Seq<char>) -> NodeView {
    NodeView::List { title: None, items: seq![bare_item(text)], selected: None }
}

/// The form for a new connection below its heading, indented.
pub open spec fn compose_block(form: FormLayoutView) -> NodeView {
    NodeView::Stack {
        dir: Direction::Vertical,
        children: seq![
            (
                one_line(
                    "    + New connection (Tab to navigate, Enter to create, Esc to cancel)"@,
                ),
                Sizing::Fixed(1),
            ),
            (
                NodeView::Pad {
                    padding: Padding { left: 4, right: 0, top: 0, bottom: 0 },
                    child: Box::new(
                        NodeView::Form { title: None, rows: form.rows, focused: form.focused },
                    ),
                },
                Sizing::Min(as_height(form.rows.len())),
            ),
        ],
    }
}

/// The header of a section.
pub open spec fn header_child(rows: Seq<RowView>, ctx: SectionView) -> (NodeView, Sizing) {
    (item_list(row_items(rows.subrange(0, 1), ctx), ctx.cursor), Sizing::Fixed(1))
}

/// The connections: the header, the form for a new one while it is composed or
/// else how to open it, and the rows.
pub open spec fn accounts_section(
    rows: Seq<RowView>,
    ctx: SectionView,
    compose_active: bool,
    form: FormLayoutView,
) -> NodeView {
    if rows.len() == 0 {
        empty_stack()
    } else {
        let middle = if compose_active {
            seq![(compose_block(form), Sizing::Min(as_height(form.rows.len() + 1)))]
        } else if rows[0].expanded {
            seq![(one_line("    + New connection"@), Sizing::Fixed(1))]
        } else {
            Seq::empty()
        };
        let content = if rows[0].expanded && rows.len() > 1 {
            seq![
                (
                    item_list(
                        row_items(rows.subrange(1, rows.len() as int), ctx),
                        ctx.cursor,
                    ),
                    Sizing::Min(0),
                ),
            ]
        } else {
            Seq::empty()
        };
        NodeView::Stack {
            dir: Direction::Vertical,
            children: seq![header_child(rows, ctx)] + middle + content,
        }
    }
}

/// The models: the header, and the rows with the lines for accounts without
/// models among them.
pub open spec fn models_section(
    s: SnapshotView,
    rows: Seq<RowView>,
    ctx: SectionView,
) -> NodeView {
    if rows.len() == 0 {
        empty_stack()
    } else {
        let below = rows.subrange(1, rows.len() as int);
        let content = if rows[0].expanded {
            seq![
                (
                    item_list(with_empty_lines(row_items(below, ctx), s, below), ctx.cursor),
                    Sizing::Min(0),
                ),
            ]
        } else {
            Seq::empty()
        };
        NodeView::Stack {
            dir: Direction::Vertical,
            children: seq![header_child(rows, ctx)] + content,
        }
    }
}

fn line_node(text: &str) -> (r: ViewNode)
    ensures
        r@ == one_line(text@),
{
    let mut items: Vec<ListItem> = Vec::new();
    items.push(plain_item(text.to_owned()));
    proof {
        assert(items_view(items@) =~= seq![bare_item(text@)]);
    }
    ViewNode::List { title: None, items, selected: None }
}

fn build_compose_block(form: ViewNode, form_h: u16) -> (r: ViewNode)
    requires
        form@ is Form,
        form@->Form_title is None,
        form_h == as_height(form@->Form_rows.len()),
    ensures
        r@ == compose_block(
            FormLayoutView { rows: form@->Form_rows, focused: form@->Form_focused },
        ),
{
    let ghost layout = FormLayoutView { rows: form@->Form_rows, focused: form@->Form_focused };
    let heading = line_node(
        "    + New connection (Tab to navigate, Enter to create, Esc to cancel)",
    );
    let padded = ViewNode::Pad {
        padding: Padding { left: 4, right: 0, top: 0, bottom: 0 },
        child: Box::new(form),
    };
    let ghost shown = (heading@, padded@);
    let mut children: Vec<(ViewNode, Sizing)> = Vec::new();
    children.push((heading, Sizing::Fixed(1)));
    children.push((padded, Sizing::Min(form_h)));
    proof {
        assert(children_view(children@) =~= compose_block(layout)->Stack_children);
    }
    ViewNode::vertical(children)
}

/// The connections' section.
pub fn render_accounts_section(
    data: &SettingsSnapshot,
    rows: &[VisibleRow],
    ctx: &SectionCtx<'_>,
    compose_active: bool,
) -> (r: ViewNode)
    ensures
        r@ == accounts_section(rows_view(rows@), ctx@, compose_active, compose_form(data@)),
{
    let ghost all = rows_view(rows@);
    let mut children: Vec<(ViewNode, Sizing)> = Vec::new();
    if rows.len() == 0 {
        proof {
            assert(children_view(children@) =~= Seq::<(NodeView, Sizing)>::empty());
        }
        return ViewNode::vertical(children);
    }
    let expanded: bool = rows[0].expanded;
    let header_rows: &[VisibleRow] = slice_subrange(rows, 0, 1);
    let content_rows: &[VisibleRow] = slice_subrange(rows, 1, rows.len());
    proof {
        assert(rows_view(header_rows@) =~= all.subrange(0, 1));
        assert(rows_view(content_rows@) =~= all.subrange(1, all.len() as int));
        assert(all[0] == rows@[0]@);
    }
    children.push((build_list_from_rows(header_rows, ctx), Sizing::Fixed(1)));
    let ghost first = children_view(children@);
    proof {
        assert(first =~= seq![header_child(all, ctx@)]);
    }
    if compose_active {
        let form = compose_form_view(data).to_node();
        let form_h: u16 = form_height(&form);
        let tall: u16 = add_heights(form_h, 1);
        proof {
            assert(1 == as_height(1));
            assert(form_h == as_height(compose_form(data@).rows.len()));
            assert(tall == as_height(compose_form(data@).rows.len() + 1));
        }
        children.push((build_compose_block(form, form_h), Sizing::Min(tall)));
    } else if expanded {
        children.push((line_node("    + New connection"), Sizing::Fixed(1)));
    }
    let ghost two = children_view(children@);
    if expanded && content_rows.len() > 0 {
        children.push((build_list_from_rows(content_rows, ctx), Sizing::Min(0)));
    }
    proof {
        assert(children_view(children@) =~= accounts_section(
            all,
            ctx@,
            compose_active,
            compose_form(data@),
        )->Stack_children);
    }
    ViewNode::vertical(children)
}

/// The models' section.
pub fn render_models_section(
    data: &SettingsSnapshot,
    rows: &[VisibleRow],
    ctx: &SectionCtx<'_>,
) -> (r: ViewNode)
    ensures
        r@ == models_section(data@, rows_view(rows@), ctx@),
{
    let ghost all = rows_view(rows@);
    let mut children: Vec<(ViewNode, Sizing)> = Vec::new();
    if rows.len() == 0 {
        proof {
            assert(children_view(children@) =~= Seq::<(NodeView, Sizing)>::empty());
        }
        return ViewNode::vertical(children);
    }
    let expanded: bool = rows[0].expanded;
    let header_rows: &[VisibleRow] = slice_subrange(rows, 0, 1);
    let content_rows: &[VisibleRow] = slice_subrange(rows, 1, rows.len());
    proof {
        assert(rows_view(header_rows@) =~= all.subrange(0, 1));
        assert(rows_view(content_rows@) =~= all.subrange(1, all.len() as int));
        assert(all[0] == rows@[0]@);
    }
    children.push((build_list_from_rows(header_rows, ctx), Sizing::Fixed(1)));
    if expanded {
        let mut items: Vec<ListItem> = rows_to_list_items(content_rows, ctx);
        proof {
            assert(items_view(items@).len() == items@.len());
        }
        interleave_empty_catalog_decorations(data, &mut items, content_rows);
        let selected: Option<usize> = select_item(&items, ctx.cursor);
        children.push((ViewNode::List { title: None, items, selected }, Sizing::Min(0)));
    }
    proof {
        assert(children_view(children@) =~= models_section(data@, all, ctx@)->Stack_children);
    }
    ViewNode::vertical(children)
}

/// Where the account about to be deleted is named while the question is open.
pub open spec fn pending_target_path() -> Seq<Seq<char>> {
    seq!["ui"@, "settings"@, "pending_delete"@, "target_account"@]
}

/// The account the open question is about.
pub open spec fn pending_target(s: SnapshotView) -> Option<Seq<char>> {
    if path_at(s, focus_place()) == Some(confirm_scope()) {
        text_at(s, pending_target_path())
    } else {
        None
    }
}

/// What the sections are drawn with.
pub open spec fn section_view(s: SnapshotView) -> SectionView {
    let cursor = path_at(s, focus_place());
    SectionView {
        cursor,
        edit: edit_state(s),
        options: focused_options(visible(s), cursor),
        auth: focused_auth(s, visible(s), cursor),
    }
}

/// Whether a new connection is being composed.
pub open spec fn composing(s: SnapshotView) -> bool {
    match path_at(s, focus_place()) {
        Some(c) => leads(compose_scope(), c),
        None => false,
    }
}

/// The settings tree: the question about a deletion, if it is open, and the two
/// sections below one another, each as high as it is.
pub open spec fn index_page(s: SnapshotView) -> NodeView {
    let n = accounts_len(visible(s));
    let ctx = section_view(s);
    let accounts = accounts_section(
        visible(s).subrange(0, n),
        ctx,
        composing(s),
        compose_form(s),
    );
    let models = models_section(s, visible(s).subrange(n, visible(s).len() as int), ctx);
    let banner = match pending_target(s) {
        Some(name) => seq![(one_line("Delete '"@ + name + "'? y / n"@), Sizing::Fixed(1))],
        None => Seq::empty(),
    };
    NodeView::Frame {
        title: Some("Settings"@),
        title_right: dirty_indicator(s),
        content: Box::new(
            NodeView::Stack {
                dir: Direction::Vertical,
                children: banner + seq![
                    (accounts, Sizing::Fixed(as_height(node_lines(accounts)))),
                    (models, Sizing::Fixed(as_height(node_lines(models)))),
                    (NodeView::Empty, Sizing::Fill),
                ],
            },
        ),
    }
}

impl Renderer for IndexRenderer {
    open spec fn rule(&self) -> RuleView {
        RuleView::ExitScreen
    }

    open spec fn behind(&self) -> Option<Seq<Seq<char>>> {
        None
    }

    open spec fn shows(&self, ctx: RenderView, backdrop: NodeView) -> NodeView {
        index_page(ctx.data)
    }

    fn ascend_to(&self) -> (r: AscendRule) {
        AscendRule::ExitScreen
    }

    fn backdrop(&self) -> (r: Option<Path>) {
        None
    }

    fn render(&self, ctx: &RenderCtx<'_>, _backdrop: ViewNode) -> (r: ViewNode) {
        let data: &SettingsSnapshot = ctx.data;
        let ghost s = data@;
        let found: Vec<VisibleRow> = enumerate(data);
        let rows: &Vec<VisibleRow> = &found;
        let edit: Option<EditState> = read_edit_state(data);
        let cursor: Option<Path> = read_cursor(data);
        let compose_active: bool = match &cursor {
            Some(c) => cursor_is_in_compose_form(c),
            None => false,
        };
        let (protocol_options, auth_current) = resolve_focused_selector_state(
            data,
            rows,
            &cursor,
        );
        let (accounts_rows, models_rows) = partition_rows_by_section(rows.as_slice());
        let section = SectionCtx {
            cursor: &cursor,
            edit_state: &edit,
            protocol_options: &protocol_options,
            auth_current,
        };
        let ghost n = accounts_len(visible(s));
        proof {
            assert(rows_view(accounts_rows@) =~= visible(s).subrange(0, n));
            assert(rows_view(models_rows@) =~= visible(s).subrange(n, visible(s).len() as int));
            assert(section@ == section_view(s));
        }
        let accounts = render_accounts_section(data, accounts_rows, &section, compose_active);
        let models = render_models_section(data, models_rows, &section);
        let confirm: bool = match &cursor {
            Some(c) => cursor_is_in_confirm_delete(c),
            None => false,
        };
        let pending: Option<String> = if confirm {
            read_text(data, &path4("ui", "settings", "pending_delete", "target_account"))
        } else {
            None
        };
        let title_right: Option<String> = read_dirty_indicator(data);
        let mut children: Vec<(ViewNode, Sizing)> = Vec::new();
        match pending {
            Some(name) => {
                let question: String = join3("Delete '", name.as_str(), "'? y / n");
                children.push((line_node(question.as_str()), Sizing::Fixed(1)));
            },
            None => {},
        }
        let accounts_h: u16 = section_height(&accounts);
        let models_h: u16 = section_height(&models);
        let ghost shown = (accounts@, models@);
        children.push((accounts, Sizing::Fixed(accounts_h)));
        children.push((models, Sizing::Fixed(models_h)));
        children.push((ViewNode::Empty, Sizing::Fill));
        let ghost wanted = index_page(s);
        proof {
            assert(children_view(children@) =~= (*wanted->content)->Stack_children);
        }
        let content = ViewNode::vertical(children);
        proof {
            assert(content@ == *wanted->content);
        }
        ViewNode::Frame {
            title: Some("Settings".to_owned()),
            title_right,
            content: Box::new(content),
        }
    }
}

/// Where the page is registered.
pub open spec fn index_cursor() -> Seq<Seq<char>> {
    seq!["settings"@, "index"@]
}

/// Registers the page.
pub fn register(reg: &mut RendererRegistry<SettingsRenderer>)
    ensures
        final(reg)@ == assigned(
            old(reg)@,
            index_cursor(),
            SettingsRenderer::Index(IndexRenderer),
        ),
{
    reg.register(path2("settings", "index"), SettingsRenderer::Index(IndexRenderer));
}

} // verus!
