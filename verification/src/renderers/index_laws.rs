//! What the settings tree shows of its rows.

use crate::assoc::place_unique;
use crate::commands::account_laws::focus_is_on;
use crate::commands::compose::accounts_root;
use crate::commands::compose_form::compose_form;
use crate::commands::step_laws::turning_leads_to_the_neighbour;
use crate::commands::selectors::{current_dialect_is_offered, dialects};
use crate::path::component_ok;
use crate::renderers::util::{models_or_empty, path_at, text_at, text_or_empty};
use crate::row_laws::field_rows_show_what_is_stored;
use crate::snapshot::SnapshotView;
use crate::types::{auth_order, AccountField, AccountView, AuthScheme, ProviderView};
use crate::value::ValueView;
use crate::view::{ItemView, NodeView, Sizing, SpanView};
use crate::visible_rows::{row_index_unique, visible, KindView, RowView};
use vstd::prelude::*;
use vstd::string::*;

use super::index::{
    accounts_len, accounts_section, colon_from, composing, empty_lines, header_child, index_page,
    insertion_point, item_list, label_value, lines_before, models_section, pending_target,
    row_carousel, row_item, row_items, scheme_names, section_view, stage_at_cursor, stage_prompt,
    valid_names, with_empty_lines, without_models, woven, SectionView,
};

verus! {

/// Whether spans are a carousel: a label, the option before, the current option
/// and the one after, of which only the current one stands out.
pub open spec fn turns_through(
    spans: Seq<SpanView>,
    label: Seq<char>,
    before: Seq<char>,
    current: Seq<char>,
    after: Seq<char>,
) -> bool {
    &&& spans.len() == 4
    &&& spans[0].text == label + ": "@
    &&& spans[1].text == "◂ "@ + before + "  "@
    &&& spans[2].text == current
    &&& spans[3].text == "  "@ + after + " ▸"@
    &&& spans[2].style.modifiers.bold && !spans[2].style.modifiers.dim
    &&& spans[1].style.modifiers.dim && !spans[1].style.modifiers.bold
    &&& spans[3].style.modifiers.dim && !spans[3].style.modifiers.bold
    &&& !spans[0].style.modifiers.bold && !spans[0].style.modifiers.dim
}

/// On a scheme's row with a scheme in force, the carousel stands at that scheme,
/// between the ones before and after it in the ring of `x-api-key`,
/// `bearer-token` and none.
pub proof fn scheme_carousel_stands_at_the_scheme_in_force(
    row: RowView,
    lead: Seq<char>,
    options: Seq<Seq<char>>,
    a: AuthScheme,
)
    requires
        row.kind is AccountField,
        row.kind->AccountField_field == AccountField::Auth,
    ensures
        row_carousel(row, lead, options, Some(a)) is Some,
        ({
            let spans = row_carousel(row, lead, options, Some(a))->0;
            match a {
                AuthScheme::XApiKey => turns_through(
                    spans,
                    lead + "Auth"@,
                    "none"@,
                    "x-api-key"@,
                    "bearer-token"@,
                ),
                AuthScheme::BearerToken => turns_through(
                    spans,
                    lead + "Auth"@,
                    "x-api-key"@,
                    "bearer-token"@,
                    "none"@,
                ),
                AuthScheme::NoAuth => turns_through(
                    spans,
                    lead + "Auth"@,
                    "bearer-token"@,
                    "none"@,
                    "x-api-key"@,
                ),
            }
        }),
{
    let d = auth_order();
    let i: int = match a {
        AuthScheme::XApiKey => 0,
        AuthScheme::BearerToken => 1,
        AuthScheme::NoAuth => 2,
    };
    assert(d[i] == a);
    assert(forall|j: int| 0 <= j < i ==> #[trigger] d[j] != a);
    place_unique(d, a, i);
    turning_leads_to_the_neighbour(3, i);
    let names = scheme_names();
    assert(names.len() == 3);
    assert(names[0] == "x-api-key"@ && names[1] == "bearer-token"@ && names[2] == "none"@);
}

/// On the focused row of a scheme the page shows the carousel at the scheme that
/// is in force for the connection: the one its provider's record has, or else
/// the dialect's own. It is the scheme that the row's label shows.
pub proof fn focused_scheme_row_shows_the_scheme_in_force(
    s: SnapshotView,
    i: int,
    account: Seq<char>,
    a: AccountView,
    p: ProviderView,
)
    requires
        focus_is_on(s, i),
        visible(s)[i].kind == (KindView::AccountField { account, field: AccountField::Auth }),
        s.at(seq!["config"@, "gate"@, "accounts"@, account]) == Some(ValueView::Account(a)),
        component_ok(a.provider),
        s.at(seq!["config"@, "gate"@, "providers"@, a.provider]) == Some(ValueView::Provider(p)),
    ensures
        ({
            let scheme = match p.auth {
                Some(x) => x,
                None => if p.dialect == "anthropic"@ {
                    AuthScheme::XApiKey
                } else {
                    AuthScheme::BearerToken
                },
            };
            let item = row_item(visible(s)[i], section_view(s));
            let spans = item.primary_spans->0;
            &&& item.primary_spans is Some
            &&& spans.len() == 4
            &&& spans[2].style.modifiers.bold
            &&& visible(s)[i].label == "Auth"@ + ": "@ + spans[2].text
            &&& match scheme {
                AuthScheme::XApiKey => spans[2].text == "x-api-key"@ && spans[1].text == "◂ "@
                    + "none"@ + "  "@ && spans[3].text == "  "@ + "bearer-token"@ + " ▸"@,
                AuthScheme::BearerToken => spans[2].text == "bearer-token"@ && spans[1].text
                    == "◂ "@ + "x-api-key"@ + "  "@ && spans[3].text == "  "@ + "none"@ + " ▸"@,
                AuthScheme::NoAuth => spans[2].text == "none"@ && spans[1].text == "◂ "@
                    + "bearer-token"@ + "  "@ && spans[3].text == "  "@ + "x-api-key"@ + " ▸"@,
            }
        }),
{
    let row = visible(s)[i];
    let ctx = section_view(s);
    field_rows_show_what_is_stored(s, i, account, AccountField::Auth, a, p);
    row_index_unique(visible(s), row.path, i);
    let lead = super::index::indent_text(row.depth) + super::index::glyph_text(row);
    scheme_carousel_stands_at_the_scheme_in_force(row, lead, ctx.options, p.effective_auth());
    assert(ctx.auth == Some(p.effective_auth()));
}

/// On a protocol's row whose dialect is on offer, the carousel stands at that
/// dialect, between the ones before and after it among those on offer.
pub proof fn protocol_carousel_stands_at_the_dialect(
    row: RowView,
    lead: Seq<char>,
    auth: Option<AuthScheme>,
)
    requires
        row.kind is AccountField,
        row.kind->AccountField_field == AccountField::Protocol,
        label_value(row.label).len() > 0,
    ensures
        ({
            let v = label_value(row.label);
            let spans = row_carousel(row, lead, dialects(v), auth);
            &&& spans is Some
            &&& v == "anthropic"@ ==> turns_through(
                spans->0,
                lead + "Protocol"@,
                "openai"@,
                v,
                "openai"@,
            )
            &&& v == "openai"@ ==> turns_through(
                spans->0,
                lead + "Protocol"@,
                "anthropic"@,
                v,
                "anthropic"@,
            )
            &&& v != "anthropic"@ && v != "openai"@ ==> turns_through(
                spans->0,
                lead + "Protocol"@,
                "openai"@,
                v,
                "anthropic"@,
            )
        }),
{
    let v = label_value(row.label);
    let d = dialects(v);
    reveal_strlit("anthropic");
    reveal_strlit("openai");
    assert("anthropic"@.len() == 9 && "openai"@.len() == 6);
    current_dialect_is_offered(v);
    let presets = crate::commands::compose::protocol_choices();
    assert(presets[0] == "anthropic"@ && presets[1] == "openai"@);
    assert(d[0] == presets[0]) by {
        assert(d.subrange(0, 2)[0] == d[0]);
    }
    assert(d[1] == presets[1]) by {
        assert(d.subrange(0, 2)[1] == d[1]);
    }
    if v == "anthropic"@ {
        assert(presets.contains(presets[0]));
        place_unique(d, v, 0);
        turning_leads_to_the_neighbour(2, 0);
    } else if v == "openai"@ {
        assert(presets.contains(presets[1]));
        place_unique(d, v, 1);
        turning_leads_to_the_neighbour(2, 1);
    } else {
        assert(!presets.contains(v));
        assert(d[2] == v);
        place_unique(d, v, 2);
        turning_leads_to_the_neighbour(3, 2);
    }
}

/// Only the rows of a protocol or a scheme have a carousel.
pub proof fn other_rows_have_no_carousel(
    row: RowView,
    lead: Seq<char>,
    options: Seq<Seq<char>>,
    auth: Option<AuthScheme>,
)
    requires
        !(row.kind is AccountField) || (row.kind->AccountField_field != AccountField::Protocol
            && row.kind->AccountField_field != AccountField::Auth),
    ensures
        row_carousel(row, lead, options, auth) is None,
{
}

/// Whether a text holds no colon that a space follows.
pub open spec fn colon_free(s: Seq<char>) -> bool {
    forall|i: int| 0 <= i < s.len() - 1 ==> !(#[trigger] s[i] == ':' && s[i + 1] == ' ')
}

proof fn lemma_no_colon(s: Seq<char>, i: int)
    requires
        0 <= i,
        forall|k: int| i <= k < s.len() - 1 ==> !(#[trigger] s[k] == ':' && s[k + 1] == ' '),
    ensures
        colon_from(s, i) is None,
    decreases s.len() - i,
{
    if i + 1 < s.len() {
        lemma_no_colon(s, i + 1);
    }
}

proof fn lemma_first_colon(s: Seq<char>, i: int, n: int)
    requires
        0 <= i <= n,
        n + 1 < s.len(),
        s[n] == ':' && s[n + 1] == ' ',
        forall|k: int| i <= k < n ==> !(#[trigger] s[k] == ':' && s[k + 1] == ' '),
    ensures
        colon_from(s, i) == Some(n),
    decreases n - i,
{
    if i < n {
        lemma_first_colon(s, i + 1, n);
    }
}

/// What stands behind the name in a label is its value.
pub proof fn label_value_is_what_follows_the_name(v: Seq<char>)
    requires
        colon_free(v),
    ensures
        label_value("Protocol"@ + ": "@ + v) == v,
{
    reveal_strlit("Protocol");
    reveal_strlit(": ");
    let label = "Protocol"@ + ": "@ + v;
    assert("Protocol"@.len() == 8);
    assert(": "@.len() == 2 && ": "@[0] == ':' && ": "@[1] == ' ');
    assert(label.len() == 10 + v.len());
    assert(label[8] == ':' && label[9] == ' ');
    assert forall|k: int| 0 <= k < 8 implies !(#[trigger] label[k] == ':' && label[k + 1]
        == ' ') by {
        assert(label[k] == "Protocol"@[k]);
    }
    lemma_first_colon(label, 0, 8);
    assert forall|k: int| 10 <= k < label.len() - 1 implies !(#[trigger] label[k] == ':' && label[k
        + 1] == ' ') by {
        assert(label[k] == v[k - 10]);
        assert(label[k + 1] == v[k - 9]);
    }
    lemma_no_colon(label, 10);
    assert(label.subrange(10, label.len() as int) =~= v);
}

/// On the focused row of a protocol the page shows the carousel at the provider
/// that the connection is bound to, which is what the row's label shows.
pub proof fn focused_protocol_row_shows_the_provider(
    s: SnapshotView,
    i: int,
    account: Seq<char>,
    a: AccountView,
    p: ProviderView,
)
    requires
        focus_is_on(s, i),
        visible(s)[i].kind == (KindView::AccountField { account, field: AccountField::Protocol }),
        s.at(seq!["config"@, "gate"@, "accounts"@, account]) == Some(ValueView::Account(a)),
        component_ok(a.provider),
        s.at(seq!["config"@, "gate"@, "providers"@, a.provider]) == Some(ValueView::Provider(p)),
        colon_free(a.provider),
    ensures
        ({
            let item = row_item(visible(s)[i], section_view(s));
            let spans = item.primary_spans->0;
            &&& item.primary_spans is Some
            &&& spans.len() == 4
            &&& spans[2].style.modifiers.bold
            &&& spans[2].text == a.provider
            &&& visible(s)[i].label == "Protocol"@ + ": "@ + spans[2].text
        }),
{
    let row = visible(s)[i];
    let ctx = section_view(s);
    field_rows_show_what_is_stored(s, i, account, AccountField::Protocol, a, p);
    label_value_is_what_follows_the_name(a.provider);
    row_index_unique(visible(s), row.path, i);
    let lead = super::index::indent_text(row.depth) + super::index::glyph_text(row);
    protocol_carousel_stands_at_the_dialect(row, lead, ctx.auth);
    assert(ctx.options == dialects(a.provider));
}

/// A row's item stands for the row: it takes the focus of the row's path, shows
/// its badge, and two spaces for each level and a mark in front of its label. The
/// mark tells open from closed. A row that is edited shows what is typed in place
/// of its value.
pub proof fn items_show_their_rows(row: RowView, ctx: SectionView)
    requires
        row.depth <= 2,
    ensures
        ({
            let item = row_item(row, ctx);
            let lead = (if row.depth == 0 {
                Seq::<char>::empty()
            } else if row.depth == 1 {
                "  "@
            } else {
                "  "@ + "  "@
            }) + (if !row.expandable {
                "  "@
            } else if row.expanded {
                "▾ "@
            } else {
                "▸ "@
            });
            let edited = ctx.edit is Some && ctx.edit->0.field_path == row.path;
            &&& item.focus == Some(row.path)
            &&& item.badge == row.badge
            &&& item.secondary == row.secondary
            &&& ctx.cursor != Some(row.path) ==> item.primary_spans is None
            &&& !edited || item.primary_spans is Some ==> item.primary == lead + row.label
            &&& edited && item.primary_spans is None && row.kind is AccountField
                && row.kind->AccountField_field == AccountField::Endpoint ==> item.primary == lead
                + ("Endpoint"@ + "▸ "@ + ctx.edit->0.buffer + "\u{258F}"@)
            &&& edited && item.primary_spans is None && row.kind is AccountField
                && row.kind->AccountField_field == AccountField::Key ==> item.primary == lead + (
            "Key"@ + "▸ "@ + ctx.edit->0.buffer + "\u{258F}"@)
            &&& edited && item.primary_spans is None && row.kind is ModelField
                && row.kind->ModelField_field == crate::types::ModelField::ContextSizeOverride
                ==> item.primary == lead + ("max_context_size"@ + "▸ "@ + ctx.edit->0.buffer
                + "\u{258F}"@)
            &&& edited && item.primary_spans is None && row.kind is ModelField
                && row.kind->ModelField_field == crate::types::ModelField::OutputTokensOverride
                ==> item.primary == lead + ("max_output_tokens"@ + "▸ "@ + ctx.edit->0.buffer
                + "\u{258F}"@)
        }),
{
    reveal_with_fuel(super::index::indent_text, 3);
    assert(super::index::indent_text(0) =~= Seq::<char>::empty());
    assert(super::index::indent_text(1) =~= "  "@);
    assert(super::index::indent_text(2) =~= "  "@ + "  "@);
}

/// The highlighted item of a list is the first at the cursor; there is one
/// whenever an item is at the cursor.
pub proof fn the_item_at_the_cursor_is_highlighted(
    items: Seq<ItemView>,
    cursor: Seq<Seq<char>>,
    k: int,
)
    requires
        0 <= k < items.len(),
        items[k].focus == Some(cursor),
        forall|j: int| 0 <= j < k ==> (#[trigger] items[j]).focus != Some(cursor),
    ensures
        item_list(items, Some(cursor)) is List,
        item_list(items, Some(cursor))->List_items == items,
        item_list(items, Some(cursor))->List_selected == Some(k),
        item_list(items, None)->List_selected is None,
{
    let all = super::index::focuses(items);
    assert(all[k] == Some(cursor));
    assert forall|j: int| 0 <= j < k implies #[trigger] all[j] != Some(cursor) by {
        assert(all[j] == items[j].focus);
    }
    place_unique(all, Some(cursor), k);
}

/// Whether an item stands in one of the lists of a node.
pub open spec fn shows_item(v: NodeView, item: ItemView) -> bool
    decreases v, 0nat,
{
    match v {
        NodeView::List { items, .. } => items.contains(item),
        NodeView::Stack { children, .. } => children_show(children, children.len(), item),
        NodeView::Frame { content, .. } => shows_item(*content, item),
        NodeView::Pad { child, .. } => shows_item(*child, item),
        _ => false,
    }
}

/// Whether an item stands in one of the lists of the first `n` children.
pub open spec fn children_show(children: Seq<(NodeView, Sizing)>, n: nat, item: ItemView) -> bool
    decreases children, n,
{
    if n == 0 || n > children.len() {
        false
    } else {
        children_show(children, (n - 1) as nat, item) || shows_item(children[n - 1].0, item)
    }
}

proof fn lemma_child_shows(
    children: Seq<(NodeView, Sizing)>,
    n: nat,
    k: int,
    item: ItemView,
)
    requires
        0 <= k < n <= children.len(),
        shows_item(children[k].0, item),
    ensures
        children_show(children, n, item),
    decreases n,
{
    if k < n - 1 {
        lemma_child_shows(children, (n - 1) as nat, k, item);
    }
}

proof fn lemma_woven_keeps(
    items: Seq<ItemView>,
    s: SnapshotView,
    rows: Seq<RowView>,
    names: Seq<Seq<char>>,
    empties: Seq<Seq<char>>,
    k: int,
    j: int,
)
    requires
        0 <= j < k <= items.len(),
    ensures
        woven(items, s, rows, names, empties, k).contains(items[j]),
    decreases k,
{
    let before = woven(items, s, rows, names, empties, k - 1);
    let all = woven(items, s, rows, names, empties, k);
    if j < k - 1 {
        lemma_woven_keeps(items, s, rows, names, empties, k - 1, j);
        let m = choose|m: int| 0 <= m < before.len() && before[m] == items[j];
        assert(all[m] == items[j]);
    } else {
        assert(all[before.len() as int] == items[j]);
    }
}

proof fn lemma_lines_hold(
    s: SnapshotView,
    rows: Seq<RowView>,
    names: Seq<Seq<char>>,
    empties: Seq<Seq<char>>,
    name: Seq<char>,
    m: int,
)
    requires
        empties.contains(name),
        0 <= m < 2,
    ensures
        lines_before(
            s,
            rows,
            names,
            empties,
            insertion_point(rows, names, name) as int,
        ).contains(empty_lines(s, name)[m]),
    decreases empties.len(),
{
    let rest = empties.drop_last();
    let last = empties.last();
    let k = insertion_point(rows, names, name) as int;
    let before = lines_before(s, rows, names, rest, k);
    let all = lines_before(s, rows, names, empties, k);
    if last == name {
        assert(all[before.len() + m] == empty_lines(s, name)[m]);
    } else {
        let j = choose|j: int| 0 <= j < empties.len() && empties[j] == name;
        assert(rest[j] == name);
        lemma_lines_hold(s, rows, names, rest, name, m);
        let i = choose|i: int| 0 <= i < before.len() && before[i] == empty_lines(s, name)[m];
        assert(all[i] == empty_lines(s, name)[m]);
    }
}

proof fn lemma_woven_announces(
    items: Seq<ItemView>,
    s: SnapshotView,
    rows: Seq<RowView>,
    names: Seq<Seq<char>>,
    empties: Seq<Seq<char>>,
    name: Seq<char>,
    k: int,
    m: int,
)
    requires
        empties.contains(name),
        insertion_point(rows, names, name) <= k <= items.len(),
        0 <= m < 2,
    ensures
        woven(items, s, rows, names, empties, k).contains(empty_lines(s, name)[m]),
    decreases k,
{
    let p = insertion_point(rows, names, name) as int;
    let all = woven(items, s, rows, names, empties, k);
    if k == p {
        lemma_lines_hold(s, rows, names, empties, name, m);
        let lines = lines_before(s, rows, names, empties, k);
        let i = choose|i: int| 0 <= i < lines.len() && lines[i] == empty_lines(s, name)[m];
        if k > 0 {
            let before = woven(items, s, rows, names, empties, k - 1);
            assert(all[before.len() + 1 + i] == empty_lines(s, name)[m]);
        } else {
            assert(all[i] == empty_lines(s, name)[m]);
        }
    } else {
        lemma_woven_announces(items, s, rows, names, empties, name, k - 1, m);
        let before = woven(items, s, rows, names, empties, k - 1);
        let i = choose|i: int| 0 <= i < before.len() && before[i] == empty_lines(s, name)[m];
        assert(all[i] == empty_lines(s, name)[m]);
    }
}

proof fn lemma_point_fits(rows: Seq<RowView>, names: Seq<Seq<char>>, name: Seq<char>)
    ensures
        insertion_point(rows, names, name) <= rows.len(),
    decreases rows.len(),
{
    if rows.len() > 0 {
        lemma_point_fits(rows.drop_last(), names, name);
    }
}

proof fn lemma_empties_hold(s: SnapshotView, all: Seq<Seq<char>>, name: Seq<char>)
    requires
        all.contains(name),
        component_ok(name),
        models_or_empty(
            s,
            seq!["config"@, "gate"@, "accounts"@, name, "models"@],
        ).len() == 0,
    ensures
        valid_names(all).contains(name),
        without_models(s, valid_names(all)).contains(name),
    decreases all.len(),
{
    lemma_valid_holds(all, name);
    lemma_without_holds(s, valid_names(all), name);
}

proof fn lemma_valid_holds(all: Seq<Seq<char>>, name: Seq<char>)
    requires
        all.contains(name),
        component_ok(name),
    ensures
        valid_names(all).contains(name),
    decreases all.len(),
{
    let rest = all.drop_last();
    if all.last() == name {
        assert(valid_names(all)[valid_names(rest).len() as int] == name);
    } else {
        let k = choose|k: int| 0 <= k < all.len() && all[k] == name;
        assert(rest[k] == name);
        lemma_valid_holds(rest, name);
        let v = valid_names(rest);
        let j = choose|j: int| 0 <= j < v.len() && v[j] == name;
        assert(valid_names(all)[j] == name);
    }
}

proof fn lemma_without_holds(s: SnapshotView, all: Seq<Seq<char>>, name: Seq<char>)
    requires
        all.contains(name),
        models_or_empty(
            s,
            seq!["config"@, "gate"@, "accounts"@, name, "models"@],
        ).len() == 0,
    ensures
        without_models(s, all).contains(name),
    decreases all.len(),
{
    let rest = all.drop_last();
    if all.last() == name {
        assert(without_models(s, all)[without_models(s, rest).len() as int] == name);
    } else {
        let k = choose|k: int| 0 <= k < all.len() && all[k] == name;
        assert(rest[k] == name);
        lemma_without_holds(s, rest, name);
        let v = without_models(s, rest);
        let j = choose|j: int| 0 <= j < v.len() && v[j] == name;
        assert(without_models(s, all)[j] == name);
    }
}

proof fn lemma_accounts_len_fits(rows: Seq<RowView>)
    ensures
        0 <= accounts_len(rows) <= rows.len(),
    decreases rows.len(),
{
    if rows.len() > 0 {
        lemma_accounts_len_fits(rows.drop_last());
    }
}

proof fn lemma_page_shows(s: SnapshotView, item: ItemView)
    requires
        ({
            let n = accounts_len(visible(s));
            let ctx = section_view(s);
            ||| shows_item(
                accounts_section(visible(s).subrange(0, n), ctx, composing(s), compose_form(s)),
                item,
            )
            ||| shows_item(
                models_section(s, visible(s).subrange(n, visible(s).len() as int), ctx),
                item,
            )
        }),
    ensures
        shows_item(index_page(s), item),
{
    let n = accounts_len(visible(s));
    let ctx = section_view(s);
    let accounts = accounts_section(
        visible(s).subrange(0, n),
        ctx,
        composing(s),
        compose_form(s),
    );
    let models = models_section(s, visible(s).subrange(n, visible(s).len() as int), ctx);
    let content = *index_page(s)->content;
    let children = content->Stack_children;
    let first: int = if pending_target(s) is Some {
        1
    } else {
        0
    };
    assert(children.len() == first + 3);
    assert(children[first].0 == accounts);
    assert(children[first + 1].0 == models);
    if shows_item(accounts, item) {
        lemma_child_shows(children, children.len(), first, item);
    } else {
        lemma_child_shows(children, children.len(), first + 1, item);
    }
    assert(shows_item(content, item));
}

/// Every row of an expanded section, and each section's own row, stands on the
/// page with its item.
pub proof fn rows_stand_on_the_page(s: SnapshotView, i: int)
    requires
        0 <= i < visible(s).len(),
        i < accounts_len(visible(s)) ==> i == 0 || visible(s)[0].expanded,
        i >= accounts_len(visible(s)) ==> i == accounts_len(visible(s)) || visible(s)[accounts_len(
            visible(s),
        )].expanded,
    ensures
        shows_item(index_page(s), row_item(visible(s)[i], section_view(s))),
{
    let n = accounts_len(visible(s));
    lemma_accounts_len_fits(visible(s));
    let ctx = section_view(s);
    let item = row_item(visible(s)[i], ctx);
    let first = visible(s).subrange(0, n);
    let second = visible(s).subrange(n, visible(s).len() as int);
    if i < n {
        let section = accounts_section(first, ctx, composing(s), compose_form(s));
        let children = section->Stack_children;
        if i == 0 {
            let head = row_items(first.subrange(0, 1), ctx);
            assert(head[0] == item);
            assert(head.contains(item));
            assert(children[0] == header_child(first, ctx));
            assert(shows_item(children[0].0, item));
            lemma_child_shows(children, children.len(), 0, item);
        } else {
            let below = first.subrange(1, first.len() as int);
            let items = row_items(below, ctx);
            assert(items[i - 1] == item);
            assert(items.contains(item));
            let last = children.len() - 1;
            assert(children[last].0 == item_list(items, ctx.cursor));
            assert(shows_item(children[last].0, item));
            lemma_child_shows(children, children.len(), last, item);
        }
        assert(shows_item(section, item));
    } else {
        let section = models_section(s, second, ctx);
        let children = section->Stack_children;
        if i == n {
            let head = row_items(second.subrange(0, 1), ctx);
            assert(head[0] == item);
            assert(head.contains(item));
            assert(children[0] == header_child(second, ctx));
            assert(shows_item(children[0].0, item));
            lemma_child_shows(children, children.len(), 0, item);
        } else {
            let below = second.subrange(1, second.len() as int);
            let items = row_items(below, ctx);
            let names = valid_names(s.children(accounts_root()));
            assert(items[i - n - 1] == item);
            lemma_woven_keeps(
                items,
                s,
                below,
                names,
                without_models(s, names),
                items.len() as int,
                i - n - 1,
            );
            let all = with_empty_lines(items, s, below);
            assert(all.contains(item));
            assert(children[1].0 == item_list(all, ctx.cursor));
            assert(shows_item(children[1].0, item));
            lemma_child_shows(children, children.len(), 1, item);
        }
        assert(shows_item(section, item));
    }
    lemma_page_shows(s, item);
}

/// While the models are expanded, every connection without a model is announced
/// on the page, with how to enter one, or what has been entered so far.
pub proof fn empty_catalogs_are_announced(s: SnapshotView, name: Seq<char>)
    requires
        accounts_len(visible(s)) < visible(s).len(),
        visible(s)[accounts_len(visible(s))].expanded,
        s.children(seq!["config"@, "gate"@, "accounts"@]).contains(name),
        component_ok(name),
        models_or_empty(
            s,
            seq!["config"@, "gate"@, "accounts"@, name, "models"@],
        ).len() == 0,
    ensures
        exists|item: ItemView| #[trigger]
            shows_item(index_page(s), item) && item.primary == "  "@ + name
                + " / (no models — press r to refresh)"@ && item.focus is None,
        exists|item: ItemView| #[trigger]
            shows_item(index_page(s), item) && item.focus is None && (if text_at(
                s,
                seq!["ui"@, "settings"@, "manual_model"@, "account"@],
            ) == Some(name) {
                item.primary == "    "@ + stage_prompt(stage_at_cursor(s)) + "▸ "@ + text_or_empty(
                    s,
                    seq!["ui"@, "settings"@, "manual_model"@, "buffer"@],
                ) + "\u{258F}"@
            } else {
                item.primary == "    + add model manually (m)"@
            }),
{
    let n = accounts_len(visible(s));
    lemma_accounts_len_fits(visible(s));
    let ctx = section_view(s);
    let second = visible(s).subrange(n, visible(s).len() as int);
    let below = second.subrange(1, second.len() as int);
    let items = row_items(below, ctx);
    let all_names = s.children(accounts_root());
    let names = valid_names(all_names);
    let empties = without_models(s, names);
    lemma_empties_hold(s, all_names, name);
    lemma_point_fits(below, names, name);
    lemma_woven_announces(items, s, below, names, empties, name, items.len() as int, 0);
    lemma_woven_announces(items, s, below, names, empties, name, items.len() as int, 1);
    let all = with_empty_lines(items, s, below);
    let section = models_section(s, second, ctx);
    let children = section->Stack_children;
    let a = empty_lines(s, name)[0];
    let b = empty_lines(s, name)[1];
    assert(children[1].0 == item_list(all, ctx.cursor));
    assert(shows_item(children[1].0, a));
    lemma_child_shows(children, children.len(), 1, a);
    assert(shows_item(section, a));
    assert(shows_item(children[1].0, b));
    lemma_child_shows(children, children.len(), 1, b);
    assert(shows_item(section, b));
    lemma_page_shows(s, a);
    lemma_page_shows(s, b);
}

/// The page is drawn with the cursor as it is stored; while that is at the edit,
/// the row that is edited is the stored one, with what is stored as typed so
/// far, and otherwise no row is edited.
pub proof fn page_is_drawn_with_the_stored_edit(s: SnapshotView)
    ensures
        ({
            let ctx = section_view(s);
            let cursor = path_at(s, seq!["ui"@, "settings"@, "focused"@]);
            let target = path_at(s, seq!["ui"@, "settings"@, "edit"@, "target_path"@]);
            let editing = cursor == Some(seq!["settings"@, "_edit"@]) && target is Some;
            &&& ctx.cursor == cursor
            &&& editing ==> ctx.edit is Some && ctx.edit->0.field_path == target->0
                && ctx.edit->0.buffer == text_or_empty(
                s,
                seq!["ui"@, "settings"@, "edit"@, "buffer"@],
            )
            &&& !editing ==> ctx.edit is None
        }),
{
}

} // verus!
