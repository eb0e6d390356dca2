//! Which rows the settings tree shows, and what stands in them.

use crate::commands::compose::{accounts_root, field_order};
use crate::path::{component_ok, path_text};
use crate::renderers::util::{models_or_empty, role_at, text_at};
use crate::snapshot::SnapshotView;
use crate::text::decimal;
use crate::types::{
    field_text, AccountField, AccountView, AuthScheme, IndexEntryView, ModelField, ModelView,
    ProviderView,
};
use crate::value::ValueView;
use crate::visible_rows::{
    account_field_row, account_row, account_rows, accounts_rows, catalog_rows, entries_root,
    entries_rows, entry_row, is_open, model_figure_row, model_row, model_rows, models_rows,
    section_rows, visible, KindView, RowView,
};
use crate::commands::tree::expanded_set;
use vstd::prelude::*;
use vstd::string::*;

verus! {

/// Where an account's models are kept.
spec fn models_place(account: Seq<char>) -> Seq<Seq<char>> {
    seq!["config"@, "gate"@, "accounts"@, account, "models"@]
}

/// Whether a row is the one its kind says it is.
spec fn row_fits(s: SnapshotView, row: RowView) -> bool {
    match row.kind {
        KindView::Entry { entry_id } => row.depth == 0 && row.expandable && row.expanded
            == is_open(s, row.path) && row.secondary is None,
        KindView::Account { name } => component_ok(name) && s.children(accounts_root()).contains(
            name,
        ) && row == account_row(s, name),
        KindView::AccountField { account, field } => component_ok(account) && s.children(
            accounts_root(),
        ).contains(account) && row == account_field_row(s, account, field),
        KindView::Model { account, model_id } => component_ok(account) && s.children(
            accounts_root(),
        ).contains(account) && exists|m: ModelView|
            models_or_empty(s, models_place(account)).contains(m) && m.id == model_id && row
                == #[trigger] model_row(s, account, m),
        KindView::ModelField { account, model_id, field } => component_ok(account) && s.children(
            accounts_root(),
        ).contains(account) && exists|m: ModelView|
            models_or_empty(s, models_place(account)).contains(m) && m.id == model_id && row
                == #[trigger] model_figure_row(account, m, field),
    }
}

spec fn rows_fit(s: SnapshotView, rows: Seq<RowView>) -> bool {
    forall|i: int| 0 <= i < rows.len() ==> row_fits(s, #[trigger] rows[i])
}

proof fn lemma_fit_in_turn(s: SnapshotView, a: Seq<RowView>, b: Seq<RowView>)
    requires
        rows_fit(s, a),
        rows_fit(s, b),
    ensures
        rows_fit(s, a + b),
{
    let all = a + b;
    assert forall|i: int| 0 <= i < all.len() implies row_fits(s, #[trigger] all[i]) by {
        if i < a.len() {
            assert(all[i] == a[i]);
        } else {
            assert(all[i] == b[i - a.len()]);
        }
    }
}

proof fn lemma_accounts_fit(s: SnapshotView, names: Seq<Seq<char>>)
    requires
        forall|i: int|
            0 <= i < names.len() ==> s.children(accounts_root()).contains(#[trigger] names[i]),
    ensures
        rows_fit(s, accounts_rows(s, names)),
    decreases names.len(),
{
    if names.len() > 0 {
        let rest = names.drop_last();
        assert forall|i: int| 0 <= i < rest.len() implies s.children(accounts_root()).contains(
            #[trigger] rest[i],
        ) by {
            assert(rest[i] == names[i]);
        }
        lemma_accounts_fit(s, rest);
        let name = names.last();
        assert(names[names.len() - 1] == name);
        if component_ok(name) {
            assert(rows_fit(s, account_rows(s, name)));
            lemma_fit_in_turn(s, accounts_rows(s, rest), account_rows(s, name));
        }
    }
}

proof fn lemma_catalog_fits(s: SnapshotView, account: Seq<char>, models: Seq<ModelView>)
    requires
        component_ok(account),
        s.children(accounts_root()).contains(account),
        forall|i: int|
            0 <= i < models.len() ==> models_or_empty(s, models_place(account)).contains(
                #[trigger] models[i],
            ),
    ensures
        rows_fit(s, catalog_rows(s, account, models)),
    decreases models.len(),
{
    if models.len() > 0 {
        let rest = models.drop_last();
        assert forall|i: int| 0 <= i < rest.len() implies models_or_empty(
            s,
            models_place(account),
        ).contains(#[trigger] rest[i]) by {
            assert(rest[i] == models[i]);
        }
        lemma_catalog_fits(s, account, rest);
        let m = models.last();
        assert(models[models.len() - 1] == m);
        let rows = model_rows(s, account, m);
        assert(row_fits(s, model_row(s, account, m)));
        assert(row_fits(s, model_figure_row(account, m, ModelField::ContextSizeOverride)));
        assert(row_fits(s, model_figure_row(account, m, ModelField::OutputTokensOverride)));
        assert(rows_fit(s, rows));
        lemma_fit_in_turn(s, catalog_rows(s, account, rest), rows);
    }
}

proof fn lemma_models_fit(s: SnapshotView, names: Seq<Seq<char>>)
    requires
        forall|i: int|
            0 <= i < names.len() ==> s.children(accounts_root()).contains(#[trigger] names[i]),
    ensures
        rows_fit(s, models_rows(s, names)),
    decreases names.len(),
{
    if names.len() > 0 {
        let rest = names.drop_last();
        assert forall|i: int| 0 <= i < rest.len() implies s.children(accounts_root()).contains(
            #[trigger] rest[i],
        ) by {
            assert(rest[i] == names[i]);
        }
        lemma_models_fit(s, rest);
        let account = names.last();
        assert(names[names.len() - 1] == account);
        if component_ok(account) {
            let models = models_or_empty(s, models_place(account));
            lemma_catalog_fits(s, account, models);
            lemma_fit_in_turn(s, models_rows(s, rest), catalog_rows(s, account, models));
        }
    }
}

proof fn lemma_entries_fit(s: SnapshotView, names: Seq<Seq<char>>)
    ensures
        rows_fit(s, entries_rows(s, names)),
    decreases names.len(),
{
    if names.len() > 0 {
        let rest = names.drop_last();
        lemma_entries_fit(s, rest);
        match s.at(entries_root().push(names.last())) {
            Some(ValueView::IndexEntry(e)) => {
                let accounts = s.children(accounts_root());
                lemma_accounts_fit(s, accounts);
                lemma_models_fit(s, accounts);
                let head = seq![entry_row(s, e)];
                assert(rows_fit(s, head));
                lemma_fit_in_turn(s, head, accounts_rows(s, accounts));
                lemma_fit_in_turn(s, head, models_rows(s, accounts));
                lemma_fit_in_turn(s, head, Seq::<RowView>::empty());
                lemma_fit_in_turn(s, entries_rows(s, rest), section_rows(s, e));
            },
            _ => {},
        }
    }
}

/// No row has more to show than fits one line, and how deep it is nested follows
/// from what it stands for.
pub proof fn rows_take_one_line(s: SnapshotView, i: int)
    requires
        0 <= i < visible(s).len(),
    ensures
        visible(s)[i].secondary is None,
        visible(s)[i].depth == (match visible(s)[i].kind {
            KindView::Entry { .. } => 0nat,
            KindView::Account { .. } => 1nat,
            KindView::Model { .. } => 1nat,
            _ => 2nat,
        }),
{
    lemma_entries_fit(s, s.children(entries_root()));
    assert(row_fits(s, visible(s)[i]));
}

/// A row that stands for a connection stands for one that is there. Its path
/// ends in the connection's name, and its label is the display name of the
/// connection's record, or else that name. It shows as expanded exactly when its
/// path is among the expanded ones.
pub proof fn connection_rows_show_connections(s: SnapshotView, i: int, name: Seq<char>)
    requires
        0 <= i < visible(s).len(),
        visible(s)[i].kind == (KindView::Account { name }),
    ensures
        ({
            let row = visible(s)[i];
            let record = s.at(seq!["config"@, "gate"@, "accounts"@, name]);
            &&& component_ok(name)
            &&& s.children(seq!["config"@, "gate"@, "accounts"@]).contains(name)
            &&& row.path == seq!["settings"@, "accounts"@, name]
            &&& row.depth == 1
            &&& row.expandable
            &&& row.expanded <==> expanded_set(s).contains(
                path_text(seq!["settings"@, "accounts"@, name]),
            )
            &&& record is Some && record->0 is Account ==> row.label == (
            match record->0->Account_0.display_name {
                Some(d) => d,
                None => name,
            })
            &&& record is None ==> row.label == name
        }),
{
    lemma_entries_fit(s, s.children(entries_root()));
    assert(row_fits(s, visible(s)[i]));
}

/// A row that stands for a field of a connection shows that field as it is
/// stored: the display name, the provider the connection is bound to, the
/// endpoint of the provider's record, the scheme in force there, and of the key
/// only whether there is one.
pub proof fn field_rows_show_what_is_stored(
    s: SnapshotView,
    i: int,
    account: Seq<char>,
    field: AccountField,
    a: AccountView,
    p: ProviderView,
)
    requires
        0 <= i < visible(s).len(),
        visible(s)[i].kind == (KindView::AccountField { account, field }),
        s.at(seq!["config"@, "gate"@, "accounts"@, account]) == Some(ValueView::Account(a)),
        component_ok(a.provider),
        s.at(seq!["config"@, "gate"@, "providers"@, a.provider]) == Some(ValueView::Provider(p)),
    ensures
        ({
            let row = visible(s)[i];
            let scheme = match p.auth {
                Some(x) => x,
                None => if p.dialect == "anthropic"@ {
                    AuthScheme::XApiKey
                } else {
                    AuthScheme::BearerToken
                },
            };
            let key = text_at(s, seq!["secret"@, "keys"@, account]);
            &&& component_ok(account)
            &&& row.depth == 2
            &&& !row.expandable
            &&& row.path == seq!["settings"@, "accounts"@, account, field_text(field)]
            &&& row.label == match field {
                AccountField::Name => "Name"@ + ": "@ + (match a.display_name {
                    Some(d) => d,
                    None => account,
                }),
                AccountField::Protocol => "Protocol"@ + ": "@ + a.provider,
                AccountField::Endpoint => "Endpoint"@ + ": "@ + p.endpoint,
                AccountField::Auth => "Auth"@ + ": "@ + (match scheme {
                    AuthScheme::XApiKey => "x-api-key"@,
                    AuthScheme::BearerToken => "bearer-token"@,
                    AuthScheme::NoAuth => "none"@,
                }),
                AccountField::Key => "Key"@ + ": "@ + if key is Some && key->0.len() > 0 {
                    "••••"@
                } else {
                    "—"@
                },
            }
        }),
{
    lemma_entries_fit(s, s.children(entries_root()));
    assert(row_fits(s, visible(s)[i]));
}

/// A row that stands for a model, or for one of its figures, stands for one of
/// the catalog of its connection, and shows its name or the figure.
pub proof fn model_rows_show_models(s: SnapshotView, i: int, account: Seq<char>, id: Seq<char>)
    requires
        0 <= i < visible(s).len(),
    ensures
        ({
            let row = visible(s)[i];
            let models = models_or_empty(
                s,
                seq!["config"@, "gate"@, "accounts"@, account, "models"@],
            );
            &&& row.kind == (KindView::Model { account, model_id: id }) ==> component_ok(account)
                && exists|k: int|
                0 <= k < models.len() && (#[trigger] models[k]).id == id && row.label == account
                    + " / "@ + models[k].display_name
            &&& row.kind == (KindView::ModelField {
                account,
                model_id: id,
                field: ModelField::ContextSizeOverride,
            }) ==> component_ok(account) && exists|k: int|
                0 <= k < models.len() && (#[trigger] models[k]).id == id && row.label
                    == "max_context_size"@ + ": "@ + (match models[k].max_context_size {
                    Some(n) => decimal(n as nat),
                    None => "—"@,
                })
            &&& row.kind == (KindView::ModelField {
                account,
                model_id: id,
                field: ModelField::OutputTokensOverride,
            }) ==> component_ok(account) && exists|k: int|
                0 <= k < models.len() && (#[trigger] models[k]).id == id && row.label
                    == "max_output_tokens"@ + ": "@ + (match models[k].max_output_tokens {
                    Some(n) => decimal(n as nat),
                    None => "—"@,
                })
        }),
{
    lemma_entries_fit(s, s.children(entries_root()));
    let row = visible(s)[i];
    assert(row_fits(s, row));
    let models = models_or_empty(s, models_place(account));
    match row.kind {
        KindView::Model { account: a, model_id } => {
            let m = choose|m: ModelView|
                models_or_empty(s, models_place(a)).contains(m) && m.id == model_id && row
                    == #[trigger] model_row(s, a, m);
            if a == account {
                let k = choose|k: int| 0 <= k < models.len() && models[k] == m;
                assert(models[k].id == model_id);
            }
        },
        KindView::ModelField { account: a, model_id, field } => {
            let m = choose|m: ModelView|
                models_or_empty(s, models_place(a)).contains(m) && m.id == model_id && row
                    == #[trigger] model_figure_row(a, m, field);
            if a == account {
                let k = choose|k: int| 0 <= k < models.len() && models[k] == m;
                assert(models[k].id == model_id);
            }
        },
        _ => {},
    }
}

spec fn holds_row(rows: Seq<RowView>, row: RowView) -> bool {
    exists|i: int| 0 <= i < rows.len() && #[trigger] rows[i] == row
}

proof fn lemma_holds_in_turn(a: Seq<RowView>, b: Seq<RowView>, row: RowView)
    requires
        holds_row(a, row) || holds_row(b, row),
    ensures
        holds_row(a + b, row),
{
    let all = a + b;
    if holds_row(a, row) {
        let i = choose|i: int| 0 <= i < a.len() && #[trigger] a[i] == row;
        assert(all[i] == row);
    } else {
        let i = choose|i: int| 0 <= i < b.len() && #[trigger] b[i] == row;
        assert(all[a.len() + i] == row);
    }
}

proof fn lemma_account_is_held(
    s: SnapshotView,
    names: Seq<Seq<char>>,
    name: Seq<char>,
    row: RowView,
)
    requires
        names.contains(name),
        component_ok(name),
        holds_row(account_rows(s, name), row),
    ensures
        holds_row(accounts_rows(s, names), row),
    decreases names.len(),
{
    let rest = names.drop_last();
    let last = names.last();
    if last == name {
        lemma_holds_in_turn(accounts_rows(s, rest), account_rows(s, name), row);
    } else {
        let k = choose|k: int| 0 <= k < names.len() && names[k] == name;
        assert(rest[k] == name);
        lemma_account_is_held(s, rest, name, row);
        if component_ok(last) {
            lemma_holds_in_turn(accounts_rows(s, rest), account_rows(s, last), row);
        }
    }
}

proof fn lemma_model_is_held_in_catalog(
    s: SnapshotView,
    account: Seq<char>,
    models: Seq<ModelView>,
    m: ModelView,
    row: RowView,
)
    requires
        models.contains(m),
        holds_row(model_rows(s, account, m), row),
    ensures
        holds_row(catalog_rows(s, account, models), row),
    decreases models.len(),
{
    let rest = models.drop_last();
    let last = models.last();
    if last != m {
        let k = choose|k: int| 0 <= k < models.len() && models[k] == m;
        assert(rest[k] == m);
        lemma_model_is_held_in_catalog(s, account, rest, m, row);
    }
    lemma_holds_in_turn(catalog_rows(s, account, rest), model_rows(s, account, last), row);
}

proof fn lemma_model_is_held(
    s: SnapshotView,
    names: Seq<Seq<char>>,
    account: Seq<char>,
    m: ModelView,
    row: RowView,
)
    requires
        names.contains(account),
        component_ok(account),
        models_or_empty(s, models_place(account)).contains(m),
        holds_row(model_rows(s, account, m), row),
    ensures
        holds_row(models_rows(s, names), row),
    decreases names.len(),
{
    let rest = names.drop_last();
    let last = names.last();
    let models = models_or_empty(s, models_place(last));
    if last == account {
        lemma_model_is_held_in_catalog(s, account, models, m, row);
        lemma_holds_in_turn(models_rows(s, rest), catalog_rows(s, last, models), row);
    } else {
        let k = choose|k: int| 0 <= k < names.len() && names[k] == account;
        assert(rest[k] == account);
        lemma_model_is_held(s, rest, account, m, row);
        if component_ok(last) {
            lemma_holds_in_turn(models_rows(s, rest), catalog_rows(s, last, models), row);
        }
    }
}

proof fn lemma_section_is_held(
    s: SnapshotView,
    names: Seq<Seq<char>>,
    name: Seq<char>,
    e: IndexEntryView,
    row: RowView,
)
    requires
        names.contains(name),
        s.at(entries_root().push(name)) == Some(ValueView::IndexEntry(e)),
        holds_row(section_rows(s, e), row),
    ensures
        holds_row(entries_rows(s, names), row),
    decreases names.len(),
{
    let rest = names.drop_last();
    let last = names.last();
    if last == name {
        lemma_holds_in_turn(entries_rows(s, rest), section_rows(s, e), row);
    } else {
        let k = choose|k: int| 0 <= k < names.len() && names[k] == name;
        assert(rest[k] == name);
        lemma_section_is_held(s, rest, name, e, row);
        match s.at(entries_root().push(last)) {
            Some(ValueView::IndexEntry(x)) => {
                lemma_holds_in_turn(entries_rows(s, rest), section_rows(s, x), row);
            },
            _ => {},
        }
    }
}

/// Every entry of the index has its row, with the entry's label. Its badge is
/// the number of children of a place, the bootstrap model, or nothing.
pub proof fn every_entry_has_its_row(s: SnapshotView, name: Seq<char>, e: IndexEntryView)
    requires
        s.children(seq!["settings"@, "index"@, "entries"@]).contains(name),
        s.at(seq!["settings"@, "index"@, "entries"@].push(name)) == Some(ValueView::IndexEntry(e)),
    ensures
        exists|i: int|
            0 <= i < visible(s).len() && (#[trigger] visible(s)[i]).kind == (KindView::Entry {
                entry_id: e.id,
            }) && visible(s)[i].path == e.target_cursor && visible(s)[i].label == e.label
                && visible(s)[i].badge == (match e.badge {
                crate::types::BadgeView::Blank => None,
                crate::types::BadgeView::SubtreeCount(p) => Some(decimal(s.children(p).len())),
                crate::types::BadgeView::BootstrapReference => match role_at(
                    s,
                    seq!["config"@, "gate"@, "completions"@, "bootstrap"@],
                ) {
                    Some(role) => Some(role.account + " / "@ + role.model_id),
                    None => None,
                },
            }),
{
    let row = entry_row(s, e);
    assert(section_rows(s, e)[0] == row);
    assert(holds_row(section_rows(s, e), row));
    assert(seq!["settings"@, "index"@, "entries"@] == entries_root());
    lemma_section_is_held(s, s.children(entries_root()), name, e, row);
    let i = choose|i: int| 0 <= i < visible(s).len() && #[trigger] visible(s)[i] == row;
    assert(visible(s)[i] == row);
}

/// While the entry of the connections is expanded, every connection has its row;
/// and while that is expanded too, every field of it has one.
pub proof fn expanded_connections_are_all_shown(
    s: SnapshotView,
    entry: Seq<char>,
    e: IndexEntryView,
    name: Seq<char>,
    field: AccountField,
)
    requires
        s.children(seq!["settings"@, "index"@, "entries"@]).contains(entry),
        s.at(seq!["settings"@, "index"@, "entries"@].push(entry)) == Some(ValueView::IndexEntry(e)),
        e.id == "accounts"@,
        expanded_set(s).contains(path_text(e.target_cursor)),
        s.children(seq!["config"@, "gate"@, "accounts"@]).contains(name),
        component_ok(name),
    ensures
        exists|i: int|
            0 <= i < visible(s).len() && (#[trigger] visible(s)[i]).kind == (KindView::Account {
                name,
            }),
        expanded_set(s).contains(path_text(seq!["settings"@, "accounts"@, name])) ==> exists|
            i: int,
        |
            0 <= i < visible(s).len() && (#[trigger] visible(s)[i]).kind
                == (KindView::AccountField { account: name, field }),
{
    assert(seq!["settings"@, "index"@, "entries"@] == entries_root());
    let accounts = s.children(accounts_root());
    let rows = account_rows(s, name);
    let row = account_row(s, name);
    assert(rows[0] == row);
    assert(holds_row(rows, row));
    lemma_account_is_held(s, accounts, name, row);
    lemma_holds_in_turn(seq![entry_row(s, e)], accounts_rows(s, accounts), row);
    lemma_section_is_held(s, s.children(entries_root()), entry, e, row);
    let i = choose|i: int| 0 <= i < visible(s).len() && #[trigger] visible(s)[i] == row;
    assert(visible(s)[i].kind == (KindView::Account { name }));
    if is_open(s, seq!["settings"@, "accounts"@, name]) {
        let k: int = match field {
            AccountField::Name => 0,
            AccountField::Protocol => 1,
            AccountField::Endpoint => 2,
            AccountField::Auth => 3,
            AccountField::Key => 4,
        };
        let below = account_field_row(s, name, field);
        assert(field_order()[k] == field);
        assert(rows[k + 1] == below);
        assert(holds_row(rows, below));
        lemma_account_is_held(s, accounts, name, below);
        lemma_holds_in_turn(seq![entry_row(s, e)], accounts_rows(s, accounts), below);
        lemma_section_is_held(s, s.children(entries_root()), entry, e, below);
        let j = choose|j: int| 0 <= j < visible(s).len() && #[trigger] visible(s)[j] == below;
        assert(visible(s)[j].kind == (KindView::AccountField { account: name, field }));
    }
}

/// While the entry of the models is expanded, every model of every connection
/// has its row; and while that is expanded too, each of its figures has one.
pub proof fn expanded_models_are_all_shown(
    s: SnapshotView,
    entry: Seq<char>,
    e: IndexEntryView,
    account: Seq<char>,
    m: ModelView,
    field: ModelField,
)
    requires
        s.children(seq!["settings"@, "index"@, "entries"@]).contains(entry),
        s.at(seq!["settings"@, "index"@, "entries"@].push(entry)) == Some(ValueView::IndexEntry(e)),
        e.id == "models"@,
        expanded_set(s).contains(path_text(e.target_cursor)),
        s.children(seq!["config"@, "gate"@, "accounts"@]).contains(account),
        component_ok(account),
        models_or_empty(s, seq!["config"@, "gate"@, "accounts"@, account, "models"@]).contains(m),
    ensures
        exists|i: int|
            0 <= i < visible(s).len() && (#[trigger] visible(s)[i]).kind == (KindView::Model {
                account,
                model_id: m.id,
            }),
        is_open(s, crate::visible_rows::model_row_path(account, m.id)) ==> exists|i: int|
            0 <= i < visible(s).len() && (#[trigger] visible(s)[i]).kind == (KindView::ModelField {
                account,
                model_id: m.id,
                field,
            }),
{
    assert(seq!["settings"@, "index"@, "entries"@] == entries_root());
    reveal_strlit("accounts");
    reveal_strlit("models");
    assert("accounts"@.len() == 8 && "models"@.len() == 6);
    let accounts = s.children(accounts_root());
    let rows = model_rows(s, account, m);
    let row = model_row(s, account, m);
    assert(rows[0] == row);
    assert(holds_row(rows, row));
    lemma_model_is_held(s, accounts, account, m, row);
    lemma_holds_in_turn(seq![entry_row(s, e)], models_rows(s, accounts), row);
    lemma_section_is_held(s, s.children(entries_root()), entry, e, row);
    let i = choose|i: int| 0 <= i < visible(s).len() && #[trigger] visible(s)[i] == row;
    assert(visible(s)[i].kind == (KindView::Model { account, model_id: m.id }));
    if is_open(s, crate::visible_rows::model_row_path(account, m.id)) {
        let below = model_figure_row(account, m, field);
        if field == ModelField::ContextSizeOverride {
            assert(rows[1] == below);
        } else {
            assert(rows[2] == below);
        }
        assert(holds_row(rows, below));
        lemma_model_is_held(s, accounts, account, m, below);
        lemma_holds_in_turn(seq![entry_row(s, e)], models_rows(s, accounts), below);
        lemma_section_is_held(s, s.children(entries_root()), entry, e, below);
        let j = choose|j: int| 0 <= j < visible(s).len() && #[trigger] visible(s)[j] == below;
        assert(visible(s)[j].kind == (KindView::ModelField { account, model_id: m.id, field }));
    }
}

} // verus!
