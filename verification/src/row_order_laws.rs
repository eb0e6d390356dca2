//! In which order the rows of the settings tree stand.

use crate::commands::compose::{accounts_root, field_order};
use crate::commands::selectors::assembled_account;
use crate::path::component_ok;
use crate::renderers::util::models_or_empty;
use crate::snapshot::{children_are_what_lies_below, SnapshotView};
use crate::text::{ascending, precedes};
use crate::types::{AccountField, IndexEntryView, ModelField, ModelView};
use crate::value::ValueView;
use crate::visible_rows::{
    account_field_row, account_rows, accounts_rows, catalog_rows, entries_root, entries_rows,
    entry_row, is_open, model_rows, models_rows, section_rows, visible, KindView, RowView,
};
use vstd::prelude::*;

verus! {

/// Whether no row stands at `k` that belongs to the row before it.
pub open spec fn nothing_belongs_at(rows: Seq<RowView>, k: int) -> bool {
    k >= rows.len() || rows[k].depth < 2
}

/// Whether what belongs to the row at `i` stands right below it: all fields of
/// an expanded connection in their order, both figures of an expanded model,
/// and nothing that is nested as deep below any other of these. Below an entry
/// that is not expanded the next entry follows.
pub open spec fn has_its_rows(rows: Seq<RowView>, i: int) -> bool {
    match rows[i].kind {
        KindView::Account { name } => if rows[i].expanded {
            &&& i + 5 < rows.len()
            &&& rows[i + 1].kind == (KindView::AccountField {
                account: name,
                field: AccountField::Name,
            })
            &&& rows[i + 2].kind == (KindView::AccountField {
                account: name,
                field: AccountField::Protocol,
            })
            &&& rows[i + 3].kind == (KindView::AccountField {
                account: name,
                field: AccountField::Endpoint,
            })
            &&& rows[i + 4].kind == (KindView::AccountField {
                account: name,
                field: AccountField::Auth,
            })
            &&& rows[i + 5].kind == (KindView::AccountField {
                account: name,
                field: AccountField::Key,
            })
            &&& nothing_belongs_at(rows, i + 6)
        } else {
            nothing_belongs_at(rows, i + 1)
        },
        KindView::Model { account, model_id } => if rows[i].expanded {
            &&& i + 2 < rows.len()
            &&& rows[i + 1].kind == (KindView::ModelField {
                account,
                model_id,
                field: ModelField::ContextSizeOverride,
            })
            &&& rows[i + 2].kind == (KindView::ModelField {
                account,
                model_id,
                field: ModelField::OutputTokensOverride,
            })
            &&& nothing_belongs_at(rows, i + 3)
        } else {
            nothing_belongs_at(rows, i + 1)
        },
        KindView::Entry { .. } => !rows[i].expanded ==> i + 1 >= rows.len() || rows[i + 1].kind
            is Entry,
        _ => true,
    }
}

/// The connection that a row belongs to.
pub open spec fn owner(kind: KindView) -> Option<Seq<char>> {
    match kind {
        KindView::Entry { .. } => None,
        KindView::Account { name } => Some(name),
        KindView::AccountField { account, .. } => Some(account),
        KindView::Model { account, .. } => Some(account),
        KindView::ModelField { account, .. } => Some(account),
    }
}

spec fn all_in_place(rows: Seq<RowView>) -> bool {
    forall|i: int| 0 <= i < rows.len() ==> has_its_rows(rows, #[trigger] rows_at(i))
}

spec fn rows_at(i: int) -> int {
    i
}

/// Whether rows stand next to what is before them without belonging to it.
spec fn starts_anew(rows: Seq<RowView>) -> bool {
    rows.len() > 0 ==> rows[0].depth < 2
}

proof fn lemma_in_turn(a: Seq<RowView>, b: Seq<RowView>)
    requires
        all_in_place(a),
        all_in_place(b),
        starts_anew(b),
        b.len() > 0 && !(b[0].kind is Entry) ==> forall|i: int|
            0 <= i < a.len() && (#[trigger] a[i]).kind is Entry ==> a[i].expanded,
    ensures
        all_in_place(a + b),
{
    let all = a + b;
    assert forall|i: int| 0 <= i < all.len() implies has_its_rows(all, #[trigger] rows_at(i)) by {
        if i < a.len() {
            assert(has_its_rows(a, rows_at(i)));
            assert(all[i] == a[i]);
        } else {
            let j = i - a.len();
            assert(has_its_rows(b, rows_at(j)));
            assert(all[i] == b[j]);
        }
    }
}

proof fn lemma_account_in_place(s: SnapshotView, name: Seq<char>)
    ensures
        all_in_place(account_rows(s, name)),
        starts_anew(account_rows(s, name)),
        account_rows(s, name).len() > 0,
        forall|i: int|
            0 <= i < account_rows(s, name).len() ==> owner(
                (#[trigger] account_rows(s, name)[i]).kind,
            ) == Some(name),
{
    let rows = account_rows(s, name);
    assert forall|i: int| 0 <= i < rows.len() implies has_its_rows(rows, #[trigger] rows_at(i)) by {
        if i == 0 && rows[0].expanded {
            assert(rows[1] == account_field_row(s, name, field_order()[0]));
            assert(rows[2] == account_field_row(s, name, field_order()[1]));
            assert(rows[3] == account_field_row(s, name, field_order()[2]));
            assert(rows[4] == account_field_row(s, name, field_order()[3]));
            assert(rows[5] == account_field_row(s, name, field_order()[4]));
        }
    }
}

proof fn lemma_model_in_place(s: SnapshotView, account: Seq<char>, m: ModelView)
    ensures
        all_in_place(model_rows(s, account, m)),
        starts_anew(model_rows(s, account, m)),
        forall|i: int|
            0 <= i < model_rows(s, account, m).len() ==> owner(
                (#[trigger] model_rows(s, account, m)[i]).kind,
            ) == Some(account),
{
    let rows = model_rows(s, account, m);
    assert forall|i: int| 0 <= i < rows.len() implies has_its_rows(rows, #[trigger] rows_at(
        i,
    )) by {}
}

/// Whether rows are no entries, belong to some of the named connections, and
/// stand in the order of the connections' names.
spec fn in_name_order(rows: Seq<RowView>, names: Seq<Seq<char>>) -> bool {
    &&& forall|i: int|
        0 <= i < rows.len() ==> owner((#[trigger] rows[i]).kind) is Some && names.contains(
            owner(rows[i].kind)->0,
        )
    &&& forall|i: int, j: int|
        0 <= i < j < rows.len() ==> #[trigger] not_behind(rows[i].kind, rows[j].kind)
}

/// Whether a row's connection is the other row's, or comes before it.
pub open spec fn not_behind(a: KindView, b: KindView) -> bool {
    owner(a) == owner(b) || (owner(a) is Some && owner(b) is Some && precedes(
        owner(a)->0,
        owner(b)->0,
    ))
}

proof fn lemma_names_in_turn(
    a: Seq<RowView>,
    b: Seq<RowView>,
    names: Seq<Seq<char>>,
    name: Seq<char>,
)
    requires
        in_name_order(a, names),
        forall|i: int| 0 <= i < b.len() ==> owner((#[trigger] b[i]).kind) == Some(name),
        forall|i: int| 0 <= i < names.len() ==> precedes(#[trigger] names[i], name),
    ensures
        in_name_order(a + b, names.push(name)),
{
    let all = a + b;
    let more = names.push(name);
    assert(more[names.len() as int] == name);
    assert forall|i: int| 0 <= i < all.len() implies owner((#[trigger] all[i]).kind) is Some
        && more.contains(owner(all[i].kind)->0) by {
        if i < a.len() {
            assert(all[i] == a[i]);
            let k = choose|k: int| 0 <= k < names.len() && names[k] == owner(a[i].kind)->0;
            assert(more[k] == owner(a[i].kind)->0);
        } else {
            assert(all[i] == b[i - a.len()]);
        }
    }
    assert forall|i: int, j: int| 0 <= i < j < all.len() implies #[trigger] not_behind(
        all[i].kind,
        all[j].kind,
    ) by {
        if j < a.len() {
            assert(all[i] == a[i] && all[j] == a[j]);
            assert(not_behind(a[i].kind, a[j].kind));
        } else {
            assert(all[j] == b[j - a.len()]);
            if i < a.len() {
                assert(all[i] == a[i]);
                let k = choose|k: int| 0 <= k < names.len() && names[k] == owner(a[i].kind)->0;
                assert(precedes(names[k], name));
            } else {
                assert(all[i] == b[i - a.len()]);
            }
        }
    }
}

proof fn lemma_named_in_more(rows: Seq<RowView>, names: Seq<Seq<char>>, name: Seq<char>)
    requires
        in_name_order(rows, names),
    ensures
        in_name_order(rows, names.push(name)),
{
    assert forall|i: int| 0 <= i < rows.len() implies owner((#[trigger] rows[i]).kind) is Some
        && names.push(name).contains(owner(rows[i].kind)->0) by {
        let k = choose|k: int| 0 <= k < names.len() && names[k] == owner(rows[i].kind)->0;
        assert(names.push(name)[k] == owner(rows[i].kind)->0);
    }
}

proof fn lemma_accounts_in_place(s: SnapshotView, names: Seq<Seq<char>>)
    requires
        ascending(names),
    ensures
        all_in_place(accounts_rows(s, names)),
        starts_anew(accounts_rows(s, names)),
        in_name_order(accounts_rows(s, names), names),
    decreases names.len(),
{
    if names.len() > 0 {
        let rest = names.drop_last();
        let name = names.last();
        assert(rest.push(name) =~= names);
        assert(ascending(rest)) by {
            assert forall|i: int, j: int| 0 <= i < j < rest.len() implies precedes(
                #[trigger] rest[i],
                #[trigger] rest[j],
            ) by {
                assert(precedes(names[i], names[j]));
            }
        }
        assert forall|i: int| 0 <= i < rest.len() implies precedes(#[trigger] rest[i], name) by {
            assert(precedes(names[i], names[names.len() - 1]));
        }
        lemma_accounts_in_place(s, rest);
        let before = accounts_rows(s, rest);
        if component_ok(name) {
            lemma_account_in_place(s, name);
            lemma_names_in_turn(before, account_rows(s, name), rest, name);
            assert forall|i: int|
                0 <= i < before.len() && (#[trigger] before[i]).kind is Entry implies
                before[i].expanded by {
                assert(owner(before[i].kind) is Some);
            }
            lemma_in_turn(before, account_rows(s, name));
        } else {
            lemma_named_in_more(before, rest, name);
        }
    }
}

proof fn lemma_catalog_in_place(s: SnapshotView, account: Seq<char>, models: Seq<ModelView>)
    ensures
        all_in_place(catalog_rows(s, account, models)),
        starts_anew(catalog_rows(s, account, models)),
        forall|i: int|
            0 <= i < catalog_rows(s, account, models).len() ==> owner(
                (#[trigger] catalog_rows(s, account, models)[i]).kind,
            ) == Some(account),
    decreases models.len(),
{
    if models.len() > 0 {
        let rest = models.drop_last();
        lemma_catalog_in_place(s, account, rest);
        lemma_model_in_place(s, account, models.last());
        let a = catalog_rows(s, account, rest);
        let b = model_rows(s, account, models.last());
        assert forall|i: int| 0 <= i < a.len() && (#[trigger] a[i]).kind is Entry implies
            a[i].expanded by {
            assert(owner(a[i].kind) is Some);
        }
        lemma_in_turn(a, b);
        assert forall|i: int| 0 <= i < (a + b).len() implies owner((#[trigger] (a + b)[i]).kind)
            == Some(account) by {
            if i < a.len() {
                assert((a + b)[i] == a[i]);
            } else {
                assert((a + b)[i] == b[i - a.len()]);
            }
        }
    }
}

proof fn lemma_models_in_place(s: SnapshotView, names: Seq<Seq<char>>)
    requires
        ascending(names),
    ensures
        all_in_place(models_rows(s, names)),
        starts_anew(models_rows(s, names)),
        in_name_order(models_rows(s, names), names),
    decreases names.len(),
{
    if names.len() > 0 {
        let rest = names.drop_last();
        let name = names.last();
        assert(rest.push(name) =~= names);
        assert(ascending(rest)) by {
            assert forall|i: int, j: int| 0 <= i < j < rest.len() implies precedes(
                #[trigger] rest[i],
                #[trigger] rest[j],
            ) by {
                assert(precedes(names[i], names[j]));
            }
        }
        assert forall|i: int| 0 <= i < rest.len() implies precedes(#[trigger] rest[i], name) by {
            assert(precedes(names[i], names[names.len() - 1]));
        }
        lemma_models_in_place(s, rest);
        let before = models_rows(s, rest);
        if component_ok(name) {
            let models = models_or_empty(
                s,
                seq!["config"@, "gate"@, "accounts"@, name, "models"@],
            );
            let rows = catalog_rows(s, name, models);
            lemma_catalog_in_place(s, name, models);
            lemma_names_in_turn(before, rows, rest, name);
            assert forall|i: int|
                0 <= i < before.len() && (#[trigger] before[i]).kind is Entry implies
                before[i].expanded by {
                assert(owner(before[i].kind) is Some);
            }
            lemma_in_turn(before, rows);
        } else {
            lemma_named_in_more(before, rest, name);
        }
    }
}

/// Whether rows between two entries stand in the order of their connections.
spec fn ordered_between_entries(rows: Seq<RowView>) -> bool {
    forall|i: int, j: int| #[trigger]
        one_section(rows, i, j) ==> not_behind(rows[i].kind, rows[j].kind)
}

/// Whether `i` comes before `j` with no entry from the one to the other.
spec fn one_section(rows: Seq<RowView>, i: int, j: int) -> bool {
    0 <= i < j < rows.len() && forall|k: int| i <= k <= j ==> !((#[trigger] rows[k]).kind is Entry)
}

proof fn lemma_ordered_in_turn(a: Seq<RowView>, b: Seq<RowView>)
    requires
        ordered_between_entries(a),
        ordered_between_entries(b),
        b.len() > 0,
        b[0].kind is Entry,
    ensures
        ordered_between_entries(a + b),
{
    let all = a + b;
    let n = a.len() as int;
    assert forall|i: int, j: int| #[trigger] one_section(all, i, j) implies not_behind(
        all[i].kind,
        all[j].kind,
    ) by {
        assert(all[n] == b[0]);
        if j < n {
            assert forall|k: int| i <= k <= j implies !((#[trigger] a[k]).kind is Entry) by {
                assert(all[k] == a[k]);
            }
            assert(one_section(a, i, j));
        } else if i >= n {
            assert forall|k: int| i - n <= k <= j - n implies !((#[trigger] b[k]).kind is Entry) by {
                assert(all[k + n] == b[k]);
            }
            assert(one_section(b, i - n, j - n));
        } else {
            assert(!(all[n].kind is Entry));
        }
    }
}

proof fn lemma_section_in_place(s: SnapshotView, e: IndexEntryView)
    ensures
        all_in_place(section_rows(s, e)),
        starts_anew(section_rows(s, e)),
        section_rows(s, e).len() > 0,
        section_rows(s, e)[0].kind is Entry,
        ordered_between_entries(section_rows(s, e)),
{
    let names = s.children(accounts_root());
    children_are_what_lies_below(s, accounts_root(), Seq::empty());
    lemma_accounts_in_place(s, names);
    lemma_models_in_place(s, names);
    let head = seq![entry_row(s, e)];
    assert(all_in_place(head)) by {
        assert forall|i: int| 0 <= i < head.len() implies has_its_rows(
            head,
            #[trigger] rows_at(i),
        ) by {}
    }
    let rows = section_rows(s, e);
    let below = rows.subrange(1, rows.len() as int);
    assert(rows =~= head + below);
    if below.len() > 0 {
        assert(is_open(s, e.target_cursor));
        if e.id == "accounts"@ {
            assert(below =~= accounts_rows(s, names));
        } else {
            assert(below =~= models_rows(s, names));
        }
        assert(head[0].expanded);
        lemma_in_turn(head, below);
        assert forall|i: int, j: int| #[trigger] one_section(rows, i, j) implies not_behind(
            rows[i].kind,
            rows[j].kind,
        ) by {
            if i == 0 {
                assert(rows[i].kind is Entry);
            } else {
                assert(rows[i] == below[i - 1] && rows[j] == below[j - 1]);
                assert(not_behind(below[i - 1].kind, below[j - 1].kind));
            }
        }
    } else {
        assert(rows =~= head);
    }
}

proof fn lemma_entries_in_place(s: SnapshotView, names: Seq<Seq<char>>)
    ensures
        all_in_place(entries_rows(s, names)),
        ordered_between_entries(entries_rows(s, names)),
    decreases names.len(),
{
    if names.len() > 0 {
        lemma_entries_in_place(s, names.drop_last());
        match s.at(entries_root().push(names.last())) {
            Some(ValueView::IndexEntry(e)) => {
                lemma_section_in_place(s, e);
                let a = entries_rows(s, names.drop_last());
                let b = section_rows(s, e);
                lemma_in_turn(a, b);
                lemma_ordered_in_turn(a, b);
            },
            _ => {},
        }
    }
}

/// Right below an expanded connection stand its name, protocol, endpoint, scheme
/// and key, in this order, and right below an expanded model its two figures.
/// Below a connection or a model that is not expanded stands none of its rows,
/// and below an entry that is not expanded the next entry.
pub proof fn rows_stand_below_what_they_belong_to(s: SnapshotView, i: int)
    requires
        0 <= i < visible(s).len(),
    ensures
        has_its_rows(visible(s), i),
{
    lemma_entries_in_place(s, s.children(entries_root()));
    assert(has_its_rows(visible(s), rows_at(i)));
}

/// Below an entry the rows stand in the order of the connections they belong to,
/// by name.
pub proof fn rows_stand_in_the_order_of_connections(s: SnapshotView, i: int, j: int)
    requires
        0 <= i < j < visible(s).len(),
        forall|k: int| i <= k <= j ==> !((#[trigger] visible(s)[k]).kind is Entry),
    ensures
        not_behind(visible(s)[i].kind, visible(s)[j].kind),
{
    lemma_entries_in_place(s, s.children(entries_root()));
    assert(one_section(visible(s), i, j));
}

/// Where the record of a connection, or of the provider it is bound to, is
/// wanting, a dash stands for what it would say.
pub proof fn dashes_stand_for_what_is_wanting(s: SnapshotView, account: Seq<char>)
    requires
        component_ok(account),
        assembled_account(s, account) is None,
    ensures
        account_field_row(s, account, AccountField::Name).label == "Name"@ + ": "@ + account,
        account_field_row(s, account, AccountField::Protocol).label == "Protocol"@ + ": "@ + "—"@,
        account_field_row(s, account, AccountField::Endpoint).label == "Endpoint"@ + ": "@ + "—"@,
        account_field_row(s, account, AccountField::Auth).label == "Auth"@ + ": "@ + "—"@,
{
}

} // verus!
