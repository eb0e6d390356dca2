//! What two commands of the tree do one after the other.

use crate::assoc::{
    place_is_first, place_of, putting_one_in_keeps_the_others, taking_one_out_keeps_the_others,
};
use crate::path::{component_ok, leads, path_ok, path_text, path_texts_differ};
use crate::renderers::highlighting::paths_distinct;
use crate::renderers::util::{models_or_empty, path_at};
use crate::snapshot::{one_write_shows_at_its_path, written, SnapshotView};
use crate::types::{field_text, AccountField, ModelView};
use crate::value::{put, put_path, texts_value, texts_value_round_trip, ValueView, WriteView};
use crate::visible_rows::{
    account_row_path, account_rows, accounts_rows, catalog_rows, entries_root, entries_rows,
    is_open, model_row_path, model_rows, models_rows, row_index, row_index_is_first,
    row_index_unique, safe_text_may_stand_in_a_path, section_rows, visible, RowView,
};
use vstd::prelude::*;
use vstd::string::*;

use super::compose::{accounts_root, expanded_path};
use super::highlight::{stepped, steps_undo_each_other, Direction};
use super::manual_model::catalog;
use super::navigation::path_value_round_trip;
use super::tree::{activate_writes, expanded_set, focused_row_path, step_writes, toggled_text};

verus! {

/// Whether two rows stand for the same thing in the same place.
spec fn alike(a: RowView, b: RowView) -> bool {
    a.path == b.path && a.expandable == b.expandable && a.depth == b.depth && a.kind == b.kind
}

/// Whether a row is the one that `x`, if any, names among the expanded ones.
spec fn named(row: RowView, x: Option<Seq<char>>) -> bool {
    row.expandable && Some(path_text(row.path)) == x
}

/// Whether two lists of rows are alike up to and with the first row that `x`
/// names, which is at place `n`; all through where it names none.
spec fn alike_to(a: Seq<RowView>, b: Seq<RowView>, x: Option<Seq<char>>, n: int) -> bool {
    &&& 0 <= n <= a.len() && n <= b.len()
    &&& forall|j: int| 0 <= j < n ==> alike(#[trigger] a[j], b[j]) && !named(a[j], x)
    &&& if n == a.len() {
        b.len() == n
    } else {
        n < b.len() && named(a[n], x) && alike(a[n], b[n])
    }
}

spec fn agree(a: Seq<RowView>, b: Seq<RowView>, x: Option<Seq<char>>) -> bool {
    exists|n: int| alike_to(a, b, x, n)
}

/// Whether two stores differ, as far as rows go, at most in whether the row that
/// `x` names is expanded.
spec fn differ_at_most(s: SnapshotView, t: SnapshotView, x: Option<Seq<char>>) -> bool {
    &&& forall|y: Seq<char>|
        Some(y) != x ==> (#[trigger] expanded_set(s).contains(y) <==> expanded_set(t).contains(y))
    &&& forall|name: Seq<char>| #[trigger]
        t.at(entries_root().push(name)) == s.at(entries_root().push(name))
    &&& forall|account: Seq<char>| #[trigger] t.at(catalog(account)) == s.at(catalog(account))
    &&& t.children(entries_root()) == s.children(entries_root())
    &&& t.children(accounts_root()) == s.children(accounts_root())
}

proof fn lemma_agree_in_turn(
    a: Seq<RowView>,
    b: Seq<RowView>,
    c: Seq<RowView>,
    d: Seq<RowView>,
    x: Option<Seq<char>>,
)
    requires
        agree(a, b, x),
        agree(c, d, x),
    ensures
        agree(a + c, b + d, x),
{
    let n = choose|n: int| alike_to(a, b, x, n);
    let m = choose|m: int| alike_to(c, d, x, m);
    let (p, q) = (a + c, b + d);
    if n == a.len() {
        assert forall|j: int| 0 <= j < n + m implies alike(#[trigger] p[j], q[j]) && !named(
            p[j],
            x,
        ) by {
            if j < n {
                assert(p[j] == a[j] && q[j] == b[j]);
            } else {
                assert(p[j] == c[j - n] && q[j] == d[j - n]);
            }
        }
        if m < c.len() {
            assert(p[n + m] == c[m] && q[n + m] == d[m]);
        }
        assert(alike_to(p, q, x, n + m));
    } else {
        assert forall|j: int| 0 <= j < n implies alike(#[trigger] p[j], q[j]) && !named(
            p[j],
            x,
        ) by {
            assert(p[j] == a[j] && q[j] == b[j]);
        }
        assert(p[n] == a[n] && q[n] == b[n]);
        assert(alike_to(p, q, x, n));
    }
}

proof fn lemma_empty_agree(x: Option<Seq<char>>)
    ensures
        agree(Seq::<RowView>::empty(), Seq::<RowView>::empty(), x),
{
    assert(alike_to(Seq::<RowView>::empty(), Seq::<RowView>::empty(), x, 0));
}

/// A row followed by what it shows where it is expanded agrees with itself.
proof fn lemma_headed_agree(
    a: RowView,
    b: RowView,
    c: Seq<RowView>,
    d: Seq<RowView>,
    x: Option<Seq<char>>,
)
    requires
        alike(a, b),
        named(a, x) || agree(c, d, x),
    ensures
        agree(seq![a] + c, seq![b] + d, x),
{
    if named(a, x) {
        assert((seq![a] + c)[0] == a);
        assert((seq![b] + d)[0] == b);
        assert(alike_to(seq![a] + c, seq![b] + d, x, 0));
    } else {
        assert(alike_to(seq![a], seq![b], x, 1));
        lemma_agree_in_turn(seq![a], seq![b], c, d, x);
    }
}

/// Rows that cannot be expanded agree where they are alike.
proof fn lemma_leaves_agree(a: Seq<RowView>, b: Seq<RowView>, x: Option<Seq<char>>)
    requires
        a.len() == b.len(),
        forall|j: int| 0 <= j < a.len() ==> alike(#[trigger] a[j], b[j]) && !a[j].expandable,
    ensures
        agree(a, b, x),
{
    assert(alike_to(a, b, x, a.len() as int));
}

proof fn lemma_account_agrees(
    s: SnapshotView,
    t: SnapshotView,
    x: Option<Seq<char>>,
    name: Seq<char>,
)
    requires
        differ_at_most(s, t, x),
    ensures
        agree(account_rows(s, name), account_rows(t, name), x),
{
    let (a, b) = (account_rows(s, name), account_rows(t, name));
    let (c, d) = (a.subrange(1, a.len() as int), b.subrange(1, b.len() as int));
    assert(a =~= seq![a[0]] + c);
    assert(b =~= seq![b[0]] + d);
    if !named(a[0], x) {
        assert(expanded_set(s).contains(path_text(account_row_path(name))) <==> expanded_set(
            t,
        ).contains(path_text(account_row_path(name))));
        lemma_leaves_agree(c, d, x);
    }
    lemma_headed_agree(a[0], b[0], c, d, x);
}

proof fn lemma_accounts_agree(
    s: SnapshotView,
    t: SnapshotView,
    x: Option<Seq<char>>,
    names: Seq<Seq<char>>,
)
    requires
        differ_at_most(s, t, x),
    ensures
        agree(accounts_rows(s, names), accounts_rows(t, names), x),
    decreases names.len(),
{
    if names.len() == 0 {
        lemma_empty_agree(x);
    } else {
        let rest = names.drop_last();
        lemma_accounts_agree(s, t, x, rest);
        if component_ok(names.last()) {
            lemma_account_agrees(s, t, x, names.last());
            lemma_agree_in_turn(
                accounts_rows(s, rest),
                accounts_rows(t, rest),
                account_rows(s, names.last()),
                account_rows(t, names.last()),
                x,
            );
        }
    }
}

proof fn lemma_catalog_agrees(
    s: SnapshotView,
    t: SnapshotView,
    x: Option<Seq<char>>,
    account: Seq<char>,
    models: Seq<ModelView>,
)
    requires
        differ_at_most(s, t, x),
    ensures
        agree(catalog_rows(s, account, models), catalog_rows(t, account, models), x),
    decreases models.len(),
{
    if models.len() == 0 {
        lemma_empty_agree(x);
    } else {
        let rest = models.drop_last();
        let m = models.last();
        lemma_catalog_agrees(s, t, x, account, rest);
        let (a, b) = (model_rows(s, account, m), model_rows(t, account, m));
        let (c, d) = (a.subrange(1, a.len() as int), b.subrange(1, b.len() as int));
        assert(a =~= seq![a[0]] + c);
        assert(b =~= seq![b[0]] + d);
        if !named(a[0], x) {
            let text = path_text(model_row_path(account, m.id));
            assert(expanded_set(s).contains(text) <==> expanded_set(t).contains(text));
            lemma_leaves_agree(c, d, x);
        }
        lemma_headed_agree(a[0], b[0], c, d, x);
        lemma_agree_in_turn(
            catalog_rows(s, account, rest),
            catalog_rows(t, account, rest),
            a,
            b,
            x,
        );
    }
}

proof fn lemma_models_agree(
    s: SnapshotView,
    t: SnapshotView,
    x: Option<Seq<char>>,
    names: Seq<Seq<char>>,
)
    requires
        differ_at_most(s, t, x),
    ensures
        agree(models_rows(s, names), models_rows(t, names), x),
    decreases names.len(),
{
    if names.len() == 0 {
        lemma_empty_agree(x);
    } else {
        let rest = names.drop_last();
        let account = names.last();
        lemma_models_agree(s, t, x, rest);
        if component_ok(account) {
            let place = catalog(account);
            assert(t.at(place) == s.at(place));
            let models = models_or_empty(s, place);
            lemma_catalog_agrees(s, t, x, account, models);
            lemma_agree_in_turn(
                models_rows(s, rest),
                models_rows(t, rest),
                catalog_rows(s, account, models),
                catalog_rows(t, account, models),
                x,
            );
        }
    }
}

proof fn lemma_roots_differ()
    ensures
        "config"@ != "ui"@,
        "settings"@ != "ui"@,
{
    reveal_strlit("ui");
    reveal_strlit("config");
    reveal_strlit("settings");
    assert("ui"@.len() == 2);
    assert("config"@.len() == 6);
    assert("settings"@.len() == 8);
}

proof fn lemma_entries_agree(
    s: SnapshotView,
    t: SnapshotView,
    x: Option<Seq<char>>,
    names: Seq<Seq<char>>,
)
    requires
        differ_at_most(s, t, x),
    ensures
        agree(entries_rows(s, names), entries_rows(t, names), x),
    decreases names.len(),
{
    if names.len() == 0 {
        lemma_empty_agree(x);
    } else {
        let rest = names.drop_last();
        lemma_entries_agree(s, t, x, rest);
        let place = entries_root().push(names.last());
        assert(t.at(place) == s.at(place));
        match s.at(place) {
            Some(ValueView::IndexEntry(e)) => {
                let (a, b) = (section_rows(s, e), section_rows(t, e));
                let (c, d) = (a.subrange(1, a.len() as int), b.subrange(1, b.len() as int));
                assert(a =~= seq![a[0]] + c);
                assert(b =~= seq![b[0]] + d);
                let accounts = s.children(accounts_root());
                if !named(a[0], x) {
                    let text = path_text(e.target_cursor);
                    assert(expanded_set(s).contains(text) <==> expanded_set(t).contains(text));
                    if is_open(s, e.target_cursor) && e.id == "accounts"@ {
                        lemma_accounts_agree(s, t, x, accounts);
                        assert(c =~= accounts_rows(s, accounts));
                        assert(d =~= accounts_rows(t, accounts));
                    } else if is_open(s, e.target_cursor) && e.id == "models"@ {
                        lemma_models_agree(s, t, x, accounts);
                        assert(c =~= models_rows(s, accounts));
                        assert(d =~= models_rows(t, accounts));
                    } else {
                        lemma_empty_agree(x);
                        assert(c =~= Seq::<RowView>::empty());
                        assert(d =~= Seq::<RowView>::empty());
                    }
                }
                lemma_headed_agree(a[0], b[0], c, d, x);
                lemma_agree_in_turn(entries_rows(s, rest), entries_rows(t, rest), a, b, x);
            },
            _ => {},
        }
    }
}

proof fn lemma_visible_agree(s: SnapshotView, t: SnapshotView, x: Option<Seq<char>>)
    requires
        differ_at_most(s, t, x),
    ensures
        agree(visible(s), visible(t), x),
{
    lemma_entries_agree(s, t, x, s.children(entries_root()));
}

/// Whether rows read the same of two stores.
pub open spec fn same_for_rows(s: SnapshotView, t: SnapshotView) -> bool {
    &&& expanded_set(t) == expanded_set(s)
    &&& forall|name: Seq<char>| #[trigger]
        t.at(entries_root().push(name)) == s.at(entries_root().push(name))
    &&& forall|account: Seq<char>| #[trigger] t.at(catalog(account)) == s.at(catalog(account))
    &&& t.children(entries_root()) == s.children(entries_root())
    &&& t.children(accounts_root()) == s.children(accounts_root())
}

/// Stores that rows read the same of have the same rows in the same places.
pub proof fn rows_stay_in_place(s: SnapshotView, t: SnapshotView)
    requires
        same_for_rows(s, t),
    ensures
        visible(t).len() == visible(s).len(),
        forall|j: int|
            0 <= j < visible(s).len() ==> (#[trigger] visible(t)[j]).path == visible(s)[j].path
                && visible(t)[j].kind == visible(s)[j].kind && visible(t)[j].expandable
                == visible(s)[j].expandable && visible(t)[j].depth == visible(s)[j].depth,
{
    assert(differ_at_most(s, t, None));
    lemma_visible_agree(s, t, None);
    let n = choose|n: int| alike_to(visible(s), visible(t), None, n);
    assert(n == visible(s).len());
    assert forall|j: int| 0 <= j < visible(s).len() implies (#[trigger] visible(t)[j]).path
        == visible(s)[j].path && visible(t)[j].kind == visible(s)[j].kind
        && visible(t)[j].expandable == visible(s)[j].expandable && visible(t)[j].depth
        == visible(s)[j].depth by {
        assert(alike(visible(s)[j], visible(t)[j]));
    }
}

/// Whether the cursors that the index entries lead to are well formed.
pub open spec fn cursors_ok(s: SnapshotView) -> bool {
    forall|name: Seq<char>|
        match #[trigger] s.at(entries_root().push(name)) {
            Some(ValueView::IndexEntry(e)) => path_ok(e.target_cursor),
            _ => true,
        }
}

spec fn rows_ok(rows: Seq<RowView>) -> bool {
    forall|j: int| 0 <= j < rows.len() ==> path_ok((#[trigger] rows[j]).path)
}

proof fn lemma_ok_in_turn(a: Seq<RowView>, b: Seq<RowView>)
    requires
        rows_ok(a),
        rows_ok(b),
    ensures
        rows_ok(a + b),
{
    let all = a + b;
    assert forall|j: int| 0 <= j < all.len() implies path_ok((#[trigger] all[j]).path) by {
        if j < a.len() {
            assert(all[j] == a[j]);
        } else {
            assert(all[j] == b[j - a.len()]);
        }
    }
}

proof fn lemma_row_words_ok()
    ensures
        component_ok("settings"@),
        component_ok("accounts"@),
        component_ok("models"@),
        component_ok("max_context_size"@),
        component_ok("max_output_tokens"@),
        forall|f: AccountField| component_ok(#[trigger] field_text(f)),
{
    reveal_strlit("settings");
    reveal_strlit("accounts");
    reveal_strlit("models");
    reveal_strlit("max_context_size");
    reveal_strlit("max_output_tokens");
    reveal_strlit("name");
    reveal_strlit("protocol");
    reveal_strlit("endpoint");
    reveal_strlit("auth");
    reveal_strlit("key");
}

proof fn lemma_accounts_ok(s: SnapshotView, names: Seq<Seq<char>>)
    ensures
        rows_ok(accounts_rows(s, names)),
    decreases names.len(),
{
    if names.len() > 0 {
        lemma_accounts_ok(s, names.drop_last());
        let name = names.last();
        if component_ok(name) {
            lemma_row_words_ok();
            let rows = account_rows(s, name);
            assert forall|j: int| 0 <= j < rows.len() implies path_ok((#[trigger] rows[j]).path) by {
                let p = rows[j].path;
                assert forall|i: int| 0 <= i < p.len() implies component_ok(#[trigger] p[i]) by {}
            }
            lemma_ok_in_turn(accounts_rows(s, names.drop_last()), rows);
        }
    }
}

proof fn lemma_catalog_ok(s: SnapshotView, account: Seq<char>, models: Seq<ModelView>)
    requires
        component_ok(account),
    ensures
        rows_ok(catalog_rows(s, account, models)),
    decreases models.len(),
{
    if models.len() > 0 {
        lemma_catalog_ok(s, account, models.drop_last());
        lemma_row_words_ok();
        let m = models.last();
        safe_text_may_stand_in_a_path(m.id);
        let rows = model_rows(s, account, m);
        assert forall|j: int| 0 <= j < rows.len() implies path_ok((#[trigger] rows[j]).path) by {
            let p = rows[j].path;
            assert forall|i: int| 0 <= i < p.len() implies component_ok(#[trigger] p[i]) by {}
        }
        lemma_ok_in_turn(catalog_rows(s, account, models.drop_last()), rows);
    }
}

proof fn lemma_models_ok(s: SnapshotView, names: Seq<Seq<char>>)
    ensures
        rows_ok(models_rows(s, names)),
    decreases names.len(),
{
    if names.len() > 0 {
        lemma_models_ok(s, names.drop_last());
        let account = names.last();
        if component_ok(account) {
            let models = models_or_empty(
                s,
                seq!["config"@, "gate"@, "accounts"@, account, "models"@],
            );
            lemma_catalog_ok(s, account, models);
            lemma_ok_in_turn(
                models_rows(s, names.drop_last()),
                catalog_rows(s, account, models),
            );
        }
    }
}

proof fn lemma_entries_ok(s: SnapshotView, names: Seq<Seq<char>>)
    requires
        cursors_ok(s),
    ensures
        rows_ok(entries_rows(s, names)),
    decreases names.len(),
{
    if names.len() > 0 {
        lemma_entries_ok(s, names.drop_last());
        match s.at(entries_root().push(names.last())) {
            Some(ValueView::IndexEntry(e)) => {
                let rows = section_rows(s, e);
                let accounts = s.children(accounts_root());
                lemma_accounts_ok(s, accounts);
                lemma_models_ok(s, accounts);
                lemma_ok_in_turn(seq![rows[0]], accounts_rows(s, accounts));
                lemma_ok_in_turn(seq![rows[0]], models_rows(s, accounts));
                lemma_ok_in_turn(seq![rows[0]], Seq::<RowView>::empty());
                lemma_ok_in_turn(entries_rows(s, names.drop_last()), rows);
            },
            _ => {},
        }
    }
}

/// Every visible row has a well-formed path, where the index entries' cursors
/// are well formed.
pub proof fn row_paths_are_well_formed(s: SnapshotView)
    requires
        cursors_ok(s),
    ensures
        forall|j: int| 0 <= j < visible(s).len() ==> path_ok((#[trigger] visible(s)[j]).path),
{
    lemma_entries_ok(s, s.children(entries_root()));
}

proof fn lemma_toggled_contains(set: Seq<Seq<char>>, x: Seq<char>, y: Seq<char>)
    requires
        x != y,
    ensures
        toggled_text(set, x).contains(y) <==> set.contains(y),
{
    place_is_first(set, x);
    match place_of(set, x) {
        Some(i) => {
            taking_one_out_keeps_the_others(set, i, y);
        },
        None => {
            putting_one_in_keeps_the_others(set, x, y);
        },
    }
}

proof fn lemma_ui_write(s: SnapshotView, w: WriteView)
    requires
        w.path.len() > 0,
        w.path[0] == "ui"@,
    ensures
        written(s, seq![w]).at(w.path) == Some(w.value),
        forall|p: Seq<Seq<char>>| p != w.path ==> #[trigger] written(s, seq![w]).at(p) == s.at(p),
        forall|name: Seq<char>| #[trigger]
            written(s, seq![w]).at(entries_root().push(name)) == s.at(entries_root().push(name)),
        forall|account: Seq<char>| #[trigger]
            written(s, seq![w]).at(catalog(account)) == s.at(catalog(account)),
        written(s, seq![w]).children(entries_root()) == s.children(entries_root()),
        written(s, seq![w]).children(accounts_root()) == s.children(accounts_root()),
{
    lemma_roots_differ();
    one_write_shows_at_its_path(s, w);
    assert forall|name: Seq<char>| #[trigger]
        written(s, seq![w]).at(entries_root().push(name)) == s.at(entries_root().push(name)) by {
        assert(entries_root().push(name)[0] == "settings"@);
    }
    assert forall|account: Seq<char>| #[trigger]
        written(s, seq![w]).at(catalog(account)) == s.at(catalog(account)) by {
        assert(catalog(account)[0] == "config"@);
    }
    if leads(entries_root(), w.path) {
        assert(w.path.subrange(0, 3)[0] == w.path[0]);
    }
    if leads(accounts_root(), w.path) {
        assert(w.path.subrange(0, 3)[0] == w.path[0]);
    }
}

/// Writes below `ui` that leave the expanded rows alone leave the rows where
/// they are.
pub proof fn ui_writes_keep_rows(s: SnapshotView, writes: Seq<WriteView>)
    requires
        forall|i: int|
            0 <= i < writes.len() ==> (#[trigger] writes[i]).path.len() > 0 && writes[i].path[0]
                == "ui"@ && writes[i].path != expanded_path(),
    ensures
        same_for_rows(s, written(s, writes)),
    decreases writes.len(),
{
    if writes.len() > 0 {
        let rest = writes.drop_last();
        let w = writes.last();
        assert forall|i: int| 0 <= i < rest.len() implies (#[trigger] rest[i]).path.len() > 0
            && rest[i].path[0] == "ui"@ && rest[i].path != expanded_path() by {
            assert(rest[i] == writes[i]);
        }
        ui_writes_keep_rows(s, rest);
        assert(writes[writes.len() - 1] == w);
        let before = written(s, rest);
        lemma_ui_write(before, w);
        assert(seq![w].drop_last() =~= Seq::<WriteView>::empty());
        assert(written(before, Seq::<WriteView>::empty()) == before);
        assert(written(before, seq![w]) == written(s, writes));
    }
}

proof fn lemma_places_differ()
    ensures
        expanded_path() != focused_row_path(),
        expanded_path()[0] == "ui"@,
        focused_row_path()[0] == "ui"@,
{
    reveal_strlit("expanded");
    reveal_strlit("focused_row");
    assert("expanded"@.len() == 8);
    assert("focused_row"@.len() == 11);
    assert(expanded_path()[2] == "expanded"@);
    assert(focused_row_path()[2] == "focused_row"@);
}

/// Whether a text occurs at most once in a list.
pub open spec fn at_most_once(set: Seq<Seq<char>>, x: Seq<char>) -> bool {
    forall|i: int, j: int| 0 <= i < j < set.len() && #[trigger] set[i] == x ==> #[trigger] set[j] != x
}

proof fn lemma_toggled_twice(set: Seq<Seq<char>>, x: Seq<char>)
    requires
        at_most_once(set, x),
    ensures
        !set.contains(x) ==> toggled_text(toggled_text(set, x), x) == set,
        toggled_text(toggled_text(set, x), x).to_multiset() == set.to_multiset(),
{
    broadcast use vstd::seq_lib::group_to_multiset_ensures;

    place_is_first(set, x);
    match place_of(set, x) {
        Some(i) => {
            let once = set.remove(i);
            assert forall|j: int| 0 <= j < once.len() implies #[trigger] once[j] != x by {
                if j < i {
                    assert(once[j] == set[j]);
                } else {
                    assert(once[j] == set[j + 1]);
                    assert(set[i] == x);
                }
            }
            place_is_first(once, x);
            assert(set[i] == x);
            assert(set.to_multiset().count(x) > 0);
            assert(toggled_text(once, x) == once.push(x));
            assert(once.push(x).to_multiset() =~= set.to_multiset());
        },
        None => {
            crate::commands::tree::activating_twice_restores(set, x);
        },
    }
}

/// Activating a row that can be expanded, and once the write is in place
/// activating it again, leaves the same rows expanded. In between the row is
/// still there, at the same place, and can still be expanded; neither the cursor
/// nor the focused row is written.
pub proof fn activating_again_undoes(s: SnapshotView, cursor: Seq<Seq<char>>, i: int)
    requires
        cursors_ok(s),
        path_at(s, focused_row_path()) == Some(cursor),
        row_index(visible(s), cursor) == Some(i),
        visible(s)[i].expandable,
        at_most_once(expanded_set(s), path_text(cursor)),
    ensures
        ({
            let x = path_text(cursor);
            let t = written(s, activate_writes(s));
            let back = toggled_text(toggled_text(expanded_set(s), x), x);
            &&& activate_writes(s) == seq![
                put(expanded_path(), texts_value(toggled_text(expanded_set(s), x))),
            ]
            &&& row_index(visible(t), cursor) == Some(i)
            &&& visible(t)[i].expandable
            &&& activate_writes(t) == seq![put(expanded_path(), texts_value(back))]
            &&& back.to_multiset() == expanded_set(s).to_multiset()
            &&& !expanded_set(s).contains(x) ==> back == expanded_set(s)
        }),
{
    let x = path_text(cursor);
    let set = expanded_set(s);
    let rows = visible(s);
    let w = put(expanded_path(), texts_value(toggled_text(set, x)));
    row_index_is_first(rows, cursor);
    assert(activate_writes(s) =~= seq![w]);
    let t = written(s, seq![w]);
    lemma_places_differ();
    lemma_ui_write(s, w);
    texts_value_round_trip(toggled_text(set, x));
    assert(expanded_set(t) == toggled_text(set, x));
    assert forall|y: Seq<char>| Some(y) != Some(x) implies (#[trigger] set.contains(y)
        <==> expanded_set(t).contains(y)) by {
        lemma_toggled_contains(set, x, y);
    }
    assert(differ_at_most(s, t, Some(x)));
    lemma_visible_agree(s, t, Some(x));
    let n = choose|n: int| alike_to(rows, visible(t), Some(x), n);
    row_paths_are_well_formed(s);
    assert(named(rows[i], Some(x)));
    assert forall|j: int| 0 <= j < i implies !named(#[trigger] rows[j], Some(x)) by {
        if path_text(rows[j].path) == x {
            path_texts_differ(rows[j].path, rows[i].path);
        }
    }
    if n > i {
        assert(!named(rows[i], Some(x)));
    } else if n < i {
        assert(named(rows[n], Some(x)));
    }
    assert(n == i);
    assert(alike(rows[i], visible(t)[i]));
    assert forall|j: int| 0 <= j < i implies (#[trigger] visible(t)[j]).path != cursor by {
        assert(alike(rows[j], visible(t)[j]));
    }
    row_index_unique(visible(t), cursor, i);
    assert(path_at(t, focused_row_path()) == Some(cursor));
    lemma_toggled_twice(set, x);
    assert(activate_writes(t) =~= seq![
        put(expanded_path(), texts_value(toggled_text(toggled_text(set, x), x))),
    ]);
}

/// The opposite direction.
pub open spec fn opposite(direction: Direction) -> Direction {
    match direction {
        Direction::Next => Direction::Prev,
        Direction::Prev => Direction::Next,
    }
}

/// The place of the focused row, which is the first where there is none.
pub open spec fn current_row(s: SnapshotView) -> int {
    match path_at(s, focused_row_path()) {
        Some(c) => match row_index(visible(s), c) {
            Some(i) => i,
            None => 0,
        },
        None => 0,
    }
}

/// Moving the focus to the next row and, once the write is in place, to the
/// previous one, or the other way round, writes the row back that the focus was
/// on. In between the rows are the same, in the same places. No two rows may
/// share a path.
pub proof fn stepping_back_undoes(s: SnapshotView, direction: Direction)
    requires
        cursors_ok(s),
        paths_distinct(visible(s)),
        visible(s).len() > 0,
    ensures
        ({
            let t = written(s, step_writes(s, direction));
            &&& visible(t).len() == visible(s).len()
            &&& forall|j: int|
                0 <= j < visible(s).len() ==> (#[trigger] visible(t)[j]).path == visible(s)[j].path
            &&& step_writes(t, opposite(direction)) == seq![
                put_path(focused_row_path(), visible(s)[current_row(s)].path),
            ]
        }),
{
    let rows = visible(s);
    let count = rows.len() as int;
    let i = current_row(s);
    match path_at(s, focused_row_path()) {
        Some(c) => {
            row_index_is_first(rows, c);
        },
        None => {},
    }
    let target = stepped(i, count, direction);
    steps_undo_each_other(i, count);
    let w = put_path(focused_row_path(), rows[target].path);
    assert(step_writes(s, direction) =~= seq![w]);
    let t = written(s, seq![w]);
    lemma_places_differ();
    lemma_ui_write(s, w);
    assert(expanded_set(t) == expanded_set(s));
    rows_stay_in_place(s, t);
    row_paths_are_well_formed(s);
    path_value_round_trip(rows[target].path);
    assert(path_at(t, focused_row_path()) == Some(rows[target].path));
    assert forall|j: int| 0 <= j < target implies (#[trigger] visible(t)[j]).path
        != rows[target].path by {
        assert(rows[j].path != rows[target].path);
    }
    row_index_unique(visible(t), rows[target].path, target);
    assert(step_writes(t, opposite(direction)) =~= seq![
        put_path(focused_row_path(), rows[i].path),
    ]);
}

} // verus!
