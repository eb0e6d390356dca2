//! What acts on the selected connection or model.

use crate::command_registry::CommandRegistry;
use crate::assoc::{place_is_first, place_of, place_unique};
use crate::keys::opt_path;
use crate::path::{component_ok, leads, path2, path3, path4, path5, valid_component, Path};
use crate::renderers::util::{
    field_at, key_at, keys_or_empty, keys_to_value, keys_value, keys_value_round_trip,
    model_field_at, path_at, read_field, read_key, read_keys_or_empty, read_model_field, read_text,
    read_text_or_empty, text_at, text_or_empty,
};
use crate::visible_rows::{
    entries_root, enumerate, row_at, row_at_path, rows_view, visible, KindView, RowKind, RowView,
    VisibleRow,
};
use crate::snapshot::{one_write_shows_at_its_path, written, SettingsSnapshot, SnapshotView};
use crate::text::chars_of;
use crate::types::{
    field_text, keys_view, opt_key, opt_text, AccountField, CompletionRole, ModelField, ModelKey,
    ModelKeyView, RoleView,
};
use crate::value::{
    null_write, put, put_null, put_text, write_at, write_text, writes_view, StoreValue, ValueView,
    Write, WriteView,
};
use vstd::prelude::*;
use vstd::string::*;

use super::compose::{
    accounts_root, expanded_path, field_order, field_place, field_state_subpath,
    focused_path as focus_place, ring,
};
use super::manual_model::catalog;
use super::navigation::read_path;
use super::settings_command::{install, installed, new_to, Action, SettingsCommand};
use super::tree_laws::{rows_stay_in_place, same_for_rows};

verus! {

/// The first row at the focus, where there is one.
pub open spec fn focused_row(s: SnapshotView) -> Option<RowView> {
    match path_at(s, focus_place()) {
        Some(p) => row_at(visible(s), p),
        None => None,
    }
}

/// The path that has the focus.
pub fn focused_path(data: &SettingsSnapshot) -> (r: Option<Path>)
    ensures
        opt_path(r) == path_at(data@, focus_place()),
{
    read_path(data, &path3("ui", "settings", "focused"))
}

/// The first row at the focus.
pub fn focused_visible_row(data: &SettingsSnapshot) -> (r: Option<VisibleRow>)
    ensures
        r is Some <==> focused_row(data@) is Some,
        r is Some ==> r->0@ == focused_row(data@)->0,
{
    match focused_path(data) {
        None => None,
        Some(p) => row_at_path(data, &p),
    }
}

/// The connection a row belongs to: its own, or its field's.
pub open spec fn row_account(kind: KindView) -> Option<Seq<char>> {
    match kind {
        KindView::Account { name } => Some(name),
        KindView::AccountField { account, .. } => Some(account),
        _ => None,
    }
}

/// The model a row belongs to: its own, or its field's.
pub open spec fn row_model(kind: KindView) -> Option<ModelKeyView> {
    match kind {
        KindView::Model { account, model_id } => Some(ModelKeyView { account, model_id }),
        KindView::ModelField { account, model_id, .. } => Some(ModelKeyView { account, model_id }),
        _ => None,
    }
}

/// `name` where it may name an account.
pub open spec fn account_name(name: Option<Seq<char>>) -> Option<Seq<char>> {
    match name {
        Some(n) => if component_ok(n) {
            Some(n)
        } else {
            None
        },
        None => None,
    }
}

/// The account of the first row at `path` that belongs to one whose name may
/// name an account.
pub open spec fn account_in(rows: Seq<RowView>, path: Seq<Seq<char>>) -> Option<Seq<char>>
    decreases rows.len(),
{
    if rows.len() == 0 {
        None
    } else {
        match account_in(rows.drop_last(), path) {
            Some(n) => Some(n),
            None => if rows.last().path == path {
                account_name(row_account(rows.last().kind))
            } else {
                None
            },
        }
    }
}

/// The model of the first row at `path` that belongs to one.
pub open spec fn model_in(rows: Seq<RowView>, path: Seq<Seq<char>>) -> Option<ModelKeyView>
    decreases rows.len(),
{
    if rows.len() == 0 {
        None
    } else {
        match model_in(rows.drop_last(), path) {
            Some(k) => Some(k),
            None => if rows.last().path == path {
                row_model(rows.last().kind)
            } else {
                None
            },
        }
    }
}

/// The account of the focused row.
pub open spec fn account_of_focus(s: SnapshotView) -> Option<Seq<char>> {
    match path_at(s, focus_place()) {
        Some(p) => account_in(visible(s), p),
        None => None,
    }
}

/// The model of the focused row.
pub open spec fn model_of_focus(s: SnapshotView) -> Option<ModelKeyView> {
    match path_at(s, focus_place()) {
        Some(p) => model_in(visible(s), p),
        None => None,
    }
}

/// Where the selected account is kept.
pub open spec fn selected_account_path() -> Seq<Seq<char>> {
    seq!["ui"@, "settings"@, "accounts"@, "selected"@]
}

/// Where the selected model is kept.
pub open spec fn selected_model_path() -> Seq<Seq<char>> {
    seq!["ui"@, "settings"@, "models"@, "selected"@]
}

/// The account commands act on: the focused row's, or else the selected one.
pub open spec fn selected_account(s: SnapshotView) -> Option<Seq<char>> {
    match account_of_focus(s) {
        Some(n) => Some(n),
        None => account_name(text_at(s, selected_account_path())),
    }
}

/// The model commands act on: the focused row's, or else the selected one.
pub open spec fn selected_model(s: SnapshotView) -> Option<ModelKeyView> {
    match model_of_focus(s) {
        Some(k) => Some(k),
        None => key_at(s, selected_model_path()),
    }
}

fn kind_account(kind: &RowKind) -> (r: Option<String>)
    ensures
        opt_text(r) == account_name(row_account(kind@)),
{
    let name: &String = match kind {
        RowKind::Account { name } => name,
        RowKind::AccountField { account, .. } => account,
        _ => {
            return None;
        },
    };
    if valid_component(name.as_str()) {
        Some(name.clone())
    } else {
        None
    }
}

fn kind_model(kind: &RowKind) -> (r: Option<ModelKey>)
    ensures
        opt_key(r) == row_model(kind@),
{
    match kind {
        RowKind::Model { account, model_id } => Some(
            ModelKey { account: account.clone(), model_id: model_id.clone() },
        ),
        RowKind::ModelField { account, model_id, .. } => Some(
            ModelKey { account: account.clone(), model_id: model_id.clone() },
        ),
        _ => None,
    }
}

/// The account of the focused row.
pub fn focused_account(data: &SettingsSnapshot) -> (r: Option<String>)
    ensures
        opt_text(r) == account_of_focus(data@),
{
    let path: Path = match focused_path(data) {
        Some(p) => p,
        None => {
            return None;
        },
    };
    let rows: Vec<VisibleRow> = enumerate(data);
    let ghost all = rows_view(rows@);
    let mut i: usize = 0;
    proof {
        assert(all.subrange(0, 0) =~= Seq::<RowView>::empty());
    }
    while i < rows.len()
        invariant
            i <= rows@.len(),
            all == rows_view(rows@),
            all == visible(data@),
            path_at(data@, focus_place()) == Some(path@),
            account_in(all.subrange(0, i as int), path@) is None,
        decreases rows@.len() - i,
    {
        proof {
            let t = all.subrange(0, i + 1);
            assert(t.drop_last() =~= all.subrange(0, i as int));
            assert(t.last() == rows@[i as int]@);
        }
        if rows[i].path.same_as(&path) {
            match kind_account(&rows[i].kind) {
                Some(n) => {
                    proof {
                        lemma_account_in_prefix(all, path@, i + 1);
                    }
                    return Some(n);
                },
                None => {},
            }
        }
        i += 1;
    }
    proof {
        assert(all.subrange(0, i as int) =~= all);
    }
    None
}

proof fn lemma_account_in_prefix(rows: Seq<RowView>, path: Seq<Seq<char>>, n: int)
    requires
        0 <= n <= rows.len(),
        account_in(rows.subrange(0, n), path) is Some,
    ensures
        account_in(rows, path) == account_in(rows.subrange(0, n), path),
    decreases rows.len() - n,
{
    if n < rows.len() {
        let t = rows.subrange(0, n + 1);
        assert(t.drop_last() =~= rows.subrange(0, n));
        lemma_account_in_prefix(rows, path, n + 1);
    } else {
        assert(rows.subrange(0, n) =~= rows);
    }
}

/// The model of the focused row.
pub fn focused_model(data: &SettingsSnapshot) -> (r: Option<ModelKey>)
    ensures
        opt_key(r) == model_of_focus(data@),
{
    let path: Path = match focused_path(data) {
        Some(p) => p,
        None => {
            return None;
        },
    };
    let rows: Vec<VisibleRow> = enumerate(data);
    let ghost all = rows_view(rows@);
    let mut i: usize = 0;
    proof {
        assert(all.subrange(0, 0) =~= Seq::<RowView>::empty());
    }
    while i < rows.len()
        invariant
            i <= rows@.len(),
            all == rows_view(rows@),
            all == visible(data@),
            path_at(data@, focus_place()) == Some(path@),
            model_in(all.subrange(0, i as int), path@) is None,
        decreases rows@.len() - i,
    {
        proof {
            let t = all.subrange(0, i + 1);
            assert(t.drop_last() =~= all.subrange(0, i as int));
            assert(t.last() == rows@[i as int]@);
        }
        if rows[i].path.same_as(&path) {
            match kind_model(&rows[i].kind) {
                Some(k) => {
                    proof {
                        lemma_model_in_prefix(all, path@, i + 1);
                    }
                    return Some(k);
                },
                None => {},
            }
        }
        i += 1;
    }
    proof {
        assert(all.subrange(0, i as int) =~= all);
    }
    None
}

proof fn lemma_model_in_prefix(rows: Seq<RowView>, path: Seq<Seq<char>>, n: int)
    requires
        0 <= n <= rows.len(),
        model_in(rows.subrange(0, n), path) is Some,
    ensures
        model_in(rows, path) == model_in(rows.subrange(0, n), path),
    decreases rows.len() - n,
{
    if n < rows.len() {
        let t = rows.subrange(0, n + 1);
        assert(t.drop_last() =~= rows.subrange(0, n));
        lemma_model_in_prefix(rows, path, n + 1);
    } else {
        assert(rows.subrange(0, n) =~= rows);
    }
}

/// The account commands act on.
pub fn read_selected_account(data: &SettingsSnapshot) -> (r: Option<String>)
    ensures
        opt_text(r) == selected_account(data@),
{
    match focused_account(data) {
        Some(n) => Some(n),
        None => match read_text(data, &path4("ui", "settings", "accounts", "selected")) {
            Some(n) => if valid_component(n.as_str()) {
                Some(n)
            } else {
                None
            },
            None => None,
        },
    }
}

/// The model commands act on.
pub fn read_selected_model(data: &SettingsSnapshot) -> (r: Option<ModelKey>)
    ensures
        opt_key(r) == selected_model(data@),
{
    match focused_model(data) {
        Some(k) => Some(k),
        None => read_key(data, &path4("ui", "settings", "models", "selected")),
    }
}

/// The place below an account that a request is put at.
pub open spec fn request_place(name: Seq<char>, suffix: Seq<char>) -> Seq<Seq<char>> {
    seq!["config"@, "gate"@, "accounts"@, name, suffix]
}

/// The place below an account that a request is put at; `None` where the
/// suffix may not stand in a path.
pub fn account_request_path(name: &str, suffix: &str) -> (r: Option<Path>)
    ensures
        r is Some <==> component_ok(suffix@),
        r is Some ==> r->0@ == request_place(name@, suffix@),
{
    if valid_component(suffix) {
        Some(path5("config", "gate", "accounts", name, suffix))
    } else {
        None
    }
}

/// Where the account about to be deleted is kept.
pub open spec fn pending_delete_path() -> Seq<Seq<char>> {
    seq!["ui"@, "settings"@, "pending_delete"@]
}

/// The writes that ask for confirmation of a deletion.
pub open spec fn delete_confirm_writes(s: SnapshotView) -> Seq<WriteView> {
    match selected_account(s) {
        Some(n) => seq![put_text(pending_delete_path(), n)],
        None => Seq::empty(),
    }
}

/// Asks for confirmation that the selected account is to be deleted.
pub fn accounts_delete_confirm(data: &SettingsSnapshot) -> (r: Vec<Write>)
    ensures
        writes_view(r@) == delete_confirm_writes(data@),
{
    let mut out: Vec<Write> = Vec::new();
    match read_selected_account(data) {
        Some(n) => {
            out.push(write_text(path3("ui", "settings", "pending_delete"), n));
        },
        None => {},
    }
    proof {
        assert(writes_view(out@) =~= delete_confirm_writes(data@));
    }
    out
}

/// The writes of a confirmed deletion: the account's record is cleared, and so
/// is the question. A name that cannot be an account's only clears the
/// question; without a name there is none.
pub open spec fn confirm_delete_writes(s: SnapshotView) -> Seq<WriteView> {
    let name = text_or_empty(s, pending_delete_path());
    if name.len() == 0 {
        Seq::empty()
    } else if !component_ok(name) {
        seq![put_null(pending_delete_path())]
    } else {
        seq![
            put_null(seq!["config"@, "gate"@, "accounts"@, name]),
            put_null(pending_delete_path()),
        ]
    }
}

/// Deletes the account that confirmation was asked for.
pub fn accounts_confirm_delete(data: &SettingsSnapshot) -> (r: Vec<Write>)
    ensures
        writes_view(r@) == confirm_delete_writes(data@),
{
    let mut out: Vec<Write> = Vec::new();
    let name: String = read_text_or_empty(data, &path3("ui", "settings", "pending_delete"));
    if chars_of(name.as_str()).len() > 0 {
        if valid_component(name.as_str()) {
            out.push(null_write(path4("config", "gate", "accounts", name.as_str())));
        }
        out.push(null_write(path3("ui", "settings", "pending_delete")));
    }
    proof {
        assert(writes_view(out@) =~= confirm_delete_writes(data@));
    }
    out
}

/// The writes that ask for a connection test.
pub open spec fn test_writes(s: SnapshotView) -> Seq<WriteView> {
    match selected_account(s) {
        Some(n) => seq![put_null(request_place(n, "test_now"@))],
        None => Seq::empty(),
    }
}

proof fn lemma_request_suffixes()
    ensures
        component_ok("test_now"@),
        component_ok("refresh_now"@),
{
    reveal_strlit("test_now");
    reveal_strlit("refresh_now");
}

/// Asks for a test of the selected connection.
pub fn account_test(data: &SettingsSnapshot) -> (r: Vec<Write>)
    ensures
        writes_view(r@) == test_writes(data@),
{
    let mut out: Vec<Write> = Vec::new();
    proof {
        lemma_request_suffixes();
    }
    match read_selected_account(data) {
        Some(n) => match account_request_path(n.as_str(), "test_now") {
            Some(p) => {
                out.push(null_write(p));
            },
            None => {},
        },
        None => {},
    }
    proof {
        assert(writes_view(out@) =~= test_writes(data@));
    }
    out
}

/// The account whose catalog is refreshed: the selected model's, or else the
/// selected one.
pub open spec fn refreshed_account(s: SnapshotView) -> Option<Seq<char>> {
    match selected_model(s) {
        Some(k) => account_name(Some(k.account)),
        None => selected_account(s),
    }
}

/// The writes that ask for a catalog refresh.
pub open spec fn refresh_writes(s: SnapshotView) -> Seq<WriteView> {
    match refreshed_account(s) {
        Some(n) => seq![put_null(request_place(n, "refresh_now"@))],
        None => Seq::empty(),
    }
}

/// Asks for the catalog of the selected model's connection, or else of the
/// selected connection, to be fetched again.
pub fn account_refresh(data: &SettingsSnapshot) -> (r: Vec<Write>)
    ensures
        writes_view(r@) == refresh_writes(data@),
{
    let mut out: Vec<Write> = Vec::new();
    proof {
        lemma_request_suffixes();
    }
    let name: Option<String> = match read_selected_model(data) {
        Some(k) => if valid_component(k.account.as_str()) {
            Some(k.account)
        } else {
            None
        },
        None => read_selected_account(data),
    };
    match name {
        Some(n) => match account_request_path(n.as_str(), "refresh_now") {
            Some(p) => {
                out.push(null_write(p));
            },
            None => {},
        },
        None => {},
    }
    proof {
        assert(writes_view(out@) =~= refresh_writes(data@));
    }
    out
}

/// A place among the completion settings.
pub open spec fn completions(part: Seq<char>) -> Seq<Seq<char>> {
    seq!["config"@, "gate"@, "completions"@, part]
}

/// The writes that bind the bootstrap role: at its own place, and at the one
/// it had before.
pub open spec fn bootstrap_writes(s: SnapshotView) -> Seq<WriteView> {
    match selected_model(s) {
        Some(k) => {
            let role = ValueView::Role(RoleView { account: k.account, model_id: k.model_id });
            seq![put(completions("bootstrap"@), role), put(completions("primary"@), role)]
        },
        None => Seq::empty(),
    }
}

/// Binds the bootstrap role to the selected model.
pub fn models_set_bootstrap(data: &SettingsSnapshot) -> (r: Vec<Write>)
    ensures
        writes_view(r@) == bootstrap_writes(data@),
{
    let mut out: Vec<Write> = Vec::new();
    match read_selected_model(data) {
        Some(k) => {
            let role = CompletionRole { account: k.account.clone(), model_id: k.model_id.clone() };
            let legacy = CompletionRole { account: k.account, model_id: k.model_id };
            out.push(
                write_at(path4("config", "gate", "completions", "bootstrap"), StoreValue::Role(role)),
            );
            out.push(
                write_at(path4("config", "gate", "completions", "primary"), StoreValue::Role(legacy)),
            );
        },
        None => {},
    }
    proof {
        assert(writes_view(out@) =~= bootstrap_writes(data@));
    }
    out
}

/// `keys` without the first occurrence of `key`, or with `key` at the end.
pub open spec fn toggled(keys: Seq<ModelKeyView>, key: ModelKeyView) -> Seq<ModelKeyView> {
    match place_of(keys, key) {
        Some(i) => keys.remove(i),
        None => keys.push(key),
    }
}

/// What stands for a set of models in the store: nothing for an empty one.
pub open spec fn set_value(keys: Seq<ModelKeyView>) -> ValueView {
    if keys.len() == 0 {
        ValueView::Null
    } else {
        keys_value(keys)
    }
}

/// The writes of toggling the selected model's membership in the default set.
/// An emptied set is cleared.
pub open spec fn toggle_default_writes(s: SnapshotView) -> Seq<WriteView> {
    match selected_model(s) {
        Some(k) => {
            let next = toggled(keys_or_empty(s, completions("default_available"@)), k);
            seq![put(completions("default_available"@), set_value(next))]
        },
        None => Seq::empty(),
    }
}

/// The first place of a key in a list.
pub fn place_of_key(keys: &Vec<ModelKey>, key: &ModelKey) -> (r: Option<usize>)
    ensures
        match r {
            Some(i) => i < keys@.len() && place_of(keys_view(keys@), key@) == Some(i as int),
            None => place_of(keys_view(keys@), key@) is None,
        },
{
    let mut i: usize = 0;
    while i < keys.len()
        invariant
            i <= keys@.len(),
            forall|k: int| 0 <= k < i ==> #[trigger] keys_view(keys@)[k] != key@,
        decreases keys@.len() - i,
    {
        if keys[i].same_as(key) {
            proof {
                place_unique(keys_view(keys@), key@, i as int);
            }
            return Some(i);
        }
        i += 1;
    }
    proof {
        place_is_first(keys_view(keys@), key@);
    }
    None
}

/// Adds the selected model to the set of models available by default, or takes
/// it out.
pub fn models_toggle_default(data: &SettingsSnapshot) -> (r: Vec<Write>)
    ensures
        writes_view(r@) == toggle_default_writes(data@),
{
    let mut out: Vec<Write> = Vec::new();
    let key: ModelKey = match read_selected_model(data) {
        Some(k) => k,
        None => {
            proof {
                assert(writes_view(out@) =~= toggle_default_writes(data@));
            }
            return out;
        },
    };
    let ghost wanted = key@;
    let place = path4("config", "gate", "completions", "default_available");
    let mut next: Vec<ModelKey> = read_keys_or_empty(data, &place);
    let ghost current = keys_view(next@);
    match place_of_key(&next, &key) {
        Some(i) => {
            next.remove(i);
            proof {
                assert(keys_view(next@) =~= current.remove(i as int));
            }
        },
        None => {
            next.push(key);
            proof {
                assert(keys_view(next@) =~= current.push(wanted));
            }
        },
    }
    if next.len() == 0 {
        out.push(null_write(place));
    } else {
        out.push(write_at(place, keys_to_value(&next)));
    }
    proof {
        assert(writes_view(out@) =~= toggle_default_writes(data@));
    }
    out
}

/// Toggling a model that is not in the set adds it, and toggling once more
/// takes it out again, leaving the set as it was.
pub proof fn toggling_twice_restores(keys: Seq<ModelKeyView>, key: ModelKeyView)
    requires
        !keys.contains(key),
    ensures
        toggled(keys, key).contains(key),
        toggled(toggled(keys, key), key) == keys,
{
    place_is_first(keys, key);
    let more = keys.push(key);
    assert(more[keys.len() as int] == key);
    assert forall|j: int| 0 <= j < keys.len() implies #[trigger] more[j] != key by {
        assert(keys[j] == more[j]);
        assert(keys.contains(keys[j]));
    }
    place_unique(more, key, keys.len() as int);
    assert(more.remove(keys.len() as int) =~= keys);
}

proof fn lemma_model_in_agrees(rows: Seq<RowView>, others: Seq<RowView>, path: Seq<Seq<char>>)
    requires
        rows.len() == others.len(),
        forall|j: int|
            0 <= j < rows.len() ==> (#[trigger] others[j]).path == rows[j].path && others[j].kind
                == rows[j].kind,
    ensures
        model_in(others, path) == model_in(rows, path),
    decreases rows.len(),
{
    if rows.len() > 0 {
        let r = rows.drop_last();
        let o = others.drop_last();
        assert forall|j: int| 0 <= j < r.len() implies (#[trigger] o[j]).path == r[j].path
            && o[j].kind == r[j].kind by {
            assert(o[j] == others[j]);
        }
        lemma_model_in_agrees(r, o, path);
        assert(others[others.len() - 1].path == rows[rows.len() - 1].path);
    }
}

/// A write to the set of models available by default is not read by the rows.
proof fn lemma_default_set_is_apart(s: SnapshotView, w: WriteView)
    requires
        w.path == completions("default_available"@),
    ensures
        same_for_rows(s, written(s, seq![w])),
        selected_model(written(s, seq![w])) == selected_model(s),
{
    let t = written(s, seq![w]);
    one_write_shows_at_its_path(s, w);
    reveal_strlit("completions");
    reveal_strlit("accounts");
    reveal_strlit("config");
    reveal_strlit("settings");
    reveal_strlit("ui");
    assert("completions"@.len() == 11 && "accounts"@.len() == 8);
    assert("config"@.len() == 6 && "settings"@.len() == 8 && "ui"@.len() == 2);
    assert(w.path.len() == 4 && w.path[0] == "config"@ && w.path[2] == "completions"@);
    assert(expanded_path()[0] == "ui"@);
    assert(focus_place()[0] == "ui"@);
    assert(selected_model_path()[0] == "ui"@);
    assert forall|name: Seq<char>| #[trigger]
        t.at(entries_root().push(name)) == s.at(entries_root().push(name)) by {
        assert(entries_root().push(name)[0] == "settings"@);
    }
    assert forall|account: Seq<char>| #[trigger] t.at(catalog(account)) == s.at(catalog(account)) by {
        assert(catalog(account).len() == 5);
    }
    if leads(entries_root(), w.path) {
        assert(w.path.subrange(0, entries_root().len() as int)[0] == w.path[0]);
    }
    if leads(accounts_root(), w.path) {
        assert(w.path.subrange(0, 3)[2] == w.path[2]);
    }
    rows_stay_in_place(s, t);
    match path_at(s, focus_place()) {
        Some(p) => lemma_model_in_agrees(visible(s), visible(t), p),
        None => {},
    }
}

/// Toggling the selected model leaves it selected. A second toggle then writes
/// what toggling twice leaves of the set; for a model that was not in it, that
/// is the set as it was, cleared where it was empty.
pub proof fn toggling_again_writes_the_set_back(s: SnapshotView)
    requires
        selected_model(s) is Some,
    ensures
        ({
            let k = selected_model(s)->0;
            let place = completions("default_available"@);
            let keys = keys_or_empty(s, place);
            let t = written(s, toggle_default_writes(s));
            let again = toggled(toggled(keys, k), k);
            &&& selected_model(t) == selected_model(s)
            &&& keys_or_empty(t, place) == toggled(keys, k)
            &&& toggle_default_writes(t) == seq![put(place, set_value(again))]
            &&& !keys.contains(k) ==> again == keys
            &&& keys_or_empty(written(t, toggle_default_writes(t)), place) == again
        }),
{
    let k = selected_model(s)->0;
    let place = completions("default_available"@);
    let keys = keys_or_empty(s, place);
    let next = toggled(keys, k);
    let w = toggle_default_writes(s);
    assert(w =~= seq![put(place, set_value(next))]);
    let t = written(s, w);
    one_write_shows_at_its_path(s, w[0]);
    lemma_default_set_is_apart(s, w[0]);
    keys_value_round_trip(next);
    assert(keys_or_empty(t, place) =~= next);
    let v = toggle_default_writes(t);
    let again = toggled(next, k);
    assert(v =~= seq![put(place, set_value(again))]);
    one_write_shows_at_its_path(t, v[0]);
    keys_value_round_trip(again);
    assert(keys_or_empty(written(t, v), place) =~= again);
    if !keys.contains(k) {
        toggling_twice_restores(keys, k);
    }
}

/// The place `delta` steps on from `current` in a ring of `len`.
pub fn cycle_index(current: usize, len: usize, delta: isize) -> (r: usize)
    requires
        0 < len <= isize::MAX,
        current <= isize::MAX,
        isize::MIN <= current + delta <= isize::MAX,
    ensures
        r == ring(current as int, delta as int, len as int),
        r < len,
{
    let sum: isize = current as isize + delta;
    proof {
        vstd::arithmetic::div_mod::lemma_mod_bound(sum as int, len as int);
    }
    if sum >= 0 {
        sum as usize % len
    } else {
        // The remainder of the distance below zero, counted back from the end.
        let below: usize = (-(sum + 1)) as usize;
        let back: usize = below % len;
        proof {
            let b = below as int;
            let n = len as int;
            assert(sum == -(b + 1));
            vstd::arithmetic::div_mod::lemma_fundamental_div_mod(b, n);
            let q = b / n;
            assert(sum == (n - 1 - b % n) + n * (-(q + 1))) by (nonlinear_arith)
                requires
                    sum == -(b + 1),
                    b == n * q + b % n,
            ;
            vstd::arithmetic::div_mod::lemma_mod_multiples_vanish(-(q + 1), n - 1 - b % n, n);
            vstd::arithmetic::div_mod::lemma_small_mod((n - 1 - b % n) as nat, n as nat);
        }
        len - 1 - back
    }
}

/// Where the focused field of a connection's page is kept.
pub open spec fn account_field_path() -> Seq<Seq<char>> {
    seq!["ui"@, "settings"@, "account_detail"@, "field"@]
}

/// Where the focused field of a model's page is kept.
pub open spec fn model_field_path() -> Seq<Seq<char>> {
    seq!["ui"@, "settings"@, "model_detail"@, "field"@]
}

/// The model fields in the order the page shows them.
pub open spec fn model_field_order() -> Seq<ModelField> {
    seq![ModelField::ContextSizeOverride, ModelField::OutputTokensOverride]
}

/// The model field's place in that order.
pub open spec fn model_field_place(f: ModelField) -> int {
    match f {
        ModelField::ContextSizeOverride => 0,
        ModelField::OutputTokensOverride => 1,
    }
}

/// The connection field `delta` steps on from the focused one, which is the
/// name at first.
pub open spec fn stepped_field(s: SnapshotView, delta: int) -> AccountField {
    let current = match field_at(s, account_field_path()) {
        Some(f) => f,
        None => AccountField::Name,
    };
    field_order()[ring(field_place(current), delta, 5)]
}

/// Moves the focus of a connection's page by `delta` fields.
pub fn field_account_step(data: &SettingsSnapshot, delta: isize) -> (r: Vec<Write>)
    requires
        delta <= isize::MAX - 4,
    ensures
        writes_view(r@) == seq![
            put_text(account_field_path(), field_text(stepped_field(data@, delta as int))),
        ],
{
    let current = match read_field(data, &path4("ui", "settings", "account_detail", "field")) {
        Some(f) => f,
        None => AccountField::Name,
    };
    let idx: usize = super::compose::field_index(current);
    let next = super::compose::FIELD_ORDER[cycle_index(idx, 5, delta)];
    let mut out: Vec<Write> = Vec::new();
    out.push(
        write_text(
            path4("ui", "settings", "account_detail", "field"),
            field_state_subpath(next).to_owned(),
        ),
    );
    proof {
        assert(super::compose::FIELD_ORDER@ =~= field_order());
        assert(writes_view(out@) =~= seq![
            put_text(account_field_path(), field_text(stepped_field(data@, delta as int))),
        ]);
    }
    out
}

/// The model field `delta` steps on from the focused one, which is the context
/// size at first.
pub open spec fn stepped_model_field(s: SnapshotView, delta: int) -> ModelField {
    let current = match model_field_at(s, model_field_path()) {
        Some(f) => f,
        None => ModelField::ContextSizeOverride,
    };
    model_field_order()[ring(model_field_place(current), delta, 2)]
}

/// Moves the focus of a model's page by `delta` fields.
pub fn field_model_step(data: &SettingsSnapshot, delta: isize) -> (r: Vec<Write>)
    requires
        delta <= isize::MAX - 1,
    ensures
        writes_view(r@) == seq![
            put(
                model_field_path(),
                ValueView::ModelField(stepped_model_field(data@, delta as int)),
            ),
        ],
{
    let current = match read_model_field(
        data,
        &path4("ui", "settings", "model_detail", "field"),
    ) {
        Some(f) => f,
        None => ModelField::ContextSizeOverride,
    };
    let idx: usize = match current {
        ModelField::ContextSizeOverride => 0,
        ModelField::OutputTokensOverride => 1,
    };
    let next = if cycle_index(idx, 2, delta) == 0 {
        ModelField::ContextSizeOverride
    } else {
        ModelField::OutputTokensOverride
    };
    let mut out: Vec<Write> = Vec::new();
    out.push(
        write_at(path4("ui", "settings", "model_detail", "field"), StoreValue::ModelField(next)),
    );
    proof {
        assert(writes_view(out@) =~= seq![
            put(
                model_field_path(),
                ValueView::ModelField(stepped_model_field(data@, delta as int)),
            ),
        ]);
    }
    out
}

/// Where the question about a deletion takes the focus.
pub open spec fn confirm_scope() -> Seq<Seq<char>> {
    seq!["settings"@, "_confirm_delete"@]
}

/// Whether a cursor is at the question about a deletion.
pub fn cursor_is_in_confirm_delete(cursor: &Path) -> (r: bool)
    ensures
        r == (cursor@ == confirm_scope()),
{
    cursor.same_as(&path2("settings", "_confirm_delete"))
}

/// The commands of this group.
pub open spec fn account_model_actions() -> Seq<Action> {
    seq![
        Action::AccountsComposeOpen,
        Action::AccountsComposeInsertChar,
        Action::AccountsComposeDeleteBack,
        Action::AccountsComposeCycleForward,
        Action::AccountsComposeCycleBack,
        Action::AccountsComposeFocusNext,
        Action::AccountsComposeFocusPrev,
        Action::AccountsComposeCommit,
        Action::AccountsComposeCancel,
        Action::AccountsDeleteConfirm,
        Action::AccountsConfirmDelete,
        Action::AccountsConfirmCancel,
        Action::AccountTest,
        Action::AccountRefresh,
        Action::ModelsSetBootstrap,
        Action::ModelsToggleDefault,
        Action::AppSave,
        Action::FieldAccountNext,
        Action::SelectorCycleProtocol,
        Action::SelectorCycleAuth,
        Action::AccountsForkProvider,
        Action::CycleFieldNext,
        Action::CycleFieldPrev,
        Action::ModelsAddManual,
        Action::ModelsManualInsertChar,
        Action::ModelsManualDeleteBack,
        Action::ModelsManualCommit,
        Action::ModelsManualCancel,
    ]
}

/// Registers the commands of this group.
pub fn register(reg: &mut CommandRegistry<SettingsCommand>)
    ensures
        installed(old(reg)@, account_model_actions(), final(reg)@),
        new_to(account_model_actions(), old(reg)@) ==> final(reg)@.len() == old(reg)@.len() + account_model_actions().len(),
{
    let actions: Vec<Action> = vec![
        Action::AccountsComposeOpen,
        Action::AccountsComposeInsertChar,
        Action::AccountsComposeDeleteBack,
        Action::AccountsComposeCycleForward,
        Action::AccountsComposeCycleBack,
        Action::AccountsComposeFocusNext,
        Action::AccountsComposeFocusPrev,
        Action::AccountsComposeCommit,
        Action::AccountsComposeCancel,
        Action::AccountsDeleteConfirm,
        Action::AccountsConfirmDelete,
        Action::AccountsConfirmCancel,
        Action::AccountTest,
        Action::AccountRefresh,
        Action::ModelsSetBootstrap,
        Action::ModelsToggleDefault,
        Action::AppSave,
        Action::FieldAccountNext,
        Action::SelectorCycleProtocol,
        Action::SelectorCycleAuth,
        Action::AccountsForkProvider,
        Action::CycleFieldNext,
        Action::CycleFieldPrev,
        Action::ModelsAddManual,
        Action::ModelsManualInsertChar,
        Action::ModelsManualDeleteBack,
        Action::ModelsManualCommit,
        Action::ModelsManualCancel,
    ];
    proof {
        assert(actions@ =~= account_model_actions());
    }
    install(reg, &actions);
}

} // verus!
