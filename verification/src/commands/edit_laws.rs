//! What editing a field in its row does to the store.

use crate::keys::{KeyChord, KeyCodeRepr};
use crate::path::{component_ok, path_ok};
use crate::renderers::util::{models_at, path_at, text_at, text_or_empty};
use crate::snapshot::{
    lasting, one_write_shows_at_its_path, untouched, writes_show_at_their_paths, written,
    SnapshotView,
};
use crate::text::{ascii_digit, decimal, decimal_reads_back};
use crate::types::{AccountField, AccountView, ModelField, ModelInfoSource, ModelView, ProviderView};
use crate::value::{ValueView, WriteView};
use crate::visible_rows::{row_at, visible, KindView, RowView};
use vstd::prelude::*;
use vstd::string::*;

use super::account_model::focused_row;

use super::edit::{
    begin_account_writes, begin_model_writes, cancel_writes, claimed_char, commit_writes,
    delete_writes, insert_writes, model_place, model_place_is_first, override_of,
    save_account_writes, save_model_writes, save_writes, typed_writes,
};
use super::navigation::path_value_round_trip;
use super::selectors::{assembled_account, bound_provider};

verus! {

proof fn lemma_edit_words()
    ensures
        "ui"@.len() == 2,
        "config"@.len() == 6,
        "secret"@.len() == 6,
        "config"@[0] == 'c',
        "secret"@[0] == 's',
        "accounts"@.len() == 8,
        "providers"@.len() == 9,
        "focused"@.len() == 7,
        "edit"@.len() == 4,
        "target_path"@.len() == 11,
        "buffer"@.len() == 6,
        "cursor_saved"@.len() == 12,
        component_ok("settings"@),
        component_ok("_edit"@),
{
    reveal_strlit("ui");
    reveal_strlit("config");
    reveal_strlit("secret");
    reveal_strlit("accounts");
    reveal_strlit("providers");
    reveal_strlit("focused");
    reveal_strlit("edit");
    reveal_strlit("target_path");
    reveal_strlit("buffer");
    reveal_strlit("cursor_saved");
    reveal_strlit("settings");
    reveal_strlit("_edit");
}

/// Saving an endpoint changes the endpoint of the provider record the account is
/// bound to. The record keeps its dialect, its version and its scheme, and
/// nothing else in the store changes.
pub proof fn saving_an_endpoint_changes_the_endpoint_only(
    s: SnapshotView,
    account: Seq<char>,
    a: AccountView,
    p: ProviderView,
    text: Seq<char>,
)
    requires
        component_ok(account),
        s.at(seq!["config"@, "gate"@, "accounts"@, account]) == Some(ValueView::Account(a)),
        component_ok(a.provider),
        s.at(seq!["config"@, "gate"@, "providers"@, a.provider]) == Some(ValueView::Provider(p)),
    ensures
        ({
            let place = seq!["config"@, "gate"@, "providers"@, a.provider];
            let t = written(s, save_account_writes(s, account, AccountField::Endpoint, text));
            &&& t.at(place) is Some
            &&& t.at(place)->0 is Provider
            &&& t.at(place)->0->Provider_0.endpoint == text
            &&& t.at(place)->0->Provider_0.dialect == p.dialect
            &&& t.at(place)->0->Provider_0.version == p.version
            &&& t.at(place)->0->Provider_0.auth == p.auth
            &&& forall|x: Seq<Seq<char>>| x != place ==> #[trigger] t.at(x) == s.at(x)
        }),
{
    let w = save_account_writes(s, account, AccountField::Endpoint, text);
    assert(w =~= seq![w[0]]);
    one_write_shows_at_its_path(s, w[0]);
}

/// Where the provider an account is bound to has no record, saving an endpoint
/// starts one: with that endpoint, the provider's name as its dialect, and
/// neither a version nor a scheme.
pub proof fn saving_an_endpoint_starts_a_record(
    s: SnapshotView,
    account: Seq<char>,
    a: AccountView,
    text: Seq<char>,
)
    requires
        component_ok(account),
        s.at(seq!["config"@, "gate"@, "accounts"@, account]) == Some(ValueView::Account(a)),
        component_ok(a.provider),
        s.at(seq!["config"@, "gate"@, "providers"@, a.provider]) is None,
    ensures
        ({
            let place = seq!["config"@, "gate"@, "providers"@, a.provider];
            let t = written(s, save_account_writes(s, account, AccountField::Endpoint, text));
            &&& t.at(place) is Some
            &&& t.at(place)->0 is Provider
            &&& t.at(place)->0->Provider_0.endpoint == text
            &&& t.at(place)->0->Provider_0.dialect == a.provider
            &&& t.at(place)->0->Provider_0.version.len() == 0
            &&& t.at(place)->0->Provider_0.auth is None
            &&& forall|x: Seq<Seq<char>>| x != place ==> #[trigger] t.at(x) == s.at(x)
        }),
{
    let w = save_account_writes(s, account, AccountField::Endpoint, text);
    assert(w =~= seq![w[0]]);
    one_write_shows_at_its_path(s, w[0]);
}

/// Saving a key puts it among the secrets, under the account's name, as it was
/// typed. Nothing else in the store changes.
pub proof fn saving_a_key_changes_the_key_only(
    s: SnapshotView,
    account: Seq<char>,
    text: Seq<char>,
)
    requires
        component_ok(account),
    ensures
        ({
            let place = seq!["secret"@, "keys"@, account];
            let t = written(s, save_account_writes(s, account, AccountField::Key, text));
            &&& t.at(place) == Some(ValueView::String(text))
            &&& forall|x: Seq<Seq<char>>| x != place ==> #[trigger] t.at(x) == s.at(x)
        }),
{
    let w = save_account_writes(s, account, AccountField::Key, text);
    assert(w =~= seq![w[0]]);
    one_write_shows_at_its_path(s, w[0]);
}

/// The fields of a connection that are not edited as text are never saved, nor
/// is anything under a name that may not stand in a path.
pub proof fn nothing_else_is_saved(
    s: SnapshotView,
    account: Seq<char>,
    field: AccountField,
    text: Seq<char>,
)
    requires
        !component_ok(account) || (field != AccountField::Endpoint && field != AccountField::Key),
    ensures
        save_account_writes(s, account, field, text).len() == 0,
{
}

/// Saving an override changes one figure of one model. The catalog keeps its
/// length and its order, and every other model stays as it was; the changed one,
/// the first with the id, keeps its id, its name and its other figure, and is
/// marked as overridden. An empty text takes the figure away, a number sets it.
pub proof fn saving_an_override_changes_one_figure(
    s: SnapshotView,
    account: Seq<char>,
    models: Seq<ModelView>,
    i: int,
    field: ModelField,
    n: Option<u32>,
    text: Seq<char>,
)
    requires
        component_ok(account),
        models_at(s, seq!["config"@, "gate"@, "accounts"@, account, "models"@]) == Some(models),
        0 <= i < models.len(),
        forall|j: int| 0 <= j < i ==> (#[trigger] models[j]).id != models[i].id,
        n is None ==> text.len() == 0,
        n is Some ==> text == decimal(n->0 as nat),
    ensures
        ({
            let place = seq!["config"@, "gate"@, "accounts"@, account, "models"@];
            let t = written(s, save_model_writes(s, account, models[i].id, field, text));
            let after = models_at(t, place)->0;
            &&& models_at(t, place) is Some
            &&& after.len() == models.len()
            &&& forall|j: int|
                0 <= j < models.len() && j != i ==> #[trigger] after[j] == models[j]
            &&& after[i].id == models[i].id
            &&& after[i].display_name == models[i].display_name
            &&& after[i].source == ModelInfoSource::UserOverride
            &&& match field {
                ModelField::ContextSizeOverride => after[i].max_context_size == n
                    && after[i].max_output_tokens == models[i].max_output_tokens,
                ModelField::OutputTokensOverride => after[i].max_output_tokens == n
                    && after[i].max_context_size == models[i].max_context_size,
            }
            &&& forall|x: Seq<Seq<char>>| x != place ==> #[trigger] t.at(x) == s.at(x)
        }),
{
    let id = models[i].id;
    model_place_is_first(models, id);
    match model_place(models, id) {
        Some(k) => {
            if k < i {
                assert(models[k].id != id);
            } else if i < k {
                assert(models[i].id != id);
            }
        },
        None => {
            assert(models[i].id != id);
        },
    }
    match n {
        Some(k) => {
            decimal_reads_back(k);
            assert(decimal(k as nat).len() > 0);
        },
        None => {},
    }
    let w = save_model_writes(s, account, id, field, text);
    assert(w =~= seq![w[0]]);
    one_write_shows_at_its_path(s, w[0]);
    let place = seq!["config"@, "gate"@, "accounts"@, account, "models"@];
    let t = written(s, w);
    assert(w[0].path == place);
    let value = w[0].value->Array_0;
    assert(t.at(place) == Some(w[0].value));
    assert(w[0].value is Array);
    assert(forall|j: int| 0 <= j < value.len() ==> (#[trigger] value[j]) is Model);
    let after = models_at(t, place)->0;
    assert(after.len() == models.len());
    assert forall|j: int| 0 <= j < models.len() && j != i implies #[trigger] after[j]
        == models[j] by {
        assert(value[j] is Model);
        assert(after[j] == value[j]->Model_0);
    }
    assert(after[i] == value[i]->Model_0);
}

/// Nothing is saved for a model the catalog does not hold, nor for a text that
/// neither is empty nor spells a number: none that holds something else than
/// digits, but for a plus sign in front, does.
pub proof fn no_override_without_model_or_number(
    s: SnapshotView,
    account: Seq<char>,
    model_id: Seq<char>,
    field: ModelField,
    text: Seq<char>,
    k: int,
)
    requires
        (forall|models: Seq<ModelView>, j: int|
            models_at(s, seq!["config"@, "gate"@, "accounts"@, account, "models"@]) == Some(models)
                && 0 <= j < models.len() ==> (#[trigger] models[j]).id != model_id) || (1 <= k
            < text.len() && !ascii_digit(text[k])) || text == seq!['+'],
    ensures
        save_model_writes(s, account, model_id, field, text).len() == 0,
{
    let place = seq!["config"@, "gate"@, "accounts"@, account, "models"@];
    match models_at(s, place) {
        Some(models) => {
            model_place_is_first(models, model_id);
            match model_place(models, model_id) {
                Some(j) => {
                    if 1 <= k < text.len() && !ascii_digit(text[k]) {
                        let d = crate::text::numeral_digits(text);
                        if text[0] == '+' {
                            assert(d[k - 1] == text[k]);
                        } else {
                            assert(d[k] == text[k]);
                        }
                    } else if text == seq!['+'] {
                        assert(crate::text::numeral_digits(text).len() == 0);
                    } else {
                        assert(models[j].id != model_id);
                    }
                },
                None => {},
            }
        },
        None => {},
    }
}

/// Leaving edit mode with saving does to the configuration and to the secrets
/// what saving the text in its row does, and to the rest this: the focus returns
/// to the row, and the edit state is cleared.
proof fn lemma_commit(s: SnapshotView, row_path: Seq<Seq<char>>, saved: Seq<WriteView>)
    requires
        path_at(s, seq!["ui"@, "settings"@, "edit"@, "target_path"@]) == Some(row_path),
        saved == save_writes(
            s,
            row_at(visible(s), row_path),
            text_or_empty(s, seq!["ui"@, "settings"@, "edit"@, "buffer"@]),
        ),
        saved.len() <= 1,
        saved.len() == 1 ==> saved[0].path.len() > 0 && saved[0].path[0] != "ui"@,
    ensures
        ({
            let t = written(s, commit_writes(s));
            &&& path_at(t, seq!["ui"@, "settings"@, "focused"@]) == Some(row_path)
            &&& t.at(seq!["ui"@, "settings"@, "edit"@]) == Some(ValueView::Null)
            &&& saved.len() == 1 ==> t.at(saved[0].path) == Some(saved[0].value)
            &&& forall|x: Seq<Seq<char>>|
                x != seq!["ui"@, "settings"@, "focused"@] && x != seq![
                    "ui"@,
                    "settings"@,
                    "edit"@,
                ] && untouched(saved, x) ==> #[trigger] t.at(x) == s.at(x)
        }),
{
    lemma_edit_words();
    let w = commit_writes(s);
    let t = written(s, w);
    let n = saved.len() as int;
    let focus = seq!["ui"@, "settings"@, "focused"@];
    let root = seq!["ui"@, "settings"@, "edit"@];
    assert(w.len() == n + 2);
    assert(w[n].path == focus);
    assert(w[n + 1].path == root);
    assert(focus[2] != root[2]);
    writes_show_at_their_paths(s, w);
    assert(lasting(w, n));
    assert(lasting(w, n + 1));
    assert(path_ok(row_path));
    path_value_round_trip(row_path);
    if n == 1 {
        assert(w[0] == saved[0]);
        assert(focus[0] == "ui"@ && root[0] == "ui"@);
        assert(lasting(w, 0));
    }
    assert forall|x: Seq<Seq<char>>| x != focus && x != root && untouched(saved, x) implies
        #[trigger] t.at(x) == s.at(x) by {
        assert forall|i: int| 0 <= i < w.len() implies (#[trigger] w[i]).path != x by {
            if i < n {
                assert(w[i] == saved[i]);
            }
        }
        assert(untouched(w, x));
    }
}

/// Leaving edit mode with saving on the row of an endpoint: the record the
/// account is bound to has the typed text as its endpoint from then on, and is
/// otherwise as it was. The focus is back on the row.
pub proof fn committing_an_endpoint_saves_what_was_typed(
    s: SnapshotView,
    row_path: Seq<Seq<char>>,
    row: RowView,
    account: Seq<char>,
    a: AccountView,
    p: ProviderView,
)
    requires
        path_at(s, seq!["ui"@, "settings"@, "edit"@, "target_path"@]) == Some(row_path),
        row_at(visible(s), row_path) == Some(row),
        row.kind == (KindView::AccountField { account, field: AccountField::Endpoint }),
        component_ok(account),
        s.at(seq!["config"@, "gate"@, "accounts"@, account]) == Some(ValueView::Account(a)),
        component_ok(a.provider),
        s.at(seq!["config"@, "gate"@, "providers"@, a.provider]) == Some(ValueView::Provider(p)),
    ensures
        ({
            let place = seq!["config"@, "gate"@, "providers"@, a.provider];
            let typed = text_or_empty(s, seq!["ui"@, "settings"@, "edit"@, "buffer"@]);
            let t = written(s, commit_writes(s));
            &&& t.at(place) == Some(ValueView::Provider(ProviderView { endpoint: typed, ..p }))
            &&& path_at(t, seq!["ui"@, "settings"@, "focused"@]) == Some(row_path)
            &&& t.at(seq!["ui"@, "settings"@, "edit"@]) == Some(ValueView::Null)
            &&& forall|x: Seq<Seq<char>>|
                x != place && x != seq!["ui"@, "settings"@, "focused"@] && x != seq![
                    "ui"@,
                    "settings"@,
                    "edit"@,
                ] ==> #[trigger] t.at(x) == s.at(x)
        }),
{
    lemma_edit_words();
    let typed = text_or_empty(s, seq!["ui"@, "settings"@, "edit"@, "buffer"@]);
    let saved = save_account_writes(s, account, AccountField::Endpoint, typed);
    let place = seq!["config"@, "gate"@, "providers"@, a.provider];
    assert(saved[0].path == place && place[0] == "config"@);
    lemma_commit(s, row_path, saved);
    let t = written(s, commit_writes(s));
    assert forall|x: Seq<Seq<char>>|
        x != place && x != seq!["ui"@, "settings"@, "focused"@] && x != seq![
            "ui"@,
            "settings"@,
            "edit"@,
        ] implies #[trigger] t.at(x) == s.at(x) by {
        assert(untouched(saved, x));
    }
}

/// Leaving edit mode with saving on the row of a key: the account's key is what
/// was typed.
pub proof fn committing_a_key_saves_what_was_typed(
    s: SnapshotView,
    row_path: Seq<Seq<char>>,
    row: RowView,
    account: Seq<char>,
)
    requires
        path_at(s, seq!["ui"@, "settings"@, "edit"@, "target_path"@]) == Some(row_path),
        row_at(visible(s), row_path) == Some(row),
        row.kind == (KindView::AccountField { account, field: AccountField::Key }),
        component_ok(account),
    ensures
        ({
            let place = seq!["secret"@, "keys"@, account];
            let typed = text_or_empty(s, seq!["ui"@, "settings"@, "edit"@, "buffer"@]);
            let t = written(s, commit_writes(s));
            &&& t.at(place) == Some(ValueView::String(typed))
            &&& path_at(t, seq!["ui"@, "settings"@, "focused"@]) == Some(row_path)
            &&& t.at(seq!["ui"@, "settings"@, "edit"@]) == Some(ValueView::Null)
            &&& forall|x: Seq<Seq<char>>|
                x != place && x != seq!["ui"@, "settings"@, "focused"@] && x != seq![
                    "ui"@,
                    "settings"@,
                    "edit"@,
                ] ==> #[trigger] t.at(x) == s.at(x)
        }),
{
    lemma_edit_words();
    let typed = text_or_empty(s, seq!["ui"@, "settings"@, "edit"@, "buffer"@]);
    let saved = save_account_writes(s, account, AccountField::Key, typed);
    let place = seq!["secret"@, "keys"@, account];
    assert(saved[0].path == place && place[0] == "secret"@);
    lemma_commit(s, row_path, saved);
    let t = written(s, commit_writes(s));
    assert forall|x: Seq<Seq<char>>|
        x != place && x != seq!["ui"@, "settings"@, "focused"@] && x != seq![
            "ui"@,
            "settings"@,
            "edit"@,
        ] implies #[trigger] t.at(x) == s.at(x) by {
        assert(untouched(saved, x));
    }
}

/// Leaving edit mode with saving on the row of a figure: the catalog of the
/// row's account is written just as saving that figure writes it, and the focus
/// is back on the row.
pub proof fn committing_a_figure_saves_what_was_typed(
    s: SnapshotView,
    row_path: Seq<Seq<char>>,
    row: RowView,
    account: Seq<char>,
    model_id: Seq<char>,
    field: ModelField,
)
    requires
        path_at(s, seq!["ui"@, "settings"@, "edit"@, "target_path"@]) == Some(row_path),
        row_at(visible(s), row_path) == Some(row),
        row.kind == (KindView::ModelField { account, model_id, field }),
    ensures
        ({
            let place = seq!["config"@, "gate"@, "accounts"@, account, "models"@];
            let typed = text_or_empty(s, seq!["ui"@, "settings"@, "edit"@, "buffer"@]);
            let t = written(s, commit_writes(s));
            &&& t.at(place) == written(
                s,
                save_model_writes(s, account, model_id, field, typed),
            ).at(place)
            &&& path_at(t, seq!["ui"@, "settings"@, "focused"@]) == Some(row_path)
            &&& t.at(seq!["ui"@, "settings"@, "edit"@]) == Some(ValueView::Null)
            &&& forall|x: Seq<Seq<char>>|
                x != place && x != seq!["ui"@, "settings"@, "focused"@] && x != seq![
                    "ui"@,
                    "settings"@,
                    "edit"@,
                ] ==> #[trigger] t.at(x) == s.at(x)
        }),
{
    lemma_edit_words();
    let typed = text_or_empty(s, seq!["ui"@, "settings"@, "edit"@, "buffer"@]);
    let saved = save_model_writes(s, account, model_id, field, typed);
    let place = seq!["config"@, "gate"@, "accounts"@, account, "models"@];
    assert(saved.len() == 1 ==> saved[0].path == place);
    assert(place[0] == "config"@ && place.len() == 5);
    lemma_commit(s, row_path, saved);
    writes_show_at_their_paths(s, saved);
    let t = written(s, commit_writes(s));
    if saved.len() == 1 {
        assert(lasting(saved, 0));
    } else {
        assert(untouched(saved, place));
        assert(seq!["ui"@, "settings"@, "focused"@].len() == 3);
        assert(seq!["ui"@, "settings"@, "edit"@].len() == 3);
    }
    assert forall|x: Seq<Seq<char>>|
        x != place && x != seq!["ui"@, "settings"@, "focused"@] && x != seq![
            "ui"@,
            "settings"@,
            "edit"@,
        ] implies #[trigger] t.at(x) == s.at(x) by {
        assert(untouched(saved, x));
    }
}

/// Whether a store has just entered edit mode on a row, with a text to start
/// from.
pub open spec fn entered(
    s: SnapshotView,
    t: SnapshotView,
    row: Seq<Seq<char>>,
    text: Seq<char>,
) -> bool {
    &&& path_at(t, seq!["ui"@, "settings"@, "focused"@]) == Some(seq!["settings"@, "_edit"@])
    &&& path_at(t, seq!["ui"@, "settings"@, "edit"@, "target_path"@]) == Some(row)
    &&& path_at(t, seq!["ui"@, "settings"@, "edit"@, "cursor_saved"@]) == Some(row)
    &&& text_at(t, seq!["ui"@, "settings"@, "edit"@, "buffer"@]) == Some(text)
    &&& forall|x: Seq<Seq<char>>|
        x != seq!["ui"@, "settings"@, "focused"@] && !(x.len() == 4 && x[0] == "ui"@ && x[2]
            == "edit"@) ==> #[trigger] t.at(x) == s.at(x)
}

proof fn lemma_entered(s: SnapshotView, row: Seq<Seq<char>>, text: Seq<char>)
    requires
        path_ok(row),
    ensures
        entered(s, written(s, super::edit::enter_writes(row, text)), row, text),
{
    lemma_edit_words();
    let w = super::edit::enter_writes(row, text);
    let t = written(s, w);
    writes_show_at_their_paths(s, w);
    path_value_round_trip(row);
    let at = seq!["settings"@, "_edit"@];
    assert(path_ok(at)) by {
        assert forall|i: int| 0 <= i < at.len() implies component_ok(#[trigger] at[i]) by {}
    }
    path_value_round_trip(at);
    assert(w[0].path[3] == "target_path"@);
    assert(w[1].path[3] == "buffer"@);
    assert(w[2].path[3] == "cursor_saved"@);
    assert(w[0].path.len() == 4 && w[1].path.len() == 4 && w[2].path.len() == 4);
    assert(w[3].path.len() == 3);
    assert(lasting(w, 0));
    assert(lasting(w, 1));
    assert(lasting(w, 2));
    assert(lasting(w, 3));
    assert(w[0].path == seq!["ui"@, "settings"@, "edit"@, "target_path"@]);
    assert(w[1].path == seq!["ui"@, "settings"@, "edit"@, "buffer"@]);
    assert(w[2].path == seq!["ui"@, "settings"@, "edit"@, "cursor_saved"@]);
    assert(w[3].path == seq!["ui"@, "settings"@, "focused"@]);
    assert forall|x: Seq<Seq<char>>|
        x != seq!["ui"@, "settings"@, "focused"@] && !(x.len() == 4 && x[0] == "ui"@ && x[2]
            == "edit"@) implies #[trigger] t.at(x) == s.at(x) by {
        assert forall|i: int| 0 <= i < w.len() implies (#[trigger] w[i]).path != x by {}
        assert(untouched(w, x));
    }
}

/// Editing an endpoint starts from the one the account's provider has, editing a
/// key from the one that is stored: an unchanged text saved at once saves what
/// there was.
pub proof fn editing_starts_from_what_is_stored(
    s: SnapshotView,
    row: RowView,
    account: Seq<char>,
    a: AccountView,
    p: ProviderView,
)
    requires
        focused_row(s) == Some(row),
        path_ok(row.path),
        component_ok(account),
        s.at(seq!["config"@, "gate"@, "accounts"@, account]) == Some(ValueView::Account(a)),
        component_ok(a.provider),
        s.at(seq!["config"@, "gate"@, "providers"@, a.provider]) == Some(ValueView::Provider(p)),
    ensures
        row.kind == (KindView::AccountField { account, field: AccountField::Endpoint })
            ==> entered(
            s,
            written(s, begin_account_writes(s, AccountField::Endpoint)),
            row.path,
            p.endpoint,
        ),
        row.kind == (KindView::AccountField { account, field: AccountField::Key }) ==> entered(
            s,
            written(s, begin_account_writes(s, AccountField::Key)),
            row.path,
            text_or_empty(s, seq!["secret"@, "keys"@, account]),
        ),
        forall|field: AccountField|
            !(row.kind is AccountField && row.kind->AccountField_field == field) || (field
                != AccountField::Endpoint && field != AccountField::Key)
                ==> #[trigger] begin_account_writes(s, field).len() == 0,
{
    lemma_entered(s, row.path, p.endpoint);
    lemma_entered(s, row.path, text_or_empty(s, seq!["secret"@, "keys"@, account]));
}

/// Editing a figure starts from its decimal spelling, or from nothing where
/// there is none.
pub proof fn editing_a_figure_starts_from_it(
    s: SnapshotView,
    row: RowView,
    account: Seq<char>,
    models: Seq<ModelView>,
    i: int,
    field: ModelField,
)
    requires
        focused_row(s) == Some(row),
        path_ok(row.path),
        component_ok(account),
        models_at(s, seq!["config"@, "gate"@, "accounts"@, account, "models"@]) == Some(models),
        0 <= i < models.len(),
        forall|j: int| 0 <= j < i ==> (#[trigger] models[j]).id != models[i].id,
        row.kind == (KindView::ModelField { account, model_id: models[i].id, field }),
    ensures
        ({
            let figure = match field {
                ModelField::ContextSizeOverride => models[i].max_context_size,
                ModelField::OutputTokensOverride => models[i].max_output_tokens,
            };
            let text = match figure {
                Some(n) => decimal(n as nat),
                None => Seq::<char>::empty(),
            };
            entered(s, written(s, begin_model_writes(s)), row.path, text)
        }),
{
    let id = models[i].id;
    model_place_is_first(models, id);
    match model_place(models, id) {
        Some(k) => {
            if k < i {
                assert(models[k].id != id);
            } else if i < k {
                assert(models[i].id != id);
            }
        },
        None => {
            assert(models[i].id != id);
        },
    }
    lemma_entered(s, row.path, super::edit::figure_text(override_of(models[i], field)));
}

/// Typing appends the character to the text so far, on the row of an endpoint or
/// a key whatever it is, on that of a figure only if it is a digit, and on any
/// other row not at all. Deleting takes the last character off.
pub proof fn typing_appends_and_deleting_takes_off(s: SnapshotView, row: RowView, key: KeyChord)
    requires
        path_at(s, seq!["ui"@, "settings"@, "edit"@, "target_path"@]) == Some(row.path),
        row_at(visible(s), row.path) == Some(row),
    ensures
        ({
            let place = seq!["ui"@, "settings"@, "edit"@, "buffer"@];
            let before = text_or_empty(s, place);
            let t = written(s, insert_writes(s, Some(key)));
            let u = written(s, delete_writes(s));
            let takes = match key.code {
                KeyCodeRepr::Char(c) => row.kind is AccountField || (row.kind is ModelField && '0'
                    <= c <= '9'),
                _ => false,
            };
            &&& takes ==> text_at(t, place) == Some(before.push(key.code->Char_0))
            &&& !takes ==> t == s
            &&& before.len() > 0 ==> text_at(u, place) == Some(before.drop_last())
            &&& before.len() == 0 ==> u == s
            &&& forall|x: Seq<Seq<char>>|
                x != place ==> #[trigger] t.at(x) == s.at(x) && #[trigger] u.at(x) == s.at(x)
        }),
{
    let place = seq!["ui"@, "settings"@, "edit"@, "buffer"@];
    let w = insert_writes(s, Some(key));
    let v = delete_writes(s);
    if w.len() > 0 {
        assert(w =~= seq![w[0]]);
        one_write_shows_at_its_path(s, w[0]);
    }
    if v.len() > 0 {
        assert(v =~= seq![v[0]]);
        one_write_shows_at_its_path(s, v[0]);
    }
}

/// The text handler takes every visible character, with or without shift, and no
/// other key: none with control, alt or super held, no control character, and
/// no key without a character.
pub proof fn typing_claims_visible_characters(key: KeyChord)
    ensures
        claimed_char(key) is Some ==> key.code == KeyCodeRepr::Char(claimed_char(key)->0),
        claimed_char(key) is Some <==> key.code is Char && !key.modifiers.ctrl && !key.modifiers.alt
            && !key.modifiers.super_ && !((key.code->Char_0 as u32) < 32 || 127 <= (
        key.code->Char_0 as u32) < 160),
{
}

/// What the text handler types into a buffer is what the typing command types
/// into the buffer of the edit: the same character behind the same text, for the
/// same rows.
pub proof fn handler_types_like_the_command(s: SnapshotView, key: KeyChord)
    requires
        claimed_char(key) is Some,
    ensures
        typed_writes(
            s,
            seq!["ui"@, "settings"@, "edit"@, "buffer"@],
            seq!["ui"@, "settings"@, "edit"@, "target_path"@],
            claimed_char(key)->0,
        ) == insert_writes(s, Some(key)),
{
}

/// Leaving edit mode without saving returns the focus to where it was, and
/// changes nothing but that and the edit state.
pub proof fn cancelling_saves_nothing(s: SnapshotView, saved: Seq<Seq<char>>)
    requires
        path_at(s, seq!["ui"@, "settings"@, "edit"@, "cursor_saved"@]) == Some(saved),
    ensures
        ({
            let t = written(s, cancel_writes(s));
            &&& path_at(t, seq!["ui"@, "settings"@, "focused"@]) == Some(saved)
            &&& t.at(seq!["ui"@, "settings"@, "edit"@]) == Some(ValueView::Null)
            &&& forall|x: Seq<Seq<char>>|
                x != seq!["ui"@, "settings"@, "focused"@] && x != seq![
                    "ui"@,
                    "settings"@,
                    "edit"@,
                ] ==> #[trigger] t.at(x) == s.at(x)
        }),
{
    lemma_edit_words();
    let w = cancel_writes(s);
    let t = written(s, w);
    writes_show_at_their_paths(s, w);
    path_value_round_trip(saved);
    assert(w[0].path[2] != w[1].path[2]);
    assert(lasting(w, 0));
    assert(lasting(w, 1));
    assert forall|x: Seq<Seq<char>>|
        x != seq!["ui"@, "settings"@, "focused"@] && x != seq![
            "ui"@,
            "settings"@,
            "edit"@,
        ] implies #[trigger] t.at(x) == s.at(x) by {
        assert(untouched(w, x));
    }
}

/// However an account is stored, saving its endpoint goes to the record of the
/// provider it is bound to and to nothing else. The record keeps its dialect,
/// version and scheme; where there is none it starts with the provider's name
/// as its dialect.
pub proof fn endpoints_are_saved_with_the_bound_provider(
    s: SnapshotView,
    account: Seq<char>,
    text: Seq<char>,
)
    requires
        component_ok(account),
        component_ok(bound_provider(s, account)),
    ensures
        ({
            let name = bound_provider(s, account);
            let place = seq!["config"@, "gate"@, "providers"@, name];
            let before = s.at(place);
            let t = written(s, save_account_writes(s, account, AccountField::Endpoint, text));
            let p = t.at(place)->0->Provider_0;
            &&& t.at(place) is Some && t.at(place)->0 is Provider
            &&& p.endpoint == text
            &&& before is Some && before->0 is Provider ==> p.dialect
                == before->0->Provider_0.dialect && p.version == before->0->Provider_0.version
                && p.auth == before->0->Provider_0.auth
            &&& !(before is Some && before->0 is Provider) ==> p.dialect == name && p.version.len()
                == 0 && p.auth is None
            &&& forall|x: Seq<Seq<char>>| x != place ==> #[trigger] t.at(x) == s.at(x)
        }),
{
    let w = save_account_writes(s, account, AccountField::Endpoint, text);
    assert(w =~= seq![w[0]]);
    one_write_shows_at_its_path(s, w[0]);
}

/// Where nothing is stored of what is to be edited, editing starts from the empty
/// text; on a row of another kind, or on none, it does not start.
pub proof fn editing_starts_empty_where_nothing_is_stored(
    s: SnapshotView,
    row: RowView,
    account: Seq<char>,
)
    requires
        focused_row(s) == Some(row),
        path_ok(row.path),
        component_ok(account),
    ensures
        row.kind == (KindView::AccountField { account, field: AccountField::Endpoint })
            && assembled_account(s, account) is None ==> entered(
            s,
            written(s, begin_account_writes(s, AccountField::Endpoint)),
            row.path,
            Seq::empty(),
        ),
        row.kind == (KindView::AccountField { account, field: AccountField::Key }) && s.at(
            seq!["secret"@, "keys"@, account],
        ) is None ==> entered(
            s,
            written(s, begin_account_writes(s, AccountField::Key)),
            row.path,
            Seq::empty(),
        ),
        !(row.kind is ModelField) ==> begin_model_writes(s).len() == 0,
{
    lemma_entered(s, row.path, Seq::empty());
}

/// Without a focused row no edit starts, and without an edited row nothing is
/// typed.
pub proof fn no_edit_without_a_row(s: SnapshotView, field: AccountField, key: KeyChord)
    ensures
        focused_row(s) is None ==> begin_account_writes(s, field).len() == 0
            && begin_model_writes(s).len() == 0,
        path_at(s, seq!["ui"@, "settings"@, "edit"@, "target_path"@]) is None ==> insert_writes(
            s,
            Some(key),
        ).len() == 0,
        insert_writes(s, None).len() == 0,
{
}

/// Where no focus was kept, leaving edit mode without saving puts it on the
/// connections; and leaving it with saving, where no row is edited, is leaving
/// it without.
pub proof fn leaving_without_a_row_goes_to_the_connections(s: SnapshotView)
    ensures
        path_at(s, seq!["ui"@, "settings"@, "edit"@, "cursor_saved"@]) is None ==> path_at(
            written(s, cancel_writes(s)),
            seq!["ui"@, "settings"@, "focused"@],
        ) == Some(seq!["settings"@, "accounts"@]),
        path_at(s, seq!["ui"@, "settings"@, "edit"@, "target_path"@]) is None ==> commit_writes(s)
            == cancel_writes(s),
{
    lemma_edit_words();
    let w = cancel_writes(s);
    writes_show_at_their_paths(s, w);
    assert(w[0].path[2] != w[1].path[2]);
    assert(lasting(w, 0));
    let page = seq!["settings"@, "accounts"@];
    reveal_strlit("accounts");
    assert(component_ok("accounts"@));
    assert(path_ok(page)) by {
        assert forall|i: int| 0 <= i < page.len() implies component_ok(#[trigger] page[i]) by {}
    }
    path_value_round_trip(page);
}

} // verus!
