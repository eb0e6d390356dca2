//! Which connection or model the commands act on, and what they do to it.

use crate::assoc::{
    place_is_first, place_of, place_unique, putting_one_in_keeps_the_others,
    taking_one_out_keeps_the_others, what_is_taken_out_is_gone,
};
use crate::path::component_ok;
use crate::renderers::util::{key_at, keys_or_empty, path_at, role_at, text_at, text_or_empty};
use crate::snapshot::{
    lasting, one_write_shows_at_its_path, untouched, writes_show_at_their_paths, written,
    SnapshotView,
};
use crate::types::{
    auth_text_names_scheme, AccountView, AuthScheme, ModelKeyView, ProviderView, RoleView,
};
use crate::value::ValueView;
use crate::visible_rows::{visible, KindView, RowView};
use vstd::prelude::*;
use vstd::string::*;

use super::account_model::{
    account_in, bootstrap_writes, confirm_delete_writes, delete_confirm_writes, focused_row,
    model_in, refresh_writes, selected_account, selected_model, test_writes, toggle_default_writes,
    toggled,
};
use super::compose::{protocol_choices, CycleDir};
use super::step_laws::turning_leads_to_the_neighbour;
use super::selectors::{
    assembled_account, assembled_provider, bound_provider, current_dialect_is_offered,
    cycle_auth_writes, cycle_field_writes, cycle_protocol_writes, dialects, fork_writes,
    turned_dialect, turned_scheme,
};

verus! {

/// Whether the `i`-th row is the first at the focus.
pub open spec fn focus_is_on(s: SnapshotView, i: int) -> bool {
    &&& 0 <= i < visible(s).len()
    &&& path_at(s, seq!["ui"@, "settings"@, "focused"@]) == Some(visible(s)[i].path)
    &&& forall|j: int| 0 <= j < i ==> (#[trigger] visible(s)[j]).path != visible(s)[i].path
}

proof fn lemma_account_in(rows: Seq<RowView>, path: Seq<Seq<char>>, i: int)
    requires
        0 <= i < rows.len(),
        rows[i].path == path,
        forall|j: int| 0 <= j < i ==> (#[trigger] rows[j]).path != path,
    ensures
        match rows[i].kind {
            KindView::Account { name } => component_ok(name) ==> account_in(rows, path) == Some(
                name,
            ),
            KindView::AccountField { account, .. } => component_ok(account) ==> account_in(
                rows,
                path,
            ) == Some(account),
            _ => true,
        },
        match rows[i].kind {
            KindView::Model { account, model_id } => model_in(rows, path) == Some(
                ModelKeyView { account, model_id },
            ),
            KindView::ModelField { account, model_id, .. } => model_in(rows, path) == Some(
                ModelKeyView { account, model_id },
            ),
            _ => true,
        },
    decreases rows.len(),
{
    let rest = rows.drop_last();
    if i < rest.len() {
        assert(rest[i] == rows[i]);
        assert forall|j: int| 0 <= j < i implies (#[trigger] rest[j]).path != path by {
            assert(rest[j] == rows[j]);
        }
        lemma_account_in(rest, path, i);
    } else {
        lemma_nothing_in(rest, path);
        assert(rows.last() == rows[i]);
    }
}

proof fn lemma_nothing_in(rows: Seq<RowView>, path: Seq<Seq<char>>)
    requires
        forall|j: int|
            0 <= j < rows.len() ==> (#[trigger] rows[j]).path != path || !(rows[j].kind is Account
                || rows[j].kind is AccountField || rows[j].kind is Model
                || rows[j].kind is ModelField),
    ensures
        account_in(rows, path) is None,
        model_in(rows, path) is None,
    decreases rows.len(),
{
    if rows.len() > 0 {
        let rest = rows.drop_last();
        assert forall|j: int| 0 <= j < rest.len() implies (#[trigger] rest[j]).path != path || !(
        rest[j].kind is Account || rest[j].kind is AccountField || rest[j].kind is Model
            || rest[j].kind is ModelField) by {
            assert(rest[j] == rows[j]);
        }
        lemma_nothing_in(rest, path);
        assert(rows[rows.len() - 1] == rows.last());
    }
}

proof fn lemma_no_account_in(rows: Seq<RowView>, path: Seq<Seq<char>>)
    requires
        forall|j: int|
            0 <= j < rows.len() && (#[trigger] rows[j]).path == path ==> !(rows[j].kind is Account
                || rows[j].kind is AccountField),
    ensures
        account_in(rows, path) is None,
    decreases rows.len(),
{
    if rows.len() > 0 {
        let rest = rows.drop_last();
        assert forall|j: int| 0 <= j < rest.len() && (#[trigger] rest[j]).path == path implies !(
        rest[j].kind is Account || rest[j].kind is AccountField) by {
            assert(rest[j] == rows[j]);
        }
        lemma_no_account_in(rest, path);
        assert(rows[rows.len() - 1] == rows.last());
    }
}

proof fn lemma_no_model_in(rows: Seq<RowView>, path: Seq<Seq<char>>)
    requires
        forall|j: int|
            0 <= j < rows.len() && (#[trigger] rows[j]).path == path ==> !(rows[j].kind is Model
                || rows[j].kind is ModelField),
    ensures
        model_in(rows, path) is None,
    decreases rows.len(),
{
    if rows.len() > 0 {
        let rest = rows.drop_last();
        assert forall|j: int| 0 <= j < rest.len() && (#[trigger] rest[j]).path == path implies !(
        rest[j].kind is Model || rest[j].kind is ModelField) by {
            assert(rest[j] == rows[j]);
        }
        lemma_no_model_in(rest, path);
        assert(rows[rows.len() - 1] == rows.last());
    }
}

/// Whether a row belongs to a connection, as its own row or as one of its
/// fields'.
pub open spec fn belongs_to_account(row: RowView, name: Seq<char>) -> bool {
    match row.kind {
        KindView::Account { name: n } => n == name,
        KindView::AccountField { account, .. } => account == name,
        _ => false,
    }
}

/// Whether a row belongs to a model, as its own row or as one of its fields'.
pub open spec fn belongs_to_model(row: RowView, key: ModelKeyView) -> bool {
    match row.kind {
        KindView::Model { account, model_id } => key == (ModelKeyView { account, model_id }),
        KindView::ModelField { account, model_id, .. } => key == (ModelKeyView {
            account,
            model_id,
        }),
        _ => false,
    }
}

/// Commands act on the connection of the focused row, whatever was selected
/// before.
pub proof fn focused_connection_is_acted_on(s: SnapshotView, i: int, name: Seq<char>)
    requires
        focus_is_on(s, i),
        belongs_to_account(visible(s)[i], name),
        component_ok(name),
    ensures
        selected_account(s) == Some(name),
{
    lemma_account_in(visible(s), visible(s)[i].path, i);
}

/// Only where no row of a connection has the focus do commands act on the
/// connection that was selected before, if its name may stand in a path.
pub proof fn kept_connection_is_acted_on_otherwise(s: SnapshotView)
    requires
        forall|j: int|
            0 <= j < visible(s).len() && Some((#[trigger] visible(s)[j]).path) == path_at(
                s,
                seq!["ui"@, "settings"@, "focused"@],
            ) ==> !(visible(s)[j].kind is Account || visible(s)[j].kind is AccountField),
    ensures
        ({
            let kept = text_at(s, seq!["ui"@, "settings"@, "accounts"@, "selected"@]);
            selected_account(s) == if kept is Some && component_ok(kept->0) {
                kept
            } else {
                None
            }
        }),
{
    match path_at(s, seq!["ui"@, "settings"@, "focused"@]) {
        Some(p) => {
            assert forall|j: int|
                0 <= j < visible(s).len() && (#[trigger] visible(s)[j]).path == p implies !(
            visible(s)[j].kind is Account || visible(s)[j].kind is AccountField) by {}
            lemma_no_account_in(visible(s), p);
        },
        None => {},
    }
}

/// Commands act on the model of the focused row, whatever was selected before.
pub proof fn focused_model_is_acted_on(s: SnapshotView, i: int, key: ModelKeyView)
    requires
        focus_is_on(s, i),
        belongs_to_model(visible(s)[i], key),
    ensures
        selected_model(s) == Some(key),
{
    lemma_account_in(visible(s), visible(s)[i].path, i);
}

/// Only where no row of a model has the focus do commands act on the model that
/// was selected before.
pub proof fn kept_model_is_acted_on_otherwise(s: SnapshotView)
    requires
        forall|j: int|
            0 <= j < visible(s).len() && Some((#[trigger] visible(s)[j]).path) == path_at(
                s,
                seq!["ui"@, "settings"@, "focused"@],
            ) ==> !(visible(s)[j].kind is Model || visible(s)[j].kind is ModelField),
    ensures
        selected_model(s) == key_at(s, seq!["ui"@, "settings"@, "models"@, "selected"@]),
{
    match path_at(s, seq!["ui"@, "settings"@, "focused"@]) {
        Some(p) => {
            assert forall|j: int|
                0 <= j < visible(s).len() && (#[trigger] visible(s)[j]).path == p implies !(
            visible(s)[j].kind is Model || visible(s)[j].kind is ModelField) by {}
            lemma_no_model_in(visible(s), p);
        },
        None => {},
    }
}

/// The question about a deletion names the connection of the focused row, and
/// asking it changes nothing else.
pub proof fn deletion_is_asked_of_the_focused_connection(
    s: SnapshotView,
    i: int,
    name: Seq<char>,
)
    requires
        focus_is_on(s, i),
        belongs_to_account(visible(s)[i], name),
        component_ok(name),
    ensures
        ({
            let place = seq!["ui"@, "settings"@, "pending_delete"@];
            let t = written(s, delete_confirm_writes(s));
            &&& t.at(place) == Some(ValueView::String(name))
            &&& forall|x: Seq<Seq<char>>| x != place ==> #[trigger] t.at(x) == s.at(x)
        }),
{
    focused_connection_is_acted_on(s, i, name);
    let w = delete_confirm_writes(s);
    assert(w =~= seq![w[0]]);
    one_write_shows_at_its_path(s, w[0]);
}

/// A confirmed deletion clears the record of the connection that the question
/// named, and the question. Every other connection, and everything else, stays.
pub proof fn deletion_removes_what_was_asked(s: SnapshotView, name: Seq<char>)
    requires
        text_at(s, seq!["ui"@, "settings"@, "pending_delete"@]) == Some(name),
        component_ok(name),
    ensures
        ({
            let t = written(s, confirm_delete_writes(s));
            &&& t.at(seq!["config"@, "gate"@, "accounts"@, name]) == Some(ValueView::Null)
            &&& t.at(seq!["ui"@, "settings"@, "pending_delete"@]) == Some(ValueView::Null)
            &&& forall|x: Seq<Seq<char>>|
                x != seq!["config"@, "gate"@, "accounts"@, name] && x != seq![
                    "ui"@,
                    "settings"@,
                    "pending_delete"@,
                ] ==> #[trigger] t.at(x) == s.at(x)
        }),
{
    let w = confirm_delete_writes(s);
    let t = written(s, w);
    writes_show_at_their_paths(s, w);
    assert(w[0].path.len() == 4 && w[1].path.len() == 3);
    assert(lasting(w, 0));
    assert(lasting(w, 1));
    assert forall|x: Seq<Seq<char>>|
        x != seq!["config"@, "gate"@, "accounts"@, name] && x != seq![
            "ui"@,
            "settings"@,
            "pending_delete"@,
        ] implies #[trigger] t.at(x) == s.at(x) by {
        assert(untouched(w, x));
    }
}

/// Asking for a deletion and confirming it removes the connection of the focused
/// row, and no other.
pub proof fn asked_and_confirmed_the_focused_connection_goes(
    s: SnapshotView,
    i: int,
    name: Seq<char>,
)
    requires
        focus_is_on(s, i),
        belongs_to_account(visible(s)[i], name),
        component_ok(name),
    ensures
        ({
            let t = written(s, delete_confirm_writes(s));
            let u = written(t, confirm_delete_writes(t));
            &&& u.at(seq!["config"@, "gate"@, "accounts"@, name]) == Some(ValueView::Null)
            &&& forall|x: Seq<Seq<char>>|
                x != seq!["config"@, "gate"@, "accounts"@, name] && x != seq![
                    "ui"@,
                    "settings"@,
                    "pending_delete"@,
                ] ==> #[trigger] u.at(x) == s.at(x)
        }),
{
    deletion_is_asked_of_the_focused_connection(s, i, name);
    let t = written(s, delete_confirm_writes(s));
    deletion_removes_what_was_asked(t, name);
}

/// A test is asked for at the connection of the focused row.
pub proof fn the_focused_connection_is_tested(s: SnapshotView, i: int, name: Seq<char>)
    requires
        focus_is_on(s, i),
        belongs_to_account(visible(s)[i], name),
        component_ok(name),
    ensures
        ({
            let place = seq!["config"@, "gate"@, "accounts"@, name, "test_now"@];
            let t = written(s, test_writes(s));
            &&& t.at(place) == Some(ValueView::Null)
            &&& forall|x: Seq<Seq<char>>| x != place ==> #[trigger] t.at(x) == s.at(x)
            &&& test_writes(s).len() == 1
            &&& test_writes(s)[0].path == place
        }),
{
    focused_connection_is_acted_on(s, i, name);
    let w = test_writes(s);
    assert(w =~= seq![w[0]]);
    one_write_shows_at_its_path(s, w[0]);
}

/// A refresh is asked for at the connection of the focused model, and on the row
/// of a connection at that connection, as long as no model is kept as selected.
pub proof fn the_focused_catalog_is_refreshed(s: SnapshotView, i: int, name: Seq<char>)
    requires
        focus_is_on(s, i),
        component_ok(name),
        belongs_to_account(visible(s)[i], name) || (exists|id: Seq<char>|
            belongs_to_model(visible(s)[i], #[trigger] key_for(name, id))),
        belongs_to_account(visible(s)[i], name) ==> selected_model(s) is None,
    ensures
        refresh_writes(s).len() == 1,
        refresh_writes(s)[0].path == seq![
            "config"@,
            "gate"@,
            "accounts"@,
            name,
            "refresh_now"@,
        ],
        refresh_writes(s)[0].value == ValueView::Null,
{
    if belongs_to_account(visible(s)[i], name) {
        focused_connection_is_acted_on(s, i, name);
    } else {
        let id = choose|id: Seq<char>|
            belongs_to_model(visible(s)[i], #[trigger] key_for(name, id));
        focused_model_is_acted_on(s, i, key_for(name, id));
    }
}

/// The key of a connection's model.
pub open spec fn key_for(account: Seq<char>, model_id: Seq<char>) -> ModelKeyView {
    ModelKeyView { account, model_id }
}

/// Without anything to act on, no command asks for a write.
pub proof fn nothing_to_act_on_nothing_to_do(s: SnapshotView, dir: CycleDir)
    ensures
        selected_account(s) is None ==> delete_confirm_writes(s).len() == 0 && test_writes(s).len()
            == 0 && fork_writes(s).len() == 0 && cycle_auth_writes(s, dir).len() == 0
            && cycle_protocol_writes(s, dir).len() == 0,
        selected_model(s) is None ==> bootstrap_writes(s).len() == 0 && toggle_default_writes(
            s,
        ).len() == 0,
        selected_account(s) is None && selected_model(s) is None ==> refresh_writes(s).len() == 0,
{
}

/// The bootstrap role is bound to the model that is acted on, and read back as
/// such from both of its places; nothing else changes.
pub proof fn bootstrap_is_the_model_acted_on(s: SnapshotView, key: ModelKeyView)
    requires
        selected_model(s) == Some(key),
    ensures
        ({
            let role = Some(RoleView { account: key.account, model_id: key.model_id });
            let first = seq!["config"@, "gate"@, "completions"@, "bootstrap"@];
            let second = seq!["config"@, "gate"@, "completions"@, "primary"@];
            let t = written(s, bootstrap_writes(s));
            &&& role_at(t, first) == role
            &&& role_at(t, second) == role
            &&& forall|x: Seq<Seq<char>>|
                x != first && x != second ==> #[trigger] t.at(x) == s.at(x)
        }),
{
    let first = seq!["config"@, "gate"@, "completions"@, "bootstrap"@];
    let second = seq!["config"@, "gate"@, "completions"@, "primary"@];
    reveal_strlit("bootstrap");
    reveal_strlit("primary");
    assert("bootstrap"@.len() == 9 && "primary"@.len() == 7);
    let w = bootstrap_writes(s);
    let t = written(s, w);
    writes_show_at_their_paths(s, w);
    assert(w[0].path == first && w[1].path == second);
    assert(first[3] != second[3]);
    assert(lasting(w, 0));
    assert(lasting(w, 1));
    assert forall|x: Seq<Seq<char>>| x != first && x != second implies #[trigger] t.at(x)
        == s.at(x) by {
        assert(untouched(w, x));
    }
}

proof fn lemma_toggled_membership(keys: Seq<ModelKeyView>, k: ModelKeyView, y: ModelKeyView)
    ensures
        y != k ==> (toggled(keys, k).contains(y) <==> keys.contains(y)),
        !keys.contains(k) ==> toggled(keys, k).contains(k) && toggled(keys, k).len() == keys.len()
            + 1,
        keys.contains(k) ==> toggled(keys, k).len() == keys.len() - 1,
        keys.contains(k) && keys.no_duplicates() ==> !toggled(keys, k).contains(k),
{
    place_is_first(keys, k);
    match place_of(keys, k) {
        Some(i) => {
            if y != k {
                taking_one_out_keeps_the_others(keys, i, y);
            }
            if keys.no_duplicates() {
                what_is_taken_out_is_gone(keys, i);
            }
        },
        None => {
            putting_one_in_keeps_the_others(keys, k, y);
            putting_one_in_keeps_the_others(keys, k, k);
        },
    }
}

/// Toggling puts the model that is acted on into the set of models available by
/// default, or takes it out; every other model stays in the set or out of it,
/// and nothing else in the store changes.
pub proof fn toggling_changes_one_model(s: SnapshotView, k: ModelKeyView, y: ModelKeyView)
    requires
        selected_model(s) == Some(k),
    ensures
        ({
            let place = seq!["config"@, "gate"@, "completions"@, "default_available"@];
            let before = keys_or_empty(s, place);
            let t = written(s, toggle_default_writes(s));
            let after = keys_or_empty(t, place);
            &&& y != k ==> (after.contains(y) <==> before.contains(y))
            &&& !before.contains(k) ==> after.contains(k) && after.len() == before.len() + 1
            &&& before.contains(k) ==> after.len() == before.len() - 1
            &&& before.contains(k) && before.no_duplicates() ==> !after.contains(k)
            &&& after.len() == 0 ==> t.at(place) == Some(ValueView::Null)
            &&& forall|x: Seq<Seq<char>>| x != place ==> #[trigger] t.at(x) == s.at(x)
        }),
{
    let place = seq!["config"@, "gate"@, "completions"@, "default_available"@];
    super::account_model::toggling_again_writes_the_set_back(s);
    lemma_toggled_membership(keys_or_empty(s, place), k, y);
    let w = toggle_default_writes(s);
    assert(w =~= seq![w[0]]);
    one_write_shows_at_its_path(s, w[0]);
}

/// An account is bound to the provider its record names; without a record, to
/// the one stored on its own; without either, to the default.
pub proof fn binding_is_read_from_the_record(s: SnapshotView, account: Seq<char>)
    ensures
        ({
            let record = s.at(seq!["config"@, "gate"@, "accounts"@, account]);
            let child = s.at(seq!["config"@, "gate"@, "accounts"@, account, "provider"@]);
            &&& record is Some && record->0 is Account ==> bound_provider(s, account)
                == record->0->Account_0.provider
            &&& !(record is Some && record->0 is Account) && child is Some && child->0 is String
                ==> bound_provider(s, account) == child->0->String_0
            &&& !(record is Some && record->0 is Account) && !(child is Some && child->0 is String)
                ==> bound_provider(s, account) == "anthropic"@
        }),
{
}

/// The scheme a selector turns to: forward through `x-api-key`, `bearer-token`
/// and none, and round again.
pub proof fn schemes_turn_in_order(a: AuthScheme)
    ensures
        turned_scheme(a, CycleDir::Forward) == match a {
            AuthScheme::XApiKey => AuthScheme::BearerToken,
            AuthScheme::BearerToken => AuthScheme::NoAuth,
            AuthScheme::NoAuth => AuthScheme::XApiKey,
        },
        turned_scheme(a, CycleDir::Back) == match a {
            AuthScheme::XApiKey => AuthScheme::NoAuth,
            AuthScheme::BearerToken => AuthScheme::XApiKey,
            AuthScheme::NoAuth => AuthScheme::BearerToken,
        },
{
    let d = crate::types::auth_order();
    let i: int = match a {
        AuthScheme::XApiKey => 0,
        AuthScheme::BearerToken => 1,
        AuthScheme::NoAuth => 2,
    };
    assert(d[i] == a);
    assert(forall|j: int| 0 <= j < i ==> #[trigger] d[j] != a);
    place_unique(d, a, i);
    turning_leads_to_the_neighbour(3, i);
}

/// The dialect a selector turns to: from either preset to the other, and from
/// any other dialect forward to the first preset or back to the last.
pub proof fn dialects_turn_in_order(current: Seq<char>)
    ensures
        current == "anthropic"@ ==> turned_dialect(current, CycleDir::Forward) == "openai"@
            && turned_dialect(current, CycleDir::Back) == "openai"@,
        current == "openai"@ ==> turned_dialect(current, CycleDir::Forward) == "anthropic"@
            && turned_dialect(current, CycleDir::Back) == "anthropic"@,
        current.len() > 0 && current != "anthropic"@ && current != "openai"@ ==> turned_dialect(
            current,
            CycleDir::Forward,
        ) == "anthropic"@ && turned_dialect(current, CycleDir::Back) == "openai"@,
        current.len() == 0 ==> turned_dialect(current, CycleDir::Forward) == "openai"@
            && turned_dialect(current, CycleDir::Back) == "openai"@,
{
    reveal_strlit("anthropic");
    reveal_strlit("openai");
    assert("anthropic"@.len() == 9 && "openai"@.len() == 6);
    let presets = protocol_choices();
    assert(presets[0] == "anthropic"@ && presets[1] == "openai"@);
    current_dialect_is_offered(current);
    let d = dialects(current);
    if current == "anthropic"@ {
        assert(presets.contains(presets[0]));
        place_unique(d, current, 0);
        turning_leads_to_the_neighbour(2, 0);
    } else if current == "openai"@ {
        assert(presets.contains(presets[1]));
        place_unique(d, current, 1);
        turning_leads_to_the_neighbour(2, 1);
    } else if current.len() > 0 {
        assert(!presets.contains(current));
        assert(d[2] == current && d[0] == presets[0] && d[1] == presets[1]);
        place_unique(d, current, 2);
        turning_leads_to_the_neighbour(3, 2);
    } else {
        place_is_first(d, current);
        if d.contains(current) {
            let k = choose|k: int| 0 <= k < d.len() && d[k] == current;
            assert(d.len() == 2);
            assert(d[k] == presets[k]);
        }
        turning_leads_to_the_neighbour(2, 0);
    }
}

/// A provider stored field by field is read field by field: a missing field is
/// empty, and a scheme is read by its name. A record in its place is read as it
/// is, and where there is neither there is no provider.
pub proof fn providers_are_read_from_record_or_fields(s: SnapshotView, name: Seq<char>)
    requires
        component_ok(name),
    ensures
        ({
            let record = s.at(seq!["config"@, "gate"@, "providers"@, name]);
            let field = |f: Seq<char>|
                text_at(s, seq!["config"@, "gate"@, "providers"@, name, f]);
            let p = assembled_provider(s, name);
            let or_none = |o: Option<Seq<char>>|
                match o {
                    Some(t) => t,
                    None => Seq::<char>::empty(),
                };
            &&& record is Some && record->0 is Provider ==> p == Some(record->0->Provider_0)
            &&& !(record is Some && record->0 is Provider) && field("dialect"@) is None && field(
                "endpoint"@,
            ) is None && field("version"@) is None && field("auth"@) is None ==> p is None
            &&& !(record is Some && record->0 is Provider) && (field("dialect"@) is Some || field(
                "endpoint"@,
            ) is Some || field("version"@) is Some || field("auth"@) is Some) ==> {
                &&& p is Some
                &&& p->0.dialect == or_none(field("dialect"@))
                &&& p->0.endpoint == or_none(field("endpoint"@))
                &&& p->0.version == or_none(field("version"@))
                &&& field("auth"@) == Some("x-api-key"@) ==> p->0.auth == Some(AuthScheme::XApiKey)
                &&& field("auth"@) == Some("bearer-token"@) ==> p->0.auth == Some(
                    AuthScheme::BearerToken,
                )
                &&& field("auth"@) == Some("none"@) ==> p->0.auth == Some(AuthScheme::NoAuth)
                &&& field("auth"@) is None ==> p->0.auth is None
            }
        }),
{
    auth_text_names_scheme(AuthScheme::XApiKey);
    auth_text_names_scheme(AuthScheme::BearerToken);
    auth_text_names_scheme(AuthScheme::NoAuth);
}

/// An account stored field by field is bound to the provider that is stored for
/// it and has no display name. A record in its place is read as it is.
pub proof fn accounts_are_read_from_record_or_field(s: SnapshotView, name: Seq<char>)
    requires
        component_ok(name),
    ensures
        ({
            let record = s.at(seq!["config"@, "gate"@, "accounts"@, name]);
            let field = text_at(s, seq!["config"@, "gate"@, "accounts"@, name, "provider"@]);
            let a = assembled_account(s, name);
            &&& record is Some && record->0 is Account ==> a == Some(record->0->Account_0)
            &&& !(record is Some && record->0 is Account) && field is Some ==> a is Some
                && a->0.provider == field->0 && a->0.display_name is None
            &&& !(record is Some && record->0 is Account) && field is None ==> a is None
        }),
{
}

/// Turning the authentication selector gives the provider record of the
/// connection that is acted on the next scheme after the one in force, and
/// leaves the rest of the record, and of the store, alone.
pub proof fn turning_the_scheme_changes_the_scheme_only(
    s: SnapshotView,
    account: Seq<char>,
    a: AccountView,
    p: ProviderView,
    dir: CycleDir,
)
    requires
        selected_account(s) == Some(account),
        s.at(seq!["config"@, "gate"@, "accounts"@, account]) == Some(ValueView::Account(a)),
        component_ok(a.provider),
        s.at(seq!["config"@, "gate"@, "providers"@, a.provider]) == Some(ValueView::Provider(p)),
    ensures
        ({
            let place = seq!["config"@, "gate"@, "providers"@, a.provider];
            let in_force = match p.auth {
                Some(x) => x,
                None => if p.dialect == "anthropic"@ {
                    AuthScheme::XApiKey
                } else {
                    AuthScheme::BearerToken
                },
            };
            let next = match (in_force, dir) {
                (AuthScheme::XApiKey, CycleDir::Forward) => AuthScheme::BearerToken,
                (AuthScheme::BearerToken, CycleDir::Forward) => AuthScheme::NoAuth,
                (AuthScheme::NoAuth, CycleDir::Forward) => AuthScheme::XApiKey,
                (AuthScheme::XApiKey, CycleDir::Back) => AuthScheme::NoAuth,
                (AuthScheme::BearerToken, CycleDir::Back) => AuthScheme::XApiKey,
                (AuthScheme::NoAuth, CycleDir::Back) => AuthScheme::BearerToken,
            };
            let t = written(s, cycle_auth_writes(s, dir));
            &&& t.at(place) == Some(
                ValueView::Provider(
                    ProviderView {
                        dialect: p.dialect,
                        endpoint: p.endpoint,
                        version: p.version,
                        auth: Some(next),
                    },
                ),
            )
            &&& forall|x: Seq<Seq<char>>| x != place ==> #[trigger] t.at(x) == s.at(x)
        }),
{
    schemes_turn_in_order(p.effective_auth());
    let w = cycle_auth_writes(s, dir);
    assert(w =~= seq![w[0]]);
    one_write_shows_at_its_path(s, w[0]);
}

/// Turning the protocol selector gives the provider of the connection that is
/// acted on the next dialect after its own, and leaves the rest of the provider,
/// and of the store, alone. A provider stored field by field becomes a record.
pub proof fn turning_the_protocol_changes_the_dialect_only(
    s: SnapshotView,
    account: Seq<char>,
    a: AccountView,
    p: ProviderView,
    dir: CycleDir,
)
    requires
        selected_account(s) == Some(account),
        s.at(seq!["config"@, "gate"@, "accounts"@, account]) == Some(ValueView::Account(a)),
        component_ok(a.provider),
        assembled_provider(s, a.provider) == Some(p),
        p.dialect.len() > 0,
    ensures
        ({
            let place = seq!["config"@, "gate"@, "providers"@, a.provider];
            let next = if p.dialect == "anthropic"@ {
                "openai"@
            } else if p.dialect == "openai"@ {
                "anthropic"@
            } else if dir == CycleDir::Forward {
                "anthropic"@
            } else {
                "openai"@
            };
            let t = written(s, cycle_protocol_writes(s, dir));
            &&& t.at(place) == Some(
                ValueView::Provider(
                    ProviderView {
                        dialect: next,
                        endpoint: p.endpoint,
                        version: p.version,
                        auth: p.auth,
                    },
                ),
            )
            &&& forall|x: Seq<Seq<char>>| x != place ==> #[trigger] t.at(x) == s.at(x)
        }),
{
    dialects_turn_in_order(p.dialect);
    let w = cycle_protocol_writes(s, dir);
    assert(w =~= seq![w[0]]);
    one_write_shows_at_its_path(s, w[0]);
}

/// On the focused row of a protocol or a scheme, turning the field turns just
/// that selector; on any other row it does nothing.
pub proof fn turning_a_field_turns_its_selector(s: SnapshotView, row: RowView, dir: CycleDir)
    requires
        focused_row(s) == Some(row),
    ensures
        row.kind is AccountField && row.kind->AccountField_field
            == crate::types::AccountField::Protocol ==> cycle_field_writes(s, dir)
            == cycle_protocol_writes(s, dir),
        row.kind is AccountField && row.kind->AccountField_field == crate::types::AccountField::Auth
            ==> cycle_field_writes(s, dir) == cycle_auth_writes(s, dir),
        !(row.kind is AccountField) || (row.kind->AccountField_field
            != crate::types::AccountField::Protocol && row.kind->AccountField_field
            != crate::types::AccountField::Auth) ==> cycle_field_writes(s, dir).len() == 0,
{
}

/// Where the provider that the connection acted on is bound to has no record,
/// turning a selector starts one under its name: turning the scheme takes the
/// name as the dialect and goes on from the scheme of that dialect; turning the
/// protocol, where nothing at all is stored of the provider, goes on from the
/// name as the dialect.
pub proof fn turning_starts_a_record_where_there_is_none(
    s: SnapshotView,
    account: Seq<char>,
    dir: CycleDir,
)
    requires
        selected_account(s) == Some(account),
        component_ok(bound_provider(s, account)),
    ensures
        ({
            let name = bound_provider(s, account);
            let place = seq!["config"@, "gate"@, "providers"@, name];
            let none = Seq::<char>::empty();
            let t = written(s, cycle_auth_writes(s, dir));
            let u = written(s, cycle_protocol_writes(s, dir));
            let in_force = if name == "anthropic"@ {
                AuthScheme::XApiKey
            } else {
                AuthScheme::BearerToken
            };
            let next = match (in_force, dir) {
                (AuthScheme::XApiKey, CycleDir::Forward) => AuthScheme::BearerToken,
                (AuthScheme::BearerToken, CycleDir::Forward) => AuthScheme::NoAuth,
                (AuthScheme::XApiKey, CycleDir::Back) => AuthScheme::NoAuth,
                _ => AuthScheme::XApiKey,
            };
            let turned_to = if name == "anthropic"@ {
                "openai"@
            } else if name == "openai"@ || dir == CycleDir::Forward {
                "anthropic"@
            } else {
                "openai"@
            };
            &&& s.at(place) is None ==> t.at(place) == Some(
                ValueView::Provider(
                    ProviderView { dialect: name, endpoint: none, version: none, auth: Some(next) },
                ),
            )
            &&& assembled_provider(s, name) is None ==> u.at(place) == Some(
                ValueView::Provider(
                    ProviderView { dialect: turned_to, endpoint: none, version: none, auth: None },
                ),
            )
            &&& forall|x: Seq<Seq<char>>|
                x != place ==> #[trigger] t.at(x) == s.at(x) && #[trigger] u.at(x) == s.at(x)
        }),
{
    let name = bound_provider(s, account);
    schemes_turn_in_order(AuthScheme::XApiKey);
    schemes_turn_in_order(AuthScheme::BearerToken);
    dialects_turn_in_order(name);
    let w = cycle_auth_writes(s, dir);
    let v = cycle_protocol_writes(s, dir);
    assert(w =~= seq![w[0]]);
    assert(v =~= seq![v[0]]);
    one_write_shows_at_its_path(s, w[0]);
    one_write_shows_at_its_path(s, v[0]);
}

/// A refresh is asked of the connection whose model is acted on, if a model is;
/// otherwise of the connection that is acted on; and of no other.
pub proof fn refresh_goes_to_the_model_first(s: SnapshotView)
    ensures
        ({
            let t = written(s, refresh_writes(s));
            let model = selected_model(s);
            let account = selected_account(s);
            let asked = |name: Seq<char>|
                seq!["config"@, "gate"@, "accounts"@, name, "refresh_now"@];
            &&& model is Some && component_ok(model->0.account) ==> t.at(asked(model->0.account))
                == Some(ValueView::Null) && (forall|x: Seq<Seq<char>>|
                x != asked(model->0.account) ==> #[trigger] t.at(x) == s.at(x))
            &&& model is Some && !component_ok(model->0.account) ==> t == s
            &&& model is None && account is Some ==> t.at(asked(account->0)) == Some(
                ValueView::Null,
            ) && (forall|x: Seq<Seq<char>>| x != asked(account->0) ==> #[trigger] t.at(x) == s.at(x))
            &&& model is None && account is None ==> t == s
        }),
{
    let w = refresh_writes(s);
    if w.len() > 0 {
        assert(w =~= seq![w[0]]);
        one_write_shows_at_its_path(s, w[0]);
    }
}

/// Where no deletion was asked for nothing is deleted; where what was asked for
/// cannot be a connection only the question goes.
pub proof fn only_what_was_asked_is_deleted(s: SnapshotView)
    ensures
        ({
            let place = seq!["ui"@, "settings"@, "pending_delete"@];
            let asked = text_or_empty(s, place);
            let t = written(s, confirm_delete_writes(s));
            &&& asked.len() == 0 ==> t == s
            &&& asked.len() > 0 && !component_ok(asked) ==> t.at(place) == Some(ValueView::Null)
                && (forall|x: Seq<Seq<char>>| x != place ==> #[trigger] t.at(x) == s.at(x))
        }),
{
    let w = confirm_delete_writes(s);
    if w.len() == 1 {
        assert(w =~= seq![w[0]]);
        one_write_shows_at_its_path(s, w[0]);
    }
}

} // verus!
