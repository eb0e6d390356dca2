//! What the commands that go by a name do to the store.

use crate::assoc::lookup;
use crate::command_registry::{Command, CtxView};
use crate::dispatch::{dispatched, resolved, scope_chain};
use crate::keys::{BindingView, KeyChord, Screen};
use crate::renderers::SettingsRenderer;
use crate::registry::{ascent, Renderer};
use crate::renderers::highlighting::paths_distinct;
use crate::renderers::page_at;
use crate::renderers::route_laws::every_page_has_its_cursor;
use crate::renderers::util::{auth_at, bool_at, field_at, key_at, model_field_at, path_at, text_at};
use crate::snapshot::{one_write_shows_at_its_path, written, SnapshotView};
use crate::types::{field_text_names_field, AccountField, AuthScheme, ModelField, ModelKeyView};
use crate::value::ValueView;
use crate::visible_rows::visible;
use vstd::prelude::*;

use super::{account_model, compose, edit, manual_model, selectors, tree};
use super::compose::{focused_field, CycleDir};
use super::compose_laws::{
    draft_focus_moves_in_order, draft_selectors_turn_in_order, drafted, field_after,
};
use super::highlight::keys_of_accounts;
use super::navigation::path_value_round_trip;
use super::all_actions;
use super::settings_command::{
    action_called, action_called_is_among, action_cursor, action_id, action_writes, ids_differ,
    installed, others_are_not_called, Action, SettingsCommand,
};
use super::step_laws::{
    connection_highlight_moves_by_one, index_highlight_moves_by_one, model_highlight_moves_by_one,
    page_focus_moves_in_order, stepping_moves_to_the_row_below_or_above,
};
use super::tree_laws::cursors_ok;

verus! {

/// The command for the next row puts the focus right below the focused row, and
/// the one for the previous row right above, round the ends.
pub proof fn row_commands_go_down_and_up<R: Renderer>(s: SnapshotView, ctx: CtxView<R>, i: int)
    requires
        cursors_ok(s),
        paths_distinct(visible(s)),
        0 <= i < visible(s).len(),
        path_at(s, seq!["ui"@, "settings"@, "focused_row"@]) == Some(visible(s)[i].path),
    ensures
        ({
            let place = seq!["ui"@, "settings"@, "focused_row"@];
            let rows = visible(s);
            let n = rows.len() as int;
            let t = written(s, action_writes(Action::TreeNext, s, ctx));
            let u = written(s, action_writes(Action::TreePrev, s, ctx));
            &&& path_at(t, place) == Some(
                rows[if i + 1 < n {
                    i + 1
                } else {
                    0
                }].path,
            )
            &&& path_at(u, place) == Some(
                rows[if i > 0 {
                    i - 1
                } else {
                    n - 1
                }].path,
            )
        }),
{
    stepping_moves_to_the_row_below_or_above(s, i);
}

/// The commands for the next and the previous entry of the index move its
/// highlight on and back.
pub proof fn index_commands_go_on_and_back<R: Renderer>(s: SnapshotView, ctx: CtxView<R>, i: int)
    requires
        ({
            let n = s.children(seq!["settings"@, "index"@, "entries"@]).len();
            &&& 0 <= i < n
            &&& n <= i64::MAX
            &&& s.at(seq!["ui"@, "settings"@, "index"@, "selected"@]) == Some(
                ValueView::Integer(i),
            )
        }),
        i <= usize::MAX,
    ensures
        ({
            let n = s.children(seq!["settings"@, "index"@, "entries"@]).len() as int;
            let place = seq!["ui"@, "settings"@, "index"@, "selected"@];
            let t = written(s, action_writes(Action::HighlightIndexNext, s, ctx));
            let u = written(s, action_writes(Action::HighlightIndexPrev, s, ctx));
            &&& t.at(place) == Some(
                ValueView::Integer(
                    if i + 1 < n {
                        i + 1
                    } else {
                        0
                    },
                ),
            )
            &&& u.at(place) == Some(
                ValueView::Integer(
                    if i > 0 {
                        i - 1
                    } else {
                        n - 1
                    },
                ),
            )
        }),
{
    index_highlight_moves_by_one(s, i);
}

/// The commands for the next and the previous connection move the highlight on
/// and back.
pub proof fn connection_commands_go_on_and_back<R: Renderer>(
    s: SnapshotView,
    ctx: CtxView<R>,
    names: Seq<Seq<char>>,
    i: int,
)
    requires
        names == s.children(seq!["config"@, "gate"@, "accounts"@]),
        0 <= i < names.len(),
        text_at(s, seq!["ui"@, "settings"@, "accounts"@, "selected"@]) == Some(names[i]),
        forall|j: int| 0 <= j < i ==> #[trigger] names[j] != names[i],
    ensures
        ({
            let place = seq!["ui"@, "settings"@, "accounts"@, "selected"@];
            let n = names.len() as int;
            let t = written(s, action_writes(Action::HighlightAccountsNext, s, ctx));
            let u = written(s, action_writes(Action::HighlightAccountsPrev, s, ctx));
            &&& text_at(t, place) == Some(
                names[if i + 1 < n {
                    i + 1
                } else {
                    0
                }],
            )
            &&& text_at(u, place) == Some(
                names[if i > 0 {
                    i - 1
                } else {
                    n - 1
                }],
            )
        }),
{
    connection_highlight_moves_by_one(s, names, i);
}

/// The commands for the next and the previous model move the highlight on and
/// back.
pub proof fn model_commands_go_on_and_back<R: Renderer>(
    s: SnapshotView,
    ctx: CtxView<R>,
    keys: Seq<ModelKeyView>,
    i: int,
)
    requires
        keys == keys_of_accounts(s, s.children(seq!["config"@, "gate"@, "accounts"@])),
        0 <= i < keys.len(),
        key_at(s, seq!["ui"@, "settings"@, "models"@, "selected"@]) == Some(keys[i]),
        forall|j: int| 0 <= j < i ==> #[trigger] keys[j] != keys[i],
    ensures
        ({
            let place = seq!["ui"@, "settings"@, "models"@, "selected"@];
            let n = keys.len() as int;
            let t = written(s, action_writes(Action::HighlightModelsNext, s, ctx));
            let u = written(s, action_writes(Action::HighlightModelsPrev, s, ctx));
            &&& key_at(t, place) == Some(
                keys[if i + 1 < n {
                    i + 1
                } else {
                    0
                }],
            )
            &&& key_at(u, place) == Some(
                keys[if i > 0 {
                    i - 1
                } else {
                    n - 1
                }],
            )
        }),
{
    model_highlight_moves_by_one(s, keys, i);
}

/// The commands for the next and the previous field of the draft move its focus
/// on and back, and change nothing else.
pub proof fn draft_field_commands_go_on_and_back<R: Renderer>(s: SnapshotView, ctx: CtxView<R>)
    ensures
        ({
            let t = written(s, action_writes(Action::AccountsComposeFocusNext, s, ctx));
            let u = written(s, action_writes(Action::AccountsComposeFocusPrev, s, ctx));
            &&& focused_field(t) == field_after(focused_field(s))
            &&& field_after(focused_field(u)) == focused_field(s)
            &&& forall|x: Seq<Seq<char>>|
                x != drafted("focused_field"@) ==> #[trigger] t.at(x) == s.at(x) && #[trigger] u.at(
                    x,
                ) == s.at(x)
        }),
{
    draft_focus_moves_in_order(s);
}

/// The commands for the next and the previous option of the draft turn the
/// focused selector forward and back.
pub proof fn draft_option_commands_turn_on_and_back<R: Renderer>(
    s: SnapshotView,
    ctx: CtxView<R>,
)
    ensures
        ({
            let t = written(s, action_writes(Action::AccountsComposeCycleForward, s, ctx));
            let u = written(s, action_writes(Action::AccountsComposeCycleBack, s, ctx));
            let scheme = auth_at(s, drafted("auth"@));
            &&& focused_field(s) == AccountField::Auth && scheme is None ==> auth_at(
                t,
                drafted("auth"@),
            ) == Some(AuthScheme::XApiKey) && auth_at(u, drafted("auth"@)) == Some(
                AuthScheme::NoAuth,
            )
            &&& focused_field(s) == AccountField::Auth && scheme == Some(AuthScheme::XApiKey)
                ==> auth_at(t, drafted("auth"@)) == Some(AuthScheme::BearerToken) && auth_at(
                u,
                drafted("auth"@),
            ) == Some(AuthScheme::NoAuth)
            &&& focused_field(s) == AccountField::Auth && scheme == Some(AuthScheme::BearerToken)
                ==> auth_at(t, drafted("auth"@)) == Some(AuthScheme::NoAuth) && auth_at(
                u,
                drafted("auth"@),
            ) == Some(AuthScheme::XApiKey)
            &&& focused_field(s) == AccountField::Auth && scheme == Some(AuthScheme::NoAuth)
                ==> auth_at(t, drafted("auth"@)) == Some(AuthScheme::XApiKey) && auth_at(
                u,
                drafted("auth"@),
            ) == Some(AuthScheme::BearerToken)
            &&& focused_field(s) == AccountField::Protocol && text_at(s, drafted("protocol"@))
                is None ==> text_at(t, drafted("protocol"@)) == Some("anthropic"@) && text_at(
                u,
                drafted("protocol"@),
            ) == Some("openai"@)
        }),
{
    draft_selectors_turn_in_order(s, CycleDir::Forward);
    draft_selectors_turn_in_order(s, CycleDir::Back);
    reveal_strlit("anthropic");
    reveal_strlit("openai");
}

/// The commands for the next and the previous field of a connection's page move
/// its focus on and back, those of a model's page between its two figures, and
/// none of them changes anything else.
pub proof fn page_field_commands_go_on_and_back<R: Renderer>(s: SnapshotView, ctx: CtxView<R>)
    ensures
        ({
            let place = seq!["ui"@, "settings"@, "account_detail"@, "field"@];
            let f = match field_at(s, place) {
                Some(f) => f,
                None => AccountField::Name,
            };
            let t = written(s, action_writes(Action::FieldAccountNext, s, ctx));
            let u = written(s, action_writes(Action::FieldAccountPrev, s, ctx));
            &&& field_at(t, place) == Some(field_after(f))
            &&& field_at(u, place) is Some && field_after(field_at(u, place)->0) == f
            &&& forall|x: Seq<Seq<char>>|
                x != place ==> #[trigger] t.at(x) == s.at(x) && #[trigger] u.at(x) == s.at(x)
        }),
        ({
            let place = seq!["ui"@, "settings"@, "model_detail"@, "field"@];
            let m = match model_field_at(s, place) {
                Some(m) => m,
                None => ModelField::ContextSizeOverride,
            };
            let t = written(s, action_writes(Action::FieldModelNext, s, ctx));
            let u = written(s, action_writes(Action::FieldModelPrev, s, ctx));
            &&& model_field_at(t, place) is Some && model_field_at(t, place)->0 != m
            &&& model_field_at(u, place) is Some && model_field_at(u, place)->0 != m
            &&& forall|x: Seq<Seq<char>>|
                x != place ==> #[trigger] t.at(x) == s.at(x) && #[trigger] u.at(x) == s.at(x)
        }),
{
    page_focus_moves_in_order(s);
    let a = action_writes(Action::FieldAccountNext, s, ctx);
    let b = action_writes(Action::FieldAccountPrev, s, ctx);
    let c = action_writes(Action::FieldModelNext, s, ctx);
    let d = action_writes(Action::FieldModelPrev, s, ctx);
    one_write_shows_at_its_path(s, a[0]);
    one_write_shows_at_its_path(s, b[0]);
    one_write_shows_at_its_path(s, c[0]);
    one_write_shows_at_its_path(s, d[0]);
    assert(a =~= seq![a[0]] && b =~= seq![b[0]] && c =~= seq![c[0]] && d =~= seq![d[0]]);
    field_text_names_field(super::account_model::stepped_field(s, 1));
    field_text_names_field(super::account_model::stepped_field(s, -1));
}

/// Giving a draft up empties the place of the draft; calling a deletion off
/// empties the place of the question; saving, and showing or hiding the
/// shortcuts, each empty their own place, which asks for it. Nothing else
/// changes: no connection, provider, key or model is touched.
pub proof fn asking_commands_touch_one_place<R: Renderer>(s: SnapshotView, ctx: CtxView<R>)
    ensures
        ({
            let t = written(s, action_writes(Action::AccountsComposeCancel, s, ctx));
            let place = seq!["ui"@, "settings"@, "new_account"@];
            &&& t.at(place) == Some(ValueView::Null)
            &&& forall|x: Seq<Seq<char>>| x != place ==> #[trigger] t.at(x) == s.at(x)
        }),
        ({
            let t = written(s, action_writes(Action::AccountsConfirmCancel, s, ctx));
            let place = seq!["ui"@, "settings"@, "pending_delete"@];
            &&& t.at(place) == Some(ValueView::Null)
            &&& forall|x: Seq<Seq<char>>| x != place ==> #[trigger] t.at(x) == s.at(x)
        }),
        ({
            let t = written(s, action_writes(Action::AppSave, s, ctx));
            let place = seq!["config"@, "save"@];
            &&& t.at(place) == Some(ValueView::Null)
            &&& forall|x: Seq<Seq<char>>| x != place ==> #[trigger] t.at(x) == s.at(x)
        }),
        ({
            let t = written(s, action_writes(Action::ToggleShortcuts, s, ctx));
            let place = seq!["ui"@, "toggle_shortcuts"@];
            &&& t.at(place) == Some(ValueView::Null)
            &&& forall|x: Seq<Seq<char>>| x != place ==> #[trigger] t.at(x) == s.at(x)
        }),
{
    let a = action_writes(Action::AccountsComposeCancel, s, ctx);
    let b = action_writes(Action::AccountsConfirmCancel, s, ctx);
    let c = action_writes(Action::AppSave, s, ctx);
    let d = action_writes(Action::ToggleShortcuts, s, ctx);
    one_write_shows_at_its_path(s, a[0]);
    one_write_shows_at_its_path(s, b[0]);
    one_write_shows_at_its_path(s, c[0]);
    one_write_shows_at_its_path(s, d[0]);
    assert(a =~= seq![a[0]] && b =~= seq![b[0]] && c =~= seq![c[0]] && d =~= seq![d[0]]);
}

/// Going back from a page moves the cursor to where the page leads; from a page
/// that leads nowhere it asks to leave the screen. Nothing else changes.
pub proof fn going_back_follows_the_page<R: Renderer>(
    s: SnapshotView,
    ctx: CtxView<R>,
    cursor: Seq<Seq<char>>,
)
    requires
        path_at(s, seq!["ui"@, "settings"@, "cursor"@]) == Some(cursor),
        ascent(ctx.pages, cursor) is Some ==> crate::path::path_ok(ascent(ctx.pages, cursor)->0),
    ensures
        ({
            let t = written(s, action_writes(Action::NavAscend, s, ctx));
            let place = seq!["ui"@, "settings"@, "cursor"@];
            let exit = seq!["ui"@, "settings"@, "_request_exit"@];
            &&& ascent(ctx.pages, cursor) is Some ==> path_at(t, place) == ascent(
                ctx.pages,
                cursor,
            ) && (forall|x: Seq<Seq<char>>| x != place ==> #[trigger] t.at(x) == s.at(x))
            &&& ascent(ctx.pages, cursor) is None ==> bool_at(t, exit) == Some(true) && (forall|
                x: Seq<Seq<char>>,
            |
                x != exit ==> #[trigger] t.at(x) == s.at(x))
        }),
{
    let w = action_writes(Action::NavAscend, s, ctx);
    assert(w =~= seq![w[0]]);
    one_write_shows_at_its_path(s, w[0]);
    match ascent(ctx.pages, cursor) {
        Some(parent) => {
            path_value_round_trip(parent);
        },
        None => {},
    }
}

/// A command that belongs to a page belongs to one that is there; the commands
/// that go on and back through one thing belong to the same page.
pub proof fn commands_belong_to_pages(a: Action)
    ensures
        action_cursor(a) is Some ==> page_at(action_cursor(a)->0) is Some,
        action_cursor(Action::TreeNext) == action_cursor(Action::TreePrev),
        action_cursor(Action::TreeNext) == Some(seq!["settings"@, "index"@]),
        action_cursor(Action::HighlightIndexNext) == action_cursor(Action::HighlightIndexPrev),
        action_cursor(Action::HighlightAccountsNext) == action_cursor(
            Action::HighlightAccountsPrev,
        ),
        action_cursor(Action::HighlightModelsNext) == action_cursor(Action::HighlightModelsPrev),
        action_cursor(Action::FieldAccountNext) == action_cursor(Action::FieldAccountPrev),
        action_cursor(Action::FieldModelNext) == action_cursor(Action::FieldModelPrev),
        action_cursor(Action::SelectorCycleAuth) == action_cursor(Action::SelectorCycleProtocol),
        action_cursor(Action::AccountsComposeOpen) == action_cursor(Action::AccountsDeleteConfirm),
        action_cursor(Action::ModelsSetBootstrap) == action_cursor(Action::ModelsToggleDefault),
        action_cursor(Action::HighlightAccountsNext) == Some(seq!["settings"@, "accounts"@]),
        action_cursor(Action::HighlightModelsNext) == Some(seq!["settings"@, "models"@]),
        action_cursor(Action::FieldAccountNext) == Some(
            seq!["settings"@, "accounts"@, "_detail"@],
        ),
        action_cursor(Action::FieldModelNext) == Some(seq!["settings"@, "models"@, "_detail"@]),
{
    every_page_has_its_cursor();
}

/// Without a stored cursor there is no page to go back from, and nothing
/// happens.
pub proof fn no_page_no_way_back<R: Renderer>(s: SnapshotView, ctx: CtxView<R>)
    requires
        path_at(s, seq!["ui"@, "settings"@, "cursor"@]) is None,
    ensures
        action_writes(Action::NavAscend, s, ctx).len() == 0,
{
}

/// Every command that composes, edits, enters, deletes or turns something does to
/// the store what is said of that operation, with the key at hand where it types.
pub proof fn commands_do_what_they_are_called_for<R: Renderer>(s: SnapshotView, ctx: CtxView<R>)
    ensures
        action_writes(Action::AccountsComposeOpen, s, ctx) == compose::compose_open_writes(s),
        action_writes(Action::AccountsComposeInsertChar, s, ctx) == compose::compose_insert_writes(
            s,
            ctx.last_keystroke,
        ),
        action_writes(Action::AccountsComposeDeleteBack, s, ctx) == compose::compose_delete_writes(
            s,
        ),
        action_writes(Action::AccountsComposeCommit, s, ctx) == compose::compose_commit_writes(s),
        action_writes(Action::AccountsDeleteConfirm, s, ctx)
            == account_model::delete_confirm_writes(s),
        action_writes(Action::AccountsConfirmDelete, s, ctx)
            == account_model::confirm_delete_writes(s),
        action_writes(Action::AccountTest, s, ctx) == account_model::test_writes(s),
        action_writes(Action::AccountRefresh, s, ctx) == account_model::refresh_writes(s),
        action_writes(Action::ModelsSetBootstrap, s, ctx) == account_model::bootstrap_writes(s),
        action_writes(Action::ModelsToggleDefault, s, ctx) == account_model::toggle_default_writes(
            s,
        ),
        action_writes(Action::SelectorCycleProtocol, s, ctx) == selectors::cycle_protocol_writes(
            s,
            CycleDir::Forward,
        ),
        action_writes(Action::SelectorCycleAuth, s, ctx) == selectors::cycle_auth_writes(
            s,
            CycleDir::Forward,
        ),
        action_writes(Action::CycleFieldNext, s, ctx) == selectors::cycle_field_writes(
            s,
            CycleDir::Forward,
        ),
        action_writes(Action::CycleFieldPrev, s, ctx) == selectors::cycle_field_writes(
            s,
            CycleDir::Back,
        ),
        action_writes(Action::AccountsForkProvider, s, ctx) == selectors::fork_writes(s),
        action_writes(Action::ModelsAddManual, s, ctx) == manual_model::add_manual_writes(s),
        action_writes(Action::ModelsManualInsertChar, s, ctx)
            == manual_model::manual_insert_writes(s, ctx.last_keystroke),
        action_writes(Action::ModelsManualDeleteBack, s, ctx)
            == manual_model::manual_delete_writes(s),
        action_writes(Action::ModelsManualCommit, s, ctx) == manual_model::manual_commit_writes(s),
        action_writes(Action::ModelsManualCancel, s, ctx) == manual_model::manual_cancel_writes(),
        action_writes(Action::BeginEditAccountEndpoint, s, ctx) == edit::begin_account_writes(
            s,
            AccountField::Endpoint,
        ),
        action_writes(Action::BeginEditAccountKey, s, ctx) == edit::begin_account_writes(
            s,
            AccountField::Key,
        ),
        action_writes(Action::BeginEditModelField, s, ctx) == edit::begin_model_writes(s),
        action_writes(Action::InsertChar, s, ctx) == edit::insert_writes(s, ctx.last_keystroke),
        action_writes(Action::DeleteBack, s, ctx) == edit::delete_writes(s),
        action_writes(Action::Commit, s, ctx) == edit::commit_writes(s),
        action_writes(Action::Cancel, s, ctx) == edit::cancel_writes(s),
        action_writes(Action::TreeActivate, s, ctx) == tree::activate_writes(s),
        action_writes(Action::TreeCollapseOrAscend, s, ctx) == tree::collapse_writes(s),
{
}

/// The place of a command among those that are registered.
spec fn registered_place(a: Action) -> int {
    match a {
        Action::AccountsComposeOpen => 0,
        Action::AccountsComposeInsertChar => 1,
        Action::AccountsComposeDeleteBack => 2,
        Action::AccountsComposeCycleForward => 3,
        Action::AccountsComposeCycleBack => 4,
        Action::AccountsComposeFocusNext => 5,
        Action::AccountsComposeFocusPrev => 6,
        Action::AccountsComposeCommit => 7,
        Action::AccountsComposeCancel => 8,
        Action::AccountsDeleteConfirm => 9,
        Action::AccountsConfirmDelete => 10,
        Action::AccountsConfirmCancel => 11,
        Action::AccountTest => 12,
        Action::AccountRefresh => 13,
        Action::ModelsSetBootstrap => 14,
        Action::ModelsToggleDefault => 15,
        Action::AppSave => 16,
        Action::FieldAccountNext => 17,
        Action::SelectorCycleProtocol => 18,
        Action::SelectorCycleAuth => 19,
        Action::AccountsForkProvider => 20,
        Action::CycleFieldNext => 21,
        Action::CycleFieldPrev => 22,
        Action::ModelsAddManual => 23,
        Action::ModelsManualInsertChar => 24,
        Action::ModelsManualDeleteBack => 25,
        Action::ModelsManualCommit => 26,
        Action::ModelsManualCancel => 27,
        Action::BeginEditAccountEndpoint => 28,
        Action::BeginEditAccountKey => 29,
        Action::BeginEditModelField => 30,
        Action::InsertChar => 31,
        Action::DeleteBack => 32,
        Action::Commit => 33,
        Action::Cancel => 34,
        Action::HighlightIndexNext => 35,
        Action::HighlightIndexPrev => 36,
        Action::HighlightAccountsNext => 37,
        Action::HighlightAccountsPrev => 38,
        Action::HighlightModelsNext => 39,
        Action::HighlightModelsPrev => 40,
        Action::ToggleShortcuts => 41,
        Action::NavAscend => 42,
        Action::TreeNext => 43,
        Action::TreePrev => 44,
        Action::TreeActivate => 45,
        Action::TreeCollapseOrAscend => 46,
        _ => -1,
    }
}

/// Every command is registered and called by its own id, but for the ones that go
/// back through the fields of a connection's page and through those of a
/// model's page either way.
pub proof fn commands_are_called_by_their_ids(a: Action)
    ensures
        a != Action::FieldAccountPrev && a != Action::FieldModelNext && a != Action::FieldModelPrev
            ==> action_called(all_actions(), action_id(a)) == Some(a),
        a == Action::FieldAccountPrev || a == Action::FieldModelNext || a == Action::FieldModelPrev
            ==> action_called(all_actions(), action_id(a)) is None,
{
    let all = all_actions();
    let i = registered_place(a);
    if i >= 0 {
        assert(all[i] == a);
        action_called_is_among(all, action_id(a));
        match action_called(all, action_id(a)) {
            Some(b) => {
                if b != a {
                    ids_differ(a, b);
                }
            },
            None => {
                assert(action_id(all[i]) != action_id(a));
            },
        }
    } else {
        if all.contains(a) {
            let k = choose|k: int| 0 <= k < all.len() && all[k] == a;
            assert(registered_place(all[k]) == k);
        }
        others_are_not_called(all, a);
    }
}

/// On a screen that has its commands registered, a key that is bound to the id of
/// one of them does what that command does, with the key at hand.
pub proof fn keys_run_the_commands_they_are_bound_to(
    s: SnapshotView,
    key: KeyChord,
    commands: Seq<(Seq<char>, SettingsCommand)>,
    entries: Seq<BindingView>,
    pages: Seq<(Seq<Seq<char>>, SettingsRenderer)>,
    a: Action,
)
    requires
        installed(Seq::empty(), all_actions(), commands),
        resolved(entries, scope_chain(s), key) == Some(action_id(a)),
        a != Action::FieldAccountPrev,
        a != Action::FieldModelNext,
        a != Action::FieldModelPrev,
    ensures
        dispatched(s, key, commands, entries, pages) == action_writes(
            a,
            s,
            CtxView { pages, last_keystroke: Some(key) },
        ),
{
    commands_are_called_by_their_ids(a);
    assert(lookup(commands, action_id(a)) is Some);
}

/// The commands that hints name are shown under these titles, and belong to the
/// settings.
pub proof fn commands_are_shown_under_their_titles(c: SettingsCommand, a: Action)
    requires
        c.is_for(a),
    ensures
        ({
            let title = <SettingsCommand as Command<SettingsRenderer>>::shown_as(&c).name;
            &&& <SettingsCommand as Command<SettingsRenderer>>::belongs(&c).0 == Screen::Settings
            &&& <SettingsCommand as Command<SettingsRenderer>>::name(&c) == action_id(a)
            &&& a == Action::TreeNext ==> title == "Next Row"@
            &&& a == Action::TreePrev ==> title == "Previous Row"@
            &&& a == Action::TreeActivate ==> title == "Open / Toggle Row"@
            &&& a == Action::TreeCollapseOrAscend ==> title == "Collapse / Back"@
            &&& a == Action::AccountsComposeOpen ==> title == "New connection"@
            &&& a == Action::AccountTest ==> title == "Test Connection"@
            &&& a == Action::AccountRefresh ==> title == "Refresh Catalog"@
            &&& a == Action::AccountsDeleteConfirm ==> title == "Delete Connection…"@
            &&& a == Action::AccountsForkProvider ==> title == "Fork Provider"@
            &&& a == Action::ModelsSetBootstrap ==> title == "Set as Bootstrap"@
            &&& a == Action::ModelsToggleDefault ==> title == "Toggle Default-Available"@
            &&& a == Action::ModelsAddManual ==> title == "Add Model Manually"@
            &&& a == Action::ToggleShortcuts ==> title == "Show shortcuts"@
            &&& a == Action::AppSave ==> title == "Save"@
            &&& a == Action::Commit ==> title == "Commit"@
            &&& a == Action::Cancel ==> title == "Cancel"@
            &&& a == Action::AccountsConfirmDelete ==> title == "Confirm delete"@
            &&& a == Action::AccountsConfirmCancel ==> title == "Cancel delete"@
            &&& a == Action::AccountsComposeCommit ==> title == "Create connection"@
            &&& a == Action::AccountsComposeCancel ==> title == "Cancel new connection"@
        }),
{
}

} // verus!
