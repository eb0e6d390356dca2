//! What the forms and the lists show of the store.

use crate::assoc::{place_is_first, place_of, place_unique};
use crate::commands::compose::accounts_root;
use crate::commands::compose_form::compose_form;
use crate::commands::compose_laws::drafted;
use crate::commands::highlight::{keys_of_account, keys_of_accounts};
use crate::commands::selectors::{current_dialect_is_offered, dialects};
use crate::path::component_ok;
use crate::renderers::util::{
    auth_at, diagnostics_at, field_at, key_at, models_or_empty, path_at, refresh_status_at, role_at,
    text_at, text_or_empty,
};
use crate::snapshot::SnapshotView;
use crate::text::decimal;
use crate::types::{
    auth_order, field_text_names_field, AccountField, AccountView, AuthScheme, ErrorsView,
    ModelField, ModelInfoSource, ModelKeyView, ModelView, ProviderView, RefreshStatusView, RoleView,
    TestStatusView,
};
use crate::value::ValueView;
use crate::view::{Color, Direction, FormValueView, NodeView, Sizing};
use vstd::prelude::*;
use vstd::string::*;

use super::account_detail::account_page;
use super::accounts_list::{account_item, account_items, accounts_page, primaries};
use super::index::{index_page, scheme_names};
use super::model_detail::model_page;
use super::models_list::{items_of_account, items_of_accounts, models_page};
use super::overlay_delete_account::delete_account_page;
use super::overlay_new_account::new_account_page;

verus! {

/// The form for a new connection has a row for the name, the protocol, the
/// endpoint, the scheme and the key, in this order. Texts show as typed so far,
/// with the text cursor behind them, and the key masked; a selector stands at
/// what is chosen, and is a dash until then. Each row shows the error that is
/// stored for its field.
pub proof fn draft_form_shows_the_draft(s: SnapshotView, e: ErrorsView)
    requires
        s.at(drafted("errors"@)) == Some(ValueView::Errors(e)),
    ensures
        ({
            let rows = compose_form(s).rows;
            &&& rows.len() == 5
            &&& rows[0].label == "Name"@ && rows[1].label == "Protocol"@ && rows[2].label
                == "Endpoint"@ && rows[3].label == "Auth"@ && rows[4].label == "Key"@
            &&& rows[0].error == e.name && rows[1].error == e.protocol && rows[2].error
                == e.endpoint && rows[3].error == e.auth && rows[4].error == e.key
            &&& rows[0].value is Text && !rows[0].value->masked && rows[0].value->value
                == text_or_empty(s, drafted("name"@))
            &&& rows[2].value is Text && !rows[2].value->masked && rows[2].value->value
                == text_or_empty(s, drafted("endpoint"@))
            &&& rows[4].value is Text && rows[4].value->masked && rows[4].value->value
                == text_or_empty(s, drafted("key"@))
            &&& rows[0].value->value.len() <= u32::MAX ==> rows[0].value->cursor
                == rows[0].value->value.len()
            &&& rows[2].value->value.len() <= u32::MAX ==> rows[2].value->cursor
                == rows[2].value->value.len()
            &&& rows[4].value->value.len() <= u32::MAX ==> rows[4].value->cursor
                == rows[4].value->value.len()
            &&& forall|i: int| 0 <= i < 5 ==> (#[trigger] rows[i]).hint is None
            &&& text_at(s, drafted("protocol"@)) is None ==> rows[1].value
                == FormValueView::ReadOnly("—"@)
            &&& text_at(s, drafted("protocol"@)) is Some && text_at(
                s,
                drafted("protocol"@),
            )->0.len() > 0 ==> rows[1].value is Selector && Some(
                rows[1].value->options[rows[1].value->current as int],
            ) == text_at(s, drafted("protocol"@))
            &&& auth_at(s, drafted("auth"@)) is None ==> rows[3].value == FormValueView::ReadOnly(
                "—"@,
            )
            &&& auth_at(s, drafted("auth"@)) is Some ==> rows[3].value is Selector
                && rows[3].value->options == seq!["x-api-key"@, "bearer-token"@, "none"@]
                && rows[3].value->current == (match auth_at(s, drafted("auth"@))->0 {
                AuthScheme::XApiKey => 0nat,
                AuthScheme::BearerToken => 1nat,
                AuthScheme::NoAuth => 2nat,
            })
        }),
{
    let rows = compose_form(s).rows;
    match text_at(s, drafted("protocol"@)) {
        Some(p) => {
            if p.len() > 0 {
                current_dialect_is_offered(p);
                place_is_first(dialects(p), p);
            }
        },
        None => {},
    }
    match auth_at(s, drafted("auth"@)) {
        Some(a) => {
            let d = auth_order();
            let i: int = match a {
                AuthScheme::XApiKey => 0,
                AuthScheme::BearerToken => 1,
                AuthScheme::NoAuth => 2,
            };
            assert(d[i] == a);
            assert(forall|j: int| 0 <= j < i ==> #[trigger] d[j] != a);
            place_unique(d, a, i);
            assert(scheme_names() =~= seq!["x-api-key"@, "bearer-token"@, "none"@]);
        },
        None => {},
    }
}

/// A cursor at a field of the form puts the form's focus on that field's row.
pub proof fn draft_form_focuses_the_field_at_the_cursor(s: SnapshotView, f: AccountField)
    requires
        path_at(s, seq!["ui"@, "settings"@, "focused"@]) == Some(
            seq!["settings"@, "_compose_form"@, crate::types::field_text(f)],
        ),
    ensures
        compose_form(s).focused == Some(
            match f {
                AccountField::Name => 0int,
                AccountField::Protocol => 1int,
                AccountField::Endpoint => 2int,
                AccountField::Auth => 3int,
                AccountField::Key => 4int,
            },
        ),
{
    field_text_names_field(f);
    let c = seq!["settings"@, "_compose_form"@, crate::types::field_text(f)];
    assert(c.subrange(0, 2) =~= seq!["settings"@, "_compose_form"@]);
    assert(c[2] == crate::types::field_text(f));
}

/// The page of a connection shows its name, the endpoint and the scheme of the
/// record it is bound to, and its key, masked. The protocol selector stands at
/// the provider it is bound to, where that is a preset.
pub proof fn connection_page_shows_the_connection(
    s: SnapshotView,
    name: Seq<char>,
    a: AccountView,
    p: ProviderView,
)
    requires
        text_at(s, seq!["ui"@, "settings"@, "accounts"@, "selected"@]) == Some(name),
        component_ok(name),
        s.at(seq!["config"@, "gate"@, "accounts"@, name]) == Some(ValueView::Account(a)),
        component_ok(a.provider),
        s.at(seq!["config"@, "gate"@, "providers"@, a.provider]) == Some(ValueView::Provider(p)),
    ensures
        ({
            let page = account_page(s);
            let form = page->Stack_children[0].0;
            let rows = form->Form_rows;
            let key = text_at(s, seq!["secret"@, "keys"@, name]);
            let scheme = match p.auth {
                Some(x) => x,
                None => if p.dialect == "anthropic"@ {
                    AuthScheme::XApiKey
                } else {
                    AuthScheme::BearerToken
                },
            };
            &&& page is Stack
            &&& page->Stack_children.len() == 2
            &&& form is Form
            &&& form->Form_title == Some("Account: "@ + name)
            &&& rows.len() == 5
            &&& rows[0].label == "Name"@ && rows[0].value == FormValueView::ReadOnly(name)
            &&& rows[1].label == "Protocol"@ && rows[1].value is Selector
                && rows[1].value->options == seq!["anthropic"@, "openai"@] && (a.provider
                == "openai"@ ==> rows[1].value->current == 1) && (a.provider != "openai"@
                ==> rows[1].value->current == 0)
            &&& rows[2].label == "Endpoint"@ && rows[2].value is Text && rows[2].value->value
                == p.endpoint && !rows[2].value->masked
            &&& rows[3].label == "Auth"@ && rows[3].value is Selector && rows[3].value->options
                == seq!["x-api-key"@, "bearer-token"@, "none"@] && rows[3].value->current == (
            match scheme {
                AuthScheme::XApiKey => 0nat,
                AuthScheme::BearerToken => 1nat,
                AuthScheme::NoAuth => 2nat,
            })
            &&& rows[4].label == "Key"@ && rows[4].value is Text && rows[4].value->masked
                && rows[4].value->value == (match key {
                Some(k) => k,
                None => Seq::<char>::empty(),
            })
        }),
{
    let choices = crate::commands::compose::protocol_choices();
    reveal_strlit("anthropic");
    reveal_strlit("openai");
    assert("anthropic"@.len() == 9 && "openai"@.len() == 6);
    assert(choices[0] == "anthropic"@ && choices[1] == "openai"@);
    if a.provider == "openai"@ {
        place_unique(choices, a.provider, 1);
    } else if a.provider == "anthropic"@ {
        place_unique(choices, a.provider, 0);
    } else {
        place_is_first(choices, a.provider);
    }
}

/// Below its form the page of a connection says how its test went, and how its
/// catalog was refreshed: each in its own line, a success in green with what was
/// reported, a failure in bold red with its reason. The form has its place above,
/// and the rest of the page is theirs.
pub proof fn connection_page_says_how_it_went(
    s: SnapshotView,
    name: Seq<char>,
    a: AccountView,
    test: TestStatusView,
    refresh: RefreshStatusView,
)
    requires
        text_at(s, seq!["ui"@, "settings"@, "accounts"@, "selected"@]) == Some(name),
        component_ok(name),
        s.at(seq!["config"@, "gate"@, "accounts"@, name]) == Some(ValueView::Account(a)),
        s.at(seq!["config"@, "gate"@, "accounts"@, name, "test_status"@]) == Some(
            ValueView::TestStatus(test),
        ),
        s.at(seq!["config"@, "gate"@, "accounts"@, name, "refresh_status"@]) == Some(
            ValueView::RefreshStatus(refresh),
        ),
    ensures
        ({
            let status = account_page(s)->Stack_children[1].0;
            let lines = status->lines;
            &&& status is StatusBlock
            &&& status->StatusBlock_title == "Status"@
            &&& status->scroll_offset == 0
            &&& account_page(s)->dir == Direction::Vertical
            &&& account_page(s)->Stack_children[0].1 == Sizing::Min(7)
            &&& account_page(s)->Stack_children[1].1 == Sizing::Fill
            &&& test is Failed <==> lines[0][0].style.modifiers.bold
            &&& refresh is Failed <==> lines[1][0].style.modifiers.bold
            &&& lines.len() == 2
            &&& lines[0].len() == 1
            &&& lines[1].len() == 1
            &&& match test {
                TestStatusView::Idle => lines[0][0].text == "Test: idle"@
                    && lines[0][0].style.fg is None,
                TestStatusView::Testing { .. } => lines[0][0].text == "Test: Testing…"@
                    && lines[0][0].style.fg is None,
                TestStatusView::Success { dialect, latency_ms, .. } => lines[0][0].text == "✓ "@
                    + dialect + " responded in "@ + decimal(latency_ms as nat) + "ms"@
                    && lines[0][0].style.fg == Some(Color::Green),
                TestStatusView::Failed { reason, .. } => lines[0][0].text == "✗ "@ + reason
                    && lines[0][0].style.fg == Some(Color::Red),
            }
            &&& match refresh {
                RefreshStatusView::Idle => lines[1][0].text == "Catalog: idle"@
                    && lines[1][0].style.fg is None,
                RefreshStatusView::Refreshing { .. } => lines[1][0].text
                    == "Catalog: Refreshing…"@ && lines[1][0].style.fg is None,
                RefreshStatusView::Success { models_added, models_updated, .. } => lines[1][0].text
                    == "✓ Catalog: +"@ + decimal(models_added as nat) + " added, "@ + decimal(
                    models_updated as nat,
                ) + " updated"@ && lines[1][0].style.fg == Some(Color::Green),
                RefreshStatusView::Failed { reason, .. } => lines[1][0].text == "✗ Catalog: "@
                    + reason && lines[1][0].style.fg == Some(Color::Red),
            }
        }),
{
}

proof fn lemma_account_item_held(s: SnapshotView, names: Seq<Seq<char>>, name: Seq<char>)
    requires
        names.contains(name),
        component_ok(name),
    ensures
        account_items(s, names).contains(account_item(s, name)),
    decreases names.len(),
{
    let rest = names.drop_last();
    let before = account_items(s, rest);
    let all = account_items(s, names);
    if names.last() == name {
        assert(all[before.len() as int] == account_item(s, name));
    } else {
        let k = choose|k: int| 0 <= k < names.len() && names[k] == name;
        assert(rest[k] == name);
        lemma_account_item_held(s, rest, name);
        let j = choose|j: int| 0 <= j < before.len() && before[j] == account_item(s, name);
        assert(all[j] == account_item(s, name));
    }
}

proof fn lemma_account_items_stand_for(s: SnapshotView, names: Seq<Seq<char>>)
    ensures
        forall|k: int|
            0 <= k < account_items(s, names).len() ==> names.contains(
                (#[trigger] account_items(s, names)[k]).primary,
            ) && component_ok(account_items(s, names)[k].primary) && account_items(s, names)[k]
                == account_item(s, account_items(s, names)[k].primary),
    decreases names.len(),
{
    if names.len() > 0 {
        let rest = names.drop_last();
        lemma_account_items_stand_for(s, rest);
        let before = account_items(s, rest);
        let all = account_items(s, names);
        assert forall|k: int| 0 <= k < all.len() implies names.contains(
            (#[trigger] all[k]).primary,
        ) && component_ok(all[k].primary) && all[k] == account_item(s, all[k].primary) by {
            if k < before.len() {
                assert(all[k] == before[k]);
                let j = choose|j: int| 0 <= j < rest.len() && rest[j] == before[k].primary;
                assert(names[j] == before[k].primary);
            } else {
                assert(names[names.len() - 1] == names.last());
            }
        }
    }
}

/// The list of connections has an item for each connection, and no other: its
/// name, the endpoint of the record it is bound to, and whether a key is stored
/// for it. The selected connection's item is the highlighted one.
pub proof fn connection_list_shows_every_connection(
    s: SnapshotView,
    name: Seq<char>,
    a: AccountView,
    p: ProviderView,
)
    requires
        s.children(seq!["config"@, "gate"@, "accounts"@]).contains(name),
        component_ok(name),
        s.at(seq!["config"@, "gate"@, "accounts"@, name]) == Some(ValueView::Account(a)),
        component_ok(a.provider),
        s.at(seq!["config"@, "gate"@, "providers"@, a.provider]) == Some(ValueView::Provider(p)),
    ensures
        ({
            let page = accounts_page(s);
            let items = page->List_items;
            let key = text_at(s, seq!["secret"@, "keys"@, name]);
            let selected = text_at(s, seq!["ui"@, "settings"@, "accounts"@, "selected"@]);
            &&& page is List
            &&& exists|k: int|
                0 <= k < items.len() && (#[trigger] items[k]).primary == name
                    && items[k].secondary == Some(p.endpoint) && items[k].badge == Some(
                    if key is Some && key->0.len() > 0 {
                        "✓key"@
                    } else {
                        "–"@
                    },
                )
            &&& forall|k: int|
                0 <= k < items.len() ==> s.children(
                    seq!["config"@, "gate"@, "accounts"@],
                ).contains((#[trigger] items[k]).primary)
            &&& selected == Some(name) ==> page->List_selected is Some
                && 0 <= page->List_selected->0 < items.len()
                && items[page->List_selected->0].primary == name
            &&& selected is None ==> page->List_selected is None
        }),
{
    let names = s.children(accounts_root());
    lemma_account_item_held(s, names, name);
    lemma_account_items_stand_for(s, names);
    let items = account_items(s, names);
    let k = choose|k: int| 0 <= k < items.len() && items[k] == account_item(s, name);
    assert(items[k].primary == name);
    place_is_first(primaries(items), name);
    assert(primaries(items)[k] == name);
    assert(primaries(items).contains(name));
    let j = place_of(primaries(items), name)->0;
    assert(primaries(items)[j] == items[j].primary);
}

proof fn lemma_keys_and_items(
    s: SnapshotView,
    names: Seq<Seq<char>>,
    account: Seq<char>,
    i: int,
)
    requires
        names.contains(account),
        component_ok(account),
        0 <= i < models_or_empty(
            s,
            seq!["config"@, "gate"@, "accounts"@, account, "models"@],
        ).len(),
    ensures
        ({
            let m = models_or_empty(
                s,
                seq!["config"@, "gate"@, "accounts"@, account, "models"@],
            )[i];
            exists|k: int|
                0 <= k < keys_of_accounts(s, names).len() && k < items_of_accounts(s, names).len()
                    && #[trigger] keys_of_accounts(s, names)[k] == (ModelKeyView {
                    account,
                    model_id: m.id,
                }) && items_of_accounts(s, names)[k] == items_of_account(s, account)[i]
        }),
    decreases names.len(),
{
    let rest = names.drop_last();
    let last = names.last();
    let models = models_or_empty(s, seq!["config"@, "gate"@, "accounts"@, account, "models"@]);
    let keys = keys_of_accounts(s, names);
    let items = items_of_accounts(s, names);
    let before = keys_of_accounts(s, rest);
    let shown = items_of_accounts(s, rest);
    lemma_same_length(s, rest);
    if last == account {
        let k = before.len() + i;
        assert(keys[k] == keys_of_account(s, account)[i]);
        assert(items[k] == items_of_account(s, account)[i]);
    } else {
        let j = choose|j: int| 0 <= j < names.len() && names[j] == account;
        assert(rest[j] == account);
        lemma_keys_and_items(s, rest, account, i);
        let k = choose|k: int|
            0 <= k < before.len() && k < shown.len() && #[trigger] before[k] == (ModelKeyView {
                account,
                model_id: models[i].id,
            }) && shown[k] == items_of_account(s, account)[i];
        assert(keys[k] == before[k]);
        assert(items[k] == shown[k]);
    }
}

proof fn lemma_same_length(s: SnapshotView, names: Seq<Seq<char>>)
    ensures
        keys_of_accounts(s, names).len() == items_of_accounts(s, names).len(),
    decreases names.len(),
{
    if names.len() > 0 {
        lemma_same_length(s, names.drop_last());
    }
}

/// The list of models has an item for each model of each connection: the
/// connection and the model's name, its id, and in the badge where its figures
/// come from, with a star on the primary model and a word on a refresh that is
/// going on or has failed.
pub proof fn model_list_shows_every_model(
    s: SnapshotView,
    account: Seq<char>,
    models: Seq<ModelView>,
    i: int,
)
    requires
        s.children(seq!["config"@, "gate"@, "accounts"@]).contains(account),
        component_ok(account),
        models == models_or_empty(s, seq!["config"@, "gate"@, "accounts"@, account, "models"@]),
        0 <= i < models.len(),
    ensures
        ({
            let m = models[i];
            let page = models_page(s);
            let items = page->List_items;
            let tag = match m.source {
                ModelInfoSource::Server => "server"@,
                ModelInfoSource::KnownTable => "known"@,
                ModelInfoSource::UserOverride => "override"@,
                ModelInfoSource::UserEntered => "entered"@,
            };
            let starred = if role_at(s, seq!["config"@, "completions"@, "primary"@]) == Some(
                RoleView { account, model_id: m.id },
            ) {
                tag + " ★"@
            } else {
                tag
            };
            let badge = match refresh_status_at(
                s,
                seq!["config"@, "gate"@, "accounts"@, account, "refresh_status"@],
            ) {
                Some(RefreshStatusView::Refreshing { .. }) => starred + " "@ + "refreshing"@,
                Some(RefreshStatusView::Failed { .. }) => starred + " "@ + "refresh-failed"@,
                _ => starred,
            };
            &&& page is List
            &&& exists|k: int|
                0 <= k < items.len() && (#[trigger] items[k]).primary == account + " / "@
                    + m.display_name && items[k].secondary == Some(m.id) && items[k].badge == Some(
                    badge,
                )
        }),
{
    let names = s.children(accounts_root());
    lemma_keys_and_items(s, names, account, i);
    let k = choose|k: int|
        0 <= k < keys_of_accounts(s, names).len() && k < items_of_accounts(s, names).len()
            && #[trigger] keys_of_accounts(s, names)[k] == (ModelKeyView {
            account,
            model_id: models[i].id,
        }) && items_of_accounts(s, names)[k] == items_of_account(s, account)[i];
    assert(models_page(s)->List_items[k] == items_of_account(s, account)[i]);
}

/// In the list of models the item of the selected model is highlighted, where it
/// is there.
pub proof fn selected_model_is_highlighted(
    s: SnapshotView,
    account: Seq<char>,
    models: Seq<ModelView>,
    i: int,
)
    requires
        s.children(seq!["config"@, "gate"@, "accounts"@]).contains(account),
        component_ok(account),
        models == models_or_empty(s, seq!["config"@, "gate"@, "accounts"@, account, "models"@]),
        0 <= i < models.len(),
        key_at(s, seq!["ui"@, "settings"@, "models"@, "selected"@]) == Some(
            ModelKeyView { account, model_id: models[i].id },
        ),
    ensures
        models_page(s)->List_selected is Some,
        0 <= models_page(s)->List_selected->0 < models_page(s)->List_items.len(),
        models_page(s)->List_items[models_page(s)->List_selected->0].secondary == Some(
            models[i].id,
        ),
{
    let names = s.children(accounts_root());
    let keys = keys_of_accounts(s, names);
    let key = ModelKeyView { account, model_id: models[i].id };
    lemma_keys_and_items(s, names, account, i);
    let k = choose|k: int|
        0 <= k < keys.len() && k < items_of_accounts(s, names).len() && #[trigger] keys[k] == key
            && items_of_accounts(s, names)[k] == items_of_account(s, account)[i];
    assert(keys[k] == key);
    assert(keys.contains(key));
    place_is_first(keys, key);
    super::models_list::items_stand_for_keys(s);
    let j = place_of(keys, key)->0;
    assert(items_of_accounts(s, names)[j].secondary == Some(keys[j].model_id));
}

/// The page of a model shows the selected model's id, name and figures, and
/// where the figures come from.
pub proof fn model_page_shows_the_model(
    s: SnapshotView,
    account: Seq<char>,
    models: Seq<ModelView>,
    i: int,
)
    requires
        key_at(s, seq!["ui"@, "settings"@, "models"@, "selected"@]) == Some(
            ModelKeyView { account, model_id: models[i].id },
        ),
        component_ok(account),
        models == models_or_empty(s, seq!["config"@, "gate"@, "accounts"@, account, "models"@]),
        0 <= i < models.len(),
        forall|j: int| 0 <= j < i ==> (#[trigger] models[j]).id != models[i].id,
    ensures
        ({
            let m = models[i];
            let page = model_page(s);
            let rows = page->Form_rows;
            let tag = match m.source {
                ModelInfoSource::Server => "server"@,
                ModelInfoSource::KnownTable => "known"@,
                ModelInfoSource::UserOverride => "override"@,
                ModelInfoSource::UserEntered => "entered"@,
            };
            &&& page is Form
            &&& page->Form_title == Some("Model: "@ + account + " / "@ + m.id)
            &&& rows.len() == 4
            &&& rows[0].value == FormValueView::ReadOnly(m.id)
            &&& rows[1].value == FormValueView::ReadOnly(m.display_name)
            &&& rows[2].label == "max_context_size"@ && rows[2].value is Text
                && rows[2].value->value == (match m.max_context_size {
                Some(n) => decimal(n as nat),
                None => "—"@,
            })
            &&& rows[3].label == "max_output_tokens"@ && rows[3].value is Text
                && rows[3].value->value == (match m.max_output_tokens {
                Some(n) => decimal(n as nat),
                None => "—"@,
            })
            &&& rows[2].hint == Some("["@ + tag + "]"@)
            &&& rows[3].hint == Some("["@ + tag + "]"@)
        }),
{
    let id = models[i].id;
    crate::commands::edit::model_place_is_first(models, id);
    match crate::commands::edit::model_place(models, id) {
        Some(k) => {
            if k < i {
                assert(models[k].id != id);
            } else if i < k {
                assert(models[i].id != id);
            }
        },
        None => {
            assert(models[i].id != id);
        },
    }
}

/// The question over the list of connections names the selected connection, the
/// prompt shows the name typed so far, and both lie over what is behind them.
pub proof fn dialogs_show_what_they_are_about(s: SnapshotView, backdrop: NodeView)
    ensures
        ({
            let page = delete_account_page(s, backdrop);
            let selected = text_at(s, seq!["ui"@, "settings"@, "accounts"@, "selected"@]);
            &&& page is Modal
            &&& *page->background == backdrop
            &&& *page->foreground is Text
            &&& selected is Some ==> (*page->foreground)->Text_0 == "Delete account '"@
                + selected->0 + "'? (y/n)"@
            &&& selected is None ==> (*page->foreground)->Text_0
                == "Nothing selected. Press Esc."@
        }),
        ({
            let page = new_account_page(s, backdrop);
            let rows = (*page->foreground)->Form_rows;
            &&& page is Modal
            &&& *page->background == backdrop
            &&& *page->foreground is Form
            &&& rows.len() == 1
            &&& rows[0].value is Text
            &&& rows[0].value->value == text_or_empty(
                s,
                seq!["ui"@, "settings"@, "new_account"@, "name_input"@],
            )
        }),
{
}

/// While the focus is at the question about a deletion, the settings tree opens
/// with the question, about the connection it names; otherwise it does not.
pub proof fn deletion_question_names_the_connection(s: SnapshotView)
    ensures
        ({
            let children = (*index_page(s)->content)->Stack_children;
            let asked = path_at(s, seq!["ui"@, "settings"@, "focused"@]) == Some(
                seq!["settings"@, "_confirm_delete"@],
            );
            let name = text_at(
                s,
                seq!["ui"@, "settings"@, "pending_delete"@, "target_account"@],
            );
            &&& index_page(s) is Frame
            &&& *index_page(s)->content is Stack
            &&& asked && name is Some ==> children.len() == 4 && children[0].0 is List
                && children[0].0->List_items.len() == 1 && children[0].0->List_items[0].primary
                == "Delete '"@ + name->0 + "'? y / n"@
            &&& !asked || name is None ==> children.len() == 3
        }),
{
}

/// On the page of a connection the field that has the focus is the one stored as
/// such, and the name at first. The text cursor stands in that field's text and
/// at the start of the others. Each row shows the error that the connection's
/// validation has for its field.
pub proof fn connection_page_shows_focus_and_errors(
    s: SnapshotView,
    name: Seq<char>,
    a: AccountView,
    e: ErrorsView,
    cursor: u32,
)
    requires
        text_at(s, seq!["ui"@, "settings"@, "accounts"@, "selected"@]) == Some(name),
        component_ok(name),
        s.at(seq!["config"@, "gate"@, "accounts"@, name]) == Some(ValueView::Account(a)),
        diagnostics_at(
            s,
            seq!["config"@, "gate"@, "accounts"@, name, "validation_status"@],
        ) == Some(e),
        s.at(seq!["ui"@, "settings"@, "edit_cursor"@]) == Some(ValueView::Integer(cursor as int)),
    ensures
        ({
            let form = account_page(s)->Stack_children[0].0;
            let rows = form->Form_rows;
            let f = match field_at(s, seq!["ui"@, "settings"@, "account_detail"@, "field"@]) {
                Some(f) => f,
                None => AccountField::Name,
            };
            &&& form->Form_focused == Some(
                match f {
                    AccountField::Name => 0int,
                    AccountField::Protocol => 1int,
                    AccountField::Endpoint => 2int,
                    AccountField::Auth => 3int,
                    AccountField::Key => 4int,
                },
            )
            &&& rows[0].error == e.name && rows[1].error == e.protocol && rows[2].error
                == e.endpoint && rows[3].error == e.auth && rows[4].error == e.key
            &&& rows[2].value->cursor == (if f == AccountField::Endpoint {
                cursor
            } else {
                0
            })
            &&& rows[4].value->cursor == (if f == AccountField::Key {
                cursor
            } else {
                0
            })
        }),
{
}

/// Without a selected connection, or with one that is gone, its page says so;
/// without a record for its provider the endpoint is empty and the scheme none;
/// without a stored text cursor it is at the start, without a validation there
/// is no error; and nothing has been tested or refreshed that nothing is stored
/// of.
pub proof fn connection_page_says_what_is_wanting(s: SnapshotView, name: Seq<char>)
    ensures
        ({
            let selected = text_at(s, seq!["ui"@, "settings"@, "accounts"@, "selected"@]);
            let record = s.at(seq!["config"@, "gate"@, "accounts"@, name]);
            let page = account_page(s);
            let rows = page->Stack_children[0].0->Form_rows;
            let lines = page->Stack_children[1].0->lines;
            &&& selected is None || !component_ok(selected->0) ==> page == NodeView::Text(
                "No account selected. Press Esc to return."@,
            )
            &&& selected == Some(name) && component_ok(name) && record is Some
                && record->0 is Account && s.at(seq!["ui"@, "settings"@, "edit_cursor"@]) is None
                ==> rows[2].value->cursor == 0 && rows[4].value->cursor == 0
            &&& selected == Some(name) && component_ok(name) && record is Some
                && record->0 is Account && s.at(
                seq!["config"@, "gate"@, "accounts"@, name, "validation_status"@],
            ) is None ==> forall|i: int| 0 <= i < 5 ==> (#[trigger] rows[i]).error is None
            &&& selected == Some(name) && component_ok(name) && !(record is Some
                && record->0 is Account) ==> page == NodeView::Text(
                "Account '"@ + name + "' was removed. Press Esc to return."@,
            )
            &&& selected == Some(name) && component_ok(name) && record is Some
                && record->0 is Account && component_ok(record->0->Account_0.provider) && s.at(
                seq!["config"@, "gate"@, "providers"@, record->0->Account_0.provider],
            ) is None ==> rows[2].value->value.len() == 0 && rows[3].value->current == 2
            &&& selected == Some(name) && component_ok(name) && record is Some
                && record->0 is Account && s.at(
                seq!["config"@, "gate"@, "accounts"@, name, "test_status"@],
            ) is None ==> lines[0][0].text == "Test: idle"@
            &&& selected == Some(name) && component_ok(name) && record is Some
                && record->0 is Account && s.at(
                seq!["config"@, "gate"@, "accounts"@, name, "refresh_status"@],
            ) is None ==> lines[1][0].text == "Catalog: idle"@
        }),
{
}

/// On the page of a model the figure that is stored as focused has the focus;
/// without a selected model, or with one that is gone, the page says so.
pub proof fn model_page_shows_focus_and_what_is_wanting(s: SnapshotView, k: ModelKeyView)
    ensures
        ({
            let selected = key_at(s, seq!["ui"@, "settings"@, "models"@, "selected"@]);
            let models = models_or_empty(
                s,
                seq!["config"@, "gate"@, "accounts"@, k.account, "models"@],
            );
            let page = model_page(s);
            let there = exists|i: int|
                0 <= i < models.len() && (#[trigger] models[i]).id == k.model_id;
            let field = s.at(seq!["ui"@, "settings"@, "model_detail"@, "field"@]);
            &&& selected is None ==> page == NodeView::Text(
                "No model selected. Press Esc to return."@,
            )
            &&& selected == Some(k) && component_ok(k.account) && !there ==> page
                == NodeView::Text("Model '"@ + k.model_id + "' was removed. Press Esc to return."@)
            &&& selected == Some(k) && component_ok(k.account) && there ==> page is Form && (field
                == Some(ValueView::ModelField(ModelField::ContextSizeOverride))
                ==> page->Form_focused == Some(2int)) && (field == Some(
                ValueView::ModelField(ModelField::OutputTokensOverride),
            ) ==> page->Form_focused == Some(3int)) && (field is None ==> page->Form_focused
                is None)
        }),
{
    let models = models_or_empty(s, seq!["config"@, "gate"@, "accounts"@, k.account, "models"@]);
    crate::commands::edit::model_place_is_first(models, k.model_id);
}

/// The prompt for a new connection has one row, which has the focus, with the
/// text cursor behind what is typed.
pub proof fn prompt_types_behind_the_name(s: SnapshotView, backdrop: NodeView)
    ensures
        ({
            let form = *new_account_page(s, backdrop)->foreground;
            let typed = text_or_empty(
                s,
                seq!["ui"@, "settings"@, "new_account"@, "name_input"@],
            );
            &&& form->Form_title == Some("New account"@)
            &&& form->Form_focused == Some(0int)
            &&& form->Form_rows[0].label == "Name"@
            &&& !form->Form_rows[0].value->masked
            &&& typed.len() <= u32::MAX ==> form->Form_rows[0].value->cursor == typed.len()
        }),
{
}

/// The form for a new connection has a focus only while the cursor is at one of
/// its fields.
pub proof fn draft_form_has_no_focus_elsewhere(s: SnapshotView)
    requires
        compose_form(s).focused is Some,
    ensures
        ({
            let cursor = path_at(s, seq!["ui"@, "settings"@, "focused"@]);
            &&& cursor is Some
            &&& cursor->0.len() == 3
            &&& cursor->0[0] == "settings"@
            &&& cursor->0[1] == "_compose_form"@
        }),
{
    let c = path_at(s, seq!["ui"@, "settings"@, "focused"@])->0;
    assert(c.subrange(0, 2)[0] == c[0]);
    assert(c.subrange(0, 2)[1] == c[1]);
    let form = seq!["settings"@, "_compose_form"@];
    assert(form[0] == "settings"@ && form[1] == "_compose_form"@);
}

/// The lists have their titles, and highlight nothing where nothing is selected
/// or what is selected is not in the list.
pub proof fn lists_highlight_only_what_is_there(s: SnapshotView)
    ensures
        ({
            let page = accounts_page(s);
            let selected = text_at(s, seq!["ui"@, "settings"@, "accounts"@, "selected"@]);
            &&& page->List_title == Some("Accounts"@)
            &&& page->List_selected is Some ==> selected is Some && s.children(
                seq!["config"@, "gate"@, "accounts"@],
            ).contains(selected->0)
        }),
        ({
            let page = models_page(s);
            let selected = key_at(s, seq!["ui"@, "settings"@, "models"@, "selected"@]);
            &&& page->List_title == Some("Models"@)
            &&& page->List_selected is Some ==> selected is Some && keys_of_accounts(
                s,
                s.children(seq!["config"@, "gate"@, "accounts"@]),
            ).contains(selected->0)
        }),
{
    let names = s.children(accounts_root());
    assert(accounts_root() == seq!["config"@, "gate"@, "accounts"@]);
    lemma_account_items_stand_for(s, names);
    let items = account_items(s, names);
    match text_at(s, seq!["ui"@, "settings"@, "accounts"@, "selected"@]) {
        Some(n) => {
            place_is_first(primaries(items), n);
            match place_of(primaries(items), n) {
                Some(k) => {
                    assert(primaries(items)[k] == items[k].primary);
                },
                None => {},
            }
        },
        None => {},
    }
    match key_at(s, seq!["ui"@, "settings"@, "models"@, "selected"@]) {
        Some(k) => {
            place_is_first(keys_of_accounts(s, names), k);
        },
        None => {},
    }
}

} // verus!
