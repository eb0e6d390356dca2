//! What composing a new connection does to the store.

use crate::keys::KeyChord;
use crate::naming::stored_id;
use crate::path::{component_ok, path_ok};
use crate::renderers::util::{auth_at, bool_at, path_at, text_at, text_or_empty};
use crate::snapshot::{lasting, untouched, writes_show_at_their_paths, written, SnapshotView};
use crate::text::{sorting_is_ascending, trim_is_idempotent, trimmed, with_text_keeps_order};
use crate::types::{
    auth_order, auth_text_names_scheme, field_text_names_field, AccountField, AccountView,
    AuthScheme,
};
use crate::value::{texts_value_round_trip, ValueView};
use vstd::prelude::*;
use vstd::string::*;

use super::compose::{
    accounts_root, compose_commit_writes, compose_cycle_writes, compose_delete_writes,
    compose_insert_writes, compose_open_writes, current_errors, draft_errors, draft_path,
    expanded_with, field_order, field_place, focused_field, put_focus, ring, taken_names,
    turned_auth, turned_protocol, CycleDir,
};
use super::navigation::path_value_round_trip;
use super::selectors::bound_provider;
use super::step_laws::turning_leads_to_the_neighbour;
use super::tree::expanded_set;

verus! {

/// A place of the draft.
pub open spec fn drafted(part: Seq<char>) -> Seq<Seq<char>> {
    seq!["ui"@, "settings"@, "new_account"@, part]
}

proof fn lemma_draft_words()
    ensures
        "name"@.len() == 4,
        "name"@[0] == 'n',
        "protocol"@.len() == 8,
        "protocol"@[0] == 'p',
        "endpoint"@.len() == 8,
        "endpoint"@[0] == 'e',
        "auth"@.len() == 4,
        "auth"@[0] == 'a',
        "key"@.len() == 3,
        "active"@.len() == 6,
        "active"@[0] == 'a',
        "errors"@.len() == 6,
        "errors"@[0] == 'e',
        "focused_field"@.len() == 13,
        "ui"@.len() == 2,
        "config"@.len() == 6,
        "config"@[0] == 'c',
        "secret"@.len() == 6,
        "secret"@[0] == 's',
        "accounts"@.len() == 8,
        "providers"@.len() == 9,
        "focused"@.len() == 7,
        "expanded"@.len() == 8,
        "new_account"@.len() == 11,
        component_ok("settings"@),
        component_ok("accounts"@),
{
    reveal_strlit("name");
    reveal_strlit("protocol");
    reveal_strlit("endpoint");
    reveal_strlit("auth");
    reveal_strlit("key");
    reveal_strlit("active");
    reveal_strlit("errors");
    reveal_strlit("focused_field");
    reveal_strlit("ui");
    reveal_strlit("config");
    reveal_strlit("secret");
    reveal_strlit("accounts");
    reveal_strlit("providers");
    reveal_strlit("focused");
    reveal_strlit("expanded");
    reveal_strlit("new_account");
    reveal_strlit("settings");
}

proof fn lemma_expanded_with(s: SnapshotView, id: Seq<char>, y: Seq<char>)
    ensures
        expanded_with(s, id).contains(y) <==> expanded_set(s).contains(y) || y
            == "settings/accounts"@ || y == "settings/accounts/"@ + id,
{
    let kept = expanded_set(s);
    sorting_is_ascending(kept);
    let sorted = crate::text::sorted_texts(kept);
    with_text_keeps_order(sorted, "settings/accounts"@);
    let more = crate::text::with_text(sorted, "settings/accounts"@);
    with_text_keeps_order(more, "settings/accounts/"@ + id);
    let all = expanded_with(s, id);
    assert(sorted.contains(y) <==> kept.contains(y));
    assert(more.contains(y) <==> sorted.contains(y) || y == "settings/accounts"@);
    assert(all.contains(y) <==> more.contains(y) || y == "settings/accounts/"@ + id);
}

/// A draft that is made real becomes an account and a provider record under one
/// name, the one the typed name is stored under. The account is bound to that
/// record and shows the typed name. The record has the chosen protocol as its
/// dialect, the typed endpoint and the chosen scheme; of the dialects only
/// `anthropic` gets a version. The typed key is stored where the scheme sends
/// one. The new row has the focus and is expanded, as is what was. The draft is
/// cleared, and nothing else changes.
pub proof fn committed_connection_is_the_drafted_one(s: SnapshotView)
    requires
        compose_commit_writes(s).len() > 0,
    ensures
        ({
            let name = trimmed(text_or_empty(s, drafted("name"@)));
            let id = stored_id(name);
            let protocol = text_at(s, drafted("protocol"@));
            let endpoint = trimmed(text_or_empty(s, drafted("endpoint"@)));
            let auth = auth_at(s, drafted("auth"@));
            let key = trimmed(text_or_empty(s, drafted("key"@)));
            let account = seq!["config"@, "gate"@, "accounts"@, id];
            let provider = seq!["config"@, "gate"@, "providers"@, id];
            let secret = seq!["secret"@, "keys"@, id];
            let t = written(s, compose_commit_writes(s));
            &&& protocol is Some
            &&& auth is Some
            &&& t.at(account) == Some(
                ValueView::Account(AccountView { provider: id, display_name: Some(name) }),
            )
            &&& t.at(provider) is Some
            &&& t.at(provider)->0 is Provider
            &&& Some(t.at(provider)->0->Provider_0.dialect) == protocol
            &&& t.at(provider)->0->Provider_0.endpoint == endpoint
            &&& t.at(provider)->0->Provider_0.auth == auth
            &&& protocol == Some("anthropic"@) ==> t.at(provider)->0->Provider_0.version
                == "2023-06-01"@
            &&& protocol != Some("anthropic"@) ==> t.at(provider)->0->Provider_0.version.len() == 0
            &&& auth != Some(AuthScheme::NoAuth) ==> t.at(secret) == Some(ValueView::String(key))
            &&& auth == Some(AuthScheme::NoAuth) ==> t.at(secret) == s.at(secret)
            &&& path_at(t, seq!["ui"@, "settings"@, "focused"@]) == Some(
                seq!["settings"@, "accounts"@, id],
            )
            &&& forall|y: Seq<char>| #[trigger]
                expanded_set(t).contains(y) <==> expanded_set(s).contains(y) || y
                    == "settings/accounts"@ || y == "settings/accounts/"@ + id
            &&& t.at(seq!["ui"@, "settings"@, "new_account"@]) == Some(ValueView::Null)
            &&& forall|x: Seq<Seq<char>>|
                x != account && x != provider && x != secret && x != seq![
                    "ui"@,
                    "settings"@,
                    "focused"@,
                ] && x != seq!["ui"@, "settings"@, "expanded"@] && x != seq![
                    "ui"@,
                    "settings"@,
                    "new_account"@,
                ] ==> #[trigger] t.at(x) == s.at(x)
        }),
{
    lemma_draft_words();
    let name = trimmed(text_or_empty(s, drafted("name"@)));
    let id = stored_id(name);
    let auth = auth_at(s, drafted("auth"@))->0;
    let account = seq!["config"@, "gate"@, "accounts"@, id];
    let provider = seq!["config"@, "gate"@, "providers"@, id];
    let secret = seq!["secret"@, "keys"@, id];
    let focused = seq!["ui"@, "settings"@, "focused"@];
    let expanded = seq!["ui"@, "settings"@, "expanded"@];
    let root = seq!["ui"@, "settings"@, "new_account"@];
    assert(draft_path(AccountField::Name) == drafted("name"@));
    assert(draft_path(AccountField::Protocol) == drafted("protocol"@));
    assert(draft_path(AccountField::Endpoint) == drafted("endpoint"@));
    assert(draft_path(AccountField::Auth) == drafted("auth"@));
    assert(draft_path(AccountField::Key) == drafted("key"@));
    let w = compose_commit_writes(s);
    let t = written(s, w);
    let n = w.len() as int;
    writes_show_at_their_paths(s, w);
    assert(w[0].path == account);
    assert(w[1].path == provider);
    assert(w[n - 3].path == focused);
    assert(w[n - 2].path == expanded);
    assert(w[n - 1].path == root);
    assert(account[2] == "accounts"@ && provider[2] == "providers"@);
    assert(secret[0] == "secret"@ && focused[0] == "ui"@ && expanded[0] == "ui"@ && root[0]
        == "ui"@);
    assert(focused[2] == "focused"@ && expanded[2] == "expanded"@ && root[2] == "new_account"@);
    assert(account.len() == 4 && provider.len() == 4 && secret.len() == 3);
    if auth.needs_key() {
        assert(w[2].path == secret);
        assert(lasting(w, 2));
    } else {
        assert(untouched(w, secret));
    }
    assert(lasting(w, 0));
    assert(lasting(w, 1));
    assert(lasting(w, n - 3));
    assert(lasting(w, n - 2));
    assert(lasting(w, n - 1));
    let row = seq!["settings"@, "accounts"@, id];
    assert(path_ok(row)) by {
        assert forall|i: int| 0 <= i < row.len() implies component_ok(#[trigger] row[i]) by {}
    }
    path_value_round_trip(row);
    texts_value_round_trip(expanded_with(s, id));
    assert(expanded_set(t) == expanded_with(s, id));
    assert forall|y: Seq<char>| #[trigger] expanded_set(t).contains(y) <==> expanded_set(
        s,
    ).contains(y) || y == "settings/accounts"@ || y == "settings/accounts/"@ + id by {
        lemma_expanded_with(s, id, y);
    }
    assert forall|x: Seq<Seq<char>>|
        x != account && x != provider && x != secret && x != focused && x != expanded && x
            != root implies #[trigger] t.at(x) == s.at(x) by {
        assert(untouched(w, x));
    }
}

/// Two drafts that are made real with different protocols, endpoints or schemes
/// give records with different dialects, endpoints or schemes.
pub proof fn different_drafts_give_different_records(s: SnapshotView, t: SnapshotView)
    requires
        compose_commit_writes(s).len() > 0,
        compose_commit_writes(t).len() > 0,
    ensures
        ({
            let p = compose_commit_writes(s)[1].value->Provider_0;
            let q = compose_commit_writes(t)[1].value->Provider_0;
            &&& compose_commit_writes(s)[1].value is Provider
            &&& compose_commit_writes(t)[1].value is Provider
            &&& text_at(s, drafted("protocol"@)) != text_at(t, drafted("protocol"@)) ==> p.dialect
                != q.dialect
            &&& auth_at(s, drafted("auth"@)) != auth_at(t, drafted("auth"@)) ==> p.auth != q.auth
            &&& trimmed(text_or_empty(s, drafted("endpoint"@))) != trimmed(
                text_or_empty(t, drafted("endpoint"@)),
            ) ==> p.endpoint != q.endpoint
        }),
{
    assert(draft_path(AccountField::Protocol) == drafted("protocol"@));
    assert(draft_path(AccountField::Endpoint) == drafted("endpoint"@));
    assert(draft_path(AccountField::Auth) == drafted("auth"@));
}

/// A draft is made real exactly when it has a name of at most 256 characters
/// that no connection is stored under and no connection's provider is called,
/// a protocol, an endpoint, a scheme, a key if the scheme sends one, and what
/// the name is stored under may stand in a path.
pub proof fn complete_drafts_are_committed(s: SnapshotView)
    ensures
        ({
            let name = trimmed(text_or_empty(s, drafted("name"@)));
            let id = stored_id(name);
            let auth = auth_at(s, drafted("auth"@));
            let names = s.children(seq!["config"@, "gate"@, "accounts"@]);
            compose_commit_writes(s).len() > 0 <==> {
                &&& 0 < name.len() <= 256
                &&& !names.contains(id)
                &&& forall|n: Seq<char>| names.contains(n) ==> #[trigger] bound_provider(s, n) != id
                &&& text_at(s, drafted("protocol"@)) is Some
                &&& trimmed(text_or_empty(s, drafted("endpoint"@))).len() > 0
                &&& auth is Some
                &&& auth == Some(AuthScheme::NoAuth) || trimmed(
                    text_or_empty(s, drafted("key"@)),
                ).len() > 0
                &&& component_ok(id)
            }
        }),
{
    assert(draft_path(AccountField::Name) == drafted("name"@));
    assert(draft_path(AccountField::Protocol) == drafted("protocol"@));
    assert(draft_path(AccountField::Endpoint) == drafted("endpoint"@));
    assert(draft_path(AccountField::Auth) == drafted("auth"@));
    assert(draft_path(AccountField::Key) == drafted("key"@));
    trim_is_idempotent(text_or_empty(s, drafted("name"@)));
    trim_is_idempotent(text_or_empty(s, drafted("endpoint"@)));
    trim_is_idempotent(text_or_empty(s, drafted("key"@)));
    let name = trimmed(text_or_empty(s, drafted("name"@)));
    let id = stored_id(name);
    let names = s.children(seq!["config"@, "gate"@, "accounts"@]);
    assert(names == s.children(accounts_root()));
    let taken = taken_names(s);
    assert(taken.contains(id) <==> names.contains(id) || (exists|n: Seq<char>|
        names.contains(n) && #[trigger] bound_provider(s, n) == id)) by {
        if taken.contains(id) {
            let k = choose|k: int| 0 <= k < taken.len() && taken[k] == id;
            if k < names.len() {
                assert(names[k] == id);
            } else {
                let n = names[k - names.len()];
                assert(names.contains(n));
                assert(bound_provider(s, n) == id);
            }
        }
        if names.contains(id) {
            let k = choose|k: int| 0 <= k < names.len() && names[k] == id;
            assert(taken[k] == id);
        }
        if exists|n: Seq<char>| names.contains(n) && #[trigger] bound_provider(s, n) == id {
            let n = choose|n: Seq<char>| names.contains(n) && #[trigger] bound_provider(s, n) == id;
            let k = choose|k: int| 0 <= k < names.len() && names[k] == n;
            assert(taken[names.len() + k] == id);
        }
    }
}

/// Each field of a draft is found wanting on its own: a name that is missing,
/// too long or taken, a protocol or a scheme that is missing, an endpoint that
/// is missing, and a key that is missing though the scheme sends one.
pub proof fn errors_say_which_field_is_wanting(
    name: Seq<char>,
    protocol: Option<Seq<char>>,
    endpoint: Seq<char>,
    auth: Option<AuthScheme>,
    key: Seq<char>,
    existing: Seq<Seq<char>>,
)
    ensures
        ({
            let e = draft_errors(name, protocol, endpoint, auth, key, existing);
            let t = trimmed(name);
            &&& t.len() == 0 ==> e.name == Some("required"@)
            &&& t.len() > 256 ==> e.name == Some("too long (max 256 chars)"@)
            &&& 0 < t.len() <= 256 && existing.contains(stored_id(t)) ==> e.name == Some(
                "'"@ + t + "' already exists"@,
            )
            &&& 0 < t.len() <= 256 && !existing.contains(stored_id(t)) ==> e.name is None
            &&& protocol is None ==> e.protocol == Some("select a protocol"@)
            &&& protocol is Some ==> e.protocol is None
            &&& trimmed(endpoint).len() == 0 ==> e.endpoint == Some("required"@)
            &&& trimmed(endpoint).len() > 0 ==> e.endpoint is None
            &&& auth is None ==> e.auth == Some("select an auth scheme"@)
            &&& auth is Some ==> e.auth is None
            &&& (auth == Some(AuthScheme::XApiKey) || auth == Some(AuthScheme::BearerToken))
                && trimmed(key).len() == 0 ==> e.key == Some("required for this auth scheme"@)
            &&& auth is None || auth == Some(AuthScheme::NoAuth) || trimmed(key).len() > 0
                ==> e.key is None
        }),
{
}

/// Opening a draft empties every field, leaves both selectors unset, and puts
/// the focus on the name; such a draft cannot be made real. Nothing outside the
/// draft changes.
pub proof fn opened_draft_is_empty(s: SnapshotView)
    ensures
        ({
            let t = written(s, compose_open_writes(s));
            let none = Seq::<char>::empty();
            &&& bool_at(t, drafted("active"@)) == Some(true)
            &&& text_at(t, drafted("name"@)) == Some(none)
            &&& text_at(t, drafted("protocol"@)) is None
            &&& text_at(t, drafted("endpoint"@)) == Some(none)
            &&& text_at(t, drafted("auth"@)) is None
            &&& text_at(t, drafted("key"@)) == Some(none)
            &&& focused_field(t) == AccountField::Name
            &&& compose_commit_writes(t).len() == 0
            &&& forall|x: Seq<Seq<char>>|
                !(x.len() == 4 && x[0] == "ui"@ && x[2] == "new_account"@) ==> #[trigger] t.at(x)
                    == s.at(x)
        }),
{
    lemma_draft_words();
    let w = compose_open_writes(s);
    let t = written(s, w);
    writes_show_at_their_paths(s, w);
    assert(w[0].path == drafted("active"@) && w[0].path[3] == "active"@);
    assert(w[1].path == drafted("focused_field"@) && w[1].path[3] == "focused_field"@);
    assert(w[2].path == drafted("name"@) && w[2].path[3] == "name"@);
    assert(w[3].path == drafted("protocol"@) && w[3].path[3] == "protocol"@);
    assert(w[4].path == drafted("endpoint"@) && w[4].path[3] == "endpoint"@);
    assert(w[5].path == drafted("auth"@) && w[5].path[3] == "auth"@);
    assert(w[6].path == drafted("key"@) && w[6].path[3] == "key"@);
    assert(w[7].path == drafted("errors"@) && w[7].path[3] == "errors"@);
    assert(lasting(w, 0));
    assert(lasting(w, 1));
    assert(lasting(w, 2));
    assert(lasting(w, 3));
    assert(lasting(w, 4));
    assert(lasting(w, 5));
    assert(lasting(w, 6));
    assert(draft_path(AccountField::Protocol) == drafted("protocol"@));
    complete_drafts_are_committed(t);
    assert forall|x: Seq<Seq<char>>|
        !(x.len() == 4 && x[0] == "ui"@ && x[2] == "new_account"@) implies #[trigger] t.at(x)
        == s.at(x) by {
        assert forall|i: int| 0 <= i < w.len() implies (#[trigger] w[i]).path != x by {
            assert(w[i].path.len() == 4 && w[i].path[0] == "ui"@ && w[i].path[2]
                == "new_account"@);
        }
        assert(untouched(w, x));
    }
}

/// The field after a field of the draft, round the end.
pub open spec fn field_after(f: AccountField) -> AccountField {
    match f {
        AccountField::Name => AccountField::Protocol,
        AccountField::Protocol => AccountField::Endpoint,
        AccountField::Endpoint => AccountField::Auth,
        AccountField::Auth => AccountField::Key,
        AccountField::Key => AccountField::Name,
    }
}

/// Moving the draft's focus on goes from the name to the protocol, the endpoint,
/// the scheme and the key, and round to the name; moving it back goes the other
/// way.
pub proof fn draft_focus_moves_in_order(s: SnapshotView)
    ensures
        ({
            let f = focused_field(s);
            let t = written(s, seq![put_focus(field_order()[ring(field_place(f), 1, 5)])]);
            let u = written(s, seq![put_focus(field_order()[ring(field_place(f), -1, 5)])]);
            &&& focused_field(t) == field_after(f)
            &&& field_after(focused_field(u)) == f
            &&& forall|x: Seq<Seq<char>>|
                x != drafted("focused_field"@) ==> #[trigger] t.at(x) == s.at(x) && #[trigger] u.at(
                    x,
                ) == s.at(x)
        }),
{
    let f = focused_field(s);
    let next = field_order()[ring(field_place(f), 1, 5)];
    let prev = field_order()[ring(field_place(f), -1, 5)];
    crate::snapshot::one_write_shows_at_its_path(s, put_focus(next));
    crate::snapshot::one_write_shows_at_its_path(s, put_focus(prev));
    field_text_names_field(next);
    field_text_names_field(prev);
}

/// Turning the draft's protocol selector goes from either preset to the other;
/// where nothing is chosen yet, or something else, it goes forward to the first
/// and back to the last. Turning its scheme selector goes through the three
/// schemes in order, and where none is chosen yet to the first or the last.
pub proof fn draft_selectors_turn_in_order(s: SnapshotView, dir: CycleDir)
    ensures
        ({
            let protocol = text_at(s, drafted("protocol"@));
            let next = if protocol == Some("anthropic"@) {
                "openai"@
            } else if protocol == Some("openai"@) {
                "anthropic"@
            } else if dir == CycleDir::Forward {
                "anthropic"@
            } else {
                "openai"@
            };
            let t = written(s, compose_cycle_writes(s, dir));
            &&& focused_field(s) == AccountField::Protocol ==> text_at(t, drafted("protocol"@))
                == Some(next) && t.at(drafted("auth"@)) == s.at(drafted("auth"@))
        }),
        ({
            let auth = auth_at(s, drafted("auth"@));
            let next = match (auth, dir) {
                (Some(AuthScheme::XApiKey), CycleDir::Forward) => AuthScheme::BearerToken,
                (Some(AuthScheme::BearerToken), CycleDir::Forward) => AuthScheme::NoAuth,
                (Some(AuthScheme::NoAuth), CycleDir::Forward) => AuthScheme::XApiKey,
                (None, CycleDir::Forward) => AuthScheme::XApiKey,
                (Some(AuthScheme::XApiKey), CycleDir::Back) => AuthScheme::NoAuth,
                (Some(AuthScheme::BearerToken), CycleDir::Back) => AuthScheme::XApiKey,
                (Some(AuthScheme::NoAuth), CycleDir::Back) => AuthScheme::BearerToken,
                (None, CycleDir::Back) => AuthScheme::NoAuth,
            };
            let t = written(s, compose_cycle_writes(s, dir));
            &&& focused_field(s) == AccountField::Auth ==> auth_at(t, drafted("auth"@)) == Some(
                next,
            ) && t.at(drafted("protocol"@)) == s.at(drafted("protocol"@))
        }),
        ({
            let t = written(s, compose_cycle_writes(s, dir));
            forall|x: Seq<Seq<char>>|
                x != drafted("protocol"@) && x != drafted("auth"@) && x != drafted("errors"@)
                    ==> #[trigger] t.at(x) == s.at(x)
        }),
        focused_field(s) != AccountField::Protocol && focused_field(s) != AccountField::Auth
            ==> compose_cycle_writes(s, dir).len() == 0,
{
    lemma_draft_words();
    let w = compose_cycle_writes(s, dir);
    let t = written(s, w);
    writes_show_at_their_paths(s, w);
    assert(draft_path(AccountField::Protocol) == drafted("protocol"@));
    assert(draft_path(AccountField::Auth) == drafted("auth"@));
    assert(drafted("protocol"@)[3] == "protocol"@);
    assert(drafted("auth"@)[3] == "auth"@);
    assert(drafted("errors"@)[3] == "errors"@);
    if w.len() > 0 {
        assert(w[1].path == drafted("errors"@));
        assert(lasting(w, 0));
        if focused_field(s) == AccountField::Protocol {
            assert(untouched(w, drafted("auth"@)));
        } else {
            assert(untouched(w, drafted("protocol"@)));
        }
    }
    assert forall|x: Seq<Seq<char>>|
        x != drafted("protocol"@) && x != drafted("auth"@) && x != drafted("errors"@) implies
        #[trigger] t.at(x) == s.at(x) by {
        assert(untouched(w, x));
    }
    lemma_protocol_turns(s, dir);
    lemma_auth_turns(s, dir);
    auth_text_names_scheme(turned_auth(s, dir));
}

proof fn lemma_protocol_turns(s: SnapshotView, dir: CycleDir)
    ensures
        ({
            let protocol = text_at(s, drafted("protocol"@));
            turned_protocol(s, dir) == if protocol == Some("anthropic"@) {
                "openai"@
            } else if protocol == Some("openai"@) {
                "anthropic"@
            } else if dir == CycleDir::Forward {
                "anthropic"@
            } else {
                "openai"@
            }
        }),
{
    reveal_strlit("anthropic");
    reveal_strlit("openai");
    assert("anthropic"@.len() == 9 && "openai"@.len() == 6);
    assert(draft_path(AccountField::Protocol) == drafted("protocol"@));
    let d = super::compose::protocol_choices();
    assert(d[0] == "anthropic"@ && d[1] == "openai"@);
    match text_at(s, drafted("protocol"@)) {
        Some(p) => {
            if p == "anthropic"@ {
                crate::assoc::place_unique(d, p, 0);
                turning_leads_to_the_neighbour(2, 0);
            } else if p == "openai"@ {
                crate::assoc::place_unique(d, p, 1);
                turning_leads_to_the_neighbour(2, 1);
            } else {
                crate::assoc::place_is_first(d, p);
            }
        },
        None => {},
    }
}

proof fn lemma_auth_turns(s: SnapshotView, dir: CycleDir)
    ensures
        turned_auth(s, dir) == match (auth_at(s, drafted("auth"@)), dir) {
            (Some(AuthScheme::XApiKey), CycleDir::Forward) => AuthScheme::BearerToken,
            (Some(AuthScheme::BearerToken), CycleDir::Forward) => AuthScheme::NoAuth,
            (Some(AuthScheme::NoAuth), CycleDir::Forward) => AuthScheme::XApiKey,
            (None, CycleDir::Forward) => AuthScheme::XApiKey,
            (Some(AuthScheme::XApiKey), CycleDir::Back) => AuthScheme::NoAuth,
            (Some(AuthScheme::BearerToken), CycleDir::Back) => AuthScheme::XApiKey,
            (Some(AuthScheme::NoAuth), CycleDir::Back) => AuthScheme::BearerToken,
            (None, CycleDir::Back) => AuthScheme::NoAuth,
        },
{
    assert(draft_path(AccountField::Auth) == drafted("auth"@));
    let d = auth_order();
    match auth_at(s, drafted("auth"@)) {
        Some(a) => {
            let i: int = match a {
                AuthScheme::XApiKey => 0,
                AuthScheme::BearerToken => 1,
                AuthScheme::NoAuth => 2,
            };
            assert(d[i] == a);
            assert(forall|j: int| 0 <= j < i ==> #[trigger] d[j] != a);
            crate::assoc::place_unique(d, a, i);
            turning_leads_to_the_neighbour(3, i);
        },
        None => {},
    }
}

/// Typing into the draft appends the character to the focused text field, and
/// deleting takes its last character off; the other fields stay as they are. On
/// a selector neither does anything.
pub proof fn typing_changes_the_focused_field_only(s: SnapshotView, key: KeyChord)
    ensures
        ({
            let f = focused_field(s);
            let text = text_or_empty(s, draft_path(f));
            let is_text = f != AccountField::Protocol && f != AccountField::Auth;
            let t = written(s, compose_insert_writes(s, Some(key)));
            let u = written(s, compose_delete_writes(s));
            &&& is_text && key.code is Char ==> text_at(t, draft_path(f)) == Some(
                text.push(key.code->Char_0),
            )
            &&& !is_text || !(key.code is Char) ==> t == s
            &&& is_text && text.len() > 0 ==> text_at(u, draft_path(f)) == Some(text.drop_last())
            &&& !is_text || text.len() == 0 ==> u == s
            &&& forall|x: Seq<Seq<char>>|
                x != draft_path(f) && x != drafted("errors"@) ==> #[trigger] t.at(x) == s.at(x)
                    && #[trigger] u.at(x) == s.at(x)
        }),
{
    lemma_draft_words();
    let f = focused_field(s);
    let w = compose_insert_writes(s, Some(key));
    let v = compose_delete_writes(s);
    let t = written(s, w);
    let u = written(s, v);
    writes_show_at_their_paths(s, w);
    writes_show_at_their_paths(s, v);
    assert(draft_path(f)[3] == crate::types::field_text(f));
    assert(drafted("errors"@)[3] == "errors"@);
    assert(draft_path(f) != drafted("errors"@));
    if w.len() > 0 {
        assert(w[1].path == drafted("errors"@));
        assert(lasting(w, 0));
    }
    if v.len() > 0 {
        assert(v[1].path == drafted("errors"@));
        assert(lasting(v, 0));
    }
    assert forall|x: Seq<Seq<char>>| x != draft_path(f) && x != drafted("errors"@) implies
        #[trigger] t.at(x) == s.at(x) && #[trigger] u.at(x) == s.at(x) by {
        assert(untouched(w, x));
        assert(untouched(v, x));
    }
}

/// What is found wrong with a draft is what is wrong with its own fields: with
/// the name, the protocol, the endpoint, the scheme and the key as the store
/// holds them.
pub proof fn errors_speak_of_the_stored_draft(s: SnapshotView)
    ensures
        ({
            let e = current_errors(s);
            let name = trimmed(text_or_empty(s, drafted("name"@)));
            let auth = auth_at(s, drafted("auth"@));
            let sends = auth == Some(AuthScheme::XApiKey) || auth == Some(AuthScheme::BearerToken);
            &&& name.len() == 0 ==> e.name is Some
            &&& 0 < name.len() <= 256 && !s.children(
                seq!["config"@, "gate"@, "accounts"@],
            ).contains(stored_id(name)) && (forall|n: Seq<char>|
                s.children(seq!["config"@, "gate"@, "accounts"@]).contains(n)
                    ==> #[trigger] bound_provider(s, n) != stored_id(name)) ==> e.name is None
            &&& s.children(seq!["config"@, "gate"@, "accounts"@]).contains(stored_id(name))
                ==> e.name is Some
            &&& e.protocol is None <==> text_at(s, drafted("protocol"@)) is Some
            &&& e.endpoint is None <==> trimmed(text_or_empty(s, drafted("endpoint"@))).len() > 0
            &&& e.auth is None <==> auth is Some
            &&& e.key is Some <==> sends && trimmed(text_or_empty(s, drafted("key"@))).len() == 0
        }),
{
    assert(draft_path(AccountField::Name) == drafted("name"@));
    assert(draft_path(AccountField::Protocol) == drafted("protocol"@));
    assert(draft_path(AccountField::Endpoint) == drafted("endpoint"@));
    assert(draft_path(AccountField::Auth) == drafted("auth"@));
    assert(draft_path(AccountField::Key) == drafted("key"@));
    let names = s.children(seq!["config"@, "gate"@, "accounts"@]);
    assert(names == s.children(accounts_root()));
    let id = stored_id(trimmed(text_or_empty(s, drafted("name"@))));
    let taken = taken_names(s);
    if names.contains(id) {
        let k = choose|k: int| 0 <= k < names.len() && names[k] == id;
        assert(taken[k] == id);
    }
    if taken.contains(id) && !names.contains(id) {
        let k = choose|k: int| 0 <= k < taken.len() && taken[k] == id;
        if k < names.len() {
            assert(names[k] == id);
        } else {
            let n = names[k - names.len()];
            assert(names.contains(n));
            assert(bound_provider(s, n) == id);
        }
    }
}

} // verus!
