//! Turning the protocol and authentication selectors of a stored connection,
//! and giving it a provider record of its own.

use crate::assoc::{place_is_first, place_of, place_unique};
use crate::path::{component_ok, path4, path5, valid_component, Path};
use crate::renderers::index::auth_of_account;
use crate::renderers::util::{
    account_at, auth_at, provider_at, read_account, read_auth, read_provider, read_text,
    read_text_or_empty, text_at, text_or_empty,
};
use crate::visible_rows::{KindView, RowKind};
use crate::snapshot::{SettingsSnapshot, SnapshotView};
use crate::text::{chars_of, contains_text, place_of_text, same, texts};
use crate::types::{
    auth_order, auth_schemes, blank_provider, opt_text, AccountConfig, AccountField, AccountView,
    AuthScheme, ProviderConfig, ProviderView,
};
use crate::value::{put, write_at, writes_view, StoreValue, ValueView, Write, WriteView};
use vstd::prelude::*;
use vstd::string::*;

use super::account_model::{
    focused_row, focused_visible_row, read_selected_account, selected_account,
};
use super::compose::{
    account_names, accounts_root, place_of_scheme, protocol_choices, turn, turned,
    turns_undo_each_other, CycleDir,
};
use super::fork::{fork_name, forked_name};

verus! {

/// Where an account's record lives.
pub open spec fn account_place(name: Seq<char>) -> Seq<Seq<char>> {
    seq!["config"@, "gate"@, "accounts"@, name]
}

/// Where a provider's record lives.
pub open spec fn provider_place(name: Seq<char>) -> Seq<Seq<char>> {
    seq!["config"@, "gate"@, "providers"@, name]
}

/// Where one field of an account lives, when it is stored on its own.
pub open spec fn account_child(name: Seq<char>, child: Seq<char>) -> Seq<Seq<char>> {
    seq!["config"@, "gate"@, "accounts"@, name, child]
}

/// Where one field of a provider lives, when it is stored on its own.
pub open spec fn provider_child(name: Seq<char>, child: Seq<char>) -> Seq<Seq<char>> {
    seq!["config"@, "gate"@, "providers"@, name, child]
}

/// An account as one record, or put together from its separately stored
/// provider name.
pub open spec fn assembled_account(s: SnapshotView, name: Seq<char>) -> Option<AccountView> {
    if !component_ok(name) {
        None
    } else if account_at(s, account_place(name)) is Some {
        account_at(s, account_place(name))
    } else {
        match text_at(s, account_child(name, "provider"@)) {
            Some(p) => Some(AccountView { provider: p, display_name: None }),
            None => None,
        }
    }
}

/// A provider as one record, or put together from its separately stored
/// fields, as long as there is any; those missing are empty.
pub open spec fn assembled_provider(s: SnapshotView, name: Seq<char>) -> Option<ProviderView> {
    if !component_ok(name) {
        None
    } else if provider_at(s, provider_place(name)) is Some {
        provider_at(s, provider_place(name))
    } else if text_at(s, provider_child(name, "dialect"@)) is None && text_at(
        s,
        provider_child(name, "endpoint"@),
    ) is None && text_at(s, provider_child(name, "version"@)) is None && text_at(
        s,
        provider_child(name, "auth"@),
    ) is None {
        None
    } else {
        Some(
            ProviderView {
                dialect: text_or_empty(s, provider_child(name, "dialect"@)),
                endpoint: text_or_empty(s, provider_child(name, "endpoint"@)),
                version: text_or_empty(s, provider_child(name, "version"@)),
                auth: auth_at(s, provider_child(name, "auth"@)),
            },
        )
    }
}

/// An account as one record, or put together from its parts.
pub fn read_account_assembling_flat(data: &SettingsSnapshot, name: &str) -> (r: Option<
    AccountConfig,
>)
    ensures
        r is Some <==> assembled_account(data@, name@) is Some,
        r is Some ==> r->0@ == assembled_account(data@, name@)->0,
{
    if !valid_component(name) {
        return None;
    }
    match read_account(data, &path4("config", "gate", "accounts", name)) {
        Some(a) => Some(a),
        None => {
            proof {
                lemma_provider_component();
            }
            match read_account_child_string(data, name, "provider") {
                Some(p) => Some(AccountConfig::bound_to(p)),
                None => None,
            }
        },
    }
}

/// A provider as one record, or put together from its parts.
pub fn read_provider_assembling_flat(data: &SettingsSnapshot, name: &str) -> (r: Option<
    ProviderConfig,
>)
    ensures
        r is Some <==> assembled_provider(data@, name@) is Some,
        r is Some ==> r->0@ == assembled_provider(data@, name@)->0,
{
    if !valid_component(name) {
        return None;
    }
    match read_provider(data, &path4("config", "gate", "providers", name)) {
        Some(p) => {
            return Some(p);
        },
        None => {},
    }
    let dialect_path = path5("config", "gate", "providers", name, "dialect");
    let endpoint_path = path5("config", "gate", "providers", name, "endpoint");
    let version_path = path5("config", "gate", "providers", name, "version");
    let auth_path = path5("config", "gate", "providers", name, "auth");
    if read_text(data, &dialect_path).is_none() && read_text(data, &endpoint_path).is_none()
        && read_text(data, &version_path).is_none() && read_text(data, &auth_path).is_none() {
        return None;
    }
    Some(
        ProviderConfig {
            dialect: read_text_or_empty(data, &dialect_path),
            endpoint: read_text_or_empty(data, &endpoint_path),
            version: read_text_or_empty(data, &version_path),
            auth: read_auth(data, &auth_path),
        },
    )
}

/// One field of an account, when it is stored on its own; `None` where the
/// child's name may not stand in a path.
pub fn read_account_child_string(data: &SettingsSnapshot, account: &str, child: &str) -> (r:
    Option<String>)
    ensures
        opt_text(r) == if component_ok(child@) {
            text_at(data@, account_child(account@, child@))
        } else {
            None
        },
{
    if valid_component(child) {
        read_text(data, &path5("config", "gate", "accounts", account, child))
    } else {
        None
    }
}

proof fn lemma_provider_component()
    ensures
        component_ok("provider"@),
{
    reveal_strlit("provider");
}

/// The dialects a protocol selector offers: the presets, and behind them the
/// current one where it is none of them.
pub open spec fn dialects(current: Seq<char>) -> Seq<Seq<char>> {
    if current.len() > 0 && !protocol_choices().contains(current) {
        protocol_choices().push(current)
    } else {
        protocol_choices()
    }
}

/// The dialects a protocol selector offers. The presets do not depend on the
/// store.
pub fn resolve_protocol_options(_data: &SettingsSnapshot, current: &str) -> (r: Vec<String>)
    ensures
        texts(r@) == dialects(current@),
{
    let mut options: Vec<String> = Vec::new();
    options.push("anthropic".to_owned());
    options.push("openai".to_owned());
    proof {
        assert(texts(options@) =~= protocol_choices());
    }
    if chars_of(current).len() > 0 && !contains_text(options.as_slice(), current) {
        options.push(current.to_owned());
        proof {
            assert(texts(options@) =~= protocol_choices().push(current@));
        }
    }
    options
}

/// A current dialect is always on offer, the presets come first, and nothing is
/// offered twice.
pub proof fn current_dialect_is_offered(current: Seq<char>)
    ensures
        current.len() > 0 ==> dialects(current).contains(current),
        dialects(current).len() >= 2,
        dialects(current).subrange(0, 2) == protocol_choices(),
        forall|i: int, j: int|
            0 <= i < j < dialects(current).len() ==> #[trigger] dialects(current)[i]
                != #[trigger] dialects(current)[j],
{
    let d = dialects(current);
    reveal_strlit("anthropic");
    reveal_strlit("openai");
    assert("anthropic"@[0] == 'a');
    assert("openai"@[0] == 'o');
    assert(protocol_choices()[0] == "anthropic"@);
    assert(protocol_choices()[1] == "openai"@);
    assert(d.subrange(0, 2) =~= protocol_choices());
    if current.len() > 0 && !protocol_choices().contains(current) {
        assert(d[2] == current);
        assert(protocol_choices().contains(protocol_choices()[0]));
        assert(protocol_choices().contains(protocol_choices()[1]));
    }
}

/// The dialect a selector turns to.
pub open spec fn turned_dialect(current: Seq<char>, dir: CycleDir) -> Seq<char> {
    let options = dialects(current);
    let place = match place_of(options, current) {
        Some(i) => i,
        None => 0,
    };
    options[turned(options.len() as int, Some(place), dir)]
}

/// The scheme a selector turns to.
pub open spec fn turned_scheme(current: AuthScheme, dir: CycleDir) -> AuthScheme {
    let place = match place_of(auth_order(), current) {
        Some(i) => i,
        None => 0,
    };
    auth_order()[turned(3, Some(place), dir)]
}

/// Turning the protocol selector one way and then the other comes back to a
/// preset dialect. (A dialect that is no preset is offered only while it is the
/// current one.)
pub proof fn dialect_turns_undo_each_other(current: Seq<char>)
    requires
        protocol_choices().contains(current),
    ensures
        turned_dialect(turned_dialect(current, CycleDir::Forward), CycleDir::Back) == current,
        turned_dialect(turned_dialect(current, CycleDir::Back), CycleDir::Forward) == current,
{
    let d = protocol_choices();
    place_is_first(d, current);
    let i = place_of(d, current)->0;
    turns_undo_each_other(2, i);
    current_dialect_is_offered(current);
    assert(dialects(current) == d);
    let up = turned(2, Some(i), CycleDir::Forward);
    let down = turned(2, Some(i), CycleDir::Back);
    assert(d.contains(d[up]));
    assert(d.contains(d[down]));
    assert(forall|j: int, k: int| 0 <= j < k < 2 ==> #[trigger] d[j] != #[trigger] d[k]);
    place_unique(d, d[up], up);
    place_unique(d, d[down], down);
}

/// Turning the authentication selector one way and then the other comes back
/// to the same scheme.
pub proof fn scheme_turns_undo_each_other(current: AuthScheme)
    ensures
        turned_scheme(turned_scheme(current, CycleDir::Forward), CycleDir::Back) == current,
        turned_scheme(turned_scheme(current, CycleDir::Back), CycleDir::Forward) == current,
{
    let d = auth_order();
    let i: int = match current {
        AuthScheme::XApiKey => 0,
        AuthScheme::BearerToken => 1,
        AuthScheme::NoAuth => 2,
    };
    assert(d[i] == current);
    assert(forall|j: int, k: int| 0 <= j < k < 3 ==> #[trigger] d[j] != #[trigger] d[k]);
    place_unique(d, current, i);
    turns_undo_each_other(3, i);
    let up = turned(3, Some(i), CycleDir::Forward);
    let down = turned(3, Some(i), CycleDir::Back);
    place_unique(d, d[up], up);
    place_unique(d, d[down], down);
}

/// The name of the provider an account is bound to: its record's, or the one
/// stored on its own, or the default.
pub open spec fn bound_provider(s: SnapshotView, account: Seq<char>) -> Seq<char> {
    match account_at(s, account_place(account)) {
        Some(a) => a.provider,
        None => match text_at(s, account_child(account, "provider"@)) {
            Some(p) => p,
            None => "anthropic"@,
        },
    }
}

/// The name of the provider an account is bound to.
pub fn read_bound_provider(data: &SettingsSnapshot, account: &str) -> (r: String)
    ensures
        r@ == bound_provider(data@, account@),
{
    match read_account(data, &path4("config", "gate", "accounts", account)) {
        Some(a) => a.provider,
        None => {
            proof {
                lemma_provider_component();
            }
            match read_account_child_string(data, account, "provider") {
                Some(p) => p,
                None => "anthropic".to_owned(),
            }
        },
    }
}

/// The provider record whose dialect is turned.
pub open spec fn cycled_provider(s: SnapshotView, name: Seq<char>) -> ProviderView {
    match assembled_provider(s, name) {
        Some(p) => p,
        None => blank_provider(name),
    }
}

/// The writes of turning the selected account's protocol: the bound provider's
/// record with another dialect.
pub open spec fn cycle_protocol_writes(s: SnapshotView, dir: CycleDir) -> Seq<WriteView> {
    match selected_account(s) {
        None => Seq::empty(),
        Some(account) => {
            let name = bound_provider(s, account);
            if !component_ok(name) {
                Seq::empty()
            } else {
                let p = cycled_provider(s, name);
                seq![
                    put(
                        provider_place(name),
                        ValueView::Provider(
                            ProviderView { dialect: turned_dialect(p.dialect, dir), ..p },
                        ),
                    ),
                ]
            }
        },
    }
}

/// Turns the selected account's protocol forward.
pub fn selector_cycle_protocol(data: &SettingsSnapshot) -> (r: Vec<Write>)
    ensures
        writes_view(r@) == cycle_protocol_writes(data@, CycleDir::Forward),
{
    selector_cycle_protocol_dir(data, CycleDir::Forward)
}

/// Turns the selected account's protocol back.
pub fn selector_cycle_protocol_back(data: &SettingsSnapshot) -> (r: Vec<Write>)
    ensures
        writes_view(r@) == cycle_protocol_writes(data@, CycleDir::Back),
{
    selector_cycle_protocol_dir(data, CycleDir::Back)
}

/// Turns the selected account's protocol.
pub fn selector_cycle_protocol_dir(data: &SettingsSnapshot, dir: CycleDir) -> (r: Vec<Write>)
    ensures
        writes_view(r@) == cycle_protocol_writes(data@, dir),
{
    let mut out: Vec<Write> = Vec::new();
    match read_selected_account(data) {
        None => {},
        Some(account) => {
            let name: String = read_bound_provider(data, account.as_str());
            if valid_component(name.as_str()) {
                let mut provider: ProviderConfig = match read_provider_assembling_flat(
                    data,
                    name.as_str(),
                ) {
                    Some(p) => p,
                    None => ProviderConfig::blank(name.as_str()),
                };
                let options: Vec<String> = resolve_protocol_options(
                    data,
                    provider.dialect.as_str(),
                );
                let place: usize = match place_of_text(
                    options.as_slice(),
                    provider.dialect.as_str(),
                ) {
                    Some(i) => i,
                    None => 0,
                };
                proof {
                    current_dialect_is_offered(provider.dialect@);
                    assert(texts(options@).len() == options@.len());
                }
                let next: usize = turn(options.len(), Some(place), dir);
                provider.dialect = options[next].clone();
                out.push(
                    write_at(
                        path4("config", "gate", "providers", name.as_str()),
                        StoreValue::Provider(provider),
                    ),
                );
            }
        },
    }
    proof {
        assert(writes_view(out@) =~= cycle_protocol_writes(data@, dir));
    }
    out
}

/// The writes of turning the selected account's authentication: the bound
/// provider's record with another scheme.
pub open spec fn cycle_auth_writes(s: SnapshotView, dir: CycleDir) -> Seq<WriteView> {
    match selected_account(s) {
        None => Seq::empty(),
        Some(account) => {
            let name = bound_provider(s, account);
            if !component_ok(name) {
                Seq::empty()
            } else {
                let p = match provider_at(s, provider_place(name)) {
                    Some(p) => p,
                    None => blank_provider(name),
                };
                seq![
                    put(
                        provider_place(name),
                        ValueView::Provider(
                            ProviderView {
                                auth: Some(turned_scheme(p.effective_auth(), dir)),
                                ..p
                            },
                        ),
                    ),
                ]
            }
        },
    }
}

/// Turns the selected account's authentication forward.
pub fn selector_cycle_auth(data: &SettingsSnapshot) -> (r: Vec<Write>)
    ensures
        writes_view(r@) == cycle_auth_writes(data@, CycleDir::Forward),
{
    selector_cycle_auth_dir(data, CycleDir::Forward)
}

/// Turns the selected account's authentication back.
pub fn selector_cycle_auth_back(data: &SettingsSnapshot) -> (r: Vec<Write>)
    ensures
        writes_view(r@) == cycle_auth_writes(data@, CycleDir::Back),
{
    selector_cycle_auth_dir(data, CycleDir::Back)
}

/// Turns the selected account's authentication.
pub fn selector_cycle_auth_dir(data: &SettingsSnapshot, dir: CycleDir) -> (r: Vec<Write>)
    ensures
        writes_view(r@) == cycle_auth_writes(data@, dir),
{
    let mut out: Vec<Write> = Vec::new();
    match read_selected_account(data) {
        None => {},
        Some(account) => {
            let name: String = read_bound_provider(data, account.as_str());
            if valid_component(name.as_str()) {
                let mut provider: ProviderConfig = match read_provider(
                    data,
                    &path4("config", "gate", "providers", name.as_str()),
                ) {
                    Some(p) => p,
                    None => ProviderConfig::blank(name.as_str()),
                };
                let options: Vec<AuthScheme> = auth_schemes();
                let place: usize = match place_of_scheme(
                    options.as_slice(),
                    provider.resolved_auth(),
                ) {
                    Some(i) => i,
                    None => 0,
                };
                let next: usize = turn(options.len(), Some(place), dir);
                provider.auth = Some(options[next]);
                out.push(
                    write_at(
                        path4("config", "gate", "providers", name.as_str()),
                        StoreValue::Provider(provider),
                    ),
                );
            }
        },
    }
    proof {
        assert(writes_view(out@) =~= cycle_auth_writes(data@, dir));
    }
    out
}

/// The writes of turning the selector that has the focus.
pub open spec fn cycle_field_writes(s: SnapshotView, dir: CycleDir) -> Seq<WriteView> {
    match focused_row(s) {
        Some(row) => match row.kind {
            KindView::AccountField { field: AccountField::Protocol, .. } => cycle_protocol_writes(
                s,
                dir,
            ),
            KindView::AccountField { field: AccountField::Auth, .. } => cycle_auth_writes(s, dir),
            _ => Seq::empty(),
        },
        None => Seq::empty(),
    }
}

/// Turns the selector that has the focus. Nothing happens on other rows.
pub fn cycle_field(data: &SettingsSnapshot, dir: CycleDir) -> (r: Vec<Write>)
    ensures
        writes_view(r@) == cycle_field_writes(data@, dir),
{
    let none: Vec<Write> = Vec::new();
    proof {
        assert(writes_view(none@) =~= Seq::<WriteView>::empty());
    }
    match focused_visible_row(data) {
        Some(row) => match &row.kind {
            RowKind::AccountField { field, .. } => match field {
                AccountField::Protocol => selector_cycle_protocol_dir(data, dir),
                AccountField::Auth => selector_cycle_auth_dir(data, dir),
                _ => none,
            },
            _ => none,
        },
        None => none,
    }
}

/// Whether another account than `account` among `names` is bound to
/// `provider`.
pub open spec fn shared_with(
    s: SnapshotView,
    names: Seq<Seq<char>>,
    account: Seq<char>,
    provider: Seq<char>,
) -> bool {
    exists|i: int|
        0 <= i < names.len() && #[trigger] names[i] != account && component_ok(names[i])
            && account_at(s, account_place(names[i])) is Some && account_at(
            s,
            account_place(names[i]),
        )->0.provider == provider
}

/// The writes of giving the selected account a provider of its own: a copy of
/// the one it is bound to, under a name that is still free, and the account
/// bound to that copy. None where no other account is bound to the same
/// provider.
pub open spec fn fork_writes(s: SnapshotView) -> Seq<WriteView> {
    match selected_account(s) {
        None => Seq::empty(),
        Some(account) => match account_at(s, account_place(account)) {
            None => Seq::empty(),
            Some(a) => if !shared_with(
                s,
                s.children(accounts_root()),
                account,
                a.provider,
            ) || !component_ok(a.provider) {
                Seq::empty()
            } else {
                let p = match provider_at(s, provider_place(a.provider)) {
                    Some(p) => p,
                    None => blank_provider(a.provider),
                };
                let f = forked_name(s, account);
                seq![
                    put(provider_place(f), ValueView::Provider(p)),
                    put(account_place(account), ValueView::Account(AccountView { provider: f, ..a })),
                ]
            },
        },
    }
}

fn is_shared(data: &SettingsSnapshot, account: &str, provider: &str) -> (r: bool)
    ensures
        r == shared_with(data@, data@.children(accounts_root()), account@, provider@),
{
    let names: Vec<String> = account_names(data);
    let ghost all = texts(names@);
    let mut i: usize = 0;
    while i < names.len()
        invariant
            i <= names@.len(),
            all == texts(names@),
            all == data@.children(accounts_root()),
            forall|k: int|
                0 <= k < i ==> !(#[trigger] all[k] != account@ && component_ok(all[k])
                    && account_at(data@, account_place(all[k])) is Some && account_at(
                    data@,
                    account_place(all[k]),
                )->0.provider == provider@),
        decreases names@.len() - i,
    {
        let n: &str = names[i].as_str();
        proof {
            assert(all[i as int] == n@);
        }
        if !same(n, account) && valid_component(n) {
            match read_account(data, &path4("config", "gate", "accounts", n)) {
                Some(other) => {
                    if same(other.provider.as_str(), provider) {
                        return true;
                    }
                },
                None => {},
            }
        }
        i += 1;
    }
    false
}

/// Gives the selected account a provider record of its own, where it shares
/// one. No stored provider is written over.
pub fn accounts_fork_provider(data: &SettingsSnapshot) -> (r: Vec<Write>)
    ensures
        writes_view(r@) == fork_writes(data@),
{
    let mut out: Vec<Write> = Vec::new();
    proof {
        assert(writes_view(out@) =~= Seq::<WriteView>::empty());
    }
    let account: String = match read_selected_account(data) {
        Some(a) => a,
        None => {
            return out;
        },
    };
    let acct_path: Path = path4("config", "gate", "accounts", account.as_str());
    let mut acct: AccountConfig = match read_account(data, &acct_path) {
        Some(a) => a,
        None => {
            return out;
        },
    };
    let ghost before = acct@;
    if !is_shared(data, account.as_str(), acct.provider.as_str()) {
        return out;
    }
    if !valid_component(acct.provider.as_str()) {
        return out;
    }
    let provider: ProviderConfig = match read_provider(
        data,
        &path4("config", "gate", "providers", acct.provider.as_str()),
    ) {
        Some(p) => p,
        None => ProviderConfig::blank(acct.provider.as_str()),
    };
    let forked: String = fork_name(data, account.as_str());
    out.push(
        write_at(
            path4("config", "gate", "providers", forked.as_str()),
            StoreValue::Provider(provider),
        ),
    );
    acct.provider = forked;
    out.push(write_at(acct_path, StoreValue::Account(acct)));
    proof {
        assert(writes_view(out@) =~= fork_writes(data@));
    }
    out
}

/// Turning a selector writes one provider record at most, the one the selected
/// account is bound to, and never an account.
pub proof fn selectors_write_the_bound_provider(s: SnapshotView, dir: CycleDir)
    ensures
        cycle_protocol_writes(s, dir).len() <= 1,
        cycle_auth_writes(s, dir).len() <= 1,
        cycle_protocol_writes(s, dir).len() == 1 ==> selected_account(s) is Some
            && cycle_protocol_writes(s, dir)[0].path == provider_place(
            bound_provider(s, selected_account(s)->0),
        ),
        cycle_auth_writes(s, dir).len() == 1 ==> selected_account(s) is Some && cycle_auth_writes(
            s,
            dir,
        )[0].path == provider_place(bound_provider(s, selected_account(s)->0)),
{
}

/// Turning the protocol keeps the provider's endpoint, version and scheme;
/// turning the scheme keeps its dialect, endpoint and version.
pub proof fn selectors_keep_the_rest(s: SnapshotView, dir: CycleDir)
    ensures
        cycle_protocol_writes(s, dir).len() == 1 ==> ({
            let name = bound_provider(s, selected_account(s)->0);
            let old_record = cycled_provider(s, name);
            let new_record = cycle_protocol_writes(s, dir)[0].value->Provider_0;
            new_record.endpoint == old_record.endpoint && new_record.version == old_record.version
                && new_record.auth == old_record.auth
        }),
        cycle_auth_writes(s, dir).len() == 1 ==> ({
            let name = bound_provider(s, selected_account(s)->0);
            let old_record = match provider_at(s, provider_place(name)) {
                Some(p) => p,
                None => blank_provider(name),
            };
            let new_record = cycle_auth_writes(s, dir)[0].value->Provider_0;
            new_record.endpoint == old_record.endpoint && new_record.version == old_record.version
                && new_record.dialect == old_record.dialect
        }),
{
}

/// Turning the authentication starts from the scheme that is shown, where the
/// account and its provider are stored as records.
pub proof fn turning_starts_from_what_is_shown(
    s: SnapshotView,
    account: Seq<char>,
    a: AccountView,
    p: ProviderView,
    dir: CycleDir,
)
    requires
        selected_account(s) == Some(account),
        component_ok(account),
        account_at(s, account_place(account)) == Some(a),
        component_ok(a.provider),
        provider_at(s, provider_place(a.provider)) == Some(p),
    ensures
        auth_of_account(s, account) is Some,
        cycle_auth_writes(s, dir) == seq![
            put(
                provider_place(a.provider),
                ValueView::Provider(
                    ProviderView {
                        auth: Some(turned_scheme(auth_of_account(s, account)->0, dir)),
                        ..p
                    },
                ),
            ),
        ],
{
}

} // verus!
