//! The name under which a connection gets a provider record of its own.

use crate::path::{component_ok, leads, path4, xid_continue, Path};
use crate::renderers::util::{account_at, provider_at};
use crate::snapshot::{
    children_are_what_lies_below, entries_can_be_counted, find, one_write_shows_at_its_path,
    two_writes_in_turn, written, EntryView, SettingsSnapshot, SnapshotView,
};
use crate::text::{ascii_digit, decimal, decimals_differ, join2, join3, number_text, same, texts};
use crate::types::{blank_provider, AccountView, ProviderView};
use crate::value::ValueView;
use crate::visible_rows::{safe_component, safe_text, safe_text_may_stand_in_a_path, substituted};
use vstd::prelude::*;
use vstd::string::*;

use super::account_model::selected_account;
use super::compose::{account_names, accounts_root};
use super::selectors::{
    account_child, account_place, bound_provider, fork_writes, provider_place, read_bound_provider,
    shared_with,
};

verus! {

/// The names a forked provider may get, in the order they are tried: the
/// account's with `_fork` behind it, then the same with a counter behind that.
pub open spec fn fork_candidate(account: Seq<char>, k: nat) -> Seq<char> {
    let base = safe_text(account + "_fork"@);
    if k == 0 {
        base
    } else {
        base + "_"@ + decimal(k)
    }
}

/// Whether no provider is stored under `name` and no account is bound to it.
pub open spec fn provider_free(s: SnapshotView, name: Seq<char>) -> bool {
    &&& !s.holds_below(provider_place(name))
    &&& forall|i: int|
        0 <= i < s.children(accounts_root()).len() ==> bound_provider(
            s,
            #[trigger] s.children(accounts_root())[i],
        ) != name
}

/// The first number from `k` on whose candidate is free. There is one at the
/// number of stored values at the latest.
pub open spec fn fork_number(s: SnapshotView, account: Seq<char>, k: nat) -> nat
    decreases s.entries.len() - k,
{
    if k >= s.entries.len() || provider_free(s, fork_candidate(account, k)) {
        k
    } else {
        fork_number(s, account, k + 1)
    }
}

/// The name a forked provider gets: the first candidate that is free.
pub open spec fn forked_name(s: SnapshotView, account: Seq<char>) -> Seq<char> {
    fork_candidate(account, fork_number(s, account, 0))
}

/// Whether the `i`-th stored value keeps `name` from being free.
spec fn blocks(s: SnapshotView, i: int, name: Seq<char>) -> bool {
    let p = s.entries[i].path;
    &&& 0 <= i < s.entries.len()
    &&& p.len() > 3
    &&& if p[2] == "providers"@ {
        p[3] == name
    } else {
        bound_provider(s, p[3]) == name
    }
}

/// A stored value that keeps `name` from being free.
spec fn blocker(s: SnapshotView, name: Seq<char>) -> int {
    choose|i: int| blocks(s, i, name)
}

proof fn lemma_roots_differ()
    ensures
        "providers"@ != "accounts"@,
{
    reveal_strlit("providers");
    reveal_strlit("accounts");
    assert("providers"@.len() == 9);
    assert("accounts"@.len() == 8);
}

/// A name that is not free is kept from it by some stored value.
proof fn lemma_something_blocks(s: SnapshotView, name: Seq<char>)
    requires
        !provider_free(s, name),
    ensures
        blocks(s, blocker(s, name), name),
{
    lemma_roots_differ();
    if s.holds_below(provider_place(name)) {
        let i = choose|i: int|
            0 <= i < s.entries.len() && leads(
                provider_place(name),
                (#[trigger] s.entries[i]).path,
            );
        let p = s.entries[i].path;
        assert(p.subrange(0, 4)[2] == p[2]);
        assert(p.subrange(0, 4)[3] == p[3]);
        assert(blocks(s, i, name));
    } else {
        let names = s.children(accounts_root());
        let j = choose|j: int|
            0 <= j < names.len() && bound_provider(s, #[trigger] names[j]) == name;
        assert(names.contains(names[j]));
        children_are_what_lies_below(s, accounts_root(), names[j]);
        let place = accounts_root().push(names[j]);
        let i = choose|i: int|
            0 <= i < s.entries.len() && leads(place, (#[trigger] s.entries[i]).path);
        let p = s.entries[i].path;
        assert(p.subrange(0, 4)[2] == p[2]);
        assert(p.subrange(0, 4)[3] == p[3]);
        assert(blocks(s, i, name));
    }
}

proof fn lemma_candidates_differ(account: Seq<char>, j: nat, k: nat)
    requires
        j != k,
    ensures
        fork_candidate(account, j) != fork_candidate(account, k),
{
    let base = safe_text(account + "_fork"@);
    reveal_strlit("_");
    let n = base.len() as int + 1;
    let a = fork_candidate(account, j);
    let b = fork_candidate(account, k);
    if j > 0 && k > 0 {
        decimals_differ(j, k);
        assert(a.subrange(n, a.len() as int) =~= decimal(j));
        assert(b.subrange(n, b.len() as int) =~= decimal(k));
    } else {
        assert(a.len() != b.len());
    }
}

/// Every candidate may stand in a path.
proof fn lemma_candidate_may_stand_in_a_path(account: Seq<char>, k: nat)
    ensures
        component_ok(fork_candidate(account, k)),
{
    let whole = account + "_fork"@;
    let base = safe_text(whole);
    safe_text_may_stand_in_a_path(whole);
    if k > 0 {
        reveal_strlit("_fork");
        reveal_strlit("_");
        assert(whole.last() == 'k');
        assert(substituted(whole).last() == 'k');
        assert(base.last() == 'k');
        assert(!ascii_digit(base[base.len() - 1]));
        decimals_differ(k, k + 1);
        let r = fork_candidate(account, k);
        let n = base.len() as int;
        assert(r[0] == base[0]);
        assert forall|i: int| 1 <= i < r.len() implies xid_continue(#[trigger] r[i]) by {
            if i < n {
                assert(r[i] == base[i]);
            } else if i == n {
                assert(r[i] == '_');
            } else {
                assert(r[i] == decimal(k)[i - n - 1]);
            }
        }
    }
}

/// There are more candidates than stored values, so that they cannot all be
/// kept from being free.
proof fn lemma_some_candidate_is_free(s: SnapshotView, account: Seq<char>)
    ensures
        exists|k: nat|
            k <= s.entries.len() && provider_free(s, #[trigger] fork_candidate(account, k)),
{
    let n = s.entries.len();
    if forall|k: nat| k <= n ==> !provider_free(s, #[trigger] fork_candidate(account, k)) {
        let by = Seq::new(n + 1, |k: int| blocker(s, fork_candidate(account, k as nat)));
        assert forall|k: int| 0 <= k < by.len() implies blocks(
            s,
            #[trigger] by[k],
            fork_candidate(account, k as nat),
        ) by {
            lemma_something_blocks(s, fork_candidate(account, k as nat));
        }
        assert forall|j: int, k: int| 0 <= j < k < by.len() implies by[j] != by[k] by {
            lemma_candidates_differ(account, j as nat, k as nat);
            assert(blocks(s, by[j], fork_candidate(account, j as nat)));
            assert(blocks(s, by[k], fork_candidate(account, k as nat)));
        }
        by.unique_seq_to_set();
        vstd::set_lib::lemma_int_range(0, n as int);
        let all = vstd::set_lib::set_int_range(0, n as int);
        assert forall|x: int| by.to_set().contains(x) implies all.contains(x) by {
            let k = choose|k: int| 0 <= k < by.len() && by[k] == x;
            assert(blocks(s, by[k], fork_candidate(account, k as nat)));
        }
        vstd::set_lib::lemma_len_subset(by.to_set(), all);
        assert(false);
    }
}

/// From a number on, the search passes over candidates that are not free and
/// ends at one that is, if those before the number are not free.
proof fn lemma_search(s: SnapshotView, account: Seq<char>, k: nat)
    requires
        k <= s.entries.len(),
        forall|j: nat| j < k ==> !provider_free(s, #[trigger] fork_candidate(account, j)),
    ensures
        fork_number(s, account, k) <= s.entries.len(),
        provider_free(s, fork_candidate(account, fork_number(s, account, k))),
        forall|j: nat|
            j < fork_number(s, account, k) ==> !provider_free(
                s,
                #[trigger] fork_candidate(account, j),
            ),
    decreases s.entries.len() - k,
{
    if provider_free(s, fork_candidate(account, k)) {
    } else if k == s.entries.len() {
        lemma_some_candidate_is_free(s, account);
    } else {
        lemma_search(s, account, k + 1);
    }
}

/// The name a forked provider gets is free and may stand in a path, no
/// candidate tried before it is free, and there are no more of those than
/// stored values.
pub proof fn forked_name_is_the_first_free(s: SnapshotView, account: Seq<char>)
    ensures
        fork_number(s, account, 0) <= s.entries.len(),
        provider_free(s, forked_name(s, account)),
        component_ok(forked_name(s, account)),
        forall|j: nat|
            j < fork_number(s, account, 0) ==> !provider_free(
                s,
                #[trigger] fork_candidate(account, j),
            ),
        provider_free(s, safe_text(account + "_fork"@)) ==> forked_name(s, account) == safe_text(
            account + "_fork"@,
        ),
{
    lemma_search(s, account, 0);
    lemma_candidate_may_stand_in_a_path(account, fork_number(s, account, 0));
    assert(fork_candidate(account, 0) == safe_text(account + "_fork"@));
}

/// Whether no provider is stored under `name` and no account is bound to it.
fn is_free(data: &SettingsSnapshot, name: &str) -> (r: bool)
    ensures
        r == provider_free(data@, name@),
{
    let place: Path = path4("config", "gate", "providers", name);
    if data.has_below(&place) {
        return false;
    }
    let names: Vec<String> = account_names(data);
    let ghost all = texts(names@);
    let mut i: usize = 0;
    while i < names.len()
        invariant
            i <= names@.len(),
            all == texts(names@),
            all == data@.children(accounts_root()),
            forall|k: int| 0 <= k < i ==> bound_provider(data@, #[trigger] all[k]) != name@,
        decreases names@.len() - i,
    {
        let bound: String = read_bound_provider(data, names[i].as_str());
        proof {
            assert(all[i as int] == names@[i as int]@);
        }
        if same(bound.as_str(), name) {
            return false;
        }
        i += 1;
    }
    true
}

/// The name a forked provider gets.
pub fn fork_name(data: &SettingsSnapshot, account: &str) -> (r: String)
    ensures
        r@ == forked_name(data@, account@),
        component_ok(r@),
{
    let whole: String = join2(account, "_fork");
    let base: String = safe_component(whole.as_str());
    let mut name: String = base.clone();
    let mut k: u64 = 0;
    proof {
        entries_can_be_counted(data);
        forked_name_is_the_first_free(data@, account@);
    }
    while !is_free(data, name.as_str())
        invariant
            base@ == safe_text(account@ + "_fork"@),
            name@ == fork_candidate(account@, k as nat),
            k <= fork_number(data@, account@, 0) <= data@.entries.len() <= u64::MAX,
            provider_free(data@, forked_name(data@, account@)),
            forall|j: nat|
                j < fork_number(data@, account@, 0) ==> !provider_free(
                    data@,
                    #[trigger] fork_candidate(account@, j),
                ),
        decreases fork_number(data@, account@, 0) - k,
    {
        k += 1;
        let digits: String = number_text(k);
        name = join3(base.as_str(), "_", digits.as_str());
    }
    name
}

/// A fork takes a fresh name: nothing is stored for it as a provider, it is not
/// the provider that was shared, and no account is bound to it. What is
/// written is a record under that name, then the account.
pub proof fn fork_takes_a_fresh_name(s: SnapshotView)
    requires
        fork_writes(s).len() > 0,
    ensures
        selected_account(s) is Some,
        account_at(s, account_place(selected_account(s)->0)) is Some,
        ({
            let account = selected_account(s)->0;
            let a = account_at(s, account_place(account))->0;
            let f = forked_name(s, account);
            &&& fork_writes(s).len() == 2
            &&& fork_writes(s)[0].path == provider_place(f)
            &&& fork_writes(s)[1].path == account_place(account)
            &&& component_ok(f)
            &&& s.at(provider_place(f)) is None
            &&& provider_at(s, provider_place(f)) is None
            &&& f != a.provider
            &&& !shared_with(s, s.children(accounts_root()), account, f)
        }),
{
    let account = selected_account(s)->0;
    let a = account_at(s, account_place(account))->0;
    let f = forked_name(s, account);
    let names = s.children(accounts_root());
    forked_name_is_the_first_free(s, account);
    let j = choose|j: int|
        0 <= j < names.len() && #[trigger] names[j] != account && component_ok(names[j])
            && account_at(s, account_place(names[j])) is Some && account_at(
            s,
            account_place(names[j]),
        )->0.provider == a.provider;
    assert(bound_provider(s, names[j]) == a.provider);
    lemma_nothing_below(s.entries, provider_place(f));
}

proof fn lemma_nothing_below(entries: Seq<EntryView>, place: Seq<Seq<char>>)
    requires
        !(SnapshotView { entries }).holds_below(place),
    ensures
        find(entries, place) is None,
    decreases entries.len(),
{
    if entries.len() > 0 {
        let s = SnapshotView { entries };
        let rest = entries.drop_last();
        assert forall|i: int| 0 <= i < rest.len() implies !leads(
            place,
            (#[trigger] rest[i]).path,
        ) by {
            assert(rest[i] == s.entries[i]);
        }
        lemma_nothing_below(rest, place);
        let last = s.entries[entries.len() - 1].path;
        assert(!leads(place, last));
        assert(place.subrange(0, place.len() as int) =~= place);
    }
}

/// After a fork the account is bound to a copy of the provider it shared, under
/// a name that no other account is bound to. Every other account stays bound
/// as it was, and every value but the two that are written stays as it was.
pub proof fn fork_parts_the_account(s: SnapshotView, n: Seq<char>)
    requires
        fork_writes(s).len() > 0,
    ensures
        ({
            let account = selected_account(s)->0;
            let a = account_at(s, account_place(account))->0;
            let f = forked_name(s, account);
            let t = written(s, fork_writes(s));
            let copied = match provider_at(s, provider_place(a.provider)) {
                Some(p) => p,
                None => blank_provider(a.provider),
            };
            &&& bound_provider(t, account) == f
            &&& provider_at(t, provider_place(f)) == Some(copied)
            &&& n != account ==> bound_provider(t, n) == bound_provider(s, n)
            &&& n != account && s.children(accounts_root()).contains(n) ==> bound_provider(t, n)
                != f
            &&& forall|p: Seq<Seq<char>>|
                p != provider_place(f) && p != account_place(account) ==> #[trigger] t.at(p)
                    == s.at(p)
        }),
{
    let account = selected_account(s)->0;
    let f = forked_name(s, account);
    let w = fork_writes(s);
    let t = written(s, w);
    forked_name_is_the_first_free(s, account);
    assert(w =~= seq![w[0], w[1]]);
    let m = written(s, seq![w[0]]);
    two_writes_in_turn(s, w[0], w[1]);
    one_write_shows_at_its_path(s, w[0]);
    one_write_shows_at_its_path(m, w[1]);
    lemma_roots_differ();
    assert(provider_place(f)[2] == "providers"@);
    assert(account_place(account)[2] == "accounts"@);
    assert(t.at(provider_place(f)) == Some(w[0].value));
    if n != account {
        assert(account_place(n)[2] == "accounts"@);
        assert(account_place(n)[3] == n);
        assert(account_place(account)[3] == account);
        assert(account_child(n, "provider"@).len() == 5);
        assert(t.at(account_place(n)) == s.at(account_place(n)));
        assert(t.at(account_child(n, "provider"@)) == s.at(account_child(n, "provider"@)));
    }
}

/// A connection that is acted on and shares its provider with another one is
/// given a copy of it: the copy has the same dialect, endpoint, version and
/// scheme, the connection keeps its display name, and the provider that was
/// shared stays as it was. One that shares its provider with none is left alone.
pub proof fn forking_changes_the_binding_only(
    s: SnapshotView,
    account: Seq<char>,
    a: AccountView,
    p: ProviderView,
)
    requires
        selected_account(s) == Some(account),
        s.at(seq!["config"@, "gate"@, "accounts"@, account]) == Some(ValueView::Account(a)),
        component_ok(a.provider),
        s.at(seq!["config"@, "gate"@, "providers"@, a.provider]) == Some(ValueView::Provider(p)),
    ensures
        ({
            let shared = exists|n: Seq<char>|
                #![trigger s.children(accounts_root()).contains(n)]
                s.children(accounts_root()).contains(n) && n != account && component_ok(n)
                    && account_at(s, account_place(n)) is Some && account_at(
                    s,
                    account_place(n),
                )->0.provider == a.provider;
            let t = written(s, fork_writes(s));
            let f = forked_name(s, account);
            &&& !shared ==> t == s
            &&& shared ==> t.at(seq!["config"@, "gate"@, "accounts"@, account]) == Some(
                ValueView::Account(AccountView { provider: f, display_name: a.display_name }),
            ) && t.at(seq!["config"@, "gate"@, "providers"@, f]) == Some(ValueView::Provider(p))
                && t.at(seq!["config"@, "gate"@, "providers"@, a.provider]) == Some(
                ValueView::Provider(p),
            )
        }),
{
    let names = s.children(accounts_root());
    if exists|n: Seq<char>|
        #![trigger s.children(accounts_root()).contains(n)]
        s.children(accounts_root()).contains(n) && n != account && component_ok(n) && account_at(
            s,
            account_place(n),
        ) is Some && account_at(s, account_place(n))->0.provider == a.provider {
        let n = choose|n: Seq<char>|
            #![trigger s.children(accounts_root()).contains(n)]
            s.children(accounts_root()).contains(n) && n != account && component_ok(n)
                && account_at(s, account_place(n)) is Some && account_at(
                s,
                account_place(n),
            )->0.provider == a.provider;
        let k = choose|k: int| 0 <= k < names.len() && names[k] == n;
        assert(names[k] != account);
        assert(shared_with(s, names, account, a.provider));
        let f = forked_name(s, account);
        let w = fork_writes(s);
        assert(w.len() == 2);
        fork_takes_a_fresh_name(s);
        fork_parts_the_account(s, account);
        lemma_roots_differ();
        assert(provider_place(f)[2] == "providers"@);
        assert(provider_place(a.provider)[2] == "providers"@);
        assert(provider_place(f)[3] == f);
        assert(provider_place(a.provider)[3] == a.provider);
        assert(account_place(account)[2] == "accounts"@);
        assert(w =~= seq![w[0], w[1]]);
        let m = written(s, seq![w[0]]);
        two_writes_in_turn(s, w[0], w[1]);
        one_write_shows_at_its_path(m, w[1]);
    } else if fork_writes(s).len() > 0 {
        let k = choose|k: int|
            0 <= k < names.len() && #[trigger] names[k] != account && component_ok(names[k])
                && account_at(s, account_place(names[k])) is Some && account_at(
                s,
                account_place(names[k]),
            )->0.provider == a.provider;
        assert(names.contains(names[k]));
    }
}

/// Where the connection's name with `_fork` behind it is taken, the fork is
/// counted: it gets the first number, from one on, that makes a free name.
pub proof fn taken_forks_are_counted(s: SnapshotView, account: Seq<char>, n: nat)
    requires
        n > 0,
        !provider_free(s, safe_text(account + "_fork"@)),
        forall|j: nat|
            0 < j < n ==> !provider_free(
                s,
                safe_text(account + "_fork"@) + "_"@ + #[trigger] decimal(j),
            ),
        provider_free(s, safe_text(account + "_fork"@) + "_"@ + decimal(n)),
    ensures
        forked_name(s, account) == safe_text(account + "_fork"@) + "_"@ + decimal(n),
{
    forked_name_is_the_first_free(s, account);
    let k = fork_number(s, account, 0);
    if k < n {
        if k > 0 {
            assert(!provider_free(s, safe_text(account + "_fork"@) + "_"@ + decimal(k)));
        }
    } else if n < k {
        assert(!provider_free(s, fork_candidate(account, n)));
    }
}

} // verus!
