//! What the record of shortcuts holds, and when it changes.

use crate::assoc::lookup;
use crate::help::{
    candidate, candidates_along, candidates_at, candidates_for, context_hints, firsts, hints_of,
    Candidate,
};
use crate::hint_laws::{
    first_named, lemma_first_named, lemma_hint_comes_from, lemma_hint_of, lemma_named_in_turn,
};
use crate::keys::{chord_text, BindingView, HintView, JoinedView};
use crate::ordered::placing_all_keeps_classes;
use crate::path::{ancestors, leads, path_ok};
use crate::renderers::util::path_at;
use crate::shortcuts::{
    hint_class, hints_value, join_all, joined_along, joined_at, joined_hint, joined_in_store,
    joined_stored_at, joined_value_round_trip, projected, resolver_writes, stored_bindings,
    stored_names, ResolverView,
};
use crate::snapshot::{lasting, untouched, writes_show_at_their_paths, written, SnapshotView};
use crate::value::{path_value, ValueView};
use vstd::prelude::*;

verus! {

/// Whether a joined binding is for a key of that name and its scope admits a
/// cursor.
pub open spec fn in_force(j: JoinedView, scope: Seq<Seq<char>>, text: Seq<char>) -> bool {
    j.scope.admits(scope) && chord_text(j.key) == text
}

spec fn stands_in(j: JoinedView) -> Candidate {
    Candidate { key: chord_text(j.key), hint: Some(joined_hint(j)) }
}

proof fn lemma_at_comes_from(joined: Seq<JoinedView>, scope: Seq<Seq<char>>, c: Candidate)
    requires
        joined_at(joined, scope).contains(c),
    ensures
        exists|k: int|
            0 <= k < joined.len() && (#[trigger] joined[k]).scope.admits(scope) && c == stands_in(
                joined[k],
            ),
    decreases joined.len(),
{
    if joined.len() > 0 {
        let t = joined.drop_last();
        let rest = joined_at(t, scope);
        let all = joined_at(joined, scope);
        let m = choose|m: int| 0 <= m < all.len() && all[m] == c;
        if m < rest.len() {
            assert(rest[m] == c);
            lemma_at_comes_from(t, scope, c);
            let k = choose|k: int|
                0 <= k < t.len() && (#[trigger] t[k]).scope.admits(scope) && c == stands_in(t[k]);
            assert(joined[k] == t[k]);
        } else {
            assert(joined[joined.len() - 1] == joined.last());
        }
    }
}

proof fn lemma_along_comes_from(
    joined: Seq<JoinedView>,
    chain: Seq<Seq<Seq<char>>>,
    n: int,
    c: Candidate,
)
    requires
        n <= chain.len(),
        joined_along(joined, chain, n).contains(c),
    ensures
        exists|i: int, k: int|
            0 <= i < n && 0 <= k < joined.len() && (#[trigger] joined[k]).scope.admits(
                #[trigger] chain[i],
            ) && c == stands_in(joined[k]),
    decreases n,
{
    if n > 0 {
        let here = joined_at(joined, chain[n - 1]);
        let rest = joined_along(joined, chain, n - 1);
        let m = choose|m: int| 0 <= m < (here + rest).len() && (here + rest)[m] == c;
        if m < here.len() {
            assert(here[m] == c);
            lemma_at_comes_from(joined, chain[n - 1], c);
            let k = choose|k: int|
                0 <= k < joined.len() && (#[trigger] joined[k]).scope.admits(chain[n - 1]) && c
                    == stands_in(joined[k]);
            assert(joined[k].scope.admits(chain[n - 1]));
        } else {
            assert(rest[m - here.len()] == c);
            lemma_along_comes_from(joined, chain, n - 1, c);
        }
    }
}

proof fn lemma_firsts_are_candidates(c: Seq<Candidate>, x: Candidate)
    requires
        firsts(c).contains(x),
    ensures
        c.contains(x),
    decreases c.len(),
{
    if c.len() > 0 {
        let t = c.drop_last();
        let m = choose|m: int| 0 <= m < firsts(c).len() && firsts(c)[m] == x;
        if m < firsts(t).len() {
            assert(firsts(t)[m] == x);
            lemma_firsts_are_candidates(t, x);
            let k = choose|k: int| 0 <= k < t.len() && t[k] == x;
            assert(c[k] == x);
        } else {
            assert(c[c.len() - 1] == x);
        }
    }
}

/// Every shortcut listed where a cursor is stands for a binding whose scope
/// admits the cursor or a leading part of it: it shows that binding's key, the
/// name and id of its command, and its priority.
pub proof fn shortcuts_come_from_bindings(
    joined: Seq<JoinedView>,
    cursor: Seq<Seq<char>>,
    h: HintView,
)
    requires
        projected(joined, cursor).contains(h),
    ensures
        exists|n: int, k: int|
            1 <= n <= cursor.len() && 0 <= k < joined.len() && (#[trigger] joined[k]).scope.admits(
                #[trigger] cursor.subrange(0, n),
            ) && h.key == chord_text(joined[k].key) && h.description == joined[k].description
                && h.command == joined[k].command && h.priority == joined[k].priority
                && !h.status_hint,
{
    let chain = ancestors(cursor);
    let c = joined_along(joined, chain, cursor.len() as int);
    placing_all_keeps_classes(Seq::<HintView>::empty(), hint_class(), hints_of(firsts(c)));
    assert(projected(joined, cursor).contains(h));
    assert(hints_of(firsts(c)).contains(h));
    lemma_hint_comes_from(firsts(c), h);
    let m = choose|m: int| 0 <= m < firsts(c).len() && (#[trigger] firsts(c)[m]).hint == Some(h);
    let x = firsts(c)[m];
    lemma_firsts_are_candidates(c, x);
    lemma_along_comes_from(joined, chain, cursor.len() as int, x);
    let (i, k) = choose|i: int, k: int|
        0 <= i < cursor.len() && 0 <= k < joined.len() && (#[trigger] joined[k]).scope.admits(
            #[trigger] chain[i],
        ) && x == stands_in(joined[k]);
    assert(chain[i] == cursor.subrange(0, i + 1));
    assert(joined[k].scope.admits(cursor.subrange(0, i + 1)));
}

proof fn lemma_none_at(joined: Seq<JoinedView>, scope: Seq<Seq<char>>, text: Seq<char>)
    requires
        forall|k: int| 0 <= k < joined.len() ==> !in_force(#[trigger] joined[k], scope, text),
    ensures
        first_named(joined_at(joined, scope), text) is None,
    decreases joined.len(),
{
    if joined.len() > 0 {
        let t = joined.drop_last();
        assert forall|k: int| 0 <= k < t.len() implies !in_force(#[trigger] t[k], scope, text) by {
            assert(t[k] == joined[k]);
        }
        lemma_none_at(t, scope, text);
        let rest = joined_at(t, scope);
        assert(!in_force(joined[joined.len() - 1], scope, text));
        assert(rest.push(stands_in(joined.last())).drop_last() =~= rest);
    }
}

proof fn lemma_first_at(
    joined: Seq<JoinedView>,
    scope: Seq<Seq<char>>,
    text: Seq<char>,
    k: int,
)
    requires
        0 <= k < joined.len(),
        in_force(joined[k], scope, text),
        forall|j: int| 0 <= j < k ==> !in_force(#[trigger] joined[j], scope, text),
    ensures
        first_named(joined_at(joined, scope), text) == Some(stands_in(joined[k])),
    decreases joined.len(),
{
    let t = joined.drop_last();
    let rest = joined_at(t, scope);
    assert(rest.push(stands_in(joined.last())).drop_last() =~= rest);
    assert forall|j: int| 0 <= j < t.len() implies #[trigger] t[j] == joined[j] by {}
    if k < t.len() {
        lemma_first_at(t, scope, text, k);
    } else {
        lemma_none_at(t, scope, text);
    }
}

proof fn lemma_first_along(
    joined: Seq<JoinedView>,
    chain: Seq<Seq<Seq<char>>>,
    text: Seq<char>,
    n: int,
    m: int,
    k: int,
)
    requires
        0 <= m < n <= chain.len(),
        0 <= k < joined.len(),
        in_force(joined[k], chain[m], text),
        forall|j: int| 0 <= j < k ==> !in_force(#[trigger] joined[j], chain[m], text),
        forall|i: int, j: int|
            m < i < n && 0 <= j < joined.len() ==> !in_force(
                #[trigger] joined[j],
                #[trigger] chain[i],
                text,
            ),
    ensures
        first_named(joined_along(joined, chain, n), text) == Some(stands_in(joined[k])),
    decreases n,
{
    let here = joined_at(joined, chain[n - 1]);
    lemma_named_in_turn(here, joined_along(joined, chain, n - 1), text);
    if m == n - 1 {
        lemma_first_at(joined, chain[m], text, k);
    } else {
        assert forall|j: int| 0 <= j < joined.len() implies !in_force(
            #[trigger] joined[j],
            chain[n - 1],
            text,
        ) by {}
        lemma_none_at(joined, chain[n - 1], text);
        lemma_first_along(joined, chain, text, n - 1, m, k);
    }
}

/// Where a binding is the first for its key at a leading part of the cursor, and
/// no binding for that key is in force at a longer part, it is the one that is
/// listed.
pub proof fn innermost_binding_is_listed(
    joined: Seq<JoinedView>,
    cursor: Seq<Seq<char>>,
    n: int,
    k: int,
)
    requires
        1 <= n <= cursor.len(),
        0 <= k < joined.len(),
        joined[k].scope.admits(cursor.subrange(0, n)),
        forall|j: int|
            0 <= j < k && (#[trigger] joined[j]).scope.admits(cursor.subrange(0, n)) ==> chord_text(
                joined[j].key,
            ) != chord_text(joined[k].key),
        forall|i: int, j: int|
            n < i <= cursor.len() && 0 <= j < joined.len() && (#[trigger] joined[j]).scope.admits(
                #[trigger] cursor.subrange(0, i),
            ) ==> chord_text(joined[j].key) != chord_text(joined[k].key),
    ensures
        exists|x: int|
            0 <= x < projected(joined, cursor).len() && (#[trigger] projected(joined, cursor)[x]).key
                == chord_text(joined[k].key) && projected(joined, cursor)[x].command
                == joined[k].command && projected(joined, cursor)[x].description
                == joined[k].description && projected(joined, cursor)[x].priority
                == joined[k].priority,
{
    let chain = ancestors(cursor);
    let len = cursor.len() as int;
    let text = chord_text(joined[k].key);
    let c = joined_along(joined, chain, len);
    assert(chain[n - 1] == cursor.subrange(0, n));
    assert forall|i: int, j: int| n - 1 < i < len && 0 <= j < joined.len() implies !in_force(
        #[trigger] joined[j],
        #[trigger] chain[i],
        text,
    ) by {
        assert(chain[i] == cursor.subrange(0, i + 1));
    }
    lemma_first_along(joined, chain, text, len, n - 1, k);
    lemma_first_named(c, text);
    let want = stands_in(joined[k]);
    let m = choose|m: int| 0 <= m < firsts(c).len() && firsts(c)[m] == want;
    lemma_hint_of(firsts(c), m);
    placing_all_keeps_classes(Seq::<HintView>::empty(), hint_class(), hints_of(firsts(c)));
    let p = projected(joined, cursor);
    assert(p.contains(joined_hint(joined[k])));
    let x = choose|x: int| 0 <= x < p.len() && p[x] == joined_hint(joined[k]);
    assert(p[x].key == text);
}

/// Joining leaves out exactly the bindings whose commands have no name, and
/// gives each of the others the name of its command and nothing else.
pub proof fn bindings_are_joined_with_names(
    entries: Seq<BindingView>,
    names: Seq<(Seq<char>, Seq<char>)>,
    b: BindingView,
    j: JoinedView,
)
    ensures
        entries.contains(b) && lookup(names, b.command) is Some ==> exists|x: int|
            0 <= x < join_all(entries, names).len() && (#[trigger] join_all(entries, names)[x]).scope
                == b.scope && join_all(entries, names)[x].key == b.key && join_all(
                entries,
                names,
            )[x].priority == b.priority && join_all(entries, names)[x].command == b.command
                && Some(join_all(entries, names)[x].description) == lookup(names, b.command),
        join_all(entries, names).contains(j) ==> exists|x: int|
            0 <= x < entries.len() && (#[trigger] entries[x]).scope == j.scope && entries[x].key
                == j.key && entries[x].priority == j.priority && entries[x].command == j.command
                && lookup(names, j.command) == Some(j.description),
        join_all(entries, names).len() <= entries.len(),
    decreases entries.len(),
{
    if entries.len() > 0 {
        let t = entries.drop_last();
        let all = join_all(entries, names);
        let rest = join_all(t, names);
        bindings_are_joined_with_names(t, names, b, j);
        assert forall|x: int| 0 <= x < t.len() implies #[trigger] entries[x] == t[x] by {}
        assert(entries[entries.len() - 1] == entries.last());
        assert forall|x: int| 0 <= x < rest.len() implies #[trigger] all[x] == rest[x] by {}
        if entries.contains(b) && lookup(names, b.command) is Some {
            let y = choose|y: int| 0 <= y < entries.len() && entries[y] == b;
            if y < t.len() {
                assert(t[y] == b);
                let x = choose|x: int|
                    0 <= x < rest.len() && (#[trigger] rest[x]).scope == b.scope && rest[x].key
                        == b.key && rest[x].priority == b.priority && rest[x].command == b.command
                        && Some(rest[x].description) == lookup(names, b.command);
                assert(all[x] == rest[x]);
            } else {
                assert(all[rest.len() as int].scope == b.scope);
            }
        }
        if all.contains(j) {
            let y = choose|y: int| 0 <= y < all.len() && all[y] == j;
            if y < rest.len() {
                assert(rest[y] == j);
            } else {
                assert(entries[entries.len() - 1].scope == j.scope);
            }
        }
    }
}

/// Where the focus moves, the shortcuts become those of the place it moves to,
/// taken from the bindings as they were joined before; nothing else changes.
pub proof fn shortcuts_follow_the_focus(
    r: ResolverView,
    s: SnapshotView,
    cursor: Seq<Seq<char>>,
)
    requires
        !leads(r.bindings, r.cursor),
        !leads(r.commands, r.cursor),
        path_ok(cursor),
    ensures
        ({
            let t = written(s, resolver_writes(r, s, r.cursor, Some(path_value(cursor))));
            &&& t.at(r.output) == Some(
                hints_value(projected(joined_stored_at(s, r.registry), cursor)),
            )
            &&& forall|x: Seq<Seq<char>>| x != r.output ==> #[trigger] t.at(x) == s.at(x)
        }),
{
    let w = resolver_writes(r, s, r.cursor, Some(path_value(cursor)));
    crate::commands::navigation::path_value_round_trip(cursor);
    writes_show_at_their_paths(s, w);
    assert(w.len() == 1 && w[0].path == r.output);
    assert(lasting(w, 0));
    assert forall|x: Seq<Seq<char>>| x != r.output implies #[trigger] written(s, w).at(x) == s.at(
        x,
    ) by {
        assert(untouched(w, x));
    }
}

/// Where a binding or a command changes, all of them are joined anew, and the
/// shortcuts become those of the place that has the focus.
pub proof fn shortcuts_follow_the_bindings(
    r: ResolverView,
    s: SnapshotView,
    changed: Seq<Seq<char>>,
    after: Option<ValueView>,
    cursor: Seq<Seq<char>>,
)
    requires
        leads(r.bindings, changed) || leads(r.commands, changed),
        r.output != r.registry,
        after is None || crate::renderers::util::value_path(after->0) is None,
        path_at(s, r.cursor) == Some(cursor),
    ensures
        ({
            let t = written(s, resolver_writes(r, s, changed, after));
            let joined = joined_in_store(s, r.bindings, r.commands);
            &&& joined_stored_at(t, r.registry) == joined
            &&& t.at(r.output) == Some(hints_value(projected(joined, cursor)))
            &&& forall|x: Seq<Seq<char>>|
                x != r.output && x != r.registry ==> #[trigger] t.at(x) == s.at(x)
        }),
{
    let w = resolver_writes(r, s, changed, after);
    joined_value_round_trip(joined_in_store(s, r.bindings, r.commands));
    writes_show_at_their_paths(s, w);
    assert(w.len() == 2 && w[0].path == r.registry && w[1].path == r.output);
    assert(lasting(w, 0));
    assert(lasting(w, 1));
    assert forall|x: Seq<Seq<char>>| x != r.output && x != r.registry implies #[trigger] written(
        s,
        w,
    ).at(x) == s.at(x) by {
        assert(untouched(w, x));
    }
}

proof fn lemma_stored_binding(
    s: SnapshotView,
    prefix: Seq<Seq<char>>,
    names: Seq<Seq<char>>,
    b: BindingView,
)
    ensures
        stored_bindings(s, prefix, names).contains(b) <==> exists|i: int|
            0 <= i < names.len() && s.at(prefix.push(#[trigger] names[i])) == Some(
                ValueView::Binding(b),
            ),
    decreases names.len(),
{
    if names.len() > 0 {
        let t = names.drop_last();
        lemma_stored_binding(s, prefix, t, b);
        let rest = stored_bindings(s, prefix, t);
        let all = stored_bindings(s, prefix, names);
        assert(names[names.len() - 1] == names.last());
        assert forall|i: int| 0 <= i < t.len() implies #[trigger] names[i] == t[i] by {}
        if rest.contains(b) {
            let x = choose|x: int| 0 <= x < rest.len() && rest[x] == b;
            assert(all[x] == b);
            let i = choose|i: int|
                0 <= i < t.len() && s.at(prefix.push(#[trigger] t[i])) == Some(
                    ValueView::Binding(b),
                );
            assert(names[i] == t[i]);
        } else if s.at(prefix.push(names.last())) == Some(ValueView::Binding(b)) {
            assert(all[rest.len() as int] == b);
        } else {
            if all.contains(b) {
                let x = choose|x: int| 0 <= x < all.len() && all[x] == b;
                if x < rest.len() {
                    assert(rest[x] == b);
                }
            }
            assert forall|i: int| 0 <= i < names.len() implies s.at(
                prefix.push(#[trigger] names[i]),
            ) != Some(ValueView::Binding(b)) by {
                if i < t.len() {
                    assert(t[i] == names[i]);
                }
            }
        }
    }
}

/// The bindings that are read from a store are those stored under a name of
/// their own below the place for them, and no others.
pub proof fn stored_bindings_are_read(
    s: SnapshotView,
    prefix: Seq<Seq<char>>,
    b: BindingView,
)
    ensures
        stored_bindings(s, prefix, s.children(prefix)).contains(b) <==> exists|i: int|
            0 <= i < s.children(prefix).len() && s.at(prefix.push(#[trigger] s.children(prefix)[i]))
                == Some(ValueView::Binding(b)),
{
    lemma_stored_binding(s, prefix, s.children(prefix), b);
}

/// A command that is stored under its id is known by the name that is stored for
/// it; one that is not stored has no name.
pub proof fn stored_commands_are_named(
    s: SnapshotView,
    prefix: Seq<Seq<char>>,
    names: Seq<Seq<char>>,
    id: Seq<char>,
)
    ensures
        lookup(stored_names(s, prefix, names), id) == match s.at(prefix.push(id)) {
            Some(ValueView::Metadata(d)) => if names.contains(id) {
                Some(d.name)
            } else {
                None
            },
            _ => None,
        },
    decreases names.len(),
{
    if names.len() > 0 {
        let t = names.drop_last();
        stored_commands_are_named(s, prefix, t, id);
        let rest = stored_names(s, prefix, t);
        let all = stored_names(s, prefix, names);
        if all.len() > rest.len() {
            assert(all.drop_last() =~= rest);
        }
        assert(names[names.len() - 1] == names.last());
        if names.contains(id) {
            let i = choose|i: int| 0 <= i < names.len() && names[i] == id;
            if i < t.len() {
                assert(t[i] == id);
            }
        }
        if t.contains(id) {
            let i = choose|i: int| 0 <= i < t.len() && t[i] == id;
            assert(names[i] == id);
        }
    }
}

proof fn lemma_candidate_comes_from(
    entries: Seq<BindingView>,
    names: Seq<(Seq<char>, Seq<char>)>,
    scope: Seq<Seq<char>>,
    c: Candidate,
)
    requires
        candidates_at(entries, names, scope).contains(c),
    ensures
        exists|k: int|
            0 <= k < entries.len() && (#[trigger] entries[k]).scope.admits(scope) && c == candidate(
                entries[k],
                names,
            ),
    decreases entries.len(),
{
    if entries.len() > 0 {
        let t = entries.drop_last();
        let rest = candidates_at(t, names, scope);
        let all = candidates_at(entries, names, scope);
        let m = choose|m: int| 0 <= m < all.len() && all[m] == c;
        if m < rest.len() {
            assert(rest[m] == c);
            lemma_candidate_comes_from(t, names, scope, c);
            let k = choose|k: int|
                0 <= k < t.len() && (#[trigger] t[k]).scope.admits(scope) && c == candidate(
                    t[k],
                    names,
                );
            assert(entries[k] == t[k]);
        } else {
            assert(entries[entries.len() - 1] == entries.last());
        }
    }
}

proof fn lemma_candidates_come_from(
    entries: Seq<BindingView>,
    names: Seq<(Seq<char>, Seq<char>)>,
    cursor: Seq<Seq<char>>,
    n: int,
    c: Candidate,
)
    requires
        n <= cursor.len(),
        candidates_along(entries, names, ancestors(cursor), n).contains(c),
    ensures
        exists|i: int, k: int|
            1 <= i <= n && 0 <= k < entries.len() && (#[trigger] entries[k]).scope.admits(
                #[trigger] cursor.subrange(0, i),
            ) && c == candidate(entries[k], names),
    decreases n,
{
    if n > 0 {
        let chain = ancestors(cursor);
        let here = candidates_at(entries, names, chain[n - 1]);
        let rest = candidates_along(entries, names, chain, n - 1);
        let m = choose|m: int| 0 <= m < (here + rest).len() && (here + rest)[m] == c;
        if m < here.len() {
            assert(here[m] == c);
            lemma_candidate_comes_from(entries, names, chain[n - 1], c);
            let k = choose|k: int|
                0 <= k < entries.len() && (#[trigger] entries[k]).scope.admits(chain[n - 1]) && c
                    == candidate(entries[k], names);
            assert(chain[n - 1] == cursor.subrange(0, n));
            assert(entries[k].scope.admits(cursor.subrange(0, n)));
        } else {
            assert(rest[m - here.len()] == c);
            lemma_candidates_come_from(entries, names, cursor, n - 1, c);
        }
    }
}

/// Whether a hint stands for a binding whose scope admits a cursor or a leading
/// part of it: with that binding's key, the name and id of its command, and its
/// priority.
pub open spec fn hint_from(
    entries: Seq<BindingView>,
    names: Seq<(Seq<char>, Seq<char>)>,
    cursor: Seq<Seq<char>>,
    h: HintView,
) -> bool {
    exists|n: int, k: int|
        1 <= n <= cursor.len() && 0 <= k < entries.len() && (#[trigger] entries[k]).scope.admits(
            #[trigger] cursor.subrange(0, n),
        ) && h.key == chord_text(entries[k].key) && lookup(names, entries[k].command) == Some(
            h.description,
        ) && h.command == entries[k].command && h.priority == entries[k].priority
            && !h.status_hint
}

/// Every hint shown for a focus and a page stands for a binding that is in force
/// at the focus or at the page, and is named after the binding's command.
pub proof fn hints_come_from_bindings(
    entries: Seq<BindingView>,
    names: Seq<(Seq<char>, Seq<char>)>,
    page: Seq<Seq<char>>,
    focus: Option<Seq<Seq<char>>>,
    h: HintView,
)
    requires
        context_hints(entries, names, page, focus).contains(h),
    ensures
        hint_from(entries, names, page, h) || (focus is Some && hint_from(
            entries,
            names,
            focus->0,
            h,
        )),
{
    let inner = match focus {
        Some(f) => candidates_for(entries, names, f),
        None => Seq::empty(),
    };
    let outer = candidates_for(entries, names, page);
    let c = inner + outer;
    lemma_hint_comes_from(firsts(c), h);
    let m = choose|m: int| 0 <= m < firsts(c).len() && (#[trigger] firsts(c)[m]).hint == Some(h);
    let x = firsts(c)[m];
    lemma_firsts_are_candidates(c, x);
    let j = choose|j: int| 0 <= j < c.len() && c[j] == x;
    let at = if j < inner.len() {
        focus->0
    } else {
        page
    };
    if j < inner.len() {
        assert(inner[j] == x);
    } else {
        assert(outer[j - inner.len()] == x);
    }
    lemma_candidates_come_from(entries, names, at, at.len() as int, x);
    let (n, k) = choose|n: int, k: int|
        1 <= n <= at.len() && 0 <= k < entries.len() && (#[trigger] entries[k]).scope.admits(
            #[trigger] at.subrange(0, n),
        ) && x == candidate(entries[k], names);
    assert(entries[k].scope.admits(at.subrange(0, n)));
}

} // verus!
