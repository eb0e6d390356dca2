//! The shortcuts in force where the focus is, kept up to date in the store.
//!
//! Two records are kept: all bindings joined with their commands' names, which
//! only a change of bindings or commands touches, and the hints for the current
//! cursor, taken from it.

use crate::assoc::lookup;
use crate::command_registry::{Command, CommandRegistry};
use crate::commands::navigation::{path_from_value, read_path};
use crate::help::{
    command_names, firsts, hints_of, keys_of, name_of, names_in, names_view, stands_for, Candidate,
};
use crate::keys::{
    bindings_view, chord_text, encode_keychord, hints_view, joined_view, opt_path, BindingView,
    HintView, JoinedBinding, JoinedView, KeyHint, ScopedBinding,
};
use crate::ordered::{by_class, placed, placed_all, placing_all_keeps_classes, slot};
use crate::path::{ancestors, leads, path3, path_ancestors, paths_view, Path};
use crate::registry::Renderer;
use crate::renderers::util::{path_at, value_path};
use crate::scopes::ScopeRegistry;
use crate::snapshot::{SettingsSnapshot, SnapshotView};
use crate::text::{contains_text, texts};
use crate::value::{
    array_view, put, values_view, write_at, writes_view, StoreValue, ValueView, Write, WriteView,
};
use vstd::prelude::*;
use vstd::string::*;

verus! {

/// Where the hints for the current cursor are kept.
pub fn shortcuts_path() -> (r: Path)
    ensures
        r@ == seq!["ui"@, "settings"@, "shortcuts"@],
{
    path3("ui", "settings", "shortcuts")
}

/// Where all bindings, joined with their commands' names, are kept.
pub fn joined_registry_path() -> (r: Path)
    ensures
        r@ == seq!["horns"@, "settings"@, "shortcut_registry"@],
{
    path3("horns", "settings", "shortcut_registry")
}

/// A binding joined with the name of its command.
pub open spec fn join_one(b: BindingView, name: Seq<char>) -> JoinedView {
    JoinedView {
        scope: b.scope,
        key: b.key,
        priority: b.priority,
        description: name,
        command: b.command,
    }
}

/// The bindings whose commands have a name, joined with it.
pub open spec fn join_all(
    entries: Seq<BindingView>,
    names: Seq<(Seq<char>, Seq<char>)>,
) -> Seq<JoinedView>
    decreases entries.len(),
{
    if entries.len() == 0 {
        Seq::empty()
    } else {
        let rest = join_all(entries.drop_last(), names);
        match lookup(names, entries.last().command) {
            Some(name) => rest.push(join_one(entries.last(), name)),
            None => rest,
        }
    }
}

/// The bindings whose commands have a name, joined with it.
pub fn join_tables(entries: &Vec<ScopedBinding>, names: &Vec<(String, String)>) -> (r: Vec<
    JoinedBinding,
>)
    ensures
        joined_view(r@) == join_all(bindings_view(entries@), names_view(names@)),
{
    let ghost all = bindings_view(entries@);
    let ghost index = names_view(names@);
    let mut out: Vec<JoinedBinding> = Vec::new();
    let mut i: usize = 0;
    proof {
        assert(joined_view(out@) =~= join_all(all.subrange(0, 0), index));
    }
    while i < entries.len()
        invariant
            i <= entries@.len(),
            all == bindings_view(entries@),
            index == names_view(names@),
            joined_view(out@) == join_all(all.subrange(0, i as int), index),
        decreases entries@.len() - i,
    {
        let e: &ScopedBinding = &entries[i];
        let ghost before = joined_view(out@);
        proof {
            let t = all.subrange(0, i + 1);
            assert(t.drop_last() =~= all.subrange(0, i as int));
            assert(t.last() == e@);
        }
        match name_of(names, e.command_id.0.as_str()) {
            Some(name) => {
                out.push(
                    JoinedBinding {
                        scope: e.scope.copied(),
                        key: e.key,
                        priority: e.priority,
                        description: name.clone(),
                        command_id: e.command_id.copied(),
                    },
                );
                proof {
                    assert(joined_view(out@) =~= before.push(join_one(e@, name@)));
                }
            },
            None => {},
        }
        i += 1;
    }
    proof {
        assert(all.subrange(0, i as int) =~= all);
    }
    out
}

/// All bindings of a registry whose commands another one has, joined.
pub fn build_joined_from_registries<R: Renderer, C: Command<R>>(
    bindings: &ScopeRegistry,
    commands: &CommandRegistry<C>,
) -> (r: Vec<JoinedBinding>)
    ensures
        joined_view(r@) == join_all(bindings@.entries, names_in::<R, C>(commands@)),
{
    let names: Vec<(String, String)> = command_names::<R, C>(commands);
    join_tables(bindings.entries(), &names)
}

/// The hint for a joined binding.
pub open spec fn joined_hint(j: JoinedView) -> HintView {
    HintView {
        key: chord_text(j.key),
        description: j.description,
        command: j.command,
        status_hint: false,
        priority: j.priority,
    }
}

/// The candidates for the joined bindings whose scope admits a cursor.
pub open spec fn joined_at(joined: Seq<JoinedView>, cursor: Seq<Seq<char>>) -> Seq<Candidate>
    decreases joined.len(),
{
    if joined.len() == 0 {
        Seq::empty()
    } else {
        let rest = joined_at(joined.drop_last(), cursor);
        let j = joined.last();
        if j.scope.admits(cursor) {
            rest.push(Candidate { key: chord_text(j.key), hint: Some(joined_hint(j)) })
        } else {
            rest
        }
    }
}

/// The candidates at the first `n` scopes of a chain, the innermost first.
pub open spec fn joined_along(
    joined: Seq<JoinedView>,
    chain: Seq<Seq<Seq<char>>>,
    n: int,
) -> Seq<Candidate>
    decreases n,
{
    if n <= 0 {
        Seq::empty()
    } else {
        joined_at(joined, chain[n - 1]) + joined_along(joined, chain, n - 1)
    }
}

/// The place of a hint in the order hints are shown in.
pub open spec fn hint_class() -> spec_fn(HintView) -> nat {
    |h: HintView| h.priority as nat
}

/// The hints where a cursor is: one for each key, the narrowest scope's, sorted
/// by priority.
pub open spec fn projected(joined: Seq<JoinedView>, cursor: Seq<Seq<char>>) -> Seq<HintView> {
    placed_all(
        Seq::empty(),
        hint_class(),
        hints_of(firsts(joined_along(joined, ancestors(cursor), cursor.len() as int))),
    )
}

fn emit_joined(
    joined: &Vec<JoinedBinding>,
    cursor: &Path,
    seen: &mut Vec<String>,
    out: &mut Vec<KeyHint>,
)
    ensures
        forall|c: Seq<Candidate>|
            stands_for(old(seen)@, old(out)@, c) ==> #[trigger] stands_for(
                final(seen)@,
                final(out)@,
                c + joined_at(joined_view(joined@), cursor@),
            ),
{
    let ghost all = joined_view(joined@);
    let ghost seen0 = seen@;
    let ghost out0 = out@;
    let mut i: usize = 0;
    proof {
        assert forall|c: Seq<Candidate>| stands_for(seen0, out0, c) implies #[trigger] stands_for(
            seen@,
            out@,
            c + joined_at(all.subrange(0, 0), cursor@),
        ) by {
            assert(c + joined_at(all.subrange(0, 0), cursor@) =~= c);
        }
    }
    while i < joined.len()
        invariant
            i <= joined@.len(),
            all == joined_view(joined@),
            forall|c: Seq<Candidate>|
                stands_for(seen0, out0, c) ==> #[trigger] stands_for(
                    seen@,
                    out@,
                    c + joined_at(all.subrange(0, i as int), cursor@),
                ),
        decreases joined@.len() - i,
    {
        let e: &JoinedBinding = &joined[i];
        let ghost seen1 = seen@;
        let ghost out1 = out@;
        let ghost cand = Candidate { key: chord_text(e@.key), hint: Some(joined_hint(e@)) };
        let ghost admitted = e@.scope.admits(cursor@);
        let ghost fresh = !texts(seen1).contains(cand.key);
        if e.scope.matches(cursor) {
            let wire: String = encode_keychord(&e.key);
            if !contains_text(seen.as_slice(), wire.as_str()) {
                seen.push(wire.clone());
                out.push(
                    KeyHint {
                        key: wire,
                        description: e.description.clone(),
                        command: e.command_id.0.clone(),
                        status_hint: false,
                        priority: e.priority,
                    },
                );
            }
        }
        proof {
            let t = all.subrange(0, i + 1);
            assert(t.drop_last() =~= all.subrange(0, i as int));
            assert(t.last() == e@);
            if admitted && fresh {
                assert(texts(seen@) =~= texts(seen1).push(cand.key));
                assert(hints_view(out@) =~= hints_view(out1).push(cand.hint->0));
            }
            assert forall|c: Seq<Candidate>| stands_for(seen0, out0, c) implies #[trigger]
                stands_for(seen@, out@, c + joined_at(t, cursor@)) by {
                let before = c + joined_at(all.subrange(0, i as int), cursor@);
                assert(stands_for(seen1, out1, before));
                if admitted {
                    let after = c + joined_at(t, cursor@);
                    assert(after =~= before.push(cand));
                    assert(after.drop_last() =~= before);
                    assert(after.last() == cand);
                    if fresh {
                        let f = firsts(before);
                        assert(firsts(after) == f.push(cand));
                        assert(f.push(cand).drop_last() =~= f);
                        assert(keys_of(f.push(cand)) =~= keys_of(f).push(cand.key));
                    }
                }
            }
        }
        i += 1;
    }
    proof {
        assert(all.subrange(0, i as int) =~= all);
    }
}

fn place_hint(hints: &mut Vec<KeyHint>, hint: KeyHint)
    ensures
        hints_view(final(hints)@) == placed(hints_view(old(hints)@), hint_class(), hint@),
{
    let ghost before = hints_view(hints@);
    let ghost class = hint_class();
    let ghost new = hint@;
    let c: u8 = hint.priority;
    let mut k: usize = hints.len();
    proof {
        assert(before.subrange(0, k as int) =~= before);
    }
    while k > 0 && hints[k - 1].priority > c
        invariant
            k <= hints@.len(),
            hints_view(hints@) == before,
            class == hint_class(),
            slot(before.subrange(0, k as int), class, c as nat) == slot(before, class, c as nat),
        decreases k,
    {
        proof {
            let t = before.subrange(0, k as int);
            assert(t.last() == hints@[k - 1]@);
            assert(t.drop_last() =~= before.subrange(0, k - 1));
        }
        k -= 1;
    }
    proof {
        let t = before.subrange(0, k as int);
        if k > 0 {
            assert(t.last() == hints@[k - 1]@);
        }
        assert(slot(before, class, c as nat) == k);
    }
    hints.insert(k, hint);
    proof {
        assert(hints_view(hints@) =~= before.insert(k as int, new));
    }
}

fn copy_hint(h: &KeyHint) -> (r: KeyHint)
    ensures
        r@ == h@,
{
    KeyHint {
        key: h.key.clone(),
        description: h.description.clone(),
        command: h.command.clone(),
        status_hint: h.status_hint,
        priority: h.priority,
    }
}

/// The hints where a cursor is: one for each key, the narrowest scope's, sorted
/// by priority.
pub fn project_for_cursor(joined: &Vec<JoinedBinding>, cursor: &Path) -> (r: Vec<KeyHint>)
    ensures
        hints_view(r@) == projected(joined_view(joined@), cursor@),
{
    let mut out: Vec<KeyHint> = Vec::new();
    let mut seen: Vec<String> = Vec::new();
    let chain: Vec<Path> = path_ancestors(cursor);
    let ghost all = joined_view(joined@);
    let ghost scopes = ancestors(cursor@);
    let n: usize = chain.len();
    let mut i: usize = n;
    let ghost mut done: Seq<Candidate> = Seq::empty();
    let ghost goal = joined_along(all, scopes, n as int);
    proof {
        assert(paths_view(chain@).len() == chain@.len());
        assert(done + joined_along(all, scopes, n as int) =~= goal);
        assert(texts(seen@) =~= keys_of(firsts(done)));
        assert(hints_view(out@) =~= hints_of(firsts(done)));
    }
    while i > 0
        invariant
            i <= n == chain@.len(),
            all == joined_view(joined@),
            scopes == paths_view(chain@),
            goal == done + joined_along(all, scopes, i as int),
            stands_for(seen@, out@, done),
        decreases i,
    {
        let ghost here = joined_at(all, scopes[i - 1]);
        emit_joined(joined, &chain[i - 1], &mut seen, &mut out);
        proof {
            assert(scopes[i - 1] == chain@[i - 1]@);
            assert(stands_for(seen@, out@, done + here));
            assert((done + here) + joined_along(all, scopes, i - 1) =~= goal);
            done = done + here;
        }
        i -= 1;
    }
    proof {
        assert(done =~= goal);
    }
    let ghost unsorted = hints_view(out@);
    let mut sorted: Vec<KeyHint> = Vec::new();
    let mut k: usize = 0;
    proof {
        assert(hints_view(sorted@) =~= Seq::<HintView>::empty());
        assert(unsorted.subrange(0, 0) =~= Seq::<HintView>::empty());
    }
    while k < out.len()
        invariant
            k <= out@.len(),
            unsorted == hints_view(out@),
            hints_view(sorted@) == placed_all(
                Seq::empty(),
                hint_class(),
                unsorted.subrange(0, k as int),
            ),
        decreases out@.len() - k,
    {
        proof {
            let t = unsorted.subrange(0, k + 1);
            assert(t.drop_last() =~= unsorted.subrange(0, k as int));
            assert(t.last() == out@[k as int]@);
        }
        place_hint(&mut sorted, copy_hint(&out[k]));
        k += 1;
    }
    proof {
        assert(unsorted.subrange(0, k as int) =~= unsorted);
    }
    sorted
}

/// The hints where a cursor is are sorted by priority.
pub proof fn hints_are_sorted(joined: Seq<JoinedView>, cursor: Seq<Seq<char>>)
    ensures
        forall|i: int, j: int|
            0 <= i < j < projected(joined, cursor).len() ==> (#[trigger] projected(
                joined,
                cursor,
            )[i]).priority <= (#[trigger] projected(joined, cursor)[j]).priority,
{
    let h = hints_of(firsts(joined_along(joined, ancestors(cursor), cursor.len() as int)));
    placing_all_keeps_classes(Seq::<HintView>::empty(), hint_class(), h);
    let p = projected(joined, cursor);
    assert(by_class(p, hint_class()));
    assert forall|i: int, j: int| 0 <= i < j < p.len() implies (#[trigger] p[i]).priority <= (
    #[trigger] p[j]).priority by {
        assert(hint_class()(p[i]) <= hint_class()(p[j]));
    }
}

/// The bindings stored below a path, in the order of their names.
pub open spec fn stored_bindings(
    s: SnapshotView,
    prefix: Seq<Seq<char>>,
    names: Seq<Seq<char>>,
) -> Seq<BindingView>
    decreases names.len(),
{
    if names.len() == 0 {
        Seq::empty()
    } else {
        let rest = stored_bindings(s, prefix, names.drop_last());
        match s.at(prefix.push(names.last())) {
            Some(ValueView::Binding(b)) => rest.push(b),
            _ => rest,
        }
    }
}

/// The names on screen of the commands stored below a path, by their ids.
pub open spec fn stored_names(
    s: SnapshotView,
    prefix: Seq<Seq<char>>,
    names: Seq<Seq<char>>,
) -> Seq<(Seq<char>, Seq<char>)>
    decreases names.len(),
{
    if names.len() == 0 {
        Seq::empty()
    } else {
        let rest = stored_names(s, prefix, names.drop_last());
        match s.at(prefix.push(names.last())) {
            Some(ValueView::Metadata(d)) => rest.push((names.last(), d.name)),
            _ => rest,
        }
    }
}

/// All stored bindings whose commands are stored too, joined.
pub open spec fn joined_in_store(
    s: SnapshotView,
    bindings: Seq<Seq<char>>,
    commands: Seq<Seq<char>>,
) -> Seq<JoinedView> {
    join_all(
        stored_bindings(s, bindings, s.children(bindings)),
        stored_names(s, commands, s.children(commands)),
    )
}

/// The bindings stored below a path.
pub fn read_subtree_values(data: &SettingsSnapshot, prefix: &Path) -> (r: Vec<ScopedBinding>)
    ensures
        bindings_view(r@) == stored_bindings(data@, prefix@, data@.children(prefix@)),
{
    let names: Vec<String> = data.child_names(prefix);
    let ghost all = texts(names@);
    let mut out: Vec<ScopedBinding> = Vec::new();
    let mut i: usize = 0;
    proof {
        assert(bindings_view(out@) =~= stored_bindings(data@, prefix@, all.subrange(0, 0)));
    }
    while i < names.len()
        invariant
            i <= names@.len(),
            all == texts(names@),
            bindings_view(out@) == stored_bindings(data@, prefix@, all.subrange(0, i as int)),
        decreases names@.len() - i,
    {
        let ghost before = bindings_view(out@);
        proof {
            let t = all.subrange(0, i + 1);
            assert(t.drop_last() =~= all.subrange(0, i as int));
            assert(t.last() == names@[i as int]@);
        }
        match data.read(&prefix.child(names[i].as_str())) {
            Some(StoreValue::Binding(b)) => {
                out.push(b.copied());
                proof {
                    assert(bindings_view(out@) =~= before.push(b@));
                }
            },
            _ => {},
        }
        i += 1;
    }
    proof {
        assert(all.subrange(0, i as int) =~= all);
    }
    out
}

/// The names on screen of the commands stored below a path.
pub fn read_commands_index(data: &SettingsSnapshot, prefix: &Path) -> (r: Vec<(String, String)>)
    ensures
        names_view(r@) == stored_names(data@, prefix@, data@.children(prefix@)),
{
    let names: Vec<String> = data.child_names(prefix);
    let ghost all = texts(names@);
    let mut out: Vec<(String, String)> = Vec::new();
    let mut i: usize = 0;
    proof {
        assert(names_view(out@) =~= stored_names(data@, prefix@, all.subrange(0, 0)));
    }
    while i < names.len()
        invariant
            i <= names@.len(),
            all == texts(names@),
            names_view(out@) == stored_names(data@, prefix@, all.subrange(0, i as int)),
        decreases names@.len() - i,
    {
        let ghost before = names_view(out@);
        proof {
            let t = all.subrange(0, i + 1);
            assert(t.drop_last() =~= all.subrange(0, i as int));
            assert(t.last() == names@[i as int]@);
        }
        match data.read(&prefix.child(names[i].as_str())) {
            Some(StoreValue::Metadata(m)) => {
                out.push((names[i].clone(), m.display.name.clone()));
                proof {
                    assert(names_view(out@) =~= before.push(
                        (names@[i as int]@, m.display.name@),
                    ));
                }
            },
            _ => {},
        }
        i += 1;
    }
    proof {
        assert(all.subrange(0, i as int) =~= all);
    }
    out
}

/// All stored bindings whose commands are stored too, joined.
pub fn build_joined_from_broker(
    data: &SettingsSnapshot,
    bindings_prefix: &Path,
    commands_prefix: &Path,
) -> (r: Vec<JoinedBinding>)
    ensures
        joined_view(r@) == joined_in_store(data@, bindings_prefix@, commands_prefix@),
{
    let bindings: Vec<ScopedBinding> = read_subtree_values(data, bindings_prefix);
    let commands: Vec<(String, String)> = read_commands_index(data, commands_prefix);
    join_tables(&bindings, &commands)
}

/// The joined bindings a list value holds.
pub open spec fn value_joined(v: ValueView) -> Option<Seq<JoinedView>> {
    match v {
        ValueView::Array(a) => if forall|i: int| 0 <= i < a.len() ==> (#[trigger] a[i]) is Joined {
            Some(Seq::new(a.len(), |i: int| a[i]->Joined_0))
        } else {
            None
        },
        _ => None,
    }
}

/// The value that stands for joined bindings.
pub open spec fn joined_value(j: Seq<JoinedView>) -> ValueView {
    ValueView::Array(Seq::new(j.len(), |i: int| ValueView::Joined(j[i])))
}

/// The value that stands for hints.
pub open spec fn hints_value(h: Seq<HintView>) -> ValueView {
    ValueView::Array(Seq::new(h.len(), |i: int| ValueView::Hint(h[i])))
}

/// The joined bindings stored at a path, or none.
pub open spec fn joined_stored_at(s: SnapshotView, path: Seq<Seq<char>>) -> Seq<JoinedView> {
    match s.at(path) {
        Some(v) => match value_joined(v) {
            Some(j) => j,
            None => Seq::empty(),
        },
        None => Seq::empty(),
    }
}

/// Joined bindings come back from the value that stands for them.
pub proof fn joined_value_round_trip(j: Seq<JoinedView>)
    ensures
        value_joined(joined_value(j)) == Some(j),
{
    let a = joined_value(j)->Array_0;
    assert(forall|i: int| 0 <= i < a.len() ==> (#[trigger] a[i]) is Joined);
    assert(value_joined(joined_value(j))->0 =~= j);
}

/// The joined bindings stored at a path, or none.
pub fn read_joined(data: &SettingsSnapshot, path: &Path) -> (r: Vec<JoinedBinding>)
    ensures
        joined_view(r@) == joined_stored_at(data@, path@),
{
    let none: Vec<JoinedBinding> = Vec::new();
    proof {
        assert(joined_view(none@) =~= Seq::<JoinedView>::empty());
    }
    match data.read(path) {
        Some(StoreValue::Array(items)) => {
            let ghost held = values_view(items@);
            proof {
                array_view(*items);
            }
            let mut out: Vec<JoinedBinding> = Vec::new();
            let mut i: usize = 0;
            while i < items.len()
                invariant
                    i <= items@.len(),
                    held == values_view(items@),
                    data@.at(path@) == Some(ValueView::Array(held)),
                    joined_view(none@) == Seq::<JoinedView>::empty(),
                    out@.len() == i,
                    forall|k: int|
                        0 <= k < i ==> #[trigger] held[k] == ValueView::Joined(out@[k]@),
                decreases items@.len() - i,
            {
                match &items[i] {
                    StoreValue::Joined(j) => {
                        out.push(j.copied());
                    },
                    _ => {
                        proof {
                            assert(!(held[i as int] is Joined));
                        }
                        return none;
                    },
                }
                i += 1;
            }
            proof {
                assert(joined_view(out@) =~= value_joined(ValueView::Array(held))->0);
            }
            out
        },
        _ => none,
    }
}

/// The value that stands for joined bindings.
pub fn joined_to_value(joined: &Vec<JoinedBinding>) -> (r: StoreValue)
    ensures
        r@ == joined_value(joined_view(joined@)),
{
    let mut out: Vec<StoreValue> = Vec::new();
    let mut i: usize = 0;
    while i < joined.len()
        invariant
            i <= joined@.len(),
            out@.len() == i,
            forall|k: int| 0 <= k < i ==> (#[trigger] out@[k])@ == ValueView::Joined(joined@[k]@),
        decreases joined@.len() - i,
    {
        out.push(StoreValue::Joined(joined[i].copied()));
        i += 1;
    }
    proof {
        array_view(out);
        assert(values_view(out@) =~= joined_value(joined_view(joined@))->Array_0);
    }
    StoreValue::Array(out)
}

/// The value that stands for hints.
pub fn hints_to_value(hints: &Vec<KeyHint>) -> (r: StoreValue)
    ensures
        r@ == hints_value(hints_view(hints@)),
{
    let mut out: Vec<StoreValue> = Vec::new();
    let mut i: usize = 0;
    while i < hints.len()
        invariant
            i <= hints@.len(),
            out@.len() == i,
            forall|k: int| 0 <= k < i ==> (#[trigger] out@[k])@ == ValueView::Hint(hints@[k]@),
        decreases hints@.len() - i,
    {
        out.push(StoreValue::Hint(copy_hint(&hints[i])));
        i += 1;
    }
    proof {
        array_view(out);
        assert(values_view(out@) =~= hints_value(hints_view(hints@))->Array_0);
    }
    StoreValue::Array(out)
}

/// A write that has happened: where, and what is there now.
pub struct PathChange {
    pub path: Path,
    pub after: Option<StoreValue>,
}

/// The path a change has put in place.
pub open spec fn path_put(after: Option<ValueView>) -> Option<Seq<Seq<char>>> {
    match after {
        Some(v) => value_path(v),
        None => None,
    }
}

/// The view of an optional value.
pub open spec fn opt_value(o: Option<StoreValue>) -> Option<ValueView> {
    match o {
        Some(v) => Some(v@),
        None => None,
    }
}

/// The cursor a change has put in place.
pub fn cursor_from_change(change: &PathChange) -> (r: Option<Path>)
    ensures
        opt_path(r) == path_put(opt_value(change.after)),
{
    match &change.after {
        Some(v) => path_from_value(v),
        None => None,
    }
}

/// Whether `prefix` leads `whole`.
pub fn is_component_prefix(prefix: &Path, whole: &Path) -> (r: bool)
    ensures
        r == leads(prefix@, whole@),
{
    whole.starts_with(prefix)
}

/// Which writes are watched.
#[derive(Clone, Debug, PartialEq, Eq)]
pub enum PathPattern {
    Exact(Path),
    Prefix(Path),
}

/// What a `PathPattern` holds.
pub enum PatternView {
    Exact(Seq<Seq<char>>),
    Prefix(Seq<Seq<char>>),
}

impl View for PathPattern {
    type V = PatternView;

    open spec fn view(&self) -> PatternView {
        match self {
            PathPattern::Exact(p) => PatternView::Exact(p@),
            PathPattern::Prefix(p) => PatternView::Prefix(p@),
        }
    }
}

/// What each pattern of a list holds.
pub open spec fn patterns_view(v: Seq<PathPattern>) -> Seq<PatternView> {
    Seq::new(v.len(), |i: int| v[i]@)
}

/// Keeps both records up to date.
pub struct ShortcutResolver {
    id: String,
    watches: Vec<PathPattern>,
    cursor_path: Path,
    bindings_prefix: Path,
    commands_prefix: Path,
    registry_path: Path,
    output_path: Path,
}

/// Where a `ShortcutResolver` reads and writes.
pub struct ResolverView {
    pub cursor: Seq<Seq<char>>,
    pub bindings: Seq<Seq<char>>,
    pub commands: Seq<Seq<char>>,
    pub registry: Seq<Seq<char>>,
    pub output: Seq<Seq<char>>,
}

impl View for ShortcutResolver {
    type V = ResolverView;

    closed spec fn view(&self) -> ResolverView {
        ResolverView {
            cursor: self.cursor_path@,
            bindings: self.bindings_prefix@,
            commands: self.commands_prefix@,
            registry: self.registry_path@,
            output: self.output_path@,
        }
    }
}

/// The bindings in force after a change: joined anew where bindings or commands
/// changed, as stored otherwise.
pub open spec fn joined_after(
    r: ResolverView,
    s: SnapshotView,
    changed: Seq<Seq<char>>,
) -> Seq<JoinedView> {
    if leads(r.bindings, changed) || leads(r.commands, changed) {
        joined_in_store(s, r.bindings, r.commands)
    } else {
        joined_stored_at(s, r.registry)
    }
}

/// The cursor after a change: what the change put in place, where that is a
/// path, or else what is stored.
pub open spec fn cursor_after(
    r: ResolverView,
    s: SnapshotView,
    after: Option<ValueView>,
) -> Option<Seq<Seq<char>>> {
    match path_put(after) {
        Some(p) => Some(p),
        None => path_at(s, r.cursor),
    }
}

/// The writes after a change: the joined bindings where they were joined anew,
/// and the hints for the cursor where there is one.
pub open spec fn resolver_writes(
    r: ResolverView,
    s: SnapshotView,
    changed: Seq<Seq<char>>,
    after: Option<ValueView>,
) -> Seq<WriteView> {
    let joined = joined_after(r, s, changed);
    let first = if leads(r.bindings, changed) || leads(r.commands, changed) {
        seq![put(r.registry, joined_value(joined))]
    } else {
        Seq::empty()
    };
    match cursor_after(r, s, after) {
        Some(cursor) => first.push(put(r.output, hints_value(projected(joined, cursor)))),
        None => first,
    }
}

impl ShortcutResolver {
    /// A resolver that watches the cursor, the bindings and the commands.
    pub fn new(
        cursor_path: Path,
        bindings_prefix: Path,
        commands_prefix: Path,
        registry_path: Path,
        output_path: Path,
    ) -> (r: ShortcutResolver)
        ensures
            r@ == (ResolverView {
                cursor: cursor_path@,
                bindings: bindings_prefix@,
                commands: commands_prefix@,
                registry: registry_path@,
                output: output_path@,
            }),
            r.called() == "ox_cli.settings.shortcut_resolver"@,
            r.watched() == seq![
                PatternView::Exact(cursor_path@),
                PatternView::Prefix(bindings_prefix@),
                PatternView::Prefix(commands_prefix@),
            ],
    {
        let mut watches: Vec<PathPattern> = Vec::new();
        watches.push(PathPattern::Exact(cursor_path.copied()));
        watches.push(PathPattern::Prefix(bindings_prefix.copied()));
        watches.push(PathPattern::Prefix(commands_prefix.copied()));
        proof {
            assert(patterns_view(watches@) =~= seq![
                PatternView::Exact(cursor_path@),
                PatternView::Prefix(bindings_prefix@),
                PatternView::Prefix(commands_prefix@),
            ]);
        }
        ShortcutResolver {
            id: "ox_cli.settings.shortcut_resolver".to_owned(),
            watches,
            cursor_path,
            bindings_prefix,
            commands_prefix,
            registry_path,
            output_path,
        }
    }

    /// What the resolver is called.
    pub fn id(&self) -> (r: &String)
        ensures
            r@ == self.called(),
    {
        &self.id
    }

    /// What the resolver is called.
    pub closed spec fn called(&self) -> Seq<char> {
        self.id@
    }

    /// The writes the resolver watches.
    pub fn watches(&self) -> (r: &Vec<PathPattern>)
        ensures
            patterns_view(r@) == self.watched(),
    {
        &self.watches
    }

    /// The writes the resolver watches.
    pub closed spec fn watched(&self) -> Seq<PatternView> {
        patterns_view(self.watches@)
    }

    /// The writes after a change.
    pub fn handle(&self, snapshot: &SettingsSnapshot, change: &PathChange) -> (r: Vec<Write>)
        ensures
            writes_view(r@) == resolver_writes(
                self@,
                snapshot@,
                change.path@,
                opt_value(change.after),
            ),
    {
        let mut writes: Vec<Write> = Vec::new();
        let registry_changed: bool = is_component_prefix(&self.bindings_prefix, &change.path)
            || is_component_prefix(&self.commands_prefix, &change.path);
        let joined: Vec<JoinedBinding> = if registry_changed {
            let fresh = build_joined_from_broker(
                snapshot,
                &self.bindings_prefix,
                &self.commands_prefix,
            );
            writes.push(write_at(self.registry_path.copied(), joined_to_value(&fresh)));
            fresh
        } else {
            read_joined(snapshot, &self.registry_path)
        };
        let cursor: Option<Path> = match cursor_from_change(change) {
            Some(p) => Some(p),
            None => read_path(snapshot, &self.cursor_path),
        };
        match cursor {
            Some(c) => {
                let hints: Vec<KeyHint> = project_for_cursor(&joined, &c);
                writes.push(write_at(self.output_path.copied(), hints_to_value(&hints)));
            },
            None => {},
        }
        proof {
            assert(writes_view(writes@) =~= resolver_writes(
                self@,
                snapshot@,
                change.path@,
                opt_value(change.after),
            ));
        }
        writes
    }
}

/// A move of the cursor alone never touches the joined bindings.
pub proof fn cursor_moves_leave_the_registry(
    r: ResolverView,
    s: SnapshotView,
    changed: Seq<Seq<char>>,
    after: Option<ValueView>,
)
    requires
        !leads(r.bindings, changed),
        !leads(r.commands, changed),
        r.output != r.registry,
    ensures
        forall|i: int|
            0 <= i < resolver_writes(r, s, changed, after).len() ==> (#[trigger] resolver_writes(
                r,
                s,
                changed,
                after,
            )[i]).path != r.registry,
{
}

/// The joined bindings that were written are those in force on the next move of
/// the cursor.
pub proof fn joined_bindings_survive(
    r: ResolverView,
    s: SnapshotView,
    changed: Seq<Seq<char>>,
    after: Option<ValueView>,
    t: SnapshotView,
    moved: Seq<Seq<char>>,
)
    requires
        leads(r.bindings, changed) || leads(r.commands, changed),
        t.at(r.registry) == Some(resolver_writes(r, s, changed, after)[0].value),
        !leads(r.bindings, moved),
        !leads(r.commands, moved),
    ensures
        joined_after(r, t, moved) == joined_after(r, s, changed),
{
    joined_value_round_trip(joined_after(r, s, changed));
}

} // verus!
