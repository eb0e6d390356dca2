//! Which keys do what where the focus is, for the shortcuts display.

use crate::assoc::lookup;
use crate::command_registry::{commands_view, Command, CommandRegistry};
use crate::keys::{
    bindings_view, chord_text, encode_keychord, hints_view, BindingView, CommandId, HintView,
    KeyHint, ScopedBinding,
};
use crate::path::{ancestors, path_ancestors, paths_view, Path};
use crate::registry::Renderer;
use crate::scopes::ScopeRegistry;
use crate::text::{contains_text, same, texts};
use vstd::prelude::*;
use vstd::string::*;

verus! {

/// A key that could be shown, with its hint if its command exists.
pub struct Candidate {
    pub key: Seq<char>,
    pub hint: Option<HintView>,
}

/// The candidates without those whose key an earlier one has.
pub open spec fn firsts(c: Seq<Candidate>) -> Seq<Candidate>
    decreases c.len(),
{
    if c.len() == 0 {
        Seq::empty()
    } else {
        let rest = firsts(c.drop_last());
        if keys_of(rest).contains(c.last().key) {
            rest
        } else {
            rest.push(c.last())
        }
    }
}

/// The candidates' keys.
pub open spec fn keys_of(c: Seq<Candidate>) -> Seq<Seq<char>> {
    Seq::new(c.len(), |i: int| c[i].key)
}

/// The candidates' hints.
pub open spec fn hints_of(c: Seq<Candidate>) -> Seq<HintView>
    decreases c.len(),
{
    if c.len() == 0 {
        Seq::empty()
    } else {
        match c.last().hint {
            Some(h) => hints_of(c.drop_last()).push(h),
            None => hints_of(c.drop_last()),
        }
    }
}

/// The candidate for a binding, given what commands are called on screen.
pub open spec fn candidate(
    b: BindingView,
    names: Seq<(Seq<char>, Seq<char>)>,
) -> Candidate {
    Candidate {
        key: chord_text(b.key),
        hint: match lookup(names, b.command) {
            Some(name) => Some(
                HintView {
                    key: chord_text(b.key),
                    description: name,
                    command: b.command,
                    status_hint: false,
                    priority: b.priority,
                },
            ),
            None => None,
        },
    }
}

/// The candidates for the bindings whose scope admits a cursor.
pub open spec fn candidates_at(
    entries: Seq<BindingView>,
    names: Seq<(Seq<char>, Seq<char>)>,
    cursor: Seq<Seq<char>>,
) -> Seq<Candidate>
    decreases entries.len(),
{
    if entries.len() == 0 {
        Seq::empty()
    } else {
        let rest = candidates_at(entries.drop_last(), names, cursor);
        if entries.last().scope.admits(cursor) {
            rest.push(candidate(entries.last(), names))
        } else {
            rest
        }
    }
}

/// The candidates at the first `n` scopes of a chain, the innermost first.
pub open spec fn candidates_along(
    entries: Seq<BindingView>,
    names: Seq<(Seq<char>, Seq<char>)>,
    chain: Seq<Seq<Seq<char>>>,
    n: int,
) -> Seq<Candidate>
    decreases n,
{
    if n <= 0 {
        Seq::empty()
    } else {
        candidates_at(entries, names, chain[n - 1]) + candidates_along(
            entries,
            names,
            chain,
            n - 1,
        )
    }
}

/// The candidates where a cursor is.
pub open spec fn candidates_for(
    entries: Seq<BindingView>,
    names: Seq<(Seq<char>, Seq<char>)>,
    cursor: Seq<Seq<char>>,
) -> Seq<Candidate> {
    candidates_along(entries, names, ancestors(cursor), cursor.len() as int)
}

/// The hints shown for a focus, if there is one, and behind it for a page. A key
/// shown once is not shown again.
pub open spec fn context_hints(
    entries: Seq<BindingView>,
    names: Seq<(Seq<char>, Seq<char>)>,
    page: Seq<Seq<char>>,
    focus: Option<Seq<Seq<char>>>,
) -> Seq<HintView> {
    let inner = match focus {
        Some(f) => candidates_for(entries, names, f),
        None => Seq::empty(),
    };
    hints_of(firsts(inner + candidates_for(entries, names, page)))
}

/// The id and name of each entry.
pub open spec fn names_view(v: Seq<(String, String)>) -> Seq<(Seq<char>, Seq<char>)> {
    Seq::new(v.len(), |i: int| (v[i].0@, v[i].1@))
}

/// Whether keys and hints stand for candidates.
pub open spec fn stands_for(
    seen: Seq<String>,
    out: Seq<KeyHint>,
    c: Seq<Candidate>,
) -> bool {
    texts(seen) == keys_of(firsts(c)) && hints_view(out) == hints_of(firsts(c))
}

/// The name of the last command with an id.
pub fn name_of<'a>(names: &'a Vec<(String, String)>, id: &str) -> (r: Option<&'a String>)
    ensures
        r is Some <==> lookup(names_view(names@), id@) is Some,
        r is Some ==> (*r->0)@ == lookup(names_view(names@), id@)->0,
{
    let ghost all = names_view(names@);
    let mut i: usize = names.len();
    proof {
        assert(all.subrange(0, i as int) =~= all);
    }
    while i > 0
        invariant
            i <= names@.len(),
            all == names_view(names@),
            lookup(all.subrange(0, i as int), id@) == lookup(all, id@),
        decreases i,
    {
        proof {
            let t = all.subrange(0, i as int);
            assert(t.drop_last() =~= all.subrange(0, i - 1));
            assert(t.last() == (names@[i - 1].0@, names@[i - 1].1@));
        }
        if same(names[i - 1].0.as_str(), id) {
            return Some(&names[i - 1].1);
        }
        i -= 1;
    }
    None
}

/// Adds the hints for one scope.
pub fn emit_for_scope_path_entry(
    entries: &Vec<ScopedBinding>,
    names: &Vec<(String, String)>,
    cursor: &Path,
    seen_keys: &mut Vec<String>,
    out: &mut Vec<KeyHint>,
)
    ensures
        forall|c: Seq<Candidate>|
            stands_for(old(seen_keys)@, old(out)@, c) ==> #[trigger] stands_for(
                final(seen_keys)@,
                final(out)@,
                c + candidates_at(bindings_view(entries@), names_view(names@), cursor@),
            ),
{
    let ghost all = bindings_view(entries@);
    let ghost index = names_view(names@);
    let ghost seen0 = seen_keys@;
    let ghost out0 = out@;
    let mut i: usize = 0;
    proof {
        assert forall|c: Seq<Candidate>| stands_for(seen0, out0, c) implies #[trigger] stands_for(
            seen_keys@,
            out@,
            c + candidates_at(all.subrange(0, 0), index, cursor@),
        ) by {
            assert(c + candidates_at(all.subrange(0, 0), index, cursor@) =~= c);
        }
    }
    while i < entries.len()
        invariant
            i <= entries@.len(),
            all == bindings_view(entries@),
            index == names_view(names@),
            forall|c: Seq<Candidate>|
                stands_for(seen0, out0, c) ==> #[trigger] stands_for(
                    seen_keys@,
                    out@,
                    c + candidates_at(all.subrange(0, i as int), index, cursor@),
                ),
        decreases entries@.len() - i,
    {
        let e: &ScopedBinding = &entries[i];
        let ghost seen1 = seen_keys@;
        let ghost out1 = out@;
        let ghost cand = candidate(e@, index);
        let ghost admitted = e@.scope.admits(cursor@);
        let ghost fresh = !texts(seen1).contains(cand.key);
        if e.scope.matches(cursor) {
            let wire: String = encode_keychord(&e.key);
            if !contains_text(seen_keys.as_slice(), wire.as_str()) {
                seen_keys.push(wire.clone());
                match name_of(names, e.command_id.0.as_str()) {
                    Some(name) => {
                        out.push(
                            KeyHint {
                                key: wire,
                                description: name.clone(),
                                command: e.command_id.0.clone(),
                                status_hint: false,
                                priority: e.priority,
                            },
                        );
                    },
                    None => {},
                }
            }
        }
        proof {
            let t = all.subrange(0, i + 1);
            assert(t.drop_last() =~= all.subrange(0, i as int));
            assert(t.last() == e@);
            if admitted && fresh {
                assert(texts(seen_keys@) =~= texts(seen1).push(cand.key));
                if cand.hint is Some {
                    assert(hints_view(out@) =~= hints_view(out1).push(cand.hint->0));
                }
            }
            assert forall|c: Seq<Candidate>| stands_for(seen0, out0, c) implies #[trigger]
                stands_for(seen_keys@, out@, c + candidates_at(t, index, cursor@)) by {
                let before = c + candidates_at(all.subrange(0, i as int), index, cursor@);
                assert(stands_for(seen1, out1, before));
                if admitted {
                    let after = c + candidates_at(t, index, cursor@);
                    assert(after =~= before.push(cand));
                    assert(after.drop_last() =~= before);
                    assert(after.last() == cand);
                    if fresh {
                        let f = firsts(before);
                        assert(firsts(after) == f.push(cand));
                        assert(f.push(cand).drop_last() =~= f);
                        assert(keys_of(f.push(cand)) =~= keys_of(f).push(cand.key));
                    }
                }
            }
        }
        i += 1;
    }
    proof {
        assert(all.subrange(0, i as int) =~= all);
    }
}

/// Adds the hints along the scopes from a cursor out.
pub fn emit_for_cursor(
    entries: &Vec<ScopedBinding>,
    names: &Vec<(String, String)>,
    cursor: &Path,
    seen_keys: &mut Vec<String>,
    out: &mut Vec<KeyHint>,
)
    ensures
        forall|c: Seq<Candidate>|
            stands_for(old(seen_keys)@, old(out)@, c) ==> #[trigger] stands_for(
                final(seen_keys)@,
                final(out)@,
                c + candidates_for(bindings_view(entries@), names_view(names@), cursor@),
            ),
{
    let ghost all = bindings_view(entries@);
    let ghost index = names_view(names@);
    let ghost seen0 = seen_keys@;
    let ghost out0 = out@;
    let chain: Vec<Path> = path_ancestors(cursor);
    let ghost scopes = ancestors(cursor@);
    let n: usize = chain.len();
    let mut i: usize = n;
    proof {
        assert(paths_view(chain@).len() == chain@.len());
    }
    let ghost goal = candidates_along(all, index, scopes, n as int);
    let ghost mut done: Seq<Candidate> = Seq::empty();
    proof {
        assert(done + candidates_along(all, index, scopes, n as int) =~= goal);
        assert forall|c: Seq<Candidate>| stands_for(seen0, out0, c) implies #[trigger] stands_for(
            seen_keys@,
            out@,
            c + done,
        ) by {
            assert(c + done =~= c);
        }
    }
    while i > 0
        invariant
            i <= n == chain@.len(),
            all == bindings_view(entries@),
            index == names_view(names@),
            scopes == paths_view(chain@),
            goal == done + candidates_along(all, index, scopes, i as int),
            forall|c: Seq<Candidate>|
                stands_for(seen0, out0, c) ==> #[trigger] stands_for(seen_keys@, out@, c + done),
        decreases i,
    {
        let ghost seen1 = seen_keys@;
        let ghost out1 = out@;
        let ghost here = candidates_at(all, index, scopes[i - 1]);
        emit_for_scope_path_entry(entries, names, &chain[i - 1], seen_keys, out);
        proof {
            assert(scopes[i - 1] == chain@[i - 1]@);
            assert forall|c: Seq<Candidate>| stands_for(seen0, out0, c) implies #[trigger]
                stands_for(seen_keys@, out@, c + (done + here)) by {
                assert(stands_for(seen1, out1, c + done));
                assert((c + done) + here =~= c + (done + here));
            }
            assert((done + here) + candidates_along(all, index, scopes, i - 1) =~= goal);
            done = done + here;
        }
        i -= 1;
    }
    proof {
        assert(done =~= goal);
    }
}

/// The hints for a page and the focus in it, from a list of bindings and the
/// names of the commands.
pub fn key_hints_from_tables(
    entries: &Vec<ScopedBinding>,
    names: &Vec<(String, String)>,
    page_cursor: &Path,
    focused: Option<&Path>,
) -> (r: Vec<KeyHint>)
    ensures
        hints_view(r@) == context_hints(
            bindings_view(entries@),
            names_view(names@),
            page_cursor@,
            match focused {
                Some(f) => Some(f@),
                None => None,
            },
        ),
{
    let mut out: Vec<KeyHint> = Vec::new();
    let mut seen: Vec<String> = Vec::new();
    let ghost none: Seq<Candidate> = Seq::empty();
    let ghost inner = match focused {
        Some(f) => candidates_for(bindings_view(entries@), names_view(names@), f@),
        None => Seq::empty(),
    };
    proof {
        assert(texts(seen@) =~= keys_of(firsts(none)));
        assert(hints_view(out@) =~= hints_of(firsts(none)));
        assert(stands_for(seen@, out@, none));
    }
    match focused {
        Some(f) => {
            emit_for_cursor(entries, names, f, &mut seen, &mut out);
            proof {
                assert(none + inner =~= inner);
                assert(stands_for(seen@, out@, none + inner));
            }
        },
        None => {
            proof {
                assert(none =~= inner);
            }
        },
    }
    emit_for_cursor(entries, names, page_cursor, &mut seen, &mut out);
    proof {
        assert(stands_for(
            seen@,
            out@,
            inner + candidates_for(bindings_view(entries@), names_view(names@), page_cursor@),
        ));
    }
    out
}

/// What the commands of a registry are called on screen.
pub open spec fn names_in<R: Renderer, C: Command<R>>(
    commands: Seq<(Seq<char>, C)>,
) -> Seq<(Seq<char>, Seq<char>)> {
    Seq::new(commands.len(), |i: int| (commands[i].0, commands[i].1.shown_as().name))
}

/// Looking up a name is looking up the command and asking for its name.
pub proof fn names_follow_commands<R: Renderer, C: Command<R>>(
    commands: Seq<(Seq<char>, C)>,
    id: Seq<char>,
)
    ensures
        lookup(names_in::<R, C>(commands), id) == match lookup(commands, id) {
            Some(c) => Some(c.shown_as().name),
            None => None,
        },
    decreases commands.len(),
{
    if commands.len() > 0 {
        let t = commands.drop_last();
        names_follow_commands::<R, C>(t, id);
        assert(names_in::<R, C>(commands).drop_last() =~= names_in::<R, C>(t));
    }
}

/// What the commands of a registry are called on screen.
pub fn command_names<R: Renderer, C: Command<R>>(commands: &CommandRegistry<C>) -> (r: Vec<
    (String, String),
>)
    ensures
        names_view(r@) == names_in::<R, C>(commands@),
{
    let list: &Vec<(CommandId, C)> = commands.iter();
    let mut out: Vec<(String, String)> = Vec::new();
    let mut i: usize = 0;
    while i < list.len()
        invariant
            i <= list@.len(),
            out@.len() == i,
            forall|k: int|
                0 <= k < i ==> (#[trigger] out@[k]).0@ == list@[k].0@ && out@[k].1@
                    == list@[k].1.shown_as().name,
        decreases list@.len() - i,
    {
        out.push((list[i].0.0.clone(), list[i].1.display().name.clone()));
        i += 1;
    }
    proof {
        assert(names_view(out@) =~= names_in::<R, C>(commands_view(list@)));
    }
    out
}

/// The hints for a page and the focus in it.
pub fn key_hints_for_context<R: Renderer, C: Command<R>>(
    bindings: &ScopeRegistry,
    commands: &CommandRegistry<C>,
    page_cursor: &Path,
    focused: Option<&Path>,
) -> (r: Vec<KeyHint>)
    ensures
        hints_view(r@) == context_hints(
            bindings@.entries,
            names_in::<R, C>(commands@),
            page_cursor@,
            match focused {
                Some(f) => Some(f@),
                None => None,
            },
        ),
{
    let names: Vec<(String, String)> = command_names::<R, C>(commands);
    key_hints_from_tables(bindings.entries(), &names, page_cursor, focused)
}

/// The hints for a page.
pub fn key_hints_for_cursor<R: Renderer, C: Command<R>>(
    bindings: &ScopeRegistry,
    commands: &CommandRegistry<C>,
    cursor: &Path,
) -> (r: Vec<KeyHint>)
    ensures
        hints_view(r@) == context_hints(
            bindings@.entries,
            names_in::<R, C>(commands@),
            cursor@,
            None,
        ),
{
    key_hints_for_context::<R, C>(bindings, commands, cursor, None)
}

proof fn lemma_firsts_distinct(c: Seq<Candidate>)
    ensures
        forall|i: int, j: int|
            0 <= i < j < firsts(c).len() ==> (#[trigger] firsts(c)[i]).key != (
            #[trigger] firsts(c)[j]).key,
    decreases c.len(),
{
    if c.len() > 0 {
        let rest = firsts(c.drop_last());
        lemma_firsts_distinct(c.drop_last());
        if !keys_of(rest).contains(c.last().key) {
            let f = firsts(c);
            assert forall|i: int, j: int| 0 <= i < j < f.len() implies (#[trigger] f[i]).key != (
            #[trigger] f[j]).key by {
                assert(f[i] == rest[i]);
                if j == rest.len() {
                    assert(keys_of(rest)[i] == rest[i].key);
                } else {
                    assert(f[j] == rest[j]);
                }
            }
        }
    }
}

proof fn lemma_hints_come_from(c: Seq<Candidate>, h: int)
    requires
        0 <= h < hints_of(c).len(),
    ensures
        exists|i: int| 0 <= i < c.len() && (#[trigger] c[i]).hint == Some(hints_of(c)[h]),
    decreases c.len(),
{
    let t = c.drop_last();
    if c.last().hint is Some && h == hints_of(t).len() {
        assert(c[c.len() - 1].hint == Some(hints_of(c)[h]));
    } else {
        lemma_hints_come_from(t, h);
        let i = choose|i: int| 0 <= i < t.len() && (#[trigger] t[i]).hint == Some(hints_of(t)[h]);
        assert(c[i] == t[i]);
    }
}

proof fn lemma_hints_distinct(c: Seq<Candidate>)
    requires
        forall|i: int, j: int|
            0 <= i < j < c.len() ==> (#[trigger] c[i]).key != (#[trigger] c[j]).key,
        forall|i: int|
            0 <= i < c.len() && (#[trigger] c[i]).hint is Some ==> c[i].hint->0.key == c[i].key,
    ensures
        forall|i: int, j: int|
            0 <= i < j < hints_of(c).len() ==> (#[trigger] hints_of(c)[i]).key != (
            #[trigger] hints_of(c)[j]).key,
    decreases c.len(),
{
    if c.len() > 0 {
        let t = c.drop_last();
        assert forall|i: int, j: int| 0 <= i < j < t.len() implies (#[trigger] t[i]).key != (
        #[trigger] t[j]).key by {
            assert(t[i] == c[i] && t[j] == c[j]);
        }
        assert forall|i: int|
            0 <= i < t.len() && (#[trigger] t[i]).hint is Some implies t[i].hint->0.key
            == t[i].key by {
            assert(t[i] == c[i]);
        }
        lemma_hints_distinct(t);
        let h = hints_of(c);
        let ht = hints_of(t);
        assert forall|i: int, j: int| 0 <= i < j < h.len() implies (#[trigger] h[i]).key != (
        #[trigger] h[j]).key by {
            assert(h[i] == ht[i]);
            if j < ht.len() {
                assert(h[j] == ht[j]);
                assert(ht[i].key != ht[j].key);
            } else {
                lemma_hints_come_from(t, i);
                let k = choose|k: int|
                    0 <= k < t.len() && (#[trigger] t[k]).hint == Some(hints_of(t)[i]);
                assert(t[k] == c[k]);
                assert(c[k].key != c[c.len() - 1].key);
                assert(c[c.len() - 1].hint is Some);
            }
        }
    }
}

proof fn lemma_candidates_keyed(
    entries: Seq<BindingView>,
    names: Seq<(Seq<char>, Seq<char>)>,
    cursor: Seq<Seq<char>>,
)
    ensures
        all_keyed(candidates_at(entries, names, cursor)),
    decreases entries.len(),
{
    if entries.len() > 0 {
        lemma_candidates_keyed(entries.drop_last(), names, cursor);
    }
}

pub(crate) open spec fn all_keyed(c: Seq<Candidate>) -> bool {
    forall|i: int|
        0 <= i < c.len() && (#[trigger] c[i]).hint is Some ==> c[i].hint->0.key == c[i].key
}

pub(crate) proof fn lemma_along_keyed(
    entries: Seq<BindingView>,
    names: Seq<(Seq<char>, Seq<char>)>,
    chain: Seq<Seq<Seq<char>>>,
    n: int,
)
    ensures
        all_keyed(candidates_along(entries, names, chain, n)),
    decreases n,
{
    if n > 0 {
        lemma_candidates_keyed(entries, names, chain[n - 1]);
        lemma_along_keyed(entries, names, chain, n - 1);
    }
}

pub(crate) proof fn lemma_firsts_keyed(c: Seq<Candidate>)
    requires
        all_keyed(c),
    ensures
        all_keyed(firsts(c)),
    decreases c.len(),
{
    if c.len() > 0 {
        let t = c.drop_last();
        assert forall|i: int|
            0 <= i < t.len() && (#[trigger] t[i]).hint is Some implies t[i].hint->0.key
            == t[i].key by {
            assert(t[i] == c[i]);
        }
        lemma_firsts_keyed(t);
        assert(c[c.len() - 1] == c.last());
    }
}

/// No key is shown twice.
pub proof fn hint_keys_are_distinct(
    entries: Seq<BindingView>,
    names: Seq<(Seq<char>, Seq<char>)>,
    page: Seq<Seq<char>>,
    focus: Option<Seq<Seq<char>>>,
)
    ensures
        forall|i: int, j: int|
            0 <= i < j < context_hints(entries, names, page, focus).len() ==> (
            #[trigger] context_hints(entries, names, page, focus)[i]).key != (
            #[trigger] context_hints(entries, names, page, focus)[j]).key,
{
    let inner = match focus {
        Some(f) => candidates_for(entries, names, f),
        None => Seq::empty(),
    };
    let c = inner + candidates_for(entries, names, page);
    match focus {
        Some(f) => {
            lemma_along_keyed(entries, names, ancestors(f), f.len() as int);
        },
        None => {},
    }
    lemma_along_keyed(entries, names, ancestors(page), page.len() as int);
    lemma_firsts_keyed(c);
    lemma_firsts_distinct(c);
    lemma_hints_distinct(firsts(c));
}

} // verus!
