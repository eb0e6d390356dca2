//! What the hints of the settings screen promise: the command shown for a key is
//! the one the key leads to.

use crate::assoc::lookup;
use crate::bindings::{
    capital, compose_bindings, compose_field_scope, compose_form_bindings,
    compose_selector_bindings, compose_text_bindings, edit_bindings, edit_scope, form_bindings,
    global_bindings, index_bindings, manual_model_bindings, on_widget, pending_delete_bindings,
    printable, row_bindings, settings_bindings, stage_bindings, typing,
};
use crate::dispatch::{
    bubbled, captured, lemma_captured, lemma_captured_comes_from, resolved, targeted,
};
use crate::help::{
    candidate, candidates_along, candidates_at, candidates_for, context_hints, firsts, hints_of,
    keys_of, lemma_along_keyed, lemma_firsts_keyed, Candidate,
};
use crate::keys::{chord_text, unmodified, BindingView, HintView, KeyChord, KeyCodeRepr, Phase};
use crate::ordered::{by_class, placed_all, placing_all_keeps_classes};
use crate::path::{ancestors, leads};
use crate::scopes::{binding_class, bound_is_first, first_bound, scoped_command};
use crate::shortcuts::{hint_class, join_all, join_one, joined_along, joined_at, projected};
use vstd::prelude::*;
use vstd::string::*;

verus! {

/// The bindings of the settings screen in the order they are resolved in.
pub open spec fn settings_table() -> Seq<BindingView> {
    placed_all(Seq::empty(), binding_class(), settings_bindings())
}

/// The first candidate with a key of that name.
pub(crate) open spec fn first_named(c: Seq<Candidate>, text: Seq<char>) -> Option<Candidate>
    decreases c.len(),
{
    if c.len() == 0 {
        None
    } else {
        match first_named(c.drop_last(), text) {
            Some(x) => Some(x),
            None => if c.last().key == text {
                Some(c.last())
            } else {
                None
            },
        }
    }
}

/// The first binding at a scope for a key of that name, whatever its phase.
spec fn first_fit(
    entries: Seq<BindingView>,
    scope: Seq<Seq<char>>,
    text: Seq<char>,
) -> Option<int>
    decreases entries.len(),
{
    if entries.len() == 0 {
        None
    } else {
        match first_fit(entries.drop_last(), scope, text) {
            Some(j) => Some(j),
            None => if fits(entries.last(), scope, text) {
                Some(entries.len() - 1)
            } else {
                None
            },
        }
    }
}

spec fn fits(b: BindingView, scope: Seq<Seq<char>>, text: Seq<char>) -> bool {
    b.scope.admits(scope) && chord_text(b.key) == text
}

proof fn lemma_first_fit(entries: Seq<BindingView>, scope: Seq<Seq<char>>, text: Seq<char>)
    ensures
        match first_fit(entries, scope, text) {
            Some(j) => 0 <= j < entries.len() && fits(entries[j], scope, text) && forall|k: int|
                0 <= k < j ==> !fits(#[trigger] entries[k], scope, text),
            None => forall|k: int|
                0 <= k < entries.len() ==> !fits(#[trigger] entries[k], scope, text),
        },
    decreases entries.len(),
{
    if entries.len() > 0 {
        let t = entries.drop_last();
        lemma_first_fit(t, scope, text);
        assert forall|k: int| 0 <= k < t.len() implies #[trigger] entries[k] == t[k] by {}
    }
}

proof fn lemma_named_at(
    entries: Seq<BindingView>,
    names: Seq<(Seq<char>, Seq<char>)>,
    scope: Seq<Seq<char>>,
    text: Seq<char>,
)
    ensures
        first_named(candidates_at(entries, names, scope), text) == match first_fit(
            entries,
            scope,
            text,
        ) {
            Some(j) => Some(candidate(entries[j], names)),
            None => None,
        },
    decreases entries.len(),
{
    if entries.len() > 0 {
        let t = entries.drop_last();
        lemma_named_at(t, names, scope, text);
        lemma_first_fit(t, scope, text);
        let rest = candidates_at(t, names, scope);
        if entries.last().scope.admits(scope) {
            let all = rest.push(candidate(entries.last(), names));
            assert(all.drop_last() =~= rest);
        }
    }
}

pub(crate) proof fn lemma_named_in_turn(a: Seq<Candidate>, b: Seq<Candidate>, text: Seq<char>)
    ensures
        first_named(a + b, text) == match first_named(a, text) {
            Some(x) => Some(x),
            None => first_named(b, text),
        },
    decreases b.len(),
{
    if b.len() == 0 {
        assert(a + b =~= a);
    } else {
        assert((a + b).drop_last() =~= a + b.drop_last());
        lemma_named_in_turn(a, b.drop_last(), text);
    }
}

/// The innermost of the first `n` scopes with a binding for a key of that name.
spec fn innermost(
    entries: Seq<BindingView>,
    chain: Seq<Seq<Seq<char>>>,
    text: Seq<char>,
    n: int,
) -> Option<int>
    decreases n,
{
    if n <= 0 {
        None
    } else if first_fit(entries, chain[n - 1], text) is Some {
        Some(n - 1)
    } else {
        innermost(entries, chain, text, n - 1)
    }
}

proof fn lemma_innermost(
    entries: Seq<BindingView>,
    names: Seq<(Seq<char>, Seq<char>)>,
    chain: Seq<Seq<Seq<char>>>,
    text: Seq<char>,
    n: int,
)
    ensures
        match innermost(entries, chain, text, n) {
            Some(m) => 0 <= m < n && first_fit(entries, chain[m], text) is Some && first_named(
                candidates_along(entries, names, chain, n),
                text,
            ) == Some(candidate(entries[first_fit(entries, chain[m], text)->0], names)) && forall|
                i: int,
            |
                m < i < n ==> first_fit(entries, #[trigger] chain[i], text) is None,
            None => forall|i: int|
                0 <= i < n ==> first_fit(entries, #[trigger] chain[i], text) is None,
        },
    decreases n,
{
    if n > 0 {
        lemma_innermost(entries, names, chain, text, n - 1);
        lemma_named_at(entries, names, chain[n - 1], text);
        lemma_named_in_turn(
            candidates_at(entries, names, chain[n - 1]),
            candidates_along(entries, names, chain, n - 1),
            text,
        );
    }
}

pub(crate) proof fn lemma_first_named(c: Seq<Candidate>, text: Seq<char>)
    ensures
        match first_named(c, text) {
            Some(x) => x.key == text && firsts(c).contains(x),
            None => forall|k: int| 0 <= k < c.len() ==> (#[trigger] c[k]).key != text,
        },
        forall|m: int|
            0 <= m < firsts(c).len() && (#[trigger] firsts(c)[m]).key == text ==> first_named(
                c,
                text,
            ) == Some(firsts(c)[m]),
    decreases c.len(),
{
    if c.len() > 0 {
        let t = c.drop_last();
        lemma_first_named(t, text);
        let (before, after) = (firsts(t), firsts(c));
        assert(c[c.len() - 1] == c.last());
        assert forall|k: int| 0 <= k < t.len() implies #[trigger] c[k] == t[k] by {}
        if keys_of(before).contains(c.last().key) {
            assert(after == before);
            if c.last().key == text {
                let m = choose|m: int| 0 <= m < keys_of(before).len() && keys_of(before)[m] == text;
                assert(before[m].key == text);
            }
        } else {
            assert(after == before.push(c.last()));
            assert(after[before.len() as int] == c.last());
            match first_named(t, text) {
                Some(x) => {
                    let m = choose|m: int| 0 <= m < before.len() && before[m] == x;
                    assert(after[m] == x);
                    assert(keys_of(before)[m] == text);
                },
                None => {},
            }
            assert forall|m: int|
                0 <= m < after.len() && (#[trigger] after[m]).key == text implies first_named(
                c,
                text,
            ) == Some(after[m]) by {
                if m < before.len() {
                    assert(after[m] == before[m]);
                }
            }
        }
    }
}

pub(crate) proof fn lemma_hint_of(c: Seq<Candidate>, m: int)
    requires
        0 <= m < c.len(),
        c[m].hint is Some,
    ensures
        hints_of(c).contains(c[m].hint->0),
    decreases c.len(),
{
    let t = c.drop_last();
    let rest = hints_of(t);
    let all = hints_of(c);
    if m == c.len() - 1 {
        assert(all[rest.len() as int] == c[m].hint->0);
    } else {
        assert(t[m] == c[m]);
        lemma_hint_of(t, m);
        let k = choose|k: int| 0 <= k < rest.len() && rest[k] == c[m].hint->0;
        assert(all[k] == c[m].hint->0);
    }
}

pub(crate) proof fn lemma_hint_comes_from(c: Seq<Candidate>, h: HintView)
    requires
        hints_of(c).contains(h),
    ensures
        exists|m: int| 0 <= m < c.len() && (#[trigger] c[m]).hint == Some(h),
    decreases c.len(),
{
    let t = c.drop_last();
    let k = choose|k: int| 0 <= k < hints_of(c).len() && hints_of(c)[k] == h;
    assert(c[c.len() - 1] == c.last());
    if k < hints_of(t).len() {
        assert(hints_of(t)[k] == h);
        lemma_hint_comes_from(t, h);
        let m = choose|m: int| 0 <= m < t.len() && (#[trigger] t[m]).hint == Some(h);
        assert(c[m].hint == Some(h));
    }
}

/// Keys whose names tell them apart: shift only with capitals and with the
/// backwards tab, control only for saving, no other modifier.
spec fn plain_key(k: KeyChord) -> bool {
    &&& !k.modifiers.alt && !k.modifiers.super_
    &&& k.modifiers.ctrl ==> k.code == KeyCodeRepr::Char('s')
    &&& k.modifiers.shift <==> (k.code is BackTab || (k.code is Char && capital(k.code->Char_0)))
}

proof fn lemma_plain_keys_differ(a: KeyChord, b: KeyChord)
    requires
        plain_key(a),
        plain_key(b),
        chord_text(a) == chord_text(b),
    ensures
        a == b,
{
    reveal_strlit("Space");
    reveal_strlit("Enter");
    reveal_strlit("Esc");
    reveal_strlit("Tab");
    reveal_strlit("Shift+Tab");
    reveal_strlit("Backspace");
    reveal_strlit("Up");
    reveal_strlit("Down");
    reveal_strlit("Left");
    reveal_strlit("Right");
    reveal_strlit("Home");
    reveal_strlit("End");
    reveal_strlit("Ctrl+");
    lemma_plain_text(a);
    lemma_plain_text(b);
    assert(plain_mark(a) == plain_mark(b));
}

/// The length of a plain key's name and its first two characters.
spec fn plain_mark(k: KeyChord) -> (nat, char, char) {
    if k.modifiers.ctrl {
        (6, 'C', 't')
    } else {
        match k.code {
            KeyCodeRepr::Char(c) => if c == ' ' {
                (5, 'S', 'p')
            } else {
                (1, c, c)
            },
            KeyCodeRepr::Enter => (5, 'E', 'n'),
            KeyCodeRepr::Esc => (3, 'E', 's'),
            KeyCodeRepr::Tab => (3, 'T', 'a'),
            KeyCodeRepr::BackTab => (9, 'S', 'h'),
            KeyCodeRepr::Backspace => (9, 'B', 'a'),
            KeyCodeRepr::Up => (2, 'U', 'p'),
            KeyCodeRepr::Down => (4, 'D', 'o'),
            KeyCodeRepr::Left => (4, 'L', 'e'),
            KeyCodeRepr::Right => (5, 'R', 'i'),
            KeyCodeRepr::Home => (4, 'H', 'o'),
            KeyCodeRepr::End => (3, 'E', 'n'),
        }
    }
}

proof fn lemma_plain_text(k: KeyChord)
    requires
        plain_key(k),
    ensures
        ({
            let t = chord_text(k);
            t.len() > 0 && plain_mark(k) == (t.len(), t[0], if t.len() > 1 {
                t[1]
            } else {
                t[0]
            })
        }),
{
    reveal_strlit("Space");
    reveal_strlit("Enter");
    reveal_strlit("Esc");
    reveal_strlit("Tab");
    reveal_strlit("Shift+Tab");
    reveal_strlit("Backspace");
    reveal_strlit("Up");
    reveal_strlit("Down");
    reveal_strlit("Left");
    reveal_strlit("Right");
    reveal_strlit("Home");
    reveal_strlit("End");
    reveal_strlit("Ctrl+");
}

/// The keys that close a widget or move through it.
spec fn moving(code: KeyCodeRepr) -> bool {
    code is Esc || code is Tab || code is BackTab || code is Up || code is Down
}

/// What a key does at exactly one scope of the settings screen, where it is
/// bound there.
spec fn exact_command(p: Seq<Seq<char>>, code: KeyCodeRepr) -> Seq<char> {
    if p.len() == 1 {
        page_command(code)
    } else if p.len() == 2 {
        if p[1] == "_edit"@ {
            match code {
                KeyCodeRepr::Backspace => "edit.delete_back"@,
                KeyCodeRepr::Enter => "edit.commit"@,
                _ => "edit.cancel"@,
            }
        } else if p[1] == "_confirm_delete"@ {
            if code == KeyCodeRepr::Char('y') {
                "accounts.confirm.delete"@
            } else {
                "accounts.confirm.cancel"@
            }
        } else if p[1] == "_compose_form"@ {
            form_command(
                code,
                "accounts.compose.cancel"@,
                "accounts.compose.focus_next"@,
                "accounts.compose.focus_prev"@,
                "accounts.compose.commit"@,
            )
        } else {
            form_command(
                code,
                "models.compose_manual.cancel"@,
                "models.compose_manual.focus_next"@,
                "models.compose_manual.focus_prev"@,
                "models.compose_manual.commit"@,
            )
        }
    } else if p[1] == "_manual_model"@ {
        if code is Backspace {
            "models.compose_manual.delete_back"@
        } else {
            "models.compose_manual.insert_char"@
        }
    } else if p[2] == "protocol"@ || p[2] == "auth"@ {
        if code is Left || code == KeyCodeRepr::Char('h') {
            "accounts.compose.cycle_back"@
        } else {
            "accounts.compose.cycle_forward"@
        }
    } else if code is Backspace {
        "accounts.compose.delete_back"@
    } else {
        "accounts.compose.insert_char"@
    }
}

spec fn page_command(code: KeyCodeRepr) -> Seq<char> {
    match code {
        KeyCodeRepr::Down => "tree.next"@,
        KeyCodeRepr::Up => "tree.prev"@,
        KeyCodeRepr::End => "tree.last"@,
        KeyCodeRepr::Home => "tree.first"@,
        KeyCodeRepr::Esc => "tree.collapse_or_ascend"@,
        KeyCodeRepr::Char(c) => if c == 'j' {
            "tree.next"@
        } else if c == 'k' {
            "tree.prev"@
        } else if c == 'G' {
            "tree.last"@
        } else {
            "tree.activate"@
        },
        _ => "tree.activate"@,
    }
}

spec fn form_command(
    code: KeyCodeRepr,
    cancel: Seq<char>,
    next: Seq<char>,
    prev: Seq<char>,
    commit: Seq<char>,
) -> Seq<char> {
    match code {
        KeyCodeRepr::Esc => cancel,
        KeyCodeRepr::Tab => next,
        KeyCodeRepr::Down => next,
        KeyCodeRepr::Enter => commit,
        _ => prev,
    }
}

/// What holds of every binding of the settings screen.
spec fn regular(b: BindingView) -> bool {
    &&& plain_key(b.key)
    &&& b.phase == Phase::Capture ==> b.scope is Exact && b.scope->Exact_0.len() == 2 && moving(
        b.key.code,
    )
    &&& moving(b.key.code) ==> b.scope is Exact && b.scope->Exact_0.len() <= 2
    &&& b.phase == Phase::Target ==> b.scope is Exact
    &&& b.scope is Exact ==> b.command == exact_command(b.scope->Exact_0, b.key.code)
}

spec fn all_regular(s: Seq<BindingView>) -> bool {
    forall|i: int| 0 <= i < s.len() ==> regular(#[trigger] s[i])
}

proof fn lemma_scopes_told_apart()
    ensures
        "_edit"@ != "_confirm_delete"@,
        "_edit"@ != "_compose_form"@,
        "_edit"@ != "_manual_model"@,
        "_confirm_delete"@ != "_compose_form"@,
        "_confirm_delete"@ != "_manual_model"@,
        "_compose_form"@ != "_manual_model"@,
        "name"@ != "protocol"@ && "name"@ != "auth"@,
        "endpoint"@ != "protocol"@ && "endpoint"@ != "auth"@,
        "key"@ != "protocol"@ && "key"@ != "auth"@,
{
    reveal_strlit("_edit");
    reveal_strlit("_confirm_delete");
    reveal_strlit("_compose_form");
    reveal_strlit("_manual_model");
    reveal_strlit("name");
    reveal_strlit("endpoint");
    reveal_strlit("key");
    reveal_strlit("protocol");
    reveal_strlit("auth");
    assert("_edit"@.len() == 5);
    assert("_confirm_delete"@.len() == 15);
    assert("_compose_form"@.len() == 13 && "_compose_form"@[1] == 'c');
    assert("_manual_model"@.len() == 13 && "_manual_model"@[1] == 'm');
    assert("name"@[0] == 'n');
    assert("endpoint"@[0] == 'e');
    assert("key"@[0] == 'k');
    assert("protocol"@[0] == 'p');
    assert("auth"@[0] == 'a');
}

proof fn lemma_index_regular()
    ensures
        all_regular(index_bindings()),
{
    let s = index_bindings();
    assert(seq!["settings"@].len() == 1);
    assert forall|i: int| 0 <= i < s.len() implies regular(#[trigger] s[i]) by {
        assert(i == 0 || i == 1 || i == 2 || i == 3 || i == 4 || i == 5 || i == 6 || i == 7 || i
            == 8 || i == 9 || i == 10 || i == 11 || i == 12);
    }
}

proof fn lemma_widgets_regular()
    ensures
        all_regular(row_bindings()),
        all_regular(global_bindings()),
        all_regular(edit_bindings()),
        all_regular(pending_delete_bindings()),
{
    lemma_scopes_told_apart();
    assert(edit_scope().len() == 2 && edit_scope()[1] == "_edit"@);
    let at = seq!["settings"@, "_confirm_delete"@];
    assert(at.len() == 2 && at[1] == "_confirm_delete"@);
}

proof fn lemma_forms_regular()
    ensures
        all_regular(compose_form_bindings()),
        all_regular(
            form_bindings(
                seq!["settings"@, "_manual_model"@],
                "models.compose_manual.cancel"@,
                "models.compose_manual.focus_next"@,
                "models.compose_manual.focus_prev"@,
                "models.compose_manual.commit"@,
            ),
        ),
{
    lemma_scopes_told_apart();
    let c = seq!["settings"@, "_compose_form"@];
    let m = seq!["settings"@, "_manual_model"@];
    assert(c.len() == 2 && c[1] == "_compose_form"@);
    assert(m.len() == 2 && m[1] == "_manual_model"@);
}

proof fn lemma_typing_regular(scope: Seq<Seq<char>>, command: Seq<char>, last: BindingView)
    requires
        regular(last),
        scope.len() == 3,
        forall|c: char| command == #[trigger] exact_command(scope, KeyCodeRepr::Char(c)),
    ensures
        all_regular(typing(scope, command, true).push(last)),
{
    let s = typing(scope, command, true).push(last);
    assert forall|i: int| 0 <= i < s.len() implies regular(#[trigger] s[i]) by {
        if i < 95 {
            assert(s[i] == typing(scope, command, true)[i]);
            assert(command == exact_command(scope, KeyCodeRepr::Char(printable(i))));
        }
    }
}

proof fn lemma_text_field_regular(field: Seq<char>)
    requires
        field != "protocol"@,
        field != "auth"@,
    ensures
        all_regular(compose_text_bindings(field)),
{
    lemma_scopes_told_apart();
    let at = compose_field_scope(field);
    assert(at.len() == 3 && at[1] == "_compose_form"@ && at[2] == field);
    lemma_typing_regular(
        at,
        "accounts.compose.insert_char"@,
        on_widget(
            at,
            unmodified(),
            KeyCodeRepr::Backspace,
            "accounts.compose.delete_back"@,
            Phase::Target,
        ),
    );
}

proof fn lemma_selector_regular(field: Seq<char>)
    requires
        field == "protocol"@ || field == "auth"@,
    ensures
        all_regular(compose_selector_bindings(field)),
{
    lemma_scopes_told_apart();
    let at = compose_field_scope(field);
    assert(at.len() == 3 && at[1] == "_compose_form"@ && at[2] == field);
}

proof fn lemma_stage_regular(stage: Seq<char>)
    ensures
        all_regular(stage_bindings(stage)),
{
    let at = seq!["settings"@, "_manual_model"@, stage];
    assert(at.len() == 3 && at[1] == "_manual_model"@);
    lemma_typing_regular(
        at,
        "models.compose_manual.insert_char"@,
        on_widget(
            at,
            unmodified(),
            KeyCodeRepr::Backspace,
            "models.compose_manual.delete_back"@,
            Phase::Target,
        ),
    );
}

proof fn lemma_table_regular()
    ensures
        all_regular(settings_table()),
        by_class(settings_table(), binding_class()),
{
    lemma_scopes_told_apart();
    lemma_index_regular();
    lemma_widgets_regular();
    lemma_forms_regular();
    lemma_text_field_regular("name"@);
    lemma_text_field_regular("endpoint"@);
    lemma_text_field_regular("key"@);
    lemma_selector_regular("protocol"@);
    lemma_selector_regular("auth"@);
    lemma_stage_regular("id"@);
    lemma_stage_regular("ctx"@);
    lemma_stage_regular("out"@);
    assert(all_regular(compose_bindings()));
    assert(all_regular(manual_model_bindings()));
    let all = settings_bindings();
    assert(all_regular(all));
    placing_all_keeps_classes(Seq::<BindingView>::empty(), binding_class(), all);
    let table = settings_table();
    assert forall|i: int| 0 <= i < table.len() implies regular(#[trigger] table[i]) by {
        assert(table.contains(table[i]));
        assert(all.contains(table[i]));
        let k = choose|k: int| 0 <= k < all.len() && all[k] == table[i];
        assert(regular(all[k]));
    }
}

/// Whether a key is kept for a part of a widget that the cursor is below, and
/// not bound at the cursor itself.
pub open spec fn kept_above(
    entries: Seq<BindingView>,
    cursor: Seq<Seq<char>>,
    key: KeyChord,
) -> bool {
    &&& exists|j: int|
        0 <= j < entries.len() && (#[trigger] entries[j]).phase == Phase::Target && entries[j].key
            == key && entries[j].scope is Exact && leads(entries[j].scope->Exact_0, cursor)
            && entries[j].scope->Exact_0.len() < cursor.len()
    &&& forall|j: int|
        0 <= j < entries.len() && (#[trigger] entries[j]).key == key
            ==> !entries[j].scope.admits(cursor)
}

proof fn lemma_fit_is_key(
    entries: Seq<BindingView>,
    scope: Seq<Seq<char>>,
    key: KeyChord,
    j: int,
)
    requires
        all_regular(entries),
        plain_key(key),
        0 <= j < entries.len(),
    ensures
        fits(entries[j], scope, chord_text(key)) <==> entries[j].scope.admits(scope)
            && entries[j].key == key,
{
    assert(regular(entries[j]));
    if chord_text(entries[j].key) == chord_text(key) {
        lemma_plain_keys_differ(entries[j].key, key);
    }
}

proof fn lemma_bubbled_at(
    entries: Seq<BindingView>,
    chain: Seq<Seq<Seq<char>>>,
    key: KeyChord,
    n: int,
    m: int,
)
    requires
        0 <= m < n <= chain.len(),
        scoped_command(entries, chain[m], key, Phase::Bubble) is Some,
        forall|i: int|
            m < i < n ==> scoped_command(entries, #[trigger] chain[i], key, Phase::Bubble) is None,
    ensures
        bubbled(entries, chain, key, n) == scoped_command(entries, chain[m], key, Phase::Bubble),
    decreases n,
{
    if m < n - 1 {
        assert(scoped_command(entries, chain[n - 1], key, Phase::Bubble) is None);
        lemma_bubbled_at(entries, chain, key, n - 1, m);
    }
}

/// The innermost binding for a key along the chain of a cursor is for the
/// command that the key leads to there.
proof fn lemma_claim_is_what_fires(
    names: Seq<(Seq<char>, Seq<char>)>,
    cursor: Seq<Seq<char>>,
    key: KeyChord,
    command: Seq<char>,
)
    requires
        resolved(settings_table(), ancestors(cursor), key) == Some(command),
        !kept_above(settings_table(), cursor, key),
    ensures
        plain_key(key),
        ({
            let c = first_named(candidates_for(settings_table(), names, cursor), chord_text(key));
            c is Some && exists|j: int|
                0 <= j < settings_table().len() && c->0 == candidate(
                    #[trigger] settings_table()[j],
                    names,
                ) && settings_table()[j].command == command && settings_table()[j].key == key
        }),
{
    let e = settings_table();
    let chain = ancestors(cursor);
    let n = chain.len() as int;
    let text = chord_text(key);
    lemma_table_regular();
    crate::dispatch::only_scopes_on_the_chain_fire(e, chain, key);
    let (i0, j0) = choose|i: int, j: int|
        0 <= i < chain.len() && 0 <= j < e.len() && (#[trigger] e[j]).scope.admits(
            #[trigger] chain[i],
        ) && e[j].key == key && Some(e[j].command) == resolved(e, chain, key);
    assert(regular(e[j0]));
    lemma_innermost(e, names, chain, text, n);
    lemma_first_fit(e, chain[i0], text);
    lemma_fit_is_key(e, chain[i0], key, j0);
    assert(first_fit(e, chain[i0], text) is Some);
    let m = innermost(e, chain, text, n)->0;
    lemma_first_fit(e, chain[m], text);
    let j = first_fit(e, chain[m], text)->0;
    lemma_fit_is_key(e, chain[m], key, j);
    assert(regular(e[j]));
    assert(chain[m] == cursor.subrange(0, m + 1));
    if captured(e, chain, key, n) is Some {
        lemma_captured_comes_from(e, chain, key, n);
        let i = choose|i: int|
            0 <= i < n && scoped_command(e, #[trigger] chain[i], key, Phase::Capture) == captured(
                e,
                chain,
                key,
                n,
            );
        bound_is_first(e, chain[i], key, Phase::Capture);
        let k = first_bound(e, chain[i], key, Phase::Capture)->0;
        assert(regular(e[k]));
        lemma_first_fit(e, chain[i], text);
        lemma_fit_is_key(e, chain[i], key, k);
        assert(first_fit(e, chain[i], text) is Some);
        assert(i <= m);
        assert(chain[i] == cursor.subrange(0, i + 1));
        assert(e[k].scope->Exact_0 == chain[i]);
        assert(e[j].scope->Exact_0 == chain[m]);
        assert(m == i);
    } else if targeted(e, chain, key) is Some {
        bound_is_first(e, chain.last(), key, Phase::Target);
        let k = first_bound(e, chain.last(), key, Phase::Target)->0;
        assert(regular(e[k]));
        assert(chain.last() == chain[n - 1]);
        lemma_first_fit(e, chain[n - 1], text);
        lemma_fit_is_key(e, chain[n - 1], key, k);
        assert(m == n - 1);
        assert(j <= k);
        assert(binding_class()(e[j]) <= binding_class()(e[k])) by {
            if j < k {
                assert(by_class(e, binding_class()));
            }
        }
        assert(e[j].scope is Exact);
        assert(e[j].scope->Exact_0 == e[k].scope->Exact_0);
    } else {
        bound_is_first(e, chain[m], key, Phase::Capture);
        if e[j].phase == Phase::Capture {
            assert(e[j].applies(chain[m], key, Phase::Capture));
            lemma_captured(e, chain, key, n, m);
        }
        if e[j].phase == Phase::Target {
            bound_is_first(e, chain[m], key, Phase::Target);
            assert(e[j].applies(chain[m], key, Phase::Target));
            assert(e[j].scope->Exact_0 == chain[m]);
            if m < n - 1 {
                lemma_first_fit(e, chain[n - 1], text);
                assert(first_fit(e, chain[n - 1], text) is None);
                assert(chain[n - 1] =~= cursor);
                assert forall|q: int| 0 <= q < e.len() && (#[trigger] e[q]).key == key
                    implies !e[q].scope.admits(cursor) by {
                    lemma_fit_is_key(e, chain[n - 1], key, q);
                    assert(!fits(e[q], chain[n - 1], text));
                }
                assert(leads(chain[m], cursor));
                assert(kept_above(e, cursor, key));
            } else {
                assert(chain.last() == chain[m]);
            }
        }
        assert(e[j].phase == Phase::Bubble);
        bound_is_first(e, chain[m], key, Phase::Bubble);
        assert(e[j].applies(chain[m], key, Phase::Bubble));
        let k = first_bound(e, chain[m], key, Phase::Bubble)->0;
        lemma_fit_is_key(e, chain[m], key, k);
        if k < j {
            assert(!fits(e[k], chain[m], text));
        }
        assert(k == j);
        assert forall|i: int| m < i < n implies scoped_command(
            e,
            #[trigger] chain[i],
            key,
            Phase::Bubble,
        ) is None by {
            assert(first_fit(e, chain[i], text) is None);
            lemma_first_fit(e, chain[i], text);
            bound_is_first(e, chain[i], key, Phase::Bubble);
            if first_bound(e, chain[i], key, Phase::Bubble) is Some {
                let q = first_bound(e, chain[i], key, Phase::Bubble)->0;
                lemma_fit_is_key(e, chain[i], key, q);
                assert(fits(e[q], chain[i], text));
            }
        }
        lemma_bubbled_at(e, chain, key, n, m);
    }
    assert(e[j].command == command);
}

/// The hint for a key shows the command that the key leads to. This holds of
/// every key of the settings screen that leads to a command where the focus is,
/// or, without a focus, where the page is: if the command exists, its name and
/// id are shown for the key, and if it does not, nothing is. Left out are keys
/// that a part of a widget above the focus keeps for itself.
pub proof fn hints_show_what_fires(
    names: Seq<(Seq<char>, Seq<char>)>,
    page: Seq<Seq<char>>,
    focus: Option<Seq<Seq<char>>>,
    key: KeyChord,
    command: Seq<char>,
)
    requires
        ({
            let cursor = match focus {
                Some(f) => f,
                None => page,
            };
            &&& resolved(settings_table(), ancestors(cursor), key) == Some(command)
            &&& !kept_above(settings_table(), cursor, key)
        }),
    ensures
        ({
            let hints = context_hints(settings_table(), names, page, focus);
            match lookup(names, command) {
                Some(name) => exists|m: int|
                    0 <= m < hints.len() && (#[trigger] hints[m]).key == chord_text(key)
                        && hints[m].command == command && hints[m].description == name,
                None => forall|m: int|
                    0 <= m < hints.len() ==> (#[trigger] hints[m]).key != chord_text(key),
            }
        }),
{
    let e = settings_table();
    let cursor = match focus {
        Some(f) => f,
        None => page,
    };
    let text = chord_text(key);
    lemma_claim_is_what_fires(names, cursor, key, command);
    let inner = match focus {
        Some(f) => candidates_for(e, names, f),
        None => Seq::empty(),
    };
    let c = inner + candidates_for(e, names, page);
    lemma_named_in_turn(inner, candidates_for(e, names, page), text);
    let found = first_named(candidates_for(e, names, cursor), text)->0;
    assert(first_named(c, text) == Some(found));
    let j = choose|j: int|
        0 <= j < e.len() && found == candidate(#[trigger] e[j], names) && e[j].command == command
            && e[j].key == key;
    lemma_first_named(c, text);
    let shown = firsts(c);
    let hints = hints_of(shown);
    assert(hints == context_hints(e, names, page, focus));
    match lookup(names, command) {
        Some(name) => {
            let m = choose|m: int| 0 <= m < shown.len() && shown[m] == found;
            lemma_hint_of(shown, m);
            let k = choose|k: int| 0 <= k < hints.len() && hints[k] == found.hint->0;
            assert(hints[k].key == text && hints[k].command == command && hints[k].description
                == name);
        },
        None => {
            match focus {
                Some(f) => {
                    lemma_along_keyed(e, names, ancestors(f), f.len() as int);
                },
                None => {},
            }
            lemma_along_keyed(e, names, ancestors(page), page.len() as int);
            lemma_firsts_keyed(c);
            assert forall|m: int| 0 <= m < hints.len() implies (#[trigger] hints[m]).key != text by {
                assert(hints.contains(hints[m]));
                lemma_hint_comes_from(shown, hints[m]);
                let k = choose|k: int|
                    0 <= k < shown.len() && (#[trigger] shown[k]).hint == Some(hints[m]);
                if hints[m].key == text {
                    assert(shown[k].key == text);
                    assert(found == shown[k]);
                }
            }
        },
    }
}

/// The candidates whose commands exist.
spec fn known(c: Seq<Candidate>) -> Seq<Candidate>
    decreases c.len(),
{
    if c.len() == 0 {
        Seq::empty()
    } else if c.last().hint is Some {
        known(c.drop_last()).push(c.last())
    } else {
        known(c.drop_last())
    }
}

proof fn lemma_known_in_turn(a: Seq<Candidate>, b: Seq<Candidate>)
    ensures
        known(a + b) == known(a) + known(b),
    decreases b.len(),
{
    if b.len() == 0 {
        assert(a + b =~= a);
        assert(known(a) + Seq::<Candidate>::empty() =~= known(a));
    } else {
        assert((a + b).drop_last() =~= a + b.drop_last());
        lemma_known_in_turn(a, b.drop_last());
        assert(known(a + b) =~= known(a) + known(b));
    }
}

proof fn lemma_known_named(c: Seq<Candidate>, text: Seq<char>)
    requires
        first_named(c, text) is Some,
        first_named(c, text)->0.hint is Some,
    ensures
        first_named(known(c), text) == first_named(c, text),
    decreases c.len(),
{
    let t = c.drop_last();
    if first_named(t, text) is Some {
        lemma_known_named(t, text);
        if c.last().hint is Some {
            assert(known(c).drop_last() =~= known(t));
        }
    } else {
        lemma_unnamed_known(t, text);
        assert(known(c).drop_last() =~= known(t));
    }
}

proof fn lemma_unnamed_known(c: Seq<Candidate>, text: Seq<char>)
    requires
        first_named(c, text) is None,
    ensures
        first_named(known(c), text) is None,
    decreases c.len(),
{
    if c.len() > 0 {
        lemma_unnamed_known(c.drop_last(), text);
        if c.last().hint is Some {
            assert(known(c).drop_last() =~= known(c.drop_last()));
        }
    }
}

proof fn lemma_joined_at_known(
    entries: Seq<BindingView>,
    names: Seq<(Seq<char>, Seq<char>)>,
    scope: Seq<Seq<char>>,
)
    ensures
        joined_at(join_all(entries, names), scope) == known(candidates_at(entries, names, scope)),
    decreases entries.len(),
{
    if entries.len() > 0 {
        let t = entries.drop_last();
        let b = entries.last();
        lemma_joined_at_known(t, names, scope);
        let rest = candidates_at(t, names, scope);
        if b.scope.admits(scope) {
            assert(rest.push(candidate(b, names)).drop_last() =~= rest);
        }
        match lookup(names, b.command) {
            Some(name) => {
                let all = join_all(t, names).push(join_one(b, name));
                assert(all.drop_last() =~= join_all(t, names));
            },
            None => {},
        }
    }
}

proof fn lemma_joined_along_known(
    entries: Seq<BindingView>,
    names: Seq<(Seq<char>, Seq<char>)>,
    chain: Seq<Seq<Seq<char>>>,
    n: int,
)
    ensures
        joined_along(join_all(entries, names), chain, n) == known(
            candidates_along(entries, names, chain, n),
        ),
    decreases n,
{
    if n > 0 {
        lemma_joined_along_known(entries, names, chain, n - 1);
        lemma_joined_at_known(entries, names, chain[n - 1]);
        lemma_known_in_turn(
            candidates_at(entries, names, chain[n - 1]),
            candidates_along(entries, names, chain, n - 1),
        );
    }
}

/// The shortcut record shows the command that the key leads to: whatever
/// existing command a key of the settings screen leads to at a cursor, the
/// record projected for that cursor holds it, under the key. Left out are keys
/// that a part of a widget above the cursor keeps for itself.
pub proof fn shortcuts_show_what_fires(
    names: Seq<(Seq<char>, Seq<char>)>,
    cursor: Seq<Seq<char>>,
    key: KeyChord,
    command: Seq<char>,
    name: Seq<char>,
)
    requires
        resolved(settings_table(), ancestors(cursor), key) == Some(command),
        !kept_above(settings_table(), cursor, key),
        lookup(names, command) == Some(name),
    ensures
        ({
            let hints = projected(join_all(settings_table(), names), cursor);
            exists|m: int|
                0 <= m < hints.len() && (#[trigger] hints[m]).key == chord_text(key)
                    && hints[m].command == command && hints[m].description == name
        }),
{
    let e = settings_table();
    let text = chord_text(key);
    let c = candidates_for(e, names, cursor);
    lemma_claim_is_what_fires(names, cursor, key, command);
    lemma_joined_along_known(e, names, ancestors(cursor), cursor.len() as int);
    lemma_known_named(c, text);
    lemma_first_named(known(c), text);
    let found = first_named(c, text)->0;
    let shown = firsts(known(c));
    let m = choose|m: int| 0 <= m < shown.len() && shown[m] == found;
    lemma_hint_of(shown, m);
    let h = found.hint->0;
    let hints = projected(join_all(e, names), cursor);
    placing_all_keeps_classes(Seq::<HintView>::empty(), hint_class(), hints_of(shown));
    assert(hints.contains(h));
    let k = choose|k: int| 0 <= k < hints.len() && hints[k] == h;
    assert(hints[k].key == text && hints[k].command == command && hints[k].description == name);
}

} // verus!
