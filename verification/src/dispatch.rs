//! From a keystroke to writes: which command the key is bound to where the
//! focus is, and what that command asks for.
//!
//! A key travels from the outermost scope in to the focus and back out. On the
//! way in containers may capture it, then the focus itself is asked, and on the
//! way out containers take what was left.

use crate::assoc::lookup;
use crate::command_registry::{Command, CommandCtx, CommandRegistry, CtxView};
use crate::commands::compose::{
    compose_scope, draft_part, field_state_subpath, focused_field, focused_path as focus_place,
    read_focused_field,
};
use crate::commands::navigation::read_path;
use crate::keys::{opt_path, BindingScope, BindingView, CommandId, KeyChord, Phase, ScopeView};
use crate::path::{ancestors, leads, path1, path3, path4, path_ancestors, paths_view, Path};
use crate::registry::{Renderer, RendererRegistry};
use crate::renderers::util::{bool_at, path_at, read_bool};
use crate::scopes::{bound_is_first, first_bound, scoped_command, ScopeRegistry};
use crate::snapshot::{SettingsSnapshot, SnapshotView};
use crate::types::{field_text, field_text_names_field, AccountField};
use crate::value::{writes_view, ValueView, Write, WriteView};
use vstd::prelude::*;

verus! {

/// Where keys go: to the cursor, or, where nothing has the focus yet, to the
/// field of an open draft, or else to the root of the screen.
pub open spec fn engaged(s: SnapshotView) -> Seq<Seq<char>> {
    match path_at(s, focus_place()) {
        Some(c) => c,
        None => if bool_at(s, draft_part("active"@)) == Some(true) {
            compose_scope().push(field_text(focused_field(s)))
        } else {
            seq!["settings"@]
        },
    }
}

/// The scopes from the outermost in to where keys go: its leading parts.
pub open spec fn scope_chain(s: SnapshotView) -> Seq<Seq<Seq<char>>> {
    ancestors(engaged(s))
}

/// The same as exact scopes.
pub open spec fn exact_scopes(chain: Seq<Seq<Seq<char>>>) -> Seq<ScopeView> {
    Seq::new(chain.len(), |i: int| ScopeView::Exact(chain[i]))
}

/// What each scope of a list holds.
pub open spec fn scopes_view(v: Seq<BindingScope>) -> Seq<ScopeView> {
    Seq::new(v.len(), |i: int| v[i]@)
}

/// The cursor.
pub fn read_cursor(snapshot: &SettingsSnapshot) -> (r: Option<Path>)
    ensures
        opt_path(r) == path_at(snapshot@, focus_place()),
{
    read_path(snapshot, &path3("ui", "settings", "focused"))
}

/// The scopes from the outermost in to the focus.
pub fn compute_scope_path(snapshot: &SettingsSnapshot) -> (r: Vec<BindingScope>)
    ensures
        scopes_view(r@) == exact_scopes(scope_chain(snapshot@)),
{
    let engaged: Path = match read_cursor(snapshot) {
        Some(cursor) => cursor,
        None => if read_bool(snapshot, &path4("ui", "settings", "new_account", "active"))
            == Some(true) {
            let field = field_state_subpath(read_focused_field(snapshot));
            path3("settings", "_compose_form", field)
        } else {
            path1("settings")
        },
    };
    proof {
        assert(engaged@ =~= self::engaged(snapshot@));
    }
    let chain: Vec<Path> = path_ancestors(&engaged);
    let ghost all = paths_view(chain@);
    let mut out: Vec<BindingScope> = Vec::new();
    let mut i: usize = 0;
    while i < chain.len()
        invariant
            i <= chain@.len(),
            all == paths_view(chain@),
            out@.len() == i,
            forall|k: int| 0 <= k < i ==> (#[trigger] out@[k])@ == ScopeView::Exact(all[k]),
        decreases chain@.len() - i,
    {
        out.push(BindingScope::Exact(chain[i].copied()));
        i += 1;
    }
    proof {
        assert(scopes_view(out@) =~= exact_scopes(scope_chain(snapshot@)));
    }
    out
}

/// The command captured on the way in, the outermost of the first `n` scopes
/// first.
pub open spec fn captured(
    entries: Seq<BindingView>,
    chain: Seq<Seq<Seq<char>>>,
    key: KeyChord,
    n: int,
) -> Option<Seq<char>>
    decreases n,
{
    if n <= 0 {
        None
    } else {
        match captured(entries, chain, key, n - 1) {
            Some(c) => Some(c),
            None => scoped_command(entries, chain[n - 1], key, Phase::Capture),
        }
    }
}

/// The command bound at the innermost scope.
pub open spec fn targeted(
    entries: Seq<BindingView>,
    chain: Seq<Seq<Seq<char>>>,
    key: KeyChord,
) -> Option<Seq<char>> {
    if chain.len() == 0 {
        None
    } else {
        scoped_command(entries, chain.last(), key, Phase::Target)
    }
}

/// The command taken on the way out, the innermost of the first `n` scopes
/// first.
pub open spec fn bubbled(
    entries: Seq<BindingView>,
    chain: Seq<Seq<Seq<char>>>,
    key: KeyChord,
    n: int,
) -> Option<Seq<char>>
    decreases n,
{
    if n <= 0 {
        None
    } else {
        match scoped_command(entries, chain[n - 1], key, Phase::Bubble) {
            Some(c) => Some(c),
            None => bubbled(entries, chain, key, n - 1),
        }
    }
}

/// The command a key is bound to along a chain of scopes.
pub open spec fn resolved(
    entries: Seq<BindingView>,
    chain: Seq<Seq<Seq<char>>>,
    key: KeyChord,
) -> Option<Seq<char>> {
    match captured(entries, chain, key, chain.len() as int) {
        Some(c) => Some(c),
        None => match targeted(entries, chain, key) {
            Some(c) => Some(c),
            None => bubbled(entries, chain, key, chain.len() as int),
        },
    }
}

/// The writes a keystroke leads to: none where the key is not bound, or bound to
/// a command that does not exist.
pub open spec fn dispatched<R: Renderer, C: Command<R>>(
    s: SnapshotView,
    key: KeyChord,
    commands: Seq<(Seq<char>, C)>,
    entries: Seq<BindingView>,
    pages: Seq<(Seq<Seq<char>>, R)>,
) -> Seq<WriteView> {
    match resolved(entries, scope_chain(s), key) {
        None => Seq::empty(),
        Some(id) => match lookup(commands, id) {
            None => Seq::empty(),
            Some(command) => command.writes(s, CtxView { pages, last_keystroke: Some(key) }),
        },
    }
}

/// The view of an optional command id.
pub open spec fn opt_id(o: Option<&CommandId>) -> Option<Seq<char>> {
    match o {
        Some(id) => Some(id@),
        None => None,
    }
}

fn capture<'a>(bindings: &'a ScopeRegistry, chain: &Vec<BindingScope>, key: &KeyChord) -> (r:
    Option<&'a CommandId>)
    requires
        forall|i: int| 0 <= i < chain@.len() ==> (#[trigger] chain@[i])@ is Exact,
    ensures
        ({
            let paths = Seq::new(chain@.len(), |i: int| chain@[i]@->Exact_0);
            opt_id(r) == captured(bindings@.entries, paths, *key, chain@.len() as int)
        }),
{
    let ghost paths = Seq::new(chain@.len(), |i: int| chain@[i]@->Exact_0);
    let mut i: usize = 0;
    while i < chain.len()
        invariant
            i <= chain@.len(),
            forall|i: int| 0 <= i < chain@.len() ==> (#[trigger] chain@[i])@ is Exact,
            paths == Seq::new(chain@.len(), |i: int| chain@[i]@->Exact_0),
            captured(bindings@.entries, paths, *key, i as int) is None,
        decreases chain@.len() - i,
    {
        proof {
            assert(chain@[i as int]@ is Exact);
            assert(paths[i as int] == chain@[i as int]@->Exact_0);
        }
        match chain[i].keyed_path() {
            Some(p) => match bindings.lookup(p, key, Phase::Capture) {
                Some(hit) => {
                    proof {
                        lemma_captured_stays(bindings@.entries, paths, *key, i + 1);
                    }
                    return Some(hit);
                },
                None => {},
            },
            None => {},
        }
        i += 1;
    }
    None
}

proof fn lemma_captured_stays(
    entries: Seq<BindingView>,
    chain: Seq<Seq<Seq<char>>>,
    key: KeyChord,
    n: int,
)
    requires
        0 <= n <= chain.len(),
        captured(entries, chain, key, n) is Some,
    ensures
        captured(entries, chain, key, chain.len() as int) == captured(entries, chain, key, n),
    decreases chain.len() - n,
{
    if n < chain.len() {
        lemma_captured_stays(entries, chain, key, n + 1);
    }
}

fn bubble<'a>(bindings: &'a ScopeRegistry, chain: &Vec<BindingScope>, key: &KeyChord) -> (r:
    Option<&'a CommandId>)
    requires
        forall|i: int| 0 <= i < chain@.len() ==> (#[trigger] chain@[i])@ is Exact,
    ensures
        ({
            let paths = Seq::new(chain@.len(), |i: int| chain@[i]@->Exact_0);
            opt_id(r) == bubbled(bindings@.entries, paths, *key, chain@.len() as int)
        }),
{
    let ghost paths = Seq::new(chain@.len(), |i: int| chain@[i]@->Exact_0);
    let mut i: usize = chain.len();
    while i > 0
        invariant
            i <= chain@.len(),
            forall|i: int| 0 <= i < chain@.len() ==> (#[trigger] chain@[i])@ is Exact,
            paths == Seq::new(chain@.len(), |i: int| chain@[i]@->Exact_0),
            bubbled(bindings@.entries, paths, *key, i as int) == bubbled(
                bindings@.entries,
                paths,
                *key,
                chain@.len() as int,
            ),
        decreases i,
    {
        proof {
            assert(chain@[i - 1]@ is Exact);
            assert(paths[i - 1] == chain@[i - 1]@->Exact_0);
        }
        match chain[i - 1].keyed_path() {
            Some(p) => match bindings.lookup(p, key, Phase::Bubble) {
                Some(hit) => {
                    return Some(hit);
                },
                None => {},
            },
            None => {},
        }
        i -= 1;
    }
    None
}

/// The command a key is bound to where the focus is.
pub fn resolve_key<'a>(
    snapshot: &SettingsSnapshot,
    key: &KeyChord,
    bindings: &'a ScopeRegistry,
) -> (r: Option<&'a CommandId>)
    ensures
        opt_id(r) == resolved(bindings@.entries, scope_chain(snapshot@), *key),
{
    let scope_path: Vec<BindingScope> = compute_scope_path(snapshot);
    let ghost chain = scope_chain(snapshot@);
    proof {
        assert(scopes_view(scope_path@).len() == exact_scopes(chain).len());
        assert forall|i: int| 0 <= i < scope_path@.len() implies (#[trigger] scope_path@[i])@
            == ScopeView::Exact(chain[i]) by {
            assert(scopes_view(scope_path@)[i] == exact_scopes(chain)[i]);
        }
        assert(Seq::new(scope_path@.len(), |i: int| scope_path@[i]@->Exact_0) =~= chain);
    }
    match capture(bindings, &scope_path, key) {
        Some(hit) => {
            return Some(hit);
        },
        None => {},
    }
    if scope_path.len() > 0 {
        match scope_path[scope_path.len() - 1].keyed_path() {
            Some(leaf) => match bindings.lookup(leaf, key, Phase::Target) {
                Some(hit) => {
                    return Some(hit);
                },
                None => {},
            },
            None => {},
        }
    }
    bubble(bindings, &scope_path, key)
}

/// The writes a keystroke leads to. Where the focus is decides; the cursor of
/// the page does not.
pub fn dispatch_settings_key<R: Renderer, C: Command<R>>(
    snapshot: &SettingsSnapshot,
    _cursor: &Path,
    key: &KeyChord,
    cmds: &CommandRegistry<C>,
    bindings: &ScopeRegistry,
    renderers: &RendererRegistry<R>,
) -> (r: Vec<Write>)
    ensures
        writes_view(r@) == dispatched(snapshot@, *key, cmds@, bindings@.entries, renderers@),
{
    let none: Vec<Write> = Vec::new();
    proof {
        assert(writes_view(none@) =~= Seq::<WriteView>::empty());
    }
    match resolve_key(snapshot, key, bindings) {
        None => none,
        Some(id) => match cmds.lookup(id) {
            None => none,
            Some(command) => {
                let ctx = CommandCtx { registry: renderers, last_keystroke: Some(*key) };
                command.run(snapshot, &ctx)
            },
        },
    }
}

pub(crate) proof fn lemma_captured(
    entries: Seq<BindingView>,
    chain: Seq<Seq<Seq<char>>>,
    key: KeyChord,
    n: int,
    i: int,
)
    requires
        0 <= i < n <= chain.len(),
        scoped_command(entries, chain[i], key, Phase::Capture) is Some,
    ensures
        captured(entries, chain, key, n) is Some,
    decreases n,
{
    if i < n - 1 {
        lemma_captured(entries, chain, key, n - 1, i);
    }
}

/// Capturing beats everything: where any scope on the way in captures the key,
/// nothing is bound to it but what is captured, whatever the focus or the way
/// out would have it do.
pub proof fn capture_beats_target_and_bubble(
    entries: Seq<BindingView>,
    chain: Seq<Seq<Seq<char>>>,
    key: KeyChord,
    i: int,
)
    requires
        0 <= i < chain.len(),
        scoped_command(entries, chain[i], key, Phase::Capture) is Some,
    ensures
        resolved(entries, chain, key) is Some,
        resolved(entries, chain, key) == captured(entries, chain, key, chain.len() as int),
{
    lemma_captured(entries, chain, key, chain.len() as int, i);
}

/// The outermost capture wins.
pub proof fn outermost_capture_wins(
    entries: Seq<BindingView>,
    chain: Seq<Seq<Seq<char>>>,
    key: KeyChord,
    i: int,
)
    requires
        0 <= i < chain.len(),
        scoped_command(entries, chain[i], key, Phase::Capture) is Some,
        forall|j: int|
            0 <= j < i ==> scoped_command(entries, #[trigger] chain[j], key, Phase::Capture)
                is None,
    ensures
        resolved(entries, chain, key) == scoped_command(entries, chain[i], key, Phase::Capture),
{
    lemma_nothing_captured(entries, chain, key, i);
    lemma_captured_stays(entries, chain, key, i + 1);
}

proof fn lemma_nothing_captured(
    entries: Seq<BindingView>,
    chain: Seq<Seq<Seq<char>>>,
    key: KeyChord,
    n: int,
)
    requires
        0 <= n <= chain.len(),
        forall|j: int|
            0 <= j < n ==> scoped_command(entries, #[trigger] chain[j], key, Phase::Capture)
                is None,
    ensures
        captured(entries, chain, key, n) is None,
    decreases n,
{
    if n > 0 {
        lemma_nothing_captured(entries, chain, key, n - 1);
        assert(scoped_command(entries, chain[n - 1], key, Phase::Capture) is None);
    }
}

/// What is not captured goes to the focus before anything on the way out.
pub proof fn target_beats_bubble(
    entries: Seq<BindingView>,
    chain: Seq<Seq<Seq<char>>>,
    key: KeyChord,
)
    requires
        chain.len() > 0,
        forall|j: int|
            0 <= j < chain.len() ==> scoped_command(
                entries,
                #[trigger] chain[j],
                key,
                Phase::Capture,
            ) is None,
        scoped_command(entries, chain.last(), key, Phase::Target) is Some,
    ensures
        resolved(entries, chain, key) == scoped_command(
            entries,
            chain.last(),
            key,
            Phase::Target,
        ),
{
    lemma_nothing_captured(entries, chain, key, chain.len() as int);
}

/// On the way out the innermost scope that takes the key wins.
pub proof fn innermost_bubble_wins(
    entries: Seq<BindingView>,
    chain: Seq<Seq<Seq<char>>>,
    key: KeyChord,
    i: int,
)
    requires
        0 <= i < chain.len(),
        forall|j: int|
            0 <= j < chain.len() ==> scoped_command(
                entries,
                #[trigger] chain[j],
                key,
                Phase::Capture,
            ) is None,
        scoped_command(entries, chain.last(), key, Phase::Target) is None,
        scoped_command(entries, chain[i], key, Phase::Bubble) is Some,
        forall|j: int|
            i < j < chain.len() ==> scoped_command(
                entries,
                #[trigger] chain[j],
                key,
                Phase::Bubble,
            ) is None,
    ensures
        resolved(entries, chain, key) == scoped_command(entries, chain[i], key, Phase::Bubble),
{
    lemma_nothing_captured(entries, chain, key, chain.len() as int);
    lemma_bubbled_down_to(entries, chain, key, chain.len() as int, i);
}

proof fn lemma_bubbled_down_to(
    entries: Seq<BindingView>,
    chain: Seq<Seq<Seq<char>>>,
    key: KeyChord,
    n: int,
    i: int,
)
    requires
        0 <= i < n <= chain.len(),
        scoped_command(entries, chain[i], key, Phase::Bubble) is Some,
        forall|j: int|
            i < j < n ==> scoped_command(entries, #[trigger] chain[j], key, Phase::Bubble) is None,
    ensures
        bubbled(entries, chain, key, n) == scoped_command(entries, chain[i], key, Phase::Bubble),
    decreases n,
{
    if i < n - 1 {
        assert(scoped_command(entries, chain[n - 1], key, Phase::Bubble) is None);
        lemma_bubbled_down_to(entries, chain, key, n - 1, i);
    }
}

proof fn lemma_bubbled_comes_from(
    entries: Seq<BindingView>,
    chain: Seq<Seq<Seq<char>>>,
    key: KeyChord,
    n: int,
)
    requires
        0 <= n <= chain.len(),
        bubbled(entries, chain, key, n) is Some,
    ensures
        exists|i: int|
            0 <= i < n && scoped_command(entries, #[trigger] chain[i], key, Phase::Bubble)
                == bubbled(entries, chain, key, n),
    decreases n,
{
    if scoped_command(entries, chain[n - 1], key, Phase::Bubble) is None {
        lemma_bubbled_comes_from(entries, chain, key, n - 1);
    }
}

pub(crate) proof fn lemma_captured_comes_from(
    entries: Seq<BindingView>,
    chain: Seq<Seq<Seq<char>>>,
    key: KeyChord,
    n: int,
)
    requires
        0 <= n <= chain.len(),
        captured(entries, chain, key, n) is Some,
    ensures
        exists|i: int|
            0 <= i < n && scoped_command(entries, #[trigger] chain[i], key, Phase::Capture)
                == captured(entries, chain, key, n),
    decreases n,
{
    if captured(entries, chain, key, n - 1) is Some {
        lemma_captured_comes_from(entries, chain, key, n - 1);
    } else {
        assert(scoped_command(entries, chain[n - 1], key, Phase::Capture) == captured(
            entries,
            chain,
            key,
            n,
        ));
    }
}

/// A binding fires only from the chain of scopes the focus is in: whatever a
/// key resolves to is the command of a binding for that key whose scope admits
/// one of the scopes of the chain.
pub proof fn only_scopes_on_the_chain_fire(
    entries: Seq<BindingView>,
    chain: Seq<Seq<Seq<char>>>,
    key: KeyChord,
)
    requires
        resolved(entries, chain, key) is Some,
    ensures
        exists|i: int, j: int|
            0 <= i < chain.len() && 0 <= j < entries.len() && (#[trigger] entries[j]).scope.admits(
                #[trigger] chain[i],
            ) && entries[j].key == key && Some(entries[j].command) == resolved(
                entries,
                chain,
                key,
            ),
{
    let n = chain.len() as int;
    let (i, phase) = if captured(entries, chain, key, n) is Some {
        lemma_captured_comes_from(entries, chain, key, n);
        (
            choose|i: int|
                0 <= i < n && scoped_command(entries, #[trigger] chain[i], key, Phase::Capture)
                    == captured(entries, chain, key, n),
            Phase::Capture,
        )
    } else if targeted(entries, chain, key) is Some {
        (n - 1, Phase::Target)
    } else {
        lemma_bubbled_comes_from(entries, chain, key, n);
        (
            choose|i: int|
                0 <= i < n && scoped_command(entries, #[trigger] chain[i], key, Phase::Bubble)
                    == bubbled(entries, chain, key, n),
            Phase::Bubble,
        )
    };
    bound_is_first(entries, chain[i], key, phase);
    let j = first_bound(entries, chain[i], key, phase)->0;
    assert(entries[j].scope.admits(chain[i]));
}

/// The scopes of a chain are the leading parts of the cursor, each one component
/// longer than the one before, and the cursor itself is the innermost.
pub proof fn chain_is_cursor_ancestry(s: SnapshotView, cursor: Seq<Seq<char>>)
    requires
        path_at(s, focus_place()) == Some(cursor),
    ensures
        scope_chain(s).len() == cursor.len(),
        cursor.len() > 0 ==> scope_chain(s).last() == cursor,
        forall|i: int|
            0 <= i < scope_chain(s).len() ==> leads(#[trigger] scope_chain(s)[i], cursor)
                && scope_chain(s)[i].len() == i + 1,
{
    assert forall|i: int| 0 <= i < scope_chain(s).len() implies leads(
        #[trigger] scope_chain(s)[i],
        cursor,
    ) && scope_chain(s)[i].len() == i + 1 by {
        assert(scope_chain(s)[i] == cursor.subrange(0, i + 1));
    }
    if cursor.len() > 0 {
        assert(cursor.subrange(0, cursor.len() as int) =~= cursor);
    }
}

/// At most one widget takes keys at a time: the chain never holds two scopes
/// side by side below the same root.
pub proof fn one_widget_at_a_time(s: SnapshotView, i: int, j: int)
    requires
        0 <= i < scope_chain(s).len(),
        0 <= j < scope_chain(s).len(),
        scope_chain(s)[i].len() == scope_chain(s)[j].len(),
    ensures
        scope_chain(s)[i] == scope_chain(s)[j],
{
    assert(scope_chain(s)[i] == engaged(s).subrange(0, i + 1));
    assert(scope_chain(s)[j] == engaged(s).subrange(0, j + 1));
}

/// Keys go to where the focus is; where nothing has the focus, to the field of
/// the draft that is open, and without one to the screen as a whole.
pub proof fn keys_go_to_the_focus(s: SnapshotView)
    ensures
        ({
            let focus = path_at(s, seq!["ui"@, "settings"@, "focused"@]);
            let open = s.at(seq!["ui"@, "settings"@, "new_account"@, "active"@]) == Some(
                ValueView::Bool(true),
            );
            let field = s.at(seq!["ui"@, "settings"@, "new_account"@, "focused_field"@]);
            &&& focus is Some ==> engaged(s) == focus->0
            &&& focus is None && open && field == Some(ValueView::String("key"@)) ==> engaged(s)
                == seq!["settings"@, "_compose_form"@, "key"@]
            &&& focus is None && open && field == Some(ValueView::String("endpoint"@)) ==> engaged(
                s,
            ) == seq!["settings"@, "_compose_form"@, "endpoint"@]
            &&& focus is None && open && field is None ==> engaged(s) == seq![
                "settings"@,
                "_compose_form"@,
                "name"@,
            ]
            &&& focus is None && !open ==> engaged(s) == seq!["settings"@]
        }),
{
    field_text_names_field(AccountField::Key);
    field_text_names_field(AccountField::Endpoint);
    assert(compose_scope().push("key"@) =~= seq!["settings"@, "_compose_form"@, "key"@]);
    assert(compose_scope().push("endpoint"@) =~= seq!["settings"@, "_compose_form"@, "endpoint"@]);
    assert(compose_scope().push("name"@) =~= seq!["settings"@, "_compose_form"@, "name"@]);
}

/// A key that no binding along the way is for does nothing; one that is bound
/// does what its command does, with the key at hand, and nothing where the
/// command does not exist.
pub proof fn bound_keys_run_their_command<R: Renderer, C: Command<R>>(
    s: SnapshotView,
    key: KeyChord,
    commands: Seq<(Seq<char>, C)>,
    entries: Seq<BindingView>,
    pages: Seq<(Seq<Seq<char>>, R)>,
    i: int,
)
    ensures
        (forall|k: int| 0 <= k < entries.len() ==> (#[trigger] entries[k]).key != key)
            ==> dispatched(s, key, commands, entries, pages).len() == 0,
        0 <= i < commands.len() && resolved(entries, scope_chain(s), key) == Some(commands[i].0)
            && (forall|k: int| i < k < commands.len() ==> (#[trigger] commands[k]).0
            != commands[i].0) ==> dispatched(s, key, commands, entries, pages)
            == commands[i].1.writes(s, CtxView { pages, last_keystroke: Some(key) }),
        (forall|k: int|
            0 <= k < commands.len() ==> Some((#[trigger] commands[k]).0) != resolved(
                entries,
                scope_chain(s),
                key,
            )) ==> dispatched(s, key, commands, entries, pages).len() == 0,
{
    match resolved(entries, scope_chain(s), key) {
        Some(id) => {
            only_scopes_on_the_chain_fire(entries, scope_chain(s), key);
            crate::assoc::lookup_finds_pair(commands, id);
            if 0 <= i < commands.len() && id == commands[i].0 && (forall|k: int|
                i < k < commands.len() ==> (#[trigger] commands[k]).0 != commands[i].0) {
                crate::assoc::assigned_at(commands, id, commands[i].1, i);
            }
        },
        None => {},
    }
}

} // verus!
