//! Bindings by scope, key and phase. The narrowest scope wins, and within a
//! kind of scope the binding registered first.

use crate::commands::edit::TextInputHandler;
use crate::keys::{
    bindings_view, BindingScope, BindingView, CommandId, KeyChord, Phase, ScopeView, ScopedBinding,
};
use crate::ordered::{by_class, placed, placed_all, slot};
use crate::path::Path;
use vstd::prelude::*;

verus! {

/// How wide a binding's scope is.
pub open spec fn binding_class() -> spec_fn(BindingView) -> nat {
    |b: BindingView| b.scope.class()
}

impl BindingView {
    /// Whether the binding applies.
    pub open spec fn applies(self, cursor: Seq<Seq<char>>, key: KeyChord, phase: Phase) -> bool {
        self.scope.admits(cursor) && self.key == key && self.phase == phase
    }
}

/// The first binding that applies.
pub open spec fn first_bound(
    entries: Seq<BindingView>,
    cursor: Seq<Seq<char>>,
    key: KeyChord,
    phase: Phase,
) -> Option<int>
    decreases entries.len(),
{
    if entries.len() == 0 {
        None
    } else {
        match first_bound(entries.drop_last(), cursor, key, phase) {
            Some(i) => Some(i),
            None => if entries.last().applies(cursor, key, phase) {
                Some(entries.len() - 1)
            } else {
                None
            },
        }
    }
}

/// `first_bound` finds a binding that applies, the first one, whenever there is
/// one.
pub proof fn bound_is_first(
    entries: Seq<BindingView>,
    cursor: Seq<Seq<char>>,
    key: KeyChord,
    phase: Phase,
)
    ensures
        match first_bound(entries, cursor, key, phase) {
            Some(i) => 0 <= i < entries.len() && entries[i].applies(cursor, key, phase) && forall|
                j: int,
            |
                0 <= j < i ==> !(#[trigger] entries[j]).applies(cursor, key, phase),
            None => forall|j: int|
                0 <= j < entries.len() ==> !(#[trigger] entries[j]).applies(cursor, key, phase),
        },
    decreases entries.len(),
{
    if entries.len() > 0 {
        let t = entries.drop_last();
        bound_is_first(t, cursor, key, phase);
        match first_bound(entries, cursor, key, phase) {
            Some(i) => {
                assert forall|j: int| 0 <= j < i implies !(#[trigger] entries[j]).applies(
                    cursor,
                    key,
                    phase,
                ) by {
                    assert(t[j] == entries[j]);
                }
            },
            None => {
                assert forall|j: int| 0 <= j < entries.len() implies !(
                #[trigger] entries[j]).applies(cursor, key, phase) by {
                    if j < t.len() {
                        assert(t[j] == entries[j]);
                    }
                }
            },
        }
    }
}

/// The command bound, if any.
pub open spec fn scoped_command(
    entries: Seq<BindingView>,
    cursor: Seq<Seq<char>>,
    key: KeyChord,
    phase: Phase,
) -> Option<Seq<char>> {
    match first_bound(entries, cursor, key, phase) {
        Some(i) => Some(entries[i].command),
        None => None,
    }
}

/// A handler at its scope, for one phase.
#[derive(Clone, Debug, PartialEq, Eq)]
pub struct HandlerEntry {
    pub scope: BindingScope,
    pub phase: Phase,
    pub handler: TextInputHandler,
}

/// What a `HandlerEntry` holds.
pub struct HandlerView {
    pub scope: ScopeView,
    pub phase: Phase,
    pub buffer: Seq<Seq<char>>,
    pub target: Seq<Seq<char>>,
}

impl View for HandlerEntry {
    type V = HandlerView;

    open spec fn view(&self) -> HandlerView {
        HandlerView {
            scope: self.scope@,
            phase: self.phase,
            buffer: self.handler.buffer_path@,
            target: self.handler.target_path@,
        }
    }
}

/// What each handler of a list holds.
pub open spec fn handlers_view(v: Seq<HandlerEntry>) -> Seq<HandlerView> {
    Seq::new(v.len(), |i: int| v[i]@)
}

/// The first handler whose scope admits the cursor in the phase.
pub open spec fn first_handler(
    handlers: Seq<HandlerView>,
    cursor: Seq<Seq<char>>,
    phase: Phase,
) -> Option<int>
    decreases handlers.len(),
{
    if handlers.len() == 0 {
        None
    } else {
        match first_handler(handlers.drop_last(), cursor, phase) {
            Some(i) => Some(i),
            None => if handlers.last().scope.admits(cursor) && handlers.last().phase == phase {
                Some(handlers.len() - 1)
            } else {
                None
            },
        }
    }
}

proof fn lemma_first_handler(
    handlers: Seq<HandlerView>,
    cursor: Seq<Seq<char>>,
    phase: Phase,
    n: int,
)
    requires
        0 <= n <= handlers.len(),
        forall|j: int|
            0 <= j < n ==> !((#[trigger] handlers[j]).scope.admits(cursor) && handlers[j].phase
                == phase),
        n < handlers.len() ==> handlers[n].scope.admits(cursor) && handlers[n].phase == phase,
    ensures
        first_handler(handlers, cursor, phase) == if n < handlers.len() {
            Some(n)
        } else {
            None
        },
    decreases handlers.len(),
{
    if handlers.len() > 0 {
        let t = handlers.drop_last();
        let m = if n < t.len() {
            n
        } else {
            t.len() as int
        };
        assert forall|j: int| 0 <= j < m implies !((#[trigger] t[j]).scope.admits(cursor)
            && t[j].phase == phase) by {
            assert(t[j] == handlers[j]);
        }
        if n < t.len() {
            assert(t[n] == handlers[n]);
        }
        lemma_first_handler(t, cursor, phase, m);
        if n == handlers.len() {
            assert(!(handlers[n - 1].scope.admits(cursor) && handlers[n - 1].phase == phase));
        }
    }
}

/// The bindings in the order they are resolved in, and the handlers.
pub struct ScopeRegistry {
    entries: Vec<ScopedBinding>,
    handlers: Vec<HandlerEntry>,
}

/// What a `ScopeRegistry` holds.
pub struct ScopesView {
    pub entries: Seq<BindingView>,
    pub handlers: Seq<HandlerView>,
}

impl View for ScopeRegistry {
    type V = ScopesView;

    closed spec fn view(&self) -> ScopesView {
        ScopesView {
            entries: bindings_view(self.entries@),
            handlers: handlers_view(self.handlers@),
        }
    }
}

impl ScopeRegistry {
    /// A registry without bindings and handlers.
    pub fn new() -> (r: ScopeRegistry)
        ensures
            r@.entries == Seq::<BindingView>::empty(),
            r@.handlers == Seq::<HandlerView>::empty(),
            by_class(r@.entries, binding_class()),
    {
        let r = ScopeRegistry { entries: Vec::new(), handlers: Vec::new() };
        proof {
            assert(r@.entries =~= Seq::<BindingView>::empty());
            assert(r@.handlers =~= Seq::<HandlerView>::empty());
        }
        r
    }

    /// Registers a binding, behind those of its kind of scope or a narrower
    /// one.
    pub fn register(&mut self, entry: ScopedBinding)
        ensures
            final(self)@.entries == placed(old(self)@.entries, binding_class(), entry@),
            final(self)@.handlers == old(self)@.handlers,
    {
        let ghost before = self@.entries;
        let ghost class = binding_class();
        let ghost new = entry@;
        let c: u8 = entry.scope.specificity_class();
        let mut k: usize = self.entries.len();
        proof {
            assert(before.subrange(0, k as int) =~= before);
        }
        while k > 0 && self.entries[k - 1].scope.specificity_class() > c
            invariant
                k <= self.entries@.len(),
                self@.entries == before,
                class == binding_class(),
                slot(before.subrange(0, k as int), class, c as nat) == slot(
                    before,
                    class,
                    c as nat,
                ),
            decreases k,
        {
            proof {
                let t = before.subrange(0, k as int);
                assert(t.last() == self.entries@[k - 1]@);
                assert(t.drop_last() =~= before.subrange(0, k - 1));
            }
            k -= 1;
        }
        proof {
            let t = before.subrange(0, k as int);
            if k > 0 {
                assert(t.last() == self.entries@[k - 1]@);
            }
            assert(slot(before, class, c as nat) == k);
        }
        self.entries.insert(k, entry);
        proof {
            assert(self@.entries =~= before.insert(k as int, new));
        }
    }

    /// Registers bindings, one after the other.
    pub fn register_each(&mut self, table: &Vec<ScopedBinding>)
        ensures
            final(self)@.entries == placed_all(
                old(self)@.entries,
                binding_class(),
                bindings_view(table@),
            ),
            final(self)@.handlers == old(self)@.handlers,
    {
        let ghost before = self@.entries;
        let ghost all = bindings_view(table@);
        let mut i: usize = 0;
        proof {
            assert(all.subrange(0, 0) =~= Seq::<BindingView>::empty());
        }
        while i < table.len()
            invariant
                i <= table@.len(),
                all == bindings_view(table@),
                self@.entries == placed_all(before, binding_class(), all.subrange(0, i as int)),
                self@.handlers == old(self)@.handlers,
            decreases table@.len() - i,
        {
            proof {
                let t = all.subrange(0, i + 1);
                assert(t.drop_last() =~= all.subrange(0, i as int));
                assert(t.last() == table@[i as int]@);
            }
            self.register(table[i].copied());
            i += 1;
        }
        proof {
            assert(all.subrange(0, i as int) =~= all);
        }
    }

    /// Registers a handler, behind the others.
    pub fn register_handler(&mut self, handler: HandlerEntry)
        ensures
            final(self)@.handlers == old(self)@.handlers.push(handler@),
            final(self)@.entries == old(self)@.entries,
    {
        let ghost before = self@.handlers;
        let ghost new = handler@;
        self.handlers.push(handler);
        proof {
            assert(self@.handlers =~= before.push(new));
        }
    }

    /// The bindings in the order they are resolved in.
    pub fn entries(&self) -> (r: &Vec<ScopedBinding>)
        ensures
            bindings_view(r@) == self@.entries,
    {
        &self.entries
    }

    /// The handlers in the order they were registered in.
    pub fn handlers(&self) -> (r: &Vec<HandlerEntry>)
        ensures
            handlers_view(r@) == self@.handlers,
    {
        &self.handlers
    }

    /// The command bound to a key at a cursor, in a phase.
    pub fn lookup(&self, cursor: &Path, key: &KeyChord, phase: Phase) -> (r: Option<&CommandId>)
        ensures
            r is Some <==> scoped_command(self@.entries, cursor@, *key, phase) is Some,
            r is Some ==> (*r->0)@ == scoped_command(self@.entries, cursor@, *key, phase)->0,
    {
        let ghost all = self@.entries;
        proof {
            bound_is_first(all, cursor@, *key, phase);
        }
        let mut i: usize = 0;
        while i < self.entries.len()
            invariant
                i <= self.entries@.len(),
                all == self@.entries,
                forall|j: int| 0 <= j < i ==> !(#[trigger] all[j]).applies(cursor@, *key, phase),
                match first_bound(all, cursor@, *key, phase) {
                    Some(i) => 0 <= i < all.len() && all[i].applies(cursor@, *key, phase)
                        && forall|j: int|
                        0 <= j < i ==> !(#[trigger] all[j]).applies(cursor@, *key, phase),
                    None => forall|j: int|
                        0 <= j < all.len() ==> !(#[trigger] all[j]).applies(cursor@, *key, phase),
                },
            decreases self.entries@.len() - i,
        {
            let e: &ScopedBinding = &self.entries[i];
            proof {
                assert(all[i as int] == e@);
            }
            if e.scope.matches(cursor) && e.key == *key && e.phase == phase {
                proof {
                    assert(all[i as int].applies(cursor@, *key, phase));
                }
                return Some(&e.command_id);
            }
            i += 1;
        }
        None
    }

    /// The handler at a cursor, in a phase. Whether it claims a key is its own
    /// affair.
    pub fn lookup_handler(&self, cursor: &Path, phase: Phase) -> (r: Option<&HandlerEntry>)
        ensures
            r is Some <==> first_handler(self@.handlers, cursor@, phase) is Some,
            r is Some ==> (*r->0)@ == self@.handlers[first_handler(
                self@.handlers,
                cursor@,
                phase,
            )->0],
    {
        let ghost all = self@.handlers;
        let mut i: usize = 0;
        while i < self.handlers.len()
            invariant
                i <= self.handlers@.len(),
                all == self@.handlers,
                forall|j: int|
                    0 <= j < i ==> !((#[trigger] all[j]).scope.admits(cursor@) && all[j].phase
                        == phase),
            decreases self.handlers@.len() - i,
        {
            let h: &HandlerEntry = &self.handlers[i];
            proof {
                assert(all[i as int] == h@);
            }
            if h.scope.matches(cursor) && h.phase == phase {
                proof {
                    lemma_first_handler(all, cursor@, phase, i as int);
                }
                return Some(h);
            }
            i += 1;
        }
        proof {
            lemma_first_handler(all, cursor@, phase, all.len() as int);
        }
        None
    }
}

impl Default for ScopeRegistry {
    fn default() -> (r: ScopeRegistry)
        ensures
            r@.entries == Seq::<BindingView>::empty(),
            r@.handlers == Seq::<HandlerView>::empty(),
    {
        ScopeRegistry::new()
    }
}

/// The binding that wins has at least as narrow a scope as any other that
/// applies: an exact one before a subtree, a subtree before the whole screen.
/// Within a kind of scope it was registered first.
pub proof fn narrowest_scope_wins(
    entries: Seq<BindingView>,
    cursor: Seq<Seq<char>>,
    key: KeyChord,
    phase: Phase,
    j: int,
)
    requires
        by_class(entries, binding_class()),
        0 <= j < entries.len(),
        entries[j].applies(cursor, key, phase),
    ensures
        ({
            let win = first_bound(entries, cursor, key, phase);
            &&& win is Some
            &&& entries[win->0].scope.class() <= entries[j].scope.class()
            &&& entries[win->0].scope.class() == entries[j].scope.class() ==> win->0 <= j
            &&& entries[j].scope is Exact ==> entries[win->0].scope is Exact
            &&& entries[j].scope is Prefix ==> !(entries[win->0].scope is Anywhere)
        }),
{
    bound_is_first(entries, cursor, key, phase);
    let win = first_bound(entries, cursor, key, phase);
    if win is Some && win->0 < j {
        assert(binding_class()(entries[win->0]) <= binding_class()(entries[j]));
    }
}

/// Every registered binding can be reached: at a cursor its scope admits, its
/// key in its phase is bound, if not to its own command then to that of a
/// binding that shadows it.
pub proof fn registered_bindings_are_reachable(
    entries: Seq<BindingView>,
    j: int,
    cursor: Seq<Seq<char>>,
)
    requires
        0 <= j < entries.len(),
        entries[j].scope.admits(cursor),
    ensures
        scoped_command(entries, cursor, entries[j].key, entries[j].phase) is Some,
{
    bound_is_first(entries, cursor, entries[j].key, entries[j].phase);
}

/// The handler found at a cursor in a phase is the first whose scope admits the
/// cursor in that phase, and one is found whenever there is any.
pub proof fn first_fitting_handler_is_found(
    handlers: Seq<HandlerView>,
    cursor: Seq<Seq<char>>,
    phase: Phase,
    n: int,
)
    requires
        0 <= n <= handlers.len(),
        forall|j: int|
            0 <= j < n ==> !((#[trigger] handlers[j]).scope.admits(cursor) && handlers[j].phase
                == phase),
        n < handlers.len() ==> handlers[n].scope.admits(cursor) && handlers[n].phase == phase,
    ensures
        n < handlers.len() ==> first_handler(handlers, cursor, phase) == Some(n),
        n == handlers.len() ==> first_handler(handlers, cursor, phase) is None,
{
    lemma_first_handler(handlers, cursor, phase, n);
}

} // verus!
