//! Commands by id. A command is a function from what it sees of the store to
//! the writes it asks for.

use crate::assoc::{
    assigned, assigned_absent, assigned_at, lookup, lookup_after_assigned, lookup_finds_pair,
};
use crate::keys::{opt_path, CommandDisplay, CommandId, CommandScope, DisplayView, KeyChord, Screen};
use crate::registry::{Renderer, RendererRegistry};
use crate::snapshot::{SettingsSnapshot, SnapshotView};
use crate::value::{writes_view, Write, WriteView};
use vstd::prelude::*;

verus! {

/// What a command may need besides the store: the pages, and the keystroke
/// that invoked it.
pub struct CommandCtx<'a, R> {
    pub registry: &'a RendererRegistry<R>,
    pub last_keystroke: Option<KeyChord>,
}

/// What a `CommandCtx` holds.
pub struct CtxView<R> {
    pub pages: Seq<(Seq<Seq<char>>, R)>,
    pub last_keystroke: Option<KeyChord>,
}

impl<'a, R> View for CommandCtx<'a, R> {
    type V = CtxView<R>;

    open spec fn view(&self) -> CtxView<R> {
        CtxView { pages: self.registry@, last_keystroke: self.last_keystroke }
    }
}

/// A command.
pub trait Command<R: Renderer> {
    /// What bindings call the command.
    open spec fn name(&self) -> Seq<char> {
        Seq::empty()
    }

    /// What the command is called on screen.
    open spec fn shown_as(&self) -> DisplayView {
        DisplayView { name: Seq::empty(), description: Seq::empty() }
    }

    /// The screen and page the command belongs to.
    open spec fn belongs(&self) -> (Screen, Option<Seq<Seq<char>>>) {
        (Screen::Settings, None)
    }

    /// The writes the command asks for.
    open spec fn writes(&self, data: SnapshotView, ctx: CtxView<R>) -> Seq<WriteView> {
        Seq::empty()
    }

    /// What bindings call the command.
    fn id(&self) -> (r: &CommandId)
        ensures
            r@ == self.name(),
    ;

    /// What the command is called on screen.
    fn display(&self) -> (r: &CommandDisplay)
        ensures
            r@ == self.shown_as(),
    ;

    /// Where the command belongs.
    fn scope(&self) -> (r: &CommandScope)
        ensures
            (r.screen, opt_path(r.cursor_path)) == self.belongs(),
    ;

    /// The writes the command asks for.
    fn run(&self, snapshot: &SettingsSnapshot, ctx: &CommandCtx<'_, R>) -> (r: Vec<Write>)
        ensures
            writes_view(r@) == self.writes(snapshot@, ctx@),
    ;
}

/// The commands by id.
pub struct CommandRegistry<C> {
    by_id: Vec<(CommandId, C)>,
}

/// The id and command of each entry.
pub open spec fn commands_view<C>(v: Seq<(CommandId, C)>) -> Seq<(Seq<char>, C)> {
    Seq::new(v.len(), |i: int| (v[i].0@, v[i].1))
}

impl<C> View for CommandRegistry<C> {
    type V = Seq<(Seq<char>, C)>;

    closed spec fn view(&self) -> Seq<(Seq<char>, C)> {
        commands_view(self.by_id@)
    }
}

impl<C> CommandRegistry<C> {
    /// A registry without commands.
    pub fn new() -> (r: CommandRegistry<C>)
        ensures
            r@ == Seq::<(Seq<char>, C)>::empty(),
    {
        let r = CommandRegistry { by_id: Vec::new() };
        proof {
            assert(r@ =~= Seq::<(Seq<char>, C)>::empty());
        }
        r
    }

    /// The last entry for `id`.
    fn position(&self, id: &CommandId) -> (r: Option<usize>)
        ensures
            match r {
                Some(i) => i < self.by_id@.len() && self.by_id@[i as int].0@ == id@ && forall|
                    k: int,
                |
                    i < k < self.by_id@.len() ==> (#[trigger] self.by_id@[k]).0@ != id@,
                None => forall|k: int|
                    0 <= k < self.by_id@.len() ==> (#[trigger] self.by_id@[k]).0@ != id@,
            },
    {
        let mut i: usize = self.by_id.len();
        while i > 0
            invariant
                i <= self.by_id@.len(),
                forall|k: int|
                    i <= k < self.by_id@.len() ==> (#[trigger] self.by_id@[k]).0@ != id@,
            decreases i,
        {
            if self.by_id[i - 1].0.same_as(id) {
                return Some(i - 1);
            }
            i -= 1;
        }
        None
    }

    /// Registers a command under its id, in place of the one that had it.
    pub fn register<R: Renderer>(&mut self, command: C) where C: Command<R>
        ensures
            final(self)@ == assigned(old(self)@, command.name(), command),
            lookup(final(self)@, command.name()) == Some(command),
            forall|n: Seq<char>|
                n != command.name() ==> #[trigger] lookup(final(self)@, n) == lookup(
                    old(self)@,
                    n,
                ),
    {
        let ghost before = self@;
        let id: CommandId = command.id().copied();
        let ghost name = command.name();
        match self.position(&id) {
            Some(i) => {
                self.by_id.set(i, (id, command));
                proof {
                    assert forall|k: int| i < k < before.len() implies (#[trigger] before[k]).0
                        != name by {
                        assert(old(self).by_id@[k].0@ != name);
                    }
                    assigned_at(before, name, command, i as int);
                    assert(self@ =~= before.update(i as int, (name, command)));
                }
            },
            None => {
                self.by_id.insert(0, (id, command));
                proof {
                    assert forall|k: int| 0 <= k < before.len() implies (#[trigger] before[k]).0
                        != name by {
                        assert(old(self).by_id@[k].0@ != name);
                    }
                    assigned_absent(before, name, command);
                    assert(self@ =~= seq![(name, command)] + before);
                }
            },
        }
        proof {
            lookup_after_assigned(before, name, command, name);
            assert forall|n: Seq<char>| n != name implies #[trigger] lookup(self@, n) == lookup(
                before,
                n,
            ) by {
                lookup_after_assigned(before, name, command, n);
            }
        }
    }

    /// The command with that id.
    pub fn lookup(&self, id: &CommandId) -> (r: Option<&C>)
        ensures
            r is Some <==> lookup(self@, id@) is Some,
            r is Some ==> *r->0 == lookup(self@, id@)->0,
    {
        match self.position(id) {
            Some(i) => {
                proof {
                    assert forall|k: int| i < k < self@.len() implies (#[trigger] self@[k]).0
                        != id@ by {
                        assert(self.by_id@[k].0@ != id@);
                    }
                    assigned_at(self@, id@, self.by_id@[i as int].1, i as int);
                }
                Some(&self.by_id[i].1)
            },
            None => {
                proof {
                    assert forall|k: int| 0 <= k < self@.len() implies (#[trigger] self@[k]).0
                        != id@ by {
                        assert(self.by_id@[k].0@ != id@);
                    }
                    lookup_finds_pair(self@, id@);
                }
                None
            },
        }
    }

    /// The registered commands with their ids.
    pub fn iter(&self) -> (r: &Vec<(CommandId, C)>)
        ensures
            commands_view(r@) == self@,
    {
        &self.by_id
    }
}

impl<C> Default for CommandRegistry<C> {
    fn default() -> (r: CommandRegistry<C>)
        ensures
            r@ == Seq::<(Seq<char>, C)>::empty(),
    {
        CommandRegistry::new()
    }
}

} // verus!
