//! Bindings by screen, cursor, mode and key. The most specific one wins, and
//! among equally specific ones the one registered first.

use crate::keys::{opt_path, CommandId, KeyChord, Mode, Screen};
use crate::ordered::{by_class, of_class, placed, placed_last_of_class, placing_keeps_classes, slot};
use crate::path::Path;
use vstd::prelude::*;

verus! {

/// A key bound to a command on a screen, perhaps only at one cursor or in one
/// mode.
#[derive(Clone, Debug, PartialEq, Eq)]
pub struct BindingEntry {
    pub screen: Screen,
    pub cursor_path: Option<Path>,
    pub mode: Option<Mode>,
    pub key: KeyChord,
    pub command_id: CommandId,
}

/// What a `BindingEntry` holds.
pub struct EntryView {
    pub screen: Screen,
    pub cursor: Option<Seq<Seq<char>>>,
    pub mode: Option<Mode>,
    pub key: KeyChord,
    pub command: Seq<char>,
}

impl View for BindingEntry {
    type V = EntryView;

    open spec fn view(&self) -> EntryView {
        EntryView {
            screen: self.screen,
            cursor: opt_path(self.cursor_path),
            mode: self.mode,
            key: self.key,
            command: self.command_id@,
        }
    }
}

impl EntryView {
    /// How specific the binding is: a cursor counts more than a mode, and
    /// lower is more specific.
    pub open spec fn class(self) -> nat {
        match (self.cursor, self.mode) {
            (Some(_), Some(_)) => 0,
            (Some(_), None) => 1,
            (None, Some(_)) => 2,
            (None, None) => 3,
        }
    }

    /// Whether the binding applies.
    pub open spec fn applies(
        self,
        screen: Screen,
        cursor: Seq<Seq<char>>,
        mode: Option<Mode>,
        key: KeyChord,
    ) -> bool {
        &&& self.screen == screen
        &&& self.key == key
        &&& self.cursor is Some ==> self.cursor == Some(cursor)
        &&& self.mode is Some ==> self.mode == mode
    }
}

/// What each entry of a list holds.
pub open spec fn binding_entries_view(v: Seq<BindingEntry>) -> Seq<EntryView> {
    Seq::new(v.len(), |i: int| v[i]@)
}

/// How specific a binding is.
pub open spec fn entry_class() -> spec_fn(EntryView) -> nat {
    |e: EntryView| e.class()
}

/// The first entry that applies.
pub open spec fn first_applying(
    entries: Seq<EntryView>,
    screen: Screen,
    cursor: Seq<Seq<char>>,
    mode: Option<Mode>,
    key: KeyChord,
) -> Option<int>
    decreases entries.len(),
{
    if entries.len() == 0 {
        None
    } else {
        match first_applying(entries.drop_last(), screen, cursor, mode, key) {
            Some(i) => Some(i),
            None => if entries.last().applies(screen, cursor, mode, key) {
                Some(entries.len() - 1)
            } else {
                None
            },
        }
    }
}

/// `first_applying` finds an entry that applies, the first one, whenever there
/// is one.
pub proof fn applying_is_first(
    entries: Seq<EntryView>,
    screen: Screen,
    cursor: Seq<Seq<char>>,
    mode: Option<Mode>,
    key: KeyChord,
)
    ensures
        match first_applying(entries, screen, cursor, mode, key) {
            Some(i) => 0 <= i < entries.len() && entries[i].applies(screen, cursor, mode, key)
                && forall|j: int|
                0 <= j < i ==> !(#[trigger] entries[j]).applies(screen, cursor, mode, key),
            None => forall|j: int|
                0 <= j < entries.len() ==> !(#[trigger] entries[j]).applies(
                    screen,
                    cursor,
                    mode,
                    key,
                ),
        },
    decreases entries.len(),
{
    if entries.len() > 0 {
        let t = entries.drop_last();
        applying_is_first(t, screen, cursor, mode, key);
        match first_applying(entries, screen, cursor, mode, key) {
            Some(i) => {
                assert forall|j: int| 0 <= j < i implies !(#[trigger] entries[j]).applies(
                    screen,
                    cursor,
                    mode,
                    key,
                ) by {
                    assert(t[j] == entries[j]);
                }
            },
            None => {
                assert forall|j: int| 0 <= j < entries.len() implies !(
                #[trigger] entries[j]).applies(screen, cursor, mode, key) by {
                    if j < t.len() {
                        assert(t[j] == entries[j]);
                    }
                }
            },
        }
    }
}

/// The command bound, if any.
pub open spec fn bound_command(
    entries: Seq<EntryView>,
    screen: Screen,
    cursor: Seq<Seq<char>>,
    mode: Option<Mode>,
    key: KeyChord,
) -> Option<Seq<char>> {
    match first_applying(entries, screen, cursor, mode, key) {
        Some(i) => Some(entries[i].command),
        None => None,
    }
}

/// The bindings in the order they are resolved in.
pub struct BindingRegistry {
    entries: Vec<BindingEntry>,
}

impl View for BindingRegistry {
    type V = Seq<EntryView>;

    closed spec fn view(&self) -> Seq<EntryView> {
        binding_entries_view(self.entries@)
    }
}

/// How specific a binding is, lower being more specific.
pub fn specificity_class(e: &BindingEntry) -> (r: u8)
    ensures
        r == e@.class(),
{
    match (e.cursor_path.is_some(), e.mode.is_some()) {
        (true, true) => 0,
        (true, false) => 1,
        (false, true) => 2,
        (false, false) => 3,
    }
}

impl BindingRegistry {
    /// A registry without bindings.
    pub fn new() -> (r: BindingRegistry)
        ensures
            r@ == Seq::<EntryView>::empty(),
            by_class(r@, entry_class()),
    {
        let r = BindingRegistry { entries: Vec::new() };
        proof {
            assert(r@ =~= Seq::<EntryView>::empty());
        }
        r
    }

    /// Registers a binding, behind those as specific as it or more.
    pub fn register(&mut self, entry: BindingEntry)
        ensures
            final(self)@ == placed(old(self)@, entry_class(), entry@),
            by_class(old(self)@, entry_class()) ==> by_class(final(self)@, entry_class()),
    {
        let ghost before = self@;
        let ghost class = entry_class();
        let ghost new = entry@;
        let c: u8 = specificity_class(&entry);
        let mut k: usize = self.entries.len();
        proof {
            assert(before.subrange(0, k as int) =~= before);
        }
        while k > 0 && specificity_class(&self.entries[k - 1]) > c
            invariant
                k <= self.entries@.len(),
                self@ == before,
                class == entry_class(),
                slot(before.subrange(0, k as int), class, c as nat) == slot(
                    before,
                    class,
                    c as nat,
                ),
            decreases k,
        {
            proof {
                let t = before.subrange(0, k as int);
                assert(t.last() == self.entries@[k - 1]@);
                assert(t.drop_last() =~= before.subrange(0, k - 1));
            }
            k -= 1;
        }
        proof {
            let t = before.subrange(0, k as int);
            if k > 0 {
                assert(t.last() == self.entries@[k - 1]@);
            }
            assert(slot(before, class, c as nat) == k);
        }
        self.entries.insert(k, entry);
        proof {
            assert(self@ =~= before.insert(k as int, new));
            if by_class(before, class) {
                placing_keeps_classes(before, class, new);
            }
        }
    }

    /// The bindings in the order they are resolved in.
    pub fn entries(&self) -> (r: &Vec<BindingEntry>)
        ensures
            binding_entries_view(r@) == self@,
    {
        &self.entries
    }

    /// The command bound to a key on a screen, at a cursor, in a mode.
    pub fn lookup(
        &self,
        screen: Screen,
        cursor: &Path,
        mode: Option<Mode>,
        key: &KeyChord,
    ) -> (r: Option<&CommandId>)
        ensures
            r is Some <==> bound_command(self@, screen, cursor@, mode, *key) is Some,
            r is Some ==> (*r->0)@ == bound_command(self@, screen, cursor@, mode, *key)->0,
    {
        let ghost all = self@;
        proof {
            applying_is_first(all, screen, cursor@, mode, *key);
        }
        let mut i: usize = 0;
        while i < self.entries.len()
            invariant
                i <= self.entries@.len(),
                all == self@,
                forall|j: int|
                    0 <= j < i ==> !(#[trigger] all[j]).applies(screen, cursor@, mode, *key),
                match first_applying(all, screen, cursor@, mode, *key) {
                    Some(i) => 0 <= i < all.len() && all[i].applies(screen, cursor@, mode, *key)
                        && forall|j: int|
                        0 <= j < i ==> !(#[trigger] all[j]).applies(screen, cursor@, mode, *key),
                    None => forall|j: int|
                        0 <= j < all.len() ==> !(#[trigger] all[j]).applies(
                            screen,
                            cursor@,
                            mode,
                            *key,
                        ),
                },
            decreases self.entries@.len() - i,
        {
            let e: &BindingEntry = &self.entries[i];
            proof {
                assert(all[i as int] == e@);
            }
            let here: bool = match &e.cursor_path {
                Some(p) => p.same_as(cursor),
                None => true,
            };
            let now: bool = match e.mode {
                Some(m) => match mode {
                    Some(n) => m == n,
                    None => false,
                },
                None => true,
            };
            if e.screen == screen && e.key == *key && here && now {
                proof {
                    assert(all[i as int].applies(screen, cursor@, mode, *key));
                }
                return Some(&e.command_id);
            }
            i += 1;
        }
        None
    }
}

impl Default for BindingRegistry {
    fn default() -> (r: BindingRegistry)
        ensures
            r@ == Seq::<EntryView>::empty(),
    {
        BindingRegistry::new()
    }
}

/// The binding that wins is at least as specific as any other that applies: one
/// for a cursor before one without, and among these one for a mode before one
/// without. Among equally specific ones it was registered first.
pub proof fn most_specific_wins(
    entries: Seq<EntryView>,
    screen: Screen,
    cursor: Seq<Seq<char>>,
    mode: Option<Mode>,
    key: KeyChord,
    j: int,
)
    requires
        by_class(entries, entry_class()),
        0 <= j < entries.len(),
        entries[j].applies(screen, cursor, mode, key),
    ensures
        ({
            let win = first_applying(entries, screen, cursor, mode, key);
            &&& win is Some
            &&& entries[win->0].class() <= entries[j].class()
            &&& entries[win->0].class() == entries[j].class() ==> win->0 <= j
            &&& entries[j].cursor is Some ==> entries[win->0].cursor is Some
            &&& entries[j].cursor is Some && entries[j].mode is Some ==> entries[win->0].mode
                is Some
            &&& entries[j].mode is Some ==> entries[win->0].cursor is Some
                || entries[win->0].mode is Some
        }),
{
    applying_is_first(entries, screen, cursor, mode, key);
    let win = first_applying(entries, screen, cursor, mode, key);
    if win is Some && win->0 < j {
        assert(entry_class()(entries[win->0]) <= entry_class()(entries[j]));
    }
}

/// Registering a binding puts it behind the equally specific ones, in order of
/// registration, and leaves those of other specificity in their order.
pub proof fn registration_order_is_kept(entries: Seq<EntryView>, e: EntryView, c: nat)
    ensures
        of_class(placed(entries, entry_class(), e), entry_class(), c) == if e.class() == c {
            of_class(entries, entry_class(), c).push(e)
        } else {
            of_class(entries, entry_class(), c)
        },
{
    placed_last_of_class(entries, entry_class(), e, c);
}

/// A binding for one mode never fires in another, nor without a mode; one for
/// another screen, key or cursor never fires at all.
pub proof fn mismatches_never_fire(
    entries: Seq<EntryView>,
    screen: Screen,
    cursor: Seq<Seq<char>>,
    mode: Option<Mode>,
    key: KeyChord,
)
    ensures
        match first_applying(entries, screen, cursor, mode, key) {
            Some(i) => 0 <= i < entries.len() && entries[i].screen == screen && entries[i].key
                == key && (entries[i].mode is None || entries[i].mode == mode) && (
            entries[i].cursor is None || entries[i].cursor == Some(cursor)),
            None => true,
        },
{
    applying_is_first(entries, screen, cursor, mode, key);
}

/// A binding for the screen and the key fires at its cursor, or at every one
/// where it has none, and in its mode, or in every one and without where it has
/// none; if it does not fire itself, another one does.
pub proof fn matches_fire(
    entries: Seq<EntryView>,
    screen: Screen,
    cursor: Seq<Seq<char>>,
    mode: Option<Mode>,
    key: KeyChord,
    j: int,
)
    requires
        0 <= j < entries.len(),
        entries[j].screen == screen,
        entries[j].key == key,
        entries[j].cursor is None || entries[j].cursor == Some(cursor),
        entries[j].mode is None || entries[j].mode == mode,
    ensures
        first_applying(entries, screen, cursor, mode, key) is Some,
        first_applying(entries, screen, cursor, mode, key)->0 <= j,
{
    applying_is_first(entries, screen, cursor, mode, key);
    assert(entries[j].applies(screen, cursor, mode, key));
}

} // verus!
