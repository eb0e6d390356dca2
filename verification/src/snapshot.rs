//! What the settings screen sees of the store during one frame or keystroke.

use crate::path::{leads, path2, path3, paths_view, Path};
use crate::text::{ascending, sort_texts, sorted_texts, sorting_is_ascending, texts};
use crate::value::{StoreValue, ValueView, WriteView};
use vstd::prelude::*;
use vstd::string::*;

verus! {

/// A value at its path.
#[derive(Debug, PartialEq, Eq)]
pub struct Entry {
    pub path: Path,
    pub value: StoreValue,
}

/// What an `Entry` holds.
pub struct EntryView {
    pub path: Seq<Seq<char>>,
    pub value: ValueView,
}

impl View for Entry {
    type V = EntryView;

    open spec fn view(&self) -> EntryView {
        EntryView { path: self.path@, value: self.value@ }
    }
}

/// What each entry of a list holds.
pub open spec fn entries_view(v: Seq<Entry>) -> Seq<EntryView> {
    Seq::new(v.len(), |i: int| v[i]@)
}

/// The store's values by path.
pub struct SettingsSnapshot {
    entries: Vec<Entry>,
}

/// What a `SettingsSnapshot` holds.
pub struct SnapshotView {
    pub entries: Seq<EntryView>,
}

impl View for SettingsSnapshot {
    type V = SnapshotView;

    closed spec fn view(&self) -> SnapshotView {
        SnapshotView { entries: entries_view(self.entries@) }
    }
}

/// The value found at a path.
pub open spec fn find(entries: Seq<EntryView>, path: Seq<Seq<char>>) -> Option<ValueView>
    decreases entries.len(),
{
    if entries.len() == 0 {
        None
    } else if entries.last().path == path {
        Some(entries.last().value)
    } else {
        find(entries.drop_last(), path)
    }
}

/// The entries with `value` at `path`, in place of what was there.
pub open spec fn replaced(
    entries: Seq<EntryView>,
    path: Seq<Seq<char>>,
    value: ValueView,
) -> Seq<EntryView>
    decreases entries.len(),
{
    if entries.len() == 0 {
        seq![EntryView { path, value }]
    } else if entries.last().path == path {
        entries.drop_last().push(EntryView { path, value })
    } else {
        replaced(entries.drop_last(), path, value).push(entries.last())
    }
}

/// The components that follow `prefix` in the entries' paths.
pub open spec fn following(entries: Seq<EntryView>, prefix: Seq<Seq<char>>) -> Seq<Seq<char>>
    decreases entries.len(),
{
    if entries.len() == 0 {
        Seq::empty()
    } else {
        let rest = following(entries.drop_last(), prefix);
        let p = entries.last().path;
        if leads(prefix, p) && p.len() > prefix.len() {
            rest.push(p[prefix.len() as int])
        } else {
            rest
        }
    }
}

impl SnapshotView {
    /// The value at a path.
    pub open spec fn at(self, path: Seq<Seq<char>>) -> Option<ValueView> {
        find(self.entries, path)
    }

    /// Whether a value lies at or below a path.
    pub open spec fn holds_below(self, prefix: Seq<Seq<char>>) -> bool {
        exists|i: int| 0 <= i < self.entries.len() && leads(prefix, (#[trigger] self.entries[i]).path)
    }

    /// The names of the children of a path, each once, in dictionary order. A
    /// path that itself holds a value has none.
    pub open spec fn children(self, prefix: Seq<Seq<char>>) -> Seq<Seq<char>> {
        if self.at(prefix) is Some {
            Seq::empty()
        } else {
            sorted_texts(following(self.entries, prefix))
        }
    }
}

impl SettingsSnapshot {
    /// A snapshot of an empty store.
    pub fn empty() -> (r: SettingsSnapshot)
        ensures
            r@.entries == Seq::<EntryView>::empty(),
            forall|p: Seq<Seq<char>>| #[trigger] r@.at(p) is None,
    {
        let r = SettingsSnapshot { entries: Vec::new() };
        proof {
            assert(r@.entries =~= Seq::<EntryView>::empty());
        }
        r
    }

    /// Puts `value` at `path`, in place of what was there.
    pub fn insert(&mut self, path: &Path, value: StoreValue)
        ensures
            final(self)@.entries == replaced(old(self)@.entries, path@, value@),
            final(self)@.at(path@) == Some(value@),
            forall|p: Seq<Seq<char>>| p != path@ ==> #[trigger] final(self)@.at(p) == old(self)@.at(p),
    {
        let ghost before = entries_view(self.entries@);
        let ghost written = value@;
        let mut i: usize = self.entries.len();
        while i > 0 && !self.entries[i - 1].path.same_as(path)
            invariant
                i <= self.entries@.len(),
                before == entries_view(self.entries@),
                forall|k: int| i <= k < before.len() ==> (#[trigger] before[k]).path != path@,
            decreases i,
        {
            i -= 1;
        }
        let entry = Entry { path: path.copied(), value };
        if i == 0 {
            self.entries.insert(0, entry);
            proof {
                lemma_replaced_absent(before, path@, written);
                assert(entries_view(self.entries@) =~= seq![entry@] + before);
            }
        } else {
            self.entries.set(i - 1, entry);
            proof {
                assert(before[i - 1].path == path@);
                lemma_replaced_at(before, path@, written, i - 1);
                assert(entries_view(self.entries@) =~= before.update(i - 1, entry@));
            }
        }
        proof {
            assert forall|p: Seq<Seq<char>>| p != path@ implies #[trigger] self@.at(p) == find(
                before,
                p,
            ) by {
                read_after_insert(before, path@, written, p);
            }
            read_after_insert(before, path@, written, path@);
        }
    }

    /// The value at a path.
    pub fn read(&self, path: &Path) -> (r: Option<&StoreValue>)
        ensures
            r is Some <==> self@.at(path@) is Some,
            r is Some ==> (*r->0)@ == self@.at(path@)->0,
    {
        let mut i: usize = self.entries.len();
        let ghost all = entries_view(self.entries@);
        proof {
            assert(all.subrange(0, i as int) =~= all);
        }
        while i > 0
            invariant
                i <= self.entries@.len(),
                all == entries_view(self.entries@),
                find(all.subrange(0, i as int), path@) == find(all, path@),
            decreases i,
        {
            proof {
                let t = all.subrange(0, i as int);
                assert(t.last() == self.entries@[i - 1]@);
                assert(t.drop_last() =~= all.subrange(0, i - 1));
            }
            if self.entries[i - 1].path.same_as(path) {
                return Some(&self.entries[i - 1].value);
            }
            i -= 1;
        }
        None
    }

    /// The names of the children of a path, each once, in dictionary order.
    pub fn child_names(&self, prefix: &Path) -> (r: Vec<String>)
        ensures
            texts(r@) == self@.children(prefix@),
    {
        if self.read(prefix).is_some() {
            let none: Vec<String> = Vec::new();
            proof {
                assert(texts(none@) =~= Seq::<Seq<char>>::empty());
            }
            return none;
        }
        let mut out: Vec<String> = Vec::new();
        let ghost all = entries_view(self.entries@);
        let mut i: usize = 0;
        proof {
            assert(texts(out@) =~= following(all.subrange(0, 0), prefix@));
        }
        while i < self.entries.len()
            invariant
                i <= self.entries@.len(),
                all == entries_view(self.entries@),
                texts(out@) == following(all.subrange(0, i as int), prefix@),
            decreases self.entries@.len() - i,
        {
            let p: &Path = &self.entries[i].path;
            let ghost so_far = texts(out@);
            if p.starts_with(prefix) && p.components.len() > prefix.components.len() {
                out.push(p.components[prefix.components.len()].clone());
                proof {
                    assert(texts(out@) =~= so_far.push(p@[prefix@.len() as int]));
                }
            }
            proof {
                let t = all.subrange(0, i + 1);
                assert(t.last() == self.entries@[i as int]@);
                assert(t.drop_last() =~= all.subrange(0, i as int));
            }
            i += 1;
        }
        proof {
            assert(all.subrange(0, i as int) =~= all);
        }
        sort_texts(&out)
    }

    /// Whether a value lies at or below a path.
    pub fn has_below(&self, prefix: &Path) -> (r: bool)
        ensures
            r == self@.holds_below(prefix@),
    {
        let mut i: usize = 0;
        while i < self.entries.len()
            invariant
                i <= self.entries@.len(),
                forall|k: int|
                    0 <= k < i ==> !leads(prefix@, (#[trigger] self@.entries[k]).path),
            decreases self.entries@.len() - i,
        {
            proof {
                assert(self@.entries[i as int] == self.entries@[i as int]@);
            }
            if self.entries[i].path.starts_with(prefix) {
                return true;
            }
            i += 1;
        }
        false
    }
}

/// A snapshot holds no more values than a machine word counts.
pub proof fn entries_can_be_counted(data: &SettingsSnapshot)
    ensures
        data@.entries.len() <= usize::MAX,
{
    assert(data.entries@.len() == data.entries.len());
}

/// The subtrees of the store that the settings screen sees.
pub open spec fn seen_prefixes() -> Seq<Seq<Seq<char>>> {
    seq![
        seq!["config"@, "gate"@, "accounts"@],
        seq!["config"@, "gate"@, "providers"@],
        seq!["config"@, "completions"@],
        seq!["ui"@, "settings"@],
        seq!["ui"@, "global"@],
        seq!["settings"@, "index"@, "entries"@],
        seq!["secret"@, "keys"@],
    ]
}

/// The subtrees of the store that the settings screen sees.
pub fn snapshot_prefixes() -> (r: Vec<Path>)
    ensures
        paths_view(r@) == seen_prefixes(),
{
    let mut out: Vec<Path> = Vec::new();
    out.push(path3("config", "gate", "accounts"));
    out.push(path3("config", "gate", "providers"));
    out.push(path2("config", "completions"));
    out.push(path2("ui", "settings"));
    out.push(path2("ui", "global"));
    out.push(path3("settings", "index", "entries"));
    out.push(path2("secret", "keys"));
    proof {
        assert(paths_view(out@) =~= seen_prefixes());
    }
    out
}

/// The entries with others put in, one after the other.
pub open spec fn replaced_all(entries: Seq<EntryView>, more: Seq<EntryView>) -> Seq<EntryView>
    decreases more.len(),
{
    if more.len() == 0 {
        entries
    } else {
        replaced(
            replaced_all(entries, more.drop_last()),
            more.last().path,
            more.last().value,
        )
    }
}

/// The snapshot of what has been read from the store. Of two values for one
/// path the later one counts.
pub fn settings_view_state(read: Vec<Entry>) -> (r: SettingsSnapshot)
    ensures
        r@.entries == replaced_all(Seq::empty(), entries_view(read@)),
{
    let ghost all = entries_view(read@);
    let mut snap = SettingsSnapshot::empty();
    proof {
        assert(all.subrange(0, 0) =~= Seq::<EntryView>::empty());
    }
    for e in it: read
        invariant
            all == entries_view(it.seq()),
            snap@.entries == replaced_all(Seq::empty(), all.subrange(0, it.index() as int)),
    {
        proof {
            let n = it.index() as int;
            let t = all.subrange(0, n + 1);
            assert(t.drop_last() =~= all.subrange(0, n));
            assert(t.last() == e@);
        }
        snap.insert(&e.path, e.value);
    }
    proof {
        assert(all.subrange(0, all.len() as int) =~= all);
    }
    snap
}

impl Default for SettingsSnapshot {
    fn default() -> (r: SettingsSnapshot)
        ensures
            r@.entries == Seq::<EntryView>::empty(),
    {
        SettingsSnapshot::empty()
    }
}

proof fn lemma_replaced_absent(
    entries: Seq<EntryView>,
    path: Seq<Seq<char>>,
    value: ValueView,
)
    requires
        forall|k: int| 0 <= k < entries.len() ==> (#[trigger] entries[k]).path != path,
    ensures
        replaced(entries, path, value) == seq![EntryView { path, value }] + entries,
    decreases entries.len(),
{
    let new = EntryView { path, value };
    if entries.len() == 0 {
        assert(seq![new] + entries =~= seq![new]);
    } else {
        let t = entries.drop_last();
        assert(entries[entries.len() - 1].path != path);
        assert forall|k: int| 0 <= k < t.len() implies (#[trigger] t[k]).path != path by {
            assert(t[k] == entries[k]);
        }
        lemma_replaced_absent(t, path, value);
        assert((seq![new] + t).push(entries.last()) =~= seq![new] + entries);
    }
}

proof fn lemma_replaced_at(
    entries: Seq<EntryView>,
    path: Seq<Seq<char>>,
    value: ValueView,
    i: int,
)
    requires
        0 <= i < entries.len(),
        entries[i].path == path,
        forall|k: int| i < k < entries.len() ==> (#[trigger] entries[k]).path != path,
    ensures
        replaced(entries, path, value) == entries.update(i, EntryView { path, value }),
    decreases entries.len(),
{
    let new = EntryView { path, value };
    let t = entries.drop_last();
    if i == entries.len() - 1 {
        assert(t.push(new) =~= entries.update(i, new));
    } else {
        assert(entries[entries.len() - 1].path != path);
        assert forall|k: int| i < k < t.len() implies (#[trigger] t[k]).path != path by {
            assert(t[k] == entries[k]);
        }
        lemma_replaced_at(t, path, value, i);
        assert(t.update(i, new).push(entries.last()) =~= entries.update(i, new));
    }
}

/// A read gives back what was last written at its path, and a write leaves
/// every other path alone.
pub proof fn read_after_insert(
    entries: Seq<EntryView>,
    path: Seq<Seq<char>>,
    value: ValueView,
    p: Seq<Seq<char>>,
)
    ensures
        find(replaced(entries, path, value), p) == if p == path {
            Some(value)
        } else {
            find(entries, p)
        },
    decreases entries.len(),
{
    let r = replaced(entries, path, value);
    if entries.len() == 0 {
        assert(r.last() == (EntryView { path, value }));
        assert(r.drop_last() =~= Seq::<EntryView>::empty());
        assert(find(r.drop_last(), p) is None);
    } else if entries.last().path == path {
        assert(r.last() == (EntryView { path, value }));
        assert(r.drop_last() =~= entries.drop_last());
        assert(find(r.drop_last(), p) == find(entries.drop_last(), p));
    } else {
        let t = entries.drop_last();
        read_after_insert(t, path, value, p);
        assert(r.last() == entries.last());
        assert(r.drop_last() =~= replaced(t, path, value));
        assert(find(r.drop_last(), p) == find(replaced(t, path, value), p));
    }
}

proof fn lemma_following(entries: Seq<EntryView>, prefix: Seq<Seq<char>>, name: Seq<char>)
    ensures
        following(entries, prefix).contains(name) <==> exists|i: int|
            0 <= i < entries.len() && leads(prefix.push(name), (#[trigger] entries[i]).path),
    decreases entries.len(),
{
    let s = following(entries, prefix);
    if entries.len() > 0 {
        let t = entries.drop_last();
        let last = entries.last().path;
        lemma_following(t, prefix, name);
        let rest = following(t, prefix);
        let here = leads(prefix, last) && last.len() > prefix.len();
        assert(leads(prefix.push(name), last) <==> here && last[prefix.len() as int] == name) by {
            if leads(prefix.push(name), last) {
                let n = prefix.len() as int;
                assert(last.subrange(0, n + 1)[n] == name);
                assert(last.subrange(0, n) =~= last.subrange(0, n + 1).drop_last());
                assert(prefix.push(name).drop_last() =~= prefix);
            }
            if here && last[prefix.len() as int] == name {
                let n = prefix.len() as int;
                assert(last.subrange(0, n + 1) =~= last.subrange(0, n).push(last[n]));
            }
        }
        if s.contains(name) {
            let k = choose|k: int| 0 <= k < s.len() && s[k] == name;
            if k < rest.len() {
                assert(rest[k] == name);
                let i = choose|i: int|
                    0 <= i < t.len() && leads(prefix.push(name), (#[trigger] t[i]).path);
                assert(entries[i] == t[i]);
            } else {
                assert(entries[entries.len() - 1].path == last);
            }
        }
        if exists|i: int|
            0 <= i < entries.len() && leads(prefix.push(name), (#[trigger] entries[i]).path) {
            let i = choose|i: int|
                0 <= i < entries.len() && leads(prefix.push(name), (#[trigger] entries[i]).path);
            if i < t.len() {
                assert(t[i] == entries[i]);
                let k = choose|k: int| 0 <= k < rest.len() && rest[k] == name;
                assert(s[k] == name);
            } else {
                assert(s[s.len() - 1] == name);
            }
        }
    }
}

/// A path's children are in dictionary order, and a name is among them
/// exactly when the path holds no value itself and some value lies at or
/// below that child.
pub proof fn children_are_what_lies_below(
    s: SnapshotView,
    prefix: Seq<Seq<char>>,
    name: Seq<char>,
)
    ensures
        ascending(s.children(prefix)),
        s.children(prefix).contains(name) <==> s.at(prefix) is None && exists|i: int|
            0 <= i < s.entries.len() && leads(
                prefix.push(name),
                (#[trigger] s.entries[i]).path,
            ),
{
    lemma_following(s.entries, prefix, name);
    sorting_is_ascending(following(s.entries, prefix));
}

/// The snapshot once the writes have been put in place, one after the other.
pub open spec fn written(s: SnapshotView, writes: Seq<WriteView>) -> SnapshotView
    decreases writes.len(),
{
    if writes.len() == 0 {
        s
    } else {
        let w = writes.last();
        SnapshotView {
            entries: replaced(written(s, writes.drop_last()).entries, w.path, w.value),
        }
    }
}

/// One write shows at its path and nowhere else; the children of a path that
/// does not lead to it stay the same.
pub proof fn one_write_shows_at_its_path(s: SnapshotView, w: WriteView)
    ensures
        written(s, seq![w]).at(w.path) == Some(w.value),
        forall|p: Seq<Seq<char>>| p != w.path ==> #[trigger] written(s, seq![w]).at(p) == s.at(p),
        forall|p: Seq<Seq<char>>|
            !leads(p, w.path) ==> #[trigger] written(s, seq![w]).children(p) == s.children(p),
{
    let t = written(s, seq![w]);
    assert(seq![w].drop_last() =~= Seq::<WriteView>::empty());
    assert(written(s, Seq::<WriteView>::empty()) == s);
    assert(t.entries == replaced(s.entries, w.path, w.value));
    assert forall|p: Seq<Seq<char>>| true implies #[trigger] t.at(p) == (if p == w.path {
        Some(w.value)
    } else {
        s.at(p)
    }) by {
        read_after_insert(s.entries, w.path, w.value, p);
    }
    assert forall|p: Seq<Seq<char>>| !leads(p, w.path) implies #[trigger] t.children(p)
        == s.children(p) by {
        assert(w.path.subrange(0, w.path.len() as int) =~= w.path);
        lemma_following_elsewhere(s.entries, w.path, w.value, p);
        assert(t.at(p) == s.at(p));
    }
}

/// Two writes are one write after the other.
pub proof fn two_writes_in_turn(s: SnapshotView, v: WriteView, w: WriteView)
    ensures
        written(s, seq![v, w]) == written(written(s, seq![v]), seq![w]),
{
    assert(seq![v, w].drop_last() =~= seq![v]);
    assert(seq![w].drop_last() =~= Seq::<WriteView>::empty());
    assert(written(written(s, seq![v]), Seq::<WriteView>::empty()) == written(s, seq![v]));
}

/// Whether no write goes to a path.
pub open spec fn untouched(writes: Seq<WriteView>, p: Seq<Seq<char>>) -> bool {
    forall|i: int| 0 <= i < writes.len() ==> (#[trigger] writes[i]).path != p
}

/// Whether no later write goes to the path of the `i`-th.
pub open spec fn lasting(writes: Seq<WriteView>, i: int) -> bool {
    forall|j: int| i < j < writes.len() ==> (#[trigger] writes[j]).path != writes[i].path
}

proof fn lemma_last_write(s: SnapshotView, writes: Seq<WriteView>, p: Seq<Seq<char>>)
    requires
        writes.len() > 0,
    ensures
        written(s, writes).at(p) == (if p == writes.last().path {
            Some(writes.last().value)
        } else {
            written(s, writes.drop_last()).at(p)
        }),
{
    let w = writes.last();
    read_after_insert(written(s, writes.drop_last()).entries, w.path, w.value, p);
}

/// A path that no write goes to holds what it held.
pub proof fn untouched_paths_stay(s: SnapshotView, writes: Seq<WriteView>, p: Seq<Seq<char>>)
    requires
        untouched(writes, p),
    ensures
        written(s, writes).at(p) == s.at(p),
    decreases writes.len(),
{
    if writes.len() > 0 {
        let rest = writes.drop_last();
        assert forall|i: int| 0 <= i < rest.len() implies (#[trigger] rest[i]).path != p by {
            assert(rest[i] == writes[i]);
        }
        untouched_paths_stay(s, rest, p);
        lemma_last_write(s, writes, p);
        assert(writes[writes.len() - 1].path != p);
    }
}

/// A write shows at its path, unless a later one goes to the same path.
pub proof fn lasting_write_shows(s: SnapshotView, writes: Seq<WriteView>, i: int)
    requires
        0 <= i < writes.len(),
        lasting(writes, i),
    ensures
        written(s, writes).at(writes[i].path) == Some(writes[i].value),
    decreases writes.len(),
{
    let rest = writes.drop_last();
    lemma_last_write(s, writes, writes[i].path);
    if i < rest.len() {
        assert(writes[writes.len() - 1].path != writes[i].path);
        assert(rest[i] == writes[i]);
        assert forall|j: int| i < j < rest.len() implies (#[trigger] rest[j]).path
            != rest[i].path by {
            assert(rest[j] == writes[j]);
        }
        lasting_write_shows(s, rest, i);
    }
}

/// Of writes put in place one after the other, each shows at its path, unless a
/// later one goes to the same path. Every other path holds what it held.
pub proof fn writes_show_at_their_paths(s: SnapshotView, writes: Seq<WriteView>)
    ensures
        forall|i: int|
            0 <= i < writes.len() && #[trigger] lasting(writes, i) ==> written(s, writes).at(
                writes[i].path,
            ) == Some(writes[i].value),
        forall|p: Seq<Seq<char>>|
            untouched(writes, p) ==> #[trigger] written(s, writes).at(p) == s.at(p),
{
    assert forall|i: int| 0 <= i < writes.len() && #[trigger] lasting(writes, i) implies written(
        s,
        writes,
    ).at(writes[i].path) == Some(writes[i].value) by {
        lasting_write_shows(s, writes, i);
    }
    assert forall|p: Seq<Seq<char>>| untouched(writes, p) implies #[trigger] written(
        s,
        writes,
    ).at(p) == s.at(p) by {
        untouched_paths_stay(s, writes, p);
    }
}

/// A snapshot of what has been read holds, at each path, the last value that was
/// read for it, and nothing at a path that none was read for.
pub proof fn last_value_read_counts(read: Seq<EntryView>, p: Seq<Seq<char>>, i: int)
    requires
        0 <= i < read.len() ==> read[i].path == p && forall|j: int|
            i < j < read.len() ==> (#[trigger] read[j]).path != p,
        !(0 <= i < read.len()) ==> forall|j: int|
            0 <= j < read.len() ==> (#[trigger] read[j]).path != p,
    ensures
        find(replaced_all(Seq::empty(), read), p) == (if 0 <= i < read.len() {
            Some(read[i].value)
        } else {
            None
        }),
    decreases read.len(),
{
    if read.len() > 0 {
        let rest = read.drop_last();
        let last = read.last();
        let n = rest.len() as int;
        read_after_insert(replaced_all(Seq::empty(), rest), last.path, last.value, p);
        assert(read[n] == last);
        assert forall|j: int| 0 <= j < rest.len() implies #[trigger] rest[j] == read[j] by {}
        if 0 <= i < read.len() {
            if i < n {
                last_value_read_counts(rest, p, i);
            }
        } else {
            last_value_read_counts(rest, p, -1);
        }
    }
}

proof fn lemma_following_elsewhere(
    entries: Seq<EntryView>,
    path: Seq<Seq<char>>,
    value: ValueView,
    prefix: Seq<Seq<char>>,
)
    requires
        !leads(prefix, path),
    ensures
        following(replaced(entries, path, value), prefix) == following(entries, prefix),
    decreases entries.len(),
{
    let r = replaced(entries, path, value);
    if entries.len() == 0 {
        assert(r.drop_last() =~= Seq::<EntryView>::empty());
        assert(following(r.drop_last(), prefix) == Seq::<Seq<char>>::empty());
    } else if entries.last().path == path {
        assert(r.drop_last() =~= entries.drop_last());
    } else {
        lemma_following_elsewhere(entries.drop_last(), path, value, prefix);
        assert(r.drop_last() =~= replaced(entries.drop_last(), path, value));
    }
}

/// The screen sees the accounts and the providers with whatever is stored below
/// them, the keys, the entries of the index, and its own state.
pub proof fn what_the_screen_works_on_is_seen(rest: Seq<Seq<char>>)
    ensures
        exists|i: int|
            0 <= i < seen_prefixes().len() && leads(
                #[trigger] seen_prefixes()[i],
                seq!["config"@, "gate"@, "accounts"@] + rest,
            ),
        exists|i: int|
            0 <= i < seen_prefixes().len() && leads(
                #[trigger] seen_prefixes()[i],
                seq!["config"@, "gate"@, "providers"@] + rest,
            ),
        exists|i: int|
            0 <= i < seen_prefixes().len() && leads(
                #[trigger] seen_prefixes()[i],
                seq!["secret"@, "keys"@] + rest,
            ),
        exists|i: int|
            0 <= i < seen_prefixes().len() && leads(
                #[trigger] seen_prefixes()[i],
                seq!["settings"@, "index"@, "entries"@] + rest,
            ),
        exists|i: int|
            0 <= i < seen_prefixes().len() && leads(
                #[trigger] seen_prefixes()[i],
                seq!["ui"@, "settings"@] + rest,
            ),
        exists|i: int|
            0 <= i < seen_prefixes().len() && leads(
                #[trigger] seen_prefixes()[i],
                seq!["config"@, "completions"@] + rest,
            ),
{
    let all = seen_prefixes();
    assert(all[0] == seq!["config"@, "gate"@, "accounts"@]);
    assert(all[1] == seq!["config"@, "gate"@, "providers"@]);
    assert(all[2] == seq!["config"@, "completions"@]);
    assert(all[3] == seq!["ui"@, "settings"@]);
    assert(all[5] == seq!["settings"@, "index"@, "entries"@]);
    assert(all[6] == seq!["secret"@, "keys"@]);
    lemma_leads_on(all[0], rest);
    lemma_leads_on(all[1], rest);
    lemma_leads_on(all[2], rest);
    lemma_leads_on(all[3], rest);
    lemma_leads_on(all[5], rest);
    lemma_leads_on(all[6], rest);
}

proof fn lemma_leads_on(p: Seq<Seq<char>>, rest: Seq<Seq<char>>)
    ensures
        leads(p, p + rest),
{
    assert((p + rest).subrange(0, p.len() as int) =~= p);
}

} // verus!
