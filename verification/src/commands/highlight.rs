//! Moving the highlight within the index, the connections and the models.

use crate::command_registry::CommandRegistry;
use crate::assoc::{place_is_first, place_of};
use crate::path::{component_ok, path3, path4, path5, valid_component};
use crate::renderers::util::{
    key_at, models_or_empty, number_at, read_key, read_models_or_empty, read_text, read_usize,
    text_at,
};
use crate::snapshot::{SettingsSnapshot, SnapshotView};
use crate::text::{place_of_text, texts};
use crate::types::{keys_view, models_view, ModelInfo, ModelKey, ModelKeyView};
use crate::value::{
    put, put_text, write_at, write_text, writes_view, StoreValue, ValueView, Write, WriteView,
};
use vstd::prelude::*;
use vstd::string::*;

use super::account_model::{place_of_key, selected_account_path, selected_model_path};
use super::compose::{account_names, accounts_root, ring, turn, turns_undo_each_other, CycleDir};
use super::manual_model::catalog;
use super::settings_command::{install, installed, new_to, Action, SettingsCommand};

verus! {

/// Which way a highlight moves.
#[derive(Clone, Copy, Debug, PartialEq, Eq, Structural)]
pub enum Direction {
    Next,
    Prev,
}

/// The step a direction takes.
pub open spec fn delta(direction: Direction) -> int {
    match direction {
        Direction::Next => 1,
        Direction::Prev => -1,
    }
}

/// The place next to `current` in a ring of `count`. A place beyond the end
/// counts as the last one.
pub open spec fn stepped(current: int, count: int, direction: Direction) -> int {
    ring(
        if current < count {
            current
        } else {
            count - 1
        },
        delta(direction),
        count,
    )
}

/// The place next to `current` in a ring of `count`.
pub fn step_index(current: usize, count: usize, direction: Direction) -> (r: usize)
    requires
        count > 0,
    ensures
        r == stepped(current as int, count as int, direction),
        r < count,
{
    let current: usize = if current < count {
        current
    } else {
        count - 1
    };
    match direction {
        Direction::Next => turn(count, Some(current), CycleDir::Forward),
        Direction::Prev => turn(count, Some(current), CycleDir::Back),
    }
}

/// A step forward and a step back, in either order, return to the same place.
pub proof fn steps_undo_each_other(current: int, count: int)
    requires
        0 <= current < count,
    ensures
        stepped(stepped(current, count, Direction::Next), count, Direction::Prev) == current,
        stepped(stepped(current, count, Direction::Prev), count, Direction::Next) == current,
        0 <= stepped(current, count, Direction::Next) < count,
        0 <= stepped(current, count, Direction::Prev) < count,
{
    turns_undo_each_other(count, current);
}

/// Where the index entries live.
pub open spec fn index_entries() -> Seq<Seq<char>> {
    seq!["settings"@, "index"@, "entries"@]
}

/// Where the index's highlight is kept.
pub open spec fn index_selected_path() -> Seq<Seq<char>> {
    seq!["ui"@, "settings"@, "index"@, "selected"@]
}

/// The place the index's highlight moves to.
pub open spec fn index_target(s: SnapshotView, direction: Direction) -> int {
    let current = match number_at(s, index_selected_path(), usize::MAX as int) {
        Some(n) => n,
        None => 0,
    };
    stepped(current, s.children(index_entries()).len() as int, direction)
}

/// The writes of moving the index's highlight; none in an empty index, nor to
/// a place that no stored integer can hold.
pub open spec fn index_step_writes(s: SnapshotView, direction: Direction) -> Seq<WriteView> {
    if s.children(index_entries()).len() == 0 || index_target(s, direction) > i64::MAX {
        Seq::empty()
    } else {
        seq![put(index_selected_path(), ValueView::Integer(index_target(s, direction)))]
    }
}

/// Moves the index's highlight.
pub fn index_step(data: &SettingsSnapshot, direction: Direction) -> (r: Vec<Write>)
    ensures
        writes_view(r@) == index_step_writes(data@, direction),
{
    let mut out: Vec<Write> = Vec::new();
    let names: Vec<String> = data.child_names(&path3("settings", "index", "entries"));
    let count: usize = names.len();
    proof {
        assert(texts(names@).len() == count);
    }
    if count > 0 {
        let current: usize = match read_usize(
            data,
            &path4("ui", "settings", "index", "selected"),
        ) {
            Some(n) => n,
            None => 0,
        };
        let next: usize = step_index(current, count, direction);
        if next as u64 <= i64::MAX as u64 {
            out.push(
                write_at(
                    path4("ui", "settings", "index", "selected"),
                    StoreValue::Integer(next as i64),
                ),
            );
        }
    }
    proof {
        assert(writes_view(out@) =~= index_step_writes(data@, direction));
    }
    out
}

/// The place a highlight in a list moves to: the first one where nothing is
/// highlighted, else next to the highlighted one, which counts as the first
/// where it is not in the list.
pub open spec fn list_target<T>(list: Seq<T>, current: Option<T>, direction: Direction) -> int {
    match current {
        None => 0,
        Some(x) => stepped(
            match place_of(list, x) {
                Some(i) => i,
                None => 0,
            },
            list.len() as int,
            direction,
        ),
    }
}

/// The writes of moving the highlight among the connections.
pub open spec fn accounts_step_writes(s: SnapshotView, direction: Direction) -> Seq<WriteView> {
    let names = s.children(accounts_root());
    if names.len() == 0 {
        Seq::empty()
    } else {
        seq![
            put_text(
                selected_account_path(),
                names[list_target(names, text_at(s, selected_account_path()), direction)],
            ),
        ]
    }
}

/// Moves the highlight among the connections.
pub fn accounts_step(data: &SettingsSnapshot, direction: Direction) -> (r: Vec<Write>)
    ensures
        writes_view(r@) == accounts_step_writes(data@, direction),
{
    let mut out: Vec<Write> = Vec::new();
    let names: Vec<String> = account_names(data);
    proof {
        assert(texts(names@).len() == names@.len());
    }
    if names.len() > 0 {
        let target: usize = match read_text(
            data,
            &path4("ui", "settings", "accounts", "selected"),
        ) {
            None => 0,
            Some(current) => {
                let place: usize = match place_of_text(names.as_slice(), current.as_str()) {
                    Some(i) => i,
                    None => 0,
                };
                step_index(place, names.len(), direction)
            },
        };
        out.push(
            write_text(path4("ui", "settings", "accounts", "selected"), names[target].clone()),
        );
    }
    proof {
        assert(writes_view(out@) =~= accounts_step_writes(data@, direction));
    }
    out
}

/// The keys of an account's models, in the catalog's order.
pub open spec fn keys_of_account(s: SnapshotView, name: Seq<char>) -> Seq<ModelKeyView> {
    if component_ok(name) {
        let models = models_or_empty(s, catalog(name));
        Seq::new(
            models.len(),
            |i: int| ModelKeyView { account: name, model_id: models[i].id },
        )
    } else {
        Seq::empty()
    }
}

/// The keys of the models of all accounts, account by account.
pub open spec fn keys_of_accounts(s: SnapshotView, names: Seq<Seq<char>>) -> Seq<ModelKeyView>
    decreases names.len(),
{
    if names.len() == 0 {
        Seq::empty()
    } else {
        keys_of_accounts(s, names.drop_last()) + keys_of_account(s, names.last())
    }
}

/// The keys of all models: accounts in dictionary order, and each account's
/// models in the catalog's order.
pub fn flatten_model_keys(data: &SettingsSnapshot) -> (r: Vec<ModelKey>)
    ensures
        keys_view(r@) == keys_of_accounts(data@, data@.children(accounts_root())),
{
    let names: Vec<String> = account_names(data);
    let ghost all = texts(names@);
    let mut out: Vec<ModelKey> = Vec::new();
    let mut i: usize = 0;
    proof {
        assert(keys_view(out@) =~= keys_of_accounts(data@, all.subrange(0, 0)));
    }
    while i < names.len()
        invariant
            i <= names@.len(),
            all == texts(names@),
            keys_view(out@) == keys_of_accounts(data@, all.subrange(0, i as int)),
        decreases names@.len() - i,
    {
        let name: &str = names[i].as_str();
        let ghost before = keys_view(out@);
        if valid_component(name) {
            let models: Vec<ModelInfo> = read_models_or_empty(
                data,
                &path5("config", "gate", "accounts", name, "models"),
            );
            let ghost wanted = keys_of_account(data@, name@);
            proof {
                assert(models_view(models@).len() == models@.len());
                assert(keys_view(out@) =~= before + wanted.subrange(0, 0));
            }
            let mut j: usize = 0;
            while j < models.len()
                invariant
                    j <= models@.len(),
                    wanted.len() == models@.len(),
                    forall|k: int|
                        0 <= k < models@.len() ==> #[trigger] wanted[k] == (ModelKeyView {
                            account: name@,
                            model_id: models@[k].id@,
                        }),
                    keys_view(out@) == before + wanted.subrange(0, j as int),
                decreases models@.len() - j,
            {
                out.push(ModelKey { account: name.to_owned(), model_id: models[j].id.clone() });
                proof {
                    assert(keys_view(out@) =~= (before + wanted.subrange(0, j as int)).push(
                        wanted[j as int],
                    ));
                    assert(keys_view(out@) =~= before + wanted.subrange(0, j + 1));
                }
                j += 1;
            }
            proof {
                assert(wanted.subrange(0, j as int) =~= wanted);
            }
        } else {
            proof {
                assert(before + keys_of_account(data@, name@) =~= before);
            }
        }
        proof {
            let t = all.subrange(0, i + 1);
            assert(t.drop_last() =~= all.subrange(0, i as int));
            assert(t.last() == name@);
        }
        i += 1;
    }
    proof {
        assert(all.subrange(0, i as int) =~= all);
    }
    out
}

/// The writes of moving the highlight among the models.
pub open spec fn models_step_writes(s: SnapshotView, direction: Direction) -> Seq<WriteView> {
    let keys = keys_of_accounts(s, s.children(accounts_root()));
    if keys.len() == 0 {
        Seq::empty()
    } else {
        seq![
            put(
                selected_model_path(),
                ValueView::ModelKey(
                    keys[list_target(keys, key_at(s, selected_model_path()), direction)],
                ),
            ),
        ]
    }
}

/// Moves the highlight among the models.
pub fn models_step(data: &SettingsSnapshot, direction: Direction) -> (r: Vec<Write>)
    ensures
        writes_view(r@) == models_step_writes(data@, direction),
{
    let mut out: Vec<Write> = Vec::new();
    let keys: Vec<ModelKey> = flatten_model_keys(data);
    proof {
        assert(keys_view(keys@).len() == keys@.len());
    }
    if keys.len() > 0 {
        let target: usize = match read_key(data, &path4("ui", "settings", "models", "selected")) {
            None => 0,
            Some(current) => {
                let place: usize = match place_of_key(&keys, &current) {
                    Some(i) => i,
                    None => 0,
                };
                step_index(place, keys.len(), direction)
            },
        };
        out.push(
            write_at(
                path4("ui", "settings", "models", "selected"),
                StoreValue::ModelKey(keys[target].copied()),
            ),
        );
    }
    proof {
        assert(writes_view(out@) =~= models_step_writes(data@, direction));
    }
    out
}

/// Wherever the highlight moves to in a list that is not empty, it stays in
/// the list.
pub proof fn highlight_stays_in_list<T>(list: Seq<T>, current: Option<T>, direction: Direction)
    requires
        list.len() > 0,
    ensures
        0 <= list_target(list, current, direction) < list.len(),
{
    match current {
        None => {},
        Some(x) => {
            place_is_first(list, x);
            let i = match place_of(list, x) {
                Some(i) => i,
                None => 0,
            };
            steps_undo_each_other(i, list.len() as int);
        },
    }
}

/// The commands of this group.
pub open spec fn highlight_actions() -> Seq<Action> {
    seq![
        Action::HighlightIndexNext,
        Action::HighlightIndexPrev,
        Action::HighlightAccountsNext,
        Action::HighlightAccountsPrev,
        Action::HighlightModelsNext,
        Action::HighlightModelsPrev,
    ]
}

/// Registers the commands of this group.
pub fn register(reg: &mut CommandRegistry<SettingsCommand>)
    ensures
        installed(old(reg)@, highlight_actions(), final(reg)@),
        new_to(highlight_actions(), old(reg)@) ==> final(reg)@.len() == old(reg)@.len() + highlight_actions().len(),
{
    let actions: Vec<Action> = vec![
        Action::HighlightIndexNext,
        Action::HighlightIndexPrev,
        Action::HighlightAccountsNext,
        Action::HighlightAccountsPrev,
        Action::HighlightModelsNext,
        Action::HighlightModelsPrev,
    ];
    proof {
        assert(actions@ =~= highlight_actions());
    }
    install(reg, &actions);
}

} // verus!
