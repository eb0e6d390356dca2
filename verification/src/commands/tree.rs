//! Moving through the visible rows, opening and closing them.

use crate::command_registry::CommandRegistry;
use crate::assoc::{place_is_first, place_of, place_unique};
use crate::keys::opt_path;
use crate::path::{path3, path4, path_text, Path};
use crate::renderers::util::{path_at, read_texts, texts_at};
use crate::visible_rows::{
    enumerate, first_row_is_top_level, path_to_string, position_of, row_index, row_index_is_first,
    row_index_unique, rows_view, visible, KindView, RowKind, RowView, VisibleRow,
};
use crate::snapshot::{SettingsSnapshot, SnapshotView};
use crate::text::{place_of_text, same, texts};
use crate::types::{field_text, AccountField, ModelField, ModelKey, ModelKeyView};
use crate::value::{
    put, put_path, put_text, texts_to_value, texts_value, write_at, write_text, writes_view,
    StoreValue, ValueView, Write, WriteView,
};
use vstd::prelude::*;
use vstd::string::*;

use super::account_model::{
    account_field_path, model_field_path, selected_account_path, selected_model_path,
};
use super::compose::{expanded_path, field_state_subpath};
use super::highlight::{step_index, stepped, steps_undo_each_other, Direction};
use super::navigation::{exit_write, page_cursor_path, path_to_value, read_path, request_exit};
use super::settings_command::{install, installed, new_to, Action, SettingsCommand};

verus! {

/// Where the focused row is kept.
pub open spec fn focused_row_path() -> Seq<Seq<char>> {
    seq!["ui"@, "settings"@, "focused_row"@]
}

/// The focused row's path.
pub fn read_focused(data: &SettingsSnapshot) -> (r: Option<Path>)
    ensures
        opt_path(r) == path_at(data@, focused_row_path()),
{
    read_path(data, &path3("ui", "settings", "focused_row"))
}

/// The expanded rows.
pub open spec fn expanded_set(s: SnapshotView) -> Seq<Seq<char>> {
    match texts_at(s, expanded_path()) {
        Some(t) => t,
        None => Seq::empty(),
    }
}

/// The expanded rows.
pub fn read_expanded_set(data: &SettingsSnapshot) -> (r: Vec<String>)
    ensures
        texts(r@) == expanded_set(data@),
{
    match read_texts(data, &path3("ui", "settings", "expanded")) {
        Some(t) => t,
        None => {
            let t: Vec<String> = Vec::new();
            proof {
                assert(texts(t@) =~= Seq::<Seq<char>>::empty());
            }
            t
        },
    }
}

/// The value that stands for the expanded rows.
pub fn expanded_set_to_value(set: &Vec<String>) -> (r: StoreValue)
    ensures
        r@ == texts_value(texts(set@)),
{
    texts_to_value(set)
}

/// The place of the row next to the one at `cursor`, which counts as the first
/// where there is none.
pub open spec fn row_target(
    rows: Seq<RowView>,
    cursor: Option<Seq<Seq<char>>>,
    direction: Direction,
) -> int {
    let current = match cursor {
        Some(c) => match row_index(rows, c) {
            Some(i) => i,
            None => 0,
        },
        None => 0,
    };
    stepped(current, rows.len() as int, direction)
}

/// The writes of moving the focus to the next or previous row.
pub open spec fn step_writes(s: SnapshotView, direction: Direction) -> Seq<WriteView> {
    if visible(s).len() == 0 {
        Seq::empty()
    } else {
        let target = row_target(visible(s), path_at(s, focused_row_path()), direction);
        seq![put_path(focused_row_path(), visible(s)[target].path)]
    }
}

/// Moves the focus to the next or previous row, round the ends.
pub fn step(data: &SettingsSnapshot, direction: Direction) -> (r: Vec<Write>)
    ensures
        writes_view(r@) == step_writes(data@, direction),
{
    let mut out: Vec<Write> = Vec::new();
    let found: Vec<VisibleRow> = enumerate(data);
    let rows: &Vec<VisibleRow> = &found;
    proof {
        assert(rows_view(rows@).len() == rows@.len());
    }
    if rows.len() > 0 {
        let current: usize = match read_focused(data) {
            Some(c) => match position_of(rows, &c) {
                Some(i) => i,
                None => 0,
            },
            None => 0,
        };
        let target: usize = step_index(current, rows.len(), direction);
        out.push(
            write_at(path3("ui", "settings", "focused_row"), path_to_value(&rows[target].path)),
        );
        proof {
            assert(rows_view(rows@)[target as int] == rows@[target as int]@);
        }
    }
    proof {
        assert(writes_view(out@) =~= step_writes(data@, direction));
    }
    out
}

/// Moving to the next row and then to the previous one, or the other way
/// round, returns to the same row, as long as no two rows share a path.
pub proof fn row_steps_undo_each_other(rows: Seq<RowView>, i: int)
    requires
        0 <= i < rows.len(),
        forall|j: int, k: int|
            0 <= j < k < rows.len() ==> (#[trigger] rows[j]).path != (#[trigger] rows[k]).path,
    ensures
        ({
            let next = row_target(rows, Some(rows[i].path), Direction::Next);
            row_target(rows, Some(rows[next].path), Direction::Prev) == i
        }),
        ({
            let prev = row_target(rows, Some(rows[i].path), Direction::Prev);
            row_target(rows, Some(rows[prev].path), Direction::Next) == i
        }),
{
    steps_undo_each_other(i, rows.len() as int);
    row_index_unique(rows, rows[i].path, i);
    let next = row_target(rows, Some(rows[i].path), Direction::Next);
    let prev = row_target(rows, Some(rows[i].path), Direction::Prev);
    row_index_unique(rows, rows[next].path, next);
    row_index_unique(rows, rows[prev].path, prev);
}

/// `set` without the first occurrence of `x`, or with `x` at its end.
pub open spec fn toggled_text(set: Seq<Seq<char>>, x: Seq<char>) -> Seq<Seq<char>> {
    match place_of(set, x) {
        Some(i) => set.remove(i),
        None => set.push(x),
    }
}

/// The writes that open the page of a connection at a field.
pub open spec fn account_detail_writes(account: Seq<char>, field: AccountField) -> Seq<WriteView> {
    seq![
        put_text(selected_account_path(), account),
        put_text(account_field_path(), field_text(field)),
        put_path(page_cursor_path(), seq!["settings"@, "accounts"@, "_detail"@]),
    ]
}

/// The writes that open the page of a model at a field.
pub open spec fn model_detail_writes(key: ModelKeyView, field: ModelField) -> Seq<WriteView> {
    seq![
        put(selected_model_path(), ValueView::ModelKey(key)),
        put(model_field_path(), ValueView::ModelField(field)),
        put_path(page_cursor_path(), seq!["settings"@, "models"@, "_detail"@]),
    ]
}

/// The writes that start editing a connection's field in its row, with the
/// text cursor at the end.
pub open spec fn inline_edit_writes(account: Seq<char>, field: AccountField) -> Seq<WriteView> {
    seq![
        put_text(selected_account_path(), account),
        put_text(account_field_path(), field_text(field)),
        put(seq!["ui"@, "settings"@, "edit_cursor"@], ValueView::Integer(i64::MAX as int)),
        put(seq!["ui"@, "settings"@, "edit_mode"@], ValueView::Bool(true)),
    ]
}

/// The writes of activating a row that has nothing below it.
pub open spec fn activate_leaf_writes(kind: KindView) -> Seq<WriteView> {
    match kind {
        KindView::AccountField { account, field } => match field {
            AccountField::Endpoint | AccountField::Key => inline_edit_writes(account, field),
            _ => account_detail_writes(account, field),
        },
        KindView::ModelField { account, model_id, field } => model_detail_writes(
            ModelKeyView { account, model_id },
            field,
        ),
        _ => Seq::empty(),
    }
}

/// The writes of activating the focused row: one with something below it is
/// expanded or collapsed, a field is edited in its row or on its page.
pub open spec fn activate_writes(s: SnapshotView) -> Seq<WriteView> {
    match path_at(s, focused_row_path()) {
        None => Seq::empty(),
        Some(c) => match row_index(visible(s), c) {
            None => Seq::empty(),
            Some(i) => {
                let row = visible(s)[i];
                if row.expandable {
                    seq![
                        put(
                            expanded_path(),
                            texts_value(toggled_text(expanded_set(s), path_text(row.path))),
                        ),
                    ]
                } else {
                    activate_leaf_writes(row.kind)
                }
            },
        },
    }
}

/// Starts editing a connection's field in its row.
pub fn begin_inline_edit_account(account: &str, field: AccountField) -> (r: Vec<Write>)
    ensures
        writes_view(r@) == inline_edit_writes(account@, field),
{
    let mut out: Vec<Write> = Vec::new();
    out.push(
        write_text(path4("ui", "settings", "accounts", "selected"), account.to_owned()),
    );
    out.push(
        write_text(
            path4("ui", "settings", "account_detail", "field"),
            field_state_subpath(field).to_owned(),
        ),
    );
    out.push(write_at(path3("ui", "settings", "edit_cursor"), StoreValue::Integer(i64::MAX)));
    out.push(write_at(path3("ui", "settings", "edit_mode"), StoreValue::Bool(true)));
    proof {
        assert(writes_view(out@) =~= inline_edit_writes(account@, field));
    }
    out
}

fn open_account_detail(account: &str, field: AccountField) -> (r: Vec<Write>)
    ensures
        writes_view(r@) == account_detail_writes(account@, field),
{
    let mut out: Vec<Write> = Vec::new();
    out.push(
        write_text(path4("ui", "settings", "accounts", "selected"), account.to_owned()),
    );
    out.push(
        write_text(
            path4("ui", "settings", "account_detail", "field"),
            field_state_subpath(field).to_owned(),
        ),
    );
    out.push(
        write_at(
            path3("ui", "settings", "cursor"),
            path_to_value(&path3("settings", "accounts", "_detail")),
        ),
    );
    proof {
        assert(writes_view(out@) =~= account_detail_writes(account@, field));
    }
    out
}

fn open_model_detail(key: ModelKey, field: ModelField) -> (r: Vec<Write>)
    ensures
        writes_view(r@) == model_detail_writes(key@, field),
{
    let mut out: Vec<Write> = Vec::new();
    out.push(
        write_at(path4("ui", "settings", "models", "selected"), StoreValue::ModelKey(key)),
    );
    out.push(
        write_at(path4("ui", "settings", "model_detail", "field"), StoreValue::ModelField(field)),
    );
    out.push(
        write_at(
            path3("ui", "settings", "cursor"),
            path_to_value(&path3("settings", "models", "_detail")),
        ),
    );
    proof {
        assert(writes_view(out@) =~= model_detail_writes(key@, field));
    }
    out
}

fn activate_leaf(kind: &RowKind) -> (r: Vec<Write>)
    ensures
        writes_view(r@) == activate_leaf_writes(kind@),
{
    match kind {
        RowKind::AccountField { account, field } => match field {
            AccountField::Endpoint => begin_inline_edit_account(
                account.as_str(),
                AccountField::Endpoint,
            ),
            AccountField::Key => begin_inline_edit_account(account.as_str(), AccountField::Key),
            _ => open_account_detail(account.as_str(), *field),
        },
        RowKind::ModelField { account, model_id, field } => open_model_detail(
            ModelKey { account: account.clone(), model_id: model_id.clone() },
            *field,
        ),
        _ => {
            let none: Vec<Write> = Vec::new();
            proof {
                assert(writes_view(none@) =~= Seq::<WriteView>::empty());
            }
            none
        },
    }
}

/// Activates the focused row.
pub fn activate(data: &SettingsSnapshot) -> (r: Vec<Write>)
    ensures
        writes_view(r@) == activate_writes(data@),
{
    let mut out: Vec<Write> = Vec::new();
    proof {
        assert(writes_view(out@) =~= Seq::<WriteView>::empty());
    }
    let found: Vec<VisibleRow> = enumerate(data);
    let rows: &Vec<VisibleRow> = &found;
    let cursor: Path = match read_focused(data) {
        Some(c) => c,
        None => {
            return out;
        },
    };
    let i: usize = match position_of(rows, &cursor) {
        Some(i) => i,
        None => {
            return out;
        },
    };
    let row: &VisibleRow = &rows[i];
    proof {
        assert(rows_view(rows@)[i as int] == row@);
    }
    if row.expandable {
        let mut set: Vec<String> = read_expanded_set(data);
        let ghost before = texts(set@);
        let text: String = path_to_string(&row.path);
        match place_of_text(set.as_slice(), text.as_str()) {
            Some(k) => {
                set.remove(k);
                proof {
                    assert(texts(set@) =~= before.remove(k as int));
                }
            },
            None => {
                set.push(text);
                proof {
                    assert(texts(set@) =~= before.push(text@));
                }
            },
        }
        out.push(write_at(path3("ui", "settings", "expanded"), expanded_set_to_value(&set)));
        proof {
            assert(writes_view(out@) =~= activate_writes(data@));
        }
        out
    } else {
        activate_leaf(&row.kind)
    }
}

/// Activating a collapsed row expands it, and activating it again collapses it,
/// leaving the expanded rows as they were.
pub proof fn activating_twice_restores(set: Seq<Seq<char>>, x: Seq<char>)
    requires
        !set.contains(x),
    ensures
        toggled_text(set, x).contains(x),
        toggled_text(toggled_text(set, x), x) == set,
{
    place_is_first(set, x);
    let more = set.push(x);
    assert(more[set.len() as int] == x);
    assert forall|j: int| 0 <= j < set.len() implies #[trigger] more[j] != x by {
        assert(set[j] == more[j]);
        assert(set.contains(set[j]));
    }
    place_unique(more, x, set.len() as int);
    assert(more.remove(set.len() as int) =~= set);
}

/// `set` without any occurrence of `x`.
pub open spec fn without_text(set: Seq<Seq<char>>, x: Seq<char>) -> Seq<Seq<char>>
    decreases set.len(),
{
    if set.len() == 0 {
        Seq::empty()
    } else if set.last() == x {
        without_text(set.drop_last(), x)
    } else {
        without_text(set.drop_last(), x).push(set.last())
    }
}

/// Taking a text out of a set takes out that text and keeps the others.
pub proof fn without_text_takes_out(set: Seq<Seq<char>>, x: Seq<char>, y: Seq<char>)
    ensures
        without_text(set, x).contains(y) <==> set.contains(y) && y != x,
    decreases set.len(),
{
    let w = without_text(set, x);
    if set.len() > 0 {
        let t = set.drop_last();
        without_text_takes_out(t, x, y);
        let rest = without_text(t, x);
        assert(set[set.len() - 1] == set.last());
        if set.contains(y) {
            let i = choose|i: int| 0 <= i < set.len() && set[i] == y;
            if i < t.len() {
                assert(t[i] == y);
            }
        }
        if t.contains(y) {
            let i = choose|i: int| 0 <= i < t.len() && t[i] == y;
            assert(set[i] == y);
        }
        if set.last() != x {
            assert(w[rest.len() as int] == set.last());
            if rest.contains(y) {
                let i = choose|i: int| 0 <= i < rest.len() && rest[i] == y;
                assert(w[i] == y);
            }
            if w.contains(y) {
                let i = choose|i: int| 0 <= i < w.len() && w[i] == y;
                if i < rest.len() {
                    assert(rest[i] == y);
                }
            }
        }
    }
}

fn without(set: &Vec<String>, x: &str) -> (r: Vec<String>)
    ensures
        texts(r@) == without_text(texts(set@), x@),
{
    let ghost all = texts(set@);
    let mut out: Vec<String> = Vec::new();
    let mut i: usize = 0;
    proof {
        assert(texts(out@) =~= without_text(all.subrange(0, 0), x@));
    }
    while i < set.len()
        invariant
            i <= set@.len(),
            all == texts(set@),
            texts(out@) == without_text(all.subrange(0, i as int), x@),
        decreases set@.len() - i,
    {
        let ghost before = texts(out@);
        proof {
            let t = all.subrange(0, i + 1);
            assert(t.drop_last() =~= all.subrange(0, i as int));
            assert(t.last() == set@[i as int]@);
        }
        if !same(set[i].as_str(), x) {
            out.push(set[i].clone());
            proof {
                assert(texts(out@) =~= before.push(set@[i as int]@));
            }
        }
        i += 1;
    }
    proof {
        assert(all.subrange(0, i as int) =~= all);
    }
    out
}

/// The nearest row above the `i`th that is not nested.
pub open spec fn top_above(rows: Seq<RowView>, i: int) -> Option<int>
    decreases i,
{
    if i <= 0 {
        None
    } else if rows[i - 1].depth == 0 {
        Some(i - 1)
    } else {
        top_above(rows, i - 1)
    }
}

/// The writes of going back from the focused row: an expanded row is collapsed,
/// a nested row gives the focus to the nearest row above it that is not nested,
/// and otherwise the screen is asked to close.
pub open spec fn collapse_writes(s: SnapshotView) -> Seq<WriteView> {
    let place = match path_at(s, focused_row_path()) {
        Some(c) => row_index(visible(s), c),
        None => None,
    };
    match place {
        None => seq![request_exit()],
        Some(i) => {
            let row = visible(s)[i];
            if row.expandable && row.expanded {
                seq![
                    put(
                        expanded_path(),
                        texts_value(without_text(expanded_set(s), path_text(row.path))),
                    ),
                ]
            } else if row.depth > 0 && top_above(visible(s), i) is Some {
                seq![put_path(focused_row_path(), visible(s)[top_above(visible(s), i)->0].path)]
            } else {
                seq![request_exit()]
            }
        },
    }
}

/// Goes back from the focused row.
pub fn collapse_or_ascend(data: &SettingsSnapshot) -> (r: Vec<Write>)
    ensures
        writes_view(r@) == collapse_writes(data@),
{
    let mut out: Vec<Write> = Vec::new();
    let found: Vec<VisibleRow> = enumerate(data);
    let rows: &Vec<VisibleRow> = &found;
    let ghost all = rows_view(rows@);
    let place: Option<usize> = match read_focused(data) {
        Some(c) => position_of(rows, &c),
        None => None,
    };
    match place {
        None => {
            out.push(exit_write());
        },
        Some(i) => {
            let row: &VisibleRow = &rows[i];
            proof {
                assert(all[i as int] == row@);
            }
            if row.expandable && row.expanded {
                let set: Vec<String> = read_expanded_set(data);
                let text: String = path_to_string(&row.path);
                let kept: Vec<String> = without(&set, text.as_str());
                out.push(
                    write_at(path3("ui", "settings", "expanded"), expanded_set_to_value(&kept)),
                );
            } else if row.depth > 0 {
                let mut k: usize = i;
                while k > 0 && rows[k - 1].depth != 0
                    invariant
                        k <= i < rows@.len(),
                        all == rows_view(rows@),
                        top_above(all, k as int) == top_above(all, i as int),
                    decreases k,
                {
                    proof {
                        assert(all[k - 1] == rows@[k - 1]@);
                    }
                    k -= 1;
                }
                if k > 0 {
                    proof {
                        assert(all[k - 1] == rows@[k - 1]@);
                    }
                    out.push(
                        write_at(
                            path3("ui", "settings", "focused_row"),
                            path_to_value(&rows[k - 1].path),
                        ),
                    );
                } else {
                    out.push(exit_write());
                }
            } else {
                out.push(exit_write());
            }
        },
    }
    proof {
        assert(writes_view(out@) =~= collapse_writes(data@));
    }
    out
}

proof fn lemma_top_above(rows: Seq<RowView>, i: int)
    requires
        0 < i < rows.len(),
        rows[0].depth == 0,
    ensures
        top_above(rows, i) is Some,
        0 <= top_above(rows, i)->0 < i,
        rows[top_above(rows, i)->0].depth == 0,
    decreases i,
{
    if rows[i - 1].depth != 0 {
        lemma_top_above(rows, i - 1);
    }
}

/// Going back from a nested row that is not expanded gives the focus to a
/// top-level row; it never closes the screen.
pub proof fn nested_rows_go_up(s: SnapshotView, cursor: Seq<Seq<char>>, i: int)
    requires
        path_at(s, focused_row_path()) == Some(cursor),
        row_index(visible(s), cursor) == Some(i),
        visible(s)[i].depth > 0,
        !(visible(s)[i].expandable && visible(s)[i].expanded),
    ensures
        top_above(visible(s), i) is Some,
        visible(s)[top_above(visible(s), i)->0].depth == 0,
        collapse_writes(s) == seq![
            put_path(focused_row_path(), visible(s)[top_above(visible(s), i)->0].path),
        ],
{
    row_index_is_first(visible(s), cursor);
    first_row_is_top_level(s);
    lemma_top_above(visible(s), i);
}

/// Going back always does exactly one thing.
pub proof fn going_back_does_one_thing(s: SnapshotView)
    ensures
        collapse_writes(s).len() == 1,
{
}

/// The commands of this group.
pub open spec fn tree_actions() -> Seq<Action> {
    seq![
        Action::TreeNext,
        Action::TreePrev,
        Action::TreeActivate,
        Action::TreeCollapseOrAscend,
    ]
}

/// Registers the commands of this group.
pub fn register(reg: &mut CommandRegistry<SettingsCommand>)
    ensures
        installed(old(reg)@, tree_actions(), final(reg)@),
        new_to(tree_actions(), old(reg)@) ==> final(reg)@.len() == old(reg)@.len() + tree_actions().len(),
{
    let actions: Vec<Action> = vec![
        Action::TreeNext,
        Action::TreePrev,
        Action::TreeActivate,
        Action::TreeCollapseOrAscend,
    ];
    proof {
        assert(actions@ =~= tree_actions());
    }
    install(reg, &actions);
}

} // verus!
