//! Where a step, a turn or going back leads to.

use crate::assoc::{
    place_is_first, place_of, place_unique, putting_one_in_keeps_the_others,
    taking_one_out_keeps_the_others, what_is_taken_out_is_gone,
};
use crate::path::{component_ok, path_text};
use crate::renderers::highlighting::paths_distinct;
use crate::renderers::util::{
    bool_at, field_at, key_at, model_field_at, models_or_empty, path_at, text_at,
};
use crate::snapshot::{
    lasting, one_write_shows_at_its_path, untouched, writes_show_at_their_paths, written,
    SnapshotView,
};
use crate::types::{field_text_names_field, AccountField, ModelField, ModelKeyView, ModelView};
use crate::value::{texts_value_round_trip, ValueView};
use crate::visible_rows::{row_index_is_first, row_index_unique, visible, KindView, RowView};
use vstd::prelude::*;
use vstd::string::*;

use super::account_model::{stepped_field, stepped_model_field};
use super::compose::{accounts_root, turned, turns_undo_each_other, CycleDir};
use super::compose_laws::field_after;
use super::highlight::{
    accounts_step_writes, index_step_writes, keys_of_account, keys_of_accounts, list_target,
    models_step_writes, stepped, Direction,
};
use super::navigation::path_value_round_trip;
use super::tree::{
    activate_leaf_writes, activate_writes, collapse_writes, expanded_set, step_writes, toggled_text,
    top_above, without_text, without_text_takes_out,
};
use super::tree_laws::{cursors_ok, row_paths_are_well_formed};

verus! {

/// Turning a selector forward leads to the next option, and from the last to the
/// first; turning it back leads to the one before, and from the first to the
/// last.
pub proof fn turning_leads_to_the_neighbour(len: int, place: int)
    requires
        0 <= place < len,
    ensures
        turned(len, Some(place), CycleDir::Forward) == (if place == len - 1 {
            0
        } else {
            place + 1
        }),
        turned(len, Some(place), CycleDir::Back) == (if place == 0 {
            len - 1
        } else {
            place - 1
        }),
        turned(len, None, CycleDir::Forward) == 0,
        turned(len, None, CycleDir::Back) == len - 1,
{
    turns_undo_each_other(len, place);
    if place == len - 1 {
        assert((place + 1) % len == 0) by (nonlinear_arith)
            requires
                place + 1 == len,
                len > 0,
        ;
    } else {
        vstd::arithmetic::div_mod::lemma_small_mod((place + 1) as nat, len as nat);
    }
    if place == 0 {
        vstd::arithmetic::div_mod::lemma_mod_add_multiples_vanish(-1, len);
        vstd::arithmetic::div_mod::lemma_small_mod((len - 1) as nat, len as nat);
    } else {
        vstd::arithmetic::div_mod::lemma_small_mod((place - 1) as nat, len as nat);
    }
}

/// A step of a highlight leads to the next place, and from the last to the
/// first, or the other way round. A highlight beyond the end counts as at it.
pub proof fn stepping_leads_to_the_neighbour(current: int, count: int)
    requires
        count > 0,
        0 <= current,
    ensures
        current < count ==> stepped(current, count, Direction::Next) == (if current == count - 1 {
            0
        } else {
            current + 1
        }) && stepped(current, count, Direction::Prev) == (if current == 0 {
            count - 1
        } else {
            current - 1
        }),
        current >= count ==> stepped(current, count, Direction::Next) == 0 && stepped(
            current,
            count,
            Direction::Prev,
        ) == (if count == 1 {
            0
        } else {
            count - 2
        }),
{
    if current < count {
        turning_leads_to_the_neighbour(count, current);
    } else {
        turning_leads_to_the_neighbour(count, count - 1);
    }
}

/// The next row is the one right below the focused row, and from the last row
/// the first; the previous row is the one right above, and from the first row
/// the last. Nothing but the focused row changes.
pub proof fn stepping_moves_to_the_row_below_or_above(s: SnapshotView, i: int)
    requires
        cursors_ok(s),
        paths_distinct(visible(s)),
        0 <= i < visible(s).len(),
        path_at(s, seq!["ui"@, "settings"@, "focused_row"@]) == Some(visible(s)[i].path),
    ensures
        ({
            let place = seq!["ui"@, "settings"@, "focused_row"@];
            let rows = visible(s);
            let t = written(s, step_writes(s, Direction::Next));
            let u = written(s, step_writes(s, Direction::Prev));
            &&& i + 1 < rows.len() ==> path_at(t, place) == Some(rows[i + 1].path)
            &&& i + 1 == rows.len() ==> path_at(t, place) == Some(rows[0].path)
            &&& i > 0 ==> path_at(u, place) == Some(rows[i - 1].path)
            &&& i == 0 ==> path_at(u, place) == Some(rows[rows.len() - 1].path)
            &&& forall|x: Seq<Seq<char>>|
                x != place ==> #[trigger] t.at(x) == s.at(x) && #[trigger] u.at(x) == s.at(x)
        }),
{
    let rows = visible(s);
    let n = rows.len() as int;
    row_paths_are_well_formed(s);
    assert forall|j: int| 0 <= j < i implies (#[trigger] rows[j]).path != rows[i].path by {}
    row_index_unique(rows, rows[i].path, i);
    stepping_leads_to_the_neighbour(i, n);
    let next = stepped(i, n, Direction::Next);
    let prev = stepped(i, n, Direction::Prev);
    let w = step_writes(s, Direction::Next);
    let v = step_writes(s, Direction::Prev);
    assert(w =~= seq![w[0]]);
    assert(v =~= seq![v[0]]);
    one_write_shows_at_its_path(s, w[0]);
    one_write_shows_at_its_path(s, v[0]);
    path_value_round_trip(rows[next].path);
    path_value_round_trip(rows[prev].path);
}

/// Where nothing has the focus, or something that is no row, a step starts from
/// the first row.
pub proof fn stepping_starts_from_the_first_row(s: SnapshotView)
    requires
        cursors_ok(s),
        visible(s).len() > 0,
        forall|j: int|
            0 <= j < visible(s).len() ==> Some((#[trigger] visible(s)[j]).path) != path_at(
                s,
                seq!["ui"@, "settings"@, "focused_row"@],
            ),
    ensures
        ({
            let place = seq!["ui"@, "settings"@, "focused_row"@];
            let rows = visible(s);
            let t = written(s, step_writes(s, Direction::Next));
            let u = written(s, step_writes(s, Direction::Prev));
            &&& rows.len() > 1 ==> path_at(t, place) == Some(rows[1].path)
            &&& rows.len() == 1 ==> path_at(t, place) == Some(rows[0].path)
            &&& path_at(u, place) == Some(rows[rows.len() - 1].path)
        }),
{
    let rows = visible(s);
    let n = rows.len() as int;
    row_paths_are_well_formed(s);
    match path_at(s, seq!["ui"@, "settings"@, "focused_row"@]) {
        Some(c) => {
            row_index_is_first(rows, c);
        },
        None => {},
    }
    stepping_leads_to_the_neighbour(0, n);
    let w = step_writes(s, Direction::Next);
    let v = step_writes(s, Direction::Prev);
    assert(w =~= seq![w[0]]);
    assert(v =~= seq![v[0]]);
    one_write_shows_at_its_path(s, w[0]);
    one_write_shows_at_its_path(s, v[0]);
    path_value_round_trip(rows[stepped(0, n, Direction::Next)].path);
    path_value_round_trip(rows[stepped(0, n, Direction::Prev)].path);
}

/// The highlight of the index moves one place on or back among its entries,
/// round the ends.
pub proof fn index_highlight_moves_by_one(s: SnapshotView, i: int)
    requires
        ({
            let n = s.children(seq!["settings"@, "index"@, "entries"@]).len();
            &&& 0 <= i < n
            &&& n <= i64::MAX
            &&& s.at(seq!["ui"@, "settings"@, "index"@, "selected"@]) == Some(
                ValueView::Integer(i),
            )
        }),
        i <= usize::MAX,
    ensures
        ({
            let n = s.children(seq!["settings"@, "index"@, "entries"@]).len() as int;
            let place = seq!["ui"@, "settings"@, "index"@, "selected"@];
            let t = written(s, index_step_writes(s, Direction::Next));
            let u = written(s, index_step_writes(s, Direction::Prev));
            &&& t.at(place) == Some(
                ValueView::Integer(
                    if i + 1 < n {
                        i + 1
                    } else {
                        0
                    },
                ),
            )
            &&& u.at(place) == Some(
                ValueView::Integer(
                    if i > 0 {
                        i - 1
                    } else {
                        n - 1
                    },
                ),
            )
        }),
{
    let n = s.children(seq!["settings"@, "index"@, "entries"@]).len() as int;
    assert(seq!["settings"@, "index"@, "entries"@] == super::highlight::index_entries());
    stepping_leads_to_the_neighbour(i, n);
    let w = index_step_writes(s, Direction::Next);
    let v = index_step_writes(s, Direction::Prev);
    assert(w =~= seq![w[0]]);
    assert(v =~= seq![v[0]]);
    one_write_shows_at_its_path(s, w[0]);
    one_write_shows_at_its_path(s, v[0]);
}

/// The highlight among the connections moves to the next or the previous
/// connection, round the ends, and to the first where none is highlighted.
pub proof fn connection_highlight_moves_by_one(s: SnapshotView, names: Seq<Seq<char>>, i: int)
    requires
        names == s.children(seq!["config"@, "gate"@, "accounts"@]),
        0 <= i < names.len(),
        text_at(s, seq!["ui"@, "settings"@, "accounts"@, "selected"@]) is None || (text_at(
            s,
            seq!["ui"@, "settings"@, "accounts"@, "selected"@],
        ) == Some(names[i]) && (forall|j: int| 0 <= j < i ==> #[trigger] names[j] != names[i])),
    ensures
        ({
            let place = seq!["ui"@, "settings"@, "accounts"@, "selected"@];
            let n = names.len() as int;
            let t = written(s, accounts_step_writes(s, Direction::Next));
            let u = written(s, accounts_step_writes(s, Direction::Prev));
            &&& text_at(s, place) is None ==> text_at(t, place) == Some(names[0]) && text_at(
                u,
                place,
            ) == Some(names[0])
            &&& text_at(s, place) is Some ==> text_at(t, place) == Some(
                names[if i + 1 < n {
                    i + 1
                } else {
                    0
                }],
            ) && text_at(u, place) == Some(
                names[if i > 0 {
                    i - 1
                } else {
                    n - 1
                }],
            )
            &&& forall|x: Seq<Seq<char>>|
                x != place ==> #[trigger] t.at(x) == s.at(x) && #[trigger] u.at(x) == s.at(x)
        }),
{
    assert(names == s.children(accounts_root()));
    stepping_leads_to_the_neighbour(i, names.len() as int);
    if text_at(s, seq!["ui"@, "settings"@, "accounts"@, "selected"@]) is Some {
        place_unique(names, names[i], i);
    }
    let w = accounts_step_writes(s, Direction::Next);
    let v = accounts_step_writes(s, Direction::Prev);
    assert(w =~= seq![w[0]]);
    assert(v =~= seq![v[0]]);
    one_write_shows_at_its_path(s, w[0]);
    one_write_shows_at_its_path(s, v[0]);
}

/// The highlight among the models moves to the next or the previous model in the
/// list of all models, round the ends, and to the first where none is
/// highlighted.
pub proof fn model_highlight_moves_by_one(s: SnapshotView, keys: Seq<ModelKeyView>, i: int)
    requires
        keys == keys_of_accounts(s, s.children(seq!["config"@, "gate"@, "accounts"@])),
        0 <= i < keys.len(),
        key_at(s, seq!["ui"@, "settings"@, "models"@, "selected"@]) is None || (key_at(
            s,
            seq!["ui"@, "settings"@, "models"@, "selected"@],
        ) == Some(keys[i]) && (forall|j: int| 0 <= j < i ==> #[trigger] keys[j] != keys[i])),
    ensures
        ({
            let place = seq!["ui"@, "settings"@, "models"@, "selected"@];
            let n = keys.len() as int;
            let t = written(s, models_step_writes(s, Direction::Next));
            let u = written(s, models_step_writes(s, Direction::Prev));
            &&& key_at(s, place) is None ==> key_at(t, place) == Some(keys[0]) && key_at(u, place)
                == Some(keys[0])
            &&& key_at(s, place) is Some ==> key_at(t, place) == Some(
                keys[if i + 1 < n {
                    i + 1
                } else {
                    0
                }],
            ) && key_at(u, place) == Some(
                keys[if i > 0 {
                    i - 1
                } else {
                    n - 1
                }],
            )
            &&& forall|x: Seq<Seq<char>>|
                x != place ==> #[trigger] t.at(x) == s.at(x) && #[trigger] u.at(x) == s.at(x)
        }),
{
    assert(s.children(seq!["config"@, "gate"@, "accounts"@]) == s.children(accounts_root()));
    stepping_leads_to_the_neighbour(i, keys.len() as int);
    if key_at(s, seq!["ui"@, "settings"@, "models"@, "selected"@]) is Some {
        place_unique(keys, keys[i], i);
    }
    let w = models_step_writes(s, Direction::Next);
    let v = models_step_writes(s, Direction::Prev);
    assert(w =~= seq![w[0]]);
    assert(v =~= seq![v[0]]);
    one_write_shows_at_its_path(s, w[0]);
    one_write_shows_at_its_path(s, v[0]);
}

/// The focus of a connection's page moves through the name, the protocol, the
/// endpoint, the scheme and the key, round the ends; that of a model's page
/// between its two figures.
pub proof fn page_focus_moves_in_order(s: SnapshotView)
    ensures
        ({
            let f = match field_at(
                s,
                seq!["ui"@, "settings"@, "account_detail"@, "field"@],
            ) {
                Some(f) => f,
                None => AccountField::Name,
            };
            &&& stepped_field(s, 1) == field_after(f)
            &&& field_after(stepped_field(s, -1)) == f
        }),
        ({
            let m = match model_field_at(s, seq!["ui"@, "settings"@, "model_detail"@, "field"@]) {
                Some(m) => m,
                None => ModelField::ContextSizeOverride,
            };
            &&& stepped_model_field(s, 1) != m
            &&& stepped_model_field(s, -1) != m
        }),
{
}

/// Activating a row that can be expanded expands it or collapses it: its path
/// joins the expanded ones, or leaves them. Every other path stays among them or
/// not, and nothing else changes.
pub proof fn activating_expands_or_collapses(s: SnapshotView, i: int, y: Seq<char>)
    requires
        paths_distinct(visible(s)),
        0 <= i < visible(s).len(),
        path_at(s, seq!["ui"@, "settings"@, "focused_row"@]) == Some(visible(s)[i].path),
        visible(s)[i].expandable,
    ensures
        ({
            let x = path_text(visible(s)[i].path);
            let before = expanded_set(s);
            let t = written(s, activate_writes(s));
            let after = expanded_set(t);
            &&& !before.contains(x) ==> after.contains(x)
            &&& before.contains(x) && before.no_duplicates() ==> !after.contains(x)
            &&& y != x ==> (after.contains(y) <==> before.contains(y))
            &&& forall|p: Seq<Seq<char>>|
                p != seq!["ui"@, "settings"@, "expanded"@] ==> #[trigger] t.at(p) == s.at(p)
        }),
{
    let rows = visible(s);
    let x = path_text(rows[i].path);
    let before = expanded_set(s);
    assert forall|j: int| 0 <= j < i implies (#[trigger] rows[j]).path != rows[i].path by {}
    row_index_unique(rows, rows[i].path, i);
    let w = activate_writes(s);
    assert(w =~= seq![w[0]]);
    one_write_shows_at_its_path(s, w[0]);
    let after = toggled_text(before, x);
    texts_value_round_trip(after);
    assert(expanded_set(written(s, w)) == after);
    place_is_first(before, x);
    match place_of(before, x) {
        Some(k) => {
            if y != x {
                taking_one_out_keeps_the_others(before, k, y);
            }
            if before.no_duplicates() {
                what_is_taken_out_is_gone(before, k);
            }
        },
        None => {
            putting_one_in_keeps_the_others(before, x, y);
            putting_one_in_keeps_the_others(before, x, x);
        },
    }
}

proof fn lemma_leaf_words()
    ensures
        "selected"@.len() == 8,
        "field"@.len() == 5,
        "edit_cursor"@.len() == 11,
        "edit_mode"@.len() == 9,
        "cursor"@.len() == 6,
        crate::path::component_ok("settings"@),
        crate::path::component_ok("accounts"@),
        crate::path::component_ok("models"@),
        crate::path::component_ok("_detail"@),
{
    reveal_strlit("selected");
    reveal_strlit("field");
    reveal_strlit("edit_cursor");
    reveal_strlit("edit_mode");
    reveal_strlit("cursor");
    reveal_strlit("settings");
    reveal_strlit("accounts");
    reveal_strlit("models");
    reveal_strlit("_detail");
}

/// Activating the row of a connection's field selects the connection and the
/// field. An endpoint or a key is then edited in its row, with the text cursor
/// behind everything; the other fields are shown on the connection's page.
pub proof fn activating_a_field_selects_it(
    s: SnapshotView,
    account: Seq<char>,
    field: AccountField,
)
    ensures
        ({
            let t = written(
                s,
                activate_leaf_writes(KindView::AccountField { account, field }),
            );
            let inline = field == AccountField::Endpoint || field == AccountField::Key;
            let mode = seq!["ui"@, "settings"@, "edit_mode"@];
            let cursor = seq!["ui"@, "settings"@, "cursor"@];
            &&& text_at(t, seq!["ui"@, "settings"@, "accounts"@, "selected"@]) == Some(account)
            &&& field_at(t, seq!["ui"@, "settings"@, "account_detail"@, "field"@]) == Some(field)
            &&& inline ==> bool_at(t, mode) == Some(true) && t.at(cursor) == s.at(cursor) && t.at(
                seq!["ui"@, "settings"@, "edit_cursor"@],
            ) == Some(ValueView::Integer(i64::MAX as int))
            &&& !inline ==> t.at(mode) == s.at(mode) && path_at(t, cursor) == Some(
                seq!["settings"@, "accounts"@, "_detail"@],
            )
        }),
{
    lemma_leaf_words();
    let w = activate_leaf_writes(KindView::AccountField { account, field });
    let mode = seq!["ui"@, "settings"@, "edit_mode"@];
    let cursor = seq!["ui"@, "settings"@, "cursor"@];
    writes_show_at_their_paths(s, w);
    field_text_names_field(field);
    assert(mode[2] == "edit_mode"@ && cursor[2] == "cursor"@);
    assert(w[0].path[3] == "selected"@ && w[0].path.len() == 4);
    assert(w[1].path[3] == "field"@ && w[1].path.len() == 4);
    assert(w[2].path.len() == 3);
    assert(w[0].path == seq!["ui"@, "settings"@, "accounts"@, "selected"@]);
    assert(w[1].path == seq!["ui"@, "settings"@, "account_detail"@, "field"@]);
    assert(lasting(w, 0));
    assert(lasting(w, 1));
    if field == AccountField::Endpoint || field == AccountField::Key {
        assert(w[2].path == seq!["ui"@, "settings"@, "edit_cursor"@]);
        assert(w[2].path[2] == "edit_cursor"@);
        assert(w[3].path == mode);
        assert(lasting(w, 2));
        assert(lasting(w, 3));
        assert(untouched(w, cursor));
    } else {
        assert(w[2].path == cursor);
        assert(lasting(w, 2));
        assert(untouched(w, mode));
        let page = seq!["settings"@, "accounts"@, "_detail"@];
        assert(crate::path::path_ok(page)) by {
            assert forall|i: int| 0 <= i < page.len() implies crate::path::component_ok(
                #[trigger] page[i],
            ) by {}
        }
        path_value_round_trip(page);
    }
}

/// Activating the row of a model's figure selects the model and the figure, and
/// shows the model's page.
pub proof fn activating_a_figure_selects_it(
    s: SnapshotView,
    account: Seq<char>,
    model_id: Seq<char>,
    field: ModelField,
)
    ensures
        ({
            let t = written(
                s,
                activate_leaf_writes(KindView::ModelField { account, model_id, field }),
            );
            &&& key_at(t, seq!["ui"@, "settings"@, "models"@, "selected"@]) == Some(
                ModelKeyView { account, model_id },
            )
            &&& model_field_at(t, seq!["ui"@, "settings"@, "model_detail"@, "field"@]) == Some(
                field,
            )
            &&& path_at(t, seq!["ui"@, "settings"@, "cursor"@]) == Some(
                seq!["settings"@, "models"@, "_detail"@],
            )
        }),
{
    lemma_leaf_words();
    let w = activate_leaf_writes(KindView::ModelField { account, model_id, field });
    writes_show_at_their_paths(s, w);
    assert(w[0].path[3] == "selected"@ && w[0].path.len() == 4);
    assert(w[1].path[3] == "field"@ && w[1].path.len() == 4);
    assert(w[2].path.len() == 3);
    assert(w[0].path == seq!["ui"@, "settings"@, "models"@, "selected"@]);
    assert(w[1].path == seq!["ui"@, "settings"@, "model_detail"@, "field"@]);
    assert(w[2].path == seq!["ui"@, "settings"@, "cursor"@]);
    assert(lasting(w, 0));
    assert(lasting(w, 1));
    assert(lasting(w, 2));
    let page = seq!["settings"@, "models"@, "_detail"@];
    assert(crate::path::path_ok(page)) by {
        assert forall|i: int| 0 <= i < page.len() implies crate::path::component_ok(
            #[trigger] page[i],
        ) by {}
    }
    path_value_round_trip(page);
}

/// Activating a row that is no field and cannot be expanded, or no row at all,
/// does nothing.
pub proof fn nothing_to_activate_nothing_happens(s: SnapshotView)
    requires
        forall|j: int|
            0 <= j < visible(s).len() ==> Some((#[trigger] visible(s)[j]).path) != path_at(
                s,
                seq!["ui"@, "settings"@, "focused_row"@],
            ),
    ensures
        activate_writes(s).len() == 0,
{
    match path_at(s, seq!["ui"@, "settings"@, "focused_row"@]) {
        Some(c) => {
            row_index_is_first(visible(s), c);
        },
        None => {},
    }
}

proof fn lemma_top_above_is_nearest(rows: Seq<RowView>, i: int)
    requires
        0 <= i < rows.len(),
    ensures
        match top_above(rows, i) {
            Some(k) => 0 <= k < i && rows[k].depth == 0 && forall|j: int|
                k < j < i ==> (#[trigger] rows[j]).depth > 0,
            None => forall|j: int| 0 <= j < i ==> (#[trigger] rows[j]).depth > 0,
        },
    decreases i,
{
    if i > 0 && rows[i - 1].depth != 0 {
        lemma_top_above_is_nearest(rows, i - 1);
    }
}

/// Going back from an expanded row collapses it and changes nothing else.
/// Going back from another nested row puts the focus on the nearest row above it
/// that is not nested. Going back from any other row asks to leave the screen.
pub proof fn going_back_collapses_or_goes_up(s: SnapshotView, i: int, k: int, y: Seq<char>)
    requires
        cursors_ok(s),
        paths_distinct(visible(s)),
        0 <= i < visible(s).len(),
        path_at(s, seq!["ui"@, "settings"@, "focused_row"@]) == Some(visible(s)[i].path),
        visible(s)[i].depth > 0 ==> 0 <= k < i && visible(s)[k].depth == 0 && (forall|j: int|
            k < j < i ==> (#[trigger] visible(s)[j]).depth > 0),
    ensures
        ({
            let row = visible(s)[i];
            let x = path_text(row.path);
            let t = written(s, collapse_writes(s));
            let open = row.expandable && row.expanded;
            &&& open ==> !expanded_set(t).contains(x) && (y != x ==> (expanded_set(t).contains(y)
                <==> expanded_set(s).contains(y))) && t.at(
                seq!["ui"@, "settings"@, "focused_row"@],
            ) == s.at(seq!["ui"@, "settings"@, "focused_row"@])
            &&& !open && row.depth > 0 ==> path_at(
                t,
                seq!["ui"@, "settings"@, "focused_row"@],
            ) == Some(visible(s)[k].path)
            &&& !open && row.depth == 0 ==> bool_at(
                t,
                seq!["ui"@, "settings"@, "_request_exit"@],
            ) == Some(true)
        }),
{
    let rows = visible(s);
    let row = rows[i];
    let x = path_text(row.path);
    assert forall|j: int| 0 <= j < i implies (#[trigger] rows[j]).path != rows[i].path by {}
    row_index_unique(rows, row.path, i);
    row_paths_are_well_formed(s);
    lemma_top_above_is_nearest(rows, i);
    let w = collapse_writes(s);
    assert(w =~= seq![w[0]]);
    one_write_shows_at_its_path(s, w[0]);
    if row.expandable && row.expanded {
        let after = without_text(expanded_set(s), x);
        texts_value_round_trip(after);
        without_text_takes_out(expanded_set(s), x, x);
        without_text_takes_out(expanded_set(s), x, y);
        reveal_strlit("expanded");
        reveal_strlit("focused_row");
        assert("expanded"@.len() == 8 && "focused_row"@.len() == 11);
        assert(w[0].path[2] == "expanded"@);
        assert(seq!["ui"@, "settings"@, "focused_row"@][2] == "focused_row"@);
    } else if row.depth > 0 {
        match top_above(rows, i) {
            Some(m) => {
                if m < k {
                    assert(rows[k].depth > 0);
                } else if k < m {
                    assert(rows[m].depth > 0);
                }
                path_value_round_trip(rows[k].path);
            },
            None => {
                assert(rows[k].depth > 0);
            },
        }
    }
}

/// A highlighted connection or model that is gone from its list counts as the
/// first of it.
pub proof fn lost_highlights_count_as_first<T>(list: Seq<T>, x: T)
    requires
        list.len() > 0,
        !list.contains(x),
    ensures
        list_target(list, Some(x), Direction::Next) == (if list.len() == 1 {
            0
        } else {
            1int
        }),
        list_target(list, Some(x), Direction::Prev) == list.len() - 1,
        list_target(list, None, Direction::Next) == 0,
        list_target(list, None, Direction::Prev) == 0,
{
    place_is_first(list, x);
    stepping_leads_to_the_neighbour(0, list.len() as int);
}

/// The models that can be highlighted are those of the catalogs of the
/// connections whose names may stand in a path, and no others.
pub proof fn models_of_all_catalogs_can_be_highlighted(
    s: SnapshotView,
    names: Seq<Seq<char>>,
    k: ModelKeyView,
    models: Seq<ModelView>,
)
    requires
        models == models_or_empty(s, seq!["config"@, "gate"@, "accounts"@, k.account, "models"@]),
    ensures
        keys_of_accounts(s, names).contains(k) <==> names.contains(k.account) && component_ok(
            k.account,
        ) && exists|i: int| 0 <= i < models.len() && (#[trigger] models[i]).id == k.model_id,
    decreases names.len(),
{
    if names.len() > 0 {
        let rest = names.drop_last();
        let last = names.last();
        models_of_all_catalogs_can_be_highlighted(s, rest, k, models);
        let before = keys_of_accounts(s, rest);
        let here = keys_of_account(s, last);
        let all = keys_of_accounts(s, names);
        assert(names[names.len() - 1] == last);
        if all.contains(k) {
            let m = choose|m: int| 0 <= m < all.len() && all[m] == k;
            if m < before.len() {
                assert(before[m] == k);
                let j = choose|j: int| 0 <= j < rest.len() && rest[j] == k.account;
                assert(names[j] == k.account);
            } else {
                assert(here[m - before.len()] == k);
                assert(models[m - before.len()].id == k.model_id);
            }
        }
        if names.contains(k.account) && component_ok(k.account) && (exists|i: int|
            0 <= i < models.len() && (#[trigger] models[i]).id == k.model_id) {
            let i = choose|i: int| 0 <= i < models.len() && (#[trigger] models[i]).id == k.model_id;
            if last == k.account {
                assert(here[i] == k);
                assert(all[before.len() + i] == k);
            } else {
                let j = choose|j: int| 0 <= j < names.len() && names[j] == k.account;
                assert(rest[j] == k.account);
                let m = choose|m: int| 0 <= m < before.len() && before[m] == k;
                assert(all[m] == k);
            }
        }
    }
}

/// Where there is nothing to go through, going on or back does nothing; and where
/// no row has the focus, going back asks to leave the screen.
pub proof fn nowhere_to_go_nothing_happens(s: SnapshotView, direction: Direction)
    ensures
        visible(s).len() == 0 ==> step_writes(s, direction).len() == 0,
        s.children(seq!["settings"@, "index"@, "entries"@]).len() == 0 ==> index_step_writes(
            s,
            direction,
        ).len() == 0,
        s.children(seq!["config"@, "gate"@, "accounts"@]).len() == 0 ==> accounts_step_writes(
            s,
            direction,
        ).len() == 0 && models_step_writes(s, direction).len() == 0,
        path_at(s, seq!["ui"@, "settings"@, "focused_row"@]) is None ==> bool_at(
            written(s, collapse_writes(s)),
            seq!["ui"@, "settings"@, "_request_exit"@],
        ) == Some(true),
{
    assert(seq!["settings"@, "index"@, "entries"@] == super::highlight::index_entries());
    assert(seq!["config"@, "gate"@, "accounts"@] == accounts_root());
    let w = collapse_writes(s);
    if path_at(s, seq!["ui"@, "settings"@, "focused_row"@]) is None {
        assert(w =~= seq![w[0]]);
        one_write_shows_at_its_path(s, w[0]);
    }
}

} // verus!
