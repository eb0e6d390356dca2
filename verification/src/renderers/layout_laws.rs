//! How the settings tree is laid out on its page.

use crate::commands::compose::accounts_root;
use crate::commands::compose_form::compose_form;
use crate::path::leads;
use crate::renderers::util::path_at;
use crate::row_laws::rows_take_one_line;
use crate::snapshot::SnapshotView;
use crate::text::precedes;
use crate::value::ValueView;
use crate::view::{ItemView, NodeView, Sizing};
use crate::visible_rows::{visible, KindView, RowView};
use vstd::prelude::*;
use vstd::string::*;

use super::index::{
    accounts_len, accounts_section, as_height, children_lines, composing, empty_lines, header_child,
    index_page, insertion_point, items_lines, lines_before, models_section, node_lines,
    pending_target, row_items, section_view, stage_at_cursor, stage_prompt, valid_names,
    with_empty_lines, without_models, woven,
};

verus! {

/// The page is titled, and beside the title it says that there are unsaved
/// changes exactly while the store is marked so.
pub proof fn title_says_what_is_unsaved(s: SnapshotView)
    ensures
        ({
            let page = index_page(s);
            let dirty = s.at(seq!["config"@, "_dirty"@]) == Some(ValueView::Bool(true));
            &&& page is Frame
            &&& page->title == Some("Settings"@)
            &&& *page->content is Stack
            &&& (*page->content)->dir == crate::view::Direction::Vertical
            &&& dirty ==> page->title_right == Some("● unsaved · Ctrl+S"@)
            &&& !dirty ==> page->title_right is None
        }),
{
}

/// The rows part into two sections at the first row that is the entry of the
/// models.
pub proof fn sections_part_at_the_models(rows: Seq<RowView>)
    ensures
        0 <= accounts_len(rows) <= rows.len(),
        forall|i: int|
            0 <= i < accounts_len(rows) ==> (#[trigger] rows[i]).kind != (KindView::Entry {
                entry_id: "models"@,
            }),
        accounts_len(rows) < rows.len() ==> rows[accounts_len(rows)].kind == (KindView::Entry {
            entry_id: "models"@,
        }),
    decreases rows.len(),
{
    if rows.len() > 0 {
        let t = rows.drop_last();
        sections_part_at_the_models(t);
        assert forall|i: int| 0 <= i < t.len() implies #[trigger] rows[i] == t[i] by {}
        assert(rows[rows.len() - 1] == rows.last());
    }
}

/// The place of the first section among the parts of the page.
spec fn first_part(s: SnapshotView) -> int {
    if pending_target(s) is Some {
        1
    } else {
        0
    }
}

/// While a connection is being composed its form stands below the heading of the
/// connections, indented, with the row at the cursor focused. Otherwise, while
/// the connections are expanded, a line says how to open it, and while they are
/// not nothing but their heading is there. A heading takes a line, the form as
/// many as it has at least, and the rows what is left.
pub proof fn form_stands_below_the_heading(s: SnapshotView)
    requires
        accounts_len(visible(s)) > 0,
    ensures
        ({
            let children = (*index_page(s)->content)->Stack_children;
            let section = children[children.len() - 3].0;
            let parts = section->Stack_children;
            let cursor = path_at(s, seq!["ui"@, "settings"@, "focused"@]);
            let in_form = cursor is Some && leads(seq!["settings"@, "_compose_form"@], cursor->0);
            let open = visible(s)[0].expanded;
            &&& section is Stack
            &&& parts[0].0 is List && parts[0].0->List_items.len() == 1
                && parts[0].0->List_items[0].focus == Some(visible(s)[0].path)
            &&& in_form ==> {
                let block = parts[1].0->Stack_children;
                &&& parts[1].0 is Stack
                &&& block.len() == 2
                &&& block[1].0 is Pad
                &&& *block[1].0->child == (NodeView::Form {
                    title: None,
                    rows: compose_form(s).rows,
                    focused: compose_form(s).focused,
                })
            }
            &&& !in_form && open ==> parts[1].0 is List && parts[1].0->List_items.len() == 1
                && parts[1].0->List_items[0].primary == "    + New connection"@
            &&& !in_form && !open ==> parts.len() == 1
            &&& in_form && !open ==> parts.len() == 2
            &&& parts[0].1 == Sizing::Fixed(1)
            &&& in_form ==> parts[1].1 == Sizing::Min(6) && parts[1].0->Stack_children[0].1
                == Sizing::Fixed(1) && parts[1].0->Stack_children[1].1 == Sizing::Min(5)
                && parts[1].0->Stack_children[1].0->padding.left == 4
                && parts[1].0->Stack_children[0].0->List_items[0].primary
                == "    + New connection (Tab to navigate, Enter to create, Esc to cancel)"@
            &&& !in_form && open ==> parts[1].1 == Sizing::Fixed(1)
            &&& open && accounts_len(visible(s)) > 1 ==> parts.len() == 3 && parts[2].1
                == Sizing::Min(0)
        }),
{
    let n = accounts_len(visible(s));
    sections_part_at_the_models(visible(s));
    let children = (*index_page(s)->content)->Stack_children;
    let first = first_part(s);
    let ctx = section_view(s);
    let rows = visible(s).subrange(0, n);
    let section = accounts_section(rows, ctx, composing(s), compose_form(s));
    assert(children.len() == first + 3);
    assert(children[first].0 == section);
    let parts = section->Stack_children;
    assert(parts[0] == header_child(rows, ctx));
    assert(rows[0] == visible(s)[0]);
    assert(row_items(rows.subrange(0, 1), ctx)[0].focus == Some(rows[0].path));
}

proof fn lemma_single_lines(items: Seq<ItemView>)
    requires
        forall|i: int| 0 <= i < items.len() ==> (#[trigger] items[i]).secondary is None,
    ensures
        items_lines(items) == items.len(),
    decreases items.len(),
{
    if items.len() > 0 {
        let t = items.drop_last();
        assert forall|i: int| 0 <= i < t.len() implies (#[trigger] t[i]).secondary is None by {
            assert(t[i] == items[i]);
        }
        lemma_single_lines(t);
        assert(items[items.len() - 1].secondary is None);
    }
}

proof fn lemma_row_items_lines(s: SnapshotView, a: int, b: int)
    requires
        0 <= a <= b <= visible(s).len(),
    ensures
        items_lines(row_items(visible(s).subrange(a, b), section_view(s))) == b - a,
        forall|i: int|
            0 <= i < b - a ==> (#[trigger] row_items(
                visible(s).subrange(a, b),
                section_view(s),
            )[i]).secondary is None,
{
    let rows = visible(s).subrange(a, b);
    let items = row_items(rows, section_view(s));
    assert forall|i: int| 0 <= i < items.len() implies (#[trigger] items[i]).secondary is None by {
        rows_take_one_line(s, a + i);
        assert(rows[i] == visible(s)[a + i]);
    }
    lemma_single_lines(items);
}

/// The section of the connections is as high as what it shows: its heading, the
/// form with its own heading while a connection is composed, or else, while it
/// is expanded, the line that says how to open it, and a line for every row.
pub proof fn connections_are_as_high_as_their_lines(s: SnapshotView)
    requires
        accounts_len(visible(s)) > 0,
        visible(s).len() + 8 < 0x1_0000,
    ensures
        ({
            let children = (*index_page(s)->content)->Stack_children;
            let n = accounts_len(visible(s));
            let cursor = path_at(s, seq!["ui"@, "settings"@, "focused"@]);
            let in_form = cursor is Some && leads(seq!["settings"@, "_compose_form"@], cursor->0);
            let middle: int = if in_form {
                6
            } else if visible(s)[0].expanded {
                1
            } else {
                0
            };
            let below: int = if visible(s)[0].expanded {
                n - 1
            } else {
                0
            };
            children[children.len() - 3].1 == Sizing::Fixed((1 + middle + below) as u16)
        }),
{
    let n = accounts_len(visible(s));
    sections_part_at_the_models(visible(s));
    let children = (*index_page(s)->content)->Stack_children;
    let first = first_part(s);
    let ctx = section_view(s);
    let rows = visible(s).subrange(0, n);
    let section = accounts_section(rows, ctx, composing(s), compose_form(s));
    assert(children.len() == first + 3);
    assert(children[first] == (section, Sizing::Fixed(as_height(node_lines(section)))));
    let parts = section->Stack_children;
    assert(rows[0] == visible(s)[0]);
    assert(rows.subrange(0, 1) =~= visible(s).subrange(0, 1));
    assert(rows.subrange(1, n) =~= visible(s).subrange(1, n));
    lemma_row_items_lines(s, 0, 1);
    lemma_row_items_lines(s, 1, n);
    assert(parts[0] == header_child(rows, ctx));
    assert(node_lines(parts[0].0) == 1);
    reveal_with_fuel(children_lines, 4);
    reveal_with_fuel(node_lines, 3);
    if composing(s) {
        let block = parts[1].0;
        let inner = block->Stack_children;
        assert(inner.len() == 2);
        let line = inner[0].0->List_items;
        lemma_single_lines(line);
        assert(node_lines(inner[0].0) == 1);
        assert(node_lines(inner[1].0) == 5);
        assert(children_lines(inner, 1) == 1);
        assert(children_lines(inner, 2) == 6);
        assert(node_lines(block) == 6);
        if rows[0].expanded && n > 1 {
            assert(parts.len() == 3);
            assert(node_lines(parts[2].0) == n - 1);
            assert(children_lines(parts, 3) == 7 + n - 1);
        } else {
            assert(parts.len() == 2);
            assert(children_lines(parts, 2) == 7);
        }
    } else if rows[0].expanded {
        let line = parts[1].0->List_items;
        lemma_single_lines(line);
        assert(node_lines(parts[1].0) == 1);
        if n > 1 {
            assert(parts.len() == 3);
            assert(node_lines(parts[2].0) == n - 1);
            assert(children_lines(parts, 3) == 2 + n - 1);
        } else {
            assert(parts.len() == 2);
            assert(children_lines(parts, 2) == 2);
        }
    } else {
        assert(parts.len() == 1);
        assert(children_lines(parts, 1) == 1);
    }
}

/// How many of some names have their lines in front of one of the first `k`
/// items, or right behind them.
spec fn lines_up_to(
    rows: Seq<RowView>,
    names: Seq<Seq<char>>,
    empties: Seq<Seq<char>>,
    k: int,
) -> int
    decreases empties.len(),
{
    if empties.len() == 0 {
        0
    } else {
        lines_up_to(rows, names, empties.drop_last(), k) + if insertion_point(
            rows,
            names,
            empties.last(),
        ) <= k {
            2int
        } else {
            0int
        }
    }
}

proof fn lemma_lines_before_len(
    s: SnapshotView,
    rows: Seq<RowView>,
    names: Seq<Seq<char>>,
    empties: Seq<Seq<char>>,
    k: int,
)
    requires
        k >= 0,
    ensures
        lines_before(s, rows, names, empties, k).len() == lines_up_to(rows, names, empties, k) - (
        if k > 0 {
            lines_up_to(rows, names, empties, k - 1)
        } else {
            0
        }),
        forall|i: int|
            0 <= i < lines_before(s, rows, names, empties, k).len() ==> (#[trigger] lines_before(
                s,
                rows,
                names,
                empties,
                k,
            )[i]).secondary is None,
    decreases empties.len(),
{
    if empties.len() > 0 {
        let rest = empties.drop_last();
        lemma_lines_before_len(s, rows, names, rest, k);
        let before = lines_before(s, rows, names, rest, k);
        let pair = empty_lines(s, empties.last());
        let all = lines_before(s, rows, names, empties, k);
        assert forall|i: int| 0 <= i < all.len() implies (#[trigger] all[i]).secondary is None by {
            if i < before.len() {
                assert(all[i] == before[i]);
            } else {
                assert(all[i] == pair[i - before.len()]);
            }
        }
    }
}

proof fn lemma_woven_len(
    items: Seq<ItemView>,
    s: SnapshotView,
    rows: Seq<RowView>,
    names: Seq<Seq<char>>,
    empties: Seq<Seq<char>>,
    k: int,
)
    requires
        0 <= k <= items.len(),
        forall|i: int| 0 <= i < items.len() ==> (#[trigger] items[i]).secondary is None,
    ensures
        woven(items, s, rows, names, empties, k).len() == k + lines_up_to(rows, names, empties, k),
        forall|i: int|
            0 <= i < woven(items, s, rows, names, empties, k).len() ==> (#[trigger] woven(
                items,
                s,
                rows,
                names,
                empties,
                k,
            )[i]).secondary is None,
    decreases k,
{
    lemma_lines_before_len(s, rows, names, empties, k);
    if k > 0 {
        lemma_woven_len(items, s, rows, names, empties, k - 1);
        let before = woven(items, s, rows, names, empties, k - 1);
        let lines = lines_before(s, rows, names, empties, k);
        let all = woven(items, s, rows, names, empties, k);
        assert forall|i: int| 0 <= i < all.len() implies (#[trigger] all[i]).secondary is None by {
            if i < before.len() {
                assert(all[i] == before[i]);
            } else if i == before.len() {
                assert(all[i] == items[k - 1]);
            } else {
                assert(all[i] == lines[i - before.len() - 1]);
            }
        }
    }
}

proof fn lemma_all_lines(rows: Seq<RowView>, names: Seq<Seq<char>>, empties: Seq<Seq<char>>)
    ensures
        lines_up_to(rows, names, empties, rows.len() as int) == 2 * empties.len(),
    decreases empties.len(),
{
    if empties.len() > 0 {
        lemma_all_lines(rows, names, empties.drop_last());
        lines_stand_in_the_order_of_connections(rows, names, empties.last());
    }
}

/// The section of the models is as high as what it shows: its heading and, while
/// it is expanded, a line for every row and two for every connection without a
/// model.
pub proof fn models_are_as_high_as_their_lines(s: SnapshotView)
    requires
        accounts_len(visible(s)) < visible(s).len(),
        visible(s).len() + 2 * without_models(s, valid_names(s.children(accounts_root()))).len()
            < 0x1_0000,
    ensures
        ({
            let children = (*index_page(s)->content)->Stack_children;
            let n = accounts_len(visible(s));
            let empty = without_models(s, valid_names(s.children(accounts_root()))).len();
            let below: int = if visible(s)[n].expanded {
                visible(s).len() - n - 1 + 2 * empty
            } else {
                0
            };
            &&& children[children.len() - 2].1 == Sizing::Fixed((1 + below) as u16)
            &&& children[children.len() - 2].0 is Stack
            &&& children[children.len() - 2].0->Stack_children[0].1 == Sizing::Fixed(1)
            &&& visible(s)[n].expanded ==> children[children.len() - 2].0->Stack_children.len()
                == 2 && children[children.len() - 2].0->Stack_children[1].1 == Sizing::Min(0)
            &&& !visible(s)[n].expanded ==> children[children.len() - 2].0->Stack_children.len()
                == 1
            &&& children[children.len() - 1] == (NodeView::Empty, Sizing::Fill)
        }),
{
    let n = accounts_len(visible(s));
    let len = visible(s).len() as int;
    sections_part_at_the_models(visible(s));
    let children = (*index_page(s)->content)->Stack_children;
    let first = first_part(s);
    let ctx = section_view(s);
    let rows = visible(s).subrange(n, len);
    let section = models_section(s, rows, ctx);
    assert(children.len() == first + 3);
    assert(children[first + 1] == (section, Sizing::Fixed(as_height(node_lines(section)))));
    let parts = section->Stack_children;
    assert(rows[0] == visible(s)[n]);
    assert(rows.subrange(0, 1) =~= visible(s).subrange(n, n + 1));
    let below = rows.subrange(1, rows.len() as int);
    assert(below =~= visible(s).subrange(n + 1, len));
    lemma_row_items_lines(s, n, n + 1);
    lemma_row_items_lines(s, n + 1, len);
    let names = valid_names(s.children(accounts_root()));
    let empties = without_models(s, names);
    let items = row_items(below, ctx);
    lemma_woven_len(items, s, below, names, empties, items.len() as int);
    lemma_all_lines(below, names, empties);
    let all = with_empty_lines(items, s, below);
    lemma_single_lines(all);
    assert(parts[0] == header_child(rows, ctx));
    assert(node_lines(parts[0].0) == 1);
    reveal_with_fuel(children_lines, 3);
    if rows[0].expanded {
        assert(parts.len() == 2);
        assert(node_lines(parts[1].0) == all.len());
        assert(children_lines(parts, 2) == 1 + all.len());
    } else {
        assert(parts.len() == 1);
        assert(children_lines(parts, 1) == 1);
    }
}

/// The lines of a connection without models stand where the connection belongs
/// by its name: behind the models of every connection before it, and right
/// behind one of those where there are any.
pub proof fn lines_stand_in_the_order_of_connections(
    rows: Seq<RowView>,
    names: Seq<Seq<char>>,
    name: Seq<char>,
)
    ensures
        ({
            let k = insertion_point(rows, names, name) as int;
            &&& 0 <= k <= rows.len()
            &&& forall|i: int|
                k <= i < rows.len() && (#[trigger] rows[i]).kind is Model && names.contains(
                    rows[i].kind->Model_account,
                ) ==> !precedes(rows[i].kind->Model_account, name)
            &&& k > 0 ==> rows[k - 1].kind is Model && names.contains(
                rows[k - 1].kind->Model_account,
            ) && precedes(rows[k - 1].kind->Model_account, name)
        }),
    decreases rows.len(),
{
    if rows.len() > 0 {
        let t = rows.drop_last();
        lines_stand_in_the_order_of_connections(t, names, name);
        assert forall|i: int| 0 <= i < t.len() implies #[trigger] rows[i] == t[i] by {}
        assert(rows[rows.len() - 1] == rows.last());
    }
}

/// While a model is entered, the line below its connection asks for the part
/// that the cursor is at: the id, the context size or the output limit.
pub proof fn prompt_asks_for_the_part_at_the_cursor(s: SnapshotView)
    ensures
        ({
            let cursor = path_at(s, seq!["ui"@, "settings"@, "focused"@]);
            let prompt = stage_prompt(stage_at_cursor(s));
            &&& cursor == Some(seq!["settings"@, "_manual_model"@, "ctx"@]) ==> prompt
                == "Max context"@
            &&& cursor == Some(seq!["settings"@, "_manual_model"@, "out"@]) ==> prompt
                == "Max output"@
            &&& cursor != Some(seq!["settings"@, "_manual_model"@, "ctx"@]) && cursor != Some(
                seq!["settings"@, "_manual_model"@, "out"@],
            ) ==> prompt == "Model id"@
        }),
{
    reveal_strlit("id");
    reveal_strlit("ctx");
    reveal_strlit("out");
    assert("id"@.len() == 2 && "ctx"@.len() == 3 && "out"@.len() == 3);
    assert("ctx"@[0] == 'c' && "out"@[0] == 'o');
    let a = seq!["settings"@, "_manual_model"@, "id"@];
    let b = seq!["settings"@, "_manual_model"@, "ctx"@];
    let c = seq!["settings"@, "_manual_model"@, "out"@];
    assert(a[2] == "id"@ && b[2] == "ctx"@ && c[2] == "out"@);
}

/// An item takes one line, and another where it has a secondary text; a form
/// takes one for each row; padding adds its own above and below; a stack takes
/// what its children take; and nothing else takes any.
pub proof fn lines_are_counted(
    items: Seq<ItemView>,
    item: ItemView,
    children: Seq<(NodeView, Sizing)>,
    child: (NodeView, Sizing),
    v: NodeView,
)
    ensures
        items_lines(Seq::empty()) == 0,
        items_lines(items.push(item)) == items_lines(items) + (if item.secondary is Some {
            2nat
        } else {
            1nat
        }),
        v is List ==> node_lines(v) == items_lines(v->List_items),
        v is Form ==> node_lines(v) == v->Form_rows.len(),
        v is Pad ==> node_lines(v) == node_lines(*v->child) + v->padding.top + v->padding.bottom,
        v is Empty || v is Text || v is StatusBlock || v is Modal ==> node_lines(v) == 0,
        ({
            let all = children.push(child);
            let dir = crate::view::Direction::Vertical;
            node_lines(NodeView::Stack { dir, children: all }) == node_lines(
                NodeView::Stack { dir, children },
            ) + node_lines(child.0)
        }),
{
    assert(items.push(item).drop_last() =~= items);
    let all = children.push(child);
    lemma_children_before(children, all, children.len());
    assert(all[children.len() as int] == child);
    let dir = crate::view::Direction::Vertical;
    reveal_with_fuel(node_lines, 2);
    reveal_with_fuel(children_lines, 2);
    let before = NodeView::Stack { dir, children };
    let after = NodeView::Stack { dir, children: all };
    assert(node_lines(before) == children_lines(children, children.len()));
    assert(node_lines(after) == children_lines(all, all.len()));
    assert(children_lines(all, all.len()) == children_lines(all, children.len()) + node_lines(
        child.0,
    ));
}

proof fn lemma_children_before(
    a: Seq<(NodeView, Sizing)>,
    b: Seq<(NodeView, Sizing)>,
    n: nat,
)
    requires
        n <= a.len(),
        a.len() <= b.len(),
        forall|i: int| 0 <= i < a.len() ==> #[trigger] a[i] == b[i],
    ensures
        children_lines(a, n) == children_lines(b, n),
    decreases n,
{
    if n > 0 {
        lemma_children_before(a, b, (n - 1) as nat);
        assert(a[n - 1] == b[n - 1]);
    }
}

} // verus!
