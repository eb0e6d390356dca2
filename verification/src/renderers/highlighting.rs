//! Where on the index the focus shows.

use crate::assoc::{place_is_first, place_of};
use crate::commands::compose::accounts_root;
use crate::commands::compose_form::compose_form;
use crate::snapshot::SnapshotView;
use crate::view::{FormLayoutView, ItemView, NodeView, Sizing};
use crate::visible_rows::{visible, RowView};
use vstd::prelude::*;

use super::index::{
    accounts_len, accounts_section, compose_block, composing, focuses, header_child, index_page,
    item_list, lines_before, models_section, one_line, pending_target, row_items, section_view,
    selected_item, valid_names, with_empty_lines, without_models, woven, SectionView,
};

verus! {

/// The lists of a node that highlight an item.
pub open spec fn highlights(v: NodeView) -> nat
    decreases v, 0nat,
{
    match v {
        NodeView::List { selected, .. } => if selected is Some {
            1
        } else {
            0
        },
        NodeView::Stack { children, .. } => children_highlights(children, children.len()),
        NodeView::Frame { content, .. } => highlights(*content),
        NodeView::Pad { child, .. } => highlights(*child),
        NodeView::Modal { background, foreground, .. } => highlights(*background) + highlights(
            *foreground,
        ),
        _ => 0,
    }
}

/// The lists in the first `n` children of a stack that highlight an item.
pub open spec fn children_highlights(children: Seq<(NodeView, Sizing)>, n: nat) -> nat
    decreases children, n,
{
    if n == 0 || n > children.len() {
        0
    } else {
        children_highlights(children, (n - 1) as nat) + highlights(children[n - 1].0)
    }
}

/// Whether one of the rows is at the cursor.
spec fn holds(rows: Seq<RowView>, cursor: Option<Seq<Seq<char>>>) -> bool {
    exists|i: int| 0 <= i < rows.len() && Some((#[trigger] rows[i]).path) == cursor
}

/// Whether every item that can take the focus stands for one of the rows.
spec fn stand_for(items: Seq<ItemView>, rows: Seq<RowView>) -> bool {
    forall|k: int|
        0 <= k < items.len() && (#[trigger] items[k]).focus is Some ==> holds(rows, items[k].focus)
}

proof fn lemma_highlighted_stands_for(
    items: Seq<ItemView>,
    rows: Seq<RowView>,
    cursor: Option<Seq<Seq<char>>>,
)
    requires
        stand_for(items, rows),
    ensures
        highlights(item_list(items, cursor)) <= 1,
        highlights(item_list(items, cursor)) > 0 ==> cursor is Some && holds(rows, cursor),
{
    if selected_item(items, cursor) is Some {
        place_is_first(focuses(items), cursor);
        let k = place_of(focuses(items), cursor)->0;
        assert(focuses(items)[k] == items[k].focus);
        assert(items[k].focus == cursor);
    }
}

proof fn lemma_row_items_stand_for(rows: Seq<RowView>, ctx: SectionView)
    ensures
        stand_for(row_items(rows, ctx), rows),
{
    let items = row_items(rows, ctx);
    assert forall|k: int| 0 <= k < items.len() && (#[trigger] items[k]).focus is Some implies holds(
        rows,
        items[k].focus,
    ) by {
        assert(Some(rows[k].path) == items[k].focus);
    }
}

proof fn lemma_lines_cannot_be_focused(
    s: SnapshotView,
    rows: Seq<RowView>,
    names: Seq<Seq<char>>,
    empties: Seq<Seq<char>>,
    k: int,
)
    ensures
        forall|m: int|
            0 <= m < lines_before(s, rows, names, empties, k).len() ==> (#[trigger] lines_before(
                s,
                rows,
                names,
                empties,
                k,
            )[m]).focus is None,
    decreases empties.len(),
{
    if empties.len() > 0 {
        lemma_lines_cannot_be_focused(s, rows, names, empties.drop_last(), k);
    }
}

proof fn lemma_woven_stand_for(
    items: Seq<ItemView>,
    s: SnapshotView,
    rows: Seq<RowView>,
    names: Seq<Seq<char>>,
    empties: Seq<Seq<char>>,
    k: int,
)
    requires
        k <= items.len(),
        stand_for(items, rows),
    ensures
        stand_for(woven(items, s, rows, names, empties, k), rows),
    decreases k,
{
    lemma_lines_cannot_be_focused(s, rows, names, empties, if k <= 0 {
        0
    } else {
        k
    });
    if k > 0 {
        lemma_woven_stand_for(items, s, rows, names, empties, k - 1);
        let before = woven(items, s, rows, names, empties, k - 1);
        let all = woven(items, s, rows, names, empties, k);
        assert forall|m: int| 0 <= m < all.len() && (#[trigger] all[m]).focus is Some implies holds(
            rows,
            all[m].focus,
        ) by {
            if m < before.len() {
                assert(all[m] == before[m]);
            } else if m == before.len() {
                assert(all[m] == items[k - 1]);
            } else {
                assert(all[m] == lines_before(s, rows, names, empties, k)[m - before.len() - 1]);
            }
        }
    }
}

/// Whether no two rows share a path.
pub open spec fn paths_distinct(rows: Seq<RowView>) -> bool {
    forall|i: int, j: int|
        0 <= i < j < rows.len() ==> (#[trigger] rows[i]).path != (#[trigger] rows[j]).path
}

proof fn lemma_held_apart(
    rows: Seq<RowView>,
    cursor: Option<Seq<Seq<char>>>,
    a: int,
    b: int,
    c: int,
    d: int,
)
    requires
        paths_distinct(rows),
        0 <= a <= b <= c <= d <= rows.len(),
        cursor is Some,
    ensures
        !(holds(rows.subrange(a, b), cursor) && holds(rows.subrange(c, d), cursor)),
{
    let (x, y) = (rows.subrange(a, b), rows.subrange(c, d));
    if holds(x, cursor) && holds(y, cursor) {
        let i = choose|i: int| 0 <= i < x.len() && Some((#[trigger] x[i]).path) == cursor;
        let j = choose|j: int| 0 <= j < y.len() && Some((#[trigger] y[j]).path) == cursor;
        assert(x[i] == rows[a + i]);
        assert(y[j] == rows[c + j]);
    }
}

proof fn lemma_held_within(
    rows: Seq<RowView>,
    cursor: Option<Seq<Seq<char>>>,
    a: int,
    b: int,
)
    requires
        0 <= a <= b <= rows.len(),
        holds(rows.subrange(a, b), cursor),
    ensures
        holds(rows, cursor),
{
    let x = rows.subrange(a, b);
    let i = choose|i: int| 0 <= i < x.len() && Some((#[trigger] x[i]).path) == cursor;
    assert(Some(rows[a + i].path) == cursor);
}

proof fn lemma_few_children(children: Seq<(NodeView, Sizing)>)
    requires
        children.len() <= 3,
    ensures
        children.len() == 0 ==> children_highlights(children, 0) == 0,
        children.len() == 1 ==> children_highlights(children, 1) == highlights(children[0].0),
        children.len() == 2 ==> children_highlights(children, 2) == highlights(children[0].0)
            + highlights(children[1].0),
        children.len() == 3 ==> children_highlights(children, 3) == highlights(children[0].0)
            + highlights(children[1].0) + highlights(children[2].0),
{
    reveal_with_fuel(children_highlights, 4);
}

proof fn lemma_header(rows: Seq<RowView>, ctx: SectionView)
    requires
        rows.len() > 0,
    ensures
        highlights(header_child(rows, ctx).0) <= 1,
        highlights(header_child(rows, ctx).0) > 0 ==> ctx.cursor is Some && holds(
            rows.subrange(0, 1),
            ctx.cursor,
        ),
{
    lemma_row_items_stand_for(rows.subrange(0, 1), ctx);
    lemma_highlighted_stands_for(row_items(rows.subrange(0, 1), ctx), rows.subrange(0, 1), ctx.cursor);
}

proof fn lemma_accounts(rows: Seq<RowView>, ctx: SectionView, active: bool, form: FormLayoutView)
    requires
        paths_distinct(rows),
    ensures
        highlights(accounts_section(rows, ctx, active, form)) <= 1,
        highlights(accounts_section(rows, ctx, active, form)) > 0 ==> ctx.cursor is Some && holds(
            rows,
            ctx.cursor,
        ),
{
    let section = accounts_section(rows, ctx, active, form);
    let children = section->Stack_children;
    if rows.len() > 0 {
        let below = rows.subrange(1, rows.len() as int);
        lemma_header(rows, ctx);
        lemma_row_items_stand_for(below, ctx);
        lemma_highlighted_stands_for(row_items(below, ctx), below, ctx.cursor);
        if ctx.cursor is Some {
            lemma_held_apart(rows, ctx.cursor, 0, 1, 1, rows.len() as int);
            if holds(rows.subrange(0, 1), ctx.cursor) {
                lemma_held_within(rows, ctx.cursor, 0, 1);
            }
            if holds(below, ctx.cursor) {
                lemma_held_within(rows, ctx.cursor, 1, rows.len() as int);
            }
        }
        assert(highlights(one_line("    + New connection"@)) == 0);
        let block = compose_block(form);
        let parts = block->Stack_children;
        lemma_few_children(parts);
        assert(highlights(parts[0].0) == 0);
        assert(highlights(*parts[1].0->Pad_child) == 0);
        assert(highlights(parts[1].0) == 0);
        assert(highlights(block) == 0);
        lemma_few_children(children);
        assert(children[0] == header_child(rows, ctx));
    } else {
        lemma_few_children(children);
    }
}

proof fn lemma_models(s: SnapshotView, rows: Seq<RowView>, ctx: SectionView)
    requires
        paths_distinct(rows),
    ensures
        highlights(models_section(s, rows, ctx)) <= 1,
        highlights(models_section(s, rows, ctx)) > 0 ==> ctx.cursor is Some && holds(
            rows,
            ctx.cursor,
        ),
{
    let section = models_section(s, rows, ctx);
    let children = section->Stack_children;
    if rows.len() > 0 {
        let below = rows.subrange(1, rows.len() as int);
        let items = row_items(below, ctx);
        let names = valid_names(s.children(accounts_root()));
        lemma_header(rows, ctx);
        lemma_row_items_stand_for(below, ctx);
        lemma_woven_stand_for(items, s, below, names, without_models(s, names), items.len() as int);
        lemma_highlighted_stands_for(with_empty_lines(items, s, below), below, ctx.cursor);
        if ctx.cursor is Some {
            lemma_held_apart(rows, ctx.cursor, 0, 1, 1, rows.len() as int);
            if holds(rows.subrange(0, 1), ctx.cursor) {
                lemma_held_within(rows, ctx.cursor, 0, 1);
            }
            if holds(below, ctx.cursor) {
                lemma_held_within(rows, ctx.cursor, 1, rows.len() as int);
            }
        }
        lemma_few_children(children);
        assert(children[0] == header_child(rows, ctx));
    } else {
        lemma_few_children(children);
    }
}

/// The focus shows at most once on the index: where no two rows share a path,
/// at most one of its lists highlights an item.
pub proof fn focus_shows_at_most_once(s: SnapshotView)
    requires
        paths_distinct(visible(s)),
    ensures
        highlights(index_page(s)) <= 1,
{
    let rows = visible(s);
    let n = accounts_len(rows);
    let ctx = section_view(s);
    lemma_accounts_len_fits(rows);
    let (first, second) = (rows.subrange(0, n), rows.subrange(n, rows.len() as int));
    assert forall|i: int, j: int| 0 <= i < j < first.len() implies (#[trigger] first[i]).path != (
    #[trigger] first[j]).path by {
        assert(first[i] == rows[i] && first[j] == rows[j]);
    }
    assert forall|i: int, j: int| 0 <= i < j < second.len() implies (#[trigger] second[i]).path != (
    #[trigger] second[j]).path by {
        assert(second[i] == rows[n + i] && second[j] == rows[n + j]);
    }
    lemma_accounts(first, ctx, composing(s), compose_form(s));
    lemma_models(s, second, ctx);
    if ctx.cursor is Some {
        lemma_held_apart(rows, ctx.cursor, 0, n, n, rows.len() as int);
    }
    let content = *index_page(s)->content;
    let children = content->Stack_children;
    let (accounts, models) = (
        accounts_section(first, ctx, composing(s), compose_form(s)),
        models_section(s, second, ctx),
    );
    reveal_with_fuel(children_highlights, 5);
    if pending_target(s) is Some {
        assert(children.len() == 4);
        assert(highlights(children[0].0) == 0);
        assert(children[1].0 == accounts && children[2].0 == models);
        assert(highlights(children[3].0) == 0);
        assert(children_highlights(children, 4) == highlights(accounts) + highlights(models));
    } else {
        assert(children.len() == 3);
        assert(children[0].0 == accounts && children[1].0 == models);
        assert(highlights(children[2].0) == 0);
        assert(children_highlights(children, 3) == highlights(accounts) + highlights(models));
    }
    assert(highlights(content) == children_highlights(children, children.len()));
    assert(highlights(index_page(s)) == highlights(content));
}

proof fn lemma_accounts_len_fits(rows: Seq<RowView>)
    ensures
        0 <= accounts_len(rows) <= rows.len(),
    decreases rows.len(),
{
    if rows.len() > 0 {
        lemma_accounts_len_fits(rows.drop_last());
    }
}

} // verus!
