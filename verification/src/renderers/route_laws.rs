//! Which page leads where, and what stands behind it.

use crate::assoc::lookup;
use crate::registry::{ascent, nearest_page, page_shown, RenderView};
use crate::view::NodeView;
use vstd::prelude::*;
use vstd::string::*;

use super::{
    account_detail, accounts_list, index, model_detail, models_list, overlay_delete_account,
    overlay_new_account, page_at, SettingsRenderer,
};

verus! {

proof fn lemma_page_words()
    ensures
        "settings"@.len() == 8,
        "index"@.len() == 5,
        "accounts"@.len() == 8,
        "models"@.len() == 6,
        "_detail"@.len() == 7,
        "_new"@.len() == 4,
        "_delete"@.len() == 7,
        "_delete"@ != "_detail"@,
{
    reveal_strlit("settings");
    reveal_strlit("index");
    reveal_strlit("accounts");
    reveal_strlit("models");
    reveal_strlit("_detail");
    reveal_strlit("_new");
    reveal_strlit("_delete");
    assert("_delete"@[3] == 'l' && "_detail"@[3] == 't');
}

/// Every page stands at its own cursor, and no page stands above the index, the
/// connections and the models.
pub proof fn every_page_has_its_cursor()
    ensures
        page_at(seq!["settings"@, "index"@]) is Some,
        page_at(seq!["settings"@, "index"@])->0 is Index,
        page_at(seq!["settings"@, "accounts"@]) is Some,
        page_at(seq!["settings"@, "accounts"@])->0 is AccountsList,
        page_at(seq!["settings"@, "models"@]) is Some,
        page_at(seq!["settings"@, "models"@])->0 is ModelsList,
        page_at(seq!["settings"@, "accounts"@, "_detail"@]) is Some,
        page_at(seq!["settings"@, "accounts"@, "_detail"@])->0 is AccountDetail,
        page_at(seq!["settings"@, "accounts"@, "_new"@]) is Some,
        page_at(seq!["settings"@, "accounts"@, "_new"@])->0 is OverlayNewAccount,
        page_at(seq!["settings"@, "accounts"@, "_delete"@]) is Some,
        page_at(seq!["settings"@, "accounts"@, "_delete"@])->0 is OverlayDeleteAccount,
        page_at(seq!["settings"@, "models"@, "_detail"@]) is Some,
        page_at(seq!["settings"@, "models"@, "_detail"@])->0 is ModelDetail,
        page_at(seq!["settings"@]) is None,
        page_at(Seq::empty()) is None,
{
    lemma_page_words();
    let index = index::index_cursor();
    let accounts = accounts_list::accounts_list_cursor();
    let models = models_list::models_list_cursor();
    let account = account_detail::account_detail_cursor();
    let new = overlay_new_account::overlay_new_account_cursor();
    let gone = overlay_delete_account::overlay_delete_account_cursor();
    let model = model_detail::model_detail_cursor();
    assert(index.len() == 2 && index[1] == "index"@);
    assert(accounts.len() == 2 && accounts[1] == "accounts"@);
    assert(models.len() == 2 && models[1] == "models"@);
    assert(account.len() == 3 && account[1] == "accounts"@ && account[2] == "_detail"@);
    assert(new.len() == 3 && new[1] == "accounts"@ && new[2] == "_new"@);
    assert(gone.len() == 3 && gone[1] == "accounts"@ && gone[2] == "_delete"@);
    assert(model.len() == 3 && model[1] == "models"@ && model[2] == "_detail"@);
}

proof fn lemma_one_above(
    pages: Seq<(Seq<Seq<char>>, SettingsRenderer)>,
    above: Seq<Seq<char>>,
    name: Seq<char>,
)
    requires
        lookup(pages, above) is Some,
    ensures
        nearest_page(pages, above.push(name), above.len() as int + 1) == Some(above),
{
    assert(above.push(name).subrange(0, above.len() as int) =~= above);
}

/// A connection's page, the form for a new one and the question about a deletion
/// lead back to the connections; a model's page leads back to the models; the
/// connections lead back to the index. The index and the models lead out of the
/// screen.
pub proof fn pages_lead_back(pages: Seq<(Seq<Seq<char>>, SettingsRenderer)>)
    requires
        forall|cursor: Seq<Seq<char>>| #[trigger] lookup(pages, cursor) == page_at(cursor),
    ensures
        ({
            let index = seq!["settings"@, "index"@];
            let accounts = seq!["settings"@, "accounts"@];
            let models = seq!["settings"@, "models"@];
            &&& ascent(pages, seq!["settings"@, "accounts"@, "_detail"@]) == Some(accounts)
            &&& ascent(pages, seq!["settings"@, "accounts"@, "_new"@]) == Some(accounts)
            &&& ascent(pages, seq!["settings"@, "accounts"@, "_delete"@]) == Some(accounts)
            &&& ascent(pages, seq!["settings"@, "models"@, "_detail"@]) == Some(models)
            &&& ascent(pages, accounts) == Some(index)
            &&& ascent(pages, index) is None
            &&& ascent(pages, models) is None
        }),
{
    every_page_has_its_cursor();
    let index = seq!["settings"@, "index"@];
    let accounts = seq!["settings"@, "accounts"@];
    let models = seq!["settings"@, "models"@];
    lemma_one_above(pages, accounts, "_detail"@);
    lemma_one_above(pages, accounts, "_new"@);
    lemma_one_above(pages, accounts, "_delete"@);
    lemma_one_above(pages, models, "_detail"@);
    assert(accounts.push("_detail"@) =~= seq!["settings"@, "accounts"@, "_detail"@]);
    assert(accounts.push("_new"@) =~= seq!["settings"@, "accounts"@, "_new"@]);
    assert(accounts.push("_delete"@) =~= seq!["settings"@, "accounts"@, "_delete"@]);
    assert(models.push("_detail"@) =~= seq!["settings"@, "models"@, "_detail"@]);
    assert(lookup(pages, index) is Some);
    reveal_with_fuel(nearest_page, 4);
    assert(models.subrange(0, 1) =~= seq!["settings"@]);
    assert(models.subrange(0, 0) =~= Seq::<Seq<char>>::empty());
    assert(lookup(pages, seq!["settings"@]) is None);
    assert(lookup(pages, Seq::<Seq<char>>::empty()) is None);
}

/// The form for a new connection and the question about a deletion stand, with
/// everything behind them dimmed, over the connections as they are shown there.
pub proof fn overlays_stand_over_the_connections(
    pages: Seq<(Seq<Seq<char>>, SettingsRenderer)>,
    ctx: RenderView,
    depth: nat,
)
    requires
        forall|cursor: Seq<Seq<char>>| #[trigger] lookup(pages, cursor) == page_at(cursor),
        depth > 0,
    ensures
        ({
            let behind = page_shown(
                pages,
                seq!["settings"@, "accounts"@],
                ctx,
                (depth - 1) as nat,
            );
            let new = page_shown(pages, seq!["settings"@, "accounts"@, "_new"@], ctx, depth);
            let gone = page_shown(pages, seq!["settings"@, "accounts"@, "_delete"@], ctx, depth);
            &&& new is Modal && *new->Modal_background == behind && new->dim
            &&& gone is Modal && *gone->Modal_background == behind && gone->dim
        }),
{
    every_page_has_its_cursor();
    assert(lookup(pages, seq!["settings"@, "accounts"@, "_new"@]) is Some);
    assert(lookup(pages, seq!["settings"@, "accounts"@, "_delete"@]) is Some);
}

/// A cursor at which no page stands is said to be unknown.
pub proof fn other_cursors_are_unknown(
    pages: Seq<(Seq<Seq<char>>, SettingsRenderer)>,
    cursor: Seq<Seq<char>>,
    ctx: RenderView,
    depth: nat,
)
    requires
        forall|c: Seq<Seq<char>>| #[trigger] lookup(pages, c) == page_at(c),
        !(2 <= cursor.len() <= 3),
    ensures
        page_shown(pages, cursor, ctx, depth) == NodeView::UnknownCursor(cursor),
        ascent(pages, cursor) is None,
{
    assert(lookup(pages, cursor) == page_at(cursor));
}

} // verus!
