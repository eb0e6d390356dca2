//! What entering a model by hand does to the store.

use crate::keys::{KeyChord, KeyCodeRepr};
use crate::path::component_ok;
use crate::renderers::util::{
    models_or_empty, models_value_round_trip, stage_at, text_at, text_or_empty,
};
use crate::snapshot::{
    lasting, one_write_shows_at_its_path, untouched, writes_show_at_their_paths, written,
    SnapshotView,
};
use crate::text::{decimal, decimal_reads_back, numbers_are_trimmed, spelled_u32, trimmed};
use crate::types::{stage_text_names_stage, ManualModelStage, ModelInfoSource, ModelView};
use crate::value::ValueView;
use crate::visible_rows::RowView;
use vstd::prelude::*;
use vstd::string::*;

use super::account_model::focused_row;

use super::manual_model::{
    add_manual_writes, manual_cancel_writes, manual_commit_writes, manual_delete_writes,
    manual_insert_writes,
};

verus! {

/// A place of the form for entering a model.
pub open spec fn entry(part: Seq<char>) -> Seq<Seq<char>> {
    seq!["ui"@, "settings"@, "manual_model"@, part]
}

proof fn lemma_entry_words()
    ensures
        "account"@.len() == 7,
        "stage"@.len() == 5,
        "buffer"@.len() == 6,
        "staged_id"@.len() == 9,
        "staged_ctx"@.len() == 10,
        forall|a: Seq<char>, b: Seq<char>|
            a != b ==> #[trigger] entry(a) != #[trigger] entry(b),
        forall|a: Seq<char>, account: Seq<char>| #[trigger]
            entry(a).len() != (#[trigger] models_of(account)).len(),
{
    reveal_strlit("account");
    reveal_strlit("stage");
    reveal_strlit("buffer");
    reveal_strlit("staged_id");
    reveal_strlit("staged_ctx");
    assert forall|a: Seq<char>, b: Seq<char>| a != b implies #[trigger] entry(a)
        != #[trigger] entry(b) by {
        assert(entry(a)[3] == a);
        assert(entry(b)[3] == b);
    }
}

/// Where a connection's models are kept.
pub open spec fn models_of(account: Seq<char>) -> Seq<Seq<char>> {
    seq!["config"@, "gate"@, "accounts"@, account, "models"@]
}

/// The form opens for the connection of the focused model, at its first stage
/// and with nothing typed; on the row of anything else it does not open.
pub proof fn form_opens_for_the_focused_model(s: SnapshotView, row: RowView, account: Seq<char>)
    requires
        focused_row(s) == Some(row),
    ensures
        (row.kind is Model && row.kind->Model_account == account) || (row.kind is ModelField
            && row.kind->ModelField_account == account) ==> ({
            let t = written(s, add_manual_writes(s));
            &&& text_at(t, entry("account"@)) == Some(account)
            &&& stage_at(t, entry("stage"@)) == Some(ManualModelStage::Id)
            &&& text_at(t, entry("buffer"@)) == Some(Seq::<char>::empty())
            &&& forall|x: Seq<Seq<char>>|
                x != entry("account"@) && x != entry("stage"@) && x != entry("buffer"@)
                    ==> #[trigger] t.at(x) == s.at(x)
        }),
        !(row.kind is Model || row.kind is ModelField) ==> add_manual_writes(s).len() == 0,
{
    lemma_entry_words();
    stage_text_names_stage(ManualModelStage::Id);
    let w = add_manual_writes(s);
    let t = written(s, w);
    writes_show_at_their_paths(s, w);
    if w.len() > 0 {
        assert(w[0].path == entry("account"@));
        assert(w[1].path == entry("stage"@));
        assert(w[2].path == entry("buffer"@));
        assert(lasting(w, 0));
        assert(lasting(w, 1));
        assert(lasting(w, 2));
        assert forall|x: Seq<Seq<char>>|
            x != entry("account"@) && x != entry("stage"@) && x != entry("buffer"@) implies
            #[trigger] t.at(x) == s.at(x) by {
            assert(untouched(w, x));
        }
    }
}

/// Typing appends the character to what is typed so far, at the first stage
/// whatever it is, at the others only if it is a digit. Deleting takes the last
/// character off.
pub proof fn typing_appends_and_deleting_takes_off(
    s: SnapshotView,
    stage: ManualModelStage,
    key: KeyChord,
)
    requires
        stage_at(s, entry("stage"@)) == Some(stage),
    ensures
        ({
            let before = text_or_empty(s, entry("buffer"@));
            let t = written(s, manual_insert_writes(s, Some(key)));
            let u = written(s, manual_delete_writes(s));
            let takes = match key.code {
                KeyCodeRepr::Char(c) => stage == ManualModelStage::Id || '0' <= c <= '9',
                _ => false,
            };
            &&& takes ==> text_at(t, entry("buffer"@)) == Some(
                before.push(key.code->Char_0),
            )
            &&& !takes ==> t == s
            &&& before.len() > 0 ==> text_at(u, entry("buffer"@)) == Some(before.drop_last())
            &&& before.len() == 0 ==> u == s
            &&& forall|x: Seq<Seq<char>>|
                x != entry("buffer"@) ==> #[trigger] t.at(x) == s.at(x) && #[trigger] u.at(x)
                    == s.at(x)
        }),
{
    let w = manual_insert_writes(s, Some(key));
    let v = manual_delete_writes(s);
    if w.len() > 0 {
        assert(w =~= seq![w[0]]);
        one_write_shows_at_its_path(s, w[0]);
    }
    if v.len() > 0 {
        assert(v =~= seq![v[0]]);
        one_write_shows_at_its_path(s, v[0]);
    }
}

/// Confirming the id keeps it, without the white space round it, and moves on to
/// the context size with nothing typed. An empty id stays.
pub proof fn confirmed_id_is_kept(s: SnapshotView)
    requires
        stage_at(s, entry("stage"@)) == Some(ManualModelStage::Id),
    ensures
        ({
            let typed = trimmed(text_or_empty(s, entry("buffer"@)));
            let t = written(s, manual_commit_writes(s));
            &&& typed.len() == 0 ==> t == s
            &&& typed.len() > 0 ==> text_at(t, entry("staged_id"@)) == Some(typed)
                && stage_at(t, entry("stage"@)) == Some(ManualModelStage::Ctx) && text_at(
                t,
                entry("buffer"@),
            ) == Some(Seq::<char>::empty())
            &&& forall|x: Seq<Seq<char>>|
                x != entry("staged_id"@) && x != entry("stage"@) && x != entry("buffer"@)
                    ==> #[trigger] t.at(x) == s.at(x)
        }),
{
    lemma_entry_words();
    stage_text_names_stage(ManualModelStage::Ctx);
    let w = manual_commit_writes(s);
    let t = written(s, w);
    writes_show_at_their_paths(s, w);
    if w.len() > 0 {
        assert(w[0].path == entry("stage"@));
        assert(w[1].path == entry("staged_id"@));
        assert(w[2].path == entry("buffer"@));
        assert(lasting(w, 0));
        assert(lasting(w, 1));
        assert(lasting(w, 2));
    }
    assert forall|x: Seq<Seq<char>>|
        x != entry("staged_id"@) && x != entry("stage"@) && x != entry("buffer"@) implies
        #[trigger] t.at(x) == s.at(x) by {
        assert(untouched(w, x));
    }
}

/// Confirming a context size that is a positive number keeps it, and moves on to
/// the output limit with nothing typed. Anything else stays.
pub proof fn confirmed_context_is_kept(s: SnapshotView, n: u32)
    requires
        stage_at(s, entry("stage"@)) == Some(ManualModelStage::Ctx),
        trimmed(text_or_empty(s, entry("buffer"@))) == decimal(n as nat),
    ensures
        ({
            let t = written(s, manual_commit_writes(s));
            &&& n == 0 ==> t == s
            &&& n > 0 ==> text_at(t, entry("staged_ctx"@)) == Some(decimal(n as nat))
                && stage_at(t, entry("stage"@)) == Some(ManualModelStage::Out) && text_at(
                t,
                entry("buffer"@),
            ) == Some(Seq::<char>::empty())
            &&& forall|x: Seq<Seq<char>>|
                x != entry("staged_ctx"@) && x != entry("stage"@) && x != entry("buffer"@)
                    ==> #[trigger] t.at(x) == s.at(x)
        }),
{
    lemma_entry_words();
    decimal_reads_back(n);
    stage_text_names_stage(ManualModelStage::Out);
    let w = manual_commit_writes(s);
    let t = written(s, w);
    writes_show_at_their_paths(s, w);
    if w.len() > 0 {
        assert(w[0].path == entry("stage"@));
        assert(w[1].path == entry("staged_ctx"@));
        assert(w[2].path == entry("buffer"@));
        assert(lasting(w, 0));
        assert(lasting(w, 1));
        assert(lasting(w, 2));
    }
    assert forall|x: Seq<Seq<char>>|
        x != entry("staged_ctx"@) && x != entry("stage"@) && x != entry("buffer"@) implies
        #[trigger] t.at(x) == s.at(x) by {
        assert(untouched(w, x));
    }
}

/// Confirming an output limit that is a positive number appends the entered
/// model to the catalog of the connection, behind the models there were, with
/// the kept id as its id and its name, the kept context size and that limit. The
/// form is cleared, and nothing else changes.
pub proof fn confirmed_limit_appends_the_model(s: SnapshotView, account: Seq<char>, c: u32, n: u32)
    requires
        stage_at(s, entry("stage"@)) == Some(ManualModelStage::Out),
        text_at(s, entry("account"@)) == Some(account),
        component_ok(account),
        text_at(s, entry("staged_ctx"@)) == Some(decimal(c as nat)),
        trimmed(text_or_empty(s, entry("buffer"@))) == decimal(n as nat),
        n > 0,
    ensures
        ({
            let id = text_or_empty(s, entry("staged_id"@));
            let t = written(s, manual_commit_writes(s));
            &&& models_or_empty(t, models_of(account)) == models_or_empty(
                s,
                models_of(account),
            ).push(
                ModelView {
                    id,
                    display_name: id,
                    max_context_size: Some(c),
                    max_output_tokens: Some(n),
                    source: ModelInfoSource::UserEntered,
                },
            )
            &&& t.at(entry("account"@)) == Some(ValueView::Null)
            &&& t.at(entry("stage"@)) == Some(ValueView::Null)
            &&& t.at(entry("buffer"@)) == Some(ValueView::Null)
            &&& t.at(entry("staged_id"@)) == Some(ValueView::Null)
            &&& t.at(entry("staged_ctx"@)) == Some(ValueView::Null)
            &&& forall|x: Seq<Seq<char>>|
                x != models_of(account) && x != entry("account"@) && x != entry("stage"@) && x
                    != entry("buffer"@) && x != entry("staged_id"@) && x != entry("staged_ctx"@)
                    ==> #[trigger] t.at(x) == s.at(x)
        }),
{
    lemma_entry_words();
    decimal_reads_back(n);
    decimal_reads_back(c);
    let w = manual_commit_writes(s);
    let t = written(s, w);
    writes_show_at_their_paths(s, w);
    assert(w.len() == 6);
    assert(w[0].path == models_of(account));
    assert(w[1].path == entry("account"@));
    assert(w[2].path == entry("stage"@));
    assert(w[3].path == entry("buffer"@));
    assert(w[4].path == entry("staged_id"@));
    assert(w[5].path == entry("staged_ctx"@));
    assert(entry("account"@).len() == 4 && models_of(account).len() == 5);
    assert(lasting(w, 0));
    assert(lasting(w, 1));
    assert(lasting(w, 2));
    assert(lasting(w, 3));
    assert(lasting(w, 4));
    assert(lasting(w, 5));
    let id = text_or_empty(s, entry("staged_id"@));
    let all = models_or_empty(s, models_of(account)).push(
        ModelView {
            id,
            display_name: id,
            max_context_size: Some(c),
            max_output_tokens: Some(n),
            source: ModelInfoSource::UserEntered,
        },
    );
    models_value_round_trip(all);
    assert forall|x: Seq<Seq<char>>|
        x != models_of(account) && x != entry("account"@) && x != entry("stage"@) && x != entry(
            "buffer"@,
        ) && x != entry("staged_id"@) && x != entry("staged_ctx"@) implies #[trigger] t.at(x)
        == s.at(x) by {
        assert(untouched(w, x));
    }
}

/// Whether a store differs from another in what is typed into the form alone.
pub open spec fn typed_into(s: SnapshotView, t: SnapshotView, text: Seq<char>) -> bool {
    &&& text_at(t, entry("buffer"@)) == Some(text)
    &&& forall|x: Seq<Seq<char>>| x != entry("buffer"@) ==> #[trigger] t.at(x) == s.at(x)
}

/// A model entered in three stages is the one that was typed: confirming an id,
/// then typing and confirming a context size, then typing and confirming an
/// output limit leaves the catalog with that model behind those it had.
pub proof fn entered_model_is_the_typed_one(
    s: SnapshotView,
    t: SnapshotView,
    u: SnapshotView,
    account: Seq<char>,
    c: u32,
    n: u32,
)
    requires
        stage_at(s, entry("stage"@)) == Some(ManualModelStage::Id),
        text_at(s, entry("account"@)) == Some(account),
        component_ok(account),
        trimmed(text_or_empty(s, entry("buffer"@))).len() > 0,
        c > 0,
        n > 0,
        typed_into(written(s, manual_commit_writes(s)), t, decimal(c as nat)),
        typed_into(written(t, manual_commit_writes(t)), u, decimal(n as nat)),
    ensures
        ({
            let id = trimmed(text_or_empty(s, entry("buffer"@)));
            let done = written(u, manual_commit_writes(u));
            models_or_empty(done, models_of(account)) == models_or_empty(
                s,
                models_of(account),
            ).push(
                ModelView {
                    id,
                    display_name: id,
                    max_context_size: Some(c),
                    max_output_tokens: Some(n),
                    source: ModelInfoSource::UserEntered,
                },
            )
        }),
{
    lemma_entry_words();
    numbers_are_trimmed(c as nat);
    numbers_are_trimmed(n as nat);
    confirmed_id_is_kept(s);
    let s1 = written(s, manual_commit_writes(s));
    assert(entry("account"@) != entry("buffer"@));
    assert(entry("stage"@) != entry("buffer"@));
    assert(entry("staged_id"@) != entry("buffer"@));
    assert(entry("staged_ctx"@) != entry("buffer"@));
    assert(t.at(entry("stage"@)) == s1.at(entry("stage"@)));
    confirmed_context_is_kept(t, c);
    let t1 = written(t, manual_commit_writes(t));
    assert(u.at(entry("stage"@)) == t1.at(entry("stage"@)));
    assert(u.at(entry("staged_ctx"@)) == t1.at(entry("staged_ctx"@)));
    assert(u.at(entry("staged_id"@)) == t1.at(entry("staged_id"@)));
    assert(u.at(entry("account"@)) == t1.at(entry("account"@)));
    assert(entry("account"@) != entry("stage"@));
    assert(entry("account"@) != entry("staged_id"@));
    assert(entry("account"@) != entry("staged_ctx"@));
    assert(entry("staged_id"@) != entry("stage"@));
    assert(entry("staged_id"@) != entry("staged_ctx"@));
    assert(t1.at(entry("account"@)) == t.at(entry("account"@)));
    assert(t1.at(entry("staged_id"@)) == t.at(entry("staged_id"@)));
    assert(s1.at(entry("account"@)) == s.at(entry("account"@)));
    let place = models_of(account);
    assert(place.len() == 5);
    assert(entry("buffer"@).len() == 4 && entry("stage"@).len() == 4 && entry("staged_id"@).len()
        == 4 && entry("staged_ctx"@).len() == 4);
    assert(u.at(place) == t1.at(place));
    assert(t1.at(place) == t.at(place));
    assert(t.at(place) == s1.at(place));
    assert(s1.at(place) == s.at(place));
    confirmed_limit_appends_the_model(u, account, c, n);
}

/// Giving up clears the form and saves nothing.
pub proof fn giving_up_saves_nothing(s: SnapshotView)
    ensures
        ({
            let t = written(s, manual_cancel_writes());
            &&& stage_at(t, entry("stage"@)) is None
            &&& text_at(t, entry("account"@)) is None
            &&& text_at(t, entry("buffer"@)) is None
            &&& text_at(t, entry("staged_id"@)) is None
            &&& text_at(t, entry("staged_ctx"@)) is None
            &&& forall|x: Seq<Seq<char>>|
                x != entry("account"@) && x != entry("stage"@) && x != entry("buffer"@) && x
                    != entry("staged_id"@) && x != entry("staged_ctx"@) ==> #[trigger] t.at(x)
                    == s.at(x)
        }),
{
    lemma_entry_words();
    let w = manual_cancel_writes();
    let t = written(s, w);
    writes_show_at_their_paths(s, w);
    assert(w[0].path == entry("account"@));
    assert(w[1].path == entry("stage"@));
    assert(w[2].path == entry("buffer"@));
    assert(w[3].path == entry("staged_id"@));
    assert(w[4].path == entry("staged_ctx"@));
    assert(lasting(w, 0));
    assert(lasting(w, 1));
    assert(lasting(w, 2));
    assert(lasting(w, 3));
    assert(lasting(w, 4));
    assert forall|x: Seq<Seq<char>>|
        x != entry("account"@) && x != entry("stage"@) && x != entry("buffer"@) && x != entry(
            "staged_id"@,
        ) && x != entry("staged_ctx"@) implies #[trigger] t.at(x) == s.at(x) by {
        assert(untouched(w, x));
    }
}

/// A stage that is not filled in properly stays: an empty id, a size that is no
/// positive number; and without a stage, or without a connection that the model
/// could go to, nothing is confirmed.
pub proof fn unfinished_stages_stay(s: SnapshotView)
    ensures
        ({
            let typed = trimmed(text_or_empty(s, entry("buffer"@)));
            let stage = stage_at(s, entry("stage"@));
            let account = text_or_empty(s, entry("account"@));
            &&& stage is None ==> manual_commit_writes(s).len() == 0
            &&& stage == Some(ManualModelStage::Id) && typed.len() == 0 ==> manual_commit_writes(
                s,
            ).len() == 0
            &&& (stage == Some(ManualModelStage::Ctx) || stage == Some(ManualModelStage::Out)) && (
            spelled_u32(typed) is None || spelled_u32(typed) == Some(0u32))
                ==> manual_commit_writes(s).len() == 0
            &&& stage == Some(ManualModelStage::Out) && !component_ok(account)
                ==> manual_commit_writes(s).len() == 0
        }),
{
}

} // verus!
