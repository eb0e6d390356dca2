//! Entering a model by hand: its id, its context size, its output limit.

use crate::command_registry::CommandCtx;
use crate::keys::KeyChord;
use crate::path::{component_ok, path3, path4, path5, valid_component, Path};
use crate::registry::Renderer;
use crate::renderers::util::{
    models_or_empty, models_to_value, models_value, read_models_or_empty, read_stage, read_text,
    read_text_or_empty, stage_at, text_at, text_or_empty,
};
use crate::visible_rows::{KindView, RowKind};
use crate::snapshot::{SettingsSnapshot, SnapshotView};
use crate::text::{
    ascii_digit, chars_of, decimal, decimal_reads_back, is_ascii_digit, number_text, parse_u32,
    spelled_u32, trim, trimmed,
};
use crate::types::{
    models_view, stage_name, stage_text, ManualModelStage, ModelInfo, ModelInfoSource, ModelView,
};
use crate::value::{
    null_write, put, put_null, put_text, write_at, write_text, writes_view, ValueView, Write,
    WriteView,
};
use vstd::prelude::*;
use vstd::string::*;

use super::account_model::{focused_row, focused_visible_row};
use super::compose::{char_typed, typed_char};

verus! {

/// A place of the form for entering a model.
pub open spec fn manual(part: Seq<char>) -> Seq<Seq<char>> {
    seq!["ui"@, "settings"@, "manual_model"@, part]
}

fn manual_path(part: &str) -> (r: Path)
    ensures
        r@ == manual(part@),
{
    path4("ui", "settings", "manual_model", part)
}

/// Where an account's catalog lives.
pub open spec fn catalog(account: Seq<char>) -> Seq<Seq<char>> {
    seq!["config"@, "gate"@, "accounts"@, account, "models"@]
}

/// The account of a model's row, or of its field's.
pub open spec fn model_row_account(kind: KindView) -> Option<Seq<char>> {
    match kind {
        KindView::Model { account, .. } => Some(account),
        KindView::ModelField { account, .. } => Some(account),
        _ => None,
    }
}

/// The account the form would be opened for.
pub open spec fn manual_account(s: SnapshotView) -> Option<Seq<char>> {
    match focused_row(s) {
        Some(row) => model_row_account(row.kind),
        None => None,
    }
}

/// The writes that open the form.
pub open spec fn add_manual_writes(s: SnapshotView) -> Seq<WriteView> {
    match manual_account(s) {
        Some(account) => seq![
            put_text(manual("account"@), account),
            put_text(manual("stage"@), stage_text(ManualModelStage::Id)),
            put_text(manual("buffer"@), Seq::empty()),
        ],
        None => Seq::empty(),
    }
}

fn empty_text() -> (r: String)
    ensures
        r@ == Seq::<char>::empty(),
{
    let s: String = String::new();
    proof {
        assert(s@ =~= Seq::<char>::empty());
    }
    s
}

/// Opens the form for the account of the focused model.
pub fn models_add_manual(data: &SettingsSnapshot) -> (r: Vec<Write>)
    ensures
        writes_view(r@) == add_manual_writes(data@),
{
    let mut out: Vec<Write> = Vec::new();
    let account: Option<String> = match focused_visible_row(data) {
        Some(row) => match &row.kind {
            RowKind::Model { account, .. } => Some(account.clone()),
            RowKind::ModelField { account, .. } => Some(account.clone()),
            _ => None,
        },
        None => None,
    };
    match account {
        Some(a) => {
            out.push(write_text(manual_path("account"), a));
            out.push(
                write_text(manual_path("stage"), stage_name(ManualModelStage::Id).to_owned()),
            );
            out.push(write_text(manual_path("buffer"), empty_text()));
        },
        None => {},
    }
    proof {
        assert(writes_view(out@) =~= add_manual_writes(data@));
    }
    out
}

/// The stage the form is at.
pub fn models_manual_read_stage(data: &SettingsSnapshot) -> (r: Option<ManualModelStage>)
    ensures
        r == stage_at(data@, manual("stage"@)),
{
    read_stage(data, &manual_path("stage"))
}

/// Whether a stage takes a character: the id takes any, the sizes take digits.
pub open spec fn stage_takes(stage: ManualModelStage, c: char) -> bool {
    stage == ManualModelStage::Id || ascii_digit(c)
}

/// The writes of typing a character into the form.
pub open spec fn manual_insert_writes(s: SnapshotView, key: Option<KeyChord>) -> Seq<WriteView> {
    match (typed_char(key), stage_at(s, manual("stage"@))) {
        (Some(c), Some(stage)) => if stage_takes(stage, c) {
            seq![put_text(manual("buffer"@), text_or_empty(s, manual("buffer"@)).push(c))]
        } else {
            Seq::empty()
        },
        _ => Seq::empty(),
    }
}

/// Types the pressed character into the form, where its stage takes it.
pub fn models_manual_insert_char<R: Renderer>(
    data: &SettingsSnapshot,
    ctx: &CommandCtx<'_, R>,
) -> (r: Vec<Write>)
    ensures
        writes_view(r@) == manual_insert_writes(data@, ctx@.last_keystroke),
{
    let mut out: Vec<Write> = Vec::new();
    match char_typed(&ctx.last_keystroke) {
        Some(ch) => match models_manual_read_stage(data) {
            Some(stage) => {
                let accept: bool = match stage {
                    ManualModelStage::Id => true,
                    ManualModelStage::Ctx => is_ascii_digit(ch),
                    ManualModelStage::Out => is_ascii_digit(ch),
                };
                if accept {
                    let mut next: String = read_text_or_empty(data, &manual_path("buffer"));
                    next.push(ch);
                    out.push(write_text(manual_path("buffer"), next));
                }
            },
            None => {},
        },
        None => {},
    }
    proof {
        assert(writes_view(out@) =~= manual_insert_writes(data@, ctx@.last_keystroke));
    }
    out
}

/// The writes of taking the last character off the form.
pub open spec fn manual_delete_writes(s: SnapshotView) -> Seq<WriteView> {
    let text = text_or_empty(s, manual("buffer"@));
    if text.len() > 0 {
        seq![put_text(manual("buffer"@), text.drop_last())]
    } else {
        Seq::empty()
    }
}

/// Takes the last character off the form, where there is one.
pub fn models_manual_delete_back(data: &SettingsSnapshot) -> (r: Vec<Write>)
    ensures
        writes_view(r@) == manual_delete_writes(data@),
{
    let mut out: Vec<Write> = Vec::new();
    let mut current: String = read_text_or_empty(data, &manual_path("buffer"));
    if current.pop().is_some() {
        out.push(write_text(manual_path("buffer"), current));
    }
    proof {
        assert(writes_view(out@) =~= manual_delete_writes(data@));
    }
    out
}

/// The positive number that `s` spells.
pub open spec fn spelled_size(s: Seq<char>) -> Option<u32> {
    match spelled_u32(s) {
        Some(n) => if n > 0 {
            Some(n)
        } else {
            None
        },
        None => None,
    }
}

fn parse_size(s: &str) -> (r: Option<u32>)
    ensures
        r == spelled_size(s@),
{
    match parse_u32(s) {
        Some(n) => if n > 0 {
            Some(n)
        } else {
            None
        },
        None => None,
    }
}

/// The context size kept from the second stage, or zero.
pub open spec fn staged_context(s: SnapshotView) -> u32 {
    match text_at(s, manual("staged_ctx"@)) {
        Some(t) => match spelled_u32(t) {
            Some(n) => n,
            None => 0,
        },
        None => 0,
    }
}

/// The model the form has been filled in with.
pub open spec fn entered_model(s: SnapshotView, out: u32) -> ModelView {
    let id = text_or_empty(s, manual("staged_id"@));
    ModelView {
        id,
        display_name: id,
        max_context_size: Some(staged_context(s)),
        max_output_tokens: Some(out),
        source: ModelInfoSource::UserEntered,
    }
}

/// The writes that clear the form.
pub open spec fn manual_cancel_writes() -> Seq<WriteView> {
    seq![
        put_null(manual("account"@)),
        put_null(manual("stage"@)),
        put_null(manual("buffer"@)),
        put_null(manual("staged_id"@)),
        put_null(manual("staged_ctx"@)),
    ]
}

/// The writes of moving on to the next stage.
pub open spec fn manual_advance_writes(
    next: ManualModelStage,
    kept: Seq<char>,
    text: Seq<char>,
) -> Seq<WriteView> {
    seq![
        put_text(manual("stage"@), stage_text(next)),
        put_text(manual(kept), text),
        put_text(manual("buffer"@), Seq::empty()),
    ]
}

/// The writes of confirming the current stage. The first two stages keep what
/// was typed and move on; the last one appends the model to the account's
/// catalog and clears the form. A stage that was not filled in properly stays.
pub open spec fn manual_commit_writes(s: SnapshotView) -> Seq<WriteView> {
    let typed = trimmed(text_or_empty(s, manual("buffer"@)));
    match stage_at(s, manual("stage"@)) {
        None => Seq::empty(),
        Some(ManualModelStage::Id) => if typed.len() == 0 {
            Seq::empty()
        } else {
            manual_advance_writes(ManualModelStage::Ctx, "staged_id"@, typed)
        },
        Some(ManualModelStage::Ctx) => match spelled_size(typed) {
            None => Seq::empty(),
            Some(n) => manual_advance_writes(
                ManualModelStage::Out,
                "staged_ctx"@,
                decimal(n as nat),
            ),
        },
        Some(ManualModelStage::Out) => match spelled_size(typed) {
            None => Seq::empty(),
            Some(out) => {
                let account = text_or_empty(s, manual("account"@));
                if component_ok(account) {
                    seq![
                        put(
                            catalog(account),
                            models_value(
                                models_or_empty(s, catalog(account)).push(entered_model(s, out)),
                            ),
                        ),
                    ] + manual_cancel_writes()
                } else {
                    Seq::empty()
                }
            },
        },
    }
}

fn advance(next: ManualModelStage, kept: &str, text: String) -> (r: Vec<Write>)
    ensures
        writes_view(r@) == manual_advance_writes(next, kept@, text@),
{
    let mut out: Vec<Write> = Vec::new();
    out.push(write_text(manual_path("stage"), stage_name(next).to_owned()));
    out.push(write_text(manual_path(kept), text));
    out.push(write_text(manual_path("buffer"), empty_text()));
    proof {
        assert(writes_view(out@) =~= manual_advance_writes(next, kept@, text@));
    }
    out
}

/// Appends the entered model to its account's catalog and clears the form;
/// nothing where the account's name may not stand in a path.
fn finish(data: &SettingsSnapshot, out_tokens: u32) -> (r: Vec<Write>)
    ensures
        writes_view(r@) == if component_ok(text_or_empty(data@, manual("account"@))) {
            seq![
                put(
                    catalog(text_or_empty(data@, manual("account"@))),
                    models_value(
                        models_or_empty(
                            data@,
                            catalog(text_or_empty(data@, manual("account"@))),
                        ).push(entered_model(data@, out_tokens)),
                    ),
                ),
            ] + manual_cancel_writes()
        } else {
            Seq::empty()
        },
{
    let mut out: Vec<Write> = Vec::new();
    let id: String = read_text_or_empty(data, &manual_path("staged_id"));
    let ctx: u32 = match read_text(data, &manual_path("staged_ctx")) {
        Some(t) => match parse_u32(t.as_str()) {
            Some(n) => n,
            None => 0,
        },
        None => 0,
    };
    let account: String = read_text_or_empty(data, &manual_path("account"));
    if !valid_component(account.as_str()) {
        proof {
            assert(writes_view(out@) =~= Seq::<WriteView>::empty());
        }
        return out;
    }
    let catalog_path: Path = path5("config", "gate", "accounts", account.as_str(), "models");
    let mut models: Vec<ModelInfo> = read_models_or_empty(data, &catalog_path);
    let ghost before = models_view(models@);
    models.push(
        ModelInfo {
            id: id.clone(),
            display_name: id,
            max_context_size: Some(ctx),
            max_output_tokens: Some(out_tokens),
            source: ModelInfoSource::UserEntered,
        },
    );
    proof {
        assert(models_view(models@) =~= before.push(entered_model(data@, out_tokens)));
    }
    out.push(write_at(catalog_path, models_to_value(&models)));
    let mut clear: Vec<Write> = models_manual_cancel();
    let ghost first = writes_view(out@);
    let ghost rest = writes_view(clear@);
    out.append(&mut clear);
    proof {
        assert(writes_view(out@) =~= first + rest);
        assert(first =~= seq![
            put(
                catalog(account@),
                models_value(models_or_empty(data@, catalog(account@)).push(
                    entered_model(data@, out_tokens),
                )),
            ),
        ]);
    }
    out
}

/// Confirms the current stage of the form.
pub fn models_manual_commit(data: &SettingsSnapshot) -> (r: Vec<Write>)
    ensures
        writes_view(r@) == manual_commit_writes(data@),
{
    let none: Vec<Write> = Vec::new();
    proof {
        assert(writes_view(none@) =~= Seq::<WriteView>::empty());
    }
    let stage = match models_manual_read_stage(data) {
        Some(s) => s,
        None => {
            return none;
        },
    };
    let typed: String = trim(read_text_or_empty(data, &manual_path("buffer")).as_str());
    match stage {
        ManualModelStage::Id => if chars_of(typed.as_str()).len() == 0 {
            none
        } else {
            advance(ManualModelStage::Ctx, "staged_id", typed)
        },
        ManualModelStage::Ctx => match parse_size(typed.as_str()) {
            Some(n) => advance(ManualModelStage::Out, "staged_ctx", number_text(n as u64)),
            None => none,
        },
        ManualModelStage::Out => match parse_size(typed.as_str()) {
            Some(n) => finish(data, n),
            None => none,
        },
    }
}

/// Clears the form.
pub fn models_manual_cancel() -> (r: Vec<Write>)
    ensures
        writes_view(r@) == manual_cancel_writes(),
{
    let mut out: Vec<Write> = Vec::new();
    out.push(null_write(manual_path("account")));
    out.push(null_write(manual_path("stage")));
    out.push(null_write(manual_path("buffer")));
    out.push(null_write(manual_path("staged_id")));
    out.push(null_write(manual_path("staged_ctx")));
    proof {
        assert(writes_view(out@) =~= manual_cancel_writes());
    }
    out
}

/// The stages follow one another: confirming the first or the second stage,
/// where it writes anything, moves the form to the next one.
pub proof fn stages_follow_one_another(s: SnapshotView)
    requires
        manual_commit_writes(s).len() > 0,
    ensures
        stage_at(s, manual("stage"@)) == Some(ManualModelStage::Id) ==> manual_commit_writes(s)[0]
            == put_text(manual("stage"@), stage_text(ManualModelStage::Ctx)),
        stage_at(s, manual("stage"@)) == Some(ManualModelStage::Ctx) ==> manual_commit_writes(s)[0]
            == put_text(manual("stage"@), stage_text(ManualModelStage::Out)),
{
}

/// The context size confirmed at the second stage is the one the model gets at
/// the last: its kept text reads back as the same number.
pub proof fn confirmed_context_reaches_model(s: SnapshotView, t: SnapshotView, out: u32)
    requires
        stage_at(s, manual("stage"@)) == Some(ManualModelStage::Ctx),
        manual_commit_writes(s).len() > 0,
        t.at(manual("staged_ctx"@)) == Some(manual_commit_writes(s)[1].value),
    ensures
        entered_model(t, out).max_context_size == spelled_size(
            trimmed(text_or_empty(s, manual("buffer"@))),
        ),
{
    let n = spelled_size(trimmed(text_or_empty(s, manual("buffer"@))))->0;
    assert(manual_commit_writes(s)[1].value == ValueView::String(decimal(n as nat)));
    decimal_reads_back(n);
}

/// Finishing the form appends exactly one model to the catalog, keeps the ones
/// there were, and clears the form just as cancelling does.
pub proof fn finishing_appends_one_model(s: SnapshotView)
    requires
        stage_at(s, manual("stage"@)) == Some(ManualModelStage::Out),
        manual_commit_writes(s).len() > 0,
    ensures
        ({
            let account = text_or_empty(s, manual("account"@));
            let w = manual_commit_writes(s);
            let old_models = models_or_empty(s, catalog(account));
            &&& w[0].path == catalog(account)
            &&& exists|m: ModelView|
                #![trigger old_models.push(m)]
                w[0].value == models_value(old_models.push(m)) && m.source
                    == ModelInfoSource::UserEntered
            &&& w.subrange(1, w.len() as int) == manual_cancel_writes()
        }),
{
    let account = text_or_empty(s, manual("account"@));
    let w = manual_commit_writes(s);
    let old_models = models_or_empty(s, catalog(account));
    let out = spelled_size(trimmed(text_or_empty(s, manual("buffer"@))))->0;
    let m = entered_model(s, out);
    assert(w[0].value == models_value(old_models.push(m)));
    assert(w.subrange(1, w.len() as int) =~= manual_cancel_writes());
}

/// The last component of the cursor at a stage.
pub open spec fn stage_leaf(stage: ManualModelStage) -> Seq<char> {
    match stage {
        ManualModelStage::Id => "id"@,
        ManualModelStage::Ctx => "ctx"@,
        ManualModelStage::Out => "out"@,
    }
}

/// The cursor at a stage.
pub open spec fn stage_focus(stage: ManualModelStage) -> Seq<Seq<char>> {
    seq!["settings"@, "_manual_model"@, stage_leaf(stage)]
}

/// The stage whose cursor this is.
pub open spec fn stage_of_cursor(cursor: Seq<Seq<char>>) -> Option<ManualModelStage> {
    if cursor == stage_focus(ManualModelStage::Id) {
        Some(ManualModelStage::Id)
    } else if cursor == stage_focus(ManualModelStage::Ctx) {
        Some(ManualModelStage::Ctx)
    } else if cursor == stage_focus(ManualModelStage::Out) {
        Some(ManualModelStage::Out)
    } else {
        None
    }
}

/// The cursor at a stage.
pub fn manual_model_focus_path(stage: ManualModelStage) -> (r: Path)
    ensures
        r@ == stage_focus(stage),
{
    match stage {
        ManualModelStage::Id => path3("settings", "_manual_model", "id"),
        ManualModelStage::Ctx => path3("settings", "_manual_model", "ctx"),
        ManualModelStage::Out => path3("settings", "_manual_model", "out"),
    }
}

/// The stage whose cursor this is.
pub fn cursor_to_manual_model_stage(cursor: &Path) -> (r: Option<ManualModelStage>)
    ensures
        r == stage_of_cursor(cursor@),
{
    if cursor.same_as(&manual_model_focus_path(ManualModelStage::Id)) {
        Some(ManualModelStage::Id)
    } else if cursor.same_as(&manual_model_focus_path(ManualModelStage::Ctx)) {
        Some(ManualModelStage::Ctx)
    } else if cursor.same_as(&manual_model_focus_path(ManualModelStage::Out)) {
        Some(ManualModelStage::Out)
    } else {
        None
    }
}

/// A stage's cursor is that stage's, and no other's.
pub proof fn stage_focus_names_stage(stage: ManualModelStage)
    ensures
        stage_of_cursor(stage_focus(stage)) == Some(stage),
{
    reveal_strlit("id");
    reveal_strlit("ctx");
    reveal_strlit("out");
    assert("id"@[0] == 'i');
    assert("ctx"@[0] == 'c');
    assert("out"@[0] == 'o');
    assert(stage_focus(ManualModelStage::Id)[2] == "id"@);
    assert(stage_focus(ManualModelStage::Ctx)[2] == "ctx"@);
    assert(stage_focus(ManualModelStage::Out)[2] == "out"@);
}

} // verus!
