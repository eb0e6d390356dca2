//! Editing a field in its row. The focus sitting at `settings/_edit` is what
//! being in edit mode means; the edited row, the text typed so far and the
//! focus to return to are kept below `ui/settings/edit`.

use crate::command_registry::{CommandCtx, CommandRegistry};
use crate::keys::{KeyChord, KeyCodeRepr};
use crate::path::{component_ok, path2, path3, path4, path5, path_ok, valid_component, Path};
use crate::registry::Renderer;
use crate::renderers::util::{
    models_at, models_to_value, models_value, path_at, provider_at, read_models, read_provider,
    read_text, read_text_or_empty, text_at, text_or_empty,
};
use crate::visible_rows::{row_at, row_at_path, visible, KindView, RowKind, RowView, VisibleRow};
use crate::snapshot::{SettingsSnapshot, SnapshotView};
use crate::text::{
    ascii_digit, chars_of, control_char, decimal, decimal_reads_back, is_ascii_digit, is_control,
    number_text, parse_u32, same, spelled_u32,
};
use crate::types::{
    blank_provider, models_view, opt_text, AccountField, ModelField, ModelInfo, ModelInfoSource,
    ModelView, ProviderConfig, ProviderView,
};
use crate::value::{
    null_write, put, put_null, put_path, put_text, write_at, write_text, writes_view, StoreValue,
    ValueView, Write, WriteView,
};
use vstd::prelude::*;
use vstd::string::*;

use super::account_model::{focused_path, focused_row, focused_visible_row};
use super::compose::{char_typed, focused_path as focus_place, typed_char};
use super::manual_model::catalog;
use super::navigation::{path_to_value, path_value_round_trip, read_path};
use super::selectors::{
    assembled_account, bound_provider, provider_place, read_account_assembling_flat,
    read_bound_provider,
};
use super::settings_command::{install, installed, new_to, Action, SettingsCommand};

verus! {

/// A place of the edit state.
pub open spec fn edit_part(part: Seq<char>) -> Seq<Seq<char>> {
    seq!["ui"@, "settings"@, "edit"@, part]
}

/// The root of the edit state.
pub open spec fn edit_root() -> Seq<Seq<char>> {
    seq!["ui"@, "settings"@, "edit"@]
}

/// Where the focus sits while a field is edited.
pub open spec fn edit_focus() -> Seq<Seq<char>> {
    seq!["settings"@, "_edit"@]
}

/// Where an account's key lives.
pub open spec fn key_place(account: Seq<char>) -> Seq<Seq<char>> {
    seq!["secret"@, "keys"@, account]
}

/// The endpoint an account's provider has.
pub open spec fn endpoint_of(s: SnapshotView, account: Seq<char>) -> Option<Seq<char>> {
    match assembled_account(s, account) {
        None => None,
        Some(a) => if !component_ok(a.provider) {
            None
        } else {
            match provider_at(s, provider_place(a.provider)) {
                Some(p) => Some(p.endpoint),
                None => None,
            }
        },
    }
}

/// The key an account has.
pub open spec fn key_of(s: SnapshotView, account: Seq<char>) -> Option<Seq<char>> {
    if component_ok(account) {
        text_at(s, key_place(account))
    } else {
        None
    }
}

/// The first model with an id.
pub open spec fn model_place(models: Seq<ModelView>, id: Seq<char>) -> Option<int>
    decreases models.len(),
{
    if models.len() == 0 {
        None
    } else {
        match model_place(models.drop_last(), id) {
            Some(i) => Some(i),
            None => if models.last().id == id {
                Some(models.len() - 1)
            } else {
                None
            },
        }
    }
}

/// `model_place` finds a model with the id, the first one, whenever there is
/// one.
pub proof fn model_place_is_first(models: Seq<ModelView>, id: Seq<char>)
    ensures
        match model_place(models, id) {
            Some(i) => 0 <= i < models.len() && models[i].id == id && forall|j: int|
                0 <= j < i ==> (#[trigger] models[j]).id != id,
            None => forall|j: int| 0 <= j < models.len() ==> (#[trigger] models[j]).id != id,
        },
    decreases models.len(),
{
    if models.len() > 0 {
        let t = models.drop_last();
        model_place_is_first(t, id);
        match model_place(models, id) {
            Some(i) => {
                assert forall|j: int| 0 <= j < i implies (#[trigger] models[j]).id != id by {
                    assert(t[j] == models[j]);
                }
            },
            None => {
                assert forall|j: int| 0 <= j < models.len() implies (#[trigger] models[j]).id
                    != id by {
                    if j < t.len() {
                        assert(t[j] == models[j]);
                    }
                }
            },
        }
    }
}

/// The first model with an id.
pub fn place_of_model(models: &Vec<ModelInfo>, id: &str) -> (r: Option<usize>)
    ensures
        match r {
            Some(i) => i < models@.len() && model_place(models_view(models@), id@) == Some(
                i as int,
            ),
            None => model_place(models_view(models@), id@) is None,
        },
{
    let ghost all = models_view(models@);
    let mut i: usize = 0;
    proof {
        model_place_is_first(all, id@);
    }
    while i < models.len()
        invariant
            i <= models@.len(),
            all == models_view(models@),
            forall|j: int| 0 <= j < i ==> (#[trigger] all[j]).id != id@,
            match model_place(all, id@) {
                Some(i) => 0 <= i < all.len() && all[i].id == id@ && forall|j: int|
                    0 <= j < i ==> (#[trigger] all[j]).id != id@,
                None => forall|j: int| 0 <= j < all.len() ==> (#[trigger] all[j]).id != id@,
            },
        decreases models@.len() - i,
    {
        if same(models[i].id.as_str(), id) {
            proof {
                assert(all[i as int].id == id@);
            }
            return Some(i);
        }
        i += 1;
    }
    None
}

/// The figure of a model that a field overrides.
pub open spec fn override_of(m: ModelView, field: ModelField) -> Option<u32> {
    match field {
        ModelField::ContextSizeOverride => m.max_context_size,
        ModelField::OutputTokensOverride => m.max_output_tokens,
    }
}

/// The text a figure is edited as.
pub open spec fn figure_text(n: Option<u32>) -> Seq<char> {
    match n {
        Some(n) => decimal(n as nat),
        None => Seq::empty(),
    }
}

/// The text of a model's override.
pub open spec fn override_text(
    s: SnapshotView,
    account: Seq<char>,
    model_id: Seq<char>,
    field: ModelField,
) -> Option<Seq<char>> {
    if !component_ok(account) {
        None
    } else {
        match models_at(s, catalog(account)) {
            None => None,
            Some(models) => match model_place(models, model_id) {
                None => None,
                Some(i) => Some(figure_text(override_of(models[i], field))),
            },
        }
    }
}

/// `o`, or the empty text.
pub open spec fn or_empty(o: Option<Seq<char>>) -> Seq<char> {
    match o {
        Some(t) => t,
        None => Seq::empty(),
    }
}

fn unwrap_or_empty(o: Option<String>) -> (r: String)
    ensures
        r@ == or_empty(opt_text(o)),
{
    match o {
        Some(t) => t,
        None => {
            let s: String = String::new();
            proof {
                assert(s@ =~= Seq::<char>::empty());
            }
            s
        },
    }
}

/// The endpoint an account's provider has.
pub fn current_endpoint(data: &SettingsSnapshot, account: &str) -> (r: Option<String>)
    ensures
        opt_text(r) == endpoint_of(data@, account@),
{
    match read_account_assembling_flat(data, account) {
        None => None,
        Some(a) => if !valid_component(a.provider.as_str()) {
            None
        } else {
            match read_provider(
                data,
                &path4("config", "gate", "providers", a.provider.as_str()),
            ) {
                Some(p) => Some(p.endpoint),
                None => None,
            }
        },
    }
}

/// The key an account has.
pub fn current_api_key(data: &SettingsSnapshot, account: &str) -> (r: Option<String>)
    ensures
        opt_text(r) == key_of(data@, account@),
{
    if valid_component(account) {
        read_text(data, &path3("secret", "keys", account))
    } else {
        None
    }
}

/// The text of a model's override.
pub fn current_model_override(
    data: &SettingsSnapshot,
    account: &str,
    model_id: &str,
    field: ModelField,
) -> (r: Option<String>)
    ensures
        opt_text(r) == override_text(data@, account@, model_id@, field),
{
    if !valid_component(account) {
        return None;
    }
    match read_models(data, &path5("config", "gate", "accounts", account, "models")) {
        None => None,
        Some(models) => match place_of_model(&models, model_id) {
            None => None,
            Some(i) => {
                let figure: Option<u32> = match field {
                    ModelField::ContextSizeOverride => models[i].max_context_size,
                    ModelField::OutputTokensOverride => models[i].max_output_tokens,
                };
                proof {
                    assert(models_view(models@)[i as int] == models@[i as int]@);
                }
                Some(
                    unwrap_or_empty(
                        match figure {
                            Some(n) => Some(number_text(n as u64)),
                            None => None,
                        },
                    ),
                )
            },
        },
    }
}

/// The writes that enter edit mode on a row.
pub open spec fn enter_writes(row: Seq<Seq<char>>, buffer: Seq<char>) -> Seq<WriteView> {
    seq![
        put_path(edit_part("target_path"@), row),
        put_text(edit_part("buffer"@), buffer),
        put_path(edit_part("cursor_saved"@), row),
        put_path(focus_place(), edit_focus()),
    ]
}

/// Enters edit mode on a row, with a text to start from.
pub fn enter_edit_mode(field_path: &Path, buffer: String) -> (r: Vec<Write>)
    ensures
        writes_view(r@) == enter_writes(field_path@, buffer@),
{
    let mut out: Vec<Write> = Vec::new();
    out.push(write_at(path4("ui", "settings", "edit", "target_path"), path_to_value(field_path)));
    out.push(write_text(path4("ui", "settings", "edit", "buffer"), buffer));
    out.push(write_at(path4("ui", "settings", "edit", "cursor_saved"), path_to_value(field_path)));
    out.push(
        write_at(path3("ui", "settings", "focused"), path_to_value(&path2("settings", "_edit"))),
    );
    proof {
        assert(writes_view(out@) =~= enter_writes(field_path@, buffer@));
    }
    out
}

/// The text that editing an account's field starts from; `None` where the
/// field is not edited as text.
pub open spec fn account_field_text(
    s: SnapshotView,
    account: Seq<char>,
    field: AccountField,
) -> Option<Seq<char>> {
    match field {
        AccountField::Endpoint => Some(or_empty(endpoint_of(s, account))),
        AccountField::Key => Some(or_empty(key_of(s, account))),
        _ => None,
    }
}

/// The writes that begin editing the focused account field.
pub open spec fn begin_account_writes(s: SnapshotView, field: AccountField) -> Seq<WriteView> {
    match focused_row(s) {
        Some(row) => match row.kind {
            KindView::AccountField { account, field: row_field } => if row_field == field {
                match account_field_text(s, account, field) {
                    Some(text) => enter_writes(row.path, text),
                    None => Seq::empty(),
                }
            } else {
                Seq::empty()
            },
            _ => Seq::empty(),
        },
        None => Seq::empty(),
    }
}

/// Begins editing the focused account field, where it is `field` and a text.
pub fn begin_edit_account_text(data: &SettingsSnapshot, field: AccountField) -> (r: Vec<Write>)
    ensures
        writes_view(r@) == begin_account_writes(data@, field),
{
    let none: Vec<Write> = Vec::new();
    proof {
        assert(writes_view(none@) =~= Seq::<WriteView>::empty());
    }
    match focused_visible_row(data) {
        None => none,
        Some(row) => match &row.kind {
            RowKind::AccountField { account, field: row_field } => {
                if *row_field != field {
                    return none;
                }
                let initial: String = match field {
                    AccountField::Endpoint => unwrap_or_empty(
                        current_endpoint(data, account.as_str()),
                    ),
                    AccountField::Key => unwrap_or_empty(current_api_key(data, account.as_str())),
                    _ => {
                        return none;
                    },
                };
                enter_edit_mode(&row.path, initial)
            },
            _ => none,
        },
    }
}

/// Begins editing the focused endpoint.
pub fn begin_edit_account_endpoint(data: &SettingsSnapshot) -> (r: Vec<Write>)
    ensures
        writes_view(r@) == begin_account_writes(data@, AccountField::Endpoint),
{
    begin_edit_account_text(data, AccountField::Endpoint)
}

/// Begins editing the focused key.
pub fn begin_edit_account_key(data: &SettingsSnapshot) -> (r: Vec<Write>)
    ensures
        writes_view(r@) == begin_account_writes(data@, AccountField::Key),
{
    begin_edit_account_text(data, AccountField::Key)
}

/// The writes that begin editing the focused model override.
pub open spec fn begin_model_writes(s: SnapshotView) -> Seq<WriteView> {
    match focused_row(s) {
        Some(row) => match row.kind {
            KindView::ModelField { account, model_id, field } => enter_writes(
                row.path,
                or_empty(override_text(s, account, model_id, field)),
            ),
            _ => Seq::empty(),
        },
        None => Seq::empty(),
    }
}

/// Begins editing the focused model override.
pub fn begin_edit_model_field(data: &SettingsSnapshot) -> (r: Vec<Write>)
    ensures
        writes_view(r@) == begin_model_writes(data@),
{
    let none: Vec<Write> = Vec::new();
    proof {
        assert(writes_view(none@) =~= Seq::<WriteView>::empty());
    }
    match focused_visible_row(data) {
        None => none,
        Some(row) => match &row.kind {
            RowKind::ModelField { account, model_id, field } => {
                let initial: String = unwrap_or_empty(
                    current_model_override(data, account.as_str(), model_id.as_str(), *field),
                );
                enter_edit_mode(&row.path, initial)
            },
            _ => none,
        },
    }
}

/// The write that clears the edit state.
pub fn clear_edit_subtree() -> (r: Write)
    ensures
        r@ == put_null(edit_root()),
{
    null_write(path3("ui", "settings", "edit"))
}

/// Whether a row takes a character: model figures take digits, account fields
/// take anything, other rows nothing.
pub open spec fn row_takes(row: Option<RowView>, c: char) -> bool {
    match row {
        Some(r) => match r.kind {
            KindView::ModelField { .. } => ascii_digit(c),
            KindView::AccountField { .. } => true,
            _ => false,
        },
        None => false,
    }
}

/// The row that is edited.
pub open spec fn edited_row(s: SnapshotView, target: Seq<Seq<char>>) -> Option<RowView> {
    match path_at(s, target) {
        Some(p) => row_at(visible(s), p),
        None => None,
    }
}

/// The writes of typing a character into a buffer whose row is stored at
/// `target`.
pub open spec fn typed_writes(
    s: SnapshotView,
    buffer: Seq<Seq<char>>,
    target: Seq<Seq<char>>,
    c: char,
) -> Seq<WriteView> {
    if row_takes(edited_row(s, target), c) {
        seq![put_text(buffer, text_or_empty(s, buffer).push(c))]
    } else {
        Seq::empty()
    }
}

/// The row stored at `target`.
fn row_edited(data: &SettingsSnapshot, target: &Path) -> (r: Option<VisibleRow>)
    ensures
        r is Some <==> edited_row(data@, target@) is Some,
        r is Some ==> r->0@ == edited_row(data@, target@)->0,
{
    match read_path(data, target) {
        None => None,
        Some(p) => row_at_path(data, &p),
    }
}

/// Types a character into a buffer, where the row it is for takes it.
pub fn insert_char_into_edit_buffer(
    data: &SettingsSnapshot,
    buffer_path: &Path,
    target_path: &Path,
    ch: char,
) -> (r: Vec<Write>)
    ensures
        writes_view(r@) == typed_writes(data@, buffer_path@, target_path@, ch),
{
    let mut out: Vec<Write> = Vec::new();
    let accept: bool = match row_edited(data, target_path) {
        Some(row) => match &row.kind {
            RowKind::ModelField { .. } => is_ascii_digit(ch),
            RowKind::AccountField { .. } => true,
            _ => false,
        },
        None => false,
    };
    if accept {
        let mut next: String = read_text_or_empty(data, buffer_path);
        next.push(ch);
        out.push(write_text(buffer_path.copied(), next));
    }
    proof {
        assert(writes_view(out@) =~= typed_writes(data@, buffer_path@, target_path@, ch));
    }
    out
}

/// The writes of typing the pressed character into the edited field.
pub open spec fn insert_writes(s: SnapshotView, key: Option<KeyChord>) -> Seq<WriteView> {
    match typed_char(key) {
        Some(c) => typed_writes(s, edit_part("buffer"@), edit_part("target_path"@), c),
        None => Seq::empty(),
    }
}

/// Types the pressed character into the edited field.
pub fn insert_char<R: Renderer>(data: &SettingsSnapshot, ctx: &CommandCtx<'_, R>) -> (r: Vec<
    Write,
>)
    ensures
        writes_view(r@) == insert_writes(data@, ctx@.last_keystroke),
{
    match char_typed(&ctx.last_keystroke) {
        Some(ch) => insert_char_into_edit_buffer(
            data,
            &path4("ui", "settings", "edit", "buffer"),
            &path4("ui", "settings", "edit", "target_path"),
            ch,
        ),
        None => {
            let none: Vec<Write> = Vec::new();
            proof {
                assert(writes_view(none@) =~= Seq::<WriteView>::empty());
            }
            none
        },
    }
}

/// Takes every printable character at the scope it is registered for, and
/// types it into a buffer.
#[derive(Clone, Debug, PartialEq, Eq)]
pub struct TextInputHandler {
    pub buffer_path: Path,
    pub target_path: Path,
}

/// The character a text handler claims: one that is no control character, with
/// no modifier but shift.
pub open spec fn claimed_char(key: KeyChord) -> Option<char> {
    if key.modifiers.ctrl || key.modifiers.alt || key.modifiers.super_ {
        None
    } else {
        match key.code {
            KeyCodeRepr::Char(c) => if control_char(c) {
                None
            } else {
                Some(c)
            },
            _ => None,
        }
    }
}

impl TextInputHandler {
    /// A handler that types into the buffer at `buffer_path`, for the row
    /// stored at `target_path`.
    pub fn new(buffer_path: Path, target_path: Path) -> (r: TextInputHandler)
        ensures
            r.buffer_path == buffer_path,
            r.target_path == target_path,
    {
        TextInputHandler { buffer_path, target_path }
    }

    /// The writes for a key the handler claims; `None` for any other key.
    pub fn handle(&self, snapshot: &SettingsSnapshot, key: &KeyChord) -> (r: Option<Vec<Write>>)
        ensures
            r is Some <==> claimed_char(*key) is Some,
            r is Some ==> writes_view(r->0@) == typed_writes(
                snapshot@,
                self.buffer_path@,
                self.target_path@,
                claimed_char(*key)->0,
            ),
    {
        if key.modifiers.ctrl || key.modifiers.alt || key.modifiers.super_ {
            return None;
        }
        match key.code {
            KeyCodeRepr::Char(c) => if is_control(c) {
                None
            } else {
                Some(
                    insert_char_into_edit_buffer(
                        snapshot,
                        &self.buffer_path,
                        &self.target_path,
                        c,
                    ),
                )
            },
            _ => None,
        }
    }
}

/// The writes of taking the last character off the edited field.
pub open spec fn delete_writes(s: SnapshotView) -> Seq<WriteView> {
    let text = text_or_empty(s, edit_part("buffer"@));
    if text.len() > 0 {
        seq![put_text(edit_part("buffer"@), text.drop_last())]
    } else {
        Seq::empty()
    }
}

/// Takes the last character off the edited field, where there is one.
pub fn delete_back(data: &SettingsSnapshot) -> (r: Vec<Write>)
    ensures
        writes_view(r@) == delete_writes(data@),
{
    let mut out: Vec<Write> = Vec::new();
    let mut current: String = read_text_or_empty(
        data,
        &path4("ui", "settings", "edit", "buffer"),
    );
    if current.pop().is_some() {
        out.push(write_text(path4("ui", "settings", "edit", "buffer"), current));
    }
    proof {
        assert(writes_view(out@) =~= delete_writes(data@));
    }
    out
}

/// The focus that cancelling returns to.
pub open spec fn saved_focus(s: SnapshotView) -> Seq<Seq<char>> {
    match path_at(s, edit_part("cursor_saved"@)) {
        Some(p) => p,
        None => seq!["settings"@, "accounts"@],
    }
}

/// The writes of leaving edit mode without saving.
pub open spec fn cancel_writes(s: SnapshotView) -> Seq<WriteView> {
    seq![put_path(focus_place(), saved_focus(s)), put_null(edit_root())]
}

/// Leaves edit mode without saving: the focus returns to where it was.
pub fn cancel(data: &SettingsSnapshot) -> (r: Vec<Write>)
    ensures
        writes_view(r@) == cancel_writes(data@),
{
    let saved: Path = match read_path(data, &path4("ui", "settings", "edit", "cursor_saved")) {
        Some(p) => p,
        None => path2("settings", "accounts"),
    };
    let mut out: Vec<Write> = Vec::new();
    out.push(write_at(path3("ui", "settings", "focused"), path_to_value(&saved)));
    out.push(clear_edit_subtree());
    proof {
        assert(writes_view(out@) =~= cancel_writes(data@));
    }
    out
}

/// The writes that save the text of an account field.
pub open spec fn save_account_writes(
    s: SnapshotView,
    account: Seq<char>,
    field: AccountField,
    text: Seq<char>,
) -> Seq<WriteView> {
    if !component_ok(account) {
        Seq::empty()
    } else {
        match field {
            AccountField::Endpoint => {
                let name = bound_provider(s, account);
                if !component_ok(name) {
                    Seq::empty()
                } else {
                    let p = match provider_at(s, provider_place(name)) {
                        Some(p) => p,
                        None => blank_provider(name),
                    };
                    seq![
                        put(
                            provider_place(name),
                            ValueView::Provider(ProviderView { endpoint: text, ..p }),
                        ),
                    ]
                }
            },
            AccountField::Key => seq![put_text(key_place(account), text)],
            _ => Seq::empty(),
        }
    }
}

/// Saves the text of an account field: the endpoint in the provider the account
/// is bound to, the key among the secrets.
pub fn commit_account_field(
    data: &SettingsSnapshot,
    account: &str,
    field: AccountField,
    buffer: &str,
) -> (r: Vec<Write>)
    ensures
        writes_view(r@) == save_account_writes(data@, account@, field, buffer@),
{
    let mut out: Vec<Write> = Vec::new();
    if valid_component(account) {
        match field {
            AccountField::Endpoint => {
                let name: String = read_bound_provider(data, account);
                if valid_component(name.as_str()) {
                    let place: Path = path4("config", "gate", "providers", name.as_str());
                    let mut provider: ProviderConfig = match read_provider(data, &place) {
                        Some(p) => p,
                        None => ProviderConfig::blank(name.as_str()),
                    };
                    provider.endpoint = buffer.to_owned();
                    out.push(write_at(place, StoreValue::Provider(provider)));
                }
            },
            AccountField::Key => {
                out.push(write_text(path3("secret", "keys", account), buffer.to_owned()));
            },
            _ => {},
        }
    }
    proof {
        assert(writes_view(out@) =~= save_account_writes(data@, account@, field, buffer@));
    }
    out
}

/// The figure that a typed text stands for: none for the empty text. `None`
/// where the text is no number.
pub open spec fn typed_figure(text: Seq<char>) -> Option<Option<u32>> {
    if text.len() == 0 {
        Some(None)
    } else {
        match spelled_u32(text) {
            Some(n) => Some(Some(n)),
            None => None,
        }
    }
}

/// A model with another figure, marked as overridden.
pub open spec fn overridden(m: ModelView, field: ModelField, n: Option<u32>) -> ModelView {
    match field {
        ModelField::ContextSizeOverride => ModelView {
            max_context_size: n,
            source: ModelInfoSource::UserOverride,
            ..m
        },
        ModelField::OutputTokensOverride => ModelView {
            max_output_tokens: n,
            source: ModelInfoSource::UserOverride,
            ..m
        },
    }
}

/// The writes that save a model override.
pub open spec fn save_model_writes(
    s: SnapshotView,
    account: Seq<char>,
    model_id: Seq<char>,
    field: ModelField,
    text: Seq<char>,
) -> Seq<WriteView> {
    if !component_ok(account) {
        Seq::empty()
    } else {
        match models_at(s, catalog(account)) {
            None => Seq::empty(),
            Some(models) => match (model_place(models, model_id), typed_figure(text)) {
                (Some(i), Some(n)) => seq![
                    put(
                        catalog(account),
                        models_value(models.update(i, overridden(models[i], field, n))),
                    ),
                ],
                _ => Seq::empty(),
            },
        }
    }
}

fn parse_figure(text: &str) -> (r: Option<Option<u32>>)
    ensures
        r == typed_figure(text@),
{
    if chars_of(text).len() == 0 {
        Some(None)
    } else {
        match parse_u32(text) {
            Some(n) => Some(Some(n)),
            None => None,
        }
    }
}

/// Saves a model override in its account's catalog. Nothing is saved where the
/// model is not in the catalog, or the text is no number.
pub fn commit_model_field(
    data: &SettingsSnapshot,
    account: &str,
    model_id: &str,
    field: ModelField,
    buffer: &str,
) -> (r: Vec<Write>)
    ensures
        writes_view(r@) == save_model_writes(data@, account@, model_id@, field, buffer@),
{
    let mut out: Vec<Write> = Vec::new();
    proof {
        assert(writes_view(out@) =~= Seq::<WriteView>::empty());
    }
    if !valid_component(account) {
        return out;
    }
    let place: Path = path5("config", "gate", "accounts", account, "models");
    let mut models: Vec<ModelInfo> = match read_models(data, &place) {
        Some(m) => m,
        None => {
            return out;
        },
    };
    let ghost before = models_view(models@);
    let i: usize = match place_of_model(&models, model_id) {
        Some(i) => i,
        None => {
            return out;
        },
    };
    let figure: Option<u32> = match parse_figure(buffer) {
        Some(n) => n,
        None => {
            return out;
        },
    };
    let mut model: ModelInfo = models[i].copied();
    match field {
        ModelField::ContextSizeOverride => {
            model.max_context_size = figure;
        },
        ModelField::OutputTokensOverride => {
            model.max_output_tokens = figure;
        },
    }
    model.source = ModelInfoSource::UserOverride;
    let ghost changed = model@;
    models.set(i, model);
    proof {
        assert(before[i as int] == models_view(models@).update(i as int, before[i as int])[i as int]);
        assert(changed == overridden(before[i as int], field, figure));
        assert(models_view(models@) =~= before.update(i as int, changed));
    }
    out.push(write_at(place, models_to_value(&models)));
    proof {
        assert(writes_view(out@) =~= save_model_writes(
            data@,
            account@,
            model_id@,
            field,
            buffer@,
        ));
    }
    out
}

/// The writes that save the edited text where its row keeps it.
pub open spec fn save_writes(s: SnapshotView, row: Option<RowView>, text: Seq<char>) -> Seq<
    WriteView,
> {
    match row {
        Some(r) => match r.kind {
            KindView::AccountField { account, field } => save_account_writes(
                s,
                account,
                field,
                text,
            ),
            KindView::ModelField { account, model_id, field } => save_model_writes(
                s,
                account,
                model_id,
                field,
                text,
            ),
            _ => Seq::empty(),
        },
        None => Seq::empty(),
    }
}

/// The writes of leaving edit mode and saving. Without an edited row it is
/// left as if cancelled.
pub open spec fn commit_writes(s: SnapshotView) -> Seq<WriteView> {
    match path_at(s, edit_part("target_path"@)) {
        None => cancel_writes(s),
        Some(p) => save_writes(s, row_at(visible(s), p), text_or_empty(s, edit_part("buffer"@)))
            + seq![put_path(focus_place(), p), put_null(edit_root())],
    }
}

/// Leaves edit mode and saves: the focus returns to the edited row.
pub fn commit(data: &SettingsSnapshot) -> (r: Vec<Write>)
    ensures
        writes_view(r@) == commit_writes(data@),
{
    let target = path4("ui", "settings", "edit", "target_path");
    let field_path: Path = match read_path(data, &target) {
        Some(p) => p,
        None => {
            return cancel(data);
        },
    };
    let buffer: String = read_text_or_empty(data, &path4("ui", "settings", "edit", "buffer"));
    let mut out: Vec<Write> = match row_edited(data, &target) {
        Some(row) => match &row.kind {
            RowKind::AccountField { account, field } => commit_account_field(
                data,
                account.as_str(),
                *field,
                buffer.as_str(),
            ),
            RowKind::ModelField { account, model_id, field } => commit_model_field(
                data,
                account.as_str(),
                model_id.as_str(),
                *field,
                buffer.as_str(),
            ),
            _ => Vec::new(),
        },
        None => Vec::new(),
    };
    let ghost saved = writes_view(out@);
    proof {
        assert(saved =~= save_writes(data@, edited_row(data@, target@), buffer@));
    }
    out.push(write_at(path3("ui", "settings", "focused"), path_to_value(&field_path)));
    out.push(clear_edit_subtree());
    proof {
        assert(writes_view(out@) =~= saved + seq![
            put_path(focus_place(), field_path@),
            put_null(edit_root()),
        ]);
    }
    out
}

/// What a page needs to know of an ongoing edit.
#[derive(Clone, Debug, PartialEq, Eq)]
pub struct EditState {
    pub field_path: Path,
    pub buffer: String,
}

/// What an `EditState` holds.
pub struct EditView {
    pub field_path: Seq<Seq<char>>,
    pub buffer: Seq<char>,
}

impl View for EditState {
    type V = EditView;

    open spec fn view(&self) -> EditView {
        EditView { field_path: self.field_path@, buffer: self.buffer@ }
    }
}

/// The ongoing edit, where there is one.
pub open spec fn edit_state(s: SnapshotView) -> Option<EditView> {
    if path_at(s, focus_place()) != Some(edit_focus()) {
        None
    } else {
        match path_at(s, edit_part("target_path"@)) {
            Some(p) => Some(
                EditView { field_path: p, buffer: text_or_empty(s, edit_part("buffer"@)) },
            ),
            None => None,
        }
    }
}

/// The ongoing edit, where there is one.
pub fn read_edit_state(data: &SettingsSnapshot) -> (r: Option<EditState>)
    ensures
        r is Some <==> edit_state(data@) is Some,
        r is Some ==> r->0@ == edit_state(data@)->0,
{
    if !cursor_is_at_edit(data) {
        return None;
    }
    match read_path(data, &path4("ui", "settings", "edit", "target_path")) {
        Some(field_path) => {
            let buffer: String = read_text_or_empty(
                data,
                &path4("ui", "settings", "edit", "buffer"),
            );
            Some(EditState { field_path, buffer })
        },
        None => None,
    }
}

/// Whether a field is being edited.
pub fn cursor_is_at_edit(data: &SettingsSnapshot) -> (r: bool)
    ensures
        r == (path_at(data@, focus_place()) == Some(edit_focus())),
{
    match focused_path(data) {
        Some(p) => p.same_as(&path2("settings", "_edit")),
        None => false,
    }
}

/// Cancelling undoes entering: where the store has taken over what entering
/// edit mode wrote, cancelling returns the focus to the row it was entered
/// from, and writes nothing else but the clearing of the edit state.
pub proof fn cancelling_returns_to_row(
    row: Seq<Seq<char>>,
    buffer: Seq<char>,
    s: SnapshotView,
)
    requires
        path_ok(row),
        s.at(edit_part("cursor_saved"@)) == Some(enter_writes(row, buffer)[2].value),
    ensures
        cancel_writes(s) == seq![put_path(focus_place(), row), put_null(edit_root())],
{
    path_value_round_trip(row);
}

/// Saving, too, returns the focus to the row edit mode was entered from, and
/// clears the edit state last.
pub proof fn saving_returns_to_row(row: Seq<Seq<char>>, buffer: Seq<char>, s: SnapshotView)
    requires
        path_ok(row),
        s.at(edit_part("target_path"@)) == Some(enter_writes(row, buffer)[0].value),
    ensures
        commit_writes(s).len() >= 2,
        commit_writes(s)[commit_writes(s).len() - 2] == put_path(focus_place(), row),
        commit_writes(s).last() == put_null(edit_root()),
{
    path_value_round_trip(row);
}

/// Deleting undoes typing into the edited field.
pub proof fn deleting_undoes_typing(s: SnapshotView, key: KeyChord, t: SnapshotView)
    requires
        insert_writes(s, Some(key)).len() > 0,
        t.at(edit_part("buffer"@)) == Some(insert_writes(s, Some(key))[0].value),
    ensures
        delete_writes(t) == seq![
            put_text(edit_part("buffer"@), text_or_empty(s, edit_part("buffer"@))),
        ],
{
    let before = text_or_empty(s, edit_part("buffer"@));
    let c = typed_char(Some(key))->0;
    assert(insert_writes(s, Some(key))[0] == put_text(edit_part("buffer"@), before.push(c)));
    assert(text_or_empty(t, edit_part("buffer"@)) == before.push(c));
    assert(before.push(c).drop_last() =~= before);
}

/// Saving a model figure as it was offered for editing saves the same figure.
pub proof fn unchanged_figure_is_kept(n: Option<u32>)
    ensures
        typed_figure(figure_text(n)) == Some(n),
{
    match n {
        Some(k) => {
            decimal_reads_back(k);
            assert(decimal(k as nat).len() > 0);
        },
        None => {},
    }
}

/// The commands of this group.
pub open spec fn edit_actions() -> Seq<Action> {
    seq![
        Action::BeginEditAccountEndpoint,
        Action::BeginEditAccountKey,
        Action::BeginEditModelField,
        Action::InsertChar,
        Action::DeleteBack,
        Action::Commit,
        Action::Cancel,
    ]
}

/// Registers the commands of this group.
pub fn register(reg: &mut CommandRegistry<SettingsCommand>)
    ensures
        installed(old(reg)@, edit_actions(), final(reg)@),
        new_to(edit_actions(), old(reg)@) ==> final(reg)@.len() == old(reg)@.len() + edit_actions().len(),
{
    let actions: Vec<Action> = vec![
        Action::BeginEditAccountEndpoint,
        Action::BeginEditAccountKey,
        Action::BeginEditModelField,
        Action::InsertChar,
        Action::DeleteBack,
        Action::Commit,
        Action::Cancel,
    ];
    proof {
        assert(actions@ =~= edit_actions());
    }
    install(reg, &actions);
}

} // verus!
