//! The commands the settings screen comes with.

use crate::assoc::{assigned_length, lookup};
use crate::command_registry::{Command, CommandCtx, CommandRegistry, CtxView};
use crate::keys::{opt_path, CommandDisplay, CommandId, CommandScope, DisplayView, Screen};
use crate::path::{path2, path3, Path};
use crate::registry::Renderer;
use crate::renderers::SettingsRenderer;
use crate::snapshot::{SettingsSnapshot, SnapshotView};
use crate::types::{field_text, AccountField};
use crate::value::{null_write, put, put_null, put_text, writes_view, ValueView, Write, WriteView};
use vstd::prelude::*;
use vstd::string::*;

use super::account_model::{
    account_field_path, model_field_path, pending_delete_path, stepped_field, stepped_model_field,
};
use super::compose::{draft_root, field_order, field_place, focused_field, ring, CycleDir};
use super::highlight::Direction;
use super::{
    account_model, compose, edit, highlight, manual_model, modal, navigation, selectors, tree,
};

verus! {

/// What a command does.
#[derive(Clone, Copy, Debug, PartialEq, Eq, Structural)]
pub enum Action {
    AccountsComposeOpen,
    AccountsComposeInsertChar,
    AccountsComposeDeleteBack,
    AccountsComposeCycleForward,
    AccountsComposeCycleBack,
    AccountsComposeFocusNext,
    AccountsComposeFocusPrev,
    AccountsComposeCommit,
    AccountsComposeCancel,
    AccountsConfirmDelete,
    AccountsConfirmCancel,
    AccountsDeleteConfirm,
    AccountTest,
    AccountRefresh,
    ModelsSetBootstrap,
    ModelsToggleDefault,
    AppSave,
    FieldAccountNext,
    FieldAccountPrev,
    FieldModelNext,
    FieldModelPrev,
    SelectorCycleProtocol,
    SelectorCycleAuth,
    AccountsForkProvider,
    ModelsAddManual,
    ModelsManualInsertChar,
    ModelsManualDeleteBack,
    ModelsManualCommit,
    ModelsManualCancel,
    CycleFieldNext,
    CycleFieldPrev,
    BeginEditAccountEndpoint,
    BeginEditAccountKey,
    BeginEditModelField,
    InsertChar,
    DeleteBack,
    Commit,
    Cancel,
    HighlightIndexNext,
    HighlightIndexPrev,
    HighlightAccountsNext,
    HighlightAccountsPrev,
    HighlightModelsNext,
    HighlightModelsPrev,
    ToggleShortcuts,
    NavAscend,
    TreeNext,
    TreePrev,
    TreeActivate,
    TreeCollapseOrAscend,
}

/// What bindings call the command.
pub open spec fn action_id(a: Action) -> Seq<char> {
    match a {
        Action::AccountsComposeOpen => "accounts.compose.open"@,
        Action::AccountsComposeInsertChar => "accounts.compose.insert_char"@,
        Action::AccountsComposeDeleteBack => "accounts.compose.delete_back"@,
        Action::AccountsComposeCycleForward => "accounts.compose.cycle_forward"@,
        Action::AccountsComposeCycleBack => "accounts.compose.cycle_back"@,
        Action::AccountsComposeFocusNext => "accounts.compose.focus_next"@,
        Action::AccountsComposeFocusPrev => "accounts.compose.focus_prev"@,
        Action::AccountsComposeCommit => "accounts.compose.commit"@,
        Action::AccountsComposeCancel => "accounts.compose.cancel"@,
        Action::AccountsConfirmDelete => "accounts.confirm.delete"@,
        Action::AccountsConfirmCancel => "accounts.confirm.cancel"@,
        Action::AccountsDeleteConfirm => "accounts.delete_confirm"@,
        Action::AccountTest => "account.test"@,
        Action::AccountRefresh => "account.refresh"@,
        Action::ModelsSetBootstrap => "models.set_bootstrap"@,
        Action::ModelsToggleDefault => "models.toggle_default"@,
        Action::AppSave => "app.save"@,
        Action::FieldAccountNext => "field.account.next"@,
        Action::FieldAccountPrev => "field.account.prev"@,
        Action::FieldModelNext => "field.model.next"@,
        Action::FieldModelPrev => "field.model.prev"@,
        Action::SelectorCycleProtocol => "selector.cycle.protocol"@,
        Action::SelectorCycleAuth => "selector.cycle.auth"@,
        Action::AccountsForkProvider => "accounts.fork_provider"@,
        Action::ModelsAddManual => "models.add_manual"@,
        Action::ModelsManualInsertChar => "models.compose_manual.insert_char"@,
        Action::ModelsManualDeleteBack => "models.compose_manual.delete_back"@,
        Action::ModelsManualCommit => "models.compose_manual.commit"@,
        Action::ModelsManualCancel => "models.compose_manual.cancel"@,
        Action::CycleFieldNext => "cycle.field.next"@,
        Action::CycleFieldPrev => "cycle.field.prev"@,
        Action::BeginEditAccountEndpoint => "edit.begin.account_endpoint"@,
        Action::BeginEditAccountKey => "edit.begin.account_key"@,
        Action::BeginEditModelField => "edit.begin.model_field"@,
        Action::InsertChar => "edit.insert_char"@,
        Action::DeleteBack => "edit.delete_back"@,
        Action::Commit => "edit.commit"@,
        Action::Cancel => "edit.cancel"@,
        Action::HighlightIndexNext => "highlight.index.next"@,
        Action::HighlightIndexPrev => "highlight.index.prev"@,
        Action::HighlightAccountsNext => "highlight.accounts.next"@,
        Action::HighlightAccountsPrev => "highlight.accounts.prev"@,
        Action::HighlightModelsNext => "highlight.models.next"@,
        Action::HighlightModelsPrev => "highlight.models.prev"@,
        Action::ToggleShortcuts => "modal.toggle_shortcuts"@,
        Action::NavAscend => "nav.ascend"@,
        Action::TreeNext => "tree.next"@,
        Action::TreePrev => "tree.prev"@,
        Action::TreeActivate => "tree.activate"@,
        Action::TreeCollapseOrAscend => "tree.collapse_or_ascend"@,
    }
}

/// What the command is called on screen.
pub open spec fn action_title(a: Action) -> Seq<char> {
    match a {
        Action::AccountsComposeOpen => "New connection"@,
        Action::AccountsComposeInsertChar => "Insert character"@,
        Action::AccountsComposeDeleteBack => "Backspace"@,
        Action::AccountsComposeCycleForward => "Next option"@,
        Action::AccountsComposeCycleBack => "Previous option"@,
        Action::AccountsComposeFocusNext => "Next field"@,
        Action::AccountsComposeFocusPrev => "Previous field"@,
        Action::AccountsComposeCommit => "Create connection"@,
        Action::AccountsComposeCancel => "Cancel new connection"@,
        Action::AccountsConfirmDelete => "Confirm delete"@,
        Action::AccountsConfirmCancel => "Cancel delete"@,
        Action::AccountsDeleteConfirm => "Delete Connection…"@,
        Action::AccountTest => "Test Connection"@,
        Action::AccountRefresh => "Refresh Catalog"@,
        Action::ModelsSetBootstrap => "Set as Bootstrap"@,
        Action::ModelsToggleDefault => "Toggle Default-Available"@,
        Action::AppSave => "Save"@,
        Action::FieldAccountNext => "Next Field"@,
        Action::FieldAccountPrev => "Previous Field"@,
        Action::FieldModelNext => "Next Field"@,
        Action::FieldModelPrev => "Previous Field"@,
        Action::SelectorCycleProtocol => "Cycle Protocol"@,
        Action::SelectorCycleAuth => "Cycle Auth"@,
        Action::AccountsForkProvider => "Fork Provider"@,
        Action::ModelsAddManual => "Add Model Manually"@,
        Action::ModelsManualInsertChar => "Insert character (manual model)"@,
        Action::ModelsManualDeleteBack => "Backspace (manual model)"@,
        Action::ModelsManualCommit => "Commit stage (manual model)"@,
        Action::ModelsManualCancel => "Cancel manual model"@,
        Action::CycleFieldNext => "Cycle field next"@,
        Action::CycleFieldPrev => "Cycle field prev"@,
        Action::BeginEditAccountEndpoint => "Edit Endpoint"@,
        Action::BeginEditAccountKey => "Edit API Key"@,
        Action::BeginEditModelField => "Edit Model Override"@,
        Action::InsertChar => "Insert character"@,
        Action::DeleteBack => "Backspace"@,
        Action::Commit => "Commit"@,
        Action::Cancel => "Cancel"@,
        Action::HighlightIndexNext => "Highlight Next (Index)"@,
        Action::HighlightIndexPrev => "Highlight Prev (Index)"@,
        Action::HighlightAccountsNext => "Highlight Next (Connections)"@,
        Action::HighlightAccountsPrev => "Highlight Prev (Connections)"@,
        Action::HighlightModelsNext => "Highlight Next (Models)"@,
        Action::HighlightModelsPrev => "Highlight Prev (Models)"@,
        Action::ToggleShortcuts => "Show shortcuts"@,
        Action::NavAscend => "Go Back"@,
        Action::TreeNext => "Next Row"@,
        Action::TreePrev => "Previous Row"@,
        Action::TreeActivate => "Open / Toggle Row"@,
        Action::TreeCollapseOrAscend => "Collapse / Back"@,
    }
}

/// What the command is said to do.
pub open spec fn action_description(a: Action) -> Seq<char> {
    match a {
        Action::AccountsComposeOpen => "Initialize the multi-field new-connection draft and enter compose mode."@,
        Action::AccountsComposeInsertChar => "Append the just-pressed printable char to the new-account name buffer."@,
        Action::AccountsComposeDeleteBack => "Pop the last character from the new-account name buffer."@,
        Action::AccountsComposeCycleForward => "Cycle the focused selector to the next option."@,
        Action::AccountsComposeCycleBack => "Cycle the focused selector to the previous option."@,
        Action::AccountsComposeFocusNext => "Advance compose-mode focus to the next field."@,
        Action::AccountsComposeFocusPrev => "Retreat compose-mode focus to the previous field."@,
        Action::AccountsComposeCommit => "Validate the compose-mode draft and materialize the new connection."@,
        Action::AccountsComposeCancel => "Discard the new-account draft; exit compose mode."@,
        Action::AccountsConfirmDelete => "Delete the pending account record; clear the pending-delete pointer."@,
        Action::AccountsConfirmCancel => "Dismiss the delete-confirmation banner without deleting."@,
        Action::AccountsDeleteConfirm => "Open the delete-confirmation banner for the selected Connection."@,
        Action::AccountTest => "Trigger a connection test for the selected Connection."@,
        Action::AccountRefresh => "Re-fetch the model catalog for the selected model's Connection."@,
        Action::ModelsSetBootstrap => "Bind config/gate/completions/bootstrap to the selected (account, model). Also writes the legacy config/gate/completions/primary path during the migration window."@,
        Action::ModelsToggleDefault => "Add or remove the focused (account, model) from the default-available set."@,
        Action::AppSave => "Persist edits to disk via the save subscription."@,
        Action::FieldAccountNext => "Cycle the focused Connection-detail field forward."@,
        Action::FieldAccountPrev => "Cycle the focused Connection-detail field backward."@,
        Action::FieldModelNext => "Cycle the focused model-detail field forward."@,
        Action::FieldModelPrev => "Cycle the focused model-detail field backward."@,
        Action::SelectorCycleProtocol => "Advance the Connection's protocol/dialect selector."@,
        Action::SelectorCycleAuth => "Advance the provider's auth-scheme selector."@,
        Action::AccountsForkProvider => "Clone the bound provider so this Connection no longer shares it with others. Edits to endpoint/auth/version then affect only this Connection."@,
        Action::ModelsAddManual => "Open the inline three-stage manual-model entry form for the focused account."@,
        Action::ModelsManualInsertChar => "Append the just-pressed char to the manual-model buffer (per-stage rules)."@,
        Action::ModelsManualDeleteBack => "Pop the last character from the manual-model buffer."@,
        Action::ModelsManualCommit => "Advance the form's stage; the final stage finalizes the new ModelInfo into the catalog."@,
        Action::ModelsManualCancel => "Discard the manual-model buffer and exit compose mode."@,
        Action::CycleFieldNext => "Advance the focused selector field to its next option."@,
        Action::CycleFieldPrev => "Advance the focused selector field to its previous option."@,
        Action::BeginEditAccountEndpoint => "Enter inline edit mode for the focused Connection's endpoint."@,
        Action::BeginEditAccountKey => "Enter inline edit mode for the focused Connection's API key."@,
        Action::BeginEditModelField => "Enter inline edit mode for the focused model's numeric override."@,
        Action::InsertChar => "Append the just-pressed printable char to the edit buffer."@,
        Action::DeleteBack => "Remove the last character from the edit buffer."@,
        Action::Commit => "Persist the edit buffer to the field's data path and exit edit mode."@,
        Action::Cancel => "Discard the edit buffer and exit edit mode."@,
        Action::HighlightIndexNext => "Move the index selection to the next entry (wrap)."@,
        Action::HighlightIndexPrev => "Move the index selection to the previous entry (wrap)."@,
        Action::HighlightAccountsNext => "Move the Connections selection to the next Connection (wrap)."@,
        Action::HighlightAccountsPrev => "Move the Connections selection to the previous Connection (wrap)."@,
        Action::HighlightModelsNext => "Move the models selection to the next (account, model) pair (wrap)."@,
        Action::HighlightModelsPrev => "Move the models selection to the previous (account, model) pair (wrap)."@,
        Action::ToggleShortcuts => "Toggle the shortcuts modal."@,
        Action::NavAscend => "Ascend to the parent page; exit the screen at the root."@,
        Action::TreeNext => "Move the focus to the next visible row in the settings tree."@,
        Action::TreePrev => "Move the focus to the previous visible row in the settings tree."@,
        Action::TreeActivate => "Toggle expansion on a category row; descend into a leaf row."@,
        Action::TreeCollapseOrAscend => "Collapse the focused row if expanded; otherwise exit the screen."@,
    }
}

/// The page the command belongs to.
pub open spec fn action_cursor(a: Action) -> Option<Seq<Seq<char>>> {
    match a {
        Action::AccountsComposeOpen => Some(seq!["settings"@, "accounts"@]),
        Action::AccountsComposeInsertChar => None,
        Action::AccountsComposeDeleteBack => None,
        Action::AccountsComposeCycleForward => None,
        Action::AccountsComposeCycleBack => None,
        Action::AccountsComposeFocusNext => None,
        Action::AccountsComposeFocusPrev => None,
        Action::AccountsComposeCommit => None,
        Action::AccountsComposeCancel => None,
        Action::AccountsConfirmDelete => None,
        Action::AccountsConfirmCancel => None,
        Action::AccountsDeleteConfirm => Some(seq!["settings"@, "accounts"@]),
        Action::AccountTest => Some(seq!["settings"@, "accounts"@, "_detail"@]),
        Action::AccountRefresh => Some(seq!["settings"@, "models"@]),
        Action::ModelsSetBootstrap => Some(seq!["settings"@, "models"@]),
        Action::ModelsToggleDefault => Some(seq!["settings"@, "models"@]),
        Action::AppSave => None,
        Action::FieldAccountNext => Some(seq!["settings"@, "accounts"@, "_detail"@]),
        Action::FieldAccountPrev => Some(seq!["settings"@, "accounts"@, "_detail"@]),
        Action::FieldModelNext => Some(seq!["settings"@, "models"@, "_detail"@]),
        Action::FieldModelPrev => Some(seq!["settings"@, "models"@, "_detail"@]),
        Action::SelectorCycleProtocol => Some(seq!["settings"@, "accounts"@, "_detail"@]),
        Action::SelectorCycleAuth => Some(seq!["settings"@, "accounts"@, "_detail"@]),
        Action::AccountsForkProvider => Some(seq!["settings"@, "accounts"@]),
        Action::ModelsAddManual => Some(seq!["settings"@, "models"@]),
        Action::ModelsManualInsertChar => None,
        Action::ModelsManualDeleteBack => None,
        Action::ModelsManualCommit => None,
        Action::ModelsManualCancel => None,
        Action::CycleFieldNext => None,
        Action::CycleFieldPrev => None,
        Action::BeginEditAccountEndpoint => None,
        Action::BeginEditAccountKey => None,
        Action::BeginEditModelField => None,
        Action::InsertChar => None,
        Action::DeleteBack => None,
        Action::Commit => None,
        Action::Cancel => None,
        Action::HighlightIndexNext => Some(seq!["settings"@, "index"@]),
        Action::HighlightIndexPrev => Some(seq!["settings"@, "index"@]),
        Action::HighlightAccountsNext => Some(seq!["settings"@, "accounts"@]),
        Action::HighlightAccountsPrev => Some(seq!["settings"@, "accounts"@]),
        Action::HighlightModelsNext => Some(seq!["settings"@, "models"@]),
        Action::HighlightModelsPrev => Some(seq!["settings"@, "models"@]),
        Action::ToggleShortcuts => None,
        Action::NavAscend => None,
        Action::TreeNext => Some(seq!["settings"@, "index"@]),
        Action::TreePrev => Some(seq!["settings"@, "index"@]),
        Action::TreeActivate => Some(seq!["settings"@, "index"@]),
        Action::TreeCollapseOrAscend => Some(seq!["settings"@, "index"@]),
    }
}

/// The writes the command asks for.
pub open spec fn action_writes<R: Renderer>(
    a: Action,
    s: SnapshotView,
    ctx: CtxView<R>,
) -> Seq<WriteView> {
    match a {
        Action::AccountsComposeOpen => compose::compose_open_writes(s),
        Action::AccountsComposeInsertChar => compose::compose_insert_writes(s, ctx.last_keystroke),
        Action::AccountsComposeDeleteBack => compose::compose_delete_writes(s),
        Action::AccountsComposeCycleForward => compose::compose_cycle_writes(s, CycleDir::Forward),
        Action::AccountsComposeCycleBack => compose::compose_cycle_writes(s, CycleDir::Back),
        Action::AccountsComposeFocusNext => seq![
            compose::put_focus(field_order()[ring(field_place(focused_field(s)), 1, 5)]),
        ],
        Action::AccountsComposeFocusPrev => seq![
            compose::put_focus(field_order()[ring(field_place(focused_field(s)), -1, 5)]),
        ],
        Action::AccountsComposeCommit => compose::compose_commit_writes(s),
        Action::AccountsComposeCancel => seq![put_null(draft_root())],
        Action::AccountsConfirmDelete => account_model::confirm_delete_writes(s),
        Action::AccountsConfirmCancel => seq![put_null(pending_delete_path())],
        Action::AccountsDeleteConfirm => account_model::delete_confirm_writes(s),
        Action::AccountTest => account_model::test_writes(s),
        Action::AccountRefresh => account_model::refresh_writes(s),
        Action::ModelsSetBootstrap => account_model::bootstrap_writes(s),
        Action::ModelsToggleDefault => account_model::toggle_default_writes(s),
        Action::AppSave => seq![put_null(seq!["config"@, "save"@])],
        Action::FieldAccountNext => seq![
            put_text(account_field_path(), field_text(stepped_field(s, 1))),
        ],
        Action::FieldAccountPrev => seq![
            put_text(account_field_path(), field_text(stepped_field(s, -1))),
        ],
        Action::FieldModelNext => seq![
            put(model_field_path(), ValueView::ModelField(stepped_model_field(s, 1))),
        ],
        Action::FieldModelPrev => seq![
            put(model_field_path(), ValueView::ModelField(stepped_model_field(s, -1))),
        ],
        Action::SelectorCycleProtocol => selectors::cycle_protocol_writes(s, CycleDir::Forward),
        Action::SelectorCycleAuth => selectors::cycle_auth_writes(s, CycleDir::Forward),
        Action::AccountsForkProvider => selectors::fork_writes(s),
        Action::ModelsAddManual => manual_model::add_manual_writes(s),
        Action::ModelsManualInsertChar => manual_model::manual_insert_writes(s, ctx.last_keystroke),
        Action::ModelsManualDeleteBack => manual_model::manual_delete_writes(s),
        Action::ModelsManualCommit => manual_model::manual_commit_writes(s),
        Action::ModelsManualCancel => manual_model::manual_cancel_writes(),
        Action::CycleFieldNext => selectors::cycle_field_writes(s, CycleDir::Forward),
        Action::CycleFieldPrev => selectors::cycle_field_writes(s, CycleDir::Back),
        Action::BeginEditAccountEndpoint => edit::begin_account_writes(s, AccountField::Endpoint),
        Action::BeginEditAccountKey => edit::begin_account_writes(s, AccountField::Key),
        Action::BeginEditModelField => edit::begin_model_writes(s),
        Action::InsertChar => edit::insert_writes(s, ctx.last_keystroke),
        Action::DeleteBack => edit::delete_writes(s),
        Action::Commit => edit::commit_writes(s),
        Action::Cancel => edit::cancel_writes(s),
        Action::HighlightIndexNext => highlight::index_step_writes(s, Direction::Next),
        Action::HighlightIndexPrev => highlight::index_step_writes(s, Direction::Prev),
        Action::HighlightAccountsNext => highlight::accounts_step_writes(s, Direction::Next),
        Action::HighlightAccountsPrev => highlight::accounts_step_writes(s, Direction::Prev),
        Action::HighlightModelsNext => highlight::models_step_writes(s, Direction::Next),
        Action::HighlightModelsPrev => highlight::models_step_writes(s, Direction::Prev),
        Action::ToggleShortcuts => seq![put_null(seq!["ui"@, "toggle_shortcuts"@])],
        Action::NavAscend => navigation::ascend_writes(s, ctx),
        Action::TreeNext => tree::step_writes(s, Direction::Next),
        Action::TreePrev => tree::step_writes(s, Direction::Prev),
        Action::TreeActivate => tree::activate_writes(s),
        Action::TreeCollapseOrAscend => tree::collapse_writes(s),
    }
}

fn id_of(a: Action) -> (r: &'static str)
    ensures
        r@ == action_id(a),
{
    match a {
        Action::AccountsComposeOpen => "accounts.compose.open",
        Action::AccountsComposeInsertChar => "accounts.compose.insert_char",
        Action::AccountsComposeDeleteBack => "accounts.compose.delete_back",
        Action::AccountsComposeCycleForward => "accounts.compose.cycle_forward",
        Action::AccountsComposeCycleBack => "accounts.compose.cycle_back",
        Action::AccountsComposeFocusNext => "accounts.compose.focus_next",
        Action::AccountsComposeFocusPrev => "accounts.compose.focus_prev",
        Action::AccountsComposeCommit => "accounts.compose.commit",
        Action::AccountsComposeCancel => "accounts.compose.cancel",
        Action::AccountsConfirmDelete => "accounts.confirm.delete",
        Action::AccountsConfirmCancel => "accounts.confirm.cancel",
        Action::AccountsDeleteConfirm => "accounts.delete_confirm",
        Action::AccountTest => "account.test",
        Action::AccountRefresh => "account.refresh",
        Action::ModelsSetBootstrap => "models.set_bootstrap",
        Action::ModelsToggleDefault => "models.toggle_default",
        Action::AppSave => "app.save",
        Action::FieldAccountNext => "field.account.next",
        Action::FieldAccountPrev => "field.account.prev",
        Action::FieldModelNext => "field.model.next",
        Action::FieldModelPrev => "field.model.prev",
        Action::SelectorCycleProtocol => "selector.cycle.protocol",
        Action::SelectorCycleAuth => "selector.cycle.auth",
        Action::AccountsForkProvider => "accounts.fork_provider",
        Action::ModelsAddManual => "models.add_manual",
        Action::ModelsManualInsertChar => "models.compose_manual.insert_char",
        Action::ModelsManualDeleteBack => "models.compose_manual.delete_back",
        Action::ModelsManualCommit => "models.compose_manual.commit",
        Action::ModelsManualCancel => "models.compose_manual.cancel",
        Action::CycleFieldNext => "cycle.field.next",
        Action::CycleFieldPrev => "cycle.field.prev",
        Action::BeginEditAccountEndpoint => "edit.begin.account_endpoint",
        Action::BeginEditAccountKey => "edit.begin.account_key",
        Action::BeginEditModelField => "edit.begin.model_field",
        Action::InsertChar => "edit.insert_char",
        Action::DeleteBack => "edit.delete_back",
        Action::Commit => "edit.commit",
        Action::Cancel => "edit.cancel",
        Action::HighlightIndexNext => "highlight.index.next",
        Action::HighlightIndexPrev => "highlight.index.prev",
        Action::HighlightAccountsNext => "highlight.accounts.next",
        Action::HighlightAccountsPrev => "highlight.accounts.prev",
        Action::HighlightModelsNext => "highlight.models.next",
        Action::HighlightModelsPrev => "highlight.models.prev",
        Action::ToggleShortcuts => "modal.toggle_shortcuts",
        Action::NavAscend => "nav.ascend",
        Action::TreeNext => "tree.next",
        Action::TreePrev => "tree.prev",
        Action::TreeActivate => "tree.activate",
        Action::TreeCollapseOrAscend => "tree.collapse_or_ascend",
    }
}

fn title_of(a: Action) -> (r: &'static str)
    ensures
        r@ == action_title(a),
{
    match a {
        Action::AccountsComposeOpen => "New connection",
        Action::AccountsComposeInsertChar => "Insert character",
        Action::AccountsComposeDeleteBack => "Backspace",
        Action::AccountsComposeCycleForward => "Next option",
        Action::AccountsComposeCycleBack => "Previous option",
        Action::AccountsComposeFocusNext => "Next field",
        Action::AccountsComposeFocusPrev => "Previous field",
        Action::AccountsComposeCommit => "Create connection",
        Action::AccountsComposeCancel => "Cancel new connection",
        Action::AccountsConfirmDelete => "Confirm delete",
        Action::AccountsConfirmCancel => "Cancel delete",
        Action::AccountsDeleteConfirm => "Delete Connection…",
        Action::AccountTest => "Test Connection",
        Action::AccountRefresh => "Refresh Catalog",
        Action::ModelsSetBootstrap => "Set as Bootstrap",
        Action::ModelsToggleDefault => "Toggle Default-Available",
        Action::AppSave => "Save",
        Action::FieldAccountNext => "Next Field",
        Action::FieldAccountPrev => "Previous Field",
        Action::FieldModelNext => "Next Field",
        Action::FieldModelPrev => "Previous Field",
        Action::SelectorCycleProtocol => "Cycle Protocol",
        Action::SelectorCycleAuth => "Cycle Auth",
        Action::AccountsForkProvider => "Fork Provider",
        Action::ModelsAddManual => "Add Model Manually",
        Action::ModelsManualInsertChar => "Insert character (manual model)",
        Action::ModelsManualDeleteBack => "Backspace (manual model)",
        Action::ModelsManualCommit => "Commit stage (manual model)",
        Action::ModelsManualCancel => "Cancel manual model",
        Action::CycleFieldNext => "Cycle field next",
        Action::CycleFieldPrev => "Cycle field prev",
        Action::BeginEditAccountEndpoint => "Edit Endpoint",
        Action::BeginEditAccountKey => "Edit API Key",
        Action::BeginEditModelField => "Edit Model Override",
        Action::InsertChar => "Insert character",
        Action::DeleteBack => "Backspace",
        Action::Commit => "Commit",
        Action::Cancel => "Cancel",
        Action::HighlightIndexNext => "Highlight Next (Index)",
        Action::HighlightIndexPrev => "Highlight Prev (Index)",
        Action::HighlightAccountsNext => "Highlight Next (Connections)",
        Action::HighlightAccountsPrev => "Highlight Prev (Connections)",
        Action::HighlightModelsNext => "Highlight Next (Models)",
        Action::HighlightModelsPrev => "Highlight Prev (Models)",
        Action::ToggleShortcuts => "Show shortcuts",
        Action::NavAscend => "Go Back",
        Action::TreeNext => "Next Row",
        Action::TreePrev => "Previous Row",
        Action::TreeActivate => "Open / Toggle Row",
        Action::TreeCollapseOrAscend => "Collapse / Back",
    }
}

fn description_of(a: Action) -> (r: &'static str)
    ensures
        r@ == action_description(a),
{
    match a {
        Action::AccountsComposeOpen => "Initialize the multi-field new-connection draft and enter compose mode.",
        Action::AccountsComposeInsertChar => "Append the just-pressed printable char to the new-account name buffer.",
        Action::AccountsComposeDeleteBack => "Pop the last character from the new-account name buffer.",
        Action::AccountsComposeCycleForward => "Cycle the focused selector to the next option.",
        Action::AccountsComposeCycleBack => "Cycle the focused selector to the previous option.",
        Action::AccountsComposeFocusNext => "Advance compose-mode focus to the next field.",
        Action::AccountsComposeFocusPrev => "Retreat compose-mode focus to the previous field.",
        Action::AccountsComposeCommit => "Validate the compose-mode draft and materialize the new connection.",
        Action::AccountsComposeCancel => "Discard the new-account draft; exit compose mode.",
        Action::AccountsConfirmDelete => "Delete the pending account record; clear the pending-delete pointer.",
        Action::AccountsConfirmCancel => "Dismiss the delete-confirmation banner without deleting.",
        Action::AccountsDeleteConfirm => "Open the delete-confirmation banner for the selected Connection.",
        Action::AccountTest => "Trigger a connection test for the selected Connection.",
        Action::AccountRefresh => "Re-fetch the model catalog for the selected model's Connection.",
        Action::ModelsSetBootstrap => "Bind config/gate/completions/bootstrap to the selected (account, model). Also writes the legacy config/gate/completions/primary path during the migration window.",
        Action::ModelsToggleDefault => "Add or remove the focused (account, model) from the default-available set.",
        Action::AppSave => "Persist edits to disk via the save subscription.",
        Action::FieldAccountNext => "Cycle the focused Connection-detail field forward.",
        Action::FieldAccountPrev => "Cycle the focused Connection-detail field backward.",
        Action::FieldModelNext => "Cycle the focused model-detail field forward.",
        Action::FieldModelPrev => "Cycle the focused model-detail field backward.",
        Action::SelectorCycleProtocol => "Advance the Connection's protocol/dialect selector.",
        Action::SelectorCycleAuth => "Advance the provider's auth-scheme selector.",
        Action::AccountsForkProvider => "Clone the bound provider so this Connection no longer shares it with others. Edits to endpoint/auth/version then affect only this Connection.",
        Action::ModelsAddManual => "Open the inline three-stage manual-model entry form for the focused account.",
        Action::ModelsManualInsertChar => "Append the just-pressed char to the manual-model buffer (per-stage rules).",
        Action::ModelsManualDeleteBack => "Pop the last character from the manual-model buffer.",
        Action::ModelsManualCommit => "Advance the form's stage; the final stage finalizes the new ModelInfo into the catalog.",
        Action::ModelsManualCancel => "Discard the manual-model buffer and exit compose mode.",
        Action::CycleFieldNext => "Advance the focused selector field to its next option.",
        Action::CycleFieldPrev => "Advance the focused selector field to its previous option.",
        Action::BeginEditAccountEndpoint => "Enter inline edit mode for the focused Connection's endpoint.",
        Action::BeginEditAccountKey => "Enter inline edit mode for the focused Connection's API key.",
        Action::BeginEditModelField => "Enter inline edit mode for the focused model's numeric override.",
        Action::InsertChar => "Append the just-pressed printable char to the edit buffer.",
        Action::DeleteBack => "Remove the last character from the edit buffer.",
        Action::Commit => "Persist the edit buffer to the field's data path and exit edit mode.",
        Action::Cancel => "Discard the edit buffer and exit edit mode.",
        Action::HighlightIndexNext => "Move the index selection to the next entry (wrap).",
        Action::HighlightIndexPrev => "Move the index selection to the previous entry (wrap).",
        Action::HighlightAccountsNext => "Move the Connections selection to the next Connection (wrap).",
        Action::HighlightAccountsPrev => "Move the Connections selection to the previous Connection (wrap).",
        Action::HighlightModelsNext => "Move the models selection to the next (account, model) pair (wrap).",
        Action::HighlightModelsPrev => "Move the models selection to the previous (account, model) pair (wrap).",
        Action::ToggleShortcuts => "Toggle the shortcuts modal.",
        Action::NavAscend => "Ascend to the parent page; exit the screen at the root.",
        Action::TreeNext => "Move the focus to the next visible row in the settings tree.",
        Action::TreePrev => "Move the focus to the previous visible row in the settings tree.",
        Action::TreeActivate => "Toggle expansion on a category row; descend into a leaf row.",
        Action::TreeCollapseOrAscend => "Collapse the focused row if expanded; otherwise exit the screen.",
    }
}

fn cursor_of(a: Action) -> (r: Option<Path>)
    ensures
        opt_path(r) == action_cursor(a),
{
    match a {
        Action::AccountsComposeOpen => Some(path2("settings", "accounts")),
        Action::AccountsComposeInsertChar => None,
        Action::AccountsComposeDeleteBack => None,
        Action::AccountsComposeCycleForward => None,
        Action::AccountsComposeCycleBack => None,
        Action::AccountsComposeFocusNext => None,
        Action::AccountsComposeFocusPrev => None,
        Action::AccountsComposeCommit => None,
        Action::AccountsComposeCancel => None,
        Action::AccountsConfirmDelete => None,
        Action::AccountsConfirmCancel => None,
        Action::AccountsDeleteConfirm => Some(path2("settings", "accounts")),
        Action::AccountTest => Some(path3("settings", "accounts", "_detail")),
        Action::AccountRefresh => Some(path2("settings", "models")),
        Action::ModelsSetBootstrap => Some(path2("settings", "models")),
        Action::ModelsToggleDefault => Some(path2("settings", "models")),
        Action::AppSave => None,
        Action::FieldAccountNext => Some(path3("settings", "accounts", "_detail")),
        Action::FieldAccountPrev => Some(path3("settings", "accounts", "_detail")),
        Action::FieldModelNext => Some(path3("settings", "models", "_detail")),
        Action::FieldModelPrev => Some(path3("settings", "models", "_detail")),
        Action::SelectorCycleProtocol => Some(path3("settings", "accounts", "_detail")),
        Action::SelectorCycleAuth => Some(path3("settings", "accounts", "_detail")),
        Action::AccountsForkProvider => Some(path2("settings", "accounts")),
        Action::ModelsAddManual => Some(path2("settings", "models")),
        Action::ModelsManualInsertChar => None,
        Action::ModelsManualDeleteBack => None,
        Action::ModelsManualCommit => None,
        Action::ModelsManualCancel => None,
        Action::CycleFieldNext => None,
        Action::CycleFieldPrev => None,
        Action::BeginEditAccountEndpoint => None,
        Action::BeginEditAccountKey => None,
        Action::BeginEditModelField => None,
        Action::InsertChar => None,
        Action::DeleteBack => None,
        Action::Commit => None,
        Action::Cancel => None,
        Action::HighlightIndexNext => Some(path2("settings", "index")),
        Action::HighlightIndexPrev => Some(path2("settings", "index")),
        Action::HighlightAccountsNext => Some(path2("settings", "accounts")),
        Action::HighlightAccountsPrev => Some(path2("settings", "accounts")),
        Action::HighlightModelsNext => Some(path2("settings", "models")),
        Action::HighlightModelsPrev => Some(path2("settings", "models")),
        Action::ToggleShortcuts => None,
        Action::NavAscend => None,
        Action::TreeNext => Some(path2("settings", "index")),
        Action::TreePrev => Some(path2("settings", "index")),
        Action::TreeActivate => Some(path2("settings", "index")),
        Action::TreeCollapseOrAscend => Some(path2("settings", "index")),
    }
}

fn one_null(path: Path) -> (r: Vec<Write>)
    ensures
        writes_view(r@) == seq![put_null(path@)],
{
    let mut out: Vec<Write> = Vec::new();
    out.push(null_write(path));
    proof {
        assert(writes_view(out@) =~= seq![put_null(path@)]);
    }
    out
}

/// Asks for the writes of a command.
pub fn perform<R: Renderer>(a: Action, data: &SettingsSnapshot, ctx: &CommandCtx<'_, R>) -> (r: Vec<
    Write,
>)
    ensures
        writes_view(r@) == action_writes(a, data@, ctx@),
{
    match a {
        Action::AccountsComposeOpen => compose::accounts_compose_open(data),
        Action::AccountsComposeInsertChar => compose::accounts_compose_insert_char(data, ctx),
        Action::AccountsComposeDeleteBack => compose::accounts_compose_delete_back(data),
        Action::AccountsComposeCycleForward => compose::accounts_compose_cycle(data, CycleDir::Forward),
        Action::AccountsComposeCycleBack => compose::accounts_compose_cycle(data, CycleDir::Back),
        Action::AccountsComposeFocusNext => compose::accounts_compose_focus_next(data),
        Action::AccountsComposeFocusPrev => compose::accounts_compose_focus_prev(data),
        Action::AccountsComposeCommit => compose::accounts_compose_commit(data),
        Action::AccountsComposeCancel => one_null(path3("ui", "settings", "new_account")),
        Action::AccountsConfirmDelete => account_model::accounts_confirm_delete(data),
        Action::AccountsConfirmCancel => one_null(path3("ui", "settings", "pending_delete")),
        Action::AccountsDeleteConfirm => account_model::accounts_delete_confirm(data),
        Action::AccountTest => account_model::account_test(data),
        Action::AccountRefresh => account_model::account_refresh(data),
        Action::ModelsSetBootstrap => account_model::models_set_bootstrap(data),
        Action::ModelsToggleDefault => account_model::models_toggle_default(data),
        Action::AppSave => one_null(path2("config", "save")),
        Action::FieldAccountNext => account_model::field_account_step(data, 1),
        Action::FieldAccountPrev => account_model::field_account_step(data, -1),
        Action::FieldModelNext => account_model::field_model_step(data, 1),
        Action::FieldModelPrev => account_model::field_model_step(data, -1),
        Action::SelectorCycleProtocol => selectors::selector_cycle_protocol(data),
        Action::SelectorCycleAuth => selectors::selector_cycle_auth(data),
        Action::AccountsForkProvider => selectors::accounts_fork_provider(data),
        Action::ModelsAddManual => manual_model::models_add_manual(data),
        Action::ModelsManualInsertChar => manual_model::models_manual_insert_char(data, ctx),
        Action::ModelsManualDeleteBack => manual_model::models_manual_delete_back(data),
        Action::ModelsManualCommit => manual_model::models_manual_commit(data),
        Action::ModelsManualCancel => manual_model::models_manual_cancel(),
        Action::CycleFieldNext => selectors::cycle_field(data, CycleDir::Forward),
        Action::CycleFieldPrev => selectors::cycle_field(data, CycleDir::Back),
        Action::BeginEditAccountEndpoint => edit::begin_edit_account_endpoint(data),
        Action::BeginEditAccountKey => edit::begin_edit_account_key(data),
        Action::BeginEditModelField => edit::begin_edit_model_field(data),
        Action::InsertChar => edit::insert_char(data, ctx),
        Action::DeleteBack => edit::delete_back(data),
        Action::Commit => edit::commit(data),
        Action::Cancel => edit::cancel(data),
        Action::HighlightIndexNext => highlight::index_step(data, Direction::Next),
        Action::HighlightIndexPrev => highlight::index_step(data, Direction::Prev),
        Action::HighlightAccountsNext => highlight::accounts_step(data, Direction::Next),
        Action::HighlightAccountsPrev => highlight::accounts_step(data, Direction::Prev),
        Action::HighlightModelsNext => highlight::models_step(data, Direction::Next),
        Action::HighlightModelsPrev => highlight::models_step(data, Direction::Prev),
        Action::ToggleShortcuts => modal::toggle_shortcuts(),
        Action::NavAscend => navigation::ascend(data, ctx),
        Action::TreeNext => tree::step(data, Direction::Next),
        Action::TreePrev => tree::step(data, Direction::Prev),
        Action::TreeActivate => tree::activate(data),
        Action::TreeCollapseOrAscend => tree::collapse_or_ascend(data),
    }
}

/// One of the commands the settings screen comes with.
pub struct SettingsCommand {
    id: CommandId,
    display: CommandDisplay,
    scope: CommandScope,
    action: Action,
}

impl SettingsCommand {
    /// What the command does.
    pub closed spec fn does(&self) -> Action {
        self.action
    }

    /// The command that does `action`.
    pub fn new(action: Action) -> (r: SettingsCommand)
        ensures
            r.is_for(action),
    {
        SettingsCommand {
            id: CommandId(id_of(action).to_owned()),
            display: CommandDisplay {
                name: title_of(action).to_owned(),
                description: description_of(action).to_owned(),
            },
            scope: CommandScope { screen: Screen::Settings, cursor_path: cursor_of(action) },
            action,
        }
    }

    /// Whether this is the command that does `action`, under its name and
    /// description, and where it belongs.
    pub open spec fn is_for(&self, action: Action) -> bool {
        &&& self.does() == action
        &&& <SettingsCommand as Command<SettingsRenderer>>::name(self) == action_id(action)
        &&& <SettingsCommand as Command<SettingsRenderer>>::shown_as(self) == (DisplayView {
            name: action_title(action),
            description: action_description(action),
        })
        &&& <SettingsCommand as Command<SettingsRenderer>>::belongs(self) == (
            Screen::Settings,
            action_cursor(action),
        )
    }
}

impl<R: Renderer> Command<R> for SettingsCommand {
    closed spec fn name(&self) -> Seq<char> {
        self.id@
    }

    closed spec fn shown_as(&self) -> DisplayView {
        self.display@
    }

    closed spec fn belongs(&self) -> (Screen, Option<Seq<Seq<char>>>) {
        (self.scope.screen, opt_path(self.scope.cursor_path))
    }

    open spec fn writes(&self, data: SnapshotView, ctx: CtxView<R>) -> Seq<WriteView> {
        action_writes(self.does(), data, ctx)
    }

    fn id(&self) -> (r: &CommandId) {
        &self.id
    }

    fn display(&self) -> (r: &CommandDisplay) {
        &self.display
    }

    fn scope(&self) -> (r: &CommandScope) {
        &self.scope
    }

    fn run(&self, snapshot: &SettingsSnapshot, ctx: &CommandCtx<'_, R>) -> (r: Vec<Write>) {
        perform(self.action, snapshot, ctx)
    }
}

/// The last of the actions that is called `id`.
pub open spec fn action_called(actions: Seq<Action>, id: Seq<char>) -> Option<Action>
    decreases actions.len(),
{
    if actions.len() == 0 {
        None
    } else if action_id(actions.last()) == id {
        Some(actions.last())
    } else {
        action_called(actions.drop_last(), id)
    }
}

/// Whether `after` holds the commands for `actions`, each under its id, and
/// otherwise what `before` holds.
pub open spec fn installed(
    before: Seq<(Seq<char>, SettingsCommand)>,
    actions: Seq<Action>,
    after: Seq<(Seq<char>, SettingsCommand)>,
) -> bool {
    forall|id: Seq<char>|
        match action_called(actions, id) {
            Some(a) => (#[trigger] lookup(after, id)) is Some && lookup(after, id)->0.is_for(a),
            None => lookup(after, id) == lookup(before, id),
        }
}

/// The length of a text of at least eight characters, its first character, its
/// eighth from the end, and its last.
spec fn marks(t: Seq<char>) -> (nat, char, char, char) {
    (t.len(), t[0], t[t.len() - 8], t[t.len() - 1])
}

spec fn id_marks(a: Action) -> (nat, char, char, char) {
    match a {
        Action::AccountsComposeOpen => (21, 'a', 'o', 'n'),
        Action::AccountsComposeInsertChar => (28, 'a', 'e', 'r'),
        Action::AccountsComposeDeleteBack => (28, 'a', 'e', 'k'),
        Action::AccountsComposeCycleForward => (30, 'a', '_', 'd'),
        Action::AccountsComposeCycleBack => (27, 'a', 'c', 'k'),
        Action::AccountsComposeFocusNext => (27, 'a', 'c', 't'),
        Action::AccountsComposeFocusPrev => (27, 'a', 'c', 'v'),
        Action::AccountsComposeCommit => (23, 'a', 'e', 't'),
        Action::AccountsComposeCancel => (23, 'a', 'e', 'l'),
        Action::AccountsConfirmDelete => (23, 'a', 'm', 'e'),
        Action::AccountsConfirmCancel => (23, 'a', 'm', 'l'),
        Action::AccountsDeleteConfirm => (23, 'a', '_', 'm'),
        Action::AccountTest => (12, 'a', 'u', 't'),
        Action::AccountRefresh => (15, 'a', '.', 'h'),
        Action::ModelsSetBootstrap => (20, 'm', 'o', 'p'),
        Action::ModelsToggleDefault => (21, 'm', '_', 't'),
        Action::AppSave => (8, 'a', 'a', 'e'),
        Action::FieldAccountNext => (18, 'f', 'u', 't'),
        Action::FieldAccountPrev => (18, 'f', 'u', 'v'),
        Action::FieldModelNext => (16, 'f', 'd', 't'),
        Action::FieldModelPrev => (16, 'f', 'd', 'v'),
        Action::SelectorCycleProtocol => (23, 's', 'p', 'l'),
        Action::SelectorCycleAuth => (19, 's', 'c', 'h'),
        Action::AccountsForkProvider => (22, 'a', 'p', 'r'),
        Action::ModelsAddManual => (17, 'm', 'd', 'l'),
        Action::ModelsManualInsertChar => (33, 'm', 'e', 'r'),
        Action::ModelsManualDeleteBack => (33, 'm', 'e', 'k'),
        Action::ModelsManualCommit => (28, 'm', 'l', 't'),
        Action::ModelsManualCancel => (28, 'm', 'l', 'l'),
        Action::CycleFieldNext => (16, 'c', 'e', 't'),
        Action::CycleFieldPrev => (16, 'c', 'e', 'v'),
        Action::BeginEditAccountEndpoint => (27, 'e', 'e', 't'),
        Action::BeginEditAccountKey => (22, 'e', 'o', 'y'),
        Action::BeginEditModelField => (22, 'e', 'e', 'd'),
        Action::InsertChar => (16, 'e', 'e', 'r'),
        Action::DeleteBack => (16, 'e', 'e', 'k'),
        Action::Commit => (11, 'e', 't', 't'),
        Action::Cancel => (11, 'e', 't', 'l'),
        Action::HighlightIndexNext => (20, 'h', 'd', 't'),
        Action::HighlightIndexPrev => (20, 'h', 'd', 'v'),
        Action::HighlightAccountsNext => (23, 'h', 'n', 't'),
        Action::HighlightAccountsPrev => (23, 'h', 'n', 'v'),
        Action::HighlightModelsNext => (21, 'h', 'e', 't'),
        Action::HighlightModelsPrev => (21, 'h', 'e', 'v'),
        Action::ToggleShortcuts => (22, 'm', 'h', 's'),
        Action::NavAscend => (10, 'n', 'v', 'd'),
        Action::TreeNext => (9, 't', 'r', 't'),
        Action::TreePrev => (9, 't', 'r', 'v'),
        Action::TreeActivate => (13, 't', 'a', 'e'),
        Action::TreeCollapseOrAscend => (23, 't', 'r', 'd'),
    }
}

proof fn lemma_id_marks(a: Action)
    ensures
        marks(action_id(a)) == id_marks(a),
{
    match a {
        Action::AccountsComposeOpen => {
            reveal_strlit("accounts.compose.open");
        },
        Action::AccountsComposeInsertChar => {
            reveal_strlit("accounts.compose.insert_char");
        },
        Action::AccountsComposeDeleteBack => {
            reveal_strlit("accounts.compose.delete_back");
        },
        Action::AccountsComposeCycleForward => {
            reveal_strlit("accounts.compose.cycle_forward");
        },
        Action::AccountsComposeCycleBack => {
            reveal_strlit("accounts.compose.cycle_back");
        },
        Action::AccountsComposeFocusNext => {
            reveal_strlit("accounts.compose.focus_next");
        },
        Action::AccountsComposeFocusPrev => {
            reveal_strlit("accounts.compose.focus_prev");
        },
        Action::AccountsComposeCommit => {
            reveal_strlit("accounts.compose.commit");
        },
        Action::AccountsComposeCancel => {
            reveal_strlit("accounts.compose.cancel");
        },
        Action::AccountsConfirmDelete => {
            reveal_strlit("accounts.confirm.delete");
        },
        Action::AccountsConfirmCancel => {
            reveal_strlit("accounts.confirm.cancel");
        },
        Action::AccountsDeleteConfirm => {
            reveal_strlit("accounts.delete_confirm");
        },
        Action::AccountTest => {
            reveal_strlit("account.test");
        },
        Action::AccountRefresh => {
            reveal_strlit("account.refresh");
        },
        Action::ModelsSetBootstrap => {
            reveal_strlit("models.set_bootstrap");
        },
        Action::ModelsToggleDefault => {
            reveal_strlit("models.toggle_default");
        },
        Action::AppSave => {
            reveal_strlit("app.save");
        },
        Action::FieldAccountNext => {
            reveal_strlit("field.account.next");
        },
        Action::FieldAccountPrev => {
            reveal_strlit("field.account.prev");
        },
        Action::FieldModelNext => {
            reveal_strlit("field.model.next");
        },
        Action::FieldModelPrev => {
            reveal_strlit("field.model.prev");
        },
        Action::SelectorCycleProtocol => {
            reveal_strlit("selector.cycle.protocol");
        },
        Action::SelectorCycleAuth => {
            reveal_strlit("selector.cycle.auth");
        },
        Action::AccountsForkProvider => {
            reveal_strlit("accounts.fork_provider");
        },
        Action::ModelsAddManual => {
            reveal_strlit("models.add_manual");
        },
        Action::ModelsManualInsertChar => {
            reveal_strlit("models.compose_manual.insert_char");
        },
        Action::ModelsManualDeleteBack => {
            reveal_strlit("models.compose_manual.delete_back");
        },
        Action::ModelsManualCommit => {
            reveal_strlit("models.compose_manual.commit");
        },
        Action::ModelsManualCancel => {
            reveal_strlit("models.compose_manual.cancel");
        },
        Action::CycleFieldNext => {
            reveal_strlit("cycle.field.next");
        },
        Action::CycleFieldPrev => {
            reveal_strlit("cycle.field.prev");
        },
        Action::BeginEditAccountEndpoint => {
            reveal_strlit("edit.begin.account_endpoint");
        },
        Action::BeginEditAccountKey => {
            reveal_strlit("edit.begin.account_key");
        },
        Action::BeginEditModelField => {
            reveal_strlit("edit.begin.model_field");
        },
        Action::InsertChar => {
            reveal_strlit("edit.insert_char");
        },
        Action::DeleteBack => {
            reveal_strlit("edit.delete_back");
        },
        Action::Commit => {
            reveal_strlit("edit.commit");
        },
        Action::Cancel => {
            reveal_strlit("edit.cancel");
        },
        Action::HighlightIndexNext => {
            reveal_strlit("highlight.index.next");
        },
        Action::HighlightIndexPrev => {
            reveal_strlit("highlight.index.prev");
        },
        Action::HighlightAccountsNext => {
            reveal_strlit("highlight.accounts.next");
        },
        Action::HighlightAccountsPrev => {
            reveal_strlit("highlight.accounts.prev");
        },
        Action::HighlightModelsNext => {
            reveal_strlit("highlight.models.next");
        },
        Action::HighlightModelsPrev => {
            reveal_strlit("highlight.models.prev");
        },
        Action::ToggleShortcuts => {
            reveal_strlit("modal.toggle_shortcuts");
        },
        Action::NavAscend => {
            reveal_strlit("nav.ascend");
        },
        Action::TreeNext => {
            reveal_strlit("tree.next");
        },
        Action::TreePrev => {
            reveal_strlit("tree.prev");
        },
        Action::TreeActivate => {
            reveal_strlit("tree.activate");
        },
        Action::TreeCollapseOrAscend => {
            reveal_strlit("tree.collapse_or_ascend");
        },
    }
}

/// No two commands have the same id.
pub proof fn ids_differ(a: Action, b: Action)
    requires
        a != b,
    ensures
        action_id(a) != action_id(b),
{
    lemma_id_marks(a);
    lemma_id_marks(b);
}

/// Whether no two of the actions are the same, and none of their ids is taken.
pub open spec fn new_to(actions: Seq<Action>, taken: Seq<(Seq<char>, SettingsCommand)>) -> bool {
    &&& actions.no_duplicates()
    &&& forall|i: int|
        0 <= i < actions.len() ==> lookup(taken, action_id(#[trigger] actions[i])) is None
}

/// The action that an id calls is one of those given, and has that id.
pub proof fn action_called_is_among(actions: Seq<Action>, id: Seq<char>)
    ensures
        match action_called(actions, id) {
            Some(a) => actions.contains(a) && action_id(a) == id,
            None => forall|i: int| 0 <= i < actions.len() ==> action_id(#[trigger] actions[i]) != id,
        },
    decreases actions.len(),
{
    if actions.len() > 0 {
        let t = actions.drop_last();
        action_called_is_among(t, id);
        assert(actions[actions.len() - 1] == actions.last());
        if action_id(actions.last()) != id {
            match action_called(t, id) {
                Some(a) => {
                    let k = choose|k: int| 0 <= k < t.len() && t[k] == a;
                    assert(actions[k] == a);
                },
                None => {
                    assert forall|i: int| 0 <= i < actions.len() implies action_id(
                        #[trigger] actions[i],
                    ) != id by {
                        if i < t.len() {
                            assert(t[i] == actions[i]);
                        }
                    }
                },
            }
        }
    }
}

/// An action that is not among those given is not called by its id.
pub proof fn others_are_not_called(actions: Seq<Action>, a: Action)
    requires
        !actions.contains(a),
    ensures
        action_called(actions, action_id(a)) is None,
{
    action_called_is_among(actions, action_id(a));
    match action_called(actions, action_id(a)) {
        Some(b) => {
            ids_differ(a, b);
        },
        None => {},
    }
}

/// Registers the commands for `actions`.
pub fn install(reg: &mut CommandRegistry<SettingsCommand>, actions: &Vec<Action>)
    ensures
        installed(old(reg)@, actions@, final(reg)@),
        new_to(actions@, old(reg)@) ==> final(reg)@.len() == old(reg)@.len() + actions@.len(),
{
    let ghost before = reg@;
    let mut i: usize = 0;
    while i < actions.len()
        invariant
            i <= actions@.len(),
            installed(before, actions@.subrange(0, i as int), reg@),
            new_to(actions@, before) ==> reg@.len() == before.len() + i,
        decreases actions@.len() - i,
    {
        let ghost so_far = reg@;
        let command = SettingsCommand::new(actions[i]);
        let ghost made = command;
        reg.register::<SettingsRenderer>(command);
        proof {
            let t = actions@.subrange(0, i + 1);
            assert(t.drop_last() =~= actions@.subrange(0, i as int));
            assert(t.last() == actions@[i as int]);
            let a = actions@[i as int];
            assigned_length(so_far, action_id(a), made);
            if new_to(actions@, before) {
                let done = actions@.subrange(0, i as int);
                if done.contains(a) {
                    let k = choose|k: int| 0 <= k < done.len() && done[k] == a;
                    assert(actions@[k] == actions@[i as int]);
                }
                others_are_not_called(done, a);
                assert(lookup(so_far, action_id(a)) == lookup(before, action_id(a)));
            }
            assert forall|id: Seq<char>|
                match action_called(t, id) {
                    Some(a) => (#[trigger] lookup(reg@, id)) is Some && lookup(
                        reg@,
                        id,
                    )->0.is_for(a),
                    None => lookup(reg@, id) == lookup(before, id),
                } by {
                assert(action_called(t, id) == if action_id(t.last()) == id {
                    Some(t.last())
                } else {
                    action_called(t.drop_last(), id)
                });
                if action_id(t.last()) != id {
                    assert(lookup(reg@, id) == lookup(so_far, id));
                }
            }
        }
        i += 1;
    }
    proof {
        assert(actions@.subrange(0, i as int) =~= actions@);
    }
}

} // verus!
