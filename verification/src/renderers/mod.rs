//! The pages of the settings screen.

use crate::assoc::{lookup, lookup_after_assigned};
use crate::path::Path;
use crate::registry::{AscendRule, RenderCtx, RenderView, Renderer, RendererRegistry, RuleView};
use crate::view::{NodeView, ViewNode};
use vstd::prelude::*;

use self::account_detail::AccountDetailRenderer;
use self::accounts_list::AccountsListRenderer;
use self::index::IndexRenderer;
use self::model_detail::ModelDetailRenderer;
use self::models_list::ModelsListRenderer;
use self::overlay_delete_account::OverlayDeleteAccountRenderer;
use self::overlay_new_account::OverlayNewAccountRenderer;

pub mod account_detail;
pub mod accounts_list;
pub mod highlighting;
pub mod index;
pub mod index_laws;
pub mod layout_laws;
pub mod model_detail;
pub mod models_list;
pub mod overlay_delete_account;
pub mod overlay_new_account;
pub mod page_laws;
pub mod route_laws;
pub mod util;

verus! {

/// One of the pages of the settings screen.
pub enum SettingsRenderer {
    AccountDetail(AccountDetailRenderer),
    AccountsList(AccountsListRenderer),
    Index(IndexRenderer),
    ModelDetail(ModelDetailRenderer),
    ModelsList(ModelsListRenderer),
    OverlayDeleteAccount(OverlayDeleteAccountRenderer),
    OverlayNewAccount(OverlayNewAccountRenderer),
}

impl Renderer for SettingsRenderer {
    open spec fn rule(&self) -> RuleView {
        match self {
            SettingsRenderer::AccountDetail(r) => r.rule(),
            SettingsRenderer::AccountsList(r) => r.rule(),
            SettingsRenderer::Index(r) => r.rule(),
            SettingsRenderer::ModelDetail(r) => r.rule(),
            SettingsRenderer::ModelsList(r) => r.rule(),
            SettingsRenderer::OverlayDeleteAccount(r) => r.rule(),
            SettingsRenderer::OverlayNewAccount(r) => r.rule(),
        }
    }

    open spec fn behind(&self) -> Option<Seq<Seq<char>>> {
        match self {
            SettingsRenderer::AccountDetail(r) => r.behind(),
            SettingsRenderer::AccountsList(r) => r.behind(),
            SettingsRenderer::Index(r) => r.behind(),
            SettingsRenderer::ModelDetail(r) => r.behind(),
            SettingsRenderer::ModelsList(r) => r.behind(),
            SettingsRenderer::OverlayDeleteAccount(r) => r.behind(),
            SettingsRenderer::OverlayNewAccount(r) => r.behind(),
        }
    }

    open spec fn shows(&self, ctx: RenderView, backdrop: NodeView) -> NodeView {
        match self {
            SettingsRenderer::AccountDetail(r) => r.shows(ctx, backdrop),
            SettingsRenderer::AccountsList(r) => r.shows(ctx, backdrop),
            SettingsRenderer::Index(r) => r.shows(ctx, backdrop),
            SettingsRenderer::ModelDetail(r) => r.shows(ctx, backdrop),
            SettingsRenderer::ModelsList(r) => r.shows(ctx, backdrop),
            SettingsRenderer::OverlayDeleteAccount(r) => r.shows(ctx, backdrop),
            SettingsRenderer::OverlayNewAccount(r) => r.shows(ctx, backdrop),
        }
    }

    fn ascend_to(&self) -> (r: AscendRule) {
        match self {
            SettingsRenderer::AccountDetail(r) => r.ascend_to(),
            SettingsRenderer::AccountsList(r) => r.ascend_to(),
            SettingsRenderer::Index(r) => r.ascend_to(),
            SettingsRenderer::ModelDetail(r) => r.ascend_to(),
            SettingsRenderer::ModelsList(r) => r.ascend_to(),
            SettingsRenderer::OverlayDeleteAccount(r) => r.ascend_to(),
            SettingsRenderer::OverlayNewAccount(r) => r.ascend_to(),
        }
    }

    fn backdrop(&self) -> (r: Option<Path>) {
        match self {
            SettingsRenderer::AccountDetail(r) => r.backdrop(),
            SettingsRenderer::AccountsList(r) => r.backdrop(),
            SettingsRenderer::Index(r) => r.backdrop(),
            SettingsRenderer::ModelDetail(r) => r.backdrop(),
            SettingsRenderer::ModelsList(r) => r.backdrop(),
            SettingsRenderer::OverlayDeleteAccount(r) => r.backdrop(),
            SettingsRenderer::OverlayNewAccount(r) => r.backdrop(),
        }
    }

    fn render(&self, ctx: &RenderCtx<'_>, backdrop: ViewNode) -> (r: ViewNode) {
        match self {
            SettingsRenderer::AccountDetail(r) => r.render(ctx, backdrop),
            SettingsRenderer::AccountsList(r) => r.render(ctx, backdrop),
            SettingsRenderer::Index(r) => r.render(ctx, backdrop),
            SettingsRenderer::ModelDetail(r) => r.render(ctx, backdrop),
            SettingsRenderer::ModelsList(r) => r.render(ctx, backdrop),
            SettingsRenderer::OverlayDeleteAccount(r) => r.render(ctx, backdrop),
            SettingsRenderer::OverlayNewAccount(r) => r.render(ctx, backdrop),
        }
    }
}

/// The page at a cursor.
pub open spec fn page_at(cursor: Seq<Seq<char>>) -> Option<SettingsRenderer> {
    if cursor == model_detail::model_detail_cursor() {
        Some(SettingsRenderer::ModelDetail(ModelDetailRenderer))
    } else if cursor == models_list::models_list_cursor() {
        Some(SettingsRenderer::ModelsList(ModelsListRenderer))
    } else if cursor == overlay_delete_account::overlay_delete_account_cursor() {
        Some(SettingsRenderer::OverlayDeleteAccount(OverlayDeleteAccountRenderer))
    } else if cursor == overlay_new_account::overlay_new_account_cursor() {
        Some(SettingsRenderer::OverlayNewAccount(OverlayNewAccountRenderer))
    } else if cursor == account_detail::account_detail_cursor() {
        Some(SettingsRenderer::AccountDetail(AccountDetailRenderer))
    } else if cursor == accounts_list::accounts_list_cursor() {
        Some(SettingsRenderer::AccountsList(AccountsListRenderer))
    } else if cursor == index::index_cursor() {
        Some(SettingsRenderer::Index(IndexRenderer))
    } else {
        None
    }
}

/// Registers every page at its cursor.
pub fn register_all(reg: &mut RendererRegistry<SettingsRenderer>)
    ensures
        forall|cursor: Seq<Seq<char>>|
            #[trigger] lookup(final(reg)@, cursor) == match page_at(cursor) {
                Some(page) => Some(page),
                None => lookup(old(reg)@, cursor),
            },
{
    let ghost s0 = reg@;
    index::register(reg);
    let ghost s1 = reg@;
    accounts_list::register(reg);
    let ghost s2 = reg@;
    account_detail::register(reg);
    let ghost s3 = reg@;
    overlay_new_account::register(reg);
    let ghost s4 = reg@;
    overlay_delete_account::register(reg);
    let ghost s5 = reg@;
    models_list::register(reg);
    let ghost s6 = reg@;
    model_detail::register(reg);
    proof {
        assert forall|cursor: Seq<Seq<char>>|
            #[trigger] lookup(reg@, cursor) == match page_at(cursor) {
                Some(page) => Some(page),
                None => lookup(s0, cursor),
            } by {
            lookup_after_assigned(
                s0,
                index::index_cursor(),
                SettingsRenderer::Index(IndexRenderer),
                cursor,
            );
            lookup_after_assigned(
                s1,
                accounts_list::accounts_list_cursor(),
                SettingsRenderer::AccountsList(AccountsListRenderer),
                cursor,
            );
            lookup_after_assigned(
                s2,
                account_detail::account_detail_cursor(),
                SettingsRenderer::AccountDetail(AccountDetailRenderer),
                cursor,
            );
            lookup_after_assigned(
                s3,
                overlay_new_account::overlay_new_account_cursor(),
                SettingsRenderer::OverlayNewAccount(OverlayNewAccountRenderer),
                cursor,
            );
            lookup_after_assigned(
                s4,
                overlay_delete_account::overlay_delete_account_cursor(),
                SettingsRenderer::OverlayDeleteAccount(OverlayDeleteAccountRenderer),
                cursor,
            );
            lookup_after_assigned(
                s5,
                models_list::models_list_cursor(),
                SettingsRenderer::ModelsList(ModelsListRenderer),
                cursor,
            );
            lookup_after_assigned(
                s6,
                model_detail::model_detail_cursor(),
                SettingsRenderer::ModelDetail(ModelDetailRenderer),
                cursor,
            );
        }
    }
}

} // verus!
