//! The question whether to delete a connection, over the list.

use crate::assoc::assigned;
use crate::commands::account_model::selected_account_path;
use crate::path::{path2, path3, path4, Path};
use crate::registry::{AscendRule, RenderCtx, RenderView, Renderer, RendererRegistry, RuleView};
use crate::renderers::util::{read_text, text_at};
use crate::snapshot::SnapshotView;
use crate::text::join3;
use crate::view::{NodeView, ViewNode};
use vstd::prelude::*;
use vstd::string::*;

use super::SettingsRenderer;

verus! {

/// The page at `settings/accounts/_delete`.
pub struct OverlayDeleteAccountRenderer;

/// The question, or what is said where nothing is selected.
pub open spec fn delete_question(selected: Option<Seq<char>>) -> Seq<char> {
    match selected {
        Some(name) => "Delete account '"@ + name + "'? (y/n)"@,
        None => "Nothing selected. Press Esc."@,
    }
}

/// The question over its backdrop.
pub open spec fn delete_account_page(s: SnapshotView, backdrop: NodeView) -> NodeView {
    NodeView::Modal {
        background: Box::new(backdrop),
        foreground: Box::new(
            NodeView::Text(delete_question(text_at(s, selected_account_path()))),
        ),
        dim: true,
    }
}

impl Renderer for OverlayDeleteAccountRenderer {
    open spec fn rule(&self) -> RuleView {
        RuleView::NearestRegistered
    }

    open spec fn behind(&self) -> Option<Seq<Seq<char>>> {
        Some(seq!["settings"@, "accounts"@])
    }

    open spec fn shows(&self, ctx: RenderView, backdrop: NodeView) -> NodeView {
        delete_account_page(ctx.data, backdrop)
    }

    fn ascend_to(&self) -> (r: AscendRule) {
        AscendRule::NearestRegistered
    }

    fn backdrop(&self) -> (r: Option<Path>) {
        Some(path2("settings", "accounts"))
    }

    fn render(&self, ctx: &RenderCtx<'_>, backdrop: ViewNode) -> (r: ViewNode) {
        let fg = match read_text(ctx.data, &path4("ui", "settings", "accounts", "selected")) {
            Some(name) => ViewNode::Text(
                join3("Delete account '", name.as_str(), "'? (y/n)"),
            ),
            None => ViewNode::text("Nothing selected. Press Esc."),
        };
        ViewNode::Modal { background: Box::new(backdrop), foreground: Box::new(fg), dim: true }
    }
}

/// Where the page is registered.
pub open spec fn overlay_delete_account_cursor() -> Seq<Seq<char>> {
    seq!["settings"@, "accounts"@, "_delete"@]
}

/// Registers the page.
pub fn register(reg: &mut RendererRegistry<SettingsRenderer>)
    ensures
        final(reg)@ == assigned(
            old(reg)@,
            overlay_delete_account_cursor(),
            SettingsRenderer::OverlayDeleteAccount(OverlayDeleteAccountRenderer),
        ),
{
    reg.register(path3("settings", "accounts", "_delete"), SettingsRenderer::OverlayDeleteAccount(OverlayDeleteAccountRenderer));
}

} // verus!
