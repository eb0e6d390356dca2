//! The prompt for a new connection's name, over the index.

use crate::assoc::assigned;
use crate::path::{path2, path3, path4, Path};
use crate::registry::{AscendRule, RenderCtx, RenderView, Renderer, RendererRegistry, RuleView};
use crate::renderers::util::{read_text_or_empty, text_or_empty};
use crate::snapshot::SnapshotView;
use crate::text::chars_of;
use crate::view::{
    form_rows_view, FormRow, FormRowView, FormValue, FormValueView, NodeView, ViewNode,
};
use vstd::prelude::*;
use vstd::string::*;

use super::SettingsRenderer;

verus! {

/// The page at `settings/accounts/_new`.
pub struct OverlayNewAccountRenderer;

/// A length as a 32-bit text cursor holds it.
pub open spec fn cursor_after(n: nat) -> u32 {
    (n % 0x1_0000_0000) as u32
}

/// The cursor behind a text.
pub fn text_cursor(text: &str) -> (r: u32)
    ensures
        r == cursor_after(text@.len()),
{
    let n: usize = chars_of(text).len();
    (n as u64 % 0x1_0000_0000) as u32
}

/// The prompt: one row with the name typed so far.
pub open spec fn name_prompt(name: Seq<char>) -> NodeView {
    NodeView::Form {
        title: Some("New account"@),
        rows: seq![
            FormRowView {
                label: "Name"@,
                value: FormValueView::Text {
                    value: name,
                    cursor: cursor_after(name.len()),
                    masked: false,
                },
                error: None,
                hint: Some("Enter to create. Esc to cancel."@),
            },
        ],
        focused: Some(0),
    }
}

/// The prompt over its backdrop.
pub open spec fn new_account_page(s: SnapshotView, backdrop: NodeView) -> NodeView {
    NodeView::Modal {
        background: Box::new(backdrop),
        foreground: Box::new(
            name_prompt(
                text_or_empty(s, seq!["ui"@, "settings"@, "new_account"@, "name_input"@]),
            ),
        ),
        dim: true,
    }
}

impl Renderer for OverlayNewAccountRenderer {
    open spec fn rule(&self) -> RuleView {
        RuleView::NearestRegistered
    }

    open spec fn behind(&self) -> Option<Seq<Seq<char>>> {
        Some(seq!["settings"@, "accounts"@])
    }

    open spec fn shows(&self, ctx: RenderView, backdrop: NodeView) -> NodeView {
        new_account_page(ctx.data, backdrop)
    }

    fn ascend_to(&self) -> (r: AscendRule) {
        AscendRule::NearestRegistered
    }

    fn backdrop(&self) -> (r: Option<Path>) {
        Some(path2("settings", "accounts"))
    }

    fn render(&self, ctx: &RenderCtx<'_>, backdrop: ViewNode) -> (r: ViewNode) {
        let name: String = read_text_or_empty(
            ctx.data,
            &path4("ui", "settings", "new_account", "name_input"),
        );
        let cursor: u32 = text_cursor(name.as_str());
        let ghost typed = name@;
        let mut rows: Vec<FormRow> = Vec::new();
        rows.push(
            FormRow {
                label: "Name".to_owned(),
                value: FormValue::Text { value: name, cursor, masked: false },
                error: None,
                hint: Some("Enter to create. Esc to cancel.".to_owned()),
            },
        );
        proof {
            assert(form_rows_view(rows@) =~= name_prompt(typed)->Form_rows);
        }
        let fg = ViewNode::Form { title: Some("New account".to_owned()), rows, focused: Some(0) };
        proof {
            assert(fg@ == name_prompt(typed));
        }
        ViewNode::Modal { background: Box::new(backdrop), foreground: Box::new(fg), dim: true }
    }
}

/// Where the page is registered.
pub open spec fn overlay_new_account_cursor() -> Seq<Seq<char>> {
    seq!["settings"@, "accounts"@, "_new"@]
}

/// Registers the page.
pub fn register(reg: &mut RendererRegistry<SettingsRenderer>)
    ensures
        final(reg)@ == assigned(
            old(reg)@,
            overlay_new_account_cursor(),
            SettingsRenderer::OverlayNewAccount(OverlayNewAccountRenderer),
        ),
{
    reg.register(path3("settings", "accounts", "_new"), SettingsRenderer::OverlayNewAccount(OverlayNewAccountRenderer));
}

} // verus!
