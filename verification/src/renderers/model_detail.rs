//! One model and its overridable figures.

use crate::assoc::assigned;
use crate::commands::account_model::{model_field_path, selected_model_path};
use crate::commands::edit::{model_place, place_of_model};
use crate::commands::manual_model::catalog;
use crate::path::{component_ok, path3, path4, path5, valid_component, Path};
use crate::registry::{AscendRule, RenderCtx, RenderView, Renderer, RendererRegistry, RuleView};
use crate::renderers::models_list::{source_tag, source_text};
use crate::renderers::util::{
    key_at, model_field_at, models_or_empty, read_key, read_model_field, read_models_or_empty,
};
use crate::snapshot::SnapshotView;
use crate::text::{decimal, join2, join3, number_text};
use crate::types::{models_view, ModelField, ModelInfo, ModelKey, ModelView};
use crate::view::{
    form_rows_view, FormRow, FormRowView, FormValue, FormValueView, NodeView, ViewNode,
};
use vstd::prelude::*;
use vstd::string::*;

use super::SettingsRenderer;

verus! {

/// The page at `settings/models/_detail`.
pub struct ModelDetailRenderer;

/// A figure as shown: a dash where there is none.
pub open spec fn token_text(v: Option<u32>) -> Seq<char> {
    match v {
        Some(n) => decimal(n as nat),
        None => "—"@,
    }
}

/// A figure as shown: a dash where there is none.
pub fn render_token_field(v: Option<u32>) -> (r: String)
    ensures
        r@ == token_text(v),
{
    match v {
        Some(n) => number_text(n as u64),
        None => "—".to_owned(),
    }
}

/// A row that only shows something.
pub open spec fn shown_row(label: Seq<char>, value: Seq<char>) -> FormRowView {
    FormRowView { label, value: FormValueView::ReadOnly(value), error: None, hint: None }
}

/// A row for an overridable figure, with a tag for where it comes from.
pub open spec fn figure_row(label: Seq<char>, v: Option<u32>, source: Seq<char>) -> FormRowView {
    FormRowView {
        label,
        value: FormValueView::Text { value: token_text(v), cursor: 0, masked: false },
        error: None,
        hint: Some("["@ + source + "]"@),
    }
}

/// The row of the form that a field is at.
pub open spec fn model_field_row(f: ModelField) -> int {
    match f {
        ModelField::ContextSizeOverride => 2,
        ModelField::OutputTokensOverride => 3,
    }
}

/// The form for a model of an account.
pub open spec fn model_form(
    account: Seq<char>,
    model: ModelView,
    focused: Option<ModelField>,
) -> NodeView {
    let source = source_text(model.source);
    NodeView::Form {
        title: Some("Model: "@ + account + " / "@ + model.id),
        rows: seq![
            shown_row("id"@, model.id),
            shown_row("display_name"@, model.display_name),
            figure_row("max_context_size"@, model.max_context_size, source),
            figure_row("max_output_tokens"@, model.max_output_tokens, source),
        ],
        focused: match focused {
            Some(f) => Some(model_field_row(f)),
            None => None,
        },
    }
}

/// The selected model's form, or a line that says why there is none.
pub open spec fn model_page(s: SnapshotView) -> NodeView {
    match key_at(s, selected_model_path()) {
        None => NodeView::Text("No model selected. Press Esc to return."@),
        Some(key) => if !component_ok(key.account) {
            NodeView::Text("No model selected. Press Esc to return."@)
        } else {
            let models = models_or_empty(s, catalog(key.account));
            match model_place(models, key.model_id) {
                None => NodeView::Text(
                    "Model '"@ + key.model_id + "' was removed. Press Esc to return."@,
                ),
                Some(i) => model_form(
                    key.account,
                    models[i],
                    model_field_at(s, model_field_path()),
                ),
            }
        },
    }
}

fn show_row(label: &str, value: &str) -> (r: FormRow)
    ensures
        r@ == shown_row(label@, value@),
{
    FormRow {
        label: label.to_owned(),
        value: FormValue::ReadOnly(value.to_owned()),
        error: None,
        hint: None,
    }
}

fn show_figure(label: &str, v: Option<u32>, source: &str) -> (r: FormRow)
    ensures
        r@ == figure_row(label@, v, source@),
{
    FormRow {
        label: label.to_owned(),
        value: FormValue::Text { value: render_token_field(v), cursor: 0, masked: false },
        error: None,
        hint: Some(join3("[", source, "]")),
    }
}

fn build_form(account: &str, model: &ModelInfo, focused: Option<ModelField>) -> (r: ViewNode)
    ensures
        r@ == model_form(account@, model@, focused),
{
    let source: &str = source_tag(&model.source);
    let mut rows: Vec<FormRow> = Vec::new();
    rows.push(show_row("id", model.id.as_str()));
    rows.push(show_row("display_name", model.display_name.as_str()));
    rows.push(show_figure("max_context_size", model.max_context_size, source));
    rows.push(show_figure("max_output_tokens", model.max_output_tokens, source));
    let title: String = join2(join3("Model: ", account, " / ").as_str(), model.id.as_str());
    let place: Option<usize> = match focused {
        Some(f) => match f {
            ModelField::ContextSizeOverride => Some(2),
            ModelField::OutputTokensOverride => Some(3),
        },
        None => None,
    };
    let ghost wanted = model_form(account@, model@, focused);
    proof {
        assert(form_rows_view(rows@) =~= wanted->Form_rows);
    }
    ViewNode::Form { title: Some(title), rows, focused: place }
}

impl Renderer for ModelDetailRenderer {
    open spec fn rule(&self) -> RuleView {
        RuleView::NearestRegistered
    }

    open spec fn behind(&self) -> Option<Seq<Seq<char>>> {
        None
    }

    open spec fn shows(&self, ctx: RenderView, backdrop: NodeView) -> NodeView {
        model_page(ctx.data)
    }

    fn ascend_to(&self) -> (r: AscendRule) {
        AscendRule::NearestRegistered
    }

    fn backdrop(&self) -> (r: Option<Path>) {
        None
    }

    fn render(&self, ctx: &RenderCtx<'_>, _backdrop: ViewNode) -> (r: ViewNode) {
        let key: ModelKey = match read_key(
            ctx.data,
            &path4("ui", "settings", "models", "selected"),
        ) {
            Some(k) => k,
            None => {
                return ViewNode::text("No model selected. Press Esc to return.");
            },
        };
        if !valid_component(key.account.as_str()) {
            return ViewNode::text("No model selected. Press Esc to return.");
        }
        let models: Vec<ModelInfo> = read_models_or_empty(
            ctx.data,
            &path5("config", "gate", "accounts", key.account.as_str(), "models"),
        );
        let i: usize = match place_of_model(&models, key.model_id.as_str()) {
            Some(i) => i,
            None => {
                return ViewNode::Text(
                    join3(
                        "Model '",
                        key.model_id.as_str(),
                        "' was removed. Press Esc to return.",
                    ),
                );
            },
        };
        let focused = read_model_field(
            ctx.data,
            &path4("ui", "settings", "model_detail", "field"),
        );
        proof {
            assert(models_view(models@)[i as int] == models@[i as int]@);
        }
        build_form(key.account.as_str(), &models[i], focused)
    }
}

/// Where the page is registered.
pub open spec fn model_detail_cursor() -> Seq<Seq<char>> {
    seq!["settings"@, "models"@, "_detail"@]
}

/// Registers the page.
pub fn register(reg: &mut RendererRegistry<SettingsRenderer>)
    ensures
        final(reg)@ == assigned(
            old(reg)@,
            model_detail_cursor(),
            SettingsRenderer::ModelDetail(ModelDetailRenderer),
        ),
{
    reg.register(path3("settings", "models", "_detail"), SettingsRenderer::ModelDetail(ModelDetailRenderer));
}

} // verus!
