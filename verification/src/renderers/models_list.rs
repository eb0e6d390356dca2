//! The list of all models, connection by connection.

use crate::assoc::{assigned, place_of};
use crate::commands::account_model::{place_of_key, selected_model_path};
use crate::commands::compose::{account_names, accounts_root};
use crate::commands::highlight::{flatten_model_keys, keys_of_accounts};
use crate::commands::manual_model::catalog;
use crate::path::{component_ok, path2, path3, path4, path5, valid_component, Path};
use crate::registry::{AscendRule, RenderCtx, RenderView, Renderer, RendererRegistry, RuleView};
use crate::renderers::util::{
    key_at, models_or_empty, read_key, read_models_or_empty, read_refresh_status, read_role,
    refresh_status_at, role_at,
};
use crate::snapshot::{SettingsSnapshot, SnapshotView};
use crate::text::{join2, join3, same, texts};
use crate::types::{
    models_view, CatalogRefreshStatus, CompletionRole, ModelInfo, ModelInfoSource, ModelView,
    RefreshStatusView, RoleView,
};
use crate::view::{items_view, ItemView, ListItem, NodeView, ViewNode};
use vstd::prelude::*;
use vstd::string::*;

use super::SettingsRenderer;

verus! {

/// The page at `settings/models`.
pub struct ModelsListRenderer;

/// The tag for where a model's figures come from.
pub open spec fn source_text(source: ModelInfoSource) -> Seq<char> {
    match source {
        ModelInfoSource::Server => "server"@,
        ModelInfoSource::KnownTable => "known"@,
        ModelInfoSource::UserOverride => "override"@,
        ModelInfoSource::UserEntered => "entered"@,
    }
}

/// The tag for where a model's figures come from.
pub fn source_tag(source: &ModelInfoSource) -> (r: &'static str)
    ensures
        r@ == source_text(*source),
{
    match source {
        ModelInfoSource::Server => "server",
        ModelInfoSource::KnownTable => "known",
        ModelInfoSource::UserOverride => "override",
        ModelInfoSource::UserEntered => "entered",
    }
}

/// The tag for an ongoing or failed refresh.
pub open spec fn refresh_tag(refresh: Option<RefreshStatusView>) -> Option<Seq<char>> {
    match refresh {
        Some(RefreshStatusView::Refreshing { .. }) => Some("refreshing"@),
        Some(RefreshStatusView::Failed { .. }) => Some("refresh-failed"@),
        _ => None,
    }
}

/// The view of an optional refresh status.
pub open spec fn opt_refresh(o: Option<CatalogRefreshStatus>) -> Option<RefreshStatusView> {
    match o {
        Some(r) => Some(r@),
        None => None,
    }
}

/// The characters of an optional tag.
pub open spec fn opt_tag(o: Option<&'static str>) -> Option<Seq<char>> {
    match o {
        Some(s) => Some(s@),
        None => None,
    }
}

/// The tag for an ongoing or failed refresh.
pub fn refresh_chrome_tag(refresh: &Option<CatalogRefreshStatus>) -> (r: Option<&'static str>)
    ensures
        opt_tag(r) == refresh_tag(opt_refresh(*refresh)),
{
    match refresh {
        Some(s) => match s {
            CatalogRefreshStatus::Refreshing { .. } => Some("refreshing"),
            CatalogRefreshStatus::Failed { .. } => Some("refresh-failed"),
            _ => None,
        },
        None => None,
    }
}

/// Whether a role is bound to a model.
pub open spec fn is_primary(
    account: Seq<char>,
    model_id: Seq<char>,
    primary: Option<RoleView>,
) -> bool {
    primary == Some(RoleView { account, model_id })
}

/// A model's badge: where its figures come from, a star where it is the primary
/// one, and how its catalog's refresh is going.
pub open spec fn badge_text(
    account: Seq<char>,
    model: ModelView,
    primary: Option<RoleView>,
    tag: Option<Seq<char>>,
) -> Seq<char> {
    let starred = if is_primary(account, model.id, primary) {
        source_text(model.source) + " ★"@
    } else {
        source_text(model.source)
    };
    match tag {
        Some(t) => starred + " "@ + t,
        None => starred,
    }
}

/// The view of an optional role.
pub open spec fn opt_role(o: Option<CompletionRole>) -> Option<RoleView> {
    match o {
        Some(r) => Some(r@),
        None => None,
    }
}

/// A model's badge.
pub fn build_badge(
    account: &str,
    model: &ModelInfo,
    primary: &Option<CompletionRole>,
    refresh_tag: &Option<&'static str>,
) -> (r: String)
    ensures
        r@ == badge_text(account@, model@, opt_role(*primary), opt_tag(*refresh_tag)),
{
    let mut s: String = source_tag(&model.source).to_owned();
    let starred: bool = match primary {
        Some(r) => same(r.account.as_str(), account) && same(
            r.model_id.as_str(),
            model.id.as_str(),
        ),
        None => false,
    };
    if starred {
        s = join2(s.as_str(), " ★");
    }
    match refresh_tag {
        Some(tag) => join3(s.as_str(), " ", tag),
        None => s,
    }
}

/// The item that stands for a model.
pub open spec fn model_item(
    account: Seq<char>,
    model: ModelView,
    primary: Option<RoleView>,
    tag: Option<Seq<char>>,
) -> ItemView {
    ItemView {
        primary: account + " / "@ + model.display_name,
        primary_spans: None,
        secondary: Some(model.id),
        badge: Some(badge_text(account, model, primary, tag)),
        focus: None,
    }
}

/// Where an account's refresh status lives.
pub open spec fn refresh_place(account: Seq<char>) -> Seq<Seq<char>> {
    seq!["config"@, "gate"@, "accounts"@, account, "refresh_status"@]
}

/// Where the primary role is read from.
pub open spec fn primary_place() -> Seq<Seq<char>> {
    seq!["config"@, "completions"@, "primary"@]
}

/// The items for an account's models.
pub open spec fn items_of_account(s: SnapshotView, account: Seq<char>) -> Seq<ItemView> {
    if component_ok(account) {
        let models = models_or_empty(s, catalog(account));
        let tag = refresh_tag(refresh_status_at(s, refresh_place(account)));
        Seq::new(
            models.len(),
            |i: int| model_item(account, models[i], role_at(s, primary_place()), tag),
        )
    } else {
        Seq::empty()
    }
}

/// The items for the models of all accounts.
pub open spec fn items_of_accounts(s: SnapshotView, names: Seq<Seq<char>>) -> Seq<ItemView>
    decreases names.len(),
{
    if names.len() == 0 {
        Seq::empty()
    } else {
        items_of_accounts(s, names.drop_last()) + items_of_account(s, names.last())
    }
}

/// The list of all models, the selected one highlighted if it is there.
pub open spec fn models_page(s: SnapshotView) -> NodeView {
    NodeView::List {
        title: Some("Models"@),
        items: items_of_accounts(s, s.children(accounts_root())),
        selected: match key_at(s, selected_model_path()) {
            Some(k) => place_of(keys_of_accounts(s, s.children(accounts_root())), k),
            None => None,
        },
    }
}

fn push_account_items(
    data: &SettingsSnapshot,
    account: &str,
    primary: &Option<CompletionRole>,
    items: &mut Vec<ListItem>,
)
    requires
        opt_role(*primary) == role_at(data@, primary_place()),
    ensures
        items_view(final(items)@) == items_view(old(items)@) + items_of_account(
            data@,
            account@,
        ),
{
    let ghost before = items_view(items@);
    let ghost wanted = items_of_account(data@, account@);
    if !valid_component(account) {
        proof {
            assert(before + wanted =~= before);
        }
        return;
    }
    let refresh: Option<CatalogRefreshStatus> = read_refresh_status(
        data,
        &path5("config", "gate", "accounts", account, "refresh_status"),
    );
    let tag: Option<&'static str> = refresh_chrome_tag(&refresh);
    let models: Vec<ModelInfo> = read_models_or_empty(
        data,
        &path5("config", "gate", "accounts", account, "models"),
    );
    proof {
        assert(models_view(models@).len() == models@.len());
        assert(items_view(items@) =~= before + wanted.subrange(0, 0));
    }
    let mut j: usize = 0;
    while j < models.len()
        invariant
            j <= models@.len(),
            wanted.len() == models@.len(),
            forall|k: int|
                0 <= k < models@.len() ==> #[trigger] wanted[k] == model_item(
                    account@,
                    models@[k]@,
                    opt_role(*primary),
                    opt_tag(tag),
                ),
            items_view(items@) == before + wanted.subrange(0, j as int),
        decreases models@.len() - j,
    {
        let model: &ModelInfo = &models[j];
        items.push(
            ListItem {
                primary: join3(account, " / ", model.display_name.as_str()),
                primary_spans: None,
                secondary: Some(model.id.clone()),
                badge: Some(build_badge(account, model, primary, &tag)),
                focus: None,
            },
        );
        proof {
            assert(items_view(items@) =~= (before + wanted.subrange(0, j as int)).push(
                wanted[j as int],
            ));
            assert(items_view(items@) =~= before + wanted.subrange(0, j + 1));
        }
        j += 1;
    }
    proof {
        assert(wanted.subrange(0, j as int) =~= wanted);
    }
}

impl Renderer for ModelsListRenderer {
    open spec fn rule(&self) -> RuleView {
        RuleView::NearestRegistered
    }

    open spec fn behind(&self) -> Option<Seq<Seq<char>>> {
        None
    }

    open spec fn shows(&self, ctx: RenderView, backdrop: NodeView) -> NodeView {
        models_page(ctx.data)
    }

    fn ascend_to(&self) -> (r: AscendRule) {
        AscendRule::NearestRegistered
    }

    fn backdrop(&self) -> (r: Option<Path>) {
        None
    }

    fn render(&self, ctx: &RenderCtx<'_>, _backdrop: ViewNode) -> (r: ViewNode) {
        let ghost s = ctx.data@;
        let names: Vec<String> = account_names(ctx.data);
        let ghost all = texts(names@);
        let primary: Option<CompletionRole> = read_role(
            ctx.data,
            &path3("config", "completions", "primary"),
        );
        let mut items: Vec<ListItem> = Vec::new();
        let mut i: usize = 0;
        proof {
            assert(items_view(items@) =~= items_of_accounts(s, all.subrange(0, 0)));
        }
        while i < names.len()
            invariant
                i <= names@.len(),
                all == texts(names@),
                s == ctx.data@,
                opt_role(primary) == role_at(s, primary_place()),
                items_view(items@) == items_of_accounts(s, all.subrange(0, i as int)),
            decreases names@.len() - i,
        {
            push_account_items(ctx.data, names[i].as_str(), &primary, &mut items);
            proof {
                let t = all.subrange(0, i + 1);
                assert(t.drop_last() =~= all.subrange(0, i as int));
                assert(t.last() == names@[i as int]@);
            }
            i += 1;
        }
        proof {
            assert(all.subrange(0, i as int) =~= all);
        }
        let selected: Option<usize> = match read_key(
            ctx.data,
            &path4("ui", "settings", "models", "selected"),
        ) {
            Some(k) => place_of_key(&flatten_model_keys(ctx.data), &k),
            None => None,
        };
        ViewNode::List { title: Some("Models".to_owned()), items, selected }
    }
}

proof fn lemma_items_match_keys(s: SnapshotView, names: Seq<Seq<char>>)
    ensures
        items_of_accounts(s, names).len() == keys_of_accounts(s, names).len(),
        forall|i: int|
            0 <= i < items_of_accounts(s, names).len() ==> (#[trigger] items_of_accounts(
                s,
                names,
            )[i]).secondary == Some(keys_of_accounts(s, names)[i].model_id),
    decreases names.len(),
{
    if names.len() > 0 {
        lemma_items_match_keys(s, names.drop_last());
    }
}

/// The highlighted item is the selected model's: items and model keys are
/// listed in the same order.
pub proof fn items_stand_for_keys(s: SnapshotView)
    ensures
        ({
            let names = s.children(accounts_root());
            let items = items_of_accounts(s, names);
            let keys = keys_of_accounts(s, names);
            &&& items.len() == keys.len()
            &&& forall|i: int|
                0 <= i < items.len() ==> (#[trigger] items[i]).secondary == Some(keys[i].model_id)
        }),
{
    lemma_items_match_keys(s, s.children(accounts_root()));
}

/// Where the page is registered.
pub open spec fn models_list_cursor() -> Seq<Seq<char>> {
    seq!["settings"@, "models"@]
}

/// Registers the page.
pub fn register(reg: &mut RendererRegistry<SettingsRenderer>)
    ensures
        final(reg)@ == assigned(
            old(reg)@,
            models_list_cursor(),
            SettingsRenderer::ModelsList(ModelsListRenderer),
        ),
{
    reg.register(path2("settings", "models"), SettingsRenderer::ModelsList(ModelsListRenderer));
}

} // verus!
