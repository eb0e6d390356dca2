//! The list of connections.

use crate::assoc::{assigned, place_is_first, place_of, place_unique};
use crate::commands::account_model::selected_account_path;
use crate::commands::compose::{account_names, accounts_root};
use crate::commands::edit::key_place;
use crate::commands::selectors::{account_place, provider_place};
use crate::path::{component_ok, path2, path3, path4, valid_component, Path};
use crate::registry::{AscendRule, RenderCtx, RenderView, Renderer, RendererRegistry, RuleView};
use crate::renderers::util::{
    account_at, provider_at, read_account, read_provider, read_text, text_at,
};
use crate::snapshot::{SettingsSnapshot, SnapshotView};
use crate::text::{chars_of, same, texts};
use crate::view::{items_view, opt_index, ItemView, ListItem, NodeView, ViewNode};
use vstd::prelude::*;
use vstd::string::*;

use super::SettingsRenderer;

verus! {

/// The page at `settings/accounts`.
pub struct AccountsListRenderer;

/// The endpoint shown for a connection, if its provider has a record.
pub open spec fn host_of(s: SnapshotView, name: Seq<char>) -> Seq<char> {
    match account_at(s, account_place(name)) {
        Some(a) => if component_ok(a.provider) {
            match provider_at(s, provider_place(a.provider)) {
                Some(p) => p.endpoint,
                None => Seq::empty(),
            }
        } else {
            Seq::empty()
        },
        None => Seq::empty(),
    }
}

/// Whether a key that is not empty is stored for a connection.
pub open spec fn key_present(s: SnapshotView, name: Seq<char>) -> bool {
    match text_at(s, key_place(name)) {
        Some(k) => k.len() > 0,
        None => false,
    }
}

/// The item that stands for a connection.
pub open spec fn account_item(s: SnapshotView, name: Seq<char>) -> ItemView {
    ItemView {
        primary: name,
        primary_spans: None,
        secondary: Some(host_of(s, name)),
        badge: Some(
            if key_present(s, name) {
                "✓key"@
            } else {
                "–"@
            },
        ),
        focus: None,
    }
}

/// The items for those names that may stand in a path.
pub open spec fn account_items(s: SnapshotView, names: Seq<Seq<char>>) -> Seq<ItemView>
    decreases names.len(),
{
    if names.len() == 0 {
        Seq::empty()
    } else {
        let rest = account_items(s, names.drop_last());
        if component_ok(names.last()) {
            rest.push(account_item(s, names.last()))
        } else {
            rest
        }
    }
}

/// What each item shows first.
pub open spec fn primaries(items: Seq<ItemView>) -> Seq<Seq<char>> {
    Seq::new(items.len(), |i: int| items[i].primary)
}

/// The list of connections, the selected one highlighted if it is there.
pub open spec fn accounts_page(s: SnapshotView) -> NodeView {
    let items = account_items(s, s.children(accounts_root()));
    NodeView::List {
        title: Some("Accounts"@),
        items,
        selected: match text_at(s, selected_account_path()) {
            Some(n) => place_of(primaries(items), n),
            None => None,
        },
    }
}

fn build_item(data: &SettingsSnapshot, name: &str) -> (r: ListItem)
    ensures
        r@ == account_item(data@, name@),
{
    let empty: String = String::new();
    proof {
        assert(empty@ =~= Seq::<char>::empty());
    }
    let host: String = match read_account(data, &path4("config", "gate", "accounts", name)) {
        Some(a) => if valid_component(a.provider.as_str()) {
            match read_provider(
                data,
                &path4("config", "gate", "providers", a.provider.as_str()),
            ) {
                Some(p) => p.endpoint,
                None => empty,
            }
        } else {
            empty
        },
        None => empty,
    };
    let present: bool = match read_text(data, &path3("secret", "keys", name)) {
        Some(k) => chars_of(k.as_str()).len() > 0,
        None => false,
    };
    let badge: &str = if present {
        "✓key"
    } else {
        "–"
    };
    ListItem {
        primary: name.to_owned(),
        primary_spans: None,
        secondary: Some(host),
        badge: Some(badge.to_owned()),
        focus: None,
    }
}

/// The first item that shows `name`.
fn place_of_item(items: &Vec<ListItem>, name: &str) -> (r: Option<usize>)
    ensures
        opt_index(r) == place_of(primaries(items_view(items@)), name@),
{
    let ghost all = primaries(items_view(items@));
    let mut i: usize = 0;
    while i < items.len()
        invariant
            i <= items@.len(),
            all == primaries(items_view(items@)),
            forall|k: int| 0 <= k < i ==> #[trigger] all[k] != name@,
        decreases items@.len() - i,
    {
        if same(items[i].primary.as_str(), name) {
            proof {
                place_unique(all, name@, i as int);
            }
            return Some(i);
        }
        i += 1;
    }
    proof {
        place_is_first(all, name@);
    }
    None
}

impl Renderer for AccountsListRenderer {
    open spec fn rule(&self) -> RuleView {
        RuleView::Fallback(seq!["settings"@, "index"@])
    }

    open spec fn behind(&self) -> Option<Seq<Seq<char>>> {
        None
    }

    open spec fn shows(&self, ctx: RenderView, backdrop: NodeView) -> NodeView {
        accounts_page(ctx.data)
    }

    fn ascend_to(&self) -> (r: AscendRule) {
        AscendRule::Fallback(path2("settings", "index"))
    }

    fn backdrop(&self) -> (r: Option<Path>) {
        None
    }

    fn render(&self, ctx: &RenderCtx<'_>, _backdrop: ViewNode) -> (r: ViewNode) {
        let names: Vec<String> = account_names(ctx.data);
        let ghost all = texts(names@);
        let ghost s = ctx.data@;
        let mut items: Vec<ListItem> = Vec::new();
        let mut i: usize = 0;
        proof {
            assert(items_view(items@) =~= account_items(s, all.subrange(0, 0)));
        }
        while i < names.len()
            invariant
                i <= names@.len(),
                all == texts(names@),
                s == ctx.data@,
                items_view(items@) == account_items(s, all.subrange(0, i as int)),
            decreases names@.len() - i,
        {
            let ghost before = items_view(items@);
            proof {
                let t = all.subrange(0, i + 1);
                assert(t.drop_last() =~= all.subrange(0, i as int));
                assert(t.last() == names@[i as int]@);
            }
            if valid_component(names[i].as_str()) {
                items.push(build_item(ctx.data, names[i].as_str()));
                proof {
                    assert(items_view(items@) =~= before.push(
                        account_item(s, names@[i as int]@),
                    ));
                }
            }
            i += 1;
        }
        proof {
            assert(all.subrange(0, i as int) =~= all);
        }
        let selected: Option<usize> = match read_text(
            ctx.data,
            &path4("ui", "settings", "accounts", "selected"),
        ) {
            Some(n) => place_of_item(&items, n.as_str()),
            None => None,
        };
        ViewNode::List { title: Some("Accounts".to_owned()), items, selected }
    }
}

/// Where the page is registered.
pub open spec fn accounts_list_cursor() -> Seq<Seq<char>> {
    seq!["settings"@, "accounts"@]
}

/// Registers the page.
pub fn register(reg: &mut RendererRegistry<SettingsRenderer>)
    ensures
        final(reg)@ == assigned(
            old(reg)@,
            accounts_list_cursor(),
            SettingsRenderer::AccountsList(AccountsListRenderer),
        ),
{
    reg.register(path2("settings", "accounts"), SettingsRenderer::AccountsList(AccountsListRenderer));
}

} // verus!
