//! Paths as store values, and leaving a page.

use crate::command_registry::{CommandCtx, CommandRegistry, CtxView};
use crate::keys::opt_path;
use crate::path::{path3, path_ok, Path};
use crate::registry::{ascent, Renderer};
use crate::renderers::util::{path_at, value_path};
use crate::snapshot::{SettingsSnapshot, SnapshotView};
use crate::value::{
    path_value, put, put_path, texts_from_value, texts_to_value, texts_value_round_trip, write_at,
    writes_view, StoreValue, ValueView, Write, WriteView,
};
use vstd::prelude::*;

use super::settings_command::{install, installed, new_to, Action, SettingsCommand};

verus! {

/// The cursor's place in the store.
pub open spec fn page_cursor_path() -> Seq<Seq<char>> {
    seq!["ui"@, "settings"@, "cursor"@]
}

/// The place of the request to leave the screen.
pub open spec fn request_exit_path() -> Seq<Seq<char>> {
    seq!["ui"@, "settings"@, "_request_exit"@]
}

/// The write that asks to leave the screen.
pub open spec fn request_exit() -> WriteView {
    put(request_exit_path(), ValueView::Bool(true))
}

/// The value that stands for a path: the list of its components.
pub fn path_to_value(p: &Path) -> (r: StoreValue)
    ensures
        r@ == path_value(p@),
{
    texts_to_value(&p.components)
}

/// The path a value stands for; `None` where it is no list of texts, or one of
/// them may not stand in a path.
pub fn path_from_value(v: &StoreValue) -> (r: Option<Path>)
    ensures
        opt_path(r) == value_path(v@),
{
    match texts_from_value(v) {
        Some(components) => Path::from_components(components),
        None => None,
    }
}

/// The path stored at `path`.
pub fn read_path(data: &SettingsSnapshot, path: &Path) -> (r: Option<Path>)
    ensures
        opt_path(r) == path_at(data@, path@),
{
    match data.read(path) {
        Some(v) => path_from_value(v),
        None => None,
    }
}

/// A path comes back from the value that stands for it.
pub proof fn path_value_round_trip(p: Seq<Seq<char>>)
    requires
        path_ok(p),
    ensures
        value_path(path_value(p)) == Some(p),
{
    texts_value_round_trip(p);
}

/// The writes of leaving the current page: the cursor moves to where the page
/// leads, or the screen is asked to close. Without a cursor there are none.
pub open spec fn ascend_writes<R: Renderer>(s: SnapshotView, ctx: CtxView<R>) -> Seq<WriteView> {
    match path_at(s, page_cursor_path()) {
        None => Seq::empty(),
        Some(cursor) => match ascent(ctx.pages, cursor) {
            Some(parent) => seq![put_path(page_cursor_path(), parent)],
            None => seq![request_exit()],
        },
    }
}

/// Leaves the current page.
pub fn ascend<R: Renderer>(data: &SettingsSnapshot, ctx: &CommandCtx<'_, R>) -> (r: Vec<Write>)
    ensures
        writes_view(r@) == ascend_writes(data@, ctx@),
{
    let mut out: Vec<Write> = Vec::new();
    match read_path(data, &path3("ui", "settings", "cursor")) {
        None => {},
        Some(cursor) => match ctx.registry.ascend(&cursor) {
            Some(parent) => {
                out.push(write_at(path3("ui", "settings", "cursor"), path_to_value(&parent)));
            },
            None => {
                out.push(exit_write());
            },
        },
    }
    proof {
        assert(writes_view(out@) =~= ascend_writes(data@, ctx@));
    }
    out
}

/// The write that asks to leave the screen.
pub fn exit_write() -> (r: Write)
    ensures
        r@ == request_exit(),
{
    write_at(path3("ui", "settings", "_request_exit"), StoreValue::Bool(true))
}

/// The commands of this group.
pub open spec fn navigation_actions() -> Seq<Action> {
    seq![
        Action::NavAscend,
    ]
}

/// Registers the commands of this group.
pub fn register(reg: &mut CommandRegistry<SettingsCommand>)
    ensures
        installed(old(reg)@, navigation_actions(), final(reg)@),
        new_to(navigation_actions(), old(reg)@) ==> final(reg)@.len() == old(reg)@.len() + navigation_actions().len(),
{
    let actions: Vec<Action> = vec![
        Action::NavAscend,
    ];
    proof {
        assert(actions@ =~= navigation_actions());
    }
    install(reg, &actions);
}

} // verus!
