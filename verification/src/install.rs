//! Setting the screen up: its bindings, commands and pages, and the records its
//! store starts with.

use crate::bindings::{edit_handler, register, settings_bindings};
use crate::command_registry::CommandRegistry;
use crate::commands::settings_command::{installed, SettingsCommand};
use crate::commands::{all_actions, register_all as register_commands};
use crate::help::names_in;
use crate::keys::{BindingView, JoinedBinding};
use crate::ordered::placed_all;
use crate::paths::{bindings_prefix, commands_prefix, cursor_path, render_tick_path};
use crate::registry::RendererRegistry;
use crate::renderers::{page_at, register_all as register_pages, SettingsRenderer};
use crate::scopes::{binding_class, ScopeRegistry};
use crate::shortcuts::{
    build_joined_from_registries, join_all, joined_registry_path, joined_to_value, joined_value,
    shortcuts_path, ResolverView, ShortcutResolver,
};
use crate::value::{put, write_at, writes_view, StoreValue, ValueView, Write};
use vstd::prelude::*;

verus! {

/// Everything the screen runs on.
pub struct SettingsScreen {
    pub bindings: ScopeRegistry,
    pub commands: CommandRegistry<SettingsCommand>,
    pub renderers: RendererRegistry<SettingsRenderer>,
    pub resolver: ShortcutResolver,
}

/// Sets up the bindings, the commands, the pages, and what keeps the shortcuts
/// up to date.
pub fn install() -> (r: SettingsScreen)
    ensures
        r.bindings@.entries == placed_all(
            Seq::<BindingView>::empty(),
            binding_class(),
            settings_bindings(),
        ),
        r.bindings@.handlers == seq![edit_handler()],
        installed(Seq::empty(), all_actions(), r.commands@),
        forall|cursor: Seq<Seq<char>>| #[trigger]
            crate::assoc::lookup(r.renderers@, cursor) == page_at(cursor),
        r.resolver@.cursor == crate::commands::compose::focused_path(),
        r.resolver@ == (ResolverView {
            cursor: seq!["ui"@, "settings"@, "focused"@],
            bindings: seq!["horns"@, "settings"@, "bindings"@],
            commands: seq!["horns"@, "settings"@, "commands"@],
            registry: seq!["horns"@, "settings"@, "shortcut_registry"@],
            output: seq!["ui"@, "settings"@, "shortcuts"@],
        }),
{
    let mut bindings = ScopeRegistry::new();
    let mut commands: CommandRegistry<SettingsCommand> = CommandRegistry::new();
    let mut renderers: RendererRegistry<SettingsRenderer> = RendererRegistry::new();
    register(&mut bindings);
    register_commands(&mut commands);
    register_pages(&mut renderers);
    proof {
        assert(bindings@.handlers =~= seq![edit_handler()]);
    }
    let resolver = ShortcutResolver::new(
        cursor_path(),
        bindings_prefix(),
        commands_prefix(),
        joined_registry_path(),
        shortcuts_path(),
    );
    SettingsScreen { bindings, commands, renderers, resolver }
}

/// The writes the store starts with: the joined bindings, and a first tick that
/// has the screen drawn.
pub fn seed_writes(screen: &SettingsScreen) -> (r: Vec<Write>)
    ensures
        writes_view(r@) == seq![
            put(
                seq!["horns"@, "settings"@, "shortcut_registry"@],
                joined_value(
                    join_all(
                        screen.bindings@.entries,
                        names_in::<SettingsRenderer, SettingsCommand>(screen.commands@),
                    ),
                ),
            ),
            put(
                seq!["ui"@, "_horns"@, "settings"@, "render"@, "tick"@],
                ValueView::Integer(0),
            ),
        ],
{
    let joined: Vec<JoinedBinding> = build_joined_from_registries::<
        SettingsRenderer,
        SettingsCommand,
    >(&screen.bindings, &screen.commands);
    let mut out: Vec<Write> = Vec::new();
    out.push(write_at(joined_registry_path(), joined_to_value(&joined)));
    out.push(write_at(render_tick_path(), StoreValue::Integer(0)));
    proof {
        assert(writes_view(out@) =~= seq![
            put(
                seq!["horns"@, "settings"@, "shortcut_registry"@],
                joined_value(
                    join_all(
                        screen.bindings@.entries,
                        names_in::<SettingsRenderer, SettingsCommand>(screen.commands@),
                    ),
                ),
            ),
            put(
                seq!["ui"@, "_horns"@, "settings"@, "render"@, "tick"@],
                ValueView::Integer(0),
            ),
        ]);
    }
    out
}

} // verus!
