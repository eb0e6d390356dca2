//! Showing and hiding dialogs.

use crate::command_registry::CommandRegistry;
use crate::path::path2;
use crate::value::{null_write, put_null, writes_view, Write};
use vstd::prelude::*;

use super::settings_command::{install, installed, new_to, Action, SettingsCommand};

verus! {

/// Shows the shortcuts, or hides them.
pub fn toggle_shortcuts() -> (r: Vec<Write>)
    ensures
        writes_view(r@) == seq![put_null(seq!["ui"@, "toggle_shortcuts"@])],
{
    let mut out: Vec<Write> = Vec::new();
    out.push(null_write(path2("ui", "toggle_shortcuts")));
    proof {
        assert(writes_view(out@) =~= seq![put_null(seq!["ui"@, "toggle_shortcuts"@])]);
    }
    out
}

/// The commands of this group.
pub open spec fn modal_actions() -> Seq<Action> {
    seq![
        Action::ToggleShortcuts,
    ]
}

/// Registers the commands of this group.
pub fn register(reg: &mut CommandRegistry<SettingsCommand>)
    ensures
        installed(old(reg)@, modal_actions(), final(reg)@),
        new_to(modal_actions(), old(reg)@) ==> final(reg)@.len() == old(reg)@.len() + modal_actions().len(),
{
    let actions: Vec<Action> = vec![
        Action::ToggleShortcuts,
    ];
    proof {
        assert(actions@ =~= modal_actions());
    }
    install(reg, &actions);
}

} // verus!
