//! The commands of the settings screen: functions from what they see of the
//! store to the writes they ask for.

use crate::command_registry::CommandRegistry;
use vstd::prelude::*;

use self::settings_command::{
    action_called, action_id, installed, new_to, others_are_not_called, Action, SettingsCommand,
};

pub mod account_laws;
pub mod account_model;
pub mod action_laws;
pub mod compose;
pub mod compose_form;
pub mod compose_laws;
pub mod edit;
pub mod edit_laws;
pub mod fork;
pub mod highlight;
pub mod manual_laws;
pub mod manual_model;
pub mod modal;
pub mod navigation;
pub mod selectors;
pub mod settings_command;
pub mod step_laws;
pub mod tree;
pub mod tree_laws;

verus! {

/// Every command of the settings screen that is registered at its start.
pub open spec fn all_actions() -> Seq<Action> {
    account_model::account_model_actions() + edit::edit_actions() + highlight::highlight_actions()
        + modal::modal_actions() + navigation::navigation_actions() + tree::tree_actions()
}

proof fn lemma_action_called_in_both(a: Seq<Action>, b: Seq<Action>, id: Seq<char>)
    ensures
        action_called(a + b, id) == match action_called(b, id) {
            Some(x) => Some(x),
            None => action_called(a, id),
        },
    decreases b.len(),
{
    if b.len() == 0 {
        assert(a + b =~= a);
    } else {
        assert((a + b).drop_last() =~= a + b.drop_last());
        assert((a + b).last() == b.last());
        lemma_action_called_in_both(a, b.drop_last(), id);
    }
}

proof fn lemma_installed_in_turn(
    s0: Seq<(Seq<char>, SettingsCommand)>,
    a: Seq<Action>,
    s1: Seq<(Seq<char>, SettingsCommand)>,
    b: Seq<Action>,
    s2: Seq<(Seq<char>, SettingsCommand)>,
)
    requires
        installed(s0, a, s1),
        installed(s1, b, s2),
    ensures
        installed(s0, a + b, s2),
{
    assert forall|id: Seq<char>|
        match action_called(a + b, id) {
            Some(x) => (#[trigger] crate::assoc::lookup(s2, id)) is Some && crate::assoc::lookup(
                s2,
                id,
            )->0.is_for(x),
            None => crate::assoc::lookup(s2, id) == crate::assoc::lookup(s0, id),
        } by {
        lemma_action_called_in_both(a, b, id);
        let _ = crate::assoc::lookup(s1, id);
    }
}

/// Actions that are not among those installed so far are new to the registry.
proof fn lemma_new_after(
    before: Seq<(Seq<char>, SettingsCommand)>,
    done: Seq<Action>,
    after: Seq<(Seq<char>, SettingsCommand)>,
    actions: Seq<Action>,
)
    requires
        before.len() == 0,
        installed(before, done, after),
        actions.no_duplicates(),
        forall|i: int, j: int|
            0 <= i < done.len() && 0 <= j < actions.len() ==> #[trigger] done[i]
                != #[trigger] actions[j],
    ensures
        new_to(actions, after),
{
    assert forall|i: int| 0 <= i < actions.len() implies crate::assoc::lookup(
        after,
        action_id(#[trigger] actions[i]),
    ) is None by {
        if done.contains(actions[i]) {
            let k = choose|k: int| 0 <= k < done.len() && done[k] == actions[i];
        }
        others_are_not_called(done, actions[i]);
        assert(crate::assoc::lookup(before, action_id(actions[i])) is None);
    }
}

/// Registers every command of the settings screen. A registry that was empty
/// then holds one for each of them.
pub fn register_all(reg: &mut CommandRegistry<SettingsCommand>)
    ensures
        installed(old(reg)@, all_actions(), final(reg)@),
        old(reg)@.len() == 0 ==> final(reg)@.len() == 47,
{
    let ghost s0 = reg@;
    account_model::register(reg);
    let ghost s1 = reg@;
    edit::register(reg);
    let ghost s2 = reg@;
    highlight::register(reg);
    let ghost s3 = reg@;
    modal::register(reg);
    let ghost s4 = reg@;
    navigation::register(reg);
    let ghost s5 = reg@;
    tree::register(reg);
    proof {
        let a = account_model::account_model_actions();
        let b = edit::edit_actions();
        let c = highlight::highlight_actions();
        let d = modal::modal_actions();
        let e = navigation::navigation_actions();
        lemma_installed_in_turn(s0, a, s1, b, s2);
        lemma_installed_in_turn(s0, a + b, s2, c, s3);
        lemma_installed_in_turn(s0, a + b + c, s3, d, s4);
        lemma_installed_in_turn(s0, a + b + c + d, s4, e, s5);
        let f = tree::tree_actions();
        lemma_installed_in_turn(s0, a + b + c + d + e, s5, f, reg@);
        if s0.len() == 0 {
            lemma_new_after(s0, Seq::empty(), s0, a);
            lemma_new_after(s0, a, s1, b);
            lemma_new_after(s0, a + b, s2, c);
            lemma_new_after(s0, a + b + c, s3, d);
            lemma_new_after(s0, a + b + c + d, s4, e);
            lemma_new_after(s0, a + b + c + d + e, s5, f);
        }
    }
}

} // verus!
