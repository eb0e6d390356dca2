//! Which keys of the settings screen lead to which commands.

use crate::bindings::{
    compose_bindings, compose_field_scope, compose_form_bindings, compose_selector_bindings,
    compose_text_bindings, edit_bindings, form_bindings, global_bindings, index_bindings,
    manual_model_bindings, pending_delete_bindings, printable, row_bindings, settings_bindings,
    stage_bindings, typing,
};
use crate::keys::{BindingView, KeyCodeRepr, ScopeView};
use vstd::prelude::*;

verus! {

/// Whether a key is bound to a command at a scope.
pub open spec fn bound_to(
    table: Seq<BindingView>,
    scope: ScopeView,
    code: KeyCodeRepr,
    command: Seq<char>,
) -> bool {
    exists|i: int|
        0 <= i < table.len() && (#[trigger] table[i]).scope == scope && table[i].key.code == code
            && table[i].command == command
}

proof fn lemma_at(table: Seq<BindingView>, i: int)
    requires
        0 <= i < table.len(),
    ensures
        bound_to(table, table[i].scope, table[i].key.code, table[i].command),
{
}

proof fn lemma_wider(
    a: Seq<BindingView>,
    part: Seq<BindingView>,
    b: Seq<BindingView>,
    scope: ScopeView,
    code: KeyCodeRepr,
    command: Seq<char>,
)
    requires
        bound_to(part, scope, code, command),
    ensures
        bound_to(a + part + b, scope, code, command),
{
    let i = choose|i: int|
        0 <= i < part.len() && (#[trigger] part[i]).scope == scope && part[i].key.code == code
            && part[i].command == command;
    assert((a + part + b)[a.len() + i] == part[i]);
}

/// The groups of the table.
proof fn lemma_groups(scope: ScopeView, code: KeyCodeRepr, command: Seq<char>)
    ensures
        bound_to(global_bindings(), scope, code, command) || bound_to(
            edit_bindings(),
            scope,
            code,
            command,
        ) || bound_to(compose_bindings(), scope, code, command) || bound_to(
            manual_model_bindings(),
            scope,
            code,
            command,
        ) || bound_to(pending_delete_bindings(), scope, code, command) || bound_to(
            index_bindings(),
            scope,
            code,
            command,
        ) || bound_to(row_bindings(), scope, code, command) ==> bound_to(
            settings_bindings(),
            scope,
            code,
            command,
        ),
{
    let t = settings_bindings();
    let none = Seq::<BindingView>::empty();
    let (g, e, c, m, p, i, r) = (
        global_bindings(),
        edit_bindings(),
        compose_bindings(),
        manual_model_bindings(),
        pending_delete_bindings(),
        index_bindings(),
        row_bindings(),
    );
    if bound_to(g, scope, code, command) {
        lemma_wider(none, g, e + c + m + p + i + r, scope, code, command);
        assert(none + g + (e + c + m + p + i + r) =~= t);
    }
    if bound_to(e, scope, code, command) {
        lemma_wider(g, e, c + m + p + i + r, scope, code, command);
        assert(g + e + (c + m + p + i + r) =~= t);
    }
    if bound_to(c, scope, code, command) {
        lemma_wider(g + e, c, m + p + i + r, scope, code, command);
        assert(g + e + c + (m + p + i + r) =~= t);
    }
    if bound_to(m, scope, code, command) {
        lemma_wider(g + e + c, m, p + i + r, scope, code, command);
        assert(g + e + c + m + (p + i + r) =~= t);
    }
    if bound_to(p, scope, code, command) {
        lemma_wider(g + e + c + m, p, i + r, scope, code, command);
        assert(g + e + c + m + p + (i + r) =~= t);
    }
    if bound_to(i, scope, code, command) {
        lemma_wider(g + e + c + m + p, i, r, scope, code, command);
        assert(g + e + c + m + p + i + r =~= t);
    }
    if bound_to(r, scope, code, command) {
        lemma_wider(g + e + c + m + p + i, r, none, scope, code, command);
        assert(g + e + c + m + p + i + r + none =~= t);
    }
}

/// On the page `j` and Down lead to the next row, `k` and Up to the previous one,
/// Enter, `e`, `o` and `i` open a row, Escape goes back, and `q` leaves.
pub proof fn page_keys_move_open_and_leave()
    ensures
        ({
            let t = settings_bindings();
            let page = ScopeView::Exact(seq!["settings"@]);
            &&& bound_to(t, page, KeyCodeRepr::Char('j'), "tree.next"@)
            &&& bound_to(t, page, KeyCodeRepr::Down, "tree.next"@)
            &&& bound_to(t, page, KeyCodeRepr::Char('k'), "tree.prev"@)
            &&& bound_to(t, page, KeyCodeRepr::Up, "tree.prev"@)
            &&& bound_to(t, page, KeyCodeRepr::Enter, "tree.activate"@)
            &&& bound_to(t, page, KeyCodeRepr::Char('e'), "tree.activate"@)
            &&& bound_to(t, page, KeyCodeRepr::Char('o'), "tree.activate"@)
            &&& bound_to(t, page, KeyCodeRepr::Char('i'), "tree.activate"@)
            &&& bound_to(t, page, KeyCodeRepr::Char('G'), "tree.last"@)
            &&& bound_to(t, page, KeyCodeRepr::End, "tree.last"@)
            &&& bound_to(t, page, KeyCodeRepr::Home, "tree.first"@)
            &&& bound_to(t, page, KeyCodeRepr::Esc, "tree.collapse_or_ascend"@)
            &&& bound_to(
                t,
                ScopeView::Prefix(seq!["settings"@]),
                KeyCodeRepr::Char('q'),
                "nav.exit_screen"@,
            )
        }),
{
    let g = index_bindings();
    let page = ScopeView::Exact(seq!["settings"@]);
    lemma_at(g, 0);
    lemma_at(g, 1);
    lemma_at(g, 2);
    lemma_at(g, 3);
    lemma_at(g, 4);
    lemma_at(g, 5);
    lemma_at(g, 6);
    lemma_at(g, 7);
    lemma_at(g, 8);
    lemma_at(g, 9);
    lemma_at(g, 10);
    lemma_at(g, 11);
    lemma_at(g, 12);
    lemma_groups(page, KeyCodeRepr::Char('j'), "tree.next"@);
    lemma_groups(page, KeyCodeRepr::Down, "tree.next"@);
    lemma_groups(page, KeyCodeRepr::Char('k'), "tree.prev"@);
    lemma_groups(page, KeyCodeRepr::Up, "tree.prev"@);
    lemma_groups(page, KeyCodeRepr::Enter, "tree.activate"@);
    lemma_groups(page, KeyCodeRepr::Char('e'), "tree.activate"@);
    lemma_groups(page, KeyCodeRepr::Char('o'), "tree.activate"@);
    lemma_groups(page, KeyCodeRepr::Char('i'), "tree.activate"@);
    lemma_groups(page, KeyCodeRepr::Char('G'), "tree.last"@);
    lemma_groups(page, KeyCodeRepr::End, "tree.last"@);
    lemma_groups(page, KeyCodeRepr::Home, "tree.first"@);
    lemma_groups(page, KeyCodeRepr::Esc, "tree.collapse_or_ascend"@);
    lemma_groups(
        ScopeView::Prefix(seq!["settings"@]),
        KeyCodeRepr::Char('q'),
        "nav.exit_screen"@,
    );
}

/// On the rows of the connections keys compose, test, refresh, delete and part a
/// connection and turn its selectors; on those of the models they set the model
/// to start with, refresh, toggle the default set and add a model.
pub proof fn row_keys_act_on_connections_and_models()
    ensures
        ({
            let t = settings_bindings();
            let accounts = ScopeView::Prefix(seq!["settings"@, "accounts"@]);
            let models = ScopeView::Prefix(seq!["settings"@, "models"@]);
            &&& bound_to(t, accounts, KeyCodeRepr::Char('a'), "accounts.compose.open"@)
            &&& bound_to(t, accounts, KeyCodeRepr::Char('t'), "account.test"@)
            &&& bound_to(t, accounts, KeyCodeRepr::Char('r'), "account.refresh"@)
            &&& bound_to(t, accounts, KeyCodeRepr::Char('d'), "accounts.delete_confirm"@)
            &&& bound_to(t, accounts, KeyCodeRepr::Char('f'), "accounts.fork_provider"@)
            &&& bound_to(t, accounts, KeyCodeRepr::Char('h'), "cycle.field.prev"@)
            &&& bound_to(t, accounts, KeyCodeRepr::Left, "cycle.field.prev"@)
            &&& bound_to(t, accounts, KeyCodeRepr::Char('l'), "cycle.field.next"@)
            &&& bound_to(t, accounts, KeyCodeRepr::Right, "cycle.field.next"@)
            &&& bound_to(t, models, KeyCodeRepr::Char('P'), "models.set_bootstrap"@)
            &&& bound_to(t, models, KeyCodeRepr::Char('r'), "account.refresh"@)
            &&& bound_to(t, models, KeyCodeRepr::Char('d'), "models.toggle_default"@)
            &&& bound_to(t, models, KeyCodeRepr::Char('m'), "models.add_manual"@)
        }),
{
    let g = row_bindings();
    let accounts = ScopeView::Prefix(seq!["settings"@, "accounts"@]);
    let models = ScopeView::Prefix(seq!["settings"@, "models"@]);
    lemma_at(g, 0);
    lemma_at(g, 1);
    lemma_at(g, 2);
    lemma_at(g, 3);
    lemma_at(g, 4);
    lemma_at(g, 5);
    lemma_at(g, 6);
    lemma_at(g, 7);
    lemma_at(g, 8);
    lemma_at(g, 9);
    lemma_at(g, 10);
    lemma_at(g, 11);
    lemma_at(g, 12);
    lemma_groups(accounts, KeyCodeRepr::Char('a'), "accounts.compose.open"@);
    lemma_groups(accounts, KeyCodeRepr::Char('t'), "account.test"@);
    lemma_groups(accounts, KeyCodeRepr::Char('r'), "account.refresh"@);
    lemma_groups(accounts, KeyCodeRepr::Char('d'), "accounts.delete_confirm"@);
    lemma_groups(accounts, KeyCodeRepr::Char('f'), "accounts.fork_provider"@);
    lemma_groups(accounts, KeyCodeRepr::Char('h'), "cycle.field.prev"@);
    lemma_groups(accounts, KeyCodeRepr::Left, "cycle.field.prev"@);
    lemma_groups(accounts, KeyCodeRepr::Char('l'), "cycle.field.next"@);
    lemma_groups(accounts, KeyCodeRepr::Right, "cycle.field.next"@);
    lemma_groups(models, KeyCodeRepr::Char('P'), "models.set_bootstrap"@);
    lemma_groups(models, KeyCodeRepr::Char('r'), "account.refresh"@);
    lemma_groups(models, KeyCodeRepr::Char('d'), "models.toggle_default"@);
    lemma_groups(models, KeyCodeRepr::Char('m'), "models.add_manual"@);
}

/// While a field is edited Enter saves, Escape gives up and Backspace deletes; at
/// the question about a deletion `y` deletes, and `n` and Escape call it off;
/// everywhere `?` shows the shortcuts and `s`, with control, saves.
pub proof fn dialog_keys_confirm_and_cancel()
    ensures
        ({
            let t = settings_bindings();
            let edit = ScopeView::Exact(seq!["settings"@, "_edit"@]);
            let ask = ScopeView::Exact(seq!["settings"@, "_confirm_delete"@]);
            &&& bound_to(t, edit, KeyCodeRepr::Backspace, "edit.delete_back"@)
            &&& bound_to(t, edit, KeyCodeRepr::Enter, "edit.commit"@)
            &&& bound_to(t, edit, KeyCodeRepr::Esc, "edit.cancel"@)
            &&& bound_to(t, ask, KeyCodeRepr::Char('y'), "accounts.confirm.delete"@)
            &&& bound_to(t, ask, KeyCodeRepr::Char('n'), "accounts.confirm.cancel"@)
            &&& bound_to(t, ask, KeyCodeRepr::Esc, "accounts.confirm.cancel"@)
            &&& bound_to(
                t,
                ScopeView::Anywhere,
                KeyCodeRepr::Char('?'),
                "modal.toggle_shortcuts"@,
            )
            &&& bound_to(t, ScopeView::Anywhere, KeyCodeRepr::Char('s'), "app.save"@)
        }),
{
    let edit = ScopeView::Exact(seq!["settings"@, "_edit"@]);
    let ask = ScopeView::Exact(seq!["settings"@, "_confirm_delete"@]);
    lemma_at(edit_bindings(), 0);
    lemma_at(edit_bindings(), 1);
    lemma_at(edit_bindings(), 2);
    lemma_at(pending_delete_bindings(), 0);
    lemma_at(pending_delete_bindings(), 1);
    lemma_at(pending_delete_bindings(), 2);
    lemma_at(global_bindings(), 0);
    lemma_at(global_bindings(), 1);
    lemma_groups(edit, KeyCodeRepr::Backspace, "edit.delete_back"@);
    lemma_groups(edit, KeyCodeRepr::Enter, "edit.commit"@);
    lemma_groups(edit, KeyCodeRepr::Esc, "edit.cancel"@);
    lemma_groups(ask, KeyCodeRepr::Char('y'), "accounts.confirm.delete"@);
    lemma_groups(ask, KeyCodeRepr::Char('n'), "accounts.confirm.cancel"@);
    lemma_groups(ask, KeyCodeRepr::Esc, "accounts.confirm.cancel"@);
    lemma_groups(ScopeView::Anywhere, KeyCodeRepr::Char('?'), "modal.toggle_shortcuts"@);
    lemma_groups(ScopeView::Anywhere, KeyCodeRepr::Char('s'), "app.save"@);
}

proof fn lemma_form(
    at: Seq<Seq<char>>,
    cancel: Seq<char>,
    next: Seq<char>,
    prev: Seq<char>,
    commit: Seq<char>,
)
    ensures
        ({
            let f = form_bindings(at, cancel, next, prev, commit);
            let here = ScopeView::Exact(at);
            &&& bound_to(f, here, KeyCodeRepr::Esc, cancel)
            &&& bound_to(f, here, KeyCodeRepr::Tab, next)
            &&& bound_to(f, here, KeyCodeRepr::Down, next)
            &&& bound_to(f, here, KeyCodeRepr::BackTab, prev)
            &&& bound_to(f, here, KeyCodeRepr::Up, prev)
            &&& bound_to(f, here, KeyCodeRepr::Enter, commit)
        }),
{
    let f = form_bindings(at, cancel, next, prev, commit);
    lemma_at(f, 0);
    lemma_at(f, 1);
    lemma_at(f, 2);
    lemma_at(f, 3);
    lemma_at(f, 4);
    lemma_at(f, 5);
}

proof fn lemma_compose_groups(scope: ScopeView, code: KeyCodeRepr, command: Seq<char>)
    ensures
        bound_to(compose_form_bindings(), scope, code, command) || bound_to(
            compose_text_bindings("name"@),
            scope,
            code,
            command,
        ) || bound_to(compose_text_bindings("endpoint"@), scope, code, command) || bound_to(
            compose_text_bindings("key"@),
            scope,
            code,
            command,
        ) || bound_to(compose_selector_bindings("protocol"@), scope, code, command) || bound_to(
            compose_selector_bindings("auth"@),
            scope,
            code,
            command,
        ) ==> bound_to(settings_bindings(), scope, code, command),
{
    let none = Seq::<BindingView>::empty();
    let c = compose_bindings();
    let (f, n, e, k, p, a) = (
        compose_form_bindings(),
        compose_text_bindings("name"@),
        compose_text_bindings("endpoint"@),
        compose_text_bindings("key"@),
        compose_selector_bindings("protocol"@),
        compose_selector_bindings("auth"@),
    );
    if bound_to(f, scope, code, command) {
        lemma_wider(none, f, n + e + k + p + a, scope, code, command);
        assert(none + f + (n + e + k + p + a) =~= c);
    }
    if bound_to(n, scope, code, command) {
        lemma_wider(f, n, e + k + p + a, scope, code, command);
        assert(f + n + (e + k + p + a) =~= c);
    }
    if bound_to(e, scope, code, command) {
        lemma_wider(f + n, e, k + p + a, scope, code, command);
        assert(f + n + e + (k + p + a) =~= c);
    }
    if bound_to(k, scope, code, command) {
        lemma_wider(f + n + e, k, p + a, scope, code, command);
        assert(f + n + e + k + (p + a) =~= c);
    }
    if bound_to(p, scope, code, command) {
        lemma_wider(f + n + e + k, p, a, scope, code, command);
        assert(f + n + e + k + p + a =~= c);
    }
    if bound_to(a, scope, code, command) {
        lemma_wider(f + n + e + k + p, a, none, scope, code, command);
        assert(f + n + e + k + p + a + none =~= c);
    }
    lemma_groups(scope, code, command);
}

/// In the form for a new connection Tab and Down lead to the next field, the
/// backwards tab and Up to the previous one, Enter creates the connection and
/// Escape gives it up; in its selectors `h` and Left turn back, `l` and Right
/// forward.
pub proof fn form_keys_move_turn_and_finish(field: Seq<char>)
    requires
        field == "protocol"@ || field == "auth"@,
    ensures
        ({
            let t = settings_bindings();
            let form = ScopeView::Exact(seq!["settings"@, "_compose_form"@]);
            let at = ScopeView::Exact(seq!["settings"@, "_compose_form"@, field]);
            &&& bound_to(t, form, KeyCodeRepr::Esc, "accounts.compose.cancel"@)
            &&& bound_to(t, form, KeyCodeRepr::Tab, "accounts.compose.focus_next"@)
            &&& bound_to(t, form, KeyCodeRepr::Down, "accounts.compose.focus_next"@)
            &&& bound_to(t, form, KeyCodeRepr::BackTab, "accounts.compose.focus_prev"@)
            &&& bound_to(t, form, KeyCodeRepr::Up, "accounts.compose.focus_prev"@)
            &&& bound_to(t, form, KeyCodeRepr::Enter, "accounts.compose.commit"@)
            &&& bound_to(t, at, KeyCodeRepr::Char('h'), "accounts.compose.cycle_back"@)
            &&& bound_to(t, at, KeyCodeRepr::Left, "accounts.compose.cycle_back"@)
            &&& bound_to(t, at, KeyCodeRepr::Char('l'), "accounts.compose.cycle_forward"@)
            &&& bound_to(t, at, KeyCodeRepr::Right, "accounts.compose.cycle_forward"@)
        }),
{
    let form = ScopeView::Exact(seq!["settings"@, "_compose_form"@]);
    let at = ScopeView::Exact(seq!["settings"@, "_compose_form"@, field]);
    lemma_form(
        seq!["settings"@, "_compose_form"@],
        "accounts.compose.cancel"@,
        "accounts.compose.focus_next"@,
        "accounts.compose.focus_prev"@,
        "accounts.compose.commit"@,
    );
    let g = compose_selector_bindings(field);
    lemma_at(g, 0);
    lemma_at(g, 1);
    lemma_at(g, 2);
    lemma_at(g, 3);
    lemma_compose_groups(form, KeyCodeRepr::Esc, "accounts.compose.cancel"@);
    lemma_compose_groups(form, KeyCodeRepr::Tab, "accounts.compose.focus_next"@);
    lemma_compose_groups(form, KeyCodeRepr::Down, "accounts.compose.focus_next"@);
    lemma_compose_groups(form, KeyCodeRepr::BackTab, "accounts.compose.focus_prev"@);
    lemma_compose_groups(form, KeyCodeRepr::Up, "accounts.compose.focus_prev"@);
    lemma_compose_groups(form, KeyCodeRepr::Enter, "accounts.compose.commit"@);
    lemma_compose_groups(at, KeyCodeRepr::Char('h'), "accounts.compose.cycle_back"@);
    lemma_compose_groups(at, KeyCodeRepr::Left, "accounts.compose.cycle_back"@);
    lemma_compose_groups(at, KeyCodeRepr::Char('l'), "accounts.compose.cycle_forward"@);
    lemma_compose_groups(at, KeyCodeRepr::Right, "accounts.compose.cycle_forward"@);
}

proof fn lemma_typing(scope: Seq<Seq<char>>, command: Seq<char>, last: BindingView, c: char)
    requires
        ' ' <= c <= '~',
    ensures
        bound_to(
            typing(scope, command, true).push(last),
            ScopeView::Exact(scope),
            KeyCodeRepr::Char(c),
            command,
        ),
        bound_to(typing(scope, command, true).push(last), last.scope, last.key.code, last.command),
{
    let g = typing(scope, command, true).push(last);
    let i = c as int - 0x20;
    assert(g[i] == typing(scope, command, true)[i]);
    assert(printable(i) == c);
    lemma_at(g, i);
    lemma_at(g, 95);
}

/// In a text field of the form for a new connection every printable character is
/// typed, and Backspace deletes.
pub proof fn every_character_can_be_typed(field: Seq<char>, c: char)
    requires
        field == "name"@ || field == "endpoint"@ || field == "key"@,
        ' ' <= c <= '~',
    ensures
        ({
            let t = settings_bindings();
            let at = ScopeView::Exact(seq!["settings"@, "_compose_form"@, field]);
            &&& bound_to(t, at, KeyCodeRepr::Char(c), "accounts.compose.insert_char"@)
            &&& bound_to(t, at, KeyCodeRepr::Backspace, "accounts.compose.delete_back"@)
        }),
{
    let at = ScopeView::Exact(seq!["settings"@, "_compose_form"@, field]);
    let g = compose_text_bindings(field);
    lemma_typing(
        compose_field_scope(field),
        "accounts.compose.insert_char"@,
        g[g.len() - 1],
        c,
    );
    lemma_compose_groups(at, KeyCodeRepr::Char(c), "accounts.compose.insert_char"@);
    lemma_compose_groups(at, KeyCodeRepr::Backspace, "accounts.compose.delete_back"@);
}

/// While a model is entered Enter confirms the stage and Escape gives it up, and
/// at every stage each printable character is typed and Backspace deletes.
pub proof fn stages_can_be_typed_into_and_confirmed(stage: Seq<char>, c: char)
    requires
        stage == "id"@ || stage == "ctx"@ || stage == "out"@,
        ' ' <= c <= '~',
    ensures
        ({
            let t = settings_bindings();
            let form = ScopeView::Exact(seq!["settings"@, "_manual_model"@]);
            let at = ScopeView::Exact(seq!["settings"@, "_manual_model"@, stage]);
            &&& bound_to(t, form, KeyCodeRepr::Esc, "models.compose_manual.cancel"@)
            &&& bound_to(t, form, KeyCodeRepr::Enter, "models.compose_manual.commit"@)
            &&& bound_to(t, at, KeyCodeRepr::Char(c), "models.compose_manual.insert_char"@)
            &&& bound_to(t, at, KeyCodeRepr::Backspace, "models.compose_manual.delete_back"@)
        }),
{
    let none = Seq::<BindingView>::empty();
    let form = ScopeView::Exact(seq!["settings"@, "_manual_model"@]);
    let at = ScopeView::Exact(seq!["settings"@, "_manual_model"@, stage]);
    lemma_form(
        seq!["settings"@, "_manual_model"@],
        "models.compose_manual.cancel"@,
        "models.compose_manual.focus_next"@,
        "models.compose_manual.focus_prev"@,
        "models.compose_manual.commit"@,
    );
    let f = form_bindings(
        seq!["settings"@, "_manual_model"@],
        "models.compose_manual.cancel"@,
        "models.compose_manual.focus_next"@,
        "models.compose_manual.focus_prev"@,
        "models.compose_manual.commit"@,
    );
    let (a, b, d) = (stage_bindings("id"@), stage_bindings("ctx"@), stage_bindings("out"@));
    let m = manual_model_bindings();
    let g = stage_bindings(stage);
    lemma_typing(
        seq!["settings"@, "_manual_model"@, stage],
        "models.compose_manual.insert_char"@,
        g[g.len() - 1],
        c,
    );
    let insert = "models.compose_manual.insert_char"@;
    let delete = "models.compose_manual.delete_back"@;
    lemma_wider(none, f, a + b + d, form, KeyCodeRepr::Esc, "models.compose_manual.cancel"@);
    lemma_wider(none, f, a + b + d, form, KeyCodeRepr::Enter, "models.compose_manual.commit"@);
    assert(none + f + (a + b + d) =~= m);
    if stage == "id"@ {
        lemma_wider(f, a, b + d, at, KeyCodeRepr::Char(c), insert);
        lemma_wider(f, a, b + d, at, KeyCodeRepr::Backspace, delete);
        assert(f + a + (b + d) =~= m);
    } else if stage == "ctx"@ {
        lemma_wider(f + a, b, d, at, KeyCodeRepr::Char(c), insert);
        lemma_wider(f + a, b, d, at, KeyCodeRepr::Backspace, delete);
        assert(f + a + b + d =~= m);
    } else {
        lemma_wider(f + a + b, d, none, at, KeyCodeRepr::Char(c), insert);
        lemma_wider(f + a + b, d, none, at, KeyCodeRepr::Backspace, delete);
        assert(f + a + b + d + none =~= m);
    }
    lemma_groups(form, KeyCodeRepr::Esc, "models.compose_manual.cancel"@);
    lemma_groups(form, KeyCodeRepr::Enter, "models.compose_manual.commit"@);
    lemma_groups(at, KeyCodeRepr::Char(c), insert);
    lemma_groups(at, KeyCodeRepr::Backspace, delete);
}

/// Where hints are listed by priority, the key for the shortcuts comes first,
/// then moving, opening, going back and leaving, and behind them what can be
/// done to a connection, from composing to parting it, or to a model, from
/// starting with it to adding one. Keys that do the same in opposite directions
/// rank the same.
pub proof fn hints_are_ranked()
    ensures
        ({
            let g = global_bindings();
            let i = index_bindings();
            let r = row_bindings();
            &&& g[0].priority < i[0].priority < i[1].priority < i[4].priority < i[11].priority
                < i[12].priority
            &&& i[0].priority == i[2].priority && i[1].priority == i[3].priority
            &&& i[12].priority < r[0].priority < r[2].priority < r[1].priority < r[3].priority
                < r[4].priority
            &&& i[12].priority < r[9].priority < r[10].priority < r[11].priority < r[12].priority
            &&& r[4].priority < r[5].priority && r[5].priority == r[6].priority == r[7].priority
                == r[8].priority
            &&& r[4].priority < i[5].priority && i[5].priority == i[6].priority == i[7].priority
                == i[8].priority == i[9].priority == i[10].priority == g[1].priority
        }),
{
}

} // verus!
