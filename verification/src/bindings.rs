//! The keys of the settings screen.

use crate::commands::edit::TextInputHandler;
use crate::keys::{
    bindings_view, cmd, unmodified, BindingScope, BindingView, KeyChord, KeyCodeRepr,
    KeyModifierSet, Phase, ScopeView, ScopedBinding,
};
use crate::ordered::{placed_all, placing_all_keeps_classes};
use crate::path::{path1, path2, path3, path4, Path};
use crate::scopes::{binding_class, HandlerEntry, HandlerView, ScopeRegistry};
use vstd::prelude::*;
use vstd::string::*;

verus! {

/// Shift and nothing else.
pub open spec fn shifted() -> KeyModifierSet {
    KeyModifierSet { ctrl: false, alt: false, shift: true, super_: false }
}

/// Control and nothing else.
pub open spec fn controlled() -> KeyModifierSet {
    KeyModifierSet { ctrl: true, alt: false, shift: false, super_: false }
}

/// No modifier at all.
pub fn no_mods() -> (r: KeyModifierSet)
    ensures
        r == unmodified(),
{
    KeyModifierSet::none()
}

/// Shift and nothing else.
pub fn shift_only() -> (r: KeyModifierSet)
    ensures
        r == shifted(),
{
    KeyModifierSet { ctrl: false, alt: false, shift: true, super_: false }
}

/// Control and nothing else.
pub fn ctrl_only() -> (r: KeyModifierSet)
    ensures
        r == controlled(),
{
    KeyModifierSet { ctrl: true, alt: false, shift: false, super_: false }
}

/// A key bound to a command.
pub open spec fn bound(
    scope: ScopeView,
    modifiers: KeyModifierSet,
    code: KeyCodeRepr,
    command: Seq<char>,
    phase: Phase,
    priority: u8,
) -> BindingView {
    BindingView { scope, key: KeyChord { modifiers, code }, command, phase, priority }
}

/// The priority of bindings that are not meant to stand out.
pub const ORDINARY: u8 = 200;

/// The scope of an optional cursor: exactly there, or anywhere.
pub open spec fn scope_at(cursor: Option<Seq<Seq<char>>>) -> ScopeView {
    match cursor {
        Some(p) => ScopeView::Exact(p),
        None => ScopeView::Anywhere,
    }
}

fn scope_of(cursor: Option<Path>) -> (r: BindingScope)
    ensures
        r@ == scope_at(crate::keys::opt_path(cursor)),
{
    match cursor {
        Some(p) => BindingScope::Exact(p),
        None => BindingScope::Anywhere,
    }
}

fn bind(
    table: &mut Vec<ScopedBinding>,
    scope: BindingScope,
    modifiers: KeyModifierSet,
    code: KeyCodeRepr,
    command_id: &str,
    phase: Phase,
    priority: u8,
)
    ensures
        bindings_view(final(table)@) == bindings_view(old(table)@).push(
            bound(scope@, modifiers, code, command_id@, phase, priority),
        ),
{
    let ghost before = bindings_view(table@);
    let ghost at = scope@;
    table.push(
        ScopedBinding {
            scope,
            key: KeyChord { modifiers, code },
            command_id: cmd(command_id),
            phase,
            priority,
        },
    );
    proof {
        assert(bindings_view(table@) =~= before.push(
            bound(at, modifiers, code, command_id@, phase, priority),
        ));
    }
}

/// Binds a key on the way in.
pub fn bind_capture(
    table: &mut Vec<ScopedBinding>,
    cursor: Option<Path>,
    modifiers: KeyModifierSet,
    code: KeyCodeRepr,
    command_id: &str,
)
    ensures
        bindings_view(final(table)@) == bindings_view(old(table)@).push(
            bound(
                scope_at(crate::keys::opt_path(cursor)),
                modifiers,
                code,
                command_id@,
                Phase::Capture,
                ORDINARY,
            ),
        ),
{
    bind(table, scope_of(cursor), modifiers, code, command_id, Phase::Capture, ORDINARY);
}

/// Binds a key at the focus.
pub fn bind_target(
    table: &mut Vec<ScopedBinding>,
    cursor: Option<Path>,
    modifiers: KeyModifierSet,
    code: KeyCodeRepr,
    command_id: &str,
)
    ensures
        bindings_view(final(table)@) == bindings_view(old(table)@).push(
            bound(
                scope_at(crate::keys::opt_path(cursor)),
                modifiers,
                code,
                command_id@,
                Phase::Target,
                ORDINARY,
            ),
        ),
{
    bind(table, scope_of(cursor), modifiers, code, command_id, Phase::Target, ORDINARY);
}

/// Binds a key on the way out.
pub fn bind_bubble(
    table: &mut Vec<ScopedBinding>,
    cursor: Option<Path>,
    modifiers: KeyModifierSet,
    code: KeyCodeRepr,
    command_id: &str,
)
    ensures
        bindings_view(final(table)@) == bindings_view(old(table)@).push(
            bound(
                scope_at(crate::keys::opt_path(cursor)),
                modifiers,
                code,
                command_id@,
                Phase::Bubble,
                ORDINARY,
            ),
        ),
{
    bind_bubble_with_priority(table, cursor, modifiers, code, command_id, ORDINARY);
}

/// Binds a key on the way out of a subtree.
pub fn bind_prefix_bubble(
    table: &mut Vec<ScopedBinding>,
    prefix: Path,
    modifiers: KeyModifierSet,
    code: KeyCodeRepr,
    command_id: &str,
)
    ensures
        bindings_view(final(table)@) == bindings_view(old(table)@).push(
            bound(
                ScopeView::Prefix(prefix@),
                modifiers,
                code,
                command_id@,
                Phase::Bubble,
                ORDINARY,
            ),
        ),
{
    bind_prefix_bubble_with_priority(table, prefix, modifiers, code, command_id, ORDINARY);
}

/// Binds a key on the way out, at a place in the order hints are shown in.
pub fn bind_bubble_with_priority(
    table: &mut Vec<ScopedBinding>,
    cursor: Option<Path>,
    modifiers: KeyModifierSet,
    code: KeyCodeRepr,
    command_id: &str,
    priority: u8,
)
    ensures
        bindings_view(final(table)@) == bindings_view(old(table)@).push(
            bound(
                scope_at(crate::keys::opt_path(cursor)),
                modifiers,
                code,
                command_id@,
                Phase::Bubble,
                priority,
            ),
        ),
{
    bind(table, scope_of(cursor), modifiers, code, command_id, Phase::Bubble, priority);
}

/// Binds a key on the way out of a subtree, at a place in the order hints are
/// shown in.
pub fn bind_prefix_bubble_with_priority(
    table: &mut Vec<ScopedBinding>,
    prefix: Path,
    modifiers: KeyModifierSet,
    code: KeyCodeRepr,
    command_id: &str,
    priority: u8,
)
    ensures
        bindings_view(final(table)@) == bindings_view(old(table)@).push(
            bound(
                ScopeView::Prefix(prefix@),
                modifiers,
                code,
                command_id@,
                Phase::Bubble,
                priority,
            ),
        ),
{
    bind(
        table,
        BindingScope::Prefix(prefix),
        modifiers,
        code,
        command_id,
        Phase::Bubble,
        priority,
    );
}

/// The `i`th of the printable ASCII characters.
pub open spec fn printable(i: int) -> char {
    (0x20 + i) as char
}

/// Whether `c` is an ASCII capital.
pub open spec fn capital(c: char) -> bool {
    'A' <= c <= 'Z'
}

/// A binding for each printable ASCII character, all to the same command.
/// Capitals come with shift where `with_shift`.
pub open spec fn typing(scope: Seq<Seq<char>>, command: Seq<char>, with_shift: bool) -> Seq<
    BindingView,
> {
    Seq::new(
        95,
        |i: int|
            bound(
                ScopeView::Exact(scope),
                if with_shift && capital(printable(i)) {
                    shifted()
                } else {
                    unmodified()
                },
                KeyCodeRepr::Char(printable(i)),
                command,
                Phase::Target,
                ORDINARY,
            ),
    )
}

fn bind_typing(table: &mut Vec<ScopedBinding>, scope: &Path, command: &str, with_shift: bool)
    ensures
        bindings_view(final(table)@) == bindings_view(old(table)@) + typing(
            scope@,
            command@,
            with_shift,
        ),
{
    let ghost before = bindings_view(table@);
    let ghost wanted = typing(scope@, command@, with_shift);
    let mut byte: u8 = 0x20;
    proof {
        assert(bindings_view(table@) =~= before + wanted.subrange(0, 0));
    }
    while byte < 0x7f
        invariant
            0x20 <= byte <= 0x7f,
            wanted == typing(scope@, command@, with_shift),
            bindings_view(table@) == before + wanted.subrange(0, byte - 0x20),
        decreases 0x7f - byte,
    {
        let ch: char = byte as char;
        let modifiers = if with_shift && 'A' <= ch && ch <= 'Z' {
            shift_only()
        } else {
            no_mods()
        };
        let ghost so_far = bindings_view(table@);
        bind(
            table,
            BindingScope::Exact(scope.copied()),
            modifiers,
            KeyCodeRepr::Char(ch),
            command,
            Phase::Target,
            ORDINARY,
        );
        proof {
            let i = byte - 0x20;
            assert(ch == printable(i));
            assert(bindings_view(table@) =~= so_far.push(wanted[i]));
            assert(bindings_view(table@) =~= before + wanted.subrange(0, i + 1));
        }
        byte += 1;
    }
    proof {
        assert(wanted.subrange(0, 95) =~= wanted);
    }
}

/// The bindings of a field that is typed into.
pub open spec fn text_editing_bindings(cursor: Seq<Seq<char>>) -> Seq<BindingView> {
    typing(cursor, "field.insert"@, false).push(
        bound(
            ScopeView::Exact(cursor),
            unmodified(),
            KeyCodeRepr::Backspace,
            "field.delete_back"@,
            Phase::Target,
            ORDINARY,
        ),
    )
}

/// Binds every printable character and Backspace at a field that is typed into.
pub fn register_text_editing(table: &mut Vec<ScopedBinding>, cursor: Path)
    ensures
        bindings_view(final(table)@) == bindings_view(old(table)@) + text_editing_bindings(
            cursor@,
        ),
{
    let ghost before = bindings_view(table@);
    let ghost at = cursor@;
    bind_typing(table, &cursor, "field.insert", false);
    bind_target(table, Some(cursor), no_mods(), KeyCodeRepr::Backspace, "field.delete_back");
    proof {
        assert(bindings_view(table@) =~= before + text_editing_bindings(at));
    }
}

/// A binding of the whole page.
pub open spec fn on_page(code: KeyCodeRepr, command: Seq<char>, priority: u8) -> BindingView {
    bound(
        ScopeView::Exact(seq!["settings"@]),
        unmodified(),
        code,
        command,
        Phase::Bubble,
        priority,
    )
}

/// The bindings of the page: moving, opening, going back and leaving.
pub open spec fn index_bindings() -> Seq<BindingView> {
    seq![
        on_page(KeyCodeRepr::Char('j'), "tree.next"@, 10),
        on_page(KeyCodeRepr::Down, "tree.next"@, 11),
        on_page(KeyCodeRepr::Char('k'), "tree.prev"@, 10),
        on_page(KeyCodeRepr::Up, "tree.prev"@, 11),
        on_page(KeyCodeRepr::Enter, "tree.activate"@, 15),
        on_page(KeyCodeRepr::Char('e'), "tree.activate"@, ORDINARY),
        on_page(KeyCodeRepr::Char('o'), "tree.activate"@, ORDINARY),
        on_page(KeyCodeRepr::Char('i'), "tree.activate"@, ORDINARY),
        bound(
            ScopeView::Exact(seq!["settings"@]),
            shifted(),
            KeyCodeRepr::Char('G'),
            "tree.last"@,
            Phase::Bubble,
            ORDINARY,
        ),
        on_page(KeyCodeRepr::End, "tree.last"@, ORDINARY),
        on_page(KeyCodeRepr::Home, "tree.first"@, ORDINARY),
        on_page(KeyCodeRepr::Esc, "tree.collapse_or_ascend"@, 20),
        bound(
            ScopeView::Prefix(seq!["settings"@]),
            unmodified(),
            KeyCodeRepr::Char('q'),
            "nav.exit_screen"@,
            Phase::Bubble,
            25,
        ),
    ]
}

fn bind_page(table: &mut Vec<ScopedBinding>, code: KeyCodeRepr, command: &str, priority: u8)
    ensures
        bindings_view(final(table)@) == bindings_view(old(table)@).push(
            on_page(code, command@, priority),
        ),
{
    bind_bubble_with_priority(
        table,
        Some(path1("settings")),
        no_mods(),
        code,
        command,
        priority,
    );
}

/// Binds the keys of the page.
pub fn register_index(table: &mut Vec<ScopedBinding>)
    ensures
        bindings_view(final(table)@) == bindings_view(old(table)@) + index_bindings(),
{
    let ghost before = bindings_view(table@);
    bind_page(table, KeyCodeRepr::Char('j'), "tree.next", 10);
    bind_page(table, KeyCodeRepr::Down, "tree.next", 11);
    bind_page(table, KeyCodeRepr::Char('k'), "tree.prev", 10);
    bind_page(table, KeyCodeRepr::Up, "tree.prev", 11);
    bind_page(table, KeyCodeRepr::Enter, "tree.activate", 15);
    bind_page(table, KeyCodeRepr::Char('e'), "tree.activate", ORDINARY);
    bind_page(table, KeyCodeRepr::Char('o'), "tree.activate", ORDINARY);
    bind_page(table, KeyCodeRepr::Char('i'), "tree.activate", ORDINARY);
    bind_bubble(
        table,
        Some(path1("settings")),
        shift_only(),
        KeyCodeRepr::Char('G'),
        "tree.last",
    );
    bind_page(table, KeyCodeRepr::End, "tree.last", ORDINARY);
    bind_page(table, KeyCodeRepr::Home, "tree.first", ORDINARY);
    bind_page(table, KeyCodeRepr::Esc, "tree.collapse_or_ascend", 20);
    bind_prefix_bubble_with_priority(
        table,
        path1("settings"),
        no_mods(),
        KeyCodeRepr::Char('q'),
        "nav.exit_screen",
        25,
    );
    proof {
        assert(bindings_view(table@) =~= before + index_bindings());
    }
}

/// A binding of a subtree of the page.
pub open spec fn on_rows(
    section: Seq<char>,
    modifiers: KeyModifierSet,
    code: KeyCodeRepr,
    command: Seq<char>,
    priority: u8,
) -> BindingView {
    bound(
        ScopeView::Prefix(seq!["settings"@, section]),
        modifiers,
        code,
        command,
        Phase::Bubble,
        priority,
    )
}

/// The bindings of the connections' and of the models' rows.
pub open spec fn row_bindings() -> Seq<BindingView> {
    let none = unmodified();
    seq![
        on_rows("accounts"@, none, KeyCodeRepr::Char('a'), "accounts.compose.open"@, 30),
        on_rows("accounts"@, none, KeyCodeRepr::Char('t'), "account.test"@, 40),
        on_rows("accounts"@, none, KeyCodeRepr::Char('r'), "account.refresh"@, 35),
        on_rows("accounts"@, none, KeyCodeRepr::Char('d'), "accounts.delete_confirm"@, 50),
        on_rows("accounts"@, none, KeyCodeRepr::Char('f'), "accounts.fork_provider"@, 60),
        on_rows("accounts"@, none, KeyCodeRepr::Char('h'), "cycle.field.prev"@, ORDINARY),
        on_rows("accounts"@, none, KeyCodeRepr::Left, "cycle.field.prev"@, ORDINARY),
        on_rows("accounts"@, none, KeyCodeRepr::Char('l'), "cycle.field.next"@, ORDINARY),
        on_rows("accounts"@, none, KeyCodeRepr::Right, "cycle.field.next"@, ORDINARY),
        on_rows("models"@, shifted(), KeyCodeRepr::Char('P'), "models.set_bootstrap"@, 30),
        on_rows("models"@, none, KeyCodeRepr::Char('r'), "account.refresh"@, 35),
        on_rows("models"@, none, KeyCodeRepr::Char('d'), "models.toggle_default"@, 40),
        on_rows("models"@, none, KeyCodeRepr::Char('m'), "models.add_manual"@, 45),
    ]
}

fn bind_rows(
    table: &mut Vec<ScopedBinding>,
    section: &str,
    modifiers: KeyModifierSet,
    code: KeyCodeRepr,
    command: &str,
    priority: u8,
)
    ensures
        bindings_view(final(table)@) == bindings_view(old(table)@).push(
            on_rows(section@, modifiers, code, command@, priority),
        ),
{
    bind_prefix_bubble_with_priority(
        table,
        path2("settings", section),
        modifiers,
        code,
        command,
        priority,
    );
}

/// Binds the keys of the connections' and of the models' rows.
pub fn register_row_prefixes(table: &mut Vec<ScopedBinding>)
    ensures
        bindings_view(final(table)@) == bindings_view(old(table)@) + row_bindings(),
{
    let ghost before = bindings_view(table@);
    let none = no_mods();
    bind_rows(table, "accounts", none, KeyCodeRepr::Char('a'), "accounts.compose.open", 30);
    bind_rows(table, "accounts", none, KeyCodeRepr::Char('t'), "account.test", 40);
    bind_rows(table, "accounts", none, KeyCodeRepr::Char('r'), "account.refresh", 35);
    bind_rows(table, "accounts", none, KeyCodeRepr::Char('d'), "accounts.delete_confirm", 50);
    bind_rows(table, "accounts", none, KeyCodeRepr::Char('f'), "accounts.fork_provider", 60);
    bind_rows(table, "accounts", none, KeyCodeRepr::Char('h'), "cycle.field.prev", ORDINARY);
    bind_rows(table, "accounts", none, KeyCodeRepr::Left, "cycle.field.prev", ORDINARY);
    bind_rows(table, "accounts", none, KeyCodeRepr::Char('l'), "cycle.field.next", ORDINARY);
    bind_rows(table, "accounts", none, KeyCodeRepr::Right, "cycle.field.next", ORDINARY);
    bind_rows(
        table,
        "models",
        shift_only(),
        KeyCodeRepr::Char('P'),
        "models.set_bootstrap",
        30,
    );
    bind_rows(table, "models", none, KeyCodeRepr::Char('r'), "account.refresh", 35);
    bind_rows(table, "models", none, KeyCodeRepr::Char('d'), "models.toggle_default", 40);
    bind_rows(table, "models", none, KeyCodeRepr::Char('m'), "models.add_manual", 45);
    proof {
        assert(bindings_view(table@) =~= before + row_bindings());
    }
}

/// A binding at a widget of its own.
pub open spec fn on_widget(
    scope: Seq<Seq<char>>,
    modifiers: KeyModifierSet,
    code: KeyCodeRepr,
    command: Seq<char>,
    phase: Phase,
) -> BindingView {
    bound(ScopeView::Exact(scope), modifiers, code, command, phase, ORDINARY)
}

/// Where a field is edited.
pub open spec fn edit_scope() -> Seq<Seq<char>> {
    seq!["settings"@, "_edit"@]
}

/// The bindings while a field is edited. What is typed goes to a handler.
pub open spec fn edit_bindings() -> Seq<BindingView> {
    let at = edit_scope();
    seq![
        on_widget(at, unmodified(), KeyCodeRepr::Backspace, "edit.delete_back"@, Phase::Target),
        on_widget(at, unmodified(), KeyCodeRepr::Enter, "edit.commit"@, Phase::Bubble),
        on_widget(at, unmodified(), KeyCodeRepr::Esc, "edit.cancel"@, Phase::Capture),
    ]
}

/// The handler that takes what is typed while a field is edited.
pub open spec fn edit_handler() -> HandlerView {
    HandlerView {
        scope: ScopeView::Exact(edit_scope()),
        phase: Phase::Target,
        buffer: seq!["ui"@, "settings"@, "edit"@, "buffer"@],
        target: seq!["ui"@, "settings"@, "edit"@, "target_path"@],
    }
}

/// Binds the keys used while a field is edited.
pub fn register_edit_mode(table: &mut Vec<ScopedBinding>)
    ensures
        bindings_view(final(table)@) == bindings_view(old(table)@) + edit_bindings(),
{
    let ghost before = bindings_view(table@);
    bind_target(
        table,
        Some(path2("settings", "_edit")),
        no_mods(),
        KeyCodeRepr::Backspace,
        "edit.delete_back",
    );
    bind_bubble(
        table,
        Some(path2("settings", "_edit")),
        no_mods(),
        KeyCodeRepr::Enter,
        "edit.commit",
    );
    bind_capture(
        table,
        Some(path2("settings", "_edit")),
        no_mods(),
        KeyCodeRepr::Esc,
        "edit.cancel",
    );
    proof {
        assert(bindings_view(table@) =~= before + edit_bindings());
    }
}

/// Registers the handler that takes what is typed while a field is edited.
pub fn register_edit_handler(reg: &mut ScopeRegistry)
    ensures
        final(reg)@.handlers == old(reg)@.handlers.push(edit_handler()),
        final(reg)@.entries == old(reg)@.entries,
{
    reg.register_handler(
        HandlerEntry {
            scope: BindingScope::Exact(path2("settings", "_edit")),
            phase: Phase::Target,
            handler: TextInputHandler::new(
                path4("ui", "settings", "edit", "buffer"),
                path4("ui", "settings", "edit", "target_path"),
            ),
        },
    );
}

/// The bindings of a form that the focus moves through: Escape, the next and
/// previous field, and Enter.
pub open spec fn form_bindings(
    at: Seq<Seq<char>>,
    cancel: Seq<char>,
    next: Seq<char>,
    prev: Seq<char>,
    commit: Seq<char>,
) -> Seq<BindingView> {
    seq![
        on_widget(at, unmodified(), KeyCodeRepr::Esc, cancel, Phase::Capture),
        on_widget(at, unmodified(), KeyCodeRepr::Tab, next, Phase::Capture),
        on_widget(at, unmodified(), KeyCodeRepr::Down, next, Phase::Capture),
        on_widget(at, shifted(), KeyCodeRepr::BackTab, prev, Phase::Capture),
        on_widget(at, unmodified(), KeyCodeRepr::Up, prev, Phase::Capture),
        on_widget(at, unmodified(), KeyCodeRepr::Enter, commit, Phase::Bubble),
    ]
}

fn bind_form(
    table: &mut Vec<ScopedBinding>,
    at: &Path,
    cancel: &str,
    next: &str,
    prev: &str,
    commit: &str,
)
    ensures
        bindings_view(final(table)@) == bindings_view(old(table)@) + form_bindings(
            at@,
            cancel@,
            next@,
            prev@,
            commit@,
        ),
{
    let ghost before = bindings_view(table@);
    bind_capture(table, Some(at.copied()), no_mods(), KeyCodeRepr::Esc, cancel);
    bind_capture(table, Some(at.copied()), no_mods(), KeyCodeRepr::Tab, next);
    bind_capture(table, Some(at.copied()), no_mods(), KeyCodeRepr::Down, next);
    bind_capture(table, Some(at.copied()), shift_only(), KeyCodeRepr::BackTab, prev);
    bind_capture(table, Some(at.copied()), no_mods(), KeyCodeRepr::Up, prev);
    bind_bubble(table, Some(at.copied()), no_mods(), KeyCodeRepr::Enter, commit);
    proof {
        assert(bindings_view(table@) =~= before + form_bindings(
            at@,
            cancel@,
            next@,
            prev@,
            commit@,
        ));
    }
}

/// The bindings of the form for a new connection.
pub open spec fn compose_form_bindings() -> Seq<BindingView> {
    form_bindings(
        seq!["settings"@, "_compose_form"@],
        "accounts.compose.cancel"@,
        "accounts.compose.focus_next"@,
        "accounts.compose.focus_prev"@,
        "accounts.compose.commit"@,
    )
}

/// Binds the keys of the form for a new connection.
pub fn register_compose_form(table: &mut Vec<ScopedBinding>)
    ensures
        bindings_view(final(table)@) == bindings_view(old(table)@) + compose_form_bindings(),
{
    bind_form(
        table,
        &path2("settings", "_compose_form"),
        "accounts.compose.cancel",
        "accounts.compose.focus_next",
        "accounts.compose.focus_prev",
        "accounts.compose.commit",
    );
}

/// Where a field of the form for a new connection takes the focus.
pub open spec fn compose_field_scope(field: Seq<char>) -> Seq<Seq<char>> {
    seq!["settings"@, "_compose_form"@, field]
}

/// The bindings of a text field of that form.
pub open spec fn compose_text_bindings(field: Seq<char>) -> Seq<BindingView> {
    typing(compose_field_scope(field), "accounts.compose.insert_char"@, true).push(
        on_widget(
            compose_field_scope(field),
            unmodified(),
            KeyCodeRepr::Backspace,
            "accounts.compose.delete_back"@,
            Phase::Target,
        ),
    )
}

/// The bindings of a selector of that form.
pub open spec fn compose_selector_bindings(field: Seq<char>) -> Seq<BindingView> {
    let at = compose_field_scope(field);
    let none = unmodified();
    seq![
        on_widget(
            at,
            none,
            KeyCodeRepr::Char('h'),
            "accounts.compose.cycle_back"@,
            Phase::Target,
        ),
        on_widget(at, none, KeyCodeRepr::Left, "accounts.compose.cycle_back"@, Phase::Target),
        on_widget(
            at,
            none,
            KeyCodeRepr::Char('l'),
            "accounts.compose.cycle_forward"@,
            Phase::Target,
        ),
        on_widget(at, none, KeyCodeRepr::Right, "accounts.compose.cycle_forward"@, Phase::Target),
    ]
}

/// Binds the keys of a text field of the form for a new connection.
pub fn register_compose_text_field(table: &mut Vec<ScopedBinding>, field: &str)
    ensures
        bindings_view(final(table)@) == bindings_view(old(table)@) + compose_text_bindings(field@),
{
    let ghost before = bindings_view(table@);
    let scope = path3("settings", "_compose_form", field);
    bind_typing(table, &scope, "accounts.compose.insert_char", true);
    bind_target(
        table,
        Some(scope),
        no_mods(),
        KeyCodeRepr::Backspace,
        "accounts.compose.delete_back",
    );
    proof {
        assert(bindings_view(table@) =~= before + compose_text_bindings(field@));
    }
}

/// Binds the keys of a selector of the form for a new connection.
pub fn register_compose_selector_field(table: &mut Vec<ScopedBinding>, field: &str)
    ensures
        bindings_view(final(table)@) == bindings_view(old(table)@) + compose_selector_bindings(
            field@,
        ),
{
    let ghost before = bindings_view(table@);
    bind_target(
        table,
        Some(path3("settings", "_compose_form", field)),
        no_mods(),
        KeyCodeRepr::Char('h'),
        "accounts.compose.cycle_back",
    );
    bind_target(
        table,
        Some(path3("settings", "_compose_form", field)),
        no_mods(),
        KeyCodeRepr::Left,
        "accounts.compose.cycle_back",
    );
    bind_target(
        table,
        Some(path3("settings", "_compose_form", field)),
        no_mods(),
        KeyCodeRepr::Char('l'),
        "accounts.compose.cycle_forward",
    );
    bind_target(
        table,
        Some(path3("settings", "_compose_form", field)),
        no_mods(),
        KeyCodeRepr::Right,
        "accounts.compose.cycle_forward",
    );
    proof {
        assert(bindings_view(table@) =~= before + compose_selector_bindings(field@));
    }
}

/// The bindings for composing a new connection.
pub open spec fn compose_bindings() -> Seq<BindingView> {
    compose_form_bindings() + compose_text_bindings("name"@) + compose_text_bindings("endpoint"@)
        + compose_text_bindings("key"@) + compose_selector_bindings("protocol"@)
        + compose_selector_bindings("auth"@)
}

/// Binds the keys for composing a new connection.
pub fn register_compose_new_account(table: &mut Vec<ScopedBinding>)
    ensures
        bindings_view(final(table)@) == bindings_view(old(table)@) + compose_bindings(),
{
    let ghost before = bindings_view(table@);
    register_compose_form(table);
    register_compose_text_field(table, "name");
    register_compose_text_field(table, "endpoint");
    register_compose_text_field(table, "key");
    register_compose_selector_field(table, "protocol");
    register_compose_selector_field(table, "auth");
    proof {
        assert(bindings_view(table@) =~= before + compose_bindings());
    }
}

/// The bindings of one stage of entering a model.
pub open spec fn stage_bindings(stage: Seq<char>) -> Seq<BindingView> {
    let at = seq!["settings"@, "_manual_model"@, stage];
    typing(at, "models.compose_manual.insert_char"@, true).push(
        on_widget(
            at,
            unmodified(),
            KeyCodeRepr::Backspace,
            "models.compose_manual.delete_back"@,
            Phase::Target,
        ),
    )
}

/// The bindings for entering a model.
pub open spec fn manual_model_bindings() -> Seq<BindingView> {
    form_bindings(
        seq!["settings"@, "_manual_model"@],
        "models.compose_manual.cancel"@,
        "models.compose_manual.focus_next"@,
        "models.compose_manual.focus_prev"@,
        "models.compose_manual.commit"@,
    ) + stage_bindings("id"@) + stage_bindings("ctx"@) + stage_bindings("out"@)
}

fn register_stage(table: &mut Vec<ScopedBinding>, stage: &str)
    ensures
        bindings_view(final(table)@) == bindings_view(old(table)@) + stage_bindings(stage@),
{
    let ghost before = bindings_view(table@);
    let scope = path3("settings", "_manual_model", stage);
    bind_typing(table, &scope, "models.compose_manual.insert_char", true);
    bind_target(
        table,
        Some(scope),
        no_mods(),
        KeyCodeRepr::Backspace,
        "models.compose_manual.delete_back",
    );
    proof {
        assert(bindings_view(table@) =~= before + stage_bindings(stage@));
    }
}

/// Binds the keys for entering a model.
pub fn register_manual_model(table: &mut Vec<ScopedBinding>)
    ensures
        bindings_view(final(table)@) == bindings_view(old(table)@) + manual_model_bindings(),
{
    let ghost before = bindings_view(table@);
    bind_form(
        table,
        &path2("settings", "_manual_model"),
        "models.compose_manual.cancel",
        "models.compose_manual.focus_next",
        "models.compose_manual.focus_prev",
        "models.compose_manual.commit",
    );
    register_stage(table, "id");
    register_stage(table, "ctx");
    register_stage(table, "out");
    proof {
        assert(bindings_view(table@) =~= before + manual_model_bindings());
    }
}

/// The bindings of the question about a deletion.
pub open spec fn pending_delete_bindings() -> Seq<BindingView> {
    let at = seq!["settings"@, "_confirm_delete"@];
    let none = unmodified();
    seq![
        on_widget(at, none, KeyCodeRepr::Char('y'), "accounts.confirm.delete"@, Phase::Target),
        on_widget(at, none, KeyCodeRepr::Char('n'), "accounts.confirm.cancel"@, Phase::Target),
        on_widget(at, none, KeyCodeRepr::Esc, "accounts.confirm.cancel"@, Phase::Capture),
    ]
}

/// Binds the keys of the question about a deletion.
pub fn register_pending_delete(table: &mut Vec<ScopedBinding>)
    ensures
        bindings_view(final(table)@) == bindings_view(old(table)@) + pending_delete_bindings(),
{
    let ghost before = bindings_view(table@);
    bind_target(
        table,
        Some(path2("settings", "_confirm_delete")),
        no_mods(),
        KeyCodeRepr::Char('y'),
        "accounts.confirm.delete",
    );
    bind_target(
        table,
        Some(path2("settings", "_confirm_delete")),
        no_mods(),
        KeyCodeRepr::Char('n'),
        "accounts.confirm.cancel",
    );
    bind_capture(
        table,
        Some(path2("settings", "_confirm_delete")),
        no_mods(),
        KeyCodeRepr::Esc,
        "accounts.confirm.cancel",
    );
    proof {
        assert(bindings_view(table@) =~= before + pending_delete_bindings());
    }
}

/// The bindings of the whole screen.
pub open spec fn global_bindings() -> Seq<BindingView> {
    seq![
        bound(
            ScopeView::Anywhere,
            unmodified(),
            KeyCodeRepr::Char('?'),
            "modal.toggle_shortcuts"@,
            Phase::Bubble,
            5,
        ),
        bound(
            ScopeView::Anywhere,
            controlled(),
            KeyCodeRepr::Char('s'),
            "app.save"@,
            Phase::Bubble,
            ORDINARY,
        ),
    ]
}

/// Binds the keys of the whole screen.
pub fn register_global(table: &mut Vec<ScopedBinding>)
    ensures
        bindings_view(final(table)@) == bindings_view(old(table)@) + global_bindings(),
{
    let ghost before = bindings_view(table@);
    bind_bubble_with_priority(
        table,
        None,
        no_mods(),
        KeyCodeRepr::Char('?'),
        "modal.toggle_shortcuts",
        5,
    );
    bind_bubble(table, None, ctrl_only(), KeyCodeRepr::Char('s'), "app.save");
    proof {
        assert(bindings_view(table@) =~= before + global_bindings());
    }
}

/// All bindings of the settings screen, in the order they are registered in.
pub open spec fn settings_bindings() -> Seq<BindingView> {
    global_bindings() + edit_bindings() + compose_bindings() + manual_model_bindings()
        + pending_delete_bindings() + index_bindings() + row_bindings()
}

/// Registers the keys of the settings screen.
pub fn register(reg: &mut ScopeRegistry)
    ensures
        final(reg)@.entries == placed_all(
            old(reg)@.entries,
            binding_class(),
            settings_bindings(),
        ),
        final(reg)@.handlers == old(reg)@.handlers.push(edit_handler()),
{
    let mut table: Vec<ScopedBinding> = Vec::new();
    proof {
        assert(bindings_view(table@) =~= Seq::<BindingView>::empty());
    }
    register_global(&mut table);
    register_edit_mode(&mut table);
    register_compose_new_account(&mut table);
    register_manual_model(&mut table);
    register_pending_delete(&mut table);
    register_index(&mut table);
    register_row_prefixes(&mut table);
    proof {
        assert(bindings_view(table@) =~= settings_bindings());
    }
    reg.register_each(&table);
    register_edit_handler(reg);
}

/// Whether a scope is that of a widget of its own: its second component starts
/// with an underscore.
pub open spec fn widget_scope(p: Seq<Seq<char>>) -> bool {
    p.len() >= 2 && p[0] == "settings"@ && p[1].len() > 0 && p[1][0] == '_'
}

/// Whether a scope is that of a widget with parts that take the focus.
pub open spec fn container_scope(p: Seq<Seq<char>>) -> bool {
    p == seq!["settings"@, "_compose_form"@] || p == seq!["settings"@, "_manual_model"@]
}

/// Whether a scope is that of a part of a widget, or of a widget without parts.
pub open spec fn leaf_scope(p: Seq<Seq<char>>) -> bool {
    ||| p == seq!["settings"@, "_edit"@]
    ||| p == seq!["settings"@, "_confirm_delete"@]
    ||| p.len() == 3 && p[0] == "settings"@ && (p[1] == "_compose_form"@ || p[1]
        == "_manual_model"@)
}

/// Whether a key opens, closes or moves through a widget.
pub open spec fn lifecycle_key(code: KeyCodeRepr) -> bool {
    code is Esc || code is Enter || code is Tab || code is BackTab || code is Up || code is Down
}

/// What holds of every binding of the settings screen: a widget takes Escape
/// before its parts do, leaves Enter to them first, keeps the other keys for
/// whatever has the focus, and what is bound everywhere comes last.
pub open spec fn well_phased(b: BindingView) -> bool {
    &&& b.scope is Exact && widget_scope(b.scope->Exact_0) && b.key.code is Esc ==> b.phase
        == Phase::Capture
    &&& b.scope is Exact && container_scope(b.scope->Exact_0) && b.key.code is Enter ==> b.phase
        == Phase::Bubble
    &&& b.scope is Exact && leaf_scope(b.scope->Exact_0) && !lifecycle_key(b.key.code) ==> b.phase
        == Phase::Target
    &&& b.scope is Anywhere ==> b.phase == Phase::Bubble
}

spec fn all_well_phased(s: Seq<BindingView>) -> bool {
    forall|i: int| 0 <= i < s.len() ==> well_phased(#[trigger] s[i])
}

proof fn lemma_form_well_phased(
    at: Seq<Seq<char>>,
    cancel: Seq<char>,
    next: Seq<char>,
    prev: Seq<char>,
    commit: Seq<char>,
)
    ensures
        all_well_phased(form_bindings(at, cancel, next, prev, commit)),
{
}

proof fn lemma_page_well_phased()
    ensures
        all_well_phased(index_bindings()),
        all_well_phased(row_bindings()),
        all_well_phased(global_bindings()),
        all_well_phased(edit_bindings()),
        all_well_phased(pending_delete_bindings()),
{
    let page = seq!["settings"@];
    assert(page.len() == 1);
    assert(!widget_scope(page));
    assert(!container_scope(page)) by {
        assert(seq!["settings"@, "_compose_form"@].len() == 2);
        assert(seq!["settings"@, "_manual_model"@].len() == 2);
    }
    assert(!leaf_scope(page)) by {
        assert(seq!["settings"@, "_edit"@].len() == 2);
        assert(seq!["settings"@, "_confirm_delete"@].len() == 2);
    }
    let s = index_bindings();
    assert forall|i: int| 0 <= i < s.len() implies well_phased(#[trigger] s[i]) by {
        assert(i == 0 || i == 1 || i == 2 || i == 3 || i == 4 || i == 5 || i == 6 || i == 7 || i
            == 8 || i == 9 || i == 10 || i == 11 || i == 12);
    }
}

proof fn lemma_typing_well_phased(scope: Seq<Seq<char>>, command: Seq<char>, last: BindingView)
    requires
        well_phased(last),
    ensures
        all_well_phased(typing(scope, command, true).push(last)),
{
    let s = typing(scope, command, true).push(last);
    assert forall|i: int| 0 <= i < s.len() implies well_phased(#[trigger] s[i]) by {
        if i < 95 {
            assert(s[i] == typing(scope, command, true)[i]);
        }
    }
}

proof fn lemma_table_well_phased()
    ensures
        all_well_phased(settings_bindings()),
{
    lemma_page_well_phased();
    lemma_form_well_phased(
        seq!["settings"@, "_compose_form"@],
        "accounts.compose.cancel"@,
        "accounts.compose.focus_next"@,
        "accounts.compose.focus_prev"@,
        "accounts.compose.commit"@,
    );
    lemma_form_well_phased(
        seq!["settings"@, "_manual_model"@],
        "models.compose_manual.cancel"@,
        "models.compose_manual.focus_next"@,
        "models.compose_manual.focus_prev"@,
        "models.compose_manual.commit"@,
    );
    lemma_text_field_well_phased("name"@);
    lemma_text_field_well_phased("endpoint"@);
    lemma_text_field_well_phased("key"@);
    lemma_stage_well_phased("id"@);
    lemma_stage_well_phased("ctx"@);
    lemma_stage_well_phased("out"@);
    assert(all_well_phased(compose_selector_bindings("protocol"@)));
    assert(all_well_phased(compose_selector_bindings("auth"@)));
}

proof fn lemma_text_field_well_phased(field: Seq<char>)
    ensures
        all_well_phased(compose_text_bindings(field)),
{
    lemma_typing_well_phased(
        compose_field_scope(field),
        "accounts.compose.insert_char"@,
        on_widget(
            compose_field_scope(field),
            unmodified(),
            KeyCodeRepr::Backspace,
            "accounts.compose.delete_back"@,
            Phase::Target,
        ),
    );
}

proof fn lemma_stage_well_phased(stage: Seq<char>)
    ensures
        all_well_phased(stage_bindings(stage)),
{
    let at = seq!["settings"@, "_manual_model"@, stage];
    lemma_typing_well_phased(
        at,
        "models.compose_manual.insert_char"@,
        on_widget(
            at,
            unmodified(),
            KeyCodeRepr::Backspace,
            "models.compose_manual.delete_back"@,
            Phase::Target,
        ),
    );
}

/// Every binding in a registry that holds the keys of the settings screen and
/// nothing else is asked in the right phase.
pub proof fn settings_bindings_are_well_phased(b: BindingView)
    requires
        placed_all(Seq::<BindingView>::empty(), binding_class(), settings_bindings()).contains(b),
    ensures
        well_phased(b),
{
    placing_all_keeps_classes(
        Seq::<BindingView>::empty(),
        binding_class(),
        settings_bindings(),
    );
    lemma_table_well_phased();
    let t = settings_bindings();
    assert(t.contains(b));
    let i = choose|i: int| 0 <= i < t.len() && t[i] == b;
    assert(well_phased(t[i]));
}

/// The bindings at exactly one scope.
pub open spec fn at_scope(s: Seq<BindingView>, scope: Seq<Seq<char>>) -> Seq<BindingView>
    decreases s.len(),
{
    if s.len() == 0 {
        Seq::empty()
    } else if s.last().scope == ScopeView::Exact(scope) {
        at_scope(s.drop_last(), scope).push(s.last())
    } else {
        at_scope(s.drop_last(), scope)
    }
}

proof fn lemma_at_scope_of_both(a: Seq<BindingView>, b: Seq<BindingView>, scope: Seq<Seq<char>>)
    ensures
        at_scope(a + b, scope) == at_scope(a, scope) + at_scope(b, scope),
    decreases b.len(),
{
    if b.len() == 0 {
        assert(a + b =~= a);
        assert(at_scope(a, scope) + Seq::<BindingView>::empty() =~= at_scope(a, scope));
    } else {
        assert((a + b).drop_last() =~= a + b.drop_last());
        assert((a + b).last() == b.last());
        lemma_at_scope_of_both(a, b.drop_last(), scope);
        assert(at_scope(a + b, scope) =~= at_scope(a, scope) + at_scope(b, scope));
    }
}

proof fn lemma_nothing_at_scope(s: Seq<BindingView>, scope: Seq<Seq<char>>)
    requires
        forall|i: int|
            0 <= i < s.len() ==> (#[trigger] s[i]).scope != ScopeView::Exact(scope),
    ensures
        at_scope(s, scope) == Seq::<BindingView>::empty(),
    decreases s.len(),
{
    if s.len() > 0 {
        let t = s.drop_last();
        assert forall|i: int| 0 <= i < t.len() implies (#[trigger] t[i]).scope
            != ScopeView::Exact(scope) by {
            assert(t[i] == s[i]);
        }
        assert(s[s.len() - 1].scope != ScopeView::Exact(scope));
        lemma_nothing_at_scope(t, scope);
    }
}

proof fn lemma_everything_at_scope(s: Seq<BindingView>, scope: Seq<Seq<char>>)
    requires
        forall|i: int|
            0 <= i < s.len() ==> (#[trigger] s[i]).scope == ScopeView::Exact(scope),
    ensures
        at_scope(s, scope) == s,
    decreases s.len(),
{
    if s.len() > 0 {
        let t = s.drop_last();
        assert forall|i: int| 0 <= i < t.len() implies (#[trigger] t[i]).scope
            == ScopeView::Exact(scope) by {
            assert(t[i] == s[i]);
        }
        assert(s[s.len() - 1].scope == ScopeView::Exact(scope));
        lemma_everything_at_scope(t, scope);
        assert(t.push(s.last()) =~= s);
    }
}

proof fn lemma_edit_scope_is_its_own()
    ensures
        edit_scope() != seq!["settings"@],
        edit_scope() != seq!["settings"@, "_compose_form"@],
        edit_scope() != seq!["settings"@, "_manual_model"@],
        edit_scope() != seq!["settings"@, "_confirm_delete"@],
        forall|field: Seq<char>| edit_scope() != #[trigger] compose_field_scope(field),
        forall|stage: Seq<char>|
            edit_scope() != #[trigger] seq!["settings"@, "_manual_model"@, stage],
{
    reveal_strlit("_edit");
    reveal_strlit("_compose_form");
    reveal_strlit("_manual_model");
    reveal_strlit("_confirm_delete");
    let e = edit_scope();
    assert(e.len() == 2 && e[1] == "_edit"@);
    assert("_edit"@.len() == 5);
    assert("_compose_form"@.len() == 13);
    assert("_manual_model"@.len() == 13);
    assert("_confirm_delete"@.len() == 15);
    assert(seq!["settings"@].len() == 1);
    assert(seq!["settings"@, "_compose_form"@][1] == "_compose_form"@);
    assert(seq!["settings"@, "_manual_model"@][1] == "_manual_model"@);
    assert(seq!["settings"@, "_confirm_delete"@][1] == "_confirm_delete"@);
    assert forall|field: Seq<char>| e != #[trigger] compose_field_scope(field) by {
        assert(compose_field_scope(field).len() == 3);
    }
    assert forall|stage: Seq<char>|
        e != #[trigger] seq!["settings"@, "_manual_model"@, stage] by {
        assert(seq!["settings"@, "_manual_model"@, stage].len() == 3);
    }
}

/// While a field is edited only Backspace, Enter and Escape are bound at its
/// scope; what is typed goes to the one handler.
pub proof fn edit_scope_binds_three_keys()
    ensures
        at_scope(settings_bindings(), edit_scope()) == edit_bindings(),
        edit_bindings().len() == 3,
{
    let e = edit_scope();
    lemma_edit_scope_is_its_own();
    lemma_nothing_at_scope(global_bindings(), e);
    lemma_everything_at_scope(edit_bindings(), e);
    let c1 = compose_form_bindings();
    let c2 = compose_text_bindings("name"@);
    let c3 = compose_text_bindings("endpoint"@);
    let c4 = compose_text_bindings("key"@);
    let c5 = compose_selector_bindings("protocol"@);
    let c6 = compose_selector_bindings("auth"@);
    lemma_nothing_at_scope(c1, e);
    lemma_nothing_at_scope(c2, e);
    lemma_nothing_at_scope(c3, e);
    lemma_nothing_at_scope(c4, e);
    lemma_nothing_at_scope(c5, e);
    lemma_nothing_at_scope(c6, e);
    let c = compose_bindings();
    assert forall|i: int| 0 <= i < c.len() implies (#[trigger] c[i]).scope != ScopeView::Exact(
        e,
    ) by {}
    lemma_nothing_at_scope(c, e);
    let m = manual_model_bindings();
    assert forall|i: int| 0 <= i < m.len() implies (#[trigger] m[i]).scope != ScopeView::Exact(
        e,
    ) by {}
    lemma_nothing_at_scope(m, e);
    lemma_nothing_at_scope(pending_delete_bindings(), e);
    lemma_nothing_at_scope(index_bindings(), e);
    lemma_nothing_at_scope(row_bindings(), e);
    let g = global_bindings();
    let d = edit_bindings();
    let p = pending_delete_bindings();
    let x = index_bindings();
    let r = row_bindings();
    lemma_at_scope_of_both(g, d, e);
    lemma_at_scope_of_both(g + d, c, e);
    lemma_at_scope_of_both(g + d + c, m, e);
    lemma_at_scope_of_both(g + d + c + m, p, e);
    lemma_at_scope_of_both(g + d + c + m + p, x, e);
    lemma_at_scope_of_both(g + d + c + m + p + x, r, e);
    assert(at_scope(settings_bindings(), e) =~= d);
}

} // verus!
