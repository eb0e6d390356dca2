//! Keystrokes, the scopes bindings apply in, and what commands are called.

use crate::path::{leads, Path};
use crate::text::{join2, same};
use vstd::prelude::*;
use vstd::string::*;

verus! {

/// The modifier keys held down.
#[derive(Clone, Copy, Debug, PartialEq, Eq, Structural)]
pub struct KeyModifierSet {
    pub ctrl: bool,
    pub alt: bool,
    pub shift: bool,
    pub super_: bool,
}

/// The key pressed.
#[derive(Clone, Copy, Debug, PartialEq, Eq, Structural)]
pub enum KeyCodeRepr {
    Char(char),
    Enter,
    Esc,
    Tab,
    BackTab,
    Backspace,
    Up,
    Down,
    Left,
    Right,
    Home,
    End,
}

/// A key together with the modifiers held down.
#[derive(Clone, Copy, Debug, PartialEq, Eq, Structural)]
pub struct KeyChord {
    pub modifiers: KeyModifierSet,
    pub code: KeyCodeRepr,
}

/// No modifier at all.
pub open spec fn unmodified() -> KeyModifierSet {
    KeyModifierSet { ctrl: false, alt: false, shift: false, super_: false }
}

impl KeyModifierSet {
    /// No modifier at all.
    pub fn none() -> (r: KeyModifierSet)
        ensures
            r == unmodified(),
    {
        KeyModifierSet { ctrl: false, alt: false, shift: false, super_: false }
    }
}

/// The key's name, without its modifiers.
pub open spec fn code_text(code: KeyCodeRepr) -> Seq<char> {
    match code {
        KeyCodeRepr::Char(c) => if c == ' ' {
            "Space"@
        } else {
            seq![c]
        },
        KeyCodeRepr::Enter => "Enter"@,
        KeyCodeRepr::Esc => "Esc"@,
        KeyCodeRepr::Tab => "Tab"@,
        KeyCodeRepr::BackTab => "Shift+Tab"@,
        KeyCodeRepr::Backspace => "Backspace"@,
        KeyCodeRepr::Up => "Up"@,
        KeyCodeRepr::Down => "Down"@,
        KeyCodeRepr::Left => "Left"@,
        KeyCodeRepr::Right => "Right"@,
        KeyCodeRepr::Home => "Home"@,
        KeyCodeRepr::End => "End"@,
    }
}

/// `name` with `prefix` in front of it where `held`.
pub open spec fn prefixed(held: bool, prefix: Seq<char>, name: Seq<char>) -> Seq<char> {
    if held {
        prefix + name
    } else {
        name
    }
}

/// The chord's name: modifiers first, in a fixed order. Shift is spelled out
/// only where the key's own name does not show it.
pub open spec fn chord_text(key: KeyChord) -> Seq<char> {
    let shown = key.modifiers.shift && !(key.code is Char) && !(key.code is BackTab);
    let shifted = prefixed(shown, "Shift+"@, code_text(key.code));
    let alted = prefixed(key.modifiers.alt, "Alt+"@, shifted);
    let controlled = prefixed(key.modifiers.ctrl, "Ctrl+"@, alted);
    prefixed(key.modifiers.super_, "Super+"@, controlled)
}

fn code_name(code: KeyCodeRepr) -> (r: String)
    ensures
        r@ == code_text(code),
{
    match code {
        KeyCodeRepr::Char(c) => if c == ' ' {
            "Space".to_owned()
        } else {
            let mut s: String = String::new();
            s.push(c);
            proof {
                assert(s@ =~= seq![c]);
            }
            s
        },
        KeyCodeRepr::Enter => "Enter".to_owned(),
        KeyCodeRepr::Esc => "Esc".to_owned(),
        KeyCodeRepr::Tab => "Tab".to_owned(),
        KeyCodeRepr::BackTab => "Shift+Tab".to_owned(),
        KeyCodeRepr::Backspace => "Backspace".to_owned(),
        KeyCodeRepr::Up => "Up".to_owned(),
        KeyCodeRepr::Down => "Down".to_owned(),
        KeyCodeRepr::Left => "Left".to_owned(),
        KeyCodeRepr::Right => "Right".to_owned(),
        KeyCodeRepr::Home => "Home".to_owned(),
        KeyCodeRepr::End => "End".to_owned(),
    }
}

/// The chord's name, as hints show it.
pub fn encode_keychord(key: &KeyChord) -> (r: String)
    ensures
        r@ == chord_text(*key),
{
    let mut s: String = code_name(key.code);
    let shown: bool = key.modifiers.shift && match key.code {
        KeyCodeRepr::Char(_) => false,
        KeyCodeRepr::BackTab => false,
        _ => true,
    };
    if shown {
        s = join2("Shift+", s.as_str());
    }
    if key.modifiers.alt {
        s = join2("Alt+", s.as_str());
    }
    if key.modifiers.ctrl {
        s = join2("Ctrl+", s.as_str());
    }
    if key.modifiers.super_ {
        s = join2("Super+", s.as_str());
    }
    s
}

/// What a command is called by bindings.
#[derive(Clone, Debug, PartialEq, Eq, Hash)]
pub struct CommandId(pub String);

impl View for CommandId {
    type V = Seq<char>;

    open spec fn view(&self) -> Seq<char> {
        self.0@
    }
}

/// The command called `id`.
pub fn cmd(id: &str) -> (r: CommandId)
    ensures
        r@ == id@,
{
    CommandId(id.to_owned())
}

impl CommandId {
    /// A copy of the id.
    pub fn copied(&self) -> (r: CommandId)
        ensures
            r@ == self@,
    {
        CommandId(self.0.clone())
    }

    /// Whether both call the same command.
    pub fn same_as(&self, other: &CommandId) -> (r: bool)
        ensures
            r == (self@ == other@),
    {
        same(self.0.as_str(), other.0.as_str())
    }
}

/// What a command is called on screen.
#[derive(Clone, Debug, PartialEq, Eq)]
pub struct CommandDisplay {
    pub name: String,
    pub description: String,
}

/// What a `CommandDisplay` holds.
pub struct DisplayView {
    pub name: Seq<char>,
    pub description: Seq<char>,
}

impl View for CommandDisplay {
    type V = DisplayView;

    open spec fn view(&self) -> DisplayView {
        DisplayView { name: self.name@, description: self.description@ }
    }
}

impl CommandDisplay {
    /// A copy of the display.
    pub fn copied(&self) -> (r: CommandDisplay)
        ensures
            r@ == self@,
    {
        CommandDisplay { name: self.name.clone(), description: self.description.clone() }
    }
}

/// The screens of the application.
#[derive(Clone, Copy, Debug, PartialEq, Eq, Structural)]
pub enum Screen {
    Inbox,
    Settings,
}

/// The input modes of the application.
#[derive(Clone, Copy, Debug, PartialEq, Eq, Structural)]
pub enum Mode {
    Normal,
    Insert,
}

/// Where a command belongs: a screen, and a page of it if it has one.
#[derive(Clone, Debug, PartialEq, Eq)]
pub struct CommandScope {
    pub screen: Screen,
    pub cursor_path: Option<Path>,
}

/// The view of an optional path.
pub open spec fn opt_path(o: Option<Path>) -> Option<Seq<Seq<char>>> {
    match o {
        Some(p) => Some(p@),
        None => None,
    }
}

/// When in a key's way through the nested scopes a binding is asked.
#[derive(Clone, Copy, Debug, PartialEq, Eq, Structural)]
pub enum Phase {
    /// On the way in, containers first.
    Capture,
    /// At the innermost scope.
    Target,
    /// On the way out, containers last.
    Bubble,
}

/// The cursors a binding applies at.
#[derive(Clone, Debug, PartialEq, Eq)]
pub enum BindingScope {
    Anywhere,
    Exact(Path),
    Prefix(Path),
}

/// What a `BindingScope` holds.
pub enum ScopeView {
    Anywhere,
    Exact(Seq<Seq<char>>),
    Prefix(Seq<Seq<char>>),
}

impl View for BindingScope {
    type V = ScopeView;

    open spec fn view(&self) -> ScopeView {
        match self {
            BindingScope::Anywhere => ScopeView::Anywhere,
            BindingScope::Exact(p) => ScopeView::Exact(p@),
            BindingScope::Prefix(p) => ScopeView::Prefix(p@),
        }
    }
}

impl ScopeView {
    /// Whether the scope admits a cursor.
    pub open spec fn admits(self, cursor: Seq<Seq<char>>) -> bool {
        match self {
            ScopeView::Anywhere => true,
            ScopeView::Exact(p) => p == cursor,
            ScopeView::Prefix(p) => leads(p, cursor),
        }
    }

    /// How wide the scope is: exact scopes first, then subtrees, then the
    /// whole screen.
    pub open spec fn class(self) -> nat {
        match self {
            ScopeView::Exact(_) => 0,
            ScopeView::Prefix(_) => 1,
            ScopeView::Anywhere => 2,
        }
    }

    /// The path the scope is keyed by.
    pub open spec fn key_path(self) -> Option<Seq<Seq<char>>> {
        match self {
            ScopeView::Anywhere => None,
            ScopeView::Exact(p) => Some(p),
            ScopeView::Prefix(p) => Some(p),
        }
    }
}

impl BindingScope {
    /// Whether the scope admits a cursor.
    pub fn matches(&self, cursor: &Path) -> (r: bool)
        ensures
            r == self@.admits(cursor@),
    {
        match self {
            BindingScope::Anywhere => true,
            BindingScope::Exact(p) => p.same_as(cursor),
            BindingScope::Prefix(p) => cursor.starts_with(p),
        }
    }

    /// How wide the scope is.
    pub fn specificity_class(&self) -> (r: u8)
        ensures
            r == self@.class(),
    {
        match self {
            BindingScope::Exact(_) => 0,
            BindingScope::Prefix(_) => 1,
            BindingScope::Anywhere => 2,
        }
    }

    /// The path the scope is keyed by.
    pub fn keyed_path(&self) -> (r: Option<&Path>)
        ensures
            r is Some <==> self@.key_path() is Some,
            r is Some ==> (*r->0)@ == self@.key_path()->0,
    {
        match self {
            BindingScope::Anywhere => None,
            BindingScope::Exact(p) => Some(p),
            BindingScope::Prefix(p) => Some(p),
        }
    }

    /// A copy of the scope.
    pub fn copied(&self) -> (r: BindingScope)
        ensures
            r@ == self@,
    {
        match self {
            BindingScope::Anywhere => BindingScope::Anywhere,
            BindingScope::Exact(p) => BindingScope::Exact(p.copied()),
            BindingScope::Prefix(p) => BindingScope::Prefix(p.copied()),
        }
    }
}

/// A key bound to a command at a scope, for one phase.
#[derive(Clone, Debug, PartialEq, Eq)]
pub struct ScopedBinding {
    pub scope: BindingScope,
    pub key: KeyChord,
    pub command_id: CommandId,
    pub phase: Phase,
    pub priority: u8,
}

/// What a `ScopedBinding` holds.
pub struct BindingView {
    pub scope: ScopeView,
    pub key: KeyChord,
    pub command: Seq<char>,
    pub phase: Phase,
    pub priority: u8,
}

impl View for ScopedBinding {
    type V = BindingView;

    open spec fn view(&self) -> BindingView {
        BindingView {
            scope: self.scope@,
            key: self.key,
            command: self.command_id@,
            phase: self.phase,
            priority: self.priority,
        }
    }
}

impl ScopedBinding {
    /// A copy of the binding.
    pub fn copied(&self) -> (r: ScopedBinding)
        ensures
            r@ == self@,
    {
        ScopedBinding {
            scope: self.scope.copied(),
            key: self.key,
            command_id: self.command_id.copied(),
            phase: self.phase,
            priority: self.priority,
        }
    }
}

/// What each binding of a list holds.
pub open spec fn bindings_view(v: Seq<ScopedBinding>) -> Seq<BindingView> {
    Seq::new(v.len(), |i: int| v[i]@)
}

/// A command as the store describes it.
#[derive(Clone, Debug, PartialEq, Eq)]
pub struct CommandMetadata {
    pub display: CommandDisplay,
}

/// A binding together with its command's name on screen.
#[derive(Clone, Debug, PartialEq, Eq)]
pub struct JoinedBinding {
    pub scope: BindingScope,
    pub key: KeyChord,
    pub priority: u8,
    pub description: String,
    pub command_id: CommandId,
}

/// What a `JoinedBinding` holds.
pub struct JoinedView {
    pub scope: ScopeView,
    pub key: KeyChord,
    pub priority: u8,
    pub description: Seq<char>,
    pub command: Seq<char>,
}

impl View for JoinedBinding {
    type V = JoinedView;

    open spec fn view(&self) -> JoinedView {
        JoinedView {
            scope: self.scope@,
            key: self.key,
            priority: self.priority,
            description: self.description@,
            command: self.command_id@,
        }
    }
}

impl JoinedBinding {
    /// A copy of the binding.
    pub fn copied(&self) -> (r: JoinedBinding)
        ensures
            r@ == self@,
    {
        JoinedBinding {
            scope: self.scope.copied(),
            key: self.key,
            priority: self.priority,
            description: self.description.clone(),
            command_id: self.command_id.copied(),
        }
    }
}

/// What each joined binding of a list holds.
pub open spec fn joined_view(v: Seq<JoinedBinding>) -> Seq<JoinedView> {
    Seq::new(v.len(), |i: int| v[i]@)
}

/// One line of the shortcuts display.
#[derive(Clone, Debug, PartialEq, Eq)]
pub struct KeyHint {
    pub key: String,
    pub description: String,
    pub command: String,
    pub status_hint: bool,
    pub priority: u8,
}

/// What a `KeyHint` holds.
pub struct HintView {
    pub key: Seq<char>,
    pub description: Seq<char>,
    pub command: Seq<char>,
    pub status_hint: bool,
    pub priority: u8,
}

impl View for KeyHint {
    type V = HintView;

    open spec fn view(&self) -> HintView {
        HintView {
            key: self.key@,
            description: self.description@,
            command: self.command@,
            status_hint: self.status_hint,
            priority: self.priority,
        }
    }
}

/// What each hint of a list holds.
pub open spec fn hints_view(v: Seq<KeyHint>) -> Seq<HintView> {
    Seq::new(v.len(), |i: int| v[i]@)
}

/// A chord's name is its key's with the modifiers in front: super, control, alt
/// and shift, from the outside in. Shift is not spelled out for a character,
/// which shows it itself, nor for the backwards tab. A character's own name is
/// the character, but for the space.
pub proof fn modifiers_are_named_in_front(k: KeyChord)
    ensures
        k.modifiers.super_ ==> chord_text(k) == "Super+"@ + chord_text(
            KeyChord { modifiers: KeyModifierSet { super_: false, ..k.modifiers }, code: k.code },
        ),
        !k.modifiers.super_ && k.modifiers.ctrl ==> chord_text(k) == "Ctrl+"@ + chord_text(
            KeyChord { modifiers: KeyModifierSet { ctrl: false, ..k.modifiers }, code: k.code },
        ),
        !k.modifiers.super_ && !k.modifiers.ctrl && k.modifiers.alt ==> chord_text(k) == "Alt+"@
            + chord_text(
            KeyChord { modifiers: KeyModifierSet { alt: false, ..k.modifiers }, code: k.code },
        ),
        !k.modifiers.super_ && !k.modifiers.ctrl && !k.modifiers.alt && k.modifiers.shift && !(
        k.code is Char || k.code is BackTab) ==> chord_text(k) == "Shift+"@ + chord_text(
            KeyChord { modifiers: unmodified(), code: k.code },
        ),
        k.code is Char || k.code is BackTab ==> chord_text(k) == chord_text(
            KeyChord {
                modifiers: KeyModifierSet { shift: !k.modifiers.shift, ..k.modifiers },
                code: k.code,
            },
        ),
        k.modifiers == unmodified() && k.code is Char && k.code->Char_0 != ' ' ==> chord_text(k)
            == seq![k.code->Char_0],
        k.modifiers == unmodified() && k.code == KeyCodeRepr::Char(' ') ==> chord_text(k)
            == "Space"@,
{
}

/// Keys without a character are called by their names, alone as with modifiers
/// in front.
pub proof fn keys_are_called_by_their_names(m: KeyModifierSet)
    requires
        m == unmodified(),
    ensures
        chord_text(KeyChord { modifiers: m, code: KeyCodeRepr::Enter }) == "Enter"@,
        chord_text(KeyChord { modifiers: m, code: KeyCodeRepr::Esc }) == "Esc"@,
        chord_text(KeyChord { modifiers: m, code: KeyCodeRepr::Tab }) == "Tab"@,
        chord_text(KeyChord { modifiers: m, code: KeyCodeRepr::BackTab }) == "Shift+Tab"@,
        chord_text(KeyChord { modifiers: m, code: KeyCodeRepr::Backspace }) == "Backspace"@,
        chord_text(KeyChord { modifiers: m, code: KeyCodeRepr::Up }) == "Up"@,
        chord_text(KeyChord { modifiers: m, code: KeyCodeRepr::Down }) == "Down"@,
        chord_text(KeyChord { modifiers: m, code: KeyCodeRepr::Left }) == "Left"@,
        chord_text(KeyChord { modifiers: m, code: KeyCodeRepr::Right }) == "Right"@,
        chord_text(KeyChord { modifiers: m, code: KeyCodeRepr::Home }) == "Home"@,
        chord_text(KeyChord { modifiers: m, code: KeyCodeRepr::End }) == "End"@,
{
}

/// A binding for everywhere admits every cursor, one for a cursor that cursor
/// and no other, and one for a subtree its root and whatever lies below it, and
/// nothing beside it.
pub proof fn scopes_admit_what_lies_in_them(
    p: Seq<Seq<char>>,
    rest: Seq<Seq<char>>,
    q: Seq<Seq<char>>,
    i: int,
)
    ensures
        ScopeView::Anywhere.admits(q),
        ScopeView::Exact(p).admits(q) <==> p == q,
        ScopeView::Prefix(p).admits(p),
        ScopeView::Prefix(p).admits(p + rest),
        0 <= i < p.len() && (i >= q.len() || p[i] != q[i]) ==> !ScopeView::Prefix(p).admits(q),
{
    crate::path::leading_is_by_components(p, rest, q, i);
    crate::path::leading_is_by_components(p, Seq::empty(), q, i);
    assert(p + Seq::<Seq<char>>::empty() =~= p);
}

} // verus!
