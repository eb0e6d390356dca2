//! Composing a new connection: the draft, its validation, and making it real.

use crate::assoc::{place_is_first, place_of, place_unique};
use crate::command_registry::CommandCtx;
use crate::keys::{KeyChord, KeyCodeRepr};
use crate::naming::{id_for_name, stands_for_name, stored_id};
use crate::path::{component_ok, leads, path2, path3, path4, valid_component, Path};
use crate::registry::Renderer;
use crate::renderers::util::{
    auth_at, field_at, read_auth, read_field, read_text, read_text_or_empty, read_texts, text_at,
    text_or_empty, texts_at,
};
use crate::snapshot::{
    one_write_shows_at_its_path, two_writes_in_turn, written, SettingsSnapshot, SnapshotView,
};
use crate::text::{
    chars_of, contains_text, insert_text, join2, join3, same, sort_texts, sorted_texts, texts, trim,
    trim_is_idempotent, trimmed, with_text,
};
use crate::types::{
    auth_name, auth_order, auth_schemes, auth_text, auth_text_names_scheme, field_text,
    field_text_names_field, opt_text, AccountConfig, AccountField, AccountView, AuthScheme,
    ErrorsView, ProviderConfig, ProviderView, ValidationErrors,
};
use crate::value::{
    null_write, put, put_null, put_path, put_text, texts_to_value, texts_value, write_at,
    write_text, writes_view, StoreValue, ValueView, Write, WriteView,
};
use vstd::prelude::*;
use vstd::string::*;

use super::navigation::path_to_value;
use super::selectors::{account_child, account_place, bound_provider, read_bound_provider};

verus! {

/// How a field is filled in.
#[derive(Clone, Copy, Debug, PartialEq, Eq, Structural)]
pub enum FieldKind {
    Text,
    Selector,
}

/// Which way a selector turns.
#[derive(Clone, Copy, Debug, PartialEq, Eq, Structural)]
pub enum CycleDir {
    Forward,
    Back,
}

/// The field's label on screen.
pub open spec fn label_text(f: AccountField) -> Seq<char> {
    match f {
        AccountField::Name => "Name"@,
        AccountField::Protocol => "Protocol"@,
        AccountField::Endpoint => "Endpoint"@,
        AccountField::Auth => "Auth"@,
        AccountField::Key => "Key"@,
    }
}

/// The field's label on screen.
pub fn field_label(f: AccountField) -> (r: &'static str)
    ensures
        r@ == label_text(f),
{
    match f {
        AccountField::Name => "Name",
        AccountField::Protocol => "Protocol",
        AccountField::Endpoint => "Endpoint",
        AccountField::Auth => "Auth",
        AccountField::Key => "Key",
    }
}

/// How the field is filled in.
pub open spec fn kind_of(f: AccountField) -> FieldKind {
    match f {
        AccountField::Protocol | AccountField::Auth => FieldKind::Selector,
        _ => FieldKind::Text,
    }
}

/// How the field is filled in.
pub fn field_kind(f: AccountField) -> (r: FieldKind)
    ensures
        r == kind_of(f),
{
    match f {
        AccountField::Name => FieldKind::Text,
        AccountField::Endpoint => FieldKind::Text,
        AccountField::Key => FieldKind::Text,
        AccountField::Protocol => FieldKind::Selector,
        AccountField::Auth => FieldKind::Selector,
    }
}

/// The name of the field's place in the draft.
pub fn field_state_subpath(f: AccountField) -> (r: &'static str)
    ensures
        r@ == field_text(f),
{
    match f {
        AccountField::Name => "name",
        AccountField::Protocol => "protocol",
        AccountField::Endpoint => "endpoint",
        AccountField::Auth => "auth",
        AccountField::Key => "key",
    }
}

/// The fields in the order forms show them.
pub const FIELD_ORDER: [AccountField; 5] = [
    AccountField::Name,
    AccountField::Protocol,
    AccountField::Endpoint,
    AccountField::Auth,
    AccountField::Key,
];

/// The fields in the order forms show them.
pub open spec fn field_order() -> Seq<AccountField> {
    seq![
        AccountField::Name,
        AccountField::Protocol,
        AccountField::Endpoint,
        AccountField::Auth,
        AccountField::Key,
    ]
}

/// The field's place in that order.
pub open spec fn field_place(f: AccountField) -> int {
    match f {
        AccountField::Name => 0,
        AccountField::Protocol => 1,
        AccountField::Endpoint => 2,
        AccountField::Auth => 3,
        AccountField::Key => 4,
    }
}

/// The field's place in that order.
pub fn field_index(f: AccountField) -> (r: usize)
    ensures
        r == field_place(f),
        r < 5,
{
    match f {
        AccountField::Name => 0,
        AccountField::Protocol => 1,
        AccountField::Endpoint => 2,
        AccountField::Auth => 3,
        AccountField::Key => 4,
    }
}

/// The place `delta` steps on from `place` in a ring of `len`.
pub open spec fn ring(place: int, delta: int, len: int) -> int {
    (place + delta) % len
}

/// The field after `field`, the first after the last.
pub fn focus_next(field: AccountField) -> (r: AccountField)
    ensures
        r == field_order()[ring(field_place(field), 1, 5)],
{
    match field {
        AccountField::Name => AccountField::Protocol,
        AccountField::Protocol => AccountField::Endpoint,
        AccountField::Endpoint => AccountField::Auth,
        AccountField::Auth => AccountField::Key,
        AccountField::Key => AccountField::Name,
    }
}

/// The field before `field`, the last before the first.
pub fn focus_prev(field: AccountField) -> (r: AccountField)
    ensures
        r == field_order()[ring(field_place(field), -1, 5)],
{
    match field {
        AccountField::Name => AccountField::Key,
        AccountField::Protocol => AccountField::Name,
        AccountField::Endpoint => AccountField::Protocol,
        AccountField::Auth => AccountField::Endpoint,
        AccountField::Key => AccountField::Auth,
    }
}

/// Every field stands at its place, and stepping forward then back, or back
/// then forward, returns to it.
pub proof fn focus_steps_undo_each_other(f: AccountField)
    ensures
        field_order()[field_place(f)] == f,
        field_order()[ring(
            field_place(field_order()[ring(field_place(f), 1, 5)]),
            -1,
            5,
        )] == f,
        field_order()[ring(
            field_place(field_order()[ring(field_place(f), -1, 5)]),
            1,
            5,
        )] == f,
{
}

/// The characters of an optional string slice.
pub open spec fn opt_str(o: Option<&str>) -> Option<Seq<char>> {
    match o {
        Some(s) => Some(s@),
        None => None,
    }
}

/// What is wrong with a trimmed name that would be stored under `id`, given the
/// names that are taken.
pub open spec fn name_error_under(
    t: Seq<char>,
    id: Seq<char>,
    existing: Seq<Seq<char>>,
) -> Option<Seq<char>> {
    if t.len() == 0 {
        Some("required"@)
    } else if t.len() > 256 {
        Some("too long (max 256 chars)"@)
    } else if existing.contains(id) {
        Some("'"@ + t + "' already exists"@)
    } else {
        None
    }
}

/// What is wrong with a name, given the names that are taken.
pub open spec fn name_error(name: Seq<char>, existing: Seq<Seq<char>>) -> Option<Seq<char>> {
    name_error_under(trimmed(name), stored_id(trimmed(name)), existing)
}

/// What is wrong with a protocol.
pub open spec fn protocol_error(protocol: Option<Seq<char>>) -> Option<Seq<char>> {
    if protocol is None {
        Some("select a protocol"@)
    } else {
        None
    }
}

/// What is wrong with an endpoint.
pub open spec fn endpoint_error(endpoint: Seq<char>) -> Option<Seq<char>> {
    if trimmed(endpoint).len() == 0 {
        Some("required"@)
    } else {
        None
    }
}

/// What is wrong with an authentication scheme.
pub open spec fn auth_error(auth: Option<AuthScheme>) -> Option<Seq<char>> {
    if auth is None {
        Some("select an auth scheme"@)
    } else {
        None
    }
}

/// What is wrong with a key, given the scheme that would send it.
pub open spec fn key_error(key: Seq<char>, auth: Option<AuthScheme>) -> Option<Seq<char>> {
    if auth is Some && auth->0.needs_key() && trimmed(key).len() == 0 {
        Some("required for this auth scheme"@)
    } else {
        None
    }
}

/// What is wrong with each field of a draft.
pub open spec fn draft_errors(
    name: Seq<char>,
    protocol: Option<Seq<char>>,
    endpoint: Seq<char>,
    auth: Option<AuthScheme>,
    key: Seq<char>,
    existing: Seq<Seq<char>>,
) -> ErrorsView {
    ErrorsView {
        name: name_error(name, existing),
        protocol: protocol_error(protocol),
        endpoint: endpoint_error(endpoint),
        auth: auth_error(auth),
        key: key_error(key, auth),
    }
}

/// What is wrong with each field of a draft.
pub fn validate_compose_draft(
    name: &str,
    protocol: Option<&str>,
    endpoint: &str,
    auth: Option<&AuthScheme>,
    key: &str,
    existing_accounts: &[String],
) -> (r: ValidationErrors)
    ensures
        r@ == draft_errors(
            name@,
            opt_str(protocol),
            endpoint@,
            opt_auth(auth),
            key@,
            texts(existing_accounts@),
        ),
{
    ValidationErrors {
        name: validate_compose_name(name, existing_accounts),
        protocol: validate_compose_protocol(protocol),
        endpoint: validate_compose_endpoint(endpoint),
        auth: validate_compose_auth(auth),
        key: validate_compose_key(key, auth),
    }
}

/// An optional scheme by value.
pub open spec fn opt_auth(o: Option<&AuthScheme>) -> Option<AuthScheme> {
    match o {
        Some(a) => Some(*a),
        None => None,
    }
}

/// What is wrong with a name: nothing in it, more than 256 characters, or
/// taken.
pub fn validate_compose_name(name: &str, existing: &[String]) -> (r: Option<String>)
    ensures
        opt_text(r) == name_error(name@, texts(existing@)),
{
    let t: String = trim(name);
    let id: String = id_for_name(t.as_str());
    validate_name_under(t.as_str(), id.as_str(), existing)
}

/// What is wrong with a trimmed name that would be stored under `id`.
pub fn validate_name_under(t: &str, id: &str, existing: &[String]) -> (r: Option<String>)
    ensures
        opt_text(r) == name_error_under(t@, id@, texts(existing@)),
{
    let n: usize = chars_of(t).len();
    if n == 0 {
        return Some("required".to_owned());
    }
    if n > 256 {
        return Some("too long (max 256 chars)".to_owned());
    }
    if contains_text(existing, id) {
        return Some(join3("'", t, "' already exists"));
    }
    None
}

/// What is wrong with a protocol: that there is none.
pub fn validate_compose_protocol(protocol: Option<&str>) -> (r: Option<String>)
    ensures
        opt_text(r) == protocol_error(opt_str(protocol)),
{
    match protocol {
        None => Some("select a protocol".to_owned()),
        Some(_) => None,
    }
}

/// What is wrong with an endpoint: nothing but white space in it. Whether it
/// can be reached is not asked here.
pub fn validate_compose_endpoint(endpoint: &str) -> (r: Option<String>)
    ensures
        opt_text(r) == endpoint_error(endpoint@),
{
    if chars_of(trim(endpoint).as_str()).len() == 0 {
        Some("required".to_owned())
    } else {
        None
    }
}

/// What is wrong with a scheme: that there is none.
pub fn validate_compose_auth(auth: Option<&AuthScheme>) -> (r: Option<String>)
    ensures
        opt_text(r) == auth_error(opt_auth(auth)),
{
    match auth {
        None => Some("select an auth scheme".to_owned()),
        Some(_) => None,
    }
}

/// What is wrong with a key: that the scheme needs one and there is none.
pub fn validate_compose_key(key: &str, auth: Option<&AuthScheme>) -> (r: Option<String>)
    ensures
        opt_text(r) == key_error(key@, opt_auth(auth)),
{
    match auth {
        Some(scheme) => {
            if scheme.requires_key() && chars_of(trim(key).as_str()).len() == 0 {
                Some("required for this auth scheme".to_owned())
            } else {
                None
            }
        },
        None => None,
    }
}

/// Where the draft of a new connection lives.
pub open spec fn draft_root() -> Seq<Seq<char>> {
    seq!["ui"@, "settings"@, "new_account"@]
}

/// Where a field of the draft lives.
pub open spec fn draft_path(f: AccountField) -> Seq<Seq<char>> {
    seq!["ui"@, "settings"@, "new_account"@, field_text(f)]
}

/// Where another part of the draft lives.
pub open spec fn draft_part(part: Seq<char>) -> Seq<Seq<char>> {
    seq!["ui"@, "settings"@, "new_account"@, part]
}

/// Where the accounts live.
pub open spec fn accounts_root() -> Seq<Seq<char>> {
    seq!["config"@, "gate"@, "accounts"@]
}

/// Where a field of the draft lives.
pub fn field_state_path(f: AccountField) -> (r: Path)
    ensures
        r@ == draft_path(f),
{
    path4("ui", "settings", "new_account", field_state_subpath(f))
}

/// The field of the draft that has the focus, the name at first.
pub open spec fn focused_field(s: SnapshotView) -> AccountField {
    match field_at(s, draft_part("focused_field"@)) {
        Some(f) => f,
        None => AccountField::Name,
    }
}

/// The field of the draft that has the focus.
pub fn read_focused_field(data: &SettingsSnapshot) -> (r: AccountField)
    ensures
        r == focused_field(data@),
{
    match read_field(data, &field_focus_path()) {
        Some(f) => f,
        None => AccountField::Name,
    }
}

/// Where the draft's focus lives.
pub fn field_focus_path() -> (r: Path)
    ensures
        r@ == draft_part("focused_field"@),
{
    path4("ui", "settings", "new_account", "focused_field")
}

/// The names that connections are stored under.
pub fn account_names(data: &SettingsSnapshot) -> (r: Vec<String>)
    ensures
        texts(r@) == data@.children(accounts_root()),
{
    data.child_names(&path3("config", "gate", "accounts"))
}

/// The names a new connection cannot take: those that connections are stored
/// under, and those of the providers that connections are bound to.
pub open spec fn taken_names(s: SnapshotView) -> Seq<Seq<char>> {
    let names = s.children(accounts_root());
    names + Seq::new(names.len(), |i: int| bound_provider(s, names[i]))
}

/// The names a new connection cannot take.
pub fn names_taken(data: &SettingsSnapshot) -> (r: Vec<String>)
    ensures
        texts(r@) == taken_names(data@),
{
    let mut taken: Vec<String> = account_names(data);
    let ghost names = texts(taken@);
    let n: usize = taken.len();
    let mut i: usize = 0;
    proof {
        assert(texts(taken@) =~= names + Seq::new(
            0,
            |k: int| bound_provider(data@, names[k]),
        ));
    }
    while i < n
        invariant
            i <= n == names.len(),
            taken@.len() == n + i,
            names == data@.children(accounts_root()),
            texts(taken@) == names + Seq::new(
                i as nat,
                |k: int| bound_provider(data@, names[k]),
            ),
        decreases n - i,
    {
        let ghost before = texts(taken@);
        proof {
            assert(texts(taken@)[i as int] == names[i as int]);
        }
        let provider: String = read_bound_provider(data, taken[i].as_str());
        taken.push(provider);
        proof {
            assert(texts(taken@) =~= before.push(bound_provider(data@, names[i as int])));
            assert(texts(taken@) =~= names + Seq::new(
                (i + 1) as nat,
                |k: int| bound_provider(data@, names[k]),
            ));
        }
        i += 1;
    }
    taken
}

/// The writes that open an empty draft.
pub open spec fn compose_open_writes(s: SnapshotView) -> Seq<WriteView> {
    let none = Seq::<char>::empty();
    seq![
        put(draft_part("active"@), ValueView::Bool(true)),
        put_text(draft_part("focused_field"@), "name"@),
        put_text(draft_path(AccountField::Name), none),
        put_null(draft_path(AccountField::Protocol)),
        put_text(draft_path(AccountField::Endpoint), none),
        put_null(draft_path(AccountField::Auth)),
        put_text(draft_path(AccountField::Key), none),
        put(
            draft_part("errors"@),
            ValueView::Errors(
                draft_errors(none, None, none, None, none, taken_names(s)),
            ),
        ),
    ]
}

/// Opens an empty draft, with what is wrong with it already worked out.
pub fn accounts_compose_open(data: &SettingsSnapshot) -> (r: Vec<Write>)
    ensures
        writes_view(r@) == compose_open_writes(data@),
{
    let existing: Vec<String> = names_taken(data);
    let empty: String = String::new();
    proof {
        assert(empty@ =~= Seq::<char>::empty());
    }
    let errors = validate_compose_draft(
        empty.as_str(),
        None,
        empty.as_str(),
        None,
        empty.as_str(),
        existing.as_slice(),
    );
    let mut out: Vec<Write> = Vec::new();
    out.push(write_at(path4("ui", "settings", "new_account", "active"), StoreValue::Bool(true)));
    out.push(write_text(field_focus_path(), "name".to_owned()));
    out.push(write_text(field_state_path(AccountField::Name), empty.clone()));
    out.push(null_write(field_state_path(AccountField::Protocol)));
    out.push(write_text(field_state_path(AccountField::Endpoint), empty.clone()));
    out.push(null_write(field_state_path(AccountField::Auth)));
    out.push(write_text(field_state_path(AccountField::Key), empty.clone()));
    out.push(write_at(path4("ui", "settings", "new_account", "errors"), StoreValue::Errors(errors)));
    proof {
        assert(writes_view(out@) =~= compose_open_writes(data@));
    }
    out
}

/// The text of a draft field, `value` standing in for the field being typed.
pub open spec fn draft_text(
    s: SnapshotView,
    f: AccountField,
    typed: AccountField,
    value: Option<Seq<char>>,
) -> Seq<char> {
    if f == typed && value is Some {
        value->0
    } else {
        text_or_empty(s, draft_path(f))
    }
}

/// What is wrong with the draft, `value` standing in for the field being
/// typed.
pub open spec fn errors_of_draft(
    s: SnapshotView,
    typed: AccountField,
    value: Option<Seq<char>>,
) -> ErrorsView {
    draft_errors(
        draft_text(s, AccountField::Name, typed, value),
        text_at(s, draft_path(AccountField::Protocol)),
        draft_text(s, AccountField::Endpoint, typed, value),
        auth_at(s, draft_path(AccountField::Auth)),
        draft_text(s, AccountField::Key, typed, value),
        taken_names(s),
    )
}

/// The write of what is wrong with the draft.
pub open spec fn put_errors(
    s: SnapshotView,
    typed: AccountField,
    value: Option<Seq<char>>,
) -> WriteView {
    put(draft_part("errors"@), ValueView::Errors(errors_of_draft(s, typed, value)))
}

fn read_draft_text(
    data: &SettingsSnapshot,
    f: AccountField,
    typed: AccountField,
    value: Option<&str>,
) -> (r: String)
    ensures
        r@ == draft_text(data@, f, typed, opt_str(value)),
{
    if f == typed {
        match value {
            Some(v) => {
                return v.to_owned();
            },
            None => {},
        }
    }
    read_text_or_empty(data, &field_state_path(f))
}

/// Adds to `writes` the write of what is wrong with the draft. `override_value`
/// stands in for the text of `override_field`, which the store does not hold
/// yet.
pub fn recompute_errors_writes(
    data: &SettingsSnapshot,
    override_field: AccountField,
    override_value: Option<&str>,
    writes: Vec<Write>,
) -> (r: Vec<Write>)
    ensures
        writes_view(r@) == writes_view(writes@).push(
            put_errors(data@, override_field, opt_str(override_value)),
        ),
{
    let name: String = read_draft_text(data, AccountField::Name, override_field, override_value);
    let endpoint: String = read_draft_text(
        data,
        AccountField::Endpoint,
        override_field,
        override_value,
    );
    let key: String = read_draft_text(data, AccountField::Key, override_field, override_value);
    let protocol: Option<String> = read_text(data, &field_state_path(AccountField::Protocol));
    let auth: Option<AuthScheme> = read_auth(data, &field_state_path(AccountField::Auth));
    let existing: Vec<String> = names_taken(data);
    let errors = validate_compose_draft(
        name.as_str(),
        match &protocol {
            Some(p) => Some(p.as_str()),
            None => None,
        },
        endpoint.as_str(),
        auth.as_ref(),
        key.as_str(),
        existing.as_slice(),
    );
    let ghost before = writes_view(writes@);
    let mut out: Vec<Write> = writes;
    out.push(write_at(path4("ui", "settings", "new_account", "errors"), StoreValue::Errors(errors)));
    proof {
        assert(writes_view(out@) =~= before.push(
            put_errors(data@, override_field, opt_str(override_value)),
        ));
    }
    out
}

/// The character of an unmodified or modified character key.
pub open spec fn typed_char(key: Option<KeyChord>) -> Option<char> {
    match key {
        Some(k) => match k.code {
            KeyCodeRepr::Char(c) => Some(c),
            _ => None,
        },
        None => None,
    }
}

/// The character of a character key.
pub fn char_typed(key: &Option<KeyChord>) -> (r: Option<char>)
    ensures
        r == typed_char(*key),
{
    match key {
        Some(k) => match k.code {
            KeyCodeRepr::Char(c) => Some(c),
            _ => None,
        },
        None => None,
    }
}

/// The writes that put `text` into the focused field of the draft.
pub open spec fn retyped(s: SnapshotView, f: AccountField, text: Seq<char>) -> Seq<WriteView> {
    seq![put_text(draft_path(f), text), put_errors(s, f, Some(text))]
}

/// The writes of typing a character into the draft.
pub open spec fn compose_insert_writes(s: SnapshotView, key: Option<KeyChord>) -> Seq<WriteView> {
    let f = focused_field(s);
    match typed_char(key) {
        Some(c) => if kind_of(f) == FieldKind::Text {
            retyped(s, f, text_or_empty(s, draft_path(f)).push(c))
        } else {
            Seq::empty()
        },
        None => Seq::empty(),
    }
}

fn retype(data: &SettingsSnapshot, f: AccountField, text: String) -> (r: Vec<Write>)
    ensures
        writes_view(r@) == retyped(data@, f, text@),
{
    let mut writes: Vec<Write> = Vec::new();
    writes.push(write_text(field_state_path(f), text.clone()));
    let out = recompute_errors_writes(data, f, Some(text.as_str()), writes);
    proof {
        assert(writes_view(writes@) =~= seq![put_text(draft_path(f), text@)]);
        assert(writes_view(out@) =~= retyped(data@, f, text@));
    }
    out
}

/// Types the pressed character into the focused text field. Nothing happens
/// for other keys, nor on a selector.
pub fn accounts_compose_insert_char<R: Renderer>(
    data: &SettingsSnapshot,
    ctx: &CommandCtx<'_, R>,
) -> (r: Vec<Write>)
    ensures
        writes_view(r@) == compose_insert_writes(data@, ctx@.last_keystroke),
{
    let none: Vec<Write> = Vec::new();
    proof {
        assert(writes_view(none@) =~= Seq::<WriteView>::empty());
    }
    let ch: char = match char_typed(&ctx.last_keystroke) {
        Some(c) => c,
        None => {
            return none;
        },
    };
    let focused = read_focused_field(data);
    if field_kind(focused) != FieldKind::Text {
        return none;
    }
    let mut buf: String = read_text_or_empty(data, &field_state_path(focused));
    buf.push(ch);
    retype(data, focused, buf)
}

/// The writes of taking the last character off the draft.
pub open spec fn compose_delete_writes(s: SnapshotView) -> Seq<WriteView> {
    let f = focused_field(s);
    let text = text_or_empty(s, draft_path(f));
    if kind_of(f) == FieldKind::Text && text.len() > 0 {
        retyped(s, f, text.drop_last())
    } else {
        Seq::empty()
    }
}

/// Takes the last character off the focused text field. Nothing happens where
/// there is none, nor on a selector.
pub fn accounts_compose_delete_back(data: &SettingsSnapshot) -> (r: Vec<Write>)
    ensures
        writes_view(r@) == compose_delete_writes(data@),
{
    let none: Vec<Write> = Vec::new();
    proof {
        assert(writes_view(none@) =~= Seq::<WriteView>::empty());
    }
    let focused = read_focused_field(data);
    if field_kind(focused) != FieldKind::Text {
        return none;
    }
    let mut buf: String = read_text_or_empty(data, &field_state_path(focused));
    if buf.pop().is_none() {
        return none;
    }
    retype(data, focused, buf)
}

/// The write that moves the draft's focus.
pub open spec fn put_focus(f: AccountField) -> WriteView {
    put_text(draft_part("focused_field"@), field_text(f))
}

/// Moves the draft's focus to the next field.
pub fn accounts_compose_focus_next(data: &SettingsSnapshot) -> (r: Vec<Write>)
    ensures
        writes_view(r@) == seq![
            put_focus(field_order()[ring(field_place(focused_field(data@)), 1, 5)]),
        ],
{
    let next = focus_next(read_focused_field(data));
    let mut out: Vec<Write> = Vec::new();
    out.push(write_text(field_focus_path(), field_state_subpath(next).to_owned()));
    proof {
        assert(writes_view(out@) =~= seq![put_focus(next)]);
    }
    out
}

/// Moves the draft's focus to the previous field.
pub fn accounts_compose_focus_prev(data: &SettingsSnapshot) -> (r: Vec<Write>)
    ensures
        writes_view(r@) == seq![
            put_focus(field_order()[ring(field_place(focused_field(data@)), -1, 5)]),
        ],
{
    let prev = focus_prev(read_focused_field(data));
    let mut out: Vec<Write> = Vec::new();
    out.push(write_text(field_focus_path(), field_state_subpath(prev).to_owned()));
    proof {
        assert(writes_view(out@) =~= seq![put_focus(prev)]);
    }
    out
}

/// The place a selector of `len` options turns to from `place`. From no place
/// it turns to the first option, or backwards to the last.
pub open spec fn turned(len: int, place: Option<int>, dir: CycleDir) -> int {
    match place {
        None => match dir {
            CycleDir::Forward => 0,
            CycleDir::Back => len - 1,
        },
        Some(i) => match dir {
            CycleDir::Forward => ring(i, 1, len),
            CycleDir::Back => ring(i, -1, len),
        },
    }
}

/// The place a selector of `len` options turns to from `place`.
pub fn turn(len: usize, place: Option<usize>, dir: CycleDir) -> (r: usize)
    requires
        len > 0,
        place is Some ==> place->0 < len,
    ensures
        r == turned(
            len as int,
            match place {
                Some(i) => Some(i as int),
                None => None,
            },
            dir,
        ),
        r < len,
{
    match place {
        None => match dir {
            CycleDir::Forward => 0,
            CycleDir::Back => len - 1,
        },
        Some(i) => match dir {
            CycleDir::Forward => if i + 1 == len {
                proof {
                    assert((i + 1) % (len as int) == 0) by (nonlinear_arith)
                        requires
                            i + 1 == len,
                            len > 0,
                    ;
                }
                0
            } else {
                proof {
                    vstd::arithmetic::div_mod::lemma_small_mod((i + 1) as nat, len as nat);
                }
                i + 1
            },
            CycleDir::Back => if i == 0 {
                proof {
                    lemma_before_first(len as int);
                }
                len - 1
            } else {
                proof {
                    vstd::arithmetic::div_mod::lemma_small_mod((i - 1) as nat, len as nat);
                }
                i - 1
            },
        },
    }
}

proof fn lemma_before_first(len: int)
    requires
        len > 0,
    ensures
        ring(0, -1, len) == len - 1,
{
    vstd::arithmetic::div_mod::lemma_mod_add_multiples_vanish(-1, len);
    vstd::arithmetic::div_mod::lemma_small_mod((len - 1) as nat, len as nat);
}

/// From a place on the selector, turning one way and then the other comes
/// back to it.
pub proof fn turns_undo_each_other(len: int, place: int)
    requires
        0 <= place < len,
    ensures
        turned(len, Some(turned(len, Some(place), CycleDir::Forward)), CycleDir::Back) == place,
        turned(len, Some(turned(len, Some(place), CycleDir::Back)), CycleDir::Forward) == place,
        0 <= turned(len, Some(place), CycleDir::Forward) < len,
        0 <= turned(len, Some(place), CycleDir::Back) < len,
{
    lemma_ring_inside(len, place);
    let up = turned(len, Some(place), CycleDir::Forward);
    let down = turned(len, Some(place), CycleDir::Back);
    lemma_ring_inside(len, up);
    lemma_ring_inside(len, down);
}

proof fn lemma_ring_inside(len: int, place: int)
    requires
        0 <= place < len,
    ensures
        ring(place, 1, len) == if place + 1 == len {
            0
        } else {
            place + 1
        },
        ring(place, -1, len) == if place == 0 {
            len - 1
        } else {
            place - 1
        },
{
    if place + 1 == len {
        assert((place + 1) % len == 0) by (nonlinear_arith)
            requires
                place + 1 == len,
                len > 0,
        ;
    } else {
        vstd::arithmetic::div_mod::lemma_small_mod((place + 1) as nat, len as nat);
    }
    if place == 0 {
        lemma_before_first(len);
    } else {
        vstd::arithmetic::div_mod::lemma_small_mod((place - 1) as nat, len as nat);
    }
}

/// The characters of each string slice.
pub open spec fn strs(v: Seq<&str>) -> Seq<Seq<char>> {
    Seq::new(v.len(), |i: int| v[i]@)
}

/// The place of an optional value in a list.
pub open spec fn opt_place<T>(s: Seq<T>, x: Option<T>) -> Option<int> {
    match x {
        Some(y) => place_of(s, y),
        None => None,
    }
}

/// The option after `current`, or before it. Where `current` is not an option,
/// the first one, or the last.
pub fn cycle_str_options<'a>(options: &[&'a str], current: Option<&str>, dir: CycleDir) -> (r:
    &'a str)
    requires
        options@.len() > 0,
    ensures
        r@ == strs(options@)[turned(
            options@.len() as int,
            opt_place(strs(options@), opt_str(current)),
            dir,
        )],
{
    let place: Option<usize> = match current {
        None => None,
        Some(c) => place_of_str(options, c),
    };
    proof {
        if place is Some {
            place_is_first(strs(options@), current->0@);
        }
    }
    options[turn(options.len(), place, dir)]
}

fn place_of_str(options: &[&str], x: &str) -> (r: Option<usize>)
    ensures
        match r {
            Some(i) => i < options@.len() && place_of(strs(options@), x@) == Some(i as int),
            None => place_of(strs(options@), x@) is None,
        },
{
    let mut i: usize = 0;
    while i < options.len()
        invariant
            i <= options@.len(),
            forall|k: int| 0 <= k < i ==> #[trigger] strs(options@)[k] != x@,
        decreases options@.len() - i,
    {
        if same(options[i], x) {
            proof {
                place_unique(strs(options@), x@, i as int);
            }
            return Some(i);
        }
        i += 1;
    }
    proof {
        place_is_first(strs(options@), x@);
    }
    None
}

/// The scheme after `current`, or before it. Where `current` is not among the
/// options, the first one, or the last.
pub fn cycle_enum_options(
    options: &[AuthScheme],
    current: Option<&AuthScheme>,
    dir: CycleDir,
) -> (r: AuthScheme)
    requires
        options@.len() > 0,
    ensures
        r == options@[turned(
            options@.len() as int,
            opt_place(options@, opt_auth(current)),
            dir,
        )],
{
    let place: Option<usize> = match current {
        None => None,
        Some(c) => place_of_scheme(options, *c),
    };
    options[turn(options.len(), place, dir)]
}

/// The first place of a scheme in a list.
pub fn place_of_scheme(options: &[AuthScheme], x: AuthScheme) -> (r: Option<usize>)
    ensures
        match r {
            Some(i) => i < options@.len() && place_of(options@, x) == Some(i as int),
            None => place_of(options@, x) is None,
        },
{
    let mut i: usize = 0;
    while i < options.len()
        invariant
            i <= options@.len(),
            forall|k: int| 0 <= k < i ==> #[trigger] options@[k] != x,
        decreases options@.len() - i,
    {
        if options[i] == x {
            proof {
                place_unique(options@, x, i as int);
            }
            return Some(i);
        }
        i += 1;
    }
    proof {
        place_is_first(options@, x);
    }
    None
}

/// The dialects the draft's protocol selector offers.
pub open spec fn protocol_choices() -> Seq<Seq<char>> {
    seq!["anthropic"@, "openai"@]
}

/// The dialects the draft's protocol selector offers.
pub fn protocol_options() -> (r: Vec<&'static str>)
    ensures
        strs(r@) == protocol_choices(),
{
    let r: Vec<&'static str> = vec!["anthropic", "openai"];
    proof {
        assert(strs(r@) =~= protocol_choices());
    }
    r
}

/// The protocol that the selector turns to.
pub open spec fn turned_protocol(s: SnapshotView, dir: CycleDir) -> Seq<char> {
    protocol_choices()[turned(
        2,
        opt_place(protocol_choices(), text_at(s, draft_path(AccountField::Protocol))),
        dir,
    )]
}

/// The scheme that the selector turns to.
pub open spec fn turned_auth(s: SnapshotView, dir: CycleDir) -> AuthScheme {
    auth_order()[turned(
        3,
        opt_place(auth_order(), auth_at(s, draft_path(AccountField::Auth))),
        dir,
    )]
}

fn next_protocol(data: &SettingsSnapshot, dir: CycleDir) -> (r: &'static str)
    ensures
        r@ == turned_protocol(data@, dir),
{
    let current: Option<String> = read_text(data, &field_state_path(AccountField::Protocol));
    let options: Vec<&'static str> = protocol_options();
    proof {
        assert(strs(options@).len() == 2);
    }
    cycle_str_options(
        options.as_slice(),
        match &current {
            Some(c) => Some(c.as_str()),
            None => None,
        },
        dir,
    )
}

/// Turns the draft's protocol selector.
pub fn cycle_compose_protocol(data: &SettingsSnapshot, dir: CycleDir) -> (r: Vec<Write>)
    ensures
        writes_view(r@) == seq![
            put_text(draft_path(AccountField::Protocol), turned_protocol(data@, dir)),
        ],
{
    let next: &str = next_protocol(data, dir);
    let mut out: Vec<Write> = Vec::new();
    out.push(write_text(field_state_path(AccountField::Protocol), next.to_owned()));
    proof {
        assert(writes_view(out@) =~= seq![
            put_text(draft_path(AccountField::Protocol), turned_protocol(data@, dir)),
        ]);
    }
    out
}

fn next_auth(data: &SettingsSnapshot, dir: CycleDir) -> (r: AuthScheme)
    ensures
        r == turned_auth(data@, dir),
{
    let current: Option<AuthScheme> = read_auth(data, &field_state_path(AccountField::Auth));
    let options: Vec<AuthScheme> = auth_schemes();
    cycle_enum_options(options.as_slice(), current.as_ref(), dir)
}

/// Turns the draft's authentication selector.
pub fn cycle_compose_auth(data: &SettingsSnapshot, dir: CycleDir) -> (r: Vec<Write>)
    ensures
        writes_view(r@) == seq![
            put_text(draft_path(AccountField::Auth), auth_text(turned_auth(data@, dir))),
        ],
{
    let next = next_auth(data, dir);
    let mut out: Vec<Write> = Vec::new();
    out.push(write_text(field_state_path(AccountField::Auth), auth_name(next).to_owned()));
    proof {
        assert(writes_view(out@) =~= seq![
            put_text(draft_path(AccountField::Auth), auth_text(turned_auth(data@, dir))),
        ]);
    }
    out
}

/// What is wrong with the draft once its selectors stand at `protocol` and
/// `auth`.
pub open spec fn errors_with_selectors(
    s: SnapshotView,
    protocol: Option<Seq<char>>,
    auth: Option<AuthScheme>,
) -> ErrorsView {
    draft_errors(
        text_or_empty(s, draft_path(AccountField::Name)),
        protocol,
        text_or_empty(s, draft_path(AccountField::Endpoint)),
        auth,
        text_or_empty(s, draft_path(AccountField::Key)),
        taken_names(s),
    )
}

fn errors_write(
    data: &SettingsSnapshot,
    protocol: Option<&str>,
    auth: Option<&AuthScheme>,
) -> (r: Write)
    ensures
        r@ == put(
            draft_part("errors"@),
            ValueView::Errors(errors_with_selectors(data@, opt_str(protocol), opt_auth(auth))),
        ),
{
    let name: String = read_text_or_empty(data, &field_state_path(AccountField::Name));
    let endpoint: String = read_text_or_empty(data, &field_state_path(AccountField::Endpoint));
    let key: String = read_text_or_empty(data, &field_state_path(AccountField::Key));
    let existing: Vec<String> = names_taken(data);
    let errors = validate_compose_draft(
        name.as_str(),
        protocol,
        endpoint.as_str(),
        auth,
        key.as_str(),
        existing.as_slice(),
    );
    write_at(path4("ui", "settings", "new_account", "errors"), StoreValue::Errors(errors))
}

/// The writes of turning the focused selector of the draft: what it turns to,
/// and what is wrong with the draft from then on.
pub open spec fn compose_cycle_writes(s: SnapshotView, dir: CycleDir) -> Seq<WriteView> {
    match focused_field(s) {
        AccountField::Protocol => seq![
            put_text(draft_path(AccountField::Protocol), turned_protocol(s, dir)),
            put(
                draft_part("errors"@),
                ValueView::Errors(
                    errors_with_selectors(
                        s,
                        Some(turned_protocol(s, dir)),
                        auth_at(s, draft_path(AccountField::Auth)),
                    ),
                ),
            ),
        ],
        AccountField::Auth => seq![
            put_text(draft_path(AccountField::Auth), auth_text(turned_auth(s, dir))),
            put(
                draft_part("errors"@),
                ValueView::Errors(
                    errors_with_selectors(
                        s,
                        text_at(s, draft_path(AccountField::Protocol)),
                        Some(turned_auth(s, dir)),
                    ),
                ),
            ),
        ],
        _ => Seq::empty(),
    }
}

/// Turns the focused selector of the draft. Nothing happens on a text field.
pub fn accounts_compose_cycle(data: &SettingsSnapshot, dir: CycleDir) -> (r: Vec<Write>)
    ensures
        writes_view(r@) == compose_cycle_writes(data@, dir),
{
    let none: Vec<Write> = Vec::new();
    proof {
        assert(writes_view(none@) =~= Seq::<WriteView>::empty());
    }
    let focused = read_focused_field(data);
    if field_kind(focused) != FieldKind::Selector {
        return none;
    }
    let mut out: Vec<Write> = none;
    match focused {
        AccountField::Protocol => {
            let auth: Option<AuthScheme> = read_auth(data, &field_state_path(AccountField::Auth));
            let errors = errors_write(data, Some(next_protocol(data, dir)), auth.as_ref());
            out = cycle_compose_protocol(data, dir);
            let ghost first = writes_view(out@);
            let ghost second = errors@;
            out.push(errors);
            proof {
                assert(writes_view(out@) =~= first.push(second));
            }
        },
        AccountField::Auth => {
            let protocol: Option<String> = read_text(
                data,
                &field_state_path(AccountField::Protocol),
            );
            let auth = next_auth(data, dir);
            let errors = errors_write(
                data,
                match &protocol {
                    Some(p) => Some(p.as_str()),
                    None => None,
                },
                Some(&auth),
            );
            out = cycle_compose_auth(data, dir);
            let ghost first = writes_view(out@);
            let ghost second = errors@;
            out.push(errors);
            proof {
                assert(writes_view(out@) =~= first.push(second));
            }
        },
        _ => {},
    }
    proof {
        assert(writes_view(out@) =~= compose_cycle_writes(data@, dir));
    }
    out
}

/// The version header a dialect pins.
pub open spec fn pinned_version(protocol: Seq<char>) -> Seq<char> {
    if protocol == "anthropic"@ {
        "2023-06-01"@
    } else {
        Seq::empty()
    }
}

/// The version header a dialect pins, or nothing.
pub fn protocol_default_version(protocol: &str) -> (r: String)
    ensures
        r@ == pinned_version(protocol@),
{
    if same(protocol, "anthropic") {
        "2023-06-01".to_owned()
    } else {
        let s: String = String::new();
        proof {
            assert(s@ =~= Seq::<char>::empty());
        }
        s
    }
}

/// Where the expanded rows are kept.
pub open spec fn expanded_path() -> Seq<Seq<char>> {
    seq!["ui"@, "settings"@, "expanded"@]
}

/// Where the focus is kept.
pub open spec fn focused_path() -> Seq<Seq<char>> {
    seq!["ui"@, "settings"@, "focused"@]
}

/// The expanded rows once a connection's row is among them, in dictionary
/// order.
pub open spec fn expanded_with(s: SnapshotView, id: Seq<char>) -> Seq<Seq<char>> {
    let kept = match texts_at(s, expanded_path()) {
        Some(t) => t,
        None => Seq::empty(),
    };
    with_text(
        with_text(sorted_texts(kept), "settings/accounts"@),
        "settings/accounts/"@ + id,
    )
}

/// The draft's name without white space round it.
pub open spec fn draft_name(s: SnapshotView) -> Seq<char> {
    trimmed(text_or_empty(s, draft_path(AccountField::Name)))
}

/// The draft's endpoint without white space round it.
pub open spec fn draft_endpoint(s: SnapshotView) -> Seq<char> {
    trimmed(text_or_empty(s, draft_path(AccountField::Endpoint)))
}

/// What is wrong with the draft at the moment it would be made real.
pub open spec fn commit_errors(s: SnapshotView) -> ErrorsView {
    draft_errors(
        draft_name(s),
        text_at(s, draft_path(AccountField::Protocol)),
        draft_endpoint(s),
        auth_at(s, draft_path(AccountField::Auth)),
        text_or_empty(s, draft_path(AccountField::Key)),
        taken_names(s),
    )
}

/// The writes that make the draft real under `id`: an account and a provider of
/// its own, the key where the scheme sends one, the focus on the new row, which
/// is expanded, and the draft cleared. None without a protocol or a scheme.
pub open spec fn commit_writes_under(s: SnapshotView, id: Seq<char>) -> Seq<WriteView> {
    match (
        text_at(s, draft_path(AccountField::Protocol)),
        auth_at(s, draft_path(AccountField::Auth)),
    ) {
        (Some(protocol), Some(auth)) => {
            let key = trimmed(text_or_empty(s, draft_path(AccountField::Key)));
            let records = seq![
                put(
                    seq!["config"@, "gate"@, "accounts"@, id],
                    ValueView::Account(
                        AccountView { provider: id, display_name: Some(draft_name(s)) },
                    ),
                ),
                put(
                    seq!["config"@, "gate"@, "providers"@, id],
                    ValueView::Provider(
                        ProviderView {
                            dialect: protocol,
                            endpoint: draft_endpoint(s),
                            version: pinned_version(protocol),
                            auth: Some(auth),
                        },
                    ),
                ),
            ];
            let secret = if auth.needs_key() {
                seq![put_text(seq!["secret"@, "keys"@, id], key)]
            } else {
                Seq::empty()
            };
            records + secret + seq![
                put_path(focused_path(), seq!["settings"@, "accounts"@, id]),
                put(expanded_path(), texts_value(expanded_with(s, id))),
                put_null(draft_root()),
            ]
        },
        _ => Seq::empty(),
    }
}

/// The writes that make the draft real, under the name it is stored under. None
/// where anything is wrong with the draft, or where that name may not stand in a
/// path.
pub open spec fn compose_commit_writes(s: SnapshotView) -> Seq<WriteView> {
    if commit_errors(s).clean() && component_ok(stored_id(draft_name(s))) {
        commit_writes_under(s, stored_id(draft_name(s)))
    } else {
        Seq::empty()
    }
}

fn expand_with(data: &SettingsSnapshot, id: &str) -> (r: Vec<String>)
    ensures
        texts(r@) == expanded_with(data@, id@),
{
    let kept: Vec<String> = match read_texts(data, &path3("ui", "settings", "expanded")) {
        Some(t) => t,
        None => {
            let t: Vec<String> = Vec::new();
            proof {
                assert(texts(t@) =~= Seq::<Seq<char>>::empty());
            }
            t
        },
    };
    let mut expanded: Vec<String> = sort_texts(&kept);
    insert_text(&mut expanded, "settings/accounts");
    let row: String = join2("settings/accounts/", id);
    insert_text(&mut expanded, row.as_str());
    expanded
}

/// Makes the draft real under `id`.
pub fn commit_draft_under(data: &SettingsSnapshot, id: &str) -> (r: Vec<Write>)
    requires
        component_ok(id@),
    ensures
        writes_view(r@) == commit_writes_under(data@, id@),
{
    let mut writes: Vec<Write> = Vec::new();
    proof {
        assert(writes_view(writes@) =~= Seq::<WriteView>::empty());
    }
    let protocol: String = match read_text(data, &field_state_path(AccountField::Protocol)) {
        Some(p) => p,
        None => {
            return writes;
        },
    };
    let auth: AuthScheme = match read_auth(data, &field_state_path(AccountField::Auth)) {
        Some(a) => a,
        None => {
            return writes;
        },
    };
    let display_name: String = trim(
        read_text_or_empty(data, &field_state_path(AccountField::Name)).as_str(),
    );
    let endpoint: String = trim(
        read_text_or_empty(data, &field_state_path(AccountField::Endpoint)).as_str(),
    );
    let acct = AccountConfig { provider: id.to_owned(), display_name: Some(display_name) };
    let version: String = protocol_default_version(protocol.as_str());
    let provider = ProviderConfig { dialect: protocol, endpoint, version, auth: Some(auth) };
    writes.push(write_at(path4("config", "gate", "accounts", id), StoreValue::Account(acct)));
    writes.push(
        write_at(path4("config", "gate", "providers", id), StoreValue::Provider(provider)),
    );
    if auth.requires_key() {
        let key: String = read_text_or_empty(data, &field_state_path(AccountField::Key));
        writes.push(write_text(path3("secret", "keys", id), trim(key.as_str())));
    }
    writes.push(
        write_at(
            path3("ui", "settings", "focused"),
            path_to_value(&path3("settings", "accounts", id)),
        ),
    );
    writes.push(
        write_at(path3("ui", "settings", "expanded"), texts_to_value(&expand_with(data, id))),
    );
    writes.push(null_write(path3("ui", "settings", "new_account")));
    proof {
        assert(writes_view(writes@) =~= commit_writes_under(data@, id@));
    }
    writes
}

/// Makes the draft real, where nothing is wrong with it. That succeeds under
/// every name but a lone underscore and those that already stand for another.
pub fn accounts_compose_commit(data: &SettingsSnapshot) -> (r: Vec<Write>)
    ensures
        writes_view(r@) == compose_commit_writes(data@),
        commit_errors(data@).clean() && draft_name(data@) != seq!['_'] && !stands_for_name(
            draft_name(data@),
        ) ==> r@.len() >= 5 && writes_view(r@) == commit_writes_under(
            data@,
            stored_id(draft_name(data@)),
        ),
{
    proof {
        trim_is_idempotent(text_or_empty(data@, draft_path(AccountField::Name)));
    }
    let display_name: String = trim(
        read_text_or_empty(data, &field_state_path(AccountField::Name)).as_str(),
    );
    let protocol: Option<String> = read_text(data, &field_state_path(AccountField::Protocol));
    let endpoint: String = trim(
        read_text_or_empty(data, &field_state_path(AccountField::Endpoint)).as_str(),
    );
    let auth: Option<AuthScheme> = read_auth(data, &field_state_path(AccountField::Auth));
    let key: String = read_text_or_empty(data, &field_state_path(AccountField::Key));
    let existing: Vec<String> = names_taken(data);
    let errors = validate_compose_draft(
        display_name.as_str(),
        match &protocol {
            Some(p) => Some(p.as_str()),
            None => None,
        },
        endpoint.as_str(),
        auth.as_ref(),
        key.as_str(),
        existing.as_slice(),
    );
    if errors.is_clean() {
        let path_id: String = id_for_name(display_name.as_str());
        if valid_component(path_id.as_str()) {
            let writes: Vec<Write> = commit_draft_under(data, path_id.as_str());
            proof {
                assert(writes_view(writes@).len() == writes@.len());
            }
            return writes;
        }
    }
    let none: Vec<Write> = Vec::new();
    proof {
        assert(writes_view(none@) =~= Seq::<WriteView>::empty());
    }
    none
}

/// Deleting undoes typing: where the store has taken over a typed character,
/// deleting back writes the text there was before it.
pub proof fn deleting_undoes_typing(s: SnapshotView, key: KeyChord, t: SnapshotView)
    requires
        typed_char(Some(key)) is Some,
        kind_of(focused_field(s)) == FieldKind::Text,
        focused_field(t) == focused_field(s),
        t.at(draft_path(focused_field(s))) == Some(compose_insert_writes(s, Some(key))[0].value),
    ensures
        compose_delete_writes(t)[0] == put_text(
            draft_path(focused_field(s)),
            text_or_empty(s, draft_path(focused_field(s))),
        ),
{
    let f = focused_field(s);
    let before = text_or_empty(s, draft_path(f));
    let c = typed_char(Some(key))->0;
    assert(compose_insert_writes(s, Some(key))[0] == put_text(draft_path(f), before.push(c)));
    assert(text_or_empty(t, draft_path(f)) == before.push(c));
    assert(before.push(c).drop_last() =~= before);
}

/// A connection made from a draft is stored under a name no connection had, and
/// is bound to a provider record stored under that same name, which no
/// connection was bound to: no other connection's record is written, nor shared.
pub proof fn new_connection_shares_nothing(s: SnapshotView)
    requires
        compose_commit_writes(s).len() > 0,
    ensures
        ({
            let id = stored_id(draft_name(s));
            let w = compose_commit_writes(s);
            &&& !s.children(accounts_root()).contains(id)
            &&& forall|n: Seq<char>|
                s.children(accounts_root()).contains(n) ==> #[trigger] bound_provider(s, n) != id
            &&& component_ok(id)
            &&& w[0].path == accounts_root().push(id)
            &&& w[0].value is Account
            &&& w[0].value->Account_0.provider == id
            &&& w[1].path == seq!["config"@, "gate"@, "providers"@, id]
            &&& w[1].value is Provider
        }),
{
    let id = stored_id(draft_name(s));
    trim_is_idempotent(text_or_empty(s, draft_path(AccountField::Name)));
    assert(seq!["config"@, "gate"@, "accounts"@, id] =~= accounts_root().push(id));
    let names = s.children(accounts_root());
    let taken = taken_names(s);
    assert(!taken.contains(id));
    if names.contains(id) {
        let k = choose|k: int| 0 <= k < names.len() && names[k] == id;
        assert(taken[k] == id);
    }
    assert forall|n: Seq<char>| names.contains(n) implies #[trigger] bound_provider(s, n) != id by {
        let k = choose|k: int| 0 <= k < names.len() && names[k] == n;
        assert(taken[names.len() + k] == bound_provider(s, n));
    }
}

/// A draft is made real all at once or not at all: whenever there is any
/// write, the account and the provider are written, the key is written exactly
/// when the scheme sends one, and the draft is cleared last.
pub proof fn commit_is_all_or_nothing(s: SnapshotView)
    ensures
        compose_commit_writes(s).len() == 0 || ({
            let w = compose_commit_writes(s);
            let auth = auth_at(s, draft_path(AccountField::Auth));
            &&& auth is Some
            &&& w.len() == (if auth->0.needs_key() {
                6
            } else {
                5int
            })
            &&& w[0].value is Account
            &&& w[1].value is Provider
            &&& auth->0.needs_key() ==> w[2].value is String
            &&& w.last() == put_null(draft_root())
        }),
{
}

proof fn lemma_draft_writes_stay_in_draft(s: SnapshotView, w: WriteView)
    requires
        w.path.len() == 4,
        w.path[0] == "ui"@,
    ensures
        taken_names(written(s, seq![w])) == taken_names(s),
{
    reveal_strlit("ui");
    reveal_strlit("config");
    assert("ui"@.len() == 2);
    assert("config"@.len() == 6);
    one_write_shows_at_its_path(s, w);
    let t = written(s, seq![w]);
    if leads(accounts_root(), w.path) {
        assert(w.path.subrange(0, 3)[0] == w.path[0]);
    }
    assert forall|n: Seq<char>| true implies #[trigger] bound_provider(t, n) == bound_provider(
        s,
        n,
    ) by {
        assert(account_place(n)[0] == "config"@);
        assert(account_child(n, "provider"@)[0] == "config"@);
    }
    assert(taken_names(t) =~= taken_names(s));
}

/// What is wrong with the draft as the store holds it.
pub open spec fn current_errors(s: SnapshotView) -> ErrorsView {
    errors_of_draft(s, AccountField::Name, None)
}

/// Writes that put something into one field of the draft, and then what is wrong
/// with it.
spec fn redrafts(s: SnapshotView, f: AccountField, value: ValueView, writes: Seq<WriteView>) -> bool {
    writes == seq![
        put(draft_path(f), value),
        put(
            draft_part("errors"@),
            ValueView::Errors(current_errors(written(s, seq![put(draft_path(f), value)]))),
        ),
    ]
}

proof fn lemma_redrafted_errors_are_current(
    s: SnapshotView,
    f: AccountField,
    value: ValueView,
    writes: Seq<WriteView>,
)
    requires
        redrafts(s, f, value, writes),
    ensures
        written(s, writes).at(draft_part("errors"@)) == Some(
            ValueView::Errors(current_errors(written(s, writes))),
        ),
{
    let t = written(s, seq![writes[0]]);
    two_writes_in_turn(s, writes[0], writes[1]);
    one_write_shows_at_its_path(t, writes[1]);
    lemma_draft_writes_stay_in_draft(t, writes[1]);
    lemma_draft_parts_differ();
    assert(draft_part("errors"@)[3] == "errors"@);
    assert forall|g: AccountField| true implies #[trigger] draft_path(g) != draft_part(
        "errors"@,
    ) by {
        assert(draft_path(g)[3] == field_text(g));
    }
}

proof fn lemma_draft_parts_differ()
    ensures
        forall|g: AccountField| #[trigger] field_text(g) != "errors"@,
        forall|f: AccountField, g: AccountField|
            f != g ==> #[trigger] draft_path(f) != #[trigger] draft_path(g),
{
    reveal_strlit("errors");
    reveal_strlit("name");
    reveal_strlit("protocol");
    reveal_strlit("endpoint");
    reveal_strlit("auth");
    reveal_strlit("key");
    assert("errors"@.len() == 6);
    assert forall|f: AccountField, g: AccountField| f != g implies #[trigger] draft_path(f)
        != #[trigger] draft_path(g) by {
        field_text_names_field(f);
        field_text_names_field(g);
        assert(draft_path(f)[3] == field_text(f));
        assert(draft_path(g)[3] == field_text(g));
    }
}

proof fn lemma_retyping_redrafts(s: SnapshotView, f: AccountField, text: Seq<char>)
    requires
        kind_of(f) == FieldKind::Text,
    ensures
        redrafts(s, f, ValueView::String(text), retyped(s, f, text)),
{
    let w = put_text(draft_path(f), text);
    let t = written(s, seq![w]);
    one_write_shows_at_its_path(s, w);
    lemma_draft_writes_stay_in_draft(s, w);
    lemma_draft_parts_differ();
    assert(current_errors(t) == errors_of_draft(s, f, Some(text)));
    assert(retyped(s, f, text) =~= seq![
        w,
        put(draft_part("errors"@), ValueView::Errors(current_errors(t))),
    ]);
}

proof fn lemma_turning_redrafts(s: SnapshotView, dir: CycleDir)
    requires
        kind_of(focused_field(s)) == FieldKind::Selector,
    ensures
        exists|value: ValueView| #[trigger]
            redrafts(s, focused_field(s), value, compose_cycle_writes(s, dir)),
{
    let f = focused_field(s);
    let text = if f == AccountField::Protocol {
        turned_protocol(s, dir)
    } else {
        auth_text(turned_auth(s, dir))
    };
    let w = put_text(draft_path(f), text);
    let t = written(s, seq![w]);
    one_write_shows_at_its_path(s, w);
    lemma_draft_writes_stay_in_draft(s, w);
    lemma_draft_parts_differ();
    auth_text_names_scheme(turned_auth(s, dir));
    let errors = if f == AccountField::Protocol {
        errors_with_selectors(s, Some(text), auth_at(s, draft_path(AccountField::Auth)))
    } else {
        errors_with_selectors(
            s,
            text_at(s, draft_path(AccountField::Protocol)),
            Some(turned_auth(s, dir)),
        )
    };
    assert(current_errors(t) == errors);
    assert(compose_cycle_writes(s, dir) =~= seq![
        w,
        put(draft_part("errors"@), ValueView::Errors(current_errors(t))),
    ]);
    assert(redrafts(s, f, ValueView::String(text), compose_cycle_writes(s, dir)));
}

/// Every keystroke that changes the draft keeps its errors current: once the
/// writes of typing, deleting or turning are in place, the stored errors are
/// what is wrong with the draft as it now stands.
pub proof fn errors_stay_current(s: SnapshotView, writes: Seq<WriteView>)
    requires
        writes.len() > 0,
        (exists|key: KeyChord| writes == #[trigger] compose_insert_writes(s, Some(key)))
            || writes == compose_delete_writes(s) || (exists|dir: CycleDir|
            writes == #[trigger] compose_cycle_writes(s, dir)),
    ensures
        written(s, writes).at(draft_part("errors"@)) == Some(
            ValueView::Errors(current_errors(written(s, writes))),
        ),
{
    let f = focused_field(s);
    let text = text_or_empty(s, draft_path(f));
    if exists|key: KeyChord| writes == #[trigger] compose_insert_writes(s, Some(key)) {
        let key = choose|key: KeyChord| writes == #[trigger] compose_insert_writes(s, Some(key));
        let more = text.push(typed_char(Some(key))->0);
        lemma_retyping_redrafts(s, f, more);
        lemma_redrafted_errors_are_current(s, f, ValueView::String(more), writes);
    } else if writes == compose_delete_writes(s) {
        lemma_retyping_redrafts(s, f, text.drop_last());
        lemma_redrafted_errors_are_current(s, f, ValueView::String(text.drop_last()), writes);
    } else {
        let dir = choose|dir: CycleDir| writes == #[trigger] compose_cycle_writes(s, dir);
        lemma_turning_redrafts(s, dir);
        let value = choose|value: ValueView| #[trigger]
            redrafts(s, f, value, compose_cycle_writes(s, dir));
        lemma_redrafted_errors_are_current(s, f, value, writes);
    }
}

/// A draft just opened cannot be made real: its errors are written with it.
pub proof fn open_draft_has_errors(s: SnapshotView)
    ensures
        compose_open_writes(s)[7].value is Errors,
        !(compose_open_writes(s)[7].value->Errors_0.clean()),
{
}

/// Where the form for a new connection takes the focus.
pub open spec fn compose_scope() -> Seq<Seq<char>> {
    seq!["settings"@, "_compose_form"@]
}

/// Whether a cursor is inside the form for a new connection.
pub fn cursor_is_in_compose_form(cursor: &Path) -> (r: bool)
    ensures
        r == leads(compose_scope(), cursor@),
{
    cursor.starts_with(&path2("settings", "_compose_form"))
}

} // verus!
