//! The form for a new connection, as the index shows it.

use crate::assoc::place_of;
use crate::keys::opt_path;
use crate::path::{leads, path4, Path};
use crate::renderers::index::{or_first, scheme_names, scheme_options};
use crate::renderers::overlay_new_account::{cursor_after, text_cursor};
use crate::renderers::util::{
    auth_at, path_at, read_auth, read_text, read_text_or_empty, text_at, text_or_empty,
};
use crate::snapshot::{SettingsSnapshot, SnapshotView};
use crate::text::place_of_text;
use crate::types::{
    auth_order, auth_schemes, field_named, field_of, no_errors, opt_text, AccountField, AuthScheme,
    ErrorsView,
};
use crate::value::{StoreValue, ValueView};
use crate::view::{
    form_rows_view, FormLayout, FormLayoutView, FormRow, FormRowView, FormValue, FormValueView,
};
use vstd::prelude::*;
use vstd::string::*;

use super::account_model::focused_path;
use super::compose::{
    compose_scope, cursor_is_in_compose_form, draft_part, draft_path, field_index, field_label,
    field_order, field_place, field_state_path, focused_path as focus_place, label_text,
    place_of_scheme, FIELD_ORDER,
};
use super::selectors::{dialects, resolve_protocol_options};

verus! {

/// What a field of the form lets the user see or change: texts as typed so far,
/// the key masked, and selectors once something is selected.
pub open spec fn compose_value(s: SnapshotView, f: AccountField) -> FormValueView {
    match f {
        AccountField::Protocol => match text_at(s, draft_path(f)) {
            Some(p) => FormValueView::Selector {
                options: dialects(p),
                current: or_first(place_of(dialects(p), p)) as nat,
            },
            None => FormValueView::ReadOnly("—"@),
        },
        AccountField::Auth => match auth_at(s, draft_path(f)) {
            Some(a) => FormValueView::Selector {
                options: scheme_names(),
                current: or_first(place_of(auth_order(), a)) as nat,
            },
            None => FormValueView::ReadOnly("—"@),
        },
        _ => {
            let text = text_or_empty(s, draft_path(f));
            FormValueView::Text {
                value: text,
                cursor: cursor_after(text.len()),
                masked: f == AccountField::Key,
            }
        },
    }
}

/// The stored errors of the draft.
pub open spec fn stored_errors(s: SnapshotView) -> ErrorsView {
    match s.at(draft_part("errors"@)) {
        Some(ValueView::Errors(e)) => e,
        _ => no_errors(),
    }
}

/// The form row for a field.
pub open spec fn compose_row(s: SnapshotView, f: AccountField) -> FormRowView {
    FormRowView {
        label: label_text(f),
        value: compose_value(s, f),
        error: stored_errors(s).on(f),
        hint: None,
    }
}

/// The field that a cursor inside the form is at.
pub open spec fn field_of_cursor(cursor: Option<Seq<Seq<char>>>) -> Option<AccountField> {
    match cursor {
        Some(c) => if c.len() == 3 && leads(compose_scope(), c) {
            field_of(c[2])
        } else {
            None
        },
        None => None,
    }
}

/// The form: a row for each field, in order, the one at the cursor focused.
pub open spec fn compose_form(s: SnapshotView) -> FormLayoutView {
    FormLayoutView {
        rows: Seq::new(5, |i: int| compose_row(s, field_order()[i])),
        focused: match field_of_cursor(path_at(s, focus_place())) {
            Some(f) => Some(field_place(f)),
            None => None,
        },
    }
}

fn read_compose_value(data: &SettingsSnapshot, f: AccountField) -> (r: FormValue)
    ensures
        r@ == compose_value(data@, f),
{
    match f {
        AccountField::Protocol => match read_text(data, &field_state_path(f)) {
            Some(p) => {
                let options: Vec<String> = resolve_protocol_options(data, p.as_str());
                let current: usize = match place_of_text(options.as_slice(), p.as_str()) {
                    Some(i) => i,
                    None => 0,
                };
                FormValue::Selector { options, current }
            },
            None => FormValue::ReadOnly("—".to_owned()),
        },
        AccountField::Auth => match read_auth(data, &field_state_path(f)) {
            Some(a) => {
                let schemes: Vec<AuthScheme> = auth_schemes();
                let current: usize = match place_of_scheme(schemes.as_slice(), a) {
                    Some(i) => i,
                    None => 0,
                };
                FormValue::Selector { options: scheme_options(), current }
            },
            None => FormValue::ReadOnly("—".to_owned()),
        },
        _ => {
            let value: String = read_text_or_empty(data, &field_state_path(f));
            let cursor: u32 = text_cursor(value.as_str());
            FormValue::Text { value, cursor, masked: f == AccountField::Key }
        },
    }
}

fn read_stored_error(data: &SettingsSnapshot, f: AccountField) -> (r: Option<String>)
    ensures
        opt_text(r) == stored_errors(data@).on(f),
{
    match data.read(&path4("ui", "settings", "new_account", "errors")) {
        Some(StoreValue::Errors(e)) => e.on(f),
        _ => None,
    }
}

fn cursor_field(cursor: &Option<Path>) -> (r: Option<AccountField>)
    ensures
        r == field_of_cursor(opt_path(*cursor)),
{
    match cursor {
        Some(c) => if c.components.len() == 3 && cursor_is_in_compose_form(c) {
            field_named(c.components[2].as_str())
        } else {
            None
        },
        None => None,
    }
}

/// The form for a new connection.
pub fn compose_form_view(data: &SettingsSnapshot) -> (r: FormLayout)
    ensures
        r@ == compose_form(data@),
{
    let mut rows: Vec<FormRow> = Vec::new();
    let mut i: usize = 0;
    while i < 5
        invariant
            i <= 5,
            rows@.len() == i,
            forall|k: int|
                0 <= k < i ==> (#[trigger] rows@[k])@ == compose_row(data@, field_order()[k]),
        decreases 5 - i,
    {
        let f = FIELD_ORDER[i];
        proof {
            assert(FIELD_ORDER@ =~= field_order());
        }
        rows.push(
            FormRow {
                label: field_label(f).to_owned(),
                value: read_compose_value(data, f),
                error: read_stored_error(data, f),
                hint: None,
            },
        );
        i += 1;
    }
    let cursor: Option<Path> = focused_path(data);
    let focused: Option<usize> = match cursor_field(&cursor) {
        Some(f) => Some(field_index(f)),
        None => None,
    };
    proof {
        assert(form_rows_view(rows@) =~= compose_form(data@).rows);
    }
    FormLayout { rows, focused }
}

} // verus!
