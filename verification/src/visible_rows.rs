//! The visible rows of the settings tree.

use crate::commands::compose::{
    account_names, accounts_root, field_label, field_order, field_state_subpath, label_text,
    FIELD_ORDER,
};
use crate::commands::selectors::{
    assembled_account, assembled_provider, read_account_assembling_flat,
    read_provider_assembling_flat,
};
use crate::commands::tree::{expanded_set, read_expanded_set};
use crate::path::{
    component_ok, continues_identifier, path3, path4, path5, path_text, valid_component,
    xid_continue, Path,
};
use crate::renderers::index::{auth_of_account, resolve_account_auth};
use crate::renderers::model_detail::{render_token_field, token_text};
use crate::renderers::util::{
    models_or_empty, read_models_or_empty, read_role, read_text, role_at, text_at,
};
use crate::snapshot::{SettingsSnapshot, SnapshotView};
use crate::text::{chars_of, contains_text, decimal, join2, join3, number_text, same, texts};
use crate::types::{
    auth_name, auth_text, field_text, models_view, opt_text, AccountField, BadgeSource, BadgeView,
    IndexEntryView, ModelField, ModelInfo, ModelView, SettingsIndexEntry,
};
use crate::value::{StoreValue, ValueView};
use vstd::prelude::*;
use vstd::string::*;

verus! {

/// What a row stands for.
#[derive(Clone, Debug, PartialEq, Eq)]
pub enum RowKind {
    Entry { entry_id: String },
    Account { name: String },
    AccountField { account: String, field: AccountField },
    Model { account: String, model_id: String },
    ModelField { account: String, model_id: String, field: ModelField },
}

/// What a `RowKind` holds.
pub enum KindView {
    Entry { entry_id: Seq<char> },
    Account { name: Seq<char> },
    AccountField { account: Seq<char>, field: AccountField },
    Model { account: Seq<char>, model_id: Seq<char> },
    ModelField { account: Seq<char>, model_id: Seq<char>, field: ModelField },
}

impl View for RowKind {
    type V = KindView;

    open spec fn view(&self) -> KindView {
        match self {
            RowKind::Entry { entry_id } => KindView::Entry { entry_id: entry_id@ },
            RowKind::Account { name } => KindView::Account { name: name@ },
            RowKind::AccountField { account, field } => KindView::AccountField {
                account: account@,
                field: *field,
            },
            RowKind::Model { account, model_id } => KindView::Model {
                account: account@,
                model_id: model_id@,
            },
            RowKind::ModelField { account, model_id, field } => KindView::ModelField {
                account: account@,
                model_id: model_id@,
                field: *field,
            },
        }
    }
}

/// One visible row.
#[derive(Clone, Debug, PartialEq, Eq)]
pub struct VisibleRow {
    pub path: Path,
    pub label: String,
    pub secondary: Option<String>,
    pub badge: Option<String>,
    pub depth: usize,
    pub expandable: bool,
    pub expanded: bool,
    pub kind: RowKind,
}

/// What a `VisibleRow` holds.
pub struct RowView {
    pub path: Seq<Seq<char>>,
    pub label: Seq<char>,
    pub secondary: Option<Seq<char>>,
    pub badge: Option<Seq<char>>,
    pub depth: nat,
    pub expandable: bool,
    pub expanded: bool,
    pub kind: KindView,
}

impl View for VisibleRow {
    type V = RowView;

    open spec fn view(&self) -> RowView {
        RowView {
            path: self.path@,
            label: self.label@,
            secondary: opt_text(self.secondary),
            badge: opt_text(self.badge),
            depth: self.depth as nat,
            expandable: self.expandable,
            expanded: self.expanded,
            kind: self.kind@,
        }
    }
}

/// What each row of a list holds.
pub open spec fn rows_view(v: Seq<VisibleRow>) -> Seq<RowView> {
    Seq::new(v.len(), |i: int| v[i]@)
}

/// The first row at a path.
pub open spec fn row_index(rows: Seq<RowView>, path: Seq<Seq<char>>) -> Option<int>
    decreases rows.len(),
{
    if rows.len() == 0 {
        None
    } else {
        match row_index(rows.drop_last(), path) {
            Some(i) => Some(i),
            None => if rows.last().path == path {
                Some(rows.len() - 1)
            } else {
                None
            },
        }
    }
}

/// The first row at a path, if there is one.
pub open spec fn row_at(rows: Seq<RowView>, path: Seq<Seq<char>>) -> Option<RowView> {
    match row_index(rows, path) {
        Some(i) => Some(rows[i]),
        None => None,
    }
}

/// `row_index` finds a row at the path, the first one, whenever there is one.
pub proof fn row_index_is_first(rows: Seq<RowView>, path: Seq<Seq<char>>)
    ensures
        row_index(rows, path) is Some ==> 0 <= row_index(rows, path)->0 < rows.len()
            && rows[row_index(rows, path)->0].path == path && (forall|j: int|
            0 <= j < row_index(rows, path)->0 ==> (#[trigger] rows[j]).path != path),
        row_index(rows, path) is None ==> (forall|j: int|
            0 <= j < rows.len() ==> (#[trigger] rows[j]).path != path),
    decreases rows.len(),
{
    if rows.len() > 0 {
        let t = rows.drop_last();
        row_index_is_first(t, path);
        if row_index(rows, path) is Some {
            let i = row_index(rows, path)->0;
            assert forall|j: int| 0 <= j < i implies (#[trigger] rows[j]).path != path by {
                assert(t[j] == rows[j]);
            }
        } else {
            assert forall|j: int| 0 <= j < rows.len() implies (#[trigger] rows[j]).path != path by {
                if j < t.len() {
                    assert(t[j] == rows[j]);
                }
            }
        }
    }
}

/// A first row at the path is the one `row_index` finds.
pub proof fn row_index_unique(rows: Seq<RowView>, path: Seq<Seq<char>>, i: int)
    requires
        0 <= i < rows.len(),
        rows[i].path == path,
        forall|j: int| 0 <= j < i ==> (#[trigger] rows[j]).path != path,
    ensures
        row_index(rows, path) == Some(i),
{
    row_index_is_first(rows, path);
    if row_index(rows, path) is Some {
        let k = row_index(rows, path)->0;
        if k < i {
            assert(rows[k].path != path);
        } else if i < k {
            assert(rows[i].path != path);
        }
    }
}

/// The first row at a path.
pub fn position_of(rows: &Vec<VisibleRow>, path: &Path) -> (r: Option<usize>)
    ensures
        match r {
            Some(i) => i < rows@.len() && row_index(rows_view(rows@), path@) == Some(i as int),
            None => row_index(rows_view(rows@), path@) is None,
        },
{
    let mut i: usize = 0;
    while i < rows.len()
        invariant
            i <= rows@.len(),
            forall|j: int| 0 <= j < i ==> (#[trigger] rows_view(rows@)[j]).path != path@,
        decreases rows@.len() - i,
    {
        if rows[i].path.same_as(path) {
            proof {
                row_index_unique(rows_view(rows@), path@, i as int);
            }
            return Some(i);
        }
        i += 1;
    }
    proof {
        row_index_is_first(rows_view(rows@), path@);
    }
    None
}

/// The text a path has in the set of expanded rows.
pub fn path_to_string(p: &Path) -> (r: String)
    ensures
        r@ == path_text(p@),
{
    p.to_text()
}

/// `s` with every character that cannot continue an identifier replaced by an
/// underscore.
pub open spec fn substituted(s: Seq<char>) -> Seq<char> {
    Seq::new(
        s.len(),
        |i: int|
            if xid_continue(s[i]) {
                s[i]
            } else {
                '_'
            },
    )
}

/// `s` as a path component: every character that cannot continue an identifier
/// is replaced by an underscore, and where that alone may not stand in a path,
/// an underscore goes in front.
pub open spec fn safe_text(s: Seq<char>) -> Seq<char> {
    let t = substituted(s);
    if component_ok(t) {
        t
    } else if t.len() == 0 {
        seq!['_', '_']
    } else {
        seq!['_'] + t
    }
}

/// `s` as a path component.
pub fn safe_component(s: &str) -> (r: String)
    ensures
        r@ == safe_text(s@),
        component_ok(r@),
{
    let cs: Vec<char> = chars_of(s);
    let mut out: String = String::new();
    let mut i: usize = 0;
    while i < cs.len()
        invariant
            i <= cs@.len(),
            out@.len() == i,
            forall|k: int| 0 <= k < i ==> out@[k] == (if xid_continue(cs@[k]) {
                cs@[k]
            } else {
                '_'
            }),
        decreases cs@.len() - i,
    {
        let ghost before = out@;
        if continues_identifier(cs[i]) {
            out.push(cs[i]);
        } else {
            out.push('_');
        }
        i += 1;
    }
    proof {
        assert(out@ =~= substituted(s@));
        safe_text_may_stand_in_a_path(s@);
    }
    if valid_component(out.as_str()) {
        out
    } else if cs.len() == 0 {
        let blank: String = "__".to_owned();
        proof {
            reveal_strlit("__");
            assert(blank@ =~= seq!['_', '_']);
        }
        blank
    } else {
        let led: String = join2("_", out.as_str());
        proof {
            reveal_strlit("_");
            assert(led@ =~= seq!['_'] + out@);
        }
        led
    }
}

/// Whatever the text, its safe form may stand in a path.
pub proof fn safe_text_may_stand_in_a_path(s: Seq<char>)
    ensures
        component_ok(safe_text(s)),
{
    let t = substituted(s);
    let r = safe_text(s);
    if !component_ok(t) {
        assert(r[0] == '_');
        assert forall|i: int| 1 <= i < r.len() implies xid_continue(#[trigger] r[i]) by {
            if t.len() > 0 {
                assert(r[i] == t[i - 1]);
            }
        }
    }
}

/// Whether the row at a path is expanded.
pub open spec fn is_open(s: SnapshotView, path: Seq<Seq<char>>) -> bool {
    expanded_set(s).contains(path_text(path))
}

fn row_open(data: &SettingsSnapshot, path: &Path) -> (r: bool)
    ensures
        r == is_open(data@, path@),
{
    let set: Vec<String> = read_expanded_set(data);
    let text: String = path_to_string(path);
    contains_text(set.as_slice(), text.as_str())
}

/// What stands where there is nothing to show.
pub open spec fn blank_mark() -> Seq<char> {
    "—"@
}

/// What an entry's badge reads.
pub open spec fn badge_text(s: SnapshotView, badge: BadgeView) -> Option<Seq<char>> {
    match badge {
        BadgeView::Blank => None,
        BadgeView::SubtreeCount(p) => Some(decimal(s.children(p).len())),
        BadgeView::BootstrapReference => match role_at(
            s,
            seq!["config"@, "gate"@, "completions"@, "bootstrap"@],
        ) {
            Some(role) => Some(role.account + " / "@ + role.model_id),
            None => None,
        },
    }
}

fn read_badge(data: &SettingsSnapshot, badge: &BadgeSource) -> (r: Option<String>)
    ensures
        opt_text(r) == badge_text(data@, badge@),
{
    match badge {
        BadgeSource::Blank => None,
        BadgeSource::SubtreeCount(p) => {
            let names: Vec<String> = data.child_names(p);
            proof {
                assert(texts(names@).len() == names@.len());
            }
            Some(number_text(names.len() as u64))
        },
        BadgeSource::BootstrapReference => match read_role(
            data,
            &path4("config", "gate", "completions", "bootstrap"),
        ) {
            Some(role) => Some(join3(role.account.as_str(), " / ", role.model_id.as_str())),
            None => None,
        },
    }
}

/// What a connection is called on screen: its display name, or else the name it
/// is stored under.
pub open spec fn shown_name(s: SnapshotView, name: Seq<char>) -> Seq<char> {
    match assembled_account(s, name) {
        Some(a) => match a.display_name {
            Some(d) => d,
            None => name,
        },
        None => name,
    }
}

fn name_shown(data: &SettingsSnapshot, name: &str) -> (r: String)
    ensures
        r@ == shown_name(data@, name@),
{
    match read_account_assembling_flat(data, name) {
        Some(a) => match a.display_name {
            Some(d) => d,
            None => name.to_owned(),
        },
        None => name.to_owned(),
    }
}

/// What a connection's field reads. The protocol is the provider it is bound
/// to; a key is never spelled out.
pub open spec fn shown_field(s: SnapshotView, name: Seq<char>, f: AccountField) -> Seq<char> {
    match f {
        AccountField::Name => shown_name(s, name),
        AccountField::Protocol => match assembled_account(s, name) {
            Some(a) => a.provider,
            None => blank_mark(),
        },
        AccountField::Endpoint => match assembled_account(s, name) {
            Some(a) => match assembled_provider(s, a.provider) {
                Some(p) => p.endpoint,
                None => blank_mark(),
            },
            None => blank_mark(),
        },
        AccountField::Auth => match auth_of_account(s, name) {
            Some(a) => auth_text(a),
            None => blank_mark(),
        },
        AccountField::Key => match text_at(s, seq!["secret"@, "keys"@, name]) {
            Some(k) => if k.len() > 0 {
                "••••"@
            } else {
                blank_mark()
            },
            None => blank_mark(),
        },
    }
}

fn field_shown(data: &SettingsSnapshot, name: &str, f: AccountField) -> (r: String)
    ensures
        r@ == shown_field(data@, name@, f),
{
    match f {
        AccountField::Name => name_shown(data, name),
        AccountField::Protocol => match read_account_assembling_flat(data, name) {
            Some(a) => a.provider,
            None => "—".to_owned(),
        },
        AccountField::Endpoint => match read_account_assembling_flat(data, name) {
            Some(a) => match read_provider_assembling_flat(data, a.provider.as_str()) {
                Some(p) => p.endpoint,
                None => "—".to_owned(),
            },
            None => "—".to_owned(),
        },
        AccountField::Auth => match resolve_account_auth(data, name) {
            Some(a) => auth_name(a).to_owned(),
            None => "—".to_owned(),
        },
        AccountField::Key => match read_text(data, &path3("secret", "keys", name)) {
            Some(k) => if chars_of(k.as_str()).len() > 0 {
                "••••".to_owned()
            } else {
                "—".to_owned()
            },
            None => "—".to_owned(),
        },
    }
}

/// The row of an index entry.
pub open spec fn entry_row(s: SnapshotView, e: IndexEntryView) -> RowView {
    RowView {
        path: e.target_cursor,
        label: e.label,
        secondary: None,
        badge: badge_text(s, e.badge),
        depth: 0,
        expandable: true,
        expanded: is_open(s, e.target_cursor),
        kind: KindView::Entry { entry_id: e.id },
    }
}

/// The path of a connection's row.
pub open spec fn account_row_path(name: Seq<char>) -> Seq<Seq<char>> {
    seq!["settings"@, "accounts"@, name]
}

/// The row of a connection.
pub open spec fn account_row(s: SnapshotView, name: Seq<char>) -> RowView {
    RowView {
        path: account_row_path(name),
        label: shown_name(s, name),
        secondary: None,
        badge: None,
        depth: 1,
        expandable: true,
        expanded: is_open(s, account_row_path(name)),
        kind: KindView::Account { name },
    }
}

/// The row of a connection's field.
pub open spec fn account_field_row(s: SnapshotView, name: Seq<char>, f: AccountField) -> RowView {
    RowView {
        path: seq!["settings"@, "accounts"@, name, field_text(f)],
        label: label_text(f) + ": "@ + shown_field(s, name, f),
        secondary: None,
        badge: None,
        depth: 2,
        expandable: false,
        expanded: false,
        kind: KindView::AccountField { account: name, field: f },
    }
}

/// A connection's row, followed by its fields' where it is expanded.
pub open spec fn account_rows(s: SnapshotView, name: Seq<char>) -> Seq<RowView> {
    seq![account_row(s, name)] + if is_open(s, account_row_path(name)) {
        Seq::new(5, |i: int| account_field_row(s, name, field_order()[i]))
    } else {
        Seq::empty()
    }
}

/// The rows of those connections whose names may stand in a path.
pub open spec fn accounts_rows(s: SnapshotView, names: Seq<Seq<char>>) -> Seq<RowView>
    decreases names.len(),
{
    if names.len() == 0 {
        Seq::empty()
    } else {
        let rest = accounts_rows(s, names.drop_last());
        if component_ok(names.last()) {
            rest + account_rows(s, names.last())
        } else {
            rest
        }
    }
}

/// The path of a model's row.
pub open spec fn model_row_path(account: Seq<char>, id: Seq<char>) -> Seq<Seq<char>> {
    seq!["settings"@, "models"@, account, safe_text(id)]
}

/// The row of a model.
pub open spec fn model_row(s: SnapshotView, account: Seq<char>, m: ModelView) -> RowView {
    RowView {
        path: model_row_path(account, m.id),
        label: account + " / "@ + m.display_name,
        secondary: None,
        badge: None,
        depth: 1,
        expandable: true,
        expanded: is_open(s, model_row_path(account, m.id)),
        kind: KindView::Model { account, model_id: m.id },
    }
}

/// What a model's field is called, in its row and in the row's path.
pub open spec fn model_field_text(f: ModelField) -> Seq<char> {
    match f {
        ModelField::ContextSizeOverride => "max_context_size"@,
        ModelField::OutputTokensOverride => "max_output_tokens"@,
    }
}

/// What a model's field is called.
pub fn model_field_name(f: ModelField) -> (r: &'static str)
    ensures
        r@ == model_field_text(f),
{
    match f {
        ModelField::ContextSizeOverride => "max_context_size",
        ModelField::OutputTokensOverride => "max_output_tokens",
    }
}

/// The row of a model's field.
pub open spec fn model_figure_row(account: Seq<char>, m: ModelView, f: ModelField) -> RowView {
    let figure = match f {
        ModelField::ContextSizeOverride => m.max_context_size,
        ModelField::OutputTokensOverride => m.max_output_tokens,
    };
    RowView {
        path: seq!["settings"@, "models"@, account, safe_text(m.id), model_field_text(f)],
        label: model_field_text(f) + ": "@ + token_text(figure),
        secondary: None,
        badge: None,
        depth: 2,
        expandable: false,
        expanded: false,
        kind: KindView::ModelField { account, model_id: m.id, field: f },
    }
}

/// A model's row, followed by its fields' where it is expanded.
pub open spec fn model_rows(s: SnapshotView, account: Seq<char>, m: ModelView) -> Seq<RowView> {
    seq![model_row(s, account, m)] + if is_open(s, model_row_path(account, m.id)) {
        seq![
            model_figure_row(account, m, ModelField::ContextSizeOverride),
            model_figure_row(account, m, ModelField::OutputTokensOverride),
        ]
    } else {
        Seq::empty()
    }
}

/// The rows of an account's models.
pub open spec fn catalog_rows(
    s: SnapshotView,
    account: Seq<char>,
    models: Seq<ModelView>,
) -> Seq<RowView>
    decreases models.len(),
{
    if models.len() == 0 {
        Seq::empty()
    } else {
        catalog_rows(s, account, models.drop_last()) + model_rows(s, account, models.last())
    }
}

/// The rows of the models of those accounts whose names may stand in a path.
pub open spec fn models_rows(s: SnapshotView, names: Seq<Seq<char>>) -> Seq<RowView>
    decreases names.len(),
{
    if names.len() == 0 {
        Seq::empty()
    } else {
        let rest = models_rows(s, names.drop_last());
        let account = names.last();
        if component_ok(account) {
            rest + catalog_rows(
                s,
                account,
                models_or_empty(s, seq!["config"@, "gate"@, "accounts"@, account, "models"@]),
            )
        } else {
            rest
        }
    }
}

/// An entry's row, followed by what lies below it where it is expanded.
pub open spec fn section_rows(s: SnapshotView, e: IndexEntryView) -> Seq<RowView> {
    seq![entry_row(s, e)] + if !is_open(s, e.target_cursor) {
        Seq::empty()
    } else if e.id == "accounts"@ {
        accounts_rows(s, s.children(accounts_root()))
    } else if e.id == "models"@ {
        models_rows(s, s.children(accounts_root()))
    } else {
        Seq::empty()
    }
}

/// Where the entries of the index are kept.
pub open spec fn entries_root() -> Seq<Seq<char>> {
    seq!["settings"@, "index"@, "entries"@]
}

/// The rows of the entries with the given names.
pub open spec fn entries_rows(s: SnapshotView, names: Seq<Seq<char>>) -> Seq<RowView>
    decreases names.len(),
{
    if names.len() == 0 {
        Seq::empty()
    } else {
        let rest = entries_rows(s, names.drop_last());
        match s.at(entries_root().push(names.last())) {
            Some(ValueView::IndexEntry(e)) => rest + section_rows(s, e),
            _ => rest,
        }
    }
}

/// The visible rows: each entry of the index, in order, and below it what it
/// has been expanded to show.
pub open spec fn visible(s: SnapshotView) -> Seq<RowView> {
    entries_rows(s, s.children(entries_root()))
}

fn push_account_rows(data: &SettingsSnapshot, name: &str, out: &mut Vec<VisibleRow>)
    ensures
        rows_view(final(out)@) == rows_view(old(out)@) + account_rows(data@, name@),
{
    let ghost before = rows_view(out@);
    let path = path3("settings", "accounts", name);
    let expanded: bool = row_open(data, &path);
    out.push(
        VisibleRow {
            path,
            label: name_shown(data, name),
            secondary: None,
            badge: None,
            depth: 1,
            expandable: true,
            expanded,
            kind: RowKind::Account { name: name.to_owned() },
        },
    );
    let ghost head = rows_view(out@);
    proof {
        assert(head =~= before.push(account_row(data@, name@)));
    }
    if expanded {
        let mut i: usize = 0;
        while i < 5
            invariant
                i <= 5,
                rows_view(out@) == head + Seq::new(
                    i as nat,
                    |k: int| account_field_row(data@, name@, field_order()[k]),
                ),
            decreases 5 - i,
        {
            let f = FIELD_ORDER[i];
            proof {
                assert(FIELD_ORDER@ =~= field_order());
            }
            let ghost so_far = rows_view(out@);
            let text: String = field_shown(data, name, f);
            out.push(
                VisibleRow {
                    path: path4("settings", "accounts", name, field_state_subpath(f)),
                    label: join3(field_label(f), ": ", text.as_str()),
                    secondary: None,
                    badge: None,
                    depth: 2,
                    expandable: false,
                    expanded: false,
                    kind: RowKind::AccountField { account: name.to_owned(), field: f },
                },
            );
            proof {
                assert(rows_view(out@) =~= so_far.push(account_field_row(data@, name@, f)));
                assert(rows_view(out@) =~= head + Seq::new(
                    (i + 1) as nat,
                    |k: int| account_field_row(data@, name@, field_order()[k]),
                ));
            }
            i += 1;
        }
    }
    proof {
        assert(rows_view(out@) =~= before + account_rows(data@, name@));
    }
}

fn push_figure_row(
    account: &str,
    m: &ModelInfo,
    f: ModelField,
    out: &mut Vec<VisibleRow>,
)
    ensures
        rows_view(final(out)@) == rows_view(old(out)@).push(model_figure_row(account@, m@, f)),
{
    let ghost before = rows_view(out@);
    let figure: Option<u32> = match f {
        ModelField::ContextSizeOverride => m.max_context_size,
        ModelField::OutputTokensOverride => m.max_output_tokens,
    };
    let text: String = render_token_field(figure);
    let id: String = safe_component(m.id.as_str());
    out.push(
        VisibleRow {
            path: path5("settings", "models", account, id.as_str(), model_field_name(f)),
            label: join3(model_field_name(f), ": ", text.as_str()),
            secondary: None,
            badge: None,
            depth: 2,
            expandable: false,
            expanded: false,
            kind: RowKind::ModelField {
                account: account.to_owned(),
                model_id: m.id.clone(),
                field: f,
            },
        },
    );
    proof {
        assert(rows_view(out@) =~= before.push(model_figure_row(account@, m@, f)));
    }
}

fn push_model_rows(
    data: &SettingsSnapshot,
    account: &str,
    m: &ModelInfo,
    out: &mut Vec<VisibleRow>,
)
    ensures
        rows_view(final(out)@) == rows_view(old(out)@) + model_rows(data@, account@, m@),
{
    let ghost before = rows_view(out@);
    let id: String = safe_component(m.id.as_str());
    let path = path4("settings", "models", account, id.as_str());
    let expanded: bool = row_open(data, &path);
    out.push(
        VisibleRow {
            path,
            label: join3(account, " / ", m.display_name.as_str()),
            secondary: None,
            badge: None,
            depth: 1,
            expandable: true,
            expanded,
            kind: RowKind::Model { account: account.to_owned(), model_id: m.id.clone() },
        },
    );
    proof {
        assert(rows_view(out@) =~= before.push(model_row(data@, account@, m@)));
    }
    if expanded {
        push_figure_row(account, m, ModelField::ContextSizeOverride, out);
        push_figure_row(account, m, ModelField::OutputTokensOverride, out);
    }
    proof {
        assert(rows_view(out@) =~= before + model_rows(data@, account@, m@));
    }
}

fn push_catalog_rows(
    data: &SettingsSnapshot,
    account: &str,
    models: &Vec<ModelInfo>,
    out: &mut Vec<VisibleRow>,
)
    ensures
        rows_view(final(out)@) == rows_view(old(out)@) + catalog_rows(
            data@,
            account@,
            models_view(models@),
        ),
{
    let ghost before = rows_view(out@);
    let ghost all = models_view(models@);
    let mut i: usize = 0;
    proof {
        assert(before + catalog_rows(data@, account@, all.take(0)) =~= before);
    }
    while i < models.len()
        invariant
            i <= models@.len(),
            all == models_view(models@),
            rows_view(out@) == before + catalog_rows(data@, account@, all.take(i as int)),
        decreases models@.len() - i,
    {
        let ghost so_far = rows_view(out@);
        push_model_rows(data, account, &models[i], out);
        proof {
            let t = all.take(i + 1);
            assert(t.drop_last() =~= all.take(i as int));
            assert(t.last() == models@[i as int]@);
            assert(rows_view(out@) =~= before + catalog_rows(data@, account@, t));
        }
        i += 1;
    }
    proof {
        assert(all.take(i as int) =~= all);
    }
}

fn push_accounts_rows(data: &SettingsSnapshot, names: &Vec<String>, out: &mut Vec<VisibleRow>)
    ensures
        rows_view(final(out)@) == rows_view(old(out)@) + accounts_rows(data@, texts(names@)),
{
    let ghost before = rows_view(out@);
    let ghost all = texts(names@);
    let mut i: usize = 0;
    proof {
        assert(before + accounts_rows(data@, all.take(0)) =~= before);
    }
    while i < names.len()
        invariant
            i <= names@.len(),
            all == texts(names@),
            rows_view(out@) == before + accounts_rows(data@, all.take(i as int)),
        decreases names@.len() - i,
    {
        proof {
            let t = all.take(i + 1);
            assert(t.drop_last() =~= all.take(i as int));
            assert(t.last() == names@[i as int]@);
        }
        if valid_component(names[i].as_str()) {
            push_account_rows(data, names[i].as_str(), out);
        }
        proof {
            assert(rows_view(out@) =~= before + accounts_rows(data@, all.take(i + 1)));
        }
        i += 1;
    }
    proof {
        assert(all.take(i as int) =~= all);
    }
}

fn push_models_rows(data: &SettingsSnapshot, names: &Vec<String>, out: &mut Vec<VisibleRow>)
    ensures
        rows_view(final(out)@) == rows_view(old(out)@) + models_rows(data@, texts(names@)),
{
    let ghost before = rows_view(out@);
    let ghost all = texts(names@);
    let mut i: usize = 0;
    proof {
        assert(before + models_rows(data@, all.take(0)) =~= before);
    }
    while i < names.len()
        invariant
            i <= names@.len(),
            all == texts(names@),
            rows_view(out@) == before + models_rows(data@, all.take(i as int)),
        decreases names@.len() - i,
    {
        proof {
            let t = all.take(i + 1);
            assert(t.drop_last() =~= all.take(i as int));
            assert(t.last() == names@[i as int]@);
        }
        if valid_component(names[i].as_str()) {
            let models: Vec<ModelInfo> = read_models_or_empty(
                data,
                &path5("config", "gate", "accounts", names[i].as_str(), "models"),
            );
            push_catalog_rows(data, names[i].as_str(), &models, out);
        }
        proof {
            assert(rows_view(out@) =~= before + models_rows(data@, all.take(i + 1)));
        }
        i += 1;
    }
    proof {
        assert(all.take(i as int) =~= all);
    }
}

fn push_section_rows(data: &SettingsSnapshot, e: &SettingsIndexEntry, out: &mut Vec<VisibleRow>)
    ensures
        rows_view(final(out)@) == rows_view(old(out)@) + section_rows(data@, e@),
{
    let ghost before = rows_view(out@);
    let expanded: bool = row_open(data, &e.target_cursor);
    out.push(
        VisibleRow {
            path: e.target_cursor.copied(),
            label: e.label.clone(),
            secondary: None,
            badge: read_badge(data, &e.badge),
            depth: 0,
            expandable: true,
            expanded,
            kind: RowKind::Entry { entry_id: e.id.clone() },
        },
    );
    proof {
        assert(rows_view(out@) =~= before.push(entry_row(data@, e@)));
    }
    if expanded {
        let names: Vec<String> = account_names(data);
        if same(e.id.as_str(), "accounts") {
            push_accounts_rows(data, &names, out);
        } else if same(e.id.as_str(), "models") {
            push_models_rows(data, &names, out);
        }
    }
    proof {
        assert(rows_view(out@) =~= before + section_rows(data@, e@));
    }
}

/// The visible rows.
pub fn enumerate(data: &SettingsSnapshot) -> (r: Vec<VisibleRow>)
    ensures
        rows_view(r@) == visible(data@),
{
    let root = path3("settings", "index", "entries");
    let names: Vec<String> = data.child_names(&root);
    let ghost all = texts(names@);
    let mut out: Vec<VisibleRow> = Vec::new();
    let mut i: usize = 0;
    proof {
        assert(rows_view(out@) =~= entries_rows(data@, all.take(0)));
    }
    while i < names.len()
        invariant
            i <= names@.len(),
            all == texts(names@),
            all == data@.children(entries_root()),
            root@ == entries_root(),
            rows_view(out@) == entries_rows(data@, all.take(i as int)),
        decreases names@.len() - i,
    {
        proof {
            let t = all.take(i + 1);
            assert(t.drop_last() =~= all.take(i as int));
            assert(t.last() == names@[i as int]@);
        }
        match data.read(&root.child(names[i].as_str())) {
            Some(StoreValue::IndexEntry(e)) => {
                push_section_rows(data, e, &mut out);
            },
            _ => {},
        }
        i += 1;
    }
    proof {
        assert(all.take(i as int) =~= all);
    }
    out
}

/// The first row at a path.
pub fn row_at_path(data: &SettingsSnapshot, path: &Path) -> (r: Option<VisibleRow>)
    ensures
        r is Some <==> row_at(visible(data@), path@) is Some,
        r is Some ==> r->0@ == row_at(visible(data@), path@)->0,
{
    let mut rows: Vec<VisibleRow> = enumerate(data);
    match position_of(&rows, path) {
        Some(i) => {
            proof {
                assert(rows_view(rows@)[i as int] == rows@[i as int]@);
            }
            Some(rows.remove(i))
        },
        None => None,
    }
}

proof fn lemma_entries_lead(s: SnapshotView, names: Seq<Seq<char>>)
    ensures
        entries_rows(s, names).len() > 0 ==> entries_rows(s, names)[0].depth == 0,
        expanded_set(s).len() == 0 ==> (forall|i: int|
            0 <= i < entries_rows(s, names).len() ==> (#[trigger] entries_rows(s, names)[i]).depth
                == 0),
    decreases names.len(),
{
    if names.len() > 0 {
        let rest = entries_rows(s, names.drop_last());
        lemma_entries_lead(s, names.drop_last());
        match s.at(entries_root().push(names.last())) {
            Some(ValueView::IndexEntry(e)) => {
                let section = section_rows(s, e);
                assert(section[0] == entry_row(s, e));
                let all = rest + section;
                if rest.len() > 0 {
                    assert(all[0] == rest[0]);
                } else {
                    assert(all[0] == section[0]);
                }
                if expanded_set(s).len() == 0 {
                    assert(!is_open(s, e.target_cursor));
                    assert forall|i: int| 0 <= i < all.len() implies (#[trigger] all[i]).depth
                        == 0 by {
                        if i < rest.len() {
                            assert(all[i] == rest[i]);
                        } else {
                            assert(all[i] == section[i - rest.len()]);
                        }
                    }
                }
            },
            _ => {},
        }
    }
}

/// The topmost visible row is an entry of the index.
pub proof fn first_row_is_top_level(s: SnapshotView)
    ensures
        visible(s).len() > 0 ==> visible(s)[0].depth == 0,
{
    lemma_entries_lead(s, s.children(entries_root()));
}

/// With nothing expanded, no nested row is visible.
pub proof fn nothing_expanded_hides_nested_rows(s: SnapshotView)
    requires
        expanded_set(s).len() == 0,
    ensures
        forall|i: int| 0 <= i < visible(s).len() ==> (#[trigger] visible(s)[i]).depth == 0,
{
    lemma_entries_lead(s, s.children(entries_root()));
}

/// An expanded connection shows all its fields, in order, right below its row.
pub proof fn expanded_account_shows_fields(s: SnapshotView, name: Seq<char>)
    requires
        is_open(s, account_row_path(name)),
    ensures
        account_rows(s, name).len() == 6,
        account_rows(s, name)[0] == account_row(s, name),
        forall|i: int|
            0 <= i < 5 ==> #[trigger] account_rows(s, name)[i + 1] == account_field_row(
                s,
                name,
                field_order()[i],
            ),
{
}

/// A text that may stand in a path is its own safe form, as long as its first
/// character may also stand inside an identifier. The safe form of any text
/// keeps every letter, digit and underscore of it, in order, and has an
/// underscore in the place of everything else, and perhaps one in front; that of
/// the empty text is two underscores.
pub proof fn safe_text_keeps_what_is_safe(s: Seq<char>, i: int)
    ensures
        component_ok(s) && xid_continue(s[0]) ==> safe_text(s) == s,
        s.len() == 0 ==> safe_text(s) == seq!['_', '_'],
        0 <= i < s.len() ==> ({
            let t = safe_text(s);
            let lead = t.len() - s.len();
            &&& 0 <= lead <= 1
            &&& lead == 1 ==> t[0] == '_'
            &&& xid_continue(s[i]) ==> t[lead + i] == s[i]
            &&& !xid_continue(s[i]) ==> t[lead + i] == '_'
        }),
{
    if component_ok(s) && xid_continue(s[0]) {
        assert forall|k: int| 0 <= k < s.len() implies xid_continue(#[trigger] s[k]) by {
            if crate::path::numeric(s) {
                assert(crate::text::ascii_digit(s[k]));
            }
        }
        assert(substituted(s) =~= s);
    }
}

} // verus!
