//! Typed reads. Each is total: a missing value, or one of another shape, reads
//! as `None`.

use crate::path::{path_ok, spelled_path, Path};
use crate::snapshot::{SettingsSnapshot, SnapshotView};
use crate::text::texts;
use crate::types::{
    auth_named, auth_of, field_named, field_of, keys_view, models_view, opt_key, opt_text,
    stage_named, stage_of, AccountConfig, AccountField, AccountTestStatus, AccountView, AuthScheme,
    CatalogRefreshStatus, CompletionRole, ErrorsView, ManualModelStage, ModelField, ModelInfo,
    ModelKey, ModelKeyView, ModelView, ProviderConfig, ProviderView, RefreshStatusView, RoleView,
    TestStatusView, ValidationErrors,
};
use crate::value::{array_view, texts_from_value, value_texts, values_view, StoreValue, ValueView};
use vstd::prelude::*;
use vstd::string::*;

verus! {

/// The text at a path.
pub open spec fn text_at(s: SnapshotView, p: Seq<Seq<char>>) -> Option<Seq<char>> {
    match s.at(p) {
        Some(ValueView::String(t)) => Some(t),
        _ => None,
    }
}

/// The text at a path, or the empty text.
pub open spec fn text_or_empty(s: SnapshotView, p: Seq<Seq<char>>) -> Seq<char> {
    match text_at(s, p) {
        Some(t) => t,
        None => Seq::empty(),
    }
}

/// The list of texts at a path.
pub open spec fn texts_at(s: SnapshotView, p: Seq<Seq<char>>) -> Option<Seq<Seq<char>>> {
    match s.at(p) {
        Some(v) => value_texts(v),
        None => None,
    }
}

/// The path a value stands for.
pub open spec fn value_path(v: ValueView) -> Option<Seq<Seq<char>>> {
    match value_texts(v) {
        Some(t) => if path_ok(t) {
            Some(t)
        } else {
            None
        },
        None => None,
    }
}

/// The path stored at a path.
pub open spec fn path_at(s: SnapshotView, p: Seq<Seq<char>>) -> Option<Seq<Seq<char>>> {
    match s.at(p) {
        Some(v) => value_path(v),
        None => None,
    }
}

/// The truth value at a path.
pub open spec fn bool_at(s: SnapshotView, p: Seq<Seq<char>>) -> Option<bool> {
    match s.at(p) {
        Some(ValueView::Bool(b)) => Some(b),
        _ => None,
    }
}

/// The natural number at a path, up to `limit`.
pub open spec fn number_at(s: SnapshotView, p: Seq<Seq<char>>, limit: int) -> Option<int> {
    match s.at(p) {
        Some(ValueView::Integer(n)) => if 0 <= n <= limit {
            Some(n)
        } else {
            None
        },
        _ => None,
    }
}

/// The account record at a path.
pub open spec fn account_at(s: SnapshotView, p: Seq<Seq<char>>) -> Option<AccountView> {
    match s.at(p) {
        Some(ValueView::Account(a)) => Some(a),
        _ => None,
    }
}

/// The provider record at a path.
pub open spec fn provider_at(s: SnapshotView, p: Seq<Seq<char>>) -> Option<ProviderView> {
    match s.at(p) {
        Some(ValueView::Provider(a)) => Some(a),
        _ => None,
    }
}

/// The completion role at a path.
pub open spec fn role_at(s: SnapshotView, p: Seq<Seq<char>>) -> Option<RoleView> {
    match s.at(p) {
        Some(ValueView::Role(a)) => Some(a),
        _ => None,
    }
}

/// The model key at a path.
pub open spec fn key_at(s: SnapshotView, p: Seq<Seq<char>>) -> Option<ModelKeyView> {
    match s.at(p) {
        Some(ValueView::ModelKey(k)) => Some(k),
        _ => None,
    }
}

/// The models a list value holds.
pub open spec fn value_models(v: ValueView) -> Option<Seq<ModelView>> {
    match v {
        ValueView::Array(a) => if forall|i: int| 0 <= i < a.len() ==> (#[trigger] a[i]) is Model {
            Some(Seq::new(a.len(), |i: int| a[i]->Model_0))
        } else {
            None
        },
        _ => None,
    }
}

/// The value that stands for a catalog.
pub open spec fn models_value(m: Seq<ModelView>) -> ValueView {
    ValueView::Array(Seq::new(m.len(), |i: int| ValueView::Model(m[i])))
}

/// The catalog at a path.
pub open spec fn models_at(s: SnapshotView, p: Seq<Seq<char>>) -> Option<Seq<ModelView>> {
    match s.at(p) {
        Some(v) => value_models(v),
        None => None,
    }
}

/// The catalog at a path, or an empty one.
pub open spec fn models_or_empty(s: SnapshotView, p: Seq<Seq<char>>) -> Seq<ModelView> {
    match models_at(s, p) {
        Some(m) => m,
        None => Seq::empty(),
    }
}

/// The model keys a list value holds.
pub open spec fn value_keys(v: ValueView) -> Option<Seq<ModelKeyView>> {
    match v {
        ValueView::Array(a) => if forall|i: int|
            0 <= i < a.len() ==> (#[trigger] a[i]) is ModelKey {
            Some(Seq::new(a.len(), |i: int| a[i]->ModelKey_0))
        } else {
            None
        },
        _ => None,
    }
}

/// The value that stands for a list of model keys.
pub open spec fn keys_value(k: Seq<ModelKeyView>) -> ValueView {
    ValueView::Array(Seq::new(k.len(), |i: int| ValueView::ModelKey(k[i])))
}

/// The list of model keys at a path, or an empty one.
pub open spec fn keys_or_empty(s: SnapshotView, p: Seq<Seq<char>>) -> Seq<ModelKeyView> {
    match s.at(p) {
        Some(v) => match value_keys(v) {
            Some(k) => k,
            None => Seq::empty(),
        },
        None => Seq::empty(),
    }
}

/// The authentication scheme at a path.
pub open spec fn auth_at(s: SnapshotView, p: Seq<Seq<char>>) -> Option<AuthScheme> {
    match text_at(s, p) {
        Some(t) => auth_of(t),
        None => None,
    }
}

/// The connection field at a path.
pub open spec fn field_at(s: SnapshotView, p: Seq<Seq<char>>) -> Option<AccountField> {
    match text_at(s, p) {
        Some(t) => field_of(t),
        None => None,
    }
}

/// The stage of entering a model at a path.
pub open spec fn stage_at(s: SnapshotView, p: Seq<Seq<char>>) -> Option<ManualModelStage> {
    match text_at(s, p) {
        Some(t) => stage_of(t),
        None => None,
    }
}

/// The model field at a path.
pub open spec fn model_field_at(s: SnapshotView, p: Seq<Seq<char>>) -> Option<ModelField> {
    match s.at(p) {
        Some(ValueView::ModelField(f)) => Some(f),
        _ => None,
    }
}

/// The connection-test status at a path.
pub open spec fn test_status_at(s: SnapshotView, p: Seq<Seq<char>>) -> Option<TestStatusView> {
    match s.at(p) {
        Some(ValueView::TestStatus(t)) => Some(t),
        _ => None,
    }
}

/// The refresh status at a path.
pub open spec fn refresh_status_at(s: SnapshotView, p: Seq<Seq<char>>) -> Option<
    RefreshStatusView,
> {
    match s.at(p) {
        Some(ValueView::RefreshStatus(t)) => Some(t),
        _ => None,
    }
}

/// The field errors of the diagnostics at a path.
pub open spec fn diagnostics_at(s: SnapshotView, p: Seq<Seq<char>>) -> Option<ErrorsView> {
    match s.at(p) {
        Some(ValueView::Diagnostics(_, e)) => Some(e),
        _ => None,
    }
}

/// The text at a path.
pub fn read_text(data: &SettingsSnapshot, path: &Path) -> (r: Option<String>)
    ensures
        opt_text(r) == text_at(data@, path@),
{
    match data.read(path) {
        Some(StoreValue::String(s)) => Some(s.clone()),
        _ => None,
    }
}

/// The text at a path, or the empty text.
pub fn read_text_or_empty(data: &SettingsSnapshot, path: &Path) -> (r: String)
    ensures
        r@ == text_or_empty(data@, path@),
{
    match read_text(data, path) {
        Some(s) => s,
        None => {
            let s: String = String::new();
            proof {
                assert(s@ =~= Seq::<char>::empty());
            }
            s
        },
    }
}

/// The list of texts at a path.
pub fn read_texts(data: &SettingsSnapshot, path: &Path) -> (r: Option<Vec<String>>)
    ensures
        r is Some <==> texts_at(data@, path@) is Some,
        r is Some ==> texts(r->0@) == texts_at(data@, path@)->0,
{
    match data.read(path) {
        Some(v) => texts_from_value(v),
        None => None,
    }
}

/// The truth value at a path.
pub fn read_bool(data: &SettingsSnapshot, path: &Path) -> (r: Option<bool>)
    ensures
        r == bool_at(data@, path@),
{
    match data.read(path) {
        Some(StoreValue::Bool(b)) => Some(*b),
        _ => None,
    }
}

/// The index at a path.
pub fn read_usize(data: &SettingsSnapshot, path: &Path) -> (r: Option<usize>)
    ensures
        r is Some <==> number_at(data@, path@, usize::MAX as int) is Some,
        r is Some ==> r->0 == number_at(data@, path@, usize::MAX as int)->0,
{
    match data.read(path) {
        Some(StoreValue::Integer(n)) => {
            if *n >= 0 && (*n as u64) <= usize::MAX as u64 {
                Some(*n as usize)
            } else {
                None
            }
        },
        _ => None,
    }
}

/// The `u32` at a path.
pub fn read_u32(data: &SettingsSnapshot, path: &Path) -> (r: Option<u32>)
    ensures
        r is Some <==> number_at(data@, path@, u32::MAX as int) is Some,
        r is Some ==> r->0 == number_at(data@, path@, u32::MAX as int)->0,
{
    match data.read(path) {
        Some(StoreValue::Integer(n)) => {
            if *n >= 0 && *n <= u32::MAX as i64 {
                Some(*n as u32)
            } else {
                None
            }
        },
        _ => None,
    }
}

/// The account record at a path.
pub fn read_account(data: &SettingsSnapshot, path: &Path) -> (r: Option<AccountConfig>)
    ensures
        r is Some <==> account_at(data@, path@) is Some,
        r is Some ==> r->0@ == account_at(data@, path@)->0,
{
    match data.read(path) {
        Some(StoreValue::Account(a)) => Some(a.copied()),
        _ => None,
    }
}

/// The provider record at a path.
pub fn read_provider(data: &SettingsSnapshot, path: &Path) -> (r: Option<ProviderConfig>)
    ensures
        r is Some <==> provider_at(data@, path@) is Some,
        r is Some ==> r->0@ == provider_at(data@, path@)->0,
{
    match data.read(path) {
        Some(StoreValue::Provider(p)) => Some(p.copied()),
        _ => None,
    }
}

/// The completion role at a path.
pub fn read_role(data: &SettingsSnapshot, path: &Path) -> (r: Option<CompletionRole>)
    ensures
        r is Some <==> role_at(data@, path@) is Some,
        r is Some ==> r->0@ == role_at(data@, path@)->0,
{
    match data.read(path) {
        Some(StoreValue::Role(a)) => Some(
            CompletionRole { account: a.account.clone(), model_id: a.model_id.clone() },
        ),
        _ => None,
    }
}

/// The model key at a path.
pub fn read_key(data: &SettingsSnapshot, path: &Path) -> (r: Option<ModelKey>)
    ensures
        opt_key(r) == key_at(data@, path@),
{
    match data.read(path) {
        Some(StoreValue::ModelKey(k)) => Some(k.copied()),
        _ => None,
    }
}

/// The catalog at a path.
pub fn read_models(data: &SettingsSnapshot, path: &Path) -> (r: Option<Vec<ModelInfo>>)
    ensures
        r is Some <==> models_at(data@, path@) is Some,
        r is Some ==> models_view(r->0@) == models_at(data@, path@)->0,
{
    match data.read(path) {
        Some(StoreValue::Array(items)) => {
            let ghost seen = values_view(items@);
            proof {
                array_view(*items);
            }
            let mut out: Vec<ModelInfo> = Vec::new();
            let mut i: usize = 0;
            while i < items.len()
                invariant
                    i <= items@.len(),
                    seen == values_view(items@),
                    data@.at(path@) == Some(ValueView::Array(seen)),
                    out@.len() == i,
                    forall|k: int| 0 <= k < i ==> #[trigger] seen[k] == ValueView::Model(out@[k]@),
                decreases items@.len() - i,
            {
                match &items[i] {
                    StoreValue::Model(m) => {
                        out.push(m.copied());
                    },
                    _ => {
                        proof {
                            assert(!(seen[i as int] is Model));
                        }
                        return None;
                    },
                }
                i += 1;
            }
            proof {
                assert(models_view(out@) =~= value_models(ValueView::Array(seen))->0);
            }
            Some(out)
        },
        _ => None,
    }
}

/// The catalog at a path, or an empty one.
pub fn read_models_or_empty(data: &SettingsSnapshot, path: &Path) -> (r: Vec<ModelInfo>)
    ensures
        models_view(r@) == models_or_empty(data@, path@),
{
    match read_models(data, path) {
        Some(m) => m,
        None => {
            let m: Vec<ModelInfo> = Vec::new();
            proof {
                assert(models_view(m@) =~= Seq::<ModelView>::empty());
            }
            m
        },
    }
}

/// The value that stands for a catalog.
pub fn models_to_value(models: &Vec<ModelInfo>) -> (r: StoreValue)
    ensures
        r@ == models_value(models_view(models@)),
{
    let mut out: Vec<StoreValue> = Vec::new();
    let mut i: usize = 0;
    while i < models.len()
        invariant
            i <= models@.len(),
            out@.len() == i,
            forall|k: int| 0 <= k < i ==> (#[trigger] out@[k])@ == ValueView::Model(models@[k]@),
        decreases models@.len() - i,
    {
        out.push(StoreValue::Model(models[i].copied()));
        i += 1;
    }
    proof {
        array_view(out);
        assert(values_view(out@) =~= models_value(models_view(models@))->Array_0);
    }
    StoreValue::Array(out)
}

/// A catalog comes back from the value that stands for it.
pub proof fn models_value_round_trip(m: Seq<ModelView>)
    ensures
        value_models(models_value(m)) == Some(m),
{
    let a = models_value(m)->Array_0;
    assert(forall|i: int| 0 <= i < a.len() ==> (#[trigger] a[i]) is Model);
    assert(value_models(models_value(m))->0 =~= m);
}

/// The list of model keys at a path, or an empty one.
pub fn read_keys_or_empty(data: &SettingsSnapshot, path: &Path) -> (r: Vec<ModelKey>)
    ensures
        keys_view(r@) == keys_or_empty(data@, path@),
{
    let none: Vec<ModelKey> = Vec::new();
    proof {
        assert(keys_view(none@) =~= Seq::<ModelKeyView>::empty());
    }
    match data.read(path) {
        Some(StoreValue::Array(items)) => {
            let ghost seen = values_view(items@);
            proof {
                array_view(*items);
            }
            let mut out: Vec<ModelKey> = Vec::new();
            let mut i: usize = 0;
            while i < items.len()
                invariant
                    i <= items@.len(),
                    seen == values_view(items@),
                    data@.at(path@) == Some(ValueView::Array(seen)),
                    out@.len() == i,
                    keys_view(none@) == Seq::<ModelKeyView>::empty(),
                    forall|k: int|
                        0 <= k < i ==> #[trigger] seen[k] == ValueView::ModelKey(out@[k]@),
                decreases items@.len() - i,
            {
                match &items[i] {
                    StoreValue::ModelKey(m) => {
                        out.push(m.copied());
                    },
                    _ => {
                        proof {
                            assert(!(seen[i as int] is ModelKey));
                        }
                        return none;
                    },
                }
                i += 1;
            }
            proof {
                assert(keys_view(out@) =~= value_keys(ValueView::Array(seen))->0);
            }
            out
        },
        _ => none,
    }
}

/// The value that stands for a list of model keys.
pub fn keys_to_value(keys: &Vec<ModelKey>) -> (r: StoreValue)
    ensures
        r@ == keys_value(keys_view(keys@)),
{
    let mut out: Vec<StoreValue> = Vec::new();
    let mut i: usize = 0;
    while i < keys.len()
        invariant
            i <= keys@.len(),
            out@.len() == i,
            forall|k: int| 0 <= k < i ==> (#[trigger] out@[k])@ == ValueView::ModelKey(keys@[k]@),
        decreases keys@.len() - i,
    {
        out.push(StoreValue::ModelKey(keys[i].copied()));
        i += 1;
    }
    proof {
        array_view(out);
        assert(values_view(out@) =~= keys_value(keys_view(keys@))->Array_0);
    }
    StoreValue::Array(out)
}

/// A list of model keys comes back from the value that stands for it.
pub proof fn keys_value_round_trip(k: Seq<ModelKeyView>)
    ensures
        value_keys(keys_value(k)) == Some(k),
{
    let a = keys_value(k)->Array_0;
    assert(forall|i: int| 0 <= i < a.len() ==> (#[trigger] a[i]) is ModelKey);
    assert(value_keys(keys_value(k))->0 =~= k);
}

/// The authentication scheme at a path.
pub fn read_auth(data: &SettingsSnapshot, path: &Path) -> (r: Option<AuthScheme>)
    ensures
        r == auth_at(data@, path@),
{
    match read_text(data, path) {
        Some(t) => auth_named(t.as_str()),
        None => None,
    }
}

/// The connection field at a path.
pub fn read_field(data: &SettingsSnapshot, path: &Path) -> (r: Option<AccountField>)
    ensures
        r == field_at(data@, path@),
{
    match read_text(data, path) {
        Some(t) => field_named(t.as_str()),
        None => None,
    }
}

/// The stage of entering a model at a path.
pub fn read_stage(data: &SettingsSnapshot, path: &Path) -> (r: Option<ManualModelStage>)
    ensures
        r == stage_at(data@, path@),
{
    match read_text(data, path) {
        Some(t) => stage_named(t.as_str()),
        None => None,
    }
}

/// The model field at a path.
pub fn read_model_field(data: &SettingsSnapshot, path: &Path) -> (r: Option<ModelField>)
    ensures
        r == model_field_at(data@, path@),
{
    match data.read(path) {
        Some(StoreValue::ModelField(f)) => Some(*f),
        _ => None,
    }
}

/// The connection-test status at a path, or `Idle`.
pub fn read_test_status(data: &SettingsSnapshot, path: &Path) -> (r: AccountTestStatus)
    ensures
        r@ == match test_status_at(data@, path@) {
            Some(t) => t,
            None => TestStatusView::Idle,
        },
{
    match data.read(path) {
        Some(StoreValue::TestStatus(t)) => match t {
            AccountTestStatus::Idle => AccountTestStatus::Idle,
            AccountTestStatus::Testing { started_at_ms } => AccountTestStatus::Testing {
                started_at_ms: *started_at_ms,
            },
            AccountTestStatus::Success { dialect, latency_ms, completed_at_ms } =>
                AccountTestStatus::Success {
                dialect: dialect.clone(),
                latency_ms: *latency_ms,
                completed_at_ms: *completed_at_ms,
            },
            AccountTestStatus::Failed { reason, completed_at_ms } => AccountTestStatus::Failed {
                reason: reason.clone(),
                completed_at_ms: *completed_at_ms,
            },
        },
        _ => AccountTestStatus::Idle,
    }
}

/// The refresh status at a path.
pub fn read_refresh_status(data: &SettingsSnapshot, path: &Path) -> (r: Option<
    CatalogRefreshStatus,
>)
    ensures
        r is Some <==> refresh_status_at(data@, path@) is Some,
        r is Some ==> r->0@ == refresh_status_at(data@, path@)->0,
{
    match data.read(path) {
        Some(StoreValue::RefreshStatus(t)) => Some(
            match t {
                CatalogRefreshStatus::Idle => CatalogRefreshStatus::Idle,
                CatalogRefreshStatus::Refreshing {
                    started_at_ms,
                } => CatalogRefreshStatus::Refreshing { started_at_ms: *started_at_ms },
                CatalogRefreshStatus::Success { models_added, models_updated, completed_at_ms } =>
                    CatalogRefreshStatus::Success {
                    models_added: *models_added,
                    models_updated: *models_updated,
                    completed_at_ms: *completed_at_ms,
                },
                CatalogRefreshStatus::Failed {
                    reason,
                    completed_at_ms,
                } => CatalogRefreshStatus::Failed {
                    reason: reason.clone(),
                    completed_at_ms: *completed_at_ms,
                },
            },
        ),
        _ => None,
    }
}

/// The field errors of the diagnostics at a path.
pub fn read_diagnostics(data: &SettingsSnapshot, path: &Path) -> (r: Option<ValidationErrors>)
    ensures
        r is Some <==> diagnostics_at(data@, path@) is Some,
        r is Some ==> r->0@ == diagnostics_at(data@, path@)->0,
{
    match data.read(path) {
        Some(StoreValue::Diagnostics(d)) => Some(
            ValidationErrors {
                name: d.field_errors.on(AccountField::Name),
                protocol: d.field_errors.on(AccountField::Protocol),
                endpoint: d.field_errors.on(AccountField::Endpoint),
                auth: d.field_errors.on(AccountField::Auth),
                key: d.field_errors.on(AccountField::Key),
            },
        ),
        _ => None,
    }
}

/// The children of the path that `prefix` spells; none where it spells no
/// path.
pub open spec fn names_under(s: SnapshotView, prefix: Seq<char>) -> Seq<Seq<char>> {
    match spelled_path(prefix) {
        Some(p) => s.children(p),
        None => Seq::empty(),
    }
}

/// The names of the immediate children at `prefix_str`, in dictionary order.
pub fn child_names_under(data: &SettingsSnapshot, prefix_str: &str) -> (r: Vec<String>)
    ensures
        texts(r@) == names_under(data@, prefix_str@),
{
    match Path::parse(prefix_str) {
        Some(p) => data.child_names(&p),
        None => {
            let none: Vec<String> = Vec::new();
            proof {
                assert(texts(none@) =~= Seq::<Seq<char>>::empty());
            }
            none
        },
    }
}

/// How many immediate children lie at `prefix_str`.
pub fn subtree_count(data: &SettingsSnapshot, prefix_str: &str) -> (r: usize)
    ensures
        r == names_under(data@, prefix_str@).len(),
{
    child_names_under(data, prefix_str).len()
}

/// What is read at a path is what is stored there, and nothing where something
/// of another kind is stored.
pub proof fn readers_read_what_is_stored(s: SnapshotView, p: Seq<Seq<char>>, t: Seq<char>)
    ensures
        text_at(s, p) == Some(t) <==> s.at(p) == Some(ValueView::String(t)),
        text_or_empty(s, p) == t <==> s.at(p) == Some(ValueView::String(t)) || (t.len() == 0 && (
        s.at(p) is None || !(s.at(p)->0 is String))),
        bool_at(s, p) == Some(true) <==> s.at(p) == Some(ValueView::Bool(true)),
        bool_at(s, p) == Some(false) <==> s.at(p) == Some(ValueView::Bool(false)),
        key_at(s, p) is Some <==> s.at(p) is Some && s.at(p)->0 is ModelKey,
        key_at(s, p) is Some ==> s.at(p) == Some(ValueView::ModelKey(key_at(s, p)->0)),
        account_at(s, p) is Some <==> s.at(p) is Some && s.at(p)->0 is Account,
        account_at(s, p) is Some ==> s.at(p) == Some(ValueView::Account(account_at(s, p)->0)),
        provider_at(s, p) is Some <==> s.at(p) is Some && s.at(p)->0 is Provider,
        provider_at(s, p) is Some ==> s.at(p) == Some(ValueView::Provider(provider_at(s, p)->0)),
        role_at(s, p) is Some <==> s.at(p) is Some && s.at(p)->0 is Role,
        role_at(s, p) is Some ==> s.at(p) == Some(ValueView::Role(role_at(s, p)->0)),
        model_field_at(s, p) is Some <==> s.at(p) is Some && s.at(p)->0 is ModelField,
        model_field_at(s, p) is Some ==> s.at(p) == Some(ValueView::ModelField(model_field_at(s, p)->0)),
{
    if s.at(p) is Some && s.at(p)->0 is String && s.at(p)->0->String_0.len() == 0 {
        assert(s.at(p)->0->String_0 =~= Seq::<char>::empty());
    }
    if t.len() == 0 {
        assert(t =~= Seq::<char>::empty());
    }
}

/// Schemes and fields are stored by their names.
pub proof fn schemes_and_fields_are_stored_by_name(s: SnapshotView, p: Seq<Seq<char>>)
    ensures
        auth_at(s, p) == Some(AuthScheme::XApiKey) <==> text_at(s, p) == Some("x-api-key"@),
        auth_at(s, p) == Some(AuthScheme::BearerToken) <==> text_at(s, p) == Some("bearer-token"@),
        auth_at(s, p) == Some(AuthScheme::NoAuth) <==> text_at(s, p) == Some("none"@),
        field_at(s, p) == Some(AccountField::Name) <==> text_at(s, p) == Some("name"@),
        field_at(s, p) == Some(AccountField::Protocol) <==> text_at(s, p) == Some("protocol"@),
        field_at(s, p) == Some(AccountField::Endpoint) <==> text_at(s, p) == Some("endpoint"@),
        field_at(s, p) == Some(AccountField::Auth) <==> text_at(s, p) == Some("auth"@),
        field_at(s, p) == Some(AccountField::Key) <==> text_at(s, p) == Some("key"@),
        stage_at(s, p) == Some(ManualModelStage::Id) <==> text_at(s, p) == Some("Id"@),
        stage_at(s, p) == Some(ManualModelStage::Ctx) <==> text_at(s, p) == Some("Ctx"@),
        stage_at(s, p) == Some(ManualModelStage::Out) <==> text_at(s, p) == Some("Out"@),
{
    crate::types::auth_text_names_scheme(AuthScheme::XApiKey);
    crate::types::auth_text_names_scheme(AuthScheme::BearerToken);
    crate::types::auth_text_names_scheme(AuthScheme::NoAuth);
    crate::types::field_text_names_field(AccountField::Name);
    crate::types::field_text_names_field(AccountField::Protocol);
    crate::types::field_text_names_field(AccountField::Endpoint);
    crate::types::field_text_names_field(AccountField::Auth);
    crate::types::field_text_names_field(AccountField::Key);
    crate::types::stage_text_names_stage(ManualModelStage::Id);
    crate::types::stage_text_names_stage(ManualModelStage::Ctx);
    crate::types::stage_text_names_stage(ManualModelStage::Out);
}

/// The children at a path's text are the children of the path; a text that
/// spells no path has none.
pub proof fn children_are_found_by_text(s: SnapshotView, p: Seq<Seq<char>>)
    requires
        crate::path::path_ok(p),
    ensures
        names_under(s, crate::path::path_text(p)) == s.children(p),
        names_under(s, seq!['-']).len() == 0,
{
    crate::path::path_text_spells_path(p);
    crate::path::slashes_only_part(seq!['-'], Seq::empty());
    crate::path::identifiers_and_numbers_may_stand_in_a_path(seq!['-'], 0);
    let d = crate::path::path_segments(seq!['-']);
    assert(d[0] == seq!['-']);
    assert(!crate::path::component_ok(d[0]));
}

} // verus!
