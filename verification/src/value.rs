//! Store values and the writes commands ask for.

use crate::keys::{
    BindingView, CommandMetadata, DisplayView, HintView, JoinedBinding, JoinedView, KeyHint,
    ScopedBinding,
};
use crate::path::Path;
use crate::text::texts;
use crate::types::{
    AccountConfig, AccountTestStatus, AccountView, CatalogRefreshStatus, CompletionRole, ErrorsView,
    IndexEntryView, ModelField, ModelInfo, ModelKey, ModelKeyView, ModelView, ProviderConfig,
    ProviderView, RefreshStatusView, RoleView, SettingsIndexEntry, TestStatusView,
    ValidationDiagnostics, ValidationErrors,
};
use vstd::prelude::*;
use vstd::string::*;

verus! {

/// A value the store holds at a path: a plain value, a list, or one of the
/// records.
#[derive(Debug, PartialEq, Eq)]
pub enum StoreValue {
    Null,
    Bool(bool),
    Integer(i64),
    String(String),
    Array(Vec<StoreValue>),
    Account(AccountConfig),
    Provider(ProviderConfig),
    Model(ModelInfo),
    ModelKey(ModelKey),
    Role(CompletionRole),
    Errors(ValidationErrors),
    ModelField(ModelField),
    TestStatus(AccountTestStatus),
    RefreshStatus(CatalogRefreshStatus),
    Diagnostics(ValidationDiagnostics),
    IndexEntry(SettingsIndexEntry),
    Binding(ScopedBinding),
    Metadata(CommandMetadata),
    Joined(JoinedBinding),
    Hint(KeyHint),
}

/// What a `StoreValue` holds.
pub enum ValueView {
    Null,
    Bool(bool),
    Integer(int),
    String(Seq<char>),
    Array(Seq<ValueView>),
    Account(AccountView),
    Provider(ProviderView),
    Model(ModelView),
    ModelKey(ModelKeyView),
    Role(RoleView),
    Errors(ErrorsView),
    ModelField(ModelField),
    TestStatus(TestStatusView),
    RefreshStatus(RefreshStatusView),
    Diagnostics(u64, ErrorsView),
    IndexEntry(IndexEntryView),
    Binding(BindingView),
    Metadata(DisplayView),
    Joined(JoinedView),
    Hint(HintView),
}

/// What a value holds.
pub open spec fn value_view(v: StoreValue) -> ValueView
    decreases v,
{
    match v {
        StoreValue::Null => ValueView::Null,
        StoreValue::Bool(b) => ValueView::Bool(b),
        StoreValue::Integer(n) => ValueView::Integer(n as int),
        StoreValue::String(s) => ValueView::String(s@),
        StoreValue::Array(a) => ValueView::Array(
            Seq::new(
                a@.len(),
                |i: int|
                    if 0 <= i < a@.len() {
                        value_view(a@[i])
                    } else {
                        ValueView::Null
                    },
            ),
        ),
        StoreValue::Account(a) => ValueView::Account(a@),
        StoreValue::Provider(p) => ValueView::Provider(p@),
        StoreValue::Model(m) => ValueView::Model(m@),
        StoreValue::ModelKey(k) => ValueView::ModelKey(k@),
        StoreValue::Role(r) => ValueView::Role(r@),
        StoreValue::Errors(e) => ValueView::Errors(e@),
        StoreValue::ModelField(f) => ValueView::ModelField(f),
        StoreValue::TestStatus(t) => ValueView::TestStatus(t@),
        StoreValue::RefreshStatus(r) => ValueView::RefreshStatus(r@),
        StoreValue::Diagnostics(d) => ValueView::Diagnostics(d.computed_at_ms, d.field_errors@),
        StoreValue::IndexEntry(e) => ValueView::IndexEntry(e@),
        StoreValue::Binding(b) => ValueView::Binding(b@),
        StoreValue::Metadata(m) => ValueView::Metadata(m.display@),
        StoreValue::Joined(j) => ValueView::Joined(j@),
        StoreValue::Hint(h) => ValueView::Hint(h@),
    }
}

impl View for StoreValue {
    type V = ValueView;

    open spec fn view(&self) -> ValueView {
        value_view(*self)
    }
}

/// What each value of a list holds.
pub open spec fn values_view(v: Seq<StoreValue>) -> Seq<ValueView> {
    Seq::new(v.len(), |i: int| v[i]@)
}

/// A list's view is the list of its entries' views.
pub proof fn array_view(a: Vec<StoreValue>)
    ensures
        StoreValue::Array(a)@ == ValueView::Array(values_view(a@)),
{
    let s = StoreValue::Array(a)@->Array_0;
    assert(s.len() == a@.len());
    assert forall|i: int| 0 <= i < a@.len() implies s[i] == a@[i]@ by {}
    assert(s =~= values_view(a@));
}

/// A value to be put at a path.
#[derive(Debug, PartialEq, Eq)]
pub struct Write {
    pub path: Path,
    pub value: StoreValue,
}

/// What a `Write` holds.
pub struct WriteView {
    pub path: Seq<Seq<char>>,
    pub value: ValueView,
}

impl View for Write {
    type V = WriteView;

    open spec fn view(&self) -> WriteView {
        WriteView { path: self.path@, value: self.value@ }
    }
}

/// What each write of a list holds.
pub open spec fn writes_view(v: Seq<Write>) -> Seq<WriteView> {
    Seq::new(v.len(), |i: int| v[i]@)
}

/// The write of `value` at `path`.
pub open spec fn put(path: Seq<Seq<char>>, value: ValueView) -> WriteView {
    WriteView { path, value }
}

/// The write of a text.
pub open spec fn put_text(path: Seq<Seq<char>>, text: Seq<char>) -> WriteView {
    put(path, ValueView::String(text))
}

/// The write of a null, which clears the path and what lies below it.
pub open spec fn put_null(path: Seq<Seq<char>>) -> WriteView {
    put(path, ValueView::Null)
}

/// The value that stands for a path: the list of its components.
pub open spec fn path_value(p: Seq<Seq<char>>) -> ValueView {
    texts_value(p)
}

/// The value that stands for a list of texts.
pub open spec fn texts_value(s: Seq<Seq<char>>) -> ValueView {
    ValueView::Array(Seq::new(s.len(), |i: int| ValueView::String(s[i])))
}

/// The write of a path.
pub open spec fn put_path(path: Seq<Seq<char>>, target: Seq<Seq<char>>) -> WriteView {
    put(path, path_value(target))
}

/// The write of `value` at `path`.
pub fn write_at(path: Path, value: StoreValue) -> (r: Write)
    ensures
        r@ == put(path@, value@),
{
    Write { path, value }
}

/// The write of a text.
pub fn write_text(path: Path, text: String) -> (r: Write)
    ensures
        r@ == put_text(path@, text@),
{
    Write { path, value: StoreValue::String(text) }
}

/// The write of a null.
pub fn null_write(path: Path) -> (r: Write)
    ensures
        r@ == put_null(path@),
{
    Write { path, value: StoreValue::Null }
}

/// The value that stands for a list of texts.
pub fn texts_to_value(v: &Vec<String>) -> (r: StoreValue)
    ensures
        r@ == texts_value(texts(v@)),
{
    let mut out: Vec<StoreValue> = Vec::new();
    let mut i: usize = 0;
    while i < v.len()
        invariant
            i <= v@.len(),
            out@.len() == i,
            forall|k: int| 0 <= k < i ==> (#[trigger] out@[k])@ == ValueView::String(v@[k]@),
        decreases v@.len() - i,
    {
        out.push(StoreValue::String(v[i].clone()));
        i += 1;
    }
    proof {
        array_view(out);
        assert(values_view(out@) =~= texts_value(texts(v@))->Array_0);
    }
    StoreValue::Array(out)
}

/// The texts a list value holds; `None` where it is no list, or holds
/// something else than text.
pub open spec fn value_texts(v: ValueView) -> Option<Seq<Seq<char>>> {
    match v {
        ValueView::Array(a) => if forall|i: int| 0 <= i < a.len() ==> (#[trigger] a[i]) is String {
            Some(Seq::new(a.len(), |i: int| a[i]->String_0))
        } else {
            None
        },
        _ => None,
    }
}

/// The texts a list value holds.
pub fn texts_from_value(v: &StoreValue) -> (r: Option<Vec<String>>)
    ensures
        r is Some <==> value_texts(v@) is Some,
        r is Some ==> texts(r->0@) == value_texts(v@)->0,
{
    match v {
        StoreValue::Array(items) => {
            let mut out: Vec<String> = Vec::new();
            let mut i: usize = 0;
            proof {
                array_view(*items);
            }
            while i < items.len()
                invariant
                    i <= items@.len(),
                    v@ == ValueView::Array(values_view(items@)),
                    out@.len() == i,
                    forall|k: int|
                        0 <= k < i ==> (#[trigger] items@[k])@ == ValueView::String(out@[k]@),
                decreases items@.len() - i,
            {
                match &items[i] {
                    StoreValue::String(s) => {
                        out.push(s.clone());
                    },
                    _ => {
                        proof {
                            assert(!(values_view(items@)[i as int] is String));
                        }
                        return None;
                    },
                }
                i += 1;
            }
            proof {
                let a = values_view(items@);
                assert forall|k: int| 0 <= k < a.len() implies (#[trigger] a[k]) is String by {
                    assert(items@[k]@ == ValueView::String(out@[k]@));
                }
                assert(texts(out@) =~= value_texts(v@)->0) by {
                    assert forall|k: int| 0 <= k < out@.len() implies texts(out@)[k]
                        == value_texts(v@)->0[k] by {
                        assert(items@[k]@ == ValueView::String(out@[k]@));
                    }
                }
            }
            Some(out)
        },
        _ => None,
    }
}

/// A list of texts comes back from the value that stands for it.
pub proof fn texts_value_round_trip(s: Seq<Seq<char>>)
    ensures
        value_texts(texts_value(s)) == Some(s),
{
    let a = texts_value(s)->Array_0;
    assert(forall|i: int| 0 <= i < a.len() ==> (#[trigger] a[i]) is String);
    assert(value_texts(texts_value(s))->0 =~= s);
}

} // verus!
