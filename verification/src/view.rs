//! What a page shows, as a tree of display nodes.

use crate::keys::opt_path;
use crate::path::Path;
use crate::text::{copy_texts, texts};
use crate::types::{copy_opt_text, opt_text};
use vstd::prelude::*;
use vstd::string::*;

verus! {

/// Which way a stack runs.
#[derive(Clone, Copy, Debug, PartialEq, Eq, Structural)]
pub enum Direction {
    Vertical,
    Horizontal,
}

/// How much room a child of a stack takes.
#[derive(Clone, Copy, Debug, PartialEq, Eq, Structural)]
pub enum Sizing {
    Fixed(u16),
    Min(u16),
    Fill,
}

/// The colours lines are shown in.
#[derive(Clone, Copy, Debug, PartialEq, Eq, Structural)]
pub enum Color {
    Green,
    Red,
}

/// Text attributes.
#[derive(Clone, Copy, Debug, PartialEq, Eq, Structural)]
pub struct ModifierSet {
    pub bold: bool,
    pub dim: bool,
}

/// How a span is drawn.
#[derive(Clone, Copy, Debug, PartialEq, Eq, Structural)]
pub struct Style {
    pub fg: Option<Color>,
    pub bg: Option<Color>,
    pub modifiers: ModifierSet,
}

/// Space round a child.
#[derive(Clone, Copy, Debug, PartialEq, Eq, Structural)]
pub struct Padding {
    pub left: u16,
    pub right: u16,
    pub top: u16,
    pub bottom: u16,
}

/// No attribute at all.
pub open spec fn no_modifiers() -> ModifierSet {
    ModifierSet { bold: false, dim: false }
}

/// No colour and no attribute.
pub open spec fn plain_style() -> Style {
    Style { fg: None, bg: None, modifiers: no_modifiers() }
}

/// A run of text drawn in one style.
#[derive(Clone, Debug, PartialEq, Eq)]
pub struct Span {
    pub text: String,
    pub style: Style,
}

/// What a `Span` holds.
pub struct SpanView {
    pub text: Seq<char>,
    pub style: Style,
}

impl View for Span {
    type V = SpanView;

    open spec fn view(&self) -> SpanView {
        SpanView { text: self.text@, style: self.style }
    }
}

impl Span {
    /// Text without any styling.
    pub fn plain(text: String) -> (r: Span)
        ensures
            r@ == (SpanView { text: text@, style: plain_style() }),
    {
        Span {
            text,
            style: Style {
                fg: None,
                bg: None,
                modifiers: ModifierSet { bold: false, dim: false },
            },
        }
    }
}

/// What each span of a list holds.
pub open spec fn spans_view(v: Seq<Span>) -> Seq<SpanView> {
    Seq::new(v.len(), |i: int| v[i]@)
}

/// The view of optional spans.
pub open spec fn opt_spans(o: Option<Vec<Span>>) -> Option<Seq<SpanView>> {
    match o {
        Some(v) => Some(spans_view(v@)),
        None => None,
    }
}

/// A line made of spans.
#[derive(Clone, Debug, PartialEq, Eq)]
pub struct StyledLine(pub Vec<Span>);

impl View for StyledLine {
    type V = Seq<SpanView>;

    open spec fn view(&self) -> Seq<SpanView> {
        spans_view(self.0@)
    }
}

/// What each line of a list holds.
pub open spec fn lines_view(v: Seq<StyledLine>) -> Seq<Seq<SpanView>> {
    Seq::new(v.len(), |i: int| v[i]@)
}

/// One item of a list. `focus` is the row it can take the focus of, if any.
#[derive(Clone, Debug, PartialEq, Eq)]
pub struct ListItem {
    pub primary: String,
    pub primary_spans: Option<Vec<Span>>,
    pub secondary: Option<String>,
    pub badge: Option<String>,
    pub focus: Option<Path>,
}

/// What a `ListItem` holds.
pub struct ItemView {
    pub primary: Seq<char>,
    pub primary_spans: Option<Seq<SpanView>>,
    pub secondary: Option<Seq<char>>,
    pub badge: Option<Seq<char>>,
    pub focus: Option<Seq<Seq<char>>>,
}

impl View for ListItem {
    type V = ItemView;

    open spec fn view(&self) -> ItemView {
        ItemView {
            primary: self.primary@,
            primary_spans: opt_spans(self.primary_spans),
            secondary: opt_text(self.secondary),
            badge: opt_text(self.badge),
            focus: opt_path(self.focus),
        }
    }
}

/// What each item of a list holds.
pub open spec fn items_view(v: Seq<ListItem>) -> Seq<ItemView> {
    Seq::new(v.len(), |i: int| v[i]@)
}

/// An item that shows `primary` and nothing else.
pub open spec fn bare_item(primary: Seq<char>) -> ItemView {
    ItemView { primary, primary_spans: None, secondary: None, badge: None, focus: None }
}

/// An item that shows `primary` and nothing else.
pub fn plain_item(primary: String) -> (r: ListItem)
    ensures
        r@ == bare_item(primary@),
{
    ListItem { primary, primary_spans: None, secondary: None, badge: None, focus: None }
}

/// What a form row lets the user see or change.
#[derive(Clone, Debug, PartialEq, Eq)]
pub enum FormValue {
    ReadOnly(String),
    Text { value: String, cursor: u32, masked: bool },
    Selector { options: Vec<String>, current: usize },
}

/// What a `FormValue` holds.
pub enum FormValueView {
    ReadOnly(Seq<char>),
    Text { value: Seq<char>, cursor: u32, masked: bool },
    Selector { options: Seq<Seq<char>>, current: nat },
}

impl View for FormValue {
    type V = FormValueView;

    open spec fn view(&self) -> FormValueView {
        match self {
            FormValue::ReadOnly(s) => FormValueView::ReadOnly(s@),
            FormValue::Text { value, cursor, masked } => FormValueView::Text {
                value: value@,
                cursor: *cursor,
                masked: *masked,
            },
            FormValue::Selector { options, current } => FormValueView::Selector {
                options: texts(options@),
                current: *current as nat,
            },
        }
    }
}

/// One row of a form.
#[derive(Clone, Debug, PartialEq, Eq)]
pub struct FormRow {
    pub label: String,
    pub value: FormValue,
    pub error: Option<String>,
    pub hint: Option<String>,
}

/// What a `FormRow` holds.
pub struct FormRowView {
    pub label: Seq<char>,
    pub value: FormValueView,
    pub error: Option<Seq<char>>,
    pub hint: Option<Seq<char>>,
}

impl View for FormRow {
    type V = FormRowView;

    open spec fn view(&self) -> FormRowView {
        FormRowView {
            label: self.label@,
            value: self.value@,
            error: opt_text(self.error),
            hint: opt_text(self.hint),
        }
    }
}

impl FormValue {
    /// A copy of the value.
    pub fn copied(&self) -> (r: FormValue)
        ensures
            r@ == self@,
    {
        match self {
            FormValue::ReadOnly(s) => FormValue::ReadOnly(s.clone()),
            FormValue::Text { value, cursor, masked } => FormValue::Text {
                value: value.clone(),
                cursor: *cursor,
                masked: *masked,
            },
            FormValue::Selector { options, current } => FormValue::Selector {
                options: copy_texts(options),
                current: *current,
            },
        }
    }
}

impl FormRow {
    /// A copy of the row.
    pub fn copied(&self) -> (r: FormRow)
        ensures
            r@ == self@,
    {
        FormRow {
            label: self.label.clone(),
            value: self.value.copied(),
            error: copy_opt_text(&self.error),
            hint: copy_opt_text(&self.hint),
        }
    }
}

/// The rows of a form, and the focused one.
#[derive(Clone, Debug, PartialEq, Eq)]
pub struct FormLayout {
    pub rows: Vec<FormRow>,
    pub focused: Option<usize>,
}

/// What a `FormLayout` holds.
pub struct FormLayoutView {
    pub rows: Seq<FormRowView>,
    pub focused: Option<int>,
}

impl View for FormLayout {
    type V = FormLayoutView;

    open spec fn view(&self) -> FormLayoutView {
        FormLayoutView { rows: form_rows_view(self.rows@), focused: opt_index(self.focused) }
    }
}

impl FormLayout {
    /// A form without rows.
    pub fn empty() -> (r: FormLayout)
        ensures
            r@ == (FormLayoutView { rows: Seq::empty(), focused: None }),
    {
        let r = FormLayout { rows: Vec::new(), focused: None };
        proof {
            assert(r@.rows =~= Seq::<FormRowView>::empty());
        }
        r
    }

    /// The node that shows the form.
    pub fn to_node(&self) -> (r: ViewNode)
        ensures
            r@ == (NodeView::Form { title: None, rows: self@.rows, focused: self@.focused }),
    {
        let mut rows: Vec<FormRow> = Vec::new();
        let mut i: usize = 0;
        while i < self.rows.len()
            invariant
                i <= self.rows@.len(),
                rows@.len() == i,
                forall|k: int| 0 <= k < i ==> (#[trigger] rows@[k])@ == self.rows@[k]@,
            decreases self.rows@.len() - i,
        {
            rows.push(self.rows[i].copied());
            i += 1;
        }
        proof {
            assert(form_rows_view(rows@) =~= form_rows_view(self.rows@));
        }
        ViewNode::Form { title: None, rows, focused: self.focused }
    }
}

/// What each row of a form holds.
pub open spec fn form_rows_view(v: Seq<FormRow>) -> Seq<FormRowView> {
    Seq::new(v.len(), |i: int| v[i]@)
}

/// A display node.
#[derive(Debug, PartialEq, Eq)]
pub enum ViewNode {
    Empty,
    /// One line of text.
    Text(String),
    /// What is shown for a cursor no page is registered at.
    UnknownCursor(Path),
    List { title: Option<String>, items: Vec<ListItem>, selected: Option<usize> },
    Form { title: Option<String>, rows: Vec<FormRow>, focused: Option<usize> },
    StatusBlock { title: String, lines: Vec<StyledLine>, scroll_offset: u32 },
    Stack { dir: Direction, children: Vec<(ViewNode, Sizing)> },
    Frame { title: Option<String>, title_right: Option<String>, content: Box<ViewNode> },
    Pad { padding: Padding, child: Box<ViewNode> },
    Modal { background: Box<ViewNode>, foreground: Box<ViewNode>, dim: bool },
}

/// What a `ViewNode` holds.
pub enum NodeView {
    Empty,
    Text(Seq<char>),
    UnknownCursor(Seq<Seq<char>>),
    List { title: Option<Seq<char>>, items: Seq<ItemView>, selected: Option<int> },
    Form { title: Option<Seq<char>>, rows: Seq<FormRowView>, focused: Option<int> },
    StatusBlock { title: Seq<char>, lines: Seq<Seq<SpanView>>, scroll_offset: u32 },
    Stack { dir: Direction, children: Seq<(NodeView, Sizing)> },
    Frame {
        title: Option<Seq<char>>,
        title_right: Option<Seq<char>>,
        content: Box<NodeView>,
    },
    Pad { padding: Padding, child: Box<NodeView> },
    Modal { background: Box<NodeView>, foreground: Box<NodeView>, dim: bool },
}

/// The view of an optional index.
pub open spec fn opt_index(o: Option<usize>) -> Option<int> {
    match o {
        Some(i) => Some(i as int),
        None => None,
    }
}

/// What a node holds.
pub open spec fn node_view(v: ViewNode) -> NodeView
    decreases v,
{
    match v {
        ViewNode::Empty => NodeView::Empty,
        ViewNode::Text(s) => NodeView::Text(s@),
        ViewNode::UnknownCursor(p) => NodeView::UnknownCursor(p@),
        ViewNode::List { title, items, selected } => NodeView::List {
            title: opt_text(title),
            items: items_view(items@),
            selected: opt_index(selected),
        },
        ViewNode::Form { title, rows, focused } => NodeView::Form {
            title: opt_text(title),
            rows: form_rows_view(rows@),
            focused: opt_index(focused),
        },
        ViewNode::StatusBlock { title, lines, scroll_offset } => NodeView::StatusBlock {
            title: title@,
            lines: lines_view(lines@),
            scroll_offset,
        },
        ViewNode::Stack { dir, children } => NodeView::Stack {
            dir,
            children: Seq::new(
                children@.len(),
                |i: int|
                    if 0 <= i < children@.len() {
                        (node_view(children@[i].0), children@[i].1)
                    } else {
                        (NodeView::Empty, Sizing::Fill)
                    },
            ),
        },
        ViewNode::Frame { title, title_right, content } => NodeView::Frame {
            title: opt_text(title),
            title_right: opt_text(title_right),
            content: Box::new(node_view(*content)),
        },
        ViewNode::Pad { padding, child } => NodeView::Pad {
            padding,
            child: Box::new(node_view(*child)),
        },
        ViewNode::Modal { background, foreground, dim } => NodeView::Modal {
            background: Box::new(node_view(*background)),
            foreground: Box::new(node_view(*foreground)),
            dim,
        },
    }
}

impl View for ViewNode {
    type V = NodeView;

    open spec fn view(&self) -> NodeView {
        node_view(*self)
    }
}

/// What each child of a stack holds.
pub open spec fn children_view(v: Seq<(ViewNode, Sizing)>) -> Seq<(NodeView, Sizing)> {
    Seq::new(v.len(), |i: int| (v[i].0@, v[i].1))
}

/// A stack's view is the stack of its children's views.
pub proof fn stack_view(dir: Direction, children: Vec<(ViewNode, Sizing)>)
    ensures
        (ViewNode::Stack { dir, children })@ == (NodeView::Stack {
            dir,
            children: children_view(children@),
        }),
{
    let s = (ViewNode::Stack { dir, children })@->Stack_children;
    assert(s.len() == children@.len());
    assert forall|i: int| 0 <= i < children@.len() implies s[i] == children_view(children@)[i] by {}
    assert(s =~= children_view(children@));
}

impl ViewNode {
    /// One line of text.
    pub fn text(s: &str) -> (r: ViewNode)
        ensures
            r@ == NodeView::Text(s@),
    {
        ViewNode::Text(s.to_owned())
    }

    /// What is shown for a cursor no page is registered at.
    pub fn unknown_cursor_fallback(cursor: &Path) -> (r: ViewNode)
        ensures
            r@ == NodeView::UnknownCursor(cursor@),
    {
        ViewNode::UnknownCursor(cursor.copied())
    }

    /// A vertical stack.
    pub fn vertical(children: Vec<(ViewNode, Sizing)>) -> (r: ViewNode)
        ensures
            r@ == (NodeView::Stack {
                dir: Direction::Vertical,
                children: children_view(children@),
            }),
    {
        proof {
            stack_view(Direction::Vertical, children);
        }
        ViewNode::Stack { dir: Direction::Vertical, children }
    }
}

} // verus!
