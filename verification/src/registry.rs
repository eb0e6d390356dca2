//! The pages of the settings screen by cursor, and where leaving one leads.

use crate::assoc::{assigned, assigned_absent, assigned_at, lookup, lookup_after_assigned};
use crate::keys::opt_path;
use crate::path::{leads, Path};
use crate::snapshot::{SettingsSnapshot, SnapshotView};
use crate::view::{NodeView, ViewNode};
use vstd::prelude::*;

verus! {

/// What leaving a page leads to.
#[derive(Clone, Debug, PartialEq, Eq)]
pub enum AscendRule {
    /// The nearest page above it.
    NearestRegistered,
    /// Out of the settings screen.
    ExitScreen,
    /// A given page, if there is one.
    Fallback(Path),
}

/// What an `AscendRule` holds.
pub enum RuleView {
    NearestRegistered,
    ExitScreen,
    Fallback(Seq<Seq<char>>),
}

impl View for AscendRule {
    type V = RuleView;

    open spec fn view(&self) -> RuleView {
        match self {
            AscendRule::NearestRegistered => RuleView::NearestRegistered,
            AscendRule::ExitScreen => RuleView::ExitScreen,
            AscendRule::Fallback(p) => RuleView::Fallback(p@),
        }
    }
}

/// The part of the terminal a page is drawn in.
#[derive(Clone, Copy, Debug, PartialEq, Eq, Structural)]
pub struct Area {
    pub x: u16,
    pub y: u16,
    pub width: u16,
    pub height: u16,
}

/// What a page is drawn from.
pub struct RenderCtx<'a> {
    pub area: Area,
    pub data: &'a SettingsSnapshot,
}

/// What a `RenderCtx` holds.
pub struct RenderView {
    pub area: Area,
    pub data: SnapshotView,
}

impl<'a> View for RenderCtx<'a> {
    type V = RenderView;

    open spec fn view(&self) -> RenderView {
        RenderView { area: self.area, data: self.data@ }
    }
}

/// A page: a function from what it is drawn from to what it shows. A page may
/// be shown over another one, its backdrop.
pub trait Renderer {
    /// What leaving the page leads to.
    open spec fn rule(&self) -> RuleView {
        RuleView::NearestRegistered
    }

    /// The cursor of the page behind this one.
    open spec fn behind(&self) -> Option<Seq<Seq<char>>> {
        None
    }

    /// What the page shows, in front of its backdrop.
    open spec fn shows(&self, ctx: RenderView, backdrop: NodeView) -> NodeView {
        NodeView::Empty
    }

    /// What leaving the page leads to.
    fn ascend_to(&self) -> (r: AscendRule)
        ensures
            r@ == self.rule(),
    ;

    /// The cursor of the page behind this one.
    fn backdrop(&self) -> (r: Option<Path>)
        ensures
            opt_path(r) == self.behind(),
    ;

    /// What the page shows, in front of its backdrop.
    fn render(&self, ctx: &RenderCtx<'_>, backdrop: ViewNode) -> (r: ViewNode)
        ensures
            r@ == self.shows(ctx@, backdrop@),
    ;
}

/// A page at its cursor.
pub struct Registered<R> {
    pub path: Path,
    pub renderer: R,
}

/// The pages by cursor.
pub struct RendererRegistry<R> {
    specs: Vec<Registered<R>>,
}

/// The cursor and page of each entry.
pub open spec fn pages_view<R>(v: Seq<Registered<R>>) -> Seq<(Seq<Seq<char>>, R)> {
    Seq::new(v.len(), |i: int| (v[i].path@, v[i].renderer))
}

impl<R> View for RendererRegistry<R> {
    type V = Seq<(Seq<Seq<char>>, R)>;

    closed spec fn view(&self) -> Seq<(Seq<Seq<char>>, R)> {
        pages_view(self.specs@)
    }
}

/// The longest leading part of `cursor` shorter than `len` components at which
/// a page is registered.
pub open spec fn nearest_page<R>(
    pages: Seq<(Seq<Seq<char>>, R)>,
    cursor: Seq<Seq<char>>,
    len: int,
) -> Option<Seq<Seq<char>>>
    decreases len,
{
    if len <= 0 {
        None
    } else {
        let candidate = cursor.subrange(0, len - 1);
        if lookup(pages, candidate) is Some {
            Some(candidate)
        } else {
            nearest_page(pages, cursor, len - 1)
        }
    }
}

/// Where leaving the page at `cursor` leads; `None` is out of the screen.
pub open spec fn ascent<R: Renderer>(
    pages: Seq<(Seq<Seq<char>>, R)>,
    cursor: Seq<Seq<char>>,
) -> Option<Seq<Seq<char>>> {
    match lookup(pages, cursor) {
        None => None,
        Some(r) => match r.rule() {
            RuleView::ExitScreen => None,
            RuleView::NearestRegistered => nearest_page(pages, cursor, cursor.len() as int),
            RuleView::Fallback(target) => if lookup(pages, target) is Some {
                Some(target)
            } else {
                None
            },
        },
    }
}

/// What is shown at `cursor`. Backdrops are followed through at most `depth`
/// pages; beyond that nothing is behind a page.
pub open spec fn page_shown<R: Renderer>(
    pages: Seq<(Seq<Seq<char>>, R)>,
    cursor: Seq<Seq<char>>,
    ctx: RenderView,
    depth: nat,
) -> NodeView
    decreases depth,
{
    match lookup(pages, cursor) {
        None => NodeView::UnknownCursor(cursor),
        Some(r) => r.shows(
            ctx,
            match r.behind() {
                Some(b) => if depth > 0 {
                    page_shown(pages, b, ctx, (depth - 1) as nat)
                } else {
                    NodeView::Empty
                },
                None => NodeView::Empty,
            },
        ),
    }
}

impl<R: Renderer> RendererRegistry<R> {
    /// A registry without pages.
    pub fn new() -> (r: RendererRegistry<R>)
        ensures
            r@ == Seq::<(Seq<Seq<char>>, R)>::empty(),
    {
        let r = RendererRegistry { specs: Vec::new() };
        proof {
            assert(r@ =~= Seq::<(Seq<Seq<char>>, R)>::empty());
        }
        r
    }

    /// The last entry at `cursor`.
    fn position(&self, cursor: &Path) -> (r: Option<usize>)
        ensures
            match r {
                Some(i) => i < self.specs@.len() && self.specs@[i as int].path@ == cursor@
                    && forall|k: int|
                    i < k < self.specs@.len() ==> (#[trigger] self.specs@[k]).path@ != cursor@,
                None => forall|k: int|
                    0 <= k < self.specs@.len() ==> (#[trigger] self.specs@[k]).path@ != cursor@,
            },
    {
        let mut i: usize = self.specs.len();
        while i > 0
            invariant
                i <= self.specs@.len(),
                forall|k: int|
                    i <= k < self.specs@.len() ==> (#[trigger] self.specs@[k]).path@ != cursor@,
            decreases i,
        {
            if self.specs[i - 1].path.same_as(cursor) {
                return Some(i - 1);
            }
            i -= 1;
        }
        None
    }

    /// Registers a page, in place of the one at that cursor.
    pub fn register(&mut self, cursor: Path, renderer: R)
        ensures
            final(self)@ == assigned(old(self)@, cursor@, renderer),
            lookup(final(self)@, cursor@) == Some(renderer),
            forall|p: Seq<Seq<char>>|
                p != cursor@ ==> #[trigger] lookup(final(self)@, p) == lookup(old(self)@, p),
    {
        let ghost before = self@;
        let at: Option<usize> = self.position(&cursor);
        let entry = Registered { path: cursor, renderer };
        match at {
            Some(i) => {
                self.specs.set(i, entry);
                proof {
                    assert forall|k: int| i < k < before.len() implies (#[trigger] before[k]).0
                        != cursor@ by {
                        assert(old(self).specs@[k].path@ != cursor@);
                    }
                    assigned_at(before, cursor@, renderer, i as int);
                    assert(self@ =~= before.update(i as int, (cursor@, renderer)));
                }
            },
            None => {
                self.specs.insert(0, entry);
                proof {
                    assert forall|k: int| 0 <= k < before.len() implies (#[trigger] before[k]).0
                        != cursor@ by {
                        assert(old(self).specs@[k].path@ != cursor@);
                    }
                    assigned_absent(before, cursor@, renderer);
                    assert(self@ =~= seq![(cursor@, renderer)] + before);
                }
            },
        }
        proof {
            lookup_after_assigned(before, cursor@, renderer, cursor@);
            assert forall|p: Seq<Seq<char>>| p != cursor@ implies #[trigger] lookup(self@, p)
                == lookup(before, p) by {
                lookup_after_assigned(before, cursor@, renderer, p);
            }
        }
    }

    /// The page at exactly `cursor`.
    pub fn lookup(&self, cursor: &Path) -> (r: Option<&R>)
        ensures
            r is Some <==> lookup(self@, cursor@) is Some,
            r is Some ==> *r->0 == lookup(self@, cursor@)->0,
    {
        match self.position(cursor) {
            Some(i) => {
                proof {
                    assert forall|k: int| i < k < self@.len() implies (#[trigger] self@[k]).0
                        != cursor@ by {
                        assert(self.specs@[k].path@ != cursor@);
                    }
                    assigned_at(self@, cursor@, self.specs@[i as int].renderer, i as int);
                }
                Some(&self.specs[i].renderer)
            },
            None => {
                proof {
                    assert forall|k: int| 0 <= k < self@.len() implies (#[trigger] self@[k]).0
                        != cursor@ by {
                        assert(self.specs@[k].path@ != cursor@);
                    }
                    crate::assoc::lookup_finds_pair(self@, cursor@);
                }
                None
            },
        }
    }

    /// What is shown at `cursor`: the registered page in front of its
    /// backdrop, or a fallback where none is registered.
    pub fn render(&self, cursor: &Path, ctx: &RenderCtx<'_>) -> (r: ViewNode)
        ensures
            r@ == page_shown(self@, cursor@, ctx@, self@.len()),
    {
        self.render_through(cursor, ctx, self.specs.len())
    }

    fn render_through(&self, cursor: &Path, ctx: &RenderCtx<'_>, depth: usize) -> (r: ViewNode)
        ensures
            r@ == page_shown(self@, cursor@, ctx@, depth as nat),
        decreases depth,
    {
        match self.lookup(cursor) {
            None => ViewNode::unknown_cursor_fallback(cursor),
            Some(page) => {
                let backdrop = match page.backdrop() {
                    Some(b) => if depth > 0 {
                        self.render_through(&b, ctx, depth - 1)
                    } else {
                        ViewNode::Empty
                    },
                    None => ViewNode::Empty,
                };
                page.render(ctx, backdrop)
            },
        }
    }

    /// Where leaving the page at `cursor` leads; `None` where nothing is
    /// registered at `cursor`, the page exits the screen, no page lies above
    /// it, or the page it falls back to is not registered.
    pub fn ascend(&self, cursor: &Path) -> (r: Option<Path>)
        ensures
            opt_path(r) == ascent(self@, cursor@),
    {
        match self.lookup(cursor) {
            None => None,
            Some(page) => match page.ascend_to() {
                AscendRule::ExitScreen => None,
                AscendRule::NearestRegistered => self.nearest_registered_parent(cursor),
                AscendRule::Fallback(target) => if self.lookup(&target).is_some() {
                    Some(target)
                } else {
                    None
                },
            },
        }
    }

    fn nearest_registered_parent(&self, cursor: &Path) -> (r: Option<Path>)
        ensures
            opt_path(r) == nearest_page(self@, cursor@, cursor@.len() as int),
    {
        let mut len: usize = cursor.components.len();
        while len > 0
            invariant
                len <= cursor@.len(),
                nearest_page(self@, cursor@, len as int) == nearest_page(
                    self@,
                    cursor@,
                    cursor@.len() as int,
                ),
            decreases len,
        {
            len -= 1;
            let candidate = cursor.leading(len);
            if self.lookup(&candidate).is_some() {
                return Some(candidate);
            }
        }
        None
    }
}

impl<R: Renderer> Default for RendererRegistry<R> {
    fn default() -> (r: RendererRegistry<R>)
        ensures
            r@ == Seq::<(Seq<Seq<char>>, R)>::empty(),
    {
        RendererRegistry::new()
    }
}

proof fn lemma_nearest_page<R>(
    pages: Seq<(Seq<Seq<char>>, R)>,
    cursor: Seq<Seq<char>>,
    len: int,
)
    requires
        len <= cursor.len(),
    ensures
        match nearest_page(pages, cursor, len) {
            Some(p) => leads(p, cursor) && p.len() < len && lookup(pages, p) is Some && (forall|
                n: int,
            |
                p.len() < n < len ==> lookup(pages, #[trigger] cursor.subrange(0, n)) is None),
            None => forall|n: int|
                0 <= n < len ==> lookup(pages, #[trigger] cursor.subrange(0, n)) is None,
        },
    decreases len,
{
    if len > 0 {
        let candidate = cursor.subrange(0, len - 1);
        if lookup(pages, candidate) is None {
            lemma_nearest_page(pages, cursor, len - 1);
        }
    }
}

/// Leaving a page by the nearest-registered rule leads to a registered page
/// strictly above it, with no registered page in between; it leads out of the
/// screen only where no page above it is registered.
pub proof fn ascent_is_nearest_page<R: Renderer>(
    pages: Seq<(Seq<Seq<char>>, R)>,
    cursor: Seq<Seq<char>>,
)
    requires
        lookup(pages, cursor) is Some,
        lookup(pages, cursor)->0.rule() is NearestRegistered,
    ensures
        match ascent(pages, cursor) {
            Some(p) => leads(p, cursor) && p.len() < cursor.len() && lookup(pages, p) is Some && (
            forall|n: int|
                p.len() < n < cursor.len() ==> lookup(pages, #[trigger] cursor.subrange(0, n))
                    is None),
            None => forall|n: int|
                0 <= n < cursor.len() ==> lookup(pages, #[trigger] cursor.subrange(0, n)) is None,
        },
{
    lemma_nearest_page(pages, cursor, cursor.len() as int);
}

/// Wherever leaving a page leads, a page is registered there.
pub proof fn ascent_is_registered<R: Renderer>(
    pages: Seq<(Seq<Seq<char>>, R)>,
    cursor: Seq<Seq<char>>,
)
    ensures
        ascent(pages, cursor) is Some ==> lookup(pages, ascent(pages, cursor)->0) is Some,
{
    lemma_nearest_page(pages, cursor, cursor.len() as int);
}

} // verus!
