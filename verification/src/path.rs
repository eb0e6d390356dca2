//! Paths into the settings store: sequences of identifier components.

use crate::text::{ascii_digit, chars_of, is_ascii_digit, same, texts};
use vstd::prelude::*;
use vstd::string::*;

verus! {

/// A store path. Its view is the sequence of its components.
#[derive(Clone, Debug, PartialEq, Eq, Hash, PartialOrd, Ord)]
pub struct Path {
    pub components: Vec<String>,
}

impl View for Path {
    type V = Seq<Seq<char>>;

    open spec fn view(&self) -> Seq<Seq<char>> {
        texts(self.components@)
    }
}

/// The views of a list of paths.
pub open spec fn paths_view(v: Seq<Path>) -> Seq<Seq<Seq<char>>> {
    Seq::new(v.len(), |i: int| v[i]@)
}

/// The characters beyond ASCII that Unicode lets an identifier start with.
pub uninterp spec fn xid_start_beyond_ascii(c: char) -> bool;

/// The characters beyond ASCII that Unicode lets an identifier continue with.
pub uninterp spec fn xid_continue_beyond_ascii(c: char) -> bool;

/// Whether `c` is one of the 128 ASCII characters.
pub open spec fn is_ascii_char(c: char) -> bool {
    (c as u32) < 128
}

/// Whether `c` is an ASCII letter.
pub open spec fn ascii_letter(c: char) -> bool {
    'a' <= c <= 'z' || 'A' <= c <= 'Z'
}

/// The characters an identifier may start with.
pub open spec fn xid_start(c: char) -> bool {
    if is_ascii_char(c) {
        ascii_letter(c)
    } else {
        xid_start_beyond_ascii(c)
    }
}

/// The characters an identifier may continue with.
pub open spec fn xid_continue(c: char) -> bool {
    if is_ascii_char(c) {
        ascii_letter(c) || ascii_digit(c) || c == '_'
    } else {
        xid_continue_beyond_ascii(c)
    }
}

/// Calls `unicode_ident::is_xid_start`. Among the ASCII characters it accepts
/// the letters; beyond ASCII its answer depends on the character alone and is
/// named `xid_start_beyond_ascii`.
#[verifier::external_body]
fn is_xid_start(c: char) -> (r: bool)
    ensures
        is_ascii_char(c) ==> r == ascii_letter(c),
        !is_ascii_char(c) ==> r == xid_start_beyond_ascii(c),
{
    unicode_ident::is_xid_start(c)
}

/// Whether a character may start an identifier.
pub fn starts_identifier(c: char) -> (r: bool)
    ensures
        r == xid_start(c),
{
    is_xid_start(c)
}

/// Calls `unicode_ident::is_xid_continue`. Among the ASCII characters it
/// accepts the letters, the digits and the underscore; beyond ASCII its answer
/// depends on the character alone and is named `xid_continue_beyond_ascii`.
#[verifier::external_body]
fn is_xid_continue(c: char) -> (r: bool)
    ensures
        is_ascii_char(c) ==> r == (ascii_letter(c) || ascii_digit(c) || c == '_'),
        !is_ascii_char(c) ==> r == xid_continue_beyond_ascii(c),
{
    unicode_ident::is_xid_continue(c)
}

/// Whether a component consists of decimal digits.
pub open spec fn numeric(s: Seq<char>) -> bool {
    forall|i: int| 0 <= i < s.len() ==> ascii_digit(#[trigger] s[i])
}

/// Whether `s` may stand in a path: a run of decimal digits, or an identifier,
/// which starts with a letter or with an underscore that more characters
/// follow.
pub open spec fn component_ok(s: Seq<char>) -> bool {
    s.len() > 0 && (numeric(s) || ((xid_start(s[0]) || (s[0] == '_' && s.len() > 1))
        && forall|i: int| 1 <= i < s.len() ==> xid_continue(#[trigger] s[i])))
}

/// Whether every component of a path may stand there.
pub open spec fn path_ok(p: Seq<Seq<char>>) -> bool {
    forall|i: int| 0 <= i < p.len() ==> component_ok(#[trigger] p[i])
}

/// Whether `s` may stand in a path.
pub fn valid_component(s: &str) -> (r: bool)
    ensures
        r == component_ok(s@),
{
    let cs: Vec<char> = chars_of(s);
    if cs.len() == 0 {
        return false;
    }
    let mut digits: bool = true;
    let mut i: usize = 0;
    while i < cs.len()
        invariant
            i <= cs@.len(),
            digits == forall|k: int| 0 <= k < i ==> ascii_digit(#[trigger] cs@[k]),
        decreases cs@.len() - i,
    {
        if !is_ascii_digit(cs[i]) {
            digits = false;
        }
        i += 1;
    }
    if digits {
        return true;
    }
    if !(is_xid_start(cs[0]) || (cs[0] == '_' && cs.len() > 1)) {
        return false;
    }
    let mut j: usize = 1;
    while j < cs.len()
        invariant
            1 <= j <= cs@.len(),
            cs@ == s@,
            !numeric(s@),
            forall|k: int| 1 <= k < j ==> xid_continue(#[trigger] cs@[k]),
        decreases cs@.len() - j,
    {
        if !is_xid_continue(cs[j]) {
            return false;
        }
        j += 1;
    }
    true
}

/// Whether `c` may continue an identifier.
pub fn continues_identifier(c: char) -> (r: bool)
    ensures
        r == xid_continue(c),
{
    is_xid_continue(c)
}

/// Whether `prefix` leads `p`, component by component.
pub open spec fn leads(prefix: Seq<Seq<char>>, p: Seq<Seq<char>>) -> bool {
    prefix.len() <= p.len() && p.subrange(0, prefix.len() as int) == prefix
}

/// The components of a path, each followed by a slash but for the last.
pub open spec fn path_text(p: Seq<Seq<char>>) -> Seq<char>
    decreases p.len(),
{
    if p.len() == 0 {
        Seq::empty()
    } else if p.len() == 1 {
        p[0]
    } else {
        path_text(p.drop_last()).push('/') + p.last()
    }
}

/// The segments between slashes that `s` closes, and the one left open at its
/// end. Empty segments are dropped.
pub open spec fn segments(s: Seq<char>) -> (Seq<Seq<char>>, Seq<char>)
    decreases s.len(),
{
    if s.len() == 0 {
        (Seq::empty(), Seq::empty())
    } else {
        let (done, open) = segments(s.drop_last());
        if s.last() == '/' {
            (closed(done, open), Seq::empty())
        } else {
            (done, open.push(s.last()))
        }
    }
}

/// `done` with the open segment behind it, unless that is empty.
pub open spec fn closed(done: Seq<Seq<char>>, open: Seq<char>) -> Seq<Seq<char>> {
    if open.len() == 0 {
        done
    } else {
        done.push(open)
    }
}

/// The non-empty segments of `s`.
pub open spec fn path_segments(s: Seq<char>) -> Seq<Seq<char>> {
    closed(segments(s).0, segments(s).1)
}

/// The path that `s` spells, where every non-empty segment may stand in one.
pub open spec fn spelled_path(s: Seq<char>) -> Option<Seq<Seq<char>>> {
    if path_ok(path_segments(s)) {
        Some(path_segments(s))
    } else {
        None
    }
}

/// The leading parts of `p`, shortest first and `p` itself last; the empty
/// path is not among them.
pub open spec fn ancestors(p: Seq<Seq<char>>) -> Seq<Seq<Seq<char>>> {
    Seq::new(p.len(), |i: int| p.subrange(0, i + 1))
}

impl Path {
    /// The empty path.
    pub fn root() -> (r: Path)
        ensures
            r@ == Seq::<Seq<char>>::empty(),
    {
        let r = Path { components: Vec::new() };
        proof {
            assert(r@ =~= Seq::<Seq<char>>::empty());
        }
        r
    }

    /// The path one component longer.
    pub fn child(&self, component: &str) -> (r: Path)
        ensures
            r@ == self@.push(component@),
    {
        let mut r = self.copied();
        r.components.push(component.to_owned());
        proof {
            assert(r@ =~= self@.push(component@));
        }
        r
    }

    /// A copy of the path.
    pub fn copied(&self) -> (r: Path)
        ensures
            r@ == self@,
    {
        self.leading(self.components.len())
    }

    /// The first `n` components.
    pub fn leading(&self, n: usize) -> (r: Path)
        requires
            n <= self@.len(),
        ensures
            r@ == self@.subrange(0, n as int),
    {
        let mut out: Vec<String> = Vec::new();
        let mut i: usize = 0;
        while i < n
            invariant
                i <= n <= self.components@.len(),
                out@.len() == i,
                forall|k: int| 0 <= k < i ==> out@[k]@ == self.components@[k]@,
            decreases n - i,
        {
            out.push(self.components[i].clone());
            i += 1;
        }
        let r = Path { components: out };
        proof {
            assert(r@ =~= self@.subrange(0, n as int));
        }
        r
    }

    /// Whether both paths have the same components.
    pub fn same_as(&self, other: &Path) -> (r: bool)
        ensures
            r == (self@ == other@),
    {
        if self.components.len() != other.components.len() {
            proof {
                assert(self@.len() != other@.len());
            }
            return false;
        }
        let r = self.starts_with(other);
        proof {
            assert(self@.subrange(0, other@.len() as int) =~= self@);
        }
        r
    }

    /// Whether `prefix` leads this path.
    pub fn starts_with(&self, prefix: &Path) -> (r: bool)
        ensures
            r == leads(prefix@, self@),
    {
        if prefix.components.len() > self.components.len() {
            return false;
        }
        let mut i: usize = 0;
        while i < prefix.components.len()
            invariant
                i <= prefix.components@.len() <= self.components@.len(),
                forall|k: int|
                    0 <= k < i ==> prefix.components@[k]@ == self.components@[k]@,
            decreases prefix.components@.len() - i,
        {
            if !same(prefix.components[i].as_str(), self.components[i].as_str()) {
                proof {
                    assert(self@.subrange(0, prefix@.len() as int)[i as int]
                        == self.components@[i as int]@);
                    assert(prefix@[i as int] == prefix.components@[i as int]@);
                }
                return false;
            }
            i += 1;
        }
        proof {
            assert(self@.subrange(0, prefix@.len() as int) =~= prefix@);
        }
        true
    }

    /// The components joined by slashes.
    pub fn to_text(&self) -> (r: String)
        ensures
            r@ == path_text(self@),
    {
        let mut s: String = String::new();
        let mut i: usize = 0;
        proof {
            assert(s@ =~= path_text(self@.subrange(0, 0)));
        }
        while i < self.components.len()
            invariant
                i <= self.components@.len(),
                s@ == path_text(self@.subrange(0, i as int)),
            decreases self.components@.len() - i,
        {
            if i > 0 {
                s.push('/');
            }
            s.append(self.components[i].as_str());
            proof {
                let t = self@.subrange(0, i + 1);
                assert(t.drop_last() =~= self@.subrange(0, i as int));
                assert(t.last() == self.components@[i as int]@);
                if i == 0 {
                    assert(s@ =~= t[0]);
                }
            }
            i += 1;
        }
        proof {
            assert(self@.subrange(0, i as int) =~= self@);
        }
        s
    }

    /// The path that `s` spells. Empty segments are ignored; `None` where a
    /// segment may not stand in a path.
    pub fn parse(s: &str) -> (r: Option<Path>)
        ensures
            r is Some <==> spelled_path(s@) is Some,
            r is Some ==> r->0@ == spelled_path(s@)->0,
    {
        let cs: Vec<char> = chars_of(s);
        let mut done: Vec<String> = Vec::new();
        let mut open: String = String::new();
        let mut i: usize = 0;
        proof {
            assert(cs@.subrange(0, 0) =~= Seq::<char>::empty());
            assert(texts(done@) =~= Seq::<Seq<char>>::empty());
            assert(open@ =~= Seq::<char>::empty());
        }
        while i < cs.len()
            invariant
                i <= cs@.len(),
                segments(cs@.subrange(0, i as int)) == (texts(done@), open@),
            decreases cs@.len() - i,
        {
            let ghost t = cs@.subrange(0, i + 1);
            let ghost before = texts(done@);
            proof {
                assert(t.drop_last() =~= cs@.subrange(0, i as int));
                assert(t.last() == cs@[i as int]);
            }
            if cs[i] == '/' {
                let ended: String = open;
                open = String::new();
                if chars_of(ended.as_str()).len() > 0 {
                    done.push(ended);
                    proof {
                        assert(texts(done@) =~= before.push(ended@));
                    }
                }
                proof {
                    assert(open@ =~= Seq::<char>::empty());
                }
            } else {
                open.push(cs[i]);
            }
            i += 1;
        }
        proof {
            assert(cs@.subrange(0, i as int) =~= s@);
        }
        let ghost before = texts(done@);
        if chars_of(open.as_str()).len() > 0 {
            done.push(open);
            proof {
                assert(texts(done@) =~= before.push(open@));
            }
        }
        Path::from_components(done)
    }

    /// The path with these components; `None` where one may not stand in it.
    pub fn from_components(components: Vec<String>) -> (r: Option<Path>)
        ensures
            r is Some <==> path_ok(texts(components@)),
            r is Some ==> r->0@ == texts(components@),
    {
        let mut i: usize = 0;
        while i < components.len()
            invariant
                i <= components@.len(),
                forall|k: int| 0 <= k < i ==> component_ok(components@[k]@),
            decreases components@.len() - i,
        {
            if !valid_component(components[i].as_str()) {
                proof {
                    assert(!component_ok(texts(components@)[i as int]));
                }
                return None;
            }
            i += 1;
        }
        Some(Path { components })
    }
}

/// The leading parts of `p`, shortest first and `p` itself last.
pub fn path_ancestors(p: &Path) -> (r: Vec<Path>)
    ensures
        paths_view(r@) == ancestors(p@),
{
    let mut out: Vec<Path> = Vec::new();
    let mut i: usize = 0;
    while i < p.components.len()
        invariant
            i <= p.components@.len(),
            out@.len() == i,
            forall|k: int| 0 <= k < i ==> (#[trigger] out@[k])@ == p@.subrange(0, k + 1),
        decreases p.components@.len() - i,
    {
        out.push(p.leading(i + 1));
        i += 1;
    }
    proof {
        assert(paths_view(out@) =~= ancestors(p@));
    }
    out
}

/// The path `a`.
pub fn path1(a: &str) -> (r: Path)
    ensures
        r@ == seq![a@],
{
    let r = Path::root().child(a);
    proof {
        assert(r@ =~= seq![a@]);
    }
    r
}

/// The path `a/b`.
pub fn path2(a: &str, b: &str) -> (r: Path)
    ensures
        r@ == seq![a@, b@],
{
    let r = path1(a).child(b);
    proof {
        assert(r@ =~= seq![a@, b@]);
    }
    r
}

/// The path `a/b/c`.
pub fn path3(a: &str, b: &str, c: &str) -> (r: Path)
    ensures
        r@ == seq![a@, b@, c@],
{
    let r = path2(a, b).child(c);
    proof {
        assert(r@ =~= seq![a@, b@, c@]);
    }
    r
}

/// The path `a/b/c/d`.
pub fn path4(a: &str, b: &str, c: &str, d: &str) -> (r: Path)
    ensures
        r@ == seq![a@, b@, c@, d@],
{
    let r = path3(a, b, c).child(d);
    proof {
        assert(r@ =~= seq![a@, b@, c@, d@]);
    }
    r
}

/// The path `a/b/c/d/e`.
pub fn path5(a: &str, b: &str, c: &str, d: &str, e: &str) -> (r: Path)
    ensures
        r@ == seq![a@, b@, c@, d@, e@],
{
    let r = path4(a, b, c, d).child(e);
    proof {
        assert(r@ =~= seq![a@, b@, c@, d@, e@]);
    }
    r
}

proof fn lemma_segments_of_component(s: Seq<char>, c: Seq<char>)
    requires
        forall|i: int| 0 <= i < c.len() ==> c[i] != '/',
    ensures
        segments(s + c) == (segments(s).0, segments(s).1 + c),
    decreases c.len(),
{
    if c.len() == 0 {
        assert(s + c =~= s);
        assert(segments(s).1 + c =~= segments(s).1);
    } else {
        let d = c.drop_last();
        assert((s + c).drop_last() =~= s + d);
        assert((s + c).last() == c.last());
        lemma_segments_of_component(s, d);
        assert((segments(s).1 + d).push(c.last()) =~= segments(s).1 + c);
    }
}

proof fn lemma_segments_of_path_text(p: Seq<Seq<char>>)
    requires
        path_ok(p),
        p.len() > 0,
    ensures
        segments(path_text(p)) == (p.drop_last(), p.last()),
    decreases p.len(),
{
    let last = p.last();
    lemma_component_has_no_slash(last);
    if p.len() == 1 {
        lemma_segments_of_component(Seq::empty(), last);
        assert(Seq::<char>::empty() + last =~= last);
        assert(p.drop_last() =~= Seq::<Seq<char>>::empty());
    } else {
        let q = p.drop_last();
        lemma_segments_of_path_text(q);
        let s = path_text(q).push('/');
        assert(s.drop_last() =~= path_text(q));
        assert(component_ok(q.last()));
        assert(closed(q.drop_last(), q.last()) =~= q);
        lemma_segments_of_component(s, last);
        assert(Seq::<char>::empty() + last =~= last);
    }
}

proof fn lemma_component_has_no_slash(c: Seq<char>)
    requires
        component_ok(c),
    ensures
        forall|i: int| 0 <= i < c.len() ==> c[i] != '/',
{
    assert forall|i: int| 0 <= i < c.len() implies c[i] != '/' by {
        if numeric(c) {
            assert(ascii_digit(c[i]));
        } else if i > 0 {
            assert(xid_continue(c[i]));
        } else {
            assert(xid_start(c[0]) || c[0] == '_');
        }
    }
}

/// A path's text spells that path.
pub proof fn path_text_spells_path(p: Seq<Seq<char>>)
    requires
        path_ok(p),
    ensures
        spelled_path(path_text(p)) == Some(p),
{
    if p.len() == 0 {
        assert(path_segments(path_text(p)) =~= p);
    } else {
        lemma_segments_of_path_text(p);
        assert(component_ok(p.last()));
        assert(closed(p.drop_last(), p.last()) =~= p);
    }
}

/// Different paths have different texts.
pub proof fn path_texts_differ(p: Seq<Seq<char>>, q: Seq<Seq<char>>)
    requires
        path_ok(p),
        path_ok(q),
        path_text(p) == path_text(q),
    ensures
        p == q,
{
    path_text_spells_path(p);
    path_text_spells_path(q);
}

/// A run of digits may stand in a path, and so may an identifier of ASCII
/// letters, digits and underscores that starts with a letter, or with an
/// underscore that more follows. Nothing empty may, no lone underscore, and
/// nothing that holds a slash, a blank, a dot or a dash.
pub proof fn identifiers_and_numbers_may_stand_in_a_path(s: Seq<char>, k: int)
    ensures
        s.len() > 0 && (forall|i: int| 0 <= i < s.len() ==> '0' <= #[trigger] s[i] <= '9')
            ==> component_ok(s),
        s.len() > 0 && ('a' <= s[0] <= 'z' || 'A' <= s[0] <= 'Z' || (s[0] == '_' && s.len() > 1))
            && (forall|i: int|
            0 < i < s.len() ==> 'a' <= #[trigger] s[i] <= 'z' || 'A' <= s[i] <= 'Z' || '0' <= s[i]
                <= '9' || s[i] == '_') ==> component_ok(s),
        s.len() == 0 || s == seq!['_'] ==> !component_ok(s),
        0 <= k < s.len() && (s[k] == '/' || s[k] == ' ' || s[k] == '.' || s[k] == '-')
            ==> !component_ok(s),
{
    if 0 <= k < s.len() && (s[k] == '/' || s[k] == ' ' || s[k] == '.' || s[k] == '-') {
        assert(!ascii_digit(s[k]));
        assert(!xid_continue(s[k]));
        assert(!xid_start(s[k]));
    }
    if s == seq!['_'] {
        assert(!ascii_digit(s[0]));
    }
}

/// A path leads itself and whatever continues it; of two paths that lead each
/// other each is the other; and one that parts from another does not lead it.
pub proof fn leading_is_by_components(
    p: Seq<Seq<char>>,
    rest: Seq<Seq<char>>,
    q: Seq<Seq<char>>,
    i: int,
)
    ensures
        leads(p, p + rest),
        leads(p, q) && leads(q, p) ==> p == q,
        0 <= i < p.len() && i < q.len() && p[i] != q[i] ==> !leads(p, q) && !leads(q, p),
        p.len() > q.len() ==> !leads(p, q),
{
    assert((p + rest).subrange(0, p.len() as int) =~= p);
    if leads(p, q) && leads(q, p) {
        assert(q.subrange(0, p.len() as int) =~= q);
    }
    if 0 <= i < p.len() && i < q.len() && p[i] != q[i] {
        if leads(p, q) {
            assert(q.subrange(0, p.len() as int)[i] == q[i]);
        }
        if leads(q, p) {
            assert(p.subrange(0, q.len() as int)[i] == p[i]);
        }
    }
}

/// Slashes only part segments: without one a text is a single segment, what
/// follows a slash starts a new one, and a slash that has nothing behind it, or
/// another one, changes nothing.
pub proof fn slashes_only_part(s: Seq<char>, t: Seq<char>)
    requires
        forall|i: int| 0 <= i < s.len() ==> #[trigger] s[i] != '/',
        s.len() > 0,
    ensures
        path_segments(s) == seq![s],
        path_segments(t.push('/')) == path_segments(t),
        path_segments(t.push('/') + s) == path_segments(t).push(s),
{
    lemma_no_slash(Seq::empty(), s);
    assert(Seq::<char>::empty() + s =~= s);
    assert(t.push('/').drop_last() =~= t);
    lemma_no_slash(t.push('/'), s);
    assert(Seq::<Seq<char>>::empty().push(s) =~= seq![s]);
}

proof fn lemma_no_slash(t: Seq<char>, s: Seq<char>)
    requires
        forall|i: int| 0 <= i < s.len() ==> #[trigger] s[i] != '/',
        segments(t).1.len() == 0,
    ensures
        segments(t + s).0 == segments(t).0,
        segments(t + s).1 == s,
    decreases s.len(),
{
    if s.len() == 0 {
        assert(t + s =~= t);
        assert(segments(t).1 =~= s);
    } else {
        let rest = s.drop_last();
        assert forall|i: int| 0 <= i < rest.len() implies #[trigger] rest[i] != '/' by {
            assert(rest[i] == s[i]);
        }
        lemma_no_slash(t, rest);
        assert((t + s).drop_last() =~= t + rest);
        assert((t + s).last() == s.last());
        assert(s[s.len() - 1] != '/');
        assert(rest.push(s.last()) =~= s);
    }
}

} // verus!
