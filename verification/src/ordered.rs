//! Lists kept by class, lower classes first, in order of arrival within a
//! class.

use vstd::prelude::*;

verus! {

/// Where an entry of class `c` goes: behind every entry of its class or a lower
/// one.
pub open spec fn slot<E>(s: Seq<E>, class: spec_fn(E) -> nat, c: nat) -> int
    decreases s.len(),
{
    if s.len() == 0 {
        0
    } else if class(s.last()) <= c {
        s.len() as int
    } else {
        slot(s.drop_last(), class, c)
    }
}

/// The list with an entry put at its place.
pub open spec fn placed<E>(s: Seq<E>, class: spec_fn(E) -> nat, e: E) -> Seq<E> {
    s.insert(slot(s, class, class(e)), e)
}

/// The list with entries put at their places, one after the other.
pub open spec fn placed_all<E>(s: Seq<E>, class: spec_fn(E) -> nat, es: Seq<E>) -> Seq<E>
    decreases es.len(),
{
    if es.len() == 0 {
        s
    } else {
        placed(placed_all(s, class, es.drop_last()), class, es.last())
    }
}

/// Lower classes come first.
pub open spec fn by_class<E>(s: Seq<E>, class: spec_fn(E) -> nat) -> bool {
    forall|i: int, j: int| 0 <= i < j < s.len() ==> class(#[trigger] s[i]) <= class(#[trigger] s[j])
}

/// The entries of one class, in order.
pub open spec fn of_class<E>(s: Seq<E>, class: spec_fn(E) -> nat, c: nat) -> Seq<E>
    decreases s.len(),
{
    if s.len() == 0 {
        Seq::empty()
    } else if class(s.last()) == c {
        of_class(s.drop_last(), class, c).push(s.last())
    } else {
        of_class(s.drop_last(), class, c)
    }
}

/// Whatever stands behind the slot is of a higher class; in a list by class,
/// whatever stands before it is not.
pub proof fn slot_splits<E>(s: Seq<E>, class: spec_fn(E) -> nat, c: nat)
    ensures
        0 <= slot(s, class, c) <= s.len(),
        forall|i: int| slot(s, class, c) <= i < s.len() ==> class(#[trigger] s[i]) > c,
        by_class(s, class) ==> forall|i: int|
            0 <= i < slot(s, class, c) ==> class(#[trigger] s[i]) <= c,
    decreases s.len(),
{
    if s.len() > 0 {
        let t = s.drop_last();
        if class(s.last()) <= c {
            if by_class(s, class) {
                assert forall|i: int| 0 <= i < s.len() implies class(#[trigger] s[i]) <= c by {
                    if i < s.len() - 1 {
                        assert(class(s[i]) <= class(s[s.len() - 1]));
                    }
                }
            }
        } else {
            slot_splits(t, class, c);
            assert forall|i: int| slot(s, class, c) <= i < s.len() implies class(#[trigger] s[i])
                > c by {
                if i < t.len() {
                    assert(t[i] == s[i]);
                }
            }
            if by_class(s, class) {
                assert forall|i: int, j: int| 0 <= i < j < t.len() implies class(#[trigger] t[i])
                    <= class(#[trigger] t[j]) by {
                    assert(t[i] == s[i] && t[j] == s[j]);
                }
                assert forall|i: int| 0 <= i < slot(s, class, c) implies class(#[trigger] s[i])
                    <= c by {
                    assert(t[i] == s[i]);
                }
            }
        }
    }
}

/// Putting an entry at its place keeps a list by class.
pub proof fn placing_keeps_classes<E>(s: Seq<E>, class: spec_fn(E) -> nat, e: E)
    requires
        by_class(s, class),
    ensures
        by_class(placed(s, class, e), class),
{
    slot_splits(s, class, class(e));
    let k = slot(s, class, class(e));
    let r = placed(s, class, e);
    assert forall|i: int, j: int| 0 <= i < j < r.len() implies class(#[trigger] r[i]) <= class(
        #[trigger] r[j],
    ) by {
        let si = if i < k { i } else { i - 1 };
        let sj = if j < k { j } else { j - 1 };
        if i == k {
            assert(r[j] == s[sj]);
            assert(class(s[sj]) > class(e));
        } else if j == k {
            assert(r[i] == s[si]);
            assert(class(s[si]) <= class(e));
        } else {
            assert(r[i] == s[si] && r[j] == s[sj]);
            assert(class(s[si]) <= class(s[sj]));
        }
    }
}

proof fn lemma_of_class_inserted<E>(s: Seq<E>, class: spec_fn(E) -> nat, c: nat, k: int, e: E)
    requires
        0 <= k <= s.len(),
        forall|i: int| k <= i < s.len() ==> class(#[trigger] s[i]) != class(e),
    ensures
        of_class(s.insert(k, e), class, c) == if class(e) == c {
            of_class(s, class, c).push(e)
        } else {
            of_class(s, class, c)
        },
    decreases s.len(),
{
    let r = s.insert(k, e);
    if k == s.len() {
        assert(r.drop_last() =~= s);
        assert(r.last() == e);
    } else {
        let t = s.drop_last();
        assert(r.drop_last() =~= t.insert(k, e));
        assert(r.last() == s.last());
        assert(class(s[s.len() - 1]) != class(e));
        assert forall|i: int| k <= i < t.len() implies class(#[trigger] t[i]) != class(e) by {
            assert(t[i] == s[i]);
        }
        lemma_of_class_inserted(t, class, c, k, e);
    }
}

/// An entry put at its place comes last of its class, and the other classes
/// stay as they were.
pub proof fn placed_last_of_class<E>(s: Seq<E>, class: spec_fn(E) -> nat, e: E, c: nat)
    ensures
        of_class(placed(s, class, e), class, c) == if class(e) == c {
            of_class(s, class, c).push(e)
        } else {
            of_class(s, class, c)
        },
{
    slot_splits(s, class, class(e));
    lemma_of_class_inserted(s, class, c, slot(s, class, class(e)), e);
}

/// Putting an entry at its place adds that entry and nothing else.
pub proof fn placed_contains<E>(s: Seq<E>, class: spec_fn(E) -> nat, e: E, x: E)
    ensures
        placed(s, class, e).contains(x) <==> s.contains(x) || x == e,
{
    slot_splits(s, class, class(e));
    let k = slot(s, class, class(e));
    let r = placed(s, class, e);
    if s.contains(x) {
        let i = choose|i: int| 0 <= i < s.len() && s[i] == x;
        if i < k {
            assert(r[i] == x);
        } else {
            assert(r[i + 1] == x);
        }
    }
    if x == e {
        assert(r[k] == x);
    }
    if r.contains(x) {
        let i = choose|i: int| 0 <= i < r.len() && r[i] == x;
        if i < k {
            assert(s[i] == x);
        } else if i > k {
            assert(s[i - 1] == x);
        }
    }
}

/// Putting entries at their places keeps a list by class, and adds those
/// entries and nothing else.
pub proof fn placing_all_keeps_classes<E>(
    s: Seq<E>,
    class: spec_fn(E) -> nat,
    es: Seq<E>,
)
    requires
        by_class(s, class),
    ensures
        by_class(placed_all(s, class, es), class),
        forall|x: E| #[trigger]
            placed_all(s, class, es).contains(x) <==> s.contains(x) || es.contains(x),
    decreases es.len(),
{
    if es.len() > 0 {
        let t = es.drop_last();
        placing_all_keeps_classes(s, class, t);
        let before = placed_all(s, class, t);
        placing_keeps_classes(before, class, es.last());
        assert forall|x: E| #[trigger] placed_all(s, class, es).contains(x) <==> s.contains(x)
            || es.contains(x) by {
            placed_contains(before, class, es.last(), x);
            assert(before.contains(x) <==> s.contains(x) || t.contains(x));
            if t.contains(x) {
                let i = choose|i: int| 0 <= i < t.len() && t[i] == x;
                assert(es[i] == x);
            }
            if es.contains(x) {
                let i = choose|i: int| 0 <= i < es.len() && es[i] == x;
                if i < t.len() {
                    assert(t[i] == x);
                }
            }
            assert(es[es.len() - 1] == es.last());
        }
    }
}

/// Entries put at their places in two rounds are put at their places in one.
pub proof fn placing_in_turn<E>(s: Seq<E>, class: spec_fn(E) -> nat, a: Seq<E>, b: Seq<E>)
    ensures
        placed_all(placed_all(s, class, a), class, b) == placed_all(s, class, a + b),
    decreases b.len(),
{
    if b.len() == 0 {
        assert(a + b =~= a);
    } else {
        assert((a + b).drop_last() =~= a + b.drop_last());
        assert((a + b).last() == b.last());
        placing_in_turn(s, class, a, b.drop_last());
    }
}

} // verus!
