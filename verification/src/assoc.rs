//! Sequences of key-value pairs read as maps, the last pair of a key counting,
//! and the first place a value has in a sequence.

use vstd::prelude::*;

verus! {

/// The value a key has.
pub open spec fn lookup<K, V>(s: Seq<(K, V)>, key: K) -> Option<V>
    decreases s.len(),
{
    if s.len() == 0 {
        None
    } else if s.last().0 == key {
        Some(s.last().1)
    } else {
        lookup(s.drop_last(), key)
    }
}

/// The pairs with `value` for `key`, in place of the one it had.
pub open spec fn assigned<K, V>(s: Seq<(K, V)>, key: K, value: V) -> Seq<(K, V)>
    decreases s.len(),
{
    if s.len() == 0 {
        seq![(key, value)]
    } else if s.last().0 == key {
        s.drop_last().push((key, value))
    } else {
        assigned(s.drop_last(), key, value).push(s.last())
    }
}

/// After an assignment the key has the new value, and every other key has the
/// value it had.
pub proof fn lookup_after_assigned<K, V>(s: Seq<(K, V)>, key: K, value: V, k: K)
    ensures
        lookup(assigned(s, key, value), k) == if k == key {
            Some(value)
        } else {
            lookup(s, k)
        },
    decreases s.len(),
{
    let r = assigned(s, key, value);
    if s.len() == 0 {
        assert(r.last() == (key, value));
        assert(r.drop_last() =~= Seq::<(K, V)>::empty());
        assert(lookup(r.drop_last(), k) is None);
    } else if s.last().0 == key {
        assert(r.last() == (key, value));
        assert(r.drop_last() =~= s.drop_last());
        assert(lookup(r.drop_last(), k) == lookup(s.drop_last(), k));
    } else {
        let t = s.drop_last();
        lookup_after_assigned(t, key, value, k);
        assert(r.last() == s.last());
        assert(r.drop_last() =~= assigned(t, key, value));
        assert(lookup(r.drop_last(), k) == lookup(assigned(t, key, value), k));
    }
}

/// An assignment makes the list longer exactly where the key is new.
pub proof fn assigned_length<K, V>(s: Seq<(K, V)>, key: K, value: V)
    ensures
        assigned(s, key, value).len() == if lookup(s, key) is None {
            s.len() + 1
        } else {
            s.len()
        },
    decreases s.len(),
{
    if s.len() > 0 && s.last().0 != key {
        assigned_length(s.drop_last(), key, value);
    }
}

/// A key that no pair has is assigned in front.
pub proof fn assigned_absent<K, V>(s: Seq<(K, V)>, key: K, value: V)
    requires
        forall|i: int| 0 <= i < s.len() ==> (#[trigger] s[i]).0 != key,
    ensures
        assigned(s, key, value) == seq![(key, value)] + s,
        lookup(s, key) is None,
    decreases s.len(),
{
    if s.len() == 0 {
        assert(seq![(key, value)] + s =~= seq![(key, value)]);
    } else {
        let t = s.drop_last();
        assert(s[s.len() - 1].0 != key);
        assert forall|i: int| 0 <= i < t.len() implies (#[trigger] t[i]).0 != key by {
            assert(t[i] == s[i]);
        }
        assigned_absent(t, key, value);
        assert((seq![(key, value)] + t).push(s.last()) =~= seq![(key, value)] + s);
    }
}

/// A key is assigned at its last pair.
pub proof fn assigned_at<K, V>(s: Seq<(K, V)>, key: K, value: V, i: int)
    requires
        0 <= i < s.len(),
        s[i].0 == key,
        forall|k: int| i < k < s.len() ==> (#[trigger] s[k]).0 != key,
    ensures
        assigned(s, key, value) == s.update(i, (key, value)),
        lookup(s, key) == Some(s[i].1),
    decreases s.len(),
{
    let t = s.drop_last();
    if i == s.len() - 1 {
        assert(t.push((key, value)) =~= s.update(i, (key, value)));
    } else {
        assert(s[s.len() - 1].0 != key);
        assert forall|k: int| i < k < t.len() implies (#[trigger] t[k]).0 != key by {
            assert(t[k] == s[k]);
        }
        assigned_at(t, key, value, i);
        assert(t.update(i, (key, value)).push(s.last()) =~= s.update(i, (key, value)));
    }
}

/// Where every pair's value carries the pair's key, so does what is looked up.
pub proof fn lookup_finds_pair<K, V>(s: Seq<(K, V)>, key: K)
    ensures
        lookup(s, key) is Some ==> exists|i: int|
            0 <= i < s.len() && (#[trigger] s[i]).0 == key && s[i].1 == lookup(s, key)->0,
        lookup(s, key) is None ==> forall|i: int| 0 <= i < s.len() ==> (#[trigger] s[i]).0 != key,
    decreases s.len(),
{
    if s.len() > 0 {
        let t = s.drop_last();
        if s.last().0 == key {
            assert(s[s.len() - 1].0 == key);
        } else {
            lookup_finds_pair(t, key);
            if lookup(s, key) is Some {
                let i = choose|i: int|
                    0 <= i < t.len() && (#[trigger] t[i]).0 == key && t[i].1 == lookup(t, key)->0;
                assert(s[i] == t[i]);
            } else {
                assert forall|i: int| 0 <= i < s.len() implies (#[trigger] s[i]).0 != key by {
                    if i < t.len() {
                        assert(t[i] == s[i]);
                    }
                }
            }
        }
    }
}

/// The first place of `x` in `s`.
pub open spec fn place_of<T>(s: Seq<T>, x: T) -> Option<int>
    decreases s.len(),
{
    if s.len() == 0 {
        None
    } else {
        match place_of(s.drop_last(), x) {
            Some(i) => Some(i),
            None => if s.last() == x {
                Some(s.len() - 1)
            } else {
                None
            },
        }
    }
}

/// `place_of` finds a place that holds the value, the first one, whenever
/// there is one.
pub proof fn place_is_first<T>(s: Seq<T>, x: T)
    ensures
        place_of(s, x) is Some <==> s.contains(x),
        place_of(s, x) is Some ==> 0 <= place_of(s, x)->0 < s.len() && s[place_of(s, x)->0] == x
            && (forall|j: int| 0 <= j < place_of(s, x)->0 ==> #[trigger] s[j] != x),
    decreases s.len(),
{
    if s.len() > 0 {
        let t = s.drop_last();
        place_is_first(t, x);
        if place_of(s, x) is Some {
            let i = place_of(s, x)->0;
            if place_of(t, x) is Some {
                assert(s[i] == t[i]);
            }
            assert(s[i] == x);
            assert forall|j: int| 0 <= j < i implies #[trigger] s[j] != x by {
                assert(t[j] == s[j]);
                if t[j] == x {
                    assert(t.contains(x));
                }
            }
        } else {
            if s.contains(x) {
                let i = choose|i: int| 0 <= i < s.len() && s[i] == x;
                if i < t.len() {
                    assert(t[i] == x);
                }
            }
        }
    }
}

/// A first place that holds the value is the one `place_of` finds.
pub proof fn place_unique<T>(s: Seq<T>, x: T, i: int)
    requires
        0 <= i < s.len(),
        s[i] == x,
        forall|j: int| 0 <= j < i ==> #[trigger] s[j] != x,
    ensures
        place_of(s, x) == Some(i),
{
    place_is_first(s, x);
    assert(s.contains(x));
    let k = place_of(s, x)->0;
    if k < i {
        assert(s[k] != x);
    } else if i < k {
        assert(s[i] != x);
    }
}

/// Taking an entry out leaves every other value in or out, as it was.
pub proof fn taking_one_out_keeps_the_others<T>(s: Seq<T>, i: int, y: T)
    requires
        0 <= i < s.len(),
        s[i] != y,
    ensures
        s.remove(i).contains(y) <==> s.contains(y),
{
    let after = s.remove(i);
    if s.contains(y) {
        let k = choose|k: int| 0 <= k < s.len() && s[k] == y;
        let m = if k < i {
            k
        } else {
            k - 1
        };
        assert(after[m] == y);
    }
    if after.contains(y) {
        let k = choose|k: int| 0 <= k < after.len() && after[k] == y;
        let m = if k < i {
            k
        } else {
            k + 1
        };
        assert(s[m] == y);
    }
}

/// Putting an entry at the end adds it and leaves every other value in or out, as
/// it was.
pub proof fn putting_one_in_keeps_the_others<T>(s: Seq<T>, x: T, y: T)
    ensures
        s.push(x).contains(y) <==> s.contains(y) || x == y,
{
    let after = s.push(x);
    assert(after[s.len() as int] == x);
    if s.contains(y) {
        let k = choose|k: int| 0 <= k < s.len() && s[k] == y;
        assert(after[k] == y);
    }
    if after.contains(y) && x != y {
        let k = choose|k: int| 0 <= k < after.len() && after[k] == y;
        assert(s[k] == y);
    }
}

/// Where nothing occurs twice, what is taken out is gone.
pub proof fn what_is_taken_out_is_gone<T>(s: Seq<T>, i: int)
    requires
        0 <= i < s.len(),
        s.no_duplicates(),
    ensures
        !s.remove(i).contains(s[i]),
{
    let after = s.remove(i);
    if after.contains(s[i]) {
        let k = choose|k: int| 0 <= k < after.len() && after[k] == s[i];
        let m = if k < i {
            k
        } else {
            k + 1
        };
        assert(s[m] == s[i]);
    }
}

} // verus!
