//! Stable sorting of values that have an order.
//!
//! Containers and pages are kept sorted so that equal contents give equal
//! bytes. The sort is stable: values that the order does not tell apart keep
//! the order in which they came.

use vstd::prelude::*;

verus! {

/// A type whose values are ordered, any two of them one way or the other.
pub trait Ordered: DeepView + Sized {
    /// Whether `a` comes no later than `b`.
    spec fn le(a: Self::V, b: Self::V) -> bool;

    proof fn lemma_le_total(a: Self::V, b: Self::V)
        ensures
            Self::le(a, b) || Self::le(b, a),
    ;

    proof fn lemma_le_transitive(a: Self::V, b: Self::V, c: Self::V)
        requires
            Self::le(a, b),
            Self::le(b, c),
        ensures
            Self::le(a, c),
    ;

    fn le_exec(&self, other: &Self) -> (r: bool)
        ensures
            r == Self::le(self.deep_view(), other.deep_view()),
    ;
}

/// Whether no value of `s` comes later than a value that follows it.
pub open spec fn sorted<T: Ordered>(s: Seq<T::V>) -> bool {
    forall|i: int, j: int| 0 <= i <= j < s.len() ==> T::le(#[trigger] s[i], #[trigger] s[j])
}

/// Whether every value of `s` comes strictly before those that follow it.
pub open spec fn strictly_sorted<T: Ordered>(s: Seq<T::V>) -> bool {
    forall|i: int, j: int|
        0 <= i < j < s.len() ==> T::le(#[trigger] s[i], #[trigger] s[j]) && !T::le(s[j], s[i])
}

/// Where `x` goes in `t`: before the first value that it does not come after.
pub open spec fn place_of<T: Ordered>(x: T::V, t: Seq<T::V>) -> int
    decreases t.len(),
{
    if t.len() == 0 {
        0
    } else if T::le(x, t[0]) {
        0
    } else {
        1 + place_of::<T>(x, t.drop_first())
    }
}

/// The values of `s` in order, equal ones as they came.
pub open spec fn stable_sort<T: Ordered>(s: Seq<T::V>) -> Seq<T::V>
    decreases s.len(),
{
    if s.len() == 0 {
        s
    } else {
        let rest = stable_sort::<T>(s.drop_first());
        rest.insert(place_of::<T>(s[0], rest), s[0])
    }
}

/// The place of a value: every value before it comes strictly before the
/// value, and the value at it, if there is one, does not.
pub proof fn lemma_place_of<T: Ordered>(x: T::V, t: Seq<T::V>)
    ensures
        0 <= place_of::<T>(x, t) <= t.len(),
        forall|k: int| 0 <= k < place_of::<T>(x, t) ==> !T::le(x, #[trigger] t[k]),
        place_of::<T>(x, t) < t.len() ==> T::le(x, t[place_of::<T>(x, t)]),
    decreases t.len(),
{
    if t.len() > 0 && !T::le(x, t[0]) {
        let tail = t.drop_first();
        lemma_place_of::<T>(x, tail);
        assert forall|k: int| 0 <= k < place_of::<T>(x, t) implies !T::le(x, #[trigger] t[k]) by {
            if k > 0 {
                assert(t[k] == tail[k - 1]);
            }
        }
        if place_of::<T>(x, t) < t.len() {
            assert(t[place_of::<T>(x, t)] == tail[place_of::<T>(x, tail)]);
        }
    }
}

/// Placing a value into a sorted run keeps the run sorted.
pub proof fn lemma_insert_sorted<T: Ordered>(x: T::V, t: Seq<T::V>)
    requires
        sorted::<T>(t),
    ensures
        sorted::<T>(t.insert(place_of::<T>(x, t), x)),
{
    let p = place_of::<T>(x, t);
    let r = t.insert(p, x);
    lemma_place_of::<T>(x, t);
    assert forall|i: int, j: int| 0 <= i <= j < r.len() implies T::le(
        #[trigger] r[i],
        #[trigger] r[j],
    ) by {
        T::lemma_le_total(x, x);
        if i == p && j == p {
        } else if i == p {
            assert(r[j] == t[j - 1]);
            T::lemma_le_transitive(x, t[p], t[j - 1]);
        } else if j == p {
            assert(r[i] == t[i]);
            T::lemma_le_total(x, t[i]);
        } else if i < p && j < p {
            assert(r[i] == t[i] && r[j] == t[j]);
        } else if i < p && j > p {
            assert(r[i] == t[i] && r[j] == t[j - 1]);
        } else {
            assert(r[i] == t[i - 1] && r[j] == t[j - 1]);
        }
    }
}

/// A sorted run has the length of what was sorted.
pub proof fn lemma_sort_len<T: Ordered>(s: Seq<T::V>)
    ensures
        stable_sort::<T>(s).len() == s.len(),
    decreases s.len(),
{
    if s.len() > 0 {
        lemma_sort_len::<T>(s.drop_first());
        lemma_place_of::<T>(s[0], stable_sort::<T>(s.drop_first()));
    }
}

/// What the sort gives is sorted.
pub proof fn lemma_sort_sorted<T: Ordered>(s: Seq<T::V>)
    ensures
        sorted::<T>(stable_sort::<T>(s)),
    decreases s.len(),
{
    if s.len() > 0 {
        lemma_sort_sorted::<T>(s.drop_first());
        lemma_insert_sorted::<T>(s[0], stable_sort::<T>(s.drop_first()));
    }
}

/// The sort gives the values it was given, each as often as it came.
pub proof fn lemma_sort_permutes<T: Ordered>(s: Seq<T::V>)
    ensures
        stable_sort::<T>(s).to_multiset() == s.to_multiset(),
    decreases s.len(),
{
    broadcast use vstd::seq_lib::group_to_multiset_ensures;

    if s.len() > 0 {
        let tail = s.drop_first();
        let rest = stable_sort::<T>(tail);
        lemma_sort_permutes::<T>(tail);
        lemma_place_of::<T>(s[0], rest);
        assert(s =~= seq![s[0]] + tail);
        vstd::seq_lib::lemma_multiset_commutative(seq![s[0]], tail);
        assert(seq![s[0]] =~= Seq::<T::V>::empty().push(s[0]));
        assert(seq![s[0]].to_multiset() =~= vstd::multiset::Multiset::<T::V>::empty().insert(
            s[0],
        ));
        let placed = rest.insert(place_of::<T>(s[0], rest), s[0]);
        assert(placed.to_multiset() =~= rest.to_multiset().insert(s[0]));
        assert(stable_sort::<T>(s).to_multiset() =~= s.to_multiset());
    } else {
        assert(stable_sort::<T>(s) =~= s);
    }
}

/// Every value of the sorted run is one of those that were sorted.
pub proof fn lemma_sort_members<T: Ordered>(s: Seq<T::V>)
    ensures
        forall|i: int|
            0 <= i < stable_sort::<T>(s).len() ==> s.contains(#[trigger] stable_sort::<T>(s)[i]),
    decreases s.len(),
{
    if s.len() > 0 {
        let tail = s.drop_first();
        let rest = stable_sort::<T>(tail);
        let p = place_of::<T>(s[0], rest);
        lemma_sort_members::<T>(tail);
        lemma_place_of::<T>(s[0], rest);
        let out = stable_sort::<T>(s);
        assert forall|i: int| 0 <= i < out.len() implies s.contains(#[trigger] out[i]) by {
            if i == p {
                assert(s[0] == out[i]);
            } else {
                let k = if i < p {
                    i
                } else {
                    i - 1
                };
                assert(out[i] == rest[k]);
                assert(tail.contains(rest[k]));
                let w = choose|w: int| 0 <= w < tail.len() && tail[w] == rest[k];
                assert(s[w + 1] == rest[k]);
            }
        }
    }
}

/// Sorting what is sorted changes nothing.
pub proof fn law_sort_of_sorted<T: Ordered>(s: Seq<T::V>)
    requires
        sorted::<T>(s),
    ensures
        stable_sort::<T>(s) == s,
    decreases s.len(),
{
    if s.len() > 0 {
        let tail = s.drop_first();
        assert forall|i: int, j: int| 0 <= i <= j < tail.len() implies T::le(
            #[trigger] tail[i],
            #[trigger] tail[j],
        ) by {
            assert(tail[i] == s[i + 1] && tail[j] == s[j + 1]);
        }
        law_sort_of_sorted::<T>(tail);
        if tail.len() > 0 {
            assert(tail[0] == s[1]);
        }
        assert(tail.insert(0, s[0]) =~= s);
    }
}

/// Sorting a strictly sorted run with one more value, different from all of
/// them, puts that value where it belongs and moves nothing else.
pub proof fn lemma_sort_push_strict<T: Ordered>(t: Seq<T::V>, x: T::V, q: int)
    requires
        strictly_sorted::<T>(t),
        0 <= q <= t.len(),
        forall|k: int| 0 <= k < q ==> T::le(#[trigger] t[k], x) && !T::le(x, t[k]),
        forall|k: int| q <= k < t.len() ==> T::le(x, #[trigger] t[k]) && !T::le(t[k], x),
    ensures
        stable_sort::<T>(t.push(x)) == t.insert(q, x),
    decreases t.len(),
{
    let s = t.push(x);
    if t.len() == 0 {
        assert(s.drop_first() =~= Seq::<T::V>::empty());
        assert(stable_sort::<T>(s.drop_first()) =~= Seq::<T::V>::empty());
        assert(stable_sort::<T>(s) =~= t.insert(q, x));
    } else {
        let tail = t.drop_first();
        assert(s.drop_first() =~= tail.push(x));
        assert forall|i: int, j: int| 0 <= i < j < tail.len() implies T::le(
            #[trigger] tail[i],
            #[trigger] tail[j],
        ) && !T::le(tail[j], tail[i]) by {
            assert(tail[i] == t[i + 1] && tail[j] == t[j + 1]);
        }
        let q1 = if q == 0 {
            0
        } else {
            q - 1
        };
        assert forall|k: int| 0 <= k < q1 implies T::le(#[trigger] tail[k], x) && !T::le(
            x,
            tail[k],
        ) by {
            assert(tail[k] == t[k + 1]);
        }
        assert forall|k: int| q1 <= k < tail.len() implies T::le(x, #[trigger] tail[k]) && !T::le(
            tail[k],
            x,
        ) by {
            assert(tail[k] == t[k + 1]);
        }
        lemma_sort_push_strict::<T>(tail, x, q1);
        let rest = tail.insert(q1, x);
        assert(stable_sort::<T>(s.drop_first()) == rest);
        assert(s[0] == t[0]);
        if q == 0 {
            // x comes first, then t[0], then the tail
            assert(rest[0] == x);
            assert(!T::le(t[0], x));
            assert(rest.drop_first() =~= tail);
            if tail.len() > 0 {
                assert(tail[0] == t[1]);
                assert(T::le(t[0], tail[0]));
            }
            assert(place_of::<T>(t[0], tail) == 0);
            assert(place_of::<T>(t[0], rest) == 1);
            assert(rest.insert(1, t[0]) =~= t.insert(0, x));
        } else {
            assert(T::le(t[0], x));
            if q1 == 0 {
                assert(rest[0] == x);
            } else {
                assert(rest[0] == tail[0]);
                assert(tail[0] == t[1]);
            }
            assert(place_of::<T>(t[0], rest) == 0);
            assert(rest.insert(0, t[0]) =~= t.insert(q, x));
        }
    }
}

/// Sorts a vector.
pub fn sort<T: Ordered>(items: Vec<T>) -> (out: Vec<T>)
    ensures
        out.deep_view() == stable_sort::<T>(items.deep_view()),
{
    let ghost all = items.deep_view();
    let mut items = items;
    let mut out: Vec<T> = Vec::new();
    proof {
        assert(all.skip(all.len() as int) =~= Seq::<T::V>::empty());
        assert(out.deep_view() =~= Seq::<T::V>::empty());
    }
    while items.len() > 0
        invariant
            items.len() <= all.len(),
            items.deep_view() == all.take(items.len() as int),
            out.deep_view() == stable_sort::<T>(all.skip(items.len() as int)),
        decreases items.len(),
    {
        let ghost before = items.deep_view();
        let ghost sorted_part = out.deep_view();
        let x = items.pop().unwrap();
        proof {
            assert(x.deep_view() == before[items.len() as int]);
            assert(items.deep_view() =~= all.take(items.len() as int));
        }
        let mut p: usize = 0;
        proof {
            assert(sorted_part.skip(0) =~= sorted_part);
        }
        while p < out.len() && !x.le_exec(&out[p])
            invariant
                p <= out.len(),
                out.deep_view() == sorted_part,
                place_of::<T>(x.deep_view(), sorted_part) == p + place_of::<T>(
                    x.deep_view(),
                    sorted_part.skip(p as int),
                ),
            decreases out.len() - p,
        {
            proof {
                assert(sorted_part.skip(p as int)[0] == out[p as int].deep_view());
                assert(sorted_part.skip(p as int).drop_first() =~= sorted_part.skip(p as int + 1));
            }
            p = p + 1;
        }
        proof {
            if p < out.len() {
                assert(sorted_part.skip(p as int)[0] == out[p as int].deep_view());
            } else {
                assert(sorted_part.skip(p as int) =~= Seq::<T::V>::empty());
            }
            let ghost rest = all.skip(items.len() as int);
            assert(rest[0] == x.deep_view());
            assert(rest.drop_first() =~= all.skip(items.len() as int + 1));
        }
        out.insert(p, x);
        proof {
            assert(out.deep_view() =~= sorted_part.insert(p as int, x.deep_view()));
        }
    }
    proof {
        assert(all.skip(0) =~= all);
    }
    out
}

} // verus!
