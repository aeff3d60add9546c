//! A stable sort, for types that have an order of their own.

use vstd::prelude::*;

verus! {

/// An order of values: whether the first may stand before the second.
pub type Order<A> = spec_fn(A, A) -> bool;

/// Whether of two values one may always stand before the other, and what may
/// stand before a value may stand before all that come after it.
pub open spec fn is_order<A>(le: Order<A>) -> bool {
    &&& forall|a: A, b: A| #[trigger] le(a, b) || le(b, a)
    &&& forall|a: A, b: A, c: A| #[trigger] le(a, b) && #[trigger] le(b, c) ==> le(a, c)
}

/// `x` put into `s`, behind the last of those that may stand before it.
pub open spec fn inserted<A>(s: Seq<A>, x: A, le: Order<A>) -> Seq<A>
    decreases s.len(),
{
    if s.len() == 0 {
        seq![x]
    } else if le(s.last(), x) {
        s.push(x)
    } else {
        inserted(s.drop_last(), x, le).push(s.last())
    }
}

/// `s` in order. Those that rank the same stay in the order that they had.
pub open spec fn sorted<A>(s: Seq<A>, le: Order<A>) -> Seq<A>
    decreases s.len(),
{
    if s.len() == 0 {
        seq![]
    } else {
        inserted(sorted(s.drop_last(), le), s.last(), le)
    }
}

/// Whether each may stand before all that follow.
pub open spec fn in_order<A>(s: Seq<A>, le: Order<A>) -> bool {
    forall|i: int, j: int| 0 <= i < j < s.len() ==> le(#[trigger] s[i], #[trigger] s[j])
}

/// The test for those that rank the same as `a`.
pub open spec fn ties<A>(a: A, le: Order<A>) -> spec_fn(A) -> bool {
    |b: A| le(a, b) && le(b, a)
}

proof fn lemma_inserted_at<A>(s: Seq<A>, x: A, le: Order<A>, p: int)
    requires
        0 <= p <= s.len(),
        p > 0 ==> le(s[p - 1], x),
        forall|j: int| p <= j < s.len() ==> !le(#[trigger] s[j], x),
    ensures
        inserted(s, x, le) == s.insert(p, x),
    decreases s.len(),
{
    if p == s.len() {
        if s.len() > 0 {
            assert(s.last() == s[p - 1]);
        }
        assert(inserted(s, x, le) =~= s.insert(p, x));
    } else {
        assert(!le(s[s.len() - 1], x));
        lemma_inserted_at(s.drop_last(), x, le, p);
        assert(inserted(s, x, le) =~= s.insert(p, x));
    }
}

proof fn lemma_inserted_in_order<A>(s: Seq<A>, x: A, le: Order<A>)
    requires
        is_order(le),
        in_order(s, le),
    ensures
        in_order(inserted(s, x, le), le),
        inserted(s, x, le).to_multiset() =~= s.to_multiset().insert(x),
        inserted(s, x, le).len() == s.len() + 1,
        forall|i: int|
            0 <= i < inserted(s, x, le).len() ==> (#[trigger] inserted(s, x, le)[i] == x
                || s.contains(inserted(s, x, le)[i])),
    decreases s.len(),
{
    broadcast use vstd::seq_lib::group_to_multiset_ensures;

    if s.len() == 0 {
        assert(seq![x] =~= Seq::<A>::empty().push(x));
        assert(s =~= Seq::<A>::empty());
    } else if le(s.last(), x) {
        assert forall|i: int, j: int| 0 <= i < j < s.push(x).len() implies le(
            #[trigger] s.push(x)[i],
            #[trigger] s.push(x)[j],
        ) by {
            if j == s.len() && i < s.len() - 1 {
                assert(le(s[i], s[s.len() - 1]));
            }
        }
    } else {
        let d = s.drop_last();
        let last = s.last();
        lemma_inserted_in_order(d, x, le);
        assert(le(last, x) || le(x, last));
        let out = inserted(d, x, le).push(last);
        assert forall|i: int| 0 <= i < d.len() implies le(#[trigger] d[i], last) by {
            assert(d[i] == s[i]);
        }
        assert forall|i: int, j: int| 0 <= i < j < out.len() implies le(
            #[trigger] out[i],
            #[trigger] out[j],
        ) by {
            if j == out.len() - 1 {
                assert(out[i] == inserted(d, x, le)[i]);
                if out[i] != x {
                    assert(d.contains(out[i]));
                    let k = choose|k: int| 0 <= k < d.len() && d[k] == out[i];
                    assert(le(d[k], last));
                }
            } else {
                assert(out[i] == inserted(d, x, le)[i]);
                assert(out[j] == inserted(d, x, le)[j]);
            }
        }
        assert forall|i: int| 0 <= i < out.len() implies (#[trigger] out[i] == x || s.contains(
            out[i],
        )) by {
            if i < out.len() - 1 {
                assert(out[i] == inserted(d, x, le)[i]);
                if out[i] != x {
                    let k = choose|k: int| 0 <= k < d.len() && d[k] == out[i];
                    assert(s[k] == out[i]);
                }
            } else {
                assert(out[i] == s[s.len() - 1]);
            }
        }
        assert(s =~= d.push(last));
        assert(out.to_multiset() =~= s.to_multiset().insert(x));
    }
}

/// A sorted list is in order, and holds what the list held.
pub proof fn law_sorted_is_in_order<A>(s: Seq<A>, le: Order<A>)
    requires
        is_order(le),
    ensures
        in_order(sorted(s, le), le),
        sorted(s, le).to_multiset() == s.to_multiset(),
        sorted(s, le).len() == s.len(),
    decreases s.len(),
{
    broadcast use vstd::seq_lib::group_to_multiset_ensures;

    if s.len() > 0 {
        law_sorted_is_in_order(s.drop_last(), le);
        lemma_inserted_in_order(sorted(s.drop_last(), le), s.last(), le);
        assert(s =~= s.drop_last().push(s.last()));
    } else {
        assert(sorted(s, le) =~= s);
    }
}

proof fn lemma_inserted_keeps_ties<A>(s: Seq<A>, x: A, le: Order<A>, a: A)
    requires
        is_order(le),
    ensures
        inserted(s, x, le).filter(ties(a, le)) == (if ties(a, le)(x) {
            s.filter(ties(a, le)).push(x)
        } else {
            s.filter(ties(a, le))
        }),
    decreases s.len(),
{
    let p = ties(a, le);
    reveal(Seq::filter);
    if s.len() == 0 {
        assert(seq![x].drop_last() =~= Seq::<A>::empty());
        assert(seq![x].last() == x);
        assert(Seq::<A>::empty().filter(p) =~= Seq::<A>::empty());
        assert(s.filter(p) =~= Seq::<A>::empty());
    } else if le(s.last(), x) {
        assert(s.push(x).drop_last() =~= s);
    } else {
        let d = s.drop_last();
        lemma_inserted_keeps_ties(d, x, le, a);
        let out = inserted(d, x, le).push(s.last());
        assert(out.drop_last() =~= inserted(d, x, le));
        if p(x) && p(s.last()) {
            assert(le(s.last(), a) && le(a, x));
        }
    }
}

/// Those that rank the same keep their order.
pub proof fn law_sort_is_stable<A>(s: Seq<A>, le: Order<A>, a: A)
    requires
        is_order(le),
    ensures
        sorted(s, le).filter(ties(a, le)) == s.filter(ties(a, le)),
    decreases s.len(),
{
    reveal(Seq::filter);
    if s.len() > 0 {
        law_sort_is_stable(s.drop_last(), le, a);
        lemma_inserted_keeps_ties(sorted(s.drop_last(), le), s.last(), le, a);
    }
}

/// A type whose values have an order, by what they stand for.
pub trait Ranked: View + Sized {
    /// The order of what the values stand for.
    spec fn order() -> Order<Self::V>;

    /// Whether `self` may stand before `other`.
    fn precedes(&self, other: &Self) -> (r: bool)
        ensures
            r == Self::order()(self@, other@),
    ;
}

/// What each value of a list stands for.
pub open spec fn views<T: View>(s: Seq<T>) -> Seq<T::V> {
    s.map_values(|x: T| x@)
}

/// Puts a list in order.
pub fn sort<T: Ranked>(list: Vec<T>) -> (out: Vec<T>)
    ensures
        views(out@) == sorted(views(list@), T::order()),
{
    let mut rest: Vec<T> = list;
    let mut out: Vec<T> = Vec::new();
    let ghost mut done = Seq::<T::V>::empty();
    assert(done + views(rest@) =~= views(list@));
    assert(views(out@) =~= sorted(done, T::order()));
    while rest.len() > 0
        invariant
            done + views(rest@) == views(list@),
            views(out@) == sorted(done, T::order()),
        decreases rest@.len(),
    {
        let ghost before = views(rest@);
        let x = rest.remove(0);
        let mut p: usize = out.len();
        while p > 0 && !out[p - 1].precedes(&x)
            invariant
                p <= out@.len(),
                forall|j: int| p <= j < out@.len() ==> !T::order()(#[trigger] views(out@)[j], x@),
            decreases p,
        {
            p -= 1;
            assert(views(out@)[p as int] == out@[p as int]@);
        }
        proof {
            lemma_inserted_at(views(out@), x@, T::order(), p as int);
            assert(done.push(x@).drop_last() =~= done);
            assert(done.push(x@) + views(rest@) =~= done + before);
            done = done.push(x@);
            assert(views(out@.insert(p as int, x)) =~= views(out@).insert(p as int, x@));
        }
        out.insert(p, x);
    }
    assert(done =~= views(list@));
    out
}

} // verus!
