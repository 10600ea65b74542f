//! Stable sorting.

use vstd::prelude::*;

verus! {

/// A type with a strict weak order.
pub trait Ranked: Sized {
    /// `self` sorts strictly before `other`.
    spec fn before(self, other: Self) -> bool;

    /// `before` is a strict weak order.
    proof fn before_is_strict_weak_order(a: Self, b: Self, c: Self)
        ensures
            !a.before(a),
            a.before(b) ==> !b.before(a),
            a.before(b) && b.before(c) ==> a.before(c),
            !a.before(b) && !b.before(c) ==> !a.before(c),
    ;

    /// Whether `self` sorts strictly before `other`.
    fn sorts_before(&self, other: &Self) -> (r: bool)
        ensures
            r == self.before(*other),
    ;
}

/// `s` with `x` behind every element that does not sort after it.
pub open spec fn placed<T: Ranked>(s: Seq<T>, x: T) -> Seq<T>
    decreases s.len(),
{
    if s.len() == 0 || !x.before(s.last()) {
        s.push(x)
    } else {
        placed(s.drop_last(), x).push(s.last())
    }
}

/// The elements of `s` in order; equals keep the order they had.
pub open spec fn sorted<T: Ranked>(s: Seq<T>) -> Seq<T>
    decreases s.len(),
{
    if s.len() == 0 {
        s
    } else {
        placed(sorted(s.drop_last()), s.last())
    }
}

/// Nothing in `s` sorts before something ahead of it.
pub open spec fn ordered<T: Ranked>(s: Seq<T>) -> bool {
    forall|i: int, j: int| 0 <= i < j < s.len() ==> !(#[trigger] s[j]).before(#[trigger] s[i])
}

proof fn lemma_placed<T: Ranked>(s: Seq<T>, x: T)
    requires
        ordered(s),
    ensures
        ordered(placed(s, x)),
        placed(s, x).to_multiset() == s.to_multiset().insert(x),
        placed(s, x).len() == s.len() + 1,
    decreases s.len(),
{
    broadcast use vstd::seq_lib::group_to_multiset_ensures;

    let p = placed(s, x);
    if s.len() == 0 {
        assert(p =~= s.push(x));
    } else if !x.before(s.last()) {
        assert forall|i: int, j: int| 0 <= i < j < p.len() implies !(#[trigger] p[j]).before(
            #[trigger] p[i],
        ) by {
            if j == s.len() && i < s.len() - 1 {
                assert(!s[s.len() - 1].before(s[i]));
                T::before_is_strict_weak_order(x, s.last(), s[i]);
            }
        }
    } else {
        let t = s.drop_last();
        assert(ordered(t)) by {
            assert forall|i: int, j: int| 0 <= i < j < t.len() implies !(#[trigger] t[j]).before(
                #[trigger] t[i],
            ) by {
                assert(!s[j].before(s[i]));
            }
        }
        lemma_placed(t, x);
        let q = placed(t, x);
        assert(s =~= t.push(s.last()));
        assert(p.to_multiset() =~= s.to_multiset().insert(x));
        assert forall|i: int, j: int| 0 <= i < j < p.len() implies !(#[trigger] p[j]).before(
            #[trigger] p[i],
        ) by {
            if j < q.len() {
                assert(!q[j].before(q[i]));
            } else {
                assert(q.to_multiset().contains(q[i]));
                if q[i] == x {
                    T::before_is_strict_weak_order(x, s.last(), x);
                } else {
                    assert(t.to_multiset().contains(q[i]));
                    assert(t.contains(q[i]));
                    let k = choose|k: int| 0 <= k < t.len() && t[k] == q[i];
                    assert(!s[s.len() - 1].before(s[k]));
                }
            }
        }
    }
}

/// Sorting puts the elements in order and neither adds nor loses one.
pub proof fn sorted_is_ordered_permutation<T: Ranked>(s: Seq<T>)
    ensures
        ordered(sorted(s)),
        sorted(s).to_multiset() == s.to_multiset(),
        sorted(s).len() == s.len(),
    decreases s.len(),
{
    broadcast use vstd::seq_lib::group_to_multiset_ensures;

    if s.len() > 0 {
        let t = s.drop_last();
        sorted_is_ordered_permutation(t);
        lemma_placed(sorted(t), s.last());
        assert(s =~= t.push(s.last()));
    }
}

proof fn lemma_placed_at_end<T: Ranked>(s: Seq<T>, x: T)
    requires
        s.len() > 0 ==> !x.before(s.last()),
    ensures
        placed(s, x) == s.push(x),
{
}

/// Sorting what is in order changes nothing.
pub proof fn sorting_sorted_is_identity<T: Ranked>(s: Seq<T>)
    requires
        ordered(s),
    ensures
        sorted(s) == s,
    decreases s.len(),
{
    if s.len() > 0 {
        let t = s.drop_last();
        assert forall|i: int, j: int| 0 <= i < j < t.len() implies !(#[trigger] t[j]).before(
            #[trigger] t[i],
        ) by {
            assert(!s[j].before(s[i]));
        }
        sorting_sorted_is_identity(t);
        if t.len() > 0 {
            assert(!s[s.len() - 1].before(s[s.len() - 2]));
        }
        lemma_placed_at_end(t, s.last());
        assert(t.push(s.last()) =~= s);
    }
}

/// The element that comes out first has nothing before it.
pub proof fn first_of_sorted_is_best<T: Ranked>(s: Seq<T>, i: int)
    requires
        0 <= i < s.len(),
    ensures
        sorted(s).len() > 0,
        !s[i].before(sorted(s)[0]),
        s.contains(sorted(s)[0]),
{
    broadcast use vstd::seq_lib::group_to_multiset_ensures;

    sorted_is_ordered_permutation(s);
    let r = sorted(s);
    assert(s.to_multiset().contains(s[i]));
    assert(r.contains(s[i]));
    let k = choose|k: int| 0 <= k < r.len() && r[k] == s[i];
    T::before_is_strict_weak_order(r[0], r[0], r[0]);
    if k > 0 {
        assert(!r[k].before(r[0]));
    }
    assert(r.to_multiset().contains(r[0]));
}

fn place<T: Ranked>(v: &mut Vec<T>, x: T)
    ensures
        final(v)@ == placed(old(v)@, x),
{
    let ghost s = v@;
    let n: usize = v.len();
    let mut i: usize = n;
    assert(s.take(n as int) =~= s);
    assert(s.skip(n as int) =~= Seq::empty());
    assert(placed(s, x) =~= placed(s.take(n as int), x) + s.skip(n as int));
    while i > 0 && x.sorts_before(&v[i - 1])
        invariant
            v@ == s,
            i <= n == s.len(),
            placed(s, x) == placed(s.take(i as int), x) + s.skip(i as int),
        decreases i,
    {
        proof {
            let t = s.take(i as int);
            assert(t.last() == s[i - 1]);
            assert(t.drop_last() =~= s.take(i - 1));
            assert(placed(t, x) == placed(s.take(i - 1), x).push(s[i - 1]));
            assert(placed(s.take(i - 1), x).push(s[i - 1]) + s.skip(i as int) =~= placed(
                s.take(i - 1),
                x,
            ) + s.skip(i - 1));
        }
        i = i - 1;
    }
    proof {
        let t = s.take(i as int);
        if i > 0 {
            assert(t.last() == s[i - 1]);
        }
        assert(placed(t, x) == t.push(x));
        assert(t.push(x) + s.skip(i as int) =~= s.insert(i as int, x));
    }
    v.insert(i, x);
}

/// Sorts; equal elements keep their order.
pub fn sort<T: Ranked>(items: Vec<T>) -> (r: Vec<T>)
    ensures
        r@ == sorted(items@),
{
    let ghost all = items@;
    let mut out: Vec<T> = Vec::new();
    assert(all.take(0) =~= Seq::empty());
    assert(sorted(all.take(0)) =~= Seq::empty());
    let ghost mut done: int = 0;
    for x in it: items
        invariant
            it.seq() == all,
            done == it.index(),
            out@ == sorted(all.take(done)),
    {
        proof {
            assert(all.take(done + 1).drop_last() =~= all.take(done));
        }
        place(&mut out, x);
        proof {
            done = done + 1;
        }
    }
    assert(all.take(done) =~= all);
    out
}

// ---------------------------------------------------------------------------
// Laws
// ---------------------------------------------------------------------------

/// Neither of two elements sorts before the other.
pub open spec fn level<T: Ranked>(x: T) -> spec_fn(T) -> bool {
    |y: T| !x.before(y) && !y.before(x)
}

proof fn lemma_placed_is_stable<T: Ranked>(s: Seq<T>, x: T, w: T)
    requires
        ordered(s),
    ensures
        placed(s, x).filter(level(w)) == s.push(x).filter(level(w)),
    decreases s.len(),
{
    if s.len() > 0 && x.before(s.last()) {
        let t = s.drop_last();
        let y = s.last();
        assert(ordered(t)) by {
            assert forall|i: int, j: int| 0 <= i < j < t.len() implies !(#[trigger] t[j]).before(
                #[trigger] t[i],
            ) by {
                assert(!s[j].before(s[i]));
            }
        }
        lemma_placed_is_stable(t, x, w);
        let p = placed(t, x);
        lemma_filter_push(p, y, level(w));
        lemma_filter_push(t, x, level(w));
        lemma_filter_push(t, y, level(w));
        lemma_filter_push(s, x, level(w));
        assert(s =~= t.push(y));
        T::before_is_strict_weak_order(x, w, y);
        T::before_is_strict_weak_order(w, x, y);
        T::before_is_strict_weak_order(x, y, w);
        T::before_is_strict_weak_order(y, w, x);
    }
}

proof fn lemma_filter_push<T>(s: Seq<T>, x: T, f: spec_fn(T) -> bool)
    ensures
        s.push(x).filter(f) == if f(x) {
            s.filter(f).push(x)
        } else {
            s.filter(f)
        },
{
    reveal(Seq::filter);
    assert(s.push(x).drop_last() =~= s);
}

proof fn lemma_sorted_is_stable<T: Ranked>(s: Seq<T>, w: T)
    ensures
        sorted(s).filter(level(w)) == s.filter(level(w)),
    decreases s.len(),
{
    if s.len() > 0 {
        let t = s.drop_last();
        lemma_sorted_is_stable(t, w);
        sorted_is_ordered_permutation(t);
        lemma_placed_is_stable(sorted(t), s.last(), w);
        lemma_filter_push(sorted(t), s.last(), level(w));
        lemma_filter_push(t, s.last(), level(w));
        assert(s =~= t.push(s.last()));
    }
}

/// Sorting puts nothing behind what sorts after it, loses and adds nothing, and
/// keeps what is level in the order that it had.
pub proof fn sorting_is_stable<T: Ranked>(items: Vec<T>, r: Vec<T>, w: T)
    requires
        call_ensures(sort::<T>, (items,), r),
    ensures
        forall|i: int, j: int|
            0 <= i < j < r@.len() ==> !(#[trigger] r@[j]).before(#[trigger] r@[i]),
        r@.to_multiset() == items@.to_multiset(),
        r@.filter(level(w)) == items@.filter(level(w)),
{
    sorted_is_ordered_permutation(items@);
    lemma_sorted_is_stable(items@, w);
}

} // verus!
