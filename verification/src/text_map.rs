//! A map from text to values, kept in key order.

use vstd::prelude::*;

use crate::text;

verus! {

/// The keys of `l` strictly increase.
pub open spec fn in_order<V>(l: Seq<(Seq<char>, V)>) -> bool {
    forall|i: int, j: int|
        0 <= i < j < l.len() ==> text::text_lt((#[trigger] l[i]).0, (#[trigger] l[j]).0)
}

/// `l` with `v` stored under `k`: in place of what was there, or where `k`
/// belongs in the order.
pub open spec fn put<V>(l: Seq<(Seq<char>, V)>, k: Seq<char>, v: V) -> Seq<(Seq<char>, V)>
    decreases l.len(),
{
    if l.len() == 0 {
        seq![(k, v)]
    } else if l[0].0 == k {
        l.update(0, (k, v))
    } else if text::text_lt(k, l[0].0) {
        seq![(k, v)] + l
    } else {
        seq![l[0]] + put(l.drop_first(), k, v)
    }
}

/// What is stored in `l` under `k`.
pub open spec fn lookup<V>(l: Seq<(Seq<char>, V)>, k: Seq<char>) -> Option<V>
    decreases l.len(),
{
    if l.len() == 0 {
        None
    } else if l[0].0 == k {
        Some(l[0].1)
    } else {
        lookup(l.drop_first(), k)
    }
}

/// Storing under `k` changes what is found under `k` and nothing else.
pub proof fn lookup_after_put<V>(l: Seq<(Seq<char>, V)>, k: Seq<char>, v: V, q: Seq<char>)
    ensures
        lookup(put(l, k, v), q) == if q == k {
            Some(v)
        } else {
            lookup(l, q)
        },
    decreases l.len(),
{
    if l.len() > 0 {
        let m = put(l, k, v);
        if l[0].0 == k {
            assert(m.drop_first() =~= l.drop_first());
        } else if text::text_lt(k, l[0].0) {
            assert(m.drop_first() =~= l);
        } else {
            lookup_after_put(l.drop_first(), k, v, q);
            assert(m.drop_first() =~= put(l.drop_first(), k, v));
        }
    } else {
        assert(put(l, k, v).drop_first() =~= l);
    }
}

/// Storing keeps the keys in order.
pub proof fn put_keeps_order<V>(l: Seq<(Seq<char>, V)>, k: Seq<char>, v: V)
    requires
        in_order(l),
    ensures
        in_order(put(l, k, v)),
        forall|i: int|
            0 <= i < put(l, k, v).len() ==> (#[trigger] put(l, k, v)[i]).0 == k || exists|j: int|
                0 <= j < l.len() && l[j].0 == put(l, k, v)[i].0,
    decreases l.len(),
{
    let m = put(l, k, v);
    if l.len() > 0 {
        let h = l[0].0;
        text::text_lt_is_total_order(k, h, k);
        if h == k {
            assert forall|i: int| 0 <= i < m.len() implies (#[trigger] m[i]).0 == k || exists|j: int|
                0 <= j < l.len() && l[j].0 == m[i].0 by {
                assert(l[i].0 == m[i].0);
            }
        } else if text::text_lt(k, h) {
            assert forall|i: int, j: int| 0 <= i < j < m.len() implies text::text_lt(
                (#[trigger] m[i]).0,
                (#[trigger] m[j]).0,
            ) by {
                if i == 0 {
                    if j > 1 {
                        assert(text::text_lt(l[0].0, l[j - 1].0));
                    }
                    text::text_lt_is_total_order(k, h, m[j].0);
                } else {
                    assert(m[i] == l[i - 1] && m[j] == l[j - 1]);
                }
            }
            assert forall|i: int| 0 <= i < m.len() implies (#[trigger] m[i]).0 == k || exists|j: int|
                0 <= j < l.len() && l[j].0 == m[i].0 by {
                if i > 0 {
                    assert(l[i - 1].0 == m[i].0);
                }
            }
        } else {
            let t = l.drop_first();
            let r = put(t, k, v);
            assert forall|i: int, j: int| 0 <= i < j < t.len() implies text::text_lt(
                (#[trigger] t[i]).0,
                (#[trigger] t[j]).0,
            ) by {
                assert(t[i] == l[i + 1] && t[j] == l[j + 1]);
            }
            put_keeps_order(t, k, v);
            assert forall|i: int| 0 <= i < m.len() implies (#[trigger] m[i]).0 == k || exists|j: int|
                0 <= j < l.len() && l[j].0 == m[i].0 by {
                if i > 0 {
                    assert(m[i] == r[i - 1]);
                    if m[i].0 != k {
                        let j = choose|j: int| 0 <= j < t.len() && t[j].0 == r[i - 1].0;
                        assert(l[j + 1].0 == m[i].0);
                    }
                } else {
                    assert(l[0].0 == m[0].0);
                }
            }
            assert forall|i: int, j: int| 0 <= i < j < m.len() implies text::text_lt(
                (#[trigger] m[i]).0,
                (#[trigger] m[j]).0,
            ) by {
                assert(m[j] == r[j - 1]);
                if i == 0 {
                    if r[j - 1].0 != k {
                        let q = choose|q: int| 0 <= q < t.len() && t[q].0 == r[j - 1].0;
                        assert(text::text_lt(l[0].0, l[q + 1].0));
                    }
                } else {
                    assert(m[i] == r[i - 1]);
                }
            }
        }
    }
}

/// A key behind all others goes to the end.
pub proof fn put_at_end<V>(l: Seq<(Seq<char>, V)>, k: Seq<char>, v: V)
    requires
        forall|i: int| 0 <= i < l.len() ==> text::text_lt((#[trigger] l[i]).0, k),
    ensures
        put(l, k, v) == l.push((k, v)),
    decreases l.len(),
{
    if l.len() > 0 {
        assert(text::text_lt(l[0].0, k));
        text::text_lt_is_total_order(l[0].0, k, k);
        assert forall|i: int| 0 <= i < l.drop_first().len() implies text::text_lt(
            (#[trigger] l.drop_first()[i]).0,
            k,
        ) by {
            assert(l.drop_first()[i] == l[i + 1]);
        }
        put_at_end(l.drop_first(), k, v);
        assert(put(l, k, v) =~= l.push((k, v)));
    } else {
        assert(put(l, k, v) =~= l.push((k, v)));
    }
}

/// Where no entry has the key, nothing is found.
pub proof fn absent_key_is_not_found<V>(l: Seq<(Seq<char>, V)>, k: Seq<char>)
    requires
        forall|i: int| 0 <= i < l.len() ==> (#[trigger] l[i]).0 != k,
    ensures
        lookup(l, k) is None,
    decreases l.len(),
{
    if l.len() > 0 {
        assert(l[0].0 != k);
        assert forall|i: int| 0 <= i < l.drop_first().len() implies (#[trigger] l.drop_first()[i]).0
            != k by {
            assert(l[i + 1].0 != k);
        }
        absent_key_is_not_found(l.drop_first(), k);
    }
}

/// What is found stands at some place.
proof fn lemma_found<V>(l: Seq<(Seq<char>, V)>, k: Seq<char>) -> (i: int)
    requires
        lookup(l, k) is Some,
    ensures
        0 <= i < l.len(),
        l[i].0 == k,
    decreases l.len(),
{
    if l[0].0 == k {
        0
    } else {
        lemma_found(l.drop_first(), k) + 1
    }
}

/// Lists in order in which the same is found under every key are the same.
pub proof fn same_lookups_same_entries<V>(a: Seq<(Seq<char>, V)>, b: Seq<(Seq<char>, V)>)
    requires
        in_order(a),
        in_order(b),
        forall|k: Seq<char>| #[trigger] lookup(a, k) == lookup(b, k),
    ensures
        a == b,
    decreases a.len(),
{
    if a.len() == 0 {
        if b.len() > 0 {
            assert(lookup(a, b[0].0) == lookup(b, b[0].0));
        }
        assert(a =~= b);
    } else {
        let k = a[0].0;
        assert(lookup(a, k) == lookup(b, k));
        let i = lemma_found(b, k);
        let h = b[0].0;
        assert(lookup(a, h) == lookup(b, h));
        let j = lemma_found(a, h);
        if k != h {
            assert(i > 0 && j > 0);
            assert(text::text_lt(b[0].0, b[i].0));
            assert(text::text_lt(a[0].0, a[j].0));
            text::text_lt_is_total_order(k, h, k);
        }
        let s = a.drop_first();
        let t = b.drop_first();
        assert forall|m: int, n: int| 0 <= m < n < s.len() implies text::text_lt(
            (#[trigger] s[m]).0,
            (#[trigger] s[n]).0,
        ) by {
            assert(s[m] == a[m + 1] && s[n] == a[n + 1]);
        }
        assert forall|m: int, n: int| 0 <= m < n < t.len() implies text::text_lt(
            (#[trigger] t[m]).0,
            (#[trigger] t[n]).0,
        ) by {
            assert(t[m] == b[m + 1] && t[n] == b[n + 1]);
        }
        assert forall|m: int| 0 <= m < s.len() implies (#[trigger] s[m]).0 != k by {
            assert(text::text_lt(a[0].0, a[m + 1].0));
            text::text_lt_is_total_order(k, k, k);
        }
        assert forall|m: int| 0 <= m < t.len() implies (#[trigger] t[m]).0 != k by {
            assert(text::text_lt(b[0].0, b[m + 1].0));
            text::text_lt_is_total_order(k, k, k);
        }
        assert forall|q: Seq<char>| #[trigger] lookup(s, q) == lookup(t, q) by {
            if q == k {
                absent_key_is_not_found(s, q);
                absent_key_is_not_found(t, q);
            } else {
                assert(lookup(a, q) == lookup(b, q));
            }
        }
        same_lookups_same_entries(s, t);
        assert(a =~= seq![a[0]] + s);
        assert(b =~= seq![b[0]] + t);
    }
}

proof fn lemma_put_at<V>(l: Seq<(Seq<char>, V)>, k: Seq<char>, v: V, n: int)
    requires
        0 <= n <= l.len(),
        forall|i: int| 0 <= i < n ==> (#[trigger] l[i]).0 != k && !text::text_lt(k, l[i].0),
        n == l.len() || l[n].0 == k || text::text_lt(k, l[n].0),
    ensures
        put(l, k, v) == if n < l.len() && l[n].0 == k {
            l.update(n, (k, v))
        } else {
            l.insert(n, (k, v))
        },
    decreases l.len(),
{
    let goal = if n < l.len() && l[n].0 == k {
        l.update(n, (k, v))
    } else {
        l.insert(n, (k, v))
    };
    if n == 0 {
        assert(put(l, k, v) =~= goal);
    } else {
        assert(l[0].0 != k);
        let t = l.drop_first();
        assert forall|i: int| 0 <= i < n - 1 implies (#[trigger] t[i]).0 != k && !text::text_lt(
            k,
            t[i].0,
        ) by {
            assert(t[i] == l[i + 1]);
        }
        lemma_put_at(t, k, v, n - 1);
        assert(put(l, k, v) =~= goal);
    }
}

/// A map with text keys; its model lists the entries in key order.
#[derive(Debug)]
pub struct TextMap<V> {
    entries: Vec<(String, V)>,
}

impl<V> TextMap<V> {
    /// The keys strictly increase.
    #[verifier::type_invariant]
    spec fn keys_in_order(self) -> bool {
        forall|i: int, j: int|
            0 <= i < j < self.entries@.len() ==> text::text_lt(
                (#[trigger] self.entries@[i]).0@,
                (#[trigger] self.entries@[j]).0@,
            )
    }
}

impl<V> TextMap<V> {
    /// The keys.
    pub closed spec fn keys(self) -> Seq<Seq<char>> {
        Seq::new(self.entries@.len(), |i: int| self.entries@[i].0@)
    }

    /// The value under the `i`-th key.
    pub closed spec fn value(self, i: int) -> V {
        self.entries@[i].1
    }
}

impl<V: Clone> Clone for TextMap<V> {
    fn clone(&self) -> (r: Self)
        ensures
            r.keys() == self.keys(),
            forall|i: int|
                0 <= i < self.keys().len() ==> cloned::<V>(self.value(i), #[trigger] r.value(i)),
    {
        proof {
            use_type_invariant(self);
        }
        let mut entries: Vec<(String, V)> = Vec::new();
        for i in 0..self.entries.len()
            invariant
                entries@.len() == i,
                forall|j: int|
                    0 <= j < i ==> (#[trigger] entries@[j]).0@ == self.entries@[j].0@ && cloned::<
                        V,
                    >(self.entries@[j].1, entries@[j].1),
        {
            entries.push((self.entries[i].0.clone(), self.entries[i].1.clone()));
        }
        proof {
            assert forall|a: int, b: int| 0 <= a < b < entries@.len() implies text::text_lt(
                (#[trigger] entries@[a]).0@,
                (#[trigger] entries@[b]).0@,
            ) by {
                assert(text::text_lt(self.entries@[a].0@, self.entries@[b].0@));
            }
        }
        let r = TextMap { entries };
        assert(r.keys() =~= self.keys());
        r
    }
}

impl<V: DeepView> View for TextMap<V> {
    type V = Seq<(Seq<char>, V::V)>;

    closed spec fn view(&self) -> Seq<(Seq<char>, V::V)> {
        Seq::new(
            self.entries@.len(),
            |i: int| (self.entries@[i].0@, self.entries@[i].1.deep_view()),
        )
    }
}

impl<V: DeepView> TextMap<V> {
    /// The empty map.
    pub fn new() -> (r: Self)
        ensures
            r@ == Seq::<(Seq<char>, V::V)>::empty(),
    {
        let r: TextMap<V> = TextMap { entries: Vec::new() };
        assert(r@ =~= Seq::empty());
        r
    }

    /// How many entries there are; every map lists them in key order.
    pub fn len(&self) -> (r: usize)
        ensures
            r == self@.len(),
            in_order(self@),
    {
        proof {
            use_type_invariant(self);
            assert forall|i: int, j: int| 0 <= i < j < self@.len() implies text::text_lt(
                (#[trigger] self@[i]).0,
                (#[trigger] self@[j]).0,
            ) by {
                assert(text::text_lt(self.entries@[i].0@, self.entries@[j].0@));
            }
        }
        self.entries.len()
    }

    pub fn is_empty(&self) -> (r: bool)
        ensures
            r == (self@.len() == 0),
    {
        self.entries.len() == 0
    }

    /// The `i`-th key.
    pub fn key_at(&self, i: usize) -> (r: &str)
        requires
            i < self@.len(),
        ensures
            r@ == self@[i as int].0,
    {
        self.entries[i].0.as_str()
    }

    /// The value under the `i`-th key.
    pub fn value_at(&self, i: usize) -> (r: &V)
        requires
            i < self@.len(),
        ensures
            r.deep_view() == self@[i as int].1,
    {
        &self.entries[i].1
    }

    pub fn get(&self, k: &str) -> (r: Option<&V>)
        ensures
            match r {
                Some(v) => lookup(self@, k@) == Some(v.deep_view()),
                None => lookup(self@, k@) is None,
            },
    {
        let mut i: usize = 0;
        assert(self@.skip(0) =~= self@);
        while i < self.entries.len()
            invariant
                i <= self.entries.len(),
                self@.len() == self.entries.len(),
                lookup(self@, k@) == lookup(self@.skip(i as int), k@),
            decreases self.entries.len() - i,
        {
            if text::same_text(self.entries[i].0.as_str(), k) {
                return Some(&self.entries[i].1);
            }
            assert(self@.skip(i as int).drop_first() =~= self@.skip(i + 1));
            i = i + 1;
        }
        None
    }

    pub fn contains_key(&self, k: &str) -> (r: bool)
        ensures
            r == (lookup(self@, k@) is Some),
    {
        self.get(k).is_some()
    }

    /// Stores `v` under `k`.
    pub fn insert(&mut self, k: String, v: V)
        ensures
            final(self)@ == put(old(self)@, k@, v.deep_view()),
            in_order(final(self)@),
    {
        let ghost before = self@;
        let n: usize = self.len();
        let mut i: usize = 0;
        while i < self.entries.len() && !text::same_text(self.entries[i].0.as_str(), k.as_str())
            && !text::sorts_before(k.as_str(), self.entries[i].0.as_str())
            invariant
                self@ == before,
                self@.len() == self.entries.len() == n,
                i <= self.entries.len(),
                forall|j: int|
                    0 <= j < i ==> (#[trigger] self@[j]).0 != k@ && !text::text_lt(k@, self@[j].0),
            decreases self.entries.len() - i,
        {
            i = i + 1;
        }
        proof {
            lemma_put_at(before, k@, v.deep_view(), i as int);
            put_keeps_order(before, k@, v.deep_view());
        }
        let ghost after = put(before, k@, v.deep_view());
        let ghost kept = self.entries@;
        let mut entries: Vec<(String, V)> = Vec::new();
        std::mem::swap(&mut entries, &mut self.entries);
        if i < n && text::same_text(entries[i].0.as_str(), k.as_str()) {
            entries.set(i, (k, v));
        } else {
            entries.insert(i, (k, v));
        }
        proof {
            assert(after.len() == entries@.len());
            assert forall|j: int| 0 <= j < entries@.len() implies (#[trigger] entries@[j]).0@
                == after[j].0 && entries@[j].1.deep_view() == after[j].1 by {
                if j < kept.len() {
                    assert(before[j] == (kept[j].0@, kept[j].1.deep_view()));
                }
                if 0 < j <= kept.len() {
                    assert(before[j - 1] == (kept[j - 1].0@, kept[j - 1].1.deep_view()));
                }
            }
            assert forall|a: int, b: int| 0 <= a < b < entries@.len() implies text::text_lt(
                (#[trigger] entries@[a]).0@,
                (#[trigger] entries@[b]).0@,
            ) by {
                assert(text::text_lt(after[a].0, after[b].0));
            }
        }
        self.entries = entries;
        assert(self@ =~= after);
    }
}

// ---------------------------------------------------------------------------
// Laws
// ---------------------------------------------------------------------------

/// What is found under a key stands beside it, and every entry is found.
pub proof fn entries_are_found<V>(l: Seq<(Seq<char>, V)>, k: Seq<char>)
    requires
        in_order(l),
    ensures
        lookup(l, k) is Some ==> l.contains((k, lookup(l, k)->0)),
        forall|i: int|
            0 <= i < l.len() && (#[trigger] l[i]).0 == k ==> lookup(l, k) == Some(l[i].1),
    decreases l.len(),
{
    if l.len() > 0 {
        let t = l.drop_first();
        assert(in_order(t)) by {
            assert forall|a: int, b: int| 0 <= a < b < t.len() implies text::text_lt(
                (#[trigger] t[a]).0,
                (#[trigger] t[b]).0,
            ) by {
                assert(text::text_lt(l[a + 1].0, l[b + 1].0));
            }
        }
        entries_are_found(t, k);
        if l[0].0 == k {
            assert(l[0] == (k, l[0].1));
            assert forall|i: int| 0 <= i < l.len() && (#[trigger] l[i]).0 == k implies lookup(l, k)
                == Some(l[i].1) by {
                if i > 0 {
                    assert(text::text_lt(l[0].0, l[i].0));
                    text::text_lt_is_total_order(k, k, k);
                }
            }
        } else {
            if lookup(t, k) is Some {
                let e = (k, lookup(t, k)->0);
                let i = choose|i: int| 0 <= i < t.len() && t[i] == e;
                assert(l[i + 1] == e);
            }
            assert forall|i: int| 0 <= i < l.len() && (#[trigger] l[i]).0 == k implies lookup(l, k)
                == Some(l[i].1) by {
                assert(t[i - 1] == l[i]);
            }
        }
    }
}

/// What is stored is found under its key, and nothing else changes.
pub proof fn stored_value_is_found<V: DeepView>(
    s: &mut TextMap<V>,
    k: String,
    v: V,
    q: &str,
    before: Option<&V>,
    after: Option<&V>,
    there: bool,
)
    requires
        call_ensures(TextMap::<V>::get, (old(s), q), before),
        call_ensures(TextMap::<V>::insert, (s, k, v), ()),
        call_ensures(TextMap::<V>::get, (final(s), q), after),
        call_ensures(TextMap::<V>::contains_key, (final(s), q), there),
    ensures
        q@ == k@ ==> after is Some && after->0.deep_view() == v.deep_view(),
        q@ != k@ ==> after is Some == before is Some && (after is Some ==> after->0.deep_view()
            == before->0.deep_view()),
        there == after is Some,
{
    lookup_after_put(old(s)@, k@, v.deep_view(), q@);
}

/// Entries come in the order of their keys, each key once, and each is found;
/// a new map has none.
pub proof fn entries_go_by_key<V: DeepView>(
    fresh: TextMap<V>,
    nothing: bool,
    m: TextMap<V>,
    n: usize,
    i: usize,
    j: usize,
    a: &str,
    b: &str,
    before: bool,
    x: &V,
    r: Option<&V>,
)
    requires
        call_ensures(TextMap::<V>::new, (), fresh),
        call_ensures(TextMap::<V>::is_empty, (&fresh,), nothing),
        call_ensures(TextMap::<V>::len, (&m,), n),
        i < j < n,
        call_ensures(TextMap::<V>::key_at, (&m, i), a),
        call_ensures(TextMap::<V>::key_at, (&m, j), b),
        call_ensures(TextMap::<V>::value_at, (&m, i), x),
        call_ensures(text::sorts_before, (a, b), before),
        call_ensures(TextMap::<V>::get, (&m, a), r),
    ensures
        nothing,
        before,
        r is Some && r->0.deep_view() == x.deep_view(),
{
    entries_are_found(m@, a@);
}

} // verus!
