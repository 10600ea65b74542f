//! A map from (season, episode) to values, kept in key order.

use vstd::prelude::*;

verus! {

/// A season and an episode number.
pub type EpisodeKey = (i64, i64);

/// Season first, then episode.
pub open spec fn key_lt(a: EpisodeKey, b: EpisodeKey) -> bool {
    a.0 < b.0 || (a.0 == b.0 && a.1 < b.1)
}

/// `l` with `v` stored under `k`. What was there stays when `keep` is set,
/// and is replaced otherwise.
pub open spec fn put<V>(l: Seq<(EpisodeKey, V)>, k: EpisodeKey, v: V, keep: bool) -> Seq<
    (EpisodeKey, V),
>
    decreases l.len(),
{
    if l.len() == 0 {
        seq![(k, v)]
    } else if l[0].0 == k {
        if keep {
            l
        } else {
            l.update(0, (k, v))
        }
    } else if key_lt(k, l[0].0) {
        seq![(k, v)] + l
    } else {
        seq![l[0]] + put(l.drop_first(), k, v, keep)
    }
}

/// What is stored in `l` under `k`.
pub open spec fn lookup<V>(l: Seq<(EpisodeKey, V)>, k: EpisodeKey) -> Option<V>
    decreases l.len(),
{
    if l.len() == 0 {
        None
    } else if l[0].0 == k {
        Some(l[0].1)
    } else {
        lookup(l.drop_first(), k)
    }
}

/// The keys of `l` strictly increase.
pub open spec fn in_order<V>(l: Seq<(EpisodeKey, V)>) -> bool {
    forall|i: int, j: int| 0 <= i < j < l.len() ==> key_lt((#[trigger] l[i]).0, (#[trigger] l[j]).0)
}

/// Storing under `k` changes what is found under `k` and nothing else; what
/// was there stays when it is to be kept.
pub proof fn lookup_after_put<V>(
    l: Seq<(EpisodeKey, V)>,
    k: EpisodeKey,
    v: V,
    keep: bool,
    q: EpisodeKey,
)
    requires
        in_order(l),
    ensures
        lookup(put(l, k, v, keep), q) == if q != k || (keep && lookup(l, k) is Some) {
            lookup(l, q)
        } else {
            Some(v)
        },
    decreases l.len(),
{
    if l.len() > 0 {
        let m = put(l, k, v, keep);
        let t = l.drop_first();
        assert forall|i: int, j: int| 0 <= i < j < t.len() implies key_lt(
            (#[trigger] t[i]).0,
            (#[trigger] t[j]).0,
        ) by {
            assert(t[i] == l[i + 1] && t[j] == l[j + 1]);
        }
        if l[0].0 == k {
            if !keep {
                assert(m.drop_first() =~= l.drop_first());
            }
        } else if key_lt(k, l[0].0) {
            assert(m.drop_first() =~= l);
            lemma_absent(l, k);
        } else {
            lookup_after_put(t, k, v, keep, q);
            assert(m.drop_first() =~= put(t, k, v, keep));
        }
    } else {
        assert(put(l, k, v, keep).drop_first() =~= l);
    }
}

proof fn lemma_absent<V>(l: Seq<(EpisodeKey, V)>, k: EpisodeKey)
    requires
        forall|i: int| 0 <= i < l.len() ==> (#[trigger] l[i]).0 != k,
    ensures
        lookup(l, k) is None,
    decreases l.len(),
{
    if l.len() > 0 {
        assert(l[0].0 != k);
        assert forall|i: int| 0 <= i < l.drop_first().len() implies (#[trigger] l.drop_first()[i]).0
            != k by {
            assert(l[i + 1].0 != k);
        }
        lemma_absent(l.drop_first(), k);
    }
}

/// Storing keeps the keys in order.
pub proof fn put_keeps_order<V>(l: Seq<(EpisodeKey, V)>, k: EpisodeKey, v: V, keep: bool)
    requires
        in_order(l),
    ensures
        in_order(put(l, k, v, keep)),
        forall|i: int|
            0 <= i < put(l, k, v, keep).len() ==> (#[trigger] put(l, k, v, keep)[i]).0 == k
                || exists|j: int| 0 <= j < l.len() && l[j].0 == put(l, k, v, keep)[i].0,
    decreases l.len(),
{
    let m = put(l, k, v, keep);
    if l.len() > 0 {
        if l[0].0 == k {
            assert forall|i: int| 0 <= i < m.len() implies (#[trigger] m[i]).0 == k || exists|j: int|
                0 <= j < l.len() && l[j].0 == m[i].0 by {
                assert(l[i].0 == m[i].0);
            }
        } else if key_lt(k, l[0].0) {
            assert forall|i: int, j: int| 0 <= i < j < m.len() implies key_lt(
                (#[trigger] m[i]).0,
                (#[trigger] m[j]).0,
            ) by {
                if i > 0 {
                    assert(m[i] == l[i - 1] && m[j] == l[j - 1]);
                } else if j > 1 {
                    assert(key_lt(l[0].0, l[j - 1].0));
                }
            }
            assert forall|i: int| 0 <= i < m.len() implies (#[trigger] m[i]).0 == k || exists|j: int|
                0 <= j < l.len() && l[j].0 == m[i].0 by {
                if i > 0 {
                    assert(l[i - 1].0 == m[i].0);
                }
            }
        } else {
            let t = l.drop_first();
            let r = put(t, k, v, keep);
            assert forall|i: int, j: int| 0 <= i < j < t.len() implies key_lt(
                (#[trigger] t[i]).0,
                (#[trigger] t[j]).0,
            ) by {
                assert(t[i] == l[i + 1] && t[j] == l[j + 1]);
            }
            put_keeps_order(t, k, v, keep);
            assert forall|i: int| 0 <= i < m.len() implies (#[trigger] m[i]).0 == k || exists|j: int|
                0 <= j < l.len() && l[j].0 == m[i].0 by {
                if i > 0 {
                    assert(m[i] == r[i - 1]);
                    if m[i].0 != k {
                        let j = choose|j: int| 0 <= j < t.len() && t[j].0 == r[i - 1].0;
                        assert(l[j + 1].0 == m[i].0);
                    }
                } else {
                    assert(l[0].0 == m[0].0);
                }
            }
            assert forall|i: int, j: int| 0 <= i < j < m.len() implies key_lt(
                (#[trigger] m[i]).0,
                (#[trigger] m[j]).0,
            ) by {
                assert(m[j] == r[j - 1]);
                if i == 0 {
                    if r[j - 1].0 != k {
                        let q = choose|q: int| 0 <= q < t.len() && t[q].0 == r[j - 1].0;
                        assert(key_lt(l[0].0, l[q + 1].0));
                    }
                } else {
                    assert(m[i] == r[i - 1]);
                }
            }
        }
    }
}

proof fn lemma_put_at<V>(l: Seq<(EpisodeKey, V)>, k: EpisodeKey, v: V, keep: bool, n: int)
    requires
        0 <= n <= l.len(),
        forall|i: int| 0 <= i < n ==> (#[trigger] l[i]).0 != k && !key_lt(k, l[i].0),
        n == l.len() || l[n].0 == k || key_lt(k, l[n].0),
    ensures
        put(l, k, v, keep) == if n < l.len() && l[n].0 == k {
            if keep {
                l
            } else {
                l.update(n, (k, v))
            }
        } else {
            l.insert(n, (k, v))
        },
    decreases l.len(),
{
    let goal = if n < l.len() && l[n].0 == k {
        if keep {
            l
        } else {
            l.update(n, (k, v))
        }
    } else {
        l.insert(n, (k, v))
    };
    if n == 0 {
        assert(put(l, k, v, keep) =~= goal);
    } else {
        assert(l[0].0 != k);
        let t = l.drop_first();
        assert forall|i: int| 0 <= i < n - 1 implies (#[trigger] t[i]).0 != k && !key_lt(
            k,
            t[i].0,
        ) by {
            assert(t[i] == l[i + 1]);
        }
        lemma_put_at(t, k, v, keep, n - 1);
        assert(put(l, k, v, keep) =~= goal);
    }
}

/// A map keyed by season and episode; its model lists the entries in key
/// order.
#[derive(Debug)]
pub struct EpisodeMap<V> {
    entries: Vec<(EpisodeKey, V)>,
}

impl<V> EpisodeMap<V> {
    /// The keys strictly increase.
    #[verifier::type_invariant]
    spec fn keys_in_order(self) -> bool {
        in_order(self.entries@)
    }
}

impl<V> View for EpisodeMap<V> {
    type V = Seq<(EpisodeKey, V)>;

    closed spec fn view(&self) -> Seq<(EpisodeKey, V)> {
        self.entries@
    }
}

impl<V> EpisodeMap<V> {
    /// The empty map.
    pub fn new() -> (r: Self)
        ensures
            r@ == Seq::<(EpisodeKey, V)>::empty(),
    {
        EpisodeMap { entries: Vec::new() }
    }

    /// How many entries there are; every map lists them in key order.
    pub fn len(&self) -> (r: usize)
        ensures
            r == self@.len(),
            in_order(self@),
    {
        proof {
            use_type_invariant(self);
        }
        self.entries.len()
    }

    /// The `i`-th key.
    pub fn key_at(&self, i: usize) -> (r: EpisodeKey)
        requires
            i < self@.len(),
        ensures
            r == self@[i as int].0,
    {
        self.entries[i].0
    }

    /// The value under the `i`-th key.
    pub fn value_at(&self, i: usize) -> (r: &V)
        requires
            i < self@.len(),
        ensures
            *r == self@[i as int].1,
    {
        &self.entries[i].1
    }

    pub fn get(&self, k: EpisodeKey) -> (r: Option<&V>)
        ensures
            match r {
                Some(v) => lookup(self@, k) == Some(*v),
                None => lookup(self@, k) is None,
            },
    {
        let mut i: usize = 0;
        assert(self@.skip(0) =~= self@);
        while i < self.entries.len()
            invariant
                i <= self.entries.len(),
                lookup(self@, k) == lookup(self@.skip(i as int), k),
            decreases self.entries.len() - i,
        {
            let key = self.entries[i].0;
            if key.0 == k.0 && key.1 == k.1 {
                return Some(&self.entries[i].1);
            }
            assert(self@.skip(i as int).drop_first() =~= self@.skip(i + 1));
            i = i + 1;
        }
        None
    }

    fn position(&self, k: EpisodeKey) -> (r: usize)
        ensures
            r <= self@.len(),
            forall|j: int|
                0 <= j < r ==> (#[trigger] self@[j]).0 != k && !key_lt(k, self@[j].0),
            r == self@.len() || self@[r as int].0 == k || key_lt(k, self@[r as int].0),
    {
        let mut i: usize = 0;
        while i < self.entries.len()
            invariant
                i <= self.entries.len(),
                forall|j: int|
                    0 <= j < i ==> (#[trigger] self@[j]).0 != k && !key_lt(k, self@[j].0),
            decreases self.entries.len() - i,
        {
            let key = self.entries[i].0;
            if (key.0 == k.0 && key.1 == k.1) || k.0 < key.0 || (k.0 == key.0 && k.1 < key.1) {
                return i;
            }
            i = i + 1;
        }
        i
    }

    fn store(&mut self, k: EpisodeKey, v: V, keep: bool)
        ensures
            final(self)@ == put(old(self)@, k, v, keep),
            in_order(final(self)@),
    {
        let i: usize = self.position(k);
        proof {
            use_type_invariant(&*self);
            lemma_put_at(self@, k, v, keep, i as int);
            put_keeps_order(self@, k, v, keep);
        }
        let mut entries: Vec<(EpisodeKey, V)> = Vec::new();
        std::mem::swap(&mut entries, &mut self.entries);
        if i < entries.len() && entries[i].0.0 == k.0 && entries[i].0.1 == k.1 {
            if !keep {
                entries.set(i, (k, v));
            }
        } else {
            entries.insert(i, (k, v));
        }
        self.entries = entries;
    }

    /// Stores `v` under `k`, in place of what was there.
    pub fn insert(&mut self, k: EpisodeKey, v: V)
        ensures
            final(self)@ == put(old(self)@, k, v, false),
            in_order(final(self)@),
    {
        self.store(k, v, false);
    }

    /// Stores `v` under `k` unless something is there.
    pub fn insert_if_absent(&mut self, k: EpisodeKey, v: V)
        ensures
            final(self)@ == put(old(self)@, k, v, true),
            in_order(final(self)@),
    {
        self.store(k, v, true);
    }

    /// The values in key order.
    pub fn into_values(self) -> (r: Vec<V>)
        ensures
            r@ == Seq::new(self@.len(), |i: int| self@[i].1),
            in_order(self@),
    {
        proof {
            use_type_invariant(&self);
        }
        let ghost all = self@;
        let mut out: Vec<V> = Vec::new();
        for e in it: self.entries
            invariant
                it.seq() == all,
                out@ == Seq::new(it.index() as nat, |i: int| all[i].1),
        {
            let (_k, v) = e;
            out.push(v);
        }
        out
    }
}

// ---------------------------------------------------------------------------
// Laws
// ---------------------------------------------------------------------------

/// Keys go by season, and within a season by episode.
pub proof fn keys_go_by_season(a: EpisodeKey, b: EpisodeKey)
    ensures
        a.0 < b.0 ==> key_lt(a, b) && !key_lt(b, a),
        a.0 == b.0 ==> key_lt(a, b) == (a.1 < b.1),
{
}

/// What is found under a key stands beside it, and nothing is found only where
/// no entry has the key.
pub proof fn found_stands_under_its_key<V>(l: Seq<(EpisodeKey, V)>, k: EpisodeKey)
    ensures
        match lookup(l, k) {
            Some(v) => l.contains((k, v)),
            None => forall|i: int| 0 <= i < l.len() ==> (#[trigger] l[i]).0 != k,
        },
    decreases l.len(),
{
    if l.len() > 0 {
        let t = l.drop_first();
        found_stands_under_its_key(t, k);
        if l[0].0 == k {
            assert(l[0] == (k, l[0].1));
        } else {
            if let Some(v) = lookup(t, k) {
                let i = choose|i: int| 0 <= i < t.len() && t[i] == (k, v);
                assert(l[i + 1] == (k, v));
            } else {
                assert forall|i: int| 0 <= i < l.len() implies (#[trigger] l[i]).0 != k by {
                    if i > 0 {
                        assert(t[i - 1] == l[i]);
                    }
                }
            }
        }
    }
}

/// What is stored is found under its key, unless what was there is to stay;
/// nothing else changes.
pub proof fn stored_episode_is_found<V>(
    s: &mut EpisodeMap<V>,
    k: EpisodeKey,
    v: V,
    q: EpisodeKey,
    before: Option<&V>,
    after: Option<&V>,
)
    requires
        in_order(old(s)@),
        call_ensures(EpisodeMap::<V>::get, (old(s), q), before),
        call_ensures(EpisodeMap::<V>::insert, (s, k, v), ()),
        call_ensures(EpisodeMap::<V>::get, (final(s), q), after),
    ensures
        q == k ==> after is Some && *after->0 == v,
        q != k ==> after is Some == before is Some && (after is Some ==> *after->0 == *before->0),
{
    lookup_after_put(old(s)@, k, v, false, q);
}

/// What is there stays where something is stored beside it, and what is absent
/// is stored.
pub proof fn first_stored_episode_stays<V>(
    s: &mut EpisodeMap<V>,
    k: EpisodeKey,
    v: V,
    q: EpisodeKey,
    before: Option<&V>,
    after: Option<&V>,
)
    requires
        in_order(old(s)@),
        call_ensures(EpisodeMap::<V>::get, (old(s), q), before),
        call_ensures(EpisodeMap::<V>::insert_if_absent, (s, k, v), ()),
        call_ensures(EpisodeMap::<V>::get, (final(s), q), after),
    ensures
        before is Some ==> after is Some && *after->0 == *before->0,
        before is None && q == k ==> after is Some && *after->0 == v,
        before is None && q != k ==> after is None,
{
    lookup_after_put(old(s)@, k, v, true, q);
}

/// A new map is empty, and the values of a map come in the order of their
/// keys.
pub proof fn values_go_by_key<V>(
    fresh: EpisodeMap<V>,
    m: EpisodeMap<V>,
    n: usize,
    none: usize,
    values: Vec<V>,
    i: usize,
    j: usize,
    a: EpisodeKey,
    b: EpisodeKey,
    v: &V,
)
    requires
        call_ensures(EpisodeMap::<V>::new, (), fresh),
        call_ensures(EpisodeMap::<V>::len, (&fresh,), none),
        call_ensures(EpisodeMap::<V>::len, (&m,), n),
        call_ensures(EpisodeMap::<V>::into_values, (m,), values),
        i < j < n,
        call_ensures(EpisodeMap::<V>::key_at, (&m, i), a),
        call_ensures(EpisodeMap::<V>::key_at, (&m, j), b),
        call_ensures(EpisodeMap::<V>::value_at, (&m, i), v),
    ensures
        none == 0,
        values@.len() == n,
        values@[i as int] == *v,
        a.0 < b.0 || (a.0 == b.0 && a.1 < b.1),
{
}

} // verus!
