//! What is kept of earlier answers.

use vstd::prelude::*;

verus! {

/// A key under which answers are kept.
pub trait CacheKey: View {
    /// Whether two keys are the same.
    fn same(&self, other: &Self) -> (r: bool)
        ensures
            r == (self@ == other@),
    ;
}

/// Answers by key; a later answer takes the place of an earlier one.
pub struct Cache<K, V> {
    entries: Vec<(K, V)>,
}

/// The last answer among the first `n` under a key.
spec fn last_kept<K: CacheKey, V>(entries: Seq<(K, V)>, key: <K as View>::V, n: int) -> Option<V>
    decreases n,
{
    if n <= 0 || n > entries.len() {
        None
    } else if entries[n - 1].0@ == key {
        Some(entries[n - 1].1)
    } else {
        last_kept(entries, key, n - 1)
    }
}

/// What a replaced answer changes: the one under its key, and no other.
proof fn lemma_replaced<K: CacheKey, V>(
    a: Seq<(K, V)>,
    j: int,
    e: (K, V),
    key: <K as View>::V,
    n: int,
)
    requires
        0 <= j < n <= a.len(),
        a[j].0@ == e.0@,
        forall|i: int| j < i < a.len() ==> (#[trigger] a[i]).0@ != e.0@,
    ensures
        last_kept(a.update(j, e), key, n) == if key == e.0@ {
            Some(e.1)
        } else {
            last_kept(a, key, n)
        },
    decreases n,
{
    let b = a.update(j, e);
    if n - 1 > j {
        assert(b[n - 1] == a[n - 1]);
        lemma_replaced(a, j, e, key, n - 1);
    } else if key != e.0@ {
        lemma_prefix(a, b, key, j);
    }
}

/// The last answer depends on the entries that are looked at alone.
proof fn lemma_prefix<K: CacheKey, V>(
    a: Seq<(K, V)>,
    b: Seq<(K, V)>,
    key: <K as View>::V,
    n: int,
)
    requires
        n <= a.len(),
        n <= b.len(),
        forall|i: int| 0 <= i < n ==> #[trigger] a[i] == b[i],
    ensures
        last_kept(a, key, n) == last_kept(b, key, n),
    decreases n,
{
    if 0 < n {
        assert(a[n - 1] == b[n - 1]);
        lemma_prefix(a, b, key, n - 1);
    }
}

impl<K: CacheKey, V> Cache<K, V> {
    /// How many answers take up space.
    pub closed spec fn size(self) -> nat {
        self.entries@.len()
    }

    /// The answer that is kept under a key.
    pub closed spec fn answer(self, key: <K as View>::V) -> Option<V> {
        last_kept(self.entries@, key, self.entries@.len() as int)
    }

    pub fn new() -> (r: Self)
        ensures
            forall|key: <K as View>::V| (#[trigger] r.answer(key)) is None,
            r.size() == 0,
    {
        Cache { entries: Vec::new() }
    }

    pub fn get(&self, key: &K) -> (r: Option<&V>)
        ensures
            match r {
                Some(v) => self.answer(key@) == Some(*v),
                None => self.answer(key@) is None,
            },
    {
        let mut n: usize = self.entries.len();
        while 0 < n
            invariant
                n <= self.entries.len(),
                self.answer(key@) == last_kept(self.entries@, key@, n as int),
            decreases n,
        {
            if self.entries[n - 1].0.same(key) {
                return Some(&self.entries[n - 1].1);
            }
            n = n - 1;
        }
        None
    }

    /// Keeps an answer, in place of an earlier one under its key.
    pub fn put(&mut self, key: K, value: V)
        ensures
            forall|k: <K as View>::V|
                (#[trigger] final(self).answer(k)) == if k == key@ {
                    Some(value)
                } else {
                    old(self).answer(k)
                },
            final(self).size() == if old(self).answer(key@) is Some {
                old(self).size()
            } else {
                old(self).size() + 1
            },
    {
        let ghost before = self.entries@;
        let ghost name = key@;
        let mut n: usize = self.entries.len();
        while 0 < n
            invariant
                n <= self.entries.len(),
                self.entries@ == before,
                before == old(self).entries@,
                name == key@,
                last_kept(before, name, before.len() as int) == last_kept(before, name, n as int),
                forall|i: int| n <= i < before.len() ==> (#[trigger] before[i]).0@ != name,
            decreases n,
        {
            if self.entries[n - 1].0.same(&key) {
                let ghost e = (key, value);
                self.entries.set(n - 1, (key, value));
                proof {
                    assert forall|k: <K as View>::V|
                        (#[trigger] self.answer(k)) == if k == name {
                            Some(value)
                        } else {
                            last_kept(before, k, before.len() as int)
                        } by {
                        lemma_replaced(before, n - 1, e, k, before.len() as int);
                    }
                }
                return;
            }
            n = n - 1;
        }
        self.entries.push((key, value));
        proof {
            assert forall|k: <K as View>::V|
                (#[trigger] self.answer(k)) == if k == name {
                    Some(value)
                } else {
                    last_kept(before, k, before.len() as int)
                } by {
                lemma_prefix(before, self.entries@, k, before.len() as int);
            }
        }
    }
}

// ---------------------------------------------------------------------------
// Laws
// ---------------------------------------------------------------------------

/// What was put is what is got, under its key, and other keys are as they
/// were.
pub proof fn what_was_put_is_got<K: CacheKey, V>(
    s: &mut Cache<K, V>,
    key: K,
    value: V,
    k: &K,
    before: Option<&V>,
    after: Option<&V>,
)
    requires
        call_ensures(Cache::<K, V>::get, (old(s), k), before),
        call_ensures(Cache::<K, V>::put, (s, key, value), ()),
        call_ensures(Cache::<K, V>::get, (final(s), k), after),
    ensures
        k@ == key@ ==> after is Some && *after->0 == value,
        k@ != key@ ==> after is Some == before is Some && (after is Some ==> *after->0
            == *before->0),
{
}

/// A new cache has no answers.
pub proof fn new_cache_is_empty<K: CacheKey, V>(c: Cache<K, V>, k: &K, r: Option<&V>)
    requires
        call_ensures(Cache::<K, V>::new, (), c),
        call_ensures(Cache::<K, V>::get, (&c, k), r),
    ensures
        r is None,
        c.size() == 0,
{
}

} // verus!
