//! Bounded least-recently-used mapping from content id to text, used to
//! stitch reply chains. The storage is the lru crate's cache; its behaviour
//! is modelled as a sequence of key/value entries ordered most recently
//! used first, and every operation is specified as a step on that model.

use vstd::prelude::*;

verus! {

#[verifier::external_type_specification]
#[verifier::external_body]
#[verifier::reject_recursive_types(K)]
#[verifier::reject_recursive_types(V)]
#[verifier::reject_recursive_types(S)]
pub struct ExLruCache<K, V, S>(lru::LruCache<K, V, S>);

/// What the lru cache holds: its entries as key/value pairs, most recently
/// used first.
pub uninterp spec fn cache_entries(c: lru::LruCache<String, String>) -> Seq<
    (Seq<char>, Seq<char>),
>;

/// The entry bound the lru cache was created with.
pub uninterp spec fn cache_bound(c: lru::LruCache<String, String>) -> nat;

/// The value stored under `k`: the value of the first entry whose key is
/// `k`, if any.
pub open spec fn entry_lookup(m: Seq<(Seq<char>, Seq<char>)>, k: Seq<char>) -> Option<Seq<char>>
    decreases m.len(),
{
    if m.len() == 0 {
        None
    } else if m[0].0 == k {
        Some(m[0].1)
    } else {
        entry_lookup(m.drop_first(), k)
    }
}

/// The model without the first entry keyed `k`, other entries in order.
pub open spec fn remove_entry(m: Seq<(Seq<char>, Seq<char>)>, k: Seq<char>) -> Seq<
    (Seq<char>, Seq<char>),
>
    decreases m.len(),
{
    if m.len() == 0 {
        m
    } else if m[0].0 == k {
        m.drop_first()
    } else {
        seq![m[0]] + remove_entry(m.drop_first(), k)
    }
}

/// One `put`: the key moves to the front with the new value, and when a new
/// key would exceed the bound, the least recently used entry leaves.
pub open spec fn put_step(
    m: Seq<(Seq<char>, Seq<char>)>,
    cap: nat,
    k: Seq<char>,
    v: Seq<char>,
) -> Seq<(Seq<char>, Seq<char>)> {
    let promoted = seq![(k, v)] + remove_entry(m, k);
    if promoted.len() > cap {
        promoted.drop_last()
    } else {
        promoted
    }
}

/// One `get`: a hit moves the entry to the front, a miss changes nothing.
pub open spec fn get_step(m: Seq<(Seq<char>, Seq<char>)>, k: Seq<char>) -> Seq<
    (Seq<char>, Seq<char>),
> {
    match entry_lookup(m, k) {
        Some(v) => seq![(k, v)] + remove_entry(m, k),
        None => m,
    }
}

/// No two entries share a key.
pub open spec fn distinct_keys(m: Seq<(Seq<char>, Seq<char>)>) -> bool
    decreases m.len(),
{
    m.len() == 0 || (entry_lookup(m.drop_first(), m[0].0) is None && distinct_keys(m.drop_first()))
}

/// A key is absent exactly when no entry carries it.
pub proof fn lemma_lookup_absent(m: Seq<(Seq<char>, Seq<char>)>, k: Seq<char>)
    ensures
        entry_lookup(m, k) is None <==> (forall|i: int| 0 <= i < m.len() ==> m[i].0 != k),
    decreases m.len(),
{
    if m.len() > 0 {
        let rest = m.drop_first();
        lemma_lookup_absent(rest, k);
        if entry_lookup(m, k) is None {
            assert forall|i: int| 0 <= i < m.len() implies m[i].0 != k by {
                if i >= 1 {
                    assert(rest[i - 1] == m[i]);
                }
            }
        }
        if forall|i: int| 0 <= i < m.len() ==> m[i].0 != k {
            assert forall|j: int| 0 <= j < rest.len() implies rest[j].0 != k by {
                assert(rest[j] == m[j + 1]);
            }
        }
    }
}

/// How removing a key acts on a model with distinct keys: the key is gone,
/// every other key keeps its value, distinctness survives, and the length
/// drops by one exactly on a hit.
pub proof fn lemma_remove_entry(m: Seq<(Seq<char>, Seq<char>)>, k: Seq<char>)
    requires
        distinct_keys(m),
    ensures
        distinct_keys(remove_entry(m, k)),
        entry_lookup(remove_entry(m, k), k) is None,
        forall|k2: Seq<char>|
            k2 != k ==> #[trigger] entry_lookup(remove_entry(m, k), k2) == entry_lookup(m, k2),
        entry_lookup(m, k) is Some ==> remove_entry(m, k).len() == m.len() - 1,
        entry_lookup(m, k) is None ==> remove_entry(m, k) == m,
    decreases m.len(),
{
    if m.len() == 0 {
    } else if m[0].0 == k {
    } else {
        let rest = m.drop_first();
        lemma_remove_entry(rest, k);
        let r = seq![m[0]] + remove_entry(rest, k);
        assert(r.drop_first() =~= remove_entry(rest, k));
        assert(entry_lookup(r, k) is None);
        assert(entry_lookup(r.drop_first(), m[0].0) == entry_lookup(rest, m[0].0));
        assert(distinct_keys(r));
        assert forall|k2: Seq<char>| k2 != k implies #[trigger] entry_lookup(
            remove_entry(m, k),
            k2,
        ) == entry_lookup(m, k2) by {
            if m[0].0 != k2 {
                assert(entry_lookup(r, k2) == entry_lookup(remove_entry(rest, k), k2));
            }
        }
        if entry_lookup(m, k) is None {
            assert(remove_entry(m, k) =~= m);
        }
    }
}

/// Distinctness survives dropping the least recently used entry.
pub proof fn lemma_distinct_drop_last(m: Seq<(Seq<char>, Seq<char>)>)
    requires
        distinct_keys(m),
        m.len() > 0,
    ensures
        distinct_keys(m.drop_last()),
    decreases m.len(),
{
    if m.len() > 1 {
        lemma_distinct_drop_last(m.drop_first());
        assert(m.drop_last().drop_first() =~= m.drop_first().drop_last());
        lemma_lookup_absent(m.drop_first(), m[0].0);
        lemma_lookup_absent(m.drop_first().drop_last(), m[0].0);
        assert(forall|i: int|
            0 <= i < m.drop_first().drop_last().len() ==> #[trigger] m.drop_first().drop_last()[i]
                == m.drop_first()[i]);
        assert(distinct_keys(m.drop_last()));
    }
}

/// Law: immediately after `put(k, v)` the cache answers `get(k)` with `v`.
pub proof fn lemma_cache_put_get(
    m: Seq<(Seq<char>, Seq<char>)>,
    cap: nat,
    k: Seq<char>,
    v: Seq<char>,
)
    requires
        cap >= 1,
    ensures
        entry_lookup(put_step(m, cap, k, v), k) == Some(v),
{
    let promoted = seq![(k, v)] + remove_entry(m, k);
    assert(promoted[0] == (k, v));
    if promoted.len() > cap {
        assert(promoted.drop_last()[0] == (k, v));
    }
}

/// A `put` keeps keys distinct and the entry count within the bound.
pub proof fn lemma_put_step_wf(m: Seq<(Seq<char>, Seq<char>)>, cap: nat, k: Seq<char>, v: Seq<char>)
    requires
        distinct_keys(m),
        m.len() <= cap,
        cap >= 1,
    ensures
        distinct_keys(put_step(m, cap, k, v)),
        put_step(m, cap, k, v).len() <= cap,
{
    lemma_remove_entry(m, k);
    let rem = remove_entry(m, k);
    let promoted = seq![(k, v)] + rem;
    assert(promoted.drop_first() =~= rem);
    assert(distinct_keys(promoted));
    if promoted.len() > cap {
        lemma_distinct_drop_last(promoted);
    }
}

/// A `get` keeps keys distinct, the entry count, and every stored value.
pub proof fn lemma_get_step_wf(m: Seq<(Seq<char>, Seq<char>)>, k: Seq<char>)
    requires
        distinct_keys(m),
    ensures
        distinct_keys(get_step(m, k)),
        get_step(m, k).len() == m.len(),
        forall|k2: Seq<char>| #[trigger] entry_lookup(get_step(m, k), k2) == entry_lookup(m, k2),
{
    lemma_remove_entry(m, k);
    match entry_lookup(m, k) {
        Some(v) => {
            let rem = remove_entry(m, k);
            let promoted = seq![(k, v)] + rem;
            assert(promoted.drop_first() =~= rem);
            assert(distinct_keys(promoted));
            assert forall|k2: Seq<char>| #[trigger] entry_lookup(get_step(m, k), k2)
                == entry_lookup(m, k2) by {
                if k2 == k {
                    assert(entry_lookup(promoted, k) == Some(v));
                } else {
                    assert(entry_lookup(promoted, k2) == entry_lookup(rem, k2));
                }
            }
        },
        None => {},
    }
}

/// Removing a key that is not stored changes nothing.
pub proof fn lemma_remove_absent(m: Seq<(Seq<char>, Seq<char>)>, k: Seq<char>)
    requires
        entry_lookup(m, k) is None,
    ensures
        remove_entry(m, k) == m,
    decreases m.len(),
{
    if m.len() > 0 {
        lemma_remove_absent(m.drop_first(), k);
    }
    assert(remove_entry(m, k) =~= m);
}

/// The model after the first `i` of a sequence of puts with the given keys
/// and values, starting from an empty cache with bound `cap`.
pub open spec fn fill_model(
    keys: Seq<Seq<char>>,
    vals: Seq<Seq<char>>,
    cap: nat,
    i: nat,
) -> Seq<(Seq<char>, Seq<char>)>
    decreases i,
{
    if i == 0 {
        Seq::<(Seq<char>, Seq<char>)>::empty()
    } else {
        put_step(fill_model(keys, vals, cap, (i - 1) as nat), cap, keys[i - 1], vals[i - 1])
    }
}

/// After `i` puts of pairwise distinct keys into an empty cache, the model
/// holds exactly the most recent `min(i, cap)` of them, newest first.
pub proof fn lemma_fill_model_shape(keys: Seq<Seq<char>>, vals: Seq<Seq<char>>, cap: nat, i: nat)
    requires
        cap >= 1,
        keys.len() == vals.len(),
        i <= keys.len(),
        forall|p: int, q: int| 0 <= p < q < keys.len() ==> keys[p] != keys[q],
    ensures
        fill_model(keys, vals, cap, i) =~= Seq::new(
            if i <= cap {
                i
            } else {
                cap
            },
            |j: int| (keys[i - 1 - j], vals[i - 1 - j]),
        ),
    decreases i,
{
    if i > 0 {
        lemma_fill_model_shape(keys, vals, cap, (i - 1) as nat);
        let prev = fill_model(keys, vals, cap, (i - 1) as nat);
        assert forall|t: int| 0 <= t < prev.len() implies prev[t].0 != keys[i - 1] by {
            assert(prev[t].0 == keys[i - 2 - t]);
        }
        lemma_lookup_absent(prev, keys[i - 1]);
        lemma_remove_absent(prev, keys[i - 1]);
        let promoted = seq![(keys[i - 1], vals[i - 1])] + prev;
        assert forall|j: int| 1 <= j < promoted.len() implies promoted[j] == (
            keys[i - 1 - j],
            vals[i - 1 - j],
        ) by {
            assert(promoted[j] == prev[j - 1]);
        }
    }
}

/// Law: after inserting bound + 1 distinct ids into an empty cache with no
/// intervening reads, the least recently inserted id is no longer
/// retrievable.
pub proof fn lemma_cache_eviction(keys: Seq<Seq<char>>, vals: Seq<Seq<char>>, cap: nat)
    requires
        cap >= 1,
        keys.len() == cap + 1,
        vals.len() == cap + 1,
        forall|p: int, q: int| 0 <= p < q < keys.len() ==> keys[p] != keys[q],
    ensures
        entry_lookup(fill_model(keys, vals, cap, (cap + 1) as nat), keys[0]) is None,
{
    lemma_fill_model_shape(keys, vals, cap, (cap + 1) as nat);
    let m = fill_model(keys, vals, cap, (cap + 1) as nat);
    assert forall|t: int| 0 <= t < m.len() implies m[t].0 != keys[0] by {
        assert(m[t].0 == keys[cap - t]);
    }
    lemma_lookup_absent(m, keys[0]);
}

/// Relies on lru::LruCache::new: a fresh cache is empty and holds at most
/// `cap` entries.
#[verifier::external_body]
fn lru_new(cap: usize) -> (r: lru::LruCache<String, String>)
    requires
        cap >= 1,
    ensures
        cache_entries(r) == Seq::<(Seq<char>, Seq<char>)>::empty(),
        cache_bound(r) == cap as nat,
{
    lru::LruCache::new(std::num::NonZeroUsize::new(cap).unwrap())
}

/// Relies on lru::LruCache::get: returns the value stored under the key, if
/// any, and moves that entry to the most recently used position.
#[verifier::external_body]
fn lru_get(c: &mut lru::LruCache<String, String>, k: &String) -> (r: Option<String>)
    ensures
        cache_bound(*final(c)) == cache_bound(*old(c)),
        cache_entries(*final(c)) == get_step(cache_entries(*old(c)), k@),
        match r {
            Some(v) => entry_lookup(cache_entries(*old(c)), k@) == Some(v@),
            None => entry_lookup(cache_entries(*old(c)), k@) is None,
        },
{
    c.get(k).cloned()
}

/// Relies on lru::LruCache::put: inserts or overwrites the key's value,
/// makes it the most recently used entry, and evicts the least recently
/// used entry when a new key arrives at capacity.
#[verifier::external_body]
fn lru_put(c: &mut lru::LruCache<String, String>, k: String, v: String)
    ensures
        cache_bound(*final(c)) == cache_bound(*old(c)),
        cache_entries(*final(c)) == put_step(
            cache_entries(*old(c)),
            cache_bound(*old(c)),
            k@,
            v@,
        ),
{
    let _ = c.put(k, v);
}

/// The process-wide reply-context cache: content id to most recently
/// observed text, bounded, least recently used out first.
pub struct ThreadContextCache {
    inner: lru::LruCache<String, String>,
}

impl ThreadContextCache {
    /// The entries, most recently used first.
    pub closed spec fn entries(self) -> Seq<(Seq<char>, Seq<char>)> {
        cache_entries(self.inner)
    }

    /// The configured maximum entry count.
    pub closed spec fn bound(self) -> nat {
        cache_bound(self.inner)
    }

    pub open spec fn wf(self) -> bool {
        &&& self.bound() >= 1
        &&& self.entries().len() <= self.bound()
        &&& distinct_keys(self.entries())
    }

    /// The text currently stored under a content id.
    pub open spec fn spec_lookup(self, k: Seq<char>) -> Option<Seq<char>> {
        entry_lookup(self.entries(), k)
    }

    pub fn new(capacity: usize) -> (r: Self)
        requires
            capacity >= 1,
        ensures
            r.wf(),
            r.entries() == Seq::<(Seq<char>, Seq<char>)>::empty(),
            r.bound() == capacity as nat,
    {
        ThreadContextCache { inner: lru_new(capacity) }
    }

    /// Returns the cached text for `id` if present, refreshing its recency;
    /// absence is not an error.
    pub fn get(&mut self, id: &String) -> (r: Option<String>)
        requires
            old(self).wf(),
        ensures
            final(self).wf(),
            final(self).bound() == old(self).bound(),
            final(self).entries() == get_step(old(self).entries(), id@),
            match r {
                Some(v) => old(self).spec_lookup(id@) == Some(v@),
                None => old(self).spec_lookup(id@) is None,
            },
    {
        proof {
            lemma_get_step_wf(self.entries(), id@);
        }
        lru_get(&mut self.inner, id)
    }

    /// Inserts or overwrites the text stored under `id`, marking it most
    /// recently used and evicting the least recently used entry if the
    /// cache is full.
    pub fn put(&mut self, id: String, text: String)
        requires
            old(self).wf(),
        ensures
            final(self).wf(),
            final(self).bound() == old(self).bound(),
            final(self).entries() == put_step(
                old(self).entries(),
                old(self).bound(),
                id@,
                text@,
            ),
            final(self).spec_lookup(id@) == Some(text@),
    {
        proof {
            lemma_put_step_wf(self.entries(), self.bound(), id@, text@);
            lemma_cache_put_get(self.entries(), self.bound(), id@, text@);
        }
        lru_put(&mut self.inner, id, text)
    }
}

} // verus!
