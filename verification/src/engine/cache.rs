//! Bounded least-recently-used cache of model conversion results.
//!
//! Keyed by the computation itself — reading, left context, which model and
//! beam width — so strategies that share a computation share its entry.
//! Every lookup and insertion advances a logical clock; an entry remembers
//! the clock of its last use, and a full cache makes room by dropping the
//! entry used longest ago.

use vstd::prelude::*;

use crate::text::strs;

verus! {

/// Which model slot a conversion ran on.
#[derive(Debug, Clone, Copy, PartialEq, Eq, Hash, Structural)]
pub enum ModelRole {
    Main,
    Light,
}

/// Everything that determines a model conversion's output.
#[derive(Debug, Clone, PartialEq, Eq, Hash)]
pub struct ConversionCacheKey {
    /// Katakana reading fed to the model.
    pub katakana: String,
    /// Left context fed to the model.
    pub lctx: String,
    /// Which model ran the conversion.
    pub model: ModelRole,
    /// Requested candidate count (1 = greedy).
    pub beam_width: usize,
}

/// A key as plain values.
pub type KeyView = (Seq<char>, Seq<char>, ModelRole, usize);

/// One cache entry as plain values: key, candidates, clock of last use.
pub type EntryView = (KeyView, Seq<Seq<char>>, u64);

impl View for ConversionCacheKey {
    type V = KeyView;

    open spec fn view(&self) -> KeyView {
        (self.katakana@, self.lctx@, self.model, self.beam_width)
    }
}

impl ConversionCacheKey {
    /// Whether two keys name the same computation.
    pub fn same(&self, other: &ConversionCacheKey) -> (r: bool)
        ensures
            r == (self@ == other@),
    {
        self.katakana == other.katakana && self.lctx == other.lctx && self.model == other.model
            && self.beam_width == other.beam_width
    }
}

/// Index of the entry for `k`, or -1.
pub open spec fn index_of_key(es: Seq<EntryView>, k: KeyView) -> int
    decreases es.len(),
{
    if es.len() == 0 {
        -1
    } else if es.last().0 == k {
        es.len() - 1
    } else {
        index_of_key(es.drop_last(), k)
    }
}

/// The candidates cached for `k`.
pub open spec fn lookup(es: Seq<EntryView>, k: KeyView) -> Option<Seq<Seq<char>>> {
    let i = index_of_key(es, k);
    if i >= 0 {
        Some(es[i].1)
    } else {
        None
    }
}

/// Index of the entry used longest ago (the first of them), or -1.
pub open spec fn oldest(es: Seq<EntryView>) -> int
    decreases es.len(),
{
    if es.len() == 0 {
        -1
    } else {
        let j = oldest(es.drop_last());
        if j >= 0 && es[j].2 <= es.last().2 {
            j
        } else {
            es.len() - 1
        }
    }
}

/// No key occurs twice.
pub open spec fn distinct_keys(es: Seq<EntryView>) -> bool {
    forall|i: int, j: int| 0 <= i < j < es.len() ==> es[i].0 != es[j].0
}

/// The entries after a lookup of `k` at clock `t`: a hit is marked used.
pub open spec fn after_get(es: Seq<EntryView>, k: KeyView, t: u64) -> Seq<EntryView> {
    let i = index_of_key(es, k);
    if i >= 0 {
        es.update(i, (es[i].0, es[i].1, t))
    } else {
        es
    }
}

/// The entries after inserting `c` for `k` at clock `t`: an existing entry
/// is replaced in place; a new key in a full cache first evicts the entry
/// used longest ago.
pub open spec fn after_insert(
    es: Seq<EntryView>,
    k: KeyView,
    c: Seq<Seq<char>>,
    t: u64,
    capacity: nat,
) -> Seq<EntryView> {
    let i = index_of_key(es, k);
    if i >= 0 {
        es.update(i, (k, c, t))
    } else if es.len() >= capacity && es.len() > 0 {
        es.remove(oldest(es)).push((k, c, t))
    } else {
        es.push((k, c, t))
    }
}

/// Bounded map from [`ConversionCacheKey`] to conversion candidates.
pub struct ConversionCache {
    keys: Vec<ConversionCacheKey>,
    candidates: Vec<Vec<String>>,
    stamps: Vec<u64>,
    capacity: usize,
    clock: u64,
}

impl ConversionCache {
    /// The entries, in storage order.
    pub closed spec fn entries(&self) -> Seq<EntryView> {
        Seq::new(
            self.keys@.len(),
            |i: int| (self.keys@[i]@, strs(self.candidates@[i]@), self.stamps@[i]),
        )
    }

    /// How many entries the cache holds at most.
    pub closed spec fn capacity(&self) -> nat {
        self.capacity as nat
    }

    /// The logical clock: advanced by every lookup and insertion.
    pub closed spec fn clock(&self) -> u64 {
        self.clock
    }

    /// Internal consistency: parallel storage, distinct keys, bounded size.
    pub closed spec fn wf(&self) -> bool {
        &&& self.candidates@.len() == self.keys@.len()
        &&& self.stamps@.len() == self.keys@.len()
        &&& self.capacity >= 1
        &&& self.keys@.len() <= self.capacity
        &&& distinct_keys(self.entries())
    }

    /// A well-formed cache holds each key at most once, and no more
    /// entries than its capacity.
    pub proof fn lemma_wf_keys(&self)
        requires
            self.wf(),
        ensures
            distinct_keys(self.entries()),
            self.entries().len() <= self.capacity(),
    {
    }

    /// An empty cache holding at most `capacity` entries (at least one).
    pub fn new(capacity: usize) -> (r: Self)
        ensures
            r.wf(),
            r.entries().len() == 0,
            r.capacity() == if capacity >= 1 { capacity as nat } else { 1 },
            r.clock() == 0,
    {
        let r = ConversionCache {
            keys: Vec::new(),
            candidates: Vec::new(),
            stamps: Vec::new(),
            capacity: if capacity >= 1 {
                capacity
            } else {
                1
            },
            clock: 0,
        };
        assert(r.entries() =~= Seq::<EntryView>::empty());
        r
    }

    fn find(&self, key: &ConversionCacheKey) -> (r: Option<usize>)
        requires
            self.wf(),
        ensures
            match r {
                Some(i) => i as int == index_of_key(self.entries(), key@) && i < self.keys@.len(),
                None => index_of_key(self.entries(), key@) == -1,
            },
    {
        proof {
            lemma_index_of_key(self.entries(), key@);
        }
        let mut i: usize = 0;
        while i < self.keys.len()
            invariant
                self.wf(),
                i <= self.keys@.len(),
                forall|j: int| 0 <= j < i ==> self.keys@[j]@ != key@,
            decreases self.keys.len() - i,
        {
            if self.keys[i].same(key) {
                proof {
                    assert(self.entries()[i as int].0 == key@);
                    lemma_index_of_distinct(self.entries(), i as int);
                }
                return Some(i);
            }
            i += 1;
        }
        proof {
            if index_of_key(self.entries(), key@) >= 0 {
                let j = index_of_key(self.entries(), key@);
                assert(self.entries()[j].0 == self.keys@[j]@);
            }
        }
        None
    }

    /// Cached candidates for `key`; a hit is marked as just used.
    pub fn get(&mut self, key: &ConversionCacheKey) -> (r: Option<Vec<String>>)
        requires
            old(self).wf(),
            old(self).clock() < u64::MAX,
        ensures
            final(self).wf(),
            final(self).clock() == old(self).clock() + 1,
            final(self).capacity() == old(self).capacity(),
            final(self).entries() == after_get(old(self).entries(), key@, final(self).clock()),
            match r {
                Some(v) => lookup(old(self).entries(), key@) == Some(strs(v@)),
                None => lookup(old(self).entries(), key@) is None,
            },
    {
        self.clock = self.clock + 1;
        let ghost es = self.entries();
        proof {
            lemma_index_of_key(es, key@);
        }
        match self.find(key) {
            None => None,
            Some(i) => {
                self.stamps.set(i, self.clock);
                proof {
                    assert(self.entries() =~= es.update(i as int, (es[i as int].0, es[i as int].1, self.clock)));
                    lemma_update_keeps_keys(es, i as int, (es[i as int].0, es[i as int].1, self.clock));
                }
                let v = self.candidates[i].clone();
                proof {
                    assert(strs(v@) =~= es[i as int].1);
                }
                Some(v)
            },
        }
    }

    fn oldest_index(&self) -> (r: usize)
        requires
            self.wf(),
            self.keys@.len() > 0,
        ensures
            r as int == oldest(self.entries()),
    {
        let ghost es = self.entries();
        let mut best: usize = 0;
        let mut i: usize = 1;
        assert(es.take(1).drop_last() =~= Seq::<EntryView>::empty());
        assert(oldest(es.take(1)) == 0) by {
            reveal_with_fuel(oldest, 2);
        }
        while i < self.stamps.len()
            invariant
                self.wf(),
                es == self.entries(),
                1 <= i <= es.len(),
                best < i,
                best as int == oldest(es.take(i as int)),
            decreases self.stamps.len() - i,
        {
            assert(es.take(i + 1).drop_last() =~= es.take(i as int));
            if self.stamps[i] < self.stamps[best] {
                best = i;
            }
            i += 1;
        }
        assert(es.take(es.len() as int) =~= es);
        best
    }

    /// Insert candidates for `key`. A new key in a full cache first evicts
    /// the entry used longest ago; an existing key is replaced and evicts
    /// nothing.
    pub fn insert(&mut self, key: ConversionCacheKey, candidates: Vec<String>)
        requires
            old(self).wf(),
            old(self).clock() < u64::MAX,
        ensures
            final(self).wf(),
            final(self).clock() == old(self).clock() + 1,
            final(self).capacity() == old(self).capacity(),
            final(self).entries() == after_insert(
                old(self).entries(),
                key@,
                strs(candidates@),
                final(self).clock(),
                old(self).capacity(),
            ),
    {
        self.clock = self.clock + 1;
        let ghost es = self.entries();
        let ghost new_entry = (key@, strs(candidates@), self.clock);
        proof {
            lemma_index_of_key(es, key@);
            lemma_oldest(es);
            lemma_insert_keeps_bound(es, key@, strs(candidates@), self.clock, self.capacity as nat);
        }
        match self.find(&key) {
            Some(i) => {
                self.candidates.set(i, candidates);
                self.stamps.set(i, self.clock);
                proof {
                    assert(self.entries() =~= es.update(i as int, new_entry));
                }
            },
            None => {
                if self.keys.len() >= self.capacity && self.keys.len() > 0 {
                    let o = self.oldest_index();
                    self.keys.remove(o);
                    self.candidates.remove(o);
                    self.stamps.remove(o);
                    proof {
                        assert(self.entries() =~= es.remove(o as int));
                    }
                }
                let ghost mid = self.entries();
                self.keys.push(key);
                self.candidates.push(candidates);
                self.stamps.push(self.clock);
                proof {
                    assert(self.entries() =~= mid.push(new_entry));
                }
            },
        }
    }
}

impl Default for ConversionCache {
    /// Room for a long editing session: roughly one entry is inserted per
    /// keystroke.
    fn default() -> (r: Self)
        ensures
            r.wf(),
            r.entries().len() == 0,
            r.capacity() == 4096,
            r.clock() == 0,
    {
        ConversionCache::new(4096)
    }
}

/// The characterisation of `index_of_key`.
pub proof fn lemma_index_of_key(es: Seq<EntryView>, k: KeyView)
    ensures
        -1 <= index_of_key(es, k) < es.len(),
        index_of_key(es, k) >= 0 ==> es[index_of_key(es, k)].0 == k,
        index_of_key(es, k) == -1 ==> forall|j: int| 0 <= j < es.len() ==> es[j].0 != k,
        forall|j: int| index_of_key(es, k) < j < es.len() ==> es[j].0 != k,
    decreases es.len(),
{
    if es.len() > 0 {
        let init = es.drop_last();
        lemma_index_of_key(init, k);
        assert forall|j: int| 0 <= j < init.len() implies init[j] == es[j] by {}
    }
}

/// With distinct keys, the entry at `i` is the one found for its key.
pub proof fn lemma_index_of_distinct(es: Seq<EntryView>, i: int)
    requires
        distinct_keys(es),
        0 <= i < es.len(),
    ensures
        index_of_key(es, es[i].0) == i,
{
    lemma_index_of_key(es, es[i].0);
}

/// `oldest` names an entry used no later than any other.
pub proof fn lemma_oldest(es: Seq<EntryView>)
    ensures
        es.len() == 0 ==> oldest(es) == -1,
        es.len() > 0 ==> 0 <= oldest(es) < es.len(),
        forall|j: int| 0 <= j < es.len() ==> es[oldest(es)].2 <= #[trigger] es[j].2,
    decreases es.len(),
{
    if es.len() > 0 {
        let init = es.drop_last();
        lemma_oldest(init);
        assert forall|j: int| 0 <= j < init.len() implies init[j] == es[j] by {}
        if init.len() > 0 {
            assert(es[oldest(init)] == init[oldest(init)]);
        }
    }
}

/// Replacing an entry by one with the same key keeps the keys distinct.
pub proof fn lemma_update_keeps_keys(es: Seq<EntryView>, i: int, e: EntryView)
    requires
        distinct_keys(es),
        0 <= i < es.len(),
        e.0 == es[i].0,
    ensures
        distinct_keys(es.update(i, e)),
{
}

/// Inserting keeps the keys distinct and the size within the capacity.
pub proof fn lemma_insert_keeps_bound(
    es: Seq<EntryView>,
    k: KeyView,
    c: Seq<Seq<char>>,
    t: u64,
    capacity: nat,
)
    requires
        distinct_keys(es),
        es.len() <= capacity,
        capacity >= 1,
    ensures
        distinct_keys(after_insert(es, k, c, t, capacity)),
        after_insert(es, k, c, t, capacity).len() <= capacity,
{
    lemma_index_of_key(es, k);
    lemma_oldest(es);
    let i = index_of_key(es, k);
    if i < 0 && es.len() >= capacity && es.len() > 0 {
        let r = es.remove(oldest(es));
        assert forall|a: int, b: int| 0 <= a < b < r.len() implies r[a].0 != r[b].0 by {
            let a2 = if a < oldest(es) { a } else { a + 1 };
            let b2 = if b < oldest(es) { b } else { b + 1 };
            assert(r[a] == es[a2]);
            assert(r[b] == es[b2]);
        }
    }
}

/// With distinct keys, each stored entry is what a lookup of its key finds.
pub proof fn lemma_lookup_at(es: Seq<EntryView>, i: int)
    requires
        distinct_keys(es),
        0 <= i < es.len(),
    ensures
        lookup(es, es[i].0) == Some(es[i].1),
{
    lemma_index_of_distinct(es, i);
}

/// A key stored nowhere is not found.
pub proof fn lemma_lookup_absent(es: Seq<EntryView>, k: KeyView)
    requires
        forall|j: int| 0 <= j < es.len() ==> es[j].0 != k,
    ensures
        lookup(es, k) is None,
{
    lemma_index_of_key(es, k);
}

/// Lookups of keys other than the one written agree before and after a
/// write that leaves every other stored entry as it was.
proof fn lemma_others_agree(es: Seq<EntryView>, after: Seq<EntryView>, k: KeyView, k2: KeyView)
    requires
        distinct_keys(es),
        distinct_keys(after),
        k2 != k,
        forall|j: int| 0 <= j < es.len() && es[j].0 == k2 ==> exists|m: int|
            0 <= m < after.len() && #[trigger] after[m] == es[j],
        forall|m: int| 0 <= m < after.len() && after[m].0 == k2 ==> exists|j: int|
            0 <= j < es.len() && #[trigger] es[j] == after[m],
    ensures
        lookup(after, k2) == lookup(es, k2),
{
    lemma_index_of_key(es, k2);
    lemma_index_of_key(after, k2);
    let i = index_of_key(es, k2);
    if i >= 0 {
        let m = choose|m: int| 0 <= m < after.len() && after[m] == es[i];
        lemma_lookup_at(after, m);
        lemma_lookup_at(es, i);
    } else {
        let m = index_of_key(after, k2);
        if m >= 0 {
            let j = choose|j: int| 0 <= j < es.len() && es[j] == after[m];
            assert(es[j].0 == k2);
        }
    }
}

/// A lookup right after an insertion finds what was inserted.
pub proof fn lemma_get_after_insert(
    es: Seq<EntryView>,
    k: KeyView,
    c: Seq<Seq<char>>,
    t: u64,
    capacity: nat,
)
    requires
        distinct_keys(es),
        es.len() <= capacity,
        capacity >= 1,
    ensures
        lookup(after_insert(es, k, c, t, capacity), k) == Some(c),
{
    let after = after_insert(es, k, c, t, capacity);
    lemma_insert_keeps_bound(es, k, c, t, capacity);
    lemma_index_of_key(es, k);
    let i = index_of_key(es, k);
    if i >= 0 {
        lemma_lookup_at(after, i);
    } else {
        lemma_lookup_at(after, after.len() - 1);
    }
}

/// Replacing an existing key evicts nothing: every other key finds what
/// it found before.
pub proof fn lemma_reinsert_evicts_nothing(
    es: Seq<EntryView>,
    k: KeyView,
    c: Seq<Seq<char>>,
    t: u64,
    capacity: nat,
    k2: KeyView,
)
    requires
        distinct_keys(es),
        es.len() <= capacity,
        capacity >= 1,
        lookup(es, k) is Some,
        k2 != k,
    ensures
        lookup(after_insert(es, k, c, t, capacity), k2) == lookup(es, k2),
        after_insert(es, k, c, t, capacity).len() == es.len(),
{
    let after = after_insert(es, k, c, t, capacity);
    lemma_insert_keeps_bound(es, k, c, t, capacity);
    lemma_index_of_key(es, k);
    let i = index_of_key(es, k);
    assert forall|j: int| 0 <= j < es.len() && es[j].0 == k2 implies exists|m: int|
        0 <= m < after.len() && #[trigger] after[m] == es[j] by {
        assert(after[j] == es[j]);
    }
    assert forall|m: int| 0 <= m < after.len() && after[m].0 == k2 implies exists|j: int|
        0 <= j < es.len() && #[trigger] es[j] == after[m] by {
        assert(es[m] == after[m]);
    }
    lemma_others_agree(es, after, k, k2);
}

/// A new key in a full cache evicts exactly the entry used longest ago:
/// that key is no longer found, and every other key finds what it found
/// before.
pub proof fn lemma_insert_evicts_least_recent(
    es: Seq<EntryView>,
    k: KeyView,
    c: Seq<Seq<char>>,
    t: u64,
    capacity: nat,
    k2: KeyView,
)
    requires
        distinct_keys(es),
        es.len() == capacity,
        capacity >= 1,
        lookup(es, k) is None,
        k2 != k,
    ensures
        0 <= oldest(es) < es.len(),
        forall|j: int| 0 <= j < es.len() ==> es[oldest(es)].2 <= #[trigger] es[j].2,
        lookup(after_insert(es, k, c, t, capacity), es[oldest(es)].0) is None,
        k2 != es[oldest(es)].0 ==> lookup(after_insert(es, k, c, t, capacity), k2) == lookup(
            es,
            k2,
        ),
        after_insert(es, k, c, t, capacity).len() == es.len(),
{
    let after = after_insert(es, k, c, t, capacity);
    lemma_insert_keeps_bound(es, k, c, t, capacity);
    lemma_index_of_key(es, k);
    lemma_oldest(es);
    let o = oldest(es);
    let r = es.remove(o);
    assert(after == r.push((k, c, t)));
    let victim = es[o].0;
    assert forall|m: int| 0 <= m < after.len() implies after[m].0 != victim by {
        if m < r.len() {
            let j = if m < o { m } else { m + 1 };
            assert(r[m] == es[j]);
        }
    }
    lemma_lookup_absent(after, victim);
    if k2 != victim {
        assert forall|j: int| 0 <= j < es.len() && es[j].0 == k2 implies exists|m: int|
            0 <= m < after.len() && #[trigger] after[m] == es[j] by {
            let m = if j < o { j } else { j - 1 };
            assert(j != o);
            assert(after[m] == es[j]);
        }
        assert forall|m: int| 0 <= m < after.len() && after[m].0 == k2 implies exists|j: int|
            0 <= j < es.len() && #[trigger] es[j] == after[m] by {
            let j = if m < o { m } else { m + 1 };
            assert(es[j] == after[m]);
        }
        lemma_others_agree(es, after, k, k2);
    }
}

/// A lookup changes no cached candidates.
pub proof fn lemma_get_keeps_contents(es: Seq<EntryView>, k: KeyView, t: u64, k2: KeyView)
    requires
        distinct_keys(es),
    ensures
        lookup(after_get(es, k, t), k2) == lookup(es, k2),
        after_get(es, k, t).len() == es.len(),
{
    lemma_index_of_key(es, k);
    lemma_index_of_key(es, k2);
    let i = index_of_key(es, k);
    if i >= 0 {
        let after = after_get(es, k, t);
        lemma_update_keeps_keys(es, i, (es[i].0, es[i].1, t));
        lemma_index_of_key(after, k2);
        let j = index_of_key(es, k2);
        if j >= 0 {
            lemma_lookup_at(after, j);
        } else {
            lemma_lookup_absent(after, k2);
        }
    }
}

} // verus!
