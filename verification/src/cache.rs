//! The in-process tiers of the artifact store: a membership filter in front
//! of a bounded least-recently-used memory tier, with hit and miss counters.
//!
//! The disk tier belongs to the caller. A lookup that the memory tier cannot
//! answer comes back as [`Lookup::AskDisk`]; the caller reads its disk tier
//! and reports what it found to [`MultiLevelCache::complete_get`]. After
//! [`MultiLevelCache::put`] the caller writes the disk tier.

use crate::constants::{FILTER_BYTES, FILTER_ITEMS, MEMORY_CACHE_ENTRIES};
use bloomfilter::Bloom;
use lru::LruCache;
use std::num::NonZeroUsize;
use vstd::prelude::*;

verus! {

#[verifier::external_type_specification]
#[verifier::external_body]
#[verifier::reject_recursive_types(K)]
#[verifier::reject_recursive_types(V)]
#[verifier::reject_recursive_types(S)]
pub struct ExLruCache<K, V, S>(LruCache<K, V, S>);

#[verifier::external_type_specification]
#[verifier::external_body]
pub struct ExDefaultHasher(lru::DefaultHasher);

#[verifier::external_type_specification]
#[verifier::external_body]
#[verifier::reject_recursive_types(T)]
pub struct ExBloom<T: ?Sized>(Bloom<T>);

/// The entries of a memory tier, the most recently used first.
pub uninterp spec fn lru_entries(c: LruCache<String, Vec<u8>>) -> Seq<
    (Seq<char>, Seq<u8>),
>;

/// The number of entries that a memory tier was made for.
pub uninterp spec fn lru_capacity(c: LruCache<String, Vec<u8>>) -> nat;

/// The keys that a membership filter lets pass: those for which every bit
/// that the filter's hash functions point to is set.
pub uninterp spec fn bloom_passes(b: Bloom<str>) -> Set<Seq<char>>;

/// Whether `entries` holds the key `key`.
pub open spec fn has_entry(entries: Seq<(Seq<char>, Seq<u8>)>, key: Seq<char>) -> bool {
    exists|i: int| 0 <= i < entries.len() && (#[trigger] entries[i]).0 == key
}

/// The index of the key `key` in `entries`.
pub open spec fn entry_index(entries: Seq<(Seq<char>, Seq<u8>)>, key: Seq<char>) -> int {
    choose|i: int| 0 <= i < entries.len() && (#[trigger] entries[i]).0 == key
}

/// Whether no two of `entries` have the same key.
pub open spec fn distinct_entries(entries: Seq<(Seq<char>, Seq<u8>)>) -> bool {
    forall|i: int, j: int|
        0 <= i < j < entries.len() ==> (#[trigger] entries[i]).0 != (#[trigger] entries[j]).0
}

/// `entries` after the entry at index `i` was used: it moves to the front.
pub open spec fn touched(entries: Seq<(Seq<char>, Seq<u8>)>, i: int) -> Seq<(Seq<char>, Seq<u8>)> {
    seq![entries[i]] + entries.remove(i)
}

/// `entries` after `key` was stored in a tier made for `capacity` entries:
/// the new entry stands at the front; it replaces the entry of its key, or
/// else, in a full tier, pushes out the entry used least recently.
pub open spec fn stored(
    entries: Seq<(Seq<char>, Seq<u8>)>,
    capacity: nat,
    key: Seq<char>,
    data: Seq<u8>,
) -> Seq<(Seq<char>, Seq<u8>)> {
    if has_entry(entries, key) {
        seq![(key, data)] + entries.remove(entry_index(entries, key))
    } else if entries.len() == capacity {
        seq![(key, data)] + entries.drop_last()
    } else {
        seq![(key, data)] + entries
    }
}

/// `LruCache::new`: an empty cache for `capacity` entries. A capacity of
/// zero has no `NonZeroUsize`.
#[verifier::external_body]
fn lru_new(capacity: usize) -> (c: LruCache<String, Vec<u8>>)
    requires
        capacity > 0,
    ensures
        lru_entries(c) == Seq::<(Seq<char>, Seq<u8>)>::empty(),
        lru_capacity(c) == capacity,
{
    LruCache::new(NonZeroUsize::new(capacity).unwrap())
}

/// `LruCache::get`: the value of `key`, whose entry moves to the front;
/// without such an entry nothing changes.
#[verifier::external_body]
fn lru_get(c: &mut LruCache<String, Vec<u8>>, key: &str) -> (r: Option<Vec<u8>>)
    ensures
        lru_capacity(*final(c)) == lru_capacity(*old(c)),
        match r {
            Some(data) => exists|i: int|
                0 <= i < lru_entries(*old(c)).len() && #[trigger] lru_entries(*old(c))[i] == (
                    key@,
                    data@,
                ) && lru_entries(*final(c)) == touched(lru_entries(*old(c)), i),
            None => !has_entry(lru_entries(*old(c)), key@) && lru_entries(*final(c))
                == lru_entries(*old(c)),
        },
{
    c.get(key).cloned()
}

/// `LruCache::put`: the new entry stands at the front. It takes the place of
/// an entry with its key; without one, a cache that holds as many entries
/// as it was made for loses its last entry.
#[verifier::external_body]
fn lru_put(c: &mut LruCache<String, Vec<u8>>, key: String, data: Vec<u8>)
    ensures
        lru_capacity(*final(c)) == lru_capacity(*old(c)),
        forall|i: int|
            0 <= i < lru_entries(*old(c)).len() && (#[trigger] lru_entries(*old(c))[i]).0 == key@
                ==> lru_entries(*final(c)) == seq![(key@, data@)] + lru_entries(*old(c)).remove(i),
        !has_entry(lru_entries(*old(c)), key@) ==> lru_entries(*final(c)) == if lru_entries(
            *old(c),
        ).len() == lru_capacity(*old(c)) {
            seq![(key@, data@)] + lru_entries(*old(c)).drop_last()
        } else {
            seq![(key@, data@)] + lru_entries(*old(c))
        },
{
    c.put(key, data);
}

/// `LruCache::clear`: no entry is left.
#[verifier::external_body]
fn lru_clear(c: &mut LruCache<String, Vec<u8>>)
    ensures
        lru_capacity(*final(c)) == lru_capacity(*old(c)),
        lru_entries(*final(c)) == Seq::<(Seq<char>, Seq<u8>)>::empty(),
{
    c.clear();
}

/// `Bloom::new`: a filter of `bytes` bytes for about `items` keys, with
/// no bit set, so that it lets no key pass; it hashes with keys that it
/// draws at random. Neither number may be zero, and the filter's bits are
/// counted in a `usize`.
#[verifier::external_body]
fn bloom_new(bytes: usize, items: usize) -> (b: Bloom<str>)
    requires
        bytes > 0,
        items > 0,
        bytes * 8 <= usize::MAX,
    ensures
        bloom_passes(b) == Set::<Seq<char>>::empty(),
{
    Bloom::new(bytes, items)
}

/// `Bloom::set`: sets the bits of `key`. The filter lets `key` pass from
/// then on, and every key that it let pass before; which other keys pass
/// now as well is up to the hash functions.
#[verifier::external_body]
fn bloom_set(b: &mut Bloom<str>, key: &str)
    ensures
        bloom_passes(*old(b)).insert(key@).subset_of(bloom_passes(*final(b))),
{
    b.set(key);
}

/// `Bloom::check`: whether the filter lets `key` pass.
#[verifier::external_body]
fn bloom_check(b: &Bloom<str>, key: &str) -> (r: bool)
    ensures
        r == bloom_passes(*b).contains(key@),
{
    b.check(key)
}

/// The mathematical value of a [`MultiLevelCache`].
#[verifier::ext_equal]
pub struct CacheView {
    /// The keys that the membership filter lets pass: every key that was
    /// recorded, and those that the filter takes for one of them.
    pub filter: Set<Seq<char>>,
    /// The memory tier, the most recently used entry first.
    pub memory: Seq<(Seq<char>, Seq<u8>)>,
    /// The number of entries that the memory tier holds at most.
    pub capacity: nat,
    pub hits: nat,
    pub misses: nat,
}

/// The outcome of a lookup in the in-process tiers.
#[derive(Debug)]
pub enum Lookup {
    /// The membership filter does not know the key: a miss.
    Miss,
    /// The memory tier holds the key: a hit.
    Hit(Vec<u8>),
    /// The memory tier does not hold the key; the disk tier decides.
    AskDisk,
}

/// The mathematical value of a [`Lookup`].
pub enum LookupView {
    Miss,
    Hit(Seq<u8>),
    AskDisk,
}

impl View for Lookup {
    type V = LookupView;

    open spec fn view(&self) -> LookupView {
        match self {
            Lookup::Miss => LookupView::Miss,
            Lookup::Hit(data) => LookupView::Hit(data@),
            Lookup::AskDisk => LookupView::AskDisk,
        }
    }
}

/// The hit ratio as a fraction: `hits` of `total` lookups.
#[derive(Clone, Copy, Debug, PartialEq, Eq, Structural)]
pub struct HitRate {
    pub hits: u64,
    pub total: u64,
}

impl CacheView {
    /// What holds of every cache: the memory tier has room for an entry, no
    /// key twice and no more entries than it was made for, and the counters
    /// fit 64 bits together.
    pub open spec fn valid(self) -> bool {
        &&& self.capacity > 0
        &&& self.memory.len() <= self.capacity
        &&& distinct_entries(self.memory)
        &&& self.hits + self.misses <= u64::MAX
    }

    /// The value that the memory tier holds for `key`.
    pub open spec fn memory_value(self, key: Seq<char>) -> Seq<u8> {
        self.memory[entry_index(self.memory, key)].1
    }

    /// The cache after a hit in the memory tier.
    pub open spec fn after_hit(self, key: Seq<char>) -> CacheView {
        CacheView {
            filter: self.filter,
            memory: touched(self.memory, entry_index(self.memory, key)),
            capacity: self.capacity,
            hits: self.hits + 1,
            misses: self.misses,
        }
    }

    /// The cache after a miss.
    pub open spec fn after_miss(self) -> CacheView {
        CacheView {
            filter: self.filter,
            memory: self.memory,
            capacity: self.capacity,
            hits: self.hits,
            misses: self.misses + 1,
        }
    }

    /// The cache after a hit in the disk tier: the value is promoted to the
    /// memory tier.
    pub open spec fn after_promotion(self, key: Seq<char>, data: Seq<u8>) -> CacheView {
        CacheView {
            filter: self.filter,
            memory: stored(self.memory, self.capacity, key, data),
            capacity: self.capacity,
            hits: self.hits + 1,
            misses: self.misses,
        }
    }

    /// Whether storing `key` may leave the cache as `after`: the memory
    /// tier holds the entry, the counters stand, and the filter lets the
    /// key pass besides every key that it let pass before.
    pub open spec fn put_allows(self, key: Seq<char>, data: Seq<u8>, after: CacheView) -> bool {
        &&& after.memory == stored(self.memory, self.capacity, key, data)
        &&& after.capacity == self.capacity
        &&& after.hits == self.hits
        &&& after.misses == self.misses
        &&& self.filter.insert(key).subset_of(after.filter)
    }

    /// The cache after it was cleared.
    pub open spec fn cleared(self) -> CacheView {
        CacheView {
            filter: Set::empty(),
            memory: Seq::empty(),
            capacity: self.capacity,
            hits: 0,
            misses: 0,
        }
    }

    /// The outcome of a lookup of `key` in the filter and the memory tier,
    /// and the cache that it leaves. A key that the filter does not let
    /// pass is a miss; a key that the memory tier holds is a hit; any other
    /// key is the disk tier's to decide, and nothing is counted yet.
    pub open spec fn lookup(self, key: Seq<char>) -> (LookupView, CacheView) {
        if !self.filter.contains(key) {
            (LookupView::Miss, self.after_miss())
        } else if has_entry(self.memory, key) {
            (LookupView::Hit(self.memory_value(key)), self.after_hit(key))
        } else {
            (LookupView::AskDisk, self)
        }
    }

    /// The answer to a lookup that went to the disk tier, and the cache that
    /// it leaves.
    pub open spec fn completed(self, key: Seq<char>, disk: Option<Seq<u8>>) -> (
        Option<Seq<u8>>,
        CacheView,
    ) {
        match disk {
            Some(data) => (Some(data), self.after_promotion(key, data)),
            None => (None, self.after_miss()),
        }
    }

    /// Whether the tiers agree that `key` has the value `data`: the filter
    /// lets the key pass, the disk tier holds the value, and the memory
    /// tier holds no other value for the key.
    pub open spec fn settled(
        self,
        disk: Map<Seq<char>, Seq<u8>>,
        key: Seq<char>,
        data: Seq<u8>,
    ) -> bool {
        &&& self.filter.contains(key)
        &&& disk.contains_key(key) && disk[key] == data
        &&& has_entry(self.memory, key) ==> self.memory_value(key) == data
    }
}

/// Storing keeps the memory tier within its bounds, puts the new entry at
/// the front, and leaves the values of the other keys as they were.
pub proof fn lemma_stored(
    entries: Seq<(Seq<char>, Seq<u8>)>,
    capacity: nat,
    key: Seq<char>,
    data: Seq<u8>,
)
    requires
        capacity > 0,
        entries.len() <= capacity,
        distinct_entries(entries),
    ensures
        distinct_entries(stored(entries, capacity, key, data)),
        stored(entries, capacity, key, data).len() <= capacity,
        stored(entries, capacity, key, data).len() > 0,
        stored(entries, capacity, key, data)[0] == (key, data),
        has_entry(stored(entries, capacity, key, data), key),
        entry_index(stored(entries, capacity, key, data), key) == 0,
        forall|other: Seq<char>|
            other != key && #[trigger] has_entry(stored(entries, capacity, key, data), other)
                ==> has_entry(entries, other) && stored(entries, capacity, key, data)[entry_index(
                stored(entries, capacity, key, data),
                other,
            )].1 == entries[entry_index(entries, other)].1,
{
    let after = stored(entries, capacity, key, data);
    let tail = if has_entry(entries, key) {
        entries.remove(entry_index(entries, key))
    } else if entries.len() == capacity {
        entries.drop_last()
    } else {
        entries
    };
    assert(after =~= seq![(key, data)] + tail);
    // Every entry of the tail is an entry of `entries` with another key, and
    // the tail keeps their order.
    let skip = if has_entry(entries, key) {
        entry_index(entries, key)
    } else {
        entries.len() as int
    };
    assert forall|t: int| 0 <= t < tail.len() implies #[trigger] tail[t] == entries[if t < skip {
        t
    } else {
        t + 1
    }] && tail[t].0 != key by {
        let s = if t < skip { t } else { t + 1 };
        if has_entry(entries, key) {
            assert(entries[skip].0 == key);
            assert(tail[t] == entries[s]);
            if s < skip {
                assert(entries[s].0 != entries[skip].0);
            } else {
                assert(entries[skip].0 != entries[s].0);
            }
        } else {
            assert(tail[t] == entries[t]);
        }
    }
    assert forall|i: int, j: int| 0 <= i < j < after.len() implies (#[trigger] after[i]).0 != (
    #[trigger] after[j]).0 by {
        assert(after[j] == tail[j - 1]);
        if i == 0 {
        } else {
            assert(after[i] == tail[i - 1]);
            let si = if i - 1 < skip { i - 1 } else { i };
            let sj = if j - 1 < skip { j - 1 } else { j };
            assert(tail[i - 1] == entries[si]);
            assert(tail[j - 1] == entries[sj]);
            assert(entries[si].0 != entries[sj].0);
        }
    }
    assert(after[0].0 == key);
    assert(has_entry(after, key));
    let k0 = entry_index(after, key);
    assert(after[k0].0 == key);
    if k0 != 0 {
        assert(after[0].0 != after[k0].0);
    }
    assert forall|other: Seq<char>| other != key && #[trigger] has_entry(after, other) implies has_entry(
        entries,
        other,
    ) && after[entry_index(after, other)].1 == entries[entry_index(entries, other)].1 by {
        let a = entry_index(after, other);
        assert(after[a].0 == other);
        assert(a != 0);
        assert(after[a] == tail[a - 1]);
        let s = if a - 1 < skip { a - 1 } else { a };
        assert(tail[a - 1] == entries[s]);
        assert(entries[s].0 == other);
        let e = entry_index(entries, other);
        assert(entries[e].0 == other);
        if e < s {
            assert(entries[e].0 != entries[s].0);
        } else if s < e {
            assert(entries[s].0 != entries[e].0);
        }
    }
}

/// Using an entry moves it to the front and changes no value.
pub proof fn lemma_touched(entries: Seq<(Seq<char>, Seq<u8>)>, i: int)
    requires
        distinct_entries(entries),
        0 <= i < entries.len(),
    ensures
        distinct_entries(touched(entries, i)),
        touched(entries, i).len() == entries.len(),
        forall|key: Seq<char>|
            #[trigger] has_entry(touched(entries, i), key) ==> has_entry(entries, key) && touched(
                entries,
                i,
            )[entry_index(touched(entries, i), key)].1 == entries[entry_index(entries, key)].1,
{
    let after = touched(entries, i);
    let rest = entries.remove(i);
    assert forall|a: int| 0 <= a < after.len() implies #[trigger] after[a] == entries[if a == 0 {
        i
    } else if a - 1 < i {
        a - 1
    } else {
        a
    }] by {
        if a > 0 {
            assert(after[a] == rest[a - 1]);
        }
    }
    assert forall|a: int, b: int| 0 <= a < b < after.len() implies (#[trigger] after[a]).0 != (
    #[trigger] after[b]).0 by {
        let sa = if a == 0 { i } else if a - 1 < i { a - 1 } else { a };
        let sb = if b - 1 < i { b - 1 } else { b };
        assert(after[a] == entries[sa]);
        assert(after[b] == entries[sb]);
        if sa < sb {
            assert(entries[sa].0 != entries[sb].0);
        } else {
            assert(entries[sb].0 != entries[sa].0);
        }
    }
    assert forall|key: Seq<char>| #[trigger] has_entry(after, key) implies has_entry(entries, key)
        && after[entry_index(after, key)].1 == entries[entry_index(entries, key)].1 by {
        let a = entry_index(after, key);
        assert(after[a].0 == key);
        let s = if a == 0 { i } else if a - 1 < i { a - 1 } else { a };
        assert(after[a] == entries[s]);
        assert(entries[s].0 == key);
        let e = entry_index(entries, key);
        assert(entries[e].0 == key);
        if e < s {
            assert(entries[e].0 != entries[s].0);
        } else if s < e {
            assert(entries[s].0 != entries[e].0);
        }
    }
}

/// After a key was stored and written to the disk tier, the tiers agree on
/// its value.
pub proof fn lemma_put_settles(
    cache: CacheView,
    disk: Map<Seq<char>, Seq<u8>>,
    key: Seq<char>,
    data: Seq<u8>,
    after: CacheView,
)
    requires
        cache.valid(),
        cache.put_allows(key, data, after),
    ensures
        after.valid(),
        after.settled(disk.insert(key, data), key, data),
{
    lemma_stored(cache.memory, cache.capacity, key, data);
    assert(cache.filter.insert(key).contains(key));
}

/// While the tiers agree on the value of a key, a lookup of the key yields
/// that value, as long as the counters can count it: it is never a miss, a
/// hit in the memory tier carries the value, and a lookup that goes to the
/// disk tier is answered with it. The tiers agree afterwards as before.
pub proof fn lemma_get_after_put(
    cache: CacheView,
    disk: Map<Seq<char>, Seq<u8>>,
    key: Seq<char>,
    data: Seq<u8>,
)
    requires
        cache.valid(),
        cache.hits + cache.misses < u64::MAX,
        cache.settled(disk, key, data),
    ensures
        match cache.lookup(key).0 {
            LookupView::Miss => false,
            LookupView::Hit(found) => found == data && cache.lookup(key).1.valid()
                && cache.lookup(key).1.settled(disk, key, data),
            LookupView::AskDisk => cache.lookup(key).1.completed(key, Some(disk[key])).0 == Some(
                data,
            ) && cache.lookup(key).1.completed(key, Some(disk[key])).1.valid()
                && cache.lookup(key).1.completed(key, Some(disk[key])).1.settled(disk, key, data),
        },
{
    if has_entry(cache.memory, key) {
        let i = entry_index(cache.memory, key);
        assert(cache.memory[i].0 == key);
        lemma_touched(cache.memory, i);
    } else {
        lemma_stored(cache.memory, cache.capacity, key, data);
    }
}

/// Lookups and stores of other keys, whether or not their disk writes went
/// through, leave an agreement on the value of a key untouched.
pub proof fn lemma_other_keys_keep_settled(
    cache: CacheView,
    disk: Map<Seq<char>, Seq<u8>>,
    key: Seq<char>,
    data: Seq<u8>,
    other: Seq<char>,
    other_data: Seq<u8>,
    after: CacheView,
)
    requires
        cache.valid(),
        cache.settled(disk, key, data),
        other != key,
    ensures
        cache.put_allows(other, other_data, after) ==> after.settled(disk, key, data)
            && after.settled(disk.insert(other, other_data), key, data),
        cache.after_promotion(other, other_data).settled(disk, key, data),
        cache.after_miss().settled(disk, key, data),
        cache.lookup(other).1.settled(disk, key, data),
{
    lemma_stored(cache.memory, cache.capacity, other, other_data);
    if has_entry(cache.memory, other) {
        let i = entry_index(cache.memory, other);
        assert(cache.memory[i].0 == other);
        lemma_touched(cache.memory, i);
    }
    if cache.put_allows(other, other_data, after) {
        assert(cache.filter.insert(other).contains(key));
    }
}

/// A lookup that is repeated gives the same answer: a miss stays a miss,
/// a hit stays a hit with the same value, and a key that was left to the
/// disk tier is left to it again until the lookup is finished.
pub proof fn lemma_repeated_lookup(cache: CacheView, key: Seq<char>)
    requires
        cache.valid(),
    ensures
        cache.lookup(key).1.lookup(key).0 == cache.lookup(key).0,
{
    if cache.filter.contains(key) && has_entry(cache.memory, key) {
        let i = entry_index(cache.memory, key);
        assert(cache.memory[i].0 == key);
        lemma_touched(cache.memory, i);
        let after = touched(cache.memory, i);
        assert(after[0] == cache.memory[i]);
        assert(has_entry(after, key));
    }
}

/// The cache together with the disk tier that its caller keeps.
pub struct Tiers {
    pub cache: CacheView,
    pub disk: Map<Seq<char>, Seq<u8>>,
}

/// One use of the cache.
pub enum CacheStep {
    /// A lookup of a key, finished in the disk tier where the cache asks
    /// for it.
    Get { key: Seq<char> },
    /// A store of a value, of which `written` says whether the write to the
    /// disk tier went through.
    Put { key: Seq<char>, data: Seq<u8>, written: bool },
}

impl Tiers {
    /// What a lookup of `key` answers: nothing for a miss, the value of the
    /// memory tier for a hit, and else what the disk tier holds.
    pub open spec fn answer(self, key: Seq<char>) -> Option<Seq<u8>> {
        match self.cache.lookup(key).0 {
            LookupView::Miss => None,
            LookupView::Hit(data) => Some(data),
            LookupView::AskDisk => if self.disk.contains_key(key) {
                Some(self.disk[key])
            } else {
                None
            },
        }
    }

    /// The cache after a lookup of `key` that was finished in the disk tier
    /// where the cache asked for it.
    pub open spec fn after_get(self, key: Seq<char>) -> CacheView {
        match self.cache.lookup(key).0 {
            LookupView::AskDisk => self.cache.lookup(key).1.completed(
                key,
                if self.disk.contains_key(key) {
                    Some(self.disk[key])
                } else {
                    None
                },
            ).1,
            _ => self.cache.lookup(key).1,
        }
    }

    /// Whether `step` may lead from these tiers to `after`. A lookup needs
    /// counters that can count it and leaves the disk tier alone; a store
    /// changes the disk tier where its write went through.
    pub open spec fn allows(self, step: CacheStep, after: Tiers) -> bool {
        match step {
            CacheStep::Get { key } => self.cache.hits + self.cache.misses < u64::MAX && after.cache
                == self.after_get(key) && after.disk == self.disk,
            CacheStep::Put { key, data, written } => self.cache.put_allows(key, data, after.cache)
                && after.disk == if written {
                self.disk.insert(key, data)
            } else {
                self.disk
            },
        }
    }
}

/// Whether `states` is a run of the cache through `steps`, none of which
/// stores the key `key`.
pub open spec fn is_run_without(states: Seq<Tiers>, steps: Seq<CacheStep>, key: Seq<char>) -> bool {
    &&& states.len() == steps.len() + 1
    &&& forall|i: int| 0 <= i < steps.len() ==> (#[trigger] states[i]).allows(steps[i], states[i + 1])
    &&& forall|i: int|
        0 <= i < steps.len() ==> !(#[trigger] steps[i] matches CacheStep::Put { key: stored, .. }
            && stored == key)
}

/// One step that does not store the key leaves an agreement on the value of
/// the key in place.
pub proof fn lemma_step_keeps_settled(
    before: Tiers,
    step: CacheStep,
    after: Tiers,
    key: Seq<char>,
    data: Seq<u8>,
)
    requires
        before.cache.valid(),
        before.cache.settled(before.disk, key, data),
        before.allows(step, after),
        !(step matches CacheStep::Put { key: stored, .. } && stored == key),
    ensures
        after.cache.valid(),
        after.cache.settled(after.disk, key, data),
{
    let cache = before.cache;
    match step {
        CacheStep::Get { key: asked } => {
            if asked == key {
                lemma_get_after_put(cache, before.disk, key, data);
            } else {
                let found = if before.disk.contains_key(asked) {
                    before.disk[asked]
                } else {
                    Seq::empty()
                };
                lemma_other_keys_keep_settled(cache, before.disk, key, data, asked, found, cache);
                lemma_stored(cache.memory, cache.capacity, asked, found);
                if has_entry(cache.memory, asked) {
                    let i = entry_index(cache.memory, asked);
                    assert(cache.memory[i].0 == asked);
                    lemma_touched(cache.memory, i);
                }
            }
        },
        CacheStep::Put { key: stored_key, data: stored_data, written } => {
            lemma_other_keys_keep_settled(
                cache,
                before.disk,
                key,
                data,
                stored_key,
                stored_data,
                after.cache,
            );
            lemma_put_settles(cache, before.disk, stored_key, stored_data, after.cache);
        },
    }
}

/// A lookup of a key that neither the memory tier nor the disk tier holds
/// answers nothing and counts as one miss, whether the filter or the tiers
/// said no, as long as the counters can count it.
pub proof fn lemma_miss_counts(tiers: Tiers, key: Seq<char>)
    requires
        tiers.cache.valid(),
        tiers.cache.hits + tiers.cache.misses < u64::MAX,
        !has_entry(tiers.cache.memory, key),
        !tiers.disk.contains_key(key),
    ensures
        tiers.answer(key) is None,
        tiers.after_get(key).misses == tiers.cache.misses + 1,
        tiers.after_get(key).hits == tiers.cache.hits,
        tiers.after_get(key).memory == tiers.cache.memory,
        tiers.after_get(key).valid(),
{
}

/// A lookup of a key on whose value the tiers agree answers with the value
/// and counts as one hit, whether the memory tier or the disk tier served
/// it, as long as the counters can count it.
pub proof fn lemma_hit_counts(tiers: Tiers, key: Seq<char>, data: Seq<u8>)
    requires
        tiers.cache.valid(),
        tiers.cache.hits + tiers.cache.misses < u64::MAX,
        tiers.cache.settled(tiers.disk, key, data),
    ensures
        tiers.answer(key) == Some(data),
        tiers.after_get(key).hits == tiers.cache.hits + 1,
        tiers.after_get(key).misses == tiers.cache.misses,
        tiers.after_get(key).valid(),
        tiers.after_get(key).settled(tiers.disk, key, data),
{
    lemma_get_after_put(tiers.cache, tiers.disk, key, data);
}

/// A miss on a key, a store of the key that reached the disk tier and a
/// second lookup count one miss and one hit, and the second lookup answers
/// with the stored value.
pub proof fn lemma_miss_then_hit(
    tiers: Tiers,
    key: Seq<char>,
    data: Seq<u8>,
    after_put: CacheView,
)
    requires
        tiers.cache.valid(),
        tiers.cache.hits + tiers.cache.misses + 1 < u64::MAX,
        !has_entry(tiers.cache.memory, key),
        !tiers.disk.contains_key(key),
        tiers.after_get(key).put_allows(key, data, after_put),
    ensures
        tiers.answer(key) is None,
        (Tiers { cache: after_put, disk: tiers.disk.insert(key, data) }).answer(key) == Some(data),
        (Tiers { cache: after_put, disk: tiers.disk.insert(key, data) }).after_get(key).hits
            == tiers.cache.hits + 1,
        (Tiers { cache: after_put, disk: tiers.disk.insert(key, data) }).after_get(key).misses
            == tiers.cache.misses + 1,
{
    lemma_miss_counts(tiers, key);
    let missed = tiers.after_get(key);
    lemma_put_settles(missed, tiers.disk, key, data, after_put);
    lemma_hit_counts(
        Tiers { cache: after_put, disk: tiers.disk.insert(key, data) },
        key,
        data,
    );
}

/// After a value was stored under a key and written to the disk tier,
/// every run of lookups of any keys and of stores of other keys, whether
/// or not their writes went through, leaves the tiers in agreement on the
/// key: a lookup of the key at its end answers with the value.
pub proof fn lemma_get_after_put_and_any_run(
    states: Seq<Tiers>,
    steps: Seq<CacheStep>,
    key: Seq<char>,
    data: Seq<u8>,
)
    requires
        is_run_without(states, steps, key),
        states[0].cache.valid(),
        states[0].cache.settled(states[0].disk, key, data),
    ensures
        states.last().cache.valid(),
        states.last().cache.settled(states.last().disk, key, data),
        states.last().cache.hits + states.last().cache.misses < u64::MAX ==> states.last().answer(
            key,
        ) == Some(data),
    decreases steps.len(),
{
    if steps.len() > 0 {
        let n = steps.len() as int;
        let earlier_states = states.drop_last();
        let earlier_steps = steps.drop_last();
        assert forall|i: int| 0 <= i < earlier_steps.len() implies (
        #[trigger] earlier_states[i]).allows(earlier_steps[i], earlier_states[i + 1]) by {
            assert(states[i].allows(steps[i], states[i + 1]));
        }
        assert forall|i: int| 0 <= i < earlier_steps.len() implies !(
        #[trigger] earlier_steps[i] matches CacheStep::Put { key: stored, .. } && stored
            == key) by {
            assert(earlier_steps[i] == steps[i]);
        }
        lemma_get_after_put_and_any_run(earlier_states, earlier_steps, key, data);
        assert(earlier_states.last() == states[n - 1]);
        assert(states[n - 1].allows(steps[n - 1], states[n]));
        lemma_step_keeps_settled(states[n - 1], steps[n - 1], states[n], key, data);
    }
    let last = states.last();
    if last.cache.hits + last.cache.misses < u64::MAX {
        lemma_get_after_put(last.cache, last.disk, key, data);
    }
}

/// The in-process tiers of the artifact store.
pub struct MultiLevelCache {
    memory: LruCache<String, Vec<u8>>,
    bloom: Bloom<str>,
    hits: u64,
    misses: u64,
}

impl View for MultiLevelCache {
    type V = CacheView;

    closed spec fn view(&self) -> CacheView {
        CacheView {
            filter: bloom_passes(self.bloom),
            memory: lru_entries(self.memory),
            capacity: lru_capacity(self.memory),
            hits: self.hits as nat,
            misses: self.misses as nat,
        }
    }
}

impl MultiLevelCache {
    /// A cache without entries whose memory tier holds
    /// `MEMORY_CACHE_ENTRIES` entries.
    pub fn new() -> (cache: Self)
        ensures
            cache@.valid(),
            cache@.filter == Set::<Seq<char>>::empty(),
            cache@.memory == Seq::<(Seq<char>, Seq<u8>)>::empty(),
            cache@.capacity == MEMORY_CACHE_ENTRIES,
            cache@.hits == 0,
            cache@.misses == 0,
    {
        Self::with_capacity(MEMORY_CACHE_ENTRIES)
    }

    /// A cache without entries whose memory tier holds `entries` entries.
    pub fn with_capacity(entries: usize) -> (cache: Self)
        requires
            entries > 0,
        ensures
            cache@.valid(),
            cache@.filter == Set::<Seq<char>>::empty(),
            cache@.memory == Seq::<(Seq<char>, Seq<u8>)>::empty(),
            cache@.capacity == entries,
            cache@.hits == 0,
            cache@.misses == 0,
    {
        MultiLevelCache {
            memory: lru_new(entries),
            bloom: bloom_new(FILTER_BYTES, FILTER_ITEMS),
            hits: 0,
            misses: 0,
        }
    }

    /// Whether the counters can count one more lookup.
    pub fn can_count(&self) -> (r: bool)
        requires
            self@.valid(),
        ensures
            r == (self@.hits + self@.misses < u64::MAX),
    {
        self.hits < u64::MAX - self.misses
    }

    /// Looks `key` up in the filter and the memory tier. The filter is
    /// asked first; a key that it does not let pass is a miss. A key that the
    /// memory tier holds is a hit and becomes its most recently used entry.
    /// Any other key is the disk tier's to decide, and nothing is counted
    /// yet.
    pub fn get(&mut self, key: &str) -> (outcome: Lookup)
        requires
            old(self)@.valid(),
            old(self)@.hits + old(self)@.misses < u64::MAX,
        ensures
            outcome@ == old(self)@.lookup(key@).0,
            final(self)@ == old(self)@.lookup(key@).1,
            final(self)@.valid(),
    {
        if !bloom_check(&self.bloom, key) {
            self.misses = self.misses + 1;
            assert(final(self)@ =~= old(self)@.after_miss());
            return Lookup::Miss;
        }
        match Self::fetch(&mut self.memory, key) {
            Some(data) => {
                self.hits = self.hits + 1;
                assert(final(self)@ =~= old(self)@.after_hit(key@));
                Lookup::Hit(data)
            },
            None => {
                assert(final(self)@ =~= old(self)@);
                Lookup::AskDisk
            },
        }
    }

    /// Finishes a lookup that went to the disk tier. A value that the disk
    /// tier held is a hit and is promoted to the memory tier; without one
    /// the lookup is a miss.
    pub fn complete_get(&mut self, key: &str, disk: Option<Vec<u8>>) -> (data: Option<Vec<u8>>)
        requires
            old(self)@.valid(),
            old(self)@.hits + old(self)@.misses < u64::MAX,
        ensures
            final(self)@ == old(self)@.completed(
                key@,
                match disk {
                    Some(d) => Some(d@),
                    None => None,
                },
            ).1,
            match data {
                Some(d) => disk matches Some(found) && d@ == found@,
                None => disk is None,
            },
            final(self)@.valid(),
    {
        match disk {
            Some(found) => {
                let copy = found.clone();
                assert(copy@ =~= found@);
                Self::store(&mut self.memory, String::from_str(key), copy);
                self.hits = self.hits + 1;
                assert(final(self)@ =~= old(self)@.after_promotion(key@, found@));
                Some(found)
            },
            None => {
                self.misses = self.misses + 1;
                assert(final(self)@ =~= old(self)@.after_miss());
                None
            },
        }
    }

    /// Reads an entry of a memory tier, which moves to the front.
    fn fetch(memory: &mut LruCache<String, Vec<u8>>, key: &str) -> (r: Option<Vec<u8>>)
        requires
            lru_capacity(*old(memory)) > 0,
            lru_entries(*old(memory)).len() <= lru_capacity(*old(memory)),
            distinct_entries(lru_entries(*old(memory))),
        ensures
            lru_capacity(*final(memory)) == lru_capacity(*old(memory)),
            lru_entries(*final(memory)).len() <= lru_capacity(*final(memory)),
            distinct_entries(lru_entries(*final(memory))),
            match r {
                Some(data) => has_entry(lru_entries(*old(memory)), key@) && data@ == lru_entries(
                    *old(memory),
                )[entry_index(lru_entries(*old(memory)), key@)].1 && lru_entries(*final(memory))
                    == touched(
                    lru_entries(*old(memory)),
                    entry_index(lru_entries(*old(memory)), key@),
                ),
                None => !has_entry(lru_entries(*old(memory)), key@) && lru_entries(*final(memory))
                    == lru_entries(*old(memory)),
            },
    {
        let ghost entries = lru_entries(*memory);
        let r = lru_get(memory, key);
        proof {
            if r is Some {
                let data = r->Some_0;
                let i = choose|i: int|
                    0 <= i < entries.len() && #[trigger] entries[i] == (key@, data@) && lru_entries(
                        *memory,
                    ) == touched(entries, i);
                assert(entries[i].0 == key@);
                let j = entry_index(entries, key@);
                assert(entries[j].0 == key@);
                if i < j {
                    assert(entries[i].0 != entries[j].0);
                } else if j < i {
                    assert(entries[j].0 != entries[i].0);
                }
                lemma_touched(entries, i);
            }
        }
        r
    }

    /// Stores an entry in a memory tier.
    fn store(memory: &mut LruCache<String, Vec<u8>>, key: String, data: Vec<u8>)
        requires
            lru_capacity(*old(memory)) > 0,
            lru_entries(*old(memory)).len() <= lru_capacity(*old(memory)),
            distinct_entries(lru_entries(*old(memory))),
        ensures
            lru_capacity(*final(memory)) == lru_capacity(*old(memory)),
            lru_entries(*final(memory)) == stored(
                lru_entries(*old(memory)),
                lru_capacity(*old(memory)),
                key@,
                data@,
            ),
            lru_entries(*final(memory)).len() <= lru_capacity(*final(memory)),
            distinct_entries(lru_entries(*final(memory))),
    {
        let ghost entries = lru_entries(*memory);
        let ghost capacity = lru_capacity(*memory);
        lru_put(memory, key, data);
        proof {
            if has_entry(entries, key@) {
                let i = entry_index(entries, key@);
                assert(entries[i].0 == key@);
            }
            lemma_stored(entries, capacity, key@, data@);
        }
    }

    /// Records `key` in the filter and stores `data` in the memory tier. The
    /// disk tier is the caller's to write; if that write fails, the memory
    /// tier holds the value all the same.
    pub fn put(&mut self, key: String, data: Vec<u8>)
        requires
            old(self)@.valid(),
        ensures
            old(self)@.put_allows(key@, data@, final(self)@),
            final(self)@.filter.contains(key@),
            has_entry(final(self)@.memory, key@),
            final(self)@.memory_value(key@) == data@,
            final(self)@.valid(),
    {
        proof {
            lemma_stored(old(self)@.memory, old(self)@.capacity, key@, data@);
            assert(old(self)@.filter.insert(key@).contains(key@));
        }
        bloom_set(&mut self.bloom, key.as_str());
        Self::store(&mut self.memory, key, data);
    }

    /// Records `key` in the filter without storing a value: for a key that
    /// the disk tier holds from an earlier run, so that the filter lets it
    /// pass.
    pub fn remember(&mut self, key: &str)
        requires
            old(self)@.valid(),
        ensures
            old(self)@.filter.insert(key@).subset_of(final(self)@.filter),
            final(self)@.filter.contains(key@),
            final(self)@.memory == old(self)@.memory,
            final(self)@.capacity == old(self)@.capacity,
            final(self)@.hits == old(self)@.hits,
            final(self)@.misses == old(self)@.misses,
            final(self)@.valid(),
    {
        bloom_set(&mut self.bloom, key);
    }

    /// Empties the filter and the memory tier and resets the counters. The
    /// disk tier is the caller's to clear.
    pub fn clear(&mut self)
        requires
            old(self)@.valid(),
        ensures
            final(self)@ == old(self)@.cleared(),
            final(self)@.valid(),
    {
        lru_clear(&mut self.memory);
        self.bloom = bloom_new(FILTER_BYTES, FILTER_ITEMS);
        self.hits = 0;
        self.misses = 0;
        assert(final(self)@ =~= old(self)@.cleared());
    }

    /// The hit ratio as a fraction: the hits, and the lookups that were
    /// counted. Without a lookup the ratio counts as zero.
    pub fn hit_rate(&self) -> (rate: HitRate)
        requires
            self@.valid(),
        ensures
            rate.hits == self@.hits,
            rate.total == self@.hits + self@.misses,
            rate.hits <= rate.total,
    {
        HitRate { hits: self.hits, total: self.hits + self.misses }
    }
}

} // verus!
