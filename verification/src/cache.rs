//! The bounded cache: storage, lookup, and lowest-generation eviction.

use vstd::prelude::*;

use crate::FontRef;

verus! {

/// Whether some slot of `ids` holds the key value `id`.
pub open spec fn seq_has_id(ids: Seq<nat>, id: nat) -> bool {
    exists|i: int| 0 <= i < ids.len() && ids[i] == id
}

/// The slot of `ids` holding the key value `id`; meaningful only when
/// `seq_has_id(ids, id)` holds. When no two slots hold the same value, that
/// slot is unique (see [`lemma_installed_slot_is_found`]).
pub open spec fn seq_index_of(ids: Seq<nat>, id: nat) -> int {
    choose|i: int| 0 <= i < ids.len() && ids[i] == id
}

/// The running eviction scan over the first `n` slots: starting from slot 0
/// and epoch `base`, a slot displaces the candidate only when its epoch is
/// strictly below the lowest epoch seen so far. Returns the candidate slot
/// and the lowest epoch seen.
pub open spec fn scan_candidate(epochs: Seq<nat>, base: nat, n: int) -> (int, nat)
    decreases n,
{
    if n <= 0 {
        (0, base)
    } else {
        let prev = scan_candidate(epochs, base, n - 1);
        if epochs[n - 1] < prev.1 {
            (n - 1, epochs[n - 1])
        } else {
            prev
        }
    }
}

/// The slot a full cache overwrites on a miss: the first slot whose epoch is
/// strictly below `base` and no greater than any other slot's epoch, or slot
/// 0 when no slot is strictly older than `base`.
pub open spec fn evict_index(epochs: Seq<nat>, base: nat) -> int {
    scan_candidate(epochs, base, epochs.len() as int).0
}

/// One cache slot: the key of the resource it currently caches data for, the
/// cache's generation counter as of the last touch, and the cached artifact.
struct Entry<T> {
    epoch: usize,
    id: usize,
    data: T,
}

/// A fixed-capacity cache from font keys to derived data of type `T`.
///
/// Lookup is a single linear scan. A hit restamps the entry with the current
/// generation; a miss advances the generation, computes the data, and either
/// appends (under capacity) or overwrites the entry with the lowest
/// generation stamp (at capacity).
pub struct FontCache<T> {
    entries: Vec<Entry<T>>,
    max_entries: usize,
    epoch: usize,
}

impl<T> FontCache<T> {
    /// The keys currently cached, in slot order.
    pub closed spec fn ids(&self) -> Seq<nat> {
        Seq::new(self.entries@.len(), |i: int| self.entries@[i].id as nat)
    }

    /// The generation stamp of each slot, in slot order.
    pub closed spec fn epochs(&self) -> Seq<nat> {
        Seq::new(self.entries@.len(), |i: int| self.entries@[i].epoch as nat)
    }

    /// The cached data of each slot, in slot order.
    pub closed spec fn stored(&self) -> Seq<T> {
        Seq::new(self.entries@.len(), |i: int| self.entries@[i].data)
    }

    /// The fixed capacity chosen at construction.
    pub closed spec fn spec_capacity(&self) -> nat {
        self.max_entries as nat
    }

    /// The cache's generation counter: advances by 1 on every miss, never on a hit.
    pub closed spec fn spec_epoch(&self) -> nat {
        self.epoch as nat
    }

    /// Well-formedness: the three slot views run in step, the cache never
    /// holds more entries than its capacity, the capacity is at least 1, no
    /// slot is stamped beyond the current generation, and no two slots cache
    /// the same key.
    pub open spec fn inv(&self) -> bool {
        &&& self.epochs().len() == self.ids().len()
        &&& self.stored().len() == self.ids().len()
        &&& self.ids().len() <= self.spec_capacity()
        &&& 1 <= self.spec_capacity()
        &&& forall|i: int| 0 <= i < self.ids().len() ==> #[trigger] self.epochs()[i] <= self.spec_epoch()
        &&& forall|i: int, j: int|
            0 <= i < j < self.ids().len() ==> #[trigger] self.ids()[i] != #[trigger] self.ids()[j]
    }

    /// Creates an empty cache with the given fixed capacity.
    ///
    /// A capacity of zero would leave a miss with no slot to fill or evict;
    /// such a cache is rejected at construction (see [`FontCache::try_new`]
    /// for the checked form).
    pub fn new(max_entries: usize) -> (r: FontCache<T>)
        requires
            1 <= max_entries,
        ensures
            r.inv(),
            r.ids().len() == 0,
            r.spec_capacity() == max_entries,
            r.spec_epoch() == 0,
    {
        FontCache { entries: Vec::new(), epoch: 0, max_entries }
    }

    /// Creates an empty cache with the given fixed capacity, rejecting a
    /// capacity of zero: returns `Some` exactly when `max_entries >= 1`.
    pub fn try_new(max_entries: usize) -> (r: Option<FontCache<T>>)
        ensures
            r is Some <==> 1 <= max_entries,
            r is Some ==> {
                let c = r->Some_0;
                &&& c.inv()
                &&& c.ids().len() == 0
                &&& c.spec_capacity() == max_entries
                &&& c.spec_epoch() == 0
            },
    {
        if max_entries >= 1 {
            Some(FontCache::new(max_entries))
        } else {
            None
        }
    }

    /// Whether some slot currently caches data for the key value `id`.
    pub open spec fn has_id(&self, id: nat) -> bool {
        seq_has_id(self.ids(), id)
    }

    /// The slot caching data for the key value `id`; meaningful only when
    /// `has_id(id)` holds, in which case the invariant makes the slot unique.
    pub open spec fn index_of(&self, id: nat) -> int {
        seq_index_of(self.ids(), id)
    }

    /// Scans the slots in order for the key of `font`. Returns `(true, i)`
    /// with `i` the matching slot on a hit; on a miss, returns `(false, n)`
    /// with `n` the slot a miss should fill: the length (append) while under
    /// capacity, else the eviction candidate of the scan.
    fn find(&self, font: &FontRef) -> (r: (bool, usize))
        requires
            self.inv(),
        ensures
            r.0 == self.has_id(font.key@),
            r.0 ==> r.1 < self.ids().len() && self.ids()[r.1 as int] == font.key@,
            !r.0 && self.ids().len() < self.spec_capacity() ==> r.1 == self.ids().len(),
            !r.0 && self.ids().len() >= self.spec_capacity() ==> {
                &&& r.1 == evict_index(self.epochs(), self.spec_epoch())
                &&& r.1 < self.ids().len()
            },
    {
        let mut lowest: usize = 0;
        let mut lowest_epoch: usize = self.epoch;
        let id = font.key.value();
        let n = self.entries.len();
        let mut i: usize = 0;
        while i < n
            invariant
                self.inv(),
                n == self.ids().len(),
                0 <= i <= n,
                id == font.key@,
                forall|j: int| 0 <= j < i ==> #[trigger] self.ids()[j] != font.key@,
                lowest as int == scan_candidate(self.epochs(), self.spec_epoch(), i as int).0,
                lowest_epoch as nat == scan_candidate(self.epochs(), self.spec_epoch(), i as int).1,
                n > 0 ==> lowest < n,
                n == 0 ==> lowest == 0,
            decreases n - i,
        {
            let entry = &self.entries[i];
            if entry.id == id {
                proof {
                    assert(self.ids()[i as int] == font.key@);
                }
                return (true, i);
            }
            if entry.epoch < lowest_epoch {
                lowest_epoch = entry.epoch;
                lowest = i;
            }
            i = i + 1;
        }
        if self.entries.len() < self.max_entries {
            (false, self.entries.len())
        } else {
            (false, lowest)
        }
    }

    /// Looks up the data cached for the key of `font`, computing it on a miss.
    ///
    /// On a hit the matching slot is restamped with the current generation,
    /// which does not advance, and the compute function is not invoked. On a
    /// miss the generation advances by 1 and `f` is invoked once; the
    /// computed data is appended while under capacity, and otherwise
    /// overwrites the eviction candidate of the scan. Either way the returned
    /// pair carries the key's value and a reference to the slot now caching
    /// the data, valid until the next call on this cache.
    pub fn get<'a, F: Fn(&FontRef) -> T>(&'a mut self, font: &FontRef, f: F) -> (r: (
        usize,
        &'a T,
    ))
        requires
            old(self).inv(),
            old(self).spec_epoch() < usize::MAX,
            call_requires(f, (font,)),
        ensures
            final(self).inv(),
            final(self).spec_capacity() == old(self).spec_capacity(),
            r.0 as nat == font.key@,
            final(self).has_id(font.key@),
            final(self).stored()[final(self).index_of(font.key@)] == *r.1,
            old(self).has_id(font.key@) ==> ({
                let i = old(self).index_of(font.key@);
                &&& final(self).spec_epoch() == old(self).spec_epoch()
                &&& final(self).ids() == old(self).ids()
                &&& final(self).stored() == old(self).stored()
                &&& final(self).epochs() == old(self).epochs().update(i, old(self).spec_epoch())
                &&& *r.1 == old(self).stored()[i]
            }),
            !old(self).has_id(font.key@) ==> ({
                &&& final(self).spec_epoch() == old(self).spec_epoch() + 1
                &&& call_ensures(f, (font,), *r.1)
                &&& if old(self).ids().len() < old(self).spec_capacity() {
                    &&& final(self).ids() == old(self).ids().push(font.key@)
                    &&& final(self).epochs() == old(self).epochs().push(
                        (old(self).spec_epoch() + 1) as nat,
                    )
                    &&& final(self).stored() == old(self).stored().push(*r.1)
                } else {
                    let v = evict_index(old(self).epochs(), old(self).spec_epoch());
                    &&& final(self).ids() == old(self).ids().update(v, font.key@)
                    &&& final(self).epochs() == old(self).epochs().update(
                        v,
                        (old(self).spec_epoch() + 1) as nat,
                    )
                    &&& final(self).stored() == old(self).stored().update(v, *r.1)
                }
            }),
    {
        let id = font.key.value();
        let (found, index) = self.find(font);
        if found {
            let ep = self.epoch;
            let entry = &mut self.entries[index];
            entry.epoch = ep;
            proof {
                let k = font.key@;
                assert(old(self).ids()[index as int] == k);
                let i0 = old(self).index_of(k);
                assert(0 <= i0 < old(self).ids().len() && old(self).ids()[i0] == k);
                assert(i0 == index);
                assert(self.ids() =~= old(self).ids());
                assert(self.stored() =~= old(self).stored());
                assert(self.epochs() =~= old(self).epochs().update(
                    index as int,
                    old(self).spec_epoch(),
                ));
                lemma_installed_slot_is_found(
                    self.ids(),
                    self.stored(),
                    k,
                    self.entries@[index as int].data,
                    index as int,
                );
            }
            (id, &self.entries[index].data)
        } else {
            self.epoch = self.epoch + 1;
            let data = f(font);
            let ep = self.epoch;
            if self.entries.len() < self.max_entries {
                self.entries.push(Entry { epoch: ep, id, data });
                let last = self.entries.len() - 1;
                proof {
                    assert(self.ids() =~= old(self).ids().push(font.key@));
                    assert(self.epochs() =~= old(self).epochs().push(
                        (old(self).spec_epoch() + 1) as nat,
                    ));
                    assert(self.stored() =~= old(self).stored().push(self.entries@[last as int].data));
                    let k = font.key@;
                    assert(forall|j: int|
                        0 <= j < old(self).ids().len() ==> #[trigger] old(self).ids()[j] != k);
                    lemma_installed_slot_is_found(
                        self.ids(),
                        self.stored(),
                        k,
                        self.entries@[last as int].data,
                        last as int,
                    );
                }
                (id, &self.entries[last].data)
            } else {
                let entry = &mut self.entries[index];
                entry.epoch = ep;
                entry.id = id;
                entry.data = data;
                proof {
                    assert(self.ids() =~= old(self).ids().update(index as int, font.key@));
                    assert(self.epochs() =~= old(self).epochs().update(
                        index as int,
                        (old(self).spec_epoch() + 1) as nat,
                    ));
                    assert(self.stored() =~= old(self).stored().update(
                        index as int,
                        self.entries@[index as int].data,
                    ));
                    let k = font.key@;
                    assert(forall|j: int|
                        0 <= j < old(self).ids().len() ==> #[trigger] old(self).ids()[j] != k);
                    lemma_installed_slot_is_found(
                        self.ids(),
                        self.stored(),
                        k,
                        self.entries@[index as int].data,
                        index as int,
                    );
                }
                (id, &self.entries[index].data)
            }
        }
    }

    /// The number of entries currently held.
    pub fn len(&self) -> (r: usize)
        ensures
            r == self.ids().len(),
    {
        self.entries.len()
    }

    /// The fixed capacity chosen at construction.
    pub fn capacity(&self) -> (r: usize)
        ensures
            r == self.spec_capacity(),
    {
        self.max_entries
    }

    /// The current value of the generation counter.
    pub fn epoch(&self) -> (r: usize)
        ensures
            r == self.spec_epoch(),
    {
        self.epoch
    }
}

/// Capacity bound: a well-formed cache never holds more entries than its
/// fixed capacity, however many distinct keys have been inserted.
pub proof fn lemma_capacity_bound<T>(c: &FontCache<T>)
    requires
        c.inv(),
    ensures
        c.ids().len() <= c.spec_capacity(),
{
}

/// Hit returns identity: if slot `i` caches key `k` with data `d`, and no two
/// slots cache the same key, then a lookup of `k` selects exactly slot `i`,
/// so a hit on a key returns the data that was installed for it.
pub proof fn lemma_installed_slot_is_found<T>(ids: Seq<nat>, stored: Seq<T>, k: nat, d: T, i: int)
    requires
        forall|p: int, q: int| 0 <= p < q < ids.len() ==> #[trigger] ids[p] != #[trigger] ids[q],
        stored.len() == ids.len(),
        0 <= i < ids.len(),
        ids[i] == k,
        stored[i] == d,
    ensures
        seq_has_id(ids, k),
        seq_index_of(ids, k) == i,
        stored[seq_index_of(ids, k)] == d,
{
    assert(seq_has_id(ids, k));
    let c = seq_index_of(ids, k);
    assert(0 <= c < ids.len() && ids[c] == k);
    if c < i {
        assert(ids[c] != ids[i]);
    } else if i < c {
        assert(ids[i] != ids[c]);
    }
}

/// Properties of the running eviction scan over the first `n` slots: the
/// lowest epoch seen never exceeds the baseline nor any scanned slot, and
/// when it is strictly below the baseline the candidate is the first slot
/// attaining it; otherwise the candidate has stayed at slot 0.
proof fn lemma_scan_candidate_props(epochs: Seq<nat>, base: nat, n: int)
    requires
        0 <= n <= epochs.len(),
    ensures
        ({
            let c = scan_candidate(epochs, base, n);
            &&& 0 <= c.0
            &&& c.0 < n || c.0 == 0
            &&& c.1 <= base
            &&& forall|j: int| 0 <= j < n ==> c.1 <= #[trigger] epochs[j]
            &&& c.1 < base ==> c.0 < n && epochs[c.0] == c.1 && (forall|j: int|
                0 <= j < c.0 ==> #[trigger] epochs[j] > c.1)
            &&& c.1 == base ==> c.0 == 0
        }),
    decreases n,
{
    if n > 0 {
        lemma_scan_candidate_props(epochs, base, n - 1);
    }
}

/// Eviction correctness: on a miss with the cache full, the victim slot is
/// the first slot whose generation stamp is strictly below the current
/// generation and no greater than any other slot's stamp; when no slot is
/// strictly older than the current generation, the victim defaults to slot 0.
pub proof fn lemma_evict_index_characterization(epochs: Seq<nat>, base: nat)
    ensures
        ({
            let v = evict_index(epochs, base);
            &&& 0 <= v
            &&& epochs.len() > 0 ==> v < epochs.len()
            &&& (exists|i: int| 0 <= i < epochs.len() && epochs[i] < base) ==> {
                &&& epochs[v] < base
                &&& forall|j: int| 0 <= j < epochs.len() ==> epochs[v] <= #[trigger] epochs[j]
                &&& forall|j: int| 0 <= j < v ==> #[trigger] epochs[j] > epochs[v]
            }
            &&& (forall|i: int| 0 <= i < epochs.len() ==> base <= #[trigger] epochs[i]) ==> v == 0
        }),
{
    let n = epochs.len() as int;
    lemma_scan_candidate_props(epochs, base, n);
    let c = scan_candidate(epochs, base, n);
    if exists|i: int| 0 <= i < epochs.len() && epochs[i] < base {
        let i = choose|i: int| 0 <= i < epochs.len() && epochs[i] < base;
        assert(c.1 <= epochs[i]);
    }
}

} // verus!
