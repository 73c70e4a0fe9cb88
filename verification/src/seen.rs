//! Duplicate suppression: the seen-packet caches and the FNV-1a hash.
//!
//! Flood routing re-broadcasts every packet, so each node remembers what it
//! has already handled. A cache keeps the [`SEEN_CAPACITY`] most recently
//! *heard* dedup keys and evicts the stalest when full. Eviction is by last
//! hearing, not by first: hearing a remembered key again makes it the newest,
//! so a frame that stays on air does not age out and get delivered twice.
//!
//! Two caches share one behaviour, [`heard`](crate::seen::heard):
//!
//! * [`SeenCache`], backed by a linked hash set, for hosted targets;
//! * [`Ring`], a fixed array with linear scan, for targets without an
//!   allocator.

use hashlink::LinkedHashSet;
use vstd::prelude::*;

verus! {

/// Number of dedup keys remembered before the stalest is evicted.
pub const SEEN_CAPACITY: usize = 512;

/// The FNV-1a 64-bit offset basis.
pub const FNV_OFFSET_BASIS: u64 = 0xcbf2_9ce4_8422_2325;

/// The FNV-1a 64-bit prime.
pub const FNV_PRIME: u64 = 0x0000_0100_0000_01b3;

/// One step of FNV-1a: xor the byte in, then multiply modulo 2^64.
pub open spec fn fnv_step(hash: u64, byte: u8) -> u64 {
    (((hash ^ (byte as u64)) as nat * FNV_PRIME as nat) % 0x1_0000_0000_0000_0000) as u64
}

/// FNV-1a over `bytes`, continued from the state `hash`.
pub open spec fn fnv_from(hash: u64, bytes: Seq<u8>) -> u64
    decreases bytes.len(),
{
    if bytes.len() == 0 {
        hash
    } else {
        fnv_step(fnv_from(hash, bytes.drop_last()), bytes.last())
    }
}

/// The FNV-1a 64-bit hash of `bytes`.
pub open spec fn fnv(bytes: Seq<u8>) -> u64 {
    fnv_from(FNV_OFFSET_BASIS, bytes)
}

/// Law: FNV-1a is a streaming hash. Folding two pieces in one after the other
/// gives the hash of their concatenation.
pub proof fn fnv_streams(hash: u64, first: Seq<u8>, second: Seq<u8>)
    ensures
        fnv_from(fnv_from(hash, first), second) == fnv_from(hash, first + second),
    decreases second.len(),
{
    if second.len() == 0 {
        assert(first + second =~= first);
    } else {
        fnv_streams(hash, first, second.drop_last());
        assert((first + second).drop_last() =~= first + second.drop_last());
    }
}

/// Continues the 64-bit FNV-1a hash `hash` over `bytes`.
pub fn fnv64_update(hash: u64, bytes: &[u8]) -> (r: u64)
    ensures
        r == fnv_from(hash, bytes@),
{
    let mut state: u64 = hash;
    let mut i: usize = 0;
    while i < bytes.len()
        invariant
            i <= bytes@.len(),
            state == fnv_from(hash, bytes@.take(i as int)),
        decreases bytes@.len() - i,
    {
        assert(bytes@.take(i + 1).drop_last() =~= bytes@.take(i as int));
        state = (state ^ (bytes[i] as u64)).wrapping_mul(FNV_PRIME);
        i += 1;
    }
    assert(bytes@.take(i as int) =~= bytes@);
    state
}

/// Computes the 64-bit FNV-1a hash of `bytes`.
///
/// Used for packet dedup keys and for deriving wire ids from node names.
/// Stable across platforms: changing it would break on-air interop.
pub fn fnv64(bytes: &[u8]) -> (r: u64)
    ensures
        r == fnv(bytes@),
{
    fnv64_update(FNV_OFFSET_BASIS, bytes)
}

/// What a cache that remembers `keys`, stalest first, remembers after hearing
/// `key`.
///
/// A remembered key moves to the newest end. A new key is appended, and the
/// stalest key leaves if the cache was already at capacity.
pub open spec fn heard(keys: Seq<u64>, key: u64) -> Seq<u64> {
    if keys.contains(key) {
        keys.remove_value(key).push(key)
    } else if keys.len() >= SEEN_CAPACITY {
        keys.drop_first().push(key)
    } else {
        keys.push(key)
    }
}

/// What every cache keeps: no key twice, and never more than
/// [`SEEN_CAPACITY`] of them.
pub open spec fn remembers_well(keys: Seq<u64>) -> bool {
    &&& keys.no_duplicates()
    &&& keys.len() <= SEEN_CAPACITY
}

/// Law: hearing a key keeps the cache free of duplicates and within capacity,
/// and leaves the key just heard as the newest.
pub proof fn hearing_keeps_the_cache_well(keys: Seq<u64>, key: u64)
    requires
        remembers_well(keys),
    ensures
        remembers_well(heard(keys, key)),
        heard(keys, key).last() == key,
        heard(keys, key).contains(key),
{
    keys.index_of_first_ensures(key);
    assert(heard(keys, key)[heard(keys, key).len() - 1] == key);
}

/// Law: a full cache that hears a new key forgets the stalest key and no
/// other.
pub proof fn a_new_key_evicts_only_the_stalest(keys: Seq<u64>, key: u64, other: u64)
    requires
        remembers_well(keys),
        keys.len() == SEEN_CAPACITY,
        !keys.contains(key),
    ensures
        !heard(keys, key).contains(keys[0]),
        keys.contains(other) && other != keys[0] ==> heard(keys, key).contains(other),
{
    let after = heard(keys, key);
    if after.contains(keys[0]) {
        let i = choose|i: int| 0 <= i < after.len() && after[i] == keys[0];
        if i < after.len() - 1 {
            assert(keys[i + 1] == keys[0]);
        } else {
            assert(keys.contains(keys[0]));
        }
    }
    if keys.contains(other) && other != keys[0] {
        let i = choose|i: int| 0 <= i < keys.len() && keys[i] == other;
        assert(after[i - 1] == other);
    }
}

/// The distinct keys of a hearing history, in the order of their last
/// hearing.
pub open spec fn by_last_hearing(history: Seq<u64>) -> Seq<u64>
    decreases history.len(),
{
    if history.len() == 0 {
        Seq::empty()
    } else {
        by_last_hearing(history.drop_last()).remove_value(history.last()).push(history.last())
    }
}

/// What an initially empty cache remembers after a hearing history.
pub open spec fn remembered(history: Seq<u64>) -> Seq<u64>
    decreases history.len(),
{
    if history.len() == 0 {
        Seq::empty()
    } else {
        heard(remembered(history.drop_last()), history.last())
    }
}

proof fn lemma_by_last_hearing_distinct(history: Seq<u64>)
    ensures
        by_last_hearing(history).no_duplicates(),
    decreases history.len(),
{
    if history.len() > 0 {
        let before = by_last_hearing(history.drop_last());
        lemma_by_last_hearing_distinct(history.drop_last());
        before.index_of_first_ensures(history.last());
    }
}

/// Law: after any history the cache holds exactly the [`SEEN_CAPACITY`] most
/// recently heard distinct keys (all of them, while they are fewer), stalest
/// first.
pub proof fn the_most_recently_heard_are_remembered(history: Seq<u64>)
    ensures
        remembers_well(remembered(history)),
        by_last_hearing(history).len() <= SEEN_CAPACITY ==> remembered(history)
            == by_last_hearing(history),
        by_last_hearing(history).len() > SEEN_CAPACITY ==> remembered(history)
            == by_last_hearing(history).skip(by_last_hearing(history).len() - SEEN_CAPACITY),
    decreases history.len(),
{
    if history.len() > 0 {
        let prior = history.drop_last();
        let key = history.last();
        the_most_recently_heard_are_remembered(prior);
        lemma_by_last_hearing_distinct(prior);
        let all = by_last_hearing(prior);
        let kept = remembered(prior);
        hearing_keeps_the_cache_well(kept, key);
        all.index_of_first_ensures(key);
        kept.index_of_first_ensures(key);
        let dropped = all.len() - kept.len();
        assert(kept =~= all.skip(dropped));
        if kept.contains(key) {
            let i = kept.index_of_first(key).unwrap();
            assert(all[dropped + i] == key);
            assert(all.index_of_first(key) == Some(dropped + i));
            assert(heard(kept, key) =~= by_last_hearing(history).skip(dropped));
        } else if all.contains(key) {
            let i = all.index_of_first(key).unwrap();
            if i >= dropped {
                assert(kept[i - dropped] == key);
            }
            assert(heard(kept, key) =~= by_last_hearing(history).skip(dropped));
        } else if dropped > 0 {
            assert(heard(kept, key) =~= by_last_hearing(history).skip(dropped + 1));
        } else if kept.len() == SEEN_CAPACITY {
            assert(heard(kept, key) =~= by_last_hearing(history).skip(1));
        } else {
            assert(heard(kept, key) =~= by_last_hearing(history));
        }
    }
}

/// What a cache that remembers `keys` remembers after hearing `later`, in
/// order.
pub open spec fn heard_all(keys: Seq<u64>, later: Seq<u64>) -> Seq<u64>
    decreases later.len(),
{
    if later.len() == 0 {
        keys
    } else {
        heard(heard_all(keys, later.drop_last()), later.last())
    }
}

/// `key` is remembered, and every key newer than it was heard in `later`.
spec fn newer_keys_are_later(keys: Seq<u64>, key: u64, later: Seq<u64>) -> bool {
    exists|at: int|
        0 <= at < keys.len() && #[trigger] keys[at] == key && forall|i: int|
            at < i < keys.len() ==> later.contains(#[trigger] keys[i])
}

proof fn lemma_newer_keys_are_later(keys: Seq<u64>, key: u64, later: Seq<u64>)
    requires
        remembers_well(keys),
        later.to_set().remove(key).len() < SEEN_CAPACITY,
    ensures
        remembers_well(heard_all(heard(keys, key), later)),
        newer_keys_are_later(heard_all(heard(keys, key), later), key, later),
    decreases later.len(),
{
    hearing_keeps_the_cache_well(keys, key);
    if later.len() == 0 {
        let now = heard(keys, key);
        assert(now[now.len() - 1] == key);
    } else {
        let x = later.last();
        let earlier = later.drop_last();
        assert(later =~= earlier.push(x));
        assert(earlier.to_set().remove(key).subset_of(later.to_set().remove(key))) by {
            assert forall|k: u64| earlier.to_set().contains(k) implies later.to_set().contains(
                k,
            ) by {
                let i = choose|i: int| 0 <= i < earlier.len() && earlier[i] == k;
                assert(later[i] == k);
            }
        }
        vstd::set_lib::lemma_len_subset(
            earlier.to_set().remove(key),
            later.to_set().remove(key),
        );
        lemma_newer_keys_are_later(keys, key, earlier);
        let before = heard_all(heard(keys, key), earlier);
        let after = heard(before, x);
        hearing_keeps_the_cache_well(before, x);
        let at = choose|at: int|
            0 <= at < before.len() && #[trigger] before[at] == key && forall|i: int|
                at < i < before.len() ==> earlier.contains(#[trigger] before[i]);
        before.index_of_first_ensures(x);
        assert forall|k: u64| earlier.contains(k) implies later.contains(k) by {
            let i = choose|i: int| 0 <= i < earlier.len() && earlier[i] == k;
            assert(later[i] == k);
        }
        assert(later[later.len() - 1] == x);
        if x == key {
            assert(after[after.len() - 1] == key);
        } else if before.contains(x) {
            let gone = before.index_of_first(x)->0;
            let now = if gone < at {
                at - 1
            } else {
                at
            };
            assert(after[now] == key);
            assert forall|i: int| now < i < after.len() implies later.contains(
                #[trigger] after[i],
            ) by {
                if i < after.len() - 1 {
                    let j = if i < gone {
                        i
                    } else {
                        i + 1
                    };
                    assert(after[i] == before[j]);
                    assert(earlier.contains(before[j]));
                }
            }
        } else if before.len() < SEEN_CAPACITY {
            assert(after[at] == key);
            assert forall|i: int| at < i < after.len() implies later.contains(
                #[trigger] after[i],
            ) by {
                if i < after.len() - 1 {
                    assert(after[i] == before[i]);
                }
            }
        } else {
            // The stalest key leaves. It is not `key`: all keys newer than it
            // and `x` would be later ones, and there are too few of those.
            if at == 0 {
                let others = before.drop_first().push(x);
                assert(others.no_duplicates());
                assert forall|k: u64| others.to_set().contains(k) implies later.to_set().remove(
                    key,
                ).contains(k) by {
                    let i = choose|i: int| 0 <= i < others.len() && others[i] == k;
                    if i < others.len() - 1 {
                        assert(k == before[i + 1]);
                        assert(earlier.contains(before[i + 1]));
                    }
                }
                vstd::set_lib::lemma_len_subset(others.to_set(), later.to_set().remove(key));
                others.unique_seq_to_set();
            }
            assert(after[at - 1] == key);
            assert forall|i: int| at - 1 < i < after.len() implies later.contains(
                #[trigger] after[i],
            ) by {
                if i < after.len() - 1 {
                    assert(after[i] == before[i + 1]);
                }
            }
        }
    }
}

/// Law: a key stays remembered while fewer than [`SEEN_CAPACITY`] other keys
/// are heard, however often each of them is heard.
pub proof fn a_key_outlasts_fewer_other_keys(keys: Seq<u64>, key: u64, later: Seq<u64>)
    requires
        remembers_well(keys),
        later.to_set().remove(key).len() < SEEN_CAPACITY,
    ensures
        heard_all(heard(keys, key), later).contains(key),
{
    lemma_newer_keys_are_later(keys, key, later);
}

/// The insertion-ordered hash set of `hashlink`, as an opaque type.
#[verifier::external_type_specification]
#[verifier::external_body]
#[verifier::reject_recursive_types(T)]
#[verifier::reject_recursive_types(S)]
pub struct ExLinkedHashSet<T, S>(hashlink::LinkedHashSet<T, S>);

/// The default hasher of `hashlink` collections, as an opaque type.
#[verifier::external_type_specification]
#[verifier::external_body]
pub struct ExDefaultHashBuilder(hashlink::DefaultHashBuilder);

/// The keys of a linked hash set, from the front of its list to the back.
pub uninterp spec fn linked_keys(set: LinkedHashSet<u64>) -> Seq<u64>;

/// `LinkedHashSet::with_capacity`: claims that the set starts out empty.
#[verifier::external_body]
fn linked_with_capacity(capacity: usize) -> (set: LinkedHashSet<u64>)
    requires
        capacity <= SEEN_CAPACITY,
    ensures
        linked_keys(set) == Seq::<u64>::empty(),
{
    LinkedHashSet::with_capacity(capacity)
}

/// `LinkedHashSet::insert`: claims that a key not yet present is appended at
/// the back and `true` returned, and that a present key is moved to the back
/// and `false` returned.
#[verifier::external_body]
fn linked_insert(set: &mut LinkedHashSet<u64>, key: u64) -> (added: bool)
    ensures
        added == !linked_keys(*old(set)).contains(key),
        linked_keys(*final(set)) == linked_keys(*old(set)).remove_value(key).push(key),
{
    set.insert(key)
}

/// `LinkedHashSet::pop_front`: claims that the key at the front, if there is
/// one, is taken out and returned, and that the others keep their order.
#[verifier::external_body]
fn linked_pop_front(set: &mut LinkedHashSet<u64>) -> (front: Option<u64>)
    ensures
        linked_keys(*old(set)).len() == 0 ==> front is None && linked_keys(*final(set))
            == linked_keys(*old(set)),
        linked_keys(*old(set)).len() > 0 ==> front == Some(linked_keys(*old(set)).first())
            && linked_keys(*final(set)) == linked_keys(*old(set)).drop_first(),
{
    set.pop_front()
}

/// `LinkedHashSet::contains`: claims that the result says whether the key is
/// among the set's keys.
#[verifier::external_body]
fn linked_contains(set: &LinkedHashSet<u64>, key: u64) -> (present: bool)
    ensures
        present == linked_keys(*set).contains(key),
{
    set.contains(&key)
}

/// `LinkedHashSet::len`: claims that the result is the number of keys.
#[verifier::external_body]
fn linked_len(set: &LinkedHashSet<u64>) -> (len: usize)
    ensures
        len == linked_keys(*set).len(),
{
    set.len()
}

/// Bounded cache of the most recently heard packet dedup keys.
///
/// Its view is the remembered keys, stalest first.
#[derive(Debug)]
pub struct SeenCache {
    inner: LinkedHashSet<u64>,
}

impl View for SeenCache {
    type V = Seq<u64>;

    closed spec fn view(&self) -> Seq<u64> {
        linked_keys(self.inner)
    }
}

impl SeenCache {
    /// No key is remembered twice, and never more than [`SEEN_CAPACITY`].
    #[verifier::type_invariant]
    pub open spec fn is_well_formed(self) -> bool {
        remembers_well(self@)
    }

    /// Creates an empty cache with capacity [`SEEN_CAPACITY`].
    #[must_use]
    pub fn new() -> (cache: Self)
        ensures
            cache@ == Seq::<u64>::empty(),
            remembers_well(cache@),
    {
        Self { inner: linked_with_capacity(SEEN_CAPACITY) }
    }

    /// Records `key`, returning `true` if it was not already present.
    ///
    /// Recording a key that is already present refreshes it to newest. When
    /// the cache is at capacity, recording a new key evicts the stalest one.
    pub fn insert(&mut self, key: u64) -> (new: bool)
        ensures
            new == !old(self)@.contains(key),
            final(self)@ == heard(old(self)@, key),
            remembers_well(old(self)@),
            remembers_well(final(self)@),
    {
        proof {
            use_type_invariant(&*self);
            self@.index_of_first_ensures(key);
            hearing_keeps_the_cache_well(self@, key);
        }
        // The set holds one key too many for a moment, so it is taken out.
        let mut inner = linked_with_capacity(0);
        core::mem::swap(&mut self.inner, &mut inner);
        let new = linked_insert(&mut inner, key);
        if new && linked_len(&inner) > SEEN_CAPACITY {
            let _stalest = linked_pop_front(&mut inner);
            assert(old(self)@.push(key).drop_first() =~= heard(old(self)@, key));
        }
        assert(linked_keys(inner) == heard(old(self)@, key));
        self.inner = inner;
        new
    }

    /// Returns `true` if `key` is currently remembered.
    #[must_use]
    pub fn contains(&self, key: u64) -> (present: bool)
        ensures
            present == self@.contains(key),
    {
        linked_contains(&self.inner, key)
    }

    /// Returns the number of keys currently remembered.
    #[must_use]
    pub fn len(&self) -> (len: usize)
        ensures
            len == self@.len(),
            len <= SEEN_CAPACITY,
    {
        proof {
            use_type_invariant(self);
        }
        linked_len(&self.inner)
    }

    /// Returns `true` if no keys are remembered.
    #[must_use]
    pub fn is_empty(&self) -> (empty: bool)
        ensures
            empty == (self@.len() == 0),
    {
        self.len() == 0
    }
}

impl Default for SeenCache {
    fn default() -> (cache: Self)
        ensures
            cache@ == Seq::<u64>::empty(),
    {
        Self::new()
    }
}

/// The physical index of the ring slot `k` places after `head`.
spec fn slot_after(head: int, k: int) -> int {
    if head + k < SEEN_CAPACITY {
        head + k
    } else {
        head + k - SEEN_CAPACITY
    }
}

/// The keys of a ring with these slots, `len` of them from `head` on.
spec fn ring_keys(slots: Seq<u64>, len: int, head: int) -> Seq<u64> {
    Seq::new(len as nat, |k: int| slots[slot_after(head, k)])
}

/// Fixed-size ring cache for targets without an allocator: linear-scan
/// membership, sequential fill, then overwrite-stalest once full.
///
/// Behaves as [`SeenCache`] does; its view is the remembered keys, stalest
/// first.
#[derive(Debug)]
pub struct Ring {
    slots: [u64; SEEN_CAPACITY],
    /// Number of filled slots, saturating at `SEEN_CAPACITY`.
    len: usize,
    /// Physical index of logical position 0 (the stalest key). Stays 0 during
    /// the fill phase; advances once the ring is full.
    head: usize,
}

impl View for Ring {
    type V = Seq<u64>;

    closed spec fn view(&self) -> Seq<u64> {
        ring_keys(self.slots@, self.len as int, self.head as int)
    }
}

impl Ring {
    /// The indices are in bounds, the ring is filled before it turns, and no
    /// key is remembered twice.
    #[verifier::type_invariant]
    spec fn is_well_formed(self) -> bool {
        &&& self.in_bounds()
        &&& remembers_well(self@)
    }

    spec fn in_bounds(self) -> bool {
        &&& self.len <= SEEN_CAPACITY
        &&& self.head < SEEN_CAPACITY
        &&& self.len < SEEN_CAPACITY ==> self.head == 0
    }

    /// Creates an empty ring.
    #[must_use]
    pub fn new() -> (ring: Self)
        ensures
            ring@ == Seq::<u64>::empty(),
            remembers_well(ring@),
    {
        let slots = [0u64; SEEN_CAPACITY];
        assert(ring_keys(slots@, 0, 0) =~= Seq::<u64>::empty());
        Self { slots, len: 0, head: 0 }
    }

    /// Maps a logical position (0 is the stalest, `len - 1` the newest) to its
    /// physical slot index.
    fn phys(&self, logical: usize) -> (slot: usize)
        requires
            logical < SEEN_CAPACITY,
        ensures
            slot == slot_after(self.head as int, logical as int),
            slot < SEEN_CAPACITY,
    {
        proof {
            use_type_invariant(self);
        }
        (self.head + logical) % SEEN_CAPACITY
    }

    /// Returns `true` if `key` is currently remembered.
    #[must_use]
    pub fn contains(&self, key: u64) -> (present: bool)
        ensures
            present == self@.contains(key),
    {
        proof {
            use_type_invariant(self);
        }
        let mut i: usize = 0;
        while i < self.len
            invariant
                self.in_bounds(),
                i <= self.len,
                forall|j: int| 0 <= j < i ==> self.slots@[j] != key,
            decreases self.len - i,
        {
            if self.slots[i] == key {
                proof {
                    let k = if i >= self.head {
                        i - self.head
                    } else {
                        i + SEEN_CAPACITY - self.head
                    };
                    assert(self@[k] == key);
                }
                return true;
            }
            i += 1;
        }
        assert forall|k: int| 0 <= k < self@.len() implies self@[k] != key by {
            assert(self.slots@[slot_after(self.head as int, k)] != key);
        }
        false
    }

    /// Records `key`, returning `true` if it was not already present.
    ///
    /// Recording a key that is already present refreshes it to newest. When
    /// the ring is full, recording a new key overwrites the stalest one.
    pub fn insert(&mut self, key: u64) -> (new: bool)
        ensures
            new == !old(self)@.contains(key),
            final(self)@ == heard(old(self)@, key),
            remembers_well(old(self)@),
            remembers_well(final(self)@),
    {
        proof {
            use_type_invariant(&*self);
            hearing_keeps_the_cache_well(self@, key);
        }
        let ghost before = self@;
        let mut found: usize = 0;
        while found < self.len
            invariant
                self.in_bounds(),
                before == self@,
                *self == *old(self),
                remembers_well(before),
                remembers_well(heard(before, key)),
                found <= self.len,
                forall|k: int| 0 <= k < found ==> before[k] != key,
            decreases self.len - found,
        {
            if self.slots[self.phys(found)] == key {
                proof {
                    assert(before[found as int] == key);
                    before.index_of_first_ensures(key);
                }
                self.refresh(found);
                return false;
            }
            found += 1;
        }
        let mut slots = self.slots;
        let mut len: usize = self.len;
        let mut head: usize = self.head;
        if len < SEEN_CAPACITY {
            slots[len] = key;
            len = len + 1;
            assert(ring_keys(slots@, len as int, head as int) =~= before.push(key));
        } else {
            slots[head] = key;
            head = (head + 1) % SEEN_CAPACITY;
            assert(ring_keys(slots@, len as int, head as int) =~= before.drop_first().push(key));
        }
        *self = Self { slots, len, head };
        true
    }

    /// Moves the key at logical position `found` to the newest position,
    /// shifting everything newer down by one.
    fn refresh(&mut self, found: usize)
        requires
            found < old(self)@.len(),
        ensures
            final(self)@ == old(self)@.remove(found as int).push(old(self)@[found as int]),
    {
        proof {
            use_type_invariant(&*self);
        }
        let ghost before = self@;
        let ghost len = self.len as int;
        let ghost head = self.head as int;
        let key: u64 = self.slots[self.phys(found)];
        let newest: usize = self.len - 1;
        // Keys stand twice while they move, so they move in a copy.
        let mut slots = self.slots;
        let mut k: usize = found;
        while k < newest
            invariant
                self.in_bounds(),
                len == self.len == before.len(),
                head == self.head,
                found <= k <= newest == len - 1,
                forall|j: int| 0 <= j < found ==> ring_keys(slots@, len, head)[j] == before[j],
                forall|j: int| found <= j < k ==> ring_keys(slots@, len, head)[j] == before[j + 1],
                forall|j: int| k <= j < len ==> ring_keys(slots@, len, head)[j] == before[j],
            decreases newest - k,
        {
            let to: usize = self.phys(k);
            let from: usize = self.phys(k + 1);
            let moved: u64 = slots[from];
            let ghost earlier = ring_keys(slots@, len, head);
            slots[to] = moved;
            assert(ring_keys(slots@, len, head) =~= earlier.update(k as int, moved));
            assert(earlier[k + 1] == moved);
            k += 1;
        }
        let to: usize = self.phys(newest);
        let ghost earlier = ring_keys(slots@, len, head);
        slots[to] = key;
        proof {
            assert(ring_keys(slots@, len, head) =~= earlier.update(newest as int, key));
            assert(ring_keys(slots@, len, head) =~= before.remove(found as int).push(key));
            assert(before[found as int] == key);
            before.index_of_first_ensures(key);
            assert(before.index_of_first(key) == Some(found as int));
            hearing_keeps_the_cache_well(before, key);
        }
        self.slots = slots;
    }

    /// Returns the number of keys currently remembered.
    #[must_use]
    pub fn len(&self) -> (len: usize)
        ensures
            len == self@.len(),
            len <= SEEN_CAPACITY,
    {
        proof {
            use_type_invariant(self);
        }
        self.len
    }

    /// Returns `true` if no keys are remembered.
    #[must_use]
    pub fn is_empty(&self) -> (empty: bool)
        ensures
            empty == (self@.len() == 0),
    {
        self.len == 0
    }
}

impl Default for Ring {
    fn default() -> (ring: Self)
        ensures
            ring@ == Seq::<u64>::empty(),
    {
        Self::new()
    }
}

/// Law: the two caches cannot be told apart. From equal contents, hearing a
/// key gives equal answers and equal contents again.
pub proof fn the_two_caches_agree(cache: SeenCache, ring: Ring, key: u64)
    requires
        cache@ == ring@,
    ensures
        cache@.contains(key) == ring@.contains(key),
        heard(cache@, key) == heard(ring@, key),
{
}

/// Law: hearing a key forgets no other key, but for the stalest one where a
/// full cache hears a new key, and it brings nothing in but the key.
pub proof fn hearing_forgets_no_other_key(keys: Seq<u64>, key: u64, other: u64)
    requires
        remembers_well(keys),
    ensures
        keys.contains(other) ==> heard(keys, key).contains(other) || (keys.len() == SEEN_CAPACITY
            && !keys.contains(key) && other == keys[0]),
        heard(keys, key).contains(other) ==> keys.contains(other) || other == key,
{
    let after = heard(keys, key);
    keys.index_of_first_ensures(key);
    if keys.contains(other) && other != key {
        let i = choose|i: int| 0 <= i < keys.len() && keys[i] == other;
        if keys.contains(key) {
            let gone = keys.index_of_first(key)->0;
            assert(after[if i < gone { i } else { i - 1 }] == other);
        } else if keys.len() >= SEEN_CAPACITY {
            if i > 0 {
                assert(after[i - 1] == other);
            }
        } else {
            assert(after[i] == other);
        }
    }
    if other == key {
        assert(after[after.len() - 1] == key);
    }
    if after.contains(other) && other != key {
        let i = choose|i: int| 0 <= i < after.len() && after[i] == other;
        if keys.contains(key) {
            let gone = keys.index_of_first(key)->0;
            assert(keys[if i < gone { i } else { i + 1 }] == other);
        } else if keys.len() >= SEEN_CAPACITY {
            assert(keys[i + 1] == other);
        } else {
            assert(keys[i] == other);
        }
    }
}

/// Law: hearing a key leaves the order of the others as it was.
pub proof fn hearing_keeps_the_order(keys: Seq<u64>, key: u64, i: int, j: int)
    requires
        remembers_well(keys),
        0 <= i < j < keys.len(),
        keys[i] != key,
        keys[j] != key,
        heard(keys, key).contains(keys[i]),
    ensures
        exists|a: int, b: int|
            0 <= a < b < heard(keys, key).len() - 1 && #[trigger] heard(keys, key)[a] == keys[i]
                && #[trigger] heard(keys, key)[b] == keys[j],
{
    let after = heard(keys, key);
    keys.index_of_first_ensures(key);
    let (a, b) = if keys.contains(key) {
        let gone = keys.index_of_first(key)->0;
        (if i < gone { i } else { i - 1 }, if j < gone { j } else { j - 1 })
    } else if keys.len() >= SEEN_CAPACITY {
        if i == 0 {
            let k = choose|k: int| 0 <= k < after.len() && after[k] == keys[0];
            assert(k < after.len() - 1);
            assert(keys[k + 1] == keys[0]);
        }
        (i - 1, j - 1)
    } else {
        (i, j)
    };
    assert(after[a] == keys[i]);
    assert(after[b] == keys[j]);
}

/// Law: the hash of nothing is the offset basis, and each further byte is
/// xored in before a multiplication by the prime modulo 2^64.
pub proof fn fnv_goes_byte_by_byte(bytes: Seq<u8>, byte: u8)
    ensures
        fnv(Seq::empty()) == 0xcbf2_9ce4_8422_2325,
        fnv(bytes.push(byte)) == ((fnv(bytes) ^ (byte as u64)) * 0x100_0000_01b3)
            % 0x1_0000_0000_0000_0000,
{
    assert(bytes.push(byte).drop_last() =~= bytes);
}

} // verus!
