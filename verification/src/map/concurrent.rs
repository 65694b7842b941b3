//! A hash map whose entries live in buckets selected by the key's hash. The
//! number of buckets is a power of two; before an insertion that finds the map
//! loaded beyond three quarters of its bucket count, the bucket count doubles
//! and every entry moves to the bucket its hash selects in the larger table.
//!
//! Keys are hashed with `fxhash`. The hash of a key of a generic type cannot be
//! named in a contract, so the map's view pairs every key with the hash it was
//! stored under: it is a `Map<(u64, K), V>`, and the contracts of the
//! operations that hash a key speak of the hash that the hasher gave. Each
//! `..._hashed` operation takes that hash as an argument and has an exact
//! contract. Statements about keys hold for key types whose equality is
//! lawful (see [`lawful_eq`]). For every key type, the contracts count the
//! stored entries: an insertion that returns `None` adds one, a removal that
//! returns a value takes one away, and `len` is that count.
//!
//! Operations take the map by `&mut` (readers by `&`); threads that share a
//! map hold it behind a lock.

use core::hash::Hash;
use vstd::prelude::*;
use vstd::std_specs::cmp::PartialEqSpec;

verus! {

/// Default initial number of buckets.
pub const DEFAULT_CAPACITY: usize = 16;

/// Whether `==` on `K` decides spec equality.
pub open spec fn lawful_eq<K: PartialEq>() -> bool {
    &&& K::obeys_eq_spec()
    &&& forall|x: K, y: K| x.eq_spec(&y) <==> x == y
}

/// The bucket that `hash` selects among `capacity` buckets.
pub open spec fn bucket_for(hash: u64, capacity: nat) -> int {
    (hash as usize) as int % capacity as int
}

/// Whether a map of `size` entries over `capacity` buckets is loaded beyond
/// three quarters, which makes the next insertion grow it first.
pub open spec fn overloaded(size: nat, capacity: nat) -> bool {
    4 * size > 3 * capacity
}

/// The bucket count after an insertion into a map of `len` entries over
/// `capacity` buckets: doubled when the map is overloaded (and doubling fits
/// in a `usize`).
pub open spec fn capacity_after_insert(len: nat, capacity: usize) -> nat {
    if overloaded(len, capacity as nat) && capacity <= usize::MAX / 2 {
        2 * (capacity as nat)
    } else {
        capacity as nat
    }
}

/// Calls `fxhash::hash`, which feeds the key through its `Hash`
/// implementation to a fresh `FxHasher` and returns the finished hash (a
/// `usize`, widened here to `u64`). The hash is a function of the key, but for
/// a generic key type it cannot be named in a contract, so nothing is claimed
/// of it.
#[verifier::external_body]
fn hash_key<K: Hash>(key: &K) -> u64 {
    fxhash::hash(key) as u64
}

/// An entry of the table: a key, its value and the hash it was stored under.
struct Entry<K, V> {
    key: K,
    value: V,
    hash: u64,
}

/// A hash map with buckets of entries.
#[verifier::reject_recursive_types(K)]
pub struct ConcurrentHashMap<K, V> {
    table: Vec<Vec<Entry<K, V>>>,
    capacity: usize,
    size: usize,
    model: Ghost<Map<(u64, K), V>>,
}

impl<K, V> View for ConcurrentHashMap<K, V> {
    type V = Map<(u64, K), V>;

    closed spec fn view(&self) -> Map<(u64, K), V> {
        self.model@
    }
}

/// The table's entries agree with `model`, sit in the buckets their hashes
/// select, and no (hash, key) pair occurs twice.
spec fn table_matches<K, V>(t: Seq<Vec<Entry<K, V>>>, model: Map<(u64, K), V>) -> bool {
    &&& forall|i: int, j: int|
        0 <= i < t.len() && 0 <= j < t[i]@.len() ==> {
            let e = #[trigger] t[i]@[j];
            &&& model.contains_key((e.hash, e.key))
            &&& model[(e.hash, e.key)] == e.value
            &&& bucket_for(e.hash, t.len() as nat) == i
        }
    &&& forall|p: (u64, K)|
        #[trigger] model.contains_key(p) ==> exists|j: int|
            0 <= j < t[bucket_for(p.0, t.len() as nat)]@.len() && #[trigger] t[bucket_for(
                p.0,
                t.len() as nat,
            )]@[j].hash == p.0 && t[bucket_for(p.0, t.len() as nat)]@[j].key == p.1
    &&& forall|i: int, j1: int, j2: int|
        0 <= i < t.len() && 0 <= j1 < t[i]@.len() && 0 <= j2 < t[i]@.len() && j1 != j2 ==> !(
        #[trigger] t[i]@[j1].hash == #[trigger] t[i]@[j2].hash && t[i]@[j1].key == t[i]@[j2].key)
}

/// The number of entries in the buckets of `t`.
spec fn count_entries<K, V>(t: Seq<Vec<Entry<K, V>>>) -> nat
    decreases t.len(),
{
    if t.len() == 0 {
        0
    } else {
        count_entries(t.drop_last()) + t.last()@.len()
    }
}

/// Replacing bucket `i` changes the count by the difference in its length.
proof fn lemma_count_update<K, V>(t: Seq<Vec<Entry<K, V>>>, i: int, v: Vec<Entry<K, V>>)
    requires
        0 <= i < t.len(),
    ensures
        count_entries(t.update(i, v)) + t[i]@.len() == count_entries(t) + v@.len(),
    decreases t.len(),
{
    let u = t.update(i, v);
    if i == t.len() - 1 {
        assert(u.drop_last() =~= t.drop_last());
    } else {
        lemma_count_update(t.drop_last(), i, v);
        assert(u.drop_last() =~= t.drop_last().update(i, v));
    }
}

/// Tables whose buckets have the same lengths hold the same number of
/// entries; a table of empty buckets holds none.
proof fn lemma_count_same_lengths<K, V>(t1: Seq<Vec<Entry<K, V>>>, t2: Seq<Vec<Entry<K, V>>>)
    requires
        t1.len() == t2.len(),
        forall|i: int| 0 <= i < t1.len() ==> (#[trigger] t1[i])@.len() == t2[i]@.len(),
    ensures
        count_entries(t1) == count_entries(t2),
    decreases t1.len(),
{
    if t1.len() > 0 {
        lemma_count_same_lengths(t1.drop_last(), t2.drop_last());
    }
}

/// A table of empty buckets holds no entry.
proof fn lemma_count_empty<K, V>(t: Seq<Vec<Entry<K, V>>>)
    requires
        forall|i: int| 0 <= i < t.len() ==> (#[trigger] t[i])@.len() == 0,
    ensures
        count_entries(t) == 0,
    decreases t.len(),
{
    if t.len() > 0 {
        lemma_count_empty(t.drop_last());
    }
}

/// Whether every clone of a `T` equals the original.
pub open spec fn copy_clones<T: Clone>() -> bool {
    forall|a: T, b: T| #[trigger] cloned(a, b) ==> a == b
}


/// Bucket `nb`, standing at index `b` of a table of `n` buckets, agrees
/// with `m`: each entry is in `m` with its value and belongs in bucket `b`,
/// no (hash, key) pair occurs twice, and every key of `m` that belongs in
/// bucket `b` is there.
spec fn bucket_agrees<K, V>(nb: Seq<Entry<K, V>>, b: int, n: nat, m: Map<(u64, K), V>) -> bool {
    &&& forall|jj: int|
        0 <= jj < nb.len() ==> {
            let e = #[trigger] nb[jj];
            &&& m.contains_key((e.hash, e.key))
            &&& m[(e.hash, e.key)] == e.value
            &&& bucket_for(e.hash, n) == b
        }
    &&& forall|j1: int, j2: int|
        0 <= j1 < nb.len() && 0 <= j2 < nb.len() && j1 != j2 ==> !(#[trigger] nb[j1].hash
            == #[trigger] nb[j2].hash && nb[j1].key == nb[j2].key)
    &&& forall|p: (u64, K)|
        #[trigger] m.contains_key(p) && bucket_for(p.0, n) == b ==> exists|jj: int|
            0 <= jj < nb.len() && #[trigger] nb[jj].hash == p.0 && nb[jj].key == p.1
}

/// `m1` and `m0` agree on every pair that does not belong in bucket `b` of
/// `n`.
spec fn agree_outside_bucket<K, V>(m0: Map<(u64, K), V>, m1: Map<(u64, K), V>, b: int, n: nat) -> bool {
    forall|p: (u64, K)|
        bucket_for(p.0, n) != b ==> (#[trigger] m1.contains_key(p) == m0.contains_key(p) && (
        m0.contains_key(p) ==> m1[p] == m0[p]))
}

/// Replacing one bucket of a table that agrees with `m0` by a bucket that
/// agrees with `m1`, where `m1` differs from `m0` only in that bucket, gives a
/// table that agrees with `m1`.
proof fn lemma_bucket_replaced_matches<K, V>(
    t0: Seq<Vec<Entry<K, V>>>,
    m0: Map<(u64, K), V>,
    b: int,
    v: Vec<Entry<K, V>>,
    m1: Map<(u64, K), V>,
)
    requires
        table_matches(t0, m0),
        0 <= b < t0.len(),
        bucket_agrees(v@, b, t0.len() as nat, m1),
        agree_outside_bucket(m0, m1, b, t0.len() as nat),
    ensures
        table_matches(t0.update(b, v), m1),
{
    let t = t0.update(b, v);
    let n = t0.len() as nat;
    assert forall|i: int, jj: int| 0 <= i < t.len() && 0 <= jj < t[i]@.len() implies {
        let e = #[trigger] t[i]@[jj];
        &&& m1.contains_key((e.hash, e.key))
        &&& m1[(e.hash, e.key)] == e.value
        &&& bucket_for(e.hash, t.len() as nat) == i
    } by {
        if i != b {
            let e = t0[i]@[jj];
            assert(t[i]@[jj] == e);
            assert(m1.contains_key((e.hash, e.key)) == m0.contains_key((e.hash, e.key)));
        } else {
            assert(t[i]@[jj] == v@[jj]);
        }
    }
    assert forall|p: (u64, K)| #[trigger] m1.contains_key(p) implies exists|j: int|
        0 <= j < t[bucket_for(p.0, t.len() as nat)]@.len() && #[trigger] t[bucket_for(
            p.0,
            t.len() as nat,
        )]@[j].hash == p.0 && t[bucket_for(p.0, t.len() as nat)]@[j].key == p.1 by {
        let bp = bucket_for(p.0, n);
        if bp == b {
            let w = choose|jj: int| 0 <= jj < v@.len() && #[trigger] v@[jj].hash == p.0 && v@[jj].key == p.1;
            assert(t[bp]@[w].hash == p.0);
        } else {
            assert(m0.contains_key(p));
            let w = choose|j: int|
                0 <= j < t0[bp]@.len() && #[trigger] t0[bp]@[j].hash == p.0 && t0[bp]@[j].key == p.1;
            assert(t[bp]@[w].hash == p.0);
        }
    }
    assert forall|i: int, j1: int, j2: int|
        0 <= i < t.len() && 0 <= j1 < t[i]@.len() && 0 <= j2 < t[i]@.len() && j1 != j2 implies !(
        #[trigger] t[i]@[j1].hash == #[trigger] t[i]@[j2].hash && t[i]@[j1].key == t[i]@[j2].key) by {
        if i == b {
            assert(t[i]@[j1] == v@[j1] && t[i]@[j2] == v@[j2]);
        } else {
            assert(t[i]@[j1] == t0[i]@[j1] && t[i]@[j2] == t0[i]@[j2]);
        }
    }
}

/// Bucket `b` is a copy of bucket `a` with every value cloned: the same
/// hashes, in the same order, and the same keys when keys clone to copies.
spec fn bucket_cloned<K: Clone, V: Clone>(a: Seq<Entry<K, V>>, b: Seq<Entry<K, V>>) -> bool {
    &&& b.len() == a.len()
    &&& forall|j: int|
        0 <= j < a.len() ==> {
            &&& (#[trigger] b[j]).hash == a[j].hash
            &&& cloned(a[j].value, b[j].value)
            &&& copy_clones::<K>() ==> b[j].key == a[j].key
        }
}

/// The value that table `t` holds for key `p.1` under hash `p.0`.
spec fn value_in_table<K, V>(t: Seq<Vec<Entry<K, V>>>, p: (u64, K)) -> V {
    let b = bucket_for(p.0, t.len() as nat);
    let j = choose|j: int| 0 <= j < t[b]@.len() && #[trigger] t[b]@[j].hash == p.0 && t[b]@[j].key == p.1;
    t[b]@[j].value
}

/// The map over the pairs of `dom` that gives each the value it has in `t`.
spec fn table_model<K, V>(t: Seq<Vec<Entry<K, V>>>, dom: Set<(u64, K)>) -> Map<(u64, K), V> {
    Map::new(|p: (u64, K)| dom.contains(p), |p: (u64, K)| value_in_table(t, p))
}

/// A table whose buckets are clones of those of a table that agrees with
/// `m` agrees with the map that has `m`'s keys and the cloned values.
proof fn lemma_cloned_buckets_match<K: Clone, V: Clone>(
    t1: Seq<Vec<Entry<K, V>>>,
    t2: Seq<Vec<Entry<K, V>>>,
    m: Map<(u64, K), V>,
)
    requires
        t1.len() == t2.len(),
        t1.len() > 0,
        copy_clones::<K>(),
        forall|i: int| 0 <= i < t1.len() ==> bucket_cloned((#[trigger] t1[i])@, t2[i]@),
        table_matches(t1, m),
    ensures
        table_model(t2, m.dom()).dom() == m.dom(),
        table_matches(t2, table_model(t2, m.dom())),
        forall|p: (u64, K)| #[trigger] m.contains_key(p) ==> cloned(m[p], table_model(t2, m.dom())[p]),
{
    let nm = table_model(t2, m.dom());
    assert(nm.dom() =~= m.dom());
    assert forall|i: int, j1: int, j2: int|
        0 <= i < t2.len() && 0 <= j1 < t2[i]@.len() && 0 <= j2 < t2[i]@.len() && j1 != j2 implies !(
        #[trigger] t2[i]@[j1].hash == #[trigger] t2[i]@[j2].hash && t2[i]@[j1].key == t2[i]@[j2].key) by {
        assert(bucket_cloned(t1[i]@, t2[i]@));
        assert(t2[i]@[j1].hash == t1[i]@[j1].hash);
        assert(t2[i]@[j2].hash == t1[i]@[j2].hash);
    }
    assert forall|i: int, j: int| 0 <= i < t2.len() && 0 <= j < t2[i]@.len() implies {
        let e = #[trigger] t2[i]@[j];
        &&& nm.contains_key((e.hash, e.key))
        &&& nm[(e.hash, e.key)] == e.value
        &&& bucket_for(e.hash, t2.len() as nat) == i
    } by {
        assert(bucket_cloned(t1[i]@, t2[i]@));
        let e1 = t1[i]@[j];
        let e = t2[i]@[j];
        assert(e.hash == e1.hash && e.key == e1.key);
        let w = choose|w: int| 0 <= w < t2[i]@.len() && #[trigger] t2[i]@[w].hash == e.hash && t2[i]@[w].key == e.key;
        assert(0 <= w < t2[i]@.len() && t2[i]@[w].hash == e.hash && t2[i]@[w].key == e.key);
        if w != j {
            assert(t2[i]@[w].hash == t2[i]@[j].hash);
        }
    }
    assert forall|p: (u64, K)| #[trigger] nm.contains_key(p) implies exists|j: int|
        0 <= j < t2[bucket_for(p.0, t2.len() as nat)]@.len() && #[trigger] t2[bucket_for(
            p.0,
            t2.len() as nat,
        )]@[j].hash == p.0 && t2[bucket_for(p.0, t2.len() as nat)]@[j].key == p.1 by {
        assert(m.contains_key(p));
        let b = bucket_for(p.0, t1.len() as nat);
        let w = choose|j: int|
            0 <= j < t1[b]@.len() && #[trigger] t1[b]@[j].hash == p.0 && t1[b]@[j].key == p.1;
        assert(bucket_cloned(t1[b]@, t2[b]@));
        assert(t2[b]@[w].hash == p.0);
    }
    assert forall|p: (u64, K)| #[trigger] m.contains_key(p) implies cloned(m[p], nm[p]) by {
        let b = bucket_for(p.0, t1.len() as nat);
        let w = choose|j: int|
            0 <= j < t1[b]@.len() && #[trigger] t1[b]@[j].hash == p.0 && t1[b]@[j].key == p.1;
        assert(bucket_cloned(t1[b]@, t2[b]@));
        assert(t2[b]@[w].hash == p.0);
        let w2 = choose|j: int| 0 <= j < t2[b]@.len() && #[trigger] t2[b]@[j].hash == p.0 && t2[b]@[j].key == p.1;
        assert(0 <= w2 < t2[b]@.len() && t2[b]@[w2].hash == p.0 && t2[b]@[w2].key == p.1);
        assert(t1[b]@[w2].hash == p.0 && t1[b]@[w2].key == p.1);
        if w2 != w {
            assert(t1[b]@[w2].hash == t1[b]@[w].hash);
        }
        assert(nm[p] == t2[b]@[w2].value);
        assert(m[(t1[b]@[w].hash, t1[b]@[w].key)] == t1[b]@[w].value);
    }
}

/// `after` is `before` with `key` set to `value` under `hash`, and `r` is
/// the value the key had there.
spec fn final_view_matches<K, V>(
    before: Map<(u64, K), V>,
    after: Map<(u64, K), V>,
    hash: u64,
    key: K,
    value: V,
    r: Option<V>,
) -> bool {
    after == before.insert((hash, key), value) && r == if before.contains_key((hash, key)) {
        Some(before[(hash, key)])
    } else {
        None
    }
}

/// Some entry of bucket `b` at position `r` or later holds key `k` under hash
/// `h`.
spec fn held_from<K, V>(b: Seq<Entry<K, V>>, r: int, h: u64, k: K) -> bool {
    exists|jj: int| r <= jj < b.len() && #[trigger] b[jj].hash == h && b[jj].key == k
}

/// During a resize from `old_cap` buckets: every entry of the new table `nt`
/// agrees with `m`, sits in the bucket its hash selects in `nt`, and comes
/// from an old bucket before `i`, or from old bucket `i` (`src`) at position
/// `r` or later.
spec fn moved_entries_agree<K, V>(
    nt: Seq<Vec<Entry<K, V>>>,
    m: Map<(u64, K), V>,
    old_cap: nat,
    i: int,
    src: Seq<Entry<K, V>>,
    r: int,
) -> bool {
    forall|k: int, jj: int|
        0 <= k < nt.len() && 0 <= jj < nt[k]@.len() ==> {
            let e = #[trigger] nt[k]@[jj];
            &&& m.contains_key((e.hash, e.key))
            &&& m[(e.hash, e.key)] == e.value
            &&& bucket_for(e.hash, nt.len() as nat) == k
            &&& (bucket_for(e.hash, old_cap) < i || (bucket_for(e.hash, old_cap) == i && held_from(
                src,
                r,
                e.hash,
                e.key,
            )))
        }
}

/// During a resize: every key of `m` from an old bucket before `i`, or from
/// old bucket `i` (`src`) at position `r` or later, is in the new table.
spec fn moved_keys_present<K, V>(
    nt: Seq<Vec<Entry<K, V>>>,
    m: Map<(u64, K), V>,
    old_cap: nat,
    i: int,
    src: Seq<Entry<K, V>>,
    r: int,
) -> bool {
    forall|p: (u64, K)|
        #[trigger] m.contains_key(p) && (bucket_for(p.0, old_cap) < i || (bucket_for(p.0, old_cap)
            == i && held_from(src, r, p.0, p.1))) ==> held_from(
            nt[bucket_for(p.0, nt.len() as nat)]@,
            0,
            p.0,
            p.1,
        )
}

/// No bucket of `t` holds the same key under the same hash twice.
spec fn buckets_distinct<K, V>(t: Seq<Vec<Entry<K, V>>>) -> bool {
    forall|i: int, j1: int, j2: int|
        0 <= i < t.len() && 0 <= j1 < t[i]@.len() && 0 <= j2 < t[i]@.len() && j1 != j2 ==> !(
        #[trigger] t[i]@[j1].hash == #[trigger] t[i]@[j2].hash && t[i]@[j1].key == t[i]@[j2].key)
}

impl<K: Hash + Eq, V> ConcurrentHashMap<K, V> {
    /// The map's internal invariant.
    pub closed spec fn wf(&self) -> bool {
        &&& self.table@.len() == self.capacity
        &&& crate::ring::is_power_of_two(self.capacity as nat)
        &&& self.model@.dom().finite()
        &&& self.size == count_entries(self.table@)
        &&& lawful_eq::<K>() ==> {
            &&& table_matches(self.table@, self.model@)
            &&& self.model@.dom().len() == self.size
        }
    }

    pub closed spec fn spec_capacity(&self) -> usize {
        self.capacity
    }

    /// The number of entries the map stores: one per key when `==` on `K`
    /// is lawful.
    pub closed spec fn entry_count(&self) -> nat {
        count_entries(self.table@)
    }

    /// Where `==` on `K` is lawful, the stored entries are the view's.
    pub proof fn lemma_entry_count_is_len(&self)
        requires
            self.wf(),
        ensures
            lawful_eq::<K>() ==> self.entry_count() == self@.len(),
    {
    }

    /// A table of `capacity` empty buckets.
    fn allocate_table(capacity: usize) -> (t: Vec<Vec<Entry<K, V>>>)
        ensures
            t@.len() == capacity,
            forall|i: int| 0 <= i < capacity ==> (#[trigger] t@[i])@.len() == 0,
    {
        let mut t: Vec<Vec<Entry<K, V>>> = Vec::new();
        let mut i: usize = 0;
        while i < capacity
            invariant
                i <= capacity,
                t@.len() == i,
                forall|k: int| 0 <= k < i ==> (#[trigger] t@[k])@.len() == 0,
            decreases capacity - i,
        {
            t.push(Vec::new());
            i = i + 1;
        }
        t
    }

    /// Create a map with the default number of buckets.
    pub fn new() -> (r: Self)
        ensures
            r.wf(),
            r@ == Map::<(u64, K), V>::empty(),
            r.capacity() == DEFAULT_CAPACITY,
    {
        let r = Self::with_capacity(DEFAULT_CAPACITY);
        proof {
            reveal_with_fuel(crate::ring::is_power_of_two, 5);
            crate::ring::lemma_power_of_two_rounds_to_itself(16);
            crate::ring::lemma_rounding_unique(16, 16, r.capacity() as nat);
        }
        r
    }

    /// Create a map with `capacity` buckets, rounded up to the next power of
    /// two (and to one bucket when `capacity` is zero).
    pub fn with_capacity(capacity: usize) -> (r: Self)
        requires
            capacity <= usize::MAX / 2 + 1,
        ensures
            r.wf(),
            r@ == Map::<(u64, K), V>::empty(),
            crate::ring::rounds_up_to(if capacity == 0 { 1 } else { capacity as nat }, r.capacity() as nat),
    {
        let capacity = if capacity == 0 {
            1
        } else {
            crate::ring::next_power_of_two(capacity)
        };
        let table = Self::allocate_table(capacity);
        proof {
            lemma_count_empty(table@);
        }
        ConcurrentHashMap { table, capacity, size: 0, model: Ghost(Map::empty()) }
    }

    /// The number of entries in the map.
    pub fn len(&self) -> (n: usize)
        requires
            self.wf(),
        ensures
            n == self.entry_count(),
            lawful_eq::<K>() ==> n == self@.len(),
    {
        self.size
    }

    /// Whether the map has no entry.
    pub fn is_empty(&self) -> (b: bool)
        requires
            self.wf(),
        ensures
            b == (self.entry_count() == 0),
            lawful_eq::<K>() ==> b == (self@.len() == 0),
    {
        self.size == 0
    }

    /// The number of buckets.
    #[verifier::when_used_as_spec(spec_capacity)]
    pub fn capacity(&self) -> (c: usize)
        ensures
            c == self.spec_capacity(),
    {
        self.capacity
    }

    /// The bucket that `hash` selects.
    fn bucket_index(&self, hash: u64) -> (b: usize)
        requires
            self.wf(),
        ensures
            b == bucket_for(hash, self.capacity as nat),
            b < self.capacity,
    {
        (hash as usize) % self.capacity
    }

    /// Look the key up under `hash`.
    pub fn get_hashed(&self, hash: u64, key: &K) -> (r: Option<&V>)
        requires
            self.wf(),
        ensures
            lawful_eq::<K>() ==> match r {
                Some(v) => self@.contains_key((hash, *key)) && *v == self@[(hash, *key)],
                None => !self@.contains_key((hash, *key)),
            },
    {
        let b = self.bucket_index(hash);
        let bucket = &self.table[b];
        let mut j: usize = 0;
        while j < bucket.len()
            invariant
                self.wf(),
                b == bucket_for(hash, self.capacity as nat),
                b < self.capacity,
                *bucket == self.table@[b as int],
                j <= bucket@.len(),
                lawful_eq::<K>() ==> forall|k: int|
                    0 <= k < j ==> !(#[trigger] bucket@[k].hash == hash && bucket@[k].key == *key),
            decreases bucket@.len() - j,
        {
            let entry = &bucket[j];
            if entry.hash == hash && entry.key == *key {
                proof {
                    if lawful_eq::<K>() {
                        assert(self.table@[b as int]@[j as int] == *entry);
                    }
                }
                return Some(&entry.value);
            }
            j = j + 1;
        }
        None
    }

    /// Look a key up (with the hash that the hasher gives it).
    pub fn get(&self, key: &K) -> (r: Option<&V>)
        requires
            self.wf(),
        ensures
            lawful_eq::<K>() ==> exists|hash: u64|
                match r {
                    Some(v) => self@.contains_key((hash, *key)) && *v == self@[(hash, *key)],
                    None => !self@.contains_key((hash, *key)),
                },
    {
        let hash = hash_key(key);
        let r = self.get_hashed(hash, key);
        proof {
            if lawful_eq::<K>() {
                assert(match r {
                    Some(v) => self@.contains_key((hash, *key)) && *v == self@[(hash, *key)],
                    None => !self@.contains_key((hash, *key)),
                });
            }
        }
        r
    }

    /// Insert `key` with `value` under `hash`. Returns the value the key had
    /// under that hash, which the new value replaces.
    #[verifier::loop_isolation(false)]
    pub fn insert_hashed(&mut self, hash: u64, key: K, value: V) -> (r: Option<V>)
        requires
            old(self).wf(),
            old(self).entry_count() < usize::MAX,
        ensures
            final(self).wf(),
            final(self).capacity() == old(self).capacity(),
            final(self).entry_count() == if r is Some {
                old(self).entry_count()
            } else {
                old(self).entry_count() + 1
            },
            lawful_eq::<K>() ==> final(self)@ == old(self)@.insert((hash, key), value),
            lawful_eq::<K>() ==> r == if old(self)@.contains_key((hash, key)) {
                Some(old(self)@[(hash, key)])
            } else {
                None
            },
    {
        let b = self.bucket_index(hash);
        let mut bucket: Vec<Entry<K, V>> = Vec::new();
        self.table.set_and_swap(b, &mut bucket);
        let ghost t0 = old(self).table@;
        let ghost m0 = old(self).model@;
        assert(bucket@ == t0[b as int]@);
        let ghost hole = self.table@;
        let mut j: usize = 0;
        while j < bucket.len()
            invariant
                bucket@ == t0[b as int]@,
                self.table@ == hole,
                self.model == old(self).model,
                self.size == old(self).size,
                self.capacity == old(self).capacity,
                j <= bucket@.len(),
                lawful_eq::<K>() ==> forall|k: int|
                    0 <= k < j ==> !(#[trigger] bucket@[k].hash == hash && bucket@[k].key == key),
            decreases bucket@.len() - j,
        {
            if bucket[j].hash == hash && bucket[j].key == key {
                let mut entry = Entry { key, value, hash };
                bucket.set_and_swap(j, &mut entry);
                self.table.set(b, bucket);
                proof {
                    assert(self.table@ =~= t0.update(b as int, self.table@[b as int]));
                    lemma_count_update(t0, b as int, self.table@[b as int]);
                    if lawful_eq::<K>() {
                        let p = (hash, key);
                        let n = t0.len() as nat;
                        let nb = self.table@[b as int]@;
                        let m1 = m0.insert(p, value);
                        assert(m0.contains_key(p));
                        assert(m1.dom() =~= m0.dom());
                        self.model@ = m1;
                        assert(nb == t0[b as int]@.update(j as int, Entry { key, value, hash }));
                        assert forall|jj: int| 0 <= jj < nb.len() implies {
                            let e = #[trigger] nb[jj];
                            &&& m1.contains_key((e.hash, e.key))
                            &&& m1[(e.hash, e.key)] == e.value
                            &&& bucket_for(e.hash, n) == b
                        } by {
                            if jj != j {
                                assert(!(t0[b as int]@[jj].hash == t0[b as int]@[j as int].hash
                                    && t0[b as int]@[jj].key == t0[b as int]@[j as int].key));
                            }
                        }
                        assert forall|j1: int, j2: int|
                            0 <= j1 < nb.len() && 0 <= j2 < nb.len() && j1 != j2 implies !(
                            #[trigger] nb[j1].hash == #[trigger] nb[j2].hash && nb[j1].key == nb[j2].key) by {
                            assert(t0[b as int]@[j1].hash == t0[b as int]@[j2].hash
                                ==> t0[b as int]@[j1].key != t0[b as int]@[j2].key);
                        }
                        assert forall|q: (u64, K)|
                            #[trigger] m1.contains_key(q) && bucket_for(q.0, n) == b implies exists|jj: int|
                            0 <= jj < nb.len() && #[trigger] nb[jj].hash == q.0 && nb[jj].key == q.1 by {
                            let w = choose|k: int|
                                0 <= k < t0[bucket_for(q.0, n)]@.len() && #[trigger] t0[bucket_for(q.0, n)]@[k].hash
                                    == q.0 && t0[bucket_for(q.0, n)]@[k].key == q.1;
                            assert(nb[w].hash == q.0);
                        }
                        lemma_bucket_replaced_matches(t0, m0, b as int, self.table@[b as int], m1);
                    }
                }
                return Some(entry.value);
            }
            j = j + 1;
        }
        bucket.push(Entry { key, value, hash });
        self.table.set(b, bucket);
        self.size = self.size.wrapping_add(1);
        proof {
            assert(self.table@ =~= t0.update(b as int, self.table@[b as int]));
            lemma_count_update(t0, b as int, self.table@[b as int]);
            if lawful_eq::<K>() {
                let p = (hash, key);
                let n = t0.len() as nat;
                let last = t0[b as int]@.len() as int;
                let nb = self.table@[b as int]@;
                assert(nb == t0[b as int]@.push(Entry { key, value, hash }));
                assert(!m0.contains_key(p)) by {
                    if m0.contains_key(p) {
                        let w = choose|k: int|
                            0 <= k < t0[bucket_for(p.0, n)]@.len() && #[trigger] t0[bucket_for(p.0, n)]@[k].hash
                                == p.0 && t0[bucket_for(p.0, n)]@[k].key == p.1;
                        assert(bucket@[w].hash == hash);
                    }
                }
                let m1 = m0.insert(p, value);
                assert(m1.dom() =~= m0.dom().insert(p));
                assert(m1.dom().len() == m0.dom().len() + 1);
                self.model@ = m1;
                assert forall|jj: int| 0 <= jj < nb.len() implies {
                    let e = #[trigger] nb[jj];
                    &&& m1.contains_key((e.hash, e.key))
                    &&& m1[(e.hash, e.key)] == e.value
                    &&& bucket_for(e.hash, n) == b
                } by {
                    if jj != last {
                        assert(!(t0[b as int]@[jj].hash == hash && t0[b as int]@[jj].key == key));
                    }
                }
                assert forall|j1: int, j2: int|
                    0 <= j1 < nb.len() && 0 <= j2 < nb.len() && j1 != j2 implies !(
                    #[trigger] nb[j1].hash == #[trigger] nb[j2].hash && nb[j1].key == nb[j2].key) by {
                    if j1 == last {
                        assert(!(t0[b as int]@[j2].hash == hash && t0[b as int]@[j2].key == key));
                    } else if j2 == last {
                        assert(!(t0[b as int]@[j1].hash == hash && t0[b as int]@[j1].key == key));
                    } else {
                        assert(t0[b as int]@[j1].hash == t0[b as int]@[j2].hash
                            ==> t0[b as int]@[j1].key != t0[b as int]@[j2].key);
                    }
                }
                assert forall|q: (u64, K)|
                    #[trigger] m1.contains_key(q) && bucket_for(q.0, n) == b implies exists|jj: int|
                    0 <= jj < nb.len() && #[trigger] nb[jj].hash == q.0 && nb[jj].key == q.1 by {
                    if q == p {
                        assert(nb[last].hash == q.0);
                    } else {
                        let w = choose|k: int|
                            0 <= k < t0[bucket_for(q.0, n)]@.len() && #[trigger] t0[bucket_for(q.0, n)]@[k].hash
                                == q.0 && t0[bucket_for(q.0, n)]@[k].key == q.1;
                        assert(nb[w].hash == q.0);
                    }
                }
                lemma_bucket_replaced_matches(t0, m0, b as int, self.table@[b as int], m1);
            }
        }
        None
    }

    /// Remove `key` stored under `hash`; the entries after it in its bucket
    /// keep their order. Returns the removed value.
    pub fn remove_hashed(&mut self, hash: u64, key: &K) -> (r: Option<V>)
        requires
            old(self).wf(),
        ensures
            final(self).wf(),
            final(self).capacity() == old(self).capacity(),
            final(self).entry_count() + (if r is Some { 1nat } else { 0nat }) == old(
                self,
            ).entry_count(),
            lawful_eq::<K>() ==> final(self)@ == old(self)@.remove((hash, *key)),
            lawful_eq::<K>() ==> r == if old(self)@.contains_key((hash, *key)) {
                Some(old(self)@[(hash, *key)])
            } else {
                None
            },
    {
        let b = self.bucket_index(hash);
        let ghost t0 = old(self).table@;
        let ghost m0 = old(self).model@;
        let mut j: usize = 0;
        let mut found = false;
        while j < self.table[b].len()
            invariant_except_break
                !found,
                self.wf(),
                b < self.capacity,
                b == bucket_for(hash, self.capacity as nat),
                j <= self.table@[b as int]@.len(),
                lawful_eq::<K>() ==> forall|k: int|
                    0 <= k < j ==> !(#[trigger] self.table@[b as int]@[k].hash == hash
                        && self.table@[b as int]@[k].key == *key),
            ensures
                found ==> j < self.table@[b as int]@.len(),
                found ==> (lawful_eq::<K>() ==> self.table@[b as int]@[j as int].hash == hash
                    && self.table@[b as int]@[j as int].key == *key),
                !found ==> (lawful_eq::<K>() ==> forall|k: int|
                    0 <= k < self.table@[b as int]@.len() ==> !(
                    #[trigger] self.table@[b as int]@[k].hash == hash
                        && self.table@[b as int]@[k].key == *key)),
            decreases self.table@[b as int]@.len() - j,
        {
            if self.table[b][j].hash == hash && self.table[b][j].key == *key {
                found = true;
                break;
            }
            j = j + 1;
        }
        if !found {
            proof {
                if lawful_eq::<K>() {
                    let p = (hash, *key);
                    assert(!m0.contains_key(p)) by {
                        if m0.contains_key(p) {
                            let w = choose|k: int|
                                0 <= k < t0[bucket_for(p.0, t0.len() as nat)]@.len() && #[trigger] t0[bucket_for(
                                    p.0,
                                    t0.len() as nat,
                                )]@[k].hash == p.0 && t0[bucket_for(p.0, t0.len() as nat)]@[k].key == p.1;
                            assert(t0[b as int]@[w].hash == hash);
                        }
                    }
                    assert(m0.remove(p) =~= m0);
                }
            }
            return None;
        }
        let mut bucket: Vec<Entry<K, V>> = Vec::new();
        self.table.set_and_swap(b, &mut bucket);
        let entry = bucket.remove(j);
        self.table.set(b, bucket);
        proof {
            assert(self.table@ =~= t0.update(b as int, self.table@[b as int]));
            lemma_count_update(t0, b as int, self.table@[b as int]);
        }
        self.size = self.size - 1;
        proof {
            if lawful_eq::<K>() {
                let p = (hash, *key);
                let n = t0.len() as nat;
                let nb = self.table@[b as int]@;
                let ob = t0[b as int]@;
                ob.remove_ensures(j as int);
                assert(m0.contains_key(p));
                let m1 = m0.remove(p);
                assert(m1.dom() =~= m0.dom().remove(p));
                self.model@ = m1;
                assert forall|jj: int| 0 <= jj < nb.len() implies {
                    let e = #[trigger] nb[jj];
                    &&& m1.contains_key((e.hash, e.key))
                    &&& m1[(e.hash, e.key)] == e.value
                    &&& bucket_for(e.hash, n) == b
                } by {
                    let src = if jj < j { jj } else { jj + 1 };
                    assert(nb[jj] == ob[src]);
                    assert(!(ob[src].hash == ob[j as int].hash && ob[src].key == ob[j as int].key));
                }
                assert forall|j1: int, j2: int|
                    0 <= j1 < nb.len() && 0 <= j2 < nb.len() && j1 != j2 implies !(
                    #[trigger] nb[j1].hash == #[trigger] nb[j2].hash && nb[j1].key == nb[j2].key) by {
                    let s1 = if j1 < j { j1 } else { j1 + 1 };
                    let s2 = if j2 < j { j2 } else { j2 + 1 };
                    assert(nb[j1] == ob[s1]);
                    assert(nb[j2] == ob[s2]);
                }
                assert forall|q: (u64, K)|
                    #[trigger] m1.contains_key(q) && bucket_for(q.0, n) == b implies exists|jj: int|
                    0 <= jj < nb.len() && #[trigger] nb[jj].hash == q.0 && nb[jj].key == q.1 by {
                    let w = choose|k: int|
                        0 <= k < t0[bucket_for(q.0, n)]@.len() && #[trigger] t0[bucket_for(q.0, n)]@[k].hash
                            == q.0 && t0[bucket_for(q.0, n)]@[k].key == q.1;
                    assert(w != j);
                    if w < j {
                        assert(nb[w].hash == q.0);
                    } else {
                        assert(nb[w - 1].hash == q.0);
                    }
                }
                lemma_bucket_replaced_matches(t0, m0, b as int, self.table@[b as int], m1);
            }
        }
        Some(entry.value)
    }

    /// Move every entry of old bucket `i` into the bucket its hash selects in
    /// the new table.
    fn migrate_bucket(
        new_table: &mut Vec<Vec<Entry<K, V>>>,
        bucket: Vec<Entry<K, V>>,
        Ghost(m): Ghost<Map<(u64, K), V>>,
        Ghost(old_cap): Ghost<nat>,
        Ghost(i): Ghost<int>,
    )
        requires
            old(new_table)@.len() > 0,
            lawful_eq::<K>() ==> {
                &&& forall|jj: int|
                    0 <= jj < bucket@.len() ==> {
                        let e = #[trigger] bucket@[jj];
                        &&& m.contains_key((e.hash, e.key))
                        &&& m[(e.hash, e.key)] == e.value
                        &&& bucket_for(e.hash, old_cap) == i
                    }
                &&& forall|j1: int, j2: int|
                    0 <= j1 < bucket@.len() && 0 <= j2 < bucket@.len() && j1 != j2 ==> !(
                    #[trigger] bucket@[j1].hash == #[trigger] bucket@[j2].hash && bucket@[j1].key
                        == bucket@[j2].key)
                &&& moved_entries_agree(old(new_table)@, m, old_cap, i, bucket@, bucket@.len() as int)
                &&& moved_keys_present(old(new_table)@, m, old_cap, i, bucket@, bucket@.len() as int)
                &&& buckets_distinct(old(new_table)@)
            },
        ensures
            final(new_table)@.len() == old(new_table)@.len(),
            count_entries(final(new_table)@) == count_entries(old(new_table)@) + bucket@.len(),
            lawful_eq::<K>() ==> {
                &&& moved_entries_agree(final(new_table)@, m, old_cap, i, bucket@, 0)
                &&& moved_keys_present(final(new_table)@, m, old_cap, i, bucket@, 0)
                &&& buckets_distinct(final(new_table)@)
            },
    {
        let ghost src = bucket@;
        let ghost init = new_table@;
        let new_capacity = new_table.len();
        let mut bucket = bucket;
        while bucket.len() > 0
            invariant
                new_table@.len() == new_capacity,
                count_entries(new_table@) + bucket@.len() == count_entries(init) + src.len(),
                new_capacity > 0,
                bucket@ == src.take(bucket@.len() as int),
                bucket@.len() <= src.len(),
                lawful_eq::<K>() ==> {
                    &&& forall|jj: int|
                        0 <= jj < src.len() ==> {
                            let e = #[trigger] src[jj];
                            &&& m.contains_key((e.hash, e.key))
                            &&& m[(e.hash, e.key)] == e.value
                            &&& bucket_for(e.hash, old_cap) == i
                        }
                    &&& forall|j1: int, j2: int|
                        0 <= j1 < src.len() && 0 <= j2 < src.len() && j1 != j2 ==> !(
                        #[trigger] src[j1].hash == #[trigger] src[j2].hash && src[j1].key
                            == src[j2].key)
                    &&& moved_entries_agree(new_table@, m, old_cap, i, src, bucket@.len() as int)
                    &&& moved_keys_present(new_table@, m, old_cap, i, src, bucket@.len() as int)
                    &&& buckets_distinct(new_table@)
                },
            decreases bucket@.len(),
        {
            let ghost r = bucket@.len() as int;
            let ghost nt0 = new_table@;
            let entry = bucket.pop().unwrap();
            let nb = (entry.hash as usize) % new_capacity;
            let mut target: Vec<Entry<K, V>> = Vec::new();
            new_table.set_and_swap(nb, &mut target);
            let ghost before = target@;
            target.push(entry);
            new_table.set(nb, target);
            proof {
                assert(new_table@ =~= nt0.update(nb as int, new_table@[nb as int]));
                lemma_count_update(nt0, nb as int, new_table@[nb as int]);
                assert(bucket@ =~= src.take(r - 1));
                assert(entry == src[r - 1]);
                if lawful_eq::<K>() {
                    let nt = new_table@;
                    let n = before.len() as int;
                    assert(nt[nb as int]@ == before.push(entry));
                    // The entry's key is not yet in its new bucket.
                    assert forall|jj: int| 0 <= jj < n implies !(#[trigger] before[jj].hash
                        == entry.hash && before[jj].key == entry.key) by {
                        let e = nt0[nb as int]@[jj];
                        assert(e == before[jj]);
                        if e.hash == entry.hash && e.key == entry.key {
                            assert(held_from(src, r, e.hash, e.key));
                            let w = choose|w: int|
                                r <= w < src.len() && #[trigger] src[w].hash == e.hash && src[w].key
                                    == e.key;
                            assert(src[w].hash == src[r - 1].hash);
                        }
                    }
                    assert forall|k: int, jj: int|
                        0 <= k < nt.len() && 0 <= jj < nt[k]@.len() implies {
                        let e = #[trigger] nt[k]@[jj];
                        &&& m.contains_key((e.hash, e.key))
                        &&& m[(e.hash, e.key)] == e.value
                        &&& bucket_for(e.hash, nt.len() as nat) == k
                        &&& (bucket_for(e.hash, old_cap) < i || (bucket_for(e.hash, old_cap) == i
                            && held_from(src, r - 1, e.hash, e.key)))
                    } by {
                        if k == nb && jj == n {
                            assert(src[r - 1].hash == entry.hash);
                        } else {
                            assert(nt[k]@[jj] == nt0[k]@[jj]);
                            let e = nt[k]@[jj];
                            if bucket_for(e.hash, old_cap) == i {
                                let w = choose|w: int|
                                    r <= w < src.len() && #[trigger] src[w].hash == e.hash
                                        && src[w].key == e.key;
                                assert(src[w].hash == e.hash);
                            }
                        }
                    }
                    assert forall|p: (u64, K)|
                        #[trigger] m.contains_key(p) && (bucket_for(p.0, old_cap) < i || (bucket_for(
                            p.0,
                            old_cap,
                        ) == i && held_from(src, r - 1, p.0, p.1))) implies held_from(
                        nt[bucket_for(p.0, nt.len() as nat)]@,
                        0,
                        p.0,
                        p.1,
                    ) by {
                        let bp = bucket_for(p.0, nt.len() as nat);
                        if p.0 == entry.hash && p.1 == entry.key {
                            assert(nt[bp]@[n].hash == p.0);
                        } else {
                            if bucket_for(p.0, old_cap) == i {
                                let w = choose|w: int|
                                    r - 1 <= w < src.len() && #[trigger] src[w].hash == p.0
                                        && src[w].key == p.1;
                                assert(w != r - 1);
                                assert(held_from(src, r, p.0, p.1));
                            }
                            let w2 = choose|w: int|
                                0 <= w < nt0[bp]@.len() && #[trigger] nt0[bp]@[w].hash == p.0
                                    && nt0[bp]@[w].key == p.1;
                            assert(nt[bp]@[w2] == nt0[bp]@[w2]);
                            assert(nt[bp]@[w2].hash == p.0);
                        }
                    }
                    assert forall|k: int, j1: int, j2: int|
                        0 <= k < nt.len() && 0 <= j1 < nt[k]@.len() && 0 <= j2 < nt[k]@.len() && j1
                            != j2 implies !(#[trigger] nt[k]@[j1].hash == #[trigger] nt[k]@[j2].hash
                        && nt[k]@[j1].key == nt[k]@[j2].key) by {
                        if k == nb {
                            if j1 == n {
                                assert(nt[k]@[j2] == before[j2]);
                            } else if j2 == n {
                                assert(nt[k]@[j1] == before[j1]);
                            } else {
                                assert(nt[k]@[j1] == nt0[k]@[j1]);
                                assert(nt[k]@[j2] == nt0[k]@[j2]);
                            }
                        } else {
                            assert(nt[k]@[j1] == nt0[k]@[j1]);
                            assert(nt[k]@[j2] == nt0[k]@[j2]);
                        }
                    }
                }
            }
        }
    }

    /// Double the number of buckets, moving every entry to the bucket its
    /// hash selects in the larger table. The entries stay the same.
    fn resize(&mut self)
        requires
            old(self).wf(),
            old(self).capacity <= usize::MAX / 2,
        ensures
            final(self).wf(),
            final(self)@ == old(self)@,
            final(self).capacity == 2 * old(self).capacity,
            final(self).size == old(self).size,
    {
        let old_capacity = self.capacity;
        let new_capacity = old_capacity * 2;
        let mut new_table = Self::allocate_table(new_capacity);
        let mut old_table: Vec<Vec<Entry<K, V>>> = Vec::new();
        core::mem::swap(&mut old_table, &mut self.table);
        let ghost t0 = old_table@;
        let ghost m = self.model@;
        let ghost oc = old_capacity as nat;
        proof {
            lemma_count_empty(new_table@);
            if lawful_eq::<K>() {
                assert(moved_entries_agree(new_table@, m, oc, 0, Seq::empty(), 0));
                assert(moved_keys_present(new_table@, m, oc, 0, Seq::empty(), 0));
            }
        }
        let mut i: usize = 0;
        while i < old_capacity
            invariant
                old(self).wf(),
                t0 == old(self).table@,
                m == old(self).model@,
                oc == old_capacity,
                old_capacity == old(self).capacity,
                new_capacity == 2 * old_capacity,
                new_table@.len() == new_capacity,
                old_table@.len() == old_capacity,
                i <= old_capacity,
                forall|k: int| i <= k < old_capacity ==> (#[trigger] old_table@[k])@ == t0[k]@,
                forall|k: int| 0 <= k < i ==> (#[trigger] old_table@[k])@.len() == 0,
                count_entries(new_table@) + count_entries(old_table@) == count_entries(t0),
                lawful_eq::<K>() ==> {
                    &&& moved_entries_agree(new_table@, m, oc, i as int, Seq::empty(), 0)
                    &&& moved_keys_present(new_table@, m, oc, i as int, Seq::empty(), 0)
                    &&& buckets_distinct(new_table@)
                },
            decreases old_capacity - i,
        {
            let mut bucket: Vec<Entry<K, V>> = Vec::new();
            let ghost ot0 = old_table@;
            old_table.set_and_swap(i, &mut bucket);
            let ghost src = bucket@;
            proof {
                assert(old_table@ =~= ot0.update(i as int, old_table@[i as int]));
                lemma_count_update(ot0, i as int, old_table@[i as int]);
            }
            proof {
                if lawful_eq::<K>() {
                    assert(src == t0[i as int]@);
                    assert forall|k: int, jj: int|
                        0 <= k < new_table@.len() && 0 <= jj < new_table@[k]@.len() implies {
                        let e = #[trigger] new_table@[k]@[jj];
                        &&& m.contains_key((e.hash, e.key))
                        &&& m[(e.hash, e.key)] == e.value
                        &&& bucket_for(e.hash, new_table@.len() as nat) == k
                        &&& (bucket_for(e.hash, oc) < i || (bucket_for(e.hash, oc) == i && held_from(
                            src,
                            src.len() as int,
                            e.hash,
                            e.key,
                        )))
                    } by {
                        let e = new_table@[k]@[jj];
                        if !(bucket_for(e.hash, oc) < i) {
                            assert(held_from(Seq::<Entry<K, V>>::empty(), 0, e.hash, e.key));
                            let w = choose|w: int|
                                0 <= w < Seq::<Entry<K, V>>::empty().len() && #[trigger] Seq::<
                                    Entry<K, V>,
                                >::empty()[w].hash == e.hash && Seq::<Entry<K, V>>::empty()[w].key
                                    == e.key;
                        }
                    }
                    assert forall|p: (u64, K)|
                        #[trigger] m.contains_key(p) && (bucket_for(p.0, oc) < i || (bucket_for(p.0, oc)
                            == i && held_from(src, src.len() as int, p.0, p.1))) implies held_from(
                        new_table@[bucket_for(p.0, new_table@.len() as nat)]@,
                        0,
                        p.0,
                        p.1,
                    ) by {
                        if bucket_for(p.0, oc) == i {
                            let w = choose|w: int|
                                src.len() <= w < src.len() && #[trigger] src[w].hash == p.0 && src[w].key
                                    == p.1;
                        }
                    }
                }
            }
            Self::migrate_bucket(&mut new_table, bucket, Ghost(m), Ghost(oc), Ghost(i as int));
            proof {
                if lawful_eq::<K>() {
                    assert forall|p: (u64, K)|
                        #[trigger] m.contains_key(p) && (bucket_for(p.0, oc) < i + 1 || (bucket_for(
                            p.0,
                            oc,
                        ) == i + 1 && held_from(Seq::<Entry<K, V>>::empty(), 0, p.0, p.1)))
                        implies held_from(
                        new_table@[bucket_for(p.0, new_table@.len() as nat)]@,
                        0,
                        p.0,
                        p.1,
                    ) by {
                        if bucket_for(p.0, oc) == i {
                            let w = choose|j: int|
                                0 <= j < t0[bucket_for(p.0, t0.len() as nat)]@.len() && #[trigger] t0[bucket_for(
                                    p.0,
                                    t0.len() as nat,
                                )]@[j].hash == p.0 && t0[bucket_for(p.0, t0.len() as nat)]@[j].key == p.1;
                            assert(src[w].hash == p.0);
                            assert(held_from(src, 0, p.0, p.1));
                        } else if bucket_for(p.0, oc) == i + 1 {
                            let w = choose|w: int|
                                0 <= w < Seq::<Entry<K, V>>::empty().len() && #[trigger] Seq::<
                                    Entry<K, V>,
                                >::empty()[w].hash == p.0 && Seq::<Entry<K, V>>::empty()[w].key == p.1;
                        }
                    }
                }
            }
            i = i + 1;
        }
        proof {
            lemma_count_empty(old_table@);
        }
        self.table = new_table;
        self.capacity = new_capacity;
        proof {
            assert(crate::ring::is_power_of_two(new_capacity as nat)) by {
                assert((new_capacity as nat) / 2 == old_capacity as nat);
            }
            if lawful_eq::<K>() {
                let t = self.table@;
                assert forall|p: (u64, K)| #[trigger] m.contains_key(p) implies exists|j: int|
                    0 <= j < t[bucket_for(p.0, t.len() as nat)]@.len() && #[trigger] t[bucket_for(
                        p.0,
                        t.len() as nat,
                    )]@[j].hash == p.0 && t[bucket_for(p.0, t.len() as nat)]@[j].key == p.1 by {
                    assert(bucket_for(p.0, oc) < oc);
                    assert(held_from(t[bucket_for(p.0, t.len() as nat)]@, 0, p.0, p.1));
                }
            }
        }
    }

    /// Whether the map is loaded beyond three quarters of its bucket count.
    fn should_resize(&self) -> (b: bool)
        ensures
            b == overloaded(self.size as nat, self.capacity as nat),
    {
        (self.size as u128) * 4 > (self.capacity as u128) * 3
    }

    /// Insert a key-value pair, with the hash that the hasher gives the key.
    /// If the map is overloaded it first doubles its bucket count. Returns the
    /// value the key had, which the new value replaces.
    pub fn insert(&mut self, key: K, value: V) -> (r: Option<V>)
        requires
            old(self).wf(),
            old(self).entry_count() < usize::MAX,
        ensures
            final(self).wf(),
            final(self).capacity() == capacity_after_insert(
                old(self).entry_count(),
                old(self).capacity(),
            ),
            final(self).entry_count() == if r is Some {
                old(self).entry_count()
            } else {
                old(self).entry_count() + 1
            },
            lawful_eq::<K>() ==> exists|hash: u64|
                final(self)@ == old(self)@.insert((hash, key), value) && r == if old(
                    self,
                )@.contains_key((hash, key)) {
                    Some(old(self)@[(hash, key)])
                } else {
                    None
                },
    {
        let hash = hash_key(&key);
        if self.should_resize() && self.capacity <= usize::MAX / 2 {
            self.resize();
        }
        let ghost mid = self@;
        let r = self.insert_hashed(hash, key, value);
        proof {
            if lawful_eq::<K>() {
                assert(final_view_matches(mid, self@, hash, key, value, r));
            }
        }
        r
    }

    /// Remove a key, with the hash that the hasher gives it. Returns the
    /// removed value.
    pub fn remove(&mut self, key: &K) -> (r: Option<V>)
        requires
            old(self).wf(),
        ensures
            final(self).wf(),
            final(self).capacity() == old(self).capacity(),
            final(self).entry_count() + (if r is Some { 1nat } else { 0nat }) == old(
                self,
            ).entry_count(),
            lawful_eq::<K>() ==> exists|hash: u64|
                final(self)@ == old(self)@.remove((hash, *key)) && r == if old(self)@.contains_key(
                    (hash, *key),
                ) {
                    Some(old(self)@[(hash, *key)])
                } else {
                    None
                },
    {
        let hash = hash_key(key);
        let r = self.remove_hashed(hash, key);
        proof {
            if lawful_eq::<K>() {
                assert(final(self)@ == old(self)@.remove((hash, *key)) && r == if old(
                    self,
                )@.contains_key((hash, *key)) {
                    Some(old(self)@[(hash, *key)])
                } else {
                    None
                });
            }
        }
        r
    }

    /// Remove every entry; the number of buckets stays.
    pub fn clear(&mut self)
        requires
            old(self).wf(),
        ensures
            final(self).wf(),
            final(self).capacity() == old(self).capacity(),
            final(self)@ == Map::<(u64, K), V>::empty(),
    {
        self.table = Self::allocate_table(self.capacity);
        self.size = 0;
        proof {
            lemma_count_empty(self.table@);
        }
        self.model = Ghost(Map::empty());
    }
}

/// A lookup right after an insertion under the same hash finds the inserted
/// value, and the insertion leaves every other (hash, key) pair as it was.
pub proof fn law_lookup_after_insert<K, V>(m: Map<(u64, K), V>, hash: u64, key: K, value: V, other: (u64, K))
    requires
        other != (hash, key),
    ensures
        m.insert((hash, key), value).contains_key((hash, key)),
        m.insert((hash, key), value)[(hash, key)] == value,
        m.insert((hash, key), value).contains_key(other) == m.contains_key(other),
        m.contains_key(other) ==> m.insert((hash, key), value)[other] == m[other],
{
}

/// Removing a key that was just inserted under a fresh hash-key pair gives
/// the map back; a lookup after a removal finds nothing.
pub proof fn law_remove_undoes_fresh_insert<K, V>(m: Map<(u64, K), V>, hash: u64, key: K, value: V)
    requires
        !m.contains_key((hash, key)),
        m.dom().finite(),
    ensures
        m.insert((hash, key), value).remove((hash, key)) == m,
        !m.remove((hash, key)).contains_key((hash, key)),
        m.insert((hash, key), value).len() == m.len() + 1,
{
    assert(m.insert((hash, key), value).remove((hash, key)) =~= m);
}

/// The bucket count only grows, and stays a power of two.
pub proof fn law_capacity_grows_by_doubling(len: nat, capacity: usize)
    requires
        crate::ring::is_power_of_two(capacity as nat),
    ensures
        capacity_after_insert(len, capacity) >= capacity,
        crate::ring::is_power_of_two(capacity_after_insert(len, capacity)),
{
    assert((2 * (capacity as nat)) / 2 == capacity as nat);
}

impl<K: Hash + Eq + Clone, V: Clone> Clone for ConcurrentHashMap<K, V> {
    /// A map with the same bucket count whose buckets hold clones of this
    /// map's entries, in the same order.
    fn clone(&self) -> (r: Self)
        ensures
            r.capacity() == self.capacity(),
            r.entry_count() == self.entry_count(),
            self.wf() && copy_clones::<K>() && copy_clones::<V>() ==> r.wf() && r@ == self@,
            self.wf() && copy_clones::<K>() && lawful_eq::<K>() ==> {
                &&& r.wf()
                &&& r@.dom() == self@.dom()
                &&& forall|p: (u64, K)| #[trigger] self@.contains_key(p) ==> cloned(self@[p], r@[p])
            },
    {
        let mut table: Vec<Vec<Entry<K, V>>> = Vec::new();
        let mut i: usize = 0;
        while i < self.table.len()
            invariant
                i <= self.table@.len(),
                table@.len() == i,
                forall|k: int| 0 <= k < i ==> bucket_cloned((#[trigger] self.table@[k])@, table@[k]@),
            decreases self.table@.len() - i,
        {
            let src = &self.table[i];
            let mut dst: Vec<Entry<K, V>> = Vec::new();
            let mut j: usize = 0;
            while j < src.len()
                invariant
                    j <= src@.len(),
                    dst@.len() == j,
                    forall|k: int|
                        0 <= k < j ==> {
                            &&& (#[trigger] dst@[k]).hash == src@[k].hash
                            &&& cloned(src@[k].value, dst@[k].value)
                            &&& copy_clones::<K>() ==> dst@[k].key == src@[k].key
                        },
                decreases src@.len() - j,
            {
                let e = &src[j];
                let key = e.key.clone();
                let value = e.value.clone();
                proof {
                    if copy_clones::<K>() {
                        assert(cloned(e.key, key));
                    }
                }
                dst.push(Entry { key, value, hash: e.hash });
                j = j + 1;
            }
            table.push(dst);
            i = i + 1;
        }
        let ghost model = if copy_clones::<V>() {
            self.model@
        } else {
            table_model(table@, self.model@.dom())
        };
        let ghost t = table@;
        let r = ConcurrentHashMap { table, capacity: self.capacity, size: self.size, model: Ghost(model) };
        proof {
            assert forall|k: int| 0 <= k < t.len() implies (#[trigger] t[k])@.len() == self.table@[k]@.len() by {
                assert(bucket_cloned(self.table@[k]@, t[k]@));
            }
            lemma_count_same_lengths(t, self.table@);
            if self.wf() && copy_clones::<K>() && lawful_eq::<K>() {
                lemma_cloned_buckets_match(self.table@, t, self.model@);
                if copy_clones::<V>() {
                    assert(table_model(t, self.model@.dom()) =~= self.model@);
                }
            }
        }
        r
    }
}

} // verus!
