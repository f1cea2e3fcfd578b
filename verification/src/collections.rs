//! Collections of hashes: a list without repetitions, a set, and a map from hashes to hashes.

use crate::primitives::B256;
use std::collections::HashMap;
use vstd::prelude::*;

verus! {

/// A sequence lists a set: it holds each element once, and nothing else.
pub open spec fn lists(listing: Seq<B256>, set: Set<B256>) -> bool {
    listing.no_duplicates() && listing.to_set() == set
}

/// The bucket that a hash falls into: the number that its first eight bytes stand for.
spec fn bucket_of(hash: B256) -> int {
    hash@[0] * 0x100_0000_0000_0000 + hash@[1] * 0x1_0000_0000_0000 + hash@[2] * 0x100_0000_0000
        + hash@[3] * 0x1_0000_0000 + hash@[4] * 0x100_0000 + hash@[5] * 0x1_0000 + hash@[6] * 0x100
        + hash@[7]
}

/// Computes the bucket that a hash falls into.
fn bucket(hash: &B256) -> (r: u64)
    ensures
        r == bucket_of(*hash),
{
    hash.0[0] as u64 * 0x100_0000_0000_0000 + hash.0[1] as u64 * 0x1_0000_0000_0000
        + hash.0[2] as u64 * 0x100_0000_0000 + hash.0[3] as u64 * 0x1_0000_0000
        + hash.0[4] as u64 * 0x100_0000 + hash.0[5] as u64 * 0x1_0000 + hash.0[6] as u64 * 0x100
        + hash.0[7] as u64
}

/// Hashes in the order in which they were first added, each once.
#[derive(Debug)]
pub struct B256Index {
    /// The hashes.
    keys: Vec<B256>,
    /// The positions of the hashes, by bucket.
    buckets: HashMap<u64, Vec<usize>>,
}

impl View for B256Index {
    type V = Seq<B256>;

    closed spec fn view(&self) -> Seq<B256> {
        self.keys@
    }
}

impl B256Index {
    #[verifier::type_invariant]
    spec fn wf(self) -> bool {
        &&& self.keys@.no_duplicates()
        &&& forall|b: u64, j: int|
            self.buckets@.contains_key(b) && 0 <= j < self.buckets@[b]@.len()
                ==> #[trigger] self.buckets@[b]@[j] < self.keys@.len()
        &&& forall|i: int|
            0 <= i < self.keys@.len() ==> self.filed(#[trigger] self.keys@[i], i)
    }

    /// The position stands in the bucket of the hash.
    spec fn filed(self, key: B256, i: int) -> bool {
        let b = bucket_of(key) as u64;
        self.buckets@.contains_key(b) && exists|j: int|
            0 <= j < self.buckets@[b]@.len() && #[trigger] self.buckets@[b]@[j] == i
    }

    /// A list without hashes.
    pub fn new() -> (r: B256Index)
        ensures
            r@ == Seq::<B256>::empty(),
    {
        B256Index { keys: Vec::new(), buckets: HashMap::new() }
    }

    /// The number of hashes.
    pub fn len(&self) -> (r: usize)
        ensures
            r == self@.len(),
    {
        self.keys.len()
    }

    /// The hashes, in order.
    pub fn to_vec(&self) -> (r: Vec<B256>)
        ensures
            r@ == self@,
            r@.no_duplicates(),
    {
        proof {
            use_type_invariant(self);
        }
        let mut listing: Vec<B256> = Vec::new();
        let mut i: usize = 0;
        while i < self.keys.len()
            invariant
                i <= self.keys@.len(),
                listing@ == self.keys@.take(i as int),
            decreases self.keys@.len() - i,
        {
            listing.push(self.keys[i]);
            i += 1;
            assert(self.keys@.take(i as int) =~= self.keys@.take(i - 1).push(self.keys@[i - 1]));
        }
        assert(self.keys@.take(i as int) =~= self.keys@);
        listing
    }

    /// The position of a hash, where it was added.
    pub fn position(&self, key: &B256) -> (r: Option<usize>)
        ensures
            match r {
                Some(i) => i < self@.len() && self@[i as int] == *key,
                None => !self@.contains(*key),
            },
            self@.no_duplicates(),
    {
        proof {
            use_type_invariant(self);
        }
        let b = bucket(key);
        match self.buckets.get(&b) {
            None => {
                assert forall|i: int| 0 <= i < self.keys@.len() implies self.keys@[i] != *key by {
                    assert(self.filed(self.keys@[i], i));
                }
                None
            },
            Some(positions) => {
                let mut j: usize = 0;
                while j < positions.len()
                    invariant
                        j <= positions@.len(),
                        self.wf(),
                        self.buckets@.contains_key(b),
                        self.buckets@[b] == *positions,
                        forall|k: int|
                            0 <= k < j ==> self.keys@[#[trigger] positions@[k] as int] != *key,
                    decreases positions@.len() - j,
                {
                    assert(self.buckets@[b]@[j as int] < self.keys@.len());
                    let i = positions[j];
                    if self.keys[i] == *key {
                        return Some(i);
                    }
                    j += 1;
                }
                assert forall|i: int| 0 <= i < self.keys@.len() implies self.keys@[i] != *key by {
                    assert(self.filed(self.keys@[i], i));
                }
                None
            },
        }
    }

    /// Adds a hash, and returns where it stands.
    pub fn insert(&mut self, key: B256) -> (r: usize)
        ensures
            if old(self)@.contains(key) {
                final(self)@ == old(self)@
            } else {
                final(self)@ == old(self)@.push(key)
            },
            r < final(self)@.len(),
            final(self)@[r as int] == key,
            final(self)@.no_duplicates(),
    {
        if let Some(i) = self.position(&key) {
            return i;
        }
        let mut taken = B256Index::new();
        core::mem::swap(self, &mut taken);
        proof {
            use_type_invariant(&taken);
        }
        let ghost before = taken;
        let B256Index { mut keys, mut buckets } = taken;
        let at = keys.len();
        let b = bucket(&key);
        let mut positions: Vec<usize> = match buckets.remove(&b) {
            Some(positions) => positions,
            None => Vec::new(),
        };
        let ghost filed_before = positions@;
        positions.push(at);
        buckets.insert(b, positions);
        keys.push(key);
        proof {
            assert(buckets@[b]@ =~= filed_before.push(at));
            assert forall|c: u64, j: int|
                buckets@.contains_key(c) && 0 <= j < buckets@[c]@.len() implies
                #[trigger] buckets@[c]@[j] < keys@.len() by {
                if c != b {
                    assert(before.buckets@[c]@[j] < before.keys@.len());
                } else if j < filed_before.len() {
                    assert(before.buckets@[b]@[j] < before.keys@.len());
                }
            }
            assert forall|i: int| 0 <= i < keys@.len() implies ({
                let c = bucket_of(#[trigger] keys@[i]) as u64;
                buckets@.contains_key(c) && exists|j: int|
                    0 <= j < buckets@[c]@.len() && #[trigger] buckets@[c]@[j] == i
            }) by {
                let c = bucket_of(keys@[i]) as u64;
                if i == at {
                    assert(buckets@[b]@[filed_before.len() as int] == i);
                } else {
                    assert(before.filed(before.keys@[i], i));
                    let j = choose|j: int|
                        0 <= j < before.buckets@[c]@.len()
                            && #[trigger] before.buckets@[c]@[j] == i;
                    assert(buckets@[c]@[j] == i);
                }
            }
        }
        *self = B256Index { keys, buckets };
        at
    }
}

/// A set of hashes.
#[derive(Debug)]
pub struct B256Set {
    /// The hashes.
    keys: B256Index,
}

impl View for B256Set {
    type V = Set<B256>;

    closed spec fn view(&self) -> Set<B256> {
        self.keys@.to_set()
    }
}

impl B256Set {
    /// The set without hashes.
    pub fn new() -> (r: B256Set)
        ensures
            r@ == Set::<B256>::empty(),
    {
        B256Set { keys: B256Index::new() }
    }

    /// Whether the set has no hashes.
    pub fn is_empty(&self) -> (r: bool)
        ensures
            r == (self@ == Set::<B256>::empty()),
    {
        let n = self.keys.len();
        proof {
            if n == 0 {
                assert(self@ =~= Set::<B256>::empty());
            } else {
                assert(self.keys@.contains(self.keys@[0]));
                assert(self@.contains(self.keys@[0]));
            }
        }
        n == 0
    }

    /// Whether the set has the hash.
    pub fn contains(&self, key: &B256) -> (r: bool)
        ensures
            r == self@.contains(*key),
    {
        match self.keys.position(key) {
            Some(_) => true,
            None => false,
        }
    }

    /// Adds a hash.
    pub fn insert(&mut self, key: B256)
        ensures
            final(self)@ == old(self)@.insert(key),
    {
        let ghost before = self.keys@;
        let at = self.keys.insert(key);
        proof {
            assert forall|k: B256|
                self@.contains(k) == #[trigger] old(self)@.insert(key).contains(k) by {
                lemma_inserted(before, self.keys@, key, at as int, k);
            }
            assert(self@ =~= old(self)@.insert(key));
        }
    }

    /// The hashes of the set, each once, in an order that is left open.
    pub fn to_vec(&self) -> (r: Vec<B256>)
        ensures
            lists(r@, self@),
    {
        self.keys.to_vec()
    }
}

/// What a list holds once a hash was added.
proof fn lemma_inserted(before: Seq<B256>, after: Seq<B256>, key: B256, at: int, k: B256)
    requires
        after == if before.contains(key) {
            before
        } else {
            before.push(key)
        },
        0 <= at < after.len(),
        after[at] == key,
    ensures
        after.contains(k) == (before.contains(k) || k == key),
{
    if before.contains(k) {
        let i = before.index_of(k);
        assert(after[i] == k);
    }
}

/// A map from hashes to hashes.
#[derive(Debug)]
pub struct B256Map {
    /// The keys.
    keys: B256Index,
    /// The values, in the order of the keys.
    values: Vec<B256>,
}

impl View for B256Map {
    type V = Map<B256, B256>;

    closed spec fn view(&self) -> Map<B256, B256> {
        Map::new(
            |key: B256| self.keys@.contains(key),
            |key: B256| self.values@[self.keys@.index_of(key)],
        )
    }
}

impl B256Map {
    #[verifier::type_invariant]
    spec fn wf(self) -> bool {
        self.values@.len() == self.keys@.len()
    }

    /// The map without entries.
    pub fn new() -> (r: B256Map)
        ensures
            r@ == Map::<B256, B256>::empty(),
    {
        let r = B256Map { keys: B256Index::new(), values: Vec::new() };
        assert(r@ =~= Map::<B256, B256>::empty());
        r
    }

    /// Whether the map has no entries.
    pub fn is_empty(&self) -> (r: bool)
        ensures
            r == (self@.dom() == Set::<B256>::empty()),
    {
        let n = self.keys.len();
        proof {
            if n == 0 {
                assert(self@.dom() =~= Set::<B256>::empty());
            } else {
                assert(self.keys@.contains(self.keys@[0]));
                assert(self@.dom().contains(self.keys@[0]));
            }
        }
        n == 0
    }

    /// The value of a key.
    pub fn get(&self, key: &B256) -> (r: Option<B256>)
        ensures
            r == (if self@.contains_key(*key) {
                Some(self@[*key])
            } else {
                None
            }),
    {
        proof {
            use_type_invariant(self);
        }
        match self.keys.position(key) {
            Some(i) => {
                assert(self.keys@.index_of(*key) == i);
                Some(self.values[i])
            },
            None => None,
        }
    }

    /// Gives a key a value, in place of the one that it had.
    pub fn insert(&mut self, key: B256, value: B256)
        ensures
            final(self)@ == old(self)@.insert(key, value),
    {
        let mut taken = B256Map::new();
        core::mem::swap(self, &mut taken);
        proof {
            use_type_invariant(&taken);
        }
        let ghost before = taken;
        let B256Map { mut keys, mut values } = taken;
        let n = keys.len();
        let at = keys.insert(key);
        if keys.len() > n {
            values.push(value);
        } else {
            values[at] = value;
        }
        *self = B256Map { keys, values };
        proof {
            assert forall|k: B256|
                self@.contains_key(k) == #[trigger] before@.insert(key, value).contains_key(k) by {
                lemma_inserted(before.keys@, self.keys@, key, at as int, k);
            }
            assert forall|k: B256| #[trigger] self@.contains_key(k) implies
                self@[k] == before@.insert(key, value)[k] by {
                lemma_inserted(before.keys@, self.keys@, key, at as int, k);
                let i = self.keys@.index_of(k);
                assert(self.keys@[i] == k);
                if k != key {
                    let j = before.keys@.index_of(k);
                    assert(before.keys@[j] == k);
                    assert(self.keys@[j] == k);
                    assert(i == j);
                } else {
                    assert(i == at);
                }
            }
            assert(self@ =~= before@.insert(key, value));
        }
    }

    /// The keys of the map, each once, in an order that is left open.
    pub fn keys(&self) -> (r: Vec<B256>)
        ensures
            lists(r@, self@.dom()),
    {
        let r = self.keys.to_vec();
        assert(r@.to_set() =~= self@.dom());
        r
    }
}

} // verus!
