//! Fixed-width words: 32-byte hashes and 256-bit integers.

use crate::rlp::big_endian;
use vstd::prelude::*;

verus! {

/// A 32-byte hash.
///
/// Two hashes are equal when their bytes are, and they are ordered byte by byte from the left.
#[derive(Clone, Copy, Debug, Eq)]
pub struct B256(pub [u8; 32]);

/// A 256-bit unsigned integer, as its 32 big-endian bytes.
#[derive(Clone, Copy, Debug, PartialEq, Eq)]
pub struct U256(pub [u8; 32]);

impl View for B256 {
    type V = Seq<u8>;

    open spec fn view(&self) -> Seq<u8> {
        self.0@
    }
}

impl View for U256 {
    type V = Seq<u8>;

    open spec fn view(&self) -> Seq<u8> {
        self.0@
    }
}

/// The byte strings differ first at a position where `a` holds the smaller byte.
pub open spec fn bytes_precede(a: Seq<u8>, b: Seq<u8>) -> bool {
    exists|i: int|
        0 <= i < a.len() && i < b.len() && #[trigger] a[i] < b[i] && a.take(i) == b.take(i)
}

impl PartialEq for B256 {
    fn eq(&self, other: &Self) -> (r: bool) {
        let mut i: usize = 0;
        while i < 32
            invariant
                i <= 32,
                forall|j: int| 0 <= j < i ==> self.0[j] == other.0[j],
            decreases 32 - i,
        {
            if self.0[i] != other.0[i] {
                return false;
            }
            i += 1;
        }
        proof {
            assert(self@ =~= other@);
            self.lemma_determined_by_bytes(*other);
        }
        true
    }
}

impl vstd::std_specs::cmp::PartialEqSpecImpl for B256 {
    open spec fn obeys_eq_spec() -> bool {
        true
    }

    open spec fn eq_spec(&self, other: &Self) -> bool {
        *self == *other
    }
}

impl B256 {
    /// The hash that holds the given 32 bytes.
    pub open spec fn of_bytes(bytes: Seq<u8>) -> B256 {
        choose|hash: B256| hash@ == bytes
    }

    /// The hash of 32 equal bytes.
    pub open spec fn repeated(byte: u8) -> B256 {
        B256::of_bytes(Seq::new(32, |i: int| byte))
    }

    /// A hash is determined by its bytes.
    pub proof fn lemma_determined_by_bytes(self, other: B256)
        requires
            self@ == other@,
        ensures
            self == other,
    {
        assert forall|i: int| 0 <= i < 32 implies self.0[i] == other.0[i] by {
            assert(self.0@[i] == other.0@[i]);
        }
        assert(self.0 =~= other.0);
    }

    /// A hash is the one that holds its bytes.
    pub proof fn lemma_of_own_bytes(self)
        ensures
            B256::of_bytes(self@) == self,
    {
        B256::of_bytes(self@).lemma_determined_by_bytes(self);
    }

    /// The hash of 32 equal bytes.
    pub fn repeat_byte(byte: u8) -> (r: B256)
        ensures
            r@ == Seq::new(32, |i: int| byte),
            r == B256::repeated(byte),
    {
        let r = B256([byte; 32]);
        assert(r@ =~= Seq::new(32, |i: int| byte));
        proof {
            r.lemma_of_own_bytes();
        }
        r
    }

    /// The hash of 32 zero bytes, the least of all hashes.
    pub fn zero() -> (r: B256)
        ensures
            r@ == Seq::new(32, |i: int| 0u8),
            r == B256::repeated(0),
    {
        B256::repeat_byte(0)
    }

    /// The hash that holds the bytes of a slice of 32.
    pub fn from_slice(src: &[u8]) -> (r: B256)
        requires
            src@.len() == 32,
        ensures
            r@ == src@,
            r == B256::of_bytes(src@),
    {
        let mut bytes: [u8; 32] = [0; 32];
        let mut i: usize = 0;
        while i < 32
            invariant
                i <= 32,
                src@.len() == 32,
                forall|j: int| 0 <= j < i ==> bytes@[j] == src@[j],
            decreases 32 - i,
        {
            bytes[i] = src[i];
            i += 1;
        }
        let r = B256(bytes);
        assert(r@ =~= src@);
        proof {
            r.lemma_of_own_bytes();
        }
        r
    }

    /// Whether this hash comes before the other in the order of hashes.
    pub fn precedes(&self, other: &B256) -> (r: bool)
        ensures
            r == bytes_precede(self@, other@),
    {
        let mut i: usize = 0;
        while i < 32
            invariant
                i <= 32,
                forall|j: int| 0 <= j < i ==> self@[j] == other@[j],
            decreases 32 - i,
        {
            if self.0[i] != other.0[i] {
                proof {
                    let at = i as int;
                    assert(self@[at] == self.0[at] && other@[at] == other.0[at]);
                    assert(self@.take(at) =~= other@.take(at));
                    if bytes_precede(self@, other@) {
                        let k = choose|k: int|
                            0 <= k < self@.len() && k < other@.len() && #[trigger] self@[k]
                                < other@[k] && self@.take(k) == other@.take(k);
                        if at < k {
                            assert(self@.take(k)[at] == other@.take(k)[at]);
                        }
                        assert(k == at);
                    }
                }
                return self.0[i] < other.0[i];
            }
            i += 1;
        }
        false
    }
}

impl U256 {
    /// The integer whose big-endian bytes are the given 32.
    pub open spec fn of_bytes(bytes: Seq<u8>) -> U256 {
        choose|value: U256| value@ == bytes
    }

    /// An integer is the one that holds its bytes.
    pub proof fn lemma_of_own_bytes(self)
        ensures
            U256::of_bytes(self@) == self,
    {
        let other = U256::of_bytes(self@);
        assert forall|i: int| 0 <= i < 32 implies self.0[i] == other.0[i] by {
            assert(self.0@[i] == other.0@[i]);
        }
        assert(self.0 =~= other.0);
    }
}

/// No hash comes before itself.
pub proof fn law_order_is_irreflexive(a: B256)
    ensures
        !bytes_precede(a@, a@),
{
}

/// Of two different hashes exactly one comes before the other.
pub proof fn law_order_is_total(a: B256, b: B256)
    requires
        a != b,
    ensures
        bytes_precede(a@, b@) != bytes_precede(b@, a@),
{
    if forall|i: int| 0 <= i < 32 ==> a@[i] == b@[i] {
        assert(a@ =~= b@);
        a.lemma_determined_by_bytes(b);
    }
    let i = choose|i: int| 0 <= i < 32 && a@[i] != b@[i];
    let first = lemma_first_difference(a@, b@, i);
    assert(a@.take(first) =~= b@.take(first));
    assert(b@.take(first) =~= a@.take(first));
    if a@[first] < b@[first] {
        assert(bytes_precede(a@, b@));
    } else {
        assert(b@[first] < a@[first]);
        assert(bytes_precede(b@, a@));
    }
    if bytes_precede(a@, b@) && bytes_precede(b@, a@) {
        let j = choose|j: int|
            0 <= j < a@.len() && j < b@.len() && #[trigger] a@[j] < b@[j] && a@.take(j) == b@.take(
                j,
            );
        let k = choose|k: int|
            0 <= k < b@.len() && k < a@.len() && #[trigger] b@[k] < a@[k] && b@.take(k) == a@.take(
                k,
            );
        if j < k {
            assert(b@.take(k)[j] == a@.take(k)[j]);
        } else if k < j {
            assert(b@.take(j)[k] == a@.take(j)[k]);
        }
    }
}

/// Below a position where two strings differ there is a first one.
proof fn lemma_first_difference(a: Seq<u8>, b: Seq<u8>, at: int) -> (first: int)
    requires
        0 <= at < a.len(),
        at < b.len(),
        a[at] != b[at],
    ensures
        0 <= first <= at,
        a[first] != b[first],
        forall|j: int| 0 <= j < first ==> a[j] == b[j],
    decreases at,
{
    if exists|j: int| 0 <= j < at && a[j] != b[j] {
        let j = choose|j: int| 0 <= j < at && a[j] != b[j];
        lemma_first_difference(a, b, j)
    } else {
        at
    }
}

/// Hashes are ordered as the numbers that their bytes stand for, and are equal where these are.
pub proof fn law_order_is_that_of_numbers(a: B256, b: B256)
    ensures
        bytes_precede(a@, b@) <==> big_endian(a@) < big_endian(b@),
        a == b <==> big_endian(a@) == big_endian(b@),
{
    lemma_order_of_numbers(a@, b@);
    if a@ == b@ {
        a.lemma_determined_by_bytes(b);
    }
}

/// Strings of one length are ordered as the numbers that they stand for.
proof fn lemma_order_of_numbers(a: Seq<u8>, b: Seq<u8>)
    requires
        a.len() == b.len(),
    ensures
        bytes_precede(a, b) <==> big_endian(a) < big_endian(b),
        a == b <==> big_endian(a) == big_endian(b),
    decreases a.len(),
{
    if a.len() == 0 {
        assert(a =~= b);
    } else {
        let (front_a, front_b) = (a.drop_last(), b.drop_last());
        let last = a.len() - 1;
        lemma_order_of_numbers(front_a, front_b);
        assert(a =~= front_a.push(a[last]));
        assert(b =~= front_b.push(b[last]));
        if bytes_precede(a, b) {
            let i = choose|i: int|
                0 <= i < a.len() && i < b.len() && #[trigger] a[i] < b[i] && a.take(i) == b.take(i);
            if i < last {
                assert(front_a.take(i) =~= a.take(i));
                assert(front_b.take(i) =~= b.take(i));
                assert(front_a[i] < front_b[i]);
                assert(bytes_precede(front_a, front_b));
            } else {
                assert(a.take(last) =~= front_a);
                assert(b.take(last) =~= front_b);
            }
        }
        if bytes_precede(front_a, front_b) {
            let i = choose|i: int|
                0 <= i < front_a.len() && i < front_b.len() && #[trigger] front_a[i] < front_b[i]
                    && front_a.take(i) == front_b.take(i);
            assert(a.take(i) =~= front_a.take(i));
            assert(b.take(i) =~= front_b.take(i));
            assert(a[i] < b[i]);
            assert(bytes_precede(a, b));
        }
        if front_a == front_b && a[last] < b[last] {
            assert(a.take(last) =~= front_a);
            assert(b.take(last) =~= front_b);
            assert(bytes_precede(a, b));
        }
    }
}

} // verus!
