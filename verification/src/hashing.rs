//! The hash function and the constants of the state trie.

use crate::primitives::B256;
use vstd::prelude::*;

verus! {

/// The 32 bytes that `alloy_primitives::keccak256` returns for the given data.
pub uninterp spec fn keccak256_of(data: Seq<u8>) -> Seq<u8>;

/// Calls `alloy_primitives::keccak256`.
///
/// Trusted: the digest is a function of the data alone. What that function computes is left
/// unsaid.
#[verifier::external_body]
pub(crate) fn keccak256(data: &[u8]) -> (r: B256)
    ensures
        r@ == keccak256_of(data@),
{
    B256(alloy_primitives::keccak256(data).0)
}

/// The root hash of a trie without entries.
pub open spec fn empty_root_bytes() -> Seq<u8> {
    seq![
        0x56u8, 0xe8u8, 0x1fu8, 0x17u8, 0x1bu8, 0xccu8, 0x55u8, 0xa6u8,
        0xffu8, 0x83u8, 0x45u8, 0xe6u8, 0x92u8, 0xc0u8, 0xf8u8, 0x6eu8,
        0x5bu8, 0x48u8, 0xe0u8, 0x1bu8, 0x99u8, 0x6cu8, 0xadu8, 0xc0u8,
        0x01u8, 0x62u8, 0x2fu8, 0xb5u8, 0xe3u8, 0x63u8, 0xb4u8, 0x21u8,
    ]
}

/// The root hash of a trie without entries.
pub open spec fn empty_root() -> B256 {
    B256::of_bytes(empty_root_bytes())
}

/// Reads the constant `alloy_consensus::EMPTY_ROOT_HASH`.
///
/// Trusted: the bytes of the constant, as its source writes them.
#[verifier::external_body]
fn empty_root_constant() -> (r: B256)
    ensures
        r@ == empty_root_bytes(),
{
    B256(alloy_consensus::EMPTY_ROOT_HASH.0)
}

/// The root hash of a trie without entries.
pub fn empty_root_hash() -> (r: B256)
    ensures
        r == empty_root(),
{
    let root = empty_root_constant();
    proof {
        root.lemma_of_own_bytes();
    }
    root
}

} // verus!
