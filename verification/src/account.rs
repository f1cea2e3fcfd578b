//! Accounts, and how the snap protocol writes them.

use crate::error::{bad_response, bad_response_error, DownloadError, DownloadResult, RequestError};
use crate::hashing::{empty_root, empty_root_hash};
use crate::primitives::{B256, U256};
use crate::rlp::{
    decode_bytes, decode_header, decode_u256, decode_u64, rlp_header, rlp_string, rlp_u256, rlp_u64,
};
use vstd::prelude::*;

verus! {

/// An account as the database holds it.
#[derive(Clone, Copy, Debug, PartialEq, Eq)]
pub struct Account {
    /// The number of transactions sent from the account.
    pub nonce: u64,
    /// The balance of the account.
    pub balance: U256,
    /// The hash of the code of the account, where it has code.
    pub bytecode_hash: Option<B256>,
}

/// An account as the snap protocol sends it.
#[derive(Clone, Copy, Debug, PartialEq, Eq)]
pub struct SlimAccount {
    /// The number of transactions sent from the account.
    pub nonce: u64,
    /// The balance of the account.
    pub balance: U256,
    /// The root of the storage trie of the account.
    pub storage_root: B256,
    /// The hash of the code of the account, where it has code.
    pub bytecode_hash: Option<B256>,
}

/// The storage root that the field of a slim account stands for: an empty field stands for the
/// root of an empty trie, and any other holds the root itself.
pub open spec fn storage_root_of_field(field: Seq<u8>) -> Option<B256> {
    if field.len() == 0 {
        Some(empty_root())
    } else if field.len() == 32 {
        Some(B256::of_bytes(field))
    } else {
        None
    }
}

/// The code hash that the field of a slim account stands for: an empty field stands for an
/// account without code, and any other holds the hash itself.
pub open spec fn code_hash_of_field(field: Seq<u8>) -> Option<Option<B256>> {
    if field.len() == 0 {
        Some(None)
    } else if field.len() == 32 {
        Some(Some(B256::of_bytes(field)))
    } else {
        None
    }
}

/// The slim account with the given fields; `None` where a field has a length that it cannot
/// have.
pub open spec fn slim_account_of_fields(
    nonce: u64,
    balance: U256,
    storage_root: Seq<u8>,
    code_hash: Seq<u8>,
) -> Option<SlimAccount> {
    match (storage_root_of_field(storage_root), code_hash_of_field(code_hash)) {
        (Some(storage_root), Some(bytecode_hash)) => Some(
            SlimAccount { nonce, balance, storage_root, bytecode_hash },
        ),
        _ => None,
    }
}

/// The slim account that a body stands for: a list header, then the nonce, the balance, the
/// storage root and the code hash. `None` where the body cannot be read so.
pub open spec fn slim_account_of(body: Seq<u8>) -> Option<SlimAccount> {
    match rlp_header(body) {
        Some((true, _, fields)) => match rlp_u64(fields) {
            Some((nonce, fields)) => match rlp_u256(fields) {
                Some((balance, fields)) => match rlp_string(fields) {
                    Some((storage_root, fields)) => match rlp_string(fields) {
                        Some((code_hash, _)) => slim_account_of_fields(
                            nonce as u64,
                            U256::of_bytes(balance),
                            storage_root,
                            code_hash,
                        ),
                        None => None,
                    },
                    None => None,
                },
                None => None,
            },
            None => None,
        },
        _ => None,
    }
}

/// The storage value that the data of a slot stands for.
pub open spec fn storage_value_of(data: Seq<u8>) -> Option<U256> {
    match rlp_u256(data) {
        Some((value, _)) => Some(U256::of_bytes(value)),
        None => None,
    }
}

/// The result of a decoder: what was decoded, or the error for a bad answer.
pub open spec fn decoded<T>(value: Option<T>) -> DownloadResult<T> {
    match value {
        Some(value) => Ok(value),
        None => Err(bad_response()),
    }
}

/// Puts the fields of a slim account together.
pub fn slim_account_from_fields(
    nonce: u64,
    balance: U256,
    storage_root: &[u8],
    code_hash: &[u8],
) -> (r: DownloadResult<SlimAccount>)
    ensures
        r == decoded(slim_account_of_fields(nonce, balance, storage_root@, code_hash@)),
{
    let storage_root = if storage_root.len() == 0 {
        empty_root_hash()
    } else if storage_root.len() == 32 {
        B256::from_slice(storage_root)
    } else {
        return Err(bad_response_error());
    };
    let bytecode_hash = if code_hash.len() == 0 {
        None
    } else if code_hash.len() == 32 {
        Some(B256::from_slice(code_hash))
    } else {
        return Err(bad_response_error());
    };
    Ok(SlimAccount { nonce, balance, storage_root, bytecode_hash })
}

/// Decodes a slim account.
pub fn decode_slim_account(body: &[u8]) -> (r: DownloadResult<SlimAccount>)
    ensures
        r == decoded(slim_account_of(body@)),
{
    let fields = match decode_header(body) {
        Ok((true, _, fields)) => fields,
        _ => return Err(bad_response_error()),
    };
    let (nonce, fields) = match decode_u64(fields) {
        Ok(read) => read,
        Err(_) => return Err(bad_response_error()),
    };
    let (balance, fields) = match decode_u256(fields) {
        Ok(read) => read,
        Err(_) => return Err(bad_response_error()),
    };
    let (storage_root, fields) = match decode_bytes(fields) {
        Ok(read) => read,
        Err(_) => return Err(bad_response_error()),
    };
    let (code_hash, _) = match decode_bytes(fields) {
        Ok(read) => read,
        Err(_) => return Err(bad_response_error()),
    };
    proof {
        balance.lemma_of_own_bytes();
    }
    slim_account_from_fields(nonce, balance, storage_root.as_slice(), code_hash.as_slice())
}

/// Decodes the value of a storage slot.
pub fn decode_storage_value(data: &[u8]) -> (r: DownloadResult<U256>)
    ensures
        r == decoded(storage_value_of(data@)),
{
    match decode_u256(data) {
        Ok((value, _)) => {
            proof {
                value.lemma_of_own_bytes();
            }
            Ok(value)
        },
        Err(_) => Err(bad_response_error()),
    }
}

/// A body whose items can be read one after the other is a slim account exactly when its storage
/// root and its code hash are empty or have 32 bytes. The account has the nonce and the balance
/// of the body; an empty root stands for the empty trie, and an empty code hash for no code.
pub proof fn law_slim_accounts_are_read_field_by_field(
    body: Seq<u8>,
    len: nat,
    fields: Seq<u8>,
    nonce: nat,
    after_nonce: Seq<u8>,
    balance: Seq<u8>,
    after_balance: Seq<u8>,
    root: Seq<u8>,
    after_root: Seq<u8>,
    code: Seq<u8>,
    after_code: Seq<u8>,
)
    requires
        rlp_header(body) == Some((true, len, fields)),
        rlp_u64(fields) == Some((nonce, after_nonce)),
        rlp_u256(after_nonce) == Some((balance, after_balance)),
        rlp_string(after_balance) == Some((root, after_root)),
        rlp_string(after_root) == Some((code, after_code)),
    ensures
        slim_account_of(body) is Some <==> (root.len() == 0 || root.len() == 32) && (code.len() == 0
            || code.len() == 32),
        slim_account_of(body) matches Some(slim) ==> {
            &&& slim.nonce == nonce as u64
            &&& slim.balance == U256::of_bytes(balance)
            &&& root.len() == 0 ==> slim.storage_root == empty_root()
            &&& root.len() == 32 ==> slim.storage_root == B256::of_bytes(root)
            &&& code.len() == 0 ==> slim.bytecode_hash is None
            &&& code.len() == 32 ==> slim.bytecode_hash == Some(B256::of_bytes(code))
        },
{
}

/// A body that is no list, or lacks an item, is no slim account.
pub proof fn law_other_bodies_are_no_accounts(body: Seq<u8>)
    requires
        !(rlp_header(body) matches Some((true, _, fields)) && rlp_u64(fields) matches Some(
            (_, after_nonce),
        ) && rlp_u256(after_nonce) matches Some((_, after_balance)) && rlp_string(
            after_balance,
        ) matches Some((_, after_root)) && rlp_string(after_root) is Some),
    ensures
        slim_account_of(body) is None,
{
}

/// The fields of a slim account are kept as they are given, where the root and the code hash are
/// empty or have 32 bytes; otherwise there is no account.
pub proof fn law_fields_are_kept(nonce: u64, balance: U256, root: Seq<u8>, code: Seq<u8>)
    ensures
        ({
            let account = slim_account_of_fields(nonce, balance, root, code);
            &&& account is Some <==> (root.len() == 0 || root.len() == 32) && (code.len() == 0
                || code.len() == 32)
            &&& account matches Some(slim) ==> {
                &&& slim.nonce == nonce
                &&& slim.balance == balance
                &&& root.len() == 0 ==> slim.storage_root == empty_root()
                &&& root.len() == 32 ==> slim.storage_root == B256::of_bytes(root)
                &&& code.len() == 0 ==> slim.bytecode_hash is None
                &&& code.len() == 32 ==> slim.bytecode_hash == Some(B256::of_bytes(code))
            }
        }),
{
}

/// A storage value is the integer at the front of its data, and cannot be read without one.
pub proof fn law_storage_values_are_integers(data: Seq<u8>)
    ensures
        match rlp_u256(data) {
            Some((value, _)) => storage_value_of(data) == Some(U256::of_bytes(value)),
            None => storage_value_of(data) is None,
        },
{
}

/// What can be decoded is given out as it is, and what cannot is a bad answer.
pub proof fn law_decoding_gives_the_value_or_a_bad_answer<T>(value: Option<T>)
    ensures
        match value {
            Some(value) => decoded(Some(value)) == Ok::<T, DownloadError>(value),
            None => decoded(None::<T>) == Err::<T, _>(
                DownloadError::RequestError(RequestError::BadResponse),
            ),
        },
{
}

} // verus!
