//! What a snap downloader hands on.

use crate::account::Account;
use crate::collections::{B256Map, B256Set};
use crate::primitives::{B256, U256};
use vstd::prelude::*;

verus! {

/// A batch of snap sync data ready to be written to the database.
#[derive(Debug)]
pub enum SnapBatch {
    /// Batch of accounts with their hashes and storage roots.
    Accounts {
        /// Account data: (account hash, account, storage root).
        accounts: Vec<(B256, Account, B256)>,
        /// Whether there are more accounts to download in this range.
        has_more: bool,
    },
    /// Batch of storage slots for accounts.
    Storage {
        /// Storage data: (account hash, storage root, [(slot hash, slot value)]).
        storage: Vec<(B256, B256, Vec<(B256, U256)>)>,
        /// Accounts with complete storage downloaded.
        accounts_complete: B256Set,
        /// Accounts with partial storage (account hash to last slot hash).
        accounts_partial: B256Map,
    },
    /// Batch of bytecode.
    Bytecode {
        /// Bytecode data: (code hash, bytecode).
        codes: Vec<(B256, Vec<u8>)>,
    },
}

/// Verified account range data.
#[derive(Debug)]
pub struct AccountRangeData {
    /// Account data: (hash, account, storage root).
    pub accounts: Vec<(B256, Account, B256)>,
    /// Whether there are more accounts after this range.
    pub has_more: bool,
}

/// Verified storage range data.
#[derive(Debug)]
pub struct StorageRangeData {
    /// Account hash this storage belongs to.
    pub account_hash: B256,
    /// Storage root for verification.
    pub storage_root: B256,
    /// Storage slots: (slot hash, slot value).
    pub slots: Vec<(B256, U256)>,
    /// Whether this account's storage is complete.
    pub is_complete: bool,
}

/// Verified bytecode data.
#[derive(Debug)]
pub struct ByteCodeData {
    /// Code hash.
    pub hash: B256,
    /// Bytecode.
    pub code: Vec<u8>,
}

/// The model of an [`AccountRangeData`].
#[verifier::ext_equal]
pub struct AccountRange {
    pub accounts: Seq<(B256, Account, B256)>,
    pub has_more: bool,
}

/// The model of a [`StorageRangeData`].
#[verifier::ext_equal]
pub struct StorageRange {
    pub account_hash: B256,
    pub storage_root: B256,
    pub slots: Seq<(B256, U256)>,
    pub is_complete: bool,
}

/// The model of a [`SnapBatch`].
#[verifier::ext_equal]
pub enum SnapBatchView {
    Accounts { accounts: Seq<(B256, Account, B256)>, has_more: bool },
    Storage {
        storage: Seq<(B256, B256, Seq<(B256, U256)>)>,
        accounts_complete: Set<B256>,
        accounts_partial: Map<B256, B256>,
    },
    Bytecode { codes: Seq<(B256, Seq<u8>)> },
}

/// The model of the storage data in a batch.
pub open spec fn storage_batch_view(storage: Seq<(B256, B256, Vec<(B256, U256)>)>) -> Seq<
    (B256, B256, Seq<(B256, U256)>),
> {
    storage.map_values(|entry: (B256, B256, Vec<(B256, U256)>)| (entry.0, entry.1, entry.2@))
}

/// The model of the bytecode data in a batch.
pub open spec fn bytecode_batch_view(codes: Seq<(B256, Vec<u8>)>) -> Seq<(B256, Seq<u8>)> {
    codes.map_values(|entry: (B256, Vec<u8>)| (entry.0, entry.1@))
}

impl View for AccountRangeData {
    type V = AccountRange;

    open spec fn view(&self) -> AccountRange {
        AccountRange { accounts: self.accounts@, has_more: self.has_more }
    }
}

impl View for StorageRangeData {
    type V = StorageRange;

    open spec fn view(&self) -> StorageRange {
        StorageRange {
            account_hash: self.account_hash,
            storage_root: self.storage_root,
            slots: self.slots@,
            is_complete: self.is_complete,
        }
    }
}

impl View for ByteCodeData {
    type V = (B256, Seq<u8>);

    open spec fn view(&self) -> (B256, Seq<u8>) {
        (self.hash, self.code@)
    }
}

impl View for SnapBatch {
    type V = SnapBatchView;

    open spec fn view(&self) -> SnapBatchView {
        match self {
            SnapBatch::Accounts { accounts, has_more } => SnapBatchView::Accounts {
                accounts: accounts@,
                has_more: *has_more,
            },
            SnapBatch::Storage { storage, accounts_complete, accounts_partial } => {
                SnapBatchView::Storage {
                    storage: storage_batch_view(storage@),
                    accounts_complete: accounts_complete@,
                    accounts_partial: accounts_partial@,
                }
            },
            SnapBatch::Bytecode { codes } => SnapBatchView::Bytecode {
                codes: bytecode_batch_view(codes@),
            },
        }
    }
}

/// A batch shows all that it holds: every entry, in order.
pub proof fn law_batches_show_what_they_hold(batch: SnapBatch)
    ensures
        match batch {
            SnapBatch::Accounts { accounts, has_more } => {
                batch@ == SnapBatchView::Accounts { accounts: accounts@, has_more }
            },
            SnapBatch::Storage { storage, accounts_complete, accounts_partial } => {
                &&& batch@ is Storage
                &&& batch@->accounts_complete == accounts_complete@
                &&& batch@->accounts_partial == accounts_partial@
                &&& batch@->storage.len() == storage@.len()
                &&& forall|i: int|
                    0 <= i < storage@.len() ==> #[trigger] batch@->storage[i] == (
                        storage@[i].0,
                        storage@[i].1,
                        storage@[i].2@,
                    )
            },
            SnapBatch::Bytecode { codes } => {
                &&& batch@ is Bytecode
                &&& batch@->codes.len() == codes@.len()
                &&& forall|i: int|
                    0 <= i < codes@.len() ==> #[trigger] batch@->codes[i] == (
                        codes@[i].0,
                        codes@[i].1@,
                    )
            },
        },
{
}

/// Buffered data shows all that it holds.
pub proof fn law_buffered_data_shows_what_it_holds(
    accounts: AccountRangeData,
    storage: StorageRangeData,
    code: ByteCodeData,
)
    ensures
        accounts@.accounts == accounts.accounts@,
        accounts@.has_more == accounts.has_more,
        storage@.account_hash == storage.account_hash,
        storage@.storage_root == storage.storage_root,
        storage@.slots == storage.slots@,
        storage@.is_complete == storage.is_complete,
        code@ == (code.hash, code.code@),
{
}

} // verus!
