//! The messages of the snap protocol.

use crate::primitives::B256;
use vstd::prelude::*;

verus! {

/// Asks for the accounts of a range of hashes.
#[derive(Clone, Copy, Debug, PartialEq, Eq)]
pub struct GetAccountRangeMessage {
    /// The number that the answer repeats.
    pub request_id: u64,
    /// The root of the state that is asked for.
    pub root_hash: B256,
    /// The first hash of the range.
    pub starting_hash: B256,
    /// The last hash of the range.
    pub limit_hash: B256,
    /// The size that the answer should not exceed, in bytes.
    pub response_bytes: u64,
}

/// Asks for the storage of accounts.
#[derive(Debug, PartialEq, Eq)]
pub struct GetStorageRangesMessage {
    /// The number that the answer repeats.
    pub request_id: u64,
    /// The root of the state that is asked for.
    pub root_hash: B256,
    /// The accounts whose storage is asked for.
    pub account_hashes: Vec<B256>,
    /// The first slot of the range.
    pub starting_hash: B256,
    /// The last slot of the range.
    pub limit_hash: B256,
    /// The size that the answer should not exceed, in bytes.
    pub response_bytes: u64,
}

/// Asks for bytecode.
#[derive(Debug, PartialEq, Eq)]
pub struct GetByteCodesMessage {
    /// The number that the answer repeats.
    pub request_id: u64,
    /// The hashes of the code that is asked for.
    pub hashes: Vec<B256>,
    /// The size that the answer should not exceed, in bytes.
    pub response_bytes: u64,
}

/// The path of trie nodes below one account.
#[derive(Debug, PartialEq, Eq)]
pub struct TriePath {
    /// The path in the account trie.
    pub account_path: Vec<u8>,
    /// The paths in the storage trie of the account.
    pub slot_paths: Vec<Vec<u8>>,
}

/// Asks for nodes of the state trie.
#[derive(Debug, PartialEq, Eq)]
pub struct GetTrieNodesMessage {
    /// The number that the answer repeats.
    pub request_id: u64,
    /// The root of the state that is asked for.
    pub root_hash: B256,
    /// The paths of the nodes that are asked for.
    pub paths: Vec<TriePath>,
    /// The size that the answer should not exceed, in bytes.
    pub response_bytes: u64,
}

/// An account in an account range.
#[derive(Debug, PartialEq, Eq)]
pub struct AccountData {
    /// The hash of the account.
    pub hash: B256,
    /// The account in slim form.
    pub body: Vec<u8>,
}

/// A storage slot in a storage range.
#[derive(Debug, PartialEq, Eq)]
pub struct StorageData {
    /// The hash of the slot.
    pub hash: B256,
    /// The encoded value of the slot.
    pub data: Vec<u8>,
}

/// Answers a request for an account range.
#[derive(Debug, PartialEq, Eq)]
pub struct AccountRangeMessage {
    /// The number of the request.
    pub request_id: u64,
    /// The accounts of the range.
    pub accounts: Vec<AccountData>,
    /// The trie nodes that prove the range.
    pub proof: Vec<Vec<u8>>,
}

/// Answers a request for the storage of accounts.
#[derive(Debug, PartialEq, Eq)]
pub struct StorageRangesMessage {
    /// The number of the request.
    pub request_id: u64,
    /// The slots of each account, in the order in which the accounts were asked for.
    pub slots: Vec<Vec<StorageData>>,
    /// The trie nodes that prove the last of the ranges.
    pub proof: Vec<Vec<u8>>,
}

/// Answers a request for bytecode.
#[derive(Debug, PartialEq, Eq)]
pub struct ByteCodesMessage {
    /// The number of the request.
    pub request_id: u64,
    /// The code, in the order in which it was asked for.
    pub codes: Vec<Vec<u8>>,
}

/// Answers a request for trie nodes.
#[derive(Debug, PartialEq, Eq)]
pub struct TrieNodesMessage {
    /// The number of the request.
    pub request_id: u64,
    /// The nodes, in the order in which they were asked for.
    pub nodes: Vec<Vec<u8>>,
}

/// An answer of a peer.
#[derive(Debug, PartialEq, Eq)]
pub enum SnapResponse {
    /// An account range.
    AccountRange(AccountRangeMessage),
    /// Storage ranges.
    StorageRanges(StorageRangesMessage),
    /// Bytecode.
    ByteCodes(ByteCodesMessage),
    /// Trie nodes.
    TrieNodes(TrieNodesMessage),
}

/// A request to a peer.
#[derive(Debug, PartialEq, Eq)]
pub enum SnapRequest {
    /// Asks for an account range.
    AccountRange(GetAccountRangeMessage),
    /// Asks for storage ranges.
    StorageRanges(GetStorageRangesMessage),
    /// Asks for bytecode.
    ByteCodes(GetByteCodesMessage),
}

/// The model of a [`GetStorageRangesMessage`].
#[verifier::ext_equal]
pub struct GetStorageRangesView {
    pub request_id: u64,
    pub root_hash: B256,
    pub account_hashes: Seq<B256>,
    pub starting_hash: B256,
    pub limit_hash: B256,
    pub response_bytes: u64,
}

/// The model of a [`GetByteCodesMessage`].
#[verifier::ext_equal]
pub struct GetByteCodesView {
    pub request_id: u64,
    pub hashes: Seq<B256>,
    pub response_bytes: u64,
}

/// The model of a [`SnapRequest`].
#[verifier::ext_equal]
pub enum SnapRequestView {
    AccountRange(GetAccountRangeMessage),
    StorageRanges(GetStorageRangesView),
    ByteCodes(GetByteCodesView),
}

/// The model of an [`AccountRangeMessage`]: each account by its hash and its body.
#[verifier::ext_equal]
pub struct AccountRangeView {
    pub request_id: u64,
    pub accounts: Seq<(B256, Seq<u8>)>,
    pub proof: Seq<Seq<u8>>,
}

/// The model of a [`StorageRangesMessage`]: each slot by its hash and its data.
#[verifier::ext_equal]
pub struct StorageRangesView {
    pub request_id: u64,
    pub slots: Seq<Seq<(B256, Seq<u8>)>>,
    pub proof: Seq<Seq<u8>>,
}

/// The model of a [`ByteCodesMessage`].
#[verifier::ext_equal]
pub struct ByteCodesView {
    pub request_id: u64,
    pub codes: Seq<Seq<u8>>,
}

/// The model of a [`TrieNodesMessage`].
#[verifier::ext_equal]
pub struct TrieNodesView {
    pub request_id: u64,
    pub nodes: Seq<Seq<u8>>,
}

/// The model of a [`SnapResponse`].
#[verifier::ext_equal]
pub enum SnapResponseView {
    AccountRange(AccountRangeView),
    StorageRanges(StorageRangesView),
    ByteCodes(ByteCodesView),
    TrieNodes(TrieNodesView),
}

/// The model of a list of byte strings.
pub open spec fn blobs(list: Seq<Vec<u8>>) -> Seq<Seq<u8>> {
    list.map_values(|blob: Vec<u8>| blob@)
}

/// The model of a list of slots.
pub open spec fn slots_view(list: Seq<StorageData>) -> Seq<(B256, Seq<u8>)> {
    list.map_values(|slot: StorageData| (slot.hash, slot.data@))
}

/// The model of the slots of several accounts.
pub open spec fn slot_lists_view(lists: Seq<Vec<StorageData>>) -> Seq<Seq<(B256, Seq<u8>)>> {
    lists.map_values(|list: Vec<StorageData>| slots_view(list@))
}

impl View for GetStorageRangesMessage {
    type V = GetStorageRangesView;

    open spec fn view(&self) -> GetStorageRangesView {
        GetStorageRangesView {
            request_id: self.request_id,
            root_hash: self.root_hash,
            account_hashes: self.account_hashes@,
            starting_hash: self.starting_hash,
            limit_hash: self.limit_hash,
            response_bytes: self.response_bytes,
        }
    }
}

impl View for GetByteCodesMessage {
    type V = GetByteCodesView;

    open spec fn view(&self) -> GetByteCodesView {
        GetByteCodesView {
            request_id: self.request_id,
            hashes: self.hashes@,
            response_bytes: self.response_bytes,
        }
    }
}

impl View for SnapRequest {
    type V = SnapRequestView;

    open spec fn view(&self) -> SnapRequestView {
        match self {
            SnapRequest::AccountRange(request) => SnapRequestView::AccountRange(*request),
            SnapRequest::StorageRanges(request) => SnapRequestView::StorageRanges(request@),
            SnapRequest::ByteCodes(request) => SnapRequestView::ByteCodes(request@),
        }
    }
}

impl View for AccountRangeMessage {
    type V = AccountRangeView;

    open spec fn view(&self) -> AccountRangeView {
        AccountRangeView {
            request_id: self.request_id,
            accounts: self.accounts@.map_values(
                |account: AccountData| (account.hash, account.body@),
            ),
            proof: blobs(self.proof@),
        }
    }
}

impl View for StorageRangesMessage {
    type V = StorageRangesView;

    open spec fn view(&self) -> StorageRangesView {
        StorageRangesView {
            request_id: self.request_id,
            slots: slot_lists_view(self.slots@),
            proof: blobs(self.proof@),
        }
    }
}

impl View for ByteCodesMessage {
    type V = ByteCodesView;

    open spec fn view(&self) -> ByteCodesView {
        ByteCodesView { request_id: self.request_id, codes: blobs(self.codes@) }
    }
}

impl View for TrieNodesMessage {
    type V = TrieNodesView;

    open spec fn view(&self) -> TrieNodesView {
        TrieNodesView { request_id: self.request_id, nodes: blobs(self.nodes@) }
    }
}

impl View for SnapResponse {
    type V = SnapResponseView;

    open spec fn view(&self) -> SnapResponseView {
        match self {
            SnapResponse::AccountRange(message) => SnapResponseView::AccountRange(message@),
            SnapResponse::StorageRanges(message) => SnapResponseView::StorageRanges(message@),
            SnapResponse::ByteCodes(message) => SnapResponseView::ByteCodes(message@),
            SnapResponse::TrieNodes(message) => SnapResponseView::TrieNodes(message@),
        }
    }
}

impl GetStorageRangesMessage {
    /// Another message with the same contents.
    pub fn duplicate(&self) -> (r: GetStorageRangesMessage)
        ensures
            r@ == self@,
    {
        GetStorageRangesMessage {
            request_id: self.request_id,
            root_hash: self.root_hash,
            account_hashes: duplicate_hashes(&self.account_hashes),
            starting_hash: self.starting_hash,
            limit_hash: self.limit_hash,
            response_bytes: self.response_bytes,
        }
    }
}

impl GetByteCodesMessage {
    /// Another message with the same contents.
    pub fn duplicate(&self) -> (r: GetByteCodesMessage)
        ensures
            r@ == self@,
    {
        GetByteCodesMessage {
            request_id: self.request_id,
            hashes: duplicate_hashes(&self.hashes),
            response_bytes: self.response_bytes,
        }
    }
}

/// Another list of the same hashes.
pub(crate) fn duplicate_hashes(hashes: &Vec<B256>) -> (r: Vec<B256>)
    ensures
        r@ == hashes@,
{
    let mut r: Vec<B256> = Vec::new();
    let mut i: usize = 0;
    while i < hashes.len()
        invariant
            i <= hashes@.len(),
            r@ == hashes@.take(i as int),
        decreases hashes@.len() - i,
    {
        r.push(hashes[i]);
        i += 1;
        assert(hashes@.take(i as int) =~= hashes@.take(i - 1).push(hashes@[i - 1]));
    }
    assert(hashes@.take(i as int) =~= hashes@);
    r
}

/// A request shows all that it asks for.
pub proof fn law_requests_show_what_they_ask_for(
    storage: GetStorageRangesMessage,
    codes: GetByteCodesMessage,
    accounts: GetAccountRangeMessage,
)
    ensures
        storage@.request_id == storage.request_id,
        storage@.root_hash == storage.root_hash,
        storage@.account_hashes == storage.account_hashes@,
        storage@.starting_hash == storage.starting_hash,
        storage@.limit_hash == storage.limit_hash,
        storage@.response_bytes == storage.response_bytes,
        codes@.request_id == codes.request_id,
        codes@.hashes == codes.hashes@,
        codes@.response_bytes == codes.response_bytes,
        SnapRequest::AccountRange(accounts)@ == SnapRequestView::AccountRange(accounts),
        SnapRequest::StorageRanges(storage)@ == SnapRequestView::StorageRanges(storage@),
        SnapRequest::ByteCodes(codes)@ == SnapRequestView::ByteCodes(codes@),
{
}

/// The byte strings are shown one by one.
pub open spec fn shows_blobs(shown: Seq<Seq<u8>>, held: Seq<Vec<u8>>) -> bool {
    &&& shown.len() == held.len()
    &&& forall|i: int| 0 <= i < held.len() ==> #[trigger] shown[i] == held[i]@
}

/// An answer shows all that it holds: every account, every slot, every code, every node and every
/// part of a proof, in order.
pub proof fn law_answers_show_what_they_hold(
    accounts: AccountRangeMessage,
    storage: StorageRangesMessage,
    codes: ByteCodesMessage,
    nodes: TrieNodesMessage,
)
    ensures
        accounts@.request_id == accounts.request_id,
        accounts@.accounts.len() == accounts.accounts@.len(),
        forall|i: int|
            0 <= i < accounts.accounts@.len() ==> #[trigger] accounts@.accounts[i] == (
                accounts.accounts@[i].hash,
                accounts.accounts@[i].body@,
            ),
        shows_blobs(accounts@.proof, accounts.proof@),
        storage@.request_id == storage.request_id,
        storage@.slots.len() == storage.slots@.len(),
        forall|i: int|
            0 <= i < storage.slots@.len() ==> (#[trigger] storage@.slots[i]).len()
                == storage.slots@[i]@.len(),
        forall|i: int, j: int|
            0 <= i < storage.slots@.len() && 0 <= j < storage.slots@[i]@.len() ==>
            #[trigger] storage@.slots[i][j] == (
                storage.slots@[i]@[j].hash,
                storage.slots@[i]@[j].data@,
            ),
        shows_blobs(storage@.proof, storage.proof@),
        codes@.request_id == codes.request_id,
        shows_blobs(codes@.codes, codes.codes@),
        nodes@.request_id == nodes.request_id,
        shows_blobs(nodes@.nodes, nodes.nodes@),
        SnapResponse::AccountRange(accounts)@ == SnapResponseView::AccountRange(accounts@),
        SnapResponse::StorageRanges(storage)@ == SnapResponseView::StorageRanges(storage@),
        SnapResponse::ByteCodes(codes)@ == SnapResponseView::ByteCodes(codes@),
        SnapResponse::TrieNodes(nodes)@ == SnapResponseView::TrieNodes(nodes@),
{
}

} // verus!
