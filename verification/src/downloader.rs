//! Snap sync downloader.
//!
//! A [`SnapDownloader`] decides what to ask peers for, takes their answers in, and forms batches
//! of what was verified. It sends nothing and waits for nothing itself: whoever drives it polls
//! the requests that are in flight, checks range proofs, and reports what happened with
//! [`SnapDownloader::poll_next`].

use crate::account::{decode_slim_account, decode_storage_value, storage_value_of, Account};
use crate::batch::{
    bytecode_batch_view, storage_batch_view, AccountRange, AccountRangeData, ByteCodeData,
    SnapBatch, SnapBatchView, StorageRange, StorageRangeData,
};
use crate::collections::{B256Map, B256Set};
use crate::error::{bad_response, bad_response_error, DownloadError, DownloadResult, RequestError};
use crate::hashing::{empty_root_hash, keccak256, keccak256_of};
use crate::model::{
    account_entries, account_entry, code_entries, codes_matching, codes_noted, complete_accounts,
    id_after, lemma_codes_matching_stops, lemma_readable_prefix_stops, min, partial_accounts,
    readable_prefix, roots_noted, slot_values, slots_readable, storage_entries, storage_range,
    AccountProofView, DownloaderState, PendingProofView, PollEventView, PollTurnView, ProofOutcome,
    StorageAnswerView, StorageProofView, BYTECODES_PER_BATCH, BYTECODE_CHUNK_SIZE,
    DEFAULT_MAX_CONCURRENT_REQUESTS, MAX_BYTECODE_RESPONSE_BYTES, MAX_RESPONSE_BYTES,
    STORAGE_ACCOUNTS_PER_BATCH, STORAGE_RANGES_PER_BATCH,
};
use crate::phase::SnapPhase;
use crate::primitives::{B256, U256};
use crate::wire::{
    blobs, shows_blobs, slot_lists_view, slots_view, GetAccountRangeMessage, GetByteCodesMessage,
    GetByteCodesView, GetStorageRangesMessage, GetStorageRangesView, SnapRequest, SnapRequestView,
    SnapResponse, SnapResponseView, StorageData,
};
use std::collections::VecDeque;
use std::sync::Arc;
use vstd::prelude::*;

verus! {

/// A range whose proof is being checked.
#[derive(Debug)]
enum PendingProof {
    /// No proof is being checked.
    Nothing,
    /// The accounts of a range.
    Accounts(Vec<(B256, Account, B256)>),
    /// The storage of an account.
    Storage(StorageRangeData),
}

/// What is left of an answer to a request for storage.
#[derive(Debug)]
struct StorageAnswer {
    /// The accounts that were asked for.
    batch: Vec<B256>,
    /// The slots of each account, in the same order.
    slots: Vec<Vec<StorageData>>,
    /// The trie nodes that prove the last list of slots.
    proof: Vec<Vec<u8>>,
}

/// A range proof of accounts that is to be checked.
#[derive(Debug)]
pub struct AccountProofQuery {
    /// The root of the state.
    pub root: B256,
    /// The hash that the range starts from.
    pub starting_hash: B256,
    /// The hashes of the accounts in the range.
    pub account_hashes: Vec<B256>,
    /// The accounts in the range.
    pub accounts: Vec<Account>,
    /// The trie nodes that prove the range.
    pub proof: Vec<Vec<u8>>,
}

/// A range proof of storage slots that is to be checked.
#[derive(Debug)]
pub struct StorageProofQuery {
    /// The storage root of the account.
    pub root: B256,
    /// The hash that the range starts from.
    pub starting_hash: B256,
    /// The hashes of the slots in the range.
    pub slot_hashes: Vec<B256>,
    /// The values of the slots in the range.
    pub values: Vec<U256>,
    /// The trie nodes that prove the range.
    pub proof: Vec<Vec<u8>>,
}

/// What a downloader learns.
#[derive(Debug)]
pub enum PollEvent {
    /// The consumer asks for the next batch.
    Polled,
    /// A request of the current phase that is in flight was answered, or failed.
    Answered {
        /// The number of the request.
        request_id: u64,
        /// The answer.
        outcome: Result<SnapResponse, RequestError>,
    },
    /// No request of the current phase that is in flight has an answer ready.
    Drained,
    /// The proof that was to be checked was checked.
    ProofChecked(ProofOutcome),
}

/// What a downloader wants done.
#[derive(Debug)]
pub enum PollTurn {
    /// Send the requests, then poll what is in flight in the current phase, and report the next
    /// answer or that there is none ready.
    PollInFlight {
        /// The requests to send.
        submit: Vec<SnapRequest>,
    },
    /// Check the proof, and report what it shows.
    VerifyAccountRange(AccountProofQuery),
    /// Check the proof, and report what it shows.
    VerifyStorageRange(StorageProofQuery),
    /// Send the requests, and hand the item to the consumer.
    Yield {
        /// The requests to send.
        submit: Vec<SnapRequest>,
        /// What the consumer gets.
        item: DownloadResult<SnapBatch>,
    },
    /// The consumer has to wait for a request that is in flight.
    Pending,
    /// There is nothing more to hand to the consumer.
    Finished,
}

/// Snap sync downloader that downloads account state in parallel.
///
/// It manages:
/// - multiple concurrent requests (ten unless the builder says otherwise),
/// - proof verification,
/// - multi-phase sync (accounts, then storage, then bytecode),
/// - batch formation and yielding.
#[must_use]
pub struct SnapDownloader<Client> {
    /// The snap sync client.
    client: Arc<Client>,
    /// Maximum number of concurrent requests.
    max_concurrent_requests: usize,
    /// Current sync phase.
    phase: SnapPhase,
    /// State root for the sync.
    state_root: B256,
    /// Next account hash to download from.
    next_account_hash: B256,
    /// Target account hash (usually 0xff..ff).
    target_account_hash: B256,
    /// In-flight account range requests.
    in_flight_account_requests: Vec<GetAccountRangeMessage>,
    /// Buffered verified account ranges ready to yield.
    buffered_account_ranges: VecDeque<AccountRangeData>,
    /// Mapping of account hash to storage root (collected during account sync).
    account_storage_roots: B256Map,
    /// Code hashes that need downloading (collected during account sync).
    code_hashes_needed: B256Set,
    /// Accounts pending storage download.
    accounts_pending_storage: VecDeque<B256>,
    /// In-flight storage range requests.
    in_flight_storage_requests: Vec<GetStorageRangesMessage>,
    /// Buffered verified storage ranges ready to yield.
    buffered_storage_ranges: VecDeque<StorageRangeData>,
    /// Code hashes pending download.
    code_hashes_pending: VecDeque<B256>,
    /// In-flight bytecode requests.
    in_flight_bytecode_requests: Vec<GetByteCodesMessage>,
    /// Buffered verified bytecodes ready to yield.
    buffered_bytecodes: VecDeque<ByteCodeData>,
    /// The range whose proof is being checked.
    pending_proof: PendingProof,
    /// What is left of the storage answer that the range belongs to.
    unchecked_storage: StorageAnswer,
    /// Request ID counter.
    request_id: u64,
    /// Whether the downloader has been terminated.
    terminated: bool,
}

impl View for PendingProof {
    type V = PendingProofView;

    closed spec fn view(&self) -> PendingProofView {
        match self {
            PendingProof::Nothing => PendingProofView::Nothing,
            PendingProof::Accounts(accounts) => PendingProofView::Accounts(accounts@),
            PendingProof::Storage(range) => PendingProofView::Storage(range@),
        }
    }
}

impl View for StorageAnswer {
    type V = StorageAnswerView;

    closed spec fn view(&self) -> StorageAnswerView {
        StorageAnswerView {
            batch: self.batch@,
            slots: slot_lists_view(self.slots@),
            proof: blobs(self.proof@),
        }
    }
}

impl StorageAnswer {
    /// Nothing is left.
    fn nothing() -> (r: StorageAnswer)
        ensures
            r@ == StorageAnswerView::nothing(),
    {
        let r = StorageAnswer { batch: Vec::new(), slots: Vec::new(), proof: Vec::new() };
        assert(r@ =~= StorageAnswerView::nothing());
        r
    }

    /// Takes the first account off, with its slots and the trie nodes that prove these.
    fn take_first(&mut self) -> (r: (B256, Vec<StorageData>, Vec<Vec<u8>>))
        requires
            old(self)@.batch.len() > 0,
            old(self)@.slots.len() > 0,
        ensures
            r.0 == old(self)@.batch[0],
            slots_view(r.1@) == old(self)@.slots[0],
            blobs(r.2@) == old(self)@.first_proof(),
            final(self)@ == old(self)@.rest(),
    {
        let account = self.batch.remove(0);
        let list = self.slots.remove(0);
        let mut proof: Vec<Vec<u8>> = Vec::new();
        if self.slots.len() == 0 {
            core::mem::swap(&mut self.proof, &mut proof);
        }
        assert(blobs(Seq::<Vec<u8>>::empty()) =~= Seq::<Seq<u8>>::empty());
        assert(self@ =~= old(self)@.rest());
        (account, list, proof)
    }
}

impl View for AccountProofQuery {
    type V = AccountProofView;

    open spec fn view(&self) -> AccountProofView {
        AccountProofView {
            root: self.root,
            starting_hash: self.starting_hash,
            account_hashes: self.account_hashes@,
            accounts: self.accounts@,
            proof: blobs(self.proof@),
        }
    }
}

impl View for StorageProofQuery {
    type V = StorageProofView;

    open spec fn view(&self) -> StorageProofView {
        StorageProofView {
            root: self.root,
            starting_hash: self.starting_hash,
            slot_hashes: self.slot_hashes@,
            values: self.values@,
            proof: blobs(self.proof@),
        }
    }
}

impl View for PollEvent {
    type V = PollEventView;

    open spec fn view(&self) -> PollEventView {
        match self {
            PollEvent::Polled => PollEventView::Polled,
            PollEvent::Answered { request_id, outcome } => PollEventView::Answered {
                request_id: *request_id,
                outcome: match outcome {
                    Ok(response) => Ok(response@),
                    Err(error) => Err(*error),
                },
            },
            PollEvent::Drained => PollEventView::Drained,
            PollEvent::ProofChecked(outcome) => PollEventView::ProofChecked(*outcome),
        }
    }
}

/// The model of a list of requests.
pub open spec fn requests_view(requests: Seq<SnapRequest>) -> Seq<SnapRequestView> {
    requests.map_values(|request: SnapRequest| request@)
}

impl View for PollTurn {
    type V = PollTurnView;

    open spec fn view(&self) -> PollTurnView {
        match self {
            PollTurn::PollInFlight { submit } => PollTurnView::PollInFlight {
                submit: requests_view(submit@),
            },
            PollTurn::VerifyAccountRange(query) => PollTurnView::VerifyAccountRange(query@),
            PollTurn::VerifyStorageRange(query) => PollTurnView::VerifyStorageRange(query@),
            PollTurn::Yield { submit, item } => PollTurnView::Yield {
                submit: requests_view(submit@),
                item: match item {
                    Ok(batch) => Ok(batch@),
                    Err(error) => Err(*error),
                },
            },
            PollTurn::Pending => PollTurnView::Pending,
            PollTurn::Finished => PollTurnView::Finished,
        }
    }
}

/// The model of buffered account ranges.
spec fn account_ranges_view(ranges: Seq<AccountRangeData>) -> Seq<AccountRange> {
    ranges.map_values(|range: AccountRangeData| range@)
}

/// The model of buffered storage ranges.
spec fn storage_ranges_view(ranges: Seq<StorageRangeData>) -> Seq<StorageRange> {
    ranges.map_values(|range: StorageRangeData| range@)
}

/// The model of buffered bytecodes.
spec fn bytecodes_view(codes: Seq<ByteCodeData>) -> Seq<(B256, Seq<u8>)> {
    codes.map_values(|code: ByteCodeData| code@)
}

/// The model of storage requests.
spec fn storage_requests_view(requests: Seq<GetStorageRangesMessage>) -> Seq<GetStorageRangesView> {
    requests.map_values(|request: GetStorageRangesMessage| request@)
}

/// The model of bytecode requests.
spec fn bytecode_requests_view(requests: Seq<GetByteCodesMessage>) -> Seq<GetByteCodesView> {
    requests.map_values(|request: GetByteCodesMessage| request@)
}

impl<Client> View for SnapDownloader<Client> {
    type V = DownloaderState;

    closed spec fn view(&self) -> DownloaderState {
        DownloaderState {
            max_concurrent_requests: self.max_concurrent_requests,
            phase: self.phase,
            state_root: self.state_root,
            next_account_hash: self.next_account_hash,
            target_account_hash: self.target_account_hash,
            in_flight_account_requests: self.in_flight_account_requests@,
            buffered_account_ranges: account_ranges_view(self.buffered_account_ranges@),
            account_storage_roots: self.account_storage_roots@,
            code_hashes_needed: self.code_hashes_needed@,
            accounts_pending_storage: self.accounts_pending_storage@,
            in_flight_storage_requests: storage_requests_view(self.in_flight_storage_requests@),
            buffered_storage_ranges: storage_ranges_view(self.buffered_storage_ranges@),
            code_hashes_pending: self.code_hashes_pending@,
            in_flight_bytecode_requests: bytecode_requests_view(self.in_flight_bytecode_requests@),
            buffered_bytecodes: bytecodes_view(self.buffered_bytecodes@),
            pending_proof: self.pending_proof@,
            unchecked_storage: self.unchecked_storage@,
            request_id: self.request_id,
            terminated: self.terminated,
        }
    }
}

/// Takes the first hashes off a queue.
fn take_front(queue: &mut VecDeque<B256>, n: usize) -> (r: Vec<B256>)
    requires
        n <= old(queue)@.len(),
    ensures
        r@ == old(queue)@.take(n as int),
        final(queue)@ == old(queue)@.skip(n as int),
{
    let mut taken: Vec<B256> = Vec::new();
    assert(queue@ =~= old(queue)@.skip(0));
    assert(taken@ =~= old(queue)@.take(0));
    while taken.len() < n
        invariant
            taken@.len() <= n <= old(queue)@.len(),
            taken@ == old(queue)@.take(taken@.len() as int),
            queue@ == old(queue)@.skip(taken@.len() as int),
        decreases n - taken@.len(),
    {
        let ghost k = taken@.len() as int;
        if let Some(hash) = queue.pop_front() {
            taken.push(hash);
            assert(old(queue)@.take(k + 1) =~= old(queue)@.take(k).push(old(queue)@[k]));
            assert(queue@ =~= old(queue)@.skip(k + 1));
        }
    }
    taken
}

/// Makes a queue of a list of hashes.
fn to_queue(hashes: &Vec<B256>) -> (r: VecDeque<B256>)
    ensures
        r@ == hashes@,
{
    let mut queue: VecDeque<B256> = VecDeque::new();
    let mut i: usize = 0;
    while i < hashes.len()
        invariant
            i <= hashes@.len(),
            queue@ == hashes@.take(i as int),
        decreases hashes@.len() - i,
    {
        queue.push_back(hashes[i]);
        i += 1;
        assert(hashes@.take(i as int) =~= hashes@.take(i - 1).push(hashes@[i - 1]));
    }
    assert(hashes@.take(i as int) =~= hashes@);
    queue
}

/// Decodes the values of storage slots.
fn decode_slots(slots: &Vec<StorageData>) -> (r: DownloadResult<Vec<(B256, U256)>>)
    ensures
        match r {
            Ok(values) => slots_readable(slots_view(slots@)) && values@ == slot_values(
                slots_view(slots@),
            ),
            Err(error) => !slots_readable(slots_view(slots@)) && error == bad_response(),
        },
{
    let ghost model = slots_view(slots@);
    let mut values: Vec<(B256, U256)> = Vec::new();
    let mut i: usize = 0;
    while i < slots.len()
        invariant
            i <= slots@.len(),
            model == slots_view(slots@),
            values@ == slot_values(model).take(i as int),
            forall|j: int| 0 <= j < i ==> storage_value_of(#[trigger] model[j].1) is Some,
        decreases slots@.len() - i,
    {
        assert(model[i as int].1 == slots@[i as int].data@);
        let value = match decode_storage_value(slots[i].data.as_slice()) {
            Ok(value) => value,
            Err(error) => return Err(error),
        };
        values.push((slots[i].hash, value));
        i += 1;
        assert(slot_values(model).take(i as int) =~= slot_values(model).take(i - 1).push(
            slot_values(model)[i - 1],
        ));
    }
    assert(slot_values(model).take(i as int) =~= slot_values(model));
    Ok(values)
}

/// Parts slots into their hashes and their values.
fn part_slots(slots: &Vec<(B256, U256)>) -> (r: (Vec<B256>, Vec<U256>))
    ensures
        r.0@ == slots@.map_values(|slot: (B256, U256)| slot.0),
        r.1@ == slots@.map_values(|slot: (B256, U256)| slot.1),
{
    let mut hashes: Vec<B256> = Vec::new();
    let mut values: Vec<U256> = Vec::new();
    let mut i: usize = 0;
    while i < slots.len()
        invariant
            i <= slots@.len(),
            hashes@.len() == i,
            values@.len() == i,
            forall|j: int| 0 <= j < i ==> #[trigger] hashes@[j] == slots@[j].0,
            forall|j: int| 0 <= j < i ==> #[trigger] values@[j] == slots@[j].1,
        decreases slots@.len() - i,
    {
        hashes.push(slots[i].0);
        values.push(slots[i].1);
        i += 1;
    }
    (hashes, values)
}

impl<Client> SnapDownloader<Client> {
    /// The client that answers the requests.
    pub closed spec fn client_view(&self) -> Client {
        *self.client
    }

    /// Takes the next request number.
    fn next_request_id(&mut self) -> (id: u64)
        ensures
            id == old(self)@.request_id,
            final(self)@ == (DownloaderState {
                request_id: id_after(old(self)@.request_id),
                ..old(self)@
            }),
            final(self).client_view() == old(self).client_view(),
    {
        let id = self.request_id;
        self.request_id = self.request_id.wrapping_add(1);
        id
    }

    /// Whether another request can be made under the concurrency limit.
    pub fn can_submit_new_request(&self) -> (r: bool)
        ensures
            r == self@.can_submit(),
    {
        match self.phase {
            SnapPhase::AccountSync => self.in_flight_account_requests.len()
                < self.max_concurrent_requests,
            SnapPhase::StorageSync => self.in_flight_storage_requests.len()
                < self.max_concurrent_requests,
            SnapPhase::BytecodeSync => self.in_flight_bytecode_requests.len()
                < self.max_concurrent_requests,
            SnapPhase::Complete => false,
        }
    }

    /// Whether the downloader has nothing more to hand on.
    pub fn is_terminated(&self) -> (r: bool)
        ensures
            r == self@.is_terminated(),
    {
        self.terminated || (self.phase == SnapPhase::Complete
            && self.in_flight_account_requests.len() == 0 && self.in_flight_storage_requests.len()
            == 0 && self.in_flight_bytecode_requests.len() == 0
            && self.buffered_account_ranges.len() == 0 && self.buffered_storage_ranges.len() == 0
            && self.buffered_bytecodes.len() == 0)
    }

    /// Whether the current phase has something left to ask for.
    fn has_work(&self) -> (r: bool)
        ensures
            r == self@.has_work(),
    {
        match self.phase {
            SnapPhase::AccountSync => self.next_account_hash.precedes(&self.target_account_hash),
            SnapPhase::StorageSync => self.accounts_pending_storage.len() > 0,
            SnapPhase::BytecodeSync => self.code_hashes_pending.len() > 0,
            SnapPhase::Complete => false,
        }
    }

    /// Puts a new account range request in flight, and returns it to be sent.
    pub fn submit_account_range_request(&mut self) -> (request: GetAccountRangeMessage)
        ensures
            request == old(self)@.account_request(),
            final(self)@ == old(self)@.account_range_requested(),
            final(self).client_view() == old(self).client_view(),
    {
        let request_id = self.next_request_id();
        let request = GetAccountRangeMessage {
            request_id,
            root_hash: self.state_root,
            starting_hash: self.next_account_hash,
            limit_hash: self.target_account_hash,
            response_bytes: MAX_RESPONSE_BYTES,
        };
        self.in_flight_account_requests.push(request);
        request
    }

    /// Puts a new storage ranges request in flight, and returns it to be sent.
    pub fn submit_storage_ranges_request(&mut self) -> (request: Option<GetStorageRangesMessage>)
        ensures
            match request {
                Some(request) => old(self)@.accounts_pending_storage.len() > 0 && request@
                    == old(self)@.storage_request(),
                None => old(self)@.accounts_pending_storage.len() == 0,
            },
            final(self)@ == old(self)@.storage_ranges_requested(),
            final(self).client_view() == old(self).client_view(),
    {
        if self.accounts_pending_storage.len() == 0 {
            return None;
        }
        let request_id = self.next_request_id();
        let batch_size = if STORAGE_ACCOUNTS_PER_BATCH <= self.accounts_pending_storage.len() {
            STORAGE_ACCOUNTS_PER_BATCH
        } else {
            self.accounts_pending_storage.len()
        };
        let account_hashes = take_front(&mut self.accounts_pending_storage, batch_size);
        let request = GetStorageRangesMessage {
            request_id,
            root_hash: self.state_root,
            account_hashes,
            starting_hash: B256::zero(),
            limit_hash: B256::repeat_byte(0xff),
            response_bytes: MAX_RESPONSE_BYTES,
        };
        let sent = request.duplicate();
        self.in_flight_storage_requests.push(request);
        assert(self@ =~= old(self)@.storage_ranges_requested());
        Some(sent)
    }

    /// Puts a new bytecode request in flight, and returns it to be sent.
    pub fn submit_bytecode_request(&mut self) -> (request: Option<GetByteCodesMessage>)
        ensures
            match request {
                Some(request) => old(self)@.code_hashes_pending.len() > 0 && request@ == old(
                    self,
                )@.bytecode_request(),
                None => old(self)@.code_hashes_pending.len() == 0,
            },
            final(self)@ == old(self)@.bytecode_requested(),
            final(self).client_view() == old(self).client_view(),
    {
        if self.code_hashes_pending.len() == 0 {
            return None;
        }
        let request_id = self.next_request_id();
        let batch_size = if BYTECODE_CHUNK_SIZE <= self.code_hashes_pending.len() {
            BYTECODE_CHUNK_SIZE
        } else {
            self.code_hashes_pending.len()
        };
        let hashes = take_front(&mut self.code_hashes_pending, batch_size);
        let request = GetByteCodesMessage {
            request_id,
            hashes,
            response_bytes: MAX_BYTECODE_RESPONSE_BYTES,
        };
        let sent = request.duplicate();
        self.in_flight_bytecode_requests.push(request);
        assert(self@ =~= old(self)@.bytecode_requested());
        Some(sent)
    }

    /// Makes requests as long as the current phase has room and work.
    fn submit_requests(&mut self) -> (submit: Vec<SnapRequest>)
        ensures
            (final(self)@, requests_view(submit@)) == old(self)@.submitted(),
            final(self).client_view() == old(self).client_view(),
    {
        let mut submit: Vec<SnapRequest> = Vec::new();
        assert(requests_view(submit@) + self@.submitted().1 =~= self@.submitted().1);
        while self.can_submit_new_request() && self.has_work()
            invariant
                old(self)@.submitted().0 == self@.submitted().0,
                old(self)@.submitted().1 == requests_view(submit@) + self@.submitted().1,
                self.client_view() == old(self).client_view(),
            decreases self@.room(),
        {
            let ghost before = self@;
            let ghost made = requests_view(submit@);
            match self.phase {
                SnapPhase::AccountSync => {
                    submit.push(SnapRequest::AccountRange(self.submit_account_range_request()));
                },
                SnapPhase::StorageSync => {
                    if let Some(request) = self.submit_storage_ranges_request() {
                        submit.push(SnapRequest::StorageRanges(request));
                    }
                },
                SnapPhase::BytecodeSync => {
                    if let Some(request) = self.submit_bytecode_request() {
                        submit.push(SnapRequest::ByteCodes(request));
                    }
                },
                SnapPhase::Complete => {},
            }
            assert(requests_view(submit@) =~= made.push(before.next_request()));
            assert(made + before.submitted().1 =~= requests_view(submit@) + self@.submitted().1);
        }
        assert(requests_view(submit@) + self@.submitted().1 =~= requests_view(submit@));
        submit
    }

    /// Takes an account range answer in.
    ///
    /// On success the range proof that the answer depends on is returned to be checked; an empty
    /// range depends on none.
    pub fn process_account_range_response(&mut self, response: SnapResponse) -> (r: DownloadResult<
        Option<AccountProofQuery>,
    >)
        requires
            old(self)@.pending_proof is Nothing,
        ensures
            ({
                let (state, result) = old(self)@.account_range_processed(response@);
                &&& final(self)@ == state
                &&& match r {
                    Ok(Some(query)) => result == Ok::<_, DownloadError>(Some(query@)),
                    Ok(None) => result == Ok::<Option<AccountProofView>, DownloadError>(None),
                    Err(error) => result == Err::<Option<AccountProofView>, _>(error),
                }
            }),
            final(self).client_view() == old(self).client_view(),
    {
        let message = match response {
            SnapResponse::AccountRange(message) => message,
            _ => return Err(bad_response_error()),
        };
        let ghost list = message@.accounts;
        let ghost before = self@;
        if message.accounts.len() == 0 {
            self.next_account_hash = self.target_account_hash;
            return Ok(None);
        }
        let mut accounts: Vec<(B256, Account, B256)> = Vec::new();
        let mut account_hashes: Vec<B256> = Vec::new();
        let mut account_values: Vec<Account> = Vec::new();
        let mut i: usize = 0;
        assert(list.take(0) =~= Seq::<(B256, Seq<u8>)>::empty());
        assert(self@ =~= DownloaderState {
            account_storage_roots: roots_noted(before.account_storage_roots, list.take(0)),
            code_hashes_needed: codes_noted(before.code_hashes_needed, list.take(0)),
            ..before
        });
        while i < message.accounts.len()
            invariant
                i <= message.accounts@.len(),
                list == message@.accounts,
                list.len() > 0,
                before == old(self)@,
                response@ == SnapResponseView::AccountRange(message@),
                readable_prefix(list.take(i as int)) == i,
                accounts@ == account_entries(list).take(i as int),
                account_hashes@ == account_entries(list).take(i as int).map_values(
                    |entry: (B256, Account, B256)| entry.0,
                ),
                account_values@ == account_entries(list).take(i as int).map_values(
                    |entry: (B256, Account, B256)| entry.1,
                ),
                self@ == (DownloaderState {
                    account_storage_roots: roots_noted(
                        before.account_storage_roots,
                        list.take(i as int),
                    ),
                    code_hashes_needed: codes_noted(
                        before.code_hashes_needed,
                        list.take(i as int),
                    ),
                    ..before
                }),
                self.client_view() == old(self).client_view(),
            decreases message.accounts@.len() - i,
        {
            let ghost at = i as int;
            let account_hash = message.accounts[i].hash;
            assert(list[at] == (account_hash, message.accounts@[at].body@));
            let slim_account = match decode_slim_account(message.accounts[i].body.as_slice()) {
                Ok(slim_account) => slim_account,
                Err(error) => {
                    proof {
                        lemma_readable_prefix_stops(list, at);
                    }
                    return Err(error);
                },
            };
            assert(list.take(at + 1).drop_last() =~= list.take(at));
            assert(list.take(at + 1).last() == list[at]);
            if slim_account.storage_root != empty_root_hash() {
                self.account_storage_roots.insert(account_hash, slim_account.storage_root);
            }
            if let Some(code_hash) = slim_account.bytecode_hash {
                self.code_hashes_needed.insert(code_hash);
            }
            let account = Account {
                nonce: slim_account.nonce,
                balance: slim_account.balance,
                bytecode_hash: slim_account.bytecode_hash,
            };
            account_hashes.push(account_hash);
            account_values.push(account);
            accounts.push((account_hash, account, slim_account.storage_root));
            i += 1;
            assert(account_entries(list)[at] == account_entry(list[at]));
            assert(account_entries(list).take(at + 1) =~= account_entries(list).take(at).push(
                account_entry(list[at]),
            ));
        }
        assert(list.take(i as int) =~= list);
        assert(account_entries(list).take(i as int) =~= account_entries(list));
        self.pending_proof = PendingProof::Accounts(accounts);
        Ok(
            Some(
                AccountProofQuery {
                    root: self.state_root,
                    starting_hash: self.next_account_hash,
                    account_hashes,
                    accounts: account_values,
                    proof: message.proof,
                },
            ),
        )
    }

    /// Takes in what the check of the proof of an account range found.
    pub fn accept_account_range(&mut self, outcome: ProofOutcome) -> (r: DownloadResult<()>)
        requires
            old(self)@.pending_proof is Accounts,
        ensures
            (final(self)@, r) == old(self)@.account_range_checked(outcome),
            final(self).client_view() == old(self).client_view(),
    {
        let mut pending = PendingProof::Nothing;
        core::mem::swap(&mut self.pending_proof, &mut pending);
        match (pending, outcome) {
            (PendingProof::Accounts(accounts), ProofOutcome::Checked { valid: true, has_more }) => {
                if accounts.len() > 0 {
                    self.next_account_hash = accounts[accounts.len() - 1].0;
                }
                self.buffered_account_ranges.push_back(AccountRangeData { accounts, has_more });
                assert(self@ =~= old(self)@.account_range_checked(outcome).0);
                Ok(())
            },
            _ => Err(bad_response_error()),
        }
    }

    /// Takes in an answer to a request for the storage of a batch of accounts.
    ///
    /// On success the first range proof that the answer depends on is returned to be checked;
    /// an answer without slots depends on none.
    pub fn process_storage_ranges_response(
        &mut self,
        account_batch: Vec<B256>,
        response: SnapResponse,
    ) -> (r: DownloadResult<Option<StorageProofQuery>>)
        requires
            old(self)@.pending_proof is Nothing,
        ensures
            ({
                let (state, result) = old(self)@.storage_ranges_processed(
                    account_batch@,
                    response@,
                );
                &&& final(self)@ == state
                &&& match r {
                    Ok(Some(query)) => result == Ok::<_, DownloadError>(Some(query@)),
                    Ok(None) => result == Ok::<Option<StorageProofView>, DownloadError>(None),
                    Err(error) => result == Err::<Option<StorageProofView>, _>(error),
                }
            }),
            final(self).client_view() == old(self).client_view(),
    {
        let message = match response {
            SnapResponse::StorageRanges(message) => message,
            _ => return Err(bad_response_error()),
        };
        self.take_storage_ranges(
            StorageAnswer { batch: account_batch, slots: message.slots, proof: message.proof },
        )
    }

    /// Takes the ranges that are left of a storage answer in, up to the next proof that is to be
    /// checked.
    fn take_storage_ranges(&mut self, answer: StorageAnswer) -> (r: DownloadResult<
        Option<StorageProofQuery>,
    >)
        requires
            old(self)@.pending_proof is Nothing,
        ensures
            ({
                let (state, result) = old(self)@.storage_ranges_taken(answer@);
                &&& final(self)@ == state
                &&& match r {
                    Ok(Some(query)) => result == Ok::<_, DownloadError>(Some(query@)),
                    Ok(None) => result == Ok::<Option<StorageProofView>, DownloadError>(None),
                    Err(error) => result == Err::<Option<StorageProofView>, _>(error),
                }
            }),
            final(self).client_view() == old(self).client_view(),
    {
        let mut left = answer;
        while left.batch.len() > 0 && left.slots.len() > 0
            invariant
                old(self)@.storage_ranges_taken(answer@) == self@.storage_ranges_taken(left@),
                self.client_view() == old(self).client_view(),
            decreases left@.slots.len(),
        {
            let ghost before = left@;
            let (account_hash, list, proof) = left.take_first();
            if let Some(storage_root) = self.account_storage_roots.get(&account_hash) {
                let slots = match decode_slots(&list) {
                    Ok(slots) => slots,
                    Err(error) => {
                        self.unchecked_storage = StorageAnswer::nothing();
                        return Err(error);
                    },
                };
                let range = StorageRangeData {
                    account_hash,
                    storage_root,
                    slots,
                    is_complete: true,
                };
                assert(range@ == storage_range(account_hash, storage_root, before.slots[0]));
                if range.slots.len() > 0 {
                    let (slot_hashes, values) = part_slots(&range.slots);
                    self.pending_proof = PendingProof::Storage(range);
                    self.unchecked_storage = left;
                    return Ok(
                        Some(
                            StorageProofQuery {
                                root: storage_root,
                                starting_hash: B256::zero(),
                                slot_hashes,
                                values,
                                proof,
                            },
                        ),
                    );
                }
                let ghost state = self@;
                self.buffered_storage_ranges.push_back(range);
                assert(self@ =~= state.storage_buffered(range@));
            }
        }
        self.unchecked_storage = StorageAnswer::nothing();
        Ok(None)
    }

    /// Takes in what the check of the proof of a storage range found.
    ///
    /// On success the next range proof that the answer depends on is returned to be checked,
    /// where there is one.
    pub fn accept_storage_range(&mut self, outcome: ProofOutcome) -> (r: DownloadResult<
        Option<StorageProofQuery>,
    >)
        requires
            old(self)@.pending_proof is Storage,
        ensures
            ({
                let (state, result) = old(self)@.storage_range_checked(outcome);
                &&& final(self)@ == state
                &&& match r {
                    Ok(Some(query)) => result == Ok::<_, DownloadError>(Some(query@)),
                    Ok(None) => result == Ok::<Option<StorageProofView>, DownloadError>(None),
                    Err(error) => result == Err::<Option<StorageProofView>, _>(error),
                }
            }),
            final(self).client_view() == old(self).client_view(),
    {
        let mut pending = PendingProof::Nothing;
        core::mem::swap(&mut self.pending_proof, &mut pending);
        let mut unchecked = StorageAnswer::nothing();
        core::mem::swap(&mut self.unchecked_storage, &mut unchecked);
        match (pending, outcome) {
            (PendingProof::Storage(range), ProofOutcome::Checked { valid: true, has_more }) => {
                let ghost state = self@;
                let checked = StorageRangeData { is_complete: !has_more, ..range };
                self.buffered_storage_ranges.push_back(checked);
                assert(self@ =~= state.storage_buffered(checked@));
                self.take_storage_ranges(unchecked)
            },
            _ => Err(bad_response_error()),
        }
    }

    /// Takes in an answer to a request for the bytecode of a batch of hashes.
    pub fn process_bytecode_response(
        &mut self,
        code_batch: Vec<B256>,
        response: SnapResponse,
    ) -> (r: DownloadResult<()>)
        ensures
            (final(self)@, r) == old(self)@.bytecode_processed(code_batch@, response@),
            final(self).client_view() == old(self).client_view(),
    {
        let message = match response {
            SnapResponse::ByteCodes(message) => message,
            _ => return Err(bad_response_error()),
        };
        let ghost codes = message@.codes;
        let ghost batch = code_batch@;
        let ghost before = self@;
        let ghost answered = min(batch.len(), codes.len());
        let mut i: usize = 0;
        assert(self@ =~= DownloaderState {
            buffered_bytecodes: before.buffered_bytecodes + code_entries(batch, codes, 0),
            ..before
        });
        while i < code_batch.len() && i < message.codes.len()
            invariant
                i <= answered,
                answered == min(batch.len(), codes.len()),
                batch == code_batch@,
                codes == message@.codes,
                before == old(self)@,
                response@ == SnapResponseView::ByteCodes(message@),
                codes_matching(batch, codes, i as nat) == i,
                self@ == (DownloaderState {
                    buffered_bytecodes: before.buffered_bytecodes + code_entries(
                        batch,
                        codes,
                        i as nat,
                    ),
                    ..before
                }),
                self.client_view() == old(self).client_view(),
            decreases code_batch@.len() - i,
        {
            let ghost at = i as int;
            assert(codes[at] == message.codes@[at]@);
            let digest = keccak256(message.codes[i].as_slice());
            if digest != code_batch[i] {
                proof {
                    if keccak256_of(codes[at]) == batch[at]@ {
                        digest.lemma_determined_by_bytes(batch[at]);
                    }
                    lemma_codes_matching_stops(batch, codes, i as nat, answered);
                }
                return Err(bad_response_error());
            }
            let code = message.codes[i].clone();
            assert(code@ =~= message.codes@[at]@);
            let ghost buffered = self@.buffered_bytecodes;
            self.buffered_bytecodes.push_back(ByteCodeData { hash: code_batch[i], code });
            assert(self@.buffered_bytecodes =~= buffered.push((batch[at], codes[at])));
            assert(code_entries(batch, codes, (i + 1) as nat) =~= code_entries(
                batch,
                codes,
                i as nat,
            ).push((batch[at], codes[at])));
            i += 1;
            assert(self@ =~= DownloaderState {
                buffered_bytecodes: before.buffered_bytecodes + code_entries(
                    batch,
                    codes,
                    i as nat,
                ),
                ..before
            });
        }
        Ok(())
    }

    /// Tries to form a batch from buffered data.
    pub fn try_form_batch(&mut self) -> (r: Option<SnapBatch>)
        ensures
            ({
                let (state, batch) = old(self)@.batch_formed();
                &&& final(self)@ == state
                &&& match r {
                    Some(formed) => batch == Some(formed@),
                    None => batch is None,
                }
            }),
            final(self).client_view() == old(self).client_view(),
    {
        match self.phase {
            SnapPhase::AccountSync => {
                match self.buffered_account_ranges.pop_front() {
                    Some(range) => {
                        assert(self@ =~= old(self)@.batch_formed().0);
                        Some(
                            SnapBatch::Accounts {
                                accounts: range.accounts,
                                has_more: range.has_more,
                            },
                        )
                    },
                    None => None,
                }
            },
            SnapPhase::StorageSync => self.form_storage_batch(),
            SnapPhase::BytecodeSync => self.form_bytecode_batch(),
            SnapPhase::Complete => None,
        }
    }

    /// Forms a batch from the first buffered storage ranges.
    fn form_storage_batch(&mut self) -> (r: Option<SnapBatch>)
        requires
            old(self)@.phase == SnapPhase::StorageSync,
        ensures
            ({
                let (state, batch) = old(self)@.batch_formed();
                &&& final(self)@ == state
                &&& match r {
                    Some(formed) => batch == Some(formed@),
                    None => batch is None,
                }
            }),
            final(self).client_view() == old(self).client_view(),
    {
        let ghost ranges = old(self)@.buffered_storage_ranges;
        let mut storage: Vec<(B256, B256, Vec<(B256, U256)>)> = Vec::new();
        let mut accounts_complete = B256Set::new();
        let mut accounts_partial = B256Map::new();
        assert(ranges.take(0) =~= Seq::<StorageRange>::empty());
        assert(self@ =~= DownloaderState {
            buffered_storage_ranges: ranges.skip(0),
            ..old(self)@
        });
        while storage.len() < STORAGE_RANGES_PER_BATCH && self.buffered_storage_ranges.len() > 0
            invariant
                storage@.len() <= STORAGE_RANGES_PER_BATCH,
                storage@.len() <= ranges.len(),
                ranges == old(self)@.buffered_storage_ranges,
                self@ == (DownloaderState {
                    buffered_storage_ranges: ranges.skip(storage@.len() as int),
                    ..old(self)@
                }),
                storage_batch_view(storage@) == storage_entries(
                    ranges.take(storage@.len() as int),
                ),
                accounts_complete@ == complete_accounts(ranges.take(storage@.len() as int)),
                accounts_partial@ == partial_accounts(ranges.take(storage@.len() as int)),
                self.client_view() == old(self).client_view(),
            decreases STORAGE_RANGES_PER_BATCH - storage@.len(),
        {
            let ghost k = storage@.len() as int;
            let ghost entries = storage_batch_view(storage@);
            let ghost queue = self.buffered_storage_ranges@;
            assert(storage_ranges_view(queue) == ranges.skip(k));
            assert(storage_ranges_view(queue)[0] == queue[0]@);
            if let Some(range) = self.buffered_storage_ranges.pop_front() {
                assert(range@ == ranges[k]);
                assert(ranges.take(k + 1).drop_last() =~= ranges.take(k));
                assert(ranges.take(k + 1).last() == ranges[k]);
                assert(self@.buffered_storage_ranges =~= storage_ranges_view(queue).skip(1));
                assert(ranges.skip(k).skip(1) =~= ranges.skip(k + 1));
                assert(self@ =~= DownloaderState {
                    buffered_storage_ranges: ranges.skip(k + 1),
                    ..old(self)@
                });
                if range.is_complete {
                    accounts_complete.insert(range.account_hash);
                } else if range.slots.len() > 0 {
                    accounts_partial.insert(
                        range.account_hash,
                        range.slots[range.slots.len() - 1].0,
                    );
                }
                storage.push((range.account_hash, range.storage_root, range.slots));
                assert(storage_batch_view(storage@) =~= entries.push(
                    (ranges[k].account_hash, ranges[k].storage_root, ranges[k].slots),
                ));
                assert(storage_entries(ranges.take(k + 1)) =~= storage_entries(
                    ranges.take(k),
                ).push((ranges[k].account_hash, ranges[k].storage_root, ranges[k].slots)));
            }
        }
        assert(self@.buffered_storage_ranges.len() == self.buffered_storage_ranges@.len());
        assert(self@.buffered_storage_ranges == ranges.skip(storage@.len() as int));
        if storage.len() == 0 {
            assert(self@ =~= old(self)@);
            return None;
        }
        Some(SnapBatch::Storage { storage, accounts_complete, accounts_partial })
    }

    /// Forms a batch from the first buffered bytecodes.
    fn form_bytecode_batch(&mut self) -> (r: Option<SnapBatch>)
        requires
            old(self)@.phase == SnapPhase::BytecodeSync,
        ensures
            ({
                let (state, batch) = old(self)@.batch_formed();
                &&& final(self)@ == state
                &&& match r {
                    Some(formed) => batch == Some(formed@),
                    None => batch is None,
                }
            }),
            final(self).client_view() == old(self).client_view(),
    {
        let ghost buffered = old(self)@.buffered_bytecodes;
        let mut codes: Vec<(B256, Vec<u8>)> = Vec::new();
        assert(bytecode_batch_view(codes@) =~= buffered.take(0));
        assert(self@ =~= DownloaderState { buffered_bytecodes: buffered.skip(0), ..old(self)@ });
        while codes.len() < BYTECODES_PER_BATCH && self.buffered_bytecodes.len() > 0
            invariant
                codes@.len() <= BYTECODES_PER_BATCH,
                codes@.len() <= buffered.len(),
                buffered == old(self)@.buffered_bytecodes,
                self@ == (DownloaderState {
                    buffered_bytecodes: buffered.skip(codes@.len() as int),
                    ..old(self)@
                }),
                bytecode_batch_view(codes@) == buffered.take(codes@.len() as int),
                self.client_view() == old(self).client_view(),
            decreases BYTECODES_PER_BATCH - codes@.len(),
        {
            let ghost k = codes@.len() as int;
            let ghost entries = bytecode_batch_view(codes@);
            let ghost queue = self.buffered_bytecodes@;
            assert(bytecodes_view(queue) == buffered.skip(k));
            assert(bytecodes_view(queue)[0] == queue[0]@);
            if let Some(code) = self.buffered_bytecodes.pop_front() {
                assert(code@ == buffered[k]);
                assert(self@.buffered_bytecodes =~= bytecodes_view(queue).skip(1));
                assert(buffered.skip(k).skip(1) =~= buffered.skip(k + 1));
                assert(self@ =~= DownloaderState {
                    buffered_bytecodes: buffered.skip(k + 1),
                    ..old(self)@
                });
                codes.push((code.hash, code.code));
                assert(bytecode_batch_view(codes@) =~= entries.push(buffered[k]));
                assert(buffered.take(k + 1) =~= buffered.take(k).push(buffered[k]));
            }
        }
        assert(self@.buffered_bytecodes.len() == self.buffered_bytecodes@.len());
        assert(self@.buffered_bytecodes == buffered.skip(codes@.len() as int));
        if codes.len() == 0 {
            assert(self@ =~= old(self)@);
            return None;
        }
        Some(SnapBatch::Bytecode { codes })
    }

    /// Moves on to the next phase.
    pub fn transition_phase(&mut self)
        ensures
            old(self)@.transitions_to(final(self)@),
            final(self).client_view() == old(self).client_view(),
    {
        match self.phase {
            SnapPhase::AccountSync => {
                if !self.account_storage_roots.is_empty() {
                    self.accounts_pending_storage = to_queue(&self.account_storage_roots.keys());
                    self.phase = SnapPhase::StorageSync;
                } else if !self.code_hashes_needed.is_empty() {
                    self.code_hashes_pending = to_queue(&self.code_hashes_needed.to_vec());
                    self.phase = SnapPhase::BytecodeSync;
                } else {
                    self.phase = SnapPhase::Complete;
                }
            },
            SnapPhase::StorageSync => {
                if !self.code_hashes_needed.is_empty() {
                    self.code_hashes_pending = to_queue(&self.code_hashes_needed.to_vec());
                    self.phase = SnapPhase::BytecodeSync;
                } else {
                    self.phase = SnapPhase::Complete;
                }
            },
            SnapPhase::BytecodeSync => {
                self.phase = SnapPhase::Complete;
            },
            SnapPhase::Complete => {},
        }
    }

    /// Whether the current phase has nothing left to ask for, nothing in flight and nothing
    /// buffered.
    fn is_phase_done(&self) -> (r: bool)
        ensures
            r == self@.phase_done(),
    {
        !self.has_work() && match self.phase {
            SnapPhase::AccountSync => self.in_flight_account_requests.len() == 0
                && self.buffered_account_ranges.len() == 0,
            SnapPhase::StorageSync => self.in_flight_storage_requests.len() == 0
                && self.buffered_storage_ranges.len() == 0,
            SnapPhase::BytecodeSync => self.in_flight_bytecode_requests.len() == 0
                && self.buffered_bytecodes.len() == 0,
            SnapPhase::Complete => true,
        }
    }

    /// Where the request with the given number stands among those of the current phase that are
    /// in flight.
    fn position_in_flight(&self, request_id: u64) -> (r: Option<usize>)
        ensures
            match r {
                Some(i) => self@.ids_in_flight().contains(request_id)
                    && self@.ids_in_flight().index_of_first(request_id) == Some(i as int) && i
                    < self@.ids_in_flight().len(),
                None => !self@.ids_in_flight().contains(request_id),
            },
    {
        let ghost ids = self@.ids_in_flight();
        let n = match self.phase {
            SnapPhase::AccountSync => self.in_flight_account_requests.len(),
            SnapPhase::StorageSync => self.in_flight_storage_requests.len(),
            SnapPhase::BytecodeSync => self.in_flight_bytecode_requests.len(),
            SnapPhase::Complete => 0,
        };
        let mut i: usize = 0;
        while i < n
            invariant
                i <= n == ids.len(),
                ids == self@.ids_in_flight(),
                forall|j: int| 0 <= j < i ==> ids[j] != request_id,
            decreases n - i,
        {
            let id = match self.phase {
                SnapPhase::AccountSync => self.in_flight_account_requests[i].request_id,
                SnapPhase::StorageSync => self.in_flight_storage_requests[i].request_id,
                SnapPhase::BytecodeSync => self.in_flight_bytecode_requests[i].request_id,
                SnapPhase::Complete => 0,
            };
            assert(id == ids[i as int]);
            if id == request_id {
                proof {
                    ids.index_of_first_ensures(request_id);
                }
                return Some(i);
            }
            i += 1;
        }
        None
    }

    /// Whether the event can happen now.
    pub fn admits(&self, event: &PollEvent) -> (r: bool)
        ensures
            r == self@.admits(event@),
    {
        let checking = match self.pending_proof {
            PendingProof::Nothing => false,
            _ => true,
        };
        match event {
            PollEvent::Polled => !checking,
            PollEvent::Answered { request_id, .. } => !self.terminated && !checking
                && match self.position_in_flight(*request_id) {
                Some(_) => true,
                None => false,
            },
            PollEvent::Drained => !self.terminated && !checking && self.phase
                != SnapPhase::Complete,
            PollEvent::ProofChecked(_) => checking,
        }
    }

    /// Ends the download with an error.
    fn fail(&mut self, error: DownloadError) -> (turn: PollTurn)
        ensures
            (final(self)@, turn@) == old(self)@.failed(error),
            final(self).client_view() == old(self).client_view(),
    {
        self.terminated = true;
        let submit: Vec<SnapRequest> = Vec::new();
        assert(requests_view(submit@) =~= Seq::<SnapRequestView>::empty());
        PollTurn::Yield { submit, item: Err(error) }
    }

    /// Goes on to the next answer.
    fn go_on(&self) -> (turn: PollTurn)
        ensures
            (self@, turn@) == self@.goes_on(),
    {
        let submit: Vec<SnapRequest> = Vec::new();
        assert(requests_view(submit@) =~= Seq::<SnapRequestView>::empty());
        PollTurn::PollInFlight { submit }
    }

    /// Takes in the outcome of a request that is in flight.
    fn take_answer(
        &mut self,
        at: usize,
        request_id: u64,
        outcome: Result<SnapResponse, RequestError>,
    ) -> (turn: PollTurn)
        requires
            old(self)@.pending_proof is Nothing,
            at < old(self)@.ids_in_flight().len(),
            old(self)@.ids_in_flight().index_of_first(request_id) == Some(at as int),
        ensures
            (final(self)@, turn@) == old(self)@.answered(
                request_id,
                match outcome {
                    Ok(response) => Ok(response@),
                    Err(error) => Err(error),
                },
            ),
            final(self).client_view() == old(self).client_view(),
    {
        match self.phase {
            SnapPhase::AccountSync => {
                let _request = self.in_flight_account_requests.remove(at);
                match outcome {
                    Err(error) => self.fail(DownloadError::RequestError(error)),
                    Ok(response) => match self.process_account_range_response(response) {
                        Ok(None) => self.go_on(),
                        Ok(Some(query)) => PollTurn::VerifyAccountRange(query),
                        Err(error) => self.fail(error),
                    },
                }
            },
            SnapPhase::StorageSync => {
                let request = self.in_flight_storage_requests.remove(at);
                assert(self@ =~= old(self)@.taken_from_flight(request_id));
                match outcome {
                    Err(error) => self.fail(DownloadError::RequestError(error)),
                    Ok(response) => match self.process_storage_ranges_response(
                        request.account_hashes,
                        response,
                    ) {
                        Ok(None) => self.go_on(),
                        Ok(Some(query)) => PollTurn::VerifyStorageRange(query),
                        Err(error) => self.fail(error),
                    },
                }
            },
            SnapPhase::BytecodeSync => {
                let request = self.in_flight_bytecode_requests.remove(at);
                assert(self@ =~= old(self)@.taken_from_flight(request_id));
                match outcome {
                    Err(error) => self.fail(DownloadError::RequestError(error)),
                    Ok(response) => match self.process_bytecode_response(request.hashes, response) {
                        Ok(()) => self.go_on(),
                        Err(error) => self.fail(error),
                    },
                }
            },
            SnapPhase::Complete => self.go_on(),
        }
    }

    /// Goes through a step of the download: takes in what happened, and says what is to be done
    /// next.
    pub fn poll_next(&mut self, event: PollEvent) -> (turn: PollTurn)
        requires
            old(self)@.admits(event@),
        ensures
            old(self)@.steps_to(event@, final(self)@, turn@),
            final(self).client_view() == old(self).client_view(),
    {
        match event {
            PollEvent::Polled => {
                if self.is_terminated() || self.phase == SnapPhase::Complete {
                    PollTurn::Finished
                } else {
                    self.go_on()
                }
            },
            PollEvent::Answered { request_id, outcome } => {
                match self.position_in_flight(request_id) {
                    Some(at) => self.take_answer(at, request_id, outcome),
                    None => self.go_on(),
                }
            },
            PollEvent::ProofChecked(outcome) => {
                match self.pending_proof {
                    PendingProof::Storage(_) => match self.accept_storage_range(outcome) {
                        Ok(None) => self.go_on(),
                        Ok(Some(query)) => PollTurn::VerifyStorageRange(query),
                        Err(error) => self.fail(error),
                    },
                    _ => match self.accept_account_range(outcome) {
                        Ok(()) => self.go_on(),
                        Err(error) => self.fail(error),
                    },
                }
            },
            PollEvent::Drained => {
                let submit = self.submit_requests();
                if self.is_phase_done() {
                    self.transition_phase();
                    if self.phase == SnapPhase::Complete {
                        return PollTurn::Finished;
                    }
                    return PollTurn::PollInFlight { submit };
                }
                match self.try_form_batch() {
                    Some(batch) => PollTurn::Yield { submit, item: Ok(batch) },
                    None => {
                        if submit.len() > 0 {
                            PollTurn::PollInFlight { submit }
                        } else {
                            PollTurn::Pending
                        }
                    },
                }
            },
        }
    }
}

/// The settings of a downloader that is to be built.
#[verifier::ext_equal]
pub struct BuilderSettings {
    pub state_root: B256,
    pub max_concurrent_requests: usize,
    pub start_hash: B256,
    pub target_hash: B256,
}

/// Builder for [`SnapDownloader`].
pub struct SnapDownloaderBuilder<Client> {
    client: Client,
    state_root: B256,
    max_concurrent_requests: usize,
    start_hash: B256,
    target_hash: B256,
}

impl<Client> View for SnapDownloaderBuilder<Client> {
    type V = BuilderSettings;

    closed spec fn view(&self) -> BuilderSettings {
        BuilderSettings {
            state_root: self.state_root,
            max_concurrent_requests: self.max_concurrent_requests,
            start_hash: self.start_hash,
            target_hash: self.target_hash,
        }
    }
}

impl<Client> SnapDownloader<Client> {
    /// Creates a new snap downloader builder: ten concurrent requests, over all account hashes.
    pub fn builder(client: Client, state_root: B256) -> (r: SnapDownloaderBuilder<Client>)
        ensures
            r@ == (BuilderSettings {
                state_root,
                max_concurrent_requests: DEFAULT_MAX_CONCURRENT_REQUESTS,
                start_hash: B256::repeated(0),
                target_hash: B256::repeated(0xff),
            }),
            r.client_view() == client,
    {
        SnapDownloaderBuilder {
            client,
            state_root,
            max_concurrent_requests: DEFAULT_MAX_CONCURRENT_REQUESTS,
            start_hash: B256::zero(),
            target_hash: B256::repeat_byte(0xff),
        }
    }

    /// The client that answers the requests.
    pub fn client(&self) -> (r: &Arc<Client>)
        ensures
            **r == self.client_view(),
    {
        &self.client
    }

    /// The maximum number of concurrent requests.
    pub fn max_concurrent_requests(&self) -> (r: usize)
        ensures
            r == self@.max_concurrent_requests,
    {
        self.max_concurrent_requests
    }

    /// The current sync phase.
    pub fn phase(&self) -> (r: SnapPhase)
        ensures
            r == self@.phase,
    {
        self.phase
    }

    /// The state root for the sync.
    pub fn state_root(&self) -> (r: B256)
        ensures
            r == self@.state_root,
    {
        self.state_root
    }

    /// The next account hash to download from.
    pub fn next_account_hash(&self) -> (r: B256)
        ensures
            r == self@.next_account_hash,
    {
        self.next_account_hash
    }

    /// The target account hash.
    pub fn target_account_hash(&self) -> (r: B256)
        ensures
            r == self@.target_account_hash,
    {
        self.target_account_hash
    }

    /// Whether the downloader has been terminated.
    pub fn terminated(&self) -> (r: bool)
        ensures
            r == self@.terminated,
    {
        self.terminated
    }

    /// The number of requests of the current phase that are in flight.
    pub fn requests_in_flight(&self) -> (r: usize)
        ensures
            r == self@.ids_in_flight().len(),
    {
        match self.phase {
            SnapPhase::AccountSync => self.in_flight_account_requests.len(),
            SnapPhase::StorageSync => self.in_flight_storage_requests.len(),
            SnapPhase::BytecodeSync => self.in_flight_bytecode_requests.len(),
            SnapPhase::Complete => 0,
        }
    }
}

impl<Client> SnapDownloaderBuilder<Client> {
    /// The client that is to answer the requests.
    pub closed spec fn client_view(&self) -> Client {
        self.client
    }

    /// Sets the maximum number of concurrent requests.
    pub fn with_max_concurrent_requests(self, max: usize) -> (r: Self)
        ensures
            r@ == (BuilderSettings { max_concurrent_requests: max, ..self@ }),
            r.client_view() == self.client_view(),
    {
        SnapDownloaderBuilder { max_concurrent_requests: max, ..self }
    }

    /// Sets the starting hash for account sync.
    pub fn with_start_hash(self, hash: B256) -> (r: Self)
        ensures
            r@ == (BuilderSettings { start_hash: hash, ..self@ }),
            r.client_view() == self.client_view(),
    {
        SnapDownloaderBuilder { start_hash: hash, ..self }
    }

    /// Sets the target hash for account sync.
    pub fn with_target_hash(self, hash: B256) -> (r: Self)
        ensures
            r@ == (BuilderSettings { target_hash: hash, ..self@ }),
            r.client_view() == self.client_view(),
    {
        SnapDownloaderBuilder { target_hash: hash, ..self }
    }

    /// Builds the downloader.
    pub fn build(self) -> (r: SnapDownloader<Client>)
        ensures
            r@ == DownloaderState::initial(
                self@.max_concurrent_requests,
                self@.state_root,
                self@.start_hash,
                self@.target_hash,
            ),
            r.client_view() == self.client_view(),
    {
        let ghost settings = self@;
        let r = SnapDownloader {
            client: Arc::new(self.client),
            max_concurrent_requests: self.max_concurrent_requests,
            phase: SnapPhase::AccountSync,
            state_root: self.state_root,
            next_account_hash: self.start_hash,
            target_account_hash: self.target_hash,
            in_flight_account_requests: Vec::new(),
            buffered_account_ranges: VecDeque::new(),
            account_storage_roots: B256Map::new(),
            code_hashes_needed: B256Set::new(),
            accounts_pending_storage: VecDeque::new(),
            in_flight_storage_requests: Vec::new(),
            buffered_storage_ranges: VecDeque::new(),
            code_hashes_pending: VecDeque::new(),
            in_flight_bytecode_requests: Vec::new(),
            buffered_bytecodes: VecDeque::new(),
            pending_proof: PendingProof::Nothing,
            unchecked_storage: StorageAnswer::nothing(),
            request_id: 0,
            terminated: false,
        };
        assert(r@ =~= DownloaderState::initial(
            settings.max_concurrent_requests,
            settings.state_root,
            settings.start_hash,
            settings.target_hash,
        ));
        r
    }
}

/// What is to be checked is shown as it is.
pub proof fn law_queries_show_what_they_hold(
    accounts: AccountProofQuery,
    storage: StorageProofQuery,
)
    ensures
        accounts@.root == accounts.root,
        accounts@.starting_hash == accounts.starting_hash,
        accounts@.account_hashes == accounts.account_hashes@,
        accounts@.accounts == accounts.accounts@,
        shows_blobs(accounts@.proof, accounts.proof@),
        storage@.root == storage.root,
        storage@.starting_hash == storage.starting_hash,
        storage@.slot_hashes == storage.slot_hashes@,
        storage@.values == storage.values@,
        shows_blobs(storage@.proof, storage.proof@),
{
}

/// What a downloader learns and what it wants done are shown as they are.
pub proof fn law_events_and_turns_show_what_they_hold(event: PollEvent, turn: PollTurn)
    ensures
        match event {
            PollEvent::Polled => event@ is Polled,
            PollEvent::Answered { request_id, outcome: Ok(response) } => {
                event@ == PollEventView::Answered { request_id, outcome: Ok(response@) }
            },
            PollEvent::Answered { request_id, outcome: Err(error) } => {
                event@ == PollEventView::Answered { request_id, outcome: Err(error) }
            },
            PollEvent::Drained => event@ is Drained,
            PollEvent::ProofChecked(outcome) => event@ == PollEventView::ProofChecked(outcome),
        },
        match turn {
            PollTurn::PollInFlight { submit } => {
                turn@ is PollInFlight && shows_requests(turn@->PollInFlight_submit, submit@)
            },
            PollTurn::VerifyAccountRange(query) => {
                turn@ == PollTurnView::VerifyAccountRange(query@)
            },
            PollTurn::VerifyStorageRange(query) => {
                turn@ == PollTurnView::VerifyStorageRange(query@)
            },
            PollTurn::Yield { submit, item } => {
                &&& turn@ is Yield
                &&& shows_requests(turn@->Yield_submit, submit@)
                &&& match item {
                    Ok(batch) => turn@->item == Ok::<_, DownloadError>(batch@),
                    Err(error) => turn@->item == Err::<SnapBatchView, _>(error),
                }
            },
            PollTurn::Pending => turn@ is Pending,
            PollTurn::Finished => turn@ is Finished,
        },
{
}

/// The requests are shown one by one.
pub open spec fn shows_requests(shown: Seq<SnapRequestView>, held: Seq<SnapRequest>) -> bool {
    &&& shown.len() == held.len()
    &&& forall|i: int| 0 <= i < held.len() ==> #[trigger] shown[i] == held[i]@
}

} // verus!
