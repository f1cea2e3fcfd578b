//! The model of a snap downloader: its state, and what each step makes of it.

use crate::account::{slim_account_of, storage_value_of, Account, SlimAccount};
use crate::batch::{AccountRange, SnapBatchView, StorageRange};
use crate::collections::lists;
use crate::error::{bad_response, DownloadError, DownloadResult, RequestError};
use crate::hashing::{empty_root, keccak256_of};
use crate::phase::SnapPhase;
use crate::primitives::{bytes_precede, B256, U256};
use crate::wire::{
    GetAccountRangeMessage, GetByteCodesView, GetStorageRangesView, SnapRequestView,
    SnapResponseView,
};
use vstd::prelude::*;

verus! {

/// Maximum response size for snap requests (512KB).
pub const MAX_RESPONSE_BYTES: u64 = 512 * 1024;

/// Maximum response size for bytecode requests.
pub const MAX_BYTECODE_RESPONSE_BYTES: u64 = MAX_RESPONSE_BYTES * 10;

/// Maximum accounts to request storage for in one batch.
pub const STORAGE_ACCOUNTS_PER_BATCH: usize = 128;

/// Maximum bytecode hashes per request.
pub const BYTECODE_CHUNK_SIZE: usize = 50_000;

/// Default maximum concurrent requests.
pub const DEFAULT_MAX_CONCURRENT_REQUESTS: usize = 10;

/// Maximum storage ranges handed on in one batch.
pub const STORAGE_RANGES_PER_BATCH: usize = 100;

/// Maximum bytecodes handed on in one batch.
pub const BYTECODES_PER_BATCH: usize = 1000;

/// What the check of a range proof found.
#[derive(Clone, Copy, Debug, PartialEq, Eq, Structural)]
pub enum ProofOutcome {
    /// The proof could not be checked.
    Failed,
    /// The proof was checked.
    Checked {
        /// Whether the proof proves the range.
        valid: bool,
        /// Whether the trie has more entries after the range.
        has_more: bool,
    },
}

/// The model of a range whose proof is being checked.
#[verifier::ext_equal]
pub enum PendingProofView {
    /// No proof is being checked.
    Nothing,
    /// The accounts of a range.
    Accounts(Seq<(B256, Account, B256)>),
    /// The storage of an account.
    Storage(StorageRange),
}

/// The model of a range proof of accounts that is to be checked.
#[verifier::ext_equal]
pub struct AccountProofView {
    pub root: B256,
    pub starting_hash: B256,
    pub account_hashes: Seq<B256>,
    pub accounts: Seq<Account>,
    pub proof: Seq<Seq<u8>>,
}

/// The model of a range proof of storage slots that is to be checked.
#[verifier::ext_equal]
pub struct StorageProofView {
    pub root: B256,
    pub starting_hash: B256,
    pub slot_hashes: Seq<B256>,
    pub values: Seq<U256>,
    pub proof: Seq<Seq<u8>>,
}

/// The model of what a downloader learns.
#[verifier::ext_equal]
pub enum PollEventView {
    Polled,
    Answered { request_id: u64, outcome: Result<SnapResponseView, RequestError> },
    Drained,
    ProofChecked(ProofOutcome),
}

/// The model of what a downloader wants done.
#[verifier::ext_equal]
pub enum PollTurnView {
    PollInFlight { submit: Seq<SnapRequestView> },
    VerifyAccountRange(AccountProofView),
    VerifyStorageRange(StorageProofView),
    Yield { submit: Seq<SnapRequestView>, item: DownloadResult<SnapBatchView> },
    Pending,
    Finished,
}

/// The model of a snap downloader.
#[verifier::ext_equal]
pub struct DownloaderState {
    pub max_concurrent_requests: usize,
    pub phase: SnapPhase,
    pub state_root: B256,
    pub next_account_hash: B256,
    pub target_account_hash: B256,
    pub in_flight_account_requests: Seq<GetAccountRangeMessage>,
    pub buffered_account_ranges: Seq<AccountRange>,
    pub account_storage_roots: Map<B256, B256>,
    pub code_hashes_needed: Set<B256>,
    pub accounts_pending_storage: Seq<B256>,
    pub in_flight_storage_requests: Seq<GetStorageRangesView>,
    pub buffered_storage_ranges: Seq<StorageRange>,
    pub code_hashes_pending: Seq<B256>,
    pub in_flight_bytecode_requests: Seq<GetByteCodesView>,
    pub buffered_bytecodes: Seq<(B256, Seq<u8>)>,
    pub pending_proof: PendingProofView,
    pub unchecked_storage: StorageAnswerView,
    pub request_id: u64,
    pub terminated: bool,
}

/// The smaller of two numbers.
pub open spec fn min(a: nat, b: nat) -> nat {
    if a <= b {
        a
    } else {
        b
    }
}

/// The request number after the given one.
pub open spec fn id_after(id: u64) -> u64 {
    if id == u64::MAX {
        0
    } else {
        (id + 1) as u64
    }
}

// ===== Account ranges =====

/// The body of an account in a range can be read.
pub open spec fn readable(account: (B256, Seq<u8>)) -> bool {
    slim_account_of(account.1) is Some
}

/// The slim account in a range.
pub open spec fn slim(account: (B256, Seq<u8>)) -> SlimAccount {
    slim_account_of(account.1)->0
}

/// How many accounts of a range can be read, up to the first that cannot.
pub open spec fn readable_prefix(accounts: Seq<(B256, Seq<u8>)>) -> nat
    decreases accounts.len(),
{
    if accounts.len() == 0 {
        0
    } else {
        let before = readable_prefix(accounts.drop_last());
        if before == accounts.len() - 1 && readable(accounts.last()) {
            accounts.len()
        } else {
            before
        }
    }
}

/// The accounts up to the first that cannot be read are those before it.
pub proof fn lemma_readable_prefix_stops(accounts: Seq<(B256, Seq<u8>)>, i: int)
    requires
        0 <= i < accounts.len(),
        readable_prefix(accounts.take(i)) == i,
        !readable(accounts[i]),
    ensures
        readable_prefix(accounts) == i,
    decreases accounts.len(),
{
    let front = accounts.drop_last();
    if i == front.len() {
        assert(front =~= accounts.take(i));
    } else {
        assert(front.take(i) =~= accounts.take(i));
        lemma_readable_prefix_stops(front, i);
    }
}

/// The account in a range, as it is handed on.
pub open spec fn account_entry(account: (B256, Seq<u8>)) -> (B256, Account, B256) {
    let slim = slim(account);
    (
        account.0,
        Account { nonce: slim.nonce, balance: slim.balance, bytecode_hash: slim.bytecode_hash },
        slim.storage_root,
    )
}

/// The accounts of a range, as they are handed on.
pub open spec fn account_entries(accounts: Seq<(B256, Seq<u8>)>) -> Seq<(B256, Account, B256)> {
    accounts.map_values(|account: (B256, Seq<u8>)| account_entry(account))
}

/// The storage roots that are known once the accounts were seen: those of accounts with storage
/// are added, a later one in place of an earlier.
pub open spec fn roots_noted(
    roots: Map<B256, B256>,
    accounts: Seq<(B256, Seq<u8>)>,
) -> Map<B256, B256>
    decreases accounts.len(),
{
    if accounts.len() == 0 {
        roots
    } else {
        let before = roots_noted(roots, accounts.drop_last());
        let (hash, root) = (accounts.last().0, slim(accounts.last()).storage_root);
        if root != empty_root() {
            before.insert(hash, root)
        } else {
            before
        }
    }
}

/// The code hashes that are needed once the accounts were seen: those of accounts with code are
/// added.
pub open spec fn codes_noted(codes: Set<B256>, accounts: Seq<(B256, Seq<u8>)>) -> Set<B256>
    decreases accounts.len(),
{
    if accounts.len() == 0 {
        codes
    } else {
        let before = codes_noted(codes, accounts.drop_last());
        match slim(accounts.last()).bytecode_hash {
            Some(code_hash) => before.insert(code_hash),
            None => before,
        }
    }
}

// ===== Storage ranges =====

/// The values of all slots can be read.
pub open spec fn slots_readable(slots: Seq<(B256, Seq<u8>)>) -> bool {
    forall|j: int| 0 <= j < slots.len() ==> storage_value_of(#[trigger] slots[j].1) is Some
}

/// The slots with their values.
pub open spec fn slot_values(slots: Seq<(B256, Seq<u8>)>) -> Seq<(B256, U256)> {
    slots.map_values(|slot: (B256, Seq<u8>)| (slot.0, storage_value_of(slot.1)->0))
}

/// The range of an account, taken for complete.
pub open spec fn storage_range(
    account_hash: B256,
    storage_root: B256,
    slots: Seq<(B256, Seq<u8>)>,
) -> StorageRange {
    StorageRange { account_hash, storage_root, slots: slot_values(slots), is_complete: true }
}

/// What is left of an answer to a request for storage: the accounts that were asked for, the
/// slots of each of them in the same order, and the trie nodes that prove the last list of slots.
#[verifier::ext_equal]
pub struct StorageAnswerView {
    pub batch: Seq<B256>,
    pub slots: Seq<Seq<(B256, Seq<u8>)>>,
    pub proof: Seq<Seq<u8>>,
}

impl StorageAnswerView {
    /// Nothing is left.
    pub open spec fn nothing() -> StorageAnswerView {
        StorageAnswerView { batch: Seq::empty(), slots: Seq::empty(), proof: Seq::empty() }
    }

    /// The trie nodes that prove the first list of slots: those of the answer where it is the
    /// last, and none otherwise.
    pub open spec fn first_proof(self) -> Seq<Seq<u8>> {
        if self.slots.len() == 1 {
            self.proof
        } else {
            Seq::empty()
        }
    }

    /// What is left without the first account and the first list of slots.
    pub open spec fn rest(self) -> StorageAnswerView {
        StorageAnswerView {
            batch: self.batch.skip(1),
            slots: self.slots.skip(1),
            proof: if self.slots.len() == 1 {
                Seq::empty()
            } else {
                self.proof
            },
        }
    }
}

// ===== Bytecode =====

/// How many codes of an answer hash to what was asked for, up to the first that does not.
pub open spec fn codes_matching(batch: Seq<B256>, codes: Seq<Seq<u8>>, n: nat) -> nat
    decreases n,
{
    if n == 0 {
        0
    } else {
        let before = codes_matching(batch, codes, (n - 1) as nat);
        if before == n - 1 && keccak256_of(codes[n - 1]) == batch[n - 1]@ {
            n
        } else {
            before
        }
    }
}

/// The codes up to the first that does not match are those before it.
pub proof fn lemma_codes_matching_stops(batch: Seq<B256>, codes: Seq<Seq<u8>>, i: nat, n: nat)
    requires
        i < n,
        codes_matching(batch, codes, i) == i,
        keccak256_of(codes[i as int]) != batch[i as int]@,
    ensures
        codes_matching(batch, codes, n) == i,
    decreases n,
{
    if i < n - 1 {
        lemma_codes_matching_stops(batch, codes, i, (n - 1) as nat);
    }
}

/// The first `n` codes with the hashes that were asked for.
pub open spec fn code_entries(batch: Seq<B256>, codes: Seq<Seq<u8>>, n: nat) -> Seq<
    (B256, Seq<u8>),
> {
    Seq::new(n, |i: int| (batch[i], codes[i]))
}

// ===== Batches =====

/// The accounts of complete ranges.
pub open spec fn complete_accounts(ranges: Seq<StorageRange>) -> Set<B256>
    decreases ranges.len(),
{
    if ranges.len() == 0 {
        Set::empty()
    } else {
        let before = complete_accounts(ranges.drop_last());
        if ranges.last().is_complete {
            before.insert(ranges.last().account_hash)
        } else {
            before
        }
    }
}

/// The accounts of partial ranges that hold slots, each with the last of these.
pub open spec fn partial_accounts(ranges: Seq<StorageRange>) -> Map<B256, B256>
    decreases ranges.len(),
{
    if ranges.len() == 0 {
        Map::empty()
    } else {
        let before = partial_accounts(ranges.drop_last());
        let last = ranges.last();
        if !last.is_complete && last.slots.len() > 0 {
            before.insert(last.account_hash, last.slots.last().0)
        } else {
            before
        }
    }
}

/// The ranges, as they are handed on.
pub open spec fn storage_entries(ranges: Seq<StorageRange>) -> Seq<
    (B256, B256, Seq<(B256, U256)>),
> {
    ranges.map_values(|range: StorageRange| (range.account_hash, range.storage_root, range.slots))
}

impl DownloaderState {
    /// The state of a downloader that has not begun.
    pub open spec fn initial(
        max_concurrent_requests: usize,
        state_root: B256,
        start_hash: B256,
        target_hash: B256,
    ) -> DownloaderState {
        DownloaderState {
            max_concurrent_requests,
            phase: SnapPhase::AccountSync,
            state_root,
            next_account_hash: start_hash,
            target_account_hash: target_hash,
            in_flight_account_requests: Seq::empty(),
            buffered_account_ranges: Seq::empty(),
            account_storage_roots: Map::empty(),
            code_hashes_needed: Set::empty(),
            accounts_pending_storage: Seq::empty(),
            in_flight_storage_requests: Seq::empty(),
            buffered_storage_ranges: Seq::empty(),
            code_hashes_pending: Seq::empty(),
            in_flight_bytecode_requests: Seq::empty(),
            buffered_bytecodes: Seq::empty(),
            pending_proof: PendingProofView::Nothing,
            unchecked_storage: StorageAnswerView::nothing(),
            request_id: 0,
            terminated: false,
        }
    }

    // ===== Requests =====

    /// The numbers of the requests of the current phase that are in flight.
    pub open spec fn ids_in_flight(self) -> Seq<u64> {
        match self.phase {
            SnapPhase::AccountSync => self.in_flight_account_requests.map_values(
                |request: GetAccountRangeMessage| request.request_id,
            ),
            SnapPhase::StorageSync => self.in_flight_storage_requests.map_values(
                |request: GetStorageRangesView| request.request_id,
            ),
            SnapPhase::BytecodeSync => self.in_flight_bytecode_requests.map_values(
                |request: GetByteCodesView| request.request_id,
            ),
            SnapPhase::Complete => Seq::empty(),
        }
    }

    /// The current phase has room for another request.
    pub open spec fn can_submit(self) -> bool {
        self.phase != SnapPhase::Complete && self.ids_in_flight().len()
            < self.max_concurrent_requests
    }

    /// The current phase has something left to ask for.
    pub open spec fn has_work(self) -> bool {
        match self.phase {
            SnapPhase::AccountSync => bytes_precede(
                self.next_account_hash@,
                self.target_account_hash@,
            ),
            SnapPhase::StorageSync => self.accounts_pending_storage.len() > 0,
            SnapPhase::BytecodeSync => self.code_hashes_pending.len() > 0,
            SnapPhase::Complete => false,
        }
    }

    /// The request for the accounts from the next account on.
    pub open spec fn account_request(self) -> GetAccountRangeMessage {
        GetAccountRangeMessage {
            request_id: self.request_id,
            root_hash: self.state_root,
            starting_hash: self.next_account_hash,
            limit_hash: self.target_account_hash,
            response_bytes: MAX_RESPONSE_BYTES,
        }
    }

    /// The request for the storage of the first pending accounts.
    pub open spec fn storage_request(self) -> GetStorageRangesView {
        GetStorageRangesView {
            request_id: self.request_id,
            root_hash: self.state_root,
            account_hashes: self.accounts_pending_storage.take(self.storage_batch_size() as int),
            starting_hash: B256::repeated(0),
            limit_hash: B256::repeated(0xff),
            response_bytes: MAX_RESPONSE_BYTES,
        }
    }

    /// How many accounts the next storage request names.
    pub open spec fn storage_batch_size(self) -> nat {
        min(STORAGE_ACCOUNTS_PER_BATCH as nat, self.accounts_pending_storage.len())
    }

    /// The request for the first pending code hashes.
    pub open spec fn bytecode_request(self) -> GetByteCodesView {
        GetByteCodesView {
            request_id: self.request_id,
            hashes: self.code_hashes_pending.take(self.bytecode_batch_size() as int),
            response_bytes: MAX_BYTECODE_RESPONSE_BYTES,
        }
    }

    /// How many hashes the next bytecode request names.
    pub open spec fn bytecode_batch_size(self) -> nat {
        min(BYTECODE_CHUNK_SIZE as nat, self.code_hashes_pending.len())
    }

    /// The state once an account range was asked for.
    pub open spec fn account_range_requested(self) -> DownloaderState {
        DownloaderState {
            request_id: id_after(self.request_id),
            in_flight_account_requests: self.in_flight_account_requests.push(
                self.account_request(),
            ),
            ..self
        }
    }

    /// The state once storage was asked for; nothing is asked for where no account is pending.
    pub open spec fn storage_ranges_requested(self) -> DownloaderState {
        if self.accounts_pending_storage.len() == 0 {
            self
        } else {
            DownloaderState {
                request_id: id_after(self.request_id),
                accounts_pending_storage: self.accounts_pending_storage.skip(
                    self.storage_batch_size() as int,
                ),
                in_flight_storage_requests: self.in_flight_storage_requests.push(
                    self.storage_request(),
                ),
                ..self
            }
        }
    }

    /// The state once bytecode was asked for; nothing is asked for where no hash is pending.
    pub open spec fn bytecode_requested(self) -> DownloaderState {
        if self.code_hashes_pending.len() == 0 {
            self
        } else {
            DownloaderState {
                request_id: id_after(self.request_id),
                code_hashes_pending: self.code_hashes_pending.skip(
                    self.bytecode_batch_size() as int,
                ),
                in_flight_bytecode_requests: self.in_flight_bytecode_requests.push(
                    self.bytecode_request(),
                ),
                ..self
            }
        }
    }

    /// The next request of the current phase.
    pub open spec fn next_request(self) -> SnapRequestView {
        match self.phase {
            SnapPhase::StorageSync => SnapRequestView::StorageRanges(self.storage_request()),
            SnapPhase::BytecodeSync => SnapRequestView::ByteCodes(self.bytecode_request()),
            _ => SnapRequestView::AccountRange(self.account_request()),
        }
    }

    /// The state once the next request of the current phase was made.
    pub open spec fn requested(self) -> DownloaderState {
        match self.phase {
            SnapPhase::AccountSync => self.account_range_requested(),
            SnapPhase::StorageSync => self.storage_ranges_requested(),
            SnapPhase::BytecodeSync => self.bytecode_requested(),
            SnapPhase::Complete => self,
        }
    }

    /// The room for requests that the current phase has left.
    pub open spec fn room(self) -> nat {
        if self.can_submit() {
            (self.max_concurrent_requests - self.ids_in_flight().len()) as nat
        } else {
            0
        }
    }

    /// The state once the current phase made requests as long as there is room and work, and the
    /// requests that it made, in order.
    pub open spec fn submitted(self) -> (DownloaderState, Seq<SnapRequestView>)
        decreases self.room(),
    {
        if self.can_submit() && self.has_work() {
            let (state, requests) = self.requested().submitted();
            (state, seq![self.next_request()] + requests)
        } else {
            (self, Seq::empty())
        }
    }

    // ===== Answers =====

    /// The state once an account range answer was taken in, and the proof that is to be checked
    /// next.
    ///
    /// An empty range ends the account phase. Of any other range every account is noted up to
    /// the first that cannot be read; where all can be read, the proof decides.
    pub open spec fn account_range_processed(self, response: SnapResponseView) -> (
        DownloaderState,
        DownloadResult<Option<AccountProofView>>,
    ) {
        match response {
            SnapResponseView::AccountRange(message) => {
                if message.accounts.len() == 0 {
                    (
                        DownloaderState { next_account_hash: self.target_account_hash, ..self },
                        Ok(None),
                    )
                } else {
                    let seen = message.accounts.take(readable_prefix(message.accounts) as int);
                    let noted = DownloaderState {
                        account_storage_roots: roots_noted(self.account_storage_roots, seen),
                        code_hashes_needed: codes_noted(self.code_hashes_needed, seen),
                        ..self
                    };
                    if seen.len() < message.accounts.len() {
                        (noted, Err(bad_response()))
                    } else {
                        let entries = account_entries(message.accounts);
                        (
                            DownloaderState {
                                pending_proof: PendingProofView::Accounts(entries),
                                ..noted
                            },
                            Ok(
                                Some(
                                    AccountProofView {
                                        root: self.state_root,
                                        starting_hash: self.next_account_hash,
                                        account_hashes: entries.map_values(
                                            |entry: (B256, Account, B256)| entry.0,
                                        ),
                                        accounts: entries.map_values(
                                            |entry: (B256, Account, B256)| entry.1,
                                        ),
                                        proof: message.proof,
                                    },
                                ),
                            ),
                        )
                    }
                }
            },
            _ => (self, Err(bad_response())),
        }
    }

    /// The state once the proof of an account range was checked: only a valid range is buffered,
    /// and the next account is then the last of the range.
    pub open spec fn account_range_checked(self, outcome: ProofOutcome) -> (
        DownloaderState,
        DownloadResult<()>,
    ) {
        let cleared = DownloaderState { pending_proof: PendingProofView::Nothing, ..self };
        match (self.pending_proof, outcome) {
            (
                PendingProofView::Accounts(accounts),
                ProofOutcome::Checked { valid: true, has_more },
            ) => (
                DownloaderState {
                    next_account_hash: if accounts.len() > 0 {
                        accounts.last().0
                    } else {
                        self.next_account_hash
                    },
                    buffered_account_ranges: self.buffered_account_ranges.push(
                        AccountRange { accounts, has_more },
                    ),
                    ..cleared
                },
                Ok(()),
            ),
            _ => (cleared, Err(bad_response())),
        }
    }

    /// The state once an answer to a request for the storage of a batch of accounts was taken
    /// in, and the proof that is to be checked next.
    pub open spec fn storage_ranges_processed(
        self,
        batch: Seq<B256>,
        response: SnapResponseView,
    ) -> (DownloaderState, DownloadResult<Option<StorageProofView>>) {
        match response {
            SnapResponseView::StorageRanges(message) => self.storage_ranges_taken(
                StorageAnswerView { batch, slots: message.slots, proof: message.proof },
            ),
            _ => (self, Err(bad_response())),
        }
    }

    /// The state once the ranges that are left of an answer were taken in, up to the next proof
    /// that is to be checked.
    ///
    /// The ranges are gone through in order, without those of accounts whose storage root is not
    /// known. One that cannot be read ends the download. One without slots has nothing to be
    /// checked and is buffered. Any other is put to the check; what comes after it waits.
    pub open spec fn storage_ranges_taken(self, answer: StorageAnswerView) -> (
        DownloaderState,
        DownloadResult<Option<StorageProofView>>,
    )
        decreases answer.slots.len(),
    {
        let done = DownloaderState { unchecked_storage: StorageAnswerView::nothing(), ..self };
        if answer.batch.len() == 0 || answer.slots.len() == 0 {
            (done, Ok(None))
        } else {
            let account = answer.batch[0];
            let slots = answer.slots[0];
            let range = storage_range(account, self.account_storage_roots[account], slots);
            if !self.account_storage_roots.contains_key(account) {
                self.storage_ranges_taken(answer.rest())
            } else if !slots_readable(slots) {
                (done, Err(bad_response()))
            } else if slots.len() == 0 {
                self.storage_buffered(range).storage_ranges_taken(answer.rest())
            } else {
                (
                    DownloaderState {
                        pending_proof: PendingProofView::Storage(range),
                        unchecked_storage: answer.rest(),
                        ..self
                    },
                    Ok(
                        Some(
                            StorageProofView {
                                root: range.storage_root,
                                starting_hash: B256::repeated(0),
                                slot_hashes: range.slots.map_values(|slot: (B256, U256)| slot.0),
                                values: range.slots.map_values(|slot: (B256, U256)| slot.1),
                                proof: answer.first_proof(),
                            },
                        ),
                    ),
                )
            }
        }
    }

    /// The state once a storage range was buffered.
    pub open spec fn storage_buffered(self, range: StorageRange) -> DownloaderState {
        DownloaderState {
            buffered_storage_ranges: self.buffered_storage_ranges.push(range),
            ..self
        }
    }

    /// The state once the proof of a storage range was checked, and the proof that is to be
    /// checked next: only a valid range is buffered, it is complete where the trie has nothing
    /// after it, and then the rest of the answer is taken in.
    pub open spec fn storage_range_checked(self, outcome: ProofOutcome) -> (
        DownloaderState,
        DownloadResult<Option<StorageProofView>>,
    ) {
        let cleared = DownloaderState {
            pending_proof: PendingProofView::Nothing,
            unchecked_storage: StorageAnswerView::nothing(),
            ..self
        };
        match (self.pending_proof, outcome) {
            (
                PendingProofView::Storage(range),
                ProofOutcome::Checked { valid: true, has_more },
            ) => cleared.storage_buffered(
                StorageRange { is_complete: !has_more, ..range },
            ).storage_ranges_taken(self.unchecked_storage),
            _ => (cleared, Err(bad_response())),
        }
    }

    /// The state once an answer to a request for a batch of code hashes was taken in: the codes
    /// are buffered in order up to the first that does not have the hash that was asked for.
    pub open spec fn bytecode_processed(self, batch: Seq<B256>, response: SnapResponseView) -> (
        DownloaderState,
        DownloadResult<()>,
    ) {
        match response {
            SnapResponseView::ByteCodes(message) => {
                let answered = min(batch.len(), message.codes.len());
                let n = codes_matching(batch, message.codes, answered);
                (
                    DownloaderState {
                        buffered_bytecodes: self.buffered_bytecodes + code_entries(
                            batch,
                            message.codes,
                            n,
                        ),
                        ..self
                    },
                    if n < answered {
                        Err(bad_response())
                    } else {
                        Ok(())
                    },
                )
            },
            _ => (self, Err(bad_response())),
        }
    }

    // ===== Batches =====

    /// The state once a batch was formed from what the current phase has buffered, and the
    /// batch; nothing changes where nothing is buffered.
    pub open spec fn batch_formed(self) -> (DownloaderState, Option<SnapBatchView>) {
        match self.phase {
            SnapPhase::AccountSync => {
                if self.buffered_account_ranges.len() == 0 {
                    (self, None)
                } else {
                    let range = self.buffered_account_ranges[0];
                    (
                        DownloaderState {
                            buffered_account_ranges: self.buffered_account_ranges.skip(1),
                            ..self
                        },
                        Some(
                            SnapBatchView::Accounts {
                                accounts: range.accounts,
                                has_more: range.has_more,
                            },
                        ),
                    )
                }
            },
            SnapPhase::StorageSync => {
                let n = min(STORAGE_RANGES_PER_BATCH as nat, self.buffered_storage_ranges.len());
                let ranges = self.buffered_storage_ranges.take(n as int);
                if n == 0 {
                    (self, None)
                } else {
                    (
                        DownloaderState {
                            buffered_storage_ranges: self.buffered_storage_ranges.skip(n as int),
                            ..self
                        },
                        Some(
                            SnapBatchView::Storage {
                                storage: storage_entries(ranges),
                                accounts_complete: complete_accounts(ranges),
                                accounts_partial: partial_accounts(ranges),
                            },
                        ),
                    )
                }
            },
            SnapPhase::BytecodeSync => {
                let n = min(BYTECODES_PER_BATCH as nat, self.buffered_bytecodes.len());
                if n == 0 {
                    (self, None)
                } else {
                    (
                        DownloaderState {
                            buffered_bytecodes: self.buffered_bytecodes.skip(n as int),
                            ..self
                        },
                        Some(
                            SnapBatchView::Bytecode {
                                codes: self.buffered_bytecodes.take(n as int),
                            },
                        ),
                    )
                }
            },
            SnapPhase::Complete => (self, None),
        }
    }

    // ===== Phases =====

    /// The current phase has nothing left to ask for, nothing in flight and nothing buffered.
    pub open spec fn phase_done(self) -> bool {
        &&& !self.has_work()
        &&& self.ids_in_flight().len() == 0
        &&& match self.phase {
            SnapPhase::AccountSync => self.buffered_account_ranges.len() == 0,
            SnapPhase::StorageSync => self.buffered_storage_ranges.len() == 0,
            SnapPhase::BytecodeSync => self.buffered_bytecodes.len() == 0,
            SnapPhase::Complete => true,
        }
    }

    /// The second state follows the first by a change of phase: from accounts to storage where
    /// an account has storage, on to bytecode where code is needed, and to the end otherwise. A
    /// phase that is entered has all its work before it, in an order that is left open.
    pub open spec fn transitions_to(self, next: DownloaderState) -> bool {
        let storage_next = self.phase == SnapPhase::AccountSync
            && self.account_storage_roots.dom() != Set::<B256>::empty();
        let code_next = (self.phase == SnapPhase::AccountSync || self.phase
            == SnapPhase::StorageSync) && self.code_hashes_needed != Set::<B256>::empty();
        if storage_next {
            &&& lists(next.accounts_pending_storage, self.account_storage_roots.dom())
            &&& next == DownloaderState {
                phase: SnapPhase::StorageSync,
                accounts_pending_storage: next.accounts_pending_storage,
                ..self
            }
        } else if code_next {
            &&& lists(next.code_hashes_pending, self.code_hashes_needed)
            &&& next == DownloaderState {
                phase: SnapPhase::BytecodeSync,
                code_hashes_pending: next.code_hashes_pending,
                ..self
            }
        } else {
            next == DownloaderState { phase: SnapPhase::Complete, ..self }
        }
    }

    /// The downloader has nothing more to hand on.
    pub open spec fn is_terminated(self) -> bool {
        ||| self.terminated
        ||| {
            &&& self.phase == SnapPhase::Complete
            &&& self.in_flight_account_requests.len() == 0
            &&& self.in_flight_storage_requests.len() == 0
            &&& self.in_flight_bytecode_requests.len() == 0
            &&& self.buffered_account_ranges.len() == 0
            &&& self.buffered_storage_ranges.len() == 0
            &&& self.buffered_bytecodes.len() == 0
        }
    }

    // ===== Polling =====

    /// The event can happen in this state: the consumer polls only while no proof is being
    /// checked; as long as the downloader is not terminated an answer can come for a request of
    /// the current phase that is in flight, and until the last phase there can be no more
    /// answers; and a proof is checked only when one was asked for.
    pub open spec fn admits(self, event: PollEventView) -> bool {
        match event {
            PollEventView::Polled => self.pending_proof is Nothing,
            PollEventView::Answered { request_id, .. } => {
                &&& !self.terminated
                &&& self.pending_proof is Nothing
                &&& self.ids_in_flight().contains(request_id)
            },
            PollEventView::Drained => {
                &&& !self.terminated
                &&& self.pending_proof is Nothing
                &&& self.phase != SnapPhase::Complete
            },
            PollEventView::ProofChecked(_) => !(self.pending_proof is Nothing),
        }
    }

    /// The downloader failed: it is terminated, and the consumer gets the error.
    pub open spec fn failed(self, error: DownloadError) -> (DownloaderState, PollTurnView) {
        (
            DownloaderState { terminated: true, ..self },
            PollTurnView::Yield { submit: Seq::empty(), item: Err(error) },
        )
    }

    /// The downloader goes on to the next answer.
    pub open spec fn goes_on(self) -> (DownloaderState, PollTurnView) {
        (self, PollTurnView::PollInFlight { submit: Seq::empty() })
    }

    /// The state without the request of the current phase that an answer belongs to.
    pub open spec fn taken_from_flight(self, request_id: u64) -> DownloaderState {
        let at = self.ids_in_flight().index_of_first(request_id)->0;
        match self.phase {
            SnapPhase::AccountSync => DownloaderState {
                in_flight_account_requests: self.in_flight_account_requests.remove(at),
                ..self
            },
            SnapPhase::StorageSync => DownloaderState {
                in_flight_storage_requests: self.in_flight_storage_requests.remove(at),
                ..self
            },
            SnapPhase::BytecodeSync => DownloaderState {
                in_flight_bytecode_requests: self.in_flight_bytecode_requests.remove(at),
                ..self
            },
            SnapPhase::Complete => self,
        }
    }

    /// What a request that is in flight was answered makes of the state.
    pub open spec fn answered(
        self,
        request_id: u64,
        outcome: Result<SnapResponseView, RequestError>,
    ) -> (DownloaderState, PollTurnView) {
        let at = self.ids_in_flight().index_of_first(request_id)->0;
        let taken = self.taken_from_flight(request_id);
        match outcome {
            Err(error) => taken.failed(DownloadError::RequestError(error)),
            Ok(response) => match self.phase {
                SnapPhase::AccountSync => match taken.account_range_processed(response) {
                    (state, Ok(None)) => state.goes_on(),
                    (state, Ok(Some(query))) => (state, PollTurnView::VerifyAccountRange(query)),
                    (state, Err(error)) => state.failed(error),
                },
                SnapPhase::StorageSync => match taken.storage_ranges_processed(
                    self.in_flight_storage_requests[at].account_hashes,
                    response,
                ) {
                    (state, Ok(None)) => state.goes_on(),
                    (state, Ok(Some(query))) => (state, PollTurnView::VerifyStorageRange(query)),
                    (state, Err(error)) => state.failed(error),
                },
                SnapPhase::BytecodeSync => match taken.bytecode_processed(
                    self.in_flight_bytecode_requests[at].hashes,
                    response,
                ) {
                    (state, Ok(())) => state.goes_on(),
                    (state, Err(error)) => state.failed(error),
                },
                SnapPhase::Complete => taken.goes_on(),
            },
        }
    }

    /// What a checked proof makes of the state.
    pub open spec fn proof_checked(self, outcome: ProofOutcome) -> (DownloaderState, PollTurnView) {
        if self.pending_proof is Storage {
            match self.storage_range_checked(outcome) {
                (state, Ok(None)) => state.goes_on(),
                (state, Ok(Some(query))) => (state, PollTurnView::VerifyStorageRange(query)),
                (state, Err(error)) => state.failed(error),
            }
        } else {
            match self.account_range_checked(outcome) {
                (state, Ok(())) => state.goes_on(),
                (state, Err(error)) => state.failed(error),
            }
        }
    }

    /// What follows once no request in flight has an answer ready: requests are made, then the
    /// phase changes where it is done; otherwise a batch is handed on where one can be formed.
    /// Where nothing is buffered, requests that were just made are polled before the consumer
    /// has to wait.
    pub open spec fn drained_to(self, next: DownloaderState, turn: PollTurnView) -> bool {
        let (sent, submit) = self.submitted();
        if sent.phase_done() {
            &&& sent.transitions_to(next)
            &&& turn == if next.phase == SnapPhase::Complete {
                PollTurnView::Finished
            } else {
                PollTurnView::PollInFlight { submit }
            }
        } else {
            match sent.batch_formed() {
                (state, Some(batch)) => {
                    &&& next == state
                    &&& turn == PollTurnView::Yield { submit, item: Ok(batch) }
                },
                (state, None) => {
                    &&& next == state
                    &&& turn == if submit.len() > 0 {
                        PollTurnView::PollInFlight { submit }
                    } else {
                        PollTurnView::Pending
                    }
                },
            }
        }
    }

    /// The event takes the first state to the second, and asks for the turn.
    pub open spec fn steps_to(
        self,
        event: PollEventView,
        next: DownloaderState,
        turn: PollTurnView,
    ) -> bool {
        match event {
            PollEventView::Polled => {
                &&& next == self
                &&& turn == if self.is_terminated() || self.phase == SnapPhase::Complete {
                    PollTurnView::Finished
                } else {
                    PollTurnView::PollInFlight { submit: Seq::empty() }
                }
            },
            PollEventView::Answered { request_id, outcome } => (next, turn) == self.answered(
                request_id,
                outcome,
            ),
            PollEventView::Drained => self.drained_to(next, turn),
            PollEventView::ProofChecked(outcome) => (next, turn) == self.proof_checked(outcome),
        }
    }
}

} // verus!
