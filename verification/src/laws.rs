//! What holds of a snap synchronisation as a whole.

use crate::account::Account;
use crate::batch::{AccountRange, SnapBatchView, StorageRange};
use crate::collections::lists;
use crate::error::{bad_response, DownloadResult};
use crate::hashing::{empty_root, keccak256_of};
use crate::model::{
    code_entries, codes_matching, codes_noted, complete_accounts, min, partial_accounts,
    readable_prefix, roots_noted, slim, storage_entries, storage_range, DownloaderState,
    PendingProofView, PollEventView, PollTurnView, ProofOutcome, StorageAnswerView,
    StorageProofView, BYTECODES_PER_BATCH, BYTECODE_CHUNK_SIZE, STORAGE_ACCOUNTS_PER_BATCH,
    STORAGE_RANGES_PER_BATCH,
};
use crate::phase::SnapPhase;
use crate::primitives::{bytes_precede, B256, U256};
use crate::wire::{
    AccountRangeView, GetAccountRangeMessage, GetByteCodesView, GetStorageRangesView,
    SnapRequestView, SnapResponseView,
};
use vstd::prelude::*;

verus! {

// ===== The invariant =====

/// No phase has more requests in flight than the limit allows.
pub open spec fn within_limit(s: DownloaderState) -> bool {
    &&& s.in_flight_account_requests.len() <= s.max_concurrent_requests
    &&& s.in_flight_storage_requests.len() <= s.max_concurrent_requests
    &&& s.in_flight_bytecode_requests.len() <= s.max_concurrent_requests
}

/// Only the current phase has work, requests in flight, or buffered data.
pub open spec fn phases_apart(s: DownloaderState) -> bool {
    &&& s.phase != SnapPhase::AccountSync ==> {
        &&& s.in_flight_account_requests.len() == 0
        &&& s.buffered_account_ranges.len() == 0
        &&& !(s.pending_proof is Accounts)
    }
    &&& s.phase != SnapPhase::StorageSync ==> {
        &&& s.accounts_pending_storage.len() == 0
        &&& s.in_flight_storage_requests.len() == 0
        &&& s.buffered_storage_ranges.len() == 0
        &&& !(s.pending_proof is Storage)
    }
    &&& s.phase != SnapPhase::BytecodeSync ==> {
        &&& s.code_hashes_pending.len() == 0
        &&& s.in_flight_bytecode_requests.len() == 0
        &&& s.buffered_bytecodes.len() == 0
    }
}

/// The code hashes to the hash that it is listed under.
pub open spec fn code_matches(entry: (B256, Seq<u8>)) -> bool {
    keccak256_of(entry.1) == entry.0@
}

/// Every buffered bytecode hashes to the hash that it is listed under.
pub open spec fn codes_match(codes: Seq<(B256, Seq<u8>)>) -> bool {
    forall|i: int| 0 <= i < codes.len() ==> code_matches(#[trigger] codes[i])
}

/// The range belongs to an account with storage, and names its storage root.
pub open spec fn root_known(roots: Map<B256, B256>, range: StorageRange) -> bool {
    roots.contains_key(range.account_hash) && roots[range.account_hash] == range.storage_root
}

/// Only accounts with storage are listed as such.
pub open spec fn roots_of_storage(roots: Map<B256, B256>) -> bool {
    forall|account: B256| #[trigger] roots.contains_key(account) ==> roots[account] != empty_root()
}

/// Every buffered storage range, and the one whose proof is being checked, belongs to an account
/// with storage and names its storage root.
pub open spec fn ranges_rooted(s: DownloaderState) -> bool {
    &&& forall|i: int|
        0 <= i < s.buffered_storage_ranges.len() ==> root_known(
            s.account_storage_roots,
            #[trigger] s.buffered_storage_ranges[i],
        )
    &&& s.pending_proof matches PendingProofView::Storage(range) ==> root_known(
        s.account_storage_roots,
        range,
    )
}

/// A range whose proof is being checked has slots, and so has a buffered range that is not
/// complete; what is left of an answer waits for the check of a range of that answer.
pub open spec fn checks_have_slots(s: DownloaderState) -> bool {
    &&& forall|i: int|
        0 <= i < s.buffered_storage_ranges.len() ==> (
        #[trigger] s.buffered_storage_ranges[i]).is_complete
            || s.buffered_storage_ranges[i].slots.len() > 0
    &&& s.pending_proof matches PendingProofView::Storage(range) ==> range.slots.len() > 0
    &&& !(s.pending_proof is Storage) ==> s.unchecked_storage == StorageAnswerView::nothing()
}

/// The account phase is over only once the target is reached.
pub open spec fn accounts_reach_target(s: DownloaderState) -> bool {
    s.phase != SnapPhase::AccountSync ==> !bytes_precede(
        s.next_account_hash@,
        s.target_account_hash@,
    )
}

/// What holds of a downloader at all times.
pub open spec fn consistent(s: DownloaderState) -> bool {
    &&& within_limit(s)
    &&& phases_apart(s)
    &&& codes_match(s.buffered_bytecodes)
    &&& roots_of_storage(s.account_storage_roots)
    &&& ranges_rooted(s)
    &&& checks_have_slots(s)
    &&& accounts_reach_target(s)
    &&& s.terminated ==> s.pending_proof is Nothing
}

/// A new downloader is consistent.
pub proof fn law_new_downloader_is_consistent(max: usize, root: B256, start: B256, target: B256)
    ensures
        consistent(DownloaderState::initial(max, root, start, target)),
{
}

/// Every step keeps a downloader consistent: among other things it never has more requests in
/// flight than its limit allows, and never holds bytecode that does not have the hash that was
/// asked for.
pub proof fn law_steps_keep_consistency(
    s: DownloaderState,
    event: PollEventView,
    next: DownloaderState,
    turn: PollTurnView,
)
    requires
        consistent(s),
        s.admits(event),
        s.steps_to(event, next, turn),
    ensures
        consistent(next),
{
    lemma_taking_ranges_adds_only_checks();
    match event {
        PollEventView::Polled => {},
        PollEventView::Answered { request_id, outcome } => {
            s.ids_in_flight().index_of_first_ensures(request_id);
            let at = s.ids_in_flight().index_of_first(request_id)->0;
            let taken = s.taken_from_flight(request_id);
            assert(consistent(taken));
            if let Ok(response) = outcome {
                match s.phase {
                    SnapPhase::AccountSync => {
                        if let SnapResponseView::AccountRange(message) = response {
                            let seen = message.accounts.take(
                                readable_prefix(message.accounts) as int,
                            );
                            lemma_noted_roots_have_storage(s.account_storage_roots, seen);
                        }
                    },
                    SnapPhase::StorageSync => {},
                    SnapPhase::BytecodeSync => {
                        if let SnapResponseView::ByteCodes(message) = response {
                            let batch = s.in_flight_bytecode_requests[at].hashes;
                            let answered = min(batch.len(), message.codes.len());
                            lemma_matching_codes_match(batch, message.codes, answered);
                        }
                    },
                    SnapPhase::Complete => {},
                }
            }
        },
        PollEventView::ProofChecked(outcome) => {},
        PollEventView::Drained => {
            lemma_submitting_keeps_consistency(s);
            lemma_submitting_changes_requests_only(s);
        },
    }
}

/// Noting accounts adds only roots of accounts with storage.
proof fn lemma_noted_roots_have_storage(roots: Map<B256, B256>, accounts: Seq<(B256, Seq<u8>)>)
    requires
        roots_of_storage(roots),
    ensures
        roots_of_storage(roots_noted(roots, accounts)),
    decreases accounts.len(),
{
    if accounts.len() > 0 {
        lemma_noted_roots_have_storage(roots, accounts.drop_last());
    }
}

/// The query asks for the check of exactly the range, against its storage root and from the
/// first slot on.
pub open spec fn query_covers(query: StorageProofView, range: StorageRange) -> bool {
    &&& query.root == range.storage_root
    &&& query.starting_hash == B256::repeated(0)
    &&& query.slot_hashes == range.slots.map_values(|slot: (B256, U256)| slot.0)
    &&& query.values == range.slots.map_values(|slot: (B256, U256)| slot.1)
}

/// What taking ranges in makes of a state: only ranges without slots are buffered, behind what
/// was buffered, and the check of a range with slots is asked for; all belong to accounts with
/// storage.
pub open spec fn only_checks_added(
    s: DownloaderState,
    state: DownloaderState,
    result: DownloadResult<Option<StorageProofView>>,
) -> bool {
    let n = s.buffered_storage_ranges.len() as int;
    let ranges = state.buffered_storage_ranges;
    &&& state == DownloaderState {
        buffered_storage_ranges: ranges,
        pending_proof: state.pending_proof,
        unchecked_storage: state.unchecked_storage,
        ..s
    }
    &&& n <= ranges.len()
    &&& forall|i: int| 0 <= i < n ==> #[trigger] ranges[i] == s.buffered_storage_ranges[i]
    &&& forall|i: int|
        n <= i < ranges.len() ==> {
            &&& root_known(s.account_storage_roots, #[trigger] ranges[i])
            &&& ranges[i].slots.len() == 0
            &&& ranges[i].is_complete
        }
    &&& match result {
        Ok(Some(query)) => {
            let range = state.pending_proof->Storage_0;
            &&& state.pending_proof is Storage
            &&& root_known(s.account_storage_roots, range)
            &&& range.slots.len() > 0
            &&& query_covers(query, range)
        },
        _ => {
            &&& state.pending_proof == s.pending_proof
            &&& state.unchecked_storage == StorageAnswerView::nothing()
        },
    }
}

/// Taking ranges in adds only checks and ranges without slots.
proof fn lemma_ranges_taken(s: DownloaderState, answer: StorageAnswerView)
    ensures
        only_checks_added(
            s,
            s.storage_ranges_taken(answer).0,
            s.storage_ranges_taken(answer).1,
        ),
    decreases answer.slots.len(),
{
    if answer.batch.len() > 0 && answer.slots.len() > 0 {
        let account = answer.batch[0];
        let slots = answer.slots[0];
        if !s.account_storage_roots.contains_key(account) {
            lemma_ranges_taken(s, answer.rest());
        } else if slots.len() == 0 {
            let range = storage_range(account, s.account_storage_roots[account], slots);
            let pushed = s.storage_buffered(range);
            let n = s.buffered_storage_ranges.len() as int;
            lemma_ranges_taken(pushed, answer.rest());
            let ranges = s.storage_ranges_taken(answer).0.buffered_storage_ranges;
            assert(pushed.buffered_storage_ranges[n] == range);
            assert forall|i: int| 0 <= i < n implies #[trigger] ranges[i]
                == s.buffered_storage_ranges[i] by {
                assert(pushed.buffered_storage_ranges[i] == s.buffered_storage_ranges[i]);
            }
        }
    }
}

/// However ranges are taken in, only checks and ranges without slots are added.
pub proof fn lemma_taking_ranges_adds_only_checks()
    ensures
        forall|s: DownloaderState, answer: StorageAnswerView|
            only_checks_added(
                s,
                (#[trigger] s.storage_ranges_taken(answer)).0,
                s.storage_ranges_taken(answer).1,
            ),
{
    assert forall|s: DownloaderState, answer: StorageAnswerView|
        only_checks_added(
            s,
            (#[trigger] s.storage_ranges_taken(answer)).0,
            s.storage_ranges_taken(answer).1,
        ) by {
        lemma_ranges_taken(s, answer);
    }
}

/// The codes up to the first that does not match do match.
proof fn lemma_matching_codes_match(batch: Seq<B256>, codes: Seq<Seq<u8>>, n: nat)
    ensures
        codes_matching(batch, codes, n) <= n,
        codes_match(code_entries(batch, codes, codes_matching(batch, codes, n))),
    decreases n,
{
    if n > 0 {
        lemma_matching_codes_match(batch, codes, (n - 1) as nat);
        let m = codes_matching(batch, codes, n);
        let before = codes_matching(batch, codes, (n - 1) as nat);
        assert forall|i: int| 0 <= i < m implies code_matches(
            #[trigger] code_entries(batch, codes, m)[i],
        ) by {
            if i < before {
                assert(code_matches(code_entries(batch, codes, before)[i]));
            }
        }
    }
}

/// Making requests changes nothing but the requests and what is left to ask for.
pub proof fn lemma_submitting_changes_requests_only(s: DownloaderState)
    ensures
        ({
            let sent = s.submitted().0;
            sent == DownloaderState {
                request_id: sent.request_id,
                in_flight_account_requests: sent.in_flight_account_requests,
                in_flight_storage_requests: sent.in_flight_storage_requests,
                in_flight_bytecode_requests: sent.in_flight_bytecode_requests,
                accounts_pending_storage: sent.accounts_pending_storage,
                code_hashes_pending: sent.code_hashes_pending,
                ..s
            }
        }),
    decreases s.room(),
{
    if s.can_submit() && s.has_work() {
        lemma_submitting_changes_requests_only(s.requested());
    }
}

/// Making requests keeps a downloader consistent.
proof fn lemma_submitting_keeps_consistency(s: DownloaderState)
    requires
        consistent(s),
    ensures
        consistent(s.submitted().0),
    decreases s.room(),
{
    if s.can_submit() && s.has_work() {
        assert(consistent(s.requested()));
        lemma_submitting_keeps_consistency(s.requested());
    }
}

// ===== Phases and the end =====

/// Phases follow each other in order, and change only once no more answers are ready.
pub proof fn law_phases_never_go_back(
    s: DownloaderState,
    event: PollEventView,
    next: DownloaderState,
    turn: PollTurnView,
)
    requires
        s.admits(event),
        s.steps_to(event, next, turn),
    ensures
        s.phase.rank() <= next.phase.rank(),
        s.phase != next.phase ==> event is Drained,
{
    lemma_taking_ranges_adds_only_checks();
    lemma_submitting_changes_requests_only(s);
}

/// What a downloader was set up with never changes.
pub proof fn law_settings_stay(
    s: DownloaderState,
    event: PollEventView,
    next: DownloaderState,
    turn: PollTurnView,
)
    requires
        s.admits(event),
        s.steps_to(event, next, turn),
    ensures
        next.max_concurrent_requests == s.max_concurrent_requests,
        next.state_root == s.state_root,
        next.target_account_hash == s.target_account_hash,
{
    lemma_taking_ranges_adds_only_checks();
    lemma_submitting_changes_requests_only(s);
}

/// An error that the consumer gets terminates the downloader, and nothing else does.
pub proof fn law_errors_terminate(
    s: DownloaderState,
    event: PollEventView,
    next: DownloaderState,
    turn: PollTurnView,
)
    requires
        s.admits(event),
        !s.terminated,
        s.steps_to(event, next, turn),
    ensures
        next.terminated <==> (turn matches PollTurnView::Yield { item, .. } && item is Err),
{
    lemma_taking_ranges_adds_only_checks();
    lemma_submitting_changes_requests_only(s);
}

/// A terminated downloader does nothing more: it is polled without effect, and has nothing to
/// hand on.
pub proof fn law_terminated_is_final(
    s: DownloaderState,
    event: PollEventView,
    next: DownloaderState,
    turn: PollTurnView,
)
    requires
        consistent(s),
        s.terminated,
        s.admits(event),
        s.steps_to(event, next, turn),
    ensures
        next == s,
        turn == PollTurnView::Finished,
{
}

/// A downloader that has finished without an error has gone through all phases, with the target
/// reached, nothing left to ask for, nothing in flight and nothing buffered.
pub proof fn law_finished_means_complete(
    s: DownloaderState,
    event: PollEventView,
    next: DownloaderState,
)
    requires
        consistent(s),
        s.admits(event),
        s.steps_to(event, next, PollTurnView::Finished),
        !next.terminated,
    ensures
        next.phase == SnapPhase::Complete,
        next.is_terminated(),
        !bytes_precede(next.next_account_hash@, next.target_account_hash@),
        next.accounts_pending_storage.len() == 0,
        next.code_hashes_pending.len() == 0,
{
    law_steps_keep_consistency(s, event, next, PollTurnView::Finished);
}

/// A downloader that has finished stays finished.
pub proof fn law_finished_stays_finished(
    s: DownloaderState,
    event: PollEventView,
    next: DownloaderState,
    after: DownloaderState,
    turn: PollTurnView,
)
    requires
        consistent(s),
        s.admits(event),
        s.steps_to(event, next, PollTurnView::Finished),
        next.steps_to(PollEventView::Polled, after, turn),
    ensures
        after == next,
        turn == PollTurnView::Finished,
{
}

// ===== Only verified data =====

/// Bytecode that is handed on has the hash that it is listed under.
pub proof fn law_yielded_bytecode_is_verified(
    s: DownloaderState,
    event: PollEventView,
    next: DownloaderState,
    submit: Seq<SnapRequestView>,
    codes: Seq<(B256, Seq<u8>)>,
)
    requires
        consistent(s),
        s.admits(event),
        s.steps_to(
            event,
            next,
            PollTurnView::Yield { submit, item: Ok(SnapBatchView::Bytecode { codes }) },
        ),
    ensures
        forall|i: int|
            0 <= i < codes.len() ==> keccak256_of(#[trigger] codes[i].1) == codes[i].0@,
{
    lemma_submitting_changes_requests_only(s);
    assert forall|i: int| 0 <= i < codes.len() implies keccak256_of(#[trigger] codes[i].1)
        == codes[i].0@ by {
        assert(codes[i] == s.buffered_bytecodes[i]);
        assert(code_matches(s.buffered_bytecodes[i]));
    }
}

/// An account range is buffered only once its proof was found valid.
pub proof fn law_buffered_accounts_are_proven(
    s: DownloaderState,
    event: PollEventView,
    next: DownloaderState,
    turn: PollTurnView,
    i: int,
)
    requires
        s.admits(event),
        s.steps_to(event, next, turn),
        0 <= i < next.buffered_account_ranges.len(),
    ensures
        ({
            let range = next.buffered_account_ranges[i];
            s.buffered_account_ranges.contains(range) || (event == PollEventView::ProofChecked(
                ProofOutcome::Checked { valid: true, has_more: range.has_more },
            ) && s.pending_proof == PendingProofView::Accounts(range.accounts))
        }),
{
    lemma_taking_ranges_adds_only_checks();
    lemma_submitting_changes_requests_only(s);
    let range = next.buffered_account_ranges[i];
    if i < s.buffered_account_ranges.len() && s.buffered_account_ranges[i] == range {
        assert(s.buffered_account_ranges.contains(range));
    }
    if i + 1 < s.buffered_account_ranges.len() && s.buffered_account_ranges[i + 1] == range {
        assert(s.buffered_account_ranges.contains(range));
    }
}

/// The proof that is checked for an account range is one against the state root, from the next
/// account on, over exactly the accounts that are buffered if it is valid.
pub proof fn law_account_proof_covers_the_range(
    s: DownloaderState,
    event: PollEventView,
    next: DownloaderState,
    turn: PollTurnView,
)
    requires
        s.admits(event),
        !(s.pending_proof is Accounts),
        s.steps_to(event, next, turn),
        next.pending_proof is Accounts,
    ensures
        turn is VerifyAccountRange,
        ({
            let accounts = next.pending_proof->Accounts_0;
            let query = turn->VerifyAccountRange_0;
            &&& accounts.len() > 0
            &&& query.root == s.state_root
            &&& query.starting_hash == s.next_account_hash
            &&& query.account_hashes == accounts.map_values(
                |entry: (B256, Account, B256)| entry.0,
            )
            &&& query.accounts == accounts.map_values(
                |entry: (B256, Account, B256)| entry.1,
            )
        }),
{
    lemma_taking_ranges_adds_only_checks();
    lemma_submitting_changes_requests_only(s);
}

/// A storage range with slots is buffered only once its proof was found valid, and as complete
/// only where nothing comes after it.
pub proof fn law_buffered_storage_is_proven(
    s: DownloaderState,
    event: PollEventView,
    next: DownloaderState,
    turn: PollTurnView,
    i: int,
)
    requires
        s.admits(event),
        s.steps_to(event, next, turn),
        0 <= i < next.buffered_storage_ranges.len(),
    ensures
        ({
            let range = next.buffered_storage_ranges[i];
            range.slots.len() > 0 ==> s.buffered_storage_ranges.contains(range) || (event
                == PollEventView::ProofChecked(
                ProofOutcome::Checked { valid: true, has_more: !range.is_complete },
            ) && s.pending_proof is Storage && range == StorageRange {
                is_complete: range.is_complete,
                ..s.pending_proof->Storage_0
            })
        }),
{
    lemma_taking_ranges_adds_only_checks();
    lemma_submitting_changes_requests_only(s);
    let range = next.buffered_storage_ranges[i];
    let n = s.buffered_storage_ranges.len() as int;
    if i < n && s.buffered_storage_ranges[i] == range {
        assert(s.buffered_storage_ranges.contains(range));
    }
    if event is Drained {
        let taken = min(STORAGE_RANGES_PER_BATCH as nat, s.buffered_storage_ranges.len());
        if i + taken < n && s.buffered_storage_ranges[i + taken] == range {
            assert(s.buffered_storage_ranges.contains(range));
        }
    }
}

/// A storage range waits for the check of a proof only when the check is asked for: one against
/// the storage root of its account, from the first slot on, over exactly the slots that are
/// buffered if it is valid.
pub proof fn law_storage_proof_covers_the_range(
    s: DownloaderState,
    event: PollEventView,
    next: DownloaderState,
    turn: PollTurnView,
)
    requires
        s.admits(event),
        s.steps_to(event, next, turn),
        next.pending_proof is Storage,
    ensures
        turn is VerifyStorageRange,
        next.pending_proof->Storage_0.slots.len() > 0,
        root_known(s.account_storage_roots, next.pending_proof->Storage_0),
        query_covers(turn->VerifyStorageRange_0, next.pending_proof->Storage_0),
{
    lemma_taking_ranges_adds_only_checks();
    lemma_submitting_changes_requests_only(s);
}

/// A proof that is not found valid ends the download: the range is dropped with the rest of its
/// answer, and the consumer gets the error for a bad answer.
pub proof fn law_rejected_proof_ends_the_download(
    s: DownloaderState,
    outcome: ProofOutcome,
    next: DownloaderState,
    turn: PollTurnView,
)
    requires
        consistent(s),
        s.admits(PollEventView::ProofChecked(outcome)),
        !(outcome matches ProofOutcome::Checked { valid, .. } && valid),
        s.steps_to(PollEventView::ProofChecked(outcome), next, turn),
    ensures
        next == (DownloaderState {
            pending_proof: PendingProofView::Nothing,
            unchecked_storage: StorageAnswerView::nothing(),
            terminated: true,
            ..s
        }),
        turn == (PollTurnView::Yield { submit: Seq::empty(), item: Err(bad_response()) }),
{
}

// ===== Requests =====

/// The number of a request.
pub open spec fn id_of(request: SnapRequestView) -> u64 {
    match request {
        SnapRequestView::AccountRange(request) => request.request_id,
        SnapRequestView::StorageRanges(request) => request.request_id,
        SnapRequestView::ByteCodes(request) => request.request_id,
    }
}

/// The numbers of requests.
pub open spec fn ids_of(requests: Seq<SnapRequestView>) -> Seq<u64> {
    requests.map_values(|request: SnapRequestView| id_of(request))
}

/// A downloader makes requests until it is at its limit or has nothing left to ask for, and
/// every request that it makes is then in flight.
pub proof fn law_requests_fill_the_limit(s: DownloaderState)
    ensures
        ({
            let (sent, requests) = s.submitted();
            &&& !(sent.can_submit() && sent.has_work())
            &&& sent.ids_in_flight() == s.ids_in_flight() + ids_of(requests)
            &&& requests.len() <= s.room()
        }),
    decreases s.room(),
{
    if s.can_submit() && s.has_work() {
        let one = s.requested();
        let (sent, rest) = one.submitted();
        law_requests_fill_the_limit(one);
        assert(one.ids_in_flight() =~= s.ids_in_flight().push(s.request_id));
        assert(ids_of(seq![s.next_request()] + rest) =~= seq![s.request_id] + ids_of(rest));
        assert(s.ids_in_flight().push(s.request_id) + ids_of(rest) =~= s.ids_in_flight() + (seq![
            s.request_id,
        ] + ids_of(rest)));
    } else {
        assert(s.ids_in_flight() + ids_of(Seq::<SnapRequestView>::empty()) =~= s.ids_in_flight());
    }
}

/// The request number that comes `n` after the given one.
pub open spec fn id_plus(id: u64, n: nat) -> u64 {
    ((id + n) % 0x1_0000_0000_0000_0000) as u64
}

/// Requests are numbered one after the other.
pub proof fn law_requests_are_numbered_in_order(s: DownloaderState)
    ensures
        ({
            let (sent, requests) = s.submitted();
            &&& sent.request_id == id_plus(s.request_id, requests.len())
            &&& forall|i: int|
                0 <= i < requests.len() ==> id_of(#[trigger] requests[i]) == id_plus(
                    s.request_id,
                    i as nat,
                )
        }),
    decreases s.room(),
{
    if s.can_submit() && s.has_work() {
        let one = s.requested();
        let (sent, rest) = one.submitted();
        law_requests_are_numbered_in_order(one);
        let requests = s.submitted().1;
        assert forall|i: int| 0 <= i < requests.len() implies id_of(#[trigger] requests[i])
            == id_plus(s.request_id, i as nat) by {
            if i > 0 {
                assert(requests[i] == rest[i - 1]);
            }
        }
    }
}

/// In the account phase every request that is made asks for the same range: from the next
/// account up to the target.
pub proof fn law_account_requests_cover_the_rest(s: DownloaderState, i: int)
    requires
        s.phase == SnapPhase::AccountSync,
        0 <= i < s.submitted().1.len(),
    ensures
        s.submitted().1[i] == SnapRequestView::AccountRange(
            GetAccountRangeMessage {
                request_id: id_plus(s.request_id, i as nat),
                ..s.account_request()
            },
        ),
        s.submitted().1.len() == s.room(),
    decreases s.room(),
{
    law_requests_are_numbered_in_order(s);
    let one = s.requested();
    assert(one.ids_in_flight() =~= s.ids_in_flight().push(s.request_id));
    if i > 0 {
        assert(s.submitted().1[i] == one.submitted().1[i - 1]);
        law_account_requests_cover_the_rest(one, i - 1);
    } else if one.room() > 0 {
        assert(one.can_submit() && one.has_work());
        law_account_requests_cover_the_rest(one, 0);
    } else {
        assert(one.submitted().1.len() == 0);
    }
}

/// The accounts that storage requests name, in order.
pub open spec fn accounts_named(requests: Seq<SnapRequestView>) -> Seq<B256>
    decreases requests.len(),
{
    if requests.len() == 0 {
        Seq::empty()
    } else {
        (match requests[0] {
            SnapRequestView::StorageRanges(request) => request.account_hashes,
            _ => Seq::empty(),
        }) + accounts_named(requests.skip(1))
    }
}

/// Storage requests name the pending accounts in order, each once, and in batches that are
/// neither empty nor too large; what they do not name stays pending.
pub proof fn law_storage_requests_part_the_pending_accounts(s: DownloaderState)
    requires
        s.phase == SnapPhase::StorageSync,
    ensures
        ({
            let (sent, requests) = s.submitted();
            &&& accounts_named(requests) + sent.accounts_pending_storage
                == s.accounts_pending_storage
            &&& forall|i: int|
                0 <= i < requests.len() ==> {
                    &&& (#[trigger] requests[i]) is StorageRanges
                    &&& 0 < requests[i]->StorageRanges_0.account_hashes.len()
                        <= STORAGE_ACCOUNTS_PER_BATCH
                    &&& requests[i]->StorageRanges_0.root_hash == s.state_root
                }
        }),
    decreases s.room(),
{
    if s.can_submit() && s.has_work() {
        let one = s.requested();
        let (sent, rest) = one.submitted();
        law_storage_requests_part_the_pending_accounts(one);
        let requests = s.submitted().1;
        let n = s.storage_batch_size() as int;
        let pending = s.accounts_pending_storage;
        assert(requests.skip(1) =~= rest);
        assert(accounts_named(requests) == pending.take(n) + accounts_named(rest));
        assert(accounts_named(requests) + sent.accounts_pending_storage =~= pending.take(n) + (
        accounts_named(rest) + sent.accounts_pending_storage));
        assert(pending.take(n) + pending.skip(n) =~= pending);
        assert forall|i: int| 0 <= i < requests.len() implies {
            &&& (#[trigger] requests[i]) is StorageRanges
            &&& 0 < requests[i]->StorageRanges_0.account_hashes.len()
                <= STORAGE_ACCOUNTS_PER_BATCH
            &&& requests[i]->StorageRanges_0.root_hash == s.state_root
        } by {
            if i > 0 {
                assert(requests[i] == rest[i - 1]);
            }
        }
    } else {
        assert(Seq::<B256>::empty() + s.accounts_pending_storage =~= s.accounts_pending_storage);
    }
}

/// The code hashes that bytecode requests name, in order.
pub open spec fn codes_named(requests: Seq<SnapRequestView>) -> Seq<B256>
    decreases requests.len(),
{
    if requests.len() == 0 {
        Seq::empty()
    } else {
        (match requests[0] {
            SnapRequestView::ByteCodes(request) => request.hashes,
            _ => Seq::empty(),
        }) + codes_named(requests.skip(1))
    }
}

/// Bytecode requests name the pending hashes in order, each once, and in batches that are
/// neither empty nor too large; what they do not name stays pending.
pub proof fn law_bytecode_requests_part_the_pending_hashes(s: DownloaderState)
    requires
        s.phase == SnapPhase::BytecodeSync,
    ensures
        ({
            let (sent, requests) = s.submitted();
            &&& codes_named(requests) + sent.code_hashes_pending == s.code_hashes_pending
            &&& forall|i: int|
                0 <= i < requests.len() ==> {
                    &&& (#[trigger] requests[i]) is ByteCodes
                    &&& 0 < requests[i]->ByteCodes_0.hashes.len()
                        <= BYTECODE_CHUNK_SIZE
                }
        }),
    decreases s.room(),
{
    if s.can_submit() && s.has_work() {
        let one = s.requested();
        let (sent, rest) = one.submitted();
        law_bytecode_requests_part_the_pending_hashes(one);
        let requests = s.submitted().1;
        let n = s.bytecode_batch_size() as int;
        let pending = s.code_hashes_pending;
        assert(requests.skip(1) =~= rest);
        assert(codes_named(requests) == pending.take(n) + codes_named(rest));
        assert(codes_named(requests) + sent.code_hashes_pending =~= pending.take(n) + (codes_named(
            rest,
        ) + sent.code_hashes_pending));
        assert(pending.take(n) + pending.skip(n) =~= pending);
        assert forall|i: int| 0 <= i < requests.len() implies {
            &&& (#[trigger] requests[i]) is ByteCodes
            &&& 0 < requests[i]->ByteCodes_0.hashes.len() <= BYTECODE_CHUNK_SIZE
        } by {
            if i > 0 {
                assert(requests[i] == rest[i - 1]);
            }
        }
    } else {
        assert(Seq::<B256>::empty() + s.code_hashes_pending =~= s.code_hashes_pending);
    }
}

/// The list at a position: the batches, and before them what is pending.
pub open spec fn list_at(batches: Seq<Seq<B256>>, pending: Seq<B256>, r: int) -> Seq<B256> {
    if r < 0 {
        pending
    } else {
        batches[r]
    }
}

/// The position is one in the batches or in what is pending.
pub open spec fn is_place(batches: Seq<Seq<B256>>, pending: Seq<B256>, r: int, k: int) -> bool {
    -1 <= r < batches.len() && 0 <= k < list_at(batches, pending, r).len()
}

/// No hash occurs twice in the batches and in what is pending, and all belong to the set.
pub open spec fn each_once(batches: Seq<Seq<B256>>, pending: Seq<B256>, all: Set<B256>) -> bool {
    &&& forall|r: int, k: int, q: int, j: int|
        #![trigger is_place(batches, pending, r, k), is_place(batches, pending, q, j)]
        is_place(batches, pending, r, k) && is_place(batches, pending, q, j) && (r != q || k != j)
            ==> list_at(batches, pending, r)[k] != list_at(batches, pending, q)[j]
    &&& forall|r: int, k: int| #[trigger]
        is_place(batches, pending, r, k) ==> all.contains(list_at(batches, pending, r)[k])
}

/// The batches of accounts whose storage requests are in flight.
pub open spec fn account_batches(s: DownloaderState) -> Seq<Seq<B256>> {
    s.in_flight_storage_requests.map_values(
        |request: GetStorageRangesView| request.account_hashes,
    )
}

/// The batches of code hashes whose requests are in flight.
pub open spec fn code_batches(s: DownloaderState) -> Seq<Seq<B256>> {
    s.in_flight_bytecode_requests.map_values(
        |request: GetByteCodesView| request.hashes,
    )
}

/// Storage is asked for only of accounts that have storage, and of none twice at a time;
/// bytecode is asked for only where it is needed, and none twice at a time.
pub open spec fn asks_once(s: DownloaderState) -> bool {
    &&& each_once(
        account_batches(s),
        s.accounts_pending_storage,
        s.account_storage_roots.dom(),
    )
    &&& each_once(code_batches(s), s.code_hashes_pending, s.code_hashes_needed)
}

/// A new downloader has asked for nothing.
pub proof fn law_new_downloader_asks_once(max: usize, root: B256, start: B256, target: B256)
    ensures
        asks_once(DownloaderState::initial(max, root, start, target)),
{
}

/// Every step keeps this: storage is asked for only of accounts that have storage, and of none
/// that is pending or in flight already; and so it is with bytecode.
pub proof fn law_steps_keep_asking_once(
    s: DownloaderState,
    event: PollEventView,
    next: DownloaderState,
    turn: PollTurnView,
)
    requires
        consistent(s),
        asks_once(s),
        s.admits(event),
        s.steps_to(event, next, turn),
    ensures
        asks_once(next),
{
    lemma_taking_ranges_adds_only_checks();
    match event {
        PollEventView::Polled => {},
        PollEventView::ProofChecked(_) => {},
        PollEventView::Answered { request_id, .. } => {
            s.ids_in_flight().index_of_first_ensures(request_id);
            let at = s.ids_in_flight().index_of_first(request_id)->0;
            match s.phase {
                SnapPhase::AccountSync => {
                    assert(account_batches(next) =~= Seq::<Seq<B256>>::empty());
                    assert(code_batches(next) =~= Seq::<Seq<B256>>::empty());
                },
                SnapPhase::StorageSync => {
                    assert(account_batches(next) =~= account_batches(s).remove(at));
                    lemma_once_without_a_batch(
                        account_batches(s),
                        s.accounts_pending_storage,
                        s.account_storage_roots.dom(),
                        at,
                    );
                },
                SnapPhase::BytecodeSync => {
                    assert(code_batches(next) =~= code_batches(s).remove(at));
                    lemma_once_without_a_batch(
                        code_batches(s),
                        s.code_hashes_pending,
                        s.code_hashes_needed,
                        at,
                    );
                },
                SnapPhase::Complete => {},
            }
        },
        PollEventView::Drained => {
            let sent = s.submitted().0;
            lemma_submitting_keeps_asking_once(s);
            lemma_submitting_keeps_consistency(s);
            lemma_submitting_changes_requests_only(s);
            if sent.phase_done() && next.phase == SnapPhase::StorageSync {
                assert(account_batches(next) =~= Seq::<Seq<B256>>::empty());
                lemma_once_listed(next.accounts_pending_storage, s.account_storage_roots.dom());
            } else if sent.phase_done() && next.phase == SnapPhase::BytecodeSync {
                assert(code_batches(next) =~= Seq::<Seq<B256>>::empty());
                lemma_once_listed(next.code_hashes_pending, s.code_hashes_needed);
            }
        },
    }
}

/// Taking a batch away keeps every hash at most once.
proof fn lemma_once_without_a_batch(
    batches: Seq<Seq<B256>>,
    pending: Seq<B256>,
    all: Set<B256>,
    at: int,
)
    requires
        each_once(batches, pending, all),
        0 <= at < batches.len(),
    ensures
        each_once(batches.remove(at), pending, all),
{
    let fewer = batches.remove(at);
    let origin = |r: int|
        if r < at {
            r
        } else {
            r + 1
        };
    assert forall|r: int, k: int| #[trigger] is_place(fewer, pending, r, k) implies is_place(
        batches,
        pending,
        origin(r),
        k,
    ) && list_at(fewer, pending, r) == list_at(batches, pending, origin(r)) by {}
    assert forall|r: int, k: int, q: int, j: int|
        #![trigger is_place(fewer, pending, r, k), is_place(fewer, pending, q, j)]
        is_place(fewer, pending, r, k) && is_place(fewer, pending, q, j) && (r != q || k
            != j) implies list_at(fewer, pending, r)[k] != list_at(fewer, pending, q)[j] by {
        assert(is_place(batches, pending, origin(r), k));
        assert(is_place(batches, pending, origin(q), j));
    }
}

/// Making a batch of the first pending hashes keeps every hash at most once.
proof fn lemma_once_with_a_batch(
    batches: Seq<Seq<B256>>,
    pending: Seq<B256>,
    all: Set<B256>,
    n: int,
)
    requires
        each_once(batches, pending, all),
        0 <= n <= pending.len(),
    ensures
        each_once(batches.push(pending.take(n)), pending.skip(n), all),
{
    let more = batches.push(pending.take(n));
    let rest = pending.skip(n);
    let row = |r: int|
        if r == batches.len() {
            -1
        } else {
            r
        };
    let column = |r: int, k: int|
        if r < 0 {
            k + n
        } else {
            k
        };
    assert forall|r: int, k: int| #[trigger] is_place(more, rest, r, k) implies is_place(
        batches,
        pending,
        row(r),
        column(r, k),
    ) && list_at(more, rest, r)[k] == list_at(batches, pending, row(r))[column(r, k)] by {}
    assert forall|r: int, k: int, q: int, j: int|
        #![trigger is_place(more, rest, r, k), is_place(more, rest, q, j)]
        is_place(more, rest, r, k) && is_place(more, rest, q, j) && (r != q || k
            != j) implies list_at(more, rest, r)[k] != list_at(more, rest, q)[j] by {
        assert(is_place(batches, pending, row(r), column(r, k)));
        assert(is_place(batches, pending, row(q), column(q, j)));
    }
}

/// A listing of a set has each hash once.
proof fn lemma_once_listed(listing: Seq<B256>, all: Set<B256>)
    requires
        lists(listing, all),
    ensures
        each_once(Seq::empty(), listing, all),
{
    assert forall|r: int, k: int| #[trigger]
        is_place(Seq::empty(), listing, r, k) implies all.contains(
        list_at(Seq::empty(), listing, r)[k],
    ) by {
        assert(listing.contains(listing[k]));
        assert(listing.to_set().contains(listing[k]));
    }
}

/// Making requests keeps every hash at most once.
proof fn lemma_submitting_keeps_asking_once(s: DownloaderState)
    requires
        asks_once(s),
    ensures
        asks_once(s.submitted().0),
    decreases s.room(),
{
    if s.can_submit() && s.has_work() {
        let one = s.requested();
        match s.phase {
            SnapPhase::StorageSync => {
                let n = s.storage_batch_size() as int;
                lemma_once_with_a_batch(
                    account_batches(s),
                    s.accounts_pending_storage,
                    s.account_storage_roots.dom(),
                    n,
                );
                assert(account_batches(one) =~= account_batches(s).push(
                    s.accounts_pending_storage.take(n),
                ));
            },
            SnapPhase::BytecodeSync => {
                let n = s.bytecode_batch_size() as int;
                lemma_once_with_a_batch(
                    code_batches(s),
                    s.code_hashes_pending,
                    s.code_hashes_needed,
                    n,
                );
                assert(code_batches(one) =~= code_batches(s).push(s.code_hashes_pending.take(n)));
            },
            _ => {},
        }
        lemma_submitting_keeps_asking_once(one);
    }
}

/// The storage of the account is still to be asked for, or was asked for and is not answered.
pub open spec fn storage_awaited(s: DownloaderState, account: B256) -> bool {
    s.accounts_pending_storage.contains(account) || exists|r: int|
        0 <= r < s.in_flight_storage_requests.len() && (
        #[trigger] s.in_flight_storage_requests[r]).account_hashes.contains(account)
}

/// The code is still to be asked for, or was asked for and is not answered.
pub open spec fn code_awaited(s: DownloaderState, code: B256) -> bool {
    s.code_hashes_pending.contains(code) || exists|r: int|
        0 <= r < s.in_flight_bytecode_requests.len() && (
        #[trigger] s.in_flight_bytecode_requests[r]).hashes.contains(code)
}

/// When the storage phase begins, the storage of every account that has storage is to be asked
/// for; when the bytecode phase begins, all code that is needed is.
pub proof fn law_phases_begin_with_all_their_work(
    s: DownloaderState,
    event: PollEventView,
    next: DownloaderState,
    turn: PollTurnView,
)
    requires
        s.admits(event),
        s.steps_to(event, next, turn),
        s.phase != next.phase,
    ensures
        next.phase == SnapPhase::StorageSync ==> forall|account: B256|
            next.account_storage_roots.contains_key(account) ==> #[trigger] storage_awaited(
                next,
                account,
            ),
        next.phase == SnapPhase::BytecodeSync ==> forall|code: B256|
            next.code_hashes_needed.contains(code) ==> #[trigger] code_awaited(next, code),
{
    lemma_taking_ranges_adds_only_checks();
    lemma_submitting_changes_requests_only(s);
    if next.phase == SnapPhase::StorageSync {
        assert forall|account: B256|
            next.account_storage_roots.contains_key(account) implies #[trigger] storage_awaited(
            next,
            account,
        ) by {
            assert(next.accounts_pending_storage.to_set().contains(account));
        }
    }
    if next.phase == SnapPhase::BytecodeSync {
        assert forall|code: B256|
            next.code_hashes_needed.contains(code) implies #[trigger] code_awaited(next, code) by {
            assert(next.code_hashes_pending.to_set().contains(code));
        }
    }
}

/// No step forgets the storage of an account: what is awaited stays so, and the phase goes on,
/// until a request that names the account is answered.
pub proof fn law_awaited_storage_is_not_forgotten(
    s: DownloaderState,
    event: PollEventView,
    next: DownloaderState,
    turn: PollTurnView,
    account: B256,
)
    requires
        consistent(s),
        s.admits(event),
        s.steps_to(event, next, turn),
        storage_awaited(s, account),
    ensures
        next.phase == s.phase,
        storage_awaited(next, account) || (event matches PollEventView::Answered { request_id, .. }
            && s.in_flight_storage_requests[s.ids_in_flight().index_of_first(
            request_id,
        )->0].account_hashes.contains(account)),
{
    assert(s.phase == SnapPhase::StorageSync);
    match event {
        PollEventView::Answered { request_id, .. } => {
            lemma_taking_ranges_adds_only_checks();
            s.ids_in_flight().index_of_first_ensures(request_id);
            let at = s.ids_in_flight().index_of_first(request_id)->0;
            assert(next.in_flight_storage_requests == s.in_flight_storage_requests.remove(at));
            assert(next.accounts_pending_storage == s.accounts_pending_storage);
            if !s.accounts_pending_storage.contains(account) {
                let r = choose|r: int|
                    0 <= r < s.in_flight_storage_requests.len() && (
                    #[trigger] s.in_flight_storage_requests[r]).account_hashes.contains(account);
                if r != at {
                    let q = if r < at { r } else { r - 1 };
                    assert(next.in_flight_storage_requests[q] == s.in_flight_storage_requests[r]);
                    assert(storage_awaited(next, account));
                }
            }
        },
        PollEventView::Drained => {
            lemma_submitting_keeps_storage_awaited(s, account);
            lemma_submitting_changes_requests_only(s);
            let sent = s.submitted().0;
            assert(!sent.phase_done());
            assert(next.in_flight_storage_requests == sent.in_flight_storage_requests);
            assert(next.accounts_pending_storage == sent.accounts_pending_storage);
        },
        PollEventView::ProofChecked(_) => {
            lemma_taking_ranges_adds_only_checks();
            assert(next.in_flight_storage_requests == s.in_flight_storage_requests);
            assert(next.accounts_pending_storage == s.accounts_pending_storage);
        },
        PollEventView::Polled => {},
    }
}

/// Making requests leaves storage awaited.
proof fn lemma_submitting_keeps_storage_awaited(s: DownloaderState, account: B256)
    requires
        s.phase == SnapPhase::StorageSync,
        storage_awaited(s, account),
    ensures
        storage_awaited(s.submitted().0, account),
    decreases s.room(),
{
    if s.can_submit() && s.has_work() {
        let one = s.requested();
        let n = s.storage_batch_size() as int;
        let pending = s.accounts_pending_storage;
        let before = s.in_flight_storage_requests;
        if pending.contains(account) {
            let k = pending.index_of(account);
            if k < n {
                assert(pending.take(n)[k] == account);
                assert(one.in_flight_storage_requests[before.len() as int].account_hashes.contains(
                    account,
                ));
            } else {
                assert(pending.skip(n)[k - n] == account);
            }
        } else {
            let r = choose|r: int|
                0 <= r < before.len() && (#[trigger] before[r]).account_hashes.contains(account);
            assert(one.in_flight_storage_requests[r] == before[r]);
        }
        lemma_submitting_keeps_storage_awaited(one, account);
    }
}

/// No step forgets code: what is awaited stays so, and the phase goes on, until a request that
/// names its hash is answered.
pub proof fn law_awaited_code_is_not_forgotten(
    s: DownloaderState,
    event: PollEventView,
    next: DownloaderState,
    turn: PollTurnView,
    code: B256,
)
    requires
        consistent(s),
        s.admits(event),
        s.steps_to(event, next, turn),
        code_awaited(s, code),
    ensures
        next.phase == s.phase,
        code_awaited(next, code) || (event matches PollEventView::Answered { request_id, .. }
            && s.in_flight_bytecode_requests[s.ids_in_flight().index_of_first(
            request_id,
        )->0].hashes.contains(code)),
{
    assert(s.phase == SnapPhase::BytecodeSync);
    match event {
        PollEventView::Answered { request_id, .. } => {
            s.ids_in_flight().index_of_first_ensures(request_id);
            let at = s.ids_in_flight().index_of_first(request_id)->0;
            assert(next.in_flight_bytecode_requests == s.in_flight_bytecode_requests.remove(at));
            assert(next.code_hashes_pending == s.code_hashes_pending);
            if !s.code_hashes_pending.contains(code) {
                let r = choose|r: int|
                    0 <= r < s.in_flight_bytecode_requests.len() && (
                    #[trigger] s.in_flight_bytecode_requests[r]).hashes.contains(code);
                if r != at {
                    let q = if r < at { r } else { r - 1 };
                    assert(next.in_flight_bytecode_requests[q] == s.in_flight_bytecode_requests[r]);
                    assert(code_awaited(next, code));
                }
            }
        },
        PollEventView::Drained => {
            lemma_submitting_keeps_code_awaited(s, code);
            lemma_submitting_changes_requests_only(s);
            let sent = s.submitted().0;
            assert(!sent.phase_done());
            assert(next.in_flight_bytecode_requests == sent.in_flight_bytecode_requests);
            assert(next.code_hashes_pending == sent.code_hashes_pending);
        },
        _ => {},
    }
}

/// Making requests leaves code awaited.
proof fn lemma_submitting_keeps_code_awaited(s: DownloaderState, code: B256)
    requires
        s.phase == SnapPhase::BytecodeSync,
        code_awaited(s, code),
    ensures
        code_awaited(s.submitted().0, code),
    decreases s.room(),
{
    if s.can_submit() && s.has_work() {
        let one = s.requested();
        let n = s.bytecode_batch_size() as int;
        let pending = s.code_hashes_pending;
        let before = s.in_flight_bytecode_requests;
        if pending.contains(code) {
            let k = pending.index_of(code);
            if k < n {
                assert(pending.take(n)[k] == code);
                assert(one.in_flight_bytecode_requests[before.len() as int].hashes.contains(code));
            } else {
                assert(pending.skip(n)[k - n] == code);
            }
        } else {
            let r = choose|r: int|
                0 <= r < before.len() && (#[trigger] before[r]).hashes.contains(code);
            assert(one.in_flight_bytecode_requests[r] == before[r]);
        }
        lemma_submitting_keeps_code_awaited(one, code);
    }
}

/// The numbers grow, and all are below the bound.
pub open spec fn rising_below(ids: Seq<u64>, bound: u64) -> bool {
    &&& forall|i: int, j: int| 0 <= i < j < ids.len() ==> ids[i] < ids[j]
    &&& forall|i: int| 0 <= i < ids.len() ==> ids[i] < bound
}

/// As long as the counter of requests does not start again, the requests in flight have
/// different numbers: an answer belongs to one request only.
pub proof fn law_requests_in_flight_differ(
    s: DownloaderState,
    event: PollEventView,
    next: DownloaderState,
    turn: PollTurnView,
)
    requires
        consistent(s),
        rising_below(s.ids_in_flight(), s.request_id),
        s.admits(event),
        s.steps_to(event, next, turn),
        s.request_id <= next.request_id,
    ensures
        rising_below(next.ids_in_flight(), next.request_id),
        next.ids_in_flight().no_duplicates(),
{
    let ids = s.ids_in_flight();
    match event {
        PollEventView::Polled => {},
        PollEventView::Answered { request_id, .. } => {
            lemma_taking_ranges_adds_only_checks();
            ids.index_of_first_ensures(request_id);
            let at = ids.index_of_first(request_id)->0;
            assert(next.ids_in_flight() =~= ids.remove(at));
            lemma_rising_without_one(ids, s.request_id, at);
        },
        PollEventView::ProofChecked(_) => {
            lemma_taking_ranges_adds_only_checks();
            assert(next.ids_in_flight() =~= ids);
        },
        PollEventView::Drained => {
            lemma_submitting_changes_requests_only(s);
            let sent = s.submitted().0;
            assert(next.request_id == sent.request_id);
            if sent.phase_done() {
                lemma_submitting_keeps_consistency(s);
                assert(sent.phase != next.phase);
                assert(next.in_flight_storage_requests == sent.in_flight_storage_requests);
                assert(next.in_flight_bytecode_requests == sent.in_flight_bytecode_requests);
                assert(next.ids_in_flight().len() == 0);
            } else {
                assert(next.ids_in_flight() =~= sent.ids_in_flight());
                lemma_submitted_ids_rise(s);
            }
        },
    }
}

/// Growing numbers grow without one of them.
proof fn lemma_rising_without_one(ids: Seq<u64>, bound: u64, at: int)
    requires
        rising_below(ids, bound),
        0 <= at < ids.len(),
    ensures
        rising_below(ids.remove(at), bound),
{
    let fewer = ids.remove(at);
    assert forall|i: int, j: int| 0 <= i < j < fewer.len() implies fewer[i] < fewer[j] by {
        let i0 = if i < at { i } else { i + 1 };
        let j0 = if j < at { j } else { j + 1 };
        assert(ids[i0] < ids[j0]);
    }
    assert forall|i: int| 0 <= i < fewer.len() implies fewer[i] < bound by {
        let i0 = if i < at { i } else { i + 1 };
        assert(ids[i0] < bound);
    }
}

/// The numbers of new requests go on from those in flight, as long as the counter does not start
/// again.
proof fn lemma_submitted_ids_rise(s: DownloaderState)
    requires
        rising_below(s.ids_in_flight(), s.request_id),
        s.request_id <= s.submitted().0.request_id,
    ensures
        rising_below(s.submitted().0.ids_in_flight(), s.submitted().0.request_id),
{
    let (sent, requests) = s.submitted();
    let ids = s.ids_in_flight();
    law_requests_fill_the_limit(s);
    law_requests_are_numbered_in_order(s);
    assert(requests.len() <= usize::MAX);
    assert(s.request_id + requests.len() < 0x1_0000_0000_0000_0000);
    assert forall|i: int| 0 <= i < sent.ids_in_flight().len() implies #[trigger]
    sent.ids_in_flight()[i] == (if i < ids.len() {
        ids[i] as int
    } else {
        s.request_id + i - ids.len()
    }) by {
        if i >= ids.len() {
            assert(ids_of(requests)[i - ids.len()] == id_of(requests[i - ids.len()]));
        }
    }
}

// ===== Batches and progress =====

/// A batch is formed exactly when the current phase has something buffered. It takes the oldest
/// data, in order, and leaves the rest; it is never too large.
pub proof fn law_batches_drain_the_buffer_in_order(s: DownloaderState)
    ensures
        ({
            let (next, batch) = s.batch_formed();
            match s.phase {
                SnapPhase::AccountSync => match batch {
                    Some(SnapBatchView::Accounts { accounts, has_more }) => {
                        s.buffered_account_ranges == seq![
                            AccountRange { accounts, has_more },
                        ] + next.buffered_account_ranges
                    },
                    Some(_) => false,
                    None => s.buffered_account_ranges.len() == 0,
                },
                SnapPhase::StorageSync => match batch {
                    Some(SnapBatchView::Storage { storage, .. }) => {
                        &&& 0 < storage.len() <= STORAGE_RANGES_PER_BATCH
                        &&& storage_entries(s.buffered_storage_ranges) == storage
                            + storage_entries(next.buffered_storage_ranges)
                        &&& next.buffered_storage_ranges.len() > 0 ==> storage.len()
                            == STORAGE_RANGES_PER_BATCH
                    },
                    Some(_) => false,
                    None => s.buffered_storage_ranges.len() == 0,
                },
                SnapPhase::BytecodeSync => match batch {
                    Some(SnapBatchView::Bytecode { codes }) => {
                        &&& 0 < codes.len() <= BYTECODES_PER_BATCH
                        &&& s.buffered_bytecodes == codes + next.buffered_bytecodes
                        &&& next.buffered_bytecodes.len() > 0 ==> codes.len()
                            == BYTECODES_PER_BATCH
                    },
                    Some(_) => false,
                    None => s.buffered_bytecodes.len() == 0,
                },
                SnapPhase::Complete => batch is None,
            }
        }),
{
    let (next, batch) = s.batch_formed();
    match s.phase {
        SnapPhase::AccountSync => {
            if s.buffered_account_ranges.len() > 0 {
                let range = s.buffered_account_ranges[0];
                assert(s.buffered_account_ranges =~= seq![
                    AccountRange {
                        accounts: range.accounts,
                        has_more: range.has_more,
                    },
                ] + next.buffered_account_ranges);
            }
        },
        SnapPhase::StorageSync => {
            let all = s.buffered_storage_ranges;
            let n = min(STORAGE_RANGES_PER_BATCH as nat, all.len()) as int;
            assert(storage_entries(all) =~= storage_entries(
                all.take(n),
            ) + storage_entries(all.skip(n)));
        },
        SnapPhase::BytecodeSync => {
            let all = s.buffered_bytecodes;
            let n = min(BYTECODES_PER_BATCH as nat, all.len()) as int;
            assert(all =~= all.take(n) + all.skip(n));
        },
        SnapPhase::Complete => {},
    }
}

/// A downloader that may make requests never stalls: where the consumer has to wait, a request
/// is in flight.
pub proof fn law_waiting_means_in_flight(
    s: DownloaderState,
    event: PollEventView,
    next: DownloaderState,
)
    requires
        s.max_concurrent_requests > 0,
        s.admits(event),
        s.steps_to(event, next, PollTurnView::Pending),
    ensures
        next.ids_in_flight().len() > 0,
{
    law_requests_fill_the_limit(s);
    lemma_submitting_changes_requests_only(s);
    let sent = s.submitted().0;
    law_batches_drain_the_buffer_in_order(sent);
}

/// Requests that were just made are polled before the consumer has to wait.
pub proof fn law_new_requests_are_polled(
    s: DownloaderState,
    event: PollEventView,
    next: DownloaderState,
)
    requires
        s.admits(event),
        s.steps_to(event, next, PollTurnView::Pending),
    ensures
        s.submitted().1.len() == 0,
        next == s,
{
    law_requests_fill_the_limit(s);
    if s.can_submit() && s.has_work() {
        assert(s.submitted().1.len() > 0);
    }
}

/// An empty account range ends the account phase: once no other request is in flight and
/// everything was handed on, the downloader leaves the phase without another request, and is
/// finished where no account had storage or code.
pub proof fn law_empty_range_ends_the_account_phase(
    s: DownloaderState,
    request_id: u64,
    message: AccountRangeView,
    answered: DownloaderState,
    turn: PollTurnView,
    next: DownloaderState,
    last: PollTurnView,
)
    requires
        s.phase == SnapPhase::AccountSync,
        s.ids_in_flight() == seq![request_id],
        s.buffered_account_ranges.len() == 0,
        message.accounts.len() == 0,
        ({
            let event = PollEventView::Answered {
                request_id,
                outcome: Ok(SnapResponseView::AccountRange(message)),
            };
            s.admits(event) && s.steps_to(event, answered, turn)
        }),
        answered.steps_to(PollEventView::Drained, next, last),
    ensures
        turn == (PollTurnView::PollInFlight { submit: Seq::empty() }),
        answered.admits(PollEventView::Drained),
        next.next_account_hash == next.target_account_hash,
        next.request_id == s.request_id,
        next.phase != SnapPhase::AccountSync,
        s.account_storage_roots.dom() == Set::<B256>::empty() && s.code_hashes_needed == Set::<
            B256,
        >::empty() ==> next.phase == SnapPhase::Complete && last == PollTurnView::Finished,
{
    s.ids_in_flight().index_of_first_ensures(request_id);
    assert(s.ids_in_flight()[0] == request_id);
    assert(!answered.has_work());
    assert(answered.ids_in_flight().len() == 0);
}

// ===== What is noted and reported =====

/// The account at a position of a range has the code.
pub open spec fn has_code_at(accounts: Seq<(B256, Seq<u8>)>, code: B256, i: int) -> bool {
    slim(accounts[i]).bytecode_hash == Some(code)
}

/// The code hashes that are needed are those that were needed and those of the accounts.
pub proof fn law_codes_noted(codes: Set<B256>, accounts: Seq<(B256, Seq<u8>)>, code: B256)
    ensures
        codes_noted(codes, accounts).contains(code) <==> codes.contains(code) || exists|i: int|
            0 <= i < accounts.len() && #[trigger] has_code_at(accounts, code, i),
    decreases accounts.len(),
{
    if accounts.len() > 0 {
        let front = accounts.drop_last();
        let last = accounts.len() - 1;
        law_codes_noted(codes, front, code);
        assert(accounts.last() == accounts[last]);
        assert forall|i: int| 0 <= i < last implies #[trigger] has_code_at(front, code, i)
            == has_code_at(accounts, code, i) by {}
        if exists|i: int| 0 <= i < front.len() && #[trigger] has_code_at(front, code, i) {
            let i = choose|i: int| 0 <= i < front.len() && #[trigger] has_code_at(front, code, i);
            assert(has_code_at(accounts, code, i));
        }
        if exists|i: int| 0 <= i < accounts.len() && #[trigger] has_code_at(accounts, code, i) {
            let i = choose|i: int|
                0 <= i < accounts.len() && #[trigger] has_code_at(accounts, code, i);
            if i < last {
                assert(has_code_at(front, code, i));
            }
        }
        if codes_noted(codes, accounts).contains(code) && !codes_noted(codes, front).contains(
            code,
        ) {
            assert(has_code_at(accounts, code, last));
        }
    }
}

/// The account at a position of a range is the given one, and has storage.
pub open spec fn has_storage_at(accounts: Seq<(B256, Seq<u8>)>, account: B256, i: int) -> bool {
    accounts[i].0 == account && slim(accounts[i]).storage_root != empty_root()
}

/// The position is the last one of a range at which the account has storage.
pub open spec fn has_storage_last_at(
    accounts: Seq<(B256, Seq<u8>)>,
    account: B256,
    i: int,
) -> bool {
    &&& 0 <= i < accounts.len()
    &&& has_storage_at(accounts, account, i)
    &&& forall|j: int| i < j < accounts.len() ==> !#[trigger] has_storage_at(accounts, account, j)
}

/// The root that is known of an account is the last that the range has for it; where the range
/// has none, what was known stays.
pub proof fn law_roots_noted(
    roots: Map<B256, B256>,
    accounts: Seq<(B256, Seq<u8>)>,
    account: B256,
)
    ensures
        forall|i: int| #[trigger]
            has_storage_last_at(accounts, account, i) ==> roots_noted(roots, accounts).contains_key(
                account,
            ) && roots_noted(roots, accounts)[account] == slim(accounts[i]).storage_root,
        (forall|i: int|
            0 <= i < accounts.len() ==> !#[trigger] has_storage_at(accounts, account, i)) ==> {
            &&& roots_noted(roots, accounts).contains_key(account) == roots.contains_key(account)
            &&& roots_noted(roots, accounts)[account] == roots[account]
        },
    decreases accounts.len(),
{
    if accounts.len() > 0 {
        let front = accounts.drop_last();
        let last = accounts.len() - 1;
        law_roots_noted(roots, front, account);
        assert(accounts.last() == accounts[last]);
        assert forall|i: int| 0 <= i < last implies #[trigger] has_storage_at(front, account, i)
            == has_storage_at(accounts, account, i) by {}
        assert forall|i: int| #[trigger] has_storage_last_at(accounts, account, i) implies {
            &&& roots_noted(roots, accounts).contains_key(account)
            &&& roots_noted(roots, accounts)[account] == slim(accounts[i]).storage_root
        } by {
            if i < last {
                assert(!has_storage_at(accounts, account, last));
                assert(has_storage_last_at(front, account, i));
            }
        }
        if forall|i: int|
            0 <= i < accounts.len() ==> !#[trigger] has_storage_at(accounts, account, i) {
            assert(!has_storage_at(accounts, account, last));
        }
    }
}

/// A batch reports an account as complete exactly when it holds a complete range of it.
pub proof fn law_complete_accounts(ranges: Seq<StorageRange>, account: B256)
    ensures
        complete_accounts(ranges).contains(account) <==> exists|i: int|
            0 <= i < ranges.len() && (#[trigger] ranges[i]).is_complete && ranges[i].account_hash
                == account,
    decreases ranges.len(),
{
    if ranges.len() > 0 {
        let front = ranges.drop_last();
        law_complete_accounts(front, account);
        if complete_accounts(front).contains(account) {
            let i = choose|i: int|
                0 <= i < front.len() && (#[trigger] front[i]).is_complete && front[i].account_hash
                    == account;
            assert(ranges[i].is_complete && ranges[i].account_hash == account);
        }
        if exists|i: int|
            0 <= i < ranges.len() && (#[trigger] ranges[i]).is_complete && ranges[i].account_hash
                == account {
            let i = choose|i: int|
                0 <= i < ranges.len() && (#[trigger] ranges[i]).is_complete
                    && ranges[i].account_hash == account;
            if i < front.len() {
                assert(front[i].is_complete && front[i].account_hash == account);
            }
        }
    }
}

/// The range is partial and holds slots.
pub open spec fn reported_partial(range: StorageRange, account: B256) -> bool {
    !range.is_complete && range.slots.len() > 0 && range.account_hash == account
}

/// A batch reports an account as partial exactly when it holds a partial range of it with slots,
/// and names the last slot of the last such range.
pub proof fn law_partial_accounts(ranges: Seq<StorageRange>, account: B256)
    ensures
        partial_accounts(ranges).contains_key(account) <==> exists|i: int|
            0 <= i < ranges.len() && reported_partial(#[trigger] ranges[i], account),
        partial_accounts(ranges).contains_key(account) ==> exists|i: int|
            0 <= i < ranges.len() && reported_partial(#[trigger] ranges[i], account)
                && partial_accounts(ranges)[account] == ranges[i].slots.last().0 && forall|j: int|
                i < j < ranges.len() ==> !reported_partial(#[trigger] ranges[j], account),
    decreases ranges.len(),
{
    if ranges.len() > 0 {
        let front = ranges.drop_last();
        let last = ranges.len() - 1;
        law_partial_accounts(front, account);
        if reported_partial(ranges[last], account) {
            assert(partial_accounts(ranges)[account] == ranges[last].slots.last().0);
        } else if partial_accounts(front).contains_key(account) {
            let i = choose|i: int|
                0 <= i < front.len() && reported_partial(#[trigger] front[i], account)
                    && partial_accounts(front)[account] == front[i].slots.last().0 && forall|j: int|
                    i < j < front.len() ==> !reported_partial(#[trigger] front[j], account);
            assert(reported_partial(ranges[i], account));
            assert forall|j: int| i < j < ranges.len() implies !reported_partial(
                #[trigger] ranges[j],
                account,
            ) by {
                if j < front.len() {
                    assert(!reported_partial(front[j], account));
                }
            }
        } else {
            assert forall|i: int| 0 <= i < ranges.len() implies !reported_partial(
                #[trigger] ranges[i],
                account,
            ) by {
                if i < front.len() {
                    assert(!reported_partial(front[i], account));
                }
            }
        }
    }
}

} // verus!
