//! What the steps of a snap downloader do: batches, phases and polling, stated over what goes in
//! and what comes out.

use crate::batch::{SnapBatchView, StorageRange};
use crate::error::{DownloadError, RequestError};
use crate::laws::{
    consistent, law_complete_accounts, law_partial_accounts, law_requests_fill_the_limit,
    lemma_submitting_changes_requests_only, lemma_taking_ranges_adds_only_checks, reported_partial,
};
use crate::model::{
    complete_accounts, partial_accounts, DownloaderState, PollEventView, PollTurnView,
    ProofOutcome,
};
use crate::phase::SnapPhase;
use crate::primitives::{bytes_precede, B256};
use crate::wire::SnapResponseView;
use vstd::prelude::*;

verus! {

// ===== Batches =====

/// In the account phase the oldest buffered range is handed on as it is, and leaves the buffer.
pub proof fn law_account_batch(s: DownloaderState)
    requires
        s.phase == SnapPhase::AccountSync,
        s.buffered_account_ranges.len() > 0,
    ensures
        ({
            let ranges = s.buffered_account_ranges;
            s.batch_formed() == (
                DownloaderState {
                    buffered_account_ranges: ranges.subrange(1, ranges.len() as int),
                    ..s
                },
                Some(
                    SnapBatchView::Accounts {
                        accounts: ranges[0].accounts,
                        has_more: ranges[0].has_more,
                    },
                ),
            )
        }),
{
    let ranges = s.buffered_account_ranges;
    assert(ranges.skip(1) =~= ranges.subrange(1, ranges.len() as int));
}

/// A range of the account is complete.
pub open spec fn holds_complete(ranges: Seq<StorageRange>, n: int, account: B256) -> bool {
    exists|i: int|
        0 <= i < n && (#[trigger] ranges[i]).is_complete && ranges[i].account_hash == account
}

/// The range at a position is the last of the account among the first that is partial and has
/// slots.
pub open spec fn holds_partial_last(
    ranges: Seq<StorageRange>,
    n: int,
    i: int,
    account: B256,
) -> bool {
    &&& 0 <= i < n
    &&& reported_partial(ranges[i], account)
    &&& forall|j: int| i < j < n ==> !#[trigger] reported_partial(ranges[j], account)
}

/// In the storage phase the oldest buffered ranges are handed on, at most a hundred and otherwise
/// all, in order and with all their slots, and leave the buffer. The batch reports the accounts
/// of complete ranges, and those of partial ranges with the last slot that they have.
pub proof fn law_storage_batch(s: DownloaderState, n: int)
    requires
        s.phase == SnapPhase::StorageSync,
        s.buffered_storage_ranges.len() > 0,
        n == if s.buffered_storage_ranges.len() < 100 {
            s.buffered_storage_ranges.len() as int
        } else {
            100
        },
    ensures
        ({
            let ranges = s.buffered_storage_ranges;
            let (next, batch) = s.batch_formed();
            &&& next == DownloaderState {
                buffered_storage_ranges: ranges.subrange(n, ranges.len() as int),
                ..s
            }
            &&& batch matches Some(
                SnapBatchView::Storage { storage, accounts_complete, accounts_partial },
            ) && {
                &&& storage.len() == n
                &&& forall|i: int|
                    0 <= i < n ==> {
                        &&& (#[trigger] storage[i]).0 == ranges[i].account_hash
                        &&& storage[i].1 == ranges[i].storage_root
                        &&& storage[i].2 == ranges[i].slots
                    }
                &&& forall|account: B256| #[trigger]
                    accounts_complete.contains(account) <==> holds_complete(ranges, n, account)
                &&& forall|account: B256| #[trigger]
                    accounts_partial.contains_key(account) <==> exists|i: int| #[trigger]
                        holds_partial_last(ranges, n, i, account)
                &&& forall|account: B256, i: int| #[trigger]
                    holds_partial_last(ranges, n, i, account) ==> accounts_partial[account]
                        == ranges[i].slots[ranges[i].slots.len() - 1].0
            }
        }),
{
    let ranges = s.buffered_storage_ranges;
    let front = ranges.take(n);
    assert(ranges.skip(n) =~= ranges.subrange(n, ranges.len() as int));
    assert forall|account: B256| #[trigger]
        complete_accounts(front).contains(account) <==> holds_complete(ranges, n, account) by {
        law_complete_accounts(front, account);
        if complete_accounts(front).contains(account) {
            let i = choose|i: int|
                0 <= i < front.len() && (#[trigger] front[i]).is_complete && front[i].account_hash
                    == account;
            assert(ranges[i] == front[i]);
        }
        if holds_complete(ranges, n, account) {
            let i = choose|i: int|
                0 <= i < n && (#[trigger] ranges[i]).is_complete && ranges[i].account_hash
                    == account;
            assert(ranges[i] == front[i]);
        }
    }
    assert forall|account: B256| #[trigger]
        partial_accounts(front).contains_key(account) <==> exists|i: int| #[trigger]
            holds_partial_last(ranges, n, i, account) by {
        law_partial_accounts(front, account);
        if partial_accounts(front).contains_key(account) {
            let i = lemma_partial_at(ranges, n, account);
        }
        if exists|i: int| #[trigger] holds_partial_last(ranges, n, i, account) {
            let i = choose|i: int| #[trigger] holds_partial_last(ranges, n, i, account);
            assert(reported_partial(front[i], account));
        }
    }
    assert forall|account: B256, i: int| #[trigger]
        holds_partial_last(ranges, n, i, account) implies partial_accounts(front)[account]
        == ranges[i].slots[ranges[i].slots.len() - 1].0 by {
        law_partial_accounts(front, account);
        assert(reported_partial(front[i], account));
        let j = lemma_partial_at(ranges, n, account);
        if i < j {
            assert(!reported_partial(ranges[j], account));
        } else if j < i {
            assert(!reported_partial(ranges[i], account));
        }
    }
}

/// Where an account is reported as partial, the last of its partial ranges says up to where.
proof fn lemma_partial_at(ranges: Seq<StorageRange>, n: int, account: B256) -> (i: int)
    requires
        0 <= n <= ranges.len(),
        partial_accounts(ranges.take(n)).contains_key(account),
    ensures
        holds_partial_last(ranges, n, i, account),
        partial_accounts(ranges.take(n))[account] == ranges[i].slots.last().0,
{
    let front = ranges.take(n);
    law_partial_accounts(front, account);
    let i = choose|i: int|
        0 <= i < front.len() && reported_partial(#[trigger] front[i], account)
            && partial_accounts(front)[account] == front[i].slots.last().0 && forall|j: int|
            i < j < front.len() ==> !reported_partial(#[trigger] front[j], account);
    assert(ranges[i] == front[i]);
    assert forall|j: int| i < j < n implies !#[trigger] reported_partial(ranges[j], account) by {
        assert(ranges[j] == front[j]);
        assert(!reported_partial(front[j], account));
    }
    i
}

/// In the bytecode phase the oldest buffered codes are handed on, at most a thousand and otherwise
/// all, in order and as they are, and leave the buffer.
pub proof fn law_bytecode_batch(s: DownloaderState, n: int)
    requires
        s.phase == SnapPhase::BytecodeSync,
        s.buffered_bytecodes.len() > 0,
        n == if s.buffered_bytecodes.len() < 1000 {
            s.buffered_bytecodes.len() as int
        } else {
            1000
        },
    ensures
        ({
            let codes = s.buffered_bytecodes;
            s.batch_formed() == (
                DownloaderState {
                    buffered_bytecodes: codes.subrange(n, codes.len() as int),
                    ..s
                },
                Some(SnapBatchView::Bytecode { codes: codes.subrange(0, n) }),
            )
        }),
{
    let codes = s.buffered_bytecodes;
    assert(codes.skip(n) =~= codes.subrange(n, codes.len() as int));
    assert(codes.take(n) =~= codes.subrange(0, n));
}

/// The current phase has nothing buffered.
pub open spec fn nothing_buffered(s: DownloaderState) -> bool {
    match s.phase {
        SnapPhase::AccountSync => s.buffered_account_ranges.len() == 0,
        SnapPhase::StorageSync => s.buffered_storage_ranges.len() == 0,
        SnapPhase::BytecodeSync => s.buffered_bytecodes.len() == 0,
        SnapPhase::Complete => true,
    }
}

/// Where the current phase has nothing buffered, there is no batch and nothing changes; otherwise
/// there is one.
pub proof fn law_batches_come_from_the_buffer(s: DownloaderState)
    ensures
        nothing_buffered(s) ==> s.batch_formed() == (s, None::<SnapBatchView>),
        !nothing_buffered(s) ==> s.batch_formed().1 is Some,
{
}

// ===== Phases =====

/// After the accounts comes the storage where an account has storage, then the bytecode where
/// code is needed, then the end. A phase that begins has each account with storage, or each code
/// that is needed, before it once; nothing else changes with the phase.
pub proof fn law_phases_follow(s: DownloaderState, next: DownloaderState)
    requires
        s.transitions_to(next),
    ensures
        ({
            let storage = exists|account: B256| #[trigger]
                s.account_storage_roots.contains_key(account);
            let code = exists|code: B256| #[trigger] s.code_hashes_needed.contains(code);
            &&& next.phase == match s.phase {
                SnapPhase::AccountSync => if storage {
                    SnapPhase::StorageSync
                } else if code {
                    SnapPhase::BytecodeSync
                } else {
                    SnapPhase::Complete
                },
                SnapPhase::StorageSync => if code {
                    SnapPhase::BytecodeSync
                } else {
                    SnapPhase::Complete
                },
                _ => SnapPhase::Complete,
            }
            &&& next == DownloaderState {
                phase: next.phase,
                accounts_pending_storage: next.accounts_pending_storage,
                code_hashes_pending: next.code_hashes_pending,
                ..s
            }
            &&& if next.phase == SnapPhase::StorageSync {
                each_once_listed(
                    next.accounts_pending_storage,
                    |account: B256| s.account_storage_roots.contains_key(account),
                )
            } else {
                next.accounts_pending_storage == s.accounts_pending_storage
            }
            &&& if next.phase == SnapPhase::BytecodeSync {
                each_once_listed(
                    next.code_hashes_pending,
                    |code: B256| s.code_hashes_needed.contains(code),
                )
            } else {
                next.code_hashes_pending == s.code_hashes_pending
            }
        }),
{
    if s.account_storage_roots.dom() != Set::<B256>::empty() {
        assert(exists|account: B256| #[trigger] s.account_storage_roots.contains_key(account)) by {
            if forall|account: B256| !#[trigger] s.account_storage_roots.contains_key(account) {
                assert(s.account_storage_roots.dom() =~= Set::<B256>::empty());
            }
        }
    } else {
        assert forall|account: B256| !#[trigger] s.account_storage_roots.contains_key(account) by {
            assert(!s.account_storage_roots.dom().contains(account));
        }
    }
    if s.code_hashes_needed != Set::<B256>::empty() {
        assert(exists|code: B256| #[trigger] s.code_hashes_needed.contains(code)) by {
            if forall|code: B256| !#[trigger] s.code_hashes_needed.contains(code) {
                assert(s.code_hashes_needed =~= Set::<B256>::empty());
            }
        }
    }
    if next.phase == SnapPhase::StorageSync {
        let list = next.accounts_pending_storage;
        assert forall|hash: B256| #[trigger]
            list.contains(hash) <==> s.account_storage_roots.contains_key(hash) by {
            assert(list.to_set().contains(hash) == list.contains(hash));
        }
    }
    if next.phase == SnapPhase::BytecodeSync {
        let list = next.code_hashes_pending;
        assert forall|hash: B256| #[trigger]
            list.contains(hash) <==> s.code_hashes_needed.contains(hash) by {
            assert(list.to_set().contains(hash) == list.contains(hash));
        }
    }
}

/// The list has each of the hashes once, and no other.
pub open spec fn each_once_listed(list: Seq<B256>, all: spec_fn(B256) -> bool) -> bool {
    &&& forall|hash: B256| #[trigger] list.contains(hash) <==> all(hash)
    &&& forall|i: int, j: int| 0 <= i < j < list.len() ==> list[i] != list[j]
}

// ===== Polling =====

/// The request at a position is the first of the current phase in flight that has the number.
pub open spec fn first_with_number(s: DownloaderState, request_id: u64, at: int) -> bool {
    match s.phase {
        SnapPhase::AccountSync => {
            &&& 0 <= at < s.in_flight_account_requests.len()
            &&& s.in_flight_account_requests[at].request_id == request_id
            &&& forall|j: int|
                0 <= j < at ==> (#[trigger] s.in_flight_account_requests[j]).request_id
                    != request_id
        },
        SnapPhase::StorageSync => {
            &&& 0 <= at < s.in_flight_storage_requests.len()
            &&& s.in_flight_storage_requests[at].request_id == request_id
            &&& forall|j: int|
                0 <= j < at ==> (#[trigger] s.in_flight_storage_requests[j]).request_id
                    != request_id
        },
        SnapPhase::BytecodeSync => {
            &&& 0 <= at < s.in_flight_bytecode_requests.len()
            &&& s.in_flight_bytecode_requests[at].request_id == request_id
            &&& forall|j: int|
                0 <= j < at ==> (#[trigger] s.in_flight_bytecode_requests[j]).request_id
                    != request_id
        },
        SnapPhase::Complete => false,
    }
}

/// The requests in flight are those of the current phase, by their numbers and in order.
pub proof fn law_requests_in_flight_are_those_of_the_phase(s: DownloaderState)
    ensures
        ({
            let ids = s.ids_in_flight();
            match s.phase {
                SnapPhase::AccountSync => {
                    &&& ids.len() == s.in_flight_account_requests.len()
                    &&& forall|i: int|
                        0 <= i < ids.len() ==> #[trigger] ids[i]
                            == s.in_flight_account_requests[i].request_id
                },
                SnapPhase::StorageSync => {
                    &&& ids.len() == s.in_flight_storage_requests.len()
                    &&& forall|i: int|
                        0 <= i < ids.len() ==> #[trigger] ids[i]
                            == s.in_flight_storage_requests[i].request_id
                },
                SnapPhase::BytecodeSync => {
                    &&& ids.len() == s.in_flight_bytecode_requests.len()
                    &&& forall|i: int|
                        0 <= i < ids.len() ==> #[trigger] ids[i]
                            == s.in_flight_bytecode_requests[i].request_id
                },
                SnapPhase::Complete => ids.len() == 0,
            }
        }),
{
}

/// There is room for another request exactly while the current phase has fewer in flight than the
/// limit, and at the end there is none.
pub proof fn law_room_for_another_request(s: DownloaderState)
    ensures
        s.can_submit() <==> match s.phase {
            SnapPhase::AccountSync => s.in_flight_account_requests.len()
                < s.max_concurrent_requests,
            SnapPhase::StorageSync => s.in_flight_storage_requests.len()
                < s.max_concurrent_requests,
            SnapPhase::BytecodeSync => s.in_flight_bytecode_requests.len()
                < s.max_concurrent_requests,
            SnapPhase::Complete => false,
        },
{
}

/// The numbers of the requests of the current phase in flight, by position.
proof fn lemma_ids(s: DownloaderState, request_id: u64, at: int)
    requires
        first_with_number(s, request_id, at),
    ensures
        0 <= at < s.ids_in_flight().len(),
        s.ids_in_flight().contains(request_id),
        s.ids_in_flight().index_of_first(request_id) == Some(at),
{
    let ids = s.ids_in_flight();
    assert(ids[at] == request_id);
    ids.index_of_first_ensures(request_id);
    let first = ids.index_of_first(request_id)->0;
    assert(ids[first] == request_id);
    match s.phase {
        SnapPhase::AccountSync => {
            assert(s.in_flight_account_requests[first].request_id == request_id);
        },
        SnapPhase::StorageSync => {
            assert(s.in_flight_storage_requests[first].request_id == request_id);
        },
        SnapPhase::BytecodeSync => {
            assert(s.in_flight_bytecode_requests[first].request_id == request_id);
        },
        SnapPhase::Complete => {},
    }
}

/// What can happen: the consumer polls unless a proof is being checked, and only then a check
/// ends; up to an error and the end, the answers that are ready run out, and any request of the
/// current phase in flight is answered.
pub proof fn law_what_can_happen(
    s: DownloaderState,
    request_id: u64,
    outcome: Result<SnapResponseView, RequestError>,
    checked: ProofOutcome,
)
    ensures
        s.admits(PollEventView::Polled) <==> s.pending_proof is Nothing,
        s.admits(PollEventView::ProofChecked(checked)) <==> !(s.pending_proof is Nothing),
        s.admits(PollEventView::Drained) <==> s.pending_proof is Nothing && !s.terminated && s.phase
            != SnapPhase::Complete,
        s.admits(PollEventView::Answered { request_id, outcome }) <==> s.pending_proof is Nothing
            && !s.terminated && exists|at: int| #[trigger] first_with_number(s, request_id, at),
{
    let ids = s.ids_in_flight();
    if exists|at: int| #[trigger] first_with_number(s, request_id, at) {
        let at = choose|at: int| #[trigger] first_with_number(s, request_id, at);
        lemma_ids(s, request_id, at);
    }
    if ids.contains(request_id) {
        ids.index_of_first_ensures(request_id);
        let at = ids.index_of_first(request_id)->0;
        match s.phase {
            SnapPhase::AccountSync => {
                assert forall|j: int| 0 <= j < at implies (
                #[trigger] s.in_flight_account_requests[j]).request_id != request_id by {
                    assert(ids[j] != request_id);
                }
            },
            SnapPhase::StorageSync => {
                assert forall|j: int| 0 <= j < at implies (
                #[trigger] s.in_flight_storage_requests[j]).request_id != request_id by {
                    assert(ids[j] != request_id);
                }
            },
            SnapPhase::BytecodeSync => {
                assert forall|j: int| 0 <= j < at implies (
                #[trigger] s.in_flight_bytecode_requests[j]).request_id != request_id by {
                    assert(ids[j] != request_id);
                }
            },
            SnapPhase::Complete => {},
        }
        assert(first_with_number(s, request_id, at));
    }
}

/// Polling changes nothing, and gives nothing more exactly after an error or at the end.
pub proof fn law_polling(s: DownloaderState, next: DownloaderState, turn: PollTurnView)
    requires
        s.steps_to(PollEventView::Polled, next, turn),
    ensures
        next == s,
        s.terminated || s.phase == SnapPhase::Complete ==> turn is Finished,
        !(s.terminated || s.phase == SnapPhase::Complete) ==> turn == (PollTurnView::PollInFlight {
            submit: Seq::empty(),
        }),
{
}

/// A downloader has nothing more to hand on exactly after an error or at the end.
pub proof fn law_nothing_more_to_hand_on(s: DownloaderState)
    requires
        consistent(s),
    ensures
        s.is_terminated() <==> s.terminated || s.phase == SnapPhase::Complete,
{
}

/// A downloader that is not terminated by an error has something more to hand on unless it is at
/// the end, with nothing in flight and nothing buffered in any phase.
pub proof fn law_the_end_has_nothing_left(s: DownloaderState)
    ensures
        s.terminated ==> s.is_terminated(),
        !s.terminated ==> (s.is_terminated() <==> s.phase == SnapPhase::Complete
            && s.in_flight_account_requests.len() + s.in_flight_storage_requests.len()
            + s.in_flight_bytecode_requests.len() + s.buffered_account_ranges.len()
            + s.buffered_storage_ranges.len() + s.buffered_bytecodes.len() == 0),
{
}

/// The state and the turn are those after an error.
pub open spec fn ends_with(
    state: DownloaderState,
    error: DownloadError,
    next: DownloaderState,
    turn: PollTurnView,
) -> bool {
    &&& next == DownloaderState { terminated: true, ..state }
    &&& turn == PollTurnView::Yield { submit: Seq::empty(), item: Err(error) }
}

/// The downloader asks for the next answer, and has not changed otherwise.
pub open spec fn continues_in(
    state: DownloaderState,
    next: DownloaderState,
    turn: PollTurnView,
) -> bool {
    &&& next == state
    &&& turn == PollTurnView::PollInFlight { submit: Seq::empty() }
}

/// A request that fails leaves the flight, and ends the download with its error.
pub proof fn law_failed_requests_end_the_download(
    s: DownloaderState,
    request_id: u64,
    error: RequestError,
    next: DownloaderState,
    turn: PollTurnView,
    at: int,
)
    requires
        first_with_number(s, request_id, at),
        s.steps_to(PollEventView::Answered { request_id, outcome: Err(error) }, next, turn),
    ensures
        ends_with(
            without_request(s, at),
            DownloadError::RequestError(error),
            next,
            turn,
        ),
{
    lemma_ids(s, request_id, at);
}

/// The state without the request of the current phase at a position.
pub open spec fn without_request(s: DownloaderState, at: int) -> DownloaderState {
    match s.phase {
        SnapPhase::AccountSync => DownloaderState {
            in_flight_account_requests: s.in_flight_account_requests.remove(at),
            ..s
        },
        SnapPhase::StorageSync => DownloaderState {
            in_flight_storage_requests: s.in_flight_storage_requests.remove(at),
            ..s
        },
        SnapPhase::BytecodeSync => DownloaderState {
            in_flight_bytecode_requests: s.in_flight_bytecode_requests.remove(at),
            ..s
        },
        SnapPhase::Complete => s,
    }
}

/// An answer takes its request out of flight and is taken in as the phase says, storage and code
/// against what that request asked for. Then the check that it depends on is asked for, or the
/// next answer; and an answer that is refused ends the download.
pub proof fn law_answers_belong_to_their_requests(
    s: DownloaderState,
    request_id: u64,
    response: SnapResponseView,
    next: DownloaderState,
    turn: PollTurnView,
    at: int,
)
    requires
        first_with_number(s, request_id, at),
        s.steps_to(PollEventView::Answered { request_id, outcome: Ok(response) }, next, turn),
    ensures
        ({
            let taken = without_request(s, at);
            match s.phase {
                SnapPhase::AccountSync => match taken.account_range_processed(response) {
                    (state, Ok(Some(query))) => next == state && turn
                        == PollTurnView::VerifyAccountRange(query),
                    (state, Ok(None)) => continues_in(state, next, turn),
                    (state, Err(error)) => ends_with(state, error, next, turn),
                },
                SnapPhase::StorageSync => match taken.storage_ranges_processed(
                    s.in_flight_storage_requests[at].account_hashes,
                    response,
                ) {
                    (state, Ok(Some(query))) => next == state && turn
                        == PollTurnView::VerifyStorageRange(query),
                    (state, Ok(None)) => continues_in(state, next, turn),
                    (state, Err(error)) => ends_with(state, error, next, turn),
                },
                SnapPhase::BytecodeSync => match taken.bytecode_processed(
                    s.in_flight_bytecode_requests[at].hashes,
                    response,
                ) {
                    (state, Ok(())) => continues_in(state, next, turn),
                    (state, Err(error)) => ends_with(state, error, next, turn),
                },
                SnapPhase::Complete => true,
            }
        }),
{
    lemma_ids(s, request_id, at);
}

/// What a check found is taken in by the range that waits for it. Then the next check of the
/// answer is asked for, or the next answer; and a range that is refused ends the download.
pub proof fn law_checks_belong_to_their_ranges(
    s: DownloaderState,
    outcome: ProofOutcome,
    next: DownloaderState,
    turn: PollTurnView,
)
    requires
        s.steps_to(PollEventView::ProofChecked(outcome), next, turn),
    ensures
        s.pending_proof is Accounts ==> match s.account_range_checked(outcome) {
            (state, Ok(())) => continues_in(state, next, turn),
            (state, Err(error)) => ends_with(state, error, next, turn),
        },
        s.pending_proof is Storage ==> match s.storage_range_checked(outcome) {
            (state, Ok(Some(query))) => next == state && turn == PollTurnView::VerifyStorageRange(
                query,
            ),
            (state, Ok(None)) => continues_in(state, next, turn),
            (state, Err(error)) => ends_with(state, error, next, turn),
        },
{
}

/// The current phase has asked for everything, and everything was answered and handed on.
pub open spec fn phase_is_over(s: DownloaderState) -> bool {
    match s.phase {
        SnapPhase::AccountSync => {
            &&& !bytes_precede(s.next_account_hash@, s.target_account_hash@)
            &&& s.in_flight_account_requests.len() == 0
            &&& s.buffered_account_ranges.len() == 0
        },
        SnapPhase::StorageSync => {
            &&& s.accounts_pending_storage.len() == 0
            &&& s.in_flight_storage_requests.len() == 0
            &&& s.buffered_storage_ranges.len() == 0
        },
        SnapPhase::BytecodeSync => {
            &&& s.code_hashes_pending.len() == 0
            &&& s.in_flight_bytecode_requests.len() == 0
            &&& s.buffered_bytecodes.len() == 0
        },
        SnapPhase::Complete => true,
    }
}

/// Once no answer is ready: a phase that is over gives way to the next. Otherwise the requests
/// that are due are made and sent; what is buffered is handed on with them; with nothing buffered
/// the new requests are polled, and without new requests the consumer waits.
pub proof fn law_when_no_answer_is_ready(
    s: DownloaderState,
    next: DownloaderState,
    turn: PollTurnView,
)
    requires
        s.phase != SnapPhase::Complete,
        s.steps_to(PollEventView::Drained, next, turn),
    ensures
        ({
            let (sent, submit) = s.submitted();
            if phase_is_over(s) {
                &&& s.transitions_to(next)
                &&& next.phase == SnapPhase::Complete ==> turn is Finished
                &&& next.phase != SnapPhase::Complete ==> turn == PollTurnView::PollInFlight {
                    submit: Seq::empty(),
                }
            } else if !nothing_buffered(s) {
                &&& sent.batch_formed().0 == next
                &&& turn matches PollTurnView::Yield { submit: given, item: Ok(batch) } && given
                    == submit && sent.batch_formed().1 == Some(batch)
            } else {
                &&& next == sent
                &&& turn == if submit.len() > 0 {
                    PollTurnView::PollInFlight { submit }
                } else {
                    PollTurnView::Pending
                }
            }
        }),
{
    lemma_submitting_changes_requests_only(s);
    law_requests_fill_the_limit(s);
    let (sent, submit) = s.submitted();
    if phase_is_over(s) {
        assert(!s.has_work());
        assert(sent == s);
    } else {
        assert(!sent.phase_done()) by {
            if sent.phase_done() {
                assert(sent.ids_in_flight().len() == 0);
                assert(s.ids_in_flight().len() == 0);
                assert(submit.len() == 0);
                assert(!(s.can_submit() && s.has_work()));
                assert(sent == s);
            }
        }
    }
}

/// Whatever a downloader wants done can then be reported to it.
pub proof fn law_what_is_wanted_can_be_reported(
    s: DownloaderState,
    event: PollEventView,
    next: DownloaderState,
    turn: PollTurnView,
)
    requires
        consistent(s),
        s.admits(event),
        s.steps_to(event, next, turn),
    ensures
        match turn {
            PollTurnView::PollInFlight { .. } => {
                &&& next.admits(PollEventView::Drained)
                &&& forall|request_id: u64, outcome: Result<SnapResponseView, RequestError>|
                    next.ids_in_flight().contains(request_id) ==> #[trigger] next.admits(
                        PollEventView::Answered { request_id, outcome },
                    )
            },
            PollTurnView::VerifyAccountRange(_) => {
                &&& next.pending_proof is Accounts
                &&& forall|outcome: ProofOutcome| #[trigger]
                    next.admits(PollEventView::ProofChecked(outcome))
            },
            PollTurnView::VerifyStorageRange(_) => {
                &&& next.pending_proof is Storage
                &&& forall|outcome: ProofOutcome| #[trigger]
                    next.admits(PollEventView::ProofChecked(outcome))
            },
            _ => next.admits(PollEventView::Polled),
        },
{
    lemma_submitting_changes_requests_only(s);
    lemma_taking_ranges_adds_only_checks();
    if let PollEventView::Answered { request_id, .. } = event {
        s.ids_in_flight().index_of_first_ensures(request_id);
    }
}

} // verus!
