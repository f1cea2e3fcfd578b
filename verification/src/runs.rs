//! What holds of whole runs of a snap downloader.

use crate::batch::{SnapBatchView, StorageRange};
use crate::collections::lists;
use crate::laws::{
    account_batches, asks_once, code_batches, consistent, law_complete_accounts,
    law_new_downloader_asks_once, law_new_downloader_is_consistent, law_partial_accounts,
    law_phases_never_go_back, law_steps_keep_asking_once, law_steps_keep_consistency,
    lemma_submitting_changes_requests_only, reported_partial,
};
use crate::model::{
    code_entries, codes_matching, complete_accounts, min, partial_accounts, storage_entries,
    storage_range, DownloaderState, PendingProofView, PollEventView, PollTurnView, ProofOutcome,
    StorageAnswerView, BYTECODES_PER_BATCH, STORAGE_RANGES_PER_BATCH,
};
use crate::phase::SnapPhase;
use crate::primitives::{B256, U256};
use crate::wire::{SnapRequestView, SnapResponseView};
use vstd::prelude::*;

verus! {

// ===== Counting =====

/// How often a list has the hash.
pub open spec fn count(list: Seq<B256>, hash: B256) -> nat {
    list.to_multiset().count(hash)
}

/// How often batches have the hash.
pub open spec fn count_in_batches(batches: Seq<Seq<B256>>, hash: B256) -> nat
    decreases batches.len(),
{
    if batches.len() == 0 {
        0
    } else {
        count_in_batches(batches.drop_last(), hash) + count(batches.last(), hash)
    }
}

/// A list has what its parts have.
proof fn lemma_count_joined(a: Seq<B256>, b: Seq<B256>, hash: B256)
    ensures
        count(a + b, hash) == count(a, hash) + count(b, hash),
{
    vstd::seq_lib::lemma_multiset_commutative(a, b);
}

/// The empty list has nothing.
proof fn lemma_count_empty(hash: B256)
    ensures
        count(Seq::empty(), hash) == 0,
{
    broadcast use vstd::seq_lib::to_multiset_contains;

    assert(!Seq::<B256>::empty().contains(hash));
}

/// A hash at the end of a list counts once.
proof fn lemma_count_pushed(list: Seq<B256>, last: B256, hash: B256)
    ensures
        count(list.push(last), hash) == count(list, hash) + if last == hash {
            1nat
        } else {
            0
        },
{
    broadcast use vstd::seq_lib::to_multiset_build;

}

/// A hash at the front of a list counts once.
proof fn lemma_count_first(list: Seq<B256>, hash: B256)
    requires
        list.len() > 0,
    ensures
        count(list, hash) == count(list.skip(1), hash) + if list[0] == hash {
            1nat
        } else {
            0
        },
{
    let first = Seq::<B256>::empty().push(list[0]);
    lemma_count_empty(hash);
    lemma_count_pushed(Seq::empty(), list[0], hash);
    lemma_count_joined(first, list.skip(1), hash);
    assert(first + list.skip(1) =~= list);
}

/// A list has what its front and its end have.
proof fn lemma_count_parted(list: Seq<B256>, n: int, hash: B256)
    requires
        0 <= n <= list.len(),
    ensures
        count(list, hash) == count(list.take(n), hash) + count(list.skip(n), hash),
{
    lemma_count_joined(list.take(n), list.skip(n), hash);
    assert(list.take(n) + list.skip(n) =~= list);
}

/// A list without repetitions has each hash at most once.
proof fn lemma_count_without_repetitions(list: Seq<B256>, hash: B256)
    requires
        list.no_duplicates(),
    ensures
        count(list, hash) <= 1,
{
    list.lemma_multiset_has_no_duplicates();
    if list.to_multiset().count(hash) > 0 {
        assert(list.to_multiset().contains(hash));
    }
}

/// A list that has each hash at most once is without repetitions.
proof fn lemma_counted_once(list: Seq<B256>)
    requires
        forall|hash: B256| #[trigger] count(list, hash) <= 1,
    ensures
        list.no_duplicates(),
{
    assert forall|hash: B256| list.to_multiset().contains(hash) implies list.to_multiset().count(
        hash,
    ) == 1 by {
        assert(count(list, hash) <= 1);
    }
    list.lemma_multiset_has_no_duplicates_conv();
}

/// Batches have what one of them and the others have.
proof fn lemma_count_without_a_batch(batches: Seq<Seq<B256>>, at: int, hash: B256)
    requires
        0 <= at < batches.len(),
    ensures
        count_in_batches(batches, hash) == count_in_batches(batches.remove(at), hash) + count(
            batches[at],
            hash,
        ),
    decreases batches.len(),
{
    let front = batches.drop_last();
    if at == front.len() {
        assert(batches.remove(at) =~= front);
    } else {
        lemma_count_without_a_batch(front, at, hash);
        assert(batches.remove(at).drop_last() =~= front.remove(at));
    }
}

// ===== What is handed on =====

/// The accounts whose storage is handed on.
pub open spec fn storage_handed_on(turn: PollTurnView) -> Seq<B256> {
    match turn {
        PollTurnView::Yield { item: Ok(SnapBatchView::Storage { storage, .. }), .. } => {
            storage.map_values(|entry: (B256, B256, Seq<(B256, U256)>)| entry.0)
        },
        _ => Seq::empty(),
    }
}

/// The hashes of the code that is handed on.
pub open spec fn code_handed_on(turn: PollTurnView) -> Seq<B256> {
    match turn {
        PollTurnView::Yield { item: Ok(SnapBatchView::Bytecode { codes }), .. } => {
            codes.map_values(|entry: (B256, Seq<u8>)| entry.0)
        },
        _ => Seq::empty(),
    }
}

/// The accounts that ranges belong to.
pub open spec fn accounts_of(ranges: Seq<StorageRange>) -> Seq<B256> {
    ranges.map_values(|range: StorageRange| range.account_hash)
}

/// The hashes that codes are listed under.
pub open spec fn hashes_of(codes: Seq<(B256, Seq<u8>)>) -> Seq<B256> {
    codes.map_values(|entry: (B256, Seq<u8>)| entry.0)
}

/// The accounts of an answer whose storage is being checked, or waits for that.
pub open spec fn accounts_under_check(s: DownloaderState) -> Seq<B256> {
    match s.pending_proof {
        PendingProofView::Storage(range) => s.unchecked_storage.batch.push(range.account_hash),
        _ => s.unchecked_storage.batch,
    }
}

/// How often the storage of the account is to be asked for, is in flight, is being checked, is
/// buffered or was handed on.
pub open spec fn storage_count(s: DownloaderState, handed: Seq<B256>, account: B256) -> nat {
    count(s.accounts_pending_storage, account) + count_in_batches(account_batches(s), account)
        + count(accounts_under_check(s), account) + count(
        accounts_of(s.buffered_storage_ranges),
        account,
    ) + count(handed, account)
}

/// How often the code is to be asked for, is in flight, is buffered or was handed on.
pub open spec fn code_count(s: DownloaderState, handed: Seq<B256>, code: B256) -> nat {
    count(s.code_hashes_pending, code) + count_in_batches(code_batches(s), code) + count(
        hashes_of(s.buffered_bytecodes),
        code,
    ) + count(handed, code)
}

/// With what was handed on so far, the storage of no account and no code has a second place.
pub open spec fn once(s: DownloaderState, accounts: Seq<B256>, codes: Seq<B256>) -> bool {
    &&& forall|account: B256| #[trigger] storage_count(s, accounts, account) <= 1
    &&& forall|code: B256| #[trigger] code_count(s, codes, code) <= 1
    &&& s.phase == SnapPhase::AccountSync ==> accounts.len() == 0
    &&& s.phase.rank() < SnapPhase::BytecodeSync.rank() ==> codes.len() == 0
}

/// In a new downloader nothing has a place.
pub proof fn law_new_downloader_has_handed_on_nothing(
    max: usize,
    root: B256,
    start: B256,
    target: B256,
)
    ensures
        once(DownloaderState::initial(max, root, start, target), Seq::empty(), Seq::empty()),
{
    let s = DownloaderState::initial(max, root, start, target);
    assert(accounts_of(s.buffered_storage_ranges) =~= Seq::<B256>::empty());
    assert(hashes_of(s.buffered_bytecodes) =~= Seq::<B256>::empty());
    assert forall|hash: B256| #[trigger] storage_count(s, Seq::empty(), hash) <= 1 by {
        lemma_count_empty(hash);
    }
    assert forall|hash: B256| #[trigger] code_count(s, Seq::empty(), hash) <= 1 by {
        lemma_count_empty(hash);
    }
}

/// Every step keeps this: the storage of no account and no code has a second place, counting
/// what was handed on.
pub proof fn law_steps_hand_on_once(
    s: DownloaderState,
    event: PollEventView,
    next: DownloaderState,
    turn: PollTurnView,
    accounts: Seq<B256>,
    codes: Seq<B256>,
)
    requires
        consistent(s),
        once(s, accounts, codes),
        s.admits(event),
        s.steps_to(event, next, turn),
    ensures
        once(next, accounts + storage_handed_on(turn), codes + code_handed_on(turn)),
{
    assert forall|account: B256| #[trigger]
        storage_count(next, accounts + storage_handed_on(turn), account) <= 1 by {
        assert(storage_count(s, accounts, account) <= 1);
        lemma_storage_step(s, event, next, turn, accounts, account);
    }
    assert forall|code: B256| #[trigger]
        code_count(next, codes + code_handed_on(turn), code) <= 1 by {
        assert(code_count(s, codes, code) <= 1);
        lemma_code_step(s, event, next, turn, codes, code);
    }
    lemma_phases_of_batches(s, event, next, turn);
}

/// Storage is handed on in the storage phase only, and code in the bytecode phase only.
proof fn lemma_phases_of_batches(
    s: DownloaderState,
    event: PollEventView,
    next: DownloaderState,
    turn: PollTurnView,
)
    requires
        s.admits(event),
        s.steps_to(event, next, turn),
    ensures
        storage_handed_on(turn).len() > 0 ==> next.phase == SnapPhase::StorageSync,
        code_handed_on(turn).len() > 0 ==> next.phase == SnapPhase::BytecodeSync,
        s.phase.rank() <= next.phase.rank(),
{
    lemma_submitting_changes_requests_only(s);
    law_phases_never_go_back(s, event, next, turn);
}

/// A step gives the storage of an account no second place.
proof fn lemma_storage_step(
    s: DownloaderState,
    event: PollEventView,
    next: DownloaderState,
    turn: PollTurnView,
    handed: Seq<B256>,
    account: B256,
)
    requires
        consistent(s),
        storage_count(s, handed, account) <= 1,
        s.phase == SnapPhase::AccountSync ==> handed.len() == 0,
        s.admits(event),
        s.steps_to(event, next, turn),
    ensures
        storage_count(next, handed + storage_handed_on(turn), account) <= 1,
{
    lemma_count_empty(account);
    match event {
        PollEventView::Polled => {
            assert(handed + storage_handed_on(turn) =~= handed);
        },
        PollEventView::Answered { request_id, outcome } => {
            assert(handed + storage_handed_on(turn) =~= handed);
            s.ids_in_flight().index_of_first_ensures(request_id);
            let at = s.ids_in_flight().index_of_first(request_id)->0;
            let taken = s.taken_from_flight(request_id);
            if s.phase == SnapPhase::StorageSync {
                let batch = s.in_flight_storage_requests[at].account_hashes;
                assert(account_batches(taken) =~= account_batches(s).remove(at));
                lemma_count_without_a_batch(account_batches(s), at, account);
                if let Ok(SnapResponseView::StorageRanges(message)) = outcome {
                    let answer = StorageAnswerView {
                        batch,
                        slots: message.slots,
                        proof: message.proof,
                    };
                    lemma_taken_once(taken, answer, account);
                }
            }
        },
        PollEventView::ProofChecked(outcome) => {
            assert(handed + storage_handed_on(turn) =~= handed);
            if let PendingProofView::Storage(range) = s.pending_proof {
                lemma_count_pushed(s.unchecked_storage.batch, range.account_hash, account);
                if let ProofOutcome::Checked { valid: true, has_more } = outcome {
                    let checked = StorageRange { is_complete: !has_more, ..range };
                    let accepted = DownloaderState {
                        pending_proof: PendingProofView::Nothing,
                        unchecked_storage: StorageAnswerView::nothing(),
                        ..s
                    }.storage_buffered(checked);
                    assert(accounts_of(accepted.buffered_storage_ranges) =~= accounts_of(
                        s.buffered_storage_ranges,
                    ).push(range.account_hash));
                    lemma_count_pushed(
                        accounts_of(s.buffered_storage_ranges),
                        range.account_hash,
                        account,
                    );
                    lemma_taken_once(accepted, s.unchecked_storage, account);
                }
            }
        },
        PollEventView::Drained => {
            let sent = s.submitted().0;
            lemma_submitting_changes_requests_only(s);
            lemma_submitted_storage(s, account);
            assert(accounts_under_check(sent) == accounts_under_check(s));
            if sent.phase_done() {
                assert(handed + storage_handed_on(turn) =~= handed);
                if next.phase == SnapPhase::StorageSync {
                    assert(lists(next.accounts_pending_storage, s.account_storage_roots.dom()));
                    lemma_count_without_repetitions(next.accounts_pending_storage, account);
                    assert(accounts_of(next.buffered_storage_ranges) =~= Seq::<B256>::empty());
                    assert(next.in_flight_storage_requests.len() == 0) by {
                        lemma_other_phases_make_no_requests(s);
                    }
                    assert(account_batches(next) =~= Seq::<Seq<B256>>::empty());
                    assert(handed =~= Seq::<B256>::empty());
                }
            } else if s.phase == SnapPhase::StorageSync {
                let all = s.buffered_storage_ranges;
                let n = min(STORAGE_RANGES_PER_BATCH as nat, all.len()) as int;
                lemma_count_parted(accounts_of(all), n, account);
                assert(accounts_of(all).skip(n) =~= accounts_of(all.skip(n)));
                assert(accounts_of(all).take(n) =~= accounts_of(all.take(n)));
                if n > 0 {
                    assert(storage_handed_on(turn) =~= accounts_of(all.take(n)));
                    lemma_count_joined(handed, storage_handed_on(turn), account);
                } else {
                    assert(handed + storage_handed_on(turn) =~= handed);
                }
            } else {
                assert(handed + storage_handed_on(turn) =~= handed);
            }
        },
    }
}

/// Taking ranges in gives the accounts of an answer no further place.
proof fn lemma_taken_once(s: DownloaderState, answer: StorageAnswerView, account: B256)
    requires
        !(s.pending_proof is Storage),
    ensures
        ({
            let state = s.storage_ranges_taken(answer).0;
            &&& state == DownloaderState {
                buffered_storage_ranges: state.buffered_storage_ranges,
                pending_proof: state.pending_proof,
                unchecked_storage: state.unchecked_storage,
                ..s
            }
            &&& count(accounts_under_check(state), account) + count(
                accounts_of(state.buffered_storage_ranges),
                account,
            ) <= count(accounts_of(s.buffered_storage_ranges), account) + count(
                answer.batch,
                account,
            )
        }),
    decreases answer.slots.len(),
{
    lemma_count_empty(account);
    if answer.batch.len() > 0 && answer.slots.len() > 0 {
        let first = answer.batch[0];
        let slots = answer.slots[0];
        let range = storage_range(first, s.account_storage_roots[first], slots);
        lemma_count_first(answer.batch, account);
        if !s.account_storage_roots.contains_key(first) {
            lemma_taken_once(s, answer.rest(), account);
        } else if slots.len() == 0 {
            let pushed = s.storage_buffered(range);
            assert(accounts_of(pushed.buffered_storage_ranges) =~= accounts_of(
                s.buffered_storage_ranges,
            ).push(first));
            lemma_count_pushed(accounts_of(s.buffered_storage_ranges), first, account);
            lemma_taken_once(pushed, answer.rest(), account);
        } else {
            lemma_count_pushed(answer.rest().batch, first, account);
        }
    }
}

/// Making requests moves accounts from what is pending to what is in flight.
proof fn lemma_submitted_storage(s: DownloaderState, account: B256)
    ensures
        ({
            let sent = s.submitted().0;
            count(sent.accounts_pending_storage, account) + count_in_batches(
                account_batches(sent),
                account,
            ) == count(s.accounts_pending_storage, account) + count_in_batches(
                account_batches(s),
                account,
            )
        }),
    decreases s.room(),
{
    if s.can_submit() && s.has_work() {
        let one = s.requested();
        if s.phase == SnapPhase::StorageSync {
            let n = s.storage_batch_size() as int;
            lemma_count_parted(s.accounts_pending_storage, n, account);
            assert(account_batches(one) =~= account_batches(s).push(
                s.accounts_pending_storage.take(n),
            ));
            assert(account_batches(one).drop_last() =~= account_batches(s));
        }
        lemma_submitted_storage(one, account);
    }
}

/// Outside its phase neither storage nor code is asked for.
proof fn lemma_other_phases_make_no_requests(s: DownloaderState)
    ensures
        s.phase != SnapPhase::StorageSync ==> s.submitted().0.in_flight_storage_requests
            == s.in_flight_storage_requests,
        s.phase != SnapPhase::BytecodeSync ==> s.submitted().0.in_flight_bytecode_requests
            == s.in_flight_bytecode_requests,
    decreases s.room(),
{
    if s.can_submit() && s.has_work() {
        lemma_other_phases_make_no_requests(s.requested());
    }
}

/// A step gives no code a second place.
proof fn lemma_code_step(
    s: DownloaderState,
    event: PollEventView,
    next: DownloaderState,
    turn: PollTurnView,
    handed: Seq<B256>,
    code: B256,
)
    requires
        consistent(s),
        code_count(s, handed, code) <= 1,
        s.phase.rank() < SnapPhase::BytecodeSync.rank() ==> handed.len() == 0,
        s.admits(event),
        s.steps_to(event, next, turn),
    ensures
        code_count(next, handed + code_handed_on(turn), code) <= 1,
{
    lemma_count_empty(code);
    match event {
        PollEventView::Polled => {
            assert(handed + code_handed_on(turn) =~= handed);
        },
        PollEventView::Answered { request_id, outcome } => {
            assert(handed + code_handed_on(turn) =~= handed);
            s.ids_in_flight().index_of_first_ensures(request_id);
            let at = s.ids_in_flight().index_of_first(request_id)->0;
            let taken = s.taken_from_flight(request_id);
            if s.phase == SnapPhase::StorageSync {
                if let Ok(SnapResponseView::StorageRanges(message)) = outcome {
                    let answer = StorageAnswerView {
                        batch: s.in_flight_storage_requests[at].account_hashes,
                        slots: message.slots,
                        proof: message.proof,
                    };
                    lemma_taken_once(taken, answer, code);
                }
            } else if s.phase == SnapPhase::BytecodeSync {
                let batch = s.in_flight_bytecode_requests[at].hashes;
                assert(code_batches(taken) =~= code_batches(s).remove(at));
                lemma_count_without_a_batch(code_batches(s), at, code);
                if let Ok(SnapResponseView::ByteCodes(message)) = outcome {
                    let answered = min(batch.len(), message.codes.len());
                    let n = codes_matching(batch, message.codes, answered);
                    lemma_matching_is_bounded(batch, message.codes, answered);
                    let entries = code_entries(batch, message.codes, n);
                    lemma_count_parted(batch, n as int, code);
                    assert(hashes_of(entries) =~= batch.take(n as int));
                    assert(hashes_of(s.buffered_bytecodes + entries) =~= hashes_of(
                        s.buffered_bytecodes,
                    ) + hashes_of(entries));
                    lemma_count_joined(hashes_of(s.buffered_bytecodes), hashes_of(entries), code);
                }
            }
        },
        PollEventView::ProofChecked(outcome) => {
            assert(handed + code_handed_on(turn) =~= handed);
            if let PendingProofView::Storage(range) = s.pending_proof {
                if let ProofOutcome::Checked { valid: true, has_more } = outcome {
                    let checked = StorageRange { is_complete: !has_more, ..range };
                    let accepted = DownloaderState {
                        pending_proof: PendingProofView::Nothing,
                        unchecked_storage: StorageAnswerView::nothing(),
                        ..s
                    }.storage_buffered(checked);
                    lemma_taken_once(accepted, s.unchecked_storage, code);
                }
            }
        },
        PollEventView::Drained => {
            let sent = s.submitted().0;
            lemma_submitting_changes_requests_only(s);
            lemma_submitted_code(s, code);
            if sent.phase_done() {
                assert(handed + code_handed_on(turn) =~= handed);
                if next.phase == SnapPhase::BytecodeSync && s.phase != SnapPhase::BytecodeSync {
                    assert(lists(next.code_hashes_pending, s.code_hashes_needed));
                    lemma_count_without_repetitions(next.code_hashes_pending, code);
                    assert(hashes_of(next.buffered_bytecodes) =~= Seq::<B256>::empty());
                    assert(next.in_flight_bytecode_requests.len() == 0) by {
                        lemma_other_phases_make_no_requests(s);
                    }
                    assert(code_batches(next) =~= Seq::<Seq<B256>>::empty());
                    assert(handed =~= Seq::<B256>::empty());
                }
            } else if s.phase == SnapPhase::BytecodeSync {
                let all = s.buffered_bytecodes;
                let n = min(BYTECODES_PER_BATCH as nat, all.len()) as int;
                lemma_count_parted(hashes_of(all), n, code);
                assert(hashes_of(all).skip(n) =~= hashes_of(all.skip(n)));
                assert(hashes_of(all).take(n) =~= hashes_of(all.take(n)));
                if n > 0 {
                    assert(code_handed_on(turn) =~= hashes_of(all.take(n)));
                    lemma_count_joined(handed, code_handed_on(turn), code);
                } else {
                    assert(handed + code_handed_on(turn) =~= handed);
                }
            } else {
                assert(handed + code_handed_on(turn) =~= handed);
            }
        },
    }
}

/// No more codes match than there are.
proof fn lemma_matching_is_bounded(batch: Seq<B256>, codes: Seq<Seq<u8>>, n: nat)
    ensures
        codes_matching(batch, codes, n) <= n,
    decreases n,
{
    if n > 0 {
        lemma_matching_is_bounded(batch, codes, (n - 1) as nat);
    }
}

/// Making requests moves hashes from what is pending to what is in flight.
proof fn lemma_submitted_code(s: DownloaderState, code: B256)
    ensures
        ({
            let sent = s.submitted().0;
            count(sent.code_hashes_pending, code) + count_in_batches(code_batches(sent), code)
                == count(s.code_hashes_pending, code) + count_in_batches(code_batches(s), code)
        }),
    decreases s.room(),
{
    if s.can_submit() && s.has_work() {
        let one = s.requested();
        if s.phase == SnapPhase::BytecodeSync {
            let n = s.bytecode_batch_size() as int;
            lemma_count_parted(s.code_hashes_pending, n, code);
            assert(code_batches(one) =~= code_batches(s).push(s.code_hashes_pending.take(n)));
            assert(code_batches(one).drop_last() =~= code_batches(s));
        }
        lemma_submitted_code(one, code);
    }
}

/// A batch reports each of its accounts as complete or as partial, and none as both.
pub proof fn law_batches_report_each_account_once(
    s: DownloaderState,
    event: PollEventView,
    next: DownloaderState,
    submit: Seq<SnapRequestView>,
    storage: Seq<(B256, B256, Seq<(B256, U256)>)>,
    accounts_complete: Set<B256>,
    accounts_partial: Map<B256, B256>,
    accounts: Seq<B256>,
    codes: Seq<B256>,
    i: int,
)
    requires
        consistent(s),
        once(s, accounts, codes),
        s.admits(event),
        s.steps_to(
            event,
            next,
            PollTurnView::Yield {
                submit,
                item: Ok(SnapBatchView::Storage { storage, accounts_complete, accounts_partial }),
            },
        ),
        0 <= i < storage.len(),
    ensures
        accounts_complete.contains(storage[i].0) != accounts_partial.contains_key(storage[i].0),
{
    lemma_submitting_changes_requests_only(s);
    let all = s.buffered_storage_ranges;
    let n = min(STORAGE_RANGES_PER_BATCH as nat, all.len()) as int;
    let ranges = all.take(n);
    let account = storage[i].0;
    assert(storage == storage_entries(ranges));
    assert(ranges[i].account_hash == account);
    assert(accounts_complete == complete_accounts(ranges));
    assert(accounts_partial == partial_accounts(ranges));
    assert forall|hash: B256| #[trigger] count(accounts_of(all), hash) <= 1 by {
        assert(storage_count(s, accounts, hash) <= 1);
    }
    lemma_counted_once(accounts_of(all));
    assert forall|j: int| 0 <= j < ranges.len() && #[trigger] ranges[j].account_hash
        == account implies j == i by {
        assert(accounts_of(all)[j] == accounts_of(all)[i]);
    }
    law_complete_accounts(ranges, account);
    law_partial_accounts(ranges, account);
    assert(all[i] == ranges[i]);
    assert(ranges[i].is_complete || reported_partial(ranges[i], account));
}

// ===== Runs =====

/// A run: the states that a downloader goes through, and between them what it learns and what it
/// then wants done.
#[verifier::ext_equal]
pub struct Run {
    pub states: Seq<DownloaderState>,
    pub events: Seq<PollEventView>,
    pub turns: Seq<PollTurnView>,
}

/// The storage that is handed on over several turns, by account.
pub open spec fn all_storage_handed_on(turns: Seq<PollTurnView>) -> Seq<B256>
    decreases turns.len(),
{
    if turns.len() == 0 {
        Seq::empty()
    } else {
        all_storage_handed_on(turns.drop_last()) + storage_handed_on(turns.last())
    }
}

/// The code that is handed on over several turns, by hash.
pub open spec fn all_code_handed_on(turns: Seq<PollTurnView>) -> Seq<B256>
    decreases turns.len(),
{
    if turns.len() == 0 {
        Seq::empty()
    } else {
        all_code_handed_on(turns.drop_last()) + code_handed_on(turns.last())
    }
}

impl Run {
    /// The run starts from a new downloader, and every event can happen when it does.
    pub open spec fn is_run(self) -> bool {
        let first = self.states[0];
        &&& self.states.len() == self.events.len() + 1
        &&& self.turns.len() == self.events.len()
        &&& first == DownloaderState::initial(
            first.max_concurrent_requests,
            first.state_root,
            first.next_account_hash,
            first.target_account_hash,
        )
        &&& forall|i: int|
            0 <= i < self.events.len() ==> self.states[i].admits(#[trigger] self.events[i])
                && self.states[i].steps_to(self.events[i], self.states[i + 1], self.turns[i])
    }
}

/// A downloader is consistent all through a run, and asks for nothing twice at a time.
pub proof fn law_runs_are_consistent(run: Run, i: int)
    requires
        run.is_run(),
        0 <= i < run.states.len(),
    ensures
        consistent(run.states[i]),
        asks_once(run.states[i]),
    decreases i,
{
    let first = run.states[0];
    if i == 0 {
        law_new_downloader_is_consistent(
            first.max_concurrent_requests,
            first.state_root,
            first.next_account_hash,
            first.target_account_hash,
        );
        law_new_downloader_asks_once(
            first.max_concurrent_requests,
            first.state_root,
            first.next_account_hash,
            first.target_account_hash,
        );
    } else {
        law_runs_are_consistent(run, i - 1);
        let (s, event) = (run.states[i - 1], run.events[i - 1]);
        law_steps_keep_consistency(s, event, run.states[i], run.turns[i - 1]);
        law_steps_keep_asking_once(s, event, run.states[i], run.turns[i - 1]);
    }
}

/// All through a run, the storage of no account and no code has a second place, counting what
/// was handed on before.
pub proof fn law_runs_keep_one_place(run: Run, i: int)
    requires
        run.is_run(),
        0 <= i < run.states.len(),
    ensures
        once(
            run.states[i],
            all_storage_handed_on(run.turns.take(i)),
            all_code_handed_on(run.turns.take(i)),
        ),
    decreases i,
{
    let first = run.states[0];
    if i == 0 {
        law_new_downloader_has_handed_on_nothing(
            first.max_concurrent_requests,
            first.state_root,
            first.next_account_hash,
            first.target_account_hash,
        );
    } else {
        law_runs_keep_one_place(run, i - 1);
        law_runs_are_consistent(run, i - 1);
        let (s, event) = (run.states[i - 1], run.events[i - 1]);
        assert(run.turns.take(i).drop_last() =~= run.turns.take(i - 1));
        law_steps_hand_on_once(
            s,
            event,
            run.states[i],
            run.turns[i - 1],
            all_storage_handed_on(run.turns.take(i - 1)),
            all_code_handed_on(run.turns.take(i - 1)),
        );
    }
}

/// Over a run the storage of no account is handed on twice, and no code is.
pub proof fn law_runs_hand_on_once(run: Run)
    requires
        run.is_run(),
    ensures
        all_storage_handed_on(run.turns).no_duplicates(),
        all_code_handed_on(run.turns).no_duplicates(),
{
    let n = run.events.len() as int;
    law_runs_keep_one_place(run, n);
    assert(run.turns.take(n) =~= run.turns);
    let s = run.states[n];
    let accounts = all_storage_handed_on(run.turns);
    let codes = all_code_handed_on(run.turns);
    assert forall|hash: B256| #[trigger] count(accounts, hash) <= 1 by {
        assert(storage_count(s, accounts, hash) <= 1);
    }
    assert forall|hash: B256| #[trigger] count(codes, hash) <= 1 by {
        assert(code_count(s, codes, hash) <= 1);
    }
    lemma_counted_once(accounts);
    lemma_counted_once(codes);
}

} // verus!
