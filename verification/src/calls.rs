//! What calls of the library give, stated over the values that they take and the values that they
//! return.

use crate::account::{
    decode_slim_account, decode_storage_value, slim_account_from_fields, slim_account_of, Account,
    SlimAccount,
};
use crate::batch::{
    law_batches_show_what_they_hold, AccountRange, SnapBatch, SnapBatchView, StorageRange,
};
use crate::collections::{B256Map, B256Set};
use crate::downloader::{
    AccountProofQuery, PollEvent, PollTurn, SnapDownloader, SnapDownloaderBuilder,
    StorageProofQuery,
};
use crate::effects::{
    answer_of, asks_for_the_rest, can_be_read, codes_added, has_all_slots,
    law_first_storage_is_put_to_the_check, law_matching_codes_are_accepted,
    law_mismatching_codes_are_refused, law_one_bytecode_request, law_one_storage_request,
    law_readable_accounts_are_put_to_the_check, law_unreadable_accounts_are_refused,
    law_unreadable_storage_is_refused, nothing_to_check, notes_accounts, refused,
    says_what_bodies_say, with_valid_range,
};
use crate::error::{DownloadError, DownloadResult, RequestError};
use crate::hashing::{empty_root, keccak256_of};
use crate::laws::{consistent, id_plus, lemma_taking_ranges_adds_only_checks};
use crate::model::{DownloaderState, PendingProofView, ProofOutcome};
use crate::phase::SnapPhase;
use crate::primitives::{law_order_is_that_of_numbers, B256, U256};
use crate::rlp::{big_endian, rlp_u256};
use crate::stage::{
    accounts_counted, batch_view, codes_counted, create_snap_sync_stage,
    law_execution_reports_the_counter, reports, slots_counted,
    DownloaderPoll, ExecInput, Execution, FatalReason, Readiness, SnapSyncStage, StageError,
    StageState, UnwindInput, UnwindOutput,
};
use crate::steps::{
    law_batches_come_from_the_buffer, law_bytecode_batch, law_phases_follow, law_storage_batch,
    nothing_buffered,
};
use crate::test_client::{prepared, PendingRequest, TestSnapClient, WithPeerId};
use crate::wire::{
    AccountRangeMessage, ByteCodesMessage, GetAccountRangeMessage, GetByteCodesMessage,
    GetStorageRangesMessage, SnapResponse, StorageRangesMessage,
};
use vstd::prelude::*;

verus! {

// ===== Hashes and accounts =====

/// A hash precedes another exactly where it is the smaller number.
pub proof fn law_preceding_hashes_are_smaller(a: B256, b: B256, r: bool)
    requires
        call_ensures(B256::precedes, (&a, &b), r),
    ensures
        r <==> big_endian(a@) < big_endian(b@),
{
    law_order_is_that_of_numbers(a, b);
}

/// A slim account is decoded to what its body says, and a body that says none is a bad answer.
pub proof fn law_slim_accounts_are_decoded(body: &[u8], r: DownloadResult<SlimAccount>)
    requires
        call_ensures(decode_slim_account, (body,), r),
    ensures
        match slim_account_of(body@) {
            Some(slim) => r == Ok::<_, DownloadError>(slim),
            None => r == refused::<SlimAccount>(),
        },
{
}

/// The fields of a slim account are put together as they are.
pub proof fn law_fields_are_put_together(
    nonce: u64,
    balance: U256,
    root: &[u8],
    code: &[u8],
    r: DownloadResult<SlimAccount>,
)
    requires
        call_ensures(slim_account_from_fields, (nonce, balance, root, code), r),
    ensures
        (root@.len() == 0 || root@.len() == 32) && (code@.len() == 0 || code@.len() == 32) ==> (
        r matches Ok(slim) && {
            &&& slim.nonce == nonce
            &&& slim.balance == balance
            &&& root@.len() == 0 ==> slim.storage_root == empty_root()
            &&& root@.len() == 32 ==> slim.storage_root == B256::of_bytes(root@)
            &&& code@.len() == 0 ==> slim.bytecode_hash is None
            &&& code@.len() == 32 ==> slim.bytecode_hash == Some(B256::of_bytes(code@))
        }),
        !((root@.len() == 0 || root@.len() == 32) && (code@.len() == 0 || code@.len() == 32)) ==> r
            == refused::<SlimAccount>(),
{
}

/// A storage value is decoded to the integer at the front of its data, and data without one is a
/// bad answer.
pub proof fn law_storage_values_are_decoded(data: &[u8], r: DownloadResult<U256>)
    requires
        call_ensures(decode_storage_value, (data,), r),
    ensures
        match rlp_u256(data@) {
            Some((value, _)) => r == Ok::<_, DownloadError>(U256::of_bytes(value)),
            None => r == refused::<U256>(),
        },
{
}

// ===== Setting up =====

/// A downloader is built with what its builder was told last, and otherwise with ten concurrent
/// requests over all account hashes.
pub proof fn law_downloaders_are_built_as_told<Client>(
    client: Client,
    root: B256,
    plain: SnapDownloaderBuilder<Client>,
    max: usize,
    limited: SnapDownloaderBuilder<Client>,
    start: B256,
    started: SnapDownloaderBuilder<Client>,
    target: B256,
    targeted: SnapDownloaderBuilder<Client>,
    standard: SnapDownloader<Client>,
    told: SnapDownloader<Client>,
)
    requires
        call_ensures(SnapDownloader::<Client>::builder, (client, root), plain),
        call_ensures(SnapDownloaderBuilder::<Client>::build, (plain,), standard),
        call_ensures(
            SnapDownloaderBuilder::<Client>::with_max_concurrent_requests,
            (plain, max),
            limited,
        ),
        call_ensures(SnapDownloaderBuilder::<Client>::with_start_hash, (limited, start), started),
        call_ensures(
            SnapDownloaderBuilder::<Client>::with_target_hash,
            (started, target),
            targeted,
        ),
        call_ensures(SnapDownloaderBuilder::<Client>::build, (targeted,), told),
    ensures
        standard@.max_concurrent_requests == 10,
        standard@.next_account_hash == B256::repeated(0),
        standard@.target_account_hash == B256::repeated(0xff),
        standard@.state_root == root,
        standard.client_view() == client,
        told@.max_concurrent_requests == max,
        told@.next_account_hash == start,
        told@.target_account_hash == target,
        told@.state_root == root,
        told.client_view() == client,
        told@.phase == SnapPhase::AccountSync,
        told@.request_id == 0,
        !told@.terminated,
{
}

/// A created stage has a new downloader: ten concurrent requests over all account hashes.
pub proof fn law_created_stages_have_a_new_downloader<Client>(
    client: Client,
    root: B256,
    stage: SnapSyncStage<SnapDownloader<Client>>,
)
    requires
        call_ensures(create_snap_sync_stage::<Client>, (client, root), stage),
    ensures
        stage@.buffer is None,
        stage@.accounts == 0,
        stage@.slots == 0,
        stage@.bytecodes == 0,
        stage@.downloader matches Some(downloader) && {
            &&& downloader@.max_concurrent_requests == 10
            &&& downloader@.state_root == root
            &&& downloader@.next_account_hash == B256::repeated(0)
            &&& downloader@.target_account_hash == B256::repeated(0xff)
            &&& downloader@.phase == SnapPhase::AccountSync
            &&& downloader@.in_flight_account_requests.len() == 0
            &&& downloader.client_view() == client
        },
{
}

// ===== Requests =====

/// An account request asks for the rest of the range with the next number, and is then the last
/// in flight; nothing else has changed.
pub proof fn law_submitted_account_request<Client>(
    d: &mut SnapDownloader<Client>,
    request: GetAccountRangeMessage,
)
    requires
        call_ensures(SnapDownloader::<Client>::submit_account_range_request, (d,), request),
    ensures
        asks_for_the_rest(old(d)@, request),
        request.request_id == old(d)@.request_id,
        final(d)@ == (DownloaderState {
            request_id: id_plus(old(d)@.request_id, 1),
            in_flight_account_requests: old(d)@.in_flight_account_requests.push(request),
            ..old(d)@
        }),
{
}

/// A storage request is made where accounts are pending: for the first of them, as many as fit.
pub proof fn law_submitted_storage_request<Client>(
    d: &mut SnapDownloader<Client>,
    request: Option<GetStorageRangesMessage>,
)
    requires
        call_ensures(SnapDownloader::<Client>::submit_storage_ranges_request, (d,), request),
    ensures
        old(d)@.accounts_pending_storage.len() == 0 ==> request is None && final(d)@ == old(d)@,
        old(d)@.accounts_pending_storage.len() > 0 ==> (request matches Some(request) && {
            let pending = old(d)@.accounts_pending_storage;
            let n: int = if pending.len() < 128 {
                pending.len() as int
            } else {
                128
            };
            &&& request.account_hashes@ == pending.subrange(0, n)
            &&& request.request_id == old(d)@.request_id
            &&& request.root_hash == old(d)@.state_root
            &&& request.starting_hash == B256::repeated(0)
            &&& request.limit_hash == B256::repeated(0xff)
            &&& request.response_bytes == 512 * 1024
            &&& final(d)@.accounts_pending_storage == pending.subrange(n, pending.len() as int)
            &&& final(d)@.in_flight_storage_requests
                == old(d)@.in_flight_storage_requests.push(request@)
        }),
{
    let pending = old(d)@.accounts_pending_storage;
    if pending.len() > 0 {
        law_one_storage_request(old(d)@);
        let n: int = if pending.len() < 128 {
            pending.len() as int
        } else {
            128
        };
        assert(request->0.account_hashes@ =~= pending.subrange(0, n));
    }
}

/// A bytecode request is made where hashes are pending: for the first of them, as many as fit.
pub proof fn law_submitted_bytecode_request<Client>(
    d: &mut SnapDownloader<Client>,
    request: Option<GetByteCodesMessage>,
)
    requires
        call_ensures(SnapDownloader::<Client>::submit_bytecode_request, (d,), request),
    ensures
        old(d)@.code_hashes_pending.len() == 0 ==> request is None && final(d)@ == old(d)@,
        old(d)@.code_hashes_pending.len() > 0 ==> (request matches Some(request) && {
            let pending = old(d)@.code_hashes_pending;
            let n: int = if pending.len() < 50_000 {
                pending.len() as int
            } else {
                50_000
            };
            &&& request.hashes@ == pending.subrange(0, n)
            &&& request.request_id == old(d)@.request_id
            &&& request.response_bytes == 10 * 512 * 1024
            &&& final(d)@.code_hashes_pending == pending.subrange(n, pending.len() as int)
            &&& final(d)@.in_flight_bytecode_requests
                == old(d)@.in_flight_bytecode_requests.push(request@)
        }),
{
    let pending = old(d)@.code_hashes_pending;
    if pending.len() > 0 {
        law_one_bytecode_request(old(d)@);
        let n: int = if pending.len() < 50_000 {
            pending.len() as int
        } else {
            50_000
        };
        assert(request->0.hashes@ =~= pending.subrange(0, n));
    }
}

// ===== Answers =====

/// An answer of readable accounts is put to the check as its bodies say; with an account that
/// cannot be read it is refused, and an empty one reaches the target.
pub proof fn law_account_answers<Client>(
    d: &mut SnapDownloader<Client>,
    message: AccountRangeMessage,
    r: DownloadResult<Option<AccountProofQuery>>,
)
    requires
        call_ensures(
            SnapDownloader::<Client>::process_account_range_response,
            (d, SnapResponse::AccountRange(message)),
            r,
        ),
    ensures
        ({
            let accounts = message@.accounts;
            let all_readable = forall|i: int|
                0 <= i < accounts.len() ==> slim_account_of((#[trigger] accounts[i]).1) is Some;
            if accounts.len() == 0 {
                &&& r matches Ok(None)
                &&& final(d)@.next_account_hash == old(d)@.target_account_hash
            } else if all_readable {
                &&& r matches Ok(Some(query)) && {
                    &&& query.root == old(d)@.state_root
                    &&& query.starting_hash == old(d)@.next_account_hash
                    &&& query.account_hashes@.len() == accounts.len()
                    &&& query.accounts@.len() == accounts.len()
                    &&& forall|i: int|
                        0 <= i < accounts.len() ==> #[trigger] query.account_hashes@[i]
                            == accounts[i].0
                    &&& forall|i: int|
                        0 <= i < accounts.len() ==> {
                            let slim = slim_account_of(accounts[i].1)->0;
                            &&& (#[trigger] query.accounts@[i]).nonce == slim.nonce
                            &&& query.accounts@[i].balance == slim.balance
                            &&& query.accounts@[i].bytecode_hash == slim.bytecode_hash
                        }
                }
                &&& final(d)@.pending_proof matches PendingProofView::Accounts(entries)
                    && says_what_bodies_say(entries, accounts)
                &&& notes_accounts(old(d)@, final(d)@, accounts, accounts.len() as int)
            } else {
                &&& r matches Err(error) && error == DownloadError::RequestError(
                    RequestError::BadResponse,
                )
                &&& final(d)@.pending_proof == old(d)@.pending_proof
                &&& final(d)@.buffered_account_ranges == old(d)@.buffered_account_ranges
            }
        }),
{
    let accounts = message@.accounts;
    if accounts.len() > 0 {
        if forall|i: int|
            0 <= i < accounts.len() ==> slim_account_of((#[trigger] accounts[i]).1) is Some {
            law_readable_accounts_are_put_to_the_check(old(d)@, message@);
            let entries = final(d)@.pending_proof->Accounts_0;
            let query = r->Ok_0->Some_0;
            assert forall|i: int| 0 <= i < accounts.len() implies {
                let slim = slim_account_of(accounts[i].1)->0;
                &&& (#[trigger] query.accounts@[i]).nonce == slim.nonce
                &&& query.accounts@[i].balance == slim.balance
                &&& query.accounts@[i].bytecode_hash == slim.bytecode_hash
            } by {
                assert(query.accounts@[i] == entries[i].1);
            }
        } else {
            let k = lemma_first_unreadable(accounts);
            law_unreadable_accounts_are_refused(old(d)@, message@, k);
        }
    }
}

/// Where an account cannot be read, there is a first such.
proof fn lemma_first_unreadable(accounts: Seq<(B256, Seq<u8>)>) -> (k: int)
    requires
        exists|i: int|
            0 <= i < accounts.len() && slim_account_of((#[trigger] accounts[i]).1) is None,
    ensures
        0 <= k < accounts.len(),
        slim_account_of(accounts[k].1) is None,
        forall|i: int| 0 <= i < k ==> slim_account_of((#[trigger] accounts[i]).1) is Some,
    decreases accounts.len(),
{
    let front = accounts.drop_last();
    if exists|i: int| 0 <= i < front.len() && slim_account_of((#[trigger] front[i]).1) is None {
        let k = lemma_first_unreadable(front);
        assert(front[k] == accounts[k]);
        assert forall|i: int| 0 <= i < k implies slim_account_of(
            (#[trigger] accounts[i]).1,
        ) is Some by {
            assert(front[i] == accounts[i]);
        }
        k
    } else {
        let k = accounts.len() - 1;
        assert forall|i: int| 0 <= i < k implies slim_account_of(
            (#[trigger] accounts[i]).1,
        ) is Some by {
            assert(front[i] == accounts[i]);
        }
        let i = choose|i: int|
            0 <= i < accounts.len() && slim_account_of((#[trigger] accounts[i]).1) is None;
        if i < k {
            assert(front[i] == accounts[i]);
        }
        k
    }
}

/// An account range that was found valid is buffered as it was checked, and the next account is
/// its last; any other outcome refuses it.
pub proof fn law_checked_accounts<Client>(
    d: &mut SnapDownloader<Client>,
    outcome: ProofOutcome,
    r: DownloadResult<()>,
    accounts: Seq<(B256, Account, B256)>,
)
    requires
        call_ensures(SnapDownloader::<Client>::accept_account_range, (d, outcome), r),
        old(d)@.pending_proof == PendingProofView::Accounts(accounts),
        accounts.len() > 0,
    ensures
        final(d)@.pending_proof is Nothing,
        match outcome {
            ProofOutcome::Checked { valid: true, has_more } => {
                &&& r matches Ok(())
                &&& final(d)@.buffered_account_ranges == old(d)@.buffered_account_ranges.push(
                    AccountRange { accounts, has_more },
                )
                &&& final(d)@.next_account_hash == accounts[accounts.len() - 1].0
            },
            _ => {
                &&& r == refused::<()>()
                &&& final(d)@.buffered_account_ranges == old(d)@.buffered_account_ranges
                &&& final(d)@.next_account_hash == old(d)@.next_account_hash
            },
        },
{
}

/// The first account of a storage answer that has a known root and slots is put to the check with
/// all its slots.
pub proof fn law_storage_answers<Client>(
    d: &mut SnapDownloader<Client>,
    batch: Vec<B256>,
    message: StorageRangesMessage,
    r: DownloadResult<Option<StorageProofQuery>>,
    k: int,
)
    requires
        call_ensures(
            SnapDownloader::<Client>::process_storage_ranges_response,
            (d, batch, SnapResponse::StorageRanges(message)),
            r,
        ),
        nothing_to_check(old(d)@.account_storage_roots, answer_of(batch@, message@), k),
        k < batch@.len(),
        k < message@.slots.len(),
        old(d)@.account_storage_roots.contains_key(batch@[k]),
        message@.slots[k].len() > 0,
    ensures
        can_be_read(message@.slots[k]) ==> (
        final(d)@.pending_proof matches PendingProofView::Storage(range) && {
            let list = message@.slots[k];
            &&& range.account_hash == batch@[k]
            &&& range.storage_root == old(d)@.account_storage_roots[batch@[k]]
            &&& has_all_slots(range, list)
            &&& r matches Ok(Some(query)) && {
                &&& query.root == range.storage_root
                &&& query.starting_hash == B256::repeated(0)
                &&& query.slot_hashes@.len() == list.len()
                &&& query.values@.len() == list.len()
                &&& forall|j: int|
                    0 <= j < list.len() ==> #[trigger] query.slot_hashes@[j] == list[j].0
                &&& forall|j: int|
                    0 <= j < list.len() ==> #[trigger] query.values@[j] == range.slots[j].1
            }
        }),
        !can_be_read(message@.slots[k]) ==> (r matches Err(error) && error
            == DownloadError::RequestError(RequestError::BadResponse)),
{
    if can_be_read(message@.slots[k]) {
        law_first_storage_is_put_to_the_check(old(d)@, batch@, message@, k);
        let query = r->Ok_0->Some_0;
        let range = final(d)@.pending_proof->Storage_0;
        let list = message@.slots[k];
        assert forall|j: int| 0 <= j < list.len() implies #[trigger] query.slot_hashes@[j]
            == list[j].0 by {
            assert(query@.slot_hashes[j] == list[j].0);
        }
        assert forall|j: int| 0 <= j < list.len() implies #[trigger] query.values@[j]
            == range.slots[j].1 by {
            assert(query@.values[j] == range.slots[j].1);
        }
    } else {
        law_unreadable_storage_is_refused(old(d)@, batch@, message@, k);
    }
}

/// A storage range that was found valid as the last of its answer is buffered with all its slots,
/// and is complete where nothing comes after it; one that was not is refused.
pub proof fn law_checked_storage<Client>(
    d: &mut SnapDownloader<Client>,
    outcome: ProofOutcome,
    r: DownloadResult<Option<StorageProofQuery>>,
    range: StorageRange,
)
    requires
        call_ensures(SnapDownloader::<Client>::accept_storage_range, (d, outcome), r),
        old(d)@.pending_proof == PendingProofView::Storage(range),
    ensures
        match outcome {
            ProofOutcome::Checked { valid: true, has_more } => {
                let before = old(d)@.buffered_storage_ranges;
                let after = final(d)@.buffered_storage_ranges;
                &&& after.len() > before.len()
                &&& forall|i: int| 0 <= i < before.len() ==> #[trigger] after[i] == before[i]
                &&& after[before.len() as int].account_hash == range.account_hash
                &&& after[before.len() as int].storage_root == range.storage_root
                &&& after[before.len() as int].slots == range.slots
                &&& after[before.len() as int].is_complete == !has_more
                &&& old(d)@.unchecked_storage.batch.len() == 0
                    || old(d)@.unchecked_storage.slots.len() == 0 ==> (r matches Ok(None))
                    && after.len() == before.len() + 1
            },
            _ => {
                &&& r matches Err(error) && error == DownloadError::RequestError(
                    RequestError::BadResponse,
                )
                &&& final(d)@.buffered_storage_ranges == old(d)@.buffered_storage_ranges
            },
        },
{
    lemma_taking_ranges_adds_only_checks();
    if let ProofOutcome::Checked { valid: true, has_more } = outcome {
        let accepted = with_valid_range(old(d)@, range, has_more);
        let n = old(d)@.buffered_storage_ranges.len() as int;
        let after = accepted.storage_ranges_taken(old(d)@.unchecked_storage).0;
        assert(final(d)@ == after);
        assert(after.buffered_storage_ranges[n] == accepted.buffered_storage_ranges[n]);
        assert forall|i: int| 0 <= i < n implies #[trigger] after.buffered_storage_ranges[i]
            == old(d)@.buffered_storage_ranges[i] by {
            assert(accepted.buffered_storage_ranges[i] == old(d)@.buffered_storage_ranges[i]);
        }
    }
}

/// A bytecode answer is accepted exactly where each code, as far as both the answer and the batch
/// go, hashes to what was asked for; its codes are then buffered with their hashes, in order.
pub proof fn law_bytecode_answers<Client>(
    d: &mut SnapDownloader<Client>,
    batch: Vec<B256>,
    message: ByteCodesMessage,
    r: DownloadResult<()>,
    n: int,
)
    requires
        call_ensures(
            SnapDownloader::<Client>::process_bytecode_response,
            (d, batch, SnapResponse::ByteCodes(message)),
            r,
        ),
        n == if batch@.len() < message@.codes.len() {
            batch@.len()
        } else {
            message@.codes.len()
        },
    ensures
        (forall|i: int|
            0 <= i < n ==> keccak256_of(#[trigger] message@.codes[i]) == batch@[i]@) ==> {
            &&& r matches Ok(())
            &&& codes_added(old(d)@, final(d)@, batch@, message@, n)
        },
        (exists|i: int|
            0 <= i < n && keccak256_of(#[trigger] message@.codes[i]) != batch@[i]@) ==> r
            == refused::<()>(),
{
    let codes = message@.codes;
    if forall|i: int| 0 <= i < n ==> keccak256_of(#[trigger] codes[i]) == batch@[i]@ {
        law_matching_codes_are_accepted(old(d)@, batch@, message@, n);
    } else {
        let i = choose|i: int| 0 <= i < n && keccak256_of(#[trigger] codes[i]) != batch@[i]@;
        let k = lemma_first_mismatch(batch@, codes, i);
        law_mismatching_codes_are_refused(old(d)@, batch@, message@, k);
    }
}

/// Where a code does not match, there is a first such.
proof fn lemma_first_mismatch(batch: Seq<B256>, codes: Seq<Seq<u8>>, at: int) -> (k: int)
    requires
        0 <= at,
        keccak256_of(codes[at]) != batch[at]@,
    ensures
        0 <= k <= at,
        keccak256_of(codes[k]) != batch[k]@,
        forall|i: int| 0 <= i < k ==> keccak256_of(#[trigger] codes[i]) == batch[i]@,
    decreases at,
{
    if exists|i: int| 0 <= i < at && keccak256_of(#[trigger] codes[i]) != batch[i]@ {
        let i = choose|i: int| 0 <= i < at && keccak256_of(#[trigger] codes[i]) != batch[i]@;
        lemma_first_mismatch(batch, codes, i)
    } else {
        at
    }
}

// ===== Batches, phases and polling =====

/// There is room for another request exactly while the current phase has fewer in flight than the
/// limit.
pub proof fn law_room_is_reported<Client>(d: SnapDownloader<Client>, r: bool)
    requires
        call_ensures(SnapDownloader::<Client>::can_submit_new_request, (&d,), r),
    ensures
        r <==> match d@.phase {
            SnapPhase::AccountSync => d@.in_flight_account_requests.len()
                < d@.max_concurrent_requests,
            SnapPhase::StorageSync => d@.in_flight_storage_requests.len()
                < d@.max_concurrent_requests,
            SnapPhase::BytecodeSync => d@.in_flight_bytecode_requests.len()
                < d@.max_concurrent_requests,
            SnapPhase::Complete => false,
        },
{
}

/// What a downloader was set up with and how far it is, is reported as it is.
pub proof fn law_progress_is_reported<Client>(
    d: SnapDownloader<Client>,
    max: usize,
    phase: SnapPhase,
    root: B256,
    next: B256,
    target: B256,
    terminated: bool,
    over: bool,
)
    requires
        call_ensures(SnapDownloader::<Client>::max_concurrent_requests, (&d,), max),
        call_ensures(SnapDownloader::<Client>::phase, (&d,), phase),
        call_ensures(SnapDownloader::<Client>::state_root, (&d,), root),
        call_ensures(SnapDownloader::<Client>::next_account_hash, (&d,), next),
        call_ensures(SnapDownloader::<Client>::target_account_hash, (&d,), target),
        call_ensures(SnapDownloader::<Client>::terminated, (&d,), terminated),
        call_ensures(SnapDownloader::<Client>::is_terminated, (&d,), over),
    ensures
        max == d@.max_concurrent_requests,
        phase == d@.phase,
        root == d@.state_root,
        next == d@.next_account_hash,
        target == d@.target_account_hash,
        terminated == d@.terminated,
        consistent(d@) ==> (over <==> terminated || phase == SnapPhase::Complete),
{
}

/// A storage batch that is formed holds the oldest ranges, in order and with all their slots.
pub proof fn law_formed_storage_batches<Client>(
    d: &mut SnapDownloader<Client>,
    r: Option<SnapBatch>,
    n: int,
)
    requires
        call_ensures(SnapDownloader::<Client>::try_form_batch, (d,), r),
        old(d)@.phase == SnapPhase::StorageSync,
        old(d)@.buffered_storage_ranges.len() > 0,
        n == if old(d)@.buffered_storage_ranges.len() < 100 {
            old(d)@.buffered_storage_ranges.len() as int
        } else {
            100
        },
    ensures
        ({
            let ranges = old(d)@.buffered_storage_ranges;
            &&& r matches Some(SnapBatch::Storage { storage, .. }) && {
                &&& storage@.len() == n
                &&& forall|i: int|
                    0 <= i < n ==> {
                        &&& (#[trigger] storage@[i]).0 == ranges[i].account_hash
                        &&& storage@[i].1 == ranges[i].storage_root
                        &&& storage@[i].2@ == ranges[i].slots
                    }
            }
            &&& final(d)@.buffered_storage_ranges == ranges.subrange(n, ranges.len() as int)
        }),
{
    law_storage_batch(old(d)@, n);
    let ranges = old(d)@.buffered_storage_ranges;
    law_batches_show_what_they_hold(r->0);
    let storage = r->0->storage;
    assert forall|i: int| 0 <= i < n implies {
        &&& (#[trigger] storage@[i]).0 == ranges[i].account_hash
        &&& storage@[i].1 == ranges[i].storage_root
        &&& storage@[i].2@ == ranges[i].slots
    } by {
        assert(r->0@->storage[i] == (storage@[i].0, storage@[i].1, storage@[i].2@));
        assert(r->0@->storage[i].0 == ranges[i].account_hash);
    }
}

/// An account batch that is formed is the oldest range; a bytecode batch holds the oldest codes.
pub proof fn law_formed_batches<Client>(d: &mut SnapDownloader<Client>, r: Option<SnapBatch>)
    requires
        call_ensures(SnapDownloader::<Client>::try_form_batch, (d,), r),
    ensures
        r is None <==> nothing_buffered(old(d)@),
        r is None ==> final(d)@ == old(d)@,
        old(d)@.phase == SnapPhase::AccountSync && old(d)@.buffered_account_ranges.len() > 0 ==> (
        r matches Some(SnapBatch::Accounts { accounts, has_more }) && {
            &&& accounts@ == old(d)@.buffered_account_ranges[0].accounts
            &&& has_more == old(d)@.buffered_account_ranges[0].has_more
        }),
        old(d)@.phase == SnapPhase::BytecodeSync && old(d)@.buffered_bytecodes.len() > 0 ==> (
        r matches Some(SnapBatch::Bytecode { codes }) && {
            &&& 0 < codes@.len() <= 1000
            &&& codes@.len() + final(d)@.buffered_bytecodes.len() == old(
                d,
            )@.buffered_bytecodes.len()
            &&& final(d)@.buffered_bytecodes.len() > 0 ==> codes@.len() == 1000
            &&& forall|i: int|
                0 <= i < codes@.len() ==> ((#[trigger] codes@[i]).0, codes@[i].1@) == old(
                    d,
                )@.buffered_bytecodes[i]
        }),
{
    law_batches_come_from_the_buffer(old(d)@);
    let all = old(d)@.buffered_bytecodes;
    if old(d)@.phase == SnapPhase::BytecodeSync && all.len() > 0 {
        let n: int = if all.len() < 1000 {
            all.len() as int
        } else {
            1000
        };
        law_bytecode_batch(old(d)@, n);
        law_batches_show_what_they_hold(r->0);
        let codes = r->0->codes;
        assert forall|i: int| 0 <= i < codes@.len() implies ((#[trigger] codes@[i]).0, codes@[i].1@)
            == all[i] by {
            assert(r->0@->codes[i] == (codes@[i].0, codes@[i].1@));
        }
    }
}

/// A downloader moves on to the storage where an account has storage, then to the bytecode where
/// code is needed, then to the end.
pub proof fn law_moving_on<Client>(d: &mut SnapDownloader<Client>)
    requires
        call_ensures(SnapDownloader::<Client>::transition_phase, (d,), ()),
    ensures
        ({
            let storage = exists|account: B256| #[trigger]
                old(d)@.account_storage_roots.contains_key(account);
            let code = exists|code: B256| #[trigger] old(d)@.code_hashes_needed.contains(code);
            final(d)@.phase == match old(d)@.phase {
                SnapPhase::AccountSync => if storage {
                    SnapPhase::StorageSync
                } else if code {
                    SnapPhase::BytecodeSync
                } else {
                    SnapPhase::Complete
                },
                SnapPhase::StorageSync => if code {
                    SnapPhase::BytecodeSync
                } else {
                    SnapPhase::Complete
                },
                _ => SnapPhase::Complete,
            }
        }),
{
    law_phases_follow(old(d)@, final(d)@);
}

/// Every poll is a step of the downloader, and leaves its client alone; whether an event can
/// happen is told beforehand.
pub proof fn law_polls_are_steps<Client>(
    d: &mut SnapDownloader<Client>,
    event: PollEvent,
    admitted: bool,
    turn: PollTurn,
)
    requires
        call_ensures(SnapDownloader::<Client>::admits, (&*d, &event), admitted),
        call_ensures(SnapDownloader::<Client>::poll_next, (d, event), turn),
    ensures
        admitted <==> old(d)@.admits(event@),
        old(d)@.steps_to(event@, final(d)@, turn@),
        final(d).client_view() == old(d).client_view(),
{
}

// ===== The stage =====

/// On the way to its target, executing a stage gives its batch out, and reports a checkpoint at
/// the target with the counter of the batch's kind, the batch included.
pub proof fn law_executions<D>(
    stage: &mut SnapSyncStage<D>,
    input: ExecInput,
    r: Result<Execution, StageError>,
    batch: SnapBatchView,
)
    requires
        call_ensures(SnapSyncStage::<D>::execute, (stage, &input), r),
        old(stage)@.counters_fit(input),
        !input.reached(),
        old(stage)@.buffer == Some(batch),
    ensures
        final(stage)@.buffer is None,
        final(stage)@.accounts == old(stage)@.accounts + accounts_counted(batch),
        final(stage)@.slots == old(stage)@.slots + slots_counted(batch),
        final(stage)@.bytecodes == old(stage)@.bytecodes + codes_counted(batch),
        r matches Ok(execution) && {
            &&& batch_view(execution.batch) == Some(batch)
            &&& reports(
                execution.output.checkpoint,
                input.target_block(),
                match batch {
                    SnapBatchView::Accounts { .. } => final(stage)@.accounts as int,
                    SnapBatchView::Storage { .. } => final(stage)@.slots as int,
                    SnapBatchView::Bytecode { .. } => final(stage)@.bytecodes as int,
                },
            )
        },
{
    law_execution_reports_the_counter(old(stage)@, input, batch);
}

/// At its target, executing a stage changes nothing, and the stage is done where it stands.
pub proof fn law_executions_at_the_target<D>(
    stage: &mut SnapSyncStage<D>,
    input: ExecInput,
    r: Result<Execution, StageError>,
)
    requires
        call_ensures(SnapSyncStage::<D>::execute, (stage, &input), r),
        input.reached(),
    ensures
        final(stage)@ == old(stage)@,
        r matches Ok(execution) && {
            &&& execution.batch is None
            &&& execution.output.done
            &&& execution.output.checkpoint == input.progress()
        },
{
}

/// Unwinding a stage gives a checkpoint at the block, and sets the counters back.
pub proof fn law_unwinding<D>(
    stage: &mut SnapSyncStage<D>,
    input: UnwindInput,
    r: Result<UnwindOutput, StageError>,
)
    requires
        call_ensures(SnapSyncStage::<D>::unwind, (stage, &input), r),
    ensures
        r matches Ok(output) && output.checkpoint.block_number == input.unwind_to
            && output.checkpoint.stage_checkpoint is None,
        final(stage)@ == (StageState { accounts: 0, slots: 0, bytecodes: 0, ..old(stage)@ }),
{
}

/// A batch that polling gives makes the stage ready, and is then what the stage has.
pub proof fn law_polled_batches<D>(
    stage: &mut SnapSyncStage<D>,
    batch: SnapBatch,
    r: Option<Result<(), StageError>>,
)
    requires
        call_ensures(
            SnapSyncStage::<D>::downloader_polled,
            (stage, DownloaderPoll::Item(Ok(batch))),
            r,
        ),
    ensures
        r == Some(Ok::<(), StageError>(())),
        final(stage)@ == (StageState { buffer: Some(batch@), ..old(stage)@ }),
{
}

/// A stage with a batch or at its target is ready; otherwise its downloader is to be polled, and
/// without one the stage cannot go on.
pub proof fn law_reported_readiness<D>(stage: SnapSyncStage<D>, input: ExecInput, r: Readiness)
    requires
        call_ensures(SnapSyncStage::<D>::poll_execute_ready, (&stage, &input), r),
    ensures
        r == if stage@.buffer is Some || input.reached() {
            Readiness::Ready(Ok(()))
        } else if stage@.downloader is Some {
            Readiness::PollDownloader
        } else {
            Readiness::Ready(Err(StageError::Fatal(FatalReason::DownloaderTaken)))
        },
{
}

/// A stage reports that it can execute exactly where the counter of its batch can take it.
pub proof fn law_reported_room_for_counting<D>(stage: SnapSyncStage<D>, input: ExecInput, r: bool)
    requires
        call_ensures(SnapSyncStage::<D>::can_execute, (&stage, &input), r),
    ensures
        r <==> input.reached() || (stage@.buffer matches Some(batch) ==> stage@.accounts
            + accounts_counted(batch) <= u64::MAX && stage@.slots + slots_counted(batch)
            <= u64::MAX && stage@.bytecodes + codes_counted(batch) <= u64::MAX),
{
}

// ===== The test client =====

/// A request gets the first prepared response of its kind, or an empty one with its number.
pub proof fn law_resolved_requests(
    client: &mut TestSnapClient,
    request: PendingRequest,
    r: WithPeerId,
)
    requires
        call_ensures(TestSnapClient::resolve, (client, request), r),
    ensures
        r.response@ == prepared(old(client)@, request, 0),
        final(client)@.request_attempts == old(client)@.request_attempts,
{
}

// ===== Collections =====

/// A map gives back what a key was given last, and of other keys what it had.
pub proof fn law_maps_give_back_what_they_were_given(
    map: &mut B256Map,
    key: B256,
    value: B256,
    other: B256,
)
    requires
        call_ensures(B256Map::insert, (map, key, value), ()),
    ensures
        final(map)@.contains_key(key) && final(map)@[key] == value,
        other != key ==> final(map)@.contains_key(other) == old(map)@.contains_key(other),
        other != key && old(map)@.contains_key(other) ==> final(map)@[other] == old(map)@[other],
{
}

/// A set has what was put in, and otherwise what it had.
pub proof fn law_sets_have_what_was_put_in(set: &mut B256Set, key: B256, other: B256)
    requires
        call_ensures(B256Set::insert, (set, key), ()),
    ensures
        final(set)@.contains(key),
        other != key ==> final(set)@.contains(other) == old(set)@.contains(other),
{
}

} // verus!
