//! What the operations of a snap downloader do, stated over what goes in and what comes out.

use crate::account::{slim_account_of, storage_value_of, Account};
use crate::batch::{AccountRange, StorageRange};
use crate::error::{DownloadError, DownloadResult, RequestError};
use crate::hashing::{empty_root, keccak256_of};
use crate::laws::{
    has_code_at, has_storage_at, has_storage_last_at, id_plus, law_codes_noted,
    law_requests_are_numbered_in_order, law_roots_noted,
};
use crate::model::{
    codes_matching, codes_noted, lemma_codes_matching_stops, lemma_readable_prefix_stops, min,
    readable, readable_prefix, roots_noted, slim, slots_readable, storage_range, AccountProofView,
    DownloaderState, PendingProofView, ProofOutcome, StorageAnswerView, StorageProofView,
};
use crate::phase::SnapPhase;
use crate::primitives::{bytes_precede, B256, U256};
use crate::rlp::rlp_u256;
use crate::wire::{
    AccountRangeView, ByteCodesView, GetAccountRangeMessage, SnapRequestView, SnapResponseView,
    StorageRangesView,
};
use vstd::prelude::*;

verus! {

/// The error for an answer that cannot be accepted.
pub open spec fn refused<T>() -> DownloadResult<T> {
    Err(DownloadError::RequestError(RequestError::BadResponse))
}

// ===== A new downloader =====

/// A new downloader has the settings that it was given, begins with the accounts, and has asked
/// for nothing, noted nothing and buffered nothing.
pub proof fn law_new_downloader_has_its_settings(
    max: usize,
    root: B256,
    start: B256,
    target: B256,
)
    ensures
        ({
            let s = DownloaderState::initial(max, root, start, target);
            &&& s.max_concurrent_requests == max
            &&& s.state_root == root
            &&& s.next_account_hash == start
            &&& s.target_account_hash == target
            &&& s.phase == SnapPhase::AccountSync
            &&& s.in_flight_account_requests.len() == 0
            &&& s.in_flight_storage_requests.len() == 0
            &&& s.in_flight_bytecode_requests.len() == 0
            &&& s.buffered_account_ranges.len() == 0
            &&& s.buffered_storage_ranges.len() == 0
            &&& s.buffered_bytecodes.len() == 0
            &&& s.accounts_pending_storage.len() == 0
            &&& s.code_hashes_pending.len() == 0
            &&& forall|account: B256| !#[trigger] s.account_storage_roots.contains_key(account)
            &&& forall|code: B256| !#[trigger] s.code_hashes_needed.contains(code)
            &&& s.pending_proof is Nothing
            &&& s.unchecked_storage.batch.len() == 0
            &&& s.request_id == 0
            &&& !s.terminated
        }),
{
}

// ===== Requests =====

/// An account request asks for the rest of the range, from the next account to the target, in
/// the state that is downloaded.
pub open spec fn asks_for_the_rest(s: DownloaderState, request: GetAccountRangeMessage) -> bool {
    &&& request.root_hash == s.state_root
    &&& request.starting_hash == s.next_account_hash
    &&& request.limit_hash == s.target_account_hash
    &&& request.response_bytes == 512 * 1024
}

/// One account request goes out with the next number and for the rest of the range; it is then
/// the last in flight, and nothing else has changed.
pub proof fn law_one_account_request(s: DownloaderState)
    ensures
        asks_for_the_rest(s, s.account_request()),
        s.account_request().request_id == s.request_id,
        s.account_range_requested() == (DownloaderState {
            request_id: id_plus(s.request_id, 1),
            in_flight_account_requests: s.in_flight_account_requests.push(s.account_request()),
            ..s
        }),
{
}

/// One storage request goes out with the next number for the first pending accounts, as many as
/// fit, and for all their slots; it is then the last in flight, and the accounts are no longer
/// pending.
pub proof fn law_one_storage_request(s: DownloaderState)
    requires
        s.accounts_pending_storage.len() > 0,
    ensures
        ({
            let request = s.storage_request();
            let pending = s.accounts_pending_storage;
            let n = request.account_hashes.len();
            &&& request.request_id == s.request_id
            &&& request.root_hash == s.state_root
            &&& request.starting_hash == B256::repeated(0)
            &&& request.limit_hash == B256::repeated(0xff)
            &&& request.response_bytes == 512 * 1024
            &&& n == if pending.len() < 128 {
                pending.len()
            } else {
                128
            }
            &&& forall|j: int| 0 <= j < n ==> #[trigger] request.account_hashes[j] == pending[j]
            &&& s.storage_ranges_requested() == DownloaderState {
                request_id: id_plus(s.request_id, 1),
                accounts_pending_storage: pending.subrange(n as int, pending.len() as int),
                in_flight_storage_requests: s.in_flight_storage_requests.push(request),
                ..s
            }
        }),
{
    let pending = s.accounts_pending_storage;
    let n = s.storage_batch_size() as int;
    assert(pending.skip(n) =~= pending.subrange(n, pending.len() as int));
}

/// Without pending accounts no storage request is made.
pub proof fn law_no_storage_request(s: DownloaderState)
    requires
        s.accounts_pending_storage.len() == 0,
    ensures
        s.storage_ranges_requested() == s,
{
}

/// One bytecode request goes out with the next number for the first pending hashes, as many as
/// fit; it is then the last in flight, and the hashes are no longer pending.
pub proof fn law_one_bytecode_request(s: DownloaderState)
    requires
        s.code_hashes_pending.len() > 0,
    ensures
        ({
            let request = s.bytecode_request();
            let pending = s.code_hashes_pending;
            let n = request.hashes.len();
            &&& request.request_id == s.request_id
            &&& request.response_bytes == 10 * 512 * 1024
            &&& n == if pending.len() < 50_000 {
                pending.len()
            } else {
                50_000
            }
            &&& forall|j: int| 0 <= j < n ==> #[trigger] request.hashes[j] == pending[j]
            &&& s.bytecode_requested() == DownloaderState {
                request_id: id_plus(s.request_id, 1),
                code_hashes_pending: pending.subrange(n as int, pending.len() as int),
                in_flight_bytecode_requests: s.in_flight_bytecode_requests.push(request),
                ..s
            }
        }),
{
    let pending = s.code_hashes_pending;
    let n = s.bytecode_batch_size() as int;
    assert(pending.skip(n) =~= pending.subrange(n, pending.len() as int));
}

/// Without pending hashes no bytecode request is made.
pub proof fn law_no_bytecode_request(s: DownloaderState)
    requires
        s.code_hashes_pending.len() == 0,
    ensures
        s.bytecode_requested() == s,
{
}

/// The larger of two numbers.
pub open spec fn larger(a: nat, b: nat) -> nat {
    if a < b {
        b
    } else {
        a
    }
}

/// The request at a position is sent and in flight, has its number, and asks for the rest of the
/// range.
pub open spec fn account_request_sent(
    s: DownloaderState,
    sent: DownloaderState,
    requests: Seq<SnapRequestView>,
    i: int,
) -> bool {
    let request = sent.in_flight_account_requests[s.in_flight_account_requests.len() + i];
    &&& requests[i] == SnapRequestView::AccountRange(request)
    &&& request.request_id == id_plus(s.request_id, i as nat)
    &&& asks_for_the_rest(s, request)
}

/// The account phase makes requests up to the limit as long as the target is not reached, and
/// none once it is. What is sent is what is then in flight behind the earlier requests, and every
/// request asks for the rest of the range.
pub proof fn law_account_requests_made(s: DownloaderState)
    requires
        s.phase == SnapPhase::AccountSync,
    ensures
        ({
            let (sent, requests) = s.submitted();
            let before = s.in_flight_account_requests;
            let after = sent.in_flight_account_requests;
            &&& sent == DownloaderState {
                request_id: id_plus(s.request_id, requests.len()),
                in_flight_account_requests: after,
                ..s
            }
            &&& after.len() == if bytes_precede(s.next_account_hash@, s.target_account_hash@) {
                larger(before.len(), s.max_concurrent_requests as nat)
            } else {
                before.len()
            }
            &&& requests.len() == after.len() - before.len()
            &&& forall|i: int| 0 <= i < before.len() ==> #[trigger] after[i] == before[i]
            &&& forall|i: int| 0 <= i < requests.len() ==> #[trigger] account_request_sent(
                s,
                sent,
                requests,
                i,
            )
        }),
    decreases s.room(),
{
    law_requests_are_numbered_in_order(s);
    let (sent, requests) = s.submitted();
    let before = s.in_flight_account_requests;
    if s.can_submit() && s.has_work() {
        let one = s.requested();
        law_account_requests_made(one);
        law_requests_are_numbered_in_order(one);
        let rest = one.submitted().1;
        let after = sent.in_flight_account_requests;
        assert(after[before.len() as int] == s.account_request());
        assert forall|i: int| 0 <= i < before.len() implies #[trigger] after[i] == before[i] by {
            assert(one.in_flight_account_requests[i] == before[i]);
        }
        assert forall|i: int| 0 <= i < requests.len() implies #[trigger] account_request_sent(
            s,
            sent,
            requests,
            i,
        ) by {
            if i > 0 {
                assert(requests[i] == rest[i - 1]);
                assert(account_request_sent(one, one.submitted().0, rest, i - 1));
            }
        }
    }
}

/// The request at a position is sent and in flight, has its number, and asks for all slots of the
/// pending accounts whose turn it is.
pub open spec fn storage_request_sent(
    s: DownloaderState,
    sent: DownloaderState,
    requests: Seq<SnapRequestView>,
    i: int,
) -> bool {
    let pending = s.accounts_pending_storage;
    let request = sent.in_flight_storage_requests[s.in_flight_storage_requests.len() + i];
    &&& requests[i] == SnapRequestView::StorageRanges(request)
    &&& request.request_id == id_plus(s.request_id, i as nat)
    &&& request.root_hash == s.state_root
    &&& request.starting_hash == B256::repeated(0)
    &&& request.limit_hash == B256::repeated(0xff)
    &&& request.response_bytes == 512 * 1024
    &&& 128 * i < pending.len()
    &&& request.account_hashes == pending.subrange(
        128 * i,
        if pending.len() < 128 * i + 128 {
            pending.len() as int
        } else {
            128 * i + 128
        },
    )
}

/// The storage phase makes requests until it is at its limit or nothing is pending. What is sent
/// is what is then in flight behind the earlier requests; the requests go through the pending
/// accounts in order, each with as many as fit, and what they do not name stays pending.
pub proof fn law_storage_requests_made(s: DownloaderState)
    requires
        s.phase == SnapPhase::StorageSync,
    ensures
        ({
            let (sent, requests) = s.submitted();
            let before = s.in_flight_storage_requests;
            let after = sent.in_flight_storage_requests;
            let pending = s.accounts_pending_storage;
            let left = sent.accounts_pending_storage;
            &&& sent == DownloaderState {
                request_id: id_plus(s.request_id, requests.len()),
                in_flight_storage_requests: after,
                accounts_pending_storage: left,
                ..s
            }
            &&& left.len() == 0 || after.len() >= s.max_concurrent_requests
            &&& after.len() <= larger(before.len(), s.max_concurrent_requests as nat)
            &&& requests.len() == after.len() - before.len()
            &&& left == if pending.len() < 128 * requests.len() {
                Seq::empty()
            } else {
                pending.skip((128 * requests.len()) as int)
            }
            &&& forall|i: int| 0 <= i < before.len() ==> #[trigger] after[i] == before[i]
            &&& forall|i: int| 0 <= i < requests.len() ==> #[trigger] storage_request_sent(
                s,
                sent,
                requests,
                i,
            )
        }),
    decreases s.room(),
{
    law_requests_are_numbered_in_order(s);
    let (sent, requests) = s.submitted();
    let before = s.in_flight_storage_requests;
    let pending = s.accounts_pending_storage;
    if s.can_submit() && s.has_work() {
        let one = s.requested();
        law_storage_requests_made(one);
        let rest = one.submitted().1;
        let after = sent.in_flight_storage_requests;
        let n = s.storage_batch_size() as int;
        assert(requests.len() == rest.len() + 1);
        assert(pending.take(n) =~= pending.subrange(0, n));
        assert(after[before.len() as int] == s.storage_request());
        assert forall|i: int| 0 <= i < before.len() implies #[trigger] after[i] == before[i] by {
            assert(one.in_flight_storage_requests[i] == before[i]);
        }
        if n == 128 && pending.len() >= 128 * requests.len() {
            assert(pending.skip(128).skip((128 * rest.len()) as int) =~= pending.skip(
                (128 * requests.len()) as int,
            ));
        }
        assert forall|i: int| 0 <= i < requests.len() implies #[trigger] storage_request_sent(
            s,
            sent,
            requests,
            i,
        ) by {
            if i > 0 {
                assert(requests[i] == rest[i - 1]);
                assert(storage_request_sent(one, one.submitted().0, rest, i - 1));
                assert(n == 128);
                let end = if pending.len() < 128 * i + 128 {
                    pending.len() as int
                } else {
                    128 * i + 128
                };
                assert(pending.skip(128).subrange(128 * (i - 1), end - 128) =~= pending.subrange(
                    128 * i,
                    end,
                ));
            }
        }
    } else {
        assert(pending.skip(0) =~= pending);
    }
}

/// The request at a position is sent and in flight, has its number, and asks for the pending code
/// whose turn it is.
pub open spec fn bytecode_request_sent(
    s: DownloaderState,
    sent: DownloaderState,
    requests: Seq<SnapRequestView>,
    i: int,
) -> bool {
    let pending = s.code_hashes_pending;
    let request = sent.in_flight_bytecode_requests[s.in_flight_bytecode_requests.len() + i];
    &&& requests[i] == SnapRequestView::ByteCodes(request)
    &&& request.request_id == id_plus(s.request_id, i as nat)
    &&& request.response_bytes == 10 * 512 * 1024
    &&& 50_000 * i < pending.len()
    &&& request.hashes == pending.subrange(
        50_000 * i,
        if pending.len() < 50_000 * i + 50_000 {
            pending.len() as int
        } else {
            50_000 * i + 50_000
        },
    )
}

/// The bytecode phase makes requests until it is at its limit or nothing is pending. What is sent
/// is what is then in flight behind the earlier requests; the requests go through the pending
/// hashes in order, each with as many as fit, and what they do not name stays pending.
pub proof fn law_bytecode_requests_made(s: DownloaderState)
    requires
        s.phase == SnapPhase::BytecodeSync,
    ensures
        ({
            let (sent, requests) = s.submitted();
            let before = s.in_flight_bytecode_requests;
            let after = sent.in_flight_bytecode_requests;
            let pending = s.code_hashes_pending;
            let left = sent.code_hashes_pending;
            &&& sent == DownloaderState {
                request_id: id_plus(s.request_id, requests.len()),
                in_flight_bytecode_requests: after,
                code_hashes_pending: left,
                ..s
            }
            &&& left.len() == 0 || after.len() >= s.max_concurrent_requests
            &&& after.len() <= larger(before.len(), s.max_concurrent_requests as nat)
            &&& requests.len() == after.len() - before.len()
            &&& left == if pending.len() < 50_000 * requests.len() {
                Seq::empty()
            } else {
                pending.skip((50_000 * requests.len()) as int)
            }
            &&& forall|i: int| 0 <= i < before.len() ==> #[trigger] after[i] == before[i]
            &&& forall|i: int| 0 <= i < requests.len() ==> #[trigger] bytecode_request_sent(
                s,
                sent,
                requests,
                i,
            )
        }),
    decreases s.room(),
{
    law_requests_are_numbered_in_order(s);
    let (sent, requests) = s.submitted();
    let before = s.in_flight_bytecode_requests;
    let pending = s.code_hashes_pending;
    if s.can_submit() && s.has_work() {
        let one = s.requested();
        law_bytecode_requests_made(one);
        let rest = one.submitted().1;
        let after = sent.in_flight_bytecode_requests;
        let n = s.bytecode_batch_size() as int;
        assert(requests.len() == rest.len() + 1);
        assert(pending.take(n) =~= pending.subrange(0, n));
        assert(after[before.len() as int] == s.bytecode_request());
        assert forall|i: int| 0 <= i < before.len() implies #[trigger] after[i] == before[i] by {
            assert(one.in_flight_bytecode_requests[i] == before[i]);
        }
        if n == 50_000 && pending.len() >= 50_000 * requests.len() {
            assert(pending.skip(50_000).skip((50_000 * rest.len()) as int) =~= pending.skip(
                (50_000 * requests.len()) as int,
            ));
        }
        assert forall|i: int| 0 <= i < requests.len() implies #[trigger] bytecode_request_sent(
            s,
            sent,
            requests,
            i,
        ) by {
            if i > 0 {
                assert(requests[i] == rest[i - 1]);
                assert(bytecode_request_sent(one, one.submitted().0, rest, i - 1));
                assert(n == 50_000);
                let end = if pending.len() < 50_000 * i + 50_000 {
                    pending.len() as int
                } else {
                    50_000 * i + 50_000
                };
                assert(pending.skip(50_000).subrange(50_000 * (i - 1), end - 50_000)
                    =~= pending.subrange(50_000 * i, end));
            }
        }
    } else {
        assert(pending.skip(0) =~= pending);
    }
}

/// A complete downloader makes no requests.
pub proof fn law_complete_downloader_asks_for_nothing(s: DownloaderState)
    requires
        s.phase == SnapPhase::Complete,
    ensures
        s.submitted() == (s, Seq::<SnapRequestView>::empty()),
{
}

// ===== Account ranges =====

/// The body of the account at a position says that the account has the code.
pub open spec fn tells_of_code(accounts: Seq<(B256, Seq<u8>)>, i: int, code: B256) -> bool {
    slim_account_of(accounts[i].1) matches Some(slim) && slim.bytecode_hash == Some(code)
}

/// The account at a position is the given one, and its body says that it has storage.
pub open spec fn tells_of_storage(accounts: Seq<(B256, Seq<u8>)>, i: int, account: B256) -> bool {
    &&& accounts[i].0 == account
    &&& slim_account_of(accounts[i].1) matches Some(slim) && slim.storage_root != empty_root()
}

/// The position is the last among the first accounts at which the given one has storage.
pub open spec fn tells_last_of_storage(
    accounts: Seq<(B256, Seq<u8>)>,
    n: int,
    i: int,
    account: B256,
) -> bool {
    &&& 0 <= i < n
    &&& tells_of_storage(accounts, i, account)
    &&& forall|j: int| i < j < n ==> !#[trigger] tells_of_storage(accounts, j, account)
}

/// The code that is needed is what was needed, and what the first accounts of a range need.
pub open spec fn notes_codes(
    before: Set<B256>,
    after: Set<B256>,
    accounts: Seq<(B256, Seq<u8>)>,
    n: int,
) -> bool {
    forall|code: B256| #[trigger]
        after.contains(code) <==> before.contains(code) || exists|i: int|
            0 <= i < n && #[trigger] tells_of_code(accounts, i, code)
}

/// The storage root that is known of an account is the last that the first accounts of a range
/// tell, and what was known where they tell none.
pub open spec fn notes_root(
    before: Map<B256, B256>,
    after: Map<B256, B256>,
    accounts: Seq<(B256, Seq<u8>)>,
    n: int,
    account: B256,
) -> bool {
    &&& forall|i: int| #[trigger]
        tells_last_of_storage(accounts, n, i, account) ==> after.contains_key(account)
            && after[account] == slim_account_of(accounts[i].1)->0.storage_root
    &&& (forall|i: int| 0 <= i < n ==> !#[trigger] tells_of_storage(accounts, i, account)) ==> {
        &&& after.contains_key(account) == before.contains_key(account)
        &&& after[account] == before[account]
    }
}

/// What is noted once the first accounts of a range were seen.
pub open spec fn notes_accounts(
    s: DownloaderState,
    state: DownloaderState,
    accounts: Seq<(B256, Seq<u8>)>,
    n: int,
) -> bool {
    &&& notes_codes(s.code_hashes_needed, state.code_hashes_needed, accounts, n)
    &&& forall|account: B256| #[trigger]
        notes_root(
            s.account_storage_roots,
            state.account_storage_roots,
            accounts,
            n,
            account,
        )
}

/// The code of the first accounts is noted.
proof fn lemma_notes_codes(before: Set<B256>, accounts: Seq<(B256, Seq<u8>)>, n: int)
    requires
        0 <= n <= accounts.len(),
        forall|i: int| 0 <= i < n ==> slim_account_of((#[trigger] accounts[i]).1) is Some,
    ensures
        notes_codes(before, codes_noted(before, accounts.take(n)), accounts, n),
{
    let seen = accounts.take(n);
    assert forall|code: B256| #[trigger]
        codes_noted(before, seen).contains(code) <==> before.contains(code) || exists|i: int|
            0 <= i < n && #[trigger] tells_of_code(accounts, i, code) by {
        law_codes_noted(before, seen, code);
        if exists|i: int| 0 <= i < n && #[trigger] tells_of_code(accounts, i, code) {
            let i = choose|i: int| 0 <= i < n && #[trigger] tells_of_code(accounts, i, code);
            assert(accounts[i] == seen[i]);
            assert(has_code_at(seen, code, i));
        }
        if exists|i: int| 0 <= i < seen.len() && #[trigger] has_code_at(seen, code, i) {
            let i = choose|i: int| 0 <= i < seen.len() && #[trigger] has_code_at(seen, code, i);
            assert(accounts[i] == seen[i]);
            assert(tells_of_code(accounts, i, code));
        }
    }
}

/// The storage root of an account among the first is noted.
proof fn lemma_notes_root(
    before: Map<B256, B256>,
    accounts: Seq<(B256, Seq<u8>)>,
    n: int,
    account: B256,
)
    requires
        0 <= n <= accounts.len(),
        forall|i: int| 0 <= i < n ==> slim_account_of((#[trigger] accounts[i]).1) is Some,
    ensures
        notes_root(before, roots_noted(before, accounts.take(n)), accounts, n, account),
{
    let seen = accounts.take(n);
    law_roots_noted(before, seen, account);
    assert forall|i: int| 0 <= i < n implies #[trigger] has_storage_at(seen, account, i)
        == tells_of_storage(accounts, i, account) by {
        assert(accounts[i] == seen[i]);
    }
    assert forall|i: int| #[trigger] tells_last_of_storage(accounts, n, i, account) implies {
        &&& roots_noted(before, seen).contains_key(account)
        &&& roots_noted(before, seen)[account] == slim_account_of(accounts[i].1)->0.storage_root
    } by {
        assert(accounts[i] == seen[i]);
        assert(has_storage_last_at(seen, account, i));
    }
}

/// The first accounts are noted as they are read.
proof fn lemma_notes(
    s: DownloaderState,
    state: DownloaderState,
    accounts: Seq<(B256, Seq<u8>)>,
    n: int,
)
    requires
        0 <= n <= accounts.len(),
        forall|i: int| 0 <= i < n ==> slim_account_of((#[trigger] accounts[i]).1) is Some,
        state.account_storage_roots == roots_noted(s.account_storage_roots, accounts.take(n)),
        state.code_hashes_needed == codes_noted(s.code_hashes_needed, accounts.take(n)),
    ensures
        notes_accounts(s, state, accounts, n),
{
    lemma_notes_codes(s.code_hashes_needed, accounts, n);
    assert forall|account: B256| #[trigger]
        notes_root(
            s.account_storage_roots,
            state.account_storage_roots,
            accounts,
            n,
            account,
        ) by {
        lemma_notes_root(s.account_storage_roots, accounts, n, account);
    }
}

/// Of readable accounts all are read.
proof fn lemma_all_readable(accounts: Seq<(B256, Seq<u8>)>)
    requires
        forall|i: int|
            0 <= i < accounts.len() ==> slim_account_of((#[trigger] accounts[i]).1) is Some,
    ensures
        readable_prefix(accounts) == accounts.len(),
    decreases accounts.len(),
{
    if accounts.len() > 0 {
        let front = accounts.drop_last();
        assert forall|i: int| 0 <= i < front.len() implies slim_account_of(
            (#[trigger] front[i]).1,
        ) is Some by {
            assert(front[i] == accounts[i]);
        }
        lemma_all_readable(front);
        assert(accounts.last() == accounts[accounts.len() - 1]);
    }
}

/// The accounts of a range are those of the message, in order, each with what its body says: the
/// nonce, the balance, the code hash and the storage root.
pub open spec fn says_what_bodies_say(
    entries: Seq<(B256, Account, B256)>,
    accounts: Seq<(B256, Seq<u8>)>,
) -> bool {
    &&& entries.len() == accounts.len()
    &&& forall|i: int|
        0 <= i < accounts.len() ==> {
            &&& (#[trigger] entries[i]).0 == accounts[i].0
            &&& slim_account_of(accounts[i].1) matches Some(slim) && {
                &&& entries[i].1.nonce == slim.nonce
                &&& entries[i].1.balance == slim.balance
                &&& entries[i].1.bytecode_hash == slim.bytecode_hash
                &&& entries[i].2 == slim.storage_root
            }
        }
}

/// A range of readable accounts is put to the check, as the bodies say and against the state root
/// and the proof of the answer; its accounts are noted, and nothing else has changed.
pub proof fn law_readable_accounts_are_put_to_the_check(
    s: DownloaderState,
    message: AccountRangeView,
)
    requires
        message.accounts.len() > 0,
        forall|i: int|
            0 <= i < message.accounts.len() ==> slim_account_of(
                (#[trigger] message.accounts[i]).1,
            ) is Some,
    ensures
        ({
            let (state, result) = s.account_range_processed(
                SnapResponseView::AccountRange(message),
            );
            let n = message.accounts.len();
            &&& state == DownloaderState {
                pending_proof: state.pending_proof,
                account_storage_roots: state.account_storage_roots,
                code_hashes_needed: state.code_hashes_needed,
                ..s
            }
            &&& notes_accounts(s, state, message.accounts, n as int)
            &&& state.pending_proof matches PendingProofView::Accounts(entries) && {
                &&& says_what_bodies_say(entries, message.accounts)
                &&& result matches Ok(Some(query)) && {
                    &&& query.root == s.state_root
                    &&& query.starting_hash == s.next_account_hash
                    &&& query.proof == message.proof
                    &&& query.account_hashes.len() == n
                    &&& query.accounts.len() == n
                    &&& forall|i: int|
                        0 <= i < n ==> #[trigger] query.account_hashes[i] == message.accounts[i].0
                    &&& forall|i: int| 0 <= i < n ==> #[trigger] query.accounts[i] == entries[i].1
                }
            }
        }),
{
    let accounts = message.accounts;
    lemma_all_readable(accounts);
    assert(accounts.take(accounts.len() as int) =~= accounts);
    let state = s.account_range_processed(SnapResponseView::AccountRange(message)).0;
    lemma_notes(s, state, accounts, accounts.len() as int);
}

/// A range with an account that cannot be read is refused; the accounts before the first such
/// are noted, and nothing else has changed.
pub proof fn law_unreadable_accounts_are_refused(
    s: DownloaderState,
    message: AccountRangeView,
    k: int,
)
    requires
        0 <= k < message.accounts.len(),
        forall|i: int|
            0 <= i < k ==> slim_account_of((#[trigger] message.accounts[i]).1) is Some,
        slim_account_of(message.accounts[k].1) is None,
    ensures
        ({
            let (state, result) = s.account_range_processed(
                SnapResponseView::AccountRange(message),
            );
            &&& result == refused::<Option<AccountProofView>>()
            &&& state == DownloaderState {
                account_storage_roots: state.account_storage_roots,
                code_hashes_needed: state.code_hashes_needed,
                ..s
            }
            &&& notes_accounts(s, state, message.accounts, k)
        }),
{
    let accounts = message.accounts;
    let front = accounts.take(k);
    assert forall|i: int| 0 <= i < front.len() implies slim_account_of(
        (#[trigger] front[i]).1,
    ) is Some by {
        assert(front[i] == accounts[i]);
    }
    lemma_all_readable(front);
    assert(!readable(accounts[k]));
    lemma_readable_prefix_stops(accounts, k);
    let state = s.account_range_processed(SnapResponseView::AccountRange(message)).0;
    lemma_notes(s, state, accounts, k);
}

/// An empty range moves the next account to the target, and changes nothing else.
pub proof fn law_empty_range_reaches_the_target(s: DownloaderState, message: AccountRangeView)
    requires
        message.accounts.len() == 0,
    ensures
        s.account_range_processed(SnapResponseView::AccountRange(message)).0 == (DownloaderState {
            next_account_hash: s.target_account_hash,
            ..s
        }),
        s.account_range_processed(SnapResponseView::AccountRange(message)).1 matches Ok(None),
{
}

/// An answer of another kind than was asked for is refused, and changes nothing.
pub proof fn law_answers_of_another_kind_are_refused(
    s: DownloaderState,
    batch: Seq<B256>,
    response: SnapResponseView,
)
    ensures
        !(response is AccountRange) ==> s.account_range_processed(response) == (
            s,
            refused::<Option<AccountProofView>>(),
        ),
        !(response is StorageRanges) ==> s.storage_ranges_processed(batch, response) == (
            s,
            refused::<Option<StorageProofView>>(),
        ),
        !(response is ByteCodes) ==> s.bytecode_processed(batch, response) == (
            s,
            refused::<()>(),
        ),
{
}

/// An account range that was found valid is buffered behind the others as it was checked, and
/// its last account is the next to go on from.
pub proof fn law_valid_accounts_are_buffered(
    s: DownloaderState,
    accounts: Seq<(B256, Account, B256)>,
    has_more: bool,
)
    requires
        s.pending_proof == PendingProofView::Accounts(accounts),
    ensures
        s.account_range_checked(ProofOutcome::Checked { valid: true, has_more }) == (
            DownloaderState {
                pending_proof: PendingProofView::Nothing,
                next_account_hash: if accounts.len() > 0 {
                    accounts[accounts.len() - 1].0
                } else {
                    s.next_account_hash
                },
                buffered_account_ranges: s.buffered_account_ranges.push(
                    AccountRange { accounts, has_more },
                ),
                ..s
            },
            Ok::<(), DownloadError>(()),
        ),
{
}

/// A range that was not found valid is dropped and refused.
pub proof fn law_invalid_ranges_are_refused(s: DownloaderState, outcome: ProofOutcome)
    requires
        !(outcome matches ProofOutcome::Checked { valid, .. } && valid),
    ensures
        s.account_range_checked(outcome) == (
            DownloaderState { pending_proof: PendingProofView::Nothing, ..s },
            refused::<()>(),
        ),
        s.storage_range_checked(outcome) == (
            DownloaderState {
                pending_proof: PendingProofView::Nothing,
                unchecked_storage: StorageAnswerView {
                    batch: Seq::empty(),
                    slots: Seq::empty(),
                    proof: Seq::empty(),
                },
                ..s
            },
            refused::<Option<StorageProofView>>(),
        ),
{
}

// ===== Bytecode =====

/// The codes of an answer that hash to what was asked for are all accepted, and buffered behind
/// the others with their hashes, in order.
pub proof fn law_matching_codes_are_accepted(
    s: DownloaderState,
    batch: Seq<B256>,
    message: ByteCodesView,
    n: int,
)
    requires
        n == if batch.len() < message.codes.len() {
            batch.len()
        } else {
            message.codes.len()
        },
        forall|i: int| 0 <= i < n ==> keccak256_of(#[trigger] message.codes[i]) == batch[i]@,
    ensures
        ({
            let (state, result) = s.bytecode_processed(
                batch,
                SnapResponseView::ByteCodes(message),
            );
            &&& result matches Ok(())
            &&& codes_added(s, state, batch, message, n)
        }),
{
    lemma_matching_all(batch, message.codes, n as nat);
}

/// An answer with a code that does not hash to what was asked for is refused; the codes before
/// the first such are buffered with their hashes, in order.
pub proof fn law_mismatching_codes_are_refused(
    s: DownloaderState,
    batch: Seq<B256>,
    message: ByteCodesView,
    k: int,
)
    requires
        0 <= k < batch.len(),
        k < message.codes.len(),
        forall|i: int| 0 <= i < k ==> keccak256_of(#[trigger] message.codes[i]) == batch[i]@,
        keccak256_of(message.codes[k]) != batch[k]@,
    ensures
        ({
            let (state, result) = s.bytecode_processed(
                batch,
                SnapResponseView::ByteCodes(message),
            );
            &&& result == refused::<()>()
            &&& codes_added(s, state, batch, message, k)
        }),
{
    lemma_matching_all(batch, message.codes, k as nat);
    lemma_codes_matching_stops(
        batch,
        message.codes,
        k as nat,
        min(batch.len(), message.codes.len()),
    );
}

/// The first codes of an answer were buffered behind the others, and nothing else has changed.
pub open spec fn codes_added(
    s: DownloaderState,
    state: DownloaderState,
    batch: Seq<B256>,
    message: ByteCodesView,
    n: int,
) -> bool {
    let m = s.buffered_bytecodes.len() as int;
    let after = state.buffered_bytecodes;
    &&& state == DownloaderState { buffered_bytecodes: after, ..s }
    &&& after.len() == m + n
    &&& forall|i: int| 0 <= i < m ==> #[trigger] after[i] == s.buffered_bytecodes[i]
    &&& forall|i: int|
        m <= i < m + n ==> #[trigger] after[i] == (batch[i - m], message.codes[i - m])
}

/// Codes that all match do match.
proof fn lemma_matching_all(batch: Seq<B256>, codes: Seq<Seq<u8>>, n: nat)
    requires
        n <= codes.len(),
        forall|i: int| 0 <= i < n ==> keccak256_of(#[trigger] codes[i]) == batch[i]@,
    ensures
        codes_matching(batch, codes, n) == n,
    decreases n,
{
    if n > 0 {
        lemma_matching_all(batch, codes, (n - 1) as nat);
    }
}

// ===== Storage =====

/// The positions below `n` at which the accounts of a batch have a known storage root, in order.
pub open spec fn picks_known(
    roots: Map<B256, B256>,
    batch: Seq<B256>,
    n: int,
    at: Seq<int>,
) -> bool {
    &&& forall|j: int| 0 <= j < at.len() ==> 0 <= #[trigger] at[j] < n
    &&& forall|j: int| 0 <= j < at.len() ==> roots.contains_key(batch[#[trigger] at[j]])
    &&& forall|j: int, l: int| 0 <= j < l < at.len() ==> at[j] < at[l]
    &&& forall|i: int|
        0 <= i < n && roots.contains_key(#[trigger] batch[i]) ==> at.contains(i)
}

/// The range of an account that has no slots to be checked.
pub open spec fn range_without_slots(account: B256, root: B256) -> StorageRange {
    StorageRange {
        account_hash: account,
        storage_root: root,
        slots: Seq::empty(),
        is_complete: true,
    }
}

/// Of the accounts of a batch below `n` each that has a known storage root was buffered as
/// complete and without slots, in order and behind the others.
pub open spec fn buffered_without_slots(
    s: DownloaderState,
    after: Seq<StorageRange>,
    batch: Seq<B256>,
    n: int,
) -> bool {
    let before = s.buffered_storage_ranges;
    let roots = s.account_storage_roots;
    exists|at: Seq<int>| #[trigger]
        picks_known(roots, batch, n, at) && after.len() == before.len() + at.len() && (forall|
            j: int,
        |
            0 <= j < before.len() ==> #[trigger] after[j] == before[j]) && (forall|j: int|
            before.len() <= j < after.len() ==> #[trigger] after[j] == range_without_slots(
                batch[at[j - before.len()]],
                roots[batch[at[j - before.len()]]],
            ))
}

/// The accounts of an answer below `n` have nothing to be checked: their storage root is not
/// known, or they have no slots.
pub open spec fn nothing_to_check(
    roots: Map<B256, B256>,
    answer: StorageAnswerView,
    n: int,
) -> bool {
    &&& 0 <= n <= answer.batch.len()
    &&& n <= answer.slots.len()
    &&& forall|i: int|
        0 <= i < n && roots.contains_key(#[trigger] answer.batch[i]) ==> answer.slots[i].len() == 0
}

/// What is left of an answer without its first accounts.
spec fn answer_from(answer: StorageAnswerView, n: int) -> StorageAnswerView {
    StorageAnswerView {
        batch: answer.batch.skip(n),
        slots: answer.slots.skip(n),
        proof: if n > 0 && n == answer.slots.len() {
            Seq::empty()
        } else {
            answer.proof
        },
    }
}

/// Accounts with nothing to be checked are passed over, or buffered without slots.
proof fn lemma_passed_over(s: DownloaderState, answer: StorageAnswerView, n: int) -> (state:
    DownloaderState)
    requires
        nothing_to_check(s.account_storage_roots, answer, n),
    ensures
        state == (DownloaderState {
            buffered_storage_ranges: state.buffered_storage_ranges,
            ..s
        }),
        buffered_without_slots(s, state.buffered_storage_ranges, answer.batch, n),
        s.storage_ranges_taken(answer) == state.storage_ranges_taken(answer_from(answer, n)),
    decreases n,
{
    let roots = s.account_storage_roots;
    let before = s.buffered_storage_ranges;
    if n == 0 {
        assert(answer_from(answer, 0) =~= answer);
        assert(picks_known(roots, answer.batch, 0, Seq::empty()));
        s
    } else {
        let first = answer.batch[0];
        let rest = answer.rest();
        assert forall|i: int|
            0 <= i < n - 1 && roots.contains_key(
                #[trigger] rest.batch[i],
            ) implies rest.slots[i].len() == 0 by {
            assert(rest.batch[i] == answer.batch[i + 1]);
        }
        assert(answer_from(rest, n - 1) =~= answer_from(answer, n));
        let known = roots.contains_key(first);
        let range = storage_range(first, roots[first], answer.slots[0]);
        assert(known ==> range =~= range_without_slots(first, roots[first]));
        let next = if known {
            s.storage_buffered(range)
        } else {
            s
        };
        let state = lemma_passed_over(next, rest, n - 1);
        let after = state.buffered_storage_ranges;
        let middle = next.buffered_storage_ranges;
        let later = choose|at: Seq<int>| #[trigger]
            picks_known(roots, rest.batch, n - 1, at) && after.len() == middle.len() + at.len() && (
            forall|j: int| 0 <= j < middle.len() ==> #[trigger] after[j] == middle[j]) && (forall|
                j: int,
            |
                middle.len() <= j < after.len() ==> #[trigger] after[j] == range_without_slots(
                    rest.batch[at[j - middle.len()]],
                    roots[rest.batch[at[j - middle.len()]]],
                ));
        let shifted = later.map_values(|i: int| i + 1);
        let at = if known {
            seq![0int] + shifted
        } else {
            shifted
        };
        let m: int = if known {
            1
        } else {
            0
        };
        assert forall|j: int| m <= j < at.len() implies #[trigger] at[j] == later[j - m] + 1 by {}
        assert(picks_known(roots, answer.batch, n, at)) by {
            assert forall|j: int| 0 <= j < at.len() implies 0 <= #[trigger] at[j] < n
                && roots.contains_key(answer.batch[at[j]]) by {
                if j >= m {
                    assert(0 <= later[j - m] < n - 1);
                    assert(rest.batch[later[j - m]] == answer.batch[at[j]]);
                }
            }
            assert forall|j: int, l: int| 0 <= j < l < at.len() implies at[j] < at[l] by {
                if j >= m {
                    assert(later[j - m] < later[l - m]);
                } else {
                    assert(0 <= later[l - m]);
                }
            }
            assert forall|i: int|
                0 <= i < n && roots.contains_key(#[trigger] answer.batch[i]) implies at.contains(
                i,
            ) by {
                if i == 0 {
                    assert(at[0] == 0);
                } else {
                    assert(rest.batch[i - 1] == answer.batch[i]);
                    let j = later.index_of(i - 1);
                    assert(later[j] == i - 1);
                    assert(at[j + m] == i);
                }
            }
        }
        assert forall|j: int| 0 <= j < before.len() implies #[trigger] after[j] == before[j] by {
            assert(middle[j] == before[j]);
        }
        assert forall|j: int| before.len() <= j < after.len() implies #[trigger] after[j]
            == range_without_slots(
            answer.batch[at[j - before.len()]],
            roots[answer.batch[at[j - before.len()]]],
        ) by {
            if j >= middle.len() {
                let l = j - middle.len();
                assert(at[j - before.len()] == later[l] + 1);
                assert(rest.batch[later[l]] == answer.batch[at[j - before.len()]]);
            } else {
                assert(after[j] == middle[j]);
                assert(middle[j] == range);
                assert(at[0] == 0);
            }
        }
        assert(buffered_without_slots(s, after, answer.batch, n));
        state
    }
}

/// The range is that of a list of slots: it has as many slots as the list, each with the hash
/// and the number that stand at its position in the list.
pub open spec fn has_all_slots(range: StorageRange, list: Seq<(B256, Seq<u8>)>) -> bool {
    &&& range.slots.len() == list.len()
    &&& forall|j: int|
        0 <= j < list.len() ==> {
            &&& (#[trigger] range.slots[j]).0 == list[j].0
            &&& rlp_u256(list[j].1) matches Some((value, _)) && range.slots[j].1
                == U256::of_bytes(value)
        }
}

/// All values of a list of slots can be read.
pub open spec fn can_be_read(list: Seq<(B256, Seq<u8>)>) -> bool {
    forall|j: int| 0 <= j < list.len() ==> rlp_u256((#[trigger] list[j]).1) is Some
}

/// The account at a position of an answer is put to the check with all its slots, against its
/// storage root and with the proof of the answer where it is the last list; the accounts after
/// it wait, and those before it had nothing to be checked.
pub open spec fn puts_to_the_check(
    s: DownloaderState,
    state: DownloaderState,
    result: DownloadResult<Option<StorageProofView>>,
    answer: StorageAnswerView,
    k: int,
) -> bool {
    let root = s.account_storage_roots[answer.batch[k]];
    &&& state == DownloaderState {
        pending_proof: state.pending_proof,
        unchecked_storage: state.unchecked_storage,
        buffered_storage_ranges: state.buffered_storage_ranges,
        ..s
    }
    &&& buffered_without_slots(s, state.buffered_storage_ranges, answer.batch, k)
    &&& state.unchecked_storage.batch == answer.batch.skip(k + 1)
    &&& state.unchecked_storage.slots == answer.slots.skip(k + 1)
    &&& k + 1 < answer.slots.len() ==> state.unchecked_storage.proof == answer.proof
    &&& state.pending_proof matches PendingProofView::Storage(range) && {
        &&& range.account_hash == answer.batch[k]
        &&& range.storage_root == root
        &&& has_all_slots(range, answer.slots[k])
        &&& result matches Ok(Some(query)) && {
            &&& query.root == root
            &&& query.starting_hash == B256::repeated(0)
            &&& query.slot_hashes.len() == answer.slots[k].len()
            &&& query.values.len() == answer.slots[k].len()
            &&& forall|j: int|
                0 <= j < answer.slots[k].len() ==> #[trigger] query.slot_hashes[j]
                    == answer.slots[k][j].0
            &&& forall|j: int|
                0 <= j < answer.slots[k].len() ==> #[trigger] query.values[j] == range.slots[j].1
            &&& k + 1 == answer.slots.len() ==> query.proof == answer.proof
            &&& k + 1 < answer.slots.len() ==> query.proof.len() == 0
        }
    }
}

/// Of what is left of an answer the first account with something to be checked is put to the
/// check.
proof fn lemma_put_to_the_check(s: DownloaderState, answer: StorageAnswerView, k: int)
    requires
        nothing_to_check(s.account_storage_roots, answer, k),
        k < answer.batch.len(),
        k < answer.slots.len(),
        s.account_storage_roots.contains_key(answer.batch[k]),
        answer.slots[k].len() > 0,
        can_be_read(answer.slots[k]),
    ensures
        puts_to_the_check(
            s,
            s.storage_ranges_taken(answer).0,
            s.storage_ranges_taken(answer).1,
            answer,
            k,
        ),
{
    let state = lemma_passed_over(s, answer, k);
    let left = answer_from(answer, k);
    let list = answer.slots[k];
    assert(left.batch[0] == answer.batch[k]);
    assert(left.slots[0] == list);
    assert(slots_readable(list)) by {
        assert forall|j: int| 0 <= j < list.len() implies storage_value_of(
            #[trigger] list[j].1,
        ) is Some by {
            assert(rlp_u256(list[j].1) is Some);
        }
    }
    assert(left.batch.skip(1) =~= answer.batch.skip(k + 1));
    assert(left.slots.skip(1) =~= answer.slots.skip(k + 1));
    let range = storage_range(answer.batch[k], s.account_storage_roots[answer.batch[k]], list);
    assert forall|j: int| 0 <= j < list.len() implies {
        &&& (#[trigger] range.slots[j]).0 == list[j].0
        &&& rlp_u256(list[j].1) matches Some((value, _)) && range.slots[j].1 == U256::of_bytes(
            value,
        )
    } by {
        assert(rlp_u256(list[j].1) is Some);
    }
}

/// Of what is left of an answer, an account with a value that cannot be read is refused, and
/// what comes after it is dropped.
proof fn lemma_unreadable_storage(s: DownloaderState, answer: StorageAnswerView, k: int)
    requires
        nothing_to_check(s.account_storage_roots, answer, k),
        k < answer.batch.len(),
        k < answer.slots.len(),
        s.account_storage_roots.contains_key(answer.batch[k]),
        !can_be_read(answer.slots[k]),
    ensures
        refuses_storage(
            s,
            s.storage_ranges_taken(answer).0,
            s.storage_ranges_taken(answer).1,
            answer,
            k,
        ),
{
    let state = lemma_passed_over(s, answer, k);
    let left = answer_from(answer, k);
    let list = answer.slots[k];
    assert(left.batch[0] == answer.batch[k]);
    assert(left.slots[0] == list);
    let j = choose|j: int| 0 <= j < list.len() && rlp_u256((#[trigger] list[j]).1) is None;
    assert(storage_value_of(list[j].1) is None);
    assert(!slots_readable(list));
}

/// The answer is refused at a position; the accounts before it had nothing to be checked.
pub open spec fn refuses_storage(
    s: DownloaderState,
    state: DownloaderState,
    result: DownloadResult<Option<StorageProofView>>,
    answer: StorageAnswerView,
    k: int,
) -> bool {
    &&& result == refused::<Option<StorageProofView>>()
    &&& storage_ended(s, state, answer, k)
}

/// Nothing of the answer is left; the accounts before a position had nothing to be checked.
pub open spec fn storage_ended(
    s: DownloaderState,
    state: DownloaderState,
    answer: StorageAnswerView,
    k: int,
) -> bool {
    &&& state == DownloaderState {
        unchecked_storage: state.unchecked_storage,
        buffered_storage_ranges: state.buffered_storage_ranges,
        ..s
    }
    &&& state.unchecked_storage.batch.len() == 0
    &&& state.unchecked_storage.slots.len() == 0
    &&& state.unchecked_storage.proof.len() == 0
    &&& buffered_without_slots(s, state.buffered_storage_ranges, answer.batch, k)
}

/// An answer whose accounts all have nothing to be checked is accepted without a check.
proof fn lemma_nothing_to_check(s: DownloaderState, answer: StorageAnswerView, n: int)
    requires
        nothing_to_check(s.account_storage_roots, answer, n),
        n == answer.batch.len() || n == answer.slots.len(),
    ensures
        s.storage_ranges_taken(answer).1 matches Ok(None),
        storage_ended(s, s.storage_ranges_taken(answer).0, answer, n),
{
    let state = lemma_passed_over(s, answer, n);
}

/// The storage of an answer to a request for a batch of accounts.
pub open spec fn answer_of(batch: Seq<B256>, message: StorageRangesView) -> StorageAnswerView {
    StorageAnswerView { batch, slots: message.slots, proof: message.proof }
}

/// The first account of a storage answer that has a known root and slots is put to the check with
/// all its slots, where they can be read.
pub proof fn law_first_storage_is_put_to_the_check(
    s: DownloaderState,
    batch: Seq<B256>,
    message: StorageRangesView,
    k: int,
)
    requires
        nothing_to_check(s.account_storage_roots, answer_of(batch, message), k),
        k < batch.len(),
        k < message.slots.len(),
        s.account_storage_roots.contains_key(batch[k]),
        message.slots[k].len() > 0,
        can_be_read(message.slots[k]),
    ensures
        ({
            let (state, result) = s.storage_ranges_processed(
                batch,
                SnapResponseView::StorageRanges(message),
            );
            puts_to_the_check(s, state, result, answer_of(batch, message), k)
        }),
{
    lemma_put_to_the_check(s, answer_of(batch, message), k);
}

/// A storage answer is refused at the first account with a known root whose slots cannot all be
/// read.
pub proof fn law_unreadable_storage_is_refused(
    s: DownloaderState,
    batch: Seq<B256>,
    message: StorageRangesView,
    k: int,
)
    requires
        nothing_to_check(s.account_storage_roots, answer_of(batch, message), k),
        k < batch.len(),
        k < message.slots.len(),
        s.account_storage_roots.contains_key(batch[k]),
        !can_be_read(message.slots[k]),
    ensures
        ({
            let (state, result) = s.storage_ranges_processed(
                batch,
                SnapResponseView::StorageRanges(message),
            );
            refuses_storage(s, state, result, answer_of(batch, message), k)
        }),
{
    lemma_unreadable_storage(s, answer_of(batch, message), k);
}

/// A storage answer without anything to be checked is accepted: its accounts with a known root
/// are buffered without slots.
pub proof fn law_storage_without_slots_is_accepted(
    s: DownloaderState,
    batch: Seq<B256>,
    message: StorageRangesView,
    n: int,
)
    requires
        nothing_to_check(s.account_storage_roots, answer_of(batch, message), n),
        n == batch.len() || n == message.slots.len(),
    ensures
        ({
            let (state, result) = s.storage_ranges_processed(
                batch,
                SnapResponseView::StorageRanges(message),
            );
            &&& result matches Ok(None)
            &&& storage_ended(s, state, answer_of(batch, message), n)
        }),
{
    lemma_nothing_to_check(s, answer_of(batch, message), n);
}

/// The state that a valid storage range leaves: it is buffered behind the others with all its
/// slots, and is complete where nothing comes after it.
pub open spec fn with_valid_range(
    s: DownloaderState,
    range: StorageRange,
    has_more: bool,
) -> DownloaderState {
    DownloaderState {
        pending_proof: PendingProofView::Nothing,
        unchecked_storage: StorageAnswerView {
            batch: Seq::empty(),
            slots: Seq::empty(),
            proof: Seq::empty(),
        },
        buffered_storage_ranges: s.buffered_storage_ranges.push(
            StorageRange {
                account_hash: range.account_hash,
                storage_root: range.storage_root,
                slots: range.slots,
                is_complete: !has_more,
            },
        ),
        ..s
    }
}

/// Once a storage range was found valid, it is buffered, and the next account of the answer that
/// has a known root and slots is put to the check with all its slots, where they can be read.
pub proof fn law_next_storage_is_put_to_the_check(
    s: DownloaderState,
    range: StorageRange,
    has_more: bool,
    k: int,
)
    requires
        s.pending_proof == PendingProofView::Storage(range),
        nothing_to_check(s.account_storage_roots, s.unchecked_storage, k),
        k < s.unchecked_storage.batch.len(),
        k < s.unchecked_storage.slots.len(),
        s.account_storage_roots.contains_key(s.unchecked_storage.batch[k]),
        s.unchecked_storage.slots[k].len() > 0,
        can_be_read(s.unchecked_storage.slots[k]),
    ensures
        ({
            let (state, result) = s.storage_range_checked(
                ProofOutcome::Checked { valid: true, has_more },
            );
            puts_to_the_check(
                with_valid_range(s, range, has_more),
                state,
                result,
                s.unchecked_storage,
                k,
            )
        }),
{
    lemma_put_to_the_check(with_valid_range(s, range, has_more), s.unchecked_storage, k);
}

/// Once a storage range was found valid, it is buffered, and the answer is refused at the next
/// account with a known root whose slots cannot all be read.
pub proof fn law_next_unreadable_storage_is_refused(
    s: DownloaderState,
    range: StorageRange,
    has_more: bool,
    k: int,
)
    requires
        s.pending_proof == PendingProofView::Storage(range),
        nothing_to_check(s.account_storage_roots, s.unchecked_storage, k),
        k < s.unchecked_storage.batch.len(),
        k < s.unchecked_storage.slots.len(),
        s.account_storage_roots.contains_key(s.unchecked_storage.batch[k]),
        !can_be_read(s.unchecked_storage.slots[k]),
    ensures
        ({
            let (state, result) = s.storage_range_checked(
                ProofOutcome::Checked { valid: true, has_more },
            );
            refuses_storage(
                with_valid_range(s, range, has_more),
                state,
                result,
                s.unchecked_storage,
                k,
            )
        }),
{
    lemma_unreadable_storage(with_valid_range(s, range, has_more), s.unchecked_storage, k);
}

/// Once a storage range was found valid and the rest of its answer has nothing to be checked, the
/// range is buffered, and behind it the accounts with a known root without slots.
pub proof fn law_last_storage_is_accepted(
    s: DownloaderState,
    range: StorageRange,
    has_more: bool,
    n: int,
)
    requires
        s.pending_proof == PendingProofView::Storage(range),
        nothing_to_check(s.account_storage_roots, s.unchecked_storage, n),
        n == s.unchecked_storage.batch.len() || n == s.unchecked_storage.slots.len(),
    ensures
        ({
            let (state, result) = s.storage_range_checked(
                ProofOutcome::Checked { valid: true, has_more },
            );
            &&& result matches Ok(None)
            &&& storage_ended(
                with_valid_range(s, range, has_more),
                state,
                s.unchecked_storage,
                n,
            )
        }),
{
    lemma_nothing_to_check(with_valid_range(s, range, has_more), s.unchecked_storage, n);
}

} // verus!
