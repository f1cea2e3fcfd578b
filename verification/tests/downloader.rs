use snap_sync::account::Account;
use snap_sync::batch::SnapBatch;
use snap_sync::downloader::{PollEvent, PollTurn, SnapDownloader};
use snap_sync::error::{DownloadError, RequestError};
use snap_sync::model::ProofOutcome;
use snap_sync::phase::SnapPhase;
use snap_sync::primitives::{B256, U256};
use snap_sync::test_client::{PendingRequest, TestSnapClient};
use snap_sync::wire::{
    AccountData, AccountRangeMessage, ByteCodesMessage, SnapRequest, SnapResponse, StorageData,
    StorageRangesMessage, TrieNodesMessage,
};

const VALID: ProofOutcome = ProofOutcome::Checked { valid: true, has_more: false };
const BAD_RESPONSE: DownloadError = DownloadError::RequestError(RequestError::BadResponse);

fn random_hash() -> B256 {
    B256(alloy_primitives::B256::random().0)
}

fn hash_of(code: &[u8]) -> B256 {
    B256(alloy_primitives::keccak256(code).0)
}

fn small(value: u8) -> U256 {
    let mut bytes = [0u8; 32];
    bytes[31] = value;
    U256(bytes)
}

/// A slim account with nonce 1, balance 2, and the given storage root and code hash.
fn body(root: Option<B256>, code: Option<B256>) -> Vec<u8> {
    let mut fields = vec![0x01, 0x02];
    for field in [root, code] {
        match field {
            Some(hash) => {
                fields.push(0xa0);
                fields.extend_from_slice(&hash.0);
            }
            None => fields.push(0x80),
        }
    }
    let mut body = if fields.len() < 56 {
        vec![0xc0 + fields.len() as u8]
    } else {
        vec![0xf8, fields.len() as u8]
    };
    body.extend_from_slice(&fields);
    body
}

fn account(hash: B256, root: Option<B256>, code: Option<B256>) -> AccountData {
    AccountData { hash, body: body(root, code) }
}

fn account_range(accounts: Vec<AccountData>) -> AccountRangeMessage {
    AccountRangeMessage { request_id: 0, accounts, proof: vec![vec![1]] }
}

/// Drives a downloader over a test client, and checks every proof with the same outcome.
struct Driver {
    downloader: SnapDownloader<()>,
    client: TestSnapClient,
    in_flight: Vec<PendingRequest>,
    sent: Vec<SnapRequest>,
    outcome: ProofOutcome,
}

impl Driver {
    fn new(downloader: SnapDownloader<()>, outcome: ProofOutcome) -> Self {
        Driver {
            downloader,
            client: TestSnapClient::default(),
            in_flight: vec![],
            sent: vec![],
            outcome,
        }
    }

    fn send(&mut self, requests: Vec<SnapRequest>) {
        for request in requests {
            self.in_flight.push(match &request {
                SnapRequest::AccountRange(request) => self.client.get_account_range(request),
                SnapRequest::StorageRanges(request) => self.client.get_storage_ranges(request),
                SnapRequest::ByteCodes(request) => self.client.get_byte_codes(request),
            });
            self.sent.push(request);
        }
    }

    fn answer(&mut self) -> PollEvent {
        if self.in_flight.is_empty() {
            return PollEvent::Drained;
        }
        let request = self.in_flight.remove(0);
        let request_id = match request {
            PendingRequest::AccountRange { request_id } => request_id,
            PendingRequest::StorageRanges { request_id } => request_id,
            PendingRequest::ByteCodes { request_id } => request_id,
            PendingRequest::TrieNodes { request_id } => request_id,
        };
        PollEvent::Answered { request_id, outcome: Ok(self.client.resolve(request).response) }
    }

    /// The next item; panics where the downloader goes on for too long.
    fn next(&mut self) -> Option<Result<SnapBatch, DownloadError>> {
        let mut event = PollEvent::Polled;
        for _ in 0..1000 {
            assert!(self.downloader.admits(&event));
            event = match self.downloader.poll_next(event) {
                PollTurn::PollInFlight { submit } => {
                    self.send(submit);
                    self.answer()
                }
                PollTurn::VerifyAccountRange(_) | PollTurn::VerifyStorageRange(_) => {
                    PollEvent::ProofChecked(self.outcome)
                }
                PollTurn::Yield { submit, item } => {
                    self.send(submit);
                    return Some(item);
                }
                PollTurn::Pending => panic!("nothing is in flight"),
                PollTurn::Finished => return None,
            };
        }
        panic!("the downloader hangs")
    }
}

fn one_at_a_time(root: B256) -> SnapDownloader<()> {
    SnapDownloader::builder((), root).with_max_concurrent_requests(1).build()
}

/// Makes the first requests of a downloader.
fn start(downloader: &mut SnapDownloader<()>) -> Vec<SnapRequest> {
    assert!(matches!(
        downloader.poll_next(PollEvent::Polled),
        PollTurn::PollInFlight { submit } if submit.is_empty()
    ));
    match downloader.poll_next(PollEvent::Drained) {
        PollTurn::PollInFlight { submit } => submit,
        turn => panic!("unexpected turn: {:?}", turn),
    }
}

fn answered(response: SnapResponse) -> PollEvent {
    PollEvent::Answered { request_id: 0, outcome: Ok(response) }
}

#[test]
fn test_downloader_initialization() {
    let client = TestSnapClient::default();
    let state_root = random_hash();

    let downloader =
        SnapDownloader::builder(client, state_root).with_max_concurrent_requests(10).build();

    assert_eq!(downloader.max_concurrent_requests(), 10);
    assert_eq!(downloader.phase(), SnapPhase::AccountSync);
    assert_eq!(downloader.state_root(), state_root);
    assert!(!downloader.terminated());
}

#[test]
fn test_request_submission() {
    let client = TestSnapClient::default();
    let state_root = random_hash();

    let downloader =
        SnapDownloader::builder(client, state_root).with_max_concurrent_requests(1).build();

    // Before polling, no requests should be made
    assert_eq!(downloader.client().request_attempts(), 0);

    drop(downloader);
}

#[test]
fn test_concurrent_limit() {
    let client = TestSnapClient::default();
    let state_root = random_hash();

    let max_concurrent = 5;
    let mut downloader = SnapDownloader::builder(client, state_root)
        .with_max_concurrent_requests(max_concurrent)
        .build();

    // Manually trigger request submission
    for _ in 0..max_concurrent {
        if downloader.can_submit_new_request() {
            downloader.submit_account_range_request();
        }
    }

    // Should have submitted max_concurrent requests
    assert_eq!(downloader.requests_in_flight(), max_concurrent);

    // Can't submit more
    assert!(
        downloader.can_submit_new_request() == false
            || downloader.requests_in_flight() == max_concurrent
    );
    assert!(!downloader.can_submit_new_request());
}

#[test]
fn test_builder_configuration() {
    let client = TestSnapClient::default();
    let state_root = random_hash();
    let start_hash = random_hash();
    let target_hash = random_hash();

    let downloader = SnapDownloader::builder(client, state_root)
        .with_max_concurrent_requests(15)
        .with_start_hash(start_hash)
        .with_target_hash(target_hash)
        .build();

    assert_eq!(downloader.max_concurrent_requests(), 15);
    assert_eq!(downloader.next_account_hash(), start_hash);
    assert_eq!(downloader.target_account_hash(), target_hash);
    assert_eq!(downloader.state_root(), state_root);
}

#[test]
fn test_empty_response_no_infinite_loop() {
    let state_root = random_hash();
    let mut driver = Driver::new(one_at_a_time(state_root), VALID);

    // Add empty account range response
    driver.client.extend_account_ranges(vec![AccountRangeMessage {
        request_id: 0,
        accounts: vec![],
        proof: vec![],
    }]);

    // Should terminate without hanging
    let result = driver.next();
    assert!(result.is_none(), "Downloader should not hang on empty response");

    // After processing empty response, next_account_hash should equal target
    assert_eq!(driver.downloader.next_account_hash(), driver.downloader.target_account_hash());

    // Phase should transition to Complete (no storage, no bytecode needed)
    assert_eq!(driver.downloader.phase(), SnapPhase::Complete);

    // Verify only 1 request was made (not infinite)
    assert_eq!(driver.client.request_attempts(), 1);
}

#[test]
fn defaults_cover_all_accounts_with_ten_requests() {
    let root = B256::repeat_byte(7);
    let downloader = SnapDownloader::builder((), root).build();
    assert_eq!(downloader.max_concurrent_requests(), 10);
    assert_eq!(downloader.next_account_hash(), B256([0; 32]));
    assert_eq!(downloader.target_account_hash(), B256([0xff; 32]));
    assert_eq!(downloader.requests_in_flight(), 0);
    assert!(!downloader.is_terminated());
}

#[test]
fn first_requests_ask_for_the_whole_range() {
    let root = B256::repeat_byte(7);
    let mut downloader =
        SnapDownloader::builder((), root).with_max_concurrent_requests(3).build();
    let requests = start(&mut downloader);
    assert_eq!(requests.len(), 3);
    for (i, request) in requests.iter().enumerate() {
        match request {
            SnapRequest::AccountRange(request) => {
                assert_eq!(request.request_id, i as u64);
                assert_eq!(request.root_hash, root);
                assert_eq!(request.starting_hash, B256([0; 32]));
                assert_eq!(request.limit_hash, B256([0xff; 32]));
                assert_eq!(request.response_bytes, 524_288);
            }
            request => panic!("unexpected request: {:?}", request),
        }
    }
    assert_eq!(downloader.requests_in_flight(), 3);
    assert!(!downloader.can_submit_new_request());
    assert!(matches!(downloader.poll_next(PollEvent::Drained), PollTurn::Pending));
}

#[test]
fn phases_follow_each_other() {
    let account_hash = B256::repeat_byte(0x11);
    let storage_root = B256::repeat_byte(0x22);
    let slot = B256::repeat_byte(0x33);
    let code = vec![0x60, 0x00];
    let code_hash = hash_of(&code);

    let mut driver = Driver::new(one_at_a_time(B256::repeat_byte(1)), VALID);
    driver.client.extend_account_ranges(vec![account_range(vec![account(
        account_hash,
        Some(storage_root),
        Some(code_hash),
    )])]);
    driver.client.extend_storage_ranges(vec![StorageRangesMessage {
        request_id: 0,
        slots: vec![vec![StorageData { hash: slot, data: vec![0x05] }]],
        proof: vec![],
    }]);
    driver
        .client
        .extend_bytecodes(vec![ByteCodesMessage { request_id: 0, codes: vec![code.clone()] }]);

    match driver.next() {
        Some(Ok(SnapBatch::Accounts { accounts, has_more })) => {
            let expected =
                Account { nonce: 1, balance: small(2), bytecode_hash: Some(code_hash) };
            assert_eq!(accounts, vec![(account_hash, expected, storage_root)]);
            assert!(!has_more);
        }
        item => panic!("unexpected item: {:?}", item),
    }
    assert_eq!(driver.downloader.next_account_hash(), account_hash);

    match driver.next() {
        Some(Ok(SnapBatch::Storage { storage, accounts_complete, accounts_partial })) => {
            assert_eq!(storage, vec![(account_hash, storage_root, vec![(slot, small(5))])]);
            assert_eq!(accounts_complete.to_vec(), vec![account_hash]);
            assert!(accounts_partial.is_empty());
        }
        item => panic!("unexpected item: {:?}", item),
    }
    assert_eq!(driver.downloader.phase(), SnapPhase::StorageSync);

    match driver.next() {
        Some(Ok(SnapBatch::Bytecode { codes })) => assert_eq!(codes, vec![(code_hash, code)]),
        item => panic!("unexpected item: {:?}", item),
    }
    assert_eq!(driver.downloader.phase(), SnapPhase::BytecodeSync);

    assert!(driver.next().is_none());
    assert_eq!(driver.downloader.phase(), SnapPhase::Complete);
    assert!(driver.downloader.is_terminated());
    assert!(!driver.downloader.terminated());
    assert!(driver.next().is_none());

    // One account range, the empty range that ends the phase, one storage and one code request.
    assert_eq!(driver.client.request_attempts(), 4);
    match &driver.sent[2] {
        SnapRequest::StorageRanges(request) => {
            assert_eq!(request.request_id, 2);
            assert_eq!(request.root_hash, B256::repeat_byte(1));
            assert_eq!(request.account_hashes, vec![account_hash]);
            assert_eq!(request.starting_hash, B256([0; 32]));
            assert_eq!(request.limit_hash, B256([0xff; 32]));
            assert_eq!(request.response_bytes, 524_288);
        }
        request => panic!("unexpected request: {:?}", request),
    }
    match &driver.sent[3] {
        SnapRequest::ByteCodes(request) => {
            assert_eq!(request.request_id, 3);
            assert_eq!(request.hashes, vec![code_hash]);
            assert_eq!(request.response_bytes, 5_242_880);
        }
        request => panic!("unexpected request: {:?}", request),
    }
}

#[test]
fn code_without_storage_skips_the_storage_phase() {
    let code = vec![1, 2, 3];
    let mut driver = Driver::new(one_at_a_time(B256::zero()), VALID);
    driver.client.extend_account_ranges(vec![account_range(vec![account(
        B256::repeat_byte(1),
        None,
        Some(hash_of(&code)),
    )])]);
    driver.client.extend_bytecodes(vec![ByteCodesMessage { request_id: 0, codes: vec![code] }]);
    assert!(matches!(driver.next(), Some(Ok(SnapBatch::Accounts { .. }))));
    assert!(matches!(driver.next(), Some(Ok(SnapBatch::Bytecode { .. }))));
    assert_eq!(driver.downloader.phase(), SnapPhase::BytecodeSync);
    assert!(driver.next().is_none());
}

#[test]
fn account_proof_is_asked_for_over_the_range() {
    let root = B256::repeat_byte(9);
    let hashes = [B256::repeat_byte(1), B256::repeat_byte(2)];
    let mut downloader = one_at_a_time(root);
    start(&mut downloader);
    let response = SnapResponse::AccountRange(account_range(vec![
        account(hashes[0], None, None),
        account(hashes[1], Some(B256::repeat_byte(3)), None),
    ]));
    match downloader.poll_next(answered(response)) {
        PollTurn::VerifyAccountRange(query) => {
            assert_eq!(query.root, root);
            assert_eq!(query.starting_hash, B256::zero());
            assert_eq!(query.account_hashes, hashes);
            let expected = Account { nonce: 1, balance: small(2), bytecode_hash: None };
            assert_eq!(query.accounts, vec![expected, expected]);
            assert_eq!(query.proof, vec![vec![1]]);
        }
        turn => panic!("unexpected turn: {:?}", turn),
    }
    // While the proof is being checked, nothing else can happen.
    assert!(!downloader.admits(&PollEvent::Polled));
    assert!(!downloader.admits(&PollEvent::Drained));
    let outcome = ProofOutcome::Checked { valid: true, has_more: true };
    assert!(matches!(
        downloader.poll_next(PollEvent::ProofChecked(outcome)),
        PollTurn::PollInFlight { .. }
    ));
    assert_eq!(downloader.next_account_hash(), hashes[1]);
    match downloader.poll_next(PollEvent::Drained) {
        PollTurn::Yield { submit, item: Ok(SnapBatch::Accounts { accounts, has_more }) } => {
            // The next request goes out together with the batch.
            assert!(matches!(
                &submit[..],
                [SnapRequest::AccountRange(request)] if request.starting_hash == hashes[1]
            ));
            assert_eq!(accounts.len(), 2);
            assert_eq!(accounts[1].2, B256::repeat_byte(3));
            assert!(has_more);
        }
        turn => panic!("unexpected turn: {:?}", turn),
    }
}

#[test]
fn rejected_proofs_end_the_download() {
    for outcome in [ProofOutcome::Failed, ProofOutcome::Checked { valid: false, has_more: true }] {
        let mut driver = Driver::new(one_at_a_time(B256::zero()), outcome);
        driver
            .client
            .extend_account_ranges(vec![account_range(vec![account(
                B256::repeat_byte(1),
                None,
                None,
            )])]);
        assert!(matches!(driver.next(), Some(Err(BAD_RESPONSE))));
        assert!(driver.downloader.terminated());
        assert_eq!(driver.downloader.next_account_hash(), B256::zero());
        assert!(driver.next().is_none());
    }
}

#[test]
fn failed_requests_end_the_download() {
    for error in [
        RequestError::ChannelClosed,
        RequestError::ConnectionDropped,
        RequestError::UnsupportedCapability,
        RequestError::Timeout,
        RequestError::BadResponse,
    ] {
        let mut downloader = one_at_a_time(B256::zero());
        start(&mut downloader);
        let event = PollEvent::Answered { request_id: 0, outcome: Err(error) };
        match downloader.poll_next(event) {
            PollTurn::Yield { submit, item: Err(DownloadError::RequestError(got)) } => {
                assert!(submit.is_empty());
                assert_eq!(got, error);
            }
            turn => panic!("unexpected turn: {:?}", turn),
        }
        assert!(downloader.terminated());
        assert_eq!(downloader.requests_in_flight(), 0);
        assert!(matches!(downloader.poll_next(PollEvent::Polled), PollTurn::Finished));
    }
}

#[test]
fn answers_of_another_kind_are_bad() {
    let response = SnapResponse::TrieNodes(TrieNodesMessage { request_id: 0, nodes: vec![] });
    let mut downloader = one_at_a_time(B256::zero());
    start(&mut downloader);
    assert!(matches!(
        downloader.poll_next(answered(response)),
        PollTurn::Yield { item: Err(BAD_RESPONSE), .. }
    ));
    let codes = || SnapResponse::ByteCodes(ByteCodesMessage { request_id: 0, codes: vec![] });
    let mut downloader = one_at_a_time(B256::zero());
    assert!(matches!(
        downloader.process_storage_ranges_response(vec![], codes()),
        Err(BAD_RESPONSE)
    ));
    assert!(matches!(downloader.process_account_range_response(codes()), Err(BAD_RESPONSE)));
    let range = SnapResponse::AccountRange(account_range(vec![]));
    assert_eq!(downloader.process_bytecode_response(vec![], range), Err(BAD_RESPONSE));
}

#[test]
fn unknown_requests_are_not_answered() {
    let mut downloader = one_at_a_time(B256::zero());
    start(&mut downloader);
    let event = PollEvent::Answered { request_id: 1, outcome: Err(RequestError::Timeout) };
    assert!(!downloader.admits(&event));
    let event = PollEvent::Answered { request_id: 0, outcome: Err(RequestError::Timeout) };
    assert!(downloader.admits(&event));
    assert!(!downloader.admits(&PollEvent::ProofChecked(VALID)));
}

#[test]
fn accounts_before_an_unreadable_one_are_noted() {
    let mut downloader = one_at_a_time(B256::zero());
    let message = account_range(vec![
        account(B256::repeat_byte(1), Some(B256::repeat_byte(2)), None),
        AccountData { hash: B256::repeat_byte(3), body: vec![0xc0] },
    ]);
    assert!(matches!(
        downloader.process_account_range_response(SnapResponse::AccountRange(message)),
        Err(BAD_RESPONSE)
    ));
    downloader.transition_phase();
    assert_eq!(downloader.phase(), SnapPhase::StorageSync);
    match downloader.submit_storage_ranges_request() {
        Some(request) => assert_eq!(request.account_hashes, vec![B256::repeat_byte(1)]),
        None => panic!("no account is pending"),
    }
}

/// A downloader in the storage phase, with accounts `1..=n` that have storage.
fn in_storage_phase(n: u8) -> SnapDownloader<()> {
    let mut downloader = one_at_a_time(B256::zero());
    let accounts = (1..=n)
        .map(|i| account(B256::repeat_byte(i), Some(B256::repeat_byte(0xee)), None))
        .collect();
    let response = SnapResponse::AccountRange(account_range(accounts));
    assert!(matches!(downloader.process_account_range_response(response), Ok(Some(_))));
    assert_eq!(downloader.accept_account_range(VALID), Ok(()));
    assert!(downloader.try_form_batch().is_some());
    downloader.transition_phase();
    assert_eq!(downloader.phase(), SnapPhase::StorageSync);
    downloader
}

fn slot(i: u8) -> StorageData {
    StorageData { hash: B256::repeat_byte(i), data: vec![i] }
}

fn storage_answer(slots: Vec<Vec<StorageData>>, proof: Vec<Vec<u8>>) -> SnapResponse {
    SnapResponse::StorageRanges(StorageRangesMessage { request_id: 0, slots, proof })
}

/// The accounts of the next batch, which has to be one of storage.
fn batch_accounts(downloader: &mut SnapDownloader<()>) -> Vec<B256> {
    match downloader.try_form_batch() {
        Some(SnapBatch::Storage { storage, .. }) => storage.iter().map(|entry| entry.0).collect(),
        None => vec![],
        batch => panic!("unexpected batch: {:?}", batch),
    }
}

#[test]
fn storage_waits_for_the_check_of_its_proof() {
    let batch = vec![B256::repeat_byte(1), B256::repeat_byte(2)];
    let answer = || storage_answer(vec![vec![slot(5)], vec![slot(6), slot(7)]], vec![vec![9]]);
    let mut downloader = in_storage_phase(2);
    // The first list has no proof of its own, and is checked all the same.
    match downloader.process_storage_ranges_response(batch.clone(), answer()) {
        Ok(Some(query)) => {
            assert_eq!(query.root, B256::repeat_byte(0xee));
            assert_eq!(query.starting_hash, B256::zero());
            assert_eq!(query.slot_hashes, vec![B256::repeat_byte(5)]);
            assert_eq!(query.values, vec![small(5)]);
            assert!(query.proof.is_empty());
        }
        result => panic!("unexpected result: {:?}", result),
    }
    assert!(downloader.try_form_batch().is_none());
    // The last list comes next, with the proof of the answer.
    match downloader.accept_storage_range(VALID) {
        Ok(Some(query)) => {
            assert_eq!(query.root, B256::repeat_byte(0xee));
            assert_eq!(query.starting_hash, B256::zero());
            assert_eq!(query.slot_hashes, vec![B256::repeat_byte(6), B256::repeat_byte(7)]);
            assert_eq!(query.values, vec![small(6), small(7)]);
            assert_eq!(query.proof, vec![vec![9]]);
        }
        result => panic!("unexpected result: {:?}", result),
    }
    let partial = ProofOutcome::Checked { valid: true, has_more: true };
    assert!(matches!(downloader.accept_storage_range(partial), Ok(None)));
    match downloader.try_form_batch() {
        Some(SnapBatch::Storage { storage, accounts_complete, accounts_partial }) => {
            assert_eq!(storage.len(), 2);
            assert_eq!(storage[0].2, vec![(B256::repeat_byte(5), small(5))]);
            assert_eq!(storage[1].0, batch[1]);
            assert_eq!(accounts_complete.to_vec(), vec![batch[0]]);
            assert_eq!(accounts_partial.keys(), vec![batch[1]]);
            assert_eq!(accounts_partial.get(&batch[1]), Some(B256::repeat_byte(7)));
        }
        result => panic!("unexpected result: {:?}", result),
    }

    // Without a valid proof the range is dropped, and with it the rest of the answer.
    for outcome in [ProofOutcome::Failed, ProofOutcome::Checked { valid: false, has_more: false }] {
        let mut downloader = in_storage_phase(2);
        assert!(downloader.process_storage_ranges_response(batch.clone(), answer()).is_ok());
        assert!(matches!(downloader.accept_storage_range(outcome), Err(BAD_RESPONSE)));
        assert!(downloader.try_form_batch().is_none());
        let mut downloader = in_storage_phase(2);
        assert!(downloader.process_storage_ranges_response(batch.clone(), answer()).is_ok());
        assert!(downloader.accept_storage_range(VALID).is_ok());
        assert!(matches!(downloader.accept_storage_range(outcome), Err(BAD_RESPONSE)));
        assert_eq!(batch_accounts(&mut downloader), vec![batch[0]]);
    }
}

#[test]
fn storage_without_a_proof_is_checked() {
    let batch = vec![B256::repeat_byte(1)];
    let answer = || storage_answer(vec![vec![slot(5)]], vec![]);
    let mut downloader = in_storage_phase(1);
    match downloader.process_storage_ranges_response(batch.clone(), answer()) {
        Ok(Some(query)) => assert!(query.proof.is_empty()),
        result => panic!("unexpected result: {:?}", result),
    }
    assert!(downloader.try_form_batch().is_none());
    let invalid = ProofOutcome::Checked { valid: false, has_more: false };
    assert!(matches!(downloader.accept_storage_range(invalid), Err(BAD_RESPONSE)));
    assert!(downloader.try_form_batch().is_none());

    let mut downloader = in_storage_phase(1);
    assert!(downloader.process_storage_ranges_response(batch.clone(), answer()).is_ok());
    assert!(matches!(downloader.accept_storage_range(VALID), Ok(None)));
    assert_eq!(batch_accounts(&mut downloader), batch);
}

#[test]
fn surplus_lists_take_the_proof_but_not_the_check_away() {
    let batch = vec![B256::repeat_byte(1), B256::repeat_byte(2)];
    let mut downloader = in_storage_phase(2);
    let answer =
        storage_answer(vec![vec![slot(5)], vec![slot(6)], vec![slot(7)]], vec![vec![9]]);
    match downloader.process_storage_ranges_response(batch.clone(), answer) {
        Ok(Some(query)) => assert!(query.proof.is_empty()),
        result => panic!("unexpected result: {:?}", result),
    }
    match downloader.accept_storage_range(VALID) {
        Ok(Some(query)) => {
            assert_eq!(query.slot_hashes, vec![B256::repeat_byte(6)]);
            assert!(query.proof.is_empty());
        }
        result => panic!("unexpected result: {:?}", result),
    }
    assert!(matches!(downloader.accept_storage_range(VALID), Ok(None)));
    assert_eq!(batch_accounts(&mut downloader), batch);
}

#[test]
fn storage_without_slots_is_complete() {
    let batch = vec![B256::repeat_byte(1), B256::repeat_byte(2)];
    let mut downloader = in_storage_phase(2);
    let answer = storage_answer(vec![vec![], vec![]], vec![vec![9]]);
    assert!(matches!(
        downloader.process_storage_ranges_response(batch.clone(), answer),
        Ok(None)
    ));
    match downloader.try_form_batch() {
        Some(SnapBatch::Storage { accounts_complete, accounts_partial, .. }) => {
            assert!(accounts_complete.contains(&batch[0]));
            assert!(accounts_complete.contains(&batch[1]));
            assert!(accounts_partial.is_empty());
        }
        result => panic!("unexpected result: {:?}", result),
    }
}

#[test]
fn rejected_storage_ends_the_download() {
    let mut downloader = in_storage_phase(2);
    let submit = start(&mut downloader);
    let request_id = match &submit[..] {
        [SnapRequest::StorageRanges(request)] => request.request_id,
        submit => panic!("unexpected requests: {:?}", submit),
    };
    let outcome = Ok(storage_answer(vec![vec![slot(5)], vec![slot(6)]], vec![]));
    assert!(matches!(
        downloader.poll_next(PollEvent::Answered { request_id, outcome }),
        PollTurn::VerifyStorageRange(_)
    ));
    assert!(matches!(
        downloader.poll_next(PollEvent::ProofChecked(VALID)),
        PollTurn::VerifyStorageRange(_)
    ));
    assert!(!downloader.admits(&PollEvent::Drained));
    assert!(matches!(
        downloader.poll_next(PollEvent::ProofChecked(ProofOutcome::Failed)),
        PollTurn::Yield { item: Err(BAD_RESPONSE), .. }
    ));
    assert!(downloader.terminated());
    assert!(matches!(downloader.poll_next(PollEvent::Polled), PollTurn::Finished));
}

#[test]
fn storage_of_unknown_accounts_is_skipped() {
    let batch = vec![B256::repeat_byte(0xaa), B256::repeat_byte(1)];
    let mut downloader = in_storage_phase(1);
    let unreadable = StorageData { hash: B256::zero(), data: vec![0xc0] };
    let answer = storage_answer(vec![vec![unreadable], vec![slot(5)]], vec![]);
    match downloader.process_storage_ranges_response(batch, answer) {
        Ok(Some(query)) => assert_eq!(query.slot_hashes, vec![B256::repeat_byte(5)]),
        result => panic!("unexpected result: {:?}", result),
    }
    assert!(matches!(downloader.accept_storage_range(VALID), Ok(None)));
    assert_eq!(batch_accounts(&mut downloader), vec![B256::repeat_byte(1)]);
}

#[test]
fn storage_before_an_unreadable_range_is_kept() {
    let batch = vec![B256::repeat_byte(1), B256::repeat_byte(2)];
    let mut downloader = in_storage_phase(2);
    let unreadable = StorageData { hash: B256::zero(), data: vec![0x00] };
    let answer = storage_answer(vec![vec![slot(5)], vec![unreadable]], vec![]);
    assert!(matches!(
        downloader.process_storage_ranges_response(batch, answer),
        Ok(Some(_))
    ));
    assert!(matches!(downloader.accept_storage_range(VALID), Err(BAD_RESPONSE)));
    assert_eq!(batch_accounts(&mut downloader), vec![B256::repeat_byte(1)]);
}

#[test]
fn storage_requests_and_batches_are_limited() {
    let mut downloader = in_storage_phase(200);
    let first = downloader.submit_storage_ranges_request().unwrap();
    let second = downloader.submit_storage_ranges_request().unwrap();
    assert_eq!(first.account_hashes.len(), 128);
    assert_eq!(second.account_hashes.len(), 72);
    assert!(downloader.submit_storage_ranges_request().is_none());
    for (request, n) in [(first, 128), (second, 72)] {
        let answer = storage_answer((0..n).map(|_| vec![slot(1)]).collect(), vec![]);
        assert!(matches!(
            downloader.process_storage_ranges_response(request.account_hashes, answer),
            Ok(Some(_))
        ));
        for _ in 1..n {
            assert!(matches!(downloader.accept_storage_range(VALID), Ok(Some(_))));
        }
        assert!(matches!(downloader.accept_storage_range(VALID), Ok(None)));
    }
    for expected in [100, 100] {
        match downloader.try_form_batch() {
            Some(SnapBatch::Storage { storage, accounts_complete, .. }) => {
                assert_eq!(storage.len(), expected);
                assert_eq!(accounts_complete.to_vec().len(), expected);
            }
            result => panic!("unexpected result: {:?}", result),
        }
    }
    assert!(downloader.try_form_batch().is_none());
}

#[test]
fn bytecode_has_to_match_its_hash() {
    let codes = vec![vec![1u8], vec![2u8, 3]];
    let batch: Vec<B256> = codes.iter().map(|code| hash_of(code)).collect();
    let mut downloader = one_at_a_time(B256::zero());

    // Fewer codes than hashes are fine.
    let message = ByteCodesMessage { request_id: 0, codes: vec![codes[0].clone()] };
    let response = SnapResponse::ByteCodes(message);
    assert_eq!(downloader.process_bytecode_response(batch.clone(), response), Ok(()));

    // A code that is not the one that was asked for is not.
    let message = ByteCodesMessage { request_id: 0, codes: vec![codes[0].clone(), vec![9]] };
    let response = SnapResponse::ByteCodes(message);
    assert_eq!(downloader.process_bytecode_response(batch, response), Err(BAD_RESPONSE));
}

#[test]
fn bytecode_batches_are_limited() {
    let mut downloader = one_at_a_time(B256::zero());
    let codes: Vec<Vec<u8>> = (0..1001u32).map(|i| i.to_be_bytes().to_vec()).collect();
    let hashes: Vec<B256> = codes.iter().map(|code| hash_of(code)).collect();
    let accounts = hashes
        .iter()
        .map(|hash| account(*hash, None, Some(*hash)))
        .collect();
    let response = SnapResponse::AccountRange(account_range(accounts));
    assert!(downloader.process_account_range_response(response).is_ok());
    assert_eq!(downloader.accept_account_range(VALID), Ok(()));
    downloader.transition_phase();
    assert_eq!(downloader.phase(), SnapPhase::BytecodeSync);
    let request = downloader.submit_bytecode_request().unwrap();
    assert_eq!(request.hashes.len(), 1001);
    assert_eq!(request.response_bytes, 5_242_880);
    assert!(downloader.submit_bytecode_request().is_none());
    let codes: Vec<Vec<u8>> = request
        .hashes
        .iter()
        .map(|hash| codes[hashes.iter().position(|other| other == hash).unwrap()].clone())
        .collect();
    let response = SnapResponse::ByteCodes(ByteCodesMessage { request_id: 0, codes });
    assert_eq!(downloader.process_bytecode_response(request.hashes, response), Ok(()));
    for expected in [1000, 1] {
        match downloader.try_form_batch() {
            Some(SnapBatch::Bytecode { codes }) => {
                assert_eq!(codes.len(), expected);
                for (hash, code) in codes {
                    assert_eq!(hash, hash_of(&code));
                }
            }
            result => panic!("unexpected result: {:?}", result),
        }
    }
    assert!(downloader.try_form_batch().is_none());
}

#[test]
fn bytecode_requests_are_limited() {
    let mut downloader = one_at_a_time(B256::zero());
    let accounts = (0..50_001u32)
        .map(|i| {
            let mut bytes = [0u8; 32];
            bytes[28..].copy_from_slice(&i.to_be_bytes());
            bytes[0..4].copy_from_slice(&i.to_le_bytes());
            account(B256(bytes), None, Some(B256(bytes)))
        })
        .collect();
    let response = SnapResponse::AccountRange(account_range(accounts));
    assert!(downloader.process_account_range_response(response).is_ok());
    assert_eq!(downloader.accept_account_range(VALID), Ok(()));
    downloader.transition_phase();
    assert_eq!(downloader.submit_bytecode_request().unwrap().hashes.len(), 50_000);
    assert_eq!(downloader.submit_bytecode_request().unwrap().hashes.len(), 1);
    assert!(downloader.submit_bytecode_request().is_none());
}

#[test]
fn later_storage_root_replaces_an_earlier_one() {
    let hash = B256::repeat_byte(1);
    let mut downloader = one_at_a_time(B256::zero());
    let message = account_range(vec![
        account(hash, Some(B256::repeat_byte(2)), None),
        account(hash, Some(B256::repeat_byte(3)), None),
        account(hash, None, None),
    ]);
    let response = SnapResponse::AccountRange(message);
    assert!(downloader.process_account_range_response(response).is_ok());
    assert_eq!(downloader.accept_account_range(VALID), Ok(()));
    downloader.transition_phase();
    let request = downloader.submit_storage_ranges_request().unwrap();
    assert_eq!(request.account_hashes, vec![hash]);
    let message =
        StorageRangesMessage { request_id: 0, slots: vec![vec![slot(5)]], proof: vec![] };
    let response = SnapResponse::StorageRanges(message);
    assert!(downloader.process_storage_ranges_response(vec![hash], response).is_ok());
    assert!(matches!(downloader.accept_storage_range(VALID), Ok(None)));
    match downloader.try_form_batch() {
        Some(SnapBatch::Storage { storage, .. }) => {
            assert_eq!(storage[0].1, B256::repeat_byte(3))
        }
        result => panic!("unexpected result: {:?}", result),
    }
}

#[test]
fn storage_phase_goes_on_until_every_request_is_answered() {
    let mut downloader = SnapDownloader::builder((), B256::zero())
        .with_max_concurrent_requests(2)
        .build();
    let accounts = (1..=200)
        .map(|i| account(B256::repeat_byte(i), Some(B256::repeat_byte(0xee)), None))
        .collect();
    let response = SnapResponse::AccountRange(account_range(accounts));
    assert!(downloader.process_account_range_response(response).is_ok());
    assert_eq!(downloader.accept_account_range(VALID), Ok(()));
    assert!(downloader.try_form_batch().is_some());
    downloader.transition_phase();
    let submit = start(&mut downloader);
    assert_eq!(submit.len(), 2);
    let mut named = Vec::new();
    for request in &submit {
        match request {
            SnapRequest::StorageRanges(request) => named.extend_from_slice(&request.account_hashes),
            request => panic!("unexpected request: {:?}", request),
        }
    }
    named.sort_by_key(|hash| hash.0);
    assert_eq!(named, (1..=200).map(B256::repeat_byte).collect::<Vec<_>>());
    for (request_id, phase) in [(1, SnapPhase::StorageSync), (0, SnapPhase::Complete)] {
        let message = StorageRangesMessage { request_id, slots: vec![], proof: vec![] };
        let outcome = Ok(SnapResponse::StorageRanges(message));
        let event = PollEvent::Answered { request_id, outcome };
        assert!(downloader.admits(&event));
        assert!(matches!(downloader.poll_next(event), PollTurn::PollInFlight { .. }));
        downloader.poll_next(PollEvent::Drained);
        assert_eq!(downloader.phase(), phase);
    }
}

#[test]
fn without_room_for_requests_the_consumer_waits() {
    let mut downloader =
        SnapDownloader::builder((), B256::zero()).with_max_concurrent_requests(0).build();
    assert!(!downloader.can_submit_new_request());
    assert!(matches!(downloader.poll_next(PollEvent::Polled), PollTurn::PollInFlight { .. }));
    assert!(matches!(downloader.poll_next(PollEvent::Drained), PollTurn::Pending));
    assert_eq!(downloader.requests_in_flight(), 0);
}

#[test]
fn empty_range_of_accounts_is_done_at_once() {
    let hash = B256::repeat_byte(8);
    let mut downloader = SnapDownloader::builder((), B256::zero())
        .with_start_hash(hash)
        .with_target_hash(hash)
        .build();
    assert!(matches!(downloader.poll_next(PollEvent::Polled), PollTurn::PollInFlight { .. }));
    assert!(matches!(downloader.poll_next(PollEvent::Drained), PollTurn::Finished));
    assert_eq!(downloader.phase(), SnapPhase::Complete);
}

#[test]
fn nothing_is_handed_on_twice() {
    let accounts = || {
        (0..3u8)
            .map(|i| {
                let root = Some(B256::repeat_byte(9));
                account(B256::repeat_byte(i + 1), root, Some(hash_of(&[i])))
            })
            .collect()
    };
    let code_of = |hash: &B256| vec![(0..3u8).find(|i| hash_of(&[*i]) == *hash).unwrap()];
    let mut downloader =
        SnapDownloader::builder((), B256::zero()).with_max_concurrent_requests(3).build();
    let mut in_flight: Vec<SnapRequest> = vec![];
    let (mut ranges_given, mut checks) = (0, 0);
    let (mut handed_accounts, mut handed_storage, mut handed_codes) = (vec![], vec![], vec![]);
    let mut event = PollEvent::Polled;
    loop {
        assert!(downloader.admits(&event));
        event = match downloader.poll_next(event) {
            PollTurn::PollInFlight { submit } => {
                in_flight.extend(submit);
                match in_flight.pop() {
                    None => PollEvent::Drained,
                    Some(SnapRequest::AccountRange(request)) => {
                        // Three peers give the same accounts, later ones have none left.
                        ranges_given += 1;
                        let accounts = if ranges_given <= 3 { accounts() } else { vec![] };
                        PollEvent::Answered {
                            request_id: request.request_id,
                            outcome: Ok(SnapResponse::AccountRange(account_range(accounts))),
                        }
                    }
                    Some(SnapRequest::StorageRanges(request)) => PollEvent::Answered {
                        request_id: request.request_id,
                        outcome: Ok(storage_answer(
                            request.account_hashes.iter().map(|_| vec![slot(5)]).collect(),
                            vec![],
                        )),
                    },
                    Some(SnapRequest::ByteCodes(request)) => PollEvent::Answered {
                        request_id: request.request_id,
                        outcome: Ok(SnapResponse::ByteCodes(ByteCodesMessage {
                            request_id: 0,
                            codes: request.hashes.iter().map(code_of).collect(),
                        })),
                    },
                }
            }
            PollTurn::VerifyAccountRange(_) => PollEvent::ProofChecked(VALID),
            PollTurn::VerifyStorageRange(_) => {
                // The storage of every other account goes on after the range.
                checks += 1;
                let has_more = checks % 2 == 0;
                PollEvent::ProofChecked(ProofOutcome::Checked { valid: true, has_more })
            }
            PollTurn::Yield { submit, item } => {
                in_flight.extend(submit);
                match item.unwrap() {
                    SnapBatch::Accounts { accounts, .. } => handed_accounts.extend(accounts),
                    SnapBatch::Storage { storage, accounts_complete, accounts_partial } => {
                        for (account, _, _) in storage {
                            let complete = accounts_complete.contains(&account);
                            assert_ne!(complete, accounts_partial.get(&account).is_some());
                            handed_storage.push(account);
                        }
                    }
                    SnapBatch::Bytecode { codes } => {
                        handed_codes.extend(codes.into_iter().map(|entry| entry.0))
                    }
                }
                PollEvent::Polled
            }
            PollTurn::Pending => panic!("nothing is in flight"),
            PollTurn::Finished => break,
        };
    }
    // The same accounts came three times, their storage and their code once.
    assert_eq!(handed_accounts.len(), 9);
    handed_storage.sort_by_key(|hash| hash.0);
    assert_eq!(handed_storage, (1..=3).map(B256::repeat_byte).collect::<Vec<_>>());
    handed_codes.sort_by_key(|hash| hash.0);
    let mut codes: Vec<B256> = (0..3u8).map(|i| hash_of(&[i])).collect();
    codes.sort_by_key(|hash| hash.0);
    assert_eq!(handed_codes, codes);
    assert!(!downloader.next_account_hash().precedes(&downloader.target_account_hash()));
}
