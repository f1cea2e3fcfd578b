use snap_sync::primitives::B256;
use snap_sync::test_client::{PendingRequest, PeerId, Priority, TestSnapClient};
use snap_sync::wire::{
    AccountRangeMessage, ByteCodesMessage, GetAccountRangeMessage, GetByteCodesMessage,
    GetStorageRangesMessage, GetTrieNodesMessage, SnapResponse, StorageRangesMessage,
    TrieNodesMessage,
};

fn range(request_id: u64) -> AccountRangeMessage {
    AccountRangeMessage { request_id, accounts: vec![], proof: vec![vec![request_id as u8]] }
}

#[test]
fn requests_are_counted() {
    let mut client = TestSnapClient::default();
    assert_eq!(client.request_attempts(), 0);
    let zero = B256::zero();
    let account = GetAccountRangeMessage {
        request_id: 1,
        root_hash: zero,
        starting_hash: zero,
        limit_hash: zero,
        response_bytes: 0,
    };
    let storage = GetStorageRangesMessage {
        request_id: 2,
        root_hash: zero,
        account_hashes: vec![],
        starting_hash: zero,
        limit_hash: zero,
        response_bytes: 0,
    };
    let codes = GetByteCodesMessage { request_id: 3, hashes: vec![], response_bytes: 0 };
    let nodes =
        GetTrieNodesMessage { request_id: 4, root_hash: zero, paths: vec![], response_bytes: 0 };
    assert_eq!(client.get_account_range(&account), PendingRequest::AccountRange { request_id: 1 });
    assert_eq!(
        client.get_account_range_with_priority(&account, Priority::High),
        PendingRequest::AccountRange { request_id: 1 }
    );
    assert_eq!(
        client.get_storage_ranges(&storage),
        PendingRequest::StorageRanges { request_id: 2 }
    );
    assert_eq!(client.get_byte_codes(&codes), PendingRequest::ByteCodes { request_id: 3 });
    assert_eq!(client.get_trie_nodes(&nodes), PendingRequest::TrieNodes { request_id: 4 });
    assert_eq!(client.request_attempts(), 5);
    assert_eq!(client.num_connected_peers(), 10);
}

#[test]
fn responses_come_in_the_order_of_addition() {
    let mut client = TestSnapClient::default();
    client.extend_account_ranges(vec![range(10), range(11)]);
    client.extend_account_ranges(vec![range(12)]);
    for id in 10..13 {
        let answer = client.resolve(PendingRequest::AccountRange { request_id: 0 });
        assert_eq!(answer.response, SnapResponse::AccountRange(range(id)));
        assert_eq!(answer.peer_id, PeerId([0; 64]));
    }
    let empty = AccountRangeMessage { request_id: 7, accounts: vec![], proof: vec![] };
    assert_eq!(
        client.resolve(PendingRequest::AccountRange { request_id: 7 }).response,
        SnapResponse::AccountRange(empty)
    );
    assert_eq!(client.request_attempts(), 0);
}

#[test]
fn kinds_are_kept_apart_and_cleared() {
    let storage =
        || StorageRangesMessage { request_id: 1, slots: vec![vec![]], proof: vec![] };
    let codes = || ByteCodesMessage { request_id: 2, codes: vec![vec![2]] };
    let nodes = || TrieNodesMessage { request_id: 3, nodes: vec![vec![3]] };
    let mut client = TestSnapClient::default();
    client.extend_storage_ranges(vec![storage(), storage()]);
    client.extend_bytecodes(vec![codes(), codes()]);
    client.extend_trie_nodes(vec![nodes(), nodes()]);
    let requests = [
        PendingRequest::StorageRanges { request_id: 9 },
        PendingRequest::ByteCodes { request_id: 9 },
        PendingRequest::TrieNodes { request_id: 9 },
    ];
    let prepared = [
        SnapResponse::StorageRanges(storage()),
        SnapResponse::ByteCodes(codes()),
        SnapResponse::TrieNodes(nodes()),
    ];
    for (request, response) in requests.into_iter().zip(prepared) {
        assert_eq!(client.resolve(request).response, response);
    }
    client.clear();
    let empty = [
        SnapResponse::StorageRanges(StorageRangesMessage {
            request_id: 9,
            slots: vec![],
            proof: vec![],
        }),
        SnapResponse::ByteCodes(ByteCodesMessage { request_id: 9, codes: vec![] }),
        SnapResponse::TrieNodes(TrieNodesMessage { request_id: 9, nodes: vec![] }),
    ];
    for (request, response) in requests.into_iter().zip(empty) {
        assert_eq!(client.resolve(request).response, response);
    }
}

#[test]
fn mixed_requests_get_the_responses_of_their_kind_in_order() {
    let codes = |id: u64| ByteCodesMessage { request_id: id, codes: vec![vec![id as u8]] };
    let mut client = TestSnapClient::default();
    client.extend_account_ranges(vec![range(10), range(11)]);
    client.extend_bytecodes(vec![codes(20), codes(21)]);
    let asked = [
        PendingRequest::ByteCodes { request_id: 0 },
        PendingRequest::AccountRange { request_id: 1 },
        PendingRequest::ByteCodes { request_id: 2 },
        PendingRequest::ByteCodes { request_id: 3 },
        PendingRequest::AccountRange { request_id: 4 },
    ];
    let expected = [
        SnapResponse::ByteCodes(codes(20)),
        SnapResponse::AccountRange(range(10)),
        SnapResponse::ByteCodes(codes(21)),
        SnapResponse::ByteCodes(ByteCodesMessage { request_id: 3, codes: vec![] }),
        SnapResponse::AccountRange(range(11)),
    ];
    for (request, response) in asked.into_iter().zip(expected) {
        assert_eq!(client.resolve(request).response, response);
    }
}
