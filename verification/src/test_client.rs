//! A snap client for tests, which answers from lists of prepared responses.

use crate::wire::{
    AccountRangeMessage, AccountRangeView, ByteCodesMessage, ByteCodesView, GetAccountRangeMessage,
    GetByteCodesMessage, GetStorageRangesMessage, GetTrieNodesMessage, SnapResponse,
    SnapResponseView, StorageRangesMessage, StorageRangesView, TrieNodesMessage, TrieNodesView,
};
use vstd::prelude::*;

verus! {

/// How urgent a request is.
#[derive(Clone, Copy, Debug, PartialEq, Eq, Structural)]
pub enum Priority {
    /// Queued behind other requests.
    Normal,
    /// Queued before other requests.
    High,
}

/// Names a peer.
#[derive(Clone, Copy, Debug, PartialEq, Eq)]
pub struct PeerId(pub [u8; 64]);

/// A response, with the peer that it came from.
#[derive(Debug, PartialEq, Eq)]
pub struct WithPeerId {
    /// The peer.
    pub peer_id: PeerId,
    /// The response.
    pub response: SnapResponse,
}

/// A request that was made and is not answered yet.
#[derive(Clone, Copy, Debug, PartialEq, Eq, Structural)]
pub enum PendingRequest {
    /// A request for an account range.
    AccountRange {
        /// The number of the request.
        request_id: u64,
    },
    /// A request for storage ranges.
    StorageRanges {
        /// The number of the request.
        request_id: u64,
    },
    /// A request for bytecode.
    ByteCodes {
        /// The number of the request.
        request_id: u64,
    },
    /// A request for trie nodes.
    TrieNodes {
        /// The number of the request.
        request_id: u64,
    },
}

/// A test client for snap sync requests.
///
/// Making a request counts it. Answering one takes the first prepared response of its kind, and
/// gives an empty response where there is none.
#[derive(Debug)]
pub struct TestSnapClient {
    /// Mock account range responses.
    account_responses: Vec<AccountRangeMessage>,
    /// Mock storage range responses.
    storage_responses: Vec<StorageRangesMessage>,
    /// Mock bytecode responses.
    bytecode_responses: Vec<ByteCodesMessage>,
    /// Mock trie node responses.
    trie_node_responses: Vec<TrieNodesMessage>,
    /// Request counter.
    request_attempts: u64,
}

/// The model of a [`TestSnapClient`].
#[verifier::ext_equal]
pub struct TestClientState {
    pub account_responses: Seq<AccountRangeView>,
    pub storage_responses: Seq<StorageRangesView>,
    pub bytecode_responses: Seq<ByteCodesView>,
    pub trie_node_responses: Seq<TrieNodesView>,
    pub request_attempts: u64,
}

/// The model of account range responses.
pub open spec fn account_responses_view(responses: Seq<AccountRangeMessage>) -> Seq<
    AccountRangeView,
> {
    responses.map_values(|response: AccountRangeMessage| response@)
}

/// The model of storage range responses.
pub open spec fn storage_responses_view(responses: Seq<StorageRangesMessage>) -> Seq<
    StorageRangesView,
> {
    responses.map_values(|response: StorageRangesMessage| response@)
}

/// The model of bytecode responses.
pub open spec fn bytecode_responses_view(responses: Seq<ByteCodesMessage>) -> Seq<ByteCodesView> {
    responses.map_values(|response: ByteCodesMessage| response@)
}

/// The model of trie node responses.
pub open spec fn trie_node_responses_view(responses: Seq<TrieNodesMessage>) -> Seq<
    TrieNodesView,
> {
    responses.map_values(|response: TrieNodesMessage| response@)
}

impl View for TestSnapClient {
    type V = TestClientState;

    closed spec fn view(&self) -> TestClientState {
        TestClientState {
            account_responses: account_responses_view(self.account_responses@),
            storage_responses: storage_responses_view(self.storage_responses@),
            bytecode_responses: bytecode_responses_view(self.bytecode_responses@),
            trie_node_responses: trie_node_responses_view(self.trie_node_responses@),
            request_attempts: self.request_attempts,
        }
    }
}

impl TestClientState {
    /// The state of a client without responses that was not asked yet.
    pub open spec fn initial() -> TestClientState {
        TestClientState {
            account_responses: Seq::empty(),
            storage_responses: Seq::empty(),
            bytecode_responses: Seq::empty(),
            trie_node_responses: Seq::empty(),
            request_attempts: 0,
        }
    }

    /// The state once a request was counted; after the last number the counter starts again.
    pub open spec fn asked(self) -> TestClientState {
        TestClientState {
            request_attempts: if self.request_attempts == u64::MAX {
                0
            } else {
                (self.request_attempts + 1) as u64
            },
            ..self
        }
    }

    /// The state once a request was answered, and the answer.
    pub open spec fn resolved(self, request: PendingRequest) -> (
        TestClientState,
        SnapResponseView,
    ) {
        match request {
            PendingRequest::AccountRange { request_id } => {
                if self.account_responses.len() > 0 {
                    (
                        TestClientState {
                            account_responses: self.account_responses.skip(1),
                            ..self
                        },
                        SnapResponseView::AccountRange(self.account_responses[0]),
                    )
                } else {
                    (
                        self,
                        SnapResponseView::AccountRange(
                            AccountRangeView {
                                request_id,
                                accounts: Seq::empty(),
                                proof: Seq::empty(),
                            },
                        ),
                    )
                }
            },
            PendingRequest::StorageRanges { request_id } => {
                if self.storage_responses.len() > 0 {
                    (
                        TestClientState {
                            storage_responses: self.storage_responses.skip(1),
                            ..self
                        },
                        SnapResponseView::StorageRanges(self.storage_responses[0]),
                    )
                } else {
                    (
                        self,
                        SnapResponseView::StorageRanges(
                            StorageRangesView {
                                request_id,
                                slots: Seq::empty(),
                                proof: Seq::empty(),
                            },
                        ),
                    )
                }
            },
            PendingRequest::ByteCodes { request_id } => {
                if self.bytecode_responses.len() > 0 {
                    (
                        TestClientState {
                            bytecode_responses: self.bytecode_responses.skip(1),
                            ..self
                        },
                        SnapResponseView::ByteCodes(self.bytecode_responses[0]),
                    )
                } else {
                    (
                        self,
                        SnapResponseView::ByteCodes(
                            ByteCodesView { request_id, codes: Seq::empty() },
                        ),
                    )
                }
            },
            PendingRequest::TrieNodes { request_id } => {
                if self.trie_node_responses.len() > 0 {
                    (
                        TestClientState {
                            trie_node_responses: self.trie_node_responses.skip(1),
                            ..self
                        },
                        SnapResponseView::TrieNodes(self.trie_node_responses[0]),
                    )
                } else {
                    (
                        self,
                        SnapResponseView::TrieNodes(
                            TrieNodesView { request_id, nodes: Seq::empty() },
                        ),
                    )
                }
            },
        }
    }
}

impl Default for TestSnapClient {
    fn default() -> (r: TestSnapClient)
        ensures
            r@ == TestClientState::initial(),
    {
        let r = TestSnapClient {
            account_responses: Vec::new(),
            storage_responses: Vec::new(),
            bytecode_responses: Vec::new(),
            trie_node_responses: Vec::new(),
            request_attempts: 0,
        };
        assert(r@ =~= TestClientState::initial());
        r
    }
}

impl TestSnapClient {
    /// The number of requests that were made.
    pub fn request_attempts(&self) -> (r: u64)
        ensures
            r == self@.request_attempts,
    {
        self.request_attempts
    }

    /// Adds account range responses to the set.
    pub fn extend_account_ranges(&mut self, responses: Vec<AccountRangeMessage>)
        ensures
            final(self)@ == (TestClientState {
                account_responses: old(self)@.account_responses + account_responses_view(
                    responses@,
                ),
                ..old(self)@
            }),
    {
        let ghost added = responses@;
        let mut responses = responses;
        self.account_responses.append(&mut responses);
        assert(self@.account_responses =~= old(self)@.account_responses + account_responses_view(
            added,
        ));
    }

    /// Adds storage range responses to the set.
    pub fn extend_storage_ranges(&mut self, responses: Vec<StorageRangesMessage>)
        ensures
            final(self)@ == (TestClientState {
                storage_responses: old(self)@.storage_responses + storage_responses_view(
                    responses@,
                ),
                ..old(self)@
            }),
    {
        let ghost added = responses@;
        let mut responses = responses;
        self.storage_responses.append(&mut responses);
        assert(self@.storage_responses =~= old(self)@.storage_responses + storage_responses_view(
            added,
        ));
    }

    /// Adds bytecode responses to the set.
    pub fn extend_bytecodes(&mut self, responses: Vec<ByteCodesMessage>)
        ensures
            final(self)@ == (TestClientState {
                bytecode_responses: old(self)@.bytecode_responses + bytecode_responses_view(
                    responses@,
                ),
                ..old(self)@
            }),
    {
        let ghost added = responses@;
        let mut responses = responses;
        self.bytecode_responses.append(&mut responses);
        assert(self@.bytecode_responses =~= old(self)@.bytecode_responses
            + bytecode_responses_view(added));
    }

    /// Adds trie node responses to the set.
    pub fn extend_trie_nodes(&mut self, responses: Vec<TrieNodesMessage>)
        ensures
            final(self)@ == (TestClientState {
                trie_node_responses: old(self)@.trie_node_responses + trie_node_responses_view(
                    responses@,
                ),
                ..old(self)@
            }),
    {
        let ghost added = responses@;
        let mut responses = responses;
        self.trie_node_responses.append(&mut responses);
        assert(self@.trie_node_responses =~= old(self)@.trie_node_responses
            + trie_node_responses_view(added));
    }

    /// Clears all responses.
    pub fn clear(&mut self)
        ensures
            final(self)@ == (TestClientState {
                request_attempts: old(self)@.request_attempts,
                ..TestClientState::initial()
            }),
    {
        self.account_responses.clear();
        self.storage_responses.clear();
        self.bytecode_responses.clear();
        self.trie_node_responses.clear();
        assert(self@ =~= TestClientState {
            request_attempts: old(self)@.request_attempts,
            ..TestClientState::initial()
        });
    }

    /// The number of peers that the client pretends to be connected to.
    pub fn num_connected_peers(&self) -> (r: usize)
        ensures
            r == 10,
    {
        10
    }

    /// Counts a request.
    fn count_attempt(&mut self)
        ensures
            final(self)@ == old(self)@.asked(),
    {
        self.request_attempts = self.request_attempts.wrapping_add(1);
    }

    /// Asks for an account range.
    pub fn get_account_range(&mut self, request: &GetAccountRangeMessage) -> (r: PendingRequest)
        ensures
            final(self)@ == old(self)@.asked(),
            r == (PendingRequest::AccountRange { request_id: request.request_id }),
    {
        self.get_account_range_with_priority(request, Priority::Normal)
    }

    /// Asks for storage ranges.
    pub fn get_storage_ranges(&mut self, request: &GetStorageRangesMessage) -> (r: PendingRequest)
        ensures
            final(self)@ == old(self)@.asked(),
            r == (PendingRequest::StorageRanges { request_id: request.request_id }),
    {
        self.get_storage_ranges_with_priority(request, Priority::Normal)
    }

    /// Asks for bytecode.
    pub fn get_byte_codes(&mut self, request: &GetByteCodesMessage) -> (r: PendingRequest)
        ensures
            final(self)@ == old(self)@.asked(),
            r == (PendingRequest::ByteCodes { request_id: request.request_id }),
    {
        self.get_byte_codes_with_priority(request, Priority::Normal)
    }

    /// Asks for trie nodes.
    pub fn get_trie_nodes(&mut self, request: &GetTrieNodesMessage) -> (r: PendingRequest)
        ensures
            final(self)@ == old(self)@.asked(),
            r == (PendingRequest::TrieNodes { request_id: request.request_id }),
    {
        self.get_trie_nodes_with_priority(request, Priority::Normal)
    }

    /// Asks for an account range, with a priority that makes no difference.
    pub fn get_account_range_with_priority(
        &mut self,
        request: &GetAccountRangeMessage,
        _priority: Priority,
    ) -> (r: PendingRequest)
        ensures
            final(self)@ == old(self)@.asked(),
            r == (PendingRequest::AccountRange { request_id: request.request_id }),
    {
        self.count_attempt();
        PendingRequest::AccountRange { request_id: request.request_id }
    }

    /// Asks for storage ranges, with a priority that makes no difference.
    pub fn get_storage_ranges_with_priority(
        &mut self,
        request: &GetStorageRangesMessage,
        _priority: Priority,
    ) -> (r: PendingRequest)
        ensures
            final(self)@ == old(self)@.asked(),
            r == (PendingRequest::StorageRanges { request_id: request.request_id }),
    {
        self.count_attempt();
        PendingRequest::StorageRanges { request_id: request.request_id }
    }

    /// Asks for bytecode, with a priority that makes no difference.
    pub fn get_byte_codes_with_priority(
        &mut self,
        request: &GetByteCodesMessage,
        _priority: Priority,
    ) -> (r: PendingRequest)
        ensures
            final(self)@ == old(self)@.asked(),
            r == (PendingRequest::ByteCodes { request_id: request.request_id }),
    {
        self.count_attempt();
        PendingRequest::ByteCodes { request_id: request.request_id }
    }

    /// Asks for trie nodes, with a priority that makes no difference.
    pub fn get_trie_nodes_with_priority(
        &mut self,
        request: &GetTrieNodesMessage,
        _priority: Priority,
    ) -> (r: PendingRequest)
        ensures
            final(self)@ == old(self)@.asked(),
            r == (PendingRequest::TrieNodes { request_id: request.request_id }),
    {
        self.count_attempt();
        PendingRequest::TrieNodes { request_id: request.request_id }
    }

    /// Answers a request, in the name of the peer whose name is all zeros.
    pub fn resolve(&mut self, request: PendingRequest) -> (r: WithPeerId)
        ensures
            (final(self)@, r.response@) == old(self)@.resolved(request),
            r.peer_id.0@ == Seq::new(64, |i: int| 0u8),
    {
        let response = match request {
            PendingRequest::AccountRange { request_id } => {
                let message = if self.account_responses.len() > 0 {
                    self.account_responses.remove(0)
                } else {
                    AccountRangeMessage { request_id, accounts: Vec::new(), proof: Vec::new() }
                };
                SnapResponse::AccountRange(message)
            },
            PendingRequest::StorageRanges { request_id } => {
                let message = if self.storage_responses.len() > 0 {
                    self.storage_responses.remove(0)
                } else {
                    StorageRangesMessage { request_id, slots: Vec::new(), proof: Vec::new() }
                };
                SnapResponse::StorageRanges(message)
            },
            PendingRequest::ByteCodes { request_id } => {
                let message = if self.bytecode_responses.len() > 0 {
                    self.bytecode_responses.remove(0)
                } else {
                    ByteCodesMessage { request_id, codes: Vec::new() }
                };
                SnapResponse::ByteCodes(message)
            },
            PendingRequest::TrieNodes { request_id } => {
                let message = if self.trie_node_responses.len() > 0 {
                    self.trie_node_responses.remove(0)
                } else {
                    TrieNodesMessage { request_id, nodes: Vec::new() }
                };
                SnapResponse::TrieNodes(message)
            },
        };
        assert(self@ =~= old(self)@.resolved(request).0);
        assert(response@ =~= old(self)@.resolved(request).1);
        let r = WithPeerId { peer_id: PeerId([0; 64]), response };
        assert(r.peer_id.0@ =~= Seq::new(64, |i: int| 0u8));
        r
    }
}

/// The requests are of the same kind.
pub open spec fn same_kind(a: PendingRequest, b: PendingRequest) -> bool {
    match a {
        PendingRequest::AccountRange { .. } => b is AccountRange,
        PendingRequest::StorageRanges { .. } => b is StorageRanges,
        PendingRequest::ByteCodes { .. } => b is ByteCodes,
        PendingRequest::TrieNodes { .. } => b is TrieNodes,
    }
}

/// How many of the requests are of the kind of the given one.
pub open spec fn of_kind(requests: Seq<PendingRequest>, request: PendingRequest) -> nat
    decreases requests.len(),
{
    if requests.len() == 0 {
        0
    } else {
        of_kind(requests.drop_last(), request) + if same_kind(requests.last(), request) {
            1nat
        } else {
            0
        }
    }
}

/// The prepared response at a position, of the kind that the request asks for; after the last,
/// an empty response with the number of the request.
pub open spec fn prepared(
    client: TestClientState,
    request: PendingRequest,
    n: nat,
) -> SnapResponseView {
    match request {
        PendingRequest::AccountRange { request_id } => SnapResponseView::AccountRange(
            if n < client.account_responses.len() {
                client.account_responses[n as int]
            } else {
                AccountRangeView { request_id, accounts: Seq::empty(), proof: Seq::empty() }
            },
        ),
        PendingRequest::StorageRanges { request_id } => SnapResponseView::StorageRanges(
            if n < client.storage_responses.len() {
                client.storage_responses[n as int]
            } else {
                StorageRangesView { request_id, slots: Seq::empty(), proof: Seq::empty() }
            },
        ),
        PendingRequest::ByteCodes { request_id } => SnapResponseView::ByteCodes(
            if n < client.bytecode_responses.len() {
                client.bytecode_responses[n as int]
            } else {
                ByteCodesView { request_id, codes: Seq::empty() }
            },
        ),
        PendingRequest::TrieNodes { request_id } => SnapResponseView::TrieNodes(
            if n < client.trie_node_responses.len() {
                client.trie_node_responses[n as int]
            } else {
                TrieNodesView { request_id, nodes: Seq::empty() }
            },
        ),
    }
}

/// The client after requests were answered one after the other, and the answers.
pub open spec fn answers(client: TestClientState, requests: Seq<PendingRequest>) -> (
    TestClientState,
    Seq<SnapResponseView>,
)
    decreases requests.len(),
{
    if requests.len() == 0 {
        (client, Seq::empty())
    } else {
        let (before, given) = answers(client, requests.drop_last());
        let (after, answer) = before.resolved(requests.last());
        (after, given.push(answer))
    }
}

/// The prepared responses of each kind are given out in the order in which they were added,
/// whatever was asked in between; after the last, every answer is an empty response with the
/// number of its request.
pub proof fn law_responses_come_in_order(
    client: TestClientState,
    requests: Seq<PendingRequest>,
    i: int,
)
    requires
        0 <= i < requests.len(),
    ensures
        answers(client, requests).1.len() == requests.len(),
        answers(client, requests).1[i] == prepared(
            client,
            requests[i],
            of_kind(requests.take(i), requests[i]),
        ),
    decreases requests.len(),
{
    let front = requests.drop_last();
    lemma_one_answer_each(client, front);
    if i < front.len() {
        law_responses_come_in_order(client, front, i);
        assert(front.take(i) =~= requests.take(i));
    } else {
        assert(front =~= requests.take(i));
        lemma_responses_left(client, front, requests[i], 0);
    }
}

/// Every request gets one answer.
proof fn lemma_one_answer_each(client: TestClientState, requests: Seq<PendingRequest>)
    ensures
        answers(client, requests).1.len() == requests.len(),
    decreases requests.len(),
{
    if requests.len() > 0 {
        lemma_one_answer_each(client, requests.drop_last());
    }
}

/// Answered requests have used up as many prepared responses of each kind.
proof fn lemma_responses_left(
    client: TestClientState,
    requests: Seq<PendingRequest>,
    request: PendingRequest,
    n: nat,
)
    ensures
        prepared(answers(client, requests).0, request, n) == prepared(
            client,
            request,
            n + of_kind(requests, request),
        ),
    decreases requests.len(),
{
    if requests.len() > 0 {
        let m = if same_kind(requests.last(), request) {
            n + 1
        } else {
            n
        };
        lemma_responses_left(client, requests.drop_last(), request, m);
    }
}

/// Answering a request changes no response of another kind, and counts nothing.
pub proof fn law_kinds_are_apart(client: TestClientState, request: PendingRequest)
    ensures
        ({
            let after = client.resolved(request).0;
            &&& after.request_attempts == client.request_attempts
            &&& !(request is AccountRange) ==> after.account_responses
                == client.account_responses
            &&& !(request is StorageRanges) ==> after.storage_responses
                == client.storage_responses
            &&& !(request is ByteCodes) ==> after.bytecode_responses == client.bytecode_responses
            &&& !(request is TrieNodes) ==> after.trie_node_responses
                == client.trie_node_responses
        }),
{
}

/// Asking counts one more request, from the last number on to the first, and takes no response.
pub proof fn law_asking_counts(client: TestClientState)
    ensures
        client.asked() == (TestClientState {
            request_attempts: ((client.request_attempts + 1) % 0x1_0000_0000_0000_0000) as u64,
            ..client
        }),
{
}

/// A new client has no responses, and was not asked.
pub proof fn law_new_client_is_empty()
    ensures
        ({
            let client = TestClientState::initial();
            &&& client.account_responses.len() == 0
            &&& client.storage_responses.len() == 0
            &&& client.bytecode_responses.len() == 0
            &&& client.trie_node_responses.len() == 0
            &&& client.request_attempts == 0
        }),
{
}

/// Responses are shown one by one, in order.
pub proof fn law_responses_are_shown(
    accounts: Seq<AccountRangeMessage>,
    storage: Seq<StorageRangesMessage>,
    codes: Seq<ByteCodesMessage>,
    nodes: Seq<TrieNodesMessage>,
)
    ensures
        account_responses_view(accounts).len() == accounts.len(),
        forall|i: int|
            0 <= i < accounts.len() ==> #[trigger] account_responses_view(accounts)[i]
                == accounts[i]@,
        storage_responses_view(storage).len() == storage.len(),
        forall|i: int|
            0 <= i < storage.len() ==> #[trigger] storage_responses_view(storage)[i]
                == storage[i]@,
        bytecode_responses_view(codes).len() == codes.len(),
        forall|i: int|
            0 <= i < codes.len() ==> #[trigger] bytecode_responses_view(codes)[i] == codes[i]@,
        trie_node_responses_view(nodes).len() == nodes.len(),
        forall|i: int|
            0 <= i < nodes.len() ==> #[trigger] trie_node_responses_view(nodes)[i] == nodes[i]@,
{
}

} // verus!
