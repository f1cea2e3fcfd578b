//! The pipeline stage that takes what a snap downloader hands on, to be written.

use crate::batch::{storage_batch_view, SnapBatch, SnapBatchView};
use crate::downloader::SnapDownloader;
use crate::error::{DownloadError, DownloadResult, RequestError};
use crate::model::{DownloaderState, DEFAULT_MAX_CONCURRENT_REQUESTS};
use crate::primitives::{B256, U256};
use vstd::prelude::*;

verus! {

/// Names a stage of the pipeline.
#[derive(Clone, Copy, Debug, PartialEq, Eq, Structural)]
pub enum StageId {
    /// The snap synchronisation.
    SnapSync,
}

/// Progress of a stage, in entities.
#[derive(Clone, Copy, Debug, PartialEq, Eq, Structural)]
pub struct EntitiesCheckpoint {
    /// Number of entities already processed.
    pub processed: u64,
    /// Total entities to be processed.
    pub total: u64,
}

/// Progress of a stage in units of its own.
#[derive(Clone, Copy, Debug, PartialEq, Eq, Structural)]
pub enum StageUnitCheckpoint {
    /// Progress in entities.
    Entities(EntitiesCheckpoint),
}

/// Progress of a stage.
#[derive(Clone, Copy, Debug, PartialEq, Eq, Structural)]
pub struct StageCheckpoint {
    /// The last block that the stage has processed.
    pub block_number: u64,
    /// Progress in units of the stage, where it has such.
    pub stage_checkpoint: Option<StageUnitCheckpoint>,
}

/// What a stage is to execute.
#[derive(Clone, Copy, Debug, PartialEq, Eq, Structural)]
pub struct ExecInput {
    /// The block that the stage is to reach; the first, where none is given.
    pub target: Option<u64>,
    /// The progress of the stage; none, where none is given.
    pub checkpoint: Option<StageCheckpoint>,
}

/// What a stage executed.
#[derive(Clone, Copy, Debug, PartialEq, Eq, Structural)]
pub struct ExecOutput {
    /// The progress of the stage.
    pub checkpoint: StageCheckpoint,
    /// Whether the stage is done.
    pub done: bool,
}

/// What executing a stage gave.
#[derive(Debug)]
pub struct Execution {
    /// What the stage executed.
    pub output: ExecOutput,
    /// The batch that is to be written, where there is one.
    pub batch: Option<SnapBatch>,
}

/// What a stage is to unwind.
#[derive(Clone, Copy, Debug, PartialEq, Eq, Structural)]
pub struct UnwindInput {
    /// The progress of the stage.
    pub checkpoint: StageCheckpoint,
    /// The block to unwind to.
    pub unwind_to: u64,
    /// The block that made the unwind necessary, where there is one.
    pub bad_block: Option<u64>,
}

/// What a stage unwound.
#[derive(Clone, Copy, Debug, PartialEq, Eq, Structural)]
pub struct UnwindOutput {
    /// The progress of the stage.
    pub checkpoint: StageCheckpoint,
}

/// Why a stage cannot go on.
#[derive(Clone, Copy, Debug, PartialEq, Eq, Structural)]
pub enum FatalReason {
    /// The downloader is gone.
    DownloaderTaken,
    /// The downloader failed.
    Downloader(DownloadError),
    /// The stage was executed before it was ready.
    NotReady,
}

/// Why a stage failed.
#[derive(Clone, Copy, Debug, PartialEq, Eq, Structural)]
pub enum StageError {
    /// The stage cannot go on.
    Fatal(FatalReason),
}

/// What polling the downloader gave.
#[derive(Debug)]
pub enum DownloaderPoll {
    /// Nothing yet.
    Pending,
    /// The next item.
    Item(DownloadResult<SnapBatch>),
    /// The end.
    Ended,
}

/// Whether a stage is ready to execute.
#[derive(Clone, Copy, Debug, PartialEq, Eq)]
pub enum Readiness {
    /// It is ready, or it failed.
    Ready(Result<(), StageError>),
    /// That depends on what polling the downloader gives.
    PollDownloader,
}

/// The snap sync stage.
///
/// The stage takes the batches of the downloader and gives them out to be written, while the
/// downloader does the heavy lifting.
#[derive(Debug)]
pub struct SnapSyncStage<D> {
    /// The snap downloader.
    downloader: Option<D>,
    /// Buffered batch ready to be written.
    buffer: Option<SnapBatch>,
    /// Total accounts processed for progress tracking.
    total_accounts_processed: u64,
    /// Total storage slots processed for progress tracking.
    total_storage_slots_processed: u64,
    /// Total bytecodes processed for progress tracking.
    total_bytecodes_processed: u64,
}

/// The model of a [`DownloaderPoll`].
#[verifier::ext_equal]
pub enum DownloaderPollView {
    Pending,
    Item(DownloadResult<SnapBatchView>),
    Ended,
}

/// The model of a batch that may be missing.
pub open spec fn batch_view(batch: Option<SnapBatch>) -> Option<SnapBatchView> {
    match batch {
        Some(batch) => Some(batch@),
        None => None,
    }
}

impl View for DownloaderPoll {
    type V = DownloaderPollView;

    open spec fn view(&self) -> DownloaderPollView {
        match self {
            DownloaderPoll::Pending => DownloaderPollView::Pending,
            DownloaderPoll::Item(Ok(batch)) => DownloaderPollView::Item(Ok(batch@)),
            DownloaderPoll::Item(Err(error)) => DownloaderPollView::Item(Err(*error)),
            DownloaderPoll::Ended => DownloaderPollView::Ended,
        }
    }
}

/// The model of a [`SnapSyncStage`].
#[verifier::ext_equal]
pub struct StageState<D> {
    pub downloader: Option<D>,
    pub buffer: Option<SnapBatchView>,
    pub accounts: u64,
    pub slots: u64,
    pub bytecodes: u64,
}

impl<D> View for SnapSyncStage<D> {
    type V = StageState<D>;

    closed spec fn view(&self) -> StageState<D> {
        StageState {
            downloader: self.downloader,
            buffer: batch_view(self.buffer),
            accounts: self.total_accounts_processed,
            slots: self.total_storage_slots_processed,
            bytecodes: self.total_bytecodes_processed,
        }
    }
}

/// The number of slots in the storage data of a batch.
pub open spec fn slots_in(storage: Seq<(B256, B256, Seq<(B256, U256)>)>) -> nat
    decreases storage.len(),
{
    if storage.len() == 0 {
        0
    } else {
        slots_in(storage.drop_last()) + storage.last().2.len()
    }
}

/// A checkpoint at a block, at which all of a number of entities are processed.
pub open spec fn entities_at(block_number: u64, entities: u64) -> StageCheckpoint {
    StageCheckpoint {
        block_number,
        stage_checkpoint: Some(
            StageUnitCheckpoint::Entities(
                EntitiesCheckpoint { processed: entities, total: entities },
            ),
        ),
    }
}

impl StageCheckpoint {
    /// A checkpoint at a block.
    pub fn new(block_number: u64) -> (r: StageCheckpoint)
        ensures
            r == (StageCheckpoint { block_number, stage_checkpoint: None }),
    {
        StageCheckpoint { block_number, stage_checkpoint: None }
    }

    /// The checkpoint with the given progress in entities.
    pub fn with_entities_stage_checkpoint(self, checkpoint: EntitiesCheckpoint) -> (r:
        StageCheckpoint)
        ensures
            r == (StageCheckpoint {
                stage_checkpoint: Some(StageUnitCheckpoint::Entities(checkpoint)),
                ..self
            }),
    {
        StageCheckpoint {
            stage_checkpoint: Some(StageUnitCheckpoint::Entities(checkpoint)),
            ..self
        }
    }
}

impl ExecInput {
    /// The block that the stage is to reach.
    pub open spec fn target_block(self) -> u64 {
        match self.target {
            Some(target) => target,
            None => 0,
        }
    }

    /// The progress that the stage starts from.
    pub open spec fn progress(self) -> StageCheckpoint {
        match self.checkpoint {
            Some(checkpoint) => checkpoint,
            None => StageCheckpoint { block_number: 0, stage_checkpoint: None },
        }
    }

    /// The stage has reached its target.
    pub open spec fn reached(self) -> bool {
        self.progress().block_number >= self.target_block()
    }

    /// The block that the stage is to reach.
    pub fn target(&self) -> (r: u64)
        ensures
            r == self.target_block(),
    {
        match self.target {
            Some(target) => target,
            None => 0,
        }
    }

    /// The progress that the stage starts from.
    pub fn checkpoint(&self) -> (r: StageCheckpoint)
        ensures
            r == self.progress(),
    {
        match self.checkpoint {
            Some(checkpoint) => checkpoint,
            None => StageCheckpoint::new(0),
        }
    }

    /// Whether the stage has reached its target.
    pub fn target_reached(&self) -> (r: bool)
        ensures
            r == self.reached(),
    {
        self.checkpoint().block_number >= self.target()
    }
}

impl ExecOutput {
    /// The output of a stage that is done.
    pub fn done(checkpoint: StageCheckpoint) -> (r: ExecOutput)
        ensures
            r == (ExecOutput { checkpoint, done: true }),
    {
        ExecOutput { checkpoint, done: true }
    }
}

impl FatalReason {
    /// The words for the reason.
    pub open spec fn words(self) -> Seq<char> {
        match self {
            FatalReason::DownloaderTaken => "Downloader was taken"@,
            FatalReason::NotReady => "execute() called before poll_execute_ready finished"@,
            FatalReason::Downloader(DownloadError::RequestError(error)) => match error {
                RequestError::ChannelClosed => "Downloader error: RequestError(ChannelClosed)"@,
                RequestError::ConnectionDropped => {
                    "Downloader error: RequestError(ConnectionDropped)"@
                },
                RequestError::UnsupportedCapability => {
                    "Downloader error: RequestError(UnsupportedCapability)"@
                },
                RequestError::Timeout => "Downloader error: RequestError(Timeout)"@,
                RequestError::BadResponse => "Downloader error: RequestError(BadResponse)"@,
            },
        }
    }

    /// The words for the reason.
    pub fn message(&self) -> (r: String)
        ensures
            r@ == self.words(),
    {
        let words = match self {
            FatalReason::DownloaderTaken => "Downloader was taken",
            FatalReason::NotReady => "execute() called before poll_execute_ready finished",
            FatalReason::Downloader(DownloadError::RequestError(error)) => match error {
                RequestError::ChannelClosed => "Downloader error: RequestError(ChannelClosed)",
                RequestError::ConnectionDropped => {
                    "Downloader error: RequestError(ConnectionDropped)"
                },
                RequestError::UnsupportedCapability => {
                    "Downloader error: RequestError(UnsupportedCapability)"
                },
                RequestError::Timeout => "Downloader error: RequestError(Timeout)",
                RequestError::BadResponse => "Downloader error: RequestError(BadResponse)",
            },
        };
        words.to_string()
    }
}

impl<D> StageState<D> {
    /// The state of a stage that has not begun.
    pub open spec fn initial(downloader: D) -> StageState<D> {
        StageState {
            downloader: Some(downloader),
            buffer: None,
            accounts: 0,
            slots: 0,
            bytecodes: 0,
        }
    }

    /// Whether the stage is ready: with a batch in the buffer or its target reached it is,
    /// without a downloader it cannot go on, and otherwise the downloader decides.
    pub open spec fn readiness(self, input: ExecInput) -> Readiness {
        if self.buffer is Some || input.reached() {
            Readiness::Ready(Ok(()))
        } else if self.downloader is None {
            Readiness::Ready(Err(StageError::Fatal(FatalReason::DownloaderTaken)))
        } else {
            Readiness::PollDownloader
        }
    }

    /// The state once the downloader was polled, and whether the stage is then ready: a batch is
    /// buffered, an error is fatal, and at the end the downloader is let go.
    pub open spec fn polled(self, polled: DownloaderPollView) -> (
        StageState<D>,
        Option<Result<(), StageError>>,
    ) {
        match polled {
            DownloaderPollView::Pending => (self, None),
            DownloaderPollView::Item(Ok(batch)) => (
                StageState { buffer: Some(batch), ..self },
                Some(Ok(())),
            ),
            DownloaderPollView::Item(Err(error)) => (
                self,
                Some(Err(StageError::Fatal(FatalReason::Downloader(error)))),
            ),
            DownloaderPollView::Ended => (StageState { downloader: None, ..self }, Some(Ok(()))),
        }
    }

    /// The batch that executing the stage gives out to be written: the buffered one, on the way
    /// to the target.
    pub open spec fn to_write(self, input: ExecInput) -> Option<SnapBatchView> {
        if input.reached() {
            None
        } else {
            self.buffer
        }
    }

    /// The state once the stage was unwound: the counters start again.
    pub open spec fn unwound(self) -> StageState<D> {
        StageState { accounts: 0, slots: 0, bytecodes: 0, ..self }
    }

    /// The counters can count the batch that would be executed.
    pub open spec fn counters_fit(self, input: ExecInput) -> bool {
        input.reached() || match self.buffer {
            None => true,
            Some(SnapBatchView::Accounts { accounts, .. }) => self.accounts + accounts.len()
                <= u64::MAX,
            Some(SnapBatchView::Storage { storage, .. }) => self.slots + slots_in(storage)
                <= u64::MAX,
            Some(SnapBatchView::Bytecode { codes }) => self.bytecodes + codes.len() <= u64::MAX,
        }
    }

    /// The state once the stage was executed, and what it gave.
    ///
    /// At its target the stage is done where it stands. Once the downloader has ended and
    /// nothing is buffered the stage is done at its target. Otherwise the buffered batch is
    /// counted; only a last batch of accounts can make the stage done.
    pub open spec fn executed(self, input: ExecInput) -> (
        StageState<D>,
        Result<ExecOutput, StageError>,
    ) {
        let target = input.target_block();
        if input.reached() {
            (self, Ok(ExecOutput { checkpoint: input.progress(), done: true }))
        } else if self.downloader is None && self.buffer is None {
            (self, Ok(ExecOutput { checkpoint: entities_at(target, self.accounts), done: true }))
        } else {
            match self.buffer {
                None => (self, Err(StageError::Fatal(FatalReason::NotReady))),
                Some(SnapBatchView::Accounts { accounts, has_more }) => {
                    let total = (self.accounts + accounts.len()) as u64;
                    (
                        StageState { buffer: None, accounts: total, ..self },
                        Ok(
                            ExecOutput {
                                checkpoint: entities_at(target, total),
                                done: !has_more && self.downloader is None,
                            },
                        ),
                    )
                },
                Some(SnapBatchView::Storage { storage, .. }) => {
                    let total = (self.slots + slots_in(storage)) as u64;
                    (
                        StageState { buffer: None, slots: total, ..self },
                        Ok(ExecOutput { checkpoint: entities_at(target, total), done: false }),
                    )
                },
                Some(SnapBatchView::Bytecode { codes }) => {
                    let total = (self.bytecodes + codes.len()) as u64;
                    (
                        StageState { buffer: None, bytecodes: total, ..self },
                        Ok(ExecOutput { checkpoint: entities_at(target, total), done: false }),
                    )
                },
            }
        }
    }
}

impl<D> SnapSyncStage<D> {
    /// Creates a new snap sync stage with the given downloader.
    pub fn new(downloader: D) -> (r: SnapSyncStage<D>)
        ensures
            r@ == StageState::initial(downloader),
    {
        SnapSyncStage {
            downloader: Some(downloader),
            buffer: None,
            total_accounts_processed: 0,
            total_storage_slots_processed: 0,
            total_bytecodes_processed: 0,
        }
    }

    /// The name of the stage.
    pub fn id(&self) -> (r: StageId)
        ensures
            r == StageId::SnapSync,
    {
        StageId::SnapSync
    }

    /// The downloader, to be polled.
    pub fn downloader_mut(&mut self) -> (r: Option<&mut D>)
        ensures
            match r {
                Some(downloader) => old(self)@.downloader == Some(*downloader) && final(self)@ == (
                StageState { downloader: Some(*final(downloader)), ..old(self)@ }),
                None => old(self)@.downloader is None && final(self)@ == old(self)@,
            },
    {
        match &mut self.downloader {
            Some(downloader) => Some(downloader),
            None => None,
        }
    }

    /// Whether the stage is ready to execute, as far as that can be said without polling the
    /// downloader.
    pub fn poll_execute_ready(&self, input: &ExecInput) -> (r: Readiness)
        ensures
            r == self@.readiness(*input),
    {
        if self.buffer.is_some() {
            return Readiness::Ready(Ok(()));
        }
        if input.target_reached() {
            return Readiness::Ready(Ok(()));
        }
        if self.downloader.is_none() {
            return Readiness::Ready(Err(StageError::Fatal(FatalReason::DownloaderTaken)));
        }
        Readiness::PollDownloader
    }

    /// Takes in what polling the downloader gave; the stage is not ready where that is nothing
    /// yet.
    pub fn downloader_polled(&mut self, polled: DownloaderPoll) -> (r: Option<
        Result<(), StageError>,
    >)
        ensures
            (final(self)@, r) == old(self)@.polled(polled@),
    {
        match polled {
            DownloaderPoll::Pending => None,
            DownloaderPoll::Item(Ok(batch)) => {
                self.buffer = Some(batch);
                Some(Ok(()))
            },
            DownloaderPoll::Item(Err(error)) => Some(
                Err(StageError::Fatal(FatalReason::Downloader(error))),
            ),
            DownloaderPoll::Ended => {
                self.downloader = None;
                Some(Ok(()))
            },
        }
    }

    /// Whether the counters can count the batch that would be executed.
    pub fn can_execute(&self, input: &ExecInput) -> (r: bool)
        ensures
            r == self@.counters_fit(*input),
    {
        if input.target_reached() {
            return true;
        }
        match &self.buffer {
            None => true,
            Some(SnapBatch::Accounts { accounts, .. }) => accounts.len() as u64 <= u64::MAX
                - self.total_accounts_processed,
            Some(SnapBatch::Storage { storage, .. }) => match count_slots(storage) {
                Some(slots) => slots <= u64::MAX - self.total_storage_slots_processed,
                None => false,
            },
            Some(SnapBatch::Bytecode { codes }) => codes.len() as u64 <= u64::MAX
                - self.total_bytecodes_processed,
        }
    }

    /// Executes the stage: gives the buffered batch out to be written, counts it, and says how far
    /// the stage is.
    pub fn execute(&mut self, input: &ExecInput) -> (r: Result<Execution, StageError>)
        requires
            old(self)@.counters_fit(*input),
        ensures
            ({
                let (state, result) = old(self)@.executed(*input);
                &&& final(self)@ == state
                &&& match r {
                    Ok(execution) => {
                        &&& result == Ok::<ExecOutput, StageError>(execution.output)
                        &&& batch_view(execution.batch) == old(self)@.to_write(*input)
                    },
                    Err(error) => result == Err::<ExecOutput, StageError>(error),
                }
            }),
    {
        if input.target_reached() {
            return Ok(Execution { output: ExecOutput::done(input.checkpoint()), batch: None });
        }
        let target = input.target();
        if self.downloader.is_none() && self.buffer.is_none() {
            let checkpoint = StageCheckpoint::new(target).with_entities_stage_checkpoint(
                EntitiesCheckpoint {
                    processed: self.total_accounts_processed,
                    total: self.total_accounts_processed,
                },
            );
            return Ok(Execution { output: ExecOutput::done(checkpoint), batch: None });
        }
        let batch = match self.buffer.take() {
            Some(batch) => batch,
            None => return Err(StageError::Fatal(FatalReason::NotReady)),
        };
        let (total, done) = match &batch {
            SnapBatch::Accounts { accounts, has_more } => {
                self.total_accounts_processed += accounts.len() as u64;
                (self.total_accounts_processed, !*has_more && self.downloader.is_none())
            },
            SnapBatch::Storage { storage, .. } => {
                let slots = match count_slots(storage) {
                    Some(slots) => slots,
                    None => 0,
                };
                self.total_storage_slots_processed += slots;
                (self.total_storage_slots_processed, false)
            },
            SnapBatch::Bytecode { codes } => {
                self.total_bytecodes_processed += codes.len() as u64;
                (self.total_bytecodes_processed, false)
            },
        };
        let checkpoint = StageCheckpoint::new(target).with_entities_stage_checkpoint(
            EntitiesCheckpoint { processed: total, total },
        );
        Ok(Execution { output: ExecOutput { checkpoint, done }, batch: Some(batch) })
    }

    /// Unwinds the stage: the counters start again.
    pub fn unwind(&mut self, input: &UnwindInput) -> (r: Result<UnwindOutput, StageError>)
        ensures
            final(self)@ == old(self)@.unwound(),
            r == Ok::<UnwindOutput, StageError>(
                UnwindOutput {
                    checkpoint: StageCheckpoint {
                        block_number: input.unwind_to,
                        stage_checkpoint: None,
                    },
                },
            ),
    {
        self.total_accounts_processed = 0;
        self.total_storage_slots_processed = 0;
        self.total_bytecodes_processed = 0;
        Ok(UnwindOutput { checkpoint: StageCheckpoint::new(input.unwind_to) })
    }
}

/// Counts the slots in the storage data of a batch; there is no count where it does not fit.
fn count_slots(storage: &Vec<(B256, B256, Vec<(B256, U256)>)>) -> (r: Option<u64>)
    ensures
        match r {
            Some(slots) => slots == slots_in(storage_batch_view(storage@)),
            None => slots_in(storage_batch_view(storage@)) > u64::MAX,
        },
{
    let ghost model = storage_batch_view(storage@);
    let mut slots: u64 = 0;
    let mut i: usize = 0;
    assert(model.take(0) =~= Seq::<(B256, B256, Seq<(B256, U256)>)>::empty());
    while i < storage.len()
        invariant
            i <= storage@.len(),
            model == storage_batch_view(storage@),
            slots == slots_in(model.take(i as int)),
        decreases storage@.len() - i,
    {
        assert(model.take(i + 1).drop_last() =~= model.take(i as int));
        assert(model.take(i + 1).last() == model[i as int]);
        assert(model[i as int].2 == storage@[i as int].2@);
        let n = storage[i].2.len() as u64;
        if n > u64::MAX - slots {
            proof {
                lemma_slots_grow(model, i + 1);
            }
            return None;
        }
        slots += n;
        i += 1;
    }
    assert(model.take(i as int) =~= model);
    Some(slots)
}

/// More storage data has no fewer slots.
proof fn lemma_slots_grow(storage: Seq<(B256, B256, Seq<(B256, U256)>)>, n: int)
    requires
        0 <= n <= storage.len(),
    ensures
        slots_in(storage.take(n)) <= slots_in(storage),
    decreases storage.len() - n,
{
    if n < storage.len() {
        assert(storage.take(n + 1).drop_last() =~= storage.take(n));
        lemma_slots_grow(storage, n + 1);
    } else {
        assert(storage.take(n) =~= storage);
    }
}

impl<D: Default> Default for SnapSyncStage<D> {
    fn default() -> (r: SnapSyncStage<D>)
        ensures
            r@.downloader matches Some(downloader) && r@ == StageState::initial(downloader)
                && call_ensures(D::default, (), downloader),
    {
        SnapSyncStage::new(D::default())
    }
}

/// Creates a snap sync stage over a new downloader.
pub fn create_snap_sync_stage<Client>(client: Client, state_root: B256) -> (r: SnapSyncStage<
    SnapDownloader<Client>,
>)
    ensures
        r@.downloader matches Some(downloader) && r@ == StageState::initial(downloader)
            && downloader@ == DownloaderState::initial(
            DEFAULT_MAX_CONCURRENT_REQUESTS,
            state_root,
            B256::repeated(0),
            B256::repeated(0xff),
        ) && downloader.client_view() == client,
{
    let downloader = SnapDownloader::builder(client, state_root).with_max_concurrent_requests(
        DEFAULT_MAX_CONCURRENT_REQUESTS,
    ).build();
    SnapSyncStage::new(downloader)
}

/// A stage that is ready does not fail when it is executed.
pub proof fn law_ready_stage_executes<D>(s: StageState<D>, input: ExecInput)
    requires
        s.readiness(input) == Readiness::Ready(Ok(())),
    ensures
        s.executed(input).1 is Ok,
{
}

/// A stage whose downloader gave a batch or ended is ready to be executed without failing.
pub proof fn law_polled_stage_executes<D>(
    s: StageState<D>,
    input: ExecInput,
    polled: DownloaderPollView,
)
    requires
        s.readiness(input) == Readiness::PollDownloader,
        s.polled(polled).1 == Some(Ok::<(), StageError>(())),
    ensures
        s.polled(polled).0.executed(input).1 is Ok,
{
}

/// A stage that has a batch has its downloader.
pub open spec fn in_order<D>(s: StageState<D>) -> bool {
    s.buffer is Some ==> s.downloader is Some
}

/// A new stage is in order.
pub proof fn law_new_stage_is_in_order<D>(downloader: D)
    ensures
        in_order(StageState::initial(downloader)),
{
}

/// A stage stays in order: when its downloader is polled as it asks for that, when it is
/// executed, and when it is unwound.
pub proof fn law_stage_stays_in_order<D>(
    s: StageState<D>,
    input: ExecInput,
    polled: DownloaderPollView,
)
    requires
        in_order(s),
    ensures
        s.readiness(input) == Readiness::PollDownloader ==> in_order(s.polled(polled).0),
        in_order(s.executed(input).0),
        in_order(s.unwound()),
{
}

/// Below its target a stage is done exactly when its downloader has ended.
pub proof fn law_stage_is_done_at_the_end<D>(s: StageState<D>, input: ExecInput, output: ExecOutput)
    requires
        in_order(s),
        !input.reached(),
        s.executed(input).1 == Ok::<ExecOutput, StageError>(output),
    ensures
        output.done <==> s.downloader is None,
{
}

/// Every batch is given out to be written once: executing a stage gives the buffered batch out and
/// uses it up, or leaves it where it is.
pub proof fn law_batches_are_given_out_once<D>(s: StageState<D>, input: ExecInput)
    ensures
        ({
            let next = s.executed(input).0;
            ||| s.to_write(input) == s.buffer && next.buffer is None
            ||| s.to_write(input) is None && next.buffer == s.buffer
        }),
{
}

/// Executing a stage on the way to its target uses the buffered batch up and puts it on the
/// counter of its kind, and on no other.
pub proof fn law_execution_counts_the_batch<D>(s: StageState<D>, input: ExecInput)
    requires
        !input.reached(),
        s.counters_fit(input),
        s.buffer is Some,
    ensures
        ({
            let next = s.executed(input).0;
            &&& next.buffer is None
            &&& next.downloader == s.downloader
            &&& next.accounts == s.accounts + match s.buffer->0 {
                SnapBatchView::Accounts { accounts, .. } => accounts.len(),
                _ => 0,
            }
            &&& next.slots == s.slots + match s.buffer->0 {
                SnapBatchView::Storage { storage, .. } => slots_in(storage),
                _ => 0,
            }
            &&& next.bytecodes == s.bytecodes + match s.buffer->0 {
                SnapBatchView::Bytecode { codes } => codes.len(),
                _ => 0,
            }
        }),
{
}

/// A stage that has reached its target is left as it is.
pub proof fn law_reached_stage_is_unchanged<D>(s: StageState<D>, input: ExecInput)
    requires
        input.reached(),
    ensures
        s.executed(input) == (
            s,
            Ok::<ExecOutput, StageError>(ExecOutput { checkpoint: input.progress(), done: true }),
        ),
{
}

/// The target of an input is the block that it names, or the first; its progress is the checkpoint
/// that it names, or none at the first block; and the target is reached where the progress is not
/// before it.
pub proof fn law_inputs_have_defaults(input: ExecInput)
    ensures
        ({
            let target: u64 = match input.target {
                Some(target) => target,
                None => 0,
            };
            let block: u64 = match input.checkpoint {
                Some(checkpoint) => checkpoint.block_number,
                None => 0,
            };
            &&& input.target_block() == target
            &&& input.progress().block_number == block
            &&& match input.checkpoint {
                Some(checkpoint) => input.progress() == checkpoint,
                None => input.progress().stage_checkpoint is None,
            }
            &&& input.reached() <==> block >= target
        }),
{
}

/// The number of accounts in a batch.
pub open spec fn accounts_counted(batch: SnapBatchView) -> nat {
    match batch {
        SnapBatchView::Accounts { accounts, .. } => accounts.len(),
        _ => 0,
    }
}

/// The number of storage slots in a batch.
pub open spec fn slots_counted(batch: SnapBatchView) -> nat {
    match batch {
        SnapBatchView::Storage { storage, .. } => slots_in(storage),
        _ => 0,
    }
}

/// The number of bytecodes in a batch.
pub open spec fn codes_counted(batch: SnapBatchView) -> nat {
    match batch {
        SnapBatchView::Bytecode { codes } => codes.len(),
        _ => 0,
    }
}

/// The slots of storage data are those of its entries taken together.
pub proof fn law_slots_add_up(
    a: Seq<(B256, B256, Seq<(B256, U256)>)>,
    b: Seq<(B256, B256, Seq<(B256, U256)>)>,
    entry: (B256, B256, Seq<(B256, U256)>),
)
    ensures
        slots_in(Seq::empty()) == 0,
        slots_in(seq![entry]) == entry.2.len(),
        slots_in(a + b) == slots_in(a) + slots_in(b),
    decreases b.len(),
{
    assert(seq![entry].drop_last() =~= Seq::<(B256, B256, Seq<(B256, U256)>)>::empty());
    if b.len() == 0 {
        assert(a + b =~= a);
    } else {
        law_slots_add_up(a, b.drop_last(), entry);
        assert((a + b).drop_last() =~= a + b.drop_last());
    }
}

/// The checkpoint is at the block, with as many entities processed as there are in all.
pub open spec fn reports(checkpoint: StageCheckpoint, block: u64, entities: int) -> bool {
    &&& checkpoint.block_number == block
    &&& checkpoint.stage_checkpoint matches Some(StageUnitCheckpoint::Entities(progress))
        && progress.processed == entities && progress.total == entities
}

/// On the way to its target, executing a stage with a batch gives the batch out, counts it, and
/// reports a checkpoint at the target with the counter of the batch's kind, the batch included.
/// Only a last batch of accounts makes the stage done, and only once the downloader has ended.
pub proof fn law_execution_reports_the_counter<D>(
    s: StageState<D>,
    input: ExecInput,
    batch: SnapBatchView,
)
    requires
        !input.reached(),
        s.buffer == Some(batch),
        s.counters_fit(input),
    ensures
        ({
            let (next, result) = s.executed(input);
            &&& s.to_write(input) == Some(batch)
            &&& next.buffer is None
            &&& next.downloader == s.downloader
            &&& next.accounts == s.accounts + accounts_counted(batch)
            &&& next.slots == s.slots + slots_counted(batch)
            &&& next.bytecodes == s.bytecodes + codes_counted(batch)
            &&& result matches Ok(output) && {
                &&& reports(
                    output.checkpoint,
                    input.target_block(),
                    match batch {
                        SnapBatchView::Accounts { .. } => s.accounts + accounts_counted(batch),
                        SnapBatchView::Storage { .. } => s.slots + slots_counted(batch),
                        SnapBatchView::Bytecode { .. } => s.bytecodes + codes_counted(batch),
                    },
                )
                &&& output.done <==> s.downloader is None && (
                batch matches SnapBatchView::Accounts { has_more, .. } && !has_more)
            }
        }),
{
}

/// Below its target and without a batch, a stage whose downloader has ended is done at its target
/// with all its accounts; with the downloader still there it is not ready.
pub proof fn law_execution_without_a_batch<D>(s: StageState<D>, input: ExecInput)
    requires
        !input.reached(),
        s.buffer is None,
    ensures
        s.executed(input).0 == s,
        s.to_write(input) is None,
        s.downloader is None ==> (s.executed(input).1 matches Ok(output) && output.done && reports(
            output.checkpoint,
            input.target_block(),
            s.accounts as int,
        )),
        s.downloader is Some ==> s.executed(input).1 == Err::<ExecOutput, _>(
            StageError::Fatal(FatalReason::NotReady),
        ),
{
}

/// At its target a stage gives nothing out to be written.
pub proof fn law_reached_stage_writes_nothing<D>(s: StageState<D>, input: ExecInput)
    requires
        input.reached(),
    ensures
        s.to_write(input) is None,
        s.counters_fit(input),
{
}

/// A batch can be executed exactly where the counter of its kind can take it.
pub proof fn law_counters_take_what_fits<D>(s: StageState<D>, input: ExecInput)
    requires
        !input.reached(),
    ensures
        s.counters_fit(input) <==> (s.buffer matches Some(batch) ==> s.accounts + accounts_counted(
            batch,
        ) <= u64::MAX && s.slots + slots_counted(batch) <= u64::MAX && s.bytecodes + codes_counted(
            batch,
        ) <= u64::MAX),
{
}

/// What a number of batches hold, by a measure of a batch.
pub open spec fn total_of(
    batches: Seq<SnapBatchView>,
    measure: spec_fn(SnapBatchView) -> nat,
) -> nat
    decreases batches.len(),
{
    if batches.len() == 0 {
        0
    } else {
        total_of(batches.drop_last(), measure) + measure(batches.last())
    }
}

/// The stage after batches were polled and executed one after the other.
pub open spec fn after_batches<D>(
    s: StageState<D>,
    input: ExecInput,
    batches: Seq<SnapBatchView>,
) -> StageState<D>
    decreases batches.len(),
{
    if batches.len() == 0 {
        s
    } else {
        after_batches(s, input, batches.drop_last()).polled(
            DownloaderPollView::Item(Ok(batches.last())),
        ).0.executed(input).0
    }
}

/// Over several batches the counters hold what they held and the sum of what the batches hold,
/// and the last execution reports that sum for the kind of its batch.
pub proof fn law_progress_is_a_sum<D>(
    s: StageState<D>,
    input: ExecInput,
    batches: Seq<SnapBatchView>,
)
    requires
        !input.reached(),
        s.accounts + total_of(batches, |batch: SnapBatchView| accounts_counted(batch)) <= u64::MAX,
        s.slots + total_of(batches, |batch: SnapBatchView| slots_counted(batch)) <= u64::MAX,
        s.bytecodes + total_of(batches, |batch: SnapBatchView| codes_counted(batch)) <= u64::MAX,
    ensures
        ({
            let accounts = s.accounts + total_of(
                batches,
                |batch: SnapBatchView| accounts_counted(batch),
            );
            let slots = s.slots + total_of(batches, |batch: SnapBatchView| slots_counted(batch));
            let codes = s.bytecodes + total_of(
                batches,
                |batch: SnapBatchView| codes_counted(batch),
            );
            let next = after_batches(s, input, batches);
            &&& next.accounts == accounts
            &&& next.slots == slots
            &&& next.bytecodes == codes
            &&& batches.len() > 0 ==> {
                let result = after_batches(s, input, batches.drop_last()).polled(
                    DownloaderPollView::Item(Ok(batches.last())),
                ).0.executed(input).1;
                result matches Ok(output) && reports(
                    output.checkpoint,
                    input.target_block(),
                    match batches.last() {
                        SnapBatchView::Accounts { .. } => accounts,
                        SnapBatchView::Storage { .. } => slots,
                        SnapBatchView::Bytecode { .. } => codes,
                    },
                )
            }
        }),
    decreases batches.len(),
{
    if batches.len() > 0 {
        law_progress_is_a_sum(s, input, batches.drop_last());
    }
}

/// A stage with a batch or at its target is ready; otherwise its downloader is to be polled, and
/// without one the stage cannot go on.
pub proof fn law_readiness<D>(s: StageState<D>, input: ExecInput)
    ensures
        s.buffer is Some ==> s.readiness(input) == Readiness::Ready(Ok(())),
        input.reached() ==> s.readiness(input) == Readiness::Ready(Ok(())),
        s.buffer is None && !input.reached() && s.downloader is Some ==> s.readiness(input)
            == Readiness::PollDownloader,
        s.buffer is None && !input.reached() && s.downloader is None ==> s.readiness(input)
            == Readiness::Ready(Err(StageError::Fatal(FatalReason::DownloaderTaken))),
{
}

/// A batch that the downloader gives is buffered as it is, an error is passed on, the end lets the
/// downloader go, and nothing else changes the stage.
pub proof fn law_polled_downloader<D>(s: StageState<D>, batch: SnapBatchView, error: DownloadError)
    ensures
        s.polled(DownloaderPollView::Pending) == (s, None::<Result<(), StageError>>),
        s.polled(DownloaderPollView::Item(Ok(batch))) == (
            StageState { buffer: Some(batch), ..s },
            Some(Ok::<(), StageError>(())),
        ),
        s.polled(DownloaderPollView::Item(Err(error))) == (
            s,
            Some(Err::<(), StageError>(StageError::Fatal(FatalReason::Downloader(error)))),
        ),
        s.polled(DownloaderPollView::Ended) == (
            StageState { downloader: None::<D>, ..s },
            Some(Ok::<(), StageError>(())),
        ),
{
}

/// Unwinding sets the counters back, and leaves the downloader and the batch.
pub proof fn law_unwinding_starts_counting_again<D>(s: StageState<D>)
    ensures
        s.unwound().accounts == 0,
        s.unwound().slots == 0,
        s.unwound().bytecodes == 0,
        s.unwound().downloader == s.downloader,
        s.unwound().buffer == s.buffer,
{
}

/// A new stage has its downloader, no batch, and nothing counted.
pub proof fn law_new_stage_has_counted_nothing<D>(downloader: D)
    ensures
        ({
            let s = StageState::initial(downloader);
            &&& s.downloader == Some(downloader)
            &&& s.buffer is None
            &&& s.accounts == 0
            &&& s.slots == 0
            &&& s.bytecodes == 0
        }),
{
}

/// What polling gave is shown as it is.
pub proof fn law_polls_show_what_they_hold(polled: DownloaderPoll, batch: Option<SnapBatch>)
    ensures
        match polled {
            DownloaderPoll::Pending => polled@ is Pending,
            DownloaderPoll::Item(Ok(batch)) => polled@ == DownloaderPollView::Item(Ok(batch@)),
            DownloaderPoll::Item(Err(error)) => polled@ == DownloaderPollView::Item(Err(error)),
            DownloaderPoll::Ended => polled@ is Ended,
        },
        match batch {
            Some(batch) => batch_view(Some(batch)) == Some(batch@),
            None => batch_view(None) is None,
        },
{
}

} // verus!
