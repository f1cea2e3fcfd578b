use snap_sync::account::Account;
use snap_sync::batch::SnapBatch;
use snap_sync::collections::{B256Map, B256Set};
use snap_sync::error::{DownloadError, RequestError};
use snap_sync::phase::SnapPhase;
use snap_sync::primitives::{B256, U256};
use snap_sync::stage::{
    create_snap_sync_stage, DownloaderPoll, EntitiesCheckpoint, ExecInput, ExecOutput, Execution,
    FatalReason, Readiness, SnapSyncStage, StageCheckpoint, StageError, StageId, StageUnitCheckpoint,
    UnwindInput, UnwindOutput,
};
use snap_sync::test_client::TestSnapClient;

const READY: Readiness = Readiness::Ready(Ok(()));

fn to(target: u64) -> ExecInput {
    ExecInput { target: Some(target), checkpoint: None }
}

fn at(block_number: u64, entities: u64) -> StageCheckpoint {
    StageCheckpoint {
        block_number,
        stage_checkpoint: Some(StageUnitCheckpoint::Entities(EntitiesCheckpoint {
            processed: entities,
            total: entities,
        })),
    }
}

fn accounts(n: usize, has_more: bool) -> DownloaderPoll {
    let account = Account { nonce: 0, balance: U256([0; 32]), bytecode_hash: None };
    DownloaderPoll::Item(Ok(SnapBatch::Accounts {
        accounts: vec![(B256::zero(), account, B256::zero()); n],
        has_more,
    }))
}

fn storage(sizes: &[usize]) -> DownloaderPoll {
    let storage = sizes
        .iter()
        .map(|n| (B256::zero(), B256::zero(), vec![(B256::zero(), U256([0; 32])); *n]))
        .collect();
    DownloaderPoll::Item(Ok(SnapBatch::Storage {
        storage,
        accounts_complete: B256Set::new(),
        accounts_partial: B256Map::new(),
    }))
}

fn bytecode(n: usize) -> DownloaderPoll {
    DownloaderPoll::Item(Ok(SnapBatch::Bytecode { codes: vec![(B256::zero(), vec![]); n] }))
}

fn output(executed: Result<Execution, StageError>) -> Result<ExecOutput, StageError> {
    executed.map(|execution| execution.output)
}

#[test]
fn test_stage_id() {
    let client = TestSnapClient::default();
    let state_root = B256::zero();
    let stage = create_snap_sync_stage(client, state_root);

    assert_eq!(stage.id(), StageId::SnapSync);
}

#[test]
fn created_stage_has_a_new_downloader() {
    let mut stage = create_snap_sync_stage((), B256::repeat_byte(4));
    let downloader = stage.downloader_mut().unwrap();
    assert_eq!(downloader.max_concurrent_requests(), 10);
    assert_eq!(downloader.state_root(), B256::repeat_byte(4));
    assert_eq!(downloader.phase(), SnapPhase::AccountSync);
}

#[test]
fn input_has_defaults() {
    let input = ExecInput { target: None, checkpoint: None };
    assert_eq!(input.target(), 0);
    assert_eq!(input.checkpoint(), StageCheckpoint { block_number: 0, stage_checkpoint: None });
    assert!(input.target_reached());
    assert!(!to(1).target_reached());
    let input = ExecInput { target: Some(5), checkpoint: Some(StageCheckpoint::new(5)) };
    assert!(input.target_reached());
}

#[test]
fn readiness_depends_on_buffer_target_and_downloader() {
    let mut stage = SnapSyncStage::new(1u8);
    assert_eq!(stage.poll_execute_ready(&to(5)), Readiness::PollDownloader);
    assert_eq!(stage.poll_execute_ready(&to(0)), READY);

    assert_eq!(stage.downloader_polled(DownloaderPoll::Pending), None);
    assert_eq!(stage.poll_execute_ready(&to(5)), Readiness::PollDownloader);

    assert_eq!(stage.downloader_polled(accounts(1, true)), Some(Ok(())));
    assert_eq!(stage.poll_execute_ready(&to(5)), READY);
    assert!(stage.execute(&to(5)).is_ok());

    assert_eq!(stage.downloader_polled(DownloaderPoll::Ended), Some(Ok(())));
    assert!(stage.downloader_mut().is_none());
    let taken = StageError::Fatal(FatalReason::DownloaderTaken);
    assert_eq!(stage.poll_execute_ready(&to(5)), Readiness::Ready(Err(taken)));
}

#[test]
fn downloader_errors_are_fatal() {
    let mut stage = SnapSyncStage::new(());
    let error = DownloadError::RequestError(RequestError::Timeout);
    let fatal = StageError::Fatal(FatalReason::Downloader(error));
    assert_eq!(stage.downloader_polled(DownloaderPoll::Item(Err(error))), Some(Err(fatal)));
    assert_eq!(stage.poll_execute_ready(&to(5)), Readiness::PollDownloader);
}

#[test]
fn execution_counts_batches_by_kind() {
    let mut stage = SnapSyncStage::new(());
    let more = |checkpoint| Ok(ExecOutput { checkpoint, done: false });
    stage.downloader_polled(accounts(3, true));
    assert!(stage.can_execute(&to(9)));
    assert_eq!(output(stage.execute(&to(9))), more(at(9, 3)));
    stage.downloader_polled(accounts(2, false));
    assert_eq!(output(stage.execute(&to(9))), more(at(9, 5)));
    stage.downloader_polled(storage(&[2, 0, 4]));
    assert!(stage.can_execute(&to(9)));
    assert_eq!(output(stage.execute(&to(9))), more(at(9, 6)));
    stage.downloader_polled(bytecode(7));
    assert!(stage.can_execute(&to(9)));
    assert_eq!(output(stage.execute(&to(9))), more(at(9, 7)));
    // The batch is used up.
    let not_ready = StageError::Fatal(FatalReason::NotReady);
    assert_eq!(output(stage.execute(&to(9))), Err(not_ready));
    // At the end the accounts are reported.
    stage.downloader_polled(DownloaderPoll::Ended);
    assert_eq!(output(stage.execute(&to(9))), Ok(ExecOutput { checkpoint: at(9, 5), done: true }));
}

#[test]
fn last_accounts_make_the_stage_done() {
    for (has_more, done) in [(false, true), (true, false)] {
        let mut stage = SnapSyncStage::new(());
        stage.downloader_polled(accounts(1, has_more));
        stage.downloader_polled(DownloaderPoll::Ended);
        assert_eq!(output(stage.execute(&to(2))), Ok(ExecOutput { checkpoint: at(2, 1), done }));
    }
    let mut stage = SnapSyncStage::new(());
    stage.downloader_polled(bytecode(1));
    stage.downloader_polled(DownloaderPoll::Ended);
    assert_eq!(output(stage.execute(&to(2))), Ok(ExecOutput { checkpoint: at(2, 1), done: false }));
}

#[test]
fn reached_stage_is_done_where_it_stands() {
    let mut stage = SnapSyncStage::new(());
    stage.downloader_polled(accounts(1, true));
    let input = ExecInput { target: Some(4), checkpoint: Some(at(6, 2)) };
    assert_eq!(output(stage.execute(&input)), Ok(ExecOutput { checkpoint: at(6, 2), done: true }));
    // The batch is still there.
    assert_eq!(stage.poll_execute_ready(&to(9)), READY);
}

#[test]
fn unwinding_starts_the_counters_again() {
    let mut stage = SnapSyncStage::new(());
    stage.downloader_polled(accounts(3, true));
    assert!(stage.execute(&to(9)).is_ok());
    let input =
        UnwindInput { checkpoint: StageCheckpoint::new(9), unwind_to: 4, bad_block: None };
    assert_eq!(stage.unwind(&input), Ok(UnwindOutput { checkpoint: StageCheckpoint::new(4) }));
    stage.downloader_polled(accounts(1, true));
    assert_eq!(output(stage.execute(&to(9))), Ok(ExecOutput { checkpoint: at(9, 1), done: false }));
}

#[test]
fn default_stage_has_the_default_downloader() {
    let mut stage: SnapSyncStage<u8> = SnapSyncStage::default();
    assert_eq!(stage.downloader_mut(), Some(&mut 0));
    *stage.downloader_mut().unwrap() = 3;
    assert_eq!(stage.downloader_mut(), Some(&mut 3));
}

#[test]
fn reasons_have_words() {
    assert_eq!(FatalReason::DownloaderTaken.message(), "Downloader was taken");
    assert_eq!(
        FatalReason::NotReady.message(),
        "execute() called before poll_execute_ready finished"
    );
    for error in [
        RequestError::ChannelClosed,
        RequestError::ConnectionDropped,
        RequestError::UnsupportedCapability,
        RequestError::Timeout,
        RequestError::BadResponse,
    ] {
        let error = DownloadError::RequestError(error);
        assert_eq!(
            FatalReason::Downloader(error).message(),
            format!("Downloader error: {:?}", error)
        );
    }
}

#[test]
fn executed_batches_are_given_out_to_be_written() {
    let mut stage = SnapSyncStage::new(());
    stage.downloader_polled(bytecode(2));
    // At its target the stage keeps the batch.
    assert!(stage.execute(&to(0)).unwrap().batch.is_none());
    match stage.execute(&to(9)).unwrap().batch {
        Some(SnapBatch::Bytecode { codes }) => assert_eq!(codes, vec![(B256::zero(), vec![]); 2]),
        batch => panic!("unexpected batch: {:?}", batch),
    }
    stage.downloader_polled(DownloaderPoll::Ended);
    let execution = stage.execute(&to(9)).unwrap();
    assert!(execution.output.done);
    assert!(execution.batch.is_none());
}
