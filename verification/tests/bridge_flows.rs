use dctp::desktop::bridge::{
    require_success, BridgeOperationIds, CloseCommand, CloseRun, CloseStage, CloseStep, CompletionStore,
    OperationReport, COMPLETION_CAPACITY, FIRST_BRIDGE_OPERATION_ID,
};
use dctp::{
    BridgeErrorDto, CloseDecision, CloseRequestOutcome, CloseResolution, FrontendEventSequencer,
    WindowCloseCoordinator,
};

fn report(operation_id: u64, succeeded: bool, message: &str) -> OperationReport {
    OperationReport { operation_id, succeeded, message: message.to_owned() }
}

/// Opens a close request with `dirty_count` changes and announces it, as the
/// bridge does: a new request is published and settled.
fn request_close(
    coordinator: &mut WindowCloseCoordinator,
    sequencer: &mut FrontendEventSequencer,
    dirty_count: usize,
) -> Result<CloseRequestOutcome, BridgeErrorDto> {
    let (outcome, created) = coordinator.request(dirty_count, true)?;
    if created {
        if let CloseRequestOutcome::Prevented { request_id, .. } = outcome {
            let published = match sequencer.next_event_index() {
                Ok(Some(_)) => sequencer.finish_publish(Ok(())),
                other => other,
            };
            coordinator.settle_announcement(request_id, published)?;
        }
    }
    Ok(outcome)
}

/// Carries out `decision` for request `request_id`, answering each command
/// with `answer`.
fn resolve_close(
    coordinator: &mut WindowCloseCoordinator,
    request_id: u64,
    decision: CloseDecision,
    device_ready: bool,
    mut answer: impl FnMut(CloseCommand) -> Result<OperationReport, BridgeErrorDto>,
) -> Result<CloseResolution, BridgeErrorDto> {
    coordinator.begin_resolution(request_id)?;
    let (mut run, mut step) = CloseRun::start(decision, device_ready);
    let result = loop {
        match step {
            CloseStep::Finished(result) => break result,
            CloseStep::Send(command) => step = run.on_report(answer(command)),
        }
    };
    coordinator.settle_resolution(request_id, result)
}

#[test]
fn clean_close_is_allowed_and_dirty_close_is_serialized_until_cancelled() {
    let mut coordinator = WindowCloseCoordinator::default();
    let mut sequencer = FrontendEventSequencer::default();
    sequencer.replace_sink().unwrap();
    assert_eq!(request_close(&mut coordinator, &mut sequencer, 0).unwrap(), CloseRequestOutcome::Allow);

    let first = request_close(&mut coordinator, &mut sequencer, 1).unwrap();
    let request_id = match first {
        CloseRequestOutcome::Prevented { request_id, .. } => request_id,
        CloseRequestOutcome::Allow => panic!("dirty state must prevent close"),
    };
    assert_eq!(request_close(&mut coordinator, &mut sequencer, 1).unwrap(), first);
    assert_eq!(sequencer.last_event_index, 1);

    let no_command = |_: CloseCommand| -> Result<OperationReport, BridgeErrorDto> { panic!("nothing to send") };
    assert!(resolve_close(&mut coordinator, request_id + 1, CloseDecision::Cancel, true, no_command).is_err());
    assert_eq!(
        resolve_close(&mut coordinator, request_id, CloseDecision::Cancel, true, no_command).unwrap(),
        CloseResolution::KeepOpen
    );
    assert!(coordinator.active.is_none());
}

#[test]
fn disconnect_close_marks_truth_unknown_and_revert_failure_keeps_window_open() {
    let mut coordinator = WindowCloseCoordinator::default();
    let mut sequencer = FrontendEventSequencer::default();
    sequencer.replace_sink().unwrap();
    let request_id = match request_close(&mut coordinator, &mut sequencer, 1).unwrap() {
        CloseRequestOutcome::Prevented { request_id, .. } => request_id,
        CloseRequestOutcome::Allow => panic!("dirty state must prevent close"),
    };
    let mut sent = Vec::new();
    let resolution = resolve_close(&mut coordinator, request_id, CloseDecision::DisconnectKeepUnknown, true, |c| {
        sent.push(c);
        Ok(report(1, true, "disconnected"))
    })
    .unwrap();
    assert_eq!(resolution, CloseResolution::CloseWindow);
    assert_eq!(sent, vec![CloseCommand::Disconnect]);

    let request_id = match request_close(&mut coordinator, &mut sequencer, 1).unwrap() {
        CloseRequestOutcome::Prevented { request_id, .. } => request_id,
        CloseRequestOutcome::Allow => panic!("dirty state must prevent close"),
    };
    let mut sent = Vec::new();
    let error = resolve_close(&mut coordinator, request_id, CloseDecision::RevertThenClose, true, |c| {
        sent.push(c);
        Ok(report(7, false, "observer may not revert"))
    })
    .unwrap_err();
    assert_eq!(error.code, "operationFailed");
    assert_eq!(error.message, "observer may not revert");
    assert_eq!(error.operation_id, Some(7));
    assert_eq!(sent, vec![CloseCommand::RevertAllPendingChanges]);
    let active = coordinator.active.unwrap();
    assert_eq!(active.request_id, request_id);
    assert!(!active.resolving);
}

#[test]
fn a_dirty_close_can_be_reissued_after_the_frontend_channel_opens() {
    let mut coordinator = WindowCloseCoordinator::default();
    let mut sequencer = FrontendEventSequencer::default();
    let error = request_close(&mut coordinator, &mut sequencer, 1).unwrap_err();
    assert_eq!(error.code, "frontendChannelUnavailable");
    assert!(coordinator.active.is_none());

    sequencer.replace_sink().unwrap();
    assert!(matches!(
        request_close(&mut coordinator, &mut sequencer, 1).unwrap(),
        CloseRequestOutcome::Prevented { .. }
    ));
    assert_eq!(sequencer.last_event_index, 1);
}

#[test]
fn a_failed_announcement_keeps_the_request_open() {
    let mut coordinator = WindowCloseCoordinator::default();
    let (outcome, created) = coordinator.request(3, false).unwrap();
    assert!(created);
    let request_id = match outcome {
        CloseRequestOutcome::Prevented { request_id, .. } => request_id,
        CloseRequestOutcome::Allow => panic!("dirty state must prevent close"),
    };
    let failure = BridgeErrorDto { code: "channelSendFailed".to_owned(), message: "gone".to_owned(), operation_id: None };
    let error = coordinator.settle_announcement(request_id, Err(failure)).unwrap_err();
    assert_eq!(error.code, "channelSendFailed");
    assert_eq!(coordinator.active.unwrap().request_id, request_id);
}

#[test]
fn revert_on_a_device_that_is_not_ready_sends_nothing() {
    let (run, step) = CloseRun::start(CloseDecision::RevertThenClose, false);
    assert_eq!(run.stage, CloseStage::Done);
    match step {
        CloseStep::Finished(Err(error)) => {
            assert_eq!(error.code, "revertUnavailable");
            assert_eq!(error.operation_id, None);
        },
        other => panic!("unexpected step {other:?}"),
    }
}

#[test]
fn revert_then_close_sends_revert_then_disconnect() {
    let (mut run, step) = CloseRun::start(CloseDecision::RevertThenClose, true);
    assert!(matches!(step, CloseStep::Send(CloseCommand::RevertAllPendingChanges)));
    assert!(matches!(run.on_report(Ok(report(1, true, "reverted"))), CloseStep::Send(CloseCommand::Disconnect)));
    assert!(matches!(
        run.on_report(Ok(report(2, true, "disconnected"))),
        CloseStep::Finished(Ok(CloseResolution::CloseWindow))
    ));
    assert_eq!(run.stage, CloseStage::Done);
}

#[test]
fn a_refused_command_ends_the_close_with_its_error() {
    let (mut run, _) = CloseRun::start(CloseDecision::DisconnectKeepUnknown, true);
    let refused = BridgeErrorDto { code: "commandRejected".to_owned(), message: "queue full".to_owned(), operation_id: None };
    match run.on_report(Err(refused)) {
        CloseStep::Finished(Err(error)) => assert_eq!(error.code, "commandRejected"),
        other => panic!("unexpected step {other:?}"),
    }
}

#[test]
fn require_success_keeps_successes_and_names_failed_operations() {
    let kept = require_success(report(3, true, "ok")).unwrap();
    assert_eq!(kept.operation_id, 3);
    let error = require_success(report(4, false, "boom")).unwrap_err();
    assert_eq!((error.code.as_str(), error.message.as_str(), error.operation_id), ("operationFailed", "boom", Some(4)));
}

#[test]
fn completion_store_finds_results_by_operation_and_drops_the_oldest() {
    let mut store: CompletionStore<&str> = CompletionStore::new();
    store.record(5, "first");
    store.record(6, "second");
    store.record(5, "third");
    assert_eq!(store.take(5), Some("first"));
    assert_eq!(store.take(5), Some("third"));
    assert_eq!(store.take(5), None);
    assert_eq!(store.take(6), Some("second"));

    for id in 0..(COMPLETION_CAPACITY as u64 + 1) {
        store.record(id, "full");
    }
    assert_eq!(store.take(0), None);
    assert_eq!(store.take(1), Some("full"));
    assert_eq!(store.take(COMPLETION_CAPACITY as u64), Some("full"));
}

#[test]
fn a_waiter_gets_its_result_or_a_closed_or_timeout_error() {
    let mut store: CompletionStore<u32> = CompletionStore::new();
    assert!(store.poll(9, false).is_none());
    let timeout = store.poll(9, true).unwrap().unwrap_err();
    assert_eq!((timeout.code.as_str(), timeout.operation_id), ("operationTimeout", Some(9)));
    store.record(9, 42);
    assert_eq!(store.poll(9, true).unwrap().unwrap(), 42);
    store.close();
    let closed = store.poll(9, false).unwrap().unwrap_err();
    assert_eq!((closed.code.as_str(), closed.operation_id), ("actorClosed", Some(9)));
    store.record(10, 1);
    assert_eq!(store.poll(10, false).unwrap().unwrap(), 1);
}

#[test]
fn bridge_operation_ids_start_in_the_upper_half_and_count_up() {
    let mut ids = BridgeOperationIds::default();
    assert_eq!(ids.next_id(), FIRST_BRIDGE_OPERATION_ID);
    assert_eq!(ids.next_id(), 1_u64 << 63 | 1);
    let mut last = BridgeOperationIds { next: u64::MAX };
    assert_eq!(last.next_id(), u64::MAX);
    assert_eq!(last.next, 0);
}
