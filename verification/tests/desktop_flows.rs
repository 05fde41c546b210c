use dctp::desktop::ai::{
    credential_status_from, trim_text, AiErrorDto, CompletionRun, CompletionStage, CompletionWork, DeepSeekRequest,
};
use dctp::{AiChatMessageDto, AiCompletionRequestDto};
use dctp::desktop::firmware::{
    FirmwarePackageSummary, bsl_report, flash_error, BslStep, FlashLink, FlashRegistry, FlashRun, FlashStage, FlashWork, PackageCheck,
    SerialProfile,
};
use dctp::desktop::window::WindowCloseCoordinator;
use dctp::FrontendEventSequencer;
use dctp::{
    encode_hex, hex_nibble, parse_device_id, AiErrorCode, CloseRequestOutcome, FirmwareFlashErrorDto,
    FirmwareFlashPhase,
};

const OP: [u8; 16] = [7; 16];
const DEVICE_HEX: &str = "00112233445566778899aabbccddeeff";

fn serial() -> Option<FlashLink> {
    Some(FlashLink::Serial { baud_rate: 9_600, profile: SerialProfile::Hc05BluetoothSpp })
}

/// Starts a first flash as the bridge does: the checks that need no lease,
/// then the lease attempt's outcome.
fn start_run<R>(
    registry: &mut FlashRegistry<R>,
    identity: Option<FlashLink>,
    operation_id: [u8; 16],
    lease_acquired: bool,
    allow_downgrade: bool,
) -> Result<FlashRun, FirmwareFlashErrorDto> {
    FlashRun::start(identity, operation_id, allow_downgrade)?.on_lease(registry, lease_acquired)
}

#[test]
fn dirty_close_is_numbered_held_and_resolved_once() {
    let mut coordinator = WindowCloseCoordinator::default();
    assert_eq!(coordinator.request(0, true).unwrap(), (CloseRequestOutcome::Allow, false));
    let (first, created) = coordinator.request(2, true).unwrap();
    assert!(created);
    assert_eq!(first, CloseRequestOutcome::Prevented { request_id: 1, dirty_count: 2, can_revert: true });
    assert_eq!(coordinator.request(5, false).unwrap(), (first, false));
    assert_eq!(coordinator.begin_resolution(2).unwrap_err().code, "staleCloseRequest");
    coordinator.begin_resolution(1).unwrap();
    assert!(coordinator.begin_resolution(1).is_err());
    coordinator.retryable_failure(1);
    coordinator.begin_resolution(1).unwrap();
    assert!(coordinator.complete(2).is_err());
    coordinator.complete(1).unwrap();
    let (second, created) = coordinator.request(1, false).unwrap();
    assert!(created);
    assert_eq!(second, CloseRequestOutcome::Prevented { request_id: 2, dirty_count: 1, can_revert: false });
    coordinator.discard(2);
    assert!(coordinator.complete(2).is_err());
}

#[test]
fn exhausted_close_numbers_are_refused() {
    let mut coordinator = WindowCloseCoordinator { next_request_id: u64::MAX, active: None };
    let error = coordinator.request(1, true).unwrap_err();
    assert_eq!(error.code, "closeRequestExhausted");
    assert_eq!(error.message, "窗口关闭请求序号已耗尽");
}

#[test]
fn device_identities_parse_only_from_lowercase_hex() {
    let id = parse_device_id(DEVICE_HEX).unwrap();
    assert_eq!(id[0], 0x00);
    assert_eq!(id[15], 0xff);
    assert_eq!(encode_hex(&id), DEVICE_HEX);
    assert_eq!(parse_device_id("00112233445566778899AABBCCDDEEFF"), None);
    assert_eq!(parse_device_id("0011"), None);
    assert_eq!(hex_nibble(b'f'), Some(15));
    assert_eq!(hex_nibble(b'g'), None);
}

#[test]
fn flash_registry_cancels_only_before_preparation() {
    let mut registry: FlashRegistry<u32> = FlashRegistry::new();
    assert_eq!(registry.cancel(OP).unwrap_err().code, "firmwareOperationNotFound");
    registry.begin(OP).unwrap();
    assert_eq!(registry.begin([8; 16]).unwrap_err().code, "firmwareUpgradeActive");
    registry.cancel(OP).unwrap();
    assert_eq!(registry.mark_prepare_started(OP).unwrap_err().code, "firmwareOperationCancelled");
    registry.clear_active(OP);
    registry.insert_recovery(OP, 5);
    assert_eq!(registry.cancel(OP).unwrap_err().message, "设备处于恢复模式，不能取消固件升级");
    assert_eq!(registry.take_recovery(&OP), Some(5));
    assert!(!registry.has_recovery(&OP));
}

fn finish(step: FlashWork) -> Result<dctp::FirmwareFlashResult, FirmwareFlashErrorDto> {
    match step {
        FlashWork::Finish { result, .. } => result,
        _ => panic!("the run should have ended"),
    }
}

#[test]
fn first_flash_runs_every_check_in_order_and_succeeds() {
    let mut registry: FlashRegistry<u32> = FlashRegistry::new();
    let mut run = start_run(&mut registry, serial(), OP, true, false).unwrap();
    assert_eq!(run.stage, FlashStage::Snapshot);
    let step = run.on_snapshot(&mut registry, true, serial(), Some(DEVICE_HEX), Some([1, 0, 0]));
    assert!(matches!(step.work, FlashWork::VerifyPackage { .. }));
    let step = run.on_package(&mut registry, PackageCheck::Verified { firmware_version: [1, 1, 0], image_length: 4096 });
    assert!(matches!(step.work, FlashWork::ValidateImage { image_length: 4096 }));
    run.on_image_checked(&mut registry, true);
    run.on_recovery_copy(&mut registry, true);
    let step = run.on_credentials(&mut registry, true);
    assert_eq!(step.events[0].phase, FirmwareFlashPhase::Preparing);
    assert_eq!(step.events[0].progress_percent, 15);
    assert!(matches!(step.work, FlashWork::Prepare));
    assert!(registry.cancel(OP).is_err());
    let step = run.on_prepared(&mut registry, true);
    assert_eq!(step.events[0].phase, FirmwareFlashPhase::SwitchingTransport);
    let step = run.on_flashed(&mut registry, Ok(()));
    assert_eq!(step.events[0].progress_percent, 96);
    let step = run.on_reconnected(&mut registry, true, Some(DEVICE_HEX), Some([1, 1, 0]));
    assert!(matches!(step.work, FlashWork::SaveRecoveryCopy));
    let step = run.on_recovery_saved(&mut registry, true);
    assert_eq!(step.events[0].phase, FirmwareFlashPhase::Succeeded);
    let result = finish(step.work).unwrap();
    assert_eq!(result.device_id_hex, DEVICE_HEX);
    assert_eq!(result.firmware_version, [1, 1, 0]);
    assert!(!result.rolled_back);
    assert!(registry.begin([9; 16]).is_ok());
}

#[test]
fn first_flash_refusals_name_their_cause() {
    let mut registry: FlashRegistry<u32> = FlashRegistry::new();
    assert_eq!(start_run(&mut registry, None, OP, true, false).unwrap_err().code, "deviceNotReady");
    assert_eq!(
        start_run(&mut registry, Some(FlashLink::Simulator), OP, true, false).unwrap_err().code,
        "realSerialRequired"
    );
    assert_eq!(
        start_run(&mut registry, serial(), [0; 16], true, false).unwrap_err().code,
        "invalidFirmwareOperation"
    );
    assert_eq!(start_run(&mut registry, serial(), OP, false, false).unwrap_err().code, "firmwareUpgradeActive");

    let mut run = start_run(&mut registry, serial(), OP, true, false).unwrap();
    let slow = Some(FlashLink::Serial { baud_rate: 115_200, profile: SerialProfile::NanoUartWl });
    let step = run.on_snapshot(&mut registry, true, slow, Some(DEVICE_HEX), Some([1, 0, 0]));
    let error = finish(step.work).unwrap_err();
    assert_eq!(error.code, "unsupportedFirmwareLink");
    assert_eq!(error.operation_id, Some(OP));
    assert!(registry.begin(OP).is_ok());
}

#[test]
fn downgrade_needs_confirmation() {
    let mut registry: FlashRegistry<u32> = FlashRegistry::new();
    let mut run = start_run(&mut registry, serial(), OP, true, false).unwrap();
    run.on_snapshot(&mut registry, true, serial(), Some(DEVICE_HEX), Some([2, 0, 0]));
    let step = run.on_package(&mut registry, PackageCheck::Verified { firmware_version: [1, 9, 9], image_length: 1 });
    assert_eq!(finish(step.work).unwrap_err().code, "downgradeConfirmationRequired");

    let mut registry: FlashRegistry<u32> = FlashRegistry::new();
    let mut run = start_run(&mut registry, serial(), OP, true, true).unwrap();
    run.on_snapshot(&mut registry, true, serial(), Some(DEVICE_HEX), Some([2, 0, 0]));
    let step = run.on_package(&mut registry, PackageCheck::Verified { firmware_version: [1, 9, 9], image_length: 1 });
    assert!(matches!(step.work, FlashWork::ValidateImage { .. }));
}

#[test]
fn failure_after_preparation_keeps_the_run_for_recovery() {
    let mut registry: FlashRegistry<u32> = FlashRegistry::new();
    let mut run = start_run(&mut registry, serial(), OP, true, false).unwrap();
    run.on_snapshot(&mut registry, true, serial(), Some(DEVICE_HEX), Some([1, 0, 0]));
    run.on_package(&mut registry, PackageCheck::Verified { firmware_version: [1, 1, 0], image_length: 4096 });
    run.on_image_checked(&mut registry, true);
    run.on_recovery_copy(&mut registry, true);
    run.on_credentials(&mut registry, true);
    run.on_prepared(&mut registry, true);
    let step = run.on_flashed(&mut registry, Err(flash_error(OP)));
    assert_eq!(step.events.last().unwrap().phase, FirmwareFlashPhase::RecoveryRequired);
    match step.work {
        FlashWork::Finish { result, keep_for_recovery } => {
            assert!(keep_for_recovery);
            let error = result.unwrap_err();
            assert_eq!(error.code, "recoveryRequired");
            assert_eq!(error.operation_id, Some(OP));
        }
        _ => panic!("the run should have ended"),
    }
    registry.insert_recovery(OP, 1);

    let kept = FlashRun::take_kept(&mut registry, OP).unwrap();
    assert_eq!(kept, 1);
    let id = parse_device_id(DEVICE_HEX).unwrap();
    let mut rollback = FlashRun::resume(OP, true, id, true);
    rollback.on_trust(&mut registry, true);
    rollback.on_resume_package(&mut registry, Some([1, 0, 0]));
    let step = rollback.on_credentials(&mut registry, true);
    assert_eq!(step.events[0].phase, FirmwareFlashPhase::RollingBack);
    rollback.on_flashed(&mut registry, Ok(()));
    let step = rollback.on_reconnected(&mut registry, true, Some(DEVICE_HEX), Some([1, 0, 0]));
    let result = finish(step.work).unwrap();
    assert!(result.rolled_back);
    assert_eq!(result.firmware_version, [1, 0, 0]);
    assert_eq!(FlashRun::take_kept(&mut registry, OP).unwrap_err().code, "firmwareOperationNotFound");
}

#[test]
fn bootloader_steps_report_their_phases_in_order() {
    let steps = [BslStep::Unlock, BslStep::Erase, BslStep::Program, BslStep::Verify, BslStep::Start];
    let phases: Vec<_> = steps.iter().map(|step| bsl_report(OP, *step).phase).collect();
    assert_eq!(
        phases,
        vec![
            FirmwareFlashPhase::Unlocking,
            FirmwareFlashPhase::Erasing,
            FirmwareFlashPhase::Programming,
            FirmwareFlashPhase::Verifying,
            FirmwareFlashPhase::Restarting,
        ]
    );
    let percents: Vec<_> = steps.iter().map(|step| bsl_report(OP, *step).progress_percent).collect();
    assert_eq!(percents, vec![35, 45, 60, 85, 92]);
}

fn completion_request() -> AiCompletionRequestDto {
    AiCompletionRequestDto {
        request_id: "f9bc6db0-2705-4a8b-87a4-a61edf9735b3".to_owned(),
        model: "  deepseek-chat\t".to_owned(),
        messages: vec![
            AiChatMessageDto { role: "system".to_owned(), content: "Be brief".to_owned() },
            AiChatMessageDto { role: "user".to_owned(), content: " Tune kp ".to_owned() },
        ],
    }
}

fn ended_with(work: CompletionWork) -> Result<String, AiErrorDto> {
    match work {
        CompletionWork::Finish(result) => result,
        _ => panic!("the completion should have ended"),
    }
}

#[test]
fn completion_reads_a_body_within_the_limit() {
    let mut run = CompletionRun::new(10);
    assert!(matches!(run.on_api_key(Ok(Some("sk".to_owned())), &completion_request()), CompletionWork::Send { .. }));
    assert!(matches!(run.on_response(Ok((200, Some(10)))), CompletionWork::ReadChunk));
    assert!(matches!(run.on_chunk(Ok(Some(6))), CompletionWork::ReadChunk));
    assert!(matches!(run.on_chunk(Ok(Some(4))), CompletionWork::ReadChunk));
    assert!(matches!(run.on_chunk(Ok(None)), CompletionWork::Parse));
    assert_eq!(ended_with(run.on_parsed(Some("answer".to_owned()))).unwrap(), "answer");
    assert_eq!(run.stage, CompletionStage::Finished);
}

#[test]
fn completion_failures_map_to_stable_codes() {
    let mut run = CompletionRun::new(10);
    assert_eq!(ended_with(run.on_api_key(Ok(None), &completion_request())).unwrap_err().code, AiErrorCode::AiKeyMissing);
    let mut run = CompletionRun::new(10);
    assert_eq!(ended_with(run.on_api_key(Err(()), &completion_request())).unwrap_err().code, AiErrorCode::AiCredentialStoreError);

    let mut run = CompletionRun::new(10);
    run.on_api_key(Ok(Some("sk".to_owned())), &completion_request());
    let error = ended_with(run.on_response(Ok((503, None)))).unwrap_err();
    assert_eq!(error.code, AiErrorCode::AiHttpError);
    assert_eq!(error.message, "AI 服务返回 HTTP 503");

    let mut run = CompletionRun::new(10);
    run.on_api_key(Ok(Some("sk".to_owned())), &completion_request());
    assert_eq!(ended_with(run.on_response(Ok((200, Some(11))))).unwrap_err().code, AiErrorCode::AiResponseTooLarge);

    let mut run = CompletionRun::new(10);
    run.on_api_key(Ok(Some("sk".to_owned())), &completion_request());
    run.on_response(Ok((200, None)));
    run.on_chunk(Ok(Some(8)));
    assert_eq!(ended_with(run.on_chunk(Ok(Some(3)))).unwrap_err().code, AiErrorCode::AiResponseTooLarge);

    let mut run = CompletionRun::new(10);
    run.on_api_key(Ok(Some("sk".to_owned())), &completion_request());
    assert_eq!(ended_with(run.on_response(Err(true))).unwrap_err().code, AiErrorCode::AiTimeout);
    let mut run = CompletionRun::new(10);
    run.on_api_key(Ok(Some("sk".to_owned())), &completion_request());
    let error = ended_with(run.on_response(Err(false))).unwrap_err();
    assert_eq!(error.message, "AI 服务请求失败");

    let mut run = CompletionRun::new(10);
    run.on_api_key(Ok(Some("sk".to_owned())), &completion_request());
    run.on_response(Ok((204, None)));
    run.on_chunk(Ok(None));
    assert_eq!(ended_with(run.on_parsed(None)).unwrap_err().code, AiErrorCode::AiInvalidResponse);
}

#[test]
fn credential_status_counts_only_non_empty_keys() {
    assert!(credential_status_from(Ok(Some("k".to_owned()))).unwrap().configured);
    assert!(!credential_status_from(Ok(Some(String::new()))).unwrap().configured);
    assert!(!credential_status_from(Ok(None)).unwrap().configured);
    assert_eq!(credential_status_from(Err(())).unwrap_err().code, AiErrorCode::AiCredentialStoreError);
}

/// Publishes one event through `sequencer` into `delivered`, as the bridge does.
fn publish(sequencer: &mut FrontendEventSequencer, delivered: &mut Vec<u64>) -> Option<u64> {
    let index = sequencer.next_event_index().unwrap()?;
    delivered.push(index);
    sequencer.finish_publish(Ok(())).unwrap()
}

#[test]
fn one_sequencer_serializes_core_and_window_events_without_gaps() {
    let mut sequencer = FrontendEventSequencer::default();
    sequencer.replace_sink().unwrap();
    let mut delivered = Vec::new();
    for _ in 0..50 {
        assert!(publish(&mut sequencer, &mut delivered).is_some());
        assert!(publish(&mut sequencer, &mut delivered).is_some());
    }
    assert_eq!(delivered.len(), 100);
    assert_eq!(delivered, (1..=100).collect::<Vec<u64>>());
}

#[test]
fn events_without_a_channel_are_not_numbered() {
    let mut sequencer = FrontendEventSequencer::default();
    assert_eq!(sequencer.next_event_index().unwrap(), None);
    assert_eq!(sequencer.finish_publish(Ok(())).unwrap(), None);
    assert_eq!(sequencer.last_event_index, 0);
    sequencer.replace_sink().unwrap();
    assert_eq!(sequencer.finish_publish(Ok(())).unwrap(), Some(1));
    sequencer.close_sink();
    assert_eq!(sequencer.finish_publish(Ok(())).unwrap(), None);
    sequencer.replace_sink().unwrap();
    assert_eq!(sequencer.next_event_index().unwrap(), Some(2));
}

#[test]
fn a_failed_send_uses_up_no_index() {
    let mut sequencer = FrontendEventSequencer::default();
    sequencer.replace_sink().unwrap();
    let error = sequencer.finish_publish(Err("channel closed".to_owned())).unwrap_err();
    assert_eq!(error.code, "channelSendFailed");
    assert_eq!(error.message, "channel closed");
    assert_eq!(sequencer.finish_publish(Ok(())).unwrap(), Some(1));
}

#[test]
fn an_exhausted_index_space_is_reported() {
    let mut sequencer = FrontendEventSequencer { last_event_index: u64::MAX, sink_open: true };
    assert_eq!(sequencer.next_event_index().unwrap_err().code, "eventIndexExhausted");
    assert_eq!(sequencer.finish_publish(Ok(())).unwrap_err().code, "eventIndexExhausted");
    assert_eq!(sequencer.last_event_index, u64::MAX);
}

#[test]
fn package_summary_names_the_board_and_spells_digests_in_hex() {
    let mut image = [0u8; 32];
    image[0] = 0xA5;
    image[31] = 0x0F;
    let summary = FirmwarePackageSummary::from_manifest(
        [0x12; 16],
        [2, 3, 4],
        1024,
        &image,
        &[0xFF; 32],
        "0102030405060708".to_owned(),
    );
    assert_eq!(summary.target, "lckfb-tmx-mspm0g3507");
    assert_eq!(summary.mcu, "MSPM0G3507");
    assert_eq!(summary.firmware_version, [2, 3, 4]);
    assert_eq!(summary.image_length, 1024);
    assert_eq!(summary.image_sha256, format!("a5{}0f", "00".repeat(30)));
    assert_eq!(summary.package_sha256, "ff".repeat(32));
    assert_eq!(summary.signing_key_id, "0102030405060708");
    assert_eq!(summary.release_id, [0x12; 16]);
}

#[test]
fn simulator_start_is_rejected_before_any_bsl_transport_is_opened() {
    let simulator = FlashRun::start(Some(FlashLink::Simulator), OP, false).unwrap_err();
    assert_eq!(simulator.code, "realSerialRequired");
    let nil = FlashRun::start(serial(), [0; 16], false).unwrap_err();
    assert_eq!(nil.code, "invalidFirmwareOperation");
    let pending = FlashRun::start(serial(), OP, true).unwrap();
    assert_eq!(pending.operation_id, OP);
    assert!(pending.allow_downgrade);
    let mut registry: FlashRegistry<u8> = FlashRegistry::new();
    assert_eq!(pending.on_lease(&mut registry, false).unwrap_err().code, "firmwareUpgradeActive");
    assert!(pending.on_lease(&mut registry, true).is_ok());
}

#[test]
fn the_sent_body_trims_the_model_and_keeps_the_conversation() {
    let mut run = CompletionRun::new(10);
    match run.on_api_key(Ok(Some("sk-test".to_owned())), &completion_request()) {
        CompletionWork::Send { api_key, body } => {
            assert_eq!(api_key, "sk-test");
            assert_eq!(body.model, "deepseek-chat");
            assert_eq!(body.temperature, 0);
            assert_eq!(body.response_format_type, "json_object");
            assert_eq!(body.messages.len(), 2);
            assert_eq!(body.messages[1].role, "user");
            assert_eq!(body.messages[1].content, " Tune kp ");
        },
        _ => panic!("the request should be sent"),
    }
    let direct = DeepSeekRequest::for_completion(&completion_request());
    assert_eq!(direct.messages[0].content, "Be brief");
}

#[test]
fn trim_removes_unicode_whitespace_at_both_ends_only() {
    assert_eq!(trim_text("  a b\n"), "a b");
    assert_eq!(trim_text("\u{3000}model\u{a0}"), "model");
    assert_eq!(trim_text(" \t "), "");
    assert_eq!(trim_text(""), "");
    assert_eq!(trim_text("x"), "x");
    assert_eq!(trim_text("\u{200b}x"), "\u{200b}x");
}
