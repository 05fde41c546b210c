use dctp::sim::link::{enqueue_responses, telemetry_sample_count};
use dctp::sim::signals::time_channel_value_of;
use dctp::{
    fixed_manifest, Frame, FrameFlags, Heartbeat, MessageType, ParamValue, ParamWrite, Priority, PriorityTxQueue,
    QueuedFrame, SimConfig, SimDevice, TelemetryDescriptor, TelemetryType, WireEncode, SESSION_EXPIRATION_MS,
};

fn reliable(message_type: MessageType, sequence: u16, session_id: u32, payload: Vec<u8>) -> Frame {
    Frame::new(message_type, FrameFlags::ack_required(), sequence, session_id, payload).unwrap()
}

fn heartbeat(device: &mut SimDevice, session: u32, sequence: u16, now_ms: u64) -> MessageType {
    let payload = Heartbeat { monotonic_ms: now_ms as u32 }.encode().unwrap();
    let responses = device.handle(reliable(MessageType::Heartbeat, sequence, session, payload), now_ms);
    assert_eq!(responses.len(), 1);
    responses[0].frame.header.message_type
}

fn channel(name: &str, telemetry_type: TelemetryType) -> TelemetryDescriptor {
    TelemetryDescriptor {
        channel_id: 1,
        telemetry_type,
        machine_name: name.into(),
        display_name: name.into(),
        group: "g".into(),
        unit: String::new(),
    }
}

#[test]
fn a_live_session_is_refreshed_by_each_valid_frame() {
    let mut device = SimDevice::new(SimConfig::default());
    let session = device.open_session(1, 0).unwrap();
    assert_eq!(heartbeat(&mut device, session, 1, SESSION_EXPIRATION_MS - 1), MessageType::HeartbeatAck);
    assert_eq!(heartbeat(&mut device, session, 2, 2 * SESSION_EXPIRATION_MS - 2), MessageType::HeartbeatAck);
    assert_eq!(heartbeat(&mut device, session, 3, 3 * SESSION_EXPIRATION_MS - 2), MessageType::Error);
    assert!(device.validate_session(session).is_err());
}

#[test]
fn a_foreign_session_leaves_every_parameter_alone() {
    let mut device = SimDevice::new(SimConfig::default());
    let session = device.open_session(1, 0).unwrap();
    let write = ParamWrite { param_id: 1, expected_revision: 0, value: ParamValue::F32(2.0f32.to_bits()) };
    let responses = device.handle(
        reliable(MessageType::ParamWrite, 4, session ^ 0xffff, write.encode().unwrap()),
        5,
    );
    assert_eq!(responses[0].frame.header.message_type, MessageType::Error);
    assert_eq!(device.parameter_revision(1), Some(0));
    assert_eq!(device.parameter_named("pid.kp"), Some(ParamValue::F32(1.0f32.to_bits())));
}

#[test]
fn acknowledged_retries_are_answered_from_the_cache() {
    let mut device = SimDevice::new(SimConfig::default());
    let session = device.open_session(1, 0).unwrap();
    let write = ParamWrite { param_id: 100, expected_revision: 0, value: ParamValue::U32(1024) };
    let request = reliable(MessageType::ParamWrite, 9, session, write.encode().unwrap());
    let first = device.handle(request.clone(), 10);
    let second = device.handle(request, 2_900);
    assert_eq!(first, second);
    assert_eq!(device.parameter_revision(100), Some(1));
    assert_eq!(device.parameter_named("encoder.left.ppr"), Some(ParamValue::U32(1024)));
}

#[test]
fn catalogue_manifest_encodes_and_validates() {
    let manifest = fixed_manifest();
    assert_eq!(manifest.parameters.len(), 15);
    assert_eq!(manifest.telemetry.len(), 16);
    assert!(manifest.manifest_crc32().is_ok());
    let config = SimConfig::default();
    assert_eq!(&config.device_id, b"DCTP-SIM-DEVICE!");
    assert_eq!(config.boot_count, 1);
    let pid = &manifest.parameters[0];
    assert_eq!(pid.default_value, ParamValue::F32(1.0f32.to_bits()));
}

#[test]
fn time_channels_follow_the_encoder_clock() {
    let left = channel("encoder.left_delta", TelemetryType::I32);
    let right = channel("encoder.right_delta", TelemetryType::I32);
    let total = channel("encoder.right_total", TelemetryType::U32);
    let faults = channel("drive.fault_flags", TelemetryType::Flags32);
    assert_eq!(time_channel_value_of(&left, 6_000), Some(21));
    assert_eq!(time_channel_value_of(&right, 6_000), Some((-21i32) as u32));
    assert_eq!(time_channel_value_of(&total, 6_000), Some(57));
    assert_eq!(time_channel_value_of(&faults, 5_000_000 + 9_999), Some(1));
    assert_eq!(time_channel_value_of(&faults, 5_000_000 + 10_000), Some(0));
    assert_eq!(time_channel_value_of(&channel("drive.speed_mps", TelemetryType::F32), 0), None);
    assert_eq!(time_channel_value_of(&channel("custom.x", TelemetryType::F32), 0), Some(1.5f32.to_bits()));
    assert_eq!(time_channel_value_of(&channel("other", TelemetryType::U32), 7_999), Some(7));
    assert_eq!(time_channel_value_of(&channel("other", TelemetryType::F32), 7_999), None);
}

#[test]
fn dropped_telemetry_batches_count_their_samples() {
    let mut device = SimDevice::new(SimConfig::default());
    let mut queue = PriorityTxQueue::with_capacities([1, 1, 0, 1]);
    let batch = Frame::new(MessageType::TelemetryData, FrameFlags::none(), 1, 1, vec![0, 0, 0, 0, 3, 1]).unwrap();
    assert_eq!(telemetry_sample_count(&batch), 3);
    let log = Frame::new(MessageType::LogMessage, FrameFlags::none(), 2, 1, vec![]).unwrap();
    assert_eq!(telemetry_sample_count(&log), 0);
    let responses = vec![
        QueuedFrame { priority: Priority::Telemetry, frame: batch },
        QueuedFrame { priority: Priority::Log, frame: log },
    ];
    assert!(enqueue_responses(&mut queue, &mut device, responses).is_ok());
    assert_eq!(queue.dropped_telemetry(), 1);
    let safety = Frame::new(MessageType::HeartbeatAck, FrameFlags::none(), 3, 1, vec![]).unwrap();
    let responses = vec![
        QueuedFrame { priority: Priority::Safety, frame: safety.clone() },
        QueuedFrame { priority: Priority::Safety, frame: safety },
    ];
    assert!(enqueue_responses(&mut queue, &mut device, responses).is_err());
}
