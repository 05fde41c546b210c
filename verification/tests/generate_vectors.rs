use dctp::vectors::{normalize_lf, VECTOR_SESSION_ID};
use dctp::{
    build_vectors, decode_packet, manifest_text, HelloAck, MessageType, ParamState, ParamValue, TelemetryBatch,
    WireDecode,
};
use sha2::{Digest, Sha256};

#[test]
fn fixed_messages_produce_the_six_named_vectors() {
    let vectors = build_vectors().unwrap();
    assert_eq!(
        vectors.iter().map(|vector| vector.file).collect::<Vec<_>>(),
        [
            "hello.bin",
            "hello-ack.bin",
            "param-write.bin",
            "param-value.bin",
            "param-commit-ack.bin",
            "telemetry-mixed.bin",
        ]
    );
    assert!(vectors.iter().all(|vector| vector.bytes.last() == Some(&0)));
}

#[test]
fn vector_packets_decode_back_to_their_messages() {
    let vectors = build_vectors().unwrap();
    let ack = decode_packet(&vectors[1].bytes[..vectors[1].bytes.len() - 1]).unwrap();
    assert_eq!(ack.header.message_type, MessageType::HelloAck);
    assert_eq!(ack.header.session_id, VECTOR_SESSION_ID);
    let ack = HelloAck::decode(&ack.payload).unwrap();
    assert_eq!(&ack.device_id, b"DCTP-VECTOR-0001");
    assert_eq!(ack.capabilities.bits(), 3);

    let state = decode_packet(&vectors[3].bytes[..vectors[3].bytes.len() - 1]).unwrap();
    let state = ParamState::decode(&state.payload).unwrap();
    assert_eq!(state.value, ParamValue::F32(2.5f32.to_bits()));
    assert_eq!(state.persisted_value, Some(ParamValue::F32(1.0f32.to_bits())));

    let telemetry = decode_packet(&vectors[5].bytes[..vectors[5].bytes.len() - 1]).unwrap();
    assert_eq!(telemetry.header.sequence, 0x1004);
    let batch = TelemetryBatch::decode(&telemetry.payload, 4).unwrap();
    assert_eq!(batch.samples[0].values, vec![1.5f32.to_bits(), (-4i32) as u32, 8, 0b101]);
    assert_eq!(batch.samples[1].dt_us, 2_000);
}

#[test]
fn manifest_text_lists_each_vector_with_length_and_digest() {
    let vectors = build_vectors().unwrap();
    let text = manifest_text(&vectors);
    assert!(text.starts_with("{\n  \"protocol_version\": 1,\n  \"vectors\": [\n"));
    assert!(text.ends_with("    }\n  ]\n}\n"));
    for (index, vector) in vectors.iter().enumerate() {
        let digest: String = Sha256::digest(&vector.bytes).iter().map(|byte| format!("{byte:02x}")).collect();
        let separator = if index + 1 == vectors.len() { "" } else { "," };
        let entry = format!(
            "    {{\n      \"file\": \"{}\",\n      \"description\": \"{}\",\n      \"byte_length\": {},\n      \"sha256\": \"{}\"\n    }}{}\n",
            vector.file,
            vector.description,
            vector.bytes.len(),
            digest,
            separator
        );
        assert!(text.contains(&entry), "missing entry for {}", vector.file);
    }
}

#[test]
fn normalize_lf_turns_crlf_into_lf_only() {
    assert_eq!(normalize_lf("a\r\nb\r\n"), "a\nb\n");
    assert_eq!(normalize_lf("\r\r\n"), "\r\n");
    assert_eq!(normalize_lf("plain\rtext\n"), "plain\rtext\n");
    assert_eq!(normalize_lf("编码器\r\n"), "编码器\n");
    assert_eq!(normalize_lf(""), "");
}
