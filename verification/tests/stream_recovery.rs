use dctp::{
    encode_frame, Frame, FrameFlags, MessageType, ProtocolError, StreamDecoder, StreamStats,
};

#[test]
fn decoder_recovers_after_noise_and_chunk_boundaries() {
    let first =
        encode_frame(&Frame::new(MessageType::Heartbeat, FrameFlags::none(), 1, 7, vec![]).unwrap())
            .unwrap();
    let second =
        encode_frame(&Frame::new(MessageType::Heartbeat, FrameFlags::none(), 2, 7, vec![5]).unwrap())
            .unwrap();
    let mut decoder = StreamDecoder::new();
    let mut output = decoder.push(&[0x99, 0x88, 0x00]);
    output.extend(decoder.push(&first[..3]));
    output.extend(decoder.push(&first[3..]));
    output.extend(decoder.push(&second));

    assert!(output[0].is_err());
    assert_eq!(output.iter().filter(|item| item.is_ok()).count(), 2);
}

#[test]
fn overlong_packet_drops_until_next_delimiter() {
    let mut decoder = StreamDecoder::new();
    let output = decoder.push(&vec![0x55; 1100]);
    assert!(output.is_empty());
    let output = decoder.push(&[0x00]);
    assert!(matches!(
        output.as_slice(),
        [Err(ProtocolError::PacketTooLong)]
    ));
}

#[test]
fn decoder_tracks_decode_failure_and_overflow_statistics() {
    let mut decoder = StreamDecoder::new();
    let _ = decoder.push(&[0x99, 0x00]);
    let _ = decoder.push(&vec![0x55; 1100]);
    let _ = decoder.push(&[0x00]);
    let frame =
        encode_frame(&Frame::new(MessageType::Heartbeat, FrameFlags::none(), 1, 7, vec![]).unwrap())
            .unwrap();
    let _ = decoder.push(&frame);

    assert_eq!(
        decoder.stats(),
        StreamStats {
            decoded: 1,
            malformed: 1,
            overflow: 1,
        }
    );
}

#[test]
fn arbitrary_input_never_grows_the_buffer_without_bound() {
    let mut state: u32 = 0x1234_5678;
    for length in [0usize, 1, 17, 1_099, 1_100, 1_101, 4_096, 19_999] {
        let mut data = Vec::with_capacity(length);
        for _ in 0..length {
            state = state.wrapping_mul(1_664_525).wrapping_add(1_013_904_223);
            data.push((state >> 24) as u8);
        }
        let mut decoder = StreamDecoder::new();
        let _ = decoder.push(&data);
        assert!(decoder.buffered_len() <= dctp::MAX_ENCODED_PACKET_LEN);
    }
}

#[test]
fn reset_forgets_a_partial_packet_and_keeps_the_counts() {
    let frame =
        encode_frame(&Frame::new(MessageType::Heartbeat, FrameFlags::none(), 3, 7, vec![1, 2]).unwrap())
            .unwrap();
    let mut decoder = StreamDecoder::new();
    assert_eq!(decoder.push(&frame).len(), 1);
    assert!(decoder.push(&frame[..4]).is_empty());
    assert_eq!(decoder.buffered_len(), 4);
    decoder.reset();
    assert_eq!(decoder.buffered_len(), 0);
    assert_eq!(decoder.stats(), StreamStats { decoded: 1, malformed: 0, overflow: 0 });
    let output = decoder.push(&frame);
    assert_eq!(output.len(), 1);
    assert_eq!(output[0].as_ref().unwrap().header.sequence, 3);
}
