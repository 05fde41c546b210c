use dctp::{decode_packet, encode_frame, Frame, FrameFlags, MessageType, ProtocolError};

#[test]
fn encoded_frame_has_delimiter_and_round_trips() {
    let frame = Frame::new(
        MessageType::Hello,
        FrameFlags::ack_required(),
        9,
        0,
        vec![1, 0, 2],
    )
    .unwrap();
    let wire = encode_frame(&frame).unwrap();
    assert_eq!(wire.last(), Some(&0));
    assert_eq!(decode_packet(&wire[..wire.len() - 1]).unwrap(), frame);
}

#[test]
fn corrupted_packet_is_rejected() {
    let frame = Frame::new(
        MessageType::Heartbeat,
        FrameFlags::ack_required(),
        10,
        77,
        vec![],
    )
    .unwrap();
    let mut wire = encode_frame(&frame).unwrap();
    wire[4] ^= 0x40;
    assert!(matches!(
        decode_packet(&wire[..wire.len() - 1]),
        Err(ProtocolError::CrcMismatch)
    ));
}

#[test]
fn unsupported_frame_version_is_rejected_before_encoding() {
    let mut frame = Frame::new(MessageType::Heartbeat, FrameFlags::none(), 1, 0, vec![]).unwrap();
    frame.header.version = 2;

    assert!(matches!(
        encode_frame(&frame),
        Err(ProtocolError::UnsupportedVersion)
    ));
}

#[test]
fn a_decoded_packet_reencodes_to_the_same_packet() {
    let frame = Frame::new(MessageType::ParamWrite, FrameFlags::ack_required(), 9, 0x0102_0304, vec![0, 1, 0, 2])
        .unwrap();
    let packet = encode_frame(&frame).unwrap();
    let decoded = decode_packet(&packet[..packet.len() - 1]).unwrap();
    assert_eq!(encode_frame(&decoded).unwrap(), packet);
}
