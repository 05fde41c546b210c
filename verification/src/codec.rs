//! Frame encoding to delimited wire packets and decoding back.

use vstd::prelude::*;

use crate::bytes::{
    copy_range, from_le16, from_le32, get_le16, get_le32, le16, le32, lemma_from_le16_round_trip,
    lemma_from_le32_round_trip, lemma_le16_round_trip, lemma_le32_round_trip, push_all, push_le16, push_le32,
};
use crate::checksum::{crc16_ccitt_false, spec_crc16};
use crate::cobs::{
    cobs_decode, cobs_encode, lemma_cobs_encode_zero_free, lemma_cobs_round_trip, spec_cobs_decode,
    spec_cobs_encode, zero_free,
};
use crate::error::ProtocolError;
use crate::frame::{
    lemma_message_type_code_round_trip, message_type_code, message_type_from_code, Frame,
    FrameFlags, FrameHeader, MessageType, HEADER_LEN, MAGIC, MAX_PAYLOAD_LEN, VERSION,
};

verus! {

/// The raw frame: header fields in wire order, then the payload.
pub open spec fn raw_frame(h: FrameHeader, payload: Seq<u8>) -> Seq<u8> {
    le16(MAGIC) + seq![h.version, message_type_code(h.message_type), h.flags.0] + le16(h.sequence)
        + le32(h.session_id) + le16(h.payload_len) + payload
}

/// The raw frame followed by its CRC-16 in little-endian order.
pub open spec fn raw_frame_with_crc(h: FrameHeader, payload: Seq<u8>) -> Seq<u8> {
    raw_frame(h, payload) + le16(spec_crc16(raw_frame(h, payload)))
}

/// A frame's wire packet: the COBS encoding of header, payload and CRC,
/// then the zero delimiter. A payload over the limit or a length field that
/// disagrees with the payload is `InvalidLength`; a version other than
/// `VERSION` is `UnsupportedVersion`.
pub open spec fn spec_encode_frame(h: FrameHeader, payload: Seq<u8>) -> Result<Seq<u8>, ProtocolError> {
    if h.version != VERSION {
        Err(ProtocolError::UnsupportedVersion)
    } else if payload.len() > MAX_PAYLOAD_LEN || h.payload_len as int != payload.len() {
        Err(ProtocolError::InvalidLength)
    } else {
        Ok(spec_cobs_encode(raw_frame_with_crc(h, payload)).push(0))
    }
}

/// The frame held by a raw (already COBS-decoded) frame, or why it holds none.
pub open spec fn spec_parse_raw(raw: Seq<u8>) -> Result<(FrameHeader, Seq<u8>), ProtocolError> {
    if raw.len() < HEADER_LEN + 2 {
        Err(ProtocolError::Truncated)
    } else if from_le16(raw[0], raw[1]) != MAGIC {
        Err(ProtocolError::InvalidMagic)
    } else if raw[2] != VERSION {
        Err(ProtocolError::UnsupportedVersion)
    } else if from_le16(raw[11], raw[12]) > MAX_PAYLOAD_LEN {
        Err(ProtocolError::PayloadTooLarge(from_le16(raw[11], raw[12]) as usize))
    } else if raw.len() != HEADER_LEN + from_le16(raw[11], raw[12]) + 2 {
        Err(ProtocolError::InvalidLength)
    } else if spec_crc16(raw.subrange(0, raw.len() - 2)) != from_le16(
        raw[raw.len() - 2],
        raw[raw.len() - 1],
    ) {
        Err(ProtocolError::CrcMismatch)
    } else {
        match message_type_from_code(raw[3]) {
            Err(e) => Err(e),
            Ok(message_type) => Ok(
                (
                    FrameHeader {
                        version: raw[2],
                        message_type,
                        flags: FrameFlags(raw[4]),
                        sequence: from_le16(raw[5], raw[6]),
                        session_id: from_le32(raw[7], raw[8], raw[9], raw[10]),
                        payload_len: from_le16(raw[11], raw[12]),
                    },
                    raw.subrange(HEADER_LEN as int, raw.len() - 2),
                ),
            ),
        }
    }
}

/// The frame held by a packet without its delimiter: COBS errors first, then
/// the checks of `spec_parse_raw` in order.
pub open spec fn spec_decode_packet(packet: Seq<u8>) -> Result<(FrameHeader, Seq<u8>), ProtocolError> {
    match spec_cobs_decode(packet) {
        Err(e) => Err(e),
        Ok(raw) => spec_parse_raw(raw),
    }
}

/// Every frame that encodes decodes back to itself from its packet without
/// the delimiter, and the packet holds no zero byte but its last one.
pub proof fn lemma_frame_round_trip(h: FrameHeader, payload: Seq<u8>)
    requires
        spec_encode_frame(h, payload) is Ok,
    ensures
        spec_decode_packet(spec_encode_frame(h, payload)->Ok_0.drop_last()) == Ok::<
            (FrameHeader, Seq<u8>),
            ProtocolError,
        >((h, payload)),
        zero_free(spec_encode_frame(h, payload)->Ok_0.drop_last()),
        spec_encode_frame(h, payload)->Ok_0.last() == 0,
{
    let raw = raw_frame(h, payload);
    let full = raw_frame_with_crc(h, payload);
    let crc = spec_crc16(raw);
    lemma_le16_round_trip(MAGIC);
    lemma_le16_round_trip(h.sequence);
    lemma_le32_round_trip(h.session_id);
    lemma_le16_round_trip(h.payload_len);
    lemma_le16_round_trip(crc);
    lemma_message_type_code_round_trip(h.message_type);
    assert(raw.len() == 13 + payload.len());
    assert(full.len() == 15 + payload.len());
    lemma_cobs_round_trip(full);
    lemma_cobs_encode_zero_free(full);
    let packet = spec_cobs_encode(full).push(0);
    assert(packet.drop_last() =~= spec_cobs_encode(full));
    assert(full[0] == le16(MAGIC)[0] && full[1] == le16(MAGIC)[1]);
    assert(full[2] == h.version);
    assert(full[3] == message_type_code(h.message_type));
    assert(full[4] == h.flags.0);
    assert(full[5] == le16(h.sequence)[0] && full[6] == le16(h.sequence)[1]);
    assert(full[7] == le32(h.session_id)[0] && full[8] == le32(h.session_id)[1]);
    assert(full[9] == le32(h.session_id)[2] && full[10] == le32(h.session_id)[3]);
    assert(full[11] == le16(h.payload_len)[0] && full[12] == le16(h.payload_len)[1]);
    assert(full.subrange(0, full.len() - 2) =~= raw);
    assert(full[full.len() - 2] == le16(crc)[0] && full[full.len() - 1] == le16(crc)[1]);
    assert(full.subrange(13, full.len() - 2) =~= payload);
    assert(h.flags == FrameFlags(h.flags.0));
}

/// A packet that decodes holds exactly the raw frame its frame encodes to:
/// the decoded frame has the current version and a length field that agrees
/// with its payload, so it encodes, and the COBS decoding of its new packet
/// is the same raw bytes as that of the packet it came from.
pub proof fn lemma_decoded_frame_reencodes(packet: Seq<u8>)
    requires
        spec_decode_packet(packet) is Ok,
    ensures
        ({
            let (h, payload) = spec_decode_packet(packet)->Ok_0;
            &&& h.version == VERSION
            &&& payload.len() == h.payload_len
            &&& payload.len() <= MAX_PAYLOAD_LEN
            &&& spec_encode_frame(h, payload) is Ok
            &&& spec_cobs_decode(spec_encode_frame(h, payload)->Ok_0.drop_last()) == spec_cobs_decode(packet)
        }),
{
    let raw = spec_cobs_decode(packet)->Ok_0;
    let (h, payload) = spec_decode_packet(packet)->Ok_0;
    let n = raw.len();
    lemma_from_le16_round_trip(raw[0], raw[1]);
    lemma_from_le16_round_trip(raw[5], raw[6]);
    lemma_from_le32_round_trip(raw[7], raw[8], raw[9], raw[10]);
    lemma_from_le16_round_trip(raw[11], raw[12]);
    lemma_from_le16_round_trip(raw[n - 2], raw[n - 1]);
    let mt = message_type_from_code(raw[3]);
    assert(message_type_code(mt->Ok_0) == raw[3]);
    assert(raw_frame(h, payload) =~= raw.subrange(0, n - 2));
    assert(raw_frame_with_crc(h, payload) =~= raw);
    lemma_cobs_round_trip(raw);
    let e = spec_cobs_encode(raw).push(0);
    assert(e.drop_last() =~= spec_cobs_encode(raw));
}

/// The wire packet of `frame`, delimiter included; see `spec_encode_frame`.
pub fn encode_frame(frame: &Frame) -> (r: Result<Vec<u8>, ProtocolError>)
    ensures
        match r {
            Ok(v) => spec_encode_frame(frame.header, frame.payload@) == Ok::<Seq<u8>, ProtocolError>(
                v@,
            ),
            Err(e) => spec_encode_frame(frame.header, frame.payload@) == Err::<
                Seq<u8>,
                ProtocolError,
            >(e),
        },
{
    if frame.header.version != VERSION {
        return Err(ProtocolError::UnsupportedVersion);
    }
    if frame.payload.len() > MAX_PAYLOAD_LEN || frame.header.payload_len as usize
        != frame.payload.len() {
        return Err(ProtocolError::InvalidLength);
    }
    let h = frame.header;
    let mut raw: Vec<u8> = Vec::new();
    push_le16(&mut raw, MAGIC);
    raw.push(h.version);
    raw.push(h.message_type.as_u8());
    raw.push(h.flags.bits());
    push_le16(&mut raw, h.sequence);
    push_le32(&mut raw, h.session_id);
    push_le16(&mut raw, h.payload_len);
    push_all(&mut raw, frame.payload.as_slice());
    proof {
        assert(raw@ =~= raw_frame(h, frame.payload@));
    }
    let crc = crc16_ccitt_false(raw.as_slice());
    push_le16(&mut raw, crc);
    let mut encoded = cobs_encode(raw.as_slice());
    encoded.push(0);
    Ok(encoded)
}

/// The frame held by a wire packet given without its zero delimiter; see
/// `spec_decode_packet` for the errors and their order.
pub fn decode_packet(encoded_without_delimiter: &[u8]) -> (r: Result<Frame, ProtocolError>)
    ensures
        match r {
            Ok(f) => spec_decode_packet(encoded_without_delimiter@) == Ok::<
                (FrameHeader, Seq<u8>),
                ProtocolError,
            >(f@),
            Err(e) => spec_decode_packet(encoded_without_delimiter@) == Err::<
                (FrameHeader, Seq<u8>),
                ProtocolError,
            >(e),
        },
{
    let raw = match cobs_decode(encoded_without_delimiter) {
        Ok(raw) => raw,
        Err(e) => return Err(e),
    };
    if raw.len() < HEADER_LEN + 2 {
        return Err(ProtocolError::Truncated);
    }
    let magic = get_le16(raw[0], raw[1]);
    if magic != MAGIC {
        return Err(ProtocolError::InvalidMagic);
    }
    if raw[2] != VERSION {
        return Err(ProtocolError::UnsupportedVersion);
    }
    let payload_len = get_le16(raw[11], raw[12]) as usize;
    if payload_len > MAX_PAYLOAD_LEN {
        return Err(ProtocolError::PayloadTooLarge(payload_len));
    }
    let expected_len = HEADER_LEN + payload_len + 2;
    if raw.len() != expected_len {
        return Err(ProtocolError::InvalidLength);
    }
    let expected_crc = get_le16(raw[expected_len - 2], raw[expected_len - 1]);
    let body = copy_range(raw.as_slice(), 0, expected_len - 2);
    if crc16_ccitt_false(body.as_slice()) != expected_crc {
        return Err(ProtocolError::CrcMismatch);
    }
    let message_type = match MessageType::try_from_u8(raw[3]) {
        Ok(t) => t,
        Err(e) => return Err(e),
    };
    let sequence = get_le16(raw[5], raw[6]);
    let session_id = get_le32(raw[7], raw[8], raw[9], raw[10]);
    let payload = copy_range(raw.as_slice(), HEADER_LEN, HEADER_LEN + payload_len);
    Ok(Frame {
        header: FrameHeader {
            version: raw[2],
            message_type,
            flags: FrameFlags::from_bits(raw[4]),
            sequence,
            session_id,
            payload_len: payload_len as u16,
        },
        payload,
    })
}

} // verus!
