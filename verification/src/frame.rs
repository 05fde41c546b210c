//! Frame header fields, message types and flags.

use vstd::prelude::*;

use crate::error::ProtocolError;

verus! {

/// Magic number that opens every raw frame ("DT", little endian).
pub const MAGIC: u16 = 0x5444;
/// The only protocol version this implementation speaks.
pub const VERSION: u8 = 1;
/// Length of the fixed frame header in bytes.
pub const HEADER_LEN: usize = 13;
/// Largest payload a frame may carry.
pub const MAX_PAYLOAD_LEN: usize = 1024;

/// The message type byte of a frame header.
#[derive(Clone, Copy, Debug, PartialEq, Eq, Structural)]
pub enum MessageType {
    Hello,
    HelloAck,
    Heartbeat,
    HeartbeatAck,
    SessionClose,
    ManifestRequest,
    ManifestChunk,
    ManifestDone,
    ParamRead,
    ParamValue,
    ParamWrite,
    ParamWriteAck,
    ParamCommit,
    ParamCommitAck,
    TelemetrySubscribe,
    TelemetrySubscribeAck,
    TelemetryData,
    TelemetryStop,
    LogMessage,
    DeviceEvent,
    PrepareFlash,
    PrepareFlashAck,
    Error,
}

/// The wire code of each message type.
pub open spec fn message_type_code(t: MessageType) -> u8 {
    match t {
        MessageType::Hello => 0x01,
        MessageType::HelloAck => 0x02,
        MessageType::Heartbeat => 0x03,
        MessageType::HeartbeatAck => 0x04,
        MessageType::SessionClose => 0x05,
        MessageType::ManifestRequest => 0x10,
        MessageType::ManifestChunk => 0x11,
        MessageType::ManifestDone => 0x12,
        MessageType::ParamRead => 0x20,
        MessageType::ParamValue => 0x21,
        MessageType::ParamWrite => 0x22,
        MessageType::ParamWriteAck => 0x23,
        MessageType::ParamCommit => 0x24,
        MessageType::ParamCommitAck => 0x25,
        MessageType::TelemetrySubscribe => 0x30,
        MessageType::TelemetrySubscribeAck => 0x31,
        MessageType::TelemetryData => 0x32,
        MessageType::TelemetryStop => 0x33,
        MessageType::LogMessage => 0x40,
        MessageType::DeviceEvent => 0x41,
        MessageType::PrepareFlash => 0x50,
        MessageType::PrepareFlashAck => 0x51,
        MessageType::Error => 0x7f,
    }
}

/// The message type a wire code names, if any.
pub open spec fn message_type_from_code(value: u8) -> Result<MessageType, ProtocolError> {
    if value == 0x01 {
        Ok(MessageType::Hello)
    } else if value == 0x02 {
        Ok(MessageType::HelloAck)
    } else if value == 0x03 {
        Ok(MessageType::Heartbeat)
    } else if value == 0x04 {
        Ok(MessageType::HeartbeatAck)
    } else if value == 0x05 {
        Ok(MessageType::SessionClose)
    } else if value == 0x10 {
        Ok(MessageType::ManifestRequest)
    } else if value == 0x11 {
        Ok(MessageType::ManifestChunk)
    } else if value == 0x12 {
        Ok(MessageType::ManifestDone)
    } else if value == 0x20 {
        Ok(MessageType::ParamRead)
    } else if value == 0x21 {
        Ok(MessageType::ParamValue)
    } else if value == 0x22 {
        Ok(MessageType::ParamWrite)
    } else if value == 0x23 {
        Ok(MessageType::ParamWriteAck)
    } else if value == 0x24 {
        Ok(MessageType::ParamCommit)
    } else if value == 0x25 {
        Ok(MessageType::ParamCommitAck)
    } else if value == 0x30 {
        Ok(MessageType::TelemetrySubscribe)
    } else if value == 0x31 {
        Ok(MessageType::TelemetrySubscribeAck)
    } else if value == 0x32 {
        Ok(MessageType::TelemetryData)
    } else if value == 0x33 {
        Ok(MessageType::TelemetryStop)
    } else if value == 0x40 {
        Ok(MessageType::LogMessage)
    } else if value == 0x41 {
        Ok(MessageType::DeviceEvent)
    } else if value == 0x50 {
        Ok(MessageType::PrepareFlash)
    } else if value == 0x51 {
        Ok(MessageType::PrepareFlashAck)
    } else if value == 0x7f {
        Ok(MessageType::Error)
    } else {
        Err(ProtocolError::UnknownMessageType(value))
    }
}

/// Every message type's code names that message type again.
pub proof fn lemma_message_type_code_round_trip(t: MessageType)
    ensures
        message_type_from_code(message_type_code(t)) == Ok::<MessageType, ProtocolError>(t),
{
}

impl MessageType {
    /// The wire code of this message type.
    pub fn as_u8(self) -> (code: u8)
        ensures
            code == message_type_code(self),
    {
        match self {
            MessageType::Hello => 0x01,
            MessageType::HelloAck => 0x02,
            MessageType::Heartbeat => 0x03,
            MessageType::HeartbeatAck => 0x04,
            MessageType::SessionClose => 0x05,
            MessageType::ManifestRequest => 0x10,
            MessageType::ManifestChunk => 0x11,
            MessageType::ManifestDone => 0x12,
            MessageType::ParamRead => 0x20,
            MessageType::ParamValue => 0x21,
            MessageType::ParamWrite => 0x22,
            MessageType::ParamWriteAck => 0x23,
            MessageType::ParamCommit => 0x24,
            MessageType::ParamCommitAck => 0x25,
            MessageType::TelemetrySubscribe => 0x30,
            MessageType::TelemetrySubscribeAck => 0x31,
            MessageType::TelemetryData => 0x32,
            MessageType::TelemetryStop => 0x33,
            MessageType::LogMessage => 0x40,
            MessageType::DeviceEvent => 0x41,
            MessageType::PrepareFlash => 0x50,
            MessageType::PrepareFlashAck => 0x51,
            MessageType::Error => 0x7f,
        }
    }

    /// The message type that a wire code names; an unknown code is
    /// `UnknownMessageType` carrying that code.
    pub fn try_from_u8(value: u8) -> (r: Result<MessageType, ProtocolError>)
        ensures
            r == message_type_from_code(value),
    {
        match value {
            0x01 => Ok(MessageType::Hello),
            0x02 => Ok(MessageType::HelloAck),
            0x03 => Ok(MessageType::Heartbeat),
            0x04 => Ok(MessageType::HeartbeatAck),
            0x05 => Ok(MessageType::SessionClose),
            0x10 => Ok(MessageType::ManifestRequest),
            0x11 => Ok(MessageType::ManifestChunk),
            0x12 => Ok(MessageType::ManifestDone),
            0x20 => Ok(MessageType::ParamRead),
            0x21 => Ok(MessageType::ParamValue),
            0x22 => Ok(MessageType::ParamWrite),
            0x23 => Ok(MessageType::ParamWriteAck),
            0x24 => Ok(MessageType::ParamCommit),
            0x25 => Ok(MessageType::ParamCommitAck),
            0x30 => Ok(MessageType::TelemetrySubscribe),
            0x31 => Ok(MessageType::TelemetrySubscribeAck),
            0x32 => Ok(MessageType::TelemetryData),
            0x33 => Ok(MessageType::TelemetryStop),
            0x40 => Ok(MessageType::LogMessage),
            0x41 => Ok(MessageType::DeviceEvent),
            0x50 => Ok(MessageType::PrepareFlash),
            0x51 => Ok(MessageType::PrepareFlashAck),
            0x7f => Ok(MessageType::Error),
            _ => Err(ProtocolError::UnknownMessageType(value)),
        }
    }
}

/// The flags byte of a frame header.
#[derive(Clone, Copy, Debug, PartialEq, Eq, Structural)]
pub struct FrameFlags(pub u8);

impl FrameFlags {
    /// No flag set.
    pub fn none() -> (f: FrameFlags)
        ensures
            f.0 == 0,
    {
        FrameFlags(0)
    }

    /// The sender wants an acknowledgement (bit 0).
    pub fn ack_required() -> (f: FrameFlags)
        ensures
            f.0 == 1,
    {
        FrameFlags(1)
    }

    /// The frame answers a request (bit 1).
    pub fn response() -> (f: FrameFlags)
        ensures
            f.0 == 2,
    {
        FrameFlags(2)
    }

    /// The frame reports an error (bit 2).
    pub fn error() -> (f: FrameFlags)
        ensures
            f.0 == 4,
    {
        FrameFlags(4)
    }

    /// More fragments of the same response follow (bit 3).
    pub fn more_fragments() -> (f: FrameFlags)
        ensures
            f.0 == 8,
    {
        FrameFlags(8)
    }

    /// The raw flags byte.
    pub fn bits(self) -> (b: u8)
        ensures
            b == self.0,
    {
        self.0
    }

    /// Flags from a raw byte; every bit pattern is kept as it is.
    pub fn from_bits(bits: u8) -> (f: FrameFlags)
        ensures
            f.0 == bits,
    {
        FrameFlags(bits)
    }
}

/// The fixed-size part of a frame.
#[derive(Clone, Copy, Debug, PartialEq, Eq, Structural)]
pub struct FrameHeader {
    pub version: u8,
    pub message_type: MessageType,
    pub flags: FrameFlags,
    pub sequence: u16,
    pub session_id: u32,
    pub payload_len: u16,
}

/// A frame: a header and its payload.
#[derive(Clone, Debug, PartialEq, Eq)]
pub struct Frame {
    pub header: FrameHeader,
    pub payload: Vec<u8>,
}

impl View for Frame {
    type V = (FrameHeader, Seq<u8>);

    open spec fn view(&self) -> (FrameHeader, Seq<u8>) {
        (self.header, self.payload@)
    }
}

/// The shape `Frame::new` builds: current version and a length field that
/// matches the payload.
pub open spec fn frame_built_from(
    f: Frame,
    message_type: MessageType,
    flags: FrameFlags,
    sequence: u16,
    session_id: u32,
    payload: Seq<u8>,
) -> bool {
    &&& f.header.version == VERSION
    &&& f.header.message_type == message_type
    &&& f.header.flags == flags
    &&& f.header.sequence == sequence
    &&& f.header.session_id == session_id
    &&& f.header.payload_len as int == payload.len()
    &&& f.payload@ == payload
}

impl Frame {
    /// A version-1 frame around `payload`; a payload over `MAX_PAYLOAD_LEN`
    /// bytes is `PayloadTooLarge` with its length.
    pub fn new(
        message_type: MessageType,
        flags: FrameFlags,
        sequence: u16,
        session_id: u32,
        payload: Vec<u8>,
    ) -> (r: Result<Frame, ProtocolError>)
        ensures
            payload.len() > MAX_PAYLOAD_LEN ==> r == Err::<Frame, ProtocolError>(
                ProtocolError::PayloadTooLarge(payload.len()),
            ),
            payload.len() <= MAX_PAYLOAD_LEN ==> (r matches Ok(f) && frame_built_from(
                f,
                message_type,
                flags,
                sequence,
                session_id,
                payload@,
            )),
    {
        if payload.len() > MAX_PAYLOAD_LEN {
            return Err(ProtocolError::PayloadTooLarge(payload.len()));
        }
        let len = payload.len() as u16;
        Ok(Frame {
            header: FrameHeader { version: VERSION, message_type, flags, sequence, session_id, payload_len: len },
            payload,
        })
    }

    /// Whether two frames have the same header and payload.
    pub(crate) fn same_as(&self, other: &Frame) -> (b: bool)
        ensures
            b == (self@ == other@),
    {
        if self.header != other.header || self.payload.len() != other.payload.len() {
            return false;
        }
        let mut i: usize = 0;
        while i < self.payload.len()
            invariant
                i <= self.payload@.len(),
                self.payload@.len() == other.payload@.len(),
                forall|k: int| 0 <= k < i ==> self.payload@[k] == other.payload@[k],
            decreases self.payload@.len() - i,
        {
            if self.payload[i] != other.payload[i] {
                return false;
            }
            i = i + 1;
        }
        proof {
            assert(self.payload@ =~= other.payload@);
        }
        true
    }

    /// A second frame equal to this one.
    pub(crate) fn duplicate(&self) -> (f: Frame)
        ensures
            f@ == self@,
    {
        Frame {
            header: self.header,
            payload: crate::bytes::copy_range(self.payload.as_slice(), 0, self.payload.len()),
        }
    }
}

} // verus!
