//! Session messages: capabilities, error codes, the handshake and heartbeat.

use vstd::prelude::*;

use crate::bytes::{
    from_le16, from_le32, le16, le32, lemma_le16_round_trip, lemma_le32_round_trip, u16_at, u32_at,
};
use crate::error::ProtocolError;
use crate::frame::{
    lemma_message_type_code_round_trip, message_type_code, message_type_from_code, MessageType,
};
use crate::wire::{
    rd_finish, rd_u16, rd_u8, rd_utf8, str_bytes, wr_utf8, WireDecode, WireEncode, WireReader,
    WireWriter,
};
use vstd::utf8::valid_utf8;

verus! {

/// The capability bits a device announces in its handshake.
#[derive(Clone, Copy, Debug, PartialEq, Eq, Structural)]
pub struct CapabilityFlags(pub u32);

impl CapabilityFlags {
    /// Parameter read and write (bit 0).
    pub fn parameters() -> (f: CapabilityFlags)
        ensures
            f.0 == 1,
    {
        CapabilityFlags(1)
    }

    /// Telemetry streaming (bit 1).
    pub fn telemetry() -> (f: CapabilityFlags)
        ensures
            f.0 == 2,
    {
        CapabilityFlags(2)
    }

    /// Persistent parameter storage (bit 2).
    pub fn persistence() -> (f: CapabilityFlags)
        ensures
            f.0 == 4,
    {
        CapabilityFlags(4)
    }

    /// Structured log messages (bit 3).
    pub fn structured_log() -> (f: CapabilityFlags)
        ensures
            f.0 == 8,
    {
        CapabilityFlags(8)
    }

    /// Preparation for a firmware flash (bit 4).
    pub fn prepare_flash() -> (f: CapabilityFlags)
        ensures
            f.0 == 16,
    {
        CapabilityFlags(16)
    }

    /// Flags from raw bits; every pattern is kept as it is.
    pub fn from_bits(bits: u32) -> (f: CapabilityFlags)
        ensures
            f.0 == bits,
    {
        CapabilityFlags(bits)
    }

    /// The raw bits.
    pub fn bits(self) -> (b: u32)
        ensures
            b == self.0,
    {
        self.0
    }

    /// Whether every bit of `other` is set in `self`.
    pub fn contains(self, other: CapabilityFlags) -> (b: bool)
        ensures
            b == (self.0 & other.0 == other.0),
    {
        self.0 & other.0 == other.0
    }
}

impl core::ops::BitOr for CapabilityFlags {
    type Output = CapabilityFlags;

    fn bitor(self, rhs: CapabilityFlags) -> (r: CapabilityFlags)
        ensures
            r.0 == self.0 | rhs.0,
    {
        CapabilityFlags(self.0 | rhs.0)
    }
}

impl vstd::std_specs::ops::BitOrSpecImpl for CapabilityFlags {
    open spec fn obeys_bitor_spec() -> bool {
        true
    }

    open spec fn bitor_req(self, rhs: CapabilityFlags) -> bool {
        true
    }

    open spec fn bitor_spec(self, rhs: CapabilityFlags) -> CapabilityFlags {
        CapabilityFlags(self.0 | rhs.0)
    }
}

/// The error codes a device reports; codes this version does not know are
/// kept as `Unknown`.
#[derive(Clone, Copy, Debug, PartialEq, Eq, Structural)]
pub enum ErrorCode {
    UnsupportedVersion,
    InvalidSession,
    UnknownMessage,
    InvalidLength,
    InvalidParamId,
    TypeMismatch,
    OutOfRange,
    ReadOnly,
    RevisionConflict,
    Busy,
    QueueFull,
    StorageFailed,
    VerifyFailed,
    NotReady,
    InternalError,
    Unknown(u16),
}

/// The error code a wire value names.
pub open spec fn error_code_from(value: u16) -> ErrorCode {
    if value == 1 {
        ErrorCode::UnsupportedVersion
    } else if value == 2 {
        ErrorCode::InvalidSession
    } else if value == 3 {
        ErrorCode::UnknownMessage
    } else if value == 4 {
        ErrorCode::InvalidLength
    } else if value == 5 {
        ErrorCode::InvalidParamId
    } else if value == 6 {
        ErrorCode::TypeMismatch
    } else if value == 7 {
        ErrorCode::OutOfRange
    } else if value == 8 {
        ErrorCode::ReadOnly
    } else if value == 9 {
        ErrorCode::RevisionConflict
    } else if value == 10 {
        ErrorCode::Busy
    } else if value == 11 {
        ErrorCode::QueueFull
    } else if value == 12 {
        ErrorCode::StorageFailed
    } else if value == 13 {
        ErrorCode::VerifyFailed
    } else if value == 14 {
        ErrorCode::NotReady
    } else if value == 15 {
        ErrorCode::InternalError
    } else {
        ErrorCode::Unknown(value)
    }
}

/// The wire value of an error code.
pub open spec fn error_code_value(code: ErrorCode) -> u16 {
    match code {
        ErrorCode::UnsupportedVersion => 1,
        ErrorCode::InvalidSession => 2,
        ErrorCode::UnknownMessage => 3,
        ErrorCode::InvalidLength => 4,
        ErrorCode::InvalidParamId => 5,
        ErrorCode::TypeMismatch => 6,
        ErrorCode::OutOfRange => 7,
        ErrorCode::ReadOnly => 8,
        ErrorCode::RevisionConflict => 9,
        ErrorCode::Busy => 10,
        ErrorCode::QueueFull => 11,
        ErrorCode::StorageFailed => 12,
        ErrorCode::VerifyFailed => 13,
        ErrorCode::NotReady => 14,
        ErrorCode::InternalError => 15,
        ErrorCode::Unknown(value) => value,
    }
}

/// Every wire value survives the trip through `ErrorCode`, and every code
/// whose value is not taken by a named code survives the trip through its
/// value.
pub proof fn lemma_error_code_round_trip(value: u16, code: ErrorCode)
    ensures
        error_code_value(error_code_from(value)) == value,
        (code matches ErrorCode::Unknown(v) ==> !(1 <= v <= 15)) ==> error_code_from(
            error_code_value(code),
        ) == code,
{
}

impl ErrorCode {
    /// The error code a wire value names.
    pub fn from_u16(value: u16) -> (c: ErrorCode)
        ensures
            c == error_code_from(value),
    {
        match value {
            1 => ErrorCode::UnsupportedVersion,
            2 => ErrorCode::InvalidSession,
            3 => ErrorCode::UnknownMessage,
            4 => ErrorCode::InvalidLength,
            5 => ErrorCode::InvalidParamId,
            6 => ErrorCode::TypeMismatch,
            7 => ErrorCode::OutOfRange,
            8 => ErrorCode::ReadOnly,
            9 => ErrorCode::RevisionConflict,
            10 => ErrorCode::Busy,
            11 => ErrorCode::QueueFull,
            12 => ErrorCode::StorageFailed,
            13 => ErrorCode::VerifyFailed,
            14 => ErrorCode::NotReady,
            15 => ErrorCode::InternalError,
            value => ErrorCode::Unknown(value),
        }
    }

    /// The wire value of this code.
    pub fn as_u16(self) -> (v: u16)
        ensures
            v == error_code_value(self),
    {
        match self {
            ErrorCode::UnsupportedVersion => 1,
            ErrorCode::InvalidSession => 2,
            ErrorCode::UnknownMessage => 3,
            ErrorCode::InvalidLength => 4,
            ErrorCode::InvalidParamId => 5,
            ErrorCode::TypeMismatch => 6,
            ErrorCode::OutOfRange => 7,
            ErrorCode::ReadOnly => 8,
            ErrorCode::RevisionConflict => 9,
            ErrorCode::Busy => 10,
            ErrorCode::QueueFull => 11,
            ErrorCode::StorageFailed => 12,
            ErrorCode::VerifyFailed => 13,
            ErrorCode::NotReady => 14,
            ErrorCode::InternalError => 15,
            ErrorCode::Unknown(value) => value,
        }
    }
}

/// The host's handshake request.
#[derive(Clone, Copy, Debug, PartialEq, Eq, Structural)]
pub struct Hello {
    pub client_nonce: u32,
    pub min_version: u8,
    pub max_version: u8,
    pub max_payload: u16,
}

impl View for Hello {
    type V = Hello;

    open spec fn view(&self) -> Hello {
        *self
    }
}

/// A `Hello` on the wire: eight bytes.
pub open spec fn hello_wire(v: Hello) -> Seq<u8> {
    le32(v.client_nonce) + seq![v.min_version, v.max_version] + le16(v.max_payload)
}

/// Fewer than eight bytes are `Truncated`, more are `InvalidLength`.
pub open spec fn hello_from_wire(b: Seq<u8>) -> Result<Hello, ProtocolError> {
    if b.len() < 8 {
        Err(ProtocolError::Truncated)
    } else if b.len() > 8 {
        Err(ProtocolError::InvalidLength)
    } else {
        Ok(
            Hello {
                client_nonce: from_le32(b[0], b[1], b[2], b[3]),
                min_version: b[4],
                max_version: b[5],
                max_payload: from_le16(b[6], b[7]),
            },
        )
    }
}

impl WireEncode for Hello {
    open spec fn spec_wire_encode(v: Hello) -> Result<Seq<u8>, ProtocolError> {
        Ok(hello_wire(v))
    }

    fn encode(&self) -> (r: Result<Vec<u8>, ProtocolError>) {
        let mut writer = WireWriter::new();
        writer.put_u32(self.client_nonce);
        writer.put_u8(self.min_version);
        writer.put_u8(self.max_version);
        writer.put_u16(self.max_payload);
        proof {
            assert(writer@ =~= hello_wire(*self));
        }
        Ok(writer.into_inner())
    }
}

impl WireDecode for Hello {
    open spec fn spec_wire_decode(b: Seq<u8>) -> Result<Hello, ProtocolError> {
        hello_from_wire(b)
    }

    fn decode(bytes: &[u8]) -> (r: Result<Hello, ProtocolError>) {
        let mut reader = WireReader::new(bytes);
        let client_nonce = reader.read_u32()?;
        let min_version = reader.read_u8()?;
        let max_version = reader.read_u8()?;
        let max_payload = reader.read_u16()?;
        reader.finish()?;
        Ok(Hello { client_nonce, min_version, max_version, max_payload })
    }
}

/// Every `Hello` decodes back from its encoding.
pub proof fn lemma_hello_round_trip(v: Hello)
    ensures
        hello_from_wire(hello_wire(v)) == Ok::<Hello, ProtocolError>(v),
{
    lemma_le32_round_trip(v.client_nonce);
    lemma_le16_round_trip(v.max_payload);
    let b = hello_wire(v);
    assert(b.len() == 8);
    assert(b[0] == le32(v.client_nonce)[0] && b[1] == le32(v.client_nonce)[1]);
    assert(b[2] == le32(v.client_nonce)[2] && b[3] == le32(v.client_nonce)[3]);
    assert(b[6] == le16(v.max_payload)[0] && b[7] == le16(v.max_payload)[1]);
}

/// The device's liveness message, echoed by the acknowledgement.
#[derive(Clone, Copy, Debug, PartialEq, Eq, Structural)]
pub struct Heartbeat {
    pub monotonic_ms: u32,
}

impl View for Heartbeat {
    type V = Heartbeat;

    open spec fn view(&self) -> Heartbeat {
        *self
    }
}

/// Fewer than four bytes are `Truncated`, more are `InvalidLength`.
pub open spec fn heartbeat_from_wire(b: Seq<u8>) -> Result<Heartbeat, ProtocolError> {
    if b.len() < 4 {
        Err(ProtocolError::Truncated)
    } else if b.len() > 4 {
        Err(ProtocolError::InvalidLength)
    } else {
        Ok(Heartbeat { monotonic_ms: from_le32(b[0], b[1], b[2], b[3]) })
    }
}

impl WireEncode for Heartbeat {
    open spec fn spec_wire_encode(v: Heartbeat) -> Result<Seq<u8>, ProtocolError> {
        Ok(le32(v.monotonic_ms))
    }

    fn encode(&self) -> (r: Result<Vec<u8>, ProtocolError>) {
        let mut writer = WireWriter::new();
        writer.put_u32(self.monotonic_ms);
        proof {
            assert(writer@ =~= le32(self.monotonic_ms));
        }
        Ok(writer.into_inner())
    }
}

impl WireDecode for Heartbeat {
    open spec fn spec_wire_decode(b: Seq<u8>) -> Result<Heartbeat, ProtocolError> {
        heartbeat_from_wire(b)
    }

    fn decode(bytes: &[u8]) -> (r: Result<Heartbeat, ProtocolError>) {
        let mut reader = WireReader::new(bytes);
        let monotonic_ms = reader.read_u32()?;
        reader.finish()?;
        Ok(Heartbeat { monotonic_ms })
    }
}

/// Every `Heartbeat` decodes back from its encoding.
pub proof fn lemma_heartbeat_round_trip(v: Heartbeat)
    ensures
        heartbeat_from_wire(le32(v.monotonic_ms)) == Ok::<Heartbeat, ProtocolError>(v),
{
    lemma_le32_round_trip(v.monotonic_ms);
}

} // verus!

verus! {

/// The device's handshake answer.
#[derive(Clone, Copy, Debug, PartialEq, Eq)]
pub struct HelloAck {
    pub session_id: u32,
    pub device_id: [u8; 16],
    pub boot_count: u32,
    pub firmware_major: u16,
    pub firmware_minor: u16,
    pub firmware_patch: u16,
    pub sdk_major: u16,
    pub sdk_minor: u16,
    pub sdk_patch: u16,
    pub capabilities: CapabilityFlags,
    pub manifest_crc32: u32,
    pub max_payload: u16,
}

/// A `HelloAck` with its device id as a sequence.
pub struct HelloAckView {
    pub session_id: u32,
    pub device_id: Seq<u8>,
    pub boot_count: u32,
    pub firmware_major: u16,
    pub firmware_minor: u16,
    pub firmware_patch: u16,
    pub sdk_major: u16,
    pub sdk_minor: u16,
    pub sdk_patch: u16,
    pub capabilities: u32,
    pub manifest_crc32: u32,
    pub max_payload: u16,
}

impl View for HelloAck {
    type V = HelloAckView;

    open spec fn view(&self) -> HelloAckView {
        HelloAckView {
            session_id: self.session_id,
            device_id: self.device_id@,
            boot_count: self.boot_count,
            firmware_major: self.firmware_major,
            firmware_minor: self.firmware_minor,
            firmware_patch: self.firmware_patch,
            sdk_major: self.sdk_major,
            sdk_minor: self.sdk_minor,
            sdk_patch: self.sdk_patch,
            capabilities: self.capabilities.0,
            manifest_crc32: self.manifest_crc32,
            max_payload: self.max_payload,
        }
    }
}

/// Encoded length of a `HelloAck`.
pub const HELLO_ACK_LEN: usize = 46;

/// A `HelloAck` on the wire: forty-six bytes in field order.
pub open spec fn hello_ack_wire(v: HelloAckView) -> Seq<u8> {
    le32(v.session_id) + v.device_id + le32(v.boot_count) + le16(v.firmware_major) + le16(
        v.firmware_minor,
    ) + le16(v.firmware_patch) + le16(v.sdk_major) + le16(v.sdk_minor) + le16(v.sdk_patch) + le32(
        v.capabilities,
    ) + le32(v.manifest_crc32) + le16(v.max_payload)
}

/// Fewer than forty-six bytes are `Truncated`, more are `InvalidLength`.
pub open spec fn hello_ack_from_wire(b: Seq<u8>) -> Result<HelloAckView, ProtocolError> {
    if b.len() < 46 {
        Err(ProtocolError::Truncated)
    } else if b.len() > 46 {
        Err(ProtocolError::InvalidLength)
    } else {
        Ok(
            HelloAckView {
                session_id: u32_at(b, 0),
                device_id: b.subrange(4, 20),
                boot_count: u32_at(b, 20),
                firmware_major: u16_at(b, 24),
                firmware_minor: u16_at(b, 26),
                firmware_patch: u16_at(b, 28),
                sdk_major: u16_at(b, 30),
                sdk_minor: u16_at(b, 32),
                sdk_patch: u16_at(b, 34),
                capabilities: u32_at(b, 36),
                manifest_crc32: u32_at(b, 40),
                max_payload: u16_at(b, 44),
            },
        )
    }
}

impl WireEncode for HelloAck {
    open spec fn spec_wire_encode(v: HelloAckView) -> Result<Seq<u8>, ProtocolError> {
        Ok(hello_ack_wire(v))
    }

    fn encode(&self) -> (r: Result<Vec<u8>, ProtocolError>) {
        let mut writer = WireWriter::new();
        writer.put_u32(self.session_id);
        writer.put_bytes(self.device_id.as_slice());
        writer.put_u32(self.boot_count);
        writer.put_u16(self.firmware_major);
        writer.put_u16(self.firmware_minor);
        writer.put_u16(self.firmware_patch);
        writer.put_u16(self.sdk_major);
        writer.put_u16(self.sdk_minor);
        writer.put_u16(self.sdk_patch);
        writer.put_u32(self.capabilities.bits());
        writer.put_u32(self.manifest_crc32);
        writer.put_u16(self.max_payload);
        proof {
            assert(writer@ =~= hello_ack_wire(self@));
        }
        Ok(writer.into_inner())
    }
}

impl WireDecode for HelloAck {
    open spec fn spec_wire_decode(b: Seq<u8>) -> Result<HelloAckView, ProtocolError> {
        hello_ack_from_wire(b)
    }

    fn decode(bytes: &[u8]) -> (r: Result<HelloAck, ProtocolError>) {
        let mut reader = WireReader::new(bytes);
        let session_id = reader.read_u32()?;
        let id = reader.read_exact(16)?;
        let device_id: [u8; 16] = crate::bytes::to_array(id);
        let boot_count = reader.read_u32()?;
        let firmware_major = reader.read_u16()?;
        let firmware_minor = reader.read_u16()?;
        let firmware_patch = reader.read_u16()?;
        let sdk_major = reader.read_u16()?;
        let sdk_minor = reader.read_u16()?;
        let sdk_patch = reader.read_u16()?;
        let capabilities = CapabilityFlags::from_bits(reader.read_u32()?);
        let manifest_crc32 = reader.read_u32()?;
        let max_payload = reader.read_u16()?;
        reader.finish()?;
        Ok(
            HelloAck {
                session_id,
                device_id,
                boot_count,
                firmware_major,
                firmware_minor,
                firmware_patch,
                sdk_major,
                sdk_minor,
                sdk_patch,
                capabilities,
                manifest_crc32,
                max_payload,
            },
        )
    }
}

/// Every `HelloAck` with a sixteen-byte device id decodes back from its
/// encoding.
pub proof fn lemma_hello_ack_round_trip(v: HelloAckView)
    requires
        v.device_id.len() == 16,
    ensures
        hello_ack_from_wire(hello_ack_wire(v)) == Ok::<HelloAckView, ProtocolError>(v),
{
    let b = hello_ack_wire(v);
    lemma_le32_round_trip(v.session_id);
    lemma_le32_round_trip(v.boot_count);
    lemma_le16_round_trip(v.firmware_major);
    lemma_le16_round_trip(v.firmware_minor);
    lemma_le16_round_trip(v.firmware_patch);
    lemma_le16_round_trip(v.sdk_major);
    lemma_le16_round_trip(v.sdk_minor);
    lemma_le16_round_trip(v.sdk_patch);
    lemma_le32_round_trip(v.capabilities);
    lemma_le32_round_trip(v.manifest_crc32);
    lemma_le16_round_trip(v.max_payload);
    assert(b.len() == 46);
    assert(b.subrange(0, 4) =~= le32(v.session_id));
    assert(b.subrange(4, 20) =~= v.device_id);
    assert(b.subrange(20, 24) =~= le32(v.boot_count));
    assert(b.subrange(24, 26) =~= le16(v.firmware_major));
    assert(b.subrange(26, 28) =~= le16(v.firmware_minor));
    assert(b.subrange(28, 30) =~= le16(v.firmware_patch));
    assert(b.subrange(30, 32) =~= le16(v.sdk_major));
    assert(b.subrange(32, 34) =~= le16(v.sdk_minor));
    assert(b.subrange(34, 36) =~= le16(v.sdk_patch));
    assert(b.subrange(36, 40) =~= le32(v.capabilities));
    assert(b.subrange(40, 44) =~= le32(v.manifest_crc32));
    assert(b.subrange(44, 46) =~= le16(v.max_payload));
    let d = hello_ack_from_wire(b)->Ok_0;
    assert(d.session_id == v.session_id) by {
        assert(b[0] == b.subrange(0, 4)[0] && b[1] == b.subrange(0, 4)[1]);
        assert(b[2] == b.subrange(0, 4)[2] && b[3] == b.subrange(0, 4)[3]);
    }
    assert(d.boot_count == v.boot_count) by {
        assert(b[20] == b.subrange(20, 24)[0] && b[21] == b.subrange(20, 24)[1]);
        assert(b[22] == b.subrange(20, 24)[2] && b[23] == b.subrange(20, 24)[3]);
    }
    assert(d.firmware_major == v.firmware_major) by {
        assert(b[24] == b.subrange(24, 26)[0] && b[25] == b.subrange(24, 26)[1]);
    }
    assert(d.firmware_minor == v.firmware_minor) by {
        assert(b[26] == b.subrange(26, 28)[0] && b[27] == b.subrange(26, 28)[1]);
    }
    assert(d.firmware_patch == v.firmware_patch) by {
        assert(b[28] == b.subrange(28, 30)[0] && b[29] == b.subrange(28, 30)[1]);
    }
    assert(d.sdk_major == v.sdk_major) by {
        assert(b[30] == b.subrange(30, 32)[0] && b[31] == b.subrange(30, 32)[1]);
    }
    assert(d.sdk_minor == v.sdk_minor) by {
        assert(b[32] == b.subrange(32, 34)[0] && b[33] == b.subrange(32, 34)[1]);
    }
    assert(d.sdk_patch == v.sdk_patch) by {
        assert(b[34] == b.subrange(34, 36)[0] && b[35] == b.subrange(34, 36)[1]);
    }
    assert(d.capabilities == v.capabilities) by {
        assert(b[36] == b.subrange(36, 40)[0] && b[37] == b.subrange(36, 40)[1]);
        assert(b[38] == b.subrange(36, 40)[2] && b[39] == b.subrange(36, 40)[3]);
    }
    assert(d.manifest_crc32 == v.manifest_crc32) by {
        assert(b[40] == b.subrange(40, 44)[0] && b[41] == b.subrange(40, 44)[1]);
        assert(b[42] == b.subrange(40, 44)[2] && b[43] == b.subrange(40, 44)[3]);
    }
    assert(d.max_payload == v.max_payload) by {
        assert(b[44] == b.subrange(44, 46)[0] && b[45] == b.subrange(44, 46)[1]);
    }
}

} // verus!

verus! {

/// Longest context string an error payload may carry, in bytes.
pub const MAX_ERROR_CONTEXT_LEN: usize = 64;

/// A device's rejection of a request.
#[derive(Clone, Debug, PartialEq, Eq)]
pub struct ErrorPayload {
    pub original_message_type: MessageType,
    pub original_sequence: u16,
    pub error_code: ErrorCode,
    pub context: String,
}

/// An `ErrorPayload` with its context as UTF-8 bytes.
pub struct ErrorPayloadView {
    pub original_message_type: MessageType,
    pub original_sequence: u16,
    pub error_code: ErrorCode,
    pub context: Seq<u8>,
}

impl View for ErrorPayload {
    type V = ErrorPayloadView;

    open spec fn view(&self) -> ErrorPayloadView {
        ErrorPayloadView {
            original_message_type: self.original_message_type,
            original_sequence: self.original_sequence,
            error_code: self.error_code,
            context: str_bytes(self.context),
        }
    }
}

/// An error payload on the wire; a context over 64 bytes is `StringTooLong`.
pub open spec fn error_payload_to_wire(v: ErrorPayloadView) -> Result<Seq<u8>, ProtocolError> {
    if v.context.len() > MAX_ERROR_CONTEXT_LEN {
        Err(ProtocolError::StringTooLong)
    } else {
        Ok(
            seq![message_type_code(v.original_message_type)] + le16(v.original_sequence) + le16(
                error_code_value(v.error_code),
            ) + wr_utf8(v.context),
        )
    }
}

/// Fields in order: message type, sequence, error code, context; each read
/// fails as `rd_*` says, an unknown message type as `UnknownMessageType`.
pub open spec fn error_payload_from_wire(b: Seq<u8>) -> Result<ErrorPayloadView, ProtocolError> {
    match rd_u8(b, 0) {
        Err(e) => Err(e),
        Ok((t, o1)) => match message_type_from_code(t) {
            Err(e) => Err(e),
            Ok(mt) => match rd_u16(b, o1) {
                Err(e) => Err(e),
                Ok((sequence, o2)) => match rd_u16(b, o2) {
                    Err(e) => Err(e),
                    Ok((code, o3)) => match rd_utf8(b, o3, MAX_ERROR_CONTEXT_LEN as int) {
                        Err(e) => Err(e),
                        Ok((context, o4)) => match rd_finish(b, o4) {
                            Err(e) => Err(e),
                            Ok(_) => Ok(
                                ErrorPayloadView {
                                    original_message_type: mt,
                                    original_sequence: sequence,
                                    error_code: error_code_from(code),
                                    context,
                                },
                            ),
                        },
                    },
                },
            },
        },
    }
}

impl WireEncode for ErrorPayload {
    open spec fn spec_wire_encode(v: ErrorPayloadView) -> Result<Seq<u8>, ProtocolError> {
        error_payload_to_wire(v)
    }

    fn encode(&self) -> (r: Result<Vec<u8>, ProtocolError>) {
        let mut writer = WireWriter::new();
        writer.put_u8(self.original_message_type.as_u8());
        writer.put_u16(self.original_sequence);
        writer.put_u16(self.error_code.as_u16());
        let ghost before = writer@;
        writer.put_utf8_u8_len(self.context.as_str(), MAX_ERROR_CONTEXT_LEN)?;
        proof {
            assert(writer@ =~= error_payload_to_wire(self@)->Ok_0);
        }
        Ok(writer.into_inner())
    }
}

impl WireDecode for ErrorPayload {
    open spec fn spec_wire_decode(b: Seq<u8>) -> Result<ErrorPayloadView, ProtocolError> {
        error_payload_from_wire(b)
    }

    fn decode(bytes: &[u8]) -> (r: Result<ErrorPayload, ProtocolError>) {
        let mut reader = WireReader::new(bytes);
        let original_message_type = MessageType::try_from_u8(reader.read_u8()?)?;
        let original_sequence = reader.read_u16()?;
        let error_code = ErrorCode::from_u16(reader.read_u16()?);
        let context = reader.read_utf8_u8_len(MAX_ERROR_CONTEXT_LEN)?;
        reader.finish()?;
        Ok(ErrorPayload { original_message_type, original_sequence, error_code, context })
    }
}

/// Every error payload that encodes decodes back from its encoding, unless
/// its code is an `Unknown` one that shadows a named code.
pub proof fn lemma_error_payload_round_trip(v: ErrorPayloadView)
    requires
        error_payload_to_wire(v) is Ok,
        valid_utf8(v.context),
        v.error_code matches ErrorCode::Unknown(c) ==> !(1 <= c <= 15),
    ensures
        error_payload_from_wire(error_payload_to_wire(v)->Ok_0) == Ok::<
            ErrorPayloadView,
            ProtocolError,
        >(v),
{
    let b = error_payload_to_wire(v)->Ok_0;
    lemma_le16_round_trip(v.original_sequence);
    lemma_le16_round_trip(error_code_value(v.error_code));
    lemma_error_code_round_trip(0, v.error_code);
    lemma_message_type_code_round_trip(v.original_message_type);
    assert(b.subrange(5, 6 + v.context.len() as int) =~= wr_utf8(v.context));
    assert(b.subrange(6, 6 + v.context.len() as int) =~= v.context);
    assert(b[1] == le16(v.original_sequence)[0] && b[2] == le16(v.original_sequence)[1]);
    assert(b[3] == le16(error_code_value(v.error_code))[0]);
    assert(b[4] == le16(error_code_value(v.error_code))[1]);
    assert(b[5] == v.context.len() as u8);
}

} // verus!
