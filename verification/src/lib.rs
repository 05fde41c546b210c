//! DCTP: a framed, checksummed binary protocol between a tuning host and a
//! vehicle controller, with its payload codecs and the host-side helpers
//! that sit on top of them.

pub mod bytes;
pub mod checksum;
pub mod cobs;
pub mod codec;
pub mod error;
pub mod descriptor;
pub mod desktop;
pub mod flash;
pub mod frame;
pub mod log;
pub mod manifest;
pub mod messages;
pub mod parameter;
pub mod sim;
pub mod sorting;
pub mod stream;
pub mod telemetry;
pub mod text;
pub mod transfer;
pub mod vectors;
pub mod wire;

pub use checksum::{crc16_ccitt_false, crc32_iso_hdlc};
pub use cobs::{cobs_decode, cobs_encode};
pub use codec::{decode_packet, encode_frame};
pub use error::ProtocolError;
pub use frame::{Frame, FrameFlags, FrameHeader, MessageType, HEADER_LEN, MAGIC, MAX_PAYLOAD_LEN, VERSION};
pub use wire::{WireDecode, WireEncode, WireReader, WireWriter};
pub use messages::{
    CapabilityFlags, ErrorCode, ErrorPayload, Heartbeat, Hello, HelloAck, MAX_ERROR_CONTEXT_LEN,
};
pub use transfer::{ManifestAssembler, ManifestChunk, ManifestDone, MAX_MANIFEST_LEN};
pub use descriptor::{EnumOption, ParamConstraints, ParamDescriptor};
pub use flash::{BootloaderProtocol, FirmwareTargetId, PrepareFlash, PrepareFlashAck};
pub use log::{LogMessage, LogSeverity, MAX_LOG_TEXT_LEN};
pub use manifest::{
    DeviceManifest, MANIFEST_SCHEMA_VERSION, MAX_MANIFEST_PARAMETERS, MAX_MANIFEST_TELEMETRY,
};
pub use stream::{StreamDecoder, StreamStats, MAX_ENCODED_PACKET_LEN};
pub use parameter::{
    canonical_parameter_crc32,
    ParamCommit, ParamCommitAck, ParamCommitEntry, ParamFlags, ParamRead, ParamState, ParamType,
    ParamValue, ParamWrite, ParamWriteAck,
    MAX_DISPLAY_NAME_LEN, MAX_ENUM_LABEL_LEN, MAX_ENUM_OPTIONS, MAX_GROUP_LEN, MAX_MACHINE_NAME_LEN,
    MAX_UNIT_LEN,
};
pub use telemetry::{
    TelemetryBatch, TelemetryDescriptor, TelemetrySample, TelemetrySubscription, TelemetryType, MAX_TELEMETRY_CHANNELS,
    MAX_TELEMETRY_RATE_HZ, MAX_TELEMETRY_SAMPLES,
};
pub use sim::cache::{RequestCache, RequestKey, REQUEST_CACHE_CAPACITY};
pub use sim::catalog::fixed_manifest;
pub use sim::device::{CommitFailure, SimConfig, SimDevice, SESSION_EXPIRATION_MS};
pub use sim::fault::{Direction, FaultAction, FaultInjector, FaultRule, MAX_FAULT_RULES};
pub use sim::queue::{Priority, PriorityTxQueue, PushOutcome, QueuedFrame};
pub use vectors::{build_vectors, manifest_text, normalize_lf, Vector};
pub use desktop::ai::{
    validate_api_key, AiChatMessageDto, AiCompletionRequestDto, AiCredentialStatusDto, AiErrorCode, AiErrorDto,
};
pub use desktop::events::FrontendEventSequencer;
pub use desktop::commands::{AccessProfileId, EndpointDto, TelemetrySubscriptionRequestDto};
pub use desktop::firmware::{
    encode_hex, hex_nibble, parse_device_id, FirmwareFlashErrorDto, FirmwareFlashEvent, FirmwareFlashPhase,
    FirmwareFlashResult,
};
pub use desktop::window::{
    BridgeErrorDto, CloseDecision, CloseRequestOutcome, CloseResolution, WindowCloseCoordinator, WindowCloseRequest,
};
pub use flash::FlashTransition;
