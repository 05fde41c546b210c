//! Firmware-flash preparation: the host's request and the device's answer.

use vstd::prelude::*;

use crate::bytes::{from_le16, from_le32, le16, le32, lemma_le16_round_trip, lemma_le32_round_trip, to_array};
use crate::error::ProtocolError;
use crate::wire::{WireDecode, WireEncode, WireReader, WireWriter};

verus! {

/// Layout version of both flash-preparation payloads.
pub const PREPARE_FLASH_SCHEMA: u8 = 1;

/// The board a firmware image is built for.
#[derive(Clone, Copy, Debug, PartialEq, Eq, Structural)]
pub struct FirmwareTargetId(pub u32);

impl FirmwareTargetId {
    /// The LCKFB TMX board with an MSPM0G3507 controller.
    pub fn lckfb_tmx_mspm0g3507() -> (t: FirmwareTargetId)
        ensures
            t.0 == 1,
    {
        FirmwareTargetId(1)
    }

    /// A target from its raw id.
    pub fn from_bits(bits: u32) -> (t: FirmwareTargetId)
        ensures
            t.0 == bits,
    {
        FirmwareTargetId(bits)
    }

    /// The raw id.
    pub fn bits(self) -> (b: u32)
        ensures
            b == self.0,
    {
        self.0
    }
}

/// The bootloader protocol a device switches to for flashing.
#[derive(Clone, Copy, Debug, PartialEq, Eq, Structural)]
pub struct BootloaderProtocol(pub u8);

impl BootloaderProtocol {
    /// The TI MSPM0 ROM bootstrap loader over UART.
    pub fn ti_mspm0_rom_bsl_uart() -> (p: BootloaderProtocol)
        ensures
            p.0 == 1,
    {
        BootloaderProtocol(1)
    }

    /// A protocol from its raw id.
    pub fn from_bits(bits: u8) -> (p: BootloaderProtocol)
        ensures
            p.0 == bits,
    {
        BootloaderProtocol(bits)
    }

    /// The raw id.
    pub fn bits(self) -> (b: u8)
        ensures
            b == self.0,
    {
        self.0
    }
}

/// The host asks the device to stop safely and enter its bootloader.
#[derive(Clone, Copy, Debug, PartialEq, Eq)]
pub struct PrepareFlash {
    pub operation_id: [u8; 16],
    pub target_id: FirmwareTargetId,
    pub firmware_version: [u16; 3],
    pub image_len: u32,
    pub image_sha256: [u8; 32],
}

/// A `PrepareFlash` with its arrays as sequences.
pub struct PrepareFlashView {
    pub operation_id: Seq<u8>,
    pub target_id: u32,
    pub firmware_version: Seq<u16>,
    pub image_len: u32,
    pub image_sha256: Seq<u8>,
}

impl View for PrepareFlash {
    type V = PrepareFlashView;

    open spec fn view(&self) -> PrepareFlashView {
        PrepareFlashView {
            operation_id: self.operation_id@,
            target_id: self.target_id.0,
            firmware_version: self.firmware_version@,
            image_len: self.image_len,
            image_sha256: self.image_sha256@,
        }
    }
}

/// A `PrepareFlash` on the wire: schema byte, operation id, target, the
/// three version numbers, image length and image SHA-256 (63 bytes).
pub open spec fn prepare_flash_wire(v: PrepareFlashView) -> Seq<u8> {
    seq![PREPARE_FLASH_SCHEMA] + v.operation_id + le32(v.target_id) + le16(v.firmware_version[0])
        + le16(v.firmware_version[1]) + le16(v.firmware_version[2]) + le32(v.image_len)
        + v.image_sha256
}

/// An empty payload is `Truncated`, a schema other than 1 is
/// `UnsupportedVersion`, then fewer than 63 bytes are `Truncated` and more
/// are `InvalidLength`.
pub open spec fn prepare_flash_from_wire(b: Seq<u8>) -> Result<PrepareFlashView, ProtocolError> {
    if b.len() < 1 {
        Err(ProtocolError::Truncated)
    } else if b[0] != PREPARE_FLASH_SCHEMA {
        Err(ProtocolError::UnsupportedVersion)
    } else if b.len() < 63 {
        Err(ProtocolError::Truncated)
    } else if b.len() > 63 {
        Err(ProtocolError::InvalidLength)
    } else {
        Ok(
            PrepareFlashView {
                operation_id: b.subrange(1, 17),
                target_id: from_le32(b[17], b[18], b[19], b[20]),
                firmware_version: seq![
                    from_le16(b[21], b[22]),
                    from_le16(b[23], b[24]),
                    from_le16(b[25], b[26]),
                ],
                image_len: from_le32(b[27], b[28], b[29], b[30]),
                image_sha256: b.subrange(31, 63),
            },
        )
    }
}

impl WireEncode for PrepareFlash {
    open spec fn spec_wire_encode(v: PrepareFlashView) -> Result<Seq<u8>, ProtocolError> {
        Ok(prepare_flash_wire(v))
    }

    fn encode(&self) -> (r: Result<Vec<u8>, ProtocolError>) {
        let mut writer = WireWriter::new();
        writer.put_u8(PREPARE_FLASH_SCHEMA);
        writer.put_bytes(self.operation_id.as_slice());
        writer.put_u32(self.target_id.bits());
        writer.put_u16(self.firmware_version[0]);
        writer.put_u16(self.firmware_version[1]);
        writer.put_u16(self.firmware_version[2]);
        writer.put_u32(self.image_len);
        writer.put_bytes(self.image_sha256.as_slice());
        proof {
            assert(writer@ =~= prepare_flash_wire(self@));
        }
        Ok(writer.into_inner())
    }
}

impl WireDecode for PrepareFlash {
    open spec fn spec_wire_decode(b: Seq<u8>) -> Result<PrepareFlashView, ProtocolError> {
        prepare_flash_from_wire(b)
    }

    fn decode(bytes: &[u8]) -> (r: Result<PrepareFlash, ProtocolError>) {
        let mut reader = WireReader::new(bytes);
        let schema = reader.read_u8()?;
        if schema != PREPARE_FLASH_SCHEMA {
            return Err(ProtocolError::UnsupportedVersion);
        }
        let id = reader.read_exact(16)?;
        let operation_id: [u8; 16] = to_array(id);
        let target_id = FirmwareTargetId::from_bits(reader.read_u32()?);
        let major = reader.read_u16()?;
        let minor = reader.read_u16()?;
        let patch = reader.read_u16()?;
        let image_len = reader.read_u32()?;
        let sha = reader.read_exact(32)?;
        let image_sha256: [u8; 32] = to_array(sha);
        reader.finish()?;
        let firmware_version: [u16; 3] = [major, minor, patch];
        proof {
            assert(firmware_version@ =~= seq![major, minor, patch]);
        }
        Ok(PrepareFlash { operation_id, target_id, firmware_version, image_len, image_sha256 })
    }
}

/// Every well-sized `PrepareFlash` decodes back from its encoding.
pub proof fn lemma_prepare_flash_round_trip(v: PrepareFlashView)
    requires
        v.operation_id.len() == 16,
        v.firmware_version.len() == 3,
        v.image_sha256.len() == 32,
    ensures
        prepare_flash_from_wire(prepare_flash_wire(v)) == Ok::<PrepareFlashView, ProtocolError>(v),
{
    let b = prepare_flash_wire(v);
    lemma_le32_round_trip(v.target_id);
    lemma_le16_round_trip(v.firmware_version[0]);
    lemma_le16_round_trip(v.firmware_version[1]);
    lemma_le16_round_trip(v.firmware_version[2]);
    lemma_le32_round_trip(v.image_len);
    assert(b.len() == 63);
    assert(b.subrange(1, 17) =~= v.operation_id);
    assert(b.subrange(31, 63) =~= v.image_sha256);
    assert(b.subrange(17, 21) =~= le32(v.target_id));
    assert(b.subrange(21, 23) =~= le16(v.firmware_version[0]));
    assert(b.subrange(23, 25) =~= le16(v.firmware_version[1]));
    assert(b.subrange(25, 27) =~= le16(v.firmware_version[2]));
    assert(b.subrange(27, 31) =~= le32(v.image_len));
    let d = prepare_flash_from_wire(b)->Ok_0;
    assert(d.target_id == v.target_id) by {
        assert(b[17] == b.subrange(17, 21)[0] && b[18] == b.subrange(17, 21)[1]);
        assert(b[19] == b.subrange(17, 21)[2] && b[20] == b.subrange(17, 21)[3]);
    }
    assert(d.image_len == v.image_len) by {
        assert(b[27] == b.subrange(27, 31)[0] && b[28] == b.subrange(27, 31)[1]);
        assert(b[29] == b.subrange(27, 31)[2] && b[30] == b.subrange(27, 31)[3]);
    }
    assert(d.firmware_version =~= v.firmware_version) by {
        assert(b[21] == b.subrange(21, 23)[0] && b[22] == b.subrange(21, 23)[1]);
        assert(b[23] == b.subrange(23, 25)[0] && b[24] == b.subrange(23, 25)[1]);
        assert(b[25] == b.subrange(25, 27)[0] && b[26] == b.subrange(25, 27)[1]);
    }
}

/// The device's agreement to enter its bootloader, with how to reach it.
#[derive(Clone, Copy, Debug, PartialEq, Eq)]
pub struct PrepareFlashAck {
    pub operation_id: [u8; 16],
    pub bootloader_protocol: BootloaderProtocol,
    pub entry_delay_ms: u16,
    pub initial_baud: u32,
}

/// A `PrepareFlashAck` with its operation id as a sequence.
pub struct PrepareFlashAckView {
    pub operation_id: Seq<u8>,
    pub bootloader_protocol: u8,
    pub entry_delay_ms: u16,
    pub initial_baud: u32,
}

impl View for PrepareFlashAck {
    type V = PrepareFlashAckView;

    open spec fn view(&self) -> PrepareFlashAckView {
        PrepareFlashAckView {
            operation_id: self.operation_id@,
            bootloader_protocol: self.bootloader_protocol.0,
            entry_delay_ms: self.entry_delay_ms,
            initial_baud: self.initial_baud,
        }
    }
}

/// A `PrepareFlashAck` on the wire: schema byte, operation id, protocol,
/// entry delay and initial baud rate (24 bytes).
pub open spec fn prepare_flash_ack_wire(v: PrepareFlashAckView) -> Seq<u8> {
    seq![PREPARE_FLASH_SCHEMA] + v.operation_id + seq![v.bootloader_protocol] + le16(
        v.entry_delay_ms,
    ) + le32(v.initial_baud)
}

/// An empty payload is `Truncated`, a schema other than 1 is
/// `UnsupportedVersion`, then fewer than 24 bytes are `Truncated` and more
/// are `InvalidLength`.
pub open spec fn prepare_flash_ack_from_wire(b: Seq<u8>) -> Result<PrepareFlashAckView, ProtocolError> {
    if b.len() < 1 {
        Err(ProtocolError::Truncated)
    } else if b[0] != PREPARE_FLASH_SCHEMA {
        Err(ProtocolError::UnsupportedVersion)
    } else if b.len() < 24 {
        Err(ProtocolError::Truncated)
    } else if b.len() > 24 {
        Err(ProtocolError::InvalidLength)
    } else {
        Ok(
            PrepareFlashAckView {
                operation_id: b.subrange(1, 17),
                bootloader_protocol: b[17],
                entry_delay_ms: from_le16(b[18], b[19]),
                initial_baud: from_le32(b[20], b[21], b[22], b[23]),
            },
        )
    }
}

impl WireEncode for PrepareFlashAck {
    open spec fn spec_wire_encode(v: PrepareFlashAckView) -> Result<Seq<u8>, ProtocolError> {
        Ok(prepare_flash_ack_wire(v))
    }

    fn encode(&self) -> (r: Result<Vec<u8>, ProtocolError>) {
        let mut writer = WireWriter::new();
        writer.put_u8(PREPARE_FLASH_SCHEMA);
        writer.put_bytes(self.operation_id.as_slice());
        writer.put_u8(self.bootloader_protocol.bits());
        writer.put_u16(self.entry_delay_ms);
        writer.put_u32(self.initial_baud);
        proof {
            assert(writer@ =~= prepare_flash_ack_wire(self@));
        }
        Ok(writer.into_inner())
    }
}

impl WireDecode for PrepareFlashAck {
    open spec fn spec_wire_decode(b: Seq<u8>) -> Result<PrepareFlashAckView, ProtocolError> {
        prepare_flash_ack_from_wire(b)
    }

    fn decode(bytes: &[u8]) -> (r: Result<PrepareFlashAck, ProtocolError>) {
        let mut reader = WireReader::new(bytes);
        let schema = reader.read_u8()?;
        if schema != PREPARE_FLASH_SCHEMA {
            return Err(ProtocolError::UnsupportedVersion);
        }
        let id = reader.read_exact(16)?;
        let operation_id: [u8; 16] = to_array(id);
        let bootloader_protocol = BootloaderProtocol::from_bits(reader.read_u8()?);
        let entry_delay_ms = reader.read_u16()?;
        let initial_baud = reader.read_u32()?;
        reader.finish()?;
        Ok(PrepareFlashAck { operation_id, bootloader_protocol, entry_delay_ms, initial_baud })
    }
}

/// Every well-sized `PrepareFlashAck` decodes back from its encoding.
pub proof fn lemma_prepare_flash_ack_round_trip(v: PrepareFlashAckView)
    requires
        v.operation_id.len() == 16,
    ensures
        prepare_flash_ack_from_wire(prepare_flash_ack_wire(v)) == Ok::<
            PrepareFlashAckView,
            ProtocolError,
        >(v),
{
    let b = prepare_flash_ack_wire(v);
    lemma_le16_round_trip(v.entry_delay_ms);
    lemma_le32_round_trip(v.initial_baud);
    assert(b.len() == 24);
    assert(b.subrange(1, 17) =~= v.operation_id);
    assert(b.subrange(18, 20) =~= le16(v.entry_delay_ms));
    assert(b.subrange(20, 24) =~= le32(v.initial_baud));
    let d = prepare_flash_ack_from_wire(b)->Ok_0;
    assert(d.entry_delay_ms == v.entry_delay_ms) by {
        assert(b[18] == b.subrange(18, 20)[0] && b[19] == b.subrange(18, 20)[1]);
    }
    assert(d.initial_baud == v.initial_baud) by {
        assert(b[20] == b.subrange(20, 24)[0] && b[21] == b.subrange(20, 24)[1]);
        assert(b[22] == b.subrange(20, 24)[2] && b[23] == b.subrange(20, 24)[3]);
    }
}


/// The one-shot switch into the bootloader that a device arms after
/// acknowledging a flash preparation: the operation, the bootloader's
/// protocol, how long to wait and the baud rate to start at.
#[derive(Clone, Copy, Debug)]
pub struct FlashTransition {
    pub operation_id: [u8; 16],
    pub bootloader_protocol: u8,
    pub entry_delay_ms: u16,
    pub initial_baud: u32,
}

} // verus!
