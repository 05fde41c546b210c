//! Chunked manifest transfer: chunk and completion payloads and the
//! assembler that checks their order, size and CRC.

use vstd::prelude::*;

use crate::bytes::{from_le32, le32, lemma_le32_round_trip};
use crate::checksum::{crc32_iso_hdlc, spec_crc32};
use crate::error::ProtocolError;
use crate::wire::{WireDecode, WireEncode, WireReader, WireWriter};

verus! {

/// Largest manifest, in bytes, that a host accepts.
pub const MAX_MANIFEST_LEN: usize = 65536;

/// One piece of a manifest, at `offset` within a manifest of `total_len`
/// bytes whose CRC-32 is `manifest_crc32`.
#[derive(Clone, Debug, PartialEq, Eq)]
pub struct ManifestChunk {
    pub manifest_crc32: u32,
    pub total_len: u32,
    pub offset: u32,
    pub data: Vec<u8>,
}

/// A `ManifestChunk` with its data as a sequence.
pub struct ManifestChunkView {
    pub manifest_crc32: u32,
    pub total_len: u32,
    pub offset: u32,
    pub data: Seq<u8>,
}

impl View for ManifestChunk {
    type V = ManifestChunkView;

    open spec fn view(&self) -> ManifestChunkView {
        ManifestChunkView {
            manifest_crc32: self.manifest_crc32,
            total_len: self.total_len,
            offset: self.offset,
            data: self.data@,
        }
    }
}

/// A chunk on the wire: three u32 fields, then the data to the end.
pub open spec fn manifest_chunk_wire(v: ManifestChunkView) -> Seq<u8> {
    le32(v.manifest_crc32) + le32(v.total_len) + le32(v.offset) + v.data
}

/// Fewer than twelve bytes are `Truncated`; everything after them is data.
pub open spec fn manifest_chunk_from_wire(b: Seq<u8>) -> Result<ManifestChunkView, ProtocolError> {
    if b.len() < 12 {
        Err(ProtocolError::Truncated)
    } else {
        Ok(
            ManifestChunkView {
                manifest_crc32: from_le32(b[0], b[1], b[2], b[3]),
                total_len: from_le32(b[4], b[5], b[6], b[7]),
                offset: from_le32(b[8], b[9], b[10], b[11]),
                data: b.subrange(12, b.len() as int),
            },
        )
    }
}

impl WireEncode for ManifestChunk {
    open spec fn spec_wire_encode(v: ManifestChunkView) -> Result<Seq<u8>, ProtocolError> {
        Ok(manifest_chunk_wire(v))
    }

    fn encode(&self) -> (r: Result<Vec<u8>, ProtocolError>) {
        let mut writer = WireWriter::new();
        writer.put_u32(self.manifest_crc32);
        writer.put_u32(self.total_len);
        writer.put_u32(self.offset);
        writer.put_bytes(self.data.as_slice());
        proof {
            assert(writer@ =~= manifest_chunk_wire(self@));
        }
        Ok(writer.into_inner())
    }
}

impl WireDecode for ManifestChunk {
    open spec fn spec_wire_decode(b: Seq<u8>) -> Result<ManifestChunkView, ProtocolError> {
        manifest_chunk_from_wire(b)
    }

    fn decode(bytes: &[u8]) -> (r: Result<ManifestChunk, ProtocolError>) {
        let mut reader = WireReader::new(bytes);
        let manifest_crc32 = reader.read_u32()?;
        let total_len = reader.read_u32()?;
        let offset = reader.read_u32()?;
        if bytes.len() < 12 {
            return Err(ProtocolError::Truncated);
        }
        let rest = reader.read_exact(bytes.len() - 12)?;
        let data = crate::bytes::copy_range(rest, 0, rest.len());
        reader.finish()?;
        proof {
            assert(rest@.subrange(0, rest@.len() as int) =~= rest@);
        }
        Ok(ManifestChunk { manifest_crc32, total_len, offset, data })
    }
}

/// Every chunk decodes back from its encoding.
pub proof fn lemma_manifest_chunk_round_trip(v: ManifestChunkView)
    ensures
        manifest_chunk_from_wire(manifest_chunk_wire(v)) == Ok::<ManifestChunkView, ProtocolError>(
            v,
        ),
{
    let b = manifest_chunk_wire(v);
    lemma_le32_round_trip(v.manifest_crc32);
    lemma_le32_round_trip(v.total_len);
    lemma_le32_round_trip(v.offset);
    assert(b.subrange(12, b.len() as int) =~= v.data);
    assert(b[0] == le32(v.manifest_crc32)[0] && b[1] == le32(v.manifest_crc32)[1]);
    assert(b[2] == le32(v.manifest_crc32)[2] && b[3] == le32(v.manifest_crc32)[3]);
    assert(b[4] == le32(v.total_len)[0] && b[5] == le32(v.total_len)[1]);
    assert(b[6] == le32(v.total_len)[2] && b[7] == le32(v.total_len)[3]);
    assert(b[8] == le32(v.offset)[0] && b[9] == le32(v.offset)[1]);
    assert(b[10] == le32(v.offset)[2] && b[11] == le32(v.offset)[3]);
}

/// The end of a manifest transfer, repeating its CRC and length.
#[derive(Clone, Copy, Debug, PartialEq, Eq, Structural)]
pub struct ManifestDone {
    pub manifest_crc32: u32,
    pub total_len: u32,
}

impl View for ManifestDone {
    type V = ManifestDone;

    open spec fn view(&self) -> ManifestDone {
        *self
    }
}

/// A completion on the wire: two u32 fields.
pub open spec fn manifest_done_wire(v: ManifestDone) -> Seq<u8> {
    le32(v.manifest_crc32) + le32(v.total_len)
}

/// Fewer than eight bytes are `Truncated`, more are `InvalidLength`.
pub open spec fn manifest_done_from_wire(b: Seq<u8>) -> Result<ManifestDone, ProtocolError> {
    if b.len() < 8 {
        Err(ProtocolError::Truncated)
    } else if b.len() > 8 {
        Err(ProtocolError::InvalidLength)
    } else {
        Ok(
            ManifestDone {
                manifest_crc32: from_le32(b[0], b[1], b[2], b[3]),
                total_len: from_le32(b[4], b[5], b[6], b[7]),
            },
        )
    }
}

impl WireEncode for ManifestDone {
    open spec fn spec_wire_encode(v: ManifestDone) -> Result<Seq<u8>, ProtocolError> {
        Ok(manifest_done_wire(v))
    }

    fn encode(&self) -> (r: Result<Vec<u8>, ProtocolError>) {
        let mut writer = WireWriter::new();
        writer.put_u32(self.manifest_crc32);
        writer.put_u32(self.total_len);
        proof {
            assert(writer@ =~= manifest_done_wire(*self));
        }
        Ok(writer.into_inner())
    }
}

impl WireDecode for ManifestDone {
    open spec fn spec_wire_decode(b: Seq<u8>) -> Result<ManifestDone, ProtocolError> {
        manifest_done_from_wire(b)
    }

    fn decode(bytes: &[u8]) -> (r: Result<ManifestDone, ProtocolError>) {
        let mut reader = WireReader::new(bytes);
        let manifest_crc32 = reader.read_u32()?;
        let total_len = reader.read_u32()?;
        reader.finish()?;
        Ok(ManifestDone { manifest_crc32, total_len })
    }
}

/// Every completion decodes back from its encoding.
pub proof fn lemma_manifest_done_round_trip(v: ManifestDone)
    ensures
        manifest_done_from_wire(manifest_done_wire(v)) == Ok::<ManifestDone, ProtocolError>(v),
{
    let b = manifest_done_wire(v);
    lemma_le32_round_trip(v.manifest_crc32);
    lemma_le32_round_trip(v.total_len);
    assert(b[0] == le32(v.manifest_crc32)[0] && b[1] == le32(v.manifest_crc32)[1]);
    assert(b[2] == le32(v.manifest_crc32)[2] && b[3] == le32(v.manifest_crc32)[3]);
    assert(b[4] == le32(v.total_len)[0] && b[5] == le32(v.total_len)[1]);
    assert(b[6] == le32(v.total_len)[2] && b[7] == le32(v.total_len)[3]);
}

/// Collects manifest chunks in order and checks the result against the
/// completion message.
pub struct ManifestAssembler {
    manifest_crc32: Option<u32>,
    total_len: Option<usize>,
    bytes: Vec<u8>,
}

/// What an assembler holds: the CRC and length fixed by its first chunk
/// (none before it) and the bytes gathered so far.
pub struct AssemblerView {
    pub manifest_crc32: Option<u32>,
    pub total_len: Option<nat>,
    pub bytes: Seq<u8>,
}

impl View for ManifestAssembler {
    type V = AssemblerView;

    closed spec fn view(&self) -> AssemblerView {
        AssemblerView {
            manifest_crc32: self.manifest_crc32,
            total_len: match self.total_len {
                Some(n) => Some(n as nat),
                None => None,
            },
            bytes: self.bytes@,
        }
    }
}

/// An assembler state that the operations keep: CRC and length are fixed
/// together by the first chunk, nothing is gathered before it, and never
/// more than the announced length.
pub open spec fn assembler_wf(a: AssemblerView) -> bool {
    &&& (a.manifest_crc32 is Some <==> a.total_len is Some)
    &&& (a.total_len is None ==> a.bytes.len() == 0)
    &&& (a.total_len matches Some(n) ==> a.bytes.len() <= n <= MAX_MANIFEST_LEN)
}

/// The state after `chunk`: a length over the limit, an offset other than
/// the bytes gathered so far, data past the announced length, or a CRC or
/// length that differs from the first chunk's, is `InvalidLength`.
pub open spec fn assembler_push(a: AssemblerView, chunk: ManifestChunkView) -> Result<
    AssemblerView,
    ProtocolError,
> {
    let end = chunk.offset + chunk.data.len();
    if chunk.total_len > MAX_MANIFEST_LEN || chunk.offset != a.bytes.len() || end
        > chunk.total_len {
        Err(ProtocolError::InvalidLength)
    } else if a.manifest_crc32 is Some && (a.manifest_crc32 != Some(chunk.manifest_crc32)
        || a.total_len != Some(chunk.total_len as nat)) {
        Err(ProtocolError::InvalidLength)
    } else {
        Ok(
            AssemblerView {
                manifest_crc32: Some(chunk.manifest_crc32),
                total_len: Some(chunk.total_len as nat),
                bytes: a.bytes + chunk.data,
            },
        )
    }
}

/// The manifest an assembler yields on `done`: any disagreement of CRC,
/// length or gathered size is `InvalidLength`; bytes whose CRC-32 differs
/// are `CrcMismatch`.
pub open spec fn assembler_finish(a: AssemblerView, done: ManifestDone) -> Result<
    Seq<u8>,
    ProtocolError,
> {
    if done.total_len > MAX_MANIFEST_LEN || a.manifest_crc32 != Some(done.manifest_crc32)
        || a.total_len != Some(done.total_len as nat) || a.bytes.len() != done.total_len {
        Err(ProtocolError::InvalidLength)
    } else if spec_crc32(a.bytes) != done.manifest_crc32 {
        Err(ProtocolError::CrcMismatch)
    } else {
        Ok(a.bytes)
    }
}

impl ManifestAssembler {
    /// An assembler that has seen no chunk.
    pub fn new() -> (a: ManifestAssembler)
        ensures
            a@.manifest_crc32 is None,
            a@.total_len is None,
            a@.bytes == Seq::<u8>::empty(),
    {
        ManifestAssembler { manifest_crc32: None, total_len: None, bytes: Vec::new() }
    }

    /// Adds the next chunk; see `assembler_push`. A rejected chunk leaves
    /// the assembler as it was.
    pub fn push_chunk(&mut self, chunk: ManifestChunk) -> (r: Result<(), ProtocolError>)
        requires
            assembler_wf(old(self)@),
        ensures
            assembler_wf(final(self)@),
            match assembler_push(old(self)@, chunk@) {
                Ok(next) => r == Ok::<(), ProtocolError>(()) && final(self)@ == next,
                Err(e) => r == Err::<(), ProtocolError>(e) && final(self)@ == old(self)@,
            },
    {
        let total_len = chunk.total_len as usize;
        let offset = chunk.offset as usize;
        if total_len > MAX_MANIFEST_LEN || offset != self.bytes.len() || chunk.data.len()
            > total_len || offset > total_len - chunk.data.len() {
            return Err(ProtocolError::InvalidLength);
        }
        match (self.manifest_crc32, self.total_len) {
            (Some(expected_crc32), Some(expected_len)) => {
                if expected_crc32 != chunk.manifest_crc32 || expected_len != total_len {
                    return Err(ProtocolError::InvalidLength);
                }
            },
            (None, None) => {
                self.manifest_crc32 = Some(chunk.manifest_crc32);
                self.total_len = Some(total_len);
            },
            _ => {
                return Err(ProtocolError::InvalidLength);
            },
        }
        crate::bytes::push_all(&mut self.bytes, chunk.data.as_slice());
        Ok(())
    }

    /// The manifest bytes, once `done` confirms them; see `assembler_finish`.
    pub fn finish(self, done: ManifestDone) -> (r: Result<Vec<u8>, ProtocolError>)
        ensures
            match r {
                Ok(b) => assembler_finish(self@, done) == Ok::<Seq<u8>, ProtocolError>(b@),
                Err(e) => assembler_finish(self@, done) == Err::<Seq<u8>, ProtocolError>(e),
            },
    {
        let total_len = done.total_len as usize;
        let crc_matches = match self.manifest_crc32 {
            Some(c) => c == done.manifest_crc32,
            None => false,
        };
        let len_matches = match self.total_len {
            Some(n) => n == total_len,
            None => false,
        };
        if total_len > MAX_MANIFEST_LEN || !crc_matches || !len_matches || self.bytes.len()
            != total_len {
            return Err(ProtocolError::InvalidLength);
        }
        if crc32_iso_hdlc(self.bytes.as_slice()) != done.manifest_crc32 {
            return Err(ProtocolError::CrcMismatch);
        }
        Ok(self.bytes)
    }
}

/// Transfer law, one step: an assembler holding the first `k` bytes of a
/// manifest `m` (or nothing yet, `k == 0`) accepts the chunk that carries the
/// next bytes of `m` with `m`'s CRC and length, and then holds the longer
/// prefix.
pub proof fn lemma_assembler_accepts_next_chunk(a: AssemblerView, m: Seq<u8>, k: nat, next: nat)
    requires
        assembler_wf(a),
        m.len() <= MAX_MANIFEST_LEN,
        k <= next <= m.len(),
        a.bytes == m.take(k as int),
        k == 0 ==> a.total_len is None,
        a.total_len is Some ==> a.total_len == Some(m.len()) && a.manifest_crc32 == Some(
            spec_crc32(m),
        ),
    ensures
        assembler_push(
            a,
            ManifestChunkView {
                manifest_crc32: spec_crc32(m),
                total_len: m.len() as u32,
                offset: k as u32,
                data: m.subrange(k as int, next as int),
            },
        ) == Ok::<AssemblerView, ProtocolError>(
            AssemblerView {
                manifest_crc32: Some(spec_crc32(m)),
                total_len: Some(m.len()),
                bytes: m.take(next as int),
            },
        ),
{
    assert(m.take(k as int) + m.subrange(k as int, next as int) =~= m.take(next as int));
}

/// Transfer law, last step: an assembler that holds all of a manifest `m`
/// yields `m` on the completion that repeats `m`'s CRC and length.
pub proof fn lemma_assembler_finishes_whole_manifest(a: AssemblerView, m: Seq<u8>)
    requires
        m.len() <= MAX_MANIFEST_LEN,
        a.bytes == m,
        a.total_len == Some(m.len()),
        a.manifest_crc32 == Some(spec_crc32(m)),
    ensures
        assembler_finish(a, ManifestDone { manifest_crc32: spec_crc32(m), total_len: m.len() as u32 })
            == Ok::<Seq<u8>, ProtocolError>(m),
{
}

} // verus!
