//! The fixed conformance vectors of protocol version 1: six messages, each
//! framed into its wire packet, and the JSON index that names them with
//! their length and SHA-256 digest.

use vstd::prelude::*;

use sha2::{Digest, Sha256};

use crate::codec::{encode_frame, raw_frame_with_crc};
use crate::cobs::spec_cobs_encode;
use crate::error::ProtocolError;
use crate::frame::{Frame, FrameFlags, FrameHeader, MessageType, MAX_PAYLOAD_LEN, VERSION};
use crate::messages::{hello_ack_wire, hello_wire, CapabilityFlags, Hello, HelloAck, HelloAckView};
use crate::parameter::{param_state_wire, param_write_wire, ParamCommitAck, ParamState, ParamValue, ParamWrite};
use crate::bytes::{le32, push_all};
use crate::sim::support::{hex_bytes, lower_hex};
use crate::telemetry::{batch_to_wire, TelemetryBatch, TelemetryBatchView, TelemetrySample};
use crate::wire::{str_bytes, WireEncode};
use vstd::utf8::encode_utf8;

verus! {

/// One conformance vector: the file it is stored in, what it shows, and its
/// packet.
pub struct Vector {
    pub file: &'static str,
    pub description: &'static str,
    pub bytes: Vec<u8>,
}

/// The packet of a version-1 frame of type `t` around `payload`.
pub open spec fn packet(t: MessageType, flags: u8, sequence: u16, session_id: u32, payload: Seq<u8>) -> Seq<u8> {
    spec_cobs_encode(
        raw_frame_with_crc(
            FrameHeader {
                version: VERSION,
                message_type: t,
                flags: FrameFlags(flags),
                sequence,
                session_id,
                payload_len: payload.len() as u16,
            },
            payload,
        ),
    ).push(0)
}

/// The session all vectors but the handshake belong to.
pub const VECTOR_SESSION_ID: u32 = 0xA1B2_C3D4;

/// The handshake of the vectors.
pub open spec fn vector_hello() -> Hello {
    Hello { client_nonce: 0x1020_3040, min_version: 1, max_version: 1, max_payload: 1024 }
}

/// The identity in the vectors' handshake answer: ASCII `DCTP-VECTOR-0001`.
pub open spec fn vector_device_id() -> Seq<u8> {
    seq![
        0x44u8, 0x43, 0x54, 0x50, 0x2d, 0x56, 0x45, 0x43, 0x54, 0x4f, 0x52, 0x2d, 0x30, 0x30, 0x30,
        0x31,
    ]
}

/// The handshake answer of the vectors: parameters and telemetry offered.
pub open spec fn vector_hello_ack() -> HelloAckView {
    HelloAckView {
        session_id: VECTOR_SESSION_ID,
        device_id: vector_device_id(),
        boot_count: 7,
        firmware_major: 1,
        firmware_minor: 2,
        firmware_patch: 3,
        sdk_major: 1,
        sdk_minor: 0,
        sdk_patch: 0,
        capabilities: 3,
        manifest_crc32: 0x89AB_CDEF,
        max_payload: 1024,
    }
}

/// The parameter write of the vectors: parameter 1 to 2.5 (as `f32` bits)
/// at revision 7.
pub open spec fn vector_write() -> ParamWrite {
    ParamWrite { param_id: 1, expected_revision: 7, value: ParamValue::F32(0x4020_0000) }
}

/// The parameter state of the vectors: 2.5 in RAM, 1.0 stored.
pub open spec fn vector_state() -> ParamState {
    ParamState {
        param_id: 1,
        revision: 7,
        value: ParamValue::F32(0x4020_0000),
        persisted_value: Some(ParamValue::F32(0x3f80_0000)),
    }
}

/// The telemetry batch of the vectors: two rows of an `f32`, an `i32`, a
/// `u32` and a flags channel.
pub open spec fn vector_telemetry() -> TelemetryBatchView {
    TelemetryBatchView {
        subscription_version: 7,
        first_sample_sequence: 42,
        dropped_samples: 3,
        base_timestamp_us: 0x1122_3344,
        samples: seq![
            (0u16, seq![0x3fc0_0000u32, 0xffff_fffc, 8, 5]),
            (2000u16, seq![0x3fe0_0000u32, 0xffff_fffd, 9, 1]),
        ],
    }
}

/// The packets of the vectors, in order.
pub open spec fn vector_packets() -> Seq<Seq<u8>> {
    seq![
        packet(MessageType::Hello, 1, 0x1001, 0, hello_wire(vector_hello())),
        packet(MessageType::HelloAck, 2, 0x1001, VECTOR_SESSION_ID, hello_ack_wire(vector_hello_ack())),
        packet(MessageType::ParamWrite, 1, 0x1003, VECTOR_SESSION_ID, param_write_wire(vector_write())),
        packet(MessageType::ParamValue, 2, 0x1003, VECTOR_SESSION_ID, param_state_wire(vector_state())),
        packet(
            MessageType::ParamCommitAck,
            2,
            0x1003,
            VECTOR_SESSION_ID,
            le32(0x1234_5678) + le32(42),
        ),
        packet(
            MessageType::TelemetryData,
            0,
            0x1004,
            VECTOR_SESSION_ID,
            batch_to_wire(vector_telemetry())->Ok_0,
        ),
    ]
}

/// The file names of the vectors, in order.
pub open spec fn vector_files() -> Seq<Seq<char>> {
    seq![
        "hello.bin"@,
        "hello-ack.bin"@,
        "param-write.bin"@,
        "param-value.bin"@,
        "param-commit-ack.bin"@,
        "telemetry-mixed.bin"@,
    ]
}

/// The descriptions of the vectors, in order.
pub open spec fn vector_descriptions() -> Seq<Seq<char>> {
    seq![
        "HELLO with a fixed client nonce and protocol limits"@,
        "HELLO_ACK with a fixed session, identity, and capabilities"@,
        "PARAM_WRITE for f32 PID Kp with an expected revision"@,
        "PARAM_VALUE with RAM and persisted f32 values"@,
        "PARAM_COMMIT_ACK with canonical CRC and storage generation"@,
        "TELEMETRY_DATA with f32, i32, u32, and flags32 values"@,
    ]
}

/// Whether `v` holds the six vectors: their files, descriptions and packets.
pub open spec fn are_the_vectors(v: Seq<Vector>) -> bool {
    &&& v.len() == 6
    &&& forall|i: int|
        0 <= i < 6 ==> {
            &&& (#[trigger] v[i]).file@ == vector_files()[i]
            &&& v[i].description@ == vector_descriptions()[i]
            &&& v[i].bytes@ == vector_packets()[i]
        }
}

fn framed(
    message_type: MessageType,
    flags: FrameFlags,
    sequence: u16,
    session_id: u32,
    payload: Vec<u8>,
) -> (r: Vec<u8>)
    requires
        payload@.len() <= MAX_PAYLOAD_LEN,
    ensures
        r@ == packet(message_type, flags.0, sequence, session_id, payload@),
{
    let ghost p = payload@;
    let frame = match Frame::new(message_type, flags, sequence, session_id, payload) {
        Ok(f) => f,
        Err(_) => {
            proof {
                assert(false);
            }
            return Vec::new();
        },
    };
    proof {
        assert(frame.header == FrameHeader {
            version: VERSION,
            message_type,
            flags: FrameFlags(flags.0),
            sequence,
            session_id,
            payload_len: p.len() as u16,
        });
    }
    match encode_frame(&frame) {
        Ok(b) => b,
        Err(_) => {
            proof {
                assert(false);
            }
            Vec::new()
        },
    }
}

fn vector_telemetry_batch() -> (b: TelemetryBatch)
    ensures
        b@ == vector_telemetry(),
{
    let b = TelemetryBatch {
        subscription_version: 7,
        first_sample_sequence: 42,
        dropped_samples: 3,
        base_timestamp_us: 0x1122_3344,
        samples: vec![
            TelemetrySample { dt_us: 0, values: vec![0x3fc0_0000u32, 0xffff_fffc, 8, 5] },
            TelemetrySample { dt_us: 2000, values: vec![0x3fe0_0000u32, 0xffff_fffd, 9, 1] },
        ],
    };
    proof {
        assert(b@.samples =~= vector_telemetry().samples);
    }
    b
}

/// The six conformance vectors, in order; see `are_the_vectors`. Every
/// message encodes, so the result is always `Ok`.
pub fn build_vectors() -> (r: Result<Vec<Vector>, ProtocolError>)
    ensures
        r matches Ok(v) && are_the_vectors(v@),
{
    let hello = Hello { client_nonce: 0x1020_3040, min_version: 1, max_version: 1, max_payload: 1024 };
    let device_id: [u8; 16] = [
        0x44, 0x43, 0x54, 0x50, 0x2d, 0x56, 0x45, 0x43, 0x54, 0x4f, 0x52, 0x2d, 0x30, 0x30, 0x30, 0x31,
    ];
    proof {
        assert(device_id@ =~= vector_device_id());
    }
    let hello_ack = HelloAck {
        session_id: VECTOR_SESSION_ID,
        device_id,
        boot_count: 7,
        firmware_major: 1,
        firmware_minor: 2,
        firmware_patch: 3,
        sdk_major: 1,
        sdk_minor: 0,
        sdk_patch: 0,
        capabilities: CapabilityFlags(CapabilityFlags::parameters().0 | CapabilityFlags::telemetry().0),
        manifest_crc32: 0x89AB_CDEF,
        max_payload: 1024,
    };
    proof {
        assert(1u32 | 2u32 == 3u32) by (bit_vector);
    }
    let write = ParamWrite { param_id: 1, expected_revision: 7, value: ParamValue::F32(0x4020_0000) };
    let state = ParamState {
        param_id: 1,
        revision: 7,
        value: ParamValue::F32(0x4020_0000),
        persisted_value: Some(ParamValue::F32(0x3f80_0000)),
    };
    let commit_ack = ParamCommitAck { canonical_crc32: 0x1234_5678, storage_generation: 42 };
    let telemetry = vector_telemetry_batch();
    let hello_payload = match hello.encode() {
        Ok(p) => p,
        Err(e) => {
            return Err(e);
        },
    };
    let ack_payload = match hello_ack.encode() {
        Ok(p) => p,
        Err(e) => {
            return Err(e);
        },
    };
    let write_payload = match write.encode() {
        Ok(p) => p,
        Err(e) => {
            return Err(e);
        },
    };
    let state_payload = match state.encode() {
        Ok(p) => p,
        Err(e) => {
            return Err(e);
        },
    };
    let commit_payload = match commit_ack.encode() {
        Ok(p) => p,
        Err(e) => {
            return Err(e);
        },
    };
    let telemetry_payload = match telemetry.encode() {
        Ok(p) => p,
        Err(e) => {
            proof {
                assert(telemetry@.samples[0].1.len() == 4);
                assert(telemetry@.samples[1].1.len() == 4);
            }
            return Err(e);
        },
    };
    proof {
        crate::telemetry::lemma_batch_wire_len(telemetry@);
    }
    let v = vec![
        Vector {
            file: "hello.bin",
            description: "HELLO with a fixed client nonce and protocol limits",
            bytes: framed(MessageType::Hello, FrameFlags::ack_required(), 0x1001, 0, hello_payload),
        },
        Vector {
            file: "hello-ack.bin",
            description: "HELLO_ACK with a fixed session, identity, and capabilities",
            bytes: framed(MessageType::HelloAck, FrameFlags::response(), 0x1001, VECTOR_SESSION_ID, ack_payload),
        },
        Vector {
            file: "param-write.bin",
            description: "PARAM_WRITE for f32 PID Kp with an expected revision",
            bytes: framed(
                MessageType::ParamWrite,
                FrameFlags::ack_required(),
                0x1003,
                VECTOR_SESSION_ID,
                write_payload,
            ),
        },
        Vector {
            file: "param-value.bin",
            description: "PARAM_VALUE with RAM and persisted f32 values",
            bytes: framed(
                MessageType::ParamValue,
                FrameFlags::response(),
                0x1003,
                VECTOR_SESSION_ID,
                state_payload,
            ),
        },
        Vector {
            file: "param-commit-ack.bin",
            description: "PARAM_COMMIT_ACK with canonical CRC and storage generation",
            bytes: framed(
                MessageType::ParamCommitAck,
                FrameFlags::response(),
                0x1003,
                VECTOR_SESSION_ID,
                commit_payload,
            ),
        },
        Vector {
            file: "telemetry-mixed.bin",
            description: "TELEMETRY_DATA with f32, i32, u32, and flags32 values",
            bytes: framed(
                MessageType::TelemetryData,
                FrameFlags::none(),
                0x1004,
                VECTOR_SESSION_ID,
                telemetry_payload,
            ),
        },
    ];
    Ok(v)
}

/// The SHA-256 digest of `data`, as `sha2` computes it.
pub uninterp spec fn sha256_digest(data: Seq<u8>) -> Seq<u8>;

/// Calls `sha2::Sha256::digest`. Trusted: the result is the digest of
/// `data` (named by `sha256_digest`) and, as the type `Sha256` fixes its
/// output size, 32 bytes long.
#[verifier::external_body]
fn sha256(data: &[u8]) -> (d: Vec<u8>)
    ensures
        d@ == sha256_digest(data@),
        d@.len() == 32,
{
    Sha256::digest(data).to_vec()
}

/// The index entry of one vector; all but the last end in a comma.
pub open spec fn index_entry(
    file: Seq<u8>,
    description: Seq<u8>,
    byte_length: nat,
    digest: Seq<u8>,
    last: bool,
) -> Seq<u8> {
    encode_utf8("    {\n      \"file\": \""@) + file + encode_utf8("\",\n      \"description\": \""@)
        + description + encode_utf8("\",\n      \"byte_length\": "@) + crate::text::decimal(byte_length)
        + encode_utf8(",\n      \"sha256\": \""@) + hex_bytes(digest) + encode_utf8("\"\n    }"@) + (
    if last {
        Seq::empty()
    } else {
        encode_utf8(","@)
    }) + encode_utf8("\n"@)
}

/// The index entries of the first `k` vectors, with their digests.
pub open spec fn index_entries(v: Seq<Vector>, digests: Seq<Seq<u8>>, k: int) -> Seq<u8>
    decreases k,
{
    if k <= 0 {
        Seq::empty()
    } else {
        index_entries(v, digests, k - 1) + index_entry(
            encode_utf8(v[k - 1].file@),
            encode_utf8(v[k - 1].description@),
            v[k - 1].bytes@.len(),
            digests[k - 1],
            k == v.len(),
        )
    }
}

/// The JSON index of the vectors (as UTF-8): the protocol version, then
/// one entry per vector with its file, description, length in bytes and
/// digest in lowercase hexadecimal.
pub open spec fn index_text(v: Seq<Vector>, digests: Seq<Seq<u8>>) -> Seq<u8> {
    encode_utf8("{\n  \"protocol_version\": 1,\n  \"vectors\": [\n"@) + index_entries(v, digests, v.len() as int)
        + encode_utf8("  ]\n}\n"@)
}

/// The digest of each vector's packet.
pub open spec fn vector_digests(v: Seq<Vector>) -> Seq<Seq<u8>> {
    v.map_values(|x: Vector| sha256_digest(x.bytes@))
}

#[verifier::spinoff_prover]
#[verifier::rlimit(40)]
fn append_entry(text: &mut String, vector: &Vector, digest: &[u8], last: bool)
    requires
        digest@.len() <= usize::MAX / 2,
    ensures
        str_bytes(*final(text)) == str_bytes(*old(text)) + index_entry(
            encode_utf8(vector.file@),
            encode_utf8(vector.description@),
            vector.bytes@.len(),
            digest@,
            last,
        ),
{
    let ghost start = str_bytes(*text);
    crate::text::append(text, "    {\n      \"file\": \"");
    crate::text::append(text, vector.file);
    crate::text::append(text, "\",\n      \"description\": \"");
    crate::text::append(text, vector.description);
    crate::text::append(text, "\",\n      \"byte_length\": ");
    crate::text::append_decimal(text, vector.bytes.len());
    crate::text::append(text, ",\n      \"sha256\": \"");
    let hex = lower_hex(digest);
    crate::text::append(text, hex.as_str());
    crate::text::append(text, "\"\n    }");
    if !last {
        crate::text::append(text, ",");
    }
    crate::text::append(text, "\n");
    proof {
        if last {
            assert(str_bytes(*text) =~= start + index_entry(
                encode_utf8(vector.file@),
                encode_utf8(vector.description@),
                vector.bytes@.len(),
                digest@,
                last,
            ));
        } else {
            assert(str_bytes(*text) =~= start + index_entry(
                encode_utf8(vector.file@),
                encode_utf8(vector.description@),
                vector.bytes@.len(),
                digest@,
                last,
            ));
        }
    }
}

/// The JSON index of `vectors` given the digest of each; see `index_text`.
pub fn manifest_text_with_digests(vectors: &[Vector], digests: &[Vec<u8>]) -> (text: String)
    requires
        digests@.len() == vectors@.len(),
        forall|i: int| 0 <= i < digests@.len() ==> (#[trigger] digests@[i])@.len() <= usize::MAX / 2,
    ensures
        str_bytes(text) == index_text(vectors@, digests@.map_values(|d: Vec<u8>| d@)),
{
    let ghost dv = digests@.map_values(|d: Vec<u8>| d@);
    let mut text = String::new();
    crate::text::append(&mut text, "{\n  \"protocol_version\": 1,\n  \"vectors\": [\n");
    let mut i: usize = 0;
    while i < vectors.len()
        invariant
            i <= vectors@.len(),
            digests@.len() == vectors@.len(),
            dv == digests@.map_values(|d: Vec<u8>| d@),
            forall|k: int| 0 <= k < digests@.len() ==> (#[trigger] digests@[k])@.len() <= usize::MAX / 2,
            str_bytes(text) == encode_utf8("{\n  \"protocol_version\": 1,\n  \"vectors\": [\n"@)
                + index_entries(vectors@, dv, i as int),
        decreases vectors@.len() - i,
    {
        let ghost before = str_bytes(text);
        append_entry(&mut text, &vectors[i], digests[i].as_slice(), i + 1 == vectors.len());
        proof {
            assert(dv[i as int] == digests@[i as int]@);
            assert(str_bytes(text) =~= encode_utf8("{\n  \"protocol_version\": 1,\n  \"vectors\": [\n"@)
                + index_entries(vectors@, dv, i + 1));
        }
        i = i + 1;
    }
    crate::text::append(&mut text, "  ]\n}\n");
    text
}

/// The JSON index of `vectors` with the SHA-256 digest of each packet; see
/// `index_text`.
pub fn manifest_text(vectors: &[Vector]) -> (text: String)
    ensures
        str_bytes(text) == index_text(vectors@, vector_digests(vectors@)),
{
    let mut digests: Vec<Vec<u8>> = Vec::new();
    let mut i: usize = 0;
    while i < vectors.len()
        invariant
            i <= vectors@.len(),
            digests@.len() == i,
            forall|k: int| 0 <= k < i ==> (#[trigger] digests@[k])@ == sha256_digest(vectors@[k].bytes@),
            forall|k: int| 0 <= k < i ==> (#[trigger] digests@[k])@.len() == 32,
        decreases vectors@.len() - i,
    {
        digests.push(sha256(vectors[i].bytes.as_slice()));
        i = i + 1;
    }
    proof {
        assert(digests@.map_values(|d: Vec<u8>| d@) =~= vector_digests(vectors@));
    }
    manifest_text_with_digests(vectors, digests.as_slice())
}

/// `s` with each carriage return that directly precedes a line feed taken
/// out, reading left to right.
pub open spec fn crlf_to_lf(s: Seq<char>) -> Seq<char>
    decreases s.len(),
{
    if s.len() == 0 {
        s
    } else if s.len() >= 2 && s[0] == '\r' && s[1] == '\n' {
        seq!['\n'] + crlf_to_lf(s.subrange(2, s.len() as int))
    } else {
        seq![s[0]] + crlf_to_lf(s.drop_first())
    }
}

/// `text` with its CR LF line ends turned into LF; see `crlf_to_lf`.
pub fn normalize_lf(text: &str) -> (r: String)
    ensures
        r@ == crlf_to_lf(text@),
{
    let mut chars: Vec<char> = Vec::new();
    for c in it: text.chars()
        invariant
            it.seq() == text@,
            chars@ == text@.take(it.index() as int),
    {
        proof {
            assert(text@.take(it.index() + 1) =~= text@.take(it.index() as int).push(c));
        }
        chars.push(c);
    }
    proof {
        assert(chars@ =~= text@);
    }
    let n = chars.len();
    let mut out: Vec<char> = Vec::new();
    let mut i: usize = 0;
    proof {
        assert(chars@.subrange(0, n as int) =~= chars@);
    }
    while i < n
        invariant
            n == chars@.len(),
            i <= n,
            crlf_to_lf(chars@) == out@ + crlf_to_lf(chars@.subrange(i as int, n as int)),
        decreases n - i,
    {
        let ghost rest = chars@.subrange(i as int, n as int);
        if chars[i] == '\r' && i + 1 < n && chars[i + 1] == '\n' {
            out.push('\n');
            proof {
                assert(rest.subrange(2, rest.len() as int) =~= chars@.subrange(i + 2, n as int));
            }
            i = i + 2;
        } else {
            let c = chars[i];
            out.push(c);
            proof {
                assert(rest.drop_first() =~= chars@.subrange(i + 1, n as int));
            }
            i = i + 1;
        }
    }
    proof {
        assert(chars@.subrange(i as int, n as int) =~= Seq::<char>::empty());
        assert(out@ + Seq::<char>::empty() =~= out@);
    }
    crate::text::string_from_chars(&out)
}

} // verus!
