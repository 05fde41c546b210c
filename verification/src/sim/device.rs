//! The simulated device: sessions, parameters, persistence, the manifest
//! transfer and the telemetry schedule, answering one request frame at a
//! time.

use vstd::prelude::*;

use crate::descriptor::{ParamDescriptor, ParamDescriptorView};
use crate::error::ProtocolError;
use crate::frame::{frame_built_from, Frame, FrameFlags, FrameHeader, MessageType, MAX_PAYLOAD_LEN};
use crate::checksum::spec_crc32;
use crate::manifest::{manifest_to_wire, DeviceManifest, DeviceManifestView};
use crate::transfer::{manifest_chunk_wire, manifest_done_wire, ManifestChunk, ManifestChunkView, ManifestDone};
use crate::bytes::le32;
use crate::messages::{
    hello_ack_wire, hello_from_wire, CapabilityFlags, Hello, HelloAck, HelloAckView,
    error_payload_to_wire, heartbeat_from_wire, ErrorCode, ErrorPayload, ErrorPayloadView, Heartbeat,
};
use crate::parameter::{
    canonical_parameter_crc32, ParamCommit, ParamCommitAck, param_commit_from_wire, spec_canonical_crc32, ParamCommitEntry, param_read_from_wire, param_state_wire, param_write_ack_wire, param_write_from_wire, value_type,
    ParamFlags, ParamRead, ParamState, ParamValue, ParamWrite, ParamWriteAck,
};
use crate::sim::catalog::{catalog_manifest, fixed_manifest};
use crate::sim::cache::{cache_find, cache_store, RequestCache, RequestKey};
use crate::sim::queue::{Priority, QueuedFrame};
use crate::sim::support::{
    priority_of, built_frame, hex_bytes, lower_hex, response_frame, value_within_constraints, within_constraints,
};
use crate::manifest::telemetry_views;
use crate::telemetry::{
    subscription_from_wire, subscription_valid, TelemetryDescriptor, TelemetryDescriptorView, TelemetrySubscription,
    TelemetrySubscriptionView, MAX_TELEMETRY_SAMPLES, TELEMETRY_BATCH_PREFIX_LEN, batch_to_wire, TelemetryBatch,
    TelemetryBatchView, TelemetrySample,
};
use crate::wire::{str_bytes, WireDecode, WireEncode};

verus! {

/// How long a session lives without a valid frame, in milliseconds.
pub const SESSION_EXPIRATION_MS: u64 = 3_000;
/// Size of the handshake answer; a client must accept at least this much.
pub const HELLO_ACK_PAYLOAD_LEN: u16 = 46;
/// Bytes of a manifest chunk before its data.
pub const MANIFEST_CHUNK_PREFIX_LEN: usize = 12;

/// How a simulated commit fails, when it is set to.
#[derive(Clone, Copy, Debug, PartialEq, Eq, Structural)]
pub enum CommitFailure {
    Storage,
    Verify,
}

/// What a simulated device is built from.
#[derive(Clone, Debug)]
pub struct SimConfig {
    pub manifest: DeviceManifest,
    pub boot_count: u32,
    pub device_id: [u8; 16],
}

/// The identity the simulated device reports by default: the ASCII text
/// `DCTP-SIM-DEVICE!`.
pub open spec fn default_device_id() -> Seq<u8> {
    seq![
        0x44u8, 0x43, 0x54, 0x50, 0x2d, 0x53, 0x49, 0x4d, 0x2d, 0x44, 0x45, 0x56, 0x49, 0x43, 0x45,
        0x21,
    ]
}

impl Default for SimConfig {
    /// The catalogue manifest, first boot, the default identity.
    fn default() -> (c: SimConfig)
        ensures
            c.manifest@ == catalog_manifest(),
            c.boot_count == 1,
            c.device_id@ == default_device_id(),
    {
        let device_id: [u8; 16] = [
            0x44, 0x43, 0x54, 0x50, 0x2d, 0x53, 0x49, 0x4d, 0x2d, 0x44, 0x45, 0x56, 0x49, 0x43, 0x45,
            0x21,
        ];
        proof {
            assert(device_id@ =~= default_device_id());
        }
        SimConfig { manifest: fixed_manifest(), boot_count: 1, device_id }
    }
}

/// The open session: its id, when its last valid frame came, and the
/// payload limit agreed for it.
#[derive(Clone, Copy, Debug, PartialEq, Eq, Structural)]
pub struct SessionState {
    pub id: u32,
    pub last_valid_frame_ms: u64,
    pub max_payload: u16,
}

/// A parameter of the device: its description, RAM value, persisted value
/// and revision.
pub struct Parameter {
    pub descriptor: ParamDescriptor,
    pub value: ParamValue,
    pub persisted_value: Option<ParamValue>,
    pub revision: u32,
}

/// A `Parameter` with its descriptor as a view.
pub struct ParameterView {
    pub descriptor: ParamDescriptorView,
    pub value: ParamValue,
    pub persisted_value: Option<ParamValue>,
    pub revision: u32,
}

impl View for Parameter {
    type V = ParameterView;

    open spec fn view(&self) -> ParameterView {
        ParameterView {
            descriptor: self.descriptor@,
            value: self.value,
            persisted_value: self.persisted_value,
            revision: self.revision,
        }
    }
}

/// A request the device answered, with its answer, kept to replay it.
pub struct CompletedExchange {
    pub request: Frame,
    pub response: Frame,
}

/// The frames of a completed exchange.
pub open spec fn exchange_view(e: Option<CompletedExchange>) -> Option<
    ((FrameHeader, Seq<u8>), (FrameHeader, Seq<u8>)),
> {
    match e {
        Some(x) => Some((x.request@, x.response@)),
        None => None,
    }
}

/// The views of a list of parameters.
pub open spec fn parameters_view(v: Seq<Parameter>) -> Seq<ParameterView> {
    v.map_values(|p: Parameter| p@)
}

/// The state of a simulated device.
pub struct SimDeviceView {
    pub manifest: DeviceManifestView,
    pub boot_count: u32,
    pub device_id: Seq<u8>,
    pub session: Option<SessionState>,
    pub session_counter: u32,
    pub parameters: Seq<ParameterView>,
    pub storage_generation: u32,
    pub commit_failure: Option<CommitFailure>,
    pub cache: Seq<(RequestKey, (FrameHeader, Seq<u8>))>,
    pub completed_hello: Option<((FrameHeader, Seq<u8>), (FrameHeader, Seq<u8>))>,
    pub completed_close: Option<((FrameHeader, Seq<u8>), (FrameHeader, Seq<u8>))>,
    pub subscription: Option<TelemetrySubscriptionView>,
    pub next_telemetry_at_us: Option<u64>,
    pub next_telemetry_sequence: u16,
    pub pending_dropped_telemetry_samples: u16,
}

/// A device that answers requests as the protocol describes.
pub struct SimDevice {
    config: SimConfig,
    session: Option<SessionState>,
    session_counter: u32,
    parameters: Vec<Parameter>,
    storage_generation: u32,
    commit_failure: Option<CommitFailure>,
    request_cache: RequestCache,
    completed_hello: Option<CompletedExchange>,
    completed_close: Option<CompletedExchange>,
    telemetry_subscription: Option<TelemetrySubscription>,
    next_telemetry_at_us: Option<u64>,
    next_telemetry_sequence: u16,
    pending_dropped_telemetry_samples: u16,
}

impl View for SimDevice {
    type V = SimDeviceView;

    closed spec fn view(&self) -> SimDeviceView {
        SimDeviceView {
            manifest: self.config.manifest@,
            boot_count: self.config.boot_count,
            device_id: self.config.device_id@,
            session: self.session,
            session_counter: self.session_counter,
            parameters: parameters_view(self.parameters@),
            storage_generation: self.storage_generation,
            commit_failure: self.commit_failure,
            cache: self.request_cache@,
            completed_hello: exchange_view(self.completed_hello),
            completed_close: exchange_view(self.completed_close),
            subscription: match self.telemetry_subscription {
                Some(s) => Some(s@),
                None => None,
            },
            next_telemetry_at_us: self.next_telemetry_at_us,
            next_telemetry_sequence: self.next_telemetry_sequence,
            pending_dropped_telemetry_samples: self.pending_dropped_telemetry_samples,
        }
    }
}

/// A session's agreed payload limit lies between the handshake size and the
/// protocol limit; the cache holds at most its capacity; a subscription has
/// one to eight distinct channels at 1 to 500 Hz.
pub open spec fn device_wf(v: SimDeviceView) -> bool {
    &&& v.session matches Some(s) ==> HELLO_ACK_PAYLOAD_LEN <= s.max_payload <= MAX_PAYLOAD_LEN
    &&& v.cache.len() <= crate::sim::cache::REQUEST_CACHE_CAPACITY
    &&& v.subscription matches Some(s) ==> subscription_valid(s)
}

/// Whether the session has gone `SESSION_EXPIRATION_MS` or more without a
/// valid frame by `now_ms`.
pub open spec fn session_expired(session: Option<SessionState>, now_ms: u64) -> bool {
    session matches Some(s) && now_ms.saturating_sub(s.last_valid_frame_ms) >= SESSION_EXPIRATION_MS
}

/// The state with no telemetry scheduled.
pub open spec fn without_telemetry(v: SimDeviceView) -> SimDeviceView {
    SimDeviceView {
        subscription: None,
        next_telemetry_at_us: None,
        next_telemetry_sequence: 0,
        pending_dropped_telemetry_samples: 0,
        ..v
    }
}

/// The state once the session is gone: no session, no cached answers, no
/// replayable handshake, no telemetry.
pub open spec fn without_session(v: SimDeviceView) -> SimDeviceView {
    without_telemetry(
        SimDeviceView { session: None, cache: Seq::empty(), completed_hello: None, ..v },
    )
}

/// The state at `now_ms` before a request is looked at: an expired session
/// is gone, along with the replayable close.
pub open spec fn after_expiry(v: SimDeviceView, now_ms: u64) -> SimDeviceView {
    if session_expired(v.session, now_ms) {
        SimDeviceView { completed_close: None, ..without_session(v) }
    } else {
        v
    }
}

/// A reply: the class it is queued in and its frame.
pub type Reply = (Priority, (FrameHeader, Seq<u8>));

/// The replies a list of queued frames holds.
pub open spec fn replies_view(v: Seq<QueuedFrame>) -> Seq<Reply> {
    v.map_values(|q: QueuedFrame| (q.priority, q.frame@))
}

/// The reply of class `p` carrying a current-version frame.
pub open spec fn reply(
    p: Priority,
    t: MessageType,
    flags: u8,
    sequence: u16,
    session_id: u32,
    payload: Seq<u8>,
) -> Reply {
    (p, built_frame(t, FrameFlags(flags), sequence, session_id, payload))
}

/// The error reply to `request` with `code` and `context`: a safety-class
/// error frame with the error and response flags, echoing the request's
/// sequence number and session.
pub open spec fn error_reply(request: FrameHeader, code: ErrorCode, context: Seq<u8>) -> Reply {
    reply(
        Priority::Safety,
        MessageType::Error,
        0x06u8,
        request.sequence,
        request.session_id,
        error_payload_to_wire(
            ErrorPayloadView {
                original_message_type: request.message_type,
                original_sequence: request.sequence,
                error_code: code,
                context,
            },
        )->Ok_0,
    )
}

/// A single error reply with no context.
pub open spec fn error_only(request: FrameHeader, code: ErrorCode) -> Seq<Reply> {
    seq![error_reply(request, code, Seq::empty())]
}

impl SimDevice {
    /// The device's rules hold; see `device_wf`.
    pub open spec fn wf(&self) -> bool {
        device_wf(self@)
    }

    /// The error frame answering `request` with `code` and a context of at
    /// most 64 bytes.
    fn error_response(&self, request: &Frame, error_code: ErrorCode, context: String) -> (q: QueuedFrame)
        requires
            str_bytes(context).len() <= crate::messages::MAX_ERROR_CONTEXT_LEN,
        ensures
            (q.priority, q.frame@) == error_reply(request.header, error_code, str_bytes(context)),
    {
        let payload = ErrorPayload {
            original_message_type: request.header.message_type,
            original_sequence: request.header.sequence,
            error_code,
            context,
        };
        let bytes = match payload.encode() {
            Ok(b) => b,
            Err(_) => {
                proof {
                    assert(false);
                }
                Vec::new()
            },
        };
        proof {
            assert(bytes@.len() <= 1 + 2 + 2 + 1 + 64);
        }
        let flags = crate::sim::support::combine_flags(FrameFlags::error(), FrameFlags::response());
        proof {
            assert(4u8 | 2u8 == 6u8) by (bit_vector);
        }
        QueuedFrame {
            priority: Priority::Safety,
            frame: response_frame(
                MessageType::Error,
                request.header.sequence,
                request.header.session_id,
                bytes,
                flags,
            ),
        }
    }

    /// Whether `session_id` names the open session; otherwise
    /// `InvalidSession`.
    pub fn validate_session(&self, session_id: u32) -> (r: Result<(), ProtocolError>)
        ensures
            (self@.session matches Some(s) && s.id == session_id) ==> r == Ok::<(), ProtocolError>(()),
            !(self@.session matches Some(s) && s.id == session_id) ==> r == Err::<(), ProtocolError>(
                ProtocolError::InvalidSession,
            ),
    {
        match &self.session {
            Some(session) => if session.id == session_id {
                Ok(())
            } else {
                Err(ProtocolError::InvalidSession)
            },
            None => Err(ProtocolError::InvalidSession),
        }
    }

    /// The revision of the parameter with id `param_id`, if there is one.
    pub fn parameter_revision(&self, param_id: u32) -> (r: Option<u32>)
        ensures
            match parameter_index(self@.parameters, param_id) {
                Some(i) => r == Some(self@.parameters[i].revision),
                None => r is None,
            },
    {
        match self.find_parameter(param_id) {
            Some(i) => {
                proof {
                    assert(self@.parameters[i as int] == self.parameters@[i as int]@);
                }
                Some(self.parameters[i].revision)
            },
            None => None,
        }
    }

    /// The position of the first parameter with id `param_id`; see
    /// `parameter_index`.
    fn find_parameter(&self, param_id: u32) -> (r: Option<usize>)
        ensures
            r matches Some(i) ==> parameter_index(self@.parameters, param_id) == Some(i as int) && i
                < self.parameters@.len(),
            r is None ==> parameter_index(self@.parameters, param_id) is None,
    {
        let ghost ps = self@.parameters;
        let mut i: usize = 0;
        while i < self.parameters.len()
            invariant
                i <= self.parameters@.len(),
                ps == self@.parameters,
                ps.len() == self.parameters@.len(),
                forall|k: int| 0 <= k < i ==> ps[k].descriptor.param_id != param_id,
            decreases self.parameters@.len() - i,
        {
            proof {
                assert(ps[i as int] == self.parameters@[i as int]@);
            }
            if self.parameters[i].descriptor.param_id == param_id {
                proof {
                    lemma_parameter_index_first(ps, param_id, i as int);
                }
                return Some(i);
            }
            i = i + 1;
        }
        proof {
            lemma_parameter_index_none(ps, param_id);
        }
        None
    }

    /// How many commits have been stored.
    pub fn storage_generation(&self) -> (g: u32)
        ensures
            g == self@.storage_generation,
    {
        self.storage_generation
    }

    /// Makes later commits fail the given way, or succeed.
    pub fn set_commit_failure(&mut self, failure: Option<CommitFailure>)
        ensures
            final(self)@ == (SimDeviceView { commit_failure: failure, ..old(self)@ }),
    {
        self.commit_failure = failure;
    }

    /// The manifest the device describes itself with.
    pub fn manifest(&self) -> (m: &DeviceManifest)
        ensures
            m@ == self@.manifest,
    {
        &self.config.manifest
    }

    /// Records telemetry samples dropped by the transport; the count, which
    /// saturates, goes out with the next batch.
    pub fn note_telemetry_drop(&mut self, sample_count: u16)
        ensures
            final(self)@ == (SimDeviceView {
                pending_dropped_telemetry_samples: old(
                    self,
                )@.pending_dropped_telemetry_samples.saturating_add(sample_count),
                ..old(self)@
            }),
    {
        self.pending_dropped_telemetry_samples = self.pending_dropped_telemetry_samples.saturating_add(
            sample_count,
        );
    }
}

/// The position of the first parameter with id `param_id`.
pub open spec fn parameter_index(ps: Seq<ParameterView>, param_id: u32) -> Option<int>
    decreases ps.len(),
{
    if ps.len() == 0 {
        None
    } else {
        match parameter_index(ps.drop_last(), param_id) {
            Some(i) => Some(i),
            None => if ps.last().descriptor.param_id == param_id {
                Some(ps.len() - 1)
            } else {
                None
            },
        }
    }
}

pub(crate) proof fn lemma_parameter_index_range(ps: Seq<ParameterView>, param_id: u32)
    ensures
        parameter_index(ps, param_id) matches Some(i) ==> 0 <= i < ps.len() && ps[i].descriptor.param_id
            == param_id,
    decreases ps.len(),
{
    if ps.len() > 0 {
        lemma_parameter_index_range(ps.drop_last(), param_id);
        if let Some(i) = parameter_index(ps.drop_last(), param_id) {
            assert(ps[i] == ps.drop_last()[i]);
        }
    }
}

pub(crate) proof fn lemma_parameter_index_first(ps: Seq<ParameterView>, param_id: u32, i: int)
    requires
        0 <= i < ps.len(),
        ps[i].descriptor.param_id == param_id,
        forall|k: int| 0 <= k < i ==> ps[k].descriptor.param_id != param_id,
    ensures
        parameter_index(ps, param_id) == Some(i),
    decreases ps.len(),
{
    if i < ps.len() - 1 {
        let t = ps.drop_last();
        assert forall|k: int| 0 <= k < i implies t[k].descriptor.param_id != param_id by {
            assert(t[k] == ps[k]);
        }
        assert(t[i] == ps[i]);
        lemma_parameter_index_first(t, param_id, i);
    } else {
        lemma_parameter_index_none(ps.drop_last(), param_id);
    }
}

pub(crate) proof fn lemma_parameter_index_none(ps: Seq<ParameterView>, param_id: u32)
    requires
        forall|k: int| 0 <= k < ps.len() ==> ps[k].descriptor.param_id != param_id,
    ensures
        parameter_index(ps, param_id) is None,
    decreases ps.len(),
{
    if ps.len() > 0 {
        let t = ps.drop_last();
        assert forall|k: int| 0 <= k < t.len() implies t[k].descriptor.param_id != param_id by {
            assert(t[k] == ps[k]);
        }
        lemma_parameter_index_none(t, param_id);
    }
}

/// `x` rotated left by `n` bits, for `0 < n < 32`.
pub open spec fn rotl32(x: u32, n: u32) -> u32 {
    (x << n) | (x >> ((32 - n) as u32))
}

/// The low 32 bits of `c` times the golden-ratio constant.
pub open spec fn golden_mul(c: u32) -> u32 {
    (c as u64 * 0x9e37_79b9u64) as u32
}

/// The session id that counter value `c` proposes for a client nonce and
/// boot count.
pub open spec fn session_candidate(nonce: u32, boot_count: u32, c: u32) -> u32 {
    rotl32(nonce, 13) ^ rotl32(boot_count, 7) ^ golden_mul(c)
}

/// A proposed id is usable when it is not zero and not the id of the
/// session it replaces.
pub open spec fn usable_session_id(candidate: u32, previous: Option<u32>) -> bool {
    candidate != 0 && previous != Some(candidate)
}

proof fn lemma_golden_mul_injective(a: u32, b: u32)
    requires
        a != b,
    ensures
        golden_mul(a) != golden_mul(b),
{
    assert(((((a as u64 * 0x9e37_79b9u64) as u32) as u64 * 0x144c_bc89u64) as u32) == a) by (bit_vector);
    assert(((((b as u64 * 0x9e37_79b9u64) as u32) as u64 * 0x144c_bc89u64) as u32) == b) by (bit_vector);
}

proof fn lemma_candidates_distinct(nonce: u32, boot_count: u32, a: u32, b: u32)
    requires
        a != b,
    ensures
        session_candidate(nonce, boot_count, a) != session_candidate(nonce, boot_count, b),
{
    lemma_golden_mul_injective(a, b);
    let k = rotl32(nonce, 13) ^ rotl32(boot_count, 7);
    let x = golden_mul(a);
    let y = golden_mul(b);
    assert(x != y ==> (k ^ x) != (k ^ y)) by (bit_vector);
}

fn rotate_left_u32(x: u32, n: u32) -> (r: u32)
    requires
        0 < n < 32,
    ensures
        r == rotl32(x, n),
{
    (x << n) | (x >> (32 - n))
}

/// The first usable proposal among the next three counter values, with the
/// counter value that made it; the third when the first two are unusable.
pub open spec fn session_pick(nonce: u32, boot_count: u32, counter: u32, previous: Option<u32>) -> (
    u32,
    u32,
) {
    let c1 = counter.wrapping_add(1);
    let c2 = c1.wrapping_add(1);
    let c3 = c2.wrapping_add(1);
    if usable_session_id(session_candidate(nonce, boot_count, c1), previous) {
        (session_candidate(nonce, boot_count, c1), c1)
    } else if usable_session_id(session_candidate(nonce, boot_count, c2), previous) {
        (session_candidate(nonce, boot_count, c2), c2)
    } else {
        (session_candidate(nonce, boot_count, c3), c3)
    }
}

/// The next usable session id after counter value `counter`, and the
/// counter value that proposed it; see `session_pick`. Three proposals are
/// distinct, and at most two values are unusable, so one of the three is
/// usable.
fn pick_session_id(nonce: u32, boot_count: u32, counter: u32, previous: Option<u32>) -> (r: (u32, u32))
    ensures
        r == session_pick(nonce, boot_count, counter, previous),
        usable_session_id(r.0, previous),
{
    let base = rotate_left_u32(nonce, 13) ^ rotate_left_u32(boot_count, 7);
    let c1 = counter.wrapping_add(1);
    let k1 = base ^ ((c1 as u64 * 0x9e37_79b9u64) as u32);
    if k1 != 0 && previous != Some(k1) {
        return (k1, c1);
    }
    let c2 = c1.wrapping_add(1);
    let k2 = base ^ ((c2 as u64 * 0x9e37_79b9u64) as u32);
    if k2 != 0 && previous != Some(k2) {
        return (k2, c2);
    }
    let c3 = c2.wrapping_add(1);
    let k3 = base ^ ((c3 as u64 * 0x9e37_79b9u64) as u32);
    proof {
        assert(c1 != c2 && c2 != c3 && c1 != c3) by (bit_vector)
            requires
                c2 == c1.wrapping_add(1),
                c3 == c2.wrapping_add(1),
        ;
        lemma_candidates_distinct(nonce, boot_count, c1, c2);
        lemma_candidates_distinct(nonce, boot_count, c2, c3);
        lemma_candidates_distinct(nonce, boot_count, c1, c3);
    }
    (k3, c3)
}

/// A parameter as the device starts with it: its default in RAM, its
/// default as the persisted value when it is persistent, revision zero.
pub open spec fn initial_parameter(d: ParamDescriptorView) -> ParameterView {
    ParameterView {
        descriptor: d,
        value: d.default_value,
        persisted_value: if d.flags & 2u8 != 0 {
            Some(d.default_value)
        } else {
            None
        },
        revision: 0,
    }
}

impl SimDevice {
    /// A device with no session, each parameter as `initial_parameter`
    /// makes it, nothing stored, cached or scheduled.
    pub fn new(config: SimConfig) -> (d: SimDevice)
        ensures
            d.wf(),
            d@.manifest == config.manifest@,
            d@.boot_count == config.boot_count,
            d@.device_id == config.device_id@,
            d@.session is None,
            d@.session_counter == 0,
            d@.parameters == config.manifest@.parameters.map_values(
                |p: ParamDescriptorView| initial_parameter(p),
            ),
            d@.storage_generation == 0,
            d@.commit_failure is None,
            d@.cache == Seq::<(RequestKey, (FrameHeader, Seq<u8>))>::empty(),
            d@.completed_hello is None,
            d@.completed_close is None,
            d@.subscription is None,
            d@.next_telemetry_at_us is None,
            d@.next_telemetry_sequence == 0,
            d@.pending_dropped_telemetry_samples == 0,
    {
        let ghost mv = config.manifest@.parameters;
        let mut parameters: Vec<Parameter> = Vec::new();
        let mut i: usize = 0;
        while i < config.manifest.parameters.len()
            invariant
                i <= config.manifest.parameters@.len(),
                mv == config.manifest@.parameters,
                mv.len() == config.manifest.parameters@.len(),
                parameters_view(parameters@) == mv.take(i as int).map_values(
                    |p: ParamDescriptorView| initial_parameter(p),
                ),
            decreases config.manifest.parameters@.len() - i,
        {
            let descriptor = config.manifest.parameters[i].duplicate();
            proof {
                assert(mv[i as int] == config.manifest.parameters@[i as int]@);
            }
            let value = descriptor.default_value;
            let persisted_value = if descriptor.flags.bits() & ParamFlags::persistent().bits() != 0 {
                Some(descriptor.default_value)
            } else {
                None
            };
            let parameter = Parameter { descriptor, value, persisted_value, revision: 0 };
            let ghost before = parameters@;
            parameters.push(parameter);
            proof {
                assert(parameters_view(parameters@) =~= parameters_view(before).push(parameter@));
                assert(mv.take(i + 1).map_values(|p: ParamDescriptorView| initial_parameter(p))
                    =~= mv.take(i as int).map_values(|p: ParamDescriptorView| initial_parameter(p)).push(
                    initial_parameter(mv[i as int]),
                ));
            }
            i = i + 1;
        }
        proof {
            assert(mv.take(i as int) =~= mv);
        }
        let request_cache = RequestCache::default();
        SimDevice {
            config,
            session: None,
            session_counter: 0,
            parameters,
            storage_generation: 0,
            commit_failure: None,
            request_cache,
            completed_hello: None,
            completed_close: None,
            telemetry_subscription: None,
            next_telemetry_at_us: None,
            next_telemetry_sequence: 0,
            pending_dropped_telemetry_samples: 0,
        }
    }

    fn clear_telemetry_state(&mut self)
        ensures
            final(self)@ == without_telemetry(old(self)@),
    {
        self.telemetry_subscription = None;
        self.next_telemetry_at_us = None;
        self.next_telemetry_sequence = 0;
        self.pending_dropped_telemetry_samples = 0;
    }

    fn clear_current_session(&mut self)
        ensures
            final(self)@ == without_session(old(self)@),
    {
        self.session = None;
        self.request_cache.clear();
        self.completed_hello = None;
        self.clear_telemetry_state();
    }

    /// Ends the session of a client that went away; parameter values and
    /// revisions stay as they are.
    pub fn disconnect(&mut self)
        ensures
            final(self)@ == (SimDeviceView { completed_close: None, ..without_session(old(self)@) }),
    {
        self.clear_current_session();
        self.completed_close = None;
    }

    fn expire_session(&mut self, now_ms: u64)
        ensures
            final(self)@ == after_expiry(old(self)@, now_ms),
    {
        let expired = match &self.session {
            Some(session) => now_ms.saturating_sub(session.last_valid_frame_ms) >= SESSION_EXPIRATION_MS,
            None => false,
        };
        if expired {
            self.clear_current_session();
            self.completed_close = None;
        }
    }

    /// Opens a new session with the full payload limit; see
    /// `open_session_with_max_payload`.
    pub fn open_session(&mut self, client_nonce: u32, now_ms: u64) -> (r: Result<u32, ProtocolError>)
        requires
            old(self).wf(),
        ensures
            final(self).wf(),
            r matches Ok(id) && opened_session(old(self)@, final(self)@, client_nonce, now_ms, MAX_PAYLOAD_LEN as u16, id),
    {
        self.open_session_with_max_payload(client_nonce, now_ms, MAX_PAYLOAD_LEN as u16)
    }

    /// Opens a new session: its id is the first usable proposal of the
    /// session counter (see `pick_session_id`), it starts at `now_ms` with
    /// `max_payload`, and the cache, the replayable handshake and close, and
    /// the telemetry schedule are cleared.
    fn open_session_with_max_payload(&mut self, client_nonce: u32, now_ms: u64, max_payload: u16) -> (r:
        Result<u32, ProtocolError>)
        requires
            old(self).wf(),
            HELLO_ACK_PAYLOAD_LEN <= max_payload <= MAX_PAYLOAD_LEN,
        ensures
            final(self).wf(),
            r matches Ok(id) && opened_session(old(self)@, final(self)@, client_nonce, now_ms, max_payload, id),
    {
        let previous = match &self.session {
            Some(session) => Some(session.id),
            None => None,
        };
        let (session_id, counter) = pick_session_id(
            client_nonce,
            self.config.boot_count,
            self.session_counter,
            previous,
        );
        self.session_counter = counter;
        self.session = Some(SessionState { id: session_id, last_valid_frame_ms: now_ms, max_payload });
        self.request_cache.clear();
        self.completed_hello = None;
        self.completed_close = None;
        self.clear_telemetry_state();
        Ok(session_id)
    }
}

/// `before` with a new session opened at `now_ms` with `max_payload`: its
/// id is `session_pick`'s for the next counter values, and the cache, the
/// replayable exchanges and telemetry are cleared.
pub open spec fn open_session_state(before: SimDeviceView, nonce: u32, now_ms: u64, max_payload: u16) -> SimDeviceView {
    let previous = match before.session {
        Some(s) => Some(s.id),
        None => None,
    };
    let (id, counter) = session_pick(nonce, before.boot_count, before.session_counter, previous);
    SimDeviceView {
        session: Some(SessionState { id, last_valid_frame_ms: now_ms, max_payload }),
        session_counter: counter,
        completed_close: None,
        ..without_session(before)
    }
}

/// `after` is `before` with a new session `id` opened; see
/// `open_session_state`. The id is never zero and never the id it replaces.
pub open spec fn opened_session(
    before: SimDeviceView,
    after: SimDeviceView,
    nonce: u32,
    now_ms: u64,
    max_payload: u16,
    id: u32,
) -> bool {
    let previous = match before.session {
        Some(s) => Some(s.id),
        None => None,
    };
    &&& after == open_session_state(before, nonce, now_ms, max_payload)
    &&& after.session matches Some(s) && s.id == id
    &&& usable_session_id(id, previous)
}

/// The answer to a heartbeat: its echo, or `InvalidLength` when it does not
/// decode.
pub open spec fn heartbeat_replies(request: (FrameHeader, Seq<u8>)) -> Seq<Reply> {
    match heartbeat_from_wire(request.1) {
        Err(_) => error_only(request.0, ErrorCode::InvalidLength),
        Ok(hb) => seq![
            reply(
                Priority::Safety,
                MessageType::HeartbeatAck,
                0x02u8,
                request.0.sequence,
                request.0.session_id,
                le32(hb.monotonic_ms),
            ),
        ],
    }
}

/// The answer to a parameter read: the parameter's state, `InvalidLength`
/// when the request does not decode, `InvalidParamId` when no parameter has
/// the id.
pub open spec fn param_read_replies(v: SimDeviceView, request: (FrameHeader, Seq<u8>)) -> Seq<Reply> {
    match param_read_from_wire(request.1) {
        Err(_) => error_only(request.0, ErrorCode::InvalidLength),
        Ok(read) => match parameter_index(v.parameters, read.param_id) {
            None => error_only(request.0, ErrorCode::InvalidParamId),
            Some(i) => seq![
                reply(
                    Priority::Reliable,
                    MessageType::ParamValue,
                    0x02u8,
                    request.0.sequence,
                    request.0.session_id,
                    param_state_wire(
                        ParamState {
                            param_id: read.param_id,
                            revision: v.parameters[i].revision,
                            value: v.parameters[i].value,
                            persisted_value: v.parameters[i].persisted_value,
                        },
                    ),
                ),
            ],
        },
    }
}

/// A parameter write, checked in order: it must decode (`InvalidLength`),
/// name a parameter (`InvalidParamId`), have its type (`TypeMismatch`), be
/// writable (`ReadOnly`), meet its constraints (`OutOfRange`) and expect
/// its current revision (`RevisionConflict`, whose context is the current
/// value and revision as a write acknowledgement in lowercase hex). Then the
/// value is stored, the revision goes up by one (wrapping) and the new
/// value and revision are acknowledged.
pub open spec fn param_write_outcome(v: SimDeviceView, request: (FrameHeader, Seq<u8>)) -> (
    SimDeviceView,
    Seq<Reply>,
) {
    match param_write_from_wire(request.1) {
        Err(_) => (v, error_only(request.0, ErrorCode::InvalidLength)),
        Ok(write) => match parameter_index(v.parameters, write.param_id) {
            None => (v, error_only(request.0, ErrorCode::InvalidParamId)),
            Some(i) => {
                let p = v.parameters[i];
                if p.descriptor.param_type != value_type(write.value) {
                    (v, error_only(request.0, ErrorCode::TypeMismatch))
                } else if p.descriptor.flags & 1u8 == 0 {
                    (v, error_only(request.0, ErrorCode::ReadOnly))
                } else if !within_constraints(write.value, p.descriptor.constraints) {
                    (v, error_only(request.0, ErrorCode::OutOfRange))
                } else if p.revision != write.expected_revision {
                    (
                        v,
                        seq![
                            error_reply(
                                request.0,
                                ErrorCode::RevisionConflict,
                                hex_bytes(
                                    param_write_ack_wire(
                                        ParamWriteAck { value: p.value, new_revision: p.revision },
                                    ),
                                ),
                            ),
                        ],
                    )
                } else {
                    let revision = p.revision.wrapping_add(1);
                    (
                        SimDeviceView {
                            parameters: v.parameters.update(
                                i,
                                ParameterView { value: write.value, revision, ..p },
                            ),
                            ..v
                        },
                        seq![
                            reply(
                                Priority::Reliable,
                                MessageType::ParamWriteAck,
                                0x02u8,
                                request.0.sequence,
                                request.0.session_id,
                                param_write_ack_wire(
                                    ParamWriteAck { value: write.value, new_revision: revision },
                                ),
                            ),
                        ],
                    )
                }
            },
        },
    }
}

impl SimDevice {
    #[verifier::spinoff_prover]
    fn handle_heartbeat(&self, request: &Frame) -> (r: Vec<QueuedFrame>)
        ensures
            replies_view(r@) == heartbeat_replies(request@),
    {
        let heartbeat = match Heartbeat::decode(request.payload.as_slice()) {
            Ok(heartbeat) => heartbeat,
            Err(_) => {
                let q = self.error_response(request, ErrorCode::InvalidLength, String::new());
                let r = vec![q];
                proof {
                    assert(replies_view(r@) =~= heartbeat_replies(request@));
                }
                return r;
            },
        };
        let payload = match heartbeat.encode() {
            Ok(b) => b,
            Err(_) => Vec::new(),
        };
        let frame = response_frame(
            MessageType::HeartbeatAck,
            request.header.sequence,
            request.header.session_id,
            payload,
            FrameFlags::response(),
        );
        let r = vec![QueuedFrame { priority: Priority::Safety, frame }];
        proof {
            assert(replies_view(r@) =~= heartbeat_replies(request@));
        }
        r
    }

    #[verifier::spinoff_prover]
    fn handle_param_read(&self, request: &Frame) -> (r: Vec<QueuedFrame>)
        ensures
            replies_view(r@) == param_read_replies(self@, request@),
    {
        let read = match ParamRead::decode(request.payload.as_slice()) {
            Ok(read) => read,
            Err(_) => {
                let r = vec![self.error_response(request, ErrorCode::InvalidLength, String::new())];
                proof {
                    assert(replies_view(r@) =~= param_read_replies(self@, request@));
                }
                return r;
            },
        };
        let index = match self.find_parameter(read.param_id) {
            Some(index) => index,
            None => {
                let r = vec![self.error_response(request, ErrorCode::InvalidParamId, String::new())];
                proof {
                    assert(replies_view(r@) =~= param_read_replies(self@, request@));
                }
                return r;
            },
        };
        let parameter = &self.parameters[index];
        proof {
            assert(self@.parameters[index as int] == parameter@);
        }
        let state = ParamState {
            param_id: read.param_id,
            revision: parameter.revision,
            value: parameter.value,
            persisted_value: parameter.persisted_value,
        };
        let payload = match state.encode() {
            Ok(b) => b,
            Err(_) => Vec::new(),
        };
        proof {
            assert(payload@.len() <= 19);
        }
        let frame = response_frame(
            MessageType::ParamValue,
            request.header.sequence,
            request.header.session_id,
            payload,
            FrameFlags::response(),
        );
        let r = vec![QueuedFrame { priority: Priority::Reliable, frame }];
        proof {
            assert(replies_view(r@) =~= param_read_replies(self@, request@));
        }
        r
    }

    #[verifier::spinoff_prover]
    #[verifier::rlimit(60)]
    fn handle_param_write(&mut self, request: &Frame) -> (r: Vec<QueuedFrame>)
        requires
            old(self).wf(),
        ensures
            final(self).wf(),
            (final(self)@, replies_view(r@)) == param_write_outcome(old(self)@, request@),
    {
        let write = match ParamWrite::decode(request.payload.as_slice()) {
            Ok(write) => write,
            Err(_) => {
                let r = vec![self.error_response(request, ErrorCode::InvalidLength, String::new())];
                proof {
                    assert(replies_view(r@) =~= param_write_outcome(self@, request@).1);
                }
                return r;
            },
        };
        let index = match self.find_parameter(write.param_id) {
            Some(index) => index,
            None => {
                let r = vec![self.error_response(request, ErrorCode::InvalidParamId, String::new())];
                proof {
                    assert(replies_view(r@) =~= param_write_outcome(self@, request@).1);
                }
                return r;
            },
        };
        proof {
            assert(self@.parameters[index as int] == self.parameters@[index as int]@);
        }
        if !self.parameters[index].descriptor.param_type.same(write.value.param_type()) {
            let r = vec![self.error_response(request, ErrorCode::TypeMismatch, String::new())];
            proof {
                assert(replies_view(r@) =~= param_write_outcome(self@, request@).1);
            }
            return r;
        }
        if self.parameters[index].descriptor.flags.bits() & ParamFlags::writable().bits() == 0 {
            let r = vec![self.error_response(request, ErrorCode::ReadOnly, String::new())];
            proof {
                assert(replies_view(r@) =~= param_write_outcome(self@, request@).1);
            }
            return r;
        }
        if !value_within_constraints(&write.value, &self.parameters[index].descriptor.constraints) {
            let r = vec![self.error_response(request, ErrorCode::OutOfRange, String::new())];
            proof {
                assert(replies_view(r@) =~= param_write_outcome(self@, request@).1);
            }
            return r;
        }
        if self.parameters[index].revision != write.expected_revision {
            let current = ParamWriteAck {
                value: self.parameters[index].value,
                new_revision: self.parameters[index].revision,
            };
            let encoded = match current.encode() {
                Ok(b) => b,
                Err(_) => Vec::new(),
            };
            proof {
                assert(encoded@.len() <= 9);
                lemma_hex_bytes_len(encoded@);
            }
            let context = lower_hex(encoded.as_slice());
            let r = vec![self.error_response(request, ErrorCode::RevisionConflict, context)];
            proof {
                assert(replies_view(r@) =~= param_write_outcome(self@, request@).1);
            }
            return r;
        }
        let mut parameter = self.parameters.remove(index);
        parameter.value = write.value;
        parameter.revision = parameter.revision.wrapping_add(1);
        let ack = ParamWriteAck { value: parameter.value, new_revision: parameter.revision };
        let ghost updated = parameter@;
        self.parameters.insert(index, parameter);
        proof {
            assert(parameters_view(self.parameters@) =~= parameters_view(
                old(self).parameters@,
            ).update(index as int, updated));
        }
        let payload = match ack.encode() {
            Ok(b) => b,
            Err(_) => Vec::new(),
        };
        proof {
            assert(payload@.len() <= 9);
        }
        let frame = response_frame(
            MessageType::ParamWriteAck,
            request.header.sequence,
            request.header.session_id,
            payload,
            FrameFlags::response(),
        );
        let r = vec![QueuedFrame { priority: Priority::Reliable, frame }];
        proof {
            assert(replies_view(r@) =~= param_write_outcome(old(self)@, request@).1);
            assert(self@ == param_write_outcome(old(self)@, request@).0);
        }
        r
    }
}

/// Two hex digits per byte.
pub proof fn lemma_hex_bytes_len(b: Seq<u8>)
    ensures
        hex_bytes(b).len() == 2 * b.len(),
    decreases b.len(),
{
    if b.len() > 0 {
        lemma_hex_bytes_len(b.drop_last());
    }
}

/// The entries of a commit checked front to back against the parameters:
/// each must name a parameter (`InvalidParamId`) that is persistent
/// (`ReadOnly`) and at the entry's revision (`RevisionConflict`). Gives each
/// named parameter's id and RAM value.
pub open spec fn commit_values(ps: Seq<ParameterView>, entries: Seq<ParamCommitEntry>) -> Result<
    Seq<(u32, ParamValue)>,
    ErrorCode,
>
    decreases entries.len(),
{
    if entries.len() == 0 {
        Ok(Seq::empty())
    } else {
        match commit_values(ps, entries.drop_last()) {
            Err(e) => Err(e),
            Ok(values) => {
                let e = entries.last();
                match parameter_index(ps, e.param_id) {
                    None => Err(ErrorCode::InvalidParamId),
                    Some(i) => if ps[i].descriptor.flags & 2u8 == 0 {
                        Err(ErrorCode::ReadOnly)
                    } else if ps[i].revision != e.revision {
                        Err(ErrorCode::RevisionConflict)
                    } else {
                        Ok(values.push((e.param_id, ps[i].value)))
                    },
                }
            },
        }
    }
}

/// The parameters after a commit: each parameter an entry names persists
/// its RAM value.
pub open spec fn persist_entries(ps: Seq<ParameterView>, entries: Seq<ParamCommitEntry>) -> Seq<
    ParameterView,
>
    decreases entries.len(),
{
    if entries.len() == 0 {
        ps
    } else {
        let prev = persist_entries(ps, entries.drop_last());
        match parameter_index(prev, entries.last().param_id) {
            Some(i) => prev.update(i, ParameterView { persisted_value: Some(prev[i].value), ..prev[i] }),
            None => prev,
        }
    }
}

/// A commit: it must decode (`InvalidLength`), its entries must pass
/// `commit_values`, the canonical CRC of their values must exist and equal
/// the request's (`InvalidLength` otherwise), and storage must not be set to
/// fail (`StorageFailed`, `VerifyFailed`). Then each named parameter
/// persists its value, the storage generation goes up by one (wrapping),
/// and the CRC and generation are acknowledged.
pub open spec fn param_commit_outcome(v: SimDeviceView, request: (FrameHeader, Seq<u8>)) -> (
    SimDeviceView,
    Seq<Reply>,
) {
    match param_commit_from_wire(request.1) {
        Err(_) => (v, error_only(request.0, ErrorCode::InvalidLength)),
        Ok(commit) => match commit_values(v.parameters, commit.entries) {
            Err(code) => (v, error_only(request.0, code)),
            Ok(values) => match spec_canonical_crc32(values) {
                Err(_) => (v, error_only(request.0, ErrorCode::InvalidLength)),
                Ok(crc) => if commit.canonical_crc32 != crc {
                    (v, error_only(request.0, ErrorCode::InvalidLength))
                } else {
                    match v.commit_failure {
                        Some(CommitFailure::Storage) => (
                            v,
                            error_only(request.0, ErrorCode::StorageFailed),
                        ),
                        Some(CommitFailure::Verify) => (
                            v,
                            error_only(request.0, ErrorCode::VerifyFailed),
                        ),
                        None => {
                            let generation = v.storage_generation.wrapping_add(1);
                            (
                                SimDeviceView {
                                    parameters: persist_entries(v.parameters, commit.entries),
                                    storage_generation: generation,
                                    ..v
                                },
                                seq![
                                    reply(
                                        Priority::Reliable,
                                        MessageType::ParamCommitAck,
                                        0x02u8,
                                        request.0.sequence,
                                        request.0.session_id,
                                        le32(crc) + le32(generation),
                                    ),
                                ],
                            )
                        },
                    }
                },
            },
        },
    }
}

proof fn lemma_commit_values_prefix(ps: Seq<ParameterView>, entries: Seq<ParamCommitEntry>, k: int)
    requires
        0 <= k <= entries.len(),
        commit_values(ps, entries.take(k)) is Err,
    ensures
        commit_values(ps, entries) == commit_values(ps, entries.take(k)),
    decreases entries.len(),
{
    if k == entries.len() {
        assert(entries.take(k) =~= entries);
    } else {
        assert(entries.drop_last().take(k) =~= entries.take(k));
        lemma_commit_values_prefix(ps, entries.drop_last(), k);
    }
}

impl SimDevice {
    /// The (id, value) pairs of a commit's entries; see `commit_values`.
    #[verifier::spinoff_prover]
    fn commit_values_of(&self, entries: &Vec<ParamCommitEntry>) -> (r: Result<Vec<(u32, ParamValue)>, ErrorCode>)
        ensures
            match commit_values(self@.parameters, entries@) {
                Ok(vals) => r matches Ok(v) && v@ == vals,
                Err(e) => r == Err::<Vec<(u32, ParamValue)>, ErrorCode>(e),
            },
    {
        let ghost ps = self@.parameters;
        let mut values: Vec<(u32, ParamValue)> = Vec::new();
        let mut k: usize = 0;
        proof {
            assert(entries@.take(0) =~= Seq::<ParamCommitEntry>::empty());
        }
        while k < entries.len()
            invariant
                k <= entries@.len(),
                ps == self@.parameters,
                commit_values(ps, entries@.take(k as int)) == Ok::<Seq<(u32, ParamValue)>, ErrorCode>(
                    values@,
                ),
            decreases entries@.len() - k,
        {
            let entry = entries[k];
            proof {
                assert(entries@.take(k + 1).drop_last() =~= entries@.take(k as int));
                assert(entries@.take(k + 1).last() == entry);
            }
            let index = match self.find_parameter(entry.param_id) {
                Some(i) => i,
                None => {
                    proof {
                        lemma_commit_values_prefix(ps, entries@, k + 1);
                    }
                    return Err(ErrorCode::InvalidParamId);
                },
            };
            proof {
                assert(ps[index as int] == self.parameters@[index as int]@);
            }
            if self.parameters[index].descriptor.flags.bits() & ParamFlags::persistent().bits() == 0 {
                proof {
                    lemma_commit_values_prefix(ps, entries@, k + 1);
                }
                return Err(ErrorCode::ReadOnly);
            }
            if self.parameters[index].revision != entry.revision {
                proof {
                    lemma_commit_values_prefix(ps, entries@, k + 1);
                }
                return Err(ErrorCode::RevisionConflict);
            }
            values.push((entry.param_id, self.parameters[index].value));
            k = k + 1;
        }
        proof {
            assert(entries@.take(k as int) =~= entries@);
        }
        Ok(values)
    }

    /// Makes each parameter a commit names persist its RAM value; see
    /// `persist_entries`.
    #[verifier::spinoff_prover]
    fn persist(&mut self, entries: &Vec<ParamCommitEntry>)
        ensures
            final(self)@ == (SimDeviceView {
                parameters: persist_entries(old(self)@.parameters, entries@),
                ..old(self)@
            }),
    {
        let mut k: usize = 0;
        proof {
            assert(entries@.take(0) =~= Seq::<ParamCommitEntry>::empty());
        }
        while k < entries.len()
            invariant
                k <= entries@.len(),
                self@ == (SimDeviceView {
                    parameters: persist_entries(old(self)@.parameters, entries@.take(k as int)),
                    ..old(self)@
                }),
            decreases entries@.len() - k,
        {
            let entry = entries[k];
            proof {
                assert(entries@.take(k + 1).drop_last() =~= entries@.take(k as int));
                assert(entries@.take(k + 1).last() == entry);
            }
            match self.find_parameter(entry.param_id) {
                Some(index) => {
                    let mut parameter = self.parameters.remove(index);
                    parameter.persisted_value = Some(parameter.value);
                    self.parameters.insert(index, parameter);
                    proof {
                        assert(parameters_view(self.parameters@) =~= persist_entries(
                            old(self)@.parameters,
                            entries@.take(k + 1),
                        ));
                    }
                },
                None => {},
            }
            k = k + 1;
        }
        proof {
            assert(entries@.take(k as int) =~= entries@);
        }
    }

    #[verifier::spinoff_prover]
    #[verifier::rlimit(40)]
    fn handle_param_commit(&mut self, request: &Frame) -> (r: Vec<QueuedFrame>)
        requires
            old(self).wf(),
        ensures
            final(self).wf(),
            (final(self)@, replies_view(r@)) == param_commit_outcome(old(self)@, request@),
    {
        let commit = match ParamCommit::decode(request.payload.as_slice()) {
            Ok(commit) => commit,
            Err(_) => {
                let r = vec![self.error_response(request, ErrorCode::InvalidLength, String::new())];
                proof {
                    assert(replies_view(r@) =~= param_commit_outcome(self@, request@).1);
                }
                return r;
            },
        };
        let values = match self.commit_values_of(&commit.entries) {
            Ok(values) => values,
            Err(code) => {
                let r = vec![self.error_response(request, code, String::new())];
                proof {
                    assert(replies_view(r@) =~= param_commit_outcome(self@, request@).1);
                }
                return r;
            },
        };
        let canonical_crc32 = match canonical_parameter_crc32(values.as_slice()) {
            Ok(crc) => crc,
            Err(_) => {
                let r = vec![self.error_response(request, ErrorCode::InvalidLength, String::new())];
                proof {
                    assert(replies_view(r@) =~= param_commit_outcome(self@, request@).1);
                }
                return r;
            },
        };
        if commit.canonical_crc32 != canonical_crc32 {
            let r = vec![self.error_response(request, ErrorCode::InvalidLength, String::new())];
            proof {
                assert(replies_view(r@) =~= param_commit_outcome(self@, request@).1);
            }
            return r;
        }
        match self.commit_failure {
            Some(failure) => {
                let code = match failure {
                    CommitFailure::Storage => ErrorCode::StorageFailed,
                    CommitFailure::Verify => ErrorCode::VerifyFailed,
                };
                let r = vec![self.error_response(request, code, String::new())];
                proof {
                    assert(replies_view(r@) =~= param_commit_outcome(self@, request@).1);
                }
                return r;
            },
            None => {},
        }
        self.persist(&commit.entries);
        self.storage_generation = self.storage_generation.wrapping_add(1);
        let ack = ParamCommitAck { canonical_crc32, storage_generation: self.storage_generation };
        let payload = match ack.encode() {
            Ok(b) => b,
            Err(_) => Vec::new(),
        };
        let frame = response_frame(
            MessageType::ParamCommitAck,
            request.header.sequence,
            request.header.session_id,
            payload,
            FrameFlags::response(),
        );
        let r = vec![QueuedFrame { priority: Priority::Reliable, frame }];
        proof {
            assert(replies_view(r@) =~= param_commit_outcome(old(self)@, request@).1);
        }
        r
    }
}

/// Milliseconds as microseconds, saturating at `u64::MAX`.
pub open spec fn ms_to_us(ms: u64) -> u64 {
    if ms * 1000 > u64::MAX {
        u64::MAX
    } else {
        (ms * 1000) as u64
    }
}

/// Milliseconds as microseconds, saturating; see `ms_to_us`.
fn saturating_ms_to_us(ms: u64) -> (us: u64)
    ensures
        us == ms_to_us(ms),
{
    if ms > u64::MAX / 1000 {
        u64::MAX
    } else {
        ms * 1000
    }
}

/// The id of the open session, if any.
pub open spec fn session_id_of(v: SimDeviceView) -> Option<u32> {
    match v.session {
        Some(s) => Some(s.id),
        None => None,
    }
}

/// Whether a frame asks for an acknowledgement.
pub open spec fn ack_required(h: FrameHeader) -> bool {
    h.flags.0 & 1u8 != 0
}

/// The handshake: the request must carry session 0 (`InvalidSession`),
/// decode (`InvalidLength`), accept version 1 (`UnsupportedVersion`) and a
/// payload limit of at least the answer's size (`InvalidLength`). Then a
/// session opens with the smaller of the client's limit and the protocol's,
/// and the answer carries the session, the device's identity, firmware 1.0.0,
/// SDK 1.0.0, the parameter and telemetry capabilities, and the
/// manifest's CRC (`InternalError` when the manifest has no encoding, the
/// session staying open). An answer to a request that asks for an
/// acknowledgement is kept for replay.
pub open spec fn hello_outcome(v: SimDeviceView, request: (FrameHeader, Seq<u8>), now_ms: u64) -> (
    SimDeviceView,
    Seq<Reply>,
) {
    if request.0.session_id != 0 {
        (v, error_only(request.0, ErrorCode::InvalidSession))
    } else {
        match hello_from_wire(request.1) {
            Err(_) => (v, error_only(request.0, ErrorCode::InvalidLength)),
            Ok(hello) => if hello.min_version > 1 || hello.max_version < 1 {
                (v, error_only(request.0, ErrorCode::UnsupportedVersion))
            } else if hello.max_payload < HELLO_ACK_PAYLOAD_LEN {
                (v, error_only(request.0, ErrorCode::InvalidLength))
            } else {
                let negotiated = if hello.max_payload < MAX_PAYLOAD_LEN as u16 {
                    hello.max_payload
                } else {
                    MAX_PAYLOAD_LEN as u16
                };
                let opened = open_session_state(v, hello.client_nonce, now_ms, negotiated);
                let id = opened.session->Some_0.id;
                match manifest_to_wire(v.manifest) {
                    Err(_) => (opened, error_only(request.0, ErrorCode::InternalError)),
                    Ok(bytes) => {
                        let ack = HelloAckView {
                            session_id: id,
                            device_id: v.device_id,
                            boot_count: v.boot_count,
                            firmware_major: 1,
                            firmware_minor: 0,
                            firmware_patch: 0,
                            sdk_major: 1,
                            sdk_minor: 0,
                            sdk_patch: 0,
                            capabilities: 3,
                            manifest_crc32: spec_crc32(bytes),
                            max_payload: negotiated,
                        };
                        let response = built_frame(
                            MessageType::HelloAck,
                            FrameFlags(0x02u8),
                            request.0.sequence,
                            id,
                            hello_ack_wire(ack),
                        );
                        (
                            SimDeviceView {
                                completed_hello: if ack_required(request.0) {
                                    Some((request, response))
                                } else {
                                    None
                                },
                                ..opened
                            },
                            seq![(Priority::Safety, response)],
                        )
                    },
                }
            },
        }
    }
}

/// A repeated handshake is answered again, refreshing the session, when it
/// equals the kept one, asks for an acknowledgement, and the kept answer's
/// session is still the open one.
pub open spec fn hello_replay(v: SimDeviceView, request: (FrameHeader, Seq<u8>), now_ms: u64) -> Option<
    (SimDeviceView, (FrameHeader, Seq<u8>)),
> {
    match v.completed_hello {
        Some((kept, response)) => if kept == request && ack_required(request.0) && session_id_of(v)
            == Some(response.0.session_id) {
            Some(
                (
                    SimDeviceView {
                        session: Some(
                            SessionState { last_valid_frame_ms: now_ms, ..v.session->Some_0 },
                        ),
                        ..v
                    },
                    response,
                ),
            )
        } else {
            None
        },
        None => None,
    }
}

/// A repeated close is answered again when it equals the kept one and asks
/// for an acknowledgement.
pub open spec fn close_replay(v: SimDeviceView, request: (FrameHeader, Seq<u8>)) -> Option<
    (FrameHeader, Seq<u8>),
> {
    match v.completed_close {
        Some((kept, response)) => if kept == request && ack_required(request.0) {
            Some(response)
        } else {
            None
        },
        None => None,
    }
}

/// Closing the session: an empty payload is required (`InvalidLength`);
/// the session ends and the answer is kept for replay when acknowledgement
/// was asked for.
pub open spec fn close_outcome(v: SimDeviceView, request: (FrameHeader, Seq<u8>)) -> (
    SimDeviceView,
    Seq<Reply>,
) {
    if request.1.len() != 0 {
        (v, error_only(request.0, ErrorCode::InvalidLength))
    } else {
        let response = built_frame(
            MessageType::SessionClose,
            FrameFlags(0x02u8),
            request.0.sequence,
            request.0.session_id,
            Seq::empty(),
        );
        (
            SimDeviceView {
                completed_close: if ack_required(request.0) {
                    Some((request, response))
                } else {
                    None
                },
                ..without_session(v)
            },
            seq![(Priority::Safety, response)],
        )
    }
}

/// Stopping telemetry: an empty payload is required (`InvalidLength`); the
/// schedule is cleared and acknowledged.
pub open spec fn stop_outcome(v: SimDeviceView, request: (FrameHeader, Seq<u8>)) -> (
    SimDeviceView,
    Seq<Reply>,
) {
    if request.1.len() != 0 {
        (v, error_only(request.0, ErrorCode::InvalidLength))
    } else {
        (
            without_telemetry(v),
            seq![
                reply(
                    Priority::Reliable,
                    MessageType::TelemetryStop,
                    0x02u8,
                    request.0.sequence,
                    request.0.session_id,
                    Seq::empty(),
                ),
            ],
        )
    }
}

/// Whether the manifest describes a channel with id `channel_id`.
pub open spec fn has_channel(v: SimDeviceView, channel_id: u32) -> bool {
    exists|i: int| 0 <= i < v.manifest.telemetry.len() && #[trigger] v.manifest.telemetry[i].channel_id
        == channel_id
}

/// Subscribing: the request must decode (`InvalidLength`) and name only
/// channels of the manifest (`InvalidParamId`). The first sample is due one
/// period after `now_ms`; sequence numbers and the drop count restart.
pub open spec fn subscribe_outcome(v: SimDeviceView, request: (FrameHeader, Seq<u8>), now_ms: u64) -> (
    SimDeviceView,
    Seq<Reply>,
) {
    match subscription_from_wire(request.1) {
        Err(_) => (v, error_only(request.0, ErrorCode::InvalidLength)),
        Ok(sub) => if exists|k: int|
            0 <= k < sub.channel_ids.len() && !has_channel(v, #[trigger] sub.channel_ids[k]) {
            (v, error_only(request.0, ErrorCode::InvalidParamId))
        } else {
            let period = (1_000_000int / (sub.sample_rate_hz as int)) as u64;
            (
                SimDeviceView {
                    subscription: Some(sub),
                    next_telemetry_at_us: Some(ms_to_us(now_ms).saturating_add(period)),
                    next_telemetry_sequence: 0,
                    pending_dropped_telemetry_samples: 0,
                    ..v
                },
                seq![
                    reply(
                        Priority::Reliable,
                        MessageType::TelemetrySubscribeAck,
                        0x02u8,
                        request.0.sequence,
                        request.0.session_id,
                        Seq::empty(),
                    ),
                ],
            )
        },
    }
}

impl SimDevice {
    #[verifier::spinoff_prover]
    #[verifier::rlimit(40)]
    fn handle_hello(&mut self, request: Frame, now_ms: u64) -> (r: Vec<QueuedFrame>)
        requires
            old(self).wf(),
        ensures
            final(self).wf(),
            (final(self)@, replies_view(r@)) == hello_outcome(old(self)@, request@, now_ms),
    {
        if request.header.session_id != 0 {
            let r = vec![self.error_response(&request, ErrorCode::InvalidSession, String::new())];
            proof {
                assert(replies_view(r@) =~= hello_outcome(self@, request@, now_ms).1);
            }
            return r;
        }
        let hello = match Hello::decode(request.payload.as_slice()) {
            Ok(hello) => hello,
            Err(_) => {
                let r = vec![self.error_response(&request, ErrorCode::InvalidLength, String::new())];
                proof {
                    assert(replies_view(r@) =~= hello_outcome(self@, request@, now_ms).1);
                }
                return r;
            },
        };
        if hello.min_version > 1 || hello.max_version < 1 {
            let r = vec![self.error_response(&request, ErrorCode::UnsupportedVersion, String::new())];
            proof {
                assert(replies_view(r@) =~= hello_outcome(self@, request@, now_ms).1);
            }
            return r;
        }
        if hello.max_payload < HELLO_ACK_PAYLOAD_LEN {
            let r = vec![self.error_response(&request, ErrorCode::InvalidLength, String::new())];
            proof {
                assert(replies_view(r@) =~= hello_outcome(self@, request@, now_ms).1);
            }
            return r;
        }
        let negotiated_max_payload = if hello.max_payload < MAX_PAYLOAD_LEN as u16 {
            hello.max_payload
        } else {
            MAX_PAYLOAD_LEN as u16
        };
        let session_id = match self.open_session_with_max_payload(
            hello.client_nonce,
            now_ms,
            negotiated_max_payload,
        ) {
            Ok(id) => id,
            Err(_) => {
                proof {
                    assert(false);
                }
                0
            },
        };
        let manifest_crc32 = match self.config.manifest.manifest_crc32() {
            Ok(crc) => crc,
            Err(_) => {
                let r = vec![self.error_response(&request, ErrorCode::InternalError, String::new())];
                proof {
                    assert(replies_view(r@) =~= hello_outcome(old(self)@, request@, now_ms).1);
                }
                return r;
            },
        };
        let ack = HelloAck {
            session_id,
            device_id: self.config.device_id,
            boot_count: self.config.boot_count,
            firmware_major: 1,
            firmware_minor: 0,
            firmware_patch: 0,
            sdk_major: 1,
            sdk_minor: 0,
            sdk_patch: 0,
            capabilities: CapabilityFlags::from_bits(1u32 | 2u32),
            manifest_crc32,
            max_payload: negotiated_max_payload,
        };
        proof {
            assert(1u32 | 2u32 == 3u32) by (bit_vector);
        }
        let payload = match ack.encode() {
            Ok(b) => b,
            Err(_) => Vec::new(),
        };
        proof {
            assert(payload@.len() == 46);
        }
        let response = response_frame(
            MessageType::HelloAck,
            request.header.sequence,
            session_id,
            payload,
            FrameFlags::response(),
        );
        if request.header.flags.bits() & FrameFlags::ack_required().bits() != 0 {
            let kept = response.duplicate();
            self.completed_hello = Some(CompletedExchange { request, response: kept });
        }
        let r = vec![QueuedFrame { priority: Priority::Safety, frame: response }];
        proof {
            assert(replies_view(r@) =~= hello_outcome(old(self)@, request@, now_ms).1);
        }
        r
    }

    #[verifier::spinoff_prover]
    fn replay_completed_hello(&mut self, request: &Frame, now_ms: u64) -> (r: Option<Frame>)
        requires
            old(self).wf(),
        ensures
            final(self).wf(),
            match hello_replay(old(self)@, request@, now_ms) {
                Some((next, response)) => r matches Some(f) && f@ == response && final(self)@ == next,
                None => r is None && final(self)@ == old(self)@,
            },
    {
        let matches = match &self.completed_hello {
            Some(completed) => completed.request.same_as(request) && request.header.flags.bits()
                & FrameFlags::ack_required().bits() != 0 && self.validate_session(
                completed.response.header.session_id,
            ).is_ok(),
            None => false,
        };
        if !matches {
            return None;
        }
        match &mut self.session {
            Some(session) => {
                session.last_valid_frame_ms = now_ms;
            },
            None => {},
        }
        match &self.completed_hello {
            Some(completed) => Some(completed.response.duplicate()),
            None => None,
        }
    }

    #[verifier::spinoff_prover]
    fn replay_completed_close(&self, request: &Frame) -> (r: Option<Frame>)
        ensures
            match close_replay(self@, request@) {
                Some(response) => r matches Some(f) && f@ == response,
                None => r is None,
            },
    {
        match &self.completed_close {
            Some(completed) => if completed.request.same_as(request) && request.header.flags.bits()
                & FrameFlags::ack_required().bits() != 0 {
                Some(completed.response.duplicate())
            } else {
                None
            },
            None => None,
        }
    }

    #[verifier::spinoff_prover]
    fn handle_session_close(&mut self, request: &Frame) -> (r: Vec<QueuedFrame>)
        requires
            old(self).wf(),
        ensures
            final(self).wf(),
            (final(self)@, replies_view(r@)) == close_outcome(old(self)@, request@),
    {
        if request.payload.len() != 0 {
            let r = vec![self.error_response(request, ErrorCode::InvalidLength, String::new())];
            proof {
                assert(replies_view(r@) =~= close_outcome(self@, request@).1);
            }
            return r;
        }
        let response = response_frame(
            MessageType::SessionClose,
            request.header.sequence,
            request.header.session_id,
            Vec::new(),
            FrameFlags::response(),
        );
        let completed_close = if request.header.flags.bits() & FrameFlags::ack_required().bits() != 0 {
            Some(CompletedExchange { request: request.duplicate(), response: response.duplicate() })
        } else {
            None
        };
        self.clear_current_session();
        self.completed_close = completed_close;
        let r = vec![QueuedFrame { priority: Priority::Safety, frame: response }];
        proof {
            assert(replies_view(r@) =~= close_outcome(old(self)@, request@).1);
        }
        r
    }

    #[verifier::spinoff_prover]
    fn handle_telemetry_stop(&mut self, request: &Frame) -> (r: Vec<QueuedFrame>)
        requires
            old(self).wf(),
        ensures
            final(self).wf(),
            (final(self)@, replies_view(r@)) == stop_outcome(old(self)@, request@),
    {
        if request.payload.len() != 0 {
            let r = vec![self.error_response(request, ErrorCode::InvalidLength, String::new())];
            proof {
                assert(replies_view(r@) =~= stop_outcome(self@, request@).1);
            }
            return r;
        }
        self.clear_telemetry_state();
        let frame = response_frame(
            MessageType::TelemetryStop,
            request.header.sequence,
            request.header.session_id,
            Vec::new(),
            FrameFlags::response(),
        );
        let r = vec![QueuedFrame { priority: Priority::Reliable, frame }];
        proof {
            assert(replies_view(r@) =~= stop_outcome(old(self)@, request@).1);
        }
        r
    }

    /// Whether the manifest describes a channel with id `channel_id`.
    fn knows_channel(&self, channel_id: u32) -> (b: bool)
        ensures
            b == has_channel(self@, channel_id),
    {
        let ghost tv = self@.manifest.telemetry;
        let mut i: usize = 0;
        while i < self.config.manifest.telemetry.len()
            invariant
                i <= self.config.manifest.telemetry@.len(),
                tv == self@.manifest.telemetry,
                tv.len() == self.config.manifest.telemetry@.len(),
                forall|k: int| 0 <= k < i ==> tv[k].channel_id != channel_id,
            decreases self.config.manifest.telemetry@.len() - i,
        {
            proof {
                assert(tv[i as int] == self.config.manifest.telemetry@[i as int]@);
            }
            if self.config.manifest.telemetry[i].channel_id == channel_id {
                proof {
                    assert(tv[i as int].channel_id == channel_id);
                }
                return true;
            }
            i = i + 1;
        }
        false
    }

    #[verifier::spinoff_prover]
    fn handle_telemetry_subscribe(&mut self, request: &Frame, now_ms: u64) -> (r: Vec<QueuedFrame>)
        requires
            old(self).wf(),
        ensures
            final(self).wf(),
            (final(self)@, replies_view(r@)) == subscribe_outcome(old(self)@, request@, now_ms),
    {
        let subscription = match TelemetrySubscription::decode(request.payload.as_slice()) {
            Ok(subscription) => subscription,
            Err(_) => {
                let r = vec![self.error_response(request, ErrorCode::InvalidLength, String::new())];
                proof {
                    assert(replies_view(r@) =~= subscribe_outcome(self@, request@, now_ms).1);
                }
                return r;
            },
        };
        let mut k: usize = 0;
        while k < subscription.channel_ids.len()
            invariant
                k <= subscription.channel_ids@.len(),
                self@ == old(self)@,
                self.wf(),
                subscription_from_wire(request.payload@) == Ok::<
                    TelemetrySubscriptionView,
                    ProtocolError,
                >(subscription@),
                forall|j: int| 0 <= j < k ==> has_channel(self@, #[trigger] subscription.channel_ids@[j]),
            decreases subscription.channel_ids@.len() - k,
        {
            if !self.knows_channel(subscription.channel_ids[k]) {
                let r = vec![self.error_response(request, ErrorCode::InvalidParamId, String::new())];
                proof {
                    assert(!has_channel(self@, subscription@.channel_ids[k as int]));
                    assert(replies_view(r@) =~= subscribe_outcome(self@, request@, now_ms).1);
                }
                return r;
            }
            k = k + 1;
        }
        let period_us = crate::sim::support::telemetry_period_us(subscription.sample_rate_hz);
        self.next_telemetry_at_us = Some(saturating_ms_to_us(now_ms).saturating_add(period_us));
        self.telemetry_subscription = Some(subscription);
        self.next_telemetry_sequence = 0;
        self.pending_dropped_telemetry_samples = 0;
        let frame = response_frame(
            MessageType::TelemetrySubscribeAck,
            request.header.sequence,
            request.header.session_id,
            Vec::new(),
            FrameFlags::response(),
        );
        let r = vec![QueuedFrame { priority: Priority::Reliable, frame }];
        proof {
            assert(replies_view(r@) =~= subscribe_outcome(old(self)@, request@, now_ms).1);
        }
        r
    }
}

/// The payload limit of the open session, or the protocol's.
pub open spec fn session_limit(v: SimDeviceView) -> int {
    match v.session {
        Some(s) => s.max_payload as int,
        None => MAX_PAYLOAD_LEN as int,
    }
}

/// The chunks of `bytes` from offset `off` on, `c` bytes each (the last
/// may be shorter), each as a reliable chunk frame flagged as a response
/// with more fragments to come.
pub open spec fn chunk_replies(
    bytes: Seq<u8>,
    c: int,
    crc: u32,
    off: int,
    sequence: u16,
    session_id: u32,
) -> Seq<Reply>
    decreases bytes.len() - off,
{
    if off >= bytes.len() || c <= 0 || off < 0 {
        Seq::empty()
    } else {
        let end = if c < bytes.len() - off {
            off + c
        } else {
            bytes.len() as int
        };
        seq![
            reply(
                Priority::Reliable,
                MessageType::ManifestChunk,
                0x0Au8,
                sequence,
                session_id,
                manifest_chunk_wire(
                    ManifestChunkView {
                        manifest_crc32: crc,
                        total_len: bytes.len() as u32,
                        offset: off as u32,
                        data: bytes.subrange(off, end),
                    },
                ),
            ),
        ] + chunk_replies(bytes, c, crc, end, sequence, session_id)
    }
}

/// The manifest transfer: an empty payload is required (`InvalidLength`);
/// the canonical encoding (`InternalError` when there is none) goes out in
/// chunks that fill the session's payload limit, then a completion frame
/// with its CRC and length.
pub open spec fn manifest_replies(v: SimDeviceView, request: (FrameHeader, Seq<u8>)) -> Seq<Reply> {
    if request.1.len() != 0 {
        error_only(request.0, ErrorCode::InvalidLength)
    } else {
        match manifest_to_wire(v.manifest) {
            Err(_) => error_only(request.0, ErrorCode::InternalError),
            Ok(bytes) => {
                let crc = spec_crc32(bytes);
                chunk_replies(
                    bytes,
                    session_limit(v) - MANIFEST_CHUNK_PREFIX_LEN,
                    crc,
                    0,
                    request.0.sequence,
                    request.0.session_id,
                ) + seq![
                    reply(
                        Priority::Reliable,
                        MessageType::ManifestDone,
                        0x02u8,
                        request.0.sequence,
                        request.0.session_id,
                        manifest_done_wire(ManifestDone { manifest_crc32: crc, total_len: bytes.len() as u32 }),
                    ),
                ]
            },
        }
    }
}

impl SimDevice {
    #[verifier::spinoff_prover]
    #[verifier::rlimit(30)]
    fn handle_manifest_request(&self, request: &Frame) -> (r: Vec<QueuedFrame>)
        requires
            self.wf(),
        ensures
            replies_view(r@) == manifest_replies(self@, request@),
    {
        if request.payload.len() != 0 {
            let r = vec![self.error_response(request, ErrorCode::InvalidLength, String::new())];
            proof {
                assert(replies_view(r@) =~= manifest_replies(self@, request@));
            }
            return r;
        }
        let bytes = match self.config.manifest.encode_canonical() {
            Ok(bytes) => bytes,
            Err(_) => {
                let r = vec![self.error_response(request, ErrorCode::InternalError, String::new())];
                proof {
                    assert(replies_view(r@) =~= manifest_replies(self@, request@));
                }
                return r;
            },
        };
        let crc32 = match self.config.manifest.manifest_crc32() {
            Ok(crc) => crc,
            Err(_) => {
                let r = vec![self.error_response(request, ErrorCode::InternalError, String::new())];
                proof {
                    assert(false);
                }
                return r;
            },
        };
        let limit: usize = match &self.session {
            Some(session) => session.max_payload as usize,
            None => MAX_PAYLOAD_LEN,
        };
        let chunk_data_len = limit - MANIFEST_CHUNK_PREFIX_LEN;
        let ghost c = chunk_data_len as int;
        let ghost seq_no = request.header.sequence;
        let ghost sid = request.header.session_id;
        let ghost all = chunk_replies(bytes@, c, crc32, 0, seq_no, sid);
        let mut responses: Vec<QueuedFrame> = Vec::new();
        let mut offset: usize = 0;
        proof {
            assert(replies_view(responses@) + all =~= all);
        }
        while offset < bytes.len()
            invariant
                offset <= bytes@.len(),
                0 < chunk_data_len <= MAX_PAYLOAD_LEN - MANIFEST_CHUNK_PREFIX_LEN,
                c == chunk_data_len as int,
                seq_no == request.header.sequence,
                sid == request.header.session_id,
                all == chunk_replies(bytes@, c, crc32, 0, seq_no, sid),
                replies_view(responses@) + chunk_replies(bytes@, c, crc32, offset as int, seq_no, sid)
                    == all,
            decreases bytes@.len() - offset,
        {
            let end = if chunk_data_len < bytes.len() - offset {
                offset + chunk_data_len
            } else {
                bytes.len()
            };
            let data = crate::bytes::copy_range(bytes.as_slice(), offset, end);
            let chunk = ManifestChunk {
                manifest_crc32: crc32,
                total_len: bytes.len() as u32,
                offset: offset as u32,
                data,
            };
            let payload = match chunk.encode() {
                Ok(b) => b,
                Err(_) => Vec::new(),
            };
            let frame = response_frame(
                MessageType::ManifestChunk,
                request.header.sequence,
                request.header.session_id,
                payload,
                crate::sim::support::combine_flags(FrameFlags::response(), FrameFlags::more_fragments()),
            );
            proof {
                assert(2u8 | 8u8 == 0x0Au8) by (bit_vector);
            }
            let ghost before = responses@;
            responses.push(QueuedFrame { priority: Priority::Reliable, frame });
            proof {
                let rest = chunk_replies(bytes@, c, crc32, offset as int, seq_no, sid);
                assert(replies_view(responses@) =~= replies_view(before).push(rest[0]));
                assert(rest == seq![rest[0]] + chunk_replies(bytes@, c, crc32, end as int, seq_no, sid));
                assert(replies_view(before) + rest =~= replies_view(responses@) + chunk_replies(
                    bytes@,
                    c,
                    crc32,
                    end as int,
                    seq_no,
                    sid,
                ));
            }
            offset = end;
        }
        let done = ManifestDone { manifest_crc32: crc32, total_len: bytes.len() as u32 };
        let payload = match done.encode() {
            Ok(b) => b,
            Err(_) => Vec::new(),
        };
        let frame = response_frame(
            MessageType::ManifestDone,
            request.header.sequence,
            request.header.session_id,
            payload,
            FrameFlags::response(),
        );
        let ghost before = responses@;
        responses.push(QueuedFrame { priority: Priority::Reliable, frame });
        proof {
            assert(replies_view(before) + Seq::<Reply>::empty() =~= replies_view(before));
            assert(replies_view(responses@) =~= manifest_replies(self@, request@));
        }
        responses
    }
}

/// The work of a request on an open session, by its message type; an
/// unhandled type is `UnknownMessage`.
pub open spec fn dispatch_outcome(v: SimDeviceView, request: (FrameHeader, Seq<u8>), now_ms: u64) -> (
    SimDeviceView,
    Seq<Reply>,
) {
    match request.0.message_type {
        MessageType::Heartbeat => (v, heartbeat_replies(request)),
        MessageType::ManifestRequest => (v, manifest_replies(v, request)),
        MessageType::ParamRead => (v, param_read_replies(v, request)),
        MessageType::ParamWrite => param_write_outcome(v, request),
        MessageType::ParamCommit => param_commit_outcome(v, request),
        MessageType::TelemetrySubscribe => subscribe_outcome(v, request, now_ms),
        MessageType::TelemetryStop => stop_outcome(v, request),
        MessageType::SessionClose => close_outcome(v, request),
        _ => (v, error_only(request.0, ErrorCode::UnknownMessage)),
    }
}

/// Whether some reply carries more payload than `limit` bytes.
pub open spec fn exceeds_limit(replies: Seq<Reply>, limit: int) -> bool {
    exists|k: int| 0 <= k < replies.len() && (#[trigger] replies[k]).1.1.len() > limit
}

/// The key a request is cached under.
pub open spec fn request_key(h: FrameHeader) -> RequestKey {
    RequestKey { session_id: h.session_id, message_type: h.message_type, sequence: h.sequence }
}

/// What the device does with a request at `now_ms`. An expired session
/// goes first (`after_expiry`). A handshake is replayed (`hello_replay`) or
/// handled (`hello_outcome`); a close is replayed when it can be
/// (`close_replay`). Any other request must name the open session
/// (`InvalidSession`) and fit its payload limit (`InvalidLength`); it then
/// refreshes the session. A request asking for acknowledgement whose answer
/// is cached gets that answer again. Otherwise it is dispatched; answers
/// over the payload limit become one `InternalError`; and a single answer
/// to a request asking for acknowledgement (but not a close) is cached.
pub open spec fn device_handle(v: SimDeviceView, request: (FrameHeader, Seq<u8>), now_ms: u64) -> (
    SimDeviceView,
    Seq<Reply>,
) {
    let v0 = after_expiry(v, now_ms);
    let h = request.0;
    if h.message_type == MessageType::Hello {
        match hello_replay(v0, request, now_ms) {
            Some((v1, response)) => (v1, seq![(Priority::Safety, response)]),
            None => hello_outcome(v0, request, now_ms),
        }
    } else if h.message_type == MessageType::SessionClose && close_replay(v0, request) is Some {
        (v0, seq![(Priority::Safety, close_replay(v0, request)->Some_0)])
    } else if session_id_of(v0) != Some(h.session_id) {
        (v0, error_only(h, ErrorCode::InvalidSession))
    } else {
        let limit = v0.session->Some_0.max_payload as int;
        if request.1.len() > limit {
            (v0, error_only(h, ErrorCode::InvalidLength))
        } else {
            let v1 = SimDeviceView {
                session: Some(SessionState { last_valid_frame_ms: now_ms, ..v0.session->Some_0 }),
                ..v0
            };
            let key = request_key(h);
            if ack_required(h) && cache_find(v1.cache, key) is Some {
                let cached = cache_find(v1.cache, key)->Some_0;
                (v1, seq![(priority_of(cached.0.message_type), cached)])
            } else {
                let (v2, replies) = dispatch_outcome(v1, request, now_ms);
                let replies = if exceeds_limit(replies, limit) {
                    error_only(h, ErrorCode::InternalError)
                } else {
                    replies
                };
                if ack_required(h) && h.message_type != MessageType::SessionClose && replies.len()
                    == 1 && cache_find(v2.cache, key) is None {
                    (SimDeviceView { cache: cache_store(v2.cache, key, replies[0].1), ..v2 }, replies)
                } else {
                    (v2, replies)
                }
            }
        }
    }
}

impl SimDevice {
    #[verifier::spinoff_prover]
    fn dispatch(&mut self, request: &Frame, now_ms: u64) -> (r: Vec<QueuedFrame>)
        requires
            old(self).wf(),
        ensures
            final(self).wf(),
            (final(self)@, replies_view(r@)) == dispatch_outcome(old(self)@, request@, now_ms),
    {
        match request.header.message_type {
            MessageType::Heartbeat => self.handle_heartbeat(request),
            MessageType::ManifestRequest => self.handle_manifest_request(request),
            MessageType::ParamRead => self.handle_param_read(request),
            MessageType::ParamWrite => self.handle_param_write(request),
            MessageType::ParamCommit => self.handle_param_commit(request),
            MessageType::TelemetrySubscribe => self.handle_telemetry_subscribe(request, now_ms),
            MessageType::TelemetryStop => self.handle_telemetry_stop(request),
            MessageType::SessionClose => self.handle_session_close(request),
            _ => {
                let r = vec![self.error_response(request, ErrorCode::UnknownMessage, String::new())];
                proof {
                    assert(replies_view(r@) =~= dispatch_outcome(self@, request@, now_ms).1);
                }
                r
            },
        }
    }

    /// Answers one request at `now_ms`; see `device_handle`.
    #[verifier::spinoff_prover]
    #[verifier::rlimit(60)]
    pub fn handle(&mut self, request: Frame, now_ms: u64) -> (r: Vec<QueuedFrame>)
        requires
            old(self).wf(),
        ensures
            final(self).wf(),
            (final(self)@, replies_view(r@)) == device_handle(old(self)@, request@, now_ms),
    {
        self.expire_session(now_ms);
        let ghost v0 = self@;
        if request.header.message_type == MessageType::Hello {
            match self.replay_completed_hello(&request, now_ms) {
                Some(response) => {
                    let r = vec![QueuedFrame { priority: Priority::Safety, frame: response }];
                    proof {
                        assert(replies_view(r@) =~= device_handle(old(self)@, request@, now_ms).1);
                    }
                    return r;
                },
                None => {},
            }
            return self.handle_hello(request, now_ms);
        }
        if request.header.message_type == MessageType::SessionClose {
            match self.replay_completed_close(&request) {
                Some(response) => {
                    let r = vec![QueuedFrame { priority: Priority::Safety, frame: response }];
                    proof {
                        assert(replies_view(r@) =~= device_handle(old(self)@, request@, now_ms).1);
                    }
                    return r;
                },
                None => {},
            }
        }
        if self.validate_session(request.header.session_id).is_err() {
            let r = vec![self.error_response(&request, ErrorCode::InvalidSession, String::new())];
            proof {
                assert(replies_view(r@) =~= device_handle(old(self)@, request@, now_ms).1);
            }
            return r;
        }
        let negotiated_max_payload: usize = match &self.session {
            Some(session) => session.max_payload as usize,
            None => MAX_PAYLOAD_LEN,
        };
        if request.payload.len() > negotiated_max_payload {
            let r = vec![self.error_response(&request, ErrorCode::InvalidLength, String::new())];
            proof {
                assert(replies_view(r@) =~= device_handle(old(self)@, request@, now_ms).1);
            }
            return r;
        }
        match &mut self.session {
            Some(session) => {
                session.last_valid_frame_ms = now_ms;
            },
            None => {},
        }
        let ghost v1 = self@;
        let key = RequestKey {
            session_id: request.header.session_id,
            message_type: request.header.message_type,
            sequence: request.header.sequence,
        };
        let reliable = request.header.flags.bits() & FrameFlags::ack_required().bits() != 0;
        if reliable {
            match self.request_cache.get(&key) {
                Some(frame) => {
                    let priority = crate::sim::support::priority_for(&frame);
                    let r = vec![QueuedFrame { priority, frame }];
                    proof {
                        assert(replies_view(r@) =~= device_handle(old(self)@, request@, now_ms).1);
                    }
                    return r;
                },
                None => {},
            }
        }
        let mut responses = self.dispatch(&request, now_ms);
        let ghost dispatched = replies_view(responses@);
        let mut too_large = false;
        let mut k: usize = 0;
        while k < responses.len()
            invariant
                k <= responses@.len(),
                dispatched == replies_view(responses@),
                too_large == (exists|j: int| 0 <= j < k && (#[trigger] dispatched[j]).1.1.len()
                    > negotiated_max_payload),
            decreases responses@.len() - k,
        {
            proof {
                assert(dispatched[k as int] == (responses@[k as int].priority, responses@[k as int].frame@));
            }
            if responses[k].frame.payload.len() > negotiated_max_payload {
                too_large = true;
            }
            k = k + 1;
        }
        if too_large {
            responses = vec![self.error_response(&request, ErrorCode::InternalError, String::new())];
        }
        if reliable && request.header.message_type != MessageType::SessionClose && responses.len() == 1 {
            let cached = responses[0].frame.duplicate();
            self.request_cache.insert(key, cached);
        }
        proof {
            assert(replies_view(responses@) =~= device_handle(old(self)@, request@, now_ms).1);
        }
        responses
    }
}

/// `a * b`, saturating at `u64::MAX`.
pub open spec fn sat_mul(a: u64, b: u64) -> u64 {
    if a * b > u64::MAX {
        u64::MAX
    } else {
        (a * b) as u64
    }
}

fn saturating_mul_u64(a: u64, b: u64) -> (r: u64)
    ensures
        r == sat_mul(a, b),
{
    match a.checked_mul(b) {
        Some(p) => p,
        None => u64::MAX,
    }
}

/// The first telemetry descriptor of the manifest with id `id`.
pub open spec fn channel_lookup(tel: Seq<TelemetryDescriptorView>, id: u32) -> Option<TelemetryDescriptorView>
    decreases tel.len(),
{
    if tel.len() == 0 {
        None
    } else if tel[0].channel_id == id {
        Some(tel[0])
    } else {
        channel_lookup(tel.drop_first(), id)
    }
}

/// The descriptors of the subscribed channels, in subscription order;
/// `None` when the manifest lacks one of them.
pub open spec fn subscribed_channels(tel: Seq<TelemetryDescriptorView>, ids: Seq<u32>) -> Option<
    Seq<TelemetryDescriptorView>,
>
    decreases ids.len(),
{
    if ids.len() == 0 {
        Some(Seq::empty())
    } else {
        match (subscribed_channels(tel, ids.drop_last()), channel_lookup(tel, ids.last())) {
            (Some(cs), Some(d)) => Some(cs.push(d)),
            _ => None,
        }
    }
}

/// What a telemetry batch is made of once the device has decided to send
/// one: where it goes, its header fields, the time of each sample and the
/// channels each sample holds.
pub struct TelemetryPlan {
    pub session_id: u32,
    pub max_payload: u16,
    pub subscription_version: u16,
    pub first_sample_sequence: u16,
    pub dropped_samples: u16,
    pub base_timestamp_us: u32,
    pub dt_us: u16,
    pub sample_timestamps_us: Vec<u64>,
    pub channels: Vec<TelemetryDescriptor>,
}

/// A `TelemetryPlan` with its lists as sequences.
pub struct TelemetryPlanView {
    pub session_id: u32,
    pub max_payload: u16,
    pub subscription_version: u16,
    pub first_sample_sequence: u16,
    pub dropped_samples: u16,
    pub base_timestamp_us: u32,
    pub dt_us: u16,
    pub sample_timestamps_us: Seq<u64>,
    pub channels: Seq<TelemetryDescriptorView>,
}

impl View for TelemetryPlan {
    type V = TelemetryPlanView;

    open spec fn view(&self) -> TelemetryPlanView {
        TelemetryPlanView {
            session_id: self.session_id,
            max_payload: self.max_payload,
            subscription_version: self.subscription_version,
            first_sample_sequence: self.first_sample_sequence,
            dropped_samples: self.dropped_samples,
            base_timestamp_us: self.base_timestamp_us,
            dt_us: self.dt_us,
            sample_timestamps_us: self.sample_timestamps_us@,
            channels: telemetry_views(self.channels@),
        }
    }
}

/// The smaller of two numbers.
pub open spec fn min_u64(a: u64, b: u64) -> u64 {
    if a < b {
        a
    } else {
        b
    }
}

/// The telemetry schedule at `now_ms`. Nothing is due without a session, a
/// subscription, or before the next deadline. The samples due are one plus
/// the whole periods elapsed since the deadline. A batch holds at most 16
/// samples, as many as fit the session's payload limit, and one when the
/// period does not fit the 16-bit time step; the oldest samples beyond that
/// are skipped and counted as dropped. A subscription naming a channel the
/// manifest lacks, or with room for no sample, is cancelled. When a batch
/// is made, sequence numbers and the deadline move past every due sample and
/// the drop count goes out with it.
pub open spec fn tick_plan_outcome(v: SimDeviceView, now_ms: u64) -> (SimDeviceView, Option<
    TelemetryPlanView,
>) {
    let v0 = after_expiry(v, now_ms);
    match (v0.session, v0.subscription, v0.next_telemetry_at_us) {
        (Some(s), Some(sub), Some(next_at)) => {
            let now_us = ms_to_us(now_ms);
            if now_us < next_at {
                (v0, None)
            } else {
                let period = (1_000_000int / (sub.sample_rate_hz as int)) as u64;
                let due = ((now_us - next_at) / (period as int) + 1) as u64;
                match subscribed_channels(v0.manifest.telemetry, sub.channel_ids) {
                    None => (without_telemetry(v0), None),
                    Some(chs) => {
                        let row: int = 2 + 4 * chs.len() as int;
                        let payload_cap = ((s.max_payload as int - TELEMETRY_BATCH_PREFIX_LEN as int) / row) as u64;
                        let delta_cap: u64 = if period <= 65535 {
                            MAX_TELEMETRY_SAMPLES as u64
                        } else {
                            1
                        };
                        let cap = min_u64(min_u64(payload_cap, delta_cap), MAX_TELEMETRY_SAMPLES as u64);
                        if cap == 0 {
                            (without_telemetry(v0), None)
                        } else {
                            let emitted = min_u64(due, cap);
                            let skipped = (due - emitted) as u64;
                            let dropped = v0.pending_dropped_telemetry_samples.saturating_add(
                                min_u64(skipped, 65535) as u16,
                            );
                            let first = v0.next_telemetry_sequence.wrapping_add(skipped as u16);
                            (
                                SimDeviceView {
                                    next_telemetry_sequence: first.wrapping_add(emitted as u16),
                                    next_telemetry_at_us: Some(
                                        next_at.saturating_add(sat_mul(due, period)),
                                    ),
                                    pending_dropped_telemetry_samples: 0,
                                    ..v0
                                },
                                Some(
                                    TelemetryPlanView {
                                        session_id: s.id,
                                        max_payload: s.max_payload,
                                        subscription_version: sub.subscription_version,
                                        first_sample_sequence: first,
                                        dropped_samples: dropped,
                                        base_timestamp_us: next_at.saturating_add(
                                            sat_mul(skipped, period),
                                        ) as u32,
                                        dt_us: if period <= 65535 {
                                            period as u16
                                        } else {
                                            0
                                        },
                                        sample_timestamps_us: Seq::new(
                                            emitted as nat,
                                            |i: int|
                                                next_at.saturating_add(
                                                    sat_mul(skipped.saturating_add(i as u64), period),
                                                ),
                                        ),
                                        channels: chs,
                                    },
                                ),
                            )
                        }
                    },
                }
            }
        },
        _ => (v0, None),
    }
}

impl SimDevice {
    /// The manifest's first descriptor with id `channel_id`; see
    /// `channel_lookup`.
    fn lookup_channel(&self, channel_id: u32) -> (r: Option<TelemetryDescriptor>)
        ensures
            match channel_lookup(self@.manifest.telemetry, channel_id) {
                Some(d) => r matches Some(x) && x@ == d,
                None => r is None,
            },
    {
        let ghost tv = self@.manifest.telemetry;
        let mut i: usize = 0;
        proof {
            assert(tv.subrange(0, tv.len() as int) =~= tv);
        }
        while i < self.config.manifest.telemetry.len()
            invariant
                i <= self.config.manifest.telemetry@.len(),
                tv == self@.manifest.telemetry,
                tv.len() == self.config.manifest.telemetry@.len(),
                channel_lookup(tv, channel_id) == channel_lookup(tv.subrange(i as int, tv.len() as int), channel_id),
            decreases self.config.manifest.telemetry@.len() - i,
        {
            let ghost rest = tv.subrange(i as int, tv.len() as int);
            proof {
                assert(rest[0] == tv[i as int]);
                assert(tv[i as int] == self.config.manifest.telemetry@[i as int]@);
                assert(rest.drop_first() =~= tv.subrange(i + 1, tv.len() as int));
            }
            if self.config.manifest.telemetry[i].channel_id == channel_id {
                return Some(self.config.manifest.telemetry[i].duplicate());
            }
            i = i + 1;
        }
        None
    }

    /// The descriptors of the subscribed channels; see
    /// `subscribed_channels`.
    fn channels_for(&self, ids: &Vec<u32>) -> (r: Option<Vec<TelemetryDescriptor>>)
        ensures
            match subscribed_channels(self@.manifest.telemetry, ids@) {
                Some(cs) => r matches Some(x) && telemetry_views(x@) == cs,
                None => r is None,
            },
            r matches Some(x) ==> x@.len() == ids@.len(),
    {
        let mut out: Vec<TelemetryDescriptor> = Vec::new();
        let mut k: usize = 0;
        proof {
            assert(ids@.take(0) =~= Seq::<u32>::empty());
            assert(telemetry_views(out@) =~= Seq::<TelemetryDescriptorView>::empty());
        }
        while k < ids.len()
            invariant
                k <= ids@.len(),
                subscribed_channels(self@.manifest.telemetry, ids@.take(k as int)) == Some(
                    telemetry_views(out@),
                ),
                out@.len() == k,
            decreases ids@.len() - k,
        {
            proof {
                assert(ids@.take(k + 1).drop_last() =~= ids@.take(k as int));
                assert(ids@.take(k + 1).last() == ids@[k as int]);
            }
            match self.lookup_channel(ids[k]) {
                Some(d) => {
                    let ghost before = out@;
                    out.push(d);
                    proof {
                        assert(telemetry_views(out@) =~= telemetry_views(before).push(d@));
                    }
                },
                None => {
                    proof {
                        lemma_subscribed_channels_prefix(self@.manifest.telemetry, ids@, k + 1);
                    }
                    return None;
                },
            }
            k = k + 1;
        }
        proof {
            assert(ids@.take(k as int) =~= ids@);
        }
        Some(out)
    }

    /// Decides whether a telemetry batch is due at `now_ms` and, if so,
    /// moves the schedule past it; see `tick_plan_outcome`.
    #[verifier::spinoff_prover]
    #[verifier::rlimit(60)]
    pub fn tick_plan(&mut self, now_ms: u64) -> (r: Option<TelemetryPlan>)
        requires
            old(self).wf(),
        ensures
            final(self).wf(),
            final(self)@ == tick_plan_outcome(old(self)@, now_ms).0,
            match tick_plan_outcome(old(self)@, now_ms).1 {
                Some(p) => r matches Some(x) && x@ == p,
                None => r is None,
            },
    {
        self.expire_session(now_ms);
        let (session_id, max_payload) = match &self.session {
            Some(session) => (session.id, session.max_payload),
            None => {
                return None;
            },
        };
        let (subscription_version, sample_rate_hz, channel_ids) = match &self.telemetry_subscription {
            Some(sub) => (sub.subscription_version, sub.sample_rate_hz, copy_ids(&sub.channel_ids)),
            None => {
                return None;
            },
        };
        let next_telemetry_at_us = match self.next_telemetry_at_us {
            Some(t) => t,
            None => {
                return None;
            },
        };
        let now_us = saturating_ms_to_us(now_ms);
        if now_us < next_telemetry_at_us {
            return None;
        }
        let period_us = crate::sim::support::telemetry_period_us(sample_rate_hz);
        proof {
            assert(period_us >= 2000) by (nonlinear_arith)
                requires
                    1 <= sample_rate_hz <= 500,
                    period_us == 1_000_000int / (sample_rate_hz as int),
            ;
            let d = (now_us - next_telemetry_at_us) as int;
            assert(d / (period_us as int) <= d / 2000) by (nonlinear_arith)
                requires
                    period_us >= 2000,
                    d >= 0,
            ;
        }
        let due_samples = (now_us - next_telemetry_at_us) / period_us + 1;
        let descriptors = match self.channels_for(&channel_ids) {
            Some(d) => d,
            None => {
                self.clear_telemetry_state();
                return None;
            },
        };
        let sample_payload_len = 2 + 4 * descriptors.len();
        let payload_sample_capacity = ((max_payload as usize) - TELEMETRY_BATCH_PREFIX_LEN)
            / sample_payload_len;
        let delta_sample_capacity: usize = if period_us <= 65535 {
            MAX_TELEMETRY_SAMPLES
        } else {
            1
        };
        let mut sample_capacity = payload_sample_capacity;
        if delta_sample_capacity < sample_capacity {
            sample_capacity = delta_sample_capacity;
        }
        if MAX_TELEMETRY_SAMPLES < sample_capacity {
            sample_capacity = MAX_TELEMETRY_SAMPLES;
        }
        if sample_capacity == 0 {
            self.clear_telemetry_state();
            return None;
        }
        let emitted_samples: u64 = if due_samples < sample_capacity as u64 {
            due_samples
        } else {
            sample_capacity as u64
        };
        let skipped_samples = due_samples - emitted_samples;
        let skipped_count: u16 = if skipped_samples < 65535 {
            skipped_samples as u16
        } else {
            65535
        };
        self.note_telemetry_drop(skipped_count);
        let first_sample_sequence = self.next_telemetry_sequence.wrapping_add(skipped_samples as u16);
        self.next_telemetry_sequence = first_sample_sequence.wrapping_add(emitted_samples as u16);
        let base_timestamp_us = next_telemetry_at_us.saturating_add(
            saturating_mul_u64(skipped_samples, period_us),
        ) as u32;
        self.next_telemetry_at_us = Some(
            next_telemetry_at_us.saturating_add(saturating_mul_u64(due_samples, period_us)),
        );
        let dt_us: u16 = if period_us <= 65535 {
            period_us as u16
        } else {
            0
        };
        let mut sample_timestamps_us: Vec<u64> = Vec::new();
        let mut index: u64 = 0;
        while index < emitted_samples
            invariant
                index <= emitted_samples,
                sample_timestamps_us@.len() == index,
                forall|i: int|
                    0 <= i < index ==> #[trigger] sample_timestamps_us@[i] == next_telemetry_at_us.saturating_add(
                        sat_mul(skipped_samples.saturating_add(i as u64), period_us),
                    ),
            decreases emitted_samples - index,
        {
            sample_timestamps_us.push(
                next_telemetry_at_us.saturating_add(
                    saturating_mul_u64(skipped_samples.saturating_add(index), period_us),
                ),
            );
            index = index + 1;
        }
        let dropped_samples = self.pending_dropped_telemetry_samples;
        self.pending_dropped_telemetry_samples = 0;
        let plan = TelemetryPlan {
            session_id,
            max_payload,
            subscription_version,
            first_sample_sequence,
            dropped_samples,
            base_timestamp_us,
            dt_us,
            sample_timestamps_us,
            channels: descriptors,
        };
        proof {
            assert(plan@.sample_timestamps_us =~= tick_plan_outcome(old(self)@, now_ms).1->Some_0.sample_timestamps_us);
        }
        Some(plan)
    }

    /// The id counter behind session ids; it moves whenever a session opens.
    pub fn session_counter(&self) -> (c: u32)
        ensures
            c == self@.session_counter,
    {
        self.session_counter
    }

    /// The RAM value of the first parameter with the given machine name;
    /// `None` when no parameter has that name.
    pub fn parameter_named(&self, machine_name: &str) -> (r: Option<ParamValue>)
        ensures
            match r {
                Some(v) => exists|i: int|
                    0 <= i < self@.parameters.len() && self@.parameters[i].descriptor.machine_name
                        == vstd::utf8::encode_utf8(machine_name@) && self@.parameters[i].value == v
                        && forall|j: int|
                        0 <= j < i ==> #[trigger] self@.parameters[j].descriptor.machine_name
                            != vstd::utf8::encode_utf8(machine_name@),
                None => forall|j: int|
                    0 <= j < self@.parameters.len() ==> #[trigger] self@.parameters[j].descriptor.machine_name
                        != vstd::utf8::encode_utf8(machine_name@),
            },
    {
        let mut i: usize = 0;
        while i < self.parameters.len()
            invariant
                i <= self.parameters@.len(),
                self@.parameters.len() == self.parameters@.len(),
                forall|j: int|
                    0 <= j < i ==> #[trigger] self@.parameters[j].descriptor.machine_name
                        != vstd::utf8::encode_utf8(machine_name@),
            decreases self.parameters@.len() - i,
        {
            proof {
                assert(self@.parameters[i as int] == self.parameters@[i as int]@);
            }
            if crate::bytes::bytes_equal(
                self.parameters[i].descriptor.machine_name.as_str().as_bytes(),
                machine_name.as_bytes(),
            ) {
                return Some(self.parameters[i].value);
            }
            i = i + 1;
        }
        None
    }
}

proof fn lemma_subscribed_channels_prefix(tel: Seq<TelemetryDescriptorView>, ids: Seq<u32>, k: int)
    requires
        0 <= k <= ids.len(),
        subscribed_channels(tel, ids.take(k)) is None,
    ensures
        subscribed_channels(tel, ids) is None,
    decreases ids.len(),
{
    if k == ids.len() {
        assert(ids.take(k) =~= ids);
    } else {
        assert(ids.drop_last().take(k) =~= ids.take(k));
        lemma_subscribed_channels_prefix(tel, ids.drop_last(), k);
    }
}

fn copy_ids(ids: &Vec<u32>) -> (r: Vec<u32>)
    ensures
        r@ == ids@,
{
    let mut out: Vec<u32> = Vec::new();
    let mut i: usize = 0;
    while i < ids.len()
        invariant
            i <= ids@.len(),
            out@ == ids@.take(i as int),
        decreases ids@.len() - i,
    {
        out.push(ids[i]);
        proof {
            assert(out@ =~= ids@.take(i + 1));
        }
        i = i + 1;
    }
    proof {
        assert(ids@.take(i as int) =~= ids@);
    }
    out
}

/// The sample rows of a plan: a zero time step first, the plan's step
/// after it, each with its values.
pub open spec fn plan_rows(dt_us: u16, values: Seq<Seq<u32>>) -> Seq<(u16, Seq<u32>)> {
    Seq::new(
        values.len(),
        |i: int|
            (
                if i == 0 {
                    0u16
                } else {
                    dt_us
                },
                values[i],
            ),
    )
}

/// The batch a plan makes with the given sample values, as a telemetry
/// frame of the plan's session numbered by its first sample; nothing when
/// the batch has no encoding or exceeds the session's payload limit.
pub open spec fn telemetry_replies(p: TelemetryPlanView, values: Seq<Seq<u32>>) -> Seq<Reply> {
    match batch_to_wire(
        TelemetryBatchView {
            subscription_version: p.subscription_version,
            first_sample_sequence: p.first_sample_sequence,
            dropped_samples: p.dropped_samples,
            base_timestamp_us: p.base_timestamp_us,
            samples: plan_rows(p.dt_us, values),
        },
    ) {
        Err(_) => Seq::empty(),
        Ok(payload) => if payload.len() > p.max_payload {
            Seq::empty()
        } else {
            seq![
                reply(
                    Priority::Telemetry,
                    MessageType::TelemetryData,
                    0u8,
                    p.first_sample_sequence,
                    p.session_id,
                    payload,
                ),
            ]
        },
    }
}

/// The contents of a list of value rows.
pub open spec fn rows_view(v: Seq<Vec<u32>>) -> Seq<Seq<u32>> {
    v.map_values(|r: Vec<u32>| r@)
}

/// Builds the telemetry frame of a plan from the values of its samples,
/// one row per sample time and one value per channel; see
/// `telemetry_replies`.
pub fn telemetry_frames(plan: &TelemetryPlan, values: &Vec<Vec<u32>>) -> (r: Vec<QueuedFrame>)
    ensures
        replies_view(r@) == telemetry_replies(plan@, rows_view(values@)),
{
    let ghost rows = plan_rows(plan.dt_us, rows_view(values@));
    let mut samples: Vec<TelemetrySample> = Vec::new();
    let mut i: usize = 0;
    while i < values.len()
        invariant
            i <= values@.len(),
            rows.len() == values@.len(),
            rows == plan_rows(plan.dt_us, rows_view(values@)),
            samples@.map_values(|s: TelemetrySample| s@) =~= rows.take(i as int),
        decreases values@.len() - i,
    {
        let dt: u16 = if i == 0 {
            0u16
        } else {
            plan.dt_us
        };
        let row = copy_ids(&values[i]);
        let ghost before = samples@;
        samples.push(TelemetrySample { dt_us: dt, values: row });
        proof {
            assert(samples@ =~= before.push(TelemetrySample { dt_us: dt, values: row }));
            assert(rows.take(i + 1) =~= rows.take(i as int).push(rows[i as int]));
            assert(samples@.map_values(|s: TelemetrySample| s@) =~= before.map_values(
                |s: TelemetrySample| s@,
            ).push((dt, row@)));
        }
        i = i + 1;
    }
    proof {
        assert(rows.take(i as int) =~= rows);
    }
    let batch = TelemetryBatch {
        subscription_version: plan.subscription_version,
        first_sample_sequence: plan.first_sample_sequence,
        dropped_samples: plan.dropped_samples,
        base_timestamp_us: plan.base_timestamp_us,
        samples,
    };
    let payload = match batch.encode() {
        Ok(payload) => payload,
        Err(_) => {
            return Vec::new();
        },
    };
    if payload.len() > plan.max_payload as usize {
        return Vec::new();
    }
    proof {
        crate::telemetry::lemma_batch_wire_len(batch@);
    }
    let frame = response_frame(
        MessageType::TelemetryData,
        plan.first_sample_sequence,
        plan.session_id,
        payload,
        FrameFlags::none(),
    );
    vec![QueuedFrame { priority: Priority::Telemetry, frame }]
}

} // verus!
