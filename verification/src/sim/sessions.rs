//! What holds of the simulated device's sessions across requests: expiry,
//! refusal of foreign sessions, and replay of acknowledged requests.

use vstd::prelude::*;

use crate::frame::{FrameHeader, MessageType};
use crate::messages::ErrorCode;
use crate::sim::cache::{cache_find, lemma_store_then_find};
use crate::sim::device::{
    ack_required, after_expiry, close_replay, device_handle, device_wf, dispatch_outcome, error_only,
    request_key, session_expired, session_id_of, Reply, SessionState, SimDeviceView,
};
use crate::sim::cache::RequestKey;

verus! {

/// Requests other than a close leave the session, the cached answers and
/// the replayable close as they were.
proof fn lemma_dispatch_keeps_session(v: SimDeviceView, request: (FrameHeader, Seq<u8>), now_ms: u64)
    requires
        request.0.message_type != MessageType::SessionClose,
    ensures
        dispatch_outcome(v, request, now_ms).0.session == v.session,
        dispatch_outcome(v, request, now_ms).0.cache == v.cache,
        dispatch_outcome(v, request, now_ms).0.completed_close == v.completed_close,
{
}

/// A session that has gone 3000 ms or more without a valid frame is gone:
/// any request but a handshake is refused with `InvalidSession`, and the
/// device holds no session afterwards.
pub proof fn lemma_expired_session_is_refused(v: SimDeviceView, request: (FrameHeader, Seq<u8>), now_ms: u64)
    requires
        session_expired(v.session, now_ms),
        request.0.message_type != MessageType::Hello,
    ensures
        device_handle(v, request, now_ms) == (
            after_expiry(v, now_ms),
            error_only(request.0, ErrorCode::InvalidSession),
        ),
        after_expiry(v, now_ms).session is None,
        after_expiry(v, now_ms).parameters == v.parameters,
{
}

/// A request that does not name the open session (and is neither a
/// handshake nor the exact retry of an acknowledged close) is refused with
/// `InvalidSession` and changes nothing beyond the expiry of a stale
/// session; in particular no parameter changes.
pub proof fn lemma_foreign_session_is_refused(v: SimDeviceView, request: (FrameHeader, Seq<u8>), now_ms: u64)
    requires
        request.0.message_type != MessageType::Hello,
        !(request.0.message_type == MessageType::SessionClose && close_replay(after_expiry(v, now_ms), request) is Some),
        session_id_of(after_expiry(v, now_ms)) != Some(request.0.session_id),
    ensures
        device_handle(v, request, now_ms) == (
            after_expiry(v, now_ms),
            error_only(request.0, ErrorCode::InvalidSession),
        ),
        device_handle(v, request, now_ms).0.parameters == v.parameters,
{
}

/// A request naming a session that is still live (less than 3000 ms since
/// its last valid frame) and fitting its payload limit is accepted: unless it
/// closes the session, the session stays open and its last valid frame is
/// now.
pub proof fn lemma_live_session_is_refreshed(v: SimDeviceView, request: (FrameHeader, Seq<u8>), now_ms: u64)
    requires
        device_wf(v),
        v.session matches Some(s) && s.id == request.0.session_id && request.1.len() <= s.max_payload,
        !session_expired(v.session, now_ms),
        request.0.message_type != MessageType::Hello,
        request.0.message_type != MessageType::SessionClose,
    ensures
        device_handle(v, request, now_ms).0.session == Some(
            SessionState { last_valid_frame_ms: now_ms, ..v.session->Some_0 },
        ),
{
    let s = v.session->Some_0;
    let v1 = SimDeviceView { session: Some(SessionState { last_valid_frame_ms: now_ms, ..s }), ..v };
    lemma_dispatch_keeps_session(v1, request, now_ms);
}

/// The exact retry of a request that asks for acknowledgement, within 3000
/// ms of the first, is answered with the first answer, and changes nothing
/// but the session's last valid frame: a retried write is applied once.
pub proof fn lemma_acknowledged_retry_replays(
    v: SimDeviceView,
    request: (FrameHeader, Seq<u8>),
    first_ms: u64,
    retry_ms: u64,
)
    requires
        device_wf(v),
        v.session matches Some(s) && s.id == request.0.session_id && request.1.len() <= s.max_payload,
        !session_expired(v.session, first_ms),
        request.0.message_type != MessageType::Hello,
        request.0.message_type != MessageType::SessionClose,
        ack_required(request.0),
        device_handle(v, request, first_ms).1.len() == 1,
        first_ms <= retry_ms < first_ms + 3000,
    ensures
        ({
            let (v1, first) = device_handle(v, request, first_ms);
            let (v2, second) = device_handle(v1, request, retry_ms);
            &&& second == first
            &&& v2 == SimDeviceView {
                session: Some(SessionState { last_valid_frame_ms: retry_ms, ..v1.session->Some_0 }),
                ..v1
            }
        }),
{
    let s = v.session->Some_0;
    let h = request.0;
    let key = request_key(h);
    let v0 = after_expiry(v, first_ms);
    let va = SimDeviceView { session: Some(SessionState { last_valid_frame_ms: first_ms, ..s }), ..v0 };
    lemma_dispatch_keeps_session(va, request, first_ms);
    let (v1, first) = device_handle(v, request, first_ms);
    if cache_find(va.cache, key) is None {
        let (vd, replies) = dispatch_outcome(va, request, first_ms);
        let limit = s.max_payload as int;
        let replies = if crate::sim::device::exceeds_limit(replies, limit) {
            error_only(h, ErrorCode::InternalError)
        } else {
            replies
        };
        lemma_store_then_find(vd.cache, key, replies[0].1);
    }
    assert(cache_find(v1.cache, key) is Some);
    assert(v1.session == Some(SessionState { last_valid_frame_ms: first_ms, ..s }));
}

/// The exact retry of an acknowledged handshake, within 3000 ms of one that
/// opened a session, gets the same answer and does not open another
/// session: the session id and the id counter stay as the first left them.
pub proof fn lemma_acknowledged_hello_replays(
    v: SimDeviceView,
    request: (FrameHeader, Seq<u8>),
    first_ms: u64,
    retry_ms: u64,
)
    requires
        request.0.message_type == MessageType::Hello,
        ack_required(request.0),
        device_handle(v, request, first_ms).1.len() == 1,
        device_handle(v, request, first_ms).1[0].1.0.message_type == MessageType::HelloAck,
        first_ms <= retry_ms < first_ms + 3000,
    ensures
        ({
            let (v1, first) = device_handle(v, request, first_ms);
            let (v2, second) = device_handle(v1, request, retry_ms);
            &&& second == first
            &&& session_id_of(v2) == session_id_of(v1)
            &&& v2.session_counter == v1.session_counter
            &&& v2.parameters == v1.parameters
        }),
{
}

} // verus!
