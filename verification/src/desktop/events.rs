//! Numbering of the events that the bridge forwards to the frontend.
//!
//! Every event that reaches the frontend carries an index one above the
//! previous one, whichever source published it. While no frontend channel is
//! open nothing is numbered, and a send that fails uses up no index. The
//! channel itself and the events' payloads live with the caller: an event is
//! published by asking for its index, handing the event to the channel, and
//! reporting how the send went.

use vstd::prelude::*;
use crate::desktop::window::{bridge_error, BridgeErrorDto};

verus! {

/// The index state of the frontend event stream.
pub struct FrontendEventSequencer {
    /// The index of the last event that reached the frontend (0 before any).
    pub last_event_index: u64,
    /// Whether a frontend channel is open.
    pub sink_open: bool,
}

impl Default for FrontendEventSequencer {
    fn default() -> (s: FrontendEventSequencer)
        ensures
            s.last_event_index == 0,
            !s.sink_open,
    {
        FrontendEventSequencer { last_event_index: 0, sink_open: false }
    }
}

/// What publishing one event gives while the sequencer is in `s`, when the
/// channel's send reports `sent_ok` (and, on failure, `send_error`):
/// nothing while no channel is open, an exhausted index space at `u64::MAX`,
/// the failure of the send, or the new event's index.
pub open spec fn publish_outcome(
    s: FrontendEventSequencer,
    sent_ok: bool,
    send_error: Seq<char>,
    r: Result<Option<u64>, BridgeErrorDto>,
) -> bool {
    if !s.sink_open {
        r == Ok::<Option<u64>, BridgeErrorDto>(None)
    } else if s.last_event_index == u64::MAX {
        r is Err && bridge_error(r->Err_0, "eventIndexExhausted"@, "前端事件序号已耗尽"@)
    } else if !sent_ok {
        r is Err && bridge_error(r->Err_0, "channelSendFailed"@, send_error)
    } else {
        r == Ok::<Option<u64>, BridgeErrorDto>(Some((s.last_event_index + 1) as u64))
    }
}

fn index_exhausted() -> (e: BridgeErrorDto)
    ensures
        bridge_error(e, "eventIndexExhausted"@, "前端事件序号已耗尽"@),
{
    BridgeErrorDto {
        code: "eventIndexExhausted".to_owned(),
        message: "前端事件序号已耗尽".to_owned(),
        operation_id: None,
    }
}

fn send_failed(message: String) -> (e: BridgeErrorDto)
    ensures
        bridge_error(e, "channelSendFailed"@, message@),
{
    BridgeErrorDto { code: "channelSendFailed".to_owned(), message, operation_id: None }
}

impl FrontendEventSequencer {
    /// Opens (or replaces) the frontend channel; the numbering goes on.
    pub fn replace_sink(&mut self) -> (r: Result<(), BridgeErrorDto>)
        ensures
            r is Ok,
            final(self).sink_open,
            final(self).last_event_index == old(self).last_event_index,
    {
        self.sink_open = true;
        Ok(())
    }

    /// Closes the frontend channel; the numbering is kept for the next one.
    pub fn close_sink(&mut self)
        ensures
            !final(self).sink_open,
            final(self).last_event_index == old(self).last_event_index,
    {
        self.sink_open = false;
    }

    /// The index that the next event is to carry: `None` while no channel is
    /// open, an error once every index has been used.
    pub fn next_event_index(&self) -> (r: Result<Option<u64>, BridgeErrorDto>)
        ensures
            publish_outcome(*self, true, Seq::empty(), r),
    {
        if !self.sink_open {
            Ok(None)
        } else if self.last_event_index == u64::MAX {
            Err(index_exhausted())
        } else {
            Ok(Some(self.last_event_index + 1))
        }
    }

    /// Records how the send of the event numbered by `next_event_index` went.
    /// Only a delivered event uses up its index.
    pub fn finish_publish(&mut self, sent: Result<(), String>) -> (r: Result<Option<u64>, BridgeErrorDto>)
        ensures
            publish_outcome(
                *old(self),
                sent is Ok,
                match sent { Ok(_) => Seq::empty(), Err(m) => m@ },
                r,
            ),
            final(self).sink_open == old(self).sink_open,
            final(self).last_event_index == (match r {
                Ok(Some(index)) => index,
                _ => old(self).last_event_index,
            }),
    {
        if !self.sink_open {
            return Ok(None);
        }
        if self.last_event_index == u64::MAX {
            return Err(index_exhausted());
        }
        match sent {
            Ok(()) => {
                let event_index = self.last_event_index + 1;
                self.last_event_index = event_index;
                Ok(Some(event_index))
            },
            Err(message) => Err(send_failed(message)),
        }
    }
}

/// Delivered events are numbered without gaps: whatever was published
/// before, the next delivered event carries the index one above the last
/// delivered one, and a refused or undelivered event leaves the numbering
/// where it was.
pub proof fn lemma_delivered_events_are_consecutive(
    s: FrontendEventSequencer,
    sent_ok: bool,
    send_error: Seq<char>,
    r: Result<Option<u64>, BridgeErrorDto>,
)
    requires
        publish_outcome(s, sent_ok, send_error, r),
    ensures
        r matches Ok(Some(index)) ==> index == s.last_event_index + 1,
        r is Ok && r->Ok_0 is Some <==> s.sink_open && s.last_event_index < u64::MAX && sent_ok,
{
}

} // verus!
