//! Closing the main window while parameter changes are not yet committed:
//! at most one close request is open at a time, it is numbered, and it is
//! resolved once.

use vstd::prelude::*;

verus! {

/// What the user chose for a close with uncommitted changes.
#[derive(Clone, Copy, Debug, PartialEq, Eq, Structural)]
pub enum CloseDecision {
    Cancel,
    DisconnectKeepUnknown,
    RevertThenClose,
}

/// Whether a close may go ahead, or which open request holds it back.
#[derive(Clone, Copy, Debug, PartialEq, Eq, Structural)]
pub enum CloseRequestOutcome {
    Allow,
    Prevented { request_id: u64, dirty_count: usize, can_revert: bool },
}

/// How a resolved close ends.
#[derive(Clone, Copy, Debug, PartialEq, Eq, Structural)]
pub enum CloseResolution {
    KeepOpen,
    CloseWindow,
}

/// The close request shown to the user.
#[derive(Clone, Copy, Debug, PartialEq, Eq, Structural)]
pub struct WindowCloseRequest {
    pub request_id: u64,
    pub dirty_count: usize,
    pub can_revert: bool,
}

/// A bridge failure: a stable code, a message for the user, and the core
/// operation it concerns, where there is one.
#[derive(Clone, Debug)]
pub struct BridgeErrorDto {
    pub code: String,
    pub message: String,
    pub operation_id: Option<u64>,
}

/// An error with the given code and message, about no operation.
pub open spec fn bridge_error(e: BridgeErrorDto, code: Seq<char>, message: Seq<char>) -> bool {
    e.code@ == code && e.message@ == message && e.operation_id is None
}

/// An error with the given code and message, about operation `operation_id`.
pub open spec fn operation_error(e: BridgeErrorDto, code: Seq<char>, message: Seq<char>, operation_id: u64) -> bool {
    e.code@ == code && e.message@ == message && e.operation_id == Some(operation_id)
}

/// The open close request: its number, the changes it protects, whether a
/// revert is possible and whether a resolution is under way.
#[derive(Clone, Copy, Debug, PartialEq, Eq, Structural)]
pub struct ActiveCloseRequest {
    pub request_id: u64,
    pub dirty_count: usize,
    pub can_revert: bool,
    pub resolving: bool,
}

/// Numbers close requests and holds the open one.
pub struct WindowCloseCoordinator {
    pub next_request_id: u64,
    pub active: Option<ActiveCloseRequest>,
}

impl Default for WindowCloseCoordinator {
    fn default() -> (c: WindowCloseCoordinator)
        ensures
            c.next_request_id == 0,
            c.active is None,
    {
        WindowCloseCoordinator { next_request_id: 0, active: None }
    }
}

/// The outcome that holds a close back for `active`.
pub open spec fn prevented_by(active: ActiveCloseRequest) -> CloseRequestOutcome {
    CloseRequestOutcome::Prevented {
        request_id: active.request_id,
        dirty_count: active.dirty_count,
        can_revert: active.can_revert,
    }
}

/// The outcome that holds a close back for `active`; see `prevented_by`.
pub fn outcome(active: ActiveCloseRequest) -> (o: CloseRequestOutcome)
    ensures
        o == prevented_by(active),
{
    CloseRequestOutcome::Prevented {
        request_id: active.request_id,
        dirty_count: active.dirty_count,
        can_revert: active.can_revert,
    }
}

fn stale_close_request() -> (e: BridgeErrorDto)
    ensures
        bridge_error(e, "staleCloseRequest"@, "关闭请求已失效"@),
{
    BridgeErrorDto { code: "staleCloseRequest".to_owned(), message: "关闭请求已失效".to_owned(), operation_id: None }
}

impl WindowCloseCoordinator {
    /// Asks to close with `dirty_count` uncommitted changes, a revert being
    /// possible when `device_ready`. With nothing uncommitted the close is
    /// allowed; an open request holds it back again; otherwise a request
    /// numbered one past the last opens (the `bool` says so), unless the
    /// numbers are used up (`closeRequestExhausted`, nothing changes).
    pub fn request(&mut self, dirty_count: usize, device_ready: bool) -> (r: Result<
        (CloseRequestOutcome, bool),
        BridgeErrorDto,
    >)
        ensures
            dirty_count == 0 ==> r == Ok::<(CloseRequestOutcome, bool), BridgeErrorDto>(
                (CloseRequestOutcome::Allow, false),
            ) && *final(self) == *old(self),
            dirty_count != 0 && old(self).active is Some ==> r == Ok::<
                (CloseRequestOutcome, bool),
                BridgeErrorDto,
            >((prevented_by(old(self).active->Some_0), false)) && *final(self) == *old(self),
            dirty_count != 0 && old(self).active is None && old(self).next_request_id == u64::MAX ==> (r matches Err(
                e,
            ) && bridge_error(e, "closeRequestExhausted"@, "窗口关闭请求序号已耗尽"@)) && *final(self)
                == *old(self),
            dirty_count != 0 && old(self).active is None && old(self).next_request_id < u64::MAX ==> {
                let a = ActiveCloseRequest {
                    request_id: (old(self).next_request_id + 1) as u64,
                    dirty_count,
                    can_revert: device_ready,
                    resolving: false,
                };
                &&& r == Ok::<(CloseRequestOutcome, bool), BridgeErrorDto>((prevented_by(a), true))
                &&& final(self).next_request_id == old(self).next_request_id + 1
                &&& final(self).active == Some(a)
            },
    {
        if dirty_count == 0 {
            return Ok((CloseRequestOutcome::Allow, false));
        }
        if let Some(active) = self.active {
            return Ok((outcome(active), false));
        }
        if self.next_request_id == u64::MAX {
            return Err(
                BridgeErrorDto {
                    code: "closeRequestExhausted".to_owned(),
                    message: "窗口关闭请求序号已耗尽".to_owned(),
                    operation_id: None,
                },
            );
        }
        self.next_request_id = self.next_request_id + 1;
        let active = ActiveCloseRequest {
            request_id: self.next_request_id,
            dirty_count,
            can_revert: device_ready,
            resolving: false,
        };
        self.active = Some(active);
        Ok((outcome(active), true))
    }

    /// Starts resolving request `request_id`: it must be the open one and
    /// not already being resolved (`staleCloseRequest`, nothing changes).
    pub fn begin_resolution(&mut self, request_id: u64) -> (r: Result<(), BridgeErrorDto>)
        ensures
            final(self).next_request_id == old(self).next_request_id,
            match old(self).active {
                Some(a) if a.request_id == request_id && !a.resolving => r is Ok && final(self).active
                    == Some(ActiveCloseRequest { resolving: true, ..a }),
                _ => (r matches Err(e) && bridge_error(e, "staleCloseRequest"@, "关闭请求已失效"@))
                    && final(self).active == old(self).active,
            },
    {
        match self.active {
            Some(a) => {
                if a.request_id != request_id || a.resolving {
                    return Err(stale_close_request());
                }
                self.active = Some(ActiveCloseRequest { resolving: true, ..a });
                Ok(())
            },
            None => Err(stale_close_request()),
        }
    }

    /// Ends request `request_id`, which must be the open one
    /// (`staleCloseRequest`, nothing changes).
    pub fn complete(&mut self, request_id: u64) -> (r: Result<(), BridgeErrorDto>)
        ensures
            final(self).next_request_id == old(self).next_request_id,
            match old(self).active {
                Some(a) if a.request_id == request_id => r is Ok && final(self).active is None,
                _ => (r matches Err(e) && bridge_error(e, "staleCloseRequest"@, "关闭请求已失效"@))
                    && final(self).active == old(self).active,
            },
    {
        match self.active {
            Some(a) => {
                if a.request_id != request_id {
                    return Err(stale_close_request());
                }
                self.active = None;
                Ok(())
            },
            None => Err(stale_close_request()),
        }
    }

    /// After a failed resolution of request `request_id`, lets it be
    /// resolved again; any other request is left alone.
    pub fn retryable_failure(&mut self, request_id: u64)
        ensures
            final(self).next_request_id == old(self).next_request_id,
            match old(self).active {
                Some(a) if a.request_id == request_id => final(self).active == Some(
                    ActiveCloseRequest { resolving: false, ..a },
                ),
                _ => final(self).active == old(self).active,
            },
    {
        if let Some(a) = self.active {
            if a.request_id == request_id {
                self.active = Some(ActiveCloseRequest { resolving: false, ..a });
            }
        }
    }

    /// After a newly opened request `request_id` was handed to the frontend
    /// event stream: a failed publish is passed on and the request stays
    /// open; a publish that found no frontend channel drops the request and
    /// reports `frontendChannelUnavailable`; a delivered one is fine.
    pub fn settle_announcement(
        &mut self,
        request_id: u64,
        published: Result<Option<u64>, BridgeErrorDto>,
    ) -> (r: Result<(), BridgeErrorDto>)
        ensures
            final(self).next_request_id == old(self).next_request_id,
            match published {
                Err(e) => r == Err::<(), BridgeErrorDto>(e) && final(self).active == old(self).active,
                Ok(None) => (r matches Err(e) && bridge_error(
                    e,
                    "frontendChannelUnavailable"@,
                    "前端事件通道尚未打开，无法确认未固化修改"@,
                )) && match old(self).active {
                    Some(a) if a.request_id == request_id => final(self).active is None,
                    _ => final(self).active == old(self).active,
                },
                Ok(Some(_)) => r is Ok && final(self).active == old(self).active,
            },
    {
        match published {
            Err(e) => Err(e),
            Ok(None) => {
                self.discard(request_id);
                Err(
                    BridgeErrorDto {
                        code: "frontendChannelUnavailable".to_owned(),
                        message: "前端事件通道尚未打开，无法确认未固化修改".to_owned(),
                        operation_id: None,
                    },
                )
            },
            Ok(Some(_)) => Ok(()),
        }
    }

    /// Ends the resolution of request `request_id` with what carrying out
    /// the decision gave: on success the request is completed (which can
    /// still fail as `staleCloseRequest`), on failure it may be resolved
    /// again and the failure is passed on.
    pub fn settle_resolution(
        &mut self,
        request_id: u64,
        result: Result<CloseResolution, BridgeErrorDto>,
    ) -> (r: Result<CloseResolution, BridgeErrorDto>)
        ensures
            final(self).next_request_id == old(self).next_request_id,
            match result {
                Ok(resolution) => match old(self).active {
                    Some(a) if a.request_id == request_id => r == Ok::<CloseResolution, BridgeErrorDto>(
                        resolution,
                    ) && final(self).active is None,
                    _ => (r matches Err(e) && bridge_error(e, "staleCloseRequest"@, "关闭请求已失效"@))
                        && final(self).active == old(self).active,
                },
                Err(e) => r == Err::<CloseResolution, BridgeErrorDto>(e) && match old(self).active {
                    Some(a) if a.request_id == request_id => final(self).active == Some(
                        ActiveCloseRequest { resolving: false, ..a },
                    ),
                    _ => final(self).active == old(self).active,
                },
            },
    {
        match result {
            Ok(resolution) => {
                self.complete(request_id)?;
                Ok(resolution)
            },
            Err(e) => {
                self.retryable_failure(request_id);
                Err(e)
            },
        }
    }

    /// Drops request `request_id` if it is the open one.
    pub fn discard(&mut self, request_id: u64)
        ensures
            final(self).next_request_id == old(self).next_request_id,
            match old(self).active {
                Some(a) if a.request_id == request_id => final(self).active is None,
                _ => final(self).active == old(self).active,
            },
    {
        if let Some(a) = self.active {
            if a.request_id == request_id {
                self.active = None;
            }
        }
    }
}

} // verus!
