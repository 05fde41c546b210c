//! The bridge between the frontend and the core service: completed
//! operations waiting to be picked up, the numbering of operations that the
//! bridge completes itself, and carrying out the user's decision on a close
//! with uncommitted changes.
//!
//! Sending commands to the core, waiting on a clock and reading snapshots
//! are left to the caller, which reports back what came of them.

use vstd::prelude::*;
use crate::desktop::window::{bridge_error, operation_error, BridgeErrorDto, CloseDecision, CloseResolution};

verus! {

/// How many completed operations are kept for pickup; the oldest goes first.
pub const COMPLETION_CAPACITY: usize = 128;

/// The first number of the operations that the bridge completes itself,
/// kept apart from those of the core service.
pub const FIRST_BRIDGE_OPERATION_ID: u64 = 9_223_372_036_854_775_808u64;

/// What the core service reports of a finished operation.
#[derive(Clone, Debug)]
pub struct OperationReport {
    pub operation_id: u64,
    pub succeeded: bool,
    pub message: String,
}

/// A finished operation that failed becomes `operationFailed`, with the
/// core's message and the operation's id; a successful one is passed on.
pub fn require_success(report: OperationReport) -> (r: Result<OperationReport, BridgeErrorDto>)
    ensures
        report.succeeded ==> (r matches Ok(kept) && kept.operation_id == report.operation_id
            && kept.succeeded && kept.message@ == report.message@),
        !report.succeeded ==> (r matches Err(e) && operation_error(
            e,
            "operationFailed"@,
            report.message@,
            report.operation_id,
        )),
{
    if report.succeeded {
        return Ok(report);
    }
    Err(
        BridgeErrorDto {
            code: "operationFailed".to_owned(),
            message: report.message,
            operation_id: Some(report.operation_id),
        },
    )
}

/// The error for a wait on operation `operation_id` that ran out of time.
pub fn operation_timeout(operation_id: u64) -> (e: BridgeErrorDto)
    ensures
        operation_error(e, "operationTimeout"@, "等待核心操作结果超时"@, operation_id),
{
    BridgeErrorDto {
        code: "operationTimeout".to_owned(),
        message: "等待核心操作结果超时".to_owned(),
        operation_id: Some(operation_id),
    }
}

fn actor_closed(operation_id: u64) -> (e: BridgeErrorDto)
    ensures
        operation_error(e, "actorClosed"@, "核心服务已停止，操作没有完成"@, operation_id),
{
    BridgeErrorDto {
        code: "actorClosed".to_owned(),
        message: "核心服务已停止，操作没有完成".to_owned(),
        operation_id: Some(operation_id),
    }
}

/// Whether `i` is the first position in `s` of an entry for `operation_id`.
pub open spec fn first_entry_for<T>(s: Seq<(u64, T)>, operation_id: u64, i: int) -> bool {
    &&& 0 <= i < s.len()
    &&& s[i].0 == operation_id
    &&& forall|j: int| 0 <= j < i ==> s[j].0 != operation_id
}

/// Whether `s` holds an entry for `operation_id`.
pub open spec fn has_entry_for<T>(s: Seq<(u64, T)>, operation_id: u64) -> bool {
    exists|i: int| 0 <= i < s.len() && s[i].0 == operation_id
}

/// `s` after recording `entry`: the oldest entry leaves when `s` is full.
pub open spec fn recorded<T>(s: Seq<(u64, T)>, entry: (u64, T)) -> Seq<(u64, T)> {
    if s.len() >= COMPLETION_CAPACITY {
        s.drop_first().push(entry)
    } else {
        s.push(entry)
    }
}

/// Completed operations waiting for the caller that started them, oldest
/// first, each with its operation id; and whether the core has stopped.
pub struct CompletionStore<T> {
    results: Vec<(u64, T)>,
    closed: bool,
}

impl<T> View for CompletionStore<T> {
    type V = Seq<(u64, T)>;

    closed spec fn view(&self) -> Seq<(u64, T)> {
        self.results@
    }
}

impl<T> CompletionStore<T> {
    /// Whether the core has stopped.
    pub closed spec fn is_closed(&self) -> bool {
        self.closed
    }

    /// At most `COMPLETION_CAPACITY` results are kept.
    pub open spec fn wf(&self) -> bool {
        self@.len() <= COMPLETION_CAPACITY
    }

    /// An empty, open store.
    pub fn new() -> (s: Self)
        ensures
            s.wf(),
            s@ == Seq::<(u64, T)>::empty(),
            !s.is_closed(),
    {
        CompletionStore { results: Vec::new(), closed: false }
    }

    /// Keeps the result of operation `operation_id`, dropping the oldest
    /// result when the store is full.
    pub fn record(&mut self, operation_id: u64, result: T)
        requires
            old(self).wf(),
        ensures
            final(self).wf(),
            final(self)@ == recorded(old(self)@, (operation_id, result)),
            final(self).is_closed() == old(self).is_closed(),
    {
        if self.results.len() >= COMPLETION_CAPACITY {
            self.results.remove(0);
        }
        self.results.push((operation_id, result));
    }

    /// Marks the core as stopped: waits that find nothing end.
    pub fn close(&mut self)
        ensures
            final(self)@ == old(self)@,
            final(self).is_closed(),
    {
        self.closed = true;
    }

    /// Takes the oldest result of operation `operation_id` out of the store.
    pub fn take(&mut self, operation_id: u64) -> (r: Option<T>)
        requires
            old(self).wf(),
        ensures
            final(self).wf(),
            final(self).is_closed() == old(self).is_closed(),
            match r {
                Some(result) => exists|i: int|
                    first_entry_for(old(self)@, operation_id, i) && result == old(self)@[i].1
                        && final(self)@ == old(self)@.remove(i),
                None => !has_entry_for(old(self)@, operation_id) && final(self)@ == old(self)@,
            },
    {
        let mut i: usize = 0;
        while i < self.results.len()
            invariant
                i <= self.results.len(),
                self.results@ == old(self).results@,
                self.closed == old(self).closed,
                old(self).wf(),
                forall|j: int| 0 <= j < i ==> self.results@[j].0 != operation_id,
            decreases self.results.len() - i,
        {
            if self.results[i].0 == operation_id {
                let (_, result) = self.results.remove(i);
                assert(first_entry_for(old(self)@, operation_id, i as int));
                return Some(result);
            }
            i = i + 1;
        }
        None
    }

    /// One look at the store by a caller waiting for operation
    /// `operation_id`: its result if it has come, else `actorClosed` once
    /// the core has stopped, else `operationTimeout` once `deadline_passed`;
    /// `None` means to wait on.
    pub fn poll(&mut self, operation_id: u64, deadline_passed: bool) -> (r: Option<Result<T, BridgeErrorDto>>)
        requires
            old(self).wf(),
        ensures
            final(self).wf(),
            final(self).is_closed() == old(self).is_closed(),
            has_entry_for(old(self)@, operation_id) ==> (r matches Some(Ok(result)) && exists|i: int|
                first_entry_for(old(self)@, operation_id, i) && result == old(self)@[i].1
                    && final(self)@ == old(self)@.remove(i)),
            !has_entry_for(old(self)@, operation_id) ==> final(self)@ == old(self)@ && (if old(self).is_closed() {
                (r matches Some(Err(e)) && operation_error(
                    e,
                    "actorClosed"@,
                    "核心服务已停止，操作没有完成"@,
                    operation_id,
                ))
            } else if deadline_passed {
                (r matches Some(Err(e)) && operation_error(
                    e,
                    "operationTimeout"@,
                    "等待核心操作结果超时"@,
                    operation_id,
                ))
            } else {
                r is None
            }),
    {
        match self.take(operation_id) {
            Some(result) => Some(Ok(result)),
            None => {
                if self.closed {
                    Some(Err(actor_closed(operation_id)))
                } else if deadline_passed {
                    Some(Err(operation_timeout(operation_id)))
                } else {
                    None
                }
            },
        }
    }
}

/// A result recorded for an operation with no result waiting is the one that
/// the next pickup for that operation finds, full store or not.
pub proof fn lemma_recorded_result_is_found<T>(s: Seq<(u64, T)>, operation_id: u64, result: T)
    requires
        s.len() <= COMPLETION_CAPACITY,
        !has_entry_for(s, operation_id),
    ensures
        first_entry_for(
            recorded(s, (operation_id, result)),
            operation_id,
            recorded(s, (operation_id, result)).len() - 1,
        ),
        recorded(s, (operation_id, result)).len() <= COMPLETION_CAPACITY,
{
    let t = recorded(s, (operation_id, result));
    assert forall|j: int| 0 <= j < t.len() - 1 implies t[j].0 != operation_id by {
        if s.len() >= COMPLETION_CAPACITY {
            assert(t[j] == s[j + 1]);
        } else {
            assert(t[j] == s[j]);
        }
    }
}

/// Numbers the operations that the bridge completes itself.
pub struct BridgeOperationIds {
    pub next: u64,
}

impl Default for BridgeOperationIds {
    fn default() -> (ids: BridgeOperationIds)
        ensures
            ids.next == FIRST_BRIDGE_OPERATION_ID,
    {
        BridgeOperationIds { next: FIRST_BRIDGE_OPERATION_ID }
    }
}

impl BridgeOperationIds {
    /// Hands out the next number; the counter wraps around past `u64::MAX`.
    pub fn next_id(&mut self) -> (id: u64)
        ensures
            id == old(self).next,
            final(self).next == (if old(self).next == u64::MAX { 0 } else { (old(self).next + 1) as u64 }),
    {
        let id = self.next;
        self.next = self.next.wrapping_add(1);
        id
    }
}

/// A command that carrying out a close decision sends to the core.
#[derive(Clone, Copy, Debug, PartialEq, Eq, Structural)]
pub enum CloseCommand {
    Disconnect,
    RevertAllPendingChanges,
}

/// What carrying out a close decision asks for next: a command sent to the
/// core, whose report is handed back, or the end.
#[derive(Debug)]
pub enum CloseStep {
    Send(CloseCommand),
    Finished(Result<CloseResolution, BridgeErrorDto>),
}

/// Where carrying out a close decision stands.
#[derive(Clone, Copy, Debug, PartialEq, Eq, Structural)]
pub enum CloseStage {
    Reverting,
    Disconnecting,
    Done,
}

/// The steps of a close decision: cancelling keeps the window open;
/// disconnecting sends `Disconnect`; reverting needs a ready device, sends
/// `RevertAllPendingChanges` and then `Disconnect`. Each command must be
/// accepted and succeed, or the run ends with the failure.
pub struct CloseRun {
    pub stage: CloseStage,
}

/// The error for a revert on a device that is not ready.
pub open spec fn revert_unavailable(e: BridgeErrorDto) -> bool {
    bridge_error(e, "revertUnavailable"@, "设备未就绪，无法安全回退未固化修改"@)
}

impl CloseRun {
    /// Starts carrying out `decision`, `device_ready` telling whether the
    /// device is ready now.
    pub fn start(decision: CloseDecision, device_ready: bool) -> (r: (CloseRun, CloseStep))
        ensures
            match decision {
                CloseDecision::Cancel => r.0.stage == CloseStage::Done && (r.1 matches CloseStep::Finished(
                    Ok(CloseResolution::KeepOpen),
                )),
                CloseDecision::DisconnectKeepUnknown => r.0.stage == CloseStage::Disconnecting
                    && r.1 == CloseStep::Send(CloseCommand::Disconnect),
                CloseDecision::RevertThenClose => if device_ready {
                    r.0.stage == CloseStage::Reverting && r.1 == CloseStep::Send(
                        CloseCommand::RevertAllPendingChanges,
                    )
                } else {
                    r.0.stage == CloseStage::Done && (r.1 matches CloseStep::Finished(Err(e))
                        && revert_unavailable(e))
                },
            },
    {
        match decision {
            CloseDecision::Cancel => (
                CloseRun { stage: CloseStage::Done },
                CloseStep::Finished(Ok(CloseResolution::KeepOpen)),
            ),
            CloseDecision::DisconnectKeepUnknown => (
                CloseRun { stage: CloseStage::Disconnecting },
                CloseStep::Send(CloseCommand::Disconnect),
            ),
            CloseDecision::RevertThenClose => {
                if device_ready {
                    (
                        CloseRun { stage: CloseStage::Reverting },
                        CloseStep::Send(CloseCommand::RevertAllPendingChanges),
                    )
                } else {
                    (
                        CloseRun { stage: CloseStage::Done },
                        CloseStep::Finished(
                            Err(
                                BridgeErrorDto {
                                    code: "revertUnavailable".to_owned(),
                                    message: "设备未就绪，无法安全回退未固化修改".to_owned(),
                                    operation_id: None,
                                },
                            ),
                        ),
                    )
                }
            },
        }
    }

    /// Goes on with what came of the command last sent: a refused command
    /// or a failed operation ends the run with that failure; a revert that
    /// succeeded is followed by `Disconnect`; a disconnect that succeeded
    /// closes the window. A run that is done stays done.
    pub fn on_report(&mut self, sent: Result<OperationReport, BridgeErrorDto>) -> (step: CloseStep)
        requires
            old(self).stage != CloseStage::Done,
        ensures
            match sent {
                Err(e) => final(self).stage == CloseStage::Done && step == CloseStep::Finished(
                    Err::<CloseResolution, BridgeErrorDto>(e),
                ),
                Ok(report) => if !report.succeeded {
                    final(self).stage == CloseStage::Done && (step matches CloseStep::Finished(Err(e))
                        && operation_error(e, "operationFailed"@, report.message@, report.operation_id))
                } else if old(self).stage == CloseStage::Reverting {
                    final(self).stage == CloseStage::Disconnecting && step == CloseStep::Send(
                        CloseCommand::Disconnect,
                    )
                } else {
                    final(self).stage == CloseStage::Done && (step matches CloseStep::Finished(
                        Ok(CloseResolution::CloseWindow),
                    ))
                },
            },
    {
        let report = match sent {
            Err(e) => {
                self.stage = CloseStage::Done;
                return CloseStep::Finished(Err(e));
            },
            Ok(report) => report,
        };
        match require_success(report) {
            Err(e) => {
                self.stage = CloseStage::Done;
                CloseStep::Finished(Err(e))
            },
            Ok(_) => {
                if self.stage == CloseStage::Reverting {
                    self.stage = CloseStage::Disconnecting;
                    CloseStep::Send(CloseCommand::Disconnect)
                } else {
                    self.stage = CloseStage::Done;
                    CloseStep::Finished(Ok(CloseResolution::CloseWindow))
                }
            },
        }
    }
}

} // verus!
