//! A transmit queue with four priority classes, each with its own capacity
//! and its own policy when full.

use vstd::prelude::*;
use std::collections::VecDeque;

use crate::frame::{Frame, FrameHeader};

verus! {

/// The class of an outgoing frame, most urgent first.
#[derive(Clone, Copy, Debug, PartialEq, Eq, Structural)]
pub enum Priority {
    Safety,
    Reliable,
    Telemetry,
    Log,
}

/// The position of a class, most urgent first.
pub open spec fn priority_index(p: Priority) -> int {
    match p {
        Priority::Safety => 0,
        Priority::Reliable => 1,
        Priority::Telemetry => 2,
        Priority::Log => 3,
    }
}

/// What became of a pushed frame.
#[derive(Clone, Copy, Debug, PartialEq, Eq, Structural)]
pub enum PushOutcome {
    Enqueued,
    DroppedTelemetry,
    DroppedLog,
    Backpressure,
}

/// A frame with the class it is sent in.
#[derive(Clone, Debug, PartialEq, Eq)]
pub struct QueuedFrame {
    pub priority: Priority,
    pub frame: Frame,
}

/// The frames of a queue, by their views.
pub open spec fn frames_view(q: Seq<Frame>) -> Seq<(FrameHeader, Seq<u8>)> {
    q.map_values(|f: Frame| f@)
}

/// The four queues, most urgent first, their capacities, and the counts of
/// frames dropped from the telemetry and log classes.
pub struct TxQueueView {
    pub queues: Seq<Seq<(FrameHeader, Seq<u8>)>>,
    pub capacities: Seq<usize>,
    pub dropped_telemetry: u64,
    pub dropped_logs: u64,
}

/// Every queue holds at most its capacity.
pub open spec fn tx_queue_wf(v: TxQueueView) -> bool {
    &&& v.queues.len() == 4
    &&& v.capacities.len() == 4
    &&& forall|i: int| 0 <= i < 4 ==> #[trigger] v.queues[i].len() <= v.capacities[i]
}

/// Pushing frame `f` of class `p`: a queue with room takes it. A full
/// safety or reliable queue refuses it (`Backpressure`); a full telemetry
/// queue drops its oldest frame to take it (or drops it if its capacity is
/// zero) and counts one drop; a full log queue drops it and counts one drop.
/// Counts saturate.
pub open spec fn tx_push(v: TxQueueView, p: Priority, f: (FrameHeader, Seq<u8>)) -> (
    TxQueueView,
    PushOutcome,
) {
    let i = priority_index(p);
    let q = v.queues[i];
    if q.len() < v.capacities[i] {
        (TxQueueView { queues: v.queues.update(i, q.push(f)), ..v }, PushOutcome::Enqueued)
    } else {
        match p {
            Priority::Telemetry => (
                TxQueueView {
                    queues: if v.capacities[i] != 0 {
                        v.queues.update(i, q.drop_first().push(f))
                    } else {
                        v.queues
                    },
                    dropped_telemetry: v.dropped_telemetry.saturating_add(1),
                    ..v
                },
                PushOutcome::DroppedTelemetry,
            ),
            Priority::Log => (
                TxQueueView { dropped_logs: v.dropped_logs.saturating_add(1), ..v },
                PushOutcome::DroppedLog,
            ),
            _ => (v, PushOutcome::Backpressure),
        }
    }
}

/// The index of the most urgent queue that holds a frame; 4 when all are
/// empty.
pub open spec fn first_nonempty(queues: Seq<Seq<(FrameHeader, Seq<u8>)>>) -> int {
    if queues[0].len() > 0 {
        0
    } else if queues[1].len() > 0 {
        1
    } else if queues[2].len() > 0 {
        2
    } else if queues[3].len() > 0 {
        3
    } else {
        4
    }
}

/// Sends frames most urgent class first and, within a class, oldest first.
pub struct PriorityTxQueue {
    safety: VecDeque<Frame>,
    reliable: VecDeque<Frame>,
    telemetry: VecDeque<Frame>,
    log: VecDeque<Frame>,
    capacities: [usize; 4],
    dropped_telemetry: u64,
    dropped_logs: u64,
}

impl View for PriorityTxQueue {
    type V = TxQueueView;

    closed spec fn view(&self) -> TxQueueView {
        TxQueueView {
            queues: seq![
                frames_view(self.safety@),
                frames_view(self.reliable@),
                frames_view(self.telemetry@),
                frames_view(self.log@),
            ],
            capacities: self.capacities@,
            dropped_telemetry: self.dropped_telemetry,
            dropped_logs: self.dropped_logs,
        }
    }
}

impl PriorityTxQueue {
    /// Empty queues with the given capacities, most urgent class first.
    pub fn with_capacities(capacities: [usize; 4]) -> (q: PriorityTxQueue)
        ensures
            q@.queues == seq![
                Seq::<(FrameHeader, Seq<u8>)>::empty(),
                Seq::<(FrameHeader, Seq<u8>)>::empty(),
                Seq::<(FrameHeader, Seq<u8>)>::empty(),
                Seq::<(FrameHeader, Seq<u8>)>::empty(),
            ],
            q@.capacities == capacities@,
            q@.dropped_telemetry == 0,
            q@.dropped_logs == 0,
            tx_queue_wf(q@),
    {
        let q = PriorityTxQueue {
            safety: VecDeque::with_capacity(capacities[0]),
            reliable: VecDeque::with_capacity(capacities[1]),
            telemetry: VecDeque::with_capacity(capacities[2]),
            log: VecDeque::with_capacity(capacities[3]),
            capacities,
            dropped_telemetry: 0,
            dropped_logs: 0,
        };
        proof {
            assert(frames_view(q.safety@) =~= Seq::<(FrameHeader, Seq<u8>)>::empty());
            assert(frames_view(q.reliable@) =~= Seq::<(FrameHeader, Seq<u8>)>::empty());
            assert(frames_view(q.telemetry@) =~= Seq::<(FrameHeader, Seq<u8>)>::empty());
            assert(frames_view(q.log@) =~= Seq::<(FrameHeader, Seq<u8>)>::empty());
        }
        q
    }

    /// Queues `frame` in the class `priority`; see `tx_push`.
    pub fn push(&mut self, priority: Priority, frame: Frame) -> (outcome: PushOutcome)
        requires
            tx_queue_wf(old(self)@),
        ensures
            (final(self)@, outcome) == tx_push(old(self)@, priority, frame@),
            tx_queue_wf(final(self)@),
    {
        let ghost f = frame@;
        match priority {
            Priority::Safety => {
                if self.safety.len() < self.capacities[0] {
                    self.safety.push_back(frame);
                    proof {
                        assert(frames_view(self.safety@) =~= frames_view(old(self).safety@).push(f));
                        assert(self@.queues =~= old(self)@.queues.update(0, old(self)@.queues[0].push(f)));
                    }
                    PushOutcome::Enqueued
                } else {
                    PushOutcome::Backpressure
                }
            },
            Priority::Reliable => {
                if self.reliable.len() < self.capacities[1] {
                    self.reliable.push_back(frame);
                    proof {
                        assert(frames_view(self.reliable@) =~= frames_view(old(self).reliable@).push(f));
                        assert(self@.queues =~= old(self)@.queues.update(1, old(self)@.queues[1].push(f)));
                    }
                    PushOutcome::Enqueued
                } else {
                    PushOutcome::Backpressure
                }
            },
            Priority::Telemetry => {
                if self.telemetry.len() < self.capacities[2] {
                    self.telemetry.push_back(frame);
                    proof {
                        assert(frames_view(self.telemetry@) =~= frames_view(old(self).telemetry@).push(f));
                        assert(self@.queues =~= old(self)@.queues.update(2, old(self)@.queues[2].push(f)));
                    }
                    PushOutcome::Enqueued
                } else {
                    self.dropped_telemetry = self.dropped_telemetry.saturating_add(1);
                    if self.capacities[2] != 0 {
                        let _ = self.telemetry.pop_front();
                        self.telemetry.push_back(frame);
                        proof {
                            assert(frames_view(self.telemetry@) =~= frames_view(
                                old(self).telemetry@,
                            ).drop_first().push(f));
                            assert(self@.queues =~= old(self)@.queues.update(
                                2,
                                old(self)@.queues[2].drop_first().push(f),
                            ));
                        }
                    }
                    PushOutcome::DroppedTelemetry
                }
            },
            Priority::Log => {
                if self.log.len() < self.capacities[3] {
                    self.log.push_back(frame);
                    proof {
                        assert(frames_view(self.log@) =~= frames_view(old(self).log@).push(f));
                        assert(self@.queues =~= old(self)@.queues.update(3, old(self)@.queues[3].push(f)));
                    }
                    PushOutcome::Enqueued
                } else {
                    self.dropped_logs = self.dropped_logs.saturating_add(1);
                    PushOutcome::DroppedLog
                }
            },
        }
    }

    /// Takes the oldest frame of the most urgent class that has one; `None`
    /// when every queue is empty.
    pub fn pop(&mut self) -> (r: Option<Frame>)
        requires
            tx_queue_wf(old(self)@),
        ensures
            tx_queue_wf(final(self)@),
            final(self)@.capacities == old(self)@.capacities,
            final(self)@.dropped_telemetry == old(self)@.dropped_telemetry,
            final(self)@.dropped_logs == old(self)@.dropped_logs,
            first_nonempty(old(self)@.queues) == 4 ==> r is None && final(self)@.queues == old(
                self,
            )@.queues,
            first_nonempty(old(self)@.queues) < 4 ==> (r matches Some(f) && f@ == old(
                self,
            )@.queues[first_nonempty(old(self)@.queues)][0] && final(self)@.queues == old(
                self,
            )@.queues.update(
                first_nonempty(old(self)@.queues),
                old(self)@.queues[first_nonempty(old(self)@.queues)].drop_first(),
            )),
    {
        if self.safety.len() > 0 {
            let r = self.safety.pop_front();
            proof {
                assert(frames_view(self.safety@) =~= frames_view(old(self).safety@).drop_first());
                assert(self@.queues =~= old(self)@.queues.update(0, old(self)@.queues[0].drop_first()));
            }
            r
        } else if self.reliable.len() > 0 {
            let r = self.reliable.pop_front();
            proof {
                assert(frames_view(self.reliable@) =~= frames_view(old(self).reliable@).drop_first());
                assert(self@.queues =~= old(self)@.queues.update(1, old(self)@.queues[1].drop_first()));
            }
            r
        } else if self.telemetry.len() > 0 {
            let r = self.telemetry.pop_front();
            proof {
                assert(frames_view(self.telemetry@) =~= frames_view(old(self).telemetry@).drop_first());
                assert(self@.queues =~= old(self)@.queues.update(2, old(self)@.queues[2].drop_first()));
            }
            r
        } else if self.log.len() > 0 {
            let r = self.log.pop_front();
            proof {
                assert(frames_view(self.log@) =~= frames_view(old(self).log@).drop_first());
                assert(self@.queues =~= old(self)@.queues.update(3, old(self)@.queues[3].drop_first()));
            }
            r
        } else {
            None
        }
    }

    /// How many telemetry frames were dropped.
    pub fn dropped_telemetry(&self) -> (n: u64)
        ensures
            n == self@.dropped_telemetry,
    {
        self.dropped_telemetry
    }

    /// How many log frames were dropped.
    pub fn dropped_logs(&self) -> (n: u64)
        ensures
            n == self@.dropped_logs,
    {
        self.dropped_logs
    }
}

impl Default for PriorityTxQueue {
    fn default() -> (q: PriorityTxQueue)
        ensures
            q@.capacities == seq![8usize, 32, 16, 16],
            q@.dropped_telemetry == 0,
            q@.dropped_logs == 0,
            tx_queue_wf(q@),
            forall|i: int| 0 <= i < 4 ==> #[trigger] q@.queues[i].len() == 0,
    {
        let q = PriorityTxQueue::with_capacities([8, 32, 16, 16]);
        proof {
            assert(q@.capacities =~= seq![8usize, 32, 16, 16]);
        }
        q
    }
}


/// Only the lossy classes lose frames: a push never touches the queue of
/// another class, and a safety or reliable frame is either added at the
/// back of its queue or refused with `Backpressure`, every frame already
/// queued staying where it was.
pub proof fn lemma_push_never_evicts_urgent_frames(v: TxQueueView, p: Priority, f: (FrameHeader, Seq<u8>))
    requires
        tx_queue_wf(v),
    ensures
        forall|j: int|
            0 <= j < 4 && j != priority_index(p) ==> #[trigger] tx_push(v, p, f).0.queues[j] == v.queues[j],
        (p == Priority::Safety || p == Priority::Reliable) ==> ({
            let (after, outcome) = tx_push(v, p, f);
            let i = priority_index(p);
            ||| outcome == PushOutcome::Enqueued && after.queues[i] == v.queues[i].push(f)
            ||| outcome == PushOutcome::Backpressure && after == v
        }),
{
}

} // verus!
