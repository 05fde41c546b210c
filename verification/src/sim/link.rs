//! What the simulator's network link does with the device's answers before
//! they are sent: queue them by class, and count the telemetry samples of
//! any batch the full telemetry queue drops.

use vstd::prelude::*;

use crate::frame::{Frame, FrameHeader, MessageType};
use crate::sim::device::{replies_view, Reply, SimDevice, SimDeviceView};
use crate::sim::queue::{tx_push, tx_queue_wf, PriorityTxQueue, PushOutcome, QueuedFrame, TxQueueView};

verus! {

/// The sample count a frame carries: the fifth payload byte of a telemetry
/// batch (zero when there is none), and zero for any other frame.
pub open spec fn sample_count_of(f: (FrameHeader, Seq<u8>)) -> u16 {
    if f.0.message_type == MessageType::TelemetryData && f.1.len() > 4 {
        f.1[4] as u16
    } else {
        0
    }
}

/// The sample count a frame carries; see `sample_count_of`.
pub fn telemetry_sample_count(frame: &Frame) -> (n: u16)
    ensures
        n == sample_count_of(frame@),
{
    if frame.header.message_type == MessageType::TelemetryData && frame.payload.len() > 4 {
        frame.payload[4] as u16
    } else {
        0
    }
}

/// Queuing answers in order: each is pushed into its class's queue; a
/// dropped telemetry batch adds its samples to the device's pending drop
/// count; the first answer refused for backpressure stops the rest, and
/// the result says whether all went in.
pub open spec fn enqueue_outcome(q: TxQueueView, pending: u16, rs: Seq<Reply>) -> (TxQueueView, u16, bool)
    decreases rs.len(),
{
    if rs.len() == 0 {
        (q, pending, true)
    } else {
        let (q1, outcome) = tx_push(q, rs[0].0, rs[0].1);
        match outcome {
            PushOutcome::Backpressure => (q1, pending, false),
            PushOutcome::DroppedTelemetry => enqueue_outcome(
                q1,
                pending.saturating_add(sample_count_of(rs[0].1)),
                rs.drop_first(),
            ),
            _ => enqueue_outcome(q1, pending, rs.drop_first()),
        }
    }
}

/// Queues the device's answers; see `enqueue_outcome`. `Err` means an
/// answer met backpressure.
pub fn enqueue_responses(queue: &mut PriorityTxQueue, device: &mut SimDevice, responses: Vec<QueuedFrame>) -> (r:
    Result<(), ()>)
    requires
        tx_queue_wf(old(queue)@),
    ensures
        tx_queue_wf(final(queue)@),
        ({
            let (q, pending, ok) = enqueue_outcome(
                old(queue)@,
                old(device)@.pending_dropped_telemetry_samples,
                replies_view(responses@),
            );
            &&& final(queue)@ == q
            &&& final(device)@ == (SimDeviceView { pending_dropped_telemetry_samples: pending, ..old(device)@ })
            &&& (r is Ok <==> ok)
        }),
{
    let ghost rs = replies_view(responses@);
    let ghost q0 = queue@;
    let ghost d0 = device@;
    let n = responses.len();
    let mut i: usize = 0;
    proof {
        assert(rs.subrange(0, n as int) =~= rs);
    }
    while i < n
        invariant
            n == responses@.len(),
            q0 == old(queue)@,
            d0 == old(device)@,
            rs == replies_view(responses@),
            rs.len() == n,
            i <= n,
            tx_queue_wf(queue@),
            device@ == (SimDeviceView { pending_dropped_telemetry_samples: device@.pending_dropped_telemetry_samples, ..d0 }),
            enqueue_outcome(q0, d0.pending_dropped_telemetry_samples, rs) == enqueue_outcome(
                queue@,
                device@.pending_dropped_telemetry_samples,
                rs.subrange(i as int, n as int),
            ),
        decreases n - i,
    {
        let ghost rest = rs.subrange(i as int, n as int);
        let priority = responses[i].priority;
        let frame = responses[i].frame.duplicate();
        let sample_count = telemetry_sample_count(&frame);
        proof {
            assert(rest[0] == (priority, frame@));
            assert(rest.drop_first() =~= rs.subrange(i + 1, n as int));
        }
        let ghost qb = queue@;
        let ghost pb = device@.pending_dropped_telemetry_samples;
        match queue.push(priority, frame) {
            PushOutcome::Backpressure => {
                proof {
                    assert(enqueue_outcome(qb, pb, rest) == (queue@, pb, false));
                    assert(enqueue_outcome(q0, d0.pending_dropped_telemetry_samples, rs) == (queue@, pb, false));
                    assert(device@ == (SimDeviceView { pending_dropped_telemetry_samples: pb, ..d0 }));
                }
                return Err(());
            },
            PushOutcome::DroppedTelemetry => {
                device.note_telemetry_drop(sample_count);
            },
            PushOutcome::Enqueued => {},
            PushOutcome::DroppedLog => {},
        }
        i = i + 1;
    }
    proof {
        assert(rs.subrange(i as int, n as int) =~= Seq::<Reply>::empty());
    }
    Ok(())
}

} // verus!
