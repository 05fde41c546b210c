//! How telemetry samples that the transport dropped reach the host: the
//! count noted by `note_telemetry_drop` goes out with the next batch, on top
//! of the samples that batch skips itself, and then starts again from zero.

use vstd::prelude::*;

use crate::sim::device::{tick_plan_outcome, SimDeviceView};

verus! {

/// `v` with `k` more dropped samples noted, as `note_telemetry_drop`
/// leaves it (the count saturates).
pub open spec fn with_noted_drops(v: SimDeviceView, k: u16) -> SimDeviceView {
    SimDeviceView {
        pending_dropped_telemetry_samples: v.pending_dropped_telemetry_samples.saturating_add(k),
        ..v
    }
}

/// The samples a tick at `now_ms` skips itself: what its batch reports as
/// dropped when nothing was noted before it.
pub open spec fn own_skips(v: SimDeviceView, now_ms: u64) -> u16 {
    tick_plan_outcome(SimDeviceView { pending_dropped_telemetry_samples: 0, ..v }, now_ms).1->Some_0.dropped_samples
}

/// Noted drops go out once. Whether a tick makes a batch does not depend on
/// the drops noted before it. When it makes one, the batch reports the
/// noted count plus the samples the tick skips itself, and nothing stays
/// noted: the batch of a later tick, with no new drops noted, reports only
/// its own skips (none when it emits every due sample).
pub proof fn lemma_noted_drops_go_out_once(v: SimDeviceView, k: u16, now_ms: u64, later_ms: u64)
    ensures
        ({
            let noted = with_noted_drops(v, k);
            let clean = SimDeviceView { pending_dropped_telemetry_samples: 0, ..v };
            let (after, plan) = tick_plan_outcome(noted, now_ms);
            &&& plan is Some <==> tick_plan_outcome(clean, now_ms).1 is Some
            &&& plan matches Some(p) ==> {
                &&& p.dropped_samples == noted.pending_dropped_telemetry_samples.saturating_add(own_skips(v, now_ms))
                &&& after.pending_dropped_telemetry_samples == 0
                &&& tick_plan_outcome(after, later_ms).1 matches Some(q) ==> q.dropped_samples == own_skips(
                    after,
                    later_ms,
                )
            }
        }),
{
    let noted = with_noted_drops(v, k);
    let (after, plan) = tick_plan_outcome(noted, now_ms);
    if plan is Some {
        assert(SimDeviceView { pending_dropped_telemetry_samples: 0, ..after } == after);
    }
}

} // verus!
