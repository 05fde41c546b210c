//! What holds of the simulated device's parameters across requests: a read
//! reports the last write that passed its checks, a commit that passes its
//! checks persists the RAM value of every parameter it names and changes
//! no RAM value, a refused commit changes nothing, and a client going away
//! takes no parameter with it.

use vstd::prelude::*;

use crate::frame::{FrameHeader, MessageType};
use crate::parameter::{
    param_commit_from_wire, param_read_from_wire, param_state_wire, param_write_from_wire, spec_canonical_crc32,
    value_type, ParamCommitEntry, ParamState,
};
use crate::sim::device::{
    opened_session, tick_plan_outcome, without_session, commit_values, lemma_parameter_index_range, param_commit_outcome, param_read_replies, param_write_outcome,
    parameter_index, persist_entries, reply, ParameterView, SimDeviceView, TelemetryPlanView,
};
use crate::sim::queue::Priority;
use crate::sim::support::within_constraints;

verus! {

/// Whether write request `w` passes every check of `param_write_outcome` on
/// a device in state `v`: it decodes, names a parameter of the value's type
/// that is writable, meets its constraints and expects its revision.
pub open spec fn write_accepted(v: SimDeviceView, w: (FrameHeader, Seq<u8>)) -> bool {
    match param_write_from_wire(w.1) {
        Err(_) => false,
        Ok(write) => match parameter_index(v.parameters, write.param_id) {
            None => false,
            Some(i) => {
                let p = v.parameters[i];
                &&& p.descriptor.param_type == value_type(write.value)
                &&& p.descriptor.flags & 1u8 != 0
                &&& within_constraints(write.value, p.descriptor.constraints)
                &&& p.revision == write.expected_revision
            },
        },
    }
}

/// Whether commit request `c` passes every check of `param_commit_outcome`
/// on a device in state `v`: it decodes, its entries pass `commit_values`,
/// its CRC is theirs, and storage is not set to fail.
pub open spec fn commit_accepted(v: SimDeviceView, c: (FrameHeader, Seq<u8>)) -> bool {
    match param_commit_from_wire(c.1) {
        Err(_) => false,
        Ok(commit) => match commit_values(v.parameters, commit.entries) {
            Err(_) => false,
            Ok(values) => match spec_canonical_crc32(values) {
                Err(_) => false,
                Ok(crc) => commit.canonical_crc32 == crc && v.commit_failure is None,
            },
        },
    }
}

/// Whether two parameter lists name the same parameters in the same places.
pub open spec fn same_ids(ps: Seq<ParameterView>, qs: Seq<ParameterView>) -> bool {
    &&& ps.len() == qs.len()
    &&& forall|k: int| 0 <= k < ps.len() ==> #[trigger] ps[k].descriptor.param_id == qs[k].descriptor.param_id
}

proof fn lemma_parameter_index_same_ids(ps: Seq<ParameterView>, qs: Seq<ParameterView>, param_id: u32)
    requires
        same_ids(ps, qs),
    ensures
        parameter_index(ps, param_id) == parameter_index(qs, param_id),
    decreases ps.len(),
{
    if ps.len() > 0 {
        let (a, b) = (ps.drop_last(), qs.drop_last());
        assert forall|k: int| 0 <= k < a.len() implies #[trigger] a[k].descriptor.param_id
            == b[k].descriptor.param_id by {
            assert(a[k] == ps[k] && b[k] == qs[k]);
        }
        lemma_parameter_index_same_ids(a, b, param_id);
        assert(ps.last() == ps[ps.len() - 1] && qs.last() == qs[qs.len() - 1]);
    }
}

/// Read after write: once a write passes its checks, reading the parameter
/// it names reports the written value at the revision one above the old one
/// (wrapping), with the persisted value untouched; reading any other
/// parameter reports what it reported before.
pub proof fn lemma_read_after_write(v: SimDeviceView, w: (FrameHeader, Seq<u8>), r: (FrameHeader, Seq<u8>))
    requires
        write_accepted(v, w),
    ensures
        ({
            let write = param_write_from_wire(w.1)->Ok_0;
            let i = parameter_index(v.parameters, write.param_id)->Some_0;
            let after = param_write_outcome(v, w).0;
            match param_read_from_wire(r.1) {
                Ok(read) => if read.param_id == write.param_id {
                    param_read_replies(after, r) == seq![
                        reply(
                            Priority::Reliable,
                            MessageType::ParamValue,
                            0x02u8,
                            r.0.sequence,
                            r.0.session_id,
                            param_state_wire(
                                ParamState {
                                    param_id: write.param_id,
                                    revision: v.parameters[i].revision.wrapping_add(1),
                                    value: write.value,
                                    persisted_value: v.parameters[i].persisted_value,
                                },
                            ),
                        ),
                    ]
                } else {
                    param_read_replies(after, r) == param_read_replies(v, r)
                },
                Err(_) => param_read_replies(after, r) == param_read_replies(v, r),
            }
        }),
{
    let write = param_write_from_wire(w.1)->Ok_0;
    lemma_parameter_index_range(v.parameters, write.param_id);
    let i = parameter_index(v.parameters, write.param_id)->Some_0;
    let after = param_write_outcome(v, w).0;
    assert(same_ids(v.parameters, after.parameters));
    if let Ok(read) = param_read_from_wire(r.1) {
        lemma_parameter_index_same_ids(v.parameters, after.parameters, read.param_id);
        lemma_parameter_index_range(v.parameters, read.param_id);
    }
}

/// What a commit leaves of each parameter: descriptor, RAM value and
/// revision as they were; the persisted value replaced by the RAM value
/// where an entry names the parameter, kept elsewhere.
pub open spec fn persisted_after(ps: Seq<ParameterView>, entries: Seq<ParamCommitEntry>, qs: Seq<ParameterView>) -> bool {
    &&& ps.len() == qs.len()
    &&& forall|k: int|
        0 <= k < ps.len() ==> {
            &&& (#[trigger] qs[k]).descriptor == ps[k].descriptor
            &&& qs[k].value == ps[k].value
            &&& qs[k].revision == ps[k].revision
            &&& qs[k].persisted_value == if named_by(ps, entries, k) {
                Some(ps[k].value)
            } else {
                ps[k].persisted_value
            }
        }
}

/// Whether some entry names the parameter at `k` (as its first holder of
/// that id).
pub open spec fn named_by(ps: Seq<ParameterView>, entries: Seq<ParamCommitEntry>, k: int) -> bool {
    exists|j: int| 0 <= j < entries.len() && parameter_index(ps, (#[trigger] entries[j]).param_id) == Some(k)
}

proof fn lemma_persist_entries(ps: Seq<ParameterView>, entries: Seq<ParamCommitEntry>)
    ensures
        persisted_after(ps, entries, persist_entries(ps, entries)),
    decreases entries.len(),
{
    if entries.len() > 0 {
        let init = entries.drop_last();
        lemma_persist_entries(ps, init);
        let prev = persist_entries(ps, init);
        let id = entries.last().param_id;
        assert(same_ids(ps, prev));
        lemma_parameter_index_same_ids(ps, prev, id);
        lemma_parameter_index_range(ps, id);
        let q = persist_entries(ps, entries);
        assert forall|k: int| 0 <= k < ps.len() implies named_by(ps, entries, k) == (named_by(ps, init, k)
            || parameter_index(ps, id) == Some(k)) by {
            if named_by(ps, init, k) {
                let j = choose|j: int| 0 <= j < init.len() && parameter_index(ps, (#[trigger] init[j]).param_id) == Some(k);
                assert(entries[j] == init[j]);
            }
            if parameter_index(ps, id) == Some(k) {
                assert(entries[entries.len() - 1] == entries.last());
            }
            if named_by(ps, entries, k) {
                let j = choose|j: int| 0 <= j < entries.len() && parameter_index(ps, (#[trigger] entries[j]).param_id) == Some(k);
                if j < init.len() {
                    assert(entries[j] == init[j]);
                }
            }
        }
        assert(persisted_after(ps, entries, q));
    }
}

/// Commit law: a commit that passes its checks persists, for every
/// parameter one of its entries names, the RAM value the parameter holds,
/// and leaves every descriptor, RAM value and revision as it was.
pub proof fn lemma_commit_persists_ram_values(v: SimDeviceView, c: (FrameHeader, Seq<u8>))
    requires
        commit_accepted(v, c),
    ensures
        persisted_after(v.parameters, param_commit_from_wire(c.1)->Ok_0.entries, param_commit_outcome(v, c).0.parameters),
        param_commit_outcome(v, c).0.storage_generation == v.storage_generation.wrapping_add(1),
{
    lemma_persist_entries(v.parameters, param_commit_from_wire(c.1)->Ok_0.entries);
}

/// A commit that does not pass its checks changes nothing: no parameter is
/// persisted, and the storage generation stays.
pub proof fn lemma_refused_commit_changes_nothing(v: SimDeviceView, c: (FrameHeader, Seq<u8>))
    requires
        !commit_accepted(v, c),
    ensures
        param_commit_outcome(v, c).0 == v,
{
}


/// A client going away takes nothing stored with it: after `disconnect`
/// every parameter (RAM value, revision, persisted value), the storage
/// generation and the session counter are as they were; no session is
/// open; and a tick at any time plans no batch and leaves the device as it
/// is, so every later tick does the same until a new subscription. Once a
/// new session is opened (`opened_session`), a read reports what it
/// reported before the client went away.
pub proof fn lemma_disconnect_keeps_parameters(
    v: SimDeviceView,
    r: (FrameHeader, Seq<u8>),
    now_ms: u64,
    reopened: SimDeviceView,
    nonce: u32,
    open_ms: u64,
    max_payload: u16,
    session_id: u32,
)
    ensures
        ({
            let after = SimDeviceView { completed_close: None, ..without_session(v) };
            &&& after.parameters == v.parameters
            &&& after.storage_generation == v.storage_generation
            &&& after.session_counter == v.session_counter
            &&& after.session is None
            &&& param_read_replies(after, r) == param_read_replies(v, r)
            &&& tick_plan_outcome(after, now_ms) == (after, None::<TelemetryPlanView>)
            &&& opened_session(after, reopened, nonce, open_ms, max_payload, session_id) ==> {
                &&& reopened.parameters == v.parameters
                &&& reopened.storage_generation == v.storage_generation
                &&& param_read_replies(reopened, r) == param_read_replies(v, r)
            }
        }),
{
}

} // verus!
