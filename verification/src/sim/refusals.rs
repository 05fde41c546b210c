//! What the simulated device refuses, stated from the request and the
//! manifest: an enumerated value that names no option, a commit with a
//! stale revision, and a subscription to a channel the device lacks. Each
//! refusal leaves the device as it was.

use vstd::prelude::*;

use crate::descriptor::ParamConstraintsView;
use crate::frame::{FrameHeader, MessageType};
use crate::messages::ErrorCode;
use crate::parameter::{
    param_commit_from_wire, param_write_from_wire, value_type, ParamCommitEntry, ParamValue,
};
use crate::sim::device::{
    commit_values, error_only, lemma_parameter_index_first, lemma_parameter_index_none, lemma_parameter_index_range, param_commit_outcome, param_write_outcome,
    parameter_index, subscribe_outcome, ParameterView, SimDeviceView,
};
use crate::sim::persistence::write_accepted;
use crate::telemetry::subscription_from_wire;

verus! {

/// Whether some option of `options` has the value `x`.
pub open spec fn some_option_has(options: Seq<crate::descriptor::EnumOptionView>, x: i32) -> bool {
    exists|k: int| 0 <= k < options.len() && (#[trigger] options[k]).value == x
}

/// An enumerated parameter only ever takes a value one of its options
/// names. A write that decodes, names a writable enumerated parameter and
/// carries an enumerated value that no option names is refused with
/// `OutOfRange` and changes nothing; and a write that is accepted for an
/// enumerated parameter carries a value one of its options names.
pub proof fn lemma_enum_write_names_an_option(v: SimDeviceView, w: (FrameHeader, Seq<u8>))
    ensures
        ({
            let write = param_write_from_wire(w.1)->Ok_0;
            let i = parameter_index(v.parameters, write.param_id)->Some_0;
            let p = v.parameters[i];
            (param_write_from_wire(w.1) is Ok && parameter_index(v.parameters, write.param_id) is Some
                && p.descriptor.param_type == value_type(write.value) && p.descriptor.flags & 1u8 != 0
                && p.descriptor.constraints is Enum && write.value is Enum && !some_option_has(
                p.descriptor.constraints->options,
                write.value->Enum_0,
            )) ==> param_write_outcome(v, w) == (v, error_only(w.0, ErrorCode::OutOfRange))
        }),
        ({
            let write = param_write_from_wire(w.1)->Ok_0;
            let p = v.parameters[parameter_index(v.parameters, write.param_id)->Some_0];
            (write_accepted(v, w) && p.descriptor.constraints is Enum) ==> (write.value is Enum
                && some_option_has(p.descriptor.constraints->options, write.value->Enum_0))
        }),
{
}

/// Whether entry `e` names a parameter of `ps` that is persistent and at the
/// entry's revision.
pub open spec fn entry_current(ps: Seq<ParameterView>, e: ParamCommitEntry) -> bool {
    match parameter_index(ps, e.param_id) {
        Some(i) => ps[i].descriptor.flags & 2u8 != 0 && ps[i].revision == e.revision,
        None => false,
    }
}

/// Whether entry `e` names a persistent parameter of `ps`, at any revision.
pub open spec fn entry_persistent(ps: Seq<ParameterView>, e: ParamCommitEntry) -> bool {
    match parameter_index(ps, e.param_id) {
        Some(i) => ps[i].descriptor.flags & 2u8 != 0,
        None => false,
    }
}

proof fn lemma_commit_values_entries(ps: Seq<ParameterView>, entries: Seq<ParamCommitEntry>)
    ensures
        commit_values(ps, entries) is Ok <==> forall|j: int|
            0 <= j < entries.len() ==> entry_current(ps, #[trigger] entries[j]),
        (forall|j: int| 0 <= j < entries.len() ==> entry_persistent(ps, #[trigger] entries[j]))
            && commit_values(ps, entries) is Err ==> commit_values(ps, entries) == Err::<
            Seq<(u32, ParamValue)>,
            ErrorCode,
        >(ErrorCode::RevisionConflict),
    decreases entries.len(),
{
    if entries.len() > 0 {
        let init = entries.drop_last();
        lemma_commit_values_entries(ps, init);
        assert forall|j: int| 0 <= j < init.len() implies init[j] == entries[j] by {}
        assert(entries.last() == entries[entries.len() - 1]);
        if forall|j: int| 0 <= j < entries.len() ==> entry_persistent(ps, #[trigger] entries[j]) {
            assert forall|j: int| 0 <= j < init.len() implies entry_persistent(ps, #[trigger] init[j]) by {
                assert(init[j] == entries[j]);
            }
            assert(entry_persistent(ps, entries[entries.len() - 1]));
        }
        if forall|j: int| 0 <= j < entries.len() ==> entry_current(ps, #[trigger] entries[j]) {
            assert forall|j: int| 0 <= j < init.len() implies entry_current(ps, #[trigger] init[j]) by {
                assert(init[j] == entries[j]);
            }
            assert(entry_current(ps, entries[entries.len() - 1]));
        }
        if commit_values(ps, entries) is Ok {
            assert forall|j: int| 0 <= j < entries.len() implies entry_current(ps, #[trigger] entries[j]) by {
                if j < init.len() {
                    assert(init[j] == entries[j]);
                }
            }
        }
    }
}

/// A commit takes effect only with every entry current. A commit that
/// decodes and has an entry naming a parameter at another revision than the
/// entry's (or naming no persistent parameter) is refused with a single
/// error and changes nothing; when every entry names a persistent
/// parameter, that error is `RevisionConflict`. A commit whose reply is its
/// acknowledgement names only persistent parameters at their current
/// revisions.
pub proof fn lemma_stale_commit_refused(v: SimDeviceView, c: (FrameHeader, Seq<u8>), j: int)
    requires
        param_commit_from_wire(c.1) is Ok,
        0 <= j < param_commit_from_wire(c.1)->Ok_0.entries.len(),
        !entry_current(v.parameters, param_commit_from_wire(c.1)->Ok_0.entries[j]),
    ensures
        param_commit_outcome(v, c).0 == v,
        param_commit_outcome(v, c).1.len() == 1,
        param_commit_outcome(v, c).1[0].1.0.message_type == MessageType::Error,
        (forall|k: int|
            0 <= k < param_commit_from_wire(c.1)->Ok_0.entries.len() ==> entry_persistent(
                v.parameters,
                #[trigger] param_commit_from_wire(c.1)->Ok_0.entries[k],
            )) ==> param_commit_outcome(v, c).1 == error_only(c.0, ErrorCode::RevisionConflict),
{
    let entries = param_commit_from_wire(c.1)->Ok_0.entries;
    lemma_commit_values_entries(v.parameters, entries);
}

/// Whether the manifest of `v` describes a telemetry channel numbered `id`.
pub open spec fn manifest_has_channel(v: SimDeviceView, id: u32) -> bool {
    exists|i: int| 0 <= i < v.manifest.telemetry.len() && (#[trigger] v.manifest.telemetry[i]).channel_id == id
}

/// A subscription names only channels of the manifest. A subscribe request
/// that decodes and names a channel the manifest does not describe is
/// answered with `InvalidParamId` and changes nothing; a request that is
/// acknowledged leaves a subscription naming only described channels.
pub proof fn lemma_subscription_names_manifest_channels(v: SimDeviceView, request: (FrameHeader, Seq<u8>), now_ms: u64)
    ensures
        ({
            let sub = subscription_from_wire(request.1)->Ok_0;
            (subscription_from_wire(request.1) is Ok && exists|k: int|
                0 <= k < sub.channel_ids.len() && !manifest_has_channel(v, #[trigger] sub.channel_ids[k]))
                ==> subscribe_outcome(v, request, now_ms) == (v, error_only(request.0, ErrorCode::InvalidParamId))
        }),
        subscribe_outcome(v, request, now_ms).1[0].1.0.message_type == MessageType::TelemetrySubscribeAck ==> ({
            let sub = subscribe_outcome(v, request, now_ms).0.subscription->Some_0;
            &&& subscribe_outcome(v, request, now_ms).0.subscription is Some
            &&& forall|k: int| 0 <= k < sub.channel_ids.len() ==> manifest_has_channel(v, #[trigger] sub.channel_ids[k])
        }),
{
}


/// Whether the device answered `request` with a single error and stayed as
/// it was.
pub open spec fn refused(before: SimDeviceView, outcome: (SimDeviceView, Seq<crate::sim::device::Reply>)) -> bool {
    &&& outcome.0 == before
    &&& outcome.1.len() == 1
    &&& outcome.1[0].1.0.message_type == MessageType::Error
}

/// Whether an integer value lies outside integer bounds of its own type.
pub open spec fn integer_out_of_bounds(value: ParamValue, c: ParamConstraintsView) -> bool {
    match (value, c) {
        (ParamValue::U32(x), ParamConstraintsView::Numeric { min: ParamValue::U32(lo), max: ParamValue::U32(hi), .. }) =>
            x < lo || x > hi,
        (ParamValue::I32(x), ParamConstraintsView::Numeric { min: ParamValue::I32(lo), max: ParamValue::I32(hi), .. }) =>
            x < lo || x > hi,
        _ => false,
    }
}

/// A write that decodes changes nothing, and gets a single error, when no
/// parameter has its id, when the first parameter with its id has another
/// type, is not writable, holds another revision than the one the write
/// expects, or has integer bounds the value lies outside. Whichever of
/// these holds, the parameters stay as they were.
pub proof fn lemma_bad_writes_change_nothing(v: SimDeviceView, w: (FrameHeader, Seq<u8>))
    requires
        param_write_from_wire(w.1) is Ok,
    ensures
        ({
            let write = param_write_from_wire(w.1)->Ok_0;
            let ps = v.parameters;
            &&& (forall|i: int| 0 <= i < ps.len() ==> (#[trigger] ps[i]).descriptor.param_id != write.param_id)
                ==> refused(v, param_write_outcome(v, w))
            &&& forall|i: int|
                0 <= i < ps.len() && (#[trigger] ps[i]).descriptor.param_id == write.param_id && (forall|k: int|
                    0 <= k < i ==> ps[k].descriptor.param_id != write.param_id) && (ps[i].descriptor.param_type
                    != value_type(write.value) || ps[i].descriptor.flags & 1u8 == 0 || ps[i].revision
                    != write.expected_revision || integer_out_of_bounds(write.value, ps[i].descriptor.constraints))
                    ==> refused(v, param_write_outcome(v, w))
        }),
{
    let write = param_write_from_wire(w.1)->Ok_0;
    let ps = v.parameters;
    if forall|i: int| 0 <= i < ps.len() ==> (#[trigger] ps[i]).descriptor.param_id != write.param_id {
        lemma_parameter_index_none(ps, write.param_id);
    }
    assert forall|i: int|
        0 <= i < ps.len() && (#[trigger] ps[i]).descriptor.param_id == write.param_id && (forall|k: int|
            0 <= k < i ==> ps[k].descriptor.param_id != write.param_id) && (ps[i].descriptor.param_type
            != value_type(write.value) || ps[i].descriptor.flags & 1u8 == 0 || ps[i].revision
            != write.expected_revision || integer_out_of_bounds(write.value, ps[i].descriptor.constraints))
        implies refused(v, param_write_outcome(v, w)) by {
        lemma_parameter_index_first(ps, write.param_id, i);
    }
}

} // verus!
