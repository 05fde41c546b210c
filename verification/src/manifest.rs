//! The device manifest: every parameter and telemetry channel a device
//! offers, in a canonical encoding whose CRC identifies it.

use vstd::prelude::*;
use vstd::utf8::valid_utf8;

use crate::bytes::{from_le16, get_le16, le16, lemma_split_at, lemma_u16_at, push_all, push_le16, u16_at};
use crate::checksum::{crc32_iso_hdlc, spec_crc32};
use crate::descriptor::{
    descriptor_check, descriptor_utf8, lemma_descriptor_wire_len, lemma_param_descriptor_round_trip, descriptor_wire, param_descriptor_from_wire, param_descriptor_to_wire,
    ParamDescriptor, ParamDescriptorView,
};
use crate::error::ProtocolError;
use crate::sorting::{
    keys_distinct, keys_increasing, lemma_keys_distinct_permutation, lemma_sort_by_key_increasing,
    lemma_sort_by_key_permutation, lemma_sort_by_key_sorted,
    sort_by_key, sort_order,
};
use crate::telemetry::{
    telemetry_descriptor_from_wire, telemetry_descriptor_len, telemetry_descriptor_to_wire,
    telemetry_names_fit, telemetry_utf8, lemma_telemetry_descriptor_round_trip, TelemetryDescriptor,
    TelemetryDescriptorView,
};
use crate::transfer::MAX_MANIFEST_LEN;
use crate::wire::{WireDecode, WireEncode};

verus! {

/// The manifest layout this library reads and writes.
pub const MANIFEST_SCHEMA_VERSION: u16 = 1;
/// Most parameters a manifest may describe.
pub const MAX_MANIFEST_PARAMETERS: usize = 64;
/// Most telemetry channels a manifest may describe.
pub const MAX_MANIFEST_TELEMETRY: usize = 16;

/// Everything a device offers: its parameters and telemetry channels.
#[derive(Clone, Debug, PartialEq)]
pub struct DeviceManifest {
    pub schema_version: u16,
    pub parameters: Vec<ParamDescriptor>,
    pub telemetry: Vec<TelemetryDescriptor>,
}

/// A `DeviceManifest` with its descriptors as views.
pub struct DeviceManifestView {
    pub schema_version: u16,
    pub parameters: Seq<ParamDescriptorView>,
    pub telemetry: Seq<TelemetryDescriptorView>,
}

/// The views of a list of parameter descriptors.
pub open spec fn param_views(v: Seq<ParamDescriptor>) -> Seq<ParamDescriptorView> {
    v.map_values(|d: ParamDescriptor| d@)
}

/// The views of a list of telemetry descriptors.
pub open spec fn telemetry_views(v: Seq<TelemetryDescriptor>) -> Seq<TelemetryDescriptorView> {
    v.map_values(|d: TelemetryDescriptor| d@)
}

impl View for DeviceManifest {
    type V = DeviceManifestView;

    open spec fn view(&self) -> DeviceManifestView {
        DeviceManifestView {
            schema_version: self.schema_version,
            parameters: param_views(self.parameters@),
            telemetry: telemetry_views(self.telemetry@),
        }
    }
}

/// Parameters are ordered and told apart by id.
pub open spec fn param_key() -> spec_fn(ParamDescriptorView) -> u32 {
    |d: ParamDescriptorView| d.param_id
}

/// Channels are ordered and told apart by id.
pub open spec fn channel_key() -> spec_fn(TelemetryDescriptorView) -> u32 {
    |d: TelemetryDescriptorView| d.channel_id
}

/// A manifest of the supported schema (else `UnsupportedVersion`) with at
/// most 64 parameters and 16 channels (else `InvalidValue`).
pub open spec fn manifest_shape(v: DeviceManifestView) -> Result<(), ProtocolError> {
    if v.schema_version != MANIFEST_SCHEMA_VERSION {
        Err(ProtocolError::UnsupportedVersion)
    } else if v.parameters.len() > MAX_MANIFEST_PARAMETERS || v.telemetry.len()
        > MAX_MANIFEST_TELEMETRY {
        Err(ProtocolError::InvalidValue)
    } else {
        Ok(())
    }
}

/// The error of the first parameter, in the order given, that is not valid.
pub open spec fn first_param_error(s: Seq<ParamDescriptorView>) -> Option<ProtocolError>
    decreases s.len(),
{
    if s.len() == 0 {
        None
    } else {
        match first_param_error(s.drop_last()) {
            Some(e) => Some(e),
            None => match descriptor_check(s.last()) {
                Err(e) => Some(e),
                Ok(_) => None,
            },
        }
    }
}

/// The error of the first channel, in the order given, that is not valid.
pub open spec fn first_telemetry_error(s: Seq<TelemetryDescriptorView>) -> Option<ProtocolError>
    decreases s.len(),
{
    if s.len() == 0 {
        None
    } else {
        match first_telemetry_error(s.drop_last()) {
            Some(e) => Some(e),
            None => if !telemetry_names_fit(s.last()) {
                Some(ProtocolError::StringTooLong)
            } else {
                None
            },
        }
    }
}

/// Parameter records: each descriptor's length in two bytes, then the
/// descriptor.
pub open spec fn param_records(s: Seq<ParamDescriptorView>) -> Seq<u8>
    decreases s.len(),
{
    if s.len() == 0 {
        Seq::empty()
    } else {
        param_records(s.drop_last()) + le16(descriptor_wire(s.last()).len() as u16)
            + descriptor_wire(s.last())
    }
}

/// Telemetry records: each descriptor's length in two bytes, then the
/// descriptor.
pub open spec fn telemetry_records(s: Seq<TelemetryDescriptorView>) -> Seq<u8>
    decreases s.len(),
{
    if s.len() == 0 {
        Seq::empty()
    } else {
        telemetry_records(s.drop_last()) + le16(
            telemetry_descriptor_to_wire(s.last())->Ok_0.len() as u16,
        ) + telemetry_descriptor_to_wire(s.last())->Ok_0
    }
}

/// The size of a manifest's canonical encoding.
pub open spec fn manifest_len(v: DeviceManifestView) -> nat {
    6 + param_records(v.parameters).len() + telemetry_records(v.telemetry).len()
}

/// The canonical encoding of a manifest, or why it has none: its shape,
/// then the first invalid parameter, then the first invalid channel, then
/// a size over `MAX_MANIFEST_LEN` (`PayloadTooLarge`), then a repeated id
/// (`InvalidValue`). The encoding holds the schema version, the two counts,
/// then the parameter records by increasing id and the telemetry records by
/// increasing id.
pub open spec fn manifest_to_wire(v: DeviceManifestView) -> Result<Seq<u8>, ProtocolError> {
    match manifest_shape(v) {
        Err(e) => Err(e),
        Ok(_) => match first_param_error(v.parameters) {
            Some(e) => Err(e),
            None => match first_telemetry_error(v.telemetry) {
                Some(e) => Err(e),
                None => if manifest_len(v) > MAX_MANIFEST_LEN {
                    Err(ProtocolError::PayloadTooLarge(manifest_len(v) as usize))
                } else if !keys_distinct(v.parameters, param_key()) || !keys_distinct(
                    v.telemetry,
                    channel_key(),
                ) {
                    Err(ProtocolError::InvalidValue)
                } else {
                    Ok(
                        le16(MANIFEST_SCHEMA_VERSION) + le16(v.parameters.len() as u16) + le16(
                            v.telemetry.len() as u16,
                        ) + param_records(sort_by_key(v.parameters, param_key()))
                            + telemetry_records(sort_by_key(v.telemetry, channel_key())),
                    )
                },
            },
        },
    }
}

/// The record at `o`: two length bytes, then that many bytes; a record that
/// runs past the end is `Truncated`.
pub open spec fn record_at(b: Seq<u8>, o: int) -> Result<(Seq<u8>, int), ProtocolError> {
    if o + 2 > b.len() {
        Err(ProtocolError::Truncated)
    } else {
        let n = u16_at(b, o);
        if o + 2 + n > b.len() {
            Err(ProtocolError::Truncated)
        } else {
            Ok((b.subrange(o + 2, o + 2 + n), o + 2 + n))
        }
    }
}

/// Reads `n` parameter records at `o`, front to back.
pub open spec fn rd_param_records(b: Seq<u8>, o: int, n: nat) -> Result<
    (Seq<ParamDescriptorView>, int),
    ProtocolError,
>
    decreases n,
{
    if n == 0 {
        Ok((Seq::empty(), o))
    } else {
        match rd_param_records(b, o, (n - 1) as nat) {
            Err(e) => Err(e),
            Ok((ds, o1)) => match record_at(b, o1) {
                Err(e) => Err(e),
                Ok((rec, o2)) => match param_descriptor_from_wire(rec) {
                    Err(e) => Err(e),
                    Ok(d) => Ok((ds.push(d), o2)),
                },
            },
        }
    }
}

/// Reads `n` telemetry records at `o`, front to back.
pub open spec fn rd_telemetry_records(b: Seq<u8>, o: int, n: nat) -> Result<
    (Seq<TelemetryDescriptorView>, int),
    ProtocolError,
>
    decreases n,
{
    if n == 0 {
        Ok((Seq::empty(), o))
    } else {
        match rd_telemetry_records(b, o, (n - 1) as nat) {
            Err(e) => Err(e),
            Ok((ds, o1)) => match record_at(b, o1) {
                Err(e) => Err(e),
                Ok((rec, o2)) => match telemetry_descriptor_from_wire(rec) {
                    Err(e) => Err(e),
                    Ok(d) => Ok((ds.push(d), o2)),
                },
            },
        }
    }
}

/// A manifest read from bytes: at most `MAX_MANIFEST_LEN` of them (else
/// `PayloadTooLarge`), a six-byte header (else `Truncated`) of the
/// supported schema (else `UnsupportedVersion`) whose counts fit the limits
/// (else `InvalidValue`), the records, nothing after them (else
/// `InvalidLength`), and ids strictly increasing in each list (else
/// `InvalidValue`).
pub open spec fn manifest_from_wire(b: Seq<u8>) -> Result<DeviceManifestView, ProtocolError> {
    if b.len() > MAX_MANIFEST_LEN {
        Err(ProtocolError::PayloadTooLarge(b.len() as usize))
    } else if b.len() < 6 {
        Err(ProtocolError::Truncated)
    } else if u16_at(b, 0) != MANIFEST_SCHEMA_VERSION {
        Err(ProtocolError::UnsupportedVersion)
    } else if u16_at(b, 2) > MAX_MANIFEST_PARAMETERS || u16_at(b, 4) > MAX_MANIFEST_TELEMETRY {
        Err(ProtocolError::InvalidValue)
    } else {
        match rd_param_records(b, 6, u16_at(b, 2) as nat) {
            Err(e) => Err(e),
            Ok((parameters, o1)) => match rd_telemetry_records(b, o1, u16_at(b, 4) as nat) {
                Err(e) => Err(e),
                Ok((telemetry, o2)) => if o2 != b.len() {
                    Err(ProtocolError::InvalidLength)
                } else if !keys_increasing(parameters, param_key()) || !keys_increasing(
                    telemetry,
                    channel_key(),
                ) {
                    Err(ProtocolError::InvalidValue)
                } else {
                    Ok(
                        DeviceManifestView {
                            schema_version: MANIFEST_SCHEMA_VERSION,
                            parameters,
                            telemetry,
                        },
                    )
                },
            },
        }
    }
}

/// Once a prefix of the parameters holds an invalid one, so does the whole
/// list, with the same first error.
proof fn lemma_first_param_error_prefix(s: Seq<ParamDescriptorView>, k: int)
    requires
        0 <= k <= s.len(),
        first_param_error(s.take(k)) is Some,
    ensures
        first_param_error(s) == first_param_error(s.take(k)),
    decreases s.len(),
{
    if k == s.len() {
        assert(s.take(k) =~= s);
    } else {
        assert(s.drop_last().take(k) =~= s.take(k));
        lemma_first_param_error_prefix(s.drop_last(), k);
    }
}

/// Once a prefix of the channels holds an invalid one, so does the whole
/// list, with the same first error.
proof fn lemma_first_telemetry_error_prefix(s: Seq<TelemetryDescriptorView>, k: int)
    requires
        0 <= k <= s.len(),
        first_telemetry_error(s.take(k)) is Some,
    ensures
        first_telemetry_error(s) == first_telemetry_error(s.take(k)),
    decreases s.len(),
{
    if k == s.len() {
        assert(s.take(k) =~= s);
    } else {
        assert(s.drop_last().take(k) =~= s.take(k));
        lemma_first_telemetry_error_prefix(s.drop_last(), k);
    }
}

/// With no invalid parameter, every parameter is valid.
proof fn lemma_no_param_error(s: Seq<ParamDescriptorView>)
    requires
        first_param_error(s) is None,
    ensures
        forall|i: int| 0 <= i < s.len() ==> #[trigger] descriptor_check(s[i]) == Ok::<
            (),
            ProtocolError,
        >(()),
    decreases s.len(),
{
    if s.len() > 0 {
        let t = s.drop_last();
        lemma_no_param_error(t);
        assert forall|i: int| 0 <= i < s.len() implies #[trigger] descriptor_check(s[i]) == Ok::<
            (),
            ProtocolError,
        >(()) by {
            if i < s.len() - 1 {
                assert(s[i] == t[i]);
            }
        }
    }
}

/// With no invalid channel, every channel's names fit.
proof fn lemma_no_telemetry_error(s: Seq<TelemetryDescriptorView>)
    requires
        first_telemetry_error(s) is None,
    ensures
        forall|i: int| 0 <= i < s.len() ==> #[trigger] telemetry_names_fit(s[i]),
    decreases s.len(),
{
    if s.len() > 0 {
        let t = s.drop_last();
        lemma_no_telemetry_error(t);
        assert forall|i: int| 0 <= i < s.len() implies #[trigger] telemetry_names_fit(s[i]) by {
            if i < s.len() - 1 {
                assert(s[i] == t[i]);
            }
        }
    }
}

/// With no invalid parameter, every descriptor of the list is valid.
proof fn lemma_params_valid(v: Seq<ParamDescriptor>)
    requires
        first_param_error(param_views(v)) is None,
    ensures
        forall|q: int| 0 <= q < v.len() ==> #[trigger] descriptor_check(v[q]@) == Ok::<
            (),
            ProtocolError,
        >(()),
{
    let pv = param_views(v);
    lemma_no_param_error(pv);
    assert forall|q: int| 0 <= q < v.len() implies #[trigger] descriptor_check(v[q]@) == Ok::<
        (),
        ProtocolError,
    >(()) by {
        assert(pv[q] == v[q]@);
    }
}

/// With no invalid channel, the names of every descriptor of the list fit.
proof fn lemma_channels_valid(v: Seq<TelemetryDescriptor>)
    requires
        first_telemetry_error(telemetry_views(v)) is None,
    ensures
        forall|q: int| 0 <= q < v.len() ==> #[trigger] telemetry_names_fit(v[q]@),
{
    let tv = telemetry_views(v);
    lemma_no_telemetry_error(tv);
    assert forall|q: int| 0 <= q < v.len() implies #[trigger] telemetry_names_fit(v[q]@) by {
        assert(tv[q] == v[q]@);
    }
}

/// Once reading the first `k` parameter records fails, reading more fails
/// the same way.
proof fn lemma_rd_param_records_prefix(b: Seq<u8>, o: int, k: nat, n: nat)
    requires
        k <= n,
        rd_param_records(b, o, k) is Err,
    ensures
        rd_param_records(b, o, n) == rd_param_records(b, o, k),
    decreases n,
{
    if k < n {
        lemma_rd_param_records_prefix(b, o, k, (n - 1) as nat);
    }
}

/// Once reading the first `k` telemetry records fails, reading more fails
/// the same way.
proof fn lemma_rd_telemetry_records_prefix(b: Seq<u8>, o: int, k: nat, n: nat)
    requires
        k <= n,
        rd_telemetry_records(b, o, k) is Err,
    ensures
        rd_telemetry_records(b, o, n) == rd_telemetry_records(b, o, k),
    decreases n,
{
    if k < n {
        lemma_rd_telemetry_records_prefix(b, o, k, (n - 1) as nat);
    }
}

/// Finds the record at `offset`; see `record_at`.
fn find_record(bytes: &[u8], offset: usize) -> (r: Result<(&[u8], usize), ProtocolError>)
    requires
        offset <= bytes@.len(),
    ensures
        match r {
            Ok((rec, next)) => record_at(bytes@, offset as int) == Ok::<(Seq<u8>, int), ProtocolError>(
                (rec@, next as int),
            ),
            Err(e) => record_at(bytes@, offset as int) == Err::<(Seq<u8>, int), ProtocolError>(e),
        },
{
    if bytes.len() - offset < 2 {
        return Err(ProtocolError::Truncated);
    }
    let length_end = offset + 2;
    let record_len = get_le16(bytes[offset], bytes[offset + 1]) as usize;
    if record_len > bytes.len() - length_end {
        return Err(ProtocolError::Truncated);
    }
    let next_offset = length_end + record_len;
    Ok((vstd::slice::slice_subrange(bytes, length_end, next_offset), next_offset))
}

/// Whether no two items of `ids` are equal.
fn ids_distinct(ids: &Vec<u32>) -> (b: bool)
    ensures
        b == (forall|i: int, j: int| 0 <= i < j < ids@.len() ==> ids@[i] != ids@[j]),
{
    let mut i: usize = 0;
    while i < ids.len()
        invariant
            i <= ids@.len(),
            forall|a: int, c: int| 0 <= a < c < i ==> ids@[a] != ids@[c],
        decreases ids@.len() - i,
    {
        let mut j: usize = 0;
        while j < i
            invariant
                j <= i < ids@.len(),
                forall|a: int| 0 <= a < j ==> ids@[a] != ids@[i as int],
            decreases i - j,
        {
            if ids[j] == ids[i] {
                return false;
            }
            j = j + 1;
        }
        i = i + 1;
    }
    true
}

/// Whether every item of `ids` is larger than the one before it.
fn ids_increasing(ids: &Vec<u32>) -> (b: bool)
    ensures
        b == (forall|i: int, j: int| 0 <= i < j < ids@.len() ==> ids@[i] < ids@[j]),
{
    let mut k: usize = 1;
    if ids.len() == 0 {
        return true;
    }
    while k < ids.len()
        invariant
            1 <= k <= ids@.len(),
            forall|i: int, j: int| 0 <= i < j < k ==> ids@[i] < ids@[j],
        decreases ids@.len() - k,
    {
        if ids[k - 1] >= ids[k] {
            return false;
        }
        k = k + 1;
    }
    true
}

impl DeviceManifest {
    /// Checks the schema version and the list sizes; see `manifest_shape`.
    fn validate_shape(&self) -> (r: Result<(), ProtocolError>)
        ensures
            r == manifest_shape(self@),
    {
        if self.schema_version != MANIFEST_SCHEMA_VERSION {
            return Err(ProtocolError::UnsupportedVersion);
        }
        if self.parameters.len() > MAX_MANIFEST_PARAMETERS || self.telemetry.len()
            > MAX_MANIFEST_TELEMETRY {
            return Err(ProtocolError::InvalidValue);
        }
        Ok(())
    }
}

/// The total size of the parameter records, or the error of the first
/// invalid parameter.
#[verifier::spinoff_prover]
fn param_records_len(parameters: &Vec<ParamDescriptor>) -> (r: Result<usize, ProtocolError>)
    requires
        parameters@.len() <= MAX_MANIFEST_PARAMETERS,
    ensures
        match first_param_error(param_views(parameters@)) {
            Some(e) => r == Err::<usize, ProtocolError>(e),
            None => r == Ok::<usize, ProtocolError>(
                param_records(param_views(parameters@)).len() as usize,
            ) && param_records(param_views(parameters@)).len() <= 1402 * MAX_MANIFEST_PARAMETERS,
        },
{
    let ghost pv = param_views(parameters@);
    let mut total: usize = 0;
    let mut i: usize = 0;
    while i < parameters.len()
        invariant
            i <= parameters@.len() <= MAX_MANIFEST_PARAMETERS,
            pv == param_views(parameters@),
            first_param_error(pv.take(i as int)) is None,
            total == param_records(pv.take(i as int)).len(),
            total <= 1402 * i,
        decreases parameters@.len() - i,
    {
        proof {
            assert(pv.take(i + 1).drop_last() =~= pv.take(i as int));
            assert(pv[i as int] == parameters@[i as int]@);
        }
        let record_len = match parameters[i].encoded_len() {
            Ok(n) => n,
            Err(e) => {
                proof {
                    lemma_first_param_error_prefix(pv, i + 1);
                }
                return Err(e);
            },
        };
        proof {
            crate::descriptor::lemma_descriptor_wire_len(pv[i as int]);
        }
        total = total + 2 + record_len;
        i = i + 1;
    }
    proof {
        assert(pv.take(i as int) =~= pv);
    }
    Ok(total)
}

/// The total size of the telemetry records, or the error of the first
/// invalid channel.
#[verifier::spinoff_prover]
fn telemetry_records_len(telemetry: &Vec<TelemetryDescriptor>) -> (r: Result<usize, ProtocolError>)
    requires
        telemetry@.len() <= MAX_MANIFEST_TELEMETRY,
    ensures
        match first_telemetry_error(telemetry_views(telemetry@)) {
            Some(e) => r == Err::<usize, ProtocolError>(e),
            None => r == Ok::<usize, ProtocolError>(
                telemetry_records(telemetry_views(telemetry@)).len() as usize,
            ) && telemetry_records(telemetry_views(telemetry@)).len() <= 171 * MAX_MANIFEST_TELEMETRY,
        },
{
    let ghost tv = telemetry_views(telemetry@);
    let mut total: usize = 0;
    let mut j: usize = 0;
    while j < telemetry.len()
        invariant
            j <= telemetry@.len() <= MAX_MANIFEST_TELEMETRY,
            tv == telemetry_views(telemetry@),
            first_telemetry_error(tv.take(j as int)) is None,
            total == telemetry_records(tv.take(j as int)).len(),
            total <= 171 * j,
        decreases telemetry@.len() - j,
    {
        proof {
            assert(tv.take(j + 1).drop_last() =~= tv.take(j as int));
            assert(tv[j as int] == telemetry@[j as int]@);
        }
        let record_len = match telemetry[j].encoded_len() {
            Ok(n) => n,
            Err(e) => {
                proof {
                    lemma_first_telemetry_error_prefix(tv, j + 1);
                }
                return Err(e);
            },
        };
        total = total + 2 + record_len;
        j = j + 1;
    }
    proof {
        assert(tv.take(j as int) =~= tv);
    }
    Ok(total)
}

/// Appends the records of valid parameters in the order given by `order`.
fn push_param_records(bytes: &mut Vec<u8>, parameters: &Vec<ParamDescriptor>, order: &Vec<usize>)
    requires
        forall|q: int| 0 <= q < order@.len() ==> order@[q] < parameters@.len(),
        forall|q: int|
            0 <= q < parameters@.len() ==> #[trigger] descriptor_check(parameters@[q]@) == Ok::<
                (),
                ProtocolError,
            >(()),
    ensures
        final(bytes)@ == old(bytes)@ + param_records(
            order@.map_values(|q: usize| parameters@[q as int]@),
        ),
{
    let ghost sp = order@.map_values(|q: usize| parameters@[q as int]@);
    let ghost start = bytes@;
    let mut k: usize = 0;
    while k < order.len()
        invariant
            k <= order@.len(),
            sp == order@.map_values(|q: usize| parameters@[q as int]@),
            forall|q: int| 0 <= q < order@.len() ==> order@[q] < parameters@.len(),
            forall|q: int|
                0 <= q < parameters@.len() ==> #[trigger] descriptor_check(parameters@[q]@) == Ok::<
                    (),
                    ProtocolError,
                >(()),
            bytes@ == start + param_records(sp.take(k as int)),
        decreases order@.len() - k,
    {
        let index = order[k];
        proof {
            assert(sp.take(k + 1).drop_last() =~= sp.take(k as int));
            assert(sp[k as int] == parameters@[index as int]@);
            assert(descriptor_check(parameters@[index as int]@) == Ok::<(), ProtocolError>(()));
        }
        let record = match parameters[index].encode() {
            Ok(b) => b,
            Err(_) => {
                proof {
                    assert(false);
                }
                Vec::new()
            },
        };
        push_le16(bytes, record.len() as u16);
        push_all(bytes, record.as_slice());
        proof {
            assert(bytes@ =~= start + param_records(sp.take(k + 1)));
        }
        k = k + 1;
    }
    proof {
        assert(sp.take(k as int) =~= sp);
    }
}

/// Appends the records of channels whose names fit, in the order given by
/// `order`.
fn push_telemetry_records(bytes: &mut Vec<u8>, telemetry: &Vec<TelemetryDescriptor>, order: &Vec<usize>)
    requires
        forall|q: int| 0 <= q < order@.len() ==> order@[q] < telemetry@.len(),
        forall|q: int| 0 <= q < telemetry@.len() ==> #[trigger] telemetry_names_fit(telemetry@[q]@),
    ensures
        final(bytes)@ == old(bytes)@ + telemetry_records(
            order@.map_values(|q: usize| telemetry@[q as int]@),
        ),
{
    let ghost st = order@.map_values(|q: usize| telemetry@[q as int]@);
    let ghost start = bytes@;
    let mut k: usize = 0;
    while k < order.len()
        invariant
            k <= order@.len(),
            st == order@.map_values(|q: usize| telemetry@[q as int]@),
            forall|q: int| 0 <= q < order@.len() ==> order@[q] < telemetry@.len(),
            forall|q: int| 0 <= q < telemetry@.len() ==> #[trigger] telemetry_names_fit(
                telemetry@[q]@,
            ),
            bytes@ == start + telemetry_records(st.take(k as int)),
        decreases order@.len() - k,
    {
        let index = order[k];
        proof {
            assert(st.take(k + 1).drop_last() =~= st.take(k as int));
            assert(st[k as int] == telemetry@[index as int]@);
            assert(telemetry_names_fit(telemetry@[index as int]@));
        }
        let record = match telemetry[index].encode() {
            Ok(b) => b,
            Err(_) => {
                proof {
                    assert(false);
                }
                Vec::new()
            },
        };
        push_le16(bytes, record.len() as u16);
        push_all(bytes, record.as_slice());
        proof {
            assert(bytes@ =~= start + telemetry_records(st.take(k + 1)));
        }
        k = k + 1;
    }
    proof {
        assert(st.take(k as int) =~= st);
    }
}

/// The ids of a list of parameters.
fn param_ids(parameters: &Vec<ParamDescriptor>) -> (ids: Vec<u32>)
    ensures
        ids@.len() == parameters@.len(),
        forall|q: int| 0 <= q < ids@.len() ==> ids@[q] == parameters@[q].param_id,
        forall|q: int| 0 <= q < ids@.len() ==> ids@[q] == (param_key())(param_views(parameters@)[q]),
        (forall|i: int, j: int| 0 <= i < j < ids@.len() ==> ids@[i] != ids@[j]) == keys_distinct(
            param_views(parameters@),
            param_key(),
        ),
        (forall|i: int, j: int| 0 <= i < j < ids@.len() ==> ids@[i] < ids@[j]) == keys_increasing(
            param_views(parameters@),
            param_key(),
        ),
{
    let mut ids: Vec<u32> = Vec::new();
    let mut k: usize = 0;
    while k < parameters.len()
        invariant
            k <= parameters@.len(),
            ids@.len() == k,
            forall|q: int| 0 <= q < k ==> ids@[q] == parameters@[q].param_id,
        decreases parameters@.len() - k,
    {
        ids.push(parameters[k].param_id);
        k = k + 1;
    }
    proof {
        let pv = param_views(parameters@);
        assert forall|q: int| 0 <= q < ids@.len() implies ids@[q] == (param_key())(pv[q]) by {
            assert(pv[q] == parameters@[q]@);
        }
        if forall|i: int, j: int| 0 <= i < j < ids@.len() ==> ids@[i] != ids@[j] {
            assert forall|i: int, j: int| 0 <= i < j < pv.len() implies (param_key())(pv[i]) != (param_key())(
                pv[j],
            ) by {
                assert(ids@[i] != ids@[j]);
            }
        }
        if keys_distinct(pv, param_key()) {
            assert forall|i: int, j: int| 0 <= i < j < ids@.len() implies ids@[i] != ids@[j] by {
                assert((param_key())(pv[i]) != (param_key())(pv[j]));
            }
        }
        if forall|i: int, j: int| 0 <= i < j < ids@.len() ==> ids@[i] < ids@[j] {
            assert forall|i: int, j: int| 0 <= i < j < pv.len() implies (param_key())(pv[i]) < (param_key())(
                pv[j],
            ) by {
                assert(ids@[i] < ids@[j]);
            }
        }
        if keys_increasing(pv, param_key()) {
            assert forall|i: int, j: int| 0 <= i < j < ids@.len() implies ids@[i] < ids@[j] by {
                assert((param_key())(pv[i]) < (param_key())(pv[j]));
            }
        }
    }
    ids
}

/// The ids of a list of channels.
fn channel_ids(telemetry: &Vec<TelemetryDescriptor>) -> (ids: Vec<u32>)
    ensures
        ids@.len() == telemetry@.len(),
        forall|q: int| 0 <= q < ids@.len() ==> ids@[q] == telemetry@[q].channel_id,
        forall|q: int| 0 <= q < ids@.len() ==> ids@[q] == (channel_key())(telemetry_views(telemetry@)[q]),
        (forall|i: int, j: int| 0 <= i < j < ids@.len() ==> ids@[i] != ids@[j]) == keys_distinct(
            telemetry_views(telemetry@),
            channel_key(),
        ),
        (forall|i: int, j: int| 0 <= i < j < ids@.len() ==> ids@[i] < ids@[j]) == keys_increasing(
            telemetry_views(telemetry@),
            channel_key(),
        ),
{
    let mut ids: Vec<u32> = Vec::new();
    let mut k: usize = 0;
    while k < telemetry.len()
        invariant
            k <= telemetry@.len(),
            ids@.len() == k,
            forall|q: int| 0 <= q < k ==> ids@[q] == telemetry@[q].channel_id,
        decreases telemetry@.len() - k,
    {
        ids.push(telemetry[k].channel_id);
        k = k + 1;
    }
    proof {
        let tv = telemetry_views(telemetry@);
        assert forall|q: int| 0 <= q < ids@.len() implies ids@[q] == (channel_key())(tv[q]) by {
            assert(tv[q] == telemetry@[q]@);
        }
        if forall|i: int, j: int| 0 <= i < j < ids@.len() ==> ids@[i] != ids@[j] {
            assert forall|i: int, j: int| 0 <= i < j < tv.len() implies (channel_key())(tv[i]) != (channel_key())(
                tv[j],
            ) by {
                assert(ids@[i] != ids@[j]);
            }
        }
        if keys_distinct(tv, channel_key()) {
            assert forall|i: int, j: int| 0 <= i < j < ids@.len() implies ids@[i] != ids@[j] by {
                assert((channel_key())(tv[i]) != (channel_key())(tv[j]));
            }
        }
        if forall|i: int, j: int| 0 <= i < j < ids@.len() ==> ids@[i] < ids@[j] {
            assert forall|i: int, j: int| 0 <= i < j < tv.len() implies (channel_key())(tv[i]) < (channel_key())(
                tv[j],
            ) by {
                assert(ids@[i] < ids@[j]);
            }
        }
        if keys_increasing(tv, channel_key()) {
            assert forall|i: int, j: int| 0 <= i < j < ids@.len() implies ids@[i] < ids@[j] by {
                assert((channel_key())(tv[i]) < (channel_key())(tv[j]));
            }
        }
    }
    ids
}

impl DeviceManifest {
    /// The canonical encoding of this manifest; see `manifest_to_wire`.
    #[verifier::spinoff_prover]
    #[verifier::rlimit(50)]
    pub fn encode_canonical(&self) -> (r: Result<Vec<u8>, ProtocolError>)
        ensures
            match r {
                Ok(b) => manifest_to_wire(self@) == Ok::<Seq<u8>, ProtocolError>(b@),
                Err(e) => manifest_to_wire(self@) == Err::<Seq<u8>, ProtocolError>(e),
            },
    {
        self.validate_shape()?;
        let ghost pv = self@.parameters;
        let ghost tv = self@.telemetry;
        let params_len = param_records_len(&self.parameters)?;
        let telemetry_len = telemetry_records_len(&self.telemetry)?;
        let total = 6 + params_len + telemetry_len;
        if total > MAX_MANIFEST_LEN {
            return Err(ProtocolError::PayloadTooLarge(total));
        }
        let pids = param_ids(&self.parameters);
        let cids = channel_ids(&self.telemetry);
        if !ids_distinct(&pids) || !ids_distinct(&cids) {
            return Err(ProtocolError::InvalidValue);
        }
        let param_order = sort_order::<ParamDescriptorView>(&pids, Ghost(pv), Ghost(param_key()));
        let channel_order = sort_order::<TelemetryDescriptorView>(
            &cids,
            Ghost(tv),
            Ghost(channel_key()),
        );
        proof {
            lemma_params_valid(self.parameters@);
            lemma_channels_valid(self.telemetry@);
            assert(param_order@.map_values(|q: usize| self.parameters@[q as int]@) =~= param_order@.map_values(
                |q: usize| pv[q as int],
            ));
            assert(channel_order@.map_values(|q: usize| self.telemetry@[q as int]@) =~= channel_order@.map_values(
                |q: usize| tv[q as int],
            ));
        }
        let mut bytes: Vec<u8> = Vec::new();
        push_le16(&mut bytes, MANIFEST_SCHEMA_VERSION);
        push_le16(&mut bytes, self.parameters.len() as u16);
        push_le16(&mut bytes, self.telemetry.len() as u16);
        push_param_records(&mut bytes, &self.parameters, &param_order);
        push_telemetry_records(&mut bytes, &self.telemetry, &channel_order);
        proof {
            assert(bytes@ =~= manifest_to_wire(self@)->Ok_0);
        }
        Ok(bytes)
    }

    /// The CRC-32 of the canonical encoding, or why there is none.
    pub fn manifest_crc32(&self) -> (r: Result<u32, ProtocolError>)
        ensures
            match manifest_to_wire(self@) {
                Ok(b) => r == Ok::<u32, ProtocolError>(spec_crc32(b)),
                Err(e) => r == Err::<u32, ProtocolError>(e),
            },
    {
        let bytes = self.encode_canonical()?;
        Ok(crc32_iso_hdlc(bytes.as_slice()))
    }
}

/// Reads `count` parameter records at `offset`; see `rd_param_records`.
fn decode_param_records(bytes: &[u8], offset: usize, count: usize) -> (r: Result<
    (Vec<ParamDescriptor>, usize),
    ProtocolError,
>)
    requires
        offset <= bytes@.len(),
    ensures
        match r {
            Ok((ds, next)) => rd_param_records(bytes@, offset as int, count as nat) == Ok::<
                (Seq<ParamDescriptorView>, int),
                ProtocolError,
            >((param_views(ds@), next as int)) && next <= bytes@.len() && ds@.len() == count,
            Err(e) => rd_param_records(bytes@, offset as int, count as nat) == Err::<
                (Seq<ParamDescriptorView>, int),
                ProtocolError,
            >(e),
        },
{
    let mut parameters: Vec<ParamDescriptor> = Vec::new();
    let mut at: usize = offset;
    let mut i: usize = 0;
    proof {
        assert(param_views(parameters@) =~= Seq::<ParamDescriptorView>::empty());
    }
    while i < count
        invariant
            i <= count,
            parameters@.len() == i,
            offset <= at <= bytes@.len(),
            rd_param_records(bytes@, offset as int, i as nat) == Ok::<
                (Seq<ParamDescriptorView>, int),
                ProtocolError,
            >((param_views(parameters@), at as int)),
        decreases count - i,
    {
        let (record, next) = match find_record(bytes, at) {
            Ok(found) => found,
            Err(e) => {
                proof {
                    lemma_rd_param_records_prefix(bytes@, offset as int, (i + 1) as nat, count as nat);
                }
                return Err(e);
            },
        };
        let descriptor = match ParamDescriptor::decode(record) {
            Ok(d) => d,
            Err(e) => {
                proof {
                    lemma_rd_param_records_prefix(bytes@, offset as int, (i + 1) as nat, count as nat);
                }
                return Err(e);
            },
        };
        let ghost before = parameters@;
        parameters.push(descriptor);
        proof {
            assert(param_views(parameters@) =~= param_views(before).push(descriptor@));
        }
        at = next;
        i = i + 1;
    }
    Ok((parameters, at))
}

/// Reads `count` telemetry records at `offset`; see `rd_telemetry_records`.
fn decode_telemetry_records(bytes: &[u8], offset: usize, count: usize) -> (r: Result<
    (Vec<TelemetryDescriptor>, usize),
    ProtocolError,
>)
    requires
        offset <= bytes@.len(),
    ensures
        match r {
            Ok((ds, next)) => rd_telemetry_records(bytes@, offset as int, count as nat) == Ok::<
                (Seq<TelemetryDescriptorView>, int),
                ProtocolError,
            >((telemetry_views(ds@), next as int)) && next <= bytes@.len() && ds@.len() == count,
            Err(e) => rd_telemetry_records(bytes@, offset as int, count as nat) == Err::<
                (Seq<TelemetryDescriptorView>, int),
                ProtocolError,
            >(e),
        },
{
    let mut telemetry: Vec<TelemetryDescriptor> = Vec::new();
    let mut at: usize = offset;
    let mut i: usize = 0;
    proof {
        assert(telemetry_views(telemetry@) =~= Seq::<TelemetryDescriptorView>::empty());
    }
    while i < count
        invariant
            i <= count,
            telemetry@.len() == i,
            offset <= at <= bytes@.len(),
            rd_telemetry_records(bytes@, offset as int, i as nat) == Ok::<
                (Seq<TelemetryDescriptorView>, int),
                ProtocolError,
            >((telemetry_views(telemetry@), at as int)),
        decreases count - i,
    {
        let (record, next) = match find_record(bytes, at) {
            Ok(found) => found,
            Err(e) => {
                proof {
                    lemma_rd_telemetry_records_prefix(
                        bytes@,
                        offset as int,
                        (i + 1) as nat,
                        count as nat,
                    );
                }
                return Err(e);
            },
        };
        let descriptor = match TelemetryDescriptor::decode(record) {
            Ok(d) => d,
            Err(e) => {
                proof {
                    lemma_rd_telemetry_records_prefix(
                        bytes@,
                        offset as int,
                        (i + 1) as nat,
                        count as nat,
                    );
                }
                return Err(e);
            },
        };
        let ghost before = telemetry@;
        telemetry.push(descriptor);
        proof {
            assert(telemetry_views(telemetry@) =~= telemetry_views(before).push(descriptor@));
        }
        at = next;
        i = i + 1;
    }
    Ok((telemetry, at))
}

impl DeviceManifest {
    /// Reads a manifest; see `manifest_from_wire`.
    pub fn decode(bytes: &[u8]) -> (r: Result<DeviceManifest, ProtocolError>)
        ensures
            match r {
                Ok(m) => manifest_from_wire(bytes@) == Ok::<DeviceManifestView, ProtocolError>(m@),
                Err(e) => manifest_from_wire(bytes@) == Err::<DeviceManifestView, ProtocolError>(e),
            },
    {
        if bytes.len() > MAX_MANIFEST_LEN {
            return Err(ProtocolError::PayloadTooLarge(bytes.len()));
        }
        if bytes.len() < 6 {
            return Err(ProtocolError::Truncated);
        }
        let schema_version = get_le16(bytes[0], bytes[1]);
        if schema_version != MANIFEST_SCHEMA_VERSION {
            return Err(ProtocolError::UnsupportedVersion);
        }
        let parameter_count = get_le16(bytes[2], bytes[3]) as usize;
        let telemetry_count = get_le16(bytes[4], bytes[5]) as usize;
        if parameter_count > MAX_MANIFEST_PARAMETERS || telemetry_count > MAX_MANIFEST_TELEMETRY {
            return Err(ProtocolError::InvalidValue);
        }
        let (parameters, offset) = decode_param_records(bytes, 6, parameter_count)?;
        let (telemetry, offset) = decode_telemetry_records(bytes, offset, telemetry_count)?;
        if offset != bytes.len() {
            return Err(ProtocolError::InvalidLength);
        }
        let value = DeviceManifest { schema_version, parameters, telemetry };
        value.validate_shape()?;
        let pids = param_ids(&value.parameters);
        let cids = channel_ids(&value.telemetry);
        if !ids_increasing(&pids) || !ids_increasing(&cids) {
            return Err(ProtocolError::InvalidValue);
        }
        Ok(value)
    }
}

impl WireDecode for DeviceManifest {
    open spec fn spec_wire_decode(b: Seq<u8>) -> Result<DeviceManifestView, ProtocolError> {
        manifest_from_wire(b)
    }

    fn decode(bytes: &[u8]) -> (r: Result<DeviceManifest, ProtocolError>) {
        DeviceManifest::decode(bytes)
    }
}

/// The size of parameter records, as a fold over the records.
pub open spec fn param_size_step() -> spec_fn(int, ParamDescriptorView) -> int {
    |acc: int, d: ParamDescriptorView| acc + 2 + descriptor_wire(d).len()
}

/// The size of telemetry records, as a fold over the records.
pub open spec fn telemetry_size_step() -> spec_fn(int, TelemetryDescriptorView) -> int {
    |acc: int, d: TelemetryDescriptorView| acc + 2 + telemetry_descriptor_to_wire(d)->Ok_0.len()
}

proof fn lemma_param_records_len(s: Seq<ParamDescriptorView>)
    ensures
        param_records(s).len() == s.fold_left(0int, param_size_step()),
    decreases s.len(),
{
    if s.len() > 0 {
        lemma_param_records_len(s.drop_last());
    }
}

proof fn lemma_telemetry_records_len(s: Seq<TelemetryDescriptorView>)
    ensures
        telemetry_records(s).len() == s.fold_left(0int, telemetry_size_step()),
    decreases s.len(),
{
    if s.len() > 0 {
        lemma_telemetry_records_len(s.drop_last());
    }
}

/// A list whose parameters are all valid has no first invalid one.
proof fn lemma_all_params_valid(s: Seq<ParamDescriptorView>)
    requires
        forall|i: int| 0 <= i < s.len() ==> #[trigger] descriptor_check(s[i]) == Ok::<
            (),
            ProtocolError,
        >(()),
    ensures
        first_param_error(s) is None,
    decreases s.len(),
{
    if s.len() > 0 {
        let t = s.drop_last();
        assert forall|i: int| 0 <= i < t.len() implies #[trigger] descriptor_check(t[i]) == Ok::<
            (),
            ProtocolError,
        >(()) by {
            assert(t[i] == s[i]);
        }
        lemma_all_params_valid(t);
        assert(descriptor_check(s[s.len() - 1]) == Ok::<(), ProtocolError>(()));
    }
}

/// A list whose channels all have names that fit has no first invalid one.
proof fn lemma_all_channels_valid(s: Seq<TelemetryDescriptorView>)
    requires
        forall|i: int| 0 <= i < s.len() ==> #[trigger] telemetry_names_fit(s[i]),
    ensures
        first_telemetry_error(s) is None,
    decreases s.len(),
{
    if s.len() > 0 {
        let t = s.drop_last();
        assert forall|i: int| 0 <= i < t.len() implies #[trigger] telemetry_names_fit(t[i]) by {
            assert(t[i] == s[i]);
        }
        lemma_all_channels_valid(t);
        assert(telemetry_names_fit(s[s.len() - 1]));
    }
}

/// Reordering valid parameters keeps them valid.
proof fn lemma_params_valid_permutation(a: Seq<ParamDescriptorView>, b: Seq<ParamDescriptorView>)
    requires
        a.to_multiset() == b.to_multiset(),
        first_param_error(a) is None,
    ensures
        first_param_error(b) is None,
{
    broadcast use {vstd::seq_lib::to_multiset_contains, vstd::multiset::group_multiset_axioms};

    lemma_no_param_error(a);
    assert forall|i: int| 0 <= i < b.len() implies #[trigger] descriptor_check(b[i]) == Ok::<
        (),
        ProtocolError,
    >(()) by {
        assert(b.to_multiset().count(b[i]) > 0);
        assert(a.contains(b[i]));
        let k = choose|k: int| 0 <= k < a.len() && a[k] == b[i];
        assert(descriptor_check(a[k]) == Ok::<(), ProtocolError>(()));
    }
    lemma_all_params_valid(b);
}

/// Reordering valid channels keeps them valid.
proof fn lemma_channels_valid_permutation(
    a: Seq<TelemetryDescriptorView>,
    b: Seq<TelemetryDescriptorView>,
)
    requires
        a.to_multiset() == b.to_multiset(),
        first_telemetry_error(a) is None,
    ensures
        first_telemetry_error(b) is None,
{
    broadcast use {vstd::seq_lib::to_multiset_contains, vstd::multiset::group_multiset_axioms};

    lemma_no_telemetry_error(a);
    assert forall|i: int| 0 <= i < b.len() implies #[trigger] telemetry_names_fit(b[i]) by {
        assert(b.to_multiset().count(b[i]) > 0);
        assert(a.contains(b[i]));
        let k = choose|k: int| 0 <= k < a.len() && a[k] == b[i];
        assert(telemetry_names_fit(a[k]));
    }
    lemma_all_channels_valid(b);
}

/// The canonical encoding of a manifest whose descriptors are all valid
/// does not depend on the order its parameters and channels are listed in:
/// reordering either list gives the same bytes, or the same error.
pub proof fn lemma_manifest_order_independent(a: DeviceManifestView, b: DeviceManifestView)
    requires
        a.schema_version == b.schema_version,
        a.parameters.to_multiset() == b.parameters.to_multiset(),
        a.telemetry.to_multiset() == b.telemetry.to_multiset(),
        first_param_error(a.parameters) is None,
        first_telemetry_error(a.telemetry) is None,
    ensures
        manifest_to_wire(a) == manifest_to_wire(b),
{
    vstd::seq_lib::to_multiset_len(a.parameters);
    vstd::seq_lib::to_multiset_len(b.parameters);
    vstd::seq_lib::to_multiset_len(a.telemetry);
    vstd::seq_lib::to_multiset_len(b.telemetry);
    lemma_params_valid_permutation(a.parameters, b.parameters);
    lemma_channels_valid_permutation(a.telemetry, b.telemetry);
    lemma_param_records_len(a.parameters);
    lemma_param_records_len(b.parameters);
    lemma_telemetry_records_len(a.telemetry);
    lemma_telemetry_records_len(b.telemetry);
    vstd::seq_lib::lemma_fold_left_permutation(a.parameters, b.parameters, param_size_step(), 0int);
    vstd::seq_lib::lemma_fold_left_permutation(
        a.telemetry,
        b.telemetry,
        telemetry_size_step(),
        0int,
    );
    assert(manifest_len(a) == manifest_len(b));
    if keys_distinct(a.parameters, param_key()) {
        lemma_keys_distinct_permutation(a.parameters, b.parameters, param_key());
        lemma_sort_by_key_permutation(a.parameters, b.parameters, param_key());
    } else if keys_distinct(b.parameters, param_key()) {
        lemma_keys_distinct_permutation(b.parameters, a.parameters, param_key());
    }
    if keys_distinct(a.telemetry, channel_key()) {
        lemma_keys_distinct_permutation(a.telemetry, b.telemetry, channel_key());
        lemma_sort_by_key_permutation(a.telemetry, b.telemetry, channel_key());
    } else if keys_distinct(b.telemetry, channel_key()) {
        lemma_keys_distinct_permutation(b.telemetry, a.telemetry, channel_key());
    }
}

/// Parameter records written at `o` are read back from there.
#[verifier::spinoff_prover]
#[verifier::rlimit(40)]
proof fn lemma_rd_param_records_at(b: Seq<u8>, o: int, s: Seq<ParamDescriptorView>)
    requires
        0 <= o,
        o + param_records(s).len() <= b.len(),
        b.subrange(o, o + param_records(s).len()) == param_records(s),
        forall|i: int| 0 <= i < s.len() ==> #[trigger] descriptor_check(s[i]) == Ok::<
            (),
            ProtocolError,
        >(()) && descriptor_utf8(s[i]),
    ensures
        rd_param_records(b, o, s.len()) == Ok::<(Seq<ParamDescriptorView>, int), ProtocolError>(
            (s, o + param_records(s).len()),
        ),
    decreases s.len(),
{
    if s.len() == 0 {
        assert(s =~= Seq::<ParamDescriptorView>::empty());
    } else {
        let t = s.drop_last();
        let d = s.last();
        let w = descriptor_wire(d);
        let head = param_records(t);
        assert(descriptor_check(s[s.len() - 1]) == Ok::<(), ProtocolError>(()) && descriptor_utf8(
            s[s.len() - 1],
        ));
        lemma_descriptor_wire_len(d);
        let l = le16(w.len() as u16);
        assert(param_records(s) == head + (l + w)) by {
            assert(head + l + w =~= head + (l + w));
        }
        lemma_split_at(b, o, head, l + w);
        assert forall|i: int| 0 <= i < t.len() implies #[trigger] descriptor_check(t[i]) == Ok::<
            (),
            ProtocolError,
        >(()) && descriptor_utf8(t[i]) by {
            assert(t[i] == s[i]);
        }
        lemma_rd_param_records_at(b, o, t);
        let o1 = o + head.len();
        lemma_split_at(b, o1, l, w);
        lemma_u16_at(b, o1, w.len() as u16);
        lemma_param_descriptor_round_trip(d);
        assert(record_at(b, o1) == Ok::<(Seq<u8>, int), ProtocolError>((w, o1 + 2 + w.len())));
        assert(t.push(d) =~= s);
    }
}

/// Telemetry records written at `o` are read back from there.
#[verifier::spinoff_prover]
#[verifier::rlimit(30)]
proof fn lemma_rd_telemetry_records_at(b: Seq<u8>, o: int, s: Seq<TelemetryDescriptorView>)
    requires
        0 <= o,
        o + telemetry_records(s).len() <= b.len(),
        b.subrange(o, o + telemetry_records(s).len()) == telemetry_records(s),
        forall|i: int| 0 <= i < s.len() ==> #[trigger] telemetry_names_fit(s[i]) && telemetry_utf8(
            s[i],
        ),
    ensures
        rd_telemetry_records(b, o, s.len()) == Ok::<(Seq<TelemetryDescriptorView>, int), ProtocolError>(
            (s, o + telemetry_records(s).len()),
        ),
    decreases s.len(),
{
    if s.len() == 0 {
        assert(s =~= Seq::<TelemetryDescriptorView>::empty());
    } else {
        let t = s.drop_last();
        let d = s.last();
        let w = telemetry_descriptor_to_wire(d)->Ok_0;
        let head = telemetry_records(t);
        assert(telemetry_names_fit(s[s.len() - 1]) && telemetry_utf8(s[s.len() - 1]));
        let l = le16(w.len() as u16);
        assert(telemetry_records(s) == head + (l + w)) by {
            assert(head + l + w =~= head + (l + w));
        }
        lemma_split_at(b, o, head, l + w);
        assert forall|i: int| 0 <= i < t.len() implies #[trigger] telemetry_names_fit(t[i])
            && telemetry_utf8(t[i]) by {
            assert(t[i] == s[i]);
        }
        lemma_rd_telemetry_records_at(b, o, t);
        let o1 = o + head.len();
        lemma_split_at(b, o1, l, w);
        lemma_u16_at(b, o1, w.len() as u16);
        lemma_telemetry_descriptor_round_trip(d);
        assert(record_at(b, o1) == Ok::<(Seq<u8>, int), ProtocolError>((w, o1 + 2 + w.len())));
        assert(t.push(d) =~= s);
    }
}

/// Every manifest that encodes, and whose strings are UTF-8, decodes back
/// from its canonical encoding, with its parameters and channels ordered
/// by increasing id.
#[verifier::spinoff_prover]
#[verifier::rlimit(40)]
pub proof fn lemma_manifest_round_trip(v: DeviceManifestView)
    requires
        manifest_to_wire(v) is Ok,
        forall|i: int| 0 <= i < v.parameters.len() ==> #[trigger] descriptor_utf8(v.parameters[i]),
        forall|i: int| 0 <= i < v.telemetry.len() ==> #[trigger] telemetry_utf8(v.telemetry[i]),
    ensures
        manifest_from_wire(manifest_to_wire(v)->Ok_0) == Ok::<DeviceManifestView, ProtocolError>(
            DeviceManifestView {
                schema_version: v.schema_version,
                parameters: sort_by_key(v.parameters, param_key()),
                telemetry: sort_by_key(v.telemetry, channel_key()),
            },
        ),
{
    broadcast use {vstd::seq_lib::to_multiset_contains, vstd::multiset::group_multiset_axioms};

    let sp = sort_by_key(v.parameters, param_key());
    let st = sort_by_key(v.telemetry, channel_key());
    lemma_sort_by_key_sorted(v.parameters, param_key());
    lemma_sort_by_key_sorted(v.telemetry, channel_key());
    lemma_sort_by_key_increasing(v.parameters, param_key());
    lemma_sort_by_key_increasing(v.telemetry, channel_key());
    lemma_params_valid_permutation(v.parameters, sp);
    lemma_channels_valid_permutation(v.telemetry, st);
    lemma_no_param_error(sp);
    lemma_no_telemetry_error(st);
    assert forall|i: int| 0 <= i < sp.len() implies #[trigger] descriptor_check(sp[i]) == Ok::<
        (),
        ProtocolError,
    >(()) && descriptor_utf8(sp[i]) by {
        assert(sp.to_multiset().count(sp[i]) > 0);
        assert(v.parameters.contains(sp[i]));
        let k = choose|k: int| 0 <= k < v.parameters.len() && v.parameters[k] == sp[i];
        assert(descriptor_utf8(v.parameters[k]));
    }
    assert forall|i: int| 0 <= i < st.len() implies #[trigger] telemetry_names_fit(st[i])
        && telemetry_utf8(st[i]) by {
        assert(st.to_multiset().count(st[i]) > 0);
        assert(v.telemetry.contains(st[i]));
        let k = choose|k: int| 0 <= k < v.telemetry.len() && v.telemetry[k] == st[i];
        assert(telemetry_utf8(v.telemetry[k]));
    }
    lemma_param_records_len(v.parameters);
    lemma_param_records_len(sp);
    lemma_telemetry_records_len(v.telemetry);
    lemma_telemetry_records_len(st);
    vstd::seq_lib::lemma_fold_left_permutation(v.parameters, sp, param_size_step(), 0int);
    vstd::seq_lib::lemma_fold_left_permutation(v.telemetry, st, telemetry_size_step(), 0int);
    let np = v.parameters.len();
    let nt = v.telemetry.len();
    let h0 = le16(MANIFEST_SCHEMA_VERSION);
    let h1 = le16(np as u16);
    let h2 = le16(nt as u16);
    let pr = param_records(sp);
    let tr = telemetry_records(st);
    let b = manifest_to_wire(v)->Ok_0;
    assert(b == h0 + h1 + h2 + pr + tr);
    assert(b.subrange(0, b.len() as int) =~= b);
    lemma_split_at(b, 0, h0 + h1 + h2 + pr, tr);
    lemma_split_at(b, 0, h0 + h1 + h2, pr);
    lemma_split_at(b, 0, h0 + h1, h2);
    lemma_split_at(b, 0, h0, h1);
    lemma_u16_at(b, 0, MANIFEST_SCHEMA_VERSION);
    lemma_u16_at(b, 2, np as u16);
    lemma_u16_at(b, 4, nt as u16);
    lemma_rd_param_records_at(b, 6, sp);
    lemma_rd_telemetry_records_at(b, 6 + pr.len() as int, st);
}

} // verus!
