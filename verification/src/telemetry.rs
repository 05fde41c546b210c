//! Telemetry: channel descriptors, subscriptions and sample batches.

use vstd::prelude::*;
use vstd::utf8::valid_utf8;

use crate::bytes::{le16, le32, lemma_u16_at, lemma_u32_at, u16_at, u32_at};
use crate::error::ProtocolError;
use crate::frame::MAX_PAYLOAD_LEN;
use crate::parameter::{MAX_DISPLAY_NAME_LEN, MAX_GROUP_LEN, MAX_MACHINE_NAME_LEN, MAX_UNIT_LEN};
use crate::wire::{
    rd_finish, rd_u32, rd_u8, rd_utf8, str_bytes, wr_utf8, WireDecode, WireEncode, WireReader,
    WireWriter,
};

verus! {

/// Most channels one subscription or batch may carry.
pub const MAX_TELEMETRY_CHANNELS: usize = 8;
/// Most samples one batch may carry.
pub const MAX_TELEMETRY_SAMPLES: usize = 16;
/// Highest sample rate a subscription may ask for.
pub const MAX_TELEMETRY_RATE_HZ: u16 = 500;

/// How the 32 raw bits of a channel's samples are to be read.
#[derive(Clone, Copy, Debug, PartialEq, Eq, Structural)]
pub enum TelemetryType {
    F32,
    I32,
    U32,
    Flags32,
}

/// The wire code of a telemetry type.
pub open spec fn telemetry_type_code(t: TelemetryType) -> u8 {
    match t {
        TelemetryType::F32 => 1,
        TelemetryType::I32 => 2,
        TelemetryType::U32 => 3,
        TelemetryType::Flags32 => 4,
    }
}

/// The telemetry type a wire code names; other codes are `InvalidValue`.
pub open spec fn telemetry_type_from_code(v: u8) -> Result<TelemetryType, ProtocolError> {
    if v == 1 {
        Ok(TelemetryType::F32)
    } else if v == 2 {
        Ok(TelemetryType::I32)
    } else if v == 3 {
        Ok(TelemetryType::U32)
    } else if v == 4 {
        Ok(TelemetryType::Flags32)
    } else {
        Err(ProtocolError::InvalidValue)
    }
}

impl TelemetryType {
    /// The wire code of this type.
    pub fn as_u8(self) -> (v: u8)
        ensures
            v == telemetry_type_code(self),
    {
        match self {
            TelemetryType::F32 => 1,
            TelemetryType::I32 => 2,
            TelemetryType::U32 => 3,
            TelemetryType::Flags32 => 4,
        }
    }

    /// The type a wire code names; see `telemetry_type_from_code`.
    pub fn try_from_u8(value: u8) -> (r: Result<TelemetryType, ProtocolError>)
        ensures
            r == telemetry_type_from_code(value),
    {
        match value {
            1 => Ok(TelemetryType::F32),
            2 => Ok(TelemetryType::I32),
            3 => Ok(TelemetryType::U32),
            4 => Ok(TelemetryType::Flags32),
            _ => Err(ProtocolError::InvalidValue),
        }
    }
}

/// The manifest's description of one telemetry channel.
#[derive(Clone, Debug, PartialEq, Eq)]
pub struct TelemetryDescriptor {
    pub channel_id: u32,
    pub telemetry_type: TelemetryType,
    pub machine_name: String,
    pub display_name: String,
    pub group: String,
    pub unit: String,
}

/// A `TelemetryDescriptor` with its strings as UTF-8 bytes.
pub struct TelemetryDescriptorView {
    pub channel_id: u32,
    pub telemetry_type: TelemetryType,
    pub machine_name: Seq<u8>,
    pub display_name: Seq<u8>,
    pub group: Seq<u8>,
    pub unit: Seq<u8>,
}

impl View for TelemetryDescriptor {
    type V = TelemetryDescriptorView;

    open spec fn view(&self) -> TelemetryDescriptorView {
        TelemetryDescriptorView {
            channel_id: self.channel_id,
            telemetry_type: self.telemetry_type,
            machine_name: str_bytes(self.machine_name),
            display_name: str_bytes(self.display_name),
            group: str_bytes(self.group),
            unit: str_bytes(self.unit),
        }
    }
}

/// Every name fits its limit.
pub open spec fn telemetry_names_fit(v: TelemetryDescriptorView) -> bool {
    &&& v.machine_name.len() <= MAX_MACHINE_NAME_LEN
    &&& v.display_name.len() <= MAX_DISPLAY_NAME_LEN
    &&& v.group.len() <= MAX_GROUP_LEN
    &&& v.unit.len() <= MAX_UNIT_LEN
}

/// The encoded size of a descriptor whose names fit.
pub open spec fn telemetry_descriptor_len(v: TelemetryDescriptorView) -> nat {
    9 + v.machine_name.len() + v.display_name.len() + v.group.len() + v.unit.len()
}

/// A descriptor on the wire; a name over its limit is `StringTooLong`.
pub open spec fn telemetry_descriptor_to_wire(v: TelemetryDescriptorView) -> Result<
    Seq<u8>,
    ProtocolError,
> {
    if !telemetry_names_fit(v) {
        Err(ProtocolError::StringTooLong)
    } else {
        Ok(le32(v.channel_id) + seq![telemetry_type_code(v.telemetry_type)] + wr_utf8(
            v.machine_name,
        ) + wr_utf8(v.display_name) + wr_utf8(v.group) + wr_utf8(v.unit))
    }
}

/// Fields in order: channel id, type, the four names each within its limit.
pub open spec fn telemetry_descriptor_from_wire(b: Seq<u8>) -> Result<
    TelemetryDescriptorView,
    ProtocolError,
> {
    match rd_u32(b, 0) {
        Err(e) => Err(e),
        Ok((channel_id, o1)) => match rd_u8(b, o1) {
            Err(e) => Err(e),
            Ok((t, o2)) => match telemetry_type_from_code(t) {
                Err(e) => Err(e),
                Ok(telemetry_type) => match rd_utf8(b, o2, MAX_MACHINE_NAME_LEN as int) {
                    Err(e) => Err(e),
                    Ok((machine_name, o3)) => match rd_utf8(b, o3, MAX_DISPLAY_NAME_LEN as int) {
                        Err(e) => Err(e),
                        Ok((display_name, o4)) => match rd_utf8(b, o4, MAX_GROUP_LEN as int) {
                            Err(e) => Err(e),
                            Ok((group, o5)) => match rd_utf8(b, o5, MAX_UNIT_LEN as int) {
                                Err(e) => Err(e),
                                Ok((unit, o6)) => match rd_finish(b, o6) {
                                    Err(e) => Err(e),
                                    Ok(_) => Ok(
                                        TelemetryDescriptorView {
                                            channel_id,
                                            telemetry_type,
                                            machine_name,
                                            display_name,
                                            group,
                                            unit,
                                        },
                                    ),
                                },
                            },
                        },
                    },
                },
            },
        },
    }
}

impl TelemetryDescriptor {
    fn validate(&self) -> (r: Result<(), ProtocolError>)
        ensures
            telemetry_names_fit(self@) ==> r == Ok::<(), ProtocolError>(()),
            !telemetry_names_fit(self@) ==> r == Err::<(), ProtocolError>(
                ProtocolError::StringTooLong,
            ),
    {
        if self.machine_name.as_str().as_bytes().len() > MAX_MACHINE_NAME_LEN
            || self.display_name.as_str().as_bytes().len() > MAX_DISPLAY_NAME_LEN
            || self.group.as_str().as_bytes().len() > MAX_GROUP_LEN
            || self.unit.as_str().as_bytes().len() > MAX_UNIT_LEN {
            return Err(ProtocolError::StringTooLong);
        }
        Ok(())
    }

    /// The encoded size of this descriptor; a name over its limit is
    /// `StringTooLong`.
    pub(crate) fn encoded_len(&self) -> (r: Result<usize, ProtocolError>)
        ensures
            telemetry_names_fit(self@) ==> r == Ok::<usize, ProtocolError>(
                telemetry_descriptor_len(self@) as usize,
            ),
            !telemetry_names_fit(self@) ==> r == Err::<usize, ProtocolError>(
                ProtocolError::StringTooLong,
            ),
    {
        self.validate()?;
        Ok(9 + self.machine_name.as_str().as_bytes().len() + self.display_name.as_str().as_bytes().len()
            + self.group.as_str().as_bytes().len() + self.unit.as_str().as_bytes().len())
    }
}

impl TelemetryDescriptor {
    /// A second descriptor equal to this one.
    pub(crate) fn duplicate(&self) -> (d: TelemetryDescriptor)
        ensures
            d@ == self@,
            d.channel_id == self.channel_id,
            d.telemetry_type == self.telemetry_type,
    {
        TelemetryDescriptor {
            channel_id: self.channel_id,
            telemetry_type: self.telemetry_type,
            machine_name: self.machine_name.clone(),
            display_name: self.display_name.clone(),
            group: self.group.clone(),
            unit: self.unit.clone(),
        }
    }
}

impl WireEncode for TelemetryDescriptor {
    open spec fn spec_wire_encode(v: TelemetryDescriptorView) -> Result<Seq<u8>, ProtocolError> {
        telemetry_descriptor_to_wire(v)
    }

    fn encode(&self) -> (r: Result<Vec<u8>, ProtocolError>) {
        self.validate()?;
        let mut writer = WireWriter::new();
        writer.put_u32(self.channel_id);
        writer.put_u8(self.telemetry_type.as_u8());
        writer.put_utf8_u8_len(self.machine_name.as_str(), MAX_MACHINE_NAME_LEN)?;
        writer.put_utf8_u8_len(self.display_name.as_str(), MAX_DISPLAY_NAME_LEN)?;
        writer.put_utf8_u8_len(self.group.as_str(), MAX_GROUP_LEN)?;
        writer.put_utf8_u8_len(self.unit.as_str(), MAX_UNIT_LEN)?;
        proof {
            assert(writer@ =~= telemetry_descriptor_to_wire(self@)->Ok_0);
        }
        Ok(writer.into_inner())
    }
}

impl WireDecode for TelemetryDescriptor {
    open spec fn spec_wire_decode(b: Seq<u8>) -> Result<TelemetryDescriptorView, ProtocolError> {
        telemetry_descriptor_from_wire(b)
    }

    fn decode(bytes: &[u8]) -> (r: Result<TelemetryDescriptor, ProtocolError>) {
        let mut reader = WireReader::new(bytes);
        let channel_id = reader.read_u32()?;
        let telemetry_type = TelemetryType::try_from_u8(reader.read_u8()?)?;
        let machine_name = reader.read_utf8_u8_len(MAX_MACHINE_NAME_LEN)?;
        let display_name = reader.read_utf8_u8_len(MAX_DISPLAY_NAME_LEN)?;
        let group = reader.read_utf8_u8_len(MAX_GROUP_LEN)?;
        let unit = reader.read_utf8_u8_len(MAX_UNIT_LEN)?;
        reader.finish()?;
        let value = TelemetryDescriptor {
            channel_id,
            telemetry_type,
            machine_name,
            display_name,
            group,
            unit,
        };
        value.validate()?;
        Ok(value)
    }
}

/// Every name of a telemetry descriptor is UTF-8.
pub open spec fn telemetry_utf8(v: TelemetryDescriptorView) -> bool {
    &&& valid_utf8(v.machine_name)
    &&& valid_utf8(v.display_name)
    &&& valid_utf8(v.group)
    &&& valid_utf8(v.unit)
}

/// Every descriptor whose names fit and are UTF-8 decodes back from its
/// encoding.
pub proof fn lemma_telemetry_descriptor_round_trip(v: TelemetryDescriptorView)
    requires
        telemetry_names_fit(v),
        telemetry_utf8(v),
    ensures
        telemetry_descriptor_from_wire(telemetry_descriptor_to_wire(v)->Ok_0) == Ok::<
            TelemetryDescriptorView,
            ProtocolError,
        >(v),
{
    let b = telemetry_descriptor_to_wire(v)->Ok_0;
    let o2 = 5int;
    let o3 = o2 + 1 + v.machine_name.len();
    let o4 = o3 + 1 + v.display_name.len();
    let o5 = o4 + 1 + v.group.len();
    let o6 = o5 + 1 + v.unit.len();
    assert(b.subrange(0, 4) =~= le32(v.channel_id));
    lemma_u32_at(b, 0, v.channel_id);
    assert(b[4] == telemetry_type_code(v.telemetry_type));
    assert(b[o2] == v.machine_name.len() as u8);
    assert(b.subrange(o2 + 1, o3) =~= v.machine_name);
    assert(b[o3] == v.display_name.len() as u8);
    assert(b.subrange(o3 + 1, o4) =~= v.display_name);
    assert(b[o4] == v.group.len() as u8);
    assert(b.subrange(o4 + 1, o5) =~= v.group);
    assert(b[o5] == v.unit.len() as u8);
    assert(b.subrange(o5 + 1, o6) =~= v.unit);
    assert(b.len() == o6);
}

/// The four bytes of each id, in order.
pub open spec fn u32s_wire(v: Seq<u32>) -> Seq<u8>
    decreases v.len(),
{
    if v.len() == 0 {
        Seq::empty()
    } else {
        u32s_wire(v.drop_last()) + le32(v.last())
    }
}

/// Each value of a `u32s_wire` stands at four times its index.
pub proof fn lemma_u32s_wire(v: Seq<u32>)
    ensures
        u32s_wire(v).len() == 4 * v.len(),
        forall|j: int|
            0 <= j < v.len() ==> #[trigger] u32s_wire(v).subrange(4 * j, 4 * j + 4) == le32(v[j]),
    decreases v.len(),
{
    if v.len() > 0 {
        lemma_u32s_wire(v.drop_last());
        let w = u32s_wire(v);
        let p = u32s_wire(v.drop_last());
        assert forall|j: int| 0 <= j < v.len() implies #[trigger] w.subrange(4 * j, 4 * j + 4)
            == le32(v[j]) by {
            if j < v.len() - 1 {
                assert(w.subrange(4 * j, 4 * j + 4) =~= p.subrange(4 * j, 4 * j + 4));
            } else {
                assert(w.subrange(4 * j, 4 * j + 4) =~= le32(v.last()));
            }
        }
    }
}

/// No value occurs twice.
pub open spec fn no_duplicates(s: Seq<u32>) -> bool {
    forall|i: int, j: int| 0 <= i < j < s.len() ==> s[i] != s[j]
}

/// Whether `ids` holds the same value twice.
fn has_duplicate(ids: &Vec<u32>) -> (b: bool)
    ensures
        b == !no_duplicates(ids@),
{
    let mut i: usize = 0;
    while i < ids.len()
        invariant
            i <= ids@.len(),
            forall|a: int, c: int| 0 <= a < c < i ==> ids@[a] != ids@[c],
        decreases ids@.len() - i,
    {
        let mut j: usize = 0;
        while j < i
            invariant
                j <= i < ids@.len(),
                forall|a: int| 0 <= a < j ==> ids@[a] != ids@[i as int],
            decreases i - j,
        {
            if ids[j] == ids[i] {
                return true;
            }
            j = j + 1;
        }
        i = i + 1;
    }
    false
}

/// A request for a set of channels at a sample rate.
#[derive(Clone, Debug, PartialEq, Eq)]
pub struct TelemetrySubscription {
    pub subscription_version: u16,
    pub sample_rate_hz: u16,
    pub channel_ids: Vec<u32>,
}

/// A `TelemetrySubscription` with its ids as a sequence.
pub struct TelemetrySubscriptionView {
    pub subscription_version: u16,
    pub sample_rate_hz: u16,
    pub channel_ids: Seq<u32>,
}

impl View for TelemetrySubscription {
    type V = TelemetrySubscriptionView;

    open spec fn view(&self) -> TelemetrySubscriptionView {
        TelemetrySubscriptionView {
            subscription_version: self.subscription_version,
            sample_rate_hz: self.sample_rate_hz,
            channel_ids: self.channel_ids@,
        }
    }
}

/// One to eight distinct channels at 1 to 500 Hz.
pub open spec fn subscription_valid(v: TelemetrySubscriptionView) -> bool {
    &&& 1 <= v.channel_ids.len() <= MAX_TELEMETRY_CHANNELS
    &&& 1 <= v.sample_rate_hz <= MAX_TELEMETRY_RATE_HZ
    &&& no_duplicates(v.channel_ids)
}

/// A subscription on the wire; an invalid one is `InvalidValue`.
pub open spec fn subscription_to_wire(v: TelemetrySubscriptionView) -> Result<Seq<u8>, ProtocolError> {
    if !subscription_valid(v) {
        Err(ProtocolError::InvalidValue)
    } else {
        Ok(le16(v.subscription_version) + le16(v.sample_rate_hz) + seq![
            v.channel_ids.len() as u8,
        ] + u32s_wire(v.channel_ids))
    }
}

/// Fewer than five bytes are `Truncated`; a count of zero or over eight is
/// `InvalidValue`; a length other than five plus four per id is
/// `InvalidLength`; an invalid subscription is `InvalidValue`.
pub open spec fn subscription_from_wire(b: Seq<u8>) -> Result<TelemetrySubscriptionView, ProtocolError> {
    if b.len() < 5 {
        Err(ProtocolError::Truncated)
    } else if b[4] == 0 || b[4] > MAX_TELEMETRY_CHANNELS {
        Err(ProtocolError::InvalidValue)
    } else if b.len() != 5 + 4 * b[4] {
        Err(ProtocolError::InvalidLength)
    } else {
        let v = TelemetrySubscriptionView {
            subscription_version: u16_at(b, 0),
            sample_rate_hz: u16_at(b, 2),
            channel_ids: Seq::new(b[4] as nat, |i: int| u32_at(b, 5 + 4 * i)),
        };
        if subscription_valid(v) {
            Ok(v)
        } else {
            Err(ProtocolError::InvalidValue)
        }
    }
}

impl TelemetrySubscription {
    fn validate(&self) -> (r: Result<(), ProtocolError>)
        ensures
            subscription_valid(self@) ==> r == Ok::<(), ProtocolError>(()),
            !subscription_valid(self@) ==> r == Err::<(), ProtocolError>(ProtocolError::InvalidValue),
    {
        if self.channel_ids.len() == 0 || self.channel_ids.len() > MAX_TELEMETRY_CHANNELS
            || self.sample_rate_hz == 0 || self.sample_rate_hz > MAX_TELEMETRY_RATE_HZ {
            return Err(ProtocolError::InvalidValue);
        }
        if has_duplicate(&self.channel_ids) {
            return Err(ProtocolError::InvalidValue);
        }
        Ok(())
    }
}

impl WireEncode for TelemetrySubscription {
    open spec fn spec_wire_encode(v: TelemetrySubscriptionView) -> Result<Seq<u8>, ProtocolError> {
        subscription_to_wire(v)
    }

    fn encode(&self) -> (r: Result<Vec<u8>, ProtocolError>) {
        self.validate()?;
        let mut writer = WireWriter::new();
        writer.put_u16(self.subscription_version);
        writer.put_u16(self.sample_rate_hz);
        writer.put_u8(self.channel_ids.len() as u8);
        let ghost head = writer@;
        let mut i: usize = 0;
        while i < self.channel_ids.len()
            invariant
                i <= self.channel_ids@.len(),
                writer@ == head + u32s_wire(self.channel_ids@.take(i as int)),
            decreases self.channel_ids@.len() - i,
        {
            proof {
                assert(self.channel_ids@.take(i + 1).drop_last() =~= self.channel_ids@.take(
                    i as int,
                ));
            }
            writer.put_u32(self.channel_ids[i]);
            proof {
                assert(writer@ =~= head + u32s_wire(self.channel_ids@.take(i + 1)));
            }
            i = i + 1;
        }
        proof {
            assert(self.channel_ids@.take(i as int) =~= self.channel_ids@);
            assert(writer@ =~= subscription_to_wire(self@)->Ok_0);
        }
        Ok(writer.into_inner())
    }
}

impl WireDecode for TelemetrySubscription {
    open spec fn spec_wire_decode(b: Seq<u8>) -> Result<TelemetrySubscriptionView, ProtocolError> {
        subscription_from_wire(b)
    }

    fn decode(bytes: &[u8]) -> (r: Result<TelemetrySubscription, ProtocolError>) {
        if bytes.len() < 5 {
            return Err(ProtocolError::Truncated);
        }
        let channel_count = bytes[4] as usize;
        if channel_count == 0 || channel_count > MAX_TELEMETRY_CHANNELS {
            return Err(ProtocolError::InvalidValue);
        }
        if bytes.len() != 5 + 4 * channel_count {
            return Err(ProtocolError::InvalidLength);
        }
        let mut reader = WireReader::new(bytes);
        let subscription_version = reader.read_u16()?;
        let sample_rate_hz = reader.read_u16()?;
        let decoded_count = reader.read_u8()? as usize;
        let mut channel_ids: Vec<u32> = Vec::new();
        let mut i: usize = 0;
        while i < decoded_count
            invariant
                decoded_count == channel_count,
                bytes@.len() == 5 + 4 * channel_count,
                i <= decoded_count,
                reader.data() == bytes@,
                reader.pos() == 5 + 4 * i,
                channel_ids@ == Seq::new(i as nat, |k: int| u32_at(bytes@, 5 + 4 * k)),
            decreases decoded_count - i,
        {
            let id = reader.read_u32()?;
            channel_ids.push(id);
            proof {
                assert(channel_ids@ =~= Seq::new((i + 1) as nat, |k: int| u32_at(bytes@, 5 + 4 * k)));
            }
            i = i + 1;
        }
        reader.finish()?;
        let value = TelemetrySubscription { subscription_version, sample_rate_hz, channel_ids };
        value.validate()?;
        Ok(value)
    }
}

/// Every valid subscription decodes back from its encoding.
pub proof fn lemma_subscription_round_trip(v: TelemetrySubscriptionView)
    requires
        subscription_valid(v),
    ensures
        subscription_from_wire(subscription_to_wire(v)->Ok_0) == Ok::<
            TelemetrySubscriptionView,
            ProtocolError,
        >(v),
{
    let b = subscription_to_wire(v)->Ok_0;
    let ids = v.channel_ids;
    lemma_u32s_wire(ids);
    assert(b.subrange(0, 2) =~= le16(v.subscription_version));
    assert(b.subrange(2, 4) =~= le16(v.sample_rate_hz));
    lemma_u16_at(b, 0, v.subscription_version);
    lemma_u16_at(b, 2, v.sample_rate_hz);
    assert(b[4] == ids.len() as u8);
    let w = u32s_wire(ids);
    assert(b.subrange(5, b.len() as int) =~= w);
    let d = Seq::new(ids.len(), |i: int| u32_at(b, 5 + 4 * i));
    assert forall|i: int| 0 <= i < ids.len() implies d[i] == ids[i] by {
        assert(w.subrange(4 * i, 4 * i + 4) == le32(ids[i]));
        assert(b.subrange(5 + 4 * i, 5 + 4 * i + 4) =~= w.subrange(4 * i, 4 * i + 4));
        lemma_u32_at(b, 5 + 4 * i, ids[i]);
    }
    assert(d =~= ids);
}

} // verus!

verus! {

/// One sample row: time since the previous row and one raw value per channel.
#[derive(Clone, Debug, PartialEq, Eq)]
pub struct TelemetrySample {
    pub dt_us: u16,
    pub values: Vec<u32>,
}

impl View for TelemetrySample {
    type V = (u16, Seq<u32>);

    open spec fn view(&self) -> (u16, Seq<u32>) {
        (self.dt_us, self.values@)
    }
}

/// A batch of sample rows for one subscription.
#[derive(Clone, Debug, PartialEq, Eq)]
pub struct TelemetryBatch {
    pub subscription_version: u16,
    pub first_sample_sequence: u16,
    pub dropped_samples: u16,
    pub base_timestamp_us: u32,
    pub samples: Vec<TelemetrySample>,
}

/// A `TelemetryBatch` with its rows as sequences.
pub struct TelemetryBatchView {
    pub subscription_version: u16,
    pub first_sample_sequence: u16,
    pub dropped_samples: u16,
    pub base_timestamp_us: u32,
    pub samples: Seq<(u16, Seq<u32>)>,
}

impl View for TelemetryBatch {
    type V = TelemetryBatchView;

    open spec fn view(&self) -> TelemetryBatchView {
        TelemetryBatchView {
            subscription_version: self.subscription_version,
            first_sample_sequence: self.first_sample_sequence,
            dropped_samples: self.dropped_samples,
            base_timestamp_us: self.base_timestamp_us,
            samples: self.samples@.map_values(|s: TelemetrySample| s@),
        }
    }
}

/// Bytes before the first row.
pub const TELEMETRY_BATCH_PREFIX_LEN: usize = 12;

/// The channel count of a batch: rows must number 1 to 16, all as wide as
/// the first, which holds 1 to 8 values and a zero time step; otherwise
/// `InvalidValue`.
pub open spec fn batch_channel_count(v: TelemetryBatchView) -> Result<nat, ProtocolError> {
    if v.samples.len() == 0 {
        Err(ProtocolError::InvalidValue)
    } else {
        let cc = v.samples[0].1.len();
        if v.samples.len() > MAX_TELEMETRY_SAMPLES || cc == 0 || cc > MAX_TELEMETRY_CHANNELS
            || v.samples[0].0 != 0 || exists|i: int|
            0 <= i < v.samples.len() && #[trigger] v.samples[i].1.len() != cc {
            Err(ProtocolError::InvalidValue)
        } else {
            Ok(cc)
        }
    }
}

/// Bytes per row for `cc` channels.
pub open spec fn row_len(cc: int) -> int {
    2 + 4 * cc
}

/// The encoded size of `sc` rows of `cc` channels.
pub open spec fn batch_len(sc: int, cc: int) -> int {
    12 + sc * row_len(cc)
}

/// One row on the wire.
pub open spec fn sample_wire(s: (u16, Seq<u32>)) -> Seq<u8> {
    le16(s.0) + u32s_wire(s.1)
}

/// All rows on the wire, in order.
pub open spec fn samples_wire(s: Seq<(u16, Seq<u32>)>) -> Seq<u8>
    decreases s.len(),
{
    if s.len() == 0 {
        Seq::empty()
    } else {
        samples_wire(s.drop_last()) + sample_wire(s.last())
    }
}

/// The twelve header bytes of a batch.
pub open spec fn batch_header(v: TelemetryBatchView, cc: nat) -> Seq<u8> {
    le16(v.subscription_version) + le16(v.first_sample_sequence) + seq![
        v.samples.len() as u8,
        cc as u8,
    ] + le16(v.dropped_samples) + le32(v.base_timestamp_us)
}

/// A batch on the wire; see `batch_channel_count` for `InvalidValue`, and a
/// batch over `MAX_PAYLOAD_LEN` bytes is `PayloadTooLarge`.
pub open spec fn batch_to_wire(v: TelemetryBatchView) -> Result<Seq<u8>, ProtocolError> {
    match batch_channel_count(v) {
        Err(e) => Err(e),
        Ok(cc) => if batch_len(v.samples.len() as int, cc as int) > MAX_PAYLOAD_LEN {
            Err(ProtocolError::PayloadTooLarge(batch_len(v.samples.len() as int, cc as int) as usize))
        } else {
            Ok(batch_header(v, cc) + samples_wire(v.samples))
        },
    }
}

/// Row `i` of a batch encoding with `cc` channels.
pub open spec fn sample_at(b: Seq<u8>, cc: int, i: int) -> (u16, Seq<u32>) {
    (
        u16_at(b, 12 + i * row_len(cc)),
        Seq::new(cc as nat, |j: int| u32_at(b, 12 + i * row_len(cc) + 2 + 4 * j)),
    )
}

/// Over `MAX_PAYLOAD_LEN` bytes is `PayloadTooLarge`; under twelve is
/// `Truncated`; a row count outside 1..16, a channel count outside 1..8 or
/// other than `expected` is `InvalidValue`; a length that does not match the
/// counts is `InvalidLength`; a first row with a non-zero step is
/// `InvalidValue`.
pub open spec fn batch_from_wire(b: Seq<u8>, expected: int) -> Result<TelemetryBatchView, ProtocolError> {
    if b.len() > MAX_PAYLOAD_LEN {
        Err(ProtocolError::PayloadTooLarge(b.len() as usize))
    } else if b.len() < 12 {
        Err(ProtocolError::Truncated)
    } else if b[4] == 0 || b[4] > MAX_TELEMETRY_SAMPLES || b[5] == 0 || b[5]
        > MAX_TELEMETRY_CHANNELS || b[5] != expected {
        Err(ProtocolError::InvalidValue)
    } else if b.len() != batch_len(b[4] as int, b[5] as int) {
        Err(ProtocolError::InvalidLength)
    } else if u16_at(b, 12) != 0 {
        Err(ProtocolError::InvalidValue)
    } else {
        Ok(
            TelemetryBatchView {
                subscription_version: u16_at(b, 0),
                first_sample_sequence: u16_at(b, 2),
                dropped_samples: u16_at(b, 6),
                base_timestamp_us: u32_at(b, 8),
                samples: Seq::new(b[4] as nat, |i: int| sample_at(b, b[5] as int, i)),
            },
        )
    }
}

proof fn lemma_row_offsets(i: int, sc: int, cc: int)
    requires
        0 <= i < sc,
        0 <= cc,
    ensures
        (i + 1) * row_len(cc) == i * row_len(cc) + row_len(cc),
        (i + 1) * row_len(cc) <= sc * row_len(cc),
        0 <= i * row_len(cc),
{
    assert((i + 1) * row_len(cc) == i * row_len(cc) + row_len(cc)) by (nonlinear_arith);
    assert((i + 1) * row_len(cc) <= sc * row_len(cc)) by (nonlinear_arith)
        requires
            i + 1 <= sc,
            0 <= row_len(cc),
    ;
    assert(0 <= i * row_len(cc)) by (nonlinear_arith)
        requires
            0 <= i,
            0 <= row_len(cc),
    ;
}

/// An encodable batch is exactly `batch_len` bytes, within the payload limit.
pub proof fn lemma_batch_wire_len(v: TelemetryBatchView)
    ensures
        batch_to_wire(v) matches Ok(b) ==> b.len() <= MAX_PAYLOAD_LEN,
{
    if let Ok(cc) = batch_channel_count(v) {
        lemma_samples_wire(v.samples, cc as int);
    }
}

/// Each row of a uniform-width `samples_wire` stands at its row offset.
proof fn lemma_samples_wire(s: Seq<(u16, Seq<u32>)>, cc: int)
    requires
        0 <= cc,
        forall|i: int| 0 <= i < s.len() ==> #[trigger] s[i].1.len() == cc,
    ensures
        samples_wire(s).len() == s.len() * row_len(cc),
        forall|i: int|
            0 <= i < s.len() ==> #[trigger] samples_wire(s).subrange(
                i * row_len(cc),
                i * row_len(cc) + row_len(cc),
            ) == sample_wire(s[i]),
    decreases s.len(),
{
    if s.len() > 0 {
        let p = s.drop_last();
        lemma_samples_wire(p, cc);
        lemma_u32s_wire(s.last().1);
        let w = samples_wire(s);
        let n = s.len() - 1;
        lemma_row_offsets(n, n + 1, cc);
        assert(w.len() == s.len() * row_len(cc));
        assert forall|i: int| 0 <= i < s.len() implies #[trigger] w.subrange(
            i * row_len(cc),
            i * row_len(cc) + row_len(cc),
        ) == sample_wire(s[i]) by {
            if i < n {
                lemma_row_offsets(i, n, cc);
                assert(w.subrange(i * row_len(cc), i * row_len(cc) + row_len(cc))
                    =~= samples_wire(p).subrange(i * row_len(cc), i * row_len(cc) + row_len(cc)));
            } else {
                assert(w.subrange(i * row_len(cc), i * row_len(cc) + row_len(cc)) =~= sample_wire(
                    s.last(),
                ));
            }
        }
    }
}

impl TelemetryBatch {
    fn channel_count(&self) -> (r: Result<usize, ProtocolError>)
        ensures
            match r {
                Ok(cc) => batch_channel_count(self@) == Ok::<nat, ProtocolError>(cc as nat),
                Err(e) => batch_channel_count(self@) == Err::<nat, ProtocolError>(e),
            },
    {
        if self.samples.len() == 0 {
            return Err(ProtocolError::InvalidValue);
        }
        let channel_count = self.samples[0].values.len();
        if self.samples.len() > MAX_TELEMETRY_SAMPLES || channel_count == 0 || channel_count
            > MAX_TELEMETRY_CHANNELS || self.samples[0].dt_us != 0 {
            return Err(ProtocolError::InvalidValue);
        }
        let mut i: usize = 0;
        while i < self.samples.len()
            invariant
                i <= self.samples@.len(),
                channel_count == self.samples@[0].values@.len(),
                forall|k: int| 0 <= k < i ==> #[trigger] self.samples@[k].values@.len() == channel_count,
            decreases self.samples@.len() - i,
        {
            if self.samples[i].values.len() != channel_count {
                proof {
                    let sv = self@.samples;
                    assert(sv[i as int].1.len() != channel_count);
                }
                return Err(ProtocolError::InvalidValue);
            }
            i = i + 1;
        }
        proof {
            let sv = self@.samples;
            assert forall|k: int| 0 <= k < sv.len() implies #[trigger] sv[k].1.len()
                == channel_count by {
                assert(self.samples@[k].values@.len() == channel_count);
            }
        }
        Ok(channel_count)
    }

    /// The encoded size of `sample_count` rows of `channel_count` values;
    /// when the row width or the size does not fit in `usize` it is
    /// `InvalidLength`.
    pub fn encoded_len(sample_count: usize, channel_count: usize) -> (r: Result<usize, ProtocolError>)
        ensures
            encoded_len_fits(sample_count as int, channel_count as int) ==> r == Ok::<
                usize,
                ProtocolError,
            >(batch_len(sample_count as int, channel_count as int) as usize),
            !encoded_len_fits(sample_count as int, channel_count as int) ==> r == Err::<
                usize,
                ProtocolError,
            >(ProtocolError::InvalidLength),
    {
        let value_bytes = match channel_count.checked_mul(4) {
            Some(v) => v,
            None => return Err(ProtocolError::InvalidLength),
        };
        let row = match value_bytes.checked_add(2) {
            Some(v) => v,
            None => return Err(ProtocolError::InvalidLength),
        };
        let rows = match sample_count.checked_mul(row) {
            Some(v) => v,
            None => return Err(ProtocolError::InvalidLength),
        };
        match rows.checked_add(TELEMETRY_BATCH_PREFIX_LEN) {
            Some(v) => Ok(v),
            None => Err(ProtocolError::InvalidLength),
        }
    }
}

impl TelemetryBatch {
    /// The batch payload; see `batch_to_wire`.
    pub fn encode(&self) -> (r: Result<Vec<u8>, ProtocolError>)
        ensures
            match r {
                Ok(b) => batch_to_wire(self@) == Ok::<Seq<u8>, ProtocolError>(b@),
                Err(e) => batch_to_wire(self@) == Err::<Seq<u8>, ProtocolError>(e),
            },
    {
        let channel_count = self.channel_count()?;
        let ghost sv = self@.samples;
        proof {
            let sc = self.samples@.len() as int;
            assert(sc * row_len(channel_count as int) <= 16 * 34) by (nonlinear_arith)
                requires
                    0 <= sc <= 16,
                    0 <= channel_count <= 8,
            ;
        }
        let encoded_len = Self::encoded_len(self.samples.len(), channel_count)?;
        if encoded_len > MAX_PAYLOAD_LEN {
            return Err(ProtocolError::PayloadTooLarge(encoded_len));
        }
        let mut writer = WireWriter::new();
        writer.put_u16(self.subscription_version);
        writer.put_u16(self.first_sample_sequence);
        writer.put_u8(self.samples.len() as u8);
        writer.put_u8(channel_count as u8);
        writer.put_u16(self.dropped_samples);
        writer.put_u32(self.base_timestamp_us);
        let ghost head = writer@;
        proof {
            assert(head =~= batch_header(self@, channel_count as nat));
            assert(sv.take(0) =~= Seq::<(u16, Seq<u32>)>::empty());
        }
        let mut i: usize = 0;
        while i < self.samples.len()
            invariant
                i <= self.samples@.len(),
                sv == self@.samples,
                writer@ == head + samples_wire(sv.take(i as int)),
            decreases self.samples@.len() - i,
        {
            let sample = &self.samples[i];
            writer.put_u16(sample.dt_us);
            let ghost row_head = writer@;
            let mut j: usize = 0;
            while j < sample.values.len()
                invariant
                    j <= sample.values@.len(),
                    writer@ == row_head + u32s_wire(sample.values@.take(j as int)),
                decreases sample.values@.len() - j,
            {
                proof {
                    assert(sample.values@.take(j + 1).drop_last() =~= sample.values@.take(j as int));
                }
                writer.put_u32(sample.values[j]);
                proof {
                    assert(writer@ =~= row_head + u32s_wire(sample.values@.take(j + 1)));
                }
                j = j + 1;
            }
            proof {
                assert(sample.values@.take(j as int) =~= sample.values@);
                assert(sv[i as int] == sample@);
                assert(sv.take(i + 1).drop_last() =~= sv.take(i as int));
                assert(sv.take(i + 1).last() == sv[i as int]);
                assert(writer@ =~= head + samples_wire(sv.take(i + 1)));
            }
            i = i + 1;
        }
        proof {
            assert(sv.take(i as int) =~= sv);
        }
        Ok(writer.into_inner())
    }

    /// Decodes a batch whose rows must each hold `expected_channel_count`
    /// values; see `batch_from_wire`.
    pub fn decode(bytes: &[u8], expected_channel_count: usize) -> (r: Result<TelemetryBatch, ProtocolError>)
        ensures
            match r {
                Ok(v) => batch_from_wire(bytes@, expected_channel_count as int) == Ok::<
                    TelemetryBatchView,
                    ProtocolError,
                >(v@),
                Err(e) => batch_from_wire(bytes@, expected_channel_count as int) == Err::<
                    TelemetryBatchView,
                    ProtocolError,
                >(e),
            },
    {
        if bytes.len() > MAX_PAYLOAD_LEN {
            return Err(ProtocolError::PayloadTooLarge(bytes.len()));
        }
        if bytes.len() < TELEMETRY_BATCH_PREFIX_LEN {
            return Err(ProtocolError::Truncated);
        }
        let sample_count = bytes[4] as usize;
        let channel_count = bytes[5] as usize;
        if sample_count == 0 || sample_count > MAX_TELEMETRY_SAMPLES || channel_count == 0
            || channel_count > MAX_TELEMETRY_CHANNELS || channel_count != expected_channel_count {
            return Err(ProtocolError::InvalidValue);
        }
        proof {
            assert(sample_count * row_len(channel_count as int) <= 16 * 34) by (nonlinear_arith)
                requires
                    0 <= sample_count <= 16,
                    0 <= channel_count <= 8,
            ;
        }
        let expected_len = Self::encoded_len(sample_count, channel_count)?;
        if bytes.len() != expected_len {
            return Err(ProtocolError::InvalidLength);
        }
        let ghost b = bytes@;
        let ghost row = row_len(channel_count as int);
        let mut reader = WireReader::new(bytes);
        let subscription_version = reader.read_u16()?;
        let first_sample_sequence = reader.read_u16()?;
        let decoded_sample_count = reader.read_u8()? as usize;
        let decoded_channel_count = reader.read_u8()? as usize;
        let dropped_samples = reader.read_u16()?;
        let base_timestamp_us = reader.read_u32()?;
        let mut samples: Vec<TelemetrySample> = Vec::new();
        let mut index: usize = 0;
        while index < decoded_sample_count
            invariant
                decoded_sample_count == sample_count,
                decoded_channel_count == channel_count,
                1 <= sample_count <= 16,
                1 <= channel_count <= 8,
                b == bytes@,
                row == row_len(channel_count as int),
                b.len() == batch_len(sample_count as int, channel_count as int),
                index <= sample_count,
                reader.data() == b,
                reader.pos() == 12 + index * row,
                index > 0 ==> u16_at(b, 12) == 0,
                sample_count == b[4],
                channel_count == b[5],
                channel_count == expected_channel_count,
                12 <= b.len() <= MAX_PAYLOAD_LEN,
                samples@.map_values(|s: TelemetrySample| s@) == Seq::new(
                    index as nat,
                    |k: int| sample_at(b, channel_count as int, k),
                ),
            decreases sample_count - index,
        {
            proof {
                lemma_row_offsets(index as int, sample_count as int, channel_count as int);
            }
            proof {
                assert(0 * row == 0);
            }
            let dt_us = reader.read_u16()?;
            if index == 0 && dt_us != 0 {
                return Err(ProtocolError::InvalidValue);
            }
            let ghost base = 12 + index * row;
            let mut values: Vec<u32> = Vec::new();
            let mut j: usize = 0;
            while j < decoded_channel_count
                invariant
                    decoded_channel_count == channel_count,
                    1 <= channel_count <= 8,
                    reader.data() == b,
                    base + row <= b.len(),
                    base >= 0,
                    row == 2 + 4 * channel_count,
                    j <= channel_count,
                    reader.pos() == base + 2 + 4 * j,
                    values@ == Seq::new(j as nat, |m: int| u32_at(b, base + 2 + 4 * m)),
                decreases channel_count - j,
            {
                let v = reader.read_u32()?;
                values.push(v);
                proof {
                    assert(values@ =~= Seq::new((j + 1) as nat, |m: int| u32_at(b, base + 2 + 4 * m)));
                }
                j = j + 1;
            }
            let ghost prev = samples@.map_values(|s: TelemetrySample| s@);
            samples.push(TelemetrySample { dt_us, values });
            proof {
                assert(samples@.map_values(|s: TelemetrySample| s@) =~= prev.push(
                    sample_at(b, channel_count as int, index as int),
                ));
                assert(samples@.map_values(|s: TelemetrySample| s@) =~= Seq::new(
                    (index + 1) as nat,
                    |k: int| sample_at(b, channel_count as int, k),
                ));
            }
            index = index + 1;
        }
        reader.finish()?;
        Ok(
            TelemetryBatch {
                subscription_version,
                first_sample_sequence,
                dropped_samples,
                base_timestamp_us,
                samples,
            },
        )
    }
}

impl WireEncode for TelemetryBatch {
    open spec fn spec_wire_encode(v: TelemetryBatchView) -> Result<Seq<u8>, ProtocolError> {
        batch_to_wire(v)
    }

    fn encode(&self) -> (r: Result<Vec<u8>, ProtocolError>) {
        TelemetryBatch::encode(self)
    }
}

/// Every batch that encodes decodes back from its encoding, read with the
/// channel count of its first row.
pub proof fn lemma_batch_round_trip(v: TelemetryBatchView)
    requires
        batch_to_wire(v) is Ok,
    ensures
        batch_from_wire(batch_to_wire(v)->Ok_0, v.samples[0].1.len() as int) == Ok::<
            TelemetryBatchView,
            ProtocolError,
        >(v),
{
    let cc = v.samples[0].1.len() as int;
    let s = v.samples;
    let sc = s.len() as int;
    let w = batch_to_wire(v)->Ok_0;
    let h = batch_header(v, cc as nat);
    let sw = samples_wire(s);
    let row = row_len(cc);
    assert forall|i: int| 0 <= i < s.len() implies #[trigger] s[i].1.len() == cc by {
        if s[i].1.len() != cc {
            assert(batch_channel_count(v) is Err);
        }
    }
    lemma_samples_wire(s, cc);
    assert(w == h + sw);
    assert(h.len() == 12);
    assert(w.subrange(0, 2) =~= le16(v.subscription_version));
    assert(w.subrange(2, 4) =~= le16(v.first_sample_sequence));
    assert(w.subrange(6, 8) =~= le16(v.dropped_samples));
    assert(w.subrange(8, 12) =~= le32(v.base_timestamp_us));
    lemma_u16_at(w, 0, v.subscription_version);
    lemma_u16_at(w, 2, v.first_sample_sequence);
    lemma_u16_at(w, 6, v.dropped_samples);
    lemma_u32_at(w, 8, v.base_timestamp_us);
    assert(w[4] == sc);
    assert(w[5] == cc);
    let d = Seq::new(sc as nat, |i: int| sample_at(w, cc, i));
    assert forall|i: int| 0 <= i < sc implies d[i] == s[i] by {
        lemma_row_offsets(i, sc, cc);
        let off = i * row;
        assert(sw.subrange(off, off + row) == sample_wire(s[i]));
        lemma_u32s_wire(s[i].1);
        assert(w.subrange(12 + off, 12 + off + row) =~= sw.subrange(off, off + row));
        assert(w.subrange(12 + off, 12 + off + 2) =~= sample_wire(s[i]).subrange(0, 2));
        assert(sample_wire(s[i]).subrange(0, 2) =~= le16(s[i].0));
        lemma_u16_at(w, 12 + off, s[i].0);
        let vals = Seq::new(cc as nat, |j: int| u32_at(w, 12 + off + 2 + 4 * j));
        assert forall|j: int| 0 <= j < cc implies vals[j] == s[i].1[j] by {
            let uw = u32s_wire(s[i].1);
            let sw_i = sample_wire(s[i]);
            assert(uw.subrange(4 * j, 4 * j + 4) == le32(s[i].1[j]));
            assert(w.subrange(12 + off, 12 + off + row) =~= sw.subrange(off, off + row));
            assert(sw_i.subrange(2 + 4 * j, 2 + 4 * j + 4) =~= uw.subrange(4 * j, 4 * j + 4));
            assert(w.subrange(12 + off + 2 + 4 * j, 12 + off + 2 + 4 * j + 4) =~= w.subrange(
                12 + off,
                12 + off + row,
            ).subrange(2 + 4 * j, 2 + 4 * j + 4));
            assert(w.subrange(12 + off + 2 + 4 * j, 12 + off + 2 + 4 * j + 4) =~= uw.subrange(
                4 * j,
                4 * j + 4,
            ));
            lemma_u32_at(w, 12 + off + 2 + 4 * j, s[i].1[j]);
        }
        assert(vals =~= s[i].1);
    }
    assert(d =~= s);
    lemma_row_offsets(0, sc, cc);
    assert(u16_at(w, 12) == 0) by {
        assert(d[0] == s[0]);
    }
}

/// Each step of computing a batch size stays within `usize`.
pub open spec fn encoded_len_fits(sc: int, cc: int) -> bool {
    &&& 4 * cc <= usize::MAX
    &&& row_len(cc) <= usize::MAX
    &&& sc * row_len(cc) <= usize::MAX
    &&& batch_len(sc, cc) <= usize::MAX
}

} // verus!
