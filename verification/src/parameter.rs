//! Typed device parameters: values, reads, writes, states and commits.

use vstd::prelude::*;

use crate::bytes::{le16, le32, lemma_u16_at, lemma_u32_at, u16_at, u32_at};
use crate::checksum::{crc32_iso_hdlc, spec_crc32};
use crate::error::ProtocolError;
use crate::sorting::{
    keys_distinct, lemma_keys_distinct_permutation, lemma_sort_by_key_permutation, sort_by_key,
    sort_order,
};
use crate::wire::{rd_finish, rd_u32, rd_u8, WireDecode, WireEncode, WireReader, WireWriter};

verus! {

/// Longest machine-readable name, in bytes.
pub const MAX_MACHINE_NAME_LEN: usize = 48;
/// Longest display name, in bytes.
pub const MAX_DISPLAY_NAME_LEN: usize = 64;
/// Longest group name, in bytes.
pub const MAX_GROUP_LEN: usize = 32;
/// Longest unit name, in bytes.
pub const MAX_UNIT_LEN: usize = 16;
/// Most options an enumerated parameter may list.
pub const MAX_ENUM_OPTIONS: usize = 32;
/// Longest enum option label, in bytes.
pub const MAX_ENUM_LABEL_LEN: usize = 32;

/// The type of a parameter.
#[derive(Clone, Copy, Debug, PartialEq, Eq, Structural)]
pub enum ParamType {
    I32,
    U32,
    F32,
    Bool,
    Enum,
}

/// The wire code of a parameter type.
pub open spec fn param_type_code(t: ParamType) -> u8 {
    match t {
        ParamType::I32 => 1,
        ParamType::U32 => 2,
        ParamType::F32 => 3,
        ParamType::Bool => 4,
        ParamType::Enum => 5,
    }
}

/// The parameter type a wire code names; other codes are `InvalidValue`.
pub open spec fn param_type_from_code(v: u8) -> Result<ParamType, ProtocolError> {
    if v == 1 {
        Ok(ParamType::I32)
    } else if v == 2 {
        Ok(ParamType::U32)
    } else if v == 3 {
        Ok(ParamType::F32)
    } else if v == 4 {
        Ok(ParamType::Bool)
    } else if v == 5 {
        Ok(ParamType::Enum)
    } else {
        Err(ProtocolError::InvalidValue)
    }
}

impl ParamType {
    /// The wire code of this type.
    pub fn as_u8(self) -> (v: u8)
        ensures
            v == param_type_code(self),
    {
        match self {
            ParamType::I32 => 1,
            ParamType::U32 => 2,
            ParamType::F32 => 3,
            ParamType::Bool => 4,
            ParamType::Enum => 5,
        }
    }

    /// The type a wire code names; see `param_type_from_code`.
    pub fn try_from_u8(value: u8) -> (r: Result<ParamType, ProtocolError>)
        ensures
            r == param_type_from_code(value),
    {
        match value {
            1 => Ok(ParamType::I32),
            2 => Ok(ParamType::U32),
            3 => Ok(ParamType::F32),
            4 => Ok(ParamType::Bool),
            5 => Ok(ParamType::Enum),
            _ => Err(ProtocolError::InvalidValue),
        }
    }

    /// Whether two types are the same.
    pub fn same(self, other: ParamType) -> (b: bool)
        ensures
            b == (self == other),
    {
        self.as_u8() == other.as_u8()
    }
}

/// A typed parameter value. An `F32` value is held as its IEEE-754 bit
/// pattern, which is what travels on the wire, so signed zeros and NaN
/// payloads stay distinct.
#[derive(Clone, Copy, Debug, PartialEq, Eq, Structural)]
pub enum ParamValue {
    I32(i32),
    U32(u32),
    F32(u32),
    Bool(bool),
    Enum(i32),
}

/// The type of a value.
pub open spec fn value_type(v: ParamValue) -> ParamType {
    match v {
        ParamValue::I32(_) => ParamType::I32,
        ParamValue::U32(_) => ParamType::U32,
        ParamValue::F32(_) => ParamType::F32,
        ParamValue::Bool(_) => ParamType::Bool,
        ParamValue::Enum(_) => ParamType::Enum,
    }
}

/// The bytes of a value without its type: four little-endian bytes for the
/// 32-bit kinds (two's complement for signed ones), one byte 0 or 1 for a
/// boolean.
pub open spec fn value_bytes(v: ParamValue) -> Seq<u8> {
    match v {
        ParamValue::I32(x) => le32(x as u32),
        ParamValue::U32(x) => le32(x),
        ParamValue::F32(bits) => le32(bits),
        ParamValue::Bool(b) => seq![if b { 1u8 } else { 0u8 }],
        ParamValue::Enum(x) => le32(x as u32),
    }
}

/// A value with its type code in front.
pub open spec fn tagged_wire(v: ParamValue) -> Seq<u8> {
    seq![param_type_code(value_type(v))] + value_bytes(v)
}

/// Reads a tagged value at `o`: an unknown type is `InvalidValue`, short
/// data `Truncated`, and a boolean byte other than 0 or 1 `InvalidValue`.
pub open spec fn rd_tagged(b: Seq<u8>, o: int) -> Result<(ParamValue, int), ProtocolError> {
    match rd_u8(b, o) {
        Err(e) => Err(e),
        Ok((t, o1)) => match param_type_from_code(t) {
            Err(e) => Err(e),
            Ok(ty) => match ty {
                ParamType::Bool => match rd_u8(b, o1) {
                    Err(e) => Err(e),
                    Ok((x, o2)) => if x == 0 {
                        Ok((ParamValue::Bool(false), o2))
                    } else if x == 1 {
                        Ok((ParamValue::Bool(true), o2))
                    } else {
                        Err(ProtocolError::InvalidValue)
                    },
                },
                _ => match rd_u32(b, o1) {
                    Err(e) => Err(e),
                    Ok((x, o2)) => Ok(
                        (
                            match ty {
                                ParamType::I32 => ParamValue::I32(x as i32),
                                ParamType::U32 => ParamValue::U32(x),
                                ParamType::F32 => ParamValue::F32(x),
                                _ => ParamValue::Enum(x as i32),
                            },
                            o2,
                        ),
                    ),
                },
            },
        },
    }
}

/// A tagged value is read back from where it was written.
pub proof fn lemma_tagged_round_trip(b: Seq<u8>, o: int, v: ParamValue)
    requires
        0 <= o,
        o + tagged_wire(v).len() <= b.len(),
        b.subrange(o, o + tagged_wire(v).len()) == tagged_wire(v),
    ensures
        rd_tagged(b, o) == Ok::<(ParamValue, int), ProtocolError>((v, o + tagged_wire(v).len())),
{
    let t = tagged_wire(v);
    assert(b[o] == b.subrange(o, o + t.len())[0]);
    assert(t.subrange(1, t.len() as int) =~= value_bytes(v));
    assert(b.subrange(o + 1, o + t.len()) =~= b.subrange(o, o + t.len()).subrange(1, t.len() as int));
    match v {
        ParamValue::Bool(x) => {
            assert(b[o + 1] == t[1]);
        },
        ParamValue::I32(x) => {
            assert(b.subrange(o + 1, o + 5) =~= le32(x as u32));
            lemma_u32_at(b, o + 1, x as u32);
            assert((x as u32) as i32 == x) by (bit_vector);
        },
        ParamValue::Enum(x) => {
            assert(b.subrange(o + 1, o + 5) =~= le32(x as u32));
            lemma_u32_at(b, o + 1, x as u32);
            assert((x as u32) as i32 == x) by (bit_vector);
        },
        ParamValue::U32(x) => {
            assert(b.subrange(o + 1, o + 5) =~= le32(x));
            lemma_u32_at(b, o + 1, x);
        },
        ParamValue::F32(x) => {
            assert(b.subrange(o + 1, o + 5) =~= le32(x));
            lemma_u32_at(b, o + 1, x);
        },
    }
}

impl ParamValue {
    /// The type of this value.
    pub fn param_type(&self) -> (t: ParamType)
        ensures
            t == value_type(*self),
    {
        match self {
            ParamValue::I32(_) => ParamType::I32,
            ParamValue::U32(_) => ParamType::U32,
            ParamValue::F32(_) => ParamType::F32,
            ParamValue::Bool(_) => ParamType::Bool,
            ParamValue::Enum(_) => ParamType::Enum,
        }
    }

    /// Whether two values are the same on the wire: the same type and the
    /// same bits (so `-0.0` and `0.0`, or two NaN payloads, differ).
    pub fn wire_eq(&self, other: &ParamValue) -> (b: bool)
        ensures
            b == (value_bytes(*self) == value_bytes(*other) && value_type(*self) == value_type(
                *other,
            )),
    {
        proof {
            lemma_value_bytes_injective(*self, *other);
        }
        match (self, other) {
            (ParamValue::I32(a), ParamValue::I32(b)) => *a == *b,
            (ParamValue::U32(a), ParamValue::U32(b)) => *a == *b,
            (ParamValue::F32(a), ParamValue::F32(b)) => *a == *b,
            (ParamValue::Bool(a), ParamValue::Bool(b)) => *a == *b,
            (ParamValue::Enum(a), ParamValue::Enum(b)) => *a == *b,
            _ => false,
        }
    }

    /// Appends the value's bytes without its type (the canonical form used
    /// for parameter-set CRCs).
    pub fn encode_canonical(&self, out: &mut Vec<u8>)
        ensures
            final(out)@ == old(out)@ + value_bytes(*self),
    {
        match self {
            ParamValue::I32(value) => crate::bytes::push_le32(out, *value as u32),
            ParamValue::Enum(value) => crate::bytes::push_le32(out, *value as u32),
            ParamValue::U32(value) => crate::bytes::push_le32(out, *value),
            ParamValue::F32(bits) => crate::bytes::push_le32(out, *bits),
            ParamValue::Bool(value) => {
                out.push(if *value { 1u8 } else { 0u8 });
                proof {
                    assert(out@ =~= old(out)@ + value_bytes(*self));
                }
            },
        }
    }

    /// Writes the value with its type code in front.
    pub fn encode_tagged(&self, writer: &mut WireWriter)
        ensures
            final(writer)@ == old(writer)@ + tagged_wire(*self),
    {
        writer.put_u8(self.param_type().as_u8());
        match self {
            ParamValue::I32(value) => writer.put_u32(*value as u32),
            ParamValue::Enum(value) => writer.put_u32(*value as u32),
            ParamValue::U32(value) => writer.put_u32(*value),
            ParamValue::F32(bits) => writer.put_u32(*bits),
            ParamValue::Bool(value) => writer.put_u8(if *value { 1u8 } else { 0u8 }),
        }
        proof {
            assert(writer@ =~= old(writer)@ + tagged_wire(*self));
        }
    }

    /// Reads a tagged value; see `rd_tagged`.
    pub fn decode_tagged(reader: &mut WireReader) -> (r: Result<ParamValue, ProtocolError>)
        ensures
            final(reader).data() == old(reader).data(),
            match r {
                Ok(v) => rd_tagged(old(reader).data(), old(reader).pos()) == Ok::<
                    (ParamValue, int),
                    ProtocolError,
                >((v, final(reader).pos())),
                Err(e) => rd_tagged(old(reader).data(), old(reader).pos()) == Err::<
                    (ParamValue, int),
                    ProtocolError,
                >(e),
            },
    {
        let ty = ParamType::try_from_u8(reader.read_u8()?)?;
        match ty {
            ParamType::I32 => Ok(ParamValue::I32(reader.read_u32()? as i32)),
            ParamType::U32 => Ok(ParamValue::U32(reader.read_u32()?)),
            ParamType::F32 => Ok(ParamValue::F32(reader.read_u32()?)),
            ParamType::Bool => {
                let x = reader.read_u8()?;
                if x == 0 {
                    Ok(ParamValue::Bool(false))
                } else if x == 1 {
                    Ok(ParamValue::Bool(true))
                } else {
                    Err(ProtocolError::InvalidValue)
                }
            },
            ParamType::Enum => Ok(ParamValue::Enum(reader.read_u32()? as i32)),
        }
    }

    /// Length of the tagged form: 2 for a boolean, 5 otherwise.
    pub fn encoded_tagged_len(&self) -> (n: usize)
        ensures
            n == tagged_wire(*self).len(),
    {
        match self {
            ParamValue::Bool(_) => 2,
            _ => 5,
        }
    }
}

/// Two values with the same type and bytes are the same value.
pub proof fn lemma_value_bytes_injective(a: ParamValue, b: ParamValue)
    ensures
        (value_bytes(a) == value_bytes(b) && value_type(a) == value_type(b)) <==> a == b,
{
    if value_bytes(a) == value_bytes(b) && value_type(a) == value_type(b) {
        match (a, b) {
            (ParamValue::I32(x), ParamValue::I32(y)) => {
                crate::bytes::lemma_le32_round_trip(x as u32);
                crate::bytes::lemma_le32_round_trip(y as u32);
                assert((x as u32) as i32 == x) by (bit_vector);
                assert((y as u32) as i32 == y) by (bit_vector);
            },
            (ParamValue::Enum(x), ParamValue::Enum(y)) => {
                crate::bytes::lemma_le32_round_trip(x as u32);
                crate::bytes::lemma_le32_round_trip(y as u32);
                assert((x as u32) as i32 == x) by (bit_vector);
                assert((y as u32) as i32 == y) by (bit_vector);
            },
            (ParamValue::U32(x), ParamValue::U32(y)) => {
                crate::bytes::lemma_le32_round_trip(x);
                crate::bytes::lemma_le32_round_trip(y);
            },
            (ParamValue::F32(x), ParamValue::F32(y)) => {
                crate::bytes::lemma_le32_round_trip(x);
                crate::bytes::lemma_le32_round_trip(y);
            },
            (ParamValue::Bool(x), ParamValue::Bool(y)) => {
                assert(value_bytes(a)[0] == value_bytes(b)[0]);
            },
            _ => {},
        }
    }
}

} // verus!

verus! {

/// The flag bits of a parameter.
#[derive(Clone, Copy, Debug, PartialEq, Eq, Structural)]
pub struct ParamFlags(pub u8);

impl ParamFlags {
    /// No flag set.
    pub fn none() -> (f: ParamFlags)
        ensures
            f.0 == 0,
    {
        ParamFlags(0)
    }

    /// The host may write the parameter (bit 0).
    pub fn writable() -> (f: ParamFlags)
        ensures
            f.0 == 1,
    {
        ParamFlags(1)
    }

    /// The parameter can be committed to persistent storage (bit 1).
    pub fn persistent() -> (f: ParamFlags)
        ensures
            f.0 == 2,
    {
        ParamFlags(2)
    }

    /// Changing the parameter can move the vehicle (bit 2).
    pub fn dangerous() -> (f: ParamFlags)
        ensures
            f.0 == 4,
    {
        ParamFlags(4)
    }

    /// Flags from a raw byte; every pattern is kept as it is.
    pub fn from_bits(bits: u8) -> (f: ParamFlags)
        ensures
            f.0 == bits,
    {
        ParamFlags(bits)
    }

    /// The raw byte.
    pub fn bits(self) -> (b: u8)
        ensures
            b == self.0,
    {
        self.0
    }
}

impl core::ops::BitOr for ParamFlags {
    type Output = ParamFlags;

    fn bitor(self, rhs: ParamFlags) -> (r: ParamFlags)
        ensures
            r.0 == self.0 | rhs.0,
    {
        ParamFlags(self.0 | rhs.0)
    }
}

impl vstd::std_specs::ops::BitOrSpecImpl for ParamFlags {
    open spec fn obeys_bitor_spec() -> bool {
        true
    }

    open spec fn bitor_req(self, rhs: ParamFlags) -> bool {
        true
    }

    open spec fn bitor_spec(self, rhs: ParamFlags) -> ParamFlags {
        ParamFlags(self.0 | rhs.0)
    }
}

/// A request for a parameter's current state.
#[derive(Clone, Copy, Debug, PartialEq, Eq, Structural)]
pub struct ParamRead {
    pub param_id: u32,
}

impl View for ParamRead {
    type V = ParamRead;

    open spec fn view(&self) -> ParamRead {
        *self
    }
}

/// Fewer than four bytes are `Truncated`, more are `InvalidLength`.
pub open spec fn param_read_from_wire(b: Seq<u8>) -> Result<ParamRead, ProtocolError> {
    if b.len() < 4 {
        Err(ProtocolError::Truncated)
    } else if b.len() > 4 {
        Err(ProtocolError::InvalidLength)
    } else {
        Ok(ParamRead { param_id: u32_at(b, 0) })
    }
}

impl WireEncode for ParamRead {
    open spec fn spec_wire_encode(v: ParamRead) -> Result<Seq<u8>, ProtocolError> {
        Ok(le32(v.param_id))
    }

    fn encode(&self) -> (r: Result<Vec<u8>, ProtocolError>) {
        let mut writer = WireWriter::new();
        writer.put_u32(self.param_id);
        proof {
            assert(writer@ =~= le32(self.param_id));
        }
        Ok(writer.into_inner())
    }
}

impl WireDecode for ParamRead {
    open spec fn spec_wire_decode(b: Seq<u8>) -> Result<ParamRead, ProtocolError> {
        param_read_from_wire(b)
    }

    fn decode(bytes: &[u8]) -> (r: Result<ParamRead, ProtocolError>) {
        let mut reader = WireReader::new(bytes);
        let param_id = reader.read_u32()?;
        reader.finish()?;
        Ok(ParamRead { param_id })
    }
}

/// Every read request decodes back from its encoding.
pub proof fn lemma_param_read_round_trip(v: ParamRead)
    ensures
        param_read_from_wire(le32(v.param_id)) == Ok::<ParamRead, ProtocolError>(v),
{
    let b = le32(v.param_id);
    assert(b.subrange(0, 4) =~= b);
    lemma_u32_at(b, 0, v.param_id);
}

/// A write of `value` that only applies if the parameter is still at
/// `expected_revision`.
#[derive(Clone, Copy, Debug, PartialEq, Eq, Structural)]
pub struct ParamWrite {
    pub param_id: u32,
    pub expected_revision: u32,
    pub value: ParamValue,
}

impl View for ParamWrite {
    type V = ParamWrite;

    open spec fn view(&self) -> ParamWrite {
        *self
    }
}

/// A write on the wire: id, expected revision, tagged value.
pub open spec fn param_write_wire(v: ParamWrite) -> Seq<u8> {
    le32(v.param_id) + le32(v.expected_revision) + tagged_wire(v.value)
}

/// Fields in order: id, expected revision, tagged value.
pub open spec fn param_write_from_wire(b: Seq<u8>) -> Result<ParamWrite, ProtocolError> {
    match rd_u32(b, 0) {
        Err(e) => Err(e),
        Ok((param_id, o1)) => match rd_u32(b, o1) {
            Err(e) => Err(e),
            Ok((expected_revision, o2)) => match rd_tagged(b, o2) {
                Err(e) => Err(e),
                Ok((value, o3)) => match rd_finish(b, o3) {
                    Err(e) => Err(e),
                    Ok(_) => Ok(ParamWrite { param_id, expected_revision, value }),
                },
            },
        },
    }
}

impl WireEncode for ParamWrite {
    open spec fn spec_wire_encode(v: ParamWrite) -> Result<Seq<u8>, ProtocolError> {
        Ok(param_write_wire(v))
    }

    fn encode(&self) -> (r: Result<Vec<u8>, ProtocolError>) {
        let mut writer = WireWriter::new();
        writer.put_u32(self.param_id);
        writer.put_u32(self.expected_revision);
        self.value.encode_tagged(&mut writer);
        proof {
            assert(writer@ =~= param_write_wire(*self));
        }
        Ok(writer.into_inner())
    }
}

impl WireDecode for ParamWrite {
    open spec fn spec_wire_decode(b: Seq<u8>) -> Result<ParamWrite, ProtocolError> {
        param_write_from_wire(b)
    }

    fn decode(bytes: &[u8]) -> (r: Result<ParamWrite, ProtocolError>) {
        let mut reader = WireReader::new(bytes);
        let param_id = reader.read_u32()?;
        let expected_revision = reader.read_u32()?;
        let value = ParamValue::decode_tagged(&mut reader)?;
        reader.finish()?;
        Ok(ParamWrite { param_id, expected_revision, value })
    }
}

/// Every write decodes back from its encoding.
pub proof fn lemma_param_write_round_trip(v: ParamWrite)
    ensures
        param_write_from_wire(param_write_wire(v)) == Ok::<ParamWrite, ProtocolError>(v),
{
    let b = param_write_wire(v);
    let n = tagged_wire(v.value).len() as int;
    assert(b.subrange(0, 4) =~= le32(v.param_id));
    assert(b.subrange(4, 8) =~= le32(v.expected_revision));
    assert(b.subrange(8, 8 + n) =~= tagged_wire(v.value));
    lemma_u32_at(b, 0, v.param_id);
    lemma_u32_at(b, 4, v.expected_revision);
    lemma_tagged_round_trip(b, 8, v.value);
}

/// The device's acceptance of a write: the stored value and its new revision.
#[derive(Clone, Copy, Debug, PartialEq, Eq, Structural)]
pub struct ParamWriteAck {
    pub value: ParamValue,
    pub new_revision: u32,
}

impl View for ParamWriteAck {
    type V = ParamWriteAck;

    open spec fn view(&self) -> ParamWriteAck {
        *self
    }
}

/// An acknowledgement on the wire: tagged value, new revision.
pub open spec fn param_write_ack_wire(v: ParamWriteAck) -> Seq<u8> {
    tagged_wire(v.value) + le32(v.new_revision)
}

/// Fields in order: tagged value, new revision.
pub open spec fn param_write_ack_from_wire(b: Seq<u8>) -> Result<ParamWriteAck, ProtocolError> {
    match rd_tagged(b, 0) {
        Err(e) => Err(e),
        Ok((value, o1)) => match rd_u32(b, o1) {
            Err(e) => Err(e),
            Ok((new_revision, o2)) => match rd_finish(b, o2) {
                Err(e) => Err(e),
                Ok(_) => Ok(ParamWriteAck { value, new_revision }),
            },
        },
    }
}

impl WireEncode for ParamWriteAck {
    open spec fn spec_wire_encode(v: ParamWriteAck) -> Result<Seq<u8>, ProtocolError> {
        Ok(param_write_ack_wire(v))
    }

    fn encode(&self) -> (r: Result<Vec<u8>, ProtocolError>) {
        let mut writer = WireWriter::new();
        self.value.encode_tagged(&mut writer);
        writer.put_u32(self.new_revision);
        proof {
            assert(writer@ =~= param_write_ack_wire(*self));
        }
        Ok(writer.into_inner())
    }
}

impl WireDecode for ParamWriteAck {
    open spec fn spec_wire_decode(b: Seq<u8>) -> Result<ParamWriteAck, ProtocolError> {
        param_write_ack_from_wire(b)
    }

    fn decode(bytes: &[u8]) -> (r: Result<ParamWriteAck, ProtocolError>) {
        let mut reader = WireReader::new(bytes);
        let value = ParamValue::decode_tagged(&mut reader)?;
        let new_revision = reader.read_u32()?;
        reader.finish()?;
        Ok(ParamWriteAck { value, new_revision })
    }
}

/// Every acknowledgement decodes back from its encoding.
pub proof fn lemma_param_write_ack_round_trip(v: ParamWriteAck)
    ensures
        param_write_ack_from_wire(param_write_ack_wire(v)) == Ok::<ParamWriteAck, ProtocolError>(v),
{
    let b = param_write_ack_wire(v);
    let n = tagged_wire(v.value).len() as int;
    assert(b.subrange(0, n) =~= tagged_wire(v.value));
    assert(b.subrange(n, n + 4) =~= le32(v.new_revision));
    lemma_tagged_round_trip(b, 0, v.value);
    lemma_u32_at(b, n, v.new_revision);
}

/// A parameter's state: its value in RAM, its revision, and the value held
/// in persistent storage when the parameter has one.
#[derive(Clone, Copy, Debug, PartialEq, Eq, Structural)]
pub struct ParamState {
    pub param_id: u32,
    pub revision: u32,
    pub value: ParamValue,
    pub persisted_value: Option<ParamValue>,
}

impl View for ParamState {
    type V = ParamState;

    open spec fn view(&self) -> ParamState {
        *self
    }
}

/// A state on the wire: id, revision, tagged RAM value, then a marker byte 0
/// with nothing after it, or 1 followed by the tagged persisted value.
pub open spec fn param_state_wire(v: ParamState) -> Seq<u8> {
    le32(v.param_id) + le32(v.revision) + tagged_wire(v.value) + match v.persisted_value {
        None => seq![0u8],
        Some(p) => seq![1u8] + tagged_wire(p),
    }
}

/// Fields in order; a marker other than 0 or 1, or a persisted value of
/// another type than the RAM value, is `InvalidValue`.
pub open spec fn param_state_from_wire(b: Seq<u8>) -> Result<ParamState, ProtocolError> {
    match rd_u32(b, 0) {
        Err(e) => Err(e),
        Ok((param_id, o1)) => match rd_u32(b, o1) {
            Err(e) => Err(e),
            Ok((revision, o2)) => match rd_tagged(b, o2) {
                Err(e) => Err(e),
                Ok((value, o3)) => match rd_u8(b, o3) {
                    Err(e) => Err(e),
                    Ok((marker, o4)) => if marker == 0 {
                        match rd_finish(b, o4) {
                            Err(e) => Err(e),
                            Ok(_) => Ok(ParamState { param_id, revision, value, persisted_value: None }),
                        }
                    } else if marker == 1 {
                        match rd_tagged(b, o4) {
                            Err(e) => Err(e),
                            Ok((p, o5)) => if value_type(p) != value_type(value) {
                                Err(ProtocolError::InvalidValue)
                            } else {
                                match rd_finish(b, o5) {
                                    Err(e) => Err(e),
                                    Ok(_) => Ok(
                                        ParamState {
                                            param_id,
                                            revision,
                                            value,
                                            persisted_value: Some(p),
                                        },
                                    ),
                                }
                            },
                        }
                    } else {
                        Err(ProtocolError::InvalidValue)
                    },
                },
            },
        },
    }
}

impl WireEncode for ParamState {
    open spec fn spec_wire_encode(v: ParamState) -> Result<Seq<u8>, ProtocolError> {
        Ok(param_state_wire(v))
    }

    fn encode(&self) -> (r: Result<Vec<u8>, ProtocolError>) {
        let mut writer = WireWriter::new();
        writer.put_u32(self.param_id);
        writer.put_u32(self.revision);
        self.value.encode_tagged(&mut writer);
        match &self.persisted_value {
            None => writer.put_u8(0),
            Some(p) => {
                writer.put_u8(1);
                p.encode_tagged(&mut writer);
            },
        }
        proof {
            assert(writer@ =~= param_state_wire(*self));
        }
        Ok(writer.into_inner())
    }
}

impl WireDecode for ParamState {
    open spec fn spec_wire_decode(b: Seq<u8>) -> Result<ParamState, ProtocolError> {
        param_state_from_wire(b)
    }

    fn decode(bytes: &[u8]) -> (r: Result<ParamState, ProtocolError>) {
        let mut reader = WireReader::new(bytes);
        let param_id = reader.read_u32()?;
        let revision = reader.read_u32()?;
        let value = ParamValue::decode_tagged(&mut reader)?;
        let marker = reader.read_u8()?;
        let persisted_value = if marker == 0 {
            None
        } else if marker == 1 {
            let p = ParamValue::decode_tagged(&mut reader)?;
            if !p.param_type().same(value.param_type()) {
                return Err(ProtocolError::InvalidValue);
            }
            Some(p)
        } else {
            return Err(ProtocolError::InvalidValue);
        };
        reader.finish()?;
        Ok(ParamState { param_id, revision, value, persisted_value })
    }
}

/// Every state whose persisted value (if any) has the RAM value's type
/// decodes back from its encoding.
pub proof fn lemma_param_state_round_trip(v: ParamState)
    requires
        v.persisted_value matches Some(p) ==> value_type(p) == value_type(v.value),
    ensures
        param_state_from_wire(param_state_wire(v)) == Ok::<ParamState, ProtocolError>(v),
{
    let b = param_state_wire(v);
    let n = tagged_wire(v.value).len() as int;
    assert(b.subrange(0, 4) =~= le32(v.param_id));
    assert(b.subrange(4, 8) =~= le32(v.revision));
    assert(b.subrange(8, 8 + n) =~= tagged_wire(v.value));
    lemma_u32_at(b, 0, v.param_id);
    lemma_u32_at(b, 4, v.revision);
    lemma_tagged_round_trip(b, 8, v.value);
    match v.persisted_value {
        None => {
            assert(b.len() == 9 + n);
            assert(b[8 + n] == 0);
        },
        Some(p) => {
            let m = tagged_wire(p).len() as int;
            assert(b[8 + n] == 1);
            assert(b.subrange(9 + n, 9 + n + m) =~= tagged_wire(p));
            lemma_tagged_round_trip(b, 9 + n, p);
            assert(b.len() == 9 + n + m);
        },
    }
}

/// One parameter of a commit, at the revision the host saw.
#[derive(Clone, Copy, Debug, PartialEq, Eq, Structural)]
pub struct ParamCommitEntry {
    pub param_id: u32,
    pub revision: u32,
}

/// A request to persist parameters, with the CRC of their canonical values.
#[derive(Clone, Debug, PartialEq, Eq)]
pub struct ParamCommit {
    pub entries: Vec<ParamCommitEntry>,
    pub canonical_crc32: u32,
}

/// A `ParamCommit` with its entries as a sequence.
pub struct ParamCommitView {
    pub entries: Seq<ParamCommitEntry>,
    pub canonical_crc32: u32,
}

impl View for ParamCommit {
    type V = ParamCommitView;

    open spec fn view(&self) -> ParamCommitView {
        ParamCommitView { entries: self.entries@, canonical_crc32: self.canonical_crc32 }
    }
}

/// Parameter ids strictly increase along the entries.
pub open spec fn entries_strictly_sorted(s: Seq<ParamCommitEntry>) -> bool {
    forall|i: int, j: int| 0 <= i < j < s.len() ==> s[i].param_id < s[j].param_id
}

/// The entries on the wire, eight bytes each.
pub open spec fn commit_entries_wire(s: Seq<ParamCommitEntry>) -> Seq<u8>
    decreases s.len(),
{
    if s.len() == 0 {
        Seq::empty()
    } else {
        commit_entries_wire(s.drop_last()) + le32(s.last().param_id) + le32(s.last().revision)
    }
}

/// A commit on the wire: count, entries, CRC. More than 65535 entries or
/// entries not strictly sorted by id are `InvalidValue`.
pub open spec fn param_commit_to_wire(v: ParamCommitView) -> Result<Seq<u8>, ProtocolError> {
    if v.entries.len() > 0xFFFF || !entries_strictly_sorted(v.entries) {
        Err(ProtocolError::InvalidValue)
    } else {
        Ok(le16(v.entries.len() as u16) + commit_entries_wire(v.entries) + le32(v.canonical_crc32))
    }
}

/// Fewer than two bytes are `Truncated`; a length other than the count
/// implies is `InvalidLength`; unsorted entries are `InvalidValue`.
pub open spec fn param_commit_from_wire(b: Seq<u8>) -> Result<ParamCommitView, ProtocolError> {
    if b.len() < 2 {
        Err(ProtocolError::Truncated)
    } else if b.len() != 2 + 8 * u16_at(b, 0) + 4 {
        Err(ProtocolError::InvalidLength)
    } else {
        let entries = Seq::new(
            u16_at(b, 0) as nat,
            |i: int| ParamCommitEntry { param_id: u32_at(b, 2 + 8 * i), revision: u32_at(b, 6 + 8 * i) },
        );
        if !entries_strictly_sorted(entries) {
            Err(ProtocolError::InvalidValue)
        } else {
            Ok(ParamCommitView { entries, canonical_crc32: u32_at(b, 2 + 8 * u16_at(b, 0)) })
        }
    }
}

/// Each entry of `commit_entries_wire` stands at eight times its index.
pub proof fn lemma_commit_entries_wire(s: Seq<ParamCommitEntry>)
    ensures
        commit_entries_wire(s).len() == 8 * s.len(),
        forall|i: int|
            0 <= i < s.len() ==> #[trigger] commit_entries_wire(s).subrange(8 * i, 8 * i + 8) == le32(
                s[i].param_id,
            ) + le32(s[i].revision),
    decreases s.len(),
{
    if s.len() > 0 {
        lemma_commit_entries_wire(s.drop_last());
        let w = commit_entries_wire(s);
        let p = commit_entries_wire(s.drop_last());
        assert forall|i: int| 0 <= i < s.len() implies #[trigger] w.subrange(8 * i, 8 * i + 8)
            == le32(s[i].param_id) + le32(s[i].revision) by {
            if i < s.len() - 1 {
                assert(w.subrange(8 * i, 8 * i + 8) =~= p.subrange(8 * i, 8 * i + 8));
            } else {
                assert(w.subrange(8 * i, 8 * i + 8) =~= le32(s.last().param_id) + le32(
                    s.last().revision,
                ));
            }
        }
    }
}

impl ParamCommit {
    fn entries_are_strictly_sorted(entries: &[ParamCommitEntry]) -> (b: bool)
        ensures
            b == entries_strictly_sorted(entries@),
    {
        let mut i: usize = 1;
        if entries.len() == 0 {
            return true;
        }
        while i < entries.len()
            invariant
                1 <= i <= entries@.len(),
                entries_strictly_sorted(entries@.take(i as int)),
            decreases entries@.len() - i,
        {
            if entries[i - 1].param_id >= entries[i].param_id {
                return false;
            }
            proof {
                let t = entries@.take(i + 1);
                assert forall|a: int, c: int| 0 <= a < c < t.len() implies t[a].param_id
                    < t[c].param_id by {
                    if c < i {
                        assert(entries@.take(i as int)[a] == t[a]);
                        assert(entries@.take(i as int)[c] == t[c]);
                    } else if a < i - 1 {
                        assert(entries@.take(i as int)[a] == t[a]);
                        assert(entries@.take(i as int)[i - 1] == t[i - 1]);
                    }
                }
            }
            i = i + 1;
        }
        proof {
            assert(entries@.take(i as int) =~= entries@);
        }
        true
    }
}

impl WireEncode for ParamCommit {
    open spec fn spec_wire_encode(v: ParamCommitView) -> Result<Seq<u8>, ProtocolError> {
        param_commit_to_wire(v)
    }

    fn encode(&self) -> (r: Result<Vec<u8>, ProtocolError>) {
        if self.entries.len() > 0xFFFF || !Self::entries_are_strictly_sorted(self.entries.as_slice()) {
            return Err(ProtocolError::InvalidValue);
        }
        let mut writer = WireWriter::new();
        writer.put_u16(self.entries.len() as u16);
        let ghost head = writer@;
        let ghost s = self.entries@;
        let mut i: usize = 0;
        while i < self.entries.len()
            invariant
                i <= s.len(),
                s == self.entries@,
                writer@ == head + commit_entries_wire(s.take(i as int)),
            decreases s.len() - i,
        {
            proof {
                assert(s.take(i + 1).drop_last() =~= s.take(i as int));
            }
            writer.put_u32(self.entries[i].param_id);
            writer.put_u32(self.entries[i].revision);
            proof {
                assert(writer@ =~= head + commit_entries_wire(s.take(i + 1)));
            }
            i = i + 1;
        }
        writer.put_u32(self.canonical_crc32);
        proof {
            assert(s.take(i as int) =~= s);
            assert(writer@ =~= param_commit_to_wire(self@)->Ok_0);
        }
        Ok(writer.into_inner())
    }
}

impl WireDecode for ParamCommit {
    open spec fn spec_wire_decode(b: Seq<u8>) -> Result<ParamCommitView, ProtocolError> {
        param_commit_from_wire(b)
    }

    fn decode(bytes: &[u8]) -> (r: Result<ParamCommit, ProtocolError>) {
        let ghost b = bytes@;
        let mut reader = WireReader::new(bytes);
        let count = reader.read_u16()? as usize;
        let expected_len = 2 + 8 * count + 4;
        if bytes.len() != expected_len {
            return Err(ProtocolError::InvalidLength);
        }
        let mut entries: Vec<ParamCommitEntry> = Vec::new();
        let mut i: usize = 0;
        while i < count
            invariant
                count == u16_at(b, 0),
                b == bytes@,
                b.len() == 2 + 8 * count + 4,
                i <= count,
                reader.data() == b,
                reader.pos() == 2 + 8 * i,
                entries@ == Seq::new(
                    i as nat,
                    |k: int| ParamCommitEntry { param_id: u32_at(b, 2 + 8 * k), revision: u32_at(b, 6 + 8 * k) },
                ),
            decreases count - i,
        {
            let param_id = reader.read_u32()?;
            let revision = reader.read_u32()?;
            entries.push(ParamCommitEntry { param_id, revision });
            proof {
                assert(entries@ =~= Seq::new(
                    (i + 1) as nat,
                    |k: int| ParamCommitEntry { param_id: u32_at(b, 2 + 8 * k), revision: u32_at(b, 6 + 8 * k) },
                ));
            }
            i = i + 1;
        }
        let canonical_crc32 = reader.read_u32()?;
        reader.finish()?;
        if !Self::entries_are_strictly_sorted(entries.as_slice()) {
            return Err(ProtocolError::InvalidValue);
        }
        Ok(ParamCommit { entries, canonical_crc32 })
    }
}

/// Every commit that encodes decodes back from its encoding.
pub proof fn lemma_param_commit_round_trip(v: ParamCommitView)
    requires
        param_commit_to_wire(v) is Ok,
    ensures
        param_commit_from_wire(param_commit_to_wire(v)->Ok_0) == Ok::<ParamCommitView, ProtocolError>(
            v,
        ),
{
    let b = param_commit_to_wire(v)->Ok_0;
    let s = v.entries;
    let n = s.len() as int;
    lemma_commit_entries_wire(s);
    assert(b.subrange(0, 2) =~= le16(n as u16));
    lemma_u16_at(b, 0, n as u16);
    let w = commit_entries_wire(s);
    assert(b.subrange(2, 2 + 8 * n) =~= w);
    assert(b.subrange(2 + 8 * n, 6 + 8 * n) =~= le32(v.canonical_crc32));
    lemma_u32_at(b, 2 + 8 * n, v.canonical_crc32);
    let d = Seq::new(
        n as nat,
        |i: int| ParamCommitEntry { param_id: u32_at(b, 2 + 8 * i), revision: u32_at(b, 6 + 8 * i) },
    );
    assert forall|i: int| 0 <= i < n implies d[i] == s[i] by {
        let e = w.subrange(8 * i, 8 * i + 8);
        assert(e == le32(s[i].param_id) + le32(s[i].revision));
        assert(b.subrange(2 + 8 * i, 10 + 8 * i) =~= e);
        assert(e.subrange(0, 4) =~= le32(s[i].param_id));
        assert(e.subrange(4, 8) =~= le32(s[i].revision));
        assert(b.subrange(2 + 8 * i, 6 + 8 * i) =~= b.subrange(2 + 8 * i, 10 + 8 * i).subrange(0, 4));
        assert(b.subrange(6 + 8 * i, 10 + 8 * i) =~= b.subrange(2 + 8 * i, 10 + 8 * i).subrange(4, 8));
        assert(b.subrange(2 + 8 * i, 6 + 8 * i) =~= le32(s[i].param_id));
        assert(b.subrange(6 + 8 * i, 10 + 8 * i) =~= le32(s[i].revision));
        lemma_u32_at(b, 2 + 8 * i, s[i].param_id);
        lemma_u32_at(b, 6 + 8 * i, s[i].revision);
    }
    assert(d =~= s);
}

/// The device's confirmation of a commit: the CRC it checked and the storage
/// generation the commit produced.
#[derive(Clone, Copy, Debug, PartialEq, Eq, Structural)]
pub struct ParamCommitAck {
    pub canonical_crc32: u32,
    pub storage_generation: u32,
}

impl View for ParamCommitAck {
    type V = ParamCommitAck;

    open spec fn view(&self) -> ParamCommitAck {
        *self
    }
}

/// Fewer than eight bytes are `Truncated`, more are `InvalidLength`.
pub open spec fn param_commit_ack_from_wire(b: Seq<u8>) -> Result<ParamCommitAck, ProtocolError> {
    if b.len() < 8 {
        Err(ProtocolError::Truncated)
    } else if b.len() > 8 {
        Err(ProtocolError::InvalidLength)
    } else {
        Ok(ParamCommitAck { canonical_crc32: u32_at(b, 0), storage_generation: u32_at(b, 4) })
    }
}

impl WireEncode for ParamCommitAck {
    open spec fn spec_wire_encode(v: ParamCommitAck) -> Result<Seq<u8>, ProtocolError> {
        Ok(le32(v.canonical_crc32) + le32(v.storage_generation))
    }

    fn encode(&self) -> (r: Result<Vec<u8>, ProtocolError>) {
        let mut writer = WireWriter::new();
        writer.put_u32(self.canonical_crc32);
        writer.put_u32(self.storage_generation);
        proof {
            assert(writer@ =~= le32(self.canonical_crc32) + le32(self.storage_generation));
        }
        Ok(writer.into_inner())
    }
}

impl WireDecode for ParamCommitAck {
    open spec fn spec_wire_decode(b: Seq<u8>) -> Result<ParamCommitAck, ProtocolError> {
        param_commit_ack_from_wire(b)
    }

    fn decode(bytes: &[u8]) -> (r: Result<ParamCommitAck, ProtocolError>) {
        let mut reader = WireReader::new(bytes);
        let canonical_crc32 = reader.read_u32()?;
        let storage_generation = reader.read_u32()?;
        reader.finish()?;
        Ok(ParamCommitAck { canonical_crc32, storage_generation })
    }
}

/// Every commit acknowledgement decodes back from its encoding.
pub proof fn lemma_param_commit_ack_round_trip(v: ParamCommitAck)
    ensures
        param_commit_ack_from_wire(le32(v.canonical_crc32) + le32(v.storage_generation)) == Ok::<
            ParamCommitAck,
            ProtocolError,
        >(v),
{
    let b = le32(v.canonical_crc32) + le32(v.storage_generation);
    assert(b.subrange(0, 4) =~= le32(v.canonical_crc32));
    assert(b.subrange(4, 8) =~= le32(v.storage_generation));
    lemma_u32_at(b, 0, v.canonical_crc32);
    lemma_u32_at(b, 4, v.storage_generation);
}

} // verus!

verus! {

/// The key a parameter-set entry is ordered and told apart by: its id.
pub open spec fn entry_key() -> spec_fn((u32, ParamValue)) -> u32 {
    |e: (u32, ParamValue)| e.0
}

/// One entry in canonical form: id, type code, value bytes.
pub open spec fn canonical_entry(e: (u32, ParamValue)) -> Seq<u8> {
    le32(e.0) + seq![param_type_code(value_type(e.1))] + value_bytes(e.1)
}

/// The entries in canonical form, in the order given.
pub open spec fn canonical_bytes(s: Seq<(u32, ParamValue)>) -> Seq<u8>
    decreases s.len(),
{
    if s.len() == 0 {
        Seq::empty()
    } else {
        canonical_bytes(s.drop_last()) + canonical_entry(s.last())
    }
}

/// The CRC-32 of a parameter set: over the canonical form of its entries
/// ordered by id; a repeated id is `InvalidValue`.
pub open spec fn spec_canonical_crc32(s: Seq<(u32, ParamValue)>) -> Result<u32, ProtocolError> {
    if !keys_distinct(s, entry_key()) {
        Err(ProtocolError::InvalidValue)
    } else {
        Ok(spec_crc32(canonical_bytes(sort_by_key(s, entry_key()))))
    }
}

/// The canonical CRC of a parameter set does not depend on the order its
/// entries are listed in.
pub proof fn lemma_canonical_crc32_order_independent(
    a: Seq<(u32, ParamValue)>,
    b: Seq<(u32, ParamValue)>,
)
    requires
        a.to_multiset() == b.to_multiset(),
    ensures
        spec_canonical_crc32(a) == spec_canonical_crc32(b),
{
    if keys_distinct(a, entry_key()) {
        lemma_keys_distinct_permutation(a, b, entry_key());
        lemma_sort_by_key_permutation(a, b, entry_key());
    } else if keys_distinct(b, entry_key()) {
        lemma_keys_distinct_permutation(b, a, entry_key());
    }
}

fn has_duplicate_id(entries: &[(u32, ParamValue)]) -> (b: bool)
    ensures
        b == !keys_distinct(entries@, entry_key()),
{
    let mut i: usize = 0;
    while i < entries.len()
        invariant
            i <= entries@.len(),
            forall|a: int, c: int| 0 <= a < c < i ==> entries@[a].0 != entries@[c].0,
        decreases entries@.len() - i,
    {
        let mut j: usize = 0;
        while j < i
            invariant
                j <= i < entries@.len(),
                forall|a: int| 0 <= a < j ==> entries@[a].0 != entries@[i as int].0,
            decreases i - j,
        {
            if entries[j].0 == entries[i].0 {
                return true;
            }
            j = j + 1;
        }
        i = i + 1;
    }
    false
}

/// The CRC-32 of a parameter set in canonical form; see
/// `spec_canonical_crc32`.
pub fn canonical_parameter_crc32(entries: &[(u32, ParamValue)]) -> (r: Result<u32, ProtocolError>)
    ensures
        r == spec_canonical_crc32(entries@),
{
    if has_duplicate_id(entries) {
        return Err(ProtocolError::InvalidValue);
    }
    let mut keys: Vec<u32> = Vec::new();
    let mut i: usize = 0;
    while i < entries.len()
        invariant
            i <= entries@.len(),
            keys@.len() == i,
            forall|k: int| 0 <= k < i ==> keys@[k] == entries@[k].0,
        decreases entries@.len() - i,
    {
        keys.push(entries[i].0);
        i = i + 1;
    }
    let order = sort_order::<(u32, ParamValue)>(&keys, Ghost(entries@), Ghost(entry_key()));
    let ghost sorted = order@.map_values(|i: usize| entries@[i as int]);
    let mut canonical: Vec<u8> = Vec::new();
    let mut k: usize = 0;
    while k < order.len()
        invariant
            k <= order@.len(),
            sorted == order@.map_values(|i: usize| entries@[i as int]),
            forall|j: int| 0 <= j < order@.len() ==> order@[j] < entries@.len(),
            canonical@ == canonical_bytes(sorted.take(k as int)),
        decreases order@.len() - k,
    {
        proof {
            assert(sorted.take(k + 1).drop_last() =~= sorted.take(k as int));
            assert(sorted[k as int] == entries@[order@[k as int] as int]);
        }
        let (param_id, value) = entries[order[k]];
        crate::bytes::push_le32(&mut canonical, param_id);
        canonical.push(value.param_type().as_u8());
        value.encode_canonical(&mut canonical);
        proof {
            assert(canonical@ =~= canonical_bytes(sorted.take(k + 1)));
        }
        k = k + 1;
    }
    proof {
        assert(sorted.take(k as int) =~= sorted);
    }
    Ok(crc32_iso_hdlc(canonical.as_slice()))
}

} // verus!
