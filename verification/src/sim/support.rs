//! Small rules of the simulated device: how frames are classed and built,
//! how values are checked against constraints, and how bytes are shown as
//! text.

use vstd::prelude::*;
use vstd::utf8::{encode_utf8, valid_utf8};

use crate::descriptor::{EnumOption, EnumOptionView, ParamConstraints, ParamConstraintsView, options_view};
use crate::frame::{
    frame_built_from, Frame, FrameFlags, FrameHeader, MessageType, MAX_PAYLOAD_LEN, VERSION,
};
use crate::parameter::ParamValue;
use crate::sim::queue::Priority;
use crate::wire::str_bytes;

verus! {

/// Whether the bits of an `f32` encode NaN.
pub open spec fn f32_is_nan(bits: u32) -> bool {
    (bits >> 23u32) & 0xFFu32 == 0xFFu32 && bits & 0x7F_FFFFu32 != 0
}

/// Whether the bits of an `f32` encode a finite number.
pub open spec fn f32_is_finite(bits: u32) -> bool {
    (bits >> 23u32) & 0xFFu32 != 0xFFu32
}

/// Where a non-NaN `f32` stands on the number line: its magnitude bits,
/// negated when the sign bit is set, so both zeros stand at 0.
pub open spec fn f32_rank(bits: u32) -> int {
    if bits >> 31u32 == 1 {
        -((bits & 0x7FFF_FFFFu32) as int)
    } else {
        (bits & 0x7FFF_FFFFu32) as int
    }
}

/// `a <= b` for two `f32` given by their bits, as IEEE 754 compares them:
/// false when either is NaN.
pub open spec fn f32_le(a: u32, b: u32) -> bool {
    !f32_is_nan(a) && !f32_is_nan(b) && f32_rank(a) <= f32_rank(b)
}

fn f32_is_nan_bits(bits: u32) -> (b: bool)
    ensures
        b == f32_is_nan(bits),
{
    (bits >> 23u32) & 0xFFu32 == 0xFFu32 && bits & 0x7F_FFFFu32 != 0
}

fn f32_rank_bits(bits: u32) -> (r: i64)
    ensures
        r == f32_rank(bits),
{
    let magnitude = (bits & 0x7FFF_FFFFu32) as i64;
    if bits >> 31u32 == 1 {
        -magnitude
    } else {
        magnitude
    }
}

/// `a <= b` for two `f32` given by their bits; see `f32_le`.
fn f32_bits_le(a: u32, b: u32) -> (r: bool)
    ensures
        r == f32_le(a, b),
{
    !f32_is_nan_bits(a) && !f32_is_nan_bits(b) && f32_rank_bits(a) <= f32_rank_bits(b)
}

/// Whether some option has the value `v`.
pub open spec fn options_name(options: Seq<EnumOptionView>, v: i32) -> bool {
    exists|i: int| 0 <= i < options.len() && #[trigger] options[i].value == v
}

/// Whether a value meets a parameter's constraints: anything meets none;
/// a number meets bounds of its own type when it lies between them (an
/// `f32` must also be finite); an enumerated value meets a list that names
/// it; every other pairing fails.
pub open spec fn within_constraints(value: ParamValue, c: ParamConstraintsView) -> bool {
    match c {
        ParamConstraintsView::Unconstrained => true,
        ParamConstraintsView::Numeric { min, max, .. } => match (value, min, max) {
            (ParamValue::I32(v), ParamValue::I32(lo), ParamValue::I32(hi)) => lo <= v <= hi,
            (ParamValue::U32(v), ParamValue::U32(lo), ParamValue::U32(hi)) => lo <= v <= hi,
            (ParamValue::F32(v), ParamValue::F32(lo), ParamValue::F32(hi)) => f32_is_finite(v)
                && f32_le(lo, v) && f32_le(v, hi),
            _ => false,
        },
        ParamConstraintsView::Enum { options } => match value {
            ParamValue::Enum(v) => options_name(options, v),
            _ => false,
        },
    }
}

/// Whether `value` meets `constraints`; see `within_constraints`.
pub fn value_within_constraints(value: &ParamValue, constraints: &ParamConstraints) -> (b: bool)
    ensures
        b == within_constraints(*value, constraints@),
        constraints@ is Enum ==> (b <==> (value is Enum && exists|k: int|
            0 <= k < constraints@->options.len() && (#[trigger] constraints@->options[k]).value
                == value->Enum_0)),
{
    match constraints {
        ParamConstraints::Unconstrained => true,
        ParamConstraints::Numeric { min, max, .. } => match (value, min, max) {
            (ParamValue::I32(v), ParamValue::I32(lo), ParamValue::I32(hi)) => *v >= *lo && *v <= *hi,
            (ParamValue::U32(v), ParamValue::U32(lo), ParamValue::U32(hi)) => *v >= *lo && *v <= *hi,
            (ParamValue::F32(v), ParamValue::F32(lo), ParamValue::F32(hi)) => {
                let finite = (*v >> 23u32) & 0xFFu32 != 0xFFu32;
                finite && f32_bits_le(*lo, *v) && f32_bits_le(*v, *hi)
            },
            _ => false,
        },
        ParamConstraints::Enum { options } => match value {
            ParamValue::Enum(v) => {
                let ghost ov = options_view(options@);
                let mut i: usize = 0;
                while i < options.len()
                    invariant
                        i <= options@.len(),
                        ov == options_view(options@),
                        ov.len() == options@.len(),
                        constraints@ == (ParamConstraintsView::Enum { options: ov }),
                        *value == ParamValue::Enum(*v),
                        forall|k: int| 0 <= k < i ==> ov[k].value != *v,
                    decreases options@.len() - i,
                {
                    proof {
                        assert(ov[i as int] == options@[i as int]@);
                    }
                    if options[i].value == *v {
                        proof {
                            let k = i as int;
                            assert(0 <= k < ov.len() && ov[k].value == *v);
                            assert(options_name(ov, *v));
                        }
                        return true;
                    }
                    i = i + 1;
                }
                false
            },
            _ => false,
        },
    }
}

/// The class a response is sent in: heartbeat answers, errors and flash
/// answers are safety traffic, telemetry and logs have their own classes,
/// everything else is reliable.
pub open spec fn priority_of(t: MessageType) -> Priority {
    match t {
        MessageType::HeartbeatAck => Priority::Safety,
        MessageType::Error => Priority::Safety,
        MessageType::PrepareFlashAck => Priority::Safety,
        MessageType::TelemetryData => Priority::Telemetry,
        MessageType::LogMessage => Priority::Log,
        _ => Priority::Reliable,
    }
}

/// The class `frame` is sent in; see `priority_of`.
pub fn priority_for(frame: &Frame) -> (p: Priority)
    ensures
        p == priority_of(frame.header.message_type),
{
    match frame.header.message_type {
        MessageType::HeartbeatAck | MessageType::Error | MessageType::PrepareFlashAck => Priority::Safety,
        MessageType::TelemetryData => Priority::Telemetry,
        MessageType::LogMessage => Priority::Log,
        _ => Priority::Reliable,
    }
}

/// Both sets of flag bits.
pub fn combine_flags(left: FrameFlags, right: FrameFlags) -> (f: FrameFlags)
    ensures
        f.0 == left.0 | right.0,
{
    FrameFlags::from_bits(left.bits() | right.bits())
}

/// The frame `response_frame` builds, as a view.
pub open spec fn built_frame(
    message_type: MessageType,
    flags: FrameFlags,
    sequence: u16,
    session_id: u32,
    payload: Seq<u8>,
) -> (FrameHeader, Seq<u8>) {
    (
        FrameHeader {
            version: VERSION,
            message_type,
            flags,
            sequence,
            session_id,
            payload_len: payload.len() as u16,
        },
        payload,
    )
}

/// A current-version frame around a payload that fits the protocol.
pub fn response_frame(
    message_type: MessageType,
    sequence: u16,
    session_id: u32,
    payload: Vec<u8>,
    flags: FrameFlags,
) -> (f: Frame)
    requires
        payload@.len() <= MAX_PAYLOAD_LEN,
    ensures
        frame_built_from(f, message_type, flags, sequence, session_id, payload@),
        f@ == built_frame(message_type, flags, sequence, session_id, payload@),
{
    let ghost p = payload@;
    match Frame::new(message_type, flags, sequence, session_id, payload) {
        Ok(f) => f,
        Err(_) => {
            proof {
                assert(false);
            }
            Frame::new(message_type, flags, sequence, session_id, Vec::new()).unwrap()
        },
    }
}

/// The lowercase hexadecimal digit for a value below 16.
pub open spec fn hex_digit(v: u8) -> u8 {
    if v < 10 {
        (48 + v) as u8
    } else {
        (87 + v) as u8
    }
}

/// Each byte as two lowercase hexadecimal digits, high nibble first.
pub open spec fn hex_bytes(b: Seq<u8>) -> Seq<u8>
    decreases b.len(),
{
    if b.len() == 0 {
        Seq::empty()
    } else {
        hex_bytes(b.drop_last()) + seq![hex_digit(b.last() >> 4u8), hex_digit(b.last() & 0x0Fu8)]
    }
}

/// Bytes below 0x80 are UTF-8.
pub proof fn lemma_ascii_is_utf8(b: Seq<u8>)
    requires
        forall|i: int| 0 <= i < b.len() ==> b[i] < 0x80,
    ensures
        valid_utf8(b),
    decreases b.len(),
{
    if b.len() > 0 {
        let rest = b.subrange(1, b.len() as int);
        assert forall|i: int| 0 <= i < rest.len() implies rest[i] < 0x80 by {
            assert(rest[i] == b[i + 1]);
        }
        lemma_ascii_is_utf8(rest);
        assert(b[0] < 0x80);
        let c = b[0];
        assert(vstd::utf8::codepoint_width_1(c) == c as u32) by (bit_vector)
            requires
                c < 0x80,
        ;
    }
}

fn hex_digit_of(v: u8) -> (d: u8)
    requires
        v < 16,
    ensures
        d == hex_digit(v),
        d < 0x80,
{
    if v < 10 {
        48 + v
    } else {
        87 + v
    }
}

/// The bytes written as lowercase hexadecimal, two digits per byte, with no
/// prefix or separator; see `hex_bytes`.
pub fn lower_hex(bytes: &[u8]) -> (s: String)
    requires
        bytes@.len() <= usize::MAX / 2,
    ensures
        str_bytes(s) == hex_bytes(bytes@),
{
    let mut digits: Vec<u8> = Vec::new();
    let mut i: usize = 0;
    proof {
        assert(bytes@.take(0) =~= Seq::<u8>::empty());
    }
    while i < bytes.len()
        invariant
            i <= bytes@.len(),
            digits@ == hex_bytes(bytes@.take(i as int)),
            forall|k: int| 0 <= k < digits@.len() ==> digits@[k] < 0x80,
        decreases bytes@.len() - i,
    {
        let byte = bytes[i];
        proof {
            assert(bytes@.take(i + 1).drop_last() =~= bytes@.take(i as int));
            assert(bytes@.take(i + 1).last() == byte);
            assert(byte >> 4u8 < 16) by (bit_vector);
            assert(byte & 0x0Fu8 < 16) by (bit_vector);
        }
        digits.push(hex_digit_of(byte >> 4u8));
        digits.push(hex_digit_of(byte & 0x0Fu8));
        proof {
            assert(digits@ =~= hex_bytes(bytes@.take(i + 1)));
        }
        i = i + 1;
    }
    proof {
        assert(bytes@.take(i as int) =~= bytes@);
        lemma_ascii_is_utf8(digits@);
    }
    match crate::text::utf8_to_string(digits.as_slice()) {
        Some(s) => s,
        None => {
            proof {
                assert(false);
            }
            String::new()
        },
    }
}

/// The sample period of a telemetry rate, in whole microseconds.
pub fn telemetry_period_us(sample_rate_hz: u16) -> (p: u64)
    requires
        sample_rate_hz > 0,
    ensures
        p == 1_000_000int / (sample_rate_hz as int),
{
    1_000_000u64 / (sample_rate_hz as u64)
}

} // verus!
