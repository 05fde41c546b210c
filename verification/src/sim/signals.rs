//! Telemetry values of the simulated device that follow from the sample
//! time alone: encoder counts, fault flags, the fixed values of `custom.`
//! channels and the time-derived values of unknown integer channels.
//! Channels that report the speed loop are not among them.

use vstd::prelude::*;

use crate::telemetry::{TelemetryDescriptor, TelemetryType};
use vstd::utf8::encode_utf8;

verus! {

/// Encoder ticks pass every 2 ms of sample time.
pub open spec fn encoder_ticks(timestamp_us: u64) -> int {
    timestamp_us as int / 2000
}

/// The low 32 bits of a non-negative count.
pub open spec fn low32(n: int) -> u32 {
    (n % 0x1_0000_0000) as u32
}

/// Whether `name` names one of the channels that report the speed loop.
pub open spec fn reports_speed_loop(name: Seq<u8>) -> bool {
    ||| name == encode_utf8("drive.speed_mps"@)
    ||| name == encode_utf8("drive.left_wheel_speed_mps"@)
    ||| name == encode_utf8("drive.right_wheel_speed_mps"@)
    ||| name == encode_utf8("drive.target_speed_mps"@)
    ||| name == encode_utf8("drive.speed_error_mps"@)
    ||| name == encode_utf8("motor.left_pwm"@)
    ||| name == encode_utf8("motor.right_pwm"@)
}

/// The raw value of channel `name` of type `ty` at `timestamp_us`, where it
/// follows from the time alone; `None` for speed-loop channels and for
/// unknown `f32` channels.
pub open spec fn time_channel_value(name: Seq<u8>, ty: TelemetryType, timestamp_us: u64) -> Option<u32> {
    let k = encoder_ticks(timestamp_us);
    if reports_speed_loop(name) {
        None
    } else if name == encode_utf8("encoder.left_delta"@) {
        Some((18 + k % 5) as u32)
    } else if name == encode_utf8("encoder.right_delta"@) {
        Some((0x1_0000_0000 - 18 - k % 5) as u32)
    } else if name == encode_utf8("encoder.left_total"@) {
        Some(low32(k * 20))
    } else if name == encode_utf8("encoder.right_total"@) {
        Some(low32(k * 19))
    } else if name == encode_utf8("drive.fault_flags"@) {
        Some(
            if timestamp_us % 5_000_000 < 10_000 {
                1u32
            } else {
                0u32
            },
        )
    } else if name.len() >= 7 && name.subrange(0, 7) == encode_utf8("custom."@) {
        Some(
            match ty {
                TelemetryType::F32 => 0x3fc0_0000u32,
                TelemetryType::I32 => 0xffff_fffcu32,
                TelemetryType::U32 => 8u32,
                TelemetryType::Flags32 => 5u32,
            },
        )
    } else {
        match ty {
            TelemetryType::F32 => None,
            TelemetryType::I32 => Some(low32(k)),
            TelemetryType::U32 | TelemetryType::Flags32 => Some(low32(timestamp_us as int / 1000)),
        }
    }
}

fn name_is(name: &[u8], literal: &str) -> (r: bool)
    ensures
        r == (name@ == encode_utf8(literal@)),
{
    crate::bytes::bytes_equal(name, literal.as_bytes())
}

/// The value of a channel that follows from the sample time alone; see
/// `time_channel_value`.
pub fn time_channel_value_of(descriptor: &TelemetryDescriptor, timestamp_us: u64) -> (r: Option<u32>)
    ensures
        r == time_channel_value(descriptor@.machine_name, descriptor.telemetry_type, timestamp_us),
{
    let name = descriptor.machine_name.as_str().as_bytes();
    let k: u64 = timestamp_us / 2000;
    if name_is(name, "drive.speed_mps") || name_is(name, "drive.left_wheel_speed_mps") || name_is(
        name,
        "drive.right_wheel_speed_mps",
    ) || name_is(name, "drive.target_speed_mps") || name_is(name, "drive.speed_error_mps")
        || name_is(name, "motor.left_pwm") || name_is(name, "motor.right_pwm") {
        None
    } else if name_is(name, "encoder.left_delta") {
        Some(18 + (k % 5) as u32)
    } else if name_is(name, "encoder.right_delta") {
        Some(0xffff_ffee - (k % 5) as u32)
    } else if name_is(name, "encoder.left_total") {
        proof {
            assert(k * 20 <= u64::MAX) by (nonlinear_arith)
                requires
                    k == timestamp_us / 2000,
            ;
        }
        Some(((k * 20) % 0x1_0000_0000) as u32)
    } else if name_is(name, "encoder.right_total") {
        proof {
            assert(k * 19 <= u64::MAX) by (nonlinear_arith)
                requires
                    k == timestamp_us / 2000,
            ;
        }
        Some(((k * 19) % 0x1_0000_0000) as u32)
    } else if name_is(name, "drive.fault_flags") {
        if timestamp_us % 5_000_000 < 10_000 {
            Some(1)
        } else {
            Some(0)
        }
    } else if name.len() >= 7 && name_is(crate::bytes::copy_range(name, 0, 7).as_slice(), "custom.") {
        match descriptor.telemetry_type {
            TelemetryType::F32 => Some(0x3fc0_0000),
            TelemetryType::I32 => Some(0xffff_fffc),
            TelemetryType::U32 => Some(8),
            TelemetryType::Flags32 => Some(5),
        }
    } else {
        match descriptor.telemetry_type {
            TelemetryType::F32 => None,
            TelemetryType::I32 => Some((k % 0x1_0000_0000) as u32),
            TelemetryType::U32 | TelemetryType::Flags32 => Some(((timestamp_us / 1000) % 0x1_0000_0000) as u32),
        }
    }
}

} // verus!
