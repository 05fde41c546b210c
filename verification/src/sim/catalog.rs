//! The catalogue of the simulated device: its parameters and telemetry
//! channels, as a manifest.

use vstd::prelude::*;

use crate::descriptor::{
    EnumOption, EnumOptionView, ParamConstraints, ParamConstraintsView, ParamDescriptor, ParamDescriptorView,
};
use crate::manifest::{param_views, telemetry_views, DeviceManifest, DeviceManifestView, MANIFEST_SCHEMA_VERSION};
use crate::parameter::{ParamFlags, ParamType, ParamValue};
use crate::telemetry::{TelemetryDescriptor, TelemetryDescriptorView, TelemetryType};
use vstd::utf8::encode_utf8;

verus! {

/// Flag byte of a writable parameter that can be committed.
pub const WRITABLE_PERSISTENT: u8 = 3;

/// An `f32` parameter with numeric limits; values are IEEE-754 bit patterns.
pub open spec fn numeric_f32_view(
    param_id: u32,
    machine_name: Seq<char>,
    display_name: Seq<char>,
    group: Seq<char>,
    unit: Seq<char>,
    default: u32,
    min: u32,
    max: u32,
    step: u32,
    flags: u8,
) -> ParamDescriptorView {
    ParamDescriptorView {
        param_id,
        param_type: ParamType::F32,
        flags,
        machine_name: encode_utf8(machine_name),
        display_name: encode_utf8(display_name),
        group: encode_utf8(group),
        unit: encode_utf8(unit),
        default_value: ParamValue::F32(default),
        constraints: ParamConstraintsView::Numeric {
            min: ParamValue::F32(min),
            max: ParamValue::F32(max),
            step: ParamValue::F32(step),
        },
    }
}

/// A `u32` parameter with numeric limits.
pub open spec fn numeric_u32_view(
    param_id: u32,
    machine_name: Seq<char>,
    display_name: Seq<char>,
    group: Seq<char>,
    unit: Seq<char>,
    default: u32,
    min: u32,
    max: u32,
    step: u32,
    flags: u8,
) -> ParamDescriptorView {
    ParamDescriptorView {
        param_id,
        param_type: ParamType::U32,
        flags,
        machine_name: encode_utf8(machine_name),
        display_name: encode_utf8(display_name),
        group: encode_utf8(group),
        unit: encode_utf8(unit),
        default_value: ParamValue::U32(default),
        constraints: ParamConstraintsView::Numeric {
            min: ParamValue::U32(min),
            max: ParamValue::U32(max),
            step: ParamValue::U32(step),
        },
    }
}

/// An unconstrained boolean encoder parameter, false by default, with no unit.
pub open spec fn boolean_view(param_id: u32, machine_name: Seq<char>, display_name: Seq<char>, flags: u8) -> ParamDescriptorView {
    ParamDescriptorView {
        param_id,
        param_type: ParamType::Bool,
        flags,
        machine_name: encode_utf8(machine_name),
        display_name: encode_utf8(display_name),
        group: encode_utf8("编码器"@),
        unit: encode_utf8(""@),
        default_value: ParamValue::Bool(false),
        constraints: ParamConstraintsView::Unconstrained,
    }
}

/// The quadrature multiplier: an enum of 1x, 2x and 4x, 4 by default.
pub open spec fn quadrature_multiplier_view() -> ParamDescriptorView {
    ParamDescriptorView {
        param_id: 102,
        param_type: ParamType::Enum,
        flags: WRITABLE_PERSISTENT,
        machine_name: encode_utf8("encoder.quadrature_multiplier"@),
        display_name: encode_utf8("正交倍频"@),
        group: encode_utf8("编码器"@),
        unit: encode_utf8("x"@),
        default_value: ParamValue::Enum(4),
        constraints: ParamConstraintsView::Enum {
            options: seq![
                EnumOptionView { value: 1, label: encode_utf8("1x"@) },
                EnumOptionView { value: 2, label: encode_utf8("2x"@) },
                EnumOptionView { value: 4, label: encode_utf8("4x"@) },
            ],
        },
    }
}

/// A telemetry channel.
pub open spec fn channel_view(
    channel_id: u32,
    telemetry_type: TelemetryType,
    machine_name: Seq<char>,
    display_name: Seq<char>,
    group: Seq<char>,
    unit: Seq<char>,
) -> TelemetryDescriptorView {
    TelemetryDescriptorView {
        channel_id,
        telemetry_type,
        machine_name: encode_utf8(machine_name),
        display_name: encode_utf8(display_name),
        group: encode_utf8(group),
        unit: encode_utf8(unit),
    }
}

/// Parameters 1 to 5 of the catalogue.
pub open spec fn catalog_parameters_0() -> Seq<ParamDescriptorView> {
    seq![
        numeric_f32_view(
            1,
            "pid.kp"@,
            "速度 Kp"@,
            "控制"@,
            ""@,
            0x3f800000,
            0,
            0x447a0000,
            0x3c23d70a,
            WRITABLE_PERSISTENT,
        ),
        numeric_u32_view(
            100,
            "encoder.left.ppr"@,
            "左编码器 PPR"@,
            "编码器"@,
            "pulse/rev"@,
            0x00000200,
            1,
            0x000f4240,
            1,
            WRITABLE_PERSISTENT,
        ),
        numeric_u32_view(
            101,
            "encoder.right.ppr"@,
            "右编码器 PPR"@,
            "编码器"@,
            "pulse/rev"@,
            0x00000200,
            1,
            0x000f4240,
            1,
            WRITABLE_PERSISTENT,
        ),
        quadrature_multiplier_view(),
        numeric_u32_view(
            103,
            "encoder.left.cpr"@,
            "左编码器 CPR"@,
            "编码器"@,
            "count/rev"@,
            0x00000800,
            1,
            0x003d0900,
            1,
            0u8,
        ),
    ]
}

/// Parameters 6 to 10 of the catalogue.
pub open spec fn catalog_parameters_1() -> Seq<ParamDescriptorView> {
    seq![
        numeric_u32_view(
            104,
            "encoder.right.cpr"@,
            "右编码器 CPR"@,
            "编码器"@,
            "count/rev"@,
            0x00000800,
            1,
            0x003d0900,
            1,
            0u8,
        ),
        boolean_view(105, "encoder.left.inverted"@, "左编码器反向"@, WRITABLE_PERSISTENT),
        boolean_view(106, "encoder.right.inverted"@, "右编码器反向"@, WRITABLE_PERSISTENT),
        numeric_f32_view(
            107,
            "drive.wheel_diameter_mm"@,
            "Wheel diameter"@,
            "Drive"@,
            "mm"@,
            0x42820000,
            0x3f800000,
            0x447a0000,
            0x3dcccccd,
            WRITABLE_PERSISTENT,
        ),
        numeric_f32_view(
            108,
            "drive.gear_ratio"@,
            "Gear ratio"@,
            "Drive"@,
            "ratio"@,
            0x3f800000,
            0x3c23d70a,
            0x42c80000,
            0x3c23d70a,
            WRITABLE_PERSISTENT,
        ),
    ]
}

/// Parameters 11 to 15 of the catalogue.
pub open spec fn catalog_parameters_2() -> Seq<ParamDescriptorView> {
    seq![
        numeric_u32_view(
            109,
            "encoder.sample_period_us"@,
            "编码器采样周期"@,
            "编码器"@,
            "us"@,
            0x00002710,
            100,
            0x000f4240,
            100,
            WRITABLE_PERSISTENT,
        ),
        numeric_f32_view(
            110,
            "encoder.speed_lpf_hz"@,
            "编码器速度低通截止频率"@,
            "编码器"@,
            "Hz"@,
            0x42480000,
            0,
            0x447a0000,
            0x3dcccccd,
            WRITABLE_PERSISTENT,
        ),
        numeric_u32_view(
            111,
            "encoder.jump_threshold_counts"@,
            "编码器跳变阈值"@,
            "编码器"@,
            "count"@,
            0x00002710,
            1,
            0x000f4240,
            1,
            WRITABLE_PERSISTENT,
        ),
        numeric_f32_view(
            112,
            "encoder.max_credible_rpm"@,
            "编码器最大可信转速"@,
            "编码器"@,
            "rpm"@,
            0x461c4000,
            0x3f800000,
            0x47c35000,
            0x3f800000,
            WRITABLE_PERSISTENT,
        ),
        boolean_view(113, "encoder.missing_pulse_detection"@, "编码器丢脉冲检测"@, WRITABLE_PERSISTENT),
    ]
}

/// The parameters of the simulated device, in manifest order.
pub open spec fn catalog_parameters() -> Seq<ParamDescriptorView> {
    catalog_parameters_0() + catalog_parameters_1() + catalog_parameters_2()
}

/// Telemetry channels 1 to 4 of the catalogue.
pub open spec fn catalog_channels_0() -> Seq<TelemetryDescriptorView> {
    seq![
        channel_view(200, TelemetryType::F32, "drive.speed_mps"@, "车辆速度"@, "驱动"@, "m/s"@),
        channel_view(201, TelemetryType::I32, "encoder.left_delta"@, "左编码器增量"@, "编码器"@, "count"@),
        channel_view(202, TelemetryType::U32, "encoder.left_total"@, "左编码器总数"@, "编码器"@, "count"@),
        channel_view(203, TelemetryType::Flags32, "drive.fault_flags"@, "驱动故障标志"@, "驱动"@, ""@),
    ]
}

/// Telemetry channels 5 to 8 of the catalogue.
pub open spec fn catalog_channels_1() -> Seq<TelemetryDescriptorView> {
    seq![
        channel_view(204, TelemetryType::U32, "encoder.right_total"@, "右编码器总数"@, "编码器"@, "count"@),
        channel_view(205, TelemetryType::F32, "drive.left_wheel_speed_mps"@, "左轮速度"@, "驱动"@, "m/s"@),
        channel_view(206, TelemetryType::F32, "drive.right_wheel_speed_mps"@, "右轮速度"@, "驱动"@, "m/s"@),
        channel_view(207, TelemetryType::F32, "drive.target_speed_mps"@, "目标速度"@, "驱动"@, "m/s"@),
    ]
}

/// Telemetry channels 9 to 12 of the catalogue.
pub open spec fn catalog_channels_2() -> Seq<TelemetryDescriptorView> {
    seq![
        channel_view(208, TelemetryType::F32, "drive.speed_error_mps"@, "速度误差"@, "控制"@, "m/s"@),
        channel_view(209, TelemetryType::U32, "motor.left_pwm"@, "左 PWM"@, "电机"@, "permille"@),
        channel_view(210, TelemetryType::U32, "motor.right_pwm"@, "右 PWM"@, "电机"@, "permille"@),
        channel_view(211, TelemetryType::I32, "encoder.right_delta"@, "右编码器增量"@, "编码器"@, "count"@),
    ]
}

/// Telemetry channels 13 to 16 of the catalogue.
pub open spec fn catalog_channels_3() -> Seq<TelemetryDescriptorView> {
    seq![
        channel_view(212, TelemetryType::U32, "control.loop_jitter_us"@, "控制环抖动"@, "控制"@, "us"@),
        channel_view(213, TelemetryType::F32, "power.battery_voltage"@, "电池电压"@, "电源"@, "V"@),
        channel_view(214, TelemetryType::F32, "steering.error_deg"@, "转向误差"@, "转向"@, "deg"@),
        channel_view(215, TelemetryType::U32, "system.uptime_ms"@, "运行时间"@, "系统"@, "ms"@),
    ]
}

/// The telemetry channels of the simulated device, in manifest order.
pub open spec fn catalog_channels() -> Seq<TelemetryDescriptorView> {
    catalog_channels_0() + catalog_channels_1() + catalog_channels_2() + catalog_channels_3()
}

/// The manifest of the simulated device.
pub open spec fn catalog_manifest() -> DeviceManifestView {
    DeviceManifestView {
        schema_version: MANIFEST_SCHEMA_VERSION,
        parameters: catalog_parameters(),
        telemetry: catalog_channels(),
    }
}

fn numeric_f32(
    param_id: u32,
    machine_name: &str,
    display_name: &str,
    group: &str,
    unit: &str,
    default: u32,
    min: u32,
    max: u32,
    step: u32,
    flags: ParamFlags,
) -> (d: ParamDescriptor)
    ensures
        d@ == numeric_f32_view(
            param_id,
            machine_name@,
            display_name@,
            group@,
            unit@,
            default,
            min,
            max,
            step,
            flags.0,
        ),
{
    ParamDescriptor {
        param_id,
        param_type: ParamType::F32,
        flags,
        machine_name: machine_name.to_owned(),
        display_name: display_name.to_owned(),
        group: group.to_owned(),
        unit: unit.to_owned(),
        default_value: ParamValue::F32(default),
        constraints: ParamConstraints::Numeric {
            min: ParamValue::F32(min),
            max: ParamValue::F32(max),
            step: ParamValue::F32(step),
        },
    }
}

fn numeric_u32(
    param_id: u32,
    machine_name: &str,
    display_name: &str,
    group: &str,
    unit: &str,
    default: u32,
    min: u32,
    max: u32,
    step: u32,
    flags: ParamFlags,
) -> (d: ParamDescriptor)
    ensures
        d@ == numeric_u32_view(
            param_id,
            machine_name@,
            display_name@,
            group@,
            unit@,
            default,
            min,
            max,
            step,
            flags.0,
        ),
{
    ParamDescriptor {
        param_id,
        param_type: ParamType::U32,
        flags,
        machine_name: machine_name.to_owned(),
        display_name: display_name.to_owned(),
        group: group.to_owned(),
        unit: unit.to_owned(),
        default_value: ParamValue::U32(default),
        constraints: ParamConstraints::Numeric {
            min: ParamValue::U32(min),
            max: ParamValue::U32(max),
            step: ParamValue::U32(step),
        },
    }
}

fn boolean(param_id: u32, machine_name: &str, display_name: &str, flags: ParamFlags) -> (d: ParamDescriptor)
    ensures
        d@ == boolean_view(param_id, machine_name@, display_name@, flags.0),
{
    ParamDescriptor {
        param_id,
        param_type: ParamType::Bool,
        flags,
        machine_name: machine_name.to_owned(),
        display_name: display_name.to_owned(),
        group: "编码器".to_owned(),
        unit: "".to_owned(),
        default_value: ParamValue::Bool(false),
        constraints: ParamConstraints::Unconstrained,
    }
}

fn enum_option(value: i32, label: &str) -> (o: EnumOption)
    ensures
        o@ == (EnumOptionView { value, label: encode_utf8(label@) }),
{
    EnumOption { value, label: label.to_owned() }
}

fn channel(
    channel_id: u32,
    telemetry_type: TelemetryType,
    machine_name: &str,
    display_name: &str,
    group: &str,
    unit: &str,
) -> (d: TelemetryDescriptor)
    ensures
        d@ == channel_view(channel_id, telemetry_type, machine_name@, display_name@, group@, unit@),
{
    TelemetryDescriptor {
        channel_id,
        telemetry_type,
        machine_name: machine_name.to_owned(),
        display_name: display_name.to_owned(),
        group: group.to_owned(),
        unit: unit.to_owned(),
    }
}

fn quadrature_multiplier() -> (d: ParamDescriptor)
    ensures
        d@ == quadrature_multiplier_view(),
{
    let options = vec![enum_option(1, "1x"), enum_option(2, "2x"), enum_option(4, "4x")];
    proof {
        assert(crate::descriptor::options_view(options@) =~= seq![
            EnumOptionView { value: 1, label: encode_utf8("1x"@) },
            EnumOptionView { value: 2, label: encode_utf8("2x"@) },
            EnumOptionView { value: 4, label: encode_utf8("4x"@) },
        ]);
    }
    let d = ParamDescriptor {
        param_id: 102,
        param_type: ParamType::Enum,
        flags: ParamFlags(WRITABLE_PERSISTENT),
        machine_name: "encoder.quadrature_multiplier".to_owned(),
        display_name: "正交倍频".to_owned(),
        group: "编码器".to_owned(),
        unit: "x".to_owned(),
        default_value: ParamValue::Enum(4),
        constraints: ParamConstraints::Enum { options },
    };
    proof {
        assert(d@.constraints == quadrature_multiplier_view().constraints);
    }
    d
}

#[verifier::spinoff_prover]
#[verifier::rlimit(60)]
fn catalog_parameter_list_0() -> (v: Vec<ParamDescriptor>)
    ensures
        param_views(v@) == catalog_parameters_0(),
{
    let writable_persistent = ParamFlags(WRITABLE_PERSISTENT);
    let v = vec![
        numeric_f32(
            1,
            "pid.kp",
            "速度 Kp",
            "控制",
            "",
            0x3f800000,
            0,
            0x447a0000,
            0x3c23d70a,
            writable_persistent,
        ),
        numeric_u32(
            100,
            "encoder.left.ppr",
            "左编码器 PPR",
            "编码器",
            "pulse/rev",
            0x00000200,
            1,
            0x000f4240,
            1,
            writable_persistent,
        ),
        numeric_u32(
            101,
            "encoder.right.ppr",
            "右编码器 PPR",
            "编码器",
            "pulse/rev",
            0x00000200,
            1,
            0x000f4240,
            1,
            writable_persistent,
        ),
        quadrature_multiplier(),
        numeric_u32(
            103,
            "encoder.left.cpr",
            "左编码器 CPR",
            "编码器",
            "count/rev",
            0x00000800,
            1,
            0x003d0900,
            1,
            ParamFlags::none(),
        ),
    ];
    proof {
        assert(param_views(v@) =~= catalog_parameters_0());
    }
    v
}

#[verifier::spinoff_prover]
#[verifier::rlimit(60)]
fn catalog_parameter_list_1() -> (v: Vec<ParamDescriptor>)
    ensures
        param_views(v@) == catalog_parameters_1(),
{
    let writable_persistent = ParamFlags(WRITABLE_PERSISTENT);
    let v = vec![
        numeric_u32(
            104,
            "encoder.right.cpr",
            "右编码器 CPR",
            "编码器",
            "count/rev",
            0x00000800,
            1,
            0x003d0900,
            1,
            ParamFlags::none(),
        ),
        boolean(105, "encoder.left.inverted", "左编码器反向", writable_persistent),
        boolean(106, "encoder.right.inverted", "右编码器反向", writable_persistent),
        numeric_f32(
            107,
            "drive.wheel_diameter_mm",
            "Wheel diameter",
            "Drive",
            "mm",
            0x42820000,
            0x3f800000,
            0x447a0000,
            0x3dcccccd,
            writable_persistent,
        ),
        numeric_f32(
            108,
            "drive.gear_ratio",
            "Gear ratio",
            "Drive",
            "ratio",
            0x3f800000,
            0x3c23d70a,
            0x42c80000,
            0x3c23d70a,
            writable_persistent,
        ),
    ];
    proof {
        assert(param_views(v@) =~= catalog_parameters_1());
    }
    v
}

#[verifier::spinoff_prover]
#[verifier::rlimit(60)]
fn catalog_parameter_list_2() -> (v: Vec<ParamDescriptor>)
    ensures
        param_views(v@) == catalog_parameters_2(),
{
    let writable_persistent = ParamFlags(WRITABLE_PERSISTENT);
    let v = vec![
        numeric_u32(
            109,
            "encoder.sample_period_us",
            "编码器采样周期",
            "编码器",
            "us",
            0x00002710,
            100,
            0x000f4240,
            100,
            writable_persistent,
        ),
        numeric_f32(
            110,
            "encoder.speed_lpf_hz",
            "编码器速度低通截止频率",
            "编码器",
            "Hz",
            0x42480000,
            0,
            0x447a0000,
            0x3dcccccd,
            writable_persistent,
        ),
        numeric_u32(
            111,
            "encoder.jump_threshold_counts",
            "编码器跳变阈值",
            "编码器",
            "count",
            0x00002710,
            1,
            0x000f4240,
            1,
            writable_persistent,
        ),
        numeric_f32(
            112,
            "encoder.max_credible_rpm",
            "编码器最大可信转速",
            "编码器",
            "rpm",
            0x461c4000,
            0x3f800000,
            0x47c35000,
            0x3f800000,
            writable_persistent,
        ),
        boolean(113, "encoder.missing_pulse_detection", "编码器丢脉冲检测", writable_persistent),
    ];
    proof {
        assert(param_views(v@) =~= catalog_parameters_2());
    }
    v
}

fn catalog_parameter_list() -> (v: Vec<ParamDescriptor>)
    ensures
        param_views(v@) == catalog_parameters(),
{
    let mut v = catalog_parameter_list_0();
    let mut part = catalog_parameter_list_1();
    let ghost before = v@;
    v.append(&mut part);
    proof {
        assert(param_views(v@) =~= param_views(before) + catalog_parameters_1());
    }
    let mut part = catalog_parameter_list_2();
    let ghost before = v@;
    v.append(&mut part);
    proof {
        assert(param_views(v@) =~= param_views(before) + catalog_parameters_2());
    }
    v
}

fn catalog_channel_list_0() -> (v: Vec<TelemetryDescriptor>)
    ensures
        telemetry_views(v@) == catalog_channels_0(),
{
    let v = vec![
        channel(200, TelemetryType::F32, "drive.speed_mps", "车辆速度", "驱动", "m/s"),
        channel(201, TelemetryType::I32, "encoder.left_delta", "左编码器增量", "编码器", "count"),
        channel(202, TelemetryType::U32, "encoder.left_total", "左编码器总数", "编码器", "count"),
        channel(203, TelemetryType::Flags32, "drive.fault_flags", "驱动故障标志", "驱动", ""),
    ];
    proof {
        assert(telemetry_views(v@) =~= catalog_channels_0());
    }
    v
}

fn catalog_channel_list_1() -> (v: Vec<TelemetryDescriptor>)
    ensures
        telemetry_views(v@) == catalog_channels_1(),
{
    let v = vec![
        channel(204, TelemetryType::U32, "encoder.right_total", "右编码器总数", "编码器", "count"),
        channel(205, TelemetryType::F32, "drive.left_wheel_speed_mps", "左轮速度", "驱动", "m/s"),
        channel(206, TelemetryType::F32, "drive.right_wheel_speed_mps", "右轮速度", "驱动", "m/s"),
        channel(207, TelemetryType::F32, "drive.target_speed_mps", "目标速度", "驱动", "m/s"),
    ];
    proof {
        assert(telemetry_views(v@) =~= catalog_channels_1());
    }
    v
}

fn catalog_channel_list_2() -> (v: Vec<TelemetryDescriptor>)
    ensures
        telemetry_views(v@) == catalog_channels_2(),
{
    let v = vec![
        channel(208, TelemetryType::F32, "drive.speed_error_mps", "速度误差", "控制", "m/s"),
        channel(209, TelemetryType::U32, "motor.left_pwm", "左 PWM", "电机", "permille"),
        channel(210, TelemetryType::U32, "motor.right_pwm", "右 PWM", "电机", "permille"),
        channel(211, TelemetryType::I32, "encoder.right_delta", "右编码器增量", "编码器", "count"),
    ];
    proof {
        assert(telemetry_views(v@) =~= catalog_channels_2());
    }
    v
}

fn catalog_channel_list_3() -> (v: Vec<TelemetryDescriptor>)
    ensures
        telemetry_views(v@) == catalog_channels_3(),
{
    let v = vec![
        channel(212, TelemetryType::U32, "control.loop_jitter_us", "控制环抖动", "控制", "us"),
        channel(213, TelemetryType::F32, "power.battery_voltage", "电池电压", "电源", "V"),
        channel(214, TelemetryType::F32, "steering.error_deg", "转向误差", "转向", "deg"),
        channel(215, TelemetryType::U32, "system.uptime_ms", "运行时间", "系统", "ms"),
    ];
    proof {
        assert(telemetry_views(v@) =~= catalog_channels_3());
    }
    v
}

fn catalog_channel_list() -> (v: Vec<TelemetryDescriptor>)
    ensures
        telemetry_views(v@) == catalog_channels(),
{
    let mut v = catalog_channel_list_0();
    let mut part = catalog_channel_list_1();
    let ghost before = v@;
    v.append(&mut part);
    proof {
        assert(telemetry_views(v@) =~= telemetry_views(before) + catalog_channels_1());
    }
    let mut part = catalog_channel_list_2();
    let ghost before = v@;
    v.append(&mut part);
    proof {
        assert(telemetry_views(v@) =~= telemetry_views(before) + catalog_channels_2());
    }
    let mut part = catalog_channel_list_3();
    let ghost before = v@;
    v.append(&mut part);
    proof {
        assert(telemetry_views(v@) =~= telemetry_views(before) + catalog_channels_3());
    }
    v
}

/// The manifest of the simulated device; see `catalog_manifest`.
pub fn fixed_manifest() -> (m: DeviceManifest)
    ensures
        m@ == catalog_manifest(),
{
    DeviceManifest {
        schema_version: MANIFEST_SCHEMA_VERSION,
        parameters: catalog_parameter_list(),
        telemetry: catalog_channel_list(),
    }
}

} // verus!
