//! The screens of the dashboard: the ride screen with one selectable reading,
//! the fault screen and the screen shown when the state is unknown.
use vstd::prelude::*;
use vstd::string::StringSliceAdditionalSpecFns;
use crate::can::can_frame::{
    be_i16, clamp_temp_to_0, get_battery_current, get_battery_voltage, get_controller_error,
    get_controller_state, get_controller_temp, get_external_temp, get_rpm, lowest_fault,
    fault_code, state_of_code, ControllerError, ControllerState, ThreeVotolFrames,
};
use crate::ledmatrix::api::{
    battery_bar_pixels, battery_leds, char_pixels, decimal_digit, fullscreen_float_pixels, num_4_digits_pixels,
    num_pixels, shown_bytes, text_pixels, trunc_div, trunc_rem, write_battery_bar, write_char,
    write_fullscreen_float, write_num, write_num_4_digits, write_string,
};
use crate::ledmatrix::compositor::{blit_fits, lemma_glyph_box_fits, Compositor};
use crate::ledmatrix::digits::{digit_code, glyph_code, glyph_rows};

verus! {

/// The reading that the ride screen shows in large.
#[derive(Debug, Clone, Copy, PartialEq, Eq, Structural)]
pub enum DisplayValue {
    Rpm,
    Speed,
    ControllerMotorTemp,
    Voltage,
    Current,
    Power,
}

/// The place of each reading in the cycle that the button walks through.
pub open spec fn display_index(v: DisplayValue) -> int {
    match v {
        DisplayValue::Rpm => 0,
        DisplayValue::Speed => 1,
        DisplayValue::ControllerMotorTemp => 2,
        DisplayValue::Voltage => 3,
        DisplayValue::Current => 4,
        DisplayValue::Power => 5,
    }
}

/// The reading that follows `v` in the cycle.
pub open spec fn successor(v: DisplayValue) -> DisplayValue {
    match v {
        DisplayValue::Rpm => DisplayValue::Speed,
        DisplayValue::Speed => DisplayValue::ControllerMotorTemp,
        DisplayValue::ControllerMotorTemp => DisplayValue::Voltage,
        DisplayValue::Voltage => DisplayValue::Current,
        DisplayValue::Current => DisplayValue::Power,
        DisplayValue::Power => DisplayValue::Rpm,
    }
}

/// The reading to show after `v`.
pub fn next(v: DisplayValue) -> (r: DisplayValue)
    ensures
        r == successor(v),
        display_index(r) == (display_index(v) + 1) % 6,
{
    match v {
        DisplayValue::Rpm => DisplayValue::Speed,
        DisplayValue::Speed => DisplayValue::ControllerMotorTemp,
        DisplayValue::ControllerMotorTemp => DisplayValue::Voltage,
        DisplayValue::Voltage => DisplayValue::Current,
        DisplayValue::Current => DisplayValue::Power,
        DisplayValue::Power => DisplayValue::Rpm,
    }
}

/// Pressing the button six times comes back to the same reading, and no
/// fewer presses do: every reading is reached.
pub proof fn lemma_next_cycle(v: DisplayValue)
    ensures
        successor(successor(successor(successor(successor(successor(v)))))) == v,
        successor(v) != v,
        successor(successor(v)) != v,
        successor(successor(successor(v))) != v,
        successor(successor(successor(successor(v)))) != v,
        successor(successor(successor(successor(successor(v))))) != v,
{
}

/// The index of a reading determines it.
pub proof fn lemma_display_index_injective(a: DisplayValue, b: DisplayValue)
    ensures
        display_index(a) == display_index(b) <==> a == b,
        0 <= display_index(a) < 6,
{
}

/// Road speed in km/h from motor rpm, through the 14/60 sprockets, the
/// 20/47 motor reduction and a 2138 mm wheel, computed in 32-bit integers
/// with Rust's rounding toward zero.
pub open spec fn speed_of_rpm(rpm: int) -> int {
    trunc_div(trunc_div(rpm * 14 * 20 * 2138, 1000) * 60, 60 * 47 * 1000int)
}

/// Whether the first product of the speed formula fits in 32 bits.
pub open spec fn speed_in_range(rpm: int) -> bool {
    i32::MIN <= rpm * 14 * 20 * 2138 <= i32::MAX
}

fn rpm_to_speed(rpm: i16) -> (r: u8)
    requires
        speed_in_range(rpm as int),
    ensures
        r == (if speed_of_rpm(rpm as int) < 0 {
            -speed_of_rpm(rpm as int)
        } else {
            speed_of_rpm(rpm as int)
        }),
{
    // todo: runtime config
    let front_sprocket: i32 = 14;
    let rear_sprocket: i32 = 60;
    let motor_reduction_a: i32 = 20;
    let motor_reduction_b: i32 = 47;
    let wheel_circumference: i32 = 2138;  // mm
    let minutes_in_hour: i32 = 60;

    // try to get the number large first
    let speed: i32 = (rpm as i32) * front_sprocket * motor_reduction_a * wheel_circumference / 1000
        * minutes_in_hour / (rear_sprocket * motor_reduction_b * 1000);
    proof {
        let q = trunc_div(rpm * 14 * 20 * 2138, 1000);
        assert(-2147484 <= q <= 2147484);
        assert(-46 <= trunc_div(q * 60, 2820000) <= 46);
        assert(speed == speed_of_rpm(rpm as int));
    }
    let magnitude: i32 = if speed < 0 {
        -speed
    } else {
        speed
    };
    return magnitude as u8;
}

/// The mode letter for the status byte: b (brake), p (park), r (reverse),
/// or the gear 1, 2, 3 and s (sport) from the two low bits.
pub open spec fn mode_char(status: u8) -> u8 {
    if status & 0x10 != 0 {
        98  // b
    } else if status & 0x08 != 0 {
        112  // p
    } else if status & 0x04 != 0 {
        114  // r
    } else if status & 0x02 != 0 {
        if status & 0x01 != 0 {
            115  // s
        } else {
            51  // 3
        }
    } else {
        if status & 0x01 != 0 {
            50  // 2
        } else {
            49  // 1
        }
    }
}

/// The mode letter depends on the low five bits of the status byte only
/// (bits 5 to 7 report antitheft, side stand and regeneration). Brake (bit 4)
/// comes before park (bit 3), park before reverse (bit 2); otherwise the gear
/// in bits 0 and 1 gives 1, 2, 3 or s.
pub proof fn lemma_mode_char_bits(status: u8)
    ensures
        mode_char(status) == mode_char(status & 0x1F),
        status & 0x10 != 0 ==> mode_char(status) == 98,
        status & 0x18 == 0x08 ==> mode_char(status) == 112,
        status & 0x1C == 0x04 ==> mode_char(status) == 114,
        status & 0x1F == 0x00 ==> mode_char(status) == 49,
        status & 0x1F == 0x01 ==> mode_char(status) == 50,
        status & 0x1F == 0x02 ==> mode_char(status) == 51,
        status & 0x1F == 0x03 ==> mode_char(status) == 115,
{
    assert({
        &&& mode_char(status) == mode_char(status & 0x1F)
        &&& status & 0x10 != 0 ==> mode_char(status) == 98
        &&& status & 0x18 == 0x08 ==> mode_char(status) == 112
        &&& status & 0x1C == 0x04 ==> mode_char(status) == 114
        &&& status & 0x1F == 0x00 ==> mode_char(status) == 49
        &&& status & 0x1F == 0x01 ==> mode_char(status) == 50
        &&& status & 0x1F == 0x02 ==> mode_char(status) == 51
        &&& status & 0x1F == 0x03 ==> mode_char(status) == 115
    }) by (bit_vector);
}

fn get_mode_char(frames: &ThreeVotolFrames) -> (r: u8)
    ensures
        r == mode_char(frames[2][6]),
{
    let status_byte = frames[2][6];

    // todo bits 5,6,7 - antitheft, sidestand, regen
    return if status_byte & 0b10000 != 0 {
        98
    } else if status_byte & 0b1000 != 0 {
        112
    } else if status_byte & 0b100 != 0 {
        114
    } else if status_byte & 0b010 != 0 {
        if status_byte & 0b1 != 0 {
            115
        } else {
            51
        }
    } else {
        if status_byte & 0b1 != 0 {
            50
        } else {
            49
        }
    };
}

/// A temperature as the ride screen shows it: negative values as 0, the
/// others cut to a byte.
pub open spec fn shown_temp(t: int) -> u8 {
    (if t < 0 {
        0
    } else {
        t % 256
    }) as u8
}

/// The speed shown on the ride screen, capped at 99.
pub open spec fn shown_speed(rpm: int) -> u8 {
    let s = if speed_of_rpm(rpm) < 0 {
        -speed_of_rpm(rpm)
    } else {
        speed_of_rpm(rpm)
    };
    (if s > 99 {
        99
    } else {
        s
    }) as u8
}

/// What the ride screen draws for the selected reading.
pub open spec fn value_pixels(frames: ThreeVotolFrames, value: DisplayValue) -> Set<(int, int)> {
    let voltage = be_i16(frames[0][7], frames[1][0]);
    let current = be_i16(frames[1][1], frames[1][2]);
    let rpm = be_i16(frames[2][0], frames[2][1]);
    match value {
        DisplayValue::Rpm => num_4_digits_pixels(rpm, 0, 0).union(char_pixels(37, 18, 0)),  // %
        DisplayValue::Speed => num_pixels(shown_speed(rpm), 12, 0),
        DisplayValue::Current => num_4_digits_pixels(current, 0, 0).union(char_pixels(97, 18, 0)),  // a
        DisplayValue::ControllerMotorTemp => num_pixels(shown_temp(frames[2][2] - 50), 0, 0).union(
            char_pixels(42, 8, 0),
        ).union(num_pixels(shown_temp(frames[2][3] - 50), 14, 0)).union(char_pixels(42, 22, 0)),  // *
        DisplayValue::Voltage => fullscreen_float_pixels(voltage),
        DisplayValue::Power => num_4_digits_pixels(trunc_div(current * voltage, 10), 0, 0).union(
            char_pixels(119, 18, 0),
        ),  // w
    }
}

/// Everything the ride screen draws: the selected reading, the battery bar
/// and the mode letter in the last cell.
pub open spec fn ride_pixels(frames: ThreeVotolFrames, value: DisplayValue) -> Set<(int, int)> {
    value_pixels(frames, value).union(
        battery_bar_pixels(be_i16(frames[0][7], frames[1][0])),
    ).union(char_pixels(mode_char(frames[2][6]), 28, 0))
}

/// The frames on which the ride screen's arithmetic stays within its
/// integer types: the battery bar's range, and for the selected reading the
/// speed formula, the power product, or a voltage that is not a negative
/// value with tenths.
pub open spec fn ride_screen_ok(frames: ThreeVotolFrames, value: DisplayValue) -> bool {
    let voltage = be_i16(frames[0][7], frames[1][0]);
    let current = be_i16(frames[1][1], frames[1][2]);
    let rpm = be_i16(frames[2][0], frames[2][1]);
    &&& -1 <= battery_leds(voltage) <= 30
    &&& value == DisplayValue::Speed ==> speed_in_range(rpm)
    &&& value == DisplayValue::Power ==> i16::MIN <= current * voltage <= i16::MAX
    &&& value == DisplayValue::Voltage ==> voltage >= 0 || trunc_rem(voltage, 10) == 0
}

/// Whether `ride_screen` can draw these frames: its arithmetic stays within
/// its integer types.
pub fn ride_screen_in_range(frames: &ThreeVotolFrames, value_to_show: DisplayValue) -> (r: bool)
    ensures
        r == ride_screen_ok(*frames, value_to_show),
{
    let voltage = get_battery_voltage(frames) as i32;
    let current = get_battery_current(frames) as i32;
    let rpm = get_rpm(frames) as i64;
    let leds = ((voltage - 550) * 32) / 290;
    let bar_ok = -1 <= leds && leds <= 30;
    let value_ok = match value_to_show {
        DisplayValue::Speed => {
            let product = rpm * 14 * 20 * 2138;
            i32::MIN as i64 <= product && product <= i32::MAX as i64
        },
        DisplayValue::Power => {
            assert(-1073741824 <= current * voltage <= 1073741824) by (nonlinear_arith)
                requires
                    -32768 <= current <= 32767,
                    -32768 <= voltage <= 32767,
            ;
            let product = current * voltage;
            i16::MIN as i32 <= product && product <= i16::MAX as i32
        },
        DisplayValue::Voltage => voltage >= 0 || voltage % 10 == 0,
        _ => true,
    };
    bar_ok && value_ok
}

/// Draws the ride screen: the selected reading, the battery bar and the mode.
pub fn ride_screen(frames: &ThreeVotolFrames, value_to_show: DisplayValue, compositor: &mut Compositor)
    requires
        ride_screen_ok(*frames, value_to_show),
    ensures
        final(compositor)@ == old(compositor)@.union(ride_pixels(*frames, value_to_show)),
{
    let ghost start = compositor@;
    let battery_voltage = get_battery_voltage(&frames);

    let controller_temp = clamp_temp_to_0(get_controller_temp(&frames));
    let external_temp = clamp_temp_to_0(get_external_temp(&frames));
    let rpm = get_rpm(&frames);
    let current = get_battery_current(frames);

    // todo: state or prop?
    match value_to_show {
        DisplayValue::Rpm => {
            let shown = get_rpm(&frames);
            proof {
                lemma_num_4_digits_fit(shown as int);
                lemma_glyph_box_fits(18, 0, glyph_rows(glyph_code(37)));
            }
            write_num_4_digits(shown, 0, 0, compositor);
            write_char(37, 18, 0, compositor);
        },
        DisplayValue::Speed => {
            let mut speed = rpm_to_speed(rpm);
            // TODO speeds over 100
            if speed > 99 {
                speed = 99;
            }
            proof {
                lemma_glyph_box_fits(12, 0, glyph_rows(digit_code(speed / 10)));
                lemma_glyph_box_fits(16, 0, glyph_rows(digit_code(speed % 10)));
            }
            write_num(speed, 12, 0, compositor);
        },
        DisplayValue::Current => {
            proof {
                lemma_num_4_digits_fit(current as int);
                lemma_glyph_box_fits(18, 0, glyph_rows(glyph_code(97)));
            }
            write_num_4_digits(current as i16, 0, 0, compositor);
            write_char(97, 18, 0, compositor);
        },
        DisplayValue::ControllerMotorTemp => {
            proof {
                lemma_glyph_box_fits(0, 0, glyph_rows(digit_code(controller_temp / 10)));
                lemma_glyph_box_fits(4, 0, glyph_rows(digit_code(controller_temp % 10)));
                lemma_glyph_box_fits(8, 0, glyph_rows(glyph_code(42)));
                lemma_glyph_box_fits(14, 0, glyph_rows(digit_code(external_temp / 10)));
                lemma_glyph_box_fits(18, 0, glyph_rows(digit_code(external_temp % 10)));
                lemma_glyph_box_fits(22, 0, glyph_rows(glyph_code(42)));
            }
            write_num(controller_temp, 0, 0, compositor);
            write_char(42, 8, 0, compositor);
            write_num(external_temp, 14, 0, compositor);
            write_char(42, 22, 0, compositor);
        },
        DisplayValue::Voltage => {
            write_fullscreen_float(battery_voltage, compositor);
        },
        DisplayValue::Power => {
            let power = current * battery_voltage / 10;
            proof {
                lemma_num_4_digits_fit(power as int);
                lemma_glyph_box_fits(18, 0, glyph_rows(glyph_code(119)));
            }
            write_num_4_digits(power, 0, 0, compositor);
            write_char(119, 18, 0, compositor);
        },
    }
    assert(compositor@ =~= start.union(value_pixels(*frames, value_to_show)));

    write_battery_bar(battery_voltage, compositor);

    let mode_char = get_mode_char(frames);
    proof {
        lemma_glyph_box_fits(28, 0, glyph_rows(glyph_code(mode_char)));
    }
    write_char(mode_char, 28, 0, compositor);
    assert(compositor@ =~= start.union(ride_pixels(*frames, value_to_show)));
}

proof fn lemma_num_4_digits_fit(n: int)
    ensures
        blit_fits(0, 0, 3, 6, glyph_rows(digit_code(decimal_digit(n, 1000)))),
        blit_fits(4, 0, 3, 6, glyph_rows(digit_code(decimal_digit(n, 100)))),
        blit_fits(8, 0, 3, 6, glyph_rows(digit_code(decimal_digit(n, 10)))),
        blit_fits(12, 0, 3, 6, glyph_rows(digit_code(decimal_digit(n, 1)))),
{
    lemma_glyph_box_fits(0, 0, glyph_rows(digit_code(decimal_digit(n, 1000))));
    lemma_glyph_box_fits(4, 0, glyph_rows(digit_code(decimal_digit(n, 100))));
    lemma_glyph_box_fits(8, 0, glyph_rows(digit_code(decimal_digit(n, 10))));
    lemma_glyph_box_fits(12, 0, glyph_rows(digit_code(decimal_digit(n, 1))));
}

/// The message for each fault.
pub open spec fn error_text(e: ControllerError) -> Seq<char> {
    match e {
        ControllerError::EBrakeOn => "Emergency Brake On"@,
        ControllerError::OverCurrent => "Hardware Overcurrent"@,
        ControllerError::UnderVoltage => "Low Battery Voltage"@,
        ControllerError::ThrottleHallError => "Hall Sensor Error"@,
        ControllerError::OverVoltage => "High Battery Voltage"@,
        ControllerError::McuError => "Mcu Error"@,
        ControllerError::MotorBlock => "Motor Block Error"@,
        ControllerError::FootplateErr => "Throttle Error"@,
        ControllerError::SpeedControl => "Runaway Error"@,
        ControllerError::WritingEeprom => "EEPROM Writing"@,
        ControllerError::StartUpFailure => "Startup Failure"@,
        ControllerError::Overheat => "Controller Overheat"@,
        ControllerError::OverCurrent1 => "Software Overcurrent"@,
        ControllerError::AcceleratePadalErr => "Throttle Failure"@,
        ControllerError::Ics1Err => "Current Sensor 1 Error"@,
        ControllerError::Ics2Err => "Current Sensor 2 Error"@,
        ControllerError::BreakErr => "Brake Failure"@,
        ControllerError::HallSelError => "Hall Sensor Error"@,
        ControllerError::MosfetDriverFault => "Driver Failure"@,
        ControllerError::MosfetHighShort => "Mosfet High Short"@,
        ControllerError::PhaseOpen => "Phase Wire Open"@,
        ControllerError::PhaseShort => "Phase Wire Short"@,
        ControllerError::McuChipError => "Controller Failure"@,
        ControllerError::PreChargeError => "Pre-charge Failure"@,
        ControllerError::MotorOverheat => "Motor Overheat"@,
        ControllerError::SocZeroError => "Battery Empty"@,
    }
}

proof fn lemma_error_text_key(e: ControllerError)
    ensures
        error_text(e).len() == match e {
            ControllerError::EBrakeOn => 18int,
            ControllerError::OverCurrent => 20int,
            ControllerError::UnderVoltage => 19int,
            ControllerError::ThrottleHallError => 17int,
            ControllerError::OverVoltage => 20int,
            ControllerError::McuError => 9int,
            ControllerError::MotorBlock => 17int,
            ControllerError::FootplateErr => 14int,
            ControllerError::SpeedControl => 13int,
            ControllerError::WritingEeprom => 14int,
            ControllerError::StartUpFailure => 15int,
            ControllerError::Overheat => 19int,
            ControllerError::OverCurrent1 => 20int,
            ControllerError::AcceleratePadalErr => 16int,
            ControllerError::Ics1Err => 22int,
            ControllerError::Ics2Err => 22int,
            ControllerError::BreakErr => 13int,
            ControllerError::HallSelError => 17int,
            ControllerError::MosfetDriverFault => 14int,
            ControllerError::MosfetHighShort => 17int,
            ControllerError::PhaseOpen => 15int,
            ControllerError::PhaseShort => 16int,
            ControllerError::McuChipError => 18int,
            ControllerError::PreChargeError => 18int,
            ControllerError::MotorOverheat => 14int,
            ControllerError::SocZeroError => 13int,
        },
        error_text(e)[0] == match e {
            ControllerError::EBrakeOn => 'E',
            ControllerError::OverCurrent => 'H',
            ControllerError::UnderVoltage => 'L',
            ControllerError::ThrottleHallError => 'H',
            ControllerError::OverVoltage => 'H',
            ControllerError::McuError => 'M',
            ControllerError::MotorBlock => 'M',
            ControllerError::FootplateErr => 'T',
            ControllerError::SpeedControl => 'R',
            ControllerError::WritingEeprom => 'E',
            ControllerError::StartUpFailure => 'S',
            ControllerError::Overheat => 'C',
            ControllerError::OverCurrent1 => 'S',
            ControllerError::AcceleratePadalErr => 'T',
            ControllerError::Ics1Err => 'C',
            ControllerError::Ics2Err => 'C',
            ControllerError::BreakErr => 'B',
            ControllerError::HallSelError => 'H',
            ControllerError::MosfetDriverFault => 'D',
            ControllerError::MosfetHighShort => 'M',
            ControllerError::PhaseOpen => 'P',
            ControllerError::PhaseShort => 'P',
            ControllerError::McuChipError => 'C',
            ControllerError::PreChargeError => 'P',
            ControllerError::MotorOverheat => 'M',
            ControllerError::SocZeroError => 'B',
        },
        error_text(e)[error_text(e).len() - 7] == match e {
            ControllerError::EBrakeOn => 'r',
            ControllerError::OverCurrent => 'c',
            ControllerError::UnderVoltage => 'V',
            ControllerError::ThrottleHallError => 'r',
            ControllerError::OverVoltage => 'V',
            ControllerError::McuError => 'u',
            ControllerError::MotorBlock => 'k',
            ControllerError::FootplateErr => 'e',
            ControllerError::SpeedControl => 'y',
            ControllerError::WritingEeprom => 'W',
            ControllerError::StartUpFailure => 'F',
            ControllerError::Overheat => 'v',
            ControllerError::OverCurrent1 => 'c',
            ControllerError::AcceleratePadalErr => 'F',
            ControllerError::Ics1Err => '1',
            ControllerError::Ics2Err => '2',
            ControllerError::BreakErr => 'F',
            ControllerError::HallSelError => 'r',
            ControllerError::MosfetDriverFault => 'F',
            ControllerError::MosfetHighShort => 'h',
            ControllerError::PhaseOpen => 'r',
            ControllerError::PhaseShort => 'e',
            ControllerError::McuChipError => 'F',
            ControllerError::PreChargeError => 'F',
            ControllerError::MotorOverheat => 'v',
            ControllerError::SocZeroError => 'y',
        },
{
    match e {
        ControllerError::EBrakeOn => {
            reveal_strlit("Emergency Brake On");
        },
        ControllerError::OverCurrent => {
            reveal_strlit("Hardware Overcurrent");
        },
        ControllerError::UnderVoltage => {
            reveal_strlit("Low Battery Voltage");
        },
        ControllerError::ThrottleHallError => {
            reveal_strlit("Hall Sensor Error");
        },
        ControllerError::OverVoltage => {
            reveal_strlit("High Battery Voltage");
        },
        ControllerError::McuError => {
            reveal_strlit("Mcu Error");
        },
        ControllerError::MotorBlock => {
            reveal_strlit("Motor Block Error");
        },
        ControllerError::FootplateErr => {
            reveal_strlit("Throttle Error");
        },
        ControllerError::SpeedControl => {
            reveal_strlit("Runaway Error");
        },
        ControllerError::WritingEeprom => {
            reveal_strlit("EEPROM Writing");
        },
        ControllerError::StartUpFailure => {
            reveal_strlit("Startup Failure");
        },
        ControllerError::Overheat => {
            reveal_strlit("Controller Overheat");
        },
        ControllerError::OverCurrent1 => {
            reveal_strlit("Software Overcurrent");
        },
        ControllerError::AcceleratePadalErr => {
            reveal_strlit("Throttle Failure");
        },
        ControllerError::Ics1Err => {
            reveal_strlit("Current Sensor 1 Error");
        },
        ControllerError::Ics2Err => {
            reveal_strlit("Current Sensor 2 Error");
        },
        ControllerError::BreakErr => {
            reveal_strlit("Brake Failure");
        },
        ControllerError::HallSelError => {
            reveal_strlit("Hall Sensor Error");
        },
        ControllerError::MosfetDriverFault => {
            reveal_strlit("Driver Failure");
        },
        ControllerError::MosfetHighShort => {
            reveal_strlit("Mosfet High Short");
        },
        ControllerError::PhaseOpen => {
            reveal_strlit("Phase Wire Open");
        },
        ControllerError::PhaseShort => {
            reveal_strlit("Phase Wire Short");
        },
        ControllerError::McuChipError => {
            reveal_strlit("Controller Failure");
        },
        ControllerError::PreChargeError => {
            reveal_strlit("Pre-charge Failure");
        },
        ControllerError::MotorOverheat => {
            reveal_strlit("Motor Overheat");
        },
        ControllerError::SocZeroError => {
            reveal_strlit("Battery Empty");
        },
    }
}

/// Each fault has a message of its own; only the two Hall sensor faults
/// (throttle Hall and Hall select) share one.
pub proof fn lemma_error_texts_distinct(e1: ControllerError, e2: ControllerError)
    ensures
        error_text(e1) == error_text(e2) <==> (e1 == e2 || (e1 == ControllerError::ThrottleHallError
            && e2 == ControllerError::HallSelError) || (e1 == ControllerError::HallSelError && e2
            == ControllerError::ThrottleHallError)),
{
    lemma_error_text_key(e1);
    lemma_error_text_key(e2);
}

/// Converts a ControllerError to a descriptive string
pub fn error_to_string(error: &ControllerError) -> (r: &'static str)
    ensures
        r@ == error_text(*error),
{
    match error {
        ControllerError::EBrakeOn => "Emergency Brake On",
        ControllerError::OverCurrent => "Hardware Overcurrent",
        ControllerError::UnderVoltage => "Low Battery Voltage",
        ControllerError::ThrottleHallError => "Hall Sensor Error",
        ControllerError::OverVoltage => "High Battery Voltage",
        ControllerError::McuError => "Mcu Error",
        ControllerError::MotorBlock => "Motor Block Error",
        ControllerError::FootplateErr => "Throttle Error",
        ControllerError::SpeedControl => "Runaway Error",
        ControllerError::WritingEeprom => "EEPROM Writing",
        ControllerError::StartUpFailure => "Startup Failure",
        ControllerError::Overheat => "Controller Overheat",
        ControllerError::OverCurrent1 => "Software Overcurrent",
        ControllerError::AcceleratePadalErr => "Throttle Failure",
        ControllerError::Ics1Err => "Current Sensor 1 Error",
        ControllerError::Ics2Err => "Current Sensor 2 Error",
        ControllerError::BreakErr => "Brake Failure",
        ControllerError::HallSelError => "Hall Sensor Error",
        ControllerError::MosfetDriverFault => "Driver Failure",
        ControllerError::MosfetHighShort => "Mosfet High Short",
        ControllerError::PhaseOpen => "Phase Wire Open",
        ControllerError::PhaseShort => "Phase Wire Short",
        ControllerError::McuChipError => "Controller Failure",
        ControllerError::PreChargeError => "Pre-charge Failure",
        ControllerError::MotorOverheat => "Motor Overheat",
        ControllerError::SocZeroError => "Battery Empty",
    }
}

/// The text of the fault screen: the message of the lowest reported fault,
/// or "Error" when the fault code reports none.
pub open spec fn fault_message(frames: ThreeVotolFrames) -> Seq<char> {
    match lowest_fault(fault_code(frames)) {
        Some(e) => error_text(e),
        None => "Error"@,
    }
}

/// What a screen of text draws: the first eight bytes of the UTF-8 form of
/// `text`, from the top-left corner on.
pub open spec fn text_screen_pixels(text: Seq<char>) -> Set<(int, int)> {
    text_pixels(shown_bytes(vstd::utf8::encode_utf8(text), 0, 8), 0, 0)
}

proof fn lemma_eight_cells_fit(bytes: Seq<u8>)
    ensures
        shown_bytes(bytes, 0, 8).len() <= 8,
{
}

/// Shows the message of the reported fault.
pub fn fault_screen(frames: &ThreeVotolFrames, compositor: &mut Compositor)
    ensures
        final(compositor)@ == old(compositor)@.union(text_screen_pixels(fault_message(*frames))),
{
    if let Some(error) = get_controller_error(frames) {
        let error_message = error_to_string(&error);
        proof {
            lemma_eight_cells_fit(error_message.spec_bytes());
        }
        // Display the error message, up to 8 characters at a time
        write_string(error_message, 0, 0, 0, 8, compositor);
    } else {
        // This is a weird case as we are in error state but the error field is empty.
        let text = "Error";
        proof {
            lemma_eight_cells_fit(text.spec_bytes());
        }
        write_string(text, 0, 0, 0, 8, compositor);
    }
}

/// Shows that the controller state could not be read.
pub fn display_catastrophe_screen(_frames: &ThreeVotolFrames, compositor: &mut Compositor)
    ensures
        final(compositor)@ == old(compositor)@.union(text_screen_pixels("display error"@)),
{
    let text = "display error";
    proof {
        lemma_eight_cells_fit(text.spec_bytes());
    }
    write_string(text, 0, 0, 0, 8, compositor);
}

/// What the dashboard keeps between two frames: the selected reading and
/// whether the button was down at the last look.
#[derive(Debug, Clone, Copy, PartialEq, Eq, Structural)]
pub struct DashState {
    pub value: DisplayValue,
    pub pressed: bool,
}

/// The selected reading after a look at the button: a press that was not
/// down before moves on to the next reading.
pub open spec fn stepped_value(s: DashState, button_low: bool) -> DisplayValue {
    if button_low && !s.pressed {
        successor(s.value)
    } else {
        s.value
    }
}

/// The screen for the controller state in the frames: the fault screen in
/// FAULT, the "display error" screen for an unknown state, the ride screen
/// with `value` otherwise.
pub open spec fn dashboard_pixels(frames: ThreeVotolFrames, value: DisplayValue) -> Set<(int, int)> {
    match state_of_code(frames[2][7]) {
        Some(ControllerState::FAULT) => text_screen_pixels(fault_message(frames)),
        Some(_) => ride_pixels(frames, value),
        None => text_screen_pixels("display error"@),
    }
}

/// The dashboard shows the ride screen for the state codes 0 to 6 (IDLE to
/// WAIT), the fault screen for code 7 (FAULT) and the error screen for
/// every other code.
pub proof fn lemma_dashboard_screen_by_state(frames: ThreeVotolFrames, value: DisplayValue)
    ensures
        frames[2][7] < 7 ==> dashboard_pixels(frames, value) == ride_pixels(frames, value),
        frames[2][7] == 7 ==> dashboard_pixels(frames, value) == text_screen_pixels(
            fault_message(frames),
        ),
        frames[2][7] > 7 ==> dashboard_pixels(frames, value) == text_screen_pixels(
            "display error"@,
        ),
{
}

/// The inputs on which `dashboard_step` can draw: the ride screen's
/// arithmetic stays in range whenever the ride screen is shown.
pub open spec fn dashboard_step_ok(s: DashState, button_low: bool, frames: ThreeVotolFrames) -> bool {
    state_of_code(frames[2][7]) matches Some(st) && st != ControllerState::FAULT ==> ride_screen_ok(
        frames,
        stepped_value(s, button_low),
    )
}

/// Whether `dashboard_step` can draw these inputs.
pub fn dashboard_step_in_range(s: DashState, button_low: bool, frames: &ThreeVotolFrames) -> (r:
    bool)
    ensures
        r == dashboard_step_ok(s, button_low, *frames),
{
    let value = if button_low && !s.pressed {
        next(s.value)
    } else {
        s.value
    };
    match get_controller_state(frames) {
        Some(ControllerState::FAULT) => true,
        Some(_) => ride_screen_in_range(frames, value),
        None => true,
    }
}

/// One turn of the dashboard after a frame has arrived: clears the display,
/// moves on to the next reading on a new press of the button, and draws the
/// screen for the controller state.
pub fn dashboard_step(s: DashState, button_low: bool, frames: &ThreeVotolFrames, c: &mut Compositor) -> (r: DashState)
    requires
        dashboard_step_ok(s, button_low, *frames),
    ensures
        r.pressed == button_low,
        r.value == stepped_value(s, button_low),
        final(c)@ == dashboard_pixels(*frames, r.value),
        frames[2][7] < 7 ==> final(c)@ == ride_pixels(*frames, r.value),
        frames[2][7] == 7 ==> final(c)@ == text_screen_pixels(fault_message(*frames)),
        frames[2][7] > 7 ==> final(c)@ == text_screen_pixels("display error"@),
{
    proof {
        lemma_dashboard_screen_by_state(*frames, stepped_value(s, button_low));
    }
    c.clear();

    // handle value change
    let mut value = s.value;
    let mut pressed = s.pressed;
    if button_low {
        if !pressed {
            value = next(value);
            pressed = true;
        }
    } else {
        pressed = false;
    }

    let ghost empty = c@;
    match get_controller_state(frames) {
        Some(ControllerState::FAULT) => fault_screen(frames, c),
        Some(_) => ride_screen(frames, value, c),
        None => display_catastrophe_screen(frames, c),
    }
    assert(c@ =~= empty.union(dashboard_pixels(*frames, value)));
    assert(c@ =~= dashboard_pixels(*frames, value));
    DashState { value, pressed }
}

} // verus!
