use votol::can::can_communication::{
    create_fake_votol_response, handle_frame, votol_query_messages, FrameId, VOTOL_QUERY_ID,
    VOTOL_RESPONSE_ID,
};
use votol::can::can_frame::{
    clamp_temp_to_0, combine_two_bytes_into_i16, get_battery_current, get_battery_voltage,
    get_controller_error, get_controller_state, get_controller_temp, get_external_temp, get_rpm,
    ControllerError, ControllerState, ThreeVotolFrames,
};

fn fake(battery_voltage: u16, controller_temp: i8, motor_temp: i8, rpm: i16) -> ThreeVotolFrames {
    [
        create_fake_votol_response(0, battery_voltage, controller_temp, motor_temp, rpm),
        create_fake_votol_response(1, battery_voltage, controller_temp, motor_temp, rpm),
        create_fake_votol_response(2, battery_voltage, controller_temp, motor_temp, rpm),
    ]
}

fn with_fault_code(code: u32) -> ThreeVotolFrames {
    let mut frames = [[0u8; 8]; 3];
    frames[1][4] = (code >> 24) as u8;
    frames[1][5] = (code >> 16) as u8;
    frames[1][6] = (code >> 8) as u8;
    frames[1][7] = code as u8;
    frames
}

#[test]
fn combine_positive_value() {
    assert_eq!(combine_two_bytes_into_i16(0x12, 0x34), 0x1234);
    assert_eq!(combine_two_bytes_into_i16(0x00, 0xFF), 255);
    assert_eq!(combine_two_bytes_into_i16(0x7F, 0xFF), 32767);
}

#[test]
fn combine_negative_value() {
    assert_eq!(combine_two_bytes_into_i16(0xFF, 0xFF), -1);
    assert_eq!(combine_two_bytes_into_i16(0x80, 0x00), -32768);
    assert_eq!(combine_two_bytes_into_i16(0xFF, 0x00), -256);
}

#[test]
fn combine_inverts_byte_split() {
    for v in [i16::MIN, -1234, -1, 0, 1, 255, 256, 729, i16::MAX] {
        let hi = (v >> 8) as u8;
        let lo = (v & 0xFF) as u8;
        assert_eq!(combine_two_bytes_into_i16(hi, lo), v);
    }
}

#[test]
fn readings_of_recorded_response() {
    // 72.9 V, 0.1 A, 1200 rpm, 24 C controller, 190 C external
    let frames: ThreeVotolFrames = [
        [0x09, 0x55, 0xaa, 0xaa, 0x00, 0x00, 0x00, 0x02],
        [0xd9, 0x00, 0x01, 0x00, 0x00, 0x00, 0x00, 0x84],
        [0x04, 0xb0, 74, 240, 0x00, 0x00, 0x01, 0x07],
    ];
    assert_eq!(get_battery_voltage(&frames), 729);
    assert_eq!(get_battery_current(&frames), 1);
    assert_eq!(get_rpm(&frames), 1200);
    assert_eq!(get_controller_temp(&frames), 24);
    assert_eq!(get_external_temp(&frames), 190);
    assert_eq!(get_controller_state(&frames), Some(ControllerState::FAULT));
    assert_eq!(get_controller_error(&frames), Some(ControllerError::UnderVoltage));
}

#[test]
fn temperatures_below_zero() {
    let frames = fake(700, -20, -50, 0);
    assert_eq!(get_controller_temp(&frames), -20);
    assert_eq!(get_external_temp(&frames), -50);
}

#[test]
fn clamp_negative_temperature() {
    assert_eq!(clamp_temp_to_0(-1), 0);
    assert_eq!(clamp_temp_to_0(-50), 0);
    assert_eq!(clamp_temp_to_0(i16::MIN), 0);
}

#[test]
fn clamp_keeps_low_byte() {
    assert_eq!(clamp_temp_to_0(0), 0);
    assert_eq!(clamp_temp_to_0(100), 100);
    assert_eq!(clamp_temp_to_0(255), 255);
    assert_eq!(clamp_temp_to_0(300), 44);
}

#[test]
fn state_codes() {
    let states = [
        ControllerState::IDLE,
        ControllerState::INIT,
        ControllerState::START,
        ControllerState::RUN,
        ControllerState::STOP,
        ControllerState::BRAKE,
        ControllerState::WAIT,
        ControllerState::FAULT,
    ];
    for (code, state) in states.iter().enumerate() {
        let mut frames = [[0u8; 8]; 3];
        frames[2][7] = code as u8;
        assert_eq!(get_controller_state(&frames), Some(*state));
        let back: u8 = (*state).into();
        assert_eq!(back as usize, code);
        assert_eq!(ControllerState::try_from(code as u8), Ok(*state));
    }
}

#[test]
fn unknown_state_code() {
    for code in [8u8, 9, 100, 255] {
        let mut frames = [[0u8; 8]; 3];
        frames[2][7] = code;
        assert_eq!(get_controller_state(&frames), None);
        assert_eq!(ControllerState::try_from(code), Err(()));
    }
}

#[test]
fn no_fault() {
    assert_eq!(get_controller_error(&with_fault_code(0)), None);
}

#[test]
fn each_fault_alone() {
    let faults = [
        (0x1u32, ControllerError::EBrakeOn),
        (0x2, ControllerError::OverCurrent),
        (0x4, ControllerError::UnderVoltage),
        (0x8, ControllerError::ThrottleHallError),
        (0x10, ControllerError::OverVoltage),
        (0x20, ControllerError::McuError),
        (0x40, ControllerError::MotorBlock),
        (0x80, ControllerError::FootplateErr),
        (0x100, ControllerError::SpeedControl),
        (0x200, ControllerError::WritingEeprom),
        (0x800, ControllerError::StartUpFailure),
        (0x1000, ControllerError::Overheat),
        (0x2000, ControllerError::OverCurrent1),
        (0x4000, ControllerError::AcceleratePadalErr),
        (0x8000, ControllerError::Ics1Err),
        (0x10000, ControllerError::Ics2Err),
        (0x20000, ControllerError::BreakErr),
        (0x40000, ControllerError::HallSelError),
        (0x80000, ControllerError::MosfetDriverFault),
        (0x100000, ControllerError::MosfetHighShort),
        (0x200000, ControllerError::PhaseOpen),
        (0x400000, ControllerError::PhaseShort),
        (0x800000, ControllerError::McuChipError),
        (0x1000000, ControllerError::PreChargeError),
        (0x8000000, ControllerError::MotorOverheat),
        (0x80000000, ControllerError::SocZeroError),
    ];
    for (mask, fault) in faults {
        assert_eq!(get_controller_error(&with_fault_code(mask)), Some(fault));
    }
}

#[test]
fn lowest_fault_wins() {
    assert_eq!(get_controller_error(&with_fault_code(0x84)), Some(ControllerError::UnderVoltage));
    assert_eq!(
        get_controller_error(&with_fault_code(0x80000000 | 0x8000)),
        Some(ControllerError::Ics1Err)
    );
    assert_eq!(get_controller_error(&with_fault_code(0xFFFFFFFF)), Some(ControllerError::EBrakeOn));
}

#[test]
fn unlisted_fault_bits_give_none() {
    assert_eq!(get_controller_error(&with_fault_code(0x400)), None);
    assert_eq!(get_controller_error(&with_fault_code(0x2000000 | 0x4000000 | 0x70000000)), None);
    assert_eq!(get_controller_error(&with_fault_code(0x400 | 0x10)), Some(ControllerError::OverVoltage));
}

#[test]
fn fake_response_reads_back() {
    let frames = fake(729, 24, -10, -1500);
    assert_eq!(get_battery_voltage(&frames), 729);
    assert_eq!(get_battery_current(&frames), 1);
    assert_eq!(get_rpm(&frames), -1500);
    assert_eq!(get_controller_temp(&frames), 24);
    assert_eq!(get_external_temp(&frames), -10);
    assert_eq!(get_controller_state(&frames), Some(ControllerState::FAULT));
    assert_eq!(get_controller_error(&frames), Some(ControllerError::UnderVoltage));
}

#[test]
fn fake_response_bytes() {
    assert_eq!(
        create_fake_votol_response(0, 0x1234, 0, 0, 0),
        [0x09, 0x55, 0xaa, 0xaa, 0x00, 0x00, 0x00, 0x12]
    );
    assert_eq!(
        create_fake_votol_response(1, 0x1234, 0, 0, 0),
        [0x34, 0x00, 0x01, 0x00, 0x00, 0x00, 0x00, 0x84]
    );
    assert_eq!(
        create_fake_votol_response(2, 0, 77, -60, -2),
        [0xFF, 0xFE, 127, 246, 0x00, 0x00, 0x01, 0x07]
    );
}

#[test]
fn fake_voltage_above_i16_reads_negative() {
    let frames = fake(40000, 0, 0, 0);
    assert_eq!(get_battery_voltage(&frames), (40000i32 - 65536) as i16);
    assert_eq!(votol::can_frame::get_battery_voltage(&frames), 40000);
}

#[test]
fn query_frames() {
    let m = votol_query_messages();
    assert_eq!(m[0], [9, 85, 170, 170, 0, 170, 0, 0]);
    assert_eq!(m[1], [0, 24, 170, 5, 210, 0, 32, 51]);
    assert_eq!(VOTOL_QUERY_ID, 1023);
    assert_eq!(VOTOL_RESPONSE_ID, 1022);
}

#[test]
fn response_frames_fill_slots_in_order() {
    let mut frames = [[0u8; 8]; 3];
    let mut counter = 0usize;
    let data = [
        [1u8, 2, 3, 4, 5, 6, 7, 8],
        [11u8, 12, 13, 14, 15, 16, 17, 18],
        [21u8, 22, 23, 24, 25, 26, 27, 28],
    ];
    for d in data.iter() {
        handle_frame(FrameId::Standard(1022), d, &mut counter, &mut frames);
    }
    assert_eq!(frames, data);
    assert_eq!(counter, 0);
    handle_frame(FrameId::Standard(1022), &[9, 9, 9, 9, 9, 9, 9, 9, 9], &mut counter, &mut frames);
    assert_eq!(frames[0], [9; 8]);
    assert_eq!(frames[1], data[1]);
    assert_eq!(counter, 1);
}

#[test]
fn other_frames_are_ignored() {
    let mut frames = [[5u8; 8]; 3];
    let mut counter = 2usize;
    handle_frame(FrameId::Standard(1023), &[1, 2, 3, 4, 5, 6, 7, 8], &mut counter, &mut frames);
    handle_frame(FrameId::Extended(1022), &[1, 2, 3], &mut counter, &mut frames);
    handle_frame(FrameId::Standard(7), &[], &mut counter, &mut frames);
    assert_eq!(frames, [[5u8; 8]; 3]);
    assert_eq!(counter, 2);
}

#[test]
fn first_decoders() {
    let frames = fake(729, 24, 0, 0);
    assert_eq!(votol::can_frame::get_battery_voltage(&frames), 729);
    assert_eq!(votol::can_frame::get_controller_temp(&frames), 24);
    let frames = fake(0xFFFF, 0, 0, 0);
    assert_eq!(votol::can_frame::get_battery_voltage(&frames), 0xFFFF);
    assert_eq!(votol::can_frame::get_controller_temp(&frames), 0);
}

#[test]
fn response_frames_fill_slots_with_other_frames_between() {
    let mut frames = [[0u8; 8]; 3];
    let mut counter = 0usize;
    let other = [0xEEu8; 8];
    handle_frame(FrameId::Extended(5), &other, &mut counter, &mut frames);
    handle_frame(FrameId::Standard(1022), &[1; 8], &mut counter, &mut frames);
    handle_frame(FrameId::Standard(1023), &other, &mut counter, &mut frames);
    handle_frame(FrameId::Standard(100), &other, &mut counter, &mut frames);
    handle_frame(FrameId::Standard(1022), &[2; 8], &mut counter, &mut frames);
    handle_frame(FrameId::Standard(1022), &[3; 8], &mut counter, &mut frames);
    handle_frame(FrameId::Extended(1022), &other, &mut counter, &mut frames);
    assert_eq!(frames, [[1; 8], [2; 8], [3; 8]]);
    assert_eq!(counter, 0);
}
