use votol::can::can_communication::create_fake_votol_response;
use votol::can::can_frame::{ControllerError, ThreeVotolFrames};
use votol::ledmatrix::api::{
    flip_byte,
    write_battery_bar, write_char, write_fullscreen_float, write_num, write_num_4_digits,
    write_string,
};
use votol::ledmatrix::compositor::{Compositor, WriteMode};
use votol::ledmatrix::digits::{output_character, output_digit};
use votol::ledmatrix::screens::{
    dashboard_step, dashboard_step_in_range, display_catastrophe_screen, error_to_string,
    fault_screen, next, ride_screen, ride_screen_in_range, DashState, DisplayValue,
};

fn screens(c: &Compositor) -> [[u8; 8]; 4] {
    [c.screen_data(0), c.screen_data(1), c.screen_data(2), c.screen_data(3)]
}

fn lit(c: &Compositor, x: usize, y: usize) -> bool {
    c.screen_data(x / 8)[y] & (0x80 >> (x % 8)) != 0
}

fn lit_pixels(c: &Compositor) -> Vec<(usize, usize)> {
    let mut v = Vec::new();
    for y in 0..8 {
        for x in 0..32 {
            if lit(c, x, y) {
                v.push((x, y));
            }
        }
    }
    v
}

/// The pixels of glyph `g` drawn at `(x, y)`.
fn glyph_at(g: [u8; 8], x: usize, y: usize) -> Vec<(usize, usize)> {
    let mut c = Compositor::new();
    c.blit(x, y, 3, 6, &g);
    lit_pixels(&c)
}

fn frames(battery_voltage: u16, controller_temp: i8, motor_temp: i8, rpm: i16) -> ThreeVotolFrames {
    [
        create_fake_votol_response(0, battery_voltage, controller_temp, motor_temp, rpm),
        create_fake_votol_response(1, battery_voltage, controller_temp, motor_temp, rpm),
        create_fake_votol_response(2, battery_voltage, controller_temp, motor_temp, rpm),
    ]
}

#[test]
fn new_display_is_dark() {
    let c = Compositor::new();
    assert_eq!(screens(&c), [[0u8; 8]; 4]);
}

#[test]
fn clear_turns_everything_off() {
    let mut c = Compositor::new();
    c.write_raw(2, &[0xFF; 8], WriteMode::OVERRIDE);
    c.write_bit(0, 0, true);
    c.clear();
    assert_eq!(screens(&c), [[0u8; 8]; 4]);
}

#[test]
fn write_bit_lights_one_pixel() {
    let mut c = Compositor::new();
    c.write_bit(0, 0, true);
    c.write_bit(9, 3, true);
    c.write_bit(31, 7, false);
    assert_eq!(lit_pixels(&c), vec![(0, 0), (9, 3), (31, 7)]);
    assert_eq!(c.screen_data(0)[0], 0x80);
    assert_eq!(c.screen_data(1)[3], 0x40);
    assert_eq!(c.screen_data(3)[7], 0x01);
}

#[test]
fn write_raw_blend_and_override() {
    let mut c = Compositor::new();
    c.write_raw(1, &[0x0F, 0, 0, 0, 0, 0, 0, 0x81], WriteMode::BLEND);
    c.write_raw(1, &[0xF0, 1, 0, 0, 0, 0, 0, 0], WriteMode::BLEND);
    assert_eq!(c.screen_data(1), [0xFF, 1, 0, 0, 0, 0, 0, 0x81]);
    c.write_raw(1, &[0x10, 0, 0, 0, 0, 0, 0, 0], WriteMode::OVERRIDE);
    assert_eq!(c.screen_data(1), [0x10, 0, 0, 0, 0, 0, 0, 0]);
    assert_eq!(c.screen_data(0), [0; 8]);
    assert_eq!(c.screen_data(2), [0; 8]);
}

#[test]
fn override_then_read_gives_the_bytes_back() {
    let mut c = Compositor::new();
    c.write_raw(3, &[0xAA; 8], WriteMode::BLEND);
    let rows = [1, 2, 4, 8, 16, 32, 64, 128];
    c.write_raw(3, &rows, WriteMode::OVERRIDE);
    assert_eq!(c.screen_data(3), rows);
}

#[test]
fn shift_right_carries_across_matrices() {
    let mut c = Compositor::new();
    c.write_bit(7, 2, true);
    c.write_bit(31, 5, true);
    c.write_bit(0, 0, true);
    c.shift_right();
    assert_eq!(lit_pixels(&c), vec![(1, 0), (8, 2)]);
}

#[test]
fn shift_left_carries_across_matrices() {
    let mut c = Compositor::new();
    c.write_bit(8, 2, true);
    c.write_bit(0, 5, true);
    c.write_bit(31, 0, true);
    c.shift_left();
    assert_eq!(lit_pixels(&c), vec![(30, 0), (7, 2)]);
}

#[test]
fn shift_right_then_left_loses_last_column() {
    let mut c = Compositor::new();
    c.write_raw(0, &[0x81; 8], WriteMode::OVERRIDE);
    c.write_raw(3, &[0x81; 8], WriteMode::OVERRIDE);
    c.shift_right();
    c.shift_left();
    assert_eq!(c.screen_data(0), [0x81; 8]);
    assert_eq!(c.screen_data(3), [0x80; 8]);
}

#[test]
fn blit_draws_the_set_bits_only() {
    let mut c = Compositor::new();
    c.write_bit(5, 5, true);
    c.blit(2, 1, 3, 2, &[0b1010_0000, 0b0100_0000, 0xFF, 0, 0, 0, 0, 0]);
    assert_eq!(lit_pixels(&c), vec![(2, 1), (4, 1), (3, 2), (5, 5)]);
}

#[test]
fn blit_wider_than_a_byte_repeats_columns() {
    let mut c = Compositor::new();
    c.blit(0, 0, 10, 1, &[0b1000_0000, 0, 0, 0, 0, 0, 0, 0]);
    assert_eq!(lit_pixels(&c), vec![(0, 0), (8, 0)]);
}

#[test]
fn glyph_of_one() {
    assert_eq!(output_character(b'1'), [0x40, 0xC0, 0x40, 0x40, 0xE0, 0, 0, 0]);
    assert_eq!(output_digit(1), output_character(b'1'));
}

#[test]
fn glyphs_of_letters_ignore_case() {
    assert_eq!(output_character(b'a'), output_character(b'A'));
    assert_eq!(output_character(b'z'), output_character(b'Z'));
    assert_ne!(output_character(b'A'), output_character(b'B'));
}

#[test]
fn unknown_glyphs_are_blank() {
    assert_eq!(output_character(b' '), [0; 8]);
    assert_eq!(output_character(200), [0; 8]);
    assert_eq!(output_digit(10), [0; 8]);
    assert_eq!(output_digit(25), [0; 8]);
}

#[test]
fn digits_match_characters() {
    for d in 0..10u8 {
        assert_eq!(output_digit(d), output_character(b'0' + d));
    }
}

#[test]
fn write_char_at_offset() {
    let mut c = Compositor::new();
    write_char(b'1', 28, 2, &mut c);
    assert_eq!(lit_pixels(&c), glyph_at(output_character(b'1'), 28, 2));
}

#[test]
fn write_num_two_digits() {
    let mut c = Compositor::new();
    write_num(42, 12, 0, &mut c);
    let mut expected = glyph_at(output_digit(4), 12, 0);
    expected.extend(glyph_at(output_digit(2), 16, 0));
    expected.sort_by_key(|p| (p.1, p.0));
    assert_eq!(lit_pixels(&c), expected);
}

#[test]
fn write_num_hundreds_has_blank_tens() {
    let mut c = Compositor::new();
    write_num(125, 0, 0, &mut c);
    assert_eq!(lit_pixels(&c), glyph_at(output_digit(5), 4, 0));
}

#[test]
fn write_num_4_digits_value() {
    let mut a = Compositor::new();
    write_num_4_digits(1234, 0, 0, &mut a);
    let mut b = Compositor::new();
    b.blit(0, 0, 3, 6, &output_digit(1));
    b.blit(4, 0, 3, 6, &output_digit(2));
    b.blit(8, 0, 3, 6, &output_digit(3));
    b.blit(12, 0, 3, 6, &output_digit(4));
    assert_eq!(screens(&a), screens(&b));
}

#[test]
fn write_num_4_digits_keeps_last_four() {
    let mut a = Compositor::new();
    write_num_4_digits(31234, 0, 0, &mut a);
    let mut b = Compositor::new();
    write_num_4_digits(1234, 0, 0, &mut b);
    assert_eq!(screens(&a), screens(&b));
}

#[test]
fn write_num_4_digits_negative_draws_no_digits_for_nonzero_places() {
    let mut a = Compositor::new();
    write_num_4_digits(-5, 0, 0, &mut a);
    let mut b = Compositor::new();
    b.blit(0, 0, 3, 6, &output_digit(0));
    b.blit(4, 0, 3, 6, &output_digit(0));
    b.blit(8, 0, 3, 6, &output_digit(0));
    assert_eq!(screens(&a), screens(&b));
}

#[test]
fn fullscreen_float_positive() {
    let mut a = Compositor::new();
    write_fullscreen_float(729, &mut a);
    let mut b = Compositor::new();
    write_char(b'7', 4, 0, &mut b);
    write_char(b'2', 8, 0, &mut b);
    b.write_bit(11, 5, true);
    write_char(b'9', 12, 0, &mut b);
    assert_eq!(screens(&a), screens(&b));
}

#[test]
fn fullscreen_float_negative_whole() {
    let mut a = Compositor::new();
    write_fullscreen_float(-120, &mut a);
    // -120 / 10 = -12, which as a byte is 244: 24 + '0' is 'H', then 4
    let mut b = Compositor::new();
    write_char(b'-', 0, 0, &mut b);
    write_char(b'H', 4, 0, &mut b);
    write_char(b'4', 8, 0, &mut b);
    b.write_bit(11, 5, true);
    write_char(b'0', 12, 0, &mut b);
    assert_eq!(screens(&a), screens(&b));
}

#[test]
fn battery_bar_empty_and_full() {
    let mut c = Compositor::new();
    write_battery_bar(550, &mut c);
    assert_eq!(lit_pixels(&c), vec![(0, 7)]);

    let mut c = Compositor::new();
    write_battery_bar(532, &mut c);
    assert_eq!(lit_pixels(&c), vec![]);

    let mut c = Compositor::new();
    write_battery_bar(830, &mut c);
    assert_eq!(c.screen_data(0)[7], 0xFF);
    assert_eq!(c.screen_data(1)[7], 0xFF);
    assert_eq!(c.screen_data(2)[7], 0xFF);
    assert_eq!(c.screen_data(3)[7], 0xFE);
}

#[test]
fn battery_bar_middle() {
    // (729 - 550) * 32 / 290 = 19
    let mut c = Compositor::new();
    write_battery_bar(729, &mut c);
    let expected: Vec<(usize, usize)> = (0..=19).map(|x| (x, 7)).collect();
    assert_eq!(lit_pixels(&c), expected);
}

#[test]
fn write_string_at_most_eight_characters() {
    let mut a = Compositor::new();
    write_string("display error", 0, 0, 0, 8, &mut a);
    let mut b = Compositor::new();
    for (i, ch) in "display ".bytes().enumerate() {
        write_char(ch, 4 * i, 0, &mut b);
    }
    assert_eq!(screens(&a), screens(&b));
}

#[test]
fn write_string_from_offset() {
    let mut a = Compositor::new();
    write_string("Error", 0, 1, 3, 8, &mut a);
    let mut b = Compositor::new();
    write_char(b'o', 0, 1, &mut b);
    write_char(b'r', 4, 1, &mut b);
    assert_eq!(screens(&a), screens(&b));

    let mut c = Compositor::new();
    write_string("Error", 0, 0, 9, 8, &mut c);
    assert_eq!(screens(&c), [[0u8; 8]; 4]);
}

#[test]
fn next_cycles_through_all_values() {
    let order = [
        DisplayValue::Rpm,
        DisplayValue::Speed,
        DisplayValue::ControllerMotorTemp,
        DisplayValue::Voltage,
        DisplayValue::Current,
        DisplayValue::Power,
    ];
    for i in 0..6 {
        assert_eq!(next(order[i]), order[(i + 1) % 6]);
    }
    let mut v = DisplayValue::Voltage;
    for _ in 0..6 {
        v = next(v);
    }
    assert_eq!(v, DisplayValue::Voltage);
}

#[test]
fn error_messages() {
    assert_eq!(error_to_string(&ControllerError::EBrakeOn), "Emergency Brake On");
    assert_eq!(error_to_string(&ControllerError::UnderVoltage), "Low Battery Voltage");
    assert_eq!(error_to_string(&ControllerError::ThrottleHallError), "Hall Sensor Error");
    assert_eq!(error_to_string(&ControllerError::HallSelError), "Hall Sensor Error");
    assert_eq!(error_to_string(&ControllerError::PreChargeError), "Pre-charge Failure");
    assert_eq!(error_to_string(&ControllerError::SocZeroError), "Battery Empty");
}

#[test]
fn fault_screen_shows_lowest_fault() {
    let f = frames(729, 24, 30, 0);
    let mut a = Compositor::new();
    fault_screen(&f, &mut a);
    let mut b = Compositor::new();
    write_string("Low Battery Voltage", 0, 0, 0, 8, &mut b);
    assert_eq!(screens(&a), screens(&b));
}

#[test]
fn fault_screen_without_fault_bits() {
    let mut f = frames(729, 24, 30, 0);
    f[1][7] = 0;
    let mut a = Compositor::new();
    fault_screen(&f, &mut a);
    let mut b = Compositor::new();
    write_string("Error", 0, 0, 0, 8, &mut b);
    assert_eq!(screens(&a), screens(&b));
}

#[test]
fn catastrophe_screen() {
    let f = [[0u8; 8]; 3];
    let mut a = Compositor::new();
    display_catastrophe_screen(&f, &mut a);
    let mut b = Compositor::new();
    write_string("display ", 0, 0, 0, 8, &mut b);
    assert_eq!(screens(&a), screens(&b));
}

fn ride_common(f: &ThreeVotolFrames, b: &mut Compositor, mode: u8) {
    write_battery_bar(729, b);
    write_char(mode, 28, 0, b);
    let _ = f;
}

#[test]
fn ride_screen_voltage() {
    let f = frames(729, 24, 30, 0);
    let mut a = Compositor::new();
    ride_screen(&f, DisplayValue::Voltage, &mut a);
    let mut b = Compositor::new();
    write_fullscreen_float(729, &mut b);
    // status byte 0x01: gear 2
    ride_common(&f, &mut b, b'2');
    assert_eq!(screens(&a), screens(&b));
}

#[test]
fn ride_screen_rpm() {
    let f = frames(729, 24, 30, 1200);
    let mut a = Compositor::new();
    ride_screen(&f, DisplayValue::Rpm, &mut a);
    let mut b = Compositor::new();
    write_num_4_digits(1200, 0, 0, &mut b);
    write_char(b'%', 18, 0, &mut b);
    ride_common(&f, &mut b, b'2');
    assert_eq!(screens(&a), screens(&b));
}

#[test]
fn ride_screen_speed() {
    // 3000 rpm: 3000 * 598640 / 1000 * 60 / 2820000 = 38 km/h
    let f = frames(729, 24, 30, 3000);
    let mut a = Compositor::new();
    ride_screen(&f, DisplayValue::Speed, &mut a);
    let mut b = Compositor::new();
    write_num(38, 12, 0, &mut b);
    ride_common(&f, &mut b, b'2');
    assert_eq!(screens(&a), screens(&b));
}

#[test]
fn ride_screen_speed_reverse_is_positive() {
    let f = frames(729, 24, 30, -3000);
    let mut a = Compositor::new();
    ride_screen(&f, DisplayValue::Speed, &mut a);
    let mut b = Compositor::new();
    write_num(38, 12, 0, &mut b);
    ride_common(&f, &mut b, b'2');
    assert_eq!(screens(&a), screens(&b));
}

#[test]
fn ride_screen_temperatures() {
    let f = frames(729, 24, -10, 0);
    let mut a = Compositor::new();
    ride_screen(&f, DisplayValue::ControllerMotorTemp, &mut a);
    let mut b = Compositor::new();
    write_num(24, 0, 0, &mut b);
    write_char(b'*', 8, 0, &mut b);
    write_num(0, 14, 0, &mut b);
    write_char(b'*', 22, 0, &mut b);
    ride_common(&f, &mut b, b'2');
    assert_eq!(screens(&a), screens(&b));
}

#[test]
fn ride_screen_current_and_power() {
    let mut f = frames(729, 24, 30, 0);
    // 12.3 A
    f[1][1] = 0;
    f[1][2] = 123;
    let mut a = Compositor::new();
    ride_screen(&f, DisplayValue::Current, &mut a);
    let mut b = Compositor::new();
    write_num_4_digits(123, 0, 0, &mut b);
    write_char(b'a', 18, 0, &mut b);
    ride_common(&f, &mut b, b'2');
    assert_eq!(screens(&a), screens(&b));

    // 123 * 729 overflows 16 bits; use a smaller current: 2.0 A
    f[1][2] = 20;
    let mut a = Compositor::new();
    ride_screen(&f, DisplayValue::Power, &mut a);
    let mut b = Compositor::new();
    write_num_4_digits(20 * 729 / 10, 0, 0, &mut b);
    write_char(b'w', 18, 0, &mut b);
    ride_common(&f, &mut b, b'2');
    assert_eq!(screens(&a), screens(&b));
}

#[test]
fn ride_screen_mode_letters() {
    let cases = [
        (0x10u8, b'b'),
        (0x1F, b'b'),
        (0x08, b'p'),
        (0x04, b'r'),
        (0x03, b's'),
        (0x02, b'3'),
        (0x01, b'2'),
        (0x00, b'1'),
        (0xE0, b'1'),
    ];
    for (status, letter) in cases {
        let mut f = frames(729, 24, 30, 0);
        f[2][6] = status;
        let mut a = Compositor::new();
        ride_screen(&f, DisplayValue::Voltage, &mut a);
        let mut b = Compositor::new();
        write_fullscreen_float(729, &mut b);
        ride_common(&f, &mut b, letter);
        assert_eq!(screens(&a), screens(&b));
    }
}

#[test]
fn ride_screen_range_check() {
    let f = frames(729, 24, 30, 3000);
    assert!(ride_screen_in_range(&f, DisplayValue::Speed));
    assert!(ride_screen_in_range(&f, DisplayValue::Voltage));
    // battery bar: 532 is the lowest and 830 the highest voltage it can draw
    assert!(ride_screen_in_range(&frames(532, 0, 0, 0), DisplayValue::Rpm));
    assert!(!ride_screen_in_range(&frames(531, 0, 0, 0), DisplayValue::Rpm));
    assert!(ride_screen_in_range(&frames(830, 0, 0, 0), DisplayValue::Rpm));
    assert!(!ride_screen_in_range(&frames(840, 0, 0, 0), DisplayValue::Rpm));
    // speed formula: 3587 rpm fits in 32 bits, 3588 does not
    assert!(ride_screen_in_range(&frames(729, 0, 0, 3587), DisplayValue::Speed));
    assert!(!ride_screen_in_range(&frames(729, 0, 0, 3588), DisplayValue::Speed));
    assert!(!ride_screen_in_range(&frames(729, 0, 0, -3588), DisplayValue::Speed));
    assert!(ride_screen_in_range(&frames(729, 0, 0, 3588), DisplayValue::Rpm));
    // power: 0.1 A * 72.9 V fits, 12.3 A * 72.9 V does not
    let mut p = frames(729, 0, 0, 0);
    assert!(ride_screen_in_range(&p, DisplayValue::Power));
    p[1][2] = 123;
    assert!(!ride_screen_in_range(&p, DisplayValue::Power));
    assert!(ride_screen_in_range(&p, DisplayValue::Current));
}

#[test]
fn flip_byte_reverses_bits() {
    assert_eq!(flip_byte(0b0000_0111), 0b1110_0000);
    assert_eq!(flip_byte(0b1000_0000), 0b0000_0001);
    assert_eq!(flip_byte(0b1101_0010), 0b0100_1011);
    for b in 0..=255u8 {
        assert_eq!(flip_byte(flip_byte(b)), b);
        assert_eq!(flip_byte(b), b.reverse_bits());
    }
}

#[test]
fn dashboard_press_moves_on_once() {
    let f = frames(729, 24, 30, 1200); // state 7: FAULT
    let mut c = Compositor::new();
    let s = DashState { value: DisplayValue::Rpm, pressed: false };
    let s = dashboard_step(s, true, &f, &mut c);
    assert_eq!(s, DashState { value: DisplayValue::Speed, pressed: true });
    let s = dashboard_step(s, true, &f, &mut c);
    assert_eq!(s, DashState { value: DisplayValue::Speed, pressed: true });
    let s = dashboard_step(s, false, &f, &mut c);
    assert_eq!(s, DashState { value: DisplayValue::Speed, pressed: false });
    let s = dashboard_step(s, true, &f, &mut c);
    assert_eq!(s, DashState { value: DisplayValue::ControllerMotorTemp, pressed: true });
}

#[test]
fn dashboard_shows_screen_for_state() {
    let s = DashState { value: DisplayValue::Voltage, pressed: false };

    // FAULT: the fault screen, on a cleared display
    let f = frames(729, 24, 30, 1200);
    let mut a = Compositor::new();
    a.write_raw(3, &[0xFF; 8], WriteMode::OVERRIDE);
    dashboard_step(s, false, &f, &mut a);
    let mut b = Compositor::new();
    fault_screen(&f, &mut b);
    assert_eq!(screens(&a), screens(&b));

    // RUN: the ride screen
    let mut f = frames(729, 24, 30, 1200);
    f[2][7] = 3;
    assert!(dashboard_step_in_range(s, false, &f));
    let mut a = Compositor::new();
    a.write_bit(0, 0, true);
    dashboard_step(s, false, &f, &mut a);
    let mut b = Compositor::new();
    ride_screen(&f, DisplayValue::Voltage, &mut b);
    assert_eq!(screens(&a), screens(&b));

    // unknown state: the error screen
    f[2][7] = 9;
    let mut a = Compositor::new();
    dashboard_step(s, false, &f, &mut a);
    let mut b = Compositor::new();
    display_catastrophe_screen(&f, &mut b);
    assert_eq!(screens(&a), screens(&b));
}

#[test]
fn dashboard_range_check_uses_next_value() {
    let mut f = frames(729, 0, 0, 0);
    f[2][7] = 3;
    f[1][2] = 123; // 12.3 A * 72.9 V overflows the power product
    let s = DashState { value: DisplayValue::Current, pressed: false };
    assert!(dashboard_step_in_range(s, false, &f));
    assert!(!dashboard_step_in_range(s, true, &f));
    f[2][7] = 7;
    assert!(dashboard_step_in_range(s, true, &f));
}
