//! Decoding of the live-data response of the controller.
//!
//! The controller answers a live-data query with three standard CAN frames of
//! eight bytes each. Seen as one 24-byte message, byte `8 * f + i` is byte `i`
//! of frame `f`. Multi-byte values are big-endian.
use vstd::prelude::*;

verus! {

/// The three data frames of one live-data response, in the order they arrive.
pub type ThreeVotolFrames = [[u8; 8]; 3];

/// A reading in tenths of the unit (volts, amperes).
pub type FixedPointOneTenth = i16;

/// The operating state reported in the last byte of the third frame.
#[derive(Debug, Clone, Copy, PartialEq, Eq, Structural)]
pub enum ControllerState {
    IDLE,
    INIT,
    START,
    RUN,
    STOP,
    BRAKE,
    WAIT,
    FAULT,
}

/// The wire code of each state.
pub open spec fn state_code(s: ControllerState) -> u8 {
    match s {
        ControllerState::IDLE => 0,
        ControllerState::INIT => 1,
        ControllerState::START => 2,
        ControllerState::RUN => 3,
        ControllerState::STOP => 4,
        ControllerState::BRAKE => 5,
        ControllerState::WAIT => 6,
        ControllerState::FAULT => 7,
    }
}

/// The state that a wire code stands for; codes above 7 stand for none.
pub open spec fn state_of_code(code: u8) -> Option<ControllerState> {
    if code == 0 {
        Some(ControllerState::IDLE)
    } else if code == 1 {
        Some(ControllerState::INIT)
    } else if code == 2 {
        Some(ControllerState::START)
    } else if code == 3 {
        Some(ControllerState::RUN)
    } else if code == 4 {
        Some(ControllerState::STOP)
    } else if code == 5 {
        Some(ControllerState::BRAKE)
    } else if code == 6 {
        Some(ControllerState::WAIT)
    } else if code == 7 {
        Some(ControllerState::FAULT)
    } else {
        None
    }
}

impl From<ControllerState> for u8 {
    fn from(s: ControllerState) -> (r: u8) {
        match s {
            ControllerState::IDLE => 0,
            ControllerState::INIT => 1,
            ControllerState::START => 2,
            ControllerState::RUN => 3,
            ControllerState::STOP => 4,
            ControllerState::BRAKE => 5,
            ControllerState::WAIT => 6,
            ControllerState::FAULT => 7,
        }
    }
}

impl vstd::std_specs::convert::FromSpecImpl<ControllerState> for u8 {
    open spec fn obeys_from_spec() -> bool {
        true
    }

    open spec fn from_spec(s: ControllerState) -> u8 {
        state_code(s)
    }
}

impl TryFrom<u8> for ControllerState {
    type Error = ();

    fn try_from(value: u8) -> (r: Result<ControllerState, ()>) {
        match value {
            0 => Ok(ControllerState::IDLE),
            1 => Ok(ControllerState::INIT),
            2 => Ok(ControllerState::START),
            3 => Ok(ControllerState::RUN),
            4 => Ok(ControllerState::STOP),
            5 => Ok(ControllerState::BRAKE),
            6 => Ok(ControllerState::WAIT),
            7 => Ok(ControllerState::FAULT),
            _ => Err(()),
        }
    }
}

impl vstd::std_specs::convert::TryFromSpecImpl<u8> for ControllerState {
    open spec fn obeys_try_from_spec() -> bool {
        true
    }

    open spec fn try_from_spec(v: u8) -> Result<ControllerState, ()> {
        match state_of_code(v) {
            Some(s) => Ok(s),
            None => Err(()),
        }
    }
}

/// Every state survives the trip to its wire code and back, and every code
/// that stands for a state is the code of that state.
pub proof fn lemma_state_code_roundtrip(s: ControllerState, code: u8)
    ensures
        state_of_code(state_code(s)) == Some(s),
        state_of_code(code) matches Some(t) ==> state_code(t) == code,
        state_of_code(code) is Some <==> code <= 7,
{
}

/// The signed 16-bit value whose big-endian two's-complement bytes are
/// `hi` and `lo`.
pub open spec fn be_i16(hi: u8, lo: u8) -> int {
    if hi < 128 {
        hi * 256 + lo
    } else {
        hi * 256 + lo - 65536
    }
}

/// The high byte of the two's-complement form of `v`.
pub open spec fn hi_byte(v: int) -> u8 {
    ((if v < 0 { v + 65536 } else { v }) / 256) as u8
}

/// The low byte of the two's-complement form of `v`.
pub open spec fn lo_byte(v: int) -> u8 {
    (v % 256) as u8
}

/// Splitting a 16-bit value into its two bytes and joining them gives it back.
pub proof fn lemma_bytes_roundtrip(v: i16)
    ensures
        be_i16(hi_byte(v as int), lo_byte(v as int)) == v,
{
}

/// Joining two bytes and splitting the result gives them back.
pub proof fn lemma_bytes_roundtrip_rev(hi: u8, lo: u8)
    ensures
        hi_byte(be_i16(hi, lo)) == hi,
        lo_byte(be_i16(hi, lo)) == lo,
{
}

/// Interprets `a` as the high and `b` as the low byte of a big-endian
/// two's-complement 16-bit integer.
pub fn combine_two_bytes_into_i16(a: u8, b: u8) -> (r: i16)
    ensures
        r == be_i16(a, b),
{
    if a < 128 {
        (a as i16) * 256 + (b as i16)
    } else {
        ((a as i16) - 256) * 256 + (b as i16)
    }
}

/// Battery voltage in tenths of a volt (message bytes 7 and 8).
pub fn get_battery_voltage(frames: &ThreeVotolFrames) -> (r: FixedPointOneTenth)
    ensures
        r == be_i16(frames[0][7], frames[1][0]),
{
    combine_two_bytes_into_i16(frames[0][7], frames[1][0])
}

/// Battery current in tenths of an ampere (message bytes 9 and 10).
pub fn get_battery_current(frames: &ThreeVotolFrames) -> (r: FixedPointOneTenth)
    ensures
        r == be_i16(frames[1][1], frames[1][2]),
{
    combine_two_bytes_into_i16(frames[1][1], frames[1][2])
}

/// Motor speed in revolutions per minute (message bytes 16 and 17).
pub fn get_rpm(frames: &ThreeVotolFrames) -> (r: i16)
    ensures
        r == be_i16(frames[2][0], frames[2][1]),
{
    combine_two_bytes_into_i16(frames[2][0], frames[2][1])
}

/// Controller temperature in degrees Celsius. The byte carries a +50 offset:
/// 80 C is sent as 130, -10 C as 40.
pub fn get_controller_temp(frames: &ThreeVotolFrames) -> (r: i16)
    ensures
        r == frames[2][2] - 50,
{
    (frames[2][2] as i16) - 50
}

/// External (motor) temperature in degrees Celsius, with the same +50 offset.
pub fn get_external_temp(frames: &ThreeVotolFrames) -> (r: i16)
    ensures
        r == frames[2][3] - 50,
{
    (frames[2][3] as i16) - 50
}

/// Negative temperatures become 0; the others are cut to their low byte.
pub fn clamp_temp_to_0(temp: i16) -> (r: u8)
    ensures
        r == (if temp < 0 { 0 } else { temp % 256 }),
{
    if temp < 0 {
        0
    } else {
        assert(temp >= 0 ==> (temp as u8) == temp % 256) by (bit_vector);
        temp as u8
    }
}

/// The controller state from the last byte of the third frame, or `None` for
/// a code that names no state.
pub fn get_controller_state(frames: &ThreeVotolFrames) -> (r: Option<ControllerState>)
    ensures
        r == state_of_code(frames[2][7]),
{
    return match ControllerState::try_from(frames[2][7]) {
        Ok(state) => Some(state),
        Err(_) => None,
    };
}

/// The faults that the controller reports, each one bit of the fault code.
#[derive(Debug, Clone, Copy, PartialEq, Eq, Structural)]
pub enum ControllerError {
    EBrakeOn,
    OverCurrent,
    UnderVoltage,
    ThrottleHallError,
    OverVoltage,
    McuError,
    MotorBlock,
    FootplateErr,
    SpeedControl,
    WritingEeprom,
    StartUpFailure,
    Overheat,
    OverCurrent1,
    AcceleratePadalErr,
    Ics1Err,
    Ics2Err,
    BreakErr,
    HallSelError,
    MosfetDriverFault,
    MosfetHighShort,
    PhaseOpen,
    PhaseShort,
    McuChipError,
    PreChargeError,
    MotorOverheat,
    SocZeroError,
}

/// The bit of the fault code that reports each fault.
pub open spec fn error_mask(e: ControllerError) -> u32 {
    match e {
        ControllerError::EBrakeOn => 0x1,
        ControllerError::OverCurrent => 0x2,
        ControllerError::UnderVoltage => 0x4,
        ControllerError::ThrottleHallError => 0x8,
        ControllerError::OverVoltage => 0x10,
        ControllerError::McuError => 0x20,
        ControllerError::MotorBlock => 0x40,
        ControllerError::FootplateErr => 0x80,
        ControllerError::SpeedControl => 0x100,
        ControllerError::WritingEeprom => 0x200,
        ControllerError::StartUpFailure => 0x800,
        ControllerError::Overheat => 0x1000,
        ControllerError::OverCurrent1 => 0x2000,
        ControllerError::AcceleratePadalErr => 0x4000,
        ControllerError::Ics1Err => 0x8000,
        ControllerError::Ics2Err => 0x10000,
        ControllerError::BreakErr => 0x20000,
        ControllerError::HallSelError => 0x40000,
        ControllerError::MosfetDriverFault => 0x80000,
        ControllerError::MosfetHighShort => 0x100000,
        ControllerError::PhaseOpen => 0x200000,
        ControllerError::PhaseShort => 0x400000,
        ControllerError::McuChipError => 0x800000,
        ControllerError::PreChargeError => 0x1000000,
        ControllerError::MotorOverheat => 0x8000000,
        ControllerError::SocZeroError => 0x80000000,
    }
}

/// The 32-bit fault code: message bytes 12 to 15, big-endian.
pub open spec fn fault_code(frames: ThreeVotolFrames) -> u32 {
    (frames[1][4] * 0x1000000 + frames[1][5] * 0x10000 + frames[1][6] * 0x100
        + frames[1][7]) as u32
}

/// Whether the fault code reports fault `e`.
pub open spec fn has_fault(code: u32, e: ControllerError) -> bool {
    code & error_mask(e) != 0
}

/// Whether `e` is the reported fault with the lowest bit.
pub open spec fn is_lowest_fault(code: u32, e: ControllerError) -> bool {
    has_fault(code, e) && forall|e2: ControllerError|
        error_mask(e2) < error_mask(e) ==> !has_fault(code, e2)
}

/// The reported fault with the lowest bit, if the code reports any.
pub open spec fn lowest_fault(code: u32) -> Option<ControllerError> {
    if exists|e: ControllerError| is_lowest_fault(code, e) {
        Some(choose|e: ControllerError| is_lowest_fault(code, e))
    } else {
        None
    }
}

/// Distinct faults have distinct bits.
pub proof fn lemma_error_mask_injective(e1: ControllerError, e2: ControllerError)
    ensures
        error_mask(e1) == error_mask(e2) <==> e1 == e2,
{
}

proof fn lemma_fault_code_bytes(a: u8, b: u8, c: u8, d: u8)
    ensures
        (a as u32) << 24u32 | (b as u32) << 16u32 | (c as u32) << 8u32 | (d as u32) == (a
            * 0x1000000 + b * 0x10000 + c * 0x100 + d) as u32,
{
    assert((a as u32) << 24u32 | (b as u32) << 16u32 | (c as u32) << 8u32 | (d as u32) == (a
        * 0x1000000 + b * 0x10000 + c * 0x100 + d) as u32) by (bit_vector);
}

/// The fault with the lowest bit among those that the fault code reports, or
/// `None` when it reports none of them.
pub fn get_controller_error(frames: &ThreeVotolFrames) -> (r: Option<ControllerError>)
    ensures
        r is None <==> (forall|e: ControllerError| !has_fault(fault_code(*frames), e)),
        r matches Some(e) ==> has_fault(fault_code(*frames), e) && (forall|e2: ControllerError|
            error_mask(e2) < error_mask(e) ==> !has_fault(fault_code(*frames), e2)),
        r == lowest_fault(fault_code(*frames)),
{
    let error_byte1 = frames[1][4];
    let error_byte2 = frames[1][5];
    let error_byte3 = frames[1][6];
    let error_byte4 = frames[1][7];

    let error_code: u32 = (error_byte1 as u32) << 24u32 | (error_byte2 as u32) << 16u32 | (
    error_byte3 as u32) << 8u32 | (error_byte4 as u32);
    proof {
        lemma_fault_code_bytes(error_byte1, error_byte2, error_byte3, error_byte4);
    }
    assert(error_code == fault_code(*frames));

    let r = if error_code == 0 {
        None
    } else if (error_code & 0x001) != 0 {
        Some(ControllerError::EBrakeOn)
    } else if (error_code & 0x002) != 0 {
        Some(ControllerError::OverCurrent)
    } else if (error_code & 0x004) != 0 {
        Some(ControllerError::UnderVoltage)
    } else if (error_code & 0x008) != 0 {
        Some(ControllerError::ThrottleHallError)
    } else if (error_code & 0x010) != 0 {
        Some(ControllerError::OverVoltage)
    } else if (error_code & 0x020) != 0 {
        Some(ControllerError::McuError)
    } else if (error_code & 0x040) != 0 {
        Some(ControllerError::MotorBlock)
    } else if (error_code & 0x080) != 0 {
        Some(ControllerError::FootplateErr)
    } else if (error_code & 0x100) != 0 {
        Some(ControllerError::SpeedControl)
    } else if (error_code & 0x200) != 0 {
        Some(ControllerError::WritingEeprom)
    } else if (error_code & 0x800) != 0 {
        Some(ControllerError::StartUpFailure)
    } else if (error_code & 0x1000) != 0 {
        Some(ControllerError::Overheat)
    } else if (error_code & 0x2000) != 0 {
        Some(ControllerError::OverCurrent1)
    } else if (error_code & 0x4000) != 0 {
        Some(ControllerError::AcceleratePadalErr)
    } else if (error_code & 0x8000) != 0 {
        Some(ControllerError::Ics1Err)
    } else if (error_code & 0x10000) != 0 {
        Some(ControllerError::Ics2Err)
    } else if (error_code & 0x20000) != 0 {
        Some(ControllerError::BreakErr)
    } else if (error_code & 0x40000) != 0 {
        Some(ControllerError::HallSelError)
    } else if (error_code & 0x80000) != 0 {
        Some(ControllerError::MosfetDriverFault)
    } else if (error_code & 0x100000) != 0 {
        Some(ControllerError::MosfetHighShort)
    } else if (error_code & 0x200000) != 0 {
        Some(ControllerError::PhaseOpen)
    } else if (error_code & 0x400000) != 0 {
        Some(ControllerError::PhaseShort)
    } else if (error_code & 0x800000) != 0 {
        Some(ControllerError::McuChipError)
    } else if (error_code & 0x1000000) != 0 {
        Some(ControllerError::PreChargeError)
    } else if (error_code & 0x8000000) != 0 {
        Some(ControllerError::MotorOverheat)
    } else if (error_code & 0x80000000) != 0 {
        Some(ControllerError::SocZeroError)
    } else {
        None
    };
    proof {
        assert(forall|m: u32| 0u32 & m == 0) by (bit_vector);
        if let Some(e) = r {
            assert(has_fault(error_code, e));
            assert(is_lowest_fault(error_code, e));
            let c = choose|c: ControllerError| is_lowest_fault(error_code, c);
            assert(is_lowest_fault(error_code, c));
            if error_mask(c) < error_mask(e) {
                assert(!has_fault(error_code, c));
            } else if error_mask(e) < error_mask(c) {
                assert(!has_fault(error_code, e));
            }
            lemma_error_mask_injective(c, e);
        } else {
            assert(!exists|e: ControllerError| is_lowest_fault(error_code, e));
        }
    }
    r
}

} // verus!
