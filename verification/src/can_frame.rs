//! Unsigned decoders of the live-data response: the battery voltage as an
//! unsigned 16-bit value and the controller temperature as a byte.
use vstd::prelude::*;
use crate::can::can_frame::{be_i16, ThreeVotolFrames};

verus! {

/// Battery voltage in tenths of a volt, as an unsigned big-endian value of
/// message bytes 7 and 8.
pub fn get_battery_voltage(frames: &ThreeVotolFrames) -> (r: u16)
    ensures
        r == frames[0][7] * 256 + frames[1][0],
{
    let hi = frames[0][7];
    let lo = frames[1][0];
    assert(((hi as u16) << 8u16) == hi * 256) by (bit_vector);
    ((hi as u16) << 8u16) + (lo as u16)
}

/// Controller temperature in degrees Celsius, for readings of 0 C and above
/// (the byte carries a +50 offset).
pub fn get_controller_temp(frames: &ThreeVotolFrames) -> (r: u8)
    requires
        frames[2][2] >= 50,
    ensures
        r == frames[2][2] - 50,
{
    frames[2][2] - 50  // 50C offset
}

/// The unsigned voltage reading of this module and the signed one of
/// `can::can_frame::get_battery_voltage` agree below 32768 and differ by
/// 65536 from there on.
pub proof fn lemma_voltage_readings_agree(frames: ThreeVotolFrames)
    ensures
        ({
            let unsigned = frames[0][7] * 256 + frames[1][0];
            be_i16(frames[0][7], frames[1][0]) == if unsigned < 32768 {
                unsigned
            } else {
                unsigned - 65536
            }
        }),
{
}

} // verus!
