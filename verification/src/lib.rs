//! Data decoding and LED-matrix rendering for a Votol EM motor controller
//! display: the three 8-byte CAN frames of a live-data response are decoded
//! into battery, motor and fault readings, and those readings are drawn on a
//! chain of four 8x8 LED matrices.

pub mod can;
pub mod can_frame;
pub mod ledmatrix;
