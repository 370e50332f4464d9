//! The controller's CAN protocol: decoding of live-data frames and the
//! bookkeeping of the frames as they arrive.

pub mod can_communication;
pub mod can_frame;
