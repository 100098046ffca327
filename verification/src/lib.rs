//! Firmware-over-CAN update protocol: wire framing over CAN extended
//! identifiers, the device-side part accumulator and page writer, the
//! staged-image validator, the prioritised transmit queue, and the host-side
//! uploader state machine.

pub mod device;
pub mod firmware_update;
pub mod frame_id;
pub mod frames;
pub mod pending_fw;
pub mod tx_queue;
pub mod uploader;
