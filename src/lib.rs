//! Driver for STS3215-class smart servos on a half-duplex serial bus:
//! packet framing and checksums, reply decoding, typed register access and
//! a per-actuator command queue.
use vstd::prelude::*;

pub mod comm;
pub mod lerobot;
pub mod port;
pub mod register;

pub use port::{Bus, PortEvent, ServoPort};
pub use register::{
    disable_torque, enable_torque, has_error, is_moving, move_to_position, ping_servo,
    read_current, read_load, read_position, read_speed, read_temperature, read_u16_register,
    read_u8_register, read_voltage,
};

verus! {

/// Everything that can go wrong while talking to a servo.
#[derive(Debug, Clone, Copy, PartialEq, Eq, Structural)]
pub enum ServoError {
    /// The port refused the outbound packet.
    WriteError,
    /// The port failed to deliver a reply, or the reply carried too little data.
    ReadError,
    /// The servo answered with a nonzero status byte.
    StatusError(u8),
    /// The reply was too short for the framing it announced.
    ResponseParseError,
    /// The reply did not start with `0xFF 0xFF`; holds the two bytes found.
    InvalidHeader(u8, u8),
    /// The checksum did not match: the one computed, then the one received.
    ChecksumMismatch(u8, u8),
    /// The command queue was already at capacity.
    CommandOverflow,
    /// The serial device could not be opened.
    IOError,
    /// The caller's buffer cannot hold the packet to be sent.
    BufferTooSmall,
}

} // verus!
