//! Typed access to the servo's registers, one exchange per call.
use vstd::prelude::*;

use crate::comm::{
    exchange_reply, exchanged, frame, position_packet, send_ping, status_result, write_position,
    Command, ReplyView, le_u16, CURRENT_REGISTER, LOAD_REGISTER, MOVING_REGISTER, POSITION_REGISTER,
    SPEED_REGISTER, STATUS_REGISTER, TEMPERATURE_REGISTER, TORQUE_ENABLE_REGISTER,
    VOLTAGE_REGISTER, WRITE_DATA_ID,
};
use crate::port::{Bus, PortEvent, ServoPort};
use crate::ServoError;

verus! {

/// A one-byte register value out of an exchange outcome: the first data byte,
/// or `ReadError` when the reply carried none.
pub open spec fn u8_result(o: Result<ReplyView, ServoError>) -> Result<u8, ServoError> {
    match o {
        Ok(rep) => if rep.data.len() >= 1 {
            Ok(rep.data[0])
        } else {
            Err(ServoError::ReadError)
        },
        Err(e) => Err(e),
    }
}

/// A two-byte register value out of an exchange outcome: the first two data
/// bytes, little-endian, or `ReadError` when the reply carried fewer.
pub open spec fn u16_result(o: Result<ReplyView, ServoError>) -> Result<u16, ServoError> {
    match o {
        Ok(rep) => if rep.data.len() >= 2 {
            Ok(le_u16(rep.data[0], rep.data[1]))
        } else {
            Err(ServoError::ReadError)
        },
        Err(e) => Err(e),
    }
}

/// A one-byte register read as a flag: set when nonzero.
pub open spec fn flag_result(o: Result<ReplyView, ServoError>) -> Result<bool, ServoError> {
    match u8_result(o) {
        Ok(v) => Ok(v != 0),
        Err(e) => Err(e),
    }
}

/// The acknowledgement of a write: the reply's status as a `Result`.
pub open spec fn ack_result(o: Result<ReplyView, ServoError>) -> Result<(), ServoError> {
    match o {
        Ok(rep) => status_result(rep.status),
        Err(e) => Err(e),
    }
}

/// `r` is what reading the one-byte register `reg` of servo `servo_id`
/// returns: one exchange of `Read(servo_id, reg, 1)`, with the buffer going
/// from `before` to `after` and the port's record from `log` to `log2`.
pub open spec fn u8_register_read(
    servo_id: u8,
    reg: u8,
    before: Seq<u8>,
    after: Seq<u8>,
    log: Seq<PortEvent>,
    log2: Seq<PortEvent>,
    r: Result<u8, ServoError>,
) -> bool {
    let packet = Command::Read(servo_id, reg, 1).packet();
    exchanged(packet, before, after, log, log2) && r == u8_result(
        exchange_reply(packet, before, log, log2),
    )
}

/// `r` is what reading the two-byte register `reg` returns: one exchange of
/// `Read(servo_id, reg, 2)`.
pub open spec fn u16_register_read(
    servo_id: u8,
    reg: u8,
    before: Seq<u8>,
    after: Seq<u8>,
    log: Seq<PortEvent>,
    log2: Seq<PortEvent>,
    r: Result<u16, ServoError>,
) -> bool {
    let packet = Command::Read(servo_id, reg, 2).packet();
    exchanged(packet, before, after, log, log2) && r == u16_result(
        exchange_reply(packet, before, log, log2),
    )
}

/// `r` is what reading the one-byte register `reg` as a flag returns.
pub open spec fn flag_register_read(
    servo_id: u8,
    reg: u8,
    before: Seq<u8>,
    after: Seq<u8>,
    log: Seq<PortEvent>,
    log2: Seq<PortEvent>,
    r: Result<bool, ServoError>,
) -> bool {
    let packet = Command::Read(servo_id, reg, 1).packet();
    exchanged(packet, before, after, log, log2) && r == flag_result(
        exchange_reply(packet, before, log, log2),
    )
}

/// `r` is what sending `packet` and checking the reply's status returns.
pub open spec fn acknowledged(
    packet: Seq<u8>,
    before: Seq<u8>,
    after: Seq<u8>,
    log: Seq<PortEvent>,
    log2: Seq<PortEvent>,
    r: Result<(), ServoError>,
) -> bool {
    exchanged(packet, before, after, log, log2) && r == ack_result(
        exchange_reply(packet, before, log, log2),
    )
}

/// Reads a one-byte register.
pub fn read_u8_register<P: ServoPort>(
    port: &mut Bus<P>,
    buffer: &mut [u8],
    servo_id: u8,
    register_id: u8,
) -> (r: Result<u8, ServoError>)
    ensures
        u8_register_read(
            servo_id,
            register_id,
            old(buffer)@,
            final(buffer)@,
            old(port).events(),
            final(port).events(),
            r,
        ),
{
    let result = Command::Read(servo_id, register_id, 1).send_command(port, buffer);
    match result {
        Ok(response) => match response.data_as_u8() {
            Some(v) => Ok(v),
            None => Err(ServoError::ReadError),
        },
        Err(e) => Err(e),
    }
}

/// Reads a two-byte little-endian register.
pub fn read_u16_register<P: ServoPort>(
    port: &mut Bus<P>,
    buffer: &mut [u8],
    servo_id: u8,
    register_id: u8,
) -> (r: Result<u16, ServoError>)
    ensures
        u16_register_read(
            servo_id,
            register_id,
            old(buffer)@,
            final(buffer)@,
            old(port).events(),
            final(port).events(),
            r,
        ),
{
    let result = Command::Read(servo_id, register_id, 2).send_command(port, buffer);
    match result {
        Ok(response) => match response.data_as_u16() {
            Some(v) => Ok(v),
            None => Err(ServoError::ReadError),
        },
        Err(e) => Err(e),
    }
}

/// Reads a one-byte register as a flag: set when nonzero.
fn read_flag_register<P: ServoPort>(
    port: &mut Bus<P>,
    buffer: &mut [u8],
    servo_id: u8,
    register_id: u8,
) -> (r: Result<bool, ServoError>)
    ensures
        flag_register_read(
            servo_id,
            register_id,
            old(buffer)@,
            final(buffer)@,
            old(port).events(),
            final(port).events(),
            r,
        ),
{
    match read_u8_register(port, buffer, servo_id, register_id) {
        Ok(value) => Ok(value != 0),
        Err(e) => Err(e),
    }
}

/// Reads the temperature register.
pub fn read_temperature<P: ServoPort>(
    port: &mut Bus<P>,
    buffer: &mut [u8],
    servo_id: u8,
) -> (r: Result<u8, ServoError>)
    ensures
        u8_register_read(
            servo_id,
            TEMPERATURE_REGISTER,
            old(buffer)@,
            final(buffer)@,
            old(port).events(),
            final(port).events(),
            r,
        ),
{
    read_u8_register(port, buffer, servo_id, TEMPERATURE_REGISTER)
}

/// Reads the voltage register.
pub fn read_voltage<P: ServoPort>(
    port: &mut Bus<P>,
    buffer: &mut [u8],
    servo_id: u8,
) -> (r: Result<u8, ServoError>)
    ensures
        u8_register_read(
            servo_id,
            VOLTAGE_REGISTER,
            old(buffer)@,
            final(buffer)@,
            old(port).events(),
            final(port).events(),
            r,
        ),
{
    read_u8_register(port, buffer, servo_id, VOLTAGE_REGISTER)
}

/// Reads the current register.
pub fn read_current<P: ServoPort>(
    port: &mut Bus<P>,
    buffer: &mut [u8],
    servo_id: u8,
) -> (r: Result<u16, ServoError>)
    ensures
        u16_register_read(
            servo_id,
            CURRENT_REGISTER,
            old(buffer)@,
            final(buffer)@,
            old(port).events(),
            final(port).events(),
            r,
        ),
{
    read_u16_register(port, buffer, servo_id, CURRENT_REGISTER)
}

/// Whether the servo reports that it is moving.
pub fn is_moving<P: ServoPort>(
    port: &mut Bus<P>,
    buffer: &mut [u8],
    servo_id: u8,
) -> (r: Result<bool, ServoError>)
    ensures
        flag_register_read(
            servo_id,
            MOVING_REGISTER,
            old(buffer)@,
            final(buffer)@,
            old(port).events(),
            final(port).events(),
            r,
        ),
{
    read_flag_register(port, buffer, servo_id, MOVING_REGISTER)
}

/// Whether the servo's status register reports an error.
pub fn has_error<P: ServoPort>(
    port: &mut Bus<P>,
    buffer: &mut [u8],
    servo_id: u8,
) -> (r: Result<bool, ServoError>)
    ensures
        flag_register_read(
            servo_id,
            STATUS_REGISTER,
            old(buffer)@,
            final(buffer)@,
            old(port).events(),
            final(port).events(),
            r,
        ),
{
    read_flag_register(port, buffer, servo_id, STATUS_REGISTER)
}

/// Reads the measured position.
pub fn read_position<P: ServoPort>(
    port: &mut Bus<P>,
    buffer: &mut [u8],
    servo_id: u8,
) -> (r: Result<u16, ServoError>)
    ensures
        u16_register_read(
            servo_id,
            POSITION_REGISTER,
            old(buffer)@,
            final(buffer)@,
            old(port).events(),
            final(port).events(),
            r,
        ),
{
    read_u16_register(port, buffer, servo_id, POSITION_REGISTER)
}

/// Reads the speed register.
pub fn read_speed<P: ServoPort>(
    port: &mut Bus<P>,
    buffer: &mut [u8],
    servo_id: u8,
) -> (r: Result<u16, ServoError>)
    ensures
        u16_register_read(
            servo_id,
            SPEED_REGISTER,
            old(buffer)@,
            final(buffer)@,
            old(port).events(),
            final(port).events(),
            r,
        ),
{
    read_u16_register(port, buffer, servo_id, SPEED_REGISTER)
}

/// Reads the load register.
pub fn read_load<P: ServoPort>(
    port: &mut Bus<P>,
    buffer: &mut [u8],
    servo_id: u8,
) -> (r: Result<u16, ServoError>)
    ensures
        u16_register_read(
            servo_id,
            LOAD_REGISTER,
            old(buffer)@,
            final(buffer)@,
            old(port).events(),
            final(port).events(),
            r,
        ),
{
    read_u16_register(port, buffer, servo_id, LOAD_REGISTER)
}

/// Sends `command` and turns the reply's status into a `Result`.
fn acknowledge<P: ServoPort>(command: &Command, port: &mut Bus<P>, buffer: &mut [u8]) -> (r: Result<
    (),
    ServoError,
>)
    ensures
        acknowledged(
            command.packet(),
            old(buffer)@,
            final(buffer)@,
            old(port).events(),
            final(port).events(),
            r,
        ),
{
    match command.send_command(port, buffer) {
        Ok(response) => response.is_error(),
        Err(e) => Err(e),
    }
}

/// The packet that sets the torque-enable register to `value`.
pub open spec fn torque_packet(servo_id: u8, value: u8) -> Seq<u8> {
    frame(servo_id, seq![WRITE_DATA_ID, TORQUE_ENABLE_REGISTER, value])
}

/// Switches the servo's torque on.
pub fn enable_torque<P: ServoPort>(
    port: &mut Bus<P>,
    buffer: &mut [u8],
    servo_id: u8,
) -> (r: Result<(), ServoError>)
    ensures
        acknowledged(
            torque_packet(servo_id, 1),
            old(buffer)@,
            final(buffer)@,
            old(port).events(),
            final(port).events(),
            r,
        ),
{
    let enable_value = [1u8];
    let value = enable_value.as_slice();
    let command = Command::Write(servo_id, TORQUE_ENABLE_REGISTER, value);
    assert(command.body() =~= seq![WRITE_DATA_ID, TORQUE_ENABLE_REGISTER, 1u8]);
    acknowledge(&command, port, buffer)
}

/// Switches the servo's torque off.
pub fn disable_torque<P: ServoPort>(
    port: &mut Bus<P>,
    buffer: &mut [u8],
    servo_id: u8,
) -> (r: Result<(), ServoError>)
    ensures
        acknowledged(
            torque_packet(servo_id, 0),
            old(buffer)@,
            final(buffer)@,
            old(port).events(),
            final(port).events(),
            r,
        ),
{
    let enable_value = [0u8];
    let value = enable_value.as_slice();
    let command = Command::Write(servo_id, TORQUE_ENABLE_REGISTER, value);
    assert(command.body() =~= seq![WRITE_DATA_ID, TORQUE_ENABLE_REGISTER, 0u8]);
    acknowledge(&command, port, buffer)
}

/// Writes a goal position and checks the reply's status. Acceleration is
/// only sent after a speed.
pub fn move_to_position<P: ServoPort>(
    port: &mut Bus<P>,
    buffer: &mut [u8],
    servo_id: u8,
    position: u16,
    time: Option<u16>,
    accel: Option<u16>,
) -> (r: Result<(), ServoError>)
    requires
        accel is Some ==> time is Some,
    ensures
        acknowledged(
            position_packet(servo_id, position, time, accel),
            old(buffer)@,
            final(buffer)@,
            old(port).events(),
            final(port).events(),
            r,
        ),
{
    match write_position(port, buffer, servo_id, position, time, accel) {
        Ok(response) => response.is_error(),
        Err(e) => Err(e),
    }
}

/// Pings a servo and checks the reply's status.
pub fn ping_servo<P: ServoPort>(
    port: &mut Bus<P>,
    buffer: &mut [u8],
    servo_id: u8,
) -> (r: Result<(), ServoError>)
    ensures
        acknowledged(
            Command::Ping(servo_id).packet(),
            old(buffer)@,
            final(buffer)@,
            old(port).events(),
            final(port).events(),
            r,
        ),
{
    match send_ping(port, buffer, servo_id) {
        Ok(response) => response.is_error(),
        Err(e) => Err(e),
    }
}

} // verus!
