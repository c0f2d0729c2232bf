use std::collections::VecDeque;

use sts3215::lerobot::queue::COMMAND_QUEUE_SIZE;
use sts3215::lerobot::robot::{aborts_refresh, Robot, ServoInfo, ServoPositionCommand, ServoState};
use sts3215::{
    disable_torque, enable_torque, has_error, is_moving, move_to_position, ping_servo,
    read_current, read_load, read_position, read_speed, read_temperature, read_u16_register,
    read_u8_register, read_voltage, Bus, ServoError, ServoPort,
};

/// A port that records what is written and answers from a list of replies.
#[derive(Default)]
struct MockPort {
    written: Vec<Vec<u8>>,
    replies: VecDeque<Vec<u8>>,
    fail_write: bool,
    fail_read: bool,
}

impl ServoPort for MockPort {
    fn write_all(&mut self, bytes: &[u8]) -> Result<(), ()> {
        if self.fail_write {
            return Err(());
        }
        self.written.push(bytes.to_vec());
        Ok(())
    }

    fn read(&mut self, buffer: &mut [u8]) -> Result<usize, ()> {
        if self.fail_read {
            return Err(());
        }
        match self.replies.pop_front() {
            Some(reply) => {
                buffer[..reply.len()].copy_from_slice(&reply);
                Ok(reply.len())
            }
            None => Err(()),
        }
    }
}

fn frame(id: u8, body: &[u8]) -> Vec<u8> {
    let mut bytes = vec![0xFF, 0xFF, id, (body.len() + 1) as u8];
    bytes.extend_from_slice(body);
    let sum = bytes[2..].iter().fold(0u8, |acc, b| acc.wrapping_add(*b));
    bytes.push(!sum);
    bytes
}

fn answering(replies: Vec<Vec<u8>>) -> MockPort {
    MockPort { replies: replies.into(), ..MockPort::default() }
}

fn bus(replies: Vec<Vec<u8>>) -> Bus<MockPort> {
    Bus::new(answering(replies))
}

#[test]
fn it_works() {
    let mut state = ServoState::new(&[1]);
    state.infos[0].goal_position = 100;
    state.send_relative_move_command(0, -90, None, None).unwrap();
    assert_eq!(state.infos[0].goal_position, 10);
    state.send_relative_move_command(0, -20, None, None).unwrap();
    assert_eq!(state.infos[0].goal_position, 4086);
    state.send_relative_move_command(0, 20, None, None).unwrap();
    assert_eq!(state.infos[0].goal_position, 10);
}

#[test]
fn relative_move_extremes_wrap() {
    let mut state = ServoState::new(&[9]);
    state.infos[0].goal_position = 65535;
    state.send_relative_move_command(0, i16::MAX, None, None).unwrap();
    assert_eq!(state.infos[0].goal_position, ((65535i32 + 32767) % 4096) as u16);
    state.infos[0].goal_position = 0;
    state.send_relative_move_command(0, i16::MIN, None, None).unwrap();
    assert_eq!(state.infos[0].goal_position, 0);
    state.send_relative_move_command(0, -1, None, None).unwrap();
    assert_eq!(state.infos[0].goal_position, 4095);
}

#[test]
fn new_state_is_blank() {
    let state = ServoState::new(&[3, 4]);
    assert_eq!(state.servo_ids, [3, 4]);
    assert_eq!(state.infos, [ServoInfo::default(); 2]);
    assert_eq!(state.queued_commands.len(), 0);
}

#[test]
fn absolute_move_queues_command() {
    let mut state = ServoState::new(&[5, 6]);
    state.send_absolute_move_command(1, 1234, Some(10), None).unwrap();
    assert_eq!(state.infos[1].goal_position, 1234);
    assert_eq!(state.infos[0].goal_position, 0);
    assert_eq!(
        state.queued_commands.as_slice(),
        &[ServoPositionCommand { id: 6, position: 1234, speed: Some(10), acc: None }]
    );
}

#[test]
fn enqueue_beyond_capacity_overflows() {
    let mut state = ServoState::new(&[1]);
    for i in 0..COMMAND_QUEUE_SIZE {
        state.send_absolute_move_command(0, i as u16, None, None).unwrap();
    }
    let before: Vec<ServoPositionCommand> = state.queued_commands.to_vec();
    assert_eq!(
        state.send_absolute_move_command(0, 999, None, None),
        Err(ServoError::CommandOverflow)
    );
    assert_eq!(
        state.send_relative_move_command(0, 5, None, None),
        Err(ServoError::CommandOverflow)
    );
    assert_eq!(state.queued_commands.len(), COMMAND_QUEUE_SIZE);
    assert_eq!(state.queued_commands.to_vec(), before);
}

#[test]
fn processing_empty_queue_is_noop() {
    let mut state = ServoState::new(&[1, 2]);
    let mut port = Bus::new(MockPort::default());
    let mut buffer = [0x5Au8; 32];
    assert_eq!(state.process_queued_commands(&mut port, &mut buffer), Ok(()));
    assert!(port.get_ref().written.is_empty());
    assert_eq!(buffer, [0x5Au8; 32]);
}

#[test]
fn processing_sends_last_queued_command() {
    let mut state = ServoState::new(&[1, 2]);
    state.send_absolute_move_command(0, 100, None, None).unwrap();
    state.send_absolute_move_command(1, 2048, Some(0), Some(1000)).unwrap();
    let mut port = bus(vec![frame(2, &[0x00]), frame(1, &[0x03])]);
    let mut buffer = [0u8; 64];
    assert_eq!(state.process_queued_commands(&mut port, &mut buffer), Ok(()));
    assert_eq!(
        port.get_ref().written[0],
        vec![0xFF, 0xFF, 0x02, 0x09, 0x03, 0x2A, 0x00, 0x08, 0x00, 0x00, 0xE8, 0x03, 0xD4]
    );
    assert_eq!(state.queued_commands.len(), 1);
    assert_eq!(
        state.process_queued_commands(&mut port, &mut buffer),
        Err(ServoError::StatusError(3))
    );
    assert_eq!(
        port.get_ref().written[1],
        vec![0xFF, 0xFF, 0x01, 0x05, 0x03, 0x2A, 0x64, 0x00, 0x68]
    );
    assert_eq!(state.queued_commands.len(), 0);
}

#[test]
fn failed_flush_discards_command() {
    let mut state = ServoState::new(&[1]);
    state.send_absolute_move_command(0, 10, None, None).unwrap();
    let mut port = Bus::new(MockPort { fail_write: true, ..MockPort::default() });
    let mut buffer = [0u8; 64];
    assert_eq!(
        state.process_queued_commands(&mut port, &mut buffer),
        Err(ServoError::WriteError)
    );
    assert_eq!(state.queued_commands.len(), 0);
}

#[test]
fn flush_into_small_buffer_fails() {
    let mut state = ServoState::new(&[1]);
    state.send_absolute_move_command(0, 10, Some(1), None).unwrap();
    let mut port = Bus::new(MockPort::default());
    let mut buffer = [0u8; 10];
    assert_eq!(
        state.process_queued_commands(&mut port, &mut buffer),
        Err(ServoError::BufferTooSmall)
    );
    assert!(port.get_ref().written.is_empty());
}

#[test]
fn register_reads_decode_replies() {
    let mut buffer = [0u8; 64];
    let mut port = bus(vec![
        frame(1, &[0x00, 0x28]),
        frame(1, &[0x00, 0x00, 0x08]),
        frame(1, &[0x00, 0x01]),
        frame(1, &[0x00, 0x00]),
        frame(1, &[0x00]),
    ]);
    assert_eq!(read_temperature(&mut port, &mut buffer, 1), Ok(0x28));
    assert_eq!(port.get_ref().written[0], vec![0xFF, 0xFF, 0x01, 0x04, 0x02, 0x3F, 0x01, 0xB8]);
    assert_eq!(read_position(&mut port, &mut buffer, 1), Ok(2048));
    assert_eq!(port.get_ref().written[1], vec![0xFF, 0xFF, 0x01, 0x04, 0x02, 0x38, 0x02, 0xBE]);
    assert_eq!(is_moving(&mut port, &mut buffer, 1), Ok(true));
    assert_eq!(has_error(&mut port, &mut buffer, 1), Ok(false));
    assert_eq!(read_u8_register(&mut port, &mut buffer, 1, 0x10), Err(ServoError::ReadError));
}

#[test]
fn register_reads_of_each_kind() {
    let mut buffer = [0u8; 64];
    let mut port = bus(vec![
        frame(2, &[0x00, 0x78]),
        frame(2, &[0x00, 0x10, 0x00]),
        frame(2, &[0x00, 0x22, 0x01]),
        frame(2, &[0x00, 0x33, 0x00]),
        frame(2, &[0x00, 0x44]),
        frame(2, &[0x00, 0x01, 0x02]),
    ]);
    assert_eq!(read_voltage(&mut port, &mut buffer, 2), Ok(0x78));
    assert_eq!(read_current(&mut port, &mut buffer, 2), Ok(0x10));
    assert_eq!(read_speed(&mut port, &mut buffer, 2), Ok(0x0122));
    assert_eq!(read_load(&mut port, &mut buffer, 2), Ok(0x33));
    assert_eq!(read_u16_register(&mut port, &mut buffer, 2, 0x38), Err(ServoError::ReadError));
    assert_eq!(read_u16_register(&mut port, &mut buffer, 2, 0x38), Ok(0x0201));
}

#[test]
fn transport_and_decode_errors_propagate() {
    let mut buffer = [0u8; 64];
    let mut port = Bus::new(MockPort { fail_read: true, ..MockPort::default() });
    assert_eq!(read_speed(&mut port, &mut buffer, 1), Err(ServoError::ReadError));
    let mut bad = frame(1, &[0x00, 0x01]);
    bad[0] = 0x00;
    let mut corrupt = frame(1, &[0x00, 0x01]);
    corrupt[5] ^= 0x40;
    let mut port = bus(vec![bad, corrupt]);
    assert_eq!(
        read_temperature(&mut port, &mut buffer, 1),
        Err(ServoError::InvalidHeader(0x00, 0xFF))
    );
    assert!(matches!(
        read_temperature(&mut port, &mut buffer, 1),
        Err(ServoError::ChecksumMismatch(_, _))
    ));
    let mut tiny = [0u8; 4];
    let mut port = Bus::new(MockPort::default());
    assert_eq!(ping_servo(&mut port, &mut tiny, 1), Err(ServoError::BufferTooSmall));
}

#[test]
fn torque_and_moves_are_acknowledged() {
    let mut buffer = [0u8; 64];
    let mut port = bus(vec![
        frame(1, &[0x00]),
        frame(1, &[0x20]),
        frame(1, &[0x00]),
        frame(1, &[0x00]),
    ]);
    assert_eq!(enable_torque(&mut port, &mut buffer, 1), Ok(()));
    assert_eq!(port.get_ref().written[0], vec![0xFF, 0xFF, 0x01, 0x04, 0x03, 0x30, 0x01, 0xC6]);
    assert_eq!(disable_torque(&mut port, &mut buffer, 1), Err(ServoError::StatusError(0x20)));
    assert_eq!(port.get_ref().written[1], vec![0xFF, 0xFF, 0x01, 0x04, 0x03, 0x30, 0x00, 0xC7]);
    assert_eq!(move_to_position(&mut port, &mut buffer, 1, 513, Some(9), Some(7)), Ok(()));
    assert_eq!(
        port.get_ref().written[2],
        vec![0xFF, 0xFF, 0x01, 0x09, 0x03, 0x2A, 0x01, 0x02, 0x09, 0x00, 0x07, 0x00, !0x4Au8]
    );
    assert_eq!(ping_servo(&mut port, &mut buffer, 1), Ok(()));
    assert_eq!(port.get_ref().written[3], vec![0xFF, 0xFF, 0x01, 0x02, 0x01, 0xFB]);
}

#[test]
fn update_refreshes_telemetry() {
    let mut state = ServoState::new(&[1, 2]);
    state.infos[1].goal_position = 77;
    let mut replies = vec![
        frame(1, &[0x00, 0x00, 0x04]),
        frame(1, &[0x00, 0x05, 0x00]),
        frame(1, &[0x00, 0x1E]),
        frame(1, &[0x00, 0x06, 0x00]),
        frame(1, &[0x00, 0x7B]),
        frame(1, &[0x00, 0x08, 0x00]),
        frame(1, &[0x00, 0x01]),
    ];
    // The error flag read fails: it falls back to set.
    let mut bad = frame(1, &[0x00, 0x00]);
    bad[1] = 0x00;
    replies.push(bad);
    let mut port = bus(replies);
    let mut buffer = [0u8; 64];
    state.update(&mut port, &mut buffer);
    assert_eq!(
        state.infos[0],
        ServoInfo {
            id: 1,
            position: 1024,
            goal_position: 1024,
            speed: 5,
            temperature: 30,
            load: 6,
            voltage: 123,
            current: 8,
            is_moving: true,
            has_error: true,
        }
    );
    // Servo 2 does not answer its first read: its snapshot is kept.
    assert_eq!(state.infos[1].goal_position, 77);
    assert_eq!(state.infos[1].id, 0);
    assert_eq!(port.get_ref().written.len(), 9);
}

#[test]
fn readings_fall_back_per_field() {
    let info = ServoInfo::from_readings(
        4,
        Err(ServoError::ChecksumMismatch(1, 2)),
        Ok(9),
        Err(ServoError::ReadError),
        Ok(3),
        Ok(110),
        Err(ServoError::WriteError),
        Err(ServoError::ReadError),
        Ok(false),
    );
    assert_eq!(
        info,
        ServoInfo {
            id: 4,
            position: 0,
            goal_position: 0,
            speed: 9,
            temperature: 0,
            load: 3,
            voltage: 110,
            current: 0,
            is_moving: false,
            has_error: false,
        }
    );
    assert!(aborts_refresh(&ServoError::WriteError));
    assert!(aborts_refresh(&ServoError::ReadError));
    assert!(!aborts_refresh(&ServoError::InvalidHeader(0, 0)));
}

#[test]
fn robot_queues_and_flushes() {
    let mut robot = Robot::new(answering(vec![frame(1, &[0x00])])).unwrap();
    assert_eq!(robot.servo_state().servo_ids, [1, 2, 3, 4, 5, 6]);
    robot.send_absolute_move_command(0, 1200, Some(500), Some(10)).unwrap();
    robot.send_relative_move_command(0, -200, None, None).unwrap();
    assert_eq!(robot.servo_state().infos[0].goal_position, 1000);
    assert_eq!(robot.servo_state().queued_commands.len(), 2);
    assert_eq!(robot.process_queued_commands(), Ok(()));
    assert_eq!(robot.servo_state().queued_commands.len(), 1);
    assert_eq!(
        robot.servo_state().queued_commands[0],
        ServoPositionCommand { id: 1, position: 1200, speed: Some(500), acc: Some(10) }
    );
}

#[test]
fn robot_register_access() {
    let mut robot = Robot::new(answering(vec![
        frame(3, &[0x00, 0x2D]),
        frame(3, &[0x00, 0x70]),
        frame(3, &[0x00, 0x10, 0x00]),
        frame(3, &[0x00, 0x00]),
        frame(3, &[0x00, 0x02]),
        frame(3, &[0x00, 0x00, 0x01]),
        frame(3, &[0x00, 0x0A, 0x00]),
        frame(3, &[0x00]),
        frame(3, &[0x04]),
    ]))
    .unwrap();
    assert_eq!(robot.read_temperature(3), Ok(45));
    assert_eq!(robot.read_voltage(3), Ok(0x70));
    assert_eq!(robot.read_current(3), Ok(16));
    assert_eq!(robot.is_moving(3), Ok(false));
    assert_eq!(robot.has_error(3), Ok(true));
    assert_eq!(robot.read_speed(3), Ok(256));
    assert_eq!(robot.read_load(3), Ok(10));
    assert_eq!(robot.ping_servo(3), Ok(()));
    assert_eq!(robot.move_to_position(3, 5, None, None), Err(ServoError::StatusError(4)));
    assert_eq!(robot.update_servo_state(), Ok(()));
    let mut port = bus(vec![frame(3, &[0x00, 0x34, 0x12])]);
    let mut buffer = [0u8; 32];
    assert_eq!(Robot::<MockPort>::read_position(&mut port, &mut buffer, 3), Ok(0x1234));
}

#[test]
fn position_write_shapes_on_the_wire() {
    let mut port = bus(vec![frame(1, &[0x00]), frame(1, &[0x00]), frame(1, &[0x00])]);
    let mut buffer = [0u8; 256];
    let reply = sts3215::comm::write_position(&mut port, &mut buffer, 1, 2048, None, None).unwrap();
    assert_eq!(reply.status, 0);
    assert_eq!(
        port.get_ref().written[0],
        vec![0xFF, 0xFF, 0x01, 0x05, 0x03, 0x2A, 0x00, 0x08, 0xC4]
    );
    sts3215::comm::write_position(&mut port, &mut buffer, 1, 2048, Some(0), None).unwrap();
    assert_eq!(port.get_ref().written[1].len(), 11);
    sts3215::comm::write_position(&mut port, &mut buffer, 1, 2048, Some(0), Some(1000)).unwrap();
    assert_eq!(
        port.get_ref().written[2],
        vec![0xFF, 0xFF, 0x01, 0x09, 0x03, 0x2A, 0x00, 0x08, 0x00, 0x00, 0xE8, 0x03, 0xD5]
    );
    assert_eq!(port.get_ref().written.len(), 3);
}
