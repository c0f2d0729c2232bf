//! Packet codec: instruction framing, checksums and reply decoding.
use vstd::prelude::*;

use crate::port::{read_event, Bus, PortEvent, ServoPort};
use crate::ServoError;

verus! {

/// Instruction code of a ping.
pub const PING_ID: u8 = 0x01;

/// Instruction code of a register read.
pub const READ_DATA_ID: u8 = 0x02;

/// Instruction code of a register write.
pub const WRITE_DATA_ID: u8 = 0x03;

/// Register of the goal position, followed by speed and acceleration.
pub const GOAL_POSITION_REGISTER: u8 = 0x2A;

/// Register of the measured position.
pub const POSITION_REGISTER: u8 = 0x38;

/// Register of the measured speed.
pub const SPEED_REGISTER: u8 = 0x3a;

/// Register of the measured load.
pub const LOAD_REGISTER: u8 = 0x3c;

/// Register of the supply voltage.
pub const VOLTAGE_REGISTER: u8 = 0x3e;

/// Register of the temperature.
pub const TEMPERATURE_REGISTER: u8 = 0x3f;

/// Register of the error status flags.
pub const STATUS_REGISTER: u8 = 0x41;

/// Register of the moving flag.
pub const MOVING_REGISTER: u8 = 0x42;

/// Register of the measured current.
pub const CURRENT_REGISTER: u8 = 0x43;

/// Register that switches the torque on (1) or off (0).
pub const TORQUE_ENABLE_REGISTER: u8 = 0x30;

/// Sum of all bytes, as a natural number.
pub open spec fn byte_sum(s: Seq<u8>) -> nat
    decreases s.len(),
{
    if s.len() == 0 {
        0
    } else {
        byte_sum(s.drop_last()) + s.last() as nat
    }
}

/// Bitwise NOT of the mod-256 sum of `s`.
pub open spec fn checksum(s: Seq<u8>) -> u8 {
    !((byte_sum(s) % 256) as u8)
}

/// Checksum over `buffer[2..length]`: the bytes after the two header bytes.
pub fn calculate_checksum(buffer: &[u8], length: usize) -> (r: u8)
    requires
        length <= buffer@.len(),
    ensures
        length >= 2 ==> r == checksum(buffer@.subrange(2, length as int)),
        length < 2 ==> r == 0xFF,
{
    let mut counter: u8 = 0;
    let mut index: usize = 2;
    while index < length
        invariant
            2 <= index,
            length <= buffer@.len(),
            length < 2 ==> index == 2 && counter == 0,
            length >= 2 ==> index <= length && counter == byte_sum(
                buffer@.subrange(2, index as int),
            ) % 256,
        decreases length - index,
    {
        let value = buffer[index];
        proof {
            let s = buffer@.subrange(2, index as int + 1);
            assert(s.drop_last() == buffer@.subrange(2, index as int));
            if index == 2 {
                assert(buffer@.subrange(2, 2).len() == 0);
            }
        }
        counter = counter.wrapping_add(value);
        index = index + 1;
    }
    assert(!0u8 == 0xFFu8) by (bit_vector);
    !counter
}

/// A framed packet: `0xFF 0xFF`, id, length, `body`, checksum. The length
/// byte counts the body and the checksum; the checksum covers id through body.
pub open spec fn frame(id: u8, body: Seq<u8>) -> Seq<u8> {
    let head = frame_head(id, body);
    seq![0xFFu8, 0xFFu8] + head + seq![checksum(head)]
}

/// The checksummed part of a frame: id, length byte and body.
pub open spec fn frame_head(id: u8, body: Seq<u8>) -> Seq<u8> {
    seq![id, ((body.len() + 1) % 256) as u8] + body
}

/// An instruction for one servo.
pub enum Command<'a> {
    /// `Ping(id)`
    Ping(u8),
    /// `Read(id, register, reply length)`
    Read(u8, u8, u8),
    /// `Write(id, register, bytes)`
    Write(u8, u8, &'a [u8]),
}

impl<'a> Command<'a> {
    /// The servo the instruction is addressed to.
    pub open spec fn target(&self) -> u8 {
        match *self {
            Command::Ping(id) => id,
            Command::Read(id, _, _) => id,
            Command::Write(id, _, _) => id,
        }
    }

    /// Instruction code followed by its parameters.
    pub open spec fn body(&self) -> Seq<u8> {
        match *self {
            Command::Ping(_) => seq![PING_ID],
            Command::Read(_, addr, n) => seq![READ_DATA_ID, addr, n],
            Command::Write(_, addr, data) => seq![WRITE_DATA_ID, addr] + data@,
        }
    }

    /// The bytes that go on the wire for this instruction.
    pub open spec fn packet(&self) -> Seq<u8> {
        frame(self.target(), self.body())
    }

    /// Encodes the instruction at the start of `buffer` and returns its length;
    /// the rest of `buffer` is left as it was.
    pub fn write_buffer(&self, buffer: &mut [u8]) -> (r: Result<usize, ServoError>)
        ensures
            final(buffer)@.len() == old(buffer)@.len(),
            self.packet().len() <= old(buffer)@.len() ==> {
                &&& r == Ok::<usize, ServoError>(self.packet().len() as usize)
                &&& final(buffer)@.subrange(0, self.packet().len() as int) == self.packet()
                &&& final(buffer)@.subrange(self.packet().len() as int, old(buffer)@.len() as int)
                    == old(buffer)@.subrange(self.packet().len() as int, old(buffer)@.len() as int)
            },
            self.packet().len() > old(buffer)@.len() ==> {
                &&& r == Err::<usize, ServoError>(ServoError::BufferTooSmall)
                &&& final(buffer)@ == old(buffer)@
            },
    {
        let ghost pre = buffer@;
        let needed_ok = match self {
            Command::Ping(_) => buffer.len() >= 6,
            Command::Read(_, _, _) => buffer.len() >= 8,
            Command::Write(_, _, data) => buffer.len() >= 7 && data.len() <= buffer.len() - 7,
        };
        if !needed_ok {
            return Err(ServoError::BufferTooSmall);
        }
        buffer[0] = 0xff;
        buffer[1] = 0xff;
        let checksum_index: usize = match self {
            Command::Ping(servo_id) => {
                buffer[2] = *servo_id;
                buffer[3] = 0x02;
                buffer[4] = PING_ID;
                assert(buffer@.subrange(0, 5) =~= seq![0xFFu8, 0xFFu8] + frame_head(
                    self.target(),
                    self.body(),
                ));
                assert(buffer@.subrange(5, pre.len() as int) =~= pre.subrange(5, pre.len() as int));
                5
            },
            Command::Read(servo_id, addr, reply_length) => {
                buffer[2] = *servo_id;
                buffer[3] = 0x04;
                buffer[4] = READ_DATA_ID;
                buffer[5] = *addr;
                buffer[6] = *reply_length;
                assert(buffer@.subrange(0, 7) =~= seq![0xFFu8, 0xFFu8] + frame_head(
                    self.target(),
                    self.body(),
                ));
                assert(buffer@.subrange(7, pre.len() as int) =~= pre.subrange(7, pre.len() as int));
                7
            },
            Command::Write(servo_id, addr, data) => {
                buffer[2] = *servo_id;
                buffer[3] = ((3 + data.len()) % 256) as u8;
                buffer[4] = WRITE_DATA_ID;
                buffer[5] = *addr;
                let mut i: usize = 0;
                while i < data.len()
                    invariant
                        data.len() + 7 <= buffer.len(),
                        buffer@.len() == pre.len(),
                        i <= data.len(),
                        buffer@.subrange(0, 6) == seq![
                            0xFFu8,
                            0xFFu8,
                            *servo_id,
                            ((3 + data@.len()) % 256) as u8,
                            WRITE_DATA_ID,
                            *addr,
                        ],
                        buffer@.subrange(6, 6 + i) == data@.subrange(0, i as int),
                        buffer@.subrange(6 + data.len(), pre.len() as int) == pre.subrange(
                            6 + data.len(),
                            pre.len() as int,
                        ),
                    decreases data.len() - i,
                {
                    buffer[6 + i] = data[i];
                    i = i + 1;
                    assert(buffer@.subrange(6, 6 + i) =~= data@.subrange(0, i as int));
                }
                proof {
                    let n = 6 + data.len();
                    assert(buffer@.subrange(0, n) =~= buffer@.subrange(0, 6) + buffer@.subrange(
                        6,
                        n,
                    ));
                    assert(buffer@.subrange(0, n) =~= seq![0xFFu8, 0xFFu8] + frame_head(
                        self.target(),
                        self.body(),
                    ));
                }
                6 + data.len()
            },
        };
        let ghost p = self.packet();
        let ghost head = frame_head(self.target(), self.body());
        let ghost mid = buffer@;
        assert(mid.subrange(2, checksum_index as int) =~= mid.subrange(
            0,
            checksum_index as int,
        ).subrange(2, checksum_index as int));
        assert(mid.subrange(2, checksum_index as int) =~= head);
        let chk = calculate_checksum(buffer, checksum_index);
        buffer[checksum_index] = chk;
        assert(buffer@.subrange(0, p.len() as int) =~= p) by {
            assert(buffer@.subrange(0, p.len() as int) =~= mid.subrange(
                0,
                checksum_index as int,
            ).push(chk));
        }
        assert(buffer@.subrange(p.len() as int, pre.len() as int) =~= pre.subrange(
            p.len() as int,
            pre.len() as int,
        )) by {
            assert(buffer@.subrange(p.len() as int, pre.len() as int) =~= mid.subrange(
                checksum_index as int,
                pre.len() as int,
            ).drop_first());
        }
        Ok(checksum_index + 1)
    }
}

/// What a decoded reply says: who answered, its status byte and its data.
pub struct ReplyView {
    pub servo_id: u8,
    pub status: u8,
    pub data: Seq<u8>,
}

/// Decoding of a raw reply, step by step as the framing is checked.
pub open spec fn decode_spec(b: Seq<u8>) -> Result<ReplyView, ServoError> {
    if b.len() < 2 {
        Err(ServoError::ResponseParseError)
    } else if b[0] != 0xFF || b[1] != 0xFF {
        Err(ServoError::InvalidHeader(b[0], b[1]))
    } else if b.len() < 4 || b[3] < 2 || 3 + b[3] >= b.len() {
        Err(ServoError::ResponseParseError)
    } else {
        let end = 3 + b[3];
        let calculated = checksum(b.subrange(2, end));
        if calculated != b[end] {
            Err(ServoError::ChecksumMismatch(calculated, b[end]))
        } else {
            Ok(ReplyView { servo_id: b[2], status: b[4], data: b.subrange(5, end) })
        }
    }
}

/// A decoded reply; `data` borrows from the buffer it was read into.
#[derive(Debug)]
pub struct CommandResponse<'a> {
    pub servo_id: u8,
    pub status: u8,
    pub data: &'a [u8],
}

impl<'a> View for CommandResponse<'a> {
    type V = ReplyView;

    open spec fn view(&self) -> ReplyView {
        ReplyView { servo_id: self.servo_id, status: self.status, data: self.data@ }
    }
}

/// A decoding result seen through the reply's view.
pub open spec fn reply_outcome<'a>(r: Result<CommandResponse<'a>, ServoError>) -> Result<
    ReplyView,
    ServoError,
> {
    match r {
        Ok(resp) => Ok(resp@),
        Err(e) => Err(e),
    }
}

/// `Ok(())` for status 0, else the status as an error.
pub open spec fn status_result(status: u8) -> Result<(), ServoError> {
    if status == 0 {
        Ok(())
    } else {
        Err(ServoError::StatusError(status))
    }
}

/// Little-endian value of two bytes.
pub open spec fn le_u16(lo: u8, hi: u8) -> u16 {
    (lo + 256 * hi) as u16
}

impl<'a> CommandResponse<'a> {
    /// Validates and decodes a raw reply.
    pub fn parse_response(buffer: &'a [u8]) -> (r: Result<CommandResponse<'a>, ServoError>)
        ensures
            reply_outcome(r) == decode_spec(buffer@),
            buffer@.len() >= 2 && (buffer@[0] != 0xFF || buffer@[1] != 0xFF) ==> r
                == Err::<CommandResponse<'a>, ServoError>(
                ServoError::InvalidHeader(buffer@[0], buffer@[1]),
            ),
    {
        if buffer.len() < 2 {
            return Err(ServoError::ResponseParseError);
        }
        if buffer[0] != 0xFF || buffer[1] != 0xFF {
            return Err(ServoError::InvalidHeader(buffer[0], buffer[1]));
        }
        if buffer.len() < 4 {
            return Err(ServoError::ResponseParseError);
        }
        let id = buffer[2];
        let length = buffer[3] as usize;
        if length < 2 || 3 + length >= buffer.len() {
            return Err(ServoError::ResponseParseError);
        }
        let status = buffer[4];
        let checksum = buffer[3 + length];
        let calculated_checksum = calculate_checksum(buffer, 3 + length);
        if calculated_checksum != checksum {
            return Err(ServoError::ChecksumMismatch(calculated_checksum, checksum));
        }
        let data = vstd::slice::slice_subrange(buffer, 5, 3 + length);
        Ok(CommandResponse { servo_id: id, status, data })
    }

    /// Whether the servo reported success.
    pub fn is_ok(&self) -> (r: bool)
        ensures
            r == (self.status == 0),
    {
        self.status == 0
    }

    /// The status as a `Result`: `StatusError(status)` when it is nonzero.
    pub fn is_error(&self) -> (r: Result<(), ServoError>)
        ensures
            r == status_result(self.status),
    {
        if self.is_ok() {
            Ok(())
        } else {
            Err(ServoError::StatusError(self.status))
        }
    }

    /// The first two data bytes as a little-endian `u16`, if there are two.
    pub fn data_as_u16(&self) -> (r: Option<u16>)
        ensures
            self.data@.len() >= 2 ==> r == Some(le_u16(self.data@[0], self.data@[1])),
            self.data@.len() < 2 ==> r is None,
    {
        if self.data.len() >= 2 {
            Some(self.data[0] as u16 + 256 * (self.data[1] as u16))
        } else {
            None
        }
    }

    /// The first data byte, if there is one.
    pub fn data_as_u8(&self) -> (r: Option<u8>)
        ensures
            self.data@.len() >= 1 ==> r == Some(self.data@[0]),
            self.data@.len() == 0 ==> r is None,
    {
        if self.data.len() != 0 {
            Some(self.data[0])
        } else {
            None
        }
    }

    /// The reply's status byte.
    pub fn status(&self) -> (r: u8)
        ensures
            r == self.status,
    {
        self.status
    }
}

/// `after` is `before` with events appended.
pub open spec fn extends(before: Seq<PortEvent>, after: Seq<PortEvent>) -> bool {
    before.len() <= after.len() && after.subrange(0, before.len() as int) == before
}

/// The events `after` holds beyond `before`.
pub open spec fn new_events(before: Seq<PortEvent>, after: Seq<PortEvent>) -> Seq<PortEvent> {
    after.subrange(before.len() as int, after.len() as int)
}

/// The port events of one exchange of `packet` through a buffer of
/// `buf_len` bytes: none when the packet does not fit; else one write of
/// exactly `packet` that failed, or that succeeded and was followed by one
/// read.
pub open spec fn exchange_events(packet: Seq<u8>, buf_len: nat, seg: Seq<PortEvent>) -> bool {
    if packet.len() > buf_len {
        seg.len() == 0
    } else {
        ||| seg == seq![PortEvent::SendFailed]
        ||| seg.len() == 2 && seg[0] == PortEvent::Sent(packet) && (seg[1] is ReceiveFailed
            || seg[1] is Received)
    }
}

/// The outcome of an exchange with the events `seg`: `BufferTooSmall`,
/// `WriteError` for a failed write, `ReadError` for a failed read or a count
/// beyond the buffer, else the decoding of the bytes the read reported.
pub open spec fn exchange_result(packet: Seq<u8>, buf_len: nat, seg: Seq<PortEvent>) -> Result<
    ReplyView,
    ServoError,
> {
    if packet.len() > buf_len {
        Err(ServoError::BufferTooSmall)
    } else if seg.len() < 2 {
        Err(ServoError::WriteError)
    } else {
        match seg[1] {
            PortEvent::Received(n, b) => if n > b.len() {
                Err(ServoError::ReadError)
            } else {
                decode_spec(b.subrange(0, n as int))
            },
            _ => Err(ServoError::ReadError),
        }
    }
}

/// One exchange of `packet`: the buffer went from `before` to `after` and
/// the port's record from `log` to `log2`. The buffer keeps its length; it
/// is untouched when the packet does not fit, holds the packet after a
/// failed write, and holds what the read left after a read.
pub open spec fn exchanged(
    packet: Seq<u8>,
    before: Seq<u8>,
    after: Seq<u8>,
    log: Seq<PortEvent>,
    log2: Seq<PortEvent>,
) -> bool {
    let seg = new_events(log, log2);
    &&& extends(log, log2)
    &&& exchange_events(packet, before.len(), seg)
    &&& after.len() == before.len()
    &&& packet.len() > before.len() ==> after == before
    &&& seg == seq![PortEvent::SendFailed] ==> after == packet + before.subrange(
        packet.len() as int,
        before.len() as int,
    )
    &&& seg.len() == 2 && seg[1] is Received ==> after == seg[1]->Received_1
}

/// The outcome of the exchange of `packet` that took the port's record from
/// `log` to `log2`, through a buffer that held `before`.
pub open spec fn exchange_reply(
    packet: Seq<u8>,
    before: Seq<u8>,
    log: Seq<PortEvent>,
    log2: Seq<PortEvent>,
) -> Result<ReplyView, ServoError> {
    exchange_result(packet, before.len(), new_events(log, log2))
}

impl<'cmd> Command<'cmd> {
    /// Encodes the instruction into `buffer`, writes it to `port`, reads the
    /// reply into the same `buffer` and decodes it.
    pub fn send_command<'a, P: ServoPort>(&self, port: &mut Bus<P>, buffer: &'a mut [u8]) -> (r:
        Result<CommandResponse<'a>, ServoError>)
        ensures
            exchanged(
                self.packet(),
                old(buffer)@,
                final(buffer)@,
                old(port).events(),
                final(port).events(),
            ),
            reply_outcome(r) == exchange_reply(
                self.packet(),
                old(buffer)@,
                old(port).events(),
                final(port).events(),
            ),
    {
        let ghost log = port.events();
        let ghost before = buffer@;
        assert(before.len() == buffer.len());
        let index = match self.write_buffer(buffer) {
            Ok(n) => n,
            Err(e) => {
                assert(new_events(log, port.events()) =~= Seq::<PortEvent>::empty());
                assert(port.events().subrange(0, log.len() as int) =~= log);
                return Err(e);
            },
        };
        let ghost encoded = buffer@;
        assert(encoded =~= self.packet() + before.subrange(
            self.packet().len() as int,
            before.len() as int,
        )) by {
            assert(encoded =~= encoded.subrange(0, index as int) + encoded.subrange(
                index as int,
                encoded.len() as int,
            ));
        }
        let sent = vstd::slice::slice_subrange(&*buffer, 0, index);
        assert(sent@ =~= self.packet());
        if port.write_all(sent).is_err() {
            assert(new_events(log, port.events()) =~= seq![PortEvent::SendFailed]);
            assert(port.events().subrange(0, log.len() as int) =~= log);
            return Err(ServoError::WriteError);
        }
        let ghost log1 = port.events();
        let result = port.read(buffer);
        proof {
            assert(new_events(log, port.events()) =~= seq![
                PortEvent::Sent(self.packet()),
                read_event(result, buffer@),
            ]);
            assert(port.events().subrange(0, log.len() as int) =~= log);
        }
        let read_count = match result {
            Ok(n) => n,
            Err(_) => {
                return Err(ServoError::ReadError);
            },
        };
        if read_count > buffer.len() {
            return Err(ServoError::ReadError);
        }
        let reply: &'a [u8] = buffer;
        let received = vstd::slice::slice_subrange(reply, 0, read_count);
        CommandResponse::parse_response(received)
    }
}

/// Little-endian bytes of `v`.
pub open spec fn le_bytes(v: u16) -> Seq<u8> {
    seq![(v % 256) as u8, (v / 256) as u8]
}

/// The goal-position payload: position, then speed if given, then
/// acceleration if given, each little-endian.
pub open spec fn position_payload(position: u16, speed: Option<u16>, acc: Option<u16>) -> Seq<u8> {
    le_bytes(position) + match speed {
        Some(s) => le_bytes(s),
        None => Seq::empty(),
    } + match acc {
        Some(a) => le_bytes(a),
        None => Seq::empty(),
    }
}

/// The packet that writes a goal position.
pub open spec fn position_packet(
    servo_id: u8,
    position: u16,
    speed: Option<u16>,
    acc: Option<u16>,
) -> Seq<u8> {
    frame(
        servo_id,
        seq![WRITE_DATA_ID, GOAL_POSITION_REGISTER] + position_payload(position, speed, acc),
    )
}

/// Pings a servo.
pub fn send_ping<'a, P: ServoPort>(port: &mut Bus<P>, buffer: &'a mut [u8], servo_id: u8) -> (r:
    Result<CommandResponse<'a>, ServoError>)
    ensures
        exchanged(
            Command::Ping(servo_id).packet(),
            old(buffer)@,
            final(buffer)@,
            old(port).events(),
            final(port).events(),
        ),
        reply_outcome(r) == exchange_reply(
            Command::Ping(servo_id).packet(),
            old(buffer)@,
            old(port).events(),
            final(port).events(),
        ),
{
    Command::Ping(servo_id).send_command(port, buffer)
}

/// Writes a goal position, with the optional speed and acceleration that
/// follow it in the payload. Acceleration is only sent after a speed.
pub fn write_position<'a, P: ServoPort>(
    port: &mut Bus<P>,
    buffer: &'a mut [u8],
    servo_id: u8,
    position: u16,
    speed: Option<u16>,
    acc: Option<u16>,
) -> (r: Result<CommandResponse<'a>, ServoError>)
    requires
        acc is Some ==> speed is Some,
    ensures
        exchanged(
            position_packet(servo_id, position, speed, acc),
            old(buffer)@,
            final(buffer)@,
            old(port).events(),
            final(port).events(),
        ),
        reply_outcome(r) == exchange_reply(
            position_packet(servo_id, position, speed, acc),
            old(buffer)@,
            old(port).events(),
            final(port).events(),
        ),
{
    let mut data = [0u8; 6];
    let mut len: usize = 0;
    data[0] = (position % 256) as u8;
    data[1] = (position / 256) as u8;
    len = len + 2;
    if let Some(s) = speed {
        data[len] = (s % 256) as u8;
        data[len + 1] = (s / 256) as u8;
        len = len + 2;
    }
    if let Some(a) = acc {
        data[len] = (a % 256) as u8;
        data[len + 1] = (a / 256) as u8;
        len = len + 2;
    }
    let payload = vstd::slice::slice_subrange(data.as_slice(), 0, len);
    assert(payload@ =~= position_payload(position, speed, acc));
    let command = Command::Write(servo_id, GOAL_POSITION_REGISTER, payload);
    assert(command.packet() == position_packet(servo_id, position, speed, acc));
    command.send_command(port, buffer)
}

proof fn lemma_byte_sum_update(s: Seq<u8>, j: int, v: u8)
    requires
        0 <= j < s.len(),
    ensures
        byte_sum(s.update(j, v)) + s[j] == byte_sum(s) + v,
    decreases s.len(),
{
    let t = s.update(j, v);
    if j == s.len() - 1 {
        assert(t.drop_last() =~= s.drop_last());
    } else {
        assert(t.drop_last() =~= s.drop_last().update(j, v));
        lemma_byte_sum_update(s.drop_last(), j, v);
    }
}

proof fn lemma_decode_body(id: u8, body: Seq<u8>)
    requires
        1 <= body.len() <= 254,
    ensures
        decode_spec(frame(id, body)) == Ok::<ReplyView, ServoError>(
            ReplyView { servo_id: id, status: body[0], data: body.drop_first() },
        ),
{
    let f = frame(id, body);
    let head = frame_head(id, body);
    let end = 3 + f[3];
    assert(f[3] == body.len() + 1);
    assert(end == f.len() - 1);
    assert(f.subrange(2, end) =~= head);
    assert(f.subrange(5, end) =~= body.drop_first());
}

/// A reply framed by the same rules as an instruction decodes to exactly
/// the id, status and data it was built from.
pub proof fn lemma_decode_reply(id: u8, status: u8, data: Seq<u8>)
    requires
        data.len() <= 253,
    ensures
        decode_spec(frame(id, seq![status] + data)) == Ok::<ReplyView, ServoError>(
            ReplyView { servo_id: id, status, data },
        ),
{
    let body = seq![status] + data;
    lemma_decode_body(id, body);
    assert(body.drop_first() =~= data);
}

/// Decoding an encoded instruction gives back its id, its instruction code
/// in the status position and its parameters as data.
pub proof fn lemma_decode_encoded(cmd: Command)
    requires
        cmd.body().len() <= 254,
    ensures
        decode_spec(cmd.packet()) == Ok::<ReplyView, ServoError>(
            ReplyView {
                servo_id: cmd.target(),
                status: cmd.body()[0],
                data: cmd.body().drop_first(),
            },
        ),
{
    lemma_decode_body(cmd.target(), cmd.body());
}

/// A `Write` instruction carrying L payload bytes encodes to 7 + L bytes.
pub proof fn lemma_write_packet_length(servo_id: u8, addr: u8, data: &[u8])
    ensures
        Command::Write(servo_id, addr, data).packet().len() == 7 + data@.len(),
{
}

/// A goal-position payload is 2, 4 or 6 bytes, as speed and acceleration
/// are given, and its packet is 7 bytes longer.
pub proof fn lemma_position_packet_length(
    servo_id: u8,
    position: u16,
    speed: Option<u16>,
    acc: Option<u16>,
)
    ensures
        position_payload(position, speed, acc).len() == 2 + (if speed is Some {
            2int
        } else {
            0
        }) + (if acc is Some {
            2int
        } else {
            0
        }),
        position_packet(servo_id, position, speed, acc).len() == 7 + position_payload(
            position,
            speed,
            acc,
        ).len(),
{
}

/// Changing any byte of a well-formed reply's id, status or data, without
/// recomputing the checksum, makes decoding fail with a checksum mismatch.
pub proof fn lemma_corrupted_reply_rejected(id: u8, status: u8, data: Seq<u8>, i: int, v: u8)
    requires
        data.len() <= 253,
        i == 2 || 4 <= i < frame(id, seq![status] + data).len() - 1,
        v != frame(id, seq![status] + data)[i],
    ensures
        decode_spec(frame(id, seq![status] + data).update(i, v)) is Err,
        decode_spec(frame(id, seq![status] + data).update(i, v))->Err_0 is ChecksumMismatch,
{
    let body = seq![status] + data;
    let f = frame(id, body);
    let g = f.update(i, v);
    let head = frame_head(id, body);
    let end = 3 + f[3];
    assert(f[3] == body.len() + 1);
    assert(end == f.len() - 1);
    assert(f.subrange(2, end) =~= head);
    assert(g.subrange(2, end) =~= head.update(i - 2, v));
    lemma_byte_sum_update(head, i - 2, v);
    let a = (byte_sum(head) % 256) as u8;
    let b = (byte_sum(head.update(i - 2, v)) % 256) as u8;
    assert(a != b);
    assert(!a != !b) by (bit_vector)
        requires
            a != b,
    ;
}

} // verus!
