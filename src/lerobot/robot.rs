//! Cached telemetry and queued moves for a fixed set of servos.
use vstd::prelude::*;

use crate::comm::{
    exchange_events, exchange_result, extends, new_events, position_packet, write_position,
    Command, ReplyView, CURRENT_REGISTER,
    LOAD_REGISTER, MOVING_REGISTER, POSITION_REGISTER, SPEED_REGISTER, STATUS_REGISTER,
    TEMPERATURE_REGISTER, VOLTAGE_REGISTER,
};
use crate::lerobot::queue::{
    queue_items, queue_new, queue_pop, queue_push, CommandQueue, COMMAND_QUEUE_SIZE,
};
use crate::port::{Bus, PortEvent, ServoPort};
use crate::register::{
    acknowledged, flag_register_read, flag_result, has_error, is_moving, read_current, read_load,
    read_position, read_speed, read_temperature, read_voltage, u16_register_read,
    u16_result, u8_register_read, u8_result,
};
use crate::ServoError;

verus! {

/// A move to be sent to one servo.
#[derive(Debug, Clone, Copy, PartialEq, Eq, Structural)]
pub struct ServoPositionCommand {
    pub id: u8,
    pub position: u16,
    pub speed: Option<u16>,
    pub acc: Option<u16>,
}

impl ServoPositionCommand {
    /// Acceleration is only given together with a speed.
    pub open spec fn well_shaped(self) -> bool {
        self.acc is Some ==> self.speed is Some
    }
}

impl Default for ServoPositionCommand {
    fn default() -> (r: Self)
        ensures
            r == (ServoPositionCommand { id: 0, position: 0, speed: None, acc: None }),
    {
        ServoPositionCommand { id: 0, position: 0, speed: None, acc: None }
    }
}

/// The last telemetry read from one servo, and its goal position.
#[derive(Debug, Clone, Copy, PartialEq, Eq, Structural)]
pub struct ServoInfo {
    pub id: u8,
    pub position: u16,
    pub goal_position: u16,
    pub speed: u16,
    pub temperature: u8,
    pub load: u16,
    pub voltage: u8,
    pub current: u16,
    pub is_moving: bool,
    pub has_error: bool,
}

impl ServoInfo {
    /// The all-zero snapshot.
    pub open spec fn blank() -> ServoInfo {
        ServoInfo {
            id: 0,
            position: 0,
            goal_position: 0,
            speed: 0,
            temperature: 0,
            load: 0,
            voltage: 0,
            current: 0,
            is_moving: false,
            has_error: false,
        }
    }

    /// This snapshot with its goal position replaced.
    pub open spec fn with_goal(self, goal: u16) -> ServoInfo {
        ServoInfo { goal_position: goal, ..self }
    }
}

impl Default for ServoInfo {
    fn default() -> (r: Self)
        ensures
            r == ServoInfo::blank(),
    {
        ServoInfo {
            id: 0,
            position: 0,
            goal_position: 0,
            speed: 0,
            temperature: 0,
            load: 0,
            voltage: 0,
            current: 0,
            is_moving: false,
            has_error: false,
        }
    }
}

/// `(goal + delta) mod 4096`, the remainder taken non-negative.
pub open spec fn wrapped_goal(goal: u16, delta: i16) -> u16 {
    ((goal + delta) % 4096) as u16
}

/// What an enqueue does: below capacity `command` is appended and `Ok(())`
/// returned; at capacity the queue is unchanged and `CommandOverflow` returned.
pub open spec fn enqueued(
    before: Seq<ServoPositionCommand>,
    after: Seq<ServoPositionCommand>,
    command: ServoPositionCommand,
    r: Result<(), ServoError>,
) -> bool {
    if before.len() < COMMAND_QUEUE_SIZE {
        r == Ok::<(), ServoError>(()) && after == before.push(command)
    } else {
        r == Err::<(), ServoError>(ServoError::CommandOverflow) && after == before
    }
}

/// Telemetry for `N` servos and the moves queued for them.
#[derive(Debug)]
pub struct ServoState<const N: usize> {
    pub infos: [ServoInfo; N],
    pub servo_ids: [u8; N],
    pub queued_commands: CommandQueue,
}

impl<const N: usize> ServoState<N> {
    /// The queued commands, oldest first.
    pub open spec fn queue(&self) -> Seq<ServoPositionCommand> {
        queue_items(self.queued_commands)
    }

    /// Every queued command is well shaped.
    pub open spec fn wf(&self) -> bool {
        forall|i: int| 0 <= i < self.queue().len() ==> (#[trigger] self.queue()[i]).well_shaped()
    }

    /// The effect of queueing a move of servo `index` to `goal`.
    pub open spec fn move_queued(
        self,
        next: Self,
        index: int,
        goal: u16,
        speed: Option<u16>,
        acc: Option<u16>,
        r: Result<(), ServoError>,
    ) -> bool {
        &&& next.servo_ids == self.servo_ids
        &&& next.infos@ == self.infos@.update(index, self.infos@[index].with_goal(goal))
        &&& enqueued(
            self.queue(),
            next.queue(),
            ServoPositionCommand { id: self.servo_ids@[index], position: goal, speed, acc },
            r,
        )
    }

    /// A state for the servos `servo_ids`, with blank telemetry and no queued moves.
    pub fn new(servo_ids: &[u8; N]) -> (s: Self)
        ensures
            s.servo_ids == *servo_ids,
            forall|i: int| 0 <= i < N ==> s.infos@[i] == ServoInfo::blank(),
            s.queue() == Seq::<ServoPositionCommand>::empty(),
            s.wf(),
    {
        ServoState {
            servo_ids: *servo_ids,
            infos: vstd::array::array_fill_for_copy_types(ServoInfo::default()),
            queued_commands: queue_new(),
        }
    }

    /// Sets servo `servo_index`'s goal to `position` and queues the move.
    pub fn send_absolute_move_command(
        &mut self,
        servo_index: u8,
        position: u16,
        speed: Option<u16>,
        acc: Option<u16>,
    ) -> (r: Result<(), ServoError>)
        requires
            servo_index < N,
            acc is Some ==> speed is Some,
        ensures
            old(self).move_queued(*final(self), servo_index as int, position, speed, acc, r),
            old(self).wf() ==> final(self).wf(),
    {
        let i = servo_index as usize;
        let servo_id = self.servo_ids[i];
        let mut info = self.infos[i];
        info.goal_position = position;
        self.infos[i] = info;
        let command = ServoPositionCommand { id: servo_id, position, speed, acc };
        let r = match queue_push(&mut self.queued_commands, command) {
            Ok(()) => Ok(()),
            Err(_) => Err(ServoError::CommandOverflow),
        };
        assert(old(self).wf() ==> self.wf()) by {
            if old(self).wf() {
                assert forall|k: int| 0 <= k < self.queue().len() implies (
                #[trigger] self.queue()[k]).well_shaped() by {
                    if k < old(self).queue().len() {
                        assert(self.queue()[k] == old(self).queue()[k]);
                    }
                }
            }
        }
        r
    }

    /// Moves servo `servo_index`'s goal by `delta`, wrapping within 0..4096,
    /// and queues the move.
    pub fn send_relative_move_command(
        &mut self,
        servo_index: u8,
        delta: i16,
        speed: Option<u16>,
        acc: Option<u16>,
    ) -> (r: Result<(), ServoError>)
        requires
            servo_index < N,
            acc is Some ==> speed is Some,
        ensures
            old(self).move_queued(
                *final(self),
                servo_index as int,
                wrapped_goal(old(self).infos@[servo_index as int].goal_position, delta),
                speed,
                acc,
                r,
            ),
            old(self).wf() ==> final(self).wf(),
    {
        let i = servo_index as usize;
        let servo_id = self.servo_ids[i];
        let mut info = self.infos[i];
        let shifted: u32 = info.goal_position as u32 + (delta as i32 + 36864) as u32;
        let goal = (shifted % 4096) as u16;
        proof {
            let g = old(self).infos@[servo_index as int].goal_position;
            vstd::arithmetic::div_mod::lemma_mod_multiples_vanish(9, g + delta, 4096);
            assert(shifted == 4096 * 9 + (g + delta));
        }
        info.goal_position = goal;
        self.infos[i] = info;
        let command = ServoPositionCommand { id: servo_id, position: goal, speed, acc };
        let r = match queue_push(&mut self.queued_commands, command) {
            Ok(()) => Ok(()),
            Err(_) => Err(ServoError::CommandOverflow),
        };
        assert(old(self).wf() ==> self.wf()) by {
            if old(self).wf() {
                assert forall|k: int| 0 <= k < self.queue().len() implies (
                #[trigger] self.queue()[k]).well_shaped() by {
                    if k < old(self).queue().len() {
                        assert(self.queue()[k] == old(self).queue()[k]);
                    }
                }
            }
        }
        r
    }
}

impl<const N: usize> ServoState<N> {
    /// The effect of one processing tick: with nothing queued, nothing
    /// changes, nothing reaches the port and the tick succeeds; otherwise the
    /// most recently queued command is removed and its goal-position packet
    /// exchanged, and `r` is the acknowledgement of that exchange.
    pub open spec fn tick(
        self,
        next: Self,
        before: Seq<u8>,
        after: Seq<u8>,
        log: Seq<PortEvent>,
        log2: Seq<PortEvent>,
        r: Result<(), ServoError>,
    ) -> bool {
        &&& next.servo_ids == self.servo_ids
        &&& next.infos == self.infos
        &&& if self.queue().len() == 0 {
            &&& r == Ok::<(), ServoError>(())
            &&& next == self
            &&& after == before
            &&& log2 == log
        } else {
            let c = self.queue().last();
            &&& next.queue() == self.queue().drop_last()
            &&& acknowledged(
                position_packet(c.id, c.position, c.speed, c.acc),
                before,
                after,
                log,
                log2,
                r,
            )
        }
    }

    /// Sends at most one queued move: the most recently queued one. The
    /// command is discarded whatever the outcome.
    pub fn process_queued_commands<P: ServoPort>(
        &mut self,
        port: &mut Bus<P>,
        buffer: &mut [u8],
    ) -> (r: Result<(), ServoError>)
        requires
            old(self).wf(),
        ensures
            old(self).tick(
                *final(self),
                old(buffer)@,
                final(buffer)@,
                old(port).events(),
                final(port).events(),
                r,
            ),
            final(self).wf(),
    {
        let ghost q = self.queue();
        match queue_pop(&mut self.queued_commands) {
            Some(command) => {
                assert(q[q.len() - 1].well_shaped());
                assert forall|k: int| 0 <= k < self.queue().len() implies (
                #[trigger] self.queue()[k]).well_shaped() by {
                    assert(self.queue()[k] == q[k]);
                }
                let response = write_position(
                    port,
                    buffer,
                    command.id,
                    command.position,
                    command.speed,
                    command.acc,
                );
                match response {
                    Ok(reply) => if reply.is_ok() {
                        Ok(())
                    } else {
                        Err(ServoError::StatusError(reply.status()))
                    },
                    Err(e) => Err(e),
                }
            },
            None => Ok(()),
        }
    }
}

/// The value read, or `default` when the read failed.
pub open spec fn value_or<T>(r: Result<T, ServoError>, default: T) -> T {
    match r {
        Ok(v) => v,
        Err(_) => default,
    }
}

fn u16_or_zero(r: Result<u16, ServoError>) -> (v: u16)
    ensures
        v == value_or(r, 0u16),
{
    match r {
        Ok(v) => v,
        Err(_) => 0,
    }
}

fn u8_or_zero(r: Result<u8, ServoError>) -> (v: u8)
    ensures
        v == value_or(r, 0u8),
{
    match r {
        Ok(v) => v,
        Err(_) => 0,
    }
}

fn flag_or(r: Result<bool, ServoError>, default: bool) -> (v: bool)
    ensures
        v == value_or(r, default),
{
    match r {
        Ok(v) => v,
        Err(_) => default,
    }
}

/// An error on which a telemetry refresh of one servo gives up: the exchange
/// itself failed, so nothing the servo said is known.
pub open spec fn is_transport_failure(e: ServoError) -> bool {
    e is WriteError || e is ReadError || e is BufferTooSmall
}

/// Whether a failed first read abandons the refresh of a servo.
pub fn aborts_refresh(e: &ServoError) -> (r: bool)
    ensures
        r == is_transport_failure(*e),
{
    match e {
        ServoError::WriteError | ServoError::ReadError | ServoError::BufferTooSmall => true,
        _ => false,
    }
}

/// A snapshot of servo `servo_id` built from the outcomes of its register
/// reads, each failed read replaced by its fallback.
pub open spec fn readings_info(
    servo_id: u8,
    position: Result<u16, ServoError>,
    speed: Result<u16, ServoError>,
    temperature: Result<u8, ServoError>,
    load: Result<u16, ServoError>,
    voltage: Result<u8, ServoError>,
    current: Result<u16, ServoError>,
    is_moving: Result<bool, ServoError>,
    has_error: Result<bool, ServoError>,
) -> ServoInfo {
    ServoInfo {
        id: servo_id,
        position: value_or(position, 0u16),
        goal_position: value_or(position, 0u16),
        speed: value_or(speed, 0u16),
        temperature: value_or(temperature, 0u8),
        load: value_or(load, 0u16),
        voltage: value_or(voltage, 0u8),
        current: value_or(current, 0u16),
        is_moving: value_or(is_moving, false),
        has_error: value_or(has_error, true),
    }
}

impl ServoInfo {
    /// A snapshot of servo `servo_id` from the outcomes of its register
    /// reads. A failed read leaves zero, or `false`, except the error flag,
    /// which is then set. The goal position is the measured position.
    pub fn from_readings(
        servo_id: u8,
        position: Result<u16, ServoError>,
        speed: Result<u16, ServoError>,
        temperature: Result<u8, ServoError>,
        load: Result<u16, ServoError>,
        voltage: Result<u8, ServoError>,
        current: Result<u16, ServoError>,
        is_moving: Result<bool, ServoError>,
        has_error: Result<bool, ServoError>,
    ) -> (r: ServoInfo)
        ensures
            r == readings_info(
                servo_id,
                position,
                speed,
                temperature,
                load,
                voltage,
                current,
                is_moving,
                has_error,
            ),
    {
        let position = u16_or_zero(position);
        ServoInfo {
            id: servo_id,
            position,
            goal_position: position,
            speed: u16_or_zero(speed),
            temperature: u8_or_zero(temperature),
            load: u16_or_zero(load),
            voltage: u8_or_zero(voltage),
            current: u16_or_zero(current),
            is_moving: flag_or(is_moving, false),
            has_error: flag_or(has_error, true),
        }
    }
}

/// The `k`-th read of a telemetry refresh of servo `id`: position,
/// speed, temperature, load, voltage, current, moving flag, error flag.
pub open spec fn refresh_packet(id: u8, k: int) -> Seq<u8> {
    if k == 0 {
        Command::Read(id, POSITION_REGISTER, 2).packet()
    } else if k == 1 {
        Command::Read(id, SPEED_REGISTER, 2).packet()
    } else if k == 2 {
        Command::Read(id, TEMPERATURE_REGISTER, 1).packet()
    } else if k == 3 {
        Command::Read(id, LOAD_REGISTER, 2).packet()
    } else if k == 4 {
        Command::Read(id, VOLTAGE_REGISTER, 1).packet()
    } else if k == 5 {
        Command::Read(id, CURRENT_REGISTER, 2).packet()
    } else if k == 6 {
        Command::Read(id, MOVING_REGISTER, 1).packet()
    } else {
        Command::Read(id, STATUS_REGISTER, 1).packet()
    }
}

/// The events of several exchanges, one after the other.
pub open spec fn concat_events(segs: Seq<Seq<PortEvent>>) -> Seq<PortEvent>
    decreases segs.len(),
{
    if segs.len() == 0 {
        Seq::empty()
    } else {
        concat_events(segs.drop_last()) + segs.last()
    }
}

/// The reply of the `k`-th read of a refresh whose exchanges had the
/// events `segs`.
pub open spec fn refresh_reply(id: u8, buf_len: nat, segs: Seq<Seq<PortEvent>>, k: int) -> Result<
    ReplyView,
    ServoError,
> {
    exchange_result(refresh_packet(id, k), buf_len, segs[k])
}

/// The refresh gave up after its first read: the position read failed
/// in transport.
pub open spec fn refresh_abandoned(id: u8, buf_len: nat, segs: Seq<Seq<PortEvent>>) -> bool {
    let position = u16_result(refresh_reply(id, buf_len, segs, 0));
    position is Err && is_transport_failure(position->Err_0)
}

/// `segs` are the exchanges of a refresh of servo `id`, in order: just the
/// position read when that failed in transport, else all eight reads.
#[verifier::opaque]
pub open spec fn refresh_trace(id: u8, buf_len: nat, segs: Seq<Seq<PortEvent>>) -> bool {
    &&& segs.len() >= 1
    &&& segs.len() == if refresh_abandoned(id, buf_len, segs) {
        1int
    } else {
        8int
    }
    &&& forall|k: int|
        0 <= k < segs.len() ==> exchange_events(refresh_packet(id, k), buf_len, #[trigger] segs[k])
}

/// What a refresh with the exchanges `segs` returns: the position read's
/// error when it was abandoned, else the snapshot built from the eight
/// readings.
#[verifier::opaque]
pub open spec fn refresh_result(id: u8, buf_len: nat, segs: Seq<Seq<PortEvent>>) -> Result<
    ServoInfo,
    ServoError,
> {
    if refresh_abandoned(id, buf_len, segs) {
        Err(u16_result(refresh_reply(id, buf_len, segs, 0))->Err_0)
    } else {
        Ok(
            readings_info(
                id,
                u16_result(refresh_reply(id, buf_len, segs, 0)),
                u16_result(refresh_reply(id, buf_len, segs, 1)),
                u8_result(refresh_reply(id, buf_len, segs, 2)),
                u16_result(refresh_reply(id, buf_len, segs, 3)),
                u8_result(refresh_reply(id, buf_len, segs, 4)),
                u16_result(refresh_reply(id, buf_len, segs, 5)),
                flag_result(refresh_reply(id, buf_len, segs, 6)),
                flag_result(refresh_reply(id, buf_len, segs, 7)),
            ),
        )
    }
}

/// One more exchange appended to a run of exchanges.
proof fn lemma_run_push(
    log0: Seq<PortEvent>,
    log1: Seq<PortEvent>,
    log2: Seq<PortEvent>,
    segs: Seq<Seq<PortEvent>>,
)
    requires
        extends(log0, log1),
        extends(log1, log2),
        new_events(log0, log1) == concat_events(segs),
    ensures
        extends(log0, log2),
        new_events(log0, log2) == concat_events(segs.push(new_events(log1, log2))),
{
    assert(segs.push(new_events(log1, log2)).drop_last() =~= segs);
    assert(log2.subrange(0, log0.len() as int) =~= log1.subrange(0, log0.len() as int));
    assert(new_events(log0, log2) =~= new_events(log0, log1) + new_events(log1, log2));
}

/// Reads every telemetry register of one servo. A transport failure on the
/// first read gives up at once; later failures fall back per field.
fn read_servo_info<P: ServoPort>(port: &mut Bus<P>, buffer: &mut [u8], servo_id: u8) -> (r: Result<
    ServoInfo,
    ServoError,
>)
    ensures
        final(buffer)@.len() == old(buffer)@.len(),
        extends(old(port).events(), final(port).events()),
        exists|segs: Seq<Seq<PortEvent>>|
            #[trigger] refresh_trace(servo_id, old(buffer)@.len(), segs) && new_events(
                old(port).events(),
                final(port).events(),
            ) == concat_events(segs) && r == refresh_result(servo_id, old(buffer)@.len(), segs),
{
    reveal(refresh_trace);
    reveal(refresh_result);
    let ghost len = buffer@.len();
    let ghost log0 = port.events();
    let ghost mut segs = Seq::<Seq<PortEvent>>::empty();
    assert(new_events(log0, log0) =~= concat_events(segs));
    assert(log0.subrange(0, log0.len() as int) =~= log0);

    let ghost l = port.events();
    let position = read_position(port, buffer, servo_id);
    proof {
        lemma_run_push(log0, l, port.events(), segs);
        segs = segs.push(new_events(l, port.events()));
    }
    if let Err(e) = position {
        if aborts_refresh(&e) {
            assert(refresh_trace(servo_id, len, segs));
            return Err(e);
        }
    }
    let ghost l = port.events();
    let speed = read_speed(port, buffer, servo_id);
    proof {
        lemma_run_push(log0, l, port.events(), segs);
        segs = segs.push(new_events(l, port.events()));
    }
    let ghost l = port.events();
    let temperature = read_temperature(port, buffer, servo_id);
    proof {
        lemma_run_push(log0, l, port.events(), segs);
        segs = segs.push(new_events(l, port.events()));
    }
    let ghost l = port.events();
    let load = read_load(port, buffer, servo_id);
    proof {
        lemma_run_push(log0, l, port.events(), segs);
        segs = segs.push(new_events(l, port.events()));
    }
    let ghost l = port.events();
    let voltage = read_voltage(port, buffer, servo_id);
    proof {
        lemma_run_push(log0, l, port.events(), segs);
        segs = segs.push(new_events(l, port.events()));
    }
    let ghost l = port.events();
    let current = read_current(port, buffer, servo_id);
    proof {
        lemma_run_push(log0, l, port.events(), segs);
        segs = segs.push(new_events(l, port.events()));
    }
    let ghost l = port.events();
    let moving = is_moving(port, buffer, servo_id);
    proof {
        lemma_run_push(log0, l, port.events(), segs);
        segs = segs.push(new_events(l, port.events()));
    }
    let ghost l = port.events();
    let error = has_error(port, buffer, servo_id);
    proof {
        lemma_run_push(log0, l, port.events(), segs);
        segs = segs.push(new_events(l, port.events()));
    }
    let info = ServoInfo::from_readings(
        servo_id,
        position,
        speed,
        temperature,
        load,
        voltage,
        current,
        moving,
        error,
    );
    assert(refresh_trace(servo_id, len, segs));
    assert(Ok::<ServoInfo, ServoError>(info) == refresh_result(servo_id, len, segs));
    Ok(info)
}

/// The run of refreshes of several servos: each servo's exchanges, in turn.
pub open spec fn concat_runs(runs: Seq<Seq<Seq<PortEvent>>>) -> Seq<PortEvent>
    decreases runs.len(),
{
    if runs.len() == 0 {
        Seq::empty()
    } else {
        concat_runs(runs.drop_last()) + concat_events(runs.last())
    }
}

/// The snapshot after a refresh: the fresh one, or the old one kept when
/// the refresh was abandoned.
pub open spec fn kept_or(previous: ServoInfo, r: Result<ServoInfo, ServoError>) -> ServoInfo {
    match r {
        Ok(info) => info,
        Err(_) => previous,
    }
}

impl<const N: usize> ServoState<N> {
    /// The effect of a telemetry refresh whose per-servo exchanges are
    /// `runs`: ids and queue are kept, servo `i` is refreshed through
    /// `runs[i]`, and its snapshot is the refresh's result, or is kept when
    /// the refresh was abandoned.
    pub open spec fn refreshed(
        self,
        next: Self,
        buf_len: nat,
        runs: Seq<Seq<Seq<PortEvent>>>,
    ) -> bool {
        &&& runs.len() == N
        &&& next.servo_ids == self.servo_ids
        &&& next.queued_commands == self.queued_commands
        &&& forall|i: int|
            0 <= i < N ==> refresh_trace(self.servo_ids@[i], buf_len, #[trigger] runs[i])
                && next.infos@[i] == kept_or(
                self.infos@[i],
                refresh_result(self.servo_ids@[i], buf_len, runs[i]),
            )
    }

    /// Refreshes the telemetry of every servo, one after the other.
    pub fn update<P: ServoPort>(&mut self, port: &mut Bus<P>, buffer: &mut [u8])
        ensures
            final(buffer)@.len() == old(buffer)@.len(),
            extends(old(port).events(), final(port).events()),
            exists|runs: Seq<Seq<Seq<PortEvent>>>|
                #[trigger] old(self).refreshed(*final(self), old(buffer)@.len(), runs)
                    && new_events(old(port).events(), final(port).events()) == concat_runs(runs),
    {
        let ghost len = buffer@.len();
        let ghost log0 = port.events();
        let ghost mut runs = Seq::<Seq<Seq<PortEvent>>>::empty();
        assert(new_events(log0, log0) =~= concat_runs(runs));
        assert(log0.subrange(0, log0.len() as int) =~= log0);
        let mut index: usize = 0;
        while index < N
            invariant
                index <= N,
                runs.len() == index,
                buffer@.len() == len,
                len == old(buffer)@.len(),
                log0 == old(port).events(),
                extends(log0, port.events()),
                new_events(log0, port.events()) == concat_runs(runs),
                self.servo_ids == old(self).servo_ids,
                self.queued_commands == old(self).queued_commands,
                forall|i: int|
                    index <= i < N ==> #[trigger] self.infos@[i] == old(self).infos@[i],
                forall|i: int|
                    0 <= i < index ==> refresh_trace(
                        old(self).servo_ids@[i],
                        len,
                        #[trigger] runs[i],
                    ) && self.infos@[i] == kept_or(
                        old(self).infos@[i],
                        refresh_result(old(self).servo_ids@[i], len, runs[i]),
                    ),
            decreases N - index,
        {
            let id = self.servo_ids[index];
            let ghost l = port.events();
            let result = read_servo_info(port, buffer, id);
            let ghost segs = choose|segs: Seq<Seq<PortEvent>>|
                #[trigger] refresh_trace(id, len, segs) && new_events(l, port.events())
                    == concat_events(segs) && result == refresh_result(id, len, segs);
            proof {
                let l2 = port.events();
                assert(runs.push(segs).drop_last() =~= runs);
                assert(l2.subrange(0, log0.len() as int) =~= l.subrange(0, log0.len() as int));
                assert(new_events(log0, l2) =~= new_events(log0, l) + new_events(l, l2));
                runs = runs.push(segs);
            }
            match result {
                Ok(info) => {
                    self.infos[index] = info;
                },
                Err(_) => {},
            }
            index = index + 1;
        }
        assert(old(self).refreshed(*self, len, runs));
    }
}

/// A six-servo arm on one port, with its state and a reusable buffer.
pub struct Robot<PORT: ServoPort> {
    port: Bus<PORT>,
    servo_state: ServoState<6>,
    buffer: [u8; 256],
}

impl<PORT: ServoPort> Robot<PORT> {
    /// The arm's servo state.
    pub closed spec fn state(&self) -> ServoState<6> {
        self.servo_state
    }

    /// What the arm's buffer holds.
    pub closed spec fn buffer_bytes(&self) -> Seq<u8> {
        self.buffer@
    }

    /// The calls made on the arm's port so far.
    pub closed spec fn port_events(&self) -> Seq<PortEvent> {
        self.port.events()
    }

    /// An arm of servos 1 to 6 on `port`.
    pub fn new(port: PORT) -> (r: Result<Self, ServoError>)
        ensures
            r matches Ok(robot) && {
                &&& robot.state().servo_ids@ == seq![1u8, 2, 3, 4, 5, 6]
                &&& robot.state().queue() == Seq::<ServoPositionCommand>::empty()
                &&& forall|i: int| 0 <= i < 6 ==> robot.state().infos@[i] == ServoInfo::blank()
                &&& robot.state().wf()
                &&& robot.buffer_bytes().len() == 256
                &&& robot.port_events() == Seq::<PortEvent>::empty()
            },
    {
        let servo_ids: [u8; 6] = [1u8, 2, 3, 4, 5, 6];
        let state = ServoState::new(&servo_ids);
        let buffer = [0u8; 256];
        Ok(Robot { port: Bus::new(port), buffer, servo_state: state })
    }

    /// Sets servo `servo_index`'s goal to `position` and queues the move.
    pub fn send_absolute_move_command(
        &mut self,
        servo_index: u8,
        position: u16,
        time: Option<u16>,
        accel: Option<u16>,
    ) -> (r: Result<(), ServoError>)
        requires
            servo_index < 6,
            accel is Some ==> time is Some,
        ensures
            old(self).state().move_queued(
                final(self).state(),
                servo_index as int,
                position,
                time,
                accel,
                r,
            ),
            old(self).state().wf() ==> final(self).state().wf(),
            final(self).buffer_bytes() == old(self).buffer_bytes(),
            final(self).port_events() == old(self).port_events(),
    {
        self.servo_state.send_absolute_move_command(servo_index, position, time, accel)
    }

    /// Moves servo `servo_id`'s goal by `delta`, wrapping within 0..4096, and
    /// queues the move; `servo_id` is the servo's index in the arm.
    pub fn send_relative_move_command(
        &mut self,
        servo_id: u8,
        delta: i16,
        time: Option<u16>,
        accel: Option<u16>,
    ) -> (r: Result<(), ServoError>)
        requires
            servo_id < 6,
            accel is Some ==> time is Some,
        ensures
            old(self).state().move_queued(
                final(self).state(),
                servo_id as int,
                wrapped_goal(old(self).state().infos@[servo_id as int].goal_position, delta),
                time,
                accel,
                r,
            ),
            old(self).state().wf() ==> final(self).state().wf(),
            final(self).buffer_bytes() == old(self).buffer_bytes(),
            final(self).port_events() == old(self).port_events(),
    {
        self.servo_state.send_relative_move_command(servo_id, delta, time, accel)
    }

    /// Sends at most one queued move, the most recently queued.
    pub fn process_queued_commands(&mut self) -> (r: Result<(), ServoError>)
        requires
            old(self).state().wf(),
        ensures
            old(self).state().tick(
                final(self).state(),
                old(self).buffer_bytes(),
                final(self).buffer_bytes(),
                old(self).port_events(),
                final(self).port_events(),
                r,
            ),
            final(self).state().wf(),
    {
        self.servo_state.process_queued_commands(&mut self.port, &mut self.buffer)
    }

    /// Refreshes the telemetry of all six servos.
    pub fn update_servo_state(&mut self) -> (r: Result<(), ServoError>)
        ensures
            r is Ok,
            final(self).buffer_bytes().len() == old(self).buffer_bytes().len(),
            extends(old(self).port_events(), final(self).port_events()),
            exists|runs: Seq<Seq<Seq<PortEvent>>>|
                #[trigger] old(self).state().refreshed(
                    final(self).state(),
                    old(self).buffer_bytes().len(),
                    runs,
                ) && new_events(old(self).port_events(), final(self).port_events())
                    == concat_runs(runs),
    {
        let ghost state = self.servo_state;
        let ghost log = self.port.events();
        let ghost before = self.buffer@;
        self.servo_state.update(&mut self.port, &mut self.buffer);
        proof {
            let runs = choose|runs: Seq<Seq<Seq<PortEvent>>>|
                #[trigger] state.refreshed(self.servo_state, 256, runs) && new_events(
                    log,
                    self.port.events(),
                ) == concat_runs(runs);
            assert(before.len() == 256);
            assert(old(self).state() == state);
            assert(old(self).port_events() == log);
            assert(self.port_events() == self.port.events());
            assert(old(self).buffer_bytes().len() == 256);
            assert(old(self).state().refreshed(self.state(), old(self).buffer_bytes().len(), runs));
        }
        Ok(())
    }

    /// The arm's servo state.
    pub fn servo_state(&self) -> (r: &ServoState<6>)
        ensures
            *r == self.state(),
    {
        &self.servo_state
    }

    /// Writes a goal position directly, bypassing the queue, and checks the
    /// reply's status. Acceleration is only sent after a speed.
    pub fn move_to_position(
        &mut self,
        servo_id: u8,
        position: u16,
        speed: Option<u16>,
        acc: Option<u16>,
    ) -> (r: Result<(), ServoError>)
        requires
            acc is Some ==> speed is Some,
        ensures
            acknowledged(
                position_packet(servo_id, position, speed, acc),
                old(self).buffer_bytes(),
                final(self).buffer_bytes(),
                old(self).port_events(),
                final(self).port_events(),
                r,
            ),
            final(self).state() == old(self).state(),
    {
        crate::register::move_to_position(
            &mut self.port,
            &mut self.buffer,
            servo_id,
            position,
            speed,
            acc,
        )
    }

    /// Pings a servo and checks the reply's status.
    pub fn ping_servo(&mut self, servo_id: u8) -> (r: Result<(), ServoError>)
        ensures
            acknowledged(
                Command::Ping(servo_id).packet(),
                old(self).buffer_bytes(),
                final(self).buffer_bytes(),
                old(self).port_events(),
                final(self).port_events(),
                r,
            ),
            final(self).state() == old(self).state(),
    {
        crate::register::ping_servo(&mut self.port, &mut self.buffer, servo_id)
    }

    /// Reads a servo's temperature register.
    pub fn read_temperature(&mut self, servo_id: u8) -> (r: Result<u8, ServoError>)
        ensures
            u8_register_read(
                servo_id,
                TEMPERATURE_REGISTER,
                old(self).buffer_bytes(),
                final(self).buffer_bytes(),
                old(self).port_events(),
                final(self).port_events(),
                r,
            ),
            final(self).state() == old(self).state(),
    {
        crate::register::read_temperature(&mut self.port, &mut self.buffer, servo_id)
    }

    /// Reads a servo's voltage register.
    pub fn read_voltage(&mut self, servo_id: u8) -> (r: Result<u8, ServoError>)
        ensures
            u8_register_read(
                servo_id,
                VOLTAGE_REGISTER,
                old(self).buffer_bytes(),
                final(self).buffer_bytes(),
                old(self).port_events(),
                final(self).port_events(),
                r,
            ),
            final(self).state() == old(self).state(),
    {
        crate::register::read_voltage(&mut self.port, &mut self.buffer, servo_id)
    }

    /// Reads a servo's current register.
    pub fn read_current(&mut self, servo_id: u8) -> (r: Result<u16, ServoError>)
        ensures
            u16_register_read(
                servo_id,
                CURRENT_REGISTER,
                old(self).buffer_bytes(),
                final(self).buffer_bytes(),
                old(self).port_events(),
                final(self).port_events(),
                r,
            ),
            final(self).state() == old(self).state(),
    {
        crate::register::read_current(&mut self.port, &mut self.buffer, servo_id)
    }

    /// Whether a servo reports that it is moving.
    pub fn is_moving(&mut self, servo_id: u8) -> (r: Result<bool, ServoError>)
        ensures
            flag_register_read(
                servo_id,
                MOVING_REGISTER,
                old(self).buffer_bytes(),
                final(self).buffer_bytes(),
                old(self).port_events(),
                final(self).port_events(),
                r,
            ),
            final(self).state() == old(self).state(),
    {
        crate::register::is_moving(&mut self.port, &mut self.buffer, servo_id)
    }

    /// Whether a servo's status register reports an error.
    pub fn has_error(&mut self, servo_id: u8) -> (r: Result<bool, ServoError>)
        ensures
            flag_register_read(
                servo_id,
                STATUS_REGISTER,
                old(self).buffer_bytes(),
                final(self).buffer_bytes(),
                old(self).port_events(),
                final(self).port_events(),
                r,
            ),
            final(self).state() == old(self).state(),
    {
        crate::register::has_error(&mut self.port, &mut self.buffer, servo_id)
    }

    /// Reads a servo's measured position over any port and buffer.
    pub fn read_position<P: ServoPort>(port: &mut Bus<P>, buffer: &mut [u8], servo_id: u8) -> (r:
        Result<u16, ServoError>)
        ensures
            u16_register_read(
                servo_id,
                POSITION_REGISTER,
                old(buffer)@,
                final(buffer)@,
                old(port).events(),
                final(port).events(),
                r,
            ),
    {
        crate::register::read_position(port, buffer, servo_id)
    }

    /// Reads a servo's speed register.
    pub fn read_speed(&mut self, servo_id: u8) -> (r: Result<u16, ServoError>)
        ensures
            u16_register_read(
                servo_id,
                SPEED_REGISTER,
                old(self).buffer_bytes(),
                final(self).buffer_bytes(),
                old(self).port_events(),
                final(self).port_events(),
                r,
            ),
            final(self).state() == old(self).state(),
    {
        crate::register::read_speed(&mut self.port, &mut self.buffer, servo_id)
    }

    /// Reads a servo's load register.
    pub fn read_load(&mut self, servo_id: u8) -> (r: Result<u16, ServoError>)
        ensures
            u16_register_read(
                servo_id,
                LOAD_REGISTER,
                old(self).buffer_bytes(),
                final(self).buffer_bytes(),
                old(self).port_events(),
                final(self).port_events(),
                r,
            ),
            final(self).state() == old(self).state(),
    {
        crate::register::read_load(&mut self.port, &mut self.buffer, servo_id)
    }
}

} // verus!
