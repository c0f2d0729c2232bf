//! The byte channel that carries packets to and from the servos, and the
//! record of every call the library makes on it.
use vstd::prelude::*;

verus! {

/// A blocking, half-duplex byte channel: a serial port, or anything that
/// behaves like one. Implementations report failure with `Err(())`.
pub trait ServoPort {
    /// Writes all of `bytes`.
    fn write_all(&mut self, bytes: &[u8]) -> Result<(), ()>;

    /// Reads what is available into the start of `buffer` and returns how
    /// many bytes were read. (A slice keeps its length: Rust's borrow of
    /// `buffer` cannot resize it.)
    fn read(&mut self, buffer: &mut [u8]) -> (r: Result<usize, ()>)
        ensures
            final(buffer)@.len() == old(buffer)@.len(),
    ;
}

/// One call made on a port.
pub enum PortEvent {
    /// `write_all` succeeded with these bytes.
    Sent(Seq<u8>),
    /// `write_all` failed.
    SendFailed,
    /// `read` returned `Ok(count)`; the buffer then held these bytes.
    Received(usize, Seq<u8>),
    /// `read` failed.
    ReceiveFailed,
}

/// The event left by a call of `write_all` with `bytes` that returned `r`.
pub open spec fn write_event(r: Result<(), ()>, bytes: Seq<u8>) -> PortEvent {
    match r {
        Ok(_) => PortEvent::Sent(bytes),
        Err(_) => PortEvent::SendFailed,
    }
}

/// The event left by a call of `read` that returned `r` and left `buffer`.
pub open spec fn read_event(r: Result<usize, ()>, buffer: Seq<u8>) -> PortEvent {
    match r {
        Ok(n) => PortEvent::Received(n, buffer),
        Err(_) => PortEvent::ReceiveFailed,
    }
}

/// A port, with the record of every call made on it through this value.
pub struct Bus<P: ServoPort> {
    port: P,
    events: Ghost<Seq<PortEvent>>,
}

impl<P: ServoPort> Bus<P> {
    /// The calls made on the port so far, oldest first.
    pub closed spec fn events(&self) -> Seq<PortEvent> {
        self.events@
    }

    /// Takes `port`, with nothing recorded yet.
    pub fn new(port: P) -> (b: Self)
        ensures
            b.events() == Seq::<PortEvent>::empty(),
    {
        Bus { port, events: Ghost(Seq::empty()) }
    }

    /// The port itself, for inspection.
    pub fn get_ref(&self) -> &P {
        &self.port
    }

    /// Gives the port back.
    pub fn into_inner(self) -> P {
        self.port
    }

    /// Writes all of `bytes` to the port.
    pub fn write_all(&mut self, bytes: &[u8]) -> (r: Result<(), ()>)
        ensures
            final(self).events() == old(self).events().push(write_event(r, bytes@)),
    {
        let r = self.port.write_all(bytes);
        self.events = Ghost(self.events@.push(write_event(r, bytes@)));
        r
    }

    /// Reads from the port into `buffer`.
    pub fn read(&mut self, buffer: &mut [u8]) -> (r: Result<usize, ()>)
        ensures
            final(buffer)@.len() == old(buffer)@.len(),
            final(self).events() == old(self).events().push(read_event(r, final(buffer)@)),
    {
        let r = self.port.read(buffer);
        self.events = Ghost(self.events@.push(read_event(r, buffer@)));
        r
    }
}

} // verus!
