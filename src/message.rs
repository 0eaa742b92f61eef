//! One-byte pin messages for driving an emulator in another process.
//!
//! The low nibble names the pin (1 data, 2 control, 3 clock, 4 latch) and
//! the high bit carries the level. A byte with any other low nibble names
//! no pin and is ignored.

use vstd::prelude::*;

use crate::connector::Connector;
use crate::pin::{Pin, Pins};

verus! {

/// A request to drive `pin` to `state`.
#[derive(Debug, Clone, Copy, PartialEq, Eq, Structural)]
pub struct Message {
    /// The pin to drive.
    pub pin: Pin,
    /// The level to drive it to.
    pub state: bool,
}

/// The low-nibble code of `pin`.
pub open spec fn pin_code(pin: Pin) -> u8 {
    match pin {
        Pin::Data => 1,
        Pin::Control => 2,
        Pin::Clock => 3,
        Pin::Latch => 4,
    }
}

/// The byte that carries `pin` and `state`.
pub open spec fn encoded(pin: Pin, state: bool) -> u8 {
    (pin_code(pin) + if state {
        128u8
    } else {
        0u8
    }) as u8
}

/// The message that `byte` carries, if its low nibble names a pin.
pub open spec fn decoded(byte: u8) -> Option<Message> {
    let state = byte >= 128;
    match byte % 16 {
        1 => Some(Message { pin: Pin::Data, state }),
        2 => Some(Message { pin: Pin::Control, state }),
        3 => Some(Message { pin: Pin::Clock, state }),
        4 => Some(Message { pin: Pin::Latch, state }),
        _ => None,
    }
}

/// Encodes a request to drive `pin` to `state` as one byte.
pub fn encode(pin: Pin, state: bool) -> (r: u8)
    ensures
        r == encoded(pin, state),
{
    let level: u8 = if state {
        0b1000_0000
    } else {
        0
    };
    let code: u8 = match pin {
        Pin::Data => 1,
        Pin::Control => 2,
        Pin::Clock => 3,
        Pin::Latch => 4,
    };
    proof {
        assert(code < 16u8 ==> (level == 0u8 || level == 128u8) ==> (level | code) == level + code)
            by (bit_vector);
    }
    level | code
}

/// Decodes one byte into the request it carries, or `None` when its low
/// nibble names no pin.
pub fn decode(byte: u8) -> (r: Option<Message>)
    ensures
        r == decoded(byte),
{
    proof {
        assert(byte & 0x0fu8 == byte % 16) by (bit_vector);
        assert((byte & 0x80u8 != 0u8) == (byte >= 128u8)) by (bit_vector);
    }
    let state = (byte & 0b1000_0000) != 0;
    match byte & 0b0000_1111 {
        1 => Some(Message { pin: Pin::Data, state }),
        2 => Some(Message { pin: Pin::Control, state }),
        3 => Some(Message { pin: Pin::Clock, state }),
        4 => Some(Message { pin: Pin::Latch, state }),
        _ => None,
    }
}

/// Decoding the byte that encodes a request gives that request back.
pub proof fn lemma_message_round_trip(pin: Pin, state: bool)
    ensures
        decoded(encoded(pin, state)) == Some(Message { pin, state }),
{
}

/// The pin levels that a remote emulator was last told of.
///
/// A connector that forwards pin changes to another process keeps one of
/// these: it answers reads from the recorded levels, and each change yields
/// the byte to send.
#[derive(Debug, Clone, Copy)]
pub struct Relay {
    /// Last level sent for each pin.
    levels: Pins<bool>,
}

impl Relay {
    /// The recorded levels.
    pub closed spec fn levels(&self) -> Pins<bool> {
        self.levels
    }

    /// A relay that takes every pin to be low.
    pub fn new() -> (r: Relay)
        ensures
            r.levels() == (Pins { clock: false, control: false, data: false, latch: false }),
    {
        Relay { levels: Pins { clock: false, control: false, data: false, latch: false } }
    }

    /// The recorded level of `pin`.
    pub fn get(&self, pin: Pin) -> (r: bool)
        ensures
            r == self.levels().at(pin),
    {
        self.levels.get(pin)
    }

    /// Records `state` for `pin` and returns the byte that tells the remote
    /// emulator so.
    pub fn set(&mut self, pin: Pin, state: bool) -> (byte: u8)
        ensures
            final(self).levels() == old(self).levels().with(pin, state),
            byte == encoded(pin, state),
    {
        self.levels.set(pin, state);
        encode(pin, state)
    }
}

/// Carries bytes to a remote emulator, for instance over a datagram socket.
pub trait ByteSink {
    /// Sends one byte; a byte that cannot be delivered is lost.
    fn send(&mut self, byte: u8);
}

/// A connector for an emulator in another process: it records each level it
/// drives and sends the byte that encodes the change through `S`.
#[derive(Debug)]
pub struct RemoteConnector<S: ByteSink> {
    /// Where the encoded changes go.
    sink: S,
    /// Levels driven so far.
    relay: Relay,
}

impl<S: ByteSink> RemoteConnector<S> {
    /// A connector that sends through `sink` and takes every pin to be low.
    pub fn new(sink: S) -> (r: RemoteConnector<S>)
        ensures
            r.model() == (Pins { clock: false, control: false, data: false, latch: false }),
    {
        RemoteConnector { sink, relay: Relay::new() }
    }

    /// The sink that the bytes go to.
    pub closed spec fn spec_sink(&self) -> S {
        self.sink
    }

    /// The sink that the bytes go to.
    pub fn sink(&self) -> (r: &S)
        ensures
            *r == self.spec_sink(),
    {
        &self.sink
    }
}

impl<S: ByteSink> Connector for RemoteConnector<S> {
    type Model = Pins<bool>;

    closed spec fn model(&self) -> Pins<bool> {
        self.relay.levels()
    }

    open spec fn reads(m: Pins<bool>, pin: Pin) -> bool {
        m.at(pin)
    }

    open spec fn set_to(m: Pins<bool>, pin: Pin, level: bool) -> Pins<bool> {
        m.with(pin, level)
    }

    fn set(&mut self, pin: Pin, level: bool) {
        let byte = self.relay.set(pin, level);
        self.sink.send(byte);
    }

    fn get(&self, pin: Pin) -> (r: bool) {
        self.relay.get(pin)
    }
}

} // verus!
