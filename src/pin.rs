//! The four logical lines of a shift-register chain.

use vstd::prelude::*;

verus! {

/// One of the logical lines that drive a TPIC6C596 chain.
#[derive(Debug, Clone, Copy, PartialEq, Eq, Structural)]
pub enum Pin {
    /// Shift clock: a rising edge moves the chain by one bit.
    Clock,
    /// Output control: high enables the register outputs.
    Control,
    /// Serial data input of the first register.
    Data,
    /// Latch: a falling edge makes the shifted bits visible.
    Latch,
}

/// One value for each of the four lines.
#[derive(Debug, Clone, Copy, PartialEq, Eq)]
pub struct Pins<T> {
    /// Clock line value.
    pub clock: T,
    /// Control line value.
    pub control: T,
    /// Data line value.
    pub data: T,
    /// Latch line value.
    pub latch: T,
}

impl<T> Pins<T> {
    /// The value held for `pin`.
    pub open spec fn at(self, pin: Pin) -> T {
        match pin {
            Pin::Clock => self.clock,
            Pin::Control => self.control,
            Pin::Data => self.data,
            Pin::Latch => self.latch,
        }
    }

    /// The same values, with the one for `pin` replaced by `value`.
    pub open spec fn with(self, pin: Pin, value: T) -> Pins<T> {
        match pin {
            Pin::Clock => Pins { clock: value, ..self },
            Pin::Control => Pins { control: value, ..self },
            Pin::Data => Pins { data: value, ..self },
            Pin::Latch => Pins { latch: value, ..self },
        }
    }

    /// A reference to the value held for `pin`.
    pub fn get_ref(&self, pin: Pin) -> (r: &T)
        ensures
            *r == self.at(pin),
    {
        match pin {
            Pin::Clock => &self.clock,
            Pin::Control => &self.control,
            Pin::Data => &self.data,
            Pin::Latch => &self.latch,
        }
    }

    /// A mutable reference to the value held for `pin`.
    pub fn get_mut(&mut self, pin: Pin) -> (r: &mut T)
        ensures
            *r == old(self).at(pin),
            *final(self) == old(self).with(pin, *final(r)),
    {
        match pin {
            Pin::Clock => &mut self.clock,
            Pin::Control => &mut self.control,
            Pin::Data => &mut self.data,
            Pin::Latch => &mut self.latch,
        }
    }

    /// Replaces the value held for `pin`.
    pub fn set(&mut self, pin: Pin, value: T)
        ensures
            *final(self) == old(self).with(pin, value),
    {
        match pin {
            Pin::Clock => self.clock = value,
            Pin::Control => self.control = value,
            Pin::Data => self.data = value,
            Pin::Latch => self.latch = value,
        }
    }
}

impl<T: Copy> Pins<T> {
    /// The value held for `pin`.
    pub fn get(&self, pin: Pin) -> (r: T)
        ensures
            r == self.at(pin),
    {
        match pin {
            Pin::Clock => self.clock,
            Pin::Control => self.control,
            Pin::Data => self.data,
            Pin::Latch => self.latch,
        }
    }
}

} // verus!
