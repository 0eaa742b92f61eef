//! The protocol driver of a TPIC6C596 chain.

use vstd::arithmetic::power2::{lemma2_to64, lemma2_to64_rest, lemma_pow2_strictly_increases, lemma_pow2_unfold, pow2};
use vstd::prelude::*;

use crate::connector::Connector;
use crate::pin::Pin;

verus! {

/// The model after one clock pulse that carries `bit`: clock low, data set,
/// clock high. The rising edge is what shifts the chain.
pub open spec fn pulse<C: Connector>(m: C::Model, bit: bool) -> C::Model {
    C::set_to(C::set_to(C::set_to(m, Pin::Clock, false), Pin::Data, bit), Pin::Clock, true)
}

/// The model after the low `len` bits of `data` are clocked in, least
/// significant bit first.
pub open spec fn clock_in<C: Connector>(m: C::Model, data: nat, len: nat) -> C::Model
    decreases len,
{
    if len == 0 {
        m
    } else {
        clock_in::<C>(pulse::<C>(m, data % 2 == 1), data / 2, (len - 1) as nat)
    }
}

/// The model after one latch pulse: latch high, then low.
pub open spec fn latch<C: Connector>(m: C::Model) -> C::Model {
    C::set_to(C::set_to(m, Pin::Latch, true), Pin::Latch, false)
}

/// The model after `len` bits of `data` are shifted in and latched.
pub open spec fn shifted<C: Connector>(m: C::Model, data: nat, len: nat) -> C::Model {
    latch::<C>(clock_in::<C>(m, data, len))
}

/// The value whose low `bits` bits are set: written to a chain of
/// `bits / 8` registers, it turns every output on.
pub fn all_ones(bits: usize) -> (r: u64)
    requires
        bits <= 64,
    ensures
        r as nat == pow2(bits as nat) - 1,
{
    proof {
        lemma2_to64();
        lemma2_to64_rest();
    }
    let mut r: u64 = 0;
    let mut i: usize = 0;
    while i < bits
        invariant
            i <= bits <= 64,
            r as nat == pow2(i as nat) - 1,
            pow2(64) == 0x1_0000_0000_0000_0000,
        decreases bits - i,
    {
        proof {
            lemma_pow2_unfold((i + 1) as nat);
            if i + 1 < 64 {
                lemma_pow2_strictly_increases((i + 1) as nat, 64);
            }
        }
        r = r * 2 + 1;
        i = i + 1;
    }
    r
}

/// Drives a chain of TPIC6C596 shift registers through a connector.
#[derive(Debug)]
pub struct Controller<C: Connector> {
    /// Connection to the chain's pins.
    connector: C,
    /// Number of registers in the chain.
    chain: usize,
    /// Number of bits that fill the chain.
    bits: usize,
    /// Last output-enable level that this controller knows of.
    on: bool,
}

impl<C: Connector> Controller<C> {
    /// The cached bit count is the one that fills the chain.
    pub closed spec fn wf(&self) -> bool {
        self.bits == self.chain * 8
    }

    /// The connector that this controller owns.
    pub closed spec fn link(&self) -> C {
        self.connector
    }

    /// The model of the owned connector.
    pub open spec fn model(&self) -> C::Model {
        self.link().model()
    }

    /// The number of registers in the chain.
    pub closed spec fn chain_len(&self) -> usize {
        self.chain
    }

    /// Whether this controller takes the outputs to be enabled.
    pub closed spec fn is_on(&self) -> bool {
        self.on
    }

    /// The connector that this controller owns.
    pub fn connector(&self) -> (r: &C)
        ensures
            *r == self.link(),
    {
        &self.connector
    }

    /// Takes over `connector` for a chain of `chain` registers: drives the
    /// latch low and adopts the control level that the connector reads.
    pub fn connect(connector: C, chain: usize) -> (r: Self)
        requires
            chain <= usize::MAX / 8,
        ensures
            r.model() == C::set_to(connector.model(), Pin::Latch, false),
            r.is_on() == C::reads(r.model(), Pin::Control),
            r.chain_len() == chain,
            r.wf(),
    {
        let mut connector = connector;
        connector.set(Pin::Latch, false);
        let on = connector.get(Pin::Control);
        Controller { connector, chain, bits: chain * 8, on }
    }

    /// The number of registers in the chain.
    pub fn register_chain(&self) -> (r: usize)
        ensures
            r == self.chain_len(),
    {
        self.chain
    }

    /// Enables the outputs, unless they are known to be enabled already.
    pub fn on(&mut self)
        ensures
            final(self).model() == if old(self).is_on() {
                old(self).model()
            } else {
                C::set_to(old(self).model(), Pin::Control, true)
            },
            final(self).is_on(),
            final(self).chain_len() == old(self).chain_len(),
            final(self).wf() == old(self).wf(),
    {
        if !self.on {
            self.connector.set(Pin::Control, true);
            self.on = true;
        }
    }

    /// Disables the outputs, unless they are known to be disabled already.
    pub fn off(&mut self)
        ensures
            final(self).model() == if old(self).is_on() {
                C::set_to(old(self).model(), Pin::Control, false)
            } else {
                old(self).model()
            },
            !final(self).is_on(),
            final(self).chain_len() == old(self).chain_len(),
            final(self).wf() == old(self).wf(),
    {
        if self.on {
            self.connector.set(Pin::Control, false);
            self.on = false;
        }
    }

    /// Shifts the low `len` bits of `data` into the chain, least significant
    /// bit first, then latches them.
    pub fn shift(&mut self, data: u64, len: usize)
        ensures
            final(self).model() == shifted::<C>(old(self).model(), data as nat, len as nat),
            final(self).is_on() == old(self).is_on(),
            final(self).chain_len() == old(self).chain_len(),
            final(self).wf() == old(self).wf(),
    {
        shift_bits(&mut self.connector, data, len);
    }

    /// Shifts a single high bit into the chain and latches it.
    pub fn shift_high(&mut self)
        ensures
            final(self).model() == shifted::<C>(old(self).model(), 1, 1),
            final(self).is_on() == old(self).is_on(),
            final(self).chain_len() == old(self).chain_len(),
            final(self).wf() == old(self).wf(),
    {
        shift_bits(&mut self.connector, 1, 1);
    }

    /// Shifts a single low bit into the chain and latches it.
    pub fn shift_low(&mut self)
        ensures
            final(self).model() == shifted::<C>(old(self).model(), 0, 1),
            final(self).is_on() == old(self).is_on(),
            final(self).chain_len() == old(self).chain_len(),
            final(self).wf() == old(self).wf(),
    {
        shift_bits(&mut self.connector, 0, 1);
    }

    /// Shifts exactly as many bits of `data` as the chain holds, so that
    /// every register is overwritten, then latches them.
    pub fn write(&mut self, data: u64)
        requires
            old(self).wf(),
        ensures
            final(self).model() == shifted::<C>(
                old(self).model(),
                data as nat,
                old(self).chain_len() as nat * 8,
            ),
            final(self).is_on() == old(self).is_on(),
            final(self).chain_len() == old(self).chain_len(),
            final(self).wf() == old(self).wf(),
    {
        shift_bits(&mut self.connector, data, self.bits);
    }

    /// Drives every bit of the chain low: the same as `write(0)`.
    pub fn reset(&mut self)
        requires
            old(self).wf(),
        ensures
            final(self).model() == shifted::<C>(old(self).model(), 0, old(self).chain_len() as nat * 8),
            final(self).is_on() == old(self).is_on(),
            final(self).chain_len() == old(self).chain_len(),
            final(self).wf() == old(self).wf(),
    {
        self.write(0);
    }
}

/// Clocks the low `len` bits of `data` into the chain, least significant bit
/// first, then pulses the latch.
fn shift_bits<C: Connector>(connector: &mut C, data: u64, len: usize)
    ensures
        final(connector).model() == shifted::<C>(old(connector).model(), data as nat, len as nat),
{
    let mut rest: u64 = data;
    let mut i: usize = 0;
    while i < len
        invariant
            i <= len,
            shifted::<C>(old(connector).model(), data as nat, len as nat) == shifted::<C>(
                connector.model(),
                rest as nat,
                (len - i) as nat,
            ),
        decreases len - i,
    {
        let bit = rest & 1 == 1;
        proof {
            assert((rest & 1 == 1) == (rest % 2 == 1)) by (bit_vector);
            assert(rest >> 1 == rest / 2) by (bit_vector);
        }
        connector.set(Pin::Clock, false);
        connector.set(Pin::Data, bit);
        connector.set(Pin::Clock, true);
        rest = rest >> 1;
        i = i + 1;
    }
    connector.set(Pin::Latch, true);
    connector.set(Pin::Latch, false);
}

} // verus!
