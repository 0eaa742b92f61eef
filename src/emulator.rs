//! A software stand-in for a TPIC6C596 chain.
//!
//! The emulator records the level of each line and acts only on transitions:
//! a rising clock edge shifts the chain by one bit, a falling latch edge
//! commits every register, and any change of the control line gates the
//! outputs. Setting a line to the level it already has does nothing.

use vstd::prelude::*;

use crate::connector::Connector;
use crate::controller::{clock_in, latch, pulse, shifted};
use crate::pin::{Pin, Pins};

verus! {

/// Whether bit `j` of `b` is set.
pub open spec fn bit(b: u8, j: u8) -> bool {
    (b >> j) & 1u8 == 1u8
}

/// `b` moved one place towards its most significant bit, with `bit` as the
/// new least significant bit.
pub open spec fn shl_in(b: u8, bit: bool) -> u8 {
    if bit {
        (b << 1u8) | 1u8
    } else {
        b << 1u8
    }
}

/// One 8-bit shift register: a shift buffer, the committed output value and
/// the output gate.
#[derive(Debug, Clone, Copy, PartialEq, Eq, Structural)]
pub struct Register {
    /// Bits shifted in since power-up.
    buffer: u8,
    /// Value made visible by the last commit.
    state: u8,
    /// Whether the outputs are enabled.
    on: bool,
}

impl Register {
    /// The shift buffer.
    pub closed spec fn buffer(self) -> u8 {
        self.buffer
    }

    /// The committed value.
    pub closed spec fn committed(self) -> u8 {
        self.state
    }

    /// Whether the outputs are enabled.
    pub closed spec fn enabled(self) -> bool {
        self.on
    }

    /// A register whose buffer and committed value are both `value`, with
    /// its outputs disabled.
    pub closed spec fn spec_new(value: u8) -> Register {
        Register { buffer: value, state: value, on: false }
    }

    /// The register after `bit` is shifted in.
    pub closed spec fn after_shift(self, bit: bool) -> Register {
        Register { buffer: shl_in(self.buffer, bit), ..self }
    }

    /// The register after its buffer is committed.
    pub closed spec fn after_commit(self) -> Register {
        Register { state: self.buffer, ..self }
    }

    /// The register with its output gate set to `on`.
    pub closed spec fn with_on(self, on: bool) -> Register {
        Register { on, ..self }
    }

    /// The bit that leaves the buffer on the next shift.
    pub open spec fn carry(self) -> bool {
        bit(self.buffer(), 7)
    }

    /// What the outputs show: the committed value when enabled, else zero.
    pub open spec fn output(self) -> u8 {
        if self.enabled() {
            self.committed()
        } else {
            0
        }
    }

    /// A register holding `value`, with its outputs disabled.
    pub fn new(value: u8) -> (r: Register)
        ensures
            r == Register::spec_new(value),
    {
        Register { buffer: value, state: value, on: false }
    }

    /// Shifts `bit` in at the least significant end and returns the bit that
    /// leaves at the most significant end.
    pub fn shift(&mut self, bit: bool) -> (out: bool)
        ensures
            *final(self) == old(self).after_shift(bit),
            out == old(self).carry(),
    {
        let b = self.buffer;
        let out = b & 0b1000_0000 != 0;
        proof {
            assert((b & 0x80u8 != 0u8) == ((b >> 7u8) & 1u8 == 1u8)) by (bit_vector);
            assert((b << 1u8) < 255u8) by (bit_vector);
            assert((b << 1u8) + 1u8 == ((b << 1u8) | 1u8)) by (bit_vector);
        }
        self.buffer = b << 1;
        if bit {
            self.buffer = self.buffer + 1;
        }
        out
    }

    /// Makes the buffer the committed value.
    pub fn commit(&mut self)
        ensures
            *final(self) == old(self).after_commit(),
    {
        self.state = self.buffer;
    }

    /// The value that the outputs show: zero while they are disabled.
    pub fn state(self) -> (r: u8)
        ensures
            r == self.output(),
    {
        if self.on {
            self.state
        } else {
            0
        }
    }

    /// Enables or disables the outputs.
    pub fn set_on(&mut self, on: bool)
        ensures
            *final(self) == old(self).with_on(on),
    {
        self.on = on;
    }
}

/// The recorded level of each line of an emulated chain.
#[derive(Debug, Clone, Copy)]
pub struct PinSet<T> {
    /// Clock line value.
    clock: T,
    /// Control line value.
    control: T,
    /// Data line value.
    data: T,
    /// Latch line value.
    latch: T,
}

impl<T> PinSet<T> {
    /// The recorded values.
    pub closed spec fn view(&self) -> Pins<T> {
        Pins { clock: self.clock, control: self.control, data: self.data, latch: self.latch }
    }

    /// The value recorded for `pin`.
    pub fn get(&self, pin: Pin) -> (r: &T)
        ensures
            *r == self.view().at(pin),
    {
        match pin {
            Pin::Clock => &self.clock,
            Pin::Control => &self.control,
            Pin::Data => &self.data,
            Pin::Latch => &self.latch,
        }
    }

    /// Records `value` for `pin`.
    pub fn set(&mut self, pin: Pin, value: T)
        ensures
            final(self).view() == old(self).view().with(pin, value),
    {
        match pin {
            Pin::Clock => self.clock = value,
            Pin::Control => self.control = value,
            Pin::Data => self.data = value,
            Pin::Latch => self.latch = value,
        }
    }
}

/// What an emulated chain holds: the level of each line and the registers in
/// chain order.
pub struct ChainState {
    /// Recorded line levels.
    pub pins: Pins<bool>,
    /// Registers, the first one fed by the data line.
    pub registers: Seq<Register>,
}

/// The chain after one shift: the first register takes `bit`, each other
/// register takes the bit that leaves the one before it.
pub open spec fn shift_chain(regs: Seq<Register>, bit: bool) -> Seq<Register> {
    Seq::new(
        regs.len(),
        |k: int|
            regs[k].after_shift(
                if k == 0 {
                    bit
                } else {
                    regs[k - 1].carry()
                },
            ),
    )
}

/// The chain after every register commits its buffer.
pub open spec fn commit_chain(regs: Seq<Register>) -> Seq<Register> {
    Seq::new(regs.len(), |k: int| regs[k].after_commit())
}

/// The chain with every output gate set to `on`.
pub open spec fn gate_chain(regs: Seq<Register>, on: bool) -> Seq<Register> {
    Seq::new(regs.len(), |k: int| regs[k].with_on(on))
}

/// The chain after `pin` is driven to `level`.
///
/// Only a transition acts. A falling latch edge commits every register, a
/// rising clock edge shifts the chain with the data level, and any control
/// transition gates every output. Other transitions are only recorded.
pub open spec fn edge(m: ChainState, pin: Pin, level: bool) -> ChainState {
    if m.pins.at(pin) == level {
        m
    } else {
        ChainState {
            pins: m.pins.with(pin, level),
            registers: match pin {
                Pin::Latch => if level {
                    m.registers
                } else {
                    commit_chain(m.registers)
                },
                Pin::Clock => if level {
                    shift_chain(m.registers, m.pins.data)
                } else {
                    m.registers
                },
                Pin::Control => gate_chain(m.registers, level),
                Pin::Data => m.registers,
            },
        }
    }
}

/// An emulated chain of TPIC6C596 shift registers.
#[derive(Debug)]
pub struct Emulator {
    /// Recorded line levels.
    pins: PinSet<bool>,
    /// Registers in chain order.
    registers: Vec<Register>,
}

impl Emulator {
    /// A chain of `chain` registers, all zero with their outputs disabled,
    /// and every line low.
    pub fn new(chain: usize) -> (r: Emulator)
        ensures
            r.model().pins == (Pins { clock: false, control: false, data: false, latch: false }),
            r.model().registers == Seq::new(chain as nat, |k: int| Register::spec_new(0)),
    {
        let mut registers: Vec<Register> = Vec::new();
        let mut i: usize = 0;
        while i < chain
            invariant
                i <= chain,
                registers@ == Seq::new(i as nat, |k: int| Register::spec_new(0)),
            decreases chain - i,
        {
            registers.push(Register::new(0));
            i = i + 1;
            assert(registers@ =~= Seq::new(i as nat, |k: int| Register::spec_new(0)));
        }
        Emulator {
            pins: PinSet { clock: false, control: false, data: false, latch: false },
            registers,
        }
    }

    /// Drives `pin` to `state`; only a transition has an effect (see [`edge`]).
    pub fn set_pin(&mut self, pin: Pin, state: bool)
        ensures
            final(self).model() == edge(old(self).model(), pin, state),
    {
        if *self.pins.get(pin) != state {
            self.pins.set(pin, state);
            match (pin, state) {
                (Pin::Latch, false) => commit_all(&mut self.registers),
                (Pin::Clock, true) => {
                    let data = *self.pins.get(Pin::Data);
                    shift_all(&mut self.registers, data);
                },
                (Pin::Control, on) => gate_all(&mut self.registers, on),
                (_, _) => {},
            }
        }
    }

    /// The recorded level of `pin`.
    pub fn get_pin(&self, pin: Pin) -> (r: bool)
        ensures
            r == self.model().pins.at(pin),
    {
        *self.pins.get(pin)
    }

    /// Whether the control line is high.
    pub fn is_on(&self) -> (r: bool)
        ensures
            r == self.model().pins.control,
    {
        *self.pins.get(Pin::Control)
    }

    /// The register at `index` in chain order.
    pub fn register(&self, index: usize) -> (r: Register)
        requires
            index < self.model().registers.len(),
        ensures
            r == self.model().registers[index as int],
    {
        self.registers[index]
    }

    /// All registers in chain order.
    pub fn registers(&self) -> (r: &[Register])
        ensures
            r@ == self.model().registers,
    {
        self.registers.as_slice()
    }
}

impl Connector for Emulator {
    type Model = ChainState;

    closed spec fn model(&self) -> ChainState {
        ChainState { pins: self.pins.view(), registers: self.registers@ }
    }

    open spec fn reads(m: ChainState, pin: Pin) -> bool {
        m.pins.at(pin)
    }

    open spec fn set_to(m: ChainState, pin: Pin, level: bool) -> ChainState {
        edge(m, pin, level)
    }

    fn set(&mut self, pin: Pin, level: bool) {
        self.set_pin(pin, level);
    }

    fn get(&self, pin: Pin) -> (r: bool) {
        self.get_pin(pin)
    }
}

/// Bit `i` of `x`.
pub open spec fn nat_bit(x: nat, i: nat) -> bool
    decreases i,
{
    if i == 0 {
        x % 2 == 1
    } else {
        nat_bit(x / 2, (i - 1) as nat)
    }
}

/// Bit `p` of the buffers of a whole chain, counted from the least
/// significant bit of the first register.
pub open spec fn chain_bit(regs: Seq<Register>, p: int) -> bool {
    bit(regs[p / 8].buffer(), (p % 8) as u8)
}

/// Every register's output gate agrees with the recorded control level.
pub open spec fn gates_follow_control(m: ChainState) -> bool {
    forall|k: int| 0 <= k < m.registers.len() ==> #[trigger] m.registers[k].enabled() == m.pins.control
}

proof fn lemma_shl_in_bit(b: u8, x: bool, j: u8)
    requires
        j < 8,
    ensures
        bit(shl_in(b, x), j) == if j == 0 {
            x
        } else {
            bit(b, (j - 1) as u8)
        },
{
    if j == 0 {
        if x {
            assert((((b << 1u8) | 1u8) >> 0u8) & 1u8 == 1u8) by (bit_vector);
        } else {
            assert(((b << 1u8) >> 0u8) & 1u8 != 1u8) by (bit_vector);
        }
    } else {
        let i = (j - 1) as u8;
        if x {
            assert(((((b << 1u8) | 1u8) >> j) & 1u8 == 1u8) == ((b >> i) & 1u8 == 1u8))
                by (bit_vector)
                requires
                    j < 8u8,
                    j > 0u8,
                    i == j - 1u8,
            ;
        } else {
            assert((((b << 1u8) >> j) & 1u8 == 1u8) == ((b >> i) & 1u8 == 1u8))
                by (bit_vector)
                requires
                    j < 8u8,
                    j > 0u8,
                    i == j - 1u8,
            ;
        }
    }
}

proof fn lemma_byte_from_bits(b: u8)
    requires
        !bit(b, 0),
        !bit(b, 1),
        !bit(b, 2),
        !bit(b, 3),
        !bit(b, 4),
        !bit(b, 5),
        !bit(b, 6),
        !bit(b, 7),
    ensures
        b == 0,
{
    assert(b == 0u8) by (bit_vector)
        requires
            (b >> 0u8) & 1u8 != 1u8,
            (b >> 1u8) & 1u8 != 1u8,
            (b >> 2u8) & 1u8 != 1u8,
            (b >> 3u8) & 1u8 != 1u8,
            (b >> 4u8) & 1u8 != 1u8,
            (b >> 5u8) & 1u8 != 1u8,
            (b >> 6u8) & 1u8 != 1u8,
            (b >> 7u8) & 1u8 != 1u8,
    ;
}

proof fn lemma_nat_bit_zero(i: nat)
    ensures
        !nat_bit(0, i),
    decreases i,
{
    if i > 0 {
        lemma_nat_bit_zero((i - 1) as nat);
    }
}

proof fn lemma_pulse(m: ChainState, d: bool)
    ensures
        pulse::<Emulator>(m, d).registers == shift_chain(m.registers, d),
        pulse::<Emulator>(m, d).pins == (Pins { clock: true, data: d, ..m.pins }),
{
}

proof fn lemma_latch(m: ChainState)
    ensures
        latch::<Emulator>(m).registers == commit_chain(m.registers),
        latch::<Emulator>(m).pins == (Pins { latch: false, ..m.pins }),
{
}

proof fn lemma_shift_chain_bit(regs: Seq<Register>, d: bool, p: int)
    requires
        0 <= p < regs.len() * 8,
    ensures
        chain_bit(shift_chain(regs, d), p) == if p == 0 {
            d
        } else {
            chain_bit(regs, p - 1)
        },
{
    let k = p / 8;
    let j = p % 8;
    let carry_in = if k == 0 {
        d
    } else {
        regs[k - 1].carry()
    };
    lemma_shl_in_bit(regs[k].buffer(), carry_in, j as u8);
    if j == 0 && k > 0 {
        assert((p - 1) / 8 == k - 1);
        assert((p - 1) % 8 == 7);
    }
    if j > 0 {
        assert((p - 1) / 8 == k);
        assert((p - 1) % 8 == j - 1);
    }
}

proof fn lemma_clock_in(m: ChainState, x: nat, len: nat)
    ensures
        clock_in::<Emulator>(m, x, len).registers.len() == m.registers.len(),
        forall|k: int|
            0 <= k < m.registers.len() ==> {
                &&& (#[trigger] clock_in::<Emulator>(m, x, len).registers[k]).committed()
                    == m.registers[k].committed()
                &&& clock_in::<Emulator>(m, x, len).registers[k].enabled()
                    == m.registers[k].enabled()
            },
        forall|p: int|
            0 <= p < m.registers.len() * 8 ==> #[trigger] chain_bit(
                clock_in::<Emulator>(m, x, len).registers,
                p,
            ) == if p < len {
                nat_bit(x, (len - 1 - p) as nat)
            } else {
                chain_bit(m.registers, p - len)
            },
    decreases len,
{
    if len > 0 {
        let d = x % 2 == 1;
        let m1 = pulse::<Emulator>(m, d);
        let res = clock_in::<Emulator>(m, x, len);
        lemma_pulse(m, d);
        lemma_clock_in(m1, x / 2, (len - 1) as nat);
        assert(res == clock_in::<Emulator>(m1, x / 2, (len - 1) as nat));
        assert forall|p: int| 0 <= p < m.registers.len() * 8 implies #[trigger] chain_bit(
            res.registers,
            p,
        ) == if p < len {
            nat_bit(x, (len - 1 - p) as nat)
        } else {
            chain_bit(m.registers, p - len)
        } by {
            if p < len - 1 {
                assert(nat_bit(x, (len - 1 - p) as nat) == nat_bit(x / 2, (len - 2 - p) as nat));
            } else {
                lemma_shift_chain_bit(m.registers, d, p - (len - 1));
            }
        }
    }
}

/// Writing a full chain's worth of bits leaves bit `j` of register `k`'s
/// committed value equal to bit `8 * n - 1 - (8 * k + j)` of the data, for a
/// chain of `n` registers: the most significant byte lands, bit-reversed, in
/// the first register, and the least significant one in the last. Output
/// gates are untouched.
pub proof fn lemma_write_fills_chain(m: ChainState, x: u64)
    ensures
        ({
            let n = m.registers.len();
            let r = shifted::<Emulator>(m, x as nat, n * 8).registers;
            &&& r.len() == n
            &&& forall|k: int, j: u8|
                0 <= k < n && j < 8 ==> #[trigger] bit(r[k].committed(), j) == nat_bit(
                    x as nat,
                    (8 * n - 1 - (8 * k + j)) as nat,
                )
            &&& forall|k: int| 0 <= k < n ==> #[trigger] r[k].enabled() == m.registers[k].enabled()
        }),
{
    let n = m.registers.len();
    let c = clock_in::<Emulator>(m, x as nat, n * 8);
    lemma_clock_in(m, x as nat, n * 8);
    lemma_latch(c);
    let r = shifted::<Emulator>(m, x as nat, n * 8).registers;
    assert forall|k: int, j: u8| 0 <= k < n && j < 8 implies #[trigger] bit(r[k].committed(), j)
        == nat_bit(x as nat, (8 * n - 1 - (8 * k + j)) as nat) by {
        let p = 8 * k + j;
        assert(p / 8 == k);
        assert(p % 8 == j);
        assert(chain_bit(c.registers, p) == nat_bit(x as nat, (n * 8 - 1 - p) as nat));
    }
    assert forall|k: int| 0 <= k < n implies #[trigger] r[k].enabled()
        == m.registers[k].enabled() by {
        assert(c.registers[k].enabled() == m.registers[k].enabled());
    }
}

/// After a reset, every register's committed value is zero, so every
/// output shows zero whatever the chain held before.
pub proof fn lemma_reset_clears_chain(m: ChainState)
    ensures
        ({
            let r = shifted::<Emulator>(m, 0, m.registers.len() * 8).registers;
            &&& r.len() == m.registers.len()
            &&& forall|k: int|
                0 <= k < r.len() ==> #[trigger] r[k].committed() == 0 && r[k].output() == 0
        }),
{
    let n = m.registers.len();
    let r = shifted::<Emulator>(m, 0, n * 8).registers;
    lemma_write_fills_chain(m, 0);
    assert forall|k: int| 0 <= k < r.len() implies #[trigger] r[k].committed() == 0
        && r[k].output() == 0 by {
        assert forall|j: u8| j < 8 implies !bit(r[k].committed(), j) by {
            lemma_nat_bit_zero((8 * n - 1 - (8 * k + j)) as nat);
        }
        lemma_byte_from_bits(r[k].committed());
    }
}

/// Driving the control line low makes every output show zero; driving it
/// high again shows each register's committed value, which neither step
/// changes.
pub proof fn lemma_control_gates_outputs(m: ChainState)
    requires
        gates_follow_control(m),
    ensures
        ({
            let off = edge(m, Pin::Control, false);
            let on = edge(off, Pin::Control, true);
            &&& off.registers.len() == m.registers.len()
            &&& on.registers.len() == m.registers.len()
            &&& forall|k: int|
                0 <= k < m.registers.len() ==> {
                    &&& (#[trigger] off.registers[k]).output() == 0
                    &&& off.registers[k].committed() == m.registers[k].committed()
                    &&& on.registers[k].output() == m.registers[k].committed()
                    &&& on.registers[k].committed() == m.registers[k].committed()
                }
        }),
{
}

/// A fresh emulator's gates agree with its control line, and every edge
/// keeps them in agreement.
pub proof fn lemma_gates_follow_control(m: ChainState, pin: Pin, level: bool)
    ensures
        gates_follow_control(m) ==> gates_follow_control(edge(m, pin, level)),
        gates_follow_control(
            ChainState {
                pins: Pins { clock: false, control: false, data: false, latch: false },
                registers: Seq::new(m.registers.len(), |k: int| Register::spec_new(0)),
            },
        ),
{
    if gates_follow_control(m) {
        let e = edge(m, pin, level);
        assert forall|k: int| 0 <= k < e.registers.len() implies #[trigger] e.registers[k].enabled()
            == e.pins.control by {
            assert(m.registers[k].enabled() == m.pins.control);
            if pin == Pin::Clock && level && m.pins.at(pin) != level {
                assert(e.registers[k] == m.registers[k].after_shift(
                    if k == 0 {
                        m.pins.data
                    } else {
                        m.registers[k - 1].carry()
                    },
                ));
            }
        }
    }
}

/// Every edge keeps the number of registers, and only a falling latch edge
/// changes a committed value.
pub proof fn lemma_edge_keeps_chain(m: ChainState, pin: Pin, level: bool)
    ensures
        edge(m, pin, level).registers.len() == m.registers.len(),
        !(pin == Pin::Latch && !level && m.pins.latch) ==> forall|k: int|
            0 <= k < m.registers.len() ==> (#[trigger] edge(m, pin, level).registers[k]).committed()
                == m.registers[k].committed(),
{
}

/// Driving a line to the level it already has changes nothing: no shift, no
/// commit, no change of the gates.
pub proof fn lemma_same_level_is_noop(m: ChainState, pin: Pin)
    ensures
        edge(m, pin, m.pins.at(pin)) == m,
{
}

/// Two single-bit shifts, `a` then `b`, leave the chain exactly as one
/// two-bit shift of `a + 2 * b` does, least significant bit first.
pub proof fn lemma_single_shifts_compose(m: ChainState, a: bool, b: bool)
    ensures
        shifted::<Emulator>(shifted::<Emulator>(m, a as nat, 1), b as nat, 1) == shifted::<
            Emulator,
        >(m, (a as nat) + 2 * (b as nat), 2),
{
    let x = (a as nat) + 2 * (b as nat);
    let m1 = pulse::<Emulator>(m, a);
    let l1 = latch::<Emulator>(m1);
    let m2 = pulse::<Emulator>(l1, b);
    let lhs = latch::<Emulator>(m2);
    let m2r = pulse::<Emulator>(m1, b);
    let rhs = latch::<Emulator>(m2r);
    assert(x % 2 == 1 <==> a);
    assert((x / 2) % 2 == 1 <==> b);
    assert((a as nat) % 2 == 1 <==> a);
    assert((b as nat) % 2 == 1 <==> b);
    assert(clock_in::<Emulator>(m1, (a as nat) / 2, 0) == m1);
    assert(clock_in::<Emulator>(m, a as nat, 1) == m1);
    assert(clock_in::<Emulator>(m2, (b as nat) / 2, 0) == m2);
    assert(clock_in::<Emulator>(l1, b as nat, 1) == m2);
    assert(clock_in::<Emulator>(m2r, x / 4, 0) == m2r);
    assert(clock_in::<Emulator>(m1, x / 2, 1) == m2r);
    assert(clock_in::<Emulator>(m, x, 2) == m2r);
    lemma_pulse(m, a);
    lemma_latch(m1);
    lemma_pulse(l1, b);
    lemma_latch(m2);
    lemma_pulse(m1, b);
    lemma_latch(m2r);
    assert(lhs.pins == rhs.pins);
    assert(lhs.registers =~= rhs.registers);
}

/// Commits every register.
fn commit_all(regs: &mut Vec<Register>)
    ensures
        final(regs)@ == commit_chain(old(regs)@),
{
    let mut i: usize = 0;
    while i < regs.len()
        invariant
            i <= regs.len(),
            regs@.len() == old(regs)@.len(),
            forall|k: int| 0 <= k < i ==> regs@[k] == old(regs)@[k].after_commit(),
            forall|k: int| i <= k < regs@.len() ==> regs@[k] == old(regs)@[k],
        decreases regs.len() - i,
    {
        regs[i].commit();
        i = i + 1;
    }
    assert(regs@ =~= commit_chain(old(regs)@));
}

/// Sets every output gate to `on`.
fn gate_all(regs: &mut Vec<Register>, on: bool)
    ensures
        final(regs)@ == gate_chain(old(regs)@, on),
{
    let mut i: usize = 0;
    while i < regs.len()
        invariant
            i <= regs.len(),
            regs@.len() == old(regs)@.len(),
            forall|k: int| 0 <= k < i ==> regs@[k] == old(regs)@[k].with_on(on),
            forall|k: int| i <= k < regs@.len() ==> regs@[k] == old(regs)@[k],
        decreases regs.len() - i,
    {
        regs[i].set_on(on);
        i = i + 1;
    }
    assert(regs@ =~= gate_chain(old(regs)@, on));
}

/// Shifts `bit` into the first register and passes each register's carry on
/// to the next one.
fn shift_all(regs: &mut Vec<Register>, bit: bool)
    ensures
        final(regs)@ == shift_chain(old(regs)@, bit),
{
    let mut carry = bit;
    let mut i: usize = 0;
    while i < regs.len()
        invariant
            i <= regs.len(),
            regs@.len() == old(regs)@.len(),
            carry == if i == 0 {
                bit
            } else {
                old(regs)@[i - 1].carry()
            },
            forall|k: int| 0 <= k < i ==> regs@[k] == shift_chain(old(regs)@, bit)[k],
            forall|k: int| i <= k < regs@.len() ==> regs@[k] == old(regs)@[k],
        decreases regs.len() - i,
    {
        carry = regs[i].shift(carry);
        i = i + 1;
    }
    assert(regs@ =~= shift_chain(old(regs)@, bit));
}

} // verus!
