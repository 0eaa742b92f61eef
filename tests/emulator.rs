use tpic6c596::{Emulator, Pin, Register};

fn write_bits(emulator: &mut Emulator, data: u64, bits: u8) {
    let mut data = data;
    emulator.set_pin(Pin::Latch, false);
    for _ in 0..bits {
        emulator.set_pin(Pin::Clock, false);
        emulator.set_pin(Pin::Data, data & 1 != 0);
        data >>= 1;
        emulator.set_pin(Pin::Clock, true);
    }
    emulator.set_pin(Pin::Latch, true);
    emulator.set_pin(Pin::Latch, false);
}

#[test]
fn register_write_commit() {
    let mut register = Register::new(0);
    let _ = register.shift(true);

    assert_eq!(register.state(), 0);
    register.commit();
    assert_eq!(register.state(), 0);
    register.set_on(true);
    assert_eq!(register.state(), 1);

    let _ = register.shift(true);
    assert_eq!(register.state(), 1);
    register.commit();
    assert_eq!(register.state(), 3);
}

#[test]
#[allow(clippy::bool_assert_comparison)]
fn register_overflow() {
    for on in [true, false] {
        let mut register = Register::new(0);
        register.set_on(on);

        assert_eq!(register.shift(true), false);
        assert_eq!(register.shift(false), false);
        assert_eq!(register.shift(true), false);
        assert_eq!(register.shift(true), false);
        assert_eq!(register.shift(true), false);
        assert_eq!(register.shift(true), false);
        assert_eq!(register.shift(true), false);
        assert_eq!(register.shift(true), false);

        assert_eq!(register.shift(true), true);
        assert_eq!(register.shift(true), false);
        assert_eq!(register.shift(true), true);
    }

    for on in [true, false] {
        let mut register = Register::new(0);
        register.set_on(on);

        assert_eq!(register.shift(true), false);
        register.commit();
        assert_eq!(register.shift(false), false);
        register.commit();
        assert_eq!(register.shift(true), false);
        register.commit();
        assert_eq!(register.shift(true), false);
        register.commit();
        assert_eq!(register.shift(true), false);
        register.commit();
        assert_eq!(register.shift(true), false);
        register.commit();
        assert_eq!(register.shift(true), false);
        register.commit();
        assert_eq!(register.shift(true), false);
        register.commit();

        assert_eq!(register.shift(true), true);
        register.commit();
        assert_eq!(register.shift(true), false);
        register.commit();
        assert_eq!(register.shift(true), true);
    }
}

#[test]
fn emulator() {
    let mut emulator = Emulator::new(3);
    write_bits(&mut emulator, 255, 8);

    assert_eq!(emulator.register(0).state(), 0);

    emulator.set_pin(Pin::Control, true);
    assert_eq!(emulator.register(0).state(), 255);
    assert_eq!(emulator.register(1).state(), 0);
    assert_eq!(emulator.register(2).state(), 0);

    write_bits(&mut emulator, 0, 8);
    assert_eq!(emulator.register(0).state(), 0);
    assert_eq!(emulator.register(1).state(), 255);
    assert_eq!(emulator.register(2).state(), 0);

    write_bits(&mut emulator, 0b0100_1100, 8);
    assert_eq!(emulator.register(0).state(), 0b0011_0010);
    assert_eq!(emulator.register(1).state(), 0);
    assert_eq!(emulator.register(2).state(), 255);
}

#[test]
fn new_emulator_is_low_and_off() {
    let emulator = Emulator::new(4);
    assert_eq!(emulator.registers().len(), 4);
    for pin in [Pin::Clock, Pin::Control, Pin::Data, Pin::Latch] {
        assert!(!emulator.get_pin(pin));
    }
    assert!(!emulator.is_on());
    for register in emulator.registers() {
        assert_eq!(register.state(), 0);
    }
}

#[test]
fn same_level_changes_nothing() {
    let mut emulator = Emulator::new(1);
    emulator.set_pin(Pin::Control, true);
    emulator.set_pin(Pin::Data, true);
    emulator.set_pin(Pin::Clock, true);
    emulator.set_pin(Pin::Latch, true);
    emulator.set_pin(Pin::Latch, false);
    assert_eq!(emulator.register(0).state(), 1);

    // The clock is already high: setting it high again shifts nothing.
    emulator.set_pin(Pin::Clock, true);
    // The latch is already low: setting it low again commits nothing.
    emulator.set_pin(Pin::Latch, false);
    emulator.set_pin(Pin::Control, true);
    assert_eq!(emulator.register(0).state(), 1);

    // A real latch pulse now commits the unchanged buffer.
    emulator.set_pin(Pin::Latch, true);
    emulator.set_pin(Pin::Latch, false);
    assert_eq!(emulator.register(0).state(), 1);
}

#[test]
fn control_gates_outputs_and_restores_them() {
    let mut emulator = Emulator::new(2);
    emulator.set_pin(Pin::Control, true);
    write_bits(&mut emulator, 0b1010_0101_1100_0011, 16);
    let before: Vec<u8> = emulator.registers().iter().map(|r| r.state()).collect();
    assert_eq!(before, vec![0b1010_0101, 0b1100_0011]);

    emulator.set_pin(Pin::Control, false);
    for register in emulator.registers() {
        assert_eq!(register.state(), 0);
    }
    assert!(!emulator.is_on());

    emulator.set_pin(Pin::Control, true);
    let after: Vec<u8> = emulator.registers().iter().map(|r| r.state()).collect();
    assert_eq!(after, before);
}

#[test]
fn clock_falling_edge_and_latch_rising_edge_do_nothing() {
    let mut emulator = Emulator::new(1);
    emulator.set_pin(Pin::Control, true);
    emulator.set_pin(Pin::Data, true);
    emulator.set_pin(Pin::Clock, true);
    emulator.set_pin(Pin::Clock, false);
    emulator.set_pin(Pin::Latch, true);
    // The rising latch edge does not commit.
    assert_eq!(emulator.register(0).state(), 0);
    emulator.set_pin(Pin::Latch, false);
    assert_eq!(emulator.register(0).state(), 1);
    assert!(emulator.get_pin(Pin::Data));
    assert!(!emulator.get_pin(Pin::Clock));
}
