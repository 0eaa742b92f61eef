use tpic6c596::{Connector, Controller, Emulator, Pin};

fn emulator_controller() -> Controller<Emulator> {
    let chain: usize = 3;
    let emulator = Emulator::new(chain);
    let mut controller = Controller::connect(emulator, chain);
    controller.on();

    controller
}

fn states(controller: &Controller<Emulator>) -> Vec<u8> {
    controller.connector().registers().iter().map(|r| r.state()).collect()
}

#[test]
fn shift() {
    let mut controller = emulator_controller();
    controller.off();

    controller.shift(255, 8);
    assert_eq!(controller.connector().register(0).state(), 0);

    controller.on();
    assert_eq!(controller.connector().register(0).state(), 255);
    assert_eq!(controller.connector().register(1).state(), 0);
    assert_eq!(controller.connector().register(2).state(), 0);

    controller.shift(0, 8);
    assert_eq!(controller.connector().register(0).state(), 0);
    assert_eq!(controller.connector().register(1).state(), 255);
    assert_eq!(controller.connector().register(2).state(), 0);

    controller.shift(0b0100_1100, 8);
    assert_eq!(controller.connector().register(0).state(), 0b0011_0010);
    assert_eq!(controller.connector().register(1).state(), 0);
    assert_eq!(controller.connector().register(2).state(), 255);
}

#[test]
fn shift_high_and_low() {
    let mut controller = emulator_controller();

    assert_eq!(controller.connector().register(0).state(), 0b0000_0000);

    controller.shift_low();
    assert_eq!(controller.connector().register(0).state(), 0b0000_0000);

    controller.shift_high();
    assert_eq!(controller.connector().register(0).state(), 0b0000_0001);

    controller.shift_low();
    assert_eq!(controller.connector().register(0).state(), 0b0000_0010);

    controller.shift_high();
    assert_eq!(controller.connector().register(0).state(), 0b0000_0101);

    for _ in 0..4 {
        controller.shift_high();
    }
    assert_eq!(controller.connector().register(0).state(), 0b0101_1111);

    for _ in 0..4 {
        controller.shift_low();
    }
    assert_eq!(controller.connector().register(0).state(), 0b1111_0000);
    assert_eq!(controller.connector().register(1).state(), 0b0000_0101);
}

#[test]
fn reset() {
    let mut controller = emulator_controller();
    controller.write(0b0000_1111_1010_0000_0000_0101);

    assert_eq!(controller.connector().register(0).state(), 0b1111_0000);
    assert_eq!(controller.connector().register(1).state(), 0b0000_0101);
    assert_eq!(controller.connector().register(2).state(), 0b1010_0000);

    controller.reset();
    assert_eq!(controller.connector().register(0).state(), 0);
    assert_eq!(controller.connector().register(1).state(), 0);
    assert_eq!(controller.connector().register(2).state(), 0);
}

#[test]
fn write_fills_every_register_most_significant_byte_first() {
    let mut controller = emulator_controller();
    // Bytes 0x01, 0x02, 0x80 from most to least significant: each lands
    // bit-reversed, the most significant one in the first register.
    controller.write(0x01_02_80);
    assert_eq!(states(&controller), vec![0x80, 0x40, 0x01]);
}

#[test]
fn write_low_byte_of_a_three_register_chain_lands_in_the_last_register() {
    let mut controller = emulator_controller();
    controller.write(0xFF);
    assert_eq!(states(&controller), vec![0, 0, 0xFF]);

    controller.write(0x00);
    controller.write(0x4C);
    assert_eq!(states(&controller), vec![0, 0, 0x32]);
}

#[test]
fn write_overwrites_the_whole_chain() {
    let mut controller = emulator_controller();
    controller.write(0xFF_FF_FF);
    assert_eq!(states(&controller), vec![0xFF, 0xFF, 0xFF]);
    controller.write(0x00_00_01);
    assert_eq!(states(&controller), vec![0, 0, 0x80]);
}

#[test]
fn write_on_a_chain_longer_than_sixty_four_bits_pads_with_zeros() {
    let emulator = Emulator::new(9);
    let mut controller = Controller::connect(emulator, 9);
    controller.on();
    controller.write(u64::MAX);
    let values: Vec<u8> = controller.connector().registers().iter().map(|r| r.state()).collect();
    assert_eq!(values, vec![0, 0xFF, 0xFF, 0xFF, 0xFF, 0xFF, 0xFF, 0xFF, 0xFF]);
}

#[test]
fn reset_clears_outputs_whatever_they_held() {
    let mut controller = emulator_controller();
    controller.write(0xAB_CD_EF);
    assert_ne!(states(&controller), vec![0, 0, 0]);
    controller.reset();
    assert_eq!(states(&controller), vec![0, 0, 0]);
    controller.off();
    assert_eq!(states(&controller), vec![0, 0, 0]);
}

#[test]
fn off_hides_and_on_restores_outputs() {
    let mut controller = emulator_controller();
    controller.write(0x12_34_56);
    let shown = states(&controller);
    controller.off();
    assert_eq!(states(&controller), vec![0, 0, 0]);
    assert!(!controller.connector().is_on());
    controller.on();
    assert_eq!(states(&controller), shown);
    assert!(controller.connector().is_on());
}

#[test]
fn single_bit_shifts_match_one_two_bit_shift() {
    let mut singles = emulator_controller();
    singles.shift_high();
    singles.shift_low();

    let mut double = emulator_controller();
    double.shift(0b01, 2);

    assert_eq!(states(&singles), states(&double));
    assert_eq!(states(&singles)[0], 0b10);
    for pin in [Pin::Clock, Pin::Control, Pin::Data, Pin::Latch] {
        assert_eq!(singles.connector().get_pin(pin), double.connector().get_pin(pin));
    }
}

#[test]
fn connect_drives_latch_low_and_adopts_control_level() {
    let mut emulator = Emulator::new(2);
    emulator.set_pin(Pin::Control, true);
    emulator.set_pin(Pin::Latch, true);
    let mut controller = Controller::connect(emulator, 2);
    assert!(!controller.connector().get(Pin::Latch));
    assert_eq!(controller.register_chain(), 2);
    // Already on: `on` leaves the control line alone, `off` drives it low.
    controller.on();
    assert!(controller.connector().is_on());
    controller.off();
    assert!(!controller.connector().is_on());
}

#[test]
fn shift_leaves_clock_high_and_latch_low() {
    let mut controller = emulator_controller();
    controller.shift(0b1, 1);
    assert!(controller.connector().get_pin(Pin::Clock));
    assert!(controller.connector().get_pin(Pin::Data));
    assert!(!controller.connector().get_pin(Pin::Latch));
}
