use tpic6c596::config::{apply_defaults, first_occurrences, resolve_directory};
use tpic6c596::definition::Iterations;
use tpic6c596::suite::Suite;
use tpic6c596::{decode, ByteSink, Connector, Controller, Emulator, Pin, RemoteConnector};

#[derive(Debug, Default)]
struct Wire(Vec<u8>);

impl ByteSink for Wire {
    fn send(&mut self, byte: u8) {
        self.0.push(byte);
    }
}

#[test]
fn remote_connector_sends_each_change_and_drives_an_emulator_alike() {
    let mut controller = Controller::connect(RemoteConnector::new(Wire::default()), 2);
    controller.on();
    controller.write(0xA5_3C);

    let bytes = &controller.connector().sink().0;
    assert_eq!(bytes[0], 0x04);
    assert_eq!(bytes[1], 0x82);

    let mut emulator = Emulator::new(2);
    for byte in bytes {
        let message = decode(*byte).expect("a pin message");
        emulator.set_pin(message.pin, message.state);
    }

    let mut direct = Controller::connect(Emulator::new(2), 2);
    direct.on();
    direct.write(0xA5_3C);

    let remote: Vec<u8> = emulator.registers().iter().map(|r| r.state()).collect();
    let local: Vec<u8> = direct.connector().registers().iter().map(|r| r.state()).collect();
    assert_eq!(remote, local);
    assert_eq!(local, vec![0xA5_u8.reverse_bits(), 0x3C_u8.reverse_bits()]);
    assert!(controller.connector().get(Pin::Control));
    assert!(!controller.connector().get(Pin::Latch));
}

#[test]
fn defaults_override_suite_iterations() {
    let builder = Suite::build("s").warmup(1).iterations(10);
    let suite = apply_defaults(builder, Iterations::new(None, Some(500))).build();
    let case = suite.cases().next().expect("first");
    assert_eq!(case.iterations(), Iterations::new(Some(1), Some(500)));

    let builder = Suite::build("s").iterations(10);
    let suite = apply_defaults(builder, Iterations::new(Some(0), None)).build();
    let case = suite.cases().next().expect("first");
    assert_eq!(case.iterations(), Iterations::new(Some(0), Some(10)));
}

#[test]
fn directories_resolve_against_the_working_directory() {
    assert_eq!(resolve_directory("/w", "impl", None), "/w/impl");
    assert_eq!(resolve_directory("/w", "impl", Some("/abs/dir")), "/abs/dir");
    assert_eq!(resolve_directory("/w/", "impl", Some("rel")), "/w/rel");
}

#[test]
fn later_duplicate_ids_are_marked() {
    let ids: Vec<String> = ["a", "b", "a", "c", "b"].iter().map(|s| s.to_string()).collect();
    assert_eq!(first_occurrences(&ids), vec![true, true, false, true, false]);
    assert_eq!(first_occurrences(&Vec::new()), Vec::<bool>::new());
}
