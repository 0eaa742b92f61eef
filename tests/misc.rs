use tpic6c596::choreography::{Choreography, Format, Info, Status};
use tpic6c596::ids::clean_id;
use tpic6c596::output::{Output, Timings};
use tpic6c596::{decode, encode, Message, Pin, Relay};

#[test]
fn valid_clean_id() {
    assert_eq!(clean_id("Hello"), Some("hello".into()));
    assert_eq!(clean_id("My__name"), Some("my_name".into()));
    assert_eq!(clean_id(" My_ _nam e "), Some("my_name".into()));
    assert_eq!(clean_id("   "), None);
}

#[test]
fn compile_from_python() {
    let choreography = Choreography::new("Test", Format::Python, "print('Hello world!')");

    assert_eq!(choreography.compile(), "print('Hello world!')");
}

#[test]
fn choreography_keeps_name_and_replaces_source() {
    let choreography = Choreography::new("Test", Format::Python, "a");
    let updated = choreography.clone().with_source(Format::Python, "b");
    assert_eq!(updated.name(), "Test");
    assert_eq!(updated.data(), "b");
    let renamed = updated.renamed("new");
    assert_eq!(renamed.name(), "new");
    assert_eq!(renamed.data(), "b");
    assert_eq!(renamed.format(), Format::Python);
}

#[test]
fn info_status_follows_exit() {
    let playing = Info::new("show");
    assert_eq!(playing.status(), Status::Playing);
    assert_eq!(playing.log(), "");
    assert_eq!(playing.choreography(), "show");
    let done = Info::finished("show", "out\n".to_string(), "err\n".to_string(), true);
    assert_eq!(done.status(), Status::Stopped);
    assert_eq!(done.log(), "out\nerr\n");
    let failed = Info::finished("show", String::new(), String::new(), false);
    assert_eq!(failed.status(), Status::Errored);
}

#[test]
fn output_reports_timings_only_on_success() {
    let timings = Timings { execution: 30, warmup: 10, benchmark: 20 };
    let ok = Output::success("log".to_string(), timings);
    assert_eq!(ok.timings(), Some(timings));
    let missing = Output::implementation_not_found();
    assert_eq!(missing.timings(), None);
    assert_eq!(missing.log(), "Implementation not found.");
    assert_eq!(Output::failure("boom").timings(), None);
}

#[test]
fn messages_encode_pin_in_low_nibble_and_level_in_high_bit() {
    assert_eq!(encode(Pin::Data, false), 1);
    assert_eq!(encode(Pin::Control, true), 0x82);
    assert_eq!(encode(Pin::Clock, false), 3);
    assert_eq!(encode(Pin::Latch, true), 0x84);
    assert_eq!(decode(0x83), Some(Message { pin: Pin::Clock, state: true }));
    assert_eq!(decode(0x02), Some(Message { pin: Pin::Control, state: false }));
    assert_eq!(decode(0x05), None);
    assert_eq!(decode(0x80), None);
    for pin in [Pin::Clock, Pin::Control, Pin::Data, Pin::Latch] {
        for state in [false, true] {
            assert_eq!(decode(encode(pin, state)), Some(Message { pin, state }));
        }
    }
}

#[test]
fn relay_records_levels_and_yields_bytes() {
    let mut relay = Relay::new();
    assert!(!relay.get(Pin::Latch));
    assert_eq!(relay.set(Pin::Latch, true), 0x84);
    assert!(relay.get(Pin::Latch));
    assert!(!relay.get(Pin::Clock));
}
