use tpic6c596::all_ones;
use tpic6c596::choreography::{Choreography, Format, Storage};
use tpic6c596::implementation::{join_path, Implementation};
use tpic6c596::output::Timings;
use tpic6c596::results::Results;
use tpic6c596::suite::Suite;
use tpic6c596::text::{decimal_string, quoted};
use tpic6c596::timing::timings;

#[test]
fn timings_read_from_the_last_lines() {
    let t = timings(99, "hello\nwarmup: 12\nbenchmark: 3400\n");
    assert_eq!(t, Some(Timings { execution: 99, warmup: 12, benchmark: 3400 }));
}

#[test]
fn timings_in_either_order_with_blank_lines_and_crlf() {
    let t = timings(1, "benchmark: 5\r\n\r\n  \nwarmup: +7\r\n\n");
    assert_eq!(t, Some(Timings { execution: 1, warmup: 7, benchmark: 5 }));
}

#[test]
fn timings_reject_a_foreign_line_between_them() {
    assert_eq!(timings(1, "warmup: 1\nnoise\nbenchmark: 2\n"), None);
}

#[test]
fn timings_reject_a_bad_number() {
    assert_eq!(timings(1, "warmup: 1\nbenchmark: 2x\n"), None);
    assert_eq!(timings(1, "warmup: \nbenchmark: 2\n"), None);
    assert_eq!(timings(1, "warmup: -1\nbenchmark: 2\n"), None);
    assert_eq!(timings(1, "warmup: 340282366920938463463374607431768211456\nbenchmark: 2\n"), None);
}

#[test]
fn timings_accept_the_largest_number() {
    let t = timings(0, "warmup: 340282366920938463463374607431768211455\nbenchmark: 0\n");
    assert_eq!(t, Some(Timings { execution: 0, warmup: u128::MAX, benchmark: 0 }));
}

#[test]
fn timings_missing_one_time_give_none() {
    assert_eq!(timings(1, "benchmark: 2\n"), None);
    assert_eq!(timings(1, ""), None);
}

#[test]
fn timings_stop_once_both_are_known() {
    let t = timings(4, "anything above\nwarmup: 8\nbenchmark: 9");
    assert_eq!(t, Some(Timings { execution: 4, warmup: 8, benchmark: 9 }));
}

#[test]
fn decimal_and_quoted_text() {
    assert_eq!(decimal_string(0), "0");
    assert_eq!(decimal_string(1200), "1200");
    assert_eq!(decimal_string(u128::MAX), u128::MAX.to_string());
    assert_eq!(quoted("a\"b"), "\"a\\\"b\"");
}

#[test]
fn results_record_and_render_json() {
    let suite = Suite::build("blink").arg("3").warmup(1).iterations(10).build();
    let cases = suite.case_list();
    let rust = Implementation::build("rust").build("/work");
    let python = Implementation::build("python").directory("/py").build("/work");
    let mut results = Results::new("Pi 4");
    results.record(&cases[0], &rust, Timings { execution: 30, warmup: 1, benchmark: 2 });
    results.record(&cases[0], &python, Timings { execution: 60, warmup: 3, benchmark: 4 });
    results.record(&cases[0], &rust, Timings { execution: 31, warmup: 5, benchmark: 6 });
    let expected = [
        "{\"device\":\"Pi 4\",\"benchmarks\":{\"blink\":{\"label\":\"Blink\",\"arguments\":[\"3\"],",
        "\"warmup\":1,\"benchmark\":10}},\"timings\":{\"blink\":{",
        "\"rust\":{\"warmup\":5,\"benchmark\":6,\"execution\":31},",
        "\"python\":{\"warmup\":3,\"benchmark\":4,\"execution\":60}}}}",
    ]
    .join("");
    assert_eq!(results.to_json(), expected);
}

#[test]
fn empty_results_render_empty_objects() {
    let results = Results::new("Unknown");
    assert_eq!(results.to_json(), "{\"device\":\"Unknown\",\"benchmarks\":{},\"timings\":{}}");
}

#[test]
fn implementation_defaults_and_candidates() {
    let implementation = Implementation::build("My Impl!").build("/bench/");
    assert_eq!(implementation.id(), "myimpl");
    assert_eq!(implementation.label(), "Myimpl");
    assert_eq!(implementation.directory(), "/bench/myimpl");
    let files = implementation.file_candidates("shift_bit");
    assert_eq!(files, vec!["/bench/myimpl/shift_bit".to_string(), "/bench/myimpl/shift_bit.py".to_string()]);

    let custom = Implementation::build("c").label("C code").directory("impl/c").build("/x");
    assert_eq!(custom.label(), "C code");
    assert_eq!(custom.directory(), "impl/c");
    assert_eq!(join_path("", "a"), "a");
    assert_eq!(join_path("d", "a"), "d/a");
}

#[test]
fn storage_names_files_by_lower_case_alphanumeric_id() {
    let storage = Storage::new("./test");
    assert_eq!(Storage::name_to_id("TeSt"), "test");
    assert_eq!(Storage::name_to_id("My Show 2!"), "myshow2");
    assert_eq!(Storage::name_to_id("Café"), "café");
    assert_eq!(storage.name_to_path("TeSt"), "./test/test.json");
    let choreography = Choreography::new("Test", Format::Python, "print('Hello world')");
    assert_eq!(storage.path(&choreography), "./test/test.json");
    assert!(!Storage::moves("Test", "TEST"));
    assert!(Storage::moves("Test", "new"));
}

#[test]
fn all_ones_sets_the_low_bits() {
    assert_eq!(all_ones(0), 0);
    assert_eq!(all_ones(8), 0xFF);
    assert_eq!(all_ones(24), 0xFF_FF_FF);
    assert_eq!(all_ones(64), u64::MAX);
}
