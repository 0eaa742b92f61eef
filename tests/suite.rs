use tpic6c596::definition::{Arguments, Iterations};
use tpic6c596::suite::Suite;

#[test]
fn mod_build_benchmark() {
    let suite = Suite::build("bui ld")
        .label("Build Test")
        .arg("hello")
        .warmup(23usize)
        .iterations(500usize)
        .build();

    for case in suite.case_list() {
        assert_eq!(case.id(), "build");
        assert_eq!(case.label(), "Build Test");
        assert_eq!(case.arguments(), Arguments::from_strs(&["hello"]));

        assert_eq!(case.iterations(), Iterations::new(Some(23), Some(500)));
    }
    assert_eq!(suite.case_list().len(), 1);
}

#[test]
fn mod_build_uses_id_for_label_if_no_label_set() {
    let benchmark = Suite::build("label").build();

    assert_eq!(benchmark.id(), "label");
    assert_eq!(benchmark.label(), "Label");
}

#[test]
fn build_uses_warmup_base_on_benchmarks_by_default() {
    let benchmark = Suite::build("warmup").iterations(100_usize).build();
    let case = benchmark.cases().next().expect("first");
    assert_eq!(case.iterations().warmup(), 4);

    let benchmark = Suite::build("warmup").iterations(100_000_usize).build();
    let case = benchmark.cases().next().expect("first");
    assert_eq!(case.iterations().warmup(), 10);
}

#[test]
fn mod_builder_filters_duplicate_arguments() {
    let benchmark = Suite::build("duplicates")
        .case("a", |case| case.arg("some a"))
        .case("b", |case| case.arg("some b"))
        .case("c", |case| case.arg("some c"))
        .case("a", |case| case.arg("some a"))
        .build();

    assert_eq!(benchmark.case_list().len(), 3);

    assert!(benchmark.case_list().iter().any(|c| c.arguments().contains("some a")));
    assert!(benchmark.case_list().iter().any(|c| c.arguments().contains("some b")));
    assert!(benchmark.case_list().iter().any(|c| c.arguments().contains("some c")));
}

#[test]
fn matrix_cases_combine_namespace_and_case() {
    let suite = Suite::build("single_pin")
        .label("Single Pin")
        .arg("base")
        .warmup(3)
        .case("gpio17", |case| case.label("GPIO 17").arg("17").iterations(50))
        .case("gpio22", |case| case.arg("22"))
        .build();

    assert_eq!(suite.id(), "single_pin");
    assert_eq!(suite.short_label(), "Single Pin");
    assert_eq!(suite.label(), "Single Pin (GPIO 17, Gpio22)");

    let cases = suite.case_list();
    assert_eq!(cases.len(), 2);
    assert_eq!(cases[0].id(), "single_pin.gpio17");
    assert_eq!(cases[0].label(), "Single Pin: GPIO 17");
    assert_eq!(cases[0].arguments(), Arguments::from_strs(&["base", "17"]));
    assert_eq!(cases[0].iterations(), Iterations::new(Some(3), Some(50)));
    assert_eq!(cases[1].id(), "single_pin.gpio22");
    assert_eq!(cases[1].iterations().benchmark(), 100);
    assert_eq!(cases[1].iterations().warmup(), 3);
}

#[test]
fn case_walk_contains_its_cases_and_ends() {
    let suite = Suite::build("m")
        .case("x", |case| case)
        .case("y", |case| case)
        .build();
    let list = suite.case_list();
    assert!(suite.cases().contains(&list[1]));

    let other = Suite::build("m").case("z", |case| case).build();
    let foreign = other.case_list();
    assert!(!suite.cases().contains(&foreign[0]));

    let mut walk = suite.cases();
    assert!(walk.next().is_some());
    assert!(walk.next().is_some());
    assert!(walk.next().is_none());
}

#[test]
fn zero_iterations_leave_the_default() {
    let suite = Suite::build("zero").iterations(0).build();
    let case = suite.cases().next().expect("first");
    assert!(!case.iterations().has_benchmark());
    assert_eq!(case.iterations().benchmark(), 100);
}

#[test]
fn iterations_take_the_first_setting_that_is_set() {
    let a = Iterations::new(None, Some(5));
    let b = Iterations::new(Some(1), Some(9));
    assert_eq!(a.or(b), Iterations::new(Some(1), Some(5)));
    let mut c = Iterations::new(None, None);
    c.or_assign(b);
    assert_eq!(c, b);
    assert_eq!(Iterations::new(None, Some(0)), Iterations::new(None, None));
    assert_eq!(Iterations::new(None, Some(1000)).warmup(), 6);
}

#[test]
fn arguments_add_append_and_contain() {
    let mut args = Arguments::none();
    assert!(args.is_none());
    args.add("a");
    args.append(Arguments::from_strs(&["b", "c"]));
    assert_eq!(args, Arguments::from_strs(&["a", "b", "c"]));
    assert!(args.contains("b"));
    assert!(!args.contains("d"));
    assert_eq!(args.len(), 3);
    assert_eq!(args.get(2), "c");
}
