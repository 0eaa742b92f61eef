use tpic6c596::benchmark::{Benchmark, Iterations};
use tpic6c596::definition::Arguments;

#[test]
fn benchmark_build_benchmark() {
    let benchmark = Benchmark::build("bui ld")
        .with_label("Build Test")
        .with_variant(Arguments::from_strs(&["hello"]))
        .with_warmup(23usize)
        .with_iterations(500usize)
        .build();

    assert_eq!(benchmark.id(), "build");
    assert_eq!(benchmark.label(), "Build Test");
    assert_eq!(benchmark.variants(), [Arguments::from_strs(&["hello"])]);

    assert_eq!(benchmark.iterations(), &Iterations::new(23, 500));
}

#[test]
fn benchmark_build_uses_id_for_label_if_no_label_set() {
    let benchmark = Benchmark::build("label").build();

    assert_eq!(benchmark.id(), "label");
    assert_eq!(benchmark.label(), "Label");
}

#[test]
fn build_uses_warmup_of_log10_benchmarks_by_default() {
    let benchmark = Benchmark::build("warmup").with_iterations(100_usize).build();

    assert_eq!(benchmark.iterations().warmup(), 2);

    let benchmark = Benchmark::build("warmup").with_iterations(100_000_usize).build();

    assert_eq!(benchmark.iterations().warmup(), 5);
}

#[test]
fn benchmark_builder_filters_duplicate_arguments() {
    let benchmark = Benchmark::build("duplicates")
        .with_variant(Arguments::from_strs(&["some a"]))
        .with_variant(Arguments::from_strs(&["some b"]))
        .with_variant(Arguments::from_strs(&["some a"]))
        .with_variant(Arguments::from_strs(&["some c"]))
        .build();

    assert_eq!(benchmark.variants().len(), 3);
    assert!(benchmark.variants().contains(&Arguments::from_strs(&["some a"])));
    assert!(benchmark.variants().contains(&Arguments::from_strs(&["some b"])));
    assert!(benchmark.variants().contains(&Arguments::from_strs(&["some c"])));
}

#[test]
fn benchmark_defaults_to_one_variant_without_arguments_and_100_iterations() {
    let benchmark = Benchmark::build("Some-Thing_1").build();
    assert_eq!(benchmark.id(), "something_1");
    assert_eq!(benchmark.label(), "Something_1");
    assert_eq!(benchmark.variants(), [Arguments::none()]);
    assert_eq!(benchmark.iterations().benchmark(), 100);
    assert_eq!(benchmark.iterations().warmup(), 2);
}

#[test]
fn benchmark_ignores_a_variant_without_arguments() {
    let benchmark = Benchmark::build("empty")
        .with_variant(Arguments::none())
        .with_variant(Arguments::from_strs(&["x", "y"]))
        .build();
    assert_eq!(benchmark.variants(), [Arguments::from_strs(&["x", "y"])]);
}

#[test]
fn benchmark_warmup_of_zero_is_kept() {
    let benchmark = Benchmark::build("w").with_warmup(0usize).with_iterations(7usize).build();
    assert_eq!(benchmark.iterations(), &Iterations::new(0, 7));
}
