use raytracer::timing::BenchMark;

#[test]
fn test_seq() {
    let mut benchmark = BenchMark::new();

    benchmark.start("one");
    benchmark.stop("one");

    benchmark.start("two");
    benchmark.stop("two");

    println!("{}", benchmark.report());
}

#[test]
fn benchmark_accumulates_samples() {
    let mut b = BenchMark::new();
    b.start("work");
    b.stop("work");
    b.start("work");
    b.stop("work");
    let results = b.collect_timing_results();
    assert_eq!(results.len(), 1);
    assert_eq!(results[0].samples, 2);
    assert_eq!(results[0].name, "work".to_string());
}
