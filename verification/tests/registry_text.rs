use prometheus_rs::{
    Collector, Counter, CounterGroup, HistogramBuilder, Label, NumCell, PromErrorKind,
    RegistryBuilder, UintCounter,
};

#[test]
fn label_name_validation() {
    // Rejected: the reserved name, the empty name, a leading digit, a space.
    assert_eq!(
        Label::new("le", "v").unwrap_err().kind(),
        PromErrorKind::InvalidLabelName
    );
    assert_eq!(
        Label::new("", "v").unwrap_err().kind(),
        PromErrorKind::InvalidLabelName
    );
    assert_eq!(
        Label::new("1abc", "v").unwrap_err().kind(),
        PromErrorKind::InvalidLabelName
    );
    assert_eq!(
        Label::new("a b", "v").unwrap_err().kind(),
        PromErrorKind::InvalidLabelName
    );

    // Accepted: underscores and digits after the first character, and a
    // leading underscore.
    assert!(Label::new("abc_123", "v").is_ok());
    assert!(Label::new("_private", "v").is_ok());
}

#[test]
fn metric_name_validation() {
    assert_eq!(
        UintCounter::new("", "help").unwrap_err().kind(),
        PromErrorKind::InvalidMetricName
    );
    assert_eq!(
        UintCounter::new("0abc", "help").unwrap_err().kind(),
        PromErrorKind::InvalidMetricName
    );
    assert_eq!(
        UintCounter::new("a-b", "help").unwrap_err().kind(),
        PromErrorKind::InvalidMetricName
    );
    assert!(UintCounter::new("ns:requests_total", "help").is_ok());
    assert!(UintCounter::new("_hidden", "help").is_ok());
}

#[test]
fn end_to_end_counter_text() {
    let mut counter: UintCounter = Counter::new("http_requests_total", "Total requests").unwrap();
    counter.inc();
    counter.inc();

    let registry = RegistryBuilder::new()
        .register(Collector::UintCounter(counter))
        .build()
        .unwrap();

    let expected = "# HELP http_requests_total Total requests\n\
                    # TYPE http_requests_total counter\n\
                    http_requests_total 2\n";
    assert_eq!(registry.collect_to_string().unwrap(), expected);
}

#[test]
fn histogram_exposition_text() {
    let mut hist = HistogramBuilder::<NumCell<u64>>::new()
        .name("latency")
        .help("Request latency")
        .with_labels(vec![Label::new("svc", "api").unwrap()])
        .with_buckets(vec![1, 5])
        .build()
        .unwrap();

    hist.observe(1);
    hist.observe(3);
    hist.observe(70);

    let registry = RegistryBuilder::new()
        .register(Collector::UintHistogram(hist))
        .build()
        .unwrap();

    let expected = "# HELP latency Request latency\n\
                    # TYPE latency histogram\n\
                    latency_sum{svc=\"api\"} 74\n\
                    latency_count{svc=\"api\"} 3\n\
                    latency_bucket{svc=\"api\",le=\"1\"} 1\n\
                    latency_bucket{svc=\"api\",le=\"5\"} 1\n";
    assert_eq!(registry.collect_to_string().unwrap(), expected);
}

#[test]
fn histogram_text_without_labels_keeps_le() {
    let hist = HistogramBuilder::<NumCell<u64>>::new()
        .name("plain")
        .help("No labels")
        .with_buckets(vec![2])
        .build()
        .unwrap();

    let registry = RegistryBuilder::new()
        .register(Collector::UintHistogram(hist))
        .build()
        .unwrap();

    let expected = "# HELP plain No labels\n\
                    # TYPE plain histogram\n\
                    plain_sum 0\n\
                    plain_count 0\n\
                    plain_bucket{le=\"2\"} 0\n";
    assert_eq!(registry.collect_to_string().unwrap(), expected);
}

#[test]
fn help_text_is_escaped_once() {
    let counter: UintCounter = Counter::new("tricky", "line one\nback\\slash").unwrap();
    assert_eq!(counter.help(), "line one\\nback\\\\slash");

    let registry = RegistryBuilder::new()
        .register(Collector::UintCounter(counter))
        .build()
        .unwrap();

    let expected = "# HELP tricky line one\\nback\\\\slash\n\
                    # TYPE tricky counter\n\
                    tricky 0\n";
    assert_eq!(registry.collect_to_string().unwrap(), expected);
}

#[test]
fn registry_rejects_duplicates() {
    let a: UintCounter = Counter::new("dup_metric", "first").unwrap();
    let b: UintCounter = Counter::new("dup_metric", "second").unwrap();

    let err = RegistryBuilder::new()
        .register(Collector::UintCounter(a))
        .register(Collector::UintCounter(b))
        .build()
        .err()
        .unwrap();
    assert_eq!(err.kind(), PromErrorKind::DuplicatedCollector);
    assert_eq!(err.message(), "dup_metric was registered twice");
}

#[test]
fn registry_distinguishes_by_labels() {
    let a: UintCounter = Counter::new("same_name", "first")
        .unwrap()
        .with_labels(vec![Label::new("shard", "0").unwrap()]);
    let b: UintCounter = Counter::new("same_name", "second")
        .unwrap()
        .with_labels(vec![Label::new("shard", "1").unwrap()]);

    // Same name but different label values: not a duplicate.
    assert!(RegistryBuilder::new()
        .register(Collector::UintCounter(a))
        .register(Collector::UintCounter(b))
        .build()
        .is_ok());
}

#[test]
fn registry_requires_a_collector() {
    let err = RegistryBuilder::new().build().err().unwrap();
    assert_eq!(err.kind(), PromErrorKind::MissingComponent);

    let err = RegistryBuilder::new().register_all(Vec::new()).build().err().unwrap();
    assert_eq!(err.kind(), PromErrorKind::MissingComponent);
}

#[test]
fn registry_sorts_by_name() {
    let zeta: UintCounter = Counter::new("zeta_total", "Last by name").unwrap();
    let mut alpha: UintCounter = Counter::new("alpha_total", "First by name").unwrap();
    let mid: UintCounter = Counter::new("midway_total", "In between").unwrap();
    alpha.inc();

    // Registration order is zeta, alpha, midway; output order is by name.
    let registry = RegistryBuilder::new()
        .register(Collector::UintCounter(zeta))
        .register(Collector::UintCounter(alpha))
        .register(Collector::UintCounter(mid))
        .build()
        .unwrap();

    let expected = "# HELP alpha_total First by name\n\
                    # TYPE alpha_total counter\n\
                    alpha_total 1\n\
                    # HELP midway_total In between\n\
                    # TYPE midway_total counter\n\
                    midway_total 0\n\
                    # HELP zeta_total Last by name\n\
                    # TYPE zeta_total counter\n\
                    zeta_total 0\n";
    assert_eq!(registry.collect_to_string().unwrap(), expected);
}

#[test]
fn registry_collect_handles() {
    let a: UintCounter = Counter::new("one_total", "First").unwrap();
    let b: UintCounter = Counter::new("two_total", "Second").unwrap();

    let registry = RegistryBuilder::new()
        .register(Collector::UintCounter(a))
        .register(Collector::UintCounter(b))
        .build()
        .unwrap();
    registry.init_registered();

    let metrics = registry.collect();
    assert_eq!(metrics.len(), 2);

    let mut buf = String::new();
    metrics[0].encode_text(&mut buf).unwrap();
    assert_eq!(buf, "# HELP one_total First\n# TYPE one_total counter\none_total 0\n");
}

#[test]
fn registry_collects_groups() {
    let mut group: CounterGroup<String, NumCell<u64>> = CounterGroup::new(
        "worker_tasks",
        "Tasks per worker",
        "worker",
        vec!["red".to_string(), "blue".to_string()],
    )
    .unwrap();
    group.inc_by("blue".to_string(), 2);

    let registry = RegistryBuilder::new()
        .register(Collector::UintCounterGroup(group))
        .build()
        .unwrap();

    let expected = "# HELP worker_tasks Tasks per worker\n\
                    # TYPE worker_tasks counter\n\
                    worker_tasks{worker=\"red\"} 0\n\
                    worker_tasks{worker=\"blue\"} 2\n";
    assert_eq!(registry.collect_to_string().unwrap(), expected);
}
