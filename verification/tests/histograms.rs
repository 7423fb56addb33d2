use prometheus_rs::{
    CounterGroup, HistogramBuilder, HistogramGroup, Label, NumCell, PromErrorKind,
};

#[test]
fn build() {
    let built = HistogramBuilder::<NumCell<i64>>::new()
        .name("some_histogram")
        .help("It hist's grams")
        .with_buckets(vec![-1, 0, 0, 1])
        .with_labels(vec![Label::new("some_random_label", "whee").unwrap()])
        .label(Label::new("another_label", "I ran out of ideas").unwrap())
        .build()
        .unwrap();

    assert_eq!(built.name(), "some_histogram");
    assert_eq!(built.help(), "It hist's grams");
    assert_eq!(built.buckets(), &vec![-1, 0, 0, 1]);
    assert_eq!(
        built.labels(),
        &vec![
            Label::new("some_random_label", "whee").unwrap(),
            Label::new("another_label", "I ran out of ideas").unwrap()
        ]
    );
}

#[test]
fn build_requires_every_component() {
    let missing_name = HistogramBuilder::<NumCell<u64>>::new()
        .help("no name")
        .with_buckets(vec![1, 2])
        .build()
        .err()
        .unwrap();
    assert_eq!(missing_name.kind(), PromErrorKind::MissingComponent);

    let missing_help = HistogramBuilder::<NumCell<u64>>::new()
        .name("no_help")
        .with_buckets(vec![1, 2])
        .build()
        .err()
        .unwrap();
    assert_eq!(missing_help.kind(), PromErrorKind::MissingComponent);

    let missing_buckets = HistogramBuilder::<NumCell<u64>>::new()
        .name("no_buckets")
        .help("still no buckets")
        .build()
        .err()
        .unwrap();
    assert_eq!(missing_buckets.kind(), PromErrorKind::MissingComponent);

    let empty_buckets = HistogramBuilder::<NumCell<u64>>::new()
        .name("empty_buckets")
        .help("an empty bucket list")
        .with_buckets(Vec::new())
        .build()
        .err()
        .unwrap();
    assert_eq!(empty_buckets.kind(), PromErrorKind::MissingComponent);

    let bad_name = HistogramBuilder::<NumCell<u64>>::new()
        .name("0starts_with_digit")
        .help("bad name")
        .with_buckets(vec![1])
        .build()
        .err()
        .unwrap();
    assert_eq!(bad_name.kind(), PromErrorKind::InvalidMetricName);
}

#[test]
fn observe_boundary_is_inclusive() {
    let mut hist = HistogramBuilder::<NumCell<u64>>::new()
        .name("bounds")
        .help("Boundary checks")
        .with_buckets(vec![10, 20, 30])
        .build()
        .unwrap();

    // A value equal to a bound counts in that bound's bucket.
    hist.observe(20);
    assert_eq!(hist.values(), vec![0, 1, 0]);

    // A value above every bound increments no bucket, but count and sum grow.
    hist.observe(100);
    assert_eq!(hist.values(), vec![0, 1, 0]);
    assert_eq!(hist.get_count(), 2);
    assert_eq!(hist.get_sum(), 120);
}

#[test]
fn observe_bucket_reports_missing_bound() {
    let mut hist = HistogramBuilder::<NumCell<u64>>::new()
        .name("strict")
        .help("Wants a bucket")
        .with_buckets(vec![1, 5])
        .build()
        .unwrap();

    hist.observe_bucket(4, 5).unwrap();
    assert_eq!(hist.values(), vec![0, 1]);

    let err = hist.observe_bucket(9, 5).unwrap_err();
    assert_eq!(err.kind(), PromErrorKind::BucketNotFound);
    assert_eq!(err.message(), "The bucket 5 doesn't exist");
    assert_eq!(hist.get_count(), 1);
    assert_eq!(hist.get_sum(), 4);
}

#[test]
fn clear_resets_to_fresh() {
    let mut hist = HistogramBuilder::<NumCell<u64>>::new()
        .name("resettable")
        .help("Cleared and reused")
        .with_buckets(vec![1, 5, 10])
        .build()
        .unwrap();

    hist.observe(1);
    hist.observe(7);
    hist.observe(100);
    assert_eq!(hist.get_count(), 3);

    hist.clear();
    assert_eq!(hist.values(), vec![0, 0, 0]);
    assert_eq!(hist.get_count(), 0);
    assert_eq!(hist.get_sum(), 0);

    // After a clear the histogram behaves exactly like a fresh one.
    hist.observe(5);
    assert_eq!(hist.values(), vec![0, 1, 0]);
    assert_eq!(hist.get_count(), 1);
    assert_eq!(hist.get_sum(), 5);
}

#[test]
fn end_to_end_integer_histogram() {
    // Bounds [1, 5, u64::MAX], observations 0, 3 and 100: one observation
    // per bucket, count 3, sum 103.
    let mut hist = HistogramBuilder::<NumCell<u64>>::new()
        .name("spread")
        .help("One observation per bucket")
        .with_buckets(vec![1, 5, u64::MAX])
        .build()
        .unwrap();

    hist.observe(0);
    hist.observe(3);
    hist.observe(100);

    assert_eq!(hist.values(), vec![1, 1, 1]);
    assert_eq!(hist.get_count(), 3);
    assert_eq!(hist.get_sum(), 103);
}

#[test]
fn local_histogram_stages_and_flushes() {
    let mut hist = HistogramBuilder::<NumCell<u64>>::new()
        .name("buffered")
        .help("Batched observations")
        .with_buckets(vec![1, 5, 10])
        .build()
        .unwrap();

    let mut local = hist.local();

    // Flushing an empty buffer changes nothing in the shared core.
    local.flush(&mut hist);
    assert_eq!(hist.get_count(), 0);
    assert_eq!(hist.get_sum(), 0);
    assert_eq!(hist.values(), vec![0, 0, 0]);

    local.observe(1);
    local.observe(4);
    local.observe(9);

    // Nothing is visible in the shared core before the flush.
    assert_eq!(local.get_count(), 3);
    assert_eq!(local.get_sum(), 14);
    assert_eq!(hist.get_count(), 0);

    local.flush(&mut hist);

    // The shared count grew by exactly the staged count, the sum by the
    // staged sum, and the buffer is empty again.
    assert_eq!(hist.get_count(), 3);
    assert_eq!(hist.get_sum(), 14);
    assert_eq!(hist.values(), vec![1, 1, 1]);
    assert_eq!(local.get_count(), 0);
    assert_eq!(local.get_sum(), 0);

    local.observe(2);
    local.clear();
    local.flush(&mut hist);
    assert_eq!(hist.get_count(), 3);
}

#[test]
fn counter_group() {
    let mut group: CounterGroup<String, NumCell<u64>> = CounterGroup::new(
        "counters",
        "A group of counters",
        "group_key",
        vec![
            "a".to_string(),
            "b".to_string(),
            "c".to_string(),
            "d".to_string(),
            "e".to_string(),
            "f".to_string(),
            "g".to_string(),
        ],
    )
    .unwrap();

    group.inc("a".to_string());
    assert_eq!(group.get("a".to_string()), 1);
}

#[test]
fn counter_group_strings() {
    let mut group: CounterGroup<String, NumCell<u64>> = CounterGroup::new(
        "counters",
        "A group of counters",
        "this_is_the_key",
        vec![
            "key_one".to_string(),
            "key_two".to_string(),
            "key_three".to_string(),
            "key_four".to_string(),
            "key_five".to_string(),
            "key_six".to_string(),
            "key_seven".to_string(),
        ],
    )
    .unwrap();

    group.inc("key_one".to_string());
    assert_eq!(group.get("key_one".to_string()), 1);
}

#[test]
fn histogram_group() {
    let mut group: HistogramGroup<String, NumCell<u64>> = HistogramGroup::new(
        "histogram_group",
        "It's a group of histograms",
        "histogram_bucket",
        vec![
            "bucket1".to_string(),
            "bucket2".to_string(),
            "bucket3".to_string(),
            "bucket4".to_string(),
        ],
        vec![1u64, 2, 3, 4],
    )
    .unwrap();

    group.get_mut("bucket1".to_string()).observe(4);
    group.get_mut("bucket2".to_string()).observe(3);
    group.get_mut("bucket3".to_string()).observe(2);
    group.get_mut("bucket4".to_string()).observe(1);

    assert_eq!(group.get("bucket1".to_string()).values(), vec![0, 0, 0, 1]);
    assert_eq!(group.get("bucket2".to_string()).values(), vec![0, 0, 1, 0]);
    assert_eq!(group.get("bucket3".to_string()).values(), vec![0, 1, 0, 0]);
    assert_eq!(group.get("bucket4".to_string()).values(), vec![1, 0, 0, 0]);
}

#[test]
fn group_rejects_bad_names() {
    let bad_label: Result<CounterGroup<String, NumCell<u64>>, _> =
        CounterGroup::new("counters", "help", "le", vec!["a".to_string()]);
    assert_eq!(bad_label.err().unwrap().kind(), PromErrorKind::InvalidLabelName);

    let bad_name: Result<CounterGroup<String, NumCell<u64>>, _> =
        CounterGroup::new("9counters", "help", "group_key", vec!["a".to_string()]);
    assert_eq!(bad_name.err().unwrap().kind(), PromErrorKind::InvalidMetricName);
}

#[test]
fn group_try_get() {
    let mut group: CounterGroup<String, NumCell<u64>> = CounterGroup::new(
        "counters",
        "A group of counters",
        "group_key",
        vec!["present".to_string()],
    )
    .unwrap();

    group.inc_by("present".to_string(), 4);
    assert_eq!(group.try_get("present".to_string()), Some(4));
    assert_eq!(group.try_get("absent".to_string()), None);
}
