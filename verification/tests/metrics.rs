use prometheus_rs::{
    Counter, Exportable, Gauge, IntCounter, IntGauge, Label, Labeled, NumCell, PromErrorKind,
    UintCounter, UintGauge,
};

#[test]
fn uint_counter() {
    let mut uint: UintCounter = Counter::new("some_uint", "Counts things").unwrap();

    assert_eq!(uint.name(), "some_uint");

    uint.inc();
    assert_eq!(uint.get(), 1);

    uint.inc();
    assert_eq!(uint.get(), 2);

    uint.clear();
    assert_eq!(uint.get(), 0);

    uint.inc_by(10);
    assert_eq!(uint.get(), 10);

    uint.inc_by(0);
    assert_eq!(uint.get(), 10);

    uint.set(999);
    assert_eq!(uint.get(), 999);
}

#[test]
fn int_counter() {
    let mut int: IntCounter = Counter::new("some_int", "Counts things").unwrap();

    assert_eq!(int.name(), "some_int");

    int.inc();
    assert_eq!(int.get(), 1);

    int.inc();
    assert_eq!(int.get(), 2);

    int.clear();
    assert_eq!(int.get(), 0);

    int.inc_by(10);
    assert_eq!(int.get(), 10);

    int.inc_by(0);
    assert_eq!(int.get(), 10);

    int.set(999);
    assert_eq!(int.get(), 999);
}

#[test]
fn export_uint_counter() {
    let mut counter = UintCounter::new("uint_counter", "Counts things").unwrap();
    counter.inc();

    let expected = "# HELP uint_counter Counts things\n# TYPE uint_counter counter\nuint_counter 1\n";
    let mut exported = String::new();
    Exportable::export(&counter, &mut exported).unwrap();

    assert_eq!(expected, exported);

    let mut counter = UintCounter::new("uint_counter", "Counts things")
        .unwrap()
        .with_labels(vec![Label::new("some_label", "some_value").unwrap()]);
    counter.inc();

    let expected = "# HELP uint_counter Counts things\n# TYPE uint_counter counter\nuint_counter{some_label=\"some_value\"} 1\n";
    let mut exported = String::new();
    Exportable::export(&counter, &mut exported).unwrap();

    assert_eq!(expected, exported);

    let mut counter = UintCounter::new("uint_counter", "Counts things")
        .unwrap()
        .with_labels(vec![
            Label::new("some_label", "some_value").unwrap(),
            Label::new("another_label", "another_value").unwrap(),
        ]);
    counter.inc();

    let expected = "# HELP uint_counter Counts things\n# TYPE uint_counter counter\nuint_counter{some_label=\"some_value\",another_label=\"another_value\"} 1\n";
    let mut exported = String::new();
    Exportable::export(&counter, &mut exported).unwrap();

    assert_eq!(expected, exported);
}

#[test]
fn export_int_counter() {
    let mut counter = IntCounter::new("int_counter", "Counts things").unwrap();
    counter.inc();

    let expected = "# HELP int_counter Counts things\n# TYPE int_counter counter\nint_counter 1\n";
    let mut exported = String::new();
    Exportable::export(&counter, &mut exported).unwrap();

    assert_eq!(expected, exported);

    let mut counter = IntCounter::new("int_counter", "Counts things")
        .unwrap()
        .with_labels(vec![Label::new("some_label", "some_value").unwrap()]);
    counter.inc();

    let expected = "# HELP int_counter Counts things\n# TYPE int_counter counter\nint_counter{some_label=\"some_value\"} 1\n";
    let mut exported = String::new();
    Exportable::export(&counter, &mut exported).unwrap();

    assert_eq!(expected, exported);

    let mut counter = IntCounter::new("int_counter", "Counts things")
        .unwrap()
        .with_labels(vec![
            Label::new("some_label", "some_value").unwrap(),
            Label::new("another_label", "another_value").unwrap(),
        ]);
    counter.inc();

    let expected = "# HELP int_counter Counts things\n# TYPE int_counter counter\nint_counter{some_label=\"some_value\",another_label=\"another_value\"} 1\n";
    let mut exported = String::new();
    Exportable::export(&counter, &mut exported).unwrap();

    assert_eq!(expected, exported);
}

#[test]
fn export_negative_int_counter() {
    let mut counter = IntCounter::new("int_counter", "Counts things").unwrap();
    counter.set(-5);

    let expected = "# HELP int_counter Counts things\n# TYPE int_counter counter\nint_counter -5\n";
    let mut exported = String::new();
    Exportable::export(&counter, &mut exported).unwrap();

    assert_eq!(expected, exported);
}

#[test]
fn export_labeled_gauge() {
    let mut gauge: Gauge<NumCell<u64>> = Gauge::new();
    gauge.set(7);
    let labeled = Labeled::new(gauge, "some_gauge", "Gauges things").unwrap();

    let expected = "# HELP some_gauge Gauges things\n# TYPE some_gauge gauge\nsome_gauge 7\n";
    let mut exported = String::new();
    Exportable::export(&labeled, &mut exported).unwrap();

    assert_eq!(expected, exported);
}

#[test]
fn export_escapes_label_values() {
    let mut counter = UintCounter::new("quoted", "Counts things")
        .unwrap()
        .with_labels(vec![Label::new("path", "a\\b\"c\nd").unwrap()]);
    counter.inc();

    let expected = "# HELP quoted Counts things\n# TYPE quoted counter\nquoted{path=\"a\\\\b\\\"c\\nd\"} 1\n";
    let mut exported = String::new();
    Exportable::export(&counter, &mut exported).unwrap();

    assert_eq!(expected, exported);
}

#[test]
fn uint_gauge() {
    let mut uint = UintGauge::new("some_uint", "Counts things").unwrap();

    assert_eq!(uint.name(), "some_uint");

    uint.inc();
    assert_eq!(uint.get(), 1);

    uint.inc();
    assert_eq!(uint.get(), 2);

    uint.clear();
    assert_eq!(uint.get(), 0);

    uint.inc_by(10);
    assert_eq!(uint.get(), 10);

    uint.inc_by(0);
    assert_eq!(uint.get(), 10);

    uint.set(999);
    assert_eq!(uint.get(), 999);
}

#[test]
fn int_gauge() {
    let mut int = IntGauge::new("some_int", "Counts things").unwrap();

    assert_eq!(int.name(), "some_int");

    int.inc();
    assert_eq!(int.get(), 1);

    int.inc();
    assert_eq!(int.get(), 2);

    int.clear();
    assert_eq!(int.get(), 0);

    int.inc_by(10);
    assert_eq!(int.get(), 10);

    int.inc_by(0);
    assert_eq!(int.get(), 10);

    int.set(999);
    assert_eq!(int.get(), 999);
}

#[test]
fn gauge_moves_both_ways() {
    let mut gauge = IntGauge::new("updown", "Moves both ways").unwrap();

    gauge.inc_by(5);
    gauge.dec_by(8);
    assert_eq!(gauge.get(), -3);

    gauge.dec();
    assert_eq!(gauge.get(), -4);

    gauge.set(12);
    gauge.dec_by(2);
    assert_eq!(gauge.get(), 10);
}

#[test]
fn gauge_set_to_current_time() {
    let mut gauge = UintGauge::new("now_seconds", "The current Unix time").unwrap();
    gauge.set_to_current_time();

    // Some time after 2020-01-01 and name/description untouched.
    assert!(gauge.get() > 1_577_836_800);
    assert_eq!(gauge.description(), "The current Unix time");
}

#[test]
fn counter_try_inc_by_rejects_negative() {
    let mut int: IntCounter = Counter::new("some_int", "Counts things").unwrap();
    int.inc_by(3);

    let err = int.try_inc_by(-1).unwrap_err();
    assert_eq!(err.kind(), PromErrorKind::IncrementNegative);
    assert_eq!(int.get(), 3);

    int.try_inc_by(4).unwrap();
    assert_eq!(int.get(), 7);
}

#[test]
fn counter_accumulates_every_delta() {
    let mut counter: UintCounter = Counter::new("accumulator", "Sums deltas").unwrap();

    counter.inc_by(5);
    counter.inc_by(7);
    counter.inc();
    counter.inc_by(9);

    // No update is lost: the value is exactly the sum of all deltas.
    assert_eq!(counter.get(), 22);
}
